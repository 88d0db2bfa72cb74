//! The command interpreter's decision core: one line of operator input is
//! parsed into an `Instruction`. The command token is matched
//! case-insensitively; argument tokens past the ones a command uses are
//! ignored, as is extra whitespace. A generate-password length that is not
//! a decimal number of at least one is a validation error surfaced to the
//! operator, never a crash.

use crate::passgen::DEFAULT_PASSWORD_LENGTH;
use crate::text::{
    check_digit, digit_val, is_digit, to_upper, tokens_of, tokens_spec, upper_of,
};
use vstd::prelude::*;

verus! {

/// True of non-empty strings of decimal digits.
pub open spec fn is_dec_string(s: Seq<char>) -> bool {
    s.len() > 0 && forall|i: int| 0 <= i < s.len() ==> is_digit(#[trigger] s[i])
}

/// The number a decimal digit string denotes.
pub open spec fn dec_value(s: Seq<char>) -> nat
    decreases s.len(),
{
    if s.len() == 0 {
        0
    } else {
        dec_value(s.drop_last()) * 10 + digit_val(s.last())
    }
}

/// A longer prefix never denotes a smaller number.
proof fn lemma_dec_value_prefix(s: Seq<char>, j: int)
    requires
        0 <= j <= s.len(),
    ensures
        dec_value(s.take(j)) <= dec_value(s),
    decreases s.len() - j,
{
    if j == s.len() {
        assert(s.take(j) =~= s);
    } else {
        assert(s.take(j + 1).drop_last() =~= s.take(j));
        assert(s.take(j + 1).last() == s[j]);
        lemma_dec_value_prefix(s, j + 1);
    }
}

/// One parsed operator instruction, as the contracts speak of it.
pub ghost enum InstructionData {
    Help,
    Clear,
    Exit,
    AddRecord,
    Generate { length: int },
    ListServices,
    CheckRecord { service: Seq<char> },
    BadLength { arg: Seq<char> },
    Unknown { name: Seq<char> },
}

/// One parsed operator instruction.
pub enum Instruction {
    /// `HELP`: show every command with its description.
    Help,
    /// `CLEAR`: clear the terminal viewport.
    Clear,
    /// `EXIT`: terminate the program.
    Exit,
    /// `AR`: prompt for a record's fields and append it.
    AddRecord,
    /// `GP`, with or without a length: generate a password of `length`
    /// characters.
    Generate { length: usize },
    /// `CR` without argument: list the stored service names.
    ListServices,
    /// `CR <service>`: show the first record matching the service name;
    /// `service` carries the uppercased token.
    CheckRecord { service: String },
    /// `GP <arg>` whose argument is not a usable length: a validation
    /// error, reported to the operator.
    BadLength { arg: String },
    /// An unrecognized command token: reported, and the loop continues.
    Unknown { name: String },
}

impl View for Instruction {
    type V = InstructionData;

    open spec fn view(&self) -> InstructionData {
        match self {
            Instruction::Help => InstructionData::Help,
            Instruction::Clear => InstructionData::Clear,
            Instruction::Exit => InstructionData::Exit,
            Instruction::AddRecord => InstructionData::AddRecord,
            Instruction::Generate { length } => InstructionData::Generate {
                length: *length as int,
            },
            Instruction::ListServices => InstructionData::ListServices,
            Instruction::CheckRecord { service } => InstructionData::CheckRecord {
                service: service@,
            },
            Instruction::BadLength { arg } => InstructionData::BadLength { arg: arg@ },
            Instruction::Unknown { name } => InstructionData::Unknown { name: name@ },
        }
    }
}

/// What parsing a line of operator input yields: the first whitespace token
/// of the uppercased line picks the command; `GP` takes an optional decimal
/// length of at least one, defaulting when absent; `CR` takes an optional
/// service name; everything else is unknown and carries the offending token
/// (the whole uppercased line, when there is no token at all).
pub open spec fn parse_spec(line: Seq<char>) -> InstructionData {
    let toks = tokens_spec(upper_of(line));
    if toks.len() == 0 {
        InstructionData::Unknown { name: upper_of(line) }
    } else if toks[0] == "HELP"@ {
        InstructionData::Help
    } else if toks[0] == "CLEAR"@ {
        InstructionData::Clear
    } else if toks[0] == "EXIT"@ {
        InstructionData::Exit
    } else if toks[0] == "AR"@ {
        InstructionData::AddRecord
    } else if toks[0] == "GP"@ {
        if toks.len() == 1 {
            InstructionData::Generate { length: DEFAULT_PASSWORD_LENGTH as int }
        } else if is_dec_string(toks[1]) && 1 <= dec_value(toks[1]) && dec_value(toks[1])
            <= usize::MAX as nat {
            InstructionData::Generate { length: dec_value(toks[1]) as int }
        } else {
            InstructionData::BadLength { arg: toks[1] }
        }
    } else if toks[0] == "CR"@ {
        if toks.len() == 1 {
            InstructionData::ListServices
        } else {
            InstructionData::CheckRecord { service: toks[1] }
        }
    } else {
        InstructionData::Unknown { name: toks[0] }
    }
}

/// Whether a token equals a literal.
fn is_tok(t: &String, lit: &str) -> (r: bool)
    ensures
        r == (t@ == lit@),
{
    let l = lit.to_owned();
    *t == l
}

/// Parse the `GP` length argument: a decimal number of at least one that
/// fits the machine's word, anything else being a validation error.
fn parse_length(t: &String) -> (r: Instruction)
    ensures
        r@ == (if is_dec_string(t@) && 1 <= dec_value(t@) && dec_value(t@) <= usize::MAX as nat {
            InstructionData::Generate { length: dec_value(t@) as int }
        } else {
            InstructionData::BadLength { arg: t@ }
        }),
{
    let s = t.as_str();
    let len = s.unicode_len();
    if len == 0 {
        return Instruction::BadLength { arg: t.clone() };
    }
    let mut acc: usize = 0;
    let mut i: usize = 0;
    proof {
        assert(s@.take(0) =~= Seq::<char>::empty());
    }
    while i < len
        invariant
            i <= len,
            len == s@.len(),
            s@ == t@,
            forall|j: int| 0 <= j < i ==> is_digit(#[trigger] s@[j]),
            acc as nat == dec_value(s@.take(i as int)),
        decreases len - i,
    {
        let c = s.get_char(i);
        if !check_digit(c) {
            return Instruction::BadLength { arg: t.clone() };
        }
        let d = (c as u32 - '0' as u32) as usize;
        proof {
            assert(s@.take(i as int + 1).drop_last() =~= s@.take(i as int));
            assert(s@.take(i as int + 1).last() == s@[i as int]);
        }
        let next = match acc.checked_mul(10) {
            Some(m) => m.checked_add(d),
            None => None,
        };
        match next {
            Some(v) => {
                acc = v;
            },
            None => {
                proof {
                    lemma_dec_value_prefix(s@, i as int + 1);
                }
                return Instruction::BadLength { arg: t.clone() };
            },
        }
        i += 1;
    }
    proof {
        assert(s@.take(len as int) =~= s@);
    }
    if acc == 0 {
        return Instruction::BadLength { arg: t.clone() };
    }
    Instruction::Generate { length: acc }
}

/// Parse one line of operator input into the instruction it means.
pub fn parse_instruction(line: &str) -> (r: Instruction)
    ensures
        r@ == parse_spec(line@),
{
    let up = to_upper(line);
    let toks = tokens_of(up.as_str());
    proof {
        assert(toks.deep_view() == tokens_spec(upper_of(line@)));
    }
    if toks.len() == 0 {
        return Instruction::Unknown { name: up };
    }
    proof {
        assert(toks.deep_view()[0] == toks@[0]@);
        if toks@.len() > 1 {
            assert(toks.deep_view()[1] == toks@[1]@);
        }
    }
    if is_tok(&toks[0], "HELP") {
        return Instruction::Help;
    }
    if is_tok(&toks[0], "CLEAR") {
        return Instruction::Clear;
    }
    if is_tok(&toks[0], "EXIT") {
        return Instruction::Exit;
    }
    if is_tok(&toks[0], "AR") {
        return Instruction::AddRecord;
    }
    if is_tok(&toks[0], "GP") {
        if toks.len() == 1 {
            return Instruction::Generate { length: DEFAULT_PASSWORD_LENGTH };
        }
        return parse_length(&toks[1]);
    }
    if is_tok(&toks[0], "CR") {
        if toks.len() == 1 {
            return Instruction::ListServices;
        }
        return Instruction::CheckRecord { service: toks[1].clone() };
    }
    Instruction::Unknown { name: toks[0].clone() }
}

/// The help text: every command's name beside its description, in the order
/// the help command displays them.
pub fn help_entries() -> (entries: Vec<(String, String)>)
    ensures
        entries@.len() == 6,
        entries@[0].0@ == "exit"@,
        entries@[1].0@ == "clear"@,
        entries@[2].0@ == "help"@,
        entries@[3].0@ == "ar"@,
        entries@[4].0@ == "cr"@,
        entries@[5].0@ == "gp"@,
{
    let mut entries: Vec<(String, String)> = Vec::new();
    entries.push(("exit".to_owned(), "Exits the program.".to_owned()));
    entries.push(("clear".to_owned(), "Clears the console screen.".to_owned()));
    entries.push(
        ("help".to_owned(), "Shows all the commands and their descriptions.".to_owned()),
    );
    entries.push(
        ("ar".to_owned(), "Stands for 'add record' and adds a new password.".to_owned()),
    );
    entries.push(
        (
            "cr".to_owned(),
            "Stands for 'check record' and shows all the services registered. Add a parameter after with the name of a service and shows the specific record.".to_owned(),
        ),
    );
    entries.push(
        (
            "gp".to_owned(),
            "Stands for 'generate password' and generates a strong password. Add a parameter with an integer greater than 1 to set a specific length (default = 12).".to_owned(),
        ),
    );
    entries
}

} // verus!

//! Characters and strings: the character classes the generator and the
//! number parser speak of, case folding for the case-insensitive command and
//! service matching, and splitting a string at a separator, which is how the
//! store file divides into lines and a command line into tokens.

use vstd::prelude::*;

verus! {

/// True of the ASCII decimal digits `'0'` through `'9'`.
pub open spec fn is_digit(c: char) -> bool {
    '0' as u32 <= c as u32 && c as u32 <= '9' as u32
}

/// Numeric value of an ASCII decimal digit.
pub open spec fn digit_val(c: char) -> nat {
    (c as u32 - '0' as u32) as nat
}

/// True of ASCII letters and digits: the alphabet passwords are drawn from.
pub open spec fn is_alnum(c: char) -> bool {
    ('a' as u32 <= c as u32 && c as u32 <= 'z' as u32)
        || ('A' as u32 <= c as u32 && c as u32 <= 'Z' as u32)
        || ('0' as u32 <= c as u32 && c as u32 <= '9' as u32)
}

/// Exec form of `is_digit`.
pub fn check_digit(c: char) -> (r: bool)
    ensures
        r == is_digit(c),
{
    let v = c as u32;
    '0' as u32 <= v && v <= '9' as u32
}

/// What `str::to_uppercase` returns for a given character sequence; it is a
/// function of the characters alone.
pub uninterp spec fn upper_of(s: Seq<char>) -> Seq<char>;

/// Relies on `str::to_uppercase`: returns the uppercase form of the string,
/// which depends on its characters alone.
#[verifier::external_body]
pub(crate) fn to_upper(s: &str) -> (r: String)
    ensures
        r@ == upper_of(s@),
{
    s.to_uppercase()
}

/// Split `s` at every occurrence of `sep`. Every separator ends a piece, and
/// the remainder after the last separator is a final piece unless it is
/// empty: for `'\n'` these are exactly the lines of the store file.
pub open spec fn split_term(s: Seq<char>, sep: char) -> Seq<Seq<char>>
    decreases s.len(),
{
    if s.len() == 0 {
        Seq::empty()
    } else if s[0] == sep {
        seq![Seq::<char>::empty()] + split_term(s.subrange(1, s.len() as int), sep)
    } else {
        let rest = split_term(s.subrange(1, s.len() as int), sep);
        if rest.len() == 0 {
            seq![s]
        } else {
            seq![seq![s[0]] + rest[0]] + rest.subrange(1, rest.len() as int)
        }
    }
}

/// A non-empty string splits into at least one piece.
proof fn lemma_split_nonempty(s: Seq<char>, sep: char)
    requires
        s.len() > 0,
    ensures
        split_term(s, sep).len() > 0,
{
}

/// A non-empty piece free of the separator splits to itself alone.
proof fn lemma_split_nosep(s: Seq<char>, sep: char)
    requires
        s.len() > 0,
        forall|i: int| 0 <= i < s.len() ==> s[i] != sep,
    ensures
        split_term(s, sep) == seq![s],
    decreases s.len(),
{
    let t = s.subrange(1, s.len() as int);
    if s.len() == 1 {
        assert(split_term(s, sep) =~~= seq![s]);
    } else {
        lemma_split_nosep(t, sep);
        assert(seq![s[0]] + t =~= s);
        assert(split_term(s, sep) =~~= seq![s]);
    }
}

/// A separator-free piece followed by one separator splits to that piece.
pub(crate) proof fn lemma_split_piece(s: Seq<char>, sep: char)
    requires
        forall|i: int| 0 <= i < s.len() ==> s[i] != sep,
    ensures
        split_term(s + seq![sep], sep) == seq![s],
    decreases s.len(),
{
    let u = s + seq![sep];
    if s.len() == 0 {
        assert(u =~= seq![sep]);
        assert(u[0] == sep);
        assert(u.subrange(1, u.len() as int) =~= Seq::<char>::empty());
        assert(split_term(Seq::<char>::empty(), sep) =~~= Seq::<Seq<char>>::empty());
        assert(split_term(u, sep) =~~= seq![s]);
    } else {
        let t = s.subrange(1, s.len() as int);
        assert(u[0] == s[0]);
        assert(u.subrange(1, u.len() as int) =~= t + seq![sep]);
        lemma_split_piece(t, sep);
        assert(split_term(u.subrange(1, u.len() as int), sep) == seq![t]);
        assert(seq![s[0]] + t =~= s);
        assert(split_term(u, sep) =~~= seq![s]);
    }
}

/// Splitting distributes over concatenation when the left part is empty or
/// ends with the separator.
pub(crate) proof fn lemma_split_append(a: Seq<char>, b: Seq<char>, sep: char)
    requires
        a.len() == 0 || a.last() == sep,
    ensures
        split_term(a + b, sep) == split_term(a, sep) + split_term(b, sep),
    decreases a.len(),
{
    if a.len() == 0 {
        assert(a + b =~= b);
        assert(split_term(a + b, sep) =~~= split_term(a, sep) + split_term(b, sep));
    } else {
        let t = a.subrange(1, a.len() as int);
        assert((a + b).subrange(1, (a + b).len() as int) =~= t + b);
        if t.len() > 0 {
            assert(t.last() == a.last());
        }
        lemma_split_append(t, b, sep);
        if a[0] == sep {
            assert(split_term(a + b, sep) =~~= split_term(a, sep) + split_term(b, sep));
        } else {
            assert(t.len() > 0);
            lemma_split_nonempty(t, sep);
            assert(split_term(t + b, sep)[0] == split_term(t, sep)[0]);
            assert(split_term(a + b, sep) =~~= split_term(a, sep) + split_term(b, sep));
        }
    }
}

/// Split a string at `sep`, one `String` per piece, as `split_term` says.
pub fn split_on(s: &str, sep: char) -> (r: Vec<String>)
    ensures
        r.deep_view() == split_term(s@, sep),
{
    let len = s.unicode_len();
    let mut out: Vec<String> = Vec::new();
    let mut st: usize = 0;
    let mut i: usize = 0;
    proof {
        assert(s@.subrange(0, len as int) =~= s@);
        assert(out.deep_view() + split_term(s@, sep) =~~= split_term(s@, sep));
    }
    while i < len
        invariant
            st <= i <= len,
            len == s@.len(),
            forall|j: int| st <= j < i ==> s@[j] != sep,
            split_term(s@, sep) == out.deep_view() + split_term(
                s@.subrange(st as int, len as int),
                sep,
            ),
        decreases len - i,
    {
        let c = s.get_char(i);
        if c == sep {
            let piece = s.substring_char(st, i).to_owned();
            proof {
                let seg = s@.subrange(st as int, i as int);
                let tail = s@.subrange(i as int + 1, len as int);
                assert(s@.subrange(st as int, len as int) =~= (seg + seq![sep]) + tail);
                lemma_split_piece(seg, sep);
                lemma_split_append(seg + seq![sep], tail, sep);
                assert((out@.push(piece)).map_values(|x: String| x.deep_view()) =~~= out.deep_view()
                    + seq![seg]);
            }
            out.push(piece);
            st = i + 1;
        }
        i += 1;
    }
    if st < len {
        let piece = s.substring_char(st, len).to_owned();
        proof {
            let seg = s@.subrange(st as int, len as int);
            lemma_split_nosep(seg, sep);
            assert((out@.push(piece)).map_values(|x: String| x.deep_view()) =~~= out.deep_view()
                + seq![seg]);
        }
        out.push(piece);
    } else {
        proof {
            assert(s@.subrange(st as int, len as int) =~= Seq::<char>::empty());
            assert(out.deep_view() + split_term(s@.subrange(st as int, len as int), sep)
                =~~= out.deep_view());
        }
    }
    out
}

/// The pieces of `parts` that are non-empty, in order.
pub open spec fn nonempty_parts(parts: Seq<Seq<char>>) -> Seq<Seq<char>> {
    parts.filter(|t: Seq<char>| t.len() > 0)
}

/// The whitespace-separated tokens of a command line: the pieces between
/// spaces, with empty pieces dropped.
pub open spec fn tokens_spec(s: Seq<char>) -> Seq<Seq<char>> {
    nonempty_parts(split_term(s, ' '))
}

proof fn lemma_nonempty_parts_push(parts: Seq<Seq<char>>, x: Seq<char>)
    ensures
        x.len() > 0 ==> nonempty_parts(parts.push(x)) == nonempty_parts(parts) + seq![x],
        x.len() == 0 ==> nonempty_parts(parts.push(x)) == nonempty_parts(parts),
{
    reveal_with_fuel(Seq::filter, 3);
    broadcast use Seq::filter_distributes_over_add;

    assert(parts.push(x) =~~= parts + seq![x]);
    assert(seq![x].drop_last() =~~= Seq::<Seq<char>>::empty());
    if x.len() > 0 {
        assert(nonempty_parts(parts + seq![x]) =~~= nonempty_parts(parts) + seq![x]);
    } else {
        assert(nonempty_parts(parts + seq![x]) =~~= nonempty_parts(parts));
    }
}

/// The tokens of a command line, as `tokens_spec` says.
pub fn tokens_of(s: &str) -> (r: Vec<String>)
    ensures
        r.deep_view() == tokens_spec(s@),
{
    let parts = split_on(s, ' ');
    let mut out: Vec<String> = Vec::new();
    let mut i: usize = 0;
    while i < parts.len()
        invariant
            i <= parts@.len(),
            parts.deep_view() == split_term(s@, ' '),
            out.deep_view() == nonempty_parts(parts.deep_view().take(i as int)),
        decreases parts@.len() - i,
    {
        proof {
            assert(parts.deep_view().take(i as int + 1) =~~= parts.deep_view().take(
                i as int,
            ).push(parts.deep_view()[i as int]));
            lemma_nonempty_parts_push(parts.deep_view().take(i as int), parts.deep_view()[i as int]);
        }
        if !parts[i].as_str().is_empty() {
            let piece = parts[i].clone();
            proof {
                assert((out@.push(piece)).map_values(|x: String| x.deep_view()) =~~= out.deep_view()
                    + seq![parts.deep_view()[i as int]]);
            }
            out.push(piece);
        }
        i += 1;
    }
    proof {
        assert(parts.deep_view().take(parts@.len() as int) =~~= parts.deep_view());
    }
    out
}

} // verus!

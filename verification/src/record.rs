//! The record store format: service / identifier / encrypted-secret
//! triples, each serialized as four consecutive lines — service line,
//! identifier line, ciphertext line, sentinel line — and appended to a flat
//! file. Reading walks the file's lines in fixed strides of four; offsets
//! zero to two within each stride carry the record, offset three is the
//! sentinel and is never displayed nor matched against. That stride is a
//! load-bearing invariant of the format and is stated here once, as
//! `records_of_lines`.

use crate::cipher::{decrypted_by, encrypted_by, Cipher};
use crate::text::{
    lemma_split_append, lemma_split_piece, split_on, split_term, to_upper, upper_of,
};
use vstd::prelude::*;

verus! {

/// The fixed delimiter line that ends every record in the store file.
pub open spec fn sentinel() -> Seq<char> {
    seq!['-', '-', '-', 'e', 'n', 'd', '-', '-', '-']
}

/// One stored record, as the contracts speak of it.
pub ghost struct RecordData {
    pub service: Seq<char>,
    pub identifier: Seq<char>,
    pub ciphertext: Seq<char>,
}

impl RecordData {
    /// Well-formed: service name and identifier are non-empty and
    /// single-line, and the ciphertext line is single-line, as the cipher
    /// service produces it.
    pub open spec fn wf(self) -> bool {
        &&& self.service.len() > 0
        &&& self.identifier.len() > 0
        &&& forall|i: int| 0 <= i < self.service.len() ==> self.service[i] != '\n'
        &&& forall|i: int| 0 <= i < self.identifier.len() ==> self.identifier[i] != '\n'
        &&& forall|i: int| 0 <= i < self.ciphertext.len() ==> self.ciphertext[i] != '\n'
    }
}

/// One stored record: a service name, an identifier, and the secret in its
/// encrypted form — a secret is never held here in plaintext.
pub struct Record {
    pub service: String,
    pub identifier: String,
    pub ciphertext: String,
}

impl View for Record {
    type V = RecordData;

    open spec fn view(&self) -> RecordData {
        RecordData {
            service: self.service@,
            identifier: self.identifier@,
            ciphertext: self.ciphertext@,
        }
    }
}

impl DeepView for Record {
    type V = RecordData;

    open spec fn deep_view(&self) -> RecordData {
        self@
    }
}

/// The four-line serialized form of a record, byte for byte.
pub open spec fn block_of(r: RecordData) -> Seq<char> {
    r.service + seq!['\n'] + r.identifier + seq!['\n'] + r.ciphertext + seq!['\n'] + sentinel()
        + seq!['\n']
}

/// The lines of the store file's text.
pub open spec fn lines_spec(content: Seq<char>) -> Seq<Seq<char>> {
    split_term(content, '\n')
}

/// The records that a sequence of store-file lines holds: one record per
/// complete group of four consecutive lines.
pub open spec fn records_of_lines(lines: Seq<Seq<char>>) -> Seq<RecordData> {
    Seq::new(
        lines.len() / 4,
        |k: int|
            RecordData {
                service: lines[4 * k],
                identifier: lines[4 * k + 1],
                ciphertext: lines[4 * k + 2],
            },
    )
}

/// The records held by the store file's full text.
pub open spec fn store_records(content: Seq<char>) -> Seq<RecordData> {
    records_of_lines(lines_spec(content))
}

/// A well-formed store file: empty, or ending in a line break, with its
/// lines in complete groups of four.
pub open spec fn store_wf(content: Seq<char>) -> bool {
    &&& content.len() == 0 || content.last() == '\n'
    &&& lines_spec(content).len() % 4 == 0
}

/// Build the record that the add-record command stores: the secret goes in
/// encrypted, the service name and identifier keep their original case.
pub fn make_record(cipher: &Cipher, service: String, identifier: String, secret: &str) -> (r:
    Record)
    requires
        service@.len() > 0,
        identifier@.len() > 0,
        forall|i: int| 0 <= i < service@.len() ==> service@[i] != '\n',
        forall|i: int| 0 <= i < identifier@.len() ==> identifier@[i] != '\n',
    ensures
        r@.service == service@,
        r@.identifier == identifier@,
        r@.ciphertext == encrypted_by(cipher@, secret@),
        decrypted_by(cipher@, r@.ciphertext) == Some(secret@),
        r@.wf(),
{
    let ciphertext = cipher.encrypt(secret);
    Record { service, identifier, ciphertext }
}

/// Serialize a record into its four-line block, exactly as the store file
/// holds it.
pub fn render_record(r: &Record) -> (out: String)
    ensures
        out@ == block_of(r@),
{
    let mut out = r.service.clone();
    out.append("\n");
    out.append(r.identifier.as_str());
    out.append("\n");
    out.append(r.ciphertext.as_str());
    out.append("\n");
    out.append("---end---");
    out.append("\n");
    proof {
        reveal_strlit("\n");
        reveal_strlit("---end---");
        assert("\n"@ =~= seq!['\n']);
        assert("---end---"@ =~= sentinel());
        assert(out@ =~= block_of(r@));
    }
    out
}

/// Read the records out of the store file's text, in file order. An empty
/// file holds no records; a trailing group of fewer than four lines holds
/// none either.
pub fn parse_store(content: &str) -> (records: Vec<Record>)
    ensures
        records.deep_view() == store_records(content@),
{
    let lines = split_on(content, '\n');
    let n = lines.len();
    let total = n / 4;
    let mut records: Vec<Record> = Vec::new();
    let mut k: usize = 0;
    proof {
        assert(records.deep_view() =~~= store_records(content@).take(0));
    }
    while k < total
        invariant
            k <= total,
            total == lines@.len() / 4,
            n == lines@.len(),
            lines.deep_view() == lines_spec(content@),
            records.deep_view() == store_records(content@).take(k as int),
        decreases total - k,
    {
        let idx = 4 * k;
        let rec = Record {
            service: lines[idx].clone(),
            identifier: lines[idx + 1].clone(),
            ciphertext: lines[idx + 2].clone(),
        };
        records.push(rec);
        proof {
            let i0 = 4 * (k as int);
            assert(0 <= i0 && i0 + 2 < lines@.len());
            assert(lines.deep_view()[i0] == lines@[i0]@);
            assert(lines.deep_view()[i0 + 1] == lines@[i0 + 1]@);
            assert(lines.deep_view()[i0 + 2] == lines@[i0 + 2]@);
            assert(rec@ == store_records(content@)[k as int]);
            assert(store_records(content@).len() == n as int / 4);
            assert(store_records(content@).take(k as int).len() == k as int);
            assert(records.deep_view() =~~= store_records(content@).take(k as int + 1));
        }
        k += 1;
    }
    proof {
        assert(store_records(content@).take(total as int) =~~= store_records(content@));
    }
    records
}

/// True when the record at `k` is the first whose service name matches
/// `query` — matching is on uppercase forms, so it is case-insensitive.
pub open spec fn first_match_at(records: Seq<RecordData>, query: Seq<char>, k: int) -> bool {
    &&& 0 <= k < records.len()
    &&& upper_of(records[k].service) == upper_of(query)
    &&& forall|j: int| 0 <= j < k ==> upper_of(#[trigger] records[j].service) != upper_of(query)
}

/// Scan for the first record whose service name equals `query` up to case:
/// a service stored in any case is found by a query written in any case.
pub fn find_record(records: &Vec<Record>, query: &str) -> (r: Option<usize>)
    ensures
        match r {
            Some(k) => first_match_at(records.deep_view(), query@, k as int),
            None => forall|j: int|
                0 <= j < records@.len() ==> upper_of(records.deep_view()[j].service) != upper_of(
                    query@,
                ),
        },
{
    let q = to_upper(query);
    let mut j: usize = 0;
    while j < records.len()
        invariant
            j <= records@.len(),
            q@ == upper_of(query@),
            forall|i: int| 0 <= i < j ==> upper_of(records.deep_view()[i].service) != upper_of(
                query@,
            ),
        decreases records@.len() - j,
    {
        let s_up = to_upper(records[j].service.as_str());
        if s_up == q {
            return Some(j);
        }
        j += 1;
    }
    None
}

/// What checking a record found.
pub enum LookupOutcome {
    /// The first matching record, its secret decrypted.
    Found { identifier: String, secret: String },
    /// A record matched, but its ciphertext does not decrypt under this
    /// cipher's token: corrupted text or a different token.
    DecryptFailed,
    /// No stored service matches the query.
    NotFound,
}

/// The whole decision of the check-record command: find the first
/// case-insensitive match on the service name, then decrypt its secret.
pub fn check_record(cipher: &Cipher, records: &Vec<Record>, query: &str) -> (r: LookupOutcome)
    ensures
        match r {
            LookupOutcome::Found { identifier, secret } => exists|k: int|
                #[trigger] first_match_at(records.deep_view(), query@, k) && identifier@
                    == records.deep_view()[k].identifier && decrypted_by(
                    cipher@,
                    records.deep_view()[k].ciphertext,
                ) == Some(secret@),
            LookupOutcome::DecryptFailed => exists|k: int|
                #[trigger] first_match_at(records.deep_view(), query@, k) && decrypted_by(
                    cipher@,
                    records.deep_view()[k].ciphertext,
                ) is None,
            LookupOutcome::NotFound => forall|j: int|
                0 <= j < records@.len() ==> upper_of(records.deep_view()[j].service) != upper_of(
                    query@,
                ),
        },
{
    match find_record(records, query) {
        Some(k) => match cipher.decrypt(records[k].ciphertext.as_str()) {
            Ok(secret) => LookupOutcome::Found {
                identifier: records[k].identifier.clone(),
                secret,
            },
            Err(_) => LookupOutcome::DecryptFailed,
        },
        None => LookupOutcome::NotFound,
    }
}

/// The stored service names in scan order, for the bare listing command.
pub fn service_names(records: &Vec<Record>) -> (names: Vec<String>)
    ensures
        names@.len() == records@.len(),
        forall|i: int| 0 <= i < names@.len() ==> names@[i]@ == records.deep_view()[i].service,
{
    let mut names: Vec<String> = Vec::new();
    let mut i: usize = 0;
    while i < records.len()
        invariant
            i <= records@.len(),
            names@.len() == i,
            forall|j: int| 0 <= j < i ==> names@[j]@ == records.deep_view()[j].service,
        decreases records@.len() - i,
    {
        names.push(records[i].service.clone());
        i += 1;
    }
    names
}

/// The lines of one serialized block are exactly the record's three lines
/// and the sentinel.
proof fn lemma_block_lines(r: RecordData)
    requires
        r.wf(),
    ensures
        lines_spec(block_of(r)) == seq![r.service, r.identifier, r.ciphertext, sentinel()],
{
    let nl = seq!['\n'];
    let a1 = r.service + nl;
    let a2 = r.identifier + nl;
    let a3 = r.ciphertext + nl;
    let a4 = sentinel() + nl;
    assert(sentinel()[0] != '\n');
    assert(sentinel()[1] != '\n');
    assert(sentinel()[2] != '\n');
    assert(sentinel()[3] != '\n');
    assert(sentinel()[4] != '\n');
    assert(sentinel()[5] != '\n');
    assert(sentinel()[6] != '\n');
    assert(sentinel()[7] != '\n');
    assert(sentinel()[8] != '\n');
    lemma_split_piece(r.service, '\n');
    lemma_split_piece(r.identifier, '\n');
    lemma_split_piece(r.ciphertext, '\n');
    lemma_split_piece(sentinel(), '\n');
    assert(block_of(r) =~= a1 + (a2 + (a3 + a4)));
    lemma_split_append(a1, a2 + (a3 + a4), '\n');
    lemma_split_append(a2, a3 + a4, '\n');
    lemma_split_append(a3, a4, '\n');
    assert(lines_spec(block_of(r)) =~~= seq![r.service, r.identifier, r.ciphertext, sentinel()]);
}

/// Appending one well-formed record's block to a well-formed store extends
/// the listed records by exactly that record, at the end, and keeps the
/// store well-formed.
pub proof fn lemma_store_append(content: Seq<char>, r: RecordData)
    requires
        store_wf(content),
        r.wf(),
    ensures
        store_records(content + block_of(r)) == store_records(content).push(r),
        store_wf(content + block_of(r)),
{
    lemma_split_append(content, block_of(r), '\n');
    lemma_block_lines(r);
    let l0 = lines_spec(content);
    let l1 = lines_spec(content + block_of(r));
    assert(l1 == l0 + seq![r.service, r.identifier, r.ciphertext, sentinel()]);
    assert(records_of_lines(l1) =~~= records_of_lines(l0).push(r));
    assert((content + block_of(r)).last() == '\n');
}

/// The append-order law: appending two records shows them in the listing in
/// that order, after everything the store already held. Listing is a pure
/// function of the file's text, so it never mutates the store.
pub proof fn lemma_append_order(content: Seq<char>, first: RecordData, second: RecordData)
    requires
        store_wf(content),
        first.wf(),
        second.wf(),
    ensures
        store_records(content + block_of(first) + block_of(second)) == store_records(
            content,
        ).push(first).push(second),
        store_wf(content + block_of(first) + block_of(second)),
{
    lemma_store_append(content, first);
    lemma_store_append(content + block_of(first), second);
}

} // verus!

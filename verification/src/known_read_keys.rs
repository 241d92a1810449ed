//! The registry of read-access keys that are known to have worked somewhere.
//! A report for another software ID is a candidate, not proof of compatibility.
//!
//! The registry is a table with comma-separated columns: the key in hexadecimal,
//! the software IDs and the source. Its first line holds the column titles.

use crate::text::{copy_of, first_index, has_prefix, index_of, number, parse_number, starts_with};
use vstd::prelude::*;
use vstd::string::*;
use vstd::utf8::*;

verus! {

/// A read-access key and its provenance.
#[derive(Clone, Copy, Debug)]
pub struct ReadKeyCandidate {
    /// Numeric key, encoded little-endian by the protocol.
    pub key: u16,
    /// Space-separated software IDs with reported support.
    pub software_ids: &'static str,
    /// Implementation or original device report.
    pub source: &'static str,
}

/// A row of the registry.
#[derive(Debug)]
pub struct RegistryRow {
    pub key: u16,
    pub software_ids: Vec<u8>,
    pub source: Vec<u8>,
}

/// A row of the registry, in the abstract.
#[verifier::ext_equal]
pub ghost struct RowView {
    pub key: u16,
    pub software_ids: Seq<u8>,
    pub source: Seq<u8>,
}

impl View for RegistryRow {
    type V = RowView;

    open spec fn view(&self) -> RowView {
        RowView { key: self.key, software_ids: self.software_ids@, source: self.source@ }
    }
}

/// What is wrong with a registry.
#[derive(Clone, Copy, Debug, PartialEq, Eq, Structural)]
pub enum RegistryError {
    /// A row does not have three columns.
    Columns,
    /// A key does not begin with `0x`.
    Prefix,
    /// A key is no 16-bit number.
    Key,
    /// A key occurs twice.
    Duplicate,
}

/// A line without the carriage return at its end.
pub open spec fn without_return(line: Seq<u8>) -> Seq<u8> {
    if line.len() > 0 && line.last() == 13 {
        line.drop_last()
    } else {
        line
    }
}

/// The first line of `s`; a carriage return before its line feed is not part of
/// it.
pub open spec fn first_line(s: Seq<u8>) -> Seq<u8> {
    let at = first_index(s, 10);
    if at < s.len() {
        without_return(s.subrange(0, at))
    } else {
        s
    }
}

/// What follows the first line.
pub open spec fn behind_line(s: Seq<u8>) -> Seq<u8> {
    let at = first_index(s, 10);
    if 0 <= at < s.len() {
        s.skip(at + 1)
    } else {
        Seq::empty()
    }
}

/// The row that a line holds.
pub open spec fn row_of(line: Seq<u8>) -> Result<RowView, RegistryError> {
    let a = first_index(line, 44);
    let tail = line.skip(a + 1);
    let b = first_index(tail, 44);
    let last = tail.skip(b + 1);
    let key = line.subrange(0, a);
    if a >= line.len() || b >= tail.len() || first_index(last, 44) < last.len() {
        Err(RegistryError::Columns)
    } else if !has_prefix(key, "0x".spec_bytes()) {
        Err(RegistryError::Prefix)
    } else {
        match number(key.skip(2), 16, 0xffff) {
            Some(n) => Ok(
                RowView { key: n as u16, software_ids: tail.subrange(0, b), source: last },
            ),
            None => Err(RegistryError::Key),
        }
    }
}

/// One of the rows has this key.
pub open spec fn has_key(rows: Seq<RowView>, key: u16) -> bool {
    exists|i: int| 0 <= i < rows.len() && (#[trigger] rows[i]).key == key
}

/// The rows of a table, behind those that are there.
pub open spec fn rows_of(done: Seq<RowView>, rest: Seq<u8>) -> Result<Seq<RowView>, RegistryError>
    decreases rest.len(),
{
    if rest.len() == 0 {
        Ok(done)
    } else {
        match row_of(first_line(rest)) {
            Err(e) => Err(e),
            Ok(row) => if has_key(done, row.key) {
                Err(RegistryError::Duplicate)
            } else if behind_line(rest).len() < rest.len() {
                rows_of(done.push(row), behind_line(rest))
            } else {
                Ok(done)
            },
        }
    }
}

/// The rows that a registry holds.
pub open spec fn registry(csv: Seq<u8>) -> Result<Seq<RowView>, RegistryError> {
    rows_of(Seq::empty(), behind_line(csv))
}

/// The rows of a vector.
pub open spec fn row_views(rows: Seq<RegistryRow>) -> Seq<RowView> {
    Seq::new(rows.len(), |i: int| rows[i]@)
}

fn parse_row(line: &[u8]) -> (r: Result<RegistryRow, RegistryError>)
    ensures
        r matches Ok(row) ==> row_of(line@) == Ok::<RowView, RegistryError>(row@),
        r matches Err(e) ==> row_of(line@) == Err::<RowView, RegistryError>(e),
{
    let a = index_of(line, 44);
    if a >= line.len() {
        return Err(RegistryError::Columns);
    }
    let tail = vstd::slice::slice_subrange(line, a + 1, line.len());
    assert(tail@ =~= line@.skip(a + 1));
    let b = index_of(tail, 44);
    if b >= tail.len() {
        return Err(RegistryError::Columns);
    }
    let last = vstd::slice::slice_subrange(tail, b + 1, tail.len());
    assert(last@ =~= tail@.skip(b + 1));
    if index_of(last, 44) < last.len() {
        return Err(RegistryError::Columns);
    }
    let key = vstd::slice::slice_subrange(line, 0, a);
    proof {
        reveal_strlit("0x");
        is_ascii_spec_bytes("0x");
    }
    if !starts_with(key, "0x".as_bytes()) {
        return Err(RegistryError::Prefix);
    }
    let digits = vstd::slice::slice_subrange(key, 2, key.len());
    assert(digits@ =~= key@.skip(2));
    match parse_number(digits, 16, 0xffff) {
        Some(n) => {
            let row = RegistryRow {
                key: n as u16,
                software_ids: copy_of(vstd::slice::slice_subrange(tail, 0, b)),
                source: copy_of(last),
            };
            Ok(row)
        },
        None => Err(RegistryError::Key),
    }
}

fn split_line(s: &[u8]) -> (r: (&[u8], &[u8]))
    ensures
        r.0@ == first_line(s@),
        r.1@ == behind_line(s@),
        r.1@.len() < s@.len() || s@.len() == 0,
{
    let at = index_of(s, 10);
    let n = s.len();
    if at < n {
        let rest = vstd::slice::slice_subrange(s, at + 1, n);
        assert(rest@ =~= s@.skip(at + 1));
        let line = vstd::slice::slice_subrange(s, 0, at);
        if at > 0 && line[at - 1] == 13 {
            let shorter = vstd::slice::slice_subrange(line, 0, at - 1);
            assert(shorter@ =~= line@.drop_last());
            return (shorter, rest);
        }
        return (line, rest);
    }
    let rest = vstd::slice::slice_subrange(s, n, n);
    assert(rest@ =~= Seq::<u8>::empty());
    (s, rest)
}

fn holds_key(rows: &Vec<RegistryRow>, key: u16) -> (r: bool)
    ensures
        r == has_key(row_views(rows@), key),
{
    for i in 0..rows.len()
        invariant
            forall|j: int| 0 <= j < i ==> (#[trigger] row_views(rows@)[j]).key != key,
    {
        if rows[i].key == key {
            assert(row_views(rows@)[i as int].key == key);
            return true;
        }
    }
    false
}

/// Reads a registry.
pub fn parse_registry(csv: &[u8]) -> (r: Result<Vec<RegistryRow>, RegistryError>)
    ensures
        r matches Ok(rows) ==> registry(csv@) == Ok::<Seq<RowView>, RegistryError>(
            row_views(rows@),
        ),
        r matches Err(e) ==> registry(csv@) == Err::<Seq<RowView>, RegistryError>(e),
{
    let (_, mut rest) = split_line(csv);
    let mut rows: Vec<RegistryRow> = Vec::new();
    assert(row_views(rows@) =~= Seq::empty());
    while rest.len() > 0
        invariant
            registry(csv@) == rows_of(row_views(rows@), rest@),
        decreases rest@.len(),
    {
        let (line, behind) = split_line(rest);
        let row = match parse_row(line) {
            Ok(row) => row,
            Err(e) => return Err(e),
        };
        if holds_key(&rows, row.key) {
            return Err(RegistryError::Duplicate);
        }
        let ghost before = row_views(rows@);
        let ghost added = row@;
        rows.push(row);
        assert(row_views(rows@) =~= before.push(added));
        rest = behind;
    }
    Ok(rows)
}

proof fn lemma_rows_distinct(done: Seq<RowView>, rest: Seq<u8>)
    requires
        forall|i: int, j: int|
            0 <= i < j < done.len() ==> (#[trigger] done[i]).key != (#[trigger] done[j]).key,
    ensures
        rows_of(done, rest) matches Ok(rows) ==> forall|i: int, j: int|
            0 <= i < j < rows.len() ==> (#[trigger] rows[i]).key != (#[trigger] rows[j]).key,
    decreases rest.len(),
{
    if rest.len() > 0 {
        if let Ok(row) = row_of(first_line(rest)) {
            if !has_key(done, row.key) && behind_line(rest).len() < rest.len() {
                lemma_rows_distinct(done.push(row), behind_line(rest));
            }
        }
    }
}

/// No key occurs twice in a registry.
pub proof fn lemma_registry_keys_are_distinct(csv: Seq<u8>)
    ensures
        registry(csv) matches Ok(rows) ==> forall|i: int, j: int|
            0 <= i < j < rows.len() ==> (#[trigger] rows[i]).key != (#[trigger] rows[j]).key,
{
    lemma_rows_distinct(Seq::empty(), behind_line(csv));
}

} // verus!

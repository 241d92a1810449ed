//! The boot partition table: the layouts in which the journal may be used.

use super::record::{get, word_at};
use vstd::prelude::*;

verus! {

/// Where the scanner's area begins.
pub const BASE: u32 = 0x3f0000;

/// The size of the scanner's area.
pub const SIZE: u32 = 0x10000;

/// The size of an erasable sector.
pub const SECTOR: u32 = 4096;

/// Where the partition table stands.
pub const TABLE: u32 = 0x8000;

/// The number of entries that a partition table has room for.
pub const ENTRIES: u32 = 96;

/// The entry closes the table: erased flash or the checksum entry.
pub open spec fn closes_table(e: Seq<u8>) -> bool {
    (e[0] == 0xff && e[1] == 0xff) || (e[0] == 0xeb && e[1] == 0xeb)
}

/// The entry describes the first application slot.
pub open spec fn is_app0(e: Seq<u8>) -> bool {
    e[2] == 0 && e[3] == 0x10 && word_at(e, 4) == 0x10000 && word_at(e, 8) == 0x1f0000
}

/// The entry describes the second application slot.
pub open spec fn is_app1(e: Seq<u8>) -> bool {
    e[2] == 0 && e[3] == 0x11 && word_at(e, 4) == 0x200000 && word_at(e, 8) == 0x1f0000
}

/// The entry reaches into the scanner's area.
pub open spec fn overlaps_area(e: Seq<u8>) -> bool {
    word_at(e, 4) < BASE + SIZE && word_at(e, 4) + word_at(e, 8) > BASE
}

/// The entry is the scanner's own: custom type 0x40, subtype 0, covering the
/// area exactly, named "keyscan" and without flags.
pub open spec fn is_scan_entry(e: Seq<u8>) -> bool {
    &&& e[2] == 0x40
    &&& e[3] == 0
    &&& word_at(e, 4) == BASE
    &&& word_at(e, 8) == SIZE
    &&& word_at(e, 12) == 0x7379656b
    &&& word_at(e, 16) == 0x006e6163
    &&& word_at(e, 28) == 0
}

/// The entry is a partition that leaves the journal its area: it does not run
/// past the address space, an application slot stands where it must, and only
/// the scanner's own partition may reach into the area.
pub open spec fn entry_accepted(e: Seq<u8>) -> bool {
    &&& e[0] == 0xaa && e[1] == 0x50
    &&& word_at(e, 4) + word_at(e, 8) <= u32::MAX
    &&& e[2] == 0 ==> is_app0(e) || is_app1(e)
    &&& overlaps_area(e) ==> is_scan_entry(e)
}

/// What an entry says of the table.
#[derive(Clone, Copy, Debug, PartialEq, Eq, Structural)]
pub enum Verdict {
    /// The table ends here.
    End,
    /// The first application slot.
    App0,
    /// The second application slot.
    App1,
    /// Another partition that does not matter here.
    Other,
    /// A layout in which the journal must not be used.
    Bad,
}

/// The verdict on a table entry.
pub open spec fn verdict(e: Seq<u8>) -> Verdict {
    if closes_table(e) {
        Verdict::End
    } else if !entry_accepted(e) {
        Verdict::Bad
    } else if is_app0(e) {
        Verdict::App0
    } else if is_app1(e) {
        Verdict::App1
    } else {
        Verdict::Other
    }
}

/// Judges one entry of the partition table.
pub fn judge_entry(entry: &[u8]) -> (r: Verdict)
    requires
        entry@.len() == 32,
    ensures
        r == verdict(entry@),
{
    if (entry[0] == 0xff && entry[1] == 0xff) || (entry[0] == 0xeb && entry[1] == 0xeb) {
        return Verdict::End;
    }
    if !(entry[0] == 0xaa && entry[1] == 0x50) {
        return Verdict::Bad;
    }
    let offset = get(entry, 4);
    let size = get(entry, 8);
    let end = match offset.checked_add(size) {
        Some(end) => end,
        None => return Verdict::Bad,
    };
    let mut found = Verdict::Other;
    if entry[2] == 0 {
        if entry[3] == 0x10 && offset == 0x10000 && size == 0x1f0000 {
            found = Verdict::App0;
        } else if entry[3] == 0x11 && offset == 0x200000 && size == 0x1f0000 {
            found = Verdict::App1;
        } else {
            return Verdict::Bad;
        }
    }
    if offset < BASE + SIZE && end > BASE && !(entry[2] == 0x40 && entry[3] == 0 && offset == BASE
        && size == SIZE && get(entry, 12) == 0x7379656b && get(entry, 16) == 0x006e6163 && get(
        entry,
        28,
    ) == 0) {
        return Verdict::Bad;
    }
    found
}

// ---------------------------------------------------------------------------
// Tables in flash
// ---------------------------------------------------------------------------
/// Entry `i` of the partition table in the flash contents `m`.
pub open spec fn entry_at(m: Seq<u8>, i: int) -> Seq<u8> {
    m.subrange(TABLE + 32 * i, TABLE + 32 * i + 32)
}

/// The position of the first closing entry at or behind `i`.
pub open spec fn table_end(m: Seq<u8>, i: int) -> int
    decreases ENTRIES - i,
{
    if i >= ENTRIES {
        ENTRIES as int
    } else if closes_table(entry_at(m, i)) {
        i
    } else {
        table_end(m, i + 1)
    }
}

/// Entry `i` gets verdict `v` and stands before `n`.
pub open spec fn shows(m: Seq<u8>, n: int, v: Verdict) -> bool {
    exists|i: int| 0 <= i < n && verdict(#[trigger] entry_at(m, i)) == v
}

/// The table in `m` holds both application slots in their places, and nothing
/// before its end is in the way of the journal.
pub open spec fn layout_accepted(m: Seq<u8>) -> bool {
    let n = table_end(m, 0);
    &&& forall|i: int| 0 <= i < n ==> verdict(#[trigger] entry_at(m, i)) != Verdict::Bad
    &&& shows(m, n, Verdict::App0)
    &&& shows(m, n, Verdict::App1)
}

pub(crate) proof fn lemma_table_end(m: Seq<u8>, i: int, n: int)
    requires
        0 <= i <= n <= ENTRIES,
        forall|k: int| i <= k < n ==> !closes_table(#[trigger] entry_at(m, k)),
    ensures
        table_end(m, i) == table_end(m, n),
        table_end(m, n) >= n,
    decreases n - i, ENTRIES - n,
{
    if i < n {
        assert(!closes_table(entry_at(m, i)));
        lemma_table_end(m, i + 1, n);
    } else if n < ENTRIES && !closes_table(entry_at(m, n)) {
        lemma_table_end(m, n + 1, n + 1);
    }
}

} // verus!

//! Adding the scanner partition to the boot partition table.
//!
//! Only the exact original table is replaced, and the replacement keeps its five
//! partitions. The old sector is first written to the last sector of the
//! scanner's area and read back; only then is the boot table touched.

use super::journal::{blank, is_blank, Error, FlashOp, Journal, OpenStep, Opening, Operation};
use super::partition::{closes_table, entry_at, layout_accepted, lemma_table_end, shows, table_end};
use super::partition::{verdict, Verdict, BASE, SECTOR, SIZE, TABLE};
use super::record::{crc, crc32, le_byte, lemma_le_word, word_at};
use super::recovery::{answered, dirty, latest_of, performed, recognized, recovered, slot_bytes};
use crate::text::{copy_of, same_bytes};
use vstd::prelude::*;

verus! {

/// The CRC-32 of the original table.
pub const ORIGINAL_CRC: u32 = 0xb70e844b;

/// The sector that keeps the original table.
pub const BACKUP: u32 = 0x3ff000;

/// Word `c` of a table row: mark, type and subtype, place, size, name and flags.
pub open spec fn row_word(head: u32, offset: u32, size: u32, name: (u32, u32), c: int) -> u32 {
    if c == 0 {
        head
    } else if c == 1 {
        offset
    } else if c == 2 {
        size
    } else if c == 3 {
        name.0
    } else if c == 4 {
        name.1
    } else {
        0
    }
}

/// Word `k` of the target table: nvs, otadata, phy_init, ota_0, ota_1, keyscan,
/// the checksum row and erased flash.
pub open spec fn target_word(k: int) -> u32 {
    let c = k % 8;
    if k < 8 {
        row_word(0x020150aa, 0x9000, 0x4000, (0x0073766e, 0), c)
    } else if k < 16 {
        row_word(0x000150aa, 0xd000, 0x2000, (0x6461746f, 0x00617461), c)
    } else if k < 24 {
        row_word(0x010150aa, 0xf000, 0x1000, (0x5f796870, 0x74696e69), c)
    } else if k < 32 {
        row_word(0x100050aa, 0x10000, 0x1f0000, (0x5f61746f, 0x30), c)
    } else if k < 40 {
        row_word(0x110050aa, 0x200000, 0x1f0000, (0x5f61746f, 0x31), c)
    } else if k < 48 {
        row_word(0x004050aa, 0x3f0000, 0x10000, (0x7379656b, 0x006e6163), c)
    } else if k == 48 {
        0xffffebeb
    } else if k == 52 {
        0xb6536829
    } else if k == 53 {
        0x4812f6c1
    } else if k == 54 {
        0xfa6b43ac
    } else if k == 55 {
        0x4fb7c40c
    } else {
        0xffff_ffff
    }
}

/// The sector with the target table.
pub open spec fn target_sector() -> Seq<u8> {
    Seq::new(4096, |i: int| le_byte(target_word(i / 4), i % 4))
}

fn row_word_of(head: u32, offset: u32, size: u32, name: (u32, u32), c: usize) -> (r: u32)
    ensures
        r == row_word(head, offset, size, name, c as int),
{
    match c {
        0 => head,
        1 => offset,
        2 => size,
        3 => name.0,
        4 => name.1,
        _ => 0,
    }
}

fn target_word_of(k: usize) -> (r: u32)
    ensures
        r == target_word(k as int),
{
    let c = k % 8;
    match k / 8 {
        0 => row_word_of(0x020150aa, 0x9000, 0x4000, (0x0073766e, 0), c),
        1 => row_word_of(0x000150aa, 0xd000, 0x2000, (0x6461746f, 0x00617461), c),
        2 => row_word_of(0x010150aa, 0xf000, 0x1000, (0x5f796870, 0x74696e69), c),
        3 => row_word_of(0x100050aa, 0x10000, 0x1f0000, (0x5f61746f, 0x30), c),
        4 => row_word_of(0x110050aa, 0x200000, 0x1f0000, (0x5f61746f, 0x31), c),
        5 => row_word_of(0x004050aa, 0x3f0000, 0x10000, (0x7379656b, 0x006e6163), c),
        _ => match k {
            48 => 0xffffebeb,
            52 => 0xb6536829,
            53 => 0x4812f6c1,
            54 => 0xfa6b43ac,
            55 => 0x4fb7c40c,
            _ => 0xffff_ffff,
        },
    }
}

/// Makes the sector with the target table.
pub fn target() -> (r: Vec<u8>)
    ensures
        r@ == target_sector(),
{
    let mut out: Vec<u8> = Vec::new();
    for k in 0..1024usize
        invariant
            out@.len() == 4 * k,
            forall|i: int| 0 <= i < 4 * k ==> out@[i] == #[trigger] target_sector()[i],
    {
        let w = target_word_of(k);
        out.push((w & 0xff) as u8);
        out.push(((w >> 8) & 0xff) as u8);
        out.push(((w >> 16) & 0xff) as u8);
        out.push(((w >> 24) & 0xff) as u8);
        assert forall|i: int| 4 * k <= i < 4 * k + 4 implies out@[i]
            == #[trigger] target_sector()[i] by {
            assert(i / 4 == k && i % 4 == i - 4 * k);
        }
    }
    assert(out@ =~= target_sector());
    out
}

/// The sector holds the original table: the one of the known CRC, with the
/// first five rows of the target, in an otherwise erased sector.
pub open spec fn is_original(s: Seq<u8>) -> bool {
    &&& crc32(s.subrange(0, 3072)) == ORIGINAL_CRC
    &&& s.subrange(0, 160) == target_sector().subrange(0, 160)
    &&& blank(s.subrange(3072, 4096))
}

fn matches_original(s: &[u8]) -> (r: bool)
    requires
        s@.len() == 4096,
    ensures
        r == is_original(s@),
{
    let wanted = target();
    crc(vstd::slice::slice_subrange(s, 0, 3072)) == ORIGINAL_CRC && same_bytes(
        vstd::slice::slice_subrange(s, 0, 160),
        vstd::slice::slice_subrange(wanted.as_slice(), 0, 160),
    ) && is_blank(vstd::slice::slice_subrange(s, 3072, 4096))
}

// ---------------------------------------------------------------------------
// The installation
// ---------------------------------------------------------------------------
/// An installation under way. From the backup on it carries the old sector; the
/// undoing of a failed update carries the failure too.
#[derive(Debug)]
pub enum Installing<E> {
    /// Open the journal: bounds, application layout and ownership of the area.
    Check(Opening),
    /// Read the boot table's sector.
    Read,
    EraseBackup(Vec<u8>),
    WriteBackup(Vec<u8>),
    VerifyBackup(Vec<u8>),
    EraseTable(Vec<u8>),
    WriteTable(Vec<u8>),
    VerifyTable(Vec<u8>),
    /// Best effort for a reported error. This cannot help after power loss.
    UndoErase(Vec<u8>, Error<E>),
    UndoWrite(Vec<u8>, Error<E>),
}

/// What comes after a reply.
#[derive(Debug)]
pub enum InstallStep<E> {
    /// The installation wants another operation.
    Do(Installing<E>),
    /// The target table is in place.
    Installed,
    /// The installation failed.
    Failed(Error<E>),
}

impl<E> Installing<E> {
    pub open spec fn well_formed(self) -> bool {
        match self {
            Installing::Check(opening) => opening.well_formed(),
            Installing::Read => true,
            Installing::EraseBackup(old) => old@.len() == 4096,
            Installing::WriteBackup(old) => old@.len() == 4096,
            Installing::VerifyBackup(old) => old@.len() == 4096,
            Installing::EraseTable(old) => old@.len() == 4096,
            Installing::WriteTable(old) => old@.len() == 4096,
            Installing::VerifyTable(old) => old@.len() == 4096,
            Installing::UndoErase(old, _) => old@.len() == 4096,
            Installing::UndoWrite(old, _) => old@.len() == 4096,
        }
    }

    /// How many replies may still be wanted.
    pub open spec fn remaining(self) -> int {
        match self {
            Installing::Check(opening) => opening.remaining() + 9,
            Installing::Read => 9,
            Installing::EraseBackup(_) => 8,
            Installing::WriteBackup(_) => 7,
            Installing::VerifyBackup(_) => 6,
            Installing::EraseTable(_) => 5,
            Installing::WriteTable(_) => 4,
            Installing::VerifyTable(_) => 3,
            Installing::UndoErase(_, _) => 2,
            Installing::UndoWrite(_, _) => 1,
        }
    }

    /// The operation that is wanted.
    pub open spec fn operation(self) -> Operation {
        match self {
            Installing::Check(opening) => opening.operation(),
            Installing::Read => Operation::Read { address: TABLE as int, length: SECTOR as int },
            Installing::EraseBackup(_) => Operation::Erase {
                from: BACKUP as int,
                to: BACKUP + SECTOR,
            },
            Installing::WriteBackup(old) => Operation::Write {
                address: BACKUP as int,
                bytes: old@,
            },
            Installing::VerifyBackup(_) => Operation::Read {
                address: BACKUP as int,
                length: SECTOR as int,
            },
            Installing::EraseTable(_) => Operation::Erase {
                from: TABLE as int,
                to: TABLE + SECTOR,
            },
            Installing::WriteTable(_) => Operation::Write {
                address: TABLE as int,
                bytes: target_sector(),
            },
            Installing::VerifyTable(_) => Operation::Read {
                address: TABLE as int,
                length: SECTOR as int,
            },
            Installing::UndoErase(_, _) => Operation::Erase {
                from: TABLE as int,
                to: TABLE + SECTOR,
            },
            Installing::UndoWrite(old, _) => Operation::Write {
                address: TABLE as int,
                bytes: old@,
            },
        }
    }

    /// What comes after the operation was done and its reply was `data`.
    pub open spec fn after(self, data: Vec<u8>) -> InstallStep<E> {
        match self {
            Installing::Check(opening) => match opening.after::<E>(data@) {
                OpenStep::Read(next) => InstallStep::Do(Installing::Check(next)),
                OpenStep::Opened(_, _) => InstallStep::Do(Installing::Read),
                OpenStep::Refused(e) => InstallStep::Failed(e),
            },
            Installing::Read => if data@ == target_sector() {
                InstallStep::Installed
            } else if is_original(data@) {
                InstallStep::Do(Installing::EraseBackup(data))
            } else {
                InstallStep::Failed(Error::Layout)
            },
            Installing::EraseBackup(old) => InstallStep::Do(Installing::WriteBackup(old)),
            Installing::WriteBackup(old) => InstallStep::Do(Installing::VerifyBackup(old)),
            Installing::VerifyBackup(old) => if data@ == old@ {
                InstallStep::Do(Installing::EraseTable(old))
            } else {
                InstallStep::Failed(Error::UnknownData)
            },
            Installing::EraseTable(old) => InstallStep::Do(Installing::WriteTable(old)),
            Installing::WriteTable(old) => InstallStep::Do(Installing::VerifyTable(old)),
            Installing::VerifyTable(old) => if data@ == target_sector() {
                InstallStep::Installed
            } else {
                InstallStep::Do(Installing::UndoErase(old, Error::UnknownData))
            },
            Installing::UndoErase(old, e) => InstallStep::Do(Installing::UndoWrite(old, e)),
            Installing::UndoWrite(_, e) => InstallStep::Failed(e),
        }
    }

    /// What comes after the operation failed with `e`: before the table update
    /// the installation ends, during it the update is undone, and a failure to
    /// undo is passed over.
    pub open spec fn after_error(self, e: E) -> InstallStep<E> {
        match self {
            Installing::EraseTable(old) => InstallStep::Do(
                Installing::UndoErase(old, Error::Flash(e)),
            ),
            Installing::WriteTable(old) => InstallStep::Do(
                Installing::UndoErase(old, Error::Flash(e)),
            ),
            Installing::VerifyTable(old) => InstallStep::Do(
                Installing::UndoErase(old, Error::Flash(e)),
            ),
            Installing::UndoErase(old, first) => InstallStep::Do(
                Installing::UndoWrite(old, first),
            ),
            Installing::UndoWrite(_, first) => InstallStep::Failed(first),
            _ => InstallStep::Failed(Error::Flash(e)),
        }
    }

    /// The operation that is wanted.
    pub fn request(&self) -> (r: FlashOp)
        requires
            self.well_formed(),
        ensures
            r@ == self.operation(),
    {
        match self {
            Installing::Check(opening) => opening.request(),
            Installing::Read => FlashOp::Read { address: TABLE, length: SECTOR },
            Installing::EraseBackup(_) => FlashOp::Erase { from: BACKUP, to: BACKUP + SECTOR },
            Installing::WriteBackup(old) => FlashOp::Write {
                address: BACKUP,
                bytes: copy_of(old.as_slice()),
            },
            Installing::VerifyBackup(_) => FlashOp::Read { address: BACKUP, length: SECTOR },
            Installing::EraseTable(_) => FlashOp::Erase { from: TABLE, to: TABLE + SECTOR },
            Installing::WriteTable(_) => FlashOp::Write { address: TABLE, bytes: target() },
            Installing::VerifyTable(_) => FlashOp::Read { address: TABLE, length: SECTOR },
            Installing::UndoErase(_, _) => FlashOp::Erase { from: TABLE, to: TABLE + SECTOR },
            Installing::UndoWrite(old, _) => FlashOp::Write {
                address: TABLE,
                bytes: copy_of(old.as_slice()),
            },
        }
    }

    /// Takes the reply to the wanted operation; that to an erase or a write
    /// carries no bytes of interest.
    pub fn supply(self, reply: Result<Vec<u8>, E>) -> (r: InstallStep<E>)
        requires
            self.well_formed(),
            self.operation() matches Operation::Read { length, .. } ==> (reply matches Ok(data)
                ==> data@.len() == length),
        ensures
            r == match reply {
                Ok(data) => self.after(data),
                Err(e) => self.after_error(e),
            },
            r matches InstallStep::Do(next) ==> next.well_formed() && next.remaining()
                < self.remaining(),
    {
        let data = match reply {
            Ok(data) => data,
            Err(e) => return self.fail(e),
        };
        match self {
            Installing::Check(opening) => {
                match opening.supply::<E>(Ok(data)) {
                    OpenStep::Read(next) => InstallStep::Do(Installing::Check(next)),
                    OpenStep::Opened(_, _) => InstallStep::Do(Installing::Read),
                    OpenStep::Refused(e) => InstallStep::Failed(e),
                }
            },
            Installing::Read => {
                if same_bytes(data.as_slice(), target().as_slice()) {
                    return InstallStep::Installed;
                }
                if matches_original(data.as_slice()) {
                    InstallStep::Do(Installing::EraseBackup(data))
                } else {
                    InstallStep::Failed(Error::Layout)
                }
            },
            Installing::EraseBackup(old) => InstallStep::Do(Installing::WriteBackup(old)),
            Installing::WriteBackup(old) => InstallStep::Do(Installing::VerifyBackup(old)),
            Installing::VerifyBackup(old) => {
                if same_bytes(data.as_slice(), old.as_slice()) {
                    InstallStep::Do(Installing::EraseTable(old))
                } else {
                    InstallStep::Failed(Error::UnknownData)
                }
            },
            Installing::EraseTable(old) => InstallStep::Do(Installing::WriteTable(old)),
            Installing::WriteTable(old) => InstallStep::Do(Installing::VerifyTable(old)),
            Installing::VerifyTable(old) => {
                if same_bytes(data.as_slice(), target().as_slice()) {
                    InstallStep::Installed
                } else {
                    InstallStep::Do(Installing::UndoErase(old, Error::UnknownData))
                }
            },
            Installing::UndoErase(old, e) => InstallStep::Do(Installing::UndoWrite(old, e)),
            Installing::UndoWrite(_, e) => InstallStep::Failed(e),
        }
    }

    fn fail(self, e: E) -> (r: InstallStep<E>)
        requires
            self.well_formed(),
        ensures
            r == self.after_error(e),
            r matches InstallStep::Do(next) ==> next.well_formed() && next.remaining()
                < self.remaining(),
    {
        match self {
            Installing::EraseTable(old) => InstallStep::Do(
                Installing::UndoErase(old, Error::Flash(e)),
            ),
            Installing::WriteTable(old) => InstallStep::Do(
                Installing::UndoErase(old, Error::Flash(e)),
            ),
            Installing::VerifyTable(old) => InstallStep::Do(
                Installing::UndoErase(old, Error::Flash(e)),
            ),
            Installing::UndoErase(old, first) => InstallStep::Do(
                Installing::UndoWrite(old, first),
            ),
            Installing::UndoWrite(_, first) => InstallStep::Failed(first),
            _ => InstallStep::Failed(Error::Flash(e)),
        }
    }
}

/// Begins to add the scanner partition to the exact original table, on a flash
/// of this geometry. Never moves another partition.
pub fn install_partition<E>(capacity: usize, erase_size: usize, write_size: usize) -> (r: Result<
    Installing<E>,
    Error<E>,
>)
    requires
        write_size > 0,
    ensures
        r == if super::journal::geometry_accepted(capacity, erase_size, write_size) {
            Ok::<Installing<E>, Error<E>>(Installing::Check(Opening::first()))
        } else {
            Err(Error::Layout)
        },
        r matches Ok(installing) ==> installing.well_formed(),
{
    match Journal::open::<E>(capacity, erase_size, write_size) {
        Ok(opening) => Ok(Installing::Check(opening)),
        Err(e) => Err(e),
    }
}

// ---------------------------------------------------------------------------
// What the installation promises
// ---------------------------------------------------------------------------
/// The sector that begins at `at`.
pub open spec fn sector(m: Seq<u8>, at: int) -> Seq<u8> {
    m.subrange(at, at + SECTOR)
}

/// `m` with another sector at `at`.
pub open spec fn with_sector(m: Seq<u8>, at: int, s: Seq<u8>) -> Seq<u8> {
    Seq::new(
        m.len(),
        |i: int|
            if at <= i < at + SECTOR {
                s[i - at]
            } else {
                m[i]
            },
    )
}

/// An erased sector.
pub open spec fn erased_sector() -> Seq<u8> {
    Seq::new(4096, |i: int| 0xffu8)
}

/// The contents after the installation: the old table in the backup sector and
/// the target in the table's.
pub open spec fn migrated(m: Seq<u8>) -> Seq<u8> {
    with_sector(
        with_sector(m, BACKUP as int, sector(m, TABLE as int)),
        TABLE as int,
        target_sector(),
    )
}

/// The contents `m` at which an installation that began on `origin` stands,
/// no operation having failed.
pub open spec fn stands<E>(origin: Seq<u8>, i: Installing<E>, m: Seq<u8>) -> bool {
    let table = sector(origin, TABLE as int);
    let backed_up = with_sector(origin, BACKUP as int, table);
    &&& origin.len() >= BASE + SIZE
    &&& i.well_formed()
    &&& match i {
        Installing::Check(_) => m == origin,
        Installing::Read => m == origin,
        Installing::EraseBackup(old) => old@ == table && is_original(table) && m == origin,
        Installing::WriteBackup(old) => old@ == table && is_original(table) && m == with_sector(
            origin,
            BACKUP as int,
            erased_sector(),
        ),
        Installing::VerifyBackup(old) => old@ == table && is_original(table) && m == backed_up,
        Installing::EraseTable(old) => old@ == table && is_original(table) && m == backed_up,
        Installing::WriteTable(old) => old@ == table && is_original(table) && m == with_sector(
            backed_up,
            TABLE as int,
            erased_sector(),
        ),
        Installing::VerifyTable(old) => old@ == table && is_original(table) && m == migrated(
            origin,
        ),
        Installing::UndoErase(_, _) => false,
        Installing::UndoWrite(_, _) => false,
    }
}

proof fn lemma_erase_sector(m: Seq<u8>, at: int)
    requires
        0 <= at <= m.len() - SECTOR,
    ensures
        performed(m, Operation::Erase { from: at, to: at + SECTOR }) == with_sector(
            m,
            at,
            erased_sector(),
        ),
{
    assert(performed(m, Operation::Erase { from: at, to: at + SECTOR }) =~= with_sector(
        m,
        at,
        erased_sector(),
    ));
}

proof fn lemma_write_sector(m: Seq<u8>, at: int, s: Seq<u8>)
    requires
        0 <= at <= m.len() - SECTOR,
        s.len() == 4096,
    ensures
        performed(
            with_sector(m, at, erased_sector()),
            Operation::Write { address: at, bytes: s },
        ) == with_sector(m, at, s),
{
    assert forall|b: u8| 0xffu8 & b == b by {
        assert(0xffu8 & b == b) by (bit_vector);
    }
    assert(performed(
        with_sector(m, at, erased_sector()),
        Operation::Write { address: at, bytes: s },
    ) =~= with_sector(m, at, s));
}

/// An installation in which no operation fails keeps to its course: it ends with
/// the migrated contents, or without a change where the target is already in
/// place or the contents are refused.
pub proof fn lemma_installation_step<E>(
    origin: Seq<u8>,
    i: Installing<E>,
    m: Seq<u8>,
    reply: Vec<u8>,
)
    requires
        stands(origin, i, m),
        reply@ == answered(m, i.operation()),
    ensures
        match i.after(reply) {
            InstallStep::Do(next) => stands(origin, next, performed(m, i.operation()))
                && next.remaining() < i.remaining(),
            InstallStep::Installed => {
                ||| performed(m, i.operation()) == origin && sector(origin, TABLE as int)
                    == target_sector()
                ||| performed(m, i.operation()) == migrated(origin) && is_original(
                    sector(origin, TABLE as int),
                )
            },
            InstallStep::Failed(e) => performed(m, i.operation()) == origin && (i is Check || i
                is Read && e is Layout && sector(origin, TABLE as int) != target_sector()
                && !is_original(sector(origin, TABLE as int))),
        },
{
    let table = sector(origin, TABLE as int);
    let backed_up = with_sector(origin, BACKUP as int, table);
    match i {
        Installing::Check(opening) => {
            if let OpenStep::Read(next) = opening.after::<E>(reply@) {
                assert(next.well_formed());
            }
        },
        Installing::EraseBackup(_) => lemma_erase_sector(m, BACKUP as int),
        Installing::WriteBackup(old) => lemma_write_sector(origin, BACKUP as int, old@),
        Installing::VerifyBackup(old) => {
            assert(reply@ =~= old@);
        },
        Installing::EraseTable(_) => lemma_erase_sector(m, TABLE as int),
        Installing::WriteTable(_) => lemma_write_sector(backed_up, TABLE as int, target_sector()),
        Installing::VerifyTable(_) => {
            assert(reply@ =~= target_sector());
        },
        _ => {},
    }
}

proof fn lemma_target_row(m: Seq<u8>, i: int, c: int)
    requires
        m.len() >= BASE + SIZE,
        sector(m, TABLE as int) == target_sector(),
        0 <= i < 96,
        0 <= c < 8,
    ensures
        word_at(entry_at(m, i), 4 * c) == target_word(8 * i + c),
        entry_at(m, i)[4 * c] == le_byte(target_word(8 * i + c), 0),
        entry_at(m, i)[4 * c + 1] == le_byte(target_word(8 * i + c), 1),
        entry_at(m, i)[4 * c + 2] == le_byte(target_word(8 * i + c), 2),
        entry_at(m, i)[4 * c + 3] == le_byte(target_word(8 * i + c), 3),
{
    let e = entry_at(m, i);
    let w = target_word(8 * i + c);
    assert forall|j: int| 0 <= j < 4 implies e[4 * c + j] == le_byte(w, j) by {
        let at = 32 * i + 4 * c + j;
        assert(sector(m, TABLE as int)[at] == target_sector()[at]);
        assert(at / 4 == 8 * i + c && at % 4 == j);
        assert(target_sector()[at] == le_byte(w, j));
        assert(e[4 * c + j] == m[TABLE + at]);
    }
    assert(e[4 * c + 0] == le_byte(w, 0));
    lemma_le_word(w);
}

/// The target table is one in which the journal may be used.
pub proof fn lemma_target_is_accepted(m: Seq<u8>)
    requires
        m.len() >= BASE + SIZE,
        sector(m, TABLE as int) == target_sector(),
    ensures
        layout_accepted(m),
{
    assert forall|i: int| 0 <= i < 7 implies word_at(entry_at(m, i), 4) == target_word(8 * i + 1)
        && word_at(entry_at(m, i), 8) == target_word(8 * i + 2) && word_at(entry_at(m, i), 12)
        == target_word(8 * i + 3) && word_at(entry_at(m, i), 16) == target_word(8 * i + 4)
        && word_at(entry_at(m, i), 28) == target_word(8 * i + 7) && entry_at(m, i)[0] == le_byte(
        target_word(8 * i),
        0,
    ) && entry_at(m, i)[1] == le_byte(target_word(8 * i), 1) && #[trigger] entry_at(m, i)[2]
        == le_byte(target_word(8 * i), 2) && entry_at(m, i)[3] == le_byte(
        target_word(8 * i),
        3,
    ) by {
        lemma_target_row(m, i, 0);
        lemma_target_row(m, i, 1);
        lemma_target_row(m, i, 2);
        lemma_target_row(m, i, 3);
        lemma_target_row(m, i, 4);
        lemma_target_row(m, i, 7);
    }
    assert((0x020150aau32 & 0xff) as u8 == 0xaa && ((0x020150aau32 >> 8) & 0xff) as u8 == 0x50 && ((
    0x020150aau32 >> 16) & 0xff) as u8 == 1 && (0x000150aau32 & 0xff) as u8 == 0xaa && ((
    0x000150aau32 >> 8) & 0xff) as u8 == 0x50 && ((0x000150aau32 >> 16) & 0xff) as u8 == 1 && (
    0x010150aau32 & 0xff) as u8 == 0xaa && ((0x010150aau32 >> 8) & 0xff) as u8 == 0x50 && ((
    0x010150aau32 >> 16) & 0xff) as u8 == 1) by (bit_vector);
    assert((0x100050aau32 & 0xff) as u8 == 0xaa && ((0x100050aau32 >> 8) & 0xff) as u8 == 0x50 && ((
    0x100050aau32 >> 16) & 0xff) as u8 == 0 && ((0x100050aau32 >> 24) & 0xff) as u8 == 0x10 && (
    0x110050aau32 & 0xff) as u8 == 0xaa && ((0x110050aau32 >> 8) & 0xff) as u8 == 0x50 && ((
    0x110050aau32 >> 16) & 0xff) as u8 == 0 && ((0x110050aau32 >> 24) & 0xff) as u8 == 0x11)
        by (bit_vector);
    assert((0x004050aau32 & 0xff) as u8 == 0xaa && ((0x004050aau32 >> 8) & 0xff) as u8 == 0x50 && ((
    0x004050aau32 >> 16) & 0xff) as u8 == 0x40 && ((0x004050aau32 >> 24) & 0xff) as u8 == 0 && (
    0xffffebebu32 & 0xff) as u8 == 0xeb && ((0xffffebebu32 >> 8) & 0xff) as u8 == 0xeb)
        by (bit_vector);
    assert(verdict(entry_at(m, 0)) == Verdict::Other) by {
        let e = entry_at(m, 0)[2];
    }
    assert(verdict(entry_at(m, 1)) == Verdict::Other) by {
        let e = entry_at(m, 1)[2];
    }
    assert(verdict(entry_at(m, 2)) == Verdict::Other) by {
        let e = entry_at(m, 2)[2];
    }
    assert(verdict(entry_at(m, 3)) == Verdict::App0) by {
        let e = entry_at(m, 3)[2];
    }
    assert(verdict(entry_at(m, 4)) == Verdict::App1) by {
        let e = entry_at(m, 4)[2];
    }
    assert(verdict(entry_at(m, 5)) == Verdict::Other) by {
        let e = entry_at(m, 5)[2];
    }
    assert(verdict(entry_at(m, 6)) == Verdict::End) by {
        let e = entry_at(m, 6)[2];
    }
    assert forall|i: int| 0 <= i < 6 implies !closes_table(#[trigger] entry_at(m, i)) && verdict(
        entry_at(m, i),
    ) != Verdict::Bad by {
        assert(i == 0 || i == 1 || i == 2 || i == 3 || i == 4 || i == 5);
    }
    lemma_table_end(m, 0, 6);
    assert(table_end(m, 0) == 6);
    assert(shows(m, 6, Verdict::App0) && shows(m, 6, Verdict::App1));
}

proof fn lemma_same_slots(m: Seq<u8>, n: Seq<u8>, k: int)
    requires
        0 <= k <= 480,
        forall|i: int| 0 <= i < 480 ==> slot_bytes(m, i) == slot_bytes(n, i),
    ensures
        latest_of(m, k) == latest_of(n, k),
        dirty(m, k) == dirty(n, k),
        recognized(m, k) == recognized(n, k),
    decreases k,
{
    if k > 0 {
        lemma_same_slots(m, n, k - 1);
        assert(slot_bytes(m, k - 1) == slot_bytes(n, k - 1));
    }
    assert(forall|i: int| 0 <= i < k ==> slot_bytes(m, i) == slot_bytes(n, i));
}

/// The migration is additive. It keeps the table's first five rows and every
/// byte outside the table and the backup sector; the backup holds the old table;
/// the new table suits the journal, which opens as before.
pub proof fn lemma_migration_is_additive<E>(m: Seq<u8>)
    requires
        m.len() >= BASE + SIZE,
        layout_accepted(m),
        is_original(sector(m, TABLE as int)),
    ensures
        forall|i: int| 0 <= i < 5 ==> entry_at(migrated(m), i) == entry_at(m, i),
        forall|i: int|
            0 <= i < m.len() && !(TABLE <= i < TABLE + SECTOR) && !(BACKUP <= i < BACKUP + SECTOR)
                ==> #[trigger] migrated(m)[i] == m[i],
        sector(migrated(m), BACKUP as int) == sector(m, TABLE as int),
        sector(migrated(m), TABLE as int) == target_sector(),
        layout_accepted(migrated(m)),
        recovered::<E>(migrated(m)) == recovered::<E>(m),
{
    let n = migrated(m);
    let table = sector(m, TABLE as int);
    assert(sector(n, BACKUP as int) =~= table);
    assert(sector(n, TABLE as int) =~= target_sector());
    assert forall|i: int| 0 <= i < 5 implies entry_at(n, i) == entry_at(m, i) by {
        assert forall|j: int| 0 <= j < 32 implies entry_at(n, i)[j] == entry_at(m, i)[j] by {
            assert(table.subrange(0, 160)[32 * i + j] == target_sector().subrange(0, 160)[32 * i
                + j]);
        }
        assert(entry_at(n, i) =~= entry_at(m, i));
    }
    lemma_target_is_accepted(n);
    assert forall|i: int| 0 <= i < 480 implies slot_bytes(m, i) == slot_bytes(n, i) by {
        assert(slot_bytes(m, i) =~= slot_bytes(n, i));
    }
    lemma_same_slots(m, n, 480);
}

/// The installation can be repeated: on migrated contents it ends at once and
/// changes nothing.
pub proof fn lemma_installation_is_idempotent<E>(m: Seq<u8>, reply: Vec<u8>)
    requires
        m.len() >= BASE + SIZE,
        reply@ == answered(migrated(m), Installing::<E>::Read.operation()),
    ensures
        Installing::<E>::Read.after(reply) == InstallStep::<E>::Installed,
        performed(migrated(m), Installing::<E>::Read.operation()) == migrated(m),
{
    assert(reply@ =~= target_sector());
}

/// The operation leaves the boot table alone.
pub open spec fn spares_table(op: Operation) -> bool {
    match op {
        Operation::Read { .. } => true,
        Operation::Erase { from, to } => from >= TABLE + SECTOR,
        Operation::Write { address, bytes } => address >= TABLE + SECTOR,
    }
}

/// The table update comes only after the backup was read back as it should be;
/// until then every operation leaves the boot table alone, whatever the replies.
pub proof fn lemma_backup_comes_first<E>(i: Installing<E>, reply: Result<Vec<u8>, E>)
    requires
        !(i is EraseTable || i is WriteTable || i is VerifyTable || i is UndoErase || i
            is UndoWrite),
    ensures
        spares_table(i.operation()),
        (match reply {
            Ok(data) => i.after(data),
            Err(e) => i.after_error(e),
        }) matches InstallStep::Do(next) ==> {
            ||| !(next is EraseTable || next is WriteTable || next is VerifyTable || next
                is UndoErase || next is UndoWrite)
            ||| next matches Installing::EraseTable(old) && i == Installing::<E>::VerifyBackup(old)
                && reply is Ok && reply->Ok_0@ == old@
        },
{
}

/// Undoing a failed update brings the old table back and reports the failure.
pub proof fn lemma_undo_restores_table<E>(m: Seq<u8>, old_table: Vec<u8>, e: Error<E>, r: Vec<u8>)
    requires
        m.len() >= BASE + SIZE,
        old_table@.len() == 4096,
    ensures
        Installing::UndoErase(old_table, e).after(r) == InstallStep::Do(
            Installing::UndoWrite(old_table, e),
        ),
        Installing::UndoWrite(old_table, e).after(r) == InstallStep::Failed(e),
        performed(
            performed(m, Installing::UndoErase(old_table, e).operation()),
            Installing::UndoWrite(old_table, e).operation(),
        ) == with_sector(m, TABLE as int, old_table@),
{
    lemma_erase_sector(m, TABLE as int);
    lemma_write_sector(m, TABLE as int, old_table@);
}

} // verus!

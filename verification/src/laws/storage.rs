//! Storage: what a record holds, where it stands, and which flash contents may be touched.

use crate::keyscan::job::ScanJob;
use crate::keyscan::journal::{age, begun, blank, following, geometry_accepted, newer, next_slot};
use crate::keyscan::journal::{slot_address, started, Error, Journal, OpenStep, Opening, Operation};
use crate::keyscan::journal::{SaveStage, SaveStep, Saving};
use crate::keyscan::migration::{is_original, target_sector, target_word};
use crate::keyscan::migration::{InstallStep, Installing};
use crate::keyscan::partition::{closes_table, entry_at, verdict};
use crate::keyscan::record::{committed, crc32, crc_bit, crc_register, decoded, le_byte, le_word};
use crate::keyscan::record::{lemma_record_word, payload_word, record, stored_state, word_at};
use crate::keyscan::{Phase, State};
use vstd::prelude::*;

verus! {

// ---------------------------------------------------------------------------
// Records
// ---------------------------------------------------------------------------
/// A word stands with its lowest byte first.
pub proof fn lemma_words_are_little_endian(a: u8, b: u8, c: u8, d: u8, w: u32)
    ensures
        le_word(a, b, c, d) == a + 0x100 * b + 0x1_0000 * c + 0x100_0000 * d,
        w == le_byte(w, 0) + 0x100 * le_byte(w, 1) + 0x1_0000 * le_byte(w, 2) + 0x100_0000
            * le_byte(w, 3),
{
    assert((a as u32) | ((b as u32) << 8) | ((c as u32) << 16) | ((d as u32) << 24) == a + 0x100 * b
        + 0x1_0000 * c + 0x100_0000 * d) by (bit_vector);
    assert(w == ((w & 0xff) as u8) + 0x100 * (((w >> 8) & 0xff) as u8) + 0x1_0000 * (((w >> 16)
        & 0xff) as u8) + 0x100_0000 * (((w >> 24) & 0xff) as u8)) by (bit_vector);
}

/// Where a record holds what: the format, the sequence number, the phase, then the job's
/// numbers in their order.
pub proof fn lemma_record_layout(s: State, q: u32)
    ensures
        ({
            let b = record(s, q);
            &&& b.len() == 128
            &&& word_at(b, 0) == 0x3353_4b46
            &&& word_at(b, 4) == q
            &&& word_at(b, 8) == 0xffff_ff00 + s.phase.number()
            &&& word_at(b, 12) == s.software_id
            &&& word_at(b, 16) == s.start
            &&& word_at(b, 20) == s.end
            &&& word_at(b, 24) == s.next
            &&& word_at(b, 28) == s.minimum_ms
            &&& word_at(b, 32) == s.timeout_ms
            &&& word_at(b, 36) == s.maximum_ms
            &&& word_at(b, 40) == s.known_mask
            &&& s.found is None ==> word_at(b, 44) == 0x10000
            &&& s.found matches Some(key) ==> word_at(b, 44) == key
            &&& word_at(b, 48) == s.errors
            &&& word_at(b, 52) == s.increases
            &&& word_at(b, 56) == s.tested
        }),
{
    lemma_record_word(s, q, 0);
    lemma_record_word(s, q, 1);
    lemma_record_word(s, q, 2);
    lemma_record_word(s, q, 3);
    lemma_record_word(s, q, 4);
    lemma_record_word(s, q, 5);
    lemma_record_word(s, q, 6);
    lemma_record_word(s, q, 7);
    lemma_record_word(s, q, 8);
    lemma_record_word(s, q, 9);
    lemma_record_word(s, q, 10);
    lemma_record_word(s, q, 11);
    lemma_record_word(s, q, 12);
    lemma_record_word(s, q, 13);
    lemma_record_word(s, q, 14);
    let n = s.phase.number();
    assert(0xffff_ff00u32 | n as u32 == 0xffff_ff00 + n) by (bit_vector);
}

/// Behind the job a record is erased flash, up to its sum and the commit mark.
pub proof fn lemma_record_end(s: State, q: u32, i: int)
    ensures
        60 <= i < 120 ==> record(s, q)[i] == 0xff,
        record(s, q)[124] == 0x44,
        record(s, q)[125] == 0x4f,
        record(s, q)[126] == 0x4e,
        record(s, q)[127] == 0x45,
{
    assert((0xffff_ffffu32 & 0xff) as u8 == 0xff && ((0xffff_ffffu32 >> 8) & 0xff) as u8 == 0xff
        && ((0xffff_ffffu32 >> 16) & 0xff) as u8 == 0xff && ((0xffff_ffffu32 >> 24) & 0xff) as u8
        == 0xff && (0x454e4f44u32 & 0xff) as u8 == 0x44 && ((0x454e4f44u32 >> 8) & 0xff) as u8
        == 0x4f && ((0x454e4f44u32 >> 16) & 0xff) as u8 == 0x4e && ((0x454e4f44u32 >> 24) & 0xff)
        as u8 == 0x45) by (bit_vector);
    if 60 <= i < 120 {
        assert(payload_word(s, q, i / 4) == 0xffff_ffff);
    }
}

/// A record reads back with the numbers that stand in it, each within its range.
pub proof fn lemma_decoded_fields(b: Seq<u8>)
    ensures
        decoded(b) matches Some((q, s)) ==> {
            &&& q == word_at(b, 4)
            &&& s.phase.number() == b[8]
            &&& s.software_id == word_at(b, 12)
            &&& s.start == word_at(b, 16)
            &&& s.end == word_at(b, 20)
            &&& s.next == word_at(b, 24)
            &&& s.minimum_ms == word_at(b, 28)
            &&& s.timeout_ms == word_at(b, 32)
            &&& s.maximum_ms == word_at(b, 36)
            &&& s.known_mask == word_at(b, 40)
            &&& s.found is None <==> word_at(b, 44) == 0x10000
            &&& s.found matches Some(key) ==> key == word_at(b, 44)
            &&& s.errors == word_at(b, 48)
            &&& s.increases == word_at(b, 52)
            &&& s.tested == word_at(b, 56)
            &&& b.len() == 128
            &&& word_at(b, 0) == 0x3353_4b46
            &&& word_at(b, 124) == 0x454e_4f44
            &&& word_at(b, 120) == crc32(b.subrange(0, 120))
            &&& s.well_formed()
        },
{
}

/// A record is refused only for a broken frame, a number out of range or a job that cannot
/// be.
pub proof fn lemma_refused_records(b: Seq<u8>)
    requires
        b.len() == 128,
        word_at(b, 0) == 0x3353_4b46,
        word_at(b, 124) == 0x454e_4f44,
        word_at(b, 120) == crc32(b.subrange(0, 120)),
    ensures
        decoded(b) is None ==> b[8] > 5 || word_at(b, 12) > 0xffff || word_at(b, 16) > 0xffff
            || word_at(b, 20) > 0xffff || word_at(b, 28) > 0xffff || word_at(b, 32) > 0xffff
            || word_at(b, 36) > 0xffff || word_at(b, 44) > 0x10000 || word_at(b, 16) > word_at(
            b,
            20,
        ) || word_at(b, 24) < word_at(b, 16) || word_at(b, 24) > word_at(b, 20) + 1 || word_at(
            b,
            28,
        ) < 40 || word_at(b, 28) > word_at(b, 32) || word_at(b, 32) > word_at(b, 36) || word_at(
            b,
            36,
        ) > 2000 || word_at(b, 28) % 5 != 0 || word_at(b, 36) % 5 != 0,
{
    assert(committed(b));
    if decoded(b) is None {
        assert(stored_state(b) is None);
    }
}

/// One bit of the sum: the register moves right, and a one that falls out of it is added
/// back as the reversed polynomial. Every byte goes into the register from below.
pub proof fn lemma_sum_steps(c: u32)
    ensures
        c % 2 == 0 ==> crc_bit(c) == c / 2,
        c % 2 == 1 ==> crc_bit(c) == (c / 2) ^ 0xedb8_8320,
        crc_register(Seq::empty()) == 0xffff_ffff,
        crc32(Seq::empty()) == 0,
{
    assert(c & 1 == c % 2 && c >> 1 == c / 2) by (bit_vector);
    assert(!0xffff_ffffu32 == 0) by (bit_vector);
}

// ---------------------------------------------------------------------------
// The ring
// ---------------------------------------------------------------------------
/// Sequence numbers are ordered in a circle: each is newer than the one before it, and none
/// is newer than itself or than one that is newer.
pub proof fn lemma_sequence_numbers(q: u32, p: u32)
    ensures
        newer(following(q), q),
        !newer(q, q),
        newer(q, p) ==> !newer(p, q),
        q != p && age(q, p) != 0x8000_0000 ==> newer(q, p) || newer(p, q),
        age(following(q), q) == 1,
        q < 0xffff_ffff ==> following(q) == q + 1,
        following(0xffff_ffff) == 0,
{
}

/// The slots stand behind each other from the beginning of the area, 128 bytes each, and the
/// first follows the last.
pub proof fn lemma_slots(slot: int)
    requires
        0 <= slot < 480,
    ensures
        slot_address(0) == 0x3f_0000,
        slot_address(slot + 1) == slot_address(slot) + 128,
        slot < 479 ==> next_slot(slot) == slot + 1,
        next_slot(479) == 0,
        0x3f_0000 <= slot_address(slot) && slot_address(slot) + 128 <= 0x3f_f000,
{
}

/// The journal needs a flash that reaches to the end of its area, erases sectors of 4096 bytes
/// and writes words of one, two or four bytes.
pub proof fn lemma_geometry(capacity: usize, erase_size: usize, write_size: usize)
    ensures
        geometry_accepted(capacity, erase_size, write_size) <==> capacity >= 0x40_0000
            && erase_size == 0x1000 && (write_size == 1 || write_size == 2 || write_size == 4),
{
}

/// A torn beginning holds nothing but bits of the format; with the whole format a slot was
/// begun whatever else it holds.
pub proof fn lemma_begun_slots(s: Seq<u8>, i: int)
    requires
        s.len() == 128,
    ensures
        word_at(s, 0) == 0x3353_4b46 ==> begun(s),
        begun(s) && word_at(s, 0) != 0x3353_4b46 && 4 <= i < 128 ==> s[i] == 0xff,
        blank(s) ==> !started(s),
        blank(s) && 0 <= i < 128 ==> s[i] == 0xff,
{
}

// ---------------------------------------------------------------------------
// Opening and saving
// ---------------------------------------------------------------------------
/// An opening reads the partition table entry by entry and then every slot, in order.
pub proof fn lemma_opening_reads(o: Opening)
    ensures
        Opening::first() == (Opening::Table { index: 0, app0: false, app1: false }),
        o matches Opening::Table { index, .. } ==> o.operation() == (Operation::Read {
            address: 0x8000 + 32 * index,
            length: 32,
        }),
        o matches Opening::Records { slot, .. } ==> o.operation() == (Operation::Read {
            address: 0x3f_0000 + 128 * slot,
            length: 128,
        }),
{
}

/// An entry that is in the way ends the opening; the records are read only once both
/// application slots were seen.
pub proof fn lemma_table_is_judged<E>(index: u32, app0: bool, app1: bool, data: Seq<u8>)
    requires
        index < 96,
    ensures
        ({
            let next = (Opening::Table { index, app0, app1 }).after::<E>(data);
            let v = verdict(data);
            let first = app0 || v is App0;
            let second = app1 || v is App1;
            &&& v is Bad ==> next == OpenStep::<E>::Refused(Error::Layout)
            &&& !(v is Bad) && !(v is End) && index < 95 ==> next == OpenStep::<E>::Read(
                Opening::Table { index: (index + 1) as u32, app0: first, app1: second },
            )
            &&& (v is End || (index == 95 && !(v is Bad))) && first && second ==> next
                == OpenStep::<E>::Read(
                Opening::Records { slot: 0, latest: None, dirty: false, recognized: false },
            )
            &&& (v is End || (index == 95 && !(v is Bad))) && !(first && second) ==> next
                == OpenStep::<E>::Refused(Error::Layout)
        }),
{
}

/// Of the records the newest counts; the next save goes behind it. Without any the job is
/// idle, unless the area holds something that is not the journal's.
pub proof fn lemma_records_are_judged<E>(
    latest: Option<(u32, u32, State)>,
    slot: u32,
    dirty: bool,
    recognized: bool,
    data: Seq<u8>,
)
    requires
        slot < 480,
    ensures
        ({
            let now = Opening::later(latest, slot, data);
            let next = (Opening::Records { slot, latest, dirty, recognized }).after::<E>(data);
            &&& decoded(data) is None ==> now == latest
            &&& decoded(data) matches Some((q, s)) ==> (latest is None ==> now == Some((q, slot, s)))
                && (latest matches Some((old, at, t)) ==> (newer(q, old) ==> now == Some(
                (q, slot, s),
            )) && (!newer(q, old) ==> now == latest))
            &&& slot < 479 ==> next == OpenStep::<E>::Read(
                Opening::Records {
                    slot: (slot + 1) as u32,
                    latest: now,
                    dirty: dirty || !blank(data),
                    recognized: recognized || begun(data),
                },
            )
            &&& slot == 479 ==> (now matches Some((q, at, s)) ==> next == OpenStep::<E>::Opened(
                Journal { sequence: q, slot: next_slot(at as int) as u32 },
                s,
            ))
            &&& slot == 479 && now is None && (dirty || !blank(data)) && !(recognized || begun(
                data,
            )) ==> next == OpenStep::<E>::Refused(Error::UnknownData)
            &&& slot == 479 && now is None && !((dirty || !blank(data)) && !(recognized || begun(
                data,
            ))) ==> next == OpenStep::<E>::Opened(
                Journal { sequence: 0, slot: 0 },
                State::idle(),
            )
        }),
{
}

/// A save writes the record of the job under the next number into a blank slot, its commit
/// mark last, and reads it back; a sector is erased when it is entered.
pub proof fn lemma_save_operations(s: Saving)
    requires
        s.journal.slot < 480,
    ensures
        ({
            let at = 0x3f_0000 + 128 * s.journal.slot;
            let image = record(s.state, following(s.journal.sequence));
            &&& s.stage is Probe || s.stage is Verify ==> s.operation() == (Operation::Read {
                address: at,
                length: 128,
            })
            &&& s.stage is Erase ==> s.operation() == (Operation::Erase {
                from: at,
                to: at + 0x1000,
            })
            &&& s.stage is Body ==> s.operation() == (Operation::Write {
                address: at,
                bytes: image.subrange(0, 124),
            })
            &&& s.stage is Commit ==> s.operation() == (Operation::Write {
                address: at + 124,
                bytes: image.subrange(124, 128),
            })
        }),
        ({
            let first = Saving::first(s.journal, s.state);
            &&& first.journal == s.journal && first.state == s.state
            &&& s.journal.slot as int % 32 == 0 ==> first.stage is Erase
            &&& s.journal.slot as int % 32 != 0 ==> first.stage is Probe
        }),
{
}

/// How a save goes on, and how it ends.
pub proof fn lemma_save_stages<E>(s: Saving, data: Seq<u8>, e: E)
    requires
        s.well_formed(),
    ensures
        ({
            let next = s.after::<E>(data);
            let q = following(s.journal.sequence);
            let behind = next_slot(s.journal.slot as int) as u32;
            &&& s.stage is Erase || (s.stage is Probe && blank(data)) ==> next == SaveStep::<E>::Do(
                Saving { stage: SaveStage::Body, ..s },
            )
            &&& s.stage is Probe && !blank(data) ==> next == SaveStep::<E>::Do(
                Saving::first(Journal { slot: behind, ..s.journal }, s.state),
            )
            &&& s.stage is Body ==> next == SaveStep::<E>::Do(
                Saving { stage: SaveStage::Commit, ..s },
            )
            &&& s.stage is Commit ==> next == SaveStep::<E>::Do(
                Saving { stage: SaveStage::Verify, ..s },
            )
            &&& s.stage is Verify && decoded(data) == Some((q, s.state)) ==> next
                == SaveStep::<E>::Saved(Journal { sequence: q, slot: behind })
            &&& s.stage is Verify && decoded(data) != Some((q, s.state)) ==> next
                == SaveStep::<E>::Failed(s.journal, Error::UnknownData)
            &&& s.after_error::<E>(e) == SaveStep::Failed(s.journal, Error::Flash(e))
        }),
{
}

/// A job with storage can be saved; once saved it stands at the journal's new position, and
/// otherwise it counts as broken.
pub proof fn lemma_jobs_are_saved(job: ScanJob, journal: Option<Journal>, success: bool)
    ensures
        job.saving() is Some <==> job.journal is Some,
        job.journal matches Some(j) ==> job.saving() == Some(Saving::first(j, job.state)),
        job.after_save(journal, success).journal == journal,
        journal is Some && success ==> job.after_save(journal, success).state == job.state,
        journal is None || !success ==> job.after_save(journal, success).state == (State {
            phase: Phase::StorageError,
            ..job.state
        }),
        ScanJob::without_storage().journal is None,
        ScanJob::without_storage().state.phase is StorageError,
{
}

// ---------------------------------------------------------------------------
// The partition table
// ---------------------------------------------------------------------------
/// The table ends at erased flash or at its checksum.
pub proof fn lemma_table_ends(e: Seq<u8>)
    ensures
        closes_table(e) <==> (e[0] == 0xff && e[1] == 0xff) || (e[0] == 0xeb && e[1] == 0xeb),
        verdict(e) is End <==> closes_table(e),
{
}

/// An entry is in the way if it has no mark, runs past the address space, is an application
/// slot in another place, or reaches into the scanner's area without being the scanner's.
pub proof fn lemma_entries(e: Seq<u8>)
    requires
        e.len() == 32,
        !closes_table(e),
    ensures
        ({
            let from = word_at(e, 4);
            let size = word_at(e, 8);
            let app = e[2] == 0;
            let first = app && e[3] == 0x10 && from == 0x1_0000 && size == 0x1f_0000;
            let second = app && e[3] == 0x11 && from == 0x20_0000 && size == 0x1f_0000;
            let inside = from < 0x40_0000 && from + size > 0x3f_0000;
            let own = e[2] == 0x40 && e[3] == 0 && from == 0x3f_0000 && size == 0x1_0000 && word_at(
                e,
                12,
            ) == 0x7379_656b && word_at(e, 16) == 0x006e_6163 && word_at(e, 28) == 0;
            let bad = e[0] != 0xaa || e[1] != 0x50 || from + size > 0xffff_ffff || (app && !first
                && !second) || (inside && !own);
            &&& verdict(e) is Bad <==> bad
            &&& !bad && first ==> verdict(e) is App0
            &&& !bad && second ==> verdict(e) is App1
            &&& !bad && !first && !second ==> verdict(e) is Other
        }),
{
}

/// Entries stand behind each other from the beginning of the table, 32 bytes each.
pub proof fn lemma_entry_places(m: Seq<u8>, i: int, k: int)
    requires
        0 <= i < 96,
        0 <= k < 32,
        m.len() >= 0x9000,
    ensures
        entry_at(m, i)[k] == m[0x8000 + 32 * i + k],
{
}

/// A row of the table: its mark and types, its place, its size, the name and no flags.
pub proof fn lemma_target_rows()
    ensures
        target_word(1) == 0x9000 && target_word(2) == 0x4000,
        target_word(9) == 0xd000 && target_word(10) == 0x2000,
        target_word(17) == 0xf000 && target_word(18) == 0x1000,
        target_word(25) == 0x1_0000 && target_word(26) == 0x1f_0000,
        target_word(33) == 0x20_0000 && target_word(34) == 0x1f_0000,
        target_word(41) == 0x3f_0000 && target_word(42) == 0x1_0000,
        target_word(0) == 0x0201_50aa && target_word(8) == 0x0001_50aa && target_word(16)
            == 0x0101_50aa,
        target_word(24) == 0x1000_50aa && target_word(32) == 0x1100_50aa && target_word(40)
            == 0x0040_50aa,
        target_word(48) == 0xffff_ebeb,
{
}

// ---------------------------------------------------------------------------
// Installing the partition
// ---------------------------------------------------------------------------
/// The operations of an installation: the old table goes to the last sector of the area, and
/// the new one takes its place.
pub proof fn lemma_installation_operations<E>(old: Vec<u8>, e: Error<E>)
    ensures
        Installing::<E>::Read.operation() == (Operation::Read { address: 0x8000, length: 0x1000 }),
        Installing::<E>::EraseBackup(old).operation() == (Operation::Erase {
            from: 0x3f_f000,
            to: 0x40_0000,
        }),
        Installing::<E>::WriteBackup(old).operation() == (Operation::Write {
            address: 0x3f_f000,
            bytes: old@,
        }),
        Installing::<E>::VerifyBackup(old).operation() == (Operation::Read {
            address: 0x3f_f000,
            length: 0x1000,
        }),
        Installing::<E>::EraseTable(old).operation() == (Operation::Erase {
            from: 0x8000,
            to: 0x9000,
        }),
        Installing::<E>::WriteTable(old).operation() == (Operation::Write {
            address: 0x8000,
            bytes: target_sector(),
        }),
        Installing::<E>::VerifyTable(old).operation() == (Operation::Read {
            address: 0x8000,
            length: 0x1000,
        }),
        Installing::<E>::UndoErase(old, e).operation() == (Operation::Erase {
            from: 0x8000,
            to: 0x9000,
        }),
        Installing::<E>::UndoWrite(old, e).operation() == (Operation::Write {
            address: 0x8000,
            bytes: old@,
        }),
{
}

/// How an installation goes on where its operations succeed: only the known table is
/// replaced, only behind a backup that reads back, and a table that does not read back is
/// taken back.
pub proof fn lemma_installation_stages<E>(old: Vec<u8>, data: Vec<u8>, e: Error<E>)
    ensures
        data@ == target_sector() ==> Installing::<E>::Read.after(data) is Installed,
        data@ != target_sector() && is_original(data@) ==> Installing::<E>::Read.after(data)
            == InstallStep::<E>::Do(Installing::EraseBackup(data)),
        data@ != target_sector() && !is_original(data@) ==> Installing::<E>::Read.after(data)
            == InstallStep::<E>::Failed(Error::Layout),
        Installing::<E>::EraseBackup(old).after(data) == InstallStep::<E>::Do(
            Installing::WriteBackup(old),
        ),
        Installing::<E>::WriteBackup(old).after(data) == InstallStep::<E>::Do(
            Installing::VerifyBackup(old),
        ),
        data@ == old@ ==> Installing::<E>::VerifyBackup(old).after(data)
            == InstallStep::<E>::Do(Installing::EraseTable(old)),
        data@ != old@ ==> Installing::<E>::VerifyBackup(old).after(data)
            == InstallStep::<E>::Failed(Error::UnknownData),
        Installing::<E>::EraseTable(old).after(data) == InstallStep::<E>::Do(
            Installing::WriteTable(old),
        ),
        Installing::<E>::WriteTable(old).after(data) == InstallStep::<E>::Do(
            Installing::VerifyTable(old),
        ),
        data@ == target_sector() ==> Installing::<E>::VerifyTable(old).after(data) is Installed,
        data@ != target_sector() ==> Installing::<E>::VerifyTable(old).after(data)
            == InstallStep::<E>::Do(Installing::UndoErase(old, Error::UnknownData)),
        Installing::<E>::UndoErase(old, e).after(data) == InstallStep::<E>::Do(
            Installing::UndoWrite(old, e),
        ),
        Installing::<E>::UndoWrite(old, e).after(data) == InstallStep::<E>::Failed(e),
{
}

/// An error before the table was touched ends the installation; one behind that takes the
/// table back, and is what is reported in the end.
pub proof fn lemma_installation_errors<E>(old: Vec<u8>, first: Error<E>, e: E, o: Opening)
    ensures
        Installing::<E>::Check(o).after_error(e) == InstallStep::<E>::Failed(Error::Flash(e)),
        Installing::<E>::Read.after_error(e) == InstallStep::<E>::Failed(Error::Flash(e)),
        Installing::<E>::EraseBackup(old).after_error(e) == InstallStep::<E>::Failed(
            Error::Flash(e),
        ),
        Installing::<E>::WriteBackup(old).after_error(e) == InstallStep::<E>::Failed(
            Error::Flash(e),
        ),
        Installing::<E>::VerifyBackup(old).after_error(e) == InstallStep::<E>::Failed(
            Error::Flash(e),
        ),
        Installing::<E>::EraseTable(old).after_error(e) == InstallStep::<E>::Do(
            Installing::UndoErase(old, Error::Flash(e)),
        ),
        Installing::<E>::WriteTable(old).after_error(e) == InstallStep::<E>::Do(
            Installing::UndoErase(old, Error::Flash(e)),
        ),
        Installing::<E>::VerifyTable(old).after_error(e) == InstallStep::<E>::Do(
            Installing::UndoErase(old, Error::Flash(e)),
        ),
        Installing::<E>::UndoErase(old, first).after_error(e) == InstallStep::<E>::Do(
            Installing::UndoWrite(old, first),
        ),
        Installing::<E>::UndoWrite(old, first).after_error(e) == InstallStep::<E>::Failed(
            first,
        ),
{
}

/// The known table: its sum, the five rows that stay, and an erased rest of its sector.
pub proof fn lemma_original_table(s: Seq<u8>, i: int)
    requires
        s.len() == 4096,
    ensures
        is_original(s) ==> crc32(s.subrange(0, 3072)) == 0xb70e_844b,
        is_original(s) && 0 <= i < 160 ==> s[i] == target_sector()[i],
        is_original(s) && 3072 <= i < 4096 ==> s[i] == 0xff,
        crc32(s.subrange(0, 3072)) == 0xb70e_844b && (forall|k: int|
            0 <= k < 160 ==> #[trigger] s[k] == target_sector()[k]) && (forall|k: int|
            3072 <= k < 4096 ==> #[trigger] s[k] == 0xff) ==> is_original(s),
{
    let a = s.subrange(0, 160);
    let b = target_sector().subrange(0, 160);
    if is_original(s) {
        if 0 <= i < 160 {
            assert(a[i] == b[i]);
        }
        if 3072 <= i < 4096 {
            assert(s.subrange(3072, 4096)[i - 3072] == s[i]);
        }
    }
    if crc32(s.subrange(0, 3072)) == 0xb70e_844b && (forall|k: int|
        0 <= k < 160 ==> #[trigger] s[k] == target_sector()[k]) && (forall|k: int|
        3072 <= k < 4096 ==> #[trigger] s[k] == 0xff) {
        assert forall|k: int| 0 <= k < 160 implies a[k] == b[k] by {
            assert(s[k] == target_sector()[k]);
        }
        assert(a =~= b);
        assert forall|k: int| 0 <= k < 1024 implies s.subrange(3072, 4096)[k] == 0xff by {
            assert(s[3072 + k] == 0xff);
        }
    }
}

/// A slot was begun if it holds the format, or if nothing but the format's word was touched
/// and only bits that the format clears are cleared there.
pub proof fn lemma_torn_beginnings(s: Seq<u8>)
    requires
        s.len() == 128,
    ensures
        begun(s) <==> word_at(s, 0) == 0x3353_4b46 || (s[0] & 0x46 == 0x46 && s[1] & 0x4b == 0x4b
            && s[2] & 0x53 == 0x53 && s[3] & 0x33 == 0x33 && (forall|i: int|
            4 <= i < 128 ==> #[trigger] s[i] == 0xff) && exists|i: int|
            0 <= i < 4 && #[trigger] s[i] != 0xff),
{
    if started(s) {
        assert(!blank(s));
        let i = choose|i: int| 0 <= i < s.len() && s[i] != 0xff;
        assert(s[i] != 0xff);
    }
}

/// The names and the flags of the rows, and the words of the checksum.
pub proof fn lemma_target_names(k: int)
    ensures
        target_word(3) == 0x0073_766e && target_word(4) == 0,
        target_word(11) == 0x6461_746f && target_word(12) == 0x0061_7461,
        target_word(19) == 0x5f79_6870 && target_word(20) == 0x7469_6e69,
        target_word(27) == 0x5f61_746f && target_word(28) == 0x30,
        target_word(35) == 0x5f61_746f && target_word(36) == 0x31,
        target_word(43) == 0x7379_656b && target_word(44) == 0x006e_6163,
        0 <= k < 48 && k % 8 >= 5 ==> target_word(k) == 0,
        target_word(52) == 0xb653_6829,
        target_word(53) == 0x4812_f6c1,
        target_word(54) == 0xfa6b_43ac,
        target_word(55) == 0x4fb7_c40c,
        49 <= k < 52 || 56 <= k < 1024 ==> target_word(k) == 0xffff_ffff,
        target_sector().len() == 4096,
        0 <= k < 4096 ==> target_sector()[k] == le_byte(target_word(k / 4), k % 4),
{
}

} // verus!

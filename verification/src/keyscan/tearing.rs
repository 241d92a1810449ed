//! Saves that power or the flash breaks off, on a flash that writes and erases in
//! order; and the discipline that a save keeps.

use super::journal::{begun, blank, following, slot_address, started, SLOTS};
use super::journal::{Error, Journal, OpenStep, Operation, SaveStage, SaveStep, Saving};
use super::partition::{layout_accepted, BASE, SECTOR, SIZE};
use super::record::{le_byte, lemma_le_word, lemma_record_round_trip, record, word_at};
use super::record::{COMMIT, MAGIC, RECORD};
use super::recovery::{answered, based, checkpoint, confined, dirty, disturbed, follows, garbled};
use super::recovery::{holds, performed, prepared, recovered, save_run, slot_bytes};
use super::recovery::{lemma_body_step, lemma_commit_step, lemma_confined_chain};
use super::recovery::{lemma_confined_keeps_layout, lemma_confined_same};
use super::recovery::{lemma_disturbed_first_save, lemma_disturbed_save_keeps_checkpoint};
use super::recovery::{lemma_erase_step, lemma_failed_step, lemma_newest_is_recovered};
use super::recovery::{lemma_first_save_is_recovered, lemma_other_slots, lemma_probe_step};
use super::recovery::{lemma_save_begins, lemma_saved_is_recovered, lemma_vacant_is_recovered};
use super::recovery::{underway, vacant};
use super::state::State;
use vstd::prelude::*;

verus! {

// ---------------------------------------------------------------------------
// Torn operations
// ---------------------------------------------------------------------------
/// A byte may be left while `new` is written over `old`: only bits that the write
/// clears are cleared.
pub open spec fn between(old: u8, new: u8, left: u8) -> bool {
    &&& left & old == left
    &&& left & (old & new) == old & new
}

/// The contents that a write leaves when it stops within its word `w`: the words
/// before it are written, that one in part, and those behind it are as they were.
pub open spec fn torn_write(m: Seq<u8>, address: int, bytes: Seq<u8>, n: Seq<u8>, w: int) -> bool {
    &&& 0 <= w
    &&& forall|i: int|
        0 <= i < m.len() ==> {
            let j = i - address;
            if j < 0 || j >= bytes.len() || j >= 4 * w + 4 {
                #[trigger] n[i] == m[i]
            } else if j < 4 * w {
                n[i] == m[i] & bytes[j]
            } else {
                between(m[i], bytes[j], n[i])
            }
        }
}

/// The contents that may be left when power is lost during `op`. A write proceeds
/// word by word and clears only bits that it has to clear. An erase only sets bits,
/// and what it leaves of a record is the record or none.
pub open spec fn torn(m: Seq<u8>, op: Operation, n: Seq<u8>) -> bool {
    &&& n.len() == m.len()
    &&& match op {
        Operation::Read { .. } => n == m,
        Operation::Erase { .. } => {
            &&& garbled(m, op, n)
            &&& forall|i: int| 0 <= i < m.len() ==> #[trigger] n[i] | m[i] == n[i]
        },
        Operation::Write { address, bytes } => exists|w: int|
            torn_write(m, address, bytes, n, w),
    }
}

/// The contents `n` may be left when power is lost at some point of a save that
/// began on contents `m`.
pub open spec fn interrupted(m: Seq<u8>, s: Saving, n: Seq<u8>) -> bool
    decreases s.remaining(),
{
    let done = performed(m, s.operation());
    ||| torn(m, s.operation(), n)
    ||| match s.after::<()>(answered(m, s.operation())) {
        SaveStep::Do(next) => 0 <= next.remaining() < s.remaining() && interrupted(done, next, n),
        _ => n == done,
    }
}

/// What a torn operation leaves is among what a broken-off one may leave.
pub proof fn lemma_torn_is_garbled(m: Seq<u8>, op: Operation, n: Seq<u8>)
    requires
        torn(m, op, n),
    ensures
        garbled(m, op, n),
{
}

proof fn lemma_interrupted_is_disturbed(m: Seq<u8>, s: Saving, n: Seq<u8>)
    requires
        interrupted(m, s, n),
    ensures
        disturbed(m, s, n),
    decreases s.remaining(),
{
    if torn(m, s.operation(), n) {
        lemma_torn_is_garbled(m, s.operation(), n);
    } else {
        let done = performed(m, s.operation());
        if let SaveStep::Do(next) = s.after::<()>(answered(m, s.operation())) {
            lemma_interrupted_is_disturbed(done, next, n);
        }
    }
}

// ---------------------------------------------------------------------------
// Areas that only records have touched
// ---------------------------------------------------------------------------
/// Every slot is blank, or a record was begun in it.
#[verifier::opaque]
pub open spec fn untainted(m: Seq<u8>) -> bool {
    forall|k: int|
        0 <= k < SLOTS ==> blank(#[trigger] slot_bytes(m, k)) || begun(slot_bytes(m, k))
}

/// Every slot is blank, or holds the torn beginning of a record and nothing else.
#[verifier::opaque]
pub open spec fn barely_begun(m: Seq<u8>) -> bool {
    forall|k: int|
        0 <= k < SLOTS ==> blank(#[trigger] slot_bytes(m, k)) || started(slot_bytes(m, k))
}

/// An area that only records have touched, and that holds none, opens as no job.
pub proof fn lemma_untainted_opens<E>(m: Seq<u8>)
    requires
        layout_accepted(m),
        vacant(m),
        untainted(m),
    ensures
        recovered::<E>(m) == OpenStep::<E>::Opened(Journal { sequence: 0, slot: 0 }, State::idle()),
{
    reveal(untainted);
    lemma_vacant_is_recovered::<E>(m);
    if dirty(m, SLOTS as int) {
        let k = choose|k: int| 0 <= k < SLOTS && !blank(#[trigger] slot_bytes(m, k));
        assert(begun(slot_bytes(m, k)));
    }
}

/// A blank area counts as barely begun.
pub proof fn lemma_blank_area_is_barely_begun(m: Seq<u8>)
    requires
        m.len() >= BASE + SIZE,
        forall|i: int| BASE <= i < BASE + SIZE - SECTOR ==> m[i] == 0xff,
    ensures
        barely_begun(m),
{
    reveal(barely_begun);
}

proof fn lemma_barely_is_untainted(m: Seq<u8>)
    requires
        barely_begun(m),
    ensures
        untainted(m),
{
    reveal(barely_begun);
    reveal(untainted);
}

proof fn lemma_magic_bytes()
    ensures
        le_byte(MAGIC, 0) == 0x46,
        le_byte(MAGIC, 1) == 0x4b,
        le_byte(MAGIC, 2) == 0x53,
        le_byte(MAGIC, 3) == 0x33,
{
    assert((0x33534b46u32 & 0xff) as u8 == 0x46 && ((0x33534b46u32 >> 8) & 0xff) as u8 == 0x4b && ((
    0x33534b46u32 >> 16) & 0xff) as u8 == 0x53 && ((0x33534b46u32 >> 24) & 0xff) as u8 == 0x33)
        by (bit_vector);
}

proof fn lemma_image_begins(s: Saving)
    ensures
        s.image().len() == 128,
        s.image()[0] == 0x46,
        s.image()[1] == 0x4b,
        s.image()[2] == 0x53,
        s.image()[3] == 0x33,
{
    lemma_magic_bytes();
}

proof fn lemma_format(b: Seq<u8>)
    requires
        b.len() == 128,
        b[0] == 0x46,
        b[1] == 0x4b,
        b[2] == 0x53,
        b[3] == 0x33,
    ensures
        word_at(b, 0) == MAGIC,
{
    lemma_magic_bytes();
    lemma_le_word(MAGIC);
}

proof fn lemma_bits(old: u8, new: u8, left: u8, f: u8)
    ensures
        old == 0xff ==> old & new == new,
        old == 0xff && between(old, new, left) ==> left & new == new,
        left | 0xffu8 == left ==> left == 0xff,
        left | old == left && old & f == f ==> left & f == f,
{
    assert((old == 0xff ==> old & new == new) && (old == 0xff && left & (old & new) == old & new
        ==> left & new == new) && (left | 0xffu8 == left ==> left == 0xff) && (left | old == left
        && old & f == f ==> left & f == f)) by (bit_vector);
}

proof fn lemma_torn_erase_is_barely_begun(m: Seq<u8>, s: Saving, n: Seq<u8>)
    requires
        barely_begun(m),
        m.len() >= BASE + SIZE,
        s.stage == SaveStage::Erase,
        torn(m, s.operation(), n),
    ensures
        barely_begun(n),
{
    reveal(barely_begun);
    assert forall|k: int| 0 <= k < SLOTS implies blank(#[trigger] slot_bytes(n, k)) || started(
        slot_bytes(n, k),
    ) by {
        let b = slot_bytes(m, k);
        let c = slot_bytes(n, k);
        let a = slot_address(k);
        assert(blank(b) || started(b));
        assert forall|i: int| 0 <= i < 128 implies c[i] | b[i] == c[i] && (b[i] == 0xff ==> c[i]
            == 0xff) by {
            assert(n[a + i] | m[a + i] == n[a + i]);
            lemma_bits(b[i], 0, c[i], 0);
        }
        lemma_bits(b[0], 0, c[0], 0x46);
        lemma_bits(b[1], 0, c[1], 0x4b);
        lemma_bits(b[2], 0, c[2], 0x53);
        lemma_bits(b[3], 0, c[3], 0x33);
    }
}

proof fn lemma_erase_is_barely_begun(m: Seq<u8>, s: Saving)
    requires
        m.len() >= BASE + SIZE,
        s.well_formed(),
        s.stage == SaveStage::Erase,
    ensures
        barely_begun(m) ==> barely_begun(performed(m, s.operation())),
        untainted(m) ==> untainted(performed(m, s.operation())),
{
    reveal(barely_begun);
    reveal(untainted);
    let n = performed(m, s.operation());
    let slot = s.journal.slot as int;
    assert forall|k: int| 0 <= k < SLOTS implies blank(#[trigger] slot_bytes(n, k)) || slot_bytes(
        n,
        k,
    ) == slot_bytes(m, k) by {
        if !(slot <= k < slot + 32) {
            assert(slot_bytes(n, k) =~= slot_bytes(m, k));
        }
    }
    if barely_begun(m) {
        assert forall|k: int| 0 <= k < SLOTS implies blank(#[trigger] slot_bytes(n, k)) || started(
            slot_bytes(n, k),
        ) by {
            let b = slot_bytes(m, k);
        }
    }
    if untainted(m) {
        assert forall|k: int| 0 <= k < SLOTS implies blank(#[trigger] slot_bytes(n, k)) || begun(
            slot_bytes(n, k),
        ) by {
            let b = slot_bytes(m, k);
        }
    }
}

/// A change of one slot into a begun or blank one keeps the area untainted.
proof fn lemma_slot_keeps_untainted(m: Seq<u8>, n: Seq<u8>, slot: int)
    requires
        untainted(m),
        m.len() == n.len(),
        m.len() >= BASE + SIZE,
        0 <= slot < SLOTS,
        forall|i: int|
            0 <= i < m.len() && !(slot_address(slot) <= i < slot_address(slot) + RECORD)
                ==> #[trigger] n[i] == m[i],
        blank(slot_bytes(n, slot)) || begun(slot_bytes(n, slot)),
    ensures
        untainted(n),
{
    reveal(untainted);
    assert forall|k: int| 0 <= k < SLOTS implies blank(#[trigger] slot_bytes(n, k)) || begun(
        slot_bytes(n, k),
    ) by {
        if k != slot {
            lemma_other_slots(m, n, slot, k);
            let b = slot_bytes(m, k);
        }
    }
}

proof fn lemma_torn_body_is_begun(m: Seq<u8>, s: Saving, n: Seq<u8>)
    requires
        prepared(m, s),
        s.stage == SaveStage::Body,
        untainted(m),
        torn(m, s.operation(), n),
    ensures
        untainted(n),
{
    reveal(prepared);
    let slot = s.journal.slot as int;
    let a = slot_address(slot);
    let image = s.image();
    let bytes = image.subrange(0, 124);
    let w = choose|w: int| torn_write(m, a, bytes, n, w);
    let b = slot_bytes(m, slot);
    let c = slot_bytes(n, slot);
    lemma_image_begins(s);
    assert forall|i: int| 0 <= i < m.len() && !(a <= i < a + RECORD) implies #[trigger] n[i]
        == m[i] by {}
    assert forall|i: int| 0 <= i < 128 implies b[i] == 0xff && (if i >= 124 || i >= 4 * w + 4 {
        c[i] == 0xff
    } else if i < 4 * w {
        c[i] == image[i]
    } else {
        c[i] & image[i] == image[i]
    }) by {
        assert(b[i] == 0xff);
        assert(n[a + i] == c[i] && m[a + i] == b[i]);
        if i < 124 {
            assert(bytes[i] == image[i]);
            lemma_bits(0xff, image[i], c[i], 0);
        }
    }
    if w == 0 {
        assert(c[0] & 0x46 == 0x46 && c[1] & 0x4b == 0x4b && c[2] & 0x53 == 0x53 && c[3] & 0x33
            == 0x33);
    } else {
        assert(c[0] == image[0] && c[1] == image[1] && c[2] == image[2] && c[3] == image[3]);
        lemma_format(c);
    }
    lemma_slot_keeps_untainted(m, n, slot);
}

proof fn lemma_format_keeps_untainted(m: Seq<u8>, s: Saving, n: Seq<u8>)
    requires
        prepared(m, s),
        s.stage == SaveStage::Body && n == performed(m, s.operation()) || s.stage
            == SaveStage::Commit && garbled(m, s.operation(), n),
        untainted(m),
    ensures
        untainted(n),
{
    reveal(prepared);
    let slot = s.journal.slot as int;
    let a = slot_address(slot);
    let image = s.image();
    let b = slot_bytes(m, slot);
    let c = slot_bytes(n, slot);
    lemma_image_begins(s);
    assert forall|i: int| 0 <= i < 4 implies c[i] == image[i] by {
        assert(n[a + i] == c[i] && m[a + i] == b[i]);
        assert(image.subrange(0, 124)[i] == image[i]);
        if s.stage == SaveStage::Body {
            assert(b[i] == 0xff);
            lemma_bits(0xff, image[i], 0, 0);
        } else {
            assert(b.subrange(0, 124)[i] == b[i]);
        }
    }
    assert(c[0] == image[0] && c[1] == image[1] && c[2] == image[2] && c[3] == image[3]);
    lemma_format(c);
    lemma_slot_keeps_untainted(m, n, slot);
}

/// Whenever a save is broken off, the area is one that only records have touched.
#[verifier::spinoff_prover]
#[verifier::rlimit(40)]
proof fn lemma_interrupted_is_untainted(m: Seq<u8>, s: Saving, n: Seq<u8>)
    requires
        underway(m, s, None),
        s.state.well_formed(),
        untainted(m),
        s.stage == SaveStage::Erase || s.stage == SaveStage::Probe ==> barely_begun(m),
        interrupted(m, s, n),
    ensures
        untainted(n),
    decreases s.remaining(),
{
    let done = performed(m, s.operation());
    assert(m.len() >= BASE + SIZE && s.well_formed()) by {
        reveal(prepared);
    }
    match s.stage {
        SaveStage::Probe => {
            if !torn(m, s.operation(), n) {
                assert(answered(m, s.operation()) == slot_bytes(m, s.journal.slot as int));
                lemma_probe_step::<()>(m, s, None);
                let next = s.after::<()>(slot_bytes(m, s.journal.slot as int))->Do_0;
                lemma_interrupted_is_untainted(done, next, n);
            }
        },
        SaveStage::Erase => {
            if torn(m, s.operation(), n) {
                lemma_torn_erase_is_barely_begun(m, s, n);
                lemma_barely_is_untainted(n);
            } else {
                lemma_erase_step(m, s, None);
                lemma_erase_is_barely_begun(m, s);
                lemma_interrupted_is_untainted(
                    done,
                    Saving { stage: SaveStage::Body, ..s },
                    n,
                );
            }
        },
        SaveStage::Body => {
            if torn(m, s.operation(), n) {
                lemma_torn_body_is_begun(m, s, n);
            } else {
                lemma_body_step(m, s, None);
                lemma_format_keeps_untainted(m, s, done);
                lemma_interrupted_is_untainted(
                    done,
                    Saving { stage: SaveStage::Commit, ..s },
                    n,
                );
            }
        },
        SaveStage::Commit => {
            if torn(m, s.operation(), n) {
                lemma_torn_is_garbled(m, s.operation(), n);
                lemma_format_keeps_untainted(m, s, n);
            } else {
                let last = Saving { stage: SaveStage::Verify, ..s };
                lemma_commit_step(m, s, None);
                assert(n == done) by {
                    assert(interrupted(done, last, n));
                    assert(answered(done, last.operation()) == slot_bytes(
                        done,
                        s.journal.slot as int,
                    ));
                    lemma_record_round_trip(s.state, following(s.journal.sequence));
                }
                assert(garbled(m, s.operation(), done));
                lemma_format_keeps_untainted(m, s, done);
            }
        },
        SaveStage::Verify => {},
    }
}

// ---------------------------------------------------------------------------
// What the journal promises
// ---------------------------------------------------------------------------
/// Whenever power is lost during a save, opening the journal recovers either what it
/// recovered before or the state that was being saved, and the journal goes on from
/// there. Nothing outside the record slots has changed.
pub proof fn lemma_interrupted_save_keeps_checkpoint<E>(
    m: Seq<u8>,
    journal: Journal,
    before: State,
    state: State,
    n: Seq<u8>,
)
    requires
        layout_accepted(m),
        journal.well_formed(),
        checkpoint(m, journal, before),
        state.well_formed(),
        interrupted(m, Saving::first(journal, state), n),
    ensures
        recovered::<E>(n) matches OpenStep::Opened(next, found) && checkpoint(n, next, found) && (
        recovered::<E>(n) == recovered::<E>(m) && next.sequence == journal.sequence && found
            == before || next.sequence == following(journal.sequence) && found == state),
        confined(m, n),
{
    lemma_interrupted_is_disturbed(m, Saving::first(journal, state), n);
    lemma_disturbed_save_keeps_checkpoint::<E>(m, journal, before, state, n);
}

/// What opening gives when a first save was interrupted: no job, or the saved state.
pub open spec fn first_save_outcome<E>(n: Seq<u8>, state: State) -> bool {
    recovered::<E>(n) matches OpenStep::Opened(next, found) && (found == State::idle() && next == (
    Journal { sequence: 0, slot: 0 }) && vacant(n) && untainted(n) || found == state && checkpoint(
        n,
        next,
        found,
    ))
}

proof fn lemma_first_outcome<E>(n: Seq<u8>, state: State)
    requires
        layout_accepted(n),
        untainted(n),
        vacant(n) || (recovered::<E>(n) matches OpenStep::Opened(next, found) && checkpoint(
            n,
            next,
            found,
        ) && found == state),
    ensures
        first_save_outcome::<E>(n, state),
{
    if vacant(n) {
        lemma_untainted_opens::<E>(n);
    }
}

/// A torn first record is ignored. When power is lost during the first save ever, or
/// during the next one where only the first word of a record was begun, opening the
/// journal recovers no job or the saved state; it never refuses the area.
pub proof fn lemma_interrupted_first_save<E>(m: Seq<u8>, journal: Journal, state: State, n: Seq<u8>)
    requires
        layout_accepted(m),
        journal.well_formed(),
        vacant(m),
        barely_begun(m),
        state.well_formed(),
        interrupted(m, Saving::first(journal, state), n),
    ensures
        recovered::<E>(n) matches OpenStep::Opened(_, found) && (found == State::idle() || found
            == state),
        first_save_outcome::<E>(n, state),
        confined(m, n),
{
    let s = Saving::first(journal, state);
    assert(m.len() >= BASE + SIZE) by {
        reveal(vacant);
    }
    lemma_barely_is_untainted(m);
    lemma_save_begins(m, journal, state, None);
    lemma_interrupted_is_untainted(m, s, n);
    lemma_interrupted_is_disturbed(m, s, n);
    lemma_disturbed_first_save::<E>(m, journal, state, n);
    lemma_confined_keeps_layout(m, n);
    lemma_first_outcome::<E>(n, state);
}

/// The same holds in an area where longer parts of records were begun, once the sector
/// is erased: power may be lost at any later point of the save.
pub proof fn lemma_interrupted_first_write<E>(
    m: Seq<u8>,
    journal: Journal,
    state: State,
    n: Seq<u8>,
)
    requires
        layout_accepted(m),
        journal.well_formed(),
        Saving::first(journal, state).stage == SaveStage::Erase,
        vacant(m),
        untainted(m),
        state.well_formed(),
        interrupted(
            performed(m, Saving::first(journal, state).operation()),
            Saving { stage: SaveStage::Body, ..Saving::first(journal, state) },
            n,
        ),
    ensures
        recovered::<E>(n) matches OpenStep::Opened(_, found) && (found == State::idle() || found
            == state),
        first_save_outcome::<E>(n, state),
        confined(m, n),
{
    let s = Saving::first(journal, state);
    let body = Saving { stage: SaveStage::Body, ..s };
    let erased = performed(m, s.operation());
    assert(m.len() >= BASE + SIZE) by {
        reveal(vacant);
    }
    lemma_save_begins(m, journal, state, None);
    lemma_erase_step(m, s, None);
    lemma_erase_is_barely_begun(m, s);
    lemma_interrupted_is_untainted(erased, body, n);
    assert(interrupted(m, s, n));
    lemma_interrupted_is_disturbed(m, s, n);
    lemma_disturbed_first_save::<E>(m, journal, state, n);
    lemma_confined_keeps_layout(m, n);
    lemma_first_outcome::<E>(n, state);
}

// ---------------------------------------------------------------------------
// Failed saves
// ---------------------------------------------------------------------------
/// A save on contents `m` fails at the point `at`, before its commit mark is complete:
/// the operations before it succeed, and its own leaves the contents `n`.
pub open spec fn failed_at(m: Seq<u8>, s: Saving, n: Seq<u8>, at: Saving) -> bool
    decreases s.remaining(),
{
    ||| {
        &&& at == s
        &&& s.stage != SaveStage::Verify
        &&& garbled(m, s.operation(), n)
        &&& s.stage == SaveStage::Commit ==> slot_bytes(n, s.journal.slot as int) != s.image()
    }
    ||| match s.after::<()>(answered(m, s.operation())) {
        SaveStep::Do(next) => 0 <= next.remaining() < s.remaining() && failed_at(
            performed(m, s.operation()),
            next,
            n,
            at,
        ),
        _ => false,
    }
}

#[verifier::spinoff_prover]
#[verifier::rlimit(40)]
proof fn lemma_failed(m: Seq<u8>, s: Saving, origin: Option<(int, State)>, n: Seq<u8>, at: Saving)
    requires
        underway(m, s, origin),
        s.state.well_formed(),
        failed_at(m, s, n, at),
    ensures
        based(n, at.journal, origin),
        at.journal.well_formed(),
        at.journal.sequence == s.journal.sequence,
        confined(m, n),
    decreases s.remaining(),
{
    if at == s && s.stage != SaveStage::Verify && garbled(m, s.operation(), n) && (s.stage
        == SaveStage::Commit ==> slot_bytes(n, s.journal.slot as int) != s.image()) {
        lemma_failed_step(m, s, origin, n);
        assert(s.well_formed()) by {
            reveal(prepared);
        }
    } else {
        let done = performed(m, s.operation());
        match s.stage {
            SaveStage::Probe => {
                assert(answered(m, s.operation()) == slot_bytes(m, s.journal.slot as int));
                lemma_probe_step::<()>(m, s, origin);
                let next = s.after::<()>(slot_bytes(m, s.journal.slot as int))->Do_0;
                lemma_confined_same(m);
                lemma_failed(done, next, origin, n, at);
            },
            SaveStage::Erase => {
                lemma_erase_step(m, s, origin);
                lemma_failed(done, Saving { stage: SaveStage::Body, ..s }, origin, n, at);
            },
            SaveStage::Body => {
                lemma_body_step(m, s, origin);
                lemma_failed(done, Saving { stage: SaveStage::Commit, ..s }, origin, n, at);
            },
            SaveStage::Commit => {
                let last = Saving { stage: SaveStage::Verify, ..s };
                assert(!failed_at(done, last, n, at));
            },
            SaveStage::Verify => {},
        }
        lemma_confined_chain(m, done, n);
    }
}

/// A save that the flash fails returns that error and keeps the checkpoint: whatever
/// the failed operation left, opening the journal still recovers the state before,
/// and the next save, from the position that was returned, succeeds and is then what
/// opening recovers. Nothing outside the record slots has changed.
pub proof fn lemma_failed_save_keeps_previous<E>(
    m: Seq<u8>,
    journal: Journal,
    before: State,
    state: State,
    n: Seq<u8>,
    at: Saving,
    e: E,
    later: State,
)
    requires
        layout_accepted(m),
        journal.well_formed(),
        checkpoint(m, journal, before),
        state.well_formed(),
        later.well_formed(),
        failed_at(m, Saving::first(journal, state), n, at),
    ensures
        at.after_error(e) == SaveStep::Failed(at.journal, Error::Flash(e)),
        recovered::<E>(n) matches OpenStep::Opened(_, found) && found == before,
        checkpoint(n, at.journal, before),
        save_run::<E>(n, Saving::first(at.journal, later)).1 matches SaveStep::Saved(next)
            && checkpoint(save_run::<E>(n, Saving::first(at.journal, later)).0, next, later),
        recovered::<E>(
            save_run::<E>(n, Saving::first(at.journal, later)).0,
        ) matches OpenStep::Opened(_, found) && found == later,
        confined(m, n),
{
    let slot = choose|slot: int| #[trigger]
        holds(m, journal.sequence, slot, before) && follows(slot, journal.slot as int);
    let origin = Some((slot, before));
    assert(m.len() >= BASE + SIZE) by {
        reveal(holds);
    }
    lemma_save_begins(m, journal, state, origin);
    lemma_failed(m, Saving::first(journal, state), origin, n, at);
    lemma_confined_keeps_layout(m, n);
    lemma_newest_is_recovered::<E>(n, journal.sequence, slot, before);
    assert(holds(n, at.journal.sequence, slot, before) && follows(slot, at.journal.slot as int));
    lemma_saved_is_recovered::<E>(n, at.journal, before, later);
}

/// The same of a first save: a failed one leaves the area without records, and the
/// next one succeeds and is then what opening recovers.
pub proof fn lemma_failed_first_save<E>(
    m: Seq<u8>,
    journal: Journal,
    state: State,
    n: Seq<u8>,
    at: Saving,
    e: E,
    later: State,
)
    requires
        layout_accepted(m),
        journal.well_formed(),
        vacant(m),
        state.well_formed(),
        later.well_formed(),
        failed_at(m, Saving::first(journal, state), n, at),
    ensures
        at.after_error(e) == SaveStep::Failed(at.journal, Error::Flash(e)),
        vacant(n),
        save_run::<E>(n, Saving::first(at.journal, later)).1 matches SaveStep::Saved(next)
            && checkpoint(save_run::<E>(n, Saving::first(at.journal, later)).0, next, later),
        recovered::<E>(
            save_run::<E>(n, Saving::first(at.journal, later)).0,
        ) matches OpenStep::Opened(_, found) && found == later,
        confined(m, n),
{
    assert(m.len() >= BASE + SIZE) by {
        reveal(vacant);
    }
    lemma_save_begins(m, journal, state, None);
    lemma_failed(m, Saving::first(journal, state), None, n, at);
    lemma_confined_keeps_layout(m, n);
    lemma_first_save_is_recovered::<E>(n, at.journal, later);
}

// ---------------------------------------------------------------------------
// The discipline of a save
// ---------------------------------------------------------------------------
/// The operations of a save on contents `m`, each with the contents that it meets. A
/// save that fails has performed a part of them, from the first on.
pub open spec fn save_trace(m: Seq<u8>, s: Saving) -> Seq<(Seq<u8>, Operation)>
    decreases s.remaining(),
{
    let here = seq![(m, s.operation())];
    match s.after::<()>(answered(m, s.operation())) {
        SaveStep::Do(next) => if 0 <= next.remaining() < s.remaining() {
            here + save_trace(performed(m, s.operation()), next)
        } else {
            here
        },
        _ => here,
    }
}

/// An operation that stays in the record slots: an erase takes one whole sector, and
/// not that of the newest record; a write meets erased bytes only.
pub open spec fn disciplined(m: Seq<u8>, op: Operation, newest: Option<int>) -> bool {
    match op {
        Operation::Read { .. } => true,
        Operation::Erase { from, to } => {
            &&& BASE <= from
            &&& to == from + SECTOR
            &&& to <= BASE + SIZE - SECTOR
            &&& (from - BASE) % SECTOR as int == 0
            &&& newest matches Some(at) ==> slot_address(at) + RECORD <= from || to
                <= slot_address(at)
        },
        Operation::Write { address, bytes } => {
            &&& BASE <= address
            &&& address + bytes.len() <= BASE + SIZE - SECTOR
            &&& forall|i: int| address <= i < address + bytes.len() ==> #[trigger] m[i] == 0xff
        },
    }
}

/// The bytes of the commit mark, "DONE".
pub open spec fn commit_mark() -> Seq<u8> {
    seq![0x44u8, 0x4f, 0x4e, 0x45]
}

/// The operations end with the record up to its commit mark, then the mark, then the
/// reading back, and write nothing before.
pub open spec fn commits_last(t: Seq<(Seq<u8>, Operation)>, slot: int, image: Seq<u8>) -> bool {
    &&& 0 <= slot < SLOTS
    &&& t.len() >= 3
    &&& t[t.len() - 3].1 == (Operation::Write {
        address: slot_address(slot),
        bytes: image.subrange(0, 124),
    })
    &&& t[t.len() - 2].1 == (Operation::Write {
        address: slot_address(slot) + 124,
        bytes: commit_mark(),
    })
    &&& t[t.len() - 1].1 == (Operation::Read {
        address: slot_address(slot),
        length: RECORD as int,
    })
    &&& forall|i: int| 0 <= i < t.len() - 3 ==> !((#[trigger] t[i]).1 is Write)
}

/// The operations erase at most once.
pub open spec fn erases_once(t: Seq<(Seq<u8>, Operation)>) -> bool {
    forall|i: int, j: int|
        0 <= i < j < t.len() ==> !((#[trigger] t[i]).1 is Erase && (#[trigger] t[j]).1 is Erase)
}

/// All operations are disciplined.
pub open spec fn all_disciplined(t: Seq<(Seq<u8>, Operation)>, newest: Option<int>) -> bool {
    forall|i: int| 0 <= i < t.len() ==> disciplined((#[trigger] t[i]).0, t[i].1, newest)
}

pub open spec fn slot_of(origin: Option<(int, State)>) -> Option<int> {
    match origin {
        Some((at, _)) => Some(at),
        None => None,
    }
}

proof fn lemma_image_ends(s: Saving)
    ensures
        s.image().subrange(124, 128) == commit_mark(),
{
    assert((0x454e4f44u32 & 0xff) as u8 == 0x44 && ((0x454e4f44u32 >> 8) & 0xff) as u8 == 0x4f && ((
    0x454e4f44u32 >> 16) & 0xff) as u8 == 0x4e && ((0x454e4f44u32 >> 24) & 0xff) as u8 == 0x45)
        by (bit_vector);
    let image = s.image();
    assert forall|i: int| 124 <= i < 128 implies image[i] == le_byte(COMMIT, i - 124) by {}
    assert(image.subrange(124, 128) =~= commit_mark());
}

proof fn lemma_write_is_disciplined(m: Seq<u8>, s: Saving, newest: Option<int>)
    requires
        prepared(m, s),
        s.stage == SaveStage::Body || s.stage == SaveStage::Commit,
    ensures
        disciplined(m, s.operation(), newest),
{
    reveal(prepared);
    let slot = s.journal.slot as int;
    let a = slot_address(slot);
    let b = slot_bytes(m, slot);
    if s.stage == SaveStage::Body {
        assert forall|i: int| a <= i < a + 124 implies #[trigger] m[i] == 0xff by {
            assert(b[i - a] == 0xff);
        }
    } else {
        assert forall|i: int| a + 124 <= i < a + 128 implies #[trigger] m[i] == 0xff by {
            assert(b.subrange(124, 128)[i - a - 124] == 0xff);
        }
    }
}

proof fn lemma_body_shape(m: Seq<u8>, s: Saving)
    requires
        s.stage == SaveStage::Body,
    ensures
        ({
            let commit = Saving { stage: SaveStage::Commit, ..s };
            let verify = Saving { stage: SaveStage::Verify, ..s };
            let n = performed(m, s.operation());
            save_trace(m, s) == seq![
                (m, s.operation()),
                (n, commit.operation()),
                (performed(n, commit.operation()), verify.operation()),
            ]
        }),
{
    let commit = Saving { stage: SaveStage::Commit, ..s };
    let verify = Saving { stage: SaveStage::Verify, ..s };
    let n = performed(m, s.operation());
    let o = performed(n, commit.operation());
    assert(save_trace(o, verify) == seq![(o, verify.operation())]);
    assert(save_trace(n, commit) == seq![(n, commit.operation())] + save_trace(o, verify));
    assert(save_trace(m, s) == seq![(m, s.operation())] + save_trace(n, commit));
}

proof fn lemma_body_trace(m: Seq<u8>, s: Saving, origin: Option<(int, State)>)
    requires
        underway(m, s, origin),
        s.stage == SaveStage::Body,
        s.state.well_formed(),
    ensures
        save_trace(m, s).len() == 3,
        commits_last(save_trace(m, s), s.journal.slot as int, s.image()),
        all_disciplined(save_trace(m, s), slot_of(origin)),
        forall|i: int| 0 <= i < 3 ==> !((#[trigger] save_trace(m, s)[i]).1 is Erase),
{
    let commit = Saving { stage: SaveStage::Commit, ..s };
    assert(s.well_formed()) by {
        reveal(prepared);
    }
    lemma_body_step(m, s, origin);
    lemma_image_ends(s);
    lemma_body_shape(m, s);
    lemma_write_is_disciplined(m, s, slot_of(origin));
    lemma_write_is_disciplined(performed(m, s.operation()), commit, slot_of(origin));
}

#[verifier::spinoff_prover]
#[verifier::rlimit(40)]
proof fn lemma_trace(m: Seq<u8>, s: Saving, origin: Option<(int, State)>) -> (slot: int)
    requires
        underway(m, s, origin),
        s.stage != SaveStage::Commit,
        s.state.well_formed(),
    ensures
        commits_last(save_trace(m, s), slot, s.image()),
        all_disciplined(save_trace(m, s), slot_of(origin)),
        erases_once(save_trace(m, s)),
    decreases s.remaining(),
{
    let n = performed(m, s.operation());
    let t = save_trace(m, s);
    assert(s.well_formed() && m.len() >= BASE + SIZE) by {
        reveal(prepared);
    }
    match s.stage {
        SaveStage::Probe => {
            assert(answered(m, s.operation()) == slot_bytes(m, s.journal.slot as int));
            lemma_probe_step::<()>(m, s, origin);
            let next = s.after::<()>(slot_bytes(m, s.journal.slot as int))->Do_0;
            let slot = lemma_trace(n, next, origin);
            let u = save_trace(n, next);
            assert(t == seq![(m, s.operation())] + u);
            assert(forall|i: int| 0 < i < t.len() ==> #[trigger] t[i] == u[i - 1]);
            slot
        },
        SaveStage::Erase => {
            let next = Saving { stage: SaveStage::Body, ..s };
            lemma_erase_step(m, s, origin);
            lemma_body_trace(n, next, origin);
            let u = save_trace(n, next);
            assert(t == seq![(m, s.operation())] + u);
            assert(forall|i: int| 0 < i < t.len() ==> #[trigger] t[i] == u[i - 1]);
            assert(disciplined(m, s.operation(), slot_of(origin))) by {
                reveal(holds);
            }
            s.journal.slot as int
        },
        SaveStage::Body => {
            lemma_body_trace(m, s, origin);
            s.journal.slot as int
        },
        _ => 0,
    }
}

/// A save keeps the discipline of the flash: at most one sector is erased, never that
/// of the newest record; each byte that is written was erased; the record is written
/// once, its commit mark last; nothing is erased or written outside the record slots.
pub proof fn lemma_save_discipline(
    m: Seq<u8>,
    journal: Journal,
    at: int,
    before: State,
    state: State,
) -> (slot: int)
    requires
        journal.well_formed(),
        holds(m, journal.sequence, at, before),
        follows(at, journal.slot as int),
        state.well_formed(),
    ensures
        commits_last(
            save_trace(m, Saving::first(journal, state)),
            slot,
            record(state, following(journal.sequence)),
        ),
        all_disciplined(save_trace(m, Saving::first(journal, state)), Some(at)),
        erases_once(save_trace(m, Saving::first(journal, state))),
{
    assert(m.len() >= BASE + SIZE) by {
        reveal(holds);
    }
    let origin = Some((at, before));
    lemma_save_begins(m, journal, state, origin);
    lemma_trace(m, Saving::first(journal, state), origin)
}

/// A first save keeps the same discipline.
pub proof fn lemma_first_save_discipline(m: Seq<u8>, journal: Journal, state: State) -> (slot: int)
    requires
        journal.well_formed(),
        vacant(m),
        state.well_formed(),
    ensures
        commits_last(
            save_trace(m, Saving::first(journal, state)),
            slot,
            record(state, following(journal.sequence)),
        ),
        all_disciplined(save_trace(m, Saving::first(journal, state)), None),
        erases_once(save_trace(m, Saving::first(journal, state))),
{
    assert(m.len() >= BASE + SIZE) by {
        reveal(vacant);
    }
    lemma_save_begins(m, journal, state, None);
    lemma_trace(m, Saving::first(journal, state), None)
}

/// Whatever the flash holds and replies, no operation of a save erases or writes
/// outside the record slots.
pub proof fn lemma_save_stays_in_area(s: Saving)
    requires
        s.well_formed(),
    ensures
        s.operation() matches Operation::Erase { from, to } ==> BASE <= from && to <= BASE + SIZE
            - SECTOR,
        s.operation() matches Operation::Write { address, bytes } ==> BASE <= address && address
            + bytes.len() <= BASE + SIZE - SECTOR,
{
}

} // verus!

//! What the journal recovers from the contents of the flash, and what an
//! interrupted save leaves of it.

use super::journal::{age, begun, blank, following, next_slot, slot_address, SLOTS};
use super::journal::{Error, Journal, OpenStep, Opening, Operation, SaveStage, SaveStep, Saving};
use super::partition::{closes_table, entry_at, layout_accepted, lemma_table_end, shows, table_end};
use super::partition::{verdict, Verdict, BASE, ENTRIES, SECTOR, SIZE};
use super::record::{decoded, le_byte, lemma_le_bytes, lemma_record_round_trip};
use super::record::{COMMIT, RECORD};
use super::state::State;
use vstd::prelude::*;

verus! {

// ---------------------------------------------------------------------------
// The flash
// ---------------------------------------------------------------------------
/// The bytes that `op` returns on contents `m`.
pub open spec fn answered(m: Seq<u8>, op: Operation) -> Seq<u8> {
    match op {
        Operation::Read { address, length } => m.subrange(address, address + length),
        _ => Seq::empty(),
    }
}

/// The contents after `op` was performed on `m`. An erase sets bits; a write can
/// only clear them.
pub open spec fn performed(m: Seq<u8>, op: Operation) -> Seq<u8> {
    match op {
        Operation::Read { .. } => m,
        Operation::Erase { from, to } => Seq::new(
            m.len(),
            |i: int|
                if from <= i < to {
                    0xffu8
                } else {
                    m[i]
                },
        ),
        Operation::Write { address, bytes } => Seq::new(
            m.len(),
            |i: int|
                if address <= i < address + bytes.len() {
                    m[i] & bytes[i - address]
                } else {
                    m[i]
                },
        ),
    }
}

// ---------------------------------------------------------------------------
// Opening
// ---------------------------------------------------------------------------
/// The bytes of a slot.
pub open spec fn slot_bytes(m: Seq<u8>, slot: int) -> Seq<u8> {
    m.subrange(slot_address(slot), slot_address(slot) + RECORD)
}

/// The newest record among the first `n` slots.
pub open spec fn latest_of(m: Seq<u8>, n: int) -> Option<(u32, u32, State)>
    decreases n,
{
    if n <= 0 {
        None
    } else {
        Opening::later(latest_of(m, n - 1), (n - 1) as u32, slot_bytes(m, n - 1))
    }
}

/// One of the first `n` slots is not blank.
pub open spec fn dirty(m: Seq<u8>, n: int) -> bool {
    exists|k: int| 0 <= k < n && !blank(#[trigger] slot_bytes(m, k))
}

/// In one of the first `n` slots a record was begun.
pub open spec fn recognized(m: Seq<u8>, n: int) -> bool {
    exists|k: int| 0 <= k < n && begun(#[trigger] slot_bytes(m, k))
}

/// What opening the journal gives on the flash contents `m`.
pub open spec fn recovered<E>(m: Seq<u8>) -> OpenStep<E> {
    if layout_accepted(m) {
        Opening::behind_records(
            latest_of(m, SLOTS as int),
            dirty(m, SLOTS as int),
            recognized(m, SLOTS as int),
        )
    } else {
        OpenStep::Refused(Error::Layout)
    }
}

/// What an opening comes to when every read returns the contents `m`.
pub open spec fn open_run<E>(m: Seq<u8>, o: Opening) -> OpenStep<E>
    decreases o.remaining(),
{
    if !o.well_formed() {
        OpenStep::Read(o)
    } else {
        match o.after::<E>(answered(m, o.operation())) {
            OpenStep::Read(next) => if next.remaining() < o.remaining() && next.remaining() >= 0 {
                open_run(m, next)
            } else {
                OpenStep::Read(next)
            },
            end => end,
        }
    }
}

proof fn lemma_open_records<E>(m: Seq<u8>, slot: int)
    requires
        0 <= slot < SLOTS,
        layout_accepted(m),
        latest_of(m, slot) matches Some((_, k, s)) ==> k < slot && s.well_formed(),
    ensures
        open_run::<E>(
            m,
            Opening::Records {
                slot: slot as u32,
                latest: latest_of(m, slot),
                dirty: dirty(m, slot),
                recognized: recognized(m, slot),
            },
        ) == recovered::<E>(m),
    decreases SLOTS - slot,
{
    let here = slot_bytes(m, slot);
    assert(latest_of(m, slot + 1) == Opening::later(latest_of(m, slot), slot as u32, here));
    assert(dirty(m, slot + 1) == (dirty(m, slot) || !blank(here)));
    assert(recognized(m, slot + 1) == (recognized(m, slot) || begun(here)));
    if slot + 1 < SLOTS {
        lemma_open_records::<E>(m, slot + 1);
    }
}

proof fn lemma_open_table<E>(m: Seq<u8>, index: int)
    requires
        0 <= index < ENTRIES,
        forall|i: int|
            0 <= i < index ==> verdict(#[trigger] entry_at(m, i)) != Verdict::Bad && !closes_table(
                entry_at(m, i),
            ),
    ensures
        open_run::<E>(
            m,
            Opening::Table {
                index: index as u32,
                app0: shows(m, index, Verdict::App0),
                app1: shows(m, index, Verdict::App1),
            },
        ) == recovered::<E>(m),
    decreases ENTRIES - index,
{
    let e = entry_at(m, index);
    let v = verdict(e);
    lemma_table_end(m, 0, index);
    let app0 = shows(m, index + 1, Verdict::App0);
    let app1 = shows(m, index + 1, Verdict::App1);
    assert(app0 == (shows(m, index, Verdict::App0) || v == Verdict::App0));
    assert(app1 == (shows(m, index, Verdict::App1) || v == Verdict::App1));
    if v == Verdict::Bad {
        lemma_table_end(m, 0, index + 1);
        assert(!layout_accepted(m));
    } else if v == Verdict::End {
        assert(table_end(m, 0) == index);
        assert(layout_accepted(m) == (app0 && app1));
        if app0 && app1 {
            lemma_open_records::<E>(m, 0);
            assert(!dirty(m, 0) && !recognized(m, 0));
        }
    } else {
        lemma_table_end(m, 0, index + 1);
        if index + 1 == ENTRIES {
            assert(layout_accepted(m) == (app0 && app1));
            if app0 && app1 {
                lemma_open_records::<E>(m, 0);
                assert(!dirty(m, 0) && !recognized(m, 0));
            }
        } else {
            lemma_open_table::<E>(m, index + 1);
        }
    }
}

/// Driven on any flash contents, an opening ends with what those recover.
pub proof fn lemma_open_recovers<E>(m: Seq<u8>)
    ensures
        open_run::<E>(m, Opening::first()) == recovered::<E>(m),
{
    assert(!shows(m, 0, Verdict::App0) && !shows(m, 0, Verdict::App1));
    lemma_open_table::<E>(m, 0);
}

// ---------------------------------------------------------------------------
// The ring
// ---------------------------------------------------------------------------
/// How many slots `b` lies behind `a` in the ring.
pub open spec fn behind(a: int, b: int) -> int {
    if a >= b {
        a - b
    } else {
        a - b + SLOTS
    }
}

/// Slot `at` holds the newest record, of `state` under `sequence`: every other
/// record is older, by no more than the slots that it lies behind, and the rest
/// of the sector holds no record.
#[verifier::opaque]
pub open spec fn holds(m: Seq<u8>, sequence: u32, at: int, state: State) -> bool {
    &&& m.len() >= BASE + SIZE
    &&& 0 <= at < SLOTS
    &&& decoded(slot_bytes(m, at)) == Some((sequence, state))
    &&& forall|k: int|
        0 <= k < SLOTS && k != at ==> (decoded(#[trigger] slot_bytes(m, k)) matches Some((q, _))
            ==> 0 < age(sequence, q) <= behind(at, k))
    &&& forall|k: int|
        at < k < SLOTS && k / 32 == at / 32 ==> decoded(#[trigger] slot_bytes(m, k)) is None
}

/// `slot` may be written next when the newest record is at `at`: it lies behind
/// that in the same sector, or begins the next one.
pub open spec fn follows(at: int, slot: int) -> bool {
    ||| at < slot && slot < SLOTS && slot / 32 == at / 32
    ||| slot == (at / 32 + 1) % 15 * 32
}

/// `state` is the newest record in `m`, and the journal stands behind it.
pub open spec fn checkpoint(m: Seq<u8>, journal: Journal, state: State) -> bool {
    exists|at: int| #[trigger]
        holds(m, journal.sequence, at, state) && follows(at, journal.slot as int)
}

/// The slots hold no record.
#[verifier::opaque]
pub open spec fn vacant(m: Seq<u8>) -> bool {
    &&& m.len() >= BASE + SIZE
    &&& forall|k: int| 0 <= k < SLOTS ==> decoded(#[trigger] slot_bytes(m, k)) is None
}

/// The two contents differ in the record slots at most.
#[verifier::opaque]
pub open spec fn confined(m: Seq<u8>, n: Seq<u8>) -> bool {
    &&& m.len() == n.len()
    &&& forall|i: int|
        0 <= i < m.len() && !(BASE <= i < BASE + SIZE - SECTOR) ==> m[i] == #[trigger] n[i]
}

proof fn lemma_latest_of(m: Seq<u8>, sequence: u32, at: int, state: State, n: int)
    requires
        holds(m, sequence, at, state),
        0 <= n <= SLOTS,
    ensures
        n > at ==> latest_of(m, n) == Some((sequence, at as u32, state)),
        n <= at ==> (latest_of(m, n) matches Some((q, _, _)) ==> 0 < age(sequence, q) < SLOTS),
    decreases n,
{
    reveal(holds);
    if n > 0 {
        lemma_latest_of(m, sequence, at, state, n - 1);
        let here = slot_bytes(m, n - 1);
    }
}

proof fn lemma_latest_of_vacant(m: Seq<u8>, n: int)
    requires
        vacant(m),
        0 <= n <= SLOTS,
    ensures
        latest_of(m, n) is None,
    decreases n,
{
    reveal(vacant);
    if n > 0 {
        lemma_latest_of_vacant(m, n - 1);
        let here = slot_bytes(m, n - 1);
    }
}

/// The newest record is what opening the journal recovers, and the opened
/// journal stands behind it.
pub proof fn lemma_newest_is_recovered<E>(m: Seq<u8>, sequence: u32, at: int, state: State)
    requires
        layout_accepted(m),
        holds(m, sequence, at, state),
    ensures
        recovered::<E>(m) == OpenStep::<E>::Opened(
            Journal { sequence, slot: next_slot(at) as u32 },
            state,
        ),
        checkpoint(m, Journal { sequence, slot: next_slot(at) as u32 }, state),
{
    reveal(holds);
    lemma_latest_of(m, sequence, at, state, SLOTS as int);
    let journal = Journal { sequence, slot: next_slot(at) as u32 };
    assert(holds(m, journal.sequence, at, state) && follows(at, journal.slot as int));
}

/// An area without records opens as no job at all, unless it holds something
/// that no record began.
pub proof fn lemma_vacant_is_recovered<E>(m: Seq<u8>)
    requires
        layout_accepted(m),
        vacant(m),
    ensures
        recovered::<E>(m) == if dirty(m, SLOTS as int) && !recognized(m, SLOTS as int) {
            OpenStep::<E>::Refused(Error::UnknownData)
        } else {
            OpenStep::Opened(Journal { sequence: 0, slot: 0 }, State::idle())
        },
{
    reveal(vacant);
    lemma_latest_of_vacant(m, SLOTS as int);
}

/// A blank area holds no record and opens as no job at all.
pub proof fn lemma_blank_area_is_vacant<E>(m: Seq<u8>)
    requires
        layout_accepted(m),
        m.len() >= BASE + SIZE,
        forall|i: int| BASE <= i < BASE + SIZE - SECTOR ==> m[i] == 0xff,
    ensures
        vacant(m),
        recovered::<E>(m) == OpenStep::<E>::Opened(Journal { sequence: 0, slot: 0 }, State::idle()),
{
    reveal(vacant);
    assert forall|k: int| 0 <= k < SLOTS implies blank(#[trigger] slot_bytes(m, k)) && decoded(
        slot_bytes(m, k),
    ) is None by {
        let s = slot_bytes(m, k);
        assert(blank(s));
        lemma_blank_is_no_record(s);
    }
    lemma_vacant_is_recovered::<E>(m);
}

/// Contents that differ only in the record slots have the same layout.
pub proof fn lemma_confined_keeps_layout(m: Seq<u8>, n: Seq<u8>)
    requires
        m.len() >= BASE + SIZE,
        confined(m, n),
    ensures
        layout_accepted(m) == layout_accepted(n),
{
    reveal(confined);
    assert forall|i: int| 0 <= i < ENTRIES implies entry_at(m, i) == entry_at(n, i) by {
        assert(entry_at(m, i) =~= entry_at(n, i));
    }
    lemma_same_table_end(m, n, 0);
    let e = table_end(m, 0);
    assert(forall|i: int| 0 <= i < e ==> entry_at(m, i) == entry_at(n, i));
    assert(shows(m, e, Verdict::App0) == shows(n, e, Verdict::App0));
    assert(shows(m, e, Verdict::App1) == shows(n, e, Verdict::App1));
}

proof fn lemma_same_table_end(m: Seq<u8>, n: Seq<u8>, i: int)
    requires
        0 <= i <= ENTRIES,
        forall|i: int| 0 <= i < ENTRIES ==> entry_at(m, i) == entry_at(n, i),
    ensures
        table_end(m, i) == table_end(n, i),
        table_end(m, i) <= ENTRIES,
    decreases ENTRIES - i,
{
    if i < ENTRIES {
        assert(entry_at(m, i) == entry_at(n, i));
        lemma_same_table_end(m, n, i + 1);
    }
}

// ---------------------------------------------------------------------------
// Saving
// ---------------------------------------------------------------------------
/// What a save on contents `m` comes to when every operation succeeds, and the
/// contents that it leaves.
pub open spec fn save_run<E>(m: Seq<u8>, s: Saving) -> (Seq<u8>, SaveStep<E>)
    decreases s.remaining(),
{
    let n = performed(m, s.operation());
    match s.after::<E>(answered(m, s.operation())) {
        SaveStep::Do(next) => if 0 <= next.remaining() < s.remaining() {
            save_run(n, next)
        } else {
            (n, SaveStep::Do(next))
        },
        end => (n, end),
    }
}

/// The contents that may be left when `op` is broken off, on the flash that promises
/// least: a write leaves anything at all in the bytes that it touches; an erase leaves
/// of each slot in its sector either what was there or something that is no record.
pub open spec fn garbled(m: Seq<u8>, op: Operation, n: Seq<u8>) -> bool {
    &&& n.len() == m.len()
    &&& match op {
        Operation::Read { .. } => n == m,
        Operation::Erase { from, to } => {
            &&& forall|i: int| 0 <= i < m.len() && !(from <= i < to) ==> #[trigger] n[i] == m[i]
            &&& forall|k: int|
                0 <= k < SLOTS ==> #[trigger] slot_bytes(n, k) == slot_bytes(m, k) || decoded(
                    slot_bytes(n, k),
                ) is None
        },
        Operation::Write { address, bytes } => forall|i: int|
            0 <= i < m.len() && !(address <= i < address + bytes.len()) ==> #[trigger] n[i] == m[i],
    }
}

/// The contents `n` may be left on such a flash when power is lost at some point of a
/// save that began on contents `m`.
pub open spec fn disturbed(m: Seq<u8>, s: Saving, n: Seq<u8>) -> bool
    decreases s.remaining(),
{
    let done = performed(m, s.operation());
    ||| garbled(m, s.operation(), n)
    ||| match s.after::<()>(answered(m, s.operation())) {
        SaveStep::Do(next) => 0 <= next.remaining() < s.remaining() && disturbed(done, next, n),
        _ => n == done,
    }
}

/// The slot of a save that is about to write, or has begun to, is ready for it.
#[verifier::opaque]
pub open spec fn prepared(m: Seq<u8>, s: Saving) -> bool {
    let slot = s.journal.slot as int;
    let b = slot_bytes(m, slot);
    &&& s.well_formed()
    &&& m.len() >= BASE + SIZE
    &&& s.stage == SaveStage::Body ==> blank(b)
    &&& s.stage == SaveStage::Commit ==> b.subrange(0, 124) == s.image().subrange(0, 124) && blank(
        b.subrange(124, 128),
    )
    &&& s.stage == SaveStage::Body || s.stage == SaveStage::Commit ==> forall|k: int|
        slot < k < SLOTS && k / 32 == slot / 32 ==> decoded(#[trigger] slot_bytes(m, k)) is None
}

/// The contents on which a save began: those whose newest record is that of the
/// given slot and state, or those without a record.
pub open spec fn based(m: Seq<u8>, journal: Journal, origin: Option<(int, State)>) -> bool {
    match origin {
        Some((at, state)) => holds(m, journal.sequence, at, state) && follows(
            at,
            journal.slot as int,
        ),
        None => vacant(m),
    }
}

/// A save is under way and has not committed its record.
pub open spec fn underway(m: Seq<u8>, s: Saving, origin: Option<(int, State)>) -> bool {
    &&& prepared(m, s)
    &&& s.stage != SaveStage::Verify
    &&& based(m, s.journal, origin)
}

proof fn lemma_blank_is_no_record(b: Seq<u8>)
    requires
        b.len() == 128,
        blank(b.subrange(124, 128)),
    ensures
        decoded(b) is None,
{
    assert(b.subrange(124, 128)[0] == b[124]);
    lemma_le_bytes(b[124], b[125], b[126], b[127]);
    assert((0x454e4f44u32 & 0xff) as u8 == 0x44) by (bit_vector);
}

pub(crate) proof fn lemma_other_slots(m: Seq<u8>, n: Seq<u8>, slot: int, k: int)
    requires
        m.len() == n.len(),
        m.len() >= BASE + SIZE,
        0 <= slot < SLOTS,
        0 <= k < SLOTS,
        k != slot,
        forall|i: int|
            0 <= i < m.len() && !(slot_address(slot) <= i < slot_address(slot) + RECORD)
                ==> #[trigger] n[i] == m[i],
    ensures
        slot_bytes(n, k) == slot_bytes(m, k),
{
    assert(slot_bytes(n, k) =~= slot_bytes(m, k));
}

/// Contents in which `slot` alone changed, and not into a record, keep the
/// newest record.
proof fn lemma_keeps_newest(m: Seq<u8>, n: Seq<u8>, sequence: u32, at: int, state: State)
    requires
        holds(m, sequence, at, state),
        n.len() == m.len(),
        slot_bytes(n, at) == slot_bytes(m, at),
        forall|k: int|
            0 <= k < SLOTS ==> #[trigger] slot_bytes(n, k) == slot_bytes(m, k) || decoded(
                slot_bytes(n, k),
            ) is None,
    ensures
        holds(n, sequence, at, state),
{
    reveal(holds);
    assert forall|k: int| 0 <= k < SLOTS && k != at implies (decoded(
        #[trigger] slot_bytes(n, k),
    ) matches Some((q, _)) ==> 0 < age(sequence, q) <= behind(at, k)) by {
        let was = slot_bytes(m, k);
    }
    assert forall|k: int| at < k < SLOTS && k / 32 == at / 32 implies decoded(
        #[trigger] slot_bytes(n, k),
    ) is None by {
        let was = slot_bytes(m, k);
    }
}

/// A slot that may be written next lies further ahead of every record than the newest
/// one does.
proof fn lemma_one_slot_further(at: int, slot: int, k: int)
    requires
        0 <= at < SLOTS,
        0 <= k < SLOTS,
        k != slot,
        follows(at, slot),
        !(at < k && k / 32 == at / 32),
        !(slot < k && k / 32 == slot / 32),
    ensures
        0 <= slot < SLOTS,
        slot != at,
        k == at ==> 1 <= behind(slot, k),
        k != at ==> behind(at, k) + 1 <= behind(slot, k),
{
}

proof fn lemma_age_step(sequence: u32, q: u32)
    requires
        age(sequence, q) < 0xffff_ffff,
    ensures
        age(following(sequence), q) == age(sequence, q) + 1,
{
}

/// A record written behind the newest one becomes the newest.
#[verifier::spinoff_prover]
#[verifier::rlimit(40)]
proof fn lemma_becomes_newest(
    m: Seq<u8>,
    n: Seq<u8>,
    sequence: u32,
    at: int,
    old_state: State,
    slot: int,
    state: State,
)
    requires
        holds(m, sequence, at, old_state),
        follows(at, slot),
        n.len() == m.len(),
        decoded(slot_bytes(n, slot)) == Some((following(sequence), state)),
        forall|k: int|
            0 <= k < SLOTS && k != slot ==> #[trigger] slot_bytes(n, k) == slot_bytes(m, k),
        forall|k: int|
            slot < k < SLOTS && k / 32 == slot / 32 ==> decoded(#[trigger] slot_bytes(m, k)) is None,
    ensures
        holds(n, following(sequence), slot, state),
{
    reveal(holds);
    assert forall|k: int| 0 <= k < SLOTS && k != slot implies (decoded(
        #[trigger] slot_bytes(n, k),
    ) matches Some((q, _)) ==> 0 < age(following(sequence), q) <= behind(slot, k)) by {
        let was = slot_bytes(m, k);
        assert(was == slot_bytes(n, k));
        if let Some((q, _)) = decoded(was) {
            lemma_one_slot_further(at, slot, k);
            lemma_age_step(sequence, q);
        }
    }
    assert forall|k: int| slot < k < SLOTS && k / 32 == slot / 32 implies decoded(
        #[trigger] slot_bytes(n, k),
    ) is None by {
        let was = slot_bytes(m, k);
    }
}

proof fn lemma_cleared(b: u8)
    ensures
        0xffu8 & b == b,
{
    assert(0xffu8 & b == b) by (bit_vector);
}

/// The whole record once its body and then its commit mark were written.
proof fn lemma_written(m: Seq<u8>, s: Saving)
    requires
        prepared(m, s),
    ensures
        s.stage == SaveStage::Body ==> prepared(
            performed(m, s.operation()),
            Saving { stage: SaveStage::Commit, ..s },
        ) && decoded(slot_bytes(performed(m, s.operation()), s.journal.slot as int)) is None,
        s.stage == SaveStage::Commit ==> slot_bytes(
            performed(m, s.operation()),
            s.journal.slot as int,
        ) == s.image(),
{
    reveal(prepared);
    let slot = s.journal.slot as int;
    let n = performed(m, s.operation());
    let a = slot_address(slot);
    let b = slot_bytes(m, slot);
    let c = slot_bytes(n, slot);
    let image = s.image();
    if s.stage == SaveStage::Body {
        assert forall|i: int| 0 <= i < 124 implies c[i] == image[i] by {
            assert(b[i] == 0xff);
            lemma_cleared(image.subrange(0, 124)[i]);
        }
        assert(c.subrange(0, 124) =~= image.subrange(0, 124));
        assert forall|i: int| 124 <= i < 128 implies c[i] == 0xff by {
            assert(b[i] == 0xff);
        }
        lemma_blank_is_no_record(c);
        assert forall|k: int| slot < k < SLOTS && k / 32 == slot / 32 implies decoded(
            #[trigger] slot_bytes(n, k),
        ) is None by {
            lemma_other_slots(m, n, slot, k);
        }
    }
    if s.stage == SaveStage::Commit {
        assert forall|i: int| 0 <= i < 124 implies c[i] == image[i] by {
            assert(b.subrange(0, 124)[i] == image.subrange(0, 124)[i]);
        }
        assert forall|i: int| 124 <= i < 128 implies c[i] == image[i] by {
            assert(b.subrange(124, 128)[i - 124] == 0xff);
            lemma_cleared(image.subrange(124, 128)[i - 124]);
        }
        assert(c =~= image);
    }
}

/// A change that leaves every slot as it was or without a record, and the newest
/// record as it was, leaves the base of a save.
proof fn lemma_keeps_base(m: Seq<u8>, n: Seq<u8>, journal: Journal, origin: Option<(int, State)>)
    requires
        based(m, journal, origin),
        n.len() == m.len(),
        origin matches Some((at, _)) ==> slot_bytes(n, at) == slot_bytes(m, at),
        forall|k: int|
            0 <= k < SLOTS ==> #[trigger] slot_bytes(n, k) == slot_bytes(m, k) || decoded(
                slot_bytes(n, k),
            ) is None,
    ensures
        based(n, journal, origin),
{
    reveal(holds);
    reveal(vacant);
    match origin {
        Some((at, state)) => lemma_keeps_newest(m, n, journal.sequence, at, state),
        None => {
            assert forall|k: int| 0 <= k < SLOTS implies decoded(
                #[trigger] slot_bytes(n, k),
            ) is None by {
                let was = slot_bytes(m, k);
            }
        },
    }
}

/// A change of the slot of a save alone, and not into a record.
proof fn lemma_slot_keeps_base(m: Seq<u8>, n: Seq<u8>, s: Saving, origin: Option<(int, State)>)
    requires
        underway(m, s, origin),
        n.len() == m.len(),
        forall|i: int|
            0 <= i < m.len() && !(slot_address(s.journal.slot as int) <= i < slot_address(
                s.journal.slot as int,
            ) + RECORD) ==> #[trigger] n[i] == m[i],
        decoded(slot_bytes(n, s.journal.slot as int)) is None,
    ensures
        based(n, s.journal, origin),
{
    reveal(holds);
    reveal(vacant);
    reveal(prepared);
    let slot = s.journal.slot as int;
    assert forall|k: int| 0 <= k < SLOTS implies #[trigger] slot_bytes(n, k) == slot_bytes(m, k)
        || decoded(slot_bytes(n, k)) is None by {
        if k != slot {
            lemma_other_slots(m, n, slot, k);
        }
    }
    if let Some((at, _)) = origin {
        lemma_other_slots(m, n, slot, at);
    }
    lemma_keeps_base(m, n, s.journal, origin);
}

/// The slot of a save that now holds its record, nothing else having changed.
proof fn lemma_slot_becomes_newest(
    m: Seq<u8>,
    n: Seq<u8>,
    s: Saving,
    origin: Option<(int, State)>,
)
    requires
        underway(m, s, origin),
        s.stage == SaveStage::Commit,
        s.state.well_formed(),
        n.len() == m.len(),
        forall|i: int|
            0 <= i < m.len() && !(slot_address(s.journal.slot as int) <= i < slot_address(
                s.journal.slot as int,
            ) + RECORD) ==> #[trigger] n[i] == m[i],
        slot_bytes(n, s.journal.slot as int) == s.image(),
    ensures
        holds(n, following(s.journal.sequence), s.journal.slot as int, s.state),
{
    reveal(holds);
    reveal(vacant);
    reveal(prepared);
    let slot = s.journal.slot as int;
    lemma_record_round_trip(s.state, following(s.journal.sequence));
    assert forall|k: int| 0 <= k < SLOTS && k != slot implies #[trigger] slot_bytes(n, k)
        == slot_bytes(m, k) by {
        lemma_other_slots(m, n, slot, k);
    }
    match origin {
        Some((at, state)) => lemma_becomes_newest(
            m,
            n,
            s.journal.sequence,
            at,
            state,
            slot,
            s.state,
        ),
        None => {
            assert forall|k: int| 0 <= k < SLOTS && k != slot implies decoded(
                #[trigger] slot_bytes(n, k),
            ) is None by {
                let was = slot_bytes(m, k);
            }
        },
    }
}

proof fn lemma_erase_keeps_base(m: Seq<u8>, n: Seq<u8>, s: Saving, origin: Option<(int, State)>)
    requires
        underway(m, s, origin),
        s.stage == SaveStage::Erase,
        garbled(m, s.operation(), n),
    ensures
        based(n, s.journal, origin),
        confined(m, n),
{
    reveal(holds);
    reveal(vacant);
    reveal(confined);
    reveal(prepared);
    if let Some((at, _)) = origin {
        assert(slot_bytes(n, at) =~= slot_bytes(m, at));
    }
    lemma_keeps_base(m, n, s.journal, origin);
}

proof fn lemma_erased(m: Seq<u8>, s: Saving)
    requires
        prepared(m, s),
        s.stage == SaveStage::Erase,
    ensures
        garbled(m, s.operation(), performed(m, s.operation())),
        prepared(performed(m, s.operation()), Saving { stage: SaveStage::Body, ..s }),
{
    reveal(prepared);
    let slot = s.journal.slot as int;
    let n = performed(m, s.operation());
    assert forall|k: int| slot <= k < slot + 32 implies blank(#[trigger] slot_bytes(n, k)) by {}
    assert forall|k: int| 0 <= k < SLOTS implies #[trigger] slot_bytes(n, k) == slot_bytes(m, k)
        || decoded(slot_bytes(n, k)) is None by {
        if slot <= k < slot + 32 {
            lemma_blank_is_no_record(slot_bytes(n, k));
        } else {
            assert(slot_bytes(n, k) =~= slot_bytes(m, k));
        }
    }
    assert forall|k: int| slot < k < SLOTS && k / 32 == slot / 32 implies decoded(
        #[trigger] slot_bytes(n, k),
    ) is None by {
        assert(slot <= k < slot + 32);
        lemma_blank_is_no_record(slot_bytes(n, k));
    }
}

#[verifier::spinoff_prover]
#[verifier::rlimit(40)]
pub(crate) proof fn lemma_probe_step<E>(m: Seq<u8>, s: Saving, origin: Option<(int, State)>)
    requires
        underway(m, s, origin),
        s.stage == SaveStage::Probe,
    ensures
        s.after::<E>(slot_bytes(m, s.journal.slot as int)) matches SaveStep::Do(next) && {
            &&& next.state == s.state
            &&& next.journal.sequence == s.journal.sequence
            &&& 0 <= next.remaining() < s.remaining()
            &&& underway(m, next, origin)
        },
{
    reveal(holds);
    reveal(vacant);
    reveal(prepared);
    let slot = s.journal.slot as int;
    if blank(slot_bytes(m, slot)) {
        let next = Saving { stage: SaveStage::Body, ..s };
        match origin {
            Some((at, state)) => {
                assert forall|k: int| slot < k < SLOTS && k / 32 == slot / 32 implies decoded(
                    #[trigger] slot_bytes(m, k),
                ) is None by {}
            },
            None => {},
        }
        assert(prepared(m, next));
    } else {
        let journal = Journal { slot: next_slot(slot) as u32, ..s.journal };
        let next = Saving::first(journal, s.state);
        if let Some((at, state)) = origin {
            assert(follows(at, journal.slot as int));
        }
        assert(prepared(m, next));
    }
}

pub(crate) proof fn lemma_erase_step(m: Seq<u8>, s: Saving, origin: Option<(int, State)>)
    requires
        underway(m, s, origin),
        s.stage == SaveStage::Erase,
    ensures
        confined(m, performed(m, s.operation())),
        underway(
            performed(m, s.operation()),
            Saving { stage: SaveStage::Body, ..s },
            origin,
        ),
{
    reveal(holds);
    reveal(vacant);
    reveal(confined);
    reveal(prepared);
    lemma_erased(m, s);
    lemma_erase_keeps_base(m, performed(m, s.operation()), s, origin);
}

pub(crate) proof fn lemma_body_step(m: Seq<u8>, s: Saving, origin: Option<(int, State)>)
    requires
        underway(m, s, origin),
        s.stage == SaveStage::Body,
    ensures
        confined(m, performed(m, s.operation())),
        underway(
            performed(m, s.operation()),
            Saving { stage: SaveStage::Commit, ..s },
            origin,
        ),
{
    reveal(holds);
    reveal(vacant);
    reveal(confined);
    reveal(prepared);
    lemma_written(m, s);
    lemma_slot_keeps_base(m, performed(m, s.operation()), s, origin);
}

pub(crate) proof fn lemma_commit_step(m: Seq<u8>, s: Saving, origin: Option<(int, State)>)
    requires
        underway(m, s, origin),
        s.stage == SaveStage::Commit,
        s.state.well_formed(),
    ensures
        confined(m, performed(m, s.operation())),
        slot_bytes(performed(m, s.operation()), s.journal.slot as int) == s.image(),
        holds(
            performed(m, s.operation()),
            following(s.journal.sequence),
            s.journal.slot as int,
            s.state,
        ),
{
    reveal(holds);
    reveal(vacant);
    reveal(confined);
    reveal(prepared);
    lemma_written(m, s);
    lemma_slot_becomes_newest(m, performed(m, s.operation()), s, origin);
}

pub(crate) proof fn lemma_confined_chain(a: Seq<u8>, b: Seq<u8>, c: Seq<u8>)
    requires
        confined(a, b),
        confined(b, c),
    ensures
        confined(a, c),
{
    reveal(confined);
    assert forall|i: int| 0 <= i < a.len() && !(BASE <= i < BASE + SIZE - SECTOR) implies a[i]
        == #[trigger] c[i] by {
        assert(a[i] == b[i]);
    }
}

pub(crate) proof fn lemma_confined_same(a: Seq<u8>)
    ensures
        confined(a, a),
{
    reveal(confined);
}

/// A save that has not committed its record runs to its end: the record becomes
/// the newest, and nothing outside the record slots changes.
#[verifier::spinoff_prover]
#[verifier::rlimit(40)]
proof fn lemma_save_runs<E>(m: Seq<u8>, s: Saving, origin: Option<(int, State)>)
    requires
        underway(m, s, origin),
        s.state.well_formed(),
    ensures
        confined(m, save_run::<E>(m, s).0),
        save_run::<E>(m, s).1 matches SaveStep::Saved(journal) && journal.sequence == following(
            s.journal.sequence,
        ) && checkpoint(save_run::<E>(m, s).0, journal, s.state),
    decreases s.remaining(),
{
    let n = performed(m, s.operation());
    match s.stage {
        SaveStage::Probe => {
            assert(answered(m, s.operation()) == slot_bytes(m, s.journal.slot as int));
            lemma_probe_step::<E>(m, s, origin);
            let next = s.after::<E>(slot_bytes(m, s.journal.slot as int))->Do_0;
            lemma_confined_same(m);
            lemma_save_runs::<E>(n, next, origin);
        },
        SaveStage::Erase => {
            lemma_erase_step(m, s, origin);
            lemma_save_runs::<E>(n, Saving { stage: SaveStage::Body, ..s }, origin);
        },
        SaveStage::Body => {
            lemma_body_step(m, s, origin);
            lemma_save_runs::<E>(n, Saving { stage: SaveStage::Commit, ..s }, origin);
        },
        SaveStage::Commit => {
            lemma_commit_step(m, s, origin);
            let last = Saving { stage: SaveStage::Verify, ..s };
            let sequence = following(s.journal.sequence);
            let journal = Journal { sequence, slot: next_slot(s.journal.slot as int) as u32 };
            assert(answered(n, last.operation()) == slot_bytes(n, s.journal.slot as int));
            lemma_confined_same(n);
            lemma_record_round_trip(s.state, sequence);
            assert(save_run::<E>(n, last) == (n, SaveStep::<E>::Saved(journal)));
            assert(s.journal.slot < SLOTS) by {
                reveal(prepared);
            }
            assert(holds(n, journal.sequence, s.journal.slot as int, s.state) && follows(
                s.journal.slot as int,
                journal.slot as int,
            ));
        },
        SaveStage::Verify => {},
    }
    if s.stage != SaveStage::Verify {
        let next = s.after::<E>(answered(m, s.operation()))->Do_0;
        lemma_confined_chain(m, n, save_run::<E>(n, next).0);
    }
}

/// What a broken-off operation leaves of a save that has not committed its record.
proof fn lemma_garbled_step(m: Seq<u8>, s: Saving, origin: Option<(int, State)>, n: Seq<u8>)
    requires
        underway(m, s, origin),
        s.state.well_formed(),
        garbled(m, s.operation(), n),
    ensures
        confined(m, n),
        based(n, s.journal, origin) || (s.stage == SaveStage::Commit && holds(
            n,
            following(s.journal.sequence),
            s.journal.slot as int,
            s.state,
        )),
{
    let slot = s.journal.slot as int;
    match s.stage {
        SaveStage::Probe => {
            lemma_confined_same(m);
        },
        SaveStage::Erase => {
            lemma_erase_keeps_base(m, n, s, origin);
        },
        SaveStage::Body => {
            lemma_garbled_body(m, s, n);
            lemma_slot_keeps_base(m, n, s, origin);
        },
        SaveStage::Commit => {
            lemma_garbled_commit(m, s, n);
            if decoded(slot_bytes(n, slot)) is None {
                lemma_slot_keeps_base(m, n, s, origin);
            } else {
                lemma_slot_becomes_newest(m, n, s, origin);
            }
        },
        SaveStage::Verify => {},
    }
}

proof fn lemma_garbled_body(m: Seq<u8>, s: Saving, n: Seq<u8>)
    requires
        prepared(m, s),
        s.stage == SaveStage::Body,
        garbled(m, s.operation(), n),
    ensures
        confined(m, n),
        forall|i: int|
            0 <= i < m.len() && !(slot_address(s.journal.slot as int) <= i < slot_address(
                s.journal.slot as int,
            ) + RECORD) ==> #[trigger] n[i] == m[i],
        decoded(slot_bytes(n, s.journal.slot as int)) is None,
{
    reveal(prepared);
    reveal(confined);
    let slot = s.journal.slot as int;
    let b = slot_bytes(m, slot);
    let c = slot_bytes(n, slot);
    assert forall|i: int| 124 <= i < 128 implies c[i] == 0xff by {
        assert(b[i] == 0xff);
        assert(n[slot_address(slot) + i] == m[slot_address(slot) + i]);
    }
    lemma_blank_is_no_record(c);
}

proof fn lemma_garbled_commit(m: Seq<u8>, s: Saving, n: Seq<u8>)
    requires
        prepared(m, s),
        s.stage == SaveStage::Commit,
        garbled(m, s.operation(), n),
    ensures
        confined(m, n),
        forall|i: int|
            0 <= i < m.len() && !(slot_address(s.journal.slot as int) <= i < slot_address(
                s.journal.slot as int,
            ) + RECORD) ==> #[trigger] n[i] == m[i],
        decoded(slot_bytes(n, s.journal.slot as int)) is Some ==> slot_bytes(
            n,
            s.journal.slot as int,
        ) == s.image(),
{
    reveal(prepared);
    reveal(confined);
    let slot = s.journal.slot as int;
    let b = slot_bytes(m, slot);
    let c = slot_bytes(n, slot);
    let image = s.image();
    assert forall|i: int| 0 <= i < 124 implies c[i] == image[i] by {
        assert(b.subrange(0, 124)[i] == image.subrange(0, 124)[i]);
        assert(n[slot_address(slot) + i] == m[slot_address(slot) + i]);
    }
    if decoded(c) is Some {
        lemma_le_bytes(c[124], c[125], c[126], c[127]);
        assert forall|i: int| 124 <= i < 128 implies c[i] == image[i] by {
            assert(image[i] == le_byte(COMMIT, i - 124));
        }
        assert(c =~= image);
    }
}

/// The newest record of `m` is still that of `origin`, or there still is none.
pub open spec fn kept(m: Seq<u8>, sequence: u32, origin: Option<(int, State)>) -> bool {
    match origin {
        Some((at, state)) => holds(m, sequence, at, state),
        None => vacant(m),
    }
}

proof fn lemma_disturbed<E>(m: Seq<u8>, s: Saving, origin: Option<(int, State)>, n: Seq<u8>)
    requires
        underway(m, s, origin),
        s.state.well_formed(),
        disturbed(m, s, n),
    ensures
        confined(m, n),
        kept(n, s.journal.sequence, origin) || exists|at: int|
            holds(n, following(s.journal.sequence), at, s.state),
    decreases s.remaining(),
{
    if garbled(m, s.operation(), n) {
        lemma_garbled_step(m, s, origin, n);
    } else {
        let done = performed(m, s.operation());
        match s.stage {
            SaveStage::Probe => {
                assert(answered(m, s.operation()) == slot_bytes(m, s.journal.slot as int));
                lemma_probe_step::<()>(m, s, origin);
                let next = s.after::<()>(slot_bytes(m, s.journal.slot as int))->Do_0;
                lemma_confined_same(m);
                lemma_disturbed::<E>(done, next, origin, n);
            },
            SaveStage::Erase => {
                lemma_erase_step(m, s, origin);
                lemma_disturbed::<E>(done, Saving { stage: SaveStage::Body, ..s }, origin, n);
            },
            SaveStage::Body => {
                lemma_body_step(m, s, origin);
                lemma_disturbed::<E>(done, Saving { stage: SaveStage::Commit, ..s }, origin, n);
            },
            SaveStage::Commit => {
                lemma_commit_step(m, s, origin);
                let last = Saving { stage: SaveStage::Verify, ..s };
                assert(n == done) by {
                    assert(disturbed(done, last, n));
                    assert(answered(done, last.operation()) == slot_bytes(
                        done,
                        s.journal.slot as int,
                    ));
                    lemma_record_round_trip(s.state, following(s.journal.sequence));
                }
                lemma_confined_same(n);
            },
            SaveStage::Verify => {},
        }
        lemma_confined_chain(m, done, n);
    }
}

pub(crate) proof fn lemma_save_begins(
    m: Seq<u8>,
    journal: Journal,
    state: State,
    origin: Option<(int, State)>,
)
    requires
        journal.well_formed(),
        m.len() >= BASE + SIZE,
        based(m, journal, origin),
    ensures
        underway(m, Saving::first(journal, state), origin),
{
    reveal(prepared);
}

// ---------------------------------------------------------------------------
// What the journal promises
// ---------------------------------------------------------------------------
/// A save that runs to its end succeeds, and the saved state is what opening the
/// journal then recovers. Nothing outside the record slots changes: not the
/// partition table, the applications or the last sector of the area.
pub proof fn lemma_saved_is_recovered<E>(m: Seq<u8>, journal: Journal, before: State, state: State)
    requires
        layout_accepted(m),
        journal.well_formed(),
        checkpoint(m, journal, before),
        state.well_formed(),
    ensures
        save_run::<E>(m, Saving::first(journal, state)).1 matches SaveStep::Saved(next)
            && next.sequence == following(journal.sequence) && checkpoint(
            save_run::<E>(m, Saving::first(journal, state)).0,
            next,
            state,
        ),
        recovered::<E>(
            save_run::<E>(m, Saving::first(journal, state)).0,
        ) matches OpenStep::Opened(_, found) && found == state,
        confined(m, save_run::<E>(m, Saving::first(journal, state)).0),
{
    let at = choose|at: int| #[trigger]
        holds(m, journal.sequence, at, before) && follows(at, journal.slot as int);
    lemma_saved::<E>(m, journal, state, Some((at, before)));
}

/// The first save in an area without records succeeds likewise.
pub proof fn lemma_first_save_is_recovered<E>(m: Seq<u8>, journal: Journal, state: State)
    requires
        layout_accepted(m),
        journal.well_formed(),
        vacant(m),
        state.well_formed(),
    ensures
        save_run::<E>(m, Saving::first(journal, state)).1 matches SaveStep::Saved(next)
            && next.sequence == following(journal.sequence) && checkpoint(
            save_run::<E>(m, Saving::first(journal, state)).0,
            next,
            state,
        ),
        recovered::<E>(
            save_run::<E>(m, Saving::first(journal, state)).0,
        ) matches OpenStep::Opened(_, found) && found == state,
        confined(m, save_run::<E>(m, Saving::first(journal, state)).0),
{
    lemma_saved::<E>(m, journal, state, None);
}

proof fn lemma_saved<E>(m: Seq<u8>, journal: Journal, state: State, origin: Option<(int, State)>)
    requires
        layout_accepted(m),
        journal.well_formed(),
        based(m, journal, origin),
        state.well_formed(),
    ensures
        save_run::<E>(m, Saving::first(journal, state)).1 matches SaveStep::Saved(next)
            && next.sequence == following(journal.sequence) && checkpoint(
            save_run::<E>(m, Saving::first(journal, state)).0,
            next,
            state,
        ),
        recovered::<E>(
            save_run::<E>(m, Saving::first(journal, state)).0,
        ) matches OpenStep::Opened(_, found) && found == state,
        confined(m, save_run::<E>(m, Saving::first(journal, state)).0),
{
    assert(m.len() >= BASE + SIZE) by {
        reveal(holds);
        reveal(vacant);
    }
    let s = Saving::first(journal, state);
    lemma_save_begins(m, journal, state, origin);
    lemma_save_runs::<E>(m, s, origin);
    let n = save_run::<E>(m, s).0;
    let next = save_run::<E>(m, s).1->Saved_0;
    let at = choose|at: int| #[trigger]
        holds(n, next.sequence, at, state) && follows(at, next.slot as int);
    lemma_confined_keeps_layout(m, n);
    lemma_newest_is_recovered::<E>(n, next.sequence, at, state);
}

/// Whenever power is lost during a save, even on the flash that promises least,
/// opening the journal recovers either what it recovered before or the state that
/// was being saved, and the journal goes on from there. Nothing outside the record
/// slots has changed.
pub proof fn lemma_disturbed_save_keeps_checkpoint<E>(
    m: Seq<u8>,
    journal: Journal,
    before: State,
    state: State,
    n: Seq<u8>,
)
    requires
        layout_accepted(m),
        journal.well_formed(),
        checkpoint(m, journal, before),
        state.well_formed(),
        disturbed(m, Saving::first(journal, state), n),
    ensures
        recovered::<E>(n) matches OpenStep::Opened(next, found) && checkpoint(n, next, found) && (
        recovered::<E>(n) == recovered::<E>(m) && next.sequence == journal.sequence && found
            == before || next.sequence == following(journal.sequence) && found == state),
        confined(m, n),
{
    assert(m.len() >= BASE + SIZE) by {
        reveal(holds);
    }
    let at = choose|at: int| #[trigger]
        holds(m, journal.sequence, at, before) && follows(at, journal.slot as int);
    let origin = Some((at, before));
    lemma_save_begins(m, journal, state, origin);
    lemma_disturbed::<E>(m, Saving::first(journal, state), origin, n);
    lemma_confined_keeps_layout(m, n);
    lemma_newest_is_recovered::<E>(m, journal.sequence, at, before);
    if kept(n, journal.sequence, origin) {
        lemma_newest_is_recovered::<E>(n, journal.sequence, at, before);
    } else {
        let here = choose|here: int| holds(n, following(journal.sequence), here, state);
        lemma_newest_is_recovered::<E>(n, following(journal.sequence), here, state);
    }
}

/// When power is lost during the first save ever, the area holds either the
/// saved state or no record at all.
pub proof fn lemma_disturbed_first_save<E>(m: Seq<u8>, journal: Journal, state: State, n: Seq<u8>)
    requires
        layout_accepted(m),
        journal.well_formed(),
        vacant(m),
        state.well_formed(),
        disturbed(m, Saving::first(journal, state), n),
    ensures
        vacant(n) || (recovered::<E>(n) matches OpenStep::Opened(next, found) && checkpoint(
            n,
            next,
            found,
        ) && found == state),
        confined(m, n),
{
    assert(m.len() >= BASE + SIZE) by {
        reveal(vacant);
    }
    lemma_save_begins(m, journal, state, None);
    lemma_disturbed::<E>(m, Saving::first(journal, state), None, n);
    lemma_confined_keeps_layout(m, n);
    if !kept(n, journal.sequence, None) {
        let here = choose|here: int| holds(n, following(journal.sequence), here, state);
        lemma_newest_is_recovered::<E>(n, following(journal.sequence), here, state);
    }
}

/// What a failed operation leaves of a save whose commit mark is not complete.
pub(crate) proof fn lemma_failed_step(
    m: Seq<u8>,
    s: Saving,
    origin: Option<(int, State)>,
    n: Seq<u8>,
)
    requires
        underway(m, s, origin),
        s.state.well_formed(),
        garbled(m, s.operation(), n),
        s.stage == SaveStage::Commit ==> slot_bytes(n, s.journal.slot as int) != s.image(),
    ensures
        based(n, s.journal, origin),
        confined(m, n),
{
    if s.stage == SaveStage::Commit {
        lemma_garbled_commit(m, s, n);
        lemma_slot_keeps_base(m, n, s, origin);
    } else {
        lemma_garbled_step(m, s, origin, n);
    }
}

/// A save that fails before its commit mark is complete, whatever the failed
/// operation left, keeps the checkpoint, and the next save can go on from the
/// position that the failure returned.
pub proof fn lemma_failed_save_can_go_on(
    m: Seq<u8>,
    s: Saving,
    at: int,
    before: State,
    n: Seq<u8>,
)
    requires
        underway(m, s, Some((at, before))),
        s.state.well_formed(),
        garbled(m, s.operation(), n),
        s.stage == SaveStage::Commit ==> slot_bytes(n, s.journal.slot as int) != s.image(),
    ensures
        checkpoint(n, s.journal, before),
        confined(m, n),
{
    lemma_failed_step(m, s, Some((at, before)), n);
    assert(holds(n, s.journal.sequence, at, before) && follows(at, s.journal.slot as int));
}

} // verus!

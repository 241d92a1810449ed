//! The journal of scan checkpoints: a ring of records in NOR flash.
//!
//! Opening and saving run as step machines. Each names the flash operation that
//! it wants next; whoever drives it performs the operation and supplies the
//! reply. The ring has 15 sectors of 32 record slots each. A sector is erased
//! when the ring enters it, so the newest committed record survives a loss of
//! power during erase, write and commit.

use super::partition::judge_entry;
use super::partition::{verdict, Verdict, BASE, ENTRIES, SECTOR, SIZE, TABLE};
use super::record::{decode_bytes, decoded, encode, record, word_at, MAGIC, RECORD};
use super::record::get;
use super::state::State;
use vstd::prelude::*;

verus! {

/// The number of record slots; the last sector of the area is not among them.
pub const SLOTS: u32 = 480;

/// The number of record slots in a sector.
pub const SECTOR_SLOTS: u32 = 32;

/// Why the journal cannot be used.
#[derive(Debug)]
pub enum Error<E> {
    /// The flash driver reported an error.
    Flash(E),
    /// The flash or its partition table has no room for the journal.
    Layout,
    /// The area holds something that the journal did not write.
    UnknownData,
}

/// A flash operation that a step machine wants performed.
#[derive(Debug)]
pub enum FlashOp {
    /// Read this many bytes; the reply holds them.
    Read { address: u32, length: u32 },
    /// Erase the addresses from `from` up to but not including `to`.
    Erase { from: u32, to: u32 },
    /// Write these bytes.
    Write { address: u32, bytes: Vec<u8> },
}

/// A flash operation in the abstract.
pub ghost enum Operation {
    Read { address: int, length: int },
    Erase { from: int, to: int },
    Write { address: int, bytes: Seq<u8> },
}

impl View for FlashOp {
    type V = Operation;

    open spec fn view(&self) -> Operation {
        match *self {
            FlashOp::Read { address, length } => Operation::Read {
                address: address as int,
                length: length as int,
            },
            FlashOp::Erase { from, to } => Operation::Erase { from: from as int, to: to as int },
            FlashOp::Write { address, bytes } => Operation::Write {
                address: address as int,
                bytes: bytes@,
            },
        }
    }
}

/// The position in an opened journal: the sequence number of the newest record
/// and the slot to try next.
#[derive(Clone, Copy, Debug, PartialEq, Eq, Structural)]
pub struct Journal {
    pub sequence: u32,
    pub slot: u32,
}

/// The slot behind `slot` in the ring.
pub open spec fn next_slot(slot: int) -> int {
    (slot + 1) % SLOTS as int
}

/// The address of a slot.
pub open spec fn slot_address(slot: int) -> int {
    BASE + slot * RECORD
}

/// All bytes are in the erased state.
pub open spec fn blank(s: Seq<u8>) -> bool {
    forall|i: int| 0 <= i < s.len() ==> s[i] == 0xff
}

pub(crate) fn is_blank(s: &[u8]) -> (r: bool)
    ensures
        r == blank(s@),
{
    for i in 0..s.len()
        invariant
            forall|j: int| 0 <= j < i ==> s@[j] == 0xff,
    {
        if s[i] != 0xff {
            return false;
        }
    }
    true
}

/// The slot holds the torn beginning of a record: of the word that names the format
/// some bits are written and none that it leaves set, and the rest is still erased.
pub open spec fn started(s: Seq<u8>) -> bool {
    &&& !blank(s)
    &&& s[0] & 0x46 == 0x46
    &&& s[1] & 0x4b == 0x4b
    &&& s[2] & 0x53 == 0x53
    &&& s[3] & 0x33 == 0x33
    &&& forall|i: int| 4 <= i < s.len() ==> s[i] == 0xff
}

/// A record was begun in the slot: the format is there, or the torn beginning of it.
pub open spec fn begun(s: Seq<u8>) -> bool {
    word_at(s, 0) == MAGIC || started(s)
}

fn is_begun(s: &[u8]) -> (r: bool)
    requires
        s@.len() == 128,
    ensures
        r == begun(s@),
{
    if get(s, 0) == MAGIC {
        return true;
    }
    let rest = vstd::slice::slice_subrange(s, 4, s.len());
    let erased = is_blank(rest);
    proof {
        if erased {
            assert forall|i: int| 4 <= i < s@.len() implies s@[i] == 0xff by {
                assert(rest@[i - 4] == 0xff);
            }
        }
    }
    !is_blank(s) && s[0] & 0x46 == 0x46 && s[1] & 0x4b == 0x4b && s[2] & 0x53 == 0x53 && s[3]
        & 0x33 == 0x33 && erased
}

// ---------------------------------------------------------------------------
// Opening
// ---------------------------------------------------------------------------
/// `q` comes after `old` in the circular order of sequence numbers.
pub open spec fn newer(q: u32, old: u32) -> bool {
    0 < age(q, old) < 0x8000_0000
}

/// How far the sequence number `old` lies behind `q`.
pub open spec fn age(q: u32, old: u32) -> int {
    if q >= old {
        q - old
    } else {
        q - old + 0x1_0000_0000
    }
}

/// An opening under way: first the partition table is read entry by entry, then
/// every record slot.
#[derive(Clone, Copy, Debug)]
pub enum Opening {
    Table { index: u32, app0: bool, app1: bool },
    Records { slot: u32, latest: Option<(u32, u32, State)>, dirty: bool, recognized: bool },
}

/// What comes after a reply.
#[derive(Debug)]
pub enum OpenStep<E> {
    /// The opening wants another read.
    Read(Opening),
    /// The journal is open, and this is its newest state.
    Opened(Journal, State),
    /// The journal cannot be opened.
    Refused(Error<E>),
}

/// The flash can hold the journal: it reaches to the end of the area, erases by
/// sectors and writes by whole divisors of four bytes.
pub open spec fn geometry_accepted(capacity: usize, erase_size: usize, write_size: usize) -> bool {
    capacity >= BASE + SIZE && erase_size == SECTOR && (write_size == 1 || write_size == 2
        || write_size == 4)
}

impl Opening {
    pub open spec fn well_formed(self) -> bool {
        match self {
            Opening::Table { index, .. } => index < ENTRIES,
            Opening::Records { slot, latest, .. } => slot < SLOTS && (latest matches Some((_, k, s))
                ==> k < slot && s.well_formed()),
        }
    }

    /// How many replies may still be wanted.
    pub open spec fn remaining(self) -> int {
        match self {
            Opening::Table { index, .. } => ENTRIES - index + SLOTS,
            Opening::Records { slot, .. } => SLOTS - slot,
        }
    }

    /// Before anything was read.
    pub open spec fn first() -> Opening {
        Opening::Table { index: 0, app0: false, app1: false }
    }

    /// The read that is wanted.
    pub open spec fn operation(self) -> Operation {
        match self {
            Opening::Table { index, .. } => Operation::Read {
                address: TABLE + 32 * index,
                length: 32,
            },
            Opening::Records { slot, .. } => Operation::Read {
                address: slot_address(slot as int),
                length: RECORD as int,
            },
        }
    }

    /// After the last table entry: both application slots must have been seen.
    pub open spec fn behind_table<E>(app0: bool, app1: bool) -> OpenStep<E> {
        if app0 && app1 {
            OpenStep::Read(
                Opening::Records { slot: 0, latest: None, dirty: false, recognized: false },
            )
        } else {
            OpenStep::Refused(Error::Layout)
        }
    }

    /// After the last slot: the newest record, or an empty journal where nothing
    /// foreign was seen.
    pub open spec fn behind_records<E>(
        latest: Option<(u32, u32, State)>,
        dirty: bool,
        recognized: bool,
    ) -> OpenStep<E> {
        match latest {
            Some((sequence, slot, state)) => OpenStep::Opened(
                Journal { sequence, slot: next_slot(slot as int) as u32 },
                state,
            ),
            None => if dirty && !recognized {
                OpenStep::Refused(Error::UnknownData)
            } else {
                OpenStep::Opened(Journal { sequence: 0, slot: 0 }, State::idle())
            },
        }
    }

    /// The newest record once the bytes of `slot` are known too.
    pub open spec fn later(latest: Option<(u32, u32, State)>, slot: u32, data: Seq<u8>) -> Option<
        (u32, u32, State),
    > {
        match decoded(data) {
            Some((q, s)) => match latest {
                Some((old, _, _)) => if newer(q, old) {
                    Some((q, slot, s))
                } else {
                    latest
                },
                None => Some((q, slot, s)),
            },
            None => latest,
        }
    }

    /// What comes after the bytes `data` were read.
    pub open spec fn after<E>(self, data: Seq<u8>) -> OpenStep<E> {
        match self {
            Opening::Table { index, app0, app1 } => {
                let v = verdict(data);
                let app0 = app0 || v == Verdict::App0;
                let app1 = app1 || v == Verdict::App1;
                if v == Verdict::Bad {
                    OpenStep::Refused(Error::Layout)
                } else if v == Verdict::End || index + 1 == ENTRIES {
                    Opening::behind_table(app0, app1)
                } else {
                    OpenStep::Read(Opening::Table { index: (index + 1) as u32, app0, app1 })
                }
            },
            Opening::Records { slot, latest, dirty, recognized } => {
                let latest = Opening::later(latest, slot, data);
                let dirty = dirty || !blank(data);
                let recognized = recognized || begun(data);
                if slot + 1 == SLOTS {
                    Opening::behind_records(latest, dirty, recognized)
                } else {
                    OpenStep::Read(
                        Opening::Records { slot: (slot + 1) as u32, latest, dirty, recognized },
                    )
                }
            },
        }
    }

    /// The read that is wanted.
    pub fn request(&self) -> (r: FlashOp)
        requires
            self.well_formed(),
        ensures
            r@ == self.operation(),
    {
        match self {
            Opening::Table { index, .. } => FlashOp::Read {
                address: TABLE + *index * 32,
                length: 32,
            },
            Opening::Records { slot, .. } => FlashOp::Read {
                address: BASE + *slot * RECORD,
                length: RECORD,
            },
        }
    }

    /// Takes the reply to the wanted read.
    pub fn supply<E>(self, reply: Result<Vec<u8>, E>) -> (r: OpenStep<E>)
        requires
            self.well_formed(),
            reply matches Ok(data) ==> data@.len() == self.operation()->length,
        ensures
            r == match reply {
                Ok(data) => self.after::<E>(data@),
                Err(e) => OpenStep::Refused(Error::Flash(e)),
            },
            r matches OpenStep::Read(next) ==> next.well_formed() && next.remaining()
                < self.remaining(),
            r matches OpenStep::Opened(journal, state) ==> journal.well_formed() && state.well_formed(),
    {
        let data = match reply {
            Ok(data) => data,
            Err(e) => return OpenStep::Refused(Error::Flash(e)),
        };
        match self {
            Opening::Table { index, app0, app1 } => {
                let v = judge_entry(data.as_slice());
                let app0 = app0 || v == Verdict::App0;
                let app1 = app1 || v == Verdict::App1;
                if v == Verdict::Bad {
                    return OpenStep::Refused(Error::Layout);
                }
                if v == Verdict::End || index + 1 == ENTRIES {
                    if !app0 || !app1 {
                        return OpenStep::Refused(Error::Layout);
                    }
                    return OpenStep::Read(
                        Opening::Records { slot: 0, latest: None, dirty: false, recognized: false },
                    );
                }
                OpenStep::Read(Opening::Table { index: index + 1, app0, app1 })
            },
            Opening::Records { slot, latest, dirty, recognized } => {
                let dirty = dirty || !is_blank(data.as_slice());
                let recognized = recognized || is_begun(data.as_slice());
                let mut newest = latest;
                if let Some((q, s)) = decode_bytes(data.as_slice()) {
                    let replaces = match latest {
                        Some((old, _, _)) => q.wrapping_sub(old) < 0x8000_0000 && q != old,
                        None => true,
                    };
                    if replaces {
                        newest = Some((q, slot, s));
                    }
                }
                if slot + 1 < SLOTS {
                    return OpenStep::Read(
                        Opening::Records { slot: slot + 1, latest: newest, dirty, recognized },
                    );
                }
                match newest {
                    Some((sequence, found, state)) => OpenStep::Opened(
                        Journal { sequence, slot: Journal::advance(found) },
                        state,
                    ),
                    None => {
                        // A damaged journal must not resurrect earlier negatives as valid.
                        if dirty && !recognized {
                            return OpenStep::Refused(Error::UnknownData);
                        }
                        OpenStep::Opened(Journal { sequence: 0, slot: 0 }, State::empty())
                    },
                }
            },
        }
    }
}

impl Journal {
    pub open spec fn well_formed(self) -> bool {
        self.slot < SLOTS
    }

    fn advance(slot: u32) -> (r: u32)
        requires
            slot < u32::MAX,
        ensures
            r == next_slot(slot as int),
    {
        (slot + 1) % SLOTS
    }

    /// Begins to open the journal on a flash of this geometry.
    pub fn open<E>(capacity: usize, erase_size: usize, write_size: usize) -> (r: Result<
        Opening,
        Error<E>,
    >)
        requires
            write_size > 0,
        ensures
            r == if geometry_accepted(capacity, erase_size, write_size) {
                Ok::<Opening, Error<E>>(Opening::first())
            } else {
                Err(Error::Layout)
            },
            r matches Ok(opening) ==> opening.well_formed(),
    {
        assert(4usize % 1 == 0 && 4usize % 2 == 0 && 4usize % 3 == 1 && 4usize % 4 == 0);
        if capacity < (BASE + SIZE) as usize || erase_size != SECTOR as usize || write_size > 4 || 4
            % write_size != 0 {
            return Err(Error::Layout);
        }
        Ok(Opening::Table { index: 0, app0: false, app1: false })
    }

    /// Begins to save a state in the next usable slot.
    pub fn save(&self, state: State) -> (r: Saving)
        requires
            self.well_formed(),
        ensures
            r == Saving::first(*self, state),
            r.well_formed(),
    {
        // Erase only on entering a new sector, so the last committed record
        // survives power loss during erase, write and commit.
        let stage = if self.slot % SECTOR_SLOTS == 0 {
            SaveStage::Erase
        } else {
            SaveStage::Probe
        };
        Saving { journal: *self, state, stage }
    }
}

// ---------------------------------------------------------------------------
// Saving
// ---------------------------------------------------------------------------
/// What a save does next with the slot that it stands at.
#[derive(Clone, Copy, Debug, PartialEq, Eq, Structural)]
pub enum SaveStage {
    /// See whether the slot is blank.
    Probe,
    /// Erase the sector that begins with the slot.
    Erase,
    /// Write the record up to its commit mark.
    Body,
    /// Write the commit mark.
    Commit,
    /// Read the record back.
    Verify,
}

/// A save under way.
#[derive(Clone, Copy, Debug, PartialEq, Eq, Structural)]
pub struct Saving {
    pub journal: Journal,
    pub state: State,
    pub stage: SaveStage,
}

/// What comes after a reply.
#[derive(Debug)]
pub enum SaveStep<E> {
    /// The save wants another operation.
    Do(Saving),
    /// The state is saved, and this is the journal's new position.
    Saved(Journal),
    /// The save failed; the position is where the next save begins.
    Failed(Journal, Error<E>),
}

/// The sequence number after `q`.
pub open spec fn following(q: u32) -> u32 {
    if q == u32::MAX {
        0
    } else {
        (q + 1) as u32
    }
}

impl Saving {
    pub open spec fn well_formed(self) -> bool {
        &&& self.journal.well_formed()
        &&& self.stage == SaveStage::Erase ==> self.journal.slot % SECTOR_SLOTS == 0
        &&& self.stage == SaveStage::Probe ==> self.journal.slot % SECTOR_SLOTS != 0
    }

    /// A save that begins at the journal's slot.
    pub open spec fn first(journal: Journal, state: State) -> Saving {
        Saving {
            journal,
            state,
            stage: if journal.slot % SECTOR_SLOTS == 0 {
                SaveStage::Erase
            } else {
                SaveStage::Probe
            },
        }
    }

    /// The record that is to be written.
    pub open spec fn image(self) -> Seq<u8> {
        record(self.state, following(self.journal.sequence))
    }

    /// How many replies may still be wanted.
    pub open spec fn remaining(self) -> int {
        match self.stage {
            SaveStage::Probe => 37 - self.journal.slot % SECTOR_SLOTS,
            SaveStage::Erase => 4,
            SaveStage::Body => 3,
            SaveStage::Commit => 2,
            SaveStage::Verify => 1,
        }
    }

    /// The operation that is wanted.
    pub open spec fn operation(self) -> Operation {
        let address = slot_address(self.journal.slot as int);
        match self.stage {
            SaveStage::Probe => Operation::Read { address, length: RECORD as int },
            SaveStage::Erase => Operation::Erase { from: address, to: address + SECTOR },
            SaveStage::Body => Operation::Write { address, bytes: self.image().subrange(0, 124) },
            SaveStage::Commit => Operation::Write {
                address: address + 124,
                bytes: self.image().subrange(124, 128),
            },
            SaveStage::Verify => Operation::Read { address, length: RECORD as int },
        }
    }

    /// What comes after the operation was done and its reply was `data`.
    pub open spec fn after<E>(self, data: Seq<u8>) -> SaveStep<E> {
        let sequence = following(self.journal.sequence);
        let next = Journal { slot: next_slot(self.journal.slot as int) as u32, ..self.journal };
        match self.stage {
            SaveStage::Probe => if blank(data) {
                SaveStep::Do(Saving { stage: SaveStage::Body, ..self })
            } else {
                SaveStep::Do(Saving::first(next, self.state))
            },
            SaveStage::Erase => SaveStep::Do(Saving { stage: SaveStage::Body, ..self }),
            SaveStage::Body => SaveStep::Do(Saving { stage: SaveStage::Commit, ..self }),
            SaveStage::Commit => SaveStep::Do(Saving { stage: SaveStage::Verify, ..self }),
            SaveStage::Verify => if decoded(data) == Some((sequence, self.state)) {
                SaveStep::Saved(Journal { sequence, ..next })
            } else {
                SaveStep::Failed(self.journal, Error::UnknownData)
            },
        }
    }

    /// What comes after the operation failed: the save is over, and the next one
    /// begins where this one stood.
    pub open spec fn after_error<E>(self, e: E) -> SaveStep<E> {
        SaveStep::Failed(self.journal, Error::Flash(e))
    }

    /// The operation that is wanted.
    pub fn request(&self) -> (r: FlashOp)
        requires
            self.well_formed(),
        ensures
            r@ == self.operation(),
    {
        let address = BASE + self.journal.slot * RECORD;
        match self.stage {
            SaveStage::Probe => FlashOp::Read { address, length: RECORD },
            SaveStage::Erase => FlashOp::Erase { from: address, to: address + SECTOR },
            SaveStage::Body => {
                let b = encode(self.state, self.journal.sequence.wrapping_add(1));
                let body = vstd::slice::slice_to_vec(vstd::slice::slice_subrange(&b, 0, 124));
                FlashOp::Write { address, bytes: body }
            },
            SaveStage::Commit => {
                let b = encode(self.state, self.journal.sequence.wrapping_add(1));
                let mark = vstd::slice::slice_to_vec(vstd::slice::slice_subrange(&b, 124, 128));
                FlashOp::Write { address: address + 124, bytes: mark }
            },
            SaveStage::Verify => FlashOp::Read { address, length: RECORD },
        }
    }

    /// Takes the reply to the wanted operation; that to an erase or a write
    /// carries no bytes of interest.
    pub fn supply<E>(self, reply: Result<Vec<u8>, E>) -> (r: SaveStep<E>)
        requires
            self.well_formed(),
            self.operation() matches Operation::Read { length, .. } ==> (reply matches Ok(data)
                ==> data@.len() == length),
        ensures
            r == match reply {
                Ok(data) => self.after::<E>(data@),
                Err(e) => self.after_error(e),
            },
            r matches SaveStep::Do(next) ==> next.well_formed() && next.remaining()
                < self.remaining(),
            r matches SaveStep::Saved(journal) ==> journal.well_formed(),
            r matches SaveStep::Failed(journal, _) ==> journal.well_formed(),
    {
        let data = match reply {
            Ok(data) => data,
            Err(e) => return SaveStep::Failed(self.journal, Error::Flash(e)),
        };
        match self.stage {
            SaveStage::Probe => {
                if is_blank(data.as_slice()) {
                    return SaveStep::Do(Saving { stage: SaveStage::Body, ..self });
                }
                // Skip torn records.
                let journal = Journal {
                    slot: Journal::advance(self.journal.slot),
                    ..self.journal
                };
                SaveStep::Do(journal.save(self.state))
            },
            SaveStage::Erase => SaveStep::Do(Saving { stage: SaveStage::Body, ..self }),
            SaveStage::Body => SaveStep::Do(Saving { stage: SaveStage::Commit, ..self }),
            SaveStage::Commit => SaveStep::Do(Saving { stage: SaveStage::Verify, ..self }),
            SaveStage::Verify => {
                let sequence = self.journal.sequence.wrapping_add(1);
                match decode_bytes(data.as_slice()) {
                    Some((q, s)) => {
                        if q == sequence && s == self.state {
                            return SaveStep::Saved(
                                Journal { sequence, slot: Journal::advance(self.journal.slot) },
                            );
                        }
                    },
                    None => {},
                }
                SaveStep::Failed(self.journal, Error::UnknownData)
            },
        }
    }
}

} // verus!

//! The stored scan job of a running adapter, and its status report.

use super::journal::{Journal, Saving};
use super::state::{Phase, State};
use crate::buffers::{respond, response, DiagnosticResponse};
use crate::text::{decimal, hex, push_decimal, push_hex, push_text};
use vstd::prelude::*;
use vstd::string::*;
use vstd::utf8::*;

verus! {

/// No key is on trial.
pub const NO_CANDIDATE: u32 = 0x10000;

/// The job and the journal that keeps it, where one could be opened.
#[derive(Clone, Copy, Debug, PartialEq, Eq, Structural)]
pub struct ScanJob {
    pub journal: Option<Journal>,
    pub state: State,
}

impl ScanJob {
    pub open spec fn well_formed(self) -> bool {
        &&& self.state.well_formed()
        &&& self.journal matches Some(journal) ==> journal.well_formed()
    }

    /// The job without storage.
    pub open spec fn without_storage() -> ScanJob {
        ScanJob {
            journal: None,
            state: State { phase: Phase::StorageError, ..State::idle() },
        }
    }

    /// The job after its state could not be saved.
    pub open spec fn unsaved(self) -> ScanJob {
        ScanJob { state: State { phase: Phase::StorageError, ..self.state }, ..self }
    }

    /// The save of the job, if it has storage.
    pub open spec fn saving(self) -> Option<Saving> {
        match self.journal {
            Some(journal) => Some(Saving::first(journal, self.state)),
            None => None,
        }
    }

    /// The job after the end of a save: the journal's new position, if there was a save at
    /// all, and whether it succeeded.
    pub open spec fn after_save(self, journal: Option<Journal>, success: bool) -> ScanJob {
        if journal is Some && success {
            ScanJob { journal, ..self }
        } else {
            (ScanJob { journal, ..self }).unsaved()
        }
    }

    /// The job that an opened journal holds.
    pub fn opened(journal: Journal, state: State) -> (r: ScanJob)
        requires
            journal.well_formed(),
            state.well_formed(),
        ensures
            r == (ScanJob { journal: Some(journal), state }),
            r.well_formed(),
    {
        ScanJob { journal: Some(journal), state }
    }

    /// The job where no journal could be opened.
    pub fn unavailable() -> (r: ScanJob)
        ensures
            r == ScanJob::without_storage(),
            r.well_formed(),
    {
        ScanJob {
            journal: None,
            state: State { phase: Phase::StorageError, ..State::empty() },
        }
    }

    /// Begins to save the job, if it has storage.
    pub fn save(&self) -> (r: Option<Saving>)
        requires
            self.well_formed(),
        ensures
            r == self.saving(),
            r matches Some(saving) ==> saving.well_formed(),
    {
        match self.journal {
            Some(journal) => Some(journal.save(self.state)),
            None => None,
        }
    }

    /// Takes the end of a save: the journal's new position, if there was a save
    /// at all, and whether it succeeded.
    pub fn saved(&mut self, journal: Option<Journal>, success: bool)
        requires
            old(self).well_formed(),
            journal matches Some(journal) ==> journal.well_formed(),
        ensures
            *final(self) == old(self).after_save(journal, success),
            final(self).well_formed(),
    {
        self.journal = journal;
        if !(journal.is_some() && success) {
            self.state.phase = Phase::StorageError;
        }
    }
}

/// The status report of a job, with the key on trial where there is one.
pub open spec fn status_text(s: State, current: u32) -> Seq<u8> {
    "OK scan_version=3 state=".spec_bytes() + s.phase.label().spec_bytes()
        + " software_id=".spec_bytes() + decimal(s.software_id as nat) + " start=0x".spec_bytes()
        + hex(s.start as nat, 4) + " end=0x".spec_bytes() + hex(s.end as nat, 4)
        + " next=0x".spec_bytes() + hex(s.next as nat, 5) + " timeout_ms=".spec_bytes() + decimal(
        s.timeout_ms as nat,
    ) + " minimum_ms=".spec_bytes() + decimal(s.minimum_ms as nat) + " maximum_ms=".spec_bytes()
        + decimal(s.maximum_ms as nat) + " tested=".spec_bytes() + decimal(s.tested as nat)
        + " errors=".spec_bytes() + decimal(s.errors as nat) + " increases=".spec_bytes() + decimal(
        s.increases as nat,
    ) + (if current <= 0xffff {
        " current=0x".spec_bytes() + hex(current as nat, 4)
    } else {
        Seq::empty()
    }) + (match s.found {
        Some(key) => " read_key=0x".spec_bytes() + hex(key as nat, 4) + " confirmed=2".spec_bytes(),
        None => Seq::empty(),
    }) + "\n".spec_bytes()
}

/// Writes the status report of a job.
pub fn scan_status(s: State, current: u32) -> (r: DiagnosticResponse)
    ensures
        r@ == response(status_text(s, current)),
{
    let mut out: Vec<u8> = Vec::new();
    push_text(&mut out, "OK scan_version=3 state=");
    push_text(&mut out, s.phase.name());
    push_text(&mut out, " software_id=");
    push_decimal(&mut out, s.software_id as u64);
    push_text(&mut out, " start=0x");
    push_hex(&mut out, s.start as u64, 4);
    push_text(&mut out, " end=0x");
    push_hex(&mut out, s.end as u64, 4);
    push_text(&mut out, " next=0x");
    push_hex(&mut out, s.next as u64, 5);
    push_text(&mut out, " timeout_ms=");
    push_decimal(&mut out, s.timeout_ms as u64);
    push_text(&mut out, " minimum_ms=");
    push_decimal(&mut out, s.minimum_ms as u64);
    push_text(&mut out, " maximum_ms=");
    push_decimal(&mut out, s.maximum_ms as u64);
    push_text(&mut out, " tested=");
    push_decimal(&mut out, s.tested as u64);
    push_text(&mut out, " errors=");
    push_decimal(&mut out, s.errors as u64);
    push_text(&mut out, " increases=");
    push_decimal(&mut out, s.increases as u64);
    if current <= 0xffff {
        push_text(&mut out, " current=0x");
        push_hex(&mut out, current as u64, 4);
    }
    if let Some(key) = s.found {
        push_text(&mut out, " read_key=0x");
        push_hex(&mut out, key as u64, 4);
        push_text(&mut out, " confirmed=2");
    }
    push_text(&mut out, "\n");
    assert(out@ =~= status_text(s, current));
    respond(out.as_slice())
}

} // verus!

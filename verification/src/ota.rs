//! The update server: its request and the transfer of an image.

use crate::header::{header_line, HeaderError, HeaderReader};
use crate::text::{contents, fields, is_text, number, parse_number, same_bytes, split_fields};
use vstd::prelude::*;
use vstd::string::*;
use vstd::utf8::*;

verus! {

/// The largest image: the size of an application slot.
pub const OTA_MAX_IMAGE_SIZE: u32 = 0x1f0000;

/// The most that is received at once.
pub const OTA_CHUNK: u32 = 4096;

/// The pause between the last answer and the restart.
pub const OTA_REBOOT_DELAY_MS: u64 = 500;

/// An accepted update request.
#[derive(Clone, Copy, Debug, PartialEq, Eq, Structural)]
pub struct OtaRequest {
    pub size: u32,
    pub crc: u32,
}

/// Why an update request is refused.
#[derive(Clone, Copy, Debug, PartialEq, Eq, Structural)]
pub enum OtaError {
    Malformed,
    Encoding,
    Invalid,
    Size,
}

impl OtaError {
    /// The answer to a refused request.
    pub open spec fn text(self) -> &'static str {
        match self {
            OtaError::Malformed => "ERR malformed header\n",
            OtaError::Encoding => "ERR header encoding\n",
            OtaError::Invalid => "ERR invalid request or token\n",
            OtaError::Size => "ERR invalid image size\n",
        }
    }

    /// The answer to a refused request.
    pub fn answer(self) -> (r: &'static str)
        ensures
            r == self.text(),
    {
        match self {
            OtaError::Malformed => "ERR malformed header\n",
            OtaError::Encoding => "ERR header encoding\n",
            OtaError::Invalid => "ERR invalid request or token\n",
            OtaError::Size => "ERR invalid image size\n",
        }
    }
}

/// The update that a request line asks for: the word `FMDU1`, the image's size in
/// bytes, its CRC-32 in hexadecimal and the token.
pub open spec fn ota_line(line: Seq<u8>, token: Seq<u8>) -> Result<OtaRequest, OtaError> {
    let f = fields(line);
    let size = number(f[1], 10, 0xffff_ffff);
    let crc = number(f[2], 16, 0xffff_ffff);
    if f.len() != 4 || f[0] != "FMDU1".spec_bytes() || size is None || crc is None || f[3] != token {
        Err(OtaError::Invalid)
    } else if size.unwrap() == 0 || size.unwrap() > OTA_MAX_IMAGE_SIZE {
        Err(OtaError::Size)
    } else {
        Ok(OtaRequest { size: size.unwrap() as u32, crc: crc.unwrap() as u32 })
    }
}

/// The update that a request header asks for.
pub open spec fn ota_header(header: Seq<u8>, token: Seq<u8>) -> Result<OtaRequest, OtaError> {
    match header_line(header) {
        Ok(line) => ota_line(line, token),
        Err(HeaderError::Malformed) => Err(OtaError::Malformed),
        Err(HeaderError::Encoding) => Err(OtaError::Encoding),
    }
}

/// Reads an update request.
pub fn ota_request(header: &HeaderReader, token: &[u8]) -> (r: Result<OtaRequest, OtaError>)
    ensures
        r == ota_header(header.read(), token@),
        r matches Ok(request) ==> 0 < request.size <= OTA_MAX_IMAGE_SIZE,
{
    let line = match header.finish() {
        Ok(line) => line,
        Err(HeaderError::Malformed) => return Err(OtaError::Malformed),
        Err(HeaderError::Encoding) => return Err(OtaError::Encoding),
    };
    let f = split_fields(line.as_slice());
    let ghost all = contents(f@);
    assert(all == fields(line@));
    if f.len() != 4 {
        return Err(OtaError::Invalid);
    }
    assert(all[0] == f@[0]@ && all[1] == f@[1]@ && all[2] == f@[2]@ && all[3] == f@[3]@);
    if !is_text(f[0].as_slice(), "FMDU1") || !same_bytes(f[3].as_slice(), token) {
        return Err(OtaError::Invalid);
    }
    let size = match parse_number(f[1].as_slice(), 10, 0xffff_ffff) {
        Some(size) => size as u32,
        None => return Err(OtaError::Invalid),
    };
    let crc = match parse_number(f[2].as_slice(), 16, 0xffff_ffff) {
        Some(crc) => crc as u32,
        None => return Err(OtaError::Invalid),
    };
    if size == 0 || size > OTA_MAX_IMAGE_SIZE {
        return Err(OtaError::Size);
    }
    Ok(OtaRequest { size, crc })
}

// ---------------------------------------------------------------------------
// The transfer
// ---------------------------------------------------------------------------
/// What a transfer wants done.
#[derive(Clone, Copy, Debug, PartialEq, Eq, Structural)]
pub enum OtaAction {
    /// Prepare the flash for an image of this size and CRC.
    Begin { size: u32, crc: u32 },
    /// Tell the peer to send.
    Ready,
    /// Receive up to so many bytes.
    Receive { wanted: u32 },
    /// Write the bytes that were received last to flash.
    Write { len: u32 },
    /// Verify the image and make it the next to boot.
    Verify,
}

/// The step of a transfer.
#[derive(Clone, Copy, Debug, PartialEq, Eq, Structural)]
pub enum OtaStage {
    Begin,
    Ready,
    Receive,
    Write { len: u32 },
    Verify,
}

/// A transfer under way.
#[derive(Clone, Copy, Debug, PartialEq, Eq, Structural)]
pub struct Transfer {
    pub request: OtaRequest,
    pub stage: OtaStage,
    /// The bytes that are still to come.
    pub remaining: u32,
    /// The last write said that the image is complete.
    pub complete: bool,
    /// The last progress that was reported, in percent.
    pub reported: u32,
}

/// How an action came out.
#[derive(Clone, Copy, Debug, PartialEq, Eq, Structural)]
pub enum OtaResult {
    /// It failed.
    Failed,
    /// It succeeded.
    Done,
    /// So many bytes were received.
    Received(u32),
    /// The chunk was written, and whether the image is complete.
    Written(bool),
}

/// How a transfer ends.
#[derive(Clone, Copy, Debug, PartialEq, Eq)]
pub enum OtaEnd {
    /// Send this answer and close.
    Answer(&'static str),
    /// Drop the connection.
    Abort,
    /// Send this answer, wait and restart with the new image.
    Reboot(&'static str),
}

/// What comes after an action.
#[derive(Clone, Copy, Debug, PartialEq, Eq)]
pub enum OtaStep {
    /// The transfer goes on; a progress in percent may be worth a log line.
    Go(Transfer, Option<u32>),
    /// The transfer is over.
    End(OtaEnd),
}

impl Transfer {
    pub open spec fn well_formed(self) -> bool {
        &&& 0 < self.request.size <= OTA_MAX_IMAGE_SIZE
        &&& self.remaining <= self.request.size
        &&& self.reported <= 100
        &&& self.stage == OtaStage::Receive ==> self.remaining > 0
        &&& self.stage matches OtaStage::Write { len } ==> 0 < len <= self.remaining && len
            <= OTA_CHUNK
        &&& self.stage == OtaStage::Begin || self.stage == OtaStage::Ready ==> self.remaining
            == self.request.size
        &&& self.stage == OtaStage::Verify ==> self.remaining == 0 && self.complete
    }

    /// The transfer of an accepted request.
    pub open spec fn first(request: OtaRequest) -> Transfer {
        Transfer {
            request,
            stage: OtaStage::Begin,
            remaining: request.size,
            complete: false,
            reported: 0,
        }
    }

    /// What is received next at most.
    pub open spec fn wanted(self) -> u32 {
        if self.remaining < OTA_CHUNK {
            self.remaining
        } else {
            OTA_CHUNK
        }
    }

    /// The share that has been written, in percent, with so many bytes to come.
    pub open spec fn percent(self, remaining: int) -> int {
        (self.request.size - remaining) * 100 / (self.request.size as int)
    }

    /// The action that is wanted.
    pub open spec fn action(self) -> OtaAction {
        match self.stage {
            OtaStage::Begin => OtaAction::Begin { size: self.request.size, crc: self.request.crc },
            OtaStage::Ready => OtaAction::Ready,
            OtaStage::Receive => OtaAction::Receive { wanted: self.wanted() },
            OtaStage::Write { len } => OtaAction::Write { len },
            OtaStage::Verify => OtaAction::Verify,
        }
    }

    /// The result is one that the wanted action can have.
    pub open spec fn fits(self, result: OtaResult) -> bool {
        match self.stage {
            OtaStage::Receive => result == OtaResult::Failed || (
            result matches OtaResult::Received(n) && n <= self.wanted()),
            OtaStage::Write { .. } => result == OtaResult::Failed || result is Written,
            _ => result == OtaResult::Failed || result == OtaResult::Done,
        }
    }

    /// The progress in percent that is worth a report once a chunk of this length was
    /// written: ten more than was last reported, or the whole.
    pub open spec fn report(self, len: u32) -> Option<u32> {
        let percent = self.percent(self.remaining - len);
        if percent >= self.reported + 10 || percent == 100 {
            Some(percent as u32)
        } else {
            None
        }
    }

    /// The progress that is worth a report after an action: only a chunk that was
    /// written is progress, also where the transfer ends with it.
    pub open spec fn progress_after(self, result: OtaResult) -> Option<u32> {
        match self.stage {
            OtaStage::Write { len } => if result is Written {
                self.report(len)
            } else {
                None
            },
            _ => None,
        }
    }

    /// After a chunk was written: more is received, or the image is verified, or
    /// it turns out to be incomplete.
    pub open spec fn after_write(self, len: u32, done: bool) -> OtaStep {
        let remaining = self.remaining - len;
        let next = Transfer {
            stage: if remaining == 0 {
                OtaStage::Verify
            } else {
                OtaStage::Receive
            },
            remaining: remaining as u32,
            complete: done,
            reported: match self.report(len) {
                Some(percent) => percent,
                None => self.reported,
            },
            ..self
        };
        if remaining == 0 && !done {
            OtaStep::End(OtaEnd::Answer("ERR upload incomplete\n"))
        } else {
            OtaStep::Go(next, self.report(len))
        }
    }

    /// What comes after an action.
    pub open spec fn after(self, result: OtaResult) -> OtaStep {
        match self.stage {
            OtaStage::Begin => if result == OtaResult::Done {
                OtaStep::Go(Transfer { stage: OtaStage::Ready, ..self }, None)
            } else {
                OtaStep::End(OtaEnd::Answer("ERR ota_begin\n"))
            },
            OtaStage::Ready => if result == OtaResult::Done {
                OtaStep::Go(Transfer { stage: OtaStage::Receive, ..self }, None)
            } else {
                OtaStep::End(OtaEnd::Abort)
            },
            OtaStage::Receive => match result {
                OtaResult::Received(n) => if n == 0 {
                    OtaStep::End(OtaEnd::Answer("ERR upload incomplete\n"))
                } else {
                    OtaStep::Go(Transfer { stage: OtaStage::Write { len: n }, ..self }, None)
                },
                _ => OtaStep::End(OtaEnd::Answer("ERR upload incomplete\n")),
            },
            OtaStage::Write { len } => match result {
                OtaResult::Written(done) => self.after_write(len, done),
                _ => OtaStep::End(OtaEnd::Answer("ERR upload incomplete\n")),
            },
            OtaStage::Verify => if result == OtaResult::Done {
                OtaStep::End(OtaEnd::Reboot("OK verified; rebooting\n"))
            } else {
                OtaStep::End(OtaEnd::Answer("ERR CRC/flash verification failed\n"))
            },
        }
    }

    /// Begins the transfer of an accepted request.
    pub fn begin(request: OtaRequest) -> (r: Transfer)
        requires
            0 < request.size <= OTA_MAX_IMAGE_SIZE,
        ensures
            r == Transfer::first(request),
            r.well_formed(),
    {
        Transfer {
            request,
            stage: OtaStage::Begin,
            remaining: request.size,
            complete: false,
            reported: 0,
        }
    }

    /// The action that is wanted.
    pub fn request(&self) -> (r: OtaAction)
        ensures
            r == self.action(),
    {
        match self.stage {
            OtaStage::Begin => OtaAction::Begin { size: self.request.size, crc: self.request.crc },
            OtaStage::Ready => OtaAction::Ready,
            OtaStage::Receive => {
                let wanted = if self.remaining < OTA_CHUNK {
                    self.remaining
                } else {
                    OTA_CHUNK
                };
                OtaAction::Receive { wanted }
            },
            OtaStage::Write { len } => OtaAction::Write { len },
            OtaStage::Verify => OtaAction::Verify,
        }
    }

    fn report_of(&self, len: u32) -> (r: Option<u32>)
        requires
            self.well_formed(),
            0 < len <= self.remaining,
        ensures
            r == self.report(len),
            r matches Some(percent) ==> percent <= 100,
    {
        let sent = self.request.size - (self.remaining - len);
        proof {
            let size = self.request.size as int;
            assert(0 <= sent * 100 / size <= 100) by (nonlinear_arith)
                requires
                    0 <= sent <= size,
                    size > 0,
            ;
        }
        let percent = sent * 100 / self.request.size;
        if percent >= self.reported + 10 || percent == 100 {
            Some(percent)
        } else {
            None
        }
    }

    /// The progress in percent that is worth a log line after the wanted action came
    /// out like this, whether the transfer goes on or ends.
    pub fn progress(&self, result: OtaResult) -> (r: Option<u32>)
        requires
            self.well_formed(),
        ensures
            r == self.progress_after(result),
            r matches Some(percent) ==> percent <= 100,
    {
        match self.stage {
            OtaStage::Write { len } => match result {
                OtaResult::Written(_) => self.report_of(len),
                _ => None,
            },
            _ => None,
        }
    }

    fn written(self, len: u32, done: bool) -> (r: OtaStep)
        requires
            self.well_formed(),
            0 < len <= self.remaining,
        ensures
            r == self.after_write(len, done),
            r matches OtaStep::Go(next, _) ==> next.well_formed() && next.remaining
                < self.remaining,
    {
        let remaining = self.remaining - len;
        let report = self.report_of(len);
        if remaining == 0 && !done {
            return OtaStep::End(OtaEnd::Answer("ERR upload incomplete\n"));
        }
        let stage = if remaining == 0 {
            OtaStage::Verify
        } else {
            OtaStage::Receive
        };
        let reported = match report {
            Some(percent) => percent,
            None => self.reported,
        };
        OtaStep::Go(Transfer { stage, remaining, complete: done, reported, ..self }, report)
    }

    /// Takes the outcome of the wanted action.
    pub fn supply(self, result: OtaResult) -> (r: OtaStep)
        requires
            self.well_formed(),
            self.fits(result),
        ensures
            r == self.after(result),
            r matches OtaStep::Go(next, _) ==> next.well_formed(),
            r matches OtaStep::Go(_, progress) ==> progress == self.progress_after(result),
    {
        match self.stage {
            OtaStage::Begin => if result == OtaResult::Done {
                OtaStep::Go(Transfer { stage: OtaStage::Ready, ..self }, None)
            } else {
                OtaStep::End(OtaEnd::Answer("ERR ota_begin\n"))
            },
            OtaStage::Ready => if result == OtaResult::Done {
                OtaStep::Go(Transfer { stage: OtaStage::Receive, ..self }, None)
            } else {
                OtaStep::End(OtaEnd::Abort)
            },
            OtaStage::Receive => match result {
                OtaResult::Received(n) => if n == 0 {
                    OtaStep::End(OtaEnd::Answer("ERR upload incomplete\n"))
                } else {
                    OtaStep::Go(Transfer { stage: OtaStage::Write { len: n }, ..self }, None)
                },
                _ => OtaStep::End(OtaEnd::Answer("ERR upload incomplete\n")),
            },
            OtaStage::Write { len } => match result {
                OtaResult::Written(done) => self.written(len, done),
                _ => OtaStep::End(OtaEnd::Answer("ERR upload incomplete\n")),
            },
            OtaStage::Verify => if result == OtaResult::Done {
                OtaStep::End(OtaEnd::Reboot("OK verified; rebooting\n"))
            } else {
                OtaStep::End(OtaEnd::Answer("ERR CRC/flash verification failed\n"))
            },
        }
    }
}

/// The adapter restarts only after the whole image was written, the flash took
/// it as complete, and its verification succeeded.
pub proof fn lemma_reboot_means_verified(t: Transfer, result: OtaResult)
    requires
        t.well_formed(),
        t.after(result) matches OtaStep::End(OtaEnd::Reboot(_)),
    ensures
        t.stage == OtaStage::Verify,
        t.remaining == 0,
        t.complete,
        result == OtaResult::Done,
{
}

/// Every byte that is received is written before more is received, and the bytes
/// written and those to come always make up the image.
pub proof fn lemma_transfer_accounts_for_every_byte(t: Transfer, result: OtaResult)
    requires
        t.well_formed(),
        t.fits(result),
    ensures
        t.after(result) matches OtaStep::Go(next, _) ==> {
            &&& next.request == t.request
            &&& t.stage matches OtaStage::Write { len } ==> next.remaining == t.remaining - len
            &&& !(t.stage is Write) ==> next.remaining == t.remaining
            &&& next.stage matches OtaStage::Write { len } ==> result == OtaResult::Received(len)
                && len <= t.wanted()
        },
{
}

/// A request is accepted only with the token.
pub proof fn lemma_update_needs_token(line: Seq<u8>, token: Seq<u8>)
    requires
        ota_line(line, token) is Ok,
    ensures
        fields(line).len() == 4,
        fields(line)[3] == token,
{
}

} // verus!

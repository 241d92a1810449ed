//! Updates: which requests are accepted, and how an image is transferred.

use crate::ota::{ota_header, ota_line, OtaAction, OtaEnd, OtaError, OtaRequest, OtaResult};
use crate::ota::{OtaStage, OtaStep, Transfer, OTA_CHUNK, OTA_MAX_IMAGE_SIZE, OTA_REBOOT_DELAY_MS};
use crate::text::{fields, number};
use vstd::prelude::*;
use vstd::string::*;
use vstd::utf8::*;

verus! {

/// A request is accepted if and only if it is four words: the right one, a size in decimal
/// that is not zero and fits the slot, a sum in hexadecimal, and the token.
pub proof fn lemma_update_requests(line: Seq<u8>, token: Seq<u8>, size: nat, crc: nat)
    ensures
        ({
            let f = fields(line);
            let r = ota_line(line, token);
            let words = f.len() == 4 && f[0] == "FMDU1".spec_bytes() && f[3] == token && number(
                f[1],
                10,
                0xffff_ffff,
            ) is Some && number(f[2], 16, 0xffff_ffff) is Some;
            &&& r == Err::<OtaRequest, OtaError>(OtaError::Invalid) <==> !words
            &&& words && number(f[1], 10, 0xffff_ffff) == Some(size) ==> (r == Err::<
                OtaRequest,
                OtaError,
            >(OtaError::Size) <==> size == 0 || size > 0x1f0000)
            &&& words && number(f[1], 10, 0xffff_ffff) == Some(size) && number(
                f[2],
                16,
                0xffff_ffff,
            ) == Some(crc) && 0 < size <= 0x1f0000 ==> (r matches Ok(request) && request.size
                == size && request.crc == crc)
        }),
{
}

/// A header that is no line is refused as such, and a line is read as one.
pub proof fn lemma_update_headers(header: Seq<u8>, token: Seq<u8>)
    ensures
        header.len() == 0 || header.last() != 10 ==> ota_header(header, token) == Err::<
            OtaRequest,
            OtaError,
        >(OtaError::Malformed),
        header.len() > 0 && header.last() == 10 && !valid_utf8(header.drop_last()) ==> ota_header(
            header,
            token,
        ) == Err::<OtaRequest, OtaError>(OtaError::Encoding),
        header.len() > 0 && header.last() == 10 && valid_utf8(header.drop_last()) ==> ota_header(
            header,
            token,
        ) == ota_line(header.drop_last(), token),
{
}

/// What is answered to a refused request.
pub proof fn lemma_update_refusals()
    ensures
        OtaError::Malformed.text() == "ERR malformed header\n",
        OtaError::Encoding.text() == "ERR header encoding\n",
        OtaError::Invalid.text() == "ERR invalid request or token\n",
        OtaError::Size.text() == "ERR invalid image size\n",
{
}

/// A transfer begins with the whole image to come, and asks for what its stage needs; it
/// never asks for more than a chunk of 4096 bytes or than what is to come.
pub proof fn lemma_transfer_actions(t: Transfer, request: OtaRequest)
    requires
        t.well_formed(),
    ensures
        Transfer::first(request).remaining == request.size,
        Transfer::first(request).stage is Begin,
        Transfer::first(request).reported == 0,
        !Transfer::first(request).complete,
        Transfer::first(request).request == request,
        t.stage is Begin ==> t.action() == (OtaAction::Begin {
            size: t.request.size,
            crc: t.request.crc,
        }),
        t.stage is Ready ==> t.action() is Ready,
        t.stage is Receive ==> (t.action() matches OtaAction::Receive { wanted } && 0 < wanted
            <= 4096 && wanted <= t.remaining && (wanted == 4096 || wanted == t.remaining)),
        t.stage is Write ==> (t.action() matches OtaAction::Write { len } && t.stage
            == OtaStage::Write { len }),
        t.stage is Verify ==> t.action() is Verify,
{
}

/// Every stage leads to the next, and each failure has its own end.
pub proof fn lemma_transfer_stages(t: Transfer, result: OtaResult)
    requires
        t.well_formed(),
        t.fits(result),
    ensures
        t.stage is Begin && result is Done ==> (t.after(result) matches OtaStep::Go(next, p)
            && next.stage is Ready && next.remaining == t.remaining && p is None),
        t.stage is Begin && result is Failed ==> t.after(result) == OtaStep::End(
            OtaEnd::Answer("ERR ota_begin\n"),
        ),
        t.stage is Ready && result is Done ==> (t.after(result) matches OtaStep::Go(next, p)
            && next.stage is Receive && next.remaining == t.remaining && p is None),
        t.stage is Ready && result is Failed ==> t.after(result) == OtaStep::End(OtaEnd::Abort),
        t.stage is Receive && (result is Failed || result == OtaResult::Received(0)) ==> t.after(
            result,
        ) == OtaStep::End(OtaEnd::Answer("ERR upload incomplete\n")),
        t.stage is Receive ==> (result matches OtaResult::Received(n) ==> (n > 0 ==> (t.after(
            result,
        ) matches OtaStep::Go(next, p) && next.stage == (OtaStage::Write { len: n })
            && next.remaining == t.remaining && p is None))),
        t.stage is Write && result is Failed ==> t.after(result) == OtaStep::End(
            OtaEnd::Answer("ERR upload incomplete\n"),
        ),
        t.stage is Verify && result is Done ==> t.after(result) == OtaStep::End(
            OtaEnd::Reboot("OK verified; rebooting\n"),
        ),
        t.stage is Verify && result is Failed ==> t.after(result) == OtaStep::End(
            OtaEnd::Answer("ERR CRC/flash verification failed\n"),
        ),
{
}

/// A chunk that was written is taken off what is to come; behind the last one the image is
/// verified, if the flash holds it as complete, and refused as incomplete otherwise.
pub proof fn lemma_chunks_make_the_image(t: Transfer, len: u32, done: bool)
    requires
        t.well_formed(),
        t.stage == (OtaStage::Write { len }),
    ensures
        len < t.remaining ==> (t.after(OtaResult::Written(done)) matches OtaStep::Go(next, _)
            && next.stage is Receive && next.remaining + len == t.remaining && next.complete
            == done),
        len == t.remaining && done ==> (t.after(OtaResult::Written(done)) matches OtaStep::Go(
            next,
            _,
        ) && next.stage is Verify && next.remaining == 0 && next.complete),
        len == t.remaining && !done ==> t.after(OtaResult::Written(done)) == OtaStep::End(
            OtaEnd::Answer("ERR upload incomplete\n"),
        ),
{
}

/// The progress of a transfer is told in percent, rounded down: where it is ten more than
/// what was told last, and at the end; what is told is what the next one is held against.
pub proof fn lemma_progress_is_told(t: Transfer, len: u32, done: bool)
    requires
        t.well_formed(),
        t.stage == (OtaStage::Write { len }),
    ensures
        ({
            let size = t.request.size as int;
            let written = size - t.remaining + len;
            let told = t.progress_after(OtaResult::Written(done));
            &&& told matches Some(percent) ==> percent * size <= 100 * written && 100 * written < (
            percent + 1) * size
            &&& told is Some <==> 100 * written >= (t.reported + 10) * size || written == size
            &&& t.after(OtaResult::Written(done)) matches OtaStep::Go(next, p) ==> p == told && (
            told matches Some(percent) ==> next.reported == percent) && (told is None
                ==> next.reported == t.reported)
        }),
        t.progress_after(OtaResult::Failed) is None,
{
    let size = t.request.size as int;
    let written = size - t.remaining + len;
    let hundred = written * 100;
    let percent = hundred / size;
    assert(percent == t.percent(t.remaining - len));
    assert(percent * size <= hundred < (percent + 1) * size && 0 <= percent <= 100)
        by (nonlinear_arith)
        requires
            percent == hundred / size,
            size > 0,
            0 <= hundred <= size * 100,
    ;
    let goal = (t.reported + 10) as int;
    assert(percent >= goal <==> hundred >= goal * size) by (nonlinear_arith)
        requires
            percent * size <= hundred < (percent + 1) * size,
            size > 0,
    ;
    assert(percent == 100 <==> written == size) by (nonlinear_arith)
        requires
            percent * size <= hundred < (percent + 1) * size,
            hundred == written * 100,
            size > 0,
            percent <= 100,
            written <= size,
    ;
}

/// Nothing but a chunk that was written is progress.
pub proof fn lemma_only_writing_is_progress(t: Transfer, result: OtaResult)
    ensures
        !(t.stage is Write) ==> t.progress_after(result) is None,
        !(result is Written) ==> t.progress_after(result) is None,
{
}

/// An image fits an application slot, comes in pages, and is booted after half a second.
pub proof fn lemma_update_limits()
    ensures
        OTA_MAX_IMAGE_SIZE == 0x1f_0000,
        OTA_CHUNK == 4096,
        OTA_REBOOT_DELAY_MS == 500,
{
}

} // verus!

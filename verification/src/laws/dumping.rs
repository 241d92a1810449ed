//! Dumps and probes: which blocks are read, in which order, and when they end.

use crate::diagnostics::dump::{baseline_line, dump_begun, failed_key_line, key_line, kind_text};
use crate::diagnostics::dump::{no_key_line, probe_end_line, sample_line, told_id, whole_blocks};
use crate::diagnostics::dump::{countable, Dump, Probe};
use crate::diagnostics::DiagnosticCommand;
use crate::known_read_keys::ReadKeyCandidate;
use crate::text::{decimal, first_word, has_prefix, hex, number, second_part, trimmed_end};
use vstd::prelude::*;
use vstd::string::*;
use vstd::utf8::*;

verus! {

// ---------------------------------------------------------------------------
// Dumps
// ---------------------------------------------------------------------------
/// A range is dumped if and only if it begins with a block and ends with one.
pub proof fn lemma_dumped_ranges(memory: bool, key: u16, start: u32, end: u32)
    ensures
        ({
            let step = dump_begun(memory, key, start, end);
            let fit = start <= end && start as int % 16 == 0 && end as int % 16 == 15;
            &&& step.next is Some <==> fit
            &&& !fit ==> step.lines
                == seq!["SERDIAG ERR dump range must be 16-byte aligned and inclusive".spec_bytes()]
            &&& fit ==> (step.next matches Some(d) && d.memory == memory && d.key == key && d.start
                == start && d.end == end && d.offset == start && (d.unit is Some <==> memory))
            &&& fit && memory ==> step.lines.len() == 1
            &&& fit && !memory ==> step.lines.len() == 0
            &&& step.closing.len() == 0 && step.pause_ms == 0
        }),
{
}

/// Only a range that ends at the last address of all cannot be counted to its end.
pub proof fn lemma_countable_ranges(start: u32, end: u32)
    ensures
        countable(start, end) <==> !(start as int % 16 == 0 && end == 0xffff_ffff),
{
}

/// What is read: memory by its addresses, EEPROM by units of one byte or of two, with the
/// key of the dump.
pub proof fn lemma_dump_commands(d: Dump)
    requires
        d.well_formed(),
    ensures
        d.unit is None ==> d.command() == DiagnosticCommand::QueryId,
        d.memory ==> d.command() == (DiagnosticCommand::ReadMemory16 {
            key: d.key,
            address: d.offset,
        }),
        !d.memory && d.unit == Some(1u32) ==> (d.command() matches DiagnosticCommand::ReadEeprom16 {
            key,
            address,
        } && key == d.key && address == d.offset),
        !d.memory && d.unit == Some(2u32) ==> (d.command() matches DiagnosticCommand::ReadEeprom16 {
            key,
            address,
        } && key == d.key && 2 * address == d.offset),
{
}

/// EEPROM is addressed by bytes on the dryer and by words elsewhere, up to 64 Ki of them;
/// without a software ID nothing is dumped.
pub proof fn lemma_eeprom_addressing(d: Dump, r: Seq<u8>, id: nat)
    requires
        d.well_formed(),
        d.unit is None,
    ensures
        ({
            let step = d.after(r);
            &&& told_id(r) is None ==> step.next is None && step.lines
                == seq!["SERDIAG ERR query_software_id failed".spec_bytes()]
            &&& told_id(r) == Some(498nat) && d.end < 0x10000 ==> (step.next matches Some(next)
                && next == (Dump { unit: Some(1), ..d }) && step.lines == seq![d.begin_line()])
            &&& told_id(r) == Some(498nat) && d.end >= 0x10000 ==> step.next is None && step.lines
                == seq!["SERDIAG ERR EEPROM byte offset out of range".spec_bytes()]
            &&& told_id(r) == Some(id) && id != 498 && d.end < 0x20000 ==> (
            step.next matches Some(next) && next == (Dump { unit: Some(2), ..d }) && step.lines
                == seq![d.begin_line()])
            &&& told_id(r) == Some(id) && id != 498 && d.end >= 0x20000 ==> step.next is None
                && step.lines == seq!["SERDIAG ERR EEPROM byte offset out of range".spec_bytes()]
        }),
{
}

/// Block follows block, 16 bytes further each, until the end of the range was read; the last
/// one is followed by the line that ends the dump.
pub proof fn lemma_dump_goes_on(d: Dump, r: Seq<u8>, data: Seq<u8>)
    requires
        d.well_formed(),
        d.unit is Some,
        valid_utf8(r),
        second_part(trimmed_end(r), " data=".spec_bytes()) == Some(data),
    ensures
        ({
            let step = d.after(r);
            &&& step.lines == seq![d.data_line(data)]
            &&& step.pause_ms == 1
            &&& d.offset + 15 < d.end ==> (step.next matches Some(next) && next.offset == d.offset
                + 16 && next.unit == d.unit && next.key == d.key && next.memory == d.memory
                && next.end == d.end && next.start == d.start) && step.closing.len() == 0
            &&& d.offset + 15 == d.end ==> step.next is None && step.closing == seq![d.end_line()]
            &&& d.offset + 15 <= d.end
        }),
{
}

/// A block that could not be read ends the dump with the words of the response.
pub proof fn lemma_dump_fails(d: Dump, r: Seq<u8>)
    requires
        d.well_formed(),
        d.unit is Some,
    ensures
        !valid_utf8(r) ==> d.after(r).next is None && d.after(r).lines
            == seq![d.error_line("invalid-response-encoding".spec_bytes())],
        valid_utf8(r) && second_part(trimmed_end(r), " data=".spec_bytes()) is None ==> d.after(
            r,
        ).next is None && d.after(r).lines == seq![d.error_line(trimmed_end(r))],
{
}

/// The lines of a dump, word for word.
pub proof fn lemma_dump_lines(d: Dump, data: Seq<u8>, what: Seq<u8>)
    ensures
        kind_text(true) == "memory".spec_bytes(),
        kind_text(false) == "eeprom".spec_bytes(),
        d.begin_line() == "SERDUMP BEGIN ".spec_bytes() + kind_text(d.memory)
            + " key=0x".spec_bytes() + hex(d.key as nat, 4) + " start=0x".spec_bytes() + hex(
            d.start as nat,
            8,
        ) + " end=0x".spec_bytes() + hex(d.end as nat, 8),
        d.end_line() == "SERDUMP END ".spec_bytes() + kind_text(d.memory),
        d.data_line(data) == "SERDUMP ".spec_bytes() + kind_text(d.memory) + " ".spec_bytes() + hex(
            d.offset as nat,
            8,
        ) + " ".spec_bytes() + data,
        d.error_line(what) == "SERDUMP ERROR ".spec_bytes() + kind_text(d.memory)
            + " 0x".spec_bytes() + hex(d.offset as nat, 8) + " ".spec_bytes() + what,
{
}

/// The software ID of a response stands as a decimal number behind its mark.
pub proof fn lemma_told_ids(rest: Seq<u8>, word: Seq<u8>)
    ensures
        ({
            let r = "OK software_id=".spec_bytes() + rest;
            &&& valid_utf8(r) && first_word(rest) == Some(word) ==> told_id(r) == number(
                word,
                10,
                0xffff,
            )
            &&& !valid_utf8(r) || first_word(rest) is None ==> told_id(r) is None
        }),
        !has_prefix(rest, "OK software_id=".spec_bytes()) ==> told_id(rest) is None,
{
    let mark = "OK software_id=".spec_bytes();
    let r = mark + rest;
    assert(r.subrange(0, mark.len() as int) =~= mark);
    assert(r.skip(mark.len() as int) =~= rest);
}

// ---------------------------------------------------------------------------
// Probes
// ---------------------------------------------------------------------------
/// An unknown appliance is asked for its software ID three times, with a pause of 100 ms
/// behind each.
pub proof fn lemma_three_samples(n: u8, keys: Seq<ReadKeyCandidate>, r: Seq<u8>)
    requires
        1 <= n <= 3,
        keys.len() <= usize::MAX,
    ensures
        Probe::Sample(n).command(keys) == DiagnosticCommand::QueryId,
        valid_utf8(r) ==> Probe::Sample(n).after(keys, r).lines == seq![sample_line(n, r)]
            && Probe::Sample(n).after(keys, r).pause_ms == 100,
        valid_utf8(r) && n < 3 ==> Probe::Sample(n).after(keys, r).next == Some(
            Probe::Sample((n + 1) as u8),
        ),
        valid_utf8(r) && n == 3 && keys.len() > 0 ==> Probe::Sample(n).after(keys, r).next == Some(
            Probe::Candidate(0),
        ),
        valid_utf8(r) && n == 3 && keys.len() == 0 ==> Probe::Sample(n).after(keys, r).next is None
            && Probe::Sample(n).after(keys, r).closing == seq![no_key_line()],
        !valid_utf8(r) ==> Probe::Sample(n).after(keys, r).next is None && Probe::Sample(n).after(
            keys,
            r,
        ).lines == seq!["SERPROBE ERROR invalid ID response encoding".spec_bytes()],
{
}

/// Then the known keys are tried in their order, each with a read at address 0, until one
/// works or none is left.
pub proof fn lemma_known_keys_are_tried(i: usize, keys: Seq<ReadKeyCandidate>, r: Seq<u8>)
    requires
        i < keys.len() <= usize::MAX,
    ensures
        ({
            let key = keys[i as int].key;
            let step = Probe::Candidate(i).after(keys, r);
            let works = has_prefix(r, "OK ".spec_bytes());
            &&& Probe::Candidate(i).command(keys) == (DiagnosticCommand::ReadMemory16 {
                key,
                address: 0,
            })
            &&& !works ==> step.lines == seq![failed_key_line(key, r)] && step.pause_ms == 100
            &&& !works && i + 1 < keys.len() ==> step.next == Some(
                Probe::Candidate((i + 1) as usize),
            ) && step.closing.len() == 0
            &&& !works && i + 1 == keys.len() ==> step.next is None && step.closing
                == seq![no_key_line()]
            &&& works ==> step.lines.len() == 3 && step.lines[0] == key_line(key) && step.lines[1]
                == baseline_line(key)
            &&& works ==> (step.next matches Some(Probe::Memory(d)) && d.key == key && d.memory
                && d.start == 0 && d.end == 0x3ff && d.offset == 0 && step.lines[2]
                == d.begin_line())
        }),
{
}

/// With the key that worked the first 1024 bytes of memory are dumped, and then those of
/// EEPROM, whatever came of the first dump; the probe ends with the second.
pub proof fn lemma_baseline_is_dumped(d: Dump, keys: Seq<ReadKeyCandidate>, r: Seq<u8>)
    ensures
        ({
            let step = Probe::Memory(d).after(keys, r);
            &&& Probe::Memory(d).command(keys) == d.command()
            &&& step.lines == d.after(r).lines && step.closing == d.after(r).closing
                && step.pause_ms == d.after(r).pause_ms
            &&& d.after(r).next matches Some(next) ==> step.next == Some(Probe::Memory(next))
            &&& d.after(r).next is None ==> (step.next matches Some(Probe::Eeprom(e)) && e.key
                == d.key && !e.memory && e.start == 0 && e.end == 0x3ff && e.offset == 0 && e.unit
                is None)
        }),
        ({
            let step = Probe::Eeprom(d).after(keys, r);
            &&& Probe::Eeprom(d).command(keys) == d.command()
            &&& step.lines == d.after(r).lines && step.pause_ms == d.after(r).pause_ms
            &&& d.after(r).next matches Some(next) ==> step.next == Some(Probe::Eeprom(next))
                && step.closing == d.after(r).closing
            &&& d.after(r).next is None ==> step.next is None && step.closing == d.after(
                r,
            ).closing.push(probe_end_line(d.key))
        }),
{
}

/// The lines of a probe, word for word.
pub proof fn lemma_probe_lines(n: u8, key: u16, r: Seq<u8>)
    ensures
        sample_line(n, r) == "SERPROBE ID sample=".spec_bytes() + decimal(n as nat)
            + " ".spec_bytes() + trimmed_end(r),
        key_line(key) == "SERPROBE READ_KEY key=0x".spec_bytes() + hex(key as nat, 4)
            + " result=ok".spec_bytes(),
        valid_utf8(r) ==> failed_key_line(key, r) == "SERPROBE READ_KEY key=0x".spec_bytes() + hex(
            key as nat,
            4,
        ) + " result=failed ".spec_bytes() + ("response=".spec_bytes() + trimmed_end(r)),
        !valid_utf8(r) ==> failed_key_line(key, r) == "SERPROBE READ_KEY key=0x".spec_bytes() + hex(
            key as nat,
            4,
        ) + " result=failed ".spec_bytes() + "invalid-response-encoding".spec_bytes(),
        baseline_line(key) == "SERPROBE BASELINE key=0x".spec_bytes() + hex(key as nat, 4)
            + " memory=0x0000..0x03ff eeprom-bytes=0x0000..0x03ff".spec_bytes(),
        probe_end_line(key) == "SERPROBE END key=0x".spec_bytes() + hex(key as nat, 4),
        no_key_line()
            == "SERPROBE END no-known-read-key; use diag find-read-key only after reviewing the result".spec_bytes(),
        whole_blocks(0, 0x3ff),
{
}

} // verus!

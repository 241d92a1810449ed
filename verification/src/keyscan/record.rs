//! The stored record of a scan job: 32 little-endian words with a CRC.

use super::state::{Phase, State};
use vstd::prelude::*;

verus! {

/// The length of a record.
pub const RECORD: u32 = 128;

/// The bytes of "FKS3" as a little-endian word: the record format.
pub const MAGIC: u32 = 0x33534b46;

/// The bytes of "DONE" as a little-endian word: the commit mark.
pub const COMMIT: u32 = 0x454e4f44;

// ---------------------------------------------------------------------------
// Little-endian words
// ---------------------------------------------------------------------------
/// Byte `i` of a little-endian word.
pub open spec fn le_byte(w: u32, i: int) -> u8 {
    if i == 0 {
        (w & 0xff) as u8
    } else if i == 1 {
        ((w >> 8) & 0xff) as u8
    } else if i == 2 {
        ((w >> 16) & 0xff) as u8
    } else {
        ((w >> 24) & 0xff) as u8
    }
}

/// The word that four bytes write.
pub open spec fn le_word(a: u8, b: u8, c: u8, d: u8) -> u32 {
    (a as u32) | ((b as u32) << 8) | ((c as u32) << 16) | ((d as u32) << 24)
}

/// The word at byte position `at`.
pub open spec fn word_at(s: Seq<u8>, at: int) -> u32 {
    le_word(s[at], s[at + 1], s[at + 2], s[at + 3])
}

/// A word is made of its bytes.
pub proof fn lemma_le_word(w: u32)
    ensures
        le_word(le_byte(w, 0), le_byte(w, 1), le_byte(w, 2), le_byte(w, 3)) == w,
{
    assert((((w & 0xff) as u8) as u32) | ((((w >> 8) & 0xff) as u8) as u32) << 8 | ((((w >> 16)
        & 0xff) as u8) as u32) << 16 | ((((w >> 24) & 0xff) as u8) as u32) << 24 == w)
        by (bit_vector);
}

/// A word gives its bytes back.
pub proof fn lemma_le_bytes(a: u8, b: u8, c: u8, d: u8)
    ensures
        le_byte(le_word(a, b, c, d), 0) == a,
        le_byte(le_word(a, b, c, d), 1) == b,
        le_byte(le_word(a, b, c, d), 2) == c,
        le_byte(le_word(a, b, c, d), 3) == d,
{
    let w = le_word(a, b, c, d);
    assert((w & 0xff) as u8 == a && ((w >> 8) & 0xff) as u8 == b && ((w >> 16) & 0xff) as u8 == c
        && ((w >> 24) & 0xff) as u8 == d) by (bit_vector)
        requires
            w == (a as u32) | ((b as u32) << 8) | ((c as u32) << 16) | ((d as u32) << 24),
    ;
}

/// Writes a word at byte position `at`.
pub fn put(b: &mut [u8], at: usize, v: u32)
    requires
        at + 4 <= old(b)@.len(),
    ensures
        final(b)@ == old(b)@.update(at as int, le_byte(v, 0)).update(at + 1, le_byte(v, 1)).update(
            at + 2,
            le_byte(v, 2),
        ).update(at + 3, le_byte(v, 3)),
{
    b[at] = (v & 0xff) as u8;
    b[at + 1] = ((v >> 8) & 0xff) as u8;
    b[at + 2] = ((v >> 16) & 0xff) as u8;
    b[at + 3] = ((v >> 24) & 0xff) as u8;
}

/// Reads the word at byte position `at`.
pub fn get(b: &[u8], at: usize) -> (r: u32)
    requires
        at + 4 <= b@.len(),
    ensures
        r == word_at(b@, at as int),
{
    (b[at] as u32) | ((b[at + 1] as u32) << 8) | ((b[at + 2] as u32) << 16) | ((b[at + 3] as u32)
        << 24)
}

// ---------------------------------------------------------------------------
// CRC-32
// ---------------------------------------------------------------------------
/// One step of the reflected polynomial division.
pub open spec fn crc_bit(c: u32) -> u32 {
    if c & 1 == 1 {
        (c >> 1) ^ 0xedb88320
    } else {
        c >> 1
    }
}

/// `n` steps of the division.
pub open spec fn crc_bits(c: u32, n: nat) -> u32
    decreases n,
{
    if n == 0 {
        c
    } else {
        crc_bit(crc_bits(c, (n - 1) as nat))
    }
}

/// The division register after the bytes of `s`, starting from all ones.
pub open spec fn crc_register(s: Seq<u8>) -> u32
    decreases s.len(),
{
    if s.len() == 0 {
        0xffff_ffff
    } else {
        crc_bits(crc_register(s.drop_last()) ^ (s.last() as u32), 8)
    }
}

/// The CRC-32 of a byte string, as in IEEE 802.3.
pub open spec fn crc32(s: Seq<u8>) -> u32 {
    !crc_register(s)
}

/// Computes the CRC-32 of a byte string.
pub fn crc(bytes: &[u8]) -> (r: u32)
    ensures
        r == crc32(bytes@),
{
    let mut c: u32 = 0xffff_ffff;
    for i in 0..bytes.len()
        invariant
            c == crc_register(bytes@.subrange(0, i as int)),
    {
        proof {
            let next = bytes@.subrange(0, i + 1);
            assert(next.drop_last() =~= bytes@.subrange(0, i as int));
        }
        c = c ^ (bytes[i] as u32);
        let ghost start = c;
        for j in 0..8u8
            invariant
                c == crc_bits(start, j as nat),
        {
            assert(c & 1 == 0 || c & 1 == 1) by (bit_vector);
            assert(0xedb88320u32 & 0xffff_ffffu32 == 0xedb88320u32) by (bit_vector);
            assert(0xedb88320u32 & 0u32 == 0u32) by (bit_vector);
            assert((c >> 1) ^ 0u32 == c >> 1) by (bit_vector);
            c = (c >> 1) ^ (0xedb88320u32 & 0u32.wrapping_sub(c & 1));
        }
    }
    assert(bytes@.subrange(0, bytes@.len() as int) =~= bytes@);
    !c
}

// ---------------------------------------------------------------------------
// Records
// ---------------------------------------------------------------------------
/// Word `k` of the checked part of a record. The words hold, in order, the
/// format, the sequence number, the phase, the twelve numbers of the job and
/// erased flash.
pub open spec fn payload_word(state: State, sequence: u32, k: int) -> u32 {
    if k == 0 {
        MAGIC
    } else if k == 1 {
        sequence
    } else if k == 2 {
        0xffff_ff00u32 | state.phase.number() as u32
    } else if k == 3 {
        state.software_id as u32
    } else if k == 4 {
        state.start as u32
    } else if k == 5 {
        state.end as u32
    } else if k == 6 {
        state.next
    } else if k == 7 {
        state.minimum_ms as u32
    } else if k == 8 {
        state.timeout_ms as u32
    } else if k == 9 {
        state.maximum_ms as u32
    } else if k == 10 {
        state.known_mask
    } else if k == 11 {
        match state.found {
            None => 0x10000,
            Some(key) => key as u32,
        }
    } else if k == 12 {
        state.errors
    } else if k == 13 {
        state.increases
    } else if k == 14 {
        state.tested
    } else {
        0xffff_ffff
    }
}

/// The part of a record that its CRC covers.
pub open spec fn payload(state: State, sequence: u32) -> Seq<u8> {
    Seq::new(120, |i: int| le_byte(payload_word(state, sequence, i / 4), i % 4))
}

/// The record of a job: its payload, the CRC of that and the commit mark.
pub open spec fn record(state: State, sequence: u32) -> Seq<u8> {
    Seq::new(
        128,
        |i: int|
            if i < 120 {
                payload(state, sequence)[i]
            } else if i < 124 {
                le_byte(crc32(payload(state, sequence)), i - 120)
            } else {
                le_byte(COMMIT, i - 124)
            },
    )
}

/// The job that the payload of a record holds, if every field is in range.
pub open spec fn stored_state(b: Seq<u8>) -> Option<State> {
    let s = State {
        phase: Phase::of_number(b[8]).unwrap(),
        software_id: word_at(b, 12) as u16,
        start: word_at(b, 16) as u16,
        end: word_at(b, 20) as u16,
        next: word_at(b, 24),
        minimum_ms: word_at(b, 28) as u16,
        timeout_ms: word_at(b, 32) as u16,
        maximum_ms: word_at(b, 36) as u16,
        known_mask: word_at(b, 40),
        found: if word_at(b, 44) == 0x10000 {
            None
        } else {
            Some(word_at(b, 44) as u16)
        },
        errors: word_at(b, 48),
        increases: word_at(b, 52),
        tested: word_at(b, 56),
    };
    if Phase::of_number(b[8]) is Some && word_at(b, 12) <= 0xffff && word_at(b, 16) <= 0xffff
        && word_at(b, 20) <= 0xffff && word_at(b, 28) <= 0xffff && word_at(b, 32) <= 0xffff
        && word_at(b, 36) <= 0xffff && word_at(b, 44) <= 0x10000 && s.well_formed() {
        Some(s)
    } else {
        None
    }
}

/// `b` carries the format, the commit mark and the CRC of its payload.
pub open spec fn committed(b: Seq<u8>) -> bool {
    &&& b.len() == 128
    &&& word_at(b, 0) == MAGIC
    &&& word_at(b, 124) == COMMIT
    &&& word_at(b, 120) == crc32(b.subrange(0, 120))
}

/// The sequence number and job of a committed, well-formed record.
pub open spec fn decoded(b: Seq<u8>) -> Option<(u32, State)> {
    if committed(b) && stored_state(b) is Some {
        Some((word_at(b, 4), stored_state(b).unwrap()))
    } else {
        None
    }
}

fn payload_word_of(state: State, sequence: u32, k: usize) -> (r: u32)
    ensures
        r == payload_word(state, sequence, k as int),
{
    match k {
        0 => MAGIC,
        1 => sequence,
        2 => 0xffff_ff00u32 | state.phase.code() as u32,
        3 => u32::from(state.software_id),
        4 => u32::from(state.start),
        5 => u32::from(state.end),
        6 => state.next,
        7 => u32::from(state.minimum_ms),
        8 => u32::from(state.timeout_ms),
        9 => u32::from(state.maximum_ms),
        10 => state.known_mask,
        11 => match state.found {
            None => 0x10000,
            Some(key) => u32::from(key),
        },
        12 => state.errors,
        13 => state.increases,
        14 => state.tested,
        _ => 0xffff_ffff,
    }
}

/// Makes the record of a job.
pub fn encode(state: State, sequence: u32) -> (r: [u8; 128])
    ensures
        r@ == record(state, sequence),
{
    let mut b: [u8; 128] = [0xff; 128];
    for k in 0..30usize
        invariant
            b@.len() == 128,
            forall|i: int| 0 <= i < 4 * k ==> b@[i] == #[trigger] payload(state, sequence)[i],
    {
        let w = payload_word_of(state, sequence, k);
        put(&mut b, 4 * k, w);
        assert forall|i: int| 4 * k <= i < 4 * k + 4 implies b@[i] == #[trigger] payload(
            state,
            sequence,
        )[i] by {
            assert(i / 4 == k && i % 4 == i - 4 * k);
        }
    }
    assert(b@.subrange(0, 120) =~= payload(state, sequence));
    let sum = crc(vstd::slice::slice_subrange(&b, 0, 120));
    put(&mut b, 120, sum);
    put(&mut b, 124, COMMIT);
    assert(b@ =~= record(state, sequence));
    b
}

fn small(w: u32) -> (r: Option<u16>)
    ensures
        r == if w <= 0xffff {
            Some(w as u16)
        } else {
            None
        },
{
    if w <= 0xffff {
        Some(w as u16)
    } else {
        None
    }
}

/// Reads a record: its sequence number and job, if it was committed whole.
pub fn decode(b: &[u8; 128]) -> (r: Option<(u32, State)>)
    ensures
        r == decoded(b@),
        r matches Some((_, s)) ==> s.well_formed(),
{
    decode_bytes(b)
}

/// As `decode`, of bytes that a flash read returned.
pub fn decode_bytes(b: &[u8]) -> (r: Option<(u32, State)>)
    requires
        b@.len() == 128,
    ensures
        r == decoded(b@),
        r matches Some((_, s)) ==> s.well_formed(),
{
    if get(b, 0) != MAGIC || get(b, 124) != COMMIT || get(b, 120) != crc(
        vstd::slice::slice_subrange(b, 0, 120),
    ) {
        return None;
    }
    let phase = match Phase::from_code(b[8]) {
        Some(phase) => phase,
        None => return None,
    };
    let fields = (
        small(get(b, 12)),
        small(get(b, 16)),
        small(get(b, 20)),
        small(get(b, 28)),
        small(get(b, 36)),
        small(get(b, 32)),
    );
    let (id, start, end, minimum, maximum, timeout) = match fields {
        (Some(id), Some(start), Some(end), Some(minimum), Some(maximum), Some(timeout)) => (
            id,
            start,
            end,
            minimum,
            maximum,
            timeout,
        ),
        _ => return None,
    };
    let mut s = match State::start(id, start, end, minimum, maximum) {
        Some(s) => s,
        None => return None,
    };
    s.phase = phase;
    s.next = get(b, 24);
    s.timeout_ms = timeout;
    s.known_mask = get(b, 40);
    s.found = if get(b, 44) == 0x10000 {
        None
    } else {
        match small(get(b, 44)) {
            Some(key) => Some(key),
            None => return None,
        }
    };
    s.errors = get(b, 48);
    s.increases = get(b, 52);
    s.tested = get(b, 56);
    if s.next < u32::from(s.start) || s.next > u32::from(s.end) + 1 || s.timeout_ms < s.minimum_ms
        || s.timeout_ms > s.maximum_ms {
        return None;
    }
    Some((get(b, 4), s))
}

pub(crate) proof fn lemma_record_word(state: State, sequence: u32, k: int)
    requires
        0 <= k < 30,
    ensures
        word_at(record(state, sequence), 4 * k) == payload_word(state, sequence, k),
{
    let w = payload_word(state, sequence, k);
    let b = record(state, sequence);
    assert forall|j: int| 0 <= j < 4 implies b[4 * k + j] == le_byte(w, j) by {
        assert((4 * k + j) / 4 == k && (4 * k + j) % 4 == j);
    }
    assert(b[4 * k] == le_byte(w, 0)) by {
        assert(4 * k + 0 == 4 * k);
        assert(b[4 * k + 0] == le_byte(w, 0));
    }
    lemma_le_word(w);
}

/// Reading a record gives back what was written, for every well-formed job.
pub proof fn lemma_record_round_trip(state: State, sequence: u32)
    requires
        state.well_formed(),
    ensures
        decoded(record(state, sequence)) == Some((sequence, state)),
{
    let b = record(state, sequence);
    lemma_record_word(state, sequence, 0);
    lemma_record_word(state, sequence, 1);
    lemma_record_word(state, sequence, 3);
    lemma_record_word(state, sequence, 4);
    lemma_record_word(state, sequence, 5);
    lemma_record_word(state, sequence, 6);
    lemma_record_word(state, sequence, 7);
    lemma_record_word(state, sequence, 8);
    lemma_record_word(state, sequence, 9);
    lemma_record_word(state, sequence, 10);
    lemma_record_word(state, sequence, 11);
    lemma_record_word(state, sequence, 12);
    lemma_record_word(state, sequence, 13);
    lemma_record_word(state, sequence, 14);
    let n = state.phase.number();
    assert(b[8] == n) by {
        assert(b[8] == payload(state, sequence)[8]);
        assert(8int / 4 == 2 && 8int % 4 == 0);
        assert(((0xffff_ff00u32 | n as u32) & 0xff) as u8 == n) by (bit_vector);
    }
    lemma_le_word(crc32(payload(state, sequence)));
    lemma_le_word(COMMIT);
    assert(b.subrange(0, 120) =~= payload(state, sequence));
}

proof fn lemma_crc_bit_injective(c: u32, d: u32)
    requires
        crc_bit(c) == crc_bit(d),
    ensures
        c == d,
{
    assert(c == d) by (bit_vector)
        requires
            (if c & 1 == 1 {
                (c >> 1) ^ 0xedb88320u32
            } else {
                c >> 1
            }) == (if d & 1 == 1 {
                (d >> 1) ^ 0xedb88320u32
            } else {
                d >> 1
            }),
    ;
}

proof fn lemma_crc_bits_injective(c: u32, d: u32, n: nat)
    requires
        crc_bits(c, n) == crc_bits(d, n),
    ensures
        c == d,
    decreases n,
{
    if n > 0 {
        lemma_crc_bit_injective(crc_bits(c, (n - 1) as nat), crc_bits(d, (n - 1) as nat));
        lemma_crc_bits_injective(c, d, (n - 1) as nat);
    }
}

proof fn lemma_crc_register_separates(s: Seq<u8>, i: int, v: u8)
    requires
        0 <= i < s.len(),
        v != s[i],
    ensures
        crc_register(s.update(i, v)) != crc_register(s),
    decreases s.len(),
{
    let t = s.update(i, v);
    let a = crc_register(s.drop_last());
    let b = crc_register(t.drop_last());
    let x = s.last() as u32;
    let y = t.last() as u32;
    if i == s.len() - 1 {
        assert(t.drop_last() =~= s.drop_last());
        assert(a ^ x != a ^ y) by (bit_vector)
            requires
                x != y,
        ;
    } else {
        assert(t.drop_last() =~= s.drop_last().update(i, v));
        lemma_crc_register_separates(s.drop_last(), i, v);
        assert(a ^ x != b ^ x) by (bit_vector)
            requires
                a != b,
        ;
    }
    if crc_register(t) == crc_register(s) {
        lemma_crc_bits_injective(a ^ x, b ^ y, 8);
    }
}

/// The CRC tells apart any two byte strings that differ in one byte.
pub proof fn lemma_crc_detects_one_byte(s: Seq<u8>, i: int, v: u8)
    requires
        0 <= i < s.len(),
        v != s[i],
    ensures
        crc32(s.update(i, v)) != crc32(s),
{
    lemma_crc_register_separates(s, i, v);
    let a = crc_register(s);
    let b = crc_register(s.update(i, v));
    assert(!a != !b) by (bit_vector)
        requires
            a != b,
    ;
}

/// A committed record in which any one byte has changed does not read back.
pub proof fn lemma_changed_byte_is_ignored(b: Seq<u8>, i: int, v: u8)
    requires
        committed(b),
        0 <= i < 128,
        v != b[i],
    ensures
        decoded(b.update(i, v)) is None,
{
    let c = b.update(i, v);
    if i < 120 {
        lemma_crc_detects_one_byte(b.subrange(0, 120), i, v);
        assert(c.subrange(0, 120) =~= b.subrange(0, 120).update(i, v));
        assert(word_at(c, 120) == word_at(b, 120));
    } else if i < 124 {
        assert(c.subrange(0, 120) =~= b.subrange(0, 120));
        lemma_le_bytes(b[120], b[121], b[122], b[123]);
        lemma_le_bytes(c[120], c[121], c[122], c[123]);
        assert(word_at(c, 120) != word_at(b, 120));
    } else {
        lemma_le_bytes(b[124], b[125], b[126], b[127]);
        lemma_le_bytes(c[124], c[125], c[126], c[127]);
        assert(word_at(c, 124) != word_at(b, 124));
    }
}

/// A record that reads back holds a well-formed job.
pub proof fn lemma_decoded_is_well_formed(b: Seq<u8>)
    requires
        decoded(b) is Some,
    ensures
        decoded(b).unwrap().1.well_formed(),
{
}

/// Without its commit mark a record does not read back, whatever else it holds.
pub proof fn lemma_uncommitted_is_ignored(b: Seq<u8>)
    requires
        b.len() == 128,
        word_at(b, 124) != COMMIT,
    ensures
        decoded(b) is None,
{
}

} // verus!

//! Texts: what is written can be read again, and how lines fall into words.

use crate::header::{header_line, header_of, token_usable, HeaderError, HeaderReader};
use crate::header::{OTA_HEADER_CAPACITY, REQUEST_CAPACITY};
use crate::text::{decimal, digit, digit_value, digits_value, fields, first_index, first_word};
use crate::text::{has_prefix, hex, hex_bytes, is_blank, is_digit, lower, number, numeral};
use crate::text::{occurrence, open_fields, same_ignoring_case, second_part, signed, trimmed_end};
use crate::text::{white_at, white_end, word_end, word_start};
use vstd::prelude::*;
use vstd::string::*;
use vstd::utf8::*;

verus! {

// ---------------------------------------------------------------------------
// Numerals
// ---------------------------------------------------------------------------
/// The sixteen digits, each with its value; capital letters are digits too.
pub proof fn lemma_digits(d: int, b: u8)
    ensures
        0 <= d < 10 ==> digit(d) == 0x30 + d,
        10 <= d < 16 ==> digit(d) == 0x61 + (d - 10),
        0 <= d < 16 ==> digit_value(digit(d)) == Some(d as nat),
        0x41 <= b <= 0x46 ==> digit_value(b) == digit_value((b + 0x20) as u8) && digit_value(b)
            is Some,
        digit_value(b) is Some <==> 0x30 <= b <= 0x39 || 0x41 <= b <= 0x46 || 0x61 <= b <= 0x66,
{
}

/// A numeral has the digits of its base, as many as are wanted at least, and the value of
/// the number.
pub proof fn lemma_numeral_has_the_value(n: nat, base: nat, width: nat)
    requires
        2 <= base <= 16,
    ensures
        digits_value(numeral(n, base, width), base) == n,
        numeral(n, base, width).len() >= 1,
        numeral(n, base, width).len() >= width,
        forall|i: int|
            0 <= i < numeral(n, base, width).len() ==> is_digit(
                #[trigger] numeral(n, base, width)[i],
                base,
            ),
    decreases n, width,
{
    let s = numeral(n, base, width);
    if n < base && width <= 1 {
        assert(s =~= seq![digit(n as int)]);
        assert(s.drop_last() =~= Seq::<u8>::empty());
        assert(digits_value(s.drop_last(), base) == 0);
        assert(s.last() == digit(n as int));
        assert(0 * base == 0) by (nonlinear_arith);
    } else {
        let w: nat = if width > 1 {
            (width - 1) as nat
        } else {
            0
        };
        let q = n / base;
        let r = n % base;
        assert(q < n || (q == n && n == 0)) by (nonlinear_arith)
            requires
                q == n / base,
                base >= 2,
                n >= 0,
        ;
        assert(r < base) by (nonlinear_arith)
            requires
                r == n % base,
                base >= 2,
        ;
        assert(q * base + r == n) by (nonlinear_arith)
            requires
                q == n / base,
                r == n % base,
                base >= 2,
        ;
        if q < n || w < width {
            lemma_numeral_has_the_value(q, base, w);
        }
        let front = numeral(q, base, w);
        assert(s == front.push(digit(r as int)));
        assert(s.drop_last() =~= front);
        assert forall|i: int| 0 <= i < s.len() implies is_digit(#[trigger] s[i], base) by {
            if i < front.len() {
                assert(s[i] == front[i]);
            }
        }
    }
}

/// A byte has two hexadecimal digits, the upper half first.
pub proof fn lemma_byte_in_hex(b: u8)
    ensures
        hex(b as nat, 2) == seq![digit(b as int / 16), digit(b as int % 16)],
{
    reveal_with_fuel(numeral, 3);
    assert(hex(b as nat, 2) =~= seq![digit(b as int / 16), digit(b as int % 16)]);
}

/// Every byte is written with two digits, in order.
pub proof fn lemma_bytes_in_hex(data: Seq<u8>, i: int)
    requires
        0 <= i < data.len(),
    ensures
        hex_bytes(data).len() == 2 * data.len(),
        hex_bytes(data)[2 * i] == digit(data[i] as int / 16),
        hex_bytes(data)[2 * i + 1] == digit(data[i] as int % 16),
    decreases data.len(),
{
    lemma_byte_in_hex(data.last());
    let before = data.drop_last();
    if before.len() > 0 {
        let k = if i < before.len() {
            i
        } else {
            0
        };
        lemma_bytes_in_hex(before, k);
        assert(hex_bytes(before).len() == 2 * before.len());
        if i < before.len() {
            assert(before[i] == data[i]);
        }
    } else {
        assert(hex_bytes(before) =~= Seq::<u8>::empty());
    }
}

proof fn lemma_first_digit(n: nat, base: nat, width: nat)
    requires
        2 <= base <= 16,
    ensures
        numeral(n, base, width)[0] != 43,
        numeral(n, base, width)[0] != 45,
{
    lemma_numeral_has_the_value(n, base, width);
    assert(is_digit(numeral(n, base, width)[0], base));
}

/// What is written to a base is read to it, up to the largest number that is admitted and
/// no further; a plus sign before it changes nothing.
pub proof fn lemma_numeral_is_read(n: nat, base: nat, width: nat, max: nat)
    requires
        2 <= base <= 16,
    ensures
        n <= max ==> number(numeral(n, base, width), base, max) == Some(n),
        n > max ==> number(numeral(n, base, width), base, max) is None,
        n <= max ==> number(seq![43u8] + numeral(n, base, width), base, max) == Some(n),
{
    lemma_numeral_has_the_value(n, base, width);
    lemma_first_digit(n, base, width);
    let s = numeral(n, base, width);
    assert((seq![43u8] + s).skip(1) =~= s);
}

/// What is read is written with digits, and at most one plus sign; an empty text is no
/// number.
pub proof fn lemma_numbers_have_digits(s: Seq<u8>, base: nat, max: nat, i: int)
    ensures
        number(s, base, max) matches Some(n) ==> n <= max,
        number(s, base, max) is Some ==> s.len() > 0,
        number(s, base, max) is Some && 0 < i < s.len() ==> is_digit(s[i], base),
        number(s, base, max) is Some ==> s[0] == 43 && s.len() > 1 || is_digit(s[0], base),
{
    let d = crate::text::unsigned_part(s);
    if number(s, base, max) is Some {
        assert(is_digit(d[0], base));
        if 0 < i < s.len() {
            if s[0] == 43 {
                assert(d[i - 1] == s[i]);
                assert(is_digit(d[i - 1], base));
            } else {
                assert(is_digit(d[i], base));
            }
        }
    }
}

/// A negative number has a minus sign before its amount, and no other number has one.
pub proof fn lemma_signed_numbers(n: int)
    ensures
        n >= 0 ==> signed(n) == decimal(n as nat) && signed(n)[0] != 45,
        n < 0 ==> signed(n) == seq![45u8] + decimal((-n) as nat),
{
    reveal_strlit("-");
    is_ascii_spec_bytes("-");
    assert("-".spec_bytes() =~= seq![45u8]);
    if n >= 0 {
        lemma_first_digit(n as nat, 10, 1);
    }
}

// ---------------------------------------------------------------------------
// Letter case
// ---------------------------------------------------------------------------
/// Only the 26 capital letters have another lower-case form.
pub proof fn lemma_letter_case(b: u8)
    ensures
        0x41 <= b <= 0x5a ==> lower(b) == b + 0x20,
        !(0x41 <= b <= 0x5a) ==> lower(b) == b,
        lower(lower(b)) == lower(b),
{
}

/// Agreement up to letter case is an equivalence that includes equality.
pub proof fn lemma_same_ignoring_case(a: Seq<u8>, b: Seq<u8>, c: Seq<u8>)
    ensures
        same_ignoring_case(a, a),
        same_ignoring_case(a, b) ==> same_ignoring_case(b, a),
        same_ignoring_case(a, b) && same_ignoring_case(b, c) ==> same_ignoring_case(a, c),
        same_ignoring_case(a, b) ==> a.len() == b.len(),
{
    if same_ignoring_case(a, b) && same_ignoring_case(b, c) {
        assert forall|i: int| 0 <= i < a.len() implies lower(#[trigger] a[i]) == lower(c[i]) by {
            assert(lower(b[i]) == lower(c[i]));
        }
    }
    if same_ignoring_case(a, b) {
        assert forall|i: int| 0 <= i < b.len() implies lower(#[trigger] b[i]) == lower(a[i]) by {
            assert(lower(a[i]) == lower(b[i]));
        }
    }
}

// ---------------------------------------------------------------------------
// Fields
// ---------------------------------------------------------------------------
/// A word: at least one byte, and no blank among them.
pub open spec fn is_word(s: Seq<u8>) -> bool {
    s.len() > 0 && forall|i: int| 0 <= i < s.len() ==> !is_blank(#[trigger] s[i])
}

/// Space, tab, line feed, form feed and carriage return are blanks, and nothing else is.
pub proof fn lemma_blanks(b: u8)
    ensures
        is_blank(b) <==> b == 0x20 || b == 0x09 || b == 0x0a || b == 0x0c || b == 0x0d,
{
}

proof fn lemma_open_word(s: Seq<u8>)
    requires
        forall|i: int| 0 <= i < s.len() ==> !is_blank(#[trigger] s[i]),
    ensures
        open_fields(s) == (Seq::<Seq<u8>>::empty(), s),
    decreases s.len(),
{
    if s.len() > 0 {
        let t = s.drop_last();
        assert forall|i: int| 0 <= i < t.len() implies !is_blank(#[trigger] t[i]) by {
            assert(t[i] == s[i]);
        }
        lemma_open_word(t);
        assert(!is_blank(s[s.len() - 1]));
        assert(t.push(s.last()) =~= s);
    } else {
        assert(s =~= Seq::<u8>::empty());
    }
}

/// A word is one field.
pub proof fn lemma_word_is_a_field(s: Seq<u8>)
    requires
        is_word(s),
    ensures
        fields(s) == seq![s],
{
    lemma_open_word(s);
    assert(fields(s) =~= seq![s]);
}

/// Nothing has no field.
pub proof fn lemma_nothing_has_no_field()
    ensures
        fields(Seq::empty()) == Seq::<Seq<u8>>::empty(),
{
}

proof fn lemma_open_behind_blank(a: Seq<u8>, blank: u8, b: Seq<u8>)
    requires
        is_blank(blank),
    ensures
        open_fields(a + seq![blank] + b).0 == fields(a) + open_fields(b).0,
        open_fields(a + seq![blank] + b).1 == open_fields(b).1,
    decreases b.len(),
{
    let s = a + seq![blank] + b;
    if b.len() == 0 {
        assert(s.drop_last() =~= a);
        assert(s.last() == blank);
        assert(fields(a) + open_fields(b).0 =~= fields(a));
    } else {
        let c = b.drop_last();
        lemma_open_behind_blank(a, blank, c);
        assert(s.drop_last() =~= a + seq![blank] + c);
        assert(s.last() == b.last());
        assert(open_fields(s).0 =~= fields(a) + open_fields(b).0);
    }
}

/// A blank parts the fields before it from those behind it. With the fields of a word this
/// says what the fields of any line are.
pub proof fn lemma_blank_parts_fields(a: Seq<u8>, blank: u8, b: Seq<u8>)
    requires
        is_blank(blank),
    ensures
        fields(a + seq![blank] + b) == fields(a) + fields(b),
{
    lemma_open_behind_blank(a, blank, b);
    assert(fields(a + seq![blank] + b) =~= fields(a) + fields(b));
}

// ---------------------------------------------------------------------------
// Search
// ---------------------------------------------------------------------------
/// The first place of a byte: it stands there, and at no place before it.
pub proof fn lemma_first_place(s: Seq<u8>, b: u8, i: int)
    ensures
        0 <= first_index(s, b) <= s.len(),
        first_index(s, b) < s.len() ==> s[first_index(s, b)] == b,
        0 <= i < first_index(s, b) ==> s[i] != b,
    decreases s.len(),
{
    if s.len() > 0 && s[0] != b {
        lemma_first_place(s.skip(1), b, i - 1);
        if 0 < i < first_index(s, b) {
            assert(s.skip(1)[i - 1] == s[i]);
        }
    }
}

/// A text begins with a prefix if and only if something can follow it there.
pub proof fn lemma_prefix(prefix: Seq<u8>, rest: Seq<u8>)
    ensures
        has_prefix(prefix + rest, prefix),
        rest.len() > 0 ==> !has_prefix(prefix, prefix + rest),
{
    assert((prefix + rest).subrange(0, prefix.len() as int) =~= prefix);
}

/// An occurrence stands where it is found, and nowhere before.
pub proof fn lemma_first_occurrence(s: Seq<u8>, pattern: Seq<u8>, from: int, i: int)
    requires
        0 <= from,
    ensures
        occurrence(s, pattern, from) matches Some(at) ==> from <= at <= s.len() && has_prefix(
            s.skip(at),
            pattern,
        ) && (from <= i < at ==> !has_prefix(s.skip(i), pattern)),
        occurrence(s, pattern, from) is None && from <= i <= s.len() ==> !has_prefix(
            s.skip(i),
            pattern,
        ),
    decreases s.len() + 1 - from,
{
    if from <= s.len() && !has_prefix(s.skip(from), pattern) {
        lemma_first_occurrence(s, pattern, from + 1, i);
    }
}

/// The second part stands behind the first occurrence and ends before the next one.
pub proof fn lemma_second_part(s: Seq<u8>, pattern: Seq<u8>)
    ensures
        second_part(s, pattern) is Some <==> occurrence(s, pattern, 0) is Some,
        second_part(s, pattern) matches Some(part) ==> (occurrence(s, pattern, 0) matches Some(at)
            && has_prefix(s.skip(at + pattern.len()), part)),
{
    lemma_first_occurrence(s, pattern, 0, 0);
    if let Some(at) = occurrence(s, pattern, 0) {
        let rest = s.skip(at + pattern.len());
        lemma_first_occurrence(rest, pattern, 0, 0);
        match occurrence(rest, pattern, 0) {
            Some(j) => {
                assert(rest.subrange(0, j) =~= rest.subrange(0, rest.subrange(0, j).len() as int));
            },
            None => {
                assert(rest.subrange(0, rest.len() as int) =~= rest);
            },
        }
    }
}

// ---------------------------------------------------------------------------
// White space
// ---------------------------------------------------------------------------
/// What remains of a text without the white space at its end does not end in any, and is
/// what the text begins with; a line feed more changes nothing.
pub proof fn lemma_trimmed_text(s: Seq<u8>)
    ensures
        has_prefix(s, trimmed_end(s)),
        white_end(trimmed_end(s)) == 0,
        white_end(s) == 0 ==> trimmed_end(s) == s,
    decreases s.len(),
{
    if white_end(s) > 0 {
        let t = s.subrange(0, s.len() - white_end(s));
        lemma_trimmed_text(t);
        let r = trimmed_end(s);
        assert(t.subrange(0, r.len() as int) =~= s.subrange(0, r.len() as int));
    } else {
        assert(s.subrange(0, s.len() as int) =~= s);
    }
}

/// The blanks at the end do not matter.
pub proof fn lemma_blank_end_is_trimmed(s: Seq<u8>, b: u8)
    requires
        b == 0x20 || 0x09 <= b <= 0x0d,
    ensures
        trimmed_end(s.push(b)) == trimmed_end(s),
{
    let t = s.push(b);
    assert(t[t.len() - 1] == b);
    assert(white_at(t, t.len() - 1) == 1);
    assert(t.subrange(0, t.len() - 1) =~= s);
}

/// Printable ASCII is no white space, and neither is an unfinished character.
pub proof fn lemma_white_space(s: Seq<u8>, i: int)
    requires
        0 <= i < s.len(),
    ensures
        0x21 <= s[i] < 0xc2 ==> white_at(s, i) == 0,
        s[i] < 0x21 ==> (white_at(s, i) == 1 <==> s[i] == 0x20 || 0x09 <= s[i] <= 0x0d),
        white_at(s, i) > 0 ==> i + white_at(s, i) <= s.len(),
        white_at(s, i) == 2 ==> s[i] == 0xc2,
        white_at(s, i) == 3 ==> s[i] == 0xe1 || s[i] == 0xe2 || s[i] == 0xe3,
{
}

/// The white-space characters of more than one byte, by their encodings: next line and
/// no-break space; ogham space, the spaces from U+2000 on, the two separators, the narrow and
/// the mathematical space, and the ideographic one.
pub proof fn lemma_wide_white_space(s: Seq<u8>, i: int)
    requires
        0 <= i < s.len(),
    ensures
        white_at(s, i) == 2 <==> i + 1 < s.len() && s[i] == 0xc2 && (s[i + 1] == 0x85 || s[i + 1]
            == 0xa0),
        white_at(s, i) == 3 <==> i + 2 < s.len() && ((s[i] == 0xe1 && s[i + 1] == 0x9a && s[i + 2]
            == 0x80) || (s[i] == 0xe2 && s[i + 1] == 0x80 && 0x80 <= s[i + 2] <= 0x8a) || (s[i]
            == 0xe2 && s[i + 1] == 0x80 && (s[i + 2] == 0xa8 || s[i + 2] == 0xa9 || s[i + 2]
            == 0xaf)) || (s[i] == 0xe2 && s[i + 1] == 0x81 && s[i + 2] == 0x9f) || (s[i] == 0xe3
            && s[i + 1] == 0x80 && s[i + 2] == 0x80)),
        white_at(s, i) == 0 || white_at(s, i) == 1 || white_at(s, i) == 2 || white_at(s, i) == 3,
        white_at(s, s.len() as int) == 0,
{
}

proof fn lemma_word_bounds(s: Seq<u8>, i: int, j: int)
    requires
        0 <= i <= s.len(),
    ensures
        i <= word_end(s, i) <= s.len(),
        i <= j < word_end(s, i) ==> white_at(s, j) == 0,
        word_end(s, i) < s.len() ==> white_at(s, word_end(s, i)) > 0,
    decreases s.len() - i,
{
    if i < s.len() && !(white_at(s, i) > 0) {
        lemma_word_bounds(s, i + 1, j);
    }
}

proof fn lemma_word_begins(s: Seq<u8>, i: int)
    requires
        0 <= i <= s.len(),
    ensures
        i <= word_start(s, i) <= s.len(),
        word_start(s, i) < s.len() ==> white_at(s, word_start(s, i)) == 0,
    decreases s.len() - i,
{
    if i < s.len() && white_at(s, i) > 0 {
        lemma_white_space(s, i);
        lemma_word_begins(s, i + white_at(s, i));
    }
}

/// The first word is not empty, and a text that begins with one that a space ends has it as
/// its first word.
pub proof fn lemma_leading_word(s: Seq<u8>)
    ensures
        first_word(s) matches Some(w) ==> w.len() > 0,
        first_word(s) is None <==> word_start(s, 0) == s.len(),
{
    lemma_word_begins(s, 0);
    let i = word_start(s, 0);
    if i < s.len() {
        lemma_word_bounds(s, i, i);
    }
}

// ---------------------------------------------------------------------------
// Headers
// ---------------------------------------------------------------------------
proof fn lemma_no_feed(line: Seq<u8>, rest: Seq<u8>, capacity: int)
    requires
        forall|i: int| 0 <= i < line.len() ==> #[trigger] line[i] != 10,
        line.len() < capacity,
    ensures
        header_of(line + seq![10u8] + rest, capacity) == line + seq![10u8],
    decreases line.len(),
{
    let s = line + seq![10u8] + rest;
    if line.len() == 0 {
        assert(s[0] == 10);
        assert(line + seq![10u8] =~= seq![10u8]);
    } else {
        let t = line.drop_first();
        assert(s[0] == line[0]);
        assert forall|i: int| 0 <= i < t.len() implies #[trigger] t[i] != 10 by {
            assert(t[i] == line[i + 1]);
        }
        lemma_no_feed(t, rest, capacity - 1);
        assert(s.drop_first() =~= t + seq![10u8] + rest);
        assert(seq![line[0]] + (t + seq![10u8]) =~= line + seq![10u8]);
    }
}

proof fn lemma_cut_header(s: Seq<u8>, capacity: int)
    requires
        capacity >= 0,
        forall|i: int| 0 <= i < s.len() && i < capacity ==> #[trigger] s[i] != 10,
    ensures
        header_of(s, capacity).len() <= capacity,
        header_of(s, capacity).len() <= s.len(),
        forall|i: int|
            0 <= i < header_of(s, capacity).len() ==> #[trigger] header_of(s, capacity)[i] != 10,
    decreases capacity,
{
    if s.len() > 0 && capacity > 0 {
        let t = s.drop_first();
        assert(s[0] != 10);
        assert forall|i: int| 0 <= i < t.len() && i < capacity - 1 implies #[trigger] t[i]
            != 10 by {
            assert(t[i] == s[i + 1]);
        }
        lemma_cut_header(t, capacity - 1);
        let h = header_of(s, capacity);
        let g = header_of(t, capacity - 1);
        assert(h == seq![s[0]] + g);
        assert forall|i: int| 0 <= i < h.len() implies #[trigger] h[i] != 10 by {
            if i > 0 {
                assert(h[i] == g[i - 1]);
            }
        }
    }
}

/// The line of a request is what stands before the first line feed; what follows does not
/// matter.
pub proof fn lemma_first_line_is_read(line: Seq<u8>, rest: Seq<u8>, capacity: int)
    requires
        forall|i: int| 0 <= i < line.len() ==> #[trigger] line[i] != 10,
        line.len() < capacity,
    ensures
        valid_utf8(line) ==> header_line(header_of(line + seq![10u8] + rest, capacity)) == Ok::<
            Seq<u8>,
            HeaderError,
        >(line),
        !valid_utf8(line) ==> header_line(header_of(line + seq![10u8] + rest, capacity)) == Err::<
            Seq<u8>,
            HeaderError,
        >(HeaderError::Encoding),
{
    lemma_no_feed(line, rest, capacity);
    assert((line + seq![10u8]).drop_last() =~= line);
    assert((line + seq![10u8]).last() == 10);
}

/// Without a line feed within the capacity there is no request.
pub proof fn lemma_long_line_is_malformed(s: Seq<u8>, capacity: int)
    requires
        capacity >= 0,
        forall|i: int| 0 <= i < s.len() && i < capacity ==> #[trigger] s[i] != 10,
    ensures
        header_line(header_of(s, capacity)) == Err::<Seq<u8>, HeaderError>(HeaderError::Malformed),
{
    lemma_cut_header(s, capacity);
    let h = header_of(s, capacity);
    if h.len() > 0 {
        assert(h[h.len() - 1] != 10);
    }
}

/// No service runs without a token of its own.
pub proof fn lemma_tokens(token: Seq<u8>)
    ensures
        token_usable(token) <==> token.len() > 0 && token != "change-me".spec_bytes(),
        !token_usable(Seq::empty()),
        !token_usable("change-me".spec_bytes()),
{
}

/// A header is read up to its line feed, or until there is no room.
pub proof fn lemma_headers_end(h: HeaderReader)
    ensures
        h.wants_more() <==> h.read().len() < h.room() && (h.read().len() == 0 || h.read().last()
            != 10),
        OTA_HEADER_CAPACITY == 256,
        REQUEST_CAPACITY == 192,
{
}

} // verus!

//! Byte strings: comparison, numerals, fields and number parsing.
//!
//! Requests and responses are ASCII lines. Their grammar is stated here over
//! sequences of bytes; a literal text stands for its UTF-8 bytes.

use vstd::prelude::*;
use vstd::string::*;
use vstd::utf8::*;

verus! {

// ---------------------------------------------------------------------------
// Comparison
// ---------------------------------------------------------------------------
/// Tells whether two byte strings are equal.
pub fn same_bytes(a: &[u8], b: &[u8]) -> (r: bool)
    ensures
        r == (a@ == b@),
{
    if a.len() != b.len() {
        return false;
    }
    for i in 0..a.len()
        invariant
            a@.len() == b@.len(),
            forall|j: int| 0 <= j < i ==> a@[j] == b@[j],
    {
        if a[i] != b[i] {
            return false;
        }
    }
    assert(a@ =~= b@);
    true
}

/// Tells whether a byte string is exactly the given text.
pub fn is_text(a: &[u8], text: &str) -> (r: bool)
    ensures
        r == (a@ == text.spec_bytes()),
{
    same_bytes(a, text.as_bytes())
}

/// Tells whether two texts are equal.
pub fn same_text(a: &str, b: &str) -> (r: bool)
    ensures
        r == (a@ == b@),
{
    proof {
        encode_utf8_decode_utf8(a@);
        encode_utf8_decode_utf8(b@);
    }
    same_bytes(a.as_bytes(), b.as_bytes())
}

/// `s` begins with `prefix`.
pub open spec fn has_prefix(s: Seq<u8>, prefix: Seq<u8>) -> bool {
    prefix.len() <= s.len() && s.subrange(0, prefix.len() as int) == prefix
}

/// Tells whether a byte string begins with another.
pub fn starts_with(a: &[u8], prefix: &[u8]) -> (r: bool)
    ensures
        r == has_prefix(a@, prefix@),
{
    if prefix.len() > a.len() {
        return false;
    }
    same_bytes(vstd::slice::slice_subrange(a, 0, prefix.len()), prefix)
}

/// What follows a prefix, if the byte string begins with it.
pub open spec fn without_prefix(s: Seq<u8>, prefix: Seq<u8>) -> Option<Seq<u8>> {
    if has_prefix(s, prefix) {
        Some(s.skip(prefix.len() as int))
    } else {
        None
    }
}

/// The rest of `a` behind `prefix`, or nothing if `a` does not begin with it.
pub fn strip_prefix<'a>(a: &'a [u8], prefix: &[u8]) -> (r: Option<&'a [u8]>)
    ensures
        match r {
            Some(rest) => without_prefix(a@, prefix@) == Some(rest@),
            None => without_prefix(a@, prefix@) is None,
        },
{
    if starts_with(a, prefix) {
        let rest = vstd::slice::slice_subrange(a, prefix.len(), a.len());
        assert(rest@ =~= a@.skip(prefix@.len() as int));
        Some(rest)
    } else {
        None
    }
}

/// A copy of a byte string.
pub fn copy_of(a: &[u8]) -> (r: Vec<u8>)
    ensures
        r@ == a@,
{
    vstd::slice::slice_to_vec(a)
}

/// Appends a byte string.
pub fn push_bytes(out: &mut Vec<u8>, bytes: &[u8])
    ensures
        final(out)@ == old(out)@ + bytes@,
{
    let ghost before = out@;
    for i in 0..bytes.len()
        invariant
            out@ == before + bytes@.subrange(0, i as int),
    {
        out.push(bytes[i]);
        assert(out@ =~= before + bytes@.subrange(0, i + 1));
    }
    assert(bytes@.subrange(0, bytes@.len() as int) =~= bytes@);
}

/// Appends the bytes of a text.
pub fn push_text(out: &mut Vec<u8>, text: &str)
    ensures
        final(out)@ == old(out)@ + text.spec_bytes(),
{
    push_bytes(out, text.as_bytes());
}

/// The bytes of a text.
pub fn text_bytes(text: &str) -> (r: Vec<u8>)
    ensures
        r@ == text.spec_bytes(),
{
    copy_of(text.as_bytes())
}

/// Tells whether a byte string is valid UTF-8.
///
/// Trusted: `core::str::from_utf8` accepts exactly the valid UTF-8 strings.
#[verifier::external_body]
pub(crate) fn is_utf8(bytes: &[u8]) -> (r: bool)
    ensures
        r == valid_utf8(bytes@),
{
    core::str::from_utf8(bytes).is_ok()
}

// ---------------------------------------------------------------------------
// Letter case
// ---------------------------------------------------------------------------
/// The lower-case form of an ASCII letter; any other byte is itself.
pub open spec fn lower(b: u8) -> u8 {
    if 65 <= b <= 90 {
        (b + 32) as u8
    } else {
        b
    }
}

/// `a` and `b` agree up to the case of ASCII letters.
pub open spec fn same_ignoring_case(a: Seq<u8>, b: Seq<u8>) -> bool {
    a.len() == b.len() && forall|i: int| 0 <= i < a.len() ==> lower(#[trigger] a[i]) == lower(b[i])
}

fn lower_of(b: u8) -> (r: u8)
    ensures
        r == lower(b),
{
    if 65 <= b && b <= 90 {
        b + 32
    } else {
        b
    }
}

/// Tells whether two byte strings agree up to the case of ASCII letters.
pub fn equal_ignoring_case(a: &[u8], b: &[u8]) -> (r: bool)
    ensures
        r == same_ignoring_case(a@, b@),
{
    if a.len() != b.len() {
        return false;
    }
    for i in 0..a.len()
        invariant
            a@.len() == b@.len(),
            forall|j: int| 0 <= j < i ==> lower(#[trigger] a@[j]) == lower(b@[j]),
    {
        if lower_of(a[i]) != lower_of(b[i]) {
            return false;
        }
    }
    true
}

// ---------------------------------------------------------------------------
// Numerals
// ---------------------------------------------------------------------------
/// The ASCII digit of a value below 16, lower case.
pub open spec fn digit(d: int) -> u8 {
    if d < 10 {
        (48 + d) as u8
    } else {
        (87 + d) as u8
    }
}

/// The numeral of `n` to the base `base`, zero-padded to at least `width` digits.
pub open spec fn numeral(n: nat, base: nat, width: nat) -> Seq<u8>
    decreases n, width,
    when base >= 2
{
    if n < base && width <= 1 {
        seq![digit(n as int)]
    } else {
        proof {
            if n >= base {
                assert(n / base < n) by (nonlinear_arith)
                    requires
                        n >= base,
                        base >= 2,
                ;
            } else {
                assert(n / base == 0) by (nonlinear_arith)
                    requires
                        n < base,
                ;
            }
        }
        numeral(n / base, base, if width > 1 {
            (width - 1) as nat
        } else {
            0
        }).push(digit((n % base) as int))
    }
}

/// The decimal numeral of `n`.
pub open spec fn decimal(n: nat) -> Seq<u8> {
    numeral(n, 10, 1)
}

/// The hexadecimal numeral of `n` with at least `width` digits.
pub open spec fn hex(n: nat, width: nat) -> Seq<u8> {
    numeral(n, 16, width)
}

fn digit_of(d: u8) -> (r: u8)
    requires
        d < 16,
    ensures
        r == digit(d as int),
{
    if d < 10 {
        48 + d
    } else {
        87 + d
    }
}

/// Appends the numeral of `n` to the base `base` with at least `width` digits.
pub fn push_numeral(out: &mut Vec<u8>, n: u64, base: u64, width: u8)
    requires
        2 <= base <= 16,
    ensures
        final(out)@ == old(out)@ + numeral(n as nat, base as nat, width as nat),
    decreases n, width,
{
    let ghost before = out@;
    if n >= base || width > 1 {
        proof {
            if n >= base {
                assert(n / base < n) by (nonlinear_arith)
                    requires
                        n >= base,
                        base >= 2,
                ;
            } else {
                assert(n / base == 0) by (nonlinear_arith)
                    requires
                        n < base,
                ;
            }
        }
        push_numeral(out, n / base, base, if width > 1 {
            width - 1
        } else {
            0
        });
    }
    assert(0 <= n % base < base);
    out.push(digit_of((n % base) as u8));
    proof {
        if n < base && width <= 1 {
            assert(n % base == n) by (nonlinear_arith)
                requires
                    n < base,
            ;
        }
        assert(out@ =~= before + numeral(n as nat, base as nat, width as nat));
    }
}

/// Appends a decimal numeral.
pub fn push_decimal(out: &mut Vec<u8>, n: u64)
    ensures
        final(out)@ == old(out)@ + decimal(n as nat),
{
    push_numeral(out, n, 10, 1);
}

/// Appends a hexadecimal numeral with at least `width` digits.
pub fn push_hex(out: &mut Vec<u8>, n: u64, width: u8)
    ensures
        final(out)@ == old(out)@ + hex(n as nat, width as nat),
{
    push_numeral(out, n, 16, width);
}

/// The decimal numeral of a number with a sign.
pub open spec fn signed(n: int) -> Seq<u8> {
    if n < 0 {
        "-".spec_bytes() + decimal((-n) as nat)
    } else {
        decimal(n as nat)
    }
}

/// Appends the decimal numeral of a number with a sign.
pub fn push_signed(out: &mut Vec<u8>, n: i32)
    ensures
        final(out)@ == old(out)@ + signed(n as int),
{
    if n < 0 {
        push_text(out, "-");
        push_decimal(out, (-(n as i64)) as u64);
        assert(out@ =~= old(out)@ + signed(n as int));
    } else {
        push_decimal(out, n as u64);
    }
}

/// Two hexadecimal digits for each byte.
pub open spec fn hex_bytes(data: Seq<u8>) -> Seq<u8>
    decreases data.len(),
{
    if data.len() == 0 {
        Seq::empty()
    } else {
        hex_bytes(data.drop_last()) + hex(data.last() as nat, 2)
    }
}

/// Appends two hexadecimal digits for each byte.
pub fn push_hex_bytes(out: &mut Vec<u8>, data: &[u8])
    ensures
        final(out)@ == old(out)@ + hex_bytes(data@),
{
    let ghost before = out@;
    for i in 0..data.len()
        invariant
            out@ == before + hex_bytes(data@.subrange(0, i as int)),
    {
        proof {
            let next = data@.subrange(0, i + 1);
            assert(next.drop_last() =~= data@.subrange(0, i as int));
        }
        push_hex(out, data[i] as u64, 2);
        assert(out@ =~= before + hex_bytes(data@.subrange(0, i + 1)));
    }
    assert(data@.subrange(0, data@.len() as int) =~= data@);
}

// ---------------------------------------------------------------------------
// Number parsing
// ---------------------------------------------------------------------------
/// The value of an ASCII digit, in either case, below 16.
pub open spec fn digit_value(b: u8) -> Option<nat> {
    if 48 <= b <= 57 {
        Some((b - 48) as nat)
    } else if 97 <= b <= 102 {
        Some((b - 87) as nat)
    } else if 65 <= b <= 70 {
        Some((b - 55) as nat)
    } else {
        None
    }
}

/// `b` is a digit of the given base.
pub open spec fn is_digit(b: u8, base: nat) -> bool {
    digit_value(b) matches Some(d) && d < base
}

/// The value of a sequence of digits, most significant first.
pub open spec fn digits_value(s: Seq<u8>, base: nat) -> nat
    decreases s.len(),
{
    if s.len() == 0 {
        0
    } else {
        digits_value(s.drop_last(), base) * base + digit_value(s.last()).unwrap()
    }
}

/// `s` without one leading plus sign.
pub open spec fn unsigned_part(s: Seq<u8>) -> Seq<u8> {
    if s.len() > 0 && s[0] == 43 {
        s.skip(1)
    } else {
        s
    }
}

/// The number that `s` writes to the given base: an optional plus sign and one
/// or more digits, with a value of at most `max`.
pub open spec fn number(s: Seq<u8>, base: nat, max: nat) -> Option<nat> {
    let d = unsigned_part(s);
    if d.len() > 0 && (forall|i: int| 0 <= i < d.len() ==> is_digit(#[trigger] d[i], base))
        && digits_value(d, base) <= max {
        Some(digits_value(d, base))
    } else {
        None
    }
}

fn digit_value_of(b: u8) -> (r: Option<u64>)
    ensures
        match r {
            Some(d) => digit_value(b) == Some(d as nat) && d < 16,
            None => digit_value(b) is None,
        },
{
    if 48 <= b && b <= 57 {
        Some((b - 48) as u64)
    } else if 97 <= b && b <= 102 {
        Some((b - 87) as u64)
    } else if 65 <= b && b <= 70 {
        Some((b - 55) as u64)
    } else {
        None
    }
}

proof fn lemma_digits_value_monotone(s: Seq<u8>, base: nat, n: int)
    requires
        0 <= n <= s.len(),
        base >= 1,
    ensures
        digits_value(s.subrange(0, n), base) <= digits_value(s, base),
    decreases s.len() - n,
{
    if n < s.len() {
        lemma_digits_value_monotone(s, base, n + 1);
        let longer = s.subrange(0, n + 1);
        assert(longer.drop_last() =~= s.subrange(0, n));
        let v = digits_value(longer.drop_last(), base);
        assert(v * base >= v) by (nonlinear_arith)
            requires
                base >= 1,
        ;
    } else {
        assert(s.subrange(0, n) =~= s);
    }
}

/// Reads a number to the base `base`, no larger than `max`.
pub fn parse_number(s: &[u8], base: u64, max: u64) -> (r: Option<u64>)
    requires
        2 <= base <= 16,
        max <= 0xffff_ffff_ffff,
    ensures
        match r {
            Some(v) => number(s@, base as nat, max as nat) == Some(v as nat),
            None => number(s@, base as nat, max as nat) is None,
        },
{
    let start: usize = if s.len() > 0 && s[0] == 43 {
        1
    } else {
        0
    };
    let ghost d = unsigned_part(s@);
    assert(d =~= s@.skip(start as int));
    if start == s.len() {
        return None;
    }
    let mut value: u64 = 0;
    let mut i: usize = start;
    while i < s.len()
        invariant
            start <= i <= s@.len(),
            start <= 1,
            d == s@.skip(start as int),
            d == unsigned_part(s@),
            2 <= base <= 16,
            max <= 0xffff_ffff_ffff,
            value <= max,
            value == digits_value(d.subrange(0, i - start), base as nat),
            forall|j: int| 0 <= j < i - start ==> is_digit(#[trigger] d[j], base as nat),
        decreases s@.len() - i,
    {
        let b = s[i];
        assert(b == d[i - start]);
        let dv = match digit_value_of(b) {
            Some(dv) => dv,
            None => {
                assert(!is_digit(d[i - start], base as nat));
                return None;
            },
        };
        if dv >= base {
            assert(!is_digit(d[i - start], base as nat));
            return None;
        }
        assert(value * base + dv <= 0xffff_ffff_ffff * 16 + 16) by (nonlinear_arith)
            requires
                value <= 0xffff_ffff_ffff,
                0 <= base <= 16,
                dv < 16,
        ;
        let next = value * base + dv;
        proof {
            let longer = d.subrange(0, i - start + 1);
            assert(longer.drop_last() =~= d.subrange(0, i - start));
            assert(next == digits_value(longer, base as nat));
            lemma_digits_value_monotone(d, base as nat, i - start + 1);
        }
        if next > max {
            return None;
        }
        value = next;
        i = i + 1;
    }
    assert(d.subrange(0, i - start) =~= d);
    Some(value)
}

// ---------------------------------------------------------------------------
// Fields
// ---------------------------------------------------------------------------
/// An ASCII blank: space, tab, line feed, form feed or carriage return.
pub open spec fn is_blank(b: u8) -> bool {
    b == 32 || b == 9 || b == 10 || b == 12 || b == 13
}

/// The fields finished within `s`, and the field that its end leaves open.
pub open spec fn open_fields(s: Seq<u8>) -> (Seq<Seq<u8>>, Seq<u8>)
    decreases s.len(),
{
    if s.len() == 0 {
        (Seq::empty(), Seq::empty())
    } else {
        let (done, current) = open_fields(s.drop_last());
        if !is_blank(s.last()) {
            (done, current.push(s.last()))
        } else if current.len() == 0 {
            (done, current)
        } else {
            (done.push(current), Seq::empty())
        }
    }
}

/// The maximal runs of non-blank bytes of `s`, in order.
pub open spec fn fields(s: Seq<u8>) -> Seq<Seq<u8>> {
    let (done, current) = open_fields(s);
    if current.len() == 0 {
        done
    } else {
        done.push(current)
    }
}

/// The byte strings that a vector of vectors holds.
pub open spec fn contents(v: Seq<Vec<u8>>) -> Seq<Seq<u8>> {
    Seq::new(v.len(), |i: int| v[i]@)
}

/// Appends a line to lines.
pub fn push_line(out: &mut Vec<Vec<u8>>, line: Vec<u8>)
    ensures
        contents(final(out)@) == contents(old(out)@).push(line@),
{
    let ghost text = line@;
    out.push(line);
    assert(contents(out@) =~= contents(old(out)@).push(text));
}

/// No lines.
pub fn no_lines() -> (r: Vec<Vec<u8>>)
    ensures
        contents(r@) == Seq::<Seq<u8>>::empty(),
{
    let r: Vec<Vec<u8>> = Vec::new();
    assert(contents(r@) =~= Seq::empty());
    r
}

/// Splits a line into its fields.
pub fn split_fields(s: &[u8]) -> (r: Vec<Vec<u8>>)
    ensures
        contents(r@) == fields(s@),
{
    let mut done: Vec<Vec<u8>> = Vec::new();
    let mut current: Vec<u8> = Vec::new();
    assert(contents(done@) =~= Seq::empty());
    for i in 0..s.len()
        invariant
            open_fields(s@.subrange(0, i as int)) == (contents(done@), current@),
    {
        let b = s[i];
        proof {
            let next = s@.subrange(0, i + 1);
            assert(next.drop_last() =~= s@.subrange(0, i as int));
            assert(next.last() == b);
        }
        if !(b == 32 || b == 9 || b == 10 || b == 12 || b == 13) {
            current.push(b);
        } else if current.len() > 0 {
            let ghost before = done@;
            let ghost field = current@;
            done.push(current);
            assert(contents(done@) =~= contents(before).push(field));
            current = Vec::new();
            assert(current@ =~= Seq::empty());
        } else {
            assert(current@ =~= Seq::empty());
        }
    }
    assert(s@.subrange(0, s@.len() as int) =~= s@);
    if current.len() > 0 {
        let ghost before = done@;
        let ghost field = current@;
        done.push(current);
        assert(contents(done@) =~= contents(before).push(field));
    }
    done
}

/// The fields from position `n` on.
pub fn fields_behind(f: &[Vec<u8>], n: usize) -> (r: &[Vec<u8>])
    requires
        n <= f@.len(),
    ensures
        contents(r@) == contents(f@).skip(n as int),
{
    let r = vstd::slice::slice_subrange(f, n, f.len());
    assert(contents(r@) =~= contents(f@).skip(n as int));
    r
}

/// No field is empty and no field holds a blank.
pub proof fn lemma_fields_hold_no_blanks(s: Seq<u8>)
    ensures
        forall|i: int|
            0 <= i < fields(s).len() ==> (#[trigger] fields(s)[i]).len() > 0,
        forall|i: int, j: int|
            0 <= i < fields(s).len() && 0 <= j < fields(s)[i].len() ==> !is_blank(
                #[trigger] fields(s)[i][j],
            ),
{
    lemma_open_fields_hold_no_blanks(s);
}

proof fn lemma_open_fields_hold_no_blanks(s: Seq<u8>)
    ensures
        forall|i: int| 0 <= i < open_fields(s).0.len() ==> (#[trigger] open_fields(s).0[i]).len() > 0,
        forall|i: int, j: int|
            0 <= i < open_fields(s).0.len() && 0 <= j < open_fields(s).0[i].len() ==> !is_blank(
                #[trigger] open_fields(s).0[i][j],
            ),
        forall|j: int| 0 <= j < open_fields(s).1.len() ==> !is_blank(#[trigger] open_fields(s).1[j]),
    decreases s.len(),
{
    if s.len() > 0 {
        let (done, current) = open_fields(s.drop_last());
        lemma_open_fields_hold_no_blanks(s.drop_last());
        let now = open_fields(s).0;
        assert forall|i: int| 0 <= i < now.len() implies (#[trigger] now[i]).len() > 0 by {
            assert(now[i] == if i < done.len() {
                done[i]
            } else {
                current
            });
        }
        assert forall|i: int, j: int| 0 <= i < now.len() && 0 <= j < now[i].len() implies !is_blank(
            #[trigger] now[i][j],
        ) by {
            assert(now[i] == if i < done.len() {
                done[i]
            } else {
                current
            });
            if i < done.len() {
                assert(!is_blank(done[i][j]));
            }
        }
    }
}

// ---------------------------------------------------------------------------
// Separators
// ---------------------------------------------------------------------------
/// The position of the first `b` in `s`, or the length of `s`.
pub open spec fn first_index(s: Seq<u8>, b: u8) -> int
    decreases s.len(),
{
    if s.len() == 0 || s[0] == b {
        0
    } else {
        1 + first_index(s.skip(1), b)
    }
}

proof fn lemma_first_index(s: Seq<u8>, b: u8, n: int)
    requires
        0 <= n <= s.len(),
        forall|j: int| 0 <= j < n ==> s[j] != b,
        n == s.len() || s[n] == b,
    ensures
        first_index(s, b) == n,
    decreases s.len(),
{
    if n > 0 {
        assert forall|j: int| 0 <= j < n - 1 implies s.skip(1)[j] != b by {
            assert(s.skip(1)[j] == s[j + 1]);
        }
        lemma_first_index(s.skip(1), b, n - 1);
    }
}

/// The position of the first `b`, or the length.
pub fn index_of(s: &[u8], b: u8) -> (r: usize)
    ensures
        r == first_index(s@, b),
        r <= s@.len(),
        r < s@.len() ==> s@[r as int] == b,
        forall|j: int| 0 <= j < r ==> s@[j] != b,
{
    let mut i: usize = 0;
    while i < s.len()
        invariant
            i <= s@.len(),
            forall|j: int| 0 <= j < i ==> s@[j] != b,
        decreases s@.len() - i,
    {
        if s[i] == b {
            proof {
                lemma_first_index(s@, b, i as int);
            }
            return i;
        }
        i = i + 1;
    }
    proof {
        lemma_first_index(s@, b, i as int);
    }
    i
}

// ---------------------------------------------------------------------------
// White space
// ---------------------------------------------------------------------------
/// The length of the encoding of a Unicode white-space character that begins at
/// `i`, or 0 where there is none.
pub open spec fn white_at(s: Seq<u8>, i: int) -> int {
    let b = s[i];
    let c = s[i + 1];
    let d = s[i + 2];
    if i >= s.len() {
        0
    } else if b == 32 || 9 <= b <= 13 {
        1
    } else if i + 1 < s.len() && b == 0xc2 && (c == 0x85 || c == 0xa0) {
        2
    } else if i + 2 < s.len() && ((b == 0xe1 && c == 0x9a && d == 0x80) || (b == 0xe2 && c == 0x80
        && (0x80 <= d <= 0x8a || d == 0xa8 || d == 0xa9 || d == 0xaf)) || (b == 0xe2 && c == 0x81
        && d == 0x9f) || (b == 0xe3 && c == 0x80 && d == 0x80)) {
        3
    } else {
        0
    }
}

/// `s` holds a white-space character.
pub open spec fn has_white(s: Seq<u8>) -> bool {
    exists|i: int| 0 <= i < s.len() && #[trigger] white_at(s, i) > 0
}

/// The length of the white-space character that ends `s`, or 0.
pub open spec fn white_end(s: Seq<u8>) -> int {
    if s.len() >= 1 && white_at(s, s.len() - 1) == 1 {
        1
    } else if s.len() >= 2 && white_at(s, s.len() - 2) == 2 {
        2
    } else if s.len() >= 3 && white_at(s, s.len() - 3) == 3 {
        3
    } else {
        0
    }
}

/// `s` without the white space at its end.
pub open spec fn trimmed_end(s: Seq<u8>) -> Seq<u8>
    decreases s.len(),
{
    if white_end(s) > 0 {
        trimmed_end(s.subrange(0, s.len() - white_end(s)))
    } else {
        s
    }
}

/// The position of the first white-space character at or behind `i`, or the
/// length.
pub open spec fn word_end(s: Seq<u8>, i: int) -> int
    decreases s.len() - i,
{
    if i >= s.len() || white_at(s, i) > 0 {
        i
    } else {
        word_end(s, i + 1)
    }
}

/// The position behind the white space that begins at `i`.
pub open spec fn word_start(s: Seq<u8>, i: int) -> int
    decreases s.len() - i,
{
    if i < s.len() && white_at(s, i) > 0 {
        word_start(s, i + white_at(s, i))
    } else {
        i
    }
}

/// The first word of `s`, if it holds more than white space.
pub open spec fn first_word(s: Seq<u8>) -> Option<Seq<u8>> {
    let i = word_start(s, 0);
    if i < s.len() {
        Some(s.subrange(i, word_end(s, i)))
    } else {
        None
    }
}

fn white_length(s: &[u8], i: usize) -> (r: usize)
    requires
        i < s@.len(),
    ensures
        r == white_at(s@, i as int),
        r <= 3,
        i + r <= s@.len(),
{
    let n = s.len();
    let b = s[i];
    if b == 32 || (9 <= b && b <= 13) {
        return 1;
    }
    if n - i < 2 {
        return 0;
    }
    let c = s[i + 1];
    if b == 0xc2 && (c == 0x85 || c == 0xa0) {
        return 2;
    }
    if n - i < 3 {
        return 0;
    }
    let d = s[i + 2];
    if (b == 0xe1 && c == 0x9a && d == 0x80) || (b == 0xe2 && c == 0x80 && ((0x80 <= d && d <= 0x8a)
        || d == 0xa8 || d == 0xa9 || d == 0xaf)) || (b == 0xe2 && c == 0x81 && d == 0x9f) || (b
        == 0xe3 && c == 0x80 && d == 0x80) {
        return 3;
    }
    0
}

/// Tells whether a text holds white space.
pub fn holds_white(s: &[u8]) -> (r: bool)
    ensures
        r == has_white(s@),
{
    for i in 0..s.len()
        invariant
            forall|j: int| 0 <= j < i ==> #[trigger] white_at(s@, j) <= 0,
    {
        if white_length(s, i) > 0 {
            assert(white_at(s@, i as int) > 0);
            return true;
        }
    }
    false
}

/// Removes the white space at the end of a text.
pub fn trim_end(s: &[u8]) -> (r: &[u8])
    ensures
        r@ == trimmed_end(s@),
{
    let mut n: usize = s.len();
    assert(s@.subrange(0, n as int) =~= s@);
    loop
        invariant
            n <= s@.len(),
            trimmed_end(s@) == trimmed_end(s@.subrange(0, n as int)),
        decreases n,
    {
        let t = vstd::slice::slice_subrange(s, 0, n);
        let mut k: usize = 0;
        if n >= 1 && white_length(t, n - 1) == 1 {
            k = 1;
        } else if n >= 2 && white_length(t, n - 2) == 2 {
            k = 2;
        } else if n >= 3 && white_length(t, n - 3) == 3 {
            k = 3;
        }
        if k == 0 {
            return t;
        }
        assert(t@.subrange(0, n - k) =~= s@.subrange(0, n - k));
        n = n - k;
    }
}

/// The first word of a text, if there is one.
pub fn leading_word(s: &[u8]) -> (r: Option<&[u8]>)
    ensures
        r matches Some(w) ==> first_word(s@) == Some(w@),
        r is None ==> first_word(s@) is None,
{
    let mut i: usize = 0;
    while i < s.len() && white_length(s, i) > 0
        invariant
            i <= s@.len(),
            word_start(s@, 0) == word_start(s@, i as int),
        decreases s@.len() - i,
    {
        i = i + white_length(s, i);
    }
    if i >= s.len() {
        return None;
    }
    let mut j: usize = i;
    while j < s.len() && white_length(s, j) == 0
        invariant
            i <= j <= s@.len(),
            word_end(s@, i as int) == word_end(s@, j as int),
        decreases s@.len() - j,
    {
        j = j + 1;
    }
    Some(vstd::slice::slice_subrange(s, i, j))
}

// ---------------------------------------------------------------------------
// Search
// ---------------------------------------------------------------------------
/// The position of the first occurrence of `pattern` at or behind `i`, if any.
pub open spec fn occurrence(s: Seq<u8>, pattern: Seq<u8>, i: int) -> Option<int>
    decreases s.len() + 1 - i,
{
    if i > s.len() {
        None
    } else if has_prefix(s.skip(i), pattern) {
        Some(i)
    } else {
        occurrence(s, pattern, i + 1)
    }
}

/// The part of `s` between the first occurrence of `pattern` and the next, or the
/// end.
pub open spec fn second_part(s: Seq<u8>, pattern: Seq<u8>) -> Option<Seq<u8>> {
    match occurrence(s, pattern, 0) {
        Some(i) => {
            let rest = s.skip(i + pattern.len());
            match occurrence(rest, pattern, 0) {
                Some(j) => Some(rest.subrange(0, j)),
                None => Some(rest),
            }
        },
        None => None,
    }
}

/// Finds the first occurrence of a pattern.
pub fn find(s: &[u8], pattern: &[u8]) -> (r: Option<usize>)
    requires
        pattern@.len() > 0,
    ensures
        r matches Some(i) ==> occurrence(s@, pattern@, 0) == Some(i as int) && i + pattern@.len()
            <= s@.len(),
        r is None ==> occurrence(s@, pattern@, 0) is None,
{
    let n = s.len();
    let mut i: usize = 0;
    while i < n
        invariant
            n == s@.len(),
            i <= n,
            pattern@.len() > 0,
            occurrence(s@, pattern@, 0) == occurrence(s@, pattern@, i as int),
        decreases n - i,
    {
        let rest = vstd::slice::slice_subrange(s, i, n);
        assert(rest@ =~= s@.skip(i as int));
        if starts_with(rest, pattern) {
            return Some(i);
        }
        i = i + 1;
    }
    assert(s@.skip(n as int).len() == 0);
    assert(occurrence(s@, pattern@, n + 1) is None);
    None
}

/// The part of a text between the first occurrence of a pattern and the next, or
/// the end.
pub fn part_behind<'a>(s: &'a [u8], pattern: &[u8]) -> (r: Option<&'a [u8]>)
    requires
        pattern@.len() > 0,
    ensures
        r matches Some(w) ==> second_part(s@, pattern@) == Some(w@),
        r is None ==> second_part(s@, pattern@) is None,
{
    match find(s, pattern) {
        Some(i) => {
            let n = s.len();
            let rest = vstd::slice::slice_subrange(s, i + pattern.len(), n);
            assert(rest@ =~= s@.skip(i + pattern@.len()));
            match find(rest, pattern) {
                Some(j) => Some(vstd::slice::slice_subrange(rest, 0, j)),
                None => Some(rest),
            }
        },
        None => None,
    }
}

} // verus!

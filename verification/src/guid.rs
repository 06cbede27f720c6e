//! Request identifiers.
//!
//! Every waiting requester is known by a GUID: a time-ordered 128-bit
//! identifier injected into the request as the `x-request-id` header in the
//! canonical hyphenated text form. The library holds it as two 64-bit halves
//! and converts between the value and its text form here.

use vstd::prelude::*;

verus! {

/// A 128-bit request identifier, split into its upper and lower 64 bits.
#[derive(Clone, Copy, PartialEq, Eq, Structural, Debug)]
pub struct Guid {
    pub hi: u64,
    pub lo: u64,
}

/// Length in bytes of the canonical hyphenated text form.
pub const GUID_TEXT_LEN: usize = 36;

/// `b` is an ASCII hexadecimal digit.
pub open spec fn is_hex_digit(b: u8) -> bool {
    (48 <= b && b <= 57) || (97 <= b && b <= 102) || (65 <= b && b <= 70)
}

/// `b` is a lowercase ASCII hexadecimal digit (no `A` through `F`).
pub open spec fn is_lower_hex_digit(b: u8) -> bool {
    (48 <= b && b <= 57) || (97 <= b && b <= 102)
}

/// Numeric value of an ASCII hexadecimal digit.
pub open spec fn hex_val(b: u8) -> u8 {
    if 48 <= b && b <= 57 {
        (b - 48) as u8
    } else if 97 <= b && b <= 102 {
        (b - 87) as u8
    } else {
        (b - 55) as u8
    }
}

/// The lowercase ASCII digit for a value below 16.
pub open spec fn hex_char(d: u8) -> u8 {
    if d < 10 {
        (48 + d) as u8
    } else {
        (87 + d) as u8
    }
}

/// The 32 hexadecimal digits of a 36-byte GUID text, hyphens dropped.
#[verifier::opaque]
pub open spec fn guid_digits(s: Seq<u8>) -> Seq<u8> {
    s.subrange(0, 8) + s.subrange(9, 13) + s.subrange(14, 18) + s.subrange(19, 23) + s.subrange(
        24,
        36,
    )
}

/// Position in the 36-byte text of digit number `j` (hyphens skipped).
pub open spec fn digit_pos(j: int) -> int {
    if j < 8 {
        j
    } else if j < 12 {
        j + 1
    } else if j < 16 {
        j + 2
    } else if j < 20 {
        j + 3
    } else {
        j + 4
    }
}

/// `s` is a canonical hyphenated GUID text: 36 bytes, hyphens at positions
/// 8, 13, 18 and 23, hexadecimal digits everywhere else.
pub open spec fn is_guid_text(s: Seq<u8>) -> bool {
    &&& s.len() == 36
    &&& s[8] == 45u8
    &&& s[13] == 45u8
    &&& s[18] == 45u8
    &&& s[23] == 45u8
    &&& forall|j: int| 0 <= j < 32 ==> is_hex_digit(#[trigger] guid_digits(s)[j])
}

/// Value of the 16 hexadecimal digits `d[k]` through `d[k + 15]`, read most
/// significant first.
#[verifier::opaque]
pub open spec fn half_value(d: Seq<u8>, k: int) -> int {
    hex_val(d[k]) * 0x1000000000000000 + hex_val(d[k + 1]) * 0x100000000000000 + hex_val(d[k + 2])
        * 0x10000000000000 + hex_val(d[k + 3]) * 0x1000000000000 + hex_val(d[k + 4])
        * 0x100000000000 + hex_val(d[k + 5]) * 0x10000000000 + hex_val(d[k + 6]) * 0x1000000000
        + hex_val(d[k + 7]) * 0x100000000 + hex_val(d[k + 8]) * 0x10000000 + hex_val(d[k + 9])
        * 0x1000000 + hex_val(d[k + 10]) * 0x100000 + hex_val(d[k + 11]) * 0x10000 + hex_val(
        d[k + 12],
    ) * 0x1000 + hex_val(d[k + 13]) * 0x100 + hex_val(d[k + 14]) * 0x10 + hex_val(d[k + 15])
}

/// The GUID whose digits a canonical text carries.
pub open spec fn guid_of_text(s: Seq<u8>) -> Guid {
    Guid {
        hi: half_value(guid_digits(s), 0) as u64,
        lo: half_value(guid_digits(s), 16) as u64,
    }
}

/// Digit number `j` of a 36-byte text is the byte at `digit_pos(j)`.
pub proof fn lemma_guid_digits_index(s: Seq<u8>)
    requires
        s.len() == 36,
    ensures
        guid_digits(s).len() == 32,
        forall|j: int| 0 <= j < 32 ==> #[trigger] guid_digits(s)[j] == s[digit_pos(j)],
{
    reveal(guid_digits);
    assert forall|j: int| 0 <= j < 32 implies #[trigger] guid_digits(s)[j] == s[digit_pos(j)] by {
        assert(guid_digits(s)[j] == s[digit_pos(j)]);
    }
}

/// On a text of hexadecimal digits each half value fits in 64 bits.
pub proof fn lemma_half_value_bounds(d: Seq<u8>, k: int)
    requires
        0 <= k,
        k + 16 <= d.len(),
        forall|j: int| k <= j < k + 16 ==> is_hex_digit(#[trigger] d[j]),
    ensures
        0 <= half_value(d, k) <= u64::MAX,
{
    reveal(half_value);
    assert forall|j: int| k <= j < k + 16 implies 0 <= hex_val(#[trigger] d[j]) <= 15 by {}
}

/// Numeric value of one ASCII byte as a hexadecimal digit, if it is one.
pub(crate) fn hex_value_of(b: u8) -> (r: Option<u8>)
    ensures
        r is Some <==> is_hex_digit(b),
        r is Some ==> r->Some_0 == hex_val(b) && r->Some_0 <= 15,
{
    if 48 <= b && b <= 57 {
        Some(b - 48)
    } else if 97 <= b && b <= 102 {
        Some(b - 87)
    } else if 65 <= b && b <= 70 {
        Some(b - 55)
    } else {
        None
    }
}

/// The lowercase ASCII digit for a value below 16.
pub(crate) fn hex_char_of(d: u8) -> (r: u8)
    requires
        d < 16,
    ensures
        r == hex_char(d),
        is_lower_hex_digit(r),
        is_hex_digit(r),
        hex_val(r) == d,
{
    if d < 10 {
        48 + d
    } else {
        87 + d
    }
}

/// Parse the canonical hyphenated text form. Returns the identifier exactly
/// when the input is a well-formed GUID text, and nothing otherwise.
pub fn parse_guid(s: &Vec<u8>) -> (r: Option<Guid>)
    ensures
        r is Some <==> is_guid_text(s@),
        r is Some ==> r->Some_0 == guid_of_text(s@),
{
    if s.len() != 36 {
        return None;
    }
    proof {
        lemma_guid_digits_index(s@);
    }
    if !(s[8] == 45 && s[13] == 45 && s[18] == 45 && s[23] == 45) {
        return None;
    }
    let mut digits: Vec<u8> = Vec::new();
    let mut j: usize = 0;
    while j < 32
        invariant
            s@.len() == 36,
            j <= 32,
            digits@.len() == j,
            forall|k: int| 0 <= k < j ==> #[trigger] digits@[k] <= 15,
            forall|k: int|
                0 <= k < j ==> is_hex_digit(#[trigger] guid_digits(s@)[k]) && digits@[k] == hex_val(
                    guid_digits(s@)[k],
                ),
            forall|k: int| 0 <= k < 32 ==> #[trigger] guid_digits(s@)[k] == s@[digit_pos(k)],
        decreases 32 - j,
    {
        let p: usize = if j < 8 {
            j
        } else if j < 12 {
            j + 1
        } else if j < 16 {
            j + 2
        } else if j < 20 {
            j + 3
        } else {
            j + 4
        };
        match hex_value_of(s[p]) {
            Some(v) => digits.push(v),
            None => {
                proof {
                    assert(guid_digits(s@)[j as int] == s@[digit_pos(j as int)]);
                    assert(!is_hex_digit(guid_digits(s@)[j as int]));
                }
                return None;
            },
        }
        j += 1;
    }
    let hi: u64 = (digits[0] as u64) * 0x1000000000000000 + (digits[1] as u64) * 0x100000000000000
        + (digits[2] as u64) * 0x10000000000000 + (digits[3] as u64) * 0x1000000000000 + (
    digits[4] as u64) * 0x100000000000 + (digits[5] as u64) * 0x10000000000 + (digits[6] as u64)
        * 0x1000000000 + (digits[7] as u64) * 0x100000000 + (digits[8] as u64) * 0x10000000 + (
    digits[9] as u64) * 0x1000000 + (digits[10] as u64) * 0x100000 + (digits[11] as u64) * 0x10000
        + (digits[12] as u64) * 0x1000 + (digits[13] as u64) * 0x100 + (digits[14] as u64) * 0x10
        + (digits[15] as u64);
    let lo: u64 = (digits[16] as u64) * 0x1000000000000000 + (digits[17] as u64)
        * 0x100000000000000 + (digits[18] as u64) * 0x10000000000000 + (digits[19] as u64)
        * 0x1000000000000 + (digits[20] as u64) * 0x100000000000 + (digits[21] as u64)
        * 0x10000000000 + (digits[22] as u64) * 0x1000000000 + (digits[23] as u64) * 0x100000000 + (
    digits[24] as u64) * 0x10000000 + (digits[25] as u64) * 0x1000000 + (digits[26] as u64)
        * 0x100000 + (digits[27] as u64) * 0x10000 + (digits[28] as u64) * 0x1000 + (
    digits[29] as u64) * 0x100 + (digits[30] as u64) * 0x10 + (digits[31] as u64);
    proof {
        reveal(half_value);
        lemma_guid_digits_index(s@);
        lemma_half_value_bounds(guid_digits(s@), 0);
        lemma_half_value_bounds(guid_digits(s@), 16);
    }
    Some(Guid { hi, lo })
}

/// Nibble values of a 64-bit half, most significant first.
pub open spec fn nibble_value(d: Seq<u8>) -> int {
    d[0] * 0x1000000000000000 + d[1] * 0x100000000000000 + d[2] * 0x10000000000000 + d[3]
        * 0x1000000000000 + d[4] * 0x100000000000 + d[5] * 0x10000000000 + d[6] * 0x1000000000
        + d[7] * 0x100000000 + d[8] * 0x10000000 + d[9] * 0x1000000 + d[10] * 0x100000 + d[11]
        * 0x10000 + d[12] * 0x1000 + d[13] * 0x100 + d[14] * 0x10 + d[15]
}

/// Split a 64-bit half into its 16 nibbles, most significant first.
#[verifier::rlimit(100)]
#[verifier::spinoff_prover]
fn nibbles_of(v: u64) -> (d: Vec<u8>)
    ensures
        d@.len() == 16,
        forall|k: int| 0 <= k < 16 ==> #[trigger] d@[k] < 16,
        nibble_value(d@) == v,
{
    let d0: u64 = v / 0x1000000000000000;
    let r0: u64 = v % 0x1000000000000000;
    let d1: u64 = r0 / 0x100000000000000;
    let r1: u64 = r0 % 0x100000000000000;
    let d2: u64 = r1 / 0x10000000000000;
    let r2: u64 = r1 % 0x10000000000000;
    let d3: u64 = r2 / 0x1000000000000;
    let r3: u64 = r2 % 0x1000000000000;
    let d4: u64 = r3 / 0x100000000000;
    let r4: u64 = r3 % 0x100000000000;
    let d5: u64 = r4 / 0x10000000000;
    let r5: u64 = r4 % 0x10000000000;
    let d6: u64 = r5 / 0x1000000000;
    let r6: u64 = r5 % 0x1000000000;
    let d7: u64 = r6 / 0x100000000;
    let r7: u64 = r6 % 0x100000000;
    let d8: u64 = r7 / 0x10000000;
    let r8: u64 = r7 % 0x10000000;
    let d9: u64 = r8 / 0x1000000;
    let r9: u64 = r8 % 0x1000000;
    let d10: u64 = r9 / 0x100000;
    let r10: u64 = r9 % 0x100000;
    let d11: u64 = r10 / 0x10000;
    let r11: u64 = r10 % 0x10000;
    let d12: u64 = r11 / 0x1000;
    let r12: u64 = r11 % 0x1000;
    let d13: u64 = r12 / 0x100;
    let r13: u64 = r12 % 0x100;
    let d14: u64 = r13 / 0x10;
    let d15: u64 = r13 % 0x10;
    proof {
        assert(v == d0 * 0x1000000000000000 + r0);
        assert(r0 == d1 * 0x100000000000000 + r1);
        assert(r1 == d2 * 0x10000000000000 + r2);
        assert(r2 == d3 * 0x1000000000000 + r3);
        assert(r3 == d4 * 0x100000000000 + r4);
        assert(r4 == d5 * 0x10000000000 + r5);
        assert(r5 == d6 * 0x1000000000 + r6);
        assert(r6 == d7 * 0x100000000 + r7);
        assert(r7 == d8 * 0x10000000 + r8);
        assert(r8 == d9 * 0x1000000 + r9);
        assert(r9 == d10 * 0x100000 + r10);
        assert(r10 == d11 * 0x10000 + r11);
        assert(r11 == d12 * 0x1000 + r12);
        assert(r12 == d13 * 0x100 + r13);
        assert(r13 == d14 * 0x10 + d15);
        assert(d0 <= 15 && d1 <= 15 && d2 <= 15 && d3 <= 15 && d4 <= 15 && d5 <= 15 && d6 <= 15
            && d7 <= 15 && d8 <= 15 && d9 <= 15 && d10 <= 15 && d11 <= 15 && d12 <= 15 && d13
            <= 15 && d14 <= 15 && d15 <= 15);
    }
    let mut d: Vec<u8> = Vec::new();
    d.push(d0 as u8);
    d.push(d1 as u8);
    d.push(d2 as u8);
    d.push(d3 as u8);
    d.push(d4 as u8);
    d.push(d5 as u8);
    d.push(d6 as u8);
    d.push(d7 as u8);
    d.push(d8 as u8);
    d.push(d9 as u8);
    d.push(d10 as u8);
    d.push(d11 as u8);
    d.push(d12 as u8);
    d.push(d13 as u8);
    d.push(d14 as u8);
    d.push(d15 as u8);
    proof {
        assert(d@ =~= seq![
            d0 as u8, d1 as u8, d2 as u8, d3 as u8, d4 as u8, d5 as u8, d6 as u8, d7 as u8,
            d8 as u8, d9 as u8, d10 as u8, d11 as u8, d12 as u8, d13 as u8, d14 as u8, d15 as u8,
        ]);
    }
    d
}

/// The lowercase digit characters of the nibbles `s[a .. b]`.
pub open spec fn hex_seq(s: Seq<u8>, a: int, b: int) -> Seq<u8> {
    s.subrange(a, b).map_values(|d: u8| hex_char(d))
}

/// Append the lowercase digits of `src[a .. b]` to `out`.
fn push_hex_range(out: &mut Vec<u8>, src: &Vec<u8>, a: usize, b: usize)
    requires
        a <= b <= src@.len(),
        forall|k: int| a <= k < b ==> #[trigger] src@[k] < 16,
    ensures
        final(out)@ == old(out)@ + hex_seq(src@, a as int, b as int),
{
    let ghost base = old(out)@;
    let mut j: usize = a;
    proof {
        assert(base + hex_seq(src@, a as int, a as int) =~= base);
    }
    while j < b
        invariant
            a <= j <= b <= src@.len(),
            forall|k: int| a <= k < b ==> #[trigger] src@[k] < 16,
            out@ == base + hex_seq(src@, a as int, j as int),
        decreases b - j,
    {
        out.push(hex_char_of(src[j]));
        proof {
            assert(base + hex_seq(src@, a as int, j + 1) =~= (base + hex_seq(
                src@,
                a as int,
                j as int,
            )).push(hex_char(src@[j as int])));
        }
        j += 1;
    }
    proof {
        assert(out@ =~= base + hex_seq(src@, a as int, b as int));
    }
}

/// Write 32 nibbles as hyphenated lowercase hexadecimal text.
#[verifier::rlimit(100)]
#[verifier::spinoff_prover]
fn hex_text(dh: &Vec<u8>, dl: &Vec<u8>) -> (out: Vec<u8>)
    requires
        dh@.len() == 16,
        dl@.len() == 16,
        forall|k: int| 0 <= k < 16 ==> #[trigger] dh@[k] < 16,
        forall|k: int| 0 <= k < 16 ==> #[trigger] dl@[k] < 16,
    ensures
        is_guid_text(out@),
        forall|i: int| 0 <= i < 36 ==> is_lower_hex_digit(#[trigger] out@[i]) || out@[i] == 45u8,
        forall|j: int| 0 <= j < 16 ==> hex_val(#[trigger] guid_digits(out@)[j]) == dh@[j],
        forall|j: int| 16 <= j < 32 ==> hex_val(#[trigger] guid_digits(out@)[j]) == dl@[j - 16],
{
    let mut out: Vec<u8> = Vec::new();
    push_hex_range(&mut out, dh, 0, 8);
    out.push(45);
    push_hex_range(&mut out, dh, 8, 12);
    out.push(45);
    push_hex_range(&mut out, dh, 12, 16);
    out.push(45);
    push_hex_range(&mut out, dl, 0, 4);
    out.push(45);
    push_hex_range(&mut out, dl, 4, 16);
    proof {
        lemma_guid_digits_index(out@);
        assert(out@.len() == 36);
        assert forall|i: int| 0 <= i < 36 implies (if i == 8 || i == 13 || i == 18 || i == 23 {
            out@[i] == 45u8
        } else {
            out@[i] == hex_char(
                if i < 8 {
                    dh@[i]
                } else if i < 13 {
                    dh@[i - 1]
                } else if i < 18 {
                    dh@[i - 2]
                } else if i < 23 {
                    dl@[i - 19]
                } else {
                    dl@[i - 20]
                },
            )
        }) by {}
        assert forall|j: int| 0 <= j < 32 implies #[trigger] guid_digits(out@)[j]
            == out@[digit_pos(j)] && is_hex_digit(guid_digits(out@)[j]) && is_lower_hex_digit(
            guid_digits(out@)[j],
        ) && hex_val(guid_digits(out@)[j]) == (if j < 16 {
            dh@[j]
        } else {
            dl@[j - 16]
        }) by {}
    }
    out
}

/// Render the canonical lowercase hyphenated text of a GUID. The output is a
/// well-formed GUID text in lowercase whose digits carry exactly the two
/// halves of `g`; together those clauses pin the text down to the byte.
pub fn format_guid(g: &Guid) -> (r: Vec<u8>)
    ensures
        is_guid_text(r@),
        forall|i: int| 0 <= i < 36 ==> is_lower_hex_digit(#[trigger] r@[i]) || r@[i] == 45u8,
        half_value(guid_digits(r@), 0) == g.hi,
        half_value(guid_digits(r@), 16) == g.lo,
        guid_of_text(r@) == *g,
{
    let dh = nibbles_of(g.hi);
    let dl = nibbles_of(g.lo);
    let out = hex_text(&dh, &dl);
    proof {
        reveal(half_value);
    }
    out
}

/// Formatting then parsing gives the identifier back: the text form loses
/// nothing.
pub proof fn lemma_guid_round_trip(g: Guid, s: Seq<u8>)
    requires
        is_guid_text(s),
        half_value(guid_digits(s), 0) == g.hi,
        half_value(guid_digits(s), 16) == g.lo,
    ensures
        guid_of_text(s) == g,
{
}

} // verus!

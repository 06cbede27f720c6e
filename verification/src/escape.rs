//! String escaping for the wire messages.
//!
//! A submitted number may hold any bytes, so the callback message carries it
//! as a JSON string: quote and backslash are escaped with a backslash, bytes
//! below 32 as `\u00` and two lowercase hexadecimal digits, and every other
//! byte stands for itself. The encoding is canonical — one escape per byte —
//! so a payload determines the number it carries exactly.

use vstd::prelude::*;

use crate::guid::hex_char;
use crate::guid::hex_val;
use crate::guid::is_lower_hex_digit;
use crate::guid::hex_char_of;

verus! {

/// The escape sequence of one byte.
pub open spec fn escape_byte(b: u8) -> Seq<u8> {
    if b == 34 {
        seq![92u8, 34u8]
    } else if b == 92 {
        seq![92u8, 92u8]
    } else if b < 32 {
        seq![92u8, 117u8, 48u8, 48u8, hex_char(b / 16), hex_char(b % 16)]
    } else {
        seq![b]
    }
}

/// The escaped form of a byte string.
pub open spec fn escape_bytes(s: Seq<u8>) -> Seq<u8>
    decreases s.len(),
{
    if s.len() == 0 {
        Seq::empty()
    } else {
        escape_byte(s[0]) + escape_bytes(s.drop_first())
    }
}

/// Escaping distributes over concatenation.
pub proof fn lemma_escape_append(x: Seq<u8>, y: Seq<u8>)
    ensures
        escape_bytes(x + y) == escape_bytes(x) + escape_bytes(y),
    decreases x.len(),
{
    if x.len() == 0 {
        assert(x + y =~= y);
        assert(escape_bytes(x) + escape_bytes(y) =~= escape_bytes(y));
    } else {
        assert((x + y).drop_first() =~= x.drop_first() + y);
        lemma_escape_append(x.drop_first(), y);
        assert((x + y).len() > 0);
        assert((x + y)[0] == x[0]);
        assert(escape_byte(x[0]) + (escape_bytes(x.drop_first()) + escape_bytes(y)) =~= (
        escape_byte(x[0]) + escape_bytes(x.drop_first())) + escape_bytes(y));
    }
}

/// Escaping one more byte appends its escape sequence.
pub proof fn lemma_escape_push(s: Seq<u8>, c: u8)
    ensures
        escape_bytes(s.push(c)) == escape_bytes(s) + escape_byte(c),
{
    assert(s.push(c) =~= s + seq![c]);
    lemma_escape_append(s, seq![c]);
    assert(escape_bytes(seq![c]) == escape_byte(c) + escape_bytes(seq![c].drop_first()));
    assert(seq![c].drop_first() =~= Seq::<u8>::empty());
    assert(escape_byte(c) + Seq::<u8>::empty() =~= escape_byte(c));
}

/// The escaped stream splits at any decoded position.
pub proof fn lemma_escape_split(n: Seq<u8>, k: int)
    requires
        0 <= k < n.len(),
    ensures
        escape_bytes(n) == escape_bytes(n.subrange(0, k)) + escape_byte(n[k]) + escape_bytes(
            n.skip(k + 1),
        ),
{
    assert(n =~= n.subrange(0, k) + seq![n[k]] + n.skip(k + 1));
    lemma_escape_append(n.subrange(0, k) + seq![n[k]], n.skip(k + 1));
    lemma_escape_append(n.subrange(0, k), seq![n[k]]);
    assert(escape_bytes(seq![n[k]]) == escape_byte(n[k]) + escape_bytes(seq![n[k]].drop_first()));
    assert(seq![n[k]].drop_first() =~= Seq::<u8>::empty());
    assert(escape_byte(n[k]) + Seq::<u8>::empty() =~= escape_byte(n[k]));
}

/// If the escape of `d` is a prefix of the escape of `n`, then `d` itself is
/// a prefix of `n`, and the rest of the stream starts with the escape of the
/// next byte of `n`. This aligns a decoder's progress with the encoder's.
pub proof fn lemma_escape_align(n: Seq<u8>, d: Seq<u8>)
    requires
        escape_bytes(d).len() <= escape_bytes(n).len(),
        escape_bytes(d) == escape_bytes(n).subrange(0, escape_bytes(d).len() as int),
    ensures
        d.len() <= n.len(),
        d == n.subrange(0, d.len() as int),
        d.len() < n.len() ==> escape_bytes(n) == escape_bytes(d) + escape_byte(
            n[d.len() as int],
        ) + escape_bytes(n.skip(d.len() as int + 1)),
    decreases d.len(),
{
    if d.len() == 0 {
        assert(d =~= n.subrange(0, 0));
        if n.len() > 0 {
            lemma_escape_split(n, 0);
            assert(n.subrange(0, 0) =~= Seq::<u8>::empty());
            assert(escape_bytes(d) + escape_byte(n[0]) + escape_bytes(n.skip(1)) =~= escape_byte(
                n[0],
            ) + escape_bytes(n.skip(1)));
            assert(escape_bytes(n.subrange(0, 0)) =~= Seq::<u8>::empty());
        }
    } else {
        if n.len() == 0 {
            assert(escape_bytes(n).len() == 0);
            assert(escape_bytes(d).len() > 0) by {
                assert(escape_bytes(d) == escape_byte(d[0]) + escape_bytes(d.drop_first()));
                assert(escape_byte(d[0]).len() >= 1);
            }
            assert(false);
        }
        let a = escape_byte(d[0]);
        let b = escape_byte(n[0]);
        assert(escape_bytes(d) == a + escape_bytes(d.drop_first()));
        assert(escape_bytes(n) == b + escape_bytes(n.drop_first()));
        assert(escape_bytes(d)[0] == a[0]);
        assert(escape_bytes(n)[0] == b[0]);
        assert(a[0] == b[0]);
        assert(d[0] == n[0]) by {
            if a.len() == 1 {
                // d[0] stands for itself, so the stream starts with d[0],
                // which is neither a backslash nor below 32 nor a quote.
                if b.len() != 1 {
                    assert(b[0] == 92);
                    assert(a[0] != 92);
                    assert(false);
                }
            } else {
                assert(a[0] == 92);
                if b.len() == 1 {
                    assert(b[0] != 92);
                    assert(false);
                }
                // Both escapes start with a backslash; compare the tag byte.
                assert(escape_bytes(d)[1] == a[1]);
                assert(escape_bytes(n)[1] == b[1]);
                assert(a[1] == b[1]);
                if d[0] == 34 || d[0] == 92 {
                    assert(a[1] == 34 || a[1] == 92);
                    if n[0] != 34 && n[0] != 92 {
                        assert(b[1] == 117);
                        assert(false);
                    }
                } else {
                    assert(a[1] == 117);
                    if n[0] == 34 || n[0] == 92 {
                        assert(false);
                    }
                }
                if d[0] < 32 {
                    assert(n[0] < 32);
                    assert(a[4] == hex_char(d[0] / 16) && a[5] == hex_char(d[0] % 16));
                    assert(b[4] == hex_char(n[0] / 16) && b[5] == hex_char(n[0] % 16));
                    assert(escape_bytes(d)[4] == a[4] && escape_bytes(d)[5] == a[5]);
                    assert(escape_bytes(n)[4] == b[4] && escape_bytes(n)[5] == b[5]);
                    assert(hex_char(d[0] / 16) == hex_char(n[0] / 16));
                    assert(hex_char(d[0] % 16) == hex_char(n[0] % 16));
                    assert(d[0] / 16 == n[0] / 16 && d[0] % 16 == n[0] % 16);
                }
            }
        }
        assert(a == b);
        let d1 = d.drop_first();
        let n1 = n.drop_first();
        assert(escape_bytes(d1) == escape_bytes(n1).subrange(0, escape_bytes(d1).len() as int))
            by {
            assert forall|i: int| 0 <= i < escape_bytes(d1).len() implies escape_bytes(d1)[i]
                == escape_bytes(n1)[i] by {
                assert(escape_bytes(d)[a.len() + i] == escape_bytes(d1)[i]);
                assert(escape_bytes(n)[a.len() + i] == escape_bytes(n1)[i]);
                assert(escape_bytes(d)[a.len() + i] == escape_bytes(n)[a.len() + i]);
            }
            assert(escape_bytes(d1) =~= escape_bytes(n1).subrange(
                0,
                escape_bytes(d1).len() as int,
            ));
        }
        lemma_escape_align(n1, d1);
        assert(d =~= n.subrange(0, d.len() as int)) by {
            assert(d1 == n1.subrange(0, d1.len() as int));
            assert forall|i: int| 0 <= i < d.len() implies d[i] == n[i] by {
                if i > 0 {
                    assert(d1[i - 1] == n1.subrange(0, d1.len() as int)[i - 1]);
                }
            }
        }
        if d.len() < n.len() {
            lemma_escape_split(n, d.len() as int);
            assert(escape_bytes(n.subrange(0, d.len() as int)) == escape_bytes(d));
        }
    }
}

/// Escaping is injective: equal streams decode to equal strings.
pub proof fn lemma_escape_injective(x: Seq<u8>, y: Seq<u8>)
    requires
        escape_bytes(x) == escape_bytes(y),
    ensures
        x == y,
{
    assert(escape_bytes(y).subrange(0, escape_bytes(y).len() as int) =~= escape_bytes(y));
    lemma_escape_align(y, x);
    if x.len() < y.len() {
        lemma_escape_split(y, x.len() as int);
        assert(escape_byte(y[x.len() as int]).len() >= 1);
        assert(false);
    }
    assert(x =~= y.subrange(0, x.len() as int));
    assert(y =~= y.subrange(0, y.len() as int));
}


/// Numeric value of a lowercase hexadecimal digit, if `b` is one.
fn lower_hex_value_of(b: u8) -> (r: Option<u8>)
    ensures
        r is Some <==> is_lower_hex_digit(b),
        r is Some ==> r->Some_0 == hex_val(b) && r->Some_0 <= 15,
{
    if 48 <= b && b <= 57 {
        Some(b - 48)
    } else if 97 <= b && b <= 102 {
        Some(b - 87)
    } else {
        None
    }
}

/// Append the escaped form of `s` to `out`.
pub fn escape_into(out: &mut Vec<u8>, s: &Vec<u8>)
    ensures
        final(out)@ == old(out)@ + escape_bytes(s@),
{
    let ghost base = old(out)@;
    let mut i: usize = 0;
    proof {
        assert(s@.subrange(0, 0) =~= Seq::<u8>::empty());
        assert(base + escape_bytes(s@.subrange(0, 0)) =~= base);
    }
    while i < s.len()
        invariant
            i <= s.len(),
            out@ == base + escape_bytes(s@.subrange(0, i as int)),
        decreases s.len() - i,
    {
        let ghost pre = s@.subrange(0, i as int);
        let b = s[i];
        if b == 34 {
            out.push(92);
            out.push(34);
        } else if b == 92 {
            out.push(92);
            out.push(92);
        } else if b < 32 {
            out.push(92);
            out.push(117);
            out.push(48);
            out.push(48);
            out.push(hex_char_of(b / 16));
            out.push(hex_char_of(b % 16));
        } else {
            out.push(b);
        }
        proof {
            lemma_escape_push(pre, b);
            assert(s@.subrange(0, i + 1) =~= pre.push(b));
            assert(out@ =~= (base + escape_bytes(pre)) + escape_byte(b));
            assert((base + escape_bytes(pre)) + escape_byte(b) =~= base + (escape_bytes(pre)
                + escape_byte(b)));
        }
        i += 1;
    }
    proof {
        assert(s@.subrange(0, s@.len() as int) =~= s@);
    }
}

/// Decode a whole escaped stream. Succeeds exactly on the streams the
/// escaper produces, and then returns the one string that escapes to `s`.
pub fn unescape_all(s: &Vec<u8>) -> (r: Option<Vec<u8>>)
    ensures
        r is Some ==> s@ == escape_bytes(r->Some_0@),
        r is None ==> forall|n: Seq<u8>| s@ != escape_bytes(n),
{
    let mut out: Vec<u8> = Vec::new();
    let mut pos: usize = 0;
    proof {
        assert(s@.subrange(0, 0) =~= Seq::<u8>::empty());
        assert(escape_bytes(out@) =~= Seq::<u8>::empty());
    }
    while pos < s.len()
        invariant
            pos <= s.len(),
            s@.subrange(0, pos as int) == escape_bytes(out@),
        decreases s.len() - pos,
    {
        let ghost d = out@;
        let b = s[pos];
        if b == 34 || b < 32 {
            proof {
                lemma_unescape_stuck(s@, d, pos as int);
            }
            return None;
        }
        if b == 92 {
            if s.len() - pos < 2 {
                proof {
                    lemma_unescape_stuck(s@, d, pos as int);
                }
                return None;
            }
            let tag = s[pos + 1];
            if tag == 34 || tag == 92 {
                out.push(tag);
                proof {
                    lemma_escape_push(d, tag);
                    assert(escape_byte(tag) =~= seq![92u8, tag]);
                    assert(s@.subrange(0, pos + 2) =~= s@.subrange(0, pos as int) + seq![
                        92u8,
                        tag,
                    ]);
                }
                pos += 2;
            } else if tag == 117 {
                if s.len() - pos < 6 {
                    proof {
                        lemma_unescape_stuck(s@, d, pos as int);
                    }
                    return None;
                }
                let z1 = s[pos + 2];
                let z2 = s[pos + 3];
                let h1 = lower_hex_value_of(s[pos + 4]);
                let h2 = lower_hex_value_of(s[pos + 5]);
                if z1 != 48 || z2 != 48 || h1.is_none() || h2.is_none() {
                    proof {
                        lemma_unescape_stuck(s@, d, pos as int);
                    }
                    return None;
                }
                let v: u8 = h1.unwrap() * 16 + h2.unwrap();
                if v >= 32 {
                    proof {
                        lemma_unescape_stuck(s@, d, pos as int);
                    }
                    return None;
                }
                out.push(v);
                proof {
                    lemma_escape_push(d, v);
                    assert(hex_char(v / 16) == s@[pos + 4]);
                    assert(hex_char(v % 16) == s@[pos + 5]);
                    assert(escape_byte(v) =~= seq![
                        92u8,
                        117u8,
                        48u8,
                        48u8,
                        hex_char(v / 16),
                        hex_char(v % 16),
                    ]);
                    assert(s@.subrange(0, pos + 6) =~= s@.subrange(0, pos as int) + escape_byte(
                        v,
                    ));
                }
                pos += 6;
            } else {
                proof {
                    lemma_unescape_stuck(s@, d, pos as int);
                }
                return None;
            }
        } else {
            out.push(b);
            proof {
                lemma_escape_push(d, b);
                assert(escape_byte(b) =~= seq![b]);
                assert(s@.subrange(0, pos + 1) =~= s@.subrange(0, pos as int) + seq![b]);
            }
            pos += 1;
        }
    }
    proof {
        assert(s@.subrange(0, s@.len() as int) =~= s@);
    }
    Some(out)
}

/// No escaped stream continues a decoded prefix `d` in a way the decoder
/// refuses: whenever the decoder stops at `pos` the whole stream is not an
/// escape of anything.
proof fn lemma_unescape_stuck(s: Seq<u8>, d: Seq<u8>, pos: int)
    requires
        0 <= pos < s.len(),
        s.subrange(0, pos) == escape_bytes(d),
        ({
            let b = s[pos];
            ||| b == 34
            ||| b < 32
            ||| (b == 92 && s.len() - pos < 2)
            ||| (b == 92 && s.len() - pos >= 2 && !(s[pos + 1] == 34 || s[pos + 1] == 92 || s[pos
                + 1] == 117))
            ||| (b == 92 && s.len() - pos >= 2 && s[pos + 1] == 117 && (s.len() - pos < 6 || !(
            s[pos + 2] == 48 && s[pos + 3] == 48 && is_lower_hex_digit(s[pos + 4])
                && is_lower_hex_digit(s[pos + 5]) && hex_val(s[pos + 4]) * 16 + hex_val(s[pos + 5])
                < 32)))
        }),
    ensures
        forall|n: Seq<u8>| s != escape_bytes(n),
{
    assert forall|n: Seq<u8>| s != escape_bytes(n) by {
        if s == escape_bytes(n) {
            assert(escape_bytes(d).len() == pos);
            assert(escape_bytes(d) == escape_bytes(n).subrange(0, pos));
            lemma_escape_align(n, d);
            if d.len() == n.len() {
                assert(d == n.subrange(0, d.len() as int));
                assert(n.subrange(0, n.len() as int) =~= n);
                assert(escape_bytes(d).len() == s.len());
                assert(false);
            }
            let c = n[d.len() as int];
            let e = escape_byte(c);
            let rest = escape_bytes(n.skip(d.len() as int + 1));
            assert(s == escape_bytes(d) + e + rest);
            assert forall|i: int| 0 <= i < e.len() implies s[pos + i] == e[i] by {
                assert((escape_bytes(d) + e + rest)[pos + i] == e[i]);
            }
            assert(s.len() == pos + e.len() + rest.len());
            if c == 34 || c == 92 {
                assert(e =~= seq![92u8, c]);
                assert(s[pos] == 92 && s[pos + 1] == c);
                assert(false);
            } else if c < 32 {
                assert(e =~= seq![92u8, 117u8, 48u8, 48u8, hex_char(c / 16), hex_char(c % 16)]);
                assert(s[pos] == 92 && s[pos + 1] == 117 && s[pos + 2] == 48 && s[pos + 3] == 48);
                assert(s[pos + 4] == hex_char(c / 16) && s[pos + 5] == hex_char(c % 16));
                assert(is_lower_hex_digit(hex_char(c / 16)) && hex_val(hex_char(c / 16)) == c
                    / 16);
                assert(is_lower_hex_digit(hex_char(c % 16)) && hex_val(hex_char(c % 16)) == c
                    % 16);
                assert(hex_val(s[pos + 4]) * 16 + hex_val(s[pos + 5]) == c);
                assert(false);
            } else {
                assert(e =~= seq![c]);
                assert(s[pos] == c);
                assert(false);
            }
        }
    }
}

} // verus!

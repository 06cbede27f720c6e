//! The proxy's client-address header.
//!
//! Requests arrive through a proxy that names the real client in the
//! `cf-connecting-ip` header as a dotted-quad IPv4 address. The library
//! holds the address as its four octets and converts between the value and
//! its text form here: four decimal parts, each up to 255, with no leading
//! zeros, joined by dots.

use vstd::prelude::*;

use crate::config::dec_val;
use crate::config::is_dec_digit;

verus! {

/// The client address the proxy reports, as its four octets in order.
#[derive(Clone, Copy, PartialEq, Eq, Structural, Debug)]
pub struct CloudflareConnectingIp {
    pub o1: u8,
    pub o2: u8,
    pub o3: u8,
    pub o4: u8,
}

/// `s` writes one octet: one to three decimal digits, no leading zero, and
/// a value that fits in eight bits.
pub open spec fn is_octet_text(s: Seq<u8>) -> bool {
    &&& 1 <= s.len() <= 3
    &&& forall|i: int| 0 <= i < s.len() ==> is_dec_digit(#[trigger] s[i])
    &&& (s.len() > 1 ==> s[0] != 48u8)
    &&& dec_val(s) <= 255
}

/// `s` writes an IPv4 address: four octet texts joined by dots at `i`, `j`
/// and `k`. Octet texts hold no dots, so the three positions are the only
/// dots in `s` and the reading is unambiguous.
pub open spec fn is_ipv4_text(s: Seq<u8>) -> bool {
    exists|i: int, j: int, k: int| #[trigger] ipv4_dots_at(s, i, j, k)
}

/// The dots of an IPv4 text stand at `i < j < k`, with a well-formed octet
/// text in each of the four gaps.
pub open spec fn ipv4_dots_at(s: Seq<u8>, i: int, j: int, k: int) -> bool {
    &&& 0 < i
    &&& i + 1 < j
    &&& j + 1 < k
    &&& k + 1 < s.len()
    &&& s[i] == 46u8
    &&& s[j] == 46u8
    &&& s[k] == 46u8
    &&& is_octet_text(s.subrange(0, i))
    &&& is_octet_text(s.subrange(i + 1, j))
    &&& is_octet_text(s.subrange(j + 1, k))
    &&& is_octet_text(s.subrange(k + 1, s.len() as int))
}

/// The address a text at those dots writes.
pub open spec fn ipv4_of(s: Seq<u8>, i: int, j: int, k: int) -> CloudflareConnectingIp {
    CloudflareConnectingIp {
        o1: dec_val(s.subrange(0, i)) as u8,
        o2: dec_val(s.subrange(i + 1, j)) as u8,
        o3: dec_val(s.subrange(j + 1, k)) as u8,
        o4: dec_val(s.subrange(k + 1, s.len() as int)) as u8,
    }
}

/// In an IPv4 text the only dots are the three separators: a second
/// reading places them at the same positions and names the same address.
pub proof fn lemma_ipv4_dots_unique(s: Seq<u8>, i1: int, j1: int, k1: int, i2: int, j2: int, k2: int)
    requires
        ipv4_dots_at(s, i1, j1, k1),
        ipv4_dots_at(s, i2, j2, k2),
    ensures
        i1 == i2 && j1 == j2 && k1 == k2,
{
    assert forall|p: int| 0 <= p < s.len() && s[p] == 46u8 implies p == i1 || p == j1 || p
        == k1 by {
        if p < i1 {
            assert(s.subrange(0, i1)[p] == s[p]);
            assert(is_dec_digit(s[p]));
        } else if i1 < p < j1 {
            assert(s.subrange(i1 + 1, j1)[p - (i1 + 1)] == s[p]);
            assert(is_dec_digit(s[p]));
        } else if j1 < p < k1 {
            assert(s.subrange(j1 + 1, k1)[p - (j1 + 1)] == s[p]);
            assert(is_dec_digit(s[p]));
        } else if k1 < p {
            assert(s.subrange(k1 + 1, s.len() as int)[p - (k1 + 1)] == s[p]);
            assert(is_dec_digit(s[p]));
        }
    }
    assert forall|p: int| 0 <= p < s.len() && s[p] == 46u8 implies p == i2 || p == j2 || p
        == k2 by {
        if p < i2 {
            assert(s.subrange(0, i2)[p] == s[p]);
            assert(is_dec_digit(s[p]));
        } else if i2 < p < j2 {
            assert(s.subrange(i2 + 1, j2)[p - (i2 + 1)] == s[p]);
            assert(is_dec_digit(s[p]));
        } else if j2 < p < k2 {
            assert(s.subrange(j2 + 1, k2)[p - (j2 + 1)] == s[p]);
            assert(is_dec_digit(s[p]));
        } else if k2 < p {
            assert(s.subrange(k2 + 1, s.len() as int)[p - (k2 + 1)] == s[p]);
            assert(is_dec_digit(s[p]));
        }
    }
    assert(s[i2] == 46u8 && s[j2] == 46u8 && s[k2] == 46u8);
    assert(s[i1] == 46u8 && s[j1] == 46u8 && s[k1] == 46u8);
}

impl CloudflareConnectingIp {
    /// The header's name, byte for byte.
    pub fn name() -> (r: Vec<u8>)
        ensures
            r@ == seq![
                99u8, 102u8, 45u8, 99u8, 111u8, 110u8, 110u8, 101u8, 99u8, 116u8, 105u8, 110u8,
                103u8, 45u8, 105u8, 112u8,
            ],
    {
        let mut out: Vec<u8> = Vec::new();
        out.push(99);
        out.push(102);
        out.push(45);
        out.push(99);
        out.push(111);
        out.push(110);
        out.push(110);
        out.push(101);
        out.push(99);
        out.push(116);
        out.push(105);
        out.push(110);
        out.push(103);
        out.push(45);
        out.push(105);
        out.push(112);
        proof {
            assert(out@ =~= seq![
                99u8, 102u8, 45u8, 99u8, 111u8, 110u8, 110u8, 101u8, 99u8, 116u8, 105u8, 110u8,
                103u8, 45u8, 105u8, 112u8,
            ]);
        }
        out
    }

    /// Read the header value. Returns the address exactly when the bytes
    /// are a well-formed dotted quad, and nothing otherwise.
    pub fn decode(value: &Vec<u8>) -> (r: Option<CloudflareConnectingIp>)
        ensures
            r is Some <==> is_ipv4_text(value@),
            r is Some ==> forall|i: int, j: int, k: int|
                ipv4_dots_at(value@, i, j, k) ==> r->Some_0 == ipv4_of(value@, i, j, k),
    {
        let mut dots: Vec<usize> = Vec::new();
        let mut p: usize = 0;
        while p < value.len()
            invariant
                p <= value.len(),
                dots@.len() <= 3,
                forall|t: int| 0 <= t < dots@.len() ==> 0 <= #[trigger] dots@[t] < p,
                forall|t: int| 0 <= t < dots@.len() ==> value@[dots@[t] as int] == 46u8,
                forall|a: int, b: int| 0 <= a < b < dots@.len() ==> dots@[a] < dots@[b],
                forall|q: int|
                    0 <= q < p && value@[q] == 46u8 ==> exists|t: int|
                        0 <= t < dots@.len() && #[trigger] dots@[t] == q,
            decreases value.len() - p,
        {
            if value[p] == 46 {
                if dots.len() == 3 {
                    proof {
                        lemma_no_fourth_dot(value@, dots@, p as int);
                    }
                    return None;
                }
                let ghost pre = dots@;
                dots.push(p);
                proof {
                    assert(dots@[pre.len() as int] == p);
                    assert forall|q: int|
                        0 <= q < p + 1 && value@[q] == 46u8 implies exists|t: int|
                        0 <= t < dots@.len() && #[trigger] dots@[t] == q by {
                        if q < p {
                            let t0 = choose|t: int| 0 <= t < pre.len() && #[trigger] pre[t] == q;
                            assert(dots@[t0] == q);
                        } else {
                            assert(dots@[pre.len() as int] == q);
                        }
                    }
                }
            }
            p += 1;
        }
        if dots.len() != 3 {
            proof {
                assert forall|i: int, j: int, k: int|
                    !ipv4_dots_at(value@, i, j, k) by {
                    if ipv4_dots_at(value@, i, j, k) {
                        assert(value@[i] == 46u8 && value@[j] == 46u8 && value@[k] == 46u8);
                        let ti = choose|t: int| 0 <= t < dots@.len() && dots@[t] == i;
                        let tj = choose|t: int| 0 <= t < dots@.len() && dots@[t] == j;
                        let tk = choose|t: int| 0 <= t < dots@.len() && dots@[t] == k;
                        assert(ti != tj && tj != tk && ti != tk);
                        assert(dots@.len() >= 3);
                        assert(false);
                    }
                }
            }
            return None;
        }
        let i = dots[0];
        let j = dots[1];
        let k = dots[2];
        let o1 = parse_octet(value, 0, i);
        let o2 = if i < j {
            parse_octet(value, i + 1, j)
        } else {
            None
        };
        let o3 = if j < k {
            parse_octet(value, j + 1, k)
        } else {
            None
        };
        let o4 = if k < value.len() {
            parse_octet(value, k + 1, value.len())
        } else {
            None
        };
        match (o1, o2, o3, o4) {
            (Some(o1), Some(o2), Some(o3), Some(o4)) => {
                let r = CloudflareConnectingIp { o1, o2, o3, o4 };
                proof {
                    assert(ipv4_dots_at(value@, i as int, j as int, k as int));
                    assert forall|i2: int, j2: int, k2: int|
                        ipv4_dots_at(value@, i2, j2, k2) implies r == ipv4_of(
                        value@,
                        i2,
                        j2,
                        k2,
                    ) by {
                        lemma_ipv4_dots_unique(
                            value@,
                            i as int,
                            j as int,
                            k as int,
                            i2,
                            j2,
                            k2,
                        );
                    }
                }
                Some(r)
            },
            _ => {
                proof {
                    assert forall|i2: int, j2: int, k2: int|
                        !ipv4_dots_at(value@, i2, j2, k2) by {
                        if ipv4_dots_at(value@, i2, j2, k2) {
                            lemma_three_dots_found(value@, dots@, i2, j2, k2);
                            assert(i2 == i && j2 == j && k2 == k);
                        }
                    }
                }
                None
            },
        }
    }

    /// Write the header value: the canonical dotted quad of this address.
    pub fn encode(&self) -> (r: Vec<u8>)
        ensures
            is_ipv4_text(r@),
            forall|i: int, j: int, k: int|
                ipv4_dots_at(r@, i, j, k) ==> ipv4_of(r@, i, j, k) == *self,
    {
        let mut out: Vec<u8> = Vec::new();
        push_octet(&mut out, self.o1);
        let ghost a1 = out@;
        out.push(46);
        let ghost a2 = out@;
        push_octet(&mut out, self.o2);
        let ghost a3 = out@;
        out.push(46);
        let ghost a4 = out@;
        push_octet(&mut out, self.o3);
        let ghost a5 = out@;
        out.push(46);
        let ghost a6 = out@;
        push_octet(&mut out, self.o4);
        proof {
            let a7 = out@;
            let i = a1.len() as int;
            let j = a3.len() as int;
            let k = a5.len() as int;
            assert(a1.subrange(0, 0) =~= Seq::<u8>::empty());
            assert(a1.subrange(0, i) =~= a1);
            assert(a7[i] == 46u8 && a7[j] == 46u8 && a7[k] == 46u8) by {
                assert(a7.subrange(0, a6.len() as int) == a6);
                assert(a7[i] == a6[i]);
                assert(a6[i] == a5[i]);
                assert(a5.subrange(0, a4.len() as int) == a4);
                assert(a5[i] == a4[i]);
                assert(a4[i] == a3[i]);
                assert(a3.subrange(0, a2.len() as int) == a2);
                assert(a3[i] == a2[i]);
                assert(a7[j] == a6[j] && a6[j] == a5[j] && a5[j] == a4[j]);
                assert(a7[k] == a6[k]);
            }
            assert forall|x: int| 0 <= x < a5.len() implies a7[x] == a5[x] by {
                assert(a7.subrange(0, a6.len() as int) == a6);
                assert(a7.subrange(0, a6.len() as int)[x] == a6[x]);
                assert(a7[x] == a6[x]);
                assert(a6[x] == a5[x]);
            }
            assert forall|x: int| 0 <= x < a3.len() implies a5[x] == a3[x] by {
                assert(a5.subrange(0, a4.len() as int) == a4);
                assert(a5.subrange(0, a4.len() as int)[x] == a4[x]);
                assert(a5[x] == a4[x]);
                assert(a4[x] == a3[x]);
            }
            assert forall|x: int| 0 <= x < a1.len() implies a3[x] == a1[x] by {
                assert(a3.subrange(0, a2.len() as int) == a2);
                assert(a3.subrange(0, a2.len() as int)[x] == a2[x]);
                assert(a3[x] == a2[x]);
                assert(a2[x] == a1[x]);
            }
            assert(a7.subrange(0, i) =~= a1);
            assert(a7.subrange(i + 1, j) =~= a3.subrange(a2.len() as int, a3.len() as int));
            assert(a7.subrange(j + 1, k) =~= a5.subrange(a4.len() as int, a5.len() as int));
            assert(a7.subrange(k + 1, a7.len() as int) =~= a7.subrange(
                a6.len() as int,
                a7.len() as int,
            ));
            assert(ipv4_dots_at(a7, i, j, k));
            assert forall|i2: int, j2: int, k2: int|
                ipv4_dots_at(a7, i2, j2, k2) implies ipv4_of(a7, i2, j2, k2) == *self by {
                lemma_ipv4_dots_unique(a7, i, j, k, i2, j2, k2);
            }
        }
        out
    }
}

/// With three separators found and a fourth dot in sight, no reading of the
/// bytes is an IPv4 text.
proof fn lemma_no_fourth_dot(s: Seq<u8>, dots: Seq<usize>, p: int)
    requires
        dots.len() == 3,
        0 <= p < s.len(),
        s[p] == 46u8,
        forall|t: int| 0 <= t < dots.len() ==> 0 <= #[trigger] dots[t] < p,
        forall|t: int| 0 <= t < dots.len() ==> s[dots[t] as int] == 46u8,
        forall|a: int, b: int| 0 <= a < b < dots.len() ==> dots[a] < dots[b],
    ensures
        forall|i: int, j: int, k: int| !ipv4_dots_at(s, i, j, k),
{
    assert forall|i: int, j: int, k: int| !ipv4_dots_at(s, i, j, k) by {
        if ipv4_dots_at(s, i, j, k) {
            // Four distinct dots, but an IPv4 text holds exactly three.
            assert(s[dots[0] as int] == 46u8);
            assert(s[dots[1] as int] == 46u8);
            assert(s[dots[2] as int] == 46u8);
            lemma_dot_is_separator(s, i, j, k, dots[0] as int);
            lemma_dot_is_separator(s, i, j, k, dots[1] as int);
            lemma_dot_is_separator(s, i, j, k, dots[2] as int);
            lemma_dot_is_separator(s, i, j, k, p);
            assert(false);
        }
    }
}

/// Any dot of an IPv4 text is one of its three separators.
proof fn lemma_dot_is_separator(s: Seq<u8>, i: int, j: int, k: int, p: int)
    requires
        ipv4_dots_at(s, i, j, k),
        0 <= p < s.len(),
        s[p] == 46u8,
    ensures
        p == i || p == j || p == k,
{
    if p < i {
        assert(s.subrange(0, i)[p] == s[p]);
        assert(is_dec_digit(s[p]));
    } else if i < p && p < j {
        assert(s.subrange(i + 1, j)[p - (i + 1)] == s[p]);
        assert(is_dec_digit(s[p]));
    } else if j < p && p < k {
        assert(s.subrange(j + 1, k)[p - (j + 1)] == s[p]);
        assert(is_dec_digit(s[p]));
    } else if k < p {
        assert(s.subrange(k + 1, s.len() as int)[p - (k + 1)] == s[p]);
        assert(is_dec_digit(s[p]));
    }
}

/// When the scan found the dots `d0 < d1 < d2` and nothing else, any
/// reading's separators are exactly those three.
proof fn lemma_three_dots_found(s: Seq<u8>, dots: Seq<usize>, i: int, j: int, k: int)
    requires
        dots.len() == 3,
        ipv4_dots_at(s, i, j, k),
        forall|t: int| 0 <= t < dots.len() ==> 0 <= #[trigger] dots[t] < s.len(),
        forall|t: int| 0 <= t < dots.len() ==> s[dots[t] as int] == 46u8,
        forall|a: int, b: int| 0 <= a < b < dots.len() ==> dots[a] < dots[b],
        forall|q: int|
            0 <= q < s.len() && s[q] == 46u8 ==> exists|t: int|
                0 <= t < dots.len() && #[trigger] dots[t] == q,
    ensures
        dots[0] == i && dots[1] == j && dots[2] == k,
{
    lemma_dot_is_separator(s, i, j, k, dots[0] as int);
    lemma_dot_is_separator(s, i, j, k, dots[1] as int);
    lemma_dot_is_separator(s, i, j, k, dots[2] as int);
    let ti = choose|t: int| 0 <= t < dots.len() && #[trigger] dots[t] == i;
    let tj = choose|t: int| 0 <= t < dots.len() && #[trigger] dots[t] == j;
    let tk = choose|t: int| 0 <= t < dots.len() && #[trigger] dots[t] == k;
    assert(dots[ti] == i && dots[tj] == j && dots[tk] == k);
}

/// Read the octet written between `a` and `b`: present exactly when those
/// bytes are a well-formed octet text, and then its value.
fn parse_octet(s: &Vec<u8>, a: usize, b: usize) -> (r: Option<u8>)
    requires
        a <= b <= s@.len(),
    ensures
        r is Some <==> is_octet_text(s@.subrange(a as int, b as int)),
        r is Some ==> r->Some_0 == dec_val(s@.subrange(a as int, b as int)),
{
    let ghost t = s@.subrange(a as int, b as int);
    let len = b - a;
    if len == 0 || len > 3 {
        return None;
    }
    let mut q: usize = a;
    while q < b
        invariant
            a <= q <= b <= s@.len(),
            t == s@.subrange(a as int, b as int),
            forall|x: int| 0 <= x < q - a ==> is_dec_digit(#[trigger] t[x]),
        decreases b - q,
    {
        let c = s[q];
        if c < 48 || c > 57 {
            proof {
                assert(t[q - a] == s@[q as int]);
            }
            return None;
        }
        proof {
            assert(t[q - a] == s@[q as int]);
        }
        q += 1;
    }
    if len > 1 && s[a] == 48 {
        proof {
            assert(t[0] == 48u8);
        }
        return None;
    }
    proof {
        lemma_small_dec_val(t);
    }
    let v: u32 = if len == 1 {
        (s[a] - 48) as u32
    } else if len == 2 {
        (s[a] - 48) as u32 * 10 + (s[a + 1] - 48) as u32
    } else {
        (s[a] - 48) as u32 * 100 + (s[a + 1] - 48) as u32 * 10 + (s[a + 2] - 48) as u32
    };
    if v > 255 {
        return None;
    }
    Some(v as u8)
}

/// The value of a one-, two- or three-digit string, spelled out.
proof fn lemma_small_dec_val(t: Seq<u8>)
    requires
        1 <= t.len() <= 3,
    ensures
        t.len() == 1 ==> dec_val(t) == t[0] - 48,
        t.len() == 2 ==> dec_val(t) == (t[0] - 48) * 10 + (t[1] - 48),
        t.len() == 3 ==> dec_val(t) == (t[0] - 48) * 100 + (t[1] - 48) * 10 + (t[2] - 48),
{
    if t.len() == 1 {
        assert(t.drop_last() =~= Seq::<u8>::empty());
        assert(dec_val(Seq::<u8>::empty()) == 0);
    } else if t.len() == 2 {
        assert(t.drop_last().drop_last() =~= Seq::<u8>::empty());
        assert(dec_val(Seq::<u8>::empty()) == 0);
        assert(dec_val(t.drop_last()) == t[0] - 48);
    } else {
        assert(t.drop_last().drop_last().drop_last() =~= Seq::<u8>::empty());
        assert(dec_val(Seq::<u8>::empty()) == 0);
        assert(dec_val(t.drop_last().drop_last()) == t[0] - 48);
        assert(dec_val(t.drop_last()) == (t[0] - 48) * 10 + (t[1] - 48));
    }
}

/// Append the canonical decimal text of one octet.
fn push_octet(out: &mut Vec<u8>, v: u8)
    ensures
        final(out)@.len() > old(out)@.len(),
        final(out)@.subrange(0, old(out)@.len() as int) == old(out)@,
        is_octet_text(final(out)@.subrange(old(out)@.len() as int, final(out)@.len() as int)),
        dec_val(final(out)@.subrange(old(out)@.len() as int, final(out)@.len() as int)) == v,
{
    let ghost base = old(out)@;
    if v < 10 {
        out.push(48 + v);
        proof {
            let t = out@.subrange(base.len() as int, out@.len() as int);
            assert(t =~= seq![(48 + v) as u8]);
            lemma_small_dec_val(t);
            assert(out@.subrange(0, base.len() as int) =~= base);
        }
    } else if v < 100 {
        out.push(48 + v / 10);
        out.push(48 + v % 10);
        proof {
            let t = out@.subrange(base.len() as int, out@.len() as int);
            assert(t =~= seq![(48 + v / 10) as u8, (48 + v % 10) as u8]);
            lemma_small_dec_val(t);
            assert(out@.subrange(0, base.len() as int) =~= base);
        }
    } else {
        out.push(48 + v / 100);
        out.push(48 + (v / 10) % 10);
        out.push(48 + v % 10);
        proof {
            let t = out@.subrange(base.len() as int, out@.len() as int);
            assert(t =~= seq![(48 + v / 100) as u8, (48 + (v / 10) % 10) as u8, (48 + v % 10) as u8]);
            lemma_small_dec_val(t);
            assert(out@.subrange(0, base.len() as int) =~= base);
        }
    }
}

} // verus!

//! Broker wire messages.
//!
//! Two channels carry the coordination traffic. `state_updates` announces a
//! change of the waiting set as `{"Added":"<guid>"}` or
//! `{"Removed":"<guid>"}`; `callbacks` carries a matched submission as
//! `["<guid>","<number>"]`. Payloads are canonical: each message has exactly
//! one byte form, so the decoders accept precisely what the encoders
//! produce, and a payload determines its message.

use vstd::prelude::*;

use crate::bytes::append_vec;
use crate::bytes::copy_range;
use crate::escape::escape_bytes;
use crate::escape::escape_into;
use crate::escape::lemma_escape_injective;
use crate::escape::unescape_all;
use crate::guid::format_guid;
use crate::guid::guid_of_text;
use crate::guid::is_guid_text;
use crate::guid::parse_guid;
use crate::guid::Guid;

verus! {

/// A change of the waiting set, fanned out to every observer.
#[derive(Clone, Copy, PartialEq, Eq, Structural, Debug)]
pub enum StateUpdate {
    /// The requester entered the pending queue.
    Added(Guid),
    /// The requester left the pending queue.
    Removed(Guid),
}

/// `{"Added":"` then the GUID text then `"}`.
pub open spec fn added_payload(t: Seq<u8>) -> Seq<u8> {
    seq![123u8, 34u8, 65u8, 100u8, 100u8, 101u8, 100u8, 34u8, 58u8, 34u8] + t + seq![34u8, 125u8]
}

/// `{"Removed":"` then the GUID text then `"}`.
pub open spec fn removed_payload(t: Seq<u8>) -> Seq<u8> {
    seq![123u8, 34u8, 82u8, 101u8, 109u8, 111u8, 118u8, 101u8, 100u8, 34u8, 58u8, 34u8] + t + seq![
        34u8,
        125u8,
    ]
}

/// `p` is the wire form of the state update `u`.
pub open spec fn is_state_update_payload(p: Seq<u8>, u: StateUpdate) -> bool {
    match u {
        StateUpdate::Added(g) => exists|t: Seq<u8>|
            #[trigger] is_guid_text(t) && guid_of_text(t) == g && p == added_payload(t),
        StateUpdate::Removed(g) => exists|t: Seq<u8>|
            #[trigger] is_guid_text(t) && guid_of_text(t) == g && p == removed_payload(t),
    }
}

/// `["` then the GUID text then `","` then the escaped number then `"]`.
pub open spec fn callback_payload(t: Seq<u8>, n: Seq<u8>) -> Seq<u8> {
    seq![91u8, 34u8] + t + seq![34u8, 44u8, 34u8] + escape_bytes(n) + seq![34u8, 93u8]
}

/// `p` is the wire form of a callback delivering number `n` to waiter `g`.
pub open spec fn is_callback_payload(p: Seq<u8>, g: Guid, n: Seq<u8>) -> bool {
    exists|t: Seq<u8>|
        #[trigger] is_guid_text(t) && guid_of_text(t) == g && p == callback_payload(t, n)
}

/// What a state-update payload must look like, position by position.
#[verifier::rlimit(100)]
#[verifier::spinoff_prover]
proof fn lemma_state_update_payload_shape(p: Seq<u8>, u: StateUpdate)
    requires
        is_state_update_payload(p, u),
    ensures
        u is Added ==> {
            &&& p.len() == 48
            &&& p[0] == 123u8 && p[1] == 34u8 && p[2] == 65u8 && p[3] == 100u8 && p[4] == 100u8
                && p[5] == 101u8 && p[6] == 100u8 && p[7] == 34u8 && p[8] == 58u8 && p[9] == 34u8
            &&& p[46] == 34u8 && p[47] == 125u8
            &&& is_guid_text(p.subrange(10, 46))
            &&& guid_of_text(p.subrange(10, 46)) == u->Added_0
        },
        u is Removed ==> {
            &&& p.len() == 50
            &&& p[0] == 123u8 && p[1] == 34u8 && p[2] == 82u8 && p[3] == 101u8 && p[4] == 109u8
                && p[5] == 111u8 && p[6] == 118u8 && p[7] == 101u8 && p[8] == 100u8 && p[9] == 34u8
                && p[10] == 58u8 && p[11] == 34u8
            &&& p[48] == 34u8 && p[49] == 125u8
            &&& is_guid_text(p.subrange(12, 48))
            &&& guid_of_text(p.subrange(12, 48)) == u->Removed_0
        },
{
    match u {
        StateUpdate::Added(g) => {
            let t = choose|t: Seq<u8>|
                #[trigger] is_guid_text(t) && guid_of_text(t) == g && p == added_payload(t);
            assert(t.len() == 36);
            assert(p.subrange(10, 46) =~= t);
        },
        StateUpdate::Removed(g) => {
            let t = choose|t: Seq<u8>|
                #[trigger] is_guid_text(t) && guid_of_text(t) == g && p == removed_payload(t);
            assert(t.len() == 36);
            assert(p.subrange(12, 48) =~= t);
        },
    }
}

/// A payload names its state update: two readings of one payload agree.
pub proof fn lemma_state_update_payload_unique(p: Seq<u8>, u1: StateUpdate, u2: StateUpdate)
    requires
        is_state_update_payload(p, u1),
        is_state_update_payload(p, u2),
    ensures
        u1 == u2,
{
    lemma_state_update_payload_shape(p, u1);
    lemma_state_update_payload_shape(p, u2);
}

/// What a callback payload must look like, position by position.
#[verifier::rlimit(100)]
#[verifier::spinoff_prover]
proof fn lemma_callback_payload_shape(p: Seq<u8>, g: Guid, n: Seq<u8>)
    requires
        is_callback_payload(p, g, n),
    ensures
        p.len() == 43 + escape_bytes(n).len(),
        p[0] == 91u8 && p[1] == 34u8,
        p[38] == 34u8 && p[39] == 44u8 && p[40] == 34u8,
        p[p.len() - 2] == 34u8 && p[p.len() - 1] == 93u8,
        is_guid_text(p.subrange(2, 38)),
        guid_of_text(p.subrange(2, 38)) == g,
        p.subrange(41, p.len() - 2) == escape_bytes(n),
{
    let t = choose|t: Seq<u8>|
        #[trigger] is_guid_text(t) && guid_of_text(t) == g && p == callback_payload(t, n);
    assert(t.len() == 36);
    assert(p.subrange(2, 38) =~= t);
    assert(p.subrange(41, p.len() - 2) =~= escape_bytes(n));
}

/// A payload names its callback: the waiter and the number it carries are
/// determined by the bytes.
pub proof fn lemma_callback_payload_unique(
    p: Seq<u8>,
    g1: Guid,
    n1: Seq<u8>,
    g2: Guid,
    n2: Seq<u8>,
)
    requires
        is_callback_payload(p, g1, n1),
        is_callback_payload(p, g2, n2),
    ensures
        g1 == g2,
        n1 == n2,
{
    lemma_callback_payload_shape(p, g1, n1);
    lemma_callback_payload_shape(p, g2, n2);
    lemma_escape_injective(n1, n2);
}

/// Render a state update for the `state_updates` channel.
pub fn encode_state_update(u: &StateUpdate) -> (r: Vec<u8>)
    ensures
        is_state_update_payload(r@, *u),
{
    let mut out: Vec<u8> = Vec::new();
    match u {
        StateUpdate::Added(g) => {
            out.push(123);
            out.push(34);
            out.push(65);
            out.push(100);
            out.push(100);
            out.push(101);
            out.push(100);
            out.push(34);
            out.push(58);
            out.push(34);
            let t = format_guid(g);
            append_vec(&mut out, &t);
            out.push(34);
            out.push(125);
            proof {
                assert(out@ =~= added_payload(t@));
            }
        },
        StateUpdate::Removed(g) => {
            out.push(123);
            out.push(34);
            out.push(82);
            out.push(101);
            out.push(109);
            out.push(111);
            out.push(118);
            out.push(101);
            out.push(100);
            out.push(34);
            out.push(58);
            out.push(34);
            let t = format_guid(g);
            append_vec(&mut out, &t);
            out.push(34);
            out.push(125);
            proof {
                assert(out@ =~= removed_payload(t@));
            }
        },
    }
    out
}

/// Read a payload from the `state_updates` channel. Returns the update
/// exactly when the payload is the wire form of one, and nothing otherwise.
#[verifier::rlimit(100)]
#[verifier::spinoff_prover]
pub fn decode_state_update(p: &Vec<u8>) -> (r: Option<StateUpdate>)
    ensures
        r is Some ==> is_state_update_payload(p@, r->Some_0),
        r is None ==> forall|u: StateUpdate| !is_state_update_payload(p@, u),
{
    if p.len() == 48 {
        if !(p[0] == 123 && p[1] == 34 && p[2] == 65 && p[3] == 100 && p[4] == 100 && p[5] == 101
            && p[6] == 100 && p[7] == 34 && p[8] == 58 && p[9] == 34 && p[46] == 34 && p[47]
            == 125) {
            proof {
                assert forall|u: StateUpdate| !is_state_update_payload(p@, u) by {
                    if is_state_update_payload(p@, u) {
                        lemma_state_update_payload_shape(p@, u);
                    }
                }
            }
            return None;
        }
        let t = copy_range(p, 10, 46);
        match parse_guid(&t) {
            Some(g) => {
                proof {
                    assert(p@ =~= added_payload(t@));
                }
                Some(StateUpdate::Added(g))
            },
            None => {
                proof {
                    assert forall|u: StateUpdate| !is_state_update_payload(p@, u) by {
                        if is_state_update_payload(p@, u) {
                            lemma_state_update_payload_shape(p@, u);
                        }
                    }
                }
                None
            },
        }
    } else if p.len() == 50 {
        if !(p[0] == 123 && p[1] == 34 && p[2] == 82 && p[3] == 101 && p[4] == 109 && p[5] == 111
            && p[6] == 118 && p[7] == 101 && p[8] == 100 && p[9] == 34 && p[10] == 58 && p[11]
            == 34 && p[48] == 34 && p[49] == 125) {
            proof {
                assert forall|u: StateUpdate| !is_state_update_payload(p@, u) by {
                    if is_state_update_payload(p@, u) {
                        lemma_state_update_payload_shape(p@, u);
                    }
                }
            }
            return None;
        }
        let t = copy_range(p, 12, 48);
        match parse_guid(&t) {
            Some(g) => {
                proof {
                    assert(p@ =~= removed_payload(t@));
                }
                Some(StateUpdate::Removed(g))
            },
            None => {
                proof {
                    assert forall|u: StateUpdate| !is_state_update_payload(p@, u) by {
                        if is_state_update_payload(p@, u) {
                            lemma_state_update_payload_shape(p@, u);
                        }
                    }
                }
                None
            },
        }
    } else {
        proof {
            assert forall|u: StateUpdate| !is_state_update_payload(p@, u) by {
                if is_state_update_payload(p@, u) {
                    lemma_state_update_payload_shape(p@, u);
                }
            }
        }
        None
    }
}

/// Render a matched submission for the `callbacks` channel.
pub fn encode_callback(g: &Guid, n: &Vec<u8>) -> (r: Vec<u8>)
    ensures
        is_callback_payload(r@, *g, n@),
{
    let mut out: Vec<u8> = Vec::new();
    out.push(91);
    out.push(34);
    let t = format_guid(g);
    append_vec(&mut out, &t);
    out.push(34);
    out.push(44);
    out.push(34);
    escape_into(&mut out, n);
    out.push(34);
    out.push(93);
    proof {
        assert(out@ =~= callback_payload(t@, n@));
    }
    out
}

/// Read a payload from the `callbacks` channel. Returns the waiter and the
/// number exactly when the payload is the wire form of a callback, and
/// nothing otherwise.
#[verifier::rlimit(100)]
#[verifier::spinoff_prover]
pub fn decode_callback(p: &Vec<u8>) -> (r: Option<(Guid, Vec<u8>)>)
    ensures
        r is Some ==> is_callback_payload(p@, r->Some_0.0, r->Some_0.1@),
        r is None ==> forall|g: Guid, n: Seq<u8>| !is_callback_payload(p@, g, n),
{
    if p.len() < 43 {
        proof {
            assert forall|g: Guid, n: Seq<u8>| !is_callback_payload(p@, g, n) by {
                if is_callback_payload(p@, g, n) {
                    lemma_callback_payload_shape(p@, g, n);
                }
            }
        }
        return None;
    }
    if !(p[0] == 91 && p[1] == 34 && p[38] == 34 && p[39] == 44 && p[40] == 34 && p[p.len() - 2]
        == 34 && p[p.len() - 1] == 93) {
        proof {
            assert forall|g: Guid, n: Seq<u8>| !is_callback_payload(p@, g, n) by {
                if is_callback_payload(p@, g, n) {
                    lemma_callback_payload_shape(p@, g, n);
                }
            }
        }
        return None;
    }
    let t = copy_range(p, 2, 38);
    let g = match parse_guid(&t) {
        Some(g) => g,
        None => {
            proof {
                assert forall|g: Guid, n: Seq<u8>| !is_callback_payload(p@, g, n) by {
                    if is_callback_payload(p@, g, n) {
                        lemma_callback_payload_shape(p@, g, n);
                    }
                }
            }
            return None;
        },
    };
    let region = copy_range(p, 41, p.len() - 2);
    match unescape_all(&region) {
        Some(n) => {
            proof {
                assert(p@ =~= callback_payload(t@, n@));
            }
            Some((g, n))
        },
        None => {
            proof {
                assert forall|g2: Guid, n2: Seq<u8>| !is_callback_payload(p@, g2, n2) by {
                    if is_callback_payload(p@, g2, n2) {
                        lemma_callback_payload_shape(p@, g2, n2);
                    }
                }
            }
            None
        },
    }
}

} // verus!

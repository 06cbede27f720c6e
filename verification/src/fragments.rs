//! Rendered HTML fragments.
//!
//! The service answers browsers with small HTML snippets: the three submit
//! responses, the list items that observers splice into the waiting list
//! (with an attribute marker telling an insertion from a deletion), the full
//! waiting-list fallback, and the two error pages. Each fragment's bytes are
//! stated exactly.

use vstd::prelude::*;

use crate::bytes::append_vec;
use crate::guid::format_guid;
use crate::guid::guid_of_text;
use crate::guid::is_guid_text;
use crate::guid::Guid;

verus! {

/// The list item announcing `t` as waiting: `<li id="` then the GUID text,
/// `">`, the text again, and `</li>`.
pub open spec fn list_item_added(t: Seq<u8>) -> Seq<u8> {
    seq![60u8, 108u8, 105u8, 32u8, 105u8, 100u8, 61u8, 34u8] + t + seq![34u8, 62u8] + t + seq![60u8, 47u8, 108u8, 105u8, 62u8]
}

/// The list item withdrawing `t`: `<li id="` then the GUID text and
/// `" delete></li>`, whose marker tells the receiver to delete the element.
pub open spec fn list_item_removed(t: Seq<u8>) -> Seq<u8> {
    seq![60u8, 108u8, 105u8, 32u8, 105u8, 100u8, 61u8, 34u8] + t + seq![34u8, 32u8, 100u8, 101u8, 108u8, 101u8, 116u8, 101u8, 62u8, 60u8, 47u8, 108u8, 105u8, 62u8]
}

/// `p` is the list-item fragment for `g`, inserting when `delete` is false
/// and deleting when it is true.
pub open spec fn is_list_item_fragment(p: Seq<u8>, g: Guid, delete: bool) -> bool {
    exists|t: Seq<u8>|
        #[trigger] is_guid_text(t) && guid_of_text(t) == g && p == (if delete {
            list_item_removed(t)
        } else {
            list_item_added(t)
        })
}

/// Render the list item for one queue change.
pub fn render_list_item(g: &Guid, delete: bool) -> (r: Vec<u8>)
    ensures
        is_list_item_fragment(r@, *g, delete),
{
    let t = format_guid(g);
    let mut out: Vec<u8> = Vec::new();
    push_bytes_li_open(&mut out);
    append_vec(&mut out, &t);
    if delete {
        push_bytes_li_del(&mut out);
        proof {
            assert(out@ =~= list_item_removed(t@));
        }
    } else {
        push_bytes_li_mid(&mut out);
        append_vec(&mut out, &t);
        push_bytes_li_close(&mut out);
        proof {
            assert(out@ =~= list_item_added(t@));
        }
    }
    out
}

/// Append `<li id="`.
fn push_bytes_li_open(out: &mut Vec<u8>)
    ensures
        final(out)@ == old(out)@ + seq![60u8, 108u8, 105u8, 32u8, 105u8, 100u8, 61u8, 34u8],
{
    out.push(60);
    out.push(108);
    out.push(105);
    out.push(32);
    out.push(105);
    out.push(100);
    out.push(61);
    out.push(34);
    proof {
        assert(out@ =~= old(out)@ + seq![60u8, 108u8, 105u8, 32u8, 105u8, 100u8, 61u8, 34u8]);
    }
}

/// Append `">`.
fn push_bytes_li_mid(out: &mut Vec<u8>)
    ensures
        final(out)@ == old(out)@ + seq![34u8, 62u8],
{
    out.push(34);
    out.push(62);
    proof {
        assert(out@ =~= old(out)@ + seq![34u8, 62u8]);
    }
}

/// Append `</li>`.
fn push_bytes_li_close(out: &mut Vec<u8>)
    ensures
        final(out)@ == old(out)@ + seq![60u8, 47u8, 108u8, 105u8, 62u8],
{
    out.push(60);
    out.push(47);
    out.push(108);
    out.push(105);
    out.push(62);
    proof {
        assert(out@ =~= old(out)@ + seq![60u8, 47u8, 108u8, 105u8, 62u8]);
    }
}

/// Append `" delete></li>`.
fn push_bytes_li_del(out: &mut Vec<u8>)
    ensures
        final(out)@ == old(out)@ + seq![34u8, 32u8, 100u8, 101u8, 108u8, 101u8, 116u8, 101u8, 62u8, 60u8, 47u8, 108u8, 105u8, 62u8],
{
    out.push(34);
    out.push(32);
    out.push(100);
    out.push(101);
    out.push(108);
    out.push(101);
    out.push(116);
    out.push(101);
    out.push(62);
    out.push(60);
    out.push(47);
    out.push(108);
    out.push(105);
    out.push(62);
    proof {
        assert(out@ =~= old(out)@ + seq![34u8, 32u8, 100u8, 101u8, 108u8, 101u8, 116u8, 101u8, 62u8, 60u8, 47u8, 108u8, 105u8, 62u8]);
    }
}

/// The submit response for a banned or oversized number.
pub open spec fn input_field_error_bytes() -> Seq<u8> {
    seq![60u8, 100u8, 105u8, 118u8, 32u8, 99u8, 108u8, 97u8, 115u8, 115u8, 61u8, 34u8, 101u8, 114u8, 114u8, 111u8, 114u8, 34u8, 32u8, 99u8, 108u8, 97u8, 115u8, 115u8, 101u8, 115u8, 61u8, 34u8, 114u8, 101u8, 109u8, 111u8, 118u8, 101u8, 32u8, 101u8, 114u8, 114u8, 111u8, 114u8, 34u8, 62u8, 66u8, 97u8, 100u8, 33u8, 60u8, 47u8, 100u8, 105u8, 118u8, 62u8]
}

/// Render `input_field_error` exactly as `input_field_error_bytes` states.
pub fn render_input_field_error() -> (r: Vec<u8>)
    ensures
        r@ == input_field_error_bytes(),
{
    let mut out: Vec<u8> = Vec::new();
    out.push(60);
    out.push(100);
    out.push(105);
    out.push(118);
    out.push(32);
    out.push(99);
    out.push(108);
    out.push(97);
    out.push(115);
    out.push(115);
    out.push(61);
    out.push(34);
    out.push(101);
    out.push(114);
    out.push(114);
    out.push(111);
    out.push(114);
    out.push(34);
    out.push(32);
    out.push(99);
    out.push(108);
    out.push(97);
    out.push(115);
    out.push(115);
    out.push(101);
    out.push(115);
    out.push(61);
    out.push(34);
    out.push(114);
    out.push(101);
    out.push(109);
    out.push(111);
    out.push(118);
    out.push(101);
    out.push(32);
    out.push(101);
    out.push(114);
    out.push(114);
    out.push(111);
    out.push(114);
    out.push(34);
    out.push(62);
    out.push(66);
    out.push(97);
    out.push(100);
    out.push(33);
    out.push(60);
    out.push(47);
    out.push(100);
    out.push(105);
    out.push(118);
    out.push(62);
    proof {
        assert(out@ =~= input_field_error_bytes());
    }
    out
}

/// The submit response when nobody is waiting.
pub open spec fn input_field_warning_bytes() -> Seq<u8> {
    seq![60u8, 100u8, 105u8, 118u8, 32u8, 99u8, 108u8, 97u8, 115u8, 115u8, 61u8, 34u8, 119u8, 97u8, 114u8, 110u8, 105u8, 110u8, 103u8, 34u8, 32u8, 99u8, 108u8, 97u8, 115u8, 115u8, 101u8, 115u8, 61u8, 34u8, 114u8, 101u8, 109u8, 111u8, 118u8, 101u8, 32u8, 119u8, 97u8, 114u8, 110u8, 105u8, 110u8, 103u8, 34u8, 62u8, 78u8, 111u8, 98u8, 111u8, 100u8, 121u8, 32u8, 103u8, 111u8, 116u8, 32u8, 121u8, 111u8, 117u8, 114u8, 32u8, 110u8, 117u8, 109u8, 98u8, 101u8, 114u8, 33u8, 60u8, 47u8, 100u8, 105u8, 118u8, 62u8]
}

/// Render `input_field_warning` exactly as `input_field_warning_bytes` states.
pub fn render_input_field_warning() -> (r: Vec<u8>)
    ensures
        r@ == input_field_warning_bytes(),
{
    let mut out: Vec<u8> = Vec::new();
    out.push(60);
    out.push(100);
    out.push(105);
    out.push(118);
    out.push(32);
    out.push(99);
    out.push(108);
    out.push(97);
    out.push(115);
    out.push(115);
    out.push(61);
    out.push(34);
    out.push(119);
    out.push(97);
    out.push(114);
    out.push(110);
    out.push(105);
    out.push(110);
    out.push(103);
    out.push(34);
    out.push(32);
    out.push(99);
    out.push(108);
    out.push(97);
    out.push(115);
    out.push(115);
    out.push(101);
    out.push(115);
    out.push(61);
    out.push(34);
    out.push(114);
    out.push(101);
    out.push(109);
    out.push(111);
    out.push(118);
    out.push(101);
    out.push(32);
    out.push(119);
    out.push(97);
    out.push(114);
    out.push(110);
    out.push(105);
    out.push(110);
    out.push(103);
    out.push(34);
    out.push(62);
    out.push(78);
    out.push(111);
    out.push(98);
    out.push(111);
    out.push(100);
    out.push(121);
    out.push(32);
    out.push(103);
    out.push(111);
    out.push(116);
    out.push(32);
    out.push(121);
    out.push(111);
    out.push(117);
    out.push(114);
    out.push(32);
    out.push(110);
    out.push(117);
    out.push(109);
    out.push(98);
    out.push(101);
    out.push(114);
    out.push(33);
    out.push(60);
    out.push(47);
    out.push(100);
    out.push(105);
    out.push(118);
    out.push(62);
    proof {
        assert(out@ =~= input_field_warning_bytes());
    }
    out
}

/// The submit response after a successful match.
pub open spec fn input_field_success_bytes() -> Seq<u8> {
    seq![60u8, 100u8, 105u8, 118u8, 32u8, 99u8, 108u8, 97u8, 115u8, 115u8, 61u8, 34u8, 115u8, 117u8, 99u8, 99u8, 101u8, 115u8, 115u8, 34u8, 32u8, 99u8, 108u8, 97u8, 115u8, 115u8, 101u8, 115u8, 61u8, 34u8, 114u8, 101u8, 109u8, 111u8, 118u8, 101u8, 32u8, 115u8, 117u8, 99u8, 99u8, 101u8, 115u8, 115u8, 34u8, 62u8, 84u8, 104u8, 97u8, 110u8, 107u8, 115u8, 33u8, 60u8, 47u8, 100u8, 105u8, 118u8, 62u8]
}

/// Render `input_field_success` exactly as `input_field_success_bytes` states.
pub fn render_input_field_success() -> (r: Vec<u8>)
    ensures
        r@ == input_field_success_bytes(),
{
    let mut out: Vec<u8> = Vec::new();
    out.push(60);
    out.push(100);
    out.push(105);
    out.push(118);
    out.push(32);
    out.push(99);
    out.push(108);
    out.push(97);
    out.push(115);
    out.push(115);
    out.push(61);
    out.push(34);
    out.push(115);
    out.push(117);
    out.push(99);
    out.push(99);
    out.push(101);
    out.push(115);
    out.push(115);
    out.push(34);
    out.push(32);
    out.push(99);
    out.push(108);
    out.push(97);
    out.push(115);
    out.push(115);
    out.push(101);
    out.push(115);
    out.push(61);
    out.push(34);
    out.push(114);
    out.push(101);
    out.push(109);
    out.push(111);
    out.push(118);
    out.push(101);
    out.push(32);
    out.push(115);
    out.push(117);
    out.push(99);
    out.push(99);
    out.push(101);
    out.push(115);
    out.push(115);
    out.push(34);
    out.push(62);
    out.push(84);
    out.push(104);
    out.push(97);
    out.push(110);
    out.push(107);
    out.push(115);
    out.push(33);
    out.push(60);
    out.push(47);
    out.push(100);
    out.push(105);
    out.push(118);
    out.push(62);
    proof {
        assert(out@ =~= input_field_success_bytes());
    }
    out
}

/// The not-found page body.
pub open spec fn not_found_bytes() -> Seq<u8> {
    seq![60u8, 109u8, 97u8, 105u8, 110u8, 62u8, 60u8, 104u8, 49u8, 62u8, 52u8, 48u8, 52u8, 60u8, 47u8, 104u8, 49u8, 62u8, 60u8, 112u8, 62u8, 78u8, 111u8, 116u8, 104u8, 105u8, 110u8, 103u8, 32u8, 104u8, 101u8, 114u8, 101u8, 46u8, 60u8, 47u8, 112u8, 62u8, 60u8, 47u8, 109u8, 97u8, 105u8, 110u8, 62u8]
}

/// The internal-error page body.
pub open spec fn something_went_wrong_bytes() -> Seq<u8> {
    seq![60u8, 109u8, 97u8, 105u8, 110u8, 62u8, 60u8, 104u8, 49u8, 62u8, 53u8, 48u8, 48u8, 60u8, 47u8, 104u8, 49u8, 62u8, 60u8, 112u8, 62u8, 83u8, 111u8, 109u8, 101u8, 116u8, 104u8, 105u8, 110u8, 103u8, 32u8, 119u8, 101u8, 110u8, 116u8, 32u8, 119u8, 114u8, 111u8, 110u8, 103u8, 46u8, 60u8, 47u8, 112u8, 62u8, 60u8, 47u8, 109u8, 97u8, 105u8, 110u8, 62u8]
}

/// The page served when no route matches.
pub struct NotFoundTemplate;

impl NotFoundTemplate {
    /// Render the page body.
    pub fn render(&self) -> (r: Vec<u8>)
        ensures
            r@ == not_found_bytes(),
    {
        let mut out: Vec<u8> = Vec::new();
        out.push(60);
        out.push(109);
        out.push(97);
        out.push(105);
        out.push(110);
        out.push(62);
        out.push(60);
        out.push(104);
        out.push(49);
        out.push(62);
        out.push(52);
        out.push(48);
        out.push(52);
        out.push(60);
        out.push(47);
        out.push(104);
        out.push(49);
        out.push(62);
        out.push(60);
        out.push(112);
        out.push(62);
        out.push(78);
        out.push(111);
        out.push(116);
        out.push(104);
        out.push(105);
        out.push(110);
        out.push(103);
        out.push(32);
        out.push(104);
        out.push(101);
        out.push(114);
        out.push(101);
        out.push(46);
        out.push(60);
        out.push(47);
        out.push(112);
        out.push(62);
        out.push(60);
        out.push(47);
        out.push(109);
        out.push(97);
        out.push(105);
        out.push(110);
        out.push(62);
        proof {
            assert(out@ =~= not_found_bytes());
        }
        out
    }
}

/// The page served when rendering itself fails.
pub struct SomethingWentWrongTemplate;

impl SomethingWentWrongTemplate {
    /// Render the page body.
    pub fn render(&self) -> (r: Vec<u8>)
        ensures
            r@ == something_went_wrong_bytes(),
    {
        let mut out: Vec<u8> = Vec::new();
        out.push(60);
        out.push(109);
        out.push(97);
        out.push(105);
        out.push(110);
        out.push(62);
        out.push(60);
        out.push(104);
        out.push(49);
        out.push(62);
        out.push(53);
        out.push(48);
        out.push(48);
        out.push(60);
        out.push(47);
        out.push(104);
        out.push(49);
        out.push(62);
        out.push(60);
        out.push(112);
        out.push(62);
        out.push(83);
        out.push(111);
        out.push(109);
        out.push(101);
        out.push(116);
        out.push(104);
        out.push(105);
        out.push(110);
        out.push(103);
        out.push(32);
        out.push(119);
        out.push(101);
        out.push(110);
        out.push(116);
        out.push(32);
        out.push(119);
        out.push(114);
        out.push(111);
        out.push(110);
        out.push(103);
        out.push(46);
        out.push(60);
        out.push(47);
        out.push(112);
        out.push(62);
        out.push(60);
        out.push(47);
        out.push(109);
        out.push(97);
        out.push(105);
        out.push(110);
        out.push(62);
        proof {
            assert(out@ =~= something_went_wrong_bytes());
        }
        out
    }
}

/// The full waiting list: `<ul id="waitlist">`, one added-form item per waiter in
/// order, and `</ul>`. Observers render it from a queue snapshot when
/// they connect or reconnect.
pub open spec fn is_waitlist_items(p: Seq<u8>, gs: Seq<Guid>) -> bool
    decreases gs.len(),
{
    if gs.len() == 0 {
        p == Seq::<u8>::empty()
    } else {
        exists|q: Seq<u8>|
            #[trigger] is_list_item_fragment(q, gs[0], false) && q.len() <= p.len() && p.subrange(
                0,
                q.len() as int,
            ) == q && is_waitlist_items(p.skip(q.len() as int), gs.drop_first())
    }
}

/// `p` is the rendered waiting list for the snapshot `gs`.
pub open spec fn is_waitlist_fragment(p: Seq<u8>, gs: Seq<Guid>) -> bool {
    exists|mid: Seq<u8>|
        #[trigger] is_waitlist_items(mid, gs) && p == seq![60u8, 117u8, 108u8, 32u8, 105u8, 100u8, 61u8, 34u8, 119u8, 97u8, 105u8, 116u8, 108u8, 105u8, 115u8, 116u8, 34u8, 62u8] + mid + seq![60u8, 47u8, 117u8, 108u8, 62u8]
}

/// Render the waiting list from a queue snapshot.
pub fn render_waitlist(gs: &Vec<Guid>) -> (r: Vec<u8>)
    ensures
        is_waitlist_fragment(r@, gs@),
{
    let mut mid: Vec<u8> = Vec::new();
    let mut i: usize = gs.len();
    proof {
        assert(gs@.skip(gs@.len() as int) =~= Seq::<Guid>::empty());
    }
    while i > 0
        invariant
            i <= gs.len(),
            is_waitlist_items(mid@, gs@.skip(i as int)),
        decreases i,
    {
        i = i - 1;
        let item = render_list_item(&gs[i], false);
        let mut next: Vec<u8> = item;
        append_vec(&mut next, &mid);
        proof {
            assert(gs@.skip(i as int).len() > 0);
            assert(gs@.skip(i as int)[0] == gs@[i as int]);
            assert(gs@.skip(i as int).drop_first() =~= gs@.skip(i + 1));
            assert(is_list_item_fragment(item@, gs@.skip(i as int)[0], false));
            assert(is_waitlist_items(mid@, gs@.skip(i as int).drop_first()));
            assert(next@ == item@ + mid@);
            assert(next@.subrange(0, item@.len() as int) =~= item@);
            assert(next@.skip(item@.len() as int) =~= mid@);
            assert(is_waitlist_items(next@, gs@.skip(i as int)));
        }
        mid = next;
    }
    proof {
        assert(gs@.skip(0) =~= gs@);
    }
    let mut out: Vec<u8> = Vec::new();
    out.push(60);
    out.push(117);
    out.push(108);
    out.push(32);
    out.push(105);
    out.push(100);
    out.push(61);
    out.push(34);
    out.push(119);
    out.push(97);
    out.push(105);
    out.push(116);
    out.push(108);
    out.push(105);
    out.push(115);
    out.push(116);
    out.push(34);
    out.push(62);
    append_vec(&mut out, &mid);
    out.push(60);
    out.push(47);
    out.push(117);
    out.push(108);
    out.push(62);
    proof {
        assert(out@ =~= seq![60u8, 117u8, 108u8, 32u8, 105u8, 100u8, 61u8, 34u8, 119u8, 97u8, 105u8, 116u8, 108u8, 105u8, 115u8, 116u8, 34u8, 62u8] + mid@ + seq![60u8, 47u8, 117u8, 108u8, 62u8]);
    }
    out
}

} // verus!

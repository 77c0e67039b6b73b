//! What a host receives: one frame per effect — a kind, a `u32` length, the
//! view's own bytes — then one frame per abandoned request, and, from the
//! handle table, one per machine that woke.

use crate::boundary::codec::{framed_payload, le_u32, le_u64, Encode, Writer};
use crate::driver::step::Step;
use crate::host::contract::{FRAME_ASK, FRAME_CLOSED, FRAME_TELL, FRAME_WOKE};
use vstd::prelude::*;

verus! {

/// One effect as a host sees it, and whether it awaits a reply: what the byte
/// layer needs to frame it.
pub struct Shown<V> {
    /// The handle-free view.
    pub view: V,
    /// `true` if the effect awaits a reply.
    pub awaits: bool,
}

/// One frame: its kind, then its payload length-prefixed.
pub open spec fn frame(kind: u8, payload: Seq<u8>) -> Seq<u8> {
    seq![kind] + framed_payload(payload)
}

/// The frame kind of a shown effect.
pub open spec fn frame_kind(awaits: bool) -> u8 {
    if awaits {
        FRAME_ASK
    } else {
        FRAME_TELL
    }
}

/// The frames of shown effects, in order.
pub open spec fn effect_frames<V: Encode>(effects: Seq<Shown<V>>) -> Seq<u8>
    decreases effects.len(),
{
    if effects.len() == 0 {
        Seq::empty()
    } else {
        effect_frames(effects.drop_last()) + frame(
            frame_kind(effects.last().awaits),
            effects.last().view.encoding(),
        )
    }
}

/// One frame of kind `kind` per id, each holding the id's eight bytes.
pub open spec fn id_frames(kind: u8, ids: Seq<u64>) -> Seq<u8>
    decreases ids.len(),
{
    if ids.len() == 0 {
        Seq::empty()
    } else {
        id_frames(kind, ids.drop_last()) + frame(kind, le_u64(ids.last()))
    }
}

/// Every view can be framed.
pub open spec fn frameable<V: Encode>(effects: Seq<Shown<V>>) -> bool {
    forall|i: int|
        0 <= i < effects.len() ==> #[trigger] effects[i].view.encodable()
            && effects[i].view.encoding().len() <= u32::MAX
}

/// Append one frame of kind `kind` per id.
fn write_id_frames(w: &mut Writer, kind: u8, ids: &[u64])
    ensures
        final(w)@ == old(w)@ + id_frames(kind, ids@),
{
    let n = ids.len();
    let mut i: usize = 0;
    while i < n
        invariant
            n == ids@.len(),
            0 <= i <= n,
            w@ == old(w)@ + id_frames(kind, ids@.take(i as int)),
        decreases n - i,
    {
        let id = ids[i];
        let bytes = id.to_bytes();
        proof {
            vstd::bytes::lemma_auto_spec_u64_to_from_le_bytes();
        }
        w.u8(kind);
        w.bytes(bytes.as_slice());
        proof {
            let t = ids@.take(i + 1);
            assert(t.drop_last() =~= ids@.take(i as int));
            assert(t.last() == id);
            assert(w@ =~= old(w)@ + id_frames(kind, t));
        }
        i = i + 1;
    }
    proof {
        assert(ids@.take(n as int) =~= ids@);
    }
}

/// One frame per effect — kind, `u32` length, the view's own bytes — then
/// one closed frame per abandoned id.
pub fn encode<V: Encode>(step: &Step<Shown<V>>) -> (bytes: Vec<u8>)
    requires
        frameable(step@.0),
    ensures
        bytes@ == effect_frames(step@.0) + id_frames(FRAME_CLOSED, step@.1),
{
    let effects = step.effects();
    let n = effects.len();
    let mut w = Writer::new();
    let mut i: usize = 0;
    while i < n
        invariant
            n == effects@.len(),
            effects@ == step@.0,
            frameable(step@.0),
            0 <= i <= n,
            w@ == effect_frames(effects@.take(i as int)),
        decreases n - i,
    {
        let shown = &effects[i];
        proof {
            assert(effects@[i as int].view.encodable());
        }
        let bytes = shown.view.to_bytes();
        w.u8(if shown.awaits { FRAME_ASK } else { FRAME_TELL });
        w.bytes(bytes.as_slice());
        proof {
            let t = effects@.take(i + 1);
            assert(t.drop_last() =~= effects@.take(i as int));
            assert(w@ =~= effect_frames(t));
        }
        i = i + 1;
    }
    proof {
        assert(effects@.take(n as int) =~= effects@);
    }
    write_id_frames(&mut w, FRAME_CLOSED, step.closed());
    w.finish()
}

/// One woke frame per machine handle, in order.
pub fn woke_frames(handles: &[u64]) -> (bytes: Vec<u8>)
    ensures
        bytes@ == id_frames(FRAME_WOKE, handles@),
{
    let mut w = Writer::new();
    write_id_frames(&mut w, FRAME_WOKE, handles);
    proof {
        assert(w@ =~= id_frames(FRAME_WOKE, handles@));
    }
    w.finish()
}

/// The frames of ids hold one frame per id, in order: thirteen bytes each,
/// the `k`-th being the kind, the length `8`, and the `k`-th id's eight
/// little-endian bytes.
pub proof fn lemma_id_frames_carry_each_id(kind: u8, ids: Seq<u64>)
    ensures
        id_frames(kind, ids).len() == 13 * ids.len(),
        forall|k: int|
            0 <= k < ids.len() ==> #[trigger] id_frames(kind, ids).subrange(13 * k, 13 * k + 13)
                == seq![kind] + le_u32(8) + le_u64(ids[k]),
    decreases ids.len(),
{
    vstd::bytes::lemma_auto_spec_u64_to_from_le_bytes();
    vstd::bytes::lemma_auto_spec_u32_to_from_le_bytes();
    if ids.len() > 0 {
        let d = ids.drop_last();
        lemma_id_frames_carry_each_id(kind, d);
        let prev = id_frames(kind, d);
        let last = frame(kind, le_u64(ids.last()));
        assert(le_u64(ids.last()).len() == 8);
        assert(last =~= seq![kind] + le_u32(8) + le_u64(ids.last()));
        let all = id_frames(kind, ids);
        assert(all == prev + last);
        assert forall|k: int| 0 <= k < ids.len() implies #[trigger] all.subrange(13 * k, 13 * k + 13)
            == seq![kind] + le_u32(8) + le_u64(ids[k]) by {
            if k < d.len() {
                assert(all.subrange(13 * k, 13 * k + 13) =~= prev.subrange(13 * k, 13 * k + 13));
                assert(d[k] == ids[k]);
            } else {
                assert(all.subrange(13 * k, 13 * k + 13) =~= last);
            }
        }
    }
}

/// Framing one more effect appends its own frame after the others: an
/// effect awaiting a reply is an ask frame (`2`), any other a tell frame
/// (`1`), each its kind, its payload's `u32` length, and the payload.
pub proof fn lemma_effect_frames_append<V: Encode>(effects: Seq<Shown<V>>, next: Shown<V>)
    ensures
        effect_frames(effects.push(next)) == effect_frames(effects) + seq![
            if next.awaits {
                2u8
            } else {
                1u8
            },
        ] + le_u32(next.view.encoding().len() as u32) + next.view.encoding(),
        effect_frames(Seq::<Shown<V>>::empty()) == Seq::<u8>::empty(),
{
    assert(effects.push(next).drop_last() =~= effects);
    let k: u8 = if next.awaits {
        2u8
    } else {
        1u8
    };
    assert(frame(frame_kind(next.awaits), next.view.encoding()) =~= seq![k] + le_u32(
        next.view.encoding().len() as u32,
    ) + next.view.encoding());
    assert(effect_frames(effects) + frame(frame_kind(next.awaits), next.view.encoding())
        =~= effect_frames(effects) + seq![k] + le_u32(next.view.encoding().len() as u32)
        + next.view.encoding());
}

/// Framing one more id appends that id's frame after the others.
pub proof fn lemma_id_frames_append(kind: u8, ids: Seq<u64>, id: u64)
    ensures
        id_frames(kind, ids.push(id)) == id_frames(kind, ids) + seq![kind] + le_u32(8) + le_u64(id),
{
    vstd::bytes::lemma_auto_spec_u64_to_from_le_bytes();
    assert(ids.push(id).drop_last() =~= ids);
    assert(le_u64(id).len() == 8);
    assert(id_frames(kind, ids) + frame(kind, le_u64(id)) =~= id_frames(kind, ids) + seq![kind]
        + le_u32(8) + le_u64(id));
}

} // verus!

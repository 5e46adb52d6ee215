//! The broadcast hub: per-place registry of viewer sinks.
//!
//! Each registered sink owns a bounded outbound queue so that a slow or
//! stalled viewer never delays delivery to other viewers and never blocks
//! the paint path: a broadcast only appends to queues. A sink whose queue
//! is full counts as a failed send and is dropped from the hub; dropping
//! it never aborts the broadcast. The hosting connection drains its
//! queue with `take_outbox` and performs the actual network sends.

use vstd::prelude::*;

verus! {

/// One grid update pushed to viewers: (x, y, z, color).
#[derive(Clone, Copy, Debug, PartialEq, Eq, Structural)]
pub struct UpdateMessage(pub usize, pub usize, pub usize, pub u8);

/// A registered viewer sink and its pending outbound messages.
pub struct SinkSlot {
    pub place_id: i64,
    pub sink_id: u64,
    pub capacity: usize,
    pub outbox: Vec<UpdateMessage>,
}

/// Mathematical image of a `SinkSlot`.
pub struct SlotModel {
    pub place_id: i64,
    pub sink_id: u64,
    pub capacity: usize,
    pub outbox: Seq<UpdateMessage>,
}

impl View for SinkSlot {
    type V = SlotModel;

    open spec fn view(&self) -> SlotModel {
        SlotModel {
            place_id: self.place_id,
            sink_id: self.sink_id,
            capacity: self.capacity,
            outbox: self.outbox@,
        }
    }
}

pub open spec fn slots_view(s: Seq<SinkSlot>) -> Seq<SlotModel> {
    s.map_values(|slot: SinkSlot| slot@)
}

/// A sink is live while its queue has room for one more message.
pub open spec fn slot_live(m: SlotModel) -> bool {
    m.outbox.len() < m.capacity
}

pub open spec fn distinct_sink_ids(s: Seq<SlotModel>) -> bool {
    forall|i: int, j: int|
        0 <= i < s.len() && 0 <= j < s.len() && i != j
            ==> #[trigger] s[i].sink_id != #[trigger] s[j].sink_id
}

pub open spec fn sink_id_in(s: Seq<SlotModel>, id: u64) -> bool {
    exists|i: int| 0 <= i < s.len() && #[trigger] s[i].sink_id == id
}

pub open spec fn sink_ids_below(s: Seq<SlotModel>, bound: u64) -> bool {
    forall|i: int| 0 <= i < s.len() ==> #[trigger] s[i].sink_id < bound
}

/// What one broadcast does to the slot list, in order: a slot of another
/// place is kept as it is; a live slot of the place gets the message
/// appended to its queue; a full slot of the place is dropped.
pub open spec fn spec_fanout(s: Seq<SlotModel>, place_id: i64, m: UpdateMessage) -> Seq<SlotModel>
    decreases s.len(),
{
    if s.len() == 0 {
        Seq::empty()
    } else {
        let head = s.first();
        let rest = spec_fanout(s.drop_first(), place_id, m);
        if head.place_id != place_id {
            seq![head] + rest
        } else if slot_live(head) {
            seq![SlotModel { outbox: head.outbox.push(m), ..head }] + rest
        } else {
            rest
        }
    }
}

/// Every slot of the fan-out image descends from a slot of the input:
/// sink ids are preserved, never invented, and stay distinct.
pub proof fn lemma_fanout_ids(s: Seq<SlotModel>, place_id: i64, m: UpdateMessage)
    ensures
        forall|j: int|
            0 <= j < spec_fanout(s, place_id, m).len()
                ==> sink_id_in(s, #[trigger] spec_fanout(s, place_id, m)[j].sink_id),
        distinct_sink_ids(s) ==> distinct_sink_ids(spec_fanout(s, place_id, m)),
    decreases s.len(),
{
    let f = spec_fanout(s, place_id, m);
    if s.len() > 0 {
        let head = s.first();
        let tail = s.drop_first();
        let ft = spec_fanout(tail, place_id, m);
        lemma_fanout_ids(tail, place_id, m);
        assert forall|j: int| 0 <= j < f.len()
            implies sink_id_in(s, #[trigger] f[j].sink_id) by {
            if head.place_id != place_id || slot_live(head) {
                if j == 0 {
                    assert(s[0].sink_id == f[0].sink_id);
                } else {
                    assert(f[j] == ft[j - 1]);
                    let w = choose|i: int| 0 <= i < tail.len()
                        && #[trigger] tail[i].sink_id == ft[j - 1].sink_id;
                    assert(s[w + 1].sink_id == f[j].sink_id);
                }
            } else {
                assert(f[j] == ft[j]);
                let w = choose|i: int| 0 <= i < tail.len()
                    && #[trigger] tail[i].sink_id == ft[j].sink_id;
                assert(s[w + 1].sink_id == f[j].sink_id);
            }
        }
        if distinct_sink_ids(s) {
            assert forall|i: int, j: int|
                0 <= i < tail.len() && 0 <= j < tail.len() && i != j
                    implies #[trigger] tail[i].sink_id != #[trigger] tail[j].sink_id by {
                assert(tail[i] == s[i + 1]);
                assert(tail[j] == s[j + 1]);
            }
            assert forall|i: int, j: int|
                0 <= i < f.len() && 0 <= j < f.len() && i != j
                    implies #[trigger] f[i].sink_id != #[trigger] f[j].sink_id by {
                if head.place_id != place_id || slot_live(head) {
                    let a = if i < j { i } else { j };
                    let b = if i < j { j } else { i };
                    if a == 0 {
                        assert(f[b] == ft[b - 1]);
                        let w = choose|k: int| 0 <= k < tail.len()
                            && #[trigger] tail[k].sink_id == ft[b - 1].sink_id;
                        assert(tail[w] == s[w + 1]);
                        assert(s[0].sink_id != s[w + 1].sink_id);
                    } else {
                        assert(f[a] == ft[a - 1]);
                        assert(f[b] == ft[b - 1]);
                    }
                } else {
                    assert(f[i] == ft[i]);
                    assert(f[j] == ft[j]);
                }
            }
        }
    }
}

/// A live sink of the place receives exactly one copy of the message,
/// appended at the end of its queue.
pub proof fn lemma_fanout_delivers(s: Seq<SlotModel>, place_id: i64, m: UpdateMessage, i: int)
    requires
        0 <= i < s.len(),
        s[i].place_id == place_id,
        slot_live(s[i]),
    ensures
        exists|j: int|
            0 <= j < spec_fanout(s, place_id, m).len()
                && #[trigger] spec_fanout(s, place_id, m)[j]
                    == (SlotModel { outbox: s[i].outbox.push(m), ..s[i] }),
    decreases s.len(),
{
    let f = spec_fanout(s, place_id, m);
    let head = s.first();
    let tail = s.drop_first();
    let ft = spec_fanout(tail, place_id, m);
    if i == 0 {
        assert(f[0] == SlotModel { outbox: s[0].outbox.push(m), ..s[0] });
    } else {
        assert(tail[i - 1] == s[i]);
        lemma_fanout_delivers(tail, place_id, m, i - 1);
        let j = choose|j: int| 0 <= j < ft.len()
            && #[trigger] ft[j] == SlotModel { outbox: tail[i - 1].outbox.push(m), ..tail[i - 1] };
        if head.place_id != place_id || slot_live(head) {
            assert(f[j + 1] == ft[j]);
        } else {
            assert(f[j] == ft[j]);
        }
    }
}

/// A sink registered on another place is untouched by the broadcast.
pub proof fn lemma_fanout_other_place(s: Seq<SlotModel>, place_id: i64, m: UpdateMessage, i: int)
    requires
        0 <= i < s.len(),
        s[i].place_id != place_id,
    ensures
        exists|j: int|
            0 <= j < spec_fanout(s, place_id, m).len()
                && #[trigger] spec_fanout(s, place_id, m)[j] == s[i],
    decreases s.len(),
{
    let f = spec_fanout(s, place_id, m);
    let head = s.first();
    let tail = s.drop_first();
    let ft = spec_fanout(tail, place_id, m);
    if i == 0 {
        assert(f[0] == s[0]);
    } else {
        assert(tail[i - 1] == s[i]);
        lemma_fanout_other_place(tail, place_id, m, i - 1);
        let j = choose|j: int| 0 <= j < ft.len() && #[trigger] ft[j] == tail[i - 1];
        if head.place_id != place_id || slot_live(head) {
            assert(f[j + 1] == ft[j]);
        } else {
            assert(f[j] == ft[j]);
        }
    }
}

/// Delivery order matches paint-application order: a sink of the place
/// that stays live through two successive broadcasts holds the two
/// messages at the end of its queue, in broadcast order.
pub proof fn lemma_fanout_order(
    s: Seq<SlotModel>,
    place_id: i64,
    m1: UpdateMessage,
    m2: UpdateMessage,
    i: int,
)
    requires
        0 <= i < s.len(),
        s[i].place_id == place_id,
        s[i].outbox.len() + 1 < s[i].capacity,
    ensures
        exists|j: int|
            0 <= j < spec_fanout(spec_fanout(s, place_id, m1), place_id, m2).len()
                && #[trigger] spec_fanout(spec_fanout(s, place_id, m1), place_id, m2)[j]
                    == (SlotModel { outbox: s[i].outbox.push(m1).push(m2), ..s[i] }),
{
    let f1 = spec_fanout(s, place_id, m1);
    lemma_fanout_delivers(s, place_id, m1, i);
    let j1 = choose|j: int| 0 <= j < f1.len()
        && #[trigger] f1[j] == SlotModel { outbox: s[i].outbox.push(m1), ..s[i] };
    assert(slot_live(f1[j1]));
    lemma_fanout_delivers(f1, place_id, m2, j1);
}

pub struct BroadcastHub {
    pub slots: Vec<SinkSlot>,
    pub next_sink_id: u64,
}

impl BroadcastHub {
    /// Sink ids are distinct and all lie below the allocation counter.
    pub open spec fn wf(&self) -> bool {
        &&& distinct_sink_ids(slots_view(self.slots@))
        &&& sink_ids_below(slots_view(self.slots@), self.next_sink_id)
    }

    pub open spec fn view_of(&self) -> Seq<SlotModel> {
        slots_view(self.slots@)
    }

    pub fn new() -> (r: BroadcastHub)
        ensures
            r.wf(),
            r.view_of().len() == 0,
    {
        BroadcastHub { slots: Vec::new(), next_sink_id: 0 }
    }

    /// Registers a viewer sink on a place with a fresh id and an empty
    /// bounded queue. Fails only when the id space is exhausted.
    pub fn register(&mut self, place_id: i64, capacity: usize) -> (r: Option<u64>)
        requires
            old(self).wf(),
        ensures
            final(self).wf(),
            r is Some <==> old(self).next_sink_id < u64::MAX,
            r matches Some(id) ==> {
                &&& id == old(self).next_sink_id
                &&& final(self).view_of() == old(self).view_of().push(
                    SlotModel { place_id, sink_id: id, capacity, outbox: Seq::empty() })
                &&& final(self).next_sink_id == old(self).next_sink_id + 1
            },
            r is None ==> *final(self) == *old(self),
    {
        if self.next_sink_id == u64::MAX {
            return None;
        }
        let id = self.next_sink_id;
        self.next_sink_id = id + 1;
        self.slots.push(SinkSlot { place_id, sink_id: id, capacity, outbox: Vec::new() });
        proof {
            let v0 = slots_view(old(self).slots@);
            let v1 = slots_view(self.slots@);
            assert(v1 =~= v0.push(
                SlotModel { place_id, sink_id: id, capacity, outbox: Seq::empty() }));
            assert forall|a: int, b: int|
                0 <= a < v1.len() && 0 <= b < v1.len() && a != b
                    implies #[trigger] v1[a].sink_id != #[trigger] v1[b].sink_id by {
                if a < v1.len() - 1 && b < v1.len() - 1 {
                    assert(v1[a] == v0[a] && v1[b] == v0[b]);
                } else {
                    let c = if a < v1.len() - 1 { a } else { b };
                    assert(v1[c] == v0[c]);
                    assert(v0[c].sink_id < id);
                }
            }
            assert(sink_ids_below(v1, self.next_sink_id));
        }
        Some(id)
    }

    /// Removes the sink, if present; no other slot moves relative order.
    pub fn unregister(&mut self, sink_id: u64)
        requires
            old(self).wf(),
        ensures
            final(self).wf(),
            final(self).next_sink_id == old(self).next_sink_id,
            !sink_id_in(old(self).view_of(), sink_id) ==> *final(self) == *old(self),
            sink_id_in(old(self).view_of(), sink_id) ==> exists|i: int|
                0 <= i < old(self).view_of().len()
                    && old(self).view_of()[i].sink_id == sink_id
                    && #[trigger] final(self).view_of() == old(self).view_of().remove(i),
    {
        let ghost v0 = slots_view(self.slots@);
        let n = self.slots.len();
        let mut i: usize = 0;
        while i < n
            invariant
                self == old(self),
                old(self).wf(),
                v0 == slots_view(self.slots@),
                n == self.slots@.len(),
                i <= n,
                forall|j: int| 0 <= j < i ==> #[trigger] v0[j].sink_id != sink_id,
            decreases n - i,
        {
            if self.slots[i].sink_id == sink_id {
                proof {
                    assert(v0[i as int].sink_id == sink_id);
                    assert(sink_id_in(v0, sink_id));
                }
                self.slots.remove(i);
                proof {
                    let v1 = slots_view(self.slots@);
                    v0.remove_ensures(i as int);
                    assert(v1 =~= v0.remove(i as int));
                    assert forall|a: int, b: int|
                        0 <= a < v1.len() && 0 <= b < v1.len() && a != b
                            implies #[trigger] v1[a].sink_id != #[trigger] v1[b].sink_id by {
                        let a0 = if a < i { a } else { a + 1 };
                        let b0 = if b < i { b } else { b + 1 };
                        assert(v1[a] == v0[a0] && v1[b] == v0[b0]);
                    }
                    assert forall|a: int| 0 <= a < v1.len()
                        implies #[trigger] v1[a].sink_id < self.next_sink_id by {
                        let a0 = if a < i { a } else { a + 1 };
                        assert(v1[a] == v0[a0]);
                    }
                }
                return;
            }
            i = i + 1;
        }
    }

    /// Hands the sink's queued messages out for sending and leaves its
    /// queue empty. The caller owns the actual network I/O.
    pub fn take_outbox(&mut self, sink_id: u64) -> (r: Option<Vec<UpdateMessage>>)
        requires
            old(self).wf(),
        ensures
            final(self).wf(),
            final(self).next_sink_id == old(self).next_sink_id,
            r is Some <==> sink_id_in(old(self).view_of(), sink_id),
            r is None ==> *final(self) == *old(self),
            r matches Some(v) ==> exists|i: int|
                0 <= i < old(self).view_of().len()
                    && old(self).view_of()[i].sink_id == sink_id
                    && v@ == old(self).view_of()[i].outbox
                    && #[trigger] final(self).view_of() == old(self).view_of().update(
                        i, SlotModel { outbox: Seq::empty(), ..old(self).view_of()[i] }),
    {
        let ghost v0 = slots_view(self.slots@);
        let n = self.slots.len();
        let mut i: usize = 0;
        while i < n
            invariant
                self == old(self),
                old(self).wf(),
                v0 == slots_view(self.slots@),
                n == self.slots@.len(),
                i <= n,
                forall|j: int| 0 <= j < i ==> #[trigger] v0[j].sink_id != sink_id,
            decreases n - i,
        {
            if self.slots[i].sink_id == sink_id {
                let mut taken: Vec<UpdateMessage> = Vec::new();
                let slot = slot_at(&mut self.slots, i);
                core::mem::swap(&mut slot.outbox, &mut taken);
                proof {
                    let v1 = slots_view(self.slots@);
                    assert(v1 =~= v0.update(
                        i as int, SlotModel { outbox: Seq::empty(), ..v0[i as int] }));
                    assert forall|a: int, b: int|
                        0 <= a < v1.len() && 0 <= b < v1.len() && a != b
                            implies #[trigger] v1[a].sink_id != #[trigger] v1[b].sink_id by {
                        assert(v1[a].sink_id == v0[a].sink_id);
                        assert(v1[b].sink_id == v0[b].sink_id);
                    }
                    assert forall|a: int| 0 <= a < v1.len()
                        implies #[trigger] v1[a].sink_id < self.next_sink_id by {
                        assert(v1[a].sink_id == v0[a].sink_id);
                    }
                }
                return Some(taken);
            }
            i = i + 1;
        }
        None
    }

    /// Fans one update out to every sink registered on the place: each
    /// live sink gets the message appended to its queue, a full sink is
    /// dropped, and sinks of other places are untouched.
    pub fn broadcast(&mut self, place_id: i64, msg: UpdateMessage)
        requires
            old(self).wf(),
        ensures
            final(self).wf(),
            final(self).next_sink_id == old(self).next_sink_id,
            final(self).view_of() == spec_fanout(old(self).view_of(), place_id, msg),
    {
        let ghost v0 = slots_view(self.slots@);
        let mut rest = self.slots.split_off(0);
        let mut out: Vec<SinkSlot> = Vec::new();
        proof {
            assert(slots_view(rest@) =~= v0);
            assert(slots_view(out@) + spec_fanout(slots_view(rest@), place_id, msg)
                =~= spec_fanout(v0, place_id, msg));
        }
        while rest.len() > 0
            invariant
                slots_view(out@) + spec_fanout(slots_view(rest@), place_id, msg)
                    == spec_fanout(v0, place_id, msg),
            decreases rest@.len(),
        {
            let ghost r0 = slots_view(rest@);
            let ghost o0 = slots_view(out@);
            let mut slot = rest.remove(0);
            proof {
                assert(r0.first() == slot@);
                assert(slots_view(rest@) =~= r0.drop_first());
            }
            let ghost r1 = slots_view(rest@);
            if slot.place_id != place_id {
                out.push(slot);
                proof {
                    assert(slots_view(out@) =~= o0.push(r0.first()));
                    assert(spec_fanout(r0, place_id, msg)
                        =~= seq![r0.first()] + spec_fanout(r1, place_id, msg));
                    assert(o0.push(r0.first()) + spec_fanout(r1, place_id, msg)
                        =~= o0 + spec_fanout(r0, place_id, msg));
                }
            } else if slot.outbox.len() < slot.capacity {
                slot.outbox.push(msg);
                proof {
                    assert(slot@ == SlotModel { outbox: r0.first().outbox.push(msg), ..r0.first() });
                }
                out.push(slot);
                proof {
                    assert(slots_view(out@) =~= o0.push(
                        SlotModel { outbox: r0.first().outbox.push(msg), ..r0.first() }));
                    assert(spec_fanout(r0, place_id, msg)
                        =~= seq![SlotModel { outbox: r0.first().outbox.push(msg), ..r0.first() }]
                            + spec_fanout(r1, place_id, msg));
                    assert(slots_view(out@) + spec_fanout(r1, place_id, msg)
                        =~= o0 + spec_fanout(r0, place_id, msg));
                }
            } else {
                proof {
                    assert(spec_fanout(r0, place_id, msg) == spec_fanout(r1, place_id, msg));
                }
            }
        }
        proof {
            assert(slots_view(rest@).len() == 0);
            assert(spec_fanout(slots_view(rest@), place_id, msg) =~= Seq::<SlotModel>::empty());
            assert(slots_view(out@) =~= spec_fanout(v0, place_id, msg));
        }
        self.slots = out;
        proof {
            lemma_fanout_ids(v0, place_id, msg);
            assert forall|a: int| 0 <= a < self.view_of().len()
                implies #[trigger] self.view_of()[a].sink_id < self.next_sink_id by {
                assert(sink_id_in(v0, self.view_of()[a].sink_id));
                let w = choose|i: int| 0 <= i < v0.len()
                    && #[trigger] v0[i].sink_id == self.view_of()[a].sink_id;
            }
        }
    }
}

/// Mutable access to one slot of the registry.
fn slot_at<'a>(v: &'a mut Vec<SinkSlot>, i: usize) -> (r: &'a mut SinkSlot)
    requires
        i < old(v)@.len(),
    ensures
        *r == old(v)@[i as int],
        final(v)@ == old(v)@.update(i as int, *final(r)),
{
    &mut v[i]
}

} // verus!

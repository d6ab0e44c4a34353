use vstd::prelude::*;

use crate::codec::RfCatPacket;
use crate::commands::{spec_command_code, spec_mailbox_code, AppMailbox, SystemCommand};
use queues::IsQueue;

verus! {

/// One reply as it sits in a correlation queue: its mailbox code, its
/// command code and its payload bytes.
#[derive(Clone)]
pub struct ReplyItem {
    pub mbx_code: u8,
    pub cmd_code: u8,
    pub payload: Vec<u8>,
}

/// One correlation slot: a (mailbox code, command code) key and the FIFO
/// queue of decoded replies waiting under that key.
pub type ReplySlot = (u8, u8, queues::Queue<ReplyItem>);

#[verifier::external_type_specification]
#[verifier::external_body]
#[verifier::reject_recursive_types(T)]
pub struct ExQueue<T: Clone>(queues::Queue<T>);

/// What a correlation queue holds, oldest first.
pub uninterp spec fn queue_elems(q: queues::Queue<ReplyItem>) -> Seq<(u8, u8, Seq<u8>)>;

/// Relies on `queues::Queue::new`: the new queue is empty.
#[verifier::external_body]
fn queue_new() -> (q: queues::Queue<ReplyItem>)
    ensures
        queue_elems(q) == Seq::<(u8, u8, Seq<u8>)>::empty(),
{
    queues::Queue::new()
}

/// Relies on `queues::Queue::add`: it appends the element at the back of
/// the queue and always succeeds.
#[verifier::external_body]
fn queue_add(q: &mut queues::Queue<ReplyItem>, item: ReplyItem)
    ensures
        queue_elems(*final(q)) == queue_elems(*old(q)).push(
            (item.mbx_code, item.cmd_code, item.payload@),
        ),
{
    let _ = q.add(item);
}

/// Relies on `queues::Queue::remove`: it takes the oldest element off the
/// front of the queue, or errs without touching it when the queue is empty.
#[verifier::external_body]
fn queue_remove(q: &mut queues::Queue<ReplyItem>) -> (r: Option<ReplyItem>)
    ensures
        match r {
            Some(item) => queue_elems(*old(q)).len() > 0 && item.mbx_code == queue_elems(
                *old(q),
            )[0].0 && item.cmd_code == queue_elems(*old(q))[0].1 && item.payload@ == queue_elems(
                *old(q),
            )[0].2 && queue_elems(*final(q)) == queue_elems(*old(q)).drop_first(),
            None => queue_elems(*old(q)).len() == 0 && queue_elems(*final(q)) == queue_elems(
                *old(q),
            ),
        },
{
    match q.remove() {
        Ok(item) => Some(item),
        Err(_) => None,
    }
}

/// Relies on `queues::Queue::size`: it returns the number of queued
/// elements.
#[verifier::external_body]
fn queue_len(q: &queues::Queue<ReplyItem>) -> (n: usize)
    ensures
        n == queue_elems(*q).len(),
{
    q.size()
}

/// The first slot carrying the given key, if any.
pub open spec fn find_key(s: Seq<ReplySlot>, mb: u8, cb: u8) -> Option<int>
    decreases s.len(),
{
    if s.len() == 0 {
        None
    } else if s[0].0 == mb && s[0].1 == cb {
        Some(0)
    } else {
        match find_key(s.drop_first(), mb, cb) {
            Some(j) => Some(j + 1),
            None => None,
        }
    }
}

/// The payloads of the queued replies, in queue order.
pub open spec fn slot_payloads(elems: Seq<(u8, u8, Seq<u8>)>) -> Seq<Seq<u8>> {
    Seq::new(elems.len(), |k: int| elems[k].2)
}

/// The payloads pending under one key in a slot sequence, oldest first.
pub open spec fn pending_of(s: Seq<ReplySlot>, mb: u8, cb: u8) -> Seq<Seq<u8>> {
    match find_key(s, mb, cb) {
        Some(i) => slot_payloads(queue_elems(s[i].2)),
        None => Seq::<Seq<u8>>::empty(),
    }
}

/// Keys are unique across slots, and every queued reply carries the key of
/// the slot that holds it.
pub open spec fn slots_wf(s: Seq<ReplySlot>) -> bool {
    (forall|i: int, j: int|
        #![trigger s[i].0, s[j].0]
        0 <= i < j < s.len() ==> !(s[i].0 == s[j].0 && s[i].1 == s[j].1)) && (forall|i: int, k: int|
        #![trigger queue_elems(s[i].2)[k]]
        0 <= i < s.len() && 0 <= k < queue_elems(s[i].2).len() ==> queue_elems(s[i].2)[k].0
            == s[i].0 && queue_elems(s[i].2)[k].1 == s[i].1)
}

proof fn lemma_find_key_props(s: Seq<ReplySlot>, mb: u8, cb: u8)
    ensures
        match find_key(s, mb, cb) {
            Some(i) => 0 <= i < s.len() && s[i].0 == mb && s[i].1 == cb,
            None => forall|j: int| 0 <= j < s.len() ==> !(#[trigger] s[j].0 == mb && s[j].1 == cb),
        },
    decreases s.len(),
{
    if s.len() > 0 && !(s[0].0 == mb && s[0].1 == cb) {
        let t = s.drop_first();
        lemma_find_key_props(t, mb, cb);
        match find_key(t, mb, cb) {
            Some(i) => {
                assert(t[i] == s[i + 1]);
            },
            None => {
                assert forall|j: int| 0 <= j < s.len() implies !(#[trigger] s[j].0 == mb && s[j].1
                    == cb) by {
                    if j > 0 {
                        assert(t[j - 1] == s[j]);
                    }
                }
            },
        }
    }
}

proof fn lemma_find_key_first(s: Seq<ReplySlot>, mb: u8, cb: u8, i: int)
    requires
        0 <= i < s.len(),
        s[i].0 == mb && s[i].1 == cb,
        forall|j: int| 0 <= j < i ==> !(#[trigger] s[j].0 == mb && s[j].1 == cb),
    ensures
        find_key(s, mb, cb) == Some(i),
    decreases s.len(),
{
    if i > 0 {
        let t = s.drop_first();
        assert forall|j: int| 0 <= j < i - 1 implies !(#[trigger] t[j].0 == mb && t[j].1 == cb) by {
            assert(t[j] == s[j + 1]);
        }
        assert(t[i - 1] == s[i]);
        lemma_find_key_first(t, mb, cb, i - 1);
    }
}

proof fn lemma_find_key_none(s: Seq<ReplySlot>, mb: u8, cb: u8)
    requires
        forall|j: int| 0 <= j < s.len() ==> !(#[trigger] s[j].0 == mb && s[j].1 == cb),
    ensures
        find_key(s, mb, cb) is None,
    decreases s.len(),
{
    if s.len() > 0 {
        let t = s.drop_first();
        assert forall|j: int| 0 <= j < t.len() implies !(#[trigger] t[j].0 == mb && t[j].1
            == cb) by {
            assert(t[j] == s[j + 1]);
        }
        lemma_find_key_none(t, mb, cb);
    }
}

proof fn lemma_find_key_same_keys(s1: Seq<ReplySlot>, s2: Seq<ReplySlot>, mb: u8, cb: u8)
    requires
        s1.len() == s2.len(),
        forall|t: int|
            #![trigger s1[t], s2[t]]
            0 <= t < s1.len() ==> s1[t].0 == s2[t].0 && s1[t].1 == s2[t].1,
    ensures
        find_key(s1, mb, cb) == find_key(s2, mb, cb),
    decreases s1.len(),
{
    if s1.len() > 0 {
        let t1 = s1.drop_first();
        let t2 = s2.drop_first();
        assert(s1[0].0 == s2[0].0 && s1[0].1 == s2[0].1);
        assert forall|t: int|
            #![trigger t1[t], t2[t]]
            0 <= t < t1.len() implies t1[t].0 == t2[t].0 && t1[t].1 == t2[t].1 by {
            assert(t1[t] == s1[t + 1]);
            assert(t2[t] == s2[t + 1]);
            assert(s1[t + 1].0 == s2[t + 1].0 && s1[t + 1].1 == s2[t + 1].1);
        }
        lemma_find_key_same_keys(t1, t2, mb, cb);
    }
}

proof fn lemma_find_key_push(s: Seq<ReplySlot>, x: ReplySlot, mb: u8, cb: u8)
    ensures
        find_key(s.push(x), mb, cb) == (match find_key(s, mb, cb) {
            Some(i) => Some(i),
            None => if x.0 == mb && x.1 == cb {
                Some(s.len() as int)
            } else {
                None
            },
        }),
    decreases s.len(),
{
    if s.len() == 0 {
        assert(s.push(x)[0] == x);
        assert(s.push(x).drop_first() =~= Seq::<ReplySlot>::empty());
        assert(find_key(Seq::<ReplySlot>::empty(), mb, cb) is None);
        assert(find_key(s, mb, cb) is None);
        if x.0 == mb && x.1 == cb {
            assert(find_key(s.push(x), mb, cb) == Some(0int));
        } else {
            assert(find_key(s.push(x), mb, cb) is None);
        }
    } else {
        assert(s.push(x)[0] == s[0]);
        assert(s.push(x).drop_first() =~= s.drop_first().push(x));
        lemma_find_key_push(s.drop_first(), x, mb, cb);
        if s[0].0 == mb && s[0].1 == cb {
            assert(find_key(s.push(x), mb, cb) == Some(0int));
            assert(find_key(s, mb, cb) == Some(0int));
        } else {
            assert(find_key(s.push(x), mb, cb) == (match find_key(s.drop_first().push(x), mb, cb) {
                Some(j) => Some(j + 1),
                None => None,
            }));
            assert(find_key(s, mb, cb) == (match find_key(s.drop_first(), mb, cb) {
                Some(j) => Some(j + 1),
                None => None,
            }));
            assert(s.drop_first().len() as int == s.len() - 1);
        }
    }
}

/// A slot sequence with slot `i` replaced by one carrying the same key:
/// well-formedness is kept when the replacement queue's elements still
/// carry the key, only that key's pending payloads change, and they change
/// to exactly what the replacement queue holds.
proof fn lemma_slots_update(s0: Seq<ReplySlot>, s1: Seq<ReplySlot>, i: int)
    requires
        slots_wf(s0),
        0 <= i < s0.len(),
        s1 == s0.update(i, s1[i]),
        s1[i].0 == s0[i].0 && s1[i].1 == s0[i].1,
        forall|k: int|
            0 <= k < queue_elems(s1[i].2).len() ==> #[trigger] queue_elems(s1[i].2)[k].0 == s1[i].0
                && queue_elems(s1[i].2)[k].1 == s1[i].1,
    ensures
        slots_wf(s1),
        pending_of(s1, s0[i].0, s0[i].1) == slot_payloads(queue_elems(s1[i].2)),
        pending_of(s0, s0[i].0, s0[i].1) == slot_payloads(queue_elems(s0[i].2)),
        forall|m: u8, c: u8|
            !(m == s0[i].0 && c == s0[i].1) ==> #[trigger] pending_of(s1, m, c) == pending_of(
                s0,
                m,
                c,
            ),
{
    let mb = s0[i].0;
    let cb = s0[i].1;
    assert(s1.len() == s0.len());
    assert(forall|t: int| 0 <= t < s0.len() && t != i ==> #[trigger] s1[t] == s0[t]);
    assert forall|t: int|
        #![trigger s1[t], s0[t]]
        0 <= t < s1.len() implies s1[t].0 == s0[t].0 && s1[t].1 == s0[t].1 by {
        if t != i {
            assert(s1[t] == s0[t]);
        }
    }
    assert forall|a: int, b: int|
        #![trigger s1[a].0, s1[b].0]
        0 <= a < b < s1.len() implies !(s1[a].0 == s1[b].0 && s1[a].1 == s1[b].1) by {
        assert(s0[a].0 == s1[a].0 && s0[a].1 == s1[a].1);
        assert(s0[b].0 == s1[b].0 && s0[b].1 == s1[b].1);
    }
    assert forall|a: int, k: int|
        #![trigger queue_elems(s1[a].2)[k]]
        0 <= a < s1.len() && 0 <= k < queue_elems(s1[a].2).len() implies queue_elems(s1[a].2)[k].0
        == s1[a].0 && queue_elems(s1[a].2)[k].1 == s1[a].1 by {
        if a != i {
            assert(s1[a] == s0[a]);
        }
    }
    // the touched key resolves to slot i in both sequences
    lemma_find_key_props(s0, mb, cb);
    let i0 = find_key(s0, mb, cb)->Some_0;
    assert(find_key(s0, mb, cb) is Some) by {
        if find_key(s0, mb, cb) is None {
            lemma_find_key_props(s0, mb, cb);
            assert(!(s0[i].0 == mb && s0[i].1 == cb));
        }
    }
    assert(i0 == i) by {
        if i0 < i {
            assert(!(s0[i0].0 == s0[i].0 && s0[i0].1 == s0[i].1));
        } else if i < i0 {
            assert(!(s0[i].0 == s0[i0].0 && s0[i].1 == s0[i0].1));
        }
    }
    lemma_find_key_same_keys(s1, s0, mb, cb);
    // every other key resolves to an untouched slot, or to none
    assert forall|m: u8, c: u8| !(m == mb && c == cb) implies #[trigger] pending_of(s1, m, c)
        == pending_of(s0, m, c) by {
        lemma_find_key_same_keys(s1, s0, m, c);
        lemma_find_key_props(s0, m, c);
        match find_key(s0, m, c) {
            Some(j) => {
                assert(j != i);
                assert(s1[j] == s0[j]);
            },
            None => {},
        }
    }
}

/// The reply correlation layer: one FIFO queue of decoded replies per
/// (mailbox, command) key, created lazily on the first reply for that key.
/// A receive loop files each decoded reply under its own key, and each
/// logical call drains the oldest entry for the key it is waiting on.
/// Replies under one key keep their arrival order; nothing is guaranteed
/// across keys. Queues are unbounded: nothing here evicts, so entries that
/// are never drained accumulate until the session ends.
pub struct MailboxQueues {
    slots: Vec<ReplySlot>,
}

impl MailboxQueues {
    /// The payloads pending under one (mailbox code, command code) key,
    /// oldest first.
    pub closed spec fn pending(self, mb: u8, cb: u8) -> Seq<Seq<u8>> {
        pending_of(self.slots@, mb, cb)
    }

    /// Keys are unique across slots, and every queued reply carries the
    /// key of the slot that holds it.
    pub closed spec fn wf(self) -> bool {
        slots_wf(self.slots@)
    }

    /// An empty correlation layer: nothing pending under any key.
    pub fn new() -> (q: MailboxQueues)
        ensures
            q.wf(),
            forall|m: u8, c: u8| #[trigger] q.pending(m, c) == Seq::<Seq<u8>>::empty(),
    {
        let q = MailboxQueues { slots: Vec::new() };
        proof {
            assert(q.slots@.len() == 0);
        }
        q
    }

    /// File one decoded reply under its (mailbox, command) key, at the back
    /// of that key's queue; every other key's queue is untouched. The slot
    /// is created when this is the first reply ever seen for its key.
    pub fn enqueue(&mut self, pkt: RfCatPacket)
        requires
            old(self).wf(),
        ensures
            final(self).wf(),
            final(self).pending(spec_mailbox_code(pkt.mbx), spec_command_code(pkt.cmd)) == old(
                self,
            ).pending(spec_mailbox_code(pkt.mbx), spec_command_code(pkt.cmd)).push(pkt.payload@),
            forall|m: u8, c: u8|
                !(m == spec_mailbox_code(pkt.mbx) && c == spec_command_code(pkt.cmd))
                    ==> #[trigger] final(self).pending(m, c) == old(self).pending(m, c),
    {
        let mb = pkt.mbx.to_byte();
        let cb = pkt.cmd.to_byte();
        let ghost s0 = self.slots@;
        let ghost payload_view = pkt.payload@;
        match find_slot(&self.slots, mb, cb) {
            Some(i) => {
                proof {
                    lemma_find_key_props(s0, mb, cb);
                }
                let (k0, k1, mut q) = self.slots.remove(i);
                let ghost elems0 = queue_elems(q);
                queue_add(&mut q, ReplyItem { mbx_code: mb, cmd_code: cb, payload: pkt.payload });
                self.slots.insert(i, (k0, k1, q));
                proof {
                    let s1 = self.slots@;
                    assert(s1 =~= s0.update(i as int, s1[i as int]));
                    assert(queue_elems(s1[i as int].2) == elems0.push((mb, cb, payload_view)));
                    assert forall|k: int|
                        0 <= k < queue_elems(s1[i as int].2).len() implies #[trigger] queue_elems(
                        s1[i as int].2,
                    )[k].0 == s1[i as int].0 && queue_elems(s1[i as int].2)[k].1 == s1[
                        i as int
                    ].1 by {
                        if k < elems0.len() {
                            assert(queue_elems(s0[i as int].2)[k] == elems0[k]);
                        }
                    }
                    lemma_slots_update(s0, s1, i as int);
                    assert(slot_payloads(elems0.push((mb, cb, payload_view))) =~= slot_payloads(
                        elems0,
                    ).push(payload_view));
                }
            },
            None => {
                proof {
                    lemma_find_key_props(s0, mb, cb);
                }
                let mut q = queue_new();
                queue_add(&mut q, ReplyItem { mbx_code: mb, cmd_code: cb, payload: pkt.payload });
                self.slots.push((mb, cb, q));
                proof {
                    let s1 = self.slots@;
                    let slot1 = s1[s0.len() as int];
                    assert(s1 =~= s0.push(slot1));
                    assert(queue_elems(slot1.2) == Seq::<(u8, u8, Seq<u8>)>::empty().push(
                        (mb, cb, payload_view),
                    ));
                    assert(forall|t: int| 0 <= t < s0.len() ==> #[trigger] s1[t] == s0[t]);
                    assert forall|a: int, b: int|
                        #![trigger s1[a].0, s1[b].0]
                        0 <= a < b < s1.len() implies !(s1[a].0 == s1[b].0 && s1[a].1
                        == s1[b].1) by {
                        if b == s0.len() as int {
                            assert(!(s0[a].0 == mb && s0[a].1 == cb));
                        }
                    }
                    assert forall|a: int, k: int|
                        #![trigger queue_elems(s1[a].2)[k]]
                        0 <= a < s1.len() && 0 <= k < queue_elems(s1[a].2).len() implies
                        queue_elems(s1[a].2)[k].0 == s1[a].0 && queue_elems(s1[a].2)[k].1 == s1[
                        a
                    ].1 by {
                        if a < s0.len() {
                            assert(s1[a] == s0[a]);
                        } else {
                            assert(queue_elems(s1[a].2).len() == 1);
                            assert(queue_elems(s1[a].2)[0] == (mb, cb, payload_view));
                        }
                    }
                    lemma_find_key_push(s0, slot1, mb, cb);
                    assert(slot_payloads(queue_elems(slot1.2)) =~= Seq::<Seq<u8>>::empty().push(
                        payload_view,
                    ));
                    assert forall|m: u8, c: u8| !(m == mb && c == cb) implies #[trigger] pending_of(
                        s1,
                        m,
                        c,
                    ) == pending_of(s0, m, c) by {
                        lemma_find_key_push(s0, slot1, m, c);
                        lemma_find_key_props(s0, m, c);
                        match find_key(s0, m, c) {
                            Some(j) => {
                                assert(s1[j] == s0[j]);
                            },
                            None => {},
                        }
                    }
                }
            },
        }
    }

    /// Drain the oldest reply pending under the given key, rebuilt as a
    /// received packet; every other key's queue is untouched. `None` when
    /// nothing is pending under the key.
    pub fn dequeue(&mut self, mbx: AppMailbox, cmd: SystemCommand) -> (r: Option<RfCatPacket>)
        requires
            old(self).wf(),
        ensures
            final(self).wf(),
            old(self).pending(spec_mailbox_code(mbx), spec_command_code(cmd)).len() == 0
                ==> r is None && (forall|m: u8, c: u8|
                #[trigger] final(self).pending(m, c) == old(self).pending(m, c)),
            old(self).pending(spec_mailbox_code(mbx), spec_command_code(cmd)).len() > 0 ==> ({
                let mb = spec_mailbox_code(mbx);
                let cb = spec_command_code(cmd);
                &&& (r matches Some(p) && p.mbx == mbx && p.cmd == cmd && p.payload@ == old(
                    self,
                ).pending(mb, cb)[0] && p.received == true)
                &&& final(self).pending(mb, cb) == old(self).pending(mb, cb).drop_first()
                &&& forall|m: u8, c: u8|
                    !(m == mb && c == cb) ==> #[trigger] final(self).pending(m, c) == old(
                        self,
                    ).pending(m, c)
            }),
    {
        let mb = mbx.to_byte();
        let cb = cmd.to_byte();
        let ghost s0 = self.slots@;
        match find_slot(&self.slots, mb, cb) {
            None => {
                proof {
                    assert(self.slots@ == s0);
                }
                None
            },
            Some(i) => {
                proof {
                    lemma_find_key_props(s0, mb, cb);
                }
                let (k0, k1, mut q) = self.slots.remove(i);
                let ghost elems0 = queue_elems(q);
                let item = queue_remove(&mut q);
                self.slots.insert(i, (k0, k1, q));
                proof {
                    let s1 = self.slots@;
                    assert(s1 =~= s0.update(i as int, s1[i as int]));
                    assert forall|k: int|
                        0 <= k < queue_elems(s1[i as int].2).len() implies #[trigger] queue_elems(
                        s1[i as int].2,
                    )[k].0 == s1[i as int].0 && queue_elems(s1[i as int].2)[k].1 == s1[
                        i as int
                    ].1 by {
                        assert(queue_elems(s1[i as int].2)[k] == elems0[k] || queue_elems(
                            s1[i as int].2,
                        )[k] == elems0[k + 1]);
                        assert(queue_elems(s0[i as int].2) == elems0);
                    }
                    lemma_slots_update(s0, s1, i as int);
                }
                match item {
                    None => {
                        proof {
                            let s1 = self.slots@;
                            assert(queue_elems(s1[i as int].2) == elems0);
                            assert(slot_payloads(elems0) == pending_of(s0, mb, cb));
                        }
                        None
                    },
                    Some(entry) => {
                        let ReplyItem { mbx_code: m0, cmd_code: c0, payload } = entry;
                        proof {
                            let s1 = self.slots@;
                            assert(queue_elems(s0[i as int].2)[0] == elems0[0]);
                            assert(m0 == mb && c0 == cb);
                            crate::commands::lemma_mailbox_code_round_trip(mbx);
                            crate::commands::lemma_command_code_round_trip(cmd);
                            assert(slot_payloads(queue_elems(s1[i as int].2)) =~= slot_payloads(
                                elems0,
                            ).drop_first());
                            assert(slot_payloads(elems0)[0] == elems0[0].2);
                        }
                        Some(
                            RfCatPacket {
                                mbx: AppMailbox::from_byte(m0),
                                cmd: SystemCommand::from_byte(c0),
                                payload,
                                received: true,
                            },
                        )
                    },
                }
            },
        }
    }

    /// How many replies are pending under the given key.
    pub fn pending_count(&self, mbx: AppMailbox, cmd: SystemCommand) -> (n: usize)
        ensures
            n == self.pending(spec_mailbox_code(mbx), spec_command_code(cmd)).len(),
    {
        let mb = mbx.to_byte();
        let cb = cmd.to_byte();
        match find_slot(&self.slots, mb, cb) {
            None => 0,
            Some(i) => queue_len(&self.slots[i].2),
        }
    }
}

/// The first slot carrying the given key, by linear scan.
fn find_slot(slots: &Vec<ReplySlot>, mb: u8, cb: u8) -> (r: Option<usize>)
    ensures
        match r {
            Some(i) => i < slots@.len() && find_key(slots@, mb, cb) == Some(i as int),
            None => find_key(slots@, mb, cb) is None,
        },
{
    let n = slots.len();
    let mut i: usize = 0;
    while i < n
        invariant
            0 <= i <= n == slots@.len(),
            forall|j: int| 0 <= j < i ==> !(#[trigger] slots@[j].0 == mb && slots@[j].1 == cb),
        decreases n - i,
    {
        if slots[i].0 == mb && slots[i].1 == cb {
            proof {
                lemma_find_key_first(slots@, mb, cb, i as int);
            }
            return Some(i);
        }
        i = i + 1;
    }
    proof {
        lemma_find_key_none(slots@, mb, cb);
    }
    None
}

} // verus!

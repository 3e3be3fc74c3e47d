//! Ports: channels for communication between islands.
//!
//! A port holds a buffer of packed values, a closed flag, a queue of waiting
//! senders (each with the value it wants to send) and a queue of waiting
//! receivers. Values are handed over in first-in, first-out order.

use vstd::prelude::*;
use crate::value::{self, ValueKind, ValueMeta};

verus! {

broadcast use vstd::std_specs::vecdeque::group_vec_dequeue_axioms;

/// A fiber waiting on a port, identified by its island and fiber ids.
#[derive(Debug, Clone, Copy, PartialEq, Eq, Structural)]
pub struct WaiterInfo {
    pub island_id: u32,
    pub fiber_id: u64,
}

/// Outcome of a send attempt.
#[derive(Debug, Clone, PartialEq, Eq)]
pub enum SendResult<V> {
    /// The value was buffered for a receiver that was waiting; that receiver is to be woken.
    DirectSend(WaiterInfo),
    /// The value was buffered.
    Buffered,
    /// The buffer is full and no receiver waits; the value is handed back.
    WouldBlock(V),
    /// The port is closed.
    Closed,
}

/// Outcome of a receive attempt.
#[derive(Debug, Clone, Copy, PartialEq, Eq)]
pub enum RecvResult {
    /// A value was received; a waiting sender may have been woken.
    Success(Option<WaiterInfo>),
    /// The buffer is empty and no sender waits.
    WouldBlock,
    /// The port is closed and drained.
    Closed,
}

/// Inner state of a port.
pub struct PortState<V> {
    /// Buffered values.
    pub buffer: std::collections::VecDeque<V>,
    /// Whether the port is closed.
    pub closed: bool,
    /// Waiting senders, each with the value it sends.
    pub waiting_senders: std::collections::VecDeque<(WaiterInfo, V)>,
    /// Waiting receivers.
    pub waiting_receivers: std::collections::VecDeque<WaiterInfo>,
}

/// Mathematical model of a port state.
pub struct PortModel<V> {
    pub buffer: Seq<V>,
    pub closed: bool,
    pub senders: Seq<(WaiterInfo, V)>,
    pub receivers: Seq<WaiterInfo>,
}

impl<V> PortState<V> {
    /// The model of this state.
    pub open spec fn model(&self) -> PortModel<V> {
        PortModel {
            buffer: self.buffer@,
            closed: self.closed,
            senders: self.waiting_senders@,
            receivers: self.waiting_receivers@,
        }
    }
}

/// The state after a send of `v` with capacity `cap`, and the result.
pub open spec fn send_step<V>(s: PortModel<V>, v: V, cap: int) -> (PortModel<V>, SendResult<V>) {
    if s.closed {
        (s, SendResult::Closed)
    } else if s.receivers.len() > 0 {
        (
            PortModel { buffer: s.buffer.push(v), receivers: s.receivers.drop_first(), ..s },
            SendResult::DirectSend(s.receivers[0]),
        )
    } else if s.buffer.len() < cap {
        (PortModel { buffer: s.buffer.push(v), ..s }, SendResult::Buffered)
    } else {
        (s, SendResult::WouldBlock(v))
    }
}

/// The state after a receive, the result and the received value.
pub open spec fn recv_step<V>(s: PortModel<V>) -> (PortModel<V>, RecvResult, Option<V>) {
    if s.buffer.len() > 0 {
        if s.senders.len() > 0 {
            (
                PortModel {
                    buffer: s.buffer.drop_first().push(s.senders[0].1),
                    senders: s.senders.drop_first(),
                    ..s
                },
                RecvResult::Success(Some(s.senders[0].0)),
                Some(s.buffer[0]),
            )
        } else {
            (
                PortModel { buffer: s.buffer.drop_first(), ..s },
                RecvResult::Success(None),
                Some(s.buffer[0]),
            )
        }
    } else if s.senders.len() > 0 {
        (
            PortModel { senders: s.senders.drop_first(), ..s },
            RecvResult::Success(Some(s.senders[0].0)),
            Some(s.senders[0].1),
        )
    } else if s.closed {
        (s, RecvResult::Closed, None)
    } else {
        (s, RecvResult::WouldBlock, None)
    }
}

/// An operation on a port, as the library performs it.
pub enum PortOp<V> {
    /// `try_send` of the value.
    Send(V),
    /// `try_recv`.
    Recv,
    /// `register_sender` of the waiter with its value.
    RegisterSender(WaiterInfo, V),
    /// `register_receiver` of the waiter.
    RegisterReceiver(WaiterInfo),
    /// `take_waiting_receivers`.
    TakeReceivers,
    /// `take_waiting_senders`.
    TakeSenders,
    /// `close`.
    Close,
}

/// The state of a port after `op`, with capacity `cap`.
pub open spec fn port_op_model<V>(s: PortModel<V>, op: PortOp<V>, cap: int) -> PortModel<V> {
    match op {
        PortOp::Send(v) => send_step(s, v, cap).0,
        PortOp::Recv => recv_step(s).0,
        PortOp::RegisterSender(w, v) => PortModel { senders: s.senders.push((w, v)), ..s },
        PortOp::RegisterReceiver(w) => PortModel { receivers: s.receivers.push(w), ..s },
        PortOp::TakeReceivers => PortModel { receivers: Seq::empty(), ..s },
        PortOp::TakeSenders => PortModel { senders: Seq::empty(), ..s },
        PortOp::Close => PortModel { closed: true, ..s },
    }
}

/// The port states that the operations `ops` go through from `s`, with capacity `cap`.
pub open spec fn port_run<V>(s: PortModel<V>, ops: Seq<PortOp<V>>, cap: int) -> PortModel<V>
    decreases ops.len(),
{
    if ops.len() == 0 {
        s
    } else {
        port_op_model(port_run(s, ops.drop_last(), cap), ops.last(), cap)
    }
}

/// A port with nothing buffered, nobody waiting, and the given closed flag.
pub open spec fn empty_model<V>(closed: bool) -> PortModel<V> {
    PortModel { buffer: Seq::empty(), closed, senders: Seq::empty(), receivers: Seq::empty() }
}

impl<V> PortState<V> {
    /// An open, empty port state.
    pub fn new(cap: usize) -> (r: Self)
        ensures
            r.model() == empty_model::<V>(false),
    {
        PortState {
            buffer: std::collections::VecDeque::with_capacity(cap),
            closed: false,
            waiting_senders: std::collections::VecDeque::new(),
            waiting_receivers: std::collections::VecDeque::new(),
        }
    }

    /// Send `value`: hand it to a waiting receiver, buffer it if there is room,
    /// or give it back when the buffer is full.
    pub fn try_send(&mut self, value: V, cap: usize) -> (r: SendResult<V>)
        ensures
            (final(self).model(), r) == send_step(old(self).model(), value, cap as int),
    {
        if self.closed {
            return SendResult::Closed;
        }
        if let Some(receiver) = self.waiting_receivers.pop_front() {
            self.buffer.push_back(value);
            return SendResult::DirectSend(receiver);
        }
        if self.buffer.len() < cap {
            self.buffer.push_back(value);
            return SendResult::Buffered;
        }
        SendResult::WouldBlock(value)
    }

    /// Receive: take the oldest buffered value (moving a waiting sender's value into
    /// the buffer), or take a waiting sender's value directly.
    pub fn try_recv(&mut self) -> (r: (RecvResult, Option<V>))
        ensures
            (final(self).model(), r.0, r.1) == recv_step(old(self).model()),
    {
        if let Some(value) = self.buffer.pop_front() {
            let woke_sender = if let Some(entry) = self.waiting_senders.pop_front() {
                let (sender, sender_value) = entry;
                self.buffer.push_back(sender_value);
                Some(sender)
            } else {
                None
            };
            return (RecvResult::Success(woke_sender), Some(value));
        }
        if let Some(entry) = self.waiting_senders.pop_front() {
            let (sender, value) = entry;
            return (RecvResult::Success(Some(sender)), Some(value));
        }
        if self.closed {
            (RecvResult::Closed, None)
        } else {
            (RecvResult::WouldBlock, None)
        }
    }

    /// Queue a sender with the value it sends.
    pub fn register_sender(&mut self, waiter: WaiterInfo, value: V)
        ensures
            final(self).model() == (PortModel {
                senders: old(self).model().senders.push((waiter, value)),
                ..old(self).model()
            }),
    {
        self.waiting_senders.push_back((waiter, value));
    }

    /// Queue a receiver.
    pub fn register_receiver(&mut self, waiter: WaiterInfo)
        ensures
            final(self).model() == (PortModel {
                receivers: old(self).model().receivers.push(waiter),
                ..old(self).model()
            }),
    {
        self.waiting_receivers.push_back(waiter);
    }

    /// Mark the port closed.
    pub fn close(&mut self)
        ensures
            final(self).model() == (PortModel { closed: true, ..old(self).model() }),
    {
        self.closed = true;
    }

    /// Whether the port is closed.
    pub fn is_closed(&self) -> (r: bool)
        ensures
            r == self.closed,
    {
        self.closed
    }

    /// Number of buffered values.
    pub fn len(&self) -> (r: usize)
        ensures
            r == self.buffer@.len(),
    {
        self.buffer.len()
    }

    /// Whether nothing is buffered.
    pub fn is_empty(&self) -> (r: bool)
        ensures
            r == (self.buffer@.len() == 0),
    {
        self.buffer.len() == 0
    }

    /// Remove and return all waiting receivers, oldest first.
    pub fn take_waiting_receivers(&mut self) -> (r: Vec<WaiterInfo>)
        ensures
            r@ == old(self).model().receivers,
            final(self).model() == (PortModel { receivers: Seq::empty(), ..old(self).model() }),
    {
        let mut out: Vec<WaiterInfo> = Vec::new();
        let ghost all = self.waiting_receivers@;
        while self.waiting_receivers.len() > 0
            invariant
                out@ + self.waiting_receivers@ == all,
                self.buffer@ == old(self).buffer@,
                self.closed == old(self).closed,
                self.waiting_senders@ == old(self).waiting_senders@,
                all == old(self).waiting_receivers@,
            decreases self.waiting_receivers@.len(),
        {
            let w = self.waiting_receivers.pop_front();
            match w {
                Some(x) => {
                    assert(out@.push(x) + self.waiting_receivers@ =~= all);
                    out.push(x);
                },
                None => {},
            }
        }
        assert(out@ =~= all);
        assert(self.waiting_receivers@ =~= Seq::<WaiterInfo>::empty());
        out
    }

    /// Remove and return all waiting senders with their values, oldest first.
    pub fn take_waiting_senders(&mut self) -> (r: Vec<(WaiterInfo, V)>)
        ensures
            r@ == old(self).model().senders,
            final(self).model() == (PortModel { senders: Seq::empty(), ..old(self).model() }),
    {
        let mut out: Vec<(WaiterInfo, V)> = Vec::new();
        let ghost all = self.waiting_senders@;
        while self.waiting_senders.len() > 0
            invariant
                out@ + self.waiting_senders@ == all,
                self.buffer@ == old(self).buffer@,
                self.closed == old(self).closed,
                self.waiting_receivers@ == old(self).waiting_receivers@,
                all == old(self).waiting_senders@,
            decreases self.waiting_senders@.len(),
        {
            let w = self.waiting_senders.pop_front();
            match w {
                Some(x) => {
                    assert(out@.push(x) + self.waiting_senders@ =~= all);
                    out.push(x);
                },
                None => {},
            }
        }
        assert(out@ =~= all);
        assert(self.waiting_senders@ =~= Seq::<(WaiterInfo, V)>::empty());
        out
    }
}

// ==================== Port objects ====================

/// A port object: its state, capacity and element metadata.
pub struct PortData<V> {
    pub state: PortState<V>,
    pub cap: u64,
    pub elem_meta: ValueMeta,
    pub elem_slots: u16,
}

/// `p1` is what `op` makes of `p0`: the state moved by the operation's step, and the
/// capacity and element metadata kept.
pub open spec fn port_step<V>(p0: PortData<V>, op: PortOp<V>, p1: PortData<V>) -> bool {
    &&& p1.cap == p0.cap
    &&& p1.elem_meta == p0.elem_meta
    &&& p1.elem_slots == p0.elem_slots
    &&& p1.state.model() == port_op_model(p0.state.model(), op, p0.cap as int)
}

/// `ps` is the sequence of port values that the operations `ops` go through.
pub open spec fn port_trace<V>(ps: Seq<PortData<V>>, ops: Seq<PortOp<V>>) -> bool {
    &&& ps.len() == ops.len() + 1
    &&& forall|i: int| 0 <= i < ops.len() ==> port_step(ps[i], #[trigger] ops[i], ps[i + 1])
}

/// Create a new open, empty port.
pub fn create<V>(elem_meta: ValueMeta, elem_slots: u16, cap: usize) -> (r: PortData<V>)
    ensures
        r.state.model() == empty_model::<V>(false),
        r.cap == cap,
        r.elem_meta == elem_meta,
        r.elem_slots == elem_slots,
{
    PortData { state: PortState::new(cap), cap: cap as u64, elem_meta, elem_slots }
}

/// Capacity, element metadata and element slot count of a port.
pub fn get_metadata<V>(port: &PortData<V>) -> (r: (u64, ValueMeta, u16))
    ensures
        r == (port.cap, port.elem_meta, port.elem_slots),
{
    (port.cap, port.elem_meta, port.elem_slots)
}

/// Element metadata of a port.
pub fn elem_meta<V>(port: &PortData<V>) -> (r: ValueMeta)
    ensures
        r == port.elem_meta,
{
    port.elem_meta
}

/// Element kind of a port.
pub fn elem_kind<V>(port: &PortData<V>) -> (r: ValueKind)
    ensures
        r == value::raw_kind(port.elem_meta.raw),
{
    port.elem_meta.value_kind()
}

/// Number of slots of one element.
pub fn elem_slots<V>(port: &PortData<V>) -> (r: u16)
    ensures
        r == port.elem_slots,
{
    port.elem_slots
}

/// Capacity of a port.
pub fn capacity<V>(port: &PortData<V>) -> (r: usize)
    requires
        port.cap <= usize::MAX,
    ensures
        r == port.cap,
{
    port.cap as usize
}

/// Number of buffered values.
pub fn len<V>(port: &PortData<V>) -> (r: usize)
    ensures
        r == port.state.buffer@.len(),
{
    port.state.len()
}

/// Whether the port is closed.
pub fn is_closed<V>(port: &PortData<V>) -> (r: bool)
    ensures
        r == port.state.closed,
{
    port.state.is_closed()
}

/// Close the port.
pub fn close<V>(port: &mut PortData<V>)
    ensures
        final(port).state.model() == (PortModel { closed: true, ..old(port).state.model() }),
        port_step(*old(port), PortOp::Close, *final(port)),
        final(port).cap == old(port).cap,
        final(port).elem_meta == old(port).elem_meta,
        final(port).elem_slots == old(port).elem_slots,
{
    port.state.close();
}

/// Try to send a value through the port, with the port's own capacity.
pub fn try_send<V>(port: &mut PortData<V>, value: V) -> (r: SendResult<V>)
    requires
        old(port).cap <= usize::MAX,
    ensures
        (final(port).state.model(), r) == send_step(old(port).state.model(), value, old(port).cap as int),
        port_step(*old(port), PortOp::Send(value), *final(port)),
        final(port).cap == old(port).cap,
        final(port).elem_meta == old(port).elem_meta,
        final(port).elem_slots == old(port).elem_slots,
{
    let cap = capacity(port);
    port.state.try_send(value, cap)
}

/// Try to receive a value from the port.
pub fn try_recv<V>(port: &mut PortData<V>) -> (r: (RecvResult, Option<V>))
    ensures
        (final(port).state.model(), r.0, r.1) == recv_step(old(port).state.model()),
        port_step(*old(port), PortOp::Recv, *final(port)),
        final(port).cap == old(port).cap,
        final(port).elem_meta == old(port).elem_meta,
        final(port).elem_slots == old(port).elem_slots,
{
    port.state.try_recv()
}

/// Register a sender to wait.
pub fn register_sender<V>(port: &mut PortData<V>, waiter: WaiterInfo, value: V)
    ensures
        final(port).state.model() == (PortModel {
            senders: old(port).state.model().senders.push((waiter, value)),
            ..old(port).state.model()
        }),
        port_step(*old(port), PortOp::RegisterSender(waiter, value), *final(port)),
        final(port).cap == old(port).cap,
        final(port).elem_meta == old(port).elem_meta,
        final(port).elem_slots == old(port).elem_slots,
{
    port.state.register_sender(waiter, value);
}

/// Register a receiver to wait.
pub fn register_receiver<V>(port: &mut PortData<V>, waiter: WaiterInfo)
    ensures
        final(port).state.model() == (PortModel {
            receivers: old(port).state.model().receivers.push(waiter),
            ..old(port).state.model()
        }),
        port_step(*old(port), PortOp::RegisterReceiver(waiter), *final(port)),
        final(port).cap == old(port).cap,
        final(port).elem_meta == old(port).elem_meta,
        final(port).elem_slots == old(port).elem_slots,
{
    port.state.register_receiver(waiter);
}

/// Take all waiting receivers (for close notification).
pub fn take_waiting_receivers<V>(port: &mut PortData<V>) -> (r: Vec<WaiterInfo>)
    ensures
        r@ == old(port).state.model().receivers,
        final(port).state.model() == (PortModel { receivers: Seq::empty(), ..old(port).state.model() }),
        port_step(*old(port), PortOp::TakeReceivers, *final(port)),
        final(port).cap == old(port).cap,
        final(port).elem_meta == old(port).elem_meta,
        final(port).elem_slots == old(port).elem_slots,
{
    port.state.take_waiting_receivers()
}

/// Take all waiting senders (for close notification).
pub fn take_waiting_senders<V>(port: &mut PortData<V>) -> (r: Vec<(WaiterInfo, V)>)
    ensures
        r@ == old(port).state.model().senders,
        final(port).state.model() == (PortModel { senders: Seq::empty(), ..old(port).state.model() }),
        port_step(*old(port), PortOp::TakeSenders, *final(port)),
        final(port).cap == old(port).cap,
        final(port).elem_meta == old(port).elem_meta,
        final(port).elem_slots == old(port).elem_slots,
{
    port.state.take_waiting_senders()
}

// ==================== Laws ====================

/// A closed port refuses every send and keeps its state.
pub proof fn lemma_send_on_closed<V>(s: PortModel<V>, v: V, cap: int)
    requires
        s.closed,
    ensures
        send_step(s, v, cap).0 == s,
        send_step(s, v, cap).1 == SendResult::<V>::Closed,
{
}

/// Values come out in the order they went in: two values sent into an open, empty port
/// of capacity at least 2 are received in the same order.
pub proof fn lemma_fifo<V>(a: V, b: V, cap: int)
    requires
        cap >= 2,
    ensures
        ({
            let s0 = empty_model::<V>(false);
            let s1 = send_step(s0, a, cap).0;
            let s2 = send_step(s1, b, cap).0;
            let r1 = recv_step(s2);
            let r2 = recv_step(r1.0);
            &&& send_step(s0, a, cap).1 == SendResult::<V>::Buffered
            &&& send_step(s1, b, cap).1 == SendResult::<V>::Buffered
            &&& r1.2 == Some(a)
            &&& r2.2 == Some(b)
            &&& r2.0 == empty_model::<V>(false)
        }),
{
    let s0 = empty_model::<V>(false);
    let s1 = send_step(s0, a, cap).0;
    let s2 = send_step(s1, b, cap).0;
    assert(s2.buffer =~= seq![a, b]);
    let r1 = recv_step(s2);
    assert(r1.0.buffer =~= seq![b]);
    let r2 = recv_step(r1.0);
    assert(r2.0.buffer =~= Seq::<V>::empty());
}

/// A send to a port with a waiting receiver wakes the oldest receiver, and the next
/// receive returns the value sent when nothing was buffered before.
pub proof fn lemma_direct_handoff<V>(s: PortModel<V>, v: V, cap: int)
    requires
        !s.closed,
        s.receivers.len() > 0,
        s.buffer.len() == 0,
    ensures
        send_step(s, v, cap).1 == SendResult::<V>::DirectSend(s.receivers[0]),
        recv_step(send_step(s, v, cap).0).2 == Some(v),
{
}

/// Receiving from a closed port drains the buffered values first, and reports
/// `Closed` only once nothing is buffered and no sender waits.
pub proof fn lemma_recv_closed<V>(s: PortModel<V>)
    requires
        s.closed,
    ensures
        s.buffer.len() > 0 ==> recv_step(s).2 == Some(s.buffer[0]),
        (s.buffer.len() == 0 && s.senders.len() == 0) <==> recv_step(s).1 == RecvResult::Closed,
        recv_step(s).0.closed,
{
}

/// A send never loses a value: either it is appended to the buffer or handed back.
pub proof fn lemma_send_keeps_value<V>(s: PortModel<V>, v: V, cap: int)
    ensures
        ({
            let (t, r) = send_step(s, v, cap);
            ||| (t.buffer == s.buffer.push(v) && t.senders == s.senders)
            ||| (t == s && (r == SendResult::WouldBlock(v) || r == SendResult::<V>::Closed))
        }),
{
}


/// Once a port is closed, no operation reopens it: after any sequence of operations a
/// port is closed exactly when it was closed before or one of them was a close.
pub proof fn lemma_closed_stays_closed<V>(s: PortModel<V>, ops: Seq<PortOp<V>>, cap: int)
    ensures
        port_run(s, ops, cap).closed == (s.closed || exists|i: int| 0 <= i < ops.len() && #[trigger] ops[i] is Close),
    decreases ops.len(),
{
    if ops.len() > 0 {
        let ops1 = ops.drop_last();
        let n = ops.len() - 1;
        lemma_closed_stays_closed(s, ops1, cap);
        if exists|i: int| 0 <= i < ops1.len() && #[trigger] ops1[i] is Close {
            let i = choose|i: int| 0 <= i < ops1.len() && #[trigger] ops1[i] is Close;
            assert(ops[i] == ops1[i]);
        }
        if exists|i: int| 0 <= i < ops.len() && #[trigger] ops[i] is Close {
            let i = choose|i: int| 0 <= i < ops.len() && #[trigger] ops[i] is Close;
            if i < n {
                assert(ops1[i] == ops[i]);
            }
        }
    }
}

/// Through any sequence of operations a port object keeps its capacity and element
/// metadata, and its state is the one the operations' steps give.
pub proof fn lemma_port_trace<V>(ps: Seq<PortData<V>>, ops: Seq<PortOp<V>>)
    requires
        port_trace(ps, ops),
    ensures
        ps.last().cap == ps[0].cap,
        ps.last().elem_meta == ps[0].elem_meta,
        ps.last().elem_slots == ps[0].elem_slots,
        ps.last().state.model() == port_run(ps[0].state.model(), ops, ps[0].cap as int),
    decreases ops.len(),
{
    if ops.len() > 0 {
        let n = ops.len() - 1;
        let ps1 = ps.drop_last();
        let ops1 = ops.drop_last();
        assert forall|i: int| 0 <= i < ops1.len() implies port_step(ps1[i], #[trigger] ops1[i], ps1[i + 1]) by {
            assert(ops1[i] == ops[i]);
            assert(port_step(ps[i], ops[i], ps[i + 1]));
        }
        lemma_port_trace(ps1, ops1);
        assert(port_step(ps[n], ops[n], ps[n + 1]));
        assert(ps1.last() == ps[n]);
        assert(ps.last() == ps[n + 1]);
    }
}


/// The values a receiver can still get from a port, in the order it gets them: the
/// buffered values, then those of the waiting senders.
pub open spec fn port_pending<V>(s: PortModel<V>) -> Seq<V> {
    s.buffer + s.senders.map_values(|e: (WaiterInfo, V)| e.1)
}

/// A receive never loses or reorders a value: when any value is pending it succeeds
/// with the oldest one and leaves the rest pending in order (a waiting sender's value
/// is taken even when nothing is buffered); when none is, it reports `Closed` on a
/// closed port and `WouldBlock` on an open one, changing nothing.
pub proof fn lemma_port_recv_pending<V>(s: PortModel<V>)
    ensures
        port_pending(s).len() > 0 ==> recv_step(s).1 is Success && recv_step(s).2 == Some(port_pending(s)[0])
            && port_pending(recv_step(s).0) == port_pending(s).drop_first(),
        port_pending(s).len() == 0 ==> recv_step(s).0 == s && recv_step(s).2 is None
            && recv_step(s).1 == (if s.closed { RecvResult::Closed } else { RecvResult::WouldBlock }),
{
    let t = recv_step(s).0;
    let vals = s.senders.map_values(|e: (WaiterInfo, V)| e.1);
    if s.buffer.len() > 0 {
        if s.senders.len() > 0 {
            assert(t.senders.map_values(|e: (WaiterInfo, V)| e.1) =~= vals.drop_first());
            assert(port_pending(t) =~= port_pending(s).drop_first());
        } else {
            assert(port_pending(t) =~= port_pending(s).drop_first());
        }
    } else if s.senders.len() > 0 {
        assert(t.senders.map_values(|e: (WaiterInfo, V)| e.1) =~= vals.drop_first());
        assert(port_pending(s) =~= vals);
        assert(port_pending(t) =~= port_pending(s).drop_first());
    } else {
        assert(port_pending(s).len() == 0);
    }
}

/// With no sender waiting, a send that is delivered or buffered adds the value at
/// the end of what is pending; one that would block or finds the port closed changes
/// nothing.
pub proof fn lemma_port_send_pending<V>(s: PortModel<V>, v: V, cap: int)
    requires
        s.senders.len() == 0,
    ensures
        (send_step(s, v, cap).1 is DirectSend || send_step(s, v, cap).1 is Buffered)
            ==> port_pending(send_step(s, v, cap).0) == port_pending(s).push(v),
        (send_step(s, v, cap).1 is WouldBlock || send_step(s, v, cap).1 is Closed) ==> send_step(s, v, cap).0 == s,
{
    let t = send_step(s, v, cap).0;
    if send_step(s, v, cap).1 is DirectSend || send_step(s, v, cap).1 is Buffered {
        assert(port_pending(t) =~= port_pending(s).push(v)) by {
            assert(t.senders == s.senders);
        }
    }
}

} // verus!

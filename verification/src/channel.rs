//! Channels between fibers of one VM.
//!
//! A channel object holds its state (buffer, closed flag, waiting senders with
//! their values, waiting receivers), its element type and its capacity.

use vstd::prelude::*;

verus! {

broadcast use vstd::std_specs::vecdeque::group_vec_dequeue_axioms;

/// Fiber identifier.
pub type FiberId = u32;

/// Type identifier (index into the type table).
pub type TypeId = u32;

/// Number of object slots a channel occupies.
pub const SIZE_SLOTS: usize = 3;

/// Channel state.
pub struct ChannelState {
    pub buffer: std::collections::VecDeque<u64>,
    pub closed: bool,
    pub waiting_senders: std::collections::VecDeque<(FiberId, u64)>,
    pub waiting_receivers: std::collections::VecDeque<FiberId>,
}

/// Mathematical model of a channel state.
pub struct ChanModel {
    pub buffer: Seq<u64>,
    pub closed: bool,
    pub senders: Seq<(FiberId, u64)>,
    pub receivers: Seq<FiberId>,
}

impl ChannelState {
    /// The model of this state.
    pub open spec fn model(&self) -> ChanModel {
        ChanModel {
            buffer: self.buffer@,
            closed: self.closed,
            senders: self.waiting_senders@,
            receivers: self.waiting_receivers@,
        }
    }
}

/// A channel object.
pub struct Channel {
    pub type_id: TypeId,
    pub state: ChannelState,
    pub elem_type: TypeId,
    pub capacity: usize,
}

/// The state after sending `val` on an open channel, and the result: `Ok(Some(r))` when
/// receiver `r` was waiting, `Ok(None)` when buffered, `Err(val)` when full.
pub open spec fn chan_send_step(s: ChanModel, val: u64, cap: int) -> (ChanModel, Result<Option<FiberId>, u64>) {
    if s.receivers.len() > 0 {
        (
            ChanModel { buffer: s.buffer.push(val), receivers: s.receivers.drop_first(), ..s },
            Ok(Some(s.receivers[0])),
        )
    } else if s.buffer.len() < cap {
        (ChanModel { buffer: s.buffer.push(val), ..s }, Ok(None))
    } else {
        (s, Err(val))
    }
}

/// The state after a receive, and the result: `Ok(Some(v))` on a value, `Ok(None)` on a
/// closed and drained channel, `Err(())` when it would block.
pub open spec fn chan_recv_step(s: ChanModel) -> (ChanModel, Result<Option<u64>, ()>) {
    if s.buffer.len() > 0 {
        if s.senders.len() > 0 {
            (
                ChanModel {
                    buffer: s.buffer.drop_first().push(s.senders[0].1),
                    senders: s.senders.drop_first(),
                    ..s
                },
                Ok(Some(s.buffer[0])),
            )
        } else {
            (ChanModel { buffer: s.buffer.drop_first(), ..s }, Ok(Some(s.buffer[0])))
        }
    } else if s.senders.len() > 0 {
        (ChanModel { senders: s.senders.drop_first(), ..s }, Ok(Some(s.senders[0].1)))
    } else if s.closed {
        (s, Ok(None))
    } else {
        (s, Err(()))
    }
}

/// An operation on a channel, as the library performs it.
pub enum ChanOp {
    /// `try_send` of the value.
    Send(u64),
    /// `try_recv`.
    Recv,
    /// `close`.
    Close,
}

/// The state of a channel after `op`.
pub open spec fn chan_op_model(s: ChanModel, op: ChanOp, cap: int) -> ChanModel {
    match op {
        ChanOp::Send(v) => chan_send_step(s, v, cap).0,
        ChanOp::Recv => chan_recv_step(s).0,
        ChanOp::Close => ChanModel { closed: true, ..s },
    }
}

/// `c1` is what `op` makes of `c0`: a send only on an open channel, the state moved
/// by the operation's step, and the type, element type and capacity kept.
pub open spec fn chan_step(c0: Channel, op: ChanOp, c1: Channel) -> bool {
    &&& c1.type_id == c0.type_id
    &&& c1.elem_type == c0.elem_type
    &&& c1.capacity == c0.capacity
    &&& c1.state.model() == chan_op_model(c0.state.model(), op, c0.capacity as int)
    &&& (op is Send ==> !c0.state.closed)
}

/// `cs` is the sequence of channel values that the operations `ops` go through.
pub open spec fn chan_trace(cs: Seq<Channel>, ops: Seq<ChanOp>) -> bool {
    &&& cs.len() == ops.len() + 1
    &&& forall|i: int| 0 <= i < ops.len() ==> chan_step(cs[i], #[trigger] ops[i], cs[i + 1])
}

/// Create an open, empty channel.
pub fn create(type_id: TypeId, elem_type: TypeId, capacity: usize) -> (r: Channel)
    ensures
        r.type_id == type_id,
        r.elem_type == elem_type,
        r.capacity == capacity,
        r.state.model() == (ChanModel {
            buffer: Seq::empty(),
            closed: false,
            senders: Seq::empty(),
            receivers: Seq::empty(),
        }),
{
    let state = ChannelState {
        buffer: std::collections::VecDeque::with_capacity(capacity),
        closed: false,
        waiting_senders: std::collections::VecDeque::new(),
        waiting_receivers: std::collections::VecDeque::new(),
    };
    Channel { type_id, state, elem_type, capacity }
}

/// The channel's state.
pub fn get_state(chan: &mut Channel) -> (r: &mut ChannelState)
    ensures
        *r == old(chan).state,
        final(chan).state == *final(r),
        final(chan).type_id == old(chan).type_id,
        final(chan).elem_type == old(chan).elem_type,
        final(chan).capacity == old(chan).capacity,
{
    &mut chan.state
}

/// Element type of the channel.
pub fn elem_type(chan: &Channel) -> (r: TypeId)
    ensures
        r == chan.elem_type,
{
    chan.elem_type
}

/// Capacity of the channel.
pub fn capacity(chan: &Channel) -> (r: usize)
    ensures
        r == chan.capacity,
{
    chan.capacity
}

/// Number of buffered values.
pub fn len(chan: &Channel) -> (r: usize)
    ensures
        r == chan.state.buffer@.len(),
{
    chan.state.buffer.len()
}

/// Whether the channel is closed.
pub fn is_closed(chan: &Channel) -> (r: bool)
    ensures
        r == chan.state.closed,
{
    chan.state.closed
}

/// Close the channel.
pub fn close(chan: &mut Channel)
    ensures
        final(chan).state.model() == (ChanModel { closed: true, ..old(chan).state.model() }),
        chan_step(*old(chan), ChanOp::Close, *final(chan)),
        final(chan).type_id == old(chan).type_id,
        final(chan).elem_type == old(chan).elem_type,
        final(chan).capacity == old(chan).capacity,
{
    chan.state.closed = true;
}

/// Send on an open channel (sending on a closed channel is a panic of the program).
pub fn try_send(chan: &mut Channel, val: u64) -> (r: Result<Option<FiberId>, u64>)
    requires
        !old(chan).state.closed,
    ensures
        (final(chan).state.model(), r) == chan_send_step(old(chan).state.model(), val, old(chan).capacity as int),
        chan_step(*old(chan), ChanOp::Send(val), *final(chan)),
        final(chan).type_id == old(chan).type_id,
        final(chan).elem_type == old(chan).elem_type,
        final(chan).capacity == old(chan).capacity,
{
    let cap = chan.capacity;
    if let Some(receiver_id) = chan.state.waiting_receivers.pop_front() {
        chan.state.buffer.push_back(val);
        return Ok(Some(receiver_id));
    }
    if chan.state.buffer.len() < cap {
        chan.state.buffer.push_back(val);
        return Ok(None);
    }
    Err(val)
}

/// Receive from the channel.
pub fn try_recv(chan: &mut Channel) -> (r: Result<Option<u64>, ()>)
    ensures
        (final(chan).state.model(), r) == chan_recv_step(old(chan).state.model()),
        chan_step(*old(chan), ChanOp::Recv, *final(chan)),
        final(chan).type_id == old(chan).type_id,
        final(chan).elem_type == old(chan).elem_type,
        final(chan).capacity == old(chan).capacity,
{
    if let Some(val) = chan.state.buffer.pop_front() {
        if let Some(entry) = chan.state.waiting_senders.pop_front() {
            let (_, sender_val) = entry;
            chan.state.buffer.push_back(sender_val);
        }
        return Ok(Some(val));
    }
    if let Some(entry) = chan.state.waiting_senders.pop_front() {
        let (_, v) = entry;
        return Ok(Some(v));
    }
    if chan.state.closed {
        return Ok(None);
    }
    Err(())
}

// ==================== Laws ====================

/// Buffered values come out in the order they were sent: with room for both, a value
/// `a` sent before `b` is received before `b`.
pub proof fn lemma_chan_fifo(s: ChanModel, a: u64, b: u64, cap: int)
    requires
        s.receivers.len() == 0,
        s.senders.len() == 0,
        s.buffer.len() + 2 <= cap,
    ensures
        ({
            let s1 = chan_send_step(s, a, cap).0;
            let s2 = chan_send_step(s1, b, cap).0;
            &&& s2.buffer == s.buffer.push(a).push(b)
            &&& chan_send_step(s, a, cap).1 == Ok::<Option<FiberId>, u64>(None)
            &&& chan_send_step(s1, b, cap).1 == Ok::<Option<FiberId>, u64>(None)
        }),
{
}

/// Receiving from an empty channel that is still open would block and leaves it as it was.
pub proof fn lemma_chan_recv_blocks(s: ChanModel)
    requires
        s.buffer.len() == 0,
        s.senders.len() == 0,
        !s.closed,
    ensures
        chan_recv_step(s).0 == s,
        chan_recv_step(s).1 == Err::<Option<u64>, ()>(()),
{
}

/// A receive takes the oldest buffered value, and the buffer keeps its order.
pub proof fn lemma_chan_recv_oldest(s: ChanModel)
    requires
        s.buffer.len() > 0,
    ensures
        chan_recv_step(s).1 == Ok::<Option<u64>, ()>(Some(s.buffer[0])),
        chan_recv_step(s).0.buffer.subrange(0, s.buffer.len() - 1) == s.buffer.drop_first(),
{
}


/// A send that is accepted (to a waiting receiver or into spare room) adds one value
/// to the buffer; a refused send hands the value back and changes nothing.
pub proof fn lemma_chan_send_len(s: ChanModel, v: u64, cap: int)
    ensures
        match chan_send_step(s, v, cap).1 {
            Ok(_) => chan_send_step(s, v, cap).0.buffer.len() == s.buffer.len() + 1,
            Err(w) => w == v && chan_send_step(s, v, cap).0 == s,
        },
{
}

/// Through any sequence of sends, receives and closes, a channel keeps its type,
/// element type and capacity, and it is closed at the end exactly when it was closed
/// at the start or one of the operations was a close.
pub proof fn lemma_chan_trace(cs: Seq<Channel>, ops: Seq<ChanOp>)
    requires
        chan_trace(cs, ops),
    ensures
        cs.last().type_id == cs[0].type_id,
        cs.last().elem_type == cs[0].elem_type,
        cs.last().capacity == cs[0].capacity,
        cs.last().state.closed == (cs[0].state.closed || exists|i: int| 0 <= i < ops.len() && #[trigger] ops[i] is Close),
    decreases ops.len(),
{
    if ops.len() > 0 {
        let n = ops.len() - 1;
        let cs1 = cs.drop_last();
        let ops1 = ops.drop_last();
        assert forall|i: int| 0 <= i < ops1.len() implies chan_step(cs1[i], #[trigger] ops1[i], cs1[i + 1]) by {
            assert(ops1[i] == ops[i]);
            assert(chan_step(cs[i], ops[i], cs[i + 1]));
        }
        lemma_chan_trace(cs1, ops1);
        assert(chan_step(cs[n], ops[n], cs[n + 1]));
        assert(cs1.last() == cs[n]);
        assert(cs.last() == cs[n + 1]);
        if cs.last().state.closed && !cs[0].state.closed {
            if !(ops[n] is Close) {
                assert(exists|i: int| 0 <= i < ops1.len() && #[trigger] ops1[i] is Close);
                let i = choose|i: int| 0 <= i < ops1.len() && #[trigger] ops1[i] is Close;
                assert(ops[i] == ops1[i]);
            }
        }
        if exists|i: int| 0 <= i < ops.len() && #[trigger] ops[i] is Close {
            let i = choose|i: int| 0 <= i < ops.len() && #[trigger] ops[i] is Close;
            if i < n {
                assert(ops1[i] == ops[i]);
            }
        }
    }
}


/// The values a receiver can still get, in the order it gets them: the buffered
/// values, then those of the waiting senders.
pub open spec fn pending(s: ChanModel) -> Seq<u64> {
    s.buffer + s.senders.map_values(|e: (FiberId, u64)| e.1)
}

/// A receive never loses or reorders a value: when any value is pending it returns
/// the oldest one and leaves the rest pending in order (a waiting sender's value is
/// taken even when nothing is buffered); when none is, it returns `Ok(None)` on a
/// closed channel and would block on an open one, changing nothing.
pub proof fn lemma_chan_recv_pending(s: ChanModel)
    ensures
        pending(s).len() > 0 ==> chan_recv_step(s).1 == Ok::<Option<u64>, ()>(Some(pending(s)[0]))
            && pending(chan_recv_step(s).0) == pending(s).drop_first(),
        pending(s).len() == 0 ==> chan_recv_step(s).0 == s
            && chan_recv_step(s).1 == (if s.closed { Ok::<Option<u64>, ()>(None) } else { Err(()) }),
{
    let t = chan_recv_step(s).0;
    let vals = s.senders.map_values(|e: (FiberId, u64)| e.1);
    if s.buffer.len() > 0 {
        if s.senders.len() > 0 {
            assert(t.senders.map_values(|e: (FiberId, u64)| e.1) =~= vals.drop_first());
            assert(pending(t) =~= pending(s).drop_first());
        } else {
            assert(pending(t) =~= pending(s).drop_first());
        }
    } else if s.senders.len() > 0 {
        assert(t.senders.map_values(|e: (FiberId, u64)| e.1) =~= vals.drop_first());
        assert(pending(s) =~= vals);
        assert(pending(t) =~= pending(s).drop_first());
    } else {
        assert(pending(s).len() == 0);
    }
}

/// With no sender waiting, an accepted send adds the value at the end of what is
/// pending; a refused one hands it back and changes nothing.
pub proof fn lemma_chan_send_pending(s: ChanModel, v: u64, cap: int)
    requires
        s.senders.len() == 0,
    ensures
        chan_send_step(s, v, cap).1 is Ok ==> pending(chan_send_step(s, v, cap).0) == pending(s).push(v),
        chan_send_step(s, v, cap).1 is Err ==> chan_send_step(s, v, cap).0 == s,
{
    let t = chan_send_step(s, v, cap).0;
    if chan_send_step(s, v, cap).1 is Ok {
        assert(pending(t) =~= pending(s).push(v)) by {
            assert(t.senders == s.senders);
        }
    }
}

} // verus!

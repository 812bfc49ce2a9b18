//! Back pressure: how many sends, and how many bytes, may be under way at once.
use vstd::prelude::*;

use crate::error::Error;
use crate::message::{body_bytes, Message};

verus! {

/// The least number of sends that may be under way.
pub const MIN_ASYNC_SEND_NUM: i64 = 10;

/// The least number of bytes that may be under way.
pub const MIN_ASYNC_SEND_SIZE: i64 = 1048576;

/// What one message costs in bytes: the length of its body, and 1 for an empty one.
pub open spec fn byte_cost(m: Message) -> int {
    let n = body_bytes(m.body).len() as int;
    if n == 0 {
        1
    } else if n > i64::MAX {
        i64::MAX as int
    } else {
        n
    }
}

/// What a list of messages costs in bytes, at most `i64::MAX`; an empty list costs 1.
pub open spec fn batch_cost(msgs: Seq<Message>) -> int {
    if msgs.len() == 0 {
        1
    } else if summed_cost(msgs) > i64::MAX {
        i64::MAX as int
    } else {
        summed_cost(msgs)
    }
}

/// The sum of what the messages cost.
pub open spec fn summed_cost(msgs: Seq<Message>) -> int
    decreases msgs.len(),
{
    if msgs.len() == 0 {
        0
    } else {
        summed_cost(msgs.drop_last()) + byte_cost(msgs.last())
    }
}

pub fn back_pressure_msg_len(msg: &Message) -> (r: i64)
    ensures
        r == byte_cost(*msg),
        r > 0,
{
    let len = msg.body_len();
    if len == 0 {
        1
    } else if len as u128 > i64::MAX as u128 {
        i64::MAX
    } else {
        len as i64
    }
}

pub fn batch_back_pressure_msg_len(msgs: &[Message]) -> (r: i64)
    ensures
        r == batch_cost(msgs@),
        r > 0,
{
    let mut total: i64 = 0;
    let mut i: usize = 0;
    while i < msgs.len()
        invariant
            i <= msgs@.len(),
            summed_cost(msgs@.subrange(0, i as int)) >= i,
            total == if summed_cost(msgs@.subrange(0, i as int)) > i64::MAX {
                i64::MAX as int
            } else {
                summed_cost(msgs@.subrange(0, i as int))
            },
        decreases msgs@.len() - i,
    {
        let cost: i64 = back_pressure_msg_len(&msgs[i]);
        proof {
            let part = msgs@.subrange(0, i + 1);
            assert(part.drop_last() =~= msgs@.subrange(0, i as int));
            assert(part.last() == msgs@[i as int]);
        }
        total = if total > i64::MAX - cost {
            i64::MAX
        } else {
            total + cost
        };
        i = i + 1;
    }
    assert(msgs@.subrange(0, i as int) =~= msgs@);
    if total == 0 {
        1
    } else {
        total
    }
}

/// The permits of one gate: how many there are in all, and how many are free. More may be
/// out than there are, after the total was lowered; then fewer than none are free.
#[derive(Debug)]
pub struct PermitGate {
    pub total: i64,
    pub free: i64,
}

/// `after` is `before` with `n` permits taken.
pub open spec fn took(before: PermitGate, after: PermitGate, n: int) -> bool {
    after.total == before.total && after.free == before.free - n
}

/// `after` is `before` with `n` permits given back.
pub open spec fn gave(before: PermitGate, after: PermitGate, n: int) -> bool {
    after.total == before.total && after.free == before.free + n
}

/// What a send took and gives back leaves the gates as they were.
pub proof fn law_permits_come_back(
    p: SendPermits,
    num: (PermitGate, PermitGate, PermitGate),
    size: (PermitGate, PermitGate, PermitGate),
)
    requires
        took(num.0, num.1, held(p).0) && took(size.0, size.1, held(p).1),
        gave(num.1, num.2, held(p).0) && gave(size.1, size.2, held(p).1),
    ensures
        num.2 == num.0,
        size.2 == size.0,
{
}

impl PermitGate {
    /// The permits that are out.
    pub open spec fn out(&self) -> int {
        self.total - self.free
    }

    /// Nobody holds fewer than no permits, and all of them can be counted.
    pub open spec fn wf(&self) -> bool {
        &&& self.total >= 0
        &&& 0 <= self.out() <= i64::MAX
    }

    /// A gate with `total` permits, all free; with `floor` of them, where `total` is less.
    pub fn new(total: i64, floor: i64) -> (r: PermitGate)
        requires
            floor >= 0,
        ensures
            r.wf(),
            r.total == if total < floor {
                floor
            } else {
                total
            },
            r.free == r.total,
    {
        let n: i64 = if total < floor {
            floor
        } else {
            total
        };
        PermitGate { total: n, free: n }
    }

    /// Takes `n` permits where so many are free.
    pub fn try_take(&mut self, n: i64) -> (r: bool)
        requires
            old(self).wf(),
            n >= 0,
        ensures
            final(self).wf(),
            r == (old(self).free >= n),
            took(
                *old(self),
                *final(self),
                if r {
                    n as int
                } else {
                    0
                },
            ),
    {
        if self.free >= n {
            self.free = self.free - n;
            true
        } else {
            false
        }
    }

    /// Gives `n` permits back that were taken.
    pub fn release(&mut self, n: i64)
        requires
            old(self).wf(),
            0 <= n <= old(self).out(),
        ensures
            final(self).wf(),
            gave(*old(self), *final(self), n as int),
    {
        self.free = self.free + n;
    }

    /// Changes how many permits there are; those that are out stay out.
    pub fn set_total_permits(&mut self, total: i64)
        requires
            old(self).wf(),
            total >= 0,
        ensures
            final(self).wf(),
            final(self).total == total,
            final(self).out() == old(self).out(),
    {
        let out: i64 = self.total - self.free;
        self.total = total;
        self.free = total - out;
    }
}

/// The permits that one send holds.
#[derive(Debug, PartialEq, Eq)]
pub struct SendPermits {
    pub num_acquired: bool,
    pub size_acquired: bool,
    pub msg_len: i64,
}

/// How many permits of each gate a send holds.
pub open spec fn held(p: SendPermits) -> (int, int) {
    (
        if p.num_acquired {
            1
        } else {
            0
        },
        if p.size_acquired {
            p.msg_len as int
        } else {
            0
        },
    )
}

/// What is left of a budget; `None` where nothing is.
pub fn left_of(timeout: i64, cost: i64) -> (r: Option<i64>)
    requires
        cost >= 0,
    ensures
        r == if timeout > cost {
            Some((timeout - cost) as i64)
        } else {
            None
        },
{
    if timeout > cost {
        Some(timeout - cost)
    } else {
        None
    }
}

impl SendPermits {
    /// No permit yet.
    pub fn new(msg_len: i64) -> (r: SendPermits)
        ensures
            r == (SendPermits { num_acquired: false, size_acquired: false, msg_len }),
    {
        SendPermits { num_acquired: false, size_acquired: false, msg_len }
    }

    /// What came of asking for a permit to send one more.
    pub fn num_answer(&mut self, acquired: bool) -> (r: Result<(), Error>)
        ensures
            *final(self) == (SendPermits { num_acquired: acquired, ..*old(self) }),
            match r {
                Ok(_) => acquired,
                Err(e) => !acquired && (e matches Error::TooMuchRequest(m) && m@
                    == "send message tryAcquire semaphoreAsyncNum timeout"@),
            },
    {
        self.num_acquired = acquired;
        if acquired {
            Ok(())
        } else {
            Err(
                Error::TooMuchRequest(
                    "send message tryAcquire semaphoreAsyncNum timeout".to_owned(),
                ),
            )
        }
    }

    /// What came of asking for permits for the bytes.
    pub fn size_answer(&mut self, acquired: bool) -> (r: Result<(), Error>)
        ensures
            *final(self) == (SendPermits { size_acquired: acquired, ..*old(self) }),
            match r {
                Ok(_) => acquired,
                Err(e) => !acquired && (e matches Error::TooMuchRequest(m) && m@
                    == "send message tryAcquire semaphoreAsyncSize timeout"@),
            },
    {
        self.size_acquired = acquired;
        if acquired {
            Ok(())
        } else {
            Err(
                Error::TooMuchRequest(
                    "send message tryAcquire semaphoreAsyncSize timeout".to_owned(),
                ),
            )
        }
    }

    /// Gives back what is held, and nothing else: the bytes first, then the send.
    pub fn release(&mut self, num: &mut PermitGate, size: &mut PermitGate)
        requires
            old(num).wf(),
            old(size).wf(),
            old(self).msg_len >= 0,
            held(*old(self)).0 <= old(num).out(),
            held(*old(self)).1 <= old(size).out(),
        ensures
            final(num).wf(),
            final(size).wf(),
            gave(*old(num), *final(num), held(*old(self)).0),
            gave(*old(size), *final(size), held(*old(self)).1),
            *final(self) == (SendPermits {
                num_acquired: false,
                size_acquired: false,
                ..*old(self)
            }),
    {
        if self.size_acquired {
            size.release(self.msg_len);
            self.size_acquired = false;
        }
        if self.num_acquired {
            num.release(1);
            self.num_acquired = false;
        }
    }
}

/// A message costs the length of its body, and an empty one still costs something. A batch costs
/// what its messages cost together.
pub proof fn law_batch_costs_what_its_messages_cost(
    msgs: &[Message],
    whole: i64,
    front: &[Message],
    part: i64,
    m: &Message,
    one: i64,
)
    requires
        call_ensures(batch_back_pressure_msg_len, (msgs,), whole),
        call_ensures(batch_back_pressure_msg_len, (front,), part),
        call_ensures(back_pressure_msg_len, (m,), one),
    ensures
        0 < body_bytes(m.body).len() <= i64::MAX ==> one == body_bytes(m.body).len(),
        body_bytes(m.body).len() == 0 ==> one == 1,
        body_bytes(m.body).len() > i64::MAX ==> one == i64::MAX,
        msgs@ == seq![*m] ==> whole == one,
        front@.len() > 0 && msgs@ == front@.push(*m) ==> whole == if part + one > i64::MAX {
            i64::MAX as int
        } else {
            part + one
        },
        msgs@.len() == 0 ==> whole == 1,
{
    if msgs@ == seq![*m] {
        assert(msgs@.drop_last() =~= Seq::<Message>::empty());
        assert(summed_cost(msgs@.drop_last()) == 0);
        assert(msgs@.last() == *m);
    }
    if front@.len() > 0 && msgs@ == front@.push(*m) {
        assert(msgs@.drop_last() =~= front@);
        assert(msgs@.last() == *m);
    }
}

/// Permits are taken only where so many are free, and exactly so many; they come back one for
/// one. The total never changes by either.
pub proof fn law_gate_counts_its_permits(gate: &mut PermitGate, n: i64, taken: bool, other: &mut PermitGate, m: i64)
    requires
        old(gate).wf() && n >= 0,
        call_ensures(PermitGate::try_take, (gate, n), taken),
        old(other).wf() && 0 <= m <= old(other).total - old(other).free,
        call_ensures(PermitGate::release, (other, m), ()),
    ensures
        taken <==> n <= old(gate).free,
        taken ==> final(gate).free + n == old(gate).free,
        !taken ==> final(gate).free == old(gate).free,
        final(gate).total == old(gate).total,
        final(other).free == old(other).free + m,
        final(other).total == old(other).total,
{
}

/// A gate begins with all its permits free, and with no fewer than the floor. Where the total is
/// changed, those that are out stay out: what is free changes by as much.
pub proof fn law_total_changes_what_is_free(
    total: i64,
    floor: i64,
    fresh: PermitGate,
    gate: &mut PermitGate,
    most: i64,
)
    requires
        floor >= 0,
        call_ensures(PermitGate::new, (total, floor), fresh),
        old(gate).wf() && most >= 0,
        call_ensures(PermitGate::set_total_permits, (gate, most), ()),
    ensures
        fresh.free == fresh.total,
        fresh.total >= floor && fresh.total >= total,
        fresh.total == floor || fresh.total == total,
        final(gate).total == most,
        final(gate).free - old(gate).free == most - old(gate).total,
{
}

/// A send holds a permit only where it got one, gives back exactly what it holds, and holds
/// nothing afterwards.
pub proof fn law_send_gives_back_what_it_holds(permits: &mut SendPermits, num: &mut PermitGate, size: &mut PermitGate)
    requires
        call_ensures(SendPermits::release, (permits, num, size), ()),
    ensures
        final(num).free == old(num).free + if old(permits).num_acquired {
            1int
        } else {
            0
        },
        final(size).free == old(size).free + if old(permits).size_acquired {
            old(permits).msg_len as int
        } else {
            0
        },
        final(num).total == old(num).total && final(size).total == old(size).total,
        !final(permits).num_acquired && !final(permits).size_acquired,
{
}

/// A send that waited for permits goes on where it got them, and is refused where not.
pub proof fn law_refused_without_permits(
    msg_len: i64,
    fresh: SendPermits,
    a: &mut SendPermits,
    got_num: bool,
    num: Result<(), Error>,
    b: &mut SendPermits,
    got_size: bool,
    size: Result<(), Error>,
)
    requires
        call_ensures(SendPermits::new, (msg_len,), fresh),
        call_ensures(SendPermits::num_answer, (a, got_num), num),
        call_ensures(SendPermits::size_answer, (b, got_size), size),
    ensures
        !fresh.num_acquired && !fresh.size_acquired && fresh.msg_len == msg_len,
        num is Ok <==> got_num,
        size is Ok <==> got_size,
        num is Err ==> num->Err_0 is TooMuchRequest,
        size is Err ==> size->Err_0 is TooMuchRequest,
        final(a).num_acquired == got_num && final(a).size_acquired == old(a).size_acquired,
        final(b).size_acquired == got_size && final(b).num_acquired == old(b).num_acquired,
        final(a).msg_len == old(a).msg_len && final(b).msg_len == old(b).msg_len,
{
}

/// There is something left of a budget exactly where less than it was used, and it is the rest.
pub proof fn law_what_is_left(timeout: i64, cost: i64, r: Option<i64>)
    requires
        cost >= 0,
        call_ensures(left_of, (timeout, cost), r),
    ensures
        r is Some <==> cost < timeout,
        r matches Some(t) ==> t + cost == timeout,
{
}

} // verus!

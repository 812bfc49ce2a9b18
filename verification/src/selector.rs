//! Choosing a queue for a message by an argument of the sender.
use vstd::prelude::*;

use crate::clock::clock_nanos;
use crate::error::{is_client, Error};
use crate::message::{Message, MessageQueue};
use crate::text::{begins_with, chars_of, code, starts};

verus! {

/// Picks one queue for a message.
pub trait MessageQueueSelector: Send + Sync + 'static {
    fn select(&self, mqs: &[MessageQueue], msg: &Message, arg: &str) -> Result<MessageQueue, Error>;
}

/// By the hash of the argument.
#[derive(Debug, Default, Clone, Copy)]
pub struct SelectMessageQueueByHash;

/// Any queue.
#[derive(Debug, Default, Clone, Copy)]
pub struct SelectMessageQueueByRandom;

/// The first queue on a broker whose name begins with the argument.
#[derive(Debug, Default, Clone, Copy)]
pub struct SelectMessageQueueByMachineRoom;

/// The 32-bit word `h` with the UTF-16 code unit `u` taken in.
pub open spec fn hash_step(h: int, u: int) -> int {
    (h * 31 + u) % 0x1_0000_0000
}

/// The polynomial hash of base 31 over the UTF-16 code units of `s`, as a 32-bit word.
pub open spec fn hash_word(s: Seq<char>) -> int
    decreases s.len(),
{
    if s.len() == 0 {
        0
    } else {
        let h = hash_word(s.drop_last());
        let c = s.last() as int;
        if c < 0x10000 {
            hash_step(h, c)
        } else {
            hash_step(hash_step(h, 0xd800 + (c - 0x10000) / 0x400), 0xdc00 + (c - 0x10000) % 0x400)
        }
    }
}

/// The hash of `s`, the word read as a signed number.
pub open spec fn string_hash(s: Seq<char>) -> int {
    let w = hash_word(s);
    if w < 0x8000_0000 {
        w
    } else {
        w - 0x1_0000_0000
    }
}

/// The queue number that a hash gives among `len`: by the hash's size, with the one hash
/// that has no positive counterpart counted as 0.
pub open spec fn hash_place(hash: int, len: int) -> int {
    if hash == i32::MIN {
        0
    } else if hash < 0 {
        (-hash) % len
    } else {
        hash % len
    }
}

fn take_unit(h: u32, u: u32) -> (r: u32)
    requires
        u < 0x10000,
    ensures
        r == hash_step(h as int, u as int),
{
    let wide: u64 = (h as u64) * 31 + (u as u64);
    (wide % 0x1_0000_0000u64) as u32
}

/// The hash of `s`.
pub fn java_string_hash(s: &str) -> (r: i32)
    ensures
        r == string_hash(s@),
{
    let cs = chars_of(s);
    let mut h: u32 = 0;
    let mut i: usize = 0;
    while i < cs.len()
        invariant
            i <= cs.len(),
            cs@ == s@,
            h == hash_word(s@.subrange(0, i as int)),
        decreases cs.len() - i,
    {
        let c: u32 = code(cs[i]);
        proof {
            let part = s@.subrange(0, i + 1);
            assert(part.drop_last() =~= s@.subrange(0, i as int));
            assert(part.last() == s@[i as int]);
        }
        if c < 0x10000 {
            h = take_unit(h, c);
        } else {
            let low: u32 = c - 0x10000;
            h = take_unit(take_unit(h, 0xd800 + low / 0x400), 0xdc00 + low % 0x400);
        }
        i = i + 1;
    }
    assert(s@.subrange(0, i as int) =~= s@);
    if h < 0x8000_0000u32 {
        h as i32
    } else {
        ((h as i64) - 0x1_0000_0000i64) as i32
    }
}

impl MessageQueueSelector for SelectMessageQueueByHash {
    fn select(&self, mqs: &[MessageQueue], _msg: &Message, arg: &str) -> (r: Result<MessageQueue, Error>)
        ensures
            match r {
                Ok(mq) => mqs@.len() > 0 && mq == mqs@[hash_place(string_hash(arg@), mqs@.len() as int)],
                Err(e) => mqs@.len() == 0 && is_client(e, None, "no message queue"@),
            },
    {
        if mqs.len() == 0 {
            return Err(Error::client("no message queue"));
        }
        let hash: i32 = java_string_hash(arg);
        let size: u64 = if hash == i32::MIN {
            0
        } else if hash < 0 {
            (-hash) as u64
        } else {
            hash as u64
        };
        let place: usize = (size % (mqs.len() as u64)) as usize;
        Ok(mqs[place].clone())
    }
}

impl SelectMessageQueueByRandom {
    /// The queue that the clock reading `nanos` picks.
    pub fn select_at(mqs: &[MessageQueue], nanos: u32) -> (r: Result<MessageQueue, Error>)
        ensures
            match r {
                Ok(mq) => mqs@.len() > 0 && mq == mqs@[nanos as int % mqs@.len() as int],
                Err(e) => mqs@.len() == 0 && is_client(e, None, "no message queue"@),
            },
    {
        if mqs.len() == 0 {
            return Err(Error::client("no message queue"));
        }
        let place: usize = ((nanos as u64) % (mqs.len() as u64)) as usize;
        Ok(mqs[place].clone())
    }
}

impl MessageQueueSelector for SelectMessageQueueByRandom {
    fn select(&self, mqs: &[MessageQueue], _msg: &Message, _arg: &str) -> (r: Result<MessageQueue, Error>)
        ensures
            match r {
                Ok(mq) => mqs@.len() > 0 && mqs@.contains(mq),
                Err(e) => mqs@.len() == 0 && is_client(e, None, "no message queue"@),
            },
    {
        SelectMessageQueueByRandom::select_at(mqs, clock_nanos().unwrap_or(0))
    }
}

/// The first of `mqs` on a broker whose name begins with `room`; -1 where there is none.
pub open spec fn first_in_room(mqs: Seq<MessageQueue>, room: Seq<char>, from: int) -> int
    decreases mqs.len() - from,
{
    if from < 0 || from >= mqs.len() {
        -1
    } else if begins_with(mqs[from].broker_name@, room) {
        from
    } else {
        first_in_room(mqs, room, from + 1)
    }
}

impl MessageQueueSelector for SelectMessageQueueByMachineRoom {
    fn select(&self, mqs: &[MessageQueue], _msg: &Message, arg: &str) -> (r: Result<MessageQueue, Error>)
        ensures
            match r {
                Ok(mq) => {
                    let i = first_in_room(mqs@, arg@, 0);
                    mqs@.len() > 0 && mq == mqs@[if i < 0 {
                        0
                    } else {
                        i
                    }]
                },
                Err(e) => mqs@.len() == 0 && is_client(e, None, "no message queue"@),
            },
    {
        if mqs.len() == 0 {
            return Err(Error::client("no message queue"));
        }
        let mut i: usize = 0;
        while i < mqs.len()
            invariant
                i <= mqs@.len(),
                mqs@.len() > 0,
                first_in_room(mqs@, arg@, 0) == first_in_room(mqs@, arg@, i as int),
            decreases mqs@.len() - i,
        {
            if starts(mqs[i].broker_name.as_str(), arg) {
                return Ok(mqs[i].clone());
            }
            i = i + 1;
        }
        Ok(mqs[0].clone())
    }
}

/// The hash of a text that is one character longer is 31 times that of the text, and the
/// character more, as far as 32 bits go; that of no text is 0.
pub proof fn law_hash_grows_by_the_character(s: &str, t: &str, c: char, h: i32, longer: i32)
    requires
        call_ensures(java_string_hash, (s,), h),
        call_ensures(java_string_hash, (t,), longer),
        t@ == s@.push(c),
        (c as int) < 0x10000,
    ensures
        s@.len() == 0 ==> h == 0,
        (longer - (h * 31 + c as int)) % 0x1_0000_0000 == 0,
{
    assert(t@.drop_last() =~= s@);
    let w = hash_word(s@);
    lemma_word_range(s@);
    let v = hash_word(t@);
    assert(v == (w * 31 + c as int) % 0x1_0000_0000);
    let full = w * 31 + c as int;
    assert((v - full) % 0x1_0000_0000 == 0) by (nonlinear_arith)
        requires
            v == full % 0x1_0000_0000,
    ;
    let a: int = if h < 0 {
        31
    } else {
        0
    };
    let b: int = if longer < 0 {
        1
    } else {
        0
    };
    assert(h == w - (if h < 0 {
        0x1_0000_0000int
    } else {
        0
    }));
    assert(longer - (h * 31 + c as int) == (v - full) + (a - b) * 0x1_0000_0000);
    vstd::arithmetic::div_mod::lemma_mod_multiples_vanish(a - b, v - full, 0x1_0000_0000);
}

proof fn lemma_word_range(s: Seq<char>)
    ensures
        0 <= hash_word(s) < 0x1_0000_0000,
    decreases s.len(),
{
    if s.len() > 0 {
        lemma_word_range(s.drop_last());
    }
}

/// One argument always gives the same queue of a list: the one that the size of its hash falls on.
/// There is a queue exactly where the list has one.
pub proof fn law_one_argument_gives_one_queue(
    by: &SelectMessageQueueByHash,
    mqs: &[MessageQueue],
    msg: &Message,
    arg: &str,
    r: Result<MessageQueue, Error>,
    other: &Message,
    again: Result<MessageQueue, Error>,
    hash: i32,
)
    requires
        call_ensures(SelectMessageQueueByHash::select, (by, mqs, msg, arg), r),
        call_ensures(SelectMessageQueueByHash::select, (by, mqs, other, arg), again),
        call_ensures(java_string_hash, (arg,), hash),
    ensures
        r is Ok <==> mqs@.len() > 0,
        r is Ok ==> again == r,
        r matches Ok(mq) ==> mqs@.contains(mq),
        r is Ok && hash >= 0 ==> r->Ok_0 == mqs@[hash as int % mqs@.len() as int],
        r is Ok && i32::MIN < hash < 0 ==> r->Ok_0 == mqs@[(-hash) as int % mqs@.len() as int],
        r is Ok && hash == i32::MIN ==> r->Ok_0 == mqs@[0],
        r is Err ==> r->Err_0 is Client,
{
    if mqs@.len() > 0 {
        let n = mqs@.len() as int;
        let p = hash_place(string_hash(arg@), n);
        if hash == i32::MIN {
            assert(p == 0);
        } else if hash < 0 {
            vstd::arithmetic::div_mod::lemma_mod_bound((-hash) as int, n);
        } else {
            vstd::arithmetic::div_mod::lemma_mod_bound(hash as int, n);
        }
        assert(0 <= p < n);
        assert(mqs@[p] == mqs@[p]);
        assert(mqs@.contains(mqs@[p]));
    }
}

/// The queue of a machine room is the first whose broker's name begins with the room's; where no
/// broker's does, it is the first of all.
pub proof fn law_queue_of_a_machine_room(
    by: &SelectMessageQueueByMachineRoom,
    mqs: &[MessageQueue],
    msg: &Message,
    arg: &str,
    r: Result<MessageQueue, Error>,
    i: int,
)
    requires
        call_ensures(SelectMessageQueueByMachineRoom::select, (by, mqs, msg, arg), r),
        0 <= i < mqs@.len(),
        forall|j: int| 0 <= j < i ==> !begins_with((#[trigger] mqs@[j]).broker_name@, arg@),
    ensures
        r is Ok,
        begins_with(mqs@[i].broker_name@, arg@) ==> r->Ok_0 == mqs@[i],
        !begins_with(mqs@[i].broker_name@, arg@) && i == mqs@.len() - 1 ==> r->Ok_0 == mqs@[0],
{
    lemma_first_in_room(mqs@, arg@, 0, i);
}

proof fn lemma_first_in_room(mqs: Seq<MessageQueue>, room: Seq<char>, from: int, i: int)
    requires
        0 <= from <= i < mqs.len(),
        forall|j: int| from <= j < i ==> !begins_with((#[trigger] mqs[j]).broker_name@, room),
    ensures
        begins_with(mqs[i].broker_name@, room) ==> first_in_room(mqs, room, from) == i,
        !begins_with(mqs[i].broker_name@, room) && i == mqs.len() - 1 ==> first_in_room(mqs, room, from) == -1,
    decreases i - from,
{
    if from < i {
        assert(!begins_with(mqs[from].broker_name@, room));
        lemma_first_in_room(mqs, room, from + 1, i);
    } else if i == mqs.len() - 1 {
        reveal_with_fuel(first_in_room, 2);
    }
}

/// A queue that is left to the clock is one of the list, and every one of them can be.
pub proof fn law_any_queue_can_be_picked(
    by: &SelectMessageQueueByRandom,
    mqs: &[MessageQueue],
    msg: &Message,
    arg: &str,
    r: Result<MessageQueue, Error>,
    nanos: u32,
    at: Result<MessageQueue, Error>,
)
    requires
        call_ensures(SelectMessageQueueByRandom::select, (by, mqs, msg, arg), r),
        call_ensures(SelectMessageQueueByRandom::select_at, (mqs, nanos), at),
    ensures
        r is Ok <==> mqs@.len() > 0,
        at is Ok <==> mqs@.len() > 0,
        r matches Ok(mq) ==> mqs@.contains(mq),
        nanos < mqs@.len() ==> at == Ok::<MessageQueue, Error>(mqs@[nanos as int]),
{
    if nanos < mqs@.len() {
        vstd::arithmetic::div_mod::lemma_small_mod(nanos as nat, mqs@.len());
    }
}

} // verus!

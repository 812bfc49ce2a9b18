//! Popping messages: handles for what was popped, and the answers about them.
use vstd::prelude::*;

use crate::error::{is_client, Error};
use crate::extra_info::{
    build_extra_info, get_retry, handle, handle_retry, lemma_handle_fields, make_table_key, msg_entries, offsets_of,
    parse_msg_offset_info, parse_start_offset_info, retry_flag, retry_of_topic, start_entries, starts_of,
    table_key,
};
use crate::message::{or_empty, prop, props, put, MessageExt, PROPERTY_FIRST_POP_TIME, PROPERTY_POP_CK};
use crate::protocol::{ChangeInvisibleTimeResponseHeader, PopMessageResponseHeader};
use crate::response_code;
use crate::result::{ChangeInvisibleTimeResult, PopStatus};
use crate::text::{decimal, free_of, int_text, lemma_decimal_reads_back, parsed_int, pieces, same};

verus! {

/// The name under which the tables of a pop answer list the queue of a message: by the
/// handle that it brought along, or else by its topic. `None` where its handle is malformed.
pub open spec fn queue_key(m: MessageExt) -> Option<Seq<char>> {
    let ck = prop(m.properties, PROPERTY_POP_CK@);
    if ck is Some && ck->0.len() > 0 {
        match handle_retry(ck->0) {
            Some(f) => Some(table_key(f, decimal(m.queue_id as int))),
            None => None,
        }
    } else {
        Some(table_key(retry_flag(m.topic@), decimal(m.queue_id as int)))
    }
}

/// The failure of a message whose handle is malformed.
pub open spec fn is_key_failure(e: Error, m: MessageExt) -> bool {
    prop(m.properties, PROPERTY_POP_CK@) matches Some(ck) && is_client(
        e,
        None,
        "parse retry flag fail, extraInfo: "@ + ck,
    )
}

/// The failure of messages of which one has a malformed handle: that of the first one.
pub open spec fn names_bad_key(e: Error, found: Seq<MessageExt>) -> bool {
    exists|i: int|
        {
            &&& 0 <= i < found.len()
            &&& queue_key(#[trigger] found[i]) is None
            &&& is_key_failure(e, found[i])
            &&& forall|j: int| 0 <= j < i ==> queue_key(#[trigger] found[j]) is Some
        }
}

pub fn pop_queue_map_key(msg: &MessageExt) -> (r: Result<String, Error>)
    ensures
        match queue_key(*msg) {
            Some(k) => r matches Ok(s) && s@ == k,
            None => r matches Err(e) && is_key_failure(e, *msg),
        },
{
    let id = int_text(msg.queue_id as i64);
    match msg.properties.get(PROPERTY_POP_CK) {
        Some(ck) if !ck.as_str().is_empty() => match get_retry(ck.as_str()) {
            Ok(flag) => Ok(make_table_key(flag.as_str(), id.as_str())),
            Err(e) => Err(e),
        },
        _ => Ok(make_table_key(retry_of_topic(msg.topic.as_str()), id.as_str())),
    }
}

/// The numbers of a pop answer that go into every handle.
pub struct PopTimes {
    pub pop_time: i64,
    pub invisible_time: i64,
    pub revive_qid: i32,
}

/// The numbers of a pop answer, 0 for those that are missing.
pub open spec fn times_of(h: PopMessageResponseHeader) -> PopTimes {
    PopTimes {
        pop_time: h.pop_time.unwrap_or(0),
        invisible_time: h.invisible_time.unwrap_or(0),
        revive_qid: h.revive_qid.unwrap_or(0),
    }
}

fn header_times(h: &PopMessageResponseHeader) -> (r: PopTimes)
    ensures
        r == times_of(*h),
{
    PopTimes {
        pop_time: h.pop_time.unwrap_or(0),
        invisible_time: h.invisible_time.unwrap_or(0),
        revive_qid: h.revive_qid.unwrap_or(0),
    }
}

/// Topic and queue number, run together.
pub open spec fn plain_key(m: MessageExt) -> Seq<char> {
    m.topic@ + decimal(m.queue_id as int)
}

/// The first message, from `j` on, with the plain key of message `i`.
pub open spec fn first_of_key(found: Seq<MessageExt>, i: int, j: int) -> int
    decreases found.len() - j,
{
    if j < 0 || j >= found.len() || plain_key(found[j]) == plain_key(found[i]) {
        j
    } else {
        first_of_key(found, i, j + 1)
    }
}

/// The handle of message `i` where the answer lists no first offsets: the seven fields of
/// the first message of its queue, then the message's own offset.
pub open spec fn plain_handle(found: Seq<MessageExt>, i: int, broker: Seq<char>, t: PopTimes) -> Seq<char> {
    let m = found[first_of_key(found, i, 0)];
    handle(
        m.queue_offset as int,
        t.pop_time as int,
        t.invisible_time as int,
        t.revive_qid as int,
        m.topic@,
        broker,
        m.queue_id as int,
        None,
    ) + " "@ + decimal(found[i].queue_offset as int)
}

/// How many of the first `n` messages are in the queue `key` and before `offset` in it.
pub open spec fn rank(found: Seq<MessageExt>, key: Seq<char>, offset: i64, n: int) -> int
    decreases n,
{
    if n <= 0 {
        0
    } else {
        rank(found, key, offset, n - 1) + if queue_key(found[n - 1]) == Some(key) && found[n - 1].queue_offset
            < offset {
            1int
        } else {
            0int
        }
    }
}

/// The first value that a table has for `key`.
pub open spec fn first_value<T>(table: Seq<(Seq<char>, T)>, key: Seq<char>) -> Option<T>
    decreases table.len(),
{
    if table.len() == 0 {
        None
    } else if table[0].0 == key {
        Some(table[0].1)
    } else {
        first_value(table.subrange(1, table.len() as int), key)
    }
}

/// The handle of message `i` from the tables of a pop answer: the first offset of its queue,
/// and the offset that stands where the message stands among the popped messages of its
/// queue, in order of their offsets. `None` where the tables have none for it.
pub open spec fn table_handle(
    found: Seq<MessageExt>,
    i: int,
    broker: Seq<char>,
    t: PopTimes,
    starts: Seq<(Seq<char>, i64)>,
    offsets: Seq<(Seq<char>, Seq<i64>)>,
) -> Option<Seq<char>> {
    let m = found[i];
    let key = queue_key(m)->0;
    let place = rank(found, key, m.queue_offset, found.len() as int);
    match (first_value(starts, key), first_value(offsets, key)) {
        (Some(start), Some(list)) => if place < list.len() {
            Some(
                handle(
                    start as int,
                    t.pop_time as int,
                    t.invisible_time as int,
                    t.revive_qid as int,
                    m.topic@,
                    broker,
                    m.queue_id as int,
                    Some(list[place] as int),
                ),
            )
        } else {
            None
        },
        _ => None,
    }
}

/// Properties with the time of the first pop, where they had none.
pub open spec fn with_first_pop(p: Map<Seq<char>, Seq<char>>, pop_time: i64) -> Map<Seq<char>, Seq<char>> {
    if p.dom().contains(PROPERTY_FIRST_POP_TIME@) {
        p
    } else {
        p.insert(PROPERTY_FIRST_POP_TIME@, decimal(pop_time as int))
    }
}

/// The answer lists first offsets.
pub open spec fn has_starts(h: PopMessageResponseHeader) -> bool {
    h.start_offset_info matches Some(s) && s@.len() > 0
}

pub open spec fn starts_table(h: PopMessageResponseHeader) -> Option<Seq<(Seq<char>, i64)>> {
    start_entries(pieces((h.start_offset_info->0)@, ";"@))
}

/// The table of message offsets; an answer without one has an empty table.
pub open spec fn offsets_table(h: PopMessageResponseHeader) -> Option<Seq<(Seq<char>, Seq<i64>)>> {
    match h.msg_offset_info {
        Some(s) => if s@.len() == 0 {
            Some(Seq::empty())
        } else {
            msg_entries(pieces(s@, ";"@))
        },
        None => Some(Seq::empty()),
    }
}

/// Every message has a well-formed queue key.
pub open spec fn keys_ok(found: Seq<MessageExt>) -> bool {
    forall|i: int| 0 <= i < found.len() ==> queue_key(#[trigger] found[i]) is Some
}

/// The properties of message `i` after stamping.
pub open spec fn stamped(found: Seq<MessageExt>, i: int, broker: Seq<char>, h: PopMessageResponseHeader) -> Map<
    Seq<char>,
    Seq<char>,
> {
    let p = props(found[i].properties);
    let t = times_of(h);
    let with_ck = if !has_starts(h) {
        p.insert(PROPERTY_POP_CK@, plain_handle(found, i, broker, t))
    } else if p.dom().contains(PROPERTY_POP_CK@) {
        p
    } else {
        match table_handle(found, i, broker, t, starts_table(h)->0, offsets_table(h)->0) {
            Some(ck) => p.insert(PROPERTY_POP_CK@, ck),
            None => p,
        }
    };
    with_first_pop(with_ck, t.pop_time)
}

/// A message that a broker hands out with a handle keeps it, where the answer has the tables
/// that handles are made from. When a message was first popped is never written over. Every
/// other property stays.
pub proof fn law_stamps_write_over_nothing(
    found: Seq<MessageExt>,
    i: int,
    broker: Seq<char>,
    h: PopMessageResponseHeader,
    name: Seq<char>,
)
    requires
        0 <= i < found.len(),
        props(found[i].properties).dom().contains(name),
        name != PROPERTY_POP_CK@ || has_starts(h),
    ensures
        stamped(found, i, broker, h).dom().contains(name),
        stamped(found, i, broker, h)[name] == props(found[i].properties)[name],
{
}

/// Every message says afterwards when it was first popped.
pub proof fn law_every_stamp_has_a_time(found: Seq<MessageExt>, i: int, broker: Seq<char>, h: PopMessageResponseHeader)
    ensures
        stamped(found, i, broker, h).dom().contains(PROPERTY_FIRST_POP_TIME@),
{
}

/// Two lists differ in the properties of their messages only.
pub open spec fn same_but_props(a: Seq<MessageExt>, b: Seq<MessageExt>) -> bool {
    &&& a.len() == b.len()
    &&& forall|i: int|
        0 <= i < a.len() ==> #[trigger] a[i] == (MessageExt { properties: a[i].properties, ..b[i] })
}

fn plain_ck(found: &Vec<MessageExt>, i: usize, broker_name: &str, t: &PopTimes) -> (r: String)
    requires
        i < found@.len(),
    ensures
        r@ == plain_handle(found@, i as int, broker_name@, *t),
{
    let key = found[i].topic.clone().concat(int_text(found[i].queue_id as i64).as_str());
    let mut j: usize = 0;
    while j < i
        invariant_except_break
            j <= i,
            first_of_key(found@, i as int, 0) == first_of_key(found@, i as int, j as int),
        invariant
            i < found@.len(),
            key@ == plain_key(found@[i as int]),
        ensures
            j <= i,
            first_of_key(found@, i as int, 0) == j,
        decreases i - j,
    {
        let other = found[j].topic.clone().concat(int_text(found[j].queue_id as i64).as_str());
        if same(other.as_str(), key.as_str()) {
            break;
        }
        j = j + 1;
    }
    let m = &found[j];
    build_extra_info(
        m.queue_offset,
        t.pop_time,
        t.invisible_time,
        t.revive_qid,
        m.topic.as_str(),
        broker_name,
        m.queue_id,
        None,
    ).concat(" ").concat(int_text(found[i].queue_offset).as_str())
}

fn rank_of(found: &Vec<MessageExt>, keys: &Vec<String>, i: usize) -> (r: usize)
    requires
        i < found@.len(),
        keys@.len() == found@.len(),
        forall|j: int| 0 <= j < found@.len() ==> queue_key(found@[j]) == Some(#[trigger] keys@[j]@),
    ensures
        r == rank(found@, keys@[i as int]@, found@[i as int].queue_offset, found@.len() as int),
{
    let mut n: usize = 0;
    let mut j: usize = 0;
    while j < found.len()
        invariant
            i < found@.len(),
            keys@.len() == found@.len(),
            forall|j: int| 0 <= j < found@.len() ==> queue_key(found@[j]) == Some(#[trigger] keys@[j]@),
            j <= found@.len(),
            n <= j,
            n == rank(found@, keys@[i as int]@, found@[i as int].queue_offset, j as int),
        decreases found@.len() - j,
    {
        if same(keys[j].as_str(), keys[i].as_str()) && found[j].queue_offset < found[i].queue_offset {
            n = n + 1;
        }
        assert(queue_key(found@[j as int]) == Some(keys@[j as int]@));
        j = j + 1;
    }
    n
}

fn start_of(table: &Vec<(String, i64)>, key: &str) -> (r: Option<i64>)
    ensures
        r == first_value(starts_of(table@), key@),
{
    let mut i: usize = 0;
    let ghost all = starts_of(table@);
    assert(all.subrange(0, all.len() as int) =~= all);
    while i < table.len()
        invariant
            i <= table@.len(),
            all == starts_of(table@),
            first_value(all, key@) == first_value(all.subrange(i as int, all.len() as int), key@),
        decreases table@.len() - i,
    {
        let ghost rest = all.subrange(i as int, all.len() as int);
        assert(rest[0] == (table@[i as int].0@, table@[i as int].1));
        if same(table[i].0.as_str(), key) {
            return Some(table[i].1);
        }
        assert(rest.subrange(1, rest.len() as int) =~= all.subrange(i + 1, all.len() as int));
        i = i + 1;
    }
    None
}

fn offset_at(table: &Vec<(String, Vec<i64>)>, key: &str, place: usize) -> (r: Option<i64>)
    ensures
        r == match first_value(offsets_of(table@), key@) {
            Some(list) => if place < list.len() {
                Some(list[place as int])
            } else {
                None
            },
            None => None,
        },
{
    let mut i: usize = 0;
    let ghost all = offsets_of(table@);
    assert(all.subrange(0, all.len() as int) =~= all);
    while i < table.len()
        invariant
            i <= table@.len(),
            all == offsets_of(table@),
            first_value(all, key@) == first_value(all.subrange(i as int, all.len() as int), key@),
        decreases table@.len() - i,
    {
        let ghost rest = all.subrange(i as int, all.len() as int);
        assert(rest[0] == (table@[i as int].0@, table@[i as int].1@));
        if same(table[i].0.as_str(), key) {
            return if place < table[i].1.len() {
                Some(table[i].1[place])
            } else {
                None
            };
        }
        assert(rest.subrange(1, rest.len() as int) =~= all.subrange(i + 1, all.len() as int));
        i = i + 1;
    }
    None
}

/// The handles that the messages of a pop answer get; `None` for those that keep theirs.
fn handles(found: &Vec<MessageExt>, broker_name: &str, header: &PopMessageResponseHeader) -> (r: Result<
    Vec<Option<String>>,
    Error,
>)
    requires
        has_starts(*header),
    ensures
        r is Ok <==> starts_table(*header) is Some && offsets_table(*header) is Some && keys_ok(found@),
        match r {
            Ok(v) => {
                &&& v@.len() == found@.len()
                &&& forall|i: int|
                    0 <= i < found@.len() ==> crate::message::opt(#[trigger] v@[i]) == if prop(
                        found@[i].properties,
                        PROPERTY_POP_CK@,
                    ) is Some {
                        None
                    } else {
                        table_handle(
                            found@,
                            i,
                            broker_name@,
                            times_of(*header),
                            starts_table(*header)->0,
                            offsets_table(*header)->0,
                        )
                    }
            },
            Err(e) => if starts_table(*header) is None {
                is_client(e, None, "parse startOffsetInfo error, "@ + (header.start_offset_info->0)@)
            } else if offsets_table(*header) is None {
                is_client(e, None, "parse msgOffsetInfo error, "@ + (header.msg_offset_info->0)@)
            } else {
                names_bad_key(e, found@)
            },
        },
{
    let t = header_times(header);
    let info = or_empty(&header.start_offset_info);
    let starts = match parse_start_offset_info(info.as_str()) {
        Ok(v) => v,
        Err(e) => {
            return Err(e);
        },
    };
    let offsets: Vec<(String, Vec<i64>)> = match &header.msg_offset_info {
        Some(s) if !s.as_str().is_empty() => match parse_msg_offset_info(s.as_str()) {
            Ok(v) => v,
            Err(e) => {
                return Err(e);
            },
        },
        _ => {
            let none: Vec<(String, Vec<i64>)> = Vec::new();
            assert(offsets_of(none@) =~= Seq::<(Seq<char>, Seq<i64>)>::empty());
            none
        },
    };
    let mut keys: Vec<String> = Vec::new();
    let mut i: usize = 0;
    while i < found.len()
        invariant
            i <= found@.len(),
            keys@.len() == i,
            starts_table(*header) is Some,
            offsets_table(*header) is Some,
            forall|j: int| 0 <= j < i ==> queue_key(found@[j]) == Some(#[trigger] keys@[j]@),
        decreases found@.len() - i,
    {
        match pop_queue_map_key(&found[i]) {
            Ok(k) => {
                keys.push(k);
            },
            Err(e) => {
                proof {
                    assert(queue_key(found@[i as int]) is None);
                    assert forall|j: int| 0 <= j < i implies queue_key(#[trigger] found@[j]) is Some by {
                        assert(queue_key(found@[j]) == Some(keys@[j]@));
                    }
                }
                return Err(e);
            },
        }
        i = i + 1;
    }
    assert forall|j: int| 0 <= j < found@.len() implies queue_key(#[trigger] found@[j]) is Some by {
        assert(queue_key(found@[j]) == Some(keys@[j]@));
    }
    let mut out: Vec<Option<String>> = Vec::new();
    let mut i: usize = 0;
    while i < found.len()
        invariant
            i <= found@.len(),
            out@.len() == i,
            keys@.len() == found@.len(),
            t == times_of(*header),
            starts_table(*header) == Some(starts_of(starts@)),
            offsets_table(*header) == Some(offsets_of(offsets@)),
            forall|j: int| 0 <= j < found@.len() ==> queue_key(found@[j]) == Some(#[trigger] keys@[j]@),
            forall|j: int|
                0 <= j < i ==> crate::message::opt(#[trigger] out@[j]) == if prop(
                    found@[j].properties,
                    PROPERTY_POP_CK@,
                ) is Some {
                    None
                } else {
                    table_handle(
                        found@,
                        j,
                        broker_name@,
                        times_of(*header),
                        starts_table(*header)->0,
                        offsets_table(*header)->0,
                    )
                },
        decreases found@.len() - i,
    {
        let m = &found[i];
        let ck: Option<String> = if m.properties.contains(PROPERTY_POP_CK) {
            None
        } else {
            let key = keys[i].as_str();
            let place = rank_of(found, &keys, i);
            match (start_of(&starts, key), offset_at(&offsets, key, place)) {
                (Some(start), Some(offset)) => Some(
                    build_extra_info(
                        start,
                        t.pop_time,
                        t.invisible_time,
                        t.revive_qid,
                        m.topic.as_str(),
                        broker_name,
                        m.queue_id,
                        Some(offset),
                    ),
                ),
                _ => None,
            }
        };
        out.push(ck);
        i = i + 1;
    }
    Ok(out)
}

/// Gives popped messages their handles and the time of their first pop.
///
/// A message that a broker writes itself brings its handle along. For the others it is made
/// from the tables of the answer, or, where the answer has none, from the messages alone.
/// Where a table or a handle is malformed, nothing is changed.
pub fn stamp_pop_ck(
    found: &mut Vec<MessageExt>,
    broker_name: &str,
    resp_header: &PopMessageResponseHeader,
) -> (r: Result<(), Error>)
    ensures
        r is Ok <==> (has_starts(*resp_header) ==> starts_table(*resp_header) is Some && offsets_table(
            *resp_header,
        ) is Some && keys_ok(old(found)@)),
        match r {
            Ok(_) => {
                &&& same_but_props(final(found)@, old(found)@)
                &&& forall|i: int|
                    0 <= i < old(found)@.len() ==> props(#[trigger] final(found)@[i].properties) == stamped(
                        old(found)@,
                        i,
                        broker_name@,
                        *resp_header,
                    )
            },
            Err(e) => {
                &&& final(found)@ == old(found)@
                &&& if starts_table(*resp_header) is None {
                    is_client(e, None, "parse startOffsetInfo error, "@ + (resp_header.start_offset_info->0)@)
                } else if offsets_table(*resp_header) is None {
                    is_client(e, None, "parse msgOffsetInfo error, "@ + (resp_header.msg_offset_info->0)@)
                } else {
                    names_bad_key(e, old(found)@)
                }
            },
        },
{
    let t = header_times(resp_header);
    let listed = match &resp_header.start_offset_info {
        Some(s) => !s.as_str().is_empty(),
        None => false,
    };
    let mut marks: Vec<Option<String>> = Vec::new();
    if listed {
        match handles(found, broker_name, resp_header) {
            Ok(v) => {
                marks = v;
            },
            Err(e) => {
                return Err(e);
            },
        }
    } else {
        let mut i: usize = 0;
        while i < found.len()
            invariant
                i <= found@.len(),
                found@ == old(found)@,
                marks@.len() == i,
                t == times_of(*resp_header),
                forall|j: int|
                    0 <= j < i ==> crate::message::opt(#[trigger] marks@[j]) == Some(
                        plain_handle(old(found)@, j, broker_name@, t),
                    ),
            decreases found@.len() - i,
        {
            marks.push(Some(plain_ck(found, i, broker_name, &t)));
            i = i + 1;
        }
    }
    let ghost start = found@;
    let mut i: usize = 0;
    while i < found.len()
        invariant
            i <= found@.len(),
            start == old(found)@,
            t == times_of(*resp_header),
            listed == has_starts(*resp_header),
            marks@.len() == start.len(),
            !listed ==> forall|j: int|
                0 <= j < start.len() ==> crate::message::opt(#[trigger] marks@[j]) == Some(
                    plain_handle(start, j, broker_name@, t),
                ),
            listed ==> forall|j: int|
                0 <= j < start.len() ==> crate::message::opt(#[trigger] marks@[j]) == if prop(
                    start[j].properties,
                    PROPERTY_POP_CK@,
                ) is Some {
                    None
                } else {
                    table_handle(
                        start,
                        j,
                        broker_name@,
                        t,
                        starts_table(*resp_header)->0,
                        offsets_table(*resp_header)->0,
                    )
                },
            same_but_props(found@, start),
            forall|j: int|
                0 <= j < i ==> props(#[trigger] found@[j].properties) == stamped(
                    start,
                    j,
                    broker_name@,
                    *resp_header,
                ),
            forall|j: int| i <= j < start.len() ==> #[trigger] found@[j] == start[j],
        decreases found@.len() - i,
    {
        assert(crate::message::opt(marks@[i as int]) == crate::message::opt(marks@[i as int]));
        let ghost before = found@;
        let ghost p0 = props(found@[i as int].properties);
        let m = &mut found[i];
        if let Some(ck) = &marks[i] {
            put(&mut m.properties, PROPERTY_POP_CK, ck.clone());
        }
        let ghost p1 = props(m.properties);
        if !m.properties.contains(PROPERTY_FIRST_POP_TIME) {
            put(&mut m.properties, PROPERTY_FIRST_POP_TIME, int_text(t.pop_time));
        }
        proof {
            assert(p0.dom().contains(PROPERTY_POP_CK@) == (prop(start[i as int].properties, PROPERTY_POP_CK@) is Some));
            assert(props(m.properties) == with_first_pop(p1, t.pop_time));
        }
        i = i + 1;
    }
    Ok(())
}

/// How a pop ended, by the code of its answer; `None` for a failure.
pub open spec fn pop_status_of(code: i32) -> Option<PopStatus> {
    if code == response_code::SUCCESS {
        Some(PopStatus::Found)
    } else if code == response_code::POLLING_FULL {
        Some(PopStatus::PollingFull)
    } else if code == response_code::POLLING_TIMEOUT || code == response_code::PULL_NOT_FOUND {
        Some(PopStatus::PollingNotFound)
    } else {
        None
    }
}

/// What a change of a message's invisible time gives: a handle with the new times where the
/// broker agreed.
pub fn invisible_time_result(
    code: i32,
    header: &ChangeInvisibleTimeResponseHeader,
    topic: &str,
    broker_name: &str,
    queue_id: i32,
    offset: i64,
) -> (r: ChangeInvisibleTimeResult)
    ensures
        r.response_code == code,
        r.pop_time == header.pop_time.unwrap_or(0),
        r.invisible_time == header.invisible_time.unwrap_or(0),
        r.revive_qid == header.revive_qid.unwrap_or(0),
        r.success == (code == response_code::SUCCESS),
        crate::message::opt(r.extra_info) == if code == response_code::SUCCESS {
            Some(
                handle(
                    offset as int,
                    header.pop_time.unwrap_or(0) as int,
                    header.invisible_time.unwrap_or(0) as int,
                    header.revive_qid.unwrap_or(0) as int,
                    topic@,
                    broker_name@,
                    queue_id as int,
                    Some(offset as int),
                ),
            )
        } else {
            None
        },
{
    let pop_time: i64 = header.pop_time.unwrap_or(0);
    let invisible_time: i64 = header.invisible_time.unwrap_or(0);
    let revive_qid: i32 = header.revive_qid.unwrap_or(0);
    let success = code == response_code::SUCCESS;
    let extra_info = if success {
        Some(
            build_extra_info(
                offset,
                pop_time,
                invisible_time,
                revive_qid,
                topic,
                broker_name,
                queue_id,
                Some(offset),
            ),
        )
    } else {
        None
    };
    ChangeInvisibleTimeResult { response_code: code, pop_time, invisible_time, revive_qid, extra_info, success }
}

/// Messages of `found` before `offset` in the queue that goes by `key`.
pub open spec fn earlier(found: Seq<MessageExt>, key: Seq<char>, offset: i64) -> Seq<MessageExt> {
    found.filter(|m: MessageExt| queue_key(m) == Some(key) && m.queue_offset < offset)
}

proof fn lemma_rank(
    found: Seq<MessageExt>,
    key: Seq<char>,
    offset: i64,
    n: int,
    before: spec_fn(MessageExt) -> bool,
)
    requires
        0 <= n <= found.len(),
        forall|m: MessageExt| #[trigger] before(m) <==> queue_key(m) == Some(key) && m.queue_offset < offset,
    ensures
        rank(found, key, offset, n) == found.subrange(0, n).filter(before).len(),
    decreases n,
{
    reveal(Seq::filter);
    let part = found.subrange(0, n);
    if n > 0 {
        lemma_rank(found, key, offset, n - 1, before);
        assert(part.drop_last() =~= found.subrange(0, n - 1));
        assert(part.last() == found[n - 1]);
        assert(before(found[n - 1]) <==> queue_key(found[n - 1]) == Some(key) && found[n - 1].queue_offset < offset);
    }
}

/// A queue goes by the form of its topic and its number in the tables of an answer: by the handle
/// that a message brought along, or else by its topic.
pub proof fn law_queue_goes_by_form_and_number(
    m: &MessageExt,
    r: Result<String, Error>,
    topic: &str,
    form: &'static str,
    ck: &str,
    said: Result<String, Error>,
)
    requires
        call_ensures(pop_queue_map_key, (m,), r),
        topic@ == m.topic@,
        call_ensures(retry_of_topic, (topic,), form),
        prop(m.properties, "POP_CK"@) is Some ==> ck@ == prop(m.properties, "POP_CK"@)->0,
        call_ensures(get_retry, (ck,), said),
    ensures
        prop(m.properties, "POP_CK"@) is None || prop(m.properties, "POP_CK"@)->0.len() == 0 ==> (r matches Ok(k) && k@
            == form@ + "@"@ + decimal(m.queue_id as int)),
        prop(m.properties, "POP_CK"@) is Some && prop(m.properties, "POP_CK"@)->0.len() > 0 ==> match said {
            Ok(f) => r matches Ok(k) && k@ == f@ + "@"@ + decimal(m.queue_id as int),
            Err(e) => r matches Err(x) && x is Client,
        },
{
}

/// What the eight fields of a handle say.
pub open spec fn says(
    ck: Seq<char>,
    start: int,
    pop_time: int,
    invisible_time: int,
    revive_qid: int,
    broker: Seq<char>,
    queue_id: int,
    offset: int,
) -> bool {
    let f = pieces(ck, " "@);
    &&& f.len() == 8
    &&& parsed_int(f[0]) == Some(start)
    &&& parsed_int(f[1]) == Some(pop_time)
    &&& parsed_int(f[2]) == Some(invisible_time)
    &&& parsed_int(f[3]) == Some(revive_qid)
    &&& f[5] == broker
    &&& parsed_int(f[6]) == Some(queue_id)
    &&& parsed_int(f[7]) == Some(offset)
}

proof fn lemma_says(
    start: int,
    pop_time: int,
    invisible_time: int,
    revive_qid: int,
    topic: Seq<char>,
    broker: Seq<char>,
    queue_id: int,
    offset: int,
)
    requires
        free_of(broker, ' '),
    ensures
        says(
            handle(start, pop_time, invisible_time, revive_qid, topic, broker, queue_id, Some(offset)),
            start,
            pop_time,
            invisible_time,
            revive_qid,
            broker,
            queue_id,
            offset,
        ),
{
    lemma_handle_fields(start, pop_time, invisible_time, revive_qid, topic, broker, queue_id, Some(offset));
    lemma_decimal_reads_back(start);
    lemma_decimal_reads_back(pop_time);
    lemma_decimal_reads_back(invisible_time);
    lemma_decimal_reads_back(revive_qid);
    lemma_decimal_reads_back(queue_id);
    lemma_decimal_reads_back(offset);
}

proof fn lemma_plain_stamp(
    found: Seq<MessageExt>,
    after: MessageExt,
    i: int,
    j: int,
    broker: Seq<char>,
    header: PopMessageResponseHeader,
)
    requires
        !has_starts(header),
        0 <= j <= i < found.len(),
        first_of_key(found, i, 0) == j,
        props(after.properties) == stamped(found, i, broker, header),
    ensures
        prop(after.properties, "POP_CK"@) == Some(
            handle(
                found[j].queue_offset as int,
                header.pop_time.unwrap_or(0) as int,
                header.invisible_time.unwrap_or(0) as int,
                header.revive_qid.unwrap_or(0) as int,
                found[j].topic@,
                broker,
                found[j].queue_id as int,
                Some(found[i].queue_offset as int),
            ),
        ),
{
    reveal_strlit("POP_CK");
    reveal_strlit("1ST_POP_TIME");
    assert("POP_CK"@.len() != "1ST_POP_TIME"@.len());
    assert(props(after.properties).dom().contains("POP_CK"@));
    assert(props(after.properties)["POP_CK"@] == plain_handle(found, i, broker, times_of(header)));
}

proof fn lemma_table_stamp(
    found: Seq<MessageExt>,
    after: MessageExt,
    i: int,
    broker: Seq<char>,
    header: PopMessageResponseHeader,
)
    requires
        has_starts(header),
        0 <= i < found.len(),
        prop(found[i].properties, "POP_CK"@) is None,
        props(after.properties) == stamped(found, i, broker, header),
    ensures
        prop(after.properties, "POP_CK"@) == table_handle(
            found,
            i,
            broker,
            times_of(header),
            starts_table(header)->0,
            offsets_table(header)->0,
        ),
{
    reveal_strlit("POP_CK");
    reveal_strlit("1ST_POP_TIME");
    assert("POP_CK"@.len() != "1ST_POP_TIME"@.len());
    let p = props(found[i].properties);
    assert(!p.dom().contains("POP_CK"@));
    let h = table_handle(found, i, broker, times_of(header), starts_table(header)->0, offsets_table(header)->0);
    let q = props(after.properties);
    match h {
        Some(ck) => {
            assert(q.dom().contains("POP_CK"@));
            assert(q["POP_CK"@] == ck);
        },
        None => {
            assert(!q.dom().contains("POP_CK"@));
        },
    }
}

/// Where an answer lists no first offsets, every message gets a handle: it begins where the first
/// message of its topic and queue stands, holds the numbers of the answer, names the broker and
/// the queue, and ends with the offset of the message itself.
pub proof fn law_plain_handle_names_the_message(
    found: &mut Vec<MessageExt>,
    broker: &str,
    header: &PopMessageResponseHeader,
    r: Result<(), Error>,
    i: int,
    j: int,
)
    requires
        call_ensures(stamp_pop_ck, (found, broker, header), r),
        header.start_offset_info is None || header.start_offset_info->0@.len() == 0,
        0 <= j <= i < old(found)@.len(),
        old(found)@[j].topic@ + decimal(old(found)@[j].queue_id as int) == old(found)@[i].topic@ + decimal(
            old(found)@[i].queue_id as int,
        ),
        forall|k: int|
            0 <= k < j ==> (#[trigger] old(found)@[k]).topic@ + decimal(old(found)@[k].queue_id as int)
                != old(found)@[i].topic@ + decimal(old(found)@[i].queue_id as int),
        free_of(broker@, ' '),
    ensures
        r is Ok,
        final(found)@.len() == old(found)@.len(),
        prop(final(found)@[i].properties, "POP_CK"@) is Some,
        says(
            prop(final(found)@[i].properties, "POP_CK"@)->0,
            old(found)@[j].queue_offset as int,
            header.pop_time.unwrap_or(0) as int,
            header.invisible_time.unwrap_or(0) as int,
            header.revive_qid.unwrap_or(0) as int,
            broker@,
            old(found)@[j].queue_id as int,
            old(found)@[i].queue_offset as int,
        ),
        final(found)@[i].body == old(found)@[i].body && final(found)@[i].queue_offset == old(found)@[i].queue_offset
            && final(found)@[i].topic == old(found)@[i].topic,
{
    let start = old(found)@;
    assert forall|k: int| 0 <= k < j implies plain_key(#[trigger] start[k]) != plain_key(start[i]) by {
        assert(start[k].topic@ + decimal(start[k].queue_id as int) != start[i].topic@ + decimal(start[i].queue_id as int));
    }
    lemma_first_of_key(start, i, j, 0);
    assert(props(final(found)@[i].properties) == stamped(start, i, broker@, *header));
    lemma_plain_stamp(start, final(found)@[i], i, j, broker@, *header);
    lemma_says(
        start[j].queue_offset as int,
        header.pop_time.unwrap_or(0) as int,
        header.invisible_time.unwrap_or(0) as int,
        header.revive_qid.unwrap_or(0) as int,
        start[j].topic@,
        broker@,
        start[j].queue_id as int,
        start[i].queue_offset as int,
    );
    assert(final(found)@[i] == (MessageExt { properties: final(found)@[i].properties, ..start[i] }));
}

proof fn lemma_first_of_key(found: Seq<MessageExt>, i: int, j: int, from: int)
    requires
        0 <= from <= j <= i < found.len(),
        plain_key(found[j]) == plain_key(found[i]),
        forall|k: int| from <= k < j ==> plain_key(#[trigger] found[k]) != plain_key(found[i]),
    ensures
        first_of_key(found, i, from) == j,
    decreases j - from,
{
    if from < j {
        assert(plain_key(found[from]) != plain_key(found[i]));
        lemma_first_of_key(found, i, j, from + 1);
    }
}

/// Where an answer has tables, a message without a handle gets one from them: its queue's first
/// offset, and the offset that stands as far down its queue's list as there are messages of the
/// queue before it. A message whose queue the tables do not hold gets none.
pub proof fn law_table_handle_names_the_message(
    found: &mut Vec<MessageExt>,
    broker: &str,
    header: &PopMessageResponseHeader,
    r: Result<(), Error>,
    i: int,
    key: Seq<char>,
    start: i64,
    list: Seq<i64>,
)
    requires
        call_ensures(stamp_pop_ck, (found, broker, header), r),
        r is Ok,
        header.start_offset_info is Some && header.start_offset_info->0@.len() > 0,
        0 <= i < old(found)@.len(),
        prop(old(found)@[i].properties, "POP_CK"@) is None,
        queue_key(old(found)@[i]) == Some(key),
        first_value(starts_table(*header)->0, key) == Some(start),
        first_value(offsets_table(*header)->0, key) == Some(list),
        free_of(broker@, ' '),
    ensures
        ({
            let place = earlier(old(found)@, key, old(found)@[i].queue_offset).len();
            let ck = prop(final(found)@[i].properties, "POP_CK"@);
            &&& ck is Some <==> place < list.len()
            &&& ck is Some ==> says(
                ck->0,
                start as int,
                header.pop_time.unwrap_or(0) as int,
                header.invisible_time.unwrap_or(0) as int,
                header.revive_qid.unwrap_or(0) as int,
                broker@,
                old(found)@[i].queue_id as int,
                list[place as int] as int,
            )
        }),
{
    let all = old(found)@;
    let m = all[i];
    let t = times_of(*header);
    let before = |x: MessageExt| queue_key(x) == Some(key) && x.queue_offset < m.queue_offset;
    lemma_rank(all, key, m.queue_offset, all.len() as int, before);
    assert(all.subrange(0, all.len() as int) =~= all);
    let place = rank(all, key, m.queue_offset, all.len() as int);
    assert(place == earlier(all, key, m.queue_offset).len()) by {
        assert(earlier(all, key, m.queue_offset) == all.filter(before)) by {
            lemma_same_filter(
                all,
                before,
                |x: MessageExt| queue_key(x) == Some(key) && x.queue_offset < m.queue_offset,
            );
        }
    }
    assert(props(final(found)@[i].properties) == stamped(all, i, broker@, *header));
    lemma_table_stamp(all, final(found)@[i], i, broker@, *header);
    if place < list.len() {
        lemma_says(
            start as int,
            t.pop_time as int,
            t.invisible_time as int,
            t.revive_qid as int,
            m.topic@,
            broker@,
            m.queue_id as int,
            list[place] as int,
        );
    }
}

proof fn lemma_same_filter(s: Seq<MessageExt>, a: spec_fn(MessageExt) -> bool, b: spec_fn(MessageExt) -> bool)
    requires
        forall|m: MessageExt| #[trigger] a(m) == b(m),
    ensures
        s.filter(a) == s.filter(b),
    decreases s.len(),
{
    reveal(Seq::filter);
    if s.len() > 0 {
        lemma_same_filter(s.drop_last(), a, b);
        assert(a(s.last()) == b(s.last()));
    }
}

/// Stamping leaves every message in its place, with everything but its handle and the time of its
/// first pop; a handle that a message brought along stays where the answer has tables, and a time
/// of its first pop stays always. Every message says afterwards when it was first popped.
pub proof fn law_stamping_keeps_the_messages(
    found: &mut Vec<MessageExt>,
    broker: &str,
    header: &PopMessageResponseHeader,
    r: Result<(), Error>,
    i: int,
    name: Seq<char>,
)
    requires
        call_ensures(stamp_pop_ck, (found, broker, header), r),
        0 <= i < old(found)@.len(),
    ensures
        r is Err ==> final(found)@ == old(found)@,
        final(found)@.len() == old(found)@.len(),
        final(found)@[i].body == old(found)@[i].body,
        final(found)@[i].topic == old(found)@[i].topic,
        final(found)@[i].queue_id == old(found)@[i].queue_id,
        final(found)@[i].queue_offset == old(found)@[i].queue_offset,
        final(found)@[i].msg_id == old(found)@[i].msg_id,
        r is Ok && name != "POP_CK"@ && name != "1ST_POP_TIME"@ ==> prop(final(found)@[i].properties, name) == prop(
            old(found)@[i].properties,
            name,
        ),
        r is Ok && header.start_offset_info is Some && header.start_offset_info->0@.len() > 0 && prop(
            old(found)@[i].properties,
            "POP_CK"@,
        ) is Some ==> prop(final(found)@[i].properties, "POP_CK"@) == prop(old(found)@[i].properties, "POP_CK"@),
        r is Ok && prop(old(found)@[i].properties, "1ST_POP_TIME"@) is Some ==> prop(
            final(found)@[i].properties,
            "1ST_POP_TIME"@,
        ) == prop(old(found)@[i].properties, "1ST_POP_TIME"@),
        r is Ok && prop(old(found)@[i].properties, "1ST_POP_TIME"@) is None ==> prop(
            final(found)@[i].properties,
            "1ST_POP_TIME"@,
        ) == Some(decimal(header.pop_time.unwrap_or(0) as int)),
{
    reveal_strlit("POP_CK");
    reveal_strlit("1ST_POP_TIME");
    assert("POP_CK"@.len() != "1ST_POP_TIME"@.len());
    if r is Ok {
        let before = old(found)@[i];
        let after = final(found)@[i];
        assert(props(after.properties) == stamped(old(found)@, i, broker@, *header));
        assert(final(found)@[i] == (MessageExt { properties: final(found)@[i].properties, ..old(found)@[i] }));
        let a = props(before.properties);
        let b = props(after.properties);
        assert(b.dom().contains("1ST_POP_TIME"@));
        assert(a.dom().contains("1ST_POP_TIME"@) == (prop(before.properties, "1ST_POP_TIME"@) is Some));
        if a.dom().contains("1ST_POP_TIME"@) {
            assert(b["1ST_POP_TIME"@] == a["1ST_POP_TIME"@]);
        } else {
            assert(b["1ST_POP_TIME"@] == decimal(times_of(*header).pop_time as int));
        }
        assert(a.dom().contains("POP_CK"@) == (prop(before.properties, "POP_CK"@) is Some));
        if has_starts(*header) && a.dom().contains("POP_CK"@) {
            assert(b.dom().contains("POP_CK"@) && b["POP_CK"@] == a["POP_CK"@]);
        }
        if name != "POP_CK"@ && name != "1ST_POP_TIME"@ {
            assert(b.dom().contains(name) == a.dom().contains(name));
            if a.dom().contains(name) {
                assert(b[name] == a[name]);
            }
        }
    }
}

/// A change of a message's invisible time succeeds exactly where the broker agreed, and gives a
/// new handle then, with the new times, the broker, and the offset; else it gives none. The
/// numbers of the answer are handed on either way.
pub proof fn law_new_invisible_time_gives_a_new_handle(
    code: i32,
    header: &ChangeInvisibleTimeResponseHeader,
    topic: &str,
    broker: &str,
    queue_id: i32,
    offset: i64,
    r: ChangeInvisibleTimeResult,
)
    requires
        call_ensures(invisible_time_result, (code, header, topic, broker, queue_id, offset), r),
        free_of(broker@, ' '),
    ensures
        r.success <==> code == 0,
        r.response_code == code,
        r.extra_info is Some <==> code == 0,
        r.pop_time == header.pop_time.unwrap_or(0) && r.invisible_time == header.invisible_time.unwrap_or(0)
            && r.revive_qid == header.revive_qid.unwrap_or(0),
        r.extra_info matches Some(ck) ==> says(
            ck@,
            offset as int,
            r.pop_time as int,
            r.invisible_time as int,
            r.revive_qid as int,
            broker@,
            queue_id as int,
            offset as int,
        ),
{
    if code == 0 {
        lemma_says(
            offset as int,
            r.pop_time as int,
            r.invisible_time as int,
            r.revive_qid as int,
            topic@,
            broker@,
            queue_id as int,
            offset as int,
        );
    }
}

} // verus!

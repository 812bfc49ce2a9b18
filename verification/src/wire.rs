//! Requests to brokers and what their answers mean.
use vstd::prelude::*;

use crate::error::{is_client, Error};
use crate::extra_info::{get_broker_name, handle_broker};
use crate::message::{
    body_bytes, copy_bytes, copy_opt, opt, opt_ref, or_empty, prop, props, put, Message, MessageExt, MessageQueue,
    QueueView, PROPERTY_MAX_RECONSUME_TIMES, PROPERTY_MESSAGE_TYPE, PROPERTY_RECONSUME_TIME,
    PROPERTY_REPLY_MESSAGE_ARRIVE_TIME, PROPERTY_UNIQ_KEY, REPLY_MESSAGE_FLAG,
};
use crate::names::{is_retry_topic, DEFAULT_TOPIC, DEFAULT_TRACE_REGION_ID, RETRY_PREFIX};
use crate::pop::{
    has_starts, keys_ok, names_bad_key, offsets_table, pop_status_of, stamp_pop_ck, stamped, starts_table,
};
use crate::properties::{
    message_properties_2_string, string_2_message_properties, text_props, wire_text,
};
use crate::protocol::{
    AckMessageRequestHeader, ChangeInvisibleTimeRequestHeader, ConsumerSendMsgBackRequestHeader,
    PopMessageRequestHeader, PopMessageResponseHeader, PullMessageRequestHeader, PullMessageResponseHeader,
    ReplyMessageRequestHeader, ResponseHead, SendMessageRequestHeaderV2, SendMessageResponseHeader,
};
use crate::publish::{outer, parts, PublishMessage};
use crate::request_code;
use crate::response_code;
use crate::result::{PopResult, PopStatus, PullResult, PullStatus, SendResult, SendStatus};
use crate::sysflag::{compression_bits, get_compression_type, is_compressed, ZLIB_TYPE};
use crate::text::{begins_with, decimal, int_text, lemma_decimal_reads_back, parse_i32, parsed_int, same};

verus! {

/// `e` is a broker's failure with the answer's code and remark.
pub open spec fn is_broker(e: Error, head: ResponseHead) -> bool {
    e matches Error::Broker { response_code, message } && response_code == head.code && message@
        == match head.remark {
        Some(r) => r@,
        None => Seq::empty(),
    }
}

/// The failure that an answer stands for.
pub fn broker_failure(head: &ResponseHead) -> (r: Error)
    ensures
        is_broker(r, *head),
{
    Error::Broker { response_code: head.code, message: or_empty(&head.remark) }
}

/// An answer that is no success is a failure.
pub fn check_response(head: &ResponseHead) -> (r: Result<(), Error>)
    ensures
        match r {
            Ok(_) => head.code == response_code::SUCCESS,
            Err(e) => head.code != response_code::SUCCESS && is_broker(e, *head),
        },
{
    if head.code == response_code::SUCCESS {
        Ok(())
    } else {
        Err(broker_failure(head))
    }
}

/// A request with its code, header and body.
#[derive(Debug)]
pub struct SendRequest {
    pub code: i32,
    pub header: SendMessageRequestHeaderV2,
    pub body: Vec<u8>,
}

/// A message that answers a request message.
pub open spec fn reply(m: Message) -> bool {
    prop(m.properties, PROPERTY_MESSAGE_TYPE@) == Some(REPLY_MESSAGE_FLAG@)
}

pub fn is_reply_message(m: &Message) -> (r: bool)
    ensures
        r == reply(*m),
{
    match m.get_property(PROPERTY_MESSAGE_TYPE) {
        Some(v) => same(v, REPLY_MESSAGE_FLAG),
        None => false,
    }
}

/// An `i32` that a property writes.
pub open spec fn int_prop(m: Message, name: Seq<char>) -> Option<i32> {
    match prop(m.properties, name) {
        Some(s) => match parsed_int(s) {
            Some(v) => if i32::MIN <= v <= i32::MAX {
                Some(v as i32)
            } else {
                None
            },
            None => None,
        },
        None => None,
    }
}

fn read_int_prop(m: &Message, name: &str) -> (r: Option<i32>)
    ensures
        r == int_prop(*m, name@),
{
    match m.get_property(name) {
        Some(s) => parse_i32(s),
        None => None,
    }
}

/// The message as it is sent: a single message without an id has the fresh one.
pub open spec fn with_id(m: Message, batch: bool, fresh_id: Seq<char>) -> Map<Seq<char>, Seq<char>> {
    let p = props(m.properties);
    if batch || p.dom().contains(PROPERTY_UNIQ_KEY@) {
        p
    } else {
        p.insert(PROPERTY_UNIQ_KEY@, fresh_id)
    }
}

/// The request that sends a message. A single message gets `fresh_id` as its id where it has
/// none. The two counters of a retry topic's message travel in the header too.
pub fn build_send_request(
    producer_group: &str,
    msg: &mut PublishMessage<'_>,
    mq: &MessageQueue,
    sys_flag: i32,
    unit_mode: bool,
    create_topic_key: &str,
    default_topic_queue_nums: i32,
    fresh_id: &str,
    now: i64,
) -> (r: SendRequest)
    ensures
        (*final(msg) is Batch) == (*old(msg) is Batch),
        parts(*final(msg)) == parts(*old(msg)),
        match (*old(msg), *final(msg)) {
            (PublishMessage::Single(a), PublishMessage::Single(b)) => *final(a) == *final(b),
            (PublishMessage::Batch(a), PublishMessage::Batch(b)) => *final(a) == *final(b),
            _ => false,
        },
        props(outer(*final(msg)).properties) == with_id(outer(*old(msg)), *old(msg) is Batch, fresh_id@),
        outer(*final(msg)) == (Message {
            properties: outer(*final(msg)).properties,
            ..outer(*old(msg))
        }),
        ({
            let m = outer(*final(msg));
            let batch = *old(msg) is Batch;
            let retry = begins_with(m.topic@, RETRY_PREFIX@);
            &&& opt(r.header.producer_group) == Some(producer_group@)
            &&& opt(r.header.topic) == Some(m.topic@)
            &&& opt(r.header.default_topic) == Some(
                if create_topic_key@.len() == 0 {
                    DEFAULT_TOPIC@
                } else {
                    create_topic_key@
                },
            )
            &&& r.header.default_topic_queue_nums == Some(default_topic_queue_nums)
            &&& r.header.queue_id == Some(mq.queue_id)
            &&& r.header.sys_flag == Some(sys_flag)
            &&& r.header.born_timestamp == Some(now)
            &&& r.header.flag == Some(m.flag)
            &&& opt(r.header.properties) == Some(wire_text(m.properties.order(), props(m.properties)))
            &&& r.header.reconsume_times == Some(
                if retry {
                    int_prop(m, PROPERTY_RECONSUME_TIME@).unwrap_or(0)
                } else {
                    0
                },
            )
            &&& r.header.unit_mode == Some(unit_mode)
            &&& r.header.max_reconsume_times == if retry {
                int_prop(m, PROPERTY_MAX_RECONSUME_TIMES@)
            } else {
                None
            }
            &&& r.header.batch == Some(batch)
            &&& opt(r.header.broker_name) == if mq.broker_name@.len() == 0 {
                None
            } else {
                Some(mq.broker_name@)
            }
            &&& r.code == if reply(m) {
                request_code::SEND_REPLY_MESSAGE_V2
            } else if batch {
                request_code::SEND_BATCH_MESSAGE
            } else {
                request_code::SEND_MESSAGE_V2
            }
            &&& r.body@ == body_bytes(m.body)
        }),
{
    let batch = msg.is_batch();
    if !batch {
        let m = msg.as_message_mut();
        if !m.has_property(PROPERTY_UNIQ_KEY) {
            m.put_property(PROPERTY_UNIQ_KEY, fresh_id);
        }
    }
    let m = msg.as_message();
    let retry = is_retry_topic(m.topic.as_str());
    let reconsume_times: i32 = if retry {
        read_int_prop(m, PROPERTY_RECONSUME_TIME).unwrap_or(0)
    } else {
        0
    };
    let max_reconsume_times = if retry {
        read_int_prop(m, PROPERTY_MAX_RECONSUME_TIMES)
    } else {
        None
    };
    let code: i32 = if is_reply_message(m) {
        request_code::SEND_REPLY_MESSAGE_V2
    } else if batch {
        request_code::SEND_BATCH_MESSAGE
    } else {
        request_code::SEND_MESSAGE_V2
    };
    let header = SendMessageRequestHeaderV2 {
        producer_group: Some(producer_group.to_owned()),
        topic: Some(m.topic.clone()),
        default_topic: Some(
            if create_topic_key.is_empty() {
                DEFAULT_TOPIC.to_owned()
            } else {
                create_topic_key.to_owned()
            },
        ),
        default_topic_queue_nums: Some(default_topic_queue_nums),
        queue_id: Some(mq.queue_id),
        sys_flag: Some(sys_flag),
        born_timestamp: Some(now),
        flag: Some(m.flag),
        properties: Some(message_properties_2_string(&m.properties)),
        reconsume_times: Some(reconsume_times),
        unit_mode: Some(unit_mode),
        max_reconsume_times,
        batch: Some(batch),
        broker_name: if mq.broker_name.as_str().is_empty() {
            None
        } else {
            Some(mq.broker_name.clone())
        },
    };
    SendRequest { code, header, body: encode_body(m) }
}

/// The bytes of a message's body.
pub fn encode_body(msg: &Message) -> (r: Vec<u8>)
    ensures
        r@ == body_bytes(msg.body),
{
    match &msg.body {
        Some(b) => copy_bytes(b.as_slice()),
        None => Vec::new(),
    }
}

/// How well a broker stored a message, by the code of its answer; `None` for a failure.
pub open spec fn send_status_of(code: i32) -> Option<SendStatus> {
    if code == response_code::SUCCESS {
        Some(SendStatus::SendOk)
    } else if code == response_code::FLUSH_DISK_TIMEOUT {
        Some(SendStatus::FlushDiskTimeout)
    } else if code == response_code::FLUSH_SLAVE_TIMEOUT {
        Some(SendStatus::FlushSlaveTimeout)
    } else if code == response_code::SLAVE_NOT_AVAILABLE {
        Some(SendStatus::SlaveNotAvailable)
    } else {
        None
    }
}

fn send_status(code: i32) -> (r: Option<SendStatus>)
    ensures
        r == send_status_of(code),
{
    if code == response_code::SUCCESS {
        Some(SendStatus::SendOk)
    } else if code == response_code::FLUSH_DISK_TIMEOUT {
        Some(SendStatus::FlushDiskTimeout)
    } else if code == response_code::FLUSH_SLAVE_TIMEOUT {
        Some(SendStatus::FlushSlaveTimeout)
    } else if code == response_code::SLAVE_NOT_AVAILABLE {
        Some(SendStatus::SlaveNotAvailable)
    } else {
        None
    }
}

/// A text that is there and not empty.
pub open spec fn filled(s: Option<Seq<char>>) -> bool {
    s matches Some(t) && t.len() > 0
}

/// The id of a sent message: its own, else that of its batch in the answer, else that of its
/// place in the broker's log.
pub open spec fn sent_id(m: Message, h: SendMessageResponseHeader) -> Option<Seq<char>> {
    let own = prop(m.properties, PROPERTY_UNIQ_KEY@);
    if filled(own) {
        own
    } else if filled(opt(h.batch_uniq_id)) {
        opt(h.batch_uniq_id)
    } else {
        opt(h.msg_id)
    }
}

/// What an answer to a send means. `region` and `trace` are the two extra fields of the
/// answer by which a broker names its region and its tracing.
pub fn parse_send_response(
    head: &ResponseHead,
    header: &SendMessageResponseHeader,
    region: Option<&str>,
    trace: Option<&str>,
    msg: &Message,
    mq: &MessageQueue,
) -> (r: Result<SendResult, Error>)
    ensures
        r is Ok <==> send_status_of(head.code) is Some,
        match r {
            Err(e) => is_broker(e, *head),
            Ok(s) => {
                &&& Some(s.status) == send_status_of(head.code)
                &&& opt(s.msg_id) == sent_id(*msg, *header)
                &&& s.message_queue matches Some(q) && q@ == (QueueView {
                    topic: mq.topic@,
                    broker_name: mq.broker_name@,
                    queue_id: header.queue_id.unwrap_or(mq.queue_id),
                })
                &&& s.queue_offset == header.queue_offset.unwrap_or(0)
                &&& s.transaction_id == header.transaction_id
                &&& s.offset_msg_id == header.msg_id
                &&& s.recall_handle == header.recall_handle
                &&& opt(s.region_id) == Some(
                    if filled(opt_ref(region)) {
                        region->0@
                    } else {
                        DEFAULT_TRACE_REGION_ID@
                    },
                )
                &&& s.trace_on == (opt_ref(trace) != Some("false"@))
            },
        },
{
    let status = match send_status(head.code) {
        Some(s) => s,
        None => {
            return Err(broker_failure(head));
        },
    };
    let msg_id = match msg.get_property(PROPERTY_UNIQ_KEY) {
        Some(id) if !id.is_empty() => Some(id.to_owned()),
        _ => match &header.batch_uniq_id {
            Some(id) if !id.as_str().is_empty() => Some(id.clone()),
            _ => copy_opt(&header.msg_id),
        },
    };
    let region_id = match region {
        Some(s) if !s.is_empty() => Some(s.to_owned()),
        _ => Some(DEFAULT_TRACE_REGION_ID.to_owned()),
    };
    let trace_on = match trace {
        Some(v) => !same(v, "false"),
        None => true,
    };
    Ok(
        SendResult {
            status,
            msg_id,
            message_queue: Some(
                MessageQueue::new(
                    mq.topic.as_str(),
                    mq.broker_name.as_str(),
                    header.queue_id.unwrap_or(mq.queue_id),
                ),
            ),
            queue_offset: header.queue_offset.unwrap_or(0),
            transaction_id: copy_opt(&header.transaction_id),
            offset_msg_id: copy_opt(&header.msg_id),
            recall_handle: copy_opt(&header.recall_handle),
            region_id,
            trace_on,
        },
    )
}

/// How a pull ended, by the code of its answer; `None` for a failure.
pub open spec fn pull_status_of(code: i32) -> Option<PullStatus> {
    if code == response_code::SUCCESS {
        Some(PullStatus::Found)
    } else if code == response_code::PULL_NOT_FOUND {
        Some(PullStatus::NoNewMsg)
    } else if code == response_code::PULL_OFFSET_MOVED {
        Some(PullStatus::OffsetIllegal)
    } else if code == response_code::PULL_RETRY_IMMEDIATELY {
        Some(PullStatus::NoMatchedMsg)
    } else {
        None
    }
}

/// What a pull asks for, beside its queue and group.
pub struct PullArgs<'a> {
    pub queue_offset: i64,
    pub max_msg_nums: i32,
    pub sys_flag: i32,
    pub commit_offset: i64,
    pub subscription: &'a str,
    pub sub_version: i64,
    pub expression_type: &'a str,
    pub max_msg_bytes: i32,
    pub suspend_timeout_millis: i64,
    pub request_source: i32,
}

/// The header of a pull request.
pub fn pull_request_header(consumer_group: &str, mq: &MessageQueue, a: &PullArgs<'_>) -> (r: PullMessageRequestHeader)
    ensures
        opt(r.consumer_group) == Some(consumer_group@),
        opt(r.topic) == Some(mq.topic@),
        r.queue_id == Some(mq.queue_id),
        r.queue_offset == Some(a.queue_offset),
        r.max_msg_nums == Some(a.max_msg_nums),
        r.sys_flag == Some(a.sys_flag),
        r.commit_offset == Some(a.commit_offset),
        r.suspend_timeout_millis == Some(a.suspend_timeout_millis),
        opt(r.subscription) == Some(a.subscription@),
        r.sub_version == Some(a.sub_version),
        opt(r.expression_type) == Some(a.expression_type@),
        r.max_msg_bytes == Some(a.max_msg_bytes),
        r.request_source == Some(a.request_source),
{
    PullMessageRequestHeader {
        consumer_group: Some(consumer_group.to_owned()),
        topic: Some(mq.topic.clone()),
        queue_id: Some(mq.queue_id),
        queue_offset: Some(a.queue_offset),
        max_msg_nums: Some(a.max_msg_nums),
        sys_flag: Some(a.sys_flag),
        commit_offset: Some(a.commit_offset),
        suspend_timeout_millis: Some(a.suspend_timeout_millis),
        subscription: Some(a.subscription.to_owned()),
        sub_version: Some(a.sub_version),
        expression_type: Some(a.expression_type.to_owned()),
        max_msg_bytes: Some(a.max_msg_bytes),
        request_source: Some(a.request_source),
    }
}

/// What an answer to a pull means; `found` are the messages that it holds. Each of them is
/// put down as of the queue that was asked.
pub fn pull_result(
    head: &ResponseHead,
    header: &PullMessageResponseHeader,
    found: Vec<MessageExt>,
    mq: &MessageQueue,
) -> (r: Result<PullResult, Error>)
    ensures
        r is Ok <==> pull_status_of(head.code) is Some,
        match r {
            Err(e) => is_broker(e, *head),
            Ok(p) => {
                &&& Some(p.status) == pull_status_of(head.code)
                &&& p.next_begin_offset == header.next_begin_offset.unwrap_or(0)
                &&& p.min_offset == header.min_offset.unwrap_or(0)
                &&& p.max_offset == header.max_offset.unwrap_or(0)
                &&& p.msg_found_list@.len() == found@.len()
                &&& forall|i: int|
                    0 <= i < found@.len() ==> #[trigger] p.msg_found_list@[i] == (MessageExt {
                        broker_name: Some(mq.broker_name),
                        queue_id: mq.queue_id,
                        ..found@[i]
                    })
            },
        },
{
    let status = if head.code == response_code::SUCCESS {
        PullStatus::Found
    } else if head.code == response_code::PULL_NOT_FOUND {
        PullStatus::NoNewMsg
    } else if head.code == response_code::PULL_OFFSET_MOVED {
        PullStatus::OffsetIllegal
    } else if head.code == response_code::PULL_RETRY_IMMEDIATELY {
        PullStatus::NoMatchedMsg
    } else {
        return Err(broker_failure(head));
    };
    let ghost given = found@;
    let mut list = found;
    let mut i: usize = 0;
    while i < list.len()
        invariant
            i <= list@.len(),
            list@.len() == given.len(),
            forall|j: int|
                0 <= j < i ==> #[trigger] list@[j] == (MessageExt {
                    broker_name: Some(mq.broker_name),
                    queue_id: mq.queue_id,
                    ..given[j]
                }),
            forall|j: int| i <= j < given.len() ==> #[trigger] list@[j] == given[j],
        decreases list@.len() - i,
    {
        let m = &mut list[i];
        m.broker_name = Some(mq.broker_name.clone());
        m.queue_id = mq.queue_id;
        i = i + 1;
    }
    Ok(
        PullResult {
            status,
            next_begin_offset: header.next_begin_offset.unwrap_or(0),
            min_offset: header.min_offset.unwrap_or(0),
            max_offset: header.max_offset.unwrap_or(0),
            msg_found_list: list,
        },
    )
}

/// What a pop asks for, beside its group and topic.
pub struct PopArgs<'a> {
    pub queue_id: i32,
    pub max_msg_nums: i32,
    pub invisible_time: i64,
    pub poll_time: i64,
    pub init_mode: i32,
    pub exp: Option<&'a str>,
    pub exp_type: Option<&'a str>,
    pub order: bool,
}

fn own(s: Option<&str>) -> (r: Option<String>)
    ensures
        opt(r) == opt_ref(s),
{
    match s {
        Some(v) => Some(v.to_owned()),
        None => None,
    }
}

/// The header of a pop request.
pub fn pop_request_header(consumer_group: &str, topic: &str, a: &PopArgs<'_>, now: i64) -> (r: PopMessageRequestHeader)
    ensures
        opt(r.consumer_group) == Some(consumer_group@),
        opt(r.topic) == Some(topic@),
        r.queue_id == Some(a.queue_id),
        r.max_msg_nums == Some(a.max_msg_nums),
        r.invisible_time == Some(a.invisible_time),
        r.poll_time == Some(a.poll_time),
        r.born_time == Some(now),
        r.init_mode == Some(a.init_mode),
        opt(r.exp) == opt_ref(a.exp),
        opt(r.exp_type) == opt_ref(a.exp_type),
        r.order == a.order,
{
    PopMessageRequestHeader {
        consumer_group: Some(consumer_group.to_owned()),
        topic: Some(topic.to_owned()),
        queue_id: Some(a.queue_id),
        max_msg_nums: Some(a.max_msg_nums),
        invisible_time: Some(a.invisible_time),
        poll_time: Some(a.poll_time),
        born_time: Some(now),
        init_mode: Some(a.init_mode),
        exp_type: own(a.exp_type),
        exp: own(a.exp),
        order: a.order,
    }
}

/// A popped message as the caller sees it: stamped, of the broker that was asked, and of the
/// topic that was asked for.
pub open spec fn popped(
    m: MessageExt,
    found: Seq<MessageExt>,
    i: int,
    broker: Seq<char>,
    topic: Seq<char>,
    h: PopMessageResponseHeader,
) -> bool {
    &&& props(m.properties) == stamped(found, i, broker, h)
    &&& opt(m.broker_name) == Some(broker)
    &&& m.topic@ == topic
    &&& m == (MessageExt {
        properties: m.properties,
        broker_name: m.broker_name,
        topic: m.topic,
        ..found[i]
    })
}

/// The tables and handles of an answer are well-formed.
pub open spec fn stampable(found: Seq<MessageExt>, h: PopMessageResponseHeader) -> bool {
    has_starts(h) ==> starts_table(h) is Some && offsets_table(h) is Some && keys_ok(found)
}

/// What an answer to a pop means; `found` are the messages that it holds. The handles are
/// made before the topic of the messages is put back to the one that was asked for, for a
/// handle says what their topic was.
pub fn pop_result(
    head: &ResponseHead,
    header: &PopMessageResponseHeader,
    found: Vec<MessageExt>,
    broker_name: &str,
    topic: &str,
) -> (r: Result<PopResult, Error>)
    ensures
        r is Ok <==> pop_status_of(head.code) is Some && (head.code == response_code::SUCCESS ==> stampable(
            found@,
            *header,
        ) || found@.len() == 0),
        match r {
            Err(e) => if pop_status_of(head.code) is None {
                is_broker(e, *head)
            } else if starts_table(*header) is None {
                is_client(e, None, "parse startOffsetInfo error, "@ + (header.start_offset_info->0)@)
            } else if offsets_table(*header) is None {
                is_client(e, None, "parse msgOffsetInfo error, "@ + (header.msg_offset_info->0)@)
            } else {
                names_bad_key(e, found@)
            },
            Ok(p) => {
                &&& Some(p.status) == pop_status_of(head.code)
                &&& p.msg_found_list@.len() == if p.status == PopStatus::Found {
                    found@.len()
                } else {
                    0
                }
                &&& forall|i: int|
                    0 <= i < p.msg_found_list@.len() ==> popped(
                        #[trigger] p.msg_found_list@[i],
                        found@,
                        i,
                        broker_name@,
                        topic@,
                        *header,
                    )
                &&& p.rest_num == header.rest_num.unwrap_or(0)
                &&& p.pop_time == header.pop_time.unwrap_or(0)
                &&& p.invisible_time == header.invisible_time.unwrap_or(0)
                &&& p.revive_qid == header.revive_qid.unwrap_or(0)
                &&& p.start_offset_info == header.start_offset_info
                &&& p.msg_offset_info == header.msg_offset_info
                &&& p.order_count_info == header.order_count_info
            },
        },
{
    let status = if head.code == response_code::SUCCESS {
        PopStatus::Found
    } else if head.code == response_code::POLLING_FULL {
        PopStatus::PollingFull
    } else if head.code == response_code::POLLING_TIMEOUT || head.code == response_code::PULL_NOT_FOUND {
        PopStatus::PollingNotFound
    } else {
        return Err(broker_failure(head));
    };
    let ghost given = found@;
    let mut list: Vec<MessageExt> = if status == PopStatus::Found {
        found
    } else {
        Vec::new()
    };
    if list.len() > 0 {
        if let Err(e) = stamp_pop_ck(&mut list, broker_name, header) {
            return Err(e);
        }
    }
    let ghost start = list@;
    let mut i: usize = 0;
    while i < list.len()
        invariant
            i <= list@.len(),
            list@.len() == start.len() <= given.len(),
            forall|j: int|
                0 <= j < start.len() ==> props(#[trigger] start[j].properties) == stamped(
                    given,
                    j,
                    broker_name@,
                    *header,
                ) && start[j] == (MessageExt { properties: start[j].properties, ..given[j] }),
            forall|j: int|
                0 <= j < i ==> popped(#[trigger] list@[j], given, j, broker_name@, topic@, *header),
            forall|j: int| i <= j < start.len() ==> #[trigger] list@[j] == start[j],
        decreases list@.len() - i,
    {
        let ghost s = start[i as int];
        assert(props(s.properties) == stamped(given, i as int, broker_name@, *header));
        let m = &mut list[i];
        m.broker_name = Some(broker_name.to_owned());
        m.topic = topic.to_owned();
        i = i + 1;
    }
    Ok(
        PopResult {
            status,
            msg_found_list: list,
            rest_num: header.rest_num.unwrap_or(0),
            pop_time: header.pop_time.unwrap_or(0),
            invisible_time: header.invisible_time.unwrap_or(0),
            revive_qid: header.revive_qid.unwrap_or(0),
            start_offset_info: copy_opt(&header.start_offset_info),
            msg_offset_info: copy_opt(&header.msg_offset_info),
            order_count_info: copy_opt(&header.order_count_info),
        },
    )
}

/// The broker that a handle belongs to: the one that is named, else that of the handle.
pub fn handle_broker_name(broker_name: Option<&str>, extra_info: &str) -> (r: Result<String, Error>)
    ensures
        match broker_name {
            Some(b) => r matches Ok(s) && s@ == b@,
            None => match handle_broker(extra_info@) {
                Some(b) => r matches Ok(s) && s@ == b,
                None => r matches Err(e) && is_client(
                    e,
                    None,
                    "parse brokerName fail, extraInfo: "@ + extra_info@,
                ),
            },
        },
{
    match broker_name {
        Some(b) => Ok(b.to_owned()),
        None => get_broker_name(extra_info),
    }
}

/// The header of an acknowledgement.
pub fn ack_request_header(consumer_group: &str, topic: &str, queue_id: i32, extra_info: &str, offset: i64) -> (r:
    AckMessageRequestHeader)
    ensures
        opt(r.consumer_group) == Some(consumer_group@),
        opt(r.topic) == Some(topic@),
        r.queue_id == Some(queue_id),
        opt(r.extra_info) == Some(extra_info@),
        r.offset == Some(offset),
{
    AckMessageRequestHeader {
        consumer_group: Some(consumer_group.to_owned()),
        topic: Some(topic.to_owned()),
        queue_id: Some(queue_id),
        extra_info: Some(extra_info.to_owned()),
        offset: Some(offset),
    }
}

/// The header of a change of a message's invisible time.
pub fn invisible_time_request_header(
    consumer_group: &str,
    topic: &str,
    queue_id: i32,
    extra_info: &str,
    offset: i64,
    invisible_time: i64,
) -> (r: ChangeInvisibleTimeRequestHeader)
    ensures
        opt(r.consumer_group) == Some(consumer_group@),
        opt(r.topic) == Some(topic@),
        r.queue_id == Some(queue_id),
        opt(r.extra_info) == Some(extra_info@),
        r.offset == Some(offset),
        r.invisible_time == Some(invisible_time),
        !r.suspend,
{
    ChangeInvisibleTimeRequestHeader {
        consumer_group: Some(consumer_group.to_owned()),
        topic: Some(topic.to_owned()),
        queue_id: Some(queue_id),
        extra_info: Some(extra_info.to_owned()),
        offset: Some(offset),
        invisible_time: Some(invisible_time),
        suspend: false,
    }
}

/// The header that gives a message back to its broker. Without a limit of its own the
/// request carries none, and the broker goes by that of the group.
pub fn send_back_header(
    consumer_group: &str,
    msg: &MessageExt,
    delay_level: i32,
    max_reconsume_times: Option<i32>,
    unit_mode: bool,
) -> (r: ConsumerSendMsgBackRequestHeader)
    ensures
        r.offset == Some(msg.commit_log_offset),
        opt(r.group) == Some(consumer_group@),
        r.delay_level == Some(delay_level),
        r.origin_msg_id == msg.msg_id,
        opt(r.origin_topic) == Some(msg.topic@),
        r.unit_mode == Some(unit_mode),
        r.max_reconsume_times == max_reconsume_times,
{
    ConsumerSendMsgBackRequestHeader {
        offset: Some(msg.commit_log_offset),
        group: Some(consumer_group.to_owned()),
        delay_level: Some(delay_level),
        origin_msg_id: copy_opt(&msg.msg_id),
        origin_topic: Some(msg.topic.clone()),
        unit_mode: Some(unit_mode),
        max_reconsume_times,
    }
}

/// What an answer to a question for a committed offset means: that there is none is a fine
/// answer.
pub fn offset_answer(head: &ResponseHead, offset: Option<i64>) -> (r: Result<Option<i64>, Error>)
    ensures
        if head.code == response_code::QUERY_NOT_FOUND {
            r == Ok::<Option<i64>, Error>(None)
        } else if head.code == response_code::SUCCESS {
            r == Ok::<Option<i64>, Error>(offset)
        } else {
            r matches Err(e) && is_broker(e, *head)
        },
{
    if head.code == response_code::QUERY_NOT_FOUND {
        return Ok(None);
    }
    match check_response(head) {
        Ok(_) => Ok(offset),
        Err(e) => Err(e),
    }
}

/// What an answer to a question for a place or a time in a queue means: 0 where it names none.
pub fn number_answer(head: &ResponseHead, number: Option<i64>) -> (r: Result<i64, Error>)
    ensures
        if head.code == response_code::SUCCESS {
            r == Ok::<i64, Error>(number.unwrap_or(0))
        } else {
            r matches Err(e) && is_broker(e, *head)
        },
{
    match check_response(head) {
        Ok(_) => Ok(number.unwrap_or(0)),
        Err(e) => Err(e),
    }
}

/// What an answer to a request to call a message back means: the id of that message, which
/// there must be.
pub fn recall_answer(head: &ResponseHead, msg_id: Option<String>, addr: &str) -> (r: Result<String, Error>)
    ensures
        if head.code != response_code::SUCCESS {
            r matches Err(e) && is_broker(e, *head)
        } else if filled(opt(msg_id)) {
            r == Ok::<String, Error>(msg_id->0)
        } else {
            r matches Err(e) && is_client(e, None, "recall message response has no msgId, addr "@ + addr@)
        },
{
    if let Err(e) = check_response(head) {
        return Err(e);
    }
    match msg_id {
        Some(id) if !id.as_str().is_empty() => Ok(id),
        _ => Err(Error::client("recall message response has no msgId, addr ".to_owned().concat(addr).as_str())),
    }
}

/// The kind of compression of a reply's body; `None` where it is plain.
pub open spec fn reply_compression(h: ReplyMessageRequestHeader) -> Option<i32> {
    let flag = h.sys_flag.unwrap_or(0);
    if flag & 1 == 1 {
        Some(
            if compression_bits(flag) == 0 {
                ZLIB_TYPE
            } else {
                compression_bits(flag)
            },
        )
    } else {
        None
    }
}

/// The bytes of a body that may be missing.
pub open spec fn given_bytes(body: Option<&[u8]>) -> Seq<u8> {
    match body {
        Some(b) => b@,
        None => Seq::empty(),
    }
}

/// `inflate` may give `out` for `bytes` that were compressed by `kind`.
pub open spec fn inflated<F: Fn(&Vec<u8>, i32) -> Result<Vec<u8>, Error>>(
    inflate: F,
    bytes: Seq<u8>,
    kind: i32,
    out: Result<Vec<u8>, Error>,
) -> bool {
    exists|b: Vec<u8>| b@ == bytes && #[trigger] call_ensures(inflate, (&b, kind), out)
}

/// A host that is there and not empty.
pub open spec fn host(h: Option<String>) -> Option<Seq<char>> {
    if filled(opt(h)) {
        opt(h)
    } else {
        None
    }
}

fn real_host(h: &Option<String>) -> (r: Option<String>)
    ensures
        opt(r) == host(*h),
{
    match h {
        Some(s) if !s.as_str().is_empty() => Some(s.clone()),
        _ => None,
    }
}

/// `m` is the message that a pushed reply carries, which arrived at `now`.
pub open spec fn is_reply_of<F: Fn(&Vec<u8>, i32) -> Result<Vec<u8>, Error>>(
    header: ReplyMessageRequestHeader,
    bytes: Seq<u8>,
    inflate: F,
    now: i64,
    m: MessageExt,
) -> bool {
    &&& match reply_compression(header) {
        Some(k) => m.body is Some && inflated(inflate, bytes, k, Ok(m.body->0)),
        None => m.body is Some && body_bytes(m.body) == bytes,
    }
    &&& m.topic@ == match header.topic {
        Some(t) => t@,
        None => Seq::empty(),
    }
    &&& m.queue_id == header.queue_id.unwrap_or(0)
    &&& m.store_timestamp == header.store_timestamp.unwrap_or(0)
    &&& m.flag == header.flag.unwrap_or(0)
    &&& m.born_timestamp == header.born_timestamp.unwrap_or(0)
    &&& m.reconsume_times == header.reconsume_times.unwrap_or(0)
    &&& opt(m.born_host) == host(header.born_host)
    &&& opt(m.store_host) == host(header.store_host)
    &&& props(m.properties) == text_props(
        match header.properties {
            Some(p) => p@,
            None => Seq::empty(),
        },
    ).insert(PROPERTY_REPLY_MESSAGE_ARRIVE_TIME@, decimal(now as int))
}

/// The message that a pushed reply carries, which arrived at `now`. `inflate` undoes the
/// kind of compression that the header names; it is not called on a plain body.
pub fn build_reply_message_ext<F: Fn(&Vec<u8>, i32) -> Result<Vec<u8>, Error>>(
    header: &ReplyMessageRequestHeader,
    body: Option<&[u8]>,
    inflate: F,
    now: i64,
) -> (r: Result<MessageExt, Error>)
    requires
        forall|b: Vec<u8>, k: i32| #[trigger] call_requires(inflate, (&b, k)),
    ensures
        match r {
            Err(e) => reply_compression(*header) matches Some(k) && inflated(
                inflate,
                given_bytes(body),
                k,
                Err(e),
            ),
            Ok(m) => is_reply_of(*header, given_bytes(body), inflate, now, m),
        },
{
    let raw: Vec<u8> = match body {
        Some(b) => copy_bytes(b),
        None => Vec::new(),
    };
    let sys_flag: i32 = header.sys_flag.unwrap_or(0);
    let bytes: Vec<u8> = if is_compressed(sys_flag) {
        let kind: i32 = get_compression_type(sys_flag);
        let got = inflate(&raw, kind);
        assert(reply_compression(*header) == Some(kind));
        assert(inflated(inflate, given_bytes(body), kind, got));
        match got {
            Ok(b) => b,
            Err(e) => {
                return Err(e);
            },
        }
    } else {
        raw
    };
    let mut m = MessageExt::new();
    m.topic = or_empty(&header.topic);
    m.body = Some(bytes);
    m.queue_id = header.queue_id.unwrap_or(0);
    m.store_timestamp = header.store_timestamp.unwrap_or(0);
    m.flag = header.flag.unwrap_or(0);
    m.born_timestamp = header.born_timestamp.unwrap_or(0);
    m.reconsume_times = header.reconsume_times.unwrap_or(0);
    m.born_host = real_host(&header.born_host);
    m.store_host = real_host(&header.store_host);
    let text = or_empty(&header.properties);
    let mut properties = string_2_message_properties(text.as_str());
    put(&mut properties, PROPERTY_REPLY_MESSAGE_ARRIVE_TIME, int_text(now));
    m.properties = properties;
    Ok(m)
}

/// What an answer to a pop means, by its code: found, too many waiting, or nothing found, for
/// which there are two codes. Only the first brings messages. Any other code is the broker's
/// failure. The numbers and tables of the answer are handed on.
pub proof fn law_pop_answer_by_its_code(
    head: &ResponseHead,
    header: &PopMessageResponseHeader,
    found: Vec<MessageExt>,
    broker_name: &str,
    topic: &str,
    r: Result<PopResult, Error>,
)
    requires
        call_ensures(pop_result, (head, header, found, broker_name, topic), r),
    ensures
        head.code == 209 ==> (r matches Ok(p) && p.status == PopStatus::PollingFull && p.msg_found_list@.len() == 0),
        head.code == 210 || head.code == 19 ==> (r matches Ok(p) && p.status == PopStatus::PollingNotFound
            && p.msg_found_list@.len() == 0),
        head.code == 0 && (header.start_offset_info is None || header.start_offset_info->0@.len() == 0) ==> r is Ok,
        head.code == 0 && found@.len() == 0 ==> r is Ok,
        head.code == 0 ==> (r matches Ok(p) ==> p.status == PopStatus::Found && p.msg_found_list@.len() == found@.len()),
        head.code == 0 ==> (r matches Err(e) ==> e is Client),
        head.code != 0 && head.code != 209 && head.code != 210 && head.code != 19 ==> (r matches Err(
            Error::Broker { response_code, message },
        ) && response_code == head.code && (head.remark matches Some(t) ==> message@ == t@)),
        r matches Ok(p) ==> {
            &&& p.rest_num == header.rest_num.unwrap_or(0)
            &&& p.pop_time == header.pop_time.unwrap_or(0)
            &&& p.invisible_time == header.invisible_time.unwrap_or(0)
            &&& p.revive_qid == header.revive_qid.unwrap_or(0)
            &&& p.start_offset_info == header.start_offset_info
            &&& p.msg_offset_info == header.msg_offset_info
            &&& p.order_count_info == header.order_count_info
        },
{
}

/// The messages that a pop found come in their order, each with its body and its place, as of the
/// broker that was asked and of the topic that was asked for, and with what stamping wrote on it.
pub proof fn law_popped_messages_are_those_found(
    head: &ResponseHead,
    header: &PopMessageResponseHeader,
    found: Vec<MessageExt>,
    broker_name: &str,
    topic: &str,
    r: Result<PopResult, Error>,
    list: &mut Vec<MessageExt>,
    s: Result<(), Error>,
    i: int,
    name: Seq<char>,
)
    requires
        call_ensures(pop_result, (head, header, found, broker_name, topic), r),
        head.code == 0,
        old(list)@ == found@,
        call_ensures(stamp_pop_ck, (list, broker_name, header), s),
        0 <= i < found@.len(),
    ensures
        r is Ok <==> s is Ok,
        r matches Ok(p) ==> {
            let m = p.msg_found_list@[i];
            &&& m.topic@ == topic@
            &&& opt(m.broker_name) == Some(broker_name@)
            &&& m.body == found@[i].body
            &&& m.queue_id == found@[i].queue_id && m.queue_offset == found@[i].queue_offset
            &&& m.msg_id == found@[i].msg_id
            &&& prop(m.properties, name) == prop(final(list)@[i].properties, name)
        },
{
    if let Ok(p) = r {
        let m = p.msg_found_list@[i];
        assert(popped(m, found@, i, broker_name@, topic@, *header));
        let x = final(list)@[i];
        assert(props(x.properties) == stamped(found@, i, broker_name@, *header));
        assert(props(m.properties).dom().contains(name) == props(x.properties).dom().contains(name));
        if props(m.properties).dom().contains(name) {
            assert(props(m.properties)[name] == props(x.properties)[name]);
        }
    }
}

/// What an answer to a pull means, by its code: found, nothing new, nothing that matches, or an
/// offset that is no longer there. Any other code is the broker's failure. The messages come in
/// their order, as of the queue that was asked.
pub proof fn law_pull_answer_by_its_code(
    head: &ResponseHead,
    header: &PullMessageResponseHeader,
    found: Vec<MessageExt>,
    mq: &MessageQueue,
    r: Result<PullResult, Error>,
)
    requires
        call_ensures(pull_result, (head, header, found, mq), r),
    ensures
        head.code == 0 ==> (r matches Ok(p) && p.status == PullStatus::Found),
        head.code == 19 ==> (r matches Ok(p) && p.status == PullStatus::NoNewMsg),
        head.code == 20 ==> (r matches Ok(p) && p.status == PullStatus::NoMatchedMsg),
        head.code == 21 ==> (r matches Ok(p) && p.status == PullStatus::OffsetIllegal),
        head.code != 0 && head.code != 19 && head.code != 20 && head.code != 21 ==> (r matches Err(
            Error::Broker { response_code, message },
        ) && response_code == head.code && (head.remark matches Some(t) ==> message@ == t@)),
        r matches Ok(p) ==> {
            &&& p.next_begin_offset == header.next_begin_offset.unwrap_or(0)
            &&& p.min_offset == header.min_offset.unwrap_or(0)
            &&& p.max_offset == header.max_offset.unwrap_or(0)
            &&& p.msg_found_list@.len() == found@.len()
            &&& forall|i: int|
                0 <= i < found@.len() ==> {
                    let m = #[trigger] p.msg_found_list@[i];
                    &&& m.body == found@[i].body && m.topic == found@[i].topic && m.properties == found@[i].properties
                    &&& m.queue_offset == found@[i].queue_offset && m.msg_id == found@[i].msg_id
                    &&& m.queue_id == mq.queue_id
                    &&& m.broker_name matches Some(b) && b@ == mq.broker_name@
                }
        },
{
}

/// What an answer to a send means, by its code: stored, or taken but not stored well in one of
/// three ways. Any other code is the broker's failure.
pub proof fn law_send_answer_by_its_code(
    head: &ResponseHead,
    header: &SendMessageResponseHeader,
    region: Option<&str>,
    trace: Option<&str>,
    msg: &Message,
    mq: &MessageQueue,
    r: Result<SendResult, Error>,
)
    requires
        call_ensures(parse_send_response, (head, header, region, trace, msg, mq), r),
    ensures
        head.code == 0 ==> (r matches Ok(s) && s.status == SendStatus::SendOk),
        head.code == 10 ==> (r matches Ok(s) && s.status == SendStatus::FlushDiskTimeout),
        head.code == 11 ==> (r matches Ok(s) && s.status == SendStatus::SlaveNotAvailable),
        head.code == 12 ==> (r matches Ok(s) && s.status == SendStatus::FlushSlaveTimeout),
        head.code != 0 && head.code != 10 && head.code != 11 && head.code != 12 ==> (r matches Err(
            Error::Broker { response_code, message },
        ) && response_code == head.code && (head.remark matches Some(t) ==> message@ == t@)),
{
}

/// What a send gives says where the message went, and under which ids: its own unique key, else
/// that of its batch, else that of the broker's store; that of the store stands beside it.
pub proof fn law_send_answer_names_the_message(
    head: &ResponseHead,
    header: &SendMessageResponseHeader,
    region: Option<&str>,
    trace: Option<&str>,
    msg: &Message,
    mq: &MessageQueue,
    r: Result<SendResult, Error>,
)
    requires
        call_ensures(parse_send_response, (head, header, region, trace, msg, mq), r),
        r is Ok,
    ensures
        ({
            let s = r->Ok_0;
            let own = prop(msg.properties, "UNIQ_KEY"@);
            let has_own = own is Some && own->0.len() > 0;
            let has_batch = header.batch_uniq_id is Some && header.batch_uniq_id->0@.len() > 0;
            &&& has_own ==> opt(s.msg_id) == own
            &&& !has_own && has_batch ==> opt(s.msg_id) == opt(header.batch_uniq_id)
            &&& !has_own && !has_batch ==> opt(s.msg_id) == opt(header.msg_id)
            &&& s.offset_msg_id == header.msg_id
            &&& s.transaction_id == header.transaction_id
            &&& s.recall_handle == header.recall_handle
            &&& s.queue_offset == header.queue_offset.unwrap_or(0)
            &&& s.message_queue is Some
            &&& s.message_queue->0.topic@ == mq.topic@ && s.message_queue->0.broker_name@ == mq.broker_name@
            &&& header.queue_id matches Some(q) ==> s.message_queue->0.queue_id == q
            &&& header.queue_id is None ==> s.message_queue->0.queue_id == mq.queue_id
            &&& region is Some && region->0@.len() > 0 ==> opt(s.region_id) == Some(region->0@)
            &&& !(region is Some && region->0@.len() > 0) ==> opt(s.region_id) == Some("DefaultRegion"@)
            &&& trace is None ==> s.trace_on
            &&& trace is Some ==> s.trace_on == (trace->0@ != "false"@)
        }),
{
}

proof fn lemma_prop_of(a: Message, k: Seq<char>)
    ensures
        prop(a.properties, k) == if props(a.properties).dom().contains(k) {
            Some(props(a.properties)[k])
        } else {
            None
        },
{
}

/// The request of a single message: the message has a unique key from then on, its own or the
/// fresh one, and is otherwise as it was. The request carries its body, topic, flag and
/// properties to the queue that was chosen, for the group.
pub proof fn law_request_carries_the_message(
    group: &str,
    msg: &mut PublishMessage<'_>,
    mq: &MessageQueue,
    sys_flag: i32,
    unit_mode: bool,
    create_topic_key: &str,
    queue_nums: i32,
    fresh_id: &str,
    now: i64,
    r: SendRequest,
    text: String,
)
    requires
        call_ensures(
            build_send_request,
            (group, msg, mq, sys_flag, unit_mode, create_topic_key, queue_nums, fresh_id, now),
            r,
        ),
        call_ensures(message_properties_2_string, (&outer(*final(msg)).properties,), text),
    ensures
        ({
            let before = outer(*old(msg));
            let after = outer(*final(msg));
            let batch = *old(msg) is Batch;
            &&& after.topic == before.topic && after.body == before.body && after.flag == before.flag
            &&& forall|k: Seq<char>|
                k != "UNIQ_KEY"@ ==> #[trigger] prop(after.properties, k) == prop(before.properties, k)
            &&& batch || prop(before.properties, "UNIQ_KEY"@) is Some ==> prop(after.properties, "UNIQ_KEY"@) == prop(
                before.properties,
                "UNIQ_KEY"@,
            )
            &&& !batch && prop(before.properties, "UNIQ_KEY"@) is None ==> prop(after.properties, "UNIQ_KEY"@) == Some(
                fresh_id@,
            )
            &&& opt(r.header.topic) == Some(before.topic@)
            &&& opt(r.header.producer_group) == Some(group@)
            &&& r.header.queue_id == Some(mq.queue_id)
            &&& r.header.sys_flag == Some(sys_flag)
            &&& r.header.born_timestamp == Some(now)
            &&& r.header.flag == Some(before.flag)
            &&& r.header.unit_mode == Some(unit_mode)
            &&& r.header.batch == Some(batch)
            &&& r.header.default_topic_queue_nums == Some(queue_nums)
            &&& opt(r.header.default_topic) == Some(
                if create_topic_key@.len() == 0 {
                    "TBW102"@
                } else {
                    create_topic_key@
                },
            )
            &&& opt(r.header.properties) == Some(text@)
            &&& before.body matches Some(b) ==> r.body@ == b@
            &&& before.body is None ==> r.body@.len() == 0
            &&& mq.broker_name@.len() > 0 ==> opt(r.header.broker_name) == Some(mq.broker_name@)
        }),
        parts(*final(msg)) == parts(*old(msg)),
{
    let before = outer(*old(msg));
    let after = outer(*final(msg));
    let batch = *old(msg) is Batch;
    let a = props(before.properties);
    let b = props(after.properties);
    assert(b == with_id(before, batch, fresh_id@));
    assert forall|k: Seq<char>| #[trigger] prop(after.properties, k) == if k == "UNIQ_KEY"@ && !batch && prop(
        before.properties,
        k,
    ) is None {
        Some(fresh_id@)
    } else {
        prop(before.properties, k)
    } by {
        lemma_prop_of(before, k);
        lemma_prop_of(after, k);
        assert(a.dom().contains("UNIQ_KEY"@) == (prop(before.properties, "UNIQ_KEY"@) is Some));
    }
}

/// The code of the request: that of a reply for a message that is marked as one, else that of a
/// batch for a batch, else that of a single message. The counters of a message that was given
/// back travel in the header where it goes to a retry topic, and only then.
pub proof fn law_request_by_its_kind(
    group: &str,
    msg: &mut PublishMessage<'_>,
    mq: &MessageQueue,
    sys_flag: i32,
    unit_mode: bool,
    create_topic_key: &str,
    queue_nums: i32,
    fresh_id: &str,
    now: i64,
    r: SendRequest,
    times: i32,
    most: i32,
)
    requires
        call_ensures(
            build_send_request,
            (group, msg, mq, sys_flag, unit_mode, create_topic_key, queue_nums, fresh_id, now),
            r,
        ),
    ensures
        ({
            let m = outer(*old(msg));
            let answer = prop(m.properties, "MSG_TYPE"@) == Some("reply"@);
            let retry = begins_with(m.topic@, "%RETRY%"@);
            &&& answer ==> r.code == 325
            &&& !answer && *old(msg) is Batch ==> r.code == 320
            &&& !answer && *old(msg) is Single ==> r.code == 310
            &&& !retry ==> r.header.reconsume_times == Some(0i32) && r.header.max_reconsume_times is None
            &&& retry && prop(m.properties, "RECONSUME_TIME"@) == Some(decimal(times as int)) ==> r.header.reconsume_times
                == Some(times)
            &&& retry && prop(m.properties, "RECONSUME_TIME"@) is None ==> r.header.reconsume_times == Some(0i32)
            &&& retry && prop(m.properties, "MAX_RECONSUME_TIMES"@) == Some(decimal(most as int))
                ==> r.header.max_reconsume_times == Some(most)
            &&& retry && prop(m.properties, "MAX_RECONSUME_TIMES"@) is None ==> r.header.max_reconsume_times is None
        }),
{
    reveal_strlit("UNIQ_KEY");
    reveal_strlit("MSG_TYPE");
    reveal_strlit("RECONSUME_TIME");
    reveal_strlit("MAX_RECONSUME_TIMES");
    assert("UNIQ_KEY"@[0] != "MSG_TYPE"@[0]);
    assert("UNIQ_KEY"@.len() != "RECONSUME_TIME"@.len());
    assert("UNIQ_KEY"@.len() != "MAX_RECONSUME_TIMES"@.len());
    let before = outer(*old(msg));
    let after = outer(*final(msg));
    let a = props(before.properties);
    let b = props(after.properties);
    assert(b == with_id(before, *old(msg) is Batch, fresh_id@));
    assert forall|k: Seq<char>| k != "UNIQ_KEY"@ implies #[trigger] prop(after.properties, k) == prop(
        before.properties,
        k,
    ) by {
        lemma_prop_of(before, k);
        lemma_prop_of(after, k);
    }
    assert(prop(after.properties, "MSG_TYPE"@) == prop(before.properties, "MSG_TYPE"@));
    assert(prop(after.properties, "RECONSUME_TIME"@) == prop(before.properties, "RECONSUME_TIME"@));
    assert(prop(after.properties, "MAX_RECONSUME_TIMES"@) == prop(before.properties, "MAX_RECONSUME_TIMES"@));
    lemma_decimal_reads_back(times as int);
    lemma_decimal_reads_back(most as int);
}

/// An answer is a success exactly where its code is 0; else it is the broker's failure, with its
/// code and remark.
pub proof fn law_only_zero_is_success(head: &ResponseHead, r: Result<(), Error>, e: Error)
    requires
        call_ensures(check_response, (head,), r),
        call_ensures(broker_failure, (head,), e),
    ensures
        r is Ok <==> head.code == 0,
        r matches Err(f) ==> (f matches Error::Broker { response_code, message } && response_code == head.code && message@
            == match head.remark {
            Some(t) => t@,
            None => Seq::empty(),
        }),
        e matches Error::Broker { response_code, message } && response_code == head.code && message@ == match head.remark {
            Some(t) => t@,
            None => Seq::empty(),
        },
{
}

/// That a broker knows no offset is an answer, with none; a place in a queue that is not named is
/// 0; what is no success is the broker's failure.
pub proof fn law_answers_about_offsets(
    head: &ResponseHead,
    offset: Option<i64>,
    r: Result<Option<i64>, Error>,
    number: Option<i64>,
    n: Result<i64, Error>,
)
    requires
        call_ensures(offset_answer, (head, offset), r),
        call_ensures(number_answer, (head, number), n),
    ensures
        head.code == 22 ==> r == Ok::<Option<i64>, Error>(None),
        head.code == 0 ==> r == Ok::<Option<i64>, Error>(offset),
        head.code != 0 && head.code != 22 ==> (r matches Err(Error::Broker { response_code, message }) && response_code
            == head.code),
        head.code == 0 && number is Some ==> n == Ok::<i64, Error>(number->0),
        head.code == 0 && number is None ==> n == Ok::<i64, Error>(0),
        head.code != 0 ==> (n matches Err(Error::Broker { response_code, message }) && response_code == head.code),
{
}

/// A message that was called back is named by its id; an answer without one is a failure.
pub proof fn law_recall_gives_the_id(head: &ResponseHead, msg_id: Option<String>, addr: &str, r: Result<String, Error>)
    requires
        call_ensures(recall_answer, (head, msg_id, addr), r),
    ensures
        r is Ok <==> head.code == 0 && msg_id is Some && msg_id->0@.len() > 0,
        r matches Ok(id) ==> Some(id) == msg_id,
        head.code != 0 ==> (r matches Err(Error::Broker { response_code, message }) && response_code == head.code),
        head.code == 0 && r is Err ==> r->Err_0 is Client,
{
}

/// A pushed reply is the message that it carries: its body as it is where it is not compressed,
/// else what undoing the compression that its flag names gives; its properties, and when it came.
pub proof fn law_reply_carries_the_message<F: Fn(&Vec<u8>, i32) -> Result<Vec<u8>, Error>>(
    header: &ReplyMessageRequestHeader,
    body: Option<&[u8]>,
    inflate: F,
    now: i64,
    r: Result<MessageExt, Error>,
    flag: i32,
    packed: bool,
    kind: i32,
)
    requires
        call_ensures(build_reply_message_ext::<F>, (header, body, inflate, now), r),
        flag == header.sys_flag.unwrap_or(0),
        call_ensures(is_compressed, (flag,), packed),
        call_ensures(get_compression_type, (flag,), kind),
    ensures
        !packed ==> (r matches Ok(m) && m.body is Some && m.body->0@ == match body {
            Some(b) => b@,
            None => Seq::empty(),
        }),
        packed ==> exists|raw: Vec<u8>, out: Result<Vec<u8>, Error>|
            {
                &&& #[trigger] call_ensures(inflate, (&raw, kind), out)
                &&& raw@ == match body {
                    Some(b) => b@,
                    None => Seq::empty(),
                }
                &&& match out {
                    Ok(bytes) => r matches Ok(m) && m.body == Some(bytes),
                    Err(e) => r == Err::<MessageExt, Error>(e),
                }
            },
        r matches Ok(m) ==> {
            &&& header.topic matches Some(t) ==> m.topic@ == t@
            &&& m.queue_id == header.queue_id.unwrap_or(0)
            &&& m.born_timestamp == header.born_timestamp.unwrap_or(0)
            &&& m.store_timestamp == header.store_timestamp.unwrap_or(0)
            &&& m.flag == header.flag.unwrap_or(0)
            &&& m.reconsume_times == header.reconsume_times.unwrap_or(0)
            &&& prop(m.properties, "ARRIVE_TIME"@) == Some(decimal(now as int))
            &&& header.born_host matches Some(h) ==> (h@.len() > 0 ==> opt(m.born_host) == Some(h@))
            &&& header.store_host matches Some(h) ==> (h@.len() > 0 ==> opt(m.store_host) == Some(h@))
        },
{
    if let Ok(m) = r {
        assert(props(m.properties).dom().contains("ARRIVE_TIME"@));
        assert(props(m.properties)["ARRIVE_TIME"@] == decimal(now as int));
    }
    if packed {
        let bytes = given_bytes(body);
        assert(reply_compression(*header) == Some(kind));
        match r {
            Ok(m) => {
                let raw = choose|b: Vec<u8>| b@ == bytes && #[trigger] call_ensures(
                    inflate,
                    (&b, kind),
                    Ok::<Vec<u8>, Error>(m.body->0),
                );
                assert(call_ensures(inflate, (&raw, kind), Ok::<Vec<u8>, Error>(m.body->0)));
            },
            Err(e) => {
                let raw = choose|b: Vec<u8>| b@ == bytes && #[trigger] call_ensures(
                    inflate,
                    (&b, kind),
                    Err::<Vec<u8>, Error>(e),
                );
                assert(call_ensures(inflate, (&raw, kind), Err::<Vec<u8>, Error>(e)));
            },
        }
    }
}

/// Requests about a popped message hold its handle and its place as they are given.
pub proof fn law_requests_name_the_popped_message(
    group: &str,
    topic: &str,
    queue_id: i32,
    ck: &str,
    offset: i64,
    invisible_time: i64,
    ack: AckMessageRequestHeader,
    change: ChangeInvisibleTimeRequestHeader,
    broker: Option<&str>,
    named: Result<String, Error>,
    read: Result<String, Error>,
)
    requires
        call_ensures(ack_request_header, (group, topic, queue_id, ck, offset), ack),
        call_ensures(
            invisible_time_request_header,
            (group, topic, queue_id, ck, offset, invisible_time),
            change,
        ),
        call_ensures(handle_broker_name, (broker, ck), named),
        call_ensures(get_broker_name, (ck,), read),
    ensures
        opt(ack.extra_info) == Some(ck@) && opt(change.extra_info) == Some(ck@),
        ack.offset == Some(offset) && change.offset == Some(offset),
        ack.queue_id == Some(queue_id) && change.queue_id == Some(queue_id),
        opt(ack.topic) == Some(topic@) && opt(change.topic) == Some(topic@),
        opt(ack.consumer_group) == Some(group@) && opt(change.consumer_group) == Some(group@),
        change.invisible_time == Some(invisible_time) && !change.suspend,
        broker matches Some(b) ==> (named matches Ok(n) && n@ == b@),
        broker is None ==> (named is Ok <==> read is Ok) && (named matches Ok(n) ==> n@ == (read->Ok_0)@),
{
}

/// A message that is given back is named by its place in the log, its topic and its id.
pub proof fn law_given_back_message_is_named(
    group: &str,
    msg: &MessageExt,
    delay_level: i32,
    most: Option<i32>,
    unit_mode: bool,
    r: ConsumerSendMsgBackRequestHeader,
)
    requires
        call_ensures(send_back_header, (group, msg, delay_level, most, unit_mode), r),
    ensures
        r.offset == Some(msg.commit_log_offset),
        opt(r.group) == Some(group@),
        r.delay_level == Some(delay_level),
        r.origin_msg_id == msg.msg_id,
        opt(r.origin_topic) == Some(msg.topic@),
        r.max_reconsume_times == most,
        r.unit_mode == Some(unit_mode),
{
}

/// Requests to read hold what they are asked to: the queue, where to begin, how much, and by which
/// expression.
pub proof fn law_read_requests_hold_what_is_asked(
    group: &str,
    mq: &MessageQueue,
    a: &PullArgs<'_>,
    pull: PullMessageRequestHeader,
    topic: &str,
    p: &PopArgs<'_>,
    now: i64,
    pop: PopMessageRequestHeader,
)
    requires
        call_ensures(pull_request_header, (group, mq, a), pull),
        call_ensures(pop_request_header, (group, topic, p, now), pop),
    ensures
        opt(pull.topic) == Some(mq.topic@) && pull.queue_id == Some(mq.queue_id) && pull.queue_offset == Some(
            a.queue_offset,
        ),
        pull.max_msg_nums == Some(a.max_msg_nums) && pull.sys_flag == Some(a.sys_flag) && pull.commit_offset == Some(
            a.commit_offset,
        ),
        opt(pull.subscription) == Some(a.subscription@) && opt(pull.expression_type) == Some(a.expression_type@),
        pull.suspend_timeout_millis == Some(a.suspend_timeout_millis) && opt(pull.consumer_group) == Some(group@),
        opt(pop.topic) == Some(topic@) && pop.queue_id == Some(p.queue_id) && pop.max_msg_nums == Some(p.max_msg_nums),
        pop.invisible_time == Some(p.invisible_time) && pop.poll_time == Some(p.poll_time) && pop.born_time == Some(now),
        opt(pop.exp) == opt_ref(p.exp) && opt(pop.exp_type) == opt_ref(p.exp_type) && pop.order == p.order,
        pop.init_mode == Some(p.init_mode) && opt(pop.consumer_group) == Some(group@),
{
}

} // verus!

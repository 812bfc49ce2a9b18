//! Messages, their properties and the queues they live in.
use vstd::prelude::*;

use crate::table::Table;

verus! {

pub const PROPERTY_KEYS: &'static str = "KEYS";

pub const PROPERTY_TAGS: &'static str = "TAGS";

pub const PROPERTY_DELAY_TIME_LEVEL: &'static str = "DELAY";

pub const PROPERTY_DELAY_TIME: &'static str = "DELAY_TIME";

pub const PROPERTY_TIMER_DELAY_MS: &'static str = "TIMER_DELAY_MS";

pub const PROPERTY_TIMER_DELAY_SEC: &'static str = "TIMER_DELAY_SEC";

pub const PROPERTY_TIMER_DELIVER_MS: &'static str = "TIMER_DELIVER_MS";

pub const PROPERTY_START_DELIVER_TIME: &'static str = "__STARTDELIVERTIME";

pub const PROPERTY_TRANSACTION_PREPARED: &'static str = "TRAN_MSG";

pub const PROPERTY_PRODUCER_GROUP: &'static str = "PGROUP";

pub const PROPERTY_UNIQ_KEY: &'static str = "UNIQ_KEY";

pub const PROPERTY_MESSAGE_TYPE: &'static str = "MSG_TYPE";

pub const PROPERTY_RECONSUME_TIME: &'static str = "RECONSUME_TIME";

pub const PROPERTY_MAX_RECONSUME_TIMES: &'static str = "MAX_RECONSUME_TIMES";

pub const PROPERTY_POP_CK: &'static str = "POP_CK";

pub const PROPERTY_FIRST_POP_TIME: &'static str = "1ST_POP_TIME";

pub const PROPERTY_MSG_REGION: &'static str = "MSG_REGION";

pub const PROPERTY_TRACE_SWITCH: &'static str = "TRACE_ON";

pub const PROPERTY_CORRELATION_ID: &'static str = "CORRELATION_ID";

pub const PROPERTY_REPLY_MESSAGE_ARRIVE_TIME: &'static str = "ARRIVE_TIME";

pub const PROPERTY_MESSAGE_REPLY_TO_CLIENT: &'static str = "REPLY_TO_CLIENT";

pub const PROPERTY_MESSAGE_TTL: &'static str = "TTL";

pub const PROPERTY_TRANSACTION_ID: &'static str = "__transactionId__";

pub const PROPERTY_INNER_MULTI_DISPATCH: &'static str = "INNER_MULTI_DISPATCH";

pub const PROPERTY_WAIT_STORE_MSG_OK: &'static str = "WAIT";

pub const PROPERTY_TRANSFER_FLAG: &'static str = "TRANSFER_FLAG";

/// Between the keys of a message.
pub const KEY_SEPARATOR: &'static str = " ";

/// What the property [`PROPERTY_MESSAGE_TYPE`] says of a reply.
pub const REPLY_MESSAGE_FLAG: &'static str = "reply";

/// What identifies a queue.
#[verifier::ext_equal]
pub ghost struct QueueView {
    pub topic: Seq<char>,
    pub broker_name: Seq<char>,
    pub queue_id: i32,
}

/// One queue of a topic on one broker.
#[derive(Debug, PartialEq, Eq)]
pub struct MessageQueue {
    pub topic: String,
    pub broker_name: String,
    pub queue_id: i32,
}

impl View for MessageQueue {
    type V = QueueView;

    open spec fn view(&self) -> QueueView {
        QueueView { topic: self.topic@, broker_name: self.broker_name@, queue_id: self.queue_id }
    }
}

impl Clone for MessageQueue {
    fn clone(&self) -> (r: MessageQueue)
        ensures
            r == *self,
    {
        MessageQueue {
            topic: self.topic.clone(),
            broker_name: self.broker_name.clone(),
            queue_id: self.queue_id,
        }
    }
}

impl MessageQueue {
    pub fn new(topic: &str, broker_name: &str, queue_id: i32) -> (r: MessageQueue)
        ensures
            r@ == (QueueView { topic: topic@, broker_name: broker_name@, queue_id }),
    {
        MessageQueue { topic: topic.to_owned(), broker_name: broker_name.to_owned(), queue_id }
    }

    /// Whether both are the same queue.
    pub fn is(&self, other: &MessageQueue) -> (r: bool)
        ensures
            r == (self@ == other@),
    {
        self.topic == other.topic && self.broker_name == other.broker_name && self.queue_id
            == other.queue_id
    }
}

/// The queues of a list.
pub open spec fn queues(v: Seq<MessageQueue>) -> Seq<QueueView> {
    Seq::new(v.len(), |i: int| v[i]@)
}

/// A copy of a list of queues.
pub fn copy_queues(v: &Vec<MessageQueue>) -> (r: Vec<MessageQueue>)
    ensures
        r@ == v@,
{
    let mut out: Vec<MessageQueue> = Vec::new();
    let mut i: usize = 0;
    while i < v.len()
        invariant
            i <= v.len(),
            out@ == v@.subrange(0, i as int),
        decreases v.len() - i,
    {
        out.push(v[i].clone());
        i = i + 1;
    }
    assert(out@ =~= v@);
    out
}

/// A copy of a list of texts.
pub fn copy_texts(v: &Vec<String>) -> (r: Vec<String>)
    ensures
        r@ == v@,
{
    let mut out: Vec<String> = Vec::new();
    let mut i: usize = 0;
    while i < v.len()
        invariant
            i <= v.len(),
            out@ == v@.subrange(0, i as int),
        decreases v.len() - i,
    {
        out.push(v[i].clone());
        i = i + 1;
    }
    assert(out@ =~= v@);
    out
}

/// A copy of a run of bytes.
pub fn copy_bytes(v: &[u8]) -> (r: Vec<u8>)
    ensures
        r@ == v@,
{
    let mut out: Vec<u8> = Vec::new();
    let mut i: usize = 0;
    while i < v.len()
        invariant
            i <= v.len(),
            out@ == v@.subrange(0, i as int),
        decreases v.len() - i,
    {
        out.push(v[i]);
        i = i + 1;
    }
    assert(out@ =~= v@);
    out
}

/// Properties: names and values.
pub open spec fn props(t: Table<String>) -> Map<Seq<char>, Seq<char>> {
    Map::new(|k: Seq<char>| t@.dom().contains(k), |k: Seq<char>| t@[k]@)
}

/// The value of a property, where it is there.
pub open spec fn prop(t: Table<String>, name: Seq<char>) -> Option<Seq<char>> {
    if t@.dom().contains(name) {
        Some(t@[name]@)
    } else {
        None
    }
}

/// The value of a text that may be absent.
pub open spec fn opt(s: Option<String>) -> Option<Seq<char>> {
    match s {
        Some(v) => Some(v@),
        None => None,
    }
}

/// The value of a borrowed text that may be absent.
pub open spec fn opt_ref(s: Option<&str>) -> Option<Seq<char>> {
    match s {
        Some(v) => Some(v@),
        None => None,
    }
}

/// A copy of a text that may be absent.
pub fn copy_opt(s: &Option<String>) -> (r: Option<String>)
    ensures
        r == *s,
{
    match s {
        Some(v) => Some(v.clone()),
        None => None,
    }
}

/// A text that may be absent, with the empty text in its place.
pub fn or_empty(s: &Option<String>) -> (r: String)
    ensures
        r@ == match *s {
            Some(v) => v@,
            None => Seq::empty(),
        },
{
    match s {
        Some(v) => v.clone(),
        None => String::new(),
    }
}

/// Sets a property.
pub fn put(t: &mut Table<String>, name: &str, value: String)
    ensures
        final(t)@ == old(t)@.insert(name@, value),
        props(*final(t)) == props(*old(t)).insert(name@, value@),
{
    t.insert(name.to_owned(), value);
    assert(props(*t) =~= props(*old(t)).insert(name@, value@));
}

/// A copy of properties.
pub fn copy_props(t: &Table<String>) -> (r: Table<String>)
    ensures
        r@ == t@,
        r.order() == t.order(),
{
    let n = t.len();
    let mut out: Table<String> = Table::new();
    let mut i: usize = 0;
    while i < n
        invariant
            i <= n == t.order().len(),
            t.listed(),
            forall|k: Seq<char>| #[trigger]
                out@.dom().contains(k) <==> t.order().subrange(0, i as int).contains(k),
            forall|k: Seq<char>| out@.dom().contains(k) ==> #[trigger] out@[k] == t@[k],
        decreases n - i,
    {
        let ghost before = out@;
        out.insert(t.key_at(i).clone(), t.value_at(i).clone());
        proof {
            let s = t.order().subrange(0, i as int);
            let s2 = t.order().subrange(0, i + 1);
            assert(s2 =~= s.push(t.order()[i as int]));
            assert forall|k: Seq<char>| #[trigger] out@.dom().contains(k) <==> s2.contains(k) by {
                if s.contains(k) {
                    assert(s2[s.index_of(k)] == k);
                }
                assert(s2[i as int] == t.order()[i as int]);
                if s2.contains(k) && k != t.order()[i as int] {
                    assert(s[s2.index_of(k)] == k);
                }
            }
        }
        i = i + 1;
    }
    proof {
        assert(t.order().subrange(0, i as int) =~= t.order());
        assert(out@.dom() =~= t@.dom());
        assert(out@ =~= t@);
    }
    let m = out.len();
    proof {
        crate::table::lemma_order_unique(out.order(), t.order(), t@);
    }
    out
}

/// A message to send.
#[derive(Debug)]
pub struct Message {
    pub topic: String,
    pub flag: i32,
    pub properties: Table<String>,
    pub body: Option<Vec<u8>>,
    pub transaction_id: Option<String>,
}

/// The bytes of a body that may be absent.
pub open spec fn body_bytes(body: Option<Vec<u8>>) -> Seq<u8> {
    match body {
        Some(b) => b@,
        None => Seq::empty(),
    }
}

/// Several messages of one topic that travel together.
#[derive(Debug)]
pub struct MessageBatch {
    pub message: Message,
    pub messages: Vec<Message>,
}

/// Two messages that say the same.
pub open spec fn same_message(a: Message, b: Message) -> bool {
    &&& a.topic@ == b.topic@
    &&& a.flag == b.flag
    &&& props(a.properties) == props(b.properties)
    &&& (a.body is Some) == (b.body is Some)
    &&& body_bytes(a.body) == body_bytes(b.body)
    &&& opt(a.transaction_id) == opt(b.transaction_id)
}

fn copy_body(body: &Option<Vec<u8>>) -> (r: Option<Vec<u8>>)
    ensures
        (r is Some) == (*body is Some),
        body_bytes(r) == body_bytes(*body),
{
    match body {
        Some(b) => Some(copy_bytes(b.as_slice())),
        None => None,
    }
}

impl Clone for Message {
    fn clone(&self) -> (r: Message)
        ensures
            same_message(r, *self),
    {
        let properties = copy_props(&self.properties);
        assert(props(properties) =~= props(self.properties));
        Message {
            topic: self.topic.clone(),
            flag: self.flag,
            properties,
            body: copy_body(&self.body),
            transaction_id: copy_opt(&self.transaction_id),
        }
    }
}

impl Message {
    /// The bytes of the body; none where there is no body.
    pub fn get_body(&self) -> (r: &[u8])
        ensures
            r@ == body_bytes(self.body),
    {
        match &self.body {
            Some(b) => b.as_slice(),
            None => &[],
        }
    }

    pub fn new(topic: &str, body: Option<&[u8]>) -> (r: Message)
        ensures
            r.topic@ == topic@,
            r.flag == 0,
            r.properties@ == Map::<Seq<char>, String>::empty(),
            r.transaction_id is None,
            match body {
                Some(b) => r.body is Some && body_bytes(r.body) == b@,
                None => r.body is None,
            },
    {
        Message {
            topic: topic.to_owned(),
            flag: 0,
            properties: Table::new(),
            body: match body {
                Some(b) => Some(copy_bytes(b)),
                None => None,
            },
            transaction_id: None,
        }
    }

    /// The length of the body; 0 where there is none.
    pub fn body_len(&self) -> (r: usize)
        ensures
            r == body_bytes(self.body).len(),
    {
        match &self.body {
            Some(b) => b.len(),
            None => 0,
        }
    }

    /// Replaces the body; nothing else changes.
    pub fn set_body(&mut self, body: Vec<u8>)
        ensures
            *final(self) == (Message { body: Some(body), ..*old(self) }),
    {
        self.body = Some(body);
    }

    /// Sets a property.
    pub fn put_property(&mut self, name: &str, value: &str)
        ensures
            props(final(self).properties) == props(old(self).properties).insert(name@, value@),
            *final(self) == (Message { properties: final(self).properties, ..*old(self) }),
    {
        put(&mut self.properties, name, value.to_owned());
    }

    /// The value of a property.
    pub fn get_property(&self, name: &str) -> (r: Option<&str>)
        ensures
            opt_ref(r) == prop(self.properties, name@),
    {
        match self.properties.get(name) {
            Some(v) => Some(v.as_str()),
            None => None,
        }
    }

    /// Whether a property is there.
    pub fn has_property(&self, name: &str) -> (r: bool)
        ensures
            r == (prop(self.properties, name@) is Some),
    {
        self.properties.contains(name)
    }

    pub fn set_keys(&mut self, keys: &str)
        ensures
            props(final(self).properties) == props(old(self).properties).insert(PROPERTY_KEYS@, keys@),
            *final(self) == (Message { properties: final(self).properties, ..*old(self) }),
    {
        self.put_property(PROPERTY_KEYS, keys);
    }

    pub fn set_tags(&mut self, tags: &str)
        ensures
            props(final(self).properties) == props(old(self).properties).insert(PROPERTY_TAGS@, tags@),
            *final(self) == (Message { properties: final(self).properties, ..*old(self) }),
    {
        self.put_property(PROPERTY_TAGS, tags);
    }

    pub fn get_keys(&self) -> (r: Option<&str>)
        ensures
            opt_ref(r) == prop(self.properties, PROPERTY_KEYS@),
    {
        self.get_property(PROPERTY_KEYS)
    }

    pub fn get_tags(&self) -> (r: Option<&str>)
        ensures
            opt_ref(r) == prop(self.properties, PROPERTY_TAGS@),
    {
        self.get_property(PROPERTY_TAGS)
    }
}

/// A message as a broker hands it out.
#[derive(Debug)]
pub struct MessageExt {
    pub topic: String,
    pub flag: i32,
    pub properties: Table<String>,
    pub body: Option<Vec<u8>>,
    pub broker_name: Option<String>,
    pub queue_id: i32,
    pub queue_offset: i64,
    pub commit_log_offset: i64,
    pub sys_flag: i32,
    pub born_timestamp: i64,
    pub born_host: Option<String>,
    pub store_timestamp: i64,
    pub store_host: Option<String>,
    pub msg_id: Option<String>,
    pub reconsume_times: i32,
    pub transaction_id: Option<String>,
}

impl MessageExt {
    pub fn new() -> (r: MessageExt)
        ensures
            r.topic@ == Seq::<char>::empty(),
            r.flag == 0,
            r.properties@ == Map::<Seq<char>, String>::empty(),
            r.body is None,
            r.broker_name is None,
            r.queue_id == 0,
            r.queue_offset == 0,
            r.commit_log_offset == 0,
            r.sys_flag == 0,
            r.born_timestamp == 0,
            r.born_host is None,
            r.store_timestamp == 0,
            r.store_host is None,
            r.msg_id is None,
            r.reconsume_times == 0,
            r.transaction_id is None,
    {
        MessageExt {
            topic: String::new(),
            flag: 0,
            properties: Table::new(),
            body: None,
            broker_name: None,
            queue_id: 0,
            queue_offset: 0,
            commit_log_offset: 0,
            sys_flag: 0,
            born_timestamp: 0,
            born_host: None,
            store_timestamp: 0,
            store_host: None,
            msg_id: None,
            reconsume_times: 0,
            transaction_id: None,
        }
    }

    /// The message without what a broker added to it.
    pub fn to_message(&self) -> (r: Message)
        ensures
            r.topic@ == self.topic@,
            r.flag == self.flag,
            props(r.properties) == props(self.properties),
            (r.body is Some) == (self.body is Some),
            body_bytes(r.body) == body_bytes(self.body),
            r.transaction_id == self.transaction_id,
    {
        let properties = copy_props(&self.properties);
        assert(props(properties) =~= props(self.properties));
        Message {
            topic: self.topic.clone(),
            flag: self.flag,
            properties,
            body: copy_body(&self.body),
            transaction_id: copy_opt(&self.transaction_id),
        }
    }

    /// The value of a property.
    pub fn get_property(&self, name: &str) -> (r: Option<&str>)
        ensures
            opt_ref(r) == prop(self.properties, name@),
    {
        match self.properties.get(name) {
            Some(v) => Some(v.as_str()),
            None => None,
        }
    }

    /// Sets a property.
    pub fn put_property(&mut self, name: &str, value: &str)
        ensures
            props(final(self).properties) == props(old(self).properties).insert(name@, value@),
            *final(self) == (MessageExt { properties: final(self).properties, ..*old(self) }),
    {
        put(&mut self.properties, name, value.to_owned());
    }

    pub fn set_tags(&mut self, tags: &str)
        ensures
            props(final(self).properties) == props(old(self).properties).insert(PROPERTY_TAGS@, tags@),
            *final(self) == (MessageExt { properties: final(self).properties, ..*old(self) }),
    {
        self.put_property(PROPERTY_TAGS, tags);
    }

    pub fn get_tags(&self) -> (r: Option<&str>)
        ensures
            opt_ref(r) == prop(self.properties, PROPERTY_TAGS@),
    {
        self.get_property(PROPERTY_TAGS)
    }

    pub fn get_keys(&self) -> (r: Option<&str>)
        ensures
            opt_ref(r) == prop(self.properties, PROPERTY_KEYS@),
    {
        self.get_property(PROPERTY_KEYS)
    }
}

} // verus!

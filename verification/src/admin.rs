//! Topics, queries, locks and checks: what the instance asks of brokers, and what it makes of
//! the answers.
use vstd::prelude::*;

use crate::client::{blank_group_to_none, may_ask, MQClientInstance, RegisteredConsumer};
use crate::error::{error_text, is_client, Error};
use crate::message::{opt, opt_ref, MessageExt, MessageQueue, KEY_SEPARATOR, PROPERTY_KEYS};
use crate::message::prop;
use crate::names::{blank, DEFAULT_TOPIC};
use crate::protocol::{CreateTopicRequestHeader, QueryMessageRequestHeader, ResponseHead, UnregisterClientRequestHeader};
use crate::response_code;
use crate::route::{preferred_addr, BrokerData, TopicRouteData};
use crate::subscription::{SubscriptionData, TAG};
use crate::text::{pieces, same, split, texts};
use crate::wire::{check_response, is_broker};

verus! {

/// The filter of a topic that the library makes.
pub const SINGLE_TAG: &'static str = "SINGLE_TAG";

/// How often one broker is asked to make a topic.
pub const CREATE_TOPIC_ATTEMPTS: i32 = 5;

/// A request to make a topic.
pub fn create_topic_header(
    default_topic: &str,
    topic: &str,
    read_queue_nums: i32,
    write_queue_nums: i32,
    perm: i32,
    topic_sys_flag: i32,
    topic_filter_type: &str,
    order: bool,
    attributes: Option<&str>,
) -> (r: CreateTopicRequestHeader)
    ensures
        opt(r.topic) == Some(topic@),
        opt(r.default_topic) == Some(default_topic@),
        r.read_queue_nums == Some(read_queue_nums),
        r.write_queue_nums == Some(write_queue_nums),
        r.perm == Some(perm),
        r.topic_sys_flag == Some(topic_sys_flag),
        opt(r.topic_filter_type) == Some(topic_filter_type@),
        r.order == Some(order),
        opt(r.attributes) == Some(
            match attributes {
                Some(a) => a@,
                None => Seq::<char>::empty(),
            },
        ),
        r.force == Some(false),
{
    CreateTopicRequestHeader {
        topic: Some(topic.to_owned()),
        default_topic: Some(default_topic.to_owned()),
        read_queue_nums: Some(read_queue_nums),
        write_queue_nums: Some(write_queue_nums),
        perm: Some(perm),
        topic_filter_type: Some(topic_filter_type.to_owned()),
        topic_sys_flag: Some(topic_sys_flag),
        order: Some(order),
        attributes: Some(
            match attributes {
                Some(a) => a.to_owned(),
                None => String::new(),
            },
        ),
        force: Some(false),
    }
}

/// One broker's share in making a topic: the attempts that are left.
#[derive(Debug)]
pub struct TopicCreation {
    pub left: i32,
}

impl TopicCreation {
    /// At least one attempt is made.
    pub fn new(retry_times: i32) -> (r: TopicCreation)
        ensures
            r.left == if retry_times < 1 {
                1
            } else {
                retry_times
            },
    {
        TopicCreation {
            left: if retry_times < 1 {
                1
            } else {
                retry_times
            },
        }
    }

    /// Takes what came of an attempt; `None` asks for another. What a broker says is final;
    /// any other failure is, once no attempt is left.
    pub fn attempt(&mut self, got: Result<ResponseHead, Error>) -> (r: Option<Result<(), Error>>)
        requires
            old(self).left > 0,
        ensures
            final(self).left == old(self).left - 1,
            match got {
                Ok(head) => match r {
                    Some(Ok(_)) => head.code == response_code::SUCCESS,
                    Some(Err(e)) => head.code != response_code::SUCCESS && is_broker(e, head),
                    None => false,
                },
                Err(e) => if e is Broker || old(self).left == 1 {
                    r == Some(Err::<(), Error>(e))
                } else {
                    r is None
                },
            },
    {
        self.left = self.left - 1;
        match got {
            Ok(head) => Some(check_response(&head)),
            Err(e) => {
                let last = self.left == 0;
                match e {
                    Error::Broker { .. } => Some(Err(e)),
                    _ => if last {
                        Some(Err(e))
                    } else {
                        None
                    },
                }
            },
        }
    }
}

/// The address of a broker that `pick` falls on, where it is not empty.
pub open spec fn reachable(b: BrokerData, pick: usize) -> Option<Seq<char>> {
    match preferred_addr(b.broker_addrs@, pick) {
        Some(a) => if a.len() > 0 {
            Some(a)
        } else {
            None
        },
        None => None,
    }
}

/// The names and addresses of the brokers that can be reached, in order, with one of `picks`
/// for each.
pub open spec fn reachable_brokers(brokers: Seq<BrokerData>, picks: Seq<usize>) -> Seq<(Seq<char>, Seq<char>)>
    decreases brokers.len(),
{
    if brokers.len() == 0 {
        Seq::empty()
    } else {
        let rest = reachable_brokers(brokers.drop_last(), picks.drop_last());
        match reachable(brokers.last(), picks.last()) {
            Some(a) => rest.push((brokers.last().broker_name@, a)),
            None => rest,
        }
    }
}

/// Pairs of texts.
pub open spec fn pairs(v: Seq<(String, String)>) -> Seq<(Seq<char>, Seq<char>)> {
    Seq::new(v.len(), |i: int| (v[i].0@, v[i].1@))
}

/// The brokers of a route that are asked, each by name and address.
pub fn route_targets(route: &TopicRouteData) -> (r: Vec<(String, String)>)
    ensures
        exists|picks: Seq<usize>|
            picks.len() == route.broker_datas@.len() && pairs(r@) == #[trigger] reachable_brokers(
                route.broker_datas@,
                picks,
            ),
{
    let brokers = &route.broker_datas;
    let mut out: Vec<(String, String)> = Vec::new();
    let ghost mut picks: Seq<usize> = Seq::empty();
    let mut i: usize = 0;
    while i < brokers.len()
        invariant
            i <= brokers.len(),
            *brokers == route.broker_datas,
            picks.len() == i,
            pairs(out@) == reachable_brokers(brokers@.subrange(0, i as int), picks),
        decreases brokers.len() - i,
    {
        let ghost before = out@;
        assert(brokers@.subrange(0, i + 1).drop_last() =~= brokers@.subrange(0, i as int));
        assert(brokers@.subrange(0, i + 1).last() == brokers@[i as int]);
        let addr = brokers[i].select_broker_addr();
        proof {
            let a = opt(addr);
            let pick: usize = if a is Some {
                choose|pick: usize| #[trigger] preferred_addr(brokers@[i as int].broker_addrs@, pick) == a
            } else {
                0
            };
            assert(preferred_addr(brokers@[i as int].broker_addrs@, pick) == a);
            assert(picks.push(pick).drop_last() =~= picks);
            picks = picks.push(pick);
        }
        match addr {
            Some(a) => {
                if !a.as_str().is_empty() {
                    out.push((brokers[i].broker_name.clone(), a));
                    assert(pairs(out@) =~= pairs(before).push((brokers@[i as int].broker_name@, a@)));
                }
            },
            None => {},
        }
        i = i + 1;
    }
    assert(brokers@.subrange(0, i as int) =~= brokers@);
    out
}

/// The making of a topic on several brokers: one success is enough.
#[derive(Debug)]
pub struct RouteCreation {
    pub created: bool,
    pub last_exc: Option<String>,
}

impl RouteCreation {
    pub fn new() -> (r: RouteCreation)
        ensures
            !r.created,
            r.last_exc is None,
    {
        RouteCreation { created: false, last_exc: None }
    }

    /// Takes what came of one broker.
    pub fn note(&mut self, got: Result<(), Error>)
        ensures
            match got {
                Ok(_) => final(self).created && final(self).last_exc == old(self).last_exc,
                Err(e) => final(self).created == old(self).created && opt(final(self).last_exc) == Some(
                    error_text(e),
                ),
            },
    {
        match got {
            Ok(_) => {
                self.created = true;
            },
            Err(e) => {
                self.last_exc = Some(e.text());
            },
        }
    }

    /// It has failed where a broker failed and none succeeded.
    pub fn finish(self) -> (r: Result<(), Error>)
        ensures
            match r {
                Ok(_) => self.created || self.last_exc is None,
                Err(e) => !self.created && self.last_exc is Some && is_client(
                    e,
                    None,
                    "create new topic failed: "@ + opt(self.last_exc)->0,
                ),
            },
    {
        if self.created {
            return Ok(());
        }
        match self.last_exc {
            Some(cause) => Err(
                Error::client("create new topic failed: ".to_owned().concat(cause.as_str()).as_str()),
            ),
            None => Ok(()),
        }
    }
}

/// The failure to make a topic where the default topic has no route.
pub fn no_default_route() -> (r: Error)
    ensures
        is_client(r, None, "No route info of default topic "@ + DEFAULT_TOPIC@),
{
    Error::client("No route info of default topic ".to_owned().concat(DEFAULT_TOPIC).as_str())
}

/// The body of an answer, where the answer is a success and the body is not empty.
pub open spec fn usable(head: ResponseHead, body: Option<Vec<u8>>) -> Option<Vec<u8>> {
    match body {
        Some(b) => if head.code == response_code::SUCCESS && b@.len() > 0 {
            Some(b)
        } else {
            None
        },
        None => None,
    }
}

/// The body of an answer, where the answer is a success and the body is not empty.
pub fn usable_body(head: &ResponseHead, body: Option<Vec<u8>>) -> (r: Option<Vec<u8>>)
    ensures
        r == usable(*head, body),
{
    match body {
        Some(b) => if head.code == response_code::SUCCESS && b.len() > 0 {
            Some(b)
        } else {
            None
        },
        None => None,
    }
}

/// What name servers are asked, beside routes.
#[derive(Debug, Clone, Copy, PartialEq, Eq, Structural)]
pub enum NameServerQuestion {
    ClusterInfo,
    TopicList,
    DeleteTopic,
}

/// The failure of a question that no name server answered.
pub open spec fn unanswered(question: NameServerQuestion, topic: Seq<char>) -> Seq<char> {
    match question {
        NameServerQuestion::ClusterInfo => "Failed to get broker cluster info from name server"@,
        NameServerQuestion::TopicList => "Failed to get all topic list from name server"@,
        NameServerQuestion::DeleteTopic => "Failed to delete topic "@ + topic + " in name server"@,
    }
}

/// No name server gave a usable answer.
pub fn name_servers_failed(question: NameServerQuestion, topic: &str) -> (r: Error)
    ensures
        is_client(r, None, unanswered(question, topic@)),
{
    match question {
        NameServerQuestion::ClusterInfo => Error::client("Failed to get broker cluster info from name server"),
        NameServerQuestion::TopicList => Error::client("Failed to get all topic list from name server"),
        NameServerQuestion::DeleteTopic => Error::client(
            "Failed to delete topic ".to_owned().concat(topic).concat(" in name server").as_str(),
        ),
    }
}

/// A name server answered with a body that can be used, and `read` may give `t` for it.
pub open spec fn gave<T, F: Fn(&Vec<u8>) -> Result<T, Error>>(
    got: Result<(ResponseHead, Option<Vec<u8>>), Error>,
    read: F,
    t: T,
) -> bool {
    got matches Ok((head, body)) && usable(head, body) matches Some(b) && call_ensures(read, (&b,), Ok(t))
}

/// A name server was not reached, or answered with nothing that can be used, or `read` may fail
/// on its body.
pub open spec fn passed_over<T, F: Fn(&Vec<u8>) -> Result<T, Error>>(
    got: Result<(ResponseHead, Option<Vec<u8>>), Error>,
    read: F,
) -> bool {
    match got {
        Err(_) => true,
        Ok((head, body)) => match usable(head, body) {
            None => true,
            Some(b) => exists|e: Error| call_ensures(read, (&b,), Err::<T, Error>(e)),
        },
    }
}

/// A walk over the name servers with one question: they are asked in their order, until one
/// gives an answer.
#[derive(Debug)]
pub struct NameServerWalk {
    pub question: NameServerQuestion,
    /// The topic that the question is about, if it is about one.
    pub topic: String,
    pub addrs: Vec<String>,
    /// How many were asked already.
    pub asked: usize,
}

impl NameServerWalk {
    /// No more servers were asked than there are.
    pub open spec fn wf(&self) -> bool {
        self.asked <= self.addrs@.len()
    }

    pub fn new(question: NameServerQuestion, topic: &str, addrs: Vec<String>) -> (r: NameServerWalk)
        ensures
            r.wf(),
            r.question == question,
            r.topic@ == topic@,
            r.addrs == addrs,
            r.asked == 0,
    {
        NameServerWalk { question, topic: topic.to_owned(), addrs, asked: 0 }
    }

    /// The next server to ask; once all were asked, the question has failed.
    pub fn next_server(&mut self) -> (r: Result<String, Error>)
        requires
            old(self).wf(),
        ensures
            final(self).wf(),
            match r {
                Ok(a) => {
                    &&& old(self).asked < old(self).addrs@.len()
                    &&& a@ == old(self).addrs@[old(self).asked as int]@
                    &&& *final(self) == (NameServerWalk { asked: (old(self).asked + 1) as usize, ..*old(self) })
                },
                Err(e) => {
                    &&& old(self).asked == old(self).addrs@.len()
                    &&& is_client(e, None, unanswered(old(self).question, old(self).topic@))
                    &&& *final(self) == *old(self)
                },
            },
    {
        if self.asked < self.addrs.len() {
            let addr = self.addrs[self.asked].clone();
            self.asked = self.asked + 1;
            Ok(addr)
        } else {
            Err(name_servers_failed(self.question, self.topic.as_str()))
        }
    }
}

/// What one name server's answer to a question says, where its body can be used and read;
/// `None` where the next server is to be asked.
pub fn take_answer<T, F: Fn(&Vec<u8>) -> Result<T, Error>>(
    got: Result<(ResponseHead, Option<Vec<u8>>), Error>,
    read: F,
) -> (r: Option<T>)
    requires
        forall|b: Vec<u8>| #[trigger] call_requires(read, (&b,)),
    ensures
        match r {
            Some(t) => gave(got, read, t),
            None => passed_over::<T, F>(got, read),
        },
{
    match got {
        Ok((head, body)) => match usable_body(&head, body) {
            Some(b) => match read(&b) {
                Ok(t) => Some(t),
                Err(_) => None,
            },
            None => None,
        },
        Err(_) => None,
    }
}

/// Whether one name server did as it was told; where not, the next is to be told.
pub fn obeyed(got: &Result<ResponseHead, Error>) -> (r: bool)
    ensures
        r == (got matches Ok(head) && head.code == response_code::SUCCESS),
{
    match got {
        Ok(head) => check_response(head).is_ok(),
        Err(_) => false,
    }
}

/// The broker to ask for the members of a group; one must be given.
pub fn consumer_list_addr(addr: Option<&str>) -> (r: Result<String, Error>)
    ensures
        match addr {
            Some(a) => r matches Ok(s) && s@ == a@,
            None => r matches Err(e) && is_client(e, None, "broker addr required for get consumer list"@),
        },
{
    match addr {
        Some(a) => Ok(a.to_owned()),
        None => Err(Error::client("broker addr required for get consumer list")),
    }
}

/// The members of a group that a broker named. None are known where it did not answer with a
/// success, or where `listed`, what its body could be read as, is nothing.
pub fn named_members(head: &ResponseHead, listed: Option<Vec<String>>) -> (r: Option<Vec<String>>)
    ensures
        r == if head.code == response_code::SUCCESS {
            listed
        } else {
            None
        },
{
    if head.code == response_code::SUCCESS {
        listed
    } else {
        None
    }
}

/// A request to forget a client. A blank group does not travel.
pub fn unregister_header(client_id: &str, producer_group: &str, consumer_group: &str) -> (r: UnregisterClientRequestHeader)
    ensures
        opt(r.client_id) == Some(client_id@),
        opt(r.producer_group) == if blank(producer_group@) {
            None
        } else {
            Some(producer_group@)
        },
        opt(r.consumer_group) == if blank(consumer_group@) {
            None
        } else {
            Some(consumer_group@)
        },
{
    UnregisterClientRequestHeader {
        client_id: Some(client_id.to_owned()),
        producer_group: blank_group_to_none(producer_group),
        consumer_group: blank_group_to_none(consumer_group),
    }
}

/// A field that travels, where it is there.
pub open spec fn field(name: Seq<char>, value: Option<String>) -> Seq<(Seq<char>, Seq<char>)> {
    match value {
        Some(v) => seq![(name, v@)],
        None => Seq::empty(),
    }
}

fn push_field(out: &mut Vec<(String, String)>, name: &str, value: &Option<String>)
    ensures
        pairs(final(out)@) == pairs(old(out)@) + field(name@, *value),
{
    if let Some(v) = value {
        out.push((name.to_owned(), v.clone()));
    }
    assert(pairs(out@) =~= pairs(old(out)@) + field(name@, *value));
}

/// The fields of a request to forget a client, as they travel: what is absent does not.
pub fn unregister_fields(header: &UnregisterClientRequestHeader) -> (r: Vec<(String, String)>)
    ensures
        pairs(r@) == field("clientID"@, header.client_id) + field("producerGroup"@, header.producer_group) + field(
            "consumerGroup"@,
            header.consumer_group,
        ),
{
    let mut out: Vec<(String, String)> = Vec::new();
    assert(pairs(out@) =~= Seq::<(Seq<char>, Seq<char>)>::empty());
    push_field(&mut out, "clientID", &header.client_id);
    assert(pairs(out@) =~= field("clientID"@, header.client_id));
    push_field(&mut out, "producerGroup", &header.producer_group);
    push_field(&mut out, "consumerGroup", &header.consumer_group);
    out
}

/// A question for messages by key.
pub fn query_header(
    topic: &str,
    key: &str,
    max_num: i32,
    begin_timestamp: i64,
    end_timestamp: i64,
    index_type: Option<&str>,
) -> (r: QueryMessageRequestHeader)
    ensures
        opt(r.topic) == Some(topic@),
        opt(r.key) == Some(key@),
        r.max_num == Some(max_num),
        r.begin_timestamp == Some(begin_timestamp),
        r.end_timestamp == Some(end_timestamp),
        opt(r.index_type) == opt_ref(index_type),
{
    QueryMessageRequestHeader {
        topic: Some(topic.to_owned()),
        key: Some(key.to_owned()),
        max_num: Some(max_num),
        begin_timestamp: Some(begin_timestamp),
        end_timestamp: Some(end_timestamp),
        index_type: match index_type {
            Some(t) => Some(t.to_owned()),
            None => None,
        },
    }
}

/// What an answer to such a question means: that nothing was found is a fine answer.
pub fn query_answer(head: &ResponseHead, body: Option<Vec<u8>>) -> (r: Result<Option<Vec<u8>>, Error>)
    ensures
        match r {
            Ok(b) => (head.code == response_code::QUERY_NOT_FOUND && b is None) || (head.code
                == response_code::SUCCESS && b == body),
            Err(e) => head.code != response_code::QUERY_NOT_FOUND && head.code != response_code::SUCCESS
                && is_broker(e, *head),
        },
{
    if head.code == response_code::QUERY_NOT_FOUND {
        return Ok(None);
    }
    match check_response(head) {
        Ok(_) => Ok(body),
        Err(e) => Err(e),
    }
}

/// The keys of a message.
pub open spec fn keys_of(m: MessageExt) -> Seq<char> {
    match prop(m.properties, PROPERTY_KEYS@) {
        Some(k) => k,
        None => Seq::empty(),
    }
}

/// Whether a message is what was asked for: by its id, or by one of its keys and its topic.
pub open spec fn answers(m: MessageExt, topic: Seq<char>, key: Seq<char>, uniq_key: bool) -> bool {
    if uniq_key {
        opt(m.msg_id) == Some(key)
    } else {
        &&& keys_of(m).len() > 0
        &&& pieces(keys_of(m), KEY_SEPARATOR@).contains(key)
        &&& m.topic@ == topic
    }
}

/// Whether a message is what was asked for.
pub fn is_answer(m: &MessageExt, topic: &str, key: &str, uniq_key: bool) -> (r: bool)
    ensures
        r == answers(*m, topic@, key@, uniq_key),
{
    if uniq_key {
        return match &m.msg_id {
            Some(id) => same(id.as_str(), key),
            None => false,
        };
    }
    let keys: String = match m.get_keys() {
        Some(k) => k.to_owned(),
        None => String::new(),
    };
    if keys.as_str().is_empty() || !same(m.topic.as_str(), topic) {
        return false;
    }
    let parts = split(keys.as_str(), KEY_SEPARATOR);
    let hit = crate::subscription::has_text(&parts, key);
    assert(texts(parts@) == pieces(keys@, KEY_SEPARATOR@));
    hit
}

/// The messages of one broker that were asked for, with the broker's name on them.
pub open spec fn answered(
    found: Seq<MessageExt>,
    broker: String,
    topic: Seq<char>,
    key: Seq<char>,
    uniq_key: bool,
) -> Seq<MessageExt>
    decreases found.len(),
{
    if found.len() == 0 {
        Seq::empty()
    } else {
        let rest = answered(found.drop_last(), broker, topic, key, uniq_key);
        if answers(found.last(), topic, key, uniq_key) {
            rest.push(MessageExt { broker_name: Some(broker), ..found.last() })
        } else {
            rest
        }
    }
}

/// Adds one broker's messages to what was found so far.
pub fn gather(
    messages: &mut Vec<MessageExt>,
    found: Vec<MessageExt>,
    broker_name: &String,
    topic: &str,
    key: &str,
    uniq_key: bool,
)
    ensures
        final(messages)@ == old(messages)@ + answered(found@, *broker_name, topic@, key@, uniq_key),
{
    let ghost all = found@;
    let ghost start = messages@;
    let mut rest = found;
    let mut back: Vec<MessageExt> = Vec::new();
    while rest.len() > 0
        invariant
            rest@.len() + back@.len() == all.len(),
            rest@ == all.subrange(0, rest@.len() as int),
            forall|i: int| 0 <= i < back@.len() ==> #[trigger] back@[i] == all[all.len() - 1 - i],
        decreases rest.len(),
    {
        let m = rest.pop();
        match m {
            Some(v) => back.push(v),
            None => {},
        }
    }
    let ghost mut done: int = 0;
    assert(all.subrange(0, 0) =~= Seq::<MessageExt>::empty());
    while back.len() > 0
        invariant
            0 <= done <= all.len(),
            back@.len() == all.len() - done,
            forall|i: int| 0 <= i < back@.len() ==> #[trigger] back@[i] == all[all.len() - 1 - i],
            messages@ == start + answered(all.subrange(0, done), *broker_name, topic@, key@, uniq_key),
        decreases back.len(),
    {
        let m = back.pop();
        match m {
            Some(v) => {
                assert(v == all[done]);
                assert(all.subrange(0, done + 1).drop_last() =~= all.subrange(0, done));
                assert(all.subrange(0, done + 1).last() == v);
                let hit = is_answer(&v, topic, key, uniq_key);
                let mut named = v;
                named.broker_name = Some(broker_name.clone());
                if hit {
                    messages.push(named);
                }
                proof {
                    assert(messages@ =~= start + answered(
                        all.subrange(0, done + 1),
                        *broker_name,
                        topic@,
                        key@,
                        uniq_key,
                    ));
                    done = done + 1;
                }
            },
            None => {},
        }
    }
    assert(all.subrange(0, done) =~= all);
}

/// The place of a message among others in order: behind all that are not after it.
pub open spec fn offset_place(sorted: Seq<MessageExt>, offset: i64) -> int
    decreases sorted.len(),
{
    if sorted.len() == 0 {
        0
    } else if sorted.last().queue_offset > offset {
        offset_place(sorted.drop_last(), offset)
    } else {
        sorted.len() as int
    }
}

/// The messages by their offsets; those with one offset stay in order.
pub open spec fn by_offset(msgs: Seq<MessageExt>) -> Seq<MessageExt>
    decreases msgs.len(),
{
    if msgs.len() == 0 {
        Seq::empty()
    } else {
        let rest = by_offset(msgs.drop_last());
        rest.insert(offset_place(rest, msgs.last().queue_offset), msgs.last())
    }
}

/// In the order of their offsets.
pub open spec fn offsets_ascend(msgs: Seq<MessageExt>) -> bool {
    forall|i: int, j: int| 0 <= i <= j < msgs.len() ==> (#[trigger] msgs[i]).queue_offset <= (#[trigger] msgs[j]).queue_offset
}

proof fn lemma_offset_place(sorted: Seq<MessageExt>, offset: i64)
    requires
        offsets_ascend(sorted),
    ensures
        0 <= offset_place(sorted, offset) <= sorted.len(),
        forall|i: int| 0 <= i < offset_place(sorted, offset) ==> (#[trigger] sorted[i]).queue_offset <= offset,
        forall|i: int| offset_place(sorted, offset) <= i < sorted.len() ==> (#[trigger] sorted[i]).queue_offset > offset,
    decreases sorted.len(),
{
    if sorted.len() > 0 && sorted.last().queue_offset > offset {
        let rest = sorted.drop_last();
        assert forall|i: int, j: int| 0 <= i <= j < rest.len() implies (#[trigger] rest[i]).queue_offset <= (
        #[trigger] rest[j]).queue_offset by {
            assert(rest[i] == sorted[i] && rest[j] == sorted[j]);
        }
        lemma_offset_place(rest, offset);
        assert forall|i: int| 0 <= i < offset_place(sorted, offset) implies (#[trigger] sorted[i]).queue_offset
            <= offset by {
            assert(rest[i] == sorted[i]);
        }
        assert forall|i: int| offset_place(sorted, offset) <= i < sorted.len() implies (#[trigger] sorted[i]).queue_offset
            > offset by {
            if i < rest.len() {
                assert(rest[i] == sorted[i]);
            }
        }
    }
}

/// Sorting puts messages in the order of their offsets and loses none.
pub proof fn law_query_sorted(msgs: Seq<MessageExt>)
    ensures
        offsets_ascend(by_offset(msgs)),
        by_offset(msgs).len() == msgs.len(),
        by_offset(msgs).to_multiset() == msgs.to_multiset(),
    decreases msgs.len(),
{
    if msgs.len() > 0 {
        let front = msgs.drop_last();
        let m = msgs.last();
        law_query_sorted(front);
        let rest = by_offset(front);
        let p = offset_place(rest, m.queue_offset);
        lemma_offset_place(rest, m.queue_offset);
        let out = rest.insert(p, m);
        assert forall|i: int, j: int| 0 <= i <= j < out.len() implies (#[trigger] out[i]).queue_offset <= (
        #[trigger] out[j]).queue_offset by {
            let a = if i < p {
                rest[i]
            } else if i == p {
                m
            } else {
                rest[i - 1]
            };
            let b = if j < p {
                rest[j]
            } else if j == p {
                m
            } else {
                rest[j - 1]
            };
            assert(out[i] == a && out[j] == b);
        }
        broadcast use vstd::seq_lib::group_to_multiset_ensures;

        assert(out.to_multiset() =~= rest.to_multiset().insert(m));
        assert(msgs =~= front.push(m));
        assert(msgs.to_multiset() =~= front.to_multiset().insert(m));
    } else {
        assert(by_offset(msgs) =~= msgs);
    }
}

/// Messages with that offset.
pub open spec fn at_offset(offset: i64) -> spec_fn(MessageExt) -> bool {
    |m: MessageExt| m.queue_offset == offset
}

/// Messages with one offset stay in the order in which they were found.
pub proof fn law_query_stable(msgs: Seq<MessageExt>, offset: i64)
    ensures
        by_offset(msgs).filter(at_offset(offset)) == msgs.filter(at_offset(offset)),
    decreases msgs.len(),
{
    let p = at_offset(offset);
    reveal(Seq::filter);
    if msgs.len() > 0 {
        let front = msgs.drop_last();
        let m = msgs.last();
        law_query_stable(front, offset);
        law_query_sorted(front);
        let rest = by_offset(front);
        let k = offset_place(rest, m.queue_offset);
        lemma_offset_place(rest, m.queue_offset);
        let head = rest.subrange(0, k);
        let tail = rest.subrange(k, rest.len() as int);
        assert(rest =~= head + tail);
        assert(rest.insert(k, m) =~= head.push(m) + tail);
        Seq::filter_distributes_over_add(head, tail, p);
        Seq::filter_distributes_over_add(head.push(m), tail, p);
        assert(head.push(m).drop_last() =~= head);
        if m.queue_offset == offset {
            assert forall|i: int| 0 <= i < tail.len() implies !p(#[trigger] tail[i]) by {
                assert(tail[i] == rest[k + i]);
            }
            tail.lemma_all_neg_filter_empty(p);
            assert(head.push(m).filter(p) == head.filter(p).push(m));
            assert(rest.filter(p) =~= head.filter(p));
            assert(by_offset(msgs).filter(p) =~= rest.filter(p).push(m));
        } else {
            assert(head.push(m).filter(p) == head.filter(p));
        }
    } else {
        assert(by_offset(msgs) =~= msgs);
    }
}

/// Sorts messages by their offsets.
pub fn sort_by_offset(msgs: Vec<MessageExt>) -> (r: Vec<MessageExt>)
    ensures
        r@ == by_offset(msgs@),
{
    let ghost all = msgs@;
    let mut rest = msgs;
    let mut out: Vec<MessageExt> = Vec::new();
    let ghost mut done: int = 0;
    assert(all.subrange(0, 0) =~= Seq::<MessageExt>::empty());
    while rest.len() > 0
        invariant
            0 <= done <= all.len(),
            rest@ == all.subrange(done, all.len() as int),
            out@ == by_offset(all.subrange(0, done)),
        decreases rest.len(),
    {
        let ghost seen = all.subrange(0, done);
        let m = rest.remove(0);
        assert(m == all[done]);
        assert(all.subrange(0, done + 1).drop_last() =~= seen);
        assert(all.subrange(0, done + 1).last() == m);
        let mut place: usize = out.len();
        assert(out@.subrange(0, place as int) =~= out@);
        while place > 0 && out[place - 1].queue_offset > m.queue_offset
            invariant
                place <= out@.len(),
                offset_place(out@, m.queue_offset) == offset_place(
                    out@.subrange(0, place as int),
                    m.queue_offset,
                ),
            decreases place,
        {
            assert(out@.subrange(0, place as int).drop_last() =~= out@.subrange(0, place - 1));
            assert(out@.subrange(0, place as int).last() == out@[place - 1]);
            place = place - 1;
        }
        proof {
            if place > 0 {
                assert(out@.subrange(0, place as int).last() == out@[place - 1]);
            }
            assert(offset_place(out@, m.queue_offset) == place);
        }
        out.insert(place, m);
        proof {
            done = done + 1;
        }
        assert(rest@ =~= all.subrange(done, all.len() as int));
    }
    assert(all.subrange(0, done) =~= all);
    out
}

/// What a query over all brokers gives: the messages by their offsets, no more than asked for.
pub fn query_result(messages: Vec<MessageExt>, max_num: i32) -> (r: Vec<MessageExt>)
    ensures
        r@ == if max_num > 0 && messages@.len() > max_num {
            by_offset(messages@).subrange(0, max_num as int)
        } else {
            by_offset(messages@)
        },
{
    proof {
        law_query_sorted(messages@);
    }
    let mut out = sort_by_offset(messages);
    if max_num > 0 && out.len() > max_num as usize {
        out.truncate(max_num as usize);
    }
    out
}

/// The queues of one broker, in order.
pub open spec fn on_broker(mqs: Seq<MessageQueue>, broker: Seq<char>) -> Seq<MessageQueue>
    decreases mqs.len(),
{
    if mqs.len() == 0 {
        Seq::empty()
    } else {
        let rest = on_broker(mqs.drop_last(), broker);
        if mqs.last().broker_name@ == broker {
            rest.push(mqs.last())
        } else {
            rest
        }
    }
}

/// The brokers of queues, each once, as they first occur.
pub open spec fn brokers_of(mqs: Seq<MessageQueue>) -> Seq<Seq<char>>
    decreases mqs.len(),
{
    if mqs.len() == 0 {
        Seq::empty()
    } else {
        let rest = brokers_of(mqs.drop_last());
        if rest.contains(mqs.last().broker_name@) {
            rest
        } else {
            rest.push(mqs.last().broker_name@)
        }
    }
}

/// The names of groups.
pub open spec fn group_names(groups: Seq<(String, Vec<MessageQueue>)>) -> Seq<Seq<char>> {
    Seq::new(groups.len(), |i: int| groups[i].0@)
}

proof fn lemma_brokers_of(mqs: Seq<MessageQueue>, b: Seq<char>)
    ensures
        brokers_of(mqs).contains(b) <==> exists|i: int| 0 <= i < mqs.len() && (#[trigger] mqs[i]).broker_name@ == b,
        brokers_of(mqs).no_duplicates(),
        !brokers_of(mqs).contains(b) ==> on_broker(mqs, b).len() == 0,
    decreases mqs.len(),
{
    if mqs.len() > 0 {
        let front = mqs.drop_last();
        let last = mqs.last().broker_name@;
        lemma_brokers_of(front, b);
        lemma_brokers_of(front, last);
        let rest = brokers_of(front);
        if brokers_of(mqs).contains(b) {
            let k = brokers_of(mqs).index_of(b);
            if k < rest.len() {
                assert(rest[k] == b);
                let i = choose|i: int| 0 <= i < front.len() && (#[trigger] front[i]).broker_name@ == b;
                assert(mqs[i].broker_name@ == b);
            } else {
                assert(mqs[mqs.len() - 1].broker_name@ == b);
            }
        }
        if exists|i: int| 0 <= i < mqs.len() && (#[trigger] mqs[i]).broker_name@ == b {
            let i = choose|i: int| 0 <= i < mqs.len() && (#[trigger] mqs[i]).broker_name@ == b;
            if i < front.len() {
                assert(front[i].broker_name@ == b);
                let k = rest.index_of(b);
                assert(brokers_of(mqs)[k] == b);
            } else {
                if !rest.contains(last) {
                    assert(brokers_of(mqs)[rest.len() as int] == b);
                }
            }
        }
    }
}

/// Every queue is in the group of its broker, and in no other.
pub proof fn law_groups_part_the_queues(mqs: Seq<MessageQueue>, q: MessageQueue)
    ensures
        brokers_of(mqs).no_duplicates(),
        mqs.contains(q) ==> brokers_of(mqs).contains(q.broker_name@),
        forall|b: Seq<char>| #[trigger]
            on_broker(mqs, b).contains(q) <==> mqs.contains(q) && q.broker_name@ == b,
{
    lemma_brokers_of(mqs, q.broker_name@);
    if mqs.contains(q) {
        let i = mqs.index_of(q);
        assert(mqs[i].broker_name@ == q.broker_name@);
    }
    assert forall|b: Seq<char>| #[trigger] on_broker(mqs, b).contains(q) <==> mqs.contains(q)
        && q.broker_name@ == b by {
        lemma_on_broker(mqs, b, q);
    }
}

proof fn lemma_on_broker(mqs: Seq<MessageQueue>, b: Seq<char>, q: MessageQueue)
    ensures
        on_broker(mqs, b).contains(q) <==> mqs.contains(q) && q.broker_name@ == b,
    decreases mqs.len(),
{
    if mqs.len() > 0 {
        let front = mqs.drop_last();
        lemma_on_broker(front, b, q);
        let rest = on_broker(front, b);
        let out = on_broker(mqs, b);
        if out.contains(q) {
            let k = out.index_of(q);
            if k < rest.len() {
                assert(rest[k] == q);
                assert(mqs[front.index_of(q)] == q);
            } else {
                assert(mqs[mqs.len() - 1] == q);
            }
        }
        if mqs.contains(q) && q.broker_name@ == b {
            let i = mqs.index_of(q);
            if i < front.len() {
                assert(front[i] == q);
                assert(out[rest.index_of(q)] == q);
            } else {
                assert(out[rest.len() as int] == q);
            }
        }
    }
}

/// Sorts queues by their brokers; brokers come as they first occur.
pub fn group_by_broker(mqs: &[MessageQueue]) -> (r: Vec<(String, Vec<MessageQueue>)>)
    ensures
        group_names(r@) == brokers_of(mqs@),
        forall|i: int| 0 <= i < r@.len() ==> (#[trigger] r@[i]).1@ == on_broker(mqs@, r@[i].0@),
{
    let mut out: Vec<(String, Vec<MessageQueue>)> = Vec::new();
    let mut i: usize = 0;
    assert(mqs@.subrange(0, 0) =~= Seq::<MessageQueue>::empty());
    assert(group_names(out@) =~= Seq::<Seq<char>>::empty());
    while i < mqs.len()
        invariant
            i <= mqs@.len(),
            group_names(out@) == brokers_of(mqs@.subrange(0, i as int)),
            forall|k: int|
                0 <= k < out@.len() ==> (#[trigger] out@[k]).1@ == on_broker(
                    mqs@.subrange(0, i as int),
                    out@[k].0@,
                ),
        decreases mqs@.len() - i,
    {
        let mq = mqs[i].clone();
        let ghost before = mqs@.subrange(0, i as int);
        let ghost now = mqs@.subrange(0, i + 1);
        let ghost was = out@;
        assert(now.drop_last() =~= before);
        assert(now.last() == mq);
        let mut j: usize = 0;
        while j < out.len() && out[j].0 != mq.broker_name
            invariant
                j <= out@.len(),
                out@ == was,
                forall|k: int| 0 <= k < j ==> (#[trigger] out@[k]).0@ != mq.broker_name@,
            decreases out@.len() - j,
        {
            j = j + 1;
        }
        proof {
            lemma_brokers_of(before, mq.broker_name@);
        }
        if j < out.len() {
            proof {
                assert(group_names(was)[j as int] == mq.broker_name@);
                assert(brokers_of(before).contains(mq.broker_name@));
            }
            let group = &mut out[j];
            group.1.push(mq);
            proof {
                assert(group_names(out@) =~= group_names(was));
                assert forall|k: int| 0 <= k < out@.len() implies (#[trigger] out@[k]).1@ == on_broker(
                    now,
                    out@[k].0@,
                ) by {
                    assert(was[k].1@ == on_broker(before, was[k].0@));
                    if k != j {
                        assert(group_names(was)[k] != group_names(was)[j as int]);
                    }
                }
            }
        } else {
            proof {
                if brokers_of(before).contains(mq.broker_name@) {
                    let k = group_names(was).index_of(mq.broker_name@);
                    assert(was[k].0@ == mq.broker_name@);
                }
            }
            let name = mq.broker_name.clone();
            let mut list: Vec<MessageQueue> = Vec::new();
            list.push(mq);
            out.push((name, list));
            proof {
                assert(group_names(out@) =~= group_names(was).push(mq.broker_name@));
                assert(on_broker(now, mq.broker_name@) =~= seq![mq]);
                assert forall|k: int| 0 <= k < out@.len() implies (#[trigger] out@[k]).1@ == on_broker(
                    now,
                    out@[k].0@,
                ) by {
                    if k < was.len() {
                        assert(was[k].1@ == on_broker(before, was[k].0@));
                        assert(was[k].0@ != mq.broker_name@);
                    }
                }
            }
        }
        i = i + 1;
    }
    assert(mqs@.subrange(0, i as int) =~= mqs@);
    out
}

/// What a broker says of a subscription: anything but success is a failure with its code.
pub fn config_answer(head: &ResponseHead) -> (r: Result<(), Error>)
    ensures
        match r {
            Ok(_) => head.code == response_code::SUCCESS,
            Err(e) => head.code != response_code::SUCCESS && is_client(
                e,
                Some(head.code),
                match head.remark {
                    Some(t) => t@,
                    None => Seq::empty(),
                },
            ),
        },
{
    if head.code == response_code::SUCCESS {
        return Ok(());
    }
    let remark = crate::message::or_empty(&head.remark);
    Err(Error::client_with_code(head.code, remark.as_str()))
}

/// Whether brokers are asked about a subscription: not where it goes by tags.
pub open spec fn is_checked(sub: SubscriptionData) -> bool {
    sub.expression_type@.len() > 0 && sub.expression_type@ != TAG@
}

pub open spec fn check_failed_text(kind: Seq<char>) -> Seq<char> {
    "Check client in broker error, maybe because you use "@ + kind
        + " to filter message, but server has not been upgraded to support!This error would not affect the launch of consumer, but may has impact on message receiving if you have use the new features which are not supported by server, please check the log!"@
}

/// What a failed check is reported as: what a broker said is handed on, a failure on the way
/// gets a text of its own.
pub fn check_failure(e: Error, sub: &SubscriptionData) -> (r: Error)
    ensures
        if e is Client {
            r == e
        } else {
            is_client(r, None, check_failed_text(sub.expression_type@))
        },
{
    match e {
        Error::Client { .. } => e,
        _ => Error::client(
            "Check client in broker error, maybe because you use ".to_owned().concat(
                sub.expression_type.as_str(),
            ).concat(
                " to filter message, but server has not been upgraded to support!This error would not affect the launch of consumer, but may has impact on message receiving if you have use the new features which are not supported by server, please check the log!",
            ).as_str(),
        ),
    }
}

impl<C> MQClientInstance<C> {
    /// Whom to ask about a subscription: the address to use of the `pick`-th broker of its
    /// topic. `None` where it is not checked, or where no such broker is known.
    pub fn check_target(&self, sub: &SubscriptionData, pick: usize) -> (r: Option<String>)
        ensures
            if is_checked(*sub) {
                may_ask(*self, sub.topic@, pick, opt(r))
            } else {
                r is None
            },
    {
        if sub.expression_type.as_str().is_empty() || same(sub.expression_type.as_str(), TAG) {
            return None;
        }
        self.find_broker_addr_by_topic(sub.topic.as_str(), pick)
    }

    /// How many brokers the known route of a topic has.
    pub fn broker_count(&self, topic: &str) -> (r: usize)
        ensures
            r == if self.topic_route_table@.dom().contains(topic@) {
                self.topic_route_table@[topic@].broker_datas@.len()
            } else {
                0
            },
    {
        match self.route_of(topic) {
            Some(rt) => rt.broker_datas.len(),
            None => 0,
        }
    }
}

impl<C: RegisteredConsumer> MQClientInstance<C> {
    /// The consumers whose subscriptions are checked, by group. The first that has no
    /// subscription ends the list.
    pub fn consumers_to_check(&self) -> (r: Vec<(String, Vec<SubscriptionData>)>)
        ensures
            r@.len() <= self.consumer_table.order().len(),
            forall|i: int|
                0 <= i < r@.len() ==> {
                    &&& (#[trigger] r@[i]).0@ == self.consumer_table.order()[i]
                    &&& r@[i].1@.len() > 0
                    &&& call_ensures(C::subscriptions, (&self.consumer_table.values()[i],), r@[i].1)
                },
            r@.len() < self.consumer_table.order().len() ==> exists|none: Vec<SubscriptionData>|
                none@.len() == 0 && #[trigger] call_ensures(
                    C::subscriptions,
                    (&self.consumer_table.values()[r@.len() as int],),
                    none,
                ),
    {
        let n = self.consumer_table.len();
        let mut out: Vec<(String, Vec<SubscriptionData>)> = Vec::new();
        let mut i: usize = 0;
        while i < n
            invariant
                i <= n == self.consumer_table.order().len(),
                self.consumer_table.listed(),
                out@.len() == i,
                forall|k: int|
                    0 <= k < i ==> {
                        &&& (#[trigger] out@[k]).0@ == self.consumer_table.order()[k]
                        &&& out@[k].1@.len() > 0
                        &&& call_ensures(C::subscriptions, (&self.consumer_table.values()[k],), out@[k].1)
                    },
            decreases n - i,
        {
            let subs = self.consumer_table.value_at(i).subscriptions();
            if subs.len() == 0 {
                return out;
            }
            out.push((self.consumer_table.key_at(i).clone(), subs));
            i = i + 1;
        }
        out
    }
}

/// What a query over all brokers gives is in the order of the offsets, is no more than was asked
/// for, and is all that was found where that is no more.
pub proof fn law_query_gives_what_was_found(messages: Vec<MessageExt>, max_num: i32, r: Vec<MessageExt>, i: int, j: int)
    requires
        call_ensures(query_result, (messages, max_num), r),
    ensures
        0 <= i <= j < r@.len() ==> r@[i].queue_offset <= r@[j].queue_offset,
        max_num > 0 ==> r@.len() <= max_num,
        max_num <= 0 || messages@.len() <= max_num ==> r@.to_multiset() == messages@.to_multiset(),
        max_num > 0 && messages@.len() > max_num ==> r@.len() == max_num,
{
    law_query_sorted(messages@);
    let all = by_offset(messages@);
    if 0 <= i <= j < r@.len() {
        assert(r@[i] == all[i] && r@[j] == all[j]);
    }
}

/// That nothing was found is an answer to a query, with nothing; a success is its body; any other
/// code is the broker's failure.
pub proof fn law_query_answer_by_its_code(head: &ResponseHead, body: Option<Vec<u8>>, r: Result<Option<Vec<u8>>, Error>)
    requires
        call_ensures(query_answer, (head, body), r),
    ensures
        head.code == 22 ==> r == Ok::<Option<Vec<u8>>, Error>(None),
        head.code == 0 ==> r == Ok::<Option<Vec<u8>>, Error>(body),
        head.code != 0 && head.code != 22 ==> (r matches Err(Error::Broker { response_code, message }) && response_code
            == head.code),
{
}

/// What a broker says of a new topic is final; any other failure asks for another attempt, as long
/// as one is left. At least one attempt is made.
pub proof fn law_topic_is_made_by_attempts(
    times: i32,
    fresh: TopicCreation,
    c: &mut TopicCreation,
    got: Result<ResponseHead, Error>,
    r: Option<Result<(), Error>>,
)
    requires
        call_ensures(TopicCreation::new, (times,), fresh),
        old(c).left > 0,
        call_ensures(TopicCreation::attempt, (c, got), r),
    ensures
        fresh.left >= 1 && (times >= 1 ==> fresh.left == times),
        final(c).left == old(c).left - 1,
        got matches Ok(h) ==> r is Some && (r->0 is Ok <==> h.code == 0),
        got matches Err(e) ==> (r is None <==> !(e is Broker) && old(c).left > 1) && (r is Some ==> r == Some(
            Err::<(), Error>(e),
        )),
{
}

/// A topic that one broker made is made; where none did and one failed, the making has failed.
pub proof fn law_one_broker_makes_the_topic(run: &mut RouteCreation, got: Result<(), Error>, r: Result<(), Error>)
    requires
        call_ensures(RouteCreation::note, (run, got), ()),
        call_ensures(RouteCreation::finish, (*final(run),), r),
    ensures
        old(run).created || got is Ok ==> final(run).created && r is Ok,
        !old(run).created && got is Err ==> r is Err && r->Err_0 is Client,
{
}

/// Every queue stands in exactly one group, that of its broker, and each broker has one group.
pub proof fn law_queues_are_grouped_by_broker(
    mqs: &[MessageQueue],
    r: Vec<(String, Vec<MessageQueue>)>,
    q: MessageQueue,
    i: int,
    j: int,
)
    requires
        call_ensures(group_by_broker, (mqs,), r),
    ensures
        0 <= i < j < r@.len() ==> r@[i].0@ != r@[j].0@,
        0 <= i < r@.len() ==> (r@[i].1@.contains(q) <==> mqs@.contains(q) && q.broker_name@ == r@[i].0@),
        mqs@.contains(q) ==> exists|k: int| 0 <= k < r@.len() && (#[trigger] r@[k]).0@ == q.broker_name@,
{
    law_groups_part_the_queues(mqs@, q);
    let names = group_names(r@);
    if 0 <= i < j < r@.len() {
        assert(names[i] != names[j]);
    }
    if 0 <= i < r@.len() {
        assert(r@[i].1@ == on_broker(mqs@, r@[i].0@));
    }
    if mqs@.contains(q) {
        let k = names.index_of(q.broker_name@);
        assert(r@[k].0@ == names[k]);
    }
}

/// The members of a group are known only from a broker's success.
pub proof fn law_members_are_named_by_a_success(head: &ResponseHead, listed: Option<Vec<String>>, r: Option<Vec<String>>)
    requires
        call_ensures(named_members, (head, listed), r),
    ensures
        head.code == 0 ==> r == listed,
        head.code != 0 ==> r is None,
{
}

} // verus!

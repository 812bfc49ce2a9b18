//! The queues that messages of a topic go to, and the choice among them.
use vstd::prelude::*;

use crate::error::{is_client, Error};
use crate::json::{
    bool_value, int_value, json_bool, json_int, json_items, json_members, json_text, list_value, members,
    object_value, text_value,
};
use crate::message::{copy_queues, opt_ref, queues, Message, MessageBatch, MessageQueue, QueueView};
use crate::route::{all_queues, same_route, TopicRouteData};
use crate::text::same;

verus! {

/// Where the cursor `index` stands in a ring of `len` places.
pub open spec fn ring(index: int, len: int) -> int {
    index % len
}

/// The cursor after one step; it wraps round at the end of its range.
pub open spec fn next_index(index: i64) -> i64 {
    if index == i64::MAX {
        i64::MIN
    } else {
        (index + 1) as i64
    }
}

/// The cursor after `k` steps.
pub open spec fn advanced(index: i64, k: nat) -> i64
    decreases k,
{
    if k == 0 {
        index
    } else {
        next_index(advanced(index, (k - 1) as nat))
    }
}

/// The place in a ring of `len` that a cursor stands for.
pub fn ring_index(index: i64, len: usize) -> (r: usize)
    requires
        len > 0,
    ensures
        r == ring(index as int, len as int),
        r < len,
{
    let r: i128 = (index as i128).checked_rem_euclid(len as i128).unwrap();
    r as usize
}

/// Short of the end of its range, a cursor counts its steps.
proof fn lemma_advanced(index: i64, k: nat)
    requires
        index + k <= i64::MAX,
    ensures
        advanced(index, k) == index + k,
    decreases k,
{
    if k > 0 {
        lemma_advanced(index, (k - 1) as nat);
    }
}

/// The steps of one round lead to a different place of the ring each: a round of `n` steps
/// comes by all `n` places. (A cursor that wraps round within the round is left out.)
pub proof fn law_ring_visits_each_place_once(index: i64, n: nat, a: nat, b: nat)
    requires
        a < b < n,
        index + n <= i64::MAX,
    ensures
        0 <= ring(advanced(index, a) as int, n as int) < n,
        0 <= ring(advanced(index, b) as int, n as int) < n,
        ring(advanced(index, a) as int, n as int) != ring(advanced(index, b) as int, n as int),
{
    lemma_advanced(index, a);
    lemma_advanced(index, b);
    lemma_ring_apart(index as int, n as int, a as int, b as int);
}

proof fn lemma_ring_apart(index: int, n: int, a: int, b: int)
    requires
        n > 0,
        0 <= a < b < n,
    ensures
        0 <= ring(index + a, n) < n,
        0 <= ring(index + b, n) < n,
        ring(index + a, n) != ring(index + b, n),
{
    let x = index + a;
    let y = index + b;
    if ring(x, n) == ring(y, n) {
        vstd::arithmetic::div_mod::lemma_fundamental_div_mod(x, n);
        vstd::arithmetic::div_mod::lemma_fundamental_div_mod(y, n);
        let p = x / n;
        let q = y / n;
        assert(y - x == n * (q - p)) by (nonlinear_arith)
            requires
                x == n * p + x % n,
                y == n * q + y % n,
                x % n == y % n,
        ;
        assert(false) by (nonlinear_arith)
            requires
                n > 0,
                0 < y - x < n,
                y - x == n * (q - p),
        ;
    }
}

/// What is known of where messages of a topic can go.
#[derive(Debug)]
pub struct TopicPublishInfo {
    order_topic: bool,
    msg_queue_list: Vec<MessageQueue>,
    topic_route_data: Option<TopicRouteData>,
    index: i64,
}

/// The queue of a ring that stands `k` steps after the cursor.
pub open spec fn queue_at(list: Seq<MessageQueue>, cursor: i64, k: nat) -> MessageQueue {
    list[ring(advanced(cursor, k) as int, list.len() as int)]
}

/// `k` steps after the cursor stands the first queue that is not on the broker `last`; where
/// every queue is on it, `k` is a whole round. Without a last broker no step is made.
pub open spec fn keeps_away(list: Seq<MessageQueue>, cursor: i64, last: Option<Seq<char>>, k: nat) -> bool {
    match last {
        None => k == 0,
        Some(b) => {
            &&& k <= list.len()
            &&& forall|j: nat| j < k ==> (#[trigger] queue_at(list, cursor, j)).broker_name@ == b
            &&& k < list.len() ==> queue_at(list, cursor, k).broker_name@ != b
        },
    }
}

/// `mq` is the queue that a walk from the cursor comes to that keeps away from the broker
/// `last`; `after` is the cursor behind it.
pub open spec fn picked(
    list: Seq<MessageQueue>,
    cursor: i64,
    last: Option<Seq<char>>,
    mq: MessageQueue,
    after: i64,
) -> bool {
    exists|k: nat|
        {
            &&& #[trigger] keeps_away(list, cursor, last, k)
            &&& mq == queue_at(list, cursor, k)
            &&& after == advanced(cursor, (k + 1) as nat)
        }
}

/// Where there is a queue on another broker than the last, such a queue is taken. (A cursor
/// that wraps round within the round is left out.)
pub proof fn law_another_broker_is_taken(
    list: Seq<MessageQueue>,
    cursor: i64,
    last: Seq<char>,
    mq: MessageQueue,
    after: i64,
    i: int,
)
    requires
        picked(list, cursor, Some(last), mq, after),
        0 <= i < list.len(),
        list[i].broker_name@ != last,
        cursor + list.len() <= i64::MAX,
    ensures
        mq.broker_name@ != last,
{
    let n = list.len() as int;
    let k = choose|k: nat|
        {
            &&& #[trigger] keeps_away(list, cursor, Some(last), k)
            &&& mq == queue_at(list, cursor, k)
            &&& after == advanced(cursor, (k + 1) as nat)
        };
    if k == n {
        let j = (i - cursor) % n;
        vstd::arithmetic::div_mod::lemma_mod_bound(i - cursor, n);
        vstd::arithmetic::div_mod::lemma_add_mod_noop_right(cursor as int, i - cursor, n);
        vstd::arithmetic::div_mod::lemma_small_mod(i as nat, n as nat);
        lemma_advanced(cursor, j as nat);
        assert(queue_at(list, cursor, j as nat) == list[i]);
    }
}

/// Every filter takes the queue.
pub open spec fn passes<F: Fn(&MessageQueue) -> bool>(filters: Seq<F>, mq: MessageQueue) -> bool {
    forall|i: int| 0 <= i < filters.len() ==> call_ensures(#[trigger] filters[i], (&mq,), true)
}

/// Some filter turns the queue away.
pub open spec fn fails<F: Fn(&MessageQueue) -> bool>(filters: Seq<F>, mq: MessageQueue) -> bool {
    exists|i: int| 0 <= i < filters.len() && call_ensures(#[trigger] filters[i], (&mq,), false)
}

/// The JSON object of a queue: its topic, broker and number, and nothing else.
pub open spec fn describes_queue(v: serde_json::Value, mq: QueueView) -> bool {
    &&& json_members(v) matches Some(m)
    &&& m.dom() == set!["topic"@, "brokerName"@, "queueId"@]
    &&& json_text(m["topic"@]) == Some(mq.topic)
    &&& json_text(m["brokerName"@]) == Some(mq.broker_name)
    &&& json_int(m["queueId"@]) == Some(mq.queue_id as i64)
}

fn queue_value(mq: &MessageQueue) -> (r: serde_json::Value)
    ensures
        describes_queue(r, mq@),
{
    proof {
        reveal_strlit("topic");
        reveal_strlit("brokerName");
        reveal_strlit("queueId");
        assert("topic"@.len() != "brokerName"@.len());
        assert("topic"@.len() != "queueId"@.len());
        assert("queueId"@.len() != "brokerName"@.len());
    }
    let mut list: Vec<(String, serde_json::Value)> = Vec::new();
    list.push(("topic".to_owned(), text_value(mq.topic.clone())));
    list.push(("brokerName".to_owned(), text_value(mq.broker_name.clone())));
    list.push(("queueId".to_owned(), int_value(mq.queue_id)));
    proof {
        reveal_with_fuel(members, 4);
        let all = list@;
        assert(all.drop_last().drop_last().drop_last() =~= Seq::empty());
        assert(members(all).dom() =~= set!["topic"@, "brokerName"@, "queueId"@]);
    }
    object_value(list)
}

impl TopicPublishInfo {
    pub closed spec fn ordered(&self) -> bool {
        self.order_topic
    }

    /// The queues, in their order.
    pub closed spec fn list(&self) -> Seq<MessageQueue> {
        self.msg_queue_list@
    }

    pub closed spec fn route(&self) -> Option<TopicRouteData> {
        self.topic_route_data
    }

    /// The cursor of the round robin.
    pub closed spec fn cursor(&self) -> i64 {
        self.index
    }

    /// The queue that stands `k` steps after the cursor.
    pub open spec fn ahead(&self, k: nat) -> MessageQueue {
        queue_at(self.list(), self.cursor(), k)
    }

    /// Only the cursor may differ.
    pub open spec fn same_but_cursor(&self, other: &TopicPublishInfo) -> bool {
        &&& self.ordered() == other.ordered()
        &&& self.list() == other.list()
        &&& self.route() == other.route()
    }

    pub fn new() -> (r: TopicPublishInfo)
        ensures
            !r.ordered(),
            r.list() == Seq::<MessageQueue>::empty(),
            r.route() is None,
            r.cursor() == 0,
    {
        TopicPublishInfo {
            order_topic: false,
            msg_queue_list: Vec::new(),
            topic_route_data: None,
            index: 0,
        }
    }

    /// Whether there is a queue.
    pub fn ok(&self) -> (r: bool)
        ensures
            r == (self.list().len() > 0),
    {
        self.msg_queue_list.len() > 0
    }

    /// Puts the cursor back to the start.
    pub fn reset_index(&mut self)
        ensures
            final(self).same_but_cursor(old(self)),
            final(self).cursor() == 0,
    {
        self.index = 0;
    }

    /// The next queue of the round robin that every filter takes.
    ///
    /// Without filters that is the queue at the cursor. With filters at most one round is
    /// made; where every queue is turned away, there is none. The cursor moves by one for
    /// each queue that was looked at.
    pub fn select_one_message_queue<F: Fn(&MessageQueue) -> bool>(&mut self, filters: &[F]) -> (r: Result<
        Option<MessageQueue>,
        Error,
    >)
        requires
            forall|i: int, mq: MessageQueue|
                0 <= i < filters@.len() ==> #[trigger] call_requires(filters@[i], (&mq,)),
        ensures
            final(self).same_but_cursor(old(self)),
            r is Err <==> old(self).list().len() == 0,
            match r {
                Err(e) => is_client(e, None, "no message queue for publish info"@) && final(self).cursor()
                    == old(self).cursor(),
                Ok(Some(mq)) => exists|k: nat|
                    {
                        &&& k < old(self).list().len()
                        &&& filters@.len() == 0 ==> k == 0
                        &&& mq == #[trigger] old(self).ahead(k)
                        &&& passes(filters@, mq)
                        &&& forall|j: nat| j < k ==> fails(filters@, #[trigger] old(self).ahead(j))
                        &&& final(self).cursor() == advanced(old(self).cursor(), (k + 1) as nat)
                    },
                Ok(None) => {
                    &&& filters@.len() > 0
                    &&& forall|j: nat|
                        j < old(self).list().len() ==> fails(filters@, #[trigger] old(self).ahead(j))
                    &&& final(self).cursor() == advanced(old(self).cursor(), old(self).list().len())
                },
            },
    {
        let n = self.msg_queue_list.len();
        if n == 0 {
            return Err(Error::client("no message queue for publish info"));
        }
        let ghost start = *self;
        let mut tried: usize = 0;
        while tried < n
            invariant
                n > 0,
                tried <= n,
                n == start.list().len(),
                start == *old(self),
                self.same_but_cursor(&start),
                self.index == advanced(start.cursor(), tried as nat),
                filters@.len() == 0 ==> tried == 0,
                forall|i: int, mq: MessageQueue|
                    0 <= i < filters@.len() ==> #[trigger] call_requires(filters@[i], (&mq,)),
                forall|j: nat| j < tried ==> fails(filters@, #[trigger] start.ahead(j)),
            decreases n - tried,
        {
            let mq = self.msg_queue_list[ring_index(self.index, n)].clone();
            assert(mq == start.ahead(tried as nat));
            self.index = self.index.wrapping_add(1);
            let mut i: usize = 0;
            let mut all = true;
            while all && i < filters.len()
                invariant
                    i <= filters@.len(),
                    forall|i: int, mq: MessageQueue|
                        0 <= i < filters@.len() ==> #[trigger] call_requires(filters@[i], (&mq,)),
                    all ==> forall|j: int| 0 <= j < i ==> call_ensures(#[trigger] filters@[j], (&mq,), true),
                    !all ==> fails(filters@, mq),
                decreases filters@.len() - i + if all {
                    1int
                } else {
                    0int
                },
            {
                let f = &filters[i];
                if !f(&mq) {
                    all = false;
                    assert(call_ensures(filters@[i as int], (&mq,), false));
                } else {
                    i = i + 1;
                }
            }
            if all {
                assert(passes(filters@, mq));
                assert(mq == old(self).ahead(tried as nat));
                return Ok(Some(mq));
            }
            tried = tried + 1;
        }
        Ok(None)
    }

    /// The next queue of the round robin that is not on the broker that was tried last; any
    /// queue where there is no other broker. With `reset_index` the round robin starts anew.
    pub fn select_apart_from(&mut self, last_broker: Option<&str>, reset_index: bool) -> (r: Result<MessageQueue, Error>)
        ensures
            final(self).same_but_cursor(old(self)),
            ({
                let list = old(self).list();
                let start = if reset_index {
                    0
                } else {
                    old(self).cursor()
                };
                match r {
                    Ok(mq) => list.len() > 0 && picked(list, start, opt_ref(last_broker), mq, final(self).cursor()),
                    Err(e) => list.len() == 0 && final(self).cursor() == start && is_client(
                        e,
                        None,
                        "no message queue for publish info"@,
                    ),
                }
            }),
    {
        if reset_index {
            self.reset_index();
        }
        let ghost before = *self;
        let ghost list = self.list();
        let ghost start = self.cursor();
        if let Some(last) = last_broker {
            let other = |q: &MessageQueue| -> (r: bool)
                ensures
                    r == (q.broker_name@ != last@),
                { !same(q.broker_name.as_str(), last) };
            let filters = vec![other];
            match self.select_one_message_queue(filters.as_slice()) {
                Ok(Some(mq)) => {
                    proof {
                        let k = choose|k: nat|
                            {
                                &&& k < list.len()
                                &&& mq == #[trigger] before.ahead(k)
                                &&& passes(filters@, mq)
                                &&& forall|j: nat| j < k ==> fails(filters@, #[trigger] before.ahead(j))
                                &&& self.cursor() == advanced(start, (k + 1) as nat)
                            };
                        assert forall|j: nat| j < k implies (#[trigger] queue_at(list, start, j)).broker_name@ == last@ by {
                            assert(fails(filters@, before.ahead(j)));
                        }
                        assert(call_ensures(filters@[0], (&mq,), true));
                        assert(keeps_away(list, start, opt_ref(last_broker), k));
                        assert(picked(list, start, opt_ref(last_broker), mq, self.cursor()));
                    }
                    return Ok(mq);
                },
                Ok(None) => {
                    assert forall|j: nat| j < list.len() implies (#[trigger] queue_at(list, start, j)).broker_name@
                        == last@ by {
                        assert(fails(filters@, before.ahead(j)));
                    }
                    assert(keeps_away(list, start, opt_ref(last_broker), list.len()));
                },
                Err(e) => {
                    return Err(e);
                },
            }
        }
        let ghost skipped: nat = if last_broker is Some {
            list.len()
        } else {
            0
        };
        let none = no_filters(any_queue);
        match self.select_one_message_queue(none.as_slice()) {
            Ok(Some(mq)) => {
                proof {
                    reveal_with_fuel(advanced, 2);
                    assert(mq == queue_at(list, start, skipped));
                    assert(self.cursor() == advanced(start, (skipped + 1) as nat));
                    assert(keeps_away(list, start, opt_ref(last_broker), skipped));
                    assert(picked(list, start, opt_ref(last_broker), mq, self.cursor()));
                }
                Ok(mq)
            },
            Ok(None) => Err(Error::client("no message queue for publish info")),
            Err(e) => Err(e),
        }
    }

    pub fn order_topic(&self) -> (r: bool)
        ensures
            r == self.ordered(),
    {
        self.order_topic
    }

    /// The queues as they are now.
    pub fn msg_queue_list(&self) -> (r: Vec<MessageQueue>)
        ensures
            r@ == self.list(),
    {
        copy_queues(&self.msg_queue_list)
    }

    /// The route as it is now.
    pub fn topic_route_data(&self) -> (r: Option<TopicRouteData>)
        ensures
            r is Some <==> self.route() is Some,
            r is Some ==> same_route(r->0, self.route()->0),
    {
        match &self.topic_route_data {
            Some(route) => Some(route.clone()),
            None => None,
        }
    }

    /// Takes over a route: its queues in place of those before, the cursor where it was.
    pub fn update_from_route(&mut self, route: &TopicRouteData, topic: &str)
        ensures
            final(self).ordered() == (route.order_topic_conf is Some),
            final(self).route() is Some,
            same_route(final(self).route()->0, *route),
            queues(final(self).list()) == all_queues(topic@, route.queue_datas@),
            final(self).cursor() == old(self).cursor(),
    {
        self.order_topic = route.order_topic_conf.is_some();
        self.topic_route_data = Some(route.clone());
        self.msg_queue_list = route_queue_lists(route, topic);
    }

    /// `{"orderTopic": .., "messageQueueList": [{"topic", "brokerName", "queueId"}]}`.
    pub fn to_dict(&self) -> (r: serde_json::Value)
        ensures
            json_members(r) matches Some(m) && {
                &&& m.dom() == set!["orderTopic"@, "messageQueueList"@]
                &&& json_bool(m["orderTopic"@]) == Some(self.ordered())
                &&& json_items(m["messageQueueList"@]) matches Some(items) && {
                    &&& items.len() == self.list().len()
                    &&& forall|i: int|
                        0 <= i < items.len() ==> describes_queue(#[trigger] items[i], self.list()[i]@)
                }
            },
    {
        let mut items: Vec<serde_json::Value> = Vec::new();
        let mut i: usize = 0;
        while i < self.msg_queue_list.len()
            invariant
                i <= self.list().len(),
                items@.len() == i,
                forall|j: int| 0 <= j < i ==> describes_queue(#[trigger] items@[j], self.list()[j]@),
            decreases self.list().len() - i,
        {
            items.push(queue_value(&self.msg_queue_list[i]));
            i = i + 1;
        }
        let mut list: Vec<(String, serde_json::Value)> = Vec::new();
        list.push(("orderTopic".to_owned(), bool_value(self.order_topic)));
        list.push(("messageQueueList".to_owned(), list_value(items)));
        proof {
            reveal_strlit("orderTopic");
            reveal_strlit("messageQueueList");
            assert("orderTopic"@.len() != "messageQueueList"@.len());
            reveal_with_fuel(members, 3);
            assert(list@.drop_last().drop_last() =~= Seq::empty());
            assert(members(list@).dom() =~= set!["orderTopic"@, "messageQueueList"@]);
        }
        object_value(list)
    }
}

impl Clone for TopicPublishInfo {
    fn clone(&self) -> (r: TopicPublishInfo)
        ensures
            r.ordered() == self.ordered(),
            r.list() == self.list(),
            r.route() is Some <==> self.route() is Some,
            r.route() is Some ==> same_route(r.route()->0, self.route()->0),
            r.cursor() == self.cursor(),
    {
        TopicPublishInfo {
            order_topic: self.order_topic,
            msg_queue_list: self.msg_queue_list(),
            topic_route_data: self.topic_route_data(),
            index: self.index,
        }
    }
}

/// The queues of `topic` in a route.
pub fn route_queue_lists(route: &TopicRouteData, topic: &str) -> (r: Vec<MessageQueue>)
    ensures
        queues(r@) == all_queues(topic@, route.queue_datas@),
{
    route.get_all_message_queue(topic)
}

/// Takes every queue.
pub(crate) fn any_queue(_mq: &MessageQueue) -> (r: bool)
    ensures
        r,
{
    true
}

/// No filters, of the type of `f`.
pub(crate) fn no_filters<F>(_f: F) -> (r: Vec<F>)
    ensures
        r@.len() == 0,
{
    Vec::new()
}

/// What a send takes: one message, or several as one.
#[derive(Debug)]
pub enum PublishMessage<'a> {
    Single(&'a mut Message),
    Batch(&'a mut MessageBatch),
}

/// The message that travels: for a batch, its envelope.
pub open spec fn outer(m: PublishMessage<'_>) -> Message {
    match m {
        PublishMessage::Single(s) => *s,
        PublishMessage::Batch(b) => b.message,
    }
}

/// The messages that travel inside it: those of a batch.
pub open spec fn parts(m: PublishMessage<'_>) -> Seq<Message> {
    match m {
        PublishMessage::Single(_) => Seq::empty(),
        PublishMessage::Batch(b) => b.messages@,
    }
}

impl<'a> PublishMessage<'a> {
    pub fn as_message(&self) -> (r: &Message)
        ensures
            *r == outer(*self),
    {
        match self {
            PublishMessage::Single(m) => m,
            PublishMessage::Batch(b) => &b.message,
        }
    }

    /// The message that travels, to be written to: the caller's own message, or the envelope of
    /// its batch.
    pub fn as_message_mut(&mut self) -> (r: &mut Message)
        ensures
            *r == outer(*old(self)),
            outer(*final(self)) == *final(r),
            (*final(self) is Batch) == (*old(self) is Batch),
            parts(*final(self)) == parts(*old(self)),
            match (*old(self), *final(self)) {
                (PublishMessage::Single(a), PublishMessage::Single(b)) => *final(a) == *final(b),
                (PublishMessage::Batch(a), PublishMessage::Batch(b)) => *final(a) == *final(b),
                _ => false,
            },
    {
        match self {
            PublishMessage::Single(m) => m,
            PublishMessage::Batch(b) => &mut b.message,
        }
    }

    pub fn is_batch(&self) -> (r: bool)
        ensures
            r == (*self is Batch),
    {
        match self {
            PublishMessage::Single(_) => false,
            PublishMessage::Batch(_) => true,
        }
    }
}

/// Without filters the queues are taken one after the other in the order of the list, over and
/// over: the queue at the cursor, and then the cursor stands one further. There is a queue exactly
/// where the list has one.
pub proof fn law_queues_are_taken_in_turn<F: Fn(&MessageQueue) -> bool>(
    info: &mut TopicPublishInfo,
    filters: &[F],
    r: Result<Option<MessageQueue>, Error>,
    list: Vec<MessageQueue>,
)
    requires
        filters@.len() == 0,
        call_ensures(TopicPublishInfo::select_one_message_queue::<F>, (info, filters), r),
        call_ensures(TopicPublishInfo::msg_queue_list, (&*old(info),), list),
    ensures
        r is Err <==> list@.len() == 0,
        r is Ok ==> (r matches Ok(Some(mq)) && mq == list@[old(info).cursor() as int % list@.len() as int]),
        r is Ok && old(info).cursor() < i64::MAX ==> final(info).cursor() == old(info).cursor() + 1,
        r is Err ==> final(info).cursor() == old(info).cursor() && r->Err_0 is Client,
        final(info).list() == old(info).list(),
{
    reveal_with_fuel(advanced, 2);
    if r is Ok {
        assert(old(info).ahead(0) == list@[old(info).cursor() as int % list@.len() as int]);
    }
}

/// With filters the first queue from the cursor on that all of them take is taken; a queue is
/// passed over only where some filter turned it away, and there is none only where that was so of
/// every queue.
pub proof fn law_filters_pass_over_only_what_they_turn_away<F: Fn(&MessageQueue) -> bool>(
    info: &mut TopicPublishInfo,
    filters: &[F],
    r: Result<Option<MessageQueue>, Error>,
    i: int,
)
    requires
        filters@.len() > 0,
        call_ensures(TopicPublishInfo::select_one_message_queue::<F>, (info, filters), r),
        old(info).list().len() > 0,
        old(info).cursor() + old(info).list().len() <= i64::MAX,
    ensures
        r is Ok,
        r matches Ok(Some(mq)) ==> old(info).list().contains(mq) && (0 <= i < filters@.len() ==> call_ensures(
            filters@[i],
            (&mq,),
            true,
        )),
        r matches Ok(None) ==> (0 <= i < old(info).list().len() ==> exists|f: int|
            0 <= f < filters@.len() && call_ensures(#[trigger] filters@[f], (&old(info).list()[i],), false)),
        final(info).list() == old(info).list(),
{
    let list = old(info).list();
    let n = list.len() as int;
    let cursor = old(info).cursor();
    if let Ok(Some(mq)) = r {
        let k = choose|k: nat|
            {
                &&& k < n
                &&& mq == #[trigger] old(info).ahead(k)
                &&& passes(filters@, mq)
                &&& forall|j: nat| j < k ==> fails(filters@, #[trigger] old(info).ahead(j))
                &&& final(info).cursor() == advanced(cursor, (k + 1) as nat)
            };
        vstd::arithmetic::div_mod::lemma_mod_bound(advanced(cursor, k) as int, n);
        let p = ring(advanced(cursor, k) as int, n);
        assert(list[p] == mq);
        assert(passes(filters@, mq));
    }
    if r matches Ok(None) && 0 <= i < n {
        let j = (i - cursor) % n;
        vstd::arithmetic::div_mod::lemma_mod_bound(i - cursor, n);
        vstd::arithmetic::div_mod::lemma_add_mod_noop_right(cursor as int, i - cursor, n);
        vstd::arithmetic::div_mod::lemma_small_mod(i as nat, n as nat);
        lemma_advanced(cursor, j as nat);
        assert(old(info).ahead(j as nat) == list[i]);
        assert(fails(filters@, old(info).ahead(j as nat)));
    }
}

/// A retry takes a queue on another broker than the one that was tried last, where there is one,
/// and some queue in any case where there is one; without a last broker it is the queue at the
/// cursor. With a reset the cursor begins at 0.
pub proof fn law_retry_keeps_away_from_the_last_broker(
    info: &mut TopicPublishInfo,
    last: Option<&str>,
    reset: bool,
    r: Result<MessageQueue, Error>,
    i: int,
)
    requires
        call_ensures(TopicPublishInfo::select_apart_from, (info, last, reset), r),
        old(info).cursor() + old(info).list().len() <= i64::MAX,
        old(info).list().len() <= i64::MAX,
    ensures
        r is Ok <==> old(info).list().len() > 0,
        last is Some && 0 <= i < old(info).list().len() && old(info).list()[i].broker_name@ != last->0@ ==> (r matches Ok(
            mq,
        ) && mq.broker_name@ != last->0@),
        last is None && reset && r is Ok ==> r->Ok_0 == old(info).list()[0],
        last is None && !reset && r is Ok ==> r->Ok_0 == old(info).list()[old(info).cursor() as int % old(
            info).list().len() as int],
        r matches Ok(mq) ==> old(info).list().contains(mq),
        final(info).list() == old(info).list(),
        r is Err ==> r->Err_0 is Client,
{
    let list = old(info).list();
    let n = list.len() as int;
    let start: i64 = if reset {
        0
    } else {
        old(info).cursor()
    };
    if let Ok(mq) = r {
        let k = choose|k: nat|
            {
                &&& #[trigger] keeps_away(list, start, opt_ref(last), k)
                &&& mq == queue_at(list, start, k)
                &&& final(info).cursor() == advanced(start, (k + 1) as nat)
            };
        vstd::arithmetic::div_mod::lemma_mod_bound(advanced(start, k) as int, n);
        assert(list[ring(advanced(start, k) as int, n)] == mq);
        if last is Some && 0 <= i < n && list[i].broker_name@ != last->0@ {
            law_another_broker_is_taken(list, start, last->0@, mq, final(info).cursor(), i);
        }
        if last is None && reset {
            vstd::arithmetic::div_mod::lemma_small_mod(0, n as nat);
        }
    }
}

/// What is published to after a route was taken over: all queues of the route, in order, in place
/// of those before; the topic is an ordered one where the route says so.
pub proof fn law_route_is_taken_over(
    info: &mut TopicPublishInfo,
    route: &TopicRouteData,
    topic: &str,
    queues_of_route: Vec<MessageQueue>,
    list: Vec<MessageQueue>,
    ordered: bool,
    some: bool,
)
    requires
        call_ensures(TopicPublishInfo::update_from_route, (info, route, topic), ()),
        call_ensures(TopicRouteData::get_all_message_queue, (route, topic), queues_of_route),
        call_ensures(TopicPublishInfo::msg_queue_list, (&*final(info),), list),
        call_ensures(TopicPublishInfo::order_topic, (&*final(info),), ordered),
        call_ensures(TopicPublishInfo::ok, (&*final(info),), some),
    ensures
        queues(list@) == queues(queues_of_route@),
        ordered == (route.order_topic_conf is Some),
        some == (queues_of_route@.len() > 0),
        final(info).cursor() == old(info).cursor(),
{
    assert(queues(list@).len() == list@.len());
    assert(queues(queues_of_route@).len() == queues_of_route@.len());
}

} // verus!

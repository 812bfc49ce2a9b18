//! Subscriptions: tag expressions, the filter by tags, and what a heartbeat says of them.
use vstd::prelude::*;

use crate::error::{is_client, Error};
use crate::message::{copy_texts, prop, MessageExt, MessageQueue, QueueView, PROPERTY_TAGS};
use crate::selector::{java_string_hash, string_hash};
use crate::text::{
    comes_before, decimal, free_of, int_text, is_space, joined, lemma_before_irreflexive, lemma_before_total,
    lemma_before_transitive, lemma_pieces_join, lemma_pieces_of_parts, lemma_trim_done, less, pieces, same, split, texts,
    trim, trimmed,
};

verus! {

/// The expression that takes every message.
pub const SUB_ALL: &'static str = "*";

/// Expressions of tags.
pub const TAG: &'static str = "TAG";

pub const CLUSTERING: &'static str = "CLUSTERING";

pub const BROADCASTING: &'static str = "BROADCASTING";

pub const CONSUME_PASSIVELY: &'static str = "CONSUME_PASSIVELY";

pub const CONSUME_ACTIVELY: &'static str = "CONSUME_ACTIVELY";

pub const CONSUME_FROM_LAST_OFFSET: &'static str = "CONSUME_FROM_LAST_OFFSET";

pub const CONSUME_FROM_FIRST_OFFSET: &'static str = "CONSUME_FROM_FIRST_OFFSET";

pub const CONSUME_FROM_TIMESTAMP: &'static str = "CONSUME_FROM_TIMESTAMP";

/// What a consumer wants of a topic.
#[derive(Debug)]
pub struct SubscriptionData {
    pub topic: String,
    pub sub_string: String,
    pub tags_set: Vec<String>,
    pub code_set: Vec<i32>,
    pub expression_type: String,
}

/// An expression that picks messages, and the kind of expression that it is.
#[derive(Debug, Clone)]
pub struct MessageSelector {
    pub expression_type: String,
    pub expression: String,
}

/// Two subscriptions hold the same.
pub open spec fn same_sub(a: SubscriptionData, b: SubscriptionData) -> bool {
    &&& a.topic == b.topic
    &&& a.sub_string == b.sub_string
    &&& a.tags_set@ == b.tags_set@
    &&& a.code_set@ == b.code_set@
    &&& a.expression_type == b.expression_type
}

impl Clone for SubscriptionData {
    fn clone(&self) -> (r: SubscriptionData)
        ensures
            same_sub(r, *self),
    {
        let mut code_set: Vec<i32> = Vec::new();
        let mut i: usize = 0;
        while i < self.code_set.len()
            invariant
                i <= self.code_set@.len(),
                code_set@ == self.code_set@.subrange(0, i as int),
            decreases self.code_set@.len() - i,
        {
            code_set.push(self.code_set[i]);
            i = i + 1;
        }
        assert(code_set@ =~= self.code_set@);
        SubscriptionData {
            topic: self.topic.clone(),
            sub_string: self.sub_string.clone(),
            tags_set: copy_texts(&self.tags_set),
            code_set,
            expression_type: self.expression_type.clone(),
        }
    }
}

/// The expression takes every message.
pub open spec fn takes_all(expr: Option<Seq<char>>) -> bool {
    match expr {
        None => true,
        Some(s) => s.len() == 0 || s == SUB_ALL@,
    }
}

/// Nothing stands between the bars.
pub open spec fn all_empty(parts: Seq<Seq<char>>) -> bool {
    forall|i: int| 0 <= i < parts.len() ==> (#[trigger] parts[i]).len() == 0
}

/// The tags of an expression: its pieces, trimmed, without blank ones, each once.
pub open spec fn tags_of(parts: Seq<Seq<char>>) -> Seq<Seq<char>>
    decreases parts.len(),
{
    if parts.len() == 0 {
        Seq::empty()
    } else {
        let before = tags_of(parts.drop_last());
        let t = trimmed(parts.last());
        if t.len() == 0 || before.contains(t) {
            before
        } else {
            before.push(t)
        }
    }
}

/// The hashes of tags.
pub open spec fn hashes(tags: Seq<Seq<char>>) -> Seq<int> {
    Seq::new(tags.len(), |i: int| string_hash(tags[i]))
}

pub open spec fn ints(v: Seq<i32>) -> Seq<int> {
    Seq::new(v.len(), |i: int| v[i] as int)
}

/// Whether a text is in a list.
pub fn has_text(list: &Vec<String>, s: &str) -> (r: bool)
    ensures
        r == texts(list@).contains(s@),
{
    let mut i: usize = 0;
    while i < list.len()
        invariant
            i <= list@.len(),
            forall|j: int| 0 <= j < i ==> #[trigger] texts(list@)[j] != s@,
        decreases list@.len() - i,
    {
        assert(texts(list@)[i as int] == list@[i as int]@);
        if same(list[i].as_str(), s) {
            return true;
        }
        i = i + 1;
    }
    false
}

/// The subscription of a tag expression: tags with two bars between them.
///
/// No expression, an empty one and `*` take every message. An expression of bars alone is
/// malformed.
pub fn build_subscription_data(topic: &str, expr: Option<&str>) -> (r: Result<SubscriptionData, Error>)
    ensures
        ({
            let e = crate::message::opt_ref(expr);
            if takes_all(e) {
                r matches Ok(s) && s.topic@ == topic@ && s.sub_string@ == SUB_ALL@ && s.tags_set@.len() == 0
                    && s.code_set@.len() == 0 && s.expression_type@ == TAG@
            } else if all_empty(pieces(e->0, "||"@)) {
                r matches Err(f) && is_client(f, None, "subString split error"@)
            } else {
                r matches Ok(s) && s.topic@ == topic@ && s.sub_string@ == e->0 && texts(s.tags_set@)
                    == tags_of(pieces(e->0, "||"@)) && ints(s.code_set@) == hashes(
                    tags_of(pieces(e->0, "||"@)),
                ) && s.expression_type@ == TAG@
            }
        }),
{
    let text = match expr {
        Some(s) => s,
        None => SUB_ALL,
    };
    if text.is_empty() || same(text, SUB_ALL) {
        return Ok(
            SubscriptionData {
                topic: topic.to_owned(),
                sub_string: SUB_ALL.to_owned(),
                tags_set: Vec::new(),
                code_set: Vec::new(),
                expression_type: TAG.to_owned(),
            },
        );
    }
    let parts = split(text, "||");
    let mut tags: Vec<String> = Vec::new();
    let mut codes: Vec<i32> = Vec::new();
    let mut empty = true;
    let mut i: usize = 0;
    assert(texts(tags@) =~= Seq::<Seq<char>>::empty());
    assert(ints(codes@) =~= hashes(Seq::<Seq<char>>::empty()));
    while i < parts.len()
        invariant
            i <= parts@.len(),
            texts(tags@) == tags_of(texts(parts@).subrange(0, i as int)),
            ints(codes@) == hashes(texts(tags@)),
            empty == all_empty(texts(parts@).subrange(0, i as int)),
        decreases parts@.len() - i,
    {
        let ghost part = texts(parts@).subrange(0, i + 1);
        let ghost before = tags@;
        let ghost codes_before = codes@;
        proof {
            let old_part = texts(parts@).subrange(0, i as int);
            assert(part.drop_last() =~= old_part);
            assert(part.last() == parts@[i as int]@);
            assert(all_empty(part) == (all_empty(old_part) && parts@[i as int]@.len() == 0)) by {
                if all_empty(part) {
                    assert forall|j: int| 0 <= j < old_part.len() implies (#[trigger] old_part[j]).len()
                        == 0 by {
                        assert(part[j] == old_part[j]);
                    }
                    assert(part[i as int].len() == 0);
                }
                if all_empty(old_part) && parts@[i as int]@.len() == 0 {
                    assert forall|j: int| 0 <= j < part.len() implies (#[trigger] part[j]).len() == 0 by {
                        if j < i {
                            assert(part[j] == old_part[j]);
                        }
                    }
                }
            }
        }
        if !parts[i].as_str().is_empty() {
            empty = false;
        }
        let t = trim(parts[i].as_str());
        if !t.as_str().is_empty() && !has_text(&tags, t.as_str()) {
            codes.push(java_string_hash(t.as_str()));
            tags.push(t);
            assert(texts(tags@) =~= texts(before).push(t@));
            assert(ints(codes@) =~= ints(codes_before).push(string_hash(t@)));
            assert(hashes(texts(tags@)) =~= hashes(texts(before)).push(string_hash(t@)));
        }
        i = i + 1;
    }
    assert(texts(parts@).subrange(0, i as int) =~= texts(parts@));
    if empty {
        return Err(Error::client("subString split error"));
    }
    Ok(
        SubscriptionData {
            topic: topic.to_owned(),
            sub_string: text.to_owned(),
            tags_set: tags,
            code_set: codes,
            expression_type: TAG.to_owned(),
        },
    )
}

/// The expression that a pull sends of a subscription; an empty one takes every message.
pub fn sub_expression_of(sub: &SubscriptionData) -> (r: &str)
    ensures
        r@ == if sub.sub_string@.len() == 0 {
            SUB_ALL@
        } else {
            sub.sub_string@
        },
{
    if sub.sub_string.as_str().is_empty() {
        SUB_ALL
    } else {
        sub.sub_string.as_str()
    }
}

/// A message that the tags take: its tag is one of them.
pub open spec fn tag_hit(tags: Seq<Seq<char>>, m: MessageExt) -> bool {
    prop(m.properties, PROPERTY_TAGS@) matches Some(t) && tags.contains(t)
}

/// The messages that the tags take, in order.
pub open spec fn hits(tags: Seq<Seq<char>>, msgs: Seq<MessageExt>) -> Seq<MessageExt>
    decreases msgs.len(),
{
    if msgs.len() == 0 {
        Seq::empty()
    } else if tag_hit(tags, msgs.last()) {
        hits(tags, msgs.drop_last()).push(msgs.last())
    } else {
        hits(tags, msgs.drop_last())
    }
}

/// The tags that a filter goes by; none where there is no subscription.
pub open spec fn filter_tags(sub: Option<&SubscriptionData>) -> Seq<Seq<char>> {
    match sub {
        Some(s) => texts(s.tags_set@),
        None => Seq::empty(),
    }
}

/// The messages that a subscription takes, in order; without tags, all of them.
pub fn client_side_tag_filter(sub: Option<&SubscriptionData>, msgs: Vec<MessageExt>) -> (r: Vec<MessageExt>)
    ensures
        r@ == if filter_tags(sub).len() == 0 {
            msgs@
        } else {
            hits(filter_tags(sub), msgs@)
        },
{
    let tags = match sub {
        Some(s) => &s.tags_set,
        None => {
            return msgs;
        },
    };
    assert(texts(tags@).len() == tags@.len());
    if tags.len() == 0 {
        return msgs;
    }
    let ghost all = msgs@;
    let mut rest = msgs;
    let mut out: Vec<MessageExt> = Vec::new();
    let mut done: usize = 0;
    let n = rest.len();
    while done < n
        invariant
            done <= n == all.len(),
            rest@ == all.subrange(done as int, all.len() as int),
            out@ == hits(texts(tags@), all.subrange(0, done as int)),
        decreases n - done,
    {
        let m = rest.remove(0);
        assert(m == all[done as int]);
        assert(rest@ =~= all.subrange(done + 1, all.len() as int));
        proof {
            let part = all.subrange(0, done + 1);
            assert(part.drop_last() =~= all.subrange(0, done as int));
            assert(part.last() == m);
        }
        let hit = match m.get_tags() {
            Some(t) => has_text(tags, t),
            None => false,
        };
        if hit {
            out.push(m);
        }
        done = done + 1;
    }
    assert(all.subrange(0, done as int) =~= all);
    out
}

/// A filter keeps the order of what it keeps, keeps nothing twice, and keeps only what was
/// there: what is kept stands at ascending places of the list.
pub proof fn law_filter_keeps_order(tags: Seq<Seq<char>>, msgs: Seq<MessageExt>) -> (places: Seq<int>)
    ensures
        places.len() == hits(tags, msgs).len(),
        forall|i: int|
            0 <= i < places.len() ==> 0 <= #[trigger] places[i] < msgs.len() && hits(tags, msgs)[i]
                == msgs[places[i]],
        forall|i: int, j: int| 0 <= i < j < places.len() ==> #[trigger] places[i] < #[trigger] places[j],
        forall|k: int|
            0 <= k < msgs.len() ==> (places.contains(k) <==> tag_hit(tags, #[trigger] msgs[k])),
    decreases msgs.len(),
{
    if msgs.len() == 0 {
        Seq::empty()
    } else {
        let before = law_filter_keeps_order(tags, msgs.drop_last());
        let n = msgs.len() - 1;
        if tag_hit(tags, msgs.last()) {
            let places = before.push(n);
            assert forall|k: int| 0 <= k < msgs.len() implies (places.contains(k) <==> tag_hit(
                tags,
                #[trigger] msgs[k],
            )) by {
                if k < n {
                    assert(msgs.drop_last()[k] == msgs[k]);
                    if before.contains(k) {
                        assert(places[before.index_of(k)] == k);
                    }
                    if places.contains(k) {
                        assert(before[places.index_of(k)] == k);
                    }
                } else {
                    assert(places[before.len() as int] == n);
                }
            }
            places
        } else {
            assert forall|k: int| 0 <= k < msgs.len() implies (before.contains(k) <==> tag_hit(
                tags,
                #[trigger] msgs[k],
            )) by {
                if k < n {
                    assert(msgs.drop_last()[k] == msgs[k]);
                } else {
                    if before.contains(k) {
                        let i = before.index_of(k);
                        assert(before[i] < n);
                    }
                }
            }
            before
        }
    }
}

/// The name under which a consumer keeps what it knows of a queue.
pub open spec fn key_of(q: QueueView) -> Seq<char> {
    q.topic + "+"@ + q.broker_name + "+"@ + decimal(q.queue_id as int)
}

pub fn mq_key(mq: &MessageQueue) -> (r: String)
    ensures
        r@ == key_of(mq@),
{
    mq.topic.clone().concat("+").concat(mq.broker_name.as_str()).concat("+").concat(
        int_text(mq.queue_id as i64).as_str(),
    )
}

/// No plus sign is in a name.
pub open spec fn plain_name(s: Seq<char>) -> bool {
    forall|i: int| 0 <= i < s.len() ==> #[trigger] s[i] != '+'
}

proof fn lemma_plus_splits(a: Seq<char>, x: Seq<char>, b: Seq<char>, y: Seq<char>)
    requires
        plain_name(a),
        plain_name(b),
        a + "+"@ + x == b + "+"@ + y,
    ensures
        a == b,
        x == y,
{
    reveal_strlit("+");
    let s = a + "+"@ + x;
    let t = b + "+"@ + y;
    assert(s[a.len() as int] == '+');
    assert(t[b.len() as int] == '+');
    if a.len() < b.len() {
        assert(t[a.len() as int] == b[a.len() as int]);
    }
    if b.len() < a.len() {
        assert(s[b.len() as int] == a[b.len() as int]);
    }
    assert(s.subrange(0, a.len() as int) =~= a);
    assert(t.subrange(0, b.len() as int) =~= b);
    assert(s.subrange(a.len() as int + 1, s.len() as int) =~= x);
    assert(t.subrange(b.len() as int + 1, t.len() as int) =~= y);
}

/// Two queues have one key only if they are the same queue. (Names with a plus sign are left
/// out: no topic can have one.)
pub proof fn law_keys_tell_queues_apart(a: QueueView, b: QueueView)
    requires
        plain_name(a.topic) && plain_name(a.broker_name),
        plain_name(b.topic) && plain_name(b.broker_name),
    ensures
        key_of(a) == key_of(b) <==> a == b,
{
    if key_of(a) == key_of(b) {
        let x = decimal(a.queue_id as int);
        let y = decimal(b.queue_id as int);
        assert(key_of(a) =~= a.topic + "+"@ + (a.broker_name + "+"@ + x));
        assert(key_of(b) =~= b.topic + "+"@ + (b.broker_name + "+"@ + y));
        lemma_plus_splits(a.topic, a.broker_name + "+"@ + x, b.topic, b.broker_name + "+"@ + y);
        lemma_plus_splits(a.broker_name, x, b.broker_name, y);
        crate::text::lemma_decimal_injective(a.queue_id as int, b.queue_id as int);
    }
}

/// What queues are sorted by: topic, broker and number.
pub fn mq_sort_key(mq: &MessageQueue) -> (r: (String, String, i32))
    ensures
        r.0@ == mq@.topic,
        r.1@ == mq@.broker_name,
        r.2 == mq@.queue_id,
{
    (mq.topic.clone(), mq.broker_name.clone(), mq.queue_id)
}

/// The sort key, for comparing the order of keys with the order of queues.
pub fn _key_order_proof(mq: &MessageQueue) -> (r: (String, String, i32))
    ensures
        r.0@ == mq@.topic,
        r.1@ == mq@.broker_name,
        r.2 == mq@.queue_id,
{
    mq_sort_key(mq)
}

/// `a` stands before `b`: by topic, then by broker, then by number.
pub open spec fn queue_before(a: QueueView, b: QueueView) -> bool {
    if a.topic != b.topic {
        comes_before(a.topic, b.topic)
    } else if a.broker_name != b.broker_name {
        comes_before(a.broker_name, b.broker_name)
    } else {
        a.queue_id < b.queue_id
    }
}

/// No queue stands before one that it follows.
pub open spec fn in_order(v: Seq<MessageQueue>) -> bool {
    forall|i: int, j: int| 0 <= i < j < v.len() ==> !queue_before(#[trigger] v[j]@, #[trigger] v[i]@)
}

fn stands_before(a: &MessageQueue, b: &MessageQueue) -> (r: bool)
    ensures
        r == queue_before(a@, b@),
{
    if a.topic != b.topic {
        less(a.topic.as_str(), b.topic.as_str())
    } else if a.broker_name != b.broker_name {
        less(a.broker_name.as_str(), b.broker_name.as_str())
    } else {
        a.queue_id < b.queue_id
    }
}

proof fn lemma_queue_before_asym(a: QueueView, b: QueueView)
    requires
        queue_before(a, b),
    ensures
        !queue_before(b, a),
{
    if a.topic != b.topic {
        if comes_before(b.topic, a.topic) {
            lemma_before_transitive(a.topic, b.topic, a.topic);
            lemma_before_irreflexive(a.topic);
        }
    } else if a.broker_name != b.broker_name {
        if comes_before(b.broker_name, a.broker_name) {
            lemma_before_transitive(a.broker_name, b.broker_name, a.broker_name);
            lemma_before_irreflexive(a.broker_name);
        }
    }
}

/// Not being before is transitive.
proof fn lemma_not_before_transitive(a: QueueView, b: QueueView, c: QueueView)
    requires
        !queue_before(b, a),
        !queue_before(c, b),
    ensures
        !queue_before(c, a),
{
    lemma_before_total(a.topic, b.topic);
    lemma_before_total(b.topic, c.topic);
    lemma_before_total(a.broker_name, b.broker_name);
    lemma_before_total(b.broker_name, c.broker_name);
    if queue_before(c, a) {
        if comes_before(a.topic, b.topic) && comes_before(b.topic, c.topic) {
            lemma_before_transitive(a.topic, b.topic, c.topic);
        }
        if comes_before(a.broker_name, b.broker_name) && comes_before(b.broker_name, c.broker_name) {
            lemma_before_transitive(a.broker_name, b.broker_name, c.broker_name);
        }
        if c.topic != a.topic {
            lemma_before_irreflexive(c.topic);
            if comes_before(a.topic, c.topic) {
                lemma_before_transitive(a.topic, c.topic, a.topic);
                lemma_before_irreflexive(a.topic);
            }
        } else if c.broker_name != a.broker_name {
            if comes_before(a.topic, b.topic) && comes_before(b.topic, c.topic) {
                lemma_before_irreflexive(a.topic);
            }
            if comes_before(a.broker_name, c.broker_name) {
                lemma_before_transitive(a.broker_name, c.broker_name, a.broker_name);
                lemma_before_irreflexive(a.broker_name);
            }
        } else {
            lemma_before_irreflexive(a.topic);
            lemma_before_irreflexive(a.broker_name);
        }
    }
}

/// Sorts queues by topic, broker and number.
pub fn sort_mqs(mqs: &mut Vec<MessageQueue>)
    ensures
        in_order(final(mqs)@),
        final(mqs)@.to_multiset() == old(mqs)@.to_multiset(),
{
    broadcast use vstd::seq_lib::group_to_multiset_ensures;

    let n = mqs.len();
    let mut out: Vec<MessageQueue> = Vec::new();
    let mut done: usize = 0;
    let ghost all = mqs@;
    assert(out@.to_multiset() =~= all.subrange(0, 0).to_multiset()) by {
        assert(all.subrange(0, 0) =~= out@);
    }
    while done < n
        invariant
            done <= n == all.len(),
            mqs@ == all,
            in_order(out@),
            out@.len() == done,
            out@.to_multiset() == all.subrange(0, done as int).to_multiset(),
        decreases n - done,
    {
        let q = mqs[done].clone();
        let mut at: usize = 0;
        while at < out.len() && !stands_before(&q, &out[at])
            invariant
                at <= out@.len(),
                forall|j: int| 0 <= j < at ==> !queue_before(q@, #[trigger] out@[j]@),
            decreases out@.len() - at,
        {
            at = at + 1;
        }
        let ghost before = out@;
        out.insert(at, q);
        proof {
            let now = out@;
            assert(now =~= before.insert(at as int, q));
            assert forall|i: int, j: int| 0 <= i < j < now.len() implies !queue_before(
                #[trigger] now[j]@,
                #[trigger] now[i]@,
            ) by {
                if i == at {
                    lemma_queue_before_asym(q@, before[at as int]@);
                    if j > at + 1 {
                        assert(!queue_before(before[j - 1]@, before[at as int]@));
                        lemma_not_before_transitive(q@, before[at as int]@, before[j - 1]@);
                    }
                } else if j == at {
                    assert(now[i] == before[i]);
                } else {
                    let a = if i < at { i } else { i - 1 };
                    let b = if j < at { j } else { j - 1 };
                    assert(!queue_before(before[b]@, before[a]@));
                }
            }
            vstd::seq_lib::to_multiset_insert(before, at as int, q);
            let part = all.subrange(0, done + 1);
            assert(part =~= all.subrange(0, done as int).push(q));
            vstd::seq_lib::to_multiset_build(all.subrange(0, done as int), q);
        }
        done = done + 1;
    }
    assert(all.subrange(0, done as int) =~= all);
    *mqs = out;
}

/// What a heartbeat says of one consumer.
#[derive(Debug)]
pub struct ConsumerData {
    pub group_name: String,
    pub consume_type: String,
    pub message_model: String,
    pub consume_from_where: String,
    pub subscription_data_set: Vec<SubscriptionData>,
    pub unit_mode: bool,
}

/// What a client tells its brokers at intervals.
#[derive(Debug)]
pub struct HeartbeatData {
    pub client_id: String,
    pub consumer_data_set: Vec<ConsumerData>,
    pub producer_groups: Vec<String>,
}

impl HeartbeatData {
    pub fn new(client_id: &str) -> (r: HeartbeatData)
        ensures
            r.client_id@ == client_id@,
            r.consumer_data_set@.len() == 0,
            r.producer_groups@.len() == 0,
    {
        HeartbeatData {
            client_id: client_id.to_owned(),
            consumer_data_set: Vec::new(),
            producer_groups: Vec::new(),
        }
    }
}

proof fn lemma_hits_filter(tags: Seq<Seq<char>>, msgs: Seq<MessageExt>, taken: spec_fn(MessageExt) -> bool)
    requires
        forall|m: MessageExt| #[trigger] taken(m) <==> tag_hit(tags, m),
    ensures
        hits(tags, msgs) == msgs.filter(taken),
    decreases msgs.len(),
{
    reveal(Seq::filter);
    if msgs.len() > 0 {
        lemma_hits_filter(tags, msgs.drop_last(), taken);
        assert(taken(msgs.last()) <==> tag_hit(tags, msgs.last()));
    } else {
        assert(msgs =~= Seq::<MessageExt>::empty());
    }
}

/// A subscription with tags takes the messages whose tag is one of them, in their order, each as
/// often as it is there; one without tags, and no subscription, take them all.
pub proof fn law_tags_choose_the_messages(sub: Option<&SubscriptionData>, msgs: Vec<MessageExt>, r: Vec<MessageExt>)
    requires
        call_ensures(client_side_tag_filter, (sub, msgs), r),
    ensures
        sub is None || sub->0.tags_set@.len() == 0 ==> r@ == msgs@,
        sub is Some && sub->0.tags_set@.len() > 0 ==> r@ == msgs@.filter(
            |m: MessageExt|
                prop(m.properties, "TAGS"@) is Some && texts(sub->0.tags_set@).contains(prop(m.properties, "TAGS"@)->0),
        ),
{
    if let Some(s) = sub {
        assert(texts(s.tags_set@).len() == s.tags_set@.len());
        lemma_hits_filter(
            texts(s.tags_set@),
            msgs@,
            |m: MessageExt|
                prop(m.properties, "TAGS"@) is Some && texts(sub->0.tags_set@).contains(prop(m.properties, "TAGS"@)->0),
        );
    }
}

proof fn lemma_tags_of(parts: Seq<Seq<char>>)
    requires
        forall|i: int|
            0 <= i < parts.len() ==> (#[trigger] parts[i]).len() > 0 && !is_space(parts[i][0]) && !is_space(
                parts[i].last(),
            ),
        parts.no_duplicates(),
    ensures
        tags_of(parts) == parts,
    decreases parts.len(),
{
    if parts.len() > 0 {
        let front = parts.drop_last();
        assert forall|i: int| 0 <= i < front.len() implies (#[trigger] front[i]).len() > 0 && !is_space(front[i][0])
            && !is_space(front[i].last()) by {
            assert(front[i] == parts[i]);
        }
        assert(front.no_duplicates()) by {
            assert forall|i: int, j: int| 0 <= i < front.len() && 0 <= j < front.len() && i != j implies front[i]
                != front[j] by {
                assert(front[i] == parts[i] && front[j] == parts[j]);
            }
        }
        lemma_tags_of(front);
        let last = parts.last();
        assert(parts[parts.len() - 1] == last);
        lemma_trim_done(last);
        if front.contains(last) {
            let k = front.index_of(last);
            assert(parts[k] == parts[parts.len() - 1]);
        }
        assert(front.push(last) =~= parts);
    }
}

/// Tags with two bars between them are what a subscription goes by, each with its hash; the
/// expression is kept as it is.
pub proof fn law_expression_gives_its_tags(
    tags: Seq<Seq<char>>,
    topic: &str,
    expr: &str,
    r: Result<SubscriptionData, Error>,
    i: int,
    tag: &str,
    hash: i32,
)
    requires
        tags.len() > 0,
        forall|j: int|
            0 <= j < tags.len() ==> (#[trigger] tags[j]).len() > 0 && free_of(tags[j], '|') && !is_space(tags[j][0])
                && !is_space(tags[j].last()),
        tags.no_duplicates(),
        tags != seq!["*"@],
        expr@ == joined(tags, "||"@),
        call_ensures(build_subscription_data, (topic, Some(expr)), r),
        0 <= i < tags.len(),
        tag@ == tags[i],
        call_ensures(java_string_hash, (tag,), hash),
    ensures
        r is Ok,
        (r->Ok_0).topic@ == topic@ && (r->Ok_0).sub_string@ == expr@ && (r->Ok_0).expression_type@ == "TAG"@,
        texts((r->Ok_0).tags_set@) == tags,
        (r->Ok_0).code_set@.len() == tags.len() && (r->Ok_0).code_set@[i] == hash,
{
    reveal_strlit("||");
    reveal_strlit("*");
    assert("||"@[0] == '|');
    assert forall|j: int| 0 <= j < tags.len() implies free_of(#[trigger] tags[j], "||"@[0]) by {
        assert(tags[j].len() > 0);
    }
    lemma_pieces_of_parts(tags, "||"@);
    lemma_tags_of(tags);
    assert(tags[0].len() > 0);
    assert(pieces(expr@, "||"@)[0].len() > 0);
    lemma_pieces_join(expr@, "||"@);
    if expr@.len() == 0 {
        if tags.len() == 1 {
            assert(joined(tags, "||"@) == tags[0]);
        } else {
            assert(joined(tags, "||"@).len() >= 2);
        }
    }
    if expr@ == "*"@ {
        if tags.len() == 1 {
            assert(joined(tags, "||"@) == tags[0]);
            assert(tags =~= seq!["*"@]);
        } else {
            assert(joined(tags, "||"@).len() >= 2);
        }
    }
    let s = r->Ok_0;
    assert(ints(s.code_set@) == hashes(tags));
    assert(ints(s.code_set@).len() == s.code_set@.len());
    assert(ints(s.code_set@)[i] == s.code_set@[i]);
    assert(hashes(tags)[i] == string_hash(tags[i]));
}

/// No expression, an empty one and `*` take every message: there is no tag to go by. An expression
/// of bars alone is malformed.
pub proof fn law_star_takes_everything(topic: &str, expr: Option<&str>, r: Result<SubscriptionData, Error>, msgs: Vec<MessageExt>, kept: Vec<MessageExt>)
    requires
        expr is None || expr->0@.len() == 0 || expr->0@ == "*"@,
        call_ensures(build_subscription_data, (topic, expr), r),
        r matches Ok(s) ==> call_ensures(client_side_tag_filter, (Some(&s), msgs), kept),
    ensures
        r is Ok,
        (r->Ok_0).sub_string@ == "*"@ && (r->Ok_0).tags_set@.len() == 0 && (r->Ok_0).topic@ == topic@,
        kept@ == msgs@,
{
    assert(texts((r->Ok_0).tags_set@).len() == (r->Ok_0).tags_set@.len());
}

/// Two bars alone are no expression.
pub proof fn law_bars_alone_are_malformed(topic: &str, expr: &str, r: Result<SubscriptionData, Error>)
    requires
        expr@ == "||"@,
        call_ensures(build_subscription_data, (topic, Some(expr)), r),
    ensures
        r is Err && is_client(r->Err_0, None, "subString split error"@),
{
    reveal_strlit("||");
    reveal_strlit("*");
    let two = seq![Seq::<char>::empty(), Seq::<char>::empty()];
    reveal_with_fuel(joined, 3);
    assert(two.drop_last() =~= seq![Seq::<char>::empty()]);
    assert(joined(two, "||"@) =~= "||"@);
    lemma_pieces_of_parts(two, "||"@);
}

/// Queues that are sorted are the same queues, by topic, then by broker, then by number.
pub proof fn law_sorted_queues_are_in_order(mqs: &mut Vec<MessageQueue>, i: int, j: int, q: MessageQueue)
    requires
        call_ensures(sort_mqs, (mqs,), ()),
        0 <= i < j < final(mqs)@.len(),
    ensures
        ({
            let a = final(mqs)@[i]@;
            let b = final(mqs)@[j]@;
            &&& !comes_before(b.topic, a.topic)
            &&& a.topic == b.topic ==> !comes_before(b.broker_name, a.broker_name)
            &&& a.topic == b.topic && a.broker_name == b.broker_name ==> a.queue_id <= b.queue_id
        }),
        final(mqs)@.to_multiset().count(q) == old(mqs)@.to_multiset().count(q),
{
    let a = final(mqs)@[i]@;
    let b = final(mqs)@[j]@;
    let s = final(mqs)@;
    assert(in_order(s));
    assert(!queue_before(s[j]@, s[i]@));
    lemma_before_irreflexive(a.topic);
    lemma_before_irreflexive(a.broker_name);
}

/// A queue's key is made of its topic, its broker and its number, and of nothing else.
pub proof fn law_key_of_a_queue(mq: &MessageQueue, key: String, other: &MessageQueue, other_key: String)
    requires
        call_ensures(mq_key, (mq,), key),
        call_ensures(mq_key, (other,), other_key),
    ensures
        mq@ == other@ ==> key@ == other_key@,
        free_of(mq.topic@, '+') && free_of(mq.broker_name@, '+') && free_of(other.topic@, '+') && free_of(
            other.broker_name@,
            '+',
        ) && key@ == other_key@ ==> mq@ == other@,
{
    if free_of(mq.topic@, '+') && free_of(mq.broker_name@, '+') && free_of(other.topic@, '+') && free_of(
        other.broker_name@,
        '+',
    ) {
        law_keys_tell_queues_apart(mq@, other@);
    }
}

} // verus!

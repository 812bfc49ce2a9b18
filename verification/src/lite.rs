//! The lite pull consumer: it reads its queues in the background, and hands out what it has.
use vstd::prelude::*;

use crate::client::MQClientInstance;
use crate::clock::{bad_timestamp, consume_timestamp_millis, reading, shown_before, wall_clock, DAY_MILLIS};
use crate::config::LitePullConsumerConfig;
use crate::error::{is_client, Error};
use crate::message::{copy_texts, opt, or_empty, MessageExt, MessageQueue, QueueView};
use crate::names::{blank, in_namespace, is_blank, with_namespace};
use crate::producer::StartPlan;
use crate::pull::{asks, clock_id, consumer_not_started, plain_instance_cfg, tag_pull_header, PullPlan, PULL_SUSPEND_TIMEOUT_MILLIS};
use crate::result::{PullResult, PullStatus};
use crate::subscription::{
    all_empty, build_subscription_data, client_side_tag_filter, has_text, hits, in_order, key_of, mq_key, same_sub, sort_mqs, tags_of,
    takes_all, ConsumerData, HeartbeatData, MessageSelector, SubscriptionData, CONSUME_FROM_FIRST_OFFSET, CONSUME_FROM_TIMESTAMP,
    CONSUME_PASSIVELY, SUB_ALL, TAG,
};
use crate::table::Table;
use crate::text::{
    comes_before, lemma_before_irreflexive, lemma_before_total, lemma_before_transitive, less, non_blank, pieces, same,
    split_addrs, texts,
};

verus! {

/// For how long a pull may take.
pub const LITE_PULL_TIMEOUT_MILLIS: i64 = 30_000;

pub const LITE_HEARTBEAT_INTERVAL_MILLIS: u64 = 5_000;

pub const LITE_HEARTBEAT_TIMEOUT_MILLIS: i64 = 5_000;

/// The least time between two looks at who has which queue.
pub const LITE_REBALANCE_INTERVAL_MILLIS: i64 = 1_000;

/// For how long any other question to a broker may take.
pub const LITE_PULL_RPC_TIMEOUT_MILLIS: i64 = 5_000;

/// The most messages that one poll hands out.
pub const MAX_POLL_BATCH_SIZE: usize = 1024;

/// How long a round that brought messages waits before the next.
pub const BUSY_BACKOFF_MILLIS: u64 = 5;

/// What the consumer knows of its topics and queues. Queues go by their keys.
pub struct LiteState {
    /// Topics, with their expressions.
    pub subscription: Table<String>,
    /// What the heartbeat says of them.
    pub subscription_data: Table<SubscriptionData>,
    /// Expressions for queues that are assigned by hand.
    pub assign_sub_expr: Table<String>,
    /// Queues are assigned by hand.
    pub assign_mode: bool,
    pub assigned: Table<MessageQueue>,
    /// Where the next pull of a queue begins.
    pub next_offset: Table<i64>,
    /// Where the user wants a queue to be read from.
    pub seek_offset: Table<i64>,
    /// When what was read of a queue was last committed.
    pub last_commit: Table<i64>,
    pub paused: Table<()>,
    pub last_rebalance_ts: i64,
}

/// Reads queues in the background.
pub struct DefaultLitePullConsumer {
    pub cfg: LitePullConsumerConfig,
    pub state: LiteState,
    /// The number of the client instance, while there is one.
    pub client: Option<u64>,
    pub started: bool,
    pub running: bool,
    /// What was read and not yet handed out.
    pub buffer: Vec<MessageExt>,
}

pub open spec fn empty_state(s: LiteState) -> bool {
    &&& s.subscription@ == Map::<Seq<char>, String>::empty()
    &&& s.subscription_data@ == Map::<Seq<char>, SubscriptionData>::empty()
    &&& s.assign_sub_expr@ == Map::<Seq<char>, String>::empty()
    &&& !s.assign_mode
    &&& s.assigned@ == Map::<Seq<char>, MessageQueue>::empty()
    &&& s.next_offset@ == Map::<Seq<char>, i64>::empty()
    &&& s.seek_offset@ == Map::<Seq<char>, i64>::empty()
    &&& s.last_commit@ == Map::<Seq<char>, i64>::empty()
    &&& s.paused@ == Map::<Seq<char>, ()>::empty()
    &&& s.last_rebalance_ts == 0
}

pub open spec fn fresh_lite(c: DefaultLitePullConsumer, cfg: LitePullConsumerConfig) -> bool {
    &&& c.cfg == cfg
    &&& empty_state(c.state)
    &&& c.client is None
    &&& !c.started
    &&& !c.running
    &&& c.buffer@.len() == 0
}

/// A configuration with its numbers within bounds.
pub open spec fn clamped(c: LitePullConsumerConfig) -> LitePullConsumerConfig {
    LitePullConsumerConfig {
        pull_batch_size: if c.pull_batch_size < 1 {
            1
        } else {
            c.pull_batch_size
        },
        poll_timeout_millis: if c.poll_timeout_millis < 0 {
            0
        } else {
            c.poll_timeout_millis
        },
        auto_commit_interval_millis: if c.auto_commit_interval_millis < 0 {
            0
        } else {
            c.auto_commit_interval_millis
        },
        pull_interval_millis: if c.pull_interval_millis < 0 {
            0
        } else {
            c.pull_interval_millis
        },
        ..c
    }
}

/// `d` is the subscription of an expression.
pub open spec fn describes_sub(d: SubscriptionData, topic: Seq<char>, expr: Seq<char>) -> bool {
    &&& d.topic@ == topic
    &&& d.expression_type@ == TAG@
    &&& texts(d.tags_set@) == tags_for(expr)
    &&& d.sub_string@ == if takes_all(Some(expr)) {
        SUB_ALL@
    } else {
        expr
    }
}

/// An expression that says nothing.
pub open spec fn malformed(expr: Seq<char>) -> bool {
    !takes_all(Some(expr)) && all_empty(pieces(expr, "||"@))
}

/// The tags of an expression; none for one that takes all, or that says nothing.
pub open spec fn tags_for(expr: Seq<char>) -> Seq<Seq<char>> {
    if takes_all(Some(expr)) || malformed(expr) {
        Seq::empty()
    } else {
        tags_of(pieces(expr, "||"@))
    }
}

/// The messages that an expression takes.
pub open spec fn taken(expr: Seq<char>, msgs: Seq<MessageExt>) -> Seq<MessageExt> {
    if tags_for(expr).len() == 0 {
        msgs
    } else {
        hits(tags_for(expr), msgs)
    }
}

/// `after` is `before` with the subscription of a topic put down; one that is malformed is
/// taken out.
pub open spec fn sub_noted(
    before: Map<Seq<char>, SubscriptionData>,
    after: Map<Seq<char>, SubscriptionData>,
    topic: Seq<char>,
    expr: Seq<char>,
) -> bool {
    if malformed(expr) {
        after == before.remove(topic)
    } else {
        &&& after.dom().contains(topic)
        &&& describes_sub(after[topic], topic, expr)
        &&& after == before.insert(topic, after[topic])
    }
}

fn note_sub(table: &mut Table<SubscriptionData>, topic: &str, expr: &str)
    ensures
        sub_noted(old(table)@, final(table)@, topic@, expr@),
{
    match build_subscription_data(topic, Some(expr)) {
        Ok(sub) => {
            assert(describes_sub(sub, topic@, expr@)) by {
                if takes_all(Some(expr@)) {
                    assert(texts(sub.tags_set@) =~= Seq::<Seq<char>>::empty());
                }
            }
            table.insert(topic.to_owned(), sub);
        },
        Err(_) => {
            let _ = table.remove(topic);
        },
    }
}

/// `after` is `before` with a topic subscribed to.
pub open spec fn subscribed(
    before: DefaultLitePullConsumer,
    after: DefaultLitePullConsumer,
    topic: Seq<char>,
    expr: Seq<char>,
) -> bool {
    let t = in_namespace(before.cfg.namespace@, topic);
    let s = after.state;
    &&& !s.assign_mode
    &&& s.subscription@.dom() == before.state.subscription@.dom().insert(t)
    &&& s.subscription@ == before.state.subscription@.insert(t, s.subscription@[t])
    &&& s.subscription@[t]@ == expr
    &&& sub_noted(before.state.subscription_data@, s.subscription_data@, t, expr)
    &&& after == (DefaultLitePullConsumer {
        state: LiteState {
            assign_mode: s.assign_mode,
            subscription: s.subscription,
            subscription_data: s.subscription_data,
            ..before.state
        },
        ..before
    })
}

/// A table of queues with more of them put in, each under its key.
pub open spec fn keyed_onto(m: Map<Seq<char>, MessageQueue>, mqs: Seq<MessageQueue>) -> Map<Seq<char>, MessageQueue>
    decreases mqs.len(),
{
    if mqs.len() == 0 {
        m
    } else {
        keyed_onto(m, mqs.drop_last()).insert(key_of(mqs.last()@), mqs.last())
    }
}

fn put_queues(table: &mut Table<MessageQueue>, mqs: &[MessageQueue])
    ensures
        final(table)@ == keyed_onto(old(table)@, mqs@),
{
    let mut i: usize = 0;
    assert(mqs@.subrange(0, 0) =~= Seq::<MessageQueue>::empty());
    while i < mqs.len()
        invariant
            i <= mqs@.len(),
            table@ == keyed_onto(old(table)@, mqs@.subrange(0, i as int)),
        decreases mqs@.len() - i,
    {
        assert(mqs@.subrange(0, i + 1).drop_last() =~= mqs@.subrange(0, i as int));
        assert(mqs@.subrange(0, i + 1).last() == mqs@[i as int]);
        table.insert(mq_key(&mqs[i]), mqs[i].clone());
        i = i + 1;
    }
    assert(mqs@.subrange(0, i as int) =~= mqs@);
}

/// Every queue stands under its key.
pub open spec fn well_keyed(m: Map<Seq<char>, MessageQueue>) -> bool {
    forall|k: Seq<char>| m.dom().contains(k) ==> key_of((#[trigger] m[k])@) == k
}

proof fn lemma_keyed(m: Map<Seq<char>, MessageQueue>, mqs: Seq<MessageQueue>)
    requires
        well_keyed(m),
    ensures
        well_keyed(keyed_onto(m, mqs)),
    decreases mqs.len(),
{
    if mqs.len() > 0 {
        lemma_keyed(m, mqs.drop_last());
    }
}

/// The queues whose keys are not among `keys`, in order.
pub open spec fn without(vals: Seq<MessageQueue>, keys: Set<Seq<char>>) -> Seq<MessageQueue>
    decreases vals.len(),
{
    if vals.len() == 0 {
        Seq::empty()
    } else {
        let rest = without(vals.drop_last(), keys);
        if keys.contains(key_of(vals.last()@)) {
            rest
        } else {
            rest.push(vals.last())
        }
    }
}

fn queues_without<V>(queues: &Table<MessageQueue>, table: &Table<V>) -> (r: Vec<MessageQueue>)
    ensures
        r@ == without(queues.values(), table@.dom()),
{
    let n = queues.len();
    let mut out: Vec<MessageQueue> = Vec::new();
    let mut i: usize = 0;
    assert(queues.values().subrange(0, 0) =~= Seq::<MessageQueue>::empty());
    while i < n
        invariant
            i <= n == queues.order().len(),
            queues.listed(),
            out@ == without(queues.values().subrange(0, i as int), table@.dom()),
        decreases n - i,
    {
        let mq = queues.value_at(i);
        assert(queues.values().subrange(0, i + 1).drop_last() =~= queues.values().subrange(0, i as int));
        assert(queues.values().subrange(0, i + 1).last() == *mq);
        let key = mq_key(mq);
        if !table.contains(key.as_str()) {
            out.push(mq.clone());
        }
        i = i + 1;
    }
    assert(queues.values().subrange(0, i as int) =~= queues.values());
    out
}

/// The offsets of queues that are assigned, in the order of their keys.
pub open spec fn owned_offsets(
    order: Seq<Seq<char>>,
    offsets: Map<Seq<char>, i64>,
    assigned: Map<Seq<char>, MessageQueue>,
) -> Seq<(MessageQueue, i64)>
    decreases order.len(),
{
    if order.len() == 0 {
        Seq::empty()
    } else {
        let rest = owned_offsets(order.drop_last(), offsets, assigned);
        if assigned.dom().contains(order.last()) {
            rest.push((assigned[order.last()], offsets[order.last()]))
        } else {
            rest
        }
    }
}

/// Whether a message is of that queue, and before that offset.
pub open spec fn is_earlier(m: MessageExt, q: QueueView, offset: i64) -> bool {
    &&& m.topic@ == q.topic
    &&& opt(m.broker_name) == Some(q.broker_name)
    &&& m.queue_id == q.queue_id
    &&& m.queue_offset < offset
}

/// What is left in a buffer when a queue is read from `offset` on.
pub open spec fn after_seek(msgs: Seq<MessageExt>, q: QueueView, offset: i64) -> Seq<MessageExt>
    decreases msgs.len(),
{
    if msgs.len() == 0 {
        Seq::empty()
    } else {
        let rest = after_seek(msgs.drop_last(), q, offset);
        if is_earlier(msgs.last(), q, offset) {
            rest
        } else {
            rest.push(msgs.last())
        }
    }
}

/// A seek takes out of the buffer what is before it in its queue, and nothing else.
pub proof fn law_seek_forgets_only_earlier(msgs: Seq<MessageExt>, q: QueueView, offset: i64, m: MessageExt)
    ensures
        after_seek(msgs, q, offset).contains(m) <==> msgs.contains(m) && !is_earlier(m, q, offset),
    decreases msgs.len(),
{
    let out = after_seek(msgs, q, offset);
    if msgs.len() > 0 {
        let front = msgs.drop_last();
        law_seek_forgets_only_earlier(front, q, offset, m);
        let rest = after_seek(front, q, offset);
        if out.contains(m) {
            let k = out.index_of(m);
            if k < rest.len() {
                assert(rest[k] == m);
                assert(msgs[front.index_of(m)] == m);
            } else {
                assert(msgs[msgs.len() - 1] == m);
            }
        }
        if msgs.contains(m) && !is_earlier(m, q, offset) {
            let i = msgs.index_of(m);
            if i < front.len() {
                assert(front[i] == m);
                assert(out[rest.index_of(m)] == m);
            } else {
                assert(out[rest.len() as int] == m);
            }
        }
    }
}

fn is_before(m: &MessageExt, mq: &MessageQueue, offset: i64) -> (r: bool)
    ensures
        r == is_earlier(*m, mq@, offset),
{
    let here = match &m.broker_name {
        Some(b) => same(b.as_str(), mq.broker_name.as_str()),
        None => false,
    };
    same(m.topic.as_str(), mq.topic.as_str()) && here && m.queue_id == mq.queue_id && m.queue_offset < offset
}

/// A commit of several queues: the first failure is the one that counts.
#[derive(Debug)]
pub struct CommitRun {
    pub first_err: Option<Error>,
}

impl CommitRun {
    pub fn new() -> (r: CommitRun)
        ensures
            r.first_err is None,
    {
        CommitRun { first_err: None }
    }

    /// Takes what came of one queue.
    pub fn note(&mut self, got: Result<(), Error>)
        ensures
            final(self).first_err == match old(self).first_err {
                Some(e) => Some(e),
                None => match got {
                    Ok(_) => None,
                    Err(e) => Some(e),
                },
            },
    {
        if self.first_err.is_none() {
            if let Err(e) = got {
                self.first_err = Some(e);
            }
        }
    }

    pub fn finish(self) -> (r: Result<(), Error>)
        ensures
            match self.first_err {
                Some(e) => r == Err::<(), Error>(e),
                None => r is Ok,
            },
    {
        match self.first_err {
            Some(e) => Err(e),
            None => Ok(()),
        }
    }
}

/// Where a queue is to be read from.
#[derive(Debug, Clone, Copy, PartialEq, Eq, Structural)]
pub enum OffsetStep {
    /// From here.
    At(i64),
    /// From the first message that the broker has.
    AskMin,
    /// From the end of the queue.
    AskMax,
    /// From the first message at that time.
    AskTime(i64),
}

/// What one topic's queues came to: all of them, and the share of this consumer.
pub struct TopicShare {
    pub topic: String,
    pub all: Vec<MessageQueue>,
    pub divided: Vec<MessageQueue>,
}

/// The queues of all shares, each under its key.
pub open spec fn keyed_shares(shares: Seq<TopicShare>) -> Map<Seq<char>, MessageQueue>
    decreases shares.len(),
{
    if shares.len() == 0 {
        Map::empty()
    } else {
        keyed_onto(keyed_shares(shares.drop_last()), shares.last().divided@)
    }
}

/// Whether somebody listens to the change of a topic: where it has a queue here.
pub open spec fn is_told(s: TopicShare, assigned: Seq<MessageQueue>) -> bool {
    s.divided@.len() > 0 || exists|i: int| 0 <= i < assigned.len() && (#[trigger] assigned[i]).topic@ == s.topic@
}

/// The shares that a listener is told of, in order.
pub open spec fn told_shares(shares: Seq<TopicShare>, assigned: Seq<MessageQueue>) -> Seq<TopicShare>
    decreases shares.len(),
{
    if shares.len() == 0 {
        Seq::empty()
    } else {
        let rest = told_shares(shares.drop_last(), assigned);
        if is_told(shares.last(), assigned) {
            rest.push(shares.last())
        } else {
            rest
        }
    }
}

/// Offsets without those of the queues that were lost.
pub open spec fn kept_offsets(m: Map<Seq<char>, i64>, old: Set<Seq<char>>, new: Set<Seq<char>>) -> Map<Seq<char>, i64> {
    m.remove_keys(old.difference(new))
}

/// What a new division of the queues came to.
pub struct Rebalanced {
    /// Queues that were not this consumer's before, in the order of their keys.
    pub added: Vec<MessageQueue>,
    /// The topics that a listener is told of.
    pub changed: Vec<TopicShare>,
}

/// What is left to do when the consumer stops: the instance that it used, and what is
/// committed first.
pub struct LiteStop {
    pub client: Option<u64>,
    pub group: String,
    /// Nothing, where the consumer does not commit by itself.
    pub items: Vec<(MessageQueue, i64)>,
}

/// Why the consumer cannot start; `None` where it can, as far as that rests with it.
pub open spec fn lite_fault(c: DefaultLitePullConsumer, top_addressing: bool) -> Option<Seq<char>> {
    if c.cfg.name_server_addrs@.len() == 0 && !top_addressing {
        Some("name server address is not set"@)
    } else if c.state.subscription@.dom() == Set::<Seq<char>>::empty() && !c.state.assign_mode {
        Some("subscription is not set, call subscribe() or assign() first"@)
    } else {
        None
    }
}

/// `after` is `before` once it has started, when the wall clock showed `clock`; `plan` is what
/// it asks for.
pub open spec fn lite_started(
    before: DefaultLitePullConsumer,
    after: DefaultLitePullConsumer,
    plan: StartPlan,
    clock: Seq<char>,
) -> bool {
    let c = before.cfg;
    &&& plan.client_id@ == match c.client_id {
        Some(id) => id@,
        None => clock_id(c.instance_name@, clock),
    }
    &&& opt(after.cfg.client_id) == Some(plan.client_id@)
    &&& after == (DefaultLitePullConsumer {
        cfg: clamped(LitePullConsumerConfig { client_id: after.cfg.client_id, ..c }),
        started: true,
        ..before
    })
    &&& plan.name_server_addrs@ == c.name_server_addrs@
    &&& call_ensures(plain_instance_cfg, (c.tls_enable,), plan.instance_cfg)
}

/// The expression of a topic: by its subscription, or for its queues by hand, or all.
pub open spec fn expr_for(s: LiteState, topic: Seq<char>) -> Seq<char> {
    if s.subscription@.dom().contains(topic) {
        s.subscription@[topic]@
    } else if s.assign_sub_expr@.dom().contains(topic) {
        s.assign_sub_expr@[topic]@
    } else {
        SUB_ALL@
    }
}

impl DefaultLitePullConsumer {
    /// Every queue that is assigned stands under its key.
    pub open spec fn wf(&self) -> bool {
        well_keyed(self.state.assigned@)
    }

    /// It is on its way to start, or started, and has its instance.
    pub open spec fn ready(&self) -> bool {
        (self.running || self.started) && self.client is Some
    }

    /// A consumer with that configuration; its group cannot be blank.
    pub fn with_config(cfg: LitePullConsumerConfig) -> (r: Result<DefaultLitePullConsumer, Error>)
        ensures
            match r {
                Ok(c) => !blank(cfg.consumer_group@) && fresh_lite(c, cfg) && c.wf(),
                Err(e) => blank(cfg.consumer_group@) && is_client(e, None, "consumerGroup is empty"@),
            },
    {
        if is_blank(cfg.consumer_group.as_str()) {
            return Err(Error::client("consumerGroup is empty"));
        }
        Ok(
            DefaultLitePullConsumer {
                cfg,
                state: LiteState {
                    subscription: Table::new(),
                    subscription_data: Table::new(),
                    assign_sub_expr: Table::new(),
                    assign_mode: false,
                    assigned: Table::new(),
                    next_offset: Table::new(),
                    seek_offset: Table::new(),
                    last_commit: Table::new(),
                    paused: Table::new(),
                    last_rebalance_ts: 0,
                },
                client: None,
                started: false,
                running: false,
                buffer: Vec::new(),
            },
        )
    }

    /// A consumer of that group, with the default configuration.
    pub fn new(consumer_group: &str) -> (r: Result<DefaultLitePullConsumer, Error>)
        ensures
            match r {
                Ok(c) => {
                    &&& !blank(consumer_group@) && c.wf()
                    &&& c.cfg.consumer_group@ == consumer_group@
                    &&& exists|d: LitePullConsumerConfig| #[trigger]
                        call_ensures(LitePullConsumerConfig::default, (), d) && fresh_lite(
                            c,
                            LitePullConsumerConfig { consumer_group: c.cfg.consumer_group, ..d },
                        )
                },
                Err(e) => blank(consumer_group@) && is_client(e, None, "consumerGroup is empty"@),
            },
    {
        let mut cfg = LitePullConsumerConfig::default();
        let ghost d = cfg;
        cfg.consumer_group = consumer_group.to_owned();
        let ghost full = cfg;
        let r = DefaultLitePullConsumer::with_config(cfg);
        proof {
            assert(call_ensures(LitePullConsumerConfig::default, (), d));
            assert(full == (LitePullConsumerConfig { consumer_group: full.consumer_group, ..d }));
        }
        r
    }

    pub fn config(&self) -> (r: &LitePullConsumerConfig)
        ensures
            *r == self.cfg,
    {
        &self.cfg
    }

    fn clamp(&mut self)
        ensures
            *final(self) == (DefaultLitePullConsumer { cfg: clamped(old(self).cfg), ..*old(self) }),
    {
        if self.cfg.pull_batch_size < 1 {
            self.cfg.pull_batch_size = 1;
        }
        if self.cfg.poll_timeout_millis < 0 {
            self.cfg.poll_timeout_millis = 0;
        }
        if self.cfg.auto_commit_interval_millis < 0 {
            self.cfg.auto_commit_interval_millis = 0;
        }
        if self.cfg.pull_interval_millis < 0 {
            self.cfg.pull_interval_millis = 0;
        }
    }

    /// Takes over a configuration, with its numbers within bounds.
    pub fn update_config(&mut self, cfg: LitePullConsumerConfig)
        ensures
            *final(self) == (DefaultLitePullConsumer { cfg: clamped(cfg), ..*old(self) }),
    {
        self.cfg = cfg;
        self.clamp();
    }

    pub fn set_pull_batch_size(&mut self, value: i32)
        ensures
            *final(self) == (DefaultLitePullConsumer {
                cfg: clamped(LitePullConsumerConfig { pull_batch_size: value, ..old(self).cfg }),
                ..*old(self)
            }),
    {
        self.cfg.pull_batch_size = value;
        self.clamp();
    }

    pub fn set_poll_timeout_millis(&mut self, value: i64)
        ensures
            *final(self) == (DefaultLitePullConsumer {
                cfg: clamped(LitePullConsumerConfig { poll_timeout_millis: value, ..old(self).cfg }),
                ..*old(self)
            }),
    {
        self.cfg.poll_timeout_millis = value;
        self.clamp();
    }

    pub fn set_auto_commit(&mut self, value: bool)
        ensures
            *final(self) == (DefaultLitePullConsumer {
                cfg: clamped(LitePullConsumerConfig { auto_commit: value, ..old(self).cfg }),
                ..*old(self)
            }),
    {
        self.cfg.auto_commit = value;
        self.clamp();
    }

    pub fn set_auto_commit_interval_millis(&mut self, value: i64)
        ensures
            *final(self) == (DefaultLitePullConsumer {
                cfg: clamped(LitePullConsumerConfig { auto_commit_interval_millis: value, ..old(self).cfg }),
                ..*old(self)
            }),
    {
        self.cfg.auto_commit_interval_millis = value;
        self.clamp();
    }

    pub fn set_pull_interval_millis(&mut self, value: i64)
        ensures
            *final(self) == (DefaultLitePullConsumer {
                cfg: clamped(LitePullConsumerConfig { pull_interval_millis: value, ..old(self).cfg }),
                ..*old(self)
            }),
    {
        self.cfg.pull_interval_millis = value;
        self.clamp();
    }

    pub fn set_consume_from_where(&mut self, value: &str)
        ensures
            final(self).cfg.consume_from_where@ == value@,
            *final(self) == (DefaultLitePullConsumer {
                cfg: clamped(LitePullConsumerConfig { consume_from_where: final(self).cfg.consume_from_where, ..old(self).cfg }),
                ..*old(self)
            }),
    {
        self.cfg.consume_from_where = value.to_owned();
        self.clamp();
    }

    pub fn set_consume_timestamp(&mut self, value: &str)
        ensures
            final(self).cfg.consume_timestamp@ == value@,
            *final(self) == (DefaultLitePullConsumer {
                cfg: clamped(LitePullConsumerConfig { consume_timestamp: final(self).cfg.consume_timestamp, ..old(self).cfg }),
                ..*old(self)
            }),
    {
        self.cfg.consume_timestamp = value.to_owned();
        self.clamp();
    }

    pub fn set_instance_name(&mut self, value: &str)
        ensures
            final(self).cfg.instance_name@ == value@,
            *final(self) == (DefaultLitePullConsumer {
                cfg: clamped(LitePullConsumerConfig { instance_name: final(self).cfg.instance_name, ..old(self).cfg }),
                ..*old(self)
            }),
    {
        self.cfg.instance_name = value.to_owned();
        self.clamp();
    }

    pub fn set_message_model(&mut self, value: &str)
        ensures
            final(self).cfg.message_model@ == value@,
            *final(self) == (DefaultLitePullConsumer {
                cfg: clamped(LitePullConsumerConfig { message_model: final(self).cfg.message_model, ..old(self).cfg }),
                ..*old(self)
            }),
    {
        self.cfg.message_model = value.to_owned();
        self.clamp();
    }

    pub fn set_namespace(&mut self, value: &str)
        ensures
            final(self).cfg.namespace@ == value@,
            *final(self) == (DefaultLitePullConsumer {
                cfg: clamped(LitePullConsumerConfig { namespace: final(self).cfg.namespace, ..old(self).cfg }),
                ..*old(self)
            }),
    {
        self.cfg.namespace = value.to_owned();
        self.clamp();
    }

    /// Takes over name servers from a list with semicolons.
    pub fn set_namesrv_addr(&mut self, addr: &str)
        ensures
            texts(final(self).cfg.name_server_addrs@) == non_blank(pieces(addr@, ";"@)),
            *final(self) == (DefaultLitePullConsumer {
                cfg: clamped(
                    LitePullConsumerConfig {
                        name_server_addrs: final(self).cfg.name_server_addrs,
                        ..old(self).cfg
                    },
                ),
                ..*old(self)
            }),
    {
        self.cfg.name_server_addrs = split_addrs(addr);
        self.clamp();
    }

    pub fn set_name_server_addresses(&mut self, addrs: &Vec<String>)
        ensures
            final(self).cfg.name_server_addrs@ == addrs@,
            *final(self) == (DefaultLitePullConsumer {
                cfg: clamped(
                    LitePullConsumerConfig {
                        name_server_addrs: final(self).cfg.name_server_addrs,
                        ..old(self).cfg
                    },
                ),
                ..*old(self)
            }),
    {
        self.cfg.name_server_addrs = copy_texts(addrs);
        self.clamp();
    }

    pub fn consumer_group(&self) -> (r: String)
        ensures
            r == self.cfg.consumer_group,
    {
        self.cfg.consumer_group.clone()
    }

    /// The client id; the empty text while there is none.
    pub fn client_id(&self) -> (r: String)
        ensures
            r@ == match self.cfg.client_id {
                Some(id) => id@,
                None => Seq::empty(),
            },
    {
        or_empty(&self.cfg.client_id)
    }

    pub fn is_started(&self) -> (r: bool)
        ensures
            r == self.started,
    {
        self.started
    }

    pub fn is_running(&self) -> (r: bool)
        ensures
            r == self.running,
    {
        self.running
    }

    /// Subscribes to a topic, inside the namespace, and lets queues be divided again. A
    /// malformed expression is kept, but the heartbeat does not say anything of the topic.
    pub fn subscribe(&mut self, topic: &str, sub_expression: &str)
        ensures
            subscribed(*old(self), *final(self), topic@, sub_expression@),
    {
        let t = with_namespace(self.cfg.namespace.as_str(), topic);
        self.state.assign_mode = false;
        self.state.subscription.insert(t.clone(), sub_expression.to_owned());
        note_sub(&mut self.state.subscription_data, t.as_str(), sub_expression);
    }

    /// Subscribes with a selector. Whatever kind of expression it holds is taken for tags.
    pub fn subscribe_with_selector(&mut self, topic: &str, selector: &MessageSelector)
        ensures
            subscribed(*old(self), *final(self), topic@, selector.expression@),
    {
        self.subscribe(topic, selector.expression.as_str());
    }

    pub fn unsubscribe(&mut self, topic: &str)
        ensures
            ({
                let t = in_namespace(old(self).cfg.namespace@, topic@);
                let s = final(self).state;
                &&& s.subscription@ == old(self).state.subscription@.remove(t)
                &&& s.subscription_data@ == old(self).state.subscription_data@.remove(t)
                &&& *final(self) == (DefaultLitePullConsumer {
                    state: LiteState {
                        subscription: s.subscription,
                        subscription_data: s.subscription_data,
                        ..old(self).state
                    },
                    ..*old(self)
                })
            }),
    {
        let t = with_namespace(self.cfg.namespace.as_str(), topic);
        let _ = self.state.subscription.remove(t.as_str());
        let _ = self.state.subscription_data.remove(t.as_str());
    }

    /// The expression for queues of a topic that are assigned by hand.
    pub fn set_sub_expression_for_assign(&mut self, topic: &str, sub_expression: &str)
        ensures
            ({
                let t = in_namespace(old(self).cfg.namespace@, topic@);
                let s = final(self).state;
                &&& s.assign_sub_expr@.dom() == old(self).state.assign_sub_expr@.dom().insert(t)
                &&& s.assign_sub_expr@ == old(self).state.assign_sub_expr@.insert(t, s.assign_sub_expr@[t])
                &&& s.assign_sub_expr@[t]@ == sub_expression@
                &&& sub_noted(old(self).state.subscription_data@, s.subscription_data@, t, sub_expression@)
                &&& *final(self) == (DefaultLitePullConsumer {
                    state: LiteState {
                        assign_sub_expr: s.assign_sub_expr,
                        subscription_data: s.subscription_data,
                        ..old(self).state
                    },
                    ..*old(self)
                })
            }),
    {
        let t = with_namespace(self.cfg.namespace.as_str(), topic);
        self.state.assign_sub_expr.insert(t.clone(), sub_expression.to_owned());
        note_sub(&mut self.state.subscription_data, t.as_str(), sub_expression);
    }

    /// Assigns queues by hand, in place of all others.
    pub fn assign(&mut self, message_queues: &[MessageQueue])
        ensures
            final(self).wf(),
            final(self).state.assign_mode,
            final(self).state.assigned@ == keyed_onto(Map::empty(), message_queues@),
            *final(self) == (DefaultLitePullConsumer {
                state: LiteState {
                    assign_mode: true,
                    assigned: final(self).state.assigned,
                    ..old(self).state
                },
                ..*old(self)
            }),
    {
        let mut assigned: Table<MessageQueue> = Table::new();
        put_queues(&mut assigned, message_queues);
        proof {
            lemma_keyed(Map::empty(), message_queues@);
        }
        self.state.assign_mode = true;
        self.state.assigned = assigned;
    }

    /// The topics with their expressions, in order.
    pub fn subscription(&self) -> (r: Vec<(String, String)>)
        ensures
            r@.len() == self.state.subscription.order().len(),
            forall|i: int|
                0 <= i < r@.len() ==> (#[trigger] r@[i]).0@ == self.state.subscription.order()[i] && r@[i].1
                    == self.state.subscription.values()[i],
    {
        let n = self.state.subscription.len();
        let mut out: Vec<(String, String)> = Vec::new();
        let mut i: usize = 0;
        while i < n
            invariant
                i <= n == self.state.subscription.order().len(),
                out@.len() == i,
                forall|j: int|
                    0 <= j < i ==> (#[trigger] out@[j]).0@ == self.state.subscription.order()[j] && out@[j].1
                        == self.state.subscription.values()[j],
            decreases n - i,
        {
            out.push((self.state.subscription.key_at(i).clone(), self.state.subscription.value_at(i).clone()));
            i = i + 1;
        }
        out
    }

    /// What the heartbeat says of the topics, in order.
    pub fn subscriptions(&self) -> (r: Vec<SubscriptionData>)
        ensures
            r@.len() == self.state.subscription_data.order().len(),
            forall|i: int|
                0 <= i < r@.len() ==> same_sub(
                    #[trigger] r@[i],
                    self.state.subscription_data.values()[i],
                ),
    {
        let n = self.state.subscription_data.len();
        let mut out: Vec<SubscriptionData> = Vec::new();
        let mut i: usize = 0;
        while i < n
            invariant
                i <= n == self.state.subscription_data.order().len(),
                out@.len() == i,
                forall|j: int|
                    0 <= j < i ==> same_sub(#[trigger] out@[j], self.state.subscription_data.values()[j]),
            decreases n - i,
        {
            out.push(self.state.subscription_data.value_at(i).clone());
            i = i + 1;
        }
        out
    }

    pub fn is_assign_mode(&self) -> (r: bool)
        ensures
            r == self.state.assign_mode,
    {
        self.state.assign_mode
    }

    /// The queues that are assigned, in the order of their keys.
    pub fn assignment(&self) -> (r: Vec<MessageQueue>)
        ensures
            r@ == self.state.assigned.values(),
    {
        let n = self.state.assigned.len();
        let mut out: Vec<MessageQueue> = Vec::new();
        let mut i: usize = 0;
        while i < n
            invariant
                i <= n == self.state.assigned.order().len(),
                self.state.assigned.listed(),
                out@ == self.state.assigned.values().subrange(0, i as int),
            decreases n - i,
        {
            out.push(self.state.assigned.value_at(i).clone());
            i = i + 1;
        }
        assert(out@ =~= self.state.assigned.values());
        out
    }

    /// Starts the consumer when the wall clock shows `clock`; `stamp` is what the time to begin
    /// at means. One that is started stays as it is, and so does one that cannot start.
    pub fn begin_start_at(&mut self, top_addressing: bool, stamp: Result<i64, Error>, clock: &str) -> (r: Result<
        Option<StartPlan>,
        Error,
    >)
        ensures
            match r {
                Ok(None) => old(self).started && *final(self) == *old(self),
                Err(e) => !old(self).started && *final(self) == *old(self) && match lite_fault(
                    *old(self),
                    top_addressing,
                ) {
                    Some(text) => is_client(e, None, text),
                    None => stamp == Err::<i64, Error>(e),
                },
                Ok(Some(plan)) => !old(self).started && lite_fault(*old(self), top_addressing) is None && stamp is Ok
                    && lite_started(*old(self), *final(self), plan, clock@),
            },
    {
        if self.started {
            return Ok(None);
        }
        if self.cfg.name_server_addrs.len() == 0 && !top_addressing {
            return Err(Error::client("name server address is not set"));
        }
        if self.state.subscription.is_empty() && !self.state.assign_mode {
            return Err(Error::client("subscription is not set, call subscribe() or assign() first"));
        }
        if let Err(e) = stamp {
            return Err(e);
        }
        let client_id: String = match &self.cfg.client_id {
            Some(id) => id.clone(),
            None => self.cfg.instance_name.clone().concat("@").concat(clock),
        };
        let addrs = copy_texts(&self.cfg.name_server_addrs);
        let instance_cfg = plain_instance_cfg(self.cfg.tls_enable);
        self.cfg.client_id = Some(client_id.clone());
        self.clamp();
        self.started = true;
        Ok(Some(StartPlan { client_id, name_server_addrs: addrs, instance_cfg }))
    }

    /// Starts the consumer now. The time to begin at must be a wall clock.
    pub fn begin_start(&mut self, top_addressing: bool) -> (r: Result<Option<StartPlan>, Error>)
        ensures
            match r {
                Ok(None) => old(self).started && *final(self) == *old(self),
                Err(e) => !old(self).started && *final(self) == *old(self) && match lite_fault(
                    *old(self),
                    top_addressing,
                ) {
                    Some(text) => is_client(e, None, text),
                    None => is_client(e, None, bad_timestamp(old(self).cfg.consume_timestamp@)),
                },
                Ok(Some(plan)) => {
                    &&& !old(self).started && lite_fault(*old(self), top_addressing) is None
                    &&& reading(old(self).cfg.consume_timestamp@) is Some
                    &&& exists|clock: Seq<char>|
                        shown_before(clock, 0) && #[trigger] lite_started(*old(self), *final(self), plan, clock)
                },
            },
    {
        let stamp = consume_timestamp_millis(self.cfg.consume_timestamp.as_str());
        let clock = wall_clock();
        self.begin_start_at(top_addressing, stamp, clock.as_str())
    }

    /// The instance could not start: the consumer is as good as never started.
    pub fn start_failed(&mut self)
        ensures
            *final(self) == (DefaultLitePullConsumer { started: false, ..*old(self) }),
    {
        self.started = false;
    }

    /// The instance has started. Name servers that it found are taken over where none were
    /// configured. Gives the queues that were assigned and have no offset yet.
    pub fn client_started<C>(&mut self, number: u64, instance: &MQClientInstance<C>) -> (r: Vec<MessageQueue>)
        ensures
            r@ == without(old(self).state.assigned.values(), old(self).state.next_offset@.dom()),
            final(self).cfg.name_server_addrs@ == if old(self).cfg.name_server_addrs@.len() == 0 {
                instance.name_server_addrs@
            } else {
                old(self).cfg.name_server_addrs@
            },
            *final(self) == (DefaultLitePullConsumer {
                client: Some(number),
                cfg: final(self).cfg,
                ..*old(self)
            }),
            final(self).cfg == if old(self).cfg.name_server_addrs@.len() == 0 && instance.name_server_addrs@.len() > 0 {
                clamped(
                    LitePullConsumerConfig {
                        name_server_addrs: final(self).cfg.name_server_addrs,
                        ..old(self).cfg
                    },
                )
            } else {
                old(self).cfg
            },
    {
        self.client = Some(number);
        if self.cfg.name_server_addrs.len() == 0 {
            let addrs = instance.name_server_addrs();
            if addrs.len() > 0 {
                self.cfg.name_server_addrs = addrs;
                self.clamp();
            }
        }
        proof {
            if old(self).cfg.name_server_addrs@.len() == 0 && instance.name_server_addrs@.len() == 0 {
                assert(old(self).cfg.name_server_addrs@ =~= instance.name_server_addrs@);
            }
        }
        queues_without(&self.state.assigned, &self.state.next_offset)
    }

    /// The background work begins.
    pub fn begin_running(&mut self)
        ensures
            *final(self) == (DefaultLitePullConsumer { running: true, ..*old(self) }),
    {
        self.running = true;
    }

    /// What a commit is about: the offsets of the queues that are assigned.
    pub fn commit_items(&self) -> (r: Vec<(MessageQueue, i64)>)
        ensures
            self.state.next_offset.listed(),
            r@ == owned_offsets(
                self.state.next_offset.order(),
                self.state.next_offset@,
                self.state.assigned@,
            ),
    {
        let n = self.state.next_offset.len();
        let mut out: Vec<(MessageQueue, i64)> = Vec::new();
        let mut i: usize = 0;
        let ghost order = self.state.next_offset.order();
        assert(order.subrange(0, 0) =~= Seq::<Seq<char>>::empty());
        while i < n
            invariant
                i <= n == order.len(),
                order == self.state.next_offset.order(),
                self.state.next_offset.listed(),
                out@ == owned_offsets(
                    order.subrange(0, i as int),
                    self.state.next_offset@,
                    self.state.assigned@,
                ),
            decreases n - i,
        {
            assert(order.subrange(0, i + 1).drop_last() =~= order.subrange(0, i as int));
            assert(order.subrange(0, i + 1).last() == order[i as int]);
            let offset: i64 = *self.state.next_offset.value_at(i);
            assert(self.state.next_offset@[order[i as int]] == self.state.next_offset.values()[i as int]);
            let key = self.state.next_offset.key_at(i);
            match self.state.assigned.get(key.as_str()) {
                Some(mq) => {
                    out.push((mq.clone(), offset));
                },
                None => {},
            }
            i = i + 1;
        }
        assert(order.subrange(0, i as int) =~= order);
        out
    }

    /// Stops the consumer; one that is not started stays as it is.
    pub fn begin_shutdown(&mut self) -> (r: Option<LiteStop>)
        ensures
            match r {
                None => !old(self).started && *final(self) == *old(self),
                Some(plan) => {
                    &&& old(self).started
                    &&& *final(self) == (DefaultLitePullConsumer {
                        started: false,
                        running: false,
                        client: None,
                        ..*old(self)
                    })
                    &&& plan.client == old(self).client
                    &&& plan.group == old(self).cfg.consumer_group
                    &&& old(self).cfg.auto_commit ==> old(self).state.next_offset.listed()
                    &&& plan.items@ == if old(self).cfg.auto_commit {
                        owned_offsets(
                            old(self).state.next_offset.order(),
                            old(self).state.next_offset@,
                            old(self).state.assigned@,
                        )
                    } else {
                        Seq::empty()
                    }
                },
            },
    {
        if !self.started {
            return None;
        }
        self.started = false;
        self.running = false;
        let client = self.client;
        self.client = None;
        let items: Vec<(MessageQueue, i64)> = if self.cfg.auto_commit {
            self.commit_items()
        } else {
            Vec::new()
        };
        Some(LiteStop { client, group: self.consumer_group(), items })
    }

    /// The instance to read through.
    pub fn require_client(&self) -> (r: Result<u64, Error>)
        ensures
            match r {
                Ok(n) => self.ready() && self.client == Some(n),
                Err(e) => !self.ready() && consumer_not_started(e),
            },
    {
        if !self.running && !self.started {
            return Err(Error::client("consumer not started, call start() first"));
        }
        match self.client {
            Some(n) => Ok(n),
            None => Err(Error::client("consumer not started, call start() first")),
        }
    }

    /// The heartbeat of this consumer: of itself alone.
    pub fn build_lite_heartbeat(&self) -> (r: HeartbeatData)
        ensures
            r.client_id@ == match self.cfg.client_id {
                Some(id) => id@,
                None => Seq::empty(),
            },
            r.producer_groups@.len() == 0,
            r.consumer_data_set@.len() == 1,
            ({
                let d = r.consumer_data_set@[0];
                &&& d.group_name == self.cfg.consumer_group
                &&& d.consume_type@ == CONSUME_PASSIVELY@
                &&& d.message_model == self.cfg.message_model
                &&& d.consume_from_where == self.cfg.consume_from_where
                &&& !d.unit_mode
                &&& d.subscription_data_set@.len() == self.state.subscription_data.order().len()
                &&& forall|i: int|
                    0 <= i < d.subscription_data_set@.len() ==> same_sub(
                        #[trigger] d.subscription_data_set@[i],
                        self.state.subscription_data.values()[i],
                    )
            }),
    {
        let id = self.client_id();
        let mut hb = HeartbeatData::new(id.as_str());
        hb.consumer_data_set.push(
            ConsumerData {
                group_name: self.consumer_group(),
                consume_type: CONSUME_PASSIVELY.to_owned(),
                message_model: self.cfg.message_model.clone(),
                consume_from_where: self.cfg.consume_from_where.clone(),
                subscription_data_set: self.subscriptions(),
                unit_mode: false,
            },
        );
        hb
    }

    /// For how long a poll waits.
    pub fn poll_wait_millis(&self, timeout_millis: Option<i64>) -> (r: u64)
        ensures
            ({
                let t = timeout_millis.unwrap_or(self.cfg.poll_timeout_millis);
                r == if t < 0 {
                    0
                } else {
                    t as int
                }
            }),
    {
        let t: i64 = timeout_millis.unwrap_or(self.cfg.poll_timeout_millis);
        if t < 0 {
            0
        } else {
            t as u64
        }
    }

    /// Hands out what was read, oldest first, up to a limit; `None` where there is nothing.
    pub fn try_drain(&mut self) -> (r: Option<Vec<MessageExt>>)
        ensures
            match r {
                None => old(self).buffer@.len() == 0 && *final(self) == *old(self),
                Some(v) => {
                    &&& old(self).buffer@.len() > 0
                    &&& v@ + final(self).buffer@ == old(self).buffer@
                    &&& v@.len() == if old(self).buffer@.len() < MAX_POLL_BATCH_SIZE {
                        old(self).buffer@.len()
                    } else {
                        MAX_POLL_BATCH_SIZE as nat
                    }
                    &&& *final(self) == (DefaultLitePullConsumer { buffer: final(self).buffer, ..*old(self) })
                },
            },
    {
        let n = self.buffer.len();
        if n == 0 {
            return None;
        }
        let mut rest: Vec<MessageExt> = if n > MAX_POLL_BATCH_SIZE {
            self.buffer.split_off(MAX_POLL_BATCH_SIZE)
        } else {
            Vec::new()
        };
        std::mem::swap(&mut self.buffer, &mut rest);
        assert(rest@ + self.buffer@ =~= old(self).buffer@);
        Some(rest)
    }

    /// Puts what was read behind what is there.
    pub fn enqueue(&mut self, msgs: Vec<MessageExt>)
        ensures
            final(self).buffer@ == old(self).buffer@ + msgs@,
            *final(self) == (DefaultLitePullConsumer { buffer: final(self).buffer, ..*old(self) }),
    {
        let mut more = msgs;
        self.buffer.append(&mut more);
    }

    pub fn buffered_message_count(&self) -> (r: usize)
        ensures
            r == self.buffer@.len(),
    {
        self.buffer.len()
    }

    /// Has a queue read from `offset` on: what was read before that is forgotten.
    pub fn seek(&mut self, mq: &MessageQueue, offset: i64)
        ensures
            final(self).state.seek_offset@ == old(self).state.seek_offset@.insert(key_of(mq@), offset),
            final(self).state.next_offset@ == old(self).state.next_offset@.insert(key_of(mq@), offset),
            final(self).buffer@ == after_seek(old(self).buffer@, mq@, offset),
            *final(self) == (DefaultLitePullConsumer {
                state: LiteState {
                    seek_offset: final(self).state.seek_offset,
                    next_offset: final(self).state.next_offset,
                    ..old(self).state
                },
                buffer: final(self).buffer,
                ..*old(self)
            }),
    {
        let key = mq_key(mq);
        self.state.seek_offset.insert(key.clone(), offset);
        self.state.next_offset.insert(key, offset);
        let ghost all = self.buffer@;
        let mut rest: Vec<MessageExt> = Vec::new();
        std::mem::swap(&mut self.buffer, &mut rest);
        let ghost mut done: int = 0;
        let mut kept: Vec<MessageExt> = Vec::new();
        assert(all.subrange(0, 0) =~= Seq::<MessageExt>::empty());
        while rest.len() > 0
            invariant
                0 <= done <= all.len(),
                rest@ == all.subrange(done, all.len() as int),
                kept@ == after_seek(all.subrange(0, done), mq@, offset),
            decreases rest.len(),
        {
            let m = rest.remove(0);
            assert(m == all[done]);
            assert(all.subrange(0, done + 1).drop_last() =~= all.subrange(0, done));
            assert(all.subrange(0, done + 1).last() == m);
            if !is_before(&m, mq, offset) {
                kept.push(m);
            }
            proof {
                done = done + 1;
            }
            assert(rest@ =~= all.subrange(done, all.len() as int));
        }
        assert(all.subrange(0, done) =~= all);
        self.buffer = kept;
    }

    /// Stops reading queues.
    pub fn pause(&mut self, message_queues: &[MessageQueue])
        ensures
            final(self).state.paused@.dom() == old(self).state.paused@.dom().union(keys_of(message_queues@)),
            *final(self) == (DefaultLitePullConsumer {
                state: LiteState { paused: final(self).state.paused, ..old(self).state },
                ..*old(self)
            }),
    {
        let mut i: usize = 0;
        assert(self.state.paused@.dom() =~= old(self).state.paused@.dom().union(
            keys_of(message_queues@.subrange(0, 0)),
        ));
        while i < message_queues.len()
            invariant
                i <= message_queues@.len(),
                self.state.paused@.dom() == old(self).state.paused@.dom().union(
                    keys_of(message_queues@.subrange(0, i as int)),
                ),
                *self == (DefaultLitePullConsumer {
                    state: LiteState { paused: self.state.paused, ..old(self).state },
                    ..*old(self)
                }),
            decreases message_queues@.len() - i,
        {
            proof {
                lemma_keys_push(message_queues@, i as int);
            }
            self.state.paused.insert(mq_key(&message_queues[i]), ());
            assert(self.state.paused@.dom() =~= old(self).state.paused@.dom().union(
                keys_of(message_queues@.subrange(0, i + 1)),
            ));
            i = i + 1;
        }
        assert(message_queues@.subrange(0, i as int) =~= message_queues@);
    }

    /// Reads queues again.
    pub fn resume(&mut self, message_queues: &[MessageQueue])
        ensures
            final(self).state.paused@.dom() == old(self).state.paused@.dom().difference(keys_of(message_queues@)),
            *final(self) == (DefaultLitePullConsumer {
                state: LiteState { paused: final(self).state.paused, ..old(self).state },
                ..*old(self)
            }),
    {
        let mut i: usize = 0;
        assert(self.state.paused@.dom() =~= old(self).state.paused@.dom().difference(
            keys_of(message_queues@.subrange(0, 0)),
        ));
        while i < message_queues.len()
            invariant
                i <= message_queues@.len(),
                self.state.paused@.dom() == old(self).state.paused@.dom().difference(
                    keys_of(message_queues@.subrange(0, i as int)),
                ),
                *self == (DefaultLitePullConsumer {
                    state: LiteState { paused: self.state.paused, ..old(self).state },
                    ..*old(self)
                }),
            decreases message_queues@.len() - i,
        {
            proof {
                lemma_keys_push(message_queues@, i as int);
            }
            let key = mq_key(&message_queues[i]);
            let _ = self.state.paused.remove(key.as_str());
            assert(self.state.paused@.dom() =~= old(self).state.paused@.dom().difference(
                keys_of(message_queues@.subrange(0, i + 1)),
            ));
            i = i + 1;
        }
        assert(message_queues@.subrange(0, i as int) =~= message_queues@);
    }

    /// The expression of a topic.
    pub fn subscription_for(&self, topic: &str) -> (r: String)
        ensures
            r@ == expr_for(self.state, topic@),
    {
        if let Some(expr) = self.state.subscription.get(topic) {
            return expr.clone();
        }
        if let Some(expr) = self.state.assign_sub_expr.get(topic) {
            return expr.clone();
        }
        SUB_ALL.to_owned()
    }

    /// Where the next pull of a queue begins, where that is known.
    pub fn known_offset(&self, mq: &MessageQueue) -> (r: Option<i64>)
        ensures
            r == if self.state.next_offset@.dom().contains(key_of(mq@)) {
                Some(self.state.next_offset@[key_of(mq@)])
            } else {
                None
            },
    {
        let key = mq_key(mq);
        match self.state.next_offset.get(key.as_str()) {
            Some(o) => Some(*o),
            None => None,
        }
    }

    /// Where the user wants a queue to be read from.
    pub fn sought_offset(&self, mq: &MessageQueue) -> (r: Option<i64>)
        ensures
            r == if self.state.seek_offset@.dom().contains(key_of(mq@)) {
                Some(self.state.seek_offset@[key_of(mq@)])
            } else {
                None
            },
    {
        let key = mq_key(mq);
        match self.state.seek_offset.get(key.as_str()) {
            Some(o) => Some(*o),
            None => None,
        }
    }

    /// Where a queue is read from at first, when `stamp` is what the time to begin at means:
    /// where the user wants it, or from where its group left off (`committed`, as far as the
    /// broker knows), or as the configuration says.
    pub fn first_offset_at(&self, mq: &MessageQueue, committed: Option<i64>, stamp: Result<i64, Error>) -> (r: Result<
        OffsetStep,
        Error,
    >)
        ensures
            r == if self.state.seek_offset@.dom().contains(key_of(mq@)) {
                Ok(OffsetStep::At(self.state.seek_offset@[key_of(mq@)]))
            } else if committed is Some {
                Ok(OffsetStep::At(committed->0))
            } else if self.cfg.consume_from_where@ == CONSUME_FROM_FIRST_OFFSET@ {
                Ok(OffsetStep::AskMin)
            } else if self.cfg.consume_from_where@ == CONSUME_FROM_TIMESTAMP@ {
                match stamp {
                    Ok(t) => Ok(OffsetStep::AskTime(t)),
                    Err(e) => Err(e),
                }
            } else {
                Ok::<OffsetStep, Error>(OffsetStep::AskMax)
            },
    {
        if let Some(o) = self.sought_offset(mq) {
            return Ok(OffsetStep::At(o));
        }
        if let Some(o) = committed {
            return Ok(OffsetStep::At(o));
        }
        let from = self.cfg.consume_from_where.as_str();
        if same(from, CONSUME_FROM_FIRST_OFFSET) {
            return Ok(OffsetStep::AskMin);
        }
        if same(from, CONSUME_FROM_TIMESTAMP) {
            return match stamp {
                Ok(t) => Ok(OffsetStep::AskTime(t)),
                Err(e) => Err(e),
            };
        }
        Ok(OffsetStep::AskMax)
    }

    /// Where a queue is read from at first.
    pub fn first_offset(&self, mq: &MessageQueue, committed: Option<i64>) -> (r: Result<OffsetStep, Error>)
        ensures
            ({
                let sought = self.state.seek_offset@.dom().contains(key_of(mq@));
                let by_time = !sought && committed is None && self.cfg.consume_from_where@ == CONSUME_FROM_TIMESTAMP@
                    && self.cfg.consume_from_where@ != CONSUME_FROM_FIRST_OFFSET@;
                &&& by_time ==> match r {
                    Ok(step) => step matches OffsetStep::AskTime(t) && reading(self.cfg.consume_timestamp@) matches Some(
                        n,
                    ) && n - DAY_MILLIS < t < n + DAY_MILLIS,
                    Err(e) => is_client(e, None, bad_timestamp(self.cfg.consume_timestamp@)),
                }
                &&& !by_time ==> r == Ok::<OffsetStep, Error>(
                    if sought {
                        OffsetStep::At(self.state.seek_offset@[key_of(mq@)])
                    } else if committed is Some {
                        OffsetStep::At(committed->0)
                    } else if self.cfg.consume_from_where@ == CONSUME_FROM_FIRST_OFFSET@ {
                        OffsetStep::AskMin
                    } else {
                        OffsetStep::AskMax
                    },
                )
            }),
    {
        let stamp = consume_timestamp_millis(self.cfg.consume_timestamp.as_str());
        self.first_offset_at(mq, committed, stamp)
    }

    /// Notes where the next pull of a queue begins.
    pub fn note_offset(&mut self, mq: &MessageQueue, offset: i64)
        ensures
            final(self).state.next_offset@ == old(self).state.next_offset@.insert(key_of(mq@), offset),
            *final(self) == (DefaultLitePullConsumer {
                state: LiteState { next_offset: final(self).state.next_offset, ..old(self).state },
                ..*old(self)
            }),
    {
        self.state.next_offset.insert(mq_key(mq), offset);
    }

    /// A pull of a queue; it does not wait at the end of the queue.
    pub fn pull_plan(&self, mq: &MessageQueue, offset: i64) -> (r: PullPlan)
        ensures
            asks(
                r.header,
                self.cfg.consumer_group@,
                *mq,
                offset,
                self.cfg.pull_batch_size,
                false,
                expr_for(self.state, mq.topic@),
                PULL_SUSPEND_TIMEOUT_MILLIS,
            ),
            r.timeout_millis == LITE_PULL_TIMEOUT_MILLIS,
    {
        let expr = self.subscription_for(mq.topic.as_str());
        PullPlan {
            header: tag_pull_header(
                self.cfg.consumer_group.as_str(),
                mq,
                offset,
                self.cfg.pull_batch_size,
                false,
                expr.as_str(),
                PULL_SUSPEND_TIMEOUT_MILLIS,
            ),
            timeout_millis: LITE_PULL_TIMEOUT_MILLIS,
        }
    }

    /// Takes what a pull found: what the expression of the topic takes goes into the buffer, and
    /// the next pull begins behind the last of it. Gives where; `None` where nothing came in,
    /// and then the next pull begins where this one did.
    pub fn settle_pull(&mut self, mq: &MessageQueue, result: PullResult) -> (r: Option<i64>)
        requires
            ({
                let got = taken(expr_for(old(self).state, mq.topic@), result.msg_found_list@);
                result.status == PullStatus::Found && got.len() > 0 ==> got.last().queue_offset < i64::MAX
            }),
        ensures
            ({
                let got = taken(expr_for(old(self).state, mq.topic@), result.msg_found_list@);
                if result.status == PullStatus::Found && got.len() > 0 {
                    &&& r is Some && r->0 == got.last().queue_offset + 1
                    &&& final(self).buffer@ == old(self).buffer@ + got
                    &&& final(self).state.next_offset@ == old(self).state.next_offset@.insert(key_of(mq@), r->0)
                    &&& *final(self) == (DefaultLitePullConsumer {
                        state: LiteState { next_offset: final(self).state.next_offset, ..old(self).state },
                        buffer: final(self).buffer,
                        ..*old(self)
                    })
                } else {
                    r is None && *final(self) == *old(self)
                }
            }),
    {
        let ghost list = result.msg_found_list@;
        let expr = self.subscription_for(mq.topic.as_str());
        if result.status != PullStatus::Found || result.msg_found_list.len() == 0 {
            proof {
                lemma_hits_empty(tags_for(expr@), list);
            }
            return None;
        }
        let sub = match build_subscription_data(mq.topic.as_str(), Some(expr.as_str())) {
            Ok(s) => Some(s),
            Err(_) => None,
        };
        let msgs = match &sub {
            Some(s) => client_side_tag_filter(Some(s), result.msg_found_list),
            None => client_side_tag_filter(None, result.msg_found_list),
        };
        proof {
            if let Some(s) = sub {
                if takes_all(Some(expr@)) {
                    assert(texts(s.tags_set@) =~= Seq::<Seq<char>>::empty());
                }
            }
            assert(msgs@ == taken(expr@, list));
        }
        if msgs.len() == 0 {
            return None;
        }
        let last = &msgs[msgs.len() - 1];
        let next: i64 = last.queue_offset + 1;
        self.note_offset(mq, next);
        self.enqueue(msgs);
        Some(next)
    }

    /// Whether what was read of a queue is to be committed at `now`.
    pub fn commit_due(&self, mq: &MessageQueue, now: i64) -> (r: bool)
        ensures
            ({
                let last: int = if self.state.last_commit@.dom().contains(key_of(mq@)) {
                    self.state.last_commit@[key_of(mq@)] as int
                } else {
                    0
                };
                r == (self.cfg.auto_commit && now - last >= self.cfg.auto_commit_interval_millis)
            }),
    {
        let key = mq_key(mq);
        let last: i64 = match self.state.last_commit.get(key.as_str()) {
            Some(t) => *t,
            None => 0,
        };
        self.cfg.auto_commit && now as i128 - last as i128 >= self.cfg.auto_commit_interval_millis as i128
    }

    /// What was read of a queue was committed at `now`.
    pub fn note_commit(&mut self, mq: &MessageQueue, now: i64)
        ensures
            final(self).state.last_commit@ == old(self).state.last_commit@.insert(key_of(mq@), now),
            *final(self) == (DefaultLitePullConsumer {
                state: LiteState { last_commit: final(self).state.last_commit, ..old(self).state },
                ..*old(self)
            }),
    {
        self.state.last_commit.insert(mq_key(mq), now);
    }

    /// Whether the queues are to be divided again at `now`: never by hand-assigned ones.
    pub fn rebalance_due(&self, now: i64) -> (r: bool)
        ensures
            r == (!self.state.assign_mode && (self.state.last_rebalance_ts == 0 || now
                - self.state.last_rebalance_ts > LITE_REBALANCE_INTERVAL_MILLIS)),
    {
        !self.state.assign_mode && (self.state.last_rebalance_ts == 0 || now as i128
            - self.state.last_rebalance_ts as i128 > LITE_REBALANCE_INTERVAL_MILLIS as i128)
    }

    pub fn note_rebalance(&mut self, now: i64)
        ensures
            *final(self) == (DefaultLitePullConsumer {
                state: LiteState { last_rebalance_ts: now, ..old(self).state },
                ..*old(self)
            }),
    {
        self.state.last_rebalance_ts = now;
    }

    /// The queues that a round reads: all that are assigned and not paused.
    pub fn targets(&self) -> (r: Vec<MessageQueue>)
        ensures
            r@ == without(self.state.assigned.values(), self.state.paused@.dom()),
    {
        queues_without(&self.state.assigned, &self.state.paused)
    }

    /// How long to wait after a round.
    pub fn backoff_millis(&self, got_any: bool) -> (r: u64)
        ensures
            r == if got_any {
                BUSY_BACKOFF_MILLIS as int
            } else if self.cfg.pull_interval_millis < 0 {
                0
            } else {
                self.cfg.pull_interval_millis as int
            },
    {
        if got_any {
            BUSY_BACKOFF_MILLIS
        } else if self.cfg.pull_interval_millis < 0 {
            0
        } else {
            self.cfg.pull_interval_millis as u64
        }
    }

    /// What a topic's queues come to, where `all` are its queues and `known` the members of the
    /// group that the broker names. Where nobody could name them, the consumer keeps what it
    /// has: to take all queues as if it were alone would have them read twice.
    pub fn topic_share<A: Fn(&str, &str, &Vec<MessageQueue>, &Vec<String>) -> Result<Vec<MessageQueue>, Error>>(
        &self,
        topic: &str,
        all: Vec<MessageQueue>,
        known: Option<Vec<String>>,
        allocate: A,
    ) -> (r: TopicShare)
        requires
            forall|g: &str, o: &str, q: Vec<MessageQueue>, m: Vec<String>| #[trigger]
                call_requires(allocate, (g, o, &q, &m)),
        ensures
            r.topic@ == topic@,
            in_order(r.all@),
            r.all@.to_multiset() == all@.to_multiset(),
            match known {
                Some(ids) => allocated(
                    allocate,
                    self.cfg.consumer_group@,
                    match self.cfg.client_id {
                        Some(id) => id@,
                        None => Seq::empty(),
                    },
                    r.all,
                    texts(ids@),
                    r.divided@,
                ),
                None => r.divided@ == queues_of(self.state.assigned.values(), topic@),
            },
    {
        let mut all = all;
        sort_mqs(&mut all);
        let divided = match known {
            Some(ids) => {
                let own = self.client_id();
                let members = member_ids(ids, own.as_str());
                let group = self.cfg.consumer_group.as_str();
                let me = own.as_str();
                let got = allocate(group, me, &all, &members);
                assert(call_ensures(allocate, (group, me, &all, &members), got));
                match got {
                    Ok(mqs) => mqs,
                    Err(_) => Vec::new(),
                }
            },
            None => topic_queues(&self.state.assigned, topic),
        };
        TopicShare { topic: topic.to_owned(), all, divided }
    }

    /// Takes over a new division of the queues. Of a queue that is lost, where it was and when
    /// it was committed are forgotten; where the user wants it read from, and that it is
    /// paused, are not. A division that brings and takes nothing changes nothing.
    pub fn apply_shares(&mut self, shares: Vec<TopicShare>) -> (r: Rebalanced)
        requires
            old(self).wf(),
        ensures
            final(self).wf(),
            final(self).state.assigned@ == divided_to(old(self).state.assigned@, shares@),
            ({
                let old_s = old(self).state;
                let s = final(self).state;
                let new = keyed_shares(shares@);
                let had = old_s.assigned@.dom();
                if new.dom() == had {
                    *final(self) == *old(self) && r.added@.len() == 0 && r.changed@.len() == 0
                } else {
                    &&& s.next_offset@ == kept_offsets(old_s.next_offset@, had, new.dom())
                    &&& s.last_commit@ == kept_offsets(old_s.last_commit@, had, new.dom())
                    &&& *final(self) == (DefaultLitePullConsumer {
                        state: LiteState {
                            assigned: s.assigned,
                            next_offset: s.next_offset,
                            last_commit: s.last_commit,
                            ..old_s
                        },
                        ..*old(self)
                    })
                    &&& r.added@ == without(s.assigned.values(), had)
                    &&& r.changed@ == told_shares(shares@, s.assigned.values())
                }
            }),
    {
        let mut new: Table<MessageQueue> = Table::new();
        let mut i: usize = 0;
        assert(shares@.subrange(0, 0) =~= Seq::<TopicShare>::empty());
        while i < shares.len()
            invariant
                i <= shares@.len(),
                new@ == keyed_shares(shares@.subrange(0, i as int)),
                well_keyed(new@),
            decreases shares@.len() - i,
        {
            assert(shares@.subrange(0, i + 1).drop_last() =~= shares@.subrange(0, i as int));
            assert(shares@.subrange(0, i + 1).last() == shares@[i as int]);
            proof {
                lemma_keyed(new@, shares@[i as int].divided@);
            }
            put_queues(&mut new, shares[i].divided.as_slice());
            i = i + 1;
        }
        assert(shares@.subrange(0, i as int) =~= shares@);
        let added = queues_without(&new, &self.state.assigned);
        let removed = missing_keys(&self.state.assigned, &new);
        let _count = new.len();
        proof {
            let had = self.state.assigned@.dom();
            lemma_none_added(new, had);
            if removed@.len() == 0 {
                assert(texts(removed@).to_set() =~= Set::<Seq<char>>::empty());
                assert forall|k: Seq<char>| had.contains(k) implies new@.dom().contains(k) by {
                    if !new@.dom().contains(k) {
                        assert(had.difference(new@.dom()).contains(k));
                    }
                }
            } else {
                let k = texts(removed@)[0];
                assert(texts(removed@).contains(k));
                assert(texts(removed@).to_set().contains(k));
                assert(had.contains(k) && !new@.dom().contains(k));
            }
        }
        if added.len() == 0 && removed.len() == 0 {
            assert(new@.dom() =~= self.state.assigned@.dom());
            return Rebalanced { added: Vec::new(), changed: Vec::new() };
        }
        let ghost had = self.state.assigned@.dom();
        let ghost before = *self;
        assert(new@.dom() != had);
        drop_keys(&mut self.state.next_offset, &removed);
        drop_keys(&mut self.state.last_commit, &removed);
        assert(texts(removed@).to_set() =~= had.difference(new@.dom()));
        self.state.assigned = new;
        let changed = told(shares, &self.state.assigned);
        Rebalanced { added, changed }
    }
}

/// The keys of queues.
pub open spec fn keys_of(mqs: Seq<MessageQueue>) -> Set<Seq<char>> {
    Set::new(|k: Seq<char>| exists|i: int| 0 <= i < mqs.len() && key_of((#[trigger] mqs[i])@) == k)
}

proof fn lemma_keys_push(mqs: Seq<MessageQueue>, i: int)
    requires
        0 <= i < mqs.len(),
    ensures
        keys_of(mqs.subrange(0, i + 1)) == keys_of(mqs.subrange(0, i)).insert(key_of(mqs[i]@)),
{
    let a = mqs.subrange(0, i);
    let b = mqs.subrange(0, i + 1);
    assert forall|k: Seq<char>| #[trigger] keys_of(b).contains(k) <==> keys_of(a).insert(key_of(mqs[i]@)).contains(k) by {
        if keys_of(b).contains(k) {
            let j = choose|j: int| 0 <= j < b.len() && key_of((#[trigger] b[j])@) == k;
            if j < i {
                assert(a[j] == b[j]);
            }
        }
        if keys_of(a).contains(k) {
            let j = choose|j: int| 0 <= j < a.len() && key_of((#[trigger] a[j])@) == k;
            assert(b[j] == a[j]);
        }
        assert(b[i] == mqs[i]);
    }
    assert(keys_of(b) =~= keys_of(a).insert(key_of(mqs[i]@)));
}

/// A queue that is paused and then read again is as it was, where it was not paused before.
pub proof fn law_resume_undoes_pause(paused: Set<Seq<char>>, mqs: Seq<MessageQueue>)
    requires
        paused.disjoint(keys_of(mqs)),
    ensures
        paused.union(keys_of(mqs)).difference(keys_of(mqs)) == paused,
{
    assert(paused.union(keys_of(mqs)).difference(keys_of(mqs)) =~= paused);
}

/// To unsubscribe from a topic takes back the subscription to it, where there was none before.
pub proof fn law_unsubscribe_undoes_subscribe(
    before: DefaultLitePullConsumer,
    after: DefaultLitePullConsumer,
    topic: Seq<char>,
    expr: Seq<char>,
)
    requires
        subscribed(before, after, topic, expr),
        ({
            let t = in_namespace(before.cfg.namespace@, topic);
            &&& !before.state.subscription@.dom().contains(t)
            &&& !before.state.subscription_data@.dom().contains(t)
        }),
    ensures
        ({
            let t = in_namespace(before.cfg.namespace@, topic);
            &&& after.state.subscription@.remove(t) == before.state.subscription@
            &&& after.state.subscription_data@.remove(t) == before.state.subscription_data@
        }),
{
    let t = in_namespace(before.cfg.namespace@, topic);
    assert(after.state.subscription@.remove(t) =~= before.state.subscription@);
    assert(after.state.subscription_data@.remove(t) =~= before.state.subscription_data@);
}

/// A queue that is paused is not read.
pub proof fn law_paused_is_not_read(vals: Seq<MessageQueue>, paused: Set<Seq<char>>, q: MessageQueue)
    ensures
        without(vals, paused).contains(q) <==> vals.contains(q) && !paused.contains(key_of(q@)),
    decreases vals.len(),
{
    let out = without(vals, paused);
    if vals.len() > 0 {
        let front = vals.drop_last();
        law_paused_is_not_read(front, paused, q);
        let rest = without(front, paused);
        if out.contains(q) {
            let k = out.index_of(q);
            if k < rest.len() {
                assert(rest[k] == q);
                assert(vals[front.index_of(q)] == q);
            } else {
                assert(vals[vals.len() - 1] == q);
            }
        }
        if vals.contains(q) && !paused.contains(key_of(q@)) {
            let i = vals.index_of(q);
            if i < front.len() {
                assert(front[i] == q);
                assert(out[rest.index_of(q)] == q);
            } else {
                assert(out[rest.len() as int] == q);
            }
        }
    }
}

proof fn lemma_hits_empty(tags: Seq<Seq<char>>, msgs: Seq<MessageExt>)
    ensures
        msgs.len() == 0 ==> hits(tags, msgs).len() == 0,
{
}

/// The keys of a table that another has not, ascending.
fn missing_keys(table: &Table<MessageQueue>, other: &Table<MessageQueue>) -> (r: Vec<String>)
    ensures
        texts(r@).to_set() == table@.dom().difference(other@.dom()),
{
    let n = table.len();
    let mut out: Vec<String> = Vec::new();
    let mut i: usize = 0;
    let ghost order = table.order();
    while i < n
        invariant
            i <= n == order.len(),
            order == table.order(),
            table.listed(),
            forall|k: Seq<char>| #[trigger]
                texts(out@).contains(k) <==> order.subrange(0, i as int).contains(k) && !other@.dom().contains(k),
        decreases n - i,
    {
        let ghost before = texts(out@);
        let key = table.key_at(i);
        let gone = !other.contains(key.as_str());
        if gone {
            out.push(key.clone());
            assert(texts(out@) =~= before.push(order[i as int]));
        }
        proof {
            let a = order.subrange(0, i as int);
            let b = order.subrange(0, i + 1);
            assert(b =~= a.push(order[i as int]));
            assert forall|k: Seq<char>| #[trigger] texts(out@).contains(k) <==> b.contains(k)
                && !other@.dom().contains(k) by {
                lemma_push_contains(a, order[i as int], k);
                lemma_push_contains(before, order[i as int], k);
            }
        }
        i = i + 1;
    }
    proof {
        assert(order.subrange(0, i as int) =~= order);
        assert forall|k: Seq<char>| #[trigger] texts(out@).to_set().contains(k) <==> table@.dom().difference(
            other@.dom(),
        ).contains(k) by {
            assert(order.contains(k) <==> table@.dom().contains(k));
        }
        assert(texts(out@).to_set() =~= table@.dom().difference(other@.dom()));
    }
    out
}

proof fn lemma_push_contains(s: Seq<Seq<char>>, x: Seq<char>, k: Seq<char>)
    ensures
        s.push(x).contains(k) <==> s.contains(k) || k == x,
{
    if s.contains(k) {
        assert(s.push(x)[s.index_of(k)] == k);
    }
    assert(s.push(x)[s.len() as int] == x);
    if s.push(x).contains(k) {
        let j = s.push(x).index_of(k);
        if j < s.len() {
            assert(s[j] == k);
        }
    }
}

/// Takes keys out of a table.
fn drop_keys(table: &mut Table<i64>, keys: &Vec<String>)
    ensures
        final(table)@ == old(table)@.remove_keys(texts(keys@).to_set()),
{
    let mut i: usize = 0;
    let ghost all = texts(keys@);
    assert(table@ =~= old(table)@.remove_keys(all.subrange(0, 0).to_set()));
    while i < keys.len()
        invariant
            i <= keys@.len() == all.len(),
            all == texts(keys@),
            table@ == old(table)@.remove_keys(all.subrange(0, i as int).to_set()),
        decreases keys@.len() - i,
    {
        let _ = table.remove(keys[i].as_str());
        proof {
            let a = all.subrange(0, i as int);
            let b = all.subrange(0, i + 1);
            assert(b =~= a.push(all[i as int]));
            assert forall|k: Seq<char>| #[trigger] b.to_set().contains(k) <==> a.to_set().insert(all[i as int]).contains(k) by {
                lemma_push_contains(a, all[i as int], k);
            }
            assert(b.to_set() =~= a.to_set().insert(all[i as int]));
            assert(table@ =~= old(table)@.remove_keys(b.to_set()));
        }
        i = i + 1;
    }
    assert(all.subrange(0, i as int) =~= all);
}

fn topic_queues(queues: &Table<MessageQueue>, topic: &str) -> (r: Vec<MessageQueue>)
    ensures
        r@ == queues_of(queues.values(), topic@),
{
    let n = queues.len();
    let mut out: Vec<MessageQueue> = Vec::new();
    let mut i: usize = 0;
    assert(queues.values().subrange(0, 0) =~= Seq::<MessageQueue>::empty());
    while i < n
        invariant
            i <= n == queues.order().len(),
            queues.listed(),
            out@ == queues_of(queues.values().subrange(0, i as int), topic@),
        decreases n - i,
    {
        let mq = queues.value_at(i);
        assert(queues.values().subrange(0, i + 1).drop_last() =~= queues.values().subrange(0, i as int));
        assert(queues.values().subrange(0, i + 1).last() == *mq);
        if same(mq.topic.as_str(), topic) {
            out.push(mq.clone());
        }
        i = i + 1;
    }
    assert(queues.values().subrange(0, i as int) =~= queues.values());
    out
}

/// The shares that a listener is told of.
fn told(shares: Vec<TopicShare>, assigned: &Table<MessageQueue>) -> (r: Vec<TopicShare>)
    ensures
        r@ == told_shares(shares@, assigned.values()),
{
    let ghost all = shares@;
    let mut rest = shares;
    let mut out: Vec<TopicShare> = Vec::new();
    let ghost mut done: int = 0;
    assert(all.subrange(0, 0) =~= Seq::<TopicShare>::empty());
    while rest.len() > 0
        invariant
            0 <= done <= all.len(),
            rest@ == all.subrange(done, all.len() as int),
            out@ == told_shares(all.subrange(0, done), assigned.values()),
        decreases rest.len(),
    {
        let s = rest.remove(0);
        assert(s == all[done]);
        assert(all.subrange(0, done + 1).drop_last() =~= all.subrange(0, done));
        assert(all.subrange(0, done + 1).last() == s);
        let n = assigned.len();
        let mut tell = s.divided.len() > 0;
        let mut i: usize = 0;
        while i < n && !tell
            invariant
                i <= n == assigned.order().len(),
                assigned.listed(),
                tell ==> is_told(s, assigned.values()),
                !tell ==> s.divided@.len() == 0 && forall|j: int|
                    0 <= j < i ==> (#[trigger] assigned.values()[j]).topic@ != s.topic@,
            decreases n - i,
        {
            if same(assigned.value_at(i).topic.as_str(), s.topic.as_str()) {
                assert(assigned.values()[i as int].topic@ == s.topic@);
                tell = true;
            }
            i = i + 1;
        }
        if tell {
            out.push(s);
        }
        proof {
            done = done + 1;
        }
        assert(rest@ =~= all.subrange(done, all.len() as int));
    }
    assert(all.subrange(0, done) =~= all);
    out
}

/// `all` are the members of a group that queues are divided among: those that the broker
/// knows, and `own`, in order.
pub open spec fn are_members(all: Seq<Seq<char>>, known: Seq<Seq<char>>, own: Seq<char>) -> bool {
    &&& in_text_order(all)
    &&& all.to_multiset() == if known.contains(own) {
        known.to_multiset()
    } else {
        known.push(own).to_multiset()
    }
}

/// The members of a group that queues are divided among.
pub fn member_ids(known: Vec<String>, own: &str) -> (r: Vec<String>)
    ensures
        are_members(texts(r@), texts(known@), own@),
{
    let mut ids = known;
    let ghost given = texts(ids@);
    if !has_text(&ids, own) {
        ids.push(own.to_owned());
        assert(texts(ids@) =~= given.push(own@));
    }
    sorted_texts(ids)
}

/// The queues of a topic, in order.
pub open spec fn queues_of(vals: Seq<MessageQueue>, topic: Seq<char>) -> Seq<MessageQueue>
    decreases vals.len(),
{
    if vals.len() == 0 {
        Seq::empty()
    } else {
        let rest = queues_of(vals.drop_last(), topic);
        if vals.last().topic@ == topic {
            rest.push(vals.last())
        } else {
            rest
        }
    }
}

/// `divided` may be what `allocate` gives a member of its group: nothing where it fails.
pub open spec fn allocated<A: Fn(&str, &str, &Vec<MessageQueue>, &Vec<String>) -> Result<Vec<MessageQueue>, Error>>(
    allocate: A,
    group: Seq<char>,
    own: Seq<char>,
    all: Vec<MessageQueue>,
    known: Seq<Seq<char>>,
    divided: Seq<MessageQueue>,
) -> bool {
    exists|g: &str, o: &str, ids: Vec<String>, got: Result<Vec<MessageQueue>, Error>|
        {
            &&& g@ == group
            &&& o@ == own
            &&& are_members(texts(ids@), known, own)
            &&& #[trigger] call_ensures(allocate, (g, o, &all, &ids), got)
            &&& divided == match got {
                Ok(mqs) => mqs@,
                Err(_) => Seq::empty(),
            }
        }
}

/// No text stands behind one that it comes before.
pub open spec fn in_text_order(s: Seq<Seq<char>>) -> bool {
    forall|i: int, j: int| 0 <= i < j < s.len() ==> !comes_before(#[trigger] s[j], #[trigger] s[i])
}

fn sorted_texts(list: Vec<String>) -> (r: Vec<String>)
    ensures
        in_text_order(texts(r@)),
        texts(r@).to_multiset() == texts(list@).to_multiset(),
{
    let ghost all = texts(list@);
    let mut out: Vec<String> = Vec::new();
    let mut i: usize = 0;
    proof {
        assert(texts(out@) =~= all.subrange(0, 0));
    }
    while i < list.len()
        invariant
            i <= list@.len() == all.len(),
            all == texts(list@),
            out@.len() == i,
            in_text_order(texts(out@)),
            texts(out@).to_multiset() == all.subrange(0, i as int).to_multiset(),
        decreases list@.len() - i,
    {
        let ghost before = texts(out@);
        let ghost x = all[i as int];
        let mut p: usize = out.len();
        while p > 0 && less(list[i].as_str(), out[p - 1].as_str())
            invariant
                i < list@.len(),
                x == list@[i as int]@,
                p <= out@.len(),
                before == texts(out@),
                forall|j: int| p <= j < before.len() ==> comes_before(x, #[trigger] before[j]),
            decreases p,
        {
            assert(before[p - 1] == out@[p - 1]@);
            p = p - 1;
        }
        out.insert(p, list[i].clone());
        proof {
            let after = texts(out@);
            assert(after =~= before.insert(p as int, x));
            if p > 0 {
                assert(before[p - 1] == out@[p - 1]@);
            }
            lemma_insert_ordered(before, p as int, x);
            broadcast use vstd::seq_lib::group_to_multiset_ensures;

            assert(all.subrange(0, i + 1) =~= all.subrange(0, i as int).push(x));
            assert(after.to_multiset() =~= before.to_multiset().insert(x));
            assert(all.subrange(0, i + 1).to_multiset() =~= all.subrange(0, i as int).to_multiset().insert(x));
        }
        i = i + 1;
    }
    assert(all.subrange(0, i as int) =~= all);
    out
}

proof fn lemma_insert_ordered(s: Seq<Seq<char>>, p: int, x: Seq<char>)
    requires
        in_text_order(s),
        0 <= p <= s.len(),
        p > 0 ==> !comes_before(x, s[p - 1]),
        forall|j: int| p <= j < s.len() ==> comes_before(x, #[trigger] s[j]),
    ensures
        in_text_order(s.insert(p, x)),
{
    let t = s.insert(p, x);
    assert forall|i: int, j: int| 0 <= i < j < t.len() implies !comes_before(#[trigger] t[j], #[trigger] t[i]) by {
        let a = if i < p {
            i
        } else {
            i - 1
        };
        let b = if j < p {
            j
        } else {
            j - 1
        };
        if i == p {
            assert(t[j] == s[b]);
            if comes_before(s[b], x) {
                lemma_before_transitive(x, s[b], x);
                lemma_before_irreflexive(x);
            }
        } else if j == p {
            assert(t[i] == s[a]);
            if comes_before(x, s[a]) && a < p - 1 {
                lemma_before_total(s[a], s[p - 1]);
                if comes_before(s[a], s[p - 1]) {
                    lemma_before_transitive(x, s[a], s[p - 1]);
                }
            }
        } else {
            assert(t[i] == s[a] && t[j] == s[b]);
        }
    }
}

proof fn lemma_none_added(new: Table<MessageQueue>, had: Set<Seq<char>>)
    requires
        new.listed(),
        well_keyed(new@),
    ensures
        without(new.values(), had).len() == 0 <==> new@.dom().subset_of(had),
{
    let out = without(new.values(), had);
    if out.len() == 0 {
        assert forall|k: Seq<char>| new@.dom().contains(k) implies had.contains(k) by {
            assert(new.order().contains(k));
            let i = new.order().index_of(k);
            let v = new.values()[i];
            assert(new@[k] == v);
            assert(new.values().contains(v));
            law_paused_is_not_read(new.values(), had, v);
            if !had.contains(k) {
                assert(out.contains(v));
            }
        }
    } else {
        let w = out[0];
        assert(out.contains(w));
        law_paused_is_not_read(new.values(), had, w);
        let i = new.values().index_of(w);
        assert(new@[new.order()[i]] == new.values()[i]);
        assert(new@.dom().contains(new.order()[i]));
        assert(key_of(w@) == new.order()[i]);
    }
}

/// The queues that are assigned after a division, where `assigned` were before.
pub open spec fn divided_to(assigned: Map<Seq<char>, MessageQueue>, shares: Seq<TopicShare>) -> Map<Seq<char>, MessageQueue> {
    if keyed_shares(shares).dom() == assigned.dom() {
        assigned
    } else {
        keyed_shares(shares)
    }
}

/// The same division a second time changes nothing.
pub proof fn law_same_division_changes_nothing(assigned: Map<Seq<char>, MessageQueue>, shares: Seq<TopicShare>)
    ensures
        divided_to(divided_to(assigned, shares), shares) == divided_to(assigned, shares),
        keyed_shares(shares).dom() == divided_to(assigned, shares).dom(),
{
}

proof fn lemma_queues_of(vals: Seq<MessageQueue>, topic: Seq<char>, q: MessageQueue)
    ensures
        queues_of(vals, topic).contains(q) <==> vals.contains(q) && q.topic@ == topic,
    decreases vals.len(),
{
    let out = queues_of(vals, topic);
    if vals.len() > 0 {
        let front = vals.drop_last();
        lemma_queues_of(front, topic, q);
        let rest = queues_of(front, topic);
        if out.contains(q) {
            let k = out.index_of(q);
            if k < rest.len() {
                assert(rest[k] == q);
                assert(vals[front.index_of(q)] == q);
            } else {
                assert(vals[vals.len() - 1] == q);
            }
        }
        if vals.contains(q) && q.topic@ == topic {
            let i = vals.index_of(q);
            if i < front.len() {
                assert(front[i] == q);
                assert(out[rest.index_of(q)] == q);
            } else {
                assert(out[rest.len() as int] == q);
            }
        }
    }
}

proof fn lemma_keyed_onto_dom(m: Map<Seq<char>, MessageQueue>, mqs: Seq<MessageQueue>, k: Seq<char>)
    ensures
        keyed_onto(m, mqs).dom().contains(k) <==> m.dom().contains(k) || keys_of(mqs).contains(k),
    decreases mqs.len(),
{
    if mqs.len() > 0 {
        let n = mqs.len() - 1;
        lemma_keyed_onto_dom(m, mqs.drop_last(), k);
        lemma_keys_push(mqs, n);
        assert(mqs.subrange(0, n) =~= mqs.drop_last());
        assert(mqs.subrange(0, n + 1) =~= mqs);
    }
}

proof fn lemma_keyed_shares_dom(shares: Seq<TopicShare>, k: Seq<char>)
    ensures
        keyed_shares(shares).dom().contains(k) <==> exists|i: int|
            0 <= i < shares.len() && keys_of((#[trigger] shares[i]).divided@).contains(k),
    decreases shares.len(),
{
    if shares.len() > 0 {
        let front = shares.drop_last();
        lemma_keyed_shares_dom(front, k);
        lemma_keyed_onto_dom(keyed_shares(front), shares.last().divided@, k);
        if keyed_shares(front).dom().contains(k) {
            let i = choose|i: int| 0 <= i < front.len() && keys_of((#[trigger] front[i]).divided@).contains(k);
            assert(shares[i] == front[i]);
        }
        if exists|i: int| 0 <= i < shares.len() && keys_of((#[trigger] shares[i]).divided@).contains(k) {
            let i = choose|i: int| 0 <= i < shares.len() && keys_of((#[trigger] shares[i]).divided@).contains(k);
            if i < front.len() {
                assert(front[i] == shares[i]);
            }
        }
    }
}

/// There is a share of the topic that the queue is of.
pub open spec fn covered(shares: Seq<TopicShare>, mq: MessageQueue) -> bool {
    exists|i: int| 0 <= i < shares.len() && (#[trigger] shares[i]).topic@ == mq.topic@
}

/// Where the members of no topic could be named, the consumer keeps every queue that it has.
pub proof fn law_unnamed_members_change_nothing(
    assigned: Map<Seq<char>, MessageQueue>,
    vals: Seq<MessageQueue>,
    shares: Seq<TopicShare>,
)
    requires
        keys_of(vals) == assigned.dom(),
        forall|i: int|
            0 <= i < shares.len() ==> (#[trigger] shares[i]).divided@ == queues_of(vals, shares[i].topic@),
        forall|j: int| 0 <= j < vals.len() ==> covered(shares, #[trigger] vals[j]),
    ensures
        divided_to(assigned, shares) == assigned,
{
    assert forall|k: Seq<char>| keyed_shares(shares).dom().contains(k) <==> assigned.dom().contains(k) by {
        lemma_keyed_shares_dom(shares, k);
        if keyed_shares(shares).dom().contains(k) {
            let i = choose|i: int| 0 <= i < shares.len() && keys_of((#[trigger] shares[i]).divided@).contains(k);
            let mqs = shares[i].divided@;
            let n = choose|n: int| 0 <= n < mqs.len() && key_of((#[trigger] mqs[n])@) == k;
            assert(mqs.contains(mqs[n]));
            lemma_queues_of(vals, shares[i].topic@, mqs[n]);
            assert(key_of(vals[vals.index_of(mqs[n])]@) == k);
        }
        if assigned.dom().contains(k) {
            assert(keys_of(vals).contains(k));
            let j = choose|j: int| 0 <= j < vals.len() && key_of((#[trigger] vals[j])@) == k;
            assert(covered(shares, vals[j]));
            let i = choose|i: int| 0 <= i < shares.len() && (#[trigger] shares[i]).topic@ == vals[j].topic@;
            let mqs = shares[i].divided@;
            assert(vals.contains(vals[j]));
            lemma_queues_of(vals, shares[i].topic@, vals[j]);
            assert(key_of(mqs[mqs.index_of(vals[j])]@) == k);
            assert(keys_of(mqs).contains(k));
        }
    }
    assert(keyed_shares(shares).dom() =~= assigned.dom());
}

proof fn lemma_after_seek(msgs: Seq<MessageExt>, q: QueueView, offset: i64, stays: spec_fn(MessageExt) -> bool)
    requires
        forall|m: MessageExt| #[trigger] stays(m) <==> !is_earlier(m, q, offset),
    ensures
        after_seek(msgs, q, offset) == msgs.filter(stays),
    decreases msgs.len(),
{
    reveal(Seq::filter);
    if msgs.len() > 0 {
        lemma_after_seek(msgs.drop_last(), q, offset, stays);
        assert(stays(msgs.last()) <==> !is_earlier(msgs.last(), q, offset));
    } else {
        assert(msgs =~= Seq::<MessageExt>::empty());
    }
}

proof fn lemma_without(vals: Seq<MessageQueue>, keys: Set<Seq<char>>, stays: spec_fn(MessageQueue) -> bool)
    requires
        forall|q: MessageQueue| #[trigger] stays(q) <==> !keys.contains(key_of(q@)),
    ensures
        without(vals, keys) == vals.filter(stays),
    decreases vals.len(),
{
    reveal(Seq::filter);
    if vals.len() > 0 {
        lemma_without(vals.drop_last(), keys, stays);
        assert(stays(vals.last()) <==> !keys.contains(key_of(vals.last()@)));
    } else {
        assert(vals =~= Seq::<MessageQueue>::empty());
    }
}

proof fn lemma_queues_of_filter(vals: Seq<MessageQueue>, topic: Seq<char>, own: spec_fn(MessageQueue) -> bool)
    requires
        forall|q: MessageQueue| #[trigger] own(q) <==> q.topic@ == topic,
    ensures
        queues_of(vals, topic) == vals.filter(own),
    decreases vals.len(),
{
    reveal(Seq::filter);
    if vals.len() > 0 {
        lemma_queues_of_filter(vals.drop_last(), topic, own);
        assert(own(vals.last()) <==> vals.last().topic@ == topic);
    } else {
        assert(vals =~= Seq::<MessageQueue>::empty());
    }
}

proof fn lemma_owned_offsets(
    order: Seq<Seq<char>>,
    offsets: Map<Seq<char>, i64>,
    assigned: Map<Seq<char>, MessageQueue>,
    owned: spec_fn(Seq<char>) -> bool,
)
    requires
        forall|k: Seq<char>| #[trigger] owned(k) <==> assigned.dom().contains(k),
    ensures
        owned_offsets(order, offsets, assigned).len() == order.filter(owned).len(),
        forall|i: int|
            0 <= i < order.filter(owned).len() ==> #[trigger] owned_offsets(order, offsets, assigned)[i] == (
                assigned[order.filter(owned)[i]],
                offsets[order.filter(owned)[i]],
            ),
    decreases order.len(),
{
    reveal(Seq::filter);
    if order.len() > 0 {
        lemma_owned_offsets(order.drop_last(), offsets, assigned, owned);
        assert(owned(order.last()) <==> assigned.dom().contains(order.last()));
    }
}

/// `items` are the offsets of all queues that are assigned and have one: each once, in the order
/// of their keys.
pub open spec fn commits_all(c: DefaultLitePullConsumer, items: Seq<(MessageQueue, i64)>) -> bool {
    let owned = |k: Seq<char>| c.state.assigned@.dom().contains(k);
    let keys = c.state.next_offset.order().filter(owned);
    &&& items.len() == keys.len()
    &&& forall|i: int|
        0 <= i < keys.len() ==> #[trigger] items[i] == (c.state.assigned@[keys[i]], c.state.next_offset@[keys[i]])
    &&& forall|k: Seq<char>|
        c.state.assigned@.dom().contains(k) && c.state.next_offset@.dom().contains(k) ==> items.contains(
            (#[trigger] c.state.assigned@[k], c.state.next_offset@[k]),
        )
    &&& forall|mq: MessageQueue, o: i64| #[trigger]
        items.contains((mq, o)) ==> exists|k: Seq<char>|
            {
                &&& c.state.assigned@.dom().contains(k)
                &&& c.state.next_offset@.dom().contains(k)
                &&& #[trigger] c.state.assigned@[k] == mq
                &&& c.state.next_offset@[k] == o
            }
}

/// A commit is about every queue that is assigned and has an offset, with that offset, and about
/// no other.
pub proof fn law_commit_covers_every_assigned_queue(c: &DefaultLitePullConsumer, items: Vec<(MessageQueue, i64)>)
    requires
        call_ensures(DefaultLitePullConsumer::commit_items, (c,), items),
    ensures
        commits_all(*c, items@),
        forall|k: Seq<char>|
            c.state.assigned@.dom().contains(k) && c.state.next_offset@.dom().contains(k) ==> items@.contains(
                (#[trigger] c.state.assigned@[k], c.state.next_offset@[k]),
            ),
        forall|mq: MessageQueue, o: i64| #[trigger]
            items@.contains((mq, o)) ==> exists|k: Seq<char>|
                {
                    &&& c.state.assigned@.dom().contains(k)
                    &&& c.state.next_offset@.dom().contains(k)
                    &&& #[trigger] c.state.assigned@[k] == mq
                    &&& c.state.next_offset@[k] == o
                },
{
    lemma_commits_all(*c, items@);
}

proof fn lemma_commits_all(c: DefaultLitePullConsumer, items: Seq<(MessageQueue, i64)>)
    requires
        c.state.next_offset.listed(),
        items == owned_offsets(c.state.next_offset.order(), c.state.next_offset@, c.state.assigned@),
    ensures
        commits_all(c, items),
{
    let owned = |k: Seq<char>| c.state.assigned@.dom().contains(k);
    let order = c.state.next_offset.order();
    let keys = order.filter(owned);
    lemma_owned_offsets(order, c.state.next_offset@, c.state.assigned@, owned);
    assert forall|k: Seq<char>|
        c.state.assigned@.dom().contains(k) && c.state.next_offset@.dom().contains(k) implies items.contains(
        (#[trigger] c.state.assigned@[k], c.state.next_offset@[k]),
    ) by {
        assert(order.contains(k));
        let j = order.index_of(k);
        order.lemma_filter_contains(owned, j);
        assert(keys.contains(k));
        let i = keys.index_of(k);
        assert(items[i] == (c.state.assigned@[keys[i]], c.state.next_offset@[keys[i]]));
    }
    assert forall|mq: MessageQueue, o: i64| #[trigger] items.contains((mq, o)) implies exists|k: Seq<char>|
        {
            &&& c.state.assigned@.dom().contains(k)
            &&& c.state.next_offset@.dom().contains(k)
            &&& #[trigger] c.state.assigned@[k] == mq
            &&& c.state.next_offset@[k] == o
        } by {
        let i = items.index_of((mq, o));
        let k = keys[i];
        order.lemma_filter_pred(owned, i);
        order.lemma_filter_contains_rev(owned, k);
        assert(order.contains(k));
        assert(owned(k));
    }
}

/// A consumer that stops by itself commits what a commit is about, and nothing where it does not
/// commit by itself. It gives up its instance, and is as good as never started; what it knows of
/// its queues stays.
pub proof fn law_shutdown_commits_every_assigned_queue(c: &mut DefaultLitePullConsumer, r: Option<LiteStop>)
    requires
        call_ensures(DefaultLitePullConsumer::begin_shutdown, (c,), r),
    ensures
        r is Some <==> old(c).started,
        r matches Some(plan) ==> {
            &&& plan.client == old(c).client
            &&& plan.group == old(c).cfg.consumer_group
            &&& old(c).cfg.auto_commit ==> commits_all(*old(c), plan.items@)
            &&& old(c).cfg.auto_commit ==> forall|k: Seq<char>|
                old(c).state.assigned@.dom().contains(k) && old(c).state.next_offset@.dom().contains(k)
                    ==> plan.items@.contains((#[trigger] old(c).state.assigned@[k], old(c).state.next_offset@[k]))
            &&& !old(c).cfg.auto_commit ==> plan.items@.len() == 0
            &&& !final(c).started && !final(c).running && final(c).client is None
        },
        final(c).state == old(c).state && final(c).cfg == old(c).cfg && final(c).buffer == old(c).buffer,
        r is None ==> *final(c) == *old(c),
{
    if r is Some && old(c).cfg.auto_commit {
        lemma_commits_all(*old(c), r->0.items@);
    }
}

/// After a seek its queue is read from where the user wants it, whatever was committed; no other
/// queue is. What is before that in the buffer is forgotten, and everything else stays in its
/// order.
pub proof fn law_seek_moves_its_queue_alone(
    c: &mut DefaultLitePullConsumer,
    mq: &MessageQueue,
    offset: i64,
    known: Option<i64>,
    committed: Option<i64>,
    stamp: Result<i64, Error>,
    first: Result<OffsetStep, Error>,
    other: &MessageQueue,
    key: String,
    other_key: String,
    other_known: Option<i64>,
    other_before: Option<i64>,
)
    requires
        call_ensures(DefaultLitePullConsumer::seek, (c, mq, offset), ()),
        call_ensures(DefaultLitePullConsumer::known_offset, (&*final(c), mq), known),
        call_ensures(DefaultLitePullConsumer::first_offset_at, (&*final(c), mq, committed, stamp), first),
        call_ensures(mq_key, (mq,), key),
        call_ensures(mq_key, (other,), other_key),
        key@ != other_key@,
        call_ensures(DefaultLitePullConsumer::known_offset, (&*final(c), other), other_known),
        call_ensures(DefaultLitePullConsumer::known_offset, (&*old(c), other), other_before),
    ensures
        known == Some(offset),
        first == Ok::<OffsetStep, Error>(OffsetStep::At(offset)),
        other_known == other_before,
        final(c).buffer@ == old(c).buffer@.filter(
            |m: MessageExt|
                !(m.topic@ == mq.topic@ && m.broker_name is Some && m.broker_name->0@ == mq.broker_name@ && m.queue_id
                    == mq.queue_id && m.queue_offset < offset),
        ),
        final(c).state.assigned == old(c).state.assigned && final(c).state.paused == old(c).state.paused,
        final(c).state.subscription == old(c).state.subscription && final(c).state.last_commit
            == old(c).state.last_commit,
        final(c).cfg == old(c).cfg && final(c).started == old(c).started,
{
    let stays = |m: MessageExt|
        !(m.topic@ == mq.topic@ && m.broker_name is Some && m.broker_name->0@ == mq.broker_name@ && m.queue_id
            == mq.queue_id && m.queue_offset < offset);
    lemma_after_seek(old(c).buffer@, mq@, offset, stays);
}

/// Where a queue is read from at first: where the user wants it; else where its group left off;
/// else at the beginning, at a time, or at the end, as the configuration says.
pub proof fn law_first_offset_by_rank(
    c: &DefaultLitePullConsumer,
    mq: &MessageQueue,
    sought: Option<i64>,
    committed: Option<i64>,
    stamp: Result<i64, Error>,
    r: Result<OffsetStep, Error>,
)
    requires
        call_ensures(DefaultLitePullConsumer::sought_offset, (c, mq), sought),
        call_ensures(DefaultLitePullConsumer::first_offset_at, (c, mq, committed, stamp), r),
    ensures
        sought matches Some(o) ==> r == Ok::<OffsetStep, Error>(OffsetStep::At(o)),
        sought is None && committed is Some ==> r == Ok::<OffsetStep, Error>(OffsetStep::At(committed->0)),
        sought is None && committed is None ==> {
            let from = c.cfg.consume_from_where@;
            &&& from == "CONSUME_FROM_FIRST_OFFSET"@ ==> r == Ok::<OffsetStep, Error>(OffsetStep::AskMin)
            &&& from == "CONSUME_FROM_TIMESTAMP"@ ==> match stamp {
                Ok(t) => r == Ok::<OffsetStep, Error>(OffsetStep::AskTime(t)),
                Err(e) => r == Err::<OffsetStep, Error>(e),
            }
            &&& from != "CONSUME_FROM_FIRST_OFFSET"@ && from != "CONSUME_FROM_TIMESTAMP"@ ==> r == Ok::<
                OffsetStep,
                Error,
            >(OffsetStep::AskMax)
        },
{
    reveal_strlit("CONSUME_FROM_FIRST_OFFSET");
    reveal_strlit("CONSUME_FROM_TIMESTAMP");
    assert("CONSUME_FROM_FIRST_OFFSET"@.len() != "CONSUME_FROM_TIMESTAMP"@.len());
}

/// Where the next pull of a queue begins is what was noted of it last; other queues stay.
pub proof fn law_noted_offset_is_known(
    c: &mut DefaultLitePullConsumer,
    mq: &MessageQueue,
    offset: i64,
    known: Option<i64>,
    other: &MessageQueue,
    key: String,
    other_key: String,
    other_known: Option<i64>,
    other_before: Option<i64>,
)
    requires
        call_ensures(DefaultLitePullConsumer::note_offset, (c, mq, offset), ()),
        call_ensures(DefaultLitePullConsumer::known_offset, (&*final(c), mq), known),
        call_ensures(mq_key, (mq,), key),
        call_ensures(mq_key, (other,), other_key),
        key@ != other_key@,
        call_ensures(DefaultLitePullConsumer::known_offset, (&*final(c), other), other_known),
        call_ensures(DefaultLitePullConsumer::known_offset, (&*old(c), other), other_before),
    ensures
        known == Some(offset),
        other_known == other_before,
        final(c).buffer == old(c).buffer && final(c).state.seek_offset == old(c).state.seek_offset,
{
}

/// A paused queue is not read and a resumed one is read again, where it is assigned; a queue that
/// neither speaks of is read as before. What is read keeps the order of the assignment.
pub proof fn law_pause_and_resume_choose_what_is_read(
    c: &mut DefaultLitePullConsumer,
    d: &mut DefaultLitePullConsumer,
    mqs: &[MessageQueue],
    paused: Vec<MessageQueue>,
    resumed: Vec<MessageQueue>,
    before: Vec<MessageQueue>,
    all: Vec<MessageQueue>,
)
    requires
        call_ensures(DefaultLitePullConsumer::pause, (c, mqs), ()),
        call_ensures(DefaultLitePullConsumer::resume, (d, mqs), ()),
        *old(c) == *old(d),
        call_ensures(DefaultLitePullConsumer::targets, (&*old(c),), before),
        call_ensures(DefaultLitePullConsumer::targets, (&*final(c),), paused),
        call_ensures(DefaultLitePullConsumer::targets, (&*final(d),), resumed),
        call_ensures(DefaultLitePullConsumer::assignment, (&*old(c),), all),
    ensures
        forall|i: int, q: MessageQueue| 0 <= i < mqs@.len() && #[trigger] mqs@[i]@ == q@ ==> !#[trigger] paused@.contains(q),
        forall|q: MessageQueue|
            #![trigger before@.contains(q)]
            (forall|i: int| 0 <= i < mqs@.len() ==> key_of((#[trigger] mqs@[i])@) != key_of(q@)) ==> (paused@.contains(q)
                <==> before@.contains(q)) && (resumed@.contains(q) <==> before@.contains(q)),
        forall|i: int, q: MessageQueue|
            0 <= i < mqs@.len() && #[trigger] mqs@[i]@ == q@ ==> (#[trigger] resumed@.contains(q) <==> all@.contains(q)),
        paused@ == all@.filter(|q: MessageQueue| !final(c).state.paused@.dom().contains(key_of(q@))),
        final(c).state.assigned == old(c).state.assigned && final(c).state.next_offset == old(c).state.next_offset
            && final(c).buffer == old(c).buffer,
{
    let vals = old(c).state.assigned.values();
    let now = final(c).state.paused@.dom();
    let later = final(d).state.paused@.dom();
    let then = old(c).state.paused@.dom();
    lemma_without(vals, now, |q: MessageQueue| !final(c).state.paused@.dom().contains(key_of(q@)));
    assert forall|i: int, q: MessageQueue| 0 <= i < mqs@.len() && #[trigger] mqs@[i]@ == q@ implies !#[trigger] paused@.contains(
        q,
    ) by {
        law_paused_is_not_read(vals, now, q);
        assert(keys_of(mqs@).contains(key_of(q@)));
    }
    assert forall|i: int, q: MessageQueue| 0 <= i < mqs@.len() && #[trigger] mqs@[i]@ == q@ implies (
    #[trigger] resumed@.contains(q) <==> all@.contains(q)) by {
        law_paused_is_not_read(vals, later, q);
        assert(keys_of(mqs@).contains(key_of(q@)));
    }
    assert forall|q: MessageQueue|
        #![trigger before@.contains(q)]
        (forall|i: int| 0 <= i < mqs@.len() ==> key_of((#[trigger] mqs@[i])@) != key_of(q@)) implies (paused@.contains(q)
        <==> before@.contains(q)) && (resumed@.contains(q) <==> before@.contains(q)) by {
        law_paused_is_not_read(vals, now, q);
        law_paused_is_not_read(vals, later, q);
        law_paused_is_not_read(vals, then, q);
        assert(!keys_of(mqs@).contains(key_of(q@)));
    }
}

/// Queues that are assigned by hand take the place of all others, and are never divided again.
pub proof fn law_assigned_queues_stand_alone(
    c: &mut DefaultLitePullConsumer,
    mqs: &[MessageQueue],
    now: i64,
    due: bool,
    by_hand: bool,
)
    requires
        call_ensures(DefaultLitePullConsumer::assign, (c, mqs), ()),
        call_ensures(DefaultLitePullConsumer::rebalance_due, (&*final(c), now), due),
        call_ensures(DefaultLitePullConsumer::is_assign_mode, (&*final(c),), by_hand),
    ensures
        by_hand && !due,
        forall|k: Seq<char>| #[trigger]
            final(c).state.assigned@.dom().contains(k) <==> exists|i: int|
                0 <= i < mqs@.len() && key_of((#[trigger] mqs@[i])@) == k,
        forall|k: Seq<char>| #[trigger]
            final(c).state.assigned@.dom().contains(k) ==> exists|i: int|
                0 <= i < mqs@.len() && #[trigger] mqs@[i] == final(c).state.assigned@[k],
        final(c).state.next_offset == old(c).state.next_offset && final(c).state.subscription
            == old(c).state.subscription && final(c).state.paused == old(c).state.paused,
{
    assert forall|k: Seq<char>| #[trigger]
        final(c).state.assigned@.dom().contains(k) <==> exists|i: int|
            0 <= i < mqs@.len() && key_of((#[trigger] mqs@[i])@) == k by {
        lemma_keyed_onto_dom(Map::empty(), mqs@, k);
        assert(keys_of(mqs@).contains(k) <==> exists|i: int|
            0 <= i < mqs@.len() && key_of((#[trigger] mqs@[i])@) == k);
    }
    assert forall|k: Seq<char>| #[trigger] final(c).state.assigned@.dom().contains(k) implies exists|i: int|
        0 <= i < mqs@.len() && #[trigger] mqs@[i] == final(c).state.assigned@[k] by {
        lemma_keyed_onto_value(mqs@, k);
    }
}

proof fn lemma_keyed_onto_value(mqs: Seq<MessageQueue>, k: Seq<char>)
    requires
        keyed_onto(Map::empty(), mqs).dom().contains(k),
    ensures
        exists|i: int| 0 <= i < mqs.len() && #[trigger] mqs[i] == keyed_onto(Map::empty(), mqs)[k],
    decreases mqs.len(),
{
    if mqs.len() > 0 {
        if key_of(mqs.last()@) == k {
            assert(mqs[mqs.len() - 1] == keyed_onto(Map::empty(), mqs)[k]);
        } else {
            lemma_keyed_onto_value(mqs.drop_last(), k);
            let i = choose|i: int|
                0 <= i < mqs.drop_last().len() && #[trigger] mqs.drop_last()[i] == keyed_onto(
                    Map::empty(),
                    mqs.drop_last(),
                )[k];
            assert(mqs[i] == mqs.drop_last()[i]);
        }
    }
}

/// A topic that was subscribed to is read by its expression, and one that was unsubscribed from
/// by the expression for its hand-assigned queues, or all of it; other topics are read as before.
/// Who subscribes has the queues divided.
pub proof fn law_topic_is_read_by_its_expression(
    c: &mut DefaultLitePullConsumer,
    topic: &str,
    expr: &str,
    ns: &str,
    named: String,
    name: &str,
    got: String,
    other: &str,
    other_got: String,
    other_before: String,
    by_hand: bool,
)
    requires
        call_ensures(DefaultLitePullConsumer::subscribe, (c, topic, expr), ()),
        ns@ == old(c).cfg.namespace@,
        call_ensures(with_namespace, (ns, topic), named),
        name@ == named@ && other@ != named@,
        call_ensures(DefaultLitePullConsumer::subscription_for, (&*final(c), name), got),
        call_ensures(DefaultLitePullConsumer::subscription_for, (&*final(c), other), other_got),
        call_ensures(DefaultLitePullConsumer::subscription_for, (&*old(c), other), other_before),
        call_ensures(DefaultLitePullConsumer::is_assign_mode, (&*final(c),), by_hand),
    ensures
        got@ == expr@,
        other_got@ == other_before@,
        !by_hand,
        final(c).state.assigned == old(c).state.assigned && final(c).state.next_offset == old(c).state.next_offset
            && final(c).buffer == old(c).buffer,
{
}

/// A topic that was unsubscribed from is read by the expression for its hand-assigned queues, or
/// all of it is; other topics are read as before.
pub proof fn law_unsubscribed_topic_has_no_expression(
    c: &mut DefaultLitePullConsumer,
    topic: &str,
    ns: &str,
    named: String,
    name: &str,
    got: String,
    other: &str,
    other_got: String,
    other_before: String,
)
    requires
        call_ensures(DefaultLitePullConsumer::unsubscribe, (c, topic), ()),
        ns@ == old(c).cfg.namespace@,
        call_ensures(with_namespace, (ns, topic), named),
        name@ == named@ && other@ != named@,
        call_ensures(DefaultLitePullConsumer::subscription_for, (&*final(c), name), got),
        call_ensures(DefaultLitePullConsumer::subscription_for, (&*final(c), other), other_got),
        call_ensures(DefaultLitePullConsumer::subscription_for, (&*old(c), other), other_before),
    ensures
        !final(c).state.subscription@.dom().contains(named@),
        !final(c).state.subscription_data@.dom().contains(named@),
        !old(c).state.assign_sub_expr@.dom().contains(named@) ==> got@ == "*"@,
        old(c).state.assign_sub_expr@.dom().contains(named@) ==> got@ == old(c).state.assign_sub_expr@[named@]@,
        other_got@ == other_before@,
{
}

/// What a pull found and the expression of the topic takes goes to the end of the buffer, in its
/// order; the next pull of the queue begins right behind the last of it. Where nothing was found,
/// or nothing is taken, nothing changes, and so it is with a queue that is not the one that was
/// read.
pub proof fn law_pull_moves_on_behind_what_it_took(
    c: &mut DefaultLitePullConsumer,
    mq: &MessageQueue,
    result: PullResult,
    r: Option<i64>,
    topic: &str,
    expr: String,
    text: &str,
    sub: Result<SubscriptionData, Error>,
    kept: Vec<MessageExt>,
    known: Option<i64>,
    known_before: Option<i64>,
    other: &MessageQueue,
    key: String,
    other_key: String,
    other_known: Option<i64>,
    other_before: Option<i64>,
)
    requires
        call_requires(DefaultLitePullConsumer::settle_pull, (c, mq, result)),
        call_ensures(DefaultLitePullConsumer::settle_pull, (c, mq, result), r),
        topic@ == mq.topic@,
        call_ensures(DefaultLitePullConsumer::subscription_for, (&*old(c), topic), expr),
        text@ == expr@,
        call_ensures(build_subscription_data, (topic, Some(text)), sub),
        call_ensures(
            client_side_tag_filter,
            (
                match sub {
                    Ok(s) => Some(&s),
                    Err(_) => None,
                },
                result.msg_found_list,
            ),
            kept,
        ),
        call_ensures(DefaultLitePullConsumer::known_offset, (&*final(c), mq), known),
        call_ensures(DefaultLitePullConsumer::known_offset, (&*old(c), mq), known_before),
        call_ensures(mq_key, (mq,), key),
        call_ensures(mq_key, (other,), other_key),
        key@ != other_key@,
        call_ensures(DefaultLitePullConsumer::known_offset, (&*final(c), other), other_known),
        call_ensures(DefaultLitePullConsumer::known_offset, (&*old(c), other), other_before),
    ensures
        ({
            let came = result.status == PullStatus::Found && kept@.len() > 0;
            &&& r is Some <==> came
            &&& came ==> final(c).buffer@ == old(c).buffer@ + kept@ && r == known && known is Some && known->0
                == kept@.last().queue_offset + 1
            &&& !came ==> *final(c) == *old(c) && known == known_before
        }),
        other_known == other_before,
        final(c).state.assigned == old(c).state.assigned && final(c).state.seek_offset == old(c).state.seek_offset
            && final(c).state.last_commit == old(c).state.last_commit,
{
    assert(texts(Seq::<String>::empty()) =~= Seq::<Seq<char>>::empty());
    if let Ok(s) = sub {
        if takes_all(Some(expr@)) {
            assert(texts(s.tags_set@) =~= Seq::<Seq<char>>::empty());
        }
    }
}

/// What was read is handed out in the order in which it was read, each once: first what is first
/// in the buffer, at most so many at once, and nothing only where there is nothing.
pub proof fn law_buffer_is_first_in_first_out(
    c: &mut DefaultLitePullConsumer,
    msgs: Vec<MessageExt>,
    d: &mut DefaultLitePullConsumer,
    out: Option<Vec<MessageExt>>,
    count: usize,
    count_after: usize,
)
    requires
        call_ensures(DefaultLitePullConsumer::enqueue, (c, msgs), ()),
        *old(d) == *final(c),
        call_ensures(DefaultLitePullConsumer::try_drain, (d,), out),
        call_ensures(DefaultLitePullConsumer::buffered_message_count, (&*old(d),), count),
        call_ensures(DefaultLitePullConsumer::buffered_message_count, (&*final(d),), count_after),
    ensures
        out is None <==> old(c).buffer@.len() == 0 && msgs@.len() == 0,
        out matches Some(v) ==> v@ + final(d).buffer@ == old(c).buffer@ + msgs@ && 0 < v@.len() <= 1024 && v@.len()
            + count_after == count && (v@.len() < 1024 ==> count_after == 0),
        count == old(c).buffer@.len() + msgs@.len(),
        final(d).state == old(c).state && final(d).cfg == old(c).cfg,
{
}

/// What was read of a queue is committed by itself where the consumer does so, once the interval
/// has passed since it was last; a commit of one queue does not put off that of another.
pub proof fn law_commits_come_at_intervals(
    c: &mut DefaultLitePullConsumer,
    mq: &MessageQueue,
    then: i64,
    now: i64,
    due: bool,
    other: &MessageQueue,
    key: String,
    other_key: String,
    other_due: bool,
    other_before: bool,
)
    requires
        call_ensures(DefaultLitePullConsumer::note_commit, (c, mq, then), ()),
        call_ensures(DefaultLitePullConsumer::commit_due, (&*final(c), mq, now), due),
        call_ensures(mq_key, (mq,), key),
        call_ensures(mq_key, (other,), other_key),
        key@ != other_key@,
        call_ensures(DefaultLitePullConsumer::commit_due, (&*final(c), other, now), other_due),
        call_ensures(DefaultLitePullConsumer::commit_due, (&*old(c), other, now), other_before),
    ensures
        due <==> old(c).cfg.auto_commit && now - then >= old(c).cfg.auto_commit_interval_millis,
        other_due == other_before,
        final(c).state.next_offset == old(c).state.next_offset && final(c).buffer == old(c).buffer,
{
}

/// A queue that was never committed is due once the interval has passed since the beginning of
/// time, and never where the consumer does not commit by itself.
pub proof fn law_first_commit_is_due(c: &DefaultLitePullConsumer, mq: &MessageQueue, key: String, now: i64, due: bool)
    requires
        call_ensures(mq_key, (mq,), key),
        call_ensures(DefaultLitePullConsumer::commit_due, (c, mq, now), due),
    ensures
        !c.cfg.auto_commit ==> !due,
        c.cfg.auto_commit && !c.state.last_commit@.dom().contains(key@) ==> due == (now
            >= c.cfg.auto_commit_interval_millis),
{
}

/// Queues that are divided are looked at when that was never done, and then again after more than
/// a second.
pub proof fn law_division_comes_at_intervals(c: &mut DefaultLitePullConsumer, then: i64, now: i64, due: bool)
    requires
        call_ensures(DefaultLitePullConsumer::note_rebalance, (c, then), ()),
        call_ensures(DefaultLitePullConsumer::rebalance_due, (&*final(c), now), due),
    ensures
        due <==> !old(c).state.assign_mode && (then == 0 || now - then > 1000),
        final(c).state.assigned == old(c).state.assigned && final(c).state.assign_mode == old(c).state.assign_mode,
{
}

/// The members among whom queues are divided are those that the broker knows and the consumer
/// itself, in order: it is always among them, and nobody else comes in or falls out.
pub proof fn law_consumer_is_a_member(known: Vec<String>, own: &str, r: Vec<String>, id: Seq<char>)
    requires
        call_ensures(member_ids, (known, own), r),
    ensures
        texts(r@).contains(own@),
        texts(r@).contains(id) <==> texts(known@).contains(id) || id == own@,
        r@.len() == known@.len() + if texts(known@).contains(own@) {
            0int
        } else {
            1
        },
        forall|i: int, j: int| 0 <= i < j < r@.len() ==> !comes_before(#[trigger] r@[j]@, #[trigger] r@[i]@),
{
    let a = texts(r@);
    let b = if texts(known@).contains(own@) {
        texts(known@)
    } else {
        texts(known@).push(own@)
    };
    assert(a.to_multiset() == b.to_multiset());
    broadcast use vstd::seq_lib::group_to_multiset_ensures;

    assert(a.to_multiset().len() == b.to_multiset().len());
    assert(a.contains(id) <==> a.to_multiset().count(id) > 0);
    assert(b.contains(id) <==> b.to_multiset().count(id) > 0);
    assert(a.contains(own@) <==> a.to_multiset().count(own@) > 0);
    assert(b.contains(own@) <==> b.to_multiset().count(own@) > 0);
    lemma_push_contains(texts(known@), own@, id);
    lemma_push_contains(texts(known@), own@, own@);
    assert forall|i: int, j: int| 0 <= i < j < r@.len() implies !comes_before(#[trigger] r@[j]@, #[trigger] r@[i]@) by {
        assert(a[i] == r@[i]@ && a[j] == r@[j]@);
    }
}

/// A topic's queues are divided in their order among the members; where the members are not known,
/// the consumer keeps the queues of the topic that it has, and where the division fails, it gets
/// none.
pub proof fn law_share_of_a_topic<A: Fn(&str, &str, &Vec<MessageQueue>, &Vec<String>) -> Result<Vec<MessageQueue>, Error>>(
    c: &DefaultLitePullConsumer,
    topic: &str,
    all: Vec<MessageQueue>,
    known: Option<Vec<String>>,
    allocate: A,
    r: TopicShare,
    have: Vec<MessageQueue>,
    own: String,
)
    requires
        call_ensures(DefaultLitePullConsumer::topic_share::<A>, (c, topic, all, known, allocate), r),
        call_ensures(DefaultLitePullConsumer::assignment, (c,), have),
        call_ensures(DefaultLitePullConsumer::client_id, (c,), own),
    ensures
        r.topic@ == topic@,
        r.all@.to_multiset() == all@.to_multiset(),
        known is None ==> r.divided@ == have@.filter(|q: MessageQueue| q.topic@ == topic@),
        known matches Some(ids) ==> exists|g: &str, o: &str, members: Vec<String>, got: Result<Vec<MessageQueue>, Error>|
            {
                &&& g@ == c.cfg.consumer_group@ && o@ == own@
                &&& texts(members@).contains(own@)
                &&& forall|id: Seq<char>| #[trigger]
                    texts(members@).contains(id) <==> texts(ids@).contains(id) || id == own@
                &&& #[trigger] call_ensures(allocate, (g, o, &r.all, &members), got)
                &&& r.divided@ == match got {
                    Ok(mqs) => mqs@,
                    Err(_) => Seq::empty(),
                }
            },
{
    lemma_queues_of_filter(c.state.assigned.values(), topic@, |q: MessageQueue| q.topic@ == topic@);
    if let Some(ids) = known {
        let (g, o, members, got) = choose|g: &str, o: &str, members: Vec<String>, got: Result<Vec<MessageQueue>, Error>|
            {
                &&& g@ == c.cfg.consumer_group@
                &&& o@ == own@
                &&& are_members(texts(members@), texts(ids@), own@)
                &&& #[trigger] call_ensures(allocate, (g, o, &r.all, &members), got)
                &&& r.divided@ == match got {
                    Ok(mqs) => mqs@,
                    Err(_) => Seq::empty(),
                }
            };
        assert forall|id: Seq<char>| #[trigger] texts(members@).contains(id) <==> texts(ids@).contains(id) || id == own@ by {
            let a = texts(members@);
            let b = if texts(ids@).contains(own@) {
                texts(ids@)
            } else {
                texts(ids@).push(own@)
            };
            broadcast use vstd::seq_lib::group_to_multiset_ensures;

            assert(a.contains(id) <==> a.to_multiset().count(id) > 0);
            assert(b.contains(id) <==> b.to_multiset().count(id) > 0);
            lemma_push_contains(texts(ids@), own@, id);
        }
        assert(call_ensures(allocate, (g, o, &r.all, &members), got));
    }
}

/// A new division gives the consumer exactly the queues of its shares. Of a queue that it keeps,
/// where it was stays known; of one that it loses, it is forgotten. What is new to it is named,
/// once, and nothing that it had.
pub proof fn law_division_is_taken_over(c: &mut DefaultLitePullConsumer, shares: Vec<TopicShare>, r: Rebalanced)
    requires
        old(c).wf(),
        call_ensures(DefaultLitePullConsumer::apply_shares, (c, shares), r),
        final(c).state.assigned.listed(),
    ensures
        forall|k: Seq<char>| #[trigger]
            final(c).state.assigned@.dom().contains(k) <==> exists|i: int, j: int|
                0 <= i < shares@.len() && 0 <= j < shares@[i].divided@.len() && key_of(
                    (#[trigger] shares@[i].divided@[j])@,
                ) == k,
        forall|k: Seq<char>|
            old(c).state.assigned@.dom().contains(k) && !final(c).state.assigned@.dom().contains(k) ==> !(
            #[trigger] final(c).state.next_offset@.dom().contains(k)) && !final(c).state.last_commit@.dom().contains(k),
        forall|k: Seq<char>|
            final(c).state.assigned@.dom().contains(k) || !old(c).state.assigned@.dom().contains(k) ==> (
            #[trigger] final(c).state.next_offset@.dom().contains(k) <==> old(c).state.next_offset@.dom().contains(k))
                && (old(c).state.next_offset@.dom().contains(k) ==> final(c).state.next_offset@[k]
                == old(c).state.next_offset@[k]),
        forall|q: MessageQueue| #[trigger]
            r.added@.contains(q) <==> final(c).state.assigned.values().contains(q) && !old(
                c).state.assigned@.dom().contains(key_of(q@)),
        final(c).state.seek_offset == old(c).state.seek_offset && final(c).state.paused == old(c).state.paused
            && final(c).buffer == old(c).buffer && final(c).state.subscription == old(c).state.subscription,
{
    let had = old(c).state.assigned@.dom();
    let new = keyed_shares(shares@).dom();
    assert forall|k: Seq<char>| #[trigger]
        final(c).state.assigned@.dom().contains(k) <==> exists|i: int, j: int|
            0 <= i < shares@.len() && 0 <= j < shares@[i].divided@.len() && key_of(
                (#[trigger] shares@[i].divided@[j])@,
            ) == k by {
        lemma_keyed_shares_dom(shares@, k);
        assert(final(c).state.assigned@.dom().contains(k) <==> new.contains(k));
        if new.contains(k) {
            let i = choose|i: int| 0 <= i < shares@.len() && keys_of((#[trigger] shares@[i]).divided@).contains(k);
            let mqs = shares@[i].divided@;
            let j = choose|j: int| 0 <= j < mqs.len() && key_of((#[trigger] mqs[j])@) == k;
            assert(key_of(shares@[i].divided@[j]@) == k);
        }
        if exists|i: int, j: int|
            0 <= i < shares@.len() && 0 <= j < shares@[i].divided@.len() && key_of(
                (#[trigger] shares@[i].divided@[j])@,
            ) == k {
            let (i, j) = choose|i: int, j: int|
                0 <= i < shares@.len() && 0 <= j < shares@[i].divided@.len() && key_of(
                    (#[trigger] shares@[i].divided@[j])@,
                ) == k;
            assert(keys_of(shares@[i].divided@).contains(k));
        }
    }
    assert forall|q: MessageQueue| #[trigger]
        r.added@.contains(q) <==> final(c).state.assigned.values().contains(q) && !old(
            c).state.assigned@.dom().contains(key_of(q@)) by {
        let vals = final(c).state.assigned.values();
        law_paused_is_not_read(vals, had, q);
        if new == had && vals.contains(q) {
            let i = vals.index_of(q);
            let k = final(c).state.assigned.order()[i];
            assert(final(c).state.assigned@[k] == final(c).state.assigned.values()[i]);
            assert(final(c).state.assigned@.dom().contains(k));
            assert(key_of(final(c).state.assigned@[k]@) == k);
        }
    }
}

/// Of a commit of several queues the first failure is the one that is told, whatever follows; with
/// no failure it succeeds.
pub proof fn law_first_failure_of_a_commit_counts(
    fresh: CommitRun,
    run: &mut CommitRun,
    got: Result<(), Error>,
    r: Result<(), Error>,
)
    requires
        call_ensures(CommitRun::new, (), fresh),
        call_ensures(CommitRun::note, (run, got), ()),
        call_ensures(CommitRun::finish, (*final(run),), r),
    ensures
        fresh.first_err is None,
        old(run).first_err matches Some(e) ==> r == Err::<(), Error>(e),
        old(run).first_err is None ==> match got {
            Ok(_) => r is Ok,
            Err(e) => r == Err::<(), Error>(e),
        },
{
}

/// The numbers of a configuration that is taken over are within bounds, and stay what they were
/// where they were; nothing else of it changes.
pub proof fn law_configuration_is_within_bounds(c: &mut DefaultLitePullConsumer, cfg: LitePullConsumerConfig)
    requires
        call_ensures(DefaultLitePullConsumer::update_config, (c, cfg), ()),
    ensures
        ({
            let n = final(c).cfg;
            &&& n.pull_batch_size >= 1 && (cfg.pull_batch_size >= 1 ==> n.pull_batch_size == cfg.pull_batch_size)
            &&& cfg.pull_batch_size < 1 ==> n.pull_batch_size == 1
            &&& n.poll_timeout_millis >= 0 && (cfg.poll_timeout_millis >= 0 ==> n.poll_timeout_millis
                == cfg.poll_timeout_millis)
            &&& cfg.poll_timeout_millis < 0 ==> n.poll_timeout_millis == 0
            &&& n.auto_commit_interval_millis >= 0 && (cfg.auto_commit_interval_millis >= 0
                ==> n.auto_commit_interval_millis == cfg.auto_commit_interval_millis)
            &&& cfg.auto_commit_interval_millis < 0 ==> n.auto_commit_interval_millis == 0
            &&& n.pull_interval_millis >= 0 && (cfg.pull_interval_millis >= 0 ==> n.pull_interval_millis
                == cfg.pull_interval_millis)
            &&& cfg.pull_interval_millis < 0 ==> n.pull_interval_millis == 0
            &&& n.consumer_group == cfg.consumer_group && n.namespace == cfg.namespace && n.client_id == cfg.client_id
            &&& n.auto_commit == cfg.auto_commit && n.consume_from_where == cfg.consume_from_where
            &&& n.consume_timestamp == cfg.consume_timestamp && n.message_model == cfg.message_model
            &&& n.name_server_addrs == cfg.name_server_addrs
        }),
        final(c).state == old(c).state && final(c).buffer == old(c).buffer,
{
}

/// A poll waits as long as it is told, or else as the configuration says, and never less than no
/// time. A round that brought nothing waits for the interval of the configuration; one that
/// brought something goes on soon.
pub proof fn law_waits_are_as_told(
    c: &DefaultLitePullConsumer,
    timeout: Option<i64>,
    wait: u64,
    idle: u64,
    busy: u64,
)
    requires
        call_ensures(DefaultLitePullConsumer::poll_wait_millis, (c, timeout), wait),
        call_ensures(DefaultLitePullConsumer::backoff_millis, (c, false), idle),
        call_ensures(DefaultLitePullConsumer::backoff_millis, (c, true), busy),
    ensures
        timeout matches Some(t) ==> wait == if t < 0 {
            0
        } else {
            t as int
        },
        timeout is None && c.cfg.poll_timeout_millis >= 0 ==> wait == c.cfg.poll_timeout_millis,
        timeout is None && c.cfg.poll_timeout_millis < 0 ==> wait == 0,
        c.cfg.pull_interval_millis >= 0 ==> idle == c.cfg.pull_interval_millis,
        c.cfg.pull_interval_millis < 0 ==> idle == 0,
        busy == 5,
{
}

/// A consumer starts where there is a way to name servers, something to read, and a time to begin
/// at that means something; else it fails, by the first of these that is missing, and stays as it
/// was. One that is started stays as it is.
pub proof fn law_consumer_starts_where_it_can(
    c: &mut DefaultLitePullConsumer,
    top_addressing: bool,
    stamp: Result<i64, Error>,
    clock: &str,
    r: Result<Option<StartPlan>, Error>,
)
    requires
        call_ensures(DefaultLitePullConsumer::begin_start_at, (c, top_addressing, stamp, clock), r),
    ensures
        ({
            let addressed = old(c).cfg.name_server_addrs@.len() > 0 || top_addressing;
            let reads = old(c).state.assign_mode || exists|t: Seq<char>| old(c).state.subscription@.dom().contains(t);
            &&& old(c).started ==> (r matches Ok(None)) && *final(c) == *old(c)
            &&& !old(c).started ==> ((r matches Ok(Some(_))) <==> addressed && reads && stamp is Ok)
            &&& r is Err ==> *final(c) == *old(c)
            &&& !old(c).started && !addressed ==> (r matches Err(e) && is_client(
                e,
                None,
                "name server address is not set"@,
            ))
            &&& !old(c).started && addressed && !reads ==> (r matches Err(e) && is_client(
                e,
                None,
                "subscription is not set, call subscribe() or assign() first"@,
            ))
            &&& !old(c).started && addressed && reads && stamp is Err ==> r == Err::<Option<StartPlan>, Error>(
                stamp->Err_0,
            )
        }),
        r matches Ok(Some(plan)) ==> {
            &&& final(c).started
            &&& opt(final(c).cfg.client_id) == Some(plan.client_id@)
            &&& old(c).cfg.client_id is Some ==> plan.client_id@ == old(c).cfg.client_id->0@
            &&& old(c).cfg.client_id is None ==> plan.client_id@ == old(c).cfg.instance_name@ + "@"@ + clock@
            &&& plan.name_server_addrs@ == old(c).cfg.name_server_addrs@
            &&& plan.instance_cfg.tls_enable == old(c).cfg.tls_enable
            &&& final(c).state == old(c).state && final(c).buffer == old(c).buffer
            &&& final(c).cfg.consumer_group == old(c).cfg.consumer_group
        },
{
    let s = old(c).state.subscription@.dom();
    if s != Set::<Seq<char>>::empty() {
        if forall|t: Seq<char>| !s.contains(t) {
            assert(s =~= Set::<Seq<char>>::empty());
        }
    }
}

/// A consumer whose instance started reads through it, takes over its name servers where it has
/// none, and has to find out where to begin with each queue that is assigned and has no offset.
pub proof fn law_started_consumer_has_its_instance<C>(
    c: &mut DefaultLitePullConsumer,
    number: u64,
    instance: &MQClientInstance<C>,
    pending: Vec<MessageQueue>,
    client: Result<u64, Error>,
    all: Vec<MessageQueue>,
)
    requires
        old(c).started,
        call_ensures(DefaultLitePullConsumer::client_started::<C>, (c, number, instance), pending),
        call_ensures(DefaultLitePullConsumer::require_client, (&*final(c),), client),
        call_ensures(DefaultLitePullConsumer::assignment, (&*old(c),), all),
    ensures
        client == Ok::<u64, Error>(number),
        old(c).cfg.name_server_addrs@.len() == 0 ==> final(c).cfg.name_server_addrs@ == instance.name_server_addrs@,
        old(c).cfg.name_server_addrs@.len() > 0 ==> final(c).cfg.name_server_addrs@ == old(c).cfg.name_server_addrs@,
        pending@ == all@.filter(|q: MessageQueue| !old(c).state.next_offset@.dom().contains(key_of(q@))),
        final(c).state == old(c).state,
{
    lemma_without(
        old(c).state.assigned.values(),
        old(c).state.next_offset@.dom(),
        |q: MessageQueue| !old(c).state.next_offset@.dom().contains(key_of(q@)),
    );
}

/// The heartbeat tells of this consumer alone: its group, how it reads, and what the topics that
/// it subscribed to are.
pub proof fn law_heartbeat_tells_of_the_consumer(c: &DefaultLitePullConsumer, r: HeartbeatData)
    requires
        call_ensures(DefaultLitePullConsumer::build_lite_heartbeat, (c,), r),
    ensures
        r.producer_groups@.len() == 0 && r.consumer_data_set@.len() == 1,
        r.consumer_data_set@[0].group_name == c.cfg.consumer_group,
        r.consumer_data_set@[0].consume_type@ == "CONSUME_PASSIVELY"@,
        r.consumer_data_set@[0].message_model == c.cfg.message_model,
        r.consumer_data_set@[0].consume_from_where == c.cfg.consume_from_where,
        r.consumer_data_set@[0].subscription_data_set@.len() == c.state.subscription_data.order().len(),
        forall|i: int|
            0 <= i < c.state.subscription_data.order().len() ==> {
                let d = #[trigger] r.consumer_data_set@[0].subscription_data_set@[i];
                &&& d.topic == c.state.subscription_data.values()[i].topic
                &&& d.sub_string == c.state.subscription_data.values()[i].sub_string
                &&& d.tags_set@ == c.state.subscription_data.values()[i].tags_set@
            },
        c.cfg.client_id matches Some(id) ==> r.client_id@ == id@,
{
}

/// A pull of a queue asks its broker for that queue, from that offset on, by the expression of its
/// topic.
pub proof fn law_pull_asks_for_its_queue(
    c: &DefaultLitePullConsumer,
    mq: &MessageQueue,
    offset: i64,
    r: PullPlan,
    topic: &str,
    expr: String,
)
    requires
        call_ensures(DefaultLitePullConsumer::pull_plan, (c, mq, offset), r),
        topic@ == mq.topic@,
        call_ensures(DefaultLitePullConsumer::subscription_for, (c, topic), expr),
    ensures
        opt(r.header.topic) == Some(mq.topic@),
        r.header.queue_id == Some(mq.queue_id),
        r.header.queue_offset == Some(offset),
        opt(r.header.consumer_group) == Some(c.cfg.consumer_group@),
        opt(r.header.subscription) == Some(expr@),
        r.header.max_msg_nums == Some(c.cfg.pull_batch_size),
        r.timeout_millis == 30_000,
{
}

} // verus!

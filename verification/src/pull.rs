//! The pull consumer: it is told which queue to read, and from where.
use vstd::prelude::*;

use crate::client::MQClientInstance;
use crate::clock::{shown_before, wall_clock};
use crate::config::{MQClientInstanceConfig, PullConsumerConfig};
use crate::error::{is_client, Error};
use crate::message::{copy_texts, opt, or_empty, MessageExt, MessageQueue};
use crate::names::{blank, in_namespace, is_blank, with_namespace};
use crate::producer::StartPlan;
use crate::protocol::PullMessageRequestHeader;
use crate::result::{PullResult, PullStatus};
use crate::subscription::{
    all_empty, build_subscription_data, sub_expression_of, takes_all, SubscriptionData, SUB_ALL, TAG,
};
use crate::sysflag::{bit, build_sys_flag_basic, has_suspend_flag};
use crate::table::{ascending, Table};
use crate::text::{non_blank, pieces, split_addrs, texts};
use crate::transaction::{known_addr, knows_broker};
use crate::wire::{pull_request_header, PullArgs};

verus! {

/// For how long a broker may hold a pull that does not wait: it never does, but is told.
pub const PULL_SUSPEND_TIMEOUT_MILLIS: i64 = 15_000;

/// The flags of a pull: it commits nothing and brings its subscription; whether it waits at
/// the end of the queue is up to `block`.
pub fn pull_sys_flag(block: bool) -> (r: i32)
    ensures
        r == bit(block, 2) + 4,
{
    build_sys_flag_basic(false, block, true, false)
}

/// `h` asks for messages of a queue, under an expression.
pub open spec fn asks(
    h: PullMessageRequestHeader,
    group: Seq<char>,
    mq: MessageQueue,
    offset: i64,
    max_nums: i32,
    block: bool,
    expr: Seq<char>,
    suspend: i64,
) -> bool {
    &&& opt(h.consumer_group) == Some(group)
    &&& opt(h.topic) == Some(mq.topic@)
    &&& h.queue_id == Some(mq.queue_id)
    &&& h.queue_offset == Some(offset)
    &&& h.max_msg_nums == Some(max_nums)
    &&& h.sys_flag is Some && h.sys_flag->0 == bit(block, 2) + 4
    &&& h.commit_offset == Some(0i64)
    &&& h.suspend_timeout_millis == Some(suspend)
    &&& opt(h.subscription) == Some(expr)
    &&& h.sub_version == Some(0i64)
    &&& opt(h.expression_type) == Some(TAG@)
    &&& h.max_msg_bytes == Some(-1i32)
    &&& h.request_source == Some(0i32)
}

/// A pull by tags.
pub fn tag_pull_header(
    group: &str,
    mq: &MessageQueue,
    offset: i64,
    max_nums: i32,
    block: bool,
    expr: &str,
    suspend: i64,
) -> (r: PullMessageRequestHeader)
    ensures
        asks(r, group@, *mq, offset, max_nums, block, expr@, suspend),
{
    pull_request_header(
        group,
        mq,
        &PullArgs {
            queue_offset: offset,
            max_msg_nums: max_nums,
            sys_flag: pull_sys_flag(block),
            commit_offset: 0,
            subscription: expr,
            sub_version: 0,
            expression_type: TAG,
            max_msg_bytes: -1,
            suspend_timeout_millis: suspend,
            request_source: 0,
        },
    )
}

/// The expression as it travels.
pub open spec fn sent_expression(expr: Seq<char>) -> Seq<char> {
    if takes_all(Some(expr)) {
        SUB_ALL@
    } else {
        expr
    }
}

/// A pull that is ready to be sent.
#[derive(Debug)]
pub struct PullPlan {
    pub header: PullMessageRequestHeader,
    pub timeout_millis: i64,
}

/// The client id of a consumer that has none: its instance, and when it started.
pub open spec fn clock_id(instance: Seq<char>, clock: Seq<char>) -> Seq<char> {
    instance + "@"@ + clock
}

/// A configuration of an instance that differs from the default in nothing but `tls_enable`.
pub fn plain_instance_cfg(tls_enable: Option<bool>) -> (r: MQClientInstanceConfig)
    ensures
        exists|d: MQClientInstanceConfig| #[trigger]
            call_ensures(MQClientInstanceConfig::default, (), d) && r == (MQClientInstanceConfig { tls_enable, ..d }),
{
    let base = MQClientInstanceConfig::default();
    let ghost d = base;
    assert(call_ensures(MQClientInstanceConfig::default, (), d));
    let mut r = base;
    r.tls_enable = tls_enable;
    r
}

/// Reads queues that it is told to read.
pub struct DefaultMQPullConsumer {
    pub cfg: PullConsumerConfig,
    pub started: bool,
    /// The number of the client instance, while there is one.
    pub client: Option<u64>,
    pub register_topics: Table<()>,
    /// The names of the hooks that filter what is read.
    pub filter_hooks: Vec<String>,
}

/// `e` says that the consumer is not started.
pub open spec fn consumer_not_started(e: Error) -> bool {
    is_client(e, None, "consumer not started, call start() first"@)
}

pub open spec fn fresh_pull(c: DefaultMQPullConsumer, cfg: PullConsumerConfig) -> bool {
    &&& c.cfg == cfg
    &&& !c.started
    &&& c.client is None
    &&& c.register_topics@ == Map::<Seq<char>, ()>::empty()
    &&& c.filter_hooks@.len() == 0
}

/// `after` is `before` once it has started, when the wall clock showed `clock`; `plan` is what
/// it asks for.
pub open spec fn pull_started(
    before: DefaultMQPullConsumer,
    after: DefaultMQPullConsumer,
    plan: StartPlan,
    clock: Seq<char>,
) -> bool {
    let c = before.cfg;
    &&& plan.client_id@ == match c.client_id {
        Some(id) => id@,
        None => clock_id(c.instance_name@, clock),
    }
    &&& opt(after.cfg.client_id) == Some(plan.client_id@)
    &&& after == (DefaultMQPullConsumer {
        cfg: PullConsumerConfig { client_id: after.cfg.client_id, ..c },
        started: true,
        ..before
    })
    &&& plan.name_server_addrs@ == c.name_server_addrs@
    &&& call_ensures(plain_instance_cfg, (c.tls_enable,), plan.instance_cfg)
}

impl DefaultMQPullConsumer {
    /// It is started and has its instance.
    pub open spec fn ready(&self) -> bool {
        self.started && self.client is Some
    }

    /// A consumer with that configuration; its group cannot be blank.
    pub fn with_config(cfg: PullConsumerConfig) -> (r: Result<DefaultMQPullConsumer, Error>)
        ensures
            match r {
                Ok(c) => !blank(cfg.consumer_group@) && fresh_pull(c, cfg),
                Err(e) => blank(cfg.consumer_group@) && is_client(e, None, "consumerGroup is empty"@),
            },
    {
        if is_blank(cfg.consumer_group.as_str()) {
            return Err(Error::client("consumerGroup is empty"));
        }
        Ok(
            DefaultMQPullConsumer {
                cfg,
                started: false,
                client: None,
                register_topics: Table::new(),
                filter_hooks: Vec::new(),
            },
        )
    }

    pub fn new(consumer_group: &str) -> (r: Result<DefaultMQPullConsumer, Error>)
        ensures
            match r {
                Ok(c) => {
                    &&& !blank(consumer_group@)
                    &&& c.cfg.consumer_group@ == consumer_group@
                    &&& exists|d: PullConsumerConfig| #[trigger]
                        call_ensures(PullConsumerConfig::default, (), d) && fresh_pull(
                            c,
                            PullConsumerConfig { consumer_group: c.cfg.consumer_group, ..d },
                        )
                },
                Err(e) => blank(consumer_group@) && is_client(e, None, "consumerGroup is empty"@),
            },
    {
        let mut cfg = PullConsumerConfig::default();
        let ghost d = cfg;
        cfg.consumer_group = consumer_group.to_owned();
        let ghost full = cfg;
        let r = DefaultMQPullConsumer::with_config(cfg);
        proof {
            assert(call_ensures(PullConsumerConfig::default, (), d));
            assert(full == (PullConsumerConfig { consumer_group: full.consumer_group, ..d }));
        }
        r
    }

    pub fn config(&self) -> (r: &PullConsumerConfig)
        ensures
            *r == self.cfg,
    {
        &self.cfg
    }

    pub fn update_config(&mut self, cfg: PullConsumerConfig)
        ensures
            *final(self) == (DefaultMQPullConsumer { cfg, ..*old(self) }),
    {
        self.cfg = cfg;
    }

    pub fn consumer_group(&self) -> (r: String)
        ensures
            r == self.cfg.consumer_group,
    {
        self.cfg.consumer_group.clone()
    }

    /// The client id; the empty text while there is none.
    pub fn client_id(&self) -> (r: String)
        ensures
            r@ == match self.cfg.client_id {
                Some(id) => id@,
                None => Seq::empty(),
            },
    {
        or_empty(&self.cfg.client_id)
    }

    pub fn is_started(&self) -> (r: bool)
        ensures
            r == self.started,
    {
        self.started
    }

    /// Takes over name servers from a list with semicolons.
    pub fn set_namesrv_addr(&mut self, addr: &str)
        ensures
            texts(final(self).cfg.name_server_addrs@) == non_blank(pieces(addr@, ";"@)),
            *final(self) == (DefaultMQPullConsumer {
                cfg: PullConsumerConfig {
                    name_server_addrs: final(self).cfg.name_server_addrs,
                    ..old(self).cfg
                },
                ..*old(self)
            }),
    {
        self.cfg.name_server_addrs = split_addrs(addr);
    }

    pub fn set_name_server_addresses(&mut self, addrs: &Vec<String>)
        ensures
            final(self).cfg.name_server_addrs@ == addrs@,
            *final(self) == (DefaultMQPullConsumer {
                cfg: PullConsumerConfig {
                    name_server_addrs: final(self).cfg.name_server_addrs,
                    ..old(self).cfg
                },
                ..*old(self)
            }),
    {
        self.cfg.name_server_addrs = copy_texts(addrs);
    }

    pub fn set_instance_name(&mut self, name: &str)
        ensures
            final(self).cfg.instance_name@ == name@,
            *final(self) == (DefaultMQPullConsumer {
                cfg: PullConsumerConfig { instance_name: final(self).cfg.instance_name, ..old(self).cfg },
                ..*old(self)
            }),
    {
        self.cfg.instance_name = name.to_owned();
    }

    pub fn set_namespace(&mut self, namespace: &str)
        ensures
            final(self).cfg.namespace@ == namespace@,
            *final(self) == (DefaultMQPullConsumer {
                cfg: PullConsumerConfig { namespace: final(self).cfg.namespace, ..old(self).cfg },
                ..*old(self)
            }),
    {
        self.cfg.namespace = namespace.to_owned();
    }

    pub fn set_message_model(&mut self, model: &str)
        ensures
            final(self).cfg.message_model@ == model@,
            *final(self) == (DefaultMQPullConsumer {
                cfg: PullConsumerConfig { message_model: final(self).cfg.message_model, ..old(self).cfg },
                ..*old(self)
            }),
    {
        self.cfg.message_model = model.to_owned();
    }

    /// The topics that were registered, each once, in order.
    pub fn register_topics(&self) -> (r: Vec<String>)
        ensures
            ascending(texts(r@)),
            forall|t: Seq<char>| #[trigger]
                texts(r@).contains(t) <==> self.register_topics@.dom().contains(t),
    {
        self.register_topics.keys()
    }

    /// Registers a topic, inside the namespace.
    pub fn register_topic(&mut self, topic: &str)
        ensures
            final(self).register_topics@ == old(self).register_topics@.insert(
                in_namespace(old(self).cfg.namespace@, topic@),
                (),
            ),
            *final(self) == (DefaultMQPullConsumer {
                register_topics: final(self).register_topics,
                ..*old(self)
            }),
    {
        let topic = with_namespace(self.cfg.namespace.as_str(), topic);
        self.register_topics.insert(topic, ());
    }

    pub fn register_filter_message_hook(&mut self, name: &str)
        ensures
            texts(final(self).filter_hooks@) == texts(old(self).filter_hooks@).push(name@),
            *final(self) == (DefaultMQPullConsumer { filter_hooks: final(self).filter_hooks, ..*old(self) }),
    {
        self.filter_hooks.push(name.to_owned());
        assert(texts(self.filter_hooks@) =~= texts(old(self).filter_hooks@).push(name@));
    }

    pub fn has_filter_message_hook(&self) -> (r: bool)
        ensures
            r == (self.filter_hooks@.len() > 0),
    {
        self.filter_hooks.len() > 0
    }

    /// Starts the consumer when the wall clock shows `clock`. One that is started stays as it
    /// is; without name servers, or an address server for them, it cannot start.
    pub fn begin_start_at(&mut self, top_addressing: bool, clock: &str) -> (r: Result<Option<StartPlan>, Error>)
        ensures
            ({
                let c = old(self).cfg;
                let addresses = c.name_server_addrs@.len() > 0 || top_addressing;
                match r {
                    Ok(None) => old(self).started && *final(self) == *old(self),
                    Err(e) => !old(self).started && !addresses && *final(self) == *old(self) && is_client(
                        e,
                        None,
                        "name server address is not set"@,
                    ),
                    Ok(Some(plan)) => !old(self).started && addresses && pull_started(*old(self), *final(self), plan, clock@),
                }
            }),
    {
        if self.started {
            return Ok(None);
        }
        if self.cfg.name_server_addrs.len() == 0 && !top_addressing {
            return Err(Error::client("name server address is not set"));
        }
        let client_id: String = match &self.cfg.client_id {
            Some(id) => id.clone(),
            None => self.cfg.instance_name.clone().concat("@").concat(clock),
        };
        self.cfg.client_id = Some(client_id.clone());
        self.started = true;
        let instance_cfg = plain_instance_cfg(self.cfg.tls_enable);
        Ok(
            Some(
                StartPlan { client_id, name_server_addrs: copy_texts(&self.cfg.name_server_addrs), instance_cfg },
            ),
        )
    }

    /// Starts the consumer now.
    pub fn begin_start(&mut self, top_addressing: bool) -> (r: Result<Option<StartPlan>, Error>)
        ensures
            match r {
                Ok(None) => old(self).started && *final(self) == *old(self),
                Err(e) => !old(self).started && old(self).cfg.name_server_addrs@.len() == 0 && !top_addressing
                    && *final(self) == *old(self) && is_client(e, None, "name server address is not set"@),
                Ok(Some(plan)) => !old(self).started && (old(self).cfg.name_server_addrs@.len() > 0 || top_addressing)
                    && exists|clock: Seq<char>|
                    shown_before(clock, 0) && #[trigger] pull_started(*old(self), *final(self), plan, clock),
            },
    {
        let clock = wall_clock();
        self.begin_start_at(top_addressing, clock.as_str())
    }

    /// The instance could not start: the consumer is as good as never started.
    pub fn start_failed(&mut self)
        ensures
            *final(self) == (DefaultMQPullConsumer { started: false, ..*old(self) }),
    {
        self.started = false;
    }

    /// The instance has started. Name servers that it found are taken over where none were
    /// configured.
    pub fn client_started<C>(&mut self, number: u64, instance: &MQClientInstance<C>)
        ensures
            final(self).cfg.name_server_addrs@ == if old(self).cfg.name_server_addrs@.len() == 0 {
                instance.name_server_addrs@
            } else {
                old(self).cfg.name_server_addrs@
            },
            *final(self) == (DefaultMQPullConsumer {
                client: Some(number),
                cfg: PullConsumerConfig {
                    name_server_addrs: final(self).cfg.name_server_addrs,
                    ..old(self).cfg
                },
                ..*old(self)
            }),
    {
        self.client = Some(number);
        if self.cfg.name_server_addrs.len() == 0 {
            let addrs = instance.name_server_addrs();
            if addrs.len() > 0 {
                self.cfg.name_server_addrs = addrs;
            }
        }
        proof {
            if old(self).cfg.name_server_addrs@.len() == 0 && instance.name_server_addrs@.len() == 0 {
                assert(old(self).cfg.name_server_addrs@ =~= instance.name_server_addrs@);
            }
        }
    }

    /// Stops the consumer, and gives the instance that it used; one that is not started stays
    /// as it is.
    pub fn shutdown(&mut self) -> (r: Option<u64>)
        ensures
            if old(self).started {
                r == old(self).client && *final(self) == (DefaultMQPullConsumer {
                    started: false,
                    client: None,
                    ..*old(self)
                })
            } else {
                r is None && *final(self) == *old(self)
            },
    {
        if !self.started {
            return None;
        }
        self.started = false;
        let client = self.client;
        self.client = None;
        client
    }

    /// The instance to read through; there is one from the start to the end.
    pub fn require_client(&self) -> (r: Result<u64, Error>)
        ensures
            match r {
                Ok(n) => self.ready() && self.client == Some(n),
                Err(e) => !self.ready() && consumer_not_started(e),
            },
    {
        if !self.started {
            return Err(Error::client("consumer not started, call start() first"));
        }
        match self.client {
            Some(n) => Ok(n),
            None => Err(Error::client("consumer not started, call start() first")),
        }
    }

    /// A pull of a queue, under a tag expression, that does not wait at the end of the queue.
    pub fn pull(
        &self,
        mq: &MessageQueue,
        sub_expression: &str,
        offset: i64,
        max_nums: i32,
        timeout_millis: Option<i64>,
    ) -> (r: Result<PullPlan, Error>)
        ensures
            match r {
                Ok(p) => {
                    &&& self.ready()
                    &&& takes_all(Some(sub_expression@)) || !all_empty(pieces(sub_expression@, "||"@))
                    &&& asks(
                        p.header,
                        self.cfg.consumer_group@,
                        *mq,
                        offset,
                        max_nums,
                        false,
                        sent_expression(sub_expression@),
                        PULL_SUSPEND_TIMEOUT_MILLIS,
                    )
                    &&& p.timeout_millis == timeout_millis.unwrap_or(self.cfg.consumer_pull_timeout_millis)
                },
                Err(e) => self.cannot_pull(e, sub_expression@),
            },
    {
        if let Err(e) = self.require_client() {
            return Err(e);
        }
        let sub = match build_subscription_data(mq.topic.as_str(), Some(sub_expression)) {
            Ok(s) => s,
            Err(e) => {
                return Err(e);
            },
        };
        let header = tag_pull_header(
            self.cfg.consumer_group.as_str(),
            mq,
            offset,
            max_nums,
            false,
            sub_expression_of(&sub),
            PULL_SUSPEND_TIMEOUT_MILLIS,
        );
        Ok(
            PullPlan {
                header,
                timeout_millis: timeout_millis.unwrap_or(self.cfg.consumer_pull_timeout_millis),
            },
        )
    }

    /// Why a pull cannot be sent: the consumer is not started, or the expression is malformed.
    pub open spec fn cannot_pull(&self, e: Error, expr: Seq<char>) -> bool {
        if !self.ready() {
            consumer_not_started(e)
        } else {
            &&& !takes_all(Some(expr)) && all_empty(pieces(expr, "||"@))
            &&& is_client(e, None, "subString split error"@)
        }
    }

    /// A pull of a queue that waits at the end of the queue for a message to come.
    pub fn pull_block_if_not_found(&self, mq: &MessageQueue, sub_expression: &str, offset: i64, max_nums: i32) -> (r: Result<
        PullPlan,
        Error,
    >)
        ensures
            match r {
                Ok(p) => {
                    &&& self.ready()
                    &&& takes_all(Some(sub_expression@)) || !all_empty(pieces(sub_expression@, "||"@))
                    &&& asks(
                        p.header,
                        self.cfg.consumer_group@,
                        *mq,
                        offset,
                        max_nums,
                        true,
                        sent_expression(sub_expression@),
                        self.cfg.broker_suspend_max_time_millis,
                    )
                    &&& p.timeout_millis == self.cfg.consumer_timeout_millis_when_suspend
                },
                Err(e) => self.cannot_pull(e, sub_expression@),
            },
    {
        if let Err(e) = self.require_client() {
            return Err(e);
        }
        let sub = match build_subscription_data(mq.topic.as_str(), Some(sub_expression)) {
            Ok(s) => s,
            Err(e) => {
                return Err(e);
            },
        };
        let header = tag_pull_header(
            self.cfg.consumer_group.as_str(),
            mq,
            offset,
            max_nums,
            true,
            sub_expression_of(&sub),
            self.cfg.broker_suspend_max_time_millis,
        );
        Ok(PullPlan { header, timeout_millis: self.cfg.consumer_timeout_millis_when_suspend })
    }

    /// Where a message is given back: at its broker, which must be known from a route.
    pub fn send_back_addr<C>(&self, instance: &MQClientInstance<C>, msg: &MessageExt) -> (r: Result<String, Error>)
        ensures
            ({
                let broker = match msg.broker_name {
                    Some(b) => b@,
                    None => Seq::<char>::empty(),
                };
                match r {
                    Ok(a) => self.ready() && known_addr(*instance, broker, a@),
                    Err(e) => if !self.ready() {
                        consumer_not_started(e)
                    } else {
                        !knows_broker(*instance, broker) && is_client(
                            e,
                            None,
                            "broker "@ + broker + " not found"@,
                        )
                    },
                }
            }),
    {
        if let Err(e) = self.require_client() {
            return Err(e);
        }
        let broker = or_empty(&msg.broker_name);
        match instance.broker_addr_of(broker.as_str()) {
            Some(a) => Ok(a),
            None => Err(
                Error::client("broker ".to_owned().concat(broker.as_str()).concat(" not found").as_str()),
            ),
        }
    }
}

/// Has `filter` look at what a pull found; a pull that found nothing is left alone.
pub fn apply_delivery_filter<F: Fn(&MessageQueue, Vec<MessageExt>) -> Vec<MessageExt>>(
    mq: &MessageQueue,
    result: PullResult,
    filter: F,
) -> (r: PullResult)
    requires
        forall|q: MessageQueue, v: Vec<MessageExt>| #[trigger] call_requires(filter, (&q, v)),
    ensures
        if result.status == PullStatus::Found && result.msg_found_list@.len() > 0 {
            &&& call_ensures(filter, (mq, result.msg_found_list), r.msg_found_list)
            &&& r == (PullResult { msg_found_list: r.msg_found_list, ..result })
        } else {
            r == result
        },
{
    if result.status == PullStatus::Found && result.msg_found_list.len() > 0 {
        let PullResult { status, next_begin_offset, min_offset, max_offset, msg_found_list } = result;
        let kept = filter(mq, msg_found_list);
        PullResult { status, next_begin_offset, min_offset, max_offset, msg_found_list: kept }
    } else {
        result
    }
}

/// A pull asks for a queue from an offset on, for at most so many messages, by an expression; a
/// plain one does not wait at the end of the queue, a blocking one does, as long as the
/// configuration says. Every expression that takes all travels as `*`.
pub proof fn law_pulls_ask_for_what_they_are_told(
    c: &DefaultMQPullConsumer,
    mq: &MessageQueue,
    expr: &str,
    offset: i64,
    max_nums: i32,
    timeout: Option<i64>,
    r: Result<PullPlan, Error>,
    b: Result<PullPlan, Error>,
    sub: Result<SubscriptionData, Error>,
    topic: &str,
    client: Result<u64, Error>,
    flag: i32,
    waits: bool,
    flag_b: i32,
    waits_b: bool,
)
    requires
        call_ensures(DefaultMQPullConsumer::pull, (c, mq, expr, offset, max_nums, timeout), r),
        call_ensures(DefaultMQPullConsumer::pull_block_if_not_found, (c, mq, expr, offset, max_nums), b),
        topic@ == mq.topic@,
        call_ensures(build_subscription_data, (topic, Some(expr)), sub),
        call_ensures(DefaultMQPullConsumer::require_client, (c,), client),
        r matches Ok(p) ==> p.header.sys_flag == Some(flag),
        call_ensures(has_suspend_flag, (flag,), waits),
        b matches Ok(p) ==> p.header.sys_flag == Some(flag_b),
        call_ensures(has_suspend_flag, (flag_b,), waits_b),
    ensures
        r is Ok <==> client is Ok && sub is Ok,
        b is Ok <==> client is Ok && sub is Ok,
        r matches Err(e) ==> e is Client,
        client is Ok && sub is Err ==> (r matches Err(e) && is_client(e, None, "subString split error"@)),
        client is Err ==> (r matches Err(e) && is_client(e, None, "consumer not started, call start() first"@)),
        r matches Ok(p) ==> {
            &&& opt(p.header.topic) == Some(mq.topic@)
            &&& p.header.queue_id == Some(mq.queue_id)
            &&& p.header.queue_offset == Some(offset)
            &&& p.header.max_msg_nums == Some(max_nums)
            &&& opt(p.header.consumer_group) == Some(c.cfg.consumer_group@)
            &&& expr@.len() == 0 || expr@ == "*"@ ==> opt(p.header.subscription) == Some("*"@)
            &&& expr@.len() > 0 ==> opt(p.header.subscription) == Some(expr@)
            &&& timeout matches Some(t) ==> p.timeout_millis == t
            &&& timeout is None ==> p.timeout_millis == c.cfg.consumer_pull_timeout_millis
            &&& !waits
        },
        b matches Ok(p) ==> {
            &&& opt(p.header.topic) == Some(mq.topic@)
            &&& p.header.queue_id == Some(mq.queue_id)
            &&& p.header.queue_offset == Some(offset)
            &&& p.header.max_msg_nums == Some(max_nums)
            &&& opt(p.header.subscription) == opt((r->Ok_0).header.subscription)
            &&& p.header.suspend_timeout_millis == Some(c.cfg.broker_suspend_max_time_millis)
            &&& p.timeout_millis == c.cfg.consumer_timeout_millis_when_suspend
            &&& waits_b
        },
{
    if r is Ok {
        assert(flag == 4);
        assert(4i32 & 2 != 2) by (bit_vector);
    }
    if b is Ok {
        assert(flag_b == 6);
        assert(6i32 & 2 == 2) by (bit_vector);
    }
}

/// A filter of what is delivered sees exactly what a pull found, and what it keeps is what the pull
/// gives; where a pull found nothing, nobody is asked, and everything stays as it is.
pub proof fn law_delivery_filter_sees_what_was_found<F: Fn(&MessageQueue, Vec<MessageExt>) -> Vec<MessageExt>>(
    mq: &MessageQueue,
    result: PullResult,
    filter: F,
    r: PullResult,
)
    requires
        call_ensures(apply_delivery_filter::<F>, (mq, result, filter), r),
    ensures
        result.status == PullStatus::Found && result.msg_found_list@.len() > 0 ==> call_ensures(
            filter,
            (mq, result.msg_found_list),
            r.msg_found_list,
        ),
        result.status != PullStatus::Found || result.msg_found_list@.len() == 0 ==> r == result,
        r.status == result.status && r.next_begin_offset == result.next_begin_offset && r.min_offset == result.min_offset
            && r.max_offset == result.max_offset,
{
}

/// A consumer starts where there is a way to name servers, once; where there is none it stays as
/// it was. It takes its client id, or makes one of its instance and the clock.
pub proof fn law_pull_consumer_starts_where_it_can(
    c: &mut DefaultMQPullConsumer,
    top_addressing: bool,
    clock: &str,
    r: Result<Option<StartPlan>, Error>,
)
    requires
        call_ensures(DefaultMQPullConsumer::begin_start_at, (c, top_addressing, clock), r),
    ensures
        old(c).started ==> (r matches Ok(None)) && *final(c) == *old(c),
        !old(c).started ==> ((r matches Ok(Some(_))) <==> old(c).cfg.name_server_addrs@.len() > 0 || top_addressing),
        r is Err ==> *final(c) == *old(c) && is_client(r->Err_0, None, "name server address is not set"@),
        r matches Ok(Some(plan)) ==> {
            &&& final(c).started
            &&& opt(final(c).cfg.client_id) == Some(plan.client_id@)
            &&& old(c).cfg.client_id is Some ==> plan.client_id@ == old(c).cfg.client_id->0@
            &&& old(c).cfg.client_id is None ==> plan.client_id@ == old(c).cfg.instance_name@ + "@"@ + clock@
            &&& plan.name_server_addrs@ == old(c).cfg.name_server_addrs@
            &&& plan.instance_cfg.tls_enable == old(c).cfg.tls_enable
            &&& final(c).cfg.consumer_group == old(c).cfg.consumer_group
        },
{
}

/// A consumer reads through its instance from when that started until it is stopped, and can be
/// started again then.
pub proof fn law_pull_consumer_has_its_instance_while_it_runs<C>(
    c: &mut DefaultMQPullConsumer,
    number: u64,
    instance: &MQClientInstance<C>,
    during: Result<u64, Error>,
    d: &mut DefaultMQPullConsumer,
    gone: Option<u64>,
    after: Result<u64, Error>,
    again: bool,
)
    requires
        old(c).started,
        call_ensures(DefaultMQPullConsumer::client_started::<C>, (c, number, instance), ()),
        call_ensures(DefaultMQPullConsumer::require_client, (&*final(c),), during),
        *old(d) == *final(c),
        call_ensures(DefaultMQPullConsumer::shutdown, (d,), gone),
        call_ensures(DefaultMQPullConsumer::require_client, (&*final(d),), after),
        call_ensures(DefaultMQPullConsumer::is_started, (&*final(d),), again),
    ensures
        during == Ok::<u64, Error>(number),
        gone == Some(number),
        after is Err && !again,
        final(d).cfg == final(c).cfg && final(d).register_topics == old(c).register_topics,
        old(c).cfg.name_server_addrs@.len() == 0 ==> final(c).cfg.name_server_addrs@ == instance.name_server_addrs@,
        old(c).cfg.name_server_addrs@.len() > 0 ==> final(c).cfg.name_server_addrs@ == old(c).cfg.name_server_addrs@,
{
}

/// A message is given back to its own broker, where something is known of that; the consumer must
/// be started.
pub proof fn law_message_goes_back_to_its_broker<C>(
    c: &DefaultMQPullConsumer,
    instance: &MQClientInstance<C>,
    msg: &MessageExt,
    r: Result<String, Error>,
    broker: &str,
    known: Option<String>,
    client: Result<u64, Error>,
)
    requires
        call_ensures(DefaultMQPullConsumer::send_back_addr::<C>, (c, instance, msg), r),
        msg.broker_name matches Some(b) && broker@ == b@,
        call_ensures(MQClientInstance::<C>::broker_addr_of, (instance, broker), known),
        call_ensures(DefaultMQPullConsumer::require_client, (c,), client),
    ensures
        r is Ok <==> client is Ok && known is Some,
        r is Err ==> r->Err_0 is Client,
{
}

/// A topic that was registered is listed, inside the namespace, beside those before it.
pub proof fn law_registered_topic_is_listed(
    c: &mut DefaultMQPullConsumer,
    topic: &str,
    ns: &str,
    named: String,
    list: Vec<String>,
    before: Vec<String>,
    t: Seq<char>,
)
    requires
        call_ensures(DefaultMQPullConsumer::register_topic, (c, topic), ()),
        ns@ == old(c).cfg.namespace@,
        call_ensures(with_namespace, (ns, topic), named),
        call_ensures(DefaultMQPullConsumer::register_topics, (&*final(c),), list),
        call_ensures(DefaultMQPullConsumer::register_topics, (&*old(c),), before),
    ensures
        texts(list@).contains(t) <==> texts(before@).contains(t) || t == named@,
{
}

} // verus!

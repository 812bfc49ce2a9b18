//! The producer: its configuration, its life, and what it makes of a message before it is sent.
use std::collections::BTreeSet;

use vstd::prelude::*;

use crate::client::{unused, struck, InstanceRegistry, MQClientInstance};
use crate::client_error_code;
use crate::config::{MQClientInstanceConfig, ProducerConfig};
use crate::error::{error_code, error_text, is_client, Error};
use crate::hooks::{has_hook_named, kernel_plan, kernel_steps, CheckForbiddenContext, CommunicationMode, KernelStep};
use crate::message::{
    body_bytes, copy_opt, copy_texts, opt, opt_ref, prop, props, same_message, Message, MessageExt, MessageQueue,
    PROPERTY_CORRELATION_ID, PROPERTY_MESSAGE_REPLY_TO_CLIENT, PROPERTY_MESSAGE_TTL,
};
use crate::names::{
    blank, check_group, check_message, check_topic, group_fault, in_namespace, is_blank, is_dlq_topic,
    is_retry_topic, is_system_topic, message_fault, system_topic, topic_fault, with_namespace,
    DEFAULT_INSTANCE_NAME, DEFAULT_PRODUCER_GROUP, DLQ_PREFIX, RETRY_PREFIX,
};
use crate::permits::{
    back_pressure_msg_len, batch_back_pressure_msg_len, batch_cost, byte_cost, PermitGate, MIN_ASYNC_SEND_NUM,
    MIN_ASYNC_SEND_SIZE,
};
use crate::publish::{outer, parts, PublishMessage};
use crate::send::{is_retry_response_code, kind_of, retryable};
use crate::subscription::HeartbeatData;
use crate::sysflag::{get_compression_type, is_compressed, set_compression_type, COMPRESSED_FLAG};
use crate::text::{begins_with, decimal, int_text, join, joined, non_blank, pieces, same, split_addrs, texts};

verus! {

/// A text that may be absent, as a text of one's own.
pub fn owned(value: Option<&str>) -> (r: Option<String>)
    ensures
        opt(r) == opt_ref(value),
{
    match value {
        Some(v) => Some(v.to_owned()),
        None => None,
    }
}

/// Sends messages. `L` is the listener of its transactions.
pub struct DefaultMQProducer<L> {
    pub cfg: ProducerConfig,
    pub started: bool,
    /// The number of the client instance, while there is one.
    pub client: Option<u64>,
    /// The names of the hooks around a send.
    pub send_hooks: Vec<String>,
    /// The names of the hooks that can forbid a send.
    pub check_forbidden_hooks: Vec<String>,
    /// The names of the hooks at the end of a transaction.
    pub end_txn_hooks: Vec<String>,
    pub transaction_listener: Option<L>,
    pub semaphore_async_send_num: PermitGate,
    pub semaphore_async_send_size: PermitGate,
}

/// A producer that has done nothing yet.
pub open spec fn fresh_producer<L>(p: DefaultMQProducer<L>, cfg: ProducerConfig) -> bool {
    &&& p.cfg == cfg
    &&& !p.started
    &&& p.client is None
    &&& p.send_hooks@.len() == 0
    &&& p.check_forbidden_hooks@.len() == 0
    &&& p.end_txn_hooks@.len() == 0
    &&& p.transaction_listener is None
    &&& p.wf()
    &&& p.semaphore_async_send_num.total == at_least(cfg.back_pressure_for_async_send_num, MIN_ASYNC_SEND_NUM)
    &&& p.semaphore_async_send_num.free == p.semaphore_async_send_num.total
    &&& p.semaphore_async_send_size.total == at_least(cfg.back_pressure_for_async_send_size, MIN_ASYNC_SEND_SIZE)
    &&& p.semaphore_async_send_size.free == p.semaphore_async_send_size.total
}

pub open spec fn at_least(n: i64, floor: i64) -> i64 {
    if n < floor {
        floor
    } else {
        n
    }
}

fn raised(n: i64, floor: i64) -> (r: i64)
    ensures
        r == at_least(n, floor),
{
    if n < floor {
        floor
    } else {
        n
    }
}

/// What a start needs from outside: where name servers come from, and who this process is.
#[derive(Debug)]
pub struct StartFacts {
    /// An address server is configured.
    pub top_addressing: bool,
    /// A name for the instance that no other has.
    pub fresh_instance: String,
    /// The address of this host.
    pub ip: String,
    /// Whether traces are handed on where the configuration does not say.
    pub trace_by_default: bool,
}

/// What a start asks for: the instance of a client id, with these name servers.
#[derive(Debug)]
pub struct StartPlan {
    pub client_id: String,
    pub name_server_addrs: Vec<String>,
    pub instance_cfg: MQClientInstanceConfig,
}

/// Why a producer cannot start, with the code of the failure; `None` where it can. The group
/// comes first.
pub open spec fn start_fault(group: Seq<char>, addresses: bool) -> Option<(Option<i32>, Seq<char>)> {
    match group_fault(group) {
        Some(text) => Some((None, text)),
        None => if group == DEFAULT_PRODUCER_GROUP@ {
            Some((None, "producerGroup can not equal DEFAULT_PRODUCER, please specify another one."@))
        } else if !addresses {
            Some((Some(client_error_code::NO_NAME_SERVER_EXCEPTION), "name server address is not set"@))
        } else {
            None
        },
    }
}

/// The name of an instance: the default name gives way to one that no other has.
pub open spec fn instance_of(name: Seq<char>, fresh: Seq<char>) -> Seq<char> {
    if name == DEFAULT_INSTANCE_NAME@ {
        fresh
    } else {
        name
    }
}

/// The client id of an instance.
pub open spec fn client_id_of(ip: Seq<char>, instance: Seq<char>, unit_name: Option<Seq<char>>, stream: bool) -> Seq<char> {
    ip + "@"@ + instance + (match unit_name {
        Some(u) => if blank(u) {
            Seq::<char>::empty()
        } else {
            "@"@ + u
        },
        None => Seq::<char>::empty(),
    }) + (if stream {
        "@STREAM"@
    } else {
        Seq::<char>::empty()
    })
}

pub fn build_client_id(ip: &str, instance: &str, unit_name: &Option<String>, stream: bool) -> (r: String)
    ensures
        r@ == client_id_of(ip@, instance@, opt(*unit_name), stream),
{
    let unit: String = match unit_name {
        Some(u) => if is_blank(u.as_str()) {
            String::new()
        } else {
            "@".to_owned().concat(u.as_str())
        },
        None => String::new(),
    };
    let tail: String = if stream {
        "@STREAM".to_owned()
    } else {
        String::new()
    };
    ip.to_owned().concat("@").concat(instance).concat(unit.as_str()).concat(tail.as_str())
}

/// What is left to do when a producer stops: the instance that it used, and as whom it is
/// known to the brokers.
#[derive(Debug)]
pub struct StopPlan {
    pub client: Option<u64>,
    pub group: String,
    pub client_id: Option<String>,
}

/// A send that waits for its turn: what is left of its time, and the bytes that it counts for.
#[derive(Debug, Clone, Copy, PartialEq, Eq, Structural)]
pub struct AsyncJob {
    pub timeout: i64,
    pub msg_len: i64,
}

/// `compress` may give `out` for `bytes`.
pub open spec fn deflated<F: Fn(&Vec<u8>, i32, i32) -> Result<Vec<u8>, Error>>(
    compress: F,
    bytes: Seq<u8>,
    kind: i32,
    level: i32,
    out: Result<Vec<u8>, Error>,
) -> bool {
    exists|b: Vec<u8>| b@ == bytes && #[trigger] call_ensures(compress, (&b, kind, level), out)
}

/// Whether a body is compressed at all: not an empty one, nor one below the threshold, nor by
/// a kind of compression that a flag word cannot hold.
pub open spec fn is_large(bytes: Seq<u8>, cfg: ProducerConfig) -> bool {
    &&& bytes.len() > 0
    &&& (bytes.len() as i32) >= cfg.compress_msg_body_over_howmuch
    &&& 0 <= cfg.compress_type <= 7
}

/// `after` is `before` with its body compressed, as far as that works; `flag` says so.
pub open spec fn squeezed<F: Fn(&Vec<u8>, i32, i32) -> Result<Vec<u8>, Error>>(
    before: Message,
    after: Message,
    flag: i32,
    cfg: ProducerConfig,
    compress: F,
) -> bool {
    if !is_large(body_bytes(before.body), cfg) {
        flag == 0 && after == before
    } else {
        exists|out: Result<Vec<u8>, Error>| #[trigger]
            deflated(compress, body_bytes(before.body), cfg.compress_type, cfg.compress_level, out)
                && match out {
                Ok(c) => if c@.len() > 0 {
                    &&& after == (Message { body: Some(c), ..before })
                    &&& flag == COMPRESSED_FLAG | (cfg.compress_type << 8u32)
                } else {
                    flag == 0 && after == before
                },
                Err(_) => flag == 0 && after == before,
            }
    }
}

/// `e` says that the producer is not started.
pub open spec fn not_started(e: Error) -> bool {
    is_client(e, None, "producer not started, call start() first"@)
}

/// What a call of start does to a producer. One that is started stays as it is, and so does one
/// that cannot start. Otherwise its group goes into its namespace, its instance gets a name and
/// a client id, and `r` says which instance it needs.
pub open spec fn producer_begun<L>(
    before: DefaultMQProducer<L>,
    after: DefaultMQProducer<L>,
    facts: StartFacts,
    r: Result<Option<StartPlan>, Error>,
) -> bool {
    let c = before.cfg;
    let group = in_namespace(c.namespace@, c.producer_group@);
    let instance = instance_of(c.instance_name@, facts.fresh_instance@);
    let fault = start_fault(group, c.name_server_addrs@.len() > 0 || facts.top_addressing);
    match r {
        Ok(None) => before.started && after == before,
        Err(e) => !before.started && is_fault(e, fault) && after == before,
        Ok(Some(plan)) => {
            let n = after.cfg;
            &&& !before.started && fault is None
            &&& n.producer_group@ == group
            &&& n.instance_name@ == instance
            &&& opt(n.client_id) == Some(plan.client_id@)
            &&& plan.client_id@ == match c.client_id {
                Some(id) => id@,
                None => client_id_of(facts.ip@, instance, opt(c.unit_name), c.enable_stream_request_type),
            }
            &&& n.enable_trace_context == Some(c.enable_trace_context.unwrap_or(facts.trace_by_default))
            &&& after == (DefaultMQProducer {
                cfg: ProducerConfig {
                    producer_group: n.producer_group,
                    instance_name: n.instance_name,
                    client_id: n.client_id,
                    enable_trace_context: n.enable_trace_context,
                    ..c
                },
                started: true,
                ..before
            })
            &&& plan.name_server_addrs@ == c.name_server_addrs@
            &&& exists|d: MQClientInstanceConfig| #[trigger]
                call_ensures(MQClientInstanceConfig::default, (), d) && plan.instance_cfg == (MQClientInstanceConfig {
                    tls_enable: c.tls_enable,
                    unit_name: c.unit_name,
                    enable_stream_request_type: c.enable_stream_request_type,
                    route_refresh_interval_millis: c.poll_name_server_interval_millis,
                    ..d
                })
        },
    }
}

/// A producer has its instance, and is registered with it. Name servers that the instance found
/// are taken over where none were configured.
pub open spec fn producer_joined<L, C>(
    before: DefaultMQProducer<L>,
    after: DefaultMQProducer<L>,
    number: u64,
    instance: MQClientInstance<C>,
    instance_after: MQClientInstance<C>,
) -> bool {
    &&& instance_after.producer_table@ == instance.producer_table@.insert(before.cfg.producer_group@, ())
    &&& instance_after == (MQClientInstance { producer_table: instance_after.producer_table, ..instance })
    &&& after.cfg.name_server_addrs@ == if before.cfg.name_server_addrs@.len() == 0 {
        instance.name_server_addrs@
    } else {
        before.cfg.name_server_addrs@
    }
    &&& after == (DefaultMQProducer {
        client: Some(number),
        cfg: ProducerConfig { name_server_addrs: after.cfg.name_server_addrs, ..before.cfg },
        ..before
    })
}

/// A started producer is not started again: the call succeeds, asks for no instance, and leaves
/// the producer, its hooks and its gates as they are. A start that fails leaves the producer
/// not started. A bad group is the failure, whether or not there are name servers.
pub proof fn law_start_is_refused_or_idle<L>(
    before: DefaultMQProducer<L>,
    after: DefaultMQProducer<L>,
    facts: StartFacts,
    r: Result<Option<StartPlan>, Error>,
)
    requires
        producer_begun(before, after, facts, r),
    ensures
        before.started ==> (r matches Ok(None)) && after == before,
        r is Err ==> !after.started && after == before,
        ({
            let group = in_namespace(before.cfg.namespace@, before.cfg.producer_group@);
            let fault = start_fault(group, true);
            !before.started && fault is Some ==> (r matches Err(e) && is_fault(e, fault))
        }),
{
}

/// A start that went through: the producer is started, has its client id and its instance, its
/// group is inside its namespace, and the instance knows that group. Another start then changes
/// nothing. Where the instance could not start, the producer is not started.
pub proof fn law_start_is_whole_or_undone<L, C>(
    before: DefaultMQProducer<L>,
    begun: DefaultMQProducer<L>,
    joined: DefaultMQProducer<L>,
    failed: DefaultMQProducer<L>,
    again: DefaultMQProducer<L>,
    facts: StartFacts,
    facts_again: StartFacts,
    plan: StartPlan,
    r: Result<Option<StartPlan>, Error>,
    number: u64,
    instance: MQClientInstance<C>,
    instance_after: MQClientInstance<C>,
)
    requires
        producer_begun(before, begun, facts, Ok(Some(plan))),
        failed == (DefaultMQProducer { started: false, ..begun }),
        producer_joined(begun, joined, number, instance, instance_after),
        producer_begun(joined, again, facts_again, r),
    ensures
        !failed.started,
        joined.ready(),
        joined.client == Some(number),
        opt(joined.cfg.client_id) == Some(plan.client_id@),
        joined.cfg.producer_group@ == in_namespace(before.cfg.namespace@, before.cfg.producer_group@),
        instance_after.producer_table@.dom().contains(joined.cfg.producer_group@),
        r matches Ok(None),
        again == joined,
{
}

/// A producer that was started once keeps its client id: another start asks for the instance of
/// the same one.
pub proof fn law_restart_keeps_the_client_id<L>(
    before: DefaultMQProducer<L>,
    begun: DefaultMQProducer<L>,
    stopped: DefaultMQProducer<L>,
    again: DefaultMQProducer<L>,
    facts: StartFacts,
    facts_again: StartFacts,
    plan: StartPlan,
    plan_again: StartPlan,
)
    requires
        producer_begun(before, begun, facts, Ok(Some(plan))),
        stopped.cfg.client_id == begun.cfg.client_id,
        producer_begun(stopped, again, facts_again, Ok(Some(plan_again))),
    ensures
        plan_again.client_id@ == plan.client_id@,
{
}

/// `e` is the failure that a check gave.
pub open spec fn is_fault(e: Error, fault: Option<(Option<i32>, Seq<char>)>) -> bool {
    fault matches Some((code, text)) && is_client(e, code, text)
}

impl<L> DefaultMQProducer<L> {
    /// No gate has fewer permits out than none.
    pub open spec fn wf(&self) -> bool {
        self.semaphore_async_send_num.wf() && self.semaphore_async_send_size.wf()
    }

    /// It is started and has its instance.
    pub open spec fn ready(&self) -> bool {
        self.started && self.client is Some
    }

    /// A producer with that configuration; its group cannot be blank.
    pub fn with_config(cfg: ProducerConfig) -> (r: Result<DefaultMQProducer<L>, Error>)
        ensures
            match r {
                Ok(p) => !blank(cfg.producer_group@) && fresh_producer(p, cfg),
                Err(e) => blank(cfg.producer_group@) && is_client(e, None, "producerGroup is empty"@),
            },
    {
        if is_blank(cfg.producer_group.as_str()) {
            return Err(Error::client("producerGroup is empty"));
        }
        let num = PermitGate::new(cfg.back_pressure_for_async_send_num, MIN_ASYNC_SEND_NUM);
        let size = PermitGate::new(cfg.back_pressure_for_async_send_size, MIN_ASYNC_SEND_SIZE);
        Ok(
            DefaultMQProducer {
                cfg,
                started: false,
                client: None,
                send_hooks: Vec::new(),
                check_forbidden_hooks: Vec::new(),
                end_txn_hooks: Vec::new(),
                transaction_listener: None,
                semaphore_async_send_num: num,
                semaphore_async_send_size: size,
            },
        )
    }

    /// A producer of that group, with the default configuration.
    pub fn new(producer_group: &str) -> (r: Result<DefaultMQProducer<L>, Error>)
        ensures
            match r {
                Ok(p) => {
                    &&& !blank(producer_group@)
                    &&& p.cfg.producer_group@ == producer_group@
                    &&& exists|d: ProducerConfig| #[trigger]
                        call_ensures(ProducerConfig::default, (), d) && fresh_producer(
                            p,
                            ProducerConfig { producer_group: p.cfg.producer_group, ..d },
                        )
                },
                Err(e) => blank(producer_group@) && is_client(e, None, "producerGroup is empty"@),
            },
    {
        let mut cfg = ProducerConfig::default();
        let ghost d = cfg;
        cfg.producer_group = producer_group.to_owned();
        let ghost full = cfg;
        let r = DefaultMQProducer::with_config(cfg);
        proof {
            assert(call_ensures(ProducerConfig::default, (), d));
            assert(full == (ProducerConfig { producer_group: full.producer_group, ..d }));
        }
        r
    }

    pub fn config(&self) -> (r: &ProducerConfig)
        ensures
            *r == self.cfg,
    {
        &self.cfg
    }

    pub fn producer_group(&self) -> (r: String)
        ensures
            r == self.cfg.producer_group,
    {
        self.cfg.producer_group.clone()
    }

    pub fn is_started(&self) -> (r: bool)
        ensures
            r == self.started,
    {
        self.started
    }

    pub fn client_id(&self) -> (r: Option<String>)
        ensures
            r == self.cfg.client_id,
    {
        copy_opt(&self.cfg.client_id)
    }

    /// The number of the client instance, while there is one.
    pub fn client(&self) -> (r: Option<u64>)
        ensures
            r == self.client,
    {
        self.client
    }

    /// Takes over name servers from a list with semicolons.
    pub fn set_namesrv_addr(&mut self, addr: &str)
        ensures
            texts(final(self).cfg.name_server_addrs@) == non_blank(pieces(addr@, ";"@)),
            *final(self) == (DefaultMQProducer {
                cfg: ProducerConfig { name_server_addrs: final(self).cfg.name_server_addrs, ..old(self).cfg },
                ..*old(self)
            }),
    {
        self.cfg.name_server_addrs = split_addrs(addr);
    }

    /// The name servers as a list with semicolons.
    pub fn namesrv_addr(&self) -> (r: String)
        ensures
            r@ == joined(texts(self.cfg.name_server_addrs@), ";"@),
    {
        join(&self.cfg.name_server_addrs, ";")
    }

    pub fn set_name_server_addresses(&mut self, value: Vec<String>)
        ensures
            *final(self) == (DefaultMQProducer {
                cfg: ProducerConfig { name_server_addrs: value, ..old(self).cfg },
                ..*old(self)
            }),
    {
        self.cfg.name_server_addrs = value;
    }

    pub fn set_instance_name(&mut self, value: &str)
        ensures
            final(self).cfg.instance_name@ == value@,
            *final(self) == (DefaultMQProducer {
                cfg: ProducerConfig { instance_name: final(self).cfg.instance_name, ..old(self).cfg },
                ..*old(self)
            }),
    {
        self.cfg.instance_name = value.to_owned();
    }

    pub fn set_unit_name(&mut self, value: Option<&str>)
        ensures
            opt(final(self).cfg.unit_name) == opt_ref(value),
            *final(self) == (DefaultMQProducer {
                cfg: ProducerConfig { unit_name: final(self).cfg.unit_name, ..old(self).cfg },
                ..*old(self)
            }),
    {
        self.cfg.unit_name = owned(value);
    }

    pub fn set_unit_mode(&mut self, value: bool)
        ensures
            *final(self) == (DefaultMQProducer {
                cfg: ProducerConfig { unit_mode: value, ..old(self).cfg },
                ..*old(self)
            }),
    {
        self.cfg.unit_mode = value;
    }

    pub fn set_enable_stream_request_type(&mut self, value: bool)
        ensures
            *final(self) == (DefaultMQProducer {
                cfg: ProducerConfig { enable_stream_request_type: value, ..old(self).cfg },
                ..*old(self)
            }),
    {
        self.cfg.enable_stream_request_type = value;
    }

    pub fn set_poll_name_server_interval_millis(&mut self, value: u64)
        ensures
            *final(self) == (DefaultMQProducer {
                cfg: ProducerConfig { poll_name_server_interval_millis: value, ..old(self).cfg },
                ..*old(self)
            }),
    {
        self.cfg.poll_name_server_interval_millis = value;
    }

    pub fn set_namespace(&mut self, value: &str)
        ensures
            final(self).cfg.namespace@ == value@,
            *final(self) == (DefaultMQProducer {
                cfg: ProducerConfig { namespace: final(self).cfg.namespace, ..old(self).cfg },
                ..*old(self)
            }),
    {
        self.cfg.namespace = value.to_owned();
    }

    pub fn set_topics(&mut self, value: Vec<String>)
        ensures
            *final(self) == (DefaultMQProducer {
                cfg: ProducerConfig { topics: value, ..old(self).cfg },
                ..*old(self)
            }),
    {
        self.cfg.topics = value;
    }

    pub fn set_tls_enable(&mut self, value: Option<bool>)
        ensures
            *final(self) == (DefaultMQProducer {
                cfg: ProducerConfig { tls_enable: value, ..old(self).cfg },
                ..*old(self)
            }),
    {
        self.cfg.tls_enable = value;
    }

    pub fn set_enable_trace_context(&mut self, value: Option<bool>)
        ensures
            *final(self) == (DefaultMQProducer {
                cfg: ProducerConfig { enable_trace_context: value, ..old(self).cfg },
                ..*old(self)
            }),
    {
        self.cfg.enable_trace_context = value;
    }

    /// A client id that is set is not made up at the start.
    pub fn set_client_id(&mut self, value: Option<&str>)
        ensures
            opt(final(self).cfg.client_id) == opt_ref(value),
            *final(self) == (DefaultMQProducer {
                cfg: ProducerConfig { client_id: final(self).cfg.client_id, ..old(self).cfg },
                ..*old(self)
            }),
    {
        self.cfg.client_id = owned(value);
    }

    pub fn set_max_message_size(&mut self, value: i32)
        ensures
            *final(self) == (DefaultMQProducer {
                cfg: ProducerConfig { max_message_size: value, ..old(self).cfg },
                ..*old(self)
            }),
    {
        self.cfg.max_message_size = value;
    }

    pub fn set_send_msg_timeout(&mut self, value: i64)
        ensures
            *final(self) == (DefaultMQProducer {
                cfg: ProducerConfig { send_msg_timeout: value, ..old(self).cfg },
                ..*old(self)
            }),
    {
        self.cfg.send_msg_timeout = value;
    }

    pub fn set_retry_times_when_send_failed(&mut self, value: i32)
        ensures
            *final(self) == (DefaultMQProducer {
                cfg: ProducerConfig { retry_times_when_send_failed: value, ..old(self).cfg },
                ..*old(self)
            }),
    {
        self.cfg.retry_times_when_send_failed = value;
    }

    pub fn set_retry_times_when_send_async_failed(&mut self, value: i32)
        ensures
            *final(self) == (DefaultMQProducer {
                cfg: ProducerConfig { retry_times_when_send_async_failed: value, ..old(self).cfg },
                ..*old(self)
            }),
    {
        self.cfg.retry_times_when_send_async_failed = value;
    }

    pub fn get_retry_times_when_send_async_failed(&self) -> (r: i32)
        ensures
            r == self.cfg.retry_times_when_send_async_failed,
    {
        self.cfg.retry_times_when_send_async_failed
    }

    pub fn set_async_sender_queue_capacity(&mut self, value: i32)
        ensures
            *final(self) == (DefaultMQProducer {
                cfg: ProducerConfig { async_sender_queue_capacity: value, ..old(self).cfg },
                ..*old(self)
            }),
    {
        self.cfg.async_sender_queue_capacity = value;
    }

    pub fn get_async_sender_queue_capacity(&self) -> (r: i32)
        ensures
            r == self.cfg.async_sender_queue_capacity,
    {
        self.cfg.async_sender_queue_capacity
    }

    /// Whether a message that was not stored well is sent to another broker.
    pub fn set_retry_another_broker_when_not_store_ok(&mut self, value: bool)
        ensures
            *final(self) == (DefaultMQProducer {
                cfg: ProducerConfig { retry_another_broker_when_not_store_ok: value, ..old(self).cfg },
                ..*old(self)
            }),
    {
        self.cfg.retry_another_broker_when_not_store_ok = value;
    }

    pub fn is_retry_another_broker_when_not_store_ok(&self) -> (r: bool)
        ensures
            r == self.cfg.retry_another_broker_when_not_store_ok,
    {
        self.cfg.retry_another_broker_when_not_store_ok
    }

    /// The most that one of several attempts may take; -1 for no limit.
    pub fn set_send_msg_max_timeout_per_request(&mut self, value: i64)
        ensures
            *final(self) == (DefaultMQProducer {
                cfg: ProducerConfig { send_msg_max_timeout_per_request: value, ..old(self).cfg },
                ..*old(self)
            }),
    {
        self.cfg.send_msg_max_timeout_per_request = value;
    }

    pub fn get_send_msg_max_timeout_per_request(&self) -> (r: i64)
        ensures
            r == self.cfg.send_msg_max_timeout_per_request,
    {
        self.cfg.send_msg_max_timeout_per_request
    }

    pub fn set_compress_msg_body_over_howmuch(&mut self, value: i32)
        ensures
            *final(self) == (DefaultMQProducer {
                cfg: ProducerConfig { compress_msg_body_over_howmuch: value, ..old(self).cfg },
                ..*old(self)
            }),
    {
        self.cfg.compress_msg_body_over_howmuch = value;
    }

    pub fn set_compress_level(&mut self, value: i32)
        ensures
            *final(self) == (DefaultMQProducer {
                cfg: ProducerConfig { compress_level: value, ..old(self).cfg },
                ..*old(self)
            }),
    {
        self.cfg.compress_level = value;
    }

    pub fn set_compress_type(&mut self, value: i32)
        ensures
            *final(self) == (DefaultMQProducer {
                cfg: ProducerConfig { compress_type: value, ..old(self).cfg },
                ..*old(self)
            }),
    {
        self.cfg.compress_type = value;
    }

    pub fn set_create_topic_key(&mut self, value: &str)
        ensures
            final(self).cfg.create_topic_key@ == value@,
            *final(self) == (DefaultMQProducer {
                cfg: ProducerConfig { create_topic_key: final(self).cfg.create_topic_key, ..old(self).cfg },
                ..*old(self)
            }),
    {
        self.cfg.create_topic_key = value.to_owned();
    }

    pub fn set_default_topic_queue_nums(&mut self, value: i32)
        ensures
            *final(self) == (DefaultMQProducer {
                cfg: ProducerConfig { default_topic_queue_nums: value, ..old(self).cfg },
                ..*old(self)
            }),
    {
        self.cfg.default_topic_queue_nums = value;
    }

    pub fn set_heartbeat_interval_millis(&mut self, value: u64)
        ensures
            *final(self) == (DefaultMQProducer {
                cfg: ProducerConfig { heartbeat_interval_millis: value, ..old(self).cfg },
                ..*old(self)
            }),
    {
        self.cfg.heartbeat_interval_millis = value;
    }

    pub fn set_send_latency_fault_enable(&mut self, value: bool)
        ensures
            *final(self) == (DefaultMQProducer {
                cfg: ProducerConfig { send_latency_fault_enable: value, ..old(self).cfg },
                ..*old(self)
            }),
    {
        self.cfg.send_latency_fault_enable = value;
    }

    pub fn set_request_timeout(&mut self, value: i64)
        ensures
            *final(self) == (DefaultMQProducer {
                cfg: ProducerConfig { request_timeout: value, ..old(self).cfg },
                ..*old(self)
            }),
    {
        self.cfg.request_timeout = value;
    }

    pub fn set_enable_backpressure_for_async_mode(&mut self, value: bool)
        ensures
            *final(self) == (DefaultMQProducer {
                cfg: ProducerConfig { enable_backpressure_for_async_mode: value, ..old(self).cfg },
                ..*old(self)
            }),
    {
        self.cfg.enable_backpressure_for_async_mode = value;
    }

    pub fn is_enable_backpressure_for_async_mode(&self) -> (r: bool)
        ensures
            r == self.cfg.enable_backpressure_for_async_mode,
    {
        self.cfg.enable_backpressure_for_async_mode
    }

    /// How many messages may be on their way, in all.
    pub fn get_back_pressure_for_async_send_num(&self) -> (r: i64)
        ensures
            r == self.cfg.back_pressure_for_async_send_num,
    {
        self.cfg.back_pressure_for_async_send_num
    }

    /// How many bytes may be on their way, in all.
    pub fn get_back_pressure_for_async_send_size(&self) -> (r: i64)
        ensures
            r == self.cfg.back_pressure_for_async_send_size,
    {
        self.cfg.back_pressure_for_async_send_size
    }

    pub fn set_enable_trace(&mut self, value: bool)
        ensures
            *final(self) == (DefaultMQProducer {
                cfg: ProducerConfig { enable_trace: value, ..old(self).cfg },
                ..*old(self)
            }),
    {
        self.cfg.enable_trace = value;
    }

    pub fn is_enable_trace(&self) -> (r: bool)
        ensures
            r == self.cfg.enable_trace,
    {
        self.cfg.enable_trace
    }

    pub fn set_trace_topic(&mut self, value: Option<&str>)
        ensures
            opt(final(self).cfg.trace_topic) == opt_ref(value),
            *final(self) == (DefaultMQProducer {
                cfg: ProducerConfig { trace_topic: final(self).cfg.trace_topic, ..old(self).cfg },
                ..*old(self)
            }),
    {
        self.cfg.trace_topic = owned(value);
    }

    pub fn set_trace_msg_batch_num(&mut self, value: i32)
        ensures
            *final(self) == (DefaultMQProducer {
                cfg: ProducerConfig { trace_msg_batch_num: value, ..old(self).cfg },
                ..*old(self)
            }),
    {
        self.cfg.trace_msg_batch_num = value;
    }

    /// Adds a code of an answer after which another broker is tried.
    pub fn add_retry_response_code(&mut self, response_code: i32)
        ensures
            final(self).cfg.retry_response_codes@ == old(self).cfg.retry_response_codes@.insert(response_code),
            *final(self) == (DefaultMQProducer {
                cfg: ProducerConfig { retry_response_codes: final(self).cfg.retry_response_codes, ..old(self).cfg },
                ..*old(self)
            }),
    {
        let _ = self.cfg.retry_response_codes.insert(response_code);
    }

    pub fn get_retry_response_codes(&self) -> (r: &BTreeSet<i32>)
        ensures
            *r == self.cfg.retry_response_codes,
    {
        &self.cfg.retry_response_codes
    }

    /// Whether another broker is tried after an answer with that code; never without a code.
    pub fn is_retry_response_code(&self, response_code: Option<i32>) -> (r: bool)
        ensures
            r == (response_code matches Some(c) && self.cfg.retry_response_codes@.contains(c)),
    {
        is_retry_response_code(&self.cfg.retry_response_codes, response_code)
    }

    /// The group can be changed until the producer starts.
    pub fn set_producer_group(&mut self, group: &str) -> (r: Result<(), Error>)
        ensures
            match r {
                Ok(_) => !old(self).started && final(self).cfg.producer_group@ == group@ && *final(self) == (
                DefaultMQProducer {
                    cfg: ProducerConfig {
                        producer_group: final(self).cfg.producer_group,
                        ..old(self).cfg
                    },
                    ..*old(self)
                }),
                Err(e) => old(self).started && *final(self) == *old(self) && is_client(
                    e,
                    None,
                    "producerGroup cannot be changed after startup"@,
                ),
            },
    {
        if self.started {
            return Err(Error::client("producerGroup cannot be changed after startup"));
        }
        self.cfg.producer_group = group.to_owned();
        Ok(())
    }

    /// Changes how many messages may be on their way; those that are stay.
    pub fn set_back_pressure_for_async_send_num(&mut self, num: i64)
        requires
            old(self).wf(),
        ensures
            final(self).wf(),
            final(self).cfg.back_pressure_for_async_send_num == at_least(num, MIN_ASYNC_SEND_NUM),
            final(self).semaphore_async_send_num.total == at_least(num, MIN_ASYNC_SEND_NUM),
            final(self).semaphore_async_send_num.out() == old(self).semaphore_async_send_num.out(),
            *final(self) == (DefaultMQProducer {
                cfg: ProducerConfig {
                    back_pressure_for_async_send_num: final(self).cfg.back_pressure_for_async_send_num,
                    ..old(self).cfg
                },
                semaphore_async_send_num: final(self).semaphore_async_send_num,
                ..*old(self)
            }),
    {
        let n: i64 = raised(num, MIN_ASYNC_SEND_NUM);
        self.cfg.back_pressure_for_async_send_num = n;
        self.semaphore_async_send_num.set_total_permits(n);
    }

    /// Changes how many bytes may be on their way; those that are stay.
    pub fn set_back_pressure_for_async_send_size(&mut self, size: i64)
        requires
            old(self).wf(),
        ensures
            final(self).wf(),
            final(self).cfg.back_pressure_for_async_send_size == at_least(size, MIN_ASYNC_SEND_SIZE),
            final(self).semaphore_async_send_size.total == at_least(size, MIN_ASYNC_SEND_SIZE),
            final(self).semaphore_async_send_size.out() == old(self).semaphore_async_send_size.out(),
            *final(self) == (DefaultMQProducer {
                cfg: ProducerConfig {
                    back_pressure_for_async_send_size: final(self).cfg.back_pressure_for_async_send_size,
                    ..old(self).cfg
                },
                semaphore_async_send_size: final(self).semaphore_async_send_size,
                ..*old(self)
            }),
    {
        let n: i64 = raised(size, MIN_ASYNC_SEND_SIZE);
        self.cfg.back_pressure_for_async_send_size = n;
        self.semaphore_async_send_size.set_total_permits(n);
    }

    pub fn semaphore_async_send_num_available_permits(&self) -> (r: i64)
        ensures
            r == self.semaphore_async_send_num.free,
    {
        self.semaphore_async_send_num.free
    }

    pub fn semaphore_async_send_size_available_permits(&self) -> (r: i64)
        ensures
            r == self.semaphore_async_send_size.free,
    {
        self.semaphore_async_send_size.free
    }

    pub fn register_send_message_hook(&mut self, name: &str)
        ensures
            texts(final(self).send_hooks@) == texts(old(self).send_hooks@).push(name@),
            *final(self) == (DefaultMQProducer { send_hooks: final(self).send_hooks, ..*old(self) }),
    {
        self.send_hooks.push(name.to_owned());
        assert(texts(self.send_hooks@) =~= texts(old(self).send_hooks@).push(name@));
    }

    pub fn has_send_message_hook(&self) -> (r: bool)
        ensures
            r == (self.send_hooks@.len() > 0),
    {
        self.send_hooks.len() > 0
    }

    pub fn register_check_forbidden_hook(&mut self, name: &str)
        ensures
            texts(final(self).check_forbidden_hooks@) == texts(old(self).check_forbidden_hooks@).push(name@),
            *final(self) == (DefaultMQProducer {
                check_forbidden_hooks: final(self).check_forbidden_hooks,
                ..*old(self)
            }),
    {
        self.check_forbidden_hooks.push(name.to_owned());
        assert(texts(self.check_forbidden_hooks@) =~= texts(old(self).check_forbidden_hooks@).push(name@));
    }

    pub fn has_check_forbidden_hook(&self) -> (r: bool)
        ensures
            r == (self.check_forbidden_hooks@.len() > 0),
    {
        self.check_forbidden_hooks.len() > 0
    }

    pub fn register_end_transaction_hook(&mut self, name: &str)
        ensures
            texts(final(self).end_txn_hooks@) == texts(old(self).end_txn_hooks@).push(name@),
            *final(self) == (DefaultMQProducer { end_txn_hooks: final(self).end_txn_hooks, ..*old(self) }),
    {
        self.end_txn_hooks.push(name.to_owned());
        assert(texts(self.end_txn_hooks@) =~= texts(old(self).end_txn_hooks@).push(name@));
    }

    /// Which of the two trace hooks are still to be registered, around sends and at the end of
    /// transactions: none without traces, and none twice.
    pub fn missing_trace_hooks(&self) -> (r: (bool, bool))
        ensures
            r.0 == (self.cfg.enable_trace && !texts(self.send_hooks@).contains("SendMessageTraceHook"@)),
            r.1 == (self.cfg.enable_trace && !texts(self.end_txn_hooks@).contains("EndTransactionTraceHook"@)),
    {
        (
            self.cfg.enable_trace && !has_hook_named(self.send_hooks.as_slice(), "SendMessageTraceHook"),
            self.cfg.enable_trace && !has_hook_named(self.end_txn_hooks.as_slice(), "EndTransactionTraceHook"),
        )
    }

    /// The steps around a request of this producer. A `direct` one, whose queue is given from
    /// outside, is sent as it is where no hook looks at it.
    pub fn send_steps(&self, direct: bool) -> (r: Vec<KernelStep>)
        ensures
            ({
                let forbidden = self.check_forbidden_hooks@.len() > 0;
                let hooked = self.send_hooks@.len() > 0;
                r@ == if direct && !forbidden && !hooked {
                    seq![KernelStep::Send]
                } else {
                    kernel_plan(forbidden, self.cfg.enable_trace_context == Some(true), hooked)
                }
            }),
    {
        let forbidden = self.has_check_forbidden_hook();
        let hooked = self.has_send_message_hook();
        if direct && !forbidden && !hooked {
            let mut out: Vec<KernelStep> = Vec::new();
            out.push(KernelStep::Send);
            return out;
        }
        let trace = self.cfg.enable_trace_context.unwrap_or(false);
        kernel_steps(forbidden, trace, hooked)
    }

    /// What the hooks that can forbid a send are told.
    pub fn forbidden_context(
        &self,
        msg: &Message,
        mq: &MessageQueue,
        broker_addr: &str,
        arg: Option<&str>,
        mode: CommunicationMode,
    ) -> (r: CheckForbiddenContext)
        ensures
            r.name_srv_addr@ == joined(texts(self.cfg.name_server_addrs@), ";"@),
            r.group == self.cfg.producer_group,
            r.message is Some && same_message(r.message->0, *msg),
            r.mq == Some(*mq),
            r.broker_addr@ == broker_addr@,
            r.communication_mode == Some(mode),
            opt(r.arg) == opt_ref(arg),
            r.unit_mode == self.cfg.unit_mode,
    {
        CheckForbiddenContext {
            name_srv_addr: self.namesrv_addr(),
            group: self.producer_group(),
            message: Some(msg.clone()),
            mq: Some(mq.clone()),
            broker_addr: broker_addr.to_owned(),
            communication_mode: Some(mode),
            arg: owned(arg),
            unit_mode: self.cfg.unit_mode,
        }
    }

    pub fn set_transaction_listener(&mut self, listener: Option<L>)
        ensures
            *final(self) == (DefaultMQProducer { transaction_listener: listener, ..*old(self) }),
    {
        self.transaction_listener = listener;
    }

    pub fn transaction_listener(&self) -> (r: Option<&L>)
        ensures
            match r {
                Some(l) => self.transaction_listener == Some(*l),
                None => self.transaction_listener is None,
            },
    {
        match &self.transaction_listener {
            Some(l) => Some(l),
            None => None,
        }
    }

    /// Starts the producer: its group goes into its namespace, its instance gets a name and a
    /// client id. A producer that is started stays as it is; one that cannot start does too.
    pub fn begin_start(&mut self, facts: &StartFacts) -> (r: Result<Option<StartPlan>, Error>)
        ensures
            producer_begun(*old(self), *final(self), *facts, r),
    {
        if self.started {
            return Ok(None);
        }
        let group = with_namespace(self.cfg.namespace.as_str(), self.cfg.producer_group.as_str());
        if let Err(e) = check_group(group.as_str()) {
            return Err(e);
        }
        if same(group.as_str(), DEFAULT_PRODUCER_GROUP) {
            return Err(
                Error::client("producerGroup can not equal DEFAULT_PRODUCER, please specify another one."),
            );
        }
        if self.cfg.name_server_addrs.len() == 0 && !facts.top_addressing {
            return Err(
                Error::client_with_code(
                    client_error_code::NO_NAME_SERVER_EXCEPTION,
                    "name server address is not set",
                ),
            );
        }
        let instance: String = if same(self.cfg.instance_name.as_str(), DEFAULT_INSTANCE_NAME) {
            facts.fresh_instance.clone()
        } else {
            self.cfg.instance_name.clone()
        };
        let client_id: String = match &self.cfg.client_id {
            Some(id) => id.clone(),
            None => build_client_id(
                facts.ip.as_str(),
                instance.as_str(),
                &self.cfg.unit_name,
                self.cfg.enable_stream_request_type,
            ),
        };
        let base = MQClientInstanceConfig::default();
        let ghost d = base;
        assert(call_ensures(MQClientInstanceConfig::default, (), d));
        let mut instance_cfg = base;
        instance_cfg.tls_enable = self.cfg.tls_enable;
        instance_cfg.unit_name = copy_opt(&self.cfg.unit_name);
        instance_cfg.enable_stream_request_type = self.cfg.enable_stream_request_type;
        instance_cfg.route_refresh_interval_millis = self.cfg.poll_name_server_interval_millis;
        let addrs = copy_texts(&self.cfg.name_server_addrs);
        self.cfg.client_id = Some(client_id.clone());
        self.cfg.instance_name = instance;
        self.cfg.producer_group = group;
        let trace = self.cfg.enable_trace_context.unwrap_or(facts.trace_by_default);
        self.cfg.enable_trace_context = Some(trace);
        self.started = true;
        Ok(Some(StartPlan { client_id, name_server_addrs: addrs, instance_cfg }))
    }

    /// The instance could not start: the producer is as good as never started.
    pub fn start_failed(&mut self)
        ensures
            *final(self) == (DefaultMQProducer { started: false, ..*old(self) }),
    {
        self.started = false;
    }

    /// The instance has started. Name servers that it found are taken over where none were
    /// configured.
    pub fn client_started<C>(&mut self, number: u64, instance: &mut MQClientInstance<C>)
        ensures
            producer_joined(*old(self), *final(self), number, *old(instance), *final(instance)),
    {
        self.client = Some(number);
        instance.register_producer(self.cfg.producer_group.as_str());
        if self.cfg.name_server_addrs.len() == 0 {
            let addrs = instance.name_server_addrs();
            if addrs.len() > 0 {
                self.cfg.name_server_addrs = addrs;
            }
        }
        proof {
            if old(self).cfg.name_server_addrs@.len() == 0 && old(instance).name_server_addrs@.len() == 0 {
                assert(old(self).cfg.name_server_addrs@ =~= old(instance).name_server_addrs@);
            }
        }
    }

    /// Stops the producer; one that is not started stays as it is.
    pub fn begin_shutdown(&mut self) -> (r: Option<StopPlan>)
        ensures
            match r {
                None => !old(self).started && *final(self) == *old(self),
                Some(plan) => {
                    &&& old(self).started
                    &&& *final(self) == (DefaultMQProducer { started: false, client: None, ..*old(self) })
                    &&& plan.client == old(self).client
                    &&& plan.group == old(self).cfg.producer_group
                    &&& plan.client_id == old(self).cfg.client_id
                },
            },
    {
        if !self.started {
            return None;
        }
        self.started = false;
        let client = self.client;
        self.client = None;
        Some(StopPlan { client, group: self.producer_group(), client_id: self.client_id() })
    }

    /// How long a producer waits between two heartbeats: a second at least.
    pub fn heartbeat_wait_millis(&self) -> (r: u64)
        ensures
            r == if self.cfg.heartbeat_interval_millis < 1000 {
                1000
            } else {
                self.cfg.heartbeat_interval_millis
            },
    {
        if self.cfg.heartbeat_interval_millis < 1000 {
            1000
        } else {
            self.cfg.heartbeat_interval_millis
        }
    }

    /// The heartbeat of this producer.
    pub fn heartbeat(&self, client_id: &str) -> (r: HeartbeatData)
        ensures
            r.client_id@ == client_id@,
            texts(r.producer_groups@) == seq![self.cfg.producer_group@],
            r.consumer_data_set@.len() == 0,
    {
        let mut hb = HeartbeatData::new(client_id);
        hb.producer_groups.push(self.producer_group());
        assert(texts(hb.producer_groups@) =~= seq![self.cfg.producer_group@]);
        hb
    }

    /// The instance to send through; there is one from the start to the end.
    pub fn require_client(&self) -> (r: Result<u64, Error>)
        ensures
            match r {
                Ok(n) => self.ready() && self.client == Some(n),
                Err(e) => !self.ready() && not_started(e),
            },
    {
        if !self.started {
            return Err(Error::client("producer not started, call start() first"));
        }
        match self.client {
            Some(n) => Ok(n),
            None => Err(Error::client("producer not started, call start() first")),
        }
    }

    /// A topic inside the namespace of this producer.
    pub fn with_namespace(&self, topic: &str) -> (r: String)
        ensures
            r@ == in_namespace(self.cfg.namespace@, topic@),
    {
        with_namespace(self.cfg.namespace.as_str(), topic)
    }

    pub fn check_message(&self, msg: &Message) -> (r: Result<(), Error>)
        ensures
            match r {
                Ok(_) => message_fault(*msg, self.cfg.max_message_size) is None,
                Err(e) => is_fault(e, message_fault(*msg, self.cfg.max_message_size)),
            },
    {
        check_message(msg, self.cfg.max_message_size)
    }

    /// Compresses a body that is large enough. Gives the flag of the message; 0 where it stays
    /// as it is, as it does where compression fails.
    pub fn try_to_compress_message<F: Fn(&Vec<u8>, i32, i32) -> Result<Vec<u8>, Error>>(
        &self,
        msg: &mut Message,
        compress: F,
    ) -> (r: i32)
        requires
            forall|b: Vec<u8>, k: i32, l: i32| #[trigger] call_requires(compress, (&b, k, l)),
        ensures
            squeezed(*old(msg), *final(msg), r, self.cfg, compress),
    {
        let ghost before = *msg;
        let kind: i32 = self.cfg.compress_type;
        let level: i32 = self.cfg.compress_level;
        let out = match &msg.body {
            Some(b) => {
                if b.len() == 0 || (b.len() as i32) < self.cfg.compress_msg_body_over_howmuch || kind < 0 || kind > 7 {
                    return 0;
                }
                compress(b, kind, level)
            },
            None => {
                return 0;
            },
        };
        assert(deflated(compress, body_bytes(before.body), kind, level, out));
        match out {
            Ok(c) => {
                if c.len() == 0 {
                    return 0;
                }
                msg.set_body(c);
                set_compression_type(COMPRESSED_FLAG, kind)
            },
            Err(_) => 0,
        }
    }

    /// The flag of what is sent: a batch is never compressed.
    pub fn sys_flag_for<F: Fn(&Vec<u8>, i32, i32) -> Result<Vec<u8>, Error>>(
        &self,
        msg: &mut PublishMessage<'_>,
        compress: F,
    ) -> (r: i32)
        requires
            forall|b: Vec<u8>, k: i32, l: i32| #[trigger] call_requires(compress, (&b, k, l)),
        ensures
            (*final(msg) is Batch) == (*old(msg) is Batch),
            parts(*final(msg)) == parts(*old(msg)),
            match (*old(msg), *final(msg)) {
                (PublishMessage::Single(a), PublishMessage::Single(b)) => *final(a) == *final(b),
                (PublishMessage::Batch(a), PublishMessage::Batch(b)) => *final(a) == *final(b),
                _ => false,
            },
            if *old(msg) is Batch {
                r == 0 && outer(*final(msg)) == outer(*old(msg))
            } else {
                squeezed(outer(*old(msg)), outer(*final(msg)), r, self.cfg, compress)
            },
    {
        if msg.is_batch() {
            return 0;
        }
        let m = msg.as_message_mut();
        self.try_to_compress_message(m, compress)
    }

    /// Makes a message ready to be sent: it goes into the namespace, is checked, and is
    /// compressed, once for all attempts. Gives the flag of the message.
    pub fn prepare_message<F: Fn(&Vec<u8>, i32, i32) -> Result<Vec<u8>, Error>>(
        &self,
        msg: &mut Message,
        compress: F,
    ) -> (r: Result<i32, Error>)
        requires
            forall|b: Vec<u8>, k: i32, l: i32| #[trigger] call_requires(compress, (&b, k, l)),
        ensures
            ({
                let named = Message { topic: final(msg).topic, ..*old(msg) };
                let fault = message_fault(named, self.cfg.max_message_size);
                &&& final(msg).topic@ == in_namespace(self.cfg.namespace@, old(msg).topic@) || !self.ready()
                &&& match r {
                    Ok(flag) => self.ready() && fault is None && squeezed(named, *final(msg), flag, self.cfg, compress),
                    Err(e) => if self.ready() {
                        is_fault(e, fault) && *final(msg) == named
                    } else {
                        not_started(e) && *final(msg) == *old(msg)
                    },
                }
            }),
    {
        if let Err(e) = self.require_client() {
            return Err(e);
        }
        let topic = self.with_namespace(msg.topic.as_str());
        msg.topic = topic;
        if let Err(e) = self.check_message(msg) {
            return Err(e);
        }
        Ok(self.try_to_compress_message(msg, compress))
    }

    /// A send that is to wait for its turn. Fails at once where the producer is not started,
    /// and then where there is no runtime to wait in.
    pub fn send_async(&self, msg: &Message, timeout_millis: Option<i64>, has_runtime: bool) -> (r: Result<AsyncJob, Error>)
        ensures
            match r {
                Ok(job) => self.ready() && has_runtime && job.msg_len == byte_cost(*msg) && job.timeout
                    == timeout_millis.unwrap_or(self.cfg.send_msg_timeout),
                Err(e) => if !self.ready() {
                    not_started(e)
                } else {
                    !has_runtime && is_client(e, None, "send_async needs a tokio runtime; call start() first"@)
                },
            },
    {
        if let Err(e) = self.require_client() {
            return Err(e);
        }
        if !has_runtime {
            return Err(Error::client("send_async needs a tokio runtime; call start() first"));
        }
        Ok(
            AsyncJob {
                timeout: timeout_millis.unwrap_or(self.cfg.send_msg_timeout),
                msg_len: back_pressure_msg_len(msg),
            },
        )
    }

    /// As [`DefaultMQProducer::send_async`], for several messages as one.
    pub fn send_batch_async(&self, msgs: &[Message], timeout_millis: Option<i64>, has_runtime: bool) -> (r: Result<
        AsyncJob,
        Error,
    >)
        ensures
            match r {
                Ok(job) => self.ready() && has_runtime && job.msg_len == batch_cost(msgs@) && job.timeout
                    == timeout_millis.unwrap_or(self.cfg.send_msg_timeout),
                Err(e) => if !self.ready() {
                    not_started(e)
                } else {
                    !has_runtime && is_client(
                        e,
                        None,
                        "send_batch_async needs a tokio runtime; call start() first"@,
                    )
                },
            },
    {
        if let Err(e) = self.require_client() {
            return Err(e);
        }
        if !has_runtime {
            return Err(Error::client("send_batch_async needs a tokio runtime; call start() first"));
        }
        Ok(
            AsyncJob {
                timeout: timeout_millis.unwrap_or(self.cfg.send_msg_timeout),
                msg_len: batch_back_pressure_msg_len(msgs),
            },
        )
    }

    /// Makes a message a question: it carries whom to answer, under which id, and for how long
    /// the answer is waited for. Gives that time.
    pub fn prepare_request(
        &self,
        msg: &mut Message,
        timeout_millis: Option<i64>,
        correlation_id: &str,
        client_id: &str,
    ) -> (r: Result<i64, Error>)
        ensures
            ({
                let named = Message { topic: final(msg).topic, ..*old(msg) };
                let fault = message_fault(named, self.cfg.max_message_size);
                let timeout = timeout_millis.unwrap_or(self.cfg.request_timeout);
                &&& final(msg).topic@ == in_namespace(self.cfg.namespace@, old(msg).topic@)
                &&& match r {
                    Ok(t) => {
                        &&& fault is None && self.ready()
                        &&& t == timeout
                        &&& props(final(msg).properties) == props(old(msg).properties).insert(
                            PROPERTY_CORRELATION_ID@,
                            correlation_id@,
                        ).insert(PROPERTY_MESSAGE_REPLY_TO_CLIENT@, client_id@).insert(
                            PROPERTY_MESSAGE_TTL@,
                            decimal(timeout as int),
                        )
                        &&& *final(msg) == (Message { properties: final(msg).properties, ..named })
                    },
                    Err(e) => *final(msg) == named && if fault is Some {
                        is_fault(e, fault)
                    } else {
                        !self.ready() && not_started(e)
                    },
                }
            }),
    {
        let timeout = timeout_millis.unwrap_or(self.cfg.request_timeout);
        let topic = self.with_namespace(msg.topic.as_str());
        msg.topic = topic;
        if let Err(e) = self.check_message(msg) {
            return Err(e);
        }
        if let Err(e) = self.require_client() {
            return Err(e);
        }
        msg.put_property(PROPERTY_CORRELATION_ID, correlation_id);
        msg.put_property(PROPERTY_MESSAGE_REPLY_TO_CLIENT, client_id);
        msg.put_property(PROPERTY_MESSAGE_TTL, int_text(timeout).as_str());
        Ok(timeout)
    }

    /// Whether a message can be called back: the topic, inside the namespace, or why not.
    pub fn recall_topic(&self, topic: &str) -> (r: Result<String, Error>)
        ensures
            ({
                let t = in_namespace(self.cfg.namespace@, topic@);
                match r {
                    Ok(s) => self.ready() && s@ == t && topic_fault(t) is None && !begins_with(t, RETRY_PREFIX@)
                        && !begins_with(t, DLQ_PREFIX@),
                    Err(e) => if !self.ready() {
                        not_started(e)
                    } else {
                        match topic_fault(t) {
                            Some(text) => is_client(e, None, text),
                            None => (begins_with(t, RETRY_PREFIX@) || begins_with(t, DLQ_PREFIX@)) && is_client(
                                e,
                                None,
                                "topic is not supported"@,
                            ),
                        }
                    },
                }
            }),
    {
        if let Err(e) = self.require_client() {
            return Err(e);
        }
        let t = self.with_namespace(topic);
        if let Err(e) = check_topic(t.as_str()) {
            return Err(e);
        }
        if is_retry_topic(t.as_str()) || is_dlq_topic(t.as_str()) {
            return Err(Error::client("topic is not supported"));
        }
        Ok(t)
    }

    /// Whether a topic can be made: not under a name that is no topic's, nor under one that the
    /// brokers use themselves.
    pub fn create_topic(&self, new_topic: &str) -> (r: Result<(), Error>)
        ensures
            match r {
                Ok(_) => self.ready() && topic_fault(new_topic@) is None && !system_topic(new_topic@),
                Err(e) => if !self.ready() {
                    not_started(e)
                } else {
                    match topic_fault(new_topic@) {
                        Some(text) => is_client(e, None, text),
                        None => system_topic(new_topic@) && is_client(
                            e,
                            None,
                            "The topic["@ + new_topic@ + "] is conflict with system topic."@,
                        ),
                    }
                },
            },
    {
        if let Err(e) = self.require_client() {
            return Err(e);
        }
        if let Err(e) = check_topic(new_topic) {
            return Err(e);
        }
        if is_system_topic(new_topic) {
            return Err(
                Error::client(
                    "The topic[".to_owned().concat(new_topic).concat("] is conflict with system topic.").as_str(),
                ),
            );
        }
        Ok(())
    }

    /// A message cannot be read by its id.
    pub fn view_message(&self, topic: &str, msg_id: &str) -> (r: Result<Vec<MessageExt>, Error>)
        ensures
            r matches Err(e) && is_client(
                e,
                None,
                "viewMessage by msgId is not supported in Rust edition (topic="@ + topic@ + ", msgId="@ + msg_id@
                    + ")"@,
            ),
    {
        Err(
            Error::client(
                "viewMessage by msgId is not supported in Rust edition (topic=".to_owned().concat(topic).concat(
                    ", msgId=",
                ).concat(msg_id).concat(")").as_str(),
            ),
        )
    }
}

/// A producer leaves its instance, which leaves the registry where it was the last. The
/// instance itself may then stop.
pub fn leave<C>(plan: &StopPlan, instance: &mut MQClientInstance<C>, registry: &mut InstanceRegistry, number: u64)
    ensures
        final(instance).producer_table@ == old(instance).producer_table@.remove(plan.group@),
        *final(instance) == (MQClientInstance {
            producer_table: final(instance).producer_table,
            ..*old(instance)
        }),
        final(registry).entries@ == if unused(*final(instance)) {
            struck(old(registry).entries@, old(instance).client_id@, number)
        } else {
            old(registry).entries@
        },
{
    instance.unregister_producer(plan.group.as_str());
    instance.detach_from_registry_if_last_tenant(registry, number);
}

/// Once the last user of an instance has left it, nobody finds it any more: who starts next
/// under its client id gets a fresh one.
pub proof fn law_restart_finds_no_dying_instance(entries: Map<Seq<char>, u64>, client_id: Seq<char>, number: u64)
    requires
        entries.dom().contains(client_id) ==> entries[client_id] == number,
    ensures
        !struck(entries, client_id, number).dom().contains(client_id),
{
}

/// Whether a topic whose route was not found is asked for again, by way of the default topic.
pub fn asks_default(e: &Error) -> (r: bool)
    ensures
        r == (kind_of(*e) is Some),
{
    retryable(e)
}

/// There must be a name server.
pub fn validate_name_server_setting(addrs: &Vec<String>) -> (r: Result<(), Error>)
    ensures
        match r {
            Ok(_) => addrs@.len() > 0,
            Err(e) => addrs@.len() == 0 && is_client(
                e,
                Some(client_error_code::NO_NAME_SERVER_EXCEPTION),
                "No name server address, please set it."@,
            ),
        },
{
    if addrs.len() == 0 {
        return Err(
            Error::client_with_code(
                client_error_code::NO_NAME_SERVER_EXCEPTION,
                "No name server address, please set it.",
            ),
        );
    }
    Ok(())
}

/// Why a topic has no route, once both ways to it failed, the second with `e`: that there is
/// no name server comes first.
pub fn route_missing(addrs: &Vec<String>, e: Error) -> (r: Error)
    ensures
        if addrs@.len() > 0 {
            r == e
        } else {
            is_client(
                r,
                Some(client_error_code::NO_NAME_SERVER_EXCEPTION),
                "No name server address, please set it."@,
            )
        },
{
    match validate_name_server_setting(addrs) {
        Ok(_) => e,
        Err(none) => none,
    }
}

/// The address of a queue's broker for a message that nobody answers; there must be one.
pub fn need_addr(addr: Option<String>, mq: &MessageQueue) -> (r: Result<String, Error>)
    ensures
        match addr {
            Some(a) => r == Ok::<String, Error>(a),
            None => r matches Err(e) && is_client(e, None, "broker address not found for "@ + mq.broker_name@),
        },
{
    match addr {
        Some(a) => Ok(a),
        None => Err(
            Error::client("broker address not found for ".to_owned().concat(mq.broker_name.as_str()).as_str()),
        ),
    }
}

/// The time that is left for sending a question, of which `cost` is gone; all of it where it
/// is gone.
pub fn request_send_timeout(timeout: i64, cost: i64) -> (r: i64)
    requires
        timeout - cost <= i64::MAX,
    ensures
        r == if timeout > cost {
            timeout - cost
        } else {
            timeout as int
        },
{
    if timeout > cost {
        timeout - cost
    } else {
        timeout
    }
}

/// What a question comes to: its answer, or why there is none.
pub fn wait_request_response(topic: &str, timeout: i64, response: Option<MessageExt>, send_request_ok: bool) -> (r: Result<
    MessageExt,
    Error,
>)
    ensures
        match response {
            Some(m) => r == Ok::<MessageExt, Error>(m),
            None => r matches Err(e) && if send_request_ok {
                e matches Error::RequestTimeout { topic: t, timeout_millis } && t@ == topic@ && timeout_millis == timeout
            } else {
                is_client(e, None, "send request message to <"@ + topic@ + "> fail"@)
            },
        },
{
    match response {
        Some(m) => Ok(m),
        None => if send_request_ok {
            Err(Error::request_timeout(topic, timeout))
        } else {
            Err(
                Error::client(
                    "send request message to <".to_owned().concat(topic).concat("> fail").as_str(),
                ),
            )
        },
    }
}

/// A client id is the address of the host and the name of the instance, with the unit behind them
/// where there is one, and a mark behind that where requests are marked for streams.
pub proof fn law_client_id_is_made_of_its_parts(ip: &str, instance: &str, unit: &Option<String>, stream: bool, r: String)
    requires
        call_ensures(build_client_id, (ip, instance, unit, stream), r),
    ensures
        ({
            let base = ip@ + "@"@ + instance@;
            let has_unit = *unit is Some && !blank((*unit)->0@);
            &&& !has_unit && !stream ==> r@ == base
            &&& has_unit && !stream ==> r@ == base + "@"@ + (*unit)->0@
            &&& !has_unit && stream ==> r@ == base + "@STREAM"@
            &&& has_unit && stream ==> r@ == base + "@"@ + (*unit)->0@ + "@STREAM"@
        }),
{
    let base = ip@ + "@"@ + instance@;
    let e = Seq::<char>::empty();
    assert(base + e + e =~= base);
    assert(base + e + "@STREAM"@ =~= base + "@STREAM"@);
    if *unit is Some {
        let u = (*unit)->0@;
        assert(base + ("@"@ + u) + e =~= base + "@"@ + u);
        assert(base + ("@"@ + u) + "@STREAM"@ =~= base + "@"@ + u + "@STREAM"@);
    }
}

/// A producer starts exactly where it is not started, its group inside its namespace is a fine one
/// and not the default one, and there is a way to name servers; else it fails by the first of
/// these, and stays as it was.
pub proof fn law_producer_starts_where_it_can<L>(
    p: &mut DefaultMQProducer<L>,
    facts: &StartFacts,
    r: Result<Option<StartPlan>, Error>,
    group: &str,
    named: String,
    name: &str,
    fine: Result<(), Error>,
)
    requires
        call_ensures(DefaultMQProducer::<L>::begin_start, (p, facts), r),
        group@ == old(p).cfg.producer_group@,
        call_ensures(DefaultMQProducer::<L>::with_namespace, (&*old(p), group), named),
        name@ == named@,
        call_ensures(check_group, (name,), fine),
    ensures
        ({
            let default_group = named@ == "DEFAULT_PRODUCER"@;
            let addressed = old(p).cfg.name_server_addrs@.len() > 0 || facts.top_addressing;
            &&& old(p).started ==> (r matches Ok(None)) && *final(p) == *old(p)
            &&& !old(p).started ==> ((r matches Ok(Some(_))) <==> fine is Ok && !default_group && addressed)
            &&& r is Err ==> *final(p) == *old(p)
            &&& !old(p).started && fine is Err ==> (r matches Err(e) && error_text(e) == error_text(fine->Err_0))
            &&& !old(p).started && fine is Ok && default_group ==> (r matches Err(e) && e is Client && error_code(e) is None)
            &&& !old(p).started && fine is Ok && !default_group && !addressed ==> (r matches Err(e) && e is Client
                && error_code(e) == Some(10004i32))
        }),
        r matches Ok(Some(plan)) ==> {
            &&& final(p).started
            &&& final(p).cfg.producer_group@ == named@
            &&& opt(final(p).cfg.client_id) == Some(plan.client_id@)
            &&& old(p).cfg.client_id is Some ==> plan.client_id@ == old(p).cfg.client_id->0@
            &&& plan.name_server_addrs@ == old(p).cfg.name_server_addrs@
            &&& plan.instance_cfg.tls_enable == old(p).cfg.tls_enable
            &&& plan.instance_cfg.unit_name == old(p).cfg.unit_name
            &&& plan.instance_cfg.enable_stream_request_type == old(p).cfg.enable_stream_request_type
            &&& plan.instance_cfg.route_refresh_interval_millis == old(p).cfg.poll_name_server_interval_millis
            &&& old(p).cfg.instance_name@ == "DEFAULT"@ ==> final(p).cfg.instance_name@ == facts.fresh_instance@
            &&& old(p).cfg.instance_name@ != "DEFAULT"@ ==> final(p).cfg.instance_name@ == old(p).cfg.instance_name@
            &&& final(p).send_hooks == old(p).send_hooks && final(p).transaction_listener
                == old(p).transaction_listener
        },
{
}

/// A producer whose client id is not set has the one of its host, its instance and its unit.
pub proof fn law_started_producer_has_its_client_id<L>(
    p: &mut DefaultMQProducer<L>,
    facts: &StartFacts,
    plan: StartPlan,
    ip: &str,
    instance: &str,
    id: String,
)
    requires
        call_ensures(DefaultMQProducer::<L>::begin_start, (p, facts), Ok::<Option<StartPlan>, Error>(Some(plan))),
        old(p).cfg.client_id is None,
        ip@ == facts.ip@,
        instance@ == final(p).cfg.instance_name@,
        call_ensures(
            build_client_id,
            (ip, instance, &old(p).cfg.unit_name, old(p).cfg.enable_stream_request_type),
            id,
        ),
    ensures
        plan.client_id@ == id@,
{
}

/// From its start on a producer sends through its instance, which knows its group; name servers
/// that the instance found are the producer's where it had none.
pub proof fn law_started_producer_is_registered<L, C>(
    p: &mut DefaultMQProducer<L>,
    number: u64,
    instance: &mut MQClientInstance<C>,
    client: Result<u64, Error>,
    group: &str,
    known: bool,
    other: &str,
    other_known: bool,
    other_before: bool,
)
    requires
        old(p).started,
        call_ensures(DefaultMQProducer::<L>::client_started::<C>, (p, number, instance), ()),
        call_ensures(DefaultMQProducer::<L>::require_client, (&*final(p),), client),
        group@ == old(p).cfg.producer_group@,
        call_ensures(MQClientInstance::<C>::has_producer, (&*final(instance), group), known),
        other@ != group@,
        call_ensures(MQClientInstance::<C>::has_producer, (&*final(instance), other), other_known),
        call_ensures(MQClientInstance::<C>::has_producer, (&*old(instance), other), other_before),
    ensures
        client == Ok::<u64, Error>(number),
        known,
        other_known == other_before,
        old(p).cfg.name_server_addrs@.len() == 0 ==> final(p).cfg.name_server_addrs@ == old(instance).name_server_addrs@,
        old(p).cfg.name_server_addrs@.len() > 0 ==> final(p).cfg.name_server_addrs@ == old(p).cfg.name_server_addrs@,
        final(instance).started == old(instance).started && final(instance).tasks == old(instance).tasks,
{
}

/// A producer that stops is not started, has no instance, and its group is no longer registered
/// with the one that it had; that one leaves the registry where nobody else uses it, and stays
/// where somebody does. What is configured stays.
pub proof fn law_stopped_producer_leaves_its_instance<L, C>(
    p: &mut DefaultMQProducer<L>,
    plan: Option<StopPlan>,
    instance: &mut MQClientInstance<C>,
    registry: &mut InstanceRegistry,
    number: u64,
    group: &str,
    known: bool,
    client: Result<u64, Error>,
    users: usize,
    id: &str,
    found: Option<u64>,
)
    requires
        call_ensures(DefaultMQProducer::<L>::begin_shutdown, (p,), plan),
        plan matches Some(s) ==> call_ensures(leave::<C>, (&s, instance, registry, number), ()),
        group@ == old(p).cfg.producer_group@,
        call_ensures(MQClientInstance::<C>::has_producer, (&*final(instance), group), known),
        call_ensures(DefaultMQProducer::<L>::require_client, (&*final(p),), client),
        call_ensures(MQClientInstance::<C>::tenant_count, (&*final(instance),), users),
        id@ == old(instance).client_id@,
        call_ensures(InstanceRegistry::find_instance, (&*final(registry), id), found),
    ensures
        plan is Some <==> old(p).started,
        plan is None ==> *final(p) == *old(p),
        plan is Some ==> {
            &&& !known
            &&& client is Err
            &&& final(p).cfg == old(p).cfg
            &&& users == 0 ==> found != Some(number)
            &&& users > 0 ==> final(registry).entries@ == old(registry).entries@
            &&& plan->0.client == old(p).client && plan->0.client_id == old(p).cfg.client_id
        },
{
}

/// A body is compressed only where it is not empty and not below the threshold; else the message
/// stays as it is, and is not flagged. It is what `compress` gave then, and the flag says so and by
/// which kind; where `compress` fails or gives nothing, the message stays as it is.
pub proof fn law_large_bodies_are_compressed<L, F: Fn(&Vec<u8>, i32, i32) -> Result<Vec<u8>, Error>>(
    p: &DefaultMQProducer<L>,
    msg: &mut Message,
    compress: F,
    flag: i32,
    packed: bool,
    kind: i32,
)
    requires
        call_ensures(DefaultMQProducer::<L>::try_to_compress_message::<F>, (p, msg, compress), flag),
        call_ensures(is_compressed, (flag,), packed),
        call_ensures(get_compression_type, (flag,), kind),
    ensures
        ({
            let n = body_bytes(old(msg).body).len();
            &&& n == 0 || (n <= i32::MAX && n < p.cfg.compress_msg_body_over_howmuch) ==> flag == 0 && *final(msg)
                == *old(msg)
            &&& packed ==> {
                &&& n > 0
                &&& final(msg).body is Some && final(msg).body->0@.len() > 0
                &&& exists|b: Vec<u8>|
                    b@ == body_bytes(old(msg).body) && #[trigger] call_ensures(
                        compress,
                        (&b, p.cfg.compress_type, p.cfg.compress_level),
                        Ok::<Vec<u8>, Error>(final(msg).body->0),
                    )
                &&& 1 <= p.cfg.compress_type <= 7 ==> kind == p.cfg.compress_type
            }
            &&& !packed ==> flag == 0 && *final(msg) == *old(msg)
            &&& 0 < n <= i32::MAX && n >= p.cfg.compress_msg_body_over_howmuch && 0 <= p.cfg.compress_type <= 7 && !packed
                ==> exists|b: Vec<u8>, out: Result<Vec<u8>, Error>|
                {
                    &&& b@ == body_bytes(old(msg).body)
                    &&& #[trigger] call_ensures(compress, (&b, p.cfg.compress_type, p.cfg.compress_level), out)
                    &&& out is Err || (out->Ok_0)@.len() == 0
                }
            &&& final(msg).topic == old(msg).topic && final(msg).properties == old(msg).properties && final(msg).flag
                == old(msg).flag
        }),
{
    let before = *old(msg);
    let bytes = body_bytes(before.body);
    let k = p.cfg.compress_type;
    if is_large(bytes, p.cfg) {
        let out = choose|out: Result<Vec<u8>, Error>| #[trigger]
            deflated(compress, bytes, k, p.cfg.compress_level, out) && match out {
                Ok(c) => if c@.len() > 0 {
                    &&& *final(msg) == (Message { body: Some(c), ..before })
                    &&& flag == COMPRESSED_FLAG | (k << 8u32)
                } else {
                    flag == 0 && *final(msg) == before
                },
                Err(_) => flag == 0 && *final(msg) == before,
            };
        let b = choose|b: Vec<u8>| b@ == bytes && #[trigger] call_ensures(compress, (&b, k, p.cfg.compress_level), out);
        assert(call_ensures(compress, (&b, k, p.cfg.compress_level), out));
        assert((1i32 | (k << 8u32)) & 1 == 1) by (bit_vector)
            requires
                0 <= k <= 7,
        ;
        assert(((1i32 | (k << 8u32)) >> 8u32) & 7 == k) by (bit_vector)
            requires
                0 <= k <= 7,
        ;
    }
    assert(0i32 & 1 == 0) by (bit_vector);
}

/// A batch is never compressed, and a single message as any message is.
pub proof fn law_batch_is_not_compressed<L, F: Fn(&Vec<u8>, i32, i32) -> Result<Vec<u8>, Error>>(
    p: &DefaultMQProducer<L>,
    msg: &mut PublishMessage<'_>,
    compress: F,
    flag: i32,
)
    requires
        call_ensures(DefaultMQProducer::<L>::sys_flag_for::<F>, (p, msg, compress), flag),
    ensures
        *old(msg) is Batch ==> flag == 0 && outer(*final(msg)) == outer(*old(msg)) && parts(*final(msg)) == parts(
            *old(msg),
        ),
        *old(msg) is Single && body_bytes(outer(*old(msg)).body).len() == 0 ==> flag == 0 && outer(*final(msg)) == outer(
            *old(msg),
        ),
        outer(*final(msg)).topic == outer(*old(msg)).topic && outer(*final(msg)).properties == outer(
            *old(msg),
        ).properties,
{
}

/// A message is made ready to be sent where the producer is started and the message, inside the
/// namespace, can be sent; else it fails by the first of these. Its properties stay, and its body
/// unless it is compressed.
pub proof fn law_message_is_made_ready<L, F: Fn(&Vec<u8>, i32, i32) -> Result<Vec<u8>, Error>>(
    p: &DefaultMQProducer<L>,
    msg: &mut Message,
    compress: F,
    r: Result<i32, Error>,
    client: Result<u64, Error>,
    topic: &str,
    named: String,
    m: Message,
    checked: Result<(), Error>,
)
    requires
        call_ensures(DefaultMQProducer::<L>::prepare_message::<F>, (p, msg, compress), r),
        call_ensures(DefaultMQProducer::<L>::require_client, (p,), client),
        topic@ == old(msg).topic@,
        call_ensures(DefaultMQProducer::<L>::with_namespace, (p, topic), named),
        m == (Message { topic: final(msg).topic, ..*old(msg) }),
        call_ensures(DefaultMQProducer::<L>::check_message, (p, &m), checked),
    ensures
        client is Ok ==> (r is Ok <==> checked is Ok),
        client is Err ==> (r matches Err(e) && error_text(e) == error_text(client->Err_0)) && *final(msg) == *old(msg),
        client is Ok && checked is Err ==> (r matches Err(e) && error_text(e) == error_text(checked->Err_0) && error_code(
            e,
        ) == error_code(checked->Err_0)),
        client is Ok ==> final(msg).topic@ == named@,
        final(msg).properties == old(msg).properties && final(msg).flag == old(msg).flag,
        r == Ok::<i32, Error>(0) ==> final(msg).body == old(msg).body,
{
    if r == Ok::<i32, Error>(0) && is_large(body_bytes(old(msg).body), p.cfg) {
        let k = p.cfg.compress_type;
        assert(1i32 | (k << 8u32) != 0) by (bit_vector)
            requires
                0 <= k <= 7,
        ;
    }
}

/// A send in the background needs a producer that is started and a runtime, in that order; it has
/// the time that it is given, or else that of the configuration, and counts for its bytes.
pub proof fn law_background_sends_are_counted<L>(
    p: &DefaultMQProducer<L>,
    msg: &Message,
    msgs: &[Message],
    timeout: Option<i64>,
    runtime: bool,
    one: Result<AsyncJob, Error>,
    many: Result<AsyncJob, Error>,
    client: Result<u64, Error>,
    cost: i64,
    costs: i64,
)
    requires
        call_ensures(DefaultMQProducer::<L>::send_async, (p, msg, timeout, runtime), one),
        call_ensures(DefaultMQProducer::<L>::send_batch_async, (p, msgs, timeout, runtime), many),
        call_ensures(DefaultMQProducer::<L>::require_client, (p,), client),
        call_ensures(back_pressure_msg_len, (msg,), cost),
        call_ensures(batch_back_pressure_msg_len, (msgs,), costs),
    ensures
        one is Ok <==> client is Ok && runtime,
        many is Ok <==> client is Ok && runtime,
        one matches Ok(j) ==> j.msg_len == cost && (timeout matches Some(t) ==> j.timeout == t) && (timeout is None
            ==> j.timeout == p.cfg.send_msg_timeout),
        many matches Ok(j) ==> j.msg_len == costs && (timeout matches Some(t) ==> j.timeout == t) && (timeout is None
            ==> j.timeout == p.cfg.send_msg_timeout),
        client is Err ==> (one matches Err(e) && error_text(e) == error_text(client->Err_0)),
{
}

/// A question carries under which id, whom, and for how long it is to be answered, and is
/// otherwise the message that it was; it fails where the message cannot be sent, and then where the
/// producer is not started.
pub proof fn law_question_says_whom_to_answer<L>(
    p: &DefaultMQProducer<L>,
    msg: &mut Message,
    timeout: Option<i64>,
    id: &str,
    client_id: &str,
    r: Result<i64, Error>,
    client: Result<u64, Error>,
    m: Message,
    checked: Result<(), Error>,
)
    requires
        call_ensures(DefaultMQProducer::<L>::prepare_request, (p, msg, timeout, id, client_id), r),
        call_ensures(DefaultMQProducer::<L>::require_client, (p,), client),
        m == (Message { topic: final(msg).topic, ..*old(msg) }),
        call_ensures(DefaultMQProducer::<L>::check_message, (p, &m), checked),
    ensures
        r is Ok <==> checked is Ok && client is Ok,
        r matches Ok(t) ==> {
            &&& timeout matches Some(x) ==> t == x
            &&& timeout is None ==> t == p.cfg.request_timeout
            &&& prop(final(msg).properties, "CORRELATION_ID"@) == Some(id@)
            &&& prop(final(msg).properties, "REPLY_TO_CLIENT"@) == Some(client_id@)
            &&& prop(final(msg).properties, "TTL"@) == Some(decimal(t as int))
        },
        forall|k: Seq<char>|
            k != "CORRELATION_ID"@ && k != "REPLY_TO_CLIENT"@ && k != "TTL"@ ==> #[trigger] prop(
                final(msg).properties,
                k,
            ) == prop(old(msg).properties, k),
        r is Err ==> final(msg).properties == old(msg).properties,
        final(msg).body == old(msg).body && final(msg).flag == old(msg).flag,
{
    reveal_strlit("CORRELATION_ID");
    reveal_strlit("REPLY_TO_CLIENT");
    reveal_strlit("TTL");
    assert("CORRELATION_ID"@.len() == 14 && "REPLY_TO_CLIENT"@.len() == 15 && "TTL"@.len() == 3);
    if let Ok(t) = r {
        let a = props(old(msg).properties);
        let b = props(final(msg).properties);
        assert(b == a.insert("CORRELATION_ID"@, id@).insert("REPLY_TO_CLIENT"@, client_id@).insert(
            "TTL"@,
            decimal(t as int),
        ));
        assert(b.dom().contains("CORRELATION_ID"@) && b["CORRELATION_ID"@] == id@);
        assert(b.dom().contains("REPLY_TO_CLIENT"@) && b["REPLY_TO_CLIENT"@] == client_id@);
        assert(b.dom().contains("TTL"@) && b["TTL"@] == decimal(t as int));
        assert forall|k: Seq<char>| k != "CORRELATION_ID"@ && k != "REPLY_TO_CLIENT"@ && k != "TTL"@ implies #[trigger] prop(
            final(msg).properties,
            k,
        ) == prop(old(msg).properties, k) by {
            assert(b.dom().contains(k) == a.dom().contains(k));
            if a.dom().contains(k) {
                assert(b[k] == a[k]);
            }
        }
    }
}

/// What a question comes to is its answer; without one, that it took too long where it was sent,
/// and that it could not be sent where not. The time for sending it is what is left, or all of it.
pub proof fn law_question_comes_to_its_answer(
    topic: &str,
    timeout: i64,
    response: Option<MessageExt>,
    sent: bool,
    r: Result<MessageExt, Error>,
    cost: i64,
    left: i64,
)
    requires
        call_ensures(wait_request_response, (topic, timeout, response, sent), r),
        timeout - cost <= i64::MAX,
        call_ensures(request_send_timeout, (timeout, cost), left),
    ensures
        response matches Some(m) ==> r == Ok::<MessageExt, Error>(m),
        response is None && sent ==> (r matches Err(Error::RequestTimeout { topic: t, timeout_millis }) && t@ == topic@
            && timeout_millis == timeout),
        response is None && !sent ==> (r matches Err(e) && e is Client),
        cost < timeout ==> left + cost == timeout,
        cost >= timeout ==> left == timeout,
{
}

/// A topic whose messages can be called back stands in the namespace, has a fine name, and is no
/// retry or dead-letter topic. A topic that can be made has a fine name and is none of the
/// system's. Both need a producer that is started.
pub proof fn law_topics_that_can_be_recalled_or_made<L>(
    p: &DefaultMQProducer<L>,
    topic: &str,
    recall: Result<String, Error>,
    make: Result<(), Error>,
    client: Result<u64, Error>,
    named: String,
    name: &str,
    fine: Result<(), Error>,
    own_fine: Result<(), Error>,
    retry: bool,
    dlq: bool,
    system: bool,
)
    requires
        call_ensures(DefaultMQProducer::<L>::recall_topic, (p, topic), recall),
        call_ensures(DefaultMQProducer::<L>::create_topic, (p, topic), make),
        call_ensures(DefaultMQProducer::<L>::require_client, (p,), client),
        call_ensures(DefaultMQProducer::<L>::with_namespace, (p, topic), named),
        name@ == named@,
        call_ensures(check_topic, (name,), fine),
        call_ensures(check_topic, (topic,), own_fine),
        call_ensures(is_retry_topic, (name,), retry),
        call_ensures(is_dlq_topic, (name,), dlq),
        call_ensures(is_system_topic, (topic,), system),
    ensures
        recall is Ok <==> client is Ok && fine is Ok && !retry && !dlq,
        recall matches Ok(t) ==> t@ == named@,
        make is Ok <==> client is Ok && own_fine is Ok && !system,
        recall matches Err(e) ==> e is Client,
        make matches Err(e) ==> e is Client,
        client is Err ==> (make matches Err(e) && error_text(e) == error_text(client->Err_0)),
{
}

/// A code that was added is one after which another broker is tried; other codes stay what they
/// were, and no code is never one.
pub proof fn law_added_code_is_retried<L>(
    p: &mut DefaultMQProducer<L>,
    code: i32,
    other: i32,
    now: bool,
    other_now: bool,
    other_before: bool,
    without: bool,
)
    requires
        call_ensures(DefaultMQProducer::<L>::add_retry_response_code, (p, code), ()),
        call_ensures(DefaultMQProducer::<L>::is_retry_response_code, (&*final(p), Some(code)), now),
        call_ensures(DefaultMQProducer::<L>::is_retry_response_code, (&*final(p), Some(other)), other_now),
        call_ensures(DefaultMQProducer::<L>::is_retry_response_code, (&*old(p), Some(other)), other_before),
        call_ensures(DefaultMQProducer::<L>::is_retry_response_code, (&*final(p), None), without),
        other != code,
    ensures
        now,
        other_now == other_before,
        !without,
{
}

/// The group of a producer can be changed until it starts, and not after.
pub proof fn law_group_is_fixed_once_started<L>(p: &mut DefaultMQProducer<L>, group: &str, r: Result<(), Error>, now: String)
    requires
        call_ensures(DefaultMQProducer::<L>::set_producer_group, (p, group), r),
        call_ensures(DefaultMQProducer::<L>::producer_group, (&*final(p),), now),
    ensures
        r is Ok <==> !old(p).started,
        r is Ok ==> now@ == group@,
        r is Err ==> *final(p) == *old(p) && now@ == old(p).cfg.producer_group@,
{
}

/// A producer is made of a group that is not blank, not started, without hooks and instance, and
/// with all its permits free: at least ten sends and a mebibyte.
pub proof fn law_fresh_producer_has_done_nothing<L>(cfg: ProducerConfig, r: Result<DefaultMQProducer<L>, Error>)
    requires
        call_ensures(DefaultMQProducer::<L>::with_config, (cfg,), r),
    ensures
        r is Ok <==> !blank(cfg.producer_group@),
        r matches Ok(p) ==> {
            &&& p.cfg == cfg && !p.started && p.client is None && p.transaction_listener is None
            &&& p.send_hooks@.len() == 0 && p.check_forbidden_hooks@.len() == 0 && p.end_txn_hooks@.len() == 0
            &&& p.semaphore_async_send_num.free == p.semaphore_async_send_num.total
            &&& p.semaphore_async_send_num.total >= 10 && p.semaphore_async_send_num.total
                >= cfg.back_pressure_for_async_send_num
            &&& p.semaphore_async_send_num.total == 10 || p.semaphore_async_send_num.total
                == cfg.back_pressure_for_async_send_num
            &&& p.semaphore_async_send_size.free == p.semaphore_async_send_size.total
            &&& p.semaphore_async_send_size.total >= 1_048_576 && p.semaphore_async_send_size.total
                >= cfg.back_pressure_for_async_send_size
            &&& p.semaphore_async_send_size.total == 1_048_576 || p.semaphore_async_send_size.total
                == cfg.back_pressure_for_async_send_size
        },
{
}

/// Where more or fewer sends and bytes may be on their way, what is out stays out; the numbers
/// never fall below ten sends and a mebibyte.
pub proof fn law_permits_follow_the_configuration<L>(
    p: &mut DefaultMQProducer<L>,
    num: i64,
    free: i64,
    free_before: i64,
    q: &mut DefaultMQProducer<L>,
    size: i64,
    size_free: i64,
    size_free_before: i64,
)
    requires
        old(p).wf() && old(q).wf(),
        call_ensures(DefaultMQProducer::<L>::set_back_pressure_for_async_send_num, (p, num), ()),
        call_ensures(DefaultMQProducer::<L>::semaphore_async_send_num_available_permits, (&*final(p),), free),
        call_ensures(DefaultMQProducer::<L>::semaphore_async_send_num_available_permits, (&*old(p),), free_before),
        call_ensures(DefaultMQProducer::<L>::set_back_pressure_for_async_send_size, (q, size), ()),
        call_ensures(DefaultMQProducer::<L>::semaphore_async_send_size_available_permits, (&*final(q),), size_free),
        call_ensures(DefaultMQProducer::<L>::semaphore_async_send_size_available_permits, (&*old(q),), size_free_before),
    ensures
        ({
            let n: i64 = if num < 10 {
                10
            } else {
                num
            };
            &&& final(p).cfg.back_pressure_for_async_send_num == n
            &&& final(p).semaphore_async_send_num.total == n
            &&& free - free_before == n - old(p).semaphore_async_send_num.total
        }),
        ({
            let n: i64 = if size < 1_048_576 {
                1_048_576
            } else {
                size
            };
            &&& final(q).cfg.back_pressure_for_async_send_size == n
            &&& final(q).semaphore_async_send_size.total == n
            &&& size_free - size_free_before == n - old(q).semaphore_async_send_size.total
        }),
{
}

/// The steps around a request of a producer: those of its hooks, and of its traces where they are
/// handed on; a request whose queue is given is sent as it is where no hook looks at it.
pub proof fn law_steps_are_those_of_the_hooks<L>(
    p: &DefaultMQProducer<L>,
    direct: bool,
    steps: Vec<KernelStep>,
    hooked: bool,
    forbidding: bool,
    plan: Vec<KernelStep>,
)
    requires
        call_ensures(DefaultMQProducer::<L>::send_steps, (p, direct), steps),
        call_ensures(DefaultMQProducer::<L>::has_send_message_hook, (p,), hooked),
        call_ensures(DefaultMQProducer::<L>::has_check_forbidden_hook, (p,), forbidding),
        call_ensures(kernel_steps, (forbidding, p.cfg.enable_trace_context == Some(true), hooked), plan),
    ensures
        direct && !hooked && !forbidding ==> steps@ == seq![KernelStep::Send],
        !direct || hooked || forbidding ==> steps@ == plan@,
        hooked == (p.send_hooks@.len() > 0),
        forbidding == (p.check_forbidden_hooks@.len() > 0),
{
}

/// The heartbeat of a producer names its group and nothing else, and comes at the interval of the
/// configuration, but not more often than each second.
pub proof fn law_producer_heartbeat<L>(p: &DefaultMQProducer<L>, id: &str, r: HeartbeatData, wait: u64)
    requires
        call_ensures(DefaultMQProducer::<L>::heartbeat, (p, id), r),
        call_ensures(DefaultMQProducer::<L>::heartbeat_wait_millis, (p,), wait),
    ensures
        r.client_id@ == id@ && r.consumer_data_set@.len() == 0,
        r.producer_groups@.len() == 1 && r.producer_groups@[0]@ == p.cfg.producer_group@,
        wait >= 1000,
        p.cfg.heartbeat_interval_millis >= 1000 ==> wait == p.cfg.heartbeat_interval_millis,
        p.cfg.heartbeat_interval_millis < 1000 ==> wait == 1000,
{
    assert(texts(r.producer_groups@).len() == r.producer_groups@.len());
    assert(texts(r.producer_groups@)[0] == r.producer_groups@[0]@);
}

/// A topic without a route is asked for by way of the default topic where another try can mend the
/// failure; that there is no name server comes before any other reason.
pub proof fn law_missing_route_is_explained(
    e: Error,
    again: bool,
    addrs: &Vec<String>,
    r: Error,
    valid: Result<(), Error>,
)
    requires
        call_ensures(asks_default, (&e,), again),
        call_ensures(route_missing, (addrs, e), r),
        call_ensures(validate_name_server_setting, (addrs,), valid),
    ensures
        again == !(e is Decode || e is Encode || e is Io || e is Json),
        addrs@.len() > 0 ==> r == e && valid is Ok,
        addrs@.len() == 0 ==> r is Client && error_code(r) == Some(10004i32) && valid is Err,
{
}

/// A message that nobody answers goes to the address of its broker, which there must be.
pub proof fn law_oneway_needs_an_address(addr: Option<String>, mq: &MessageQueue, r: Result<String, Error>)
    requires
        call_ensures(need_addr, (addr, mq), r),
    ensures
        r is Ok <==> addr is Some,
        r matches Ok(a) ==> Some(a) == addr,
        r matches Err(e) ==> e is Client,
{
}

} // verus!

//! What clients are set up with.
use std::collections::BTreeSet;
use vstd::prelude::*;

use crate::clock::{default_consume_timestamp, fourteen_digits, shown_before, DEFAULT_BACK_MILLIS};
use crate::names::{
    DEFAULT_CONSUMER_GROUP, DEFAULT_INSTANCE_NAME, DEFAULT_PRODUCER_GROUP, DEFAULT_TOPIC, DEFAULT_TOPIC_QUEUE_NUMS,
};
use crate::response_code;
use crate::subscription::{CLUSTERING, CONSUME_FROM_LAST_OFFSET};
use crate::sysflag::ZLIB_TYPE;
use crate::text::{lowered, same_small, trim, trimmed};

verus! {

pub const DEFAULT_MAX_MESSAGE_SIZE: i32 = 4194304;

pub const DEFAULT_COMPRESS_MSG_BODY_OVER_HOWMUCH: i32 = 4096;

pub const DEFAULT_COMPRESS_LEVEL: i32 = 5;

pub const DEFAULT_ASYNC_SENDER_QUEUE_CAPACITY: i32 = 50000;

pub const DEFAULT_REQUEST_TIMEOUT_MILLIS: i64 = 3000;

pub const DEFAULT_BROKER_SUSPEND_MAX_TIME_MILLIS: i64 = 20_000;

pub const DEFAULT_CONSUMER_TIMEOUT_MILLIS_WHEN_SUSPEND: i64 = 30_000;

pub const DEFAULT_CONSUMER_PULL_TIMEOUT_MILLIS: i64 = 10_000;

/// How a producer works.
#[derive(Debug, Clone)]
pub struct ProducerConfig {
    pub producer_group: String,
    pub tls_enable: Option<bool>,
    pub enable_trace_context: Option<bool>,
    pub namespace: String,
    pub instance_name: String,
    pub unit_name: Option<String>,
    pub unit_mode: bool,
    pub enable_stream_request_type: bool,
    pub poll_name_server_interval_millis: u64,
    pub client_id: Option<String>,
    pub create_topic_key: String,
    pub default_topic_queue_nums: i32,
    pub send_msg_timeout: i64,
    pub compress_msg_body_over_howmuch: i32,
    pub compress_level: i32,
    pub compress_type: i32,
    pub retry_times_when_send_failed: i32,
    pub retry_times_when_send_async_failed: i32,
    pub async_sender_queue_capacity: i32,
    pub retry_another_broker_when_not_store_ok: bool,
    pub send_msg_max_timeout_per_request: i64,
    pub retry_response_codes: BTreeSet<i32>,
    pub max_message_size: i32,
    pub enable_backpressure_for_async_mode: bool,
    pub back_pressure_for_async_send_num: i64,
    pub back_pressure_for_async_send_size: i64,
    pub topics: Vec<String>,
    pub name_server_addrs: Vec<String>,
    pub heartbeat_interval_millis: u64,
    pub send_latency_fault_enable: bool,
    pub enable_trace: bool,
    pub trace_topic: Option<String>,
    pub trace_msg_batch_num: i32,
    pub request_timeout: i64,
}

/// The codes of brokers that are worth another broker, unless others are set.
pub open spec fn default_retry_codes() -> Set<i32> {
    set![
        response_code::SYSTEM_ERROR,
        response_code::SYSTEM_BUSY,
        response_code::SERVICE_NOT_AVAILABLE,
        response_code::NO_PERMISSION,
        response_code::TOPIC_NOT_EXIST,
        response_code::NO_BUYER_ID,
        response_code::NOT_IN_CURRENT_UNIT,
        response_code::GO_AWAY,
    ]
}

/// The codes of brokers that are worth another broker, unless others are set.
pub fn default_retry_response_codes() -> (r: BTreeSet<i32>)
    ensures
        r@ == default_retry_codes(),
{
    let mut codes: BTreeSet<i32> = BTreeSet::new();
    codes.insert(response_code::SYSTEM_ERROR);
    codes.insert(response_code::SYSTEM_BUSY);
    codes.insert(response_code::SERVICE_NOT_AVAILABLE);
    codes.insert(response_code::NO_PERMISSION);
    codes.insert(response_code::TOPIC_NOT_EXIST);
    codes.insert(response_code::NO_BUYER_ID);
    codes.insert(response_code::NOT_IN_CURRENT_UNIT);
    codes.insert(response_code::GO_AWAY);
    assert(codes@ =~= default_retry_codes());
    codes
}

impl Default for ProducerConfig {
    fn default() -> (r: ProducerConfig)
        ensures
            r.producer_group@ == DEFAULT_PRODUCER_GROUP@,
            r.tls_enable is None,
            r.enable_trace_context is None,
            r.namespace@.len() == 0,
            r.instance_name@ == DEFAULT_INSTANCE_NAME@,
            r.unit_name is None,
            !r.unit_mode,
            !r.enable_stream_request_type,
            r.poll_name_server_interval_millis == 30_000,
            r.client_id is None,
            r.create_topic_key@ == DEFAULT_TOPIC@,
            r.default_topic_queue_nums == DEFAULT_TOPIC_QUEUE_NUMS,
            r.send_msg_timeout == 3000,
            r.compress_msg_body_over_howmuch == DEFAULT_COMPRESS_MSG_BODY_OVER_HOWMUCH,
            r.compress_level == DEFAULT_COMPRESS_LEVEL,
            r.compress_type == ZLIB_TYPE,
            r.retry_times_when_send_failed == 2,
            r.retry_times_when_send_async_failed == 2,
            r.async_sender_queue_capacity == DEFAULT_ASYNC_SENDER_QUEUE_CAPACITY,
            !r.retry_another_broker_when_not_store_ok,
            r.send_msg_max_timeout_per_request == -1,
            r.retry_response_codes@ == default_retry_codes(),
            r.max_message_size == DEFAULT_MAX_MESSAGE_SIZE,
            !r.enable_backpressure_for_async_mode,
            r.back_pressure_for_async_send_num == 1024,
            r.back_pressure_for_async_send_size == 104857600,
            r.topics@.len() == 0,
            r.name_server_addrs@.len() == 0,
            r.heartbeat_interval_millis == 30_000,
            !r.send_latency_fault_enable,
            !r.enable_trace,
            r.trace_topic is None,
            r.trace_msg_batch_num == 10,
            r.request_timeout == DEFAULT_REQUEST_TIMEOUT_MILLIS,
    {
        ProducerConfig {
            producer_group: DEFAULT_PRODUCER_GROUP.to_owned(),
            tls_enable: None,
            enable_trace_context: None,
            namespace: String::new(),
            instance_name: DEFAULT_INSTANCE_NAME.to_owned(),
            unit_name: None,
            unit_mode: false,
            enable_stream_request_type: false,
            poll_name_server_interval_millis: 30_000,
            client_id: None,
            create_topic_key: DEFAULT_TOPIC.to_owned(),
            default_topic_queue_nums: DEFAULT_TOPIC_QUEUE_NUMS,
            send_msg_timeout: 3000,
            compress_msg_body_over_howmuch: DEFAULT_COMPRESS_MSG_BODY_OVER_HOWMUCH,
            compress_level: DEFAULT_COMPRESS_LEVEL,
            compress_type: ZLIB_TYPE,
            retry_times_when_send_failed: 2,
            retry_times_when_send_async_failed: 2,
            async_sender_queue_capacity: DEFAULT_ASYNC_SENDER_QUEUE_CAPACITY,
            retry_another_broker_when_not_store_ok: false,
            send_msg_max_timeout_per_request: -1,
            retry_response_codes: default_retry_response_codes(),
            max_message_size: DEFAULT_MAX_MESSAGE_SIZE,
            enable_backpressure_for_async_mode: false,
            back_pressure_for_async_send_num: 1024,
            back_pressure_for_async_send_size: 104857600,
            topics: Vec::new(),
            name_server_addrs: Vec::new(),
            heartbeat_interval_millis: 30_000,
            send_latency_fault_enable: false,
            enable_trace: false,
            trace_topic: None,
            trace_msg_batch_num: 10,
            request_timeout: DEFAULT_REQUEST_TIMEOUT_MILLIS,
        }
    }
}

/// How a client instance works.
#[derive(Debug, Clone)]
pub struct MQClientInstanceConfig {
    pub connect_timeout_millis: i64,
    pub invoke_timeout_millis: i32,
    pub tls_enable: Option<bool>,
    pub route_refresh_interval_millis: u64,
    pub namesrv_refresh_initial_delay_millis: u64,
    pub namesrv_refresh_interval_millis: u64,
    pub adjust_pool_initial_delay_millis: u64,
    pub adjust_pool_interval_millis: u64,
    pub heartbeat_initial_delay_millis: u64,
    pub heartbeat_interval_millis: u64,
    pub persist_offset_initial_delay_millis: u64,
    pub persist_offset_interval_millis: u64,
    pub unit_name: Option<String>,
    pub enable_stream_request_type: bool,
}

impl Default for MQClientInstanceConfig {
    fn default() -> (r: MQClientInstanceConfig)
        ensures
            r == (MQClientInstanceConfig {
                connect_timeout_millis: 3000,
                invoke_timeout_millis: 15000,
                tls_enable: None,
                route_refresh_interval_millis: 30_000,
                namesrv_refresh_initial_delay_millis: 10_000,
                namesrv_refresh_interval_millis: 120_000,
                adjust_pool_initial_delay_millis: 60_000,
                adjust_pool_interval_millis: 60_000,
                heartbeat_initial_delay_millis: 2_000,
                heartbeat_interval_millis: 30_000,
                persist_offset_initial_delay_millis: 10_000,
                persist_offset_interval_millis: 5_000,
                unit_name: None,
                enable_stream_request_type: false,
            }),
    {
        MQClientInstanceConfig {
            connect_timeout_millis: 3000,
            invoke_timeout_millis: 15000,
            tls_enable: None,
            route_refresh_interval_millis: 30_000,
            namesrv_refresh_initial_delay_millis: 10_000,
            namesrv_refresh_interval_millis: 120_000,
            adjust_pool_initial_delay_millis: 60_000,
            adjust_pool_interval_millis: 60_000,
            heartbeat_initial_delay_millis: 2_000,
            heartbeat_interval_millis: 30_000,
            persist_offset_initial_delay_millis: 10_000,
            persist_offset_interval_millis: 5_000,
            unit_name: None,
            enable_stream_request_type: false,
        }
    }
}

/// How a pull consumer works.
#[derive(Debug, Clone)]
pub struct PullConsumerConfig {
    pub consumer_group: String,
    pub namespace: String,
    pub instance_name: String,
    pub client_id: Option<String>,
    pub name_server_addrs: Vec<String>,
    pub tls_enable: Option<bool>,
    pub message_model: String,
    pub broker_suspend_max_time_millis: i64,
    pub consumer_pull_timeout_millis: i64,
    pub consumer_timeout_millis_when_suspend: i64,
}

impl Default for PullConsumerConfig {
    fn default() -> (r: PullConsumerConfig)
        ensures
            r.consumer_group@ == DEFAULT_CONSUMER_GROUP@,
            r.namespace@.len() == 0,
            r.instance_name@ == DEFAULT_INSTANCE_NAME@,
            r.client_id is None,
            r.name_server_addrs@.len() == 0,
            r.tls_enable is None,
            r.message_model@ == CLUSTERING@,
            r.broker_suspend_max_time_millis == DEFAULT_BROKER_SUSPEND_MAX_TIME_MILLIS,
            r.consumer_pull_timeout_millis == DEFAULT_CONSUMER_PULL_TIMEOUT_MILLIS,
            r.consumer_timeout_millis_when_suspend == DEFAULT_CONSUMER_TIMEOUT_MILLIS_WHEN_SUSPEND,
    {
        PullConsumerConfig {
            consumer_group: DEFAULT_CONSUMER_GROUP.to_owned(),
            namespace: String::new(),
            instance_name: DEFAULT_INSTANCE_NAME.to_owned(),
            client_id: None,
            name_server_addrs: Vec::new(),
            tls_enable: None,
            message_model: CLUSTERING.to_owned(),
            broker_suspend_max_time_millis: DEFAULT_BROKER_SUSPEND_MAX_TIME_MILLIS,
            consumer_pull_timeout_millis: DEFAULT_CONSUMER_PULL_TIMEOUT_MILLIS,
            consumer_timeout_millis_when_suspend: DEFAULT_CONSUMER_TIMEOUT_MILLIS_WHEN_SUSPEND,
        }
    }
}

/// How a lite pull consumer works.
#[derive(Debug, Clone)]
pub struct LitePullConsumerConfig {
    pub consumer_group: String,
    pub namespace: String,
    pub instance_name: String,
    pub client_id: Option<String>,
    pub name_server_addrs: Vec<String>,
    pub tls_enable: Option<bool>,
    pub message_model: String,
    pub consume_from_where: String,
    pub consume_timestamp: String,
    pub pull_batch_size: i32,
    pub poll_timeout_millis: i64,
    pub auto_commit: bool,
    pub auto_commit_interval_millis: i64,
    pub consumer_timeout_millis_when_suspend: i64,
    pub broker_suspend_max_time_millis: i64,
    pub pull_interval_millis: i64,
    pub pull_thread_nums: i32,
}

/// A lite configuration that nothing was set of, but the time to begin at.
pub open spec fn lite_defaults(r: LitePullConsumerConfig) -> bool {
    &&& r.consumer_group@ == DEFAULT_CONSUMER_GROUP@
    &&& r.namespace@.len() == 0
    &&& r.instance_name@ == DEFAULT_INSTANCE_NAME@
    &&& r.client_id is None
    &&& r.name_server_addrs@.len() == 0
    &&& r.tls_enable is None
    &&& r.message_model@ == CLUSTERING@
    &&& r.consume_from_where@ == CONSUME_FROM_LAST_OFFSET@
    &&& r.pull_batch_size == 32
    &&& r.poll_timeout_millis == 5_000
    &&& r.auto_commit
    &&& r.auto_commit_interval_millis == 5_000
    &&& r.consumer_timeout_millis_when_suspend == DEFAULT_CONSUMER_TIMEOUT_MILLIS_WHEN_SUSPEND
    &&& r.broker_suspend_max_time_millis == DEFAULT_BROKER_SUSPEND_MAX_TIME_MILLIS
    &&& r.pull_interval_millis == 50
    &&& r.pull_thread_nums == 1
}

impl LitePullConsumerConfig {
    /// The defaults, with a given time to begin at.
    pub fn from_timestamp(consume_timestamp: String) -> (r: LitePullConsumerConfig)
        ensures
            lite_defaults(r),
            r.consume_timestamp == consume_timestamp,
    {
        LitePullConsumerConfig {
            consumer_group: DEFAULT_CONSUMER_GROUP.to_owned(),
            namespace: String::new(),
            instance_name: DEFAULT_INSTANCE_NAME.to_owned(),
            client_id: None,
            name_server_addrs: Vec::new(),
            tls_enable: None,
            message_model: CLUSTERING.to_owned(),
            consume_from_where: CONSUME_FROM_LAST_OFFSET.to_owned(),
            consume_timestamp,
            pull_batch_size: 32,
            poll_timeout_millis: 5_000,
            auto_commit: true,
            auto_commit_interval_millis: 5_000,
            consumer_timeout_millis_when_suspend: DEFAULT_CONSUMER_TIMEOUT_MILLIS_WHEN_SUSPEND,
            broker_suspend_max_time_millis: DEFAULT_BROKER_SUSPEND_MAX_TIME_MILLIS,
            pull_interval_millis: 50,
            pull_thread_nums: 1,
        }
    }
}

impl Default for LitePullConsumerConfig {
    /// The time to begin at is what the wall clock showed half an hour ago.
    fn default() -> (r: LitePullConsumerConfig)
        ensures
            lite_defaults(r),
            fourteen_digits(r.consume_timestamp@) || (r.consume_timestamp@.len() > 14 && r.consume_timestamp@[0]
                == '+'),
            shown_before(r.consume_timestamp@, DEFAULT_BACK_MILLIS),
    {
        LitePullConsumerConfig::from_timestamp(default_consume_timestamp())
    }
}

/// The text switches something on: `1`, `true`, `yes` or `on`, in any case.
pub open spec fn switched_on(s: Seq<char>) -> bool {
    let low = lowered(trimmed(s));
    low == "1"@ || low == "true"@ || low == "yes"@ || low == "on"@
}

/// Whether the text of an environment variable switches TLS on; an unset one is empty.
pub fn default_tls_enable(text: &str) -> (r: bool)
    ensures
        r == switched_on(text@),
{
    let t = trim(text);
    let s = t.as_str();
    same_small(s, "1") || same_small(s, "true") || same_small(s, "yes") || same_small(s, "on")
}

} // verus!

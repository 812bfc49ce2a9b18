//! The headers of requests and responses, as plain values.
use vstd::prelude::*;

verus! {

/// The head of an answer: its code and the remark that goes with it.
#[derive(Debug)]
pub struct ResponseHead {
    pub code: i32,
    pub remark: Option<String>,
}

#[derive(Debug, Default)]
pub struct SendMessageRequestHeaderV2 {
    pub producer_group: Option<String>,
    pub topic: Option<String>,
    pub default_topic: Option<String>,
    pub default_topic_queue_nums: Option<i32>,
    pub queue_id: Option<i32>,
    pub sys_flag: Option<i32>,
    pub born_timestamp: Option<i64>,
    pub flag: Option<i32>,
    pub properties: Option<String>,
    pub reconsume_times: Option<i32>,
    pub unit_mode: Option<bool>,
    pub max_reconsume_times: Option<i32>,
    pub batch: Option<bool>,
    pub broker_name: Option<String>,
}

#[derive(Debug, Default)]
pub struct SendMessageResponseHeader {
    pub msg_id: Option<String>,
    pub queue_id: Option<i32>,
    pub queue_offset: Option<i64>,
    pub transaction_id: Option<String>,
    pub batch_uniq_id: Option<String>,
    pub recall_handle: Option<String>,
}

#[derive(Debug, Default)]
pub struct PullMessageRequestHeader {
    pub consumer_group: Option<String>,
    pub topic: Option<String>,
    pub queue_id: Option<i32>,
    pub queue_offset: Option<i64>,
    pub max_msg_nums: Option<i32>,
    pub sys_flag: Option<i32>,
    pub commit_offset: Option<i64>,
    pub suspend_timeout_millis: Option<i64>,
    pub subscription: Option<String>,
    pub sub_version: Option<i64>,
    pub expression_type: Option<String>,
    pub max_msg_bytes: Option<i32>,
    pub request_source: Option<i32>,
}

#[derive(Debug, Default)]
pub struct PullMessageResponseHeader {
    pub next_begin_offset: Option<i64>,
    pub min_offset: Option<i64>,
    pub max_offset: Option<i64>,
}

#[derive(Debug, Default)]
pub struct PopMessageRequestHeader {
    pub consumer_group: Option<String>,
    pub topic: Option<String>,
    pub queue_id: Option<i32>,
    pub max_msg_nums: Option<i32>,
    pub invisible_time: Option<i64>,
    pub poll_time: Option<i64>,
    pub born_time: Option<i64>,
    pub init_mode: Option<i32>,
    pub exp_type: Option<String>,
    pub exp: Option<String>,
    pub order: bool,
}

#[derive(Debug, Default)]
pub struct PopMessageResponseHeader {
    pub pop_time: Option<i64>,
    pub invisible_time: Option<i64>,
    pub revive_qid: Option<i32>,
    pub rest_num: Option<i64>,
    pub start_offset_info: Option<String>,
    pub msg_offset_info: Option<String>,
    pub order_count_info: Option<String>,
}

#[derive(Debug, Default)]
pub struct AckMessageRequestHeader {
    pub consumer_group: Option<String>,
    pub topic: Option<String>,
    pub queue_id: Option<i32>,
    pub extra_info: Option<String>,
    pub offset: Option<i64>,
}

#[derive(Debug, Default)]
pub struct ChangeInvisibleTimeRequestHeader {
    pub consumer_group: Option<String>,
    pub topic: Option<String>,
    pub queue_id: Option<i32>,
    pub extra_info: Option<String>,
    pub offset: Option<i64>,
    pub invisible_time: Option<i64>,
    pub suspend: bool,
}

#[derive(Debug, Default)]
pub struct ChangeInvisibleTimeResponseHeader {
    pub pop_time: Option<i64>,
    pub invisible_time: Option<i64>,
    pub revive_qid: Option<i32>,
}

#[derive(Debug, Default)]
pub struct ConsumerSendMsgBackRequestHeader {
    pub offset: Option<i64>,
    pub group: Option<String>,
    pub delay_level: Option<i32>,
    pub origin_msg_id: Option<String>,
    pub origin_topic: Option<String>,
    pub unit_mode: Option<bool>,
    pub max_reconsume_times: Option<i32>,
}

#[derive(Debug, Default)]
pub struct QueryMessageRequestHeader {
    pub topic: Option<String>,
    pub key: Option<String>,
    pub max_num: Option<i32>,
    pub begin_timestamp: Option<i64>,
    pub end_timestamp: Option<i64>,
    pub index_type: Option<String>,
}

#[derive(Debug, Default)]
pub struct ReplyMessageRequestHeader {
    pub topic: Option<String>,
    pub queue_id: Option<i32>,
    pub sys_flag: Option<i32>,
    pub born_timestamp: Option<i64>,
    pub flag: Option<i32>,
    pub properties: Option<String>,
    pub reconsume_times: Option<i32>,
    pub born_host: Option<String>,
    pub store_host: Option<String>,
    pub store_timestamp: Option<i64>,
}

#[derive(Debug, Default)]
pub struct EndTransactionRequestHeader {
    pub topic: Option<String>,
    pub producer_group: Option<String>,
    pub tran_state_table_offset: Option<i64>,
    pub commit_log_offset: Option<i64>,
    pub commit_or_rollback: Option<i32>,
    pub from_transaction_check: Option<bool>,
    pub msg_id: Option<String>,
    pub transaction_id: Option<String>,
    pub broker_name: Option<String>,
}

#[derive(Debug, Default)]
pub struct CheckTransactionStateRequestHeader {
    pub topic: Option<String>,
    pub tran_state_table_offset: Option<i64>,
    pub commit_log_offset: Option<i64>,
    pub msg_id: Option<String>,
    pub transaction_id: Option<String>,
    pub offset_msg_id: Option<String>,
    pub broker_name: Option<String>,
}

#[derive(Debug, Default)]
pub struct CreateTopicRequestHeader {
    pub topic: Option<String>,
    pub default_topic: Option<String>,
    pub read_queue_nums: Option<i32>,
    pub write_queue_nums: Option<i32>,
    pub perm: Option<i32>,
    pub topic_filter_type: Option<String>,
    pub topic_sys_flag: Option<i32>,
    pub order: Option<bool>,
    pub attributes: Option<String>,
    pub force: Option<bool>,
}

#[derive(Debug, Default)]
pub struct UnregisterClientRequestHeader {
    pub client_id: Option<String>,
    pub producer_group: Option<String>,
    pub consumer_group: Option<String>,
}

#[derive(Debug, Default)]
pub struct RecallMessageRequestHeader {
    pub producer_group: Option<String>,
    pub topic: Option<String>,
    pub recall_handle: Option<String>,
    pub broker_name: Option<String>,
}

} // verus!

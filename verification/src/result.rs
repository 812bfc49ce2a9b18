//! What the client's operations give back.
use vstd::prelude::*;

use crate::message::{copy_opt, MessageExt, MessageQueue};

verus! {

/// How well a broker stored a message.
#[derive(Debug, Clone, Copy, PartialEq, Eq, Structural)]
pub enum SendStatus {
    SendOk,
    FlushDiskTimeout,
    FlushSlaveTimeout,
    SlaveNotAvailable,
}

/// What a broker says of a message that it took.
#[derive(Debug)]
pub struct SendResult {
    pub status: SendStatus,
    pub msg_id: Option<String>,
    pub message_queue: Option<MessageQueue>,
    pub queue_offset: i64,
    pub transaction_id: Option<String>,
    pub offset_msg_id: Option<String>,
    pub recall_handle: Option<String>,
    pub region_id: Option<String>,
    pub trace_on: bool,
}

impl Clone for SendResult {
    fn clone(&self) -> (r: SendResult)
        ensures
            r == *self,
    {
        SendResult {
            status: self.status,
            msg_id: copy_opt(&self.msg_id),
            message_queue: match &self.message_queue {
                Some(mq) => Some(mq.clone()),
                None => None,
            },
            queue_offset: self.queue_offset,
            transaction_id: copy_opt(&self.transaction_id),
            offset_msg_id: copy_opt(&self.offset_msg_id),
            recall_handle: copy_opt(&self.recall_handle),
            region_id: copy_opt(&self.region_id),
            trace_on: self.trace_on,
        }
    }
}

impl Default for SendResult {
    fn default() -> (r: SendResult)
        ensures
            r == (SendResult {
                status: SendStatus::SendOk,
                msg_id: None,
                message_queue: None,
                queue_offset: 0,
                transaction_id: None,
                offset_msg_id: None,
                recall_handle: None,
                region_id: None,
                trace_on: false,
            }),
    {
        SendResult {
            status: SendStatus::SendOk,
            msg_id: None,
            message_queue: None,
            queue_offset: 0,
            transaction_id: None,
            offset_msg_id: None,
            recall_handle: None,
            region_id: None,
            trace_on: false,
        }
    }
}

/// What the sender of a transactional message did about it.
#[derive(Debug, Clone, Copy, PartialEq, Eq, Structural)]
pub enum LocalTransactionState {
    CommitMessage,
    RollbackMessage,
    Unknow,
}

/// What a transactional send gave.
#[derive(Debug)]
pub struct TransactionSendResult {
    pub local_transaction_state: Option<LocalTransactionState>,
    pub inner: SendResult,
}

/// How a pull ended.
#[derive(Debug, Clone, Copy, PartialEq, Eq, Structural)]
pub enum PullStatus {
    Found,
    NoNewMsg,
    NoMatchedMsg,
    OffsetIllegal,
}

/// What a pull gave.
#[derive(Debug)]
pub struct PullResult {
    pub status: PullStatus,
    pub next_begin_offset: i64,
    pub min_offset: i64,
    pub max_offset: i64,
    pub msg_found_list: Vec<MessageExt>,
}

/// How a pop ended.
#[derive(Debug, Clone, Copy, PartialEq, Eq, Structural)]
pub enum PopStatus {
    Found,
    PollingFull,
    PollingNotFound,
}

/// What a pop gave.
#[derive(Debug)]
pub struct PopResult {
    pub status: PopStatus,
    pub msg_found_list: Vec<MessageExt>,
    pub rest_num: i64,
    pub pop_time: i64,
    pub invisible_time: i64,
    pub revive_qid: i32,
    pub start_offset_info: Option<String>,
    pub msg_offset_info: Option<String>,
    pub order_count_info: Option<String>,
}

/// What a change of a message's invisible time gave.
#[derive(Debug)]
pub struct ChangeInvisibleTimeResult {
    pub response_code: i32,
    pub pop_time: i64,
    pub invisible_time: i64,
    pub revive_qid: i32,
    pub extra_info: Option<String>,
    pub success: bool,
}

} // verus!

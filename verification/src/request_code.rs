//! Request codes of the remoting protocol.
use vstd::prelude::*;

verus! {

pub const PULL_MESSAGE: i32 = 11;

pub const QUERY_MESSAGE: i32 = 12;

pub const QUERY_CONSUMER_OFFSET: i32 = 14;

pub const UPDATE_CONSUMER_OFFSET: i32 = 15;

pub const UPDATE_AND_CREATE_TOPIC: i32 = 17;

pub const SEARCH_OFFSET_BY_TIMESTAMP: i32 = 29;

pub const GET_MAX_OFFSET: i32 = 30;

pub const GET_MIN_OFFSET: i32 = 31;

pub const GET_EARLIEST_MSG_STORETIME: i32 = 32;

pub const HEART_BEAT: i32 = 34;

pub const UNREGISTER_CLIENT: i32 = 35;

pub const CONSUMER_SEND_MSG_BACK: i32 = 36;

pub const END_TRANSACTION: i32 = 37;

pub const GET_CONSUMER_LIST_BY_GROUP: i32 = 38;

pub const CHECK_TRANSACTION_STATE: i32 = 39;

pub const NOTIFY_CONSUMER_IDS_CHANGED: i32 = 40;

pub const LOCK_BATCH_MQ: i32 = 41;

pub const UNLOCK_BATCH_MQ: i32 = 42;

pub const CHECK_CLIENT_CONFIG: i32 = 46;

pub const GET_ROUTEINFO_BY_TOPIC: i32 = 105;

pub const GET_BROKER_CLUSTER_INFO: i32 = 106;

pub const GET_ALL_TOPIC_LIST_FROM_NAMESERVER: i32 = 206;

pub const DELETE_TOPIC_IN_BROKER: i32 = 215;

pub const DELETE_TOPIC_IN_NAMESRV: i32 = 216;

pub const RESET_CONSUMER_CLIENT_OFFSET: i32 = 220;

pub const GET_CONSUMER_STATUS_FROM_CLIENT: i32 = 221;

pub const GET_CONSUMER_RUNNING_INFO: i32 = 307;

pub const CONSUME_MESSAGE_DIRECTLY: i32 = 309;

pub const SEND_MESSAGE_V2: i32 = 310;

pub const SEND_BATCH_MESSAGE: i32 = 320;

pub const SEND_REPLY_MESSAGE_V2: i32 = 325;

pub const PUSH_REPLY_MESSAGE_TO_CLIENT: i32 = 326;

pub const RECALL_MESSAGE: i32 = 370;

pub const POP_MESSAGE: i32 = 200050;

pub const ACK_MESSAGE: i32 = 200051;

pub const CHANGE_MESSAGE_INVISIBLETIME: i32 = 200053;

} // verus!

//! Response codes of the remoting protocol.
use vstd::prelude::*;

verus! {

pub const SUCCESS: i32 = 0;

pub const SYSTEM_ERROR: i32 = 1;

pub const SYSTEM_BUSY: i32 = 2;

pub const FLUSH_DISK_TIMEOUT: i32 = 10;

pub const SLAVE_NOT_AVAILABLE: i32 = 11;

pub const FLUSH_SLAVE_TIMEOUT: i32 = 12;

pub const MESSAGE_ILLEGAL: i32 = 13;

pub const SERVICE_NOT_AVAILABLE: i32 = 14;

pub const NO_PERMISSION: i32 = 16;

pub const TOPIC_NOT_EXIST: i32 = 17;

pub const PULL_NOT_FOUND: i32 = 19;

pub const PULL_RETRY_IMMEDIATELY: i32 = 20;

pub const PULL_OFFSET_MOVED: i32 = 21;

pub const QUERY_NOT_FOUND: i32 = 22;

pub const SUBSCRIPTION_PARSE_FAILED: i32 = 23;

pub const NO_BUYER_ID: i32 = 204;

pub const NOT_IN_CURRENT_UNIT: i32 = 205;

pub const POLLING_FULL: i32 = 209;

pub const POLLING_TIMEOUT: i32 = 210;

pub const GO_AWAY: i32 = 1500;

} // verus!

//! Codes of failures that the client itself detects.
use vstd::prelude::*;

verus! {

pub const CONNECT_BROKER_EXCEPTION: i32 = 10001;

pub const ACCESS_BROKER_TIMEOUT: i32 = 10002;

pub const BROKER_NOT_EXIST_EXCEPTION: i32 = 10003;

pub const NO_NAME_SERVER_EXCEPTION: i32 = 10004;

pub const NOT_FOUND_TOPIC_EXCEPTION: i32 = 10005;

} // verus!

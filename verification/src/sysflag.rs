//! Flag words of messages and of pull requests.
use vstd::prelude::*;

verus! {

/// The body is compressed.
pub const COMPRESSED_FLAG: i32 = 1;

pub const TRANSACTION_NOT_TYPE: i32 = 0;

pub const TRANSACTION_PREPARED_TYPE: i32 = 4;

pub const TRANSACTION_COMMIT_TYPE: i32 = 8;

pub const TRANSACTION_ROLLBACK_TYPE: i32 = 12;

pub const LZ4_TYPE: i32 = 1;

pub const ZSTD_TYPE: i32 = 2;

pub const ZLIB_TYPE: i32 = 3;

/// Whether the body is compressed.
pub fn is_compressed(flag: i32) -> (r: bool)
    ensures
        r == (flag & 1 == 1),
{
    flag & COMPRESSED_FLAG == COMPRESSED_FLAG
}

/// The number of the compression in bits 8 to 10 of a flag word.
pub open spec fn compression_bits(flag: i32) -> i32 {
    (flag >> 8u32) & 7
}

/// Puts the number of a compression into a flag word.
pub fn set_compression_type(flag: i32, kind: i32) -> (r: i32)
    requires
        0 <= kind <= 7,
    ensures
        r == flag | (kind << 8u32),
        compression_bits(flag) == 0 ==> compression_bits(r) == kind,
        r & 1 == flag & 1,
{
    proof {
        assert(((flag >> 8u32) & 7 == 0) ==> ((flag | (kind << 8u32)) >> 8u32) & 7 == kind)
            by (bit_vector)
            requires
                0 <= kind <= 7,
        ;
        assert((flag | (kind << 8u32)) & 1 == flag & 1) by (bit_vector)
            requires
                0 <= kind <= 7,
        ;
    }
    flag | (kind << 8u32)
}

/// The number of the compression of a flag word; a word without one means zlib.
pub fn get_compression_type(flag: i32) -> (r: i32)
    ensures
        r == if compression_bits(flag) == 0 {
            ZLIB_TYPE
        } else {
            compression_bits(flag)
        },
{
    let bits: i32 = (flag >> 8u32) & 7;
    if bits == 0 {
        ZLIB_TYPE
    } else {
        bits
    }
}

/// A flag word with its transaction bits replaced.
pub fn reset_transaction_value(flag: i32, kind: i32) -> (r: i32)
    ensures
        r == (flag & !12i32) | kind,
{
    (flag & !TRANSACTION_ROLLBACK_TYPE) | kind
}

pub const FLAG_COMMIT_OFFSET: i32 = 1;

pub const FLAG_SUSPEND: i32 = 2;

pub const FLAG_SUBSCRIPTION: i32 = 4;

pub const FLAG_CLASS_FILTER: i32 = 8;

/// `n` where `on`, else 0.
pub open spec fn bit(on: bool, n: int) -> int {
    if on {
        n
    } else {
        0
    }
}

/// The flag word of a pull request.
pub fn build_sys_flag_basic(commit_offset: bool, suspend: bool, subscription: bool, class_filter: bool) -> (r: i32)
    ensures
        r == bit(commit_offset, 1) + bit(suspend, 2) + bit(subscription, 4) + bit(class_filter, 8),
{
    let mut flag: i32 = 0;
    if commit_offset {
        flag = flag + FLAG_COMMIT_OFFSET;
    }
    if suspend {
        flag = flag + FLAG_SUSPEND;
    }
    if subscription {
        flag = flag + FLAG_SUBSCRIPTION;
    }
    if class_filter {
        flag = flag + FLAG_CLASS_FILTER;
    }
    flag
}

pub fn has_commit_offset_flag(flag: i32) -> (r: bool)
    ensures
        r == (flag & 1 == 1),
{
    flag & FLAG_COMMIT_OFFSET == FLAG_COMMIT_OFFSET
}

pub fn has_suspend_flag(flag: i32) -> (r: bool)
    ensures
        r == (flag & 2 == 2),
{
    flag & FLAG_SUSPEND == FLAG_SUSPEND
}

pub fn has_subscription_flag(flag: i32) -> (r: bool)
    ensures
        r == (flag & 4 == 4),
{
    flag & FLAG_SUBSCRIPTION == FLAG_SUBSCRIPTION
}

pub fn has_class_filter_flag(flag: i32) -> (r: bool)
    ensures
        r == (flag & 8 == 8),
{
    flag & FLAG_CLASS_FILTER == FLAG_CLASS_FILTER
}

/// Each choice that a flag word is built with can be read from it again.
pub proof fn law_flags_read_back(c: bool, s: bool, b: bool, f: bool, flag: i32)
    requires
        flag == bit(c, 1) + bit(s, 2) + bit(b, 4) + bit(f, 8),
    ensures
        (flag & 1 == 1) == c,
        (flag & 2 == 2) == s,
        (flag & 4 == 4) == b,
        (flag & 8 == 8) == f,
{
    let n1: i32 = if c { 1 } else { 0 };
    let n2: i32 = if s { 2 } else { 0 };
    let n4: i32 = if b { 4 } else { 0 };
    let n8: i32 = if f { 8 } else { 0 };
    assert((flag & 1 == 1) == c && (flag & 2 == 2) == s && (flag & 4 == 4) == b && (flag & 8 == 8) == f)
        by (bit_vector)
        requires
            flag == n1 + n2 + n4 + n8,
            n1 == (if c { 1i32 } else { 0i32 }),
            n2 == (if s { 2i32 } else { 0i32 }),
            n4 == (if b { 4i32 } else { 0i32 }),
            n8 == (if f { 8i32 } else { 0i32 }),
    ;
}

/// The number of a compression that is put into a flag word is read from it again, where it is one
/// and the word had none; whether the body is compressed stays.
pub proof fn law_compression_reads_back(flag: i32, kind: i32, with: i32, back: i32, before: bool, after: bool, bare: i32)
    requires
        1 <= kind <= 7,
        compression_bits(flag) == 0,
        call_ensures(set_compression_type, (flag, kind), with),
        call_ensures(get_compression_type, (with,), back),
        call_ensures(is_compressed, (flag,), before),
        call_ensures(is_compressed, (with,), after),
        call_ensures(get_compression_type, (flag,), bare),
    ensures
        back == kind,
        before == after,
        bare == 3,
{
}

/// A flag word says that a body is compressed by its lowest bit.
pub proof fn law_lowest_bit_is_compression(flag: i32, r: bool)
    requires
        call_ensures(is_compressed, (flag,), r),
    ensures
        r == (flag % 2 != 0),
{
    assert((flag & 1 == 1) == (flag % 2 != 0)) by (bit_vector);
}

/// Setting the transaction bits of a flag word leaves its other bits.
pub proof fn law_transaction_bits_are_set(flag: i32, kind: i32, r: i32)
    requires
        kind == 0 || kind == 4 || kind == 8 || kind == 12,
        call_ensures(reset_transaction_value, (flag, kind), r),
    ensures
        r & 12 == kind,
        r & !12i32 == flag & !12i32,
{
    assert(((flag & !12i32) | kind) & 12 == kind) by (bit_vector)
        requires
            kind == 0 || kind == 4 || kind == 8 || kind == 12,
    ;
    assert(((flag & !12i32) | kind) & !12i32 == flag & !12i32) by (bit_vector)
        requires
            kind == 0 || kind == 4 || kind == 8 || kind == 12,
    ;
}

/// What a flag word of a pull is built with is what is read from it, choice by choice.
pub proof fn law_pull_flags_read_back(
    c: bool,
    s: bool,
    b: bool,
    f: bool,
    flag: i32,
    rc: bool,
    rs: bool,
    rb: bool,
    rf: bool,
)
    requires
        call_ensures(build_sys_flag_basic, (c, s, b, f), flag),
        call_ensures(has_commit_offset_flag, (flag,), rc),
        call_ensures(has_suspend_flag, (flag,), rs),
        call_ensures(has_subscription_flag, (flag,), rb),
        call_ensures(has_class_filter_flag, (flag,), rf),
    ensures
        rc == c && rs == s && rb == b && rf == f,
        0 <= flag < 16,
        c && !s && !b && !f ==> flag == 1,
        s && !c && !b && !f ==> flag == 2,
        b && !c && !s && !f ==> flag == 4,
{
    law_flags_read_back(c, s, b, f, flag);
}

} // verus!

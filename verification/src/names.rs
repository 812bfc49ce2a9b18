//! Names of topics and groups: prefixes, namespaces and what a name may be.
use vstd::prelude::*;

use crate::error::{error_code, error_text, is_client, Error};
use crate::message::{body_bytes, prop, Message, PROPERTY_INNER_MULTI_DISPATCH};
use crate::response_code;
use crate::text::{begins_with, chars_of, code, decimal, has_part, holds, int_text, same, starts, trim, trimmed};

verus! {

pub const DEFAULT_TOPIC: &'static str = "TBW102";

pub const DEFAULT_TOPIC_QUEUE_NUMS: i32 = 4;

pub const DEFAULT_PRODUCER_GROUP: &'static str = "DEFAULT_PRODUCER";

pub const DEFAULT_CONSUMER_GROUP: &'static str = "DEFAULT_CONSUMER";

pub const DEFAULT_INSTANCE_NAME: &'static str = "DEFAULT";

pub const DEFAULT_TRACE_REGION_ID: &'static str = "DefaultRegion";

pub const RETRY_PREFIX: &'static str = "%RETRY%";

pub const DLQ_PREFIX: &'static str = "%DLQ%";

pub const NAMESPACE_SEPARATOR: &'static str = "%";

/// The longest name of a topic.
pub const TOPIC_MAX_LENGTH: usize = 127;

/// The longest name of a group.
pub const GROUP_MAX_LENGTH: usize = 120;

/// Nothing but white space.
pub open spec fn blank(s: Seq<char>) -> bool {
    trimmed(s).len() == 0
}

pub fn is_blank(s: &str) -> (r: bool)
    ensures
        r == blank(s@),
{
    trim(s).as_str().is_empty()
}

/// Topics that a consumer's failed messages go to.
pub fn is_retry_topic(topic: &str) -> (r: bool)
    ensures
        r == begins_with(topic@, RETRY_PREFIX@),
{
    starts(topic, RETRY_PREFIX)
}

/// Topics that messages go to which nobody could consume.
pub fn is_dlq_topic(topic: &str) -> (r: bool)
    ensures
        r == begins_with(topic@, DLQ_PREFIX@),
{
    starts(topic, DLQ_PREFIX)
}

/// Topics of the system itself.
pub open spec fn system_topic(t: Seq<char>) -> bool {
    ||| t == "TBW102"@
    ||| t == "SCHEDULE_TOPIC_XXXX"@
    ||| t == "BenchmarkTest"@
    ||| t == "RMQ_SYS_TRANS_HALF_TOPIC"@
    ||| t == "RMQ_SYS_TRACE_TOPIC"@
    ||| t == "RMQ_SYS_TRANS_OP_HALF_TOPIC"@
    ||| t == "TRANS_CHECK_MAX_TIME_TOPIC"@
    ||| t == "SELF_TEST_TOPIC"@
    ||| t == "OFFSET_MOVED_EVENT"@
    ||| begins_with(t, "rmq_sys_"@)
}

pub fn is_system_topic(t: &str) -> (r: bool)
    ensures
        r == system_topic(t@),
{
    same(t, "TBW102") || same(t, "SCHEDULE_TOPIC_XXXX") || same(t, "BenchmarkTest") || same(
        t,
        "RMQ_SYS_TRANS_HALF_TOPIC",
    ) || same(t, "RMQ_SYS_TRACE_TOPIC") || same(t, "RMQ_SYS_TRANS_OP_HALF_TOPIC") || same(
        t,
        "TRANS_CHECK_MAX_TIME_TOPIC",
    ) || same(t, "SELF_TEST_TOPIC") || same(t, "OFFSET_MOVED_EVENT") || starts(t, "rmq_sys_")
}

/// System topics that clients may not send to.
pub open spec fn forbidden_topic(t: Seq<char>) -> bool {
    ||| t == "SCHEDULE_TOPIC_XXXX"@
    ||| t == "RMQ_SYS_TRANS_HALF_TOPIC"@
    ||| t == "RMQ_SYS_TRANS_OP_HALF_TOPIC"@
    ||| t == "TRANS_CHECK_MAX_TIME_TOPIC"@
    ||| t == "SELF_TEST_TOPIC"@
    ||| t == "OFFSET_MOVED_EVENT"@
}

fn is_forbidden_topic(t: &str) -> (r: bool)
    ensures
        r == forbidden_topic(t@),
{
    same(t, "SCHEDULE_TOPIC_XXXX") || same(t, "RMQ_SYS_TRANS_HALF_TOPIC") || same(
        t,
        "RMQ_SYS_TRANS_OP_HALF_TOPIC",
    ) || same(t, "TRANS_CHECK_MAX_TIME_TOPIC") || same(t, "SELF_TEST_TOPIC") || same(
        t,
        "OFFSET_MOVED_EVENT",
    )
}

/// A name without the prefix of a retry or dead-letter topic.
pub open spec fn bare(name: Seq<char>) -> Seq<char> {
    if begins_with(name, RETRY_PREFIX@) {
        name.subrange(RETRY_PREFIX@.len() as int, name.len() as int)
    } else if begins_with(name, DLQ_PREFIX@) {
        name.subrange(DLQ_PREFIX@.len() as int, name.len() as int)
    } else {
        name
    }
}

/// The prefix that `bare` takes off.
pub open spec fn prefix(name: Seq<char>) -> Seq<char> {
    if begins_with(name, RETRY_PREFIX@) {
        RETRY_PREFIX@
    } else if begins_with(name, DLQ_PREFIX@) {
        DLQ_PREFIX@
    } else {
        Seq::empty()
    }
}

/// `name` inside `namespace`: the namespace and its separator before the bare name, behind
/// the prefix. System topics, blank names, and names that are inside already stay as they
/// are; so does every name where the namespace is blank.
pub open spec fn wrapped(namespace: Seq<char>, name: Seq<char>) -> Seq<char> {
    if blank(namespace) || blank(name) || system_topic(name) || begins_with(
        bare(name),
        namespace + NAMESPACE_SEPARATOR@,
    ) {
        name
    } else {
        prefix(name) + namespace + NAMESPACE_SEPARATOR@ + bare(name)
    }
}

pub fn wrap_namespace(namespace: &str, name: &str) -> (r: String)
    ensures
        r@ == wrapped(namespace@, name@),
{
    if is_blank(namespace) || is_blank(name) || is_system_topic(name) {
        return name.to_owned();
    }
    let mut from: usize = 0;
    let mut lead = String::new();
    if is_retry_topic(name) {
        from = RETRY_PREFIX.unicode_len();
        lead = RETRY_PREFIX.to_owned();
    } else if is_dlq_topic(name) {
        from = DLQ_PREFIX.unicode_len();
        lead = DLQ_PREFIX.to_owned();
    }
    let rest = name.substring_char(from, name.unicode_len());
    assert(rest@ =~= bare(name@));
    let inside = namespace.to_owned().concat(NAMESPACE_SEPARATOR);
    if starts(rest, inside.as_str()) {
        return name.to_owned();
    }
    lead.concat(namespace).concat(NAMESPACE_SEPARATOR).concat(rest)
}

/// A topic inside a namespace; without a namespace, the topic as it is.
pub open spec fn in_namespace(namespace: Seq<char>, topic: Seq<char>) -> Seq<char> {
    if namespace.len() == 0 {
        topic
    } else {
        wrapped(namespace, topic)
    }
}

pub fn with_namespace(namespace: &str, topic: &str) -> (r: String)
    ensures
        r@ == in_namespace(namespace@, topic@),
{
    if namespace.is_empty() {
        topic.to_owned()
    } else {
        wrap_namespace(namespace, topic)
    }
}

/// A name that is put into a namespace twice is the name that is put into it once. (A
/// namespace that begins like a retry or dead-letter prefix is left out: its own beginning
/// would be taken for that prefix.)
pub proof fn law_wrap_once(namespace: Seq<char>, name: Seq<char>)
    requires
        !begins_with(namespace + NAMESPACE_SEPARATOR@, RETRY_PREFIX@),
        !begins_with(namespace + NAMESPACE_SEPARATOR@, DLQ_PREFIX@),
    ensures
        in_namespace(namespace, in_namespace(namespace, name)) == in_namespace(namespace, name),
{
    reveal_strlit("%RETRY%");
    reveal_strlit("%DLQ%");
    reveal_strlit("%");
    let once = wrapped(namespace, name);
    let inside = namespace + NAMESPACE_SEPARATOR@;
    if namespace.len() > 0 && once != name {
        let p = prefix(name);
        let b = bare(name);
        assert(once =~= p + (inside + b));
        let tail = inside + b;
        // The wrapped name has the prefix of the name, and no other.
        if p.len() == 0 {
            assert(once =~= tail);
            lemma_no_false_prefix(namespace, b, RETRY_PREFIX@);
            lemma_no_false_prefix(namespace, b, DLQ_PREFIX@);
            assert(bare(once) == tail);
        } else {
            assert(once.subrange(0, p.len() as int) =~= p);
            assert(once.subrange(p.len() as int, once.len() as int) =~= tail);
            if p == DLQ_PREFIX@ {
                assert(once[1] == 'D');
                if begins_with(once, RETRY_PREFIX@) {
                    assert(once.subrange(0, RETRY_PREFIX@.len() as int)[1] == 'R');
                }
            }
            assert(bare(once) == tail);
        }
        assert(tail.subrange(0, inside.len() as int) =~= inside);
        assert(begins_with(bare(once), inside));
    }
}

/// A separator ends a namespace: only the namespace itself can look like a prefix.
proof fn lemma_no_false_prefix(namespace: Seq<char>, rest: Seq<char>, p: Seq<char>)
    requires
        p == RETRY_PREFIX@ || p == DLQ_PREFIX@,
        namespace.len() > 0,
        !begins_with(namespace + NAMESPACE_SEPARATOR@, p),
    ensures
        !begins_with(namespace + NAMESPACE_SEPARATOR@ + rest, p),
{
    reveal_strlit("%RETRY%");
    reveal_strlit("%DLQ%");
    reveal_strlit("%");
    let inside = namespace + NAMESPACE_SEPARATOR@;
    let whole = inside + rest;
    if begins_with(whole, p) {
        let head = whole.subrange(0, p.len() as int);
        if inside.len() >= p.len() {
            assert(inside.subrange(0, p.len() as int) =~= head);
        } else {
            // The separator falls on a character of `p` that is neither its first nor its
            // last, and those are no separators.
            let k = namespace.len() as int;
            assert(whole[k] == '%');
            assert(head[k] == p[k]);
            assert(p[k] != '%');
        }
    }
}

/// Characters that names may hold.
pub open spec fn name_char(c: char) -> bool {
    let n = c as int;
    ||| n == 0x25
    ||| n == 0x7c
    ||| n == 0x2d
    ||| n == 0x5f
    ||| 0x30 <= n <= 0x39
    ||| 0x41 <= n <= 0x5a
    ||| 0x61 <= n <= 0x7a
}

pub open spec fn name_chars(s: Seq<char>) -> bool {
    forall|i: int| 0 <= i < s.len() ==> name_char(#[trigger] s[i])
}

fn has_name_chars(s: &str) -> (r: bool)
    ensures
        r == name_chars(s@),
{
    let cs = chars_of(s);
    let mut i: usize = 0;
    while i < cs.len()
        invariant
            i <= cs.len(),
            cs@ == s@,
            forall|j: int| 0 <= j < i ==> name_char(#[trigger] s@[j]),
        decreases cs.len() - i,
    {
        let n: u32 = code(cs[i]);
        if !(n == 0x25 || n == 0x7c || n == 0x2d || n == 0x5f || (0x30 <= n && n <= 0x39) || (0x41 <= n
            && n <= 0x5a) || (0x61 <= n && n <= 0x7a)) {
            assert(!name_char(s@[i as int]));
            return false;
        }
        i = i + 1;
    }
    true
}

/// Why a name of a topic is refused; `None` where it is fine.
pub open spec fn topic_fault(topic: Seq<char>) -> Option<Seq<char>> {
    if blank(topic) {
        Some("The specified topic is blank"@)
    } else if topic.len() > TOPIC_MAX_LENGTH {
        Some("The specified topic is longer than topic max length "@ + decimal(TOPIC_MAX_LENGTH as int) + "."@)
    } else if !name_chars(topic) {
        Some(
            "The specified topic["@ + topic
                + "] contains illegal characters, allowing only ^[%|a-zA-Z0-9_-]+$"@,
        )
    } else {
        None
    }
}

pub fn check_topic(topic: &str) -> (r: Result<(), Error>)
    ensures
        match topic_fault(topic@) {
            None => r is Ok,
            Some(text) => r matches Err(e) && is_client(e, None, text),
        },
{
    if is_blank(topic) {
        return Err(Error::client("The specified topic is blank"));
    }
    if topic.unicode_len() > TOPIC_MAX_LENGTH {
        return Err(
            Error::client(
                "The specified topic is longer than topic max length ".to_owned().concat(
                    int_text(TOPIC_MAX_LENGTH as i64).as_str(),
                ).concat(".").as_str(),
            ),
        );
    }
    if !has_name_chars(topic) {
        return Err(
            Error::client(
                "The specified topic[".to_owned().concat(topic).concat(
                    "] contains illegal characters, allowing only ^[%|a-zA-Z0-9_-]+$",
                ).as_str(),
            ),
        );
    }
    Ok(())
}

/// Why a name of a group is refused; `None` where it is fine.
pub open spec fn group_fault(group: Seq<char>) -> Option<Seq<char>> {
    if blank(group) {
        Some("the specified group is blank"@)
    } else if group.len() > GROUP_MAX_LENGTH {
        Some("the specified group is longer than group max length "@ + decimal(GROUP_MAX_LENGTH as int) + "."@)
    } else if !name_chars(group) {
        Some(
            "the specified group["@ + group
                + "] contains illegal characters, allowing only ^[%|a-zA-Z0-9_-]+$"@,
        )
    } else {
        None
    }
}

pub fn check_group(group: &str) -> (r: Result<(), Error>)
    ensures
        match group_fault(group@) {
            None => r is Ok,
            Some(text) => r matches Err(e) && is_client(e, None, text),
        },
{
    if is_blank(group) {
        return Err(Error::client("the specified group is blank"));
    }
    if group.unicode_len() > GROUP_MAX_LENGTH {
        return Err(
            Error::client(
                "the specified group is longer than group max length ".to_owned().concat(
                    int_text(GROUP_MAX_LENGTH as i64).as_str(),
                ).concat(".").as_str(),
            ),
        );
    }
    if !has_name_chars(group) {
        return Err(
            Error::client(
                "the specified group[".to_owned().concat(group).concat(
                    "] contains illegal characters, allowing only ^[%|a-zA-Z0-9_-]+$",
                ).as_str(),
            ),
        );
    }
    Ok(())
}

/// What parts a path, and so cannot stand in the queues that a message is also given to.
pub const PATH_SEPARATOR: &'static str = "/";

/// The queues that a message is also given to, where they cannot be taken as they are.
pub open spec fn bad_dispatch(m: Message) -> Option<Seq<char>> {
    match prop(m.properties, PROPERTY_INNER_MULTI_DISPATCH@) {
        Some(queues) => if has_part(queues, PATH_SEPARATOR@) {
            Some(queues)
        } else {
            None
        },
        None => None,
    }
}

/// Why a message is refused, with the code of the failure; `None` where it is fine. The
/// topic comes first, then where it leads, then the body, then the queues that the message is
/// also given to.
pub open spec fn message_fault(m: Message, max_size: i32) -> Option<(Option<i32>, Seq<char>)> {
    match topic_fault(m.topic@) {
        Some(text) => Some((None, text)),
        None => if forbidden_topic(m.topic@) {
            Some((None, "Sending message to topic["@ + m.topic@ + "] is forbidden."@))
        } else if m.body is None {
            Some((Some(response_code::MESSAGE_ILLEGAL), "the message body is null"@))
        } else if body_bytes(m.body).len() == 0 {
            Some((Some(response_code::MESSAGE_ILLEGAL), "the message body length is zero"@))
        } else if body_bytes(m.body).len() > max_size {
            Some(
                (
                    Some(response_code::MESSAGE_ILLEGAL),
                    "the message body size over max value, MAX: "@ + decimal(max_size as int),
                ),
            )
        } else {
            match bad_dispatch(m) {
                Some(queues) => Some(
                    (
                        Some(response_code::MESSAGE_ILLEGAL),
                        "INNER_MULTI_DISPATCH "@ + queues + " can not contains "@ + PATH_SEPARATOR@ + " character"@,
                    ),
                ),
                None => None,
            }
        },
    }
}

pub fn check_message(msg: &Message, max_size: i32) -> (r: Result<(), Error>)
    ensures
        match message_fault(*msg, max_size) {
            None => r is Ok,
            Some((code, text)) => r matches Err(e) && is_client(e, code, text),
        },
{
    if let Err(e) = check_topic(msg.topic.as_str()) {
        return Err(e);
    }
    if is_forbidden_topic(msg.topic.as_str()) {
        return Err(
            Error::client(
                "Sending message to topic[".to_owned().concat(msg.topic.as_str()).concat(
                    "] is forbidden.",
                ).as_str(),
            ),
        );
    }
    if msg.body.is_none() {
        return Err(Error::client_with_code(response_code::MESSAGE_ILLEGAL, "the message body is null"));
    }
    let len = msg.body_len();
    if len == 0 {
        return Err(
            Error::client_with_code(response_code::MESSAGE_ILLEGAL, "the message body length is zero"),
        );
    }
    if len as i128 > max_size as i128 {
        return Err(
            Error::client_with_code(
                response_code::MESSAGE_ILLEGAL,
                "the message body size over max value, MAX: ".to_owned().concat(
                    int_text(max_size as i64).as_str(),
                ).as_str(),
            ),
        );
    }
    if let Some(queues) = msg.get_property(PROPERTY_INNER_MULTI_DISPATCH) {
        if holds(queues, PATH_SEPARATOR) {
            return Err(
                Error::client_with_code(
                    response_code::MESSAGE_ILLEGAL,
                    "INNER_MULTI_DISPATCH ".to_owned().concat(queues).concat(" can not contains ").concat(
                        PATH_SEPARATOR,
                    ).concat(" character").as_str(),
                ),
            );
        }
    }
    Ok(())
}

/// A message can be sent exactly where its topic has a fine name and is open to clients, it has a
/// body that is neither empty nor too long, and the further queues that it is given to hold no
/// path. Where not, the first of these that fails is the failure; one of the body or of the
/// queues has the code of an illegal message.
pub proof fn law_message_can_be_sent(
    msg: &Message,
    max_size: i32,
    r: Result<(), Error>,
    topic: &str,
    named: Result<(), Error>,
)
    requires
        call_ensures(check_message, (msg, max_size), r),
        topic@ == msg.topic@,
        call_ensures(check_topic, (topic,), named),
    ensures
        ({
            let t = msg.topic@;
            let closed = t == "SCHEDULE_TOPIC_XXXX"@ || t == "RMQ_SYS_TRANS_HALF_TOPIC"@ || t
                == "RMQ_SYS_TRANS_OP_HALF_TOPIC"@ || t == "TRANS_CHECK_MAX_TIME_TOPIC"@ || t == "SELF_TEST_TOPIC"@ || t
                == "OFFSET_MOVED_EVENT"@;
            let empty = msg.body is None || msg.body->0@.len() == 0;
            let long = msg.body is Some && msg.body->0@.len() > max_size;
            let path = prop(msg.properties, "INNER_MULTI_DISPATCH"@) is Some && has_part(
                prop(msg.properties, "INNER_MULTI_DISPATCH"@)->0,
                "/"@,
            );
            &&& r is Ok <==> named is Ok && !closed && !empty && !long && !path
            &&& named is Err ==> (r matches Err(e) && error_text(e) == error_text(
                named->Err_0,
            ))
            &&& r matches Err(e) ==> e is Client && (error_code(e) == if named is Err || closed {
                None
            } else {
                Some(13i32)
            })
        }),
{
}

/// A topic has a fine name exactly where it is not blank, has at most 127 characters, and only
/// letters, digits, and the signs `%`, `|`, `_` and `-`; a group where it has at most 120.
pub proof fn law_names_that_are_fine(topic: &str, t: Result<(), Error>, group: &str, g: Result<(), Error>)
    requires
        call_ensures(check_topic, (topic,), t),
        call_ensures(check_group, (group,), g),
    ensures
        t is Ok <==> !blank(topic@) && topic@.len() <= 127 && forall|i: int|
            0 <= i < topic@.len() ==> is_name_char(#[trigger] topic@[i]),
        g is Ok <==> !blank(group@) && group@.len() <= 120 && forall|i: int|
            0 <= i < group@.len() ==> is_name_char(#[trigger] group@[i]),
        t matches Err(e) ==> e is Client && error_code(e) is None,
        g matches Err(e) ==> e is Client && error_code(e) is None,
{
    lemma_name_chars(topic@);
    lemma_name_chars(group@);
}

proof fn lemma_name_chars(s: Seq<char>)
    ensures
        name_chars(s) <==> forall|i: int| 0 <= i < s.len() ==> is_name_char(#[trigger] s[i]),
{
    assert forall|c: char| name_char(c) == is_name_char(c) by {}
    if name_chars(s) {
        assert forall|i: int| 0 <= i < s.len() implies is_name_char(#[trigger] s[i]) by {
            assert(name_char(s[i]));
        }
    }
    if forall|i: int| 0 <= i < s.len() ==> is_name_char(#[trigger] s[i]) {
        assert forall|i: int| 0 <= i < s.len() implies name_char(#[trigger] s[i]) by {
            assert(is_name_char(s[i]));
        }
    }
}

/// A letter, a digit, or one of the signs that a name may hold.
pub open spec fn is_name_char(c: char) -> bool {
    ||| 'a' <= c <= 'z'
    ||| 'A' <= c <= 'Z'
    ||| '0' <= c <= '9'
    ||| c == '%' || c == '|' || c == '_' || c == '-'
}

/// A name inside a namespace has the namespace and a `%` before it; the prefix of a retry or
/// dead-letter topic stays in front. Without a namespace a name stays as it is, and so does a
/// blank one, one of the system, and one that is inside already.
pub proof fn law_name_inside_a_namespace(namespace: &str, topic: &str, r: String, rest: Seq<char>)
    requires
        call_ensures(with_namespace, (namespace, topic), r),
    ensures
        ({
            let n = namespace@ + "%"@;
            let t = topic@;
            &&& namespace@.len() == 0 || blank(namespace@) || blank(t) ==> r@ == t
            &&& t == "TBW102"@ || t == "SCHEDULE_TOPIC_XXXX"@ || t == "BenchmarkTest"@ || t
                == "RMQ_SYS_TRANS_HALF_TOPIC"@ || t == "RMQ_SYS_TRACE_TOPIC"@ || t == "RMQ_SYS_TRANS_OP_HALF_TOPIC"@ || t
                == "TRANS_CHECK_MAX_TIME_TOPIC"@ || t == "SELF_TEST_TOPIC"@ || t == "OFFSET_MOVED_EVENT"@ ==> r@ == t
            &&& begins_with(t, "rmq_sys_"@) ==> r@ == t
            &&& !blank(namespace@) && !blank(t) && !system_topic(t) && !begins_with(t, "%RETRY%"@) && !begins_with(
                t,
                "%DLQ%"@,
            ) ==> r@ == if begins_with(t, n) {
                t
            } else {
                n + t
            }
            &&& !blank(namespace@) && !blank(t) && !system_topic(t) && t == "%RETRY%"@ + rest ==> r@ == if begins_with(
                rest,
                n,
            ) {
                t
            } else {
                "%RETRY%"@ + n + rest
            }
            &&& !blank(namespace@) && !blank(t) && !system_topic(t) && t == "%DLQ%"@ + rest ==> r@ == if begins_with(
                rest,
                n,
            ) {
                t
            } else {
                "%DLQ%"@ + n + rest
            }
        }),
{
    reveal_strlit("%RETRY%");
    reveal_strlit("%DLQ%");
    reveal_strlit("%");
    let n = namespace@ + "%"@;
    let t = topic@;
    if namespace@.len() == 0 {
        reveal(trimmed);
        assert(blank(namespace@));
    }
    if t == "%RETRY%"@ + rest {
        assert(t.subrange(0, 7) =~= "%RETRY%"@);
        assert(bare(t) =~= rest);
        assert(prefix(t) + namespace@ + "%"@ + bare(t) =~= "%RETRY%"@ + n + rest);
    }
    if t == "%DLQ%"@ + rest {
        assert(t.subrange(0, 5) =~= "%DLQ%"@);
        if begins_with(t, "%RETRY%"@) {
            assert(t.subrange(0, 7)[1] == 'R');
            assert(t[1] == 'D');
        }
        assert(bare(t) =~= rest);
        assert(prefix(t) + namespace@ + "%"@ + bare(t) =~= "%DLQ%"@ + n + rest);
    }
    if !begins_with(t, "%RETRY%"@) && !begins_with(t, "%DLQ%"@) {
        assert(prefix(t) + namespace@ + "%"@ + bare(t) =~= n + t);
    }
}

/// A name that is put into a namespace a second time stays as it is. (A namespace that begins like
/// a retry or dead-letter prefix is left out.)
pub proof fn law_second_wrap_changes_nothing(namespace: &str, topic: &str, once: String, again: &str, twice: String)
    requires
        !begins_with(namespace@ + "%"@, "%RETRY%"@),
        !begins_with(namespace@ + "%"@, "%DLQ%"@),
        call_ensures(with_namespace, (namespace, topic), once),
        again@ == once@,
        call_ensures(with_namespace, (namespace, again), twice),
    ensures
        twice@ == once@,
{
    law_wrap_once(namespace@, topic@);
}

/// Topics are told apart by how they begin, or by being one of the system's.
pub proof fn law_kinds_of_topics(topic: &str, retry: bool, dlq: bool, system: bool, empty: bool)
    requires
        call_ensures(is_retry_topic, (topic,), retry),
        call_ensures(is_dlq_topic, (topic,), dlq),
        call_ensures(is_system_topic, (topic,), system),
        call_ensures(is_blank, (topic,), empty),
    ensures
        retry == begins_with(topic@, "%RETRY%"@),
        dlq == begins_with(topic@, "%DLQ%"@),
        !(retry && dlq),
        begins_with(topic@, "rmq_sys_"@) || topic@ == "TBW102"@ || topic@ == "SCHEDULE_TOPIC_XXXX"@ || topic@
            == "RMQ_SYS_TRACE_TOPIC"@ ==> system,
        system ==> begins_with(topic@, "rmq_sys_"@) || topic@ == "TBW102"@ || topic@ == "SCHEDULE_TOPIC_XXXX"@ || topic@
            == "RMQ_SYS_TRACE_TOPIC"@ || topic@ == "BenchmarkTest"@ || topic@ == "RMQ_SYS_TRANS_HALF_TOPIC"@ || topic@
            == "RMQ_SYS_TRANS_OP_HALF_TOPIC"@ || topic@ == "TRANS_CHECK_MAX_TIME_TOPIC"@ || topic@
            == "SELF_TEST_TOPIC"@ || topic@ == "OFFSET_MOVED_EVENT"@,
        topic@.len() == 0 ==> empty,
{
    reveal_strlit("%RETRY%");
    reveal_strlit("%DLQ%");
    if retry && dlq {
        assert(topic@.subrange(0, 7)[1] == 'R');
        assert(topic@.subrange(0, 5)[1] == 'D');
    }
    if topic@.len() == 0 {
        reveal(trimmed);
    }
}

} // verus!

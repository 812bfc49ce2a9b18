//! What hooks around a send are told, and when they run.
use vstd::prelude::*;

use crate::error::{is_client, Error};
use crate::message::{
    prop, same_message, Message, MessageQueue, PROPERTY_DELAY_TIME, PROPERTY_DELAY_TIME_LEVEL,
    PROPERTY_START_DELIVER_TIME, PROPERTY_TIMER_DELAY_MS, PROPERTY_TIMER_DELAY_SEC,
    PROPERTY_TIMER_DELIVER_MS, PROPERTY_TRANSACTION_PREPARED,
};
use crate::result::{LocalTransactionState, SendResult};
use crate::text::{same, texts};

verus! {

/// How a message is sent.
#[derive(Debug, Clone, Copy, PartialEq, Eq, Structural)]
pub enum CommunicationMode {
    Sync,
    Async,
    Oneway,
}

/// What kind of message is sent.
#[derive(Debug, Clone, Copy, PartialEq, Eq, Structural)]
pub enum MessageType {
    NormalMsg,
    TransMsgHalf,
    DelayMsg,
}

/// What a hook around a send is told.
#[derive(Debug)]
pub struct SendMessageContext {
    pub producer_group: String,
    pub message: Option<Message>,
    pub mq: Option<MessageQueue>,
    pub broker_addr: String,
    pub communication_mode: Option<CommunicationMode>,
    pub namespace: String,
    pub msg_type: MessageType,
    pub send_result: Option<SendResult>,
    pub exception: Option<Error>,
}

/// What a hook that can forbid a send is told.
#[derive(Debug)]
pub struct CheckForbiddenContext {
    pub name_srv_addr: String,
    pub group: String,
    pub message: Option<Message>,
    pub mq: Option<MessageQueue>,
    pub broker_addr: String,
    pub communication_mode: Option<CommunicationMode>,
    pub arg: Option<String>,
    pub unit_mode: bool,
}

/// What a hook at the end of a transaction is told.
#[derive(Debug)]
pub struct EndTransactionContext {
    pub producer_group: String,
    pub message: Option<Message>,
    pub broker_addr: String,
    pub msg_id: Option<String>,
    pub transaction_id: Option<String>,
    pub transaction_state: Option<LocalTransactionState>,
    pub from_transaction_check: bool,
    pub namespace: String,
}

/// The properties that make a message a delayed one to the hooks.
pub open spec fn delay_keys() -> Seq<Seq<char>> {
    seq![
        PROPERTY_START_DELIVER_TIME@,
        PROPERTY_DELAY_TIME_LEVEL@,
        PROPERTY_TIMER_DELIVER_MS@,
        PROPERTY_TIMER_DELAY_SEC@,
        PROPERTY_TIMER_DELAY_MS@,
    ]
}

pub fn delay_property_keys() -> (r: Vec<String>)
    ensures
        texts(r@) == delay_keys(),
{
    let mut out: Vec<String> = Vec::new();
    out.push(PROPERTY_START_DELIVER_TIME.to_owned());
    out.push(PROPERTY_DELAY_TIME_LEVEL.to_owned());
    out.push(PROPERTY_TIMER_DELIVER_MS.to_owned());
    out.push(PROPERTY_TIMER_DELAY_SEC.to_owned());
    out.push(PROPERTY_TIMER_DELAY_MS.to_owned());
    assert(texts(out@) =~= delay_keys());
    out
}

/// The properties that a transactional message cannot have.
pub open spec fn forbidden_delay_keys() -> Seq<Seq<char>> {
    seq![
        PROPERTY_DELAY_TIME_LEVEL@,
        PROPERTY_DELAY_TIME@,
        PROPERTY_TIMER_DELAY_MS@,
        PROPERTY_TIMER_DELAY_SEC@,
        PROPERTY_TIMER_DELIVER_MS@,
    ]
}

pub fn transaction_forbidden_delay_keys() -> (r: Vec<String>)
    ensures
        texts(r@) == forbidden_delay_keys(),
{
    let mut out: Vec<String> = Vec::new();
    out.push(PROPERTY_DELAY_TIME_LEVEL.to_owned());
    out.push(PROPERTY_DELAY_TIME.to_owned());
    out.push(PROPERTY_TIMER_DELAY_MS.to_owned());
    out.push(PROPERTY_TIMER_DELAY_SEC.to_owned());
    out.push(PROPERTY_TIMER_DELIVER_MS.to_owned());
    assert(texts(out@) =~= forbidden_delay_keys());
    out
}

/// Whether a message has one of the properties.
pub open spec fn has_any(m: Message, keys: Seq<Seq<char>>) -> bool {
    exists|i: int| 0 <= i < keys.len() && prop(m.properties, #[trigger] keys[i]) is Some
}

pub fn has_any_property(msg: &Message, keys: &Vec<String>) -> (r: bool)
    ensures
        r == has_any(*msg, texts(keys@)),
{
    let mut i: usize = 0;
    while i < keys.len()
        invariant
            i <= keys.len(),
            forall|j: int| 0 <= j < i ==> prop(msg.properties, #[trigger] texts(keys@)[j]) is None,
        decreases keys.len() - i,
    {
        if msg.has_property(keys[i].as_str()) {
            assert(prop(msg.properties, texts(keys@)[i as int]) is Some);
            return true;
        }
        i = i + 1;
    }
    false
}

/// The kind of a message: a delay outweighs a transaction.
pub open spec fn type_of(m: Message) -> MessageType {
    if has_any(m, delay_keys()) {
        MessageType::DelayMsg
    } else if prop(m.properties, PROPERTY_TRANSACTION_PREPARED@) == Some("true"@) {
        MessageType::TransMsgHalf
    } else {
        MessageType::NormalMsg
    }
}

/// What the hooks around a send are told before it.
pub fn build_send_context(
    msg: &Message,
    group: &str,
    namespace: &str,
    mq: &MessageQueue,
    broker_addr: &str,
    mode: CommunicationMode,
) -> (r: SendMessageContext)
    ensures
        r.producer_group@ == group@,
        r.message is Some && same_message(r.message->0, *msg),
        r.mq == Some(*mq),
        r.broker_addr@ == broker_addr@,
        r.communication_mode == Some(mode),
        r.namespace@ == namespace@,
        r.msg_type == type_of(*msg),
        r.send_result is None,
        r.exception is None,
{
    let half = match msg.get_property(PROPERTY_TRANSACTION_PREPARED) {
        Some(v) => same(v, "true"),
        None => false,
    };
    let delayed = has_any_property(msg, &delay_property_keys());
    SendMessageContext {
        producer_group: group.to_owned(),
        message: Some(msg.clone()),
        mq: Some(mq.clone()),
        broker_addr: broker_addr.to_owned(),
        communication_mode: Some(mode),
        namespace: namespace.to_owned(),
        msg_type: if delayed {
            MessageType::DelayMsg
        } else if half {
            MessageType::TransMsgHalf
        } else {
            MessageType::NormalMsg
        },
        send_result: None,
        exception: None,
    }
}

/// Puts the end of a send into the context for the hooks that run after it. Gives the result
/// of a success, for the caller to keep.
pub fn note_outcome(context: &mut SendMessageContext, outcome: Result<SendResult, Error>) -> (r: Option<SendResult>)
    ensures
        match outcome {
            Ok(s) => r == Some(s) && *final(context) == (SendMessageContext {
                send_result: Some(s),
                ..*old(context)
            }),
            Err(e) => r is None && *final(context) == (SendMessageContext {
                exception: Some(e),
                ..*old(context)
            }),
        },
{
    match outcome {
        Ok(s) => {
            context.send_result = Some(s.clone());
            Some(s)
        },
        Err(e) => {
            context.exception = Some(e);
            None
        },
    }
}

/// What the caller of a send gets once the hooks have run: the result that was kept, or the
/// failure that is left in the context.
pub fn take_outcome(context: SendMessageContext, kept: Option<SendResult>) -> (r: Result<SendResult, Error>)
    ensures
        match kept {
            Some(s) => r == Ok::<SendResult, Error>(s),
            None => match context.exception {
                Some(e) => r == Err::<SendResult, Error>(e),
                None => r matches Err(e) && is_client(e, None, "send message failed"@),
            },
        },
{
    match kept {
        Some(s) => Ok(s),
        None => match context.exception {
            Some(e) => Err(e),
            None => Err(Error::client("send message failed")),
        },
    }
}

/// The steps around one request.
#[derive(Debug, Clone, Copy, PartialEq, Eq, Structural)]
pub enum KernelStep {
    CheckForbidden,
    InjectTrace,
    Before,
    Send,
    After,
}

/// The steps around one request, in order. A hook that forbids the send ends it before any
/// other step.
pub open spec fn kernel_plan(forbidden: bool, trace: bool, hooked: bool) -> Seq<KernelStep> {
    (if forbidden {
        seq![KernelStep::CheckForbidden]
    } else {
        Seq::empty()
    }) + (if trace {
        seq![KernelStep::InjectTrace]
    } else {
        Seq::empty()
    }) + (if hooked {
        seq![KernelStep::Before, KernelStep::Send, KernelStep::After]
    } else {
        seq![KernelStep::Send]
    })
}

pub fn kernel_steps(forbidden: bool, trace: bool, hooked: bool) -> (r: Vec<KernelStep>)
    ensures
        r@ == kernel_plan(forbidden, trace, hooked),
{
    let mut out: Vec<KernelStep> = Vec::new();
    if forbidden {
        out.push(KernelStep::CheckForbidden);
    }
    if trace {
        out.push(KernelStep::InjectTrace);
    }
    if hooked {
        out.push(KernelStep::Before);
    }
    out.push(KernelStep::Send);
    if hooked {
        out.push(KernelStep::After);
    }
    out
}

/// The hooks that forbid run first; the request is sent once; the hooks around it run once
/// before it and once after it, and last of all.
pub proof fn law_kernel_order(forbidden: bool, trace: bool, hooked: bool)
    ensures
        ({
            let plan = kernel_plan(forbidden, trace, hooked);
            &&& plan.no_duplicates()
            &&& plan.contains(KernelStep::Send)
            &&& forbidden ==> plan[0] == KernelStep::CheckForbidden
            &&& hooked <==> plan.contains(KernelStep::Before)
            &&& hooked <==> plan.contains(KernelStep::After)
            &&& hooked ==> plan.last() == KernelStep::After && plan[plan.len() - 2] == KernelStep::Send
                && plan[plan.len() - 3] == KernelStep::Before
        }),
{
    let plan = kernel_plan(forbidden, trace, hooked);
    if hooked {
        assert(plan[plan.len() - 1] == KernelStep::After);
        assert(plan[plan.len() - 2] == KernelStep::Send);
        assert(plan[plan.len() - 3] == KernelStep::Before);
    } else {
        assert(plan[plan.len() - 1] == KernelStep::Send);
    }
}

/// Whether a hook of that name is among the hooks.
pub fn has_hook_named(hooks: &[String], name: &str) -> (r: bool)
    ensures
        r == texts(hooks@).contains(name@),
{
    let mut i: usize = 0;
    while i < hooks.len()
        invariant
            i <= hooks@.len(),
            forall|j: int| 0 <= j < i ==> texts(hooks@)[j] != name@,
        decreases hooks@.len() - i,
    {
        if same(hooks[i].as_str(), name) {
            assert(texts(hooks@)[i as int] == name@);
            return true;
        }
        i = i + 1;
    }
    false
}

/// The steps around a request are each there once, in their order, where there is someone for
/// them: who can forbid it comes before anything else, the request is always sent, and the hooks
/// stand right before and right after it.
pub proof fn law_every_request_is_sent_once(forbidden: bool, trace: bool, hooked: bool, steps: Vec<KernelStep>)
    requires
        call_ensures(kernel_steps, (forbidden, trace, hooked), steps),
    ensures
        steps@.no_duplicates(),
        steps@.contains(KernelStep::Send),
        steps@.contains(KernelStep::CheckForbidden) <==> forbidden,
        steps@.contains(KernelStep::InjectTrace) <==> trace,
        steps@.contains(KernelStep::Before) <==> hooked,
        steps@.contains(KernelStep::After) <==> hooked,
        forall|i: int, j: int|
            0 <= i < j < steps@.len() ==> step_rank(#[trigger] steps@[i]) < step_rank(#[trigger] steps@[j]),
{
    let plan = steps@;
    let n = plan.len() as int;
    if forbidden {
        assert(plan[0] == KernelStep::CheckForbidden);
    }
    if hooked {
        assert(plan[n - 1] == KernelStep::After);
        assert(plan[n - 2] == KernelStep::Send);
        assert(plan[n - 3] == KernelStep::Before);
        if trace {
            assert(plan[n - 4] == KernelStep::InjectTrace);
        }
    } else {
        assert(plan[n - 1] == KernelStep::Send);
        if trace {
            assert(plan[n - 2] == KernelStep::InjectTrace);
        }
    }
}

/// When a step comes.
pub open spec fn step_rank(s: KernelStep) -> int {
    match s {
        KernelStep::CheckForbidden => 0,
        KernelStep::InjectTrace => 1,
        KernelStep::Before => 2,
        KernelStep::Send => 3,
        KernelStep::After => 4,
    }
}

/// The hooks after a send see how it ended, and whatever they do to the failure in their context,
/// the caller of a send that succeeded gets its result. The failure of one that did not is what
/// they left in the context.
pub proof fn law_hooks_do_not_change_a_success(
    context: &mut SendMessageContext,
    outcome: Result<SendResult, Error>,
    kept: Option<SendResult>,
    after: SendMessageContext,
    r: Result<SendResult, Error>,
)
    requires
        call_ensures(note_outcome, (context, outcome), kept),
        call_ensures(take_outcome, (after, kept), r),
    ensures
        match outcome {
            Ok(s) => final(context).send_result == Some(s) && final(context).exception == old(context).exception && r
                == outcome,
            Err(e) => final(context).exception == Some(e) && final(context).send_result == old(context).send_result && r is Err
                && (after.exception matches Some(f) ==> r == Err::<SendResult, Error>(f)),
        },
        outcome is Err && after == *final(context) ==> r == outcome,
        final(context).msg_type == old(context).msg_type && final(context).mq == old(context).mq,
{
}

/// The hooks before a send see the message, its queue, where it goes and how, and nothing of how
/// it ended. A message with any property of a delay is a delayed one to them, else one that is
/// prepared for a transaction is a half, else it is a plain one.
pub proof fn law_hooks_see_the_message(
    msg: &Message,
    group: &str,
    namespace: &str,
    mq: &MessageQueue,
    addr: &str,
    mode: CommunicationMode,
    r: SendMessageContext,
)
    requires
        call_ensures(build_send_context, (msg, group, namespace, mq, addr, mode), r),
    ensures
        r.message is Some && same_message(r.message->0, *msg),
        r.mq == Some(*mq) && r.broker_addr@ == addr@ && r.communication_mode == Some(mode),
        r.producer_group@ == group@ && r.namespace@ == namespace@,
        r.send_result is None && r.exception is None,
        ({
            let delayed = prop(msg.properties, "DELAY"@) is Some || prop(msg.properties, "__STARTDELIVERTIME"@) is Some
                || prop(msg.properties, "TIMER_DELIVER_MS"@) is Some || prop(msg.properties, "TIMER_DELAY_SEC"@) is Some
                || prop(msg.properties, "TIMER_DELAY_MS"@) is Some;
            let half = prop(msg.properties, "TRAN_MSG"@) == Some("true"@);
            &&& r.msg_type == MessageType::DelayMsg <==> delayed
            &&& r.msg_type == MessageType::TransMsgHalf <==> half && !delayed
        }),
{
    let keys = delay_keys();
    assert(keys[0] == "__STARTDELIVERTIME"@);
    assert(keys[1] == "DELAY"@);
    assert(keys[2] == "TIMER_DELIVER_MS"@);
    assert(keys[3] == "TIMER_DELAY_SEC"@);
    assert(keys[4] == "TIMER_DELAY_MS"@);
}

/// The properties that a transactional message cannot have are those of every way to delay one,
/// but for a fixed time of delivery.
pub proof fn law_no_delay_in_a_transaction(keys: Vec<String>, msg: &Message, r: bool)
    requires
        call_ensures(transaction_forbidden_delay_keys, (), keys),
        call_ensures(has_any_property, (msg, &keys), r),
    ensures
        r == (prop(msg.properties, "DELAY"@) is Some || prop(msg.properties, "DELAY_TIME"@) is Some || prop(
            msg.properties,
            "TIMER_DELAY_MS"@,
        ) is Some || prop(msg.properties, "TIMER_DELAY_SEC"@) is Some || prop(
            msg.properties,
            "TIMER_DELIVER_MS"@,
        ) is Some),
{
    let k = texts(keys@);
    assert(k[0] == "DELAY"@);
    assert(k[1] == "DELAY_TIME"@);
    assert(k[2] == "TIMER_DELAY_MS"@);
    assert(k[3] == "TIMER_DELAY_SEC"@);
    assert(k[4] == "TIMER_DELIVER_MS"@);
}

/// A hook is found by its name exactly where one of the hooks has it.
pub proof fn law_hook_is_found_by_name(hooks: &[String], name: &str, r: bool)
    requires
        call_ensures(has_hook_named, (hooks, name), r),
    ensures
        r <==> exists|i: int| 0 <= i < hooks@.len() && #[trigger] hooks@[i]@ == name@,
{
    let t = texts(hooks@);
    if r {
        let i = t.index_of(name@);
        assert(hooks@[i]@ == t[i]);
    }
    if exists|i: int| 0 <= i < hooks@.len() && #[trigger] hooks@[i]@ == name@ {
        let i = choose|i: int| 0 <= i < hooks@.len() && #[trigger] hooks@[i]@ == name@;
        assert(t[i] == name@);
    }
}

} // verus!

//! One synchronous send: attempts on broker after broker within one time budget.
//!
//! The caller selects queues, talks to brokers and reads the clock. A [`SendRun`] decides:
//! how long an attempt may take, whether a failure is worth another broker, what the fault
//! table is told, and what the send gives back in the end.
use std::collections::BTreeSet;
use vstd::prelude::*;

use crate::client_error_code;
use crate::error::{error_code, error_text, is_client, Error};
use crate::message::{MessageQueue, QueueView};
use crate::result::{SendResult, SendStatus};
use crate::text::{decimal, int_text, join, joined, texts};

verus! {

/// Who is to blame for a failed attempt.
#[derive(Debug, Clone, Copy, PartialEq, Eq, Structural)]
pub enum SendErrorKind {
    /// The broker answered with a failure code.
    Broker,
    /// No connection, no way to write, no answer.
    Remoting,
    /// The client itself.
    Client,
}

/// The kind of a failure; `None` for one that no retry can mend.
pub open spec fn kind_of(e: Error) -> Option<SendErrorKind> {
    match e {
        Error::Broker { .. } => Some(SendErrorKind::Broker),
        Error::Connect { .. } | Error::SendRequest { .. } | Error::Timeout { .. } | Error::TooMuchRequest(_)
        | Error::RemotingCommand(_) | Error::Server { .. } => Some(SendErrorKind::Remoting),
        Error::Client { .. } | Error::RequestTimeout { .. } => Some(SendErrorKind::Client),
        Error::Decode(_) | Error::Encode(_) | Error::Io(_) | Error::Json(_) => None,
    }
}

/// The kind of a failure.
pub fn classify_send_error(err: &Error) -> (r: Option<SendErrorKind>)
    ensures
        r == kind_of(*err),
{
    match err {
        Error::Broker { .. } => Some(SendErrorKind::Broker),
        Error::Connect { .. } | Error::SendRequest { .. } | Error::Timeout { .. } | Error::TooMuchRequest(_)
        | Error::RemotingCommand(_) | Error::Server { .. } => Some(SendErrorKind::Remoting),
        Error::Client { .. } | Error::RequestTimeout { .. } => Some(SendErrorKind::Client),
        Error::Decode(_) | Error::Encode(_) | Error::Io(_) | Error::Json(_) => None,
    }
}

/// Whether asking once more can help.
pub fn retryable(err: &Error) -> (r: bool)
    ensures
        r == (kind_of(*err) is Some),
{
    match err {
        Error::Client { .. } | Error::Broker { .. } | Error::Server { .. } | Error::RemotingCommand(_)
        | Error::Connect { .. } | Error::SendRequest { .. } | Error::Timeout { .. } | Error::TooMuchRequest(
            _,
        ) | Error::RequestTimeout { .. } => true,
        _ => false,
    }
}

/// Whether a broker's code is worth another broker; no code never is.
pub fn is_retry_response_code(codes: &BTreeSet<i32>, code: Option<i32>) -> (r: bool)
    ensures
        r == (code matches Some(c) && codes@.contains(c)),
{
    match code {
        Some(c) => codes.contains(&c),
        None => false,
    }
}

/// What the fault table is told of an attempt on a broker.
#[derive(Debug, Clone, Copy, PartialEq, Eq, Structural)]
pub struct FaultMark {
    /// Keep away from the broker for a while.
    pub isolation: bool,
    /// The broker can be reached.
    pub reachable: bool,
}

/// What an attempt says of its broker; `None` where it says nothing.
pub open spec fn mark_of(got: Result<SendResult, Error>) -> Option<FaultMark> {
    match got {
        Ok(_) => Some(FaultMark { isolation: false, reachable: true }),
        Err(e) => match kind_of(e) {
            Some(SendErrorKind::Broker) => Some(FaultMark { isolation: true, reachable: false }),
            Some(SendErrorKind::Remoting) => Some(FaultMark { isolation: true, reachable: true }),
            Some(SendErrorKind::Client) => Some(FaultMark { isolation: false, reachable: true }),
            None => None,
        },
    }
}

/// What an attempt says of its broker.
fn fault_mark(got: &Result<SendResult, Error>) -> (r: Option<FaultMark>)
    ensures
        r == mark_of(*got),
{
    match got {
        Ok(_) => Some(FaultMark { isolation: false, reachable: true }),
        Err(e) => match classify_send_error(e) {
            Some(SendErrorKind::Broker) => Some(FaultMark { isolation: true, reachable: false }),
            Some(SendErrorKind::Remoting) => Some(FaultMark { isolation: true, reachable: true }),
            Some(SendErrorKind::Client) => Some(FaultMark { isolation: false, reachable: true }),
            None => None,
        },
    }
}

/// What follows an attempt.
#[derive(Debug)]
pub enum SendVerdict {
    /// The send is over.
    Done(Result<SendResult, Error>),
    /// The send goes on, as far as attempts are left.
    Again,
}

/// A synchronous send under way.
#[derive(Debug)]
pub struct SendRun {
    pub topic: String,
    /// How many attempts there may be.
    pub times_total: i32,
    /// The time budget of the whole send, in milliseconds.
    pub timeout: i64,
    /// How many attempts are over.
    pub attempt: i32,
    /// The brokers that were chosen, one for each attempt that got that far.
    pub brokers_sent: Vec<String>,
    /// The last answer of a broker that took the message but did not store it well.
    pub result: Option<SendResult>,
    /// The last failure.
    pub last_exc: Option<Error>,
    /// The budget was used up before an attempt.
    pub call_timeout: bool,
}

/// How long an attempt may take that begins `cost` milliseconds into the send: what is left
/// of the budget, capped at `max_per_request` where that is not negative and a further
/// attempt is left.
pub open spec fn attempt_timeout(run: SendRun, cost: i64, max_per_request: i64) -> int {
    let left = run.timeout - cost;
    if max_per_request > -1 && run.attempt + 1 < run.times_total && left > max_per_request {
        max_per_request as int
    } else {
        left
    }
}

/// The broker took the message, but not well, and another broker is to be tried for that.
pub open spec fn not_stored(got: Result<SendResult, Error>, retry_not_stored: bool) -> bool {
    got matches Ok(r) && r.status != SendStatus::SendOk && retry_not_stored
}

/// A failure after which another broker is tried.
pub open spec fn goes_on(e: Error, codes: Set<i32>) -> bool {
    match kind_of(e) {
        Some(SendErrorKind::Broker) => error_code(e) matches Some(c) && codes.contains(c),
        Some(_) => true,
        None => false,
    }
}

/// The code of a send that failed in the end.
pub open spec fn final_code(last: Option<Error>) -> Option<i32> {
    match last {
        Some(Error::Broker { response_code, message }) => Some(response_code),
        Some(Error::Connect { .. }) => Some(client_error_code::CONNECT_BROKER_EXCEPTION),
        Some(Error::Timeout { .. }) => Some(client_error_code::ACCESS_BROKER_TIMEOUT),
        Some(Error::Client { .. }) => Some(client_error_code::BROKER_NOT_EXIST_EXCEPTION),
        Some(Error::RequestTimeout { .. }) => Some(client_error_code::BROKER_NOT_EXIST_EXCEPTION),
        _ => None,
    }
}

/// The text of a send that failed in the end, after `cost` milliseconds.
pub open spec fn final_text(run: SendRun, cost: i64) -> Seq<char> {
    "Send ["@ + decimal(run.brokers_sent@.len() as int) + "] times, still failed, cost ["@ + decimal(
        cost as int,
    ) + "]ms, Topic: "@ + run.topic@ + ", BrokersSent: ["@ + joined(texts(run.brokers_sent@), ", "@)
        + "], last error: "@ + match run.last_exc {
        Some(e) => error_text(e),
        None => Seq::empty(),
    }
}

impl SendRun {
    /// What holds between attempts.
    pub open spec fn wf(&self) -> bool {
        &&& 0 <= self.attempt
        &&& self.times_total > 0 ==> self.attempt <= self.times_total
        &&& self.times_total <= 0 ==> self.attempt == 0
        &&& self.brokers_sent@.len() <= self.attempt + if self.call_timeout {
            1int
        } else {
            0int
        }
        &&& self.call_timeout ==> self.attempt < self.times_total
    }

    /// What holds while an attempt is under way.
    pub open spec fn sending(&self) -> bool {
        &&& 0 <= self.attempt < self.times_total
        &&& !self.call_timeout
        &&& 0 < self.brokers_sent@.len() <= self.attempt + 1
    }

    /// A send that has not begun: one attempt, and as many again as there are retries.
    pub fn new(topic: &str, retry_times: i32, timeout: i64) -> (r: SendRun)
        ensures
            r.wf(),
            r.topic@ == topic@,
            r.times_total == if retry_times == i32::MAX {
                i32::MAX as int
            } else {
                retry_times + 1
            },
            r.timeout == timeout,
            r.attempt == 0,
            r.brokers_sent@.len() == 0,
            r.result is None,
            r.last_exc is None,
            !r.call_timeout,
    {
        SendRun {
            topic: topic.to_owned(),
            times_total: if retry_times == i32::MAX {
                i32::MAX
            } else {
                retry_times + 1
            },
            timeout,
            attempt: 0,
            brokers_sent: Vec::new(),
            result: None,
            last_exc: None,
            call_timeout: false,
        }
    }

    /// Whether another queue is to be selected.
    pub fn wants_attempt(&self) -> (r: bool)
        ensures
            r == (!self.call_timeout && self.attempt < self.times_total),
    {
        !self.call_timeout && self.attempt < self.times_total
    }

    /// The broker of the attempt before, which the next selection keeps away from.
    pub fn last_broker(&self) -> (r: Option<String>)
        ensures
            match r {
                Some(b) => self.brokers_sent@.len() > 0 && b == self.brokers_sent@.last(),
                None => self.brokers_sent@.len() == 0,
            },
    {
        if self.brokers_sent.len() == 0 {
            None
        } else {
            Some(self.brokers_sent[self.brokers_sent.len() - 1].clone())
        }
    }

    /// No queue could be selected: the attempt is over, and its failure is kept.
    pub fn select_failed(&mut self, e: Error)
        requires
            old(self).wf(),
            !old(self).call_timeout,
            old(self).attempt < old(self).times_total,
        ensures
            final(self).wf(),
            *final(self) == (SendRun {
                attempt: (old(self).attempt + 1) as i32,
                last_exc: Some(e),
                ..*old(self)
            }),
    {
        self.last_exc = Some(e);
        self.attempt = self.attempt + 1;
    }

    /// A queue is selected, `cost` milliseconds into the send: where to send and how long
    /// that may take, or `None` where the budget is used up.
    pub fn begin(&mut self, selected: &MessageQueue, cost: i64, max_per_request: i64) -> (r: Option<
        (MessageQueue, i64),
    >)
        requires
            old(self).wf(),
            !old(self).call_timeout,
            old(self).attempt < old(self).times_total,
            cost >= 0,
        ensures
            final(self).brokers_sent@ == old(self).brokers_sent@.push(selected.broker_name),
            *final(self) == (SendRun {
                brokers_sent: final(self).brokers_sent,
                call_timeout: old(self).timeout < cost,
                ..*old(self)
            }),
            match r {
                None => old(self).timeout < cost && final(self).wf(),
                Some((mq, t)) => {
                    &&& old(self).timeout >= cost
                    &&& final(self).sending()
                    &&& mq@ == (QueueView {
                        topic: old(self).topic@,
                        broker_name: selected.broker_name@,
                        queue_id: selected.queue_id,
                    })
                    &&& t == attempt_timeout(*old(self), cost, max_per_request)
                },
            },
    {
        self.brokers_sent.push(selected.broker_name.clone());
        if self.timeout < cost {
            self.call_timeout = true;
            return None;
        }
        let mut t: i64 = self.timeout - cost;
        if max_per_request > -1 && self.attempt + 1 < self.times_total && t > max_per_request {
            t = max_per_request;
        }
        Some((MessageQueue::new(self.topic.as_str(), selected.broker_name.as_str(), selected.queue_id), t))
    }

    /// An attempt has ended. Gives what the fault table is told, and what follows.
    ///
    /// An answer that the message is stored, or a failure that no broker can mend, ends the
    /// send; so does a broker's code outside `codes`, unless an earlier broker took the
    /// message: then that answer is what the send gives.
    pub fn settle(
        &mut self,
        got: Result<SendResult, Error>,
        retry_not_stored: bool,
        codes: &BTreeSet<i32>,
    ) -> (r: (Option<FaultMark>, SendVerdict))
        requires
            old(self).sending(),
        ensures
            r.0 == mark_of(got),
            match got {
                Ok(answer) => if not_stored(got, retry_not_stored) {
                    &&& r.1 is Again
                    &&& *final(self) == (SendRun {
                        result: Some(answer),
                        attempt: (old(self).attempt + 1) as i32,
                        ..*old(self)
                    })
                } else {
                    &&& r.1 == SendVerdict::Done(got)
                    &&& *final(self) == *old(self)
                },
                Err(e) => if goes_on(e, codes@) {
                    &&& r.1 is Again
                    &&& *final(self) == (SendRun {
                        last_exc: Some(e),
                        attempt: (old(self).attempt + 1) as i32,
                        ..*old(self)
                    })
                } else if kind_of(e) is Some && old(self).result is Some {
                    &&& r.1 == SendVerdict::Done(Ok(old(self).result->0))
                    &&& *final(self) == (SendRun { result: None, ..*old(self) })
                } else {
                    &&& r.1 == SendVerdict::Done(got)
                    &&& *final(self) == *old(self)
                },
            },
            r.1 is Again ==> final(self).wf(),
    {
        let mark = fault_mark(&got);
        match got {
            Ok(answer) => {
                if answer.status != SendStatus::SendOk && retry_not_stored {
                    self.result = Some(answer);
                    self.attempt = self.attempt + 1;
                    return (mark, SendVerdict::Again);
                }
                (mark, SendVerdict::Done(Ok(answer)))
            },
            Err(e) => {
                match classify_send_error(&e) {
                    None => {
                        return (mark, SendVerdict::Done(Err(e)));
                    },
                    Some(SendErrorKind::Broker) => {
                        if !is_retry_response_code(codes, e.response_code()) {
                            return match self.result.take() {
                                Some(kept) => (mark, SendVerdict::Done(Ok(kept))),
                                None => (mark, SendVerdict::Done(Err(e))),
                            };
                        }
                    },
                    _ => {},
                }
                self.last_exc = Some(e);
                self.attempt = self.attempt + 1;
                (mark, SendVerdict::Again)
            },
        }
    }

    /// No attempt is left, or no budget: what the send gives, `cost` milliseconds into it.
    pub fn finish(self, cost: i64) -> (r: Result<SendResult, Error>)
        ensures
            match self.result {
                Some(kept) => r == Ok::<SendResult, Error>(kept),
                None => r matches Err(e) && if self.call_timeout {
                    e matches Error::TooMuchRequest(m) && m@ == "sendDefaultImpl call timeout"@
                } else {
                    is_client(e, final_code(self.last_exc), final_text(self, cost))
                },
            },
    {
        if let Some(kept) = self.result {
            return Ok(kept);
        }
        if self.call_timeout {
            return Err(Error::TooMuchRequest("sendDefaultImpl call timeout".to_owned()));
        }
        let last = match &self.last_exc {
            Some(e) => e.text(),
            None => String::new(),
        };
        let message = "Send [".to_owned().concat(
            crate::text::unsigned_text(self.brokers_sent.len() as u64).as_str(),
        ).concat("] times, still failed, cost [").concat(int_text(cost).as_str()).concat(
            "]ms, Topic: ",
        ).concat(self.topic.as_str()).concat(", BrokersSent: [").concat(
            join(&self.brokers_sent, ", ").as_str(),
        ).concat("], last error: ").concat(last.as_str());
        let response_code = match &self.last_exc {
            Some(Error::Broker { response_code, message: _ }) => Some(*response_code),
            Some(Error::Connect { .. }) => Some(client_error_code::CONNECT_BROKER_EXCEPTION),
            Some(Error::Timeout { .. }) => Some(client_error_code::ACCESS_BROKER_TIMEOUT),
            Some(Error::Client { .. }) | Some(Error::RequestTimeout { .. }) => Some(
                client_error_code::BROKER_NOT_EXIST_EXCEPTION,
            ),
            _ => None,
        };
        Err(Error::Client { response_code, message })
    }
}

/// A send never chooses more brokers than it has attempts.
pub proof fn law_attempts_are_bounded(run: SendRun)
    requires
        run.wf(),
    ensures
        run.brokers_sent@.len() <= if run.times_total > 0 {
            run.times_total as int
        } else {
            0
        },
{
}

/// No attempt may take longer than what is left of the whole send, nor longer than the limit of
/// one of several.
pub proof fn law_attempt_stays_in_budget(run: SendRun, cost: i64, max_per_request: i64)
    requires
        0 <= cost <= run.timeout,
    ensures
        0 <= attempt_timeout(run, cost, max_per_request) <= run.timeout - cost,
        max_per_request > -1 && run.attempt + 1 < run.times_total ==> attempt_timeout(run, cost, max_per_request)
            <= max_per_request,
{
}

/// The failure of a send whose topic has no route: a client failure keeps its code, or gets
/// the code of an unknown topic; any other failure stays as it is.
pub fn route_failure(e: Error) -> (r: Error)
    ensures
        match e {
            Error::Client { response_code, message } => is_client(
                r,
                match response_code {
                    Some(c) => Some(c),
                    None => Some(client_error_code::NOT_FOUND_TOPIC_EXCEPTION),
                },
                error_text(e),
            ),
            _ => r == e,
        },
{
    let text = e.text();
    match e {
        Error::Client { response_code, message: _ } => {
            let code: i32 = match response_code {
                Some(c) => c,
                None => client_error_code::NOT_FOUND_TOPIC_EXCEPTION,
            };
            Error::client_with_code(code, text.as_str())
        },
        _ => e,
    }
}

/// A send may make one attempt more than it has retries.
pub proof fn law_one_attempt_more_than_retries(topic: &str, retry_times: i32, timeout: i64, run: SendRun, more: bool)
    requires
        call_ensures(SendRun::new, (topic, retry_times, timeout), run),
        call_ensures(SendRun::wants_attempt, (&run,), more),
    ensures
        more == (retry_times >= 0),
        0 <= retry_times < i32::MAX ==> run.times_total - run.attempt == retry_times + 1,
        run.topic@ == topic@ && run.timeout == timeout,
        run.result is None && run.last_exc is None && run.brokers_sent@ == Seq::<String>::empty(),
{
}

/// An attempt goes to the broker and the queue that were selected, under the topic of the send,
/// and is the last of the brokers that were tried from then on. It gets all the time that is
/// left, unless it is held to the limit of one of several; where the budget is used up, there is
/// no attempt, and none after it.
pub proof fn law_attempt_goes_where_it_is_sent(
    run: &mut SendRun,
    selected: &MessageQueue,
    cost: i64,
    most: i64,
    r: Option<(MessageQueue, i64)>,
    last: Option<String>,
    more: bool,
)
    requires
        old(run).wf() && !old(run).call_timeout && old(run).attempt < old(run).times_total,
        cost >= 0,
        call_ensures(SendRun::begin, (run, selected, cost, most), r),
        call_ensures(SendRun::last_broker, (&*final(run),), last),
        call_ensures(SendRun::wants_attempt, (&*final(run),), more),
    ensures
        r is Some <==> cost <= old(run).timeout,
        r is Some <==> more,
        last == Some(selected.broker_name),
        final(run).attempt == old(run).attempt,
        final(run).brokers_sent@.len() == old(run).brokers_sent@.len() + 1,
        r matches Some((mq, t)) ==> {
            &&& mq.topic@ == old(run).topic@
            &&& mq.broker_name@ == selected.broker_name@
            &&& mq.queue_id == selected.queue_id
            &&& 0 <= cost + t <= old(run).timeout || t == most
            &&& most < 0 || old(run).attempt + 1 == old(run).times_total ==> cost + t == old(run).timeout
            &&& most >= 0 && old(run).attempt + 1 < old(run).times_total ==> t <= most && (t == most || cost + t
                == old(run).timeout)
        },
{
}

/// A failure that a further broker can mend, and that is no broker's answer, never ends a send:
/// it is kept as the last failure, the attempt is counted, and there is another as long as
/// attempts are left.
pub proof fn law_unanswered_attempt_goes_on(
    run: &mut SendRun,
    e: Error,
    retry_not_stored: bool,
    codes: &BTreeSet<i32>,
    r: (Option<FaultMark>, SendVerdict),
    more: bool,
)
    requires
        old(run).sending(),
        e is Connect || e is SendRequest || e is Timeout || e is TooMuchRequest || e is RemotingCommand || e is Server
            || e is Client || e is RequestTimeout,
        call_ensures(SendRun::settle, (run, Err(e), retry_not_stored, codes), r),
        call_ensures(SendRun::wants_attempt, (&*final(run),), more),
    ensures
        r.1 is Again,
        final(run).last_exc == Some(e),
        final(run).attempt == old(run).attempt + 1,
        more <==> old(run).attempt + 1 < old(run).times_total,
        final(run).result == old(run).result,
        final(run).brokers_sent == old(run).brokers_sent,
        final(run).timeout == old(run).timeout && final(run).times_total == old(run).times_total,
{
}

/// A broker's code sends a message on to another broker where it is one of `codes`; any other
/// ends the send, with the answer of a broker that took the message before, or else with the
/// failure.
pub proof fn law_code_of_a_broker_decides(
    run: &mut SendRun,
    code: i32,
    message: String,
    retry_not_stored: bool,
    codes: &BTreeSet<i32>,
    r: (Option<FaultMark>, SendVerdict),
    more: bool,
)
    requires
        old(run).sending(),
        call_ensures(
            SendRun::settle,
            (run, Err(Error::Broker { response_code: code, message }), retry_not_stored, codes),
            r,
        ),
        call_ensures(SendRun::wants_attempt, (&*final(run),), more),
    ensures
        codes@.contains(code) ==> {
            &&& r.1 is Again
            &&& final(run).last_exc == Some(Error::Broker { response_code: code, message })
            &&& final(run).attempt == old(run).attempt + 1
            &&& more <==> old(run).attempt + 1 < old(run).times_total
            &&& final(run).result == old(run).result
        },
        !codes@.contains(code) ==> match old(run).result {
            Some(kept) => r.1 == SendVerdict::Done(Ok(kept)),
            None => r.1 == SendVerdict::Done(Err(Error::Broker { response_code: code, message })),
        },
{
}

/// What no broker can mend ends a send at once, as it is.
pub proof fn law_hopeless_failure_ends_a_send(
    run: &mut SendRun,
    e: Error,
    retry_not_stored: bool,
    codes: &BTreeSet<i32>,
    r: (Option<FaultMark>, SendVerdict),
)
    requires
        old(run).sending(),
        e is Decode || e is Encode || e is Io || e is Json,
        call_ensures(SendRun::settle, (run, Err(e), retry_not_stored, codes), r),
    ensures
        r.1 == SendVerdict::Done(Err(e)),
        r.0 is None,
{
}

/// An answer that the message is stored ends a send with that answer, and so does any answer
/// where another broker is not to be tried for it. Else it is kept, and the send goes on.
pub proof fn law_stored_message_is_not_sent_again(
    run: &mut SendRun,
    answer: SendResult,
    retry_not_stored: bool,
    codes: &BTreeSet<i32>,
    r: (Option<FaultMark>, SendVerdict),
    more: bool,
)
    requires
        old(run).sending(),
        call_ensures(SendRun::settle, (run, Ok(answer), retry_not_stored, codes), r),
        call_ensures(SendRun::wants_attempt, (&*final(run),), more),
    ensures
        answer.status == SendStatus::SendOk || !retry_not_stored ==> r.1 == SendVerdict::Done(Ok(answer)),
        answer.status != SendStatus::SendOk && retry_not_stored ==> {
            &&& r.1 is Again
            &&& final(run).result == Some(answer)
            &&& final(run).attempt == old(run).attempt + 1
            &&& more <==> old(run).attempt + 1 < old(run).times_total
            &&& final(run).last_exc == old(run).last_exc
        },
{
}

/// A broker is kept away from after it refused, or could not be talked to; not after it took the
/// message, nor after a failure of the client. Only a refusal says that it cannot be reached.
pub proof fn law_fault_table_blames_the_broker(
    run: &mut SendRun,
    got: Result<SendResult, Error>,
    retry_not_stored: bool,
    codes: &BTreeSet<i32>,
    r: (Option<FaultMark>, SendVerdict),
)
    requires
        old(run).sending(),
        call_ensures(SendRun::settle, (run, got, retry_not_stored, codes), r),
    ensures
        match got {
            Ok(_) => r.0 == Some(FaultMark { isolation: false, reachable: true }),
            Err(e) => {
                &&& e is Broker ==> r.0 == Some(FaultMark { isolation: true, reachable: false })
                &&& e is Connect || e is SendRequest || e is Timeout || e is TooMuchRequest || e is RemotingCommand
                    || e is Server ==> r.0 == Some(FaultMark { isolation: true, reachable: true })
                &&& e is Client || e is RequestTimeout ==> r.0 == Some(FaultMark { isolation: false, reachable: true })
            },
        },
{
}

/// What a send gives in the end: the answer of a broker that took the message; else, where the
/// budget was used up, that; else a failure with the code that the last failure stands for, which
/// names the topic and the last failure.
pub proof fn law_end_of_a_send(run: SendRun, cost: i64, r: Result<SendResult, Error>)
    requires
        call_ensures(SendRun::finish, (run, cost), r),
    ensures
        run.result is Some ==> r == Ok::<SendResult, Error>(run.result->0),
        run.result is None ==> r is Err,
        run.result is None && run.call_timeout ==> r->Err_0 is TooMuchRequest,
        run.result is None && !run.call_timeout ==> r->Err_0 is Client && error_code(r->Err_0) == match run.last_exc {
            None => None,
            Some(e) => if e is Broker {
                error_code(e)
            } else if e is Connect {
                Some(10001i32)
            } else if e is Timeout {
                Some(10002i32)
            } else if e is Client || e is RequestTimeout {
                Some(10003i32)
            } else {
                None
            },
        },
{
}

/// The failures that another try can mend are those that have a kind.
pub proof fn law_retryable_failures_have_a_kind(e: Error, again: bool, kind: Option<SendErrorKind>)
    requires
        call_ensures(retryable, (&e,), again),
        call_ensures(classify_send_error, (&e,), kind),
    ensures
        again == (kind is Some),
        again == !(e is Decode || e is Encode || e is Io || e is Json),
        kind == Some(SendErrorKind::Broker) <==> e is Broker,
        kind == Some(SendErrorKind::Client) <==> e is Client || e is RequestTimeout,
{
}

/// A topic without a route is a client failure: with its own code, or with that of an unknown
/// topic. What else went wrong is handed on.
pub proof fn law_route_failure_has_a_code(e: Error, r: Error)
    requires
        call_ensures(route_failure, (e,), r),
    ensures
        e is Client ==> r is Client && error_code(r) == Some(
            match error_code(e) {
                Some(c) => c,
                None => 10005i32,
            },
        ),
        !(e is Client) ==> r == e,
{
}

} // verus!

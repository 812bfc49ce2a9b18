//! Asynchronous sends: the way into the queue, the attempts, and the one delivery.
use vstd::prelude::*;

use crate::error::{error_code, error_text, is_client, Error};
use crate::message::{MessageQueue, QueueView};
use crate::permits::{left_of, SendPermits};
use crate::result::SendResult;
use crate::send::FaultMark;
use crate::text::{decimal, int_text};

verus! {

/// What an attempt without an answer is reported as.
pub open spec fn async_report(e: Error, cost: i64) -> Option<Seq<char>> {
    match e {
        Error::SendRequest { .. } => Some("send request failed, last error: "@ + error_text(e)),
        Error::Timeout { .. } => Some(
            "wait response timeout, cost="@ + decimal(cost as int) + ", last error: "@ + error_text(e),
        ),
        Error::TooMuchRequest(_) | Error::Connect { .. } | Error::RemotingCommand(_) | Error::Io(_) => Some(
            "unknown reason, last error: "@ + error_text(e),
        ),
        _ => None,
    }
}

/// Failures after which another broker may do better: those where no answer came, except
/// that the client itself had too much to do.
pub open spec fn async_retry(e: Error) -> bool {
    match e {
        Error::SendRequest { .. } | Error::Timeout { .. } | Error::Connect { .. } | Error::RemotingCommand(_)
        | Error::Io(_) => true,
        _ => false,
    }
}

/// What a failed attempt is reported as, and whether it is worth another.
///
/// A failure that came as an answer stays as it is and ends the send.
pub fn classify_async_failure(err: Error, cost: i64) -> (r: (Error, bool))
    ensures
        match async_report(err, cost) {
            Some(text) => is_client(r.0, None, text),
            None => r.0 == err,
        },
        r.1 == async_retry(err),
{
    let text = err.text();
    match err {
        Error::SendRequest { .. } => (
            Error::client("send request failed, last error: ".to_owned().concat(text.as_str()).as_str()),
            true,
        ),
        Error::Timeout { .. } => (
            Error::client(
                "wait response timeout, cost=".to_owned().concat(int_text(cost).as_str()).concat(
                    ", last error: ",
                ).concat(text.as_str()).as_str(),
            ),
            true,
        ),
        Error::TooMuchRequest(_) => (
            Error::client("unknown reason, last error: ".to_owned().concat(text.as_str()).as_str()),
            false,
        ),
        Error::Connect { .. } | Error::RemotingCommand(_) | Error::Io(_) => (
            Error::client("unknown reason, last error: ".to_owned().concat(text.as_str()).as_str()),
            true,
        ),
        _ => (err, false),
    }
}

/// What follows an attempt of a chain.
#[derive(Debug)]
pub enum ChainStep {
    /// The send is over; this is delivered.
    Finish(Result<SendResult, Error>),
    /// Another attempt: on the same broker where the queue is pinned, else on one that a
    /// selection away from the current broker gives.
    Retry { pinned: bool },
}

/// The attempts of one asynchronous send.
#[derive(Debug)]
pub struct AsyncSendChain {
    /// Where the current attempt goes.
    pub mq: MessageQueue,
    pub addr: String,
    /// The caller chose the queue.
    pub pinned: bool,
    /// What is left of the budget that all attempts share.
    pub timeout: i64,
    /// How many attempts have failed.
    pub times: i32,
    /// The number by which an answer finds its attempt.
    pub opaque: i32,
}

/// The failure where no address of a broker is known.
pub fn broker_missing(broker_name: &str) -> (r: Error)
    ensures
        is_client(r, None, "The broker["@ + broker_name@ + "] not exist"@),
{
    Error::client("The broker[".to_owned().concat(broker_name).concat("] not exist").as_str())
}

impl AsyncSendChain {
    pub open spec fn wf(&self) -> bool {
        &&& self.timeout >= 0
        &&& 0 <= self.times < i32::MAX
    }

    /// The next attempt is one of those that are allowed, with some of the time that the last
    /// one had.
    pub open spec fn goes_on_within(&self, before: &AsyncSendChain, retry_times: i32) -> bool {
        &&& self.times == before.times + 1
        &&& self.times <= retry_times
        &&& 0 < self.timeout <= before.timeout
    }

    pub fn new(mq: MessageQueue, addr: String, pinned: bool, timeout: i64, opaque: i32) -> (r: AsyncSendChain)
        requires
            timeout >= 0,
        ensures
            r.wf(),
            r == (AsyncSendChain { mq, addr, pinned, timeout, times: 0, opaque }),
    {
        AsyncSendChain { mq, addr, pinned, timeout, times: 0, opaque }
    }

    /// The number of the attempt that is about to go out: the first keeps the request's own,
    /// each later one takes the fresh number, so that a late answer finds no later attempt.
    pub fn attempt(&mut self, fresh: i32) -> (r: i32)
        ensures
            *final(self) == (AsyncSendChain {
                opaque: if old(self).times > 0 {
                    fresh
                } else {
                    old(self).opaque
                },
                ..*old(self)
            }),
            r == final(self).opaque,
    {
        if self.times > 0 {
            self.opaque = fresh;
        }
        self.opaque
    }

    /// The current attempt has ended after `cost` milliseconds. Gives what the fault table is
    /// told, and what follows.
    pub fn on_response(&mut self, got: Result<SendResult, Error>, cost: i64, retry_times: i32) -> (r: (
        FaultMark,
        ChainStep,
    ))
        requires
            old(self).wf(),
            cost >= 0,
        ensures
            match got {
                Ok(answer) => {
                    &&& r.0 == (FaultMark { isolation: false, reachable: true })
                    &&& r.1 == ChainStep::Finish(got)
                    &&& *final(self) == *old(self)
                },
                Err(e) => {
                    let again = async_retry(e) && old(self).times + 1 <= retry_times && old(self).timeout
                        > cost;
                    &&& r.0 == (FaultMark { isolation: true, reachable: true })
                    &&& *final(self) == (AsyncSendChain {
                        times: (old(self).times + 1) as i32,
                        timeout: if again {
                            (old(self).timeout - cost) as i64
                        } else {
                            old(self).timeout
                        },
                        ..*old(self)
                    })
                    &&& again ==> r.1 == (ChainStep::Retry { pinned: old(self).pinned })
                    &&& !again ==> (r.1 matches ChainStep::Finish(Err(f)) && match async_report(e, cost) {
                        Some(text) => is_client(f, None, text),
                        None => f == e,
                    })
                },
            },
            r.1 is Retry ==> final(self).goes_on_within(old(self), retry_times),
    {
        match got {
            Ok(answer) => (
                FaultMark { isolation: false, reachable: true },
                ChainStep::Finish(Ok(answer)),
            ),
            Err(e) => {
                let (wrapped, need_retry) = classify_async_failure(e, cost);
                (
                    FaultMark { isolation: true, reachable: true },
                    self.on_exception(wrapped, need_retry, cost, retry_times),
                )
            },
        }
    }

    /// An attempt has failed: another, where that can help, is allowed and has time left.
    pub fn on_exception(&mut self, error: Error, need_retry: bool, cost: i64, retry_times: i32) -> (r: ChainStep)
        requires
            old(self).wf(),
            cost >= 0,
        ensures
            ({
                let again = need_retry && old(self).times + 1 <= retry_times && old(self).timeout > cost;
                &&& *final(self) == (AsyncSendChain {
                    times: (old(self).times + 1) as i32,
                    timeout: if again {
                        (old(self).timeout - cost) as i64
                    } else {
                        old(self).timeout
                    },
                    ..*old(self)
                })
                &&& r == if again {
                    ChainStep::Retry { pinned: old(self).pinned }
                } else {
                    ChainStep::Finish(Err(error))
                }
            }),
    {
        self.times = self.times + 1;
        if need_retry && self.times <= retry_times && self.timeout > cost {
            self.timeout = self.timeout - cost;
            ChainStep::Retry { pinned: self.pinned }
        } else {
            ChainStep::Finish(Err(error))
        }
    }

    /// Where the next attempt goes: to the selected queue, or where the last one went.
    pub fn next_target(&self, selected: Option<&MessageQueue>) -> (r: MessageQueue)
        ensures
            r@ == match selected {
                Some(s) => if self.pinned {
                    self.mq@
                } else {
                    QueueView {
                        topic: self.mq@.topic,
                        broker_name: s.broker_name@,
                        queue_id: s.queue_id,
                    }
                },
                None => self.mq@,
            },
    {
        match selected {
            Some(s) if !self.pinned => MessageQueue::new(
                self.mq.topic.as_str(),
                s.broker_name.as_str(),
                s.queue_id,
            ),
            _ => self.mq.clone(),
        }
    }

    /// Turns the chain to `mq`, where the address of its broker is known; else the send is
    /// over.
    pub fn redirect(&mut self, mq: MessageQueue, addr: Option<String>) -> (r: Result<(), Error>)
        ensures
            match addr {
                Some(a) => r is Ok && *final(self) == (AsyncSendChain { mq, addr: a, ..*old(self) }),
                None => *final(self) == *old(self) && (r matches Err(e) && is_client(
                    e,
                    None,
                    "The broker["@ + mq.broker_name@ + "] not exist"@,
                )),
            },
    {
        match addr {
            Some(a) => {
                self.mq = mq;
                self.addr = a;
                Ok(())
            },
            None => Err(broker_missing(mq.broker_name.as_str())),
        }
    }
}

/// A job that has left the queue after `cost` milliseconds: what is left of its budget, or
/// its failure.
pub fn dequeued_budget(timeout: i64, cost: i64) -> (r: Result<i64, Error>)
    requires
        cost >= 0,
    ensures
        match r {
            Ok(left) => timeout > cost && left == timeout - cost,
            Err(e) => timeout <= cost && (e matches Error::TooMuchRequest(m) && m@
                == "DEFAULT ASYNC send call timeout"@),
        },
{
    if timeout <= cost {
        Err(Error::TooMuchRequest("DEFAULT ASYNC send call timeout".to_owned()))
    } else {
        Ok(timeout - cost)
    }
}

/// What a send in the background does next, on its way from the queue to the network.
#[derive(Debug)]
pub enum Admission {
    /// It waits for a permit to send one more, at most so many milliseconds.
    AwaitNum(i64),
    /// It waits for the permits of its bytes, at most so many milliseconds.
    AwaitSize(i64),
    /// It is sent, within so many milliseconds.
    Go(i64),
    /// It ends here, without a request.
    Refuse(Error),
}

/// The send ends, as one that came too late or found too many under way.
pub open spec fn refused(a: Admission, text: Seq<char>) -> bool {
    a matches Admission::Refuse(e) && e matches Error::TooMuchRequest(m) && m@ == text
}

/// A send that has left the queue `cost` milliseconds after it was asked for. What the queue
/// took counts against its budget before anything else does.
pub fn leave_queue(backpressure: bool, timeout: i64, cost: i64) -> (r: Admission)
    requires
        cost >= 0,
    ensures
        if timeout <= cost {
            refused(r, "DEFAULT ASYNC send call timeout"@)
        } else if backpressure {
            r == Admission::AwaitNum((timeout - cost) as i64)
        } else {
            r == Admission::Go((timeout - cost) as i64)
        },
{
    match dequeued_budget(timeout, cost) {
        Ok(left) => if backpressure {
            Admission::AwaitNum(left)
        } else {
            Admission::Go(left)
        },
        Err(e) => Admission::Refuse(e),
    }
}

/// The wait for a permit to send one more is over. A send with nothing left of its budget
/// does not wait for the bytes.
pub fn pass_num(permits: &mut SendPermits, acquired: bool, timeout: i64, cost: i64) -> (r: Admission)
    requires
        cost >= 0,
    ensures
        *final(permits) == (SendPermits { num_acquired: acquired, ..*old(permits) }),
        if !acquired {
            refused(r, "send message tryAcquire semaphoreAsyncNum timeout"@)
        } else if timeout <= cost {
            refused(r, "send message tryAcquire semaphoreAsyncSize timeout"@)
        } else {
            r == Admission::AwaitSize((timeout - cost) as i64)
        },
{
    if let Err(e) = permits.num_answer(acquired) {
        return Admission::Refuse(e);
    }
    match left_of(timeout, cost) {
        Some(left) => Admission::AwaitSize(left),
        None => Admission::Refuse(
            Error::TooMuchRequest("send message tryAcquire semaphoreAsyncSize timeout".to_owned()),
        ),
    }
}

/// The wait for the permits of the bytes is over. The budget is looked at once more.
pub fn pass_size(permits: &mut SendPermits, acquired: bool, timeout: i64, cost: i64) -> (r: Admission)
    requires
        cost >= 0,
    ensures
        *final(permits) == (SendPermits { size_acquired: acquired, ..*old(permits) }),
        if !acquired {
            refused(r, "send message tryAcquire semaphoreAsyncSize timeout"@)
        } else if timeout <= cost {
            refused(r, "DEFAULT ASYNC send call timeout"@)
        } else {
            r == Admission::Go((timeout - cost) as i64)
        },
{
    if let Err(e) = permits.size_answer(acquired) {
        return Admission::Refuse(e);
    }
    match dequeued_budget(timeout, cost) {
        Ok(left) => Admission::Go(left),
        Err(e) => Admission::Refuse(e),
    }
}

/// A send whose preparation took `cost` milliseconds: what is left for the network, or the
/// failure.
pub fn kernel_budget(timeout: i64, cost: i64) -> (r: Result<i64, Error>)
    requires
        cost >= 0,
    ensures
        match r {
            Ok(left) => timeout >= cost && left == timeout - cost,
            Err(e) => timeout < cost && (e matches Error::TooMuchRequest(m) && m@
                == "sendKernelImpl call timeout"@),
        },
{
    if timeout < cost {
        Err(Error::TooMuchRequest("sendKernelImpl call timeout".to_owned()))
    } else {
        Ok(timeout - cost)
    }
}

/// The failure of an asynchronous send for which no queue could be selected.
pub fn async_select_failure(topic: &str, e: &Error) -> (r: Error)
    ensures
        is_client(
            r,
            None,
            "Send [0] times, still failed, Topic: "@ + topic@ + ", BrokersSent: [], last error: "@
                + error_text(*e),
        ),
{
    Error::client(
        "Send [0] times, still failed, Topic: ".to_owned().concat(topic).concat(
            ", BrokersSent: [], last error: ",
        ).concat(e.text().as_str()).as_str(),
    )
}

/// Where a job went.
#[derive(Debug, Clone, Copy, PartialEq, Eq, Structural)]
pub enum Submitted {
    /// Into the queue.
    Queued,
    /// Past the full queue, at once.
    OffQueue,
}

/// What becomes of a job. `taken` is what the queue said of it; `None` where there is no
/// queue any more. A full queue turns a job away only without back pressure.
pub fn submit_async_job(taken: Option<bool>, backpressure: bool) -> (r: Result<Submitted, Error>)
    ensures
        match taken {
            None => r matches Err(e) && is_client(e, None, "producer already shutdown"@),
            Some(true) => r == Ok::<Submitted, Error>(Submitted::Queued),
            Some(false) => if backpressure {
                r == Ok::<Submitted, Error>(Submitted::OffQueue)
            } else {
                r matches Err(e) && is_client(e, None, "executor rejected"@)
            },
        },
{
    match taken {
        None => Err(Error::client("producer already shutdown")),
        Some(true) => Ok(Submitted::Queued),
        Some(false) => if backpressure {
            Ok(Submitted::OffQueue)
        } else {
            Err(Error::client("executor rejected"))
        },
    }
}

/// One step of the end of an asynchronous send.
#[derive(Debug, Clone, Copy, PartialEq, Eq, Structural)]
pub enum EndStep {
    /// The hooks after the send see its outcome.
    AfterHooks,
    /// The permits go back.
    ReleasePermits,
    /// The caller's callback gets the outcome.
    Callback,
}

/// The steps of the end of an asynchronous send, in their order.
pub open spec fn end_steps(hooked: bool, permits: bool) -> Seq<EndStep> {
    (if hooked {
        seq![EndStep::AfterHooks]
    } else {
        Seq::empty()
    }) + (if permits {
        seq![EndStep::ReleasePermits]
    } else {
        Seq::empty()
    }) + seq![EndStep::Callback]
}

/// The steps of the end of an asynchronous send.
pub fn complete_async(hooked: bool, permits: bool) -> (r: Vec<EndStep>)
    ensures
        r@ == end_steps(hooked, permits),
{
    let mut out: Vec<EndStep> = Vec::new();
    if hooked {
        out.push(EndStep::AfterHooks);
    }
    if permits {
        out.push(EndStep::ReleasePermits);
    }
    out.push(EndStep::Callback);
    assert(out@ =~= end_steps(hooked, permits));
    out
}

/// The callback runs exactly once, and last: the permits are back by then.
pub proof fn law_callback_once_and_last(hooked: bool, permits: bool)
    ensures
        end_steps(hooked, permits).last() == EndStep::Callback,
        forall|i: int|
            0 <= i < end_steps(hooked, permits).len() - 1 ==> #[trigger] end_steps(hooked, permits)[i]
                != EndStep::Callback,
{
}

/// What the pool of senders is made with: at least one place and one worker.
pub fn pool_shape(capacity: i32, workers: usize) -> (r: (usize, usize))
    ensures
        r.0 == if capacity < 1 {
            1
        } else {
            capacity as int
        },
        r.1 == if workers < 1 {
            1
        } else {
            workers as int
        },
{
    (
        if capacity < 1 {
            1
        } else {
            capacity as usize
        },
        if workers < 1 {
            1
        } else {
            workers
        },
    )
}

/// Hears of the end of an asynchronous send.
pub trait SendCallback: Send + 'static {
    /// The results that it can take.
    spec fn takes_result(&self, result: SendResult) -> bool;

    /// The failures that it can take.
    spec fn takes_error(&self, err: Error) -> bool;

    fn on_success(&mut self, result: SendResult)
        requires
            old(self).takes_result(result),
    ;

    fn on_exception(&mut self, err: Error)
        requires
            old(self).takes_error(err),
    ;
}

/// A callback of two functions, each of which runs at most once.
pub struct ClosureSendCallback<S, F> {
    success: Option<S>,
    failure: Option<F>,
}

impl<S: FnOnce(SendResult), F: FnOnce(Error)> ClosureSendCallback<S, F> {
    pub closed spec fn success_left(&self) -> Option<S> {
        self.success
    }

    pub closed spec fn failure_left(&self) -> Option<F> {
        self.failure
    }

    /// Either function may be missing.
    pub fn new(success: Option<S>, failure: Option<F>) -> (r: ClosureSendCallback<S, F>)
        ensures
            r.success_left() == success,
            r.failure_left() == failure,
    {
        ClosureSendCallback { success, failure }
    }

    /// Takes the function for success out; a second call finds none.
    pub fn take_success(&mut self) -> (r: Option<S>)
        ensures
            r == old(self).success_left(),
            final(self).success_left() is None,
            final(self).failure_left() == old(self).failure_left(),
    {
        self.success.take()
    }

    /// Takes the function for failure out; a second call finds none.
    pub fn take_failure(&mut self) -> (r: Option<F>)
        ensures
            r == old(self).failure_left(),
            final(self).failure_left() is None,
            final(self).success_left() == old(self).success_left(),
    {
        self.failure.take()
    }
}

impl<S: FnOnce(SendResult) + Send + 'static, F: FnOnce(Error) + Send + 'static> SendCallback for ClosureSendCallback<
    S,
    F,
> {
    open spec fn takes_result(&self, result: SendResult) -> bool {
        self.success_left() matches Some(f) ==> call_requires(f, (result,))
    }

    open spec fn takes_error(&self, err: Error) -> bool {
        self.failure_left() matches Some(f) ==> call_requires(f, (err,))
    }

    fn on_success(&mut self, result: SendResult)
        ensures
            final(self).success_left() is None,
            final(self).failure_left() == old(self).failure_left(),
            old(self).success_left() matches Some(f) ==> call_ensures(f, (result,), ()),
    {
        if let Some(f) = self.take_success() {
            f(result);
        }
    }

    fn on_exception(&mut self, err: Error)
        ensures
            final(self).failure_left() is None,
            final(self).success_left() == old(self).success_left(),
            old(self).failure_left() matches Some(f) ==> call_ensures(f, (err,), ()),
    {
        if let Some(f) = self.take_failure() {
            f(err);
        }
    }
}

/// An attempt for which no answer came is made again, as long as there are retries and time left:
/// within what is left of the time, and counted. Once either is used up, the send is over with a
/// client failure.
pub proof fn law_unanswered_attempt_is_made_again(
    chain: &mut AsyncSendChain,
    e: Error,
    cost: i64,
    retry_times: i32,
    r: (FaultMark, ChainStep),
)
    requires
        old(chain).wf() && cost >= 0,
        e is SendRequest || e is Timeout || e is Connect || e is RemotingCommand || e is Io,
        call_ensures(AsyncSendChain::on_response, (chain, Err(e), cost, retry_times), r),
    ensures
        final(chain).times == old(chain).times + 1,
        r.1 is Retry <==> old(chain).times < retry_times && cost < old(chain).timeout,
        r.1 is Retry ==> r.1 == (ChainStep::Retry { pinned: old(chain).pinned }) && final(chain).timeout + cost
            == old(chain).timeout,
        r.1 is Retry || (r.1 matches ChainStep::Finish(Err(f)) && f is Client && error_code(f) is None),
        r.0.isolation && r.0.reachable,
{
}

/// An answer ends a send, and so does a failure that no attempt can mend: what came is what is
/// delivered. That the client had too much to do is delivered as a failure of the client.
pub proof fn law_answer_ends_the_chain(
    chain: &mut AsyncSendChain,
    got: Result<SendResult, Error>,
    cost: i64,
    retry_times: i32,
    r: (FaultMark, ChainStep),
)
    requires
        old(chain).wf() && cost >= 0,
        call_ensures(AsyncSendChain::on_response, (chain, got, cost, retry_times), r),
        match got {
            Ok(_) => true,
            Err(e) => e is Broker || e is Server || e is Client || e is RequestTimeout || e is Decode || e is Encode
                || e is Json || e is TooMuchRequest,
        },
    ensures
        match got {
            Ok(answer) => {
                &&& r.1 == ChainStep::Finish(Ok(answer))
                &&& !r.0.isolation && r.0.reachable
                &&& *final(chain) == *old(chain)
            },
            Err(e) => {
                &&& r.0.isolation && r.0.reachable
                &&& e is TooMuchRequest ==> (r.1 matches ChainStep::Finish(Err(f)) && f is Client)
                &&& !(e is TooMuchRequest) ==> r.1 == ChainStep::Finish(Err(e))
            },
        },
{
}

/// A failed attempt is worth another where no answer came, unless the client had too much to do.
/// It is reported as a client failure that holds the text of what came; an answer is reported as
/// it is.
pub proof fn law_failures_without_an_answer_are_worth_another(e: Error, cost: i64, r: (Error, bool))
    requires
        call_ensures(classify_async_failure, (e, cost), r),
    ensures
        r.1 == (e is SendRequest || e is Timeout || e is Connect || e is RemotingCommand || e is Io),
        r.1 || e is TooMuchRequest ==> {
            let text = error_text(e);
            &&& r.0 matches Error::Client { response_code, message }
            &&& response_code is None
            &&& message@.len() >= text.len()
            &&& message@.subrange(message@.len() - text.len(), message@.len() as int) == text
        },
        !r.1 && !(e is TooMuchRequest) ==> r.0 == e,
{
    if let Error::Client { response_code, message } = r.0 {
        let text = error_text(e);
        if text.len() <= message@.len() && (r.1 || e is TooMuchRequest) {
            assert(message@.subrange(message@.len() - text.len(), message@.len() as int) =~= text);
        }
    }
}

/// The first attempt goes out under the number of the request, each later one under a fresh
/// number; nothing else of the chain changes.
pub proof fn law_later_attempts_have_fresh_numbers(chain: &mut AsyncSendChain, fresh: i32, r: i32)
    requires
        call_ensures(AsyncSendChain::attempt, (chain, fresh), r),
    ensures
        old(chain).times > 0 ==> r == fresh,
        old(chain).times <= 0 ==> r == old(chain).opaque,
        final(chain).opaque == r,
        final(chain).mq == old(chain).mq && final(chain).addr == old(chain).addr && final(chain).times == old(chain).times
            && final(chain).timeout == old(chain).timeout && final(chain).pinned == old(chain).pinned,
{
}

/// The next attempt of a pinned send goes to the same queue, that of any other to the queue that
/// was selected, under the topic of the send; where none was selected, it stays where it was. The
/// send then goes to the address of that queue's broker, or is over where there is none.
pub proof fn law_retry_goes_to_the_selected_broker(
    chain: &mut AsyncSendChain,
    selected: Option<&MessageQueue>,
    next: MessageQueue,
    addr: Option<String>,
    r: Result<(), Error>,
)
    requires
        call_ensures(AsyncSendChain::next_target, (&*old(chain), selected), next),
        call_ensures(AsyncSendChain::redirect, (chain, next, addr), r),
    ensures
        next.topic@ == old(chain).mq.topic@,
        old(chain).pinned || selected is None ==> next@ == old(chain).mq@,
        !old(chain).pinned && selected is Some ==> next.broker_name@ == selected->0.broker_name@ && next.queue_id
            == selected->0.queue_id,
        r is Ok <==> addr is Some,
        r is Ok ==> final(chain).mq == next && final(chain).addr == addr->0,
        r is Err ==> r->Err_0 is Client && *final(chain) == *old(chain),
        final(chain).timeout == old(chain).timeout && final(chain).times == old(chain).times && final(chain).opaque
            == old(chain).opaque && final(chain).pinned == old(chain).pinned,
{
}

/// Before it goes out, a send must have some time left at every gate: once what has passed
/// reaches its budget, it is refused there, and without a permit it is refused too. What it is
/// given for the next step is all that is left. Without back pressure it waits at no gate.
pub proof fn law_gates_keep_the_budget(
    backpressure: bool,
    timeout: i64,
    cost: i64,
    left: Admission,
    num: &mut SendPermits,
    got_num: bool,
    after_num: Admission,
    size: &mut SendPermits,
    got_size: bool,
    after_size: Admission,
)
    requires
        cost >= 0,
        call_ensures(leave_queue, (backpressure, timeout, cost), left),
        call_ensures(pass_num, (num, got_num, timeout, cost), after_num),
        call_ensures(pass_size, (size, got_size, timeout, cost), after_size),
    ensures
        timeout <= cost <==> left is Refuse,
        timeout <= cost || !got_num <==> after_num is Refuse,
        timeout <= cost || !got_size <==> after_size is Refuse,
        left matches Admission::AwaitNum(t) ==> backpressure && t + cost == timeout,
        left matches Admission::Go(t) ==> !backpressure && t + cost == timeout,
        !(left is AwaitSize) && !(after_num is Go) && !(after_num is AwaitNum) && !(after_size is AwaitNum) && !(
        after_size is AwaitSize),
        after_num matches Admission::AwaitSize(t) ==> t + cost == timeout,
        after_size matches Admission::Go(t) ==> t + cost == timeout,
        left matches Admission::Refuse(e) ==> e is TooMuchRequest,
        after_num matches Admission::Refuse(e) ==> e is TooMuchRequest,
        after_size matches Admission::Refuse(e) ==> e is TooMuchRequest,
        final(num).num_acquired == got_num && final(num).size_acquired == old(num).size_acquired && final(num).msg_len
            == old(num).msg_len,
        final(size).size_acquired == got_size && final(size).num_acquired == old(size).num_acquired,
        final(size).msg_len == old(size).msg_len,
{
}

/// The time that preparing a send took comes off its budget; the request may still go out with
/// nothing left, but not with less. A send that leaves the queue needs something left.
pub proof fn law_budgets_shrink_by_what_was_used(
    timeout: i64,
    cost: i64,
    kernel: Result<i64, Error>,
    queued: Result<i64, Error>,
)
    requires
        cost >= 0,
        call_ensures(kernel_budget, (timeout, cost), kernel),
        call_ensures(dequeued_budget, (timeout, cost), queued),
    ensures
        kernel is Ok <==> cost <= timeout,
        queued is Ok <==> cost < timeout,
        kernel matches Ok(t) ==> t + cost == timeout,
        queued matches Ok(t) ==> t + cost == timeout,
        kernel matches Err(e) ==> e is TooMuchRequest,
        queued matches Err(e) ==> e is TooMuchRequest,
{
}

/// A job that the queue took is queued. One that it had no place for goes past it under back
/// pressure, and is turned away without. Without a queue there is no send.
pub proof fn law_full_queue_turns_away_without_back_pressure(
    taken: Option<bool>,
    backpressure: bool,
    r: Result<Submitted, Error>,
)
    requires
        call_ensures(submit_async_job, (taken, backpressure), r),
    ensures
        r is Err <==> taken is None || (taken == Some(false) && !backpressure),
        r is Err ==> r->Err_0 is Client,
        r == Ok::<Submitted, Error>(Submitted::Queued) <==> taken == Some(true),
        r == Ok::<Submitted, Error>(Submitted::OffQueue) <==> taken == Some(false) && backpressure,
{
}

/// At the end of a send the hooks see its outcome where there are any, and the permits go back
/// where it holds any, both before the callback, and each once.
pub proof fn law_end_of_an_asynchronous_send(hooked: bool, permits: bool, steps: Vec<EndStep>)
    requires
        call_ensures(complete_async, (hooked, permits), steps),
    ensures
        steps@.len() > 0 && steps@.last() == EndStep::Callback,
        steps@.no_duplicates(),
        steps@.contains(EndStep::AfterHooks) <==> hooked,
        steps@.contains(EndStep::ReleasePermits) <==> permits,
        hooked ==> steps@[0] == EndStep::AfterHooks,
{
    let s = steps@;
    if hooked {
        assert(s[0] == EndStep::AfterHooks);
    }
    if permits {
        assert(s[s.len() - 2] == EndStep::ReleasePermits);
    }
}

/// The pool has as many places and workers as it was asked for, and never less than one.
pub proof fn law_pool_is_never_empty(capacity: i32, workers: usize, r: (usize, usize))
    requires
        call_ensures(pool_shape, (capacity, workers), r),
    ensures
        r.0 >= 1 && r.1 >= 1,
        capacity >= 1 ==> r.0 == capacity,
        workers >= 1 ==> r.1 == workers,
        capacity < 1 ==> r.0 == 1,
        workers < 1 ==> r.1 == 1,
{
}

} // verus!

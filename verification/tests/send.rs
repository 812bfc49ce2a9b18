//! Sends under way: attempts, budgets, permits, chains.
use std::collections::BTreeSet;

use rocketmq_client::async_send::{
    async_select_failure, classify_async_failure, complete_async, dequeued_budget, kernel_budget, leave_queue,
    pass_num, pass_size, pool_shape, submit_async_job, Admission, AsyncSendChain, ChainStep, EndStep, Submitted,
};
use rocketmq_client::client_error_code;
use rocketmq_client::config::default_retry_response_codes;
use rocketmq_client::error::Error;
use rocketmq_client::message::MessageQueue;
use rocketmq_client::permits::{left_of, PermitGate, SendPermits};
use rocketmq_client::publish::{ring_index, route_queue_lists, TopicPublishInfo};
use rocketmq_client::response_code;
use rocketmq_client::result::{SendResult, SendStatus};
use rocketmq_client::route::{BrokerData, QueueData, TopicRouteData};
use rocketmq_client::send::{
    classify_send_error, retryable, route_failure, FaultMark, SendErrorKind, SendRun, SendVerdict,
};

fn busy() -> Error {
    Error::Broker { response_code: response_code::SYSTEM_BUSY, message: "busy".to_string() }
}

fn illegal() -> Error {
    Error::Broker { response_code: response_code::MESSAGE_ILLEGAL, message: "no".to_string() }
}

fn mq(broker: &str) -> MessageQueue {
    MessageQueue::new("T1", broker, 0)
}

fn flushed() -> SendResult {
    SendResult { status: SendStatus::FlushDiskTimeout, ..SendResult::default() }
}

fn codes() -> BTreeSet<i32> {
    default_retry_response_codes()
}

#[test]
fn retry_covers_client_broker_and_remoting_errors() {
    for e in [
        Error::client("no route"),
        Error::Broker { response_code: 14, message: "topic not exist".into() },
        Error::Server { response_code: 3, remark: "system busy".into() },
        Error::RemotingCommand("bad command".into()),
        Error::Connect { addr: "1.2.3.4:10911".into() },
        Error::SendRequest { addr: "1.2.3.4:10911".into(), message: "io".into() },
        Error::Timeout { addr: "1.2.3.4:10911".into(), timeout_millis: 3000 },
        Error::TooMuchRequest("full".into()),
        Error::RequestTimeout { topic: "T1".into(), timeout_millis: 3000 },
    ] {
        assert!(retryable(&e), "{} is to be retried", e.text());
    }
    for e in [
        Error::Decode("bad frame".into()),
        Error::Encode("illegal arg".into()),
        Error::Io("disk".into()),
    ] {
        assert!(!retryable(&e), "{} is not to be retried", e.text());
    }
}

#[test]
fn send_errors_classify_like_python_except_arms() {
    let cases: [(&Error, Option<SendErrorKind>); 9] = [
        (&Error::Broker { response_code: 2, message: "busy".into() }, Some(SendErrorKind::Broker)),
        (&Error::Connect { addr: "a:1".into() }, Some(SendErrorKind::Remoting)),
        (&Error::SendRequest { addr: "a:1".into(), message: "io".into() }, Some(SendErrorKind::Remoting)),
        (&Error::Timeout { addr: "a:1".into(), timeout_millis: 3000 }, Some(SendErrorKind::Remoting)),
        (&Error::TooMuchRequest("full".into()), Some(SendErrorKind::Remoting)),
        (&Error::RemotingCommand("bad".into()), Some(SendErrorKind::Remoting)),
        (&Error::client("no queue"), Some(SendErrorKind::Client)),
        (&Error::request_timeout("T1", 100), Some(SendErrorKind::Client)),
        (&Error::Decode("bad frame".into()), None),
    ];
    for (err, expected) in cases {
        assert_eq!(classify_send_error(err), expected, "{}", err.text());
    }
}

#[test]
fn each_failure_has_its_text() {
    assert_eq!(busy().text(), "MQBrokerException: CODE: 2 DESC: busy");
    assert_eq!(Error::request_timeout("T", 5).text(), "request to topic T timeout, 5ms");
    assert_eq!(Error::client("x").text(), "MQClientException: x");
    assert_eq!(Error::client_with_code(7, "x").response_code(), Some(7));
    assert_eq!(Error::Json("x".to_string()).response_code(), None);
}

#[test]
fn retryable_broker_code_switches_to_another_broker() {
    let mut run = SendRun::new("T1", 2, 3000);
    assert_eq!(run.last_broker(), None);
    let (target, t) = run.begin(&mq("b0"), 10, -1).unwrap();
    assert_eq!((target.broker_name.as_str(), t), ("b0", 2990));
    let (mark, verdict) = run.settle(Err(busy()), false, &codes());
    assert_eq!(mark, Some(FaultMark { isolation: true, reachable: false }));
    assert!(matches!(verdict, SendVerdict::Again));
    assert_eq!(run.last_broker().as_deref(), Some("b0"));
    assert!(run.wants_attempt());
    run.begin(&mq("b1"), 20, -1).unwrap();
    let (mark, verdict) = run.settle(Ok(SendResult::default()), false, &codes());
    assert_eq!(mark, Some(FaultMark { isolation: false, reachable: true }));
    assert!(matches!(verdict, SendVerdict::Done(Ok(_))));
}

#[test]
fn non_retryable_broker_code_throws_at_once() {
    let mut run = SendRun::new("T1", 2, 3000);
    run.begin(&mq("b0"), 0, -1).unwrap();
    match run.settle(Err(illegal()), false, &codes()).1 {
        SendVerdict::Done(Err(e)) => {
            assert_eq!(e.response_code(), Some(response_code::MESSAGE_ILLEGAL));
            assert!(matches!(e, Error::Broker { .. }));
        }
        _ => panic!("the failure was due"),
    }
}

#[test]
fn a_stored_answer_outlives_a_later_refusal() {
    let mut run = SendRun::new("T1", 2, 3000);
    run.begin(&mq("b0"), 0, -1).unwrap();
    assert!(matches!(run.settle(Ok(flushed()), true, &codes()).1, SendVerdict::Again));
    run.begin(&mq("b1"), 0, -1).unwrap();
    match run.settle(Err(illegal()), true, &codes()).1 {
        SendVerdict::Done(Ok(r)) => assert_eq!(r.status, SendStatus::FlushDiskTimeout),
        _ => panic!("the first answer was due"),
    }
}

#[test]
fn without_the_setting_any_answer_ends_the_send() {
    let mut run = SendRun::new("T1", 2, 3000);
    run.begin(&mq("b0"), 0, -1).unwrap();
    assert!(matches!(run.settle(Ok(flushed()), false, &codes()).1, SendVerdict::Done(Ok(_))));
}

#[test]
fn attempts_and_budget_are_bounded() {
    let mut run = SendRun::new("T1", 1, 1000);
    assert_eq!(run.begin(&mq("b0"), 100, 300).unwrap().1, 300);
    run.settle(Err(Error::Timeout { addr: "a".to_string(), timeout_millis: 300 }), false, &codes());
    assert_eq!(run.begin(&mq("b1"), 400, 300).unwrap().1, 600);
    run.settle(Err(Error::Timeout { addr: "a".to_string(), timeout_millis: 600 }), false, &codes());
    assert!(!run.wants_attempt());
    match run.finish(1000).unwrap_err() {
        Error::Client { response_code, message } => {
            assert_eq!(response_code, Some(client_error_code::ACCESS_BROKER_TIMEOUT));
            assert_eq!(
                message,
                "Send [2] times, still failed, cost [1000]ms, Topic: T1, BrokersSent: [b0, b1], \
                 last error: wait response on a timeout, 600ms"
            );
        }
        _ => panic!("a client failure was due"),
    }
    let mut late = SendRun::new("T1", 1, 100);
    assert!(late.begin(&mq("b0"), 101, -1).is_none());
    assert!(!late.wants_attempt());
    assert_eq!(late.finish(101).unwrap_err().text(), "too much request: sendDefaultImpl call timeout");
}

#[test]
fn a_failed_selection_counts_as_an_attempt() {
    let mut run = SendRun::new("T1", 0, 100);
    run.select_failed(Error::client("no queue"));
    assert!(!run.wants_attempt());
    assert_eq!(
        run.finish(3).unwrap_err().response_code(),
        Some(client_error_code::BROKER_NOT_EXIST_EXCEPTION)
    );
    assert_eq!(
        route_failure(Error::client("x")).response_code(),
        Some(client_error_code::NOT_FOUND_TOPIC_EXCEPTION)
    );
    assert_eq!(route_failure(Error::client_with_code(9, "x")).response_code(), Some(9));
    assert!(matches!(route_failure(busy()), Error::Broker { .. }));
}

#[test]
fn a_chain_takes_a_fresh_number_for_each_retry() {
    let mut chain = AsyncSendChain::new(mq("b0"), "a:0".to_string(), false, 1000, 5);
    assert_eq!(chain.attempt(6), 5);
    let (mark, step) = chain.on_response(Err(Error::Connect { addr: "a:0".to_string() }), 100, 2);
    assert_eq!(mark, FaultMark { isolation: true, reachable: true });
    assert!(matches!(step, ChainStep::Retry { pinned: false }));
    assert_eq!(chain.timeout, 900);
    let target = chain.next_target(Some(&MessageQueue::new("other", "b1", 3)));
    assert_eq!(target, MessageQueue::new("T1", "b1", 3));
    assert!(chain.redirect(target, None).unwrap_err().text().contains("The broker[b1] not exist"));
    chain.redirect(mq("b1"), Some("a:1".to_string())).unwrap();
    assert_eq!(chain.attempt(7), 7);
    let (_, step) = chain.on_response(Ok(SendResult::default()), 1, 2);
    assert!(matches!(step, ChainStep::Finish(Ok(_))));
}

#[test]
fn a_pinned_chain_stays_on_its_broker() {
    let mut chain = AsyncSendChain::new(mq("b0"), "a:0".to_string(), true, 1000, 5);
    let (_, step) = chain.on_response(Err(Error::Io("x".to_string())), 0, 1);
    assert!(matches!(step, ChainStep::Retry { pinned: true }));
    assert_eq!(chain.next_target(Some(&mq("b1"))), mq("b0"));
    let (_, step) = chain.on_response(Err(Error::Io("x".to_string())), 0, 1);
    match step {
        ChainStep::Finish(Err(e)) => assert!(e.text().contains("unknown reason, last error: io: x")),
        _ => panic!("no retry was left"),
    }
}

#[test]
fn an_answer_that_refuses_ends_the_chain() {
    let mut chain = AsyncSendChain::new(mq("b0"), "a:0".to_string(), false, 1000, 5);
    let (_, step) = chain.on_response(Err(busy()), 0, 5);
    assert!(matches!(step, ChainStep::Finish(Err(Error::Broker { .. }))));
    let (e, again) = classify_async_failure(Error::Timeout { addr: "a".to_string(), timeout_millis: 9 }, 7);
    assert!(again);
    assert_eq!(
        e.text(),
        "MQClientException: wait response timeout, cost=7, last error: wait response on a timeout, 9ms"
    );
    let (_, again) = classify_async_failure(Error::TooMuchRequest("x".to_string()), 7);
    assert!(!again);
}

#[test]
fn queue_wait_beyond_budget_reports_async_send_call_timeout() {
    let late = dequeued_budget(3_000, 5_000).unwrap_err();
    assert!(late.text().contains("DEFAULT ASYNC send call timeout"));
    assert_eq!(
        dequeued_budget(100, 100).unwrap_err().text(),
        "too much request: DEFAULT ASYNC send call timeout"
    );
    assert_eq!(dequeued_budget(100, 99).unwrap(), 1);
    assert_eq!(kernel_budget(100, 100).unwrap(), 0);
    assert_eq!(kernel_budget(100, 101).unwrap_err().text(), "too much request: sendKernelImpl call timeout");
    assert!(async_select_failure("T1", &Error::client("x")).text().contains("Send [0] times"));
}

#[test]
fn a_full_queue_turns_jobs_away_without_back_pressure() {
    assert_eq!(submit_async_job(Some(true), false).unwrap(), Submitted::Queued);
    assert_eq!(submit_async_job(Some(false), true).unwrap(), Submitted::OffQueue);
    assert!(submit_async_job(Some(false), false).unwrap_err().text().contains("executor rejected"));
    assert!(submit_async_job(None, true).unwrap_err().text().contains("producer already shutdown"));
    assert_eq!(pool_shape(0, 0), (1, 1));
    assert_eq!(pool_shape(-3, 4), (1, 4));
    assert_eq!(pool_shape(5, 2), (5, 2));
}

#[test]
fn the_callback_comes_last() {
    assert_eq!(
        complete_async(true, true),
        vec![EndStep::AfterHooks, EndStep::ReleasePermits, EndStep::Callback]
    );
    assert_eq!(complete_async(false, false), vec![EndStep::Callback]);
}

#[test]
fn permits_come_back() {
    let mut num = PermitGate::new(10, 10);
    let mut size = PermitGate::new(100, 10);
    let mut held = SendPermits::new(40);
    assert!(num.try_take(1));
    held.num_answer(true).unwrap();
    assert!(size.try_take(40));
    held.size_answer(true).unwrap();
    assert_eq!((num.free, size.free), (9, 60));
    assert!(!size.try_take(61));
    held.release(&mut num, &mut size);
    assert_eq!((num.free, size.free), (10, 100));
    held.release(&mut num, &mut size);
    assert_eq!((num.free, size.free), (10, 100));
    let mut refused = SendPermits::new(1);
    assert!(refused.num_answer(false).unwrap_err().text().contains("semaphoreAsyncNum timeout"));
    assert!(refused.size_answer(false).unwrap_err().text().contains("semaphoreAsyncSize timeout"));
    assert_eq!(left_of(10, 4), Some(6));
    assert_eq!(left_of(10, 11), None);
}

#[test]
fn lowering_the_total_leaves_what_is_out() {
    let mut gate = PermitGate::new(10, 10);
    assert!(gate.try_take(8));
    gate.set_total_permits(5);
    assert_eq!((gate.total, gate.free), (5, -3));
    assert!(!gate.try_take(1));
    gate.release(8);
    assert_eq!(gate.free, 5);
}

fn told(step: Admission) -> String {
    match step {
        Admission::Refuse(e) => e.text(),
        other => panic!("not refused: {other:?}"),
    }
}

#[test]
fn a_send_passes_the_queue_and_both_gates_in_turn() {
    let mut permits = SendPermits::new(40);
    assert!(matches!(leave_queue(false, 100, 10), Admission::Go(90)));
    assert!(matches!(leave_queue(true, 100, 10), Admission::AwaitNum(90)));
    assert!(matches!(pass_num(&mut permits, true, 100, 30), Admission::AwaitSize(70)));
    assert!(matches!(pass_size(&mut permits, true, 100, 60), Admission::Go(40)));
    assert_eq!(permits, SendPermits { num_acquired: true, size_acquired: true, msg_len: 40 });
}

#[test]
fn a_late_send_is_refused_where_it_stands() {
    let mut permits = SendPermits::new(40);
    assert_eq!(told(leave_queue(true, 100, 100)), "too much request: DEFAULT ASYNC send call timeout");
    assert!(told(pass_num(&mut permits, false, 100, 10)).contains("semaphoreAsyncNum timeout"));
    assert!(!permits.num_acquired);
    assert!(told(pass_num(&mut permits, true, 100, 100)).contains("semaphoreAsyncSize timeout"));
    assert!(permits.num_acquired && !permits.size_acquired);
    assert!(told(pass_size(&mut permits, false, 100, 10)).contains("semaphoreAsyncSize timeout"));
    assert_eq!(told(pass_size(&mut permits, true, 100, 100)), "too much request: DEFAULT ASYNC send call timeout");
}

fn route() -> TopicRouteData {
    let mut r = TopicRouteData::new();
    for b in ["b", "a"] {
        r.queue_datas.push(QueueData::new(b, 2, 2, 6, 0));
        r.broker_datas.push(BrokerData::new("c", b, vec![(0, format!("{b}:1"))]));
    }
    r
}

#[test]
fn queues_come_from_the_write_counts_in_order() {
    let list = route_queue_lists(&route(), "T");
    let q = |b: &str, i: i32| MessageQueue::new("T", b, i);
    assert_eq!(list, vec![q("b", 0), q("b", 1), q("a", 0), q("a", 1)]);
    let mut none = TopicRouteData::new();
    none.queue_datas.push(QueueData::new("b", 4, 0, 6, 0));
    none.queue_datas.push(QueueData::new("b", 4, -1, 6, 0));
    assert!(route_queue_lists(&none, "T").is_empty());
}

#[test]
fn selection_walks_the_ring_and_keeps_away_from_the_last_broker() {
    let mut info = TopicPublishInfo::new();
    info.update_from_route(&route(), "T");
    assert!(info.ok());
    info.reset_index();
    let none: [fn(&MessageQueue) -> bool; 0] = [];
    let mut seen: Vec<MessageQueue> = Vec::new();
    for _ in 0..4 {
        let q = info.select_one_message_queue(&none).unwrap().unwrap();
        assert!(!seen.contains(&q));
        seen.push(q);
    }
    for _ in 0..4 {
        let q = info.select_one_message_queue(&[|m: &MessageQueue| m.broker_name != "a"]).unwrap().unwrap();
        assert_eq!(q.broker_name, "b");
    }
    assert!(info.select_one_message_queue(&[|_m: &MessageQueue| false]).unwrap().is_none());
    let mut empty = TopicPublishInfo::new();
    assert!(empty.select_one_message_queue(&none).is_err());
    assert_eq!(ring_index(7, 4), 3);
    assert_eq!(ring_index(-1, 4), 3);
    assert_eq!(ring_index(i64::MAX, 4), 3);
}

#[test]
fn another_broker_is_taken_where_there_is_one() {
    let mut info = TopicPublishInfo::new();
    info.update_from_route(&route(), "T");
    let names = |list: Vec<MessageQueue>| -> Vec<String> { list.iter().map(|q| q.broker_name.clone()).collect() };
    let mut sent = vec![info.select_apart_from(None, false).unwrap()];
    sent.push(info.select_apart_from(Some(&sent[0].broker_name), true).unwrap());
    sent.push(info.select_apart_from(Some(&sent[1].broker_name), true).unwrap());
    assert_eq!(names(sent), vec!["b", "a", "b"]);
    let mut alone = TopicPublishInfo::new();
    let mut r = TopicRouteData::new();
    r.queue_datas.push(QueueData::new("b", 2, 2, 6, 0));
    alone.update_from_route(&r, "T");
    assert_eq!(alone.select_apart_from(Some("b"), false).unwrap().queue_id, 0);
    assert_eq!(alone.select_apart_from(Some("b"), false).unwrap().queue_id, 1);
    assert_eq!(alone.select_apart_from(Some("b"), true).unwrap().queue_id, 0);
    assert!(TopicPublishInfo::new().select_apart_from(Some("b"), false).is_err());
}

#[test]
fn publish_info_as_json() {
    let mut info = TopicPublishInfo::new();
    let mut r = TopicRouteData::new();
    r.order_topic_conf = Some("b:1".to_string());
    r.queue_datas.push(QueueData::new("b", 1, 1, 6, 0));
    r.broker_datas.push(BrokerData::new("c", "b", vec![(0, "b:1".to_string())]));
    info.update_from_route(&r, "T");
    let dict = info.to_dict();
    assert_eq!(dict["orderTopic"].as_bool(), Some(info.order_topic()));
    assert_eq!(dict["messageQueueList"].as_array().unwrap().len(), info.msg_queue_list().len());
    assert_eq!(dict["messageQueueList"][0]["topic"].as_str(), Some("T"));
    assert_eq!(dict["messageQueueList"][0]["brokerName"].as_str(), Some("b"));
    assert_eq!(dict["messageQueueList"][0]["queueId"].as_i64(), Some(0));
    assert!(info.topic_route_data().is_some());
}

//! The producer: configuration, checks, hooks, life, transactions.
use std::collections::BTreeSet;
use std::sync::atomic::{AtomicUsize, Ordering};
use std::sync::Arc;

use rocketmq_client::async_send::{ClosureSendCallback, SendCallback};
use rocketmq_client::client::{InstanceRegistry, MQClientInstance};
use rocketmq_client::client_error_code;
use rocketmq_client::config::{default_tls_enable, ProducerConfig, DEFAULT_REQUEST_TIMEOUT_MILLIS};
use rocketmq_client::error::Error;
use rocketmq_client::hooks::{
    build_send_context, delay_property_keys, has_hook_named, kernel_steps, note_outcome, take_outcome,
    transaction_forbidden_delay_keys, CommunicationMode, KernelStep, MessageType,
};
use rocketmq_client::message::{
    Message, MessageBatch, MessageExt, MessageQueue, PROPERTY_CORRELATION_ID, PROPERTY_DELAY_TIME_LEVEL,
    PROPERTY_MESSAGE_REPLY_TO_CLIENT, PROPERTY_MESSAGE_TTL, PROPERTY_PRODUCER_GROUP, PROPERTY_TRANSACTION_ID,
    PROPERTY_TRANSACTION_PREPARED, PROPERTY_TRANSFER_FLAG, PROPERTY_UNIQ_KEY,
};
use rocketmq_client::names::{
    check_group, check_topic, wrap_namespace, DEFAULT_INSTANCE_NAME, DEFAULT_PRODUCER_GROUP, DEFAULT_TOPIC,
    DEFAULT_TOPIC_QUEUE_NUMS,
};
use rocketmq_client::permits::{
    back_pressure_msg_len, batch_back_pressure_msg_len, MIN_ASYNC_SEND_NUM, MIN_ASYNC_SEND_SIZE,
};
use rocketmq_client::producer::{
    asks_default, build_client_id, leave, need_addr, request_send_timeout, route_missing,
    validate_name_server_setting, wait_request_response, DefaultMQProducer, StartFacts,
};
use rocketmq_client::protocol::CheckTransactionStateRequestHeader;
use rocketmq_client::publish::PublishMessage;
use rocketmq_client::response_code;
use rocketmq_client::result::{LocalTransactionState, SendResult, SendStatus};
use rocketmq_client::route::{BrokerData, QueueData, TopicRouteData};
use rocketmq_client::selector::{
    java_string_hash, MessageQueueSelector, SelectMessageQueueByHash, SelectMessageQueueByMachineRoom,
    SelectMessageQueueByRandom,
};
use rocketmq_client::sysflag::{
    get_compression_type, COMPRESSED_FLAG, TRANSACTION_COMMIT_TYPE, TRANSACTION_NOT_TYPE, TRANSACTION_PREPARED_TYPE,
    TRANSACTION_ROLLBACK_TYPE, ZLIB_TYPE,
};
use rocketmq_client::transaction::{
    half_failure, half_flag, local_state, next_queue, recall_addr, transaction_result, TransactionListener,
    TransactionMQProducer, TxnEnd,
};

#[derive(Debug)]
struct L;

impl TransactionListener for L {
    type Arg = i32;

    fn execute_local_transaction(&self, _msg: &Message, arg: Option<&i32>) -> LocalTransactionState {
        match arg {
            Some(_) => LocalTransactionState::RollbackMessage,
            None => LocalTransactionState::CommitMessage,
        }
    }

    fn check_local_transaction(&self, _msg: &MessageExt) -> LocalTransactionState {
        LocalTransactionState::Unknow
    }
}

fn producer(group: &str) -> DefaultMQProducer<L> {
    DefaultMQProducer::new(group).unwrap()
}

fn mq(broker: &str, queue_id: i32) -> MessageQueue {
    MessageQueue::new("T1", broker, queue_id)
}

fn queues(broker_prefix: &str, n: i32) -> Vec<MessageQueue> {
    (0..n).map(|i| mq(broker_prefix, i)).collect()
}

fn body_of(n: usize) -> Message {
    Message::new("T1", Some(vec![b'x'; n].as_slice()))
}

fn facts() -> StartFacts {
    StartFacts {
        top_addressing: false,
        fresh_instance: "42#7".to_string(),
        ip: "10.0.0.1".to_string(),
        trace_by_default: false,
    }
}

fn started(group: &str) -> (DefaultMQProducer<L>, MQClientInstance<()>) {
    let mut p = producer(group);
    p.set_namesrv_addr("127.0.0.1:1");
    let plan = p.begin_start(&facts()).unwrap().unwrap();
    let mut instance = MQClientInstance::with_config(&plan.client_id, plan.name_server_addrs, plan.instance_cfg);
    p.client_started(1, &mut instance);
    (p, instance)
}

/// Runs of one byte as that byte and how many of it there are.
fn pack(bytes: &Vec<u8>, kind: i32, _level: i32) -> Result<Vec<u8>, Error> {
    if kind != ZLIB_TYPE {
        return Err(Error::Encode(format!("kind {kind}")));
    }
    let mut out: Vec<u8> = Vec::new();
    for b in bytes {
        let n = out.len();
        if n >= 2 && out[n - 2] == *b && out[n - 1] < 255 {
            out[n - 1] += 1;
        } else {
            out.push(*b);
            out.push(1);
        }
    }
    Ok(out)
}

fn unpack(bytes: &[u8]) -> Vec<u8> {
    bytes.chunks(2).flat_map(|c| vec![c[0]; c[1] as usize]).collect()
}

#[test]
fn config_defaults_match_python() {
    let cfg = ProducerConfig::default();
    assert_eq!(cfg.producer_group, DEFAULT_PRODUCER_GROUP);
    assert_eq!(cfg.instance_name, DEFAULT_INSTANCE_NAME);
    assert_eq!(cfg.client_id, None);
    assert_eq!(cfg.create_topic_key, DEFAULT_TOPIC);
    assert_eq!(cfg.default_topic_queue_nums, DEFAULT_TOPIC_QUEUE_NUMS);
    assert_eq!(cfg.send_msg_timeout, 3000);
    assert_eq!(cfg.compress_msg_body_over_howmuch, 1024 * 4);
    assert_eq!(cfg.compress_level, 5);
    assert_eq!(cfg.compress_type, ZLIB_TYPE);
    assert_eq!(cfg.retry_times_when_send_failed, 2);
    assert!(!cfg.retry_another_broker_when_not_store_ok);
    assert_eq!(cfg.max_message_size, 1024 * 1024 * 4);
    assert_eq!(cfg.heartbeat_interval_millis, 30_000);
    assert!(!cfg.send_latency_fault_enable);
    assert!(!cfg.enable_trace);
    assert_eq!(cfg.trace_msg_batch_num, 10);
    assert_eq!(cfg.request_timeout, DEFAULT_REQUEST_TIMEOUT_MILLIS);
    assert_eq!(cfg.tls_enable, None);
    assert_eq!(cfg.enable_trace_context, None);
}

#[test]
fn empty_producer_group_is_rejected() {
    assert!(DefaultMQProducer::<L>::new("").is_err());
    assert!(DefaultMQProducer::<L>::new("   ").is_err());
    assert!(DefaultMQProducer::<L>::new("GID_ok").is_ok());
}

#[test]
fn producer_group_setter_works_before_start() {
    let mut p = producer("GID_keep");
    p.set_producer_group("GID_new").unwrap();
    assert_eq!(p.producer_group(), "GID_new");
    assert!(DefaultMQProducer::<L>::new("").is_err());
}

#[test]
fn producer_group_stays_after_start() {
    let (mut p, _) = started("GID_keep");
    let err = p.set_producer_group("GID_new").unwrap_err();
    assert!(matches!(err, Error::Client { .. }));
    assert_eq!(p.producer_group(), "GID_keep");
}

#[test]
fn hash_selector_is_deterministic_and_in_range() {
    let mqs = queues("broker-a", 8);
    let msg = Message::new("T1", Some(b"x"));
    for arg in ["", "order-1", "中文 key", "12345"] {
        let first = SelectMessageQueueByHash.select(&mqs, &msg, arg).unwrap();
        let second = SelectMessageQueueByHash.select(&mqs, &msg, arg).unwrap();
        assert_eq!(first, second, "one argument, one queue");
        assert!(mqs.contains(&first));
        let expect = (java_string_hash(arg).unsigned_abs() as usize) % mqs.len();
        assert_eq!(first.queue_id, mqs[expect].queue_id);
    }
    let extreme = java_string_hash("\u{0}");
    let _ = extreme;
    assert!(SelectMessageQueueByHash.select(&[], &msg, "any").is_err());
}

#[test]
fn string_hash_has_its_known_values() {
    assert_eq!(java_string_hash(""), 0);
    assert_eq!(java_string_hash("a"), 97);
    assert_eq!(java_string_hash("order-1"), -1207111310);
    assert_eq!(java_string_hash("polygenelubricants"), i32::MIN);
    assert_eq!(java_string_hash("\u{1F600}"), 1772899);
    let mqs = queues("b", 5);
    let msg = Message::new("T1", None);
    assert_eq!(SelectMessageQueueByHash.select(&mqs, &msg, "polygenelubricants").unwrap().queue_id, 0);
}

#[test]
fn random_selector_stays_in_range() {
    let mqs = queues("broker-a", 4);
    let msg = Message::new("T1", Some(b"x"));
    for _ in 0..32 {
        let got = SelectMessageQueueByRandom.select(&mqs, &msg, "").unwrap();
        assert!(mqs.contains(&got));
    }
    assert!(SelectMessageQueueByRandom.select(&[], &msg, "").is_err());
}

#[test]
fn random_selection_goes_by_the_clock() {
    let mqs = queues("broker-a", 4);
    assert_eq!(SelectMessageQueueByRandom::select_at(&mqs, 7).unwrap().queue_id, 3);
    assert_eq!(SelectMessageQueueByRandom::select_at(&mqs, 8).unwrap().queue_id, 0);
}

#[test]
fn machine_room_selector_prefers_prefix_then_falls_back_to_first() {
    let mqs = vec![mq("roomA-0", 0), mq("roomB-0", 1)];
    let msg = Message::new("T1", Some(b"x"));
    assert_eq!(SelectMessageQueueByMachineRoom.select(&mqs, &msg, "roomB").unwrap(), mqs[1]);
    assert_eq!(SelectMessageQueueByMachineRoom.select(&mqs, &msg, "roomZ").unwrap(), mqs[0]);
    assert!(SelectMessageQueueByMachineRoom.select(&[], &msg, "roomA").is_err());
}

#[test]
fn closure_callback_runs_each_branch_at_most_once() {
    let ok = Arc::new(AtomicUsize::new(0));
    let bad = Arc::new(AtomicUsize::new(0));
    let (o, b) = (ok.clone(), bad.clone());
    let mut cb = ClosureSendCallback::new(
        Some(move |_r: SendResult| {
            o.fetch_add(1, Ordering::SeqCst);
        }),
        Some(move |_e: Error| {
            b.fetch_add(1, Ordering::SeqCst);
        }),
    );
    cb.on_success(SendResult::default());
    cb.on_success(SendResult::default());
    cb.on_exception(Error::client("boom"));
    cb.on_exception(Error::client("boom"));
    assert_eq!(ok.load(Ordering::SeqCst), 1);
    assert_eq!(bad.load(Ordering::SeqCst), 1);
}

#[test]
fn closure_callback_tolerates_missing_branch() {
    let mut cb = ClosureSendCallback::<fn(SendResult), fn(Error)>::new(None, None);
    cb.on_success(SendResult::default());
    cb.on_exception(Error::client("ignored"));
}

#[test]
fn transaction_flag_matches_java_sysflag() {
    assert_eq!(
        DefaultMQProducer::<L>::transaction_flag(LocalTransactionState::CommitMessage),
        TRANSACTION_COMMIT_TYPE
    );
    assert_eq!(
        DefaultMQProducer::<L>::transaction_flag(LocalTransactionState::RollbackMessage),
        TRANSACTION_ROLLBACK_TYPE
    );
    assert_eq!(
        DefaultMQProducer::<L>::transaction_flag(LocalTransactionState::Unknow),
        TRANSACTION_NOT_TYPE
    );
}

#[test]
fn check_message_rejects_empty_topic_and_oversized_body() {
    let mut p = producer("GID_check");
    assert!(p.check_message(&Message::new("", Some(b"x"))).is_err());

    p.set_max_message_size(4);
    assert!(p.check_message(&Message::new("T1", Some(b"12345"))).is_err());
    assert!(p.check_message(&Message::new("T1", Some(b"1234"))).is_ok());
    assert!(p.check_message(&Message::new("T1", None)).is_err());
    assert_eq!(
        p.check_message(&Message::new("T1", None)).unwrap_err().text(),
        "MQClientException: the message body is null"
    );
    assert_eq!(
        p.check_message(&Message::new("T1", Some(b""))).unwrap_err().text(),
        "MQClientException: the message body length is zero"
    );
}

#[test]
fn compression_only_kicks_in_at_threshold() {
    let mut p = producer("GID_compress");
    p.set_compress_msg_body_over_howmuch(1024);
    let mut msg = Message::new("T1", Some(&[b'a'; 1023]));
    let before = msg.get_body().to_vec();
    assert_eq!(p.try_to_compress_message(&mut msg, pack), 0);
    assert_eq!(msg.get_body(), before.as_slice(), "a small body stays");

    let mut big = Message::new("T1", Some(&[b'a'; 4096]));
    let flag = p.try_to_compress_message(&mut big, pack);
    assert_eq!(flag & COMPRESSED_FLAG, COMPRESSED_FLAG);
    assert_eq!(get_compression_type(flag), ZLIB_TYPE);
    let compressed = big.get_body().to_vec();
    assert_ne!(compressed, vec![b'a'; 4096]);
    let raw = unpack(&compressed);
    assert_eq!(raw, vec![b'a'; 4096]);
}

#[test]
fn compression_type_and_empty_body_edges() {
    let mut p = producer("GID_compress_edge");
    p.set_compress_msg_body_over_howmuch(1);
    let mut empty = Message::new("T1", Some(b""));
    assert_eq!(p.try_to_compress_message(&mut empty, pack), 0);

    p.set_compress_type(9);
    let mut msg = Message::new("T1", Some(b"payload payload payload"));
    let before = msg.get_body().to_vec();
    assert_eq!(p.try_to_compress_message(&mut msg, pack), 0);
    assert_eq!(msg.get_body(), before.as_slice());
}

#[test]
fn a_failed_compression_sends_the_body_as_it_is() {
    let mut p = producer("GID_compress_fail");
    p.set_compress_msg_body_over_howmuch(1);
    p.set_compress_type(2);
    let mut msg = Message::new("T1", Some(b"aaaa"));
    assert_eq!(p.try_to_compress_message(&mut msg, pack), 0);
    assert_eq!(msg.get_body(), b"aaaa");
}

#[test]
fn batch_messages_never_compress() {
    let mut p = producer("GID_batch");
    p.set_compress_msg_body_over_howmuch(1);
    let mut batch =
        MessageBatch { message: Message::new("T1", None), messages: vec![Message::new("T1", Some(&[b'x'; 4096]))] };
    let before = batch.message.get_body().len();
    assert_eq!(p.sys_flag_for(&mut PublishMessage::Batch(&mut batch), pack), 0);
    assert_eq!(batch.message.get_body().len(), before, "the body of a batch stays");
}

#[test]
fn namespace_wraps_topic_once() {
    let mut p = producer("GID_ns");
    assert_eq!(p.with_namespace("T1"), "T1", "as it is without a namespace");
    p.set_namespace("ns1");
    assert_eq!(p.with_namespace("T1"), "ns1%T1");
    assert_eq!(p.with_namespace(&p.with_namespace("T1")), "ns1%T1");
}

#[test]
fn retry_and_dead_letter_prefixes_stay_in_front() {
    assert_eq!(wrap_namespace("ns", "%RETRY%g"), "%RETRY%ns%g");
    assert_eq!(wrap_namespace("ns", "%RETRY%ns%g"), "%RETRY%ns%g");
    assert_eq!(wrap_namespace("ns", "%DLQ%g"), "%DLQ%ns%g");
    assert_eq!(wrap_namespace("ns", "TBW102"), "TBW102");
    assert_eq!(wrap_namespace("ns", ""), "");
}

#[test]
fn send_context_msg_type_follows_python_priority() {
    let m = mq("broker-a", 0);

    let plain = Message::new("T1", Some(b"x"));
    let ctx = build_send_context(&plain, "GID_ctx", "", &m, "127.0.0.1:10911", CommunicationMode::Sync);
    assert_eq!(ctx.msg_type, MessageType::NormalMsg);
    assert_eq!(ctx.communication_mode, Some(CommunicationMode::Sync));
    assert_eq!(ctx.broker_addr, "127.0.0.1:10911");

    let mut half = Message::new("T1", Some(b"x"));
    half.put_property(PROPERTY_TRANSACTION_PREPARED, "true");
    let ctx = build_send_context(&half, "GID_ctx", "", &m, "", CommunicationMode::Sync);
    assert_eq!(ctx.msg_type, MessageType::TransMsgHalf);

    let mut delay = Message::new("T1", Some(b"x"));
    delay.put_property(PROPERTY_DELAY_TIME_LEVEL, "3");
    let ctx = build_send_context(&delay, "GID_ctx", "", &m, "", CommunicationMode::Sync);
    assert_eq!(ctx.msg_type, MessageType::DelayMsg);

    let mut both = Message::new("T1", Some(b"x"));
    both.put_property(PROPERTY_TRANSACTION_PREPARED, "true");
    both.put_property("TIMER_DELIVER_MS", "123");
    let ctx = build_send_context(&both, "GID_ctx", "", &m, "", CommunicationMode::Oneway);
    assert_eq!(ctx.msg_type, MessageType::DelayMsg);
}

#[test]
fn send_context_carries_message_snapshot_and_transfer_flag_is_untouched() {
    let mut msg = Message::new("T1", Some(b"body"));
    msg.put_property(PROPERTY_TRANSFER_FLAG, "kv");
    let ctx = build_send_context(
        &msg,
        "GID_snapshot",
        "ns",
        &mq("broker-a", 2),
        "127.0.0.1:10911",
        CommunicationMode::Async,
    );
    let snapshot = ctx.message.unwrap();
    assert_eq!(snapshot.get_property(PROPERTY_TRANSFER_FLAG), Some("kv"));
    assert_eq!(snapshot.get_body(), b"body".as_slice());
    assert_eq!(ctx.namespace, "ns");
    assert_eq!(ctx.mq, Some(mq("broker-a", 2)));
}

#[test]
fn hooks_after_a_send_see_its_end() {
    let msg = Message::new("T1", Some(b"body"));
    let context =
        || build_send_context(&msg, "G", "", &mq("broker-a", 0), "a:1", CommunicationMode::Sync);
    let mut failed = context();
    let kept = note_outcome(&mut failed, Err(Error::client("no broker")));
    assert!(failed.exception.is_some() && failed.send_result.is_none());
    assert!(take_outcome(failed, kept).unwrap_err().text().contains("no broker"));
    let mut sent = context();
    let kept = note_outcome(&mut sent, Ok(SendResult::default()));
    assert!(sent.exception.is_none() && sent.send_result.is_some());
    assert_eq!(take_outcome(sent, kept).unwrap().status, SendStatus::SendOk);
}

#[test]
fn what_forbids_a_send_comes_before_all_else() {
    assert_eq!(
        kernel_steps(true, true, true),
        vec![
            KernelStep::CheckForbidden,
            KernelStep::InjectTrace,
            KernelStep::Before,
            KernelStep::Send,
            KernelStep::After
        ]
    );
    assert_eq!(kernel_steps(false, false, false), vec![KernelStep::Send]);
    let mut p = producer("GID_steps");
    p.set_enable_trace_context(Some(true));
    assert_eq!(p.send_steps(true), vec![KernelStep::Send]);
    assert_eq!(p.send_steps(false), vec![KernelStep::InjectTrace, KernelStep::Send]);
    p.register_check_forbidden_hook("F");
    assert_eq!(p.send_steps(true)[0], KernelStep::CheckForbidden);
    let c = p.forbidden_context(&Message::new("T1", None), &mq("b", 0), "a:1", Some("arg"), CommunicationMode::Oneway);
    assert_eq!(c.arg.as_deref(), Some("arg"));
    assert_eq!(c.group, "GID_steps");
}

#[test]
fn trace_hooks_are_registered_once() {
    let mut p = producer("GID_trace");
    assert_eq!(p.missing_trace_hooks(), (false, false));
    p.set_enable_trace(true);
    assert_eq!(p.missing_trace_hooks(), (true, true));
    p.register_send_message_hook("SendMessageTraceHook");
    assert_eq!(p.missing_trace_hooks(), (false, true));
    p.register_end_transaction_hook("EndTransactionTraceHook");
    assert_eq!(p.missing_trace_hooks(), (false, false));
    assert!(has_hook_named(&["a".to_string()], "a"));
    assert!(!has_hook_named(&["a".to_string()], "b"));
}

#[test]
fn send_async_before_start_reports_not_started() {
    let p = producer("GID_async");
    let err = p.send_async(&Message::new("T1", Some(b"x")), None, true).unwrap_err();
    assert!(err.text().contains("producer not started"), "the client comes before the runtime");
}

#[test]
fn send_batch_async_before_start_reports_not_started() {
    let p = producer("GID_batch_async");
    let err = p.send_batch_async(&[Message::new("T1", Some(b"x"))], None, true).unwrap_err();
    assert!(err.text().contains("producer not started"), "the client comes before the runtime");
}

#[test]
fn send_async_before_start_raises_without_calling_back() {
    let p = producer("GID_async_unstarted");
    let err = p.send_async(&body_of(10), Some(1_000), true).unwrap_err();
    assert!(err.text().contains("producer not started"));
    let done = Arc::new(AtomicUsize::new(0));
    let seen = done.clone();
    let cb = ClosureSendCallback::new(
        Some(move |_r: SendResult| {
            seen.fetch_add(1, Ordering::SeqCst);
        }),
        None::<fn(Error)>,
    );
    drop(cb);
    assert_eq!(done.load(Ordering::SeqCst), 0);
}

#[test]
fn an_async_send_is_a_job_with_a_budget_and_a_size() {
    let (p, _) = started("GID_job");
    assert!(p.send_async(&body_of(10), None, false).is_err());
    let job = p.send_async(&body_of(10), None, true).unwrap();
    assert_eq!((job.timeout, job.msg_len), (3000, 10));
    let job = p.send_batch_async(&[body_of(10), body_of(0)], Some(7), true).unwrap();
    assert_eq!((job.timeout, job.msg_len), (7, 11));
    assert_eq!(p.send_batch_async(&[], None, true).unwrap().msg_len, 1);
}

#[test]
fn batch_back_pressure_len_counts_every_message() {
    let one = Message::new("T1", Some(b"12345"));
    let empty = Message::new("T1", None);
    assert_eq!(batch_back_pressure_msg_len(std::slice::from_ref(&one)), 5);
    assert_eq!(batch_back_pressure_msg_len(&[one.clone(), one.clone()]), 10);
    assert_eq!(batch_back_pressure_msg_len(std::slice::from_ref(&empty)), 1);
    assert_eq!(batch_back_pressure_msg_len(&[empty.clone(), empty.clone()]), 2);
    assert_eq!(batch_back_pressure_msg_len(&[one, empty]), 6);
    assert_eq!(batch_back_pressure_msg_len(&[]), 1);
}

#[test]
fn empty_body_still_costs_one_size_permit() {
    assert_eq!(back_pressure_msg_len(&body_of(5)), 5);
    assert_eq!(back_pressure_msg_len(&body_of(0)), 1);
    let no_body = Message::new("T1", None);
    assert_eq!(back_pressure_msg_len(&no_body), 1);
}

#[test]
fn view_message_is_not_supported() {
    let p = producer("GID_view");
    let err = p.view_message("T1", "ABCDEF").err().unwrap();
    assert!(err.text().contains("not supported"));
}

#[test]
fn transaction_producer_falls_back_to_preset_listener() {
    let mut tp = TransactionMQProducer::<L>::new("GID_txn").unwrap();
    assert!(tp.transaction_listener().is_none());
    tp.set_transaction_listener(Some(L));
    assert!(tp.transaction_listener().is_some());
    assert_eq!(tp.producer().producer_group(), "GID_txn");
    tp.set_transaction_listener(None);
    assert!(tp.transaction_listener().is_none());
}

#[test]
fn delay_keys_differ_between_hook_and_transaction() {
    assert!(!transaction_forbidden_delay_keys().contains(&"__STARTDELIVERTIME".to_string()));
    assert!(delay_property_keys().contains(&"__STARTDELIVERTIME".to_string()));
    assert_eq!(transaction_forbidden_delay_keys().len(), 5);
    assert_eq!(delay_property_keys().len(), 5);
}

#[test]
fn default_retry_response_codes_match_java() {
    let cfg = ProducerConfig::default();
    let expected: BTreeSet<i32> = [
        response_code::SYSTEM_ERROR,
        response_code::SYSTEM_BUSY,
        response_code::SERVICE_NOT_AVAILABLE,
        response_code::NO_PERMISSION,
        response_code::TOPIC_NOT_EXIST,
        response_code::NO_BUYER_ID,
        response_code::NOT_IN_CURRENT_UNIT,
        response_code::GO_AWAY,
    ]
    .into_iter()
    .collect();
    assert_eq!(cfg.retry_response_codes, expected);
    assert_eq!(cfg.send_msg_max_timeout_per_request, -1);
}

#[test]
fn added_codes_are_retried_and_no_code_is_not() {
    let mut p = producer("GID_codes");
    assert!(!p.is_retry_response_code(Some(response_code::MESSAGE_ILLEGAL)));
    p.add_retry_response_code(response_code::MESSAGE_ILLEGAL);
    assert!(p.is_retry_response_code(Some(response_code::MESSAGE_ILLEGAL)));
    assert!(!p.is_retry_response_code(None));
    assert_eq!(p.get_retry_response_codes().len(), 9);
}

#[test]
fn backpressure_defaults_match_java() {
    let producer = producer("GID_bp_default");
    assert!(!producer.is_enable_backpressure_for_async_mode());
    assert_eq!(producer.get_back_pressure_for_async_send_num(), 1024);
    assert_eq!(producer.get_back_pressure_for_async_send_size(), 100 * 1024 * 1024);
    assert_eq!(producer.semaphore_async_send_num_available_permits(), 1024);
    assert_eq!(producer.semaphore_async_send_size_available_permits(), 100 * 1024 * 1024);
}

#[test]
fn constructor_floors_undersized_capacities() {
    let cfg = ProducerConfig {
        producer_group: "GID_bp_floor".to_string(),
        back_pressure_for_async_send_num: 1,
        back_pressure_for_async_send_size: 1024,
        ..Default::default()
    };
    let producer = DefaultMQProducer::<L>::with_config(cfg).unwrap();
    assert_eq!(producer.get_back_pressure_for_async_send_num(), 1, "the setting stays");
    assert_eq!(
        producer.semaphore_async_send_num_available_permits(),
        MIN_ASYNC_SEND_NUM,
        "the permits have a floor"
    );
    assert_eq!(producer.semaphore_async_send_size_available_permits(), MIN_ASYNC_SEND_SIZE);
}

#[test]
fn setter_floors_both_gates() {
    let mut producer = producer("GID_bp_setter");
    producer.set_back_pressure_for_async_send_num(1);
    producer.set_back_pressure_for_async_send_size(1024);
    assert_eq!(producer.get_back_pressure_for_async_send_num(), MIN_ASYNC_SEND_NUM);
    assert_eq!(producer.get_back_pressure_for_async_send_size(), MIN_ASYNC_SEND_SIZE);
    assert_eq!(producer.semaphore_async_send_num_available_permits(), MIN_ASYNC_SEND_NUM);
    assert_eq!(producer.semaphore_async_send_size_available_permits(), MIN_ASYNC_SEND_SIZE);
}

#[test]
fn settings_read_back() {
    let mut p = producer("GID_set");
    p.set_retry_times_when_send_async_failed(4);
    assert_eq!(p.get_retry_times_when_send_async_failed(), 4);
    p.set_async_sender_queue_capacity(9);
    assert_eq!(p.get_async_sender_queue_capacity(), 9);
    p.set_retry_another_broker_when_not_store_ok(true);
    assert!(p.is_retry_another_broker_when_not_store_ok());
    p.set_send_msg_max_timeout_per_request(5);
    assert_eq!(p.get_send_msg_max_timeout_per_request(), 5);
    p.set_enable_backpressure_for_async_mode(true);
    assert!(p.is_enable_backpressure_for_async_mode());
    p.set_namesrv_addr(" a:1 ;; b:2");
    assert_eq!(p.namesrv_addr(), "a:1;b:2");
    p.set_unit_name(Some("u"));
    assert_eq!(p.config().unit_name.as_deref(), Some("u"));
    p.set_trace_topic(None);
    assert_eq!(p.config().trace_topic, None);
    assert_eq!(p.config().send_msg_timeout, 3000);
    p.set_unit_mode(true);
    p.set_enable_stream_request_type(true);
    p.set_topics(vec!["T".to_string()]);
    p.set_tls_enable(Some(true));
    p.set_client_id(Some("me"));
    p.set_send_msg_timeout(7);
    p.set_retry_times_when_send_failed(1);
    p.set_compress_level(9);
    p.set_create_topic_key("K");
    p.set_default_topic_queue_nums(6);
    p.set_send_latency_fault_enable(true);
    p.set_request_timeout(11);
    p.set_enable_trace(true);
    p.set_trace_msg_batch_num(3);
    assert!(p.is_enable_trace());
    let c = p.config();
    assert!(c.unit_mode && c.enable_stream_request_type && c.send_latency_fault_enable);
    assert_eq!((c.tls_enable, c.client_id.as_deref(), c.create_topic_key.as_str()), (Some(true), Some("me"), "K"));
    assert_eq!((c.send_msg_timeout, c.request_timeout, c.retry_times_when_send_failed), (7, 11, 1));
    assert_eq!((c.compress_level, c.default_topic_queue_nums, c.trace_msg_batch_num), (9, 6, 3));
    assert_eq!(c.topics, vec!["T".to_string()]);
}

#[test]
fn tls_goes_by_the_environment() {
    for on in ["1", " TRUE", "Yes ", "on"] {
        assert!(default_tls_enable(on), "{on}");
    }
    for off in ["", "0", "off", "y", "true1"] {
        assert!(!default_tls_enable(off), "{off}");
    }
}

#[test]
fn keys_and_tags_are_properties() {
    let mut msg = Message::new("T1", None);
    assert_eq!(msg.get_keys(), None);
    msg.set_keys("a b");
    msg.set_tags("t");
    assert_eq!((msg.get_keys(), msg.get_tags()), (Some("a b"), Some("t")));
    assert_eq!(msg.get_property("KEYS"), Some("a b"));
}

#[test]
fn start_requires_an_address_source() {
    let mut p = producer("GID_noaddr");
    assert!(p.begin_start(&facts()).is_err());
    assert!(!p.is_started());
    let mut p = producer("GID_ws");
    let plan = p.begin_start(&StartFacts { top_addressing: true, ..facts() }).unwrap().unwrap();
    assert!(plan.name_server_addrs.is_empty());
    p.start_failed();
    assert!(!p.is_started());
}

#[test]
fn start_stamps_a_client_id_of_address_and_instance() {
    let (mut p, _) = started("GID_clientid_shape");
    assert_eq!(p.client_id().as_deref(), Some("10.0.0.1@42#7"));
    assert_eq!(p.config().instance_name, "42#7");
    assert!(p.begin_start(&facts()).unwrap().is_none());
    assert_eq!(
        build_client_id("1.2.3.4", "i", &Some("u".to_string()), true),
        "1.2.3.4@i@u@STREAM"
    );
}

#[test]
fn start_rejects_bad_producer_group_without_touching_network() {
    let long_group = "g".repeat(121);
    for (group, needle) in [
        ("DEFAULT_PRODUCER", "producerGroup can not equal DEFAULT_PRODUCER"),
        ("bad group", "contains illegal characters"),
        (long_group.as_str(), "is longer than group max length"),
    ] {
        let mut p = producer(group);
        p.set_namesrv_addr("127.0.0.1:9876");
        let err = p.begin_start(&facts()).err().unwrap();
        assert!(err.text().contains(needle), "{group}: {}", err.text());
        assert!(!p.is_started(), "{group}");
    }
}

#[test]
fn producer_group_is_validated_after_the_namespace_wrap() {
    let mut p = producer(&"g".repeat(110));
    p.set_namespace("ns".repeat(30).as_str());
    let err = p.begin_start(&facts()).err().unwrap();
    assert!(err.text().contains("is longer than group max length"), "{}", err.text());
    assert!(!p.is_started());
}

#[test]
fn poll_name_server_interval_reaches_the_instance() {
    let mut p = producer("GID_interval_probe");
    assert_eq!(p.config().poll_name_server_interval_millis, 30_000);
    p.set_namesrv_addr("127.0.0.1:1");
    p.set_poll_name_server_interval_millis(1_500);
    let plan = p.begin_start(&facts()).unwrap().unwrap();
    assert_eq!(plan.instance_cfg.route_refresh_interval_millis, 1_500);
    assert_eq!(plan.instance_cfg.persist_offset_interval_millis, 5_000);
}

#[test]
fn the_last_user_of_an_instance_takes_it_out_of_the_registry() {
    let mut registry = InstanceRegistry::new();
    let mut a = producer("GID_a");
    let mut b = producer("GID_b");
    for p in [&mut a, &mut b] {
        p.set_instance_name("shared");
        p.set_namesrv_addr("127.0.0.1:1");
    }
    let plan = a.begin_start(&facts()).unwrap().unwrap();
    let id = plan.client_id.clone();
    assert_eq!(registry.create_mq_client_instance(&id, 1), 1);
    let mut instance: MQClientInstance<()> =
        MQClientInstance::with_config(&id, plan.name_server_addrs, plan.instance_cfg);
    instance.begin_start();
    a.client_started(1, &mut instance);
    let plan = b.begin_start(&facts()).unwrap().unwrap();
    assert_eq!(registry.create_mq_client_instance(&plan.client_id, 2), 1);
    b.client_started(1, &mut instance);
    assert!(instance.has_producer("GID_a") && instance.has_producer("GID_b"));
    let stop = a.begin_shutdown().unwrap();
    leave(&stop, &mut instance, &mut registry, 1);
    assert!(!instance.shutdown(&mut registry, 1));
    assert_eq!(registry.find_instance(&id), Some(1));
    let stop = b.begin_shutdown().unwrap();
    leave(&stop, &mut instance, &mut registry, 1);
    assert_eq!(registry.find_instance(&id), None);
    assert_eq!(registry.create_mq_client_instance(&id, 3), 3);
    assert!(instance.shutdown(&mut registry, 1));
    assert_eq!(registry.find_instance(&id), Some(3));
    assert!(b.begin_shutdown().is_none());
}

#[test]
fn heartbeat_of_a_producer_names_its_group() {
    let mut p = producer("GID_hb");
    let hb = p.heartbeat("cid");
    assert_eq!(hb.client_id, "cid");
    assert_eq!(hb.producer_groups, vec!["GID_hb".to_string()]);
    assert!(hb.consumer_data_set.is_empty());
    p.set_heartbeat_interval_millis(50);
    assert_eq!(p.heartbeat_wait_millis(), 1_000);
    p.set_heartbeat_interval_millis(5_000);
    assert_eq!(p.heartbeat_wait_millis(), 5_000);
}

#[test]
fn a_prepared_message_is_checked_and_compressed() {
    let (mut p, _) = started("GID_prepare");
    p.set_namespace("ns");
    p.set_compress_msg_body_over_howmuch(4);
    let mut msg = Message::new("T1", Some(b"aaaaaaaa"));
    let flag = p.prepare_message(&mut msg, pack).unwrap();
    assert_eq!(msg.topic, "ns%T1");
    assert_eq!(flag & COMPRESSED_FLAG, COMPRESSED_FLAG);
    assert!(p.prepare_message(&mut Message::new("T1", None), pack).is_err());
    let idle = producer("GID_idle");
    let err = idle.prepare_message(&mut Message::new("T1", Some(b"x")), pack).unwrap_err();
    assert!(err.text().contains("not started"));
}

#[test]
fn a_question_carries_whom_to_answer() {
    let (p, _) = started("GID_request");
    let mut msg = Message::new("T1", Some(b"x"));
    assert_eq!(p.prepare_request(&mut msg, Some(500), "corr", "cid").unwrap(), 500);
    assert_eq!(msg.get_property(PROPERTY_CORRELATION_ID), Some("corr"));
    assert_eq!(msg.get_property(PROPERTY_MESSAGE_REPLY_TO_CLIENT), Some("cid"));
    assert_eq!(msg.get_property(PROPERTY_MESSAGE_TTL), Some("500"));
    assert_eq!(request_send_timeout(500, 20), 480);
    assert_eq!(request_send_timeout(500, 600), 500);
    let mut reply = MessageExt::new();
    reply.topic = "R".to_string();
    assert_eq!(wait_request_response("T1", 500, Some(reply), true).unwrap().topic, "R");
    assert!(matches!(
        wait_request_response("T1", 500, None, true),
        Err(Error::RequestTimeout { timeout_millis: 500, .. })
    ));
    assert_eq!(
        wait_request_response("T1", 500, None, false).err().unwrap().text(),
        "MQClientException: send request message to <T1> fail"
    );
}

#[test]
fn transaction_without_listener_is_rejected() {
    let mut p = producer("GID_txn_none");
    let mut msg = Message::new("T1", Some(b"x"));
    assert!(p.prepare_transaction(&mut msg, None).unwrap_err().text().contains("tranExecutor is null"));
}

#[test]
fn transaction_rejects_delay_properties() {
    let (mut p, _) = started("GID_txn_delay");
    let mut msg = Message::new("T1", Some(b"x"));
    msg.put_property(PROPERTY_DELAY_TIME_LEVEL, "3");
    let err = p.prepare_transaction(&mut msg, Some(L)).unwrap_err();
    assert!(err.text().contains("do not support delayed delivery"));
    assert!(p.transaction_listener().is_none());
}

#[test]
fn a_transaction_runs_from_half_message_to_its_end() {
    let (mut p, mut instance) = started("GID_txn_run");
    let mut msg = Message::new("T1", Some(b"x"));
    p.prepare_transaction(&mut msg, Some(L)).unwrap();
    assert_eq!(msg.get_property(PROPERTY_TRANSACTION_PREPARED), Some("true"));
    assert_eq!(msg.get_property(PROPERTY_PRODUCER_GROUP), Some("GID_txn_run"));
    assert_eq!(half_flag(COMPRESSED_FLAG), COMPRESSED_FLAG | TRANSACTION_PREPARED_TYPE);
    assert!(half_failure(&Error::client("x")).text().contains("send message Exception: MQClientException: x"));
    msg.put_property(PROPERTY_UNIQ_KEY, "U1");
    let sent = SendResult {
        transaction_id: Some("tx-1".to_string()),
        offset_msg_id: Some("ID7".to_string()),
        msg_id: Some("U1".to_string()),
        queue_offset: 5,
        message_queue: Some(mq("broker-a", 0)),
        ..SendResult::default()
    };
    let state = local_state(&L, &mut msg, &sent, None);
    assert_eq!(state, LocalTransactionState::CommitMessage);
    assert_eq!(msg.get_property(PROPERTY_TRANSACTION_ID), Some("tx-1"));
    let flushed = SendResult { status: SendStatus::FlushDiskTimeout, ..sent.clone() };
    assert_eq!(local_state(&L, &mut msg, &flushed, None), LocalTransactionState::RollbackMessage);
    assert_eq!(local_state(&L, &mut msg, &sent, Some(&1)), LocalTransactionState::RollbackMessage);

    let read = |id: &str| -> Result<i64, Error> {
        id.strip_prefix("ID").and_then(|n| n.parse().ok()).ok_or(Error::Decode(id.to_string()))
    };
    let end = TxnEnd::Normal { send_result: &sent, msg: &msg };
    assert!(p.end_transaction(&instance, &end, state, false, read).is_err());
    let mut route = TopicRouteData::new();
    route.broker_datas.push(BrokerData::new("c", "broker-a", vec![(0, "a:1".to_string())]));
    instance.store_route("T1", route);
    let (addr, header) = p.end_transaction(&instance, &end, state, false, read).unwrap();
    assert_eq!(addr, "a:1");
    assert_eq!(header.commit_log_offset, Some(7));
    assert_eq!(header.tran_state_table_offset, Some(5));
    assert_eq!(header.commit_or_rollback, Some(TRANSACTION_COMMIT_TYPE));
    assert_eq!(header.transaction_id.as_deref(), Some("tx-1"));
    let context = p.end_context(&end, &header, &addr, state, false);
    assert_eq!(context.transaction_state, Some(LocalTransactionState::CommitMessage));
    assert!(!context.from_transaction_check);
    let done = transaction_result(sent, state);
    assert_eq!(done.local_transaction_state, Some(LocalTransactionState::CommitMessage));
}

#[test]
fn a_broker_asks_about_a_transaction() {
    let (mut p, instance) = started("GID_txn_check");
    let mut m = MessageExt::new();
    m.topic = "T1".to_string();
    assert!(p.handle_check_transaction_state(Some(&m)).unwrap().is_none());
    p.set_transaction_listener(Some(L));
    assert!(p.handle_check_transaction_state(None).unwrap().is_none());
    let l = p.handle_check_transaction_state(Some(&m)).unwrap().unwrap();
    assert_eq!(l.check_local_transaction(&m), LocalTransactionState::Unknow);
    let header = CheckTransactionStateRequestHeader {
        topic: Some("T1".to_string()),
        tran_state_table_offset: Some(3),
        commit_log_offset: Some(4),
        msg_id: None,
        transaction_id: Some("tx".to_string()),
        offset_msg_id: None,
        broker_name: Some("broker-a".to_string()),
    };
    let addr = "a:1".to_string();
    let end = TxnEnd::Check { header: &header, msg_ext: &m, broker_addr: &addr };
    let none = |_id: &str| -> Result<i64, Error> { Err(Error::Decode(String::new())) };
    let (addr, h) =
        p.end_transaction(&instance, &end, LocalTransactionState::Unknow, true, none).unwrap();
    assert_eq!(addr, "a:1");
    assert_eq!(h.tran_state_table_offset, Some(3));
    assert_eq!(h.commit_log_offset, Some(4));
    assert_eq!(h.from_transaction_check, Some(true));
    m.put_property(PROPERTY_PRODUCER_GROUP, "another");
    assert!(p.handle_check_transaction_state(Some(&m)).unwrap().is_none());
}

#[test]
fn batches_are_of_one_kind() {
    let (p, _) = started("GID_batch_check");
    let ids = |n: usize| -> Vec<String> { (0..n).map(|i| format!("id{i}")).collect() };
    assert!(p.prepare_batch(Vec::new(), &ids(0)).is_err());
    let mut batch = p.prepare_batch(vec![body_of(3), body_of(4)], &ids(2)).unwrap();
    assert_eq!(batch.messages.len(), 2);
    assert_eq!(batch.messages[1].get_property(PROPERTY_UNIQ_KEY), Some("id1"));
    assert_eq!(batch.message.topic, "T1");
    batch.seal("outer", vec![1, 2]);
    assert_eq!(batch.message.get_property(PROPERTY_UNIQ_KEY), Some("outer"));
    assert_eq!(batch.message.get_body(), &[1, 2]);
    let mut late = body_of(1);
    late.put_property(PROPERTY_DELAY_TIME_LEVEL, "1");
    assert!(p.prepare_batch(vec![body_of(1), late], &ids(2)).is_err());
    assert!(p.prepare_batch(vec![body_of(1), Message::new("T2", Some(b"x"))], &ids(2)).is_err());
    let idle = producer("GID_idle");
    assert!(idle.prepare_batch(vec![body_of(1)], &ids(1)).is_err());
}

#[test]
fn one_way_messages_take_turns() {
    let (_, mut instance) = started("GID_oneway");
    let mut route = TopicRouteData::new();
    route.queue_datas.push(QueueData::new("broker-a", 2, 2, 6, 0));
    route.broker_datas.push(BrokerData::new("c", "broker-a", vec![(0, "a:1".to_string())]));
    instance.store_route("T1", route);
    let mut info = instance.get_topic_publish_info("T1").unwrap().clone();
    info.reset_index();
    let first = next_queue(&mut info, "ns%T1").unwrap();
    let second = next_queue(&mut info, "ns%T1").unwrap();
    assert_eq!(first.topic, "ns%T1");
    assert_ne!(first.queue_id, second.queue_id);
    assert_eq!(recall_addr(&instance, "broker-a", "x").unwrap(), "a:1");
    assert_eq!(recall_addr(&instance, "broker-z", "T1").unwrap(), "a:1");
    assert!(recall_addr(&instance, "broker-z", "x").is_err());
    assert_eq!(need_addr(Some("a".to_string()), &mq("b", 0)).unwrap(), "a");
    assert!(need_addr(None, &mq("b", 0)).unwrap_err().text().contains("broker address not found for b"));
}

#[test]
fn recall_and_creation_check_the_topic() {
    let (p, _) = started("GID_recall");
    assert_eq!(p.recall_topic("T1").unwrap(), "T1");
    assert!(p.recall_topic("%RETRY%g").is_err());
    assert!(p.recall_topic("%DLQ%g").is_err());
    assert!(p.recall_topic("").is_err());
    assert!(p.create_topic("T1").is_ok());
    assert!(p.create_topic("TBW102").is_err());
    let idle = producer("GID_idle");
    assert!(idle.recall_topic("T1").unwrap_err().text().contains("not started"));
}

#[test]
fn a_missing_route_names_a_missing_name_server_first() {
    let none: Vec<String> = Vec::new();
    let some = vec!["a:1".to_string()];
    assert!(validate_name_server_setting(&some).is_ok());
    let err = route_missing(&none, Error::client("no route"));
    assert_eq!(err.response_code(), Some(client_error_code::NO_NAME_SERVER_EXCEPTION));
    assert!(route_missing(&some, Error::client("no route")).text().contains("no route"));
    assert!(asks_default(&Error::client("x")));
    assert!(!asks_default(&Error::Decode("x".to_string())));
}

#[test]
fn names_have_limits() {
    assert!(check_topic("a%b_c-d|e").is_ok());
    assert!(check_topic("a b").is_err());
    assert!(check_topic("").is_err());
    assert!(check_topic(&"t".repeat(127)).is_ok());
    assert!(check_topic(&"t".repeat(128)).is_err());
    assert!(check_group(&"g".repeat(120)).is_ok());
    assert!(check_group(&"g".repeat(121)).is_err());
    assert!(check_group(" ").is_err());
}

#[test]
fn what_is_written_through_a_publish_message_reaches_the_caller() {
    let mut m = Message::new("T", Some(b"one"));
    {
        let mut pm = PublishMessage::Single(&mut m);
        assert!(!pm.is_batch());
        *pm.as_message_mut() = Message::new("U", Some(b"two"));
        assert_eq!(pm.as_message().topic, "U");
    }
    assert_eq!((m.topic.as_str(), m.body.as_deref()), ("U", Some(&b"two"[..])));

    let mut batch = MessageBatch { message: Message::new("T", None), messages: vec![Message::new("T", Some(b"part"))] };
    {
        let mut pm = PublishMessage::Batch(&mut batch);
        *pm.as_message_mut() = Message::new("U", None);
        assert!(pm.is_batch());
    }
    assert_eq!(batch.message.topic, "U");
    assert_eq!(batch.messages.len(), 1);
    assert_eq!(batch.messages[0].body.as_deref(), Some(&b"part"[..]));
}

#[test]
fn a_second_start_and_a_restart_keep_the_client_id() {
    let mut instance: MQClientInstance<()> = MQClientInstance::new("cid", vec!["127.0.0.1:1".to_string()]);
    let mut p = producer("GID_again");
    p.set_namespace("ns");
    p.set_namesrv_addr("127.0.0.1:1");
    let plan = p.begin_start(&facts()).unwrap().unwrap();
    p.client_started(3, &mut instance);
    assert!(p.is_started());
    assert_eq!(p.client_id(), Some(plan.client_id.clone()));
    assert_eq!(p.producer_group(), "ns%GID_again");
    assert!(instance.has_producer("ns%GID_again"));
    assert!(p.begin_start(&facts()).unwrap().is_none());
    assert_eq!(p.client, Some(3));
    p.start_failed();
    let other = StartFacts { fresh_instance: "other".to_string(), ip: "9.9.9.9".to_string(), ..facts() };
    assert_eq!(p.begin_start(&other).unwrap().unwrap().client_id, plan.client_id);
    assert_eq!(p.producer_group(), "ns%GID_again");
}

#[test]
fn further_queues_of_a_message_hold_no_separator() {
    let p = producer("GID_dispatch");
    let mut m = Message::new("T1", Some(b"x"));
    m.put_property("INNER_MULTI_DISPATCH", "q1,q2");
    assert!(p.check_message(&m).is_ok());
    m.put_property("INNER_MULTI_DISPATCH", "a/b");
    let e = p.check_message(&m).unwrap_err();
    assert_eq!(e.response_code(), Some(response_code::MESSAGE_ILLEGAL));
    assert_eq!(e.text(), "MQClientException: INNER_MULTI_DISPATCH a/b can not contains / character");
    // The body comes first.
    m.set_body(Vec::new());
    assert!(p.check_message(&m).unwrap_err().text().contains("body length is zero"));
}

//! The pull consumer and the lite pull consumer.
use std::time::{SystemTime, UNIX_EPOCH};

use chrono::TimeZone;
use rocketmq_client::client::MQClientInstance;
use rocketmq_client::clock::{
    consume_timestamp_millis, default_consume_timestamp_at, naive_reading, timestamp_at, wall_clock, wall_clock_at,
    DAY_MILLIS, DEFAULT_BACK_MILLIS, FIVE_DIGIT_YEARS, LAST_MOMENT,
};
use rocketmq_client::config::{LitePullConsumerConfig, PullConsumerConfig};
use rocketmq_client::error::Error;
use rocketmq_client::lite::{
    member_ids, CommitRun, DefaultLitePullConsumer, OffsetStep, TopicShare, MAX_POLL_BATCH_SIZE,
};
use rocketmq_client::message::{MessageExt, MessageQueue};
use rocketmq_client::pull::{apply_delivery_filter, pull_sys_flag, DefaultMQPullConsumer};
use rocketmq_client::result::{PullResult, PullStatus};
use rocketmq_client::route::{BrokerData, TopicRouteData};
use rocketmq_client::subscription::{
    _key_order_proof, build_subscription_data, client_side_tag_filter, mq_key, sort_mqs, sub_expression_of, MessageSelector, CLUSTERING,
    CONSUME_FROM_LAST_OFFSET, CONSUME_PASSIVELY,
};
use rocketmq_client::sysflag::{
    has_class_filter_flag, has_commit_offset_flag, has_subscription_flag, has_suspend_flag,
};

fn queue(topic: &str, broker: &str, id: i32) -> MessageQueue {
    MessageQueue::new(topic, broker, id)
}

fn msg(topic: &str, broker: &str, id: i32, offset: i64, body: &str) -> MessageExt {
    let mut m = MessageExt::new();
    m.topic = topic.to_string();
    m.broker_name = Some(broker.to_string());
    m.queue_id = id;
    m.queue_offset = offset;
    m.body = Some(body.as_bytes().to_vec());
    m
}

fn lite() -> DefaultLitePullConsumer {
    DefaultLitePullConsumer::new("LitePG").unwrap()
}

fn found(msgs: Vec<MessageExt>) -> PullResult {
    PullResult {
        status: PullStatus::Found,
        next_begin_offset: 100,
        min_offset: 0,
        max_offset: 200,
        msg_found_list: msgs,
    }
}

#[test]
fn blank_consumer_group_is_rejected_by_both_consumers() {
    for group in ["", "   "] {
        assert!(DefaultMQPullConsumer::new(group).is_err());
        assert!(DefaultLitePullConsumer::new(group).is_err());
    }
    assert!(DefaultMQPullConsumer::new("PG").is_ok());
    assert!(DefaultLitePullConsumer::new("PG").is_ok());
}

#[test]
fn config_defaults_match_the_python_reference() {
    let p = PullConsumerConfig::default();
    assert_eq!(p.instance_name, "DEFAULT");
    assert_eq!(p.message_model, CLUSTERING);
    assert_eq!(p.broker_suspend_max_time_millis, 20_000);
    assert_eq!(p.consumer_pull_timeout_millis, 10_000);
    assert_eq!(p.consumer_timeout_millis_when_suspend, 30_000);
    assert!(p.client_id.is_none());
    assert!(p.name_server_addrs.is_empty());

    let l = LitePullConsumerConfig::default();
    assert!(l.auto_commit);
    assert_eq!(l.pull_batch_size, 32);
    assert_eq!(l.poll_timeout_millis, 5_000);
    assert_eq!(l.auto_commit_interval_millis, 5_000);
    assert_eq!(l.pull_interval_millis, 50);
    assert_eq!(l.pull_thread_nums, 1);
    assert_eq!(l.consume_from_where, CONSUME_FROM_LAST_OFFSET);
    assert_eq!(l.consume_timestamp.len(), 14);
    assert!(l.consume_timestamp.bytes().all(|b| b.is_ascii_digit()));
    assert_eq!(l.broker_suspend_max_time_millis, 20_000);
    assert_eq!(l.consumer_timeout_millis_when_suspend, 30_000);
}

#[test]
fn setters_clamp_like_the_python_setters() {
    let mut c = lite();
    c.set_pull_batch_size(0);
    assert_eq!(c.config().pull_batch_size, 1);
    c.set_pull_batch_size(-5);
    assert_eq!(c.config().pull_batch_size, 1);
    c.set_poll_timeout_millis(-1);
    assert_eq!(c.config().poll_timeout_millis, 0);
    c.set_auto_commit_interval_millis(-1);
    assert_eq!(c.config().auto_commit_interval_millis, 0);
    c.set_pull_interval_millis(-1);
    assert_eq!(c.config().pull_interval_millis, 0);
    c.set_auto_commit(false);
    assert!(!c.config().auto_commit);
}

#[test]
fn namesrv_addr_splits_on_semicolon() {
    let mut c = DefaultMQPullConsumer::new("PG").unwrap();
    c.set_namesrv_addr(" 127.0.0.1:9876 ; 127.0.0.1:9877 ;; ");
    assert_eq!(
        c.config().name_server_addrs,
        vec!["127.0.0.1:9876".to_string(), "127.0.0.1:9877".to_string()]
    );
}

#[test]
fn pull_is_short_poll_and_block_is_long_poll() {
    let short = pull_sys_flag(false);
    assert!(!has_commit_offset_flag(short));
    assert!(!has_suspend_flag(short));
    assert!(has_subscription_flag(short));
    assert!(!has_class_filter_flag(short));

    let long_ = pull_sys_flag(true);
    assert!(!has_commit_offset_flag(long_));
    assert!(has_suspend_flag(long_));
}

#[test]
fn subscription_data_string_falls_back_to_sub_all() {
    let sub = build_subscription_data("T", Some("*")).unwrap();
    assert_eq!(sub_expression_of(&sub), "*");
    let tagged = build_subscription_data("T", Some("TagA || TagB")).unwrap();
    assert_eq!(sub_expression_of(&tagged), "TagA || TagB");
}

#[test]
fn subscriptions_are_namespaced_and_overwritable() {
    let mut c = lite();
    c.set_namespace("NS1");
    c.subscribe("Topic", "TagA");
    let subs = c.subscription();
    assert_eq!(subs.len(), 1);
    assert_eq!(subs[0].0, "NS1%Topic");
    assert_eq!(c.subscriptions()[0].tags_set, vec!["TagA".to_string()]);
    c.subscribe("Topic", "TagB");
    assert_eq!(c.subscription().len(), 1);
    assert_eq!(c.subscription()[0].1, "TagB");
    c.unsubscribe("Topic");
    assert!(c.subscription().is_empty());
    assert!(c.subscriptions().is_empty());
}

#[test]
fn unsubscribing_leaves_the_other_topics() {
    let mut c = lite();
    c.subscribe("A", "TagA");
    c.subscribe("B", "*");
    c.unsubscribe("B");
    assert_eq!(c.subscription(), vec![("A".to_string(), "TagA".to_string())]);
    assert_eq!(c.subscriptions().len(), 1);
}

#[test]
fn bad_tag_expression_drops_only_subscription_data() {
    let mut c = lite();
    c.subscribe("T", "||");
    assert_eq!(c.subscription().len(), 1);
    assert!(c.subscriptions().is_empty());
}

#[test]
fn assign_switches_mode_and_keeps_subscription_expr_for_heartbeat() {
    let mut c = lite();
    c.set_sub_expression_for_assign("T", "TagA");
    assert!(!c.is_assign_mode());
    c.assign(&[queue("T", "broker-a", 1), queue("T", "broker-a", 0)]);
    assert!(c.is_assign_mode());
    assert_eq!(c.assignment(), vec![queue("T", "broker-a", 0), queue("T", "broker-a", 1)]);
    assert_eq!(c.subscription_for("T"), "TagA");
    assert_eq!(c.subscription_for("other"), "*");
    assert_eq!(c.subscriptions().len(), 1);
}

#[test]
fn register_topics_are_namespaced_and_sorted() {
    let mut c = DefaultMQPullConsumer::new("PG").unwrap();
    c.set_namespace("NS");
    c.register_topic("b");
    c.register_topic("a");
    c.register_topic("a");
    assert_eq!(c.register_topics(), vec!["NS%a".to_string(), "NS%b".to_string()]);
}

#[test]
fn seek_pins_offset_and_drops_earlier_buffered_messages() {
    let mut c = lite();
    c.assign(&[queue("T", "broker-a", 0)]);
    c.enqueue((0..5).map(|i| msg("T", "broker-a", 0, i, "b")).collect());
    c.seek(&queue("T", "broker-a", 0), 3);
    assert_eq!(c.buffered_message_count(), 2);
    assert_eq!(c.state.next_offset.get(&mq_key(&queue("T", "broker-a", 0))), Some(&3));
    assert_eq!(c.state.seek_offset.get(&mq_key(&queue("T", "broker-a", 0))), Some(&3));
}

#[test]
fn seek_does_not_touch_other_queues_buffer() {
    let mut c = lite();
    c.enqueue(vec![msg("T", "broker-a", 0, 0, "x"), msg("T", "broker-a", 1, 0, "y")]);
    c.seek(&queue("T", "broker-a", 0), 5);
    assert_eq!(c.buffered_message_count(), 1);
}

#[test]
fn pause_and_resume_are_set_operations() {
    let mut c = lite();
    let mq = queue("T", "broker-a", 0);
    c.pause(std::slice::from_ref(&mq));
    assert!(c.state.paused.contains(&mq_key(&mq)));
    c.resume(std::slice::from_ref(&mq));
    assert!(c.state.paused.is_empty());
    c.pause(&[mq.clone(), mq.clone()]);
    c.resume(&[mq]);
    assert!(c.state.paused.is_empty());
}

#[test]
fn consume_timestamp_is_wall_clock_only() {
    let expect = chrono::Local
        .with_ymd_and_hms(2023, 1, 1, 0, 0, 0)
        .single()
        .map(|dt| dt.timestamp_millis())
        .unwrap_or_default();
    assert_eq!(consume_timestamp_millis("20230101000000").unwrap(), expect);

    for bad in ["", "   ", "1700000000", "1700000000000", "not-a-timestamp"] {
        let err = consume_timestamp_millis(bad).unwrap_err();
        assert_eq!(
            err.text(),
            format!(
                "MQClientException: consumeTimestamp is invalid, \
                 the valid format is yyyyMMddHHmmss,but received {bad}"
            ),
            "{bad:?}"
        );
    }
}

#[test]
fn default_consume_timestamp_is_valid_wall_clock() {
    let cfg = LitePullConsumerConfig::default();
    assert_eq!(cfg.consume_timestamp.len(), 14);
    assert!(cfg.consume_timestamp.bytes().all(|b| b.is_ascii_digit()));
    let past = consume_timestamp_millis(&cfg.consume_timestamp).unwrap();
    let now = SystemTime::now().duration_since(UNIX_EPOCH).unwrap().as_millis() as i64;
    assert!((now - 31 * 60_000..=now - 29 * 60_000).contains(&past));
}

#[test]
fn heartbeat_carries_only_own_consumer_data() {
    let mut c = lite();
    c.update_config(LitePullConsumerConfig {
        consumer_group: "LitePG".to_string(),
        client_id: Some("cid-1".to_string()),
        ..Default::default()
    });
    c.subscribe("T", "TagA");
    let hb = c.build_lite_heartbeat();
    assert_eq!(hb.client_id, "cid-1");
    assert_eq!(hb.consumer_data_set.len(), 1);
    let cd = &hb.consumer_data_set[0];
    assert_eq!(cd.group_name, "LitePG");
    assert_eq!(cd.consume_type, CONSUME_PASSIVELY);
    assert_eq!(cd.message_model, CLUSTERING);
    assert_eq!(cd.consume_from_where, CONSUME_FROM_LAST_OFFSET);
    assert!(!cd.unit_mode);
    assert_eq!(cd.subscription_data_set.len(), 1);
    assert_eq!(cd.subscription_data_set[0].topic, "T");
    c.unsubscribe("T");
    assert!(c.build_lite_heartbeat().consumer_data_set[0].subscription_data_set.is_empty());
}

#[test]
fn tag_filter_drops_non_matching_and_keeps_order() {
    let sub = build_subscription_data("T", Some("TagA")).ok();
    let mut a = msg("T", "broker-a", 0, 0, "a");
    a.set_tags("TagA");
    let mut b = msg("T", "broker-a", 0, 1, "b");
    b.set_tags("TagB");
    let out = client_side_tag_filter(sub.as_ref(), vec![a, b]);
    assert_eq!(out.len(), 1);
    assert_eq!(out[0].queue_offset, 0);
    let all = build_subscription_data("T", Some("*")).ok();
    let mut c1 = msg("T", "broker-a", 0, 2, "c");
    c1.set_tags("TagC");
    assert_eq!(client_side_tag_filter(all.as_ref(), vec![c1]).len(), 1);
}

#[test]
fn queue_key_order_matches_sort_key_order() {
    let low = queue("T", "broker-a", 0);
    let high = queue("T", "broker-a", 1);
    assert!(mq_key(&low) < mq_key(&high));
    assert!(_key_order_proof(&low) < _key_order_proof(&high));
}

#[test]
fn keys_tell_queues_apart() {
    assert_eq!(mq_key(&queue("T", "b", 7)), "T+b+7");
    assert_ne!(mq_key(&queue("T", "b1", 1)), mq_key(&queue("T", "b", 11)));
    assert_ne!(mq_key(&queue("T", "b", -1)), mq_key(&queue("T", "b", 1)));
}

#[test]
fn queues_are_sorted_by_topic_broker_and_number() {
    let mut mqs = vec![queue("T", "b", 10), queue("T", "b", 2), queue("T", "a", 3), queue("S", "z", 9)];
    sort_mqs(&mut mqs);
    assert_eq!(mqs, vec![queue("S", "z", 9), queue("T", "a", 3), queue("T", "b", 2), queue("T", "b", 10)]);
}

#[test]
fn pull_consumer_cannot_be_used_before_its_start() {
    let mut c = DefaultMQPullConsumer::new("PG").unwrap();
    let err = c.begin_start(false).unwrap_err();
    assert_eq!(err.text(), "MQClientException: name server address is not set");
    assert!(!c.is_started());
    let mq = queue("T", "broker-a", 0);
    let err = c.pull(&mq, "*", 0, 32, None).unwrap_err();
    assert_eq!(err.text(), "MQClientException: consumer not started, call start() first");
    assert!(c.pull_block_if_not_found(&mq, "*", 0, 32).is_err());
    assert!(c.shutdown().is_none());
}

#[test]
fn pull_consumer_starts_and_asks() {
    let mut c = DefaultMQPullConsumer::new("PG").unwrap();
    c.set_namesrv_addr("a:1");
    c.set_instance_name("I");
    let plan = c.begin_start_at(false, "20230101000000").unwrap().unwrap();
    assert_eq!(plan.client_id, "I@20230101000000");
    assert_eq!(c.client_id(), "I@20230101000000");
    assert!(c.begin_start_at(false, "x").unwrap().is_none());
    let instance: MQClientInstance<()> = MQClientInstance::new("I@20230101000000", vec!["z:1".to_string()]);
    c.client_started(4, &instance);
    assert_eq!(c.config().name_server_addrs, vec!["a:1".to_string()]);
    let mq = queue("T", "broker-a", 3);
    let p = c.pull(&mq, "TagA||TagB", 17, 32, None).unwrap();
    assert_eq!(p.timeout_millis, 10_000);
    assert_eq!(p.header.subscription.as_deref(), Some("TagA||TagB"));
    assert_eq!(p.header.queue_offset, Some(17));
    assert_eq!(p.header.sys_flag, Some(4));
    assert_eq!(p.header.suspend_timeout_millis, Some(15_000));
    let b = c.pull_block_if_not_found(&mq, "", 17, 32).unwrap();
    assert_eq!(b.timeout_millis, 30_000);
    assert_eq!(b.header.sys_flag, Some(6));
    assert_eq!(b.header.suspend_timeout_millis, Some(20_000));
    assert_eq!(b.header.subscription.as_deref(), Some("*"));
    assert!(c.pull(&mq, "||", 0, 1, None).unwrap_err().text().contains("subString split error"));
    assert_eq!(c.shutdown(), Some(4));
    assert!(!c.is_started());
    c.start_failed();
}

#[test]
fn start_takes_the_wall_clock_into_the_client_id() {
    let mut c = DefaultMQPullConsumer::new("PG").unwrap();
    let before = wall_clock();
    let plan = c.begin_start(true).unwrap().unwrap();
    let after = wall_clock();
    let stamp = plan.client_id.strip_prefix("DEFAULT@").unwrap().to_string();
    assert!(before <= stamp && stamp <= after);
    assert_eq!(stamp.len(), 14);
}

#[test]
fn delivery_filter_sees_only_what_was_found() {
    let drop_all = |_mq: &MessageQueue, _v: Vec<MessageExt>| -> Vec<MessageExt> { Vec::new() };
    let mq = queue("T", "b", 0);
    let kept = apply_delivery_filter(&mq, found(vec![msg("T", "b", 0, 1, "x")]), drop_all);
    assert!(kept.msg_found_list.is_empty());
    assert_eq!(kept.next_begin_offset, 100);
    let mut other = found(vec![msg("T", "b", 0, 1, "x")]);
    other.status = PullStatus::NoMatchedMsg;
    assert_eq!(apply_delivery_filter(&mq, other, drop_all).msg_found_list.len(), 1);
}

#[test]
fn a_message_goes_back_to_its_broker() {
    let mut c = DefaultMQPullConsumer::new("PG").unwrap();
    let mut instance: MQClientInstance<()> = MQClientInstance::new("c", Vec::new());
    let m = msg("T", "broker-a", 0, 0, "b");
    assert!(c.send_back_addr(&instance, &m).unwrap_err().text().contains("not started"));
    c.begin_start_at(true, "c").unwrap();
    c.client_started(1, &instance);
    assert!(c.send_back_addr(&instance, &m).unwrap_err().text().contains("broker broker-a not found"));
    let mut r = TopicRouteData::new();
    r.broker_datas.push(BrokerData::new("c", "broker-a", vec![(0, "a:1".to_string())]));
    instance.store_route("T", r);
    assert_eq!(c.send_back_addr(&instance, &m).unwrap(), "a:1");
}

#[test]
fn lite_consumer_requires_addresses_then_a_subscription() {
    let mut c = lite();
    assert!(c.begin_start(false).unwrap_err().text().contains("name server address is not set"));
    c.set_namesrv_addr("127.0.0.1:9876");
    assert!(c
        .begin_start(false)
        .unwrap_err()
        .text()
        .contains("subscription is not set, call subscribe() or assign() first"));
    c.subscribe("T", "*");
    assert!(c.begin_start(false).unwrap().is_some());
    assert!(c.begin_start(false).unwrap().is_none());
}

#[test]
fn lite_start_rejects_epoch_millis_timestamp() {
    let mut c = lite();
    c.set_namesrv_addr("127.0.0.1:9876");
    c.set_consume_timestamp("1700000000000");
    c.assign(&[queue("T", "broker-a", 0)]);
    let err = c.begin_start(false).unwrap_err();
    assert!(err.text().contains("consumeTimestamp is invalid"));
    assert!(!c.is_started());
    c.set_consume_timestamp("20230101000000");
    assert!(c.begin_start(false).is_ok());
    assert!(c.is_started());
}

#[test]
fn lite_start_asks_for_offsets_of_assigned_queues() {
    let mut c = lite();
    c.assign(&[queue("T", "b", 0), queue("T", "b", 1)]);
    c.note_offset(&queue("T", "b", 0), 5);
    c.begin_start_at(true, Ok(0), "clock").unwrap();
    let instance: MQClientInstance<()> = MQClientInstance::new("c", vec!["n:1".to_string()]);
    assert_eq!(c.client_started(9, &instance), vec![queue("T", "b", 1)]);
    assert_eq!(c.config().name_server_addrs, vec!["n:1".to_string()]);
    assert_eq!(c.client_id(), "DEFAULT@clock");
    assert!(!c.is_running());
    c.begin_running();
    assert!(c.is_running());
    assert_eq!(c.require_client().unwrap(), 9);
    let stop = c.begin_shutdown().unwrap();
    assert_eq!(stop.client, Some(9));
    assert_eq!(stop.items, vec![(queue("T", "b", 0), 5)]);
    assert_eq!(stop.group, "LitePG");
    assert!(c.begin_shutdown().is_none());
    assert!(c.require_client().unwrap_err().text().contains("not started"));
}

#[test]
fn shutdown_commits_nothing_without_auto_commit() {
    let mut c = lite();
    c.assign(&[queue("T", "b", 0)]);
    c.note_offset(&queue("T", "b", 0), 5);
    c.note_offset(&queue("T", "b", 7), 6);
    assert_eq!(c.commit_items(), vec![(queue("T", "b", 0), 5)]);
    c.set_auto_commit(false);
    c.begin_start_at(true, Ok(0), "clock").unwrap();
    assert!(c.begin_shutdown().unwrap().items.is_empty());
}

#[test]
fn drain_takes_the_oldest_up_to_the_limit() {
    let mut c = lite();
    assert!(c.try_drain().is_none());
    c.enqueue((0..(MAX_POLL_BATCH_SIZE + 10)).map(|i| msg("T", "b", 0, i as i64, "b")).collect());
    let first = c.try_drain().unwrap();
    assert_eq!(first.len(), MAX_POLL_BATCH_SIZE);
    assert_eq!(first[0].queue_offset, 0);
    let second = c.try_drain().unwrap();
    assert_eq!(second.len(), 10);
    assert_eq!(second[0].queue_offset, MAX_POLL_BATCH_SIZE as i64);
    assert_eq!(c.buffered_message_count(), 0);
    assert_eq!(c.poll_wait_millis(None), 5_000);
    assert_eq!(c.poll_wait_millis(Some(-3)), 0);
    assert_eq!(c.poll_wait_millis(Some(10)), 10);
}

#[test]
fn first_offset_goes_by_seek_then_commit_then_configuration() {
    let mut c = lite();
    let mq = queue("T", "b", 0);
    assert_eq!(c.first_offset(&mq, None).unwrap(), OffsetStep::AskMax);
    c.set_consume_from_where("CONSUME_FROM_FIRST_OFFSET");
    assert_eq!(c.first_offset(&mq, None).unwrap(), OffsetStep::AskMin);
    c.set_consume_from_where("CONSUME_FROM_TIMESTAMP");
    c.set_consume_timestamp("20230101000000");
    let at = consume_timestamp_millis("20230101000000").unwrap();
    assert_eq!(c.first_offset(&mq, None).unwrap(), OffsetStep::AskTime(at));
    assert_eq!(c.first_offset_at(&mq, None, Ok(7)).unwrap(), OffsetStep::AskTime(7));
    c.set_consume_timestamp("x");
    assert!(c.first_offset(&mq, None).is_err());
    assert_eq!(c.first_offset(&mq, Some(4)).unwrap(), OffsetStep::At(4));
    c.seek(&mq, 3);
    assert_eq!(c.first_offset(&mq, Some(4)).unwrap(), OffsetStep::At(3));
    assert_eq!(c.known_offset(&mq), Some(3));
    assert_eq!(c.sought_offset(&queue("T", "b", 1)), None);
}

#[test]
fn settled_pull_moves_behind_the_last_message_that_was_taken() {
    let mut c = lite();
    c.subscribe("T", "TagA");
    let mq = queue("T", "b", 0);
    c.note_offset(&mq, 10);
    let p = c.pull_plan(&mq, 10);
    assert_eq!(p.header.subscription.as_deref(), Some("TagA"));
    assert_eq!(p.header.max_msg_nums, Some(32));
    assert_eq!(p.timeout_millis, 30_000);
    let tagged = |offset: i64, tag: &str| {
        let mut m = msg("T", "b", 0, offset, "x");
        m.set_tags(tag);
        m
    };
    assert_eq!(c.settle_pull(&mq, found(vec![tagged(10, "TagB"), tagged(11, "TagB")])), None);
    assert_eq!(c.known_offset(&mq), Some(10));
    let next = c.settle_pull(&mq, found(vec![tagged(10, "TagA"), tagged(11, "TagB"), tagged(12, "TagA"), tagged(13, "TagB")]));
    assert_eq!(next, Some(13));
    assert_eq!(c.known_offset(&mq), Some(13));
    assert_eq!(c.buffered_message_count(), 2);
    let mut none = found(vec![tagged(13, "TagA")]);
    none.status = PullStatus::NoNewMsg;
    assert_eq!(c.settle_pull(&mq, none), None);
}

#[test]
fn commits_and_rebalances_are_throttled() {
    let mut c = lite();
    let mq = queue("T", "b", 0);
    assert!(c.commit_due(&mq, 5_000));
    assert!(!c.commit_due(&mq, 4_999));
    c.note_commit(&mq, 10_000);
    assert!(!c.commit_due(&mq, 14_999));
    assert!(c.commit_due(&mq, 15_000));
    c.set_auto_commit(false);
    assert!(!c.commit_due(&mq, 99_000));
    assert!(c.rebalance_due(0));
    c.note_rebalance(1_000);
    assert!(!c.rebalance_due(2_000));
    assert!(c.rebalance_due(2_001));
    c.assign(&[]);
    assert!(!c.rebalance_due(99_000));
    assert_eq!(c.backoff_millis(true), 5);
    assert_eq!(c.backoff_millis(false), 50);
}

#[test]
fn rounds_leave_out_paused_queues() {
    let mut c = lite();
    c.assign(&[queue("T", "b", 0), queue("T", "b", 1)]);
    c.pause(&[queue("T", "b", 0)]);
    assert_eq!(c.targets(), vec![queue("T", "b", 1)]);
    c.resume(&[queue("T", "b", 0)]);
    assert_eq!(c.targets().len(), 2);
}

fn share(topic: &str, ids: &[i32]) -> TopicShare {
    TopicShare {
        topic: topic.to_string(),
        all: (0..4).map(|i| queue(topic, "b", i)).collect(),
        divided: ids.iter().map(|i| queue(topic, "b", *i)).collect(),
    }
}

#[test]
fn division_forgets_offsets_of_lost_queues_only() {
    let mut c = lite();
    let got = c.apply_shares(vec![share("T", &[1, 0]), share("U", &[])]);
    assert_eq!(got.added, vec![queue("T", "b", 0), queue("T", "b", 1)]);
    assert_eq!(got.changed.len(), 1);
    assert_eq!(got.changed[0].topic, "T");
    for i in 0..2 {
        c.seek(&queue("T", "b", i), 7);
        c.note_commit(&queue("T", "b", i), 1);
    }
    c.pause(&[queue("T", "b", 1)]);
    let same = c.apply_shares(vec![share("T", &[0, 1])]);
    assert!(same.added.is_empty() && same.changed.is_empty());
    let got = c.apply_shares(vec![share("T", &[0, 2])]);
    assert_eq!(got.added, vec![queue("T", "b", 2)]);
    assert_eq!(c.assignment(), vec![queue("T", "b", 0), queue("T", "b", 2)]);
    assert_eq!(c.known_offset(&queue("T", "b", 0)), Some(7));
    assert_eq!(c.known_offset(&queue("T", "b", 1)), None);
    assert_eq!(c.sought_offset(&queue("T", "b", 1)), Some(7));
    assert!(c.state.paused.contains(&mq_key(&queue("T", "b", 1))));
    assert!(c.state.last_commit.get(&mq_key(&queue("T", "b", 1))).is_none());
}

#[test]
fn members_are_sorted_and_hold_oneself() {
    let ids = |v: &[&str]| -> Vec<String> { v.iter().map(|s| s.to_string()).collect() };
    assert_eq!(member_ids(ids(&["c", "a"]), "b"), ids(&["a", "b", "c"]));
    assert_eq!(member_ids(ids(&["b", "a"]), "b"), ids(&["a", "b"]));
    assert_eq!(member_ids(Vec::new(), "b"), ids(&["b"]));
}

#[test]
fn unnamed_members_keep_the_assignment() {
    let mut c = DefaultLitePullConsumer::new("G").unwrap();
    c.cfg.client_id = Some("me".to_string());
    let halves = |group: &str, own: &str, all: &Vec<MessageQueue>, ids: &Vec<String>| -> Result<Vec<MessageQueue>, Error> {
        assert_eq!(group, "G");
        let at = ids.iter().position(|id| id == own).unwrap();
        Ok(all.iter().enumerate().filter(|(i, _)| i % ids.len() == at).map(|(_, q)| q.clone()).collect())
    };
    let all = || vec![queue("T", "b", 2), queue("T", "b", 0), queue("T", "b", 1)];
    let sorted = vec![queue("T", "b", 0), queue("T", "b", 1), queue("T", "b", 2)];
    let first = c.topic_share("T", all(), Some(vec!["you".to_string()]), halves);
    assert_eq!(first.topic, "T");
    assert_eq!(first.all, sorted);
    assert_eq!(first.divided, vec![queue("T", "b", 0), queue("T", "b", 2)]);
    c.apply_shares(vec![first]);
    let kept = c.topic_share("T", all(), None, halves);
    assert_eq!(kept.all, sorted);
    assert_eq!(kept.divided, vec![queue("T", "b", 0), queue("T", "b", 2)]);
    let got = c.apply_shares(vec![kept]);
    assert!(got.added.is_empty() && got.changed.is_empty());
    let failing = |_: &str, _: &str, _: &Vec<MessageQueue>, _: &Vec<String>| -> Result<Vec<MessageQueue>, Error> {
        Err(Error::client("no division"))
    };
    assert!(c.topic_share("T", all(), Some(Vec::new()), failing).divided.is_empty());
    assert_eq!(c.topic_share("T", all(), Some(Vec::new()), halves).divided, sorted);
    assert!(c.topic_share("U", all(), None, halves).divided.is_empty());
}

#[test]
fn filter_hooks_are_known_by_name() {
    let mut c = DefaultMQPullConsumer::new("G").unwrap();
    assert!(!c.has_filter_message_hook());
    c.register_filter_message_hook("f");
    assert!(c.has_filter_message_hook());
}

#[test]
fn selector_is_taken_for_tags() {
    let mut c = DefaultLitePullConsumer::new("G").unwrap();
    let selector = MessageSelector { expression_type: "SQL92".to_string(), expression: "a || b".to_string() };
    c.subscribe_with_selector("T", &selector);
    assert_eq!(c.subscription(), vec![("T".to_string(), "a || b".to_string())]);
    assert_eq!(c.subscriptions()[0].expression_type, "TAG");
}

#[test]
fn commit_fails_with_its_first_failure() {
    let mut run = CommitRun::new();
    run.note(Ok(()));
    run.note(Err(Error::client("one")));
    run.note(Err(Error::client("two")));
    assert!(run.finish().unwrap_err().text().contains("one"));
    assert!(CommitRun::new().finish().is_ok());
}

#[test]
fn lite_setters_keep_the_rest() {
    let mut c = DefaultLitePullConsumer::with_config(LitePullConsumerConfig {
        pull_batch_size: -3,
        ..Default::default()
    })
    .unwrap();
    assert_eq!(c.config().pull_batch_size, -3);
    c.set_message_model("BROADCASTING");
    assert_eq!(c.config().pull_batch_size, 1);
    assert_eq!(c.config().message_model, "BROADCASTING");
    c.set_name_server_addresses(&vec!["a:1".to_string()]);
    assert_eq!(c.config().name_server_addrs, vec!["a:1".to_string()]);
    c.set_instance_name("I");
    assert_eq!(c.config().instance_name, "I");
    assert_eq!(c.consumer_group(), "DEFAULT_CONSUMER");
}

#[test]
fn a_reading_is_fourteen_digits_of_a_date_and_a_time() {
    assert_eq!(naive_reading("19700101000000"), Some(0));
    assert_eq!(naive_reading("20230101000000"), Some(1_672_531_200_000));
    assert_eq!(naive_reading("20230101000001"), Some(1_672_531_201_000));
    assert_eq!(naive_reading("20230230000000"), None);
    assert_eq!(naive_reading("20230101240000"), None);
    assert_eq!(naive_reading("2023010100000"), None);
    assert_eq!(naive_reading("+2023101000000"), None);
    assert_eq!(naive_reading(""), None);
    assert_eq!(timestamp_at("x", Some(7)).unwrap(), 7);
    assert!(timestamp_at("x", None).is_err());
}

#[test]
fn a_moment_and_its_reading_are_less_than_a_day_apart() {
    for s in ["19700102000000", "20230101000000", "20240229235959", "99991230000000"] {
        let n = naive_reading(s).unwrap();
        let m = consume_timestamp_millis(s).unwrap();
        assert!(n - DAY_MILLIS < m && m < n + DAY_MILLIS, "{s}");
        let expect = chrono::Local.from_local_datetime(&chrono::DateTime::from_timestamp_millis(n).unwrap().naive_utc());
        assert_eq!(m, expect.earliest().unwrap().timestamp_millis(), "{s}");
    }
}

#[test]
fn what_a_clock_shows_is_a_reading() {
    for now in [0, DEFAULT_BACK_MILLIS, 1_672_531_200_000, 1_700_000_000_123, FIVE_DIGIT_YEARS - 2 * DAY_MILLIS] {
        let shown = wall_clock_at(now);
        assert_eq!(shown.len(), 14, "{shown}");
        let n = naive_reading(&shown).unwrap();
        assert!(now - DAY_MILLIS < n && n < now + DAY_MILLIS);
        let past = naive_reading(&default_consume_timestamp_at(now)).unwrap();
        assert!(now - DEFAULT_BACK_MILLIS - DAY_MILLIS < past && past < now - DEFAULT_BACK_MILLIS + DAY_MILLIS);
        let local = chrono::DateTime::from_timestamp_millis(now).unwrap().with_timezone(&chrono::Local);
        assert_eq!(shown, local.format("%Y%m%d%H%M%S").to_string());
    }
    assert_eq!(default_consume_timestamp_at(1_700_000_000_000), wall_clock_at(1_700_000_000_000 - 1_800_000));
    for now in [FIVE_DIGIT_YEARS + DAY_MILLIS, LAST_MOMENT] {
        let shown = wall_clock_at(now);
        assert!(shown.len() > 14 && shown.starts_with('+'), "{shown}");
        assert_eq!(naive_reading(&shown), None);
    }
}

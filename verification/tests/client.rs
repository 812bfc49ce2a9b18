//! The client instance: registration, routes, brokers' requests, life and end.
use std::sync::atomic::{AtomicUsize, Ordering};
use std::sync::Arc;

use rocketmq_client::admin::{
    check_failure, config_answer, create_topic_header, gather, group_by_broker, name_servers_failed, no_default_route,
    named_members, query_answer, query_header, query_result, route_targets, unregister_fields, unregister_header, usable_body,
    consumer_list_addr, obeyed, take_answer, NameServerQuestion, NameServerWalk, RouteCreation, TopicCreation,
};
use rocketmq_client::client::{
    blank_group_to_none, broker_call, is_answered, process_reply_message, released, BrokerCall, InstanceRegistry,
    MQClientInstance, RegisteredConsumer, TaskKind,
};
use rocketmq_client::config::MQClientInstanceConfig;
use rocketmq_client::error::Error;
use rocketmq_client::fetch::{route_step, FetchStep, RouteFetch, RouteReply, RouteStep};
use rocketmq_client::message::{
    MessageExt, MessageQueue, PROPERTY_CORRELATION_ID, PROPERTY_REPLY_MESSAGE_ARRIVE_TIME,
};
use rocketmq_client::properties::message_properties_2_string;
use rocketmq_client::protocol::{ReplyMessageRequestHeader, ResponseHead, UnregisterClientRequestHeader};
use rocketmq_client::request_code;
use rocketmq_client::response_code;
use rocketmq_client::route::{BrokerData, QueueData, TopicRouteData};
use rocketmq_client::subscription::SubscriptionData;
use rocketmq_client::table::Table;
use rocketmq_client::wire::build_reply_message_ext;

const GROUP: &str = "GID_MqClientUnit";
const TOPIC: &str = "MqClientUnitTopic";
const BROKER: &str = "broker-a";
const NAMESRV: &str = "127.0.0.1:9876";

struct StubConsumer {
    group: String,
    wakeups: Arc<AtomicUsize>,
    subs: Vec<SubscriptionData>,
}

impl StubConsumer {
    fn new() -> StubConsumer {
        StubConsumer { group: GROUP.to_string(), wakeups: Arc::new(AtomicUsize::new(0)), subs: Vec::new() }
    }

    fn with_subs(group: &str, subs: Vec<SubscriptionData>) -> StubConsumer {
        StubConsumer { group: group.to_string(), wakeups: Arc::new(AtomicUsize::new(0)), subs }
    }
}

impl RegisteredConsumer for StubConsumer {
    fn client_id(&self) -> String {
        format!("{}@stub", self.group)
    }

    fn consumer_group(&self) -> String {
        self.group.clone()
    }

    fn consume_type(&self) -> String {
        "CONSUME_PASSIVELY".to_string()
    }

    fn message_model(&self) -> String {
        "CLUSTERING".to_string()
    }

    fn consume_from_where(&self) -> String {
        "CONSUME_FROM_LAST_OFFSET".to_string()
    }

    fn is_unit_mode(&self) -> bool {
        false
    }

    fn subscription(&self) -> Vec<String> {
        vec![TOPIC.to_string()]
    }

    fn subscriptions(&self) -> Vec<SubscriptionData> {
        self.subs.clone()
    }

    fn rebalance_immediately(&self) {
        self.wakeups.fetch_add(1, Ordering::SeqCst);
    }

    fn reset_offset(&self, _topic: String, _offset_table: Vec<(MessageQueue, i64)>) -> Result<(), Error> {
        Ok(())
    }

    fn get_consumer_status(&self, _topic: Option<&str>) -> Vec<(MessageQueue, i64)> {
        vec![(MessageQueue::new(TOPIC, BROKER, 0), 42)]
    }

    fn consumer_running_info(&self) -> Vec<u8> {
        b"running".to_vec()
    }

    fn consume_message_directly(&self, msg: MessageExt, broker_name: Option<String>) -> Result<Vec<u8>, Error> {
        if msg.topic.is_empty() {
            return Err(Error::client("no topic"));
        }
        Ok(format!("{}|{}", msg.topic, broker_name.unwrap_or_else(|| "<none>".to_string())).into_bytes())
    }

    fn persist_consumer_offset(&self) -> Result<(), Error> {
        Ok(())
    }
}

fn new_instance() -> MQClientInstance<StubConsumer> {
    MQClientInstance::new("cid", vec![NAMESRV.to_string()])
}

fn plain(bytes: &Vec<u8>, _kind: i32) -> Result<Vec<u8>, Error> {
    Ok(bytes.clone())
}

fn wire_properties(key: &str, value: &str) -> String {
    let mut props: Table<String> = Table::new();
    props.insert(key.to_string(), value.to_string());
    message_properties_2_string(&props)
}

fn route(brokers: &[(&str, &str)]) -> TopicRouteData {
    let mut r = TopicRouteData::new();
    for (name, addr) in brokers {
        r.queue_datas.push(QueueData::new(name, 4, 4, 6, 0));
        r.broker_datas.push(BrokerData::new("c", name, vec![(0, addr.to_string())]));
    }
    r
}

fn head(code: i32, remark: Option<&str>) -> ResponseHead {
    ResponseHead { code, remark: remark.map(|r| r.to_string()) }
}

fn sub(topic: &str, expression: &str, kind: &str) -> SubscriptionData {
    SubscriptionData {
        topic: topic.to_string(),
        sub_string: expression.to_string(),
        tags_set: Vec::new(),
        code_set: Vec::new(),
        expression_type: kind.to_string(),
    }
}

#[test]
fn reply_message_treats_blank_hosts_as_absent() {
    let mut header = ReplyMessageRequestHeader::default();
    header.topic = Some(TOPIC.to_string());
    header.born_host = Some(String::new());
    header.store_host = Some("127.0.0.1:10911".to_string());
    header.properties = Some(wire_properties(PROPERTY_CORRELATION_ID, "corr-1"));
    let msg = build_reply_message_ext(&header, Some(b"reply-payload".as_slice()), plain, 1_700_000_000_000).unwrap();
    assert_eq!(msg.born_host, None, "blank bornHost must stay absent");
    assert_eq!(msg.store_host.as_deref(), Some("127.0.0.1:10911"));
    assert_eq!(msg.topic, TOPIC);
    assert_eq!(msg.body.as_deref(), Some(b"reply-payload".as_slice()));
    assert_eq!(msg.get_property(PROPERTY_CORRELATION_ID), Some("corr-1"));
    assert!(
        msg.get_property(PROPERTY_REPLY_MESSAGE_ARRIVE_TIME).is_some(),
        "arrive time must be stamped"
    );
}

#[test]
fn blank_unregister_groups_stay_off_the_wire() {
    assert_eq!(blank_group_to_none(""), None);
    assert_eq!(blank_group_to_none("   "), None);
    assert_eq!(blank_group_to_none("GID_x").as_deref(), Some("GID_x"));

    let header_ext = |producer: &str, consumer: &str| -> Vec<String> {
        unregister_fields(&UnregisterClientRequestHeader {
            client_id: Some("cid".to_string()),
            producer_group: blank_group_to_none(producer),
            consumer_group: blank_group_to_none(consumer),
        })
        .iter()
        .map(|(k, _)| k.clone())
        .collect()
    };
    assert_eq!(header_ext("GID_p", ""), vec!["clientID".to_string(), "producerGroup".to_string()]);
    assert_eq!(header_ext("", "GID_c"), vec!["clientID".to_string(), "consumerGroup".to_string()]);
}

#[test]
fn unregister_header_drops_blank_groups() {
    let h = unregister_header("cid", " \t", "GID_c");
    assert_eq!(h.client_id.as_deref(), Some("cid"));
    assert_eq!(h.producer_group, None);
    assert_eq!(h.consumer_group.as_deref(), Some("GID_c"));
}

#[test]
fn compressed_reply_is_inflated_before_it_is_handed_on() {
    let mut header = ReplyMessageRequestHeader::default();
    header.sys_flag = Some(1 | (3 << 8));
    let double = |b: &Vec<u8>, kind: i32| -> Result<Vec<u8>, Error> {
        if kind != 3 {
            return Err(Error::Decode(format!("kind {kind}")));
        }
        let mut out = b.clone();
        out.extend(b.iter());
        Ok(out)
    };
    let msg = build_reply_message_ext(&header, Some(b"ab".as_slice()), double, 7).unwrap();
    assert_eq!(msg.body.as_deref(), Some(b"abab".as_slice()));
    assert_eq!(msg.get_property(PROPERTY_REPLY_MESSAGE_ARRIVE_TIME), Some("7"));
    let broken = |_b: &Vec<u8>, _k: i32| -> Result<Vec<u8>, Error> { Err(Error::Decode("bad".to_string())) };
    let (answer, got) = process_reply_message(Ok(header), Some(b"ab".as_slice()), broken, 7);
    assert_eq!(answer.code, response_code::SYSTEM_ERROR);
    assert!(answer.remark.unwrap().starts_with("process reply message fail: "));
    assert!(got.is_none());
}

#[test]
fn unmatched_reply_still_answers_success() {
    let mut header = ReplyMessageRequestHeader::default();
    header.topic = Some(TOPIC.to_string());
    let (answer, msg) = process_reply_message(Ok(header), None, plain, 1);
    assert_eq!(answer.code, response_code::SUCCESS);
    assert_eq!(msg.unwrap().topic, TOPIC);
    let (answer, msg) = process_reply_message(Err(Error::RemotingCommand("x".to_string())), None, plain, 1);
    assert_eq!(answer.code, response_code::SYSTEM_ERROR);
    assert!(msg.is_none());
}

#[test]
fn broker_requests_are_told_apart_by_code() {
    assert_eq!(broker_call(326).unwrap(), BrokerCall::ReplyMessage);
    assert_eq!(broker_call(220).unwrap(), BrokerCall::ResetOffset);
    assert_eq!(broker_call(40).unwrap(), BrokerCall::ConsumerIdsChanged);
    assert_eq!(broker_call(221).unwrap(), BrokerCall::ConsumerStatus);
    assert_eq!(broker_call(307).unwrap(), BrokerCall::ConsumerRunningInfo);
    assert_eq!(broker_call(request_code::CONSUME_MESSAGE_DIRECTLY).unwrap(), BrokerCall::ConsumeDirectly);
    let refused = broker_call(-7).unwrap_err();
    assert_eq!(refused.code, response_code::SYSTEM_ERROR);
    assert_eq!(refused.remark.as_deref(), Some("unsupported request code -7"));
    assert!(!is_answered(BrokerCall::ResetOffset));
    assert!(!is_answered(BrokerCall::ConsumerIdsChanged));
    assert!(is_answered(BrokerCall::ConsumerStatus));
    assert_eq!(released().remark.as_deref(), Some("client instance already released"));
}

#[test]
fn reset_offset_needs_a_registered_group_and_a_readable_body() {
    let mut instance = new_instance();
    instance.register_consumer(GROUP, StubConsumer::new());
    let group = Some(GROUP.to_string());
    let topic = Some(TOPIC.to_string());
    let table = vec![(MessageQueue::new(TOPIC, BROKER, 0), 11), (MessageQueue::new(TOPIC, BROKER, 1), 22)];
    let (c, t, offsets) = instance.process_reset_offset(&group, &topic, Some(Some(table))).unwrap();
    assert_eq!(c.group, GROUP);
    assert_eq!(t, TOPIC);
    assert_eq!(offsets[1].1, 22);
    let (_, t, offsets) = instance.process_reset_offset(&group, &None, None).unwrap();
    assert_eq!(t, "");
    assert!(offsets.is_empty());
    assert!(instance.process_reset_offset(&group, &topic, Some(None)).is_none());
    assert!(instance.process_reset_offset(&None, &topic, None).is_none());
    assert!(instance.process_reset_offset(&Some("other".to_string()), &topic, None).is_none());
}

#[test]
fn status_and_running_info_are_refused_for_an_unknown_group() {
    let mut instance = new_instance();
    instance.register_consumer(GROUP, StubConsumer::new());
    let group = Some(GROUP.to_string());
    assert_eq!(instance.process_get_consumer_status(&group, Some("")).unwrap()[0].1, 42);
    assert_eq!(instance.process_get_consumer_running_info(&group).body.as_deref(), Some(b"running".as_slice()));
    let refused = instance.process_get_consumer_status(&Some("nobody".to_string()), None).unwrap_err();
    assert_eq!(refused.remark.as_deref(), Some("no consumer for group=nobody"));
    let refused = instance.process_get_consumer_running_info(&None);
    assert_eq!(refused.remark.as_deref(), Some("no consumer for group="));
    assert_eq!(refused.code, response_code::SYSTEM_ERROR);
}

#[test]
fn consume_directly_rejects_bad_bodies() {
    let mut instance = new_instance();
    instance.register_consumer(GROUP, StubConsumer::new());
    let group = Some(GROUP.to_string());
    let mut msg = MessageExt::new();
    msg.topic = TOPIC.to_string();
    let ok = instance.process_consume_message_directly(&group, Some(Some(msg)), Some(BROKER.to_string()));
    assert_eq!(ok.code, response_code::SUCCESS);
    assert_eq!(ok.body.unwrap(), format!("{TOPIC}|{BROKER}").into_bytes());
    let empty = instance.process_consume_message_directly(&group, None, None);
    assert_eq!(empty.remark.as_deref(), Some("empty message body"));
    let broken = instance.process_consume_message_directly(&group, Some(None), None);
    assert_eq!(broken.remark.as_deref(), Some("decode message failed"));
    let failed = instance.process_consume_message_directly(&group, Some(Some(MessageExt::new())), None);
    assert!(failed.remark.unwrap().starts_with("consume message directly failed: "));
    let unknown = instance.process_consume_message_directly(&None, None, None);
    assert_eq!(unknown.remark.as_deref(), Some("no consumer for group="));
}

#[test]
fn changed_members_wake_every_consumer() {
    let mut instance = new_instance();
    instance.register_consumer("b", StubConsumer::new());
    instance.register_consumer("a", StubConsumer::new());
    for round in 1..=2 {
        instance.process_notify_consumer_ids_changed();
        assert_eq!(instance.consumer_ids_changed_count(), round);
        for g in ["a", "b"] {
            assert_eq!(instance.find_consumer(g).unwrap().wakeups.load(Ordering::SeqCst), round);
        }
    }
    instance.adjust_thread_pool();
}

#[test]
fn start_is_idempotent_and_plans_its_tasks() {
    let mut instance = new_instance();
    assert!(instance.begin_start());
    assert!(!instance.begin_start());
    assert!(instance.is_started());
    let kinds: Vec<TaskKind> = instance.background_tasks(false).iter().map(|t| t.kind).collect();
    assert_eq!(
        kinds,
        vec![TaskKind::RouteRefresh, TaskKind::AdjustPool, TaskKind::Heartbeat, TaskKind::PersistOffset]
    );
    let with_refresh = instance.background_tasks(true);
    assert_eq!(with_refresh.len(), 5);
    assert_eq!(with_refresh[0].kind, TaskKind::NameServerRefresh);
    assert_eq!(with_refresh[0].initial_delay_millis, 10_000);
    assert_eq!(with_refresh[0].period_millis, 120_000);
    assert_eq!(with_refresh[1].initial_delay_millis, 10);
    assert_eq!(with_refresh[4].period_millis, 5_000);
}

#[test]
fn address_server_is_asked_only_without_addresses() {
    let none: MQClientInstance<StubConsumer> =
        MQClientInstance::with_config("cid", Vec::new(), MQClientInstanceConfig::default());
    assert!(none.is_dynamic("http://ws"));
    assert!(!none.is_dynamic(""));
    assert!(!new_instance().is_dynamic("http://ws"));
    assert!(new_instance().check_fetched("http://ws").is_ok());
    match none.check_fetched("http://ws").unwrap_err() {
        Error::Client { response_code, message } => {
            assert_eq!(response_code, Some(10004));
            assert_eq!(message, "name server address is not set and address server (http://ws) returned none");
        }
        _ => panic!("a client failure was due"),
    }
}

#[test]
fn shutdown_keeps_the_instance_alive_while_tenants_remain() {
    let mut registry = InstanceRegistry::new();
    let mut instance = new_instance();
    registry.register("cid", 1);
    instance.register_consumer(GROUP, StubConsumer::new());
    instance.register_consumer_group("GID_Lite");
    instance.register_producer("PG_First");
    instance.register_producer("PG_Second");
    assert!(instance.has_producer("PG_First"));
    assert!(instance.has_producer("PG_Second"));
    assert!(instance.has_consumer_group("GID_Lite"));
    assert_eq!(instance.tenant_count(), 4);

    assert!(instance.begin_start());
    let plans = instance.conclude_start(&mut registry, 1, "", false, Ok(())).unwrap();
    assert_eq!(plans.len(), 4);
    assert_eq!(instance.tasks, plans);

    instance.unregister_producer("PG_First");
    assert!(!instance.has_producer("PG_First"));
    assert!(!instance.shutdown(&mut registry, 1));
    assert!(instance.is_started());
    assert_eq!(instance.tasks, plans);
    assert_eq!(registry.find_instance("cid"), Some(1));

    instance.unregister_producer("PG_Second");
    assert!(!instance.shutdown(&mut registry, 1));
    assert!(instance.is_started());
    instance.unregister_consumer_group("GID_Lite");
    assert!(!instance.shutdown(&mut registry, 1));
    assert!(instance.is_started());
    instance.detach_from_registry_if_last_tenant(&mut registry, 1);
    assert_eq!(registry.find_instance("cid"), Some(1));

    instance.unregister_consumer(GROUP);
    assert!(instance.shutdown(&mut registry, 1));
    assert!(!instance.is_started());
    assert!(instance.tasks.is_empty());
    assert_eq!(registry.find_instance("cid"), None);
}

#[test]
fn start_is_idempotent_and_restartable() {
    let mut registry = InstanceRegistry::new();
    let mut instance = new_instance();
    registry.register("cid", 1);
    instance.register_consumer(GROUP, StubConsumer::new());

    assert!(instance.begin_start());
    let plans = instance.conclude_start(&mut registry, 1, "", false, Ok(())).unwrap();
    assert_eq!(plans.len(), 4);
    assert!(instance.is_started());

    assert!(!instance.begin_start());
    assert_eq!(instance.tasks, plans);

    instance.unregister_consumer(GROUP);
    assert!(instance.shutdown(&mut registry, 1));
    assert!(!instance.is_started());
    assert_eq!(instance.tasks.len(), 0);

    assert!(instance.begin_start());
    let again = instance.conclude_start(&mut registry, 1, "", false, Ok(())).unwrap();
    assert_eq!(again, plans);
    assert_eq!(instance.tasks, plans);
    assert!(instance.is_started());
}

#[test]
fn start_failure_cleans_up_and_unregisters_the_instance() {
    let mut registry = InstanceRegistry::new();
    let mut instance: MQClientInstance<StubConsumer> = MQClientInstance::new("cid", Vec::new());
    registry.register("cid", 1);
    assert!(instance.begin_start());
    let dynamic = instance.is_dynamic("http://ws");
    assert!(dynamic);
    let err = instance.conclude_start(&mut registry, 1, "http://ws", dynamic, Ok(())).unwrap_err();
    assert_eq!(err.response_code(), Some(10004));
    assert!(!instance.is_started());
    assert!(instance.tasks.is_empty());
    assert_eq!(registry.find_instance("cid"), None);
    assert_eq!(registry.create_mq_client_instance("cid", 2), 2);

    // The failure of a part comes first, and a newer instance stays.
    assert!(instance.begin_start());
    let failed = Err(Error::client("stats"));
    let err = instance.conclude_start(&mut registry, 1, "http://ws", true, failed).unwrap_err();
    assert_eq!(err.text(), "MQClientException: stats");
    assert!(!instance.is_started());
    assert_eq!(registry.find_instance("cid"), Some(2));

    // With addresses from the address server, they are asked for again later.
    assert!(instance.begin_start());
    instance.apply_namesrv_change(NAMESRV);
    let plans = instance.conclude_start(&mut registry, 1, "http://ws", true, Ok(())).unwrap();
    assert_eq!(plans.len(), 5);
    assert_eq!(plans[0].kind, TaskKind::NameServerRefresh);
}

#[test]
fn shutdown_does_not_strike_out_a_newer_instance() {
    let mut registry = InstanceRegistry::new();
    let mut instance = new_instance();
    assert_eq!(registry.create_mq_client_instance("cid", 1), 1);
    assert_eq!(registry.create_mq_client_instance("cid", 2), 1);
    registry.register("cid", 2);
    assert!(instance.shutdown(&mut registry, 1));
    assert_eq!(registry.find_instance("cid"), Some(2));
    registry.remove_own("cid", 2);
    assert_eq!(registry.find_instance("cid"), None);
}

#[test]
fn name_servers_change_only_to_something() {
    let mut instance = new_instance();
    instance.apply_namesrv_change(" ; ");
    assert_eq!(instance.name_server_addrs(), vec![NAMESRV.to_string()]);
    instance.apply_namesrv_change("a:1; b:2 ;");
    assert_eq!(instance.name_server_addrs(), vec!["a:1".to_string(), "b:2".to_string()]);
    instance.update_name_server_address_list(&Vec::new());
    assert_eq!(instance.name_server_addrs().len(), 2);
    let bare: MQClientInstance<StubConsumer> = MQClientInstance::new("c", Vec::new());
    match bare.name_servers_for_route().unwrap_err() {
        Error::Client { response_code, message } => {
            assert_eq!(response_code, Some(10004));
            assert_eq!(message, "name server address list is empty");
        }
        _ => panic!("a client failure was due"),
    }
}

#[test]
fn topics_in_use_leave_out_the_empty_one() {
    let mut instance = new_instance();
    instance.register_topic_in_use("");
    instance.register_topic_in_use("T");
    assert_eq!(instance.topics_in_use.keys(), vec!["T".to_string()]);
}

#[test]
fn stored_routes_give_queues_and_addresses() {
    let mut instance = new_instance();
    let err = instance.get_topic_publish_info("T").err().unwrap();
    assert!(err.text().contains("Can not find Message Queue for topic: T"));
    instance.store_route("T", route(&[("broker-b", "b:1"), ("broker-a", "a:1")]));
    assert_eq!(instance.get_topic_publish_info("T").unwrap().msg_queue_list().len(), 8);
    assert_eq!(instance.broker_addr_of("broker-a").as_deref(), Some("a:1"));
    assert_eq!(instance.broker_addr_of("broker-z"), None);
    assert_eq!(instance.get_route_of_all_brokers(), vec!["a:1".to_string(), "b:1".to_string()]);
    assert_eq!(instance.find_broker_addr_by_topic("T", 1).as_deref(), Some("a:1"));
    assert_eq!(instance.find_broker_addr_by_topic("T", 2), None);
    assert_eq!(instance.find_broker_addr_by_topic("X", 0), None);
    assert_eq!(instance.broker_count("T"), 2);
}

#[test]
fn unregistering_reaches_every_address_and_heartbeats_the_master() {
    let mut instance = new_instance();
    let mut r = TopicRouteData::new();
    r.broker_datas.push(BrokerData::new(
        "c",
        BROKER,
        vec![(1, "slave:1".to_string()), (0, "master:1".to_string()), (2, String::new())],
    ));
    instance.store_route("T", r);
    assert_eq!(instance.get_route_of_all_brokers(), vec!["master:1".to_string()]);
    assert_eq!(instance.get_all_broker_addrs(), vec!["master:1".to_string(), "slave:1".to_string()]);
}

#[test]
fn route_walk_passes_failures_and_stops_at_an_answer() {
    let mut walk = RouteFetch::new();
    assert!(matches!(walk.take(RouteReply::Unreached(Error::Connect { addr: "a".to_string() })), FetchStep::AskNext));
    assert!(matches!(walk.take(RouteReply::Unreadable(Error::Decode("x".to_string()))), FetchStep::AskNext));
    assert!(matches!(walk.finish(), Err(Error::Decode(_))));
    let mut walk = RouteFetch::new();
    assert!(matches!(walk.take(RouteReply::Unusable), FetchStep::Stop));
    assert!(matches!(walk.finish(), Ok(None)));
    let mut walk = RouteFetch::new();
    let busy = Error::Broker { response_code: 2, message: "busy".to_string() };
    assert!(matches!(walk.take(RouteReply::Unreached(busy)), FetchStep::AskNext));
    assert!(matches!(walk.finish(), Ok(None)));
    let mut walk = RouteFetch::new();
    assert!(matches!(walk.take(RouteReply::Route(route(&[("b", "a:1")]))), FetchStep::Found(_)));
}

#[test]
fn only_producers_fall_back_to_the_default_topic() {
    assert!(matches!(route_step("T", true, false, None), RouteStep::AskDefault));
    assert!(matches!(route_step("T", false, false, None), RouteStep::Missing));
    assert!(matches!(route_step("TBW102", true, false, None), RouteStep::Missing));
    assert!(matches!(route_step("T", true, true, None), RouteStep::Missing));
    let mut wide = TopicRouteData::new();
    wide.queue_datas.push(QueueData::new("b", 16, 2, 6, 0));
    match route_step("T", true, true, Some(wide)) {
        RouteStep::Store(r) => {
            assert_eq!(r.queue_datas[0].read_queue_nums, 4);
            assert_eq!(r.queue_datas[0].write_queue_nums, 2);
        }
        _ => panic!("a route was due"),
    }
    let mut many = TopicRouteData::new();
    many.queue_datas.push(QueueData::new("b", 16, 16, 6, 0));
    match route_step("T", true, true, Some(many)) {
        RouteStep::Store(r) => {
            let ids: Vec<i32> = r.get_all_message_queue("T").iter().map(|q| q.queue_id).collect();
            assert_eq!(ids, vec![0, 1, 2, 3]);
        }
        _ => panic!("a route was due"),
    }
}

#[test]
fn creation_of_a_topic_tries_again_only_without_an_answer() {
    let lost = || -> Result<ResponseHead, Error> { Err(Error::Connect { addr: "a".to_string() }) };
    let mut c = TopicCreation::new(3);
    assert!(c.attempt(lost()).is_none());
    assert!(c.attempt(lost()).is_none());
    assert!(matches!(c.attempt(lost()), Some(Err(Error::Connect { .. }))));
    let mut c = TopicCreation::new(0);
    assert!(matches!(c.attempt(lost()), Some(Err(Error::Connect { .. }))));
    let mut c = TopicCreation::new(5);
    match c.attempt(Ok(head(1, Some("no")))) {
        Some(Err(Error::Broker { response_code, message })) => {
            assert_eq!(response_code, 1);
            assert_eq!(message, "no");
        }
        _ => panic!("a broker failure was due"),
    }
    let mut c = TopicCreation::new(5);
    assert!(matches!(c.attempt(Ok(head(0, None))), Some(Ok(()))));
    let mut c = TopicCreation::new(5);
    let said = Err(Error::Broker { response_code: 9, message: String::new() });
    assert!(matches!(c.attempt(said), Some(Err(Error::Broker { .. }))));
    let h = create_topic_header("TBW102", "T", 4, 5, 6, 7, "SINGLE_TAG", false, None);
    assert_eq!(h.attributes.as_deref(), Some(""));
    assert_eq!(h.write_queue_nums, Some(5));
    assert_eq!(h.force, Some(false));
}

#[test]
fn one_broker_is_enough_to_make_a_topic() {
    let mut all = RouteCreation::new();
    assert!(RouteCreation::new().finish().is_ok());
    all.note(Err(Error::client("first")));
    all.note(Err(Error::client("second")));
    let err = all.finish().unwrap_err().text();
    assert!(err.contains("create new topic failed: ") && err.contains("second"));
    let mut some = RouteCreation::new();
    some.note(Ok(()));
    some.note(Err(Error::client("late")));
    assert!(some.finish().is_ok());
    assert!(no_default_route().text().contains("No route info of default topic TBW102"));
}

#[test]
fn name_server_questions_fail_in_their_own_words() {
    assert!(name_servers_failed(NameServerQuestion::ClusterInfo, "")
        .text()
        .contains("Failed to get broker cluster info from name server"));
    assert!(name_servers_failed(NameServerQuestion::TopicList, "")
        .text()
        .contains("Failed to get all topic list from name server"));
    assert!(name_servers_failed(NameServerQuestion::DeleteTopic, "T")
        .text()
        .contains("Failed to delete topic T in name server"));
    assert_eq!(usable_body(&head(0, None), Some(vec![1])), Some(vec![1]));
    assert_eq!(usable_body(&head(0, None), Some(Vec::new())), None);
    assert_eq!(usable_body(&head(1, None), Some(vec![1])), None);
    assert_eq!(usable_body(&head(0, None), None), None);
    assert_eq!(named_members(&head(0, None), Some(vec!["a".to_string()])), Some(vec!["a".to_string()]));
    assert_eq!(named_members(&head(0, None), None), None);
    assert_eq!(named_members(&head(1, None), Some(vec!["a".to_string()])), None);
    assert_eq!(consumer_list_addr(Some("a:1")).unwrap(), "a:1");
    assert!(consumer_list_addr(None).unwrap_err().text().contains("broker addr required for get consumer list"));
}

fn found(id: &str, keys: &str, topic: &str, offset: i64) -> MessageExt {
    let mut m = MessageExt::new();
    m.msg_id = Some(id.to_string());
    m.topic = topic.to_string();
    m.queue_offset = offset;
    if !keys.is_empty() {
        m.put_property("KEYS", keys);
    }
    m
}

#[test]
fn queries_are_checked_merged_and_sorted() {
    let mut all = Vec::new();
    let first = vec![found("1", "a k", "T", 9), found("2", "k", "other", 1), found("3", "", "T", 1)];
    gather(&mut all, first, &"broker-a".to_string(), "T", "k", false);
    let second = vec![found("4", "k", "T", 3), found("5", "kk", "T", 2), found("6", "k b", "T", 9)];
    gather(&mut all, second, &"broker-b".to_string(), "T", "k", false);
    let ids = |v: &Vec<MessageExt>| -> Vec<String> { v.iter().map(|m| m.msg_id.clone().unwrap()).collect() };
    assert_eq!(ids(&all), vec!["1", "4", "6"]);
    assert_eq!(all[0].broker_name.as_deref(), Some("broker-a"));
    assert_eq!(all[2].broker_name.as_deref(), Some("broker-b"));
    let sorted = query_result(all, 0);
    assert_eq!(ids(&sorted), vec!["4", "1", "6"]);
    assert_eq!(ids(&query_result(sorted, 2)), vec!["4", "1"]);
    let mut by_id = Vec::new();
    gather(&mut by_id, vec![found("x", "", "", 0), found("y", "x", "T", 0)], &"b".to_string(), "T", "x", true);
    assert_eq!(ids(&by_id), vec!["x"]);
}

#[test]
fn query_answers_and_targets() {
    assert_eq!(query_answer(&head(22, None), Some(vec![1])).unwrap(), None);
    assert_eq!(query_answer(&head(0, None), Some(vec![1])).unwrap(), Some(vec![1]));
    assert!(matches!(query_answer(&head(3, None), None), Err(Error::Broker { response_code: 3, .. })));
    let h = query_header("T", "k", 32, 1, 2, Some("K"));
    assert_eq!(h.index_type.as_deref(), Some("K"));
    assert_eq!(h.max_num, Some(32));
    let mut r = route(&[("a", "a:1"), ("b", "")]);
    r.broker_datas.push(BrokerData::new("c", "d", Vec::new()));
    assert_eq!(route_targets(&r), vec![("a".to_string(), "a:1".to_string())]);
}

#[test]
fn queues_are_grouped_by_first_appearance() {
    let q = |b: &str, i: i32| MessageQueue::new("T", b, i);
    let groups = group_by_broker(&[q("b", 0), q("a", 0), q("b", 1), q("a", 1)]);
    assert_eq!(groups.len(), 2);
    assert_eq!(groups[0].0, "b");
    assert_eq!(groups[0].1, vec![q("b", 0), q("b", 1)]);
    assert_eq!(groups[1].1, vec![q("a", 0), q("a", 1)]);
    assert!(group_by_broker(&[]).is_empty());
}

#[test]
fn only_expressions_that_are_no_tags_are_checked() {
    let mut instance = new_instance();
    instance.store_route(TOPIC, route(&[(BROKER, "a:1")]));
    assert_eq!(instance.check_target(&sub(TOPIC, "a>1", "SQL92"), 0).as_deref(), Some("a:1"));
    assert_eq!(instance.check_target(&sub(TOPIC, "TagA", "TAG"), 0), None);
    assert_eq!(instance.check_target(&sub(TOPIC, "TagA", ""), 0), None);
    assert_eq!(instance.check_target(&sub("unknown", "a>1", "SQL92"), 0), None);
    match config_answer(&head(23, Some("bad"))).unwrap_err() {
        Error::Client { response_code, message } => {
            assert_eq!(response_code, Some(23));
            assert_eq!(message, "bad");
        }
        _ => panic!("a client failure was due"),
    }
    assert!(config_answer(&head(0, None)).is_ok());
    let wrapped = check_failure(Error::Connect { addr: "a".to_string() }, &sub(TOPIC, "a>1", "SQL92"));
    assert!(wrapped.text().contains("maybe because you use SQL92 to filter message"));
    let kept = check_failure(Error::client_with_code(23, "bad"), &sub(TOPIC, "a>1", "SQL92"));
    assert_eq!(kept.response_code(), Some(23));
}

#[test]
fn a_consumer_without_subscriptions_ends_the_check() {
    let mut instance = new_instance();
    instance.register_consumer("a", StubConsumer::with_subs("a", vec![sub("T", "x", "SQL92")]));
    instance.register_consumer("b", StubConsumer::new());
    instance.register_consumer("c", StubConsumer::with_subs("c", vec![sub("T", "x", "SQL92")]));
    let todo = instance.consumers_to_check();
    assert_eq!(todo.len(), 1);
    assert_eq!(todo[0].0, "a");
}

#[test]
fn heartbeat_lists_consumers_by_group() {
    let mut instance = new_instance();
    instance.register_consumer("b", StubConsumer::new());
    instance.register_consumer("a", StubConsumer::with_subs("a", vec![sub("T", "*", "TAG")]));
    let hb = instance.prepare_heartbeat_data();
    assert_eq!(hb.client_id, "cid");
    assert_eq!(hb.consumer_data_set.len(), 2);
    assert_eq!(hb.consumer_data_set[0].group_name, "a");
    assert_eq!(hb.consumer_data_set[0].subscription_data_set.len(), 1);
    assert_eq!(hb.consumer_data_set[1].group_name, "b");
    assert_eq!(hb.consumer_data_set[1].message_model, "CLUSTERING");
}

#[test]
fn name_servers_are_asked_in_turn() {
    let addrs = vec!["a:1".to_string(), "b:2".to_string()];
    let mut walk = NameServerWalk::new(NameServerQuestion::DeleteTopic, "T", addrs);
    assert_eq!(walk.next_server().unwrap(), "a:1");
    assert_eq!(walk.next_server().unwrap(), "b:2");
    for _ in 0..2 {
        assert_eq!(
            walk.next_server().unwrap_err().text(),
            "MQClientException: Failed to delete topic T in name server"
        );
    }
    let mut none = NameServerWalk::new(NameServerQuestion::ClusterInfo, "", Vec::new());
    assert!(none.next_server().unwrap_err().text().contains("Failed to get broker cluster info"));

    let length = |b: &Vec<u8>| if b[0] == 9 { Err(Error::client("unreadable")) } else { Ok(b.len()) };
    assert_eq!(take_answer(Ok((head(0, None), Some(vec![1, 2]))), length), Some(2));
    assert_eq!(take_answer(Ok((head(0, None), Some(vec![9, 2]))), length), None);
    assert_eq!(take_answer(Ok((head(0, None), Some(Vec::new()))), length), None);
    assert_eq!(take_answer(Ok((head(0, None), None)), length), None);
    assert_eq!(take_answer(Ok((head(1, None), Some(vec![1]))), length), None);
    assert_eq!(take_answer(Err(Error::client("x")), length), None);
    assert!(obeyed(&Ok(head(0, None))));
    assert!(!obeyed(&Ok(head(1, None))));
    assert!(!obeyed(&Err(Error::client("x"))));
}

#[test]
fn one_address_of_each_broker_is_used() {
    let mut instance = new_instance();
    let mut r = route(&[("a", "a:1")]);
    let slaves = vec![(1, "s:1".to_string()), (2, "s:2".to_string())];
    r.broker_datas.push(BrokerData::new("c", "s", slaves));
    instance.store_route("T", r);
    let got = instance.get_route_of_all_brokers();
    assert_eq!(got.len(), 2);
    assert_eq!(got[0], "a:1");
    assert!(got[1] == "s:1" || got[1] == "s:2");
    let addr = instance.broker_addr_of("s").unwrap();
    assert!(addr == "s:1" || addr == "s:2");
    assert_eq!(instance.broker_addr_of("t"), None);
}

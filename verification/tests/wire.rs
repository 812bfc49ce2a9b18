//! What travels: requests, answers, handles, properties, addresses.
use rocketmq_client::extra_info::{
    build_extra_info, get_broker_name, get_retry, parse_msg_offset_info, parse_start_offset_info,
};
use rocketmq_client::lookup::{addr_for, broker_addr, cap_default_route, needs_route, pop_target};
use rocketmq_client::message::{
    Message, MessageBatch, MessageExt, MessageQueue, PROPERTY_FIRST_POP_TIME, PROPERTY_MAX_RECONSUME_TIMES,
    PROPERTY_MESSAGE_TYPE, PROPERTY_POP_CK, PROPERTY_RECONSUME_TIME, PROPERTY_UNIQ_KEY,
};
use rocketmq_client::pop::invisible_time_result;
use rocketmq_client::properties::{message_properties_2_string, string_2_message_properties};
use rocketmq_client::protocol::{
    ChangeInvisibleTimeResponseHeader, PopMessageResponseHeader, PullMessageResponseHeader, ResponseHead,
    SendMessageResponseHeader,
};
use rocketmq_client::publish::PublishMessage;
use rocketmq_client::request_code;
use rocketmq_client::response_code;
use rocketmq_client::result::{PopStatus, PullStatus, SendStatus};
use rocketmq_client::route::{BrokerData, QueueData, TopicRouteData};
use rocketmq_client::sysflag::{
    build_sys_flag_basic, get_compression_type, is_compressed, reset_transaction_value, set_compression_type,
    COMPRESSED_FLAG, LZ4_TYPE, TRANSACTION_COMMIT_TYPE, TRANSACTION_PREPARED_TYPE,
};
use rocketmq_client::table::Table;
use rocketmq_client::text::{int_text, parse_i32, parse_i64, split, split_addrs, trim};
use rocketmq_client::wire::{
    ack_request_header, build_send_request, handle_broker_name, invisible_time_request_header, number_answer, offset_answer,
    parse_send_response, pop_request_header, pop_result, pull_result, recall_answer, send_back_header, PopArgs,
};

fn head(code: i32) -> ResponseHead {
    ResponseHead { code, remark: Some("why".to_string()) }
}

fn mq() -> MessageQueue {
    MessageQueue::new("T", "broker-a", 3)
}

fn sent_header() -> SendMessageResponseHeader {
    SendMessageResponseHeader {
        msg_id: Some("M".to_string()),
        queue_id: Some(1),
        queue_offset: Some(9),
        transaction_id: None,
        batch_uniq_id: None,
        recall_handle: Some("H".to_string()),
    }
}

#[test]
fn a_single_message_gets_an_id_and_travels_whole() {
    let mut msg = Message::new("T", Some(b"body"));
    msg.flag = 5;
    let r = build_send_request(
        "G",
        &mut PublishMessage::Single(&mut msg),
        &mq(),
        1,
        true,
        "",
        4,
        "fresh",
        77,
    );
    assert_eq!(r.code, request_code::SEND_MESSAGE_V2);
    assert_eq!(r.body, b"body");
    assert_eq!(r.header.default_topic.as_deref(), Some("TBW102"));
    assert_eq!(r.header.queue_id, Some(3));
    assert_eq!(r.header.flag, Some(5));
    assert_eq!(r.header.born_timestamp, Some(77));
    assert_eq!(r.header.batch, Some(false));
    assert_eq!(r.header.unit_mode, Some(true));
    assert_eq!(r.header.max_reconsume_times, None);
    assert_eq!(msg.get_property(PROPERTY_UNIQ_KEY), Some("fresh"));
    assert_eq!(
        string_2_message_properties(r.header.properties.as_deref().unwrap()).get(PROPERTY_UNIQ_KEY),
        Some(&"fresh".to_string())
    );
}

#[test]
fn batches_and_replies_have_codes_of_their_own() {
    let mut batch = MessageBatch { message: Message::new("T", None), messages: vec![] };
    let r = build_send_request("G", &mut PublishMessage::Batch(&mut batch), &mq(), 0, false, "K", 4, "f", 1);
    assert_eq!(r.code, request_code::SEND_BATCH_MESSAGE);
    assert_eq!(r.header.batch, Some(true));
    assert_eq!(r.header.default_topic.as_deref(), Some("K"));
    assert!(!batch.message.has_property(PROPERTY_UNIQ_KEY));
    let mut reply = Message::new("T", Some(b"x"));
    reply.put_property(PROPERTY_MESSAGE_TYPE, "reply");
    let r = build_send_request("G", &mut PublishMessage::Single(&mut reply), &mq(), 0, false, "K", 4, "f", 1);
    assert_eq!(r.code, request_code::SEND_REPLY_MESSAGE_V2);
}

#[test]
fn counters_travel_for_retry_topics_only() {
    let mut msg = Message::new("%RETRY%g", Some(b"x"));
    msg.put_property(PROPERTY_RECONSUME_TIME, "3");
    msg.put_property(PROPERTY_MAX_RECONSUME_TIMES, "16");
    let r = build_send_request("G", &mut PublishMessage::Single(&mut msg), &mq(), 0, false, "K", 4, "f", 1);
    assert_eq!(r.header.reconsume_times, Some(3));
    assert_eq!(r.header.max_reconsume_times, Some(16));
    msg.topic = "T".to_string();
    let r = build_send_request("G", &mut PublishMessage::Single(&mut msg), &mq(), 0, false, "K", 4, "f", 1);
    assert_eq!(r.header.reconsume_times, Some(0));
    assert_eq!(r.header.max_reconsume_times, None);
}

#[test]
fn answers_to_a_send() {
    let mut msg = Message::new("T", Some(b"x"));
    let s = parse_send_response(&head(response_code::SUCCESS), &sent_header(), None, None, &msg, &mq()).unwrap();
    assert_eq!(s.status, SendStatus::SendOk);
    assert_eq!(s.msg_id.as_deref(), Some("M"));
    assert_eq!(s.offset_msg_id.as_deref(), Some("M"));
    assert_eq!(s.message_queue, Some(MessageQueue::new("T", "broker-a", 1)));
    assert_eq!(s.region_id.as_deref(), Some("DefaultRegion"));
    assert!(s.trace_on);
    msg.put_property(PROPERTY_UNIQ_KEY, "U");
    let s = parse_send_response(
        &head(response_code::FLUSH_DISK_TIMEOUT),
        &sent_header(),
        Some("R"),
        Some("false"),
        &msg,
        &mq(),
    )
    .unwrap();
    assert_eq!(s.status, SendStatus::FlushDiskTimeout);
    assert_eq!(s.msg_id.as_deref(), Some("U"));
    assert_eq!(s.region_id.as_deref(), Some("R"));
    assert!(!s.trace_on);
    let e = parse_send_response(&head(response_code::SYSTEM_BUSY), &sent_header(), None, None, &msg, &mq());
    assert_eq!(e.unwrap_err().text(), "MQBrokerException: CODE: 2 DESC: why");
}

#[test]
fn answers_to_a_pull() {
    let header =
        PullMessageResponseHeader { next_begin_offset: Some(5), min_offset: None, max_offset: Some(9) };
    let p = pull_result(&head(response_code::SUCCESS), &header, vec![MessageExt::new()], &mq()).unwrap();
    assert_eq!(p.status, PullStatus::Found);
    assert_eq!((p.next_begin_offset, p.min_offset, p.max_offset), (5, 0, 9));
    assert_eq!(p.msg_found_list[0].broker_name.as_deref(), Some("broker-a"));
    assert_eq!(p.msg_found_list[0].queue_id, 3);
    let status = |code: i32| pull_result(&head(code), &header, vec![], &mq()).map(|p| p.status);
    assert_eq!(status(response_code::PULL_NOT_FOUND).unwrap(), PullStatus::NoNewMsg);
    assert_eq!(status(response_code::PULL_OFFSET_MOVED).unwrap(), PullStatus::OffsetIllegal);
    assert_eq!(status(response_code::PULL_RETRY_IMMEDIATELY).unwrap(), PullStatus::NoMatchedMsg);
    assert!(status(response_code::SYSTEM_ERROR).is_err());
}

fn popped_header() -> PopMessageResponseHeader {
    PopMessageResponseHeader {
        pop_time: Some(1000),
        invisible_time: Some(60),
        revive_qid: Some(2),
        rest_num: Some(4),
        start_offset_info: None,
        msg_offset_info: None,
        order_count_info: None,
    }
}

fn at(topic: &str, offset: i64) -> MessageExt {
    let mut m = MessageExt::new();
    m.topic = topic.to_string();
    m.queue_id = 3;
    m.queue_offset = offset;
    m
}

#[test]
fn popped_messages_get_handles() {
    let found = vec![at("T", 7), at("T", 8)];
    let r = pop_result(&head(response_code::SUCCESS), &popped_header(), found, "broker-a", "T").unwrap();
    assert_eq!(r.status, PopStatus::Found);
    assert_eq!(r.rest_num, 4);
    assert_eq!(r.msg_found_list[0].get_property(PROPERTY_POP_CK), Some("7 1000 60 2 0 broker-a 3 7"));
    assert_eq!(r.msg_found_list[1].get_property(PROPERTY_POP_CK), Some("7 1000 60 2 0 broker-a 3 8"));
    assert_eq!(r.msg_found_list[1].get_property(PROPERTY_FIRST_POP_TIME), Some("1000"));
    let mut header = popped_header();
    header.start_offset_info = Some("0 3 100".to_string());
    header.msg_offset_info = Some("0 3 105,108".to_string());
    let found = vec![at("T", 108), at("T", 105)];
    let r = pop_result(&head(response_code::SUCCESS), &header, found, "broker-a", "T").unwrap();
    assert_eq!(r.msg_found_list[0].get_property(PROPERTY_POP_CK), Some("100 1000 60 2 0 broker-a 3 108"));
    assert_eq!(r.msg_found_list[1].get_property(PROPERTY_POP_CK), Some("100 1000 60 2 0 broker-a 3 105"));
}

#[test]
fn stamps_write_over_nothing() {
    let mut header = popped_header();
    header.start_offset_info = Some("1 3 100".to_string());
    header.msg_offset_info = Some("1 3 7".to_string());
    let mut m = at("%RETRY%g_T", 7);
    m.put_property(PROPERTY_POP_CK, "1 2 3 4 1 broker-b 3 7");
    m.put_property(PROPERTY_FIRST_POP_TIME, "55");
    m.set_tags("TagA");
    let r = pop_result(&head(response_code::SUCCESS), &header, vec![m], "broker-a", "T").unwrap();
    assert_eq!(r.msg_found_list[0].get_property(PROPERTY_POP_CK), Some("1 2 3 4 1 broker-b 3 7"));
    assert_eq!(r.msg_found_list[0].get_property(PROPERTY_FIRST_POP_TIME), Some("55"));
    assert_eq!(r.msg_found_list[0].get_tags(), Some("TagA"));
}

#[test]
fn retry_messages_come_back_under_their_topic() {
    let found = vec![at("%RETRY%g_T", 7)];
    let r = pop_result(&head(response_code::SUCCESS), &popped_header(), found, "broker-a", "T").unwrap();
    assert_eq!(r.msg_found_list[0].topic, "T");
    assert_eq!(r.msg_found_list[0].get_property(PROPERTY_POP_CK), Some("7 1000 60 2 1 broker-a 3 7"));
    let mut bad = popped_header();
    bad.start_offset_info = Some("nonsense".to_string());
    let e = pop_result(&head(response_code::SUCCESS), &bad, vec![at("T", 1)], "broker-a", "T");
    assert_eq!(e.err().unwrap().text(), "MQClientException: parse startOffsetInfo error, nonsense");
    let r = pop_result(&head(response_code::POLLING_FULL), &popped_header(), vec![], "b", "T").unwrap();
    assert_eq!(r.status, PopStatus::PollingFull);
    assert!(pop_result(&head(response_code::SYSTEM_ERROR), &popped_header(), vec![], "b", "T").is_err());
}

#[test]
fn the_first_malformed_handle_is_named() {
    let mut header = popped_header();
    header.start_offset_info = Some("0 3 100".to_string());
    header.msg_offset_info = Some("0 3 7".to_string());
    let mut first = at("T", 8);
    first.put_property(PROPERTY_POP_CK, "first");
    let mut second = at("T", 9);
    second.put_property(PROPERTY_POP_CK, "second");
    let e = pop_result(&head(response_code::SUCCESS), &header, vec![at("T", 7), first, second], "broker-a", "T");
    assert_eq!(e.err().unwrap().text(), "MQClientException: parse retry flag fail, extraInfo: first");
}

#[test]
fn headers_of_pop_consumption() {
    let args = PopArgs {
        queue_id: -1,
        max_msg_nums: 32,
        invisible_time: 60,
        poll_time: 5,
        init_mode: 1,
        exp: Some("TagA"),
        exp_type: Some("TAG"),
        order: true,
    };
    let h = pop_request_header("g", "T", &args, 99);
    assert_eq!(h.born_time, Some(99));
    assert_eq!(h.exp.as_deref(), Some("TagA"));
    assert!(h.order);
    let a = ack_request_header("g", "T", 3, "ck", 7);
    assert_eq!((a.queue_id, a.offset), (Some(3), Some(7)));
    let c = invisible_time_request_header("g", "T", 3, "ck", 7, 60);
    assert_eq!(c.invisible_time, Some(60));
    assert!(!c.suspend);
    let times =
        ChangeInvisibleTimeResponseHeader { pop_time: Some(5), invisible_time: Some(60), revive_qid: Some(1) };
    let r = invisible_time_result(response_code::SUCCESS, &times, "T", "b", 3, 7);
    assert!(r.success);
    assert_eq!(r.extra_info.as_deref(), Some("7 5 60 1 0 b 3 7"));
    let r = invisible_time_result(response_code::SYSTEM_ERROR, &times, "T", "b", 3, 7);
    assert!(!r.success && r.extra_info.is_none());
    let mut m = at("T", 7);
    m.commit_log_offset = 44;
    let b = send_back_header("g", &m, 3, None, false);
    assert_eq!((b.offset, b.delay_level, b.max_reconsume_times), (Some(44), Some(3), None));
}

#[test]
fn handles_read_back() {
    let ck = build_extra_info(7, 1000, 60, 2, "%RETRY%g+T", "broker-a", 3, Some(8));
    assert_eq!(ck, "7 1000 60 2 2 broker-a 3 8");
    assert_eq!(get_retry(&ck).unwrap(), "2");
    assert_eq!(get_broker_name(&ck).unwrap(), "broker-a");
    assert!(get_retry("1 2").is_err());
    assert!(get_broker_name("1 2 3 4 5").is_err());
    assert_eq!(handle_broker_name(None, &ck).unwrap(), "broker-a");
    assert_eq!(handle_broker_name(Some("x"), "bad").unwrap(), "x");
    assert!(handle_broker_name(None, "bad").is_err());
    assert_eq!(parse_start_offset_info("0 3 100;1 4 5").unwrap()[1], ("1@4".to_string(), 5));
    assert_eq!(parse_msg_offset_info("0 3 1,2").unwrap()[0].1, vec![1, 2]);
    assert!(parse_msg_offset_info("0 3 x").is_err());
}

#[test]
fn offsets_may_be_unknown() {
    assert_eq!(offset_answer(&head(response_code::QUERY_NOT_FOUND), None).unwrap(), None);
    assert_eq!(offset_answer(&head(response_code::SUCCESS), Some(4)).unwrap(), Some(4));
    assert_eq!(offset_answer(&head(response_code::SUCCESS), None).unwrap(), None);
    assert!(offset_answer(&head(response_code::SYSTEM_ERROR), Some(4)).is_err());
    assert_eq!(number_answer(&head(response_code::SUCCESS), None).unwrap(), 0);
    assert_eq!(number_answer(&head(response_code::SUCCESS), Some(5)).unwrap(), 5);
    assert!(number_answer(&head(response_code::QUERY_NOT_FOUND), Some(5)).is_err());
    let recalled = |code: i32, id: Option<&str>| recall_answer(&head(code), id.map(str::to_string), "a:1");
    assert_eq!(recalled(response_code::SUCCESS, Some("m")).unwrap(), "m");
    assert!(recalled(response_code::SUCCESS, Some("")).unwrap_err().text().ends_with("has no msgId, addr a:1"));
    assert!(recalled(response_code::SUCCESS, None).is_err());
    assert!(recalled(response_code::SYSTEM_BUSY, Some("m")).is_err());
}

#[test]
fn properties_round_trip() {
    let mut props: Table<String> = Table::new();
    props.insert("b".to_string(), "2".to_string());
    props.insert("a".to_string(), "1 = one".to_string());
    let text = message_properties_2_string(&props);
    assert_eq!(text, "a\u{1}1 = one\u{2}b\u{1}2\u{2}");
    let back = string_2_message_properties(&text);
    assert_eq!(back.keys(), vec!["a".to_string(), "b".to_string()]);
    assert_eq!(back.get("a"), Some(&"1 = one".to_string()));
    assert!(string_2_message_properties("").is_empty());
}

#[test]
fn flags_read_back() {
    let flag = set_compression_type(COMPRESSED_FLAG, LZ4_TYPE);
    assert!(is_compressed(flag));
    assert_eq!(get_compression_type(flag), LZ4_TYPE);
    let half = reset_transaction_value(flag, TRANSACTION_PREPARED_TYPE);
    assert_eq!(reset_transaction_value(half, TRANSACTION_COMMIT_TYPE) & 12, TRANSACTION_COMMIT_TYPE);
    assert_eq!(get_compression_type(half), LZ4_TYPE);
    assert_eq!(build_sys_flag_basic(true, true, true, true), 15);
    assert_eq!(build_sys_flag_basic(false, false, true, false), 4);
}

#[test]
fn addresses_come_from_routes() {
    let mut r = TopicRouteData::new();
    r.broker_datas.push(BrokerData::new("c", "s", vec![(2, "s:2".to_string()), (1, "s:1".to_string())]));
    r.broker_datas.push(BrokerData::new("c", "broker-a", vec![(1, "x:1".to_string()), (0, "a:1".to_string())]));
    assert_eq!(broker_addr(Some(&r), &mq()).unwrap(), "a:1");
    assert!(broker_addr(None, &mq()).is_err());
    assert_eq!(addr_for(Some(&r), "T", Some("broker-a")).unwrap(), "a:1");
    assert!(["s:1", "s:2"].contains(&addr_for(Some(&r), "T", None).unwrap().as_str()));
    assert!(["s:1", "s:2"].contains(&r.broker_datas[0].select_broker_addr().unwrap().as_str()));
    assert_eq!(r.broker_datas[0].select_broker_addr_at(0).as_deref(), Some("s:2"));
    assert_eq!(r.broker_datas[0].select_broker_addr_at(1).as_deref(), Some("s:1"));
    assert_eq!(r.broker_datas[0].select_broker_addr_at(6).as_deref(), Some("s:2"));
    assert_eq!(r.broker_datas[1].select_broker_addr_at(0).as_deref(), Some("a:1"));
    assert_eq!(BrokerData::new("c", "n", Vec::new()).select_broker_addr(), None);
    assert!(needs_route(Some(""), Some("a")) && needs_route(None, Some("a")) && needs_route(Some("b"), None));
    assert!(!needs_route(Some("b"), Some("a")));
    assert!(addr_for(Some(&TopicRouteData::new()), "T", None).is_err());
    assert_eq!(pop_target(None, "T", Some("b"), Some("a")).unwrap(), ("a".to_string(), "b".to_string()));
    assert_eq!(pop_target(Some(&r), "T", None, Some("a")).unwrap().1, "s");
    assert!(pop_target(None, "T", None, Some("a")).is_err());
    assert_eq!(r.broker_datas[1].master_addr().as_deref(), Some("a:1"));
    assert_eq!(r.broker_datas[0].master_addr(), None);
    r.queue_datas.push(QueueData::new("s", 8, 2, 6, 0));
    cap_default_route(&mut r);
    assert_eq!((r.queue_datas[0].read_queue_nums, r.queue_datas[0].write_queue_nums), (4, 2));
}

#[test]
fn texts_and_numbers() {
    assert_eq!(int_text(i64::MIN), "-9223372036854775808");
    assert_eq!(parse_i64("-9223372036854775808"), Some(i64::MIN));
    assert_eq!(parse_i64("9223372036854775808"), None);
    assert_eq!(parse_i32("+7"), Some(7));
    assert_eq!(parse_i32("2147483648"), None);
    assert_eq!(parse_i32(""), None);
    assert_eq!(trim(" \ta b\n"), "a b");
    assert_eq!(split("a;b;", ";"), vec!["a".to_string(), "b".to_string(), String::new()]);
    assert_eq!(split_addrs(" a ;; b"), vec!["a".to_string(), "b".to_string()]);
    let mut t: Table<i32> = Table::new();
    t.insert("k".to_string(), 1);
    t.insert("k".to_string(), 2);
    assert_eq!(t.len(), 1);
    assert_eq!(t.remove("k"), Some(2));
    assert_eq!(t.remove("k"), None);
}

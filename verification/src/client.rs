//! The client instance: what one client id knows and who works through it.
use vstd::prelude::*;

use crate::client_error_code;
use crate::config::MQClientInstanceConfig;
use crate::error::{error_code, error_text, is_client, Error};
use crate::lookup::{
    add_listed, add_preferred, addr_in_route, adds_drawn, drawn, find_broker_addr_in_route, has_addr, listed_of,
};
use crate::message::{copy_texts, opt, or_empty, MessageExt, MessageQueue};
use crate::names::{blank, is_blank, DEFAULT_TOPIC};
use crate::publish::TopicPublishInfo;
use crate::protocol::ReplyMessageRequestHeader;
use crate::request_code;
use crate::response_code;
use crate::route::{all_queues, may_use, same_route, TopicRouteData};
use crate::subscription::{ConsumerData, HeartbeatData, SubscriptionData};
use crate::sysflag::is_compressed;
use crate::table::{ascending, Table};
use crate::text::{decimal, int_text, non_blank, pieces, same, split_addrs, texts};
use crate::wire::{build_reply_message_ext, given_bytes, inflated, is_reply_of, reply_compression};

verus! {

/// A consumer that brokers can turn to through its client instance.
pub trait RegisteredConsumer: Send + Sync {
    fn client_id(&self) -> String;

    fn consumer_group(&self) -> String;

    fn consume_type(&self) -> String;

    fn message_model(&self) -> String;

    fn consume_from_where(&self) -> String;

    fn is_unit_mode(&self) -> bool;

    /// The topics that it reads.
    fn subscription(&self) -> Vec<String>;

    fn subscriptions(&self) -> Vec<SubscriptionData>;

    fn adjust_thread_pool(&self) {
    }

    fn rebalance_immediately(&self) {
    }

    /// Begins to read again at the given offsets.
    fn reset_offset(&self, topic: String, offset_table: Vec<(MessageQueue, i64)>) -> Result<(), Error>;

    /// How far it has read, of one topic or of all.
    fn get_consumer_status(&self, topic: Option<&str>) -> Vec<(MessageQueue, i64)>;

    /// What it says of itself, as bytes.
    fn consumer_running_info(&self) -> Vec<u8>;

    /// Consumes one message at once; gives what it says of that, as bytes.
    fn consume_message_directly(&self, msg: MessageExt, broker_name: Option<String>) -> Result<Vec<u8>, Error>;

    /// Writes down how far it has read.
    fn persist_consumer_offset(&self) -> Result<(), Error>;
}

/// Sends traces of messages.
pub trait TraceDispatcher: Send + Sync {
    fn start(&self, name_server_addr: &str) -> Result<(), Error>;

    fn shutdown(&self);
}

/// Which instance stands for a client id. Instances are told apart by a number.
#[derive(Debug)]
pub struct InstanceRegistry {
    pub entries: Table<u64>,
}

impl InstanceRegistry {
    pub fn new() -> (r: InstanceRegistry)
        ensures
            r.entries@ == Map::<Seq<char>, u64>::empty(),
    {
        InstanceRegistry { entries: Table::new() }
    }

    /// Puts an instance down for its client id, in place of any other.
    pub fn register(&mut self, client_id: &str, number: u64)
        ensures
            final(self).entries@ == old(self).entries@.insert(client_id@, number),
    {
        self.entries.insert(client_id.to_owned(), number);
    }

    /// The instance of a client id.
    pub fn find_instance(&self, client_id: &str) -> (r: Option<u64>)
        ensures
            r == if self.entries@.dom().contains(client_id@) {
                Some(self.entries@[client_id@])
            } else {
                None
            },
    {
        match self.entries.get(client_id) {
            Some(n) => Some(*n),
            None => None,
        }
    }

    /// The instance of a client id; `fresh` becomes it where there is none.
    pub fn create_mq_client_instance(&mut self, client_id: &str, fresh: u64) -> (r: u64)
        ensures
            if old(self).entries@.dom().contains(client_id@) {
                r == old(self).entries@[client_id@] && final(self).entries@ == old(self).entries@
            } else {
                r == fresh && final(self).entries@ == old(self).entries@.insert(client_id@, fresh)
            },
    {
        match self.find_instance(client_id) {
            Some(n) => n,
            None => {
                self.register(client_id, fresh);
                fresh
            },
        }
    }

    /// Strikes an instance out, unless another has taken its client id since.
    pub fn remove_own(&mut self, client_id: &str, number: u64)
        ensures
            final(self).entries@ == struck(old(self).entries@, client_id@, number),
    {
        let own = match self.entries.get(client_id) {
            Some(n) => *n == number,
            None => false,
        };
        if own {
            let _ = self.entries.remove(client_id);
        }
    }
}

/// The registry without an instance, where that is the one for its client id.
pub open spec fn struck(entries: Map<Seq<char>, u64>, client_id: Seq<char>, number: u64) -> Map<Seq<char>, u64> {
    if entries.dom().contains(client_id) && entries[client_id] == number {
        entries.remove(client_id)
    } else {
        entries
    }
}

/// Striking an instance out leaves every other instance where it is.
pub proof fn law_strike_only_own(entries: Map<Seq<char>, u64>, client_id: Seq<char>, number: u64, other: Seq<char>)
    requires
        entries.dom().contains(other),
        other != client_id || entries[other] != number,
    ensures
        struck(entries, client_id, number).dom().contains(other),
        struck(entries, client_id, number)[other] == entries[other],
{
}

/// The work that a running instance does at intervals.
#[derive(Debug, Clone, Copy, PartialEq, Eq, Structural)]
pub enum TaskKind {
    NameServerRefresh,
    RouteRefresh,
    AdjustPool,
    Heartbeat,
    PersistOffset,
}

/// One piece of such work: when it begins, and how often it comes.
#[derive(Debug, Clone, Copy, PartialEq, Eq, Structural)]
pub struct TaskPlan {
    pub kind: TaskKind,
    pub initial_delay_millis: u64,
    pub period_millis: u64,
}

/// An answer to a broker.
#[derive(Debug)]
pub struct Answer {
    pub code: i32,
    pub remark: Option<String>,
    pub body: Option<Vec<u8>>,
}

/// `a` is a failure with that remark.
pub open spec fn is_refusal(a: Answer, remark: Seq<char>) -> bool {
    a.code == response_code::SYSTEM_ERROR && opt(a.remark) == Some(remark) && a.body is None
}

/// A failure as an answer.
pub fn refusal(remark: &str) -> (r: Answer)
    ensures
        is_refusal(r, remark@),
{
    Answer { code: response_code::SYSTEM_ERROR, remark: Some(remark.to_owned()), body: None }
}

/// A success as an answer.
pub fn agreed(body: Option<Vec<u8>>) -> (r: Answer)
    ensures
        r.code == response_code::SUCCESS,
        r.remark is None,
        r.body == body,
{
    Answer { code: response_code::SUCCESS, remark: None, body }
}

/// The requests of brokers that an instance answers.
#[derive(Debug, Clone, Copy, PartialEq, Eq, Structural)]
pub enum BrokerCall {
    ReplyMessage,
    ResetOffset,
    ConsumerIdsChanged,
    ConsumerStatus,
    ConsumerRunningInfo,
    ConsumeDirectly,
}

/// Which request of a broker a code stands for.
pub open spec fn call_of(code: i32) -> Option<BrokerCall> {
    if code == request_code::PUSH_REPLY_MESSAGE_TO_CLIENT {
        Some(BrokerCall::ReplyMessage)
    } else if code == request_code::RESET_CONSUMER_CLIENT_OFFSET {
        Some(BrokerCall::ResetOffset)
    } else if code == request_code::NOTIFY_CONSUMER_IDS_CHANGED {
        Some(BrokerCall::ConsumerIdsChanged)
    } else if code == request_code::GET_CONSUMER_STATUS_FROM_CLIENT {
        Some(BrokerCall::ConsumerStatus)
    } else if code == request_code::GET_CONSUMER_RUNNING_INFO {
        Some(BrokerCall::ConsumerRunningInfo)
    } else if code == request_code::CONSUME_MESSAGE_DIRECTLY {
        Some(BrokerCall::ConsumeDirectly)
    } else {
        None
    }
}

/// Which request of a broker a code stands for; any other is refused.
pub fn broker_call(code: i32) -> (r: Result<BrokerCall, Answer>)
    ensures
        match r {
            Ok(c) => call_of(code) == Some(c),
            Err(a) => call_of(code) is None && is_refusal(a, "unsupported request code "@ + decimal(code as int)),
        },
{
    if code == request_code::PUSH_REPLY_MESSAGE_TO_CLIENT {
        Ok(BrokerCall::ReplyMessage)
    } else if code == request_code::RESET_CONSUMER_CLIENT_OFFSET {
        Ok(BrokerCall::ResetOffset)
    } else if code == request_code::NOTIFY_CONSUMER_IDS_CHANGED {
        Ok(BrokerCall::ConsumerIdsChanged)
    } else if code == request_code::GET_CONSUMER_STATUS_FROM_CLIENT {
        Ok(BrokerCall::ConsumerStatus)
    } else if code == request_code::GET_CONSUMER_RUNNING_INFO {
        Ok(BrokerCall::ConsumerRunningInfo)
    } else if code == request_code::CONSUME_MESSAGE_DIRECTLY {
        Ok(BrokerCall::ConsumeDirectly)
    } else {
        Err(refusal("unsupported request code ".to_owned().concat(int_text(code as i64).as_str()).as_str()))
    }
}

/// Whether a request is answered: a broker only tells of a reset and of changed members.
pub fn is_answered(call: BrokerCall) -> (r: bool)
    ensures
        r == (call != BrokerCall::ResetOffset && call != BrokerCall::ConsumerIdsChanged),
{
    match call {
        BrokerCall::ResetOffset | BrokerCall::ConsumerIdsChanged => false,
        _ => true,
    }
}

/// The answer of an instance that is gone.
pub fn released() -> (r: Answer)
    ensures
        is_refusal(r, "client instance already released"@),
{
    refusal("client instance already released")
}

/// The answer is the failure of `inflate` on the bytes.
pub open spec fn cannot_inflate<F: Fn(&Vec<u8>, i32) -> Result<Vec<u8>, Error>>(
    a: Answer,
    inflate: F,
    bytes: Seq<u8>,
    kind: i32,
) -> bool {
    exists|e: Error|
        is_refusal(a, "process reply message fail: "@ + error_text(e)) && #[trigger] inflated(
            inflate,
            bytes,
            kind,
            Err(e),
        )
}

/// A broker pushes a reply. `decoded` is its header, or the failure to read it. The message is
/// for whoever waits for it.
pub fn process_reply_message<F: Fn(&Vec<u8>, i32) -> Result<Vec<u8>, Error>>(
    decoded: Result<ReplyMessageRequestHeader, Error>,
    body: Option<&[u8]>,
    inflate: F,
    now: i64,
) -> (r: (Answer, Option<MessageExt>))
    requires
        forall|b: Vec<u8>, k: i32| #[trigger] call_requires(inflate, (&b, k)),
    ensures
        match r.1 {
            Some(m) => {
                &&& r.0.code == response_code::SUCCESS && r.0.remark is None && r.0.body is None
                &&& decoded matches Ok(h) && is_reply_of(h, given_bytes(body), inflate, now, m)
            },
            None => match decoded {
                Err(e) => is_refusal(r.0, "process reply message fail: "@ + error_text(e)),
                Ok(h) => reply_compression(h) is Some && cannot_inflate(
                    r.0,
                    inflate,
                    given_bytes(body),
                    reply_compression(h)->0,
                ),
            },
        },
{
    let header = match decoded {
        Ok(h) => h,
        Err(e) => {
            return (
                refusal("process reply message fail: ".to_owned().concat(e.text().as_str()).as_str()),
                None,
            );
        },
    };
    match build_reply_message_ext(&header, body, inflate, now) {
        Ok(m) => (agreed(None), Some(m)),
        Err(e) => (
            refusal("process reply message fail: ".to_owned().concat(e.text().as_str()).as_str()),
            None,
        ),
    }
}

/// One client id's view of the cluster.
pub struct MQClientInstance<C> {
    pub client_id: String,
    pub name_server_addrs: Vec<String>,
    pub topic_route_table: Table<TopicRouteData>,
    pub topic_publish_info_table: Table<TopicPublishInfo>,
    pub topics_in_use: Table<()>,
    pub started: bool,
    pub consumer_table: Table<C>,
    pub producer_table: Table<()>,
    pub consumer_group_table: Table<()>,
    pub config: MQClientInstanceConfig,
    pub consumer_ids_changed_count: usize,
    /// The work that it does at intervals, while it runs.
    pub tasks: Vec<TaskPlan>,
}

/// Nobody is registered.
pub open spec fn unused<C>(i: MQClientInstance<C>) -> bool {
    &&& i.consumer_table@.dom() == Set::<Seq<char>>::empty()
    &&& i.producer_table@.dom() == Set::<Seq<char>>::empty()
    &&& i.consumer_group_table@.dom() == Set::<Seq<char>>::empty()
}

/// The work that an instance is to do. Name servers are asked for again only where they came
/// from an address server.
pub open spec fn planned(config: MQClientInstanceConfig, dynamic: bool) -> Seq<TaskPlan> {
    (if dynamic {
        seq![
            TaskPlan {
                kind: TaskKind::NameServerRefresh,
                initial_delay_millis: config.namesrv_refresh_initial_delay_millis,
                period_millis: config.namesrv_refresh_interval_millis,
            },
        ]
    } else {
        Seq::empty()
    }) + seq![
        TaskPlan {
            kind: TaskKind::RouteRefresh,
            initial_delay_millis: 10,
            period_millis: config.route_refresh_interval_millis,
        },
        TaskPlan {
            kind: TaskKind::AdjustPool,
            initial_delay_millis: config.adjust_pool_initial_delay_millis,
            period_millis: config.adjust_pool_interval_millis,
        },
        TaskPlan {
            kind: TaskKind::Heartbeat,
            initial_delay_millis: config.heartbeat_initial_delay_millis,
            period_millis: config.heartbeat_interval_millis,
        },
        TaskPlan {
            kind: TaskKind::PersistOffset,
            initial_delay_millis: config.persist_offset_initial_delay_millis,
            period_millis: config.persist_offset_interval_millis,
        },
    ]
}

/// The name servers are to be asked for at an address server.
pub open spec fn asks_address_server<C>(i: MQClientInstance<C>, ws_addr: Seq<char>) -> bool {
    i.name_server_addrs@.len() == 0 && ws_addr.len() > 0
}

/// A start was called for; `first` where it is the one that starts the instance.
pub open spec fn start_begun<C>(before: MQClientInstance<C>, after: MQClientInstance<C>, first: bool) -> bool {
    &&& first == !before.started
    &&& after == (MQClientInstance { started: true, ..before })
}

/// The instance was stopped: nothing of its work is left, and it is struck out of the registry.
pub open spec fn taken_down<C>(
    before: MQClientInstance<C>,
    after: MQClientInstance<C>,
    entries: Map<Seq<char>, u64>,
    entries_after: Map<Seq<char>, u64>,
    number: u64,
) -> bool {
    &&& after.tasks@.len() == 0
    &&& after == (MQClientInstance { started: false, tasks: after.tasks, ..before })
    &&& entries_after == struck(entries, before.client_id@, number)
}

/// There is no name server though an address server was asked.
pub open spec fn is_no_address(e: Error, ws_addr: Seq<char>) -> bool {
    is_client(
        e,
        Some(client_error_code::NO_NAME_SERVER_EXCEPTION),
        "name server address is not set and address server ("@ + ws_addr + ") returned none"@,
    )
}

/// The end of a start that was begun, once `outcome` says whether its parts came up and, where
/// `dynamic`, the address server was asked. A start that failed has taken the instance down.
pub open spec fn start_concluded<C>(
    before: MQClientInstance<C>,
    after: MQClientInstance<C>,
    entries: Map<Seq<char>, u64>,
    entries_after: Map<Seq<char>, u64>,
    number: u64,
    ws_addr: Seq<char>,
    dynamic: bool,
    outcome: Result<(), Error>,
    r: Result<Vec<TaskPlan>, Error>,
) -> bool {
    match r {
        Ok(tasks) => {
            &&& outcome is Ok
            &&& dynamic ==> before.name_server_addrs@.len() > 0
            &&& tasks@ == planned(before.config, dynamic)
            &&& after.tasks@ == tasks@
            &&& after == (MQClientInstance { tasks: after.tasks, ..before })
            &&& entries_after == entries
        },
        Err(e) => {
            &&& match outcome {
                Err(f) => e == f,
                Ok(_) => dynamic && before.name_server_addrs@.len() == 0 && is_no_address(e, ws_addr),
            }
            &&& taken_down(before, after, entries, entries_after, number)
        },
    }
}

/// A second call of start changes nothing: the instance is as it was, with the work that it
/// had, and nothing more is begun.
pub proof fn law_second_start_changes_nothing<C>(before: MQClientInstance<C>, after: MQClientInstance<C>, first: bool)
    requires
        before.started,
        start_begun(before, after, first),
    ensures
        !first,
        after == before,
{
}

/// An instance that could not start is not started, has no work left, and is not what its
/// client id stands for. One that asked an address server and has no name server could not
/// start.
pub proof fn law_failed_start_leaves_nothing<C>(
    before: MQClientInstance<C>,
    begun: MQClientInstance<C>,
    asked: MQClientInstance<C>,
    after: MQClientInstance<C>,
    entries: Map<Seq<char>, u64>,
    entries_after: Map<Seq<char>, u64>,
    number: u64,
    ws_addr: Seq<char>,
    outcome: Result<(), Error>,
    r: Result<Vec<TaskPlan>, Error>,
)
    requires
        start_begun(before, begun, true),
        asked == (MQClientInstance { name_server_addrs: asked.name_server_addrs, ..begun }),
        start_concluded(
            asked,
            after,
            entries,
            entries_after,
            number,
            ws_addr,
            asks_address_server(before, ws_addr),
            outcome,
            r,
        ),
    ensures
        asks_address_server(before, ws_addr) && asked.name_server_addrs@.len() == 0 ==> r is Err,
        r is Err ==> {
            &&& !after.started
            &&& after.tasks@.len() == 0
            &&& !(entries_after.dom().contains(before.client_id@) && entries_after[before.client_id@] == number)
        },
        r is Ok ==> after.started && after.tasks@.len() >= 4,
{
}

/// After a real stop an instance can be started again, and does the same work again. `running`
/// is the instance when it is stopped: whoever used it may have come and gone, and its name
/// servers may have changed, but not to none. (An instance whose name servers came from an
/// address server is left out: it has them now, and need not ask again.)
pub proof fn law_restart_brings_the_same_work<C>(
    before: MQClientInstance<C>,
    begun: MQClientInstance<C>,
    started: MQClientInstance<C>,
    running: MQClientInstance<C>,
    stopped: MQClientInstance<C>,
    again: MQClientInstance<C>,
    restarted: MQClientInstance<C>,
    entries: Seq<Map<Seq<char>, u64>>,
    number: u64,
    ws_addr: Seq<char>,
    first: bool,
    r: Result<Vec<TaskPlan>, Error>,
    s: Result<Vec<TaskPlan>, Error>,
)
    requires
        entries.len() == 6,
        !asks_address_server(before, ws_addr),
        start_begun(before, begun, true),
        start_concluded(
            begun,
            started,
            entries[0],
            entries[1],
            number,
            ws_addr,
            asks_address_server(before, ws_addr),
            Ok(()),
            r,
        ),
        running.config == started.config,
        started.name_server_addrs@.len() > 0 ==> running.name_server_addrs@.len() > 0,
        taken_down(running, stopped, entries[2], entries[3], number),
        start_begun(stopped, again, first),
        start_concluded(
            again,
            restarted,
            entries[4],
            entries[5],
            number,
            ws_addr,
            asks_address_server(stopped, ws_addr),
            Ok(()),
            s,
        ),
    ensures
        r is Ok,
        !stopped.started && stopped.tasks@.len() == 0,
        first,
        s is Ok && (s->Ok_0)@ == (r->Ok_0)@,
        restarted.started && restarted.tasks@ == started.tasks@,
{
}

/// The first of the routes, from place `from` on, that knows the broker; -1 where none does.
pub open spec fn knowing_route(routes: Seq<TopicRouteData>, broker: Seq<char>, from: int) -> int
    decreases routes.len() - from,
{
    if from < 0 || from >= routes.len() {
        -1
    } else if has_addr(routes[from], broker) {
        from
    } else {
        knowing_route(routes, broker, from + 1)
    }
}

/// With the addresses of one more route there is still one for each broker.
proof fn lemma_one_more(
    routes: Seq<TopicRouteData>,
    picks: Seq<Seq<usize>>,
    before: Set<Seq<char>>,
    route: TopicRouteData,
    own: Seq<usize>,
    after: Set<Seq<char>>,
)
    requires
        one_of_each(routes, picks, before),
        adds_drawn(before, after, route.broker_datas@, own),
    ensures
        one_of_each(routes.push(route), picks.push(own), after),
{
    let next = routes.push(route);
    let more = picks.push(own);
    assert forall|k: int| 0 <= k < next.len() implies (#[trigger] more[k]).len() == next[k].broker_datas@.len() by {
        if k < routes.len() {
            assert(more[k] == picks[k]);
        }
    }
    assert forall|a: Seq<char>| #[trigger] after.contains(a) <==> drawn_from(next, more, a) by {
        assert(before.contains(a) <==> drawn_from(routes, picks, a));
        if drawn_from(routes, picks, a) {
            let k = choose|k: int| 0 <= k < routes.len() && #[trigger] drawn(routes[k].broker_datas@, picks[k], a);
            assert(drawn(next[k].broker_datas@, more[k], a));
        }
        if drawn(route.broker_datas@, own, a) {
            let k = routes.len() as int;
            assert(drawn(next[k].broker_datas@, more[k], a));
        }
        if drawn_from(next, more, a) {
            let k = choose|k: int| 0 <= k < next.len() && #[trigger] drawn(next[k].broker_datas@, more[k], a);
            if k < routes.len() {
                assert(drawn(routes[k].broker_datas@, picks[k], a));
            }
        }
    }
}

/// One of the addresses that `picks` fall on, one for each broker of each route.
pub open spec fn drawn_from(routes: Seq<TopicRouteData>, picks: Seq<Seq<usize>>, a: Seq<char>) -> bool {
    exists|k: int| 0 <= k < routes.len() && #[trigger] drawn(routes[k].broker_datas@, picks[k], a)
}

/// The addresses are those that `picks` fall on, one for each broker of each route.
pub open spec fn one_of_each(routes: Seq<TopicRouteData>, picks: Seq<Seq<usize>>, addrs: Set<Seq<char>>) -> bool {
    &&& picks.len() == routes.len()
    &&& forall|k: int| 0 <= k < routes.len() ==> (#[trigger] picks[k]).len() == routes[k].broker_datas@.len()
    &&& forall|a: Seq<char>| #[trigger] addrs.contains(a) <==> drawn_from(routes, picks, a)
}

impl<C> MQClientInstance<C> {
    /// An instance that knows nothing yet but its name servers.
    pub fn with_config(client_id: &str, name_server_addrs: Vec<String>, config: MQClientInstanceConfig) -> (r:
        MQClientInstance<C>)
        ensures
            r.client_id@ == client_id@,
            r.name_server_addrs == name_server_addrs,
            r.config == config,
            !r.started,
            unused(r),
            r.topic_route_table@ == Map::<Seq<char>, TopicRouteData>::empty(),
            r.topic_publish_info_table@ == Map::<Seq<char>, TopicPublishInfo>::empty(),
            r.topics_in_use@ == Map::<Seq<char>, ()>::empty(),
            r.consumer_ids_changed_count == 0,
            r.tasks@.len() == 0,
    {
        let r = MQClientInstance {
            client_id: client_id.to_owned(),
            name_server_addrs,
            topic_route_table: Table::new(),
            topic_publish_info_table: Table::new(),
            topics_in_use: Table::new(),
            started: false,
            consumer_table: Table::new(),
            producer_table: Table::new(),
            consumer_group_table: Table::new(),
            config,
            consumer_ids_changed_count: 0,
            tasks: Vec::new(),
        };
        assert(r.consumer_table@.dom() =~= Set::<Seq<char>>::empty());
        assert(r.producer_table@.dom() =~= Set::<Seq<char>>::empty());
        assert(r.consumer_group_table@.dom() =~= Set::<Seq<char>>::empty());
        r
    }

    /// An instance with the default configuration.
    pub fn new(client_id: &str, name_server_addrs: Vec<String>) -> (r: MQClientInstance<C>)
        ensures
            r.client_id@ == client_id@,
            r.name_server_addrs == name_server_addrs,
            call_ensures(MQClientInstanceConfig::default, (), r.config),
            !r.started,
            unused(r),
            r.topic_route_table@ == Map::<Seq<char>, TopicRouteData>::empty(),
            r.topic_publish_info_table@ == Map::<Seq<char>, TopicPublishInfo>::empty(),
            r.topics_in_use@ == Map::<Seq<char>, ()>::empty(),
            r.consumer_ids_changed_count == 0,
            r.tasks@.len() == 0,
    {
        MQClientInstance::with_config(client_id, name_server_addrs, MQClientInstanceConfig::default())
    }

    pub fn client_id(&self) -> (r: &str)
        ensures
            r@ == self.client_id@,
    {
        self.client_id.as_str()
    }

    pub fn name_server_addrs(&self) -> (r: Vec<String>)
        ensures
            r@ == self.name_server_addrs@,
    {
        copy_texts(&self.name_server_addrs)
    }

    pub fn config(&self) -> (r: &MQClientInstanceConfig)
        ensures
            *r == self.config,
    {
        &self.config
    }

    pub fn is_started(&self) -> (r: bool)
        ensures
            r == self.started,
    {
        self.started
    }

    pub fn consumer_ids_changed_count(&self) -> (r: usize)
        ensures
            r == self.consumer_ids_changed_count,
    {
        self.consumer_ids_changed_count
    }

    /// Registers a consumer for its group, in place of any other.
    pub fn register_consumer(&mut self, group: &str, consumer: C)
        ensures
            final(self).consumer_table@ == old(self).consumer_table@.insert(group@, consumer),
            *final(self) == (MQClientInstance {
                consumer_table: final(self).consumer_table,
                ..*old(self)
            }),
    {
        self.consumer_table.insert(group.to_owned(), consumer);
    }

    pub fn unregister_consumer(&mut self, group: &str)
        ensures
            final(self).consumer_table@ == old(self).consumer_table@.remove(group@),
            *final(self) == (MQClientInstance {
                consumer_table: final(self).consumer_table,
                ..*old(self)
            }),
    {
        let _ = self.consumer_table.remove(group);
    }

    pub fn find_consumer(&self, group: &str) -> (r: Option<&C>)
        ensures
            match r {
                Some(c) => self.consumer_table@.dom().contains(group@) && *c == self.consumer_table@[group@],
                None => !self.consumer_table@.dom().contains(group@),
            },
    {
        self.consumer_table.get(group)
    }

    pub fn register_producer(&mut self, group: &str)
        ensures
            final(self).producer_table@ == old(self).producer_table@.insert(group@, ()),
            *final(self) == (MQClientInstance {
                producer_table: final(self).producer_table,
                ..*old(self)
            }),
    {
        self.producer_table.insert(group.to_owned(), ());
    }

    pub fn unregister_producer(&mut self, group: &str)
        ensures
            final(self).producer_table@ == old(self).producer_table@.remove(group@),
            *final(self) == (MQClientInstance {
                producer_table: final(self).producer_table,
                ..*old(self)
            }),
    {
        let _ = self.producer_table.remove(group);
    }

    pub fn has_producer(&self, group: &str) -> (r: bool)
        ensures
            r == self.producer_table@.dom().contains(group@),
    {
        self.producer_table.contains(group)
    }

    /// Registers the group of a consumer that brokers do not turn to.
    pub fn register_consumer_group(&mut self, group: &str)
        ensures
            final(self).consumer_group_table@ == old(self).consumer_group_table@.insert(group@, ()),
            *final(self) == (MQClientInstance {
                consumer_group_table: final(self).consumer_group_table,
                ..*old(self)
            }),
    {
        self.consumer_group_table.insert(group.to_owned(), ());
    }

    pub fn unregister_consumer_group(&mut self, group: &str)
        ensures
            final(self).consumer_group_table@ == old(self).consumer_group_table@.remove(group@),
            *final(self) == (MQClientInstance {
                consumer_group_table: final(self).consumer_group_table,
                ..*old(self)
            }),
    {
        let _ = self.consumer_group_table.remove(group);
    }

    pub fn has_consumer_group(&self, group: &str) -> (r: bool)
        ensures
            r == self.consumer_group_table@.dom().contains(group@),
    {
        self.consumer_group_table.contains(group)
    }

    /// How many are registered, in all three tables; as many as can be counted.
    pub fn tenant_count(&self) -> (r: usize)
        ensures
            ({
                let n = self.consumer_table.order().len() + self.producer_table.order().len()
                    + self.consumer_group_table.order().len();
                r == if n > usize::MAX {
                    usize::MAX as nat
                } else {
                    n
                }
            }),
            r == 0 <==> unused(*self),
    {
        let a = self.consumer_table.len();
        let b = self.producer_table.len();
        let c = self.consumer_group_table.len();
        let no_consumer = self.consumer_table.is_empty();
        let no_producer = self.producer_table.is_empty();
        let no_group = self.consumer_group_table.is_empty();
        if a > usize::MAX - b {
            return usize::MAX;
        }
        let ab: usize = a + b;
        if c > usize::MAX - ab {
            return usize::MAX;
        }
        ab + c
    }

    /// Whether this call is the one that starts the instance.
    pub fn begin_start(&mut self) -> (r: bool)
        ensures
            start_begun(*old(self), *final(self), r),
    {
        let first = !self.started;
        self.started = true;
        first
    }

    /// Whether the name servers are to be asked for at an address server.
    pub fn is_dynamic(&self, ws_addr: &str) -> (r: bool)
        ensures
            r == asks_address_server(*self, ws_addr@),
    {
        self.name_server_addrs.len() == 0 && !ws_addr.is_empty()
    }

    /// After the address server was asked: without a name server the start has failed.
    pub fn check_fetched(&self, ws_addr: &str) -> (r: Result<(), Error>)
        ensures
            if self.name_server_addrs@.len() > 0 {
                r is Ok
            } else {
                r matches Err(e) && is_no_address(e, ws_addr@)
            },
    {
        if self.name_server_addrs.len() > 0 {
            return Ok(());
        }
        Err(
            Error::client_with_code(
                client_error_code::NO_NAME_SERVER_EXCEPTION,
                "name server address is not set and address server (".to_owned().concat(ws_addr).concat(
                    ") returned none",
                ).as_str(),
            ),
        )
    }

    /// The work that a running instance does. Name servers are asked for again only where
    /// they came from an address server.
    pub fn background_tasks(&self, dynamic: bool) -> (r: Vec<TaskPlan>)
        ensures
            r@ == planned(self.config, dynamic),
    {
        let mut out: Vec<TaskPlan> = Vec::new();
        if dynamic {
            out.push(
                TaskPlan {
                    kind: TaskKind::NameServerRefresh,
                    initial_delay_millis: self.config.namesrv_refresh_initial_delay_millis,
                    period_millis: self.config.namesrv_refresh_interval_millis,
                },
            );
        }
        out.push(
            TaskPlan {
                kind: TaskKind::RouteRefresh,
                initial_delay_millis: 10,
                period_millis: self.config.route_refresh_interval_millis,
            },
        );
        out.push(
            TaskPlan {
                kind: TaskKind::AdjustPool,
                initial_delay_millis: self.config.adjust_pool_initial_delay_millis,
                period_millis: self.config.adjust_pool_interval_millis,
            },
        );
        out.push(
            TaskPlan {
                kind: TaskKind::Heartbeat,
                initial_delay_millis: self.config.heartbeat_initial_delay_millis,
                period_millis: self.config.heartbeat_interval_millis,
            },
        );
        out.push(
            TaskPlan {
                kind: TaskKind::PersistOffset,
                initial_delay_millis: self.config.persist_offset_initial_delay_millis,
                period_millis: self.config.persist_offset_interval_millis,
            },
        );
        out
    }

    /// Ends a start that was begun: `outcome` says whether the parts of the instance came up,
    /// and, where it is `dynamic`, the address server was asked. Gives the work that the
    /// instance does from now on. One that could not start is taken down.
    pub fn conclude_start(
        &mut self,
        registry: &mut InstanceRegistry,
        number: u64,
        ws_addr: &str,
        dynamic: bool,
        outcome: Result<(), Error>,
    ) -> (r: Result<Vec<TaskPlan>, Error>)
        ensures
            start_concluded(
                *old(self),
                *final(self),
                old(registry).entries@,
                final(registry).entries@,
                number,
                ws_addr@,
                dynamic,
                outcome,
                r,
            ),
    {
        let checked = match outcome {
            Ok(_) => if dynamic {
                self.check_fetched(ws_addr)
            } else {
                Ok(())
            },
            Err(e) => Err(e),
        };
        match checked {
            Ok(_) => {
                let tasks = self.background_tasks(dynamic);
                self.tasks = self.background_tasks(dynamic);
                Ok(tasks)
            },
            Err(e) => {
                self.shutdown_factory(registry, number);
                Err(e)
            },
        }
    }

    /// Stops the instance, unless somebody still works through it. Gives whether it stopped.
    pub fn shutdown(&mut self, registry: &mut InstanceRegistry, number: u64) -> (r: bool)
        ensures
            r == unused(*old(self)),
            if r {
                taken_down(*old(self), *final(self), old(registry).entries@, final(registry).entries@, number)
            } else {
                *final(self) == *old(self) && final(registry).entries@ == old(registry).entries@
            },
    {
        if self.tenant_count() > 0 {
            return false;
        }
        self.shutdown_factory(registry, number);
        true
    }

    /// Stops the instance; also what becomes of one that could not start.
    pub fn shutdown_factory(&mut self, registry: &mut InstanceRegistry, number: u64)
        ensures
            taken_down(*old(self), *final(self), old(registry).entries@, final(registry).entries@, number),
    {
        self.started = false;
        self.tasks = Vec::new();
        registry.remove_own(self.client_id.as_str(), number);
    }

    /// Strikes the instance out of the registry ahead of its end, where nobody works through
    /// it any more.
    pub fn detach_from_registry_if_last_tenant(&self, registry: &mut InstanceRegistry, number: u64)
        ensures
            final(registry).entries@ == if unused(*self) {
                struck(old(registry).entries@, self.client_id@, number)
            } else {
                old(registry).entries@
            },
    {
        if self.tenant_count() == 0 {
            registry.remove_own(self.client_id.as_str(), number);
        }
    }

    /// Takes over name servers; an empty list changes nothing.
    pub fn update_name_server_address_list(&mut self, addrs: &Vec<String>)
        ensures
            final(self).name_server_addrs@ == if addrs@.len() == 0 {
                old(self).name_server_addrs@
            } else {
                addrs@
            },
            *final(self) == (MQClientInstance {
                name_server_addrs: final(self).name_server_addrs,
                ..*old(self)
            }),
    {
        if addrs.len() > 0 {
            self.name_server_addrs = copy_texts(addrs);
        }
    }

    /// Takes over the name servers of an address server's text.
    pub fn apply_namesrv_change(&mut self, text: &str)
        ensures
            texts(final(self).name_server_addrs@) == if non_blank(pieces(text@, ";"@)).len() == 0 {
                texts(old(self).name_server_addrs@)
            } else {
                non_blank(pieces(text@, ";"@))
            },
            *final(self) == (MQClientInstance {
                name_server_addrs: final(self).name_server_addrs,
                ..*old(self)
            }),
    {
        let addrs = split_addrs(text);
        assert(texts(addrs@).len() == addrs@.len());
        self.update_name_server_address_list(&addrs);
    }

    /// Has the route of a topic looked after.
    pub fn register_topic_in_use(&mut self, topic: &str)
        ensures
            final(self).topics_in_use@ == if topic@.len() == 0 {
                old(self).topics_in_use@
            } else {
                old(self).topics_in_use@.insert(topic@, ())
            },
            *final(self) == (MQClientInstance {
                topics_in_use: final(self).topics_in_use,
                ..*old(self)
            }),
    {
        if !topic.is_empty() {
            self.topics_in_use.insert(topic.to_owned(), ());
        }
    }

    /// The name servers to ask for a route; without any the question fails at once.
    pub fn name_servers_for_route(&self) -> (r: Result<Vec<String>, Error>)
        ensures
            if self.name_server_addrs@.len() > 0 {
                r matches Ok(v) && v@ == self.name_server_addrs@
            } else {
                r matches Err(e) && is_client(
                    e,
                    Some(client_error_code::NO_NAME_SERVER_EXCEPTION),
                    "name server address list is empty"@,
                )
            },
    {
        if self.name_server_addrs.len() == 0 {
            return Err(
                Error::client_with_code(
                    client_error_code::NO_NAME_SERVER_EXCEPTION,
                    "name server address list is empty",
                ),
            );
        }
        Ok(copy_texts(&self.name_server_addrs))
    }

    /// Takes over the route of a topic, and the queues that it gives.
    pub fn store_route(&mut self, topic: &str, route: TopicRouteData)
        ensures
            final(self).topic_route_table@ == old(self).topic_route_table@.insert(topic@, route),
            final(self).topic_publish_info_table@.dom() == old(self).topic_publish_info_table@.dom().insert(
                topic@,
            ),
            forall|t: Seq<char>|
                t != topic@ && old(self).topic_publish_info_table@.dom().contains(t)
                    ==> #[trigger] final(self).topic_publish_info_table@[t]
                    == old(self).topic_publish_info_table@[t],
            ({
                let info = final(self).topic_publish_info_table@[topic@];
                let known = old(self).topic_publish_info_table@.dom().contains(topic@);
                &&& info.ordered() == (route.order_topic_conf is Some)
                &&& info.route() is Some && same_route(info.route()->0, route)
                &&& crate::message::queues(info.list()) == all_queues(topic@, route.queue_datas@)
                &&& info.cursor() == if known {
                    old(self).topic_publish_info_table@[topic@].cursor()
                } else {
                    0
                }
            }),
            *final(self) == (MQClientInstance {
                topic_route_table: final(self).topic_route_table,
                topic_publish_info_table: final(self).topic_publish_info_table,
                ..*old(self)
            }),
    {
        let mut info = match self.topic_publish_info_table.remove(topic) {
            Some(i) => i,
            None => TopicPublishInfo::new(),
        };
        info.update_from_route(&route, topic);
        self.topic_publish_info_table.insert(topic.to_owned(), info);
        self.topic_route_table.insert(topic.to_owned(), route);
        assert(self.topic_publish_info_table@.dom() =~= old(self).topic_publish_info_table@.dom().insert(topic@));
    }

    /// The route of a topic, where it is known.
    pub fn route_of(&self, topic: &str) -> (r: Option<&TopicRouteData>)
        ensures
            match r {
                Some(rt) => self.topic_route_table@.dom().contains(topic@) && *rt
                    == self.topic_route_table@[topic@],
                None => !self.topic_route_table@.dom().contains(topic@),
            },
    {
        self.topic_route_table.get(topic)
    }

    /// Where messages of a topic can go, as far as there is a queue.
    pub fn publish_info_of(&self, topic: &str) -> (r: Option<&TopicPublishInfo>)
        ensures
            match r {
                Some(i) => self.topic_publish_info_table@.dom().contains(topic@) && *i
                    == self.topic_publish_info_table@[topic@] && i.list().len() > 0,
                None => self.topic_publish_info_table@.dom().contains(topic@)
                    ==> self.topic_publish_info_table@[topic@].list().len() == 0,
            },
    {
        match self.topic_publish_info_table.get(topic) {
            Some(i) if i.ok() => Some(i),
            _ => None,
        }
    }

    /// Where messages of a topic can go, once its route was asked for.
    pub fn get_topic_publish_info(&self, topic: &str) -> (r: Result<&TopicPublishInfo, Error>)
        ensures
            match r {
                Ok(i) => self.topic_publish_info_table@.dom().contains(topic@) && *i
                    == self.topic_publish_info_table@[topic@] && i.list().len() > 0,
                Err(e) => {
                    &&& self.topic_publish_info_table@.dom().contains(topic@)
                        ==> self.topic_publish_info_table@[topic@].list().len() == 0
                    &&& is_client(e, None, "Can not find Message Queue for topic: "@ + topic@)
                },
            },
    {
        match self.publish_info_of(topic) {
            Some(i) => Ok(i),
            None => Err(
                Error::client(
                    "Can not find Message Queue for topic: ".to_owned().concat(topic).as_str(),
                ),
            ),
        }
    }

    /// The address of a broker in the first route, by topic, that knows one.
    pub fn broker_addr_of(&self, broker_name: &str) -> (r: Option<String>)
        ensures
            ({
                let routes = self.topic_route_table.values();
                let i = knowing_route(routes, broker_name@, 0);
                match r {
                    Some(a) => i >= 0 && addr_in_route(routes[i], broker_name@, a@),
                    None => i < 0,
                }
            }),
    {
        let n = self.topic_route_table.len();
        let mut i: usize = 0;
        while i < n
            invariant
                i <= n == self.topic_route_table.order().len(),
                self.topic_route_table.listed(),
                knowing_route(self.topic_route_table.values(), broker_name@, 0) == knowing_route(
                    self.topic_route_table.values(),
                    broker_name@,
                    i as int,
                ),
            decreases n - i,
        {
            let got = find_broker_addr_in_route(self.topic_route_table.value_at(i), broker_name);
            if got.is_some() {
                return got;
            }
            i = i + 1;
        }
        None
    }

    /// The address to use of every broker that is known, each once, in order.
    pub fn get_route_of_all_brokers(&self) -> (r: Vec<String>)
        ensures
            ascending(texts(r@)),
            exists|picks: Seq<Seq<usize>>| #[trigger]
                one_of_each(self.topic_route_table.values(), picks, texts(r@).to_set()),
    {
        let n = self.topic_route_table.len();
        let mut set: Table<()> = Table::new();
        let mut i: usize = 0;
        let ghost vals = self.topic_route_table.values();
        let ghost mut picks: Seq<Seq<usize>> = Seq::empty();
        assert(one_of_each(vals.subrange(0, 0), picks, set@.dom()));
        while i < n
            invariant
                i <= n == self.topic_route_table.order().len(),
                self.topic_route_table.listed(),
                vals == self.topic_route_table.values(),
                vals.len() == n,
                one_of_each(vals.subrange(0, i as int), picks, set@.dom()),
            decreases n - i,
        {
            let ghost before = set@.dom();
            let route = self.topic_route_table.value_at(i);
            add_preferred(&mut set, route);
            proof {
                let own = choose|own: Seq<usize>| #[trigger]
                    adds_drawn(before, set@.dom(), vals[i as int].broker_datas@, own);
                lemma_one_more(vals.subrange(0, i as int), picks, before, vals[i as int], own, set@.dom());
                assert(vals.subrange(0, i as int).push(vals[i as int]) =~= vals.subrange(0, i + 1));
                picks = picks.push(own);
            }
            i = i + 1;
        }
        let out = set.keys();
        proof {
            assert(vals.subrange(0, i as int) =~= vals);
            assert(texts(out@).to_set() =~= set@.dom());
        }
        out
    }

    /// Every address of every broker that is known, each once, in order, without empty ones.
    pub fn get_all_broker_addrs(&self) -> (r: Vec<String>)
        ensures
            ascending(texts(r@)),
            forall|a: Seq<char>| #[trigger]
                texts(r@).contains(a) <==> exists|i: int|
                    0 <= i < self.topic_route_table.values().len() && listed_of(
                        (#[trigger] self.topic_route_table.values()[i]).broker_datas@,
                        a,
                    ),
    {
        let n = self.topic_route_table.len();
        let mut set: Table<()> = Table::new();
        let mut i: usize = 0;
        while i < n
            invariant
                i <= n == self.topic_route_table.order().len(),
                self.topic_route_table.listed(),
                forall|a: Seq<char>| #[trigger]
                    set@.dom().contains(a) <==> exists|k: int|
                        0 <= k < i && listed_of(
                            (#[trigger] self.topic_route_table.values()[k]).broker_datas@,
                            a,
                        ),
            decreases n - i,
        {
            let ghost before = set@;
            let route = self.topic_route_table.value_at(i);
            add_listed(&mut set, route);
            proof {
                let vals = self.topic_route_table.values();
                assert forall|a: Seq<char>| #[trigger] set@.dom().contains(a) <==> exists|k: int|
                    0 <= k < i + 1 && listed_of((#[trigger] vals[k]).broker_datas@, a) by {
                    assert(before.dom().contains(a) <==> exists|k: int|
                        0 <= k < i && listed_of((#[trigger] vals[k]).broker_datas@, a));
                    if listed_of(vals[i as int].broker_datas@, a) {
                        assert(set@.dom().contains(a));
                    }
                }
            }
            i = i + 1;
        }
        set.keys()
    }

    /// The address to use of the `pick`-th broker in the known route of a topic.
    pub fn find_broker_addr_by_topic(&self, topic: &str, pick: usize) -> (r: Option<String>)
        ensures
            may_ask(*self, topic@, pick, opt(r)),
    {
        match self.route_of(topic) {
            Some(rt) => if pick < rt.broker_datas.len() {
                rt.broker_datas[pick].select_broker_addr()
            } else {
                None
            },
            None => None,
        }
    }
}

/// `a` is an address to use of the `pick`-th broker in the known route of a topic; `None` where
/// there is no such broker, or it has no address.
pub open spec fn may_ask<C>(i: MQClientInstance<C>, topic: Seq<char>, pick: usize, a: Option<Seq<char>>) -> bool {
    let brokers = i.topic_route_table@[topic].broker_datas@;
    let known = i.topic_route_table@.dom().contains(topic) && pick < brokers.len();
    match a {
        Some(t) => known && may_use(brokers[pick as int].broker_addrs@, t),
        None => !known || brokers[pick as int].broker_addrs@.len() == 0,
    }
}

/// The remark of a refusal for an unknown group.
pub open spec fn no_consumer(group: Seq<char>) -> Seq<char> {
    "no consumer for group="@ + group
}

/// The group that a header names; the empty group where it names none.
pub open spec fn group_of(group: Option<String>) -> Seq<char> {
    match group {
        Some(g) => g@,
        None => Seq::empty(),
    }
}

impl<C: RegisteredConsumer> MQClientInstance<C> {
    /// Every consumer here was told to look at its queues again.
    pub open spec fn all_woken(&self) -> bool {
        forall|group: Seq<char>| #[trigger]
            self.consumer_table@.dom().contains(group) ==> call_ensures(
                C::rebalance_immediately,
                (&self.consumer_table@[group],),
                (),
            )
    }

    /// Tells every consumer here to look at its queues again.
    pub fn rebalance_immediately(&self)
        ensures
            self.all_woken(),
    {
        let n = self.consumer_table.len();
        let mut i: usize = 0;
        while i < n
            invariant
                i <= n == self.consumer_table.order().len(),
                self.consumer_table.listed(),
                forall|k: int|
                    0 <= k < i ==> call_ensures(
                        C::rebalance_immediately,
                        (&self.consumer_table@[#[trigger] self.consumer_table.order()[k]],),
                        (),
                    ),
            decreases n - i,
        {
            self.consumer_table.value_at(i).rebalance_immediately();
            i = i + 1;
        }
        assert forall|group: Seq<char>| #[trigger] self.consumer_table@.dom().contains(group) implies call_ensures(
            C::rebalance_immediately,
            (&self.consumer_table@[group],),
            (),
        ) by {
            let k = choose|k: int| 0 <= k < n && #[trigger] self.consumer_table.order()[k] == group;
            assert(self.consumer_table.order().contains(group));
        }
    }

    /// Tells every consumer here to look at its threads.
    pub fn adjust_thread_pool(&self)
        ensures
            forall|group: Seq<char>| #[trigger]
                self.consumer_table@.dom().contains(group) ==> call_ensures(
                    C::adjust_thread_pool,
                    (&self.consumer_table@[group],),
                    (),
                ),
    {
        let n = self.consumer_table.len();
        let mut i: usize = 0;
        while i < n
            invariant
                i <= n == self.consumer_table.order().len(),
                self.consumer_table.listed(),
                forall|k: int|
                    0 <= k < i ==> call_ensures(
                        C::adjust_thread_pool,
                        (&self.consumer_table@[#[trigger] self.consumer_table.order()[k]],),
                        (),
                    ),
            decreases n - i,
        {
            self.consumer_table.value_at(i).adjust_thread_pool();
            i = i + 1;
        }
        assert forall|group: Seq<char>| #[trigger] self.consumer_table@.dom().contains(group) implies call_ensures(
            C::adjust_thread_pool,
            (&self.consumer_table@[group],),
            (),
        ) by {
            let k = choose|k: int| 0 <= k < n && #[trigger] self.consumer_table.order()[k] == group;
            assert(self.consumer_table.order().contains(group));
        }
    }

    /// A broker says that the members of a group changed: it is counted, and every consumer
    /// here looks at its queues again.
    pub fn process_notify_consumer_ids_changed(&mut self)
        ensures
            *final(self) == (MQClientInstance {
                consumer_ids_changed_count: old(self).consumer_ids_changed_count.wrapping_add(1),
                ..*old(self)
            }),
            old(self).all_woken(),
    {
        self.rebalance_immediately();
        self.consumer_ids_changed_count = self.consumer_ids_changed_count.wrapping_add(1);
    }

    /// A broker asks a group to read again: the consumer, the topic and the offsets that it is
    /// handed. `decoded` is the table that the body holds: `None` for an empty body, `Some(None)`
    /// for one that cannot be read. Nothing happens where the request names no group that is
    /// registered here, or has a body that cannot be read.
    pub fn process_reset_offset(
        &self,
        group: &Option<String>,
        topic: &Option<String>,
        decoded: Option<Option<Vec<(MessageQueue, i64)>>>,
    ) -> (r: Option<(&C, String, Vec<(MessageQueue, i64)>)>)
        ensures
            match r {
                Some((c, t, offsets)) => {
                    &&& *group is Some && self.consumer_table@.dom().contains(group_of(*group))
                    &&& *c == self.consumer_table@[group_of(*group)]
                    &&& t@ == group_of(*topic)
                    &&& match decoded {
                        None => offsets@.len() == 0,
                        Some(None) => false,
                        Some(Some(v)) => offsets == v,
                    }
                },
                None => *group is None || !self.consumer_table@.dom().contains(group_of(*group)) || decoded
                    == Some(None::<Vec<(MessageQueue, i64)>>),
            },
    {
        let consumer = match group {
            Some(g) => match self.find_consumer(g.as_str()) {
                Some(c) => c,
                None => {
                    return None;
                },
            },
            None => {
                return None;
            },
        };
        let offsets: Vec<(MessageQueue, i64)> = match decoded {
            None => Vec::new(),
            Some(None) => {
                return None;
            },
            Some(Some(v)) => v,
        };
        Some((consumer, or_empty(topic), offsets))
    }

    /// A broker asks how far a group has read: what its consumer says, or a refusal.
    pub fn process_get_consumer_status(&self, group: &Option<String>, topic: Option<&str>) -> (r: Result<
        Vec<(MessageQueue, i64)>,
        Answer,
    >)
        ensures
            match r {
                Ok(v) => self.consumer_table@.dom().contains(group_of(*group)) && call_ensures(
                    C::get_consumer_status,
                    (&self.consumer_table@[group_of(*group)], topic),
                    v,
                ),
                Err(a) => !self.consumer_table@.dom().contains(group_of(*group)) && is_refusal(
                    a,
                    no_consumer(group_of(*group)),
                ),
            },
    {
        let g = or_empty(group);
        match self.find_consumer(g.as_str()) {
            Some(c) => Ok(c.get_consumer_status(topic)),
            None => Err(refusal("no consumer for group=".to_owned().concat(g.as_str()).as_str())),
        }
    }

    /// A broker asks what a consumer says of itself.
    pub fn process_get_consumer_running_info(&self, group: &Option<String>) -> (r: Answer)
        ensures
            if self.consumer_table@.dom().contains(group_of(*group)) {
                r.code == response_code::SUCCESS && r.remark is None && (r.body matches Some(b) && call_ensures(
                    C::consumer_running_info,
                    (&self.consumer_table@[group_of(*group)],),
                    b,
                ))
            } else {
                is_refusal(r, no_consumer(group_of(*group)))
            },
    {
        let g = or_empty(group);
        match self.find_consumer(g.as_str()) {
            Some(c) => agreed(Some(c.consumer_running_info())),
            None => refusal("no consumer for group=".to_owned().concat(g.as_str()).as_str()),
        }
    }

    /// A broker hands a consumer one message. `decoded` is the message that the body holds:
    /// `None` for an empty body, `Some(None)` for one that cannot be decoded.
    pub fn process_consume_message_directly(
        &self,
        group: &Option<String>,
        decoded: Option<Option<MessageExt>>,
        broker_name: Option<String>,
    ) -> (r: Answer)
        ensures
            if !self.consumer_table@.dom().contains(group_of(*group)) {
                is_refusal(r, no_consumer(group_of(*group)))
            } else {
                match decoded {
                    None => is_refusal(r, "empty message body"@),
                    Some(None) => is_refusal(r, "decode message failed"@),
                    Some(Some(m)) => exists|got: Result<Vec<u8>, Error>| #[trigger]
                        call_ensures(
                            C::consume_message_directly,
                            (&self.consumer_table@[group_of(*group)], m, broker_name),
                            got,
                        ) && match got {
                            Ok(b) => r.code == response_code::SUCCESS && r.remark is None && r.body
                                == Some(b),
                            Err(e) => is_refusal(r, "consume message directly failed: "@ + error_text(e)),
                        },
                }
            },
    {
        let g = or_empty(group);
        let consumer = match self.find_consumer(g.as_str()) {
            Some(c) => c,
            None => {
                return refusal("no consumer for group=".to_owned().concat(g.as_str()).as_str());
            },
        };
        match decoded {
            None => refusal("empty message body"),
            Some(None) => refusal("decode message failed"),
            Some(Some(m)) => {
                let got = consumer.consume_message_directly(m, broker_name);
                match got {
                    Ok(b) => agreed(Some(b)),
                    Err(e) => refusal(
                        "consume message directly failed: ".to_owned().concat(e.text().as_str()).as_str(),
                    ),
                }
            },
        }
    }

    /// The heartbeat of all consumers that are registered, by group.
    pub fn prepare_heartbeat_data(&self) -> (r: HeartbeatData)
        ensures
            r.client_id@ == self.client_id@,
            r.producer_groups@.len() == 0,
            r.consumer_data_set@.len() == self.consumer_table.order().len(),
            forall|i: int|
                0 <= i < r.consumer_data_set@.len() ==> says(
                    #[trigger] r.consumer_data_set@[i],
                    self.consumer_table.order()[i],
                    self.consumer_table.values()[i],
                ),
    {
        let mut hb = HeartbeatData::new(self.client_id.as_str());
        let n = self.consumer_table.len();
        let mut i: usize = 0;
        while i < n
            invariant
                i <= n == self.consumer_table.order().len(),
                self.consumer_table.listed(),
                hb.client_id@ == self.client_id@,
                hb.producer_groups@.len() == 0,
                hb.consumer_data_set@.len() == i,
                forall|j: int|
                    0 <= j < i ==> says(
                        #[trigger] hb.consumer_data_set@[j],
                        self.consumer_table.order()[j],
                        self.consumer_table.values()[j],
                    ),
            decreases n - i,
        {
            let c = self.consumer_table.value_at(i);
            let data = ConsumerData {
                group_name: self.consumer_table.key_at(i).clone(),
                consume_type: c.consume_type(),
                message_model: c.message_model(),
                consume_from_where: c.consume_from_where(),
                subscription_data_set: c.subscriptions(),
                unit_mode: c.is_unit_mode(),
            };
            assert(says(data, self.consumer_table.order()[i as int], self.consumer_table.values()[i as int]));
            hb.consumer_data_set.push(data);
            i = i + 1;
        }
        hb
    }
}

/// The entry says of the consumer what the consumer says of itself.
pub open spec fn says<C: RegisteredConsumer>(d: ConsumerData, group: Seq<char>, c: C) -> bool {
    &&& d.group_name@ == group
    &&& call_ensures(C::consume_type, (&c,), d.consume_type)
    &&& call_ensures(C::message_model, (&c,), d.message_model)
    &&& call_ensures(C::consume_from_where, (&c,), d.consume_from_where)
    &&& call_ensures(C::subscriptions, (&c,), d.subscription_data_set)
    &&& call_ensures(C::is_unit_mode, (&c,), d.unit_mode)
}

/// Whether a topic that has no route of its own goes by that of the default topic: only a
/// producer's does.
pub fn wants_default_route(found: bool, is_default: bool, topic: &str) -> (r: bool)
    ensures
        r == (!found && is_default && topic@ != DEFAULT_TOPIC@),
{
    !found && is_default && !same(topic, DEFAULT_TOPIC)
}

/// The group as it travels in a request to unregister; a blank one does not travel.
pub fn blank_group_to_none(group: &str) -> (r: Option<String>)
    ensures
        opt(r) == if blank(group@) {
            None
        } else {
            Some(group@)
        },
{
    if is_blank(group) {
        None
    } else {
        Some(group.to_owned())
    }
}

/// A client id stands for the instance that was registered for it last; the first that is made for
/// it stays, and who comes later gets that one. One that is struck out is not found, unless another
/// has taken its place, and no other client id is touched.
pub proof fn law_registry_finds_what_was_registered(
    registry: &mut InstanceRegistry,
    id: &str,
    number: u64,
    found: Option<u64>,
    other: &str,
    other_found: Option<u64>,
    other_before: Option<u64>,
)
    requires
        call_ensures(InstanceRegistry::register, (registry, id, number), ()),
        call_ensures(InstanceRegistry::find_instance, (&*final(registry), id), found),
        other@ != id@,
        call_ensures(InstanceRegistry::find_instance, (&*final(registry), other), other_found),
        call_ensures(InstanceRegistry::find_instance, (&*old(registry), other), other_before),
    ensures
        found == Some(number),
        other_found == other_before,
{
}

/// The instance of a client id is shared: a fresh one is taken only where there is none.
pub proof fn law_instance_is_shared(
    registry: &mut InstanceRegistry,
    id: &str,
    fresh: u64,
    r: u64,
    before: Option<u64>,
    after: Option<u64>,
)
    requires
        call_ensures(InstanceRegistry::create_mq_client_instance, (registry, id, fresh), r),
        call_ensures(InstanceRegistry::find_instance, (&*old(registry), id), before),
        call_ensures(InstanceRegistry::find_instance, (&*final(registry), id), after),
    ensures
        before matches Some(n) ==> r == n && final(registry).entries@ == old(registry).entries@,
        before is None ==> r == fresh,
        after == Some(r),
{
}

/// An instance that is struck out is not found any more; another that has its client id stays, and
/// so do all other client ids.
pub proof fn law_only_the_own_entry_is_struck_out(
    registry: &mut InstanceRegistry,
    id: &str,
    number: u64,
    before: Option<u64>,
    after: Option<u64>,
    other: &str,
    other_before: Option<u64>,
    other_after: Option<u64>,
)
    requires
        call_ensures(InstanceRegistry::remove_own, (registry, id, number), ()),
        call_ensures(InstanceRegistry::find_instance, (&*old(registry), id), before),
        call_ensures(InstanceRegistry::find_instance, (&*final(registry), id), after),
        other@ != id@,
        call_ensures(InstanceRegistry::find_instance, (&*old(registry), other), other_before),
        call_ensures(InstanceRegistry::find_instance, (&*final(registry), other), other_after),
    ensures
        before == Some(number) ==> after is None,
        before != Some(number) ==> after == before,
        other_after == other_before,
{
}

/// Who is registered with an instance keeps it alive: it stops exactly where nobody is. Then it is
/// not started, does no work, and is not found; else everything stays as it is.
pub proof fn law_instance_stops_when_nobody_uses_it<C>(
    i: &mut MQClientInstance<C>,
    registry: &mut InstanceRegistry,
    number: u64,
    r: bool,
    users: usize,
    id: &str,
    found: Option<u64>,
)
    requires
        call_ensures(MQClientInstance::<C>::shutdown, (i, registry, number), r),
        call_ensures(MQClientInstance::<C>::tenant_count, (&*old(i),), users),
        id@ == old(i).client_id@,
        call_ensures(InstanceRegistry::find_instance, (&*final(registry), id), found),
    ensures
        r <==> users == 0,
        r ==> !final(i).started && final(i).tasks@.len() == 0 && found != Some(number),
        !r ==> *final(i) == *old(i) && final(registry).entries@ == old(registry).entries@,
        final(i).topic_route_table == old(i).topic_route_table && final(i).name_server_addrs
            == old(i).name_server_addrs,
{
}

/// An instance counts everybody who is registered with it: consumers, producers and groups; each
/// group once.
pub proof fn law_everybody_counts<C>(
    i: &mut MQClientInstance<C>,
    group: &str,
    known: bool,
    users: usize,
    k: &mut MQClientInstance<C>,
    gone: bool,
    g: &mut MQClientInstance<C>,
    listed: bool,
    g_users: usize,
)
    requires
        call_ensures(MQClientInstance::<C>::register_producer, (i, group), ()),
        call_ensures(MQClientInstance::<C>::has_producer, (&*final(i), group), known),
        call_ensures(MQClientInstance::<C>::tenant_count, (&*final(i),), users),
        call_ensures(MQClientInstance::<C>::unregister_producer, (k, group), ()),
        call_ensures(MQClientInstance::<C>::has_producer, (&*final(k), group), gone),
        call_ensures(MQClientInstance::<C>::register_consumer_group, (g, group), ()),
        call_ensures(MQClientInstance::<C>::has_consumer_group, (&*final(g), group), listed),
        call_ensures(MQClientInstance::<C>::tenant_count, (&*final(g),), g_users),
    ensures
        known && users > 0,
        !gone,
        listed && g_users > 0,
        final(i).consumer_table == old(i).consumer_table && final(i).started == old(i).started,
        final(k).consumer_table == old(k).consumer_table && final(k).started == old(k).started,
{
    if users == 0 {
        assert(unused(*final(i)));
        assert(final(i).producer_table@.dom().contains(group@));
    }
    if g_users == 0 {
        assert(unused(*final(g)));
        assert(final(g).consumer_group_table@.dom().contains(group@));
    }
}

/// A consumer is found by its group from when it is registered until it is not; others stay.
pub proof fn law_consumer_is_found_by_its_group<C>(
    i: &mut MQClientInstance<C>,
    group: &str,
    consumer: C,
    found: Option<&C>,
    users: usize,
    other: &str,
    other_found: Option<&C>,
    other_before: Option<&C>,
    k: &mut MQClientInstance<C>,
    gone: Option<&C>,
)
    requires
        call_ensures(MQClientInstance::<C>::register_consumer, (i, group, consumer), ()),
        call_ensures(MQClientInstance::<C>::find_consumer, (&*final(i), group), found),
        call_ensures(MQClientInstance::<C>::tenant_count, (&*final(i),), users),
        other@ != group@,
        call_ensures(MQClientInstance::<C>::find_consumer, (&*final(i), other), other_found),
        call_ensures(MQClientInstance::<C>::find_consumer, (&*old(i), other), other_before),
        call_ensures(MQClientInstance::<C>::unregister_consumer, (k, group), ()),
        call_ensures(MQClientInstance::<C>::find_consumer, (&*final(k), group), gone),
    ensures
        found matches Some(c) && *c == consumer,
        users > 0,
        other_found is Some <==> other_before is Some,
        other_found matches Some(c) ==> *c == *(other_before->0),
        gone is None,
{
    if users == 0 {
        assert(unused(*final(i)));
        assert(final(i).consumer_table@.dom().contains(group@));
    }
}

/// A start that goes through brings up the work of the instance: what refreshes routes, threads,
/// heartbeats and offsets, each once, and what refreshes name servers exactly where they came from
/// an address server.
pub proof fn law_started_instance_does_its_work<C>(
    i: &mut MQClientInstance<C>,
    registry: &mut InstanceRegistry,
    number: u64,
    ws_addr: &str,
    dynamic: bool,
    outcome: Result<(), Error>,
    r: Result<Vec<TaskPlan>, Error>,
)
    requires
        old(i).started,
        call_ensures(MQClientInstance::<C>::conclude_start, (i, registry, number, ws_addr, dynamic, outcome), r),
    ensures
        r is Ok <==> outcome is Ok && (dynamic ==> old(i).name_server_addrs@.len() > 0),
        outcome matches Err(e) ==> r == Err::<Vec<TaskPlan>, Error>(e),
        r is Err && outcome is Ok ==> r->Err_0 is Client && error_code(r->Err_0) == Some(10004i32),
        r is Err ==> !final(i).started && final(i).tasks@.len() == 0 && final(registry).entries@ == struck(
            old(registry).entries@,
            old(i).client_id@,
            number,
        ),
        r matches Ok(tasks) ==> {
            &&& final(i).started && final(i).tasks@ == tasks@ && final(registry).entries@ == old(registry).entries@
            &&& tasks@.len() == if dynamic {
                5int
            } else {
                4
            }
            &&& forall|a: int, b: int|
                0 <= a < b < tasks@.len() ==> (#[trigger] tasks@[a]).kind != (#[trigger] tasks@[b]).kind
            &&& dynamic ==> tasks@[0].kind == TaskKind::NameServerRefresh && tasks@[0].period_millis
                == old(i).config.namesrv_refresh_interval_millis
            &&& exists|a: int| 0 <= a < tasks@.len() && (#[trigger] tasks@[a]).kind == TaskKind::RouteRefresh
                && tasks@[a].period_millis == old(i).config.route_refresh_interval_millis
            &&& exists|a: int| 0 <= a < tasks@.len() && (#[trigger] tasks@[a]).kind == TaskKind::Heartbeat
                && tasks@[a].period_millis == old(i).config.heartbeat_interval_millis
            &&& exists|a: int| 0 <= a < tasks@.len() && (#[trigger] tasks@[a]).kind == TaskKind::PersistOffset
                && tasks@[a].period_millis == old(i).config.persist_offset_interval_millis
            &&& exists|a: int| 0 <= a < tasks@.len() && (#[trigger] tasks@[a]).kind == TaskKind::AdjustPool
                && tasks@[a].period_millis == old(i).config.adjust_pool_interval_millis
        },
{
    if let Ok(tasks) = r {
        let n = tasks@.len() as int;
        assert(tasks@[n - 4].kind == TaskKind::RouteRefresh);
        assert(tasks@[n - 3].kind == TaskKind::AdjustPool);
        assert(tasks@[n - 2].kind == TaskKind::Heartbeat);
        assert(tasks@[n - 1].kind == TaskKind::PersistOffset);
    }
}

/// Only the first call of start starts an instance, and only one that has no name servers asks an
/// address server, where there is one.
pub proof fn law_instance_starts_once<C>(
    i: &mut MQClientInstance<C>,
    first: bool,
    k: &mut MQClientInstance<C>,
    second: bool,
    ws_addr: &str,
    asks: bool,
)
    requires
        call_ensures(MQClientInstance::<C>::begin_start, (i,), first),
        *old(k) == *final(i),
        call_ensures(MQClientInstance::<C>::begin_start, (k,), second),
        call_ensures(MQClientInstance::<C>::is_dynamic, (&*old(i), ws_addr), asks),
    ensures
        first <==> !old(i).started,
        !second && *final(k) == *old(k),
        final(i).started && final(i).tasks == old(i).tasks,
        asks <==> old(i).name_server_addrs@.len() == 0 && ws_addr@.len() > 0,
{
}

/// Name servers are taken over from a list that names any, and kept where it names none.
pub proof fn law_name_servers_are_never_lost<C>(
    i: &mut MQClientInstance<C>,
    addrs: &Vec<String>,
    now: Vec<String>,
    asked: Result<Vec<String>, Error>,
)
    requires
        call_ensures(MQClientInstance::<C>::update_name_server_address_list, (i, addrs), ()),
        call_ensures(MQClientInstance::<C>::name_server_addrs, (&*final(i),), now),
        call_ensures(MQClientInstance::<C>::name_servers_for_route, (&*final(i),), asked),
    ensures
        addrs@.len() > 0 ==> now@ == addrs@,
        addrs@.len() == 0 ==> now@ == old(i).name_server_addrs@,
        asked is Ok <==> now@.len() > 0,
        asked matches Ok(v) ==> v@ == now@,
        asked matches Err(e) ==> e is Client && error_code(e) == Some(10004i32),
{
}

/// An address server's text with semicolons names the servers, in order.
pub proof fn law_address_text_is_taken_over<C>(i: &mut MQClientInstance<C>, text: &str, list: Vec<String>, now: Vec<String>)
    requires
        call_ensures(MQClientInstance::<C>::apply_namesrv_change, (i, text), ()),
        call_ensures(split_addrs, (text,), list),
        call_ensures(MQClientInstance::<C>::name_server_addrs, (&*final(i),), now),
    ensures
        list@.len() > 0 ==> texts(now@) == texts(list@),
        list@.len() == 0 ==> texts(now@) == texts(old(i).name_server_addrs@),
{
    assert(texts(list@).len() == list@.len());
}

/// A route that is stored is the one of its topic, and messages of the topic then go to its
/// queues; other topics stay.
pub proof fn law_stored_route_is_the_topics<C>(
    i: &mut MQClientInstance<C>,
    topic: &str,
    route: TopicRouteData,
    known: Option<&TopicRouteData>,
    queues: Vec<MessageQueue>,
    other: &str,
    other_known: Option<&TopicRouteData>,
    other_before: Option<&TopicRouteData>,
)
    requires
        call_ensures(MQClientInstance::<C>::store_route, (i, topic, route), ()),
        call_ensures(MQClientInstance::<C>::route_of, (&*final(i), topic), known),
        call_ensures(TopicRouteData::get_all_message_queue, (&route, topic), queues),
        other@ != topic@,
        call_ensures(MQClientInstance::<C>::route_of, (&*final(i), other), other_known),
        call_ensures(MQClientInstance::<C>::route_of, (&*old(i), other), other_before),
    ensures
        known matches Some(r) && *r == route,
        final(i).topic_publish_info_table@.dom().contains(topic@),
        crate::message::queues(final(i).topic_publish_info_table@[topic@].list()) == crate::message::queues(queues@),
        other_known is Some <==> other_before is Some,
        other_known matches Some(r) ==> *r == *(other_before->0),
        final(i).consumer_table == old(i).consumer_table && final(i).name_server_addrs == old(i).name_server_addrs,
{
}

/// Brokers make six requests of a client, by their codes; any other code is refused. Two of them
/// are not answered: that a group is to read again, and that its members changed.
pub proof fn law_requests_of_brokers(code: i32, r: Result<BrokerCall, Answer>, answered: bool)
    requires
        call_ensures(broker_call, (code,), r),
        r matches Ok(c) ==> call_ensures(is_answered, (c,), answered),
    ensures
        code == 326 <==> (r matches Ok(BrokerCall::ReplyMessage)),
        code == 220 <==> (r matches Ok(BrokerCall::ResetOffset)),
        code == 40 <==> (r matches Ok(BrokerCall::ConsumerIdsChanged)),
        code == 221 <==> (r matches Ok(BrokerCall::ConsumerStatus)),
        code == 307 <==> (r matches Ok(BrokerCall::ConsumerRunningInfo)),
        code == 309 <==> (r matches Ok(BrokerCall::ConsumeDirectly)),
        r is Ok ==> (answered <==> code != 220 && code != 40),
        r matches Err(a) ==> a.code == 1 && a.body is None,
{
}

/// A broker that asks about a group hears from the consumer of that group, or is refused where
/// there is none.
pub proof fn law_broker_hears_from_the_consumer<C: RegisteredConsumer>(
    i: &MQClientInstance<C>,
    group: String,
    name: &str,
    topic: Option<&str>,
    consumer: Option<&C>,
    status: Result<Vec<(MessageQueue, i64)>, Answer>,
    info: Answer,
)
    requires
        name@ == group@,
        call_ensures(MQClientInstance::<C>::find_consumer, (i, name), consumer),
        call_ensures(MQClientInstance::<C>::process_get_consumer_status, (i, &Some(group), topic), status),
        call_ensures(MQClientInstance::<C>::process_get_consumer_running_info, (i, &Some(group)), info),
    ensures
        consumer matches Some(c) ==> {
            &&& status matches Ok(v) && call_ensures(C::get_consumer_status, (c, topic), v)
            &&& info.code == 0 && info.body is Some && call_ensures(C::consumer_running_info, (c,), info.body->0)
        },
        consumer is None ==> (status matches Err(a) && a.code == 1) && info.code == 1 && info.body is None,
{
}

/// A group that is to read again is handed the topic and the offsets of the request: none where
/// there is no body; nothing happens where the group is not here or the body cannot be read.
pub proof fn law_reset_goes_to_the_consumer<C: RegisteredConsumer>(
    i: &MQClientInstance<C>,
    group: String,
    name: &str,
    topic: String,
    decoded: Option<Option<Vec<(MessageQueue, i64)>>>,
    consumer: Option<&C>,
    r: Option<(&C, String, Vec<(MessageQueue, i64)>)>,
)
    requires
        name@ == group@,
        call_ensures(MQClientInstance::<C>::find_consumer, (i, name), consumer),
        call_ensures(MQClientInstance::<C>::process_reset_offset, (i, &Some(group), &Some(topic), decoded), r),
    ensures
        r is Some <==> consumer is Some && !(decoded is Some && decoded->0 is None),
        r matches Some((c, t, offsets)) ==> {
            &&& *c == *(consumer->0)
            &&& t@ == topic@
            &&& decoded is None ==> offsets@.len() == 0
            &&& decoded matches Some(Some(v)) ==> offsets == v
        },
{
}

/// A message that a broker hands to a group is consumed by its consumer, and what that says is the
/// answer; a message that is missing or cannot be read is refused, and so is an unknown group.
pub proof fn law_message_is_consumed_at_once<C: RegisteredConsumer>(
    i: &MQClientInstance<C>,
    group: String,
    name: &str,
    decoded: Option<Option<MessageExt>>,
    broker: Option<String>,
    consumer: Option<&C>,
    r: Answer,
)
    requires
        name@ == group@,
        call_ensures(MQClientInstance::<C>::find_consumer, (i, name), consumer),
        call_ensures(
            MQClientInstance::<C>::process_consume_message_directly,
            (i, &Some(group), decoded, broker),
            r,
        ),
    ensures
        consumer is None || decoded is None || decoded->0 is None ==> r.code == 1 && r.body is None,
        consumer is Some && decoded is Some && decoded->0 is Some ==> exists|got: Result<Vec<u8>, Error>| #[trigger]
            call_ensures(C::consume_message_directly, (consumer->0, decoded->0->0, broker), got) && match got {
                Ok(b) => r.code == 0 && r.body == Some(b),
                Err(_) => r.code == 1 && r.body is None,
            },
{
}

/// That the members of a group changed wakes every consumer here, and is counted.
pub proof fn law_changed_members_wake_every_consumer<C: RegisteredConsumer>(
    i: &mut MQClientInstance<C>,
    before: usize,
    after: usize,
    name: &str,
    consumer: Option<&C>,
)
    requires
        call_ensures(MQClientInstance::<C>::process_notify_consumer_ids_changed, (i,), ()),
        call_ensures(MQClientInstance::<C>::consumer_ids_changed_count, (&*old(i),), before),
        call_ensures(MQClientInstance::<C>::consumer_ids_changed_count, (&*final(i),), after),
        call_ensures(MQClientInstance::<C>::find_consumer, (&*old(i), name), consumer),
    ensures
        before < usize::MAX ==> after == before + 1,
        consumer matches Some(c) ==> call_ensures(C::rebalance_immediately, (c,), ()),
        final(i).consumer_table == old(i).consumer_table,
{
    assert(old(i).all_woken());
}

/// A reply that a broker pushes is handed on where it can be read, and refused where not.
pub proof fn law_pushed_reply_is_handed_on<F: Fn(&Vec<u8>, i32) -> Result<Vec<u8>, Error>>(
    decoded: Result<ReplyMessageRequestHeader, Error>,
    body: Option<&[u8]>,
    inflate: F,
    now: i64,
    r: (Answer, Option<MessageExt>),
    flag: i32,
    packed: bool,
)
    requires
        call_ensures(process_reply_message::<F>, (decoded, body, inflate, now), r),
        decoded matches Ok(h) ==> flag == h.sys_flag.unwrap_or(0),
        call_ensures(is_compressed, (flag,), packed),
    ensures
        decoded is Err ==> r.1 is None && r.0.code == 1,
        r.1 is Some <==> r.0.code == 0,
        decoded is Ok && !packed ==> r.1 is Some,
        r.1 matches Some(m) ==> (decoded->Ok_0.topic matches Some(t) ==> m.topic@ == t@) && (!packed ==> m.body is Some
            && m.body->0@ == match body {
            Some(b) => b@,
            None => Seq::empty(),
        }),
{
}

/// A heartbeat tells of every consumer that is registered, by group, what that says of itself.
pub proof fn law_heartbeat_tells_of_every_consumer<C: RegisteredConsumer>(
    i: &MQClientInstance<C>,
    r: HeartbeatData,
    k: int,
)
    requires
        call_ensures(MQClientInstance::<C>::prepare_heartbeat_data, (i,), r),
    ensures
        r.client_id@ == i.client_id@,
        r.consumer_data_set@.len() == i.consumer_table.order().len(),
        0 <= k < r.consumer_data_set@.len() ==> {
            let d = r.consumer_data_set@[k];
            let c = i.consumer_table.values()[k];
            &&& d.group_name@ == i.consumer_table.order()[k]
            &&& call_ensures(C::consume_type, (&c,), d.consume_type)
            &&& call_ensures(C::message_model, (&c,), d.message_model)
            &&& call_ensures(C::consume_from_where, (&c,), d.consume_from_where)
            &&& call_ensures(C::subscriptions, (&c,), d.subscription_data_set)
            &&& call_ensures(C::is_unit_mode, (&c,), d.unit_mode)
        },
{
}

} // verus!

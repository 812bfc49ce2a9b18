//! Topic routes: which brokers hold which queues, and where they listen.
use vstd::prelude::*;

use crate::clock::clock_nanos;
use crate::message::{copy_opt, queues, MessageQueue, QueueView};

verus! {

/// The id under which a master broker lists its address.
pub const MASTER_ID: i64 = 0;

pub const PERM_WRITE: i32 = 2;

pub const PERM_READ: i32 = 4;

/// The queues that one broker has of a topic.
#[derive(Debug)]
pub struct QueueData {
    pub broker_name: String,
    pub read_queue_nums: i32,
    pub write_queue_nums: i32,
    pub perm: i32,
    pub topic_sys_flag: i32,
}

impl Clone for QueueData {
    fn clone(&self) -> (r: QueueData)
        ensures
            r == *self,
    {
        QueueData {
            broker_name: self.broker_name.clone(),
            read_queue_nums: self.read_queue_nums,
            write_queue_nums: self.write_queue_nums,
            perm: self.perm,
            topic_sys_flag: self.topic_sys_flag,
        }
    }
}

impl QueueData {
    pub fn new(
        broker_name: &str,
        read_queue_nums: i32,
        write_queue_nums: i32,
        perm: i32,
        topic_sys_flag: i32,
    ) -> (r: QueueData)
        ensures
            r.broker_name@ == broker_name@,
            r.read_queue_nums == read_queue_nums,
            r.write_queue_nums == write_queue_nums,
            r.perm == perm,
            r.topic_sys_flag == topic_sys_flag,
    {
        QueueData {
            broker_name: broker_name.to_owned(),
            read_queue_nums,
            write_queue_nums,
            perm,
            topic_sys_flag,
        }
    }
}

/// The addresses of one broker, each under the id of the process that listens there.
#[derive(Debug)]
pub struct BrokerData {
    pub cluster: String,
    pub broker_name: String,
    pub broker_addrs: Vec<(i64, String)>,
}

/// Two broker entries hold the same.
pub open spec fn same_broker(a: BrokerData, b: BrokerData) -> bool {
    &&& a.cluster == b.cluster
    &&& a.broker_name == b.broker_name
    &&& a.broker_addrs@ == b.broker_addrs@
}

/// The first address that is listed under `id`.
pub open spec fn addr_under(addrs: Seq<(i64, String)>, id: i64) -> Option<Seq<char>>
    decreases addrs.len(),
{
    if addrs.len() == 0 {
        None
    } else if addrs[0].0 == id {
        Some(addrs[0].1@)
    } else {
        addr_under(addrs.subrange(1, addrs.len() as int), id)
    }
}

/// The address to use of a broker: the master's, else the one that `pick` falls on.
pub open spec fn preferred_addr(addrs: Seq<(i64, String)>, pick: usize) -> Option<Seq<char>> {
    match addr_under(addrs, MASTER_ID) {
        Some(a) => Some(a),
        None => if addrs.len() == 0 {
            None
        } else {
            Some(addrs[pick as int % addrs.len() as int].1@)
        },
    }
}

/// The address may be used of a broker: it is the master's, or, where there is no master, any
/// that is listed.
pub open spec fn may_use(addrs: Seq<(i64, String)>, a: Seq<char>) -> bool {
    exists|pick: usize| #[trigger] preferred_addr(addrs, pick) == Some(a)
}

impl Clone for BrokerData {
    fn clone(&self) -> (r: BrokerData)
        ensures
            same_broker(r, *self),
    {
        let mut addrs: Vec<(i64, String)> = Vec::new();
        let mut i: usize = 0;
        while i < self.broker_addrs.len()
            invariant
                i <= self.broker_addrs.len(),
                addrs@ == self.broker_addrs@.subrange(0, i as int),
            decreases self.broker_addrs.len() - i,
        {
            addrs.push((self.broker_addrs[i].0, self.broker_addrs[i].1.clone()));
            i = i + 1;
        }
        assert(addrs@ =~= self.broker_addrs@);
        BrokerData {
            cluster: self.cluster.clone(),
            broker_name: self.broker_name.clone(),
            broker_addrs: addrs,
        }
    }
}

impl BrokerData {
    pub fn new(cluster: &str, broker_name: &str, broker_addrs: Vec<(i64, String)>) -> (r: BrokerData)
        ensures
            r.cluster@ == cluster@,
            r.broker_name@ == broker_name@,
            r.broker_addrs == broker_addrs,
    {
        BrokerData { cluster: cluster.to_owned(), broker_name: broker_name.to_owned(), broker_addrs }
    }

    /// The master's address, where one is listed.
    pub fn master_addr(&self) -> (r: Option<String>)
        ensures
            crate::message::opt(r) == addr_under(self.broker_addrs@, MASTER_ID),
    {
        let addrs = &self.broker_addrs;
        let mut i: usize = 0;
        assert(addrs@.subrange(0, addrs@.len() as int) =~= addrs@);
        while i < addrs.len()
            invariant
                i <= addrs.len(),
                *addrs == self.broker_addrs,
                addr_under(addrs@, MASTER_ID) == addr_under(
                    addrs@.subrange(i as int, addrs@.len() as int),
                    MASTER_ID,
                ),
            decreases addrs.len() - i,
        {
            assert(addrs@.subrange(i as int, addrs@.len() as int)[0] == addrs@[i as int]);
            if addrs[i].0 == MASTER_ID {
                return Some(addrs[i].1.clone());
            }
            proof {
                let rest = addrs@.subrange(i as int, addrs@.len() as int);
                assert(rest.subrange(1, rest.len() as int) =~= addrs@.subrange(i + 1, addrs@.len() as int));
            }
            i = i + 1;
        }
        None
    }

    /// The address to use of this broker, where `pick` decides among those that are no master's.
    pub fn select_broker_addr_at(&self, pick: usize) -> (r: Option<String>)
        ensures
            crate::message::opt(r) == preferred_addr(self.broker_addrs@, pick),
    {
        match self.master_addr() {
            Some(a) => Some(a),
            None => if self.broker_addrs.len() == 0 {
                None
            } else {
                let place: usize = pick % self.broker_addrs.len();
                Some(self.broker_addrs[place].1.clone())
            },
        }
    }

    /// The address to use of this broker. Without a master it is left to the clock.
    pub fn select_broker_addr(&self) -> (r: Option<String>)
        ensures
            match r {
                Some(a) => self.broker_addrs@.len() > 0 && may_use(self.broker_addrs@, a@),
                None => self.broker_addrs@.len() == 0,
            },
    {
        let pick = clock_nanos().unwrap_or(0) as usize;
        let r = self.select_broker_addr_at(pick);
        assert(crate::message::opt(r) == preferred_addr(self.broker_addrs@, pick));
        r
    }
}

/// The route of a topic.
#[derive(Debug)]
pub struct TopicRouteData {
    pub order_topic_conf: Option<String>,
    pub queue_datas: Vec<QueueData>,
    pub broker_datas: Vec<BrokerData>,
}

/// Two routes hold the same.
pub open spec fn same_route(a: TopicRouteData, b: TopicRouteData) -> bool {
    &&& a.order_topic_conf == b.order_topic_conf
    &&& a.queue_datas@ == b.queue_datas@
    &&& a.broker_datas@.len() == b.broker_datas@.len()
    &&& forall|i: int|
        0 <= i < a.broker_datas@.len() ==> same_broker(#[trigger] a.broker_datas@[i], b.broker_datas@[i])
}

/// The first `n` queues that `data` gives of `topic`.
pub open spec fn numbered(topic: Seq<char>, data: QueueData, n: int) -> Seq<QueueView> {
    Seq::new(
        if n < 0 {
            0nat
        } else {
            n as nat
        },
        |i: int| QueueView { topic, broker_name: data.broker_name@, queue_id: i as i32 },
    )
}

/// Every queue of `topic` that can be written to: broker by broker, by number.
pub open spec fn all_queues(topic: Seq<char>, datas: Seq<QueueData>) -> Seq<QueueView>
    decreases datas.len(),
{
    if datas.len() == 0 {
        Seq::empty()
    } else {
        all_queues(topic, datas.drop_last()) + numbered(
            topic,
            datas.last(),
            datas.last().write_queue_nums as int,
        )
    }
}

impl Clone for TopicRouteData {
    fn clone(&self) -> (r: TopicRouteData)
        ensures
            same_route(r, *self),
    {
        let mut queue_datas: Vec<QueueData> = Vec::new();
        let mut i: usize = 0;
        while i < self.queue_datas.len()
            invariant
                i <= self.queue_datas.len(),
                queue_datas@ == self.queue_datas@.subrange(0, i as int),
            decreases self.queue_datas.len() - i,
        {
            queue_datas.push(self.queue_datas[i].clone());
            i = i + 1;
        }
        assert(queue_datas@ =~= self.queue_datas@);
        let mut broker_datas: Vec<BrokerData> = Vec::new();
        let mut j: usize = 0;
        while j < self.broker_datas.len()
            invariant
                j <= self.broker_datas.len(),
                broker_datas@.len() == j,
                forall|k: int|
                    0 <= k < j ==> same_broker(#[trigger] broker_datas@[k], self.broker_datas@[k]),
            decreases self.broker_datas.len() - j,
        {
            broker_datas.push(self.broker_datas[j].clone());
            j = j + 1;
        }
        TopicRouteData { order_topic_conf: copy_opt(&self.order_topic_conf), queue_datas, broker_datas }
    }
}

impl TopicRouteData {
    /// A route without queues and brokers.
    pub fn new() -> (r: TopicRouteData)
        ensures
            r.order_topic_conf is None,
            r.queue_datas@.len() == 0,
            r.broker_datas@.len() == 0,
    {
        TopicRouteData { order_topic_conf: None, queue_datas: Vec::new(), broker_datas: Vec::new() }
    }

    /// Every queue of `topic`.
    pub fn get_all_message_queue(&self, topic: &str) -> (r: Vec<MessageQueue>)
        ensures
            queues(r@) == all_queues(topic@, self.queue_datas@),
    {
        let mut out: Vec<MessageQueue> = Vec::new();
        let mut i: usize = 0;
        assert(queues(out@) =~= Seq::<QueueView>::empty());
        while i < self.queue_datas.len()
            invariant
                i <= self.queue_datas.len(),
                queues(out@) == all_queues(topic@, self.queue_datas@.subrange(0, i as int)),
            decreases self.queue_datas.len() - i,
        {
            let data = &self.queue_datas[i];
            let ghost before = queues(out@);
            let n: i32 = if data.write_queue_nums < 0 {
                0
            } else {
                data.write_queue_nums
            };
            let mut q: i32 = 0;
            assert(before + numbered(topic@, *data, 0) =~= before);
            while q < n
                invariant
                    0 <= q <= n,
                    queues(out@) == before + numbered(topic@, *data, q as int),
                decreases n - q,
            {
                let ghost so_far = out@;
                let mq = MessageQueue::new(topic, data.broker_name.as_str(), q);
                out.push(mq);
                assert(queues(out@) =~= queues(so_far).push(mq@));
                assert(numbered(topic@, *data, q + 1) =~= numbered(topic@, *data, q as int).push(mq@));
                assert(queues(out@) =~= before + numbered(topic@, *data, q + 1));
                q = q + 1;
            }
            proof {
                let s = self.queue_datas@.subrange(0, i + 1);
                assert(s.drop_last() =~= self.queue_datas@.subrange(0, i as int));
                assert(numbered(topic@, *data, n as int) =~= numbered(
                    topic@,
                    *data,
                    data.write_queue_nums as int,
                ));
            }
            i = i + 1;
        }
        assert(self.queue_datas@.subrange(0, i as int) =~= self.queue_datas@);
        out
    }
}

/// Where the queues of a topic are: those of each broker in turn, numbered from 0 up to how many
/// of them can be written to, and no others.
pub proof fn law_queues_of_a_route(route: &TopicRouteData, topic: &str, r: Vec<MessageQueue>, q: QueueView)
    requires
        call_ensures(TopicRouteData::get_all_message_queue, (route, topic), r),
    ensures
        queues(r@).contains(q) <==> q.topic == topic@ && exists|i: int|
            0 <= i < route.queue_datas@.len() && q.broker_name == (#[trigger] route.queue_datas@[i]).broker_name@ && 0
                <= q.queue_id < route.queue_datas@[i].write_queue_nums,
        forall|i: int| 0 <= i < r@.len() ==> (#[trigger] r@[i]).topic@ == topic@,
{
    lemma_all_queues(topic@, route.queue_datas@, q);
    assert forall|i: int| 0 <= i < r@.len() implies (#[trigger] r@[i]).topic@ == topic@ by {
        let v = queues(r@)[i];
        assert(queues(r@).contains(v));
        lemma_all_queues(topic@, route.queue_datas@, v);
    }
}

/// The queues of one broker come after those of the brokers before it, in the order of their
/// numbers.
pub proof fn law_queues_come_broker_by_broker(
    route: &TopicRouteData,
    more: &TopicRouteData,
    topic: &str,
    r: Vec<MessageQueue>,
    longer: Vec<MessageQueue>,
    data: QueueData,
    i: int,
)
    requires
        call_ensures(TopicRouteData::get_all_message_queue, (route, topic), r),
        call_ensures(TopicRouteData::get_all_message_queue, (more, topic), longer),
        more.queue_datas@ == route.queue_datas@.push(data),
    ensures
        longer@.len() == r@.len() + if data.write_queue_nums < 0 {
            0
        } else {
            data.write_queue_nums as int
        },
        0 <= i < r@.len() ==> longer@[i]@ == r@[i]@,
        0 <= i < data.write_queue_nums ==> longer@[r@.len() + i].queue_id == i && longer@[r@.len() + i].broker_name@
            == data.broker_name@,
{
    assert(more.queue_datas@.drop_last() =~= route.queue_datas@);
    let a = queues(r@);
    let b = queues(longer@);
    assert(a.len() == r@.len() && b.len() == longer@.len());
    assert(b == a + numbered(topic@, data, data.write_queue_nums as int));
    if 0 <= i < r@.len() {
        assert(b[i] == a[i]);
        assert(b[i] == longer@[i]@ && a[i] == r@[i]@);
    }
    if 0 <= i < data.write_queue_nums {
        assert(b[r@.len() + i] == longer@[r@.len() + i]@);
    }
}

proof fn lemma_all_queues(topic: Seq<char>, datas: Seq<QueueData>, q: QueueView)
    ensures
        all_queues(topic, datas).contains(q) <==> q.topic == topic && exists|i: int|
            0 <= i < datas.len() && q.broker_name == (#[trigger] datas[i]).broker_name@ && 0 <= q.queue_id
                < datas[i].write_queue_nums,
    decreases datas.len(),
{
    if datas.len() > 0 {
        let front = datas.drop_last();
        lemma_all_queues(topic, front, q);
        let a = all_queues(topic, front);
        let last = datas.last();
        let b = numbered(topic, last, last.write_queue_nums as int);
        let all = all_queues(topic, datas);
        if all.contains(q) {
            let k = all.index_of(q);
            if k < a.len() {
                assert(a[k] == q);
                let i = choose|i: int|
                    0 <= i < front.len() && q.broker_name == (#[trigger] front[i]).broker_name@ && 0 <= q.queue_id
                        < front[i].write_queue_nums;
                assert(datas[i] == front[i]);
            } else {
                assert(b[k - a.len()] == q);
                assert(datas[datas.len() - 1] == last);
            }
        }
        if q.topic == topic && exists|i: int|
            0 <= i < datas.len() && q.broker_name == (#[trigger] datas[i]).broker_name@ && 0 <= q.queue_id
                < datas[i].write_queue_nums {
            let i = choose|i: int|
                0 <= i < datas.len() && q.broker_name == (#[trigger] datas[i]).broker_name@ && 0 <= q.queue_id
                    < datas[i].write_queue_nums;
            if i < front.len() {
                assert(front[i] == datas[i]);
                let k = a.index_of(q);
                assert(all[k] == q);
            } else {
                assert(b[q.queue_id as int] == q);
                assert(all[a.len() + q.queue_id] == q);
            }
        }
    }
}

/// A broker is reached at its master; where it has none, at one of its other addresses, and where
/// it has no address at all, not.
pub proof fn law_master_is_preferred(
    b: &BrokerData,
    master: Option<String>,
    r: Option<String>,
    pick: usize,
    at: Option<String>,
    i: int,
)
    requires
        call_ensures(BrokerData::master_addr, (b,), master),
        call_ensures(BrokerData::select_broker_addr, (b,), r),
        call_ensures(BrokerData::select_broker_addr_at, (b, pick), at),
        0 <= i < b.broker_addrs@.len(),
        b.broker_addrs@[i].0 == 0,
        forall|j: int| 0 <= j < i ==> (#[trigger] b.broker_addrs@[j]).0 != 0,
    ensures
        crate::message::opt(master) == Some(b.broker_addrs@[i].1@),
        crate::message::opt(r) == Some(b.broker_addrs@[i].1@),
        crate::message::opt(at) == Some(b.broker_addrs@[i].1@),
{
    lemma_addr_under(b.broker_addrs@, 0, i);
}

proof fn lemma_addr_under(addrs: Seq<(i64, String)>, id: i64, i: int)
    requires
        0 <= i < addrs.len(),
        addrs[i].0 == id,
        forall|j: int| 0 <= j < i ==> (#[trigger] addrs[j]).0 != id,
    ensures
        addr_under(addrs, id) == Some(addrs[i].1@),
    decreases i,
{
    if i > 0 {
        assert(addrs[0].0 != id);
        let rest = addrs.subrange(1, addrs.len() as int);
        assert forall|j: int| 0 <= j < i - 1 implies (#[trigger] rest[j]).0 != id by {
            assert(rest[j] == addrs[j + 1]);
        }
        lemma_addr_under(rest, id, i - 1);
    }
}

proof fn lemma_no_addr_under(addrs: Seq<(i64, String)>, id: i64)
    requires
        forall|j: int| 0 <= j < addrs.len() ==> (#[trigger] addrs[j]).0 != id,
    ensures
        addr_under(addrs, id) is None,
    decreases addrs.len(),
{
    if addrs.len() > 0 {
        assert(addrs[0].0 != id);
        let rest = addrs.subrange(1, addrs.len() as int);
        assert forall|j: int| 0 <= j < rest.len() implies (#[trigger] rest[j]).0 != id by {
            assert(rest[j] == addrs[j + 1]);
        }
        lemma_no_addr_under(rest, id);
    }
}

/// Without a master every address of a broker can be the one, and one of them is.
pub proof fn law_any_address_without_a_master(
    b: &BrokerData,
    master: Option<String>,
    r: Option<String>,
    pick: usize,
    at: Option<String>,
)
    requires
        call_ensures(BrokerData::master_addr, (b,), master),
        call_ensures(BrokerData::select_broker_addr, (b,), r),
        call_ensures(BrokerData::select_broker_addr_at, (b, pick), at),
        forall|j: int| 0 <= j < b.broker_addrs@.len() ==> (#[trigger] b.broker_addrs@[j]).0 != 0,
    ensures
        master is None,
        r is Some <==> b.broker_addrs@.len() > 0,
        r matches Some(a) ==> exists|j: int| 0 <= j < b.broker_addrs@.len() && (#[trigger] b.broker_addrs@[j]).1@ == a@,
        pick < b.broker_addrs@.len() ==> crate::message::opt(at) == Some(b.broker_addrs@[pick as int].1@),
        b.broker_addrs@.len() == 0 ==> at is None,
{
    let addrs = b.broker_addrs@;
    lemma_no_addr_under(addrs, 0);
    if let Some(a) = r {
        let p = choose|p: usize| #[trigger] preferred_addr(addrs, p) == Some(a@);
        let j = p as int % addrs.len() as int;
        vstd::arithmetic::div_mod::lemma_mod_bound(p as int, addrs.len() as int);
        assert(addrs[j].1@ == a@);
    }
    if pick < addrs.len() {
        vstd::arithmetic::div_mod::lemma_small_mod(pick as nat, addrs.len());
    }
}

} // verus!

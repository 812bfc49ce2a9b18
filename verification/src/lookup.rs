//! Addresses: where a broker listens, by the routes that are known.
use vstd::prelude::*;

use crate::error::{is_client, Error};
use crate::message::{opt, opt_ref, MessageQueue};
use crate::names::DEFAULT_TOPIC_QUEUE_NUMS;
use crate::route::{may_use, preferred_addr, BrokerData, QueueData, TopicRouteData};
use crate::table::Table;
use crate::text::same;

verus! {

/// The first broker of that name, from place `from` on; -1 where there is none.
pub open spec fn broker_place(brokers: Seq<BrokerData>, name: Seq<char>, from: int) -> int
    decreases brokers.len() - from,
{
    if from < 0 || from >= brokers.len() {
        -1
    } else if brokers[from].broker_name@ == name {
        from
    } else {
        broker_place(brokers, name, from + 1)
    }
}

/// The first broker of that name in a route has an address.
pub open spec fn has_addr(route: TopicRouteData, name: Seq<char>) -> bool {
    let i = broker_place(route.broker_datas@, name, 0);
    i >= 0 && route.broker_datas@[i].broker_addrs@.len() > 0
}

/// The address may be used of a broker in a route: of the first broker of its name.
pub open spec fn addr_in_route(route: TopicRouteData, name: Seq<char>, a: Seq<char>) -> bool {
    has_addr(route, name) && may_use(
        route.broker_datas@[broker_place(route.broker_datas@, name, 0)].broker_addrs@,
        a,
    )
}

/// The address of a broker in a route.
pub fn find_broker_addr_in_route(route: &TopicRouteData, broker_name: &str) -> (r: Option<String>)
    ensures
        match r {
            Some(a) => addr_in_route(*route, broker_name@, a@),
            None => !has_addr(*route, broker_name@),
        },
{
    let brokers = &route.broker_datas;
    let mut i: usize = 0;
    while i < brokers.len()
        invariant
            *brokers == route.broker_datas,
            i <= brokers@.len(),
            broker_place(brokers@, broker_name@, 0) == broker_place(brokers@, broker_name@, i as int),
        decreases brokers@.len() - i,
    {
        if same(brokers[i].broker_name.as_str(), broker_name) {
            return brokers[i].select_broker_addr();
        }
        i = i + 1;
    }
    None
}

/// The failure where a topic has no route.
pub open spec fn no_route(topic: Seq<char>) -> Seq<char> {
    "No route info of this topic: "@ + topic
}

fn no_route_error(topic: &str) -> (r: Error)
    ensures
        is_client(r, None, no_route(topic@)),
{
    Error::client("No route info of this topic: ".to_owned().concat(topic).as_str())
}

/// The address of a named broker in the route of a topic, or why there is none.
pub open spec fn named_addr(
    r: Result<String, Error>,
    route: Option<&TopicRouteData>,
    topic: Seq<char>,
    broker: Seq<char>,
) -> bool {
    match route {
        None => r matches Err(e) && is_client(e, None, no_route(topic)),
        Some(rt) => match r {
            Ok(a) => addr_in_route(*rt, broker, a@),
            Err(e) => !has_addr(*rt, broker) && is_client(
                e,
                None,
                "Broker "@ + broker + " not found in route of topic "@ + topic,
            ),
        },
    }
}

/// The address of the first broker in the route of a topic, or why there is none.
pub open spec fn any_addr(r: Result<String, Error>, route: Option<&TopicRouteData>, topic: Seq<char>) -> bool {
    match route {
        None => r matches Err(e) && is_client(e, None, no_route(topic)),
        Some(rt) => if rt.broker_datas@.len() == 0 {
            r matches Err(e) && is_client(e, None, "No broker in route of topic: "@ + topic)
        } else {
            let addrs = rt.broker_datas@[0].broker_addrs@;
            match r {
                Ok(a) => addrs.len() > 0 && may_use(addrs, a@),
                Err(e) => addrs.len() == 0 && is_client(
                    e,
                    None,
                    "No available broker addr for topic: "@ + topic,
                ),
            }
        },
    }
}

/// The address for a queue: that of its broker in the route of its topic.
pub fn broker_addr(route: Option<&TopicRouteData>, mq: &MessageQueue) -> (r: Result<String, Error>)
    ensures
        named_addr(r, route, mq.topic@, mq.broker_name@),
{
    match route {
        None => Err(no_route_error(mq.topic.as_str())),
        Some(rt) => match find_broker_addr_in_route(rt, mq.broker_name.as_str()) {
            Some(a) => Ok(a),
            None => Err(
                Error::client(
                    "Broker ".to_owned().concat(mq.broker_name.as_str()).concat(
                        " not found in route of topic ",
                    ).concat(mq.topic.as_str()).as_str(),
                ),
            ),
        },
    }
}

/// The address for a topic: that of the named broker, or, where none is named, of the first.
pub fn addr_for(route: Option<&TopicRouteData>, topic: &str, broker_name: Option<&str>) -> (r: Result<String, Error>)
    ensures
        if opt_ref(broker_name) is Some && opt_ref(broker_name)->0.len() > 0 {
            named_addr(r, route, topic@, opt_ref(broker_name)->0)
        } else {
            any_addr(r, route, topic@)
        },
{
    let rt = match route {
        None => {
            return Err(no_route_error(topic));
        },
        Some(rt) => rt,
    };
    if let Some(name) = broker_name {
        if !name.is_empty() {
            return match find_broker_addr_in_route(rt, name) {
                Some(a) => Ok(a),
                None => Err(
                    Error::client(
                        "Broker ".to_owned().concat(name).concat(" not found in route of topic ").concat(
                            topic,
                        ).as_str(),
                    ),
                ),
            };
        }
    }
    if rt.broker_datas.len() == 0 {
        return Err(Error::client("No broker in route of topic: ".to_owned().concat(topic).as_str()));
    }
    match rt.broker_datas[0].select_broker_addr() {
        Some(a) => Ok(a),
        None => Err(
            Error::client("No available broker addr for topic: ".to_owned().concat(topic).as_str()),
        ),
    }
}

/// The caller gives both an address and the name of a broker.
pub open spec fn target_given(broker_name: Option<Seq<char>>, addr: Option<Seq<char>>) -> bool {
    addr is Some && broker_name is Some && broker_name->0.len() > 0
}

/// Whether the route of the topic is needed to tell where a pop goes.
pub fn needs_route(broker_name: Option<&str>, addr: Option<&str>) -> (r: bool)
    ensures
        r == !target_given(opt_ref(broker_name), opt_ref(addr)),
{
    match (broker_name, addr) {
        (Some(b), Some(_)) => b.is_empty(),
        _ => true,
    }
}

/// Where a pop goes: address and broker. What the caller does not give comes from the first
/// broker in the route of the topic; where both are given, no route is needed.
pub fn pop_target(
    route: Option<&TopicRouteData>,
    topic: &str,
    broker_name: Option<&str>,
    addr: Option<&str>,
) -> (r: Result<(String, String), Error>)
    ensures
        ({
            let named = opt_ref(broker_name) is Some && opt_ref(broker_name)->0.len() > 0;
            if target_given(opt_ref(broker_name), opt_ref(addr)) {
                r matches Ok((a, b)) && a@ == addr->0@ && b@ == broker_name->0@
            } else {
                match route {
                    None => r matches Err(e) && is_client(e, None, no_route(topic@)),
                    Some(rt) => if rt.broker_datas@.len() == 0 {
                        r matches Err(e) && is_client(e, None, "No broker in route of topic: "@ + topic@)
                    } else {
                        let first = rt.broker_datas@[0];
                        match r {
                            Ok((a, b)) => {
                                &&& match addr {
                                    Some(given) => a@ == given@,
                                    None => first.broker_addrs@.len() > 0 && may_use(first.broker_addrs@, a@),
                                }
                                &&& b@ == if named {
                                    broker_name->0@
                                } else {
                                    first.broker_name@
                                }
                            },
                            Err(e) => addr is None && first.broker_addrs@.len() == 0 && is_client(
                                e,
                                None,
                                "No available broker addr for topic: "@ + topic@,
                            ),
                        }
                    },
                }
            }
        }),
{
    let named: Option<&str> = match broker_name {
        Some(b) if !b.is_empty() => Some(b),
        _ => None,
    };
    if let (Some(a), Some(b)) = (addr, named) {
        return Ok((a.to_owned(), b.to_owned()));
    }
    let rt = match route {
        None => {
            return Err(no_route_error(topic));
        },
        Some(rt) => rt,
    };
    if rt.broker_datas.len() == 0 {
        return Err(Error::client("No broker in route of topic: ".to_owned().concat(topic).as_str()));
    }
    let first = &rt.broker_datas[0];
    let broker = match named {
        Some(b) => b.to_owned(),
        None => first.broker_name.clone(),
    };
    let place = match addr {
        Some(a) => a.to_owned(),
        None => match first.select_broker_addr() {
            Some(a) => a,
            None => {
                return Err(
                    Error::client(
                        "No available broker addr for topic: ".to_owned().concat(topic).as_str(),
                    ),
                );
            },
        },
    };
    Ok((place, broker))
}

/// The route of the default topic as that of a topic which is yet to be made: no more queues
/// than a new topic gets.
pub open spec fn capped(q: QueueData) -> QueueData {
    QueueData {
        write_queue_nums: if q.write_queue_nums > DEFAULT_TOPIC_QUEUE_NUMS {
            DEFAULT_TOPIC_QUEUE_NUMS
        } else {
            q.write_queue_nums
        },
        read_queue_nums: if q.read_queue_nums > DEFAULT_TOPIC_QUEUE_NUMS {
            DEFAULT_TOPIC_QUEUE_NUMS
        } else {
            q.read_queue_nums
        },
        ..q
    }
}

pub fn cap_default_route(route: &mut TopicRouteData)
    ensures
        final(route).queue_datas@.len() == old(route).queue_datas@.len(),
        forall|i: int|
            0 <= i < old(route).queue_datas@.len() ==> #[trigger] final(route).queue_datas@[i] == capped(
                old(route).queue_datas@[i],
            ),
        *final(route) == (TopicRouteData { queue_datas: final(route).queue_datas, ..*old(route) }),
{
    let ghost start = *route;
    let mut i: usize = 0;
    while i < route.queue_datas.len()
        invariant
            start == *old(route),
            i <= route.queue_datas@.len(),
            route.queue_datas@.len() == start.queue_datas@.len(),
            *route == (TopicRouteData { queue_datas: route.queue_datas, ..start }),
            forall|j: int|
                0 <= j < i ==> #[trigger] route.queue_datas@[j] == capped(start.queue_datas@[j]),
            forall|j: int|
                i <= j < start.queue_datas@.len() ==> #[trigger] route.queue_datas@[j] == start.queue_datas@[j],
        decreases route.queue_datas@.len() - i,
    {
        let q = &mut route.queue_datas[i];
        if q.write_queue_nums > DEFAULT_TOPIC_QUEUE_NUMS {
            q.write_queue_nums = DEFAULT_TOPIC_QUEUE_NUMS;
        }
        if q.read_queue_nums > DEFAULT_TOPIC_QUEUE_NUMS {
            q.read_queue_nums = DEFAULT_TOPIC_QUEUE_NUMS;
        }
        i = i + 1;
    }
}

/// One of the addresses that `picks` fall on, one for each of a list of brokers.
pub open spec fn drawn(brokers: Seq<BrokerData>, picks: Seq<usize>, a: Seq<char>) -> bool {
    exists|i: int|
        0 <= i < brokers.len() && #[trigger] preferred_addr(brokers[i].broker_addrs@, picks[i]) == Some(a)
}

/// What was added to a set is the address that each pick falls on.
pub open spec fn adds_drawn(
    before: Set<Seq<char>>,
    after: Set<Seq<char>>,
    brokers: Seq<BrokerData>,
    picks: Seq<usize>,
) -> bool {
    &&& picks.len() == brokers.len()
    &&& forall|a: Seq<char>| #[trigger] after.contains(a) <==> before.contains(a) || drawn(brokers, picks, a)
}

/// All addresses of a list of brokers that are not empty.
pub open spec fn listed_of(brokers: Seq<BrokerData>, a: Seq<char>) -> bool {
    a.len() > 0 && exists|i: int, j: int|
        0 <= i < brokers.len() && 0 <= j < brokers[i].broker_addrs@.len()
            && #[trigger] brokers[i].broker_addrs@[j].1@ == a
}

/// Adds one address of each broker of a route to a set, the one to use of it.
pub fn add_preferred(set: &mut Table<()>, route: &TopicRouteData)
    ensures
        exists|picks: Seq<usize>| #[trigger]
            adds_drawn(old(set)@.dom(), final(set)@.dom(), route.broker_datas@, picks),
{
    let mut i: usize = 0;
    let ghost brokers = route.broker_datas@;
    let ghost mut picks: Seq<usize> = Seq::empty();
    assert(adds_drawn(old(set)@.dom(), set@.dom(), brokers.subrange(0, 0), picks));
    while i < route.broker_datas.len()
        invariant
            brokers == route.broker_datas@,
            i <= brokers.len(),
            adds_drawn(old(set)@.dom(), set@.dom(), brokers.subrange(0, i as int), picks),
        decreases brokers.len() - i,
    {
        let ghost before = set@;
        let got = route.broker_datas[i].select_broker_addr();
        let ghost g = opt(got);
        let ghost pick: usize = if g is Some {
            choose|pick: usize| #[trigger] preferred_addr(brokers[i as int].broker_addrs@, pick) == g
        } else {
            0
        };
        if let Some(a) = got {
            set.insert(a, ());
        }
        proof {
            assert(preferred_addr(brokers[i as int].broker_addrs@, pick) == g);
            let part = brokers.subrange(0, i as int);
            let next = brokers.subrange(0, i + 1);
            let more = picks.push(pick);
            assert forall|a: Seq<char>| #[trigger] set@.dom().contains(a) <==> old(set)@.dom().contains(a)
                || drawn(next, more, a) by {
                if drawn(part, picks, a) {
                    let k = choose|k: int|
                        0 <= k < part.len() && #[trigger] preferred_addr(part[k].broker_addrs@, picks[k]) == Some(a);
                    assert(preferred_addr(next[k].broker_addrs@, more[k]) == Some(a));
                }
                if drawn(next, more, a) {
                    let k = choose|k: int|
                        0 <= k < next.len() && #[trigger] preferred_addr(next[k].broker_addrs@, more[k]) == Some(a);
                    if k < i {
                        assert(preferred_addr(part[k].broker_addrs@, picks[k]) == Some(a));
                    }
                }
                if g == Some(a) {
                    assert(preferred_addr(next[i as int].broker_addrs@, more[i as int]) == Some(a));
                }
                assert(before.dom().contains(a) <==> old(set)@.dom().contains(a) || drawn(part, picks, a));
            }
            picks = more;
        }
        i = i + 1;
    }
    assert(brokers.subrange(0, i as int) =~= brokers);
}

/// What was added to a set is every address that is listed and not empty.
pub open spec fn adds_listed(before: Set<Seq<char>>, after: Set<Seq<char>>, brokers: Seq<BrokerData>) -> bool {
    forall|a: Seq<char>| #[trigger] after.contains(a) <==> before.contains(a) || listed_of(brokers, a)
}

/// Adds every address of each broker of a route to a set, except empty ones.
pub fn add_listed(set: &mut Table<()>, route: &TopicRouteData)
    ensures
        adds_listed(old(set)@.dom(), final(set)@.dom(), route.broker_datas@),
        forall|a: Seq<char>| #[trigger]
            final(set)@.dom().contains(a) <==> old(set)@.dom().contains(a) || listed_of(
                route.broker_datas@,
                a,
            ),
{
    let ghost brokers = route.broker_datas@;
    let mut i: usize = 0;
    while i < route.broker_datas.len()
        invariant
            brokers == route.broker_datas@,
            i <= brokers.len(),
            forall|a: Seq<char>| #[trigger]
                set@.dom().contains(a) ==> old(set)@.dom().contains(a) || listed_of(brokers, a),
            forall|a: Seq<char>| #[trigger] old(set)@.dom().contains(a) ==> set@.dom().contains(a),
            forall|k: int, l: int|
                0 <= k < i && 0 <= l < brokers[k].broker_addrs@.len()
                    && (#[trigger] brokers[k].broker_addrs@[l]).1@.len() > 0 ==> set@.dom().contains(
                    brokers[k].broker_addrs@[l].1@,
                ),
        decreases brokers.len() - i,
    {
        let addrs = &route.broker_datas[i].broker_addrs;
        let mut j: usize = 0;
        while j < addrs.len()
            invariant
                brokers == route.broker_datas@,
                i < brokers.len(),
                addrs@ == brokers[i as int].broker_addrs@,
                j <= addrs@.len(),
                forall|a: Seq<char>| #[trigger]
                    set@.dom().contains(a) ==> old(set)@.dom().contains(a) || listed_of(brokers, a),
                forall|a: Seq<char>| #[trigger] old(set)@.dom().contains(a) ==> set@.dom().contains(a),
                forall|k: int, l: int|
                    0 <= k < i && 0 <= l < brokers[k].broker_addrs@.len()
                        && (#[trigger] brokers[k].broker_addrs@[l]).1@.len() > 0 ==> set@.dom().contains(
                        brokers[k].broker_addrs@[l].1@,
                    ),
                forall|l: int|
                    0 <= l < j && (#[trigger] addrs@[l]).1@.len() > 0 ==> set@.dom().contains(addrs@[l].1@),
            decreases addrs@.len() - j,
        {
            if !addrs[j].1.as_str().is_empty() {
                let ghost a = addrs@[j as int].1@;
                assert(brokers[i as int].broker_addrs@[j as int].1@ == a);
                assert(listed_of(brokers, a));
                set.insert(addrs[j].1.clone(), ());
            }
            j = j + 1;
        }
        i = i + 1;
    }
    assert forall|a: Seq<char>| #[trigger] set@.dom().contains(a) <==> old(set)@.dom().contains(a)
        || listed_of(brokers, a) by {
        if listed_of(brokers, a) {
            let (k, l) = choose|k: int, l: int|
                0 <= k < brokers.len() && 0 <= l < brokers[k].broker_addrs@.len()
                    && #[trigger] brokers[k].broker_addrs@[l].1@ == a;
            assert(brokers[k].broker_addrs@[l].1@.len() > 0);
        }
    }
}

proof fn lemma_broker_place(brokers: Seq<BrokerData>, name: Seq<char>, from: int)
    requires
        0 <= from <= brokers.len(),
    ensures
        ({
            let p = broker_place(brokers, name, from);
            &&& p >= 0 ==> from <= p < brokers.len() && brokers[p].broker_name@ == name && forall|j: int|
                from <= j < p ==> (#[trigger] brokers[j]).broker_name@ != name
            &&& p < 0 ==> forall|j: int| from <= j < brokers.len() ==> (#[trigger] brokers[j]).broker_name@ != name
        }),
    decreases brokers.len() - from,
{
    if from < brokers.len() && brokers[from].broker_name@ != name {
        lemma_broker_place(brokers, name, from + 1);
    }
}

/// A broker is found in a route by its name, the first of that name, at an address that may be
/// used of it; it is not found where no broker has the name, or the first has no address.
pub proof fn law_broker_is_found_by_name(route: &TopicRouteData, name: &str, r: Option<String>, i: int)
    requires
        call_ensures(find_broker_addr_in_route, (route, name), r),
        0 <= i < route.broker_datas@.len(),
        route.broker_datas@[i].broker_name@ == name@,
        forall|j: int| 0 <= j < i ==> (#[trigger] route.broker_datas@[j]).broker_name@ != name@,
    ensures
        r is Some <==> route.broker_datas@[i].broker_addrs@.len() > 0,
        r matches Some(a) ==> may_use(route.broker_datas@[i].broker_addrs@, a@),
{
    lemma_broker_place(route.broker_datas@, name@, 0);
}

/// A broker whose name is not in a route is not found.
pub proof fn law_unknown_broker_is_not_found(route: &TopicRouteData, name: &str, r: Option<String>)
    requires
        call_ensures(find_broker_addr_in_route, (route, name), r),
        forall|j: int| 0 <= j < route.broker_datas@.len() ==> (#[trigger] route.broker_datas@[j]).broker_name@ != name@,
    ensures
        r is None,
{
    lemma_broker_place(route.broker_datas@, name@, 0);
}

/// The address for a queue is that of its broker in the route of its topic; without a route, or
/// without that broker in it, there is none.
pub proof fn law_queue_is_reached_at_its_broker(
    route: Option<&TopicRouteData>,
    mq: &MessageQueue,
    r: Result<String, Error>,
    name: &str,
    found: Option<String>,
)
    requires
        call_ensures(broker_addr, (route, mq), r),
        name@ == mq.broker_name@,
        route matches Some(rt) ==> call_ensures(find_broker_addr_in_route, (rt, name), found),
    ensures
        r is Ok <==> route is Some && found is Some,
        r is Err ==> r->Err_0 is Client,
        route is None ==> is_client(r->Err_0, None, "No route info of this topic: "@ + mq.topic@),
{
}

/// The address for a topic is that of the broker that is named, or of the first of its route where
/// none is named.
pub proof fn law_topic_is_reached_at_the_first_broker(
    route: Option<&TopicRouteData>,
    topic: &str,
    name: Option<&str>,
    r: Result<String, Error>,
    found: Option<String>,
)
    requires
        call_ensures(addr_for, (route, topic, name), r),
        route is Some && name is Some ==> call_ensures(find_broker_addr_in_route, (route->0, name->0), found),
    ensures
        route is None ==> r is Err,
        route is Some && name is Some && name->0@.len() > 0 ==> (r is Ok <==> found is Some),
        route is Some && (name is None || name->0@.len() == 0) ==> {
            let brokers = route->0.broker_datas@;
            &&& r is Ok <==> brokers.len() > 0 && brokers[0].broker_addrs@.len() > 0
            &&& r matches Ok(a) ==> may_use(brokers[0].broker_addrs@, a@)
        },
        r is Err ==> r->Err_0 is Client,
{
}

/// A pop goes where it is told; what it is not told comes from the first broker of the route. It
/// needs no route where it is told both, and fails without one where it is not.
pub proof fn law_pop_goes_where_it_is_told(
    route: Option<&TopicRouteData>,
    topic: &str,
    broker: Option<&str>,
    addr: Option<&str>,
    r: Result<(String, String), Error>,
    needed: bool,
)
    requires
        call_ensures(pop_target, (route, topic, broker, addr), r),
        call_ensures(needs_route, (broker, addr), needed),
    ensures
        needed == !(addr is Some && broker is Some && broker->0@.len() > 0),
        !needed ==> r is Ok,
        needed && (route is None || route->0.broker_datas@.len() == 0) ==> r is Err,
        r matches Ok((a, b)) ==> {
            &&& addr matches Some(x) ==> a@ == x@
            &&& broker matches Some(x) ==> (x@.len() > 0 ==> b@ == x@)
            &&& addr is None ==> may_use(route->0.broker_datas@[0].broker_addrs@, a@)
            &&& broker is None || broker->0@.len() == 0 ==> b@ == route->0.broker_datas@[0].broker_name@
        },
        r is Err ==> r->Err_0 is Client,
{
}

/// A route that is cut down has no more than four queues to read and to write on any broker, as
/// many as before where that was no more, and the same brokers in the same order.
pub proof fn law_cut_down_route(route: &mut TopicRouteData, i: int)
    requires
        call_ensures(cap_default_route, (route,), ()),
        0 <= i < old(route).queue_datas@.len(),
    ensures
        final(route).queue_datas@.len() == old(route).queue_datas@.len(),
        ({
            let a = old(route).queue_datas@[i];
            let b = final(route).queue_datas@[i];
            &&& b.broker_name == a.broker_name && b.perm == a.perm && b.topic_sys_flag == a.topic_sys_flag
            &&& b.write_queue_nums <= 4 && b.read_queue_nums <= 4
            &&& a.write_queue_nums <= 4 ==> b.write_queue_nums == a.write_queue_nums
            &&& a.read_queue_nums <= 4 ==> b.read_queue_nums == a.read_queue_nums
            &&& a.write_queue_nums > 4 ==> b.write_queue_nums == 4
            &&& a.read_queue_nums > 4 ==> b.read_queue_nums == 4
        }),
        final(route).broker_datas == old(route).broker_datas && final(route).order_topic_conf
            == old(route).order_topic_conf,
{
}

/// One address of every broker goes into a set, one that may be used of it, beside what was there.
pub proof fn law_every_broker_has_an_address_in_the_set(set: &mut Table<()>, route: &TopicRouteData, a: Seq<char>, i: int)
    requires
        call_ensures(add_preferred, (set, route), ()),
    ensures
        old(set)@.dom().contains(a) ==> final(set)@.dom().contains(a),
        final(set)@.dom().contains(a) && !old(set)@.dom().contains(a) ==> exists|k: int|
            0 <= k < route.broker_datas@.len() && may_use((#[trigger] route.broker_datas@[k]).broker_addrs@, a),
        0 <= i < route.broker_datas@.len() && route.broker_datas@[i].broker_addrs@.len() > 0 ==> exists|x: Seq<char>| #[trigger]
            final(set)@.dom().contains(x) && may_use(route.broker_datas@[i].broker_addrs@, x),
{
    let brokers = route.broker_datas@;
    let picks = choose|picks: Seq<usize>| #[trigger] adds_drawn(old(set)@.dom(), final(set)@.dom(), brokers, picks);
    assert(final(set)@.dom().contains(a) <==> old(set)@.dom().contains(a) || drawn(brokers, picks, a));
    if drawn(brokers, picks, a) {
        let k = choose|k: int|
            0 <= k < brokers.len() && #[trigger] preferred_addr(brokers[k].broker_addrs@, picks[k]) == Some(a);
        assert(may_use(brokers[k].broker_addrs@, a));
    }
    if 0 <= i < brokers.len() && brokers[i].broker_addrs@.len() > 0 {
        let x = preferred_addr(brokers[i].broker_addrs@, picks[i])->0;
        assert(preferred_addr(brokers[i].broker_addrs@, picks[i]) == Some(x));
        assert(drawn(brokers, picks, x));
        assert(final(set)@.dom().contains(x));
        assert(may_use(brokers[i].broker_addrs@, x));
    }
}

/// Every address that is listed and not empty goes into a set, and nothing else.
pub proof fn law_every_listed_address_is_in_the_set(set: &mut Table<()>, route: &TopicRouteData, a: Seq<char>)
    requires
        call_ensures(add_listed, (set, route), ()),
    ensures
        final(set)@.dom().contains(a) <==> old(set)@.dom().contains(a) || (a.len() > 0 && exists|i: int, j: int|
            0 <= i < route.broker_datas@.len() && 0 <= j < route.broker_datas@[i].broker_addrs@.len()
                && #[trigger] route.broker_datas@[i].broker_addrs@[j].1@ == a),
{
    let brokers = route.broker_datas@;
    assert(adds_listed(old(set)@.dom(), final(set)@.dom(), brokers));
    if listed_of(brokers, a) {
        let (i, j) = choose|i: int, j: int|
            0 <= i < brokers.len() && 0 <= j < brokers[i].broker_addrs@.len()
                && #[trigger] brokers[i].broker_addrs@[j].1@ == a;
        assert(route.broker_datas@[i].broker_addrs@[j].1@ == a);
    }
}

} // verus!

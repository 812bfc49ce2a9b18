//! Asking name servers for the route of a topic.
use vstd::prelude::*;

use crate::client::wants_default_route;
use crate::error::Error;
use crate::lookup::{cap_default_route, capped};
use crate::message::QueueView;
use crate::names::{DEFAULT_TOPIC, DEFAULT_TOPIC_QUEUE_NUMS};
use crate::route::{all_queues, numbered, QueueData, TopicRouteData};

verus! {

/// What came of asking one name server.
#[derive(Debug)]
pub enum RouteReply {
    /// It could not be asked.
    Unreached(Error),
    /// It answered without success, or without a body.
    Unusable,
    /// It answered with a body that cannot be read.
    Unreadable(Error),
    Route(TopicRouteData),
}

/// What to do after one name server was asked.
#[derive(Debug)]
pub enum FetchStep {
    AskNext,
    Stop,
    Found(TopicRouteData),
}

/// A walk over the name servers.
#[derive(Debug)]
pub struct RouteFetch {
    /// The failure that was met last.
    pub last_exc: Option<Error>,
}

impl RouteFetch {
    pub fn new() -> (r: RouteFetch)
        ensures
            r.last_exc is None,
    {
        RouteFetch { last_exc: None }
    }

    /// Takes the answer of one name server. One that answers and has no route ends the walk;
    /// one that fails is passed over.
    pub fn take(&mut self, reply: RouteReply) -> (r: FetchStep)
        ensures
            match reply {
                RouteReply::Unreached(e) => r is AskNext && final(self).last_exc == Some(e),
                RouteReply::Unreadable(e) => r is AskNext && final(self).last_exc == Some(e),
                RouteReply::Unusable => r is Stop && *final(self) == *old(self),
                RouteReply::Route(t) => r == FetchStep::Found(t) && *final(self) == *old(self),
            },
    {
        match reply {
            RouteReply::Unreached(e) => {
                self.last_exc = Some(e);
                FetchStep::AskNext
            },
            RouteReply::Unreadable(e) => {
                self.last_exc = Some(e);
                FetchStep::AskNext
            },
            RouteReply::Unusable => FetchStep::Stop,
            RouteReply::Route(t) => FetchStep::Found(t),
        }
    }

    /// What a walk without a route comes to: a failure other than a broker's is handed on, else
    /// there is no route.
    pub fn finish(self) -> (r: Result<Option<TopicRouteData>, Error>)
        ensures
            match self.last_exc {
                Some(e) => if e is Broker {
                    r matches Ok(None)
                } else {
                    r == Err::<Option<TopicRouteData>, Error>(e)
                },
                None => r matches Ok(None),
            },
    {
        match self.last_exc {
            Some(e) => match e {
                Error::Broker { .. } => Ok(None),
                _ => Err(e),
            },
            None => Ok(None),
        }
    }
}

/// What to do with what a walk over the name servers gave.
#[derive(Debug)]
pub enum RouteStep {
    /// Walk again, for the default topic.
    AskDefault,
    /// This is the route of the topic.
    Store(TopicRouteData),
    /// The topic has no route.
    Missing,
}

/// `r` is the route of the default topic `t`, cut down for a topic that is yet to be made.
pub open spec fn cut_down(r: TopicRouteData, t: TopicRouteData) -> bool {
    &&& r == (TopicRouteData { queue_datas: r.queue_datas, ..t })
    &&& r.queue_datas@.len() == t.queue_datas@.len()
    &&& forall|i: int|
        0 <= i < t.queue_datas@.len() ==> #[trigger] r.queue_datas@[i] == capped(t.queue_datas@[i])
}

/// No queue has a number at or above `most`, where no broker has more than `most` queues.
proof fn lemma_few_queues(topic: Seq<char>, datas: Seq<QueueData>, most: i32, q: QueueView)
    requires
        forall|i: int| 0 <= i < datas.len() ==> (#[trigger] datas[i]).write_queue_nums <= most,
        all_queues(topic, datas).contains(q),
    ensures
        0 <= q.queue_id < most,
    decreases datas.len(),
{
    if datas.len() > 0 {
        let before = all_queues(topic, datas.drop_last());
        let own = numbered(topic, datas.last(), datas.last().write_queue_nums as int);
        let i = choose|i: int| 0 <= i < all_queues(topic, datas).len() && all_queues(topic, datas)[i] == q;
        if i < before.len() {
            assert(before[i] == q);
            lemma_few_queues(topic, datas.drop_last(), most, q);
        } else {
            assert(own[i - before.len()] == q);
        }
    }
}

/// A topic that goes by the route of the default topic is sent to no queue but those that a new
/// topic gets.
pub proof fn law_cut_down_queues_will_exist(r: TopicRouteData, t: TopicRouteData, topic: Seq<char>, q: QueueView)
    requires
        cut_down(r, t),
        all_queues(topic, r.queue_datas@).contains(q),
    ensures
        0 <= q.queue_id < DEFAULT_TOPIC_QUEUE_NUMS,
{
    lemma_few_queues(topic, r.queue_datas@, DEFAULT_TOPIC_QUEUE_NUMS, q);
}

/// After a walk: a topic without a route goes by the default topic where a producer asks
/// (`is_default`), and once only (`asked_default`).
pub fn route_step(topic: &str, is_default: bool, asked_default: bool, got: Option<TopicRouteData>) -> (r: RouteStep)
    ensures
        match got {
            Some(t) => r matches RouteStep::Store(s) && if asked_default {
                cut_down(s, t)
            } else {
                s == t
            },
            None => if !asked_default && is_default && topic@ != DEFAULT_TOPIC@ {
                r is AskDefault
            } else {
                r is Missing
            },
        },
{
    match got {
        Some(t) => {
            let mut route = t;
            if asked_default {
                cap_default_route(&mut route);
            }
            RouteStep::Store(route)
        },
        None => if wants_default_route(asked_default, is_default, topic) {
            RouteStep::AskDefault
        } else {
            RouteStep::Missing
        },
    }
}

/// A walk over the name servers for a route passes over one that fails and remembers why, ends at
/// one that answers without a route, and has its route at one that has it. What it comes to
/// without a route is the last failure, where that was no broker's.
pub proof fn law_walk_for_a_route(
    walk: &mut RouteFetch,
    reply: RouteReply,
    step: FetchStep,
    r: Result<Option<TopicRouteData>, Error>,
)
    requires
        call_ensures(RouteFetch::take, (walk, reply), step),
        call_ensures(RouteFetch::finish, (*final(walk),), r),
    ensures
        reply is Unreached ==> step is AskNext && final(walk).last_exc == Some(reply->Unreached_0),
        reply is Unreadable ==> step is AskNext && final(walk).last_exc == Some(reply->Unreadable_0),
        reply is Unusable ==> step is Stop && final(walk).last_exc == old(walk).last_exc,
        reply is Route ==> step == FetchStep::Found(reply->Route_0),
        final(walk).last_exc is None ==> (r matches Ok(None)),
        final(walk).last_exc matches Some(e) ==> (e is Broker ==> (r matches Ok(None))) && (!(e is Broker) ==> r == Err::<
            Option<TopicRouteData>,
            Error,
        >(e)),
{
}

/// A topic without a route of its own goes by the default topic's where a producer asks, once; a
/// route of its own is taken as it is, and one of the default topic is cut down to four queues on
/// each broker, with the same brokers.
pub proof fn law_missing_topic_goes_by_the_default(
    topic: &str,
    is_default: bool,
    asked_default: bool,
    got: Option<TopicRouteData>,
    r: RouteStep,
    i: int,
)
    requires
        call_ensures(route_step, (topic, is_default, asked_default, got), r),
    ensures
        got is Some && !asked_default ==> r == RouteStep::Store(got->0),
        got is Some && asked_default ==> (r matches RouteStep::Store(s) && s.broker_datas == got->0.broker_datas
            && s.queue_datas@.len() == got->0.queue_datas@.len() && (0 <= i < s.queue_datas@.len() ==> {
            let a = got->0.queue_datas@[i];
            let b = s.queue_datas@[i];
            &&& b.broker_name == a.broker_name
            &&& b.write_queue_nums == if a.write_queue_nums > 4 {
                4
            } else {
                a.write_queue_nums
            }
            &&& b.read_queue_nums == if a.read_queue_nums > 4 {
                4
            } else {
                a.read_queue_nums
            }
        })),
        got is None ==> (r is AskDefault <==> is_default && !asked_default && topic@ != "TBW102"@),
        got is None ==> (r is Missing <==> !is_default || asked_default || topic@ == "TBW102"@),
{
}

} // verus!

//! Messages in transactions, and several messages as one.
use vstd::prelude::*;

use crate::client::MQClientInstance;
use crate::config::ProducerConfig;
use crate::error::{error_code, error_text, is_client, Error};
use crate::hooks::{forbidden_delay_keys, has_any, has_any_property, transaction_forbidden_delay_keys, EndTransactionContext};
use crate::lookup::addr_in_route;
use crate::message::{
    body_bytes, copy_opt, opt, prop, props, same_message, Message, MessageBatch, MessageExt, MessageQueue,
    PROPERTY_DELAY_TIME_LEVEL, PROPERTY_PRODUCER_GROUP, PROPERTY_TRANSACTION_ID, PROPERTY_TRANSACTION_PREPARED,
    PROPERTY_UNIQ_KEY, PROPERTY_WAIT_STORE_MSG_OK,
};
use crate::client::knowing_route;
use crate::names::{blank, check_message, in_namespace, is_retry_topic, message_fault, RETRY_PREFIX};
use crate::producer::{fresh_producer, is_fault, not_started, DefaultMQProducer};
use crate::protocol::{
    CheckTransactionStateRequestHeader, EndTransactionRequestHeader, RecallMessageRequestHeader,
};
use crate::publish::{advanced, any_queue, no_filters, TopicPublishInfo};
use crate::result::{LocalTransactionState, SendResult, SendStatus, TransactionSendResult};
use crate::route::{may_use, BrokerData};
use crate::sysflag::{
    reset_transaction_value, TRANSACTION_COMMIT_TYPE, TRANSACTION_NOT_TYPE, TRANSACTION_PREPARED_TYPE,
    TRANSACTION_ROLLBACK_TYPE,
};
use crate::text::{begins_with, parse_i32, parsed_int, same, same_small, lowered};

verus! {

/// Does the work that a transactional message is about.
pub trait TransactionListener: Send + Sync + 'static {
    /// What the sender hands to the work.
    type Arg;

    /// Does the work, once the message is stored.
    fn execute_local_transaction(&self, msg: &Message, arg: Option<&Self::Arg>) -> LocalTransactionState;

    /// Says what came of the work, when a broker asks.
    fn check_local_transaction(&self, msg: &MessageExt) -> LocalTransactionState;
}

/// Takes traces of messages.
pub trait TraceDispatcherChannel: Send + Sync {
    /// What a trace says.
    type Context;

    fn start(&self, name_server_addr: &str) -> Result<(), Error>;

    fn shutdown(&self);

    fn trace_topic_name(&self) -> String;

    /// Whether it took the trace.
    fn report(&self, context: Self::Context) -> bool;

    fn client_id(&self) -> String;
}

/// What a broker is told of a transaction.
pub open spec fn flag_of(state: LocalTransactionState) -> i32 {
    match state {
        LocalTransactionState::CommitMessage => TRANSACTION_COMMIT_TYPE,
        LocalTransactionState::RollbackMessage => TRANSACTION_ROLLBACK_TYPE,
        LocalTransactionState::Unknow => TRANSACTION_NOT_TYPE,
    }
}

/// The flag of the first half of a transactional message.
pub fn half_flag(sys_flag: i32) -> (r: i32)
    ensures
        r == (sys_flag & !12i32) | TRANSACTION_PREPARED_TYPE,
{
    reset_transaction_value(sys_flag, TRANSACTION_PREPARED_TYPE)
}

/// The failure of a transactional message whose first half could not be sent.
pub fn half_failure(e: &Error) -> (r: Error)
    ensures
        is_client(r, None, "send message Exception: "@ + error_text(*e)),
{
    Error::client("send message Exception: ".to_owned().concat(e.text().as_str()).as_str())
}

/// The message as the listener gets to see it once its first half is stored: it carries the
/// transaction that the broker named, and is known by its own id.
pub open spec fn as_stored(before: Message, after: Message, sent: SendResult) -> bool {
    &&& props(after.properties) == match sent.transaction_id {
        Some(id) => props(before.properties).insert(PROPERTY_TRANSACTION_ID@, id@),
        None => props(before.properties),
    }
    &&& opt(after.transaction_id) == match prop(after.properties, PROPERTY_UNIQ_KEY@) {
        Some(id) => Some(id),
        None => opt(before.transaction_id),
    }
    &&& after == (Message {
        properties: after.properties,
        transaction_id: after.transaction_id,
        ..before
    })
}

/// Notes in a message what the broker said of its first half.
fn note_stored(msg: &mut Message, sent: &SendResult)
    ensures
        as_stored(*old(msg), *final(msg), *sent),
{
    if let Some(id) = &sent.transaction_id {
        msg.put_property(PROPERTY_TRANSACTION_ID, id.as_str());
    }
    let uniq: Option<String> = match msg.get_property(PROPERTY_UNIQ_KEY) {
        Some(u) => Some(u.to_owned()),
        None => None,
    };
    if uniq.is_some() {
        msg.transaction_id = uniq;
    }
}

/// What becomes of a transaction after its first half was sent: where that is stored well, the
/// listener does its work and says; where it is not, the transaction is rolled back.
pub fn local_state<T: TransactionListener>(
    listener: &T,
    msg: &mut Message,
    sent: &SendResult,
    arg: Option<&T::Arg>,
) -> (r: LocalTransactionState)
    ensures
        if sent.status == SendStatus::SendOk {
            as_stored(*old(msg), *final(msg), *sent) && call_ensures(
                T::execute_local_transaction,
                (listener, &*final(msg), arg),
                r,
            )
        } else {
            r == LocalTransactionState::RollbackMessage && *final(msg) == *old(msg)
        },
{
    match sent.status {
        SendStatus::SendOk => {
            note_stored(msg, sent);
            listener.execute_local_transaction(msg, arg)
        },
        _ => LocalTransactionState::RollbackMessage,
    }
}

/// What a transactional send gives.
pub fn transaction_result(sent: SendResult, state: LocalTransactionState) -> (r: TransactionSendResult)
    ensures
        r.inner == sent,
        r.local_transaction_state == Some(state),
{
    TransactionSendResult { local_transaction_state: Some(state), inner: sent }
}

/// How a transaction ends: by its sender, or because a broker asked.
pub enum TxnEnd<'a> {
    Normal { send_result: &'a SendResult, msg: &'a Message },
    Check {
        header: &'a CheckTransactionStateRequestHeader,
        msg_ext: &'a MessageExt,
        broker_addr: &'a String,
    },
}

/// The id that says where a message is stored.
pub open spec fn stored_id(s: SendResult) -> Option<Seq<char>> {
    match s.offset_msg_id {
        Some(id) => Some(id@),
        None => opt(s.msg_id),
    }
}

/// The broker that stored a message.
pub open spec fn stored_at(s: SendResult) -> Seq<char> {
    match s.message_queue {
        Some(mq) => mq.broker_name@,
        None => Seq::empty(),
    }
}

/// An instance knows where a broker listens.
pub open spec fn knows_broker<C>(i: MQClientInstance<C>, broker: Seq<char>) -> bool {
    knowing_route(i.topic_route_table.values(), broker, 0) >= 0
}

/// The address may be used of a broker, as an instance knows it.
pub open spec fn known_addr<C>(i: MQClientInstance<C>, broker: Seq<char>, a: Seq<char>) -> bool {
    let routes = i.topic_route_table.values();
    knows_broker(i, broker) && addr_in_route(routes[knowing_route(routes, broker, 0)], broker, a)
}

/// `offset_of` may give `out` for `id`.
pub open spec fn decoded<F: Fn(&str) -> Result<i64, Error>>(offset_of: F, id: Seq<char>, out: Result<i64, Error>) -> bool {
    exists|s: &str| s@ == id && #[trigger] call_ensures(offset_of, (s,), out)
}

/// The header is what a broker is told at the end of a transaction by its sender.
pub open spec fn ends_own(h: EndTransactionRequestHeader, s: SendResult, m: Message, offset: i64) -> bool {
    &&& h.commit_log_offset == Some(offset)
    &&& h.tran_state_table_offset == Some(s.queue_offset)
    &&& h.transaction_id == s.transaction_id
    &&& opt(h.broker_name) == Some(stored_at(s))
    &&& opt(h.topic) == Some(m.topic@)
    &&& h.msg_id == s.msg_id
}

/// The header is what a broker is told at the end of a transaction that it asked about.
pub open spec fn ends_asked(h: EndTransactionRequestHeader, c: CheckTransactionStateRequestHeader, m: MessageExt) -> bool {
    &&& h.commit_log_offset == c.commit_log_offset
    &&& h.tran_state_table_offset == c.tran_state_table_offset
    &&& h.transaction_id == c.transaction_id
    &&& h.broker_name == c.broker_name
    &&& h.topic == c.topic
    &&& opt(h.msg_id) == match prop(m.properties, PROPERTY_UNIQ_KEY@) {
        Some(id) => Some(id),
        None => opt(m.msg_id),
    }
}

/// `r` is what comes of ending a transaction by its sender.
pub open spec fn own_end<C, F: Fn(&str) -> Result<i64, Error>>(
    r: Result<(String, EndTransactionRequestHeader), Error>,
    instance: MQClientInstance<C>,
    s: SendResult,
    m: Message,
    offset_of: F,
) -> bool {
    match stored_id(s) {
        None => r matches Err(e) && is_client(e, None, "send result has no message id"@),
        Some(id) => exists|out: Result<i64, Error>| #[trigger]
            decoded(offset_of, id, out) && placed_end(r, instance, s, m, out),
    }
}

/// `r` is what comes of it, once the place of the message is known or not.
pub open spec fn placed_end<C>(
    r: Result<(String, EndTransactionRequestHeader), Error>,
    instance: MQClientInstance<C>,
    s: SendResult,
    m: Message,
    place: Result<i64, Error>,
) -> bool {
    match place {
        Err(e) => r == Err::<(String, EndTransactionRequestHeader), Error>(e),
        Ok(offset) => match r {
            Ok((addr, h)) => known_addr(instance, stored_at(s), addr@) && ends_own(h, s, m, offset),
            Err(e) => !knows_broker(instance, stored_at(s)) && is_client(
                e,
                None,
                "no broker address for end transaction"@,
            ),
        },
    }
}

impl<L> DefaultMQProducer<L> {
    /// What a broker is told of a transaction.
    pub fn transaction_flag(state: LocalTransactionState) -> (r: i32)
        ensures
            r == flag_of(state),
    {
        match state {
            LocalTransactionState::CommitMessage => TRANSACTION_COMMIT_TYPE,
            LocalTransactionState::RollbackMessage => TRANSACTION_ROLLBACK_TYPE,
            LocalTransactionState::Unknow => TRANSACTION_NOT_TYPE,
        }
    }

    /// Makes a message the first half of a transaction. The listener that is given, or the one
    /// that was set, is from now on the one that brokers' questions go to. A message that is
    /// delayed cannot be in a transaction.
    pub fn prepare_transaction(&mut self, msg: &mut Message, listener: Option<L>) -> (r: Result<(), Error>)
        ensures
            ({
                let named = Message { topic: final(msg).topic, ..*old(msg) };
                let fault = message_fault(named, old(self).cfg.max_message_size);
                let nobody = listener is None && old(self).transaction_listener is None;
                match r {
                    Ok(_) => {
                        &&& !nobody && !has_any(*old(msg), forbidden_delay_keys()) && old(self).ready() && fault is None
                        &&& final(msg).topic@ == in_namespace(old(self).cfg.namespace@, old(msg).topic@)
                        &&& props(final(msg).properties) == props(old(msg).properties).insert(
                            PROPERTY_TRANSACTION_PREPARED@,
                            "true"@,
                        ).insert(PROPERTY_PRODUCER_GROUP@, old(self).cfg.producer_group@)
                        &&& *final(msg) == (Message { properties: final(msg).properties, ..named })
                        &&& *final(self) == (DefaultMQProducer {
                            transaction_listener: match listener {
                                Some(l) => Some(l),
                                None => old(self).transaction_listener,
                            },
                            ..*old(self)
                        })
                    },
                    Err(e) => *final(self) == *old(self) && if nobody {
                        is_client(e, None, "tranExecutor is null"@) && *final(msg) == *old(msg)
                    } else {
                        &&& final(msg).topic@ == in_namespace(old(self).cfg.namespace@, old(msg).topic@)
                        &&& *final(msg) == named
                        &&& if has_any(*old(msg), forbidden_delay_keys()) {
                            is_client(e, None, "Transactional messages do not support delayed delivery"@)
                        } else if !old(self).ready() {
                            not_started(e)
                        } else {
                            is_fault(e, fault)
                        }
                    },
                }
            }),
    {
        if listener.is_none() && self.transaction_listener.is_none() {
            return Err(Error::client("tranExecutor is null"));
        }
        let topic = self.with_namespace(msg.topic.as_str());
        msg.topic = topic;
        if has_any_property(msg, &transaction_forbidden_delay_keys()) {
            return Err(Error::client("Transactional messages do not support delayed delivery"));
        }
        if let Err(e) = self.require_client() {
            return Err(e);
        }
        if let Err(e) = self.check_message(msg) {
            return Err(e);
        }
        msg.put_property(PROPERTY_TRANSACTION_PREPARED, "true");
        let group = self.producer_group();
        msg.put_property(PROPERTY_PRODUCER_GROUP, group.as_str());
        if listener.is_some() {
            self.transaction_listener = listener;
        }
        Ok(())
    }

    /// What a broker is told at the end of a transaction, and at which address. `offset_of`
    /// reads the place of a message out of its id.
    pub fn end_transaction<C, F: Fn(&str) -> Result<i64, Error>>(
        &self,
        instance: &MQClientInstance<C>,
        end: &TxnEnd<'_>,
        state: LocalTransactionState,
        from_transaction_check: bool,
        offset_of: F,
    ) -> (r: Result<(String, EndTransactionRequestHeader), Error>)
        requires
            forall|s: &str| #[trigger] call_requires(offset_of, (s,)),
        ensures
            r matches Ok((_, h)) ==> {
                &&& opt(h.producer_group) == Some(self.cfg.producer_group@)
                &&& h.commit_or_rollback == Some(flag_of(state))
                &&& h.from_transaction_check == Some(from_transaction_check)
            },
            match *end {
                TxnEnd::Check { header, msg_ext, broker_addr } => r matches Ok((addr, h)) && addr@ == broker_addr@
                    && ends_asked(h, *header, *msg_ext),
                TxnEnd::Normal { send_result, msg } => own_end(r, *instance, *send_result, *msg, offset_of),
            },
    {
        match end {
            TxnEnd::Check { header, msg_ext, broker_addr } => {
                let msg_id: Option<String> = match msg_ext.get_property(PROPERTY_UNIQ_KEY) {
                    Some(u) => Some(u.to_owned()),
                    None => copy_opt(&msg_ext.msg_id),
                };
                let h = EndTransactionRequestHeader {
                    topic: copy_opt(&header.topic),
                    producer_group: Some(self.producer_group()),
                    tran_state_table_offset: header.tran_state_table_offset,
                    commit_log_offset: header.commit_log_offset,
                    commit_or_rollback: Some(DefaultMQProducer::<L>::transaction_flag(state)),
                    from_transaction_check: Some(from_transaction_check),
                    msg_id,
                    transaction_id: copy_opt(&header.transaction_id),
                    broker_name: copy_opt(&header.broker_name),
                };
                let addr: String = (*broker_addr).clone();
                Ok((addr, h))
            },
            TxnEnd::Normal { send_result, msg } => {
                let id: String = match &send_result.offset_msg_id {
                    Some(i) => i.clone(),
                    None => match &send_result.msg_id {
                        Some(i) => i.clone(),
                        None => {
                            return Err(Error::client("send result has no message id"));
                        },
                    },
                };
                let out = offset_of(id.as_str());
                assert(stored_id(**send_result) == Some(id@));
                assert(decoded(offset_of, id@, out));
                let ghost place = out;
                let broker: String = match &send_result.message_queue {
                    Some(mq) => mq.broker_name.clone(),
                    None => String::new(),
                };
                let got = match out {
                    Ok(offset) => match instance.broker_addr_of(broker.as_str()) {
                        Some(addr) => {
                            let h = EndTransactionRequestHeader {
                                topic: Some(msg.topic.clone()),
                                producer_group: Some(self.producer_group()),
                                tran_state_table_offset: Some(send_result.queue_offset),
                                commit_log_offset: Some(offset),
                                commit_or_rollback: Some(DefaultMQProducer::<L>::transaction_flag(state)),
                                from_transaction_check: Some(from_transaction_check),
                                msg_id: copy_opt(&send_result.msg_id),
                                transaction_id: copy_opt(&send_result.transaction_id),
                                broker_name: Some(broker),
                            };
                            Ok((addr, h))
                        },
                        None => Err(Error::client("no broker address for end transaction")),
                    },
                    Err(e) => Err(e),
                };
                assert(placed_end(got, *instance, **send_result, **msg, place));
                assert(decoded(offset_of, stored_id(**send_result)->0, place));
                assert(own_end(got, *instance, **send_result, **msg, offset_of));
                got
            },
        }
    }

    /// What the hooks at the end of a transaction are told.
    pub fn end_context(
        &self,
        end: &TxnEnd<'_>,
        header: &EndTransactionRequestHeader,
        broker_addr: &str,
        state: LocalTransactionState,
        from_transaction_check: bool,
    ) -> (r: EndTransactionContext)
        ensures
            r.producer_group == self.cfg.producer_group,
            r.message is Some && match *end {
                TxnEnd::Normal { send_result, msg } => same_message(r.message->0, *msg),
                TxnEnd::Check { header, msg_ext, broker_addr } => {
                    let m = r.message->0;
                    &&& m.topic@ == msg_ext.topic@
                    &&& m.flag == msg_ext.flag
                    &&& props(m.properties) == props(msg_ext.properties)
                    &&& (m.body is Some) == (msg_ext.body is Some)
                    &&& body_bytes(m.body) == body_bytes(msg_ext.body)
                    &&& m.transaction_id == msg_ext.transaction_id
                },
            },
            r.broker_addr@ == broker_addr@,
            r.msg_id == header.msg_id,
            r.transaction_id == header.transaction_id,
            r.transaction_state == Some(state),
            r.from_transaction_check == from_transaction_check,
            r.namespace == self.cfg.namespace,
    {
        let message = match end {
            TxnEnd::Normal { send_result: _, msg } => (*msg).clone(),
            TxnEnd::Check { header: _, msg_ext, broker_addr: _ } => msg_ext.to_message(),
        };
        EndTransactionContext {
            producer_group: self.producer_group(),
            message: Some(message),
            broker_addr: broker_addr.to_owned(),
            msg_id: copy_opt(&header.msg_id),
            transaction_id: copy_opt(&header.transaction_id),
            transaction_state: Some(state),
            from_transaction_check,
            namespace: self.cfg.namespace.clone(),
        }
    }

    /// A broker asks about a transaction: the listener that answers. There is none where the
    /// message cannot be read (`None`), is another group's, or nobody listens.
    pub fn handle_check_transaction_state(&self, msg_ext: Option<&MessageExt>) -> (r: Result<Option<&L>, Error>)
        ensures
            ({
                let mine = match msg_ext {
                    Some(m) => match prop(m.properties, PROPERTY_PRODUCER_GROUP@) {
                        Some(g) => g == self.cfg.producer_group@,
                        None => true,
                    },
                    None => false,
                };
                match r {
                    Ok(Some(l)) => mine && self.transaction_listener == Some(*l) && self.ready(),
                    Ok(None) => !mine || self.transaction_listener is None,
                    Err(e) => mine && self.transaction_listener is Some && !self.ready() && not_started(e),
                }
            }),
    {
        let m = match msg_ext {
            Some(m) => m,
            None => {
                return Ok(None);
            },
        };
        if let Some(g) = m.get_property(PROPERTY_PRODUCER_GROUP) {
            if !same(g, self.cfg.producer_group.as_str()) {
                return Ok(None);
            }
        }
        match self.transaction_listener() {
            Some(l) => match self.require_client() {
                Ok(_) => Ok(Some(l)),
                Err(e) => Err(e),
            },
            None => Ok(None),
        }
    }

    /// Makes several messages one. Each is checked under its own topic, gets an id where it has
    /// none (`ids`, one for each), and goes into the namespace.
    pub fn prepare_batch(&self, msgs: Vec<Message>, ids: &Vec<String>) -> (r: Result<MessageBatch, Error>)
        requires
            ids@.len() == msgs@.len(),
        ensures
            match r {
                Ok(b) => {
                    &&& self.ready() && msgs@.len() > 0
                    &&& forall|i: int|
                        0 <= i < msgs@.len() ==> message_fault(#[trigger] msgs@[i], self.cfg.max_message_size) is None
                    &&& b.messages@.len() == msgs@.len()
                    &&& forall|i: int|
                        0 <= i < msgs@.len() ==> readied(
                            msgs@[i],
                            #[trigger] b.messages@[i],
                            ids@[i]@,
                            self.cfg.namespace@,
                        )
                    &&& batch_fault(b.messages@) is None
                    &&& is_envelope(b.message, b.messages@[0])
                },
                Err(e) => if !self.ready() {
                    not_started(e)
                } else if msgs@.len() == 0 {
                    is_client(e, None, "message list is empty"@)
                } else if all_fine(msgs@, self.cfg.max_message_size) {
                    exists|ready: Seq<Message>|
                        {
                            &&& ready.len() == msgs@.len()
                            &&& forall|i: int|
                                0 <= i < ready.len() ==> readied(
                                    msgs@[i],
                                    #[trigger] ready[i],
                                    ids@[i]@,
                                    self.cfg.namespace@,
                                )
                            &&& #[trigger] batch_fault(ready) is Some
                            &&& is_client(e, None, batch_fault(ready)->0)
                        }
                } else {
                    exists|i: int|
                        {
                            &&& 0 <= i < msgs@.len()
                            &&& is_fault(e, message_fault(#[trigger] msgs@[i], self.cfg.max_message_size))
                            &&& all_fine(msgs@.subrange(0, i), self.cfg.max_message_size)
                        }
                },
            },
    {
        if let Err(e) = self.require_client() {
            return Err(e);
        }
        if msgs.len() == 0 {
            return Err(Error::client("message list is empty"));
        }
        let mut i: usize = 0;
        while i < msgs.len()
            invariant
                i <= msgs@.len(),
                self.ready(),
                forall|j: int|
                    0 <= j < i ==> message_fault(#[trigger] msgs@[j], self.cfg.max_message_size) is None,
            decreases msgs@.len() - i,
        {
            if let Err(e) = check_message(&msgs[i], self.cfg.max_message_size) {
                assert(is_fault(e, message_fault(msgs@[i as int], self.cfg.max_message_size)));
                assert(!all_fine(msgs@, self.cfg.max_message_size));
                assert(all_fine(msgs@.subrange(0, i as int), self.cfg.max_message_size)) by {
                    assert forall|j: int| 0 <= j < i implies message_fault(
                        #[trigger] msgs@.subrange(0, i as int)[j],
                        self.cfg.max_message_size,
                    ) is None by {
                        assert(msgs@.subrange(0, i as int)[j] == msgs@[j]);
                    }
                }
                return Err(e);
            }
            i = i + 1;
        }
        let ghost given = msgs@;
        let mut list = msgs;
        let mut k: usize = 0;
        while k < list.len()
            invariant
                k <= list@.len() == given.len(),
                ids@.len() == given.len(),
                forall|j: int|
                    0 <= j < k ==> readied(given[j], #[trigger] list@[j], ids@[j]@, self.cfg.namespace@),
                forall|j: int| k <= j < given.len() ==> #[trigger] list@[j] == given[j],
            decreases list@.len() - k,
        {
            let m = &mut list[k];
            set_uniq_id(m, ids[k].as_str());
            let topic = self.with_namespace(m.topic.as_str());
            m.topic = topic;
            k = k + 1;
        }
        MessageBatch::generate_from_list(list)
    }
}

/// Every message is fine.
pub open spec fn all_fine(msgs: Seq<Message>, max_size: i32) -> bool {
    forall|i: int| 0 <= i < msgs.len() ==> message_fault(#[trigger] msgs[i], max_size) is None
}

/// Gives a message an id where it has none.
pub fn set_uniq_id(msg: &mut Message, fresh: &str)
    ensures
        props(final(msg).properties) == if prop(old(msg).properties, PROPERTY_UNIQ_KEY@) is Some {
            props(old(msg).properties)
        } else {
            props(old(msg).properties).insert(PROPERTY_UNIQ_KEY@, fresh@)
        },
        *final(msg) == (Message { properties: final(msg).properties, ..*old(msg) }),
{
    if !msg.has_property(PROPERTY_UNIQ_KEY) {
        msg.put_property(PROPERTY_UNIQ_KEY, fresh);
    }
}

/// `after` is `before` with an id, inside the namespace.
pub open spec fn readied(before: Message, after: Message, id: Seq<char>, namespace: Seq<char>) -> bool {
    &&& after.topic@ == in_namespace(namespace, before.topic@)
    &&& props(after.properties) == if prop(before.properties, PROPERTY_UNIQ_KEY@) is Some {
        props(before.properties)
    } else {
        props(before.properties).insert(PROPERTY_UNIQ_KEY@, id)
    }
    &&& after == (Message { topic: after.topic, properties: after.properties, ..before })
}

/// Whether a message is delivered later, by its delay level.
pub open spec fn is_delayed(m: Message) -> bool {
    match prop(m.properties, PROPERTY_DELAY_TIME_LEVEL@) {
        Some(level) => match parsed_int(level) {
            Some(n) => 0 < n <= i32::MAX,
            None => false,
        },
        None => false,
    }
}

fn has_delay(m: &Message) -> (r: bool)
    ensures
        r == is_delayed(*m),
{
    match m.get_property(PROPERTY_DELAY_TIME_LEVEL) {
        Some(level) => match parse_i32(level) {
            Some(n) => n > 0,
            None => false,
        },
        None => false,
    }
}

/// Whether the sender waits until a message is stored; it does unless it says otherwise.
pub open spec fn waits(m: Message) -> bool {
    match prop(m.properties, PROPERTY_WAIT_STORE_MSG_OK@) {
        Some(v) => lowered(v) == "true"@,
        None => true,
    }
}

fn is_waiting(m: &Message) -> (r: bool)
    ensures
        r == waits(*m),
{
    match m.get_property(PROPERTY_WAIT_STORE_MSG_OK) {
        Some(v) => same_small(v, "true"),
        None => true,
    }
}

/// Why a message cannot be in a batch with the first one.
pub open spec fn member_fault(m: Message, first: Message) -> Option<Seq<char>> {
    if is_delayed(m) {
        Some("TimeDelayLevel is not supported for batching"@)
    } else if begins_with(m.topic@, RETRY_PREFIX@) {
        Some("Retry Group is not supported for batching"@)
    } else if m.topic@ != first.topic@ {
        Some("The topic of the messages in one batch should be the same"@)
    } else if waits(m) != waits(first) {
        Some("The waitStoreMsgOK of the messages in one batch should the same"@)
    } else {
        None
    }
}

/// Why messages cannot be sent as one: the first fault.
pub open spec fn batch_fault(msgs: Seq<Message>) -> Option<Seq<char>>
    decreases msgs.len(),
{
    if msgs.len() == 0 {
        None
    } else {
        match batch_fault(msgs.drop_last()) {
            Some(f) => Some(f),
            None => member_fault(msgs.last(), msgs[0]),
        }
    }
}

/// What travels around the messages of a batch.
pub open spec fn is_envelope(m: Message, first: Message) -> bool {
    &&& m.topic@ == first.topic@
    &&& m.flag == 0
    &&& props(m.properties) == Map::<Seq<char>, Seq<char>>::empty().insert(
        PROPERTY_WAIT_STORE_MSG_OK@,
        if waits(first) {
            "true"@
        } else {
            "false"@
        },
    )
    &&& m.body is None
    &&& m.transaction_id is None
}

fn check_member(m: &Message, first: &Message) -> (r: Result<(), Error>)
    ensures
        match r {
            Ok(_) => member_fault(*m, *first) is None,
            Err(e) => member_fault(*m, *first) is Some && is_client(e, None, member_fault(*m, *first)->0),
        },
{
    if has_delay(m) {
        return Err(Error::client("TimeDelayLevel is not supported for batching"));
    }
    if is_retry_topic(m.topic.as_str()) {
        return Err(Error::client("Retry Group is not supported for batching"));
    }
    if !same(m.topic.as_str(), first.topic.as_str()) {
        return Err(Error::client("The topic of the messages in one batch should be the same"));
    }
    if is_waiting(m) != is_waiting(first) {
        return Err(Error::client("The waitStoreMsgOK of the messages in one batch should the same"));
    }
    Ok(())
}

proof fn lemma_batch_fault(msgs: Seq<Message>, i: int)
    requires
        0 <= i <= msgs.len(),
        batch_fault(msgs.subrange(0, i)) is Some,
    ensures
        batch_fault(msgs) == batch_fault(msgs.subrange(0, i)),
    decreases msgs.len(),
{
    if i < msgs.len() {
        let front = msgs.drop_last();
        assert(front.subrange(0, i) =~= msgs.subrange(0, i));
        lemma_batch_fault(front, i);
    } else {
        assert(msgs.subrange(0, i) =~= msgs);
    }
}

impl MessageBatch {
    /// Several messages as one: none of them delayed or a retry, all of one topic, and all
    /// waiting to be stored or none.
    pub fn generate_from_list(messages: Vec<Message>) -> (r: Result<MessageBatch, Error>)
        requires
            messages@.len() > 0,
        ensures
            match r {
                Ok(b) => b.messages@ == messages@ && batch_fault(messages@) is None && is_envelope(
                    b.message,
                    messages@[0],
                ),
                Err(e) => batch_fault(messages@) is Some && is_client(e, None, batch_fault(messages@)->0),
            },
    {
        let mut i: usize = 0;
        assert(messages@.subrange(0, 0) =~= Seq::<Message>::empty());
        while i < messages.len()
            invariant
                i <= messages@.len(),
                batch_fault(messages@.subrange(0, i as int)) is None,
            decreases messages@.len() - i,
        {
            proof {
                let part = messages@.subrange(0, i + 1);
                assert(part.drop_last() =~= messages@.subrange(0, i as int));
                assert(part.last() == messages@[i as int]);
                assert(part[0] == messages@[0]);
            }
            if let Err(e) = check_member(&messages[i], &messages[0]) {
                proof {
                    lemma_batch_fault(messages@, i + 1);
                }
                return Err(e);
            }
            i = i + 1;
        }
        assert(messages@.subrange(0, i as int) =~= messages@);
        let mut message = Message::new(messages[0].topic.as_str(), None);
        assert(props(message.properties) =~= Map::<Seq<char>, Seq<char>>::empty());
        let wait = is_waiting(&messages[0]);
        message.put_property(
            PROPERTY_WAIT_STORE_MSG_OK,
            if wait {
                "true"
            } else {
                "false"
            },
        );
        Ok(MessageBatch { message, messages })
    }

    /// Closes a batch: it gets an id where it has none, and the bytes of its messages.
    pub fn seal(&mut self, fresh: &str, body: Vec<u8>)
        ensures
            props(final(self).message.properties) == if prop(old(self).message.properties, PROPERTY_UNIQ_KEY@) is Some {
                props(old(self).message.properties)
            } else {
                props(old(self).message.properties).insert(PROPERTY_UNIQ_KEY@, fresh@)
            },
            final(self).message == (Message {
                properties: final(self).message.properties,
                body: Some(body),
                ..old(self).message
            }),
            final(self).messages == old(self).messages,
    {
        set_uniq_id(&mut self.message, fresh);
        self.message.set_body(body);
    }
}

/// The next queue of a topic for a message that is sent once, whoever its broker is.
pub fn next_queue(info: &mut TopicPublishInfo, topic: &str) -> (r: Result<MessageQueue, Error>)
    ensures
        final(info).same_but_cursor(old(info)),
        match r {
            Ok(mq) => {
                let next = old(info).ahead(0);
                &&& old(info).list().len() > 0
                &&& mq.topic@ == topic@
                &&& mq.broker_name@ == next.broker_name@
                &&& mq.queue_id == next.queue_id
                &&& final(info).cursor() == advanced(old(info).cursor(), 1)
            },
            Err(e) => {
                &&& old(info).list().len() == 0
                &&& final(info).cursor() == old(info).cursor()
                &&& is_client(e, None, "no message queue for publish info"@)
            },
        },
{
    let filters = no_filters(any_queue);
    match info.select_one_message_queue(filters.as_slice()) {
        Ok(Some(mq)) => Ok(MessageQueue::new(topic, mq.broker_name.as_str(), mq.queue_id)),
        Ok(None) => Err(Error::client("no message queue for publish info")),
        Err(e) => Err(e),
    }
}

/// Sends messages in transactions; its listener is set once for all of them.
pub struct TransactionMQProducer<L> {
    pub producer: DefaultMQProducer<L>,
}

impl<L> TransactionMQProducer<L> {
    pub fn with_config(cfg: ProducerConfig) -> (r: Result<TransactionMQProducer<L>, Error>)
        ensures
            match r {
                Ok(p) => !blank(cfg.producer_group@) && fresh_producer(p.producer, cfg),
                Err(e) => blank(cfg.producer_group@) && is_client(e, None, "producerGroup is empty"@),
            },
    {
        match DefaultMQProducer::with_config(cfg) {
            Ok(producer) => Ok(TransactionMQProducer { producer }),
            Err(e) => Err(e),
        }
    }

    pub fn new(producer_group: &str) -> (r: Result<TransactionMQProducer<L>, Error>)
        ensures
            match r {
                Ok(p) => {
                    &&& !blank(producer_group@)
                    &&& p.producer.cfg.producer_group@ == producer_group@
                    &&& exists|d: ProducerConfig| #[trigger]
                        call_ensures(ProducerConfig::default, (), d) && fresh_producer(
                            p.producer,
                            ProducerConfig { producer_group: p.producer.cfg.producer_group, ..d },
                        )
                },
                Err(e) => blank(producer_group@) && is_client(e, None, "producerGroup is empty"@),
            },
    {
        match DefaultMQProducer::new(producer_group) {
            Ok(producer) => Ok(TransactionMQProducer { producer }),
            Err(e) => Err(e),
        }
    }

    pub fn from_producer(producer: DefaultMQProducer<L>) -> (r: TransactionMQProducer<L>)
        ensures
            r.producer == producer,
    {
        TransactionMQProducer { producer }
    }

    pub fn producer(&self) -> (r: &DefaultMQProducer<L>)
        ensures
            *r == self.producer,
    {
        &self.producer
    }

    pub fn set_transaction_listener(&mut self, listener: Option<L>)
        ensures
            final(self).producer == (DefaultMQProducer {
                transaction_listener: listener,
                ..old(self).producer
            }),
    {
        self.producer.set_transaction_listener(listener);
    }

    pub fn transaction_listener(&self) -> (r: Option<&L>)
        ensures
            match r {
                Some(l) => self.producer.transaction_listener == Some(*l),
                None => self.producer.transaction_listener is None,
            },
    {
        self.producer.transaction_listener()
    }
}

/// A request to call a message back.
pub fn recall_header(producer_group: &str, topic: &str, recall_handle: &str, broker_name: &str) -> (r: RecallMessageRequestHeader)
    ensures
        opt(r.producer_group) == Some(producer_group@),
        opt(r.topic) == Some(topic@),
        opt(r.recall_handle) == Some(recall_handle@),
        opt(r.broker_name) == Some(broker_name@),
{
    RecallMessageRequestHeader {
        producer_group: Some(producer_group.to_owned()),
        topic: Some(topic.to_owned()),
        recall_handle: Some(recall_handle.to_owned()),
        broker_name: Some(broker_name.to_owned()),
    }
}

/// The first of a list of brokers, from place `from` on, that has an address; -1 where none has.
pub open spec fn first_listed(brokers: Seq<BrokerData>, from: int) -> int
    decreases brokers.len() - from,
{
    if from < 0 || from >= brokers.len() {
        -1
    } else if brokers[from].broker_addrs@.len() > 0 {
        from
    } else {
        first_listed(brokers, from + 1)
    }
}

/// Where a message is called back: at the broker that has it, or else at any of its topic.
pub fn recall_addr<C>(instance: &MQClientInstance<C>, broker_name: &str, topic: &str) -> (r: Result<String, Error>)
    ensures
        ({
            let brokers = instance.topic_route_table@[topic@].broker_datas@;
            let other = if instance.topic_route_table@.dom().contains(topic@) {
                first_listed(brokers, 0)
            } else {
                -1
            };
            match r {
                Ok(a) => if knows_broker(*instance, broker_name@) {
                    known_addr(*instance, broker_name@, a@)
                } else {
                    other >= 0 && may_use(brokers[other].broker_addrs@, a@)
                },
                Err(e) => !knows_broker(*instance, broker_name@) && other < 0 && is_client(
                    e,
                    None,
                    "The broker service address not found"@,
                ),
            }
        }),
{
    if let Some(a) = instance.broker_addr_of(broker_name) {
        return Ok(a);
    }
    if let Some(route) = instance.route_of(topic) {
        let brokers = &route.broker_datas;
        let mut i: usize = 0;
        while i < brokers.len()
            invariant
                i <= brokers@.len(),
                *brokers == route.broker_datas,
                !knows_broker(*instance, broker_name@),
                instance.topic_route_table@.dom().contains(topic@),
                *route == instance.topic_route_table@[topic@],
                first_listed(brokers@, 0) == first_listed(brokers@, i as int),
            ensures
                first_listed(brokers@, 0) < 0,
            decreases brokers@.len() - i,
        {
            if let Some(a) = brokers[i].select_broker_addr() {
                return Ok(a);
            }
            i = i + 1;
        }
    }
    Err(Error::client("The broker service address not found"))
}

proof fn lemma_prop_by_props(a: Message, b: Message, k: Seq<char>)
    requires
        props(a.properties) == props(b.properties),
    ensures
        prop(a.properties, k) == prop(b.properties, k),
{
    assert(props(a.properties).dom().contains(k) == props(b.properties).dom().contains(k));
    if props(a.properties).dom().contains(k) {
        assert(props(a.properties)[k] == props(b.properties)[k]);
    }
}

proof fn lemma_prop_inserted(a: Message, b: Message, k: Seq<char>, name: Seq<char>, value: Seq<char>)
    requires
        props(b.properties) == props(a.properties).insert(name, value),
    ensures
        prop(b.properties, k) == if k == name {
            Some(value)
        } else {
            prop(a.properties, k)
        },
{
    assert(props(b.properties).dom().contains(k) == (k == name || props(a.properties).dom().contains(k)));
    if props(b.properties).dom().contains(k) {
        assert(props(b.properties)[k] == if k == name {
            value
        } else {
            props(a.properties)[k]
        });
    }
}

/// Where the first half is stored well, the listener does its work on a message that is known by
/// its own unique key and carries the transaction that the broker named; everything else of the
/// message is as it was. What the listener says is what becomes of the transaction.
pub proof fn law_listener_works_on_the_stored_message<T: TransactionListener>(
    listener: &T,
    msg: &mut Message,
    sent: &SendResult,
    arg: Option<&T::Arg>,
    r: LocalTransactionState,
)
    requires
        sent.status == SendStatus::SendOk,
        call_ensures(local_state::<T>, (listener, msg, sent, arg), r),
    ensures
        call_ensures(T::execute_local_transaction, (listener, &*final(msg), arg), r),
        prop(old(msg).properties, "UNIQ_KEY"@) matches Some(id) ==> opt(final(msg).transaction_id) == Some(id),
        prop(old(msg).properties, "UNIQ_KEY"@) is None ==> opt(final(msg).transaction_id) == opt(old(msg).transaction_id),
        sent.transaction_id matches Some(id) ==> prop(final(msg).properties, "__transactionId__"@) == Some(id@),
        sent.transaction_id is None ==> prop(final(msg).properties, "__transactionId__"@) == prop(
            old(msg).properties,
            "__transactionId__"@,
        ),
        forall|k: Seq<char>|
            k != "__transactionId__"@ ==> #[trigger] prop(final(msg).properties, k) == prop(old(msg).properties, k),
        final(msg).topic == old(msg).topic && final(msg).body == old(msg).body && final(msg).flag == old(msg).flag,
{
    reveal_strlit("UNIQ_KEY");
    reveal_strlit("__transactionId__");
    assert("UNIQ_KEY"@.len() != "__transactionId__"@.len());
    let before = *old(msg);
    let after = *final(msg);
    assert forall|k: Seq<char>| k != "__transactionId__"@ implies #[trigger] prop(after.properties, k) == prop(
        before.properties,
        k,
    ) by {
        match sent.transaction_id {
            Some(id) => lemma_prop_inserted(before, after, k, PROPERTY_TRANSACTION_ID@, id@),
            None => lemma_prop_by_props(before, after, k),
        }
    }
    match sent.transaction_id {
        Some(id) => lemma_prop_inserted(before, after, "__transactionId__"@, PROPERTY_TRANSACTION_ID@, id@),
        None => lemma_prop_by_props(before, after, "__transactionId__"@),
    }
}

/// A half that is not stored well is rolled back, whoever listens, and the message stays as it
/// is.
pub proof fn law_half_that_is_not_stored_is_rolled_back<T: TransactionListener>(
    listener: &T,
    msg: &mut Message,
    sent: &SendResult,
    arg: Option<&T::Arg>,
    r: LocalTransactionState,
)
    requires
        sent.status == SendStatus::FlushDiskTimeout || sent.status == SendStatus::FlushSlaveTimeout || sent.status
            == SendStatus::SlaveNotAvailable,
        call_ensures(local_state::<T>, (listener, msg, sent, arg), r),
    ensures
        r == LocalTransactionState::RollbackMessage,
        *final(msg) == *old(msg),
{
}

/// What a transactional send gives holds the broker's answer and what became of the transaction.
pub proof fn law_transactional_send_tells_both(sent: SendResult, state: LocalTransactionState, r: TransactionSendResult)
    requires
        call_ensures(transaction_result, (sent, state), r),
    ensures
        r.inner == sent,
        r.local_transaction_state == Some(state),
{
}

/// The three ends of a transaction are told to a broker by three different words: commit, roll
/// back, and that nothing is known.
pub proof fn law_states_have_their_flags<L>(state: LocalTransactionState, r: i32)
    requires
        call_ensures(DefaultMQProducer::<L>::transaction_flag, (state,), r),
    ensures
        state == LocalTransactionState::CommitMessage <==> r == 8,
        state == LocalTransactionState::RollbackMessage <==> r == 12,
        state == LocalTransactionState::Unknow <==> r == 0,
{
}

/// The flag of a first half says that it is prepared, and otherwise what it said before.
pub proof fn law_half_is_flagged_prepared(sys_flag: i32, r: i32)
    requires
        call_ensures(half_flag, (sys_flag,), r),
    ensures
        r & 12 == 4,
        r & !12i32 == sys_flag & !12i32,
{
    assert(((sys_flag & !12i32) | 4) & 12 == 4) by (bit_vector);
    assert(((sys_flag & !12i32) | 4) & !12i32 == sys_flag & !12i32) by (bit_vector);
}

/// A message that is made the first half of a transaction says so, and of which group it is; it
/// keeps its body and its other properties, and stands in the namespace. The listener that is
/// given is the one from then on.
pub proof fn law_first_half_is_marked<L>(
    producer: &mut DefaultMQProducer<L>,
    msg: &mut Message,
    listener: Option<L>,
    r: Result<(), Error>,
    topic: &str,
    named: String,
)
    requires
        call_ensures(DefaultMQProducer::<L>::prepare_transaction, (producer, msg, listener), r),
        topic@ == old(msg).topic@,
        call_ensures(DefaultMQProducer::<L>::with_namespace, (&*old(producer), topic), named),
        r is Ok,
    ensures
        prop(final(msg).properties, "TRAN_MSG"@) == Some("true"@),
        prop(final(msg).properties, "PGROUP"@) == Some(old(producer).cfg.producer_group@),
        forall|k: Seq<char>|
            k != "TRAN_MSG"@ && k != "PGROUP"@ ==> #[trigger] prop(final(msg).properties, k) == prop(
                old(msg).properties,
                k,
            ),
        final(msg).topic@ == named@,
        final(msg).body == old(msg).body && final(msg).flag == old(msg).flag && final(msg).transaction_id == old(
            msg).transaction_id,
        final(producer).transaction_listener is Some,
        listener is Some ==> final(producer).transaction_listener == listener,
        listener is None ==> final(producer).transaction_listener == old(producer).transaction_listener,
        final(producer).cfg == old(producer).cfg && final(producer).started && final(producer).client == old(
            producer).client,
{
    reveal_strlit("TRAN_MSG");
    reveal_strlit("PGROUP");
    assert("TRAN_MSG"@.len() != "PGROUP"@.len());
    let before = *old(msg);
    let after = *final(msg);
    let group = old(producer).cfg.producer_group@;
    assert forall|k: Seq<char>| #[trigger] prop(after.properties, k) == if k == "PGROUP"@ {
        Some(group)
    } else if k == "TRAN_MSG"@ {
        Some("true"@)
    } else {
        prop(before.properties, k)
    } by {
        let a = props(before.properties);
        assert(props(after.properties) == a.insert("TRAN_MSG"@, "true"@).insert("PGROUP"@, group));
        assert(props(after.properties).dom().contains(k) == (k == "PGROUP"@ || k == "TRAN_MSG"@ || a.dom().contains(k)));
        if props(after.properties).dom().contains(k) {
            assert(props(after.properties)[k] == if k == "PGROUP"@ {
                group
            } else if k == "TRAN_MSG"@ {
                "true"@
            } else {
                a[k]
            });
        }
    }
}

/// A transaction is refused without a listener, for a message that is delayed, before the
/// producer is started, and for a message that could not be sent at all; in that order, and for
/// no other reason. A refused message gets no mark.
pub proof fn law_first_half_is_refused<L>(
    producer: &mut DefaultMQProducer<L>,
    msg: &mut Message,
    listener: Option<L>,
    r: Result<(), Error>,
    keys: Vec<String>,
    delayed: bool,
    client: Result<u64, Error>,
    named: Message,
    checked: Result<(), Error>,
)
    requires
        call_ensures(DefaultMQProducer::<L>::prepare_transaction, (producer, msg, listener), r),
        call_ensures(transaction_forbidden_delay_keys, (), keys),
        call_ensures(has_any_property, (&*old(msg), &keys), delayed),
        call_ensures(DefaultMQProducer::<L>::require_client, (&*old(producer),), client),
        named == (Message { topic: final(msg).topic, ..*old(msg) }),
        call_ensures(DefaultMQProducer::<L>::check_message, (&*old(producer), &named), checked),
    ensures
        ({
            let nobody = listener is None && old(producer).transaction_listener is None;
            &&& r is Err <==> nobody || delayed || client is Err || checked is Err
            &&& nobody ==> (r matches Err(e) && is_client(e, None, "tranExecutor is null"@))
            &&& !nobody && delayed ==> (r matches Err(e) && is_client(
                e,
                None,
                "Transactional messages do not support delayed delivery"@,
            ))
            &&& !nobody && !delayed && client is Err ==> (r matches Err(e) && error_text(e) == error_text(client->Err_0))
            &&& !nobody && !delayed && client is Ok && checked is Err ==> (r matches Err(e) && error_text(e)
                == error_text(checked->Err_0) && error_code(e) == error_code(checked->Err_0))
        }),
        r is Err ==> *final(producer) == *old(producer) && final(msg).properties == old(msg).properties && final(
            msg).body == old(msg).body,
{
}

/// The end of a transaction that a broker asked about goes to where it was asked, and names the
/// transaction by what the question said of it; the message is named by its unique key, or else
/// by its id.
pub proof fn law_asked_end_answers_the_question<L, C, F: Fn(&str) -> Result<i64, Error>>(
    producer: &DefaultMQProducer<L>,
    instance: &MQClientInstance<C>,
    header: &CheckTransactionStateRequestHeader,
    msg_ext: &MessageExt,
    addr: &String,
    state: LocalTransactionState,
    from_check: bool,
    offset_of: F,
    r: Result<(String, EndTransactionRequestHeader), Error>,
    flag: i32,
)
    requires
        call_ensures(
            DefaultMQProducer::<L>::end_transaction::<C, F>,
            (producer, instance, &TxnEnd::Check { header, msg_ext, broker_addr: addr }, state, from_check, offset_of),
            r,
        ),
        call_ensures(DefaultMQProducer::<L>::transaction_flag, (state,), flag),
    ensures
        r is Ok,
        (r->Ok_0).0@ == addr@,
        ({
            let h = (r->Ok_0).1;
            &&& h.commit_or_rollback == Some(flag)
            &&& opt(h.producer_group) == Some(producer.cfg.producer_group@)
            &&& h.from_transaction_check == Some(from_check)
            &&& h.transaction_id == header.transaction_id
            &&& h.commit_log_offset == header.commit_log_offset
            &&& h.tran_state_table_offset == header.tran_state_table_offset
            &&& h.topic == header.topic
            &&& h.broker_name == header.broker_name
            &&& prop(msg_ext.properties, "UNIQ_KEY"@) is Some ==> opt(h.msg_id) == prop(
                msg_ext.properties,
                "UNIQ_KEY"@,
            )
            &&& prop(msg_ext.properties, "UNIQ_KEY"@) is None ==> opt(h.msg_id) == opt(msg_ext.msg_id)
        }),
{
}

/// The end of a transaction by its sender goes to the broker that stored the first half, names it
/// by what that broker's answer said, and says where the half is stored: the place that the id of
/// the store holds, or else the id of the message. It fails where the answer has no id, where the
/// id says no place, and where nothing is known of the broker; and for no other reason.
pub proof fn law_own_end_goes_to_the_broker_of_the_half<L, C, F: Fn(&str) -> Result<i64, Error>>(
    producer: &DefaultMQProducer<L>,
    instance: &MQClientInstance<C>,
    send_result: &SendResult,
    msg: &Message,
    state: LocalTransactionState,
    from_check: bool,
    offset_of: F,
    r: Result<(String, EndTransactionRequestHeader), Error>,
    flag: i32,
    broker: &str,
    known: Option<String>,
)
    requires
        call_ensures(
            DefaultMQProducer::<L>::end_transaction::<C, F>,
            (producer, instance, &TxnEnd::Normal { send_result, msg }, state, from_check, offset_of),
            r,
        ),
        call_ensures(DefaultMQProducer::<L>::transaction_flag, (state,), flag),
        send_result.message_queue matches Some(mq) && broker@ == mq.broker_name@,
        call_ensures(MQClientInstance::<C>::broker_addr_of, (instance, broker), known),
    ensures
        r matches Ok((addr, h)) ==> {
            &&& known is Some
            &&& h.commit_or_rollback == Some(flag)
            &&& opt(h.producer_group) == Some(producer.cfg.producer_group@)
            &&& h.from_transaction_check == Some(from_check)
            &&& h.transaction_id == send_result.transaction_id
            &&& h.msg_id == send_result.msg_id
            &&& h.tran_state_table_offset == Some(send_result.queue_offset)
            &&& opt(h.topic) == Some(msg.topic@)
            &&& opt(h.broker_name) == Some(broker@)
            &&& exists|id: &str, offset: i64|
                {
                    &&& h.commit_log_offset == Some(offset)
                    &&& #[trigger] call_ensures(offset_of, (id,), Ok::<i64, Error>(offset))
                    &&& Some(id@) == if send_result.offset_msg_id is Some {
                        opt(send_result.offset_msg_id)
                    } else {
                        opt(send_result.msg_id)
                    }
                }
        },
        r matches Err(e) ==> (send_result.offset_msg_id is None && send_result.msg_id is None) || known is None
            || exists|id: &str| #[trigger] call_ensures(offset_of, (id,), Err::<i64, Error>(e)),
        send_result.offset_msg_id is None && send_result.msg_id is None ==> r is Err,
{
    if stored_id(*send_result) is Some {
        let id = stored_id(*send_result)->0;
        let out = choose|out: Result<i64, Error>| #[trigger]
            decoded(offset_of, id, out) && placed_end(r, *instance, *send_result, *msg, out);
        assert(decoded(offset_of, id, out) && placed_end(r, *instance, *send_result, *msg, out));
        let s = choose|s: &str| s@ == id && #[trigger] call_ensures(offset_of, (s,), out);
        assert(call_ensures(offset_of, (s,), out));
        if let Ok((addr, h)) = r {
            assert(out is Ok);
            assert(call_ensures(offset_of, (s,), Ok::<i64, Error>(out->Ok_0)));
        }
    }
}

/// A broker's question about a transaction is put to the listener exactly where the message can
/// be read, is of this group or of none that is named, somebody listens, and the producer is
/// started.
pub proof fn law_check_goes_to_the_listener<L>(
    producer: &DefaultMQProducer<L>,
    msg_ext: Option<&MessageExt>,
    r: Result<Option<&L>, Error>,
)
    requires
        call_ensures(DefaultMQProducer::<L>::handle_check_transaction_state, (producer, msg_ext), r),
    ensures
        ({
            let mine = msg_ext matches Some(m) && (prop(m.properties, "PGROUP"@) is None || prop(
                m.properties,
                "PGROUP"@,
            ) == Some(producer.cfg.producer_group@));
            let running = producer.started && producer.client is Some;
            &&& (r matches Ok(Some(_))) <==> mine && producer.transaction_listener is Some && running
            &&& r is Err <==> mine && producer.transaction_listener is Some && !running
            &&& r matches Ok(Some(l)) ==> producer.transaction_listener == Some(*l)
        }),
{
}

/// What the hooks at the end of a transaction are told is what the broker is told.
pub proof fn law_hooks_hear_what_the_broker_hears<L>(
    producer: &DefaultMQProducer<L>,
    send_result: &SendResult,
    msg: &Message,
    header: &EndTransactionRequestHeader,
    addr: &str,
    state: LocalTransactionState,
    from_check: bool,
    r: EndTransactionContext,
)
    requires
        call_ensures(
            DefaultMQProducer::<L>::end_context,
            (producer, &TxnEnd::Normal { send_result, msg }, header, addr, state, from_check),
            r,
        ),
    ensures
        r.message is Some && same_message(r.message->0, *msg),
        r.broker_addr@ == addr@,
        r.msg_id == header.msg_id && r.transaction_id == header.transaction_id,
        r.transaction_state == Some(state) && r.from_transaction_check == from_check,
        r.producer_group == producer.cfg.producer_group && r.namespace == producer.cfg.namespace,
{
}

/// A message keeps the unique key that it has, and gets the fresh one where it has none; nothing
/// else of it changes.
pub proof fn law_unique_key_is_given_once(msg: &mut Message, fresh: &str)
    requires
        call_ensures(set_uniq_id, (msg, fresh), ()),
    ensures
        prop(old(msg).properties, "UNIQ_KEY"@) is Some ==> prop(final(msg).properties, "UNIQ_KEY"@) == prop(
            old(msg).properties,
            "UNIQ_KEY"@,
        ),
        prop(old(msg).properties, "UNIQ_KEY"@) is None ==> prop(final(msg).properties, "UNIQ_KEY"@) == Some(fresh@),
        forall|k: Seq<char>|
            k != "UNIQ_KEY"@ ==> #[trigger] prop(final(msg).properties, k) == prop(old(msg).properties, k),
        final(msg).topic == old(msg).topic && final(msg).body == old(msg).body,
{
    let before = *old(msg);
    let after = *final(msg);
    assert forall|k: Seq<char>| #[trigger] prop(after.properties, k) == if k == "UNIQ_KEY"@ && prop(
        before.properties,
        k,
    ) is None {
        Some(fresh@)
    } else {
        prop(before.properties, k)
    } by {
        if prop(before.properties, "UNIQ_KEY"@) is Some {
            lemma_prop_by_props(before, after, k);
        } else {
            lemma_prop_inserted(before, after, k, "UNIQ_KEY"@, fresh@);
        }
    }
}

/// Messages can be sent as one exactly where none of them is.
proof fn lemma_no_batch_fault(msgs: Seq<Message>)
    ensures
        batch_fault(msgs) is None <==> forall|i: int|
            0 <= i < msgs.len() ==> member_fault(#[trigger] msgs[i], msgs[0]) is None,
    decreases msgs.len(),
{
    if msgs.len() > 0 {
        let front = msgs.drop_last();
        lemma_no_batch_fault(front);
        if batch_fault(msgs) is None {
            assert forall|i: int| 0 <= i < msgs.len() implies member_fault(#[trigger] msgs[i], msgs[0]) is None by {
                if i < front.len() {
                    assert(front[i] == msgs[i] && front[0] == msgs[0]);
                }
            }
        }
        if forall|i: int| 0 <= i < msgs.len() ==> member_fault(#[trigger] msgs[i], msgs[0]) is None {
            assert forall|i: int| 0 <= i < front.len() implies member_fault(#[trigger] front[i], front[0]) is None by {
                assert(front[i] == msgs[i] && front[0] == msgs[0]);
            }
            assert(msgs.last() == msgs[msgs.len() - 1]);
        }
    }
}

/// The message is to be delivered later.
pub open spec fn has_delay_level(m: Message) -> bool {
    prop(m.properties, "DELAY"@) matches Some(s) && parsed_int(s) matches Some(n) && 0 < n <= i32::MAX
}

/// Several messages become one exactly where none of them is to be delivered later or is of a
/// retry topic, all are of one topic, and all wait until they are stored or none does. The batch
/// then holds all of them, in their order, and is of their topic.
pub proof fn law_batch_is_of_one_kind(messages: Vec<Message>, r: Result<MessageBatch, Error>)
    requires
        messages@.len() > 0,
        call_ensures(MessageBatch::generate_from_list, (messages,), r),
    ensures
        r is Ok <==> forall|i: int|
            0 <= i < messages@.len() ==> {
                let m = #[trigger] messages@[i];
                &&& !has_delay_level(m)
                &&& !begins_with(m.topic@, "%RETRY%"@)
                &&& m.topic@ == messages@[0].topic@
                &&& waits(m) == waits(messages@[0])
            },
        r matches Ok(b) ==> {
            &&& b.messages@ == messages@
            &&& b.message.topic@ == messages@[0].topic@
            &&& b.message.body is None
            &&& prop(b.message.properties, "WAIT"@) == Some(
                if waits(messages@[0]) {
                    "true"@
                } else {
                    "false"@
                },
            )
        },
        r matches Err(e) ==> e is Client,
{
    lemma_no_batch_fault(messages@);
    assert forall|i: int| 0 <= i < messages@.len() implies (member_fault(#[trigger] messages@[i], messages@[0]) is None
        <==> {
        let m = messages@[i];
        &&& !has_delay_level(m)
        &&& !begins_with(m.topic@, "%RETRY%"@)
        &&& m.topic@ == messages@[0].topic@
        &&& waits(m) == waits(messages@[0])
    }) by {
        assert(is_delayed(messages@[i]) == has_delay_level(messages@[i]));
    }
    if let Ok(b) = r {
        assert(props(b.message.properties).dom().contains("WAIT"@));
        assert(props(b.message.properties)["WAIT"@] == if waits(messages@[0]) {
            "true"@
        } else {
            "false"@
        });
    }
}

/// A sender waits until its message is stored, unless the message says that it does not: by a
/// property that is anything but `true`.
pub proof fn law_senders_wait_by_default(m: Message)
    ensures
        prop(m.properties, "WAIT"@) is None ==> waits(m),
        prop(m.properties, "WAIT"@) == Some("true"@) ==> waits(m),
        prop(m.properties, "WAIT"@) == Some("false"@) ==> !waits(m),
{
    reveal_strlit("true");
    reveal_strlit("false");
    assert(lowered("true"@) =~= "true"@);
    assert(lowered("false"@).len() != "true"@.len());
}

/// A batch that is made ready has every message that was given, in order, each with its body, its
/// own unique key or a fresh one, and its topic inside the namespace.
pub proof fn law_batch_keeps_its_messages<L>(
    producer: &DefaultMQProducer<L>,
    msgs: Vec<Message>,
    ids: &Vec<String>,
    r: Result<MessageBatch, Error>,
    i: int,
    topic: &str,
    named: String,
)
    requires
        ids@.len() == msgs@.len(),
        call_ensures(DefaultMQProducer::<L>::prepare_batch, (producer, msgs, ids), r),
        r is Ok,
        0 <= i < msgs@.len(),
        topic@ == msgs@[i].topic@,
        call_ensures(DefaultMQProducer::<L>::with_namespace, (producer, topic), named),
    ensures
        ({
            let b = r->Ok_0;
            let m = b.messages@[i];
            &&& b.messages@.len() == msgs@.len()
            &&& m.topic@ == named@
            &&& m.topic@ == b.message.topic@
            &&& m.body == msgs@[i].body
            &&& m.flag == msgs@[i].flag
            &&& prop(msgs@[i].properties, "UNIQ_KEY"@) is Some ==> prop(m.properties, "UNIQ_KEY"@) == prop(
                msgs@[i].properties,
                "UNIQ_KEY"@,
            )
            &&& prop(msgs@[i].properties, "UNIQ_KEY"@) is None ==> prop(m.properties, "UNIQ_KEY"@) == Some(ids@[i]@)
            &&& forall|k: Seq<char>|
                k != "UNIQ_KEY"@ ==> #[trigger] prop(m.properties, k) == prop(msgs@[i].properties, k)
        }),
{
    let b = r->Ok_0;
    let before = msgs@[i];
    let after = b.messages@[i];
    assert(readied(before, after, ids@[i]@, producer.cfg.namespace@));
    lemma_no_batch_fault(b.messages@);
    assert(member_fault(b.messages@[i], b.messages@[0]) is None);
    assert forall|k: Seq<char>| #[trigger] prop(after.properties, k) == if k == "UNIQ_KEY"@ && prop(
        before.properties,
        k,
    ) is None {
        Some(ids@[i]@)
    } else {
        prop(before.properties, k)
    } by {
        if prop(before.properties, "UNIQ_KEY"@) is Some {
            lemma_prop_by_props(before, after, k);
        } else {
            lemma_prop_inserted(before, after, k, "UNIQ_KEY"@, ids@[i]@);
        }
    }
}

/// Messages are made one only where the producer is started, there is a message, and each of them
/// could be sent on its own.
pub proof fn law_batch_is_checked_message_by_message<L>(
    producer: &DefaultMQProducer<L>,
    msgs: Vec<Message>,
    ids: &Vec<String>,
    r: Result<MessageBatch, Error>,
    i: int,
    checked: Result<(), Error>,
)
    requires
        ids@.len() == msgs@.len(),
        call_ensures(DefaultMQProducer::<L>::prepare_batch, (producer, msgs, ids), r),
        0 <= i < msgs@.len(),
        call_ensures(DefaultMQProducer::<L>::check_message, (producer, &msgs@[i]), checked),
    ensures
        r is Ok ==> producer.started && producer.client is Some && checked is Ok,
        !producer.started || producer.client is None ==> r is Err,
        checked is Err ==> r is Err,
        producer.started && producer.client is Some && checked is Err && i == 0 ==> error_text(r->Err_0) == error_text(
            checked->Err_0,
        ),
{
    if r is Ok {
        assert(message_fault(msgs@[i], producer.cfg.max_message_size) is None);
    }
    if producer.ready() && checked is Err && i == 0 && r is Err {
        assert(!all_fine(msgs@, producer.cfg.max_message_size));
        let k = choose|k: int|
            {
                &&& 0 <= k < msgs@.len()
                &&& is_fault(r->Err_0, message_fault(#[trigger] msgs@[k], producer.cfg.max_message_size))
                &&& all_fine(msgs@.subrange(0, k), producer.cfg.max_message_size)
            };
        if k > 0 {
            assert(msgs@.subrange(0, k)[0] == msgs@[0]);
        }
    }
}

/// A batch that is closed carries the bytes that were given, and a unique key; its messages stay.
pub proof fn law_sealed_batch_carries_its_bytes(batch: &mut MessageBatch, fresh: &str, body: Vec<u8>)
    requires
        call_ensures(MessageBatch::seal, (batch, fresh, body), ()),
    ensures
        body_bytes(final(batch).message.body) == body@,
        prop(final(batch).message.properties, "UNIQ_KEY"@) is Some,
        prop(old(batch).message.properties, "UNIQ_KEY"@) is None ==> prop(
            final(batch).message.properties,
            "UNIQ_KEY"@,
        ) == Some(fresh@),
        final(batch).messages == old(batch).messages,
        final(batch).message.topic == old(batch).message.topic,
{
    let before = old(batch).message;
    let after = final(batch).message;
    if prop(before.properties, "UNIQ_KEY"@) is Some {
        lemma_prop_by_props(before, after, "UNIQ_KEY"@);
    } else {
        lemma_prop_inserted(before, after, "UNIQ_KEY"@, "UNIQ_KEY"@, fresh@);
    }
}

/// A message is called back at the broker that has it, where something is known of that broker;
/// it fails only where nothing is, and the topic has no broker with an address either.
pub proof fn law_recall_prefers_the_broker_that_has_it<C>(
    instance: &MQClientInstance<C>,
    broker_name: &str,
    topic: &str,
    known: Option<String>,
    r: Result<String, Error>,
)
    requires
        call_ensures(recall_addr::<C>, (instance, broker_name, topic), r),
        call_ensures(MQClientInstance::<C>::broker_addr_of, (instance, broker_name), known),
    ensures
        known is Some ==> r is Ok,
        known is None ==> (r is Ok <==> instance.topic_route_table@.dom().contains(topic@) && exists|i: int|
            0 <= i < instance.topic_route_table@[topic@].broker_datas@.len() && (
            #[trigger] instance.topic_route_table@[topic@].broker_datas@[i]).broker_addrs@.len() > 0),
        r is Err ==> r->Err_0 is Client,
{
    lemma_first_listed(instance.topic_route_table@[topic@].broker_datas@, 0);
}

proof fn lemma_first_listed(brokers: Seq<BrokerData>, from: int)
    requires
        0 <= from <= brokers.len(),
    ensures
        first_listed(brokers, from) >= 0 <==> exists|i: int|
            from <= i < brokers.len() && (#[trigger] brokers[i]).broker_addrs@.len() > 0,
        first_listed(brokers, from) >= 0 ==> from <= first_listed(brokers, from) < brokers.len() && brokers[first_listed(
            brokers,
            from,
        )].broker_addrs@.len() > 0,
    decreases brokers.len() - from,
{
    if from < brokers.len() && brokers[from].broker_addrs@.len() == 0 {
        lemma_first_listed(brokers, from + 1);
    }
}

/// A request to call a message back holds its group, topic, handle and broker, each in its place.
pub proof fn law_recall_names_the_message(
    group: &str,
    topic: &str,
    handle: &str,
    broker: &str,
    r: RecallMessageRequestHeader,
)
    requires
        call_ensures(recall_header, (group, topic, handle, broker), r),
    ensures
        opt(r.producer_group) == Some(group@) && opt(r.topic) == Some(topic@) && opt(r.recall_handle) == Some(handle@)
            && opt(r.broker_name) == Some(broker@),
{
}

/// A message that is sent once goes to the queue at the cursor, which then moves on by one.
pub proof fn law_next_queue_moves_the_cursor(info: &mut TopicPublishInfo, topic: &str, r: Result<MessageQueue, Error>)
    requires
        call_ensures(next_queue, (info, topic), r),
    ensures
        r is Ok <==> old(info).list().len() > 0,
        r matches Ok(mq) ==> {
            &&& mq.topic@ == topic@
            &&& mq.broker_name@ == old(info).list()[old(info).cursor() as int % old(info).list().len() as int].broker_name@
            &&& mq.queue_id == old(info).list()[old(info).cursor() as int % old(info).list().len() as int].queue_id
            &&& old(info).cursor() < i64::MAX ==> final(info).cursor() == old(info).cursor() + 1
        },
        final(info).list() == old(info).list(),
{
    reveal_with_fuel(advanced, 2);
}

} // verus!

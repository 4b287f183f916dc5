//! The publisher: bound to one destination topic, it turns each accepted
//! operation into a serialized broker record and keeps the order in which
//! records were handed out, so that submission order equals call order.
//!
//! The broker connection itself lives with the caller: every operation
//! returns the record to send, and the ghost history states in which order
//! the records left the publisher.

use vstd::prelude::*;
use crate::errors::PublishError;
use crate::event::EventType;
use crate::event::Product;
use crate::event::ProductEvent;
use crate::event::ProductEventView;
use crate::event::ProductView;
use crate::event::create_event;
use crate::event::event_ok;
use crate::event::version_ok;
use crate::json::encode_event;
use crate::json::event_payload;

verus! {

/// A serialized message bound for one topic.
pub struct BrokerRecord {
    pub topic: String,
    pub payload: String,
}

/// The mathematical value of a broker record.
pub struct BrokerRecordView {
    pub topic: Seq<char>,
    pub payload: Seq<char>,
}

impl View for BrokerRecord {
    type V = BrokerRecordView;

    open spec fn view(&self) -> BrokerRecordView {
        BrokerRecordView { topic: self.topic@, payload: self.payload@ }
    }
}

/// What one accepted publish call does to the submission history: the new
/// payload goes at the end, after everything already submitted.
pub open spec fn submit(h: Seq<Seq<char>>, p: Seq<char>) -> Seq<Seq<char>> {
    h.push(p)
}

/// The history after submitting the payloads `ps` one by one, first first.
pub open spec fn submit_all(h: Seq<Seq<char>>, ps: Seq<Seq<char>>) -> Seq<Seq<char>>
    decreases ps.len(),
{
    if ps.len() == 0 {
        h
    } else {
        submit_all(submit(h, ps[0]), ps.subrange(1, ps.len() as int))
    }
}

/// Submission order equals call order: a run of publish calls with payloads
/// `ps`, issued one after the other against a history `h`, leaves the history
/// `h` followed by exactly `ps`, in the same relative order.
pub proof fn lemma_submission_order(h: Seq<Seq<char>>, ps: Seq<Seq<char>>)
    ensures
        submit_all(h, ps) == h + ps,
    decreases ps.len(),
{
    if ps.len() == 0 {
        assert(submit_all(h, ps) =~= h + ps);
    } else {
        let rest = ps.subrange(1, ps.len() as int);
        lemma_submission_order(submit(h, ps[0]), rest);
        assert(submit(h, ps[0]) + rest =~= h + ps);
    }
}

/// The record an accepted operation hands out: bound for `topic`, carrying
/// the payload of an event the factory owes for `p` and `t`.
pub open spec fn record_for(
    topic: Seq<char>,
    p: ProductView,
    t: EventType,
    rec: BrokerRecordView,
) -> bool {
    &&& rec.topic == topic
    &&& exists|e: ProductEventView| event_ok(p, t, e) && rec.payload == event_payload(e)
}

/// The publisher of product events for one destination topic.
pub struct ProductEventService {
    topic: String,
    history: Ghost<Seq<Seq<char>>>,
}

/// The mathematical value of a publisher: its topic and the payloads it has
/// handed out, in call order.
pub struct ServiceView {
    pub topic: Seq<char>,
    pub history: Seq<Seq<char>>,
}

impl View for ProductEventService {
    type V = ServiceView;

    closed spec fn view(&self) -> ServiceView {
        ServiceView { topic: self.topic@, history: self.history@ }
    }
}

impl ProductEventService {
    /// A publisher bound to one destination topic, with nothing submitted yet.
    pub fn new(topic: String) -> (s: Self)
        ensures
            s@.topic == topic@,
            s@.history == Seq::<Seq<char>>::empty(),
    {
        ProductEventService { topic, history: Ghost(Seq::empty()) }
    }

    /// The destination topic.
    pub fn topic(&self) -> (t: &String)
        ensures
            t@ == self@.topic,
    {
        &self.topic
    }

    /// Serializes one built event into the record to send, and appends its
    /// payload to the submission history.
    pub fn publish(&mut self, event: ProductEvent) -> (rec: BrokerRecord)
        ensures
            rec@.topic == old(self)@.topic,
            rec@.payload == event_payload(event@),
            final(self)@.topic == old(self)@.topic,
            final(self)@.history == submit(old(self)@.history, event_payload(event@)),
    {
        let payload = encode_event(&event);
        self.history = Ghost(self.history@.push(payload@));
        BrokerRecord { topic: self.topic.clone(), payload }
    }

    /// Builds and serializes the creation event for `product`.
    pub fn create(&mut self, product: Product) -> (r: Result<BrokerRecord, PublishError>)
        ensures
            r is Ok <==> version_ok(product@.version),
            final(self)@.topic == old(self)@.topic,
            r is Ok ==> record_for(old(self)@.topic, product@, EventType::Created, r->Ok_0@)
                && final(self)@.history == submit(old(self)@.history, r->Ok_0@.payload),
            r is Err ==> final(self)@.history == old(self)@.history && r->Err_0
                == PublishError::MalformedVersion,
    {
        match create_event(product, EventType::Created) {
            Ok(event) => Ok(self.publish(event)),
            Err(e) => Err(e),
        }
    }

    /// Builds and serializes the update event for `product`.
    pub fn update(&mut self, product: Product) -> (r: Result<BrokerRecord, PublishError>)
        ensures
            r is Ok <==> version_ok(product@.version),
            final(self)@.topic == old(self)@.topic,
            r is Ok ==> record_for(old(self)@.topic, product@, EventType::Updated, r->Ok_0@)
                && final(self)@.history == submit(old(self)@.history, r->Ok_0@.payload),
            r is Err ==> final(self)@.history == old(self)@.history && r->Err_0
                == PublishError::MalformedVersion,
    {
        match create_event(product, EventType::Updated) {
            Ok(event) => Ok(self.publish(event)),
            Err(e) => Err(e),
        }
    }

    /// Builds and serializes the deletion event for `product`.
    pub fn delete(&mut self, product: Product) -> (r: Result<BrokerRecord, PublishError>)
        ensures
            r is Ok <==> version_ok(product@.version),
            final(self)@.topic == old(self)@.topic,
            r is Ok ==> record_for(old(self)@.topic, product@, EventType::Deleted, r->Ok_0@)
                && final(self)@.history == submit(old(self)@.history, r->Ok_0@.payload),
            r is Err ==> final(self)@.history == old(self)@.history && r->Err_0
                == PublishError::MalformedVersion,
    {
        match create_event(product, EventType::Deleted) {
            Ok(event) => Ok(self.publish(event)),
            Err(e) => Err(e),
        }
    }
}

} // verus!

//! The Raft log entry

use vstd::prelude::*;

use crate::membership::Membership;
use crate::text::decimal;
use crate::text::decimal_text;

verus! {

/// Where an entry stands in the log: the term of the leader that proposed it, and its index
pub type EzLogId = (u64, u64);

/// Whether the log id `a` comes before `b`, or is `b`
///
/// Terms are compared first; the log that has nothing in it ends before every id.
pub open spec fn log_id_le(a: Option<EzLogId>, b: Option<EzLogId>) -> bool {
    match (a, b) {
        (None, _) => true,
        (Some(_), None) => false,
        (Some(a), Some(b)) => a.0 < b.0 || (a.0 == b.0 && a.1 <= b.1),
    }
}

/// The later of two log ids
pub open spec fn later(a: Option<EzLogId>, b: Option<EzLogId>) -> Option<EzLogId> {
    if log_id_le(a, b) {
        b
    } else {
        a
    }
}

/// The later of two log ids
pub fn later_log_id(a: Option<EzLogId>, b: Option<EzLogId>) -> (id: Option<EzLogId>)
    ensures
        id == later(a, b),
{
    match (a, b) {
        (None, _) => b,
        (Some(_), None) => a,
        (Some(x), Some(y)) => {
            if x.0 < y.0 || (x.0 == y.0 && x.1 <= y.1) {
                b
            } else {
                a
            }
        },
    }
}

/// A request on its way through the log
#[derive(Debug)]
pub struct EzRequest<D>(pub D);

impl<D: Clone> Clone for EzRequest<D> {
    fn clone(&self) -> (copy: EzRequest<D>)
        ensures
            cloned::<D>(self.0, copy.0),
    {
        EzRequest(self.0.clone())
    }
}

/// What a log entry carries
#[derive(Debug)]
pub enum EntryPayload<R> {
    /// Nothing: an entry a leader writes for its index alone
    Blank,

    /// A request for the application
    Normal(R),

    /// The members of the cluster from this entry on
    Membership(Membership),
}

/// A Raft log entry: a log id, and a payload
#[derive(Debug)]
pub struct EzEntry<D> {
    /// Log ID (term, index)
    pub log_id: EzLogId,

    /// Entry payload (Normal request, Blank, or Membership change)
    pub payload: EntryPayload<EzRequest<D>>,
}

/// Whether `copy` carries what `payload` does, with a request cloned by the request's own `Clone`
pub open spec fn payload_cloned<D: Clone>(
    payload: EntryPayload<EzRequest<D>>,
    copy: EntryPayload<EzRequest<D>>,
) -> bool {
    match payload {
        EntryPayload::Blank => copy is Blank,
        EntryPayload::Normal(request) => match copy {
            EntryPayload::Normal(other) => cloned::<D>(request.0, other.0),
            _ => false,
        },
        EntryPayload::Membership(membership) => match copy {
            EntryPayload::Membership(other) => other@ == membership@,
            _ => false,
        },
    }
}

impl<D: Clone> Clone for EzEntry<D> {
    fn clone(&self) -> (copy: EzEntry<D>)
        ensures
            copy.log_id == self.log_id,
            payload_cloned(self.payload, copy.payload),
    {
        let payload = match &self.payload {
            EntryPayload::Blank => EntryPayload::Blank,
            EntryPayload::Normal(request) => EntryPayload::Normal(request.clone()),
            EntryPayload::Membership(membership) => EntryPayload::Membership(membership.clone()),
        };
        EzEntry { log_id: self.log_id, payload }
    }
}

impl<D> EzEntry<D> {
    /// An entry of this payload at this place in the log
    pub fn new(log_id: EzLogId, payload: EntryPayload<EzRequest<D>>) -> (entry: EzEntry<D>)
        ensures
            entry.log_id == log_id,
            entry.payload == payload,
    {
        EzEntry { log_id, payload }
    }

    /// The term of the leader that proposed the entry, and the entry's index
    pub fn log_id_parts(&self) -> (parts: (u64, u64))
        ensures
            parts == self.log_id,
    {
        (self.log_id.0, self.log_id.1)
    }

    /// Move the entry to another place in the log
    pub fn set_log_id(&mut self, new: EzLogId)
        ensures
            final(self).log_id == new,
            final(self).payload == old(self).payload,
    {
        self.log_id = new;
    }

    /// The members that the entry sets, if it sets any
    pub fn get_membership(&self) -> (membership: Option<Membership>)
        ensures
            match self.payload {
                EntryPayload::Membership(carried) => membership is Some && membership->0@
                    == carried@,
                _ => membership is None,
            },
    {
        match &self.payload {
            EntryPayload::Membership(membership) => Some(membership.clone()),
            _ => None,
        }
    }

    /// The entry as text, around a payload already rendered
    pub fn render(&self, payload: &str) -> (text: String)
        ensures
            text@ == "EzEntry(log_id: ("@ + decimal(self.log_id.0 as nat) + ", "@ + decimal(
                self.log_id.1 as nat,
            ) + "), payload: "@ + payload@ + ")"@,
    {
        let mut text = String::from_str("EzEntry(log_id: (");
        text.append(decimal_text(self.log_id.0).as_str());
        text.append(", ");
        text.append(decimal_text(self.log_id.1).as_str());
        text.append("), payload: ");
        text.append(payload);
        text.append(")");
        text
    }
}

/// Log ids are in order of their terms, and within a term in order of their indexes; a log with
/// nothing in it ends before all of them. No two of them are in the same place.
pub proof fn law_log_ids_are_in_order(a: Option<EzLogId>, b: Option<EzLogId>, c: Option<EzLogId>)
    ensures
        log_id_le(None, a),
        a is Some ==> !log_id_le(a, None),
        a is Some && b is Some && (a->0).0 < (b->0).0 ==> log_id_le(a, b) && !log_id_le(b, a),
        a is Some && b is Some && (a->0).0 == (b->0).0 ==> (log_id_le(a, b) <==> (a->0).1 <= (
        b->0).1),
        log_id_le(a, b) || log_id_le(b, a),
        log_id_le(a, b) && log_id_le(b, a) ==> a == b,
        log_id_le(a, b) && log_id_le(b, c) ==> log_id_le(a, c),
{
}

/// The later of two log ids is one of the two, and neither of them comes after it.
pub proof fn law_later_comes_after_neither(a: Option<EzLogId>, b: Option<EzLogId>)
    ensures
        later(a, b) == a || later(a, b) == b,
        log_id_le(a, later(a, b)),
        log_id_le(b, later(a, b)),
        later(a, b) == later(b, a),
{
}

/// A copy of an entry carries what the entry does: nothing, the same members, or a clone of the
/// request.
pub proof fn law_copied_payload_is_the_same<D: Clone>(
    payload: EntryPayload<EzRequest<D>>,
    copy: EntryPayload<EzRequest<D>>,
)
    requires
        payload_cloned(payload, copy),
    ensures
        payload is Blank <==> copy is Blank,
        payload is Normal <==> copy is Normal,
        payload is Membership <==> copy is Membership,
        payload is Normal ==> cloned::<D>(payload->Normal_0.0, copy->Normal_0.0),
        payload is Membership ==> copy->Membership_0@ == payload->Membership_0@,
{
}

} // verus!

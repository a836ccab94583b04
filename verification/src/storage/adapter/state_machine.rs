//! The state machine: the application, what it has applied, and its snapshot
//!
//! The application itself runs elsewhere: what is kept here is which requests reach it, in what
//! order, and what is remembered of the rest.

use vstd::prelude::*;

use crate::entry::EntryPayload;
use crate::entry::EzEntry;
use crate::entry::EzLogId;
use crate::entry::EzRequest;
use crate::membership::StoredMembership;
use crate::membership::StoredMembershipView;
use crate::snapshot::EzSnapshot;
use crate::snapshot::EzSnapshotMeta;
use crate::snapshot::EzSnapshotMetaView;
use crate::snapshot::EzSnapshotView;
use crate::snapshot::new_snapshot;
use crate::text::decimal;
use crate::text::decimal_text;

verus! {

/// The state machine of one node
#[derive(Debug)]
pub struct StateMachineStore<A> {
    /// User's application: the state machine value itself
    app: A,

    /// Last log ID applied to the state machine
    last_applied: Option<EzLogId>,

    /// Last membership applied to the state machine
    membership: StoredMembership,

    /// The snapshot last written or loaded, kept so that serving one to a lagging follower does
    /// not load it again
    snapshot: Option<EzSnapshot>,
}

/// How far a state machine has come: the last entry applied, and the members as of then
#[verifier::ext_equal]
pub struct Applied {
    pub last_applied: Option<EzLogId>,
    pub membership: StoredMembershipView,
}

impl Applied {
    /// A state machine that nothing was applied to
    pub open spec fn nothing() -> Applied {
        Applied { last_applied: None, membership: StoredMembershipView::empty() }
    }

    /// How far a state machine is that was restored from a snapshot
    pub open spec fn covered_by(meta: EzSnapshotMetaView) -> Applied {
        Applied { last_applied: meta.last_log_id, membership: meta.last_membership }
    }

    /// How far it is once `entry` was applied
    pub open spec fn after<D>(self, entry: EzEntry<D>) -> Applied {
        Applied {
            last_applied: Some(entry.log_id),
            membership: match entry.payload {
                EntryPayload::Membership(membership) => StoredMembershipView {
                    log_id: Some(entry.log_id),
                    membership: membership@,
                },
                _ => self.membership,
            },
        }
    }

    /// How far it is once all of `entries` were applied in order
    pub open spec fn after_all<D>(self, entries: Seq<EzEntry<D>>) -> Applied
        decreases entries.len(),
    {
        if entries.len() == 0 {
            self
        } else {
            self.after_all(entries.drop_last()).after(entries.last())
        }
    }

    /// The name of a snapshot taken here: the term and the index of the last entry applied
    pub open spec fn snapshot_id(self) -> Seq<char> {
        match self.last_applied {
            Some(log_id) => decimal(log_id.0 as nat) + "-"@ + decimal(log_id.1 as nat),
            None => "0-0"@,
        }
    }

    /// What a snapshot taken here covers
    pub open spec fn snapshot_meta(self) -> EzSnapshotMetaView {
        EzSnapshotMetaView {
            last_log_id: self.last_applied,
            last_membership: self.membership,
            snapshot_id: self.snapshot_id(),
        }
    }
}

/// The request of an entry, if it carries one for the application
pub open spec fn request_of<D>(entry: EzEntry<D>) -> Option<D> {
    match entry.payload {
        EntryPayload::Normal(request) => Some(request.0),
        _ => None,
    }
}

/// A snapshot from elsewhere that is on its way in
///
/// Its bytes deserialized; it is to be persisted, and then kept.
#[derive(Debug)]
pub struct Install<A> {
    snapshot: EzSnapshot,
    app: A,
}

impl<A> Install<A> {
    /// The snapshot to be kept
    pub closed spec fn snapshot(self) -> EzSnapshotView {
        self.snapshot@
    }

    /// The application state that it holds
    pub closed spec fn app(self) -> A {
        self.app
    }

    /// Take in a snapshot, together with what its bytes deserialized to
    ///
    /// Deserialized before anything keeps it. Bytes that do not parse are this transfer's
    /// problem, and persisting them would make them every later start's problem too, with the
    /// state they replaced already gone.
    pub fn begin<E>(meta: &EzSnapshotMeta, data: &Vec<u8>, parsed: Result<A, E>) -> (install: Result<
        Install<A>,
        E,
    >)
        ensures
            match parsed {
                Ok(app) => {
                    &&& install is Ok
                    &&& install->Ok_0.snapshot() == (EzSnapshotView { meta: meta@, data: data@ })
                    &&& install->Ok_0.app() == app
                },
                Err(e) => install == Err::<Install<A>, E>(e),
            },
    {
        match parsed {
            Ok(app) => Ok(Install { snapshot: new_snapshot(meta, data), app }),
            Err(e) => Err(e),
        }
    }

    /// The snapshot as it is to be persisted
    pub fn to_persist(&self) -> (snapshot: EzSnapshot)
        ensures
            snapshot@ == self.snapshot(),
    {
        self.snapshot.clone()
    }
}

impl<A> StateMachineStore<A> {
    /// The application state
    pub closed spec fn app(self) -> A {
        self.app
    }

    /// How far it has come
    pub closed spec fn applied(self) -> Applied {
        Applied { last_applied: self.last_applied, membership: self.membership@ }
    }

    /// The snapshot that a lagging follower would be served
    pub closed spec fn snapshot(self) -> Option<EzSnapshotView> {
        match self.snapshot {
            Some(snapshot) => Some(snapshot@),
            None => None,
        }
    }

    /// Whether this is the state that a node starts with that loaded `snapshot`, and that would
    /// start with `app` for want of one
    pub open spec fn restored_from<E>(
        self,
        snapshot: Option<(EzSnapshot, Result<A, E>)>,
        app: A,
    ) -> bool {
        match snapshot {
            Some((snapshot, parsed)) => {
                &&& parsed is Ok ==> self.app() == parsed->Ok_0
                &&& self.applied() == Applied::covered_by(snapshot@.meta)
                &&& self.snapshot() == Some(snapshot@)
            },
            None => {
                &&& self.app() == app
                &&& self.applied() == Applied::nothing()
                &&& self.snapshot() is None
            },
        }
    }

    /// Restore the state machine from the snapshot that was loaded, if there is one
    ///
    /// The snapshot comes with what its bytes deserialized to. The state is restored here, not
    /// just its position: only the log tail after the position is applied again.
    pub fn new<E>(app: A, snapshot: Option<(EzSnapshot, Result<A, E>)>) -> (sm: Result<
        StateMachineStore<A>,
        E,
    >)
        ensures
            match sm {
                Ok(sm) => (snapshot matches Some((_, parsed)) ==> parsed is Ok)
                    && sm.restored_from(snapshot, app),
                Err(e) => snapshot matches Some((_, parsed)) && parsed == Err::<A, E>(e),
            },
    {
        match snapshot {
            Some((snapshot, parsed)) => match parsed {
                Ok(app) => {
                    let last_applied = snapshot.meta.last_log_id;
                    let membership = snapshot.meta.last_membership.clone();
                    Ok(StateMachineStore { app, last_applied, membership, snapshot: Some(snapshot) })
                },
                Err(e) => Err(e),
            },
            None => Ok(
                StateMachineStore {
                    app,
                    last_applied: None,
                    membership: StoredMembership::default(),
                    snapshot: None,
                },
            ),
        }
    }

    /// Run a closure over the applied application state
    pub fn read<F: FnOnce(&A) -> R, R>(&self, read: F) -> (result: R)
        requires
            call_requires(read, (&self.app(),)),
        ensures
            call_ensures(read, (&self.app(),), result),
    {
        read(&self.app)
    }

    /// The application state, for a request to be applied to
    pub fn app_mut(&mut self) -> (app: &mut A)
        ensures
            *app == old(self).app(),
            final(self).app() == *final(app),
            final(self).applied() == old(self).applied(),
            final(self).snapshot() == old(self).snapshot(),
    {
        &mut self.app
    }

    /// How far the state machine has come: the last entry applied, and the members as of then
    pub fn applied_state(&self) -> (state: (Option<EzLogId>, StoredMembership))
        ensures
            state.0 == self.applied().last_applied,
            state.1@ == self.applied().membership,
    {
        (self.last_applied, self.membership.clone())
    }

    /// Apply one entry, and return the request that the application has to be given
    ///
    /// A membership is kept here; a blank entry has nothing in it. Either way there is nothing
    /// for the application, and nothing to answer.
    pub fn apply<D>(&mut self, entry: EzEntry<D>) -> (request: Option<D>)
        ensures
            request == request_of(entry),
            final(self).applied() == old(self).applied().after(entry),
            final(self).app() == old(self).app(),
            final(self).snapshot() == old(self).snapshot(),
    {
        let log_id = entry.log_id;
        self.last_applied = Some(log_id);
        match entry.payload {
            EntryPayload::Normal(request) => Some(request.0),
            EntryPayload::Membership(membership) => {
                self.membership = StoredMembership { log_id: Some(log_id), membership };
                None
            },
            EntryPayload::Blank => None,
        }
    }

    /// Finish taking in a snapshot from elsewhere, by what persisting it came to
    ///
    /// Nothing of a snapshot that was not persisted is kept. The log positions are not touched
    /// here: the purge that follows records both of them.
    pub fn install_snapshot<E>(&mut self, install: Install<A>, persisted: Result<(), E>) -> (result:
        Result<(), E>)
        ensures
            match persisted {
                Ok(_) => {
                    &&& result is Ok
                    &&& final(self).app() == install.app()
                    &&& final(self).applied() == Applied::covered_by(install.snapshot().meta)
                    &&& final(self).snapshot() == Some(install.snapshot())
                },
                Err(e) => {
                    &&& result == Err::<(), E>(e)
                    &&& *final(self) == *old(self)
                },
            },
    {
        match persisted {
            Ok(()) => {
                let Install { snapshot, app } = install;
                self.last_applied = snapshot.meta.last_log_id;
                self.membership = snapshot.meta.last_membership.clone();
                self.app = app;
                self.snapshot = Some(snapshot);
                Ok(())
            },
            Err(e) => Err(e),
        }
    }

    /// The snapshot to serve to a lagging follower
    pub fn get_current_snapshot(&self) -> (snapshot: Option<EzSnapshot>)
        ensures
            match snapshot {
                Some(snapshot) => self.snapshot() == Some(snapshot@),
                None => self.snapshot() is None,
            },
    {
        match &self.snapshot {
            Some(snapshot) => Some(snapshot.clone()),
            None => None,
        }
    }

    /// A snapshot of the state as it is, around the application state serialized as `data`
    ///
    /// To be persisted before anything else is done with it: the log entries that it covers are
    /// purged right after, and a durable purge point with no durable snapshot is an unrecoverable
    /// state. [`Self::built_snapshot`] takes what persisting it came to.
    pub fn build_snapshot(&self, data: Vec<u8>) -> (snapshot: EzSnapshot)
        ensures
            snapshot@ == (EzSnapshotView { meta: self.applied().snapshot_meta(), data: data@ }),
    {
        let snapshot_id = match self.last_applied {
            Some(log_id) => {
                let mut id = decimal_text(log_id.0);
                id.append("-");
                id.append(decimal_text(log_id.1).as_str());
                id
            },
            None => String::from_str("0-0"),
        };
        let meta = EzSnapshotMeta {
            last_log_id: self.last_applied,
            last_membership: self.membership.clone(),
            snapshot_id,
        };
        EzSnapshot { meta, data }
    }

    /// Finish a snapshot of this state machine's own, by what persisting it came to
    pub fn built_snapshot<E>(&mut self, snapshot: EzSnapshot, persisted: Result<(), E>) -> (result:
        Result<EzSnapshot, E>)
        ensures
            match persisted {
                Ok(_) => {
                    &&& result is Ok
                    &&& result->Ok_0@ == snapshot@
                    &&& final(self).snapshot() == Some(snapshot@)
                    &&& final(self).app() == old(self).app()
                    &&& final(self).applied() == old(self).applied()
                },
                Err(e) => {
                    &&& result == Err::<EzSnapshot, E>(e)
                    &&& *final(self) == *old(self)
                },
            },
    {
        match persisted {
            Ok(()) => {
                self.snapshot = Some(snapshot.clone());
                Ok(snapshot)
            },
            Err(e) => Err(e),
        }
    }
}

/// Applying the entries of a log in two runs is applying them in one.
pub proof fn law_apply_in_two_runs<D>(
    applied: Applied,
    first: Seq<EzEntry<D>>,
    second: Seq<EzEntry<D>>,
)
    ensures
        applied.after_all(first + second) == applied.after_all(first).after_all(second),
    decreases second.len(),
{
    if second.len() == 0 {
        assert(first + second =~= first);
    } else {
        law_apply_in_two_runs(applied, first, second.drop_last());
        assert((first + second).drop_last() =~= first + second.drop_last());
    }
}

/// The application state once all of `entries` were applied in order, where `step` is what one
/// request does to it
pub open spec fn run<A, D>(step: spec_fn(A, D) -> A, app: A, entries: Seq<EzEntry<D>>) -> A
    decreases entries.len(),
{
    if entries.len() == 0 {
        app
    } else {
        let before = run(step, app, entries.drop_last());
        match request_of(entries.last()) {
            Some(request) => step(before, request),
            None => before,
        }
    }
}

/// Running the entries of a log in two runs is running them in one.
pub proof fn law_run_in_two_runs<A, D>(
    step: spec_fn(A, D) -> A,
    app: A,
    first: Seq<EzEntry<D>>,
    second: Seq<EzEntry<D>>,
)
    ensures
        run(step, app, first + second) == run(step, run(step, app, first), second),
    decreases second.len(),
{
    if second.len() == 0 {
        assert(first + second =~= first);
    } else {
        law_run_in_two_runs(step, app, first, second.drop_last());
        assert((first + second).drop_last() =~= first + second.drop_last());
    }
}

/// A node that restarts from a snapshot, and applies the entries after it, comes to where it was
/// when it had applied them all, in its application's state as in its position and its members: the
/// snapshot was taken after the entries `covered`, and the log still holds `tail`.
pub proof fn law_restart_resumes_at_the_snapshot<A, D>(
    step: spec_fn(A, D) -> A,
    app: A,
    applied: Applied,
    covered: Seq<EzEntry<D>>,
    tail: Seq<EzEntry<D>>,
)
    ensures
        run(step, run(step, app, covered), tail) == run(step, app, covered + tail),
        Applied::covered_by(applied.after_all(covered).snapshot_meta()).after_all(tail)
            == applied.after_all(covered + tail),
{
    law_run_in_two_runs(step, app, covered, tail);
    law_apply_in_two_runs(applied, covered, tail);
}

/// The position is that of the last entry applied, and the members stay what they were while no
/// entry sets them.
pub proof fn law_position_is_the_last_entry<D>(applied: Applied, entries: Seq<EzEntry<D>>)
    requires
        entries.len() > 0,
    ensures
        applied.after_all(entries).last_applied == Some(entries.last().log_id),
        (forall|i: int|
            0 <= i < entries.len() ==> !((#[trigger] entries[i]).payload is Membership)) ==> applied
            .after_all(entries).membership == applied.membership,
    decreases entries.len(),
{
    if entries.len() > 1 {
        law_position_is_the_last_entry(applied, entries.drop_last());
        if forall|i: int| 0 <= i < entries.len() ==> !((#[trigger] entries[i]).payload
            is Membership) {
            assert forall|i: int| 0 <= i < entries.drop_last().len() implies !((
            #[trigger] entries.drop_last()[i]).payload is Membership) by {
                assert(entries.drop_last()[i] == entries[i]);
            }
            assert(!(entries[entries.len() - 1].payload is Membership));
        }
    } else {
        reveal_with_fuel(Applied::after_all, 2);
        assert(entries.drop_last() =~= Seq::empty());
        assert(entries[0] == entries.last());
    }
}

/// The members are those that the last membership entry set, and are remembered as set by it.
pub proof fn law_members_are_those_last_set<D>(
    applied: Applied,
    before: Seq<EzEntry<D>>,
    entry: EzEntry<D>,
    later: Seq<EzEntry<D>>,
)
    requires
        entry.payload is Membership,
        forall|i: int| 0 <= i < later.len() ==> !((#[trigger] later[i]).payload is Membership),
    ensures
        applied.after_all(before.push(entry) + later).membership == (StoredMembershipView {
            log_id: Some(entry.log_id),
            membership: entry.payload->Membership_0@,
        }),
{
    law_apply_in_two_runs(applied, before.push(entry), later);
    assert(before.push(entry).drop_last() =~= before);
    if later.len() > 0 {
        law_position_is_the_last_entry(applied.after_all(before.push(entry)), later);
    }
}

/// Every request reaches the application, as it is and wherever in the log it stands, and nothing
/// else does: an entry that carries a request gives that very request, and any other gives none.
pub proof fn law_every_request_reaches_the_application<D>(
    log_id: EzLogId,
    request: D,
    entry: EzEntry<D>,
)
    ensures
        request_of(EzEntry { log_id, payload: EntryPayload::Normal(EzRequest(request)) }) == Some(
            request,
        ),
        request_of(entry) is Some <==> entry.payload is Normal,
        request_of(entry) is Some ==> request_of(entry)->0 == entry.payload->Normal_0.0,
{
}

/// Each entry that is applied moves the position to itself, whatever it carries, and the members
/// change with an entry that sets them and with no other.
pub proof fn law_each_entry_moves_the_position<D>(applied: Applied, entry: EzEntry<D>)
    ensures
        applied.after(entry).last_applied == Some(entry.log_id),
        entry.payload matches EntryPayload::Membership(members) ==> applied.after(
            entry,
        ).membership.log_id == Some(entry.log_id) && applied.after(entry).membership.membership
            == members@,
        !(entry.payload is Membership) ==> applied.after(entry).membership == applied.membership,
{
}

/// Entries are applied one after the other: applying one more at the end is applying it to what the
/// others came to, in the position, in the members and in the application's state.
pub proof fn law_entries_are_applied_in_log_order<A, D>(
    step: spec_fn(A, D) -> A,
    app: A,
    applied: Applied,
    entries: Seq<EzEntry<D>>,
    entry: EzEntry<D>,
)
    ensures
        applied.after_all(entries.push(entry)) == applied.after_all(entries).after(entry),
        applied.after_all(Seq::<EzEntry<D>>::empty()) == applied,
        run(step, app, Seq::<EzEntry<D>>::empty()) == app,
        run(step, app, entries.push(entry)) == (match entry.payload {
            EntryPayload::Normal(request) => step(run(step, app, entries), request.0),
            _ => run(step, app, entries),
        }),
{
    assert(entries.push(entry).drop_last() =~= entries);
}

/// A state machine that nothing was applied to is at no position and has no members.
pub proof fn law_nothing_applied_is_no_position()
    ensures
        Applied::nothing().last_applied is None,
        Applied::nothing().membership.log_id is None,
        Applied::nothing().membership.membership.configs.len() == 0,
        Applied::nothing().membership.membership.nodes.len() == 0,
{
}

/// A snapshot covers what was applied, no more and no less, and restoring it comes back to just
/// that.
pub proof fn law_snapshot_covers_what_was_applied(applied: Applied, meta: EzSnapshotMetaView)
    ensures
        applied.snapshot_meta().last_log_id == applied.last_applied,
        applied.snapshot_meta().last_membership == applied.membership,
        Applied::covered_by(meta).last_applied == meta.last_log_id,
        Applied::covered_by(meta).membership == meta.last_membership,
        Applied::covered_by(applied.snapshot_meta()) == applied,
{
}

/// A snapshot is named after the term and the index that it was taken at, with a dash between them.
pub proof fn law_snapshot_is_named_after_its_position(applied: Applied)
    ensures
        applied.last_applied is None ==> applied.snapshot_meta().snapshot_id == "0-0"@,
        applied.last_applied matches Some(at) ==> {
            let name = applied.snapshot_meta().snapshot_id;
            let term = decimal(at.0 as nat);
            &&& name.len() > term.len()
            &&& name.take(term.len() as int) == term
            &&& name[term.len() as int] == '-'
            &&& name.skip((term.len() + 1) as int) == decimal(at.1 as nat)
        },
{
    if let Some(at) = applied.last_applied {
        reveal_strlit("-");
        let name = applied.snapshot_meta().snapshot_id;
        let term = decimal(at.0 as nat);
        assert(name.take(term.len() as int) =~= term);
        assert(name.skip((term.len() + 1) as int) =~= decimal(at.1 as nat));
    }
}

/// A node that starts from a snapshot has the state that its bytes hold, stands where it was taken,
/// with the members as of then, and serves it; one that has no snapshot has the state it was given,
/// and nothing applied.
pub proof fn law_start_restores_the_snapshot<A, E>(
    sm: StateMachineStore<A>,
    snapshot: Option<(EzSnapshot, Result<A, E>)>,
    app: A,
)
    requires
        sm.restored_from(snapshot, app),
    ensures
        snapshot matches Some((held, parsed)) ==> {
            &&& parsed matches Ok(state) ==> sm.app() == state
            &&& sm.applied().last_applied == held.meta.last_log_id
            &&& sm.applied().membership == held.meta.last_membership@
            &&& sm.snapshot() matches Some(served)
            &&& served.data == held.data@
            &&& served.meta == held.meta@
        },
        snapshot is None ==> {
            &&& sm.app() == app
            &&& sm.applied().last_applied is None
            &&& sm.applied().membership == StoredMembershipView::empty()
            &&& sm.snapshot() is None
        },
{
}

/// Applying an entry that carries a request gives that request, at every place of the log and
/// whatever it is, and applying any other entry gives none. Either way the entry is the last one
/// applied from then on, and the application's state is left for the request to change.
pub proof fn law_apply_gives_the_request_of_the_entry<A, D>(
    sm: &mut StateMachineStore<A>,
    entry: EzEntry<D>,
    given: Option<D>,
    state: (Option<EzLogId>, StoredMembership),
)
    requires
        call_ensures(StateMachineStore::<A>::apply::<D>, (sm, entry), given),
        call_ensures(StateMachineStore::<A>::applied_state, (final(sm),), state),
    ensures
        entry.payload matches EntryPayload::Normal(request) ==> given == Some(request.0),
        !(entry.payload is Normal) ==> given is None,
        state.0 == Some(entry.log_id),
        entry.payload matches EntryPayload::Membership(members) ==> state.1@.log_id == Some(
            entry.log_id,
        ) && state.1@.membership == members@,
        !(entry.payload is Membership) ==> state.1@ == old(sm).applied().membership,
        final(sm).app() == old(sm).app(),
        final(sm).snapshot() == old(sm).snapshot(),
{
}

/// A state machine that is restored from a snapshot that another one built is where that one was:
/// the same last entry, the same members, and the state that the bytes hold.
pub proof fn law_built_snapshot_restores_where_it_was_built<A, E>(
    sm: &StateMachineStore<A>,
    data: Vec<u8>,
    snapshot: EzSnapshot,
    fallback: A,
    state: A,
    restored: StateMachineStore<A>,
    was: (Option<EzLogId>, StoredMembership),
    is_now: (Option<EzLogId>, StoredMembership),
)
    requires
        call_ensures(StateMachineStore::<A>::build_snapshot, (sm, data), snapshot),
        call_ensures(
            StateMachineStore::<A>::new::<E>,
            (fallback, Some((snapshot, Ok::<A, E>(state)))),
            Ok(restored),
        ),
        call_ensures(StateMachineStore::<A>::applied_state, (sm,), was),
        call_ensures(StateMachineStore::<A>::applied_state, (&restored,), is_now),
    ensures
        snapshot.data@ == data@,
        is_now.0 == was.0,
        is_now.1@ == was.1@,
        restored.app() == state,
{
}

/// A snapshot from elsewhere that was persisted is taken in whole: it is the state, the position
/// and the members from then on, and it is what a lagging follower is served. One that was not
/// persisted, or does not parse, changes nothing.
pub proof fn law_installed_snapshot_is_served<A, E>(
    sm: &mut StateMachineStore<A>,
    meta: EzSnapshotMeta,
    data: Vec<u8>,
    state: A,
    install: Install<A>,
    persisted: Result<(), E>,
    result: Result<(), E>,
    served: Option<EzSnapshot>,
)
    requires
        call_ensures(Install::<A>::begin::<E>, (&meta, &data, Ok::<A, E>(state)), Ok(install)),
        call_ensures(
            StateMachineStore::<A>::install_snapshot::<E>,
            (sm, install, persisted),
            result,
        ),
        call_ensures(StateMachineStore::<A>::get_current_snapshot, (final(sm),), served),
    ensures
        result is Ok <==> persisted is Ok,
        persisted is Ok ==> {
            &&& served matches Some(served)
            &&& served.data@ == data@
            &&& served.meta@ == meta@
            &&& final(sm).app() == state
            &&& final(sm).applied().last_applied == meta.last_log_id
            &&& final(sm).applied().membership == meta.last_membership@
        },
        persisted is Err ==> *final(sm) == *old(sm),
{
}

} // verus!

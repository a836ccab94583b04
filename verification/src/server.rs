//! What a node answers over HTTP
//!
//! Three kinds of requests need a decision: a write, which any node takes and a follower hands on
//! to the leader; a node id and a change of membership, which only the leader gives, so that a
//! node that does not lead answers with where the leader is. Everything else goes straight to
//! Raft.

use vstd::prelude::*;

use crate::admin::client::AdminRequestView;
use crate::admin::client::Reply;
use crate::admin::client::endpoint_url;
use crate::admin::client::endpoint_url_text;
use crate::admin::membership_change::MembershipChange;
use crate::admin::redirect::Redirect;
use crate::membership::Membership;
use crate::membership::law_address_is_the_one_listed;
use crate::membership::law_membership_is_seen_whole;
use crate::node_role::NodeRole;
use crate::raft::EzRaft;
use crate::raft::MembersCall;
use crate::raft::WriteAnswer;
use crate::raft::call_for;
use crate::raft::is_elsewhere;
use crate::raft::leads_elsewhere;

verus! {

/// How long to wait for an election to settle before giving up on writing, in milliseconds
pub const WAIT_FOR_LEADER_MS: u64 = 10_000;

/// How long a forwarded write may take before the leader is given up on, in milliseconds
///
/// Generous, because the leader has to replicate and commit the request before answering.
pub const FORWARD_WRITE_TIMEOUT_MS: u64 = 10_000;

/// How many times a write is submitted
///
/// Exactly one answer is worth waiting on: the one that hands the write on to a leader without
/// naming one, which is an election in flight.
pub const WRITE_SUBMISSIONS: u64 = 2;

/// What a request came to that failed
pub open spec fn failure(what: Seq<char>, error: Seq<char>) -> Seq<char> {
    what + " failed: "@ + error
}

/// What a request came to that failed
pub fn failed(what: &str, error: &str) -> (message: String)
    ensures
        message@ == failure(what@, error@),
{
    let mut message = String::from_str(what);
    message.append(" failed: ");
    message.append(error);
    message
}

/// One reading of a node's view of its cluster
#[derive(Debug)]
pub struct Metrics {
    /// The node's own id
    pub id: u64,

    /// The leader, as far as the node knows of one
    pub current_leader: Option<u64>,

    /// Who is in the cluster
    pub membership: Membership,
}

/// Whether `redirect` is what a node answers that reads `metrics`, where the leader itself
/// answers with `answer`
pub open spec fn redirects<R>(metrics: Metrics, redirect: Redirect<R>, answer: R) -> bool {
    match metrics.current_leader {
        Some(leader) => if leader == metrics.id {
            redirect == Ok::<R, Option<String>>(answer)
        } else {
            &&& redirect is Err
            &&& match redirect->Err_0 {
                Some(addr) => metrics.membership@.address(leader) == Some(addr@),
                None => metrics.membership@.address(leader) is None,
            }
        },
        None => redirect == Err::<R, Option<String>>(None),
    }
}

/// The server of a node
#[derive(Debug)]
pub struct EzServer {
    raft: EzRaft,
}

impl EzServer {
    /// The node that is served
    pub closed spec fn raft(self) -> EzRaft {
        self.raft
    }

    pub fn new(raft: EzRaft) -> (server: EzServer)
        ensures
            server.raft() == raft,
    {
        EzServer { raft }
    }

    /// This node if it leads, or where to ask instead
    ///
    /// Membership is the leader's to change, so every admin handler starts here. The redirect is
    /// `None` when this node knows of no leader, which is a moment to wait out rather than a
    /// failure. Both answers come from one reading of the metrics, so they cannot disagree.
    pub fn leader_or_redirect(metrics: &Metrics) -> (redirect: Redirect<()>)
        ensures
            redirects(*metrics, redirect, ()),
    {
        match metrics.current_leader {
            Some(leader) => if leader == metrics.id {
                Ok(())
            } else {
                Err(metrics.membership.get_node(leader))
            },
            None => Err(None),
        }
    }

    /// Node id API handler, before anything is written: the leader appends a blank log entry
    pub fn handle_node_id(metrics: &Metrics) -> (redirect: Redirect<()>)
        ensures
            redirects(*metrics, redirect, ()),
    {
        Self::leader_or_redirect(metrics)
    }

    /// Node id API handler, once the blank entry was written or was not
    ///
    /// Hands out an id no other node has held, taken from the index of the entry: the log is the
    /// one counter every node already agrees on. Ids are therefore unique but not consecutive.
    pub fn node_id_answer(written: Result<u64, String>) -> (answer: Result<Redirect<u64>, String>)
        ensures
            match written {
                Ok(index) => answer == Ok::<Redirect<u64>, String>(Ok(index)),
                Err(error) => answer is Err && answer->Err_0@ == failure(
                    "node id write"@,
                    error@,
                ),
            },
    {
        match written {
            Ok(index) => Ok(Ok(index)),
            Err(error) => Err(failed("node id write", error.as_str())),
        }
    }

    /// Membership API handler: the call that makes the change, if this node leads
    pub fn handle_membership(metrics: &Metrics, change: MembershipChange) -> (redirect: Redirect<
        MembersCall,
    >)
        ensures
            redirects(*metrics, redirect, call_for(change, metrics.membership@)),
    {
        match Self::leader_or_redirect(metrics) {
            Ok(()) => Ok(EzRaft::members_call(change, &metrics.membership)),
            Err(redirect) => Err(redirect),
        }
    }

    /// Membership API handler, once the call for `change` was made
    pub fn membership_answer(change: &MembershipChange, done: Result<(), String>) -> (answer: Result<
        Redirect<()>,
        String,
    >)
        ensures
            match done {
                Ok(_) => answer is Ok && answer->Ok_0 is Ok,
                Err(error) => answer is Err && answer->Err_0@ == failure(
                    change_name(*change),
                    error@,
                ),
            },
    {
        match done {
            Ok(()) => Ok(Ok(())),
            Err(error) => {
                let what = match change {
                    MembershipChange::Add { .. } => "add_node",
                    MembershipChange::SetRole { role, .. } => match role {
                        NodeRole::Voter => "change_node_role to Voter",
                        NodeRole::Learner => "change_node_role to Learner",
                    },
                    MembershipChange::Remove { .. } => "remove_node",
                };
                Err(failed(what, error.as_str()))
            },
        }
    }

    /// Application write API handler
    ///
    /// Any node accepts a write: a follower forwards it and answers with what the leader applied,
    /// so a client never has to track which node is currently in charge.
    ///
    /// It is submitted first and the answer reacted to, rather than reading the metrics to decide
    /// where to send: leadership can change between any such check and the write that follows it,
    /// so only the write itself is authoritative about who leads now.
    pub fn handle_write<Q>(&self, req: Q) -> (write: HandleWrite<Q>)
        ensures
            write.address() == self.raft().address(),
            write.req() == req,
            write.submissions() == 0,
    {
        HandleWrite { addr: String::from_str(self.raft.addr()), req, submissions: 0 }
    }
}

/// What a change of membership is called when it failed
pub open spec fn change_name(change: MembershipChange) -> Seq<char> {
    match change {
        MembershipChange::Add { .. } => "add_node"@,
        MembershipChange::SetRole { role, .. } => match role {
            NodeRole::Voter => "change_node_role to Voter"@,
            NodeRole::Learner => "change_node_role to Learner"@,
        },
        MembershipChange::Remove { .. } => "remove_node"@,
    }
}

/// A write that a client sent to this node
#[derive(Debug)]
pub struct HandleWrite<Q> {
    /// The address of this node
    addr: String,

    /// What the client wants written
    req: Q,

    /// How many times the write was submitted
    submissions: u64,
}

/// What to do next for a write that a client sent
#[derive(Debug)]
pub enum HandleWriteStep<R> {
    /// Answer the client with what was applied
    Answer(R),

    /// Answer the client with this failure
    Fail(String),

    /// Send [`HandleWrite::request`] to this URL, and take the reply to [`HandleWrite::forwarded`]
    Forward { url: String },

    /// Wait until there is a leader, for a while, then submit [`HandleWrite::request`] again
    WaitForLeader,
}

/// What a node at `addr` does next, when the submission of a write, which is the first of its
/// submissions or is not, was answered with `answer`
pub open spec fn write_step<R>(
    addr: Seq<char>,
    first: bool,
    answer: WriteAnswer<R>,
) -> HandleWriteView<R> {
    match answer {
        WriteAnswer::Applied(Some(response)) => HandleWriteView::Answer(response),
        WriteAnswer::Applied(None) => HandleWriteView::Fail("write produced no response"@),
        WriteAnswer::Failed { error } => HandleWriteView::Fail(failure("write"@, error@)),
        WriteAnswer::ForwardToLeader { leader, error } => if leads_elsewhere(leader, addr) {
            HandleWriteView::Forward { leader: leader->0@ }
        } else if first {
            HandleWriteView::WaitForLeader
        } else {
            HandleWriteView::Fail(failure("write"@, error@))
        },
    }
}

/// A [`HandleWriteStep`] as a value, with the leader that a write is forwarded to
#[verifier::ext_equal]
pub enum HandleWriteView<R> {
    Answer(R),
    Fail(Seq<char>),
    Forward { leader: Seq<char> },
    WaitForLeader,
}

impl<R> HandleWriteStep<R> {
    /// Whether this is the step that `view` stands for
    pub open spec fn is_view(self, view: HandleWriteView<R>) -> bool {
        match view {
            HandleWriteView::Answer(response) => self == HandleWriteStep::Answer(response),
            HandleWriteView::Fail(message) => self matches HandleWriteStep::Fail(text) && text@
                == message,
            HandleWriteView::Forward { leader } => self matches HandleWriteStep::Forward { url }
                && url@ == endpoint_url(leader, "write"@),
            HandleWriteView::WaitForLeader => self is WaitForLeader,
        }
    }
}

impl<Q> HandleWrite<Q> {
    /// The address of this node
    pub closed spec fn address(self) -> Seq<char> {
        self.addr@
    }

    /// What the client wants written
    pub closed spec fn req(self) -> Q {
        self.req
    }

    /// How many times the write was submitted
    pub closed spec fn submissions(self) -> u64 {
        self.submissions
    }

    /// What the client wants written: what is submitted to Raft, and what the leader is sent
    pub fn request(&self) -> (req: &Q)
        ensures
            *req == self.req(),
    {
        &self.req
    }

    /// Take in what a submission of the write was answered with
    pub fn submitted<R>(&mut self, answer: WriteAnswer<R>) -> (step: HandleWriteStep<R>)
        requires
            old(self).submissions() < WRITE_SUBMISSIONS,
        ensures
            final(self).address() == old(self).address(),
            final(self).req() == old(self).req(),
            final(self).submissions() == old(self).submissions() + 1,
            step.is_view(write_step(old(self).address(), old(self).submissions() == 0, answer)),
    {
        let first: bool = self.submissions == 0;
        self.submissions = self.submissions + 1;
        match answer {
            WriteAnswer::Applied(Some(response)) => HandleWriteStep::Answer(response),
            WriteAnswer::Applied(None) => HandleWriteStep::Fail(
                String::from_str("write produced no response"),
            ),
            WriteAnswer::Failed { error } => HandleWriteStep::Fail(
                failed("write", error.as_str()),
            ),
            WriteAnswer::ForwardToLeader { leader, error } => {
                let elsewhere: bool = is_elsewhere(&leader, &self.addr);
                match leader {
                    Some(leader) if elsewhere => HandleWriteStep::Forward {
                        url: endpoint_url_text(leader.as_str(), "write"),
                    },
                    _ => if first {
                        HandleWriteStep::WaitForLeader
                    } else {
                        HandleWriteStep::Fail(failed("write", error.as_str()))
                    },
                }
            },
        }
    }

    /// Take in what the leader replied to a forwarded write
    ///
    /// The leader does the write on this node's behalf, so its answer is the one the client would
    /// have got by writing to the leader directly.
    pub fn forwarded<R>(&self, url: &str, reply: Reply<R>) -> (answer: Result<R, String>)
        ensures
            match reply {
                Reply::Answer(response) => answer == Ok::<R, String>(response),
                Reply::Unreachable { error } => answer is Err && answer->Err_0@ == failure(
                    "write"@,
                    "forwarding write to "@ + url@ + " failed: "@ + error@,
                ),
                Reply::Refused { status, body } => answer is Err && answer->Err_0@ == failure(
                    "write"@,
                    url@ + " responded "@ + status@ + ": "@ + body@,
                ),
                Reply::Unreadable { error } => answer is Err && answer->Err_0@ == failure(
                    "write"@,
                    "failed to parse write response: "@ + error@,
                ),
            },
    {
        match reply {
            Reply::Answer(response) => Ok(response),
            Reply::Unreachable { error } => {
                let mut message = String::from_str("forwarding write to ");
                message.append(url);
                message.append(" failed: ");
                message.append(error.as_str());
                Err(failed("write", message.as_str()))
            },
            Reply::Refused { status, body } => {
                let mut message = String::from_str(url);
                message.append(" responded ");
                message.append(status.as_str());
                message.append(": ");
                message.append(body.as_str());
                Err(failed("write", message.as_str()))
            },
            Reply::Unreadable { error } => {
                let mut message = String::from_str("failed to parse write response: ");
                message.append(error.as_str());
                Err(failed("write", message.as_str()))
            },
        }
    }
}

/// A request that only the leader can answer gets to the leader: a node that knows the leader's
/// address sends it there, one that leads answers it, and one that knows of no leader has it asked
/// again where it was.
pub proof fn law_redirected_request_goes_to_the_leader<B, R>(
    request: AdminRequestView<B>,
    metrics: Metrics,
    redirect: Redirect<R>,
    answer: R,
)
    requires
        redirects(metrics, redirect, answer),
    ensures
        ({
            let next = request.after(Ok::<Redirect<R>, String>(redirect));
            match metrics.current_leader {
                Some(leader) => if leader == metrics.id {
                    redirect == Ok::<R, Option<String>>(answer)
                } else {
                    match metrics.membership@.address(leader) {
                        Some(addr) => next.target == addr,
                        None => next.target == request.target,
                    }
                },
                None => next.target == request.target,
            }
        }),
{
}

/// A node never forwards a write to itself, which would repeat it over HTTP forever.
pub proof fn law_write_is_not_forwarded_to_itself<R>(
    addr: Seq<char>,
    first: bool,
    answer: WriteAnswer<R>,
)
    ensures
        write_step(addr, first, answer) matches HandleWriteView::Forward { leader } ==> leader
            != addr,
{
}

/// A write is waited out once at most: its second submission is answered or forwarded, whatever
/// it came to.
pub proof fn law_second_submission_is_the_last<R>(addr: Seq<char>, answer: WriteAnswer<R>)
    ensures
        !(write_step(addr, false, answer) is WaitForLeader),
{
}

/// What was applied is what the client is answered with, and a failure that names no leader is
/// never taken for success.
pub proof fn law_write_answers_what_was_applied<R>(
    addr: Seq<char>,
    first: bool,
    answer: WriteAnswer<R>,
    response: R,
)
    ensures
        write_step(addr, first, answer) == HandleWriteView::Answer(response) <==> answer
            == WriteAnswer::Applied(Some(response)),
{
}

/// A failure says what failed, and ends in why.
pub proof fn law_failure_says_what_and_why(what: Seq<char>, error: Seq<char>)
    ensures
        ({
            let between = " failed: "@;
            let message = failure(what, error);
            &&& message.len() == what.len() + between.len() + error.len()
            &&& message.take(what.len() as int) == what
            &&& message.subrange(what.len() as int, (what.len() + between.len()) as int) == between
            &&& message.skip((what.len() + between.len()) as int) == error
        }),
{
    let between = " failed: "@;
    let message = failure(what, error);
    assert(message.take(what.len() as int) =~= what);
    assert(message.subrange(what.len() as int, (what.len() + between.len()) as int) =~= between);
    assert(message.skip((what.len() + between.len()) as int) =~= error);
}

/// Only the leader answers for the cluster, and the leader always does: a node that is not the one
/// it takes for the leader answers with where that one is, by the address that it is listed with,
/// and with nothing where it is not listed or there is none.
pub proof fn law_only_the_leader_answers<R>(
    metrics: Metrics,
    redirect: Redirect<R>,
    answer: R,
    j: int,
)
    requires
        redirects(metrics, redirect, answer),
    ensures
        redirect is Ok <==> metrics.current_leader == Some(metrics.id),
        redirect is Ok ==> redirect->Ok_0 == answer,
        metrics.current_leader is None ==> redirect == Err::<R, Option<String>>(None),
        metrics.current_leader matches Some(leader) ==> leader != metrics.id ==> {
            let nodes = metrics.membership.nodes@;
            &&& 0 <= j < nodes.len() && nodes[j].0 == leader && (forall|k: int|
                0 <= k < j ==> (#[trigger] nodes[k]).0 != leader) ==> (
            redirect matches Err(Some(addr)) && addr@ == nodes[j].1@)
            &&& (forall|k: int| 0 <= k < nodes.len() ==> (#[trigger] nodes[k]).0 != leader)
                ==> redirect == Err::<R, Option<String>>(None)
        },
{
    if let Some(leader) = metrics.current_leader {
        let nodes = metrics.membership.nodes@;
        let seen = metrics.membership@.nodes;
        law_address_is_the_one_listed(metrics.membership@, leader);
        assert forall|k: int| 0 <= k < nodes.len() implies (#[trigger] nodes[k]).0 == seen[k].0
            && nodes[k].1@ == seen[k].1 by {
            law_membership_is_seen_whole(metrics.membership, 0, k);
        }
        match metrics.membership@.address(leader) {
            Some(addr) => {
                let i = choose|i: int|
                    0 <= i < seen.len() && #[trigger] seen[i] == (leader, addr) && forall|k: int|
                        0 <= k < i ==> (#[trigger] seen[k]).0 != leader;
                assert(nodes[i].0 == leader);
                if 0 <= j < nodes.len() && nodes[j].0 == leader && forall|k: int|
                    0 <= k < j ==> (#[trigger] nodes[k]).0 != leader {
                    if i < j {
                        assert(nodes[i].0 != leader);
                    }
                    if j < i {
                        assert(seen[j].0 != leader);
                    }
                    assert(i == j);
                }
            },
            None => {
                if 0 <= j < nodes.len() && nodes[j].0 == leader {
                    assert(seen[j].0 != leader);
                }
            },
        }
    }
}

/// A change of membership is called by what it does, whichever node it is of.
pub proof fn law_change_is_called_by_what_it_does(node_id: u64, addr: String)
    ensures
        change_name(MembershipChange::Add { node_id, addr }) == "add_node"@,
        change_name(MembershipChange::SetRole { node_id, role: NodeRole::Voter })
            == "change_node_role to Voter"@,
        change_name(MembershipChange::SetRole { node_id, role: NodeRole::Learner })
            == "change_node_role to Learner"@,
        change_name(MembershipChange::Remove { node_id }) == "remove_node"@,
{
}

/// What a node does about a write that a client sent follows from what Raft answered, on either
/// submission: what was applied is the client's answer; a leader whose address is not this node's
/// own is sent the write, at its own write endpoint and at no other; and a failure is reported.
/// Where no other leader is named, the first submission is waited out and the second one fails.
pub proof fn law_write_goes_to_the_leader_named<R>(
    addr: Seq<char>,
    first: bool,
    answer: WriteAnswer<R>,
    step: HandleWriteStep<R>,
)
    requires
        step.is_view(write_step(addr, first, answer)),
    ensures
        answer matches WriteAnswer::Applied(Some(response)) ==> step == HandleWriteStep::Answer(
            response,
        ),
        answer matches WriteAnswer::Applied(None) ==> step matches HandleWriteStep::Fail(text)
            && text@ == "write produced no response"@,
        answer matches WriteAnswer::Failed { error } ==> step matches HandleWriteStep::Fail(text)
            && text@ == "write"@ + " failed: "@ + error@,
        answer matches WriteAnswer::ForwardToLeader { leader: Some(leader), .. } ==> leader@ != addr
            ==> (step matches HandleWriteStep::Forward { url } && url@ == "http://"@ + leader@
            + "/api/write"@),
        answer matches WriteAnswer::ForwardToLeader { leader, error } ==> (
        leader matches Some(leader) ==> leader@ == addr) ==> if first {
            step is WaitForLeader
        } else {
            step matches HandleWriteStep::Fail(text) && text@ == "write"@ + " failed: "@ + error@
        },
        step is Answer <==> answer matches WriteAnswer::Applied(Some(_)),
        step is Forward <==> (answer matches WriteAnswer::ForwardToLeader {
            leader: Some(leader),
            ..
        } && leader@ != addr),
{
    reveal_strlit("http://");
    reveal_strlit("/api/");
    reveal_strlit("write");
    reveal_strlit("/api/write");
    assert("/api/write"@ =~= "/api/"@ + "write"@);
    if let WriteAnswer::ForwardToLeader { leader: Some(leader), .. } = answer {
        assert("http://"@ + leader@ + "/api/write"@ =~= endpoint_url(leader@, "write"@));
    }
}

/// A write is submitted twice at most, and an election is given as long as a forwarded write.
pub proof fn law_write_is_submitted_twice()
    ensures
        WRITE_SUBMISSIONS == 2,
        WAIT_FOR_LEADER_MS == 10_000,
        FORWARD_WRITE_TIMEOUT_MS == 10_000,
{
}

/// Whatever Raft answers a client's write with, on either submission: a leader at another address
/// is sent it at its own write endpoint, what was applied is answered, and the write stays what it
/// was.
pub proof fn law_submitted_write_is_forwarded_to_the_leader_named<Q, R>(
    write: &mut HandleWrite<Q>,
    answer: WriteAnswer<R>,
    step: HandleWriteStep<R>,
)
    requires
        write.submissions() < 2,
        call_ensures(HandleWrite::<Q>::submitted::<R>, (write, answer), step),
    ensures
        answer matches WriteAnswer::ForwardToLeader { leader: Some(leader), .. } ==> leader@
            != old(write).address() ==> (step matches HandleWriteStep::Forward { url } && url@
            == "http://"@ + leader@ + "/api/write"@),
        answer matches WriteAnswer::Applied(Some(response)) ==> step == HandleWriteStep::Answer(
            response,
        ),
        answer matches WriteAnswer::Applied(None) ==> step is Fail,
        answer is Failed ==> step is Fail,
        answer matches WriteAnswer::ForwardToLeader { leader, .. } ==> (
        leader matches Some(leader) ==> leader@ == old(write).address()) ==> if old(write).submissions()
            == 0 {
            step is WaitForLeader
        } else {
            step is Fail
        },
        final(write).req() == old(write).req(),
        final(write).address() == old(write).address(),
        final(write).submissions() == old(write).submissions() + 1,
{
    let first = write.submissions() == 0;
    law_write_goes_to_the_leader_named(write.address(), first, answer, step);
}

/// The leader makes the very change that it was asked for, and no other node makes any: it answers
/// with where the leader is, by the address that the leader is listed with.
pub proof fn law_only_the_leader_changes_the_membership(
    metrics: &Metrics,
    change: MembershipChange,
    redirect: Redirect<MembersCall>,
    call: MembersCall,
    leader: u64,
    addr: Option<String>,
)
    requires
        call_ensures(EzServer::handle_membership, (metrics, change), redirect),
        call_ensures(EzRaft::members_call, (change, &metrics.membership), call),
        call_ensures(Membership::get_node, (&metrics.membership, leader), addr),
    ensures
        metrics.current_leader == Some(metrics.id) ==> redirect == Ok::<_, Option<String>>(call),
        metrics.current_leader == Some(leader) && leader != metrics.id ==> match addr {
            Some(addr) => redirect matches Err(Some(named)) && named@ == addr@,
            None => redirect == Err::<MembersCall, Option<String>>(None),
        },
        metrics.current_leader is None ==> redirect == Err::<MembersCall, Option<String>>(None),
{
}

/// A node id is asked of the leader, and is the very index of the entry that was written for it.
pub proof fn law_node_id_is_the_index_written(
    metrics: &Metrics,
    redirect: Redirect<()>,
    index: u64,
    answer: Result<Redirect<u64>, String>,
)
    requires
        call_ensures(EzServer::handle_node_id, (metrics,), redirect),
        call_ensures(EzServer::node_id_answer, (Ok::<u64, String>(index),), answer),
    ensures
        redirect is Ok <==> metrics.current_leader == Some(metrics.id),
        answer == Ok::<Redirect<u64>, String>(Ok(index)),
{
}

/// A change of membership that was made is answered as made, and one that failed is answered with a
/// failure that ends in why.
pub proof fn law_failed_change_says_why(
    change: MembershipChange,
    error: String,
    made: Result<Redirect<()>, String>,
    refused: Result<Redirect<()>, String>,
)
    requires
        call_ensures(EzServer::membership_answer, (&change, Ok::<(), String>(())), made),
        call_ensures(EzServer::membership_answer, (&change, Err::<(), String>(error)), refused),
    ensures
        made matches Ok(Ok(_)),
        refused matches Err(text) && text@.len() >= error@.len() && text@.skip(
            text@.len() - error@.len(),
        ) == error@,
{
    let text = refused->Err_0@;
    law_failure_says_what_and_why(change_name(change), error@);
    assert(text.skip(text.len() - error@.len()) =~= error@);
}

/// What the leader replied to a forwarded write is what the client is answered with, and any other
/// reply is a failure.
pub proof fn law_reply_to_a_forwarded_write_is_the_answer<Q, R>(
    write: &HandleWrite<Q>,
    url: &str,
    reply: Reply<R>,
    answer: Result<R, String>,
)
    requires
        call_ensures(HandleWrite::<Q>::forwarded::<R>, (write, url, reply), answer),
    ensures
        reply matches Reply::Answer(response) ==> answer == Ok::<R, String>(response),
        answer is Ok <==> reply is Answer,
{
}

} // verus!

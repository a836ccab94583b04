//! A node: how it starts, what it asks of Raft, and how long it serves
//!
//! Starting, writing and serving each alternate work that only the outside can do with decisions
//! about what comes next. The decisions are here: each of them names the next step, and takes in
//! what the step came to.

use vstd::prelude::*;

use crate::admin::membership_change::MembershipChange;
use crate::membership::Membership;
use crate::membership::MembershipView;
use crate::membership::law_voters_stand_in_a_config;
use crate::meta::EzMeta;
use crate::node_role::NodeRole;
use crate::text::decimal;
use crate::text::decimal_text;
use crate::text::law_decimal_ends_in_the_last_digit;

verus! {

/// How many times a write is attempted while the cluster has no usable leader
pub const WRITE_ATTEMPTS: u64 = 20;

/// How long to wait before attempting a write again, in milliseconds
pub const WRITE_RETRY_INTERVAL_MS: u64 = 500;

/// A node of a cluster
#[derive(Debug)]
pub struct EzRaft {
    /// Node ID
    node_id: u64,

    /// HTTP bind address
    addr: String,
}

impl Clone for EzRaft {
    fn clone(&self) -> (copy: EzRaft)
        ensures
            copy.id() == self.id(),
            copy.address() == self.address(),
    {
        EzRaft { node_id: self.node_id, addr: self.addr.clone() }
    }
}

/// A change to the voters or to the nodes of a cluster, as Raft takes it
#[derive(Debug, Clone, Copy, PartialEq, Eq, Structural)]
pub enum ChangeMembers {
    /// Make a learner a voter
    AddVoterIds(u64),

    /// Take a node out of the voters
    RemoveVoters(u64),

    /// Take a node that is no voter out of the cluster
    RemoveNodes(u64),
}

/// A call that changes who is in the cluster
#[derive(Debug)]
pub enum MembersCall {
    /// Replicate to a new node, without waiting for it to catch up
    ///
    /// Waiting would deadlock a join: the node cannot answer any Raft RPC until it has been told
    /// its own id.
    AddLearner { node_id: u64, addr: String },

    /// Change the membership
    ///
    /// A voter that is taken out stays on as a learner if `retain` is set, and is forgotten if
    /// it is not.
    Change { change: ChangeMembers, retain: bool },
}

/// The call that makes `change` happen in a cluster of the members `members`
///
/// - Every node is admitted as a learner.
/// - `retain` is what makes a demotion of a removal: the node stays in the membership.
/// - A voter and a learner are removed differently, because a voter is in two places at once.
///   Taking it out of the voters with `retain` off drops its node entry too, but only once the
///   joint config that still counts it has resolved. A learner is in no config, so its entry is
///   all there is to drop.
pub open spec fn call_for(change: MembershipChange, members: MembershipView) -> MembersCall {
    match change {
        MembershipChange::Add { node_id, addr } => MembersCall::AddLearner { node_id, addr },
        MembershipChange::SetRole { node_id, role } => match role {
            NodeRole::Voter => MembersCall::Change {
                change: ChangeMembers::AddVoterIds(node_id),
                retain: false,
            },
            NodeRole::Learner => MembersCall::Change {
                change: ChangeMembers::RemoveVoters(node_id),
                retain: true,
            },
        },
        MembershipChange::Remove { node_id } => if members.is_voter(node_id) {
            MembersCall::Change { change: ChangeMembers::RemoveVoters(node_id), retain: false }
        } else {
            MembersCall::Change { change: ChangeMembers::RemoveNodes(node_id), retain: false }
        },
    }
}

/// A node enters the cluster as a learner and in no other way, and stays in it as one when it is
/// demoted and then only; every other change of a voter that takes it out forgets it.
pub proof fn law_membership_changes(change: MembershipChange, members: MembershipView)
    ensures
        call_for(change, members) is AddLearner <==> change is Add,
        (call_for(change, members) matches MembersCall::Change { change: _, retain } && retain)
            <==> (change matches MembershipChange::SetRole { node_id: _, role } && role
            == NodeRole::Learner),
        change matches MembershipChange::Remove { node_id } ==> (call_for(change, members)
            == (MembersCall::Change { change: ChangeMembers::RemoveNodes(node_id), retain: false })
            <==> !members.is_voter(node_id)),
{
}

impl EzRaft {
    pub closed spec fn id(self) -> u64 {
        self.node_id
    }

    pub closed spec fn address(self) -> Seq<char> {
        self.addr@
    }

    /// Start a new cluster with this node as its only member
    ///
    /// Exactly one node of a cluster is created this way; every other node uses [`Self::join`].
    /// Creating two nodes separately gives two one-node clusters that will never merge.
    pub fn create(addr: &str) -> (start: Start)
        ensures
            start@ == StartView::first(addr@, None),
    {
        Start { addr: String::from_str(addr), seed: None, phase: StartPhase::Config }
    }

    /// Join the cluster that `seed_addr` belongs to, and stay a learner
    ///
    /// Same as [`Self::join`] without the promotion: this node replicates the log and answers
    /// reads, but never votes, so it is a read replica and costs the cluster no write latency.
    pub fn join_as_learner(addr: &str, seed_addr: &str) -> (start: Start)
        ensures
            start@ == StartView::first(addr@, Some((seed_addr@, NodeRole::Learner))),
    {
        Start {
            addr: String::from_str(addr),
            seed: Some((String::from_str(seed_addr), NodeRole::Learner)),
            phase: StartPhase::Config,
        }
    }

    /// Join the cluster that `seed_addr` belongs to, and become a voter
    ///
    /// The seed hands out a node id, adds this node to the cluster as a learner, and then the
    /// promotion to voter is left for [`Self::serve`] to finish: a node is promoted only once it
    /// has caught up, and it cannot receive anything until its own HTTP server is running. The
    /// seed does not have to be the leader.
    ///
    /// On restart the persisted id is reused, and the seed is asked for nothing but a promotion
    /// that is still owed.
    pub fn join(addr: &str, seed_addr: &str) -> (start: Start)
        ensures
            start@ == StartView::first(addr@, Some((seed_addr@, NodeRole::Voter))),
    {
        Start {
            addr: String::from_str(addr),
            seed: Some((String::from_str(seed_addr), NodeRole::Voter)),
            phase: StartPhase::Config,
        }
    }

    /// Get the node ID
    pub fn node_id(&self) -> (id: u64)
        ensures
            id == self.id(),
    {
        self.node_id
    }

    /// Get the HTTP address
    pub fn addr(&self) -> (addr: &str)
        ensures
            addr@ == self.address(),
    {
        self.addr.as_str()
    }

    /// Write a request to the Raft log
    ///
    /// Only a leader can accept a write, and a node has no business knowing how to reach another
    /// one: on a follower this fails, naming the leader. Moments without a usable leader are
    /// waited out.
    pub fn write<Q>(&self, req: Q) -> (write: Write<Q>)
        ensures
            write@ == WriteView::first(self.address(), req),
    {
        Write { addr: self.addr.clone(), req, last_err: String::from_str(""), attempts: 0 }
    }

    /// Add a learner node to the cluster
    pub fn add_learner(node_id: u64, addr: String) -> (call: MembersCall)
        ensures
            call == (MembersCall::AddLearner { node_id, addr }),
    {
        MembersCall::AddLearner { node_id, addr }
    }

    /// Make a learner a voter
    ///
    /// Only voters count towards a quorum, so a cluster tolerates a node failure only once the
    /// nodes that joined it have been promoted.
    pub fn promote(node_id: u64) -> (call: MembersCall)
        ensures
            call == (MembersCall::Change {
                change: ChangeMembers::AddVoterIds(node_id),
                retain: false,
            }),
    {
        Self::change_membership(ChangeMembers::AddVoterIds(node_id))
    }

    /// Make a voter a learner
    ///
    /// The node stays in the cluster and keeps receiving the log; it stops being counted in the
    /// quorum a write must reach.
    pub fn demote(node_id: u64) -> (call: MembersCall)
        ensures
            call == (MembersCall::Change {
                change: ChangeMembers::RemoveVoters(node_id),
                retain: true,
            }),
    {
        MembersCall::Change { change: ChangeMembers::RemoveVoters(node_id), retain: true }
    }

    /// Take a node out of the cluster of the members `members`
    ///
    /// Works on a voter and on a learner alike: a voter is removed from the quorum and the
    /// membership in one change, so there is no window in which a node that is to be removed is
    /// still being waited for.
    pub fn remove_node(node_id: u64, members: &Membership) -> (call: MembersCall)
        ensures
            call == call_for(MembershipChange::Remove { node_id }, members@),
    {
        if members.is_voter(node_id) {
            MembersCall::Change { change: ChangeMembers::RemoveVoters(node_id), retain: false }
        } else {
            Self::change_membership(ChangeMembers::RemoveNodes(node_id))
        }
    }

    /// Change the membership, forgetting a voter that is taken out
    pub fn change_membership(change: ChangeMembers) -> (call: MembersCall)
        ensures
            call == (MembersCall::Change { change, retain: false }),
    {
        MembersCall::Change { change, retain: false }
    }

    /// The call that makes `change` happen in a cluster of the members `members`
    pub fn members_call(change: MembershipChange, members: &Membership) -> (call: MembersCall)
        ensures
            call == call_for(change, members@),
    {
        match change {
            MembershipChange::Add { node_id, addr } => Self::add_learner(node_id, addr),
            MembershipChange::SetRole { node_id, role } => match role {
                NodeRole::Voter => Self::promote(node_id),
                NodeRole::Learner => Self::demote(node_id),
            },
            MembershipChange::Remove { node_id } => Self::remove_node(node_id, members),
        }
    }

    /// Serve, and collect the promotion that is under way if there is one
    ///
    /// The server goes up first, because the promotion completes only once this node has caught
    /// up and it can only catch up through that server.
    pub fn serve(promotion: bool) -> (serve: Serve)
        ensures
            serve.awaiting() == promotion,
    {
        Serve { awaiting: promotion }
    }
}

/// How far the start of a node has come
#[derive(Debug, Clone, Copy, PartialEq, Eq, Structural)]
pub enum StartPhase {
    /// The configuration is to be converted
    Config,

    /// The storage is to be opened
    Open,

    /// The seed is to be asked for a node id
    AskId,

    /// The seed is to be told of this node
    AddNode { node_id: u64 },

    /// The node's id, and whether a promotion is owed to it, are to be persisted
    Save { node_id: u64, promote: bool },

    /// Raft is to be started
    Launch { node_id: u64, promote: bool },

    /// The cluster is to be initialized, with this node as its only member
    Initialize { node_id: u64, promote: bool },

    /// The node runs
    Ready { node_id: u64, promote: bool },
}

/// The start of a node
#[derive(Debug)]
pub struct Start {
    addr: String,
    seed: Option<(String, NodeRole)>,
    phase: StartPhase,
}

/// A [`Start`] as a value
#[verifier::ext_equal]
pub struct StartView {
    /// The address of the node
    pub addr: Seq<char>,

    /// The node to join through, and the role to take, if there is a cluster to join
    pub seed: Option<(Seq<char>, NodeRole)>,

    pub phase: StartPhase,
}

/// What to do next to start a node
#[derive(Debug)]
pub enum StartStep {
    /// Convert the configuration
    ///
    /// The one step that can fail on its arguments alone, so it comes before the cluster is asked
    /// for anything.
    ConvertConfig,

    /// Open the storage, and see who the node is
    OpenStorage,

    /// Ask the cluster for a node id, through the node at `seed`
    RequestNodeId { seed: String },

    /// Ask the cluster to make `change`, through the node at `seed`
    RequestMembership { seed: String, change: MembershipChange },

    /// Persist who the node is, and whether a promotion is owed to it
    SaveIdentity { node_id: u64, promotion_pending: bool },

    /// Start Raft
    StartRaft { node_id: u64 },

    /// Initialize the cluster with this node as its only member
    Initialize { node_id: u64, addr: String },

    /// The node runs; a promotion, if there is one, is to be asked for now, and is answered later
    Ready { raft: EzRaft, promotion: Option<Promotion> },
}

/// A promotion that is to be asked for through the node at `seed`
#[derive(Debug)]
pub struct Promotion {
    pub seed: String,
    pub change: MembershipChange,
}

/// A [`StartStep`] as a value
#[verifier::ext_equal]
pub enum StartStepView {
    ConvertConfig,
    OpenStorage,
    RequestNodeId { seed: Seq<char> },
    AddLearner { seed: Seq<char>, node_id: u64, addr: Seq<char> },
    SaveIdentity { node_id: u64, promotion_pending: bool },
    StartRaft { node_id: u64 },
    Initialize { node_id: u64, addr: Seq<char> },
    Ready { node_id: u64, addr: Seq<char>, promote_via: Option<Seq<char>> },
}

/// Whether `step` is the step `view` stands for
pub open spec fn is_step(step: StartStep, view: StartStepView) -> bool {
    match view {
        StartStepView::ConvertConfig => step is ConvertConfig,
        StartStepView::OpenStorage => step is OpenStorage,
        StartStepView::RequestNodeId { seed } => step matches StartStep::RequestNodeId { seed: to }
            && to@ == seed,
        StartStepView::AddLearner { seed, node_id, addr } => {
            &&& step matches StartStep::RequestMembership { seed: to, change }
            &&& to@ == seed
            &&& change matches MembershipChange::Add { node_id: id, addr: at }
            &&& id == node_id
            &&& at@ == addr
        },
        StartStepView::SaveIdentity { node_id, promotion_pending } => step == (
        StartStep::SaveIdentity { node_id, promotion_pending }),
        StartStepView::StartRaft { node_id } => step == (StartStep::StartRaft { node_id }),
        StartStepView::Initialize { node_id, addr } => {
            &&& step matches StartStep::Initialize { node_id: id, addr: at }
            &&& id == node_id
            &&& at@ == addr
        },
        StartStepView::Ready { node_id, addr, promote_via } => {
            &&& step matches StartStep::Ready { raft, promotion }
            &&& raft.id() == node_id
            &&& raft.address() == addr
            &&& match promotion {
                Some(promotion) => promote_via == Some(promotion.seed@) && promotion.change == (
                MembershipChange::SetRole { node_id, role: NodeRole::Voter }),
                None => promote_via is None,
            }
        },
    }
}

/// What a step of the start came to
#[derive(Debug)]
pub enum StartAnswer<E> {
    /// It was done
    Done,

    /// The storage was opened, and this is who the node is
    Stored { node_id: Option<u64>, promotion_pending: bool },

    /// The cluster handed out this id
    NodeId(u64),

    /// The cluster was initialized before
    AlreadyInitialized,

    /// It failed
    Failed(E),
}

/// What opening a storage comes to that holds the metadata `meta`
pub open spec fn stored_identity<E>(meta: EzMeta) -> StartAnswer<E> {
    StartAnswer::Stored { node_id: meta.node_id, promotion_pending: meta.promotion_pending }
}

impl StartPhase {
    /// Whether `answer` is one that the step of this phase can come to
    pub open spec fn admits<E>(self, answer: StartAnswer<E>) -> bool {
        match answer {
            StartAnswer::Failed(_) => !(self is Ready),
            StartAnswer::Stored { .. } => self is Open,
            StartAnswer::NodeId(_) => self is AskId,
            StartAnswer::AlreadyInitialized => self is Initialize,
            StartAnswer::Done => !(self is Open) && !(self is AskId) && !(self is Ready),
        }
    }

    /// How many steps there are left at most
    pub open spec fn steps_left(self) -> nat {
        match self {
            StartPhase::Config => 8,
            StartPhase::Open => 7,
            StartPhase::AskId => 6,
            StartPhase::AddNode { .. } => 5,
            StartPhase::Save { .. } => 4,
            StartPhase::Launch { .. } => 3,
            StartPhase::Initialize { .. } => 2,
            StartPhase::Ready { .. } => 1,
        }
    }
}

impl StartView {
    /// A start that has not begun
    pub open spec fn first(addr: Seq<char>, seed: Option<(Seq<char>, NodeRole)>) -> StartView {
        StartView { addr, seed, phase: StartPhase::Config }
    }

    /// The next step
    pub open spec fn step(self) -> StartStepView {
        let seed = (self.seed->0).0;
        match self.phase {
            StartPhase::Config => StartStepView::ConvertConfig,
            StartPhase::Open => StartStepView::OpenStorage,
            StartPhase::AskId => StartStepView::RequestNodeId { seed },
            StartPhase::AddNode { node_id } => StartStepView::AddLearner {
                seed,
                node_id,
                addr: self.addr,
            },
            StartPhase::Save { node_id, promote } => StartStepView::SaveIdentity {
                node_id,
                promotion_pending: promote,
            },
            StartPhase::Launch { node_id, .. } => StartStepView::StartRaft { node_id },
            StartPhase::Initialize { node_id, .. } => StartStepView::Initialize {
                node_id,
                addr: self.addr,
            },
            StartPhase::Ready { node_id, promote } => StartStepView::Ready {
                node_id,
                addr: self.addr,
                promote_via: if promote {
                    Some(seed)
                } else {
                    None
                },
            },
        }
    }

    /// The start once its step was answered
    ///
    /// A node that already has an id has joined before, so the seed is not asked for one again,
    /// and what it is now the membership decides, but for a promotion that it was promised and
    /// did not see through. Otherwise the seed, if there is one, hands out an id and adds the node
    /// as a learner, whichever role was asked for. Without a seed this is the first node of a
    /// cluster, and its id is zero.
    pub open spec fn after<E>(self, answer: StartAnswer<E>) -> StartView {
        let phase = match (self.phase, answer) {
            (_, StartAnswer::Failed(_)) => self.phase,
            (StartPhase::Config, _) => StartPhase::Open,
            (StartPhase::Open, StartAnswer::Stored { node_id: Some(id), promotion_pending }) => {
                StartPhase::Launch { node_id: id, promote: promotion_pending && self.seed is Some }
            },
            (StartPhase::Open, _) => if self.seed is Some {
                StartPhase::AskId
            } else {
                StartPhase::Save { node_id: 0, promote: false }
            },
            (StartPhase::AskId, StartAnswer::NodeId(id)) => StartPhase::AddNode { node_id: id },
            (StartPhase::AskId, _) => self.phase,
            (StartPhase::AddNode { node_id }, _) => StartPhase::Save {
                node_id,
                promote: (self.seed->0).1 == NodeRole::Voter,
            },
            (StartPhase::Save { node_id, promote }, _) => StartPhase::Launch { node_id, promote },
            (StartPhase::Launch { node_id, promote }, _) => if node_id == 0 {
                StartPhase::Initialize { node_id, promote }
            } else {
                StartPhase::Ready { node_id, promote }
            },
            (StartPhase::Initialize { node_id, promote }, _) => StartPhase::Ready {
                node_id,
                promote,
            },
            (StartPhase::Ready { .. }, _) => self.phase,
        };
        StartView { phase, ..self }
    }

    /// Whether the seed is there wherever it is needed
    pub open spec fn wf(self) -> bool {
        match self.phase {
            StartPhase::AskId => self.seed is Some,
            StartPhase::AddNode { .. } => self.seed is Some,
            StartPhase::Save { promote, .. } => promote ==> self.seed is Some,
            StartPhase::Launch { promote, .. } => promote ==> self.seed is Some,
            StartPhase::Initialize { promote, .. } => promote ==> self.seed is Some,
            StartPhase::Ready { promote, .. } => promote ==> self.seed is Some,
            _ => true,
        }
    }
}

impl View for Start {
    type V = StartView;

    closed spec fn view(&self) -> StartView {
        StartView {
            addr: self.addr@,
            seed: match self.seed {
                Some((addr, role)) => Some((addr@, role)),
                None => None,
            },
            phase: self.phase,
        }
    }
}

impl Start {
    #[verifier::type_invariant]
    spec fn inv(self) -> bool {
        self@.wf()
    }

    /// The address of the seed, where there is one
    fn seed_addr(&self) -> (seed: String)
        requires
            self@.seed is Some,
        ensures
            seed@ == (self@.seed->0).0,
    {
        match &self.seed {
            Some((seed, _)) => seed.clone(),
            None => String::from_str(""),
        }
    }

    /// What to do next
    pub fn step(&self) -> (step: StartStep)
        ensures
            is_step(step, self@.step()),
    {
        proof {
            use_type_invariant(self);
        }
        match self.phase {
            StartPhase::Config => StartStep::ConvertConfig,
            StartPhase::Open => StartStep::OpenStorage,
            StartPhase::AskId => StartStep::RequestNodeId { seed: self.seed_addr() },
            StartPhase::AddNode { node_id } => StartStep::RequestMembership {
                seed: self.seed_addr(),
                change: MembershipChange::Add { node_id, addr: self.addr.clone() },
            },
            StartPhase::Save { node_id, promote } => StartStep::SaveIdentity {
                node_id,
                promotion_pending: promote,
            },
            StartPhase::Launch { node_id, .. } => StartStep::StartRaft { node_id },
            StartPhase::Initialize { node_id, .. } => StartStep::Initialize {
                node_id,
                addr: self.addr.clone(),
            },
            StartPhase::Ready { node_id, promote } => {
                let promotion = if promote {
                    let change = MembershipChange::SetRole { node_id, role: NodeRole::Voter };
                    Some(Promotion { seed: self.seed_addr(), change })
                } else {
                    None
                };
                StartStep::Ready { raft: EzRaft { node_id, addr: self.addr.clone() }, promotion }
            },
        }
    }

    /// Take in what the step came to
    ///
    /// A step that failed fails the start. The created node starts the cluster with itself as its
    /// only member; on restart it finds id zero in its storage and asks for that again, and being
    /// refused because it was done before is as good.
    pub fn answered<E>(&mut self, answer: StartAnswer<E>) -> (result: Result<(), E>)
        requires
            old(self)@.phase.admits(answer),
        ensures
            final(self)@ == old(self)@.after(answer),
            match answer {
                StartAnswer::Failed(e) => result == Err::<(), E>(e),
                _ => result is Ok,
            },
    {
        proof {
            use_type_invariant(&*self);
        }
        let phase = match (self.phase, answer) {
            (_, StartAnswer::Failed(e)) => {
                return Err(e);
            },
            (StartPhase::Config, _) => StartPhase::Open,
            (StartPhase::Open, StartAnswer::Stored { node_id: Some(id), promotion_pending }) => {
                StartPhase::Launch {
                    node_id: id,
                    promote: promotion_pending && self.seed.is_some(),
                }
            },
            (StartPhase::Open, _) => if self.seed.is_some() {
                StartPhase::AskId
            } else {
                StartPhase::Save { node_id: 0, promote: false }
            },
            (StartPhase::AskId, StartAnswer::NodeId(id)) => StartPhase::AddNode { node_id: id },
            (StartPhase::AskId, _) => self.phase,
            (StartPhase::AddNode { node_id }, _) => {
                let promote: bool = match &self.seed {
                    Some((_, role)) => *role == NodeRole::Voter,
                    None => false,
                };
                StartPhase::Save { node_id, promote }
            },
            (StartPhase::Save { node_id, promote }, _) => StartPhase::Launch { node_id, promote },
            (StartPhase::Launch { node_id, promote }, _) => if node_id == 0 {
                StartPhase::Initialize { node_id, promote }
            } else {
                StartPhase::Ready { node_id, promote }
            },
            (StartPhase::Initialize { node_id, promote }, _) => StartPhase::Ready {
                node_id,
                promote,
            },
            (StartPhase::Ready { .. }, _) => self.phase,
        };
        self.phase = phase;
        Ok(())
    }
}

/// What the world has in store for the start of a node, when nothing fails
pub struct StartWorld {
    /// The id that the storage holds
    pub stored_id: Option<u64>,

    /// Whether the storage holds that a promotion is owed
    pub stored_pending: bool,

    /// The id that the cluster hands out
    pub fresh_id: u64,
}

impl StartWorld {
    /// What the step of a phase comes to
    pub open spec fn answer(self, phase: StartPhase) -> StartAnswer<()> {
        match phase {
            StartPhase::Open => StartAnswer::Stored {
                node_id: self.stored_id,
                promotion_pending: self.stored_pending,
            },
            StartPhase::AskId => StartAnswer::NodeId(self.fresh_id),
            _ => StartAnswer::Done,
        }
    }
}

impl StartView {
    /// The steps from here on, when nothing fails
    pub open spec fn steps(self, world: StartWorld) -> Seq<StartStepView>
        decreases self.phase.steps_left(),
    {
        if self.phase is Ready {
            seq![self.step()]
        } else {
            seq![self.step()] + self.after(world.answer(self.phase)).steps(world)
        }
    }
}

/// The steps by which a node starts: the configuration is converted and the storage opened; a
/// node that has no id yet gets one; Raft is started; and the node of id zero, which is the one
/// that was created, initializes the cluster.
pub open spec fn start_steps(
    addr: Seq<char>,
    seed: Option<(Seq<char>, NodeRole)>,
    world: StartWorld,
) -> Seq<StartStepView> {
    let opened = seq![StartStepView::ConvertConfig, StartStepView::OpenStorage];
    let (node_id, promote_via, identified) = match (world.stored_id, seed) {
        (Some(id), _) => {
            let via = match seed {
                Some((via, _)) if world.stored_pending => Some(via),
                _ => None,
            };
            (id, via, Seq::empty())
        },
        (None, Some((via, role))) => {
            let id = world.fresh_id;
            let promotion_pending = role == NodeRole::Voter;
            let joined = seq![
                StartStepView::RequestNodeId { seed: via },
                StartStepView::AddLearner { seed: via, node_id: id, addr },
                StartStepView::SaveIdentity { node_id: id, promotion_pending },
            ];
            let promote_via = if promotion_pending {
                Some(via)
            } else {
                None
            };
            (id, promote_via, joined)
        },
        (None, None) => (
            0,
            None,
            seq![StartStepView::SaveIdentity { node_id: 0, promotion_pending: false }],
        ),
    };
    let initialized = if node_id == 0 {
        seq![StartStepView::Initialize { node_id, addr }]
    } else {
        Seq::empty()
    };
    let ready = StartStepView::Ready { node_id, addr, promote_via };
    opened + identified + seq![StartStepView::StartRaft { node_id }] + initialized + seq![ready]
}

/// A node starts by exactly these steps, in this order, when nothing fails.
pub proof fn law_start_takes_these_steps(
    addr: Seq<char>,
    seed: Option<(Seq<char>, NodeRole)>,
    world: StartWorld,
)
    ensures
        StartView::first(addr, seed).steps(world) == start_steps(addr, seed, world),
{
    reveal_with_fuel(StartView::steps, 9);
    assert(StartView::first(addr, seed).steps(world) =~= start_steps(addr, seed, world));
}

/// A node that has joined before starts without asking the cluster for anything, whatever seed it
/// is given: neither for an id nor to be added.
pub proof fn law_restart_contacts_no_seed(
    addr: Seq<char>,
    seed: Option<(Seq<char>, NodeRole)>,
    world: StartWorld,
    i: int,
)
    requires
        world.stored_id is Some,
        0 <= i < StartView::first(addr, seed).steps(world).len(),
    ensures
        ({
            let step = StartView::first(addr, seed).steps(world)[i];
            &&& !(step is RequestNodeId)
            &&& !(step is AddLearner)
            &&& !(step is SaveIdentity)
        }),
{
    law_start_takes_these_steps(addr, seed, world);
}

/// A node is promoted only if it asked to be a voter when it joined and that is still owed to it:
/// a node that joined as a learner, one that was created, and one that is a member for good are
/// started as what the membership says they are.
pub proof fn law_promotion_is_asked_for_when_owed(
    addr: Seq<char>,
    seed: Option<(Seq<char>, NodeRole)>,
    world: StartWorld,
)
    ensures
        ({
            let ready = StartView::first(addr, seed).steps(world).last();
            &&& ready is Ready
            &&& ready->promote_via is Some <==> seed is Some && (match world.stored_id {
                Some(_) => world.stored_pending,
                None => (seed->0).1 == NodeRole::Voter,
            })
            &&& ready->promote_via is Some ==> ready->promote_via == Some((seed->0).0)
        }),
{
    law_start_takes_these_steps(addr, seed, world);
}

/// However a start goes, it never gets stuck: every answer but a failure brings it closer to a
/// running node, and a failure leaves it where it was.
pub proof fn law_start_makes_progress<E>(start: StartView, answer: StartAnswer<E>)
    requires
        start.wf(),
        start.phase.admits(answer),
    ensures
        start.after(answer).wf(),
        answer is Failed ==> start.after(answer) == start,
        !(answer is Failed) ==> start.after(answer).phase.steps_left() < start.phase.steps_left(),
{
}

/// What Raft answered a write with
#[derive(Debug)]
pub enum WriteAnswer<R> {
    /// The write was applied, with this response if it was a request of the application's own
    Applied(Option<R>),

    /// The write is for the leader to take, which is at `leader` if that is known
    ForwardToLeader { leader: Option<String>, error: String },

    /// The write failed
    Failed { error: String },
}

/// Whether `leader` is another node than the one at `addr`
///
/// Handing a write on to ourselves would repeat it forever.
pub open spec fn leads_elsewhere(leader: Option<String>, addr: Seq<char>) -> bool {
    match leader {
        Some(leader) => leader@ != addr,
        None => false,
    }
}

/// Whether `leader` is another node than the one at `addr`
pub fn is_elsewhere(leader: &Option<String>, addr: &String) -> (elsewhere: bool)
    ensures
        elsewhere == leads_elsewhere(*leader, addr@),
{
    match leader {
        Some(leader) => *leader != *addr,
        None => false,
    }
}

/// A write under way
#[derive(Debug)]
pub struct Write<Q> {
    addr: String,
    req: Q,
    last_err: String,
    attempts: u64,
}

/// A [`Write`] as a value
#[verifier::ext_equal]
pub struct WriteView<Q> {
    /// The address of the node that writes
    pub addr: Seq<char>,

    /// What is written
    pub req: Q,

    /// Why the last attempt did not do
    pub last_err: Seq<char>,

    /// How many attempts were made
    pub attempts: u64,
}

/// What to do next for a write
#[derive(Debug)]
pub enum WriteNext<'a, Q> {
    /// Submit this write
    Submit(&'a Q),

    /// Report this failure
    GiveUp(String),
}

/// What an attempt at a write came to
#[derive(Debug)]
pub enum WriteStep<R> {
    /// Answer with this
    Return(Result<R, String>),

    /// Wait a moment, then see what is next
    Again,
}

/// A [`WriteStep`] as a value
#[verifier::ext_equal]
pub enum WriteStepView<R> {
    Applied(R),
    Failed(Seq<char>),
    Again,
}

impl<R> WriteStep<R> {
    /// Whether this is the step that `view` stands for
    pub open spec fn is_view(self, view: WriteStepView<R>) -> bool {
        match view {
            WriteStepView::Applied(response) => self == WriteStep::Return(
                Ok::<R, String>(response),
            ),
            WriteStepView::Failed(message) => self matches WriteStep::Return(Err(text)) && text@
                == message,
            WriteStepView::Again => self is Again,
        }
    }
}

impl<Q> WriteView<Q> {
    /// A write that was not attempted yet
    pub open spec fn first(addr: Seq<char>, req: Q) -> WriteView<Q> {
        WriteView { addr, req, last_err: ""@, attempts: 0 }
    }

    /// Whether `answer` means that there is no usable leader yet: an election is in flight, or a
    /// leader that was just elected has not confirmed its lease
    pub open spec fn no_leader<R>(self, answer: WriteAnswer<R>) -> bool {
        match answer {
            WriteAnswer::ForwardToLeader { leader, .. } => !leads_elsewhere(leader, self.addr),
            _ => false,
        }
    }

    /// The write once an attempt was answered
    pub open spec fn after<R>(self, answer: WriteAnswer<R>) -> WriteView<Q> {
        WriteView {
            last_err: match answer {
                WriteAnswer::ForwardToLeader { error, .. } if self.no_leader(answer) => error@,
                _ => self.last_err,
            },
            attempts: (self.attempts + 1) as u64,
            ..self
        }
    }

    /// The write once all of these attempts were answered
    pub open spec fn after_all<R>(self, answers: Seq<WriteAnswer<R>>) -> WriteView<Q>
        decreases answers.len(),
    {
        if answers.len() == 0 {
            self
        } else {
            self.after_all(answers.drop_last()).after(answers.last())
        }
    }

    /// What is done next about `answer`
    ///
    /// A leader that is elsewhere, and any other failure, are the caller's to handle. Having no
    /// usable leader resolves within heartbeats, so it is waited out instead of bothering the
    /// caller, after the last attempt as after the others.
    pub open spec fn step<R>(self, answer: WriteAnswer<R>) -> WriteStepView<R> {
        match answer {
            WriteAnswer::Applied(Some(response)) => WriteStepView::Applied(response),
            WriteAnswer::Applied(None) => WriteStepView::Failed("write produced no response"@),
            WriteAnswer::Failed { error } => WriteStepView::Failed(error@),
            WriteAnswer::ForwardToLeader { leader, error } => if !self.no_leader(answer) {
                WriteStepView::Failed(error@)
            } else {
                WriteStepView::Again
            },
        }
    }

    /// Whether no attempt is left
    pub open spec fn used_up(self) -> bool {
        self.attempts >= WRITE_ATTEMPTS
    }

    /// What is reported when the attempts are used up
    pub open spec fn gave_up(self) -> Seq<char> {
        "write gave up after "@ + decimal(WRITE_ATTEMPTS as nat) + " attempts: "@ + self.last_err
    }
}

impl<Q> View for Write<Q> {
    type V = WriteView<Q>;

    closed spec fn view(&self) -> WriteView<Q> {
        WriteView {
            addr: self.addr@,
            req: self.req,
            last_err: self.last_err@,
            attempts: self.attempts,
        }
    }
}

impl<Q> Write<Q> {
    /// What to do next: submit, or give up once the attempts are used up
    pub fn next(&self) -> (next: WriteNext<'_, Q>)
        ensures
            match next {
                WriteNext::Submit(req) => {
                    &&& !self@.used_up()
                    &&& *req == self@.req
                },
                WriteNext::GiveUp(message) => {
                    &&& self@.used_up()
                    &&& message@ == self@.gave_up()
                },
            },
    {
        if self.attempts < WRITE_ATTEMPTS {
            WriteNext::Submit(&self.req)
        } else {
            let mut message = String::from_str("write gave up after ");
            message.append(decimal_text(WRITE_ATTEMPTS).as_str());
            message.append(" attempts: ");
            message.append(self.last_err.as_str());
            WriteNext::GiveUp(message)
        }
    }

    /// Take in what an attempt was answered with
    ///
    /// A write of the application's own is always answered with a response; nothing else would be
    /// submitted here.
    pub fn answered<R>(&mut self, answer: WriteAnswer<R>) -> (step: WriteStep<R>)
        requires
            !old(self)@.used_up(),
        ensures
            final(self)@ == old(self)@.after(answer),
            step.is_view(old(self)@.step(answer)),
    {
        self.attempts = self.attempts + 1;
        match answer {
            WriteAnswer::Applied(Some(response)) => WriteStep::Return(Ok(response)),
            WriteAnswer::Applied(None) => WriteStep::Return(
                Err(String::from_str("write produced no response")),
            ),
            WriteAnswer::Failed { error } => WriteStep::Return(Err(error)),
            WriteAnswer::ForwardToLeader { leader, error } => {
                if is_elsewhere(&leader, &self.addr) {
                    return WriteStep::Return(Err(error));
                }
                self.last_err = error;
                WriteStep::Again
            },
        }
    }
}

/// A write that finds no usable leader is attempted a fixed number of times, no more and no fewer,
/// with a wait after each attempt, and then fails with what the last of them was answered with.
/// Every attempt submits the same request.
pub proof fn law_write_gives_up_after_its_attempts<Q, R>(
    addr: Seq<char>,
    req: Q,
    answers: Seq<WriteAnswer<R>>,
    last: WriteAnswer<R>,
)
    requires
        answers.len() < WRITE_ATTEMPTS,
        WriteView::first(addr, req).no_leader(last),
    ensures
        ({
            let before = WriteView::first(addr, req).after_all(answers);
            let write = before.after(last);
            &&& !before.used_up()
            &&& before.step(last) is Again
            &&& before.req == req
            &&& write.req == req
            &&& write.addr == addr
            &&& write.attempts == answers.len() + 1
            &&& write.used_up() <==> answers.len() + 1 == WRITE_ATTEMPTS
            &&& write.gave_up() == "write gave up after "@ + decimal(WRITE_ATTEMPTS as nat)
                + " attempts: "@ + last->ForwardToLeader_error@
        }),
    decreases answers.len(),
{
    if answers.len() > 0 {
        law_write_gives_up_after_its_attempts(addr, req, answers.drop_last(), last);
    }
}

/// A node that serves
#[derive(Debug)]
pub struct Serve {
    /// Whether a promotion is under way
    awaiting: bool,
}

/// What happened while a node serves
#[derive(Debug)]
pub enum ServeEvent<E> {
    /// The server stopped, or never started
    Server(Result<(), E>),

    /// The promotion was answered
    Promotion(Result<(), E>),

    /// That the promotion is no longer owed was recorded, or was not
    Recorded(Result<(), E>),
}

/// What to do next for a node that serves
#[derive(Debug)]
pub enum ServeStep<E> {
    /// Go on serving
    Wait,

    /// The promotion is done: record that it is no longer owed
    Promoted,

    /// Stop the server if it still runs, and report this
    Return(Result<(), E>),
}

/// What a node does next on which `event` happened, with a promotion under way or not
///
/// A server that stops is reported at once, also while a promotion is under way: the promotion is
/// waiting for this node to catch up, which it can only do through that server. A promotion that
/// fails is reported too, and stops the server with it, and so is one that could not be recorded.
pub open spec fn serve_step<E>(awaiting: bool, event: ServeEvent<E>) -> ServeStep<E> {
    match event {
        ServeEvent::Server(result) => ServeStep::Return(result),
        ServeEvent::Promotion(_) if !awaiting => ServeStep::Wait,
        ServeEvent::Promotion(Ok(_)) => ServeStep::Promoted,
        ServeEvent::Promotion(Err(e)) => ServeStep::Return(Err(e)),
        ServeEvent::Recorded(Ok(_)) => ServeStep::Wait,
        ServeEvent::Recorded(Err(e)) => ServeStep::Return(Err(e)),
    }
}

/// What serving comes to, by the first of `events` that ends it, with a promotion under way or not
pub open spec fn served<E>(awaiting: bool, events: Seq<ServeEvent<E>>) -> Option<Result<(), E>>
    decreases events.len(),
{
    if events.len() == 0 {
        None
    } else {
        match serve_step(awaiting, events[0]) {
            ServeStep::Return(result) => Some(result),
            _ => served(awaiting && !(events[0] is Promotion), events.drop_first()),
        }
    }
}

impl Serve {
    /// Whether a promotion is under way
    pub closed spec fn awaiting(self) -> bool {
        self.awaiting
    }

    /// Take in what happened
    pub fn on<E>(&mut self, event: ServeEvent<E>) -> (step: ServeStep<E>)
        ensures
            step == serve_step(old(self).awaiting(), event),
            final(self).awaiting() == (old(self).awaiting() && !(event is Promotion)),
    {
        match event {
            ServeEvent::Server(result) => ServeStep::Return(result),
            ServeEvent::Promotion(result) => {
                if !self.awaiting {
                    return ServeStep::Wait;
                }
                self.awaiting = false;
                match result {
                    Ok(()) => ServeStep::Promoted,
                    Err(e) => ServeStep::Return(Err(e)),
                }
            },
            ServeEvent::Recorded(Ok(())) => ServeStep::Wait,
            ServeEvent::Recorded(Err(e)) => ServeStep::Return(Err(e)),
        }
    }
}

/// A server that cannot start is what serving reports, however long the promotion of a joining
/// node still has to go.
pub proof fn law_server_failure_is_not_held_up<E>(
    awaiting: bool,
    e: E,
    later: Seq<ServeEvent<E>>,
)
    ensures
        served(awaiting, seq![ServeEvent::Server(Err(e))] + later) == Some(Err::<(), E>(e)),
{
    let events = seq![ServeEvent::Server(Err::<(), E>(e))] + later;
    assert(events[0] == ServeEvent::Server(Err::<(), E>(e)));
}

/// Once promoted, and once that is recorded, a node serves until its server stops, and reports
/// what the server came to.
pub proof fn law_promoted_node_serves_until_its_server_stops<E>(
    result: Result<(), E>,
    later: Seq<ServeEvent<E>>,
)
    ensures
        served(
            true,
            seq![
                ServeEvent::Promotion(Ok(())),
                ServeEvent::Recorded(Ok(())),
                ServeEvent::Server(result),
            ] + later,
        ) == Some(result),
{
    let events = seq![
        ServeEvent::Promotion(Ok::<(), E>(())),
        ServeEvent::Recorded(Ok::<(), E>(())),
        ServeEvent::Server(result),
    ] + later;
    assert(events[0] == ServeEvent::Promotion(Ok::<(), E>(())));
    assert(events.drop_first()[0] == ServeEvent::Recorded(Ok::<(), E>(())));
    assert(events.drop_first().drop_first()[0] == ServeEvent::Server(result));
    reveal_with_fuel(served, 4);
}

/// A promotion that could not be recorded ends serving, and is what serving reports: the next start
/// would ask for it again.
pub proof fn law_unrecorded_promotion_ends_serving<E>(e: E, later: Seq<ServeEvent<E>>)
    ensures
        served(
            true,
            seq![ServeEvent::Promotion(Ok(())), ServeEvent::Recorded(Err(e))] + later,
        ) == Some(Err::<(), E>(e)),
{
    let events = seq![
        ServeEvent::Promotion(Ok::<(), E>(())),
        ServeEvent::Recorded(Err::<(), E>(e)),
    ] + later;
    assert(events[0] == ServeEvent::Promotion(Ok::<(), E>(())));
    assert(events.drop_first()[0] == ServeEvent::Recorded(Err::<(), E>(e)));
    reveal_with_fuel(served, 3);
}

/// A promotion that fails is what serving reports, whatever the server would have come to later.
pub proof fn law_failed_promotion_ends_serving<E>(e: E, later: Seq<ServeEvent<E>>)
    ensures
        served(true, seq![ServeEvent::Promotion(Err(e))] + later) == Some(Err::<(), E>(e)),
{
    let events = seq![ServeEvent::Promotion(Err::<(), E>(e))] + later;
    assert(events[0] == ServeEvent::Promotion(Err::<(), E>(e)));
}

/// Each change of membership is made by the call that makes it, of the very node that was named,
/// whatever its id and whoever else is in the cluster: a new node is added as a learner under its
/// address; a node that is to vote is added to the voters; one that is not to vote any more is
/// taken out of the voters and kept; and one that is to go is taken out of the voters and not kept,
/// or out of the nodes if it does not vote.
pub proof fn law_each_change_is_made_by_its_call(
    node_id: u64,
    addr: String,
    members: MembershipView,
    i: int,
    j: int,
)
    ensures
        call_for(MembershipChange::Add { node_id, addr }, members) == (MembersCall::AddLearner {
            node_id,
            addr,
        }),
        call_for(MembershipChange::SetRole { node_id, role: NodeRole::Voter }, members) == (
        MembersCall::Change { change: ChangeMembers::AddVoterIds(node_id), retain: false }),
        call_for(MembershipChange::SetRole { node_id, role: NodeRole::Learner }, members) == (
        MembersCall::Change { change: ChangeMembers::RemoveVoters(node_id), retain: true }),
        0 <= i < members.configs.len() && 0 <= j < members.configs[i].len()
            && members.configs[i][j] == node_id ==> call_for(
            MembershipChange::Remove { node_id },
            members,
        ) == (MembersCall::Change { change: ChangeMembers::RemoveVoters(node_id), retain: false }),
        (forall|k: int|
            0 <= k < members.configs.len() ==> !(#[trigger] members.configs[k]).contains(node_id))
            ==> call_for(MembershipChange::Remove { node_id }, members) == (MembersCall::Change {
            change: ChangeMembers::RemoveNodes(node_id),
            retain: false,
        }),
{
    law_voters_stand_in_a_config(members, node_id);
}

/// No two changes of membership are made by the same call.
pub proof fn law_calls_tell_changes_apart(
    a: MembershipChange,
    b: MembershipChange,
    members: MembershipView,
)
    requires
        call_for(a, members) == call_for(b, members),
    ensures
        a == b,
{
}

/// A leader is elsewhere if and only if one is named and its address is another than this node's,
/// however little the two differ in.
pub proof fn law_leader_is_elsewhere_by_its_address(leader: String, addr: Seq<char>)
    ensures
        leads_elsewhere(Some(leader), addr) <==> leader@ != addr,
        !leads_elsewhere(None, addr),
{
}

/// A write that begins has made no attempt, and is of the request and from the address given.
pub proof fn law_write_begins_with_no_attempt<Q>(addr: Seq<char>, req: Q)
    ensures
        WriteView::first(addr, req).attempts == 0,
        WriteView::first(addr, req).req == req,
        WriteView::first(addr, req).addr == addr,
        !WriteView::first(addr, req).used_up(),
{
}

/// An attempt at a write ends it in every case but one, on the first attempt as on any later one:
/// what was applied is returned, and a failure is reported in its own words. Only an answer that
/// hands the write on, and names no leader or names this very node, makes it go again.
pub proof fn law_only_a_missing_leader_makes_a_write_go_again<Q, R>(
    write: WriteView<Q>,
    answer: WriteAnswer<R>,
    step: WriteStep<R>,
)
    requires
        step.is_view(write.step(answer)),
    ensures
        answer matches WriteAnswer::Applied(Some(response)) ==> step == WriteStep::Return(
            Ok::<R, String>(response),
        ),
        answer matches WriteAnswer::Applied(None) ==> step matches WriteStep::Return(Err(text))
            && text@ == "write produced no response"@,
        answer matches WriteAnswer::Failed { error } ==> step matches WriteStep::Return(Err(text))
            && text@ == error@,
        answer matches WriteAnswer::ForwardToLeader { leader: Some(leader), error } ==> leader@
            != write.addr ==> (step matches WriteStep::Return(Err(text)) && text@ == error@),
        step is Again <==> (answer matches WriteAnswer::ForwardToLeader { leader, .. } && (
        leader matches Some(leader) ==> leader@ == write.addr)),
{
}

/// What a write remembers of an attempt: that it was made, and, where it found no usable leader,
/// what it was refused with. What is written, and from where, no attempt changes. The attempts are
/// used up after the twentieth, and not before.
pub proof fn law_attempts_at_a_write_are_counted<Q, R>(
    write: WriteView<Q>,
    answer: WriteAnswer<R>,
    step: WriteStep<R>,
)
    requires
        write.attempts < WRITE_ATTEMPTS,
        step.is_view(write.step(answer)),
    ensures
        ({
            let next = write.after(answer);
            &&& next.attempts == write.attempts + 1
            &&& next.req == write.req
            &&& next.addr == write.addr
            &&& step is Again ==> next.last_err == answer->ForwardToLeader_error@
            &&& !(step is Again) ==> next.last_err == write.last_err
            &&& next.used_up() <==> next.attempts == 20
        }),
{
}

/// A write that is given up says after how many attempts, and ends in what the last of them was
/// refused with.
pub proof fn law_given_up_write_says_why<Q>(write: WriteView<Q>)
    ensures
        ({
            let said = "write gave up after 20 attempts: "@;
            &&& write.gave_up().len() == said.len() + write.last_err.len()
            &&& write.gave_up().take(said.len() as int) == said
            &&& write.gave_up().skip(said.len() as int) == write.last_err
        }),
{
    reveal_strlit("write gave up after 20 attempts: ");
    reveal_strlit("write gave up after ");
    reveal_strlit(" attempts: ");
    law_decimal_ends_in_the_last_digit(2, 0);
    law_decimal_ends_in_the_last_digit(0, 2);
    assert(decimal(20) =~= seq!['2', '0']);
    let said = "write gave up after 20 attempts: "@;
    assert(said =~= "write gave up after "@ + decimal(20) + " attempts: "@);
    assert(write.gave_up() =~= said + write.last_err);
}

/// Moments without a usable leader are waited out for ten seconds in all.
pub proof fn law_write_waits_ten_seconds()
    ensures
        WRITE_ATTEMPTS * WRITE_RETRY_INTERVAL_MS == 10_000,
        WRITE_ATTEMPTS == 20,
{
}

/// What happens while a node serves is acted on by what it is: a server that ended is reported as
/// it ended, at any time; a promotion that is awaited is recorded if it succeeded and reported if
/// it did not; one that is not awaited is nothing to act on; and a recording that failed is
/// reported.
pub proof fn law_each_event_while_serving_is_acted_on<E>(
    awaiting: bool,
    result: Result<(), E>,
    e: E,
)
    ensures
        serve_step(awaiting, ServeEvent::Server(result)) == ServeStep::Return(result),
        serve_step(true, ServeEvent::Promotion(Ok::<(), E>(()))) is Promoted,
        serve_step(true, ServeEvent::Promotion(Err::<(), E>(e))) == ServeStep::Return(
            Err::<(), E>(e),
        ),
        serve_step(false, ServeEvent::Promotion(result)) is Wait,
        serve_step(awaiting, ServeEvent::Recorded(Ok::<(), E>(()))) is Wait,
        serve_step(awaiting, ServeEvent::Recorded(Err::<(), E>(e))) == ServeStep::Return(
            Err::<(), E>(e),
        ),
{
}

/// What a start finds in a storage is what its metadata says: the id, if there is one, and whether
/// a promotion is owed.
pub proof fn law_start_finds_what_the_metadata_says<E>(meta: EzMeta)
    ensures
        stored_identity::<E>(meta) matches StartAnswer::Stored { node_id, promotion_pending }
            && node_id == meta.node_id && promotion_pending == meta.promotion_pending,
{
}

/// A start begins with the configuration, for the node and through the seed that it was given.
pub proof fn law_start_begins_with_the_configuration(
    addr: Seq<char>,
    seed: Option<(Seq<char>, NodeRole)>,
)
    ensures
        StartView::first(addr, seed).phase == StartPhase::Config,
        StartView::first(addr, seed).addr == addr,
        StartView::first(addr, seed).seed == seed,
        StartView::first(addr, seed).wf(),
{
}

/// What a step of a start may come to: anything but the last one may fail; opening the storage
/// comes to what is stored there, asking for an id comes to an id, and the rest are done.
pub proof fn law_steps_come_to_what_they_ask_for<E>(
    phase: StartPhase,
    node_id: Option<u64>,
    id: u64,
    pending: bool,
    e: E,
)
    ensures
        phase.admits(StartAnswer::Failed(e)) <==> !(phase is Ready),
        phase.admits(StartAnswer::<E>::Stored { node_id, promotion_pending: pending }) <==> phase
            is Open,
        phase.admits(StartAnswer::<E>::NodeId(id)) <==> phase is AskId,
        phase.admits(StartAnswer::<E>::AlreadyInitialized) <==> phase is Initialize,
        phase.admits(StartAnswer::<E>::Done) <==> phase is Config || phase is AddNode || phase
            is Save || phase is Launch || phase is Initialize,
{
}

/// What a start is told decides how it goes on. A node that has an id runs under it, and is
/// promoted if that is owed and there is a seed to ask; one that has none asks its seed for one,
/// is added under the very id that it is given, and saves it together with whether it is to vote;
/// and one without a seed is node zero, the one that initializes the cluster.
pub proof fn law_answers_decide_how_a_start_goes_on<E>(
    start: StartView,
    answer: StartAnswer<E>,
)
    requires
        start.wf(),
        start.phase.admits(answer),
        !(answer is Failed),
    ensures
        ({
            let next = start.after(answer);
            &&& next.addr == start.addr
            &&& next.seed == start.seed
            &&& start.phase is Config ==> next.phase is Open
            &&& answer matches StartAnswer::Stored {
                node_id: Some(id),
                promotion_pending,
            } ==> next.phase == (StartPhase::Launch {
                node_id: id,
                promote: promotion_pending && start.seed is Some,
            })
            &&& answer matches StartAnswer::Stored { node_id: None, .. } ==> if start.seed is Some {
                next.phase is AskId
            } else {
                next.phase == (StartPhase::Save { node_id: 0, promote: false })
            }
            &&& answer matches StartAnswer::NodeId(id) ==> next.phase == (StartPhase::AddNode {
                node_id: id,
            })
            &&& start.phase matches StartPhase::AddNode { node_id: id } ==> (
            next.phase matches StartPhase::Save { node_id, promote } && node_id == id && (promote
                <==> (start.seed->0).1 == NodeRole::Voter))
            &&& start.phase matches StartPhase::Save { node_id: id, promote } ==> next.phase == (
            StartPhase::Launch { node_id: id, promote })
            &&& start.phase matches StartPhase::Launch { node_id: id, promote } ==> next.phase == (
            if id == 0 {
                StartPhase::Initialize { node_id: id, promote }
            } else {
                StartPhase::Ready { node_id: id, promote }
            })
            &&& start.phase matches StartPhase::Initialize { node_id: id, promote } ==> next.phase
                == (StartPhase::Ready { node_id: id, promote })
        }),
{
}

/// Each step of a start does what it is there for, with the id that the node has, at its own
/// address and through its own seed. A node is only ever added as a learner, and what it asks for
/// once it runs is to vote, itself.
pub proof fn law_each_step_of_a_start_does_its_part(start: StartView, step: StartStep)
    requires
        start.wf(),
        is_step(step, start.step()),
    ensures
        start.phase is Config ==> step is ConvertConfig,
        start.phase is Open ==> step is OpenStorage,
        start.phase is AskId ==> (step matches StartStep::RequestNodeId { seed } && seed@ == (
        start.seed->0).0),
        start.phase matches StartPhase::AddNode { node_id: id } ==> {
            &&& step matches StartStep::RequestMembership { seed, change }
            &&& seed@ == (start.seed->0).0
            &&& change matches MembershipChange::Add { node_id, addr }
            &&& node_id == id
            &&& addr@ == start.addr
        },
        start.phase matches StartPhase::Save { node_id: id, promote } ==> step == (
        StartStep::SaveIdentity { node_id: id, promotion_pending: promote }),
        start.phase matches StartPhase::Launch { node_id: id, .. } ==> step == (
        StartStep::StartRaft { node_id: id }),
        start.phase matches StartPhase::Initialize { node_id: id, .. } ==> {
            &&& step matches StartStep::Initialize { node_id, addr }
            &&& node_id == id
            &&& addr@ == start.addr
        },
        start.phase matches StartPhase::Ready { node_id: id, promote } ==> {
            &&& step matches StartStep::Ready { raft, promotion }
            &&& raft.id() == id
            &&& raft.address() == start.addr
            &&& promotion is Some <==> promote
            &&& promotion matches Some(promotion) ==> promotion.seed@ == (start.seed->0).0
                && promotion.change == (MembershipChange::SetRole {
                node_id: id,
                role: NodeRole::Voter,
            })
        },
{
}

/// Every change of membership comes to its own call, by whichever way it is asked for: for every
/// node and every membership, a promotion adds that node to the voters, a demotion takes it out of
/// them and keeps it, and a removal takes it out of them, or out of the nodes where it is none,
/// and does not keep it.
pub proof fn law_calls_are_of_the_node_named(
    node_id: u64,
    addr: String,
    members: &Membership,
    voter: bool,
    call: MembersCall,
)
    requires
        call_ensures(Membership::is_voter, (members, node_id), voter),
    ensures
        ({
            let change = MembershipChange::SetRole { node_id, role: NodeRole::Voter };
            call_ensures(EzRaft::promote, (node_id,), call) || call_ensures(
                EzRaft::members_call,
                (change, members),
                call,
            ) ==> call == (MembersCall::Change {
                change: ChangeMembers::AddVoterIds(node_id),
                retain: false,
            })
        }),
        ({
            let change = MembershipChange::SetRole { node_id, role: NodeRole::Learner };
            call_ensures(EzRaft::demote, (node_id,), call) || call_ensures(
                EzRaft::members_call,
                (change, members),
                call,
            ) ==> call == (MembersCall::Change {
                change: ChangeMembers::RemoveVoters(node_id),
                retain: true,
            })
        }),
        ({
            let change = MembershipChange::Remove { node_id };
            call_ensures(EzRaft::remove_node, (node_id, members), call) || call_ensures(
                EzRaft::members_call,
                (change, members),
                call,
            ) ==> call == (MembersCall::Change {
                change: if voter {
                    ChangeMembers::RemoveVoters(node_id)
                } else {
                    ChangeMembers::RemoveNodes(node_id)
                },
                retain: false,
            })
        }),
        ({
            let change = MembershipChange::Add { node_id, addr };
            call_ensures(EzRaft::add_learner, (node_id, addr), call) || call_ensures(
                EzRaft::members_call,
                (change, members),
                call,
            ) ==> call == (MembersCall::AddLearner { node_id, addr })
        }),
{
}

/// A write is over with the first attempt that is applied, whichever that is, and returns what was
/// applied; an attempt that finds no leader elsewhere is the only one that is followed by another,
/// of the same request.
pub proof fn law_applied_write_is_returned<Q, R>(
    write: &mut Write<Q>,
    answer: WriteAnswer<R>,
    step: WriteStep<R>,
)
    requires
        !write@.used_up(),
        call_ensures(Write::<Q>::answered::<R>, (write, answer), step),
    ensures
        answer matches WriteAnswer::Applied(Some(response)) ==> step == WriteStep::Return(
            Ok::<R, String>(response),
        ),
        answer matches WriteAnswer::Applied(None) ==> step matches WriteStep::Return(Err(_)),
        answer matches WriteAnswer::Failed { error } ==> step matches WriteStep::Return(Err(text))
            && text@ == error@,
        step is Again <==> (answer matches WriteAnswer::ForwardToLeader { leader, .. } && (
        leader matches Some(leader) ==> leader@ == old(write)@.addr)),
        final(write)@.req == old(write)@.req,
        final(write)@.addr == old(write)@.addr,
        final(write)@.attempts == old(write)@.attempts + 1,
{
}

/// A write submits the request that it was begun with, and gives up if and only if it was attempted
/// twenty times.
pub proof fn law_write_submits_its_request<Q>(
    raft: &EzRaft,
    req: Q,
    begun: Write<Q>,
    write: &Write<Q>,
    first: WriteNext<'_, Q>,
    next: WriteNext<'_, Q>,
)
    requires
        call_ensures(EzRaft::write::<Q>, (raft, req), begun),
        call_ensures(Write::<Q>::next, (&begun,), first),
        call_ensures(Write::<Q>::next, (write,), next),
    ensures
        first matches WriteNext::Submit(submitted) && *submitted == req,
        begun@.addr == raft.address(),
        next is GiveUp <==> write@.attempts >= 20,
        next matches WriteNext::Submit(submitted) ==> *submitted == write@.req,
{
}

/// What a start is told is what its next step acts on: an id that the storage holds is the one that
/// Raft is started under; one that the cluster hands out is the one that the node is added under,
/// at its own address and as a learner; and it is saved under that id, as a voter to be if that is
/// the role asked for.
pub proof fn law_start_acts_on_what_it_was_told<E>(
    start: &mut Start,
    answer: StartAnswer<E>,
    result: Result<(), E>,
    step: StartStep,
)
    requires
        start@.wf(),
        start@.phase.admits(answer),
        call_ensures(Start::answered::<E>, (start, answer), result),
        call_ensures(Start::step, (final(start),), step),
    ensures
        answer matches StartAnswer::Failed(e) ==> result == Err::<(), E>(e) && final(start)@
            == old(start)@,
        !(answer is Failed) ==> result is Ok,
        answer matches StartAnswer::Stored { node_id: Some(id), .. } ==> step == (
        StartStep::StartRaft { node_id: id }),
        answer matches StartAnswer::Stored { node_id: None, .. } ==> match old(start)@.seed {
            Some((via, _)) => step matches StartStep::RequestNodeId { seed } && seed@ == via,
            None => step == (StartStep::SaveIdentity { node_id: 0, promotion_pending: false }),
        },
        answer matches StartAnswer::NodeId(id) ==> {
            &&& step matches StartStep::RequestMembership { seed, change }
            &&& seed@ == (old(start)@.seed->0).0
            &&& change matches MembershipChange::Add { node_id, addr }
            &&& node_id == id
            &&& addr@ == old(start)@.addr
        },
        answer is Done ==> (old(start)@.phase matches StartPhase::AddNode { node_id: id } ==> step
            == (StartStep::SaveIdentity {
            node_id: id,
            promotion_pending: (old(start)@.seed->0).1 == NodeRole::Voter,
        })),
{
    let next = start@.after(answer);
    assert(final(start)@ == next);
    if !(answer is Failed) {
        law_answers_decide_how_a_start_goes_on(start@, answer);
        law_start_makes_progress(start@, answer);
        law_each_step_of_a_start_does_its_part(next, step);
    }
}

/// How a node is brought up decides what it asks for: one that is created has no seed; one that
/// joins has the seed that it was given, and votes unless it joins as a learner.
pub proof fn law_ways_to_start_differ_in_seed_and_role(
    addr: &str,
    seed_addr: &str,
    created: Start,
    joined: Start,
    learner: Start,
)
    requires
        call_ensures(EzRaft::create, (addr,), created),
        call_ensures(EzRaft::join, (addr, seed_addr), joined),
        call_ensures(EzRaft::join_as_learner, (addr, seed_addr), learner),
    ensures
        created@.seed is None,
        joined@.seed == Some((seed_addr@, NodeRole::Voter)),
        learner@.seed == Some((seed_addr@, NodeRole::Learner)),
        created@.addr == addr@,
        joined@.addr == addr@,
        learner@.addr == addr@,
        created@.phase is Config,
        joined@.phase is Config,
        learner@.phase is Config,
{
}

/// Serving ends with the server, whatever else is under way, and with the promotion only if that
/// was awaited and failed, or could not be recorded.
pub proof fn law_serving_ends_with_the_server<E>(
    serve: &mut Serve,
    event: ServeEvent<E>,
    step: ServeStep<E>,
)
    requires
        call_ensures(Serve::on::<E>, (serve, event), step),
    ensures
        event matches ServeEvent::Server(result) ==> step == ServeStep::Return(result),
        event matches ServeEvent::Promotion(Ok(_)) ==> (step is Promoted <==> old(
            serve,
        ).awaiting()) && !(step is Return),
        event matches ServeEvent::Promotion(Err(e)) ==> if old(serve).awaiting() {
            step == ServeStep::Return(Err::<(), E>(e))
        } else {
            step is Wait
        },
        event matches ServeEvent::Recorded(Ok(_)) ==> step is Wait,
        event matches ServeEvent::Recorded(Err(e)) ==> step == ServeStep::Return(Err::<(), E>(e)),
        event is Promotion ==> !final(serve).awaiting(),
        !(event is Promotion) ==> final(serve).awaiting() == old(serve).awaiting(),
{
}

} // verus!

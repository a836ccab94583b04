//! A node: starting, writing, serving, and what it asks of Raft

use ezraft::admin::membership_change::MembershipChange;
use ezraft::membership::Membership;
use ezraft::node_role::NodeRole;
use ezraft::raft::ChangeMembers;
use ezraft::raft::EzRaft;
use ezraft::raft::MembersCall;
use ezraft::raft::Promotion;
use ezraft::raft::ServeEvent;
use ezraft::raft::ServeStep;
use ezraft::raft::Start;
use ezraft::raft::StartAnswer;
use ezraft::raft::StartStep;
use ezraft::raft::WRITE_ATTEMPTS;
use ezraft::raft::WriteAnswer;
use ezraft::raft::WriteNext;
use ezraft::raft::WriteStep;

/// A node's storage: who it is, and whether a promotion is owed to it
#[derive(Clone, Copy, Default)]
struct Identity {
    node_id: Option<u64>,
    promotion_pending: bool,
}

/// Run a start, failing at the step that `fail_at` names, and collect what was done
fn run(mut start: Start, identity: &mut Identity, fail_at: &str) -> (Vec<String>, Result<(EzRaft, Option<Promotion>), String>) {
    let mut done = Vec::new();
    loop {
        let step = start.step();
        let (text, answer) = match step {
            StartStep::ConvertConfig => ("config".to_string(), StartAnswer::Done),
            StartStep::OpenStorage => {
                let Identity { node_id, promotion_pending } = *identity;
                ("open".to_string(), StartAnswer::Stored { node_id, promotion_pending })
            }
            StartStep::RequestNodeId { seed } => (format!("node_id via {}", seed), StartAnswer::NodeId(9)),
            StartStep::RequestMembership { seed, change } => {
                (format!("{:?} via {}", change, seed), StartAnswer::Done)
            }
            StartStep::SaveIdentity { node_id, promotion_pending } => {
                *identity = Identity { node_id: Some(node_id), promotion_pending };
                (format!("save {} {}", node_id, promotion_pending), StartAnswer::Done)
            }
            StartStep::StartRaft { node_id } => (format!("raft {}", node_id), StartAnswer::Done),
            StartStep::Initialize { node_id, addr } => {
                (format!("initialize {} at {}", node_id, addr), StartAnswer::AlreadyInitialized)
            }
            StartStep::Ready { raft, promotion } => return (done, Ok((raft, promotion))),
        };
        let answer = if text.starts_with(fail_at) && !fail_at.is_empty() {
            StartAnswer::Failed(format!("{} failed", fail_at))
        } else {
            answer
        };
        done.push(text);
        if let Err(e) = start.answered(answer) {
            return (done, Err(e));
        }
    }
}

const ADDED: &str = "Add { node_id: 9, addr: \"c:3\" } via s:1";

#[test]
fn a_created_node_starts_a_cluster_of_itself() {
    let mut identity = Identity::default();
    let (done, ready) = run(EzRaft::create("a:1"), &mut identity, "");
    assert_eq!(vec!["config", "open", "save 0 false", "raft 0", "initialize 0 at a:1"], done);
    let (raft, promotion) = ready.unwrap();
    assert_eq!((0, "a:1"), (raft.node_id(), raft.addr()));
    assert!(promotion.is_none());

    // On restart it finds its id, and asks for the cluster again.
    let (done, ready) = run(EzRaft::create("a:1"), &mut identity, "");
    assert_eq!(vec!["config", "open", "raft 0", "initialize 0 at a:1"], done);
    assert!(ready.unwrap().1.is_none());
}

#[test]
fn a_joining_node_enters_as_a_learner() {
    for (start, voter) in [(EzRaft::join("c:3", "s:1"), true), (EzRaft::join_as_learner("c:3", "s:1"), false)] {
        let mut identity = Identity::default();
        let (done, ready) = run(start, &mut identity, "");
        let saved = format!("save 9 {}", voter);
        assert_eq!(vec!["config", "open", "node_id via s:1", ADDED, &saved, "raft 9"], done);
        let (raft, promotion) = ready.unwrap();
        assert_eq!((9, "c:3"), (raft.node_id(), raft.addr()));
        assert_eq!(voter, promotion.is_some());
        assert_eq!(voter, identity.promotion_pending);
        if let Some(promotion) = promotion {
            assert_eq!("s:1", promotion.seed);
            let change = promotion.change;
            assert!(matches!(change, MembershipChange::SetRole { node_id: 9, role: NodeRole::Voter }));
        }
    }
}

/// A node that has joined is whatever the membership says, and asks its seed for nothing.
#[test]
fn a_restarted_node_asks_nothing_of_its_seed() {
    let mut identity = Identity { node_id: Some(4), promotion_pending: false };
    for start in [EzRaft::join("c:3", "gone:1"), EzRaft::join_as_learner("c:3", "gone:1"), EzRaft::create("c:3")] {
        let (done, ready) = run(start, &mut identity, "");
        assert_eq!(vec!["config", "open", "raft 4"], done);
        assert!(ready.unwrap().1.is_none());
    }
}

/// The promotion still owed is persisted, so the restart asks for it again instead of silently
/// running on as the learner the caller never asked to be.
#[test]
fn a_promotion_that_is_owed_is_asked_for_again() {
    let mut identity = Identity::default();
    let (_done, first) = run(EzRaft::join_as_learner("c:3", "s:1"), &mut identity, "");
    assert_eq!(9, first.unwrap().0.node_id());
    assert!(!identity.promotion_pending, "a learner join asks for no promotion");
    identity.promotion_pending = true;
    let (done, ready) = run(EzRaft::join("c:3", "s:1"), &mut identity, "");
    assert_eq!(vec!["config", "open", "raft 9"], done);
    let (raft, promotion) = ready.unwrap();
    assert_eq!(9, raft.node_id());
    let promotion = promotion.expect("the resumed promotion made it a voter");
    assert_eq!("s:1", promotion.seed);
    assert!(matches!(promotion.change, MembershipChange::SetRole { node_id: 9, role: NodeRole::Voter }));

    // And once it is confirmed, the intent is spent.
    let mut serve = EzRaft::serve(true);
    assert!(matches!(serve.on(ServeEvent::<String>::Promotion(Ok(()))), ServeStep::Promoted));
}

/// A configuration that the node cannot run with is refused before the cluster is asked for an id
/// or told about this node.
#[test]
fn an_unusable_config_is_refused_before_the_cluster_is_asked() {
    let mut identity = Identity::default();
    let (done, ready) = run(EzRaft::join("c:3", "s:1"), &mut identity, "config");
    assert_eq!(vec!["config"], done);
    assert!(ready.is_err(), "a config the node cannot run with is refused");
    assert_eq!(None, identity.node_id);
}

#[test]
fn a_failed_step_fails_the_start() {
    let all = ["config", "open", "node_id via s:1", ADDED, "save 9 true", "raft 9"];
    for (i, fail_at) in ["config", "open", "node_id", "Add", "save", "raft"].into_iter().enumerate() {
        let (done, ready) = run(EzRaft::join("c:3", "s:1"), &mut Identity::default(), fail_at);
        assert_eq!(all[..=i], done[..]);
        assert_eq!(Err(format!("{} failed", fail_at)), ready.map(|_| ()));
    }
    let (done, ready) = run(EzRaft::create("a:1"), &mut Identity::default(), "initialize");
    assert_eq!(5, done.len());
    assert!(ready.is_err());
}

fn members() -> Membership {
    Membership { configs: vec![vec![0, 2]], nodes: vec![(0, "a:1".to_string()), (2, "b:2".to_string()), (5, "c:3".to_string())] }
}

#[test]
fn membership_changes_become_calls() {
    let call = |change| format!("{:?}", EzRaft::members_call(change, &members()));
    assert_eq!(
        "AddLearner { node_id: 7, addr: \"d:4\" }",
        call(MembershipChange::Add { node_id: 7, addr: "d:4".to_string() })
    );
    assert_eq!(
        "Change { change: AddVoterIds(5), retain: false }",
        call(MembershipChange::SetRole { node_id: 5, role: NodeRole::Voter })
    );
    assert_eq!(
        "Change { change: RemoveVoters(2), retain: true }",
        call(MembershipChange::SetRole { node_id: 2, role: NodeRole::Learner })
    );
    // A voter is in two places at once, a learner in one.
    assert_eq!("Change { change: RemoveVoters(2), retain: false }", call(MembershipChange::Remove { node_id: 2 }));
    assert_eq!("Change { change: RemoveNodes(5), retain: false }", call(MembershipChange::Remove { node_id: 5 }));

    assert!(matches!(
        EzRaft::change_membership(ChangeMembers::AddVoterIds(1)),
        MembersCall::Change { change: ChangeMembers::AddVoterIds(1), retain: false }
    ));
}

/// A node at `c:3`, as a restart finds it
fn node() -> EzRaft {
    let mut identity = Identity { node_id: Some(4), promotion_pending: false };
    run(EzRaft::create("c:3"), &mut identity, "").1.unwrap().0
}

fn forward(leader: Option<&str>) -> WriteAnswer<u64> {
    WriteAnswer::ForwardToLeader { leader: leader.map(String::from), error: format!("forward to {:?}", leader) }
}

fn returned(step: WriteStep<u64>) -> Option<Result<u64, String>> {
    match step {
        WriteStep::Return(result) => Some(result),
        WriteStep::Again => None,
    }
}

#[test]
fn a_write_is_answered_by_raft() {
    let once = |answer| returned(node().write(5).answered(answer));
    assert_eq!(Some(Ok(7)), once(WriteAnswer::Applied(Some(7))));
    assert_eq!(Some(Err("write produced no response".to_string())), once(WriteAnswer::Applied(None)));
    assert_eq!(Some(Err("stopped".to_string())), once(WriteAnswer::Failed { error: "stopped".to_string() }));

    // On a follower it fails, naming the leader.
    assert_eq!(Some(Err("forward to Some(\"a:1\")".to_string())), once(forward(Some("a:1"))));
}

/// Every refused attempt is followed by a wait, the last one too.
#[test]
fn a_write_waits_for_a_leader_for_a_while() {
    let mut write = node().write(5);
    for i in 1..=WRITE_ATTEMPTS {
        assert!(matches!(write.next(), WriteNext::Submit(5)));
        // No leader, or this node itself before it may lead.
        let leader = if i % 2 == 0 { None } else { Some("c:3") };
        assert_eq!(None, returned(write.answered(forward(leader))));
    }
    assert_eq!(20, WRITE_ATTEMPTS);
    let WriteNext::GiveUp(message) = write.next() else {
        panic!("another attempt");
    };
    assert_eq!("write gave up after 20 attempts: forward to None", message);
}

#[test]
fn serving_ends_with_the_server() {
    let mut serve = EzRaft::serve(false);
    assert!(matches!(serve.on(ServeEvent::<String>::Server(Ok(()))), ServeStep::Return(Ok(()))));

    let mut serve = EzRaft::serve(true);
    assert!(matches!(serve.on(ServeEvent::<String>::Promotion(Ok(()))), ServeStep::Promoted));
    assert!(matches!(serve.on(ServeEvent::<String>::Recorded(Ok(()))), ServeStep::Wait));
    assert!(matches!(serve.on(ServeEvent::<String>::Promotion(Ok(()))), ServeStep::Wait));
    assert!(matches!(serve.on(ServeEvent::Server(Err("stopped"))), ServeStep::Return(Err("stopped"))));
}

/// A server that cannot start is reported even while a promotion is still pending.
#[test]
fn a_server_that_cannot_bind_is_reported_at_once() {
    let mut serve = EzRaft::serve(true);
    assert!(matches!(serve.on(ServeEvent::Server(Err("in use"))), ServeStep::Return(Err("in use"))));
}

#[test]
fn a_failed_promotion_ends_serving() {
    let mut serve = EzRaft::serve(true);
    assert!(matches!(serve.on(ServeEvent::Promotion(Err("gave up"))), ServeStep::Return(Err("gave up"))));
}

/// A promotion that could not be recorded would be asked for again by the next start.
#[test]
fn an_unrecorded_promotion_ends_serving() {
    let mut serve = EzRaft::serve(true);
    assert!(matches!(serve.on(ServeEvent::<&str>::Promotion(Ok(()))), ServeStep::Promoted));
    assert!(matches!(serve.on(ServeEvent::Recorded(Err("disk full"))), ServeStep::Return(Err("disk full"))));
}

//! What a node answers over HTTP

use ezraft::admin::client::AdminClient;
use ezraft::admin::client::AdminProgress;
use ezraft::admin::client::AdminStep;
use ezraft::admin::client::Reply;
use ezraft::admin::membership_change::MembershipChange;
use ezraft::membership::Membership;
use ezraft::node_role::NodeRole;
use ezraft::raft::ChangeMembers;
use ezraft::raft::EzRaft;
use ezraft::raft::MembersCall;
use ezraft::raft::StartAnswer;
use ezraft::raft::StartStep;
use ezraft::raft::WriteAnswer;
use ezraft::server::EzServer;
use ezraft::server::HandleWriteStep;
use ezraft::server::Metrics;
use ezraft::server::failed;

fn metrics(id: u64, current_leader: Option<u64>) -> Metrics {
    let nodes = vec![(0, "a:1".to_string()), (2, "b:2".to_string())];
    Metrics { id, current_leader, membership: Membership { configs: vec![vec![0]], nodes } }
}

/// A server of a node at `c:3`
fn server() -> EzServer {
    let mut start = EzRaft::create("c:3");
    loop {
        let answer: StartAnswer<()> = match start.step() {
            StartStep::OpenStorage => StartAnswer::Stored { node_id: Some(4), promotion_pending: false },
            StartStep::Ready { raft, .. } => return EzServer::new(raft),
            _ => StartAnswer::Done,
        };
        start.answered(answer).unwrap();
    }
}

#[test]
fn only_the_leader_answers_for_the_cluster() {
    assert_eq!(Ok(()), EzServer::leader_or_redirect(&metrics(0, Some(0))));
    assert_eq!(Err(Some("a:1".to_string())), EzServer::leader_or_redirect(&metrics(2, Some(0))));
    assert_eq!(Err(None), EzServer::leader_or_redirect(&metrics(2, None)));
    // A leader that the membership does not know has no address to name.
    assert_eq!(Err(None), EzServer::leader_or_redirect(&metrics(2, Some(9))));
    assert_eq!(Ok(()), EzServer::handle_node_id(&metrics(0, Some(0))));
    assert_eq!(Err(Some("a:1".to_string())), EzServer::handle_node_id(&metrics(2, Some(0))));
}

#[test]
fn a_node_id_is_the_index_of_a_blank_entry() {
    assert_eq!(Ok(Ok(17)), EzServer::node_id_answer(Ok(17)));
    assert_eq!(
        Err("node id write failed: no quorum".to_string()),
        EzServer::node_id_answer(Err("no quorum".to_string()))
    );
}

#[test]
fn a_follower_redirects_a_membership_change_and_does_nothing() {
    let promote = MembershipChange::SetRole { node_id: 2, role: NodeRole::Voter };
    let answer = EzServer::handle_membership(&metrics(2, Some(0)), promote.clone());
    assert_eq!("a:1", answer.map(|_| ()).unwrap_err().unwrap());

    let call = EzServer::handle_membership(&metrics(0, Some(0)), promote).expect("the leader does it");
    assert!(matches!(call, MembersCall::Change { change: ChangeMembers::AddVoterIds(2), retain: false }));
}

#[test]
fn a_membership_change_that_fails_says_which() {
    let add = MembershipChange::Add { node_id: 2, addr: "b:2".to_string() };
    let voter = MembershipChange::SetRole { node_id: 2, role: NodeRole::Voter };
    let learner = MembershipChange::SetRole { node_id: 2, role: NodeRole::Learner };
    let remove = MembershipChange::Remove { node_id: 2 };
    for (change, name) in [
        (&add, "add_node"),
        (&voter, "change_node_role to Voter"),
        (&learner, "change_node_role to Learner"),
        (&remove, "remove_node"),
    ] {
        assert_eq!(Ok(Ok(())), EzServer::membership_answer(change, Ok(())));
        assert_eq!(
            Err(format!("{} failed: busy", name)),
            EzServer::membership_answer(change, Err("busy".to_string()))
        );
    }
    assert_eq!("vote failed: stopped", failed("vote", "stopped"));
}

fn forward(leader: Option<&str>) -> WriteAnswer<u64> {
    WriteAnswer::ForwardToLeader { leader: leader.map(String::from), error: format!("forward to {:?}", leader) }
}

#[test]
fn a_write_is_submitted_before_anything_else() {
    let once = |answer| format!("{:?}", server().handle_write("set").submitted(answer));
    assert_eq!("Answer(7)", once(WriteAnswer::Applied(Some(7))));
    assert_eq!("Fail(\"write produced no response\")", once(WriteAnswer::Applied(None)));
    assert_eq!("Fail(\"write failed: stopped\")", once(WriteAnswer::Failed { error: "stopped".to_string() }));
    assert_eq!("Forward { url: \"http://a:1/api/write\" }", once(forward(Some("a:1"))));
    assert_eq!("WaitForLeader", once(forward(None)));
    // Forwarding to this node itself would repeat the request forever.
    assert_eq!("WaitForLeader", once(forward(Some("c:3"))));
}

#[test]
fn a_write_is_submitted_twice_at_most() {
    for (answer, expected) in [
        (forward(None), "Fail(\"write failed: forward to None\")"),
        (forward(Some("c:3")), "Fail(\"write failed: forward to Some(\\\"c:3\\\")\")"),
        (forward(Some("a:1")), "Forward { url: \"http://a:1/api/write\" }"),
        (WriteAnswer::Applied(Some(7)), "Answer(7)"),
    ] {
        let mut write = server().handle_write("set");
        let first: HandleWriteStep<u64> = write.submitted(forward(None));
        assert!(matches!(first, HandleWriteStep::WaitForLeader));
        assert_eq!("set", *write.request());
        assert_eq!(expected, format!("{:?}", write.submitted(answer)));
        assert_eq!("set", *write.request());
    }
}

#[test]
fn a_forwarded_write_is_answered_by_the_leader() {
    let write = server().handle_write("set");
    assert_eq!(Ok(7), write.forwarded("u", Reply::Answer(7)));
    assert_eq!(
        Err("write failed: forwarding write to u failed: timed out".to_string()),
        write.forwarded::<u64>("u", Reply::Unreachable { error: "timed out".to_string() })
    );
    assert_eq!(
        Err("write failed: u responded 500: boom".to_string()),
        write.forwarded::<u64>("u", Reply::Refused { status: "500".to_string(), body: "boom".to_string() })
    );
    assert_eq!(
        Err("write failed: failed to parse write response: eof".to_string()),
        write.forwarded::<u64>("u", Reply::Unreadable { error: "eof".to_string() })
    );
}

/// A request sent to any node gets to the leader by way of the answers.
#[test]
fn a_request_follows_the_redirect_to_the_leader() {
    let mut request = AdminClient::new("b:2").node_id();

    // The follower names the leader, and is not waited for.
    let redirect = EzServer::handle_node_id(&metrics(2, Some(0))).map(|()| 0u64);
    assert!(matches!(request.answered(Ok(redirect)), AdminProgress::Again { pause: false }));
    assert!(matches!(request.next(), AdminStep::Post { url, .. } if url == "http://a:1/api/node_id"));

    // The leader answers.
    let answer = EzServer::handle_node_id(&metrics(0, Some(0))).and_then(|()| EzServer::node_id_answer(Ok(9)).unwrap());
    assert!(matches!(request.answered(Ok(answer)), AdminProgress::Done(9)));
}

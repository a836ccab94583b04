//! Driving the admin endpoints

use ezraft::admin::add_node::AddNodeRequest;
use ezraft::admin::change_node_role::ChangeNodeRoleRequest;
use ezraft::admin::client::ADMIN_ATTEMPTS;
use ezraft::admin::client::AdminClient;
use ezraft::admin::client::AdminProgress;
use ezraft::admin::client::AdminRequest;
use ezraft::admin::client::AdminStep;
use ezraft::admin::client::Reply;
use ezraft::admin::client::answer;
use ezraft::admin::client::is_success;
use ezraft::admin::membership_change::MembershipChange;
use ezraft::admin::redirect::Redirect;
use ezraft::admin::remove_node::RemoveNodeRequest;
use ezraft::node_role::NodeRole;

fn url<B>(request: &AdminRequest<B>) -> String {
    match request.next() {
        AdminStep::Post { url, .. } => url,
        AdminStep::GiveUp(message) => panic!("gave up: {}", message),
    }
}

fn paused(progress: AdminProgress<u64>) -> bool {
    match progress {
        AdminProgress::Again { pause } => pause,
        AdminProgress::Done(id) => panic!("done: {}", id),
    }
}

#[test]
fn requests_name_their_endpoint_and_timeout() {
    let client = AdminClient::new("a:1");
    assert_eq!("http://a:1/api/metrics", client.metrics());

    let request = client.node_id();
    assert_eq!("http://a:1/api/node_id", url(&request));
    assert_eq!(5_000, request.timeout_ms());

    for (change, timeout_ms) in [
        (MembershipChange::Add { node_id: 2, addr: "b:2".to_string() }, 5_000),
        (MembershipChange::SetRole { node_id: 2, role: NodeRole::Voter }, 90_000),
        (MembershipChange::SetRole { node_id: 2, role: NodeRole::Learner }, 90_000),
        (MembershipChange::Remove { node_id: 2 }, 5_000),
    ] {
        let request = client.membership(change);
        assert_eq!("http://a:1/api/membership", url(&request));
        assert_eq!(timeout_ms, request.timeout_ms());
    }
}

#[test]
fn a_redirect_is_followed_and_everything_else_waited_out() {
    let mut request = AdminClient::new("a:1").node_id();

    assert!(paused(request.answered(Err("connection refused".to_string()))));
    assert_eq!("http://a:1/api/node_id", url(&request));

    assert!(paused(request.answered(Ok(Err(None)))));
    assert_eq!("http://a:1/api/node_id", url(&request));

    assert!(!paused(request.answered(Ok(Err(Some("b:2".to_string()))))));
    assert_eq!("http://b:2/api/node_id", url(&request));

    assert!(matches!(request.answered(Ok(Ok(42))), AdminProgress::Done(42)));
}

fn given_up(last: Result<Redirect<u64>, String>) -> String {
    let mut request = AdminClient::new("a:1").node_id();
    for _ in 0..ADMIN_ATTEMPTS {
        url(&request);
        request.answered(last.clone());
    }
    match request.next() {
        AdminStep::GiveUp(message) => message,
        AdminStep::Post { url, .. } => panic!("another attempt: {}", url),
    }
}

/// Wherever a request is sent, it asks what it was made to ask.
#[test]
fn every_attempt_posts_the_change_asked_for() {
    let change = MembershipChange::Add { node_id: 2, addr: "b:2".to_string() };
    let mut request = AdminClient::new("a:1").clone().membership(change);

    let answers: Vec<Result<Redirect<()>, String>> =
        vec![Err("refused".to_string()), Ok(Err(Some("c:3".to_string()))), Ok(Err(None))];
    let mut posted = Vec::new();
    for answer in answers {
        match request.next() {
            AdminStep::Post { url, body: MembershipChange::Add { node_id, addr } } => {
                posted.push(format!("{} {} {}", url, node_id, addr))
            }
            step => panic!("unexpected step: {:?}", step),
        }
        request.answered(answer);
    }
    assert_eq!(
        vec![
            "http://a:1/api/membership 2 b:2",
            "http://a:1/api/membership 2 b:2",
            "http://c:3/api/membership 2 b:2",
        ],
        posted
    );
}

#[test]
fn a_request_is_given_up_after_its_attempts() {
    assert_eq!(20, ADMIN_ATTEMPTS);
    assert_eq!("node_id gave up after 20 attempts: refused", given_up(Err("refused".to_string())));
    assert_eq!("node_id gave up after 20 attempts: a:1 knows of no leader", given_up(Ok(Err(None))));
    assert_eq!(
        "node_id gave up after 20 attempts: b:2 redirected to b:2",
        given_up(Ok(Err(Some("b:2".to_string()))))
    );
}

#[test]
fn a_reply_is_read_for_its_answer() {
    assert_eq!(Ok(7), answer("u", Reply::Answer(7)));
    assert_eq!(
        Err("request to u failed: timed out".to_string()),
        answer::<u64>("u", Reply::Unreachable { error: "timed out".to_string() })
    );
    assert_eq!(
        Err("u responded 500: boom".to_string()),
        answer::<u64>("u", Reply::Refused { status: "500".to_string(), body: "boom".to_string() })
    );
    assert_eq!(
        Err("failed to parse u response: eof".to_string()),
        answer::<u64>("u", Reply::Unreadable { error: "eof".to_string() })
    );
}

#[test]
fn narrow_requests_are_membership_changes() {
    let add = AddNodeRequest { node_id: 3, addr: "c:3".to_string() }.into_change();
    assert!(matches!(add, MembershipChange::Add { node_id: 3, addr } if addr == "c:3"));

    let role = ChangeNodeRoleRequest { node_id: 3, role: NodeRole::Voter }.into_change();
    assert!(matches!(role.clone(), MembershipChange::SetRole { node_id: 3, role: NodeRole::Voter }));

    let remove = RemoveNodeRequest { node_id: 3 }.into_change();
    assert!(matches!(remove, MembershipChange::Remove { node_id: 3 }));
}

#[test]
fn a_status_of_two_hundred_and_something_is_a_success() {
    for status in [200, 201, 204, 299] {
        assert!(is_success(status), "{}", status);
    }
    for status in [0, 100, 199, 300, 302, 404, 500, u16::MAX] {
        assert!(!is_success(status), "{}", status);
    }
}

//! Driving the admin endpoints from whoever wants something from the cluster

use vstd::prelude::*;

use crate::admin::membership_change::MembershipChange;
use crate::admin::redirect::Redirect;
use crate::text::decimal;
use crate::text::decimal_text;
use crate::text::law_decimal_ends_in_the_last_digit;

verus! {

/// How many times an admin request is attempted before the node gives up
pub const ADMIN_ATTEMPTS: u64 = 20;

/// How long to wait before attempting an admin request again, in milliseconds
pub const ADMIN_RETRY_INTERVAL_MS: u64 = 500;

/// How long a single admin request may take before the target is given up on, in milliseconds
pub const ADMIN_TIMEOUT_MS: u64 = 5_000;

/// How long a membership change may take before the leader is given up on, in milliseconds
///
/// Far longer than the rest, because the leader answers only once the change is committed, and
/// bringing a new voter up to date is part of that: for a large state, a whole snapshot transfer.
pub const MEMBERSHIP_CHANGE_TIMEOUT_MS: u64 = 90_000;

/// The admin API of a cluster, reached through one of its nodes
///
/// The address is where to ask, not who must answer: a request only the leader can decide is
/// followed to whichever node the answer names, so any member of the cluster will do. It is also
/// retried, because a cluster that is still starting up is full of conditions that pass on their
/// own: a node still binding its socket, an election in flight, another membership change
/// holding the one slot a cluster admits at a time.
///
/// [`Self::metrics`] is the exception: it asks one node and reports what that node said.
#[derive(Debug)]
pub struct AdminClient {
    /// The node to ask
    addr: String,
}

impl Clone for AdminClient {
    fn clone(&self) -> (copy: AdminClient)
        ensures
            copy.addr() == self.addr(),
    {
        AdminClient { addr: self.addr.clone() }
    }
}

/// The URL of an endpoint of the node serving `addr`
pub open spec fn endpoint_url(addr: Seq<char>, endpoint: Seq<char>) -> Seq<char> {
    "http://"@ + addr + "/api/"@ + endpoint
}

/// The URL of an endpoint of the node serving `addr`
pub fn endpoint_url_text(addr: &str, endpoint: &str) -> (url: String)
    ensures
        url@ == endpoint_url(addr@, endpoint@),
{
    let mut url = String::from_str("http://");
    url.append(addr);
    url.append("/api/");
    url.append(endpoint);
    url
}

impl AdminClient {
    /// The address of the node to ask
    pub closed spec fn addr(self) -> Seq<char> {
        self.addr@
    }

    /// An admin client that asks the node serving `addr`
    pub fn new(addr: &str) -> (client: AdminClient)
        ensures
            client.addr() == addr@,
    {
        AdminClient { addr: String::from_str(addr) }
    }

    /// Take a fresh node id from the cluster
    pub fn node_id(&self) -> (request: AdminRequest<()>)
        ensures
            request@ == AdminRequestView::first(self.addr(), "node_id"@, (), ADMIN_TIMEOUT_MS),
    {
        self.request("node_id", (), ADMIN_TIMEOUT_MS)
    }

    /// Ask the cluster to change who is in it
    ///
    /// A promotion is answered only once the node has caught up, so that call is as long as the
    /// catch-up; the rest are answered as soon as the leader commits them.
    pub fn membership(&self, change: MembershipChange) -> (request: AdminRequest<MembershipChange>)
        ensures
            request@ == AdminRequestView::first(
                self.addr(),
                "membership"@,
                change,
                if change is SetRole {
                    MEMBERSHIP_CHANGE_TIMEOUT_MS
                } else {
                    ADMIN_TIMEOUT_MS
                },
            ),
    {
        let timeout_ms: u64 = match &change {
            MembershipChange::SetRole { .. } => MEMBERSHIP_CHANGE_TIMEOUT_MS,
            _ => ADMIN_TIMEOUT_MS,
        };
        self.request("membership", change, timeout_ms)
    }

    /// Where to read the asked node's view of the cluster
    ///
    /// Not followed to the leader and not retried, unlike the rest, because one node's view is
    /// the whole point of asking it: a follower that has fallen behind can only say so itself.
    pub fn metrics(&self) -> (url: String)
        ensures
            url@ == endpoint_url(self.addr(), "metrics"@),
    {
        endpoint_url_text(self.addr.as_str(), "metrics")
    }

    /// A request to one admin endpoint, to be driven to an answer
    pub fn request<B>(&self, endpoint: &str, body: B, timeout_ms: u64) -> (request: AdminRequest<B>)
        ensures
            request@ == AdminRequestView::first(self.addr(), endpoint@, body, timeout_ms),
    {
        let mut last_err = String::from_str("cluster did not answer ");
        last_err.append(endpoint);
        AdminRequest {
            endpoint: String::from_str(endpoint),
            body,
            timeout_ms,
            target_addr: self.addr.clone(),
            last_err,
            attempts: 0,
        }
    }
}

/// An admin request under way
#[derive(Debug)]
pub struct AdminRequest<B> {
    endpoint: String,
    body: B,
    timeout_ms: u64,
    target_addr: String,
    last_err: String,
    attempts: u64,
}

/// An [`AdminRequest`] as a value
#[verifier::ext_equal]
pub struct AdminRequestView<B> {
    /// The endpoint that is asked
    pub endpoint: Seq<char>,

    /// What it is asked
    pub body: B,

    /// How long one attempt may take
    pub timeout_ms: u64,

    /// The node to ask next
    pub target: Seq<char>,

    /// Why there is no answer yet
    pub last_err: Seq<char>,

    /// How many attempts were made
    pub attempts: u64,
}

impl<B> AdminRequestView<B> {
    /// A request that was not attempted yet
    pub open spec fn first(
        addr: Seq<char>,
        endpoint: Seq<char>,
        body: B,
        timeout_ms: u64,
    ) -> AdminRequestView<B> {
        AdminRequestView {
            endpoint,
            body,
            timeout_ms,
            target: addr,
            last_err: "cluster did not answer "@ + endpoint,
            attempts: 0,
        }
    }

    /// The request once an attempt went by without the answer asked for
    ///
    /// A redirect moves it to the leader that was named; a failure, and a node that knows of no
    /// leader, leave it where it was.
    pub open spec fn after<R>(self, answer: Result<Redirect<R>, String>) -> AdminRequestView<B> {
        match answer {
            Err(e) => AdminRequestView {
                last_err: e@,
                attempts: (self.attempts + 1) as u64,
                ..self
            },
            Ok(Ok(_)) => AdminRequestView { attempts: (self.attempts + 1) as u64, ..self },
            Ok(Err(Some(leader))) => AdminRequestView {
                target: leader@,
                last_err: self.target + " redirected to "@ + leader@,
                attempts: (self.attempts + 1) as u64,
                ..self
            },
            Ok(Err(None)) => AdminRequestView {
                last_err: self.target + " knows of no leader"@,
                attempts: (self.attempts + 1) as u64,
                ..self
            },
        }
    }

    /// The request once these attempts went by
    pub open spec fn after_all<R>(self, answers: Seq<Result<Redirect<R>, String>>) -> AdminRequestView<B>
        decreases answers.len(),
    {
        if answers.len() == 0 {
            self
        } else {
            self.after_all(answers.drop_last()).after(answers.last())
        }
    }

    /// What is reported when the attempts are used up
    pub open spec fn gave_up(self) -> Seq<char> {
        self.endpoint + " gave up after "@ + decimal(ADMIN_ATTEMPTS as nat) + " attempts: "@
            + self.last_err
    }
}

impl<B> View for AdminRequest<B> {
    type V = AdminRequestView<B>;

    closed spec fn view(&self) -> AdminRequestView<B> {
        AdminRequestView {
            endpoint: self.endpoint@,
            body: self.body,
            timeout_ms: self.timeout_ms,
            target: self.target_addr@,
            last_err: self.last_err@,
            attempts: self.attempts,
        }
    }
}

/// What to do next for an admin request
#[derive(Debug)]
pub enum AdminStep<'a, B> {
    /// Post this body to this URL
    Post { url: String, body: &'a B },

    /// Report this failure
    GiveUp(String),
}

/// What an attempt came to
#[derive(Debug)]
pub enum AdminProgress<R> {
    /// The cluster's answer
    Done(R),

    /// Another attempt is due, after a pause if `pause` says so
    Again { pause: bool },
}

impl<B> AdminRequest<B> {
    /// How long one attempt may take, in milliseconds
    pub fn timeout_ms(&self) -> (ms: u64)
        ensures
            ms == self@.timeout_ms,
    {
        self.timeout_ms
    }

    /// What to do next: post, or give up once the attempts are used up
    pub fn next(&self) -> (step: AdminStep<'_, B>)
        ensures
            match step {
                AdminStep::Post { url, body } => {
                    &&& self@.attempts < ADMIN_ATTEMPTS
                    &&& url@ == endpoint_url(self@.target, self@.endpoint)
                    &&& *body == self@.body
                },
                AdminStep::GiveUp(message) => {
                    &&& self@.attempts >= ADMIN_ATTEMPTS
                    &&& message@ == self@.gave_up()
                },
            },
    {
        if self.attempts < ADMIN_ATTEMPTS {
            AdminStep::Post {
                url: endpoint_url_text(self.target_addr.as_str(), self.endpoint.as_str()),
                body: &self.body,
            }
        } else {
            let mut message = self.endpoint.clone();
            message.append(" gave up after ");
            message.append(decimal_text(ADMIN_ATTEMPTS).as_str());
            message.append(" attempts: ");
            message.append(self.last_err.as_str());
            AdminStep::GiveUp(message)
        }
    }

    /// Take in what an attempt was answered with
    ///
    /// Every way an attempt can fail is as transient as the rest here: the node asked may still
    /// be binding its HTTP socket, since serving starts concurrently with cluster formation. A
    /// redirect is followed at once; everything else is worth a pause.
    pub fn answered<R>(&mut self, answer: Result<Redirect<R>, String>) -> (progress: AdminProgress<
        R,
    >)
        requires
            old(self)@.attempts < ADMIN_ATTEMPTS,
        ensures
            final(self)@ == old(self)@.after(answer),
            match answer {
                Ok(Ok(resp)) => progress == AdminProgress::Done(resp),
                Ok(Err(Some(_))) => progress == (AdminProgress::<R>::Again { pause: false }),
                Ok(Err(None)) => progress == (AdminProgress::<R>::Again { pause: true }),
                Err(_) => progress == (AdminProgress::<R>::Again { pause: true }),
            },
    {
        self.attempts = self.attempts + 1;
        match answer {
            Ok(Ok(resp)) => AdminProgress::Done(resp),
            Ok(Err(Some(leader))) => {
                let mut last_err = self.target_addr.clone();
                last_err.append(" redirected to ");
                last_err.append(leader.as_str());
                self.last_err = last_err;
                self.target_addr = leader;
                AdminProgress::Again { pause: false }
            },
            Ok(Err(None)) => {
                let mut last_err = self.target_addr.clone();
                last_err.append(" knows of no leader");
                self.last_err = last_err;
                AdminProgress::Again { pause: true }
            },
            Err(e) => {
                self.last_err = e;
                AdminProgress::Again { pause: true }
            },
        }
    }
}

/// Whether an attempt was answered with the address of the leader, and that is `addr`
pub open spec fn names_leader<R>(answer: Result<Redirect<R>, String>, addr: Seq<char>) -> bool {
    match answer {
        Ok(Err(Some(leader))) => leader@ == addr,
        _ => false,
    }
}

/// A request is given up after exactly twenty attempts, whatever they were answered with. Every
/// attempt asks what was to be asked, and nothing changes whom it asks but a redirect.
pub proof fn law_request_attempts_are_counted<B, R>(
    addr: Seq<char>,
    endpoint: Seq<char>,
    body: B,
    timeout_ms: u64,
    answers: Seq<Result<Redirect<R>, String>>,
)
    requires
        answers.len() <= ADMIN_ATTEMPTS,
    ensures
        ({
            let first = AdminRequestView::first(addr, endpoint, body, timeout_ms);
            let request = first.after_all(answers);
            &&& request.attempts == answers.len()
            &&& request.endpoint == endpoint
            &&& request.body == body
            &&& request.timeout_ms == timeout_ms
            &&& request.target == addr || exists|i: int|
                0 <= i < answers.len() && names_leader(#[trigger] answers[i], request.target)
        }),
    decreases answers.len(),
{
    if answers.len() > 0 {
        let earlier = answers.drop_last();
        law_request_attempts_are_counted(addr, endpoint, body, timeout_ms, earlier);
        let before = AdminRequestView::first(addr, endpoint, body, timeout_ms).after_all(earlier);
        let request = before.after(answers.last());
        if request.target != addr {
            if answers.last() matches Ok(Err(Some(leader))) {
                assert(answers[answers.len() - 1] == answers.last());
            } else {
                let i = choose|i: int|
                    0 <= i < earlier.len() && names_leader(#[trigger] earlier[i], before.target);
                assert(answers[i] == earlier[i]);
            }
        }
    }
}

/// Whether an endpoint that responds with the HTTP status `status` did what it was asked
pub fn is_success(status: u16) -> (success: bool)
    ensures
        success == (200 <= status < 300),
{
    200 <= status && status < 300
}

/// What came of sending one request to one endpoint
#[derive(Debug)]
pub enum Reply<B> {
    /// The request did not get through
    Unreachable { error: String },

    /// The endpoint responded with a status that is not a success
    Refused { status: String, body: String },

    /// The endpoint responded, with a body that will not parse
    Unreadable { error: String },

    /// The endpoint's answer
    Answer(B),
}

/// Read what an endpoint answered
///
/// Errors on anything that is not an answer, and leaves it to the caller whether that is worth
/// another attempt.
pub fn answer<B>(url: &str, reply: Reply<B>) -> (answer: Result<B, String>)
    ensures
        match reply {
            Reply::Answer(body) => answer == Ok::<B, String>(body),
            Reply::Unreachable { error } => answer is Err && answer->Err_0@ == "request to "@ + url@
                + " failed: "@ + error@,
            Reply::Refused { status, body } => answer is Err && answer->Err_0@ == url@
                + " responded "@ + status@ + ": "@ + body@,
            Reply::Unreadable { error } => answer is Err && answer->Err_0@ == "failed to parse "@
                + url@ + " response: "@ + error@,
        },
{
    match reply {
        Reply::Answer(body) => Ok(body),
        Reply::Unreachable { error } => {
            let mut message = String::from_str("request to ");
            message.append(url);
            message.append(" failed: ");
            message.append(error.as_str());
            Err(message)
        },
        Reply::Refused { status, body } => {
            let mut message = String::from_str(url);
            message.append(" responded ");
            message.append(status.as_str());
            message.append(": ");
            message.append(body.as_str());
            Err(message)
        },
        Reply::Unreadable { error } => {
            let mut message = String::from_str("failed to parse ");
            message.append(url);
            message.append(" response: ");
            message.append(error.as_str());
            Err(message)
        },
    }
}

/// The URL of an endpoint is the node's address between the scheme and the path, and the endpoint's
/// name at the end.
pub proof fn law_url_holds_address_and_endpoint(addr: Seq<char>, endpoint: Seq<char>)
    ensures
        ({
            let url = endpoint_url(addr, endpoint);
            let at: int = 7 + addr.len() as int;
            &&& url.len() == at + 5 + endpoint.len()
            &&& url.take(7) == "http://"@
            &&& url.subrange(7, at) == addr
            &&& url.subrange(at, at + 5) == "/api/"@
            &&& url.skip(at + 5) == endpoint
        }),
{
    reveal_strlit("http://");
    reveal_strlit("/api/");
    let url = endpoint_url(addr, endpoint);
    let at: int = 7 + addr.len() as int;
    assert(url.take(7) =~= "http://"@);
    assert(url.subrange(7, at) =~= addr);
    assert(url.subrange(at, at + 5) =~= "/api/"@);
    assert(url.skip(at + 5) =~= endpoint);
}

/// A request begins at the node that it was made for, with nothing attempted.
pub proof fn law_request_begins_where_it_was_made_for<B>(
    addr: Seq<char>,
    endpoint: Seq<char>,
    body: B,
    timeout_ms: u64,
)
    ensures
        ({
            let request = AdminRequestView::first(addr, endpoint, body, timeout_ms);
            &&& request.target == addr
            &&& request.endpoint == endpoint
            &&& request.body == body
            &&& request.timeout_ms == timeout_ms
            &&& request.attempts == 0
            &&& request.last_err == "cluster did not answer "@ + endpoint
        }),
{
}

/// An attempt moves a request on by what it was answered with: a leader that is named is asked
/// next, whatever its address; in every other case the same node is. What is asked never changes.
/// What is remembered of it is the failure, who redirected to whom, or who knew of no leader.
pub proof fn law_request_asks_the_leader_named_next<B, R>(
    request: AdminRequestView<B>,
    answer: Result<Redirect<R>, String>,
)
    requires
        request.attempts < ADMIN_ATTEMPTS,
    ensures
        ({
            let next = request.after(answer);
            &&& next.attempts == request.attempts + 1
            &&& next.endpoint == request.endpoint
            &&& next.body == request.body
            &&& next.timeout_ms == request.timeout_ms
            &&& match answer {
                Ok(Err(Some(leader))) => next.target == leader@ && next.last_err == request.target
                    + " redirected to "@ + leader@,
                Ok(Err(None)) => next.target == request.target && next.last_err == request.target
                    + " knows of no leader"@,
                Ok(Ok(_)) => next.target == request.target && next.last_err == request.last_err,
                Err(e) => next.target == request.target && next.last_err == e@,
            }
        }),
{
}

/// A request that is given up says which one, after how many attempts, and ends in why the last of
/// them did not do.
pub proof fn law_given_up_request_says_why<B>(request: AdminRequestView<B>)
    ensures
        ({
            let said = " gave up after 20 attempts: "@;
            let message = request.gave_up();
            let at = request.endpoint.len();
            &&& message.len() == at + said.len() + request.last_err.len()
            &&& message.take(at as int) == request.endpoint
            &&& message.subrange(at as int, (at + said.len()) as int) == said
            &&& message.skip((at + said.len()) as int) == request.last_err
        }),
{
    reveal_strlit(" gave up after 20 attempts: ");
    reveal_strlit(" gave up after ");
    reveal_strlit(" attempts: ");
    law_decimal_ends_in_the_last_digit(2, 0);
    law_decimal_ends_in_the_last_digit(0, 2);
    assert(decimal(20) =~= seq!['2', '0']);
    let said = " gave up after 20 attempts: "@;
    let message = request.gave_up();
    let at = request.endpoint.len();
    assert(said =~= " gave up after "@ + decimal(20) + " attempts: "@);
    assert(message =~= request.endpoint + said + request.last_err);
    assert(message.take(at as int) =~= request.endpoint);
    assert(message.subrange(at as int, (at + said.len()) as int) =~= said);
    assert(message.skip((at + said.len()) as int) =~= request.last_err);
}

/// A request is kept up for ten seconds of pauses, and a change of role is given far longer for one
/// attempt than anything else.
pub proof fn law_requests_are_kept_up()
    ensures
        ADMIN_ATTEMPTS == 20,
        ADMIN_ATTEMPTS * ADMIN_RETRY_INTERVAL_MS == 10_000,
        ADMIN_TIMEOUT_MS == 5_000,
        MEMBERSHIP_CHANGE_TIMEOUT_MS == 90_000,
{
}

/// A change of membership is posted as it was asked for to the membership endpoint of the node
/// asked, and once that node names a leader, to the same endpoint of that leader.
pub proof fn law_change_is_posted_to_the_leader_named<R>(
    client: &AdminClient,
    change: MembershipChange,
    begun: AdminRequest<MembershipChange>,
    first: AdminStep<'_, MembershipChange>,
    request: &mut AdminRequest<MembershipChange>,
    leader: String,
    progress: AdminProgress<R>,
    next: AdminStep<'_, MembershipChange>,
)
    requires
        call_ensures(AdminClient::membership, (client, change), begun),
        call_ensures(AdminRequest::<MembershipChange>::next, (&begun,), first),
        *request == begun,
        call_ensures(
            AdminRequest::<MembershipChange>::answered::<R>,
            (request, Ok::<Redirect<R>, String>(Err(Some(leader)))),
            progress,
        ),
        call_ensures(AdminRequest::<MembershipChange>::next, (final(request),), next),
    ensures
        first matches AdminStep::Post { url, body } && *body == change && url@ == "http://"@
            + client.addr() + "/api/membership"@,
        progress == (AdminProgress::<R>::Again { pause: false }),
        next matches AdminStep::Post { url, body } && *body == change && url@ == "http://"@
            + leader@ + "/api/membership"@,
        change is SetRole ==> begun@.timeout_ms == 90_000,
        !(change is SetRole) ==> begun@.timeout_ms == 5_000,
{
    reveal_strlit("/api/membership");
    reveal_strlit("/api/");
    reveal_strlit("membership");
    assert("/api/membership"@ =~= "/api/"@ + "membership"@);
    assert("http://"@ + client.addr() + "/api/membership"@ =~= endpoint_url(
        client.addr(),
        "membership"@,
    ));
    assert("http://"@ + leader@ + "/api/membership"@ =~= endpoint_url(leader@, "membership"@));
}

/// What a request is answered with is what it comes to, at the first attempt or a later one, and
/// nothing else ends it.
pub proof fn law_answered_request_is_done<B, R>(
    request: &mut AdminRequest<B>,
    answer: Result<Redirect<R>, String>,
    progress: AdminProgress<R>,
)
    requires
        request@.attempts < 20,
        call_ensures(AdminRequest::<B>::answered::<R>, (request, answer), progress),
    ensures
        answer matches Ok(Ok(resp)) ==> progress == AdminProgress::Done(resp),
        progress is Done <==> answer matches Ok(Ok(_)),
        final(request)@.body == old(request)@.body,
        final(request)@.endpoint == old(request)@.endpoint,
        final(request)@.attempts == old(request)@.attempts + 1,
        !(answer matches Ok(Err(Some(_)))) ==> final(request)@.target == old(request)@.target,
{
}

/// What an endpoint answered is what it is read for, and any other reply is a failure.
pub proof fn law_reply_is_read_for_its_answer<B>(
    url: &str,
    reply: Reply<B>,
    read: Result<B, String>,
    status: u16,
    success: bool,
)
    requires
        call_ensures(answer::<B>, (url, reply), read),
        call_ensures(is_success, (status,), success),
    ensures
        reply matches Reply::Answer(body) ==> read == Ok::<B, String>(body),
        read is Ok <==> reply is Answer,
        success <==> status / 100 == 2,
{
}

} // verus!

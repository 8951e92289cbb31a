//! One request, from its door to the endpoint that answers it.

use crate::serve::reply::Reply;
use crate::serve::request::{access, gate, is_authorized, preset, refusal, Access, Headers, RadarSite};
use crate::serve::route::{
    counter_of, count, endpoint_of, label_of, route, route_label, Endpoint, Requests,
};
use vstd::prelude::*;

verus! {

/// What decides who is answered what.
#[derive(Debug)]
pub struct Policy {
    /// Bearer token every request must carry, or empty for the open behaviour.
    pub token: String,
    /// Whether unauthenticated callers may have the preset frames. Off by default: a server with a
    /// token answers nothing without it.
    pub public: bool,
    /// Whether there is a directory of static files to serve.
    pub web_root: bool,
    /// The radars that are known.
    pub sites: Vec<RadarSite>,
}

/// What becomes of a request.
#[derive(Debug)]
pub enum Handled {
    /// It is refused, with this reply.
    Refused(Reply),
    /// This endpoint answers it.
    Serve(Endpoint),
}

/// One more, starting over past the largest number.
pub open spec fn one_more(n: u64) -> u64 {
    if n == u64::MAX {
        0
    } else {
        (n + 1) as u64
    }
}

/// The counters after one request that is counted in place `at`: that one grew by one, and no other
/// moved.
pub open spec fn counted(was: Seq<u64>, is: Seq<u64>, at: int) -> bool {
    0 <= at < 10 && is == was.update(at, one_more(was[at]))
}

impl Policy {
    /// What becomes of a request at the door.
    pub open spec fn access_of(self, path: Seq<char>, query: Seq<char>, bearer: bool) -> Access {
        access(
            is_authorized(self.token@, query, bearer),
            self.public,
            preset(self.sites@, path, query),
        )
    }
}

/// What becomes of a request: at the door it is let in or refused. Either way exactly one counter
/// grows, by one: that of its route, or of what is denied.
pub fn handle(
    policy: &Policy,
    requests: &mut Requests,
    path: &str,
    query: &str,
    headers: &Headers,
) -> (r: Handled)
    ensures
        exists|at: int| #[trigger] counted(old(requests).counts@, final(requests).counts@, at),
        match policy.access_of(path@, query@, headers.bearer) {
            Access::Granted => {
                &&& r == Handled::Serve(endpoint_of(path@, policy.web_root))
                &&& counted(
                    old(requests).counts@,
                    final(requests).counts@,
                    counter_of(label_of(path@)),
                )
            },
            Access::PresetsOnly => {
                &&& r matches Handled::Refused(reply) && reply.is_error(
                    "403 Forbidden"@,
                    "{\"error\":\"presets only\"}"@,
                )
                &&& counted(
                    old(requests).counts@,
                    final(requests).counts@,
                    counter_of("denied"@),
                )
            },
            Access::Unauthorized => {
                &&& r matches Handled::Refused(reply) && reply.is_error(
                    "401 Unauthorized"@,
                    "{\"error\":\"missing or bad bearer token\"}"@,
                )
                &&& counted(
                    old(requests).counts@,
                    final(requests).counts@,
                    counter_of("denied"@),
                )
            },
        },
{
    let ghost was = requests.counts@;
    proof {
        lemma_labels_are_routes(path@);
    }
    let let_in = gate(policy.token.as_str(), policy.public, &policy.sites, path, query, headers);
    match refusal(let_in) {
        Some(reply) => {
            count(requests, "denied");
            assert(requests.counts@ =~= was.update(
                counter_of("denied"@),
                one_more(was[counter_of("denied"@)]),
            ));
            assert(counted(was, requests.counts@, counter_of("denied"@)));
            Handled::Refused(reply)
        },
        None => {
            count(requests, route_label(path));
            let ghost at = counter_of(label_of(path@));
            assert(requests.counts@ =~= was.update(at, one_more(was[at])));
            assert(counted(was, requests.counts@, at));
            Handled::Serve(route(path, policy.web_root))
        },
    }
}

proof fn lemma_labels_are_routes(path: Seq<char>)
    ensures
        0 <= counter_of(label_of(path)) < 10,
        0 <= counter_of("denied"@) < 10,
{
}

/// A private server answers no stranger: where there is a token, a request without it is served
/// nothing unless the server is public.
pub proof fn private_servers_answer_no_stranger(
    policy: Policy,
    path: Seq<char>,
    query: Seq<char>,
    bearer: bool,
)
    requires
        policy.token@.len() > 0,
        !policy.public,
        !is_authorized(policy.token@, query, bearer),
    ensures
        policy.access_of(path, query, bearer) == Access::Unauthorized,
{
}

/// One request counts once: its own counter grows by one, starting over past the largest number,
/// and no other moves.
pub proof fn one_request_counts_once(was: Seq<u64>, is: Seq<u64>, at: int, i: int)
    requires
        counted(was, is, at),
        was.len() == 10,
        0 <= i < 10,
    ensures
        i != at ==> is[i] == was[i],
        was[at] < u64::MAX ==> is[at] == was[at] + 1,
        was[at] == u64::MAX ==> is[at] == 0,
        is.len() == 10,
{
}

} // verus!

use vstd::prelude::*;

use crate::rest::{endpoint_url, rest_route_path, route_url, RestRoute};

verus! {

/// The partner's requests to the company, in the order the protocol makes
/// them.
#[derive(PartialEq, Eq, Structural, Clone, Copy, Debug)]
pub enum Step {
    /// Send the partner's homomorphic-encryption public key.
    KeyExchange,
    /// Fetch the company's encrypted keys.
    RecvCompanyKeys,
    /// Upload the company's keys, encrypted again and permuted.
    SendCompanyKeys,
    /// Upload the partner's permuted and encrypted keys.
    SendPartnerKeys,
    /// Upload the feature column with this index.
    SendFeature(usize),
    /// Fetch the encrypted sums of the features.
    RecvStats,
    /// Nothing more to ask; the sums are decrypted locally.
    Done,
}

/// A step that can occur in a session over `n` feature columns.
pub open spec fn step_valid(step: Step, n: nat) -> bool {
    match step {
        Step::SendFeature(i) => i < n,
        _ => true,
    }
}

/// The step that follows `step` in a session over `n` feature columns.
pub open spec fn next_step(step: Step, n: nat) -> Step {
    match step {
        Step::KeyExchange => Step::RecvCompanyKeys,
        Step::RecvCompanyKeys => Step::SendCompanyKeys,
        Step::SendCompanyKeys => Step::SendPartnerKeys,
        Step::SendPartnerKeys => if n > 0 { Step::SendFeature(0) } else { Step::RecvStats },
        Step::SendFeature(i) => if i + 1 < n { Step::SendFeature((i + 1) as usize) } else { Step::RecvStats },
        Step::RecvStats => Step::Done,
        Step::Done => Step::Done,
    }
}

/// The step reached after `k` moves from the start of a session over `n`
/// feature columns.
pub open spec fn run(k: nat, n: nat) -> Step
    decreases k,
{
    if k == 0 {
        Step::KeyExchange
    } else {
        next_step(run((k - 1) as nat, n), n)
    }
}

/// The `k`-th request of a session over `n` feature columns, written out:
/// the four opening requests, the feature columns `0 .. n` in order, the
/// sums, then nothing more.
pub open spec fn step_at(k: nat, n: nat) -> Step {
    if k == 0 {
        Step::KeyExchange
    } else if k == 1 {
        Step::RecvCompanyKeys
    } else if k == 2 {
        Step::SendCompanyKeys
    } else if k == 3 {
        Step::SendPartnerKeys
    } else if k < 4 + n {
        Step::SendFeature((k - 4) as usize)
    } else if k == 4 + n {
        Step::RecvStats
    } else {
        Step::Done
    }
}

/// The first request of a session.
pub fn first_step() -> (step: Step)
    ensures
        step == run(0, 0),
        step == Step::KeyExchange,
{
    Step::KeyExchange
}

/// The request that follows `step` in a session over `num_features`
/// feature columns.
pub fn advance(step: Step, num_features: usize) -> (next: Step)
    requires
        step_valid(step, num_features as nat),
    ensures
        next == next_step(step, num_features as nat),
        step_valid(next, num_features as nat),
{
    match step {
        Step::KeyExchange => Step::RecvCompanyKeys,
        Step::RecvCompanyKeys => Step::SendCompanyKeys,
        Step::SendCompanyKeys => Step::SendPartnerKeys,
        Step::SendPartnerKeys => if num_features > 0 {
            Step::SendFeature(0)
        } else {
            Step::RecvStats
        },
        Step::SendFeature(i) => if i + 1 < num_features {
            Step::SendFeature(i + 1)
        } else {
            Step::RecvStats
        },
        Step::RecvStats => Step::Done,
        Step::Done => Step::Done,
    }
}

/// The upload route of a step, for the steps that upload buffers.
pub open spec fn step_route(step: Step) -> Option<RestRoute> {
    match step {
        Step::SendCompanyKeys => Some(RestRoute::ECompanyKeys),
        Step::SendPartnerKeys => Some(RestRoute::UPartnerKeys),
        Step::SendFeature(_) => Some(RestRoute::UPartnerFeature),
        _ => None,
    }
}

/// The path on the server that a step posts to; `Done` posts nothing.
pub open spec fn step_path(step: Step) -> Option<Seq<char>> {
    match step {
        Step::KeyExchange => Some("/v1/key_exchange"@),
        Step::RecvCompanyKeys => Some("/v1/recv_u_company_keys"@),
        Step::RecvStats => Some("/v1/recv_stats"@),
        Step::Done => None,
        _ => Some(rest_route_path(step_route(step).unwrap())),
    }
}

/// The address that a step posts to on the server `host_pre`; `None` for
/// `Done`.
pub fn step_url(step: Step, host_pre: &String) -> (url: Option<String>)
    ensures
        url is Some <==> step_path(step) is Some,
        url matches Some(u) ==> u@ == host_pre@ + step_path(step).unwrap(),
{
    match step {
        Step::KeyExchange => Some(endpoint_url(host_pre, "/v1/key_exchange")),
        Step::RecvCompanyKeys => Some(endpoint_url(host_pre, "/v1/recv_u_company_keys")),
        Step::SendCompanyKeys => Some(route_url(RestRoute::ECompanyKeys, host_pre)),
        Step::SendPartnerKeys => Some(route_url(RestRoute::UPartnerKeys, host_pre)),
        Step::SendFeature(_) => Some(route_url(RestRoute::UPartnerFeature, host_pre)),
        Step::RecvStats => Some(endpoint_url(host_pre, "/v1/recv_stats")),
        Step::Done => None,
    }
}

/// Law: moving step by step from the start of a session over `n` feature
/// columns makes the requests in the protocol's order: key exchange, the
/// company's keys, the two key uploads, every feature column from `0` to
/// `n - 1`, the sums, and then nothing more.
pub proof fn lemma_session_order(k: nat, n: nat)
    requires
        n <= usize::MAX,
    ensures
        run(k, n) == step_at(k, n),
    decreases k,
{
    if k > 0 {
        lemma_session_order((k - 1) as nat, n);
    }
}

/// Law: in a session over `n` feature columns every column `i < n` is
/// uploaded, and only once: the session reaches `SendFeature(i)` at move
/// `4 + i` and at no other move; no other index is ever uploaded.
pub proof fn lemma_each_feature_sent_once(n: nat, i: usize, k: nat)
    requires
        n <= usize::MAX,
    ensures
        (i as nat) < n ==> run(4 + i as nat, n) == Step::SendFeature(i),
        run(k, n) == Step::SendFeature(i) ==> (i as nat) < n && k == 4 + i as nat,
{
    lemma_session_order(4 + i as nat, n);
    lemma_session_order(k, n);
}

/// Law: a session over `n` feature columns is over after `n + 5` moves and
/// stays over; the sums are asked for once, at move `n + 4`, after every
/// feature column.
pub proof fn lemma_session_ends(n: nat, k: nat)
    requires
        n <= usize::MAX,
    ensures
        run(n + 4, n) == Step::RecvStats,
        k >= n + 5 ==> run(k, n) == Step::Done,
        run(k, n) == Step::RecvStats ==> k == n + 4,
{
    lemma_session_order(n + 4, n);
    lemma_session_order(k, n);
}


/// Law: every request goes to `/v1/` on the company's address: the key
/// exchange to `key_exchange`, the two downloads to `recv_u_company_keys`
/// and `recv_stats`, and each upload to the route of its data name
/// (`send_` and the name); a finished session makes no request.
pub proof fn lemma_step_paths(i: usize)
    ensures
        step_path(Step::KeyExchange) == Some("/v1/"@ + "key_exchange"@),
        step_path(Step::RecvCompanyKeys) == Some("/v1/"@ + "recv_u_company_keys"@),
        step_path(Step::SendCompanyKeys) == Some("/v1/"@ + "send_"@ + "e_company_keys"@),
        step_path(Step::SendPartnerKeys) == Some("/v1/"@ + "send_"@ + "u_partner_keys"@),
        step_path(Step::SendFeature(i)) == Some("/v1/"@ + "send_"@ + "u_partner_feature"@),
        step_path(Step::RecvStats) == Some("/v1/"@ + "recv_stats"@),
        step_path(Step::Done) is None,
{
    reveal_strlit("/v1/");
    reveal_strlit("send_");
    reveal_strlit("key_exchange");
    reveal_strlit("recv_u_company_keys");
    reveal_strlit("recv_stats");
    reveal_strlit("e_company_keys");
    reveal_strlit("u_partner_keys");
    reveal_strlit("u_partner_feature");
    reveal_strlit("/v1/key_exchange");
    reveal_strlit("/v1/recv_u_company_keys");
    reveal_strlit("/v1/recv_stats");
    reveal_strlit("/v1/send_e_company_keys");
    reveal_strlit("/v1/send_u_partner_keys");
    reveal_strlit("/v1/send_u_partner_feature");
    assert(step_path(Step::KeyExchange).unwrap() =~= "/v1/"@ + "key_exchange"@);
    assert(step_path(Step::RecvCompanyKeys).unwrap() =~= "/v1/"@ + "recv_u_company_keys"@);
    assert(step_path(Step::SendCompanyKeys).unwrap() =~= "/v1/"@ + "send_"@ + "e_company_keys"@);
    assert(step_path(Step::SendPartnerKeys).unwrap() =~= "/v1/"@ + "send_"@ + "u_partner_keys"@);
    assert(step_path(Step::SendFeature(i)).unwrap() =~= "/v1/"@ + "send_"@ + "u_partner_feature"@);
    assert(step_path(Step::RecvStats).unwrap() =~= "/v1/"@ + "recv_stats"@);
}

} // verus!

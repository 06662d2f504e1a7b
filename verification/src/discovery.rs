//! Finding a running LM Studio: the addresses that are tried, in order, and
//! the choice among those that answered.
use vstd::prelude::*;
use crate::error::{LMStudioError, Result};
use crate::logger::Logger;
use crate::text::{digits, push_digits};
use crate::{LM_STUDIO_API_HOSTS, LM_STUDIO_API_PORTS};

verus! {

/// An HTTP client (`reqwest::Client`), carried as it came.
#[verifier::external_type_specification]
#[verifier::external_body]
pub struct ExHttpClient(reqwest::Client);

/// The API address of a host and port: "http://<host>:<port>".
pub open spec fn api_host_text(host: Seq<char>, port: u16) -> Seq<char> {
    "http://"@ + host + ":"@ + digits(port as nat)
}

/// The addresses discovery tries, in order: every port of the first host,
/// then every port of the second.
pub open spec fn candidate_texts() -> Seq<Seq<char>> {
    seq![
        api_host_text(LM_STUDIO_API_HOSTS@[0]@, LM_STUDIO_API_PORTS@[0]),
        api_host_text(LM_STUDIO_API_HOSTS@[0]@, LM_STUDIO_API_PORTS@[1]),
        api_host_text(LM_STUDIO_API_HOSTS@[1]@, LM_STUDIO_API_PORTS@[0]),
        api_host_text(LM_STUDIO_API_HOSTS@[1]@, LM_STUDIO_API_PORTS@[1]),
    ]
}

/// The API address of a host and port.
pub fn api_host(host: &str, port: u16) -> (s: String)
    ensures
        s@ == api_host_text(host@, port),
{
    let mut s = "http://".to_owned();
    s.append(host);
    s.append(":");
    push_digits(&mut s, port as u128);
    s
}

/// The health-check address of an API address: "<api_host>/health".
pub fn health_url(api_host: &str) -> (s: String)
    ensures
        s@ == api_host@ + "/health"@,
{
    let mut s = api_host.to_owned();
    s.append("/health");
    s
}

/// The candidates that answered, in their order: those whose entry in `up`
/// is `true`.
pub open spec fn responding(candidates: Seq<Seq<char>>, up: Seq<bool>) -> Seq<Seq<char>>
    decreases candidates.len(),
{
    if candidates.len() == 0 {
        Seq::empty()
    } else {
        let rest = responding(candidates.drop_last(), up.take(candidates.len() - 1));
        if up[candidates.len() - 1] {
            rest.push(candidates.last())
        } else {
            rest
        }
    }
}

/// The number of `true` entries.
pub open spec fn count_true(up: Seq<bool>) -> nat
    decreases up.len(),
{
    if up.len() == 0 {
        0
    } else {
        count_true(up.drop_last()) + if up.last() {
            1nat
        } else {
            0nat
        }
    }
}

/// `x` is a candidate whose health check answered.
pub open spec fn answered(candidates: Seq<Seq<char>>, up: Seq<bool>, x: Seq<char>) -> bool {
    exists|i: int| 0 <= i < candidates.len() && up[i] && candidates[i] == x
}

/// A candidate is discovered exactly when its own health check answered:
/// every candidate whose check answered is kept, whatever the others gave;
/// everything kept is a candidate whose check answered; and there is one
/// entry per answering candidate.
pub proof fn lemma_discovered_are_the_answering(candidates: Seq<Seq<char>>, up: Seq<bool>)
    requires
        candidates.len() == up.len(),
    ensures
        forall|i: int|
            #![trigger candidates[i]]
            0 <= i < candidates.len() && up[i] ==> responding(candidates, up).contains(candidates[i]),
        forall|k: int|
            0 <= k < responding(candidates, up).len() ==> answered(
                candidates,
                up,
                #[trigger] responding(candidates, up)[k],
            ),
        responding(candidates, up).len() == count_true(up),
    decreases candidates.len(),
{
    if candidates.len() > 0 {
        let n = candidates.len() - 1;
        let c2 = candidates.drop_last();
        let u2 = up.take(n);
        assert(u2 =~= up.drop_last());
        lemma_discovered_are_the_answering(c2, u2);
        let r = responding(c2, u2);
        let v = responding(candidates, up);
        assert(v == if up[n] { r.push(candidates.last()) } else { r });
        assert(up.last() == up[n]);
        assert(count_true(up) == count_true(u2) + if up[n] { 1nat } else { 0nat });
        assert forall|i: int|
            #![trigger candidates[i]]
            0 <= i < candidates.len() && up[i] implies v.contains(candidates[i]) by {
            if i < n {
                assert(c2[i] == candidates[i]);
                assert(u2[i] == up[i]);
                let k = choose|k: int| 0 <= k < r.len() && r[k] == c2[i];
                assert(v[k] == r[k]);
            } else {
                assert(v[v.len() - 1] == candidates[i]);
            }
        }
        assert forall|k: int| 0 <= k < v.len() implies answered(candidates, up, #[trigger] v[k]) by {
            if k < r.len() {
                assert(v[k] == r[k]);
                assert(answered(c2, u2, r[k]));
                let i = choose|i: int| 0 <= i < c2.len() && u2[i] && c2[i] == r[k];
                assert(c2[i] == candidates[i]);
                assert(u2[i] == up[i]);
            } else {
                assert(up[n]);
                assert(v == r.push(candidates.last()));
                assert(candidates[n] == v[k]);
            }
        }
    } else {
        assert(responding(candidates, up) =~= Seq::<Seq<char>>::empty());
    }
}

/// The discovered addresses follow the candidates in order: none for no
/// candidates, and one more candidate is added at the end exactly when its
/// own check answered.
pub proof fn lemma_discovered_follow_candidate_order(
    candidates: Seq<Seq<char>>,
    up: Seq<bool>,
    c: Seq<char>,
    answered_now: bool,
)
    requires
        candidates.len() == up.len(),
    ensures
        responding(Seq::<Seq<char>>::empty(), Seq::<bool>::empty()) == Seq::<Seq<char>>::empty(),
        responding(candidates.push(c), up.push(answered_now)) == if answered_now {
            responding(candidates, up).push(c)
        } else {
            responding(candidates, up)
        },
{
    assert(candidates.push(c).drop_last() =~= candidates);
    assert(up.push(answered_now).take(candidates.len() as int) =~= up);
}

/// Keeps the candidate addresses whose health check answered, in order.
pub fn responding_hosts(candidates: Vec<String>, up: Vec<bool>) -> (v: Vec<String>)
    requires
        candidates@.len() == up@.len(),
    ensures
        v@.len() == responding(candidates@.map_values(|c: String| c@), up@).len(),
        forall|i: int|
            0 <= i < v@.len() ==> #[trigger] v@[i]@ == responding(
                candidates@.map_values(|c: String| c@),
                up@,
            )[i],
{
    let ghost views = candidates@.map_values(|c: String| c@);
    let mut v: Vec<String> = Vec::new();
    let mut i: usize = 0;
    while i < candidates.len()
        invariant
            i <= candidates@.len(),
            candidates@.len() == up@.len(),
            views == candidates@.map_values(|c: String| c@),
            v@.len() == responding(views.take(i as int), up@.take(i as int)).len(),
            forall|k: int|
                0 <= k < v@.len() ==> #[trigger] v@[k]@ == responding(
                    views.take(i as int),
                    up@.take(i as int),
                )[k],
        decreases candidates@.len() - i,
    {
        proof {
            assert(views.take(i + 1).drop_last() =~= views.take(i as int));
            assert(up@.take(i + 1).take(i as int) =~= up@.take(i as int));
            assert(views.take(i + 1).last() == candidates@[i as int]@);
            assert(up@.take(i + 1)[i as int] == up@[i as int]);
        }
        if up[i] {
            v.push(candidates[i].clone());
        }
        i = i + 1;
    }
    assert(views.take(i as int) =~= views);
    assert(up@.take(i as int) =~= up@);
    v
}

/// How long a health check may take, in seconds.
pub const HEALTH_CHECK_TIMEOUT_SECS: u64 = 5;

/// `reqwest::Client::builder().timeout(..).build()` with a timeout of
/// `timeout_secs` seconds. Nothing is claimed of the client or of the error.
#[verifier::external_body]
fn build_http_client(timeout_secs: u64) -> core::result::Result<reqwest::Client, reqwest::Error> {
    reqwest::Client::builder().timeout(std::time::Duration::from_secs(timeout_secs)).build()
}

/// `reqwest::Client::default()`, a client with reqwest's default settings.
/// Nothing is claimed of the client.
#[verifier::external_body]
fn default_http_client() -> reqwest::Client {
    reqwest::Client::default()
}

/// Service discovery: a logger and the HTTP client used for health checks.
pub struct Discovery {
    logger: Logger,
    client: reqwest::Client,
}

impl Discovery {
    /// A discovery whose health checks time out after
    /// [`HEALTH_CHECK_TIMEOUT_SECS`] seconds, or, when such a client cannot be
    /// built, use a client with default settings.
    pub fn new(logger: Logger) -> (d: Discovery)
        ensures
            d.logger() == logger,
    {
        let client = match build_http_client(HEALTH_CHECK_TIMEOUT_SECS) {
            Ok(c) => c,
            Err(_) => default_http_client(),
        };
        Discovery { logger, client }
    }

    pub closed spec fn logger(&self) -> Logger {
        self.logger
    }

    /// The logger.
    pub fn logger_ref(&self) -> (l: &Logger)
        ensures
            *l == self.logger(),
    {
        &self.logger
    }

    /// The HTTP client that the health checks go through.
    pub closed spec fn http_client(&self) -> reqwest::Client {
        self.client
    }

    /// The HTTP client for health checks: the one the discovery holds.
    pub fn client(&self) -> (c: &reqwest::Client)
        ensures
            *c == self.http_client(),
    {
        &self.client
    }

    /// The address used when none is found: the first host on the first port.
    pub fn default_api_host() -> (s: String)
        ensures
            s@ == api_host_text(LM_STUDIO_API_HOSTS@[0]@, LM_STUDIO_API_PORTS@[0]),
    {
        api_host(LM_STUDIO_API_HOSTS[0], LM_STUDIO_API_PORTS[0])
    }

    /// The addresses to try, in order (see [`candidate_texts`]).
    pub fn candidate_api_hosts() -> (v: Vec<String>)
        ensures
            v@.len() == 4,
            forall|i: int| 0 <= i < 4 ==> #[trigger] v@[i]@ == candidate_texts()[i],
    {
        let mut v: Vec<String> = Vec::new();
        let mut h: usize = 0;
        while h < 2
            invariant
                h <= 2,
                v@.len() == 2 * h,
                forall|i: int| 0 <= i < v@.len() ==> #[trigger] v@[i]@ == candidate_texts()[i],
            decreases 2 - h,
        {
            let mut p: usize = 0;
            while p < 2
                invariant
                    h < 2,
                    p <= 2,
                    v@.len() == 2 * h + p,
                    forall|i: int| 0 <= i < v@.len() ==> #[trigger] v@[i]@ == candidate_texts()[i],
                decreases 2 - p,
            {
                let a = api_host(LM_STUDIO_API_HOSTS[h], LM_STUDIO_API_PORTS[p]);
                v.push(a);
                p = p + 1;
            }
            h = h + 1;
        }
        v
    }

    /// The first address that answered, or a service-unavailable error when
    /// none did.
    pub fn first_available(instances: Vec<String>) -> (r: Result<String>)
        ensures
            instances@.len() > 0 ==> (r matches Ok(s) && s == instances@[0]),
            instances@.len() == 0 ==> (r matches Err(LMStudioError::ServiceUnavailable(m)) && m@
                == "No running LM Studio instances found"@),
    {
        if instances.len() == 0 {
            return Err(LMStudioError::service_unavailable("No running LM Studio instances found"));
        }
        let mut instances = instances;
        Ok(instances.swap_remove(0))
    }
}

} // verus!

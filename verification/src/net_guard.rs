//! The request-guarding core: a client whose `get` path forces fresh name
//! resolution, validates every resolved address against the internal deny
//! set, and pins the validated address into the outgoing request so that no
//! second resolution can redirect it.
//!
//! Name resolution and the actual send are suspension points performed by
//! the caller; this module holds every decision between them: the allowlist
//! short-circuit, the fail-closed validation of the resolved address set,
//! and the rewriting of the request target.

use vstd::prelude::*;

use crate::addr::{IpAddress, is_internal, addr_text, classify_address, format_address};

verus! {

/// Why a guarded call was refused before any byte went to the target.
#[derive(Clone, Copy, PartialEq, Eq, Structural, Debug)]
pub enum GuardError {
    /// The URL could not be parsed, has no host, or could not be rewritten.
    MalformedInput,
    /// Name resolution returned no addresses.
    ResolutionFailure,
    /// A resolved address fell in the internal deny set; it is carried for
    /// diagnostics.
    InternalAddressDenied(IpAddress),
}

/// What the resolution gate decided before resolving: either the hostname is
/// allowlisted and the URL is used verbatim, or it must be freshly
/// resolved.
#[derive(Debug)]
pub enum RequestPlan {
    /// Allowlisted: send to this URL as parsed, no rewriting, no original
    /// host carried.
    Trusted(String),
    /// Resolve this hostname, then validate and pin with `pin_request`.
    MustResolve(String),
}

/// The rewritten network target: the URL whose host is the pinned, already
/// validated address, plus the original hostname to be sent as the
/// virtual-host identifier.
#[derive(Debug)]
pub struct GuardedRequest {
    pub url: String,
    pub original_host: Option<String>,
}

/// What `url::Url::parse` followed by `Url::as_str` yields: the normalized
/// text of the URL, or nothing when the text does not parse.
pub uninterp spec fn url_norm_of(text: Seq<char>) -> Option<Seq<char>>;

/// What `url::Url::parse` followed by `Url::host_str` yields: the host
/// component, or nothing when the text does not parse or has no host.
pub uninterp spec fn host_of(text: Seq<char>) -> Option<Seq<char>>;

/// What parsing a URL, replacing its host and re-serializing yields, or
/// nothing when parsing or the replacement fails.
pub uninterp spec fn rehost_of(text: Seq<char>, host: Seq<char>) -> Option<Seq<char>>;

/// Relies on `url::Url::parse`, `Url::as_str` and `Url::host_str`: parsing
/// is a pure function of the text; `as_str` returns the normalized URL and
/// `host_str` its host component, absent when the URL has none.
#[verifier::external_body]
fn parse_url(text: &str) -> (r: Option<(String, Option<String>)>)
    ensures
        r is Some <==> url_norm_of(text@) is Some,
        r matches Some(p) ==> p.0@ == url_norm_of(text@).unwrap(),
        r matches Some(p) ==> (p.1 is Some <==> host_of(text@) is Some),
        r matches Some(p) ==> (p.1 matches Some(h) ==> h@ == host_of(text@).unwrap()),
{
    match url::Url::parse(text) {
        Ok(u) => {
            let host = u.host_str().map(|h| h.to_string());
            Some((u.as_str().to_string(), host))
        },
        Err(_) => None,
    }
}

/// Relies on `url::Url::parse`, `Url::set_host` and `Url::as_str`: the
/// result is a pure function of the URL text and the new host, absent when
/// parsing or the host substitution fails.
#[verifier::external_body]
fn replace_host(text: &str, host: &str) -> (r: Option<String>)
    ensures
        r is Some <==> rehost_of(text@, host@) is Some,
        r matches Some(u) ==> u@ == rehost_of(text@, host@).unwrap(),
{
    match url::Url::parse(text) {
        Ok(mut u) => match u.set_host(Some(host)) {
            Ok(()) => Some(u.as_str().to_string()),
            Err(_) => None,
        },
        Err(_) => None,
    }
}

/// The validation scan over the resolved addresses, in resolution order:
/// the first internal address denies the whole set; otherwise the first
/// address is selected for pinning.
pub open spec fn scan_addresses(addrs: Seq<IpAddress>, i: int) -> Result<IpAddress, GuardError>
    recommends
        0 <= i <= addrs.len(),
    decreases addrs.len() - i,
{
    if i < 0 || i >= addrs.len() {
        Ok(addrs[0])
    } else if is_internal(addrs[i]) {
        Err(GuardError::InternalAddressDenied(addrs[i]))
    } else {
        scan_addresses(addrs, i + 1)
    }
}

/// What the resolution gate returns for a resolved address set: failure on
/// an empty set, denial on the first internal address, else the first
/// address.
pub open spec fn select_spec(addrs: Seq<IpAddress>) -> Result<IpAddress, GuardError> {
    if addrs.len() == 0 {
        Err(GuardError::ResolutionFailure)
    } else {
        scan_addresses(addrs, 0)
    }
}

/// Validate every resolved address and select the one to pin: the exact
/// behaviour of the resolution gate after a fresh resolution.
pub fn select_address(addrs: &Vec<IpAddress>) -> (r: Result<IpAddress, GuardError>)
    ensures
        r == select_spec(addrs@),
{
    if addrs.len() == 0 {
        return Err(GuardError::ResolutionFailure);
    }
    let mut i: usize = 0;
    while i < addrs.len()
        invariant
            0 <= i <= addrs@.len(),
            addrs@.len() > 0,
            scan_addresses(addrs@, 0) == scan_addresses(addrs@, i as int),
            forall|j: int| 0 <= j < i ==> !is_internal(addrs@[j]),
        decreases addrs@.len() - i,
    {
        let ip = addrs[i];
        if classify_address(&ip) {
            return Err(GuardError::InternalAddressDenied(ip));
        }
        i = i + 1;
    }
    Ok(addrs[0])
}

/// Fail-closed law: if any resolved address is internal, the resolution gate denies
/// the whole set with an `InternalAddressDenied` that carries an internal
/// address; no partial trust is granted.
pub proof fn lemma_fail_closed(addrs: Seq<IpAddress>)
    requires
        exists|i: int| 0 <= i < addrs.len() && is_internal(addrs[i]),
    ensures
        select_spec(addrs) matches Err(GuardError::InternalAddressDenied(a)) && is_internal(a),
{
    lemma_scan_denied(addrs, 0);
}

proof fn lemma_scan_denied(addrs: Seq<IpAddress>, j: int)
    requires
        0 <= j <= addrs.len(),
        exists|i: int| j <= i < addrs.len() && is_internal(addrs[i]),
    ensures
        scan_addresses(addrs, j) matches Err(GuardError::InternalAddressDenied(a))
            && is_internal(a),
    decreases addrs.len() - j,
{
    if !is_internal(addrs[j]) {
        let i0 = choose|i: int| j <= i < addrs.len() && is_internal(addrs[i]);
        assert(j + 1 <= i0 < addrs.len() && is_internal(addrs[i0]));
        lemma_scan_denied(addrs, j + 1);
    }
}

/// First-address pinning law: when the resolution is non-empty and every
/// address is routable, the resolution gate selects exactly the first address in
/// resolution order.
pub proof fn lemma_routable_pins_first(addrs: Seq<IpAddress>)
    requires
        addrs.len() > 0,
        forall|i: int| 0 <= i < addrs.len() ==> !is_internal(addrs[i]),
    ensures
        select_spec(addrs) == Ok::<IpAddress, GuardError>(addrs[0]),
{
    lemma_scan_clean(addrs, 0);
}

proof fn lemma_scan_clean(addrs: Seq<IpAddress>, j: int)
    requires
        0 <= j <= addrs.len(),
        addrs.len() > 0,
        forall|i: int| 0 <= i < addrs.len() ==> !is_internal(addrs[i]),
    ensures
        scan_addresses(addrs, j) == Ok::<IpAddress, GuardError>(addrs[0]),
    decreases addrs.len() - j,
{
    if j < addrs.len() {
        lemma_scan_clean(addrs, j + 1);
    }
}

/// Whole-set validation law: when the resolution gate selects an address
/// for pinning, every address of the set passed classification in that
/// same call — in particular the pinned one is never internal.
pub proof fn lemma_selected_is_routable(addrs: Seq<IpAddress>)
    ensures
        select_spec(addrs) matches Ok(a) ==> (a == addrs[0] && forall|i: int|
            0 <= i < addrs.len() ==> !is_internal(addrs[i])),
{
    if addrs.len() > 0 {
        lemma_scan_ok_routable(addrs, 0);
    }
}

proof fn lemma_scan_ok_routable(addrs: Seq<IpAddress>, j: int)
    requires
        0 <= j <= addrs.len(),
    ensures
        scan_addresses(addrs, j) matches Ok(a) ==> (a == addrs[0] && forall|i: int|
            j <= i < addrs.len() ==> !is_internal(addrs[i])),
    decreases addrs.len() - j,
{
    if j < addrs.len() {
        lemma_scan_ok_routable(addrs, j + 1);
    }
}

/// A client whose outgoing requests pass the resolution gate; immutable
/// after construction. The transport that performs the send lives with the
/// caller; this value owns only the policy.
pub struct ShieldClient {
    pub allowlist: Vec<String>,
}

impl ShieldClient {
    /// The hostnames exempt from resolution and validation.
    pub open spec fn allowed(&self) -> Seq<Seq<char>> {
        self.allowlist.deep_view()
    }

    /// Whether a hostname is exempt by exact match.
    pub open spec fn spec_allows(&self, host: Seq<char>) -> bool {
        self.allowed().contains(host)
    }

    /// A builder for a client, starting from an empty allowlist.
    pub fn builder() -> (r: ShieldClientBuilder)
        ensures
            r.allowed() =~= Seq::<Seq<char>>::empty(),
    {
        ShieldClientBuilder { allowlist: Vec::new() }
    }

    /// Classify one address exactly as the resolution gate does: true means
    /// internal and to be rejected.
    pub fn is_private_ip(&self, ip: IpAddress) -> (r: bool)
        ensures
            r == is_internal(ip),
    {
        classify_address(&ip)
    }

    /// Whether this hostname is on the allowlist.
    pub fn allows(&self, host: &String) -> (r: bool)
        ensures
            r == self.spec_allows(host@),
    {
        let mut j: usize = 0;
        while j < self.allowlist.len()
            invariant
                0 <= j <= self.allowlist@.len(),
                forall|k: int| 0 <= k < j ==> self.allowed()[k] != host@,
            decreases self.allowlist@.len() - j,
        {
            let entry: &String = &self.allowlist[j];
            if *entry == *host {
                assert(self.allowed()[j as int] == host@);
                return true;
            }
            j = j + 1;
        }
        assert(forall|k: int| 0 <= k < self.allowed().len() ==> self.allowed()[k] != host@);
        false
    }

    /// The decision taken before any resolution: reject a URL without a
    /// host, use an allowlisted hostname verbatim, and demand a fresh
    /// resolution for every other hostname — on every call, so no earlier
    /// result can be reused.
    pub fn plan_request(&self, url_text: &str) -> (r: Result<RequestPlan, GuardError>)
        ensures
            url_norm_of(url_text@) is None ==> (r matches Err(e) && e
                == GuardError::MalformedInput),
            url_norm_of(url_text@) is Some && host_of(url_text@) is None ==> (r matches Err(e)
                && e == GuardError::MalformedInput),
            url_norm_of(url_text@) is Some ==> (host_of(url_text@) matches Some(h) ==> {
                &&& (self.spec_allows(h) ==> (r matches Ok(RequestPlan::Trusted(u)) && u@
                    == url_norm_of(url_text@)->Some_0))
                &&& (!self.spec_allows(h) ==> (r matches Ok(RequestPlan::MustResolve(g)) && g@
                    == h))
            }),
    {
        match parse_url(url_text) {
            None => Err(GuardError::MalformedInput),
            Some((norm, maybe_host)) => match maybe_host {
                None => Err(GuardError::MalformedInput),
                Some(host) => {
                    if self.allows(&host) {
                        Ok(RequestPlan::Trusted(norm))
                    } else {
                        Ok(RequestPlan::MustResolve(host))
                    }
                },
            },
        }
    }

    /// Validate a fresh resolution of `host` and pin the selected address
    /// into the URL, carrying the original hostname for virtual hosting.
    /// Fails closed exactly as `select_spec` says; the rewrite itself fails
    /// only when the URL text no longer parses or refuses the new host.
    pub fn pin_request(&self, url_text: &str, host: &str, addrs: &Vec<IpAddress>) -> (r: Result<
        GuardedRequest,
        GuardError,
    >)
        ensures
            select_spec(addrs@) matches Err(e) ==> (r matches Err(e2) && e2 == e),
            select_spec(addrs@) matches Ok(a) ==> {
                &&& (rehost_of(url_text@, addr_text(a)) matches Some(u) ==> (r matches Ok(g)
                    && g.url@ == u && g.original_host is Some && (g.original_host->Some_0)@
                    == host@))
                &&& (rehost_of(url_text@, addr_text(a)) is None ==> (r matches Err(e2) && e2
                    == GuardError::MalformedInput))
            },
    {
        match select_address(addrs) {
            Err(e) => Err(e),
            Ok(a) => {
                let literal = format_address(&a);
                match replace_host(url_text, literal.as_str()) {
                    None => Err(GuardError::MalformedInput),
                    Some(u) => Ok(
                        GuardedRequest { url: u, original_host: Some(String::from_str(host)) },
                    ),
                }
            },
        }
    }
}

/// Accumulates allowlist entries and produces an immutable `ShieldClient`.
pub struct ShieldClientBuilder {
    pub allowlist: Vec<String>,
}

impl ShieldClientBuilder {
    /// The hostnames exempted so far.
    pub open spec fn allowed(&self) -> Seq<Seq<char>> {
        self.allowlist.deep_view()
    }

    /// Exempt one hostname, by exact match, from resolution and validation.
    pub fn allow_endpoint(self, host: &str) -> (r: Self)
        ensures
            r.allowed() == self.allowed().push(host@),
    {
        let mut s = self;
        s.allowlist.push(String::from_str(host));
        proof {
            assert(s.allowed() =~= self.allowed().push(host@));
        }
        s
    }

    /// Produce the client. Nothing here can fail: the transport, whose
    /// construction could, lives with the caller.
    pub fn build(self) -> (r: ShieldClient)
        ensures
            r.allowed() == self.allowed(),
    {
        ShieldClient { allowlist: self.allowlist }
    }
}

impl Default for ShieldClientBuilder {
    /// A builder with an empty allowlist.
    fn default() -> (r: Self)
        ensures
            r.allowed() =~= Seq::<Seq<char>>::empty(),
    {
        ShieldClientBuilder { allowlist: Vec::new() }
    }
}

} // verus!

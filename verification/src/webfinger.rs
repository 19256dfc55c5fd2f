//! The WebFinger endpoint's logic: validation of the `resource` query value
//! and construction of the fixed response, plus the health body.

use vstd::prelude::*;
use crate::config::domain_of;
use crate::config::resolve_domain;

verus! {

/// One WebFinger link: a relation identifier and the endpoint URL.
pub struct Link {
    pub rel: String,
    pub href: String,
}

/// The successful response: the echoed resource and five links in fixed order.
pub struct WebFingerResponse {
    pub subject: String,
    pub links: Vec<Link>,
}

/// The two ways a request can fail; both map to an HTTP 400 status.
#[derive(Clone, Copy, Debug, PartialEq, Eq)]
pub enum WebFingerError {
    MissingResource,
    InvalidResourceFormat,
}

/// A syntactically valid resource: it begins with the literal prefix `acct:`.
pub open spec fn is_acct_resource(s: Seq<char>) -> bool {
    s.len() >= 5 && s.subrange(0, 5) == "acct:"@
}

/// Tests whether the resource begins with `acct:`.
pub fn is_acct(resource: &str) -> (b: bool)
    ensures
        b == is_acct_resource(resource@),
{
    let n = resource.unicode_len();
    if n < 5 {
        return false;
    }
    let b = resource.get_char(0) == 'a' && resource.get_char(1) == 'c'
        && resource.get_char(2) == 'c' && resource.get_char(3) == 't'
        && resource.get_char(4) == ':';
    proof {
        reveal_strlit("acct:");
        if b {
            assert(resource@.subrange(0, 5) =~= "acct:"@);
        } else {
            assert(resource@.subrange(0, 5) != "acct:"@) by {
                assert(resource@.subrange(0, 5)[0] == resource@[0]);
                assert(resource@.subrange(0, 5)[1] == resource@[1]);
                assert(resource@.subrange(0, 5)[2] == resource@[2]);
                assert(resource@.subrange(0, 5)[3] == resource@[3]);
                assert(resource@.subrange(0, 5)[4] == resource@[4]);
            }
        }
    }
    b
}

/// The issuer base URL templated from the domain.
pub open spec fn issuer_url_of(domain: Seq<char>) -> Seq<char> {
    "https://"@ + domain + "/application/o/tailscale/"@
}

/// The relation identifier of the link at each of the five positions.
pub open spec fn rel_at(i: int) -> Seq<char> {
    if i == 0 {
        "http://openid.net/specs/connect/1.0/issuer"@
    } else if i == 1 {
        "authorization_endpoint"@
    } else if i == 2 {
        "token_endpoint"@
    } else if i == 3 {
        "userinfo_endpoint"@
    } else {
        "jwks_uri"@
    }
}

/// The path suffix appended to the issuer URL at each position past the first.
pub open spec fn href_suffix_at(i: int) -> Seq<char> {
    if i == 1 {
        "oauth2/authorize"@
    } else if i == 2 {
        "oauth2/token"@
    } else if i == 3 {
        "userinfo"@
    } else {
        "jwks"@
    }
}

/// The URL of the link at each of the five positions, under the given domain.
pub open spec fn href_at(domain: Seq<char>, i: int) -> Seq<char> {
    if i == 0 {
        issuer_url_of(domain)
    } else {
        issuer_url_of(domain) + href_suffix_at(i)
    }
}

/// What the successful response looks like: the subject echoes the resource,
/// and the links are exactly the five of the fixed order.
pub open spec fn response_matches(
    r: WebFingerResponse,
    resource: Seq<char>,
    domain: Seq<char>,
) -> bool {
    &&& r.subject@ == resource
    &&& r.links@.len() == 5
    &&& forall|i: int|
        0 <= i < 5 ==> (#[trigger] r.links@[i]).rel@ == rel_at(i) && r.links@[i].href@ == href_at(
            domain,
            i,
        )
}

/// Builds the issuer base URL for the domain.
pub fn issuer_url(domain: &str) -> (r: String)
    ensures
        r@ == issuer_url_of(domain@),
{
    let mut r = String::from_str("https://");
    r.append(domain);
    r.append("/application/o/tailscale/");
    r
}

/// Builds the five links of the response, in their fixed order.
pub fn build_links(domain: &str) -> (links: Vec<Link>)
    ensures
        links@.len() == 5,
        forall|i: int|
            0 <= i < 5 ==> (#[trigger] links@[i]).rel@ == rel_at(i) && links@[i].href@ == href_at(
                domain@,
                i,
            ),
{
    let base = issuer_url(domain);
    let mut links: Vec<Link> = Vec::new();
    links.push(
        Link {
            rel: String::from_str("http://openid.net/specs/connect/1.0/issuer"),
            href: base.clone(),
        },
    );
    links.push(
        Link {
            rel: String::from_str("authorization_endpoint"),
            href: base.clone().concat("oauth2/authorize"),
        },
    );
    links.push(
        Link { rel: String::from_str("token_endpoint"), href: base.clone().concat("oauth2/token") },
    );
    links.push(
        Link { rel: String::from_str("userinfo_endpoint"), href: base.clone().concat("userinfo") },
    );
    links.push(Link { rel: String::from_str("jwks_uri"), href: base.concat("jwks") });
    links
}

/// Answers one WebFinger request. `resource` is the query parameter as
/// received, or `None` when it was absent; `domain_env` is the raw
/// environment value for the domain, read fresh for this request.
pub fn webfinger_response(resource: Option<String>, domain_env: Option<String>) -> (r: Result<
    WebFingerResponse,
    WebFingerError,
>)
    ensures
        resource is None ==> r == Err::<WebFingerResponse, WebFingerError>(
            WebFingerError::MissingResource,
        ),
        (resource matches Some(s) && !is_acct_resource(s@)) ==> r == Err::<
            WebFingerResponse,
            WebFingerError,
        >(WebFingerError::InvalidResourceFormat),
        resource matches Some(s) ==> (is_acct_resource(s@) ==> (r matches Ok(resp)
            && response_matches(resp, s@, domain_of(domain_env)))),
{
    let resource = match resource {
        Some(res) => {
            if is_acct(res.as_str()) {
                res
            } else {
                return Err(WebFingerError::InvalidResourceFormat);
            }
        },
        None => {
            return Err(WebFingerError::MissingResource);
        },
    };
    let domain = resolve_domain(domain_env);
    let links = build_links(domain.as_str());
    Ok(WebFingerResponse { subject: resource, links })
}

/// Every string formed as `acct:` followed by anything is a valid resource:
/// together with the contract of `webfinger_response`, such a request is
/// answered with `Ok`, its subject echoed and the five links in fixed order.
pub proof fn lemma_acct_prefix_valid(s: Seq<char>)
    ensures
        is_acct_resource("acct:"@ + s),
{
    reveal_strlit("acct:");
    assert(("acct:"@ + s).subrange(0, 5) =~= "acct:"@);
}

/// Wrapping two distinct sequences between the same prefix and suffix leaves
/// them distinct.
proof fn lemma_wrap_distinct(p: Seq<char>, t: Seq<char>, d1: Seq<char>, d2: Seq<char>)
    requires
        d1 != d2,
    ensures
        p + d1 + t != p + d2 + t,
{
    if d1.len() != d2.len() {
        assert((p + d1 + t).len() != (p + d2 + t).len());
    } else {
        assert(!(forall|j: int| 0 <= j < d1.len() ==> d1[j] == d2[j])) by {
            if forall|j: int| 0 <= j < d1.len() ==> d1[j] == d2[j] {
                assert(d1 =~= d2);
            }
        }
        let j = choose|j: int| 0 <= j < d1.len() && d1[j] != d2[j];
        assert((p + d1)[p.len() + j] == d1[j]);
        assert((p + d1 + t)[p.len() + j] == d1[j]);
        assert((p + d2)[p.len() + j] == d2[j]);
        assert((p + d2 + t)[p.len() + j] == d2[j]);
    }
}

/// Distinct domains give distinct URLs at every link position.
pub proof fn lemma_domain_determines_hrefs(d1: Seq<char>, d2: Seq<char>, i: int)
    requires
        0 <= i < 5,
        d1 != d2,
    ensures
        href_at(d1, i) != href_at(d2, i),
{
    if i == 0 {
        lemma_wrap_distinct("https://"@, "/application/o/tailscale/"@, d1, d2);
    } else {
        let t = "/application/o/tailscale/"@ + href_suffix_at(i);
        lemma_wrap_distinct("https://"@, t, d1, d2);
        assert(href_at(d1, i) =~= "https://"@ + d1 + t);
        assert(href_at(d2, i) =~= "https://"@ + d2 + t);
    }
}

/// Changing the domain between two requests changes every URL in both
/// responses: any two responses built under distinct domains differ in the
/// `href` of each of the five links, whatever the two resources were.
pub proof fn lemma_domain_change_changes_hrefs(
    r1: WebFingerResponse,
    r2: WebFingerResponse,
    resource1: Seq<char>,
    resource2: Seq<char>,
    d1: Seq<char>,
    d2: Seq<char>,
)
    requires
        response_matches(r1, resource1, d1),
        response_matches(r2, resource2, d2),
        d1 != d2,
    ensures
        forall|i: int| 0 <= i < 5 ==> (#[trigger] r1.links@[i]).href@ != r2.links@[i].href@,
{
    assert forall|i: int| 0 <= i < 5 implies (#[trigger] r1.links@[i]).href@
        != r2.links@[i].href@ by {
        lemma_domain_determines_hrefs(d1, d2, i);
    }
}

/// The health endpoint's body: the constant `OK`.
pub fn health_body() -> (r: &'static str)
    ensures
        r@ == "OK"@,
{
    "OK"
}

} // verus!

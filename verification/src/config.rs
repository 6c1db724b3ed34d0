//! The saved settings, the project identity, and the rule that decides
//! which issue tracker owns a domain.
//!
//! A domain equal to the configured GitLab domain resolves to that GitLab
//! instance; otherwise `github.com` resolves to GitHub; any other domain
//! is unsupported. The GitLab check comes first on purpose: a GitLab
//! instance configured as `github.com` still resolves to GitLab.

use vstd::prelude::*;
use vstd::string::StringExecFns;
use vstd::utf8::decode_utf8;
use vstd::utf8::valid_utf8;
use crate::parse::ParseError;
use crate::parse::lemma_encode_contains_ascii;
use crate::parse::lemma_split_owner_no_slash;
use crate::parse::parse_origin;
use crate::parse::split_origin;

verus! {

/// The saved settings: the GitLab instance to talk to, and one access
/// token per backend. The tokens are carried, never interpreted.
pub struct Config {
    pub gitlab_domain: String,
    pub gitlab_token: String,
    pub github_token: String,
}

/// The issue tracker that owns a domain: GitHub, or the GitLab instance
/// with the given domain.
#[derive(Debug)]
pub enum Place {
    Github,
    Gitlab(String),
}

/// A resolved project: where it is hosted, who owns it, and its name.
#[derive(Debug)]
pub struct Project {
    pub place: Place,
    pub owner: String,
    pub repo: String,
}

impl Project {
    /// The owner and the repository are the two non-empty path segments
    /// of the project, and the owner holds no `/` of its own. The
    /// repository may: the parser takes everything after the owner as the
    /// repository name.
    pub open spec fn well_formed(&self) -> bool {
        self.owner@.len() > 0 && self.repo@.len() > 0 && !self.owner@.contains('/')
    }

    /// The `owner/repository` form the trackers address projects by.
    pub fn name(&self) -> (r: String)
        ensures
            r@ == self.owner@ + "/"@ + self.repo@,
    {
        let mut s = self.owner.clone();
        s.append("/");
        s.append(self.repo.as_str());
        s
    }
}

/// Issue states a listing can be narrowed to.
#[derive(Debug, Clone, Copy, PartialEq, Eq, Structural)]
pub enum IssueFilter {
    Open,
    Closed,
}

/// The filter's name on the wire and in display lines.
pub open spec fn filter_text(f: IssueFilter) -> Seq<char> {
    match f {
        IssueFilter::Open => "open"@,
        IssueFilter::Closed => "closed"@,
    }
}

impl IssueFilter {
    /// The filter's name on the wire and in display lines.
    pub fn text(&self) -> (r: String)
        ensures
            r@ == filter_text(*self),
    {
        match self {
            IssueFilter::Open => "open".to_owned(),
            IssueFilter::Closed => "closed".to_owned(),
        }
    }

    /// Reads a filter from its name, exactly `open` or `closed`.
    pub fn from_str(s: &str) -> (r: Result<IssueFilter, String>)
        ensures
            s@ == "open"@ ==> (r matches Ok(f) && f is Open),
            s@ == "closed"@ ==> (r matches Ok(f) && f is Closed),
            s@ != "open"@ && s@ != "closed"@ ==> (r matches Err(m) && m@ == "Unknown filter: "@
                + s@),
    {
        proof {
            reveal_strlit("open");
            reveal_strlit("closed");
            assert("open"@.len() == 4);
            assert("closed"@.len() == 6);
            assert("open"@ != "closed"@);
        }
        let t = s.to_owned();
        if t == "open".to_owned() {
            Ok(IssueFilter::Open)
        } else if t == "closed".to_owned() {
            Ok(IssueFilter::Closed)
        } else {
            let mut m = "Unknown filter: ".to_owned();
            m.append(s);
            Err(m)
        }
    }
}

/// How a backend call fails: the transport or the remote end refused, the
/// response lacked what was promised, or an assignee could not be looked
/// up.
#[derive(Debug, PartialEq, Eq)]
pub enum BackendError {
    /// The request itself failed; carries the upstream message.
    RequestFailed(String),
    /// The response did not hold the expected issue-number field.
    MalformedResponse,
    /// The assignee username could not be resolved; carries the message.
    AssigneeLookupFailed(String),
}

/// A domain no configured backend owns; carries the domain and the one
/// GitLab domain that was expected.
#[derive(Debug, PartialEq, Eq)]
pub enum ResolveError {
    UnsupportedDomain { domain: String, expected: String },
}

/// The one domain GitHub answers for.
pub open spec fn github_domain() -> Seq<char> {
    "github.com"@
}

/// Decides which tracker owns `domain`. The configured GitLab domain is
/// checked first; `github.com` second; everything else is unsupported.
pub fn resolve(domain: String, configured_gitlab_domain: &String) -> (r: Result<
    Place,
    ResolveError,
>)
    ensures
        domain@ == configured_gitlab_domain@ ==> (r matches Ok(p) && p matches Place::Gitlab(g)
            && g@ == domain@),
        domain@ != configured_gitlab_domain@ && domain@ == github_domain() ==> (r matches Ok(p)
            && p is Github),
        domain@ != configured_gitlab_domain@ && domain@ != github_domain() ==> (r matches Err(e)
            && e matches ResolveError::UnsupportedDomain { domain: d, expected: x } && d@
            == domain@ && x@ == configured_gitlab_domain@),
{
    if domain == *configured_gitlab_domain {
        Ok(Place::Gitlab(domain))
    } else {
        let github: String = "github.com".to_owned();
        if domain == github {
            Ok(Place::Github)
        } else {
            Err(
                ResolveError::UnsupportedDomain {
                    domain,
                    expected: configured_gitlab_domain.clone(),
                },
            )
        }
    }
}

/// Why no project identity could be produced: the remote address did not
/// parse, or its domain resolved to no backend.
#[derive(Debug, PartialEq, Eq)]
pub enum ProjectError {
    Parse(ParseError),
    Resolve(ResolveError),
}

/// What [`extract_project`] owes once a remote address has split into
/// valid, non-empty segments: the project the resolver's rule picks for
/// the decoded domain, or the resolver's error.
pub open spec fn resolved_project_matches(
    domain: Seq<char>,
    owner: Seq<char>,
    repo: Seq<char>,
    gitlab_domain: Seq<char>,
    r: Result<Project, ProjectError>,
) -> bool {
    if domain == gitlab_domain {
        r matches Ok(p) && p.place matches Place::Gitlab(g) && g@ == domain && p.owner@ == owner
            && p.repo@ == repo
    } else if domain == github_domain() {
        r matches Ok(p) && p.place is Github && p.owner@ == owner && p.repo@ == repo
    } else {
        r matches Err(e) && e matches ProjectError::Resolve(re) && re
            matches ResolveError::UnsupportedDomain { domain: d, expected: x } && d@ == domain
            && x@ == gitlab_domain
    }
}

/// The full outcome [`extract_project`] owes: parse errors pass through
/// unchanged, and a parsed triple is resolved against the configured
/// GitLab domain.
pub open spec fn extract_outcome_matches(
    origin: Seq<u8>,
    gitlab_domain: Seq<char>,
    r: Result<Project, ProjectError>,
) -> bool {
    match split_origin(origin) {
        None => r matches Err(e) && e matches ProjectError::Parse(pe) && pe
            matches ParseError::UnrecognizedFormat(inp) && inp@ == origin,
        Some(t) => {
            let (d, o, rp) = t;
            if o.len() == 0 || rp.len() == 0 {
                r matches Err(e) && e matches ProjectError::Parse(pe) && pe is EmptyField
            } else if valid_utf8(d) && valid_utf8(o) && valid_utf8(rp) {
                resolved_project_matches(
                    decode_utf8(d),
                    decode_utf8(o),
                    decode_utf8(rp),
                    gitlab_domain,
                    r,
                )
            } else {
                r matches Err(e) && e matches ProjectError::Parse(pe) && pe is InvalidUtf8
            }
        },
    }
}

/// Builds the project identity for a remote address: parse, then resolve,
/// then assemble. Every produced project is well formed.
pub fn extract_project(origin: &[u8], config: &Config) -> (r: Result<Project, ProjectError>)
    ensures
        extract_outcome_matches(origin@, config.gitlab_domain@, r),
        r matches Ok(p) ==> p.well_formed(),
{
    match parse_origin(origin) {
        Err(pe) => Err(ProjectError::Parse(pe)),
        Ok(t) => {
            let (domain, owner, repo) = t;
            proof {
                lemma_decode_utf8_nonempty();
                lemma_split_owner_no_slash(origin@);
                match split_origin(origin@) {
                    Some(parts) => {
                        let ob = parts.1;
                        if valid_utf8(ob) && decode_utf8(ob).contains('/') {
                            lemma_encode_contains_ascii(decode_utf8(ob), '/');
                            vstd::utf8::decode_utf8_encode_utf8(ob);
                            assert('/' as u8 == crate::parse::SLASH);
                            assert(false);
                        }
                    },
                    None => {},
                }
            }
            match resolve(domain, &config.gitlab_domain) {
                Ok(place) => Ok(Project { place, owner, repo }),
                Err(re) => Err(ProjectError::Resolve(re)),
            }
        },
    }
}

/// Decoding non-empty valid UTF-8 gives at least one character.
proof fn lemma_decode_utf8_nonempty()
    ensures
        forall|b: Seq<u8>| valid_utf8(b) && b.len() > 0 ==> #[trigger] decode_utf8(b).len() > 0,
{
    assert forall|b: Seq<u8>| valid_utf8(b) && b.len() > 0 implies #[trigger] decode_utf8(b).len()
        > 0 by {
        assert(decode_utf8(b).len() > 0) by {
            reveal_with_fuel(decode_utf8, 1);
        }
    }
}

} // verus!

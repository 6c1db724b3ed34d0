//! The GitHub side: the issue-creation payload, the endpoint and project
//! URLs, the reading of the creation response, and listing.
//!
//! Creation sends a JSON body to the issues endpoint of the repository;
//! the payload built here carries the title, the optional body text, the
//! labels in their given order, and the assignee as a one-element list
//! when one was given. GitHub's simple listing endpoint only returns open
//! issues, so asking for closed ones earns a warning; the fetched issues
//! are then filtered by their state's name.

use vstd::prelude::*;
use vstd::string::StringExecFns;
use crate::config::BackendError;
use crate::config::IssueFilter;
use crate::config::Project;
use crate::config::filter_text;
use crate::digits::spec_decimal;
use crate::digits::u64_to_string;

verus! {

/// The body of a GitHub issue-creation request.
#[derive(Debug)]
pub struct IssueData {
    pub title: String,
    pub body: Option<String>,
    pub labels: Vec<String>,
    pub assignees: Vec<String>,
}

fn copy_strings(v: &Vec<String>) -> (r: Vec<String>)
    ensures
        r@ == v@,
{
    let mut r: Vec<String> = Vec::new();
    let n = v.len();
    let mut i: usize = 0;
    while i < n
        invariant
            0 <= i <= n,
            n == v@.len(),
            r@ =~= v@.take(i as int),
        decreases n - i,
    {
        r.push(v[i].clone());
        i += 1;
    }
    proof {
        assert(v@.take(n as int) =~= v@);
    }
    r
}

/// Assembles the creation payload: the assignee, when given, becomes the
/// one entry of the assignee list.
pub fn issue_data(
    title: &str,
    text: &Option<String>,
    labels: &Vec<String>,
    assignee: &Option<String>,
) -> (d: IssueData)
    ensures
        d.title@ == title@,
        d.body == *text,
        d.labels@ == labels@,
        *assignee matches Some(a) ==> d.assignees@ == seq![a],
        *assignee is None ==> d.assignees@ == Seq::<String>::empty(),
{
    let mut assignees: Vec<String> = Vec::new();
    match assignee {
        Some(a) => {
            assignees.push(a.clone());
            proof {
                assert(assignees@ =~= seq![*a]);
            }
        },
        None => {},
    }
    let body: Option<String> = match text {
        Some(t) => Some(t.clone()),
        None => None,
    };
    IssueData { title: title.to_owned(), body, labels: copy_strings(labels), assignees }
}

/// The endpoint an issue-creation request is sent to.
pub fn create_issue_endpoint(project: &Project) -> (r: String)
    ensures
        r@ == "https://api.github.com/repos/"@ + project.owner@ + "/"@ + project.repo@
            + "/issues"@,
{
    let mut s = "https://api.github.com/repos/".to_owned();
    s.append(project.owner.as_str());
    s.append("/");
    s.append(project.repo.as_str());
    s.append("/issues");
    s
}

/// The web address of a project on GitHub; the host is fixed, whatever
/// GitLab domain is configured.
pub fn project_url(project: &Project) -> (r: String)
    ensures
        r@ == "https://github.com/"@ + project.owner@ + "/"@ + project.repo@,
{
    let mut s = "https://github.com/".to_owned();
    s.append(project.owner.as_str());
    s.append("/");
    s.append(project.repo.as_str());
    s
}

/// Turns the decoded creation response into the promised pair: the new
/// issue's number and its web address, or
/// [`BackendError::MalformedResponse`] when the response held no issue.
pub fn issue_created_result(response: Option<(u64, String)>) -> (r: Result<
    (u64, String),
    BackendError,
>)
    ensures
        response matches Some(t) ==> r == Ok::<(u64, String), BackendError>(t),
        response is None ==> r == Err::<(u64, String), BackendError>(
            BackendError::MalformedResponse,
        ),
{
    match response {
        Some(t) => Ok(t),
        None => Err(BackendError::MalformedResponse),
    }
}

/// GitHub's simple listing endpoint returns open issues only; asking for
/// anything else earns this warning.
pub fn list_warning(filter: &IssueFilter) -> (r: Option<String>)
    ensures
        *filter is Open ==> r is None,
        !(*filter is Open) ==> (r matches Some(m) && m@
            == "WARNING: Only open issues are currently returned by the API"@),
{
    match filter {
        IssueFilter::Open => None,
        IssueFilter::Closed => Some(
            "WARNING: Only open issues are currently returned by the API".to_owned(),
        ),
    }
}

/// What a GitHub listing reads of one issue; the state arrives as the
/// API's name for it.
#[derive(Debug)]
pub struct GhIssue {
    pub number: u64,
    pub html_url: String,
    pub title: String,
    pub created_at: String,
    pub state: String,
}

/// Whether an issue's state carries exactly the filter's name.
pub open spec fn gh_passes_filter(f: IssueFilter, issue: GhIssue) -> bool {
    issue.state@ == filter_text(f)
}

/// The subsequence of issues whose state names the filter, in order.
pub open spec fn gh_filtered(issues: Seq<GhIssue>, f: IssueFilter) -> Seq<GhIssue>
    decreases issues.len(),
{
    if issues.len() == 0 {
        Seq::empty()
    } else {
        (if gh_passes_filter(f, issues[0]) {
            seq![issues[0]]
        } else {
            Seq::empty()
        }) + gh_filtered(issues.drop_first(), f)
    }
}

/// Keeps the issues whose state names the filter, in their given order.
pub fn filter_issues(issues: Vec<GhIssue>, filter: &IssueFilter) -> (r: Vec<GhIssue>)
    ensures
        r@ == gh_filtered(issues@, *filter),
{
    let ghost all = issues@;
    let wanted = filter.text();
    let mut rest = issues;
    let mut out: Vec<GhIssue> = Vec::new();
    while rest.len() > 0
        invariant
            wanted@ == filter_text(*filter),
            gh_filtered(all, *filter) == out@ + gh_filtered(rest@, *filter),
        decreases rest.len(),
    {
        let ghost before = rest@;
        let head = rest.remove(0);
        proof {
            assert(before.remove(0) =~= before.drop_first());
        }
        if head.state == wanted {
            out.push(head);
        }
        proof {
            assert(out@ + gh_filtered(rest@, *filter) =~= gh_filtered(all, *filter));
        }
    }
    proof {
        assert(out@ =~= out@ + gh_filtered(rest@, *filter));
    }
    out
}

/// One line of a listing: number, state, title, timestamp and address,
/// space-separated behind a `#`.
pub open spec fn gh_issue_line_text(issue: GhIssue) -> Seq<char> {
    "#"@ + spec_decimal(issue.number as nat) + " "@ + issue.state@ + " "@ + issue.title@ + " "@
        + issue.created_at@ + " "@ + issue.html_url@
}

/// Formats one listing line.
pub fn format_issue_line(issue: &GhIssue) -> (r: String)
    ensures
        r@ == gh_issue_line_text(*issue),
{
    let mut s = "#".to_owned();
    let n = u64_to_string(issue.number);
    s.append(n.as_str());
    s.append(" ");
    s.append(issue.state.as_str());
    s.append(" ");
    s.append(issue.title.as_str());
    s.append(" ");
    s.append(issue.created_at.as_str());
    s.append(" ");
    s.append(issue.html_url.as_str());
    s
}

} // verus!

//! The GitLab side: issue states, web URLs, the legacy query-string
//! creation request, and the reading of the creation response.
//!
//! Issue creation goes through one URL that carries the whole request:
//! the project path is percent-encoded as a path segment, the title, the
//! description and the joined label list as query components, and the
//! resolved assignee id in decimal. The creation response is a JSON
//! document whose `iid` field is the new issue's number; a response
//! without it is malformed. Listing filters fetched issues by state:
//! `open` keeps opened and reopened issues, `closed` keeps closed ones.

use vstd::prelude::*;
use vstd::string::StringExecFns;
use crate::config::BackendError;
use crate::config::IssueFilter;
use crate::config::Project;
use crate::digits::spec_decimal;
use crate::digits::u64_to_string;

verus! {

/// The states GitLab gives an issue.
#[derive(Debug, Clone, Copy, PartialEq, Eq, Structural)]
pub enum IssueState {
    Opened,
    Closed,
    Reopened,
}

/// An issue state under the names this tool reads and prints:
/// `open`, `closed`, `reopened`.
#[derive(Debug)]
pub struct MyIssueState(pub IssueState);

/// What lowering a text to lower case yields; the name stands for the
/// result of the standard library's case folding.
pub uninterp spec fn lower_of(s: Seq<char>) -> Seq<char>;

/// Relies on str::to_lowercase: the lowered text depends on the input
/// characters alone.
#[verifier::external_body]
fn lowercase(s: &str) -> (r: String)
    ensures
        r@ == lower_of(s@),
{
    s.to_lowercase()
}

impl MyIssueState {
    /// Reads a state from its lowered name.
    pub fn from_str(s: &str) -> (r: Result<MyIssueState, String>)
        ensures
            lower_of(s@) == "open"@ ==> (r matches Ok(m) && m.0 is Opened),
            lower_of(s@) == "closed"@ ==> (r matches Ok(m) && m.0 is Closed),
            lower_of(s@) == "reopened"@ ==> (r matches Ok(m) && m.0 is Reopened),
            lower_of(s@) != "open"@ && lower_of(s@) != "closed"@ && lower_of(s@) != "reopened"@
                ==> (r matches Err(m) && m@ == "Unknown state: "@ + s@),
    {
        proof {
            reveal_strlit("open");
            reveal_strlit("closed");
            reveal_strlit("reopened");
            assert("open"@.len() == 4);
            assert("closed"@.len() == 6);
            assert("reopened"@.len() == 8);
            assert("open"@ != "closed"@ && "open"@ != "reopened"@ && "closed"@ != "reopened"@);
        }
        let t = lowercase(s);
        if t == "open".to_owned() {
            Ok(MyIssueState(IssueState::Opened))
        } else if t == "closed".to_owned() {
            Ok(MyIssueState(IssueState::Closed))
        } else if t == "reopened".to_owned() {
            Ok(MyIssueState(IssueState::Reopened))
        } else {
            let mut m = "Unknown state: ".to_owned();
            m.append(s);
            Err(m)
        }
    }

    /// The state's printed name.
    pub fn text(&self) -> (r: String)
        ensures
            r@ == state_text(self.0),
    {
        match self.0 {
            IssueState::Opened => "open".to_owned(),
            IssueState::Closed => "closed".to_owned(),
            IssueState::Reopened => "reopened".to_owned(),
        }
    }
}

impl From<IssueState> for MyIssueState {
    fn from(issue: IssueState) -> (r: MyIssueState) {
        match issue {
            IssueState::Opened => MyIssueState(IssueState::Opened),
            IssueState::Closed => MyIssueState(IssueState::Closed),
            IssueState::Reopened => MyIssueState(IssueState::Reopened),
        }
    }
}

impl vstd::std_specs::convert::FromSpecImpl<IssueState> for MyIssueState {
    open spec fn obeys_from_spec() -> bool {
        true
    }

    open spec fn from_spec(issue: IssueState) -> MyIssueState {
        MyIssueState(issue)
    }
}

/// The printed name of a state.
pub open spec fn state_text(s: IssueState) -> Seq<char> {
    match s {
        IssueState::Opened => "open"@,
        IssueState::Closed => "closed"@,
        IssueState::Reopened => "reopened"@,
    }
}

/// Whether a state passes a listing filter: `open` keeps opened and
/// reopened issues, `closed` keeps closed ones.
pub open spec fn passes_filter(f: IssueFilter, s: IssueState) -> bool {
    match f {
        IssueFilter::Open => s is Opened || s is Reopened,
        IssueFilter::Closed => s is Closed,
    }
}

/// Decides [`passes_filter`] for one issue state.
pub fn issue_matches_filter(state: IssueState, filter: &IssueFilter) -> (r: bool)
    ensures
        r == passes_filter(*filter, state),
{
    match filter {
        IssueFilter::Open => state == IssueState::Opened || state == IssueState::Reopened,
        IssueFilter::Closed => state == IssueState::Closed,
    }
}

/// What a GitLab listing reads of one issue; the timestamp arrives
/// already rendered.
#[derive(Debug)]
pub struct GitlabIssue {
    pub iid: u64,
    pub state: IssueState,
    pub title: String,
    pub created_at: String,
}

/// The subsequence of issues that pass the filter, in order.
pub open spec fn filtered(issues: Seq<GitlabIssue>, f: IssueFilter) -> Seq<GitlabIssue>
    decreases issues.len(),
{
    if issues.len() == 0 {
        Seq::empty()
    } else {
        (if passes_filter(f, issues[0].state) {
            seq![issues[0]]
        } else {
            Seq::empty()
        }) + filtered(issues.drop_first(), f)
    }
}

/// Keeps the issues that pass the filter, in their given order.
pub fn filter_issues(issues: Vec<GitlabIssue>, filter: &IssueFilter) -> (r: Vec<GitlabIssue>)
    ensures
        r@ == filtered(issues@, *filter),
{
    let ghost all = issues@;
    let mut rest = issues;
    let mut out: Vec<GitlabIssue> = Vec::new();
    while rest.len() > 0
        invariant
            filtered(all, *filter) == out@ + filtered(rest@, *filter),
        decreases rest.len(),
    {
        let ghost before = rest@;
        let head = rest.remove(0);
        proof {
            assert(before.remove(0) =~= before.drop_first());
        }
        if issue_matches_filter(head.state, filter) {
            out.push(head);
        }
        proof {
            assert(out@ + filtered(rest@, *filter) =~= filtered(all, *filter));
        }
    }
    proof {
        assert(out@ =~= out@ + filtered(rest@, *filter));
    }
    out
}

/// The web address of one issue.
pub open spec fn issue_url_text(domain: Seq<char>, project_name: Seq<char>, number: nat) -> Seq<
    char,
> {
    "https://"@ + domain + "/"@ + project_name + "/issues/"@ + spec_decimal(number)
}

/// The web address of a project.
pub open spec fn project_url_text(domain: Seq<char>, project_name: Seq<char>) -> Seq<char> {
    "https://"@ + domain + "/"@ + project_name
}

/// Formats the web address of one issue. Pure: the text is a function of
/// the three arguments.
pub fn get_issue_url(domain: &str, project_name: &str, number: &u64) -> (r: String)
    ensures
        r@ == issue_url_text(domain@, project_name@, *number as nat),
{
    let mut s = "https://".to_owned();
    s.append(domain);
    s.append("/");
    s.append(project_name);
    s.append("/issues/");
    let n = u64_to_string(*number);
    s.append(n.as_str());
    s
}

/// Formats the web address of a project. Pure: the text is a function of
/// the domain and the project identity.
pub fn get_project_url(domain: &str, project: &Project) -> (r: String)
    ensures
        r@ == project_url_text(domain@, project.owner@ + "/"@ + project.repo@),
{
    let mut s = "https://".to_owned();
    s.append(domain);
    s.append("/");
    let name = project.name();
    s.append(name.as_str());
    s
}

/// One line of a listing: number, state, title, timestamp and address,
/// space-separated behind a `#`.
pub open spec fn issue_line_text(
    domain: Seq<char>,
    project_name: Seq<char>,
    issue: GitlabIssue,
) -> Seq<char> {
    "#"@ + spec_decimal(issue.iid as nat) + " "@ + state_text(issue.state) + " "@ + issue.title@
        + " "@ + issue.created_at@ + " "@ + issue_url_text(
        domain,
        project_name,
        issue.iid as nat,
    )
}

/// Formats one listing line.
pub fn format_issue_line(domain: &str, project_name: &str, issue: &GitlabIssue) -> (r: String)
    ensures
        r@ == issue_line_text(domain@, project_name@, *issue),
{
    let mut s = "#".to_owned();
    let n = u64_to_string(issue.iid);
    s.append(n.as_str());
    s.append(" ");
    let st = MyIssueState(issue.state).text();
    s.append(st.as_str());
    s.append(" ");
    s.append(issue.title.as_str());
    s.append(" ");
    s.append(issue.created_at.as_str());
    s.append(" ");
    let url = get_issue_url(domain, project_name, &issue.iid);
    s.append(url.as_str());
    s
}

/// What percent-encoding a path segment yields; the name stands for the
/// result of the url crate's escaping with its path-segment set.
pub uninterp spec fn path_segment_encoded(s: Seq<char>) -> Seq<char>;

/// What percent-encoding a query component yields; the name stands for
/// the result of the url crate's escaping with its query set.
pub uninterp spec fn query_encoded(s: Seq<char>) -> Seq<char>;

/// Relies on url's utf8_percent_encode with PATH_SEGMENT_ENCODE_SET: the
/// escaped text depends on the input characters alone.
#[verifier::external_body]
fn encode_path_segment(s: &str) -> (r: String)
    ensures
        r@ == path_segment_encoded(s@),
{
    url::percent_encoding::utf8_percent_encode(
        s,
        url::percent_encoding::PATH_SEGMENT_ENCODE_SET,
    ).to_string()
}

/// Relies on url's utf8_percent_encode with QUERY_ENCODE_SET: the escaped
/// text depends on the input characters alone.
#[verifier::external_body]
fn encode_query_component(s: &str) -> (r: String)
    ensures
        r@ == query_encoded(s@),
{
    url::percent_encoding::utf8_percent_encode(
        s,
        url::percent_encoding::QUERY_ENCODE_SET,
    ).to_string()
}

/// The parts joined by single commas, in order, with no comma around an
/// empty list or a single part.
pub open spec fn join_commas(parts: Seq<Seq<char>>) -> Seq<char>
    decreases parts.len(),
{
    if parts.len() == 0 {
        Seq::empty()
    } else if parts.len() == 1 {
        parts[0]
    } else {
        parts[0] + ","@ + join_commas(parts.drop_first())
    }
}

fn join_from(parts: &Vec<String>, i: usize) -> (r: String)
    requires
        i <= parts.len(),
    ensures
        r@ == join_commas(parts.deep_view().skip(i as int)),
    decreases parts.len() - i,
{
    let n = parts.len();
    if i == n {
        proof {
            assert(parts.deep_view().skip(i as int) =~= Seq::<Seq<char>>::empty());
        }
        String::new()
    } else if i == n - 1 {
        proof {
            assert(parts.deep_view().skip(i as int).len() == 1);
            assert(parts.deep_view().skip(i as int)[0] == parts@[i as int]@);
        }
        parts[i].clone()
    } else {
        let mut s = parts[i].clone();
        s.append(",");
        let rest = join_from(parts, i + 1);
        s.append(rest.as_str());
        proof {
            let tail = parts.deep_view().skip(i as int);
            assert(tail.len() >= 2);
            assert(tail[0] == parts@[i as int]@);
            assert(tail.drop_first() =~= parts.deep_view().skip(i as int + 1));
        }
        s
    }
}

/// Joins label names with commas.
pub fn join_labels(labels: &Vec<String>) -> (r: String)
    ensures
        r@ == join_commas(labels.deep_view()),
{
    let r = join_from(labels, 0);
    proof {
        assert(labels.deep_view().skip(0) =~= labels.deep_view());
    }
    r
}

/// The description an issue request carries: the given text, or nothing.
pub open spec fn description_text(text: Option<String>) -> Seq<char> {
    match text {
        Some(t) => t@,
        None => Seq::empty(),
    }
}

/// The one URL that carries a whole GitLab issue-creation request: the
/// percent-encoded project path, then the encoded title, description,
/// the label list (only when labels were given) and the resolved
/// assignee id (only when an assignee was given).
pub open spec fn create_issue_url_text(
    domain: Seq<char>,
    project_name: Seq<char>,
    title: Seq<char>,
    text: Option<String>,
    labels: Seq<Seq<char>>,
    assignee_id: Option<u64>,
) -> Seq<char> {
    "https://"@ + domain + "/api/v4/projects/"@ + path_segment_encoded(project_name)
        + "/issues?title="@ + query_encoded(title) + "&description="@ + query_encoded(
        description_text(text),
    ) + (if labels.len() > 0 {
        "&labels="@ + query_encoded(join_commas(labels))
    } else {
        Seq::empty()
    }) + (match assignee_id {
        Some(id) => "&assignee_ids="@ + spec_decimal(id as nat),
        None => Seq::empty(),
    })
}

/// Builds the issue-creation URL for a project. The assignee, when there
/// is one, arrives already resolved to its numeric user id.
pub fn create_issue_url(
    domain: &str,
    project: &Project,
    title: &str,
    text: &Option<String>,
    labels: &Vec<String>,
    assignee_id: Option<u64>,
) -> (r: String)
    ensures
        r@ == create_issue_url_text(
            domain@,
            project.owner@ + "/"@ + project.repo@,
            title@,
            *text,
            labels.deep_view(),
            assignee_id,
        ),
{
    let name = project.name();
    let encoded_project = encode_path_segment(name.as_str());
    let encoded_title = encode_query_component(title);
    let desc: String = match text {
        Some(t) => t.clone(),
        None => String::new(),
    };
    let encoded_desc = encode_query_component(desc.as_str());
    let mut s = "https://".to_owned();
    s.append(domain);
    s.append("/api/v4/projects/");
    s.append(encoded_project.as_str());
    s.append("/issues?title=");
    s.append(encoded_title.as_str());
    s.append("&description=");
    s.append(encoded_desc.as_str());
    if labels.len() > 0 {
        s.append("&labels=");
        let joined = join_labels(labels);
        let encoded_labels = encode_query_component(joined.as_str());
        s.append(encoded_labels.as_str());
    }
    match assignee_id {
        Some(id) => {
            s.append("&assignee_ids=");
            let n = u64_to_string(id);
            s.append(n.as_str());
        },
        None => {},
    }
    s
}

/// Turns the assignee lookup's outcome into the id the creation URL
/// needs: the id that was found, or
/// [`BackendError::AssigneeLookupFailed`] naming the user when none was.
pub fn assignee_id_result(lookup: Option<u64>, name: &str) -> (r: Result<u64, BackendError>)
    ensures
        lookup matches Some(id) ==> r == Ok::<u64, BackendError>(id),
        lookup is None ==> (r matches Err(e) && e matches BackendError::AssigneeLookupFailed(m)
            && m@ == "Couldn't find a user named "@ + name@),
{
    match lookup {
        Some(id) => Ok(id),
        None => {
            let mut m = "Couldn't find a user named ".to_owned();
            m.append(name);
            Err(BackendError::AssigneeLookupFailed(m))
        },
    }
}

/// What the `iid` field of a JSON document holds, if the document parses
/// and the field is a number that fits; the name stands for what
/// serde_json reads out of the bytes.
pub uninterp spec fn gitlab_iid_of(body: Seq<u8>) -> Option<u64>;

/// Relies on serde_json::from_slice, serde_json::Value::get and
/// serde_json::Value::as_u64: the `iid` number found in a JSON document
/// depends on the document's bytes alone.
#[verifier::external_body]
fn read_iid(body: &[u8]) -> (r: Option<u64>)
    ensures
        r == gitlab_iid_of(body@),
{
    serde_json::from_slice::<serde_json::Value>(body).ok().and_then(
        |v| v.get("iid").and_then(|f| f.as_u64()),
    )
}

/// Reads the new issue's number out of a creation response: the `iid`
/// field, or [`BackendError::MalformedResponse`] when the document does
/// not carry one.
pub fn issue_number_from_response(body: &[u8]) -> (r: Result<u64, BackendError>)
    ensures
        gitlab_iid_of(body@) matches Some(n) ==> r == Ok::<u64, BackendError>(n),
        gitlab_iid_of(body@) is None ==> r == Err::<u64, BackendError>(
            BackendError::MalformedResponse,
        ),
{
    match read_iid(body) {
        Some(n) => Ok(n),
        None => Err(BackendError::MalformedResponse),
    }
}

} // verus!

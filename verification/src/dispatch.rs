//! The composition root's decisions: which web address a browse request
//! opens, chosen by the project's provider, and the texts the commands
//! report. Everything here is a pure function of its arguments; the
//! surrounding program only performs what was decided.

use vstd::prelude::*;
use vstd::string::StringExecFns;
use crate::config::Config;
use crate::config::Place;
use crate::config::Project;
use crate::digits::spec_decimal;
use crate::digits::u64_to_string;
use crate::github_api;
use crate::gitlab_api::get_issue_url;
use crate::gitlab_api::get_project_url;
use crate::gitlab_api::issue_url_text;
use crate::gitlab_api::project_url_text;

verus! {

/// The GitLab page a browse request opens: one issue's page when an
/// issue number is given, the project's page otherwise.
pub fn gitlab_browse_url(domain: &str, project: &Project, issue: Option<u64>) -> (r: String)
    ensures
        issue matches Some(n) ==> r@ == issue_url_text(
            domain@,
            project.owner@ + "/"@ + project.repo@,
            n as nat,
        ),
        issue is None ==> r@ == project_url_text(domain@, project.owner@ + "/"@ + project.repo@),
{
    match issue {
        Some(n) => {
            let name = project.name();
            get_issue_url(domain, name.as_str(), &n)
        },
        None => get_project_url(domain, project),
    }
}

/// The page the browse command opens, chosen by the project's provider:
/// the configured GitLab instance's project page, or the project's page
/// on `github.com`.
pub fn browse_url(config: &Config, project: &Project) -> (r: String)
    ensures
        project.place matches Place::Gitlab(g) ==> r@ == project_url_text(
            config.gitlab_domain@,
            project.owner@ + "/"@ + project.repo@,
        ),
        project.place is Github ==> r@ == "https://github.com/"@ + project.owner@ + "/"@
            + project.repo@,
{
    match &project.place {
        Place::Gitlab(_) => gitlab_browse_url(config.gitlab_domain.as_str(), project, None),
        Place::Github => github_api::project_url(project),
    }
}

/// What the creation command reports: the new issue's number and address.
pub fn created_issue_message(number: u64, url: &str) -> (r: String)
    ensures
        r@ == "Created issue #"@ + spec_decimal(number as nat) + " "@ + url@,
{
    let mut s = "Created issue #".to_owned();
    let n = u64_to_string(number);
    s.append(n.as_str());
    s.append(" ");
    s.append(url);
    s
}

/// What the browse command reports.
pub fn opening_message(project: &Project) -> (r: String)
    ensures
        r@ == "Opening "@ + project.owner@ + "/"@ + project.repo@,
{
    let mut s = "Opening ".to_owned();
    let name = project.name();
    s.append(name.as_str());
    s
}

} // verus!

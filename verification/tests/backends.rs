use issues_helper::config::{
    extract_project, resolve, BackendError, Config, IssueFilter, Place, Project, ProjectError,
    ResolveError,
};
use issues_helper::digits::u64_to_string;
use issues_helper::dispatch::{
    browse_url, created_issue_message, gitlab_browse_url, opening_message,
};
use issues_helper::github_api;
use issues_helper::gitlab_api;
use issues_helper::gitlab_api::{GitlabIssue, IssueState, MyIssueState};

fn config_for(domain: &str) -> Config {
    Config {
        gitlab_domain: domain.to_owned(),
        gitlab_token: "SECRET-REDACTED".to_owned(),
        github_token: "SECRET-REDACTED".to_owned(),
    }
}

fn gitlab_project(domain: &str) -> Project {
    Project {
        place: Place::Gitlab(domain.to_owned()),
        owner: "acme".to_owned(),
        repo: "widgets".to_owned(),
    }
}

fn github_project() -> Project {
    Project {
        place: Place::Github,
        owner: "acme".to_owned(),
        repo: "widgets".to_owned(),
    }
}

#[test]
fn resolving_configured_gitlab_domain() {
    let r = resolve("gitlab.example.org".to_owned(), &"gitlab.example.org".to_owned());
    assert!(matches!(r, Ok(Place::Gitlab(d)) if d == "gitlab.example.org"));
}

#[test]
fn resolving_github_domain() {
    let r = resolve("github.com".to_owned(), &"gitlab.example.org".to_owned());
    assert!(matches!(r, Ok(Place::Github)));
}

#[test]
fn resolving_unsupported_domain() {
    let r = resolve("bitbucket.org".to_owned(), &"gitlab.example.org".to_owned());
    assert_eq!(
        r.err(),
        Some(ResolveError::UnsupportedDomain {
            domain: "bitbucket.org".to_owned(),
            expected: "gitlab.example.org".to_owned(),
        })
    );
}

#[test]
fn resolving_gitlab_configured_as_github() {
    let r = resolve("github.com".to_owned(), &"github.com".to_owned());
    assert!(matches!(r, Ok(Place::Gitlab(d)) if d == "github.com"));
}

#[test]
fn extracting_gitlab_project() {
    let config = config_for("gitlab.example.org");
    let p = extract_project(b"git@gitlab.example.org:acme/widgets.git", &config).unwrap();
    assert!(matches!(&p.place, Place::Gitlab(d) if d == "gitlab.example.org"));
    assert_eq!(p.owner, "acme");
    assert_eq!(p.repo, "widgets");
    assert_eq!(p.name(), "acme/widgets");
}

#[test]
fn extracting_github_project() {
    let config = config_for("gitlab.example.org");
    let p = extract_project(b"https://github.com/acme/widgets", &config).unwrap();
    assert!(matches!(p.place, Place::Github));
    assert_eq!(p.name(), "acme/widgets");
}

#[test]
fn extracting_fails_on_unknown_domain() {
    let config = config_for("gitlab.example.org");
    let r = extract_project(b"git@bitbucket.org:acme/widgets", &config);
    assert!(matches!(
        r,
        Err(ProjectError::Resolve(ResolveError::UnsupportedDomain { domain, expected }))
            if domain == "bitbucket.org" && expected == "gitlab.example.org"
    ));
}

#[test]
fn extracting_passes_parse_errors_through() {
    let config = config_for("gitlab.example.org");
    let r = extract_project(b"nonsense", &config);
    assert!(matches!(r, Err(ProjectError::Parse(_))));
}

#[test]
fn rendering_numbers() {
    assert_eq!(u64_to_string(0), "0");
    assert_eq!(u64_to_string(7), "7");
    assert_eq!(u64_to_string(10), "10");
    assert_eq!(u64_to_string(409), "409");
    assert_eq!(u64_to_string(u64::MAX), "18446744073709551615");
}

#[test]
fn gitlab_issue_url() {
    assert_eq!(
        gitlab_api::get_issue_url("gitlab.example.org", "acme/widgets", &12),
        "https://gitlab.example.org/acme/widgets/issues/12"
    );
}

#[test]
fn gitlab_project_url() {
    let p = gitlab_project("gitlab.example.org");
    assert_eq!(
        gitlab_api::get_project_url("gitlab.example.org", &p),
        "https://gitlab.example.org/acme/widgets"
    );
}

#[test]
fn gitlab_creation_url_encodes_every_part() {
    let p = gitlab_project("gitlab.example.org");
    let labels = vec!["bug".to_owned(), "needs triage".to_owned()];
    let url = gitlab_api::create_issue_url(
        "gitlab.example.org",
        &p,
        "My new issue",
        &Some("A body".to_owned()),
        &labels,
        Some(7),
    );
    assert_eq!(
        url,
        "https://gitlab.example.org/api/v4/projects/acme%2Fwidgets/issues?\
         title=My%20new%20issue&description=A%20body&labels=bug,needs%20triage&assignee_ids=7"
    );
}

#[test]
fn gitlab_creation_url_minimal() {
    let p = gitlab_project("gitlab.example.org");
    let url = gitlab_api::create_issue_url("gitlab.example.org", &p, "Title", &None, &vec![], None);
    assert_eq!(
        url,
        "https://gitlab.example.org/api/v4/projects/acme%2Fwidgets/issues?title=Title&description="
    );
}

#[test]
fn joining_labels() {
    assert_eq!(gitlab_api::join_labels(&vec![]), "");
    assert_eq!(gitlab_api::join_labels(&vec!["a".to_owned()]), "a");
    assert_eq!(
        gitlab_api::join_labels(&vec!["a".to_owned(), "b".to_owned(), "c".to_owned()]),
        "a,b,c"
    );
}

#[test]
fn reading_gitlab_creation_response() {
    assert_eq!(
        gitlab_api::issue_number_from_response(br#"{"iid": 42, "title": "x"}"#),
        Ok(42)
    );
    assert_eq!(
        gitlab_api::issue_number_from_response(br#"{"id": 42}"#),
        Err(BackendError::MalformedResponse)
    );
    assert_eq!(
        gitlab_api::issue_number_from_response(br#"{"iid": -3}"#),
        Err(BackendError::MalformedResponse)
    );
    assert_eq!(
        gitlab_api::issue_number_from_response(b"not json at all"),
        Err(BackendError::MalformedResponse)
    );
}

#[test]
fn resolving_assignee_lookups() {
    assert_eq!(gitlab_api::assignee_id_result(Some(7), "someone"), Ok(7));
    assert_eq!(
        gitlab_api::assignee_id_result(None, "someone"),
        Err(BackendError::AssigneeLookupFailed(
            "Couldn't find a user named someone".to_owned()
        ))
    );
}

#[test]
fn gitlab_state_names() {
    assert!(matches!(MyIssueState::from_str("open"), Ok(MyIssueState(IssueState::Opened))));
    assert!(matches!(MyIssueState::from_str("CLOSED"), Ok(MyIssueState(IssueState::Closed))));
    assert!(matches!(
        MyIssueState::from_str("Reopened"),
        Ok(MyIssueState(IssueState::Reopened))
    ));
    assert_eq!(MyIssueState::from_str("bogus").err(), Some("Unknown state: bogus".to_owned()));
    assert_eq!(MyIssueState(IssueState::Reopened).text(), "reopened");
    assert_eq!(MyIssueState::from(IssueState::Closed).0, IssueState::Closed);
}

#[test]
fn gitlab_filtering() {
    let issues = vec![
        GitlabIssue {
            iid: 1,
            state: IssueState::Opened,
            title: "a".to_owned(),
            created_at: "2024-01-01 10:00".to_owned(),
        },
        GitlabIssue {
            iid: 2,
            state: IssueState::Closed,
            title: "b".to_owned(),
            created_at: "2024-01-02 10:00".to_owned(),
        },
        GitlabIssue {
            iid: 3,
            state: IssueState::Reopened,
            title: "c".to_owned(),
            created_at: "2024-01-03 10:00".to_owned(),
        },
    ];
    let open = gitlab_api::filter_issues(issues, &IssueFilter::Open);
    let kept: Vec<u64> = open.iter().map(|i| i.iid).collect();
    assert_eq!(kept, vec![1, 3]);
}

#[test]
fn gitlab_listing_line() {
    let issue = GitlabIssue {
        iid: 12,
        state: IssueState::Opened,
        title: "Broken build".to_owned(),
        created_at: "2024-01-01 10:00".to_owned(),
    };
    assert_eq!(
        gitlab_api::format_issue_line("gitlab.example.org", "acme/widgets", &issue),
        "#12 open Broken build 2024-01-01 10:00 https://gitlab.example.org/acme/widgets/issues/12"
    );
}

#[test]
fn gitlab_browse_targets() {
    let p = gitlab_project("gitlab.example.org");
    assert_eq!(
        gitlab_browse_url("gitlab.example.org", &p, Some(5)),
        "https://gitlab.example.org/acme/widgets/issues/5"
    );
    assert_eq!(
        gitlab_browse_url("gitlab.example.org", &p, None),
        "https://gitlab.example.org/acme/widgets"
    );
}

#[test]
fn browse_urls_by_place() {
    let config = config_for("gitlab.example.org");
    assert_eq!(
        browse_url(&config, &gitlab_project("gitlab.example.org")),
        "https://gitlab.example.org/acme/widgets"
    );
    assert_eq!(browse_url(&config, &github_project()), "https://github.com/acme/widgets");
}

#[test]
fn command_messages() {
    assert_eq!(
        created_issue_message(12, "https://example.com/i/12"),
        "Created issue #12 https://example.com/i/12"
    );
    assert_eq!(opening_message(&github_project()), "Opening acme/widgets");
}

#[test]
fn github_payload() {
    let labels = vec!["bug".to_owned()];
    let d = github_api::issue_data(
        "A title",
        &Some("A body".to_owned()),
        &labels,
        &Some("someone".to_owned()),
    );
    assert_eq!(d.title, "A title");
    assert_eq!(d.body, Some("A body".to_owned()));
    assert_eq!(d.labels, vec!["bug".to_owned()]);
    assert_eq!(d.assignees, vec!["someone".to_owned()]);

    let bare = github_api::issue_data("T", &None, &vec![], &None);
    assert_eq!(bare.body, None);
    assert!(bare.labels.is_empty());
    assert!(bare.assignees.is_empty());
}

#[test]
fn github_urls() {
    let p = github_project();
    assert_eq!(
        github_api::create_issue_endpoint(&p),
        "https://api.github.com/repos/acme/widgets/issues"
    );
    assert_eq!(github_api::project_url(&p), "https://github.com/acme/widgets");
}

#[test]
fn github_creation_result() {
    assert_eq!(
        github_api::issue_created_result(Some((3, "https://github.com/acme/widgets/issues/3".to_owned()))),
        Ok((3, "https://github.com/acme/widgets/issues/3".to_owned()))
    );
    assert_eq!(
        github_api::issue_created_result(None),
        Err(BackendError::MalformedResponse)
    );
}

#[test]
fn github_list_warning() {
    assert_eq!(github_api::list_warning(&IssueFilter::Open), None);
    assert_eq!(
        github_api::list_warning(&IssueFilter::Closed),
        Some("WARNING: Only open issues are currently returned by the API".to_owned())
    );
}

#[test]
fn github_filtering_and_line() {
    let issues = vec![
        github_api::GhIssue {
            number: 1,
            html_url: "https://github.com/acme/widgets/issues/1".to_owned(),
            title: "a".to_owned(),
            created_at: "2024-01-01T10:00:00Z".to_owned(),
            state: "open".to_owned(),
        },
        github_api::GhIssue {
            number: 2,
            html_url: "https://github.com/acme/widgets/issues/2".to_owned(),
            title: "b".to_owned(),
            created_at: "2024-01-02T10:00:00Z".to_owned(),
            state: "closed".to_owned(),
        },
    ];
    let kept = github_api::filter_issues(issues, &IssueFilter::Open);
    assert_eq!(kept.len(), 1);
    assert_eq!(kept[0].number, 1);
    assert_eq!(
        github_api::format_issue_line(&kept[0]),
        "#1 open a 2024-01-01T10:00:00Z https://github.com/acme/widgets/issues/1"
    );
}

#[test]
fn url_formatting_is_pure() {
    let p = gitlab_project("gitlab.example.org");
    let a = gitlab_api::get_issue_url("gitlab.example.org", "acme/widgets", &12);
    let b = gitlab_api::get_issue_url("gitlab.example.org", "acme/widgets", &12);
    assert_eq!(a, b);
    let c = gitlab_api::get_project_url("gitlab.example.org", &p);
    let d = gitlab_api::get_project_url("gitlab.example.org", &p);
    assert_eq!(c, d);
    assert_eq!(github_api::project_url(&github_project()), github_api::project_url(&github_project()));
}

#[test]
fn project_names() {
    assert_eq!(gitlab_project("gitlab.example.org").name(), "acme/widgets");
}

#[test]
fn filter_names() {
    assert_eq!(IssueFilter::Open.text(), "open");
    assert_eq!(IssueFilter::Closed.text(), "closed");
    assert_eq!(IssueFilter::from_str("open"), Ok(IssueFilter::Open));
    assert_eq!(IssueFilter::from_str("closed"), Ok(IssueFilter::Closed));
    assert_eq!(IssueFilter::from_str("odd"), Err("Unknown filter: odd".to_owned()));
}

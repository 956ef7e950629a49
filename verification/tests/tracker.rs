use symphony::json::{parse_json, Json};
use symphony::tracker::{
    format_authorization_header, parse_candidate_issues, read_reply, truncate_response_body,
    workflow_state_type, FetchStep, HttpReply, HttpRequest, LinearClient, MockTracker,
    TrackerError, TransitionPhase, TransitionStep,
};
use symphony::types::{Issue, Timestamp};

const REPLY: &str = r#"{
    "data": {
        "issues": {
            "nodes": [
                {
                    "id": "abc123",
                    "identifier": "MT-1",
                    "title": "Test issue",
                    "description": "desc",
                    "priority": 2,
                    "state": { "name": "Todo" },
                    "branchName": null,
                    "url": "https://linear.app/MT-1",
                    "labels": { "nodes": [{ "name": "bug" }] },
                    "relations": {
                        "nodes": [
                            {
                                "type": "blocks",
                                "issue": {
                                    "id": "blocker1",
                                    "identifier": "MT-0",
                                    "state": { "name": "In Progress" }
                                },
                                "relatedIssue": {
                                    "id": "abc123",
                                    "identifier": "MT-1",
                                    "state": { "name": "Todo" }
                                }
                            },
                            {
                                "type": "related",
                                "issue": {
                                    "id": "abc123",
                                    "identifier": "MT-1",
                                    "state": { "name": "Todo" }
                                },
                                "relatedIssue": {
                                    "id": "other",
                                    "identifier": "MT-2",
                                    "state": { "name": "Todo" }
                                }
                            },
                            {
                                "type": "blocks",
                                "issue": {
                                    "id": "abc123",
                                    "identifier": "MT-1",
                                    "state": { "name": "Todo" }
                                },
                                "relatedIssue": {
                                    "id": "blocked-by-current",
                                    "identifier": "MT-3",
                                    "state": { "name": "Todo" }
                                }
                            }
                        ]
                    },
                    "createdAt": "2024-01-01T00:00:00Z",
                    "updatedAt": null
                }
            ]
        }
    }
}"#;

fn json(text: &str) -> Json {
    parse_json(text).unwrap()
}

fn reply(code: u16, body: &str) -> Option<HttpReply> {
    Some(HttpReply::Received {
        code,
        status: format!("{code} status"),
        body: Ok(body.into()),
    })
}

fn client() -> LinearClient {
    LinearClient::new(
        "https://example.test/graphql".into(),
        Some("key".into()),
        "proj".into(),
        vec!["Todo".into()],
        vec!["Done".into()],
    )
}

fn sent(step: FetchStep) -> HttpRequest {
    match step {
        FetchStep::Send(request) => request,
        other => panic!("expected a request, got {other:?}"),
    }
}

fn asked(step: TransitionStep) -> (HttpRequest, TransitionPhase) {
    match step {
        TransitionStep::Send { request, phase } => (request, phase),
        other => panic!("expected a request, got {other:?}"),
    }
}

#[test]
fn test_parse_candidate_issues() {
    let issues = parse_candidate_issues(&json(REPLY)).unwrap();
    assert_eq!(issues.len(), 1);
    assert_eq!(issues[0].identifier, "MT-1");
    assert_eq!(issues[0].labels, vec!["bug"]);
    assert_eq!(issues[0].blocked_by.len(), 1);
    assert_eq!(issues[0].blocked_by[0].identifier.as_deref(), Some("MT-0"));
}

#[test]
fn every_field_of_an_issue_is_read() {
    let issues = parse_candidate_issues(&json(REPLY)).unwrap();
    let issue = &issues[0];
    assert_eq!(issue.id, "abc123");
    assert_eq!(issue.title, "Test issue");
    assert_eq!(issue.description.as_deref(), Some("desc"));
    assert_eq!(issue.priority, Some(2));
    assert_eq!(issue.state, "Todo");
    assert_eq!(issue.branch_name, None);
    assert_eq!(issue.url.as_deref(), Some("https://linear.app/MT-1"));
    assert_eq!(
        issue.created_at,
        Some(Timestamp {
            seconds: 1_704_067_200,
            nanos: 0
        })
    );
    assert_eq!(issue.updated_at, None);
    assert_eq!(issue.blocked_by[0].id.as_deref(), Some("blocker1"));
    assert_eq!(issue.blocked_by[0].state.as_deref(), Some("In Progress"));
}

#[test]
fn times_are_taken_in_universal_time() {
    let text = r#"{"data":{"project":{"issues":{"nodes":[
        {"id":"1","identifier":"A","title":"t","createdAt":"2024-01-01T01:00:00.5+01:00","updatedAt":"yesterday","labels":{"nodes":[{"name":"BUG"},{},{"name":"PÉ"}]}}
    ]}}}}"#;
    let issues = parse_candidate_issues(&json(text)).unwrap();
    assert_eq!(
        issues[0].created_at,
        Some(Timestamp {
            seconds: 1_704_067_200,
            nanos: 500_000_000
        })
    );
    assert_eq!(issues[0].updated_at, None);
    assert_eq!(issues[0].state, "Unknown");
    assert_eq!(issues[0].labels, vec!["bug", "p\u{e9}"]);
}

#[test]
fn faulty_nodes_are_named() {
    let node = |n: &str| format!("{{\"data\":{{\"issues\":{{\"nodes\":[{n}]}}}}}}");
    let err = |n: &str| parse_candidate_issues(&json(&node(n))).unwrap_err();
    assert_eq!(err("{}"), "missing id");
    assert_eq!(err("{\"id\":\"1\"}"), "missing identifier");
    assert_eq!(err("{\"id\":\"1\",\"identifier\":\"A\"}"), "missing title");
    assert_eq!(
        err("{\"id\":\"1\",\"identifier\":\"A\",\"title\":\"t\"},{\"id\":2}"),
        "missing id"
    );
    assert_eq!(
        parse_candidate_issues(&json("{\"data\":{}}")).unwrap_err(),
        "unexpected response shape: {\"data\":{}}"
    );
    assert!(parse_candidate_issues(&json(&node(""))).unwrap().is_empty());
}

#[test]
fn truncates_long_response_bodies() {
    let body = "abcdef".to_string();
    assert_eq!(truncate_response_body(body, 3), "abc...");
    assert_eq!(truncate_response_body("abc".into(), 3), "abc");
}

#[test]
fn keys_become_bearer_tokens() {
    assert_eq!(format_authorization_header("k"), "Bearer k");
    assert_eq!(format_authorization_header("Bearer k"), "Bearer k");
    assert_eq!(format_authorization_header("lin_api_k"), "lin_api_k");
}

#[test]
fn candidates_are_asked_for() {
    let request = sent(client().fetch_candidate_issues(None));
    assert_eq!(request.url, "https://example.test/graphql");
    assert_eq!(request.authorization, "Bearer key");
    assert_eq!(request.content_type, "application/json");
    let body = json(&request.body);
    assert!(body
        .get("query")
        .unwrap()
        .as_text()
        .unwrap()
        .contains("query($projectSlug: String!, $activeStates: [String!]!)"));
    assert_eq!(
        body.get("variables"),
        Some(&json("{\"activeStates\":[\"Todo\"],\"projectSlug\":\"proj\"}"))
    );
    match client().fetch_candidate_issues(reply(200, REPLY)) {
        FetchStep::Issues(list) => assert_eq!(list[0].id, "abc123"),
        other => panic!("{other:?}"),
    }
}

#[test]
fn issues_are_asked_for_by_id() {
    match client().fetch_issue_states_by_ids(&vec![], None) {
        FetchStep::Issues(list) => assert!(list.is_empty()),
        other => panic!("{other:?}"),
    }
    let ids = vec!["a\"b".to_string(), "c".to_string()];
    let request = sent(client().fetch_issue_states_by_ids(&ids, None));
    assert_eq!(
        json(&request.body).get("variables"),
        Some(&json("{\"ids\":[\"a\\\"b\",\"c\"]}"))
    );
    let request = sent(client().fetch_terminal_issues(None));
    assert_eq!(
        json(&request.body).get("variables"),
        Some(&json("{\"projectSlug\":\"proj\",\"terminalStates\":[\"Done\"]}"))
    );
}

#[test]
fn without_a_key_nothing_is_asked() {
    let mut c = client();
    c.api_key = None;
    match c.fetch_candidate_issues(None) {
        FetchStep::Failed(e) => assert_eq!(e.message(), "not authenticated"),
        other => panic!("{other:?}"),
    }
    match c.transition_issue_state("i", "Done", TransitionPhase::Start, None) {
        TransitionStep::Failed(TrackerError::NotAuthenticated) => {}
        other => panic!("{other:?}"),
    }
}

#[test]
fn replies_that_say_no() {
    let error = |r: HttpReply| read_reply(r).unwrap_err().message();
    assert_eq!(
        error(HttpReply::NotSent("refused".into())),
        "HTTP request failed: refused"
    );
    assert_eq!(
        error(HttpReply::Received {
            code: 500,
            status: "500 Internal Server Error".into(),
            body: Ok("x".repeat(1025))
        }),
        format!(
            "HTTP request failed: status=500 Internal Server Error body={}...",
            "x".repeat(1024)
        )
    );
    assert_eq!(
        error(HttpReply::Received {
            code: 404,
            status: "404 Not Found".into(),
            body: Err("gone".into())
        }),
        "HTTP request failed: status=404 Not Found body=<failed to read response body: gone>"
    );
    assert_eq!(
        error(HttpReply::Received {
            code: 200,
            status: "200 OK".into(),
            body: Err("cut off".into())
        }),
        "HTTP request failed: cut off"
    );
    assert_eq!(
        error(reply(200, "<html>").unwrap()),
        "HTTP request failed: error decoding response body"
    );
    assert_eq!(
        error(reply(299, "{\"errors\":[{\"message\":\"no\"}]}").unwrap()),
        "GraphQL error: [{\"message\":\"no\"}]"
    );
    assert!(read_reply(reply(200, "{\"data\":1}").unwrap()).is_ok());
    assert!(read_reply(reply(300, "{\"data\":1}").unwrap()).is_err());
    match client().fetch_candidate_issues(reply(200, "{}")) {
        FetchStep::Failed(e) => {
            assert_eq!(e.message(), "malformed payload: unexpected response shape: {}")
        }
        other => panic!("{other:?}"),
    }
}

#[test]
fn a_move_by_name() {
    let c = client();
    let (request, phase) =
        asked(c.transition_issue_state("i-1", "In Review", TransitionPhase::Start, None));
    assert_eq!(
        json(&request.body).get("variables"),
        Some(&json("{\"issueId\":\"i-1\"}"))
    );
    let team = reply(200, "{\"data\":{\"issue\":{\"team\":{\"id\":\"t-1\"}}}}");
    let (request, phase) = asked(c.transition_issue_state("i-1", "In Review", phase, team));
    assert_eq!(
        json(&request.body).get("variables"),
        Some(&json(
            "{\"filter\":{\"name\":{\"eqIgnoreCase\":\"In Review\"},\"team\":{\"id\":{\"eq\":\"t-1\"}}}}"
        ))
    );
    let states = reply(200, "{\"data\":{\"workflowStates\":{\"nodes\":[{\"id\":\"s-1\"},{\"id\":\"s-2\"}]}}}");
    let (request, phase) = asked(c.transition_issue_state("i-1", "In Review", phase, states));
    assert_eq!(
        json(&request.body).get("variables"),
        Some(&json("{\"issueId\":\"i-1\",\"stateId\":\"s-1\"}"))
    );
    let done = reply(200, "{\"data\":{\"issueUpdate\":{\"success\":true}}}");
    assert!(matches!(
        c.transition_issue_state("i-1", "In Review", phase, done),
        TransitionStep::Moved
    ));
}

#[test]
fn a_move_by_kind() {
    let c = client();
    let none = "{\"data\":{\"workflowStates\":{\"nodes\":[]}}}";
    let phase = TransitionPhase::AskedName {
        team_id: "t-1".into(),
    };
    let (request, phase) = asked(c.transition_issue_state("i-1", "Complete", phase, reply(200, none)));
    let variables = json(&request.body);
    let filter = variables.get("variables").unwrap().get("filter").unwrap();
    assert_eq!(filter.get("type"), Some(&json("{\"eq\":\"completed\"}")));
    assert_eq!(filter.get("team"), Some(&json("{\"id\":{\"eq\":\"t-1\"}}")));
    assert!(matches!(phase, TransitionPhase::AskedType { .. }));
    match c.transition_issue_state("i-1", "Complete", phase, reply(200, none)) {
        TransitionStep::Failed(e) => assert_eq!(
            e.message(),
            "malformed payload: could not find workflow state 'Complete' for issue i-1"
        ),
        other => panic!("{other:?}"),
    }
    let phase = TransitionPhase::AskedName {
        team_id: "t-1".into(),
    };
    assert!(matches!(
        c.transition_issue_state("i-1", "In Review", phase, reply(200, none)),
        TransitionStep::Failed(TrackerError::MalformedPayload(_))
    ));
}

#[test]
fn moves_that_fail() {
    let c = client();
    match c.transition_issue_state(
        "i",
        "Done",
        TransitionPhase::AskedTeam,
        reply(200, "{\"data\":{\"issue\":null}}"),
    ) {
        TransitionStep::Failed(e) => assert_eq!(
            e.message(),
            "malformed payload: missing issue team in response: {\"data\":{\"issue\":null}}"
        ),
        other => panic!("{other:?}"),
    }
    match c.transition_issue_state(
        "i",
        "Done",
        TransitionPhase::AskedUpdate,
        reply(200, "{\"data\":{\"issueUpdate\":{\"success\":false}}}"),
    ) {
        TransitionStep::Failed(e) => assert_eq!(
            e.message(),
            "malformed payload: issueUpdate did not succeed: {\"data\":{\"issueUpdate\":{\"success\":false}}}"
        ),
        other => panic!("{other:?}"),
    }
    assert!(matches!(
        c.transition_issue_state("i", "Done", TransitionPhase::AskedUpdate, reply(500, "")),
        TransitionStep::Failed(TrackerError::HttpStatus { .. })
    ));
}

#[test]
fn kinds_of_states() {
    assert_eq!(workflow_state_type("DONE"), Some("completed"));
    assert_eq!(workflow_state_type("complete"), Some("completed"));
    assert_eq!(workflow_state_type("Cancelled"), Some("canceled"));
    assert_eq!(workflow_state_type("Duplicate"), Some("duplicate"));
    assert_eq!(workflow_state_type("In Review"), None);
}

fn issue(id: &str, state: &str) -> Issue {
    Issue {
        id: id.into(),
        identifier: id.into(),
        title: "t".into(),
        description: None,
        priority: None,
        state: state.into(),
        branch_name: None,
        url: None,
        labels: vec![],
        blocked_by: vec![],
        created_at: None,
        updated_at: None,
    }
}

#[test]
fn the_tracker_in_memory_filters() {
    let t = MockTracker::new(vec![
        issue("1", "todo"),
        issue("2", "Done"),
        issue("3", "In Progress"),
        issue("4", "In Review"),
    ]);
    let ids = |list: Vec<Issue>| -> Vec<String> { list.into_iter().map(|i| i.id).collect() };
    assert_eq!(ids(t.fetch_candidate_issues()), vec!["1", "3"]);
    assert_eq!(ids(t.fetch_terminal_issues()), vec!["2"]);
    assert_eq!(
        ids(t.fetch_issue_states_by_ids(&vec!["4".into(), "1".into(), "9".into()])),
        vec!["1", "4"]
    );
}

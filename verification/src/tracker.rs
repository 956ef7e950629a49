//! Issue tracker client: what is asked of Linear, what its replies mean, and a
//! tracker in memory.
//!
//! The client says which request to send next and is handed the reply; it does
//! no input or output of its own.
use crate::config::opt_view;
use crate::json::{
    either, member, opt_json, or_else, owned, parse_json, render_json, text_of,
    text_within, within, Json, JsonV,
};
use crate::json::{
    json_list, json_nesting, json_parsed, json_plain, json_rendered, json_stored, opt_str,
};
use crate::json::{
    at_path, law_plain_values_are_stored, law_the_last_member_is_stored, lemma_at_path, says,
    says_nothing,
};
use crate::text::{
    concat2, concat3, first_chars, lowercase, opt_text, starts_with, take_chars,
    text_eq, text_le, texts, to_lowercase,
};
use crate::types::{blockers, issues, BlockerRef, BlockerV, Issue, IssueV, Timestamp};
use vstd::prelude::*;
use vstd::string::*;

verus! {

// ── Errors ──────────────────────────────────────────────────────────────────

/// Errors from tracker operations.
#[derive(Debug)]
pub enum TrackerError {
    HttpError(String),
    HttpStatus { status: String, body: String },
    GraphQLError(String),
    MalformedPayload(String),
    NotAuthenticated,
}

/// A tracker error by its contents.
#[verifier::ext_equal]
pub enum TrackerErrorV {
    HttpError(Seq<char>),
    HttpStatus { status: Seq<char>, body: Seq<char> },
    GraphQLError(Seq<char>),
    MalformedPayload(Seq<char>),
    NotAuthenticated,
}

impl View for TrackerError {
    type V = TrackerErrorV;

    open spec fn view(&self) -> TrackerErrorV {
        match self {
            TrackerError::HttpError(s) => TrackerErrorV::HttpError(s@),
            TrackerError::HttpStatus { status, body } => TrackerErrorV::HttpStatus {
                status: status@,
                body: body@,
            },
            TrackerError::GraphQLError(s) => TrackerErrorV::GraphQLError(s@),
            TrackerError::MalformedPayload(s) => TrackerErrorV::MalformedPayload(s@),
            TrackerError::NotAuthenticated => TrackerErrorV::NotAuthenticated,
        }
    }
}

/// What a tracker error says.
pub open spec fn tracker_error_text(e: TrackerErrorV) -> Seq<char> {
    match e {
        TrackerErrorV::HttpError(s) => "HTTP request failed: "@ + s,
        TrackerErrorV::HttpStatus { status, body } => "HTTP request failed: status="@ + status
            + " body="@ + body,
        TrackerErrorV::GraphQLError(s) => "GraphQL error: "@ + s,
        TrackerErrorV::MalformedPayload(s) => "malformed payload: "@ + s,
        TrackerErrorV::NotAuthenticated => "not authenticated"@,
    }
}

impl TrackerError {
    /// What the error says.
    pub fn message(&self) -> (r: String)
        ensures
            r@ == tracker_error_text(self@),
    {
        match self {
            TrackerError::HttpError(s) => concat2("HTTP request failed: ", s.as_str()),
            TrackerError::HttpStatus { status, body } => {
                let head: String = concat3(
                    "HTTP request failed: status=",
                    status.as_str(),
                    " body=",
                );
                concat2(head.as_str(), body.as_str())
            },
            TrackerError::GraphQLError(s) => concat2("GraphQL error: ", s.as_str()),
            TrackerError::MalformedPayload(s) => concat2("malformed payload: ", s.as_str()),
            TrackerError::NotAuthenticated => "not authenticated".to_owned(),
        }
    }
}

// ── Times ───────────────────────────────────────────────────────────────────

/// The moment that `chrono` reads from an RFC 3339 text, if it is one.
pub uninterp spec fn rfc3339_time(text: Seq<char>) -> Option<Timestamp>;

/// Calls `chrono::DateTime::parse_from_rfc3339` and takes the moment's timestamp.
/// Claimed of it: whether a text is a date, and which, is a function of the text.
#[verifier::external_body]
fn parse_rfc3339(text: &str) -> (r: Option<Timestamp>)
    ensures
        r == rfc3339_time(text@),
{
    chrono::DateTime::parse_from_rfc3339(text).ok().map(
        |t| Timestamp { seconds: t.timestamp(), nanos: t.timestamp_subsec_nanos() },
    )
}

// ── Issues in a reply ───────────────────────────────────────────────────────

/// A member of a member.
pub open spec fn within2(o: Option<JsonV>, a: Seq<char>, b: Seq<char>) -> Option<JsonV> {
    within(within(o, a), b)
}

/// The items of a list, if there is one.
pub open spec fn list_within(o: Option<JsonV>) -> Option<Seq<JsonV>> {
    match o {
        Some(j) => j.as_list(),
        None => None,
    }
}

/// The names of labels in small letters; one without a name is left out.
pub open spec fn label_names(list: Seq<JsonV>) -> Seq<Seq<char>>
    decreases list.len(),
{
    if list.len() == 0 {
        Seq::empty()
    } else {
        let before = label_names(list.drop_last());
        match text_within(within(Some(list.last()), "name"@)) {
            Some(name) => before.push(lowercase(name)),
            None => before,
        }
    }
}

/// Whether a relation says that another issue blocks this one.
pub open spec fn is_blocker(relation: JsonV, id: Seq<char>) -> bool {
    text_within(within(Some(relation), "type"@)) == Some("blocks"@) && text_within(
        within2(Some(relation), "relatedIssue"@, "id"@),
    ) == Some(id)
}

/// The issue that blocks, in a relation.
pub open spec fn blocker_in(relation: JsonV) -> BlockerV {
    let other = within(Some(relation), "issue"@);
    BlockerV {
        id: text_within(within(other, "id"@)),
        identifier: text_within(within(other, "identifier"@)),
        state: text_within(within2(other, "state"@, "name"@)),
    }
}

/// The issues that block this one, in the order of its relations.
pub open spec fn blockers_in(list: Seq<JsonV>, id: Seq<char>) -> Seq<BlockerV>
    decreases list.len(),
{
    if list.len() == 0 {
        Seq::empty()
    } else {
        let before = blockers_in(list.drop_last(), id);
        if is_blocker(list.last(), id) {
            before.push(blocker_in(list.last()))
        } else {
            before
        }
    }
}

/// The moment that a member holds as text.
pub open spec fn time_within(o: Option<JsonV>) -> Option<Timestamp> {
    match text_within(o) {
        Some(text) => rfc3339_time(text),
        None => None,
    }
}

/// The issue that a node holds.
pub open spec fn issue_in(node: JsonV) -> Result<IssueV, Seq<char>> {
    let id = text_within(within(Some(node), "id"@));
    let identifier = text_within(within(Some(node), "identifier"@));
    let title = text_within(within(Some(node), "title"@));
    if id is None {
        Err("missing id"@)
    } else if identifier is None {
        Err("missing identifier"@)
    } else if title is None {
        Err("missing title"@)
    } else {
        Ok(
            IssueV {
                id: id->0,
                identifier: identifier->0,
                title: title->0,
                description: text_within(within(Some(node), "description"@)),
                priority: match within(Some(node), "priority"@) {
                    Some(p) => p.as_i32(),
                    None => None,
                },
                state: match text_within(within2(Some(node), "state"@, "name"@)) {
                    Some(name) => name,
                    None => "Unknown"@,
                },
                branch_name: text_within(within(Some(node), "branchName"@)),
                url: text_within(within(Some(node), "url"@)),
                labels: match list_within(within2(Some(node), "labels"@, "nodes"@)) {
                    Some(list) => label_names(list),
                    None => Seq::empty(),
                },
                blocked_by: match list_within(within2(Some(node), "relations"@, "nodes"@)) {
                    Some(list) => blockers_in(list, id->0),
                    None => Seq::empty(),
                },
                created_at: time_within(within(Some(node), "createdAt"@)),
                updated_at: time_within(within(Some(node), "updatedAt"@)),
            },
        )
    }
}

/// The issues that nodes hold, or what the first faulty node lacks.
pub open spec fn issues_in(nodes: Seq<JsonV>) -> Result<Seq<IssueV>, Seq<char>>
    decreases nodes.len(),
{
    if nodes.len() == 0 {
        Ok(Seq::empty())
    } else {
        match issues_in(nodes.drop_last()) {
            Err(e) => Err(e),
            Ok(before) => match issue_in(nodes.last()) {
                Err(e) => Err(e),
                Ok(issue) => Ok(before.push(issue)),
            },
        }
    }
}

/// Where a reply holds its issues.
pub open spec fn issue_nodes(reply: JsonV) -> Option<Seq<JsonV>> {
    let data = within(Some(reply), "data"@);
    list_within(
        or_else(
            within(within2(data, "project"@, "issues"@), "nodes"@),
            within2(data, "issues"@, "nodes"@),
        ),
    )
}

/// The issues in a reply, or what is wrong with it.
pub open spec fn candidate_issues(reply: JsonV) -> Result<Seq<IssueV>, Seq<char>> {
    match issue_nodes(reply) {
        Some(nodes) => issues_in(nodes),
        None => Err("unexpected response shape: "@ + json_rendered(json_stored(reply))),
    }
}

fn member2<'a>(o: Option<&'a Json>, a: &str, b: &str) -> (r: Option<&'a Json>)
    ensures
        opt_json(r) == within2(opt_json(o), a@, b@),
{
    member(member(o, a), b)
}

fn list_of<'a>(o: Option<&'a Json>) -> (r: Option<&'a Vec<Json>>)
    ensures
        match r {
            Some(v) => list_within(opt_json(o)) == Some(json_list(v@)),
            None => list_within(opt_json(o)) is None,
        },
{
    match o {
        Some(j) => j.as_list(),
        None => None,
    }
}

fn time_of(o: Option<&Json>) -> (r: Option<Timestamp>)
    ensures
        r == time_within(opt_json(o)),
{
    match text_of(o) {
        Some(text) => parse_rfc3339(text),
        None => None,
    }
}

fn parse_labels(list: &Vec<Json>) -> (r: Vec<String>)
    ensures
        texts(r@) == label_names(json_list(list@)),
{
    let mut r: Vec<String> = Vec::new();
    let mut i: usize = 0;
    assert(texts(r@) =~= Seq::<Seq<char>>::empty());
    assert(json_list(list@).take(0) =~= Seq::<JsonV>::empty());
    while i < list.len()
        invariant
            i <= list.len(),
            texts(r@) == label_names(json_list(list@).take(i as int)),
        decreases list.len() - i,
    {
        let ghost upto = json_list(list@).take(i + 1);
        assert(upto.drop_last() =~= json_list(list@).take(i as int));
        assert(upto.last() == list@[i as int]@);
        match text_of(member(Some(&list[i]), "name")) {
            Some(name) => {
                let ghost before = texts(r@);
                r.push(to_lowercase(name));
                assert(texts(r@) =~= before.push(lowercase(name@)));
            },
            None => {},
        }
        i = i + 1;
    }
    assert(json_list(list@).take(list.len() as int) =~= json_list(list@));
    r
}

fn text_is(o: Option<&str>, s: &str) -> (r: bool)
    ensures
        r == (opt_str(o) == Some(s@)),
{
    match o {
        Some(t) => text_eq(t, s),
        None => false,
    }
}

fn parse_blockers(list: &Vec<Json>, id: &str) -> (r: Vec<BlockerRef>)
    ensures
        blockers(r@) == blockers_in(json_list(list@), id@),
{
    let mut r: Vec<BlockerRef> = Vec::new();
    let mut i: usize = 0;
    assert(blockers(r@) =~= Seq::<BlockerV>::empty());
    assert(json_list(list@).take(0) =~= Seq::<JsonV>::empty());
    while i < list.len()
        invariant
            i <= list.len(),
            blockers(r@) == blockers_in(json_list(list@).take(i as int), id@),
        decreases list.len() - i,
    {
        let ghost upto = json_list(list@).take(i + 1);
        assert(upto.drop_last() =~= json_list(list@).take(i as int));
        assert(upto.last() == list@[i as int]@);
        let relation: Option<&Json> = Some(&list[i]);
        if text_is(text_of(member(relation, "type")), "blocks") && text_is(
            text_of(member2(relation, "relatedIssue", "id")),
            id,
        ) {
            let other: Option<&Json> = member(relation, "issue");
            let blocker = BlockerRef {
                id: owned(text_of(member(other, "id"))),
                identifier: owned(text_of(member(other, "identifier"))),
                state: owned(text_of(member2(other, "state", "name"))),
            };
            assert(blocker@ =~= blocker_in(list@[i as int]@));
            let ghost before = blockers(r@);
            r.push(blocker);
            assert(blockers(r@) =~= before.push(blocker@));
        }
        i = i + 1;
    }
    assert(json_list(list@).take(list.len() as int) =~= json_list(list@));
    r
}

fn parse_issue(node: &Json) -> (r: Result<Issue, String>)
    ensures
        match r {
            Ok(issue) => issue_in(node@) == Ok::<IssueV, Seq<char>>(issue@),
            Err(e) => issue_in(node@) == Err::<IssueV, Seq<char>>(e@),
        },
{
    let o: Option<&Json> = Some(node);
    let id: String = match text_of(member(o, "id")) {
        Some(s) => s.to_owned(),
        None => return Err("missing id".to_owned()),
    };
    let identifier: String = match text_of(member(o, "identifier")) {
        Some(s) => s.to_owned(),
        None => return Err("missing identifier".to_owned()),
    };
    let title: String = match text_of(member(o, "title")) {
        Some(s) => s.to_owned(),
        None => return Err("missing title".to_owned()),
    };
    let priority: Option<i32> = match member(o, "priority") {
        Some(p) => p.as_i32(),
        None => None,
    };
    let state: String = match text_of(member2(o, "state", "name")) {
        Some(s) => s.to_owned(),
        None => "Unknown".to_owned(),
    };
    let labels: Vec<String> = match list_of(member2(o, "labels", "nodes")) {
        Some(list) => parse_labels(list),
        None => Vec::new(),
    };
    let blocked_by: Vec<BlockerRef> = match list_of(member2(o, "relations", "nodes")) {
        Some(list) => parse_blockers(list, id.as_str()),
        None => Vec::new(),
    };
    let issue = Issue {
        id,
        identifier,
        title,
        description: owned(text_of(member(o, "description"))),
        priority,
        state,
        branch_name: owned(text_of(member(o, "branchName"))),
        url: owned(text_of(member(o, "url"))),
        labels,
        blocked_by,
        created_at: time_of(member(o, "createdAt")),
        updated_at: time_of(member(o, "updatedAt")),
    };
    assert(issue@ =~= issue_in(node@)->Ok_0);
    Ok(issue)
}

/// The issues in a reply, or what is wrong with it.
pub fn parse_candidate_issues(json: &Json) -> (r: Result<Vec<Issue>, String>)
    ensures
        match r {
            Ok(list) => candidate_issues(json@) == Ok::<Seq<IssueV>, Seq<char>>(issues(list@)),
            Err(e) => candidate_issues(json@) == Err::<Seq<IssueV>, Seq<char>>(e@),
        },
{
    let data: Option<&Json> = member(Some(json), "data");
    let nodes: Option<&Json> = either(
        member(member2(data, "project", "issues"), "nodes"),
        member2(data, "issues", "nodes"),
    );
    let list: &Vec<Json> = match list_of(nodes) {
        Some(list) => list,
        None => {
            let shown: String = render_json(json);
            return Err(concat2("unexpected response shape: ", shown.as_str()));
        },
    };
    let mut r: Vec<Issue> = Vec::new();
    let mut i: usize = 0;
    assert(issues(r@) =~= Seq::<IssueV>::empty());
    assert(json_list(list@).take(0) =~= Seq::<JsonV>::empty());
    assert(json_list(list@).take(list.len() as int) =~= json_list(list@));
    while i < list.len()
        invariant
            i <= list.len(),
            issue_nodes(json@) == Some(json_list(list@)),
            json_list(list@).take(list.len() as int) == json_list(list@),
            issues_in(json_list(list@).take(i as int)) == Ok::<Seq<IssueV>, Seq<char>>(issues(r@)),
        decreases list.len() - i,
    {
        let ghost upto = json_list(list@).take(i + 1);
        assert(upto.drop_last() =~= json_list(list@).take(i as int));
        assert(upto.last() == list@[i as int]@);
        match parse_issue(&list[i]) {
            Ok(issue) => {
                let ghost before = issues(r@);
                r.push(issue);
                assert(issues(r@) =~= before.push(issue@));
            },
            Err(e) => {
                proof {
                    lemma_first_fault(json_list(list@), i + 1);
                }
                return Err(e);
            },
        }
        i = i + 1;
    }
    Ok(r)
}

proof fn lemma_first_fault(nodes: Seq<JsonV>, n: int)
    requires
        0 <= n <= nodes.len(),
        issues_in(nodes.take(n)) is Err,
    ensures
        issues_in(nodes) == issues_in(nodes.take(n)),
    decreases nodes.len() - n,
{
    if n == nodes.len() {
        assert(nodes.take(n) =~= nodes);
    } else {
        assert(nodes.take(n + 1).drop_last() =~= nodes.take(n));
        lemma_first_fault(nodes, n + 1);
    }
}

// ── Requests and replies ────────────────────────────────────────────────────

/// A request to the tracker.
#[derive(Debug)]
pub struct HttpRequest {
    pub url: String,
    pub authorization: String,
    pub content_type: &'static str,
    pub body: String,
}

/// A request by its contents.
#[verifier::ext_equal]
pub struct HttpRequestV {
    pub url: Seq<char>,
    pub authorization: Seq<char>,
    pub content_type: Seq<char>,
    pub body: Seq<char>,
}

impl View for HttpRequest {
    type V = HttpRequestV;

    open spec fn view(&self) -> HttpRequestV {
        HttpRequestV {
            url: self.url@,
            authorization: self.authorization@,
            content_type: self.content_type@,
            body: self.body@,
        }
    }
}

/// What came back for a request.
#[derive(Debug)]
pub enum HttpReply {
    /// Nothing came back; why.
    NotSent(String),
    /// A reply came; its status code, the status as text, and the body or why it
    /// could not be read.
    Received { code: u16, status: String, body: Result<String, String> },
}

/// A reply by its contents.
#[verifier::ext_equal]
pub enum HttpReplyV {
    NotSent(Seq<char>),
    Received { code: u16, status: Seq<char>, body: Result<Seq<char>, Seq<char>> },
}

impl View for HttpReply {
    type V = HttpReplyV;

    open spec fn view(&self) -> HttpReplyV {
        match self {
            HttpReply::NotSent(e) => HttpReplyV::NotSent(e@),
            HttpReply::Received { code, status, body } => HttpReplyV::Received {
                code: *code,
                status: status@,
                body: match body {
                    Ok(text) => Ok(text@),
                    Err(e) => Err(e@),
                },
            },
        }
    }
}

/// The value of the authorization header for a key.
pub open spec fn authorization(api_key: Seq<char>) -> Seq<char> {
    if "Bearer "@.is_prefix_of(api_key) || "lin_api_"@.is_prefix_of(api_key) {
        api_key
    } else {
        "Bearer "@ + api_key
    }
}

/// Format an API key into a proper Authorization header value.
/// Adds "Bearer " prefix if the key does not already start with
/// "Bearer " or "lin_api_".
pub fn format_authorization_header(api_key: &str) -> (r: String)
    ensures
        r@ == authorization(api_key@),
{
    if starts_with(api_key, "Bearer ") || starts_with(api_key, "lin_api_") {
        api_key.to_owned()
    } else {
        concat2("Bearer ", api_key)
    }
}

/// A header value is its own header value.
pub proof fn law_authorization(api_key: Seq<char>)
    ensures
        authorization(authorization(api_key)) == authorization(api_key),
{
    assert("Bearer "@.is_prefix_of("Bearer "@ + api_key));
}

/// A text cut off behind that many characters, with dots where something was cut.
pub open spec fn truncated_body(body: Seq<char>, max_chars: nat) -> Seq<char> {
    if body.len() > max_chars {
        first_chars(body, max_chars) + "..."@
    } else {
        body
    }
}

/// Cuts a text off behind that many characters, and says so with dots.
pub fn truncate_response_body(body: String, max_chars: usize) -> (r: String)
    ensures
        r@ == truncated_body(body@, max_chars as nat),
{
    let head: String = take_chars(body.as_str(), max_chars);
    let cut: bool = crate::text::chars_of(body.as_str()).len() > max_chars;
    if cut {
        concat2(head.as_str(), "...")
    } else {
        body
    }
}

/// Whether a status code means success.
pub open spec fn is_success(code: u16) -> bool {
    200 <= code < 300
}

/// What a JSON reply means: where it speaks of errors, it is one.
pub open spec fn graphql_outcome(json: JsonV) -> Result<JsonV, TrackerErrorV> {
    match json.get("errors"@) {
        Some(errors) => Err(TrackerErrorV::GraphQLError(json_rendered(json_stored(errors)))),
        None => Ok(json),
    }
}

/// What a reply means.
pub open spec fn reply_outcome(reply: HttpReplyV) -> Result<JsonV, TrackerErrorV> {
    match reply {
        HttpReplyV::NotSent(e) => Err(TrackerErrorV::HttpError(e)),
        HttpReplyV::Received { code, status, body } => if !is_success(code) {
            Err(
                TrackerErrorV::HttpStatus {
                    status,
                    body: truncated_body(
                        match body {
                            Ok(text) => text,
                            Err(e) => "<failed to read response body: "@ + e + ">"@,
                        },
                        1024,
                    ),
                },
            )
        } else {
            match body {
                Err(e) => Err(TrackerErrorV::HttpError(e)),
                Ok(text) => match json_parsed(text) {
                    None => Err(TrackerErrorV::HttpError("error decoding response body"@)),
                    Some(json) => graphql_outcome(json),
                },
            }
        },
    }
}

/// Takes a JSON reply, or the errors that it speaks of.
pub fn check_graphql(json: Json) -> (r: Result<Json, TrackerError>)
    ensures
        match r {
            Ok(j) => graphql_outcome(json@) == Ok::<JsonV, TrackerErrorV>(j@) && j@ == json@,
            Err(e) => graphql_outcome(json@) == Err::<JsonV, TrackerErrorV>(e@),
        },
{
    let errors: Option<String> = match json.get("errors") {
        Some(errors) => Some(render_json(errors)),
        None => None,
    };
    match errors {
        Some(text) => Err(TrackerError::GraphQLError(text)),
        None => Ok(json),
    }
}

/// Reads a reply.
pub fn read_reply(reply: HttpReply) -> (r: Result<Json, TrackerError>)
    ensures
        match r {
            Ok(j) => reply_outcome(reply@) == Ok::<JsonV, TrackerErrorV>(j@),
            Err(e) => reply_outcome(reply@) == Err::<JsonV, TrackerErrorV>(e@),
        },
{
    match reply {
        HttpReply::NotSent(e) => Err(TrackerError::HttpError(e)),
        HttpReply::Received { code, status, body } => if !(200 <= code && code < 300) {
            let text: String = match body {
                Ok(text) => text,
                Err(e) => concat3("<failed to read response body: ", e.as_str(), ">"),
            };
            Err(TrackerError::HttpStatus { status, body: truncate_response_body(text, 1024) })
        } else {
            match body {
                Err(e) => Err(TrackerError::HttpError(e)),
                Ok(text) => match parse_json(text.as_str()) {
                    None => Err(
                        TrackerError::HttpError("error decoding response body".to_owned()),
                    ),
                    Some(json) => check_graphql(json),
                },
            }
        },
    }
}

// ── Linear client ───────────────────────────────────────────────────────────

pub const CANDIDATE_QUERY: &'static str =
    "
        query($projectSlug: String!, $activeStates: [String!]!) {
          issues(first: 50, filter: {
            project: { slugId: { eq: $projectSlug } }
            state: { name: { in: $activeStates } }
          }) {
            nodes {
              id
              identifier
              title
              description
              priority
              state { name }
              branchName
              url
              labels { nodes { name } }
              relations { nodes {
                type
                issue {
                  id
                  identifier
                  state { name }
                }
                relatedIssue {
                  id
                  identifier
                  state { name }
                }
              }}
              createdAt
              updatedAt
            }
          }
        }
        ";

pub const ISSUES_BY_ID_QUERY: &'static str =
    "
        query($ids: [ID!]!) {
          issues(filter: { id: { in: $ids } }) {
            nodes {
              id
              identifier
              title
              description
              priority
              state { name }
              branchName
              url
              labels { nodes { name } }
              createdAt
              updatedAt
            }
          }
        }
        ";

pub const TERMINAL_QUERY: &'static str =
    "
        query($projectSlug: String!, $terminalStates: [String!]!) {
          issues(first: 50, filter: {
            project: { slugId: { eq: $projectSlug } }
            state: { name: { in: $terminalStates } }
          }) {
            nodes {
              id
              identifier
              title
              state { name }
            }
          }
        }
        ";

pub const UPDATE_MUTATION: &'static str =
    "
        mutation($issueId: String!, $stateId: String!) {
          issueUpdate(id: $issueId, input: { stateId: $stateId }) {
            success
            issue {
              id
              identifier
              state { name }
            }
          }
        }
        ";

pub const TEAM_QUERY: &'static str =
    "
        query($issueId: String!) {
          issue(id: $issueId) {
            team { id }
          }
        }
        ";

pub const WORKFLOW_STATE_QUERY: &'static str =
    "
        query($filter: WorkflowStateFilter) {
          workflowStates(first: 10, filter: $filter) {
            nodes {
              id
              name
              type
            }
          }
        }
        ";

/// Asks Linear for issues and moves them between states.
#[derive(Debug)]
pub struct LinearClient {
    pub endpoint: String,
    pub api_key: Option<String>,
    pub project_slug: String,
    pub active_states: Vec<String>,
    pub terminal_states: Vec<String>,
}

/// A Linear client by its contents.
#[verifier::ext_equal]
pub struct LinearV {
    pub endpoint: Seq<char>,
    pub api_key: Option<Seq<char>>,
    pub project_slug: Seq<char>,
    pub active_states: Seq<Seq<char>>,
    pub terminal_states: Seq<Seq<char>>,
}

impl View for LinearClient {
    type V = LinearV;

    open spec fn view(&self) -> LinearV {
        LinearV {
            endpoint: self.endpoint@,
            api_key: opt_text(self.api_key),
            project_slug: self.project_slug@,
            active_states: texts(self.active_states@),
            terminal_states: texts(self.terminal_states@),
        }
    }
}

/// Texts as a JSON list.
pub open spec fn json_texts(list: Seq<Seq<char>>) -> JsonV {
    JsonV::List(list.map_values(|s: Seq<char>| JsonV::Text(s)))
}

fn texts_json(list: &Vec<String>) -> (r: Json)
    ensures
        r@ == json_texts(texts(list@)),
{
    let mut items: Vec<Json> = Vec::new();
    let mut i: usize = 0;
    while i < list.len()
        invariant
            i <= list.len(),
            items.len() == i,
            forall|k: int| 0 <= k < i ==> (#[trigger] items@[k])@ == JsonV::Text(list@[k]@),
        decreases list.len() - i,
    {
        items.push(Json::text(list[i].as_str()));
        i = i + 1;
    }
    assert(json_list(items@) =~= texts(list@).map_values(|s: Seq<char>| JsonV::Text(s)));
    Json::list(items)
}

/// The body of a GraphQL request.
pub open spec fn graphql_body(query: Seq<char>, variables: JsonV) -> JsonV {
    JsonV::Object(seq![("query"@, JsonV::Text(query)), ("variables"@, variables)])
}

/// The request that asks a question; only with a key can one be asked.
pub open spec fn graphql_request(c: LinearV, query: Seq<char>, variables: JsonV) -> Result<
    HttpRequestV,
    TrackerErrorV,
> {
    match c.api_key {
        None => Err(TrackerErrorV::NotAuthenticated),
        Some(key) => Ok(
            HttpRequestV {
                url: c.endpoint,
                authorization: authorization(key),
                content_type: "application/json"@,
                body: json_rendered(json_stored(graphql_body(query, variables))),
            },
        ),
    }
}

/// An object with one member.
pub open spec fn json_one(key: Seq<char>, value: JsonV) -> JsonV {
    JsonV::Object(seq![(key, value)])
}

/// An object with two members.
pub open spec fn json_two(a: Seq<char>, x: JsonV, b: Seq<char>, y: JsonV) -> JsonV {
    JsonV::Object(seq![(a, x), (b, y)])
}

fn one_member(key: &str, value: Json) -> (r: Json)
    ensures
        r@ == json_one(key@, value@),
{
    let r: Json = Json::object().with(key, value);
    assert(r@->Object_0 =~= seq![(key@, value@)]);
    r
}

fn two_members(a: &str, x: Json, b: &str, y: Json) -> (r: Json)
    ensures
        r@ == json_two(a@, x@, b@, y@),
{
    let r: Json = Json::object().with(a, x).with(b, y);
    assert(r@->Object_0 =~= seq![(a@, x@), (b@, y@)]);
    r
}

/// A step of an exchange that ends with issues.
#[derive(Debug)]
pub enum FetchStep {
    /// Send this request and hand back the reply.
    Send(HttpRequest),
    /// These are the issues.
    Issues(Vec<Issue>),
    /// There are no issues to be had.
    Failed(TrackerError),
}

/// A step of an exchange by its contents.
#[verifier::ext_equal]
pub enum FetchStepV {
    Send(HttpRequestV),
    Issues(Seq<IssueV>),
    Failed(TrackerErrorV),
}

impl View for FetchStep {
    type V = FetchStepV;

    open spec fn view(&self) -> FetchStepV {
        match self {
            FetchStep::Send(r) => FetchStepV::Send(r@),
            FetchStep::Issues(list) => FetchStepV::Issues(issues(list@)),
            FetchStep::Failed(e) => FetchStepV::Failed(e@),
        }
    }
}

/// The issues in a reply.
pub open spec fn fetched(reply: HttpReplyV) -> FetchStepV {
    match reply_outcome(reply) {
        Err(e) => FetchStepV::Failed(e),
        Ok(json) => match candidate_issues(json) {
            Ok(list) => FetchStepV::Issues(list),
            Err(e) => FetchStepV::Failed(TrackerErrorV::MalformedPayload(e)),
        },
    }
}

/// A question for issues: to ask it, or, once the reply is there, what it holds.
pub open spec fn fetch_step(
    c: LinearV,
    query: Seq<char>,
    variables: JsonV,
    reply: Option<HttpReplyV>,
) -> FetchStepV {
    match reply {
        Some(r) => fetched(r),
        None => match graphql_request(c, query, variables) {
            Ok(request) => FetchStepV::Send(request),
            Err(e) => FetchStepV::Failed(e),
        },
    }
}

/// How far the move of an issue to another state has come.
#[derive(Debug)]
pub enum TransitionPhase {
    /// Nothing was asked yet.
    Start,
    /// The team of the issue was asked for.
    AskedTeam,
    /// The team's state of that name was asked for.
    AskedName { team_id: String },
    /// The team's state of the matching type was asked for.
    AskedType { team_id: String },
    /// The move was asked for.
    AskedUpdate,
}

/// How far a move has come, by its contents.
#[verifier::ext_equal]
pub enum TransitionPhaseV {
    Start,
    AskedTeam,
    AskedName { team_id: Seq<char> },
    AskedType { team_id: Seq<char> },
    AskedUpdate,
}

impl View for TransitionPhase {
    type V = TransitionPhaseV;

    open spec fn view(&self) -> TransitionPhaseV {
        match self {
            TransitionPhase::Start => TransitionPhaseV::Start,
            TransitionPhase::AskedTeam => TransitionPhaseV::AskedTeam,
            TransitionPhase::AskedName { team_id } => TransitionPhaseV::AskedName {
                team_id: team_id@,
            },
            TransitionPhase::AskedType { team_id } => TransitionPhaseV::AskedType {
                team_id: team_id@,
            },
            TransitionPhase::AskedUpdate => TransitionPhaseV::AskedUpdate,
        }
    }
}

/// A step of a move.
#[derive(Debug)]
pub enum TransitionStep {
    /// Send this request and hand back the reply with this phase.
    Send { request: HttpRequest, phase: TransitionPhase },
    /// The issue was moved.
    Moved,
    /// The issue was not moved.
    Failed(TrackerError),
}

/// A step of a move by its contents.
#[verifier::ext_equal]
pub enum TransitionStepV {
    Send { request: HttpRequestV, phase: TransitionPhaseV },
    Moved,
    Failed(TrackerErrorV),
}

impl View for TransitionStep {
    type V = TransitionStepV;

    open spec fn view(&self) -> TransitionStepV {
        match self {
            TransitionStep::Send { request, phase } => TransitionStepV::Send {
                request: request@,
                phase: phase@,
            },
            TransitionStep::Moved => TransitionStepV::Moved,
            TransitionStep::Failed(e) => TransitionStepV::Failed(e@),
        }
    }
}

/// To ask a question and come to a phase, where a question can be asked.
pub open spec fn ask(
    c: LinearV,
    query: Seq<char>,
    variables: JsonV,
    phase: TransitionPhaseV,
) -> TransitionStepV {
    match graphql_request(c, query, variables) {
        Ok(request) => TransitionStepV::Send { request, phase },
        Err(e) => TransitionStepV::Failed(e),
    }
}

/// The kind of state that a name stands for in every team.
pub open spec fn state_type(state_name: Seq<char>) -> Option<Seq<char>> {
    let name = lowercase(state_name);
    if name == "done"@ || name == "completed"@ || name == "complete"@ {
        Some("completed"@)
    } else if name == "canceled"@ || name == "cancelled"@ {
        Some("canceled"@)
    } else if name == "duplicate"@ {
        Some("duplicate"@)
    } else {
        None
    }
}

/// A filter for the states of a team.
pub open spec fn state_filter(
    key: Seq<char>,
    relation: Seq<char>,
    value: Seq<char>,
    team_id: Seq<char>,
) -> JsonV {
    json_one(
        "filter"@,
        json_two(
            key,
            json_one(relation, JsonV::Text(value)),
            "team"@,
            json_one("id"@, json_one("eq"@, JsonV::Text(team_id))),
        ),
    )
}

/// The first state in a reply.
pub open spec fn first_state(json: JsonV) -> Option<Seq<char>> {
    match list_within(
        within2(within(Some(json), "data"@), "workflowStates"@, "nodes"@),
    ) {
        Some(nodes) => if nodes.len() > 0 {
            text_within(within(Some(nodes[0]), "id"@))
        } else {
            None
        },
        None => None,
    }
}

/// The error where no state can be found.
pub open spec fn no_state(issue_id: Seq<char>, state_name: Seq<char>) -> TrackerErrorV {
    TrackerErrorV::MalformedPayload(
        "could not find workflow state '"@ + state_name + "' for issue "@ + issue_id,
    )
}

/// The variables of a move.
pub open spec fn update_variables(issue_id: Seq<char>, state_id: Seq<char>) -> JsonV {
    json_two("issueId"@, JsonV::Text(issue_id), "stateId"@, JsonV::Text(state_id))
}

/// The team in a reply.
pub open spec fn team_in(json: JsonV) -> Option<Seq<char>> {
    text_within(within2(within2(Some(json), "data"@, "issue"@), "team"@, "id"@))
}

/// Whether a reply says that the move was done.
pub open spec fn update_succeeded(json: JsonV) -> bool {
    match within(within2(Some(json), "data"@, "issueUpdate"@), "success"@) {
        Some(v) => v.as_bool() == Some(true),
        None => false,
    }
}

/// The step that follows a reply.
pub open spec fn transition_after(
    c: LinearV,
    issue_id: Seq<char>,
    state_name: Seq<char>,
    phase: TransitionPhaseV,
    json: JsonV,
) -> TransitionStepV {
    match phase {
        TransitionPhaseV::Start => ask(
            c,
            TEAM_QUERY@,
            json_one("issueId"@, JsonV::Text(issue_id)),
            TransitionPhaseV::AskedTeam,
        ),
        TransitionPhaseV::AskedTeam => match team_in(json) {
            None => TransitionStepV::Failed(
                TrackerErrorV::MalformedPayload(
                    "missing issue team in response: "@ + json_rendered(json_stored(json)),
                ),
            ),
            Some(team_id) => ask(
                c,
                WORKFLOW_STATE_QUERY@,
                state_filter("name"@, "eqIgnoreCase"@, state_name, team_id),
                TransitionPhaseV::AskedName { team_id },
            ),
        },
        TransitionPhaseV::AskedName { team_id } => match first_state(json) {
            Some(state_id) => ask(
                c,
                UPDATE_MUTATION@,
                update_variables(issue_id, state_id),
                TransitionPhaseV::AskedUpdate,
            ),
            None => match state_type(state_name) {
                Some(kind) => ask(
                    c,
                    WORKFLOW_STATE_QUERY@,
                    json_one(
                        "filter"@,
                        json_two(
                            "team"@,
                            json_one("id"@, json_one("eq"@, JsonV::Text(team_id))),
                            "type"@,
                            json_one("eq"@, JsonV::Text(kind)),
                        ),
                    ),
                    TransitionPhaseV::AskedType { team_id },
                ),
                None => TransitionStepV::Failed(no_state(issue_id, state_name)),
            },
        },
        TransitionPhaseV::AskedType { team_id } => match first_state(json) {
            Some(state_id) => ask(
                c,
                UPDATE_MUTATION@,
                update_variables(issue_id, state_id),
                TransitionPhaseV::AskedUpdate,
            ),
            None => TransitionStepV::Failed(no_state(issue_id, state_name)),
        },
        TransitionPhaseV::AskedUpdate => if update_succeeded(json) {
            TransitionStepV::Moved
        } else {
            TransitionStepV::Failed(
                TrackerErrorV::MalformedPayload(
                    "issueUpdate did not succeed: "@ + json_rendered(json_stored(json)),
                ),
            )
        },
    }
}

/// The step of a move: at the start to ask for the team, later what follows the
/// reply to the last request.
pub open spec fn transition_step(
    c: LinearV,
    issue_id: Seq<char>,
    state_name: Seq<char>,
    phase: TransitionPhaseV,
    reply: Option<HttpReplyV>,
) -> TransitionStepV {
    match reply {
        None => transition_after(
            c,
            issue_id,
            state_name,
            TransitionPhaseV::Start,
            JsonV::Null,
        ),
        Some(r) => match reply_outcome(r) {
            Err(e) => TransitionStepV::Failed(e),
            Ok(json) => transition_after(c, issue_id, state_name, phase, json),
        },
    }
}

impl LinearClient {
    /// A client for a project.
    pub fn new(
        endpoint: String,
        api_key: Option<String>,
        project_slug: String,
        active_states: Vec<String>,
        terminal_states: Vec<String>,
    ) -> (r: LinearClient)
        ensures
            r@ == (LinearV {
                endpoint: endpoint@,
                api_key: opt_text(api_key),
                project_slug: project_slug@,
                active_states: texts(active_states@),
                terminal_states: texts(terminal_states@),
            }),
    {
        LinearClient { endpoint, api_key, project_slug, active_states, terminal_states }
    }

    /// The request that asks a question; only with a key can one be asked.
    pub fn graphql_query(&self, query: &str, variables: Json) -> (r: Result<
        HttpRequest,
        TrackerError,
    >)
        ensures
            match r {
                Ok(request) => graphql_request(self@, query@, variables@) == Ok::<
                    HttpRequestV,
                    TrackerErrorV,
                >(request@) && (json_plain(graphql_body(query@, variables@), json_nesting())
                    ==> json_parsed(request.body@) == Some(graphql_body(query@, variables@))),
                Err(e) => graphql_request(self@, query@, variables@) == Err::<
                    HttpRequestV,
                    TrackerErrorV,
                >(e@),
            },
    {
        match &self.api_key {
            None => Err(TrackerError::NotAuthenticated),
            Some(key) => {
                let body: Json = two_members("query", Json::text(query), "variables", variables);
                Ok(
                    HttpRequest {
                        url: self.endpoint.clone(),
                        authorization: format_authorization_header(key.as_str()),
                        content_type: "application/json",
                        body: render_json(&body),
                    },
                )
            },
        }
    }

    fn fetch(&self, query: &str, variables: Json, reply: Option<HttpReply>) -> (r: FetchStep)
        ensures
            r@ == fetch_step(self@, query@, variables@, opt_view(reply)),
    {
        match reply {
            Some(r) => match read_reply(r) {
                Err(e) => FetchStep::Failed(e),
                Ok(json) => match parse_candidate_issues(&json) {
                    Ok(list) => FetchStep::Issues(list),
                    Err(e) => FetchStep::Failed(TrackerError::MalformedPayload(e)),
                },
            },
            None => match self.graphql_query(query, variables) {
                Ok(request) => FetchStep::Send(request),
                Err(e) => FetchStep::Failed(e),
            },
        }
    }

    /// Fetch candidate issues in active states for a project.
    pub fn fetch_candidate_issues(&self, reply: Option<HttpReply>) -> (r: FetchStep)
        ensures
            r@ == fetch_step(
                self@,
                CANDIDATE_QUERY@,
                json_two(
                    "activeStates"@,
                    json_texts(self@.active_states),
                    "projectSlug"@,
                    JsonV::Text(self@.project_slug),
                ),
                opt_view(reply),
            ),
            reply is None && self@.api_key is Some ==> exists|v: JsonV| #[trigger]
                fetch_step(self@, CANDIDATE_QUERY@, v, None) == r@ && v.get("activeStates"@)
                    == Some(json_texts(self@.active_states)) && v.get("projectSlug"@) == Some(
                    JsonV::Text(self@.project_slug),
                ),
    {
        let variables: Json = two_members(
            "activeStates",
            texts_json(&self.active_states),
            "projectSlug",
            Json::text(self.project_slug.as_str()),
        );
        proof {
            reveal_strlit("activeStates");
            reveal_strlit("projectSlug");
            assert("activeStates"@.len() != "projectSlug"@.len());
            law_variables_hold_what_was_put_in(
                "activeStates"@,
                json_texts(self@.active_states),
                "projectSlug"@,
                JsonV::Text(self@.project_slug),
                Seq::empty(),
                Seq::empty(),
                0,
            );
        }
        self.fetch(CANDIDATE_QUERY, variables, reply)
    }

    /// Fetch current states for specific issue IDs (reconciliation). For no IDs
    /// nothing is asked.
    pub fn fetch_issue_states_by_ids(&self, ids: &Vec<String>, reply: Option<HttpReply>) -> (r:
        FetchStep)
        ensures
            r@ == (if ids@.len() == 0 {
                FetchStepV::Issues(Seq::empty())
            } else {
                fetch_step(
                    self@,
                    ISSUES_BY_ID_QUERY@,
                    json_one("ids"@, json_texts(texts(ids@))),
                    opt_view(reply),
                )
            }),
            ids@.len() > 0 && reply is None && self@.api_key is Some ==> exists|v: JsonV| #[trigger]
                fetch_step(self@, ISSUES_BY_ID_QUERY@, v, None) == r@ && v.get("ids"@) == Some(
                    json_texts(texts(ids@)),
                ),
    {
        if ids.len() == 0 {
            let none: Vec<Issue> = Vec::new();
            assert(issues(none@) =~= Seq::<IssueV>::empty());
            return FetchStep::Issues(none);
        }
        let variables: Json = one_member("ids", texts_json(ids));
        proof {
            law_one_member("ids"@, json_texts(texts(ids@)));
        }
        self.fetch(ISSUES_BY_ID_QUERY, variables, reply)
    }

    /// Fetch terminal-state issues for startup cleanup.
    pub fn fetch_terminal_issues(&self, reply: Option<HttpReply>) -> (r: FetchStep)
        ensures
            r@ == fetch_step(
                self@,
                TERMINAL_QUERY@,
                json_two(
                    "projectSlug"@,
                    JsonV::Text(self@.project_slug),
                    "terminalStates"@,
                    json_texts(self@.terminal_states),
                ),
                opt_view(reply),
            ),
            reply is None && self@.api_key is Some ==> exists|v: JsonV| #[trigger]
                fetch_step(self@, TERMINAL_QUERY@, v, None) == r@ && v.get("terminalStates"@)
                    == Some(json_texts(self@.terminal_states)) && v.get("projectSlug"@) == Some(
                    JsonV::Text(self@.project_slug),
                ),
    {
        let variables: Json = two_members(
            "projectSlug",
            Json::text(self.project_slug.as_str()),
            "terminalStates",
            texts_json(&self.terminal_states),
        );
        proof {
            reveal_strlit("terminalStates");
            reveal_strlit("projectSlug");
            assert("terminalStates"@.len() != "projectSlug"@.len());
            law_variables_hold_what_was_put_in(
                "projectSlug"@,
                JsonV::Text(self@.project_slug),
                "terminalStates"@,
                json_texts(self@.terminal_states),
                Seq::empty(),
                Seq::empty(),
                0,
            );
        }
        self.fetch(TERMINAL_QUERY, variables, reply)
    }

    fn ask(&self, query: &str, variables: Json, phase: TransitionPhase) -> (r: TransitionStep)
        ensures
            r@ == ask(self@, query@, variables@, phase@),
    {
        match self.graphql_query(query, variables) {
            Ok(request) => TransitionStep::Send { request, phase },
            Err(e) => TransitionStep::Failed(e),
        }
    }

    fn ask_for_state(
        &self,
        key: &str,
        value: Json,
        team_id: String,
        by_type: bool,
    ) -> (r: TransitionStep)
        ensures
            r@ == ask(
                self@,
                WORKFLOW_STATE_QUERY@,
                json_one(
                    "filter"@,
                    if by_type {
                        json_two(
                            "team"@,
                            json_one("id"@, json_one("eq"@, JsonV::Text(team_id@))),
                            key@,
                            value@,
                        )
                    } else {
                        json_two(
                            key@,
                            value@,
                            "team"@,
                            json_one("id"@, json_one("eq"@, JsonV::Text(team_id@))),
                        )
                    },
                ),
                if by_type {
                    TransitionPhaseV::AskedType { team_id: team_id@ }
                } else {
                    TransitionPhaseV::AskedName { team_id: team_id@ }
                },
            ),
    {
        let team: Json = one_member("id", one_member("eq", Json::text(team_id.as_str())));
        if by_type {
            let filter: Json = two_members("team", team, key, value);
            self.ask(
                WORKFLOW_STATE_QUERY,
                one_member("filter", filter),
                TransitionPhase::AskedType { team_id },
            )
        } else {
            let filter: Json = two_members(key, value, "team", team);
            self.ask(
                WORKFLOW_STATE_QUERY,
                one_member("filter", filter),
                TransitionPhase::AskedName { team_id },
            )
        }
    }

    fn ask_for_update(&self, issue_id: &str, state_id: &str) -> (r: TransitionStep)
        ensures
            r@ == ask(
                self@,
                UPDATE_MUTATION@,
                update_variables(issue_id@, state_id@),
                TransitionPhaseV::AskedUpdate,
            ),
    {
        let variables: Json = two_members(
            "issueId",
            Json::text(issue_id),
            "stateId",
            Json::text(state_id),
        );
        self.ask(UPDATE_MUTATION, variables, TransitionPhase::AskedUpdate)
    }

    /// Transition an issue to a workflow state by state name, one request at a
    /// time: the issue's team, the team's state of that name or else of the kind
    /// that the name stands for, and the move itself.
    pub fn transition_issue_state(
        &self,
        issue_id: &str,
        state_name: &str,
        phase: TransitionPhase,
        reply: Option<HttpReply>,
    ) -> (r: TransitionStep)
        ensures
            r@ == transition_step(self@, issue_id@, state_name@, phase@, opt_view(reply)),
    {
        match reply {
            None => self.continue_transition(
                issue_id,
                state_name,
                TransitionPhase::Start,
                &Json::Null,
            ),
            Some(r) => match read_reply(r) {
                Err(e) => TransitionStep::Failed(e),
                Ok(json) => self.continue_transition(issue_id, state_name, phase, &json),
            },
        }
    }

    /// Goes on with a move after a JSON reply.
    pub fn continue_transition(
        &self,
        issue_id: &str,
        state_name: &str,
        phase: TransitionPhase,
        json: &Json,
    ) -> (r: TransitionStep)
        ensures
            r@ == transition_after(self@, issue_id@, state_name@, phase@, json@),
    {
        match phase {
            TransitionPhase::Start => self.ask(
                TEAM_QUERY,
                one_member("issueId", Json::text(issue_id)),
                TransitionPhase::AskedTeam,
            ),
            TransitionPhase::AskedTeam => {
                let issue: Option<&Json> = member2(Some(json), "data", "issue");
                match text_of(member2(issue, "team", "id")) {
                    None => {
                        let shown: String = render_json(json);
                        TransitionStep::Failed(
                            TrackerError::MalformedPayload(
                                concat2("missing issue team in response: ", shown.as_str()),
                            ),
                        )
                    },
                    Some(team_id) => self.ask_for_state(
                        "name",
                        one_member("eqIgnoreCase", Json::text(state_name)),
                        team_id.to_owned(),
                        false,
                    ),
                }
            },
            TransitionPhase::AskedName { team_id } => match find_workflow_state(json) {
                Some(state_id) => self.ask_for_update(issue_id, state_id),
                None => match workflow_state_type(state_name) {
                    Some(kind) => self.ask_for_state(
                        "type",
                        one_member("eq", Json::text(kind)),
                        team_id,
                        true,
                    ),
                    None => TransitionStep::Failed(missing_state(issue_id, state_name)),
                },
            },
            TransitionPhase::AskedType { team_id: _ } => match find_workflow_state(json) {
                Some(state_id) => self.ask_for_update(issue_id, state_id),
                None => TransitionStep::Failed(missing_state(issue_id, state_name)),
            },
            TransitionPhase::AskedUpdate => {
                let update: Option<&Json> = member2(Some(json), "data", "issueUpdate");
                let success: bool = match member(update, "success") {
                    Some(v) => match v.as_bool() {
                        Some(b) => b,
                        None => false,
                    },
                    None => false,
                };
                if success {
                    TransitionStep::Moved
                } else {
                    let shown: String = render_json(json);
                    TransitionStep::Failed(
                        TrackerError::MalformedPayload(
                            concat2("issueUpdate did not succeed: ", shown.as_str()),
                        ),
                    )
                }
            },
        }
    }
}

/// The kind of state that a name stands for in every team.
pub fn workflow_state_type(state_name: &str) -> (r: Option<&'static str>)
    ensures
        opt_str(r) == state_type(state_name@),
{
    let name: String = to_lowercase(state_name);
    let n: &str = name.as_str();
    if text_eq(n, "done") || text_eq(n, "completed") || text_eq(n, "complete") {
        Some("completed")
    } else if text_eq(n, "canceled") || text_eq(n, "cancelled") {
        Some("canceled")
    } else if text_eq(n, "duplicate") {
        Some("duplicate")
    } else {
        None
    }
}

/// The first state in a reply.
pub fn find_workflow_state<'a>(json: &'a Json) -> (r: Option<&'a str>)
    ensures
        opt_str(r) == first_state(json@),
{
    let states: Option<&Json> = member(member(Some(json), "data"), "workflowStates");
    match list_of(member(states, "nodes")) {
        Some(nodes) => if nodes.len() > 0 {
            assert(json_list(nodes@)[0] == nodes@[0]@);
            text_of(member(Some(&nodes[0]), "id"))
        } else {
            None
        },
        None => None,
    }
}

fn missing_state(issue_id: &str, state_name: &str) -> (r: TrackerError)
    ensures
        r@ == no_state(issue_id@, state_name@),
{
    let head: String = concat3("could not find workflow state '", state_name, "' for issue ");
    TrackerError::MalformedPayload(concat2(head.as_str(), issue_id))
}

/// An issue counts as moved only where the tracker says so in reply to the move,
/// and without a key nothing is asked at all.
pub proof fn law_moves_are_confirmed(
    c: LinearV,
    issue_id: Seq<char>,
    state_name: Seq<char>,
    phase: TransitionPhaseV,
    reply: Option<HttpReplyV>,
)
    ensures
        transition_step(c, issue_id, state_name, phase, reply) is Moved <==> phase
            == TransitionPhaseV::AskedUpdate && reply is Some && reply_outcome(reply->0) is Ok
            && update_succeeded(reply_outcome(reply->0)->Ok_0),
        c.api_key is None ==> !(transition_step(c, issue_id, state_name, phase, reply) is Send),
{
}

/// A move goes through its phases in order, so it ends after at most four requests.
pub open spec fn phase_rank(phase: TransitionPhaseV) -> int {
    match phase {
        TransitionPhaseV::Start => 0,
        TransitionPhaseV::AskedTeam => 1,
        TransitionPhaseV::AskedName { .. } => 2,
        TransitionPhaseV::AskedType { .. } => 3,
        TransitionPhaseV::AskedUpdate => 4,
    }
}

/// Each reply takes a move to a later phase or to its end.
pub proof fn law_moves_end(
    c: LinearV,
    issue_id: Seq<char>,
    state_name: Seq<char>,
    phase: TransitionPhaseV,
    json: JsonV,
)
    ensures
        transition_after(c, issue_id, state_name, phase, json) matches TransitionStepV::Send {
            phase: next,
            ..
        } ==> phase_rank(phase) < phase_rank(next) <= 4,
{
}

// ── Tracker in memory ───────────────────────────────────────────────────────

/// A tracker that holds its issues itself.
#[derive(Debug)]
pub struct MockTracker {
    pub issues: Vec<Issue>,
}

/// The issues that a condition picks, in their order.
pub open spec fn picked(list: Seq<IssueV>, keep: spec_fn(IssueV) -> bool) -> Seq<IssueV>
    decreases list.len(),
{
    if list.len() == 0 {
        Seq::empty()
    } else if keep(list.last()) {
        picked(list.drop_last(), keep).push(list.last())
    } else {
        picked(list.drop_last(), keep)
    }
}

/// The states that count as active in the tracker in memory.
pub open spec fn mock_active_states() -> Seq<Seq<char>> {
    seq!["Todo"@, "In Progress"@]
}

/// The states that count as terminal in the tracker in memory.
pub open spec fn mock_terminal_states() -> Seq<Seq<char>> {
    seq!["Closed"@, "Cancelled"@, "Canceled"@, "Duplicate"@, "Done"@]
}

fn contains_text(list: &Vec<String>, s: &str) -> (r: bool)
    ensures
        r == texts(list@).contains(s@),
{
    let mut i: usize = 0;
    while i < list.len()
        invariant
            i <= list.len(),
            forall|k: int| 0 <= k < i ==> #[trigger] texts(list@)[k] != s@,
        decreases list.len() - i,
    {
        assert(texts(list@)[i as int] == list@[i as int]@);
        if text_eq(list[i].as_str(), s) {
            assert(texts(list@).contains(s@));
            return true;
        }
        i = i + 1;
    }
    false
}

impl MockTracker {
    /// A tracker with these issues.
    pub fn new(issues: Vec<Issue>) -> (r: MockTracker)
        ensures
            r.issues == issues,
    {
        MockTracker { issues }
    }

    fn in_states(&self, states: &Vec<String>) -> (r: Vec<Issue>)
        ensures
            issues(r@) == picked(
                issues(self.issues@),
                |i: IssueV| crate::text::listed(i.state, texts(states@)),
            ),
    {
        let ghost keep = |i: IssueV| crate::text::listed(i.state, texts(states@));
        let mut r: Vec<Issue> = Vec::new();
        let mut i: usize = 0;
        assert(issues(r@) =~= Seq::<IssueV>::empty());
        assert(issues(self.issues@).take(0) =~= Seq::<IssueV>::empty());
        while i < self.issues.len()
            invariant
                i <= self.issues.len(),
                keep == (|i: IssueV| crate::text::listed(i.state, texts(states@))),
                issues(r@) == picked(issues(self.issues@).take(i as int), keep),
            decreases self.issues.len() - i,
        {
            let ghost upto = issues(self.issues@).take(i + 1);
            assert(upto.drop_last() =~= issues(self.issues@).take(i as int));
            assert(upto.last() == self.issues@[i as int]@);
            if self.issues[i].is_active(states) {
                let ghost before = issues(r@);
                let copy: Issue = self.issues[i].clone();
                r.push(copy);
                assert(issues(r@) =~= before.push(copy@));
            }
            i = i + 1;
        }
        assert(issues(self.issues@).take(self.issues.len() as int) =~= issues(self.issues@));
        r
    }

    /// The issues in active states.
    pub fn fetch_candidate_issues(&self) -> (r: Vec<Issue>)
        ensures
            issues(r@) == picked(
                issues(self.issues@),
                |i: IssueV| crate::text::listed(i.state, mock_active_states()),
            ),
            forall|issue: IssueV| #[trigger]
                issues(r@).contains(issue) <==> issues(self.issues@).contains(issue) && (lowercase(
                    issue.state,
                ) == lowercase("Todo"@) || lowercase(issue.state) == lowercase("In Progress"@)),
    {
        proof {
            let keep = |i: IssueV| crate::text::listed(i.state, mock_active_states());
            assert forall|issue: IssueV| #[trigger]
                picked(issues(self.issues@), keep).contains(issue) <==> issues(
                self.issues@,
            ).contains(issue) && (lowercase(issue.state) == lowercase("Todo"@) || lowercase(
                issue.state,
            ) == lowercase("In Progress"@)) by {
                law_picked_issues(issues(self.issues@), keep, issue);
                law_listed_states_in_memory(issue.state);
            }
        }
        let active: Vec<String> = vec!["Todo".to_owned(), "In Progress".to_owned()];
        assert(texts(active@) =~= mock_active_states());
        self.in_states(&active)
    }

    /// The issues with these IDs.
    pub fn fetch_issue_states_by_ids(&self, ids: &Vec<String>) -> (r: Vec<Issue>)
        ensures
            issues(r@) == picked(issues(self.issues@), |i: IssueV| texts(ids@).contains(i.id)),
            forall|issue: IssueV| #[trigger]
                issues(r@).contains(issue) <==> issues(self.issues@).contains(issue) && texts(
                    ids@,
                ).contains(issue.id),
    {
        let ghost keep = |i: IssueV| texts(ids@).contains(i.id);
        proof {
            assert forall|issue: IssueV| #[trigger]
                picked(issues(self.issues@), keep).contains(issue) <==> issues(
                self.issues@,
            ).contains(issue) && texts(ids@).contains(issue.id) by {
                law_picked_issues(issues(self.issues@), keep, issue);
            }
        }
        let mut r: Vec<Issue> = Vec::new();
        let mut i: usize = 0;
        assert(issues(r@) =~= Seq::<IssueV>::empty());
        assert(issues(self.issues@).take(0) =~= Seq::<IssueV>::empty());
        while i < self.issues.len()
            invariant
                i <= self.issues.len(),
                keep == (|i: IssueV| texts(ids@).contains(i.id)),
                issues(r@) == picked(issues(self.issues@).take(i as int), keep),
            decreases self.issues.len() - i,
        {
            let ghost upto = issues(self.issues@).take(i + 1);
            assert(upto.drop_last() =~= issues(self.issues@).take(i as int));
            assert(upto.last() == self.issues@[i as int]@);
            if contains_text(ids, self.issues[i].id.as_str()) {
                let ghost before = issues(r@);
                let copy: Issue = self.issues[i].clone();
                r.push(copy);
                assert(issues(r@) =~= before.push(copy@));
            }
            i = i + 1;
        }
        assert(issues(self.issues@).take(self.issues.len() as int) =~= issues(self.issues@));
        r
    }

    /// The issues in terminal states.
    pub fn fetch_terminal_issues(&self) -> (r: Vec<Issue>)
        ensures
            issues(r@) == picked(
                issues(self.issues@),
                |i: IssueV| crate::text::listed(i.state, mock_terminal_states()),
            ),
            forall|issue: IssueV| #[trigger]
                issues(r@).contains(issue) <==> issues(self.issues@).contains(issue) && (lowercase(
                    issue.state,
                ) == lowercase("Closed"@) || lowercase(issue.state) == lowercase("Cancelled"@)
                    || lowercase(issue.state) == lowercase("Canceled"@) || lowercase(issue.state)
                    == lowercase("Duplicate"@) || lowercase(issue.state) == lowercase("Done"@)),
    {
        proof {
            let keep = |i: IssueV| crate::text::listed(i.state, mock_terminal_states());
            assert forall|issue: IssueV| #[trigger]
                picked(issues(self.issues@), keep).contains(issue) <==> issues(
                self.issues@,
            ).contains(issue) && (lowercase(issue.state) == lowercase("Closed"@) || lowercase(
                issue.state,
            ) == lowercase("Cancelled"@) || lowercase(issue.state) == lowercase("Canceled"@)
                || lowercase(issue.state) == lowercase("Duplicate"@) || lowercase(issue.state)
                == lowercase("Done"@)) by {
                law_picked_issues(issues(self.issues@), keep, issue);
                law_listed_states_in_memory(issue.state);
            }
        }
        let terminal: Vec<String> = vec![
            "Closed".to_owned(),
            "Cancelled".to_owned(),
            "Canceled".to_owned(),
            "Duplicate".to_owned(),
            "Done".to_owned(),
        ];
        assert(texts(terminal@) =~= mock_terminal_states());
        self.in_states(&terminal)
    }
}

// ── Laws of requests ────────────────────────────────────────────────────────

proof fn lemma_texts_plain(list: Seq<Seq<char>>, limit: nat)
    requires
        limit > 0,
    ensures
        json_plain(json_texts(list), limit),
{
    let items = list.map_values(|s: Seq<char>| JsonV::Text(s));
    assert forall|i: int| 0 <= i < items.len() implies json_plain(
        #[trigger] items[i],
        (limit - 1) as nat,
    ) by {}
}

proof fn lemma_one_plain(key: Seq<char>, value: JsonV, limit: nat)
    requires
        limit > 0,
        json_plain(value, (limit - 1) as nat),
    ensures
        json_plain(json_one(key, value), limit),
{
}

proof fn lemma_two_plain(a: Seq<char>, x: JsonV, b: Seq<char>, y: JsonV, limit: nat)
    requires
        limit > 0,
        json_plain(x, (limit - 1) as nat),
        json_plain(y, (limit - 1) as nat),
        text_le(a, b),
        a != b,
    ensures
        json_plain(json_two(a, x, b, y), limit),
{
}

proof fn lemma_body_plain(query: Seq<char>, variables: JsonV)
    requires
        json_plain(variables, (json_nesting() - 1) as nat),
    ensures
        json_plain(graphql_body(query, variables), json_nesting()),
{
    reveal_strlit("query");
    reveal_strlit("variables");
    reveal_with_fuel(text_le, 2);
    lemma_two_plain("query"@, JsonV::Text(query), "variables"@, variables, json_nesting());
}

/// Every question is plain, whatever the names in it: the tracker reads from the
/// request exactly the question and the variables that were meant.
pub proof fn law_questions_are_plain(
    query: Seq<char>,
    states: Seq<Seq<char>>,
    slug: Seq<char>,
    ids: Seq<Seq<char>>,
    issue_id: Seq<char>,
    state_id: Seq<char>,
    name: Seq<char>,
    team_id: Seq<char>,
)
    ensures
        json_plain(
            graphql_body(
                query,
                json_two(
                    "activeStates"@,
                    json_texts(states),
                    "projectSlug"@,
                    JsonV::Text(slug),
                ),
            ),
            json_nesting(),
        ),
        json_plain(
            graphql_body(
                query,
                json_two(
                    "projectSlug"@,
                    JsonV::Text(slug),
                    "terminalStates"@,
                    json_texts(states),
                ),
            ),
            json_nesting(),
        ),
        json_plain(graphql_body(query, json_one("ids"@, json_texts(ids))), json_nesting()),
        json_plain(
            graphql_body(query, json_one("issueId"@, JsonV::Text(issue_id))),
            json_nesting(),
        ),
        json_plain(graphql_body(query, update_variables(issue_id, state_id)), json_nesting()),
        json_plain(
            graphql_body(query, state_filter("name"@, "eqIgnoreCase"@, name, team_id)),
            json_nesting(),
        ),
        json_plain(
            graphql_body(
                query,
                json_one(
                    "filter"@,
                    json_two(
                        "team"@,
                        json_one("id"@, json_one("eq"@, JsonV::Text(team_id))),
                        "type"@,
                        json_one("eq"@, JsonV::Text(name)),
                    ),
                ),
            ),
            json_nesting(),
        ),
{
    reveal_strlit("activeStates");
    reveal_strlit("projectSlug");
    reveal_strlit("terminalStates");
    reveal_strlit("issueId");
    reveal_strlit("stateId");
    reveal_strlit("name");
    reveal_strlit("team");
    reveal_strlit("type");
    reveal_with_fuel(text_le, 3);
    lemma_texts_plain(states, 98);
    lemma_texts_plain(ids, 98);
    lemma_two_plain(
        "activeStates"@,
        json_texts(states),
        "projectSlug"@,
        JsonV::Text(slug),
        99,
    );
    lemma_body_plain(
        query,
        json_two("activeStates"@, json_texts(states), "projectSlug"@, JsonV::Text(slug)),
    );
    lemma_two_plain(
        "projectSlug"@,
        JsonV::Text(slug),
        "terminalStates"@,
        json_texts(states),
        99,
    );
    lemma_body_plain(
        query,
        json_two("projectSlug"@, JsonV::Text(slug), "terminalStates"@, json_texts(states)),
    );
    lemma_one_plain("ids"@, json_texts(ids), 99);
    lemma_body_plain(query, json_one("ids"@, json_texts(ids)));
    lemma_one_plain("issueId"@, JsonV::Text(issue_id), 99);
    lemma_body_plain(query, json_one("issueId"@, JsonV::Text(issue_id)));
    lemma_two_plain("issueId"@, JsonV::Text(issue_id), "stateId"@, JsonV::Text(state_id), 99);
    lemma_body_plain(query, update_variables(issue_id, state_id));
    let team = json_one("id"@, json_one("eq"@, JsonV::Text(team_id)));
    lemma_one_plain("eq"@, JsonV::Text(team_id), 96);
    lemma_one_plain("id"@, json_one("eq"@, JsonV::Text(team_id)), 97);
    lemma_one_plain("eqIgnoreCase"@, JsonV::Text(name), 97);
    lemma_two_plain("name"@, json_one("eqIgnoreCase"@, JsonV::Text(name)), "team"@, team, 98);
    lemma_one_plain(
        "filter"@,
        json_two("name"@, json_one("eqIgnoreCase"@, JsonV::Text(name)), "team"@, team),
        99,
    );
    lemma_body_plain(query, state_filter("name"@, "eqIgnoreCase"@, name, team_id));
    lemma_one_plain("eq"@, JsonV::Text(name), 97);
    lemma_two_plain("team"@, team, "type"@, json_one("eq"@, JsonV::Text(name)), 98);
    lemma_one_plain(
        "filter"@,
        json_two("team"@, team, "type"@, json_one("eq"@, JsonV::Text(name))),
        99,
    );
    lemma_body_plain(
        query,
        json_one(
            "filter"@,
            json_two("team"@, team, "type"@, json_one("eq"@, JsonV::Text(name))),
        ),
    );
}

// ── Laws of replies ─────────────────────────────────────────────────────────

/// Whether a path leads to this text, or to none.
pub open spec fn tells(j: JsonV, path: Seq<Seq<char>>, text: Option<Seq<char>>) -> bool {
    match text {
        Some(s) => says(j, path, s),
        None => says_nothing(j, path),
    }
}

/// Every node gives an issue, in its place: as many issues as nodes, and each is what its
/// node holds. Where a node is faulty there are no issues but the fault of the first such
/// node.
pub proof fn law_every_node_is_an_issue(nodes: Seq<JsonV>, k: int)
    ensures
        issues_in(nodes) matches Ok(list) ==> list.len() == nodes.len(),
        issues_in(nodes) matches Ok(list) ==> (0 <= k < nodes.len() ==> issue_in(nodes[k]) == Ok::<
            IssueV,
            Seq<char>,
        >(list[k])),
        (forall|i: int| 0 <= i < nodes.len() ==> issue_in(#[trigger] nodes[i]) is Ok)
            ==> issues_in(nodes) is Ok,
        0 <= k < nodes.len() && issue_in(nodes[k]) is Err && (forall|i: int|
            0 <= i < k ==> issue_in(#[trigger] nodes[i]) is Ok) ==> issues_in(nodes) == Err::<
            Seq<IssueV>,
            Seq<char>,
        >(issue_in(nodes[k])->Err_0),
    decreases nodes.len(),
{
    if nodes.len() > 0 {
        let before = nodes.drop_last();
        law_every_node_is_an_issue(before, k);
        if k == nodes.len() - 1 {
            law_every_node_is_an_issue(before, 0);
        }
        if forall|i: int| 0 <= i < nodes.len() ==> issue_in(#[trigger] nodes[i]) is Ok {
            assert forall|i: int| 0 <= i < before.len() implies issue_in(
                #[trigger] before[i],
            ) is Ok by {
                assert(before[i] == nodes[i]);
            }
            assert(issue_in(nodes[nodes.len() - 1]) is Ok);
        }
        if 0 <= k < nodes.len() && issue_in(nodes[k]) is Err && (forall|i: int|
            0 <= i < k ==> issue_in(#[trigger] nodes[i]) is Ok) {
            assert forall|i: int| 0 <= i < k implies issue_in(#[trigger] before[i]) is Ok by {
                assert(before[i] == nodes[i]);
            }
            if k < before.len() {
                assert(before[k] == nodes[k]);
            }
        }
        if 0 <= k < before.len() {
            assert(before[k] == nodes[k]);
        }
    }
}

/// An issue is what its node says: its id, identifier and title, without which it is no
/// issue; its description, branch and address where the node has them; its state, which
/// is unknown where the node names none; its priority; and its times.
pub proof fn law_issues_are_what_their_nodes_say(node: JsonV)
    ensures
        says_nothing(node, seq!["id"@]) ==> issue_in(node) == Err::<IssueV, Seq<char>>(
            "missing id"@,
        ),
        !says_nothing(node, seq!["id"@]) && says_nothing(node, seq!["identifier"@]) ==> issue_in(
            node,
        ) == Err::<IssueV, Seq<char>>("missing identifier"@),
        !says_nothing(node, seq!["id"@]) && !says_nothing(node, seq!["identifier"@])
            && says_nothing(node, seq!["title"@]) ==> issue_in(node) == Err::<IssueV, Seq<char>>(
            "missing title"@,
        ),
        !says_nothing(node, seq!["id"@]) && !says_nothing(node, seq!["identifier"@])
            && !says_nothing(node, seq!["title"@]) ==> issue_in(node) is Ok,
        issue_in(node) matches Ok(issue) ==> {
            &&& says(node, seq!["id"@], issue.id)
            &&& says(node, seq!["identifier"@], issue.identifier)
            &&& says(node, seq!["title"@], issue.title)
            &&& tells(node, seq!["description"@], issue.description)
            &&& tells(node, seq!["branchName"@], issue.branch_name)
            &&& tells(node, seq!["url"@], issue.url)
            &&& says(node, seq!["state"@, "name"@], issue.state) || (issue.state == "Unknown"@
                && says_nothing(node, seq!["state"@, "name"@]))
            &&& match at_path(node, seq!["priority"@]) {
                Some(p) => issue.priority == p.as_i32(),
                None => issue.priority is None,
            }
            &&& match at_path(node, seq!["createdAt"@]) {
                Some(JsonV::Text(t)) => issue.created_at == rfc3339_time(t),
                _ => issue.created_at is None,
            }
            &&& match at_path(node, seq!["updatedAt"@]) {
                Some(JsonV::Text(t)) => issue.updated_at == rfc3339_time(t),
                _ => issue.updated_at is None,
            }
        },
{
    let x = ""@;
    lemma_at_path(node, "id"@, x, x, x);
    lemma_at_path(node, "identifier"@, x, x, x);
    lemma_at_path(node, "title"@, x, x, x);
    lemma_at_path(node, "description"@, x, x, x);
    lemma_at_path(node, "branchName"@, x, x, x);
    lemma_at_path(node, "url"@, x, x, x);
    lemma_at_path(node, "state"@, "name"@, x, x);
    lemma_at_path(node, "priority"@, x, x, x);
    lemma_at_path(node, "createdAt"@, x, x, x);
    lemma_at_path(node, "updatedAt"@, x, x, x);
}

/// The labels of an issue are those of its node's list, one after the other: the name of
/// each in small letters, and nothing for one without a name.
pub proof fn law_labels(node: JsonV, a: Seq<JsonV>, b: Seq<JsonV>, label: JsonV)
    ensures
        issue_in(node) matches Ok(issue) ==> match at_path(node, seq!["labels"@, "nodes"@]) {
            Some(JsonV::List(list)) => issue.labels == label_names(list),
            _ => issue.labels.len() == 0,
        },
        label_names(a + b) == label_names(a) + label_names(b),
        label_names(seq![label]) == (match at_path(label, seq!["name"@]) {
            Some(JsonV::Text(name)) => seq![lowercase(name)],
            _ => Seq::<Seq<char>>::empty(),
        }),
        label_names(Seq::empty()).len() == 0,
    decreases b.len(),
{
    let x = ""@;
    lemma_at_path(node, "labels"@, "nodes"@, x, x);
    lemma_at_path(label, "name"@, x, x, x);
    reveal_with_fuel(label_names, 2);
    assert(seq![label].drop_last() =~= Seq::<JsonV>::empty());
    assert(Seq::<Seq<char>>::empty().push(lowercase(text_within(label.get("name"@))->0))
        =~= seq![lowercase(text_within(label.get("name"@))->0)]);
    if b.len() == 0 {
        assert(a + b =~= a);
        assert(label_names(a) + label_names(b) =~= label_names(a));
    } else {
        law_labels(node, a, b.drop_last(), label);
        assert((a + b).drop_last() =~= a + b.drop_last());
        assert((a + b).last() == b.last());
        assert(label_names(a + b) =~= label_names(a) + label_names(b));
    }
}

/// The blockers of an issue are those of its node's relations, one after the other: a
/// relation gives one exactly where it is of the kind that blocks and the issue is the
/// one it relates to, and the blocker is the other issue, as far as the relation names it.
pub proof fn law_blockers(
    node: JsonV,
    a: Seq<JsonV>,
    b: Seq<JsonV>,
    relation: JsonV,
    id: Seq<char>,
)
    ensures
        issue_in(node) matches Ok(issue) ==> match at_path(node, seq!["relations"@, "nodes"@]) {
            Some(JsonV::List(list)) => issue.blocked_by == blockers_in(list, issue.id),
            _ => issue.blocked_by.len() == 0,
        },
        blockers_in(a + b, id) == blockers_in(a, id) + blockers_in(b, id),
        blockers_in(Seq::empty(), id).len() == 0,
        says(relation, seq!["type"@], "blocks"@) && says(relation, seq!["relatedIssue"@, "id"@], id)
            ==> {
            let found = blockers_in(seq![relation], id);
            &&& found.len() == 1
            &&& tells(relation, seq!["issue"@, "id"@], found[0].id)
            &&& tells(relation, seq!["issue"@, "identifier"@], found[0].identifier)
            &&& tells(relation, seq!["issue"@, "state"@, "name"@], found[0].state)
        },
        !says(relation, seq!["type"@], "blocks"@) || !says(
            relation,
            seq!["relatedIssue"@, "id"@],
            id,
        ) ==> blockers_in(seq![relation], id).len() == 0,
    decreases b.len(),
{
    let x = ""@;
    lemma_at_path(node, "relations"@, "nodes"@, x, x);
    lemma_at_path(relation, "type"@, x, x, x);
    lemma_at_path(relation, "relatedIssue"@, "id"@, x, x);
    lemma_at_path(relation, "issue"@, "id"@, x, x);
    lemma_at_path(relation, "issue"@, "identifier"@, x, x);
    lemma_at_path(relation, "issue"@, "state"@, "name"@, x);
    reveal_with_fuel(blockers_in, 2);
    assert(seq![relation].drop_last() =~= Seq::<JsonV>::empty());
    if b.len() == 0 {
        assert(a + b =~= a);
        assert(blockers_in(a, id) + blockers_in(b, id) =~= blockers_in(a, id));
    } else {
        law_blockers(node, a, b.drop_last(), relation, id);
        assert((a + b).drop_last() =~= a + b.drop_last());
        assert((a + b).last() == b.last());
        assert(blockers_in(a + b, id) =~= blockers_in(a, id) + blockers_in(b, id));
    }
}

/// A reply holds its issues in its project's list of issues or, where it has none, in its
/// own; a reply with neither is quoted as unexpected.
pub proof fn law_where_issues_are(reply: JsonV)
    ensures
        match at_path(reply, seq!["data"@, "project"@, "issues"@, "nodes"@]) {
            Some(JsonV::List(nodes)) => candidate_issues(reply) == issues_in(nodes),
            Some(_) => candidate_issues(reply) == Err::<Seq<IssueV>, Seq<char>>(
                "unexpected response shape: "@ + json_rendered(json_stored(reply)),
            ),
            None => match at_path(reply, seq!["data"@, "issues"@, "nodes"@]) {
                Some(JsonV::List(nodes)) => candidate_issues(reply) == issues_in(nodes),
                _ => candidate_issues(reply) == Err::<Seq<IssueV>, Seq<char>>(
                    "unexpected response shape: "@ + json_rendered(json_stored(reply)),
                ),
            },
        },
{
    lemma_at_path(reply, "data"@, "project"@, "issues"@, "nodes"@);
    lemma_at_path(reply, "data"@, "issues"@, "nodes"@, ""@);
}

/// What comes back for a question: nothing was sent, and why; a status outside the two
/// hundreds, with the beginning of the body; a body that cannot be read or is no JSON; the
/// errors that the body speaks of; and else the issues of the body.
pub proof fn law_replies_are_taken_at_their_word(
    c: LinearV,
    query: Seq<char>,
    variables: JsonV,
    code: u16,
    status: Seq<char>,
    text: Seq<char>,
    e: Seq<char>,
)
    ensures
        fetch_step(c, query, variables, Some(HttpReplyV::NotSent(e))) == FetchStepV::Failed(
            TrackerErrorV::HttpError(e),
        ),
        !(200 <= code <= 299) && text.len() <= 1024 ==> fetch_step(
            c,
            query,
            variables,
            Some(HttpReplyV::Received { code, status, body: Ok(text) }),
        ) == FetchStepV::Failed(TrackerErrorV::HttpStatus { status, body: text }),
        !(200 <= code <= 299) && text.len() > 1024 ==> fetch_step(
            c,
            query,
            variables,
            Some(HttpReplyV::Received { code, status, body: Ok(text) }),
        ) == FetchStepV::Failed(
            TrackerErrorV::HttpStatus { status, body: text.take(1024) + "..."@ },
        ),
        !(200 <= code <= 299) ==> fetch_step(
            c,
            query,
            variables,
            Some(HttpReplyV::Received { code, status, body: Err(e) }),
        ) == FetchStepV::Failed(
            TrackerErrorV::HttpStatus {
                status,
                body: truncated_body("<failed to read response body: "@ + e + ">"@, 1024),
            },
        ),
        200 <= code <= 299 ==> fetch_step(
            c,
            query,
            variables,
            Some(HttpReplyV::Received { code, status, body: Err(e) }),
        ) == FetchStepV::Failed(TrackerErrorV::HttpError(e)),
        200 <= code <= 299 ==> {
            let step = fetch_step(
                c,
                query,
                variables,
                Some(HttpReplyV::Received { code, status, body: Ok(text) }),
            );
            match json_parsed(text) {
                None => step == FetchStepV::Failed(
                    TrackerErrorV::HttpError("error decoding response body"@),
                ),
                Some(json) => match json.get("errors"@) {
                    Some(errors) => step == FetchStepV::Failed(
                        TrackerErrorV::GraphQLError(json_rendered(json_stored(errors))),
                    ),
                    None => match candidate_issues(json) {
                        Ok(list) => step == FetchStepV::Issues(list),
                        Err(fault) => step == FetchStepV::Failed(
                            TrackerErrorV::MalformedPayload(fault),
                        ),
                    },
                },
            }
        },
{
}

/// A text is cut off behind its first characters, and only where it is longer.
pub proof fn law_long_bodies_are_cut_off(body: Seq<char>, max_chars: nat)
    ensures
        body.len() <= max_chars ==> truncated_body(body, max_chars) == body,
        body.len() > max_chars ==> truncated_body(body, max_chars) == body.take(max_chars as int)
            + "..."@,
{
}

/// A key that says what it is goes as it is, any other behind the word for a bearer.
pub proof fn law_keys(api_key: Seq<char>)
    ensures
        api_key.len() >= 7 && api_key.take(7) == "Bearer "@ ==> authorization(api_key) == api_key,
        api_key.len() >= 8 && api_key.take(8) == "lin_api_"@ ==> authorization(api_key) == api_key,
        !(api_key.len() >= 7 && api_key.take(7) == "Bearer "@) && !(api_key.len() >= 8
            && api_key.take(8) == "lin_api_"@) ==> authorization(api_key) == "Bearer "@ + api_key,
{
    reveal_strlit("Bearer ");
    reveal_strlit("lin_api_");
    assert("Bearer "@.len() == 7);
    assert("lin_api_"@.len() == 8);
    if "Bearer "@.is_prefix_of(api_key) {
        assert(api_key.take(7) =~= "Bearer "@);
    }
    if "lin_api_"@.is_prefix_of(api_key) {
        assert(api_key.take(8) =~= "lin_api_"@);
    }
    if api_key.len() >= 7 && api_key.take(7) == "Bearer "@ {
        assert("Bearer "@ =~= api_key.subrange(0, 7));
    }
    if api_key.len() >= 8 && api_key.take(8) == "lin_api_"@ {
        assert("lin_api_"@ =~= api_key.subrange(0, 8));
    }
}

/// A question goes to the endpoint, with the key, as JSON that holds the question and
/// its variables; without a key none is asked.
pub proof fn law_questions_are_asked_with_the_key(
    c: LinearV,
    query: Seq<char>,
    variables: JsonV,
    key: Seq<char>,
)
    ensures
        c.api_key is None ==> fetch_step(c, query, variables, None) == FetchStepV::Failed(
            TrackerErrorV::NotAuthenticated,
        ),
        c.api_key == Some(key) ==> {
            let step = fetch_step(c, query, variables, None);
            let body = JsonV::object().with("query"@, JsonV::Text(query)).with(
                "variables"@,
                variables,
            );
            &&& step is Send
            &&& step->Send_0.url == c.endpoint
            &&& step->Send_0.authorization == authorization(key)
            &&& step->Send_0.content_type == "application/json"@
            &&& step->Send_0.body == json_rendered(json_stored(body))
            &&& json_stored(body).get("query"@) == Some(JsonV::Text(query))
            &&& json_stored(body).get("variables"@) == Some(json_stored(variables))
        },
{
    let first = JsonV::object().with("query"@, JsonV::Text(query));
    reveal_strlit("query");
    reveal_strlit("variables");
    assert("query"@.len() != "variables"@.len());
    law_the_last_member_is_stored(JsonV::object(), "query"@, JsonV::Text(query), "query"@);
    law_the_last_member_is_stored(first, "variables"@, variables, "query"@);
    law_plain_values_are_stored(query, true, 0, Seq::empty(), 0);
    let members = first->Object_0.push(("variables"@, variables));
    assert(members =~= seq![("query"@, JsonV::Text(query)), ("variables"@, variables)]);
}

/// The variables of a question hold what was put in under its name and nothing else.
pub proof fn law_variables_hold_what_was_put_in(
    a: Seq<char>,
    x: JsonV,
    b: Seq<char>,
    y: JsonV,
    name: Seq<char>,
    list: Seq<Seq<char>>,
    i: int,
)
    requires
        a != b,
    ensures
        json_one(a, x).get(a) == Some(x),
        name != a ==> json_one(a, x).get(name) is None,
        json_two(a, x, b, y).get(a) == Some(x),
        json_two(a, x, b, y).get(b) == Some(y),
        name != a && name != b ==> json_two(a, x, b, y).get(name) is None,
        json_texts(list) is List,
        json_texts(list)->List_0.len() == list.len(),
        0 <= i < list.len() ==> json_texts(list)->List_0[i] == JsonV::Text(list[i]),
{
    reveal_with_fuel(crate::json::find_member, 3);
    let one = seq![(a, x)];
    let two = seq![(a, x), (b, y)];
    assert(one.drop_first() =~= Seq::<(Seq<char>, JsonV)>::empty());
    assert(two.drop_first() =~= seq![(b, y)]);
    assert(seq![(b, y)].drop_first() =~= Seq::<(Seq<char>, JsonV)>::empty());
}

/// The states of a team are asked for with the team, and with the name or the kind; a
/// move is asked for with the issue and the state.
pub proof fn law_filters_and_moves(
    key: Seq<char>,
    relation: Seq<char>,
    value: Seq<char>,
    team_id: Seq<char>,
    issue_id: Seq<char>,
    state_id: Seq<char>,
)
    requires
        key != "team"@,
    ensures
        says(state_filter(key, relation, value, team_id), seq!["filter"@, key, relation], value),
        says(
            state_filter(key, relation, value, team_id),
            seq!["filter"@, "team"@, "id"@, "eq"@],
            team_id,
        ),
        says(update_variables(issue_id, state_id), seq!["issueId"@], issue_id),
        says(update_variables(issue_id, state_id), seq!["stateId"@], state_id),
{
    let filter = state_filter(key, relation, value, team_id);
    let team = json_one("id"@, json_one("eq"@, JsonV::Text(team_id)));
    let wish = json_one(relation, JsonV::Text(value));
    let update = update_variables(issue_id, state_id);
    let no: Seq<Seq<char>> = Seq::empty();
    lemma_at_path(filter, "filter"@, key, relation, ""@);
    lemma_at_path(filter, "filter"@, "team"@, "id"@, "eq"@);
    lemma_at_path(update, "issueId"@, ""@, ""@, ""@);
    lemma_at_path(update, "stateId"@, ""@, ""@, ""@);
    reveal_strlit("issueId");
    reveal_strlit("stateId");
    assert("issueId"@[0] == 'i' && "stateId"@[0] == 's');
    law_variables_hold_what_was_put_in(key, wish, "team"@, team, key, no, 0);
    law_one_member("filter"@, json_two(key, wish, "team"@, team));
    law_one_member(relation, JsonV::Text(value));
    law_one_member("id"@, json_one("eq"@, JsonV::Text(team_id)));
    law_one_member("eq"@, JsonV::Text(team_id));
    law_variables_hold_what_was_put_in(
        "issueId"@,
        JsonV::Text(issue_id),
        "stateId"@,
        JsonV::Text(state_id),
        "issueId"@,
        no,
        0,
    );
}

/// An object with one member holds it.
pub proof fn law_one_member(key: Seq<char>, value: JsonV)
    ensures
        json_one(key, value).get(key) == Some(value),
{
}

/// Whether a reply names a state first.
pub open spec fn names_state(json: JsonV, state_id: Seq<char>) -> bool {
    match at_path(json, seq!["data"@, "workflowStates"@, "nodes"@]) {
        Some(JsonV::List(nodes)) => nodes.len() > 0 && says(nodes[0], seq!["id"@], state_id),
        _ => false,
    }
}

/// A move asks for the issue's team, then for the team's state of that name, then for the
/// move to the first state that was named; where none of that name is there and the name
/// stands for a kind, for the team's state of that kind; and it is done where the tracker
/// says so.
pub proof fn law_moves(
    c: LinearV,
    key: Seq<char>,
    issue_id: Seq<char>,
    state_name: Seq<char>,
    team_id: Seq<char>,
    state_id: Seq<char>,
    json: JsonV,
)
    requires
        c.api_key == Some(key),
    ensures
        ({
            let step = transition_step(c, issue_id, state_name, TransitionPhaseV::Start, None);
            &&& step is Send
            &&& step->request == graphql_request(
                c,
                TEAM_QUERY@,
                json_one("issueId"@, JsonV::Text(issue_id)),
            )->Ok_0
            &&& step->phase == TransitionPhaseV::AskedTeam
        }),
        says(json, seq!["data"@, "issue"@, "team"@, "id"@], team_id) ==> {
            let step = transition_after(
                c,
                issue_id,
                state_name,
                TransitionPhaseV::AskedTeam,
                json,
            );
            &&& step is Send
            &&& step->request == graphql_request(
                c,
                WORKFLOW_STATE_QUERY@,
                state_filter("name"@, "eqIgnoreCase"@, state_name, team_id),
            )->Ok_0
            &&& step->phase == (TransitionPhaseV::AskedName { team_id })
        },
        says_nothing(json, seq!["data"@, "issue"@, "team"@, "id"@]) ==> transition_after(
            c,
            issue_id,
            state_name,
            TransitionPhaseV::AskedTeam,
            json,
        ) == TransitionStepV::Failed(
            TrackerErrorV::MalformedPayload(
                "missing issue team in response: "@ + json_rendered(json_stored(json)),
            ),
        ),
        names_state(json, state_id) ==> {
            let by_name = transition_after(
                c,
                issue_id,
                state_name,
                TransitionPhaseV::AskedName { team_id },
                json,
            );
            let by_kind = transition_after(
                c,
                issue_id,
                state_name,
                TransitionPhaseV::AskedType { team_id },
                json,
            );
            &&& by_name is Send
            &&& by_name->request == graphql_request(
                c,
                UPDATE_MUTATION@,
                update_variables(issue_id, state_id),
            )->Ok_0
            &&& by_name->phase == TransitionPhaseV::AskedUpdate
            &&& by_kind == by_name
        },
        (forall|s: Seq<char>| !#[trigger] names_state(json, s)) ==> {
            let by_name = transition_after(
                c,
                issue_id,
                state_name,
                TransitionPhaseV::AskedName { team_id },
                json,
            );
            let by_kind = transition_after(
                c,
                issue_id,
                state_name,
                TransitionPhaseV::AskedType { team_id },
                json,
            );
            let none = TransitionStepV::Failed(
                TrackerErrorV::MalformedPayload(
                    "could not find workflow state '"@ + state_name + "' for issue "@ + issue_id,
                ),
            );
            &&& by_kind == none
            &&& state_type(state_name) is None ==> by_name == none
            &&& state_type(state_name) matches Some(kind) ==> {
                &&& by_name is Send
                &&& by_name->phase == (TransitionPhaseV::AskedType { team_id })
                &&& by_name->request == graphql_request(
                    c,
                    WORKFLOW_STATE_QUERY@,
                    json_one(
                        "filter"@,
                        json_two(
                            "team"@,
                            json_one("id"@, json_one("eq"@, JsonV::Text(team_id))),
                            "type"@,
                            json_one("eq"@, JsonV::Text(kind)),
                        ),
                    ),
                )->Ok_0
            }
        },
        transition_after(c, issue_id, state_name, TransitionPhaseV::AskedUpdate, json) is Moved
            <==> at_path(json, seq!["data"@, "issueUpdate"@, "success"@]) == Some(
            JsonV::Bool(true),
        ),
        !(at_path(json, seq!["data"@, "issueUpdate"@, "success"@]) == Some(JsonV::Bool(true)))
            ==> transition_after(c, issue_id, state_name, TransitionPhaseV::AskedUpdate, json)
            == TransitionStepV::Failed(
            TrackerErrorV::MalformedPayload(
                "issueUpdate did not succeed: "@ + json_rendered(json_stored(json)),
            ),
        ),
{
    lemma_at_path(json, "data"@, "issue"@, "team"@, "id"@);
    lemma_at_path(json, "data"@, "workflowStates"@, "nodes"@, ""@);
    lemma_at_path(json, "data"@, "issueUpdate"@, "success"@, ""@);
    let list = at_path(json, seq!["data"@, "workflowStates"@, "nodes"@]);
    if let Some(JsonV::List(nodes)) = list {
        if nodes.len() > 0 {
            lemma_at_path(nodes[0], "id"@, ""@, ""@, ""@);
        }
    }
    if forall|s: Seq<char>| !#[trigger] names_state(json, s) {
        if first_state(json) is Some {
            assert(names_state(json, first_state(json)->0));
        }
    }
}

/// The first state of a reply is the one that the reply names first.
pub proof fn law_first_states(json: JsonV, state_id: Seq<char>)
    ensures
        first_state(json) == Some(state_id) <==> names_state(json, state_id),
{
    lemma_at_path(json, "data"@, "workflowStates"@, "nodes"@, ""@);
    let list = at_path(json, seq!["data"@, "workflowStates"@, "nodes"@]);
    if let Some(JsonV::List(nodes)) = list {
        if nodes.len() > 0 {
            lemma_at_path(nodes[0], "id"@, ""@, ""@, ""@);
        }
    }
}

/// The names that stand for a kind of state in every team, in whatever case, and no
/// others.
pub proof fn law_kinds_of_states(name: Seq<char>)
    ensures
        state_type(name) == Some("completed"@) <==> lowercase(name) == "done"@ || lowercase(name)
            == "completed"@ || lowercase(name) == "complete"@,
        state_type(name) == Some("canceled"@) <==> lowercase(name) == "canceled"@ || lowercase(name)
            == "cancelled"@,
        state_type(name) == Some("duplicate"@) <==> lowercase(name) == "duplicate"@,
        state_type(name) is Some ==> state_type(name) == Some("completed"@) || state_type(name)
            == Some("canceled"@) || state_type(name) == Some("duplicate"@),
{
    reveal_strlit("done");
    reveal_strlit("completed");
    reveal_strlit("complete");
    reveal_strlit("canceled");
    reveal_strlit("cancelled");
    reveal_strlit("duplicate");
    assert("done"@.len() == 4 && "completed"@.len() == 9 && "complete"@.len() == 8);
    assert("canceled"@.len() == 8 && "cancelled"@.len() == 9 && "duplicate"@.len() == 9);
    assert("completed"@[1] == 'o' && "cancelled"@[1] == 'a' && "duplicate"@[0] == 'd');
    assert("complete"@[1] == 'o' && "canceled"@[1] == 'a');
    assert("completed"@[0] == 'c' && "cancelled"@[0] == 'c');
}

/// A condition picks from a list as from its parts, one after the other, and of a single
/// issue that issue where the condition holds and else nothing.
pub proof fn law_picked(
    a: Seq<IssueV>,
    b: Seq<IssueV>,
    keep: spec_fn(IssueV) -> bool,
    issue: IssueV,
)
    ensures
        picked(a + b, keep) == picked(a, keep) + picked(b, keep),
        keep(issue) ==> picked(seq![issue], keep) == seq![issue],
        !keep(issue) ==> picked(seq![issue], keep).len() == 0,
        picked(Seq::empty(), keep).len() == 0,
    decreases b.len(),
{
    reveal_with_fuel(picked, 2);
    assert(seq![issue].drop_last() =~= Seq::<IssueV>::empty());
    assert(Seq::<IssueV>::empty().push(issue) =~= seq![issue]);
    if b.len() == 0 {
        assert(a + b =~= a);
        assert(picked(a, keep) + picked(b, keep) =~= picked(a, keep));
    } else {
        law_picked(a, b.drop_last(), keep, issue);
        assert((a + b).drop_last() =~= a + b.drop_last());
        assert((a + b).last() == b.last());
        assert(picked(a + b, keep) =~= picked(a, keep) + picked(b, keep));
    }
}

/// What a condition picks is what is there and meets it.
pub proof fn law_picked_issues(list: Seq<IssueV>, keep: spec_fn(IssueV) -> bool, issue: IssueV)
    ensures
        picked(list, keep).contains(issue) <==> list.contains(issue) && keep(issue),
        picked(list, keep).len() <= list.len(),
    decreases list.len(),
{
    if list.len() > 0 {
        let rest = list.drop_last();
        let before = picked(rest, keep);
        law_picked_issues(rest, keep, issue);
        if list.contains(issue) {
            let k = choose|k: int| 0 <= k < list.len() && list[k] == issue;
            if k < rest.len() {
                assert(rest[k] == issue);
            }
        }
        if rest.contains(issue) {
            let k = choose|k: int| 0 <= k < rest.len() && rest[k] == issue;
            assert(list[k] == issue);
        }
        assert(list[list.len() - 1] == list.last());
        let all = before.push(list.last());
        if before.contains(issue) {
            let k = choose|k: int| 0 <= k < before.len() && before[k] == issue;
            assert(all[k] == issue);
        }
        if all.contains(issue) {
            let k = choose|k: int| 0 <= k < all.len() && all[k] == issue;
            if k < before.len() {
                assert(before[k] == issue);
            }
        }
        assert(all[before.len() as int] == list.last());
    }
}

/// The states of the tracker in memory count in whatever case they are written.
pub proof fn law_listed_states_in_memory(state: Seq<char>)
    ensures
        crate::text::listed(state, mock_active_states()) <==> lowercase(state) == lowercase("Todo"@)
            || lowercase(state) == lowercase("In Progress"@),
        crate::text::listed(state, mock_terminal_states()) <==> lowercase(state) == lowercase(
            "Closed"@,
        ) || lowercase(state) == lowercase("Cancelled"@) || lowercase(state) == lowercase(
            "Canceled"@,
        ) || lowercase(state) == lowercase("Duplicate"@) || lowercase(state) == lowercase("Done"@),
{
    let active = mock_active_states();
    let terminal = mock_terminal_states();
    assert(active[0] == "Todo"@ && active[1] == "In Progress"@);
    assert(terminal[0] == "Closed"@ && terminal[1] == "Cancelled"@ && terminal[2] == "Canceled"@
        && terminal[3] == "Duplicate"@ && terminal[4] == "Done"@);
}

/// The states of the tracker in memory.
pub proof fn law_states_in_memory(state: Seq<char>)
    ensures
        mock_active_states().contains(state) <==> state == "Todo"@ || state == "In Progress"@,
        mock_terminal_states().contains(state) <==> state == "Closed"@ || state == "Cancelled"@
            || state == "Canceled"@ || state == "Duplicate"@ || state == "Done"@,
{
    let active = mock_active_states();
    let terminal = mock_terminal_states();
    assert(active[0] == "Todo"@ && active[1] == "In Progress"@);
    assert(terminal[0] == "Closed"@ && terminal[1] == "Cancelled"@ && terminal[2] == "Canceled"@
        && terminal[3] == "Duplicate"@ && terminal[4] == "Done"@);
}

/// What the errors say.
pub proof fn law_errors_speak(s: Seq<char>, status: Seq<char>, body: Seq<char>)
    ensures
        tracker_error_text(TrackerErrorV::HttpError(s)) == "HTTP request failed: "@ + s,
        tracker_error_text(TrackerErrorV::HttpStatus { status, body })
            == "HTTP request failed: status="@ + status + " body="@ + body,
        tracker_error_text(TrackerErrorV::GraphQLError(s)) == "GraphQL error: "@ + s,
        tracker_error_text(TrackerErrorV::MalformedPayload(s)) == "malformed payload: "@ + s,
        tracker_error_text(TrackerErrorV::NotAuthenticated) == "not authenticated"@,
{
}

} // verus!

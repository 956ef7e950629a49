//! A session that is made up in place of a real agent's.
use crate::environment::{join_path, joined};
use crate::json::{counts, lemma_at_path, says};
use crate::json::{
    integer_json, json_list, json_pretty, json_stored, render_json_pretty, Json, JsonV,
};
use crate::text::concat2;
use vstd::prelude::*;
use vstd::string::*;

verus! {

/// A made-up notification.
pub open spec fn notification(message: Seq<char>) -> JsonV {
    JsonV::Object(
        seq![
            ("method"@, JsonV::Text("notification"@)),
            (
                "params"@,
                JsonV::Object(
                    seq![
                        ("message"@, JsonV::Text(message)),
                        ("type"@, JsonV::Text("notification"@)),
                    ],
                ),
            ),
        ],
    )
}

/// A made-up report of a turn that is complete.
pub open spec fn turn_report(id: int, message: Seq<char>, input: int, output: int) -> JsonV {
    JsonV::Object(
        seq![
            ("id"@, integer_json(id)),
            (
                "result"@,
                JsonV::Object(
                    seq![
                        ("message"@, JsonV::Text(message)),
                        ("type"@, JsonV::Text("v2/TurnCompleted"@)),
                        (
                            "usage"@,
                            JsonV::Object(
                                seq![
                                    ("inputTokens"@, integer_json(input)),
                                    ("outputTokens"@, integer_json(output)),
                                ],
                            ),
                        ),
                    ],
                ),
            ),
        ],
    )
}

/// The messages of a made-up session of three turns.
pub open spec fn mock_session(issue_id: Seq<char>) -> JsonV {
    JsonV::List(
        seq![
            notification("Starting work on "@ + issue_id),
            turn_report(1, "Turn 1 done: read the codebase"@, 100, 200),
            notification("Starting turn 2"@),
            turn_report(2, "Turn 2 done: wrote tests"@, 150, 300),
            notification("Starting turn 3"@),
            turn_report(3, "Turn 3 done: implemented fix, created PR"@, 200, 500),
        ],
    )
}

fn make_notification(message: &str) -> (r: Json)
    ensures
        r@ == notification(message@),
{
    let params: Json = Json::object().with("message", Json::text(message)).with(
        "type",
        Json::text("notification"),
    );
    assert(params@->Object_0 =~= seq![
        ("message"@, JsonV::Text(message@)),
        ("type"@, JsonV::Text("notification"@)),
    ]);
    let r: Json = Json::object().with("method", Json::text("notification")).with("params", params);
    assert(r@->Object_0 =~= notification(message@)->Object_0);
    r
}

fn make_turn_report(id: u64, message: &str, input: u64, output: u64) -> (r: Json)
    ensures
        r@ == turn_report(id as int, message@, input as int, output as int),
{
    let usage: Json = Json::object().with("inputTokens", Json::unsigned(input)).with(
        "outputTokens",
        Json::unsigned(output),
    );
    assert(usage@->Object_0 =~= seq![
        ("inputTokens"@, integer_json(input as int)),
        ("outputTokens"@, integer_json(output as int)),
    ]);
    let result: Json = Json::object().with("message", Json::text(message)).with(
        "type",
        Json::text("v2/TurnCompleted"),
    ).with("usage", usage);
    assert(result@->Object_0 =~= seq![
        ("message"@, JsonV::Text(message@)),
        ("type"@, JsonV::Text("v2/TurnCompleted"@)),
        ("usage"@, usage@),
    ]);
    let r: Json = Json::object().with("id", Json::unsigned(id)).with("result", result);
    assert(r@->Object_0 =~= turn_report(
        id as int,
        message@,
        input as int,
        output as int,
    )->Object_0);
    r
}

/// The messages of a made-up session of three turns.
pub fn mock_agent_events(issue_id: &str) -> (r: Json)
    ensures
        r@ == mock_session(issue_id@),
{
    let start: String = concat2("Starting work on ", issue_id);
    let events: Vec<Json> = vec![
        make_notification(start.as_str()),
        make_turn_report(1, "Turn 1 done: read the codebase", 100, 200),
        make_notification("Starting turn 2"),
        make_turn_report(2, "Turn 2 done: wrote tests", 150, 300),
        make_notification("Starting turn 3"),
        make_turn_report(3, "Turn 3 done: implemented fix, created PR", 200, 500),
    ];
    assert(json_list(events@) =~= mock_session(issue_id@)->List_0);
    Json::list(events)
}

/// A file to be written: its path and what it is to hold.
#[derive(Debug)]
pub struct FileToWrite {
    pub path: String,
    pub content: String,
}

/// The control file with which a made-up session is left in a workspace.
pub fn run_mock_agent(workspace: &str, issue_id: &str) -> (r: FileToWrite)
    ensures
        r.path@ == joined(workspace@, ".symphony_agent_control"@),
        r.content@ == json_pretty(json_stored(mock_session(issue_id@))),
{
    let events: Json = mock_agent_events(issue_id);
    FileToWrite {
        path: join_path(workspace, ".symphony_agent_control"),
        content: render_json_pretty(&events),
    }
}

// ── Laws of the made-up session ─────────────────────────────────────────────

/// A made-up notification says what it is and its message.
pub proof fn law_notifications(message: Seq<char>)
    ensures
        says(notification(message), seq!["method"@], "notification"@),
        says(notification(message), seq!["params"@, "message"@], message),
        says(notification(message), seq!["params"@, "type"@], "notification"@),
{
    let j = notification(message);
    lemma_at_path(j, "method"@, ""@, ""@, ""@);
    lemma_at_path(j, "params"@, "message"@, ""@, ""@);
    lemma_at_path(j, "params"@, "type"@, ""@, ""@);
    reveal_strlit("method");
    reveal_strlit("params");
    reveal_strlit("message");
    reveal_strlit("type");
    assert("method"@[0] == 'm' && "params"@[0] == 'p');
    assert("message"@.len() == 7 && "type"@.len() == 4);
    reveal_with_fuel(crate::json::find_member, 3);
    let outer = j->Object_0;
    assert(outer.drop_first()[0] == outer[1]);
    let inner = outer[1].1->Object_0;
    assert(inner.drop_first()[0] == inner[1]);
}

/// A made-up report of a turn says that the turn is complete, its number, its message and
/// what it used.
pub proof fn law_turn_reports(id: u64, message: Seq<char>, input: u64, output: u64)
    ensures
        ({
            let j = turn_report(id as int, message, input as int, output as int);
            &&& counts(j, seq!["id"@], id)
            &&& says(j, seq!["result"@, "type"@], "v2/TurnCompleted"@)
            &&& says(j, seq!["result"@, "message"@], message)
            &&& counts(j, seq!["result"@, "usage"@, "inputTokens"@], input)
            &&& counts(j, seq!["result"@, "usage"@, "outputTokens"@], output)
        }),
{
    let j = turn_report(id as int, message, input as int, output as int);
    lemma_at_path(j, "id"@, ""@, ""@, ""@);
    lemma_at_path(j, "result"@, "type"@, ""@, ""@);
    lemma_at_path(j, "result"@, "message"@, ""@, ""@);
    lemma_at_path(j, "result"@, "usage"@, "inputTokens"@, ""@);
    lemma_at_path(j, "result"@, "usage"@, "outputTokens"@, ""@);
    reveal_strlit("id");
    reveal_strlit("result");
    reveal_strlit("message");
    reveal_strlit("type");
    reveal_strlit("usage");
    reveal_strlit("inputTokens");
    reveal_strlit("outputTokens");
    assert("id"@.len() == 2 && "result"@.len() == 6);
    assert("message"@.len() == 7 && "type"@.len() == 4 && "usage"@.len() == 5);
    assert("inputTokens"@.len() == 11 && "outputTokens"@.len() == 12);
    reveal_with_fuel(crate::json::find_member, 4);
    let outer = j->Object_0;
    assert(outer.drop_first()[0] == outer[1]);
    let inner = outer[1].1->Object_0;
    assert(inner.drop_first()[0] == inner[1]);
    assert(inner.drop_first().drop_first()[0] == inner[2]);
    let usage = inner[2].1->Object_0;
    assert(usage.drop_first()[0] == usage[1]);
}

/// A made-up session has three turns: each is announced and then reported, the first by
/// naming the issue.
pub proof fn law_made_up_session(issue_id: Seq<char>)
    ensures
        mock_session(issue_id) is List,
        mock_session(issue_id)->List_0.len() == 6,
        says(
            mock_session(issue_id)->List_0[0],
            seq!["params"@, "message"@],
            "Starting work on "@ + issue_id,
        ),
        counts(mock_session(issue_id)->List_0[1], seq!["result"@, "usage"@, "inputTokens"@], 100),
        counts(mock_session(issue_id)->List_0[1], seq!["result"@, "usage"@, "outputTokens"@], 200),
        counts(mock_session(issue_id)->List_0[3], seq!["result"@, "usage"@, "inputTokens"@], 150),
        counts(mock_session(issue_id)->List_0[3], seq!["result"@, "usage"@, "outputTokens"@], 300),
        counts(mock_session(issue_id)->List_0[5], seq!["result"@, "usage"@, "inputTokens"@], 200),
        counts(mock_session(issue_id)->List_0[5], seq!["result"@, "usage"@, "outputTokens"@], 500),
{
    law_notifications("Starting work on "@ + issue_id);
    law_turn_reports(1, "Turn 1 done: read the codebase"@, 100, 200);
    law_turn_reports(2, "Turn 2 done: wrote tests"@, 150, 300);
    law_turn_reports(3, "Turn 3 done: implemented fix, created PR"@, 200, 500);
}

} // verus!

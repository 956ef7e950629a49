//! Prompt templates: the variables that a template sees, and its rendering by
//! `liquid`.
use crate::config::{ConfigError, ConfigErrorV};
use crate::json::{at_path, counts, lemma_at_path, says};
use crate::json::{
    integer_json, json_contents, json_list, json_nesting, json_stored, last_member,
    lemma_sorted_members, lemma_stored_get, lemma_stored_items, lemma_stored_members,
    sorted_members, stored_items, stored_members, value_of_json, Json, JsonNumberV, JsonV,
};
use crate::tame::{
    closes, digits_before, first_end, is_calm, is_calm_filter, is_gap, is_quote, is_steady, is_tame,
    is_tame_at, lemma_no_open_quote, lemma_quoteless_is_clear, nests_before, no_long_number,
    occurrences, open_quote, opens, without_closer,
};
use crate::text::{decimal, is_alphanumeric, is_digit, signed_decimal, trim, trimmed};
use crate::types::{blockers, BlockerRef, BlockerV, Issue, IssueV};
use vstd::prelude::*;
use vstd::string::*;

verus! {

// ── Variables ───────────────────────────────────────────────────────────────

/// An object with one member more, where there is a value for it.
pub open spec fn with_optional(j: JsonV, key: Seq<char>, text: Option<Seq<char>>) -> JsonV {
    match text {
        Some(s) => j.with(key, JsonV::Text(s)),
        None => j,
    }
}

fn add_optional(j: Json, key: &str, text: &Option<String>) -> (r: Json)
    requires
        j@ is Object,
    ensures
        r@ == with_optional(j@, key@, crate::text::opt_text(*text)),
{
    match text {
        Some(s) => j.with(key, Json::text(s.as_str())),
        None => j,
    }
}

/// A blocker as a template sees it.
pub open spec fn blocker_vars(b: BlockerV) -> JsonV {
    with_optional(
        with_optional(
            with_optional(JsonV::object(), "id"@, b.id),
            "identifier"@,
            b.identifier,
        ),
        "state"@,
        b.state,
    )
}

/// An issue as a template sees it.
pub open spec fn issue_vars(issue: IssueV) -> JsonV {
    let described = JsonV::object().with("id"@, JsonV::Text(issue.id)).with(
        "identifier"@,
        JsonV::Text(issue.identifier),
    ).with("title"@, JsonV::Text(issue.title)).with(
        "description"@,
        JsonV::Text(
            match issue.description {
                Some(s) => s,
                None => Seq::empty(),
            },
        ),
    ).with("state"@, JsonV::Text(issue.state));
    let ranked = match issue.priority {
        Some(p) => described.with("priority"@, integer_json(p as int)),
        None => described,
    };
    let labelled = ranked.with(
        "labels"@,
        JsonV::List(issue.labels.map_values(|s: Seq<char>| JsonV::Text(s))),
    );
    with_optional(
        with_optional(labelled, "url"@, issue.url),
        "branch_name"@,
        issue.branch_name,
    ).with("blocked_by"@, JsonV::List(issue.blocked_by.map_values(|b: BlockerV| blocker_vars(b))))
}

/// What a template sees: the issue, and the attempt where it is counted.
pub open spec fn prompt_vars(issue: IssueV, attempt: Option<u32>) -> JsonV {
    JsonV::object().with("issue"@, issue_vars(issue)).with(
        "attempt"@,
        match attempt {
            Some(n) => integer_json(n as int),
            None => JsonV::Null,
        },
    )
}

fn blocker_json(b: &BlockerRef) -> (r: Json)
    ensures
        r@ == blocker_vars(b@),
{
    let j: Json = add_optional(Json::object(), "id", &b.id);
    let j: Json = add_optional(j, "identifier", &b.identifier);
    add_optional(j, "state", &b.state)
}

fn label_list(labels: &Vec<String>) -> (r: Json)
    ensures
        r@ == JsonV::List(
            crate::text::texts(labels@).map_values(|s: Seq<char>| JsonV::Text(s)),
        ),
{
    let mut items: Vec<Json> = Vec::new();
    let mut i: usize = 0;
    while i < labels.len()
        invariant
            i <= labels.len(),
            items.len() == i,
            forall|k: int| 0 <= k < i ==> (#[trigger] items@[k])@ == JsonV::Text(labels@[k]@),
        decreases labels.len() - i,
    {
        items.push(Json::text(labels[i].as_str()));
        i = i + 1;
    }
    assert(json_list(items@) =~= crate::text::texts(labels@).map_values(
        |s: Seq<char>| JsonV::Text(s),
    ));
    Json::list(items)
}

fn blocker_list(list: &Vec<BlockerRef>) -> (r: Json)
    ensures
        r@ == JsonV::List(blockers(list@).map_values(|b: BlockerV| blocker_vars(b))),
{
    let mut items: Vec<Json> = Vec::new();
    let mut i: usize = 0;
    while i < list.len()
        invariant
            i <= list.len(),
            items.len() == i,
            forall|k: int| 0 <= k < i ==> (#[trigger] items@[k])@ == blocker_vars(list@[k]@),
        decreases list.len() - i,
    {
        items.push(blocker_json(&list[i]));
        i = i + 1;
    }
    assert(json_list(items@) =~= blockers(list@).map_values(|b: BlockerV| blocker_vars(b)));
    Json::list(items)
}

/// What a template sees: the issue, and the attempt where it is counted.
pub fn prompt_globals(issue: &Issue, attempt: Option<u32>) -> (r: Json)
    ensures
        r@ == prompt_vars(issue@, attempt),
{
    let description: Json = match &issue.description {
        Some(s) => Json::text(s.as_str()),
        None => {
            proof {
                reveal_strlit("");
                assert(""@ =~= Seq::<char>::empty());
            }
            Json::text("")
        },
    };
    let described: Json = Json::object().with("id", Json::text(issue.id.as_str())).with(
        "identifier",
        Json::text(issue.identifier.as_str()),
    ).with("title", Json::text(issue.title.as_str())).with("description", description).with(
        "state",
        Json::text(issue.state.as_str()),
    );
    let ranked: Json = match issue.priority {
        Some(p) => described.with("priority", Json::signed(p as i64)),
        None => described,
    };
    let labelled: Json = ranked.with("labels", label_list(&issue.labels));
    let linked: Json = add_optional(labelled, "url", &issue.url);
    let branched: Json = add_optional(linked, "branch_name", &issue.branch_name);
    let whole: Json = branched.with("blocked_by", blocker_list(&issue.blocked_by));
    let counted: Json = match attempt {
        Some(n) => Json::signed(n as i64),
        None => Json::Null,
    };
    Json::object().with("issue", whole).with("attempt", counted)
}

// ── Rendering ───────────────────────────────────────────────────────────────

/// Why a template has no rendering.
#[derive(Debug)]
pub enum TemplateFailure {
    /// It is no template.
    Parse(String),
    /// It asks for something that is not there.
    Render(String),
}

/// A template's failure by its contents.
#[verifier::ext_equal]
pub enum TemplateFailureV {
    Parse(Seq<char>),
    Render(Seq<char>),
}

impl View for TemplateFailure {
    type V = TemplateFailureV;

    open spec fn view(&self) -> TemplateFailureV {
        match self {
            TemplateFailure::Parse(s) => TemplateFailureV::Parse(s@),
            TemplateFailure::Render(s) => TemplateFailureV::Render(s@),
        }
    }
}

/// A rendering by its contents.
pub open spec fn rendering(r: Result<String, TemplateFailure>) -> Result<
    Seq<char>,
    TemplateFailureV,
> {
    match r {
        Ok(s) => Ok(s@),
        Err(e) => Err(e@),
    }
}

/// Whether `liquid` may make this of a template and these variables. It need not
/// make one thing only: it walks objects in no fixed order.
pub uninterp spec fn liquid_may_render(
    template: Seq<char>,
    globals: JsonV,
    outcome: Result<Seq<char>, TemplateFailureV>,
) -> bool;

/// Whether `liquid` takes a text for a template.
pub uninterp spec fn liquid_parses(template: Seq<char>) -> bool;

/// Whether a text holds neither an output nor a tag.
pub open spec fn is_plain_text(s: Seq<char>) -> bool {
    forall|i: int|
        0 <= i < s.len() - 1 && #[trigger] s[i] == '{' ==> s[i + 1] != '{' && s[i + 1] != '%'
}

// ── Simple templates ────────────────────────────────────────────────────────

/// A piece of a simple template: text that stays, or a variable to fill in, with the
/// white space before and behind its path.
pub enum Piece {
    Plain(Seq<char>),
    Output { lead: Seq<char>, path: Seq<Seq<char>>, trail: Seq<char> },
}

/// A name of letters, digits and underscores that does not begin with a digit.
pub open spec fn is_name(s: Seq<char>) -> bool {
    &&& s.len() > 0
    &&& !is_digit(s[0])
    &&& forall|i: int| 0 <= i < s.len() ==> is_alphanumeric(#[trigger] s[i]) || s[i] == '_'
}

/// Whether a text begins with a word that stands for a value of its own.
pub open spec fn begins_with_literal(s: Seq<char>) -> bool {
    "nil"@.is_prefix_of(s) || "null"@.is_prefix_of(s) || "empty"@.is_prefix_of(s)
        || "blank"@.is_prefix_of(s) || "true"@.is_prefix_of(s) || "false"@.is_prefix_of(s)
}

/// The names that lead to a variable. What `liquid` answers for every value is left
/// out.
pub open spec fn is_path(path: Seq<Seq<char>>) -> bool {
    &&& path.len() > 0
    &&& !begins_with_literal(path[0])
    &&& forall|i: int|
        0 <= i < path.len() ==> is_name(#[trigger] path[i]) && path[i] != "size"@ && path[i]
            != "first"@ && path[i] != "last"@
}

/// Names with dots between them.
pub open spec fn dotted(path: Seq<Seq<char>>) -> Seq<char>
    decreases path.len(),
{
    if path.len() <= 1 {
        path[0]
    } else {
        path[0] + "."@ + dotted(path.skip(1))
    }
}

/// White space that may stand around a path: spaces and line breaks, or none.
pub open spec fn is_gaps(s: Seq<char>) -> bool {
    forall|i: int| 0 <= i < s.len() ==> is_gap(#[trigger] s[i])
}

/// A piece as it is written.
pub open spec fn piece_source(piece: Piece) -> Seq<char> {
    match piece {
        Piece::Plain(s) => s,
        Piece::Output { lead, path, trail } => "{{"@ + (lead + dotted(path) + trail) + "}}"@,
    }
}

/// The template that the pieces make up.
pub open spec fn source(pieces: Seq<Piece>) -> Seq<char>
    decreases pieces.len(),
{
    if pieces.len() == 0 {
        Seq::empty()
    } else {
        source(pieces.drop_last()) + piece_source(pieces.last())
    }
}

/// Pieces that `liquid` reads as they were meant.
pub open spec fn is_simple(pieces: Seq<Piece>) -> bool {
    forall|i: int|
        0 <= i < pieces.len() ==> match #[trigger] pieces[i] {
            Piece::Plain(s) => is_plain_text(s) && (s.len() > 0 ==> s.last() != '{'),
            Piece::Output { lead, path, trail } => is_gaps(lead) && is_path(path) && is_gaps(trail),
        }
}

/// What the names lead to.
pub open spec fn find_path(globals: JsonV, path: Seq<Seq<char>>) -> Option<JsonV>
    decreases path.len(),
{
    if path.len() == 0 {
        Some(globals)
    } else {
        match globals.get(path[0]) {
            Some(inner) => find_path(inner, path.skip(1)),
            None => None,
        }
    }
}

/// A value as it is printed: text as it is, integers in decimal, nothing for nothing.
pub open spec fn printed(j: JsonV) -> Option<Seq<char>> {
    match j {
        JsonV::Null => Some(Seq::empty()),
        JsonV::Text(s) => Some(s),
        JsonV::Number(JsonNumberV::Unsigned(n)) => Some(decimal(n as nat)),
        JsonV::Number(JsonNumberV::Negative(n)) => Some(signed_decimal(n as int)),
        _ => None,
    }
}

/// Whether the variable of a piece is there.
pub open spec fn is_known(piece: Piece, globals: JsonV) -> bool {
    piece matches Piece::Output { path, .. } ==> find_path(globals, path) is Some
}

/// Whether the variable of a piece is text, an integer or nothing.
pub open spec fn is_printed(piece: Piece, globals: JsonV) -> bool {
    piece matches Piece::Output { path, .. } ==> {
        let j = find_path(globals, path);
        j is Some && printed(j->0) is Some
    }
}

/// A piece with its variable filled in.
pub open spec fn filled_piece(piece: Piece, globals: JsonV) -> Seq<char> {
    match piece {
        Piece::Plain(s) => s,
        Piece::Output { path, .. } => printed(find_path(globals, path)->0)->0,
    }
}

/// The pieces with the variables filled in.
pub open spec fn filled(pieces: Seq<Piece>, globals: JsonV) -> Seq<char>
    decreases pieces.len(),
{
    if pieces.len() == 0 {
        Seq::empty()
    } else {
        filled(pieces.drop_last(), globals) + filled_piece(pieces.last(), globals)
    }
}

/// Whether every variable is there.
pub open spec fn all_known(pieces: Seq<Piece>, globals: JsonV) -> bool {
    forall|i: int| 0 <= i < pieces.len() ==> is_known(#[trigger] pieces[i], globals)
}

/// Whether every variable is text, an integer or nothing.
pub open spec fn all_printed(pieces: Seq<Piece>, globals: JsonV) -> bool {
    forall|i: int| 0 <= i < pieces.len() ==> is_printed(#[trigger] pieces[i], globals)
}

/// Whether a simple template is rendered piece by piece, and refused where a
/// variable is not there.
pub open spec fn is_piecewise(
    template: Seq<char>,
    globals: JsonV,
    outcome: Result<Seq<char>, TemplateFailureV>,
) -> bool {
    forall|pieces: Seq<Piece>|
        is_simple(pieces) && #[trigger] source(pieces) == template ==> {
            &&& all_printed(pieces, globals) ==> outcome == Ok::<Seq<char>, TemplateFailureV>(
                filled(pieces, globals),
            )
            &&& !all_known(pieces, globals) ==> outcome is Err && outcome->Err_0 is Render
        }
}

/// Variables that `liquid` takes: integers of 64 bits with a sign, no fractions,
/// nothing nested deeper than `limit`.
pub open spec fn liquid_takes(j: JsonV, limit: nat) -> bool
    decreases limit,
{
    match j {
        JsonV::Number(JsonNumberV::Unsigned(n)) => n <= i64::MAX,
        JsonV::Number(JsonNumberV::Float { .. }) => false,
        JsonV::List(items) => limit > 0 && forall|i: int|
            0 <= i < items.len() ==> liquid_takes(#[trigger] items[i], (limit - 1) as nat),
        JsonV::Object(members) => limit > 0 && forall|i: int|
            0 <= i < members.len() ==> liquid_takes((#[trigger] members[i]).1, (limit - 1) as nat),
        _ => true,
    }
}

/// A variable that is not there, or nothing, or a number of 32 bits.
pub open spec fn is_small_number(j: Option<JsonV>) -> bool {
    match j {
        None => true,
        Some(JsonV::Null) => true,
        Some(JsonV::Number(JsonNumberV::Unsigned(n))) => n <= u32::MAX,
        Some(JsonV::Number(JsonNumberV::Negative(n))) => n >= i32::MIN,
        _ => false,
    }
}

/// A variable that is not there, or a list.
pub open spec fn is_list(j: Option<JsonV>) -> bool {
    j is None || j->0 is List
}

/// A variable that is not there, or a list of texts.
pub open spec fn is_text_list(j: Option<JsonV>) -> bool {
    is_list(j) && (j matches Some(JsonV::List(items)) ==> forall|i: int|
        0 <= i < items.len() ==> (#[trigger] items[i]) is Text)
}

/// The member of a variable that may be missing.
pub open spec fn member_of(j: Option<JsonV>, name: Seq<char>) -> Option<JsonV> {
    match j {
        Some(inner) => inner.get(name),
        None => None,
    }
}

/// Variables of the kind that the names in a template stand for: small numbers for
/// the attempt and the priority, texts for the labels, a list for what blocks, and no
/// loop.
pub open spec fn has_usual_variables(globals: JsonV) -> bool {
    let issue = globals.get("issue"@);
    &&& globals.get("forloop"@) is None
    &&& is_small_number(globals.get("attempt"@))
    &&& is_small_number(member_of(issue, "priority"@))
    &&& is_text_list(member_of(issue, "labels"@))
    &&& is_list(member_of(issue, "blocked_by"@))
}

/// Calls `liquid`: `ParserBuilder::with_stdlib`, `Parser::parse`, `to_object` for
/// the variables, and `Template::render`. Claimed of it: whether a text is a
/// template depends on the text alone. A text without an output or a tag is its own
/// rendering. A template of plain text and variables is rendered piece by piece, and
/// refused where a variable is not there. Of other templates only that what comes
/// back is what `liquid` may make of the template and the variables: it walks
/// objects in no fixed order. Templates that are not tame are left out, since
/// `liquid` panics on some of them: on integers that overflow, on values without an
/// order that are sorted, on an unclosed block in a comment, on an empty cycle, on a
/// table without columns, and where the error message for broken markup takes a
/// string that was cut short for a sound one. Variables of an unusual kind are left
/// out, since the tame computations are so for the usual ones. Nothing is said of how
/// long the rendering takes or how much memory.
#[verifier::external_body]
fn liquid_render(template: &str, globals: &serde_json::Value) -> (r: Result<
    String,
    TemplateFailure,
>)
    requires
        is_tame(template@),
        json_contents(*globals) is Object,
        liquid_takes(json_contents(*globals), json_nesting()),
        has_usual_variables(json_contents(*globals)),
    ensures
        liquid_may_render(template@, json_contents(*globals), rendering(r)),
        (r matches Err(TemplateFailure::Parse(_))) <==> !liquid_parses(template@),
        is_plain_text(template@) ==> r is Ok && r->Ok_0@ == template@,
        is_piecewise(template@, json_contents(*globals), rendering(r)),
{
    let parser = liquid::ParserBuilder::with_stdlib().build().map_err(
        |e| TemplateFailure::Parse(e.to_string()),
    )?;
    let template = parser.parse(template).map_err(|e| TemplateFailure::Parse(e.to_string()))?;
    let globals = liquid::to_object(globals).map_err(|e| TemplateFailure::Render(e.to_string()))?;
    template.render(&globals).map_err(|e| TemplateFailure::Render(e.to_string()))
}

/// A prompt by its contents.
pub open spec fn prompt_view(r: Result<String, ConfigError>) -> Result<Seq<char>, ConfigErrorV> {
    match r {
        Ok(s) => Ok(s@),
        Err(e) => Err(e@),
    }
}

/// The prompt that a rendering gives: white space around it goes.
pub open spec fn finished_prompt(outcome: Result<Seq<char>, TemplateFailureV>) -> Result<
    Seq<char>,
    ConfigErrorV,
> {
    match outcome {
        Ok(s) => Ok(trimmed(s)),
        Err(TemplateFailureV::Parse(e)) => Err(ConfigErrorV::TemplateParseError(e)),
        Err(TemplateFailureV::Render(e)) => Err(ConfigErrorV::TemplateRenderError(e)),
    }
}

/// The prompt that a rendering gives. White space around it goes, blank lines
/// inside stay.
pub fn finish_prompt(outcome: Result<String, TemplateFailure>) -> (r: Result<String, ConfigError>)
    ensures
        prompt_view(r) == finished_prompt(rendering(outcome)),
{
    match outcome {
        Ok(s) => Ok(trim(s.as_str())),
        Err(TemplateFailure::Parse(e)) => Err(ConfigError::TemplateParseError(e)),
        Err(TemplateFailure::Render(e)) => Err(ConfigError::TemplateRenderError(e)),
    }
}

/// Render a prompt template for a given issue and attempt number.
///
/// Variables available in template scope:
/// - `issue`: the issue
/// - `attempt`: the attempt number, nothing on a first run
pub fn render_prompt(template: &str, issue: &Issue, attempt: Option<u32>) -> (r: Result<
    String,
    ConfigError,
>)
    requires
        is_tame(template@),
    ensures
        exists|outcome: Result<Seq<char>, TemplateFailureV>| #[trigger]
            liquid_may_render(template@, json_stored(prompt_vars(issue@, attempt)), outcome)
                && prompt_view(r) == finished_prompt(outcome),
        (r matches Err(ConfigError::TemplateParseError(_))) <==> !liquid_parses(template@),
        is_plain_text(template@) ==> prompt_view(r) == Ok::<Seq<char>, ConfigErrorV>(
            trimmed(template@),
        ),
        forall|pieces: Seq<Piece>|
            is_simple(pieces) && #[trigger] source(pieces) == template@ ==> {
                let globals = json_stored(prompt_vars(issue@, attempt));
                &&& all_printed(pieces, globals) ==> prompt_view(r) == Ok::<
                    Seq<char>,
                    ConfigErrorV,
                >(trimmed(filled(pieces, globals)))
                &&& !all_known(pieces, globals) ==> r matches Err(
                    ConfigError::TemplateRenderError(_),
                )
            },
{
    let globals: Json = prompt_globals(issue, attempt);
    let value: serde_json::Value = value_of_json(&globals);
    proof {
        lemma_prompt_takes(issue@, attempt);
        lemma_stored_takes(globals@, json_nesting());
        lemma_usual_variables(issue@, attempt);
    }
    let outcome: Result<String, TemplateFailure> = liquid_render(template, &value);
    proof {
        assert(liquid_may_render(
            template@,
            json_stored(prompt_vars(issue@, attempt)),
            rendering(outcome),
        ));
    }
    finish_prompt(outcome)
}

// ── Laws ────────────────────────────────────────────────────────────────────

proof fn lemma_stored_takes(j: JsonV, limit: nat)
    requires
        liquid_takes(j, limit),
    ensures
        liquid_takes(json_stored(j), limit),
    decreases limit,
{
    match j {
        JsonV::List(items) => {
            lemma_stored_items(items);
            assert forall|i: int| 0 <= i < stored_items(items).len() implies liquid_takes(
                #[trigger] stored_items(items)[i],
                (limit - 1) as nat,
            ) by {
                assert(liquid_takes(items[i], (limit - 1) as nat));
                lemma_stored_takes(items[i], (limit - 1) as nat);
            }
        },
        JsonV::Object(members) => {
            let stored = stored_members(members);
            lemma_stored_members(members);
            lemma_sorted_members(stored, Seq::empty());
            let sorted = sorted_members(stored);
            assert forall|i: int| 0 <= i < sorted.len() implies liquid_takes(
                (#[trigger] sorted[i]).1,
                (limit - 1) as nat,
            ) by {
                assert(stored.contains(sorted[i]));
                let k = choose|k: int| 0 <= k < stored.len() && stored[k] == sorted[i];
                assert(liquid_takes(members[k].1, (limit - 1) as nat));
                lemma_stored_takes(members[k].1, (limit - 1) as nat);
            }
        },
        _ => {},
    }
}

proof fn lemma_with_takes(o: JsonV, key: Seq<char>, value: JsonV, limit: nat)
    requires
        o is Object,
        limit > 0,
        liquid_takes(o, limit),
        liquid_takes(value, (limit - 1) as nat),
    ensures
        o.with(key, value) is Object,
        liquid_takes(o.with(key, value), limit),
{
    let members = o->Object_0;
    let more = members.push((key, value));
    assert forall|i: int| 0 <= i < more.len() implies liquid_takes(
        (#[trigger] more[i]).1,
        (limit - 1) as nat,
    ) by {
        if i < members.len() {
            assert(more[i] == members[i]);
        }
    }
}

proof fn lemma_optional_takes(o: JsonV, key: Seq<char>, text: Option<Seq<char>>, limit: nat)
    requires
        o is Object,
        limit > 0,
        liquid_takes(o, limit),
    ensures
        with_optional(o, key, text) is Object,
        liquid_takes(with_optional(o, key, text), limit),
{
    if text is Some {
        lemma_with_takes(o, key, JsonV::Text(text->0), limit);
    }
}

proof fn lemma_blocker_takes(b: BlockerV, limit: nat)
    requires
        limit > 0,
    ensures
        liquid_takes(blocker_vars(b), limit),
{
    let one = with_optional(JsonV::object(), "id"@, b.id);
    let two = with_optional(one, "identifier"@, b.identifier);
    lemma_optional_takes(JsonV::object(), "id"@, b.id, limit);
    lemma_optional_takes(one, "identifier"@, b.identifier, limit);
    lemma_optional_takes(two, "state"@, b.state, limit);
}

/// An issue's variables up to its priority.
spec fn described_vars(issue: IssueV) -> JsonV {
    JsonV::object().with("id"@, JsonV::Text(issue.id)).with(
        "identifier"@,
        JsonV::Text(issue.identifier),
    ).with("title"@, JsonV::Text(issue.title)).with(
        "description"@,
        JsonV::Text(
            match issue.description {
                Some(s) => s,
                None => Seq::empty(),
            },
        ),
    ).with("state"@, JsonV::Text(issue.state))
}

/// An issue's variables up to its labels.
spec fn ranked_vars(issue: IssueV) -> JsonV {
    match issue.priority {
        Some(p) => described_vars(issue).with("priority"@, integer_json(p as int)),
        None => described_vars(issue),
    }
}

spec fn labels_var(issue: IssueV) -> JsonV {
    JsonV::List(issue.labels.map_values(|s: Seq<char>| JsonV::Text(s)))
}

spec fn blockers_var(issue: IssueV) -> JsonV {
    JsonV::List(issue.blocked_by.map_values(|b: BlockerV| blocker_vars(b)))
}

proof fn lemma_prompt_takes(issue: IssueV, attempt: Option<u32>)
    ensures
        prompt_vars(issue, attempt) is Object,
        liquid_takes(prompt_vars(issue, attempt), json_nesting()),
{
    let limit: nat = 99;
    let o = JsonV::object();
    let a = o.with("id"@, JsonV::Text(issue.id));
    let b = a.with("identifier"@, JsonV::Text(issue.identifier));
    let c = b.with("title"@, JsonV::Text(issue.title));
    let description = JsonV::Text(
        match issue.description {
            Some(s) => s,
            None => Seq::empty(),
        },
    );
    let d = c.with("description"@, description);
    lemma_with_takes(o, "id"@, JsonV::Text(issue.id), limit);
    lemma_with_takes(a, "identifier"@, JsonV::Text(issue.identifier), limit);
    lemma_with_takes(b, "title"@, JsonV::Text(issue.title), limit);
    lemma_with_takes(c, "description"@, description, limit);
    lemma_with_takes(d, "state"@, JsonV::Text(issue.state), limit);
    let described = described_vars(issue);
    if issue.priority is Some {
        lemma_with_takes(described, "priority"@, integer_json(issue.priority->0 as int), limit);
    }
    let ranked = ranked_vars(issue);
    assert forall|i: int| 0 <= i < issue.labels.len() implies liquid_takes(
        #[trigger] labels_var(issue)->List_0[i],
        97,
    ) by {
        assert(labels_var(issue)->List_0[i] == JsonV::Text(issue.labels[i]));
    }
    lemma_with_takes(ranked, "labels"@, labels_var(issue), limit);
    let labelled = ranked.with("labels"@, labels_var(issue));
    lemma_optional_takes(labelled, "url"@, issue.url, limit);
    let linked = with_optional(labelled, "url"@, issue.url);
    lemma_optional_takes(linked, "branch_name"@, issue.branch_name, limit);
    let branched = with_optional(linked, "branch_name"@, issue.branch_name);
    assert forall|i: int| 0 <= i < issue.blocked_by.len() implies liquid_takes(
        #[trigger] blockers_var(issue)->List_0[i],
        97,
    ) by {
        lemma_blocker_takes(issue.blocked_by[i], 97);
    }
    lemma_with_takes(branched, "blocked_by"@, blockers_var(issue), limit);
    let counted = match attempt {
        Some(n) => integer_json(n as int),
        None => JsonV::Null,
    };
    lemma_with_takes(o, "issue"@, issue_vars(issue), 100);
    lemma_with_takes(o.with("issue"@, issue_vars(issue)), "attempt"@, counted, 100);
}

/// What an object holds last under a name.
spec fn holds(o: JsonV, key: Seq<char>) -> Option<JsonV> {
    last_member(o->Object_0, key)
}

proof fn lemma_with_holds(o: JsonV, key: Seq<char>, value: JsonV, wanted: Seq<char>)
    requires
        o is Object,
    ensures
        o.with(key, value) is Object,
        holds(o.with(key, value), wanted) == (if key == wanted {
            Some(value)
        } else {
            holds(o, wanted)
        }),
{
    assert(o->Object_0.push((key, value)).drop_last() =~= o->Object_0);
}

proof fn lemma_optional_holds(
    o: JsonV,
    key: Seq<char>,
    text: Option<Seq<char>>,
    wanted: Seq<char>,
)
    requires
        o is Object,
    ensures
        with_optional(o, key, text) is Object,
        holds(with_optional(o, key, text), wanted) == (if key == wanted && text is Some {
            Some(JsonV::Text(text->0))
        } else {
            holds(o, wanted)
        }),
{
    if text is Some {
        lemma_with_holds(o, key, JsonV::Text(text->0), wanted);
    }
}

/// The variable of an issue of that name, if it has one.
pub open spec fn issue_variable(issue: IssueV, name: Seq<char>) -> Option<JsonV> {
    if name == "id"@ {
        Some(JsonV::Text(issue.id))
    } else if name == "identifier"@ {
        Some(JsonV::Text(issue.identifier))
    } else if name == "title"@ {
        Some(JsonV::Text(issue.title))
    } else if name == "description"@ {
        Some(
            JsonV::Text(
                match issue.description {
                    Some(s) => s,
                    None => Seq::empty(),
                },
            ),
        )
    } else if name == "state"@ {
        Some(JsonV::Text(issue.state))
    } else if name == "priority"@ {
        match issue.priority {
            Some(p) => Some(integer_json(p as int)),
            None => None,
        }
    } else if name == "labels"@ {
        Some(JsonV::List(issue.labels.map_values(|s: Seq<char>| JsonV::Text(s))))
    } else if name == "url"@ {
        match issue.url {
            Some(s) => Some(JsonV::Text(s)),
            None => None,
        }
    } else if name == "branch_name"@ {
        match issue.branch_name {
            Some(s) => Some(JsonV::Text(s)),
            None => None,
        }
    } else if name == "blocked_by"@ {
        Some(JsonV::List(issue.blocked_by.map_values(|b: BlockerV| blocker_vars(b))))
    } else {
        None
    }
}

proof fn lemma_names_differ()
    ensures
        "issue"@ != "attempt"@,
        "id"@ != "identifier"@,
        "id"@ != "title"@,
        "id"@ != "description"@,
        "id"@ != "state"@,
        "id"@ != "priority"@,
        "id"@ != "labels"@,
        "id"@ != "url"@,
        "id"@ != "branch_name"@,
        "id"@ != "blocked_by"@,
        "identifier"@ != "title"@,
        "identifier"@ != "description"@,
        "identifier"@ != "state"@,
        "identifier"@ != "priority"@,
        "identifier"@ != "labels"@,
        "identifier"@ != "url"@,
        "identifier"@ != "branch_name"@,
        "identifier"@ != "blocked_by"@,
        "title"@ != "description"@,
        "title"@ != "state"@,
        "title"@ != "priority"@,
        "title"@ != "labels"@,
        "title"@ != "url"@,
        "title"@ != "branch_name"@,
        "title"@ != "blocked_by"@,
        "description"@ != "state"@,
        "description"@ != "priority"@,
        "description"@ != "labels"@,
        "description"@ != "url"@,
        "description"@ != "branch_name"@,
        "description"@ != "blocked_by"@,
        "state"@ != "priority"@,
        "state"@ != "labels"@,
        "state"@ != "url"@,
        "state"@ != "branch_name"@,
        "state"@ != "blocked_by"@,
        "priority"@ != "labels"@,
        "priority"@ != "url"@,
        "priority"@ != "branch_name"@,
        "priority"@ != "blocked_by"@,
        "labels"@ != "url"@,
        "labels"@ != "branch_name"@,
        "labels"@ != "blocked_by"@,
        "url"@ != "branch_name"@,
        "url"@ != "blocked_by"@,
        "branch_name"@ != "blocked_by"@,
{
    reveal_strlit("issue");
    reveal_strlit("attempt");
    reveal_strlit("id");
    reveal_strlit("identifier");
    reveal_strlit("title");
    reveal_strlit("description");
    reveal_strlit("state");
    reveal_strlit("priority");
    reveal_strlit("labels");
    reveal_strlit("url");
    reveal_strlit("branch_name");
    reveal_strlit("blocked_by");
    assert("issue"@.len() == 5 && "attempt"@.len() == 7);
    assert("id"@.len() == 2 && "identifier"@.len() == 10 && "title"@.len() == 5);
    assert("description"@.len() == 11 && "state"@.len() == 5 && "priority"@.len() == 8);
    assert("labels"@.len() == 6 && "url"@.len() == 3);
    assert("branch_name"@.len() == 11 && "blocked_by"@.len() == 10);
    assert("title"@[0] == 't' && "state"@[0] == 's');
    assert("branch_name"@[0] == 'b' && "description"@[0] == 'd');
    assert("identifier"@[0] == 'i' && "blocked_by"@[0] == 'b');
}

proof fn lemma_issue_holds(issue: IssueV, name: Seq<char>)
    ensures
        issue_vars(issue) is Object,
        holds(issue_vars(issue), name) == issue_variable(issue, name),
{
    lemma_names_differ();
    let o = JsonV::object();
    let a = o.with("id"@, JsonV::Text(issue.id));
    let b = a.with("identifier"@, JsonV::Text(issue.identifier));
    let c = b.with("title"@, JsonV::Text(issue.title));
    let description = JsonV::Text(
        match issue.description {
            Some(s) => s,
            None => Seq::empty(),
        },
    );
    let d = c.with("description"@, description);
    lemma_with_holds(o, "id"@, JsonV::Text(issue.id), name);
    lemma_with_holds(a, "identifier"@, JsonV::Text(issue.identifier), name);
    lemma_with_holds(b, "title"@, JsonV::Text(issue.title), name);
    lemma_with_holds(c, "description"@, description, name);
    lemma_with_holds(d, "state"@, JsonV::Text(issue.state), name);
    let described = described_vars(issue);
    if issue.priority is Some {
        lemma_with_holds(described, "priority"@, integer_json(issue.priority->0 as int), name);
    }
    let ranked = ranked_vars(issue);
    lemma_with_holds(ranked, "labels"@, labels_var(issue), name);
    let labelled = ranked.with("labels"@, labels_var(issue));
    lemma_optional_holds(labelled, "url"@, issue.url, name);
    let linked = with_optional(labelled, "url"@, issue.url);
    lemma_optional_holds(linked, "branch_name"@, issue.branch_name, name);
    let branched = with_optional(linked, "branch_name"@, issue.branch_name);
    lemma_with_holds(branched, "blocked_by"@, blockers_var(issue), name);
}

/// A template finds the attempt under `attempt`, what an issue has under `issue`,
/// and nothing else.
pub proof fn law_prompt_variables(issue: IssueV, attempt: Option<u32>, name: Seq<char>)
    ensures
        find_path(json_stored(prompt_vars(issue, attempt)), seq!["attempt"@]) == (match attempt {
            Some(n) => Some(integer_json(n as int)),
            None => Some(JsonV::Null),
        }),
        find_path(json_stored(prompt_vars(issue, attempt)), seq!["issue"@, name]) == (
        match issue_variable(issue, name) {
            Some(j) => Some(json_stored(j)),
            None => None,
        }),
        name != "issue"@ && name != "attempt"@ ==> find_path(
            json_stored(prompt_vars(issue, attempt)),
            seq![name],
        ) is None,
{
    lemma_names_differ();
    reveal_with_fuel(find_path, 3);
    let o = JsonV::object();
    let inner = issue_vars(issue);
    let counted = match attempt {
        Some(n) => integer_json(n as int),
        None => JsonV::Null,
    };
    let with_issue = o.with("issue"@, inner);
    let whole = prompt_vars(issue, attempt);
    lemma_with_holds(o, "issue"@, inner, "issue"@);
    lemma_with_holds(with_issue, "attempt"@, counted, "issue"@);
    lemma_with_holds(o, "issue"@, inner, "attempt"@);
    lemma_with_holds(with_issue, "attempt"@, counted, "attempt"@);
    lemma_with_holds(o, "issue"@, inner, name);
    lemma_with_holds(with_issue, "attempt"@, counted, name);
    lemma_stored_get(whole->Object_0, "issue"@);
    lemma_stored_get(whole->Object_0, "attempt"@);
    lemma_stored_get(whole->Object_0, name);
    lemma_issue_holds(issue, name);
    lemma_stored_get(inner->Object_0, name);
    assert(seq!["issue"@, name].skip(1) =~= seq![name]);
    assert(seq![name].skip(1) =~= Seq::<Seq<char>>::empty());
    assert(seq!["attempt"@].skip(1) =~= Seq::<Seq<char>>::empty());
}

proof fn lemma_usual_variables(issue: IssueV, attempt: Option<u32>)
    ensures
        has_usual_variables(json_stored(prompt_vars(issue, attempt))),
{
    let globals = json_stored(prompt_vars(issue, attempt));
    reveal_strlit("forloop");
    reveal_strlit("issue");
    reveal_strlit("attempt");
    assert("forloop"@.len() == 7 && "issue"@.len() == 5 && "attempt"@[0] == 'a');
    assert("forloop"@[0] == 'f');
    lemma_names_differ();
    lemma_found(issue, attempt, "forloop"@);
    lemma_found(issue, attempt, "priority"@);
    lemma_found(issue, attempt, "labels"@);
    lemma_found(issue, attempt, "blocked_by"@);
    let labels = labels_var(issue)->List_0;
    lemma_stored_items(labels);
    assert forall|i: int| 0 <= i < stored_items(labels).len() implies (
    #[trigger] stored_items(labels)[i]) is Text by {
        assert(labels[i] == JsonV::Text(issue.labels[i]));
    }
}

/// What a template finds under a name, and under a name of the issue.
proof fn lemma_found(issue: IssueV, attempt: Option<u32>, name: Seq<char>)
    ensures
        json_stored(prompt_vars(issue, attempt)).get("attempt"@) == (match attempt {
            Some(n) => Some(integer_json(n as int)),
            None => Some(JsonV::Null),
        }),
        member_of(json_stored(prompt_vars(issue, attempt)).get("issue"@), name) == (
        match issue_variable(issue, name) {
            Some(j) => Some(json_stored(j)),
            None => None,
        }),
        name != "issue"@ && name != "attempt"@ ==> json_stored(prompt_vars(issue, attempt)).get(
            name,
        ) is None,
{
    law_prompt_variables(issue, attempt, name);
    reveal_with_fuel(find_path, 3);
    assert(seq!["issue"@, name].skip(1) =~= seq![name]);
    assert(seq![name].skip(1) =~= Seq::<Seq<char>>::empty());
    assert(seq!["attempt"@].skip(1) =~= Seq::<Seq<char>>::empty());
}

/// A simple template that asks for a variable other than the issue and the attempt
/// asks for something that is not there.
pub proof fn law_unknown_variables_are_missing(
    pieces: Seq<Piece>,
    k: int,
    issue: IssueV,
    attempt: Option<u32>,
)
    requires
        0 <= k < pieces.len(),
        pieces[k] is Output,
        pieces[k]->path.len() > 0,
        pieces[k]->path[0] != "issue"@,
        pieces[k]->path[0] != "attempt"@,
    ensures
        !all_known(pieces, json_stored(prompt_vars(issue, attempt))),
{
    let path = pieces[k]->path;
    let globals = json_stored(prompt_vars(issue, attempt));
    law_prompt_variables(issue, attempt, path[0]);
    reveal_with_fuel(find_path, 2);
    assert(seq![path[0]].skip(1) =~= Seq::<Seq<char>>::empty());
    assert(globals.get(path[0]) is None);
    assert(!is_known(pieces[k], globals));
}

// ── Simple templates are tame ───────────────────────────────────────────────

/// What stands between the braces of an output.
spec fn output_body(piece: Piece) -> Seq<char> {
    piece->lead + dotted(piece->path) + piece->trail
}

/// The characters of an output's body.
spec fn is_body_char(c: char) -> bool {
    is_gap(c) || is_alphanumeric(c) || c == '_' || c == '.'
}

proof fn lemma_dotted(path: Seq<Seq<char>>)
    requires
        path.len() > 0,
        forall|i: int| 0 <= i < path.len() ==> is_name(#[trigger] path[i]),
    ensures
        dotted(path).len() > 0,
        dotted(path)[0] != '.',
        forall|i: int|
            0 <= i < dotted(path).len() ==> is_alphanumeric(#[trigger] dotted(path)[i]) || dotted(
                path,
            )[i] == '_' || dotted(path)[i] == '.',
        forall|i: int|
            0 <= i < dotted(path).len() && #[trigger] dotted(path)[i] == '.' ==> i + 1 < dotted(
                path,
            ).len() && dotted(path)[i + 1] != '.',
        occurrences(dotted(path), '.') == path.len() - 1,
    decreases path.len(),
{
    let first = path[0];
    assert(is_name(first));
    assert(is_alphanumeric(first[0]) || first[0] == '_');
    assert forall|i: int| 0 <= i < first.len() implies #[trigger] first[i] != '.' by {
        assert(is_alphanumeric(first[i]) || first[i] == '_');
    }
    lemma_no_occurrence(first, '.');
    if path.len() > 1 {
        reveal_strlit(".");
        let rest = path.skip(1);
        assert forall|i: int| 0 <= i < rest.len() implies is_name(#[trigger] rest[i]) by {
            assert(rest[i] == path[i + 1]);
        }
        lemma_dotted(rest);
        let tail = dotted(rest);
        let whole = first + "."@ + tail;
        lemma_occurrences_add(first + "."@, tail, '.');
        lemma_occurrences_add(first, "."@, '.');
        assert("."@.drop_last() =~= Seq::<char>::empty());
        assert(occurrences("."@, '.') == 1) by {
            reveal_with_fuel(occurrences, 2);
        }
        assert forall|i: int| 0 <= i < whole.len() implies is_alphanumeric(#[trigger] whole[i])
            || whole[i] == '_' || whole[i] == '.' by {
            if i < first.len() {
                assert(whole[i] == first[i]);
            } else if i > first.len() {
                assert(whole[i] == tail[i - first.len() - 1]);
            }
        }
        assert forall|i: int| 0 <= i < whole.len() && #[trigger] whole[i] == '.' implies i + 1
            < whole.len() && whole[i + 1] != '.' by {
            if i < first.len() {
                assert(whole[i] == first[i]);
            } else if i == first.len() {
                assert(whole[i + 1] == tail[0]);
            } else {
                assert(whole[i] == tail[i - first.len() - 1]);
                assert(tail[i - first.len() - 1 + 1] != '.');
                assert(whole[i + 1] == tail[i - first.len() - 1 + 1]);
            }
        }
    }
}

proof fn lemma_no_occurrence(s: Seq<char>, c: char)
    requires
        forall|i: int| 0 <= i < s.len() ==> #[trigger] s[i] != c,
    ensures
        occurrences(s, c) == 0,
    decreases s.len(),
{
    if s.len() > 0 {
        assert forall|i: int| 0 <= i < s.drop_last().len() implies #[trigger] s.drop_last()[i]
            != c by {
            assert(s[i] != c);
        }
        lemma_no_occurrence(s.drop_last(), c);
        assert(s[s.len() - 1] != c);
    }
}

proof fn lemma_occurrences_add(a: Seq<char>, b: Seq<char>, c: char)
    ensures
        occurrences(a + b, c) == occurrences(a, c) + occurrences(b, c),
    decreases b.len(),
{
    if b.len() == 0 {
        assert(a + b =~= a);
    } else {
        assert((a + b).drop_last() =~= a + b.drop_last());
        lemma_occurrences_add(a, b.drop_last(), c);
    }
}

proof fn lemma_body_chars(piece: Piece)
    requires
        piece is Output,
        is_simple(seq![piece]),
    ensures
        output_body(piece).len() > 0,
        forall|i: int|
            0 <= i < output_body(piece).len() ==> is_body_char(#[trigger] output_body(piece)[i]),
        forall|i: int|
            0 <= i < output_body(piece).len() - 1 && #[trigger] output_body(piece)[i] == '.'
                ==> output_body(piece)[i + 1] != '.',
        occurrences(output_body(piece), '.') == piece->path.len() - 1,
{
    assert(seq![piece][0] == piece);
    let lead = piece->lead;
    let middle = dotted(piece->path);
    let trail = piece->trail;
    lemma_dotted(piece->path);
    let body = output_body(piece);
    assert forall|i: int| 0 <= i < body.len() implies is_body_char(#[trigger] body[i]) by {
        if i < lead.len() {
            assert(body[i] == lead[i]);
        } else if i < lead.len() + middle.len() {
            assert(body[i] == middle[i - lead.len()]);
        } else {
            assert(body[i] == trail[i - lead.len() - middle.len()]);
        }
    }
    assert forall|i: int| 0 <= i < body.len() - 1 && #[trigger] body[i] == '.' implies body[i + 1]
        != '.' by {
        if i < lead.len() {
            assert(body[i] == lead[i]);
        } else if i < lead.len() + middle.len() {
            assert(body[i] == middle[i - lead.len()]);
            assert(middle[i - lead.len() + 1] != '.');
            assert(body[i + 1] == middle[i - lead.len() + 1]);
        } else {
            assert(body[i] == trail[i - lead.len() - middle.len()]);
        }
    }
    assert forall|i: int| 0 <= i < lead.len() implies #[trigger] lead[i] != '.' by {
        assert(is_gap(lead[i]));
    }
    assert forall|i: int| 0 <= i < trail.len() implies #[trigger] trail[i] != '.' by {
        assert(is_gap(trail[i]));
    }
    lemma_no_occurrence(lead, '.');
    lemma_no_occurrence(trail, '.');
    lemma_occurrences_add(lead + middle, trail, '.');
    lemma_occurrences_add(lead, middle, '.');
}

proof fn lemma_body_digits(piece: Piece, i: nat)
    requires
        piece is Output,
        is_simple(seq![piece]),
        i <= output_body(piece).len(),
    ensures
        i <= piece->lead.len() ==> digits_before(output_body(piece), i) == 0,
        piece->lead.len() <= i <= piece->lead.len() + dotted(piece->path).len() ==> digits_before(
            output_body(piece),
            i,
        ) == digits_before(dotted(piece->path), (i - piece->lead.len()) as nat),
        i > piece->lead.len() + dotted(piece->path).len() ==> digits_before(output_body(piece), i)
            == 0,
    decreases i,
{
    assert(seq![piece][0] == piece);
    let lead = piece->lead;
    let middle = dotted(piece->path);
    let body = output_body(piece);
    if i > 0 {
        lemma_body_digits(piece, (i - 1) as nat);
        if i <= lead.len() {
            assert(is_gap(lead[i - 1]));
            assert(body[i - 1] == lead[i - 1]);
        } else if i <= lead.len() + middle.len() {
            assert(body[i - 1] == middle[i - 1 - lead.len()]);
        } else {
            assert(is_gap(piece->trail[i - 1 - lead.len() - middle.len()]));
            assert(body[i - 1] == piece->trail[i - 1 - lead.len() - middle.len()]);
        }
    }
}

proof fn lemma_body_is_calm(piece: Piece, steady: bool)
    requires
        piece is Output,
        is_simple(seq![piece]),
        piece->path.len() <= 1000,
        no_long_number(dotted(piece->path), 18),
    ensures
        is_calm(output_body(piece), steady),
        open_quote(output_body(piece)) is None,
{
    let body = output_body(piece);
    lemma_body_chars(piece);
    assert forall|i: int| 0 <= i < body.len() implies #[trigger] body[i] != '[' && !is_quote(
        body[i],
    ) && body[i] != '|' by {
        assert(is_body_char(body[i]));
    }
    lemma_no_occurrence(body, '[');
    lemma_no_open_quote(body);
    assert forall|i: nat| i <= body.len() implies #[trigger] digits_before(body, i) <= 18 by {
        lemma_body_digits(piece, i);
        let k = (i - piece->lead.len()) as nat;
        if piece->lead.len() <= i <= piece->lead.len() + dotted(piece->path).len() {
            assert(digits_before(dotted(piece->path), k) <= 18);
        }
    }
    let cut = without_closer(body);
    assert forall|i: int| 0 <= i < cut.len() && #[trigger] cut[i] == '|' implies is_calm_filter(
        cut,
        i,
        steady,
    ) by {
        assert(cut[i] == body[i]);
    }
}

proof fn lemma_source_end(pieces: Seq<Piece>)
    requires
        is_simple(pieces),
        source(pieces).len() > 0,
    ensures
        source(pieces).last() != '{',
    decreases pieces.len(),
{
    let last = pieces.last();
    assert(pieces[pieces.len() - 1] == last);
    let text = piece_source(last);
    reveal_strlit("}}");
    if text.len() == 0 {
        assert(source(pieces) =~= source(pieces.drop_last()));
        lemma_simple_parts(pieces);
        lemma_source_end(pieces.drop_last());
    } else {
        assert(source(pieces).last() == text.last());
        if last is Output {
            assert(text.last() == "}}"@[1]);
        }
    }
}

proof fn lemma_simple_parts(pieces: Seq<Piece>)
    requires
        is_simple(pieces),
        pieces.len() > 0,
    ensures
        is_simple(pieces.drop_last()),
        is_simple(seq![pieces.last()]),
{
    let most = pieces.drop_last();
    assert forall|i: int| 0 <= i < most.len() implies match #[trigger] most[i] {
        Piece::Plain(s) => is_plain_text(s) && (s.len() > 0 ==> s.last() != '{'),
        Piece::Output { lead, path, trail } => is_gaps(lead) && is_path(path) && is_gaps(trail),
    } by {
        assert(most[i] == pieces[i]);
    }
    assert(pieces[pieces.len() - 1] == pieces.last());
}

/// Whether a piece stands at a place of a text.
spec fn stands_at(s: Seq<char>, i: int, piece: Piece) -> bool {
    &&& 0 <= i
    &&& i + piece_source(piece).len() <= s.len()
    &&& s.subrange(i, i + piece_source(piece).len()) == piece_source(piece)
}

proof fn lemma_source_opens(pieces: Seq<Piece>, i: int) -> (k: int)
    requires
        is_simple(pieces),
        opens(source(pieces), i),
    ensures
        0 <= k < pieces.len(),
        pieces[k] is Output,
        is_simple(seq![pieces[k]]),
        stands_at(source(pieces), i, pieces[k]),
    decreases pieces.len(),
{
    lemma_simple_parts(pieces);
    let most = pieces.drop_last();
    let last = pieces.last();
    let a = source(most);
    let b = piece_source(last);
    let s = source(pieces);
    reveal_strlit("{{");
    reveal_strlit("}}");
    if i + 1 < a.len() {
        assert(s[i] == a[i] && s[i + 1] == a[i + 1]);
        let k = lemma_source_opens(most, i);
        assert(most[k] == pieces[k]);
        let n = piece_source(pieces[k]).len();
        assert(s.subrange(i, i + n) =~= a.subrange(i, i + n));
        k
    } else if i + 1 == a.len() {
        lemma_source_end(most);
        assert(s[i] == a.last());
        assert(false);
        0
    } else {
        let j = i - a.len();
        assert(seq![last][0] == last);
        assert(b[j] == s[i] && b[j + 1] == s[i + 1]);
        if last is Plain {
            assert(false);
        } else {
            lemma_body_chars(last);
            let body = output_body(last);
            if j >= 2 && j < 2 + body.len() {
                assert(b[j] == body[j - 2]);
                assert(is_body_char(body[j - 2]));
                assert(false);
            } else if j >= 2 {
                assert(b[j] == "}}"@[j - 2 - body.len()]);
                assert(false);
            } else if j == 1 {
                assert(b[2] == body[0]);
                assert(is_body_char(body[0]));
                assert(false);
            }
        }
        assert(s.subrange(i, i + b.len()) =~= b);
        pieces.len() - 1
    }
}

proof fn lemma_first_end(s: Seq<char>, from: nat, to: nat)
    requires
        from <= to,
        closes(s, '{', to as int),
        forall|k: int| from <= k < to ==> #[trigger] s[k] != '}',
    ensures
        first_end(s, '{', from) == to,
    decreases to - from,
{
    if from < to {
        assert(s[from as int] != '}');
        lemma_first_end(s, from + 1, to);
    }
}

proof fn lemma_no_nests(s: Seq<char>, n: nat)
    requires
        forall|i: int| #[trigger] opens(s, i) ==> s[i + 1] == '{',
    ensures
        nests_before(s, n) == 0,
    decreases n,
{
    if n > 0 {
        lemma_no_nests(s, (n - 1) as nat);
        if opens(s, n - 1) {
            assert(s[n as int] == '{');
        }
    }
}

/// Templates of plain text and variables are tame, whatever white space is around the
/// variables, as long as no path has more than a thousand names and no name holds a
/// number of more than 18 digits.
pub proof fn law_simple_templates_are_tame(pieces: Seq<Piece>)
    requires
        is_simple(pieces),
        forall|i: int|
            0 <= i < pieces.len() && #[trigger] pieces[i] is Output ==> pieces[i]->path.len()
                <= 1000 && no_long_number(dotted(pieces[i]->path), 18),
    ensures
        is_tame(source(pieces)),
{
    let s = source(pieces);
    let steady = is_steady(s);
    reveal_strlit("{{");
    reveal_strlit("}}");
    assert forall|i: int| #[trigger] opens(s, i) implies s[i + 1] == '{' && is_tame_at(
        s,
        i,
        steady,
    ) by {
        let k = lemma_source_opens(pieces, i);
        let piece = pieces[k];
        let text = piece_source(piece);
        let body = output_body(piece);
        lemma_body_chars(piece);
        lemma_body_is_calm(piece, steady);
        let end = i + 2 + body.len();
        assert(s.subrange(i, i + text.len())[1] == text[1]);
        assert(s[i + 1] == "{{"@[1]);
        assert forall|j: int| 0 <= j < body.len() implies s[i + 2 + j] == #[trigger] body[j] by {
            assert(s.subrange(i, i + text.len())[2 + j] == text[2 + j]);
        }
        assert(s.subrange(i, i + text.len())[2 + body.len() as int] == text[2 + body.len() as int]);
        assert(s.subrange(i, i + text.len())[3 + body.len() as int] == text[3 + body.len() as int]);
        assert(s[end] == '}' && s[end + 1] == '}');
        assert forall|t: int| i + 2 <= t < end implies #[trigger] s[t] != '}' && s[t] != '{'
            && s[t] != '%' && !is_quote(s[t]) by {
            assert(s[t] == body[t - i - 2]);
            assert(is_body_char(body[t - i - 2]));
        }
        lemma_first_end(s, (i + 2) as nat, end as nat);
        assert(s.subrange(i + 2, end) =~= body);
        lemma_quoteless_is_clear(s, i, end);
    }
    lemma_no_nests(s, s.len());
}

// ── Laws of variables ───────────────────────────────────────────────────────

/// A text that may be missing, as a variable.
pub open spec fn text_variable(text: Option<Seq<char>>) -> Option<JsonV> {
    match text {
        Some(s) => Some(JsonV::Text(s)),
        None => None,
    }
}

/// A whole number as a variable.
pub open spec fn is_number(j: Option<JsonV>, n: int) -> bool {
    match j {
        Some(JsonV::Number(JsonNumberV::Unsigned(m))) => m == n,
        Some(JsonV::Number(JsonNumberV::Negative(m))) => m == n && n < 0,
        _ => false,
    }
}

/// A template sees each blocker of the issue in its place: under its own name its id, its
/// identifier and its state, where the blocker has them, and nothing else.
pub proof fn law_templates_see_the_blockers(
    issue: IssueV,
    attempt: Option<u32>,
    k: int,
    name: Seq<char>,
)
    ensures
        ({
            let globals = json_stored(prompt_vars(issue, attempt));
            let list = at_path(globals, seq!["issue"@, "blocked_by"@]);
            &&& list is Some
            &&& list->0 is List
            &&& list->0->List_0.len() == issue.blocked_by.len()
            &&& 0 <= k < issue.blocked_by.len() ==> {
                let seen = list->0->List_0[k];
                let blocker = issue.blocked_by[k];
                &&& seen is Object
                &&& seen.get("id"@) == text_variable(blocker.id)
                &&& seen.get("identifier"@) == text_variable(blocker.identifier)
                &&& seen.get("state"@) == text_variable(blocker.state)
                &&& name != "id"@ && name != "identifier"@ && name != "state"@ ==> seen.get(
                    name,
                ) is None
            }
        }),
{
    let globals = json_stored(prompt_vars(issue, attempt));
    lemma_names_differ();
    lemma_found(issue, attempt, "blocked_by"@);
    lemma_at_path(globals, "issue"@, "blocked_by"@, ""@, ""@);
    let items = issue.blocked_by.map_values(|b: BlockerV| blocker_vars(b));
    lemma_stored_items(items);
    if 0 <= k < issue.blocked_by.len() {
        let b = issue.blocked_by[k];
        assert(items[k] == blocker_vars(b));
        lemma_blocker_seen(b, "id"@);
        lemma_blocker_seen(b, "identifier"@);
        lemma_blocker_seen(b, "state"@);
        lemma_blocker_seen(b, name);
    }
}

proof fn lemma_blocker_seen(b: BlockerV, name: Seq<char>)
    ensures
        json_stored(blocker_vars(b)) is Object,
        json_stored(blocker_vars(b)).get(name) == (if name == "id"@ {
            text_variable(b.id)
        } else if name == "identifier"@ {
            text_variable(b.identifier)
        } else if name == "state"@ {
            text_variable(b.state)
        } else {
            None
        }),
{
    lemma_names_differ();
    let none = JsonV::object();
    let one = with_optional(none, "id"@, b.id);
    let two = with_optional(one, "identifier"@, b.identifier);
    lemma_optional_holds(none, "id"@, b.id, name);
    lemma_optional_holds(one, "identifier"@, b.identifier, name);
    lemma_optional_holds(two, "state"@, b.state, name);
    lemma_stored_get(blocker_vars(b)->Object_0, name);
}

/// A template sees what the issue says: its id, identifier, title and state; its
/// description, empty where it has none; its priority, address and branch where it has
/// them; its labels in their order; and the number of the attempt, or nothing on a first
/// run.
pub proof fn law_templates_see_the_issue(
    issue: IssueV,
    attempt: Option<u32>,
    k: int,
    name: Seq<char>,
)
    ensures
        ({
            let globals = json_stored(prompt_vars(issue, attempt));
            let labels = at_path(globals, seq!["issue"@, "labels"@]);
            let priority = at_path(globals, seq!["issue"@, "priority"@]);
            let count = at_path(globals, seq!["attempt"@]);
            &&& says(globals, seq!["issue"@, "id"@], issue.id)
            &&& says(globals, seq!["issue"@, "identifier"@], issue.identifier)
            &&& says(globals, seq!["issue"@, "title"@], issue.title)
            &&& says(globals, seq!["issue"@, "state"@], issue.state)
            &&& issue.description matches Some(d) ==> says(
                globals,
                seq!["issue"@, "description"@],
                d,
            )
            &&& issue.description is None ==> says(
                globals,
                seq!["issue"@, "description"@],
                Seq::empty(),
            )
            &&& at_path(globals, seq!["issue"@, "url"@]) == text_variable(issue.url)
            &&& at_path(globals, seq!["issue"@, "branch_name"@]) == text_variable(issue.branch_name)
            &&& issue.priority matches Some(p) ==> is_number(priority, p as int)
            &&& issue.priority is None ==> priority is None
            &&& attempt matches Some(n) ==> is_number(count, n as int)
            &&& attempt is None ==> count == Some(JsonV::Null)
            &&& labels is Some
            &&& labels->0 is List
            &&& labels->0->List_0.len() == issue.labels.len()
            &&& 0 <= k < issue.labels.len() ==> labels->0->List_0[k] == JsonV::Text(issue.labels[k])
            &&& name != "issue"@ && name != "attempt"@ ==> at_path(globals, seq![name]) is None
        }),
{
    let globals = json_stored(prompt_vars(issue, attempt));
    let x = ""@;
    lemma_names_differ();
    lemma_issue_seen(issue, attempt, "id"@);
    lemma_issue_seen(issue, attempt, "identifier"@);
    lemma_issue_seen(issue, attempt, "title"@);
    lemma_issue_seen(issue, attempt, "state"@);
    lemma_issue_seen(issue, attempt, "description"@);
    lemma_issue_seen(issue, attempt, "url"@);
    lemma_issue_seen(issue, attempt, "branch_name"@);
    lemma_issue_seen(issue, attempt, "priority"@);
    lemma_issue_seen(issue, attempt, "labels"@);
    lemma_found(issue, attempt, name);
    lemma_at_path(globals, "attempt"@, x, x, x);
    lemma_at_path(globals, name, x, x, x);
    let items = issue.labels.map_values(|s: Seq<char>| JsonV::Text(s));
    lemma_stored_items(items);
    if 0 <= k < issue.labels.len() {
        assert(items[k] == JsonV::Text(issue.labels[k]));
    }
}

proof fn lemma_issue_seen(issue: IssueV, attempt: Option<u32>, name: Seq<char>)
    ensures
        at_path(json_stored(prompt_vars(issue, attempt)), seq!["issue"@, name]) == (
        match issue_variable(issue, name) {
            Some(j) => Some(json_stored(j)),
            None => None,
        }),
{
    lemma_found(issue, attempt, name);
    lemma_at_path(json_stored(prompt_vars(issue, attempt)), "issue"@, name, ""@, ""@);
}

/// A path leads from member to member: no name leads to the variables themselves, and
/// each further name to the member of that name, where there is one.
pub proof fn law_paths_lead_from_member_to_member(
    globals: JsonV,
    path: Seq<Seq<char>>,
    name: Seq<char>,
)
    ensures
        find_path(globals, Seq::empty()) == Some(globals),
        find_path(globals, path.push(name)) == (match find_path(globals, path) {
            Some(inner) => inner.get(name),
            None => None,
        }),
        find_path(globals, path) == at_path(globals, path),
    decreases path.len(),
{
    let longer = path.push(name);
    if path.len() == 0 {
        reveal_with_fuel(find_path, 2);
        assert(longer.skip(1) =~= Seq::<Seq<char>>::empty());
    } else {
        assert(longer.skip(1) =~= path.skip(1).push(name));
        if globals.get(path[0]) is Some {
            law_paths_lead_from_member_to_member(globals.get(path[0])->0, path.skip(1), name);
        }
    }
}

/// Text is filled in as it is, a whole number in decimal, and nothing for nothing; pieces
/// are filled in one after the other.
pub proof fn law_pieces_are_filled_in(
    a: Seq<Piece>,
    b: Seq<Piece>,
    globals: JsonV,
    lead: Seq<char>,
    path: Seq<Seq<char>>,
    trail: Seq<char>,
    s: Seq<char>,
    n: u64,
)
    ensures
        filled(a + b, globals) == filled(a, globals) + filled(b, globals),
        filled(seq![Piece::Plain(s)], globals) == s,
        says(globals, path, s) ==> filled(seq![Piece::Output { lead, path, trail }], globals) == s,
        counts(globals, path, n) ==> filled(seq![Piece::Output { lead, path, trail }], globals)
            == decimal(n as nat),
        at_path(globals, path) == Some(JsonV::Null) ==> filled(
            seq![Piece::Output { lead, path, trail }],
            globals,
        ).len() == 0,
        at_path(globals, path) matches Some(JsonV::Number(JsonNumberV::Negative(m))) ==> filled(
            seq![Piece::Output { lead, path, trail }],
            globals,
        ) == signed_decimal(m as int),
    decreases b.len(),
{
    reveal_with_fuel(filled, 2);
    let plain = Piece::Plain(s);
    let output = Piece::Output { lead, path, trail };
    law_paths_lead_from_member_to_member(globals, path, s);
    assert(seq![plain].drop_last() =~= Seq::<Piece>::empty());
    assert(seq![output].drop_last() =~= Seq::<Piece>::empty());
    assert(Seq::<char>::empty() + s =~= s);
    assert(Seq::<char>::empty() + filled_piece(output, globals) =~= filled_piece(output, globals));
    if b.len() == 0 {
        assert(a + b =~= a);
        assert(filled(a, globals) + filled(b, globals) =~= filled(a, globals));
    } else {
        law_pieces_are_filled_in(a, b.drop_last(), globals, lead, path, trail, s, n);
        assert((a + b).drop_last() =~= a + b.drop_last());
        assert((a + b).last() == b.last());
        assert(filled(a + b, globals) =~= filled(a, globals) + filled(b, globals));
    }
}

/// A prompt is the rendering without the white space around it; a template that is none
/// and one that asks for what is not there are told apart, and say why.
pub proof fn law_prompts_are_finished(s: Seq<char>)
    ensures
        finished_prompt(Ok(s)) == Ok::<Seq<char>, ConfigErrorV>(trimmed(s)),
        finished_prompt(Err(TemplateFailureV::Parse(s))) == Err::<Seq<char>, ConfigErrorV>(
            ConfigErrorV::TemplateParseError(s),
        ),
        finished_prompt(Err(TemplateFailureV::Render(s))) == Err::<Seq<char>, ConfigErrorV>(
            ConfigErrorV::TemplateRenderError(s),
        ),
{
}

} // verus!

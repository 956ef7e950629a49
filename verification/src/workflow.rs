//! The workflow file: front matter between `---` lines, and the prompt behind it.
use crate::config::{
    config_of_raw, raw_check, ConfigError, ConfigErrorV, RawConfig, RawConfigV, ServiceConfig,
    ServiceConfigV,
};
use crate::environment::{first_at, lemma_first_at, Environment, EnvironmentV};
use crate::text::{
    chars_of, concat3, is_blank, is_space, law_only_white_space_is_cut_off, string_of_range,
    text_eq, texts, trim, trim_end, trim_start, trimmed,
};
use vstd::prelude::*;
use vstd::string::*;

verus! {

// ── Lines ───────────────────────────────────────────────────────────────────

/// A line without the carriage return at its end.
pub open spec fn without_cr(s: Seq<char>) -> Seq<char> {
    if s.len() > 0 && s.last() == '\r' {
        s.drop_last()
    } else {
        s
    }
}

/// The lines of a text. A line ends with a line feed, before which a carriage
/// return is dropped; behind the last line feed an empty line is none.
pub open spec fn lines_of(s: Seq<char>) -> Seq<Seq<char>>
    decreases s.len(),
{
    if s.len() == 0 {
        Seq::empty()
    } else {
        let n = first_at(s, '\n') as int;
        if n >= s.len() {
            seq![s]
        } else {
            seq![without_cr(s.take(n))] + lines_of(s.skip(n + 1))
        }
    }
}

/// Lines with line feeds between them.
pub open spec fn joined_lines(lines: Seq<Seq<char>>) -> Seq<char>
    decreases lines.len(),
{
    if lines.len() == 0 {
        Seq::empty()
    } else if lines.len() == 1 {
        lines[0]
    } else {
        lines[0] + seq!['\n'] + joined_lines(lines.skip(1))
    }
}

/// Splits a text into its lines.
pub fn split_lines(s: &str) -> (r: Vec<String>)
    ensures
        texts(r@) == lines_of(s@),
{
    let chars: Vec<char> = chars_of(s);
    let mut r: Vec<String> = Vec::new();
    let mut start: usize = 0;
    proof {
        assert(chars@.skip(0) =~= chars@);
        assert(texts(r@) =~= Seq::<Seq<char>>::empty());
        assert(texts(r@) + lines_of(chars@.skip(0)) =~= lines_of(chars@));
    }
    while start < chars.len()
        invariant
            start <= chars.len(),
            chars@ == s@,
            texts(r@) + lines_of(chars@.skip(start as int)) == lines_of(chars@),
        decreases chars.len() - start,
    {
        let ghost rest = chars@.skip(start as int);
        let mut end: usize = start;
        while end < chars.len() && chars[end] != '\n'
            invariant
                start <= end <= chars.len(),
                rest == chars@.skip(start as int),
                forall|k: int| 0 <= k < end - start ==> #[trigger] rest[k] != '\n',
            decreases chars.len() - end,
        {
            assert(rest[end - start] == chars@[end as int]);
            end = end + 1;
        }
        proof {
            if end < chars.len() {
                assert(rest[end - start] == chars@[end as int]);
            }
            lemma_first_at(rest, '\n', end - start);
        }
        let ghost before = texts(r@);
        if end == chars.len() {
            let line: String = string_of_range(&chars, start, end);
            assert(line@ =~= rest);
            r.push(line);
            proof {
                assert(texts(r@) =~= before.push(line@));
                assert(lines_of(rest) =~= seq![rest]);
                assert(chars@.skip(end as int) =~= Seq::<char>::empty());
                assert(texts(r@) + lines_of(chars@.skip(end as int)) =~= before + lines_of(rest));
            }
            start = end;
        } else {
            let cut: usize = if end > start && chars[end - 1] == '\r' {
                end - 1
            } else {
                end
            };
            let line: String = string_of_range(&chars, start, cut);
            proof {
                let whole = rest.take(end - start);
                if end > start {
                    assert(whole.last() == chars@[end - 1]);
                }
                assert(line@ =~= without_cr(whole));
            }
            r.push(line);
            proof {
                assert(texts(r@) =~= before.push(line@));
                assert(rest.skip(end - start + 1) =~= chars@.skip(end + 1));
                assert(texts(r@) + lines_of(chars@.skip(end + 1)) =~= before + lines_of(rest));
            }
            start = end + 1;
        }
    }
    proof {
        assert(chars@.skip(start as int) =~= Seq::<char>::empty());
        assert(texts(r@) + Seq::<Seq<char>>::empty() =~= texts(r@));
    }
    r
}

/// Joins lines with line feeds between them, from one place to another.
pub fn join_lines(lines: &Vec<String>, from: usize, to: usize) -> (r: String)
    requires
        from <= to <= lines.len(),
    ensures
        r@ == joined_lines(texts(lines@).subrange(from as int, to as int)),
{
    let ghost all = texts(lines@);
    if from == to {
        let r: String = String::new();
        assert(all.subrange(from as int, to as int) =~= Seq::<Seq<char>>::empty());
        assert(r@ =~= Seq::<char>::empty());
        return r;
    }
    let mut i: usize = to - 1;
    let mut r: String = lines[i].clone();
    proof {
        assert(all.subrange(i as int, to as int) =~= seq![lines@[i as int]@]);
    }
    while i > from
        invariant
            from <= i < to <= lines.len(),
            all == texts(lines@),
            r@ == joined_lines(all.subrange(i as int, to as int)),
        decreases i,
    {
        proof {
            reveal_strlit("\n");
            assert("\n"@ =~= seq!['\n']);
            let longer = all.subrange(i - 1, to as int);
            assert(longer.skip(1) =~= all.subrange(i as int, to as int));
            assert(longer[0] == lines@[i - 1]@);
        }
        r = concat3(lines[i - 1].as_str(), "\n", r.as_str());
        i = i - 1;
    }
    r
}

// ── Front matter ────────────────────────────────────────────────────────────

/// The parts of a workflow file.
#[derive(Debug)]
pub enum WorkflowParts {
    /// There is no front matter: all is the prompt.
    PromptOnly { body: String },
    /// The front matter and the prompt.
    FrontMatter { yaml: String, body: String },
    /// The front matter has no end.
    Unclosed,
}

/// The parts of a workflow file by their contents.
#[verifier::ext_equal]
pub enum WorkflowPartsV {
    PromptOnly { body: Seq<char> },
    FrontMatter { yaml: Seq<char>, body: Seq<char> },
    Unclosed,
}

impl View for WorkflowParts {
    type V = WorkflowPartsV;

    open spec fn view(&self) -> WorkflowPartsV {
        match self {
            WorkflowParts::PromptOnly { body } => WorkflowPartsV::PromptOnly { body: body@ },
            WorkflowParts::FrontMatter { yaml, body } => WorkflowPartsV::FrontMatter {
                yaml: yaml@,
                body: body@,
            },
            WorkflowParts::Unclosed => WorkflowPartsV::Unclosed,
        }
    }
}

/// Whether a line is nothing but `---` with white space around it.
pub open spec fn is_delimiter(line: Seq<char>) -> bool {
    trimmed(line) == "---"@
}

/// The first delimiter from a place on; the number of lines where there is none.
pub open spec fn closing_line(lines: Seq<Seq<char>>, from: nat) -> nat
    decreases lines.len() - from,
{
    if from >= lines.len() {
        lines.len()
    } else if is_delimiter(lines[from as int]) {
        from
    } else {
        closing_line(lines, from + 1)
    }
}

/// Whether a file opens with front matter: its first line is a delimiter.
pub open spec fn has_front_matter(content: Seq<char>) -> bool {
    let lines = lines_of(trimmed(content));
    lines.len() > 0 && is_delimiter(lines[0])
}

/// The parts of a workflow file: where its first line is a delimiter, the front
/// matter goes up to the next one.
pub open spec fn parts_of(content: Seq<char>) -> WorkflowPartsV {
    let text = trimmed(content);
    if !has_front_matter(content) {
        WorkflowPartsV::PromptOnly { body: text }
    } else {
        let lines = lines_of(text);
        let end = closing_line(lines, 1) as int;
        if end >= lines.len() {
            WorkflowPartsV::Unclosed
        } else {
            WorkflowPartsV::FrontMatter {
                yaml: trimmed(joined_lines(lines.subrange(1, end))),
                body: trimmed(joined_lines(lines.subrange(end + 1, lines.len() as int))),
            }
        }
    }
}

/// Takes a workflow file apart.
pub fn split_workflow(content: &str) -> (r: WorkflowParts)
    ensures
        r@ == parts_of(content@),
{
    let text: String = trim(content);
    let lines: Vec<String> = split_lines(text.as_str());
    let ghost all = texts(lines@);
    if lines.len() == 0 {
        return WorkflowParts::PromptOnly { body: text };
    }
    let first: String = trim(lines[0].as_str());
    assert(all[0] == lines@[0]@);
    if !text_eq(first.as_str(), "---") {
        return WorkflowParts::PromptOnly { body: text };
    }
    let mut end: usize = 1;
    while end < lines.len()
        invariant
            all == texts(lines@),
            all == lines_of(trimmed(content@)),
            has_front_matter(content@),
            1 <= end,
            closing_line(all, 1) == closing_line(all, end as nat),
        decreases lines.len() - end,
    {
        let line: String = trim(lines[end].as_str());
        assert(all[end as int] == lines@[end as int]@);
        if text_eq(line.as_str(), "---") {
            let yaml: String = join_lines(&lines, 1, end);
            let body: String = join_lines(&lines, end + 1, lines.len());
            return WorkflowParts::FrontMatter {
                yaml: trim(yaml.as_str()),
                body: trim(body.as_str()),
            };
        }
        end = end + 1;
    }
    WorkflowParts::Unclosed
}

// ── YAML ────────────────────────────────────────────────────────────────────

#[verifier::external_type_specification]
#[verifier::external_body]
pub struct ExYamlValue(serde_yaml::Value);

/// A YAML value by its contents: a number by its text, a mapping by its entries in
/// their order.
#[verifier::ext_equal]
pub enum YamlV {
    Null,
    Bool(bool),
    Number(Seq<char>),
    Text(Seq<char>),
    List(Seq<YamlV>),
    Mapping(Seq<(YamlV, YamlV)>),
    Tagged { tag: Seq<char>, value: Box<YamlV> },
}

/// What kind of YAML value there is.
#[derive(Debug, Clone, Copy, PartialEq, Eq, Structural)]
pub enum YamlShape {
    Null,
    Mapping,
    Other,
}

/// The kind of a value; tags make no difference to it.
pub open spec fn yaml_shape(v: YamlV) -> YamlShape
    decreases v,
{
    match v {
        YamlV::Null => YamlShape::Null,
        YamlV::Mapping(_) => YamlShape::Mapping,
        YamlV::Tagged { value, .. } => yaml_shape(*value),
        _ => YamlShape::Other,
    }
}

/// What a `serde_yaml::Value` holds.
pub uninterp spec fn yaml_contents(value: serde_yaml::Value) -> YamlV;

/// What `serde_yaml::from_str` reads from a text, or what it says against it.
pub uninterp spec fn yaml_parsed(text: Seq<char>) -> Result<YamlV, Seq<char>>;

/// Calls `serde_yaml::from_str` for a `Value`, and shows the error as text. Claimed
/// of it: what is read, and what is said against a text, is a function of the text.
#[verifier::external_body]
fn yaml_from_str(text: &str) -> (r: Result<serde_yaml::Value, String>)
    ensures
        match r {
            Ok(value) => yaml_parsed(text@) is Ok && yaml_parsed(text@)->Ok_0 == yaml_contents(
                value,
            ),
            Err(e) => yaml_parsed(text@) is Err && yaml_parsed(text@)->Err_0 == e@,
        },
{
    serde_yaml::from_str(text).map_err(|e: serde_yaml::Error| e.to_string())
}

/// Calls `Value::is_null` and `Value::is_mapping`. Claimed: they tell the kind of
/// what the value holds, whatever tags it carries.
#[verifier::external_body]
fn yaml_shape_of(value: &serde_yaml::Value) -> (r: YamlShape)
    ensures
        r == yaml_shape(yaml_contents(*value)),
{
    match (value.is_null(), value.is_mapping()) {
        (true, _) => YamlShape::Null,
        (_, true) => YamlShape::Mapping,
        _ => YamlShape::Other,
    }
}

/// The variant `Value::Null`, which holds nothing.
#[verifier::external_body]
fn yaml_null() -> (r: serde_yaml::Value)
    ensures
        yaml_contents(r) == YamlV::Null,
{
    serde_yaml::Value::Null
}

/// A workflow file that was taken apart: the front matter as YAML, and the prompt.
pub struct WorkflowDefinition {
    pub config: serde_yaml::Value,
    pub prompt_template: String,
}

/// Judges the front matter once it was read: it has to be a map, or nothing.
pub fn workflow_from_parts(
    parsed: Result<serde_yaml::Value, String>,
    shape: YamlShape,
    body: String,
) -> (r: Result<WorkflowDefinition, ConfigError>)
    ensures
        match r {
            Ok(w) => parsed is Ok && shape != YamlShape::Other && w.config == parsed->Ok_0
                && w.prompt_template@ == body@,
            Err(e) => match parsed {
                Ok(_) => shape == YamlShape::Other && e@ == ConfigErrorV::WorkflowFrontMatterNotAMap,
                Err(text) => e@ == ConfigErrorV::WorkflowParseError(text@),
            },
        },
{
    match parsed {
        Err(e) => Err(ConfigError::WorkflowParseError(e)),
        Ok(config) => match shape {
            YamlShape::Other => Err(ConfigError::WorkflowFrontMatterNotAMap),
            _ => Ok(WorkflowDefinition { config, prompt_template: body }),
        },
    }
}

/// Parse WORKFLOW.md content into front matter + prompt body.
/// Scans line-by-line for `---` delimiters (exact match after trimming).
pub fn parse_workflow_content(content: &str) -> (r: Result<WorkflowDefinition, ConfigError>)
    ensures
        match parts_of(content@) {
            WorkflowPartsV::PromptOnly { body } => r is Ok && yaml_contents(r->Ok_0.config)
                == YamlV::Null && r->Ok_0.prompt_template@ == body,
            WorkflowPartsV::Unclosed => r is Err && r->Err_0@ == ConfigErrorV::WorkflowParseError(
                "unclosed YAML front matter"@,
            ),
            WorkflowPartsV::FrontMatter { yaml, body } => match yaml_parsed(yaml) {
                Err(e) => r is Err && r->Err_0@ == ConfigErrorV::WorkflowParseError(e),
                Ok(value) => if yaml_shape(value) == YamlShape::Other {
                    r is Err && r->Err_0@ == ConfigErrorV::WorkflowFrontMatterNotAMap
                } else {
                    r is Ok && yaml_contents(r->Ok_0.config) == value
                        && r->Ok_0.prompt_template@ == body
                },
            },
        },
{
    match split_workflow(content) {
        WorkflowParts::PromptOnly { body } => Ok(
            WorkflowDefinition { config: yaml_null(), prompt_template: body },
        ),
        WorkflowParts::Unclosed => Err(
            ConfigError::WorkflowParseError("unclosed YAML front matter".to_owned()),
        ),
        WorkflowParts::FrontMatter { yaml, body } => {
            let parsed: Result<serde_yaml::Value, String> = yaml_from_str(yaml.as_str());
            let shape: YamlShape = match &parsed {
                Ok(value) => yaml_shape_of(value),
                Err(_) => YamlShape::Null,
            };
            workflow_from_parts(parsed, shape, body)
        },
    }
}

/// The error for a workflow file that cannot be read.
pub fn missing_workflow_file(path: &str, error: &str) -> (r: ConfigError)
    ensures
        r@ == ConfigErrorV::MissingWorkflowFile(path@ + ": "@ + error@),
{
    ConfigError::MissingWorkflowFile(concat3(path, ": ", error))
}

// ── Reload ──────────────────────────────────────────────────────────────────

/// The configuration after a workflow file has changed: the one that it holds with
/// its prompt or, where that is faulty, the last one that was not.
pub open spec fn reloaded(
    current: ServiceConfigV,
    raw: Result<RawConfigV, ConfigErrorV>,
    prompt_template: Seq<char>,
    workflow_dir: Seq<char>,
    env: EnvironmentV,
) -> ServiceConfigV {
    match raw {
        Ok(written) => if raw_check(written) is Ok {
            ServiceConfigV { prompt_template, ..config_of_raw(written, workflow_dir, env) }
        } else {
            current
        },
        Err(_) => current,
    }
}

/// Takes over a changed workflow file. `raw` is its front matter as it was written,
/// or what is wrong with the file. Where something is wrong the current
/// configuration stays, and the error is handed back.
pub fn reload_config(
    current: ServiceConfig,
    raw: Result<RawConfig, ConfigError>,
    prompt_template: String,
    workflow_dir: &str,
    env: &Environment,
) -> (r: (ServiceConfig, Option<ConfigError>))
    ensures
        r.0@ == reloaded(
            current@,
            match raw {
                Ok(written) => Ok(written@),
                Err(e) => Err(e@),
            },
            prompt_template@,
            workflow_dir@,
            env@,
        ),
        match r.1 {
            None => raw is Ok && raw_check(raw->Ok_0@) is Ok,
            Some(e) => match raw {
                Ok(written) => raw_check(written@) is Err && raw_check(written@)->Err_0 == e@,
                Err(fault) => e@ == fault@,
            },
        },
{
    match raw {
        Err(e) => (current, Some(e)),
        Ok(written) => match ServiceConfig::from_yaml(written, workflow_dir, env) {
            Ok(config) => {
                let mut next: ServiceConfig = config;
                next.prompt_template = prompt_template;
                (next, None)
            },
            Err(e) => (current, Some(e)),
        },
    }
}

// ── Laws ────────────────────────────────────────────────────────────────────

/// A workflow file whose first line is no delimiter is all prompt; a reload never
/// replaces a configuration by a faulty one.
pub proof fn law_workflow(
    content: Seq<char>,
    current: ServiceConfigV,
    raw: Result<RawConfigV, ConfigErrorV>,
    prompt_template: Seq<char>,
    workflow_dir: Seq<char>,
    env: EnvironmentV,
)
    ensures
        !has_front_matter(content) <==> parts_of(content) is PromptOnly,
        parts_of(content) matches WorkflowPartsV::PromptOnly { body } ==> body == trimmed(content),
        raw is Err || raw_check(raw->Ok_0) is Err ==> reloaded(
            current,
            raw,
            prompt_template,
            workflow_dir,
            env,
        ) == current,
{
}

proof fn lemma_closing_line(lines: Seq<Seq<char>>, from: nat)
    requires
        from <= lines.len(),
    ensures
        from <= closing_line(lines, from) <= lines.len(),
        closing_line(lines, from) < lines.len() ==> is_delimiter(
            lines[closing_line(lines, from) as int],
        ),
        forall|k: int| from <= k < closing_line(lines, from) ==> !is_delimiter(#[trigger] lines[k]),
    decreases lines.len() - from,
{
    if from < lines.len() && !is_delimiter(lines[from as int]) {
        lemma_closing_line(lines, from + 1);
    }
}

/// Whether the front matter ends at a line: the first after the opening one that is
/// nothing but `---`, with the front matter before and the prompt behind it.
pub open spec fn is_front_matter(
    lines: Seq<Seq<char>>,
    end: int,
    yaml: Seq<char>,
    body: Seq<char>,
) -> bool {
    &&& 1 <= end < lines.len()
    &&& is_delimiter(lines[end])
    &&& forall|k: int| 1 <= k < end ==> !is_delimiter(#[trigger] lines[k])
    &&& yaml == trimmed(joined_lines(lines.subrange(1, end)))
    &&& body == trimmed(joined_lines(lines.subrange(end + 1, lines.len() as int)))
}

/// The front matter ends at the first line after the opening one that is nothing
/// but `---`, and is not closed exactly where there is no such line.
pub proof fn law_front_matter_ends_at_the_first_delimiter(content: Seq<char>)
    requires
        has_front_matter(content),
    ensures
        parts_of(content) is Unclosed <==> forall|k: int|
            1 <= k < lines_of(trimmed(content)).len() ==> !is_delimiter(
                #[trigger] lines_of(trimmed(content))[k],
            ),
        parts_of(content) matches WorkflowPartsV::FrontMatter { yaml, body } ==> exists|end: int|
            #[trigger]
            is_front_matter(lines_of(trimmed(content)), end, yaml, body),
{
    let lines = lines_of(trimmed(content));
    lemma_closing_line(lines, 1);
    let end = closing_line(lines, 1) as int;
    if parts_of(content) is FrontMatter {
        assert(is_front_matter(
            lines,
            end,
            parts_of(content)->yaml,
            parts_of(content)->FrontMatter_body,
        ));
    }
}

// ── Laws of lines ───────────────────────────────────────────────────────────

/// A line goes up to the next line feed, without a carriage return before that; what is
/// behind the last line feed is a line where it is not empty.
pub proof fn law_lines(line: Seq<char>, rest: Seq<char>)
    requires
        !line.contains('\n'),
    ensures
        lines_of(Seq::empty()).len() == 0,
        line.len() > 0 ==> lines_of(line) == seq![line],
        !(line.len() > 0 && line.last() == '\r') ==> lines_of(line + seq!['\n'] + rest)
            == seq![line] + lines_of(rest),
        lines_of(line + seq!['\r', '\n'] + rest) == seq![line] + lines_of(rest),
{
    assert forall|i: int| 0 <= i < line.len() implies #[trigger] line[i] != '\n' by {
        assert(line.contains(line[i]));
    }
    if line.len() > 0 {
        lemma_first_at(line, '\n', line.len() as int);
    }
    let plain = line + seq!['\n'] + rest;
    lemma_first_at(plain, '\n', line.len() as int);
    assert(plain.take(line.len() as int) =~= line);
    assert(plain.skip((line.len() + 1) as int) =~= rest);
    let dropped = line + seq!['\r', '\n'] + rest;
    lemma_first_at(dropped, '\n', (line.len() + 1) as int);
    assert(dropped.take((line.len() + 1) as int) =~= line.push('\r'));
    assert(line.push('\r').drop_last() =~= line);
    assert(dropped.skip((line.len() + 2) as int) =~= rest);
}

/// Lines are joined with one line feed between each and the next.
pub proof fn law_joined_lines(line: Seq<char>, lines: Seq<Seq<char>>)
    ensures
        joined_lines(Seq::empty()).len() == 0,
        joined_lines(seq![line]) == line,
        lines.len() > 0 ==> joined_lines(seq![line] + lines) == line + seq!['\n'] + joined_lines(
            lines,
        ),
{
    assert((seq![line] + lines).skip(1) =~= lines);
}

/// Lines that were joined are found again, as long as none holds a line feed or ends with
/// a carriage return and the last is not empty.
pub proof fn law_joined_lines_are_found_again(lines: Seq<Seq<char>>)
    requires
        lines.len() > 0,
        lines.last().len() > 0,
        forall|i: int|
            0 <= i < lines.len() ==> !(#[trigger] lines[i]).contains('\n') && !(lines[i].len() > 0
                && lines[i].last() == '\r'),
    ensures
        lines_of(joined_lines(lines)) == lines,
    decreases lines.len(),
{
    let line = lines[0];
    let rest = lines.skip(1);
    if lines.len() == 1 {
        law_lines(line, Seq::empty());
        assert(lines =~= seq![line]);
    } else {
        assert(rest.last() == lines.last());
        assert forall|i: int| 0 <= i < rest.len() implies !(#[trigger] rest[i]).contains('\n') && !(
        rest[i].len() > 0 && rest[i].last() == '\r') by {
            assert(rest[i] == lines[i + 1]);
        }
        law_joined_lines_are_found_again(rest);
        law_lines(line, joined_lines(rest));
        assert(lines =~= seq![line] + rest);
    }
}

/// A line is a delimiter where it is three hyphens with nothing but white space around
/// them.
pub proof fn law_delimiters(line: Seq<char>, before: Seq<char>, behind: Seq<char>)
    ensures
        is_blank(before) && is_blank(behind) ==> is_delimiter(before + "---"@ + behind),
        is_delimiter(line) ==> exists|a: Seq<char>, b: Seq<char>|
            line == #[trigger] (a + "---"@ + b) && is_blank(a) && is_blank(b),
{
    reveal_strlit("---");
    law_only_white_space_is_cut_off(line);
    if is_blank(before) && is_blank(behind) {
        lemma_trimmed_between(before, "---"@, behind);
    }
}

/// What stands between white space is what is left of the whole.
pub proof fn lemma_trimmed_between(before: Seq<char>, s: Seq<char>, behind: Seq<char>)
    requires
        is_blank(before),
        is_blank(behind),
        s.len() > 0,
        !is_space(s[0]),
        !is_space(s.last()),
    ensures
        trimmed(before + s + behind) == s,
    decreases before.len() + behind.len(),
{
    let whole = before + s + behind;
    if before.len() > 0 {
        let rest = before.drop_first();
        assert forall|i: int| 0 <= i < rest.len() implies is_space(#[trigger] rest[i]) by {
            assert(rest[i] == before[i + 1]);
        }
        assert(whole[0] == before[0]);
        assert(whole.drop_first() =~= rest + s + behind);
        lemma_trimmed_between(rest, s, behind);
    } else if behind.len() > 0 {
        let rest = behind.drop_last();
        assert forall|i: int| 0 <= i < rest.len() implies is_space(#[trigger] rest[i]) by {
            assert(rest[i] == behind[i]);
        }
        lemma_trimmed_between(before, s, rest);
        let shorter = before + s + rest;
        assert(whole[0] == s[0]);
        assert(shorter[0] == s[0]);
        assert(trim_start(whole) == whole);
        assert(trim_start(shorter) == shorter);
        assert(whole.last() == behind.last());
        assert(whole.drop_last() =~= shorter);
    } else {
        assert(whole =~= s);
        assert(trim_start(s) == s);
        assert(trim_end(s) == s);
    }
}

/// A file opens with front matter where the first line of its text is a delimiter.
pub proof fn law_front_matter_opens_with_a_delimiter(
    content: Seq<char>,
    line: Seq<char>,
    rest: Seq<char>,
)
    requires
        trimmed(content) == line + seq!['\n'] + rest,
        !line.contains('\n'),
        !(line.len() > 0 && line.last() == '\r'),
    ensures
        trimmed(line) == "---"@ ==> !(parts_of(content) is PromptOnly),
        trimmed(line) != "---"@ ==> parts_of(content) == (WorkflowPartsV::PromptOnly {
            body: trimmed(content),
        }),
{
    law_lines(line, rest);
    assert((seq![line] + lines_of(rest))[0] == line);
}

/// Front matter between two delimiters and the prompt behind them are told apart, line by
/// line: the front matter is what stands between the delimiters, the prompt all that
/// follows.
pub proof fn law_parts_are_told_apart(
    content: Seq<char>,
    lines: Seq<Seq<char>>,
    open: Seq<char>,
    front: Seq<Seq<char>>,
    close: Seq<char>,
    prompt: Seq<Seq<char>>,
)
    requires
        lines_of(trimmed(content)) == lines,
        lines == seq![open] + front + seq![close] + prompt,
        trimmed(open) == "---"@,
        trimmed(close) == "---"@,
        forall|i: int| 0 <= i < front.len() ==> trimmed(#[trigger] front[i]) != "---"@,
    ensures
        parts_of(content) == (WorkflowPartsV::FrontMatter {
            yaml: trimmed(joined_lines(front)),
            body: trimmed(joined_lines(prompt)),
        }),
{
    let end = (front.len() + 1) as int;
    assert(lines[0] == open);
    assert(lines[end] == close);
    assert forall|k: int| 1 <= k < end implies !is_delimiter(#[trigger] lines[k]) by {
        assert(lines[k] == front[k - 1]);
    }
    lemma_closing_line(lines, 1);
    assert(closing_line(lines, 1) == end);
    assert(lines.subrange(1, end) =~= front);
    assert(lines.subrange(end + 1, lines.len() as int) =~= prompt);
}

/// Tags make no difference to what kind of value there is: nothing, a mapping, or
/// something else.
pub proof fn law_kinds_of_values(v: YamlV, tag: Seq<char>)
    ensures
        yaml_shape(YamlV::Null) == YamlShape::Null,
        v is Mapping ==> yaml_shape(v) == YamlShape::Mapping,
        v is Bool || v is Number || v is Text || v is List ==> yaml_shape(v) == YamlShape::Other,
        yaml_shape(YamlV::Tagged { tag, value: Box::new(v) }) == yaml_shape(v),
{
}

/// A sound change is taken over whole, with its prompt.
pub proof fn law_sound_changes_are_taken_over(
    current: ServiceConfigV,
    written: RawConfigV,
    prompt_template: Seq<char>,
    workflow_dir: Seq<char>,
    env: EnvironmentV,
)
    requires
        raw_check(written) is Ok,
    ensures
        ({
            let after = reloaded(current, Ok(written), prompt_template, workflow_dir, env);
            let config = config_of_raw(written, workflow_dir, env);
            &&& after.prompt_template == prompt_template
            &&& after == (ServiceConfigV { prompt_template, ..config })
        }),
{
}

} // verus!

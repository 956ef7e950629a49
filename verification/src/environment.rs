//! What the process finds around it: environment variables, the home directory,
//! and the paths that are written with them.
use crate::text::{
    chars_of, concat2, concat3, is_alphanumeric, is_ascii_alphanumeric, opt_text, string_of_range,
    text_eq,
};
use vstd::prelude::*;
use vstd::string::*;

verus! {

// ── Environment ─────────────────────────────────────────────────────────────

/// What the surroundings of the process say.
#[derive(Debug)]
pub struct Environment {
    /// Names of environment variables and their values.
    pub vars: Vec<(String, String)>,
    /// The home directory of the user, where one is known.
    pub home: Option<String>,
    /// The directory for temporary files.
    pub temp_dir: String,
}

/// The surroundings by their contents.
#[verifier::ext_equal]
pub struct EnvironmentV {
    pub vars: Seq<(Seq<char>, Seq<char>)>,
    pub home: Option<Seq<char>>,
    pub temp_dir: Seq<char>,
}

impl View for Environment {
    type V = EnvironmentV;

    open spec fn view(&self) -> EnvironmentV {
        EnvironmentV {
            vars: self.vars@.map_values(|v: (String, String)| (v.0@, v.1@)),
            home: opt_text(self.home),
            temp_dir: self.temp_dir@,
        }
    }
}

/// The value of a variable; nothing where it is not set.
pub open spec fn variable(vars: Seq<(Seq<char>, Seq<char>)>, name: Seq<char>) -> Seq<char>
    decreases vars.len(),
{
    if vars.len() == 0 {
        Seq::empty()
    } else if vars[0].0 == name {
        vars[0].1
    } else {
        variable(vars.skip(1), name)
    }
}

impl Environment {
    /// The value of a variable; empty where it is not set.
    pub fn var(&self, name: &str) -> (r: String)
        ensures
            r@ == variable(self@.vars, name@),
    {
        let mut i: usize = 0;
        assert(self@.vars.skip(0) =~= self@.vars);
        while i < self.vars.len()
            invariant
                i <= self.vars.len(),
                variable(self@.vars, name@) == variable(self@.vars.skip(i as int), name@),
            decreases self.vars.len() - i,
        {
            assert(self@.vars.skip(i as int)[0] == self@.vars[i as int]);
            assert(self@.vars.skip(i as int).skip(1) =~= self@.vars.skip(i + 1));
            if text_eq(self.vars[i].0.as_str(), name) {
                return self.vars[i].1.clone();
            }
            i = i + 1;
        }
        proof {
            reveal_strlit("");
            assert(""@ =~= Seq::<char>::empty());
        }
        "".to_owned()
    }
}

/// A character that can stand in the name of a variable.
pub open spec fn is_name_char(c: char) -> bool {
    is_alphanumeric(c) || c == '_'
}

/// How many characters at the start of a text can belong to a name.
pub open spec fn name_len(s: Seq<char>) -> nat
    decreases s.len(),
{
    if s.len() > 0 && is_name_char(s[0]) {
        1 + name_len(s.skip(1))
    } else {
        0
    }
}

/// Where a character first occurs; the length where it does not.
pub open spec fn first_at(s: Seq<char>, c: char) -> nat
    decreases s.len(),
{
    if s.len() > 0 && s[0] != c {
        1 + first_at(s.skip(1), c)
    } else {
        0
    }
}

/// What stands behind the `$` of a reference, with the variable put in.
pub open spec fn resolved_reference(
    rest: Seq<char>,
    vars: Seq<(Seq<char>, Seq<char>)>,
) -> Seq<char> {
    if rest.len() > 0 && rest[0] == '{' && first_at(rest, '}') < rest.len() {
        let end = first_at(rest, '}') as int;
        variable(vars, rest.subrange(1, end)) + rest.skip(end + 1)
    } else {
        let n = name_len(rest) as int;
        variable(vars, rest.take(n)) + rest.skip(n)
    }
}

/// A value with the variable that it starts with put in.
pub open spec fn resolved(value: Seq<char>, vars: Seq<(Seq<char>, Seq<char>)>) -> Seq<char> {
    if value.len() > 0 && value[0] == '$' {
        resolved_reference(value.skip(1), vars)
    } else {
        value
    }
}

proof fn lemma_name_len(s: Seq<char>, n: int)
    requires
        0 <= n <= s.len(),
        forall|i: int| 0 <= i < n ==> is_name_char(#[trigger] s[i]),
        n == s.len() || !is_name_char(s[n]),
    ensures
        name_len(s) == n,
    decreases s.len(),
{
    if n > 0 {
        let t = s.skip(1);
        assert(is_name_char(s[0]));
        assert forall|i: int| 0 <= i < n - 1 implies is_name_char(#[trigger] t[i]) by {
            assert(t[i] == s[i + 1]);
        }
        lemma_name_len(t, n - 1);
    }
}

pub proof fn lemma_first_at(s: Seq<char>, c: char, n: int)
    requires
        0 <= n <= s.len(),
        forall|i: int| 0 <= i < n ==> #[trigger] s[i] != c,
        n == s.len() || s[n] == c,
    ensures
        first_at(s, c) == n,
    decreases s.len(),
{
    if n > 0 {
        let t = s.skip(1);
        assert(s[0] != c);
        assert forall|i: int| 0 <= i < n - 1 implies #[trigger] t[i] != c by {
            assert(t[i] == s[i + 1]);
        }
        lemma_first_at(t, c, n - 1);
    }
}

/// Expands a `$NAME` or `${NAME}` at the start of a value and keeps what follows.
/// A variable that is not set stands for nothing.
pub fn resolve_env_var(value: &str, env: &Environment) -> (r: String)
    ensures
        r@ == resolved(value@, env@.vars),
{
    let chars: Vec<char> = chars_of(value);
    if chars.len() == 0 || chars[0] != '$' {
        return value.to_owned();
    }
    let ghost rest = value@.skip(1);
    if chars.len() > 1 && chars[1] == '{' {
        let mut end: usize = 1;
        while end < chars.len() && chars[end] != '}'
            invariant
                1 <= end <= chars.len(),
                chars@ == value@,
                rest == value@.skip(1),
                forall|i: int| 0 <= i < end - 1 ==> #[trigger] rest[i] != '}',
            decreases chars.len() - end,
        {
            assert(rest[end - 1] == value@[end as int]);
            end = end + 1;
        }
        proof {
            lemma_first_at(rest, '}', end - 1);
        }
        if end < chars.len() {
            let name: String = string_of_range(&chars, 2, end);
            let suffix: String = string_of_range(&chars, end + 1, chars.len());
            proof {
                assert(name@ =~= rest.subrange(1, end - 1));
                assert(suffix@ =~= rest.skip(end as int));
            }
            let found: String = env.var(name.as_str());
            return concat2(found.as_str(), suffix.as_str());
        }
    }
    let mut end: usize = 1;
    while end < chars.len() && (is_ascii_alphanumeric(chars[end]) || chars[end] == '_')
        invariant
            1 <= end <= chars.len(),
            chars@ == value@,
            rest == value@.skip(1),
            forall|i: int| 0 <= i < end - 1 ==> is_name_char(#[trigger] rest[i]),
        decreases chars.len() - end,
    {
        assert(rest[end - 1] == value@[end as int]);
        end = end + 1;
    }
    proof {
        lemma_name_len(rest, end - 1);
    }
    let name: String = string_of_range(&chars, 1, end);
    let suffix: String = string_of_range(&chars, end, chars.len());
    proof {
        assert(name@ =~= rest.take(end - 1));
        assert(suffix@ =~= rest.skip(end - 1));
    }
    let found: String = env.var(name.as_str());
    concat2(found.as_str(), suffix.as_str())
}

/// Both ways to write a reference give the variable's value, followed by what
/// follows the reference; a value without a `$` in front is left alone.
pub proof fn law_reference_keeps_suffix(
    name: Seq<char>,
    suffix: Seq<char>,
    vars: Seq<(Seq<char>, Seq<char>)>,
)
    requires
        forall|i: int| 0 <= i < name.len() ==> is_name_char(#[trigger] name[i]),
    ensures
        resolved(seq!['$', '{'] + name + seq!['}'] + suffix, vars) == variable(vars, name) + suffix,
        suffix.len() == 0 || !is_name_char(suffix[0]) && (name.len() > 0 || suffix[0] != '{')
            ==> resolved(seq!['$'] + name + suffix, vars) == variable(vars, name) + suffix,
        suffix.len() == 0 || suffix[0] != '$' ==> resolved(suffix, vars) == suffix,
{
    let braced = seq!['$', '{'] + name + seq!['}'] + suffix;
    let rest = braced.skip(1);
    assert(rest =~= seq!['{'] + name + seq!['}'] + suffix);
    assert forall|i: int| 0 <= i < name.len() + 1 implies #[trigger] rest[i] != '}' by {
        if i > 0 {
            assert(rest[i] == name[i - 1]);
            assert(is_name_char(name[i - 1]));
        }
    }
    lemma_first_at(rest, '}', name.len() as int + 1);
    assert(rest.subrange(1, name.len() as int + 1) =~= name);
    assert(rest.skip(name.len() as int + 2) =~= suffix);
    if suffix.len() == 0 || !is_name_char(suffix[0]) && (name.len() > 0 || suffix[0] != '{') {
        let plain = seq!['$'] + name + suffix;
        let tail = plain.skip(1);
        assert(tail =~= name + suffix);
        assert forall|i: int| 0 <= i < name.len() implies is_name_char(#[trigger] tail[i]) by {
            assert(tail[i] == name[i]);
        }
        lemma_name_len(tail, name.len() as int);
        assert(tail.take(name.len() as int) =~= name);
        assert(tail.skip(name.len() as int) =~= suffix);
        if name.len() > 0 {
            assert(is_name_char(name[0]));
            assert(tail[0] == name[0]);
        }
    }
}

// ── Paths ───────────────────────────────────────────────────────────────────

/// Whether a path starts at the root.
pub open spec fn is_absolute(path: Seq<char>) -> bool {
    path.len() > 0 && path[0] == '/'
}

/// A path seen from a directory.
pub open spec fn joined(dir: Seq<char>, path: Seq<char>) -> Seq<char> {
    if is_absolute(path) || dir.len() == 0 {
        path
    } else if dir.last() == '/' {
        dir + path
    } else {
        dir + seq!['/'] + path
    }
}

/// Puts a path behind a directory; a path that starts at the root stays.
pub fn join_path(dir: &str, path: &str) -> (r: String)
    ensures
        r@ == joined(dir@, path@),
{
    let d: Vec<char> = chars_of(dir);
    let p: Vec<char> = chars_of(path);
    if d.len() == 0 || (p.len() > 0 && p[0] == '/') {
        path.to_owned()
    } else if d[d.len() - 1] == '/' {
        concat2(dir, path)
    } else {
        proof {
            reveal_strlit("/");
            assert("/"@ =~= seq!['/']);
        }
        concat3(dir, "/", path)
    }
}

/// A path with a leading `~` put in place.
pub open spec fn home_expanded(path: Seq<char>, home: Option<Seq<char>>) -> Seq<char> {
    if path.len() > 0 && path[0] == '~' && home is Some {
        home->0 + path.skip(1)
    } else {
        path
    }
}

/// The path that a configured path stands for.
pub open spec fn expanded_path(
    raw: Seq<char>,
    workflow_dir: Seq<char>,
    env: EnvironmentV,
) -> Seq<char> {
    let path = home_expanded(resolved(raw, env.vars), env.home);
    if is_absolute(path) {
        path
    } else {
        joined(workflow_dir, path)
    }
}

/// Expands `~` and `$VAR` in a path. A relative path is seen from `workflow_dir`.
pub fn expand_path(raw: &str, workflow_dir: &str, env: &Environment) -> (r: String)
    ensures
        r@ == expanded_path(raw@, workflow_dir@, env@),
{
    let path: String = resolve_env_var(raw, env);
    let chars: Vec<char> = chars_of(path.as_str());
    let expanded: String = if chars.len() > 0 && chars[0] == '~' {
        match &env.home {
            Some(home) => {
                let tail: String = string_of_range(&chars, 1, chars.len());
                assert(tail@ =~= path@.skip(1));
                concat2(home.as_str(), tail.as_str())
            },
            None => path,
        }
    } else {
        path
    };
    join_path(workflow_dir, expanded.as_str())
}

/// Where workspaces go when nothing is configured.
pub open spec fn default_root(env: EnvironmentV) -> Seq<char> {
    joined(env.temp_dir, "symphony_workspaces"@)
}

/// Where workspaces go when nothing is configured.
pub fn default_workspace_root(env: &Environment) -> (r: String)
    ensures
        r@ == default_root(env@),
{
    join_path(env.temp_dir.as_str(), "symphony_workspaces")
}

// ── Laws of the surroundings ────────────────────────────────────────────────

/// A variable has the value of the first entry of its name, and none where no entry has
/// it.
pub proof fn law_variables_by_name(vars: Seq<(Seq<char>, Seq<char>)>, name: Seq<char>, k: int)
    ensures
        0 <= k < vars.len() && vars[k].0 == name && (forall|i: int|
            0 <= i < k ==> (#[trigger] vars[i]).0 != name) ==> variable(vars, name) == vars[k].1,
        (forall|i: int| 0 <= i < vars.len() ==> (#[trigger] vars[i]).0 != name) ==> variable(
            vars,
            name,
        ).len() == 0,
    decreases vars.len(),
{
    if vars.len() > 0 {
        let rest = vars.skip(1);
        law_variables_by_name(rest, name, k - 1);
        if 0 < k < vars.len() && vars[k].0 == name && (forall|i: int|
            0 <= i < k ==> (#[trigger] vars[i]).0 != name) {
            assert(vars[0].0 != name);
            assert(rest[k - 1] == vars[k]);
            assert forall|i: int| 0 <= i < k - 1 implies (#[trigger] rest[i]).0 != name by {
                assert(rest[i] == vars[i + 1]);
            }
        }
        if forall|i: int| 0 <= i < vars.len() ==> (#[trigger] vars[i]).0 != name {
            assert(vars[0].0 != name);
            assert forall|i: int| 0 <= i < rest.len() implies (#[trigger] rest[i]).0 != name by {
                assert(rest[i] == vars[i + 1]);
            }
        }
    }
}

/// Where a character first occurs it stands, and before that place it does not.
pub proof fn law_first_places(s: Seq<char>, c: char, i: int)
    ensures
        first_at(s, c) <= s.len(),
        first_at(s, c) < s.len() ==> s[first_at(s, c) as int] == c,
        0 <= i < first_at(s, c) ==> s[i] != c,
        s.contains(c) <==> first_at(s, c) < s.len(),
    decreases s.len(),
{
    if s.len() > 0 && s[0] != c {
        let rest = s.skip(1);
        law_first_places(rest, c, i - 1);
        if s.contains(c) {
            let k = choose|k: int| 0 <= k < s.len() && s[k] == c;
            assert(rest[k - 1] == c);
        }
    }
}

/// Between braces any name stands for its variable, up to the first brace that closes;
/// without one that closes, the `$` stands for the variable without a name, and all behind
/// it stays.
pub proof fn law_references_in_braces(
    name: Seq<char>,
    suffix: Seq<char>,
    vars: Seq<(Seq<char>, Seq<char>)>,
)
    requires
        !name.contains('}'),
    ensures
        resolved(seq!['$', '{'] + name + seq!['}'] + suffix, vars) == variable(vars, name) + suffix,
        resolved(seq!['$', '{'] + name, vars) == variable(vars, Seq::empty()) + seq!['{'] + name,
{
    let n = name.len() as int;
    let closed = seq!['$', '{'] + name + seq!['}'] + suffix;
    let rest = closed.skip(1);
    assert forall|i: int| 0 <= i < n + 1 implies #[trigger] rest[i] != '}' by {
        if i > 0 {
            assert(rest[i] == name[i - 1]);
        }
    }
    lemma_first_at(rest, '}', n + 1);
    assert(rest.subrange(1, n + 1) =~= name);
    assert(rest.skip(n + 2) =~= suffix);
    let open = seq!['$', '{'] + name;
    let tail = open.skip(1);
    assert forall|i: int| 0 <= i < tail.len() implies #[trigger] tail[i] != '}' by {
        if i > 0 {
            assert(tail[i] == name[i - 1]);
        }
    }
    lemma_first_at(tail, '}', tail.len() as int);
    lemma_name_len(tail, 0);
    assert(tail.take(0) =~= Seq::<char>::empty());
    assert(tail.skip(0) =~= seq!['{'] + name);
    assert(variable(vars, Seq::empty()) + seq!['{'] + name =~= variable(vars, Seq::empty()) + (
    seq!['{'] + name));
}

/// Letters, digits and underscores make up the names of variables.
pub proof fn law_names_of_variables(c: char)
    ensures
        is_name_char(c) <==> 'a' <= c <= 'z' || 'A' <= c <= 'Z' || '0' <= c <= '9' || c == '_',
{
}

/// A path behind a directory keeps both, with one slash between them; a path from the
/// root stays as it is.
pub proof fn law_joined_paths(dir: Seq<char>, path: Seq<char>)
    ensures
        path.len() > 0 && path[0] == '/' ==> joined(dir, path) == path,
        dir.len() == 0 ==> joined(dir, path) == path,
        dir.len() > 0 && dir.last() == '/' && !(path.len() > 0 && path[0] == '/') ==> joined(
            dir,
            path,
        ) == dir + path,
        dir.len() > 0 && dir.last() != '/' && !(path.len() > 0 && path[0] == '/') ==> joined(
            dir,
            path,
        ) == dir + seq!['/'] + path,
{
}

/// A configured path from the root stays; one from the home directory gets that in front;
/// any other is seen from the directory of the workflow; and a reference is put in before
/// any of this.
pub proof fn law_configured_paths(
    raw: Seq<char>,
    rest: Seq<char>,
    dir: Seq<char>,
    env: EnvironmentV,
    home: Seq<char>,
)
    ensures
        raw.len() > 0 && raw[0] == '/' ==> expanded_path(raw, dir, env) == raw,
        raw.len() > 0 && raw[0] != '/' && raw[0] != '$' && raw[0] != '~' ==> expanded_path(
            raw,
            dir,
            env,
        ) == joined(dir, raw),
        env.home == Some(home) && home.len() > 0 && home[0] == '/' ==> expanded_path(
            seq!['~'] + rest,
            dir,
            env,
        ) == home + rest,
        env.home is None ==> expanded_path(seq!['~'] + rest, dir, env) == joined(
            dir,
            seq!['~'] + rest,
        ),
        raw.len() > 0 && raw[0] == '$' && !(resolved(raw, env.vars).len() > 0 && resolved(
            raw,
            env.vars,
        )[0] == '$') ==> expanded_path(raw, dir, env) == expanded_path(
            resolved(raw, env.vars),
            dir,
            env,
        ),
{
    assert((seq!['~'] + rest).skip(1) =~= rest);
}

/// Where nothing is configured workspaces go to a directory of the program's own within
/// the one for temporary files.
pub proof fn law_default_root(env: EnvironmentV)
    ensures
        env.temp_dir.len() > 0 && env.temp_dir.last() != '/' ==> default_root(env) == env.temp_dir
            + "/symphony_workspaces"@,
        env.temp_dir.len() > 0 && env.temp_dir.last() == '/' ==> default_root(env) == env.temp_dir
            + "symphony_workspaces"@,
{
    reveal_strlit("symphony_workspaces");
    reveal_strlit("/symphony_workspaces");
    assert("symphony_workspaces"@[0] == 's');
    assert(seq!['/'] + "symphony_workspaces"@ =~= "/symphony_workspaces"@);
    assert(env.temp_dir + seq!['/'] + "symphony_workspaces"@ =~= env.temp_dir + (seq!['/']
        + "symphony_workspaces"@));
}

} // verus!

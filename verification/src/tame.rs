//! Templates that `liquid` can be trusted with.
use crate::text::{
    chars_of, is_alphanumeric, is_ascii_alphanumeric, is_digit, is_space, is_white_space,
    string_of_range, text_eq, trim, trimmed,
};
use vstd::prelude::*;
use vstd::string::*;

verus! {

// ── Tame templates ──────────────────────────────────────────────────────────

/// Whether an output (`{{`) or a tag (`{%`) begins at a place.
pub open spec fn opens(s: Seq<char>, i: int) -> bool {
    0 <= i && i + 1 < s.len() && s[i] == '{' && (s[i + 1] == '{' || s[i + 1] == '%')
}

/// Whether an output or a tag ends at a place; `kind` is the second character of
/// its beginning.
pub open spec fn closes(s: Seq<char>, kind: char, i: int) -> bool {
    0 <= i && i + 1 < s.len() && s[i + 1] == '}' && s[i] == (if kind == '{' {
        '}'
    } else {
        '%'
    })
}

/// The first end from a place on; the end of the text where there is none.
pub open spec fn first_end(s: Seq<char>, kind: char, from: nat) -> nat
    decreases s.len() - from,
{
    if from >= s.len() {
        s.len()
    } else if closes(s, kind, from as int) {
        from
    } else {
        first_end(s, kind, from + 1)
    }
}

/// The quote that is still open at the end of a text.
pub open spec fn open_quote(s: Seq<char>) -> Option<char>
    decreases s.len(),
{
    if s.len() == 0 {
        None
    } else {
        match open_quote(s.drop_last()) {
            Some(q) => if s.last() == q {
                None
            } else {
                Some(q)
            },
            None => if is_quote(s.last()) {
                Some(s.last())
            } else {
                None
            },
        }
    }
}

/// The characters around a string in a template.
pub open spec fn is_quote(c: char) -> bool {
    c == '\'' || c == '"'
}

/// The white space that a template may hold between its words.
pub open spec fn is_gap(c: char) -> bool {
    c == ' ' || c == '\n' || c == '\r'
}

/// How many bytes a character takes in UTF-8.
pub open spec fn utf8_width(c: char) -> nat {
    if (c as u32) < 0x80 {
        1
    } else if (c as u32) < 0x800 {
        2
    } else if (c as u32) < 0x1_0000 {
        3
    } else {
        4
    }
}

/// Where the line of a place begins.
pub open spec fn line_start(s: Seq<char>, at: nat) -> nat
    decreases at,
{
    if at == 0 || s[at - 1] == '\n' {
        at
    } else {
        line_start(s, (at - 1) as nat)
    }
}

/// Where a text is cut that is read from a place on for so many bytes, whole
/// characters only.
pub open spec fn cut_after(s: Seq<char>, from: nat, room: nat) -> nat
    decreases s.len() - from,
{
    if from < s.len() && utf8_width(s[from as int]) <= room {
        cut_after(s, from + 1, (room - utf8_width(s[from as int])) as nat)
    } else {
        from
    }
}

/// Whether `liquid` may find at `x` that the output or the tag at `p` is broken: that
/// is where it begins, or in the white space before it that its hyphen takes.
pub open spec fn breaks_at(s: Seq<char>, p: int, x: int) -> bool {
    &&& opens(s, p)
    &&& 0 <= x <= p
    &&& x == p || (p + 2 < s.len() && s[p + 2] == '-' && forall|k: int|
        x <= k < p ==> is_gap(#[trigger] s[k]))
}

/// Whether the error message for what is broken at `x` comes out. `liquid` makes it by
/// reading the line again, up to as many bytes as there are characters before `x`, and
/// then from `x` on: this must not end within a string of the output or the tag from
/// `i` to `end`, which would run on over what is broken.
pub open spec fn is_clear_cut(s: Seq<char>, i: int, end: int, x: int) -> bool {
    let line = line_start(s, x as nat);
    let cut = cut_after(s, line, (x - line) as nat) as int;
    line <= i && end <= x ==> {
        ||| cut <= i + 2
        ||| end <= cut
        ||| open_quote(s.subrange(i + 2, cut)) is None
    }
}

/// Whether the error messages for all that is broken further on come out.
pub open spec fn has_clear_cuts(s: Seq<char>, i: int, end: int) -> bool {
    forall|p: int, x: int| i < p && #[trigger] breaks_at(s, p, x) ==> is_clear_cut(s, i, end, x)
}

/// How many digits stand directly before a place.
pub open spec fn digits_before(s: Seq<char>, i: nat) -> nat
    recommends
        i <= s.len(),
    decreases i,
{
    if i == 0 || !is_digit(s[i - 1]) {
        0
    } else {
        1 + digits_before(s, (i - 1) as nat)
    }
}

/// No number in the text has more digits than that.
pub open spec fn no_long_number(s: Seq<char>, most: nat) -> bool {
    forall|i: nat| i <= s.len() ==> #[trigger] digits_before(s, i) <= most
}

/// How often a character stands in a text.
pub open spec fn occurrences(s: Seq<char>, c: char) -> nat
    decreases s.len(),
{
    if s.len() == 0 {
        0
    } else {
        occurrences(s.drop_last(), c) + (if s.last() == c {
            1nat
        } else {
            0nat
        })
    }
}

/// The first place from another on that holds no white space.
pub open spec fn past_space(s: Seq<char>, from: nat) -> nat
    decreases s.len() - from,
{
    if from < s.len() && is_space(s[from as int]) {
        past_space(s, from + 1)
    } else {
        from
    }
}

/// The first place from another on that holds neither a letter, a digit, an
/// underscore nor a hyphen.
pub open spec fn past_word(s: Seq<char>, from: nat) -> nat
    decreases s.len() - from,
{
    if from < s.len() && (is_alphanumeric(s[from as int]) || s[from as int] == '_' || s[from as int]
        == '-') {
        past_word(s, from + 1)
    } else {
        from
    }
}

/// A word without the hyphens at its end: there they belong to what closes an output
/// or a tag.
pub open spec fn without_hyphens(w: Seq<char>) -> Seq<char>
    decreases w.len(),
{
    if w.len() > 0 && w.last() == '-' {
        without_hyphens(w.drop_last())
    } else {
        w
    }
}

/// The name behind the white space at a place.
pub open spec fn name_at(s: Seq<char>, from: nat) -> Seq<char> {
    let start = past_space(s, from);
    without_hyphens(s.subrange(start as int, past_word(s, start) as int))
}

/// Where the name behind the white space at a place ends, hyphens included.
pub open spec fn past_name(s: Seq<char>, from: nat) -> nat {
    past_word(s, past_space(s, from))
}

/// The first `|` from a place on; the end of the text where there is none.
pub open spec fn next_pipe(s: Seq<char>, from: nat) -> nat
    decreases s.len() - from,
{
    if from >= s.len() {
        s.len()
    } else if s[from as int] == '|' {
        from
    } else {
        next_pipe(s, from + 1)
    }
}

/// What a filter is given: all that stands between its name, behind the `|` at a
/// place, and the next filter.
pub open spec fn filter_args(s: Seq<char>, i: int) -> Seq<char> {
    let start = past_name(s, (i + 1) as nat);
    s.subrange(start as int, next_pipe(s, start) as int)
}

/// Whether a hyphen is the sign of a number.
pub open spec fn is_sign(s: Seq<char>, i: int) -> bool {
    0 < i < s.len() - 1 && (s[i - 1] == ' ' || s[i - 1] == ':' || s[i - 1] == ',') && is_digit(
        s[i + 1],
    )
}

/// Whether there are only whole numbers, and what separates them.
pub open spec fn is_numbers(s: Seq<char>) -> bool {
    forall|i: int|
        0 <= i < s.len() ==> is_digit(#[trigger] s[i]) || s[i] == ' ' || s[i] == '\n' || s[i] == ':'
            || s[i] == ',' || s[i] == '+' || (s[i] == '-' && is_sign(s, i))
}

/// The filters that compute with integers, read the clock, or sort by an order that
/// need not be one.
pub open spec fn is_risky_filter(w: Seq<char>) -> bool {
    w == "abs"@ || w == "date"@ || w == "divided_by"@ || w == "minus"@ || w == "modulo"@ || w
        == "plus"@ || w == "slice"@ || w == "sort"@ || w == "times"@
}

/// A number that is written out.
pub open spec fn is_number_text(w: Seq<char>) -> bool {
    &&& w.len() > 0
    &&& is_digit(w[0])
    &&& forall|i: int| 0 <= i < w.len() ==> is_digit(#[trigger] w[i]) || w[i] == '.'
}

/// The variables that hold a number of 32 bits.
pub open spec fn is_small_variable(w: Seq<char>) -> bool {
    w == "attempt"@ || w == "issue.priority"@
}

/// The variables that say how many there are.
pub open spec fn is_count_variable(w: Seq<char>) -> bool {
    w == "issue.labels.size"@ || w == "issue.blocked_by.size"@ || w == "forloop.length"@ || w
        == "forloop.index"@ || w == "forloop.index0"@ || w == "forloop.rindex"@ || w
        == "forloop.rindex0"@
}

/// Whether what is written there is far from the limits of an integer; `steady` says
/// that the variables are those that were given.
pub open spec fn is_bounded(w: Seq<char>, steady: bool) -> bool {
    is_number_text(w) || (steady && (is_small_variable(w) || is_count_variable(w)))
}

/// Where that begins which the filter behind the `|` at a place is applied to: behind
/// the last `=`, or else behind the hyphen of an output.
pub open spec fn input_start(s: Seq<char>, i: nat) -> nat
    decreases i,
{
    if i == 0 || s[i - 1] == '=' || (i == 1 && s[0] == '-') {
        i
    } else {
        input_start(s, (i - 1) as nat)
    }
}

/// What the filter behind the `|` at a place is applied to.
pub open spec fn filter_input(s: Seq<char>, i: int) -> Seq<char> {
    trimmed(s.subrange(input_start(s, i as nat) as int, i))
}

/// Whether the filter behind the `|` at a place neither overflows nor sorts what has
/// no order: it is not risky, or cuts at given numbers, or divides by numbers that are
/// not negative, or computes with numbers far from the limits, or sorts the labels.
pub open spec fn is_calm_filter(inner: Seq<char>, i: int, steady: bool) -> bool {
    let w = name_at(inner, (i + 1) as nat);
    let args = filter_args(inner, i);
    let input = filter_input(inner, i);
    ||| !is_risky_filter(w)
    ||| w == "slice"@ && is_numbers(args)
    ||| (w == "divided_by"@ || w == "modulo"@) && is_numbers(args) && (occurrences(args, '-') == 0
        || is_bounded(input, steady))
    ||| (w == "plus"@ || w == "minus"@) && is_numbers(args) && is_bounded(input, steady)
    ||| w == "times"@ && is_numbers(args) && no_long_number(args, 9) && steady
        && is_small_variable(input)
    ||| w == "abs"@ && is_bounded(input, steady)
    ||| w == "sort"@ && steady && input == "issue.labels"@
}

/// Whether every filter is calm.
pub open spec fn has_calm_filters(inner: Seq<char>, steady: bool) -> bool {
    forall|i: int|
        0 <= i < inner.len() && #[trigger] inner[i] == '|' ==> is_calm_filter(inner, i, steady)
}

/// How many digits stand directly behind a place.
pub open spec fn digits_from(s: Seq<char>, i: nat) -> nat
    decreases s.len() - i,
{
    if i >= s.len() || !is_digit(s[i as int]) {
        0
    } else {
        1 + digits_from(s, i + 1)
    }
}

/// The place behind the last opening bracket before a place; the beginning where there
/// is none.
pub open spec fn behind_bracket(s: Seq<char>, i: nat) -> nat
    decreases i,
{
    if i == 0 || s[i - 1] == '(' {
        i
    } else {
        behind_bracket(s, (i - 1) as nat)
    }
}

/// The first closing bracket from a place on; the end of the text where there is none.
pub open spec fn next_bracket(s: Seq<char>, from: nat) -> nat
    decreases s.len() - from,
{
    if from >= s.len() {
        s.len()
    } else if s[from as int] == ')' {
        from
    } else {
        next_bracket(s, from + 1)
    }
}

/// Whether a range may begin or end there: a number of at most seven digits, or how
/// many there are of something.
pub open spec fn is_range_end(w: Seq<char>, steady: bool) -> bool {
    ||| 1 <= w.len() <= 7 && forall|i: int| 0 <= i < w.len() ==> is_digit(#[trigger] w[i])
    ||| steady && is_count_variable(w)
}

/// Whether the two dots at a place stand in brackets between numbers that are not too
/// large.
pub open spec fn is_small_range(s: Seq<char>, i: int, steady: bool) -> bool {
    let open = behind_bracket(s, i as nat) as int;
    let close = next_bracket(s, (i + 2) as nat) as int;
    &&& open > 0
    &&& close < s.len()
    &&& is_range_end(trimmed(s.subrange(open, i)), steady)
    &&& is_range_end(trimmed(s.subrange(i + 2, close)), steady)
}

/// Every range is small.
pub open spec fn has_small_ranges(s: Seq<char>, steady: bool) -> bool {
    forall|i: int|
        0 <= i < s.len() - 1 && #[trigger] s[i] == '.' && s[i + 1] == '.' ==> is_small_range(
            s,
            i,
            steady,
        )
}

/// The inside of an output or a tag without the hyphen that belongs to its end.
pub open spec fn without_closer(inner: Seq<char>) -> Seq<char> {
    if inner.len() > 0 && inner.last() == '-' {
        inner.drop_last()
    } else {
        inner
    }
}

/// The inside of an output or a tag that `liquid` can be trusted with: a path is not too
/// deep, there are few brackets, no long number, small ranges and calm filters.
pub open spec fn is_calm(inner: Seq<char>, steady: bool) -> bool {
    &&& occurrences(inner, '.') <= 1000
    &&& occurrences(inner, '[') <= 20
    &&& no_long_number(inner, 18)
    &&& has_small_ranges(inner, steady)
    &&& has_calm_filters(without_closer(inner), steady)
}

/// Where the name of a tag is looked for: behind the hyphen of the tag.
pub open spec fn tag_start(inner: Seq<char>) -> nat {
    if inner.len() > 0 && inner[0] == '-' {
        1
    } else {
        0
    }
}

/// The name of a tag.
pub open spec fn tag_name(inner: Seq<char>) -> Seq<char> {
    name_at(inner, tag_start(inner))
}

/// The name that follows the name of a tag.
pub open spec fn tag_subject(inner: Seq<char>) -> Seq<char> {
    name_at(inner, past_name(inner, tag_start(inner)))
}

/// The tags that give a variable its value.
pub open spec fn is_setter(w: Seq<char>) -> bool {
    w == "assign"@ || w == "capture"@ || w == "for"@ || w == "tablerow"@ || w == "increment"@ || w
        == "decrement"@
}

/// The tags that hold others.
pub open spec fn is_nesting(w: Seq<char>) -> bool {
    w == "if"@ || w == "unless"@ || w == "elsif"@ || w == "case"@ || w == "for"@ || w
        == "tablerow"@ || w == "capture"@ || w == "ifchanged"@
}

/// The inside of the output or the tag that begins at a place.
pub open spec fn inside(s: Seq<char>, i: int) -> Seq<char> {
    s.subrange(i + 2, first_end(s, s[i + 1], (i + 2) as nat) as int)
}

/// Whether a tag begins at a place that holds others, or text, or ends a comment.
pub open spec fn bounds_at(s: Seq<char>, i: int) -> bool {
    let w = tag_name(inside(s, i));
    &&& opens(s, i)
    &&& s[i + 1] == '%'
    &&& is_nesting(w) || w == "raw"@ || w == "comment"@ || w == "endcomment"@
}

/// The first such place from another on; the end of the text where there is none.
pub open spec fn next_bound(s: Seq<char>, from: nat) -> nat
    decreases s.len() - from,
{
    if from >= s.len() {
        s.len()
    } else if bounds_at(s, from as int) {
        from
    } else {
        next_bound(s, from + 1)
    }
}

/// The ways to write the end of a comment.
pub open spec fn ends_comment(inner: Seq<char>) -> bool {
    inner == " endcomment "@ || inner == "endcomment"@ || inner == "- endcomment -"@ || inner
        == "-endcomment-"@ || inner == "- endcomment "@ || inner == " endcomment -"@
}

/// Whether a comment that is opened before a place holds no tag that holds others.
pub open spec fn is_bare_comment(s: Seq<char>, from: nat) -> bool {
    let next = next_bound(s, from) as int;
    next < s.len() ==> first_end(s, '%', (next + 2) as nat) < s.len() && ends_comment(
        inside(s, next),
    )
}

/// Whether a number of columns is asked for at a place.
pub open spec fn asks_columns(inner: Seq<char>, k: int) -> bool {
    0 <= k && k + 4 <= inner.len() && inner.subrange(k, k + 4) == "cols"@
}

/// Whether a colon and a number above zero stand behind a place.
pub open spec fn is_positive_after(inner: Seq<char>, from: nat) -> bool {
    let colon = past_space(inner, from);
    let digit = past_space(inner, colon + 1);
    &&& colon < inner.len() && inner[colon as int] == ':'
    &&& digit < inner.len() && '1' <= inner[digit as int] <= '9'
    &&& digits_from(inner, digit) <= 9
}

/// The tags that hold a condition.
pub open spec fn is_condition(w: Seq<char>) -> bool {
    w == "if"@ || w == "elsif"@ || w == "unless"@
}

/// Whether a tag is tame: a condition is not too long, a comment holds no tag that
/// holds others, what counts in turn has values to count, and a table has columns.
pub open spec fn is_tame_tag(s: Seq<char>, inner: Seq<char>, end: nat) -> bool {
    let w = tag_name(inner);
    let text = trimmed(without_closer(inner));
    &&& is_condition(w) ==> inner.len() <= 1000
    &&& w == "comment"@ ==> is_bare_comment(s, end)
    &&& w == "cycle"@ ==> text.len() > 0 && text.last() != ':'
    &&& w == "tablerow"@ ==> forall|k: int| #[trigger]
        asks_columns(inner, k) ==> is_positive_after(inner, (k + 4) as nat)
}

/// Whether the output or the tag that begins at a place is tame: its inside is calm,
/// nothing else begins in it, its strings end in it and mislead no error message, and a
/// tag is tame itself.
pub open spec fn is_tame_at(s: Seq<char>, i: int, steady: bool) -> bool {
    let end = first_end(s, s[i + 1], (i + 2) as nat) as int;
    let inner = s.subrange(i + 2, end);
    &&& is_calm(inner, steady)
    &&& forall|k: int| i < k < end ==> !#[trigger] opens(s, k)
    &&& end < s.len() ==> open_quote(inner) is None
    &&& has_clear_cuts(s, i, end)
    &&& s[i + 1] == '%' ==> is_tame_tag(s, inner, end as nat)
}

/// Whether a tag that gives a value to a variable that was given begins at a place.
pub open spec fn overrides_at(s: Seq<char>, i: int) -> bool {
    let inner = inside(s, i);
    let subject = tag_subject(inner);
    &&& opens(s, i)
    &&& s[i + 1] == '%'
    &&& is_setter(tag_name(inner))
    &&& subject == "attempt"@ || subject == "issue"@ || subject == "forloop"@
}

/// Whether the variables stay those that were given.
pub open spec fn is_steady(s: Seq<char>) -> bool {
    forall|i: int| #[trigger] opens(s, i) ==> !overrides_at(s, i)
}

/// Whether a tag that holds others begins at a place.
pub open spec fn nests_at(s: Seq<char>, i: int) -> bool {
    opens(s, i) && s[i + 1] == '%' && is_nesting(tag_name(inside(s, i)))
}

/// How many tags that hold others begin before a place.
pub open spec fn nests_before(s: Seq<char>, n: nat) -> nat
    decreases n,
{
    if n == 0 {
        0
    } else {
        nests_before(s, (n - 1) as nat) + (if nests_at(s, n - 1) {
            1nat
        } else {
            0nat
        })
    }
}

/// A template on which `liquid` neither overflows its integers or its stack nor
/// trips over its own error messages.
pub open spec fn is_tame(s: Seq<char>) -> bool {
    &&& forall|i: int| #[trigger] opens(s, i) ==> is_tame_at(s, i, is_steady(s))
    &&& nests_before(s, s.len()) <= 100
}

// ── Telling them apart ──────────────────────────────────────────────────────

fn end_of_tag(chars: &Vec<char>, kind: char, from: usize) -> (r: usize)
    requires
        from <= chars.len(),
    ensures
        r == first_end(chars@, kind, from as nat),
        from <= r <= chars.len(),
{
    let closing: char = if kind == '{' {
        '}'
    } else {
        '%'
    };
    let mut i: usize = from;
    while i < chars.len()
        invariant
            from <= i <= chars.len(),
            closing == (if kind == '{' {
                '}'
            } else {
                '%'
            }),
            first_end(chars@, kind, from as nat) == first_end(chars@, kind, i as nat),
        decreases chars.len() - i,
    {
        if i + 1 < chars.len() && chars[i + 1] == '}' && chars[i] == closing {
            return i;
        }
        i = i + 1;
    }
    i
}

fn part(chars: &Vec<char>, from: usize, to: usize) -> (r: Vec<char>)
    requires
        from <= to <= chars.len(),
    ensures
        r@ == chars@.subrange(from as int, to as int),
{
    let mut r: Vec<char> = Vec::new();
    let mut i: usize = from;
    while i < to
        invariant
            from <= i <= to <= chars.len(),
            r@ == chars@.subrange(from as int, i as int),
        decreases to - i,
    {
        r.push(chars[i]);
        i = i + 1;
        assert(r@ =~= chars@.subrange(from as int, i as int));
    }
    r
}

fn is_quote_char(c: char) -> (r: bool)
    ensures
        r == is_quote(c),
{
    c == '\'' || c == '"'
}

fn closes_its_strings(inner: &Vec<char>) -> (r: bool)
    ensures
        r == (open_quote(inner@) is None),
{
    let mut open: Option<char> = None;
    let mut i: usize = 0;
    assert(inner@.take(0) =~= Seq::<char>::empty());
    while i < inner.len()
        invariant
            i <= inner.len(),
            open == open_quote(inner@.take(i as int)),
        decreases inner.len() - i,
    {
        assert(inner@.take(i + 1).drop_last() =~= inner@.take(i as int));
        let c: char = inner[i];
        open = match open {
            Some(q) => if c == q {
                None
            } else {
                Some(q)
            },
            None => if is_quote_char(c) {
                Some(c)
            } else {
                None
            },
        };
        i = i + 1;
    }
    assert(inner@.take(inner.len() as int) =~= inner@);
    open.is_none()
}

fn is_gap_char(c: char) -> (r: bool)
    ensures
        r == is_gap(c),
{
    c == ' ' || c == '\n' || c == '\r'
}

fn width_of(c: char) -> (r: usize)
    ensures
        r == utf8_width(c),
        1 <= r <= 4,
{
    if (c as u32) < 0x80 {
        1
    } else if (c as u32) < 0x800 {
        2
    } else if (c as u32) < 0x1_0000 {
        3
    } else {
        4
    }
}

fn start_of_line(chars: &Vec<char>, at: usize) -> (r: usize)
    requires
        at <= chars.len(),
    ensures
        r == line_start(chars@, at as nat),
        r <= at,
{
    let mut i: usize = at;
    while i > 0 && chars[i - 1] != '\n'
        invariant
            i <= at <= chars.len(),
            line_start(chars@, at as nat) == line_start(chars@, i as nat),
        decreases i,
    {
        i = i - 1;
    }
    i
}

fn cut_behind(chars: &Vec<char>, from: usize, room: usize) -> (r: usize)
    requires
        from <= chars.len(),
    ensures
        r == cut_after(chars@, from as nat, room as nat),
        from <= r <= chars.len(),
{
    let mut i: usize = from;
    let mut left: usize = room;
    while i < chars.len() && width_of(chars[i]) <= left
        invariant
            from <= i <= chars.len(),
            cut_after(chars@, from as nat, room as nat) == cut_after(
                chars@,
                i as nat,
                left as nat,
            ),
        decreases chars.len() - i,
    {
        left = left - width_of(chars[i]);
        i = i + 1;
    }
    i
}

fn is_cut_clear(chars: &Vec<char>, i: usize, end: usize, x: usize) -> (r: bool)
    requires
        i + 2 <= end <= chars.len(),
        x <= chars.len(),
    ensures
        r == is_clear_cut(chars@, i as int, end as int, x as int),
{
    let line: usize = start_of_line(chars, x);
    if line > i || end > x {
        return true;
    }
    let cut: usize = cut_behind(chars, line, x - line);
    if cut <= i + 2 || end <= cut {
        return true;
    }
    let text: Vec<char> = part(chars, i + 2, cut);
    closes_its_strings(&text)
}

fn cuts_are_clear_at(chars: &Vec<char>, i: usize, end: usize, p: usize) -> (r: bool)
    requires
        i + 2 <= end <= chars.len(),
        opens(chars@, p as int),
    ensures
        r == forall|x: int| #[trigger]
            breaks_at(chars@, p as int, x) ==> is_clear_cut(chars@, i as int, end as int, x),
{
    assert(p + 1 < chars.len());
    assert(breaks_at(chars@, p as int, p as int));
    if !is_cut_clear(chars, i, end, p) {
        return false;
    }
    if !(p + 2 < chars.len() && chars[p + 2] == '-') {
        return true;
    }
    let mut x: usize = p;
    while x > 0 && is_gap_char(chars[x - 1])
        invariant
            x <= p,
            p + 2 < chars.len(),
            chars@[p + 2] == '-',
            i + 2 <= end <= chars.len(),
            opens(chars@, p as int),
            forall|k: int| x <= k < p ==> is_gap(#[trigger] chars@[k]),
            forall|y: int|
                x <= y <= p ==> #[trigger] is_clear_cut(chars@, i as int, end as int, y),
        decreases x,
    {
        x = x - 1;
        assert(breaks_at(chars@, p as int, x as int));
        if !is_cut_clear(chars, i, end, x) {
            return false;
        }
    }
    assert forall|y: int| #[trigger] breaks_at(chars@, p as int, y) implies is_clear_cut(
        chars@,
        i as int,
        end as int,
        y,
    ) by {
        if y < x {
            assert(is_gap(chars@[x - 1]));
        }
    }
    true
}

fn holds_quote(chars: &Vec<char>, from: usize, to: usize) -> (r: bool)
    requires
        from <= to <= chars.len(),
    ensures
        r == exists|t: int| from <= t < to && is_quote(#[trigger] chars@[t]),
{
    let mut i: usize = from;
    while i < to
        invariant
            from <= i <= to <= chars.len(),
            forall|t: int| from <= t < i ==> !is_quote(#[trigger] chars@[t]),
        decreases to - i,
    {
        if is_quote_char(chars[i]) {
            assert(is_quote(chars@[i as int]));
            return true;
        }
        i = i + 1;
    }
    false
}

/// Without quotes no string is open.
pub proof fn lemma_no_open_quote(s: Seq<char>)
    requires
        forall|i: int| 0 <= i < s.len() ==> !is_quote(#[trigger] s[i]),
    ensures
        open_quote(s) is None,
    decreases s.len(),
{
    if s.len() > 0 {
        assert forall|i: int| 0 <= i < s.drop_last().len() implies !is_quote(
            #[trigger] s.drop_last()[i],
        ) by {
            assert(!is_quote(s[i]));
        }
        lemma_no_open_quote(s.drop_last());
        assert(!is_quote(s[s.len() - 1]));
    }
}

/// An output or a tag without quotes misleads no error message.
pub proof fn lemma_quoteless_is_clear(s: Seq<char>, i: int, end: int)
    requires
        0 <= i,
        i + 2 <= end <= s.len(),
        forall|t: int| i + 2 <= t < end ==> !is_quote(#[trigger] s[t]),
    ensures
        has_clear_cuts(s, i, end),
{
    assert forall|p: int, x: int| i < p && #[trigger] breaks_at(s, p, x) implies is_clear_cut(
        s,
        i,
        end,
        x,
    ) by {
        let line = line_start(s, x as nat);
        let cut = cut_after(s, line, (x - line) as nat) as int;
        if i + 2 < cut < end {
            let text = s.subrange(i + 2, cut);
            assert forall|k: int| 0 <= k < text.len() implies !is_quote(#[trigger] text[k]) by {
                assert(!is_quote(s[i + 2 + k]));
            }
            lemma_no_open_quote(text);
        }
    }
}

fn cuts_are_clear(chars: &Vec<char>, i: usize, end: usize) -> (r: bool)
    requires
        i + 2 <= end <= chars.len(),
    ensures
        r == has_clear_cuts(chars@, i as int, end as int),
{
    if !holds_quote(chars, i + 2, end) {
        proof {
            lemma_quoteless_is_clear(chars@, i as int, end as int);
        }
        return true;
    }
    let n: usize = chars.len();
    let mut p: usize = i + 1;
    while p < n
        invariant
            i < p <= n,
            n == chars.len(),
            i + 2 <= end <= n,
            forall|q: int, x: int|
                i < q < p && #[trigger] breaks_at(chars@, q, x) ==> is_clear_cut(
                    chars@,
                    i as int,
                    end as int,
                    x,
                ),
        decreases n - p,
    {
        if p + 1 < n && chars[p] == '{' && (chars[p + 1] == '{' || chars[p + 1] == '%') {
            assert(opens(chars@, p as int));
            if !cuts_are_clear_at(chars, i, end, p) {
                let ghost x = choose|x: int| #[trigger]
                    breaks_at(chars@, p as int, x) && !is_clear_cut(
                        chars@,
                        i as int,
                        end as int,
                        x,
                    );
                assert(breaks_at(chars@, p as int, x));
                return false;
            }
        }
        p = p + 1;
    }
    true
}

fn is_digit_char(c: char) -> (r: bool)
    ensures
        r == is_digit(c),
{
    '0' <= c && c <= '9'
}

fn numbers_are_short(chars: &Vec<char>, most: usize) -> (r: bool)
    ensures
        r == no_long_number(chars@, most as nat),
{
    let mut i: usize = 0;
    let mut run: usize = 0;
    while i < chars.len()
        invariant
            i <= chars.len(),
            run <= most,
            run <= i,
            run == digits_before(chars@, i as nat),
            forall|k: nat| k <= i ==> #[trigger] digits_before(chars@, k) <= most,
        decreases chars.len() - i,
    {
        if is_digit_char(chars[i]) {
            run = run + 1;
        } else {
            run = 0;
        }
        i = i + 1;
        assert(run == digits_before(chars@, i as nat));
        if run > most {
            return false;
        }
    }
    true
}

fn names_count_variable(w: &str) -> (r: bool)
    ensures
        r == is_count_variable(w@),
{
    text_eq(w, "issue.labels.size") || text_eq(w, "issue.blocked_by.size") || text_eq(
        w,
        "forloop.length",
    ) || text_eq(w, "forloop.index") || text_eq(w, "forloop.index0") || text_eq(w, "forloop.rindex")
        || text_eq(w, "forloop.rindex0")
}

fn names_range_end(w: &str, steady: bool) -> (r: bool)
    ensures
        r == is_range_end(w@, steady),
{
    if steady && names_count_variable(w) {
        return true;
    }
    let chars: Vec<char> = chars_of(w);
    if chars.len() < 1 || chars.len() > 7 {
        return false;
    }
    let mut i: usize = 0;
    while i < chars.len()
        invariant
            i <= chars.len() <= 7,
            chars@ == w@,
            forall|k: int| 0 <= k < i ==> is_digit(#[trigger] chars@[k]),
            !(steady && is_count_variable(w@)),
        decreases chars.len() - i,
    {
        if !is_digit_char(chars[i]) {
            assert(!is_digit(w@[i as int]));
            return false;
        }
        i = i + 1;
    }
    true
}

fn is_small_range_here(chars: &Vec<char>, i: usize, steady: bool) -> (r: bool)
    requires
        i + 1 < chars.len(),
    ensures
        r == is_small_range(chars@, i as int, steady),
{
    let mut open: usize = i;
    while open > 0 && chars[open - 1] != '('
        invariant
            open <= i < chars.len(),
            behind_bracket(chars@, i as nat) == behind_bracket(chars@, open as nat),
        decreases open,
    {
        open = open - 1;
    }
    let mut close: usize = i + 2;
    while close < chars.len() && chars[close] != ')'
        invariant
            i + 2 <= close <= chars.len(),
            next_bracket(chars@, (i + 2) as nat) == next_bracket(chars@, close as nat),
        decreases chars.len() - close,
    {
        close = close + 1;
    }
    let before: String = string_of_range(chars, open, i);
    let first: String = trim(before.as_str());
    let after: String = string_of_range(chars, i + 2, close);
    let last: String = trim(after.as_str());
    open > 0 && close < chars.len() && names_range_end(first.as_str(), steady) && names_range_end(
        last.as_str(),
        steady,
    )
}

fn ranges_are_small(chars: &Vec<char>, steady: bool) -> (r: bool)
    ensures
        r == has_small_ranges(chars@, steady),
{
    let n: usize = chars.len();
    let mut i: usize = 0;
    while i < n
        invariant
            i <= n,
            n == chars.len(),
            forall|k: int|
                0 <= k < i && k < chars@.len() - 1 && #[trigger] chars@[k] == '.' && chars@[k + 1]
                    == '.' ==> is_small_range(chars@, k, steady),
        decreases n - i,
    {
        if i + 1 < n && chars[i] == '.' && chars[i + 1] == '.' && !is_small_range_here(
            chars,
            i,
            steady,
        ) {
            assert(chars@[i as int] == '.');
            return false;
        }
        i = i + 1;
    }
    true
}

fn count_of(chars: &Vec<char>, c: char) -> (r: usize)
    ensures
        r == occurrences(chars@, c),
{
    let mut i: usize = 0;
    let mut count: usize = 0;
    assert(chars@.take(0) =~= Seq::<char>::empty());
    while i < chars.len()
        invariant
            i <= chars.len(),
            count <= i,
            count == occurrences(chars@.take(i as int), c),
        decreases chars.len() - i,
    {
        assert(chars@.take(i + 1).drop_last() =~= chars@.take(i as int));
        if chars[i] == c {
            count = count + 1;
        }
        i = i + 1;
    }
    assert(chars@.take(chars.len() as int) =~= chars@);
    count
}

fn end_of_name(chars: &Vec<char>, from: usize) -> (r: (usize, usize))
    requires
        from <= chars.len(),
    ensures
        from <= r.0 <= r.1 <= chars.len(),
        r.0 == past_space(chars@, from as nat),
        r.1 == past_name(chars@, from as nat),
{
    let mut start: usize = from;
    while start < chars.len() && is_white_space(chars[start])
        invariant
            from <= start <= chars.len(),
            past_space(chars@, from as nat) == past_space(chars@, start as nat),
        decreases chars.len() - start,
    {
        start = start + 1;
    }
    let mut end: usize = start;
    while end < chars.len() && (is_ascii_alphanumeric(chars[end]) || chars[end] == '_' || chars[end]
        == '-')
        invariant
            start <= end <= chars.len(),
            past_word(chars@, start as nat) == past_word(chars@, end as nat),
        decreases chars.len() - end,
    {
        end = end + 1;
    }
    (start, end)
}

fn name_from(chars: &Vec<char>, from: usize) -> (r: String)
    requires
        from <= chars.len(),
    ensures
        r@ == name_at(chars@, from as nat),
{
    let (start, end): (usize, usize) = end_of_name(chars, from);
    let mut cut: usize = end;
    while cut > start && chars[cut - 1] == '-'
        invariant
            start <= cut <= end <= chars.len(),
            without_hyphens(chars@.subrange(start as int, end as int)) == without_hyphens(
                chars@.subrange(start as int, cut as int),
            ),
        decreases cut,
    {
        let ghost longer = chars@.subrange(start as int, cut as int);
        assert(longer.last() == chars@[cut - 1]);
        assert(longer.drop_last() =~= chars@.subrange(start as int, cut - 1));
        cut = cut - 1;
    }
    proof {
        let w = chars@.subrange(start as int, cut as int);
        if w.len() > 0 {
            assert(w.last() == chars@[cut - 1]);
        }
    }
    string_of_range(chars, start, cut)
}

fn args_of_filter(chars: &Vec<char>, i: usize) -> (r: Vec<char>)
    requires
        i < chars.len(),
    ensures
        r@ == filter_args(chars@, i as int),
{
    let (_, start): (usize, usize) = end_of_name(chars, i + 1);
    let mut end: usize = start;
    while end < chars.len() && chars[end] != '|'
        invariant
            start <= end <= chars.len(),
            next_pipe(chars@, start as nat) == next_pipe(chars@, end as nat),
        decreases chars.len() - end,
    {
        end = end + 1;
    }
    part(chars, start, end)
}

fn holds_numbers(chars: &Vec<char>) -> (r: bool)
    ensures
        r == is_numbers(chars@),
{
    let n: usize = chars.len();
    let mut i: usize = 0;
    while i < n
        invariant
            i <= n,
            n == chars.len(),
            forall|k: int|
                0 <= k < i ==> is_digit(#[trigger] chars@[k]) || chars@[k] == ' ' || chars@[k]
                    == '\n' || chars@[k] == ':' || chars@[k] == ',' || chars@[k] == '+' || (
                chars@[k] == '-' && is_sign(chars@, k)),
        decreases n - i,
    {
        let c: char = chars[i];
        let separates: bool = c == ' ' || c == '\n' || c == ':' || c == ',' || c == '+';
        let signs: bool = c == '-' && i > 0 && i + 1 < n && (chars[i - 1] == ' ' || chars[i - 1]
            == ':' || chars[i - 1] == ',') && is_digit_char(chars[i + 1]);
        assert(signs == (c == '-' && is_sign(chars@, i as int)));
        if !is_digit_char(c) && !separates && !signs {
            assert(chars@[i as int] == c);
            return false;
        }
        i = i + 1;
    }
    true
}

fn names_risky_filter(w: &str) -> (r: bool)
    ensures
        r == is_risky_filter(w@),
{
    text_eq(w, "abs") || text_eq(w, "date") || text_eq(w, "divided_by") || text_eq(w, "minus")
        || text_eq(w, "modulo") || text_eq(w, "plus") || text_eq(w, "slice") || text_eq(w, "sort")
        || text_eq(w, "times")
}

fn is_written_number(w: &str) -> (r: bool)
    ensures
        r == is_number_text(w@),
{
    let chars: Vec<char> = chars_of(w);
    if chars.len() == 0 || !is_digit_char(chars[0]) {
        return false;
    }
    let mut i: usize = 0;
    while i < chars.len()
        invariant
            i <= chars.len(),
            chars@ == w@,
            forall|k: int| 0 <= k < i ==> is_digit(#[trigger] chars@[k]) || chars@[k] == '.',
        decreases chars.len() - i,
    {
        if !is_digit_char(chars[i]) && chars[i] != '.' {
            assert(!is_digit(w@[i as int]));
            return false;
        }
        i = i + 1;
    }
    true
}

fn names_small_variable(w: &str) -> (r: bool)
    ensures
        r == is_small_variable(w@),
{
    text_eq(w, "attempt") || text_eq(w, "issue.priority")
}

fn stays_bounded(w: &str, steady: bool) -> (r: bool)
    ensures
        r == is_bounded(w@, steady),
{
    is_written_number(w) || (steady && (names_small_variable(w) || names_count_variable(w)))
}

fn input_of_filter(inner: &Vec<char>, i: usize) -> (r: String)
    requires
        i <= inner.len(),
    ensures
        r@ == filter_input(inner@, i as int),
{
    let mut from: usize = i;
    while from > 0 && inner[from - 1] != '=' && !(from == 1 && inner[0] == '-')
        invariant
            from <= i <= inner.len(),
            input_start(inner@, i as nat) == input_start(inner@, from as nat),
        decreases from,
    {
        from = from - 1;
    }
    let text: String = string_of_range(inner, from, i);
    trim(text.as_str())
}

fn filter_is_calm(inner: &Vec<char>, i: usize, steady: bool) -> (r: bool)
    requires
        i < inner.len(),
    ensures
        r == is_calm_filter(inner@, i as int, steady),
{
    let name: String = name_from(inner, i + 1);
    let w: &str = name.as_str();
    if !names_risky_filter(w) {
        return true;
    }
    let args: Vec<char> = args_of_filter(inner, i);
    let input: String = input_of_filter(inner, i);
    let numbers: bool = holds_numbers(&args);
    let bounded: bool = stays_bounded(input.as_str(), steady);
    let divides: bool = text_eq(w, "divided_by") || text_eq(w, "modulo");
    let adds: bool = text_eq(w, "plus") || text_eq(w, "minus");
    let cuts: bool = text_eq(w, "slice") && numbers;
    let calm_quotient: bool = divides && numbers && (bounded || count_of(&args, '-') == 0);
    let calm_sum: bool = adds && numbers && bounded;
    let calm_product: bool = text_eq(w, "times") && numbers && numbers_are_short(&args, 9) && steady
        && names_small_variable(input.as_str());
    let calm_size: bool = text_eq(w, "abs") && bounded;
    let sorts_labels: bool = text_eq(w, "sort") && steady && text_eq(
        input.as_str(),
        "issue.labels",
    );
    cuts || calm_quotient || calm_sum || calm_product || calm_size || sorts_labels
}

fn filters_are_calm(inner: &Vec<char>, steady: bool) -> (r: bool)
    ensures
        r == has_calm_filters(inner@, steady),
{
    let mut i: usize = 0;
    while i < inner.len()
        invariant
            i <= inner.len(),
            forall|k: int|
                0 <= k < i && #[trigger] inner@[k] == '|' ==> is_calm_filter(inner@, k, steady),
        decreases inner.len() - i,
    {
        if inner[i] == '|' && !filter_is_calm(inner, i, steady) {
            assert(inner@[i as int] == '|');
            return false;
        }
        i = i + 1;
    }
    true
}

fn body_of(inner: &Vec<char>) -> (r: Vec<char>)
    ensures
        r@ == without_closer(inner@),
{
    let n: usize = inner.len();
    let cut: usize = if n > 0 && inner[n - 1] == '-' {
        n - 1
    } else {
        n
    };
    let body: Vec<char> = part(inner, 0, cut);
    assert(body@ =~= without_closer(inner@));
    body
}

fn is_calm_inside(inner: &Vec<char>, steady: bool) -> (r: bool)
    ensures
        r == is_calm(inner@, steady),
{
    let body: Vec<char> = body_of(inner);
    count_of(inner, '.') <= 1000 && count_of(inner, '[') <= 20 && numbers_are_short(inner, 18)
        && ranges_are_small(inner, steady) && filters_are_calm(&body, steady)
}

fn start_of_tag(inner: &Vec<char>) -> (r: usize)
    ensures
        r == tag_start(inner@),
        r <= inner.len(),
{
    if inner.len() > 0 && inner[0] == '-' {
        1
    } else {
        0
    }
}

fn names_setter(w: &str) -> (r: bool)
    ensures
        r == is_setter(w@),
{
    text_eq(w, "assign") || text_eq(w, "capture") || text_eq(w, "for") || text_eq(w, "tablerow")
        || text_eq(w, "increment") || text_eq(w, "decrement")
}

fn names_nesting(w: &str) -> (r: bool)
    ensures
        r == is_nesting(w@),
{
    text_eq(w, "if") || text_eq(w, "unless") || text_eq(w, "elsif") || text_eq(w, "case")
        || text_eq(w, "for") || text_eq(w, "tablerow") || text_eq(w, "capture") || text_eq(
        w,
        "ifchanged",
    )
}

fn bounds_here(chars: &Vec<char>, i: usize) -> (r: bool)
    requires
        i < chars.len(),
    ensures
        r == bounds_at(chars@, i as int),
{
    let n: usize = chars.len();
    if !(i + 1 < n && chars[i] == '{' && chars[i + 1] == '%') {
        return false;
    }
    let end: usize = end_of_tag(chars, '%', i + 2);
    let inner: Vec<char> = part(chars, i + 2, end);
    assert(inner@ == inside(chars@, i as int));
    let name: String = name_from(&inner, start_of_tag(&inner));
    let w: &str = name.as_str();
    names_nesting(w) || text_eq(w, "raw") || text_eq(w, "comment") || text_eq(w, "endcomment")
}

fn is_bare_from(chars: &Vec<char>, from: usize) -> (r: bool)
    requires
        from <= chars.len(),
    ensures
        r == is_bare_comment(chars@, from as nat),
{
    let n: usize = chars.len();
    let mut i: usize = from;
    while i < n
        invariant
            from <= i <= n,
            n == chars.len(),
            next_bound(chars@, from as nat) == next_bound(chars@, i as nat),
        decreases n - i,
    {
        if bounds_here(chars, i) {
            let end: usize = end_of_tag(chars, '%', i + 2);
            let text: String = string_of_range(chars, i + 2, end);
            let w: &str = text.as_str();
            assert(text@ == inside(chars@, i as int));
            return end < n && (text_eq(w, " endcomment ") || text_eq(w, "endcomment") || text_eq(
                w,
                "- endcomment -",
            ) || text_eq(w, "-endcomment-") || text_eq(w, "- endcomment ") || text_eq(
                w,
                " endcomment -",
            ));
        }
        i = i + 1;
    }
    true
}

fn digits_behind(chars: &Vec<char>, from: usize) -> (r: usize)
    requires
        from <= chars.len(),
    ensures
        r == digits_from(chars@, from as nat),
{
    let mut i: usize = from;
    while i < chars.len() && is_digit_char(chars[i])
        invariant
            from <= i <= chars.len(),
            digits_from(chars@, from as nat) == (i - from) + digits_from(chars@, i as nat),
        decreases chars.len() - i,
    {
        i = i + 1;
    }
    i - from
}

fn is_positive_behind(inner: &Vec<char>, from: usize) -> (r: bool)
    requires
        from <= inner.len(),
    ensures
        r == is_positive_after(inner@, from as nat),
{
    let (colon, _): (usize, usize) = end_of_name(inner, from);
    if colon >= inner.len() || inner[colon] != ':' {
        return false;
    }
    let (digit, _): (usize, usize) = end_of_name(inner, colon + 1);
    digit < inner.len() && '1' <= inner[digit] && inner[digit] <= '9' && digits_behind(inner, digit)
        <= 9
}

fn columns_are_positive(inner: &Vec<char>) -> (r: bool)
    ensures
        r == forall|k: int| #[trigger]
            asks_columns(inner@, k) ==> is_positive_after(inner@, (k + 4) as nat),
{
    let n: usize = inner.len();
    let mut i: usize = 0;
    while i < n
        invariant
            i <= n,
            n == inner.len(),
            forall|k: int|
                k < i && #[trigger] asks_columns(inner@, k) ==> is_positive_after(
                    inner@,
                    (k + 4) as nat,
                ),
        decreases n - i,
    {
        if n - i >= 4 {
            let word: String = string_of_range(inner, i, i + 4);
            if text_eq(word.as_str(), "cols") {
                assert(asks_columns(inner@, i as int));
                if !is_positive_behind(inner, i + 4) {
                    return false;
                }
            }
        }
        i = i + 1;
    }
    true
}

fn is_tame_inside_tag(chars: &Vec<char>, inner: &Vec<char>, end: usize) -> (r: bool)
    requires
        end <= chars.len(),
    ensures
        r == is_tame_tag(chars@, inner@, end as nat),
{
    let name: String = name_from(inner, start_of_tag(inner));
    let w: &str = name.as_str();
    let conditional: bool = text_eq(w, "if") || text_eq(w, "elsif") || text_eq(w, "unless");
    if conditional && inner.len() > 1000 {
        return false;
    }
    if text_eq(w, "comment") && !is_bare_from(chars, end) {
        return false;
    }
    if text_eq(w, "cycle") {
        let body: Vec<char> = body_of(inner);
        let whole: String = string_of_range(&body, 0, body.len());
        assert(whole@ =~= body@);
        let text: Vec<char> = chars_of(trim(whole.as_str()).as_str());
        if text.len() == 0 || text[text.len() - 1] == ':' {
            return false;
        }
    }
    !text_eq(w, "tablerow") || columns_are_positive(inner)
}

fn holds_no_opening(chars: &Vec<char>, i: usize, end: usize) -> (r: bool)
    requires
        i < end <= chars.len(),
    ensures
        r == forall|k: int| i < k < end ==> !#[trigger] opens(chars@, k),
{
    let n: usize = chars.len();
    let mut k: usize = i + 1;
    while k < end
        invariant
            i < k <= end <= n,
            n == chars.len(),
            forall|p: int| i < p < k ==> !#[trigger] opens(chars@, p),
        decreases end - k,
    {
        if k + 1 < n && chars[k] == '{' && (chars[k + 1] == '{' || chars[k + 1] == '%') {
            assert(opens(chars@, k as int));
            return false;
        }
        k = k + 1;
    }
    true
}

fn is_tame_from(chars: &Vec<char>, i: usize, steady: bool) -> (r: bool)
    requires
        opens(chars@, i as int),
    ensures
        r == is_tame_at(chars@, i as int, steady),
{
    let n: usize = chars.len();
    assert(i + 1 < n);
    let kind: char = chars[i + 1];
    let end: usize = end_of_tag(chars, kind, i + 2);
    let inner: Vec<char> = part(chars, i + 2, end);
    if !is_calm_inside(&inner, steady) || !holds_no_opening(chars, i, end) || (end < n
        && !closes_its_strings(&inner)) || !cuts_are_clear(chars, i, end) {
        return false;
    }
    kind != '%' || is_tame_inside_tag(chars, &inner, end)
}

fn overrides_here(chars: &Vec<char>, i: usize) -> (r: bool)
    requires
        opens(chars@, i as int),
    ensures
        r == overrides_at(chars@, i as int),
{
    let n: usize = chars.len();
    assert(i + 1 < n);
    if chars[i + 1] != '%' {
        return false;
    }
    let end: usize = end_of_tag(chars, '%', i + 2);
    let inner: Vec<char> = part(chars, i + 2, end);
    assert(inner@ == inside(chars@, i as int));
    let from: usize = start_of_tag(&inner);
    let name: String = name_from(&inner, from);
    if !names_setter(name.as_str()) {
        return false;
    }
    let (_, behind): (usize, usize) = end_of_name(&inner, from);
    let subject: String = name_from(&inner, behind);
    let w: &str = subject.as_str();
    text_eq(w, "attempt") || text_eq(w, "issue") || text_eq(w, "forloop")
}

fn stays_steady(chars: &Vec<char>) -> (r: bool)
    ensures
        r == is_steady(chars@),
{
    let n: usize = chars.len();
    let mut i: usize = 0;
    while i < n
        invariant
            i <= n,
            n == chars.len(),
            forall|k: int| k < i && #[trigger] opens(chars@, k) ==> !overrides_at(chars@, k),
        decreases n - i,
    {
        if i + 1 < n && chars[i] == '{' && (chars[i + 1] == '{' || chars[i + 1] == '%') {
            assert(opens(chars@, i as int));
            if overrides_here(chars, i) {
                return false;
            }
        }
        i = i + 1;
    }
    true
}

fn nests_here(chars: &Vec<char>, i: usize) -> (r: bool)
    requires
        opens(chars@, i as int),
    ensures
        r == nests_at(chars@, i as int),
{
    let n: usize = chars.len();
    assert(i + 1 < n);
    if chars[i + 1] != '%' {
        return false;
    }
    let end: usize = end_of_tag(chars, '%', i + 2);
    let inner: Vec<char> = part(chars, i + 2, end);
    assert(inner@ == inside(chars@, i as int));
    let name: String = name_from(&inner, start_of_tag(&inner));
    names_nesting(name.as_str())
}

/// Whether a template is one on which `liquid` can be relied.
pub fn is_tame_template(template: &str) -> (r: bool)
    ensures
        r == is_tame(template@),
{
    let chars: Vec<char> = chars_of(template);
    let steady: bool = stays_steady(&chars);
    let mut nested: usize = 0;
    let mut i: usize = 0;
    while i < chars.len()
        invariant
            i <= chars.len(),
            chars@ == template@,
            nested <= i,
            nested == nests_before(chars@, i as nat),
            steady == is_steady(chars@),
            forall|k: int|
                0 <= k < i && #[trigger] opens(chars@, k) ==> is_tame_at(chars@, k, steady),
        decreases chars.len() - i,
    {
        if i + 1 < chars.len() && chars[i] == '{' && (chars[i + 1] == '{' || chars[i + 1] == '%') {
            assert(opens(chars@, i as int));
            if !is_tame_from(&chars, i, steady) {
                return false;
            }
            if nests_here(&chars, i) {
                nested = nested + 1;
            }
        }
        i = i + 1;
    }
    nested <= 100
}

// ── Laws ────────────────────────────────────────────────────────────────────

/// A text without markup is tame.
pub proof fn law_text_without_markup_is_tame(s: Seq<char>)
    requires
        forall|i: int|
            0 <= i < s.len() - 1 && #[trigger] s[i] == '{' ==> s[i + 1] != '{' && s[i + 1] != '%',
    ensures
        is_tame(s),
{
    assert forall|i: int| !#[trigger] opens(s, i) by {
        if opens(s, i) {
            assert(s[i] == '{');
        }
    }
    lemma_nothing_nests(s, s.len());
}

proof fn lemma_nothing_nests(s: Seq<char>, n: nat)
    requires
        forall|i: int| !#[trigger] opens(s, i),
    ensures
        nests_before(s, n) == 0,
    decreases n,
{
    if n > 0 {
        lemma_nothing_nests(s, (n - 1) as nat);
        assert(!opens(s, n - 1));
    }
}

/// An end is the first place at which both of its characters stand, and the end of the
/// text where there is none.
pub proof fn law_first_ends(s: Seq<char>, kind: char, from: nat, k: int)
    requires
        from <= s.len(),
    ensures
        from <= first_end(s, kind, from) <= s.len(),
        ({
            let end = first_end(s, kind, from) as int;
            &&& end < s.len() ==> end + 1 < s.len() && s[end + 1] == '}'
            &&& end < s.len() && kind == '{' ==> s[end] == '}'
            &&& end < s.len() && kind != '{' ==> s[end] == '%'
            &&& from <= k < end && k + 1 < s.len() && s[k + 1] == '}' ==> s[k] != (if kind == '{' {
                '}'
            } else {
                '%'
            })
        }),
    decreases s.len() - from,
{
    if from < s.len() && !closes(s, kind, from as int) {
        law_first_ends(s, kind, from + 1, k);
    }
}

/// A template is not tame where something else begins within an output or a tag, or where
/// one that ends leaves a string open.
pub proof fn law_nothing_begins_within(s: Seq<char>, i: int, k: int)
    requires
        0 <= i < s.len() - 1,
        s[i] == '{',
        s[i + 1] == '{' || s[i + 1] == '%',
    ensures
        ({
            let end = first_end(s, s[i + 1], (i + 2) as nat) as int;
            &&& i < k < end && k + 1 < s.len() && s[k] == '{' && (s[k + 1] == '{' || s[k + 1] == '%')
                ==> !is_tame(s)
            &&& end < s.len() && open_quote(s.subrange(i + 2, end)) is Some ==> !is_tame(s)
        }),
{
    assert(opens(s, i));
    let end = first_end(s, s[i + 1], (i + 2) as nat) as int;
    if i < k < end && k + 1 < s.len() && s[k] == '{' && (s[k + 1] == '{' || s[k + 1] == '%') {
        assert(opens(s, k));
        assert(!is_tame_at(s, i, is_steady(s)));
    }
    if end < s.len() && open_quote(s.subrange(i + 2, end)) is Some {
        assert(!is_tame_at(s, i, is_steady(s)));
    }
}

/// A quote opens a string that goes up to the next quote of its kind; other characters
/// neither open nor end one.
pub proof fn law_quotes(s: Seq<char>, c: char)
    ensures
        open_quote(Seq::empty()) is None,
        open_quote(s) is None && (c == '\'' || c == '"') ==> open_quote(s.push(c)) == Some(c),
        open_quote(s) is None && c != '\'' && c != '"' ==> open_quote(s.push(c)) is None,
        open_quote(s) == Some(c) ==> open_quote(s.push(c)) is None,
        open_quote(s) is Some && open_quote(s) != Some(c) ==> open_quote(s.push(c)) == open_quote(
            s,
        ),
{
    assert(s.push(c).drop_last() =~= s);
}

/// A template with a number of more than eighteen digits in its markup is not tame.
pub proof fn law_long_numbers_are_not_tame(s: Seq<char>, i: int, from: int)
    requires
        0 <= i < s.len() - 1,
        s[i] == '{',
        s[i + 1] == '{' || s[i + 1] == '%',
        i + 2 <= from,
        from + 19 <= first_end(s, s[i + 1], (i + 2) as nat),
        forall|k: int| from <= k < from + 19 ==> '0' <= #[trigger] s[k] <= '9',
    ensures
        !is_tame(s),
{
    assert(opens(s, i));
    let end = first_end(s, s[i + 1], (i + 2) as nat) as int;
    law_first_ends(s, s[i + 1], (i + 2) as nat, 0);
    let inner = s.subrange(i + 2, end);
    let at = from - (i + 2);
    assert forall|k: int| at <= k < at + 19 implies '0' <= #[trigger] inner[k] <= '9' by {
        assert(inner[k] == s[k + i + 2]);
    }
    lemma_digits_before(inner, at, 19);
    assert(digits_before(inner, (at + 19) as nat) > 18);
    assert(!no_long_number(inner, 18));
    assert(!is_calm(inner, is_steady(s)));
    assert(!is_tame_at(s, i, is_steady(s)));
}

proof fn lemma_digits_before(s: Seq<char>, from: int, n: nat)
    requires
        0 <= from,
        from + n <= s.len(),
        forall|k: int| from <= k < from + n ==> '0' <= #[trigger] s[k] <= '9',
    ensures
        digits_before(s, (from + n) as nat) >= n,
    decreases n,
{
    if n > 0 {
        lemma_digits_before(s, from, (n - 1) as nat);
        assert('0' <= s[from + n - 1] <= '9');
    }
}

/// A name is the word behind white space, up to what can be in no word, without the
/// hyphens at its end.
pub proof fn law_names_are_words(gap: Seq<char>, word: Seq<char>, rest: Seq<char>)
    requires
        forall|i: int| 0 <= i < gap.len() ==> is_space(#[trigger] gap[i]),
        word.len() > 0,
        word.last() != '-',
        forall|i: int|
            0 <= i < word.len() ==> is_alphanumeric(#[trigger] word[i]) || word[i] == '_' || word[i]
                == '-',
        rest.len() > 0 ==> !is_alphanumeric(rest[0]) && rest[0] != '_' && rest[0] != '-',
    ensures
        name_at(gap + word + rest, 0) == word,
        past_name(gap + word + rest, 0) == gap.len() + word.len(),
{
    let s = gap + word + rest;
    assert(s[gap.len() as int] == word[0]);
    lemma_past_space(s, 0, gap.len());
    lemma_past_word(s, gap.len(), (gap.len() + word.len()) as nat);
    assert(s.subrange(gap.len() as int, (gap.len() + word.len()) as int) =~= word);
}

proof fn lemma_past_space(s: Seq<char>, from: nat, to: nat)
    requires
        from <= to < s.len(),
        forall|k: int| from <= k < to ==> is_space(#[trigger] s[k]),
        !is_space(s[to as int]),
    ensures
        past_space(s, from) == to,
    decreases to - from,
{
    if from < to {
        assert(is_space(s[from as int]));
        lemma_past_space(s, from + 1, to);
    }
}

proof fn lemma_past_word(s: Seq<char>, from: nat, to: nat)
    requires
        from <= to <= s.len(),
        forall|k: int|
            from <= k < to ==> is_alphanumeric(#[trigger] s[k]) || s[k] == '_' || s[k] == '-',
        to < s.len() ==> !is_alphanumeric(s[to as int]) && s[to as int] != '_' && s[to as int]
            != '-',
    ensures
        past_word(s, from) == to,
    decreases to - from,
{
    if from < to {
        assert(is_alphanumeric(s[from as int]) || s[from as int] == '_' || s[from as int] == '-');
        lemma_past_word(s, from + 1, to);
    }
}

/// A filter that reads the clock is never tame; one that computes is so only with numbers
/// that are written out or known to be small, and one that sorts only on the labels.
pub proof fn law_risky_filters(s: Seq<char>, i: int, j: int)
    requires
        0 <= i < s.len() - 1,
        s[i] == '{',
        s[i + 1] == '{' || s[i + 1] == '%',
        is_tame(s),
        ({
            let inner = without_closer(inside(s, i));
            0 <= j < inner.len() && inner[j] == '|'
        }),
    ensures
        ({
            let inner = without_closer(inside(s, i));
            let name = name_at(inner, (j + 1) as nat);
            let input = filter_input(inner, j);
            let written = is_number_text(input);
            let small = input == "attempt"@ || input == "issue.priority"@;
            &&& name != "date"@
            &&& name == "sort"@ ==> input == "issue.labels"@
            &&& name == "times"@ ==> small && is_numbers(filter_args(inner, j))
            &&& name == "plus"@ || name == "minus"@ ==> (written || is_bounded(input, true))
                && is_numbers(filter_args(inner, j))
            &&& name == "abs"@ ==> is_bounded(input, true)
            &&& name == "slice"@ || name == "divided_by"@ || name == "modulo"@ ==> is_numbers(
                filter_args(inner, j),
            )
        }),
{
    assert(opens(s, i));
    let end = first_end(s, s[i + 1], (i + 2) as nat) as int;
    let inner = s.subrange(i + 2, end);
    assert(is_tame_at(s, i, is_steady(s)));
    assert(is_calm(inner, is_steady(s)));
    assert(is_calm_filter(without_closer(inner), j, is_steady(s)));
    reveal_strlit("abs");
    reveal_strlit("date");
    reveal_strlit("divided_by");
    reveal_strlit("minus");
    reveal_strlit("modulo");
    reveal_strlit("plus");
    reveal_strlit("slice");
    reveal_strlit("sort");
    reveal_strlit("times");
    assert("abs"@.len() == 3 && "date"@.len() == 4 && "divided_by"@.len() == 10);
    assert("minus"@.len() == 5 && "modulo"@.len() == 6 && "plus"@.len() == 4);
    assert("slice"@.len() == 5 && "sort"@.len() == 4 && "times"@.len() == 5);
    assert("date"@[0] == 'd' && "plus"@[0] == 'p' && "sort"@[0] == 's');
    assert("minus"@[0] == 'm' && "slice"@[0] == 's' && "times"@[0] == 't');
}

/// More than a hundred tags that hold others are not tame, and neither is a long condition.
pub proof fn law_deep_templates_are_not_tame(s: Seq<char>, i: int)
    ensures
        nests_before(s, s.len()) > 100 ==> !is_tame(s),
        opens(s, i) && s[i + 1] == '%' && (tag_name(inside(s, i)) == "if"@ || tag_name(inside(s, i))
            == "elsif"@ || tag_name(inside(s, i)) == "unless"@) && inside(s, i).len() > 1000
            ==> !is_tame(s),
        opens(s, i) && occurrences(inside(s, i), '[') > 20 ==> !is_tame(s),
        opens(s, i) && occurrences(inside(s, i), '.') > 1000 ==> !is_tame(s),
{
    if opens(s, i) && is_tame(s) {
        assert(is_tame_at(s, i, is_steady(s)));
    }
}

/// What is far from the limits of an integer: a number that is written out and, where the
/// variables are those that were given, the attempt, the priority, and what counts labels,
/// blockers or rounds. Numbers are given with nothing but what separates them, and a
/// hyphen only as a sign.
pub proof fn law_bounded_values(w: Seq<char>, i: int)
    ensures
        is_bounded(w, false) <==> is_number_text(w),
        is_bounded(w, true) <==> is_number_text(w) || w == "attempt"@ || w == "issue.priority"@ || w
            == "issue.labels.size"@ || w == "issue.blocked_by.size"@ || w == "forloop.length"@ || w
            == "forloop.index"@ || w == "forloop.index0"@ || w == "forloop.rindex"@ || w
            == "forloop.rindex0"@,
        is_number_text(w) ==> w.len() > 0 && '0' <= w[0] <= '9',
        is_number_text(w) && 0 <= i < w.len() ==> '0' <= w[i] <= '9' || w[i] == '.',
        is_numbers(w) && 0 <= i < w.len() ==> '0' <= w[i] <= '9' || w[i] == ' ' || w[i] == '\n'
            || w[i] == ':' || w[i] == ',' || w[i] == '+' || w[i] == '-',
        is_numbers(w) && 0 <= i < w.len() && w[i] == '-' ==> 0 < i < w.len() - 1 && (w[i - 1] == ' '
            || w[i - 1] == ':' || w[i - 1] == ',') && '0' <= w[i + 1] <= '9',
{
}

/// A range of a tame template stands in brackets, between numbers of at most seven digits
/// or what counts labels, blockers or rounds.
pub proof fn law_ranges_are_small(s: Seq<char>, i: int, j: int)
    requires
        0 <= i < s.len() - 1,
        s[i] == '{',
        s[i + 1] == '{' || s[i + 1] == '%',
        is_tame(s),
        0 <= j < inside(s, i).len() - 1,
        inside(s, i)[j] == '.',
        inside(s, i)[j + 1] == '.',
    ensures
        ({
            let inner = inside(s, i);
            let open = behind_bracket(inner, j as nat) as int;
            let close = next_bracket(inner, (j + 2) as nat) as int;
            let first = trimmed(inner.subrange(open, j));
            let last = trimmed(inner.subrange(j + 2, close));
            &&& open > 0
            &&& close < inner.len()
            &&& is_count_variable(first) || first.len() <= 7 && forall|k: int|
                0 <= k < first.len() ==> '0' <= #[trigger] first[k] <= '9'
            &&& is_count_variable(last) || last.len() <= 7 && forall|k: int|
                0 <= k < last.len() ==> '0' <= #[trigger] last[k] <= '9'
        }),
{
    assert(opens(s, i));
    assert(is_tame_at(s, i, is_steady(s)));
    assert(is_small_range(inside(s, i), j, is_steady(s)));
}

/// In a tame template what counts in turn has values to count, a table that asks for
/// columns asks for some, and a comment holds no tag that holds others before its end.
pub proof fn law_tame_tags(s: Seq<char>, i: int, k: int)
    requires
        0 <= i < s.len() - 1,
        s[i] == '{',
        s[i + 1] == '%',
        is_tame(s),
    ensures
        ({
            let inner = inside(s, i);
            let text = trimmed(without_closer(inner));
            let end = first_end(s, '%', (i + 2) as nat);
            let next = next_bound(s, end) as int;
            &&& tag_name(inner) == "cycle"@ ==> text.len() > 0 && text.last() != ':'
            &&& tag_name(inner) == "tablerow"@ && 0 <= k && k + 4 <= inner.len() && inner.subrange(
                k,
                k + 4,
            ) == "cols"@ ==> is_positive_after(inner, (k + 4) as nat)
            &&& tag_name(inner) == "comment"@ && next < s.len() ==> ends_comment(inside(s, next))
        }),
{
    assert(opens(s, i));
    assert(is_tame_at(s, i, is_steady(s)));
    assert(is_tame_tag(s, inside(s, i), first_end(s, '%', (i + 2) as nat)));
    if 0 <= k && k + 4 <= inside(s, i).len() && inside(s, i).subrange(k, k + 4) == "cols"@ {
        assert(asks_columns(inside(s, i), k));
    }
}

} // verus!

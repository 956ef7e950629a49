//! Text as sequences of characters: classification, trimming, comparison and
//! number formatting, each with an exact description over `Seq<char>`.
use vstd::prelude::*;
use vstd::string::*;

verus! {

// ── Characters ──────────────────────────────────────────────────────────────

/// The characters of the Unicode `White_Space` property.
pub open spec fn is_space(c: char) -> bool {
    ||| 0x09 <= c as u32 <= 0x0d
    ||| c as u32 == 0x20
    ||| c as u32 == 0x85
    ||| c as u32 == 0xa0
    ||| c as u32 == 0x1680
    ||| 0x2000 <= c as u32 <= 0x200a
    ||| c as u32 == 0x2028
    ||| c as u32 == 0x2029
    ||| c as u32 == 0x202f
    ||| c as u32 == 0x205f
    ||| c as u32 == 0x3000
}

/// Whether `c` is white space.
pub fn is_white_space(c: char) -> (b: bool)
    ensures
        b == is_space(c),
{
    let n: u32 = c as u32;
    (0x09 <= n && n <= 0x0d) || n == 0x20 || n == 0x85 || n == 0xa0 || n == 0x1680 || (0x2000 <= n
        && n <= 0x200a) || n == 0x2028 || n == 0x2029 || n == 0x202f || n == 0x205f || n == 0x3000
}

/// The decimal digits `0` to `9`.
pub open spec fn is_digit(c: char) -> bool {
    '0' <= c <= '9'
}

/// The ASCII letters and the decimal digits.
pub open spec fn is_alphanumeric(c: char) -> bool {
    ||| 'a' <= c <= 'z'
    ||| 'A' <= c <= 'Z'
    ||| is_digit(c)
}

/// Whether `c` is an ASCII letter or a decimal digit.
pub fn is_ascii_alphanumeric(c: char) -> (b: bool)
    ensures
        b == is_alphanumeric(c),
{
    ('a' <= c && c <= 'z') || ('A' <= c && c <= 'Z') || ('0' <= c && c <= '9')
}

/// `c` with an ASCII capital replaced by its small letter.
pub open spec fn ascii_lower(c: char) -> char {
    if 'A' <= c <= 'Z' {
        (c as u32 + 32) as char
    } else {
        c
    }
}

/// `c` with an ASCII capital replaced by its small letter.
pub fn to_ascii_lower(c: char) -> (r: char)
    ensures
        r == ascii_lower(c),
{
    if 'A' <= c && c <= 'Z' {
        let small: u8 = c as u8 + 32;
        small as char
    } else {
        c
    }
}

// ── Characters and strings ──────────────────────────────────────────────────

/// `String::push` puts the character behind the text.
pub assume_specification[ String::push ](s: &mut String, c: char)
    ensures
        final(s)@ == old(s)@.push(c),
;

/// The characters of `s`, in order.
pub fn chars_of(s: &str) -> (r: Vec<char>)
    ensures
        r@ == s@,
{
    let mut r: Vec<char> = Vec::new();
    for c in it: s.chars()
        invariant
            r@ == s@.take(it.index() as int),
            it.seq() == s@,
    {
        r.push(c);
    }
    assert(s@.take(s@.len() as int) == s@);
    r
}

/// The text of the characters from position `from` up to `to`.
pub fn string_of_range(chars: &Vec<char>, from: usize, to: usize) -> (r: String)
    requires
        from <= to <= chars@.len(),
    ensures
        r@ == chars@.subrange(from as int, to as int),
{
    let mut r: String = String::new();
    for i in from..to
        invariant
            from <= i <= to <= chars@.len(),
            r@ == chars@.subrange(from as int, i as int),
    {
        r.push(chars[i]);
        assert(chars@.subrange(from as int, i + 1) == chars@.subrange(from as int, i as int).push(
            chars@[i as int],
        ));
    }
    r
}

/// Two texts, one behind the other.
pub fn concat2(a: &str, b: &str) -> (r: String)
    ensures
        r@ == a@ + b@,
{
    let mut r: String = a.to_owned();
    r.append(b);
    r
}

/// Three texts, one behind the other.
pub fn concat3(a: &str, b: &str, c: &str) -> (r: String)
    ensures
        r@ == a@ + b@ + c@,
{
    let mut r: String = a.to_owned();
    r.append(b);
    r.append(c);
    r
}

/// An optional text by its characters.
pub open spec fn opt_text(o: Option<String>) -> Option<Seq<char>> {
    match o {
        Some(s) => Some(s@),
        None => None,
    }
}

/// A list of texts by their characters.
pub open spec fn texts(v: Seq<String>) -> Seq<Seq<char>> {
    v.map_values(|s: String| s@)
}

/// A copy of an optional text.
pub fn clone_opt(o: &Option<String>) -> (r: Option<String>)
    ensures
        opt_text(r) == opt_text(*o),
{
    match o {
        Some(s) => Some(s.clone()),
        None => None,
    }
}

/// A copy of a list of texts.
pub fn clone_texts(v: &Vec<String>) -> (r: Vec<String>)
    ensures
        texts(r@) == texts(v@),
{
    let mut r: Vec<String> = Vec::new();
    for i in 0..v.len()
        invariant
            texts(r@) == texts(v@.take(i as int)),
    {
        r.push(v[i].clone());
        assert(v@.take(i + 1) == v@.take(i as int).push(v@[i as int]));
        assert(texts(r@) == texts(v@.take(i as int)).push(v@[i as int]@));
        assert(texts(v@.take(i + 1)) == texts(v@.take(i as int)).push(v@[i as int]@));
    }
    assert(v@.take(v@.len() as int) == v@);
    r
}

// ── Comparison ──────────────────────────────────────────────────────────────

/// Whether two texts have the same characters.
pub fn text_eq(a: &str, b: &str) -> (r: bool)
    ensures
        r == (a@ == b@),
{
    let x: String = a.to_owned();
    let y: String = b.to_owned();
    x == y
}

/// Equality up to the case of ASCII letters.
pub open spec fn same_ignoring_ascii_case(a: Seq<char>, b: Seq<char>) -> bool {
    &&& a.len() == b.len()
    &&& forall|i: int| 0 <= i < a.len() ==> ascii_lower(#[trigger] a[i]) == ascii_lower(b[i])
}

/// Whether two texts are equal up to the case of ASCII letters.
pub fn eq_ignore_ascii_case(a: &str, b: &str) -> (r: bool)
    ensures
        r == same_ignoring_ascii_case(a@, b@),
{
    let x: Vec<char> = chars_of(a);
    let y: Vec<char> = chars_of(b);
    if x.len() != y.len() {
        return false;
    }
    for i in 0..x.len()
        invariant
            x@.len() == y@.len(),
            x@ == a@,
            y@ == b@,
            forall|k: int| 0 <= k < i ==> ascii_lower(#[trigger] a@[k]) == ascii_lower(b@[k]),
    {
        if to_ascii_lower(x[i]) != to_ascii_lower(y[i]) {
            assert(ascii_lower(a@[i as int]) != ascii_lower(b@[i as int]));
            return false;
        }
    }
    true
}

/// Whether `s` begins with `prefix`.
pub fn starts_with(s: &str, prefix: &str) -> (r: bool)
    ensures
        r == prefix@.is_prefix_of(s@),
{
    let x: Vec<char> = chars_of(s);
    let p: Vec<char> = chars_of(prefix);
    if p.len() > x.len() {
        return false;
    }
    for i in 0..p.len()
        invariant
            p@.len() <= x@.len(),
            x@ == s@,
            p@ == prefix@,
            forall|k: int| 0 <= k < i ==> p@[k] == x@[k],
    {
        if p[i] != x[i] {
            assert(s@.subrange(0, prefix@.len() as int)[i as int] != prefix@[i as int]);
            return false;
        }
    }
    assert(s@.subrange(0, prefix@.len() as int) == prefix@);
    true
}

/// The order of texts by their characters' code points, an equal beginning
/// being decided by what follows it.
pub open spec fn text_le(a: Seq<char>, b: Seq<char>) -> bool
    decreases a.len(),
{
    if a.len() == 0 {
        true
    } else if b.len() == 0 {
        false
    } else if a[0] != b[0] {
        a[0] < b[0]
    } else {
        text_le(a.drop_first(), b.drop_first())
    }
}

/// Of two texts, one comes before the other or they are equal.
pub proof fn lemma_text_le_total(a: Seq<char>, b: Seq<char>)
    ensures
        text_le(a, b) || text_le(b, a),
        text_le(a, b) && text_le(b, a) ==> a == b,
    decreases a.len(),
{
    if a.len() > 0 && b.len() > 0 && a[0] == b[0] {
        lemma_text_le_total(a.drop_first(), b.drop_first());
        if text_le(a, b) && text_le(b, a) {
            assert(a == seq![a[0]] + a.drop_first());
            assert(b == seq![b[0]] + b.drop_first());
        }
    } else if a.len() == 0 && b.len() == 0 {
        assert(a == b);
    }
}

/// The order of texts is transitive.
pub proof fn lemma_text_le_transitive(a: Seq<char>, b: Seq<char>, c: Seq<char>)
    requires
        text_le(a, b),
        text_le(b, c),
    ensures
        text_le(a, c),
    decreases a.len(),
{
    if a.len() > 0 && b.len() > 0 && c.len() > 0 && a[0] == b[0] && b[0] == c[0] {
        lemma_text_le_transitive(a.drop_first(), b.drop_first(), c.drop_first());
    }
}

/// Whether `a` comes before `b` or is equal to it.
pub fn precedes_or_equals(a: &str, b: &str) -> (r: bool)
    ensures
        r == text_le(a@, b@),
{
    let x: Vec<char> = chars_of(a);
    let y: Vec<char> = chars_of(b);
    let mut i: usize = 0;
    assert(x@.skip(0) == x@);
    assert(y@.skip(0) == y@);
    while i < x.len() && i < y.len()
        invariant
            x@ == a@,
            y@ == b@,
            i <= x@.len(),
            i <= y@.len(),
            text_le(a@, b@) == text_le(x@.skip(i as int), y@.skip(i as int)),
        decreases x@.len() - i,
    {
        if x[i] != y[i] {
            return x[i] < y[i];
        }
        assert(x@.skip(i as int).drop_first() == x@.skip(i + 1));
        assert(y@.skip(i as int).drop_first() == y@.skip(i + 1));
        i = i + 1;
    }
    i >= x.len()
}

// ── Case ────────────────────────────────────────────────────────────────────

/// Text of ASCII characters only.
pub open spec fn all_ascii(s: Seq<char>) -> bool {
    forall|i: int| 0 <= i < s.len() ==> (#[trigger] s[i] as u32) < 128
}

/// What `str::to_lowercase` returns for text with characters outside ASCII.
pub uninterp spec fn unicode_lowercase(s: Seq<char>) -> Seq<char>;

/// The text in small letters.
pub open spec fn lowercase(s: Seq<char>) -> Seq<char> {
    if all_ascii(s) {
        s.map_values(|c: char| ascii_lower(c))
    } else {
        unicode_lowercase(s)
    }
}

/// Calls `str::to_lowercase`. Claimed of it: on ASCII text it replaces the
/// letters `A` to `Z` by `a` to `z` and keeps every other character; on other
/// text its result is a function of the text.
#[verifier::external_body]
pub(crate) fn to_lowercase(s: &str) -> (r: String)
    ensures
        all_ascii(s@) ==> r@ == s@.map_values(|c: char| ascii_lower(c)),
        !all_ascii(s@) ==> r@ == unicode_lowercase(s@),
{
    s.to_lowercase()
}

/// Whether some text of `list` has the small letters of `s`.
pub open spec fn listed(s: Seq<char>, list: Seq<Seq<char>>) -> bool {
    exists|i: int| 0 <= i < list.len() && lowercase(#[trigger] list[i]) == lowercase(s)
}

/// Whether `s` is in `list`, both sides taken in small letters.
pub fn is_listed(s: &str, list: &Vec<String>) -> (r: bool)
    ensures
        r == listed(s@, texts(list@)),
{
    let norm: String = to_lowercase(s);
    for i in 0..list.len()
        invariant
            norm@ == lowercase(s@),
            forall|k: int|
                0 <= k < i ==> lowercase(#[trigger] texts(list@)[k]) != lowercase(s@),
    {
        let item: String = to_lowercase(list[i].as_str());
        assert(texts(list@)[i as int] == list@[i as int]@);
        if item == norm {
            return true;
        }
    }
    false
}

// ── Trimming ────────────────────────────────────────────────────────────────

/// The text without its leading white space.
pub open spec fn trim_start(s: Seq<char>) -> Seq<char>
    decreases s.len(),
{
    if s.len() > 0 && is_space(s[0]) {
        trim_start(s.drop_first())
    } else {
        s
    }
}

/// The text without its trailing white space.
pub open spec fn trim_end(s: Seq<char>) -> Seq<char>
    decreases s.len(),
{
    if s.len() > 0 && is_space(s.last()) {
        trim_end(s.drop_last())
    } else {
        s
    }
}

/// The text without its leading and trailing white space.
pub open spec fn trimmed(s: Seq<char>) -> Seq<char> {
    trim_end(trim_start(s))
}

/// Text of white space only, the empty text among it.
pub open spec fn is_blank(s: Seq<char>) -> bool {
    forall|i: int| 0 <= i < s.len() ==> is_space(#[trigger] s[i])
}

proof fn lemma_trim_start_suffix(s: Seq<char>)
    ensures
        trim_start(s).len() <= s.len(),
        trim_start(s) == s.skip(s.len() - trim_start(s).len()),
        trim_start(s).len() > 0 ==> !is_space(trim_start(s)[0]),
        trim_start(s).len() == 0 <==> is_blank(s),
    decreases s.len(),
{
    if s.len() > 0 && is_space(s[0]) {
        let t = s.drop_first();
        lemma_trim_start_suffix(t);
        assert(s.skip(s.len() - trim_start(s).len()) == t.skip(t.len() - trim_start(t).len()));
        if is_blank(t) {
            assert forall|i: int| 0 <= i < s.len() implies is_space(#[trigger] s[i]) by {
                if i > 0 {
                    assert(s[i] == t[i - 1]);
                }
            }
        }
        if is_blank(s) {
            assert forall|i: int| 0 <= i < t.len() implies is_space(#[trigger] t[i]) by {
                assert(t[i] == s[i + 1]);
            }
        }
    } else {
        assert(s.skip(0) == s);
    }
}

proof fn lemma_trim_end_prefix(s: Seq<char>)
    ensures
        trim_end(s).len() <= s.len(),
        trim_end(s) == s.take(trim_end(s).len() as int),
        trim_end(s).len() > 0 ==> !is_space(trim_end(s).last()),
        trim_end(s).len() == 0 <==> is_blank(s),
    decreases s.len(),
{
    if s.len() > 0 && is_space(s.last()) {
        let t = s.drop_last();
        lemma_trim_end_prefix(t);
        assert(s.take(trim_end(s).len() as int) == t.take(trim_end(t).len() as int));
        if is_blank(t) {
            assert forall|i: int| 0 <= i < s.len() implies is_space(#[trigger] s[i]) by {
                if i < t.len() {
                    assert(s[i] == t[i]);
                }
            }
        }
        if is_blank(s) {
            assert forall|i: int| 0 <= i < t.len() implies is_space(#[trigger] t[i]) by {
                assert(t[i] == s[i]);
            }
        }
    } else {
        assert(s.take(s.len() as int) == s);
    }
}

/// Trimming leaves a part of the text that neither begins nor ends with white
/// space, leaves nothing exactly of blank text, and changes nothing the second
/// time.
pub proof fn law_trimmed(s: Seq<char>)
    ensures
        exists|a: int, b: int| 0 <= a <= b <= s.len() && trimmed(s) == #[trigger] s.subrange(a, b),
        trimmed(s).len() > 0 ==> !is_space(trimmed(s)[0]) && !is_space(trimmed(s).last()),
        trimmed(s).len() == 0 <==> is_blank(s),
        trimmed(trimmed(s)) == trimmed(s),
{
    let t = trim_start(s);
    lemma_trim_start_suffix(s);
    lemma_trim_end_prefix(t);
    let a = s.len() - t.len();
    let b = a + trimmed(s).len();
    assert(trimmed(s) == s.subrange(a, b));
    if trimmed(s).len() > 0 {
        assert(trimmed(s)[0] == t[0]);
    }
    if is_blank(t) && t.len() > 0 {
        assert(is_space(t[0]));
    }
    assert(trim_start(trimmed(s)) == trimmed(s));
}

/// The text without its leading and trailing white space.
pub fn trim(s: &str) -> (r: String)
    ensures
        r@ == trimmed(s@),
{
    let x: Vec<char> = chars_of(s);
    let mut from: usize = 0;
    assert(x@.skip(0) == x@);
    while from < x.len() && is_white_space(x[from])
        invariant
            x@ == s@,
            from <= x@.len(),
            trim_start(s@) == trim_start(x@.skip(from as int)),
        decreases x@.len() - from,
    {
        assert(x@.skip(from as int).drop_first() == x@.skip(from + 1));
        from = from + 1;
    }
    let mut to: usize = x.len();
    assert(x@.subrange(from as int, to as int) == x@.skip(from as int));
    while to > from && is_white_space(x[to - 1])
        invariant
            x@ == s@,
            from <= to <= x@.len(),
            trimmed(s@) == trim_end(x@.subrange(from as int, to as int)),
        decreases to,
    {
        assert(x@.subrange(from as int, to as int).drop_last() == x@.subrange(
            from as int,
            to - 1,
        ));
        to = to - 1;
    }
    string_of_range(&x, from, to)
}

/// Whether `s` is white space only.
pub fn is_blank_text(s: &str) -> (r: bool)
    ensures
        r == is_blank(s@),
        r == (trimmed(s@).len() == 0),
{
    let x: Vec<char> = chars_of(s);
    proof {
        law_trimmed(s@);
    }
    for i in 0..x.len()
        invariant
            x@ == s@,
            forall|k: int| 0 <= k < i ==> is_space(#[trigger] s@[k]),
            trimmed(s@).len() == 0 <==> is_blank(s@),
    {
        if !is_white_space(x[i]) {
            assert(!is_space(s@[i as int]));
            return false;
        }
    }
    true
}

/// The first `max` characters of `s`, or all of them.
pub open spec fn first_chars(s: Seq<char>, max: nat) -> Seq<char> {
    if s.len() <= max {
        s
    } else {
        s.take(max as int)
    }
}

/// The first `max` characters of `s`, or all of them.
pub fn take_chars(s: &str, max: usize) -> (r: String)
    ensures
        r@ == first_chars(s@, max as nat),
{
    let x: Vec<char> = chars_of(s);
    if x.len() <= max {
        s.to_owned()
    } else {
        assert(x@.subrange(0, max as int) == x@.take(max as int));
        string_of_range(&x, 0, max)
    }
}

// ── Numbers ─────────────────────────────────────────────────────────────────

/// The character of a decimal digit.
pub open spec fn digit_char(d: nat) -> char {
    (48 + d) as char
}

/// The decimal digits of `n`, without leading zeros.
pub open spec fn decimal(n: nat) -> Seq<char>
    decreases n,
{
    if n < 10 {
        seq![digit_char(n)]
    } else {
        decimal(n / 10).push(digit_char(n % 10))
    }
}

/// The decimal form of an integer, with a minus sign where it is negative.
pub open spec fn signed_decimal(n: int) -> Seq<char> {
    if n < 0 {
        seq!['-'] + decimal((-n) as nat)
    } else {
        decimal(n as nat)
    }
}

/// The decimal digits of `n`.
pub fn decimal_text(n: u64) -> (r: String)
    ensures
        r@ == decimal(n as nat),
    decreases n,
{
    let last: u8 = (n % 10) as u8;
    let c: char = (48 + last) as char;
    if n < 10 {
        let mut r: String = String::new();
        r.push(c);
        assert(r@ == decimal(n as nat));
        r
    } else {
        let mut r: String = decimal_text(n / 10);
        r.push(c);
        r
    }
}

/// The decimal form of `n`.
pub fn signed_decimal_text(n: i64) -> (r: String)
    ensures
        r@ == signed_decimal(n as int),
{
    if n >= 0 {
        decimal_text(n as u64)
    } else {
        let magnitude: u64 = (-(n as i128)) as u64;
        let digits: String = decimal_text(magnitude);
        let mut r: String = String::new();
        r.push('-');
        r.append(digits.as_str());
        assert(r@ == seq!['-'] + decimal(magnitude as nat));
        r
    }
}

// ── Laws of texts ───────────────────────────────────────────────────────────

/// Trimming cuts off white space only: what stands before and behind the part that is
/// left is blank.
pub proof fn law_only_white_space_is_cut_off(s: Seq<char>)
    ensures
        exists|before: Seq<char>, behind: Seq<char>|
            s == #[trigger] (before + trimmed(s) + behind) && is_blank(before) && is_blank(behind),
        !is_blank(s) ==> trimmed(s).len() > 0,
        s.len() > 0 && !is_space(s[0]) && !is_space(s.last()) ==> trimmed(s) == s,
{
    let inner = trim_start(s);
    lemma_trim_start_suffix(s);
    lemma_trim_end_prefix(inner);
    lemma_trim_start_blank(s);
    lemma_trim_end_blank(inner);
    let before = s.take(s.len() - inner.len());
    let behind = inner.skip(trimmed(s).len() as int);
    assert(s =~= before + trimmed(s) + behind);
}

proof fn lemma_trim_start_blank(s: Seq<char>)
    ensures
        is_blank(s.take(s.len() - trim_start(s).len())),
    decreases s.len(),
{
    lemma_trim_start_suffix(s);
    if s.len() > 0 && is_space(s[0]) {
        let rest = s.drop_first();
        lemma_trim_start_blank(rest);
        lemma_trim_start_suffix(rest);
        let cut = s.take(s.len() - trim_start(s).len());
        assert forall|i: int| 0 <= i < cut.len() implies is_space(#[trigger] cut[i]) by {
            if i > 0 {
                assert(rest.take(rest.len() - trim_start(rest).len())[i - 1] == cut[i]);
            }
        }
    }
}

proof fn lemma_trim_end_blank(s: Seq<char>)
    ensures
        is_blank(s.skip(trim_end(s).len() as int)),
    decreases s.len(),
{
    lemma_trim_end_prefix(s);
    if s.len() > 0 && is_space(s.last()) {
        let rest = s.drop_last();
        lemma_trim_end_blank(rest);
        lemma_trim_end_prefix(rest);
        let cut = s.skip(trim_end(s).len() as int);
        assert forall|i: int| 0 <= i < cut.len() implies is_space(#[trigger] cut[i]) by {
            if i < cut.len() - 1 {
                assert(rest.skip(trim_end(rest).len() as int)[i] == cut[i]);
            }
        }
    }
}

/// In small letters a capital of ASCII text stands 32 places further on and every other
/// character stays; texts of ASCII have the same small letters exactly where they differ
/// in case at most.
pub proof fn law_small_letters(s: Seq<char>, t: Seq<char>, i: int)
    requires
        all_ascii(s),
        all_ascii(t),
    ensures
        lowercase(s).len() == s.len(),
        0 <= i < s.len() && 'A' <= s[i] <= 'Z' ==> lowercase(s)[i] as u32 == s[i] as u32 + 32,
        0 <= i < s.len() && !('A' <= s[i] <= 'Z') ==> lowercase(s)[i] == s[i],
        lowercase(lowercase(s)) == lowercase(s),
        lowercase(s) == lowercase(t) <==> same_ignoring_ascii_case(s, t),
{
    assert forall|k: int| 0 <= k < s.len() implies (#[trigger] lowercase(s)[k] as u32) < 128 by {
        assert(lowercase(s)[k] == ascii_lower(s[k]));
    }
    assert forall|k: int| 0 <= k < s.len() implies #[trigger] lowercase(lowercase(s))[k]
        == lowercase(s)[k] by {
        assert(lowercase(s)[k] == ascii_lower(s[k]));
        assert(lowercase(lowercase(s))[k] == ascii_lower(lowercase(s)[k]));
    }
    assert(lowercase(lowercase(s)) =~= lowercase(s));
    if lowercase(s) == lowercase(t) {
        assert(lowercase(t).len() == t.len());
        assert forall|k: int| 0 <= k < s.len() implies ascii_lower(#[trigger] s[k]) == ascii_lower(
            t[k],
        ) by {
            assert(lowercase(s)[k] == ascii_lower(s[k]));
            assert(lowercase(t)[k] == ascii_lower(t[k]));
        }
    }
    if same_ignoring_ascii_case(s, t) {
        assert(lowercase(s) =~= lowercase(t));
    }
}

/// Texts are the same up to case where they are equally long and at every place either
/// equal or a capital and its small letter.
pub proof fn law_same_up_to_case(a: Seq<char>, b: Seq<char>, i: int)
    ensures
        same_ignoring_ascii_case(a, a),
        same_ignoring_ascii_case(a, b) <==> same_ignoring_ascii_case(b, a),
        same_ignoring_ascii_case(a, b) ==> a.len() == b.len(),
        same_ignoring_ascii_case(a, b) && 0 <= i < a.len() ==> a[i] == b[i] || ('A' <= a[i] <= 'Z'
            && b[i] as u32 == a[i] as u32 + 32) || ('A' <= b[i] <= 'Z' && a[i] as u32 == b[i] as u32
            + 32),
        same_ignoring_ascii_case(seq!['a'], seq!['A']),
        a.len() == b.len() && (forall|k: int|
            0 <= k < a.len() ==> #[trigger] a[k] == b[k] || ('A' <= a[k] <= 'Z' && b[k] as u32
                == a[k] as u32 + 32) || ('A' <= b[k] <= 'Z' && a[k] as u32 == b[k] as u32 + 32))
            ==> same_ignoring_ascii_case(a, b),
{
    if same_ignoring_ascii_case(a, b) {
        assert(same_ignoring_ascii_case(b, a));
    }
    if same_ignoring_ascii_case(b, a) {
        assert(same_ignoring_ascii_case(a, b));
    }
}

/// A list names a text exactly where one of its texts has the same small letters, at
/// whatever place; with a text more it names nothing else but that one more.
pub proof fn law_listed(s: Seq<char>, list: Seq<Seq<char>>, more: Seq<char>, i: int)
    ensures
        0 <= i < list.len() && list[i] == s ==> listed(s, list),
        0 <= i < list.len() && all_ascii(s) && all_ascii(list[i]) && same_ignoring_ascii_case(
            list[i],
            s,
        ) ==> listed(s, list),
        !listed(s, Seq::empty()),
        listed(s, list.push(more)) <==> listed(s, list) || lowercase(more) == lowercase(s),
{
    if 0 <= i < list.len() && all_ascii(s) && all_ascii(list[i]) && same_ignoring_ascii_case(
        list[i],
        s,
    ) {
        law_small_letters(list[i], s, 0);
    }
    let longer = list.push(more);
    if listed(s, list) {
        let k = choose|k: int| 0 <= k < list.len() && lowercase(#[trigger] list[k]) == lowercase(s);
        assert(longer[k] == list[k]);
    }
    if lowercase(more) == lowercase(s) {
        assert(longer[list.len() as int] == more);
    }
    if listed(s, longer) {
        let k = choose|k: int|
            0 <= k < longer.len() && lowercase(#[trigger] longer[k]) == lowercase(s);
        if k < list.len() {
            assert(list[k] == longer[k]);
        }
    }
}

/// One text comes before another where it is its beginning, or where at the first place
/// at which they differ its character is the lesser.
pub proof fn law_texts_are_ordered_by_the_first_difference(a: Seq<char>, b: Seq<char>, k: int)
    ensures
        a.is_prefix_of(b) ==> text_le(a, b),
        b.is_prefix_of(a) && a != b ==> !text_le(a, b),
        0 <= k < a.len() && k < b.len() && a.take(k) == b.take(k) && a[k] != b[k] ==> (text_le(a, b)
            <==> a[k] < b[k]),
    decreases a.len(),
{
    if a.len() > 0 && b.len() > 0 {
        let x = a.drop_first();
        let y = b.drop_first();
        law_texts_are_ordered_by_the_first_difference(x, y, k - 1);
        if a.is_prefix_of(b) {
            assert(a[0] == b[0]);
            assert(x.is_prefix_of(y));
        }
        if b.is_prefix_of(a) && a != b {
            assert(a[0] == b[0]);
            assert(y.is_prefix_of(x));
            if x == y {
                assert(a =~= b);
            }
        }
        if 0 < k < a.len() && k < b.len() && a.take(k) == b.take(k) {
            assert(a.take(k)[0] == b.take(k)[0]);
            assert(x.take(k - 1) =~= a.take(k).drop_first());
            assert(y.take(k - 1) =~= b.take(k).drop_first());
            assert(x[k - 1] == a[k]);
            assert(y[k - 1] == b[k]);
        }
    } else if b.len() == 0 {
        if a.is_prefix_of(b) {
            assert(a.len() == 0);
        }
        if b.is_prefix_of(a) && a.len() == 0 {
            assert(a =~= b);
        }
    } else {
        if b.is_prefix_of(a) {
            assert(b.len() == 0);
        }
    }
}

/// The number that digits stand for.
pub open spec fn number_of(digits: Seq<char>) -> int
    decreases digits.len(),
{
    if digits.len() == 0 {
        0
    } else {
        number_of(digits.drop_last()) * 10 + (digits.last() as int - '0' as int)
    }
}

/// The decimal form of a number is made of digits that stand for it, with no zero in
/// front of others; the decimal form of a negative one has a minus sign before that of
/// its amount.
pub proof fn law_decimal(n: nat, i: int)
    ensures
        decimal(n).len() > 0,
        0 <= i < decimal(n).len() ==> '0' <= decimal(n)[i] <= '9',
        n > 0 ==> decimal(n)[0] != '0',
        number_of(decimal(n)) == n,
        signed_decimal(n as int) == decimal(n),
        n > 0 ==> signed_decimal(-n) == seq!['-'] + decimal(n),
    decreases n,
{
    reveal_with_fuel(number_of, 2);
    if n >= 10 {
        law_decimal(n / 10, i);
        let d = decimal(n / 10);
        assert(decimal(n).drop_last() =~= d);
        assert(decimal(n)[0] == d[0]);
        assert(digit_char(n % 10) as int == 48 + n % 10);
        assert(decimal(n).last() == digit_char(n % 10));
    } else {
        assert(decimal(n).drop_last() =~= Seq::<char>::empty());
        assert(digit_char(n) as int == 48 + n);
    }
}

/// The first characters of a text are its beginning, as many as asked for where it has
/// that many and else all.
pub proof fn law_first_chars(s: Seq<char>, max: nat, i: int)
    ensures
        first_chars(s, max).len() <= s.len(),
        s.len() >= max ==> first_chars(s, max).len() == max,
        s.len() <= max ==> first_chars(s, max) == s,
        0 <= i < first_chars(s, max).len() ==> first_chars(s, max)[i] == s[i],
{
}

/// Of the visible ASCII characters none is white space, and letters and digits are
/// letters and digits; spaces, tabs and line breaks are white space.
pub proof fn law_kinds_of_characters(c: char)
    ensures
        c == ' ' || c == '\t' || c == '\n' || c == '\r' ==> is_space(c) && !is_alphanumeric(c),
        '!' <= c <= '~' ==> !is_space(c),
        is_alphanumeric(c) <==> 'a' <= c <= 'z' || 'A' <= c <= 'Z' || '0' <= c <= '9',
        is_digit(c) <==> '0' <= c <= '9',
        is_alphanumeric(c) ==> !is_space(c),
{
}

} // verus!

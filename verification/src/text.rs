//! Text primitives: what the crate asks of strings, stated over sequences of characters.
use vstd::prelude::*;

verus! {

/// `String::push` appends one character.
pub assume_specification[ String::push ](text: &mut String, c: char)
    ensures
        final(text)@ == old(text)@.push(c),
;

// ---------------------------------------------------------------------------
// Strings and their characters
// ---------------------------------------------------------------------------

/// The characters of `text`, in order.
pub fn chars_of(text: &str) -> (r: Vec<char>)
    ensures
        r@ == text@,
{
    let mut r: Vec<char> = Vec::new();
    for c in it: text.chars()
        invariant
            it.seq() == text@,
            r@ == text@.take(it.index() as int),
    {
        r.push(c);
        assert(text@.take(it.index() + 1) =~= text@.take(it.index() as int).push(c));
    }
    assert(text@.take(text@.len() as int) =~= text@);
    r
}

/// The string made of `chars[from..to]`.
pub fn string_of(chars: &Vec<char>, from: usize, to: usize) -> (r: String)
    requires
        from <= to <= chars@.len(),
    ensures
        r@ == chars@.subrange(from as int, to as int),
{
    let mut r = String::new();
    for i in from..to
        invariant
            from <= to <= chars@.len(),
            r@ == chars@.subrange(from as int, i as int),
    {
        r.push(chars[i]);
        assert(chars@.subrange(from as int, i + 1) =~= chars@.subrange(from as int, i as int).push(
            chars@[i as int],
        ));
    }
    r
}

/// An owned copy of `text`.
pub fn owned(text: &str) -> (r: String)
    ensures
        r@ == text@,
{
    String::from_str(text)
}

/// The view of an optional string.
pub open spec fn view_of_option(text: Option<String>) -> Option<Seq<char>> {
    match text {
        Some(text) => Some(text@),
        None => None,
    }
}

/// The view of an optional string slice.
pub open spec fn view_of_slice(text: Option<&str>) -> Option<Seq<char>> {
    match text {
        Some(text) => Some(text@),
        None => None,
    }
}

/// The views of a sequence of strings.
pub open spec fn views_of(texts: Seq<String>) -> Seq<Seq<char>> {
    texts.map_values(|text: String| text@)
}

/// A copy of an optional string.
pub fn copy_option(text: &Option<String>) -> (r: Option<String>)
    ensures
        r == *text,
{
    match text {
        Some(text) => Some(text.clone()),
        None => None,
    }
}

/// An optional string as an optional slice.
pub fn slice_of_option(text: &Option<String>) -> (r: Option<&str>)
    ensures
        view_of_slice(r) == view_of_option(*text),
{
    match text {
        Some(text) => Some(text.as_str()),
        None => None,
    }
}

/// Whether two texts are the same.
pub fn same_text(a: &str, b: &str) -> (r: bool)
    ensures
        r == (a@ == b@),
{
    let left = owned(a);
    let right = owned(b);
    left == right
}

/// Whether two optional texts are both absent or both present and the same.
pub fn same_option(a: &Option<String>, b: &Option<String>) -> (r: bool)
    ensures
        r == (view_of_option(*a) == view_of_option(*b)),
{
    match (a, b) {
        (Some(a), Some(b)) => same_text(a.as_str(), b.as_str()),
        (None, None) => true,
        _ => false,
    }
}

// ---------------------------------------------------------------------------
// ASCII case
// ---------------------------------------------------------------------------

/// `c` with the ASCII letters `A` to `Z` in lower case.
pub open spec fn lower_char(c: char) -> char {
    if 'A' <= c <= 'Z' {
        (c as u32 + 32) as char
    } else {
        c
    }
}

/// `c` with the ASCII letters `a` to `z` in upper case.
pub open spec fn upper_char(c: char) -> char {
    if 'a' <= c <= 'z' {
        (c as u32 - 32) as char
    } else {
        c
    }
}

/// `s` with its ASCII letters in lower case.
pub open spec fn lowered(s: Seq<char>) -> Seq<char> {
    s.map_values(|c: char| lower_char(c))
}

/// `s` with its ASCII letters in upper case.
pub open spec fn uppered(s: Seq<char>) -> Seq<char> {
    s.map_values(|c: char| upper_char(c))
}

/// `text` with its ASCII letters in lower case.
pub fn to_lower(text: &str) -> (r: String)
    ensures
        r@ == lowered(text@),
{
    let chars = chars_of(text);
    let mut r = String::new();
    for i in 0..chars.len()
        invariant
            chars@ == text@,
            r@ == lowered(text@.take(i as int)),
    {
        let c = chars[i];
        if 'A' <= c && c <= 'Z' {
            r.push(((c as u8) + 32) as char);
        } else {
            r.push(c);
        }
        assert(lowered(text@.take(i + 1)) =~= lowered(text@.take(i as int)).push(lower_char(c)));
    }
    assert(text@.take(text@.len() as int) =~= text@);
    r
}

/// `text` with its ASCII letters in upper case.
pub fn to_upper(text: &str) -> (r: String)
    ensures
        r@ == uppered(text@),
{
    let chars = chars_of(text);
    let mut r = String::new();
    for i in 0..chars.len()
        invariant
            chars@ == text@,
            r@ == uppered(text@.take(i as int)),
    {
        let c = chars[i];
        if 'a' <= c && c <= 'z' {
            r.push(((c as u8) - 32) as char);
        } else {
            r.push(c);
        }
        assert(uppered(text@.take(i + 1)) =~= uppered(text@.take(i as int)).push(upper_char(c)));
    }
    assert(text@.take(text@.len() as int) =~= text@);
    r
}

/// Whether two texts are the same but for the case of ASCII letters.
pub fn same_ignoring_case(a: &str, b: &str) -> (r: bool)
    ensures
        r == (lowered(a@) == lowered(b@)),
{
    let left = to_lower(a);
    let right = to_lower(b);
    left == right
}

// ---------------------------------------------------------------------------
// Trimming
// ---------------------------------------------------------------------------

/// `c` has Unicode's `White_Space` property.
pub open spec fn char_is_whitespace(c: char) -> bool {
    ||| '\t' <= c <= '\r'
    ||| c == ' '
    ||| c == '\u{85}'
    ||| c == '\u{a0}'
    ||| c == '\u{1680}'
    ||| '\u{2000}' <= c <= '\u{200a}'
    ||| c == '\u{2028}'
    ||| c == '\u{2029}'
    ||| c == '\u{202f}'
    ||| c == '\u{205f}'
    ||| c == '\u{3000}'
}

/// Whether `c` is white space.
pub fn is_whitespace(c: char) -> (r: bool)
    ensures
        r == char_is_whitespace(c),
{
    ('\t' <= c && c <= '\r') || c == ' ' || c == '\u{85}' || c == '\u{a0}' || c == '\u{1680}' || (
    '\u{2000}' <= c && c <= '\u{200a}') || c == '\u{2028}' || c == '\u{2029}' || c == '\u{202f}'
        || c == '\u{205f}' || c == '\u{3000}'
}

/// The class of white space.
pub open spec fn whitespace() -> spec_fn(char) -> bool {
    |c: char| char_is_whitespace(c)
}

/// The class that holds `one` alone.
pub open spec fn only(one: char) -> spec_fn(char) -> bool {
    |c: char| c == one
}

/// `s` without its longest prefix of characters in `class`.
pub open spec fn drop_front(s: Seq<char>, class: spec_fn(char) -> bool) -> Seq<char>
    decreases s.len(),
{
    if s.len() > 0 && class(s[0]) {
        drop_front(s.drop_first(), class)
    } else {
        s
    }
}

/// `s` without its longest suffix of characters in `class`.
pub open spec fn drop_back(s: Seq<char>, class: spec_fn(char) -> bool) -> Seq<char>
    decreases s.len(),
{
    if s.len() > 0 && class(s.last()) {
        drop_back(s.drop_last(), class)
    } else {
        s
    }
}

/// `s` without the characters in `class` at its two ends.
pub open spec fn trimmed_of(s: Seq<char>, class: spec_fn(char) -> bool) -> Seq<char> {
    drop_back(drop_front(s, class), class)
}

/// `s` without white space at its two ends.
pub open spec fn trimmed(s: Seq<char>) -> Seq<char> {
    trimmed_of(s, whitespace())
}

/// `s` without every repetition of `suffix` at its end.
pub open spec fn without_suffixes(s: Seq<char>, suffix: Seq<char>) -> Seq<char>
    decreases s.len(),
{
    if suffix.len() > 0 && ends_with_text(s, suffix) {
        without_suffixes(s.take(s.len() - suffix.len()), suffix)
    } else {
        s
    }
}

/// What is left of `chars` once the characters that `drops` accepts are taken off both ends.
fn trim_range<F: Fn(char) -> bool>(
    chars: &Vec<char>,
    drops: F,
    Ghost(class): Ghost<spec_fn(char) -> bool>,
) -> (r: (usize, usize))
    requires
        forall|c: char| drops.requires((c,)),
        forall|c: char, b: bool| drops.ensures((c,), b) ==> b == class(c),
    ensures
        r.0 <= r.1 <= chars@.len(),
        chars@.subrange(r.0 as int, r.1 as int) == trimmed_of(chars@, class),
{
    let mut from: usize = 0;
    let mut to: usize = chars.len();
    assert(chars@.subrange(0, chars@.len() as int) =~= chars@);
    while from < to && drops(chars[from])
        invariant
            from <= to,
            to == chars@.len(),
            forall|c: char| drops.requires((c,)),
            forall|c: char, b: bool| drops.ensures((c,), b) ==> b == class(c),
            drop_front(chars@.subrange(from as int, to as int), class) == drop_front(chars@, class),
        ensures
            from <= to,
            to == chars@.len(),
            chars@.subrange(from as int, to as int) == drop_front(chars@, class),
        decreases to - from,
    {
        assert(chars@.subrange(from as int, to as int).drop_first() =~= chars@.subrange(
            from + 1,
            to as int,
        ));
        from += 1;
    }
    let ghost middle = chars@.subrange(from as int, to as int);
    while from < to && drops(chars[to - 1])
        invariant
            from <= to <= chars@.len(),
            forall|c: char| drops.requires((c,)),
            forall|c: char, b: bool| drops.ensures((c,), b) ==> b == class(c),
            drop_back(chars@.subrange(from as int, to as int), class) == drop_back(middle, class),
        ensures
            from <= to <= chars@.len(),
            chars@.subrange(from as int, to as int) == drop_back(middle, class),
        decreases to - from,
    {
        assert(chars@.subrange(from as int, to as int).drop_last() =~= chars@.subrange(
            from as int,
            to - 1,
        ));
        to -= 1;
    }
    (from, to)
}

/// `text` without white space at its two ends.
pub fn trim(text: &str) -> (r: String)
    ensures
        r@ == trimmed(text@),
{
    let chars = chars_of(text);
    let drops = |c: char| -> (b: bool)
        ensures
            b == char_is_whitespace(c),
        { is_whitespace(c) };
    let (from, to) = trim_range(&chars, drops, Ghost(whitespace()));
    string_of(&chars, from, to)
}

/// `text` without the character `one` at its two ends.
pub fn trim_char(text: &str, one: char) -> (r: String)
    ensures
        r@ == trimmed_of(text@, only(one)),
{
    let chars = chars_of(text);
    let drops = |c: char| -> (b: bool)
        ensures
            b == (c == one),
        { c == one };
    let (from, to) = trim_range(&chars, drops, Ghost(only(one)));
    string_of(&chars, from, to)
}

/// Whether `text` is empty or white space throughout.
pub fn is_blank(text: &str) -> (r: bool)
    ensures
        r == (trimmed(text@).len() == 0),
{
    let rest = trim(text);
    rest.as_str().is_empty()
}

/// `text` without every repetition of `suffix` at its end.
pub fn trim_end_text(text: &str, suffix: &str) -> (r: String)
    ensures
        r@ == without_suffixes(text@, suffix@),
{
    let chars = chars_of(text);
    let tail = chars_of(suffix);
    let mut to: usize = chars.len();
    assert(chars@.take(chars@.len() as int) =~= chars@);
    loop
        invariant
            to <= chars@.len(),
            tail@ == suffix@,
            chars@ == text@,
            without_suffixes(chars@.take(to as int), tail@) == without_suffixes(chars@, tail@),
        ensures
            to <= chars@.len(),
            chars@.take(to as int) == without_suffixes(chars@, tail@),
        decreases to,
    {
        if tail.len() == 0 || to < tail.len() {
            break ;
        }
        let next: usize = to - tail.len();
        proof {
            let whole = chars@.take(to as int);
            assert(whole.subrange(next as int, to as int) =~= chars@.subrange(
                next as int,
                to as int,
            ));
            assert(whole.take(next as int) =~= chars@.take(next as int));
        }
        if !matches_at(&chars, &tail, next, to) {
            break ;
        }
        to = next;
    }
    string_of(&chars, 0, to)
}

/// Nothing is left to drop in front where the first character is not of the class.
pub proof fn lemma_drop_front(s: Seq<char>, class: spec_fn(char) -> bool)
    ensures
        drop_front(s, class).len() <= s.len(),
        drop_front(s, class) == s.skip(s.len() - drop_front(s, class).len()),
        drop_front(s, class).len() > 0 ==> !class(drop_front(s, class)[0]),
    decreases s.len(),
{
    if s.len() > 0 && class(s[0]) {
        lemma_drop_front(s.drop_first(), class);
    }
    assert(drop_front(s, class) =~= s.skip(s.len() - drop_front(s, class).len()));
}

/// Nothing is left to drop at the back where the last character is not of the class.
pub proof fn lemma_drop_back(s: Seq<char>, class: spec_fn(char) -> bool)
    ensures
        drop_back(s, class).len() <= s.len(),
        drop_back(s, class) == s.take(drop_back(s, class).len() as int),
        drop_back(s, class).len() > 0 ==> !class(drop_back(s, class).last()),
    decreases s.len(),
{
    if s.len() > 0 && class(s.last()) {
        lemma_drop_back(s.drop_last(), class);
    }
    assert(drop_back(s, class) =~= s.take(drop_back(s, class).len() as int));
}

/// What is trimmed neither begins nor ends with a character of the class.
pub proof fn lemma_trimmed_ends(s: Seq<char>, class: spec_fn(char) -> bool)
    ensures
        trimmed_of(s, class).len() > 0 ==> !class(trimmed_of(s, class)[0]) && !class(
            trimmed_of(s, class).last(),
        ),
{
    lemma_drop_front(s, class);
    lemma_drop_back(drop_front(s, class), class);
}

/// What neither begins nor ends with a character of the class is left as it is.
pub proof fn lemma_trimmed_already(s: Seq<char>, class: spec_fn(char) -> bool)
    requires
        s.len() > 0 ==> !class(s[0]) && !class(s.last()),
    ensures
        trimmed_of(s, class) == s,
{
}

/// One character of the class at each end is taken off.
pub proof fn lemma_trimmed_of_both_ends(
    front: char,
    s: Seq<char>,
    back: char,
    class: spec_fn(char) -> bool,
)
    requires
        class(front),
        class(back),
        s.len() > 0,
        !class(s[0]),
        !class(s.last()),
    ensures
        trimmed_of(seq![front] + s + seq![back], class) == s,
{
    reveal_with_fuel(drop_front, 2);
    reveal_with_fuel(drop_back, 2);
    assert((seq![front] + s + seq![back]).drop_first() =~= s + seq![back]);
    assert((s + seq![back]).drop_last() =~= s);
}

/// What is trimmed stands in the text.
pub proof fn lemma_trimmed_stands_in(s: Seq<char>, class: spec_fn(char) -> bool)
    ensures
        contains_text(s, trimmed_of(s, class)),
{
    let rest = drop_front(s, class);
    let core = trimmed_of(s, class);
    lemma_drop_front(s, class);
    lemma_drop_back(rest, class);
    let at = s.len() - rest.len();
    assert(s.subrange(at, at + core.len()) =~= core);
    assert(occurs_at(s, core, at));
}

/// What is left without a suffix begins the text, and does not end with the suffix.
pub proof fn lemma_without_suffixes(s: Seq<char>, suffix: Seq<char>)
    requires
        suffix.len() > 0,
    ensures
        starts_with_text(s, without_suffixes(s, suffix)),
        !ends_with_text(without_suffixes(s, suffix), suffix),
    decreases s.len(),
{
    let core = without_suffixes(s, suffix);
    if ends_with_text(s, suffix) {
        let front = s.take(s.len() - suffix.len());
        lemma_without_suffixes(front, suffix);
        assert(front.subrange(0, core.len() as int) =~= s.subrange(0, core.len() as int));
    } else {
        assert(s.subrange(0, s.len() as int) =~= s);
    }
}

/// A text is blank where each of its characters is white space.
pub proof fn lemma_blank(s: Seq<char>)
    ensures
        trimmed(s).len() == 0 <==> forall|i: int|
            0 <= i < s.len() ==> char_is_whitespace(#[trigger] s[i]),
{
    let class = whitespace();
    let front = drop_front(s, class);
    lemma_drop_front_all(s, class);
    lemma_drop_front(s, class);
    lemma_drop_back(front, class);
    if front.len() > 0 {
        assert(!class(front[0]));
        assert(front[0] == s[s.len() - front.len()]);
        lemma_drop_back_keeps(front, class);
    }
}

/// What is dropped in front is of the class.
proof fn lemma_drop_front_all(s: Seq<char>, class: spec_fn(char) -> bool)
    ensures
        forall|i: int|
            0 <= i < s.len() - drop_front(s, class).len() ==> class(#[trigger] s[i]),
    decreases s.len(),
{
    if s.len() > 0 && class(s[0]) {
        let rest = s.drop_first();
        lemma_drop_front_all(rest, class);
        assert forall|i: int| 0 <= i < s.len() - drop_front(s, class).len() implies class(
            #[trigger] s[i],
        ) by {
            if i > 0 {
                assert(s[i] == rest[i - 1]);
            }
        }
    }
}

/// Dropping at the back stops at the first character at the latest, where that is not of the
/// class.
proof fn lemma_drop_back_keeps(s: Seq<char>, class: spec_fn(char) -> bool)
    requires
        s.len() > 0,
        !class(s[0]),
    ensures
        drop_back(s, class).len() > 0,
    decreases s.len(),
{
    if class(s.last()) {
        lemma_drop_back_keeps(s.drop_last(), class);
    }
}

// ---------------------------------------------------------------------------
// Searching
// ---------------------------------------------------------------------------

/// `part` stands in `s` at position `at`.
pub open spec fn occurs_at(s: Seq<char>, part: Seq<char>, at: int) -> bool {
    &&& 0 <= at
    &&& at + part.len() <= s.len()
    &&& s.subrange(at, at + part.len()) == part
}

/// `part` stands somewhere in `s`.
pub open spec fn contains_text(s: Seq<char>, part: Seq<char>) -> bool {
    exists|at: int| occurs_at(s, part, at)
}

/// `s` begins with `prefix`.
pub open spec fn starts_with_text(s: Seq<char>, prefix: Seq<char>) -> bool {
    occurs_at(s, prefix, 0)
}

/// `s` ends with `suffix`.
pub open spec fn ends_with_text(s: Seq<char>, suffix: Seq<char>) -> bool {
    occurs_at(s, suffix, s.len() - suffix.len())
}

/// Whether `part` is `chars[at..to]`.
fn matches_at(chars: &Vec<char>, part: &Vec<char>, at: usize, to: usize) -> (r: bool)
    requires
        at + part@.len() == to,
    ensures
        r == (to <= chars@.len() && chars@.subrange(at as int, to as int) == part@),
{
    if to > chars.len() {
        return false;
    }
    for i in 0..part.len()
        invariant
            at + part@.len() == to,
            to <= chars@.len(),
            forall|k: int| 0 <= k < i ==> chars@[at + k] == part@[k],
    {
        if chars[at + i] != part[i] {
            assert(chars@.subrange(at as int, to as int)[i as int] != part@[i as int]);
            return false;
        }
    }
    assert(chars@.subrange(at as int, to as int) =~= part@);
    true
}

/// The position of the first occurrence of `part` in `chars`.
pub fn find_in(chars: &Vec<char>, part: &Vec<char>) -> (r: Option<usize>)
    ensures
        match r {
            Some(at) => occurs_at(chars@, part@, at as int) && forall|k: int|
                0 <= k < at ==> !occurs_at(chars@, part@, k),
            None => !contains_text(chars@, part@),
        },
{
    if part.len() > chars.len() {
        return None;
    }
    let last: usize = chars.len() - part.len();
    let mut at: usize = 0;
    while at <= last
        invariant
            at <= last + 1,
            last + part.len() == chars.len(),
            forall|k: int| 0 <= k < at ==> !occurs_at(chars@, part@, k),
        decreases last + 1 - at,
    {
        if matches_at(chars, part, at, at + part.len()) {
            return Some(at);
        }
        if at == last {
            return None;
        }
        at += 1;
    }
    None
}

/// Whether `part` stands somewhere in `text`.
pub fn contains(text: &str, part: &str) -> (r: bool)
    ensures
        r == contains_text(text@, part@),
{
    let chars = chars_of(text);
    let wanted = chars_of(part);
    match find_in(&chars, &wanted) {
        Some(_) => true,
        None => false,
    }
}

/// Whether `text` begins with `prefix`.
pub fn starts_with(text: &str, prefix: &str) -> (r: bool)
    ensures
        r == starts_with_text(text@, prefix@),
{
    let chars = chars_of(text);
    let wanted = chars_of(prefix);
    matches_at(&chars, &wanted, 0, wanted.len())
}

/// Whether the code points of `a` come after those of `b` in dictionary order.
pub open spec fn text_after(a: Seq<char>, b: Seq<char>) -> bool
    decreases a.len(),
{
    if a.len() == 0 {
        false
    } else if b.len() == 0 {
        true
    } else if a[0] == b[0] {
        text_after(a.drop_first(), b.drop_first())
    } else {
        a[0] > b[0]
    }
}

/// Whether `a` comes after `b` in the order of strings, which is that of their code points.
pub fn is_after(a: &str, b: &str) -> (r: bool)
    ensures
        r == text_after(a@, b@),
{
    let left = chars_of(a);
    let right = chars_of(b);
    let mut i: usize = 0;
    assert(a@.skip(0) =~= a@);
    assert(b@.skip(0) =~= b@);
    while i < left.len() && i < right.len() && left[i] == right[i]
        invariant
            left@ == a@,
            right@ == b@,
            i <= left@.len(),
            i <= right@.len(),
            text_after(a@, b@) == text_after(a@.skip(i as int), b@.skip(i as int)),
        ensures
            i <= left@.len(),
            i <= right@.len(),
            text_after(a@, b@) == text_after(a@.skip(i as int), b@.skip(i as int)),
            i < left@.len() && i < right@.len() ==> left@[i as int] != right@[i as int],
        decreases left@.len() - i,
    {
        assert(a@.skip(i as int).drop_first() =~= a@.skip(i + 1));
        assert(b@.skip(i as int).drop_first() =~= b@.skip(i + 1));
        i += 1;
    }
    if i == left.len() {
        false
    } else if i == right.len() {
        true
    } else {
        left[i] > right[i]
    }
}

// ---------------------------------------------------------------------------
// Splitting and joining
// ---------------------------------------------------------------------------

/// The length of the longest prefix of `s` that holds no character of `class`.
pub open spec fn run_len(s: Seq<char>, class: spec_fn(char) -> bool) -> nat
    decreases s.len(),
{
    if s.len() == 0 || class(s[0]) {
        0
    } else {
        1 + run_len(s.drop_first(), class)
    }
}

/// A run ends inside the text, at the first character of the class or at the end.
pub proof fn lemma_run_len(s: Seq<char>, class: spec_fn(char) -> bool)
    ensures
        run_len(s, class) <= s.len(),
        forall|i: int| 0 <= i < run_len(s, class) ==> !class(#[trigger] s[i]),
        run_len(s, class) < s.len() ==> class(s[run_len(s, class) as int]),
    decreases s.len(),
{
    if s.len() > 0 && !class(s[0]) {
        let rest = s.drop_first();
        lemma_run_len(rest, class);
        assert forall|i: int| 0 <= i < run_len(s, class) implies !class(#[trigger] s[i]) by {
            if i > 0 {
                assert(s[i] == rest[i - 1]);
            }
        }
    }
}

/// A run is known by where it ends.
pub proof fn lemma_run_len_is(s: Seq<char>, class: spec_fn(char) -> bool, n: int)
    requires
        0 <= n <= s.len(),
        forall|i: int| 0 <= i < n ==> !class(#[trigger] s[i]),
        n < s.len() ==> class(s[n]),
    ensures
        run_len(s, class) == n,
{
    lemma_run_len(s, class);
    let m = run_len(s, class) as int;
    if m < n {
        assert(!class(s[m]));
    }
}

/// The position at or after `from` of the first character that `stops` accepts, or the end.
fn run_end<F: Fn(char) -> bool>(
    chars: &Vec<char>,
    from: usize,
    stops: F,
    Ghost(class): Ghost<spec_fn(char) -> bool>,
) -> (r: usize)
    requires
        from <= chars@.len(),
        forall|c: char| stops.requires((c,)),
        forall|c: char, b: bool| stops.ensures((c,), b) ==> b == class(c),
    ensures
        from <= r <= chars@.len(),
        r == from + run_len(chars@.skip(from as int), class),
        r < chars@.len() ==> class(chars@[r as int]),
{
    let mut at: usize = from;
    while at < chars.len() && !stops(chars[at])
        invariant
            from <= at <= chars@.len(),
            forall|c: char| stops.requires((c,)),
            forall|c: char, b: bool| stops.ensures((c,), b) ==> b == class(c),
            forall|i: int| from <= i < at ==> !class(#[trigger] chars@[i]),
        ensures
            from <= at <= chars@.len(),
            forall|i: int| from <= i < at ==> !class(#[trigger] chars@[i]),
            at < chars@.len() ==> class(chars@[at as int]),
        decreases chars@.len() - at,
    {
        at += 1;
    }
    proof {
        let rest = chars@.skip(from as int);
        assert forall|i: int| 0 <= i < at - from implies !class(#[trigger] rest[i]) by {
            assert(rest[i] == chars@[from + i]);
        }
        lemma_run_len_is(rest, class, at - from);
    }
    at
}

/// The maximal runs of `s` without white space, in order.
pub open spec fn words(s: Seq<char>) -> Seq<Seq<char>>
    decreases s.len(),
{
    if s.len() == 0 {
        Seq::empty()
    } else if char_is_whitespace(s[0]) {
        words(s.drop_first())
    } else {
        proof {
            lemma_run_len(s, whitespace());
        }
        let n = run_len(s, whitespace()) as int;
        seq![s.take(n)] + words(s.skip(n))
    }
}

/// The words of `text`: its maximal runs without white space, in order.
pub fn split_words(text: &str) -> (r: Vec<String>)
    ensures
        views_of(r@) == words(text@),
{
    let chars = chars_of(text);
    let mut r: Vec<String> = Vec::new();
    let mut at: usize = 0;
    assert(text@.skip(0) =~= text@);
    while at < chars.len()
        invariant
            chars@ == text@,
            at <= chars@.len(),
            words(text@) == views_of(r@) + words(text@.skip(at as int)),
        decreases chars@.len() - at,
    {
        let ghost rest = text@.skip(at as int);
        if is_whitespace(chars[at]) {
            assert(rest.drop_first() =~= text@.skip(at + 1));
            at += 1;
        } else {
            let stops = |c: char| -> (b: bool)
                ensures
                    b == char_is_whitespace(c),
                { is_whitespace(c) };
            let to = run_end(&chars, at, stops, Ghost(whitespace()));
            let ghost before = r@;
            r.push(string_of(&chars, at, to));
            proof {
                lemma_run_len(rest, whitespace());
                assert(rest.take(to - at) =~= chars@.subrange(at as int, to as int));
                assert(rest.skip(to - at) =~= text@.skip(to as int));
                assert(views_of(r@) =~= views_of(before).push(rest.take(to - at)));
                assert(views_of(r@) + words(text@.skip(to as int)) =~= views_of(before) + (
                seq![rest.take(to - at)] + words(text@.skip(to as int))));
            }
            at = to;
        }
    }
    proof {
        assert(words(text@.skip(at as int)) =~= Seq::empty());
        assert(views_of(r@) + Seq::<Seq<char>>::empty() =~= views_of(r@));
    }
    r
}

/// The pieces of `s` between the occurrences of `separator`.
pub open spec fn pieces(s: Seq<char>, separator: char) -> Seq<Seq<char>>
    decreases s.len(),
{
    proof {
        lemma_run_len(s, only(separator));
    }
    let n = run_len(s, only(separator)) as int;
    if n < s.len() {
        seq![s.take(n)] + pieces(s.skip(n + 1), separator)
    } else {
        seq![s]
    }
}

/// The pieces of `text` between the occurrences of `separator`.
pub fn split_pieces(text: &str, separator: char) -> (r: Vec<String>)
    ensures
        views_of(r@) == pieces(text@, separator),
{
    let chars = chars_of(text);
    let mut r: Vec<String> = Vec::new();
    let mut at: usize = 0;
    assert(text@.skip(0) =~= text@);
    assert(views_of(r@) + pieces(text@, separator) =~= pieces(text@, separator));
    loop
        invariant
            chars@ == text@,
            at <= chars@.len(),
            pieces(text@, separator) == views_of(r@) + pieces(text@.skip(at as int), separator),
        decreases chars@.len() - at,
    {
        let stops = |c: char| -> (b: bool)
            ensures
                b == (c == separator),
            { c == separator };
        let to = run_end(&chars, at, stops, Ghost(only(separator)));
        let ghost rest = text@.skip(at as int);
        let ghost before = r@;
        r.push(string_of(&chars, at, to));
        proof {
            assert(rest.take(to - at) =~= chars@.subrange(at as int, to as int));
            assert(views_of(r@) =~= views_of(before).push(rest.take(to - at)));
        }
        if to == chars.len() {
            proof {
                assert(rest.take(to - at) =~= rest);
                assert(views_of(r@) =~= views_of(before) + seq![rest]);
            }
            return r;
        }
        proof {
            let after = text@.skip(to + 1);
            assert(rest.skip(to - at + 1) =~= after);
            assert(views_of(r@) + pieces(after, separator) =~= views_of(before) + (
            seq![rest.take(to - at)] + pieces(after, separator)));
        }
        at = to + 1;
    }
}

/// `line` without one carriage return at its end.
pub open spec fn without_return(line: Seq<char>) -> Seq<char> {
    if line.len() > 0 && line.last() == '\r' {
        line.drop_last()
    } else {
        line
    }
}

/// The lines of `s`: each ends at a line feed, which a carriage return may precede; the last one
/// needs no ending.
pub open spec fn lines(s: Seq<char>) -> Seq<Seq<char>>
    decreases s.len(),
{
    proof {
        lemma_run_len(s, only('\n'));
    }
    let n = run_len(s, only('\n')) as int;
    if s.len() == 0 {
        Seq::empty()
    } else if n < s.len() {
        seq![without_return(s.take(n))] + lines(s.skip(n + 1))
    } else {
        seq![s]
    }
}

/// A text that is empty or ends at a line feed can be read apart from what follows it.
pub proof fn law_lines_of_two_texts(u: Seq<char>, v: Seq<char>)
    requires
        u.len() == 0 || u.last() == '\n',
    ensures
        lines(u + v) == lines(u) + lines(v),
    decreases u.len(),
{
    if u.len() == 0 {
        assert(u + v =~= v);
        assert(lines(u) + lines(v) =~= lines(v));
    } else {
        let class = only('\n');
        lemma_run_len(u, class);
        let n = run_len(u, class) as int;
        if n == u.len() {
            assert(!class(u[n - 1]));
        }
        assert forall|i: int| 0 <= i < n implies !class(#[trigger] (u + v)[i]) by {
            assert((u + v)[i] == u[i]);
        }
        lemma_run_len_is(u + v, class, n);
        let rest = u.skip(n + 1);
        if rest.len() > 0 {
            assert(rest.last() == u.last());
        }
        law_lines_of_two_texts(rest, v);
        assert((u + v).take(n) =~= u.take(n));
        assert((u + v).skip(n + 1) =~= rest + v);
        let first = seq![without_return(u.take(n))];
        assert(first + (lines(rest) + lines(v)) =~= (first + lines(rest)) + lines(v));
    }
}

/// The lines of `text`.
pub fn split_lines(text: &str) -> (r: Vec<String>)
    ensures
        views_of(r@) == lines(text@),
{
    let chars = chars_of(text);
    let mut r: Vec<String> = Vec::new();
    let mut at: usize = 0;
    assert(text@.skip(0) =~= text@);
    assert(views_of(r@) + lines(text@) =~= lines(text@));
    while at < chars.len()
        invariant
            chars@ == text@,
            at <= chars@.len(),
            lines(text@) == views_of(r@) + lines(text@.skip(at as int)),
        decreases chars@.len() - at,
    {
        let stops = |c: char| -> (b: bool)
            ensures
                b == (c == '\n'),
            { c == '\n' };
        let to = run_end(&chars, at, stops, Ghost(only('\n')));
        let ghost rest = text@.skip(at as int);
        let ghost before = r@;
        let ghost line = rest.take(to - at);
        assert(line =~= chars@.subrange(at as int, to as int));
        if to == chars.len() {
            r.push(string_of(&chars, at, to));
            proof {
                assert(line =~= rest);
                assert(views_of(r@) =~= views_of(before) + seq![rest]);
            }
            return r;
        }
        if to > at && chars[to - 1] == '\r' {
            r.push(string_of(&chars, at, to - 1));
            assert(line.drop_last() =~= chars@.subrange(at as int, to - 1));
        } else {
            r.push(string_of(&chars, at, to));
        }
        proof {
            let after = text@.skip(to + 1);
            assert(rest.skip(to - at + 1) =~= after);
            assert(views_of(r@) =~= views_of(before).push(without_return(line)));
            assert(views_of(r@) + lines(after) =~= views_of(before) + (seq![without_return(line)]
                + lines(after)));
        }
        at = to + 1;
    }
    proof {
        assert(lines(text@.skip(at as int)) =~= Seq::empty());
        assert(views_of(r@) + Seq::<Seq<char>>::empty() =~= views_of(r@));
    }
    r
}

/// `parts` in order, with `separator` between each two of them.
pub open spec fn joined(parts: Seq<Seq<char>>, separator: Seq<char>) -> Seq<char>
    decreases parts.len(),
{
    if parts.len() == 0 {
        Seq::empty()
    } else if parts.len() == 1 {
        parts.last()
    } else {
        joined(parts.drop_last(), separator) + separator + parts.last()
    }
}

/// What is joined is not blank where one of the parts is not.
pub proof fn lemma_joined_not_blank(parts: Seq<Seq<char>>, separator: Seq<char>, at: int)
    requires
        0 <= at < parts.len(),
        trimmed(parts[at]).len() > 0,
    ensures
        trimmed(joined(parts, separator)).len() > 0,
    decreases parts.len(),
{
    let whole = joined(parts, separator);
    lemma_blank(whole);
    if parts.len() > 1 {
        let front = joined(parts.drop_last(), separator);
        let last = parts.last();
        if at < parts.len() - 1 {
            lemma_joined_not_blank(parts.drop_last(), separator, at);
            lemma_blank(front);
            let i = choose|i: int| 0 <= i < front.len() && !char_is_whitespace(front[i]);
            assert(whole[i] == front[i]);
        } else {
            lemma_blank(last);
            let i = choose|i: int| 0 <= i < last.len() && !char_is_whitespace(last[i]);
            assert(whole[front.len() + separator.len() + i] == last[i]);
        }
    }
}

/// `parts` in order, with `separator` between each two of them.
pub fn join(parts: &Vec<String>, separator: &str) -> (r: String)
    ensures
        r@ == joined(views_of(parts@), separator@),
{
    let mut r = String::new();
    let ghost all = views_of(parts@);
    for i in 0..parts.len()
        invariant
            all == views_of(parts@),
            r@ == joined(all.take(i as int), separator@),
    {
        if i > 0 {
            r.append(separator);
        }
        r.append(parts[i].as_str());
        proof {
            let next = all.take(i + 1);
            assert(next.drop_last() =~= all.take(i as int));
            assert(next.last() == parts@[i as int]@);
            if i == 0 {
                assert(r@ =~= next.last());
            }
        }
    }
    assert(all.take(all.len() as int) =~= all);
    r
}

/// `text` with every run of white space between its words made one space, and none at its ends.
pub open spec fn compacted(text: Seq<char>) -> Seq<char> {
    joined(words(text), " "@)
}

/// `text` with every run of white space between its words made one space, and none at its ends.
pub fn compact(text: &str) -> (r: String)
    ensures
        r@ == compacted(text@),
{
    let parts = split_words(text);
    join(&parts, " ")
}

/// The first `count` characters of `s`, or all of them.
pub open spec fn first_chars(s: Seq<char>, count: nat) -> Seq<char> {
    if s.len() <= count {
        s
    } else {
        s.take(count as int)
    }
}

/// The first `count` characters of `text`, or all of them.
pub fn take_chars(text: &str, count: usize) -> (r: String)
    ensures
        r@ == first_chars(text@, count as nat),
{
    let chars = chars_of(text);
    if chars.len() <= count {
        owned(text)
    } else {
        let r = string_of(&chars, 0, count);
        assert(chars@.subrange(0, count as int) =~= chars@.take(count as int));
        r
    }
}

// ---------------------------------------------------------------------------
// Decimal numbers
// ---------------------------------------------------------------------------

/// `c` is an ASCII digit.
pub open spec fn is_digit(c: char) -> bool {
    '0' <= c <= '9'
}

/// The class of characters that are not ASCII digits.
pub open spec fn non_digit() -> spec_fn(char) -> bool {
    |c: char| !is_digit(c)
}

/// The ASCII digit of `d`, which is below ten.
pub open spec fn digit_char(d: nat) -> char {
    ('0' as u32 + d) as char
}

/// The decimal digits of `n`, without leading zeros.
pub open spec fn decimal(n: nat) -> Seq<char>
    decreases n,
{
    if n < 10 {
        seq![digit_char(n)]
    } else {
        decimal(n / 10).push(digit_char(n % 10))
    }
}

/// Every character of `s` is an ASCII digit.
pub open spec fn all_digits(s: Seq<char>) -> bool {
    forall|i: int| 0 <= i < s.len() ==> is_digit(#[trigger] s[i])
}

/// The number that the digits `s` write in base ten.
pub open spec fn decimal_value(s: Seq<char>) -> nat
    decreases s.len(),
{
    if s.len() == 0 {
        0
    } else {
        (decimal_value(s.drop_last()) * 10 + (s.last() as u32 - '0' as u32)) as nat
    }
}

/// `s` read as an unsigned number of 64 bits: digits alone, at least one, in range.
pub open spec fn read_u64(s: Seq<char>) -> Option<u64> {
    if s.len() > 0 && all_digits(s) && decimal_value(s) <= u64::MAX {
        Some(decimal_value(s) as u64)
    } else {
        None
    }
}

/// `s` read as a signed number of 64 bits: one optional sign, then digits, at least one, in
/// range.
pub open spec fn read_i64(s: Seq<char>) -> Option<i64> {
    let signed = s.len() > 0 && (s[0] == '+' || s[0] == '-');
    let digits = if signed {
        s.skip(1)
    } else {
        s
    };
    let value = if signed && s[0] == '-' {
        -(decimal_value(digits) as int)
    } else {
        decimal_value(digits) as int
    };
    if digits.len() > 0 && all_digits(digits) && i64::MIN <= value <= i64::MAX {
        Some(value as i64)
    } else {
        None
    }
}

/// Appends the decimal digits of `n`.
pub fn push_decimal(out: &mut String, n: u64)
    ensures
        final(out)@ == old(out)@ + decimal(n as nat),
    decreases n,
{
    if n >= 10 {
        push_decimal(out, n / 10);
    }
    let ghost before = out@;
    out.push((48u8 + (n % 10) as u8) as char);
    proof {
        let last = digit_char(n as nat % 10);
        if n >= 10 {
            assert(out@ =~= old(out)@ + decimal(n as nat / 10).push(last));
        } else {
            assert(out@ =~= old(out)@ + seq![last]);
        }
    }
}

/// The decimal form of `n`, with a sign in front where it is negative.
pub open spec fn signed_decimal(n: int) -> Seq<char> {
    if n < 0 {
        "-"@ + decimal((-n) as nat)
    } else {
        decimal(n as nat)
    }
}

/// Appends the decimal form of `n`.
pub fn push_signed(out: &mut String, n: i64)
    ensures
        final(out)@ == old(out)@ + signed_decimal(n as int),
{
    if n < 0 {
        out.append("-");
        push_decimal(out, (-(n as i128)) as u64);
        assert(out@ =~= old(out)@ + signed_decimal(n as int));
    } else {
        push_decimal(out, n as u64);
    }
}

/// The value of the digits `chars[from..to]`, where it is at most `limit`.
fn digits_value(chars: &Vec<char>, from: usize, to: usize, limit: u64) -> (r: Option<u64>)
    requires
        from <= to <= chars@.len(),
    ensures
        match r {
            Some(value) => from < to && all_digits(chars@.subrange(from as int, to as int))
                && value == decimal_value(chars@.subrange(from as int, to as int)) && value
                <= limit,
            None => from == to || !all_digits(chars@.subrange(from as int, to as int))
                || decimal_value(chars@.subrange(from as int, to as int)) > limit,
        },
{
    let ghost all = chars@.subrange(from as int, to as int);
    if from == to {
        return None;
    }
    let mut value: Option<u64> = Some(0);
    for i in from..to
        invariant
            from <= to <= chars@.len(),
            all == chars@.subrange(from as int, to as int),
            forall|k: int| 0 <= k < i - from ==> is_digit(#[trigger] all[k]),
            match value {
                Some(v) => v == decimal_value(all.take(i - from)) && v <= limit,
                None => decimal_value(all.take(i - from)) > limit,
            },
    {
        let c = chars[i];
        assert(c == all[i - from]);
        if c < '0' || c > '9' {
            return None;
        }
        let digit: u64 = (c as u8 - 48u8) as u64;
        proof {
            assert(all.take(i - from + 1).drop_last() =~= all.take(i - from));
            assert(decimal_value(all.take(i - from + 1)) == decimal_value(all.take(i - from)) * 10
                + digit);
        }
        value = match value {
            Some(v) => {
                if v > limit / 10 || (v == limit / 10 && digit > limit % 10) {
                    None
                } else {
                    Some(v * 10 + digit)
                }
            },
            None => None,
        };
    }
    assert(all.take(to - from) =~= all);
    value
}

/// `text` read as an unsigned number of 64 bits.
pub fn parse_u64(text: &str) -> (r: Option<u64>)
    ensures
        r == read_u64(text@),
{
    let chars = chars_of(text);
    let r = digits_value(&chars, 0, chars.len(), u64::MAX);
    assert(chars@.subrange(0, chars@.len() as int) =~= text@);
    r
}

/// `text` read as a signed number of 64 bits.
pub fn parse_i64(text: &str) -> (r: Option<i64>)
    ensures
        r == read_i64(text@),
{
    let chars = chars_of(text);
    assert(chars@.subrange(0, chars@.len() as int) =~= text@);
    if chars.len() == 0 {
        return None;
    }
    assert(chars@.subrange(1, chars@.len() as int) =~= text@.skip(1));
    if chars[0] == '-' {
        match digits_value(&chars, 1, chars.len(), 9_223_372_036_854_775_808) {
            Some(value) => if value == 9_223_372_036_854_775_808 {
                Some(i64::MIN)
            } else {
                Some(-(value as i64))
            },
            None => None,
        }
    } else {
        let from: usize = if chars[0] == '+' {
            1
        } else {
            0
        };
        match digits_value(&chars, from, chars.len(), 9_223_372_036_854_775_807) {
            Some(value) => Some(value as i64),
            None => None,
        }
    }
}

// ---------------------------------------------------------------------------
// Laws
// ---------------------------------------------------------------------------

/// Case is changed letter by letter: the letters of the English alphabet move by 32, and nothing
/// else changes.
pub proof fn law_case_changes_letters_alone(s: Seq<char>, i: int)
    requires
        0 <= i < s.len(),
    ensures
        lowered(s).len() == s.len(),
        uppered(s).len() == s.len(),
        65 <= s[i] as u32 <= 90 ==> lowered(s)[i] as u32 == s[i] as u32 + 32,
        !(65 <= s[i] as u32 <= 90) ==> lowered(s)[i] == s[i],
        97 <= s[i] as u32 <= 122 ==> uppered(s)[i] as u32 == s[i] as u32 - 32,
        !(97 <= s[i] as u32 <= 122) ==> uppered(s)[i] == s[i],
{
}

/// White space is what Unicode calls so.
pub proof fn law_white_space(c: char)
    ensures
        char_is_whitespace(c) <==> {
            let code = c as u32;
            ||| 9 <= code <= 13
            ||| code == 32
            ||| code == 0x85
            ||| code == 0xa0
            ||| code == 0x1680
            ||| 0x2000 <= code <= 0x200a
            ||| code == 0x2028
            ||| code == 0x2029
            ||| code == 0x202f
            ||| code == 0x205f
            ||| code == 0x3000
        },
{
}

/// Trimming takes off all white space at the two ends and nothing else.
pub proof fn law_trimming_takes_off_white_space(s: Seq<char>)
    ensures
        exists|front: Seq<char>, back: Seq<char>|
            {
                &&& s == #[trigger] (front + trimmed(s) + back)
                &&& forall|i: int| 0 <= i < front.len() ==> char_is_whitespace(#[trigger] front[i])
                &&& forall|i: int| 0 <= i < back.len() ==> char_is_whitespace(#[trigger] back[i])
            },
        trimmed(s).len() > 0 ==> !char_is_whitespace(trimmed(s)[0]) && !char_is_whitespace(
            trimmed(s).last(),
        ),
{
    let class = whitespace();
    let rest = drop_front(s, class);
    lemma_drop_front(s, class);
    lemma_drop_front_all(s, class);
    lemma_drop_back(rest, class);
    lemma_drop_back_all(rest, class);
    lemma_trimmed_ends(s, class);
    let core = trimmed(s);
    let front = s.take(s.len() - rest.len());
    let back = rest.skip(core.len() as int);
    assert forall|i: int| 0 <= i < front.len() implies char_is_whitespace(#[trigger] front[i]) by {
        assert(class(s[i]));
    }
    assert forall|i: int| 0 <= i < back.len() implies char_is_whitespace(#[trigger] back[i]) by {
        assert(class(rest[core.len() + i]));
    }
    assert(s =~= front + core + back);
}

/// What is dropped at the back is of the class.
proof fn lemma_drop_back_all(s: Seq<char>, class: spec_fn(char) -> bool)
    ensures
        forall|i: int| drop_back(s, class).len() <= i < s.len() ==> class(#[trigger] s[i]),
    decreases s.len(),
{
    if s.len() > 0 && class(s.last()) {
        let rest = s.drop_last();
        lemma_drop_back_all(rest, class);
        assert forall|i: int| drop_back(s, class).len() <= i < s.len() implies class(
            #[trigger] s[i],
        ) by {
            if i < rest.len() {
                assert(s[i] == rest[i]);
            }
        }
    }
}

/// What is joined begins with the first part.
proof fn lemma_joined_front(first: Seq<char>, rest: Seq<Seq<char>>, separator: Seq<char>)
    ensures
        rest.len() == 0 ==> joined(seq![first] + rest, separator) == first,
        rest.len() > 0 ==> joined(seq![first] + rest, separator) == first + separator + joined(
            rest,
            separator,
        ),
    decreases rest.len(),
{
    let all = seq![first] + rest;
    if rest.len() > 0 {
        let less = rest.drop_last();
        assert(all.drop_last() =~= seq![first] + less);
        assert(all.last() == rest.last());
        lemma_joined_front(first, less, separator);
        if less.len() == 0 {
            assert(joined(rest, separator) == rest.last());
            assert(joined(all, separator) == first + separator + rest.last());
        } else {
            assert(joined(rest, separator) == joined(less, separator) + separator + rest.last());
            assert(joined(all, separator) =~= first + separator + joined(rest, separator));
        }
    }
}

/// Joining puts the separator between each two parts, and nowhere else.
pub proof fn law_joining_puts_separators_between(
    first: Seq<char>,
    rest: Seq<Seq<char>>,
    separator: Seq<char>,
)
    ensures
        joined(Seq::empty(), separator) == Seq::<char>::empty(),
        joined(seq![first], separator) == first,
        rest.len() > 0 ==> joined(seq![first] + rest, separator) == first + separator + joined(
            rest,
            separator,
        ),
{
    lemma_joined_front(first, rest, separator);
}

/// A text without anything but white space has no words.
proof fn lemma_no_words(s: Seq<char>)
    ensures
        words(s).len() == 0 <==> forall|i: int|
            0 <= i < s.len() ==> char_is_whitespace(#[trigger] s[i]),
    decreases s.len(),
{
    if s.len() > 0 {
        if char_is_whitespace(s[0]) {
            let rest = s.drop_first();
            lemma_no_words(rest);
            if words(s).len() == 0 {
                assert forall|i: int| 0 <= i < s.len() implies char_is_whitespace(
                    #[trigger] s[i],
                ) by {
                    if i > 0 {
                        assert(rest[i - 1] == s[i]);
                    }
                }
            }
            if forall|i: int| 0 <= i < s.len() ==> char_is_whitespace(#[trigger] s[i]) {
                assert forall|i: int| 0 <= i < rest.len() implies char_is_whitespace(
                    #[trigger] rest[i],
                ) by {
                    assert(rest[i] == s[i + 1]);
                }
            }
        } else {
            assert(!char_is_whitespace(s[0]));
        }
    }
}

/// White space in front does not matter for the words.
proof fn lemma_words_behind_gap(gap: Seq<char>, rest: Seq<char>)
    requires
        forall|i: int| 0 <= i < gap.len() ==> char_is_whitespace(#[trigger] gap[i]),
    ensures
        words(gap + rest) == words(rest),
    decreases gap.len(),
{
    if gap.len() == 0 {
        assert(gap + rest =~= rest);
    } else {
        let less = gap.drop_first();
        assert forall|i: int| 0 <= i < less.len() implies char_is_whitespace(#[trigger] less[i]) by {
            assert(less[i] == gap[i + 1]);
        }
        lemma_words_behind_gap(less, rest);
        assert((gap + rest).drop_first() =~= less + rest);
        assert((gap + rest)[0] == gap[0]);
    }
}

/// Evening out the white space of a text: what stands in front of its first word is dropped, and
/// so is what stands behind its last one; each word stays as it is, and any white space between
/// two words becomes one space.
pub proof fn law_white_space_is_evened_out(gap: Seq<char>, word: Seq<char>, rest: Seq<char>)
    requires
        forall|i: int| 0 <= i < gap.len() ==> char_is_whitespace(#[trigger] gap[i]),
        forall|i: int| 0 <= i < word.len() ==> !char_is_whitespace(#[trigger] word[i]),
        word.len() > 0,
        rest.len() > 0 ==> char_is_whitespace(rest[0]),
    ensures
        compacted(gap) == Seq::<char>::empty(),
        compacted(gap + word + rest) == if compacted(rest).len() == 0 {
            word
        } else {
            word + " "@ + compacted(rest)
        },
        compacted(rest).len() == 0 <==> forall|i: int|
            0 <= i < rest.len() ==> char_is_whitespace(#[trigger] rest[i]),
{
    lemma_no_words(gap);
    let whole = word + rest;
    assert(gap + word + rest =~= gap + whole);
    lemma_words_behind_gap(gap, whole);
    assert forall|i: int| 0 <= i < word.len() implies !whitespace()(#[trigger] whole[i]) by {
        assert(whole[i] == word[i]);
    }
    if rest.len() > 0 {
        assert(whole[word.len() as int] == rest[0]);
    }
    lemma_run_len_is(whole, whitespace(), word.len() as int);
    assert(whole.take(word.len() as int) =~= word);
    assert(whole.skip(word.len() as int) =~= rest);
    assert(whole[0] == word[0]);
    assert(words(whole) == seq![word] + words(rest));
    lemma_joined_front(word, words(rest), " "@);
    lemma_no_words(rest);
    lemma_words_have_letters(rest);
    if words(rest).len() > 0 {
        lemma_joined_is_longer(words(rest), " "@);
    }
}

/// A word is not empty.
proof fn lemma_words_have_letters(s: Seq<char>)
    ensures
        forall|k: int| 0 <= k < words(s).len() ==> (#[trigger] words(s)[k]).len() > 0,
    decreases s.len(),
{
    if s.len() > 0 {
        if char_is_whitespace(s[0]) {
            let rest = s.drop_first();
            lemma_words_have_letters(rest);
            assert(words(s) == words(rest));
        } else {
            lemma_run_len(s, whitespace());
            let n = run_len(s, whitespace()) as int;
            if n == 0 {
                assert(whitespace()(s[0]));
            }
            lemma_words_have_letters(s.skip(n));
            let rest = words(s.skip(n));
            assert(words(s) == seq![s.take(n)] + rest);
            assert forall|k: int| 0 <= k < words(s).len() implies (
            #[trigger] words(s)[k]).len() > 0 by {
                if k > 0 {
                    assert(words(s)[k] == rest[k - 1]);
                }
            }
        }
    }
}

/// What is joined is not empty where the last part is not.
proof fn lemma_joined_is_longer(parts: Seq<Seq<char>>, separator: Seq<char>)
    requires
        parts.len() > 0,
        parts[parts.len() - 1].len() > 0,
    ensures
        joined(parts, separator).len() > 0,
{
}

/// Of two texts that differ for the first time in one character, that with the greater code point
/// comes after the other; a text comes after its own beginning, and never after itself.
pub proof fn law_texts_are_ordered_by_code_points(
    front: Seq<char>,
    a: char,
    b: char,
    x: Seq<char>,
    y: Seq<char>,
)
    requires
        a != b,
    ensures
        text_after(front + seq![a] + x, front + seq![b] + y) == (a as u32 > b as u32),
        text_after(front + seq![a] + x, front),
        !text_after(front, front + x),
        !text_after(front, front),
    decreases front.len(),
{
    if front.len() == 0 {
        assert((front + seq![a] + x)[0] == a);
        assert((front + seq![b] + y)[0] == b);
    } else {
        let less = front.drop_first();
        law_texts_are_ordered_by_code_points(less, a, b, x, y);
        assert((front + seq![a] + x).drop_first() =~= less + seq![a] + x);
        assert((front + seq![b] + y).drop_first() =~= less + seq![b] + y);
        assert((front + x).drop_first() =~= less + x);
        assert((front + seq![a] + x)[0] == front[0]);
        assert((front + seq![b] + y)[0] == front[0]);
        if front.len() > 0 {
            assert((front + x)[0] == front[0]);
        }
    }
}

/// A number is written with the digits of base ten, without leading zeros, so that reading them
/// from the left gives it back.
pub proof fn law_numbers_are_written_in_base_ten(n: nat)
    ensures
        decimal(n).len() > 0,
        forall|i: int| 0 <= i < decimal(n).len() ==> '0' <= #[trigger] decimal(n)[i] <= '9',
        decimal(n).len() > 1 ==> decimal(n)[0] != '0',
        n < 10 ==> decimal(n).len() == 1 && decimal(n)[0] as u32 == 48 + n,
        n >= 10 ==> decimal(n).drop_last() == decimal(n / 10) && decimal(n).last() as u32 == 48 + n
            % 10,
        decimal_value(decimal(n)) == n,
    decreases n,
{
    if n >= 10 {
        law_numbers_are_written_in_base_ten(n / 10);
        let front = decimal(n / 10);
        assert(decimal(n).drop_last() =~= front);
        assert(decimal(n)[0] == front[0]);
        if front.len() == 1 {
            assert(n / 10 < 10) by {
                if n / 10 >= 10 {
                    assert(front.drop_last() == decimal(n / 10 / 10));
                    law_numbers_are_written_in_base_ten(n / 10 / 10);
                }
            }
        }
        assert forall|i: int| 0 <= i < decimal(n).len() implies '0' <= #[trigger] decimal(
            n,
        )[i] <= '9' by {
            if i < front.len() {
                assert(decimal(n)[i] == front[i]);
            }
        }
    } else {
        assert(decimal(n).drop_last() =~= Seq::<char>::empty());
        assert(decimal_value(Seq::<char>::empty()) == 0);
    }
}

/// The digits of a number are digits.
proof fn lemma_decimal_is_digits(n: nat)
    ensures
        all_digits(decimal(n)),
{
    law_numbers_are_written_in_base_ten(n);
    let digits = decimal(n);
    assert forall|i: int| 0 <= i < digits.len() implies is_digit(#[trigger] digits[i]) by {
        assert('0' <= decimal(n)[i] <= '9');
    }
}

/// A number of 64 bits that is written with its sign is read back.
pub proof fn law_signed_numbers_are_read_back(n: i64)
    ensures
        read_i64(signed_decimal(n as int)) == Some(n),
        n >= 0 ==> read_u64(decimal(n as nat)) == Some(n as u64),
{
    reveal_strlit("-");
    if n < 0 {
        let digits = decimal((-n) as nat);
        law_numbers_are_written_in_base_ten((-n) as nat);
        let text = "-"@ + digits;
        assert(text[0] == '-');
        assert(text.skip(1) =~= digits);
        lemma_decimal_is_digits((-n) as nat);
    } else {
        let digits = decimal(n as nat);
        law_numbers_are_written_in_base_ten(n as nat);
        lemma_decimal_is_digits(n as nat);
        assert(is_digit(digits[0]));
    }
}

/// Only digits, with at most one sign in front, are read as a number, and each digit counts ten
/// times what it would one place to its right.
pub proof fn law_numbers_are_read_digit_by_digit(s: Seq<char>, last: char)
    ensures
        decimal_value(Seq::empty()) == 0,
        decimal_value(s.push(last)) == (decimal_value(s) * 10 + (last as u32 - 48)) as nat,
        read_u64(s) is Some ==> s.len() > 0 && forall|i: int|
            0 <= i < s.len() ==> '0' <= #[trigger] s[i] <= '9',
        read_i64(s) is Some ==> s.len() > 0 && forall|i: int|
            1 <= i < s.len() ==> '0' <= #[trigger] s[i] <= '9',
{
    assert(s.push(last).drop_last() =~= s);
    if read_i64(s) is Some {
        let signed = s[0] == '+' || s[0] == '-';
        assert forall|i: int| 1 <= i < s.len() implies '0' <= #[trigger] s[i] <= '9' by {
            if signed {
                assert(is_digit(s.skip(1)[i - 1]));
            } else {
                assert(is_digit(s[i]));
            }
        }
    }
    if read_u64(s) is Some {
        assert forall|i: int| 0 <= i < s.len() implies '0' <= #[trigger] s[i] <= '9' by {
            assert(is_digit(s[i]));
        }
    }
}

/// A text holds a part exactly where it is made of something, the part and something; it begins
/// with a part where nothing stands in front of it, and ends with it where nothing stands behind.
pub proof fn law_parts_stand_in_texts(a: Seq<char>, part: Seq<char>, b: Seq<char>, s: Seq<char>)
    ensures
        contains_text(a + part + b, part),
        starts_with_text(part + b, part),
        ends_with_text(a + part, part),
        contains_text(s, part) ==> exists|x: Seq<char>, y: Seq<char>| s == #[trigger] (x + part + y),
        starts_with_text(s, part) ==> exists|y: Seq<char>| s == #[trigger] (part + y),
        ends_with_text(s, part) ==> exists|x: Seq<char>| s == #[trigger] (x + part),
{
    let whole = a + part + b;
    assert(whole.subrange(a.len() as int, (a.len() + part.len()) as int) =~= part);
    assert(occurs_at(whole, part, a.len() as int));
    assert((part + b).subrange(0, part.len() as int) =~= part);
    assert((a + part).subrange(a.len() as int, (a.len() + part.len()) as int) =~= part);
    if contains_text(s, part) {
        let at = choose|at: int| occurs_at(s, part, at);
        assert(s =~= s.take(at) + part + s.skip(at + part.len()));
    }
    if starts_with_text(s, part) {
        assert(s =~= part + s.skip(part.len() as int));
    }
    if ends_with_text(s, part) {
        assert(s =~= s.take(s.len() - part.len()) + part);
    }
}

/// A line ends at a line feed, with or without a carriage return before it; what is left behind
/// the last line feed is a line of its own where it is not empty.
pub proof fn law_lines_end_at_line_feeds(line: Seq<char>, rest: Seq<char>)
    requires
        forall|i: int| 0 <= i < line.len() ==> #[trigger] line[i] != '\n',
    ensures
        lines(Seq::empty()).len() == 0,
        line.len() > 0 ==> lines(line) == seq![line],
        lines(line + seq!['\n'] + rest) == seq![
            if line.len() > 0 && line.last() == '\r' {
                line.drop_last()
            } else {
                line
            },
        ] + lines(rest),
{
    let class = only('\n');
    assert forall|i: int| 0 <= i < line.len() implies !class(#[trigger] line[i]) by {}
    lemma_run_len_is(line, class, line.len() as int);
    let whole = line + seq!['\n'] + rest;
    assert forall|i: int| 0 <= i < line.len() implies !class(#[trigger] whole[i]) by {
        assert(whole[i] == line[i]);
    }
    assert(whole[line.len() as int] == '\n');
    lemma_run_len_is(whole, class, line.len() as int);
    assert(whole.take(line.len() as int) =~= line);
    assert(whole.skip(line.len() as int + 1) =~= rest);
}

/// A text is cut at each separator, and nowhere else.
pub proof fn law_pieces_end_at_separators(piece: Seq<char>, separator: char, rest: Seq<char>)
    requires
        forall|i: int| 0 <= i < piece.len() ==> #[trigger] piece[i] != separator,
    ensures
        pieces(piece, separator) == seq![piece],
        pieces(piece + seq![separator] + rest, separator) == seq![piece] + pieces(rest, separator),
{
    let class = only(separator);
    assert forall|i: int| 0 <= i < piece.len() implies !class(#[trigger] piece[i]) by {}
    lemma_run_len_is(piece, class, piece.len() as int);
    let whole = piece + seq![separator] + rest;
    assert forall|i: int| 0 <= i < piece.len() implies !class(#[trigger] whole[i]) by {
        assert(whole[i] == piece[i]);
    }
    assert(whole[piece.len() as int] == separator);
    lemma_run_len_is(whole, class, piece.len() as int);
    assert(whole.take(piece.len() as int) =~= piece);
    assert(whole.skip(piece.len() as int + 1) =~= rest);
}

/// Each repetition of a suffix is taken off the end, until the text does not end with it.
pub proof fn law_suffixes_are_taken_off(s: Seq<char>, suffix: Seq<char>)
    requires
        suffix.len() > 0,
    ensures
        without_suffixes(s + suffix, suffix) == without_suffixes(s, suffix),
        !ends_with_text(s, suffix) ==> without_suffixes(s, suffix) == s,
{
    let whole = s + suffix;
    assert(whole.subrange(s.len() as int, whole.len() as int) =~= suffix);
    assert(whole.take(whole.len() - suffix.len()) =~= s);
}

/// One more character of the class at an end changes nothing of what is trimmed.
pub proof fn law_trimming_ignores_the_class_at_the_ends(
    s: Seq<char>,
    c: char,
    class: spec_fn(char) -> bool,
)
    requires
        class(c),
    ensures
        trimmed_of(seq![c] + s, class) == trimmed_of(s, class),
        trimmed_of(s.push(c), class) == trimmed_of(s, class),
{
    assert((seq![c] + s).drop_first() =~= s);
    assert((seq![c] + s)[0] == c);
    lemma_drop_front_push(s, c, class);
    let rest = drop_front(s, class);
    if rest.len() > 0 {
        assert(rest.push(c).drop_last() =~= rest);
    }
}

/// One more character of the class at the end, and what is dropped in front.
proof fn lemma_drop_front_push(s: Seq<char>, c: char, class: spec_fn(char) -> bool)
    requires
        class(c),
    ensures
        drop_front(s.push(c), class) == if drop_front(s, class).len() == 0 {
            Seq::empty()
        } else {
            drop_front(s, class).push(c)
        },
    decreases s.len(),
{
    let more = s.push(c);
    if s.len() == 0 {
        assert(more.drop_first() =~= Seq::empty());
        assert(drop_front(Seq::<char>::empty(), class) =~= Seq::empty());
        assert(more[0] == c);
    } else {
        assert(more[0] == s[0]);
        if class(s[0]) {
            lemma_drop_front_push(s.drop_first(), c, class);
            assert(more.drop_first() =~= s.drop_first().push(c));
        }
    }
}

} // verus!

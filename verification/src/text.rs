//! Helpers for text: views of optional and listed strings, copies that
//! keep them, and searching and trimming by characters.

use vstd::prelude::*;

verus! {

/// The characters of an optional string.
pub open spec fn opt_text(o: Option<String>) -> Option<Seq<char>> {
    match o {
        Some(s) => Some(s@),
        None => None,
    }
}

/// The characters of each string of a list.
pub open spec fn texts(items: Seq<String>) -> Seq<Seq<char>> {
    Seq::new(items.len(), |i: int| items[i]@)
}

/// A copy of an optional string.
pub fn clone_opt_text(o: &Option<String>) -> (copy: Option<String>)
    ensures
        opt_text(copy) == opt_text(*o),
{
    match o {
        Some(s) => Some(s.clone()),
        None => None,
    }
}

/// A copy of a list of strings.
pub fn clone_texts(items: &Vec<String>) -> (copy: Vec<String>)
    ensures
        texts(copy@) == texts(items@),
{
    let mut copy: Vec<String> = Vec::new();
    let mut i: usize = 0;
    while i < items.len()
        invariant
            i <= items.len(),
            copy.len() == i,
            forall|j: int| 0 <= j < i ==> copy[j]@ == items[j]@,
        decreases items.len() - i,
    {
        copy.push(items[i].clone());
        i = i + 1;
    }
    assert(texts(copy@) =~= texts(items@));
    copy
}

/// The characters of a string, one by one.
pub fn to_chars(s: &str) -> (chars: Vec<char>)
    ensures
        chars@ == s@,
{
    let mut chars: Vec<char> = Vec::new();
    for c in it: s.chars()
        invariant
            chars@ == it.seq().take(it.index() as int),
            it.seq() == s@,
    {
        chars.push(c);
    }
    chars
}

/// A text in lower case, as Unicode defines it.
pub uninterp spec fn lowercased(text: Seq<char>) -> Seq<char>;

/// Whether a character is white space: one of the characters to which
/// Unicode gives the property `White_Space`.
pub open spec fn is_white_space(c: char) -> bool {
    let n = c as u32;
    ||| 0x0009 <= n <= 0x000D
    ||| n == 0x0020
    ||| n == 0x0085
    ||| n == 0x00A0
    ||| n == 0x1680
    ||| 0x2000 <= n <= 0x200A
    ||| n == 0x2028
    ||| n == 0x2029
    ||| n == 0x202F
    ||| n == 0x205F
    ||| n == 0x3000
}

/// Calls `str::to_lowercase`. Trusted: the result is a function of the
/// text alone.
#[verifier::external_body]
pub(crate) fn lowercase(text: &str) -> (lower: String)
    ensures
        lower@ == lowercased(text@),
{
    text.to_lowercase()
}

/// Calls `char::is_whitespace`. Trusted: it accepts the characters with
/// the Unicode property `White_Space`, which [`is_white_space`] lists.
#[verifier::external_body]
pub(crate) fn white_space(c: char) -> (yes: bool)
    ensures
        yes == is_white_space(c),
{
    c.is_whitespace()
}

/// Whether two texts are equal but for the case of their letters.
pub open spec fn same_ignoring_case(a: Seq<char>, b: Seq<char>) -> bool {
    lowercased(a) == lowercased(b)
}

/// Whether two texts are equal but for the case of their letters.
pub fn eq_ignoring_case(a: &str, b: &str) -> (same: bool)
    ensures
        same == same_ignoring_case(a@, b@),
{
    lowercase(a) == lowercase(b)
}

/// Whether `part` stands in `text` at the place `at`.
pub open spec fn occurs_at(text: Seq<char>, part: Seq<char>, at: int) -> bool {
    0 <= at && at + part.len() <= text.len() && text.subrange(at, at + part.len()) == part
}

/// Whether `part` stands somewhere in `text`.
pub open spec fn occurs_in(text: Seq<char>, part: Seq<char>) -> bool {
    exists|at: int| occurs_at(text, part, at)
}

/// Whether `text` ends with `part`.
pub open spec fn finishes_with(text: Seq<char>, part: Seq<char>) -> bool {
    occurs_at(text, part, text.len() - part.len())
}

/// Whether `part` stands in `text` at the place `at`.
pub fn matches_at(text: &Vec<char>, part: &Vec<char>, at: usize) -> (yes: bool)
    ensures
        yes == occurs_at(text@, part@, at as int),
{
    if part.len() > text.len() || at > text.len() - part.len() {
        return false;
    }
    let mut i: usize = 0;
    while i < part.len()
        invariant
            i <= part.len(),
            at + part.len() <= text.len(),
            forall|j: int| 0 <= j < i ==> text@[at + j] == part@[j],
        decreases part.len() - i,
    {
        if text[at + i] != part[i] {
            proof {
                assert(text@.subrange(at as int, at + part.len())[i as int] == text@[at + i]);
            }
            return false;
        }
        i = i + 1;
    }
    assert(text@.subrange(at as int, at + part.len()) =~= part@);
    true
}

/// Whether `part` stands somewhere in `text`.
pub fn contains_chars(text: &Vec<char>, part: &Vec<char>) -> (yes: bool)
    ensures
        yes == occurs_in(text@, part@),
{
    if part.len() > text.len() {
        return false;
    }
    let last: usize = text.len() - part.len();
    let mut at: usize = 0;
    while at < last
        invariant
            at <= last,
            last == text.len() - part.len(),
            forall|k: int| 0 <= k < at ==> !occurs_at(text@, part@, k),
        decreases last - at,
    {
        if matches_at(text, part, at) {
            return true;
        }
        at = at + 1;
    }
    matches_at(text, part, last)
}

/// Whether `part` stands somewhere in `text`.
pub fn contains_text(text: &str, part: &str) -> (yes: bool)
    ensures
        yes == occurs_in(text@, part@),
{
    let text_chars = to_chars(text);
    let part_chars = to_chars(part);
    contains_chars(&text_chars, &part_chars)
}

/// Whether `text` ends with `part`.
pub fn ends_with_text(text: &str, part: &str) -> (yes: bool)
    ensures
        yes == finishes_with(text@, part@),
{
    let text_chars = to_chars(text);
    let part_chars = to_chars(part);
    if part_chars.len() > text_chars.len() {
        return false;
    }
    matches_at(&text_chars, &part_chars, text_chars.len() - part_chars.len())
}

/// The place of the first `c` in `text`, or the length of `text` if
/// there is none.
pub open spec fn first_place(text: Seq<char>, c: char) -> int
    decreases text.len(),
{
    if text.len() == 0 || text[0] == c {
        0
    } else {
        1 + first_place(text.drop_first(), c)
    }
}

/// One past the place of the last `c` in `text`, or `0` if there is
/// none.
pub open spec fn past_last_place(text: Seq<char>, c: char) -> int
    decreases text.len(),
{
    if text.len() == 0 || text.last() == c {
        text.len() as int
    } else {
        past_last_place(text.drop_last(), c)
    }
}

/// The first place of a character comes after other characters only.
pub proof fn lemma_first_place(text: Seq<char>, c: char)
    ensures
        0 <= first_place(text, c) <= text.len(),
        first_place(text, c) < text.len() ==> text[first_place(text, c)] == c,
        forall|i: int| 0 <= i < first_place(text, c) ==> text[i] != c,
    decreases text.len(),
{
    if text.len() > 0 && text[0] != c {
        let rest = text.drop_first();
        lemma_first_place(rest, c);
        assert forall|i: int| 0 <= i < first_place(text, c) implies text[i] != c by {
            if i > 0 {
                assert(text[i] == rest[i - 1]);
            }
        }
    }
}

/// The last place of a character comes before other characters only.
pub proof fn lemma_past_last_place(text: Seq<char>, c: char)
    ensures
        0 <= past_last_place(text, c) <= text.len(),
        past_last_place(text, c) > 0 ==> text[past_last_place(text, c) - 1] == c,
        forall|i: int| past_last_place(text, c) <= i < text.len() ==> text[i] != c,
    decreases text.len(),
{
    if text.len() > 0 && text.last() != c {
        let rest = text.drop_last();
        lemma_past_last_place(rest, c);
        assert forall|i: int| past_last_place(text, c) <= i < text.len() implies text[i] != c by {
            if i < rest.len() {
                assert(text[i] == rest[i]);
            }
        }
    }
}

/// A place that comes after other characters only, and holds `c` or is
/// the end, is the first place of `c`.
pub proof fn lemma_is_first_place(text: Seq<char>, c: char, at: int)
    requires
        0 <= at <= text.len(),
        forall|i: int| 0 <= i < at ==> text[i] != c,
        at < text.len() ==> text[at] == c,
    ensures
        first_place(text, c) == at,
    decreases text.len(),
{
    if text.len() > 0 && at > 0 {
        let rest = text.drop_first();
        assert(text[0] != c);
        assert forall|i: int| 0 <= i < at - 1 implies rest[i] != c by {
            assert(rest[i] == text[i + 1]);
        }
        lemma_is_first_place(rest, c, at - 1);
    }
}

/// A place that comes before other characters only, and follows `c` or
/// is the start, is one past the last place of `c`.
pub proof fn lemma_is_past_last_place(text: Seq<char>, c: char, at: int)
    requires
        0 <= at <= text.len(),
        forall|i: int| at <= i < text.len() ==> text[i] != c,
        at > 0 ==> text[at - 1] == c,
    ensures
        past_last_place(text, c) == at,
    decreases text.len(),
{
    if text.len() > 0 && at < text.len() {
        let rest = text.drop_last();
        assert(text.last() != c);
        assert forall|i: int| at <= i < rest.len() implies rest[i] != c by {
            assert(rest[i] == text[i]);
        }
        lemma_is_past_last_place(rest, c, at);
    }
}

/// The place of the first `c` in `text`, or the length of `text`.
pub fn find_char(text: &Vec<char>, c: char) -> (at: usize)
    ensures
        at == first_place(text@, c),
{
    let mut i: usize = 0;
    while i < text.len() && text[i] != c
        invariant
            i <= text.len(),
            forall|j: int| 0 <= j < i ==> text@[j] != c,
        decreases text.len() - i,
    {
        i = i + 1;
    }
    proof {
        lemma_is_first_place(text@, c, i as int);
    }
    i
}

/// One past the place of the last `c` in `text`, or `0`.
pub fn rfind_char(text: &Vec<char>, c: char) -> (at: usize)
    ensures
        at == past_last_place(text@, c),
{
    let mut i: usize = text.len();
    while i > 0 && text[i - 1] != c
        invariant
            i <= text.len(),
            forall|j: int| i <= j < text.len() ==> text@[j] != c,
        decreases i,
    {
        i = i - 1;
    }
    proof {
        lemma_is_past_last_place(text@, c, i as int);
    }
    i
}

/// The number of characters at the start of `text` that are white space.
pub open spec fn leading_space(text: Seq<char>) -> int
    decreases text.len(),
{
    if text.len() == 0 || !is_white_space(text[0]) {
        0
    } else {
        1 + leading_space(text.drop_first())
    }
}

/// The number of characters at the end of `text` that are white space.
pub open spec fn trailing_space(text: Seq<char>) -> int
    decreases text.len(),
{
    if text.len() == 0 || !is_white_space(text.last()) {
        0
    } else {
        1 + trailing_space(text.drop_last())
    }
}

/// A text without the white space at its start and at its end.
pub open spec fn trimmed(text: Seq<char>) -> Seq<char> {
    let start = leading_space(text);
    let rest = text.subrange(start, text.len() as int);
    rest.subrange(0, rest.len() - trailing_space(rest))
}

/// The white space at the start of a text ends at another character
/// or at the end of the text.
pub proof fn lemma_leading_space(text: Seq<char>)
    ensures
        0 <= leading_space(text) <= text.len(),
        leading_space(text) < text.len() ==> !is_white_space(text[leading_space(text)]),
    decreases text.len(),
{
    if text.len() > 0 && is_white_space(text[0]) {
        lemma_leading_space(text.drop_first());
    }
}

/// The white space at the end of a text begins after another character
/// or at the start of the text.
pub proof fn lemma_trailing_space(text: Seq<char>)
    ensures
        0 <= trailing_space(text) <= text.len(),
        trailing_space(text) < text.len() ==> !is_white_space(
            text[text.len() - trailing_space(text) - 1],
        ),
    decreases text.len(),
{
    if text.len() > 0 && is_white_space(text.last()) {
        lemma_trailing_space(text.drop_last());
    }
}

/// A trimmed text is a part of the text, and neither begins nor ends
/// with white space.
pub proof fn lemma_trimmed(text: Seq<char>)
    ensures
        trimmed(text).len() <= text.len(),
        trimmed(text).len() > 0 ==> !is_white_space(trimmed(text)[0]) && !is_white_space(
            trimmed(text).last(),
        ),
        exists|from: int, to: int|
            0 <= from <= to <= text.len() && trimmed(text) == #[trigger] text.subrange(from, to),
{
    lemma_leading_space(text);
    let start = leading_space(text);
    let rest = text.subrange(start, text.len() as int);
    lemma_trailing_space(rest);
    let kept = rest.len() - trailing_space(rest);
    assert(trimmed(text) =~= text.subrange(start, start + kept));
    if kept > 0 {
        assert(rest[0] == text[start]);
        assert(trimmed(text)[0] == rest[0]);
        assert(trimmed(text).last() == rest[kept - 1]);
    }
}

/// A place before which all is white space, and which holds another
/// character or is the end, is where the leading white space ends.
proof fn lemma_is_leading_space(text: Seq<char>, at: int)
    requires
        0 <= at <= text.len(),
        forall|i: int| 0 <= i < at ==> is_white_space(#[trigger] text[i]),
        at < text.len() ==> !is_white_space(text[at]),
    ensures
        leading_space(text) == at,
    decreases text.len(),
{
    if text.len() > 0 && at > 0 {
        let rest = text.drop_first();
        assert(is_white_space(text[0]));
        assert forall|i: int| 0 <= i < at - 1 implies is_white_space(#[trigger] rest[i]) by {
            assert(rest[i] == text[i + 1]);
        }
        lemma_is_leading_space(rest, at - 1);
    }
}

/// A place after which all is white space, and which follows another
/// character or is the start, is where the trailing white space begins.
proof fn lemma_is_trailing_space(text: Seq<char>, at: int)
    requires
        0 <= at <= text.len(),
        forall|i: int| at <= i < text.len() ==> is_white_space(#[trigger] text[i]),
        at > 0 ==> !is_white_space(text[at - 1]),
    ensures
        trailing_space(text) == text.len() - at,
    decreases text.len(),
{
    if text.len() > 0 && at < text.len() {
        let rest = text.drop_last();
        assert(is_white_space(text[text.len() - 1]));
        assert forall|i: int| at <= i < rest.len() implies is_white_space(#[trigger] rest[i]) by {
            assert(rest[i] == text[i]);
        }
        lemma_is_trailing_space(rest, at);
    }
}

/// The part of `text` between `from` and `to` that is left when the white
/// space at its start and at its end is taken away: its bounds.
pub fn trim_bounds(text: &Vec<char>, from: usize, to: usize) -> (bounds: (usize, usize))
    requires
        from <= to <= text.len(),
    ensures
        from <= bounds.0 <= bounds.1 <= to,
        text@.subrange(bounds.0 as int, bounds.1 as int) == trimmed(
            text@.subrange(from as int, to as int),
        ),
{
    let ghost part = text@.subrange(from as int, to as int);
    let mut start: usize = from;
    while start < to && white_space(text[start])
        invariant
            from <= start <= to <= text.len(),
            forall|j: int| from <= j < start ==> is_white_space(#[trigger] text@[j]),
        decreases to - start,
    {
        start = start + 1;
    }
    let mut end: usize = to;
    while end > start && white_space(text[end - 1])
        invariant
            start <= end <= to <= text.len(),
            forall|j: int| end <= j < to ==> is_white_space(#[trigger] text@[j]),
        decreases end,
    {
        end = end - 1;
    }
    proof {
        assert forall|i: int| 0 <= i < start - from implies is_white_space(#[trigger] part[i]) by {
            assert(part[i] == text@[from + i]);
        }
        lemma_is_leading_space(part, start - from);
        let rest = part.subrange(start - from, part.len() as int);
        assert(rest =~= text@.subrange(start as int, to as int));
        assert forall|i: int| end - start <= i < rest.len() implies is_white_space(
            #[trigger] rest[i],
        ) by {
            assert(rest[i] == text@[start + i]);
        }
        if end > start {
            assert(rest[end - start - 1] == text@[end - 1]);
        }
        lemma_is_trailing_space(rest, end - start);
        assert(rest.subrange(0, rest.len() - trailing_space(rest)) =~= text@.subrange(
            start as int,
            end as int,
        ));
    }
    (start, end)
}

/// The number of `c` that `text` ends with.
pub open spec fn trailing_run(text: Seq<char>, c: char) -> int
    decreases text.len(),
{
    if text.len() == 0 || text.last() != c {
        0
    } else {
        1 + trailing_run(text.drop_last(), c)
    }
}

/// A text without the run of `c` that it ends with.
pub open spec fn without_trailing(text: Seq<char>, c: char) -> Seq<char> {
    text.subrange(0, text.len() - trailing_run(text, c))
}

/// A place after which all is `c`, and which follows another character
/// or is the start, is where the trailing run of `c` begins.
proof fn lemma_is_trailing_run(text: Seq<char>, c: char, at: int)
    requires
        0 <= at <= text.len(),
        forall|i: int| at <= i < text.len() ==> text[i] == c,
        at > 0 ==> text[at - 1] != c,
    ensures
        trailing_run(text, c) == text.len() - at,
    decreases text.len(),
{
    if text.len() > 0 && at < text.len() {
        let rest = text.drop_last();
        assert(text[text.len() - 1] == c);
        assert forall|i: int| at <= i < rest.len() implies rest[i] == c by {
            assert(rest[i] == text[i]);
        }
        lemma_is_trailing_run(rest, c, at);
    }
}

/// The length of `text` without the run of `c` that it ends with.
pub fn len_without_trailing(text: &Vec<char>, c: char) -> (len: usize)
    ensures
        len == text@.len() - trailing_run(text@, c),
        len <= text@.len(),
{
    let mut end: usize = text.len();
    while end > 0 && text[end - 1] == c
        invariant
            end <= text.len(),
            forall|j: int| end <= j < text.len() ==> text@[j] == c,
        decreases end,
    {
        end = end - 1;
    }
    proof {
        lemma_is_trailing_run(text@, c, end as int);
    }
    end
}

/// Collects characters into a `String` with `String::from_iter`.
/// Trusted: the string holds the characters, in their order.
#[verifier::external_body]
pub(crate) fn from_chars(chars: &Vec<char>) -> (text: String)
    ensures
        text@ == chars@,
{
    String::from_iter(chars.iter())
}

/// The characters of `text` from `from` up to `to`.
pub fn sub_chars(text: &Vec<char>, from: usize, to: usize) -> (part: Vec<char>)
    requires
        from <= to <= text.len(),
    ensures
        part@ == text@.subrange(from as int, to as int),
{
    let mut part: Vec<char> = Vec::new();
    let mut i: usize = from;
    while i < to
        invariant
            from <= i <= to <= text.len(),
            part@ == text@.subrange(from as int, i as int),
        decreases to - i,
    {
        part.push(text[i]);
        i = i + 1;
    }
    part
}

/// The characters of `first` followed by those of `second`.
pub fn join_chars(first: &Vec<char>, second: &Vec<char>) -> (both: Vec<char>)
    ensures
        both@ == first@ + second@,
{
    let mut both: Vec<char> = Vec::new();
    let mut i: usize = 0;
    while i < first.len()
        invariant
            i <= first.len(),
            both@ == first@.subrange(0, i as int),
        decreases first.len() - i,
    {
        both.push(first[i]);
        i = i + 1;
    }
    assert(first@.subrange(0, first.len() as int) == first@);
    let mut j: usize = 0;
    while j < second.len()
        invariant
            j <= second.len(),
            both@ == first@ + second@.subrange(0, j as int),
        decreases second.len() - j,
    {
        both.push(second[j]);
        j = j + 1;
    }
    assert(second@.subrange(0, second.len() as int) == second@);
    both
}

/// A text without the white space at its start and at its end.
pub fn trim_chars(text: &Vec<char>) -> (part: Vec<char>)
    ensures
        part@ == trimmed(text@),
{
    let bounds = trim_bounds(text, 0, text.len());
    assert(text@.subrange(0, text.len() as int) == text@);
    sub_chars(text, bounds.0, bounds.1)
}

/// A text without every `part` that it begins with, one after the other.
pub open spec fn without_leading(text: Seq<char>, part: Seq<char>) -> Seq<char>
    decreases text.len(),
{
    if part.len() > 0 && occurs_at(text, part, 0) {
        without_leading(text.subrange(part.len() as int, text.len() as int), part)
    } else {
        text
    }
}

/// A text without every `part` that it ends with, one after the other.
pub open spec fn without_closing(text: Seq<char>, part: Seq<char>) -> Seq<char>
    decreases text.len(),
{
    if part.len() > 0 && occurs_at(text, part, text.len() - part.len()) {
        without_closing(text.subrange(0, text.len() - part.len()), part)
    } else {
        text
    }
}

/// A text without the parts that it begins with is no longer than the
/// text.
pub proof fn lemma_without_leading(text: Seq<char>, part: Seq<char>)
    ensures
        without_leading(text, part).len() <= text.len(),
    decreases text.len(),
{
    if part.len() > 0 && occurs_at(text, part, 0) {
        lemma_without_leading(text.subrange(part.len() as int, text.len() as int), part);
    }
}

/// A text without the parts that it ends with is no longer than the
/// text.
pub proof fn lemma_without_closing(text: Seq<char>, part: Seq<char>)
    ensures
        without_closing(text, part).len() <= text.len(),
    decreases text.len(),
{
    if part.len() > 0 && occurs_at(text, part, text.len() - part.len()) {
        lemma_without_closing(text.subrange(0, text.len() - part.len()), part);
    }
}

/// A text without every `part` that it begins with.
pub fn strip_leading(text: &Vec<char>, part: &Vec<char>) -> (rest: Vec<char>)
    ensures
        rest@ == without_leading(text@, part@),
{
    if part.len() == 0 {
        assert(text@.subrange(0, text.len() as int) == text@);
        return sub_chars(text, 0, text.len());
    }
    let mut from: usize = 0;
    assert(text@.subrange(0, text.len() as int) == text@);
    while matches_at(text, part, from)
        invariant
            from <= text.len(),
            part.len() > 0,
            without_leading(text@, part@) == without_leading(
                text@.subrange(from as int, text.len() as int),
                part@,
            ),
        decreases text.len() - from,
    {
        proof {
            let here = text@.subrange(from as int, text.len() as int);
            assert(here.subrange(0, part.len() as int) == text@.subrange(
                from as int,
                from + part.len(),
            ));
            assert(occurs_at(here, part@, 0));
            assert(here.subrange(part.len() as int, here.len() as int) == text@.subrange(
                from + part.len(),
                text.len() as int,
            ));
        }
        from = from + part.len();
    }
    proof {
        let here = text@.subrange(from as int, text.len() as int);
        if occurs_at(here, part@, 0) {
            assert(here.subrange(0, part.len() as int) == text@.subrange(
                from as int,
                from + part.len(),
            ));
            assert(false);
        }
    }
    sub_chars(text, from, text.len())
}

/// A text without every `part` that it ends with.
pub fn strip_closing(text: &Vec<char>, part: &Vec<char>) -> (rest: Vec<char>)
    ensures
        rest@ == without_closing(text@, part@),
{
    if part.len() == 0 {
        assert(text@.subrange(0, text.len() as int) == text@);
        return sub_chars(text, 0, text.len());
    }
    let mut to: usize = text.len();
    assert(text@.subrange(0, text.len() as int) == text@);
    while to >= part.len() && matches_at(text, part, to - part.len())
        invariant
            to <= text.len(),
            part.len() > 0,
            without_closing(text@, part@) == without_closing(text@.subrange(0, to as int), part@),
        decreases to,
    {
        proof {
            let here = text@.subrange(0, to as int);
            assert(here.subrange(to - part.len(), to as int) == text@.subrange(
                to - part.len(),
                to as int,
            ));
            assert(occurs_at(here, part@, here.len() - part.len()));
            assert(here.subrange(0, here.len() - part.len()) == text@.subrange(
                0,
                to - part.len(),
            ));
        }
        to = to - part.len();
    }
    proof {
        let here = text@.subrange(0, to as int);
        if occurs_at(here, part@, here.len() - part.len()) {
            assert(here.subrange(to - part.len(), to as int) == text@.subrange(
                to - part.len(),
                to as int,
            ));
            assert(false);
        }
    }
    sub_chars(text, 0, to)
}


} // verus!

//! Templates: texts with two kinds of marks, `{Name}` and `{name}`, and
//! their expansion for a feature.

use crate::text::chars_of;
use vstd::prelude::*;
use vstd::string::*;

verus! {

/// The mark that stands for the title of the feature, `{Name}`.
pub open spec fn title_mark() -> Seq<char> {
    seq!['{', 'N', 'a', 'm', 'e', '}']
}

/// The mark that stands for the lower-case form of the feature, `{name}`.
pub open spec fn lower_mark() -> Seq<char> {
    seq!['{', 'n', 'a', 'm', 'e', '}']
}

/// The template with `title` in place of every `{Name}` and `lower` in place
/// of every `{name}`, read from left to right; all other characters are kept.
pub open spec fn expand(template: Seq<char>, title: Seq<char>, lower: Seq<char>) -> Seq<char>
    decreases template.len(),
{
    if template.len() == 0 {
        Seq::empty()
    } else if title_mark().is_prefix_of(template) {
        title + expand(template.skip(6), title, lower)
    } else if lower_mark().is_prefix_of(template) {
        lower + expand(template.skip(6), title, lower)
    } else {
        seq![template[0]] + expand(template.skip(1), title, lower)
    }
}

/// Whether the characters from `at` on start with `{`, `second`, `ame}`.
fn mark_at(chars: &Vec<char>, at: usize, second: char) -> (found: bool)
    requires
        at <= chars@.len(),
    ensures
        found == seq!['{', second, 'a', 'm', 'e', '}'].is_prefix_of(chars@.skip(at as int)),
{
    let ghost mark = seq!['{', second, 'a', 'm', 'e', '}'];
    let ghost rest = chars@.skip(at as int);
    if chars.len() - at < 6 {
        return false;
    }
    let found = chars[at] == '{' && chars[at + 1] == second && chars[at + 2] == 'a' && chars[at
        + 3] == 'm' && chars[at + 4] == 'e' && chars[at + 5] == '}';
    proof {
        if found {
            assert(rest.subrange(0, 6) =~= mark);
        } else {
            if mark.is_prefix_of(rest) {
                assert(rest.subrange(0, 6) == mark);
                assert(rest.subrange(0, 6)[0] == mark[0]);
                assert(rest.subrange(0, 6)[1] == mark[1]);
                assert(rest.subrange(0, 6)[2] == mark[2]);
                assert(rest.subrange(0, 6)[3] == mark[3]);
                assert(rest.subrange(0, 6)[4] == mark[4]);
                assert(rest.subrange(0, 6)[5] == mark[5]);
            }
        }
    }
    found
}

/// The template with `title` in place of every `{Name}` and `lower` in place
/// of every `{name}`.
pub fn render(template: &str, title: &str, lower: &str) -> (text: String)
    ensures
        text@ == expand(template@, title@, lower@),
{
    let chars = chars_of(template);
    let n: usize = chars.len();
    let mut text = String::new();
    let mut i: usize = 0;
    proof {
        assert(template@.skip(0) =~= template@);
        assert(text@ + expand(template@, title@, lower@) =~= expand(template@, title@, lower@));
    }
    while i < n
        invariant
            i <= n == chars@.len(),
            chars@ == template@,
            expand(template@, title@, lower@) == text@ + expand(
                template@.skip(i as int),
                title@,
                lower@,
            ),
        decreases n - i,
    {
        let ghost rest = template@.skip(i as int);
        let ghost before = text@;
        if mark_at(&chars, i, 'N') {
            text.append(title);
            proof {
                assert(rest.skip(6) =~= template@.skip(i + 6));
                let tail = expand(rest.skip(6), title@, lower@);
                assert(before + (title@ + tail) =~= (before + title@) + tail);
            }
            i += 6;
        } else if mark_at(&chars, i, 'n') {
            text.append(lower);
            proof {
                assert(rest.skip(6) =~= template@.skip(i + 6));
                let tail = expand(rest.skip(6), title@, lower@);
                assert(before + (lower@ + tail) =~= (before + lower@) + tail);
            }
            i += 6;
        } else {
            text.push(chars[i]);
            proof {
                assert(rest.skip(1) =~= template@.skip(i + 1));
                let tail = expand(rest.skip(1), title@, lower@);
                assert(before + (seq![rest[0]] + tail) =~= before.push(rest[0]) + tail);
            }
            i += 1;
        }
    }
    proof {
        assert(text@ + Seq::<char>::empty() =~= text@);
    }
    text
}

/// One of the two marks starts at `at`.
pub open spec fn mark_starts(template: Seq<char>, at: int) -> bool {
    0 <= at <= template.len() && (title_mark().is_prefix_of(template.skip(at))
        || lower_mark().is_prefix_of(template.skip(at)))
}

/// The characters of a mark, seen from the template that holds it at `at`.
proof fn lemma_mark_chars(template: Seq<char>, at: int)
    requires
        mark_starts(template, at),
    ensures
        at + 6 <= template.len(),
        template[at] == '{',
        template[at + 1] != '{',
        template[at + 2] != '{',
        template[at + 3] != '{',
        template[at + 4] != '{',
        template[at + 5] != '{',
{
    let rest = template.skip(at);
    let head = rest.subrange(0, 6);
    assert(head[0] == rest[0] && head[1] == rest[1] && head[2] == rest[2] && head[3] == rest[3]
        && head[4] == rest[4] && head[5] == rest[5]);
    if title_mark().is_prefix_of(rest) {
        assert(head == title_mark());
    } else {
        assert(head == lower_mark());
    }
}

/// A text without a mark is its own expansion.
pub proof fn lemma_expand_plain(template: Seq<char>, title: Seq<char>, lower: Seq<char>)
    requires
        forall|at: int| 0 <= at < template.len() ==> !mark_starts(template, at),
    ensures
        expand(template, title, lower) == template,
    decreases template.len(),
{
    if template.len() > 0 {
        let rest = template.skip(1);
        assert(template.skip(0) =~= template);
        assert(!mark_starts(template, 0));
        assert forall|at: int| 0 <= at < rest.len() implies !mark_starts(rest, at) by {
            assert(rest.skip(at) =~= template.skip(at + 1));
            assert(!mark_starts(template, at + 1));
        }
        lemma_expand_plain(rest, title, lower);
        assert(seq![template[0]] + rest =~= template);
    }
}

/// The expansion can be cut wherever no mark is cut in two: the expansion
/// of the whole is that of what stands before the cut, then that of what
/// stands after it.
pub proof fn lemma_expand_split(
    template: Seq<char>,
    at: int,
    title: Seq<char>,
    lower: Seq<char>,
)
    requires
        0 <= at <= template.len(),
        forall|start: int| at - 6 < start < at ==> !mark_starts(template, start),
    ensures
        expand(template, title, lower) == expand(template.take(at), title, lower) + expand(
            template.skip(at),
            title,
            lower,
        ),
    decreases template.len(),
{
    let before = template.take(at);
    let after = template.skip(at);
    assert(template.skip(0) =~= template);
    assert(before.skip(0) =~= before);
    if at == 0 {
        assert(before =~= Seq::<char>::empty());
        assert(after =~= template);
        assert(Seq::<char>::empty() + expand(template, title, lower) =~= expand(
            template,
            title,
            lower,
        ));
    } else if mark_starts(template, 0) {
        lemma_mark_chars(template, 0);
        assert(at >= 6);
        let rest = template.skip(6);
        assert(before.subrange(0, 6) =~= template.subrange(0, 6));
        assert forall|start: int| at - 6 - 6 < start < at - 6 implies !mark_starts(
            rest,
            start,
        ) by {
            if 0 <= start {
                assert(rest.skip(start) =~= template.skip(start + 6));
                assert(!mark_starts(template, start + 6));
            }
        }
        lemma_expand_split(rest, at - 6, title, lower);
        assert(before.skip(6) =~= rest.take(at - 6));
        assert(rest.skip(at - 6) =~= after);
        let head = if title_mark().is_prefix_of(template) {
            title
        } else {
            lower
        };
        let middle = expand(rest.take(at - 6), title, lower);
        let tail = expand(after, title, lower);
        assert(expand(template, title, lower) == head + (middle + tail));
        assert(expand(before, title, lower) == head + middle);
        assert(head + (middle + tail) =~= (head + middle) + tail);
    } else {
        let rest = template.skip(1);
        assert(!mark_starts(before, 0)) by {
            if mark_starts(before, 0) {
                lemma_mark_chars(before, 0);
                assert(before.subrange(0, 6) =~= template.subrange(0, 6));
            }
        }
        assert forall|start: int| at - 1 - 6 < start < at - 1 implies !mark_starts(
            rest,
            start,
        ) by {
            if 0 <= start {
                assert(rest.skip(start) =~= template.skip(start + 1));
                assert(!mark_starts(template, start + 1));
            }
        }
        lemma_expand_split(rest, at - 1, title, lower);
        assert(before.skip(1) =~= rest.take(at - 1));
        assert(rest.skip(at - 1) =~= after);
        let head = seq![template[0]];
        let middle = expand(rest.take(at - 1), title, lower);
        let tail = expand(after, title, lower);
        assert(before[0] == template[0]);
        assert(head + (middle + tail) =~= (head + middle) + tail);
    }
}

/// No mark starts inside another: a template can always be cut in front of
/// a mark.
pub proof fn lemma_marks_do_not_overlap(template: Seq<char>, at: int)
    requires
        mark_starts(template, at),
    ensures
        forall|start: int| at - 6 < start < at ==> !mark_starts(template, start),
{
    lemma_mark_chars(template, at);
    assert forall|start: int| at - 6 < start < at implies !mark_starts(template, start) by {
        if mark_starts(template, start) {
            lemma_mark_chars(template, start);
        }
    }
}

/// Every `{Name}` of a template is replaced by the title, and every `{name}`
/// by the lower-case form: where the template holds the mark, the text
/// holds the form, between the expansion of what stands before the mark and
/// that of what stands after it.
pub proof fn lemma_mark_is_replaced(
    template: Seq<char>,
    at: int,
    title: Seq<char>,
    lower: Seq<char>,
)
    requires
        mark_starts(template, at),
    ensures
        at + 6 <= template.len(),
        title_mark().is_prefix_of(template.skip(at)) ==> expand(template, title, lower) == expand(
            template.take(at),
            title,
            lower,
        ) + title + expand(template.skip(at + 6), title, lower),
        lower_mark().is_prefix_of(template.skip(at)) ==> expand(template, title, lower) == expand(
            template.take(at),
            title,
            lower,
        ) + lower + expand(template.skip(at + 6), title, lower),
{
    lemma_mark_chars(template, at);
    lemma_marks_do_not_overlap(template, at);
    lemma_expand_split(template, at, title, lower);
    let rest = template.skip(at);
    assert(rest.skip(6) =~= template.skip(at + 6));
    assert(!(title_mark().is_prefix_of(rest) && lower_mark().is_prefix_of(rest))) by {
        if title_mark().is_prefix_of(rest) && lower_mark().is_prefix_of(rest) {
            assert(rest.subrange(0, 6)[1] == 'N');
            assert(rest.subrange(0, 6)[1] == 'n');
        }
    }
    let before = expand(template.take(at), title, lower);
    let after = expand(template.skip(at + 6), title, lower);
    assert(before + (title + after) =~= before + title + after);
    assert(before + (lower + after) =~= before + lower + after);
}

/// `needle` stands in `text` at the place `at`.
pub open spec fn occurs_at(text: Seq<char>, at: int, needle: Seq<char>) -> bool {
    0 <= at && at + needle.len() <= text.len() && text.subrange(at, at + needle.len()) == needle
}

/// `needle` stands somewhere in `text`.
pub open spec fn occurs_in(text: Seq<char>, needle: Seq<char>) -> bool {
    exists|at: int| occurs_at(text, at, needle)
}

/// The text holds no opening brace, and so no part of a mark's start.
pub open spec fn is_plain(text: Seq<char>) -> bool {
    !text.contains('{')
}

/// What stands in front of the first opening brace is kept as it is.
pub proof fn lemma_expand_plain_prefix(
    plain: Seq<char>,
    rest: Seq<char>,
    title: Seq<char>,
    lower: Seq<char>,
)
    requires
        is_plain(plain),
    ensures
        expand(plain + rest, title, lower) == plain + expand(rest, title, lower),
    decreases plain.len(),
{
    let whole = plain + rest;
    if plain.len() == 0 {
        assert(whole =~= rest);
        assert(plain + expand(rest, title, lower) =~= expand(rest, title, lower));
    } else {
        assert(plain.contains(plain[0]));
        assert(whole[0] == plain[0]);
        assert(whole.skip(0) =~= whole);
        assert(!mark_starts(whole, 0)) by {
            if mark_starts(whole, 0) {
                lemma_mark_chars(whole, 0);
            }
        }
        let shorter = plain.skip(1);
        assert forall|i: int| 0 <= i < shorter.len() implies shorter[i] != '{' by {
            assert(plain.contains(plain[i + 1]));
        }
        lemma_expand_plain_prefix(shorter, rest, title, lower);
        assert(whole.skip(1) =~= shorter + rest);
        assert(seq![plain[0]] + (shorter + expand(rest, title, lower)) =~= plain + expand(
            rest,
            title,
            lower,
        ));
    }
}

/// Where a template holds `{Name}` between two stretches without braces,
/// the text holds the title between the same two stretches.
pub proof fn lemma_title_between(
    template: Seq<char>,
    at: int,
    before: Seq<char>,
    after: Seq<char>,
    title: Seq<char>,
    lower: Seq<char>,
)
    requires
        is_plain(before),
        is_plain(after),
        occurs_at(template, at, before + title_mark() + after),
        forall|start: int| at - 6 < start < at ==> !mark_starts(template, start),
    ensures
        occurs_in(expand(template, title, lower), before + title + after),
{
    let needle = before + title_mark() + after;
    let end = at + needle.len();
    let rest = template.skip(end);
    let head = expand(template.take(at), title, lower);
    let tail = expand(rest, title, lower);
    lemma_expand_split(template, at, title, lower);
    assert(template.skip(at) =~= before + (title_mark() + (after + rest)));
    lemma_expand_plain_prefix(before, title_mark() + (after + rest), title, lower);
    let marked = title_mark() + (after + rest);
    assert(marked.subrange(0, 6) =~= title_mark());
    assert(marked.skip(6) =~= after + rest);
    lemma_expand_plain_prefix(after, rest, title, lower);
    let text = expand(template, title, lower);
    let found = before + title + after;
    assert(text =~= head + found + tail);
    assert(text.subrange(head.len() as int, head.len() as int + found.len()) =~= found);
    assert(occurs_at(text, head.len() as int, found));
}

/// The same, for a place with no opening brace in the five characters
/// before it: no mark can then reach over that place.
pub proof fn lemma_title_declared(
    template: Seq<char>,
    at: int,
    before: Seq<char>,
    after: Seq<char>,
    title: Seq<char>,
    lower: Seq<char>,
)
    requires
        is_plain(before),
        is_plain(after),
        occurs_at(template, at, before + title_mark() + after),
        at >= 5,
        is_plain(template.subrange(at - 5, at)),
    ensures
        occurs_in(expand(template, title, lower), before + title + after),
{
    let window = template.subrange(at - 5, at);
    assert forall|start: int| at - 6 < start < at implies !mark_starts(template, start) by {
        if mark_starts(template, start) {
            lemma_mark_chars(template, start);
            assert(window[start - (at - 5)] == template[start]);
            assert(window.contains('{'));
        }
    }
    lemma_title_between(template, at, before, after, title, lower);
}

} // verus!

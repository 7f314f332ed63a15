//! Feature names: which ones are accepted, and the forms in which a name is
//! written into paths and templates.

use crate::error::ScaffoldError;
use crate::text::{
    all_space, chars_of, is_space, is_trimmed, is_whitespace, lemma_run_length,
    lemma_run_length_prefix, lemma_trimmed_is_subrange, run_length, split_on, text_of, trim,
    trimmed,
};
use vstd::prelude::*;
use vstd::string::*;

verus! {

/// The upper-case form of an ASCII letter; any other character is left as it is.
pub open spec fn ascii_upper(c: char) -> char {
    if 'a' <= c && c <= 'z' {
        ((c as u8) - 32) as char
    } else {
        c
    }
}

/// A segment with its first character in ASCII upper case.
pub open spec fn capitalize_ascii(segment: Seq<char>) -> Seq<char> {
    if segment.len() == 0 {
        segment
    } else {
        seq![ascii_upper(segment[0])] + segment.skip(1)
    }
}

/// The segments, each with its first character in ASCII upper case, written
/// one after the other.
pub open spec fn concat_capitalized(segments: Seq<Seq<char>>) -> Seq<char>
    decreases segments.len(),
{
    if segments.len() == 0 {
        Seq::empty()
    } else {
        capitalize_ascii(segments[0]) + concat_capitalized(segments.skip(1))
    }
}

/// The PascalCase form of `s`: `s` is cut at its underscores, the first
/// character of every segment is put in ASCII upper case, and the segments
/// are written one after the other.
pub open spec fn pascal_case(s: Seq<char>) -> Seq<char> {
    concat_capitalized(split_on(s, '_'))
}

/// What `char::to_uppercase` yields for `c`: the upper-case mapping of the
/// Unicode character database, which may be longer than one character.
pub uninterp spec fn uppercase_of(c: char) -> Seq<char>;

/// What `str::to_lowercase` yields for `s`.
pub uninterp spec fn lowercase_of(s: Seq<char>) -> Seq<char>;

/// `s` with `head` in place of its first character; an empty `s` stays empty.
pub open spec fn replace_first(s: Seq<char>, head: Seq<char>) -> Seq<char> {
    if s.len() == 0 {
        s
    } else {
        head + s.skip(1)
    }
}

/// `s` with its first character replaced by that character's upper-case mapping.
pub open spec fn capitalized(s: Seq<char>) -> Seq<char> {
    if s.len() == 0 {
        s
    } else {
        replace_first(s, uppercase_of(s[0]))
    }
}

/// `char::to_uppercase` of the standard library, collected into a string.
/// The characters depend on `c` alone; the contract gives them a name and
/// says of them only that there is at least one.
#[verifier::external_body]
fn uppercase(c: char) -> (upper: String)
    ensures
        upper@ == uppercase_of(c),
        upper@.len() >= 1,
{
    c.to_uppercase().collect()
}

/// `str::to_lowercase` of the standard library. The result depends on the
/// characters of `s` alone; the contract gives it a name and says nothing
/// else of it.
#[verifier::external_body]
pub(crate) fn lowercase(s: &str) -> (lower: String)
    ensures
        lower@ == lowercase_of(s@),
{
    s.to_lowercase()
}

/// The upper-case form of an ASCII letter; any other character is left as it is.
pub fn ascii_uppercase(c: char) -> (upper: char)
    ensures
        upper == ascii_upper(c),
{
    if c >= 'a' && c <= 'z' {
        let code: u8 = c as u8;
        (code - 32) as char
    } else {
        c
    }
}

/// `s` with `head` in place of its first character; an empty `s` stays empty.
pub fn with_first_replaced(s: &str, head: &str) -> (text: String)
    ensures
        text@ == replace_first(s@, head@),
{
    let chars = chars_of(s);
    if chars.len() == 0 {
        String::new()
    } else {
        let rest = text_of(&chars, 1, chars.len());
        let mut text = head.to_owned();
        text.append(rest.as_str());
        proof {
            assert(s@.subrange(1, s@.len() as int) =~= s@.skip(1));
        }
        text
    }
}

/// PascalCase, segment by segment: the form of a text without underscore is
/// the text with its first character in upper case, and the form of any
/// other text is that of its first segment followed by that of what comes
/// after the first underscore.
pub proof fn lemma_pascal_case_unfolds(s: Seq<char>)
    ensures
        run_length(s, '_') >= s.len() ==> pascal_case(s) == capitalize_ascii(s),
        run_length(s, '_') < s.len() ==> pascal_case(s) == capitalize_ascii(
            s.take(run_length(s, '_') as int),
        ) + pascal_case(s.skip(run_length(s, '_') as int + 1)),
{
    let k = run_length(s, '_') as int;
    let segments = split_on(s, '_');
    if k >= s.len() {
        assert(segments.skip(1) =~= Seq::<Seq<char>>::empty());
        assert(concat_capitalized(segments.skip(1)) =~= Seq::<char>::empty());
        assert(capitalize_ascii(s) + Seq::<char>::empty() =~= capitalize_ascii(s));
    } else {
        assert(segments.skip(1) =~= split_on(s.skip(k + 1), '_'));
    }
}

/// What is left to write when the characters before `rest` have been
/// handled: `fresh` says that the next character starts a piece.
spec fn pascal_rest(rest: Seq<char>, fresh: bool) -> Seq<char> {
    if fresh {
        pascal_case(rest)
    } else {
        let k = run_length(rest, '_') as int;
        if k >= rest.len() {
            rest
        } else {
            rest.take(k) + pascal_case(rest.skip(k + 1))
        }
    }
}

/// One character of the input accounts for at most one character of the output.
proof fn lemma_pascal_step(rest: Seq<char>, fresh: bool)
    requires
        rest.len() > 0,
    ensures
        rest[0] == '_' ==> pascal_rest(rest, fresh) == pascal_rest(rest.skip(1), true),
        rest[0] != '_' && fresh ==> pascal_rest(rest, fresh) == seq![ascii_upper(rest[0])]
            + pascal_rest(rest.skip(1), false),
        rest[0] != '_' && !fresh ==> pascal_rest(rest, fresh) == seq![rest[0]] + pascal_rest(
            rest.skip(1),
            false,
        ),
{
    let k = run_length(rest, '_') as int;
    let next = rest.skip(1);
    lemma_run_length(rest, '_');
    lemma_pascal_case_unfolds(rest);
    if rest[0] == '_' {
        assert(rest.take(0) =~= Seq::<char>::empty());
        assert(Seq::<char>::empty() + pascal_case(next) =~= pascal_case(next));
    } else {
        let j = run_length(next, '_') as int;
        assert(k == j + 1);
        assert(rest.take(k).skip(1) =~= next.take(j));
        assert(rest.take(k) =~= seq![rest[0]] + next.take(j));
        if k >= rest.len() {
            assert(rest.take(k) =~= rest);
            assert(next.take(j) =~= next);
        } else {
            assert(rest.skip(k + 1) =~= next.skip(j + 1));
            let tail = pascal_case(next.skip(j + 1));
            assert((seq![rest[0]] + next.take(j)) + tail =~= seq![rest[0]] + (next.take(j) + tail));
            assert((seq![ascii_upper(rest[0])] + next.take(j)) + tail =~= seq![
                ascii_upper(rest[0]),
            ] + (next.take(j) + tail));
        }
    }
}

/// The two case conversions of a string.
pub trait StringTrait: Sized {
    /// The characters of the value.
    spec fn text(&self) -> Seq<char>;

    /// The value with its first character in upper case. The result is at
    /// least as long as the value.
    fn capitalize(self) -> (out: String)
        ensures
            out@ == capitalized(self.text()),
            out@.len() >= self.text().len(),
    ;

    /// The value in PascalCase.
    fn to_pascal_case(self) -> (out: String)
        ensures
            out@ == pascal_case(self.text()),
    ;
}

impl StringTrait for String {
    open spec fn text(&self) -> Seq<char> {
        self@
    }

    fn capitalize(self) -> (out: String) {
        let s = self.as_str();
        if s.unicode_len() == 0 {
            String::new()
        } else {
            let upper = uppercase(s.get_char(0));
            with_first_replaced(s, upper.as_str())
        }
    }

    fn to_pascal_case(self) -> (out: String) {
        let mut result = String::new();
        let mut capitalize_next = true;
        let ghost all = self@;
        proof {
            assert(all.skip(0) =~= all);
            assert(result@ + pascal_case(all) =~= pascal_case(all));
        }
        for c in it: self.as_str().chars()
            invariant
                it.seq() == all,
                pascal_case(all) == result@ + pascal_rest(
                    all.skip(it.index() as int),
                    capitalize_next,
                ),
        {
            let ghost rest = all.skip(it.index() as int);
            let ghost before = result@;
            proof {
                lemma_pascal_step(rest, capitalize_next);
                assert(rest[0] == c);
                assert(rest.skip(1) =~= all.skip(it.index() + 1));
            }
            if c == '_' {
                capitalize_next = true;
            } else if capitalize_next {
                result.push(ascii_uppercase(c));
                capitalize_next = false;
                proof {
                    let tail = pascal_rest(rest.skip(1), false);
                    assert(before + (seq![ascii_upper(c)] + tail) =~= before.push(ascii_upper(c))
                        + tail);
                }
            } else {
                result.push(c);
                proof {
                    let tail = pascal_rest(rest.skip(1), false);
                    assert(before + (seq![c] + tail) =~= before.push(c) + tail);
                }
            }
        }
        proof {
            assert(all.skip(all.len() as int) =~= Seq::<char>::empty());
            lemma_pascal_case_unfolds(Seq::empty());
            assert(result@ + Seq::<char>::empty() =~= result@);
        }
        result
    }
}

/// The characters that no name may hold: the control characters and the
/// ones that a path segment cannot hold on every system.
pub open spec fn is_forbidden(c: char) -> bool {
    ||| (c as u32) < 0x20
    ||| c == '"'
    ||| c == '/'
    ||| c == '\\'
    ||| c == ':'
    ||| c == '*'
    ||| c == '?'
    ||| c == '<'
    ||| c == '>'
    ||| c == '|'
}

/// No character of `s` is forbidden.
pub open spec fn is_clean(s: Seq<char>) -> bool {
    forall|i: int| 0 <= i < s.len() ==> !is_forbidden(#[trigger] s[i])
}

/// `s` holds a character other than the underscore: its PascalCase form
/// is not empty.
pub open spec fn has_text(s: Seq<char>) -> bool {
    exists|i: int| 0 <= i < s.len() && #[trigger] s[i] != '_'
}

/// `s` is `.` or `..`, the two names that stand for directories that are
/// there already.
pub open spec fn is_dots(s: Seq<char>) -> bool {
    (s.len() == 1 && s[0] == '.') || (s.len() == 2 && s[0] == '.' && s[1] == '.')
}

/// What makes a name of `s`, taken as it is: it is not blank, it holds no
/// forbidden character and some character other than the underscore, and it
/// is neither `.` nor `..`. Every other text is refused.
pub open spec fn acceptable(s: Seq<char>) -> bool {
    !all_space(s) && is_clean(s) && has_text(s) && !is_dots(s)
}

/// A name that is trimmed before it is used is accepted when what is left
/// of it makes a name.
pub open spec fn valid_name(raw: Seq<char>) -> bool {
    acceptable(trimmed(raw))
}

/// The title of a name: its PascalCase form, capitalized.
pub open spec fn title_of(name: Seq<char>) -> Seq<char> {
    capitalized(pascal_case(name))
}

/// The forms of a name, as plain character sequences.
pub ghost struct NameModel {
    /// The name as it is written into paths and file names.
    pub name: Seq<char>,
    /// The name as it is written into type names.
    pub title: Seq<char>,
    /// The name as it is written into variable names.
    pub lower: Seq<char>,
}

/// The forms of the name `name`, taken as it is: the name, its title, and
/// the lower-case form of the title.
pub open spec fn forms(name: Seq<char>) -> NameModel {
    NameModel { name, title: title_of(name), lower: lowercase_of(title_of(name)) }
}

/// The forms of the name `raw`, trimmed first.
pub open spec fn normal_form(raw: Seq<char>) -> NameModel {
    forms(trimmed(raw))
}

/// A name in the forms in which paths and templates use it.
#[derive(Debug, PartialEq, Eq)]
pub struct NormalizedName {
    /// The name: a path segment and the stem of the file names.
    pub name: String,
    /// The title, for type names.
    pub title: String,
    /// The lower-case form of the title, for variable names.
    pub lower: String,
}

impl View for NormalizedName {
    type V = NameModel;

    open spec fn view(&self) -> NameModel {
        NameModel { name: self.name@, title: self.title@, lower: self.lower@ }
    }
}

/// Whether `c` is a character that no name may hold.
pub fn is_forbidden_char(c: char) -> (b: bool)
    ensures
        b == is_forbidden(c),
{
    let code: u32 = c as u32;
    code < 0x20 || c == '"' || c == '/' || c == '\\' || c == ':' || c == '*' || c == '?' || c == '<'
        || c == '>' || c == '|'
}

/// Whether `name`, taken as it is, makes a name.
pub fn is_acceptable(name: &str) -> (b: bool)
    ensures
        b == acceptable(name@),
{
    let chars = chars_of(name);
    let n: usize = chars.len();
    let mut clean = true;
    let mut text = false;
    let mut blank = true;
    let ghost mut culprit: int = 0;
    let ghost mut witness: int = 0;
    let ghost mut mark: int = 0;
    let mut i: usize = 0;
    while i < n
        invariant
            i <= n == chars@.len(),
            chars@ == name@,
            clean == is_clean(name@.take(i as int)),
            !clean ==> 0 <= culprit < i && is_forbidden(name@[culprit]),
            text == has_text(name@.take(i as int)),
            text ==> 0 <= witness < i && name@[witness] != '_',
            blank == all_space(name@.take(i as int)),
            !blank ==> 0 <= mark < i && !is_space(name@[mark]),
        decreases n - i,
    {
        let c = chars[i];
        let ghost upto = name@.take(i as int);
        let ghost next = name@.take(i + 1);
        proof {
            assert(next[i as int] == c);
            assert forall|j: int| 0 <= j < upto.len() implies upto[j] == next[j] by {}
        }
        if is_forbidden_char(c) {
            proof {
                if clean {
                    culprit = i as int;
                }
                assert(is_forbidden(next[culprit]));
            }
            clean = false;
        } else {
            proof {
                if !clean {
                    assert(is_forbidden(next[culprit]));
                }
            }
        }
        if c != '_' {
            proof {
                witness = i as int;
                assert(next[witness] != '_');
            }
            text = true;
        } else {
            proof {
                if text {
                    assert(next[witness] != '_');
                }
                if has_text(next) {
                    let j = choose|j: int| 0 <= j < next.len() && #[trigger] next[j] != '_';
                    assert(upto[j] != '_');
                }
            }
        }
        if !is_whitespace(c) {
            proof {
                if blank {
                    mark = i as int;
                }
                assert(!is_space(next[mark]));
            }
            blank = false;
        } else {
            proof {
                if !blank {
                    assert(!is_space(next[mark]));
                }
            }
        }
        i += 1;
    }
    proof {
        assert(name@.take(n as int) =~= name@);
    }
    let dots = (n == 1 && chars[0] == '.') || (n == 2 && chars[0] == '.' && chars[1] == '.');
    !blank && clean && text && !dots
}

/// The forms of the name `name`, taken as it is, or `InvalidName` when it
/// does not make a name. The title is never empty.
pub fn name_forms(name: &str) -> (result: Result<NormalizedName, ScaffoldError>)
    ensures
        match result {
            Ok(forms_of) => acceptable(name@) && forms_of@ == forms(name@) && forms_of.title@.len()
                > 0,
            Err(error) => !acceptable(name@) && error == ScaffoldError::InvalidName,
        },
{
    if is_acceptable(name) {
        let title = name.to_owned().to_pascal_case().capitalize();
        let lower = lowercase(title.as_str());
        proof {
            lemma_pascal_case_shape(name@);
        }
        Ok(NormalizedName { name: name.to_owned(), title, lower })
    } else {
        Err(ScaffoldError::InvalidName)
    }
}

/// The forms of the name `raw`, trimmed first, or `InvalidName` when what is
/// left does not make a name. The title is never empty.
pub fn normalize(raw: &str) -> (result: Result<NormalizedName, ScaffoldError>)
    ensures
        match result {
            Ok(name) => valid_name(raw@) && name@ == normal_form(raw@) && name.title@.len() > 0,
            Err(error) => !valid_name(raw@) && error == ScaffoldError::InvalidName,
        },
{
    let name = trim(raw);
    name_forms(name.as_str())
}

/// Putting a character in ASCII upper case a second time changes nothing,
/// and never yields an underscore or a forbidden character from a character
/// that is neither.
pub proof fn lemma_ascii_upper(c: char)
    ensures
        ascii_upper(ascii_upper(c)) == ascii_upper(c),
        c != '_' ==> ascii_upper(c) != '_',
        !is_forbidden(c) ==> !is_forbidden(ascii_upper(c)),
{
}

/// The PascalCase form holds no underscore, starts with a character that
/// ASCII upper case leaves alone, and is empty only for a text made of
/// underscores. It is no longer than the text, and it keeps a clean text
/// clean.
pub proof fn lemma_pascal_case_shape(s: Seq<char>)
    ensures
        !pascal_case(s).contains('_'),
        pascal_case(s).len() > 0 ==> ascii_upper(pascal_case(s)[0]) == pascal_case(s)[0],
        pascal_case(s).len() > 0 <==> has_text(s),
        pascal_case(s).len() <= s.len(),
        is_clean(s) ==> is_clean(pascal_case(s)),
    decreases s.len(),
{
    let k = run_length(s, '_') as int;
    let piece = s.take(k);
    let head = capitalize_ascii(piece);
    let out = pascal_case(s);
    lemma_run_length(s, '_');
    lemma_pascal_case_unfolds(s);
    assert forall|i: int| 0 <= i < head.len() implies head[i] != '_' && (is_clean(s)
        ==> !is_forbidden(head[i])) by {
        lemma_ascii_upper(piece[i]);
        assert(piece[i] == s[i]);
        if i > 0 {
            assert(head[i] == piece.skip(1)[i - 1]);
        }
    }
    if k > 0 {
        lemma_ascii_upper(piece[0]);
        assert(s[0] != '_');
    }
    if k >= s.len() {
        assert(piece =~= s);
        if has_text(s) {
            let j = choose|j: int| 0 <= j < s.len() && #[trigger] s[j] != '_';
        }
    } else {
        let rest = s.skip(k + 1);
        let tail = pascal_case(rest);
        lemma_pascal_case_shape(rest);
        assert forall|i: int| 0 <= i < out.len() implies out[i] != '_' by {
            if i >= head.len() {
                assert(tail.contains(tail[i - head.len()]));
            }
        }
        if is_clean(s) {
            assert forall|i: int| 0 <= i < rest.len() implies !is_forbidden(#[trigger] rest[i]) by {
                assert(rest[i] == s[i + k + 1]);
            }
            assert forall|i: int| 0 <= i < out.len() implies !is_forbidden(#[trigger] out[i]) by {
                if i >= head.len() {
                    assert(out[i] == tail[i - head.len()]);
                }
            }
        }
        if has_text(rest) {
            let j = choose|j: int| 0 <= j < rest.len() && #[trigger] rest[j] != '_';
            assert(s[j + k + 1] != '_');
        }
        if has_text(s) && k == 0 {
            let j = choose|j: int| 0 <= j < s.len() && #[trigger] s[j] != '_';
            assert(rest[j - 1] != '_');
        }
        if k == 0 {
            assert(out =~= tail);
        }
    }
}

/// The PascalCase form of a PascalCase form is that form again.
pub proof fn lemma_pascal_case_idempotent(s: Seq<char>)
    ensures
        pascal_case(pascal_case(s)) == pascal_case(s),
{
    let title = pascal_case(s);
    lemma_pascal_case_shape(s);
    lemma_pascal_case_unfolds(title);
    lemma_run_length_prefix(title, Seq::empty(), '_');
    assert(title + Seq::<char>::empty() =~= title);
    if title.len() > 0 {
        assert(capitalize_ascii(title) =~= title);
    }
}

/// Capitalizing twice is capitalizing once, for a text whose first character
/// has an upper-case mapping that starts with a character that is its own
/// upper-case mapping. Nothing is known here of the mapping itself, so
/// nothing is said of the other texts.
pub proof fn lemma_capitalized_twice(s: Seq<char>)
    requires
        s.len() > 0,
        uppercase_of(s[0]).len() > 0,
        uppercase_of(uppercase_of(s[0])[0]) == seq![uppercase_of(s[0])[0]],
    ensures
        capitalized(capitalized(s)) == capitalized(s),
{
    let upper = uppercase_of(s[0]);
    let once = capitalized(s);
    assert(once[0] == upper[0]);
    assert(once.skip(1) =~= upper.skip(1) + s.skip(1));
    assert(seq![upper[0]] + (upper.skip(1) + s.skip(1)) =~= once);
}

/// A text whose ends are not whitespace is left as it is by trimming.
pub proof fn lemma_trimmed_fixed(s: Seq<char>)
    requires
        is_trimmed(s),
    ensures
        trimmed(s) == s,
{
}

/// A blank text, the empty one among them, makes no name, be it taken as
/// it is or trimmed first.
pub proof fn lemma_blank_name_is_invalid(raw: Seq<char>)
    requires
        all_space(raw),
    ensures
        !acceptable(raw),
        !valid_name(raw),
{
    let bounds = lemma_trimmed_is_subrange(raw);
    let kept = trimmed(raw);
    assert forall|i: int| 0 <= i < kept.len() implies is_space(#[trigger] kept[i]) by {
        assert(kept[i] == raw[bounds.0 + i]);
    }
}

/// The PascalCase form of a text that makes a name is not empty and holds
/// no underscore; and the title is that form with the upper-case mapping
/// of its first character in the place of that character.
pub proof fn lemma_title_is_an_identifier(name: Seq<char>)
    requires
        acceptable(name),
    ensures
        pascal_case(name).len() > 0,
        !pascal_case(name).contains('_'),
        title_of(name) == uppercase_of(pascal_case(name)[0]) + pascal_case(name).skip(1),
{
    lemma_pascal_case_shape(name);
}

/// The upper-case mapping of `c` is settled: it is not empty, it holds no
/// underscore and no forbidden character, and its first character is left
/// as it is by ASCII upper case and by the mapping itself.
pub open spec fn settles(c: char) -> bool {
    let upper = uppercase_of(c);
    &&& upper.len() > 0
    &&& !upper.contains('_')
    &&& is_clean(upper)
    &&& ascii_upper(upper[0]) == upper[0]
    &&& uppercase_of(upper[0]) == seq![upper[0]]
}

/// Normalizing the title of an accepted name gives that title back, as name
/// and as title, with the same lower-case form. This is stated for the names
/// whose PascalCase form starts with a character with a settled upper-case
/// mapping: nothing is known here of the mapping itself. The title must
/// have no whitespace at its ends and be neither `.` nor `..`: such a title
/// is changed by trimming or makes no name, so for it the statement fails.
pub proof fn lemma_normalize_title(raw: Seq<char>)
    requires
        valid_name(raw),
        settles(pascal_case(trimmed(raw))[0]),
        is_trimmed(normal_form(raw).title),
        !is_dots(normal_form(raw).title),
    ensures
        valid_name(normal_form(raw).title),
        normal_form(normal_form(raw).title).name == normal_form(raw).title,
        normal_form(normal_form(raw).title).title == normal_form(raw).title,
        normal_form(normal_form(raw).title).lower == normal_form(raw).lower,
{
    let name = trimmed(raw);
    let form = pascal_case(name);
    let upper = uppercase_of(form[0]);
    let title = title_of(name);
    lemma_pascal_case_shape(name);
    lemma_trimmed_fixed(title);
    assert(title =~= upper + form.skip(1));
    assert forall|i: int| 0 <= i < title.len() implies title[i] != '_' && !is_forbidden(
        #[trigger] title[i],
    ) by {
        if i < upper.len() {
            assert(upper.contains(upper[i]));
            assert(title[i] == upper[i]);
        } else {
            assert(title[i] == form[i - upper.len() + 1]);
            assert(form.contains(form[i - upper.len() + 1]));
        }
    }
    assert(title[0] == upper[0]);
    assert(title[0] != '_');
    assert(!is_space(title[0]));
    // the PascalCase form of the title is the title
    lemma_pascal_case_unfolds(title);
    lemma_run_length_prefix(title, Seq::empty(), '_');
    assert(title + Seq::<char>::empty() =~= title);
    assert(capitalize_ascii(title) =~= title);
    // and capitalizing it changes nothing
    assert(seq![upper[0]] + title.skip(1) =~= title);
}

/// A title with whitespace at one end does not come back as the name when
/// it is normalized.
pub proof fn lemma_normalize_untrimmed_title(raw: Seq<char>)
    requires
        valid_name(raw),
        !is_trimmed(normal_form(raw).title),
    ensures
        normal_form(normal_form(raw).title).name != normal_form(raw).title,
{
    let title = normal_form(raw).title;
    let bounds = lemma_trimmed_is_subrange(title);
}

} // verus!

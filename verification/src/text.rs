//! Characters and strings: whitespace, trimming, splitting and joining.
//!
//! Everything here is stated over `Seq<char>`, the view of `str` and `String`.

use vstd::prelude::*;
use vstd::string::*;

verus! {

/// `String::push` of the standard library: the character is appended at the
/// end of the string and nothing else changes.
pub assume_specification[ String::push ](s: &mut String, ch: char)
    ensures
        final(s)@ == old(s)@.push(ch),
;

/// The characters that count as whitespace: the code points with the Unicode
/// property `White_Space`.
pub open spec fn is_space(c: char) -> bool {
    let n = c as u32;
    ||| 0x09 <= n <= 0x0D
    ||| n == 0x20
    ||| n == 0x85
    ||| n == 0xA0
    ||| n == 0x1680
    ||| 0x2000 <= n <= 0x200A
    ||| n == 0x2028
    ||| n == 0x2029
    ||| n == 0x202F
    ||| n == 0x205F
    ||| n == 0x3000
}

/// Whether `c` is whitespace.
pub fn is_whitespace(c: char) -> (b: bool)
    ensures
        b == is_space(c),
{
    let n: u32 = c as u32;
    (0x09 <= n && n <= 0x0D) || n == 0x20 || n == 0x85 || n == 0xA0 || n == 0x1680 || (0x2000 <= n
        && n <= 0x200A) || n == 0x2028 || n == 0x2029 || n == 0x202F || n == 0x205F || n == 0x3000
}

/// `s` without its leading whitespace.
pub open spec fn trim_start(s: Seq<char>) -> Seq<char>
    decreases s.len(),
{
    if s.len() > 0 && is_space(s[0]) {
        trim_start(s.skip(1))
    } else {
        s
    }
}

/// `s` without its trailing whitespace.
pub open spec fn trim_end(s: Seq<char>) -> Seq<char>
    decreases s.len(),
{
    if s.len() > 0 && is_space(s[s.len() - 1]) {
        trim_end(s.take(s.len() - 1))
    } else {
        s
    }
}

/// `s` without its leading and trailing whitespace.
pub open spec fn trimmed(s: Seq<char>) -> Seq<char> {
    trim_end(trim_start(s))
}

/// Every character of `s` is whitespace.
pub open spec fn all_space(s: Seq<char>) -> bool {
    forall|i: int| 0 <= i < s.len() ==> is_space(#[trigger] s[i])
}

/// Neither end of `s` is whitespace.
pub open spec fn is_trimmed(s: Seq<char>) -> bool {
    s.len() > 0 ==> !is_space(s[0]) && !is_space(s[s.len() - 1])
}

/// Leading whitespace can be dropped before trimming the start.
pub proof fn lemma_trim_start_skip(s: Seq<char>, k: int)
    requires
        0 <= k <= s.len(),
        all_space(s.take(k)),
    ensures
        trim_start(s) == trim_start(s.skip(k)),
    decreases k,
{
    if k == 0 {
        assert(s.skip(0) =~= s);
    } else {
        assert(s.take(k)[0] == s[0]);
        let rest = s.skip(1);
        assert forall|i: int| 0 <= i < k - 1 implies is_space(#[trigger] rest.take(k - 1)[i]) by {
            assert(rest.take(k - 1)[i] == s.take(k)[i + 1]);
        }
        lemma_trim_start_skip(rest, k - 1);
        assert(rest.skip(k - 1) =~= s.skip(k));
    }
}

/// Trailing whitespace can be dropped before trimming the end.
pub proof fn lemma_trim_end_take(s: Seq<char>, k: int)
    requires
        0 <= k <= s.len(),
        all_space(s.skip(k)),
    ensures
        trim_end(s) == trim_end(s.take(k)),
    decreases s.len() - k,
{
    if k == s.len() {
        assert(s.take(k) =~= s);
    } else {
        assert(s.skip(k)[s.len() - 1 - k] == s[s.len() - 1]);
        let init = s.take(s.len() - 1);
        assert forall|i: int| 0 <= i < init.len() - k implies is_space(
            #[trigger] init.skip(k)[i],
        ) by {
            assert(init.skip(k)[i] == s.skip(k)[i]);
        }
        lemma_trim_end_take(init, k);
        assert(init.take(k) =~= s.take(k));
    }
}

/// The trimmed text is the stretch of `s` from its first to its last
/// character that is not whitespace.
pub proof fn lemma_trimmed_is_subrange(s: Seq<char>) -> (bounds: (int, int))
    ensures
        0 <= bounds.0 <= bounds.1 <= s.len(),
        trimmed(s) == s.subrange(bounds.0, bounds.1),
        all_space(s.take(bounds.0)),
        all_space(s.skip(bounds.1)),
        is_trimmed(trimmed(s)),
        bounds.0 == bounds.1 ==> bounds.0 == s.len(),
{
    let a = lemma_trim_start_bounds(s);
    let rest = s.skip(a);
    let b = lemma_trim_end_bounds(rest);
    assert(rest.take(b) =~= s.subrange(a, a + b));
    assert forall|i: int| 0 <= i < s.len() - (a + b) implies is_space(
        #[trigger] s.skip(a + b)[i],
    ) by {
        assert(s.skip(a + b)[i] == rest.skip(b)[i]);
    }
    if b > 0 {
        assert(rest.take(b)[0] == rest[0]);
        assert(rest.take(b)[b - 1] == rest[b - 1]);
    } else {
        if a < s.len() {
            assert(rest.skip(0)[0] == rest[0]);
        }
    }
    (a, a + b)
}

/// Trimming the start removes a whitespace prefix and stops at the first
/// character that is not whitespace.
pub proof fn lemma_trim_start_bounds(s: Seq<char>) -> (k: int)
    ensures
        0 <= k <= s.len(),
        trim_start(s) == s.skip(k),
        all_space(s.take(k)),
        k < s.len() ==> !is_space(s[k]),
    decreases s.len(),
{
    if s.len() > 0 && is_space(s[0]) {
        let j = lemma_trim_start_bounds(s.skip(1));
        assert(s.skip(1).skip(j) =~= s.skip(j + 1));
        assert forall|i: int| 0 <= i < j + 1 implies is_space(#[trigger] s.take(j + 1)[i]) by {
            if i > 0 {
                assert(s.take(j + 1)[i] == s.skip(1).take(j)[i - 1]);
            }
        }
        j + 1
    } else {
        assert(s.skip(0) =~= s);
        0
    }
}

/// Trimming the end removes a whitespace suffix and stops at the last
/// character that is not whitespace.
pub proof fn lemma_trim_end_bounds(s: Seq<char>) -> (k: int)
    ensures
        0 <= k <= s.len(),
        trim_end(s) == s.take(k),
        all_space(s.skip(k)),
        k > 0 ==> !is_space(s[k - 1]),
    decreases s.len(),
{
    if s.len() > 0 && is_space(s[s.len() - 1]) {
        let init = s.take(s.len() - 1);
        let j = lemma_trim_end_bounds(init);
        assert(init.take(j) =~= s.take(j));
        assert forall|i: int| 0 <= i < s.len() - j implies is_space(#[trigger] s.skip(j)[i]) by {
            if i < init.len() - j {
                assert(s.skip(j)[i] == init.skip(j)[i]);
            }
        }
        j
    } else {
        assert(s.take(s.len() as int) =~= s);
        s.len() as int
    }
}

/// The characters of `s`, one by one.
pub fn chars_of(s: &str) -> (chars: Vec<char>)
    ensures
        chars@ == s@,
{
    let mut chars: Vec<char> = Vec::new();
    for c in it: s.chars()
        invariant
            it.seq() == s@,
            chars@ == s@.take(it.index() as int),
    {
        proof {
            assert(s@.take(it.index() + 1) =~= s@.take(it.index() as int).push(c));
        }
        chars.push(c);
    }
    proof {
        assert(s@.take(s@.len() as int) =~= s@);
    }
    chars
}

/// The text made of `chars[from..to]`.
pub(crate) fn text_of(chars: &Vec<char>, from: usize, to: usize) -> (text: String)
    requires
        from <= to <= chars@.len(),
    ensures
        text@ == chars@.subrange(from as int, to as int),
{
    let mut text = String::new();
    let mut i: usize = from;
    while i < to
        invariant
            from <= i <= to <= chars@.len(),
            text@ == chars@.subrange(from as int, i as int),
        decreases to - i,
    {
        proof {
            assert(chars@.subrange(from as int, i + 1) =~= chars@.subrange(
                from as int,
                i as int,
            ).push(chars@[i as int]));
        }
        text.push(chars[i]);
        i += 1;
    }
    text
}

/// `s` without its leading and trailing whitespace.
pub fn trim(s: &str) -> (text: String)
    ensures
        text@ == trimmed(s@),
{
    let chars = chars_of(s);
    let n: usize = chars.len();
    let mut start: usize = 0;
    while start < n && is_whitespace(chars[start])
        invariant
            start <= n == chars@.len(),
            all_space(chars@.take(start as int)),
        decreases n - start,
    {
        proof {
            assert forall|i: int| 0 <= i < start + 1 implies is_space(
                #[trigger] chars@.take(start + 1)[i],
            ) by {
                if i < start {
                    assert(chars@.take(start + 1)[i] == chars@.take(start as int)[i]);
                }
            }
        }
        start += 1;
    }
    let ghost rest = chars@.skip(start as int);
    proof {
        lemma_trim_start_skip(chars@, start as int);
        assert(start < n ==> rest[0] == chars@[start as int]);
    }
    let mut end: usize = n;
    while end > start && is_whitespace(chars[end - 1])
        invariant
            start <= end <= n == chars@.len(),
            rest == chars@.skip(start as int),
            all_space(rest.skip(end - start)),
        decreases end,
    {
        proof {
            assert forall|i: int| 0 <= i < n - (end - 1) implies is_space(
                #[trigger] rest.skip(end - 1 - start)[i],
            ) by {
                if i > 0 {
                    assert(rest.skip(end - 1 - start)[i] == rest.skip(end - start)[i - 1]);
                }
            }
        }
        end -= 1;
    }
    proof {
        lemma_trim_end_take(rest, end - start);
        let kept = rest.take(end - start);
        assert(kept =~= chars@.subrange(start as int, end as int));
        if end > start {
            assert(kept[kept.len() - 1] == chars@[end - 1]);
            assert(kept[0] == chars@[start as int]);
        }
    }
    text_of(&chars, start, end)
}

/// The number of characters of `s` that stand before its first `sep`: the
/// length of `s` when it holds none.
pub open spec fn run_length(s: Seq<char>, sep: char) -> nat
    decreases s.len(),
{
    if s.len() == 0 || s[0] == sep {
        0
    } else {
        1 + run_length(s.skip(1), sep)
    }
}

/// The pieces of `s` between its separators, in order. A text with `n`
/// separators has `n + 1` pieces, some of which may be empty.
pub open spec fn split_on(s: Seq<char>, sep: char) -> Seq<Seq<char>>
    decreases s.len(),
{
    let k = run_length(s, sep) as int;
    if k >= s.len() {
        seq![s]
    } else {
        seq![s.take(k)] + split_on(s.skip(k + 1), sep)
    }
}

/// The words with `sep` between each two neighbours.
pub open spec fn joined(words: Seq<Seq<char>>, sep: Seq<char>) -> Seq<char>
    decreases words.len(),
{
    if words.len() == 0 {
        Seq::empty()
    } else if words.len() == 1 {
        words[0]
    } else {
        joined(words.drop_last(), sep) + sep + words.last()
    }
}

/// `run_length` stops at the first separator and nowhere before it.
pub proof fn lemma_run_length(s: Seq<char>, sep: char)
    ensures
        run_length(s, sep) <= s.len(),
        forall|i: int| 0 <= i < run_length(s, sep) ==> s[i] != sep,
        run_length(s, sep) < s.len() ==> s[run_length(s, sep) as int] == sep,
    decreases s.len(),
{
    if s.len() == 0 || s[0] == sep {
    } else {
        lemma_run_length(s.skip(1), sep);
        assert forall|i: int| 0 <= i < run_length(s, sep) implies s[i] != sep by {
            if i > 0 {
                assert(s[i] == s.skip(1)[i - 1]);
            }
        }
        assert(run_length(s, sep) < s.len() ==> s[run_length(s, sep) as int] == s.skip(1)[
            run_length(s, sep) - 1
        ]);
    }
}

/// A prefix without separators adds its length to the run.
pub proof fn lemma_run_length_prefix(prefix: Seq<char>, rest: Seq<char>, sep: char)
    requires
        !prefix.contains(sep),
    ensures
        run_length(prefix + rest, sep) == prefix.len() + run_length(rest, sep),
    decreases prefix.len(),
{
    if prefix.len() == 0 {
        assert(prefix + rest =~= rest);
    } else {
        let whole = prefix + rest;
        assert(whole[0] == prefix[0]);
        assert(prefix.contains(prefix[0]));
        let shorter = prefix.skip(1);
        assert forall|i: int| 0 <= i < shorter.len() implies shorter[i] != sep by {
            assert(prefix.contains(prefix[i + 1]));
        }
        lemma_run_length_prefix(shorter, rest, sep);
        assert(whole.skip(1) =~= shorter + rest);
    }
}

/// A text without separators is its own single piece.
pub proof fn lemma_split_whole(s: Seq<char>, sep: char)
    requires
        !s.contains(sep),
    ensures
        split_on(s, sep) == seq![s],
{
    lemma_run_length_prefix(s, Seq::empty(), sep);
    assert(s + Seq::<char>::empty() =~= s);
}

/// Splitting cuts at the first separator.
pub proof fn lemma_split_at(first: Seq<char>, rest: Seq<char>, sep: char)
    requires
        !first.contains(sep),
    ensures
        split_on(first.push(sep) + rest, sep) == seq![first] + split_on(rest, sep),
{
    let whole = first.push(sep) + rest;
    let tail = seq![sep] + rest;
    assert(whole =~= first + tail);
    lemma_run_length_prefix(first, tail, sep);
    assert(tail[0] == sep);
    assert(whole.take(first.len() as int) =~= first);
    assert(whole.skip(first.len() as int + 1) =~= rest);
}

/// Splitting loses nothing and cuts at every separator: no piece holds a
/// separator, and the pieces joined with the separator are the text again.
pub proof fn lemma_split_then_join(s: Seq<char>, sep: char)
    ensures
        split_on(s, sep).len() >= 1,
        forall|i: int|
            0 <= i < split_on(s, sep).len() ==> !(#[trigger] split_on(s, sep)[i]).contains(sep),
        joined(split_on(s, sep), seq![sep]) == s,
    decreases s.len(),
{
    let k = run_length(s, sep) as int;
    let pieces = split_on(s, sep);
    lemma_run_length(s, sep);
    if k >= s.len() {
        assert(pieces =~= seq![s]);
        assert forall|j: int| 0 <= j < s.len() implies s[j] != sep by {}
    } else {
        let first = s.take(k);
        let rest = s.skip(k + 1);
        let others = split_on(rest, sep);
        lemma_split_then_join(rest, sep);
        assert forall|j: int| 0 <= j < first.len() implies first[j] != sep by {
            assert(first[j] == s[j]);
        }
        assert forall|i: int| 0 <= i < pieces.len() implies !(#[trigger] pieces[i]).contains(
            sep,
        ) by {
            if i > 0 {
                assert(pieces[i] == others[i - 1]);
            }
        }
        lemma_join_first(first, others, seq![sep]);
        assert(first + seq![sep] + rest =~= s);
    }
}

/// Joining a word and then the words after it: the word, the separator, and
/// the others joined.
pub proof fn lemma_join_first(first: Seq<char>, others: Seq<Seq<char>>, sep: Seq<char>)
    requires
        others.len() >= 1,
    ensures
        joined(seq![first] + others, sep) == first + sep + joined(others, sep),
    decreases others.len(),
{
    let all = seq![first] + others;
    assert(joined(all, sep) == joined(all.drop_last(), sep) + sep + all.last());
    assert(all.last() == others.last());
    if others.len() == 1 {
        assert(all.drop_last() =~= seq![first]);
        assert(joined(seq![first], sep) == first);
        assert(joined(others, sep) == others[0]);
    } else {
        let init = others.drop_last();
        lemma_join_first(first, init, sep);
        assert(all.drop_last() =~= seq![first] + init);
        assert(joined(others, sep) == joined(init, sep) + sep + others.last());
        assert(first + sep + joined(init, sep) + sep + others.last() =~= first + sep + (joined(
            init,
            sep,
        ) + sep + others.last()));
    }
}

/// The pieces of `s` between its separators, in order.
pub fn split(s: &str, sep: char) -> (pieces: Vec<String>)
    ensures
        pieces.deep_view() == split_on(s@, sep),
{
    let chars = chars_of(s);
    let mut pieces: Vec<String> = Vec::new();
    let mut current = String::new();
    let mut i: usize = 0;
    proof {
        assert(pieces.deep_view() =~= Seq::<Seq<char>>::empty());
        assert(current@ + s@.skip(0) =~= s@);
        assert(Seq::<Seq<char>>::empty() + split_on(s@, sep) =~= split_on(s@, sep));
    }
    while i < chars.len()
        invariant
            i <= chars@.len(),
            chars@ == s@,
            !current@.contains(sep),
            split_on(s@, sep) == pieces.deep_view() + split_on(current@ + s@.skip(i as int), sep),
        decreases chars@.len() - i,
    {
        let c = chars[i];
        let ghost rest = s@.skip(i + 1);
        let ghost before = pieces.deep_view();
        let ghost word = current@;
        if c == sep {
            proof {
                lemma_split_at(word, rest, sep);
                assert(word + s@.skip(i as int) =~= word.push(sep) + rest);
            }
            pieces.push(current);
            current = String::new();
            proof {
                assert(pieces.deep_view() =~= before.push(word));
                assert(current@ + rest =~= rest);
                assert(before + (seq![word] + split_on(rest, sep)) =~= before.push(word)
                    + split_on(rest, sep));
            }
        } else {
            current.push(c);
            proof {
                assert(word.push(c) + rest =~= word + s@.skip(i as int));
                assert forall|j: int| 0 <= j < current@.len() implies current@[j] != sep by {
                    if j < word.len() {
                        assert(word.contains(word[j]));
                    }
                }
            }
        }
        i += 1;
    }
    proof {
        assert(current@ + s@.skip(i as int) =~= current@);
        lemma_split_whole(current@, sep);
    }
    let ghost before = pieces.deep_view();
    let ghost word = current@;
    pieces.push(current);
    proof {
        assert(pieces.deep_view() =~= before.push(word));
        assert(before + seq![word] =~= before.push(word));
    }
    pieces
}

/// The words with `sep` between each two neighbours.
pub fn join(words: &[&str], sep: &str) -> (text: String)
    ensures
        text@ == joined(words.deep_view(), sep@),
{
    let mut text = String::new();
    let mut i: usize = 0;
    let ghost all = words.deep_view();
    while i < words.len()
        invariant
            i <= words.len(),
            all == words.deep_view(),
            text@ == joined(all.take(i as int), sep@),
        decreases words.len() - i,
    {
        proof {
            let upto = all.take(i + 1);
            assert(upto.drop_last() =~= all.take(i as int));
            assert(upto.last() == words[i as int]@);
            if i == 0 {
                assert(text@ + words[0]@ =~= words[0]@);
            }
        }
        if i > 0 {
            text.append(sep);
        }
        text.append(words[i]);
        i += 1;
    }
    proof {
        assert(all.take(i as int) =~= all);
    }
    text
}

} // verus!

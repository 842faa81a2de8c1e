//! Guards for audience text that is projected on stage: one takes out control
//! characters and collapses white space, the other blanks listed words. They
//! are a floor, not moderation.
use vstd::prelude::*;

use crate::text::{
    ascii_lowercase, control, holds, is_ascii_alphanumeric, is_control, is_white_space, joined,
    slice_text, texts, to_chars, white_space,
};

verus! {

// ---------------------------------------------------------------------------
// Sanitizing
// ---------------------------------------------------------------------------
/// A character that separates words on stage.
pub open spec fn is_gap(c: char) -> bool {
    is_control(c) || is_white_space(c)
}

/// The words of a text: its longest runs of characters that are no gaps.
pub open spec fn stage_words(s: Seq<char>) -> Seq<Seq<char>>
    decreases s.len(),
{
    if s.len() == 0 {
        Seq::empty()
    } else {
        let before = stage_words(s.drop_last());
        if is_gap(s.last()) {
            before
        } else if s.len() == 1 || is_gap(s[s.len() - 2]) {
            before.push(seq![s.last()])
        } else {
            before.drop_last().push(before.last().push(s.last()))
        }
    }
}

/// The words of a text, with one space between each two.
pub open spec fn sanitized(s: Seq<char>) -> Seq<char> {
    joined(stage_words(s), seq![' '])
}

/// A text that is fit for the stage: its only gaps are single spaces between
/// words.
pub open spec fn stage_ready(s: Seq<char>) -> bool {
    &&& forall|i: int| 0 <= i < s.len() && is_gap(#[trigger] s[i]) ==> s[i] == ' '
    &&& s.len() > 0 ==> s[0] != ' ' && s.last() != ' '
    &&& forall|i: int, j: int|
        0 <= i < s.len() && j == i + 1 && j < s.len() && (#[trigger] s[i]) == ' ' ==> (
        #[trigger] s[j]) != ' '
}

/// The characters of a text that are no gaps.
pub open spec fn visible(s: Seq<char>) -> Seq<char> {
    s.filter(|c: char| !is_gap(c))
}

/// Whether the last character of `s` continues a word.
spec fn mid_word(s: Seq<char>) -> bool {
    s.len() > 0 && !is_gap(s.last())
}

proof fn lemma_stage_words(s: Seq<char>)
    ensures
        forall|i: int| 0 <= i < stage_words(s).len() ==> (#[trigger] stage_words(s)[i]).len() > 0,
        mid_word(s) ==> stage_words(s).len() > 0,
    decreases s.len(),
{
    if s.len() > 0 {
        lemma_stage_words(s.drop_last());
        if s.len() > 1 {
            assert(s.drop_last().last() == s[s.len() - 2]);
        }
        let before = stage_words(s.drop_last());
        assert forall|i: int| 0 <= i < stage_words(s).len() implies (
        #[trigger] stage_words(s)[i]).len() > 0 by {
            if i < before.len() {
                assert(before[i].len() > 0);
            }
        }
    }
}

proof fn lemma_joined_nonempty(list: Seq<Seq<char>>, sep: Seq<char>)
    requires
        sep.len() > 0,
        forall|i: int| 0 <= i < list.len() ==> (#[trigger] list[i]).len() > 0,
    ensures
        joined(list, sep).len() == 0 <==> list.len() == 0,
{
}

/// What one more character does to the sanitized text.
proof fn lemma_sanitized_push(s: Seq<char>, c: char)
    ensures
        sanitized(s.push(c)) == (if is_gap(c) {
            sanitized(s)
        } else if mid_word(s) || sanitized(s).len() == 0 {
            sanitized(s).push(c)
        } else {
            sanitized(s).push(' ').push(c)
        }),
        mid_word(s) ==> sanitized(s).len() > 0,
{
    let t = s.push(c);
    let sep = seq![' '];
    assert(t.drop_last() =~= s);
    lemma_stage_words(s);
    lemma_joined_nonempty(stage_words(s), sep);
    let before = stage_words(s);
    if !is_gap(c) {
        if mid_word(s) {
            assert(t[t.len() - 2] == s.last());
            let grown = before.drop_last().push(before.last().push(c));
            assert(grown.drop_last() =~= before.drop_last());
            assert(grown.last() == before.last().push(c));
            assert(joined(grown, sep) =~= joined(before, sep).push(c));
        } else {
            if s.len() > 0 {
                assert(t[t.len() - 2] == s.last());
            }
            let grown = before.push(seq![c]);
            assert(grown.drop_last() =~= before);
            if before.len() == 0 {
                assert(joined(grown, sep) =~= joined(before, sep).push(c));
            } else {
                assert(joined(grown, sep) =~= joined(before, sep).push(' ').push(c));
            }
        }
    }
}

proof fn lemma_sanitized_ready(s: Seq<char>)
    ensures
        stage_ready(sanitized(s)),
    decreases s.len(),
{
    if s.len() > 0 {
        let before = s.drop_last();
        lemma_sanitized_ready(before);
        lemma_sanitized_push(before, s.last());
        assert(before.push(s.last()) =~= s);
        assert(is_gap(' '));
    }
}

proof fn lemma_ready_stays(s: Seq<char>, n: int)
    requires
        stage_ready(s),
        0 <= n <= s.len(),
    ensures
        sanitized(s.take(n)) == if n > 0 && s[n - 1] == ' ' {
            s.take(n - 1)
        } else {
            s.take(n)
        },
    decreases n,
{
    if n > 0 {
        lemma_ready_stays(s, n - 1);
        lemma_sanitized_push(s.take(n - 1), s[n - 1]);
        assert(s.take(n - 1).push(s[n - 1]) =~= s.take(n));
        assert(is_gap(' '));
        if n > 1 {
            assert(s.take(n - 1).last() == s[n - 2]);
            if s[n - 2] == ' ' {
                assert(n > 2);
                assert(s[n - 1] != ' ');
                assert(s.take(n - 2).push(' ').push(s[n - 1]) =~= s.take(n));
            }
        }
    }
}

/// A sanitized text is fit for the stage: no control character is left in it,
/// and its only white space is single spaces between words.
pub proof fn law_sanitized_is_stage_ready(s: Seq<char>)
    ensures
        stage_ready(sanitized(s)),
        forall|i: int| 0 <= i < sanitized(s).len() ==> !is_control(#[trigger] sanitized(s)[i]),
{
    lemma_sanitized_ready(s);
    assert(!is_control(' '));
}

/// Sanitizing leaves a text that is fit for the stage as it is, and so does
/// nothing the second time.
pub proof fn law_sanitizing_is_idempotent(s: Seq<char>)
    ensures
        stage_ready(s) ==> sanitized(s) == s,
        sanitized(sanitized(s)) == sanitized(s),
{
    lemma_sanitized_ready(s);
    let t = sanitized(s);
    lemma_ready_stays(t, t.len() as int);
    assert(t.take(t.len() as int) =~= t);
    if stage_ready(s) {
        lemma_ready_stays(s, s.len() as int);
        assert(s.take(s.len() as int) =~= s);
    }
}

proof fn lemma_visible_push(s: Seq<char>, c: char)
    ensures
        visible(s.push(c)) == (if is_gap(c) {
            visible(s)
        } else {
            visible(s).push(c)
        }),
{
    reveal(Seq::filter);
    assert(s.push(c).drop_last() =~= s);
}

/// Sanitizing keeps every letter, number, punctuation mark and emoji, in order.
pub proof fn law_sanitizing_keeps_visible_text(s: Seq<char>)
    ensures
        visible(sanitized(s)) == visible(s),
    decreases s.len(),
{
    if s.len() == 0 {
        assert(sanitized(s) =~= s);
    } else {
        let before = s.drop_last();
        let r = sanitized(before);
        let c = s.last();
        law_sanitizing_keeps_visible_text(before);
        lemma_sanitized_push(before, c);
        assert(before.push(c) =~= s);
        assert(is_gap(' '));
        lemma_visible_push(before, c);
        lemma_visible_push(r, c);
        lemma_visible_push(r, ' ');
        lemma_visible_push(r.push(' '), c);
    }
}

/// The sanitized text is empty exactly when there was nothing to see.
pub proof fn law_sanitized_empty_iff_nothing_visible(s: Seq<char>)
    ensures
        sanitized(s).len() == 0 <==> forall|i: int| 0 <= i < s.len() ==> is_gap(#[trigger] s[i]),
    decreases s.len(),
{
    if s.len() > 0 {
        let before = s.drop_last();
        law_sanitized_empty_iff_nothing_visible(before);
        lemma_sanitized_push(before, s.last());
        assert(before.push(s.last()) =~= s);
        assert(s.last() == s[s.len() - 1]);
        assert(forall|i: int| 0 <= i < before.len() ==> before[i] == #[trigger] s[i]);
    }
}

fn gap(c: char) -> (res: bool)
    ensures
        res == is_gap(c),
{
    control(c) || white_space(c)
}

/// Replaces control characters with spaces and collapses runs of white space;
/// letters, numbers, punctuation and emoji stay as they are.
pub fn sanitize_for_stage(text: &str) -> (res: String)
    ensures
        res@ == sanitized(text@),
{
    let chars = to_chars(text);
    let mut out = String::new();
    let mut empty = true;
    let mut in_word = false;
    let mut i: usize = 0;
    while i < chars.len()
        invariant
            i <= chars@.len(),
            chars@ == text@,
            out@ == sanitized(text@.take(i as int)),
            in_word == mid_word(text@.take(i as int)),
            empty == (out@.len() == 0),
        decreases chars@.len() - i,
    {
        let c: char = chars[i];
        proof {
            lemma_sanitized_push(text@.take(i as int), c);
            assert(text@.take(i as int).push(c) =~= text@.take(i + 1));
        }
        if gap(c) {
            in_word = false;
        } else {
            if !in_word && !empty {
                out.push(' ');
            }
            out.push(c);
            in_word = true;
            empty = false;
        }
        i += 1;
    }
    assert(text@.take(i as int) =~= text@);
    out
}

// ---------------------------------------------------------------------------
// Masking
// ---------------------------------------------------------------------------
/// What `char::is_alphanumeric` of std answers for a character beyond ASCII.
pub uninterp spec fn unicode_alphanumeric(c: char) -> bool;

/// What `str::to_lowercase` of std makes of a text that is not all ASCII.
pub uninterp spec fn unicode_lowercase(s: Seq<char>) -> Seq<char>;

/// A letter or a number.
pub open spec fn alphanumeric(c: char) -> bool {
    if c as u32 <= 0x7f {
        is_ascii_alphanumeric(c)
    } else {
        unicode_alphanumeric(c)
    }
}

/// Nothing but ASCII.
pub open spec fn ascii(s: Seq<char>) -> bool {
    forall|i: int| 0 <= i < s.len() ==> #[trigger] s[i] as u32 <= 0x7f
}

/// A text in lower case.
pub open spec fn lowercased(s: Seq<char>) -> Seq<char> {
    if ascii(s) {
        ascii_lowercase(s)
    } else {
        unicode_lowercase(s)
    }
}

/// `char::is_alphanumeric` of std: whether Unicode counts a character as
/// alphabetic or numeric. Of the ASCII characters these are the letters and the
/// digits.
#[verifier::external_body]
pub(crate) fn is_alphanumeric(c: char) -> (res: bool)
    ensures
        c as u32 <= 0x7f ==> res == is_ascii_alphanumeric(c),
        c as u32 > 0x7f ==> res == unicode_alphanumeric(c),
{
    c.is_alphanumeric()
}

/// `str::to_lowercase` of std: the text in lower case, as Unicode maps it. On
/// ASCII text this lowers the letters and leaves the rest.
#[verifier::external_body]
pub(crate) fn to_lowercase(s: &str) -> (res: String)
    ensures
        ascii(s@) ==> res@ == ascii_lowercase(s@),
        !ascii(s@) ==> res@ == unicode_lowercase(s@),
{
    s.to_lowercase()
}

/// Where the run of letters and numbers that ends at `i` begins.
pub open spec fn run_start(s: Seq<char>, i: int) -> int
    decreases i,
{
    if 0 < i <= s.len() && alphanumeric(s[i - 1]) {
        run_start(s, i - 1)
    } else {
        i
    }
}

/// Where the run of letters and numbers that begins at `i` ends.
pub open spec fn run_end(s: Seq<char>, i: int) -> int
    decreases s.len() - i,
{
    if 0 <= i < s.len() && alphanumeric(s[i]) {
        run_end(s, i + 1)
    } else {
        i
    }
}

/// The word of `s` that holds position `i`.
pub open spec fn word_around(s: Seq<char>, i: int) -> Seq<char> {
    s.subrange(run_start(s, i), run_end(s, i))
}

/// Whether position `i` of `s` lies in a listed word, in whatever case it is
/// written.
pub open spec fn is_masked(s: Seq<char>, words: Seq<Seq<char>>, i: int) -> bool {
    alphanumeric(s[i]) && words.contains(lowercased(word_around(s, i)))
}

/// `s` with an asterisk in place of each character of a listed word.
pub open spec fn masked(s: Seq<char>, words: Seq<Seq<char>>) -> Seq<char> {
    Seq::new(
        s.len(),
        |i: int|
            if is_masked(s, words, i) {
                '*'
            } else {
                s[i]
            },
    )
}

/// As many asterisks.
pub open spec fn stars(n: nat) -> Seq<char> {
    Seq::new(n, |i: int| '*')
}

/// A word as it is shown, where `lowered` is the word in lower case.
pub open spec fn shown_word(
    word: Seq<char>,
    lowered: Seq<char>,
    words: Seq<Seq<char>>,
) -> Seq<char> {
    if words.contains(lowered) {
        stars(word.len())
    } else {
        word
    }
}

/// Every position of a run lies in the same word.
proof fn lemma_same_run(s: Seq<char>, a: int, b: int, i: int)
    requires
        0 <= a <= i <= b <= s.len(),
        a == 0 || !alphanumeric(s[a - 1]),
        b == s.len() || !alphanumeric(s[b]),
        forall|k: int| a <= k < b ==> alphanumeric(#[trigger] s[k]),
    ensures
        run_start(s, i) == a,
        run_end(s, i) == b,
{
    lemma_run_back(s, a, i);
    lemma_run_on(s, b, i);
}

proof fn lemma_run_back(s: Seq<char>, a: int, i: int)
    requires
        0 <= a <= i <= s.len(),
        a == 0 || !alphanumeric(s[a - 1]),
        forall|k: int| a <= k < i ==> alphanumeric(#[trigger] s[k]),
    ensures
        run_start(s, i) == a,
    decreases i,
{
    if a < i {
        lemma_run_back(s, a, i - 1);
    }
}

proof fn lemma_run_on(s: Seq<char>, b: int, i: int)
    requires
        0 <= i <= b <= s.len(),
        b == s.len() || !alphanumeric(s[b]),
        forall|k: int| i <= k < b ==> alphanumeric(#[trigger] s[k]),
    ensures
        run_end(s, i) == b,
    decreases b - i,
{
    if i < b {
        lemma_run_on(s, b, i + 1);
    }
}

/// A word as it is shown: asterisks if its lower case is listed, else itself.
pub fn flush_word(word: &str, lowered: &str, words: &[String]) -> (res: String)
    ensures
        res@ == shown_word(word@, lowered@, texts(words@)),
{
    if !holds(words, lowered) {
        return word.to_owned();
    }
    let n: usize = word.unicode_len();
    let mut out = String::new();
    let mut i: usize = 0;
    while i < n
        invariant
            i <= n,
            out@ =~= stars(i as nat),
        decreases n - i,
    {
        out.push('*');
        i += 1;
    }
    out
}

/// Blanks whole words that appear in `words`, which are in lower case. Matching
/// is whole-word and case-insensitive.
pub fn mask_words(text: &str, words: &[String]) -> (res: String)
    ensures
        res@ == masked(text@, texts(words@)),
{
    let chars = to_chars(text);
    let n: usize = chars.len();
    let ghost all = masked(text@, texts(words@));
    let mut out = String::new();
    let mut i: usize = 0;
    while i < n
        invariant
            n == chars@.len(),
            chars@ == text@,
            all == masked(text@, texts(words@)),
            i <= n,
            i == 0 || !alphanumeric(text@[i - 1]) || i == n || !alphanumeric(text@[i as int]),
            out@ == all.take(i as int),
        decreases n - i,
    {
        let ghost done = out@;
        if !is_alphanumeric(chars[i]) {
            out.push(chars[i]);
            assert(out@ =~= all.take(i + 1));
            i += 1;
        } else {
            let mut j: usize = i + 1;
            while j < n && is_alphanumeric(chars[j])
                invariant
                    n == chars@.len(),
                    i < j <= n,
                    forall|k: int| i <= k < j ==> alphanumeric(#[trigger] chars@[k]),
                ensures
                    i < j <= n,
                    forall|k: int| i <= k < j ==> alphanumeric(#[trigger] chars@[k]),
                    j == n || !alphanumeric(chars@[j as int]),
                decreases n - j,
            {
                j += 1;
            }
            let word = slice_text(&chars, i, j);
            let lowered = to_lowercase(word.as_str());
            let shown = flush_word(word.as_str(), lowered.as_str(), words);
            out.append(shown.as_str());
            proof {
                assert forall|k: int| i <= k < j implies all[k] == #[trigger] shown@[k - i] by {
                    lemma_same_run(text@, i as int, j as int, k);
                }
                assert(out@ =~= all.take(j as int));
            }
            i = j;
        }
    }
    assert(all.take(i as int) =~= all);
    out
}

/// A text that is one word, and whose lower case is listed, is blanked as a
/// whole.
pub proof fn law_a_listed_word_is_blanked(s: Seq<char>, words: Seq<Seq<char>>)
    requires
        forall|i: int| 0 <= i < s.len() ==> alphanumeric(#[trigger] s[i]),
        words.contains(lowercased(s)),
    ensures
        masked(s, words) == stars(s.len()),
{
    if s.len() > 0 {
        law_words_are_masked_whole(s, words, 0, s.len() as int);
        assert(s.subrange(0, s.len() as int) =~= s);
        assert(masked(s, words).subrange(0, s.len() as int) =~= masked(s, words));
    }
    assert(masked(s, words) =~= stars(s.len()));
}

/// Masking keeps the length of a text and everything that is no letter or
/// number; with no listed words it keeps the text.
pub proof fn law_masking_keeps_the_rest(s: Seq<char>, words: Seq<Seq<char>>)
    ensures
        masked(s, words).len() == s.len(),
        forall|i: int|
            0 <= i < s.len() && !alphanumeric(s[i]) ==> #[trigger] masked(s, words)[i] == s[i],
        forall|i: int|
            0 <= i < s.len() ==> (#[trigger] masked(s, words)[i] == s[i] || masked(s, words)[i]
                == '*'),
        words.len() == 0 ==> masked(s, words) == s,
{
    if words.len() == 0 {
        assert(masked(s, words) =~= s);
    }
}

/// Matching is whole-word: a word, that is a run of letters and numbers with
/// none beside it, is blanked throughout if its lower case is listed, and is
/// kept throughout if it is not.
pub proof fn law_words_are_masked_whole(s: Seq<char>, words: Seq<Seq<char>>, a: int, b: int)
    requires
        0 <= a < b <= s.len(),
        a == 0 || !alphanumeric(s[a - 1]),
        b == s.len() || !alphanumeric(s[b]),
        forall|k: int| a <= k < b ==> alphanumeric(#[trigger] s[k]),
    ensures
        masked(s, words).subrange(a, b) == shown_word(
            s.subrange(a, b),
            lowercased(s.subrange(a, b)),
            words,
        ),
{
    assert forall|k: int| a <= k < b implies word_around(s, k) == s.subrange(a, b) && (
    #[trigger] masked(s, words)[k]) == shown_word(
        s.subrange(a, b),
        lowercased(s.subrange(a, b)),
        words,
    )[k - a] by {
        lemma_same_run(s, a, b, k);
    }
    assert(masked(s, words).subrange(a, b) =~= shown_word(
        s.subrange(a, b),
        lowercased(s.subrange(a, b)),
        words,
    ));
}

/// A gap between words becomes one space, and words stay as they are: what
/// stands on either side of a gap is sanitized by itself.
pub proof fn law_a_gap_becomes_one_space(s: Seq<char>, gap: char, t: Seq<char>)
    requires
        is_gap(gap),
    ensures
        sanitized(s + seq![gap] + t) == if sanitized(s).len() == 0 {
            sanitized(t)
        } else if sanitized(t).len() == 0 {
            sanitized(s)
        } else {
            sanitized(s) + seq![' '] + sanitized(t)
        },
    decreases t.len(),
{
    let head = s + seq![gap];
    assert(s.push(gap) =~= head);
    lemma_sanitized_push(s, gap);
    if t.len() == 0 {
        assert(head + t =~= head);
        assert(sanitized(t) =~= Seq::empty());
    } else {
        let rest = t.drop_last();
        law_a_gap_becomes_one_space(s, gap, rest);
        lemma_sanitized_push(head + rest, t.last());
        lemma_sanitized_push(rest, t.last());
        assert((head + rest).push(t.last()) =~= head + t);
        assert(rest.push(t.last()) =~= t);
        if rest.len() > 0 {
            assert((head + rest).last() == rest.last());
        } else {
            assert(head + rest =~= head);
            assert(sanitized(rest) =~= Seq::empty());
        }
        law_sanitized_empty_iff_nothing_visible(rest);
        assert(sanitized(head + t) =~= if sanitized(s).len() == 0 {
            sanitized(t)
        } else if sanitized(t).len() == 0 {
            sanitized(s)
        } else {
            sanitized(s) + seq![' '] + sanitized(t)
        });
    }
}

/// A word stays as it is.
pub proof fn law_a_word_is_kept(s: Seq<char>)
    requires
        forall|i: int| 0 <= i < s.len() ==> !is_gap(#[trigger] s[i]),
    ensures
        sanitized(s) == s,
    decreases s.len(),
{
    if s.len() == 0 {
        assert(sanitized(s) =~= s);
    } else {
        let rest = s.drop_last();
        law_a_word_is_kept(rest);
        lemma_sanitized_push(rest, s.last());
        assert(rest.push(s.last()) =~= s);
        assert(s.last() == s[s.len() - 1]);
    }
}

/// Of a word every character is blanked if the word is listed, in whatever case
/// it is written, and none if it is not.
pub proof fn law_a_listed_word_shows_nothing(
    s: Seq<char>,
    words: Seq<Seq<char>>,
    a: int,
    b: int,
    i: int,
)
    requires
        0 <= a <= i < b <= s.len(),
        a == 0 || !alphanumeric(s[a - 1]),
        b == s.len() || !alphanumeric(s[b]),
        forall|k: int| a <= k < b ==> alphanumeric(#[trigger] s[k]),
    ensures
        words.contains(lowercased(s.subrange(a, b))) ==> masked(s, words)[i] == '*',
        !words.contains(lowercased(s.subrange(a, b))) ==> masked(s, words)[i] == s[i],
{
    law_words_are_masked_whole(s, words, a, b);
    assert(masked(s, words).subrange(a, b)[i - a] == masked(s, words)[i]);
}

} // verus!

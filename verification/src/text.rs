//! Text as sequences of characters: trimming, searching, splitting, joining
//! and the decimal notation.
use vstd::prelude::*;

verus! {

/// `String::push` of std: the character goes to the end of the string.
pub assume_specification[ String::push ](s: &mut String, c: char)
    ensures
        final(s)@ == old(s)@.push(c),
;

// ---------------------------------------------------------------------------
// Character classes
// ---------------------------------------------------------------------------
/// The Unicode property White_Space.
pub open spec fn is_white_space(c: char) -> bool {
    let u = c as u32;
    ||| 0x9 <= u <= 0xd
    ||| u == 0x20
    ||| u == 0x85
    ||| u == 0xa0
    ||| u == 0x1680
    ||| 0x2000 <= u <= 0x200a
    ||| u == 0x2028
    ||| u == 0x2029
    ||| u == 0x202f
    ||| u == 0x205f
    ||| u == 0x3000
}

/// The Unicode general category Cc: the C0 and C1 control codes.
pub open spec fn is_control(c: char) -> bool {
    let u = c as u32;
    u <= 0x1f || 0x7f <= u <= 0x9f
}

/// ASCII letters and digits.
pub open spec fn is_ascii_alphanumeric(c: char) -> bool {
    let u = c as u32;
    0x30 <= u <= 0x39 || 0x41 <= u <= 0x5a || 0x61 <= u <= 0x7a
}

/// `c` in lower case if it is an ASCII letter, else `c`.
pub open spec fn ascii_lower(c: char) -> char {
    if 0x41 <= c as u32 <= 0x5a {
        (c as u32 + 0x20) as char
    } else {
        c
    }
}

/// `c` in upper case if it is an ASCII letter, else `c`.
pub open spec fn ascii_upper(c: char) -> char {
    if 0x61 <= c as u32 <= 0x7a {
        (c as u32 - 0x20) as char
    } else {
        c
    }
}

/// Tests whether `c` has the Unicode property White_Space.
pub fn white_space(c: char) -> (res: bool)
    ensures
        res == is_white_space(c),
{
    let u: u32 = c as u32;
    (0x9 <= u && u <= 0xd) || u == 0x20 || u == 0x85 || u == 0xa0 || u == 0x1680 || (0x2000 <= u
        && u <= 0x200a) || u == 0x2028 || u == 0x2029 || u == 0x202f || u == 0x205f || u == 0x3000
}

/// Tests whether `c` is a control code.
pub fn control(c: char) -> (res: bool)
    ensures
        res == is_control(c),
{
    let u: u32 = c as u32;
    u <= 0x1f || (0x7f <= u && u <= 0x9f)
}

/// Tests whether `c` is an ASCII letter or digit.
pub fn ascii_alphanumeric(c: char) -> (res: bool)
    ensures
        res == is_ascii_alphanumeric(c),
{
    let u: u32 = c as u32;
    (0x30 <= u && u <= 0x39) || (0x41 <= u && u <= 0x5a) || (0x61 <= u && u <= 0x7a)
}

fn lower(c: char) -> (res: char)
    ensures
        res == ascii_lower(c),
{
    let u: u32 = c as u32;
    if 0x41 <= u && u <= 0x5a {
        (u as u8 + 0x20) as char
    } else {
        c
    }
}

fn upper(c: char) -> (res: char)
    ensures
        res == ascii_upper(c),
{
    let u: u32 = c as u32;
    if 0x61 <= u && u <= 0x7a {
        (u as u8 - 0x20) as char
    } else {
        c
    }
}

// ---------------------------------------------------------------------------
// Strings and their characters
// ---------------------------------------------------------------------------
/// What a sequence of strings holds.
pub open spec fn texts(strings: Seq<String>) -> Seq<Seq<char>> {
    strings.map_values(|s: String| s@)
}

/// The characters of a string.
pub fn to_chars(s: &str) -> (res: Vec<char>)
    ensures
        res@ == s@,
{
    let mut out: Vec<char> = Vec::new();
    for c in it: s.chars()
        invariant
            out@ == it.seq().take(it.index() as int),
            it.seq() == s@,
    {
        out.push(c);
    }
    out
}

/// Tests whether two strings hold the same characters.
pub fn same(a: &str, b: &str) -> (res: bool)
    ensures
        res == (a@ == b@),
{
    let x = to_chars(a);
    let y = to_chars(b);
    if x.len() != y.len() {
        return false;
    }
    let mut i: usize = 0;
    while i < x.len()
        invariant
            x@ == a@,
            y@ == b@,
            x@.len() == y@.len(),
            i <= x@.len(),
            forall|k: int| 0 <= k < i ==> x@[k] == y@[k],
        decreases x@.len() - i,
    {
        if x[i] != y[i] {
            assert(a@[i as int] != b@[i as int]);
            return false;
        }
        i += 1;
    }
    assert(a@ =~= b@);
    true
}

/// A copy of a list of strings.
pub fn clone_texts(strings: &Vec<String>) -> (res: Vec<String>)
    ensures
        texts(res@) == texts(strings@),
{
    let mut out: Vec<String> = Vec::new();
    let mut i: usize = 0;
    while i < strings.len()
        invariant
            i <= strings@.len(),
            out@.len() == i,
            forall|k: int| 0 <= k < i ==> out@[k]@ == strings@[k]@,
        decreases strings@.len() - i,
    {
        out.push(strings[i].clone());
        i += 1;
    }
    assert(texts(out@) =~= texts(strings@));
    out
}

/// Tests whether a list holds a text.
pub fn holds(list: &[String], text: &str) -> (res: bool)
    ensures
        res == texts(list@).contains(text@),
{
    let mut i: usize = 0;
    while i < list.len()
        invariant
            i <= list@.len(),
            forall|k: int| 0 <= k < i ==> #[trigger] texts(list@)[k] != text@,
        decreases list@.len() - i,
    {
        if same(list[i].as_str(), text) {
            assert(texts(list@)[i as int] == text@);
            return true;
        }
        i += 1;
    }
    false
}

/// `s` in ASCII lower case; other characters stay.
pub open spec fn ascii_lowercase(s: Seq<char>) -> Seq<char> {
    s.map_values(|c: char| ascii_lower(c))
}

/// `s` in ASCII upper case; other characters stay.
pub open spec fn ascii_uppercase(s: Seq<char>) -> Seq<char> {
    s.map_values(|c: char| ascii_upper(c))
}

/// The string in ASCII lower case.
pub fn to_ascii_lowercase(s: &str) -> (res: String)
    ensures
        res@ == ascii_lowercase(s@),
{
    let chars = to_chars(s);
    let mut out = String::new();
    let mut i: usize = 0;
    while i < chars.len()
        invariant
            i <= chars@.len(),
            out@ == ascii_lowercase(chars@.take(i as int)),
        decreases chars@.len() - i,
    {
        out.push(lower(chars[i]));
        i += 1;
        assert(out@ =~= ascii_lowercase(chars@.take(i as int)));
    }
    assert(chars@.take(i as int) =~= s@);
    out
}

/// The string in ASCII upper case.
pub fn to_ascii_uppercase(s: &str) -> (res: String)
    ensures
        res@ == ascii_uppercase(s@),
{
    let chars = to_chars(s);
    let mut out = String::new();
    let mut i: usize = 0;
    while i < chars.len()
        invariant
            i <= chars@.len(),
            out@ == ascii_uppercase(chars@.take(i as int)),
        decreases chars@.len() - i,
    {
        out.push(upper(chars[i]));
        i += 1;
        assert(out@ =~= ascii_uppercase(chars@.take(i as int)));
    }
    assert(chars@.take(i as int) =~= s@);
    out
}

// ---------------------------------------------------------------------------
// Trimming
// ---------------------------------------------------------------------------
/// Nothing but white space.
pub open spec fn blank(s: Seq<char>) -> bool {
    forall|i: int| 0 <= i < s.len() ==> is_white_space(#[trigger] s[i])
}

/// `s` without its leading white space.
pub open spec fn trim_start(s: Seq<char>) -> Seq<char>
    decreases s.len(),
{
    if s.len() > 0 && is_white_space(s[0]) {
        trim_start(s.drop_first())
    } else {
        s
    }
}

/// `s` without its trailing white space.
pub open spec fn trim_end(s: Seq<char>) -> Seq<char>
    decreases s.len(),
{
    if s.len() > 0 && is_white_space(s.last()) {
        trim_end(s.drop_last())
    } else {
        s
    }
}

/// `s` without the white space around it.
pub open spec fn trimmed(s: Seq<char>) -> Seq<char> {
    trim_end(trim_start(s))
}

/// The text without the white space around it.
pub fn trim(s: &str) -> (res: String)
    ensures
        res@ == trimmed(s@),
{
    let chars = to_chars(s);
    let n: usize = chars.len();
    let mut i: usize = 0;
    assert(chars@.skip(0) =~= s@);
    while i < n && white_space(chars[i])
        invariant
            n == chars@.len(),
            i <= n,
            chars@ == s@,
            trim_start(s@) == trim_start(chars@.skip(i as int)),
        decreases n - i,
    {
        assert(chars@.skip(i as int).drop_first() =~= chars@.skip(i + 1));
        i += 1;
    }
    assert(trim_start(s@) =~= chars@.skip(i as int));
    let mut j: usize = n;
    assert(chars@.skip(i as int) =~= chars@.subrange(i as int, j as int));
    while i < j && white_space(chars[j - 1])
        invariant
            n == chars@.len(),
            i <= j <= n,
            trimmed(s@) == trim_end(chars@.subrange(i as int, j as int)),
        decreases j - i,
    {
        assert(chars@.subrange(i as int, j as int).drop_last() =~= chars@.subrange(
            i as int,
            j - 1,
        ));
        j -= 1;
    }
    assert(trimmed(s@) =~= chars@.subrange(i as int, j as int));
    let mut out = String::new();
    let mut k: usize = i;
    while k < j
        invariant
            i <= k <= j <= chars@.len(),
            out@ == chars@.subrange(i as int, k as int),
        decreases j - k,
    {
        out.push(chars[k]);
        k += 1;
        assert(out@ =~= chars@.subrange(i as int, k as int));
    }
    out
}

/// Tests whether there is nothing but white space.
pub fn is_blank(s: &str) -> (res: bool)
    ensures
        res == blank(s@),
{
    let chars = to_chars(s);
    let mut i: usize = 0;
    while i < chars.len()
        invariant
            i <= chars@.len(),
            chars@ == s@,
            forall|k: int| 0 <= k < i ==> is_white_space(#[trigger] s@[k]),
        decreases chars@.len() - i,
    {
        if !white_space(chars[i]) {
            assert(!is_white_space(s@[i as int]));
            return false;
        }
        i += 1;
    }
    true
}

/// Trimming leaves nothing exactly of blank text; what it leaves starts and
/// ends with a visible character and has nothing but white space around it.
pub proof fn lemma_trimmed(s: Seq<char>)
    ensures
        trimmed(s).len() == 0 <==> blank(s),
        trimmed(s).len() > 0 ==> !is_white_space(trimmed(s)[0]) && !is_white_space(
            trimmed(s).last(),
        ),
        exists|i: int, j: int|
            #![trigger s.subrange(i, j)]
            0 <= i <= j <= s.len() && trimmed(s) == s.subrange(i, j) && blank(s.subrange(0, i))
                && blank(s.subrange(j, s.len() as int)),
{
    let i = lemma_trim_start(s);
    let t = s.skip(i);
    let j = lemma_trim_end(t);
    assert(trimmed(s) =~= s.subrange(i, i + j));
    assert(blank(s.subrange(0, i)));
    assert forall|k: int| 0 <= k < s.len() - (i + j) implies is_white_space(
        #[trigger] s.subrange(i + j, s.len() as int)[k],
    ) by {
        assert(t.skip(j)[k] == s.subrange(i + j, s.len() as int)[k]);
    }
    if j > 0 {
        assert(trimmed(s)[0] == t[0]);
        assert(!is_white_space(s[i]));
    } else {
        assert forall|k: int| 0 <= k < s.len() implies is_white_space(#[trigger] s[k]) by {
            if k < i {
                assert(s.subrange(0, i)[k] == s[k]);
            } else {
                assert(s.subrange(i + j, s.len() as int)[k - i] == s[k]);
            }
        }
    }
}

proof fn lemma_trim_start(s: Seq<char>) -> (i: int)
    ensures
        0 <= i <= s.len(),
        trim_start(s) == s.skip(i),
        blank(s.subrange(0, i)),
        i < s.len() ==> !is_white_space(s[i]),
    decreases s.len(),
{
    if s.len() > 0 && is_white_space(s[0]) {
        let r = s.drop_first();
        let i = lemma_trim_start(r);
        assert(r.skip(i) =~= s.skip(i + 1));
        assert forall|k: int| 0 <= k < i + 1 implies is_white_space(
            #[trigger] s.subrange(0, i + 1)[k],
        ) by {
            if k > 0 {
                assert(r.subrange(0, i)[k - 1] == s[k]);
            }
        }
        i + 1
    } else {
        assert(s.skip(0) =~= s);
        0
    }
}

proof fn lemma_trim_end(s: Seq<char>) -> (j: int)
    ensures
        0 <= j <= s.len(),
        trim_end(s) == s.take(j),
        blank(s.skip(j)),
        j > 0 ==> !is_white_space(s[j - 1]),
    decreases s.len(),
{
    if s.len() > 0 && is_white_space(s.last()) {
        let r = s.drop_last();
        let j = lemma_trim_end(r);
        assert(r.take(j) =~= s.take(j));
        assert forall|k: int| 0 <= k < s.len() - j implies is_white_space(
            #[trigger] s.skip(j)[k],
        ) by {
            if k < s.len() - j - 1 {
                assert(r.skip(j)[k] == s.skip(j)[k]);
            }
        }
        j
    } else {
        assert(s.take(s.len() as int) =~= s);
        s.len() as int
    }
}

// ---------------------------------------------------------------------------
// Searching
// ---------------------------------------------------------------------------
/// `word` stands in `s` at position `i`.
pub open spec fn occurs_at(s: Seq<char>, word: Seq<char>, i: int) -> bool {
    0 <= i && i + word.len() <= s.len() && s.subrange(i, i + word.len()) == word
}

/// `word` stands somewhere in `s`.
pub open spec fn has(s: Seq<char>, word: Seq<char>) -> bool {
    exists|i: int| occurs_at(s, word, i)
}

/// `s` begins with `word`.
pub open spec fn begins_with(s: Seq<char>, word: Seq<char>) -> bool {
    occurs_at(s, word, 0)
}

fn stands_at(chars: &[char], word: &[char], i: usize) -> (res: bool)
    ensures
        res == occurs_at(chars@, word@, i as int),
{
    let n: usize = chars.len();
    if i > n || word.len() > n - i {
        return false;
    }
    let mut k: usize = 0;
    while k < word.len()
        invariant
            n == chars@.len(),
            k <= word@.len(),
            i + word@.len() <= chars@.len(),
            forall|m: int| 0 <= m < k ==> chars@[i + m] == word@[m],
        decreases word@.len() - k,
    {
        if chars[i + k] != word[k] {
            assert(chars@.subrange(i as int, i + word@.len())[k as int] != word@[k as int]);
            return false;
        }
        k += 1;
    }
    assert(chars@.subrange(i as int, i + word@.len()) =~= word@);
    true
}

/// Tests whether `word` stands in `s`.
pub fn contains(s: &str, word: &str) -> (res: bool)
    ensures
        res == has(s@, word@),
{
    let chars = to_chars(s);
    let needle = to_chars(word);
    let mut i: usize = 0;
    while i <= chars.len()
        invariant
            i <= chars@.len() + 1,
            chars@ == s@,
            needle@ == word@,
            forall|k: int| 0 <= k < i ==> !occurs_at(s@, word@, k),
        decreases chars@.len() + 1 - i,
    {
        if stands_at(&chars, &needle, i) {
            return true;
        }
        if i == chars.len() {
            return false;
        }
        i += 1;
    }
    false
}

/// Tests whether `s` begins with `word`.
pub fn starts_with(s: &str, word: &str) -> (res: bool)
    ensures
        res == begins_with(s@, word@),
{
    stands_at(&to_chars(s), &to_chars(word), 0)
}

// ---------------------------------------------------------------------------
// Splitting and joining
// ---------------------------------------------------------------------------
/// The first position from `i` on at which `sep` stands in `s`, or -1.
pub open spec fn position_from(s: Seq<char>, sep: Seq<char>, i: int) -> int
    decreases s.len() + 1 - i,
{
    if i < 0 || i + sep.len() > s.len() {
        -1
    } else if occurs_at(s, sep, i) {
        i
    } else {
        position_from(s, sep, i + 1)
    }
}

pub proof fn lemma_position_from(s: Seq<char>, sep: Seq<char>, i: int)
    requires
        0 <= i,
    ensures
        position_from(s, sep, i) >= 0 ==> position_from(s, sep, i) >= i && occurs_at(
            s,
            sep,
            position_from(s, sep, i),
        ),
    decreases s.len() + 1 - i,
{
    if i + sep.len() <= s.len() && !occurs_at(s, sep, i) {
        lemma_position_from(s, sep, i + 1);
    }
}

/// The parts of `s` between the occurrences of `sep`, from left to right.
pub open spec fn parts(s: Seq<char>, sep: Seq<char>) -> Seq<Seq<char>>
    decreases s.len(),
{
    let i = position_from(s, sep, 0);
    if sep.len() == 0 || i < 0 {
        seq![s]
    } else {
        proof {
            lemma_position_from(s, sep, 0);
        }
        seq![s.take(i)] + parts(s.skip(i + sep.len()), sep)
    }
}

/// The parts, with `sep` between each two of them.
pub open spec fn joined(list: Seq<Seq<char>>, sep: Seq<char>) -> Seq<char>
    decreases list.len(),
{
    if list.len() == 0 {
        Seq::empty()
    } else if list.len() == 1 {
        list[0]
    } else {
        joined(list.drop_last(), sep) + sep + list.last()
    }
}

/// The parts of the text between the occurrences of `sep`.
pub fn split(s: &str, sep: &str) -> (res: Vec<String>)
    requires
        sep@.len() > 0,
    ensures
        texts(res@) == parts(s@, sep@),
{
    let chars = to_chars(s);
    let needle = to_chars(sep);
    let n: usize = chars.len();
    let mut out: Vec<String> = Vec::new();
    let mut start: usize = 0;
    let mut i: usize = 0;
    assert(chars@.skip(0) =~= s@);
    assert(texts(out@) + parts(chars@.skip(0), sep@) =~= parts(s@, sep@));
    while i < n
        invariant
            n == chars@.len(),
            needle@ == sep@,
            sep@.len() > 0,
            start <= i <= n,
            texts(out@) + parts(chars@.skip(start as int), sep@) == parts(s@, sep@),
            position_from(chars@.skip(start as int), sep@, 0) == position_from(
                chars@.skip(start as int),
                sep@,
                i - start,
            ),
        decreases n - i,
    {
        let ghost rest = chars@.skip(start as int);
        assert(occurs_at(chars@, sep@, i as int) == occurs_at(rest, sep@, i - start)) by {
            if i + sep@.len() <= n {
                assert(chars@.subrange(i as int, i + sep@.len()) =~= rest.subrange(
                    i - start,
                    i - start + sep@.len(),
                ));
            }
        }
        if stands_at(&chars, &needle, i) {
            let ghost before = texts(out@);
            let part = slice_text(&chars, start, i);
            proof {
                assert(part@ =~= rest.take(i - start));
                assert(rest.skip(i - start + sep@.len()) =~= chars@.skip(i + sep@.len()));
            }
            out.push(part);
            i += needle.len();
            start = i;
            proof {
                assert(texts(out@) =~= before.push(part@));
                assert(texts(out@) + parts(chars@.skip(start as int), sep@) =~= before + parts(
                    rest,
                    sep@,
                ));
            }
        } else {
            i += 1;
        }
    }
    let ghost rest = chars@.skip(start as int);
    let ghost before = texts(out@);
    proof {
        assert(position_from(rest, sep@, i - start) == -1);
        assert(parts(rest, sep@) =~= seq![rest]);
    }
    let tail = slice_text(&chars, start, n);
    assert(tail@ =~= rest);
    out.push(tail);
    assert(texts(out@) =~= before + seq![rest]);
    out
}

/// The characters from `from` up to `to`, as a string.
pub fn slice_text(chars: &[char], from: usize, to: usize) -> (res: String)
    requires
        from <= to <= chars@.len(),
    ensures
        res@ == chars@.subrange(from as int, to as int),
{
    let mut out = String::new();
    let mut k: usize = from;
    while k < to
        invariant
            from <= k <= to <= chars@.len(),
            out@ == chars@.subrange(from as int, k as int),
        decreases to - k,
    {
        out.push(chars[k]);
        k += 1;
        assert(out@ =~= chars@.subrange(from as int, k as int));
    }
    out
}

/// The strings, with `sep` between each two of them.
pub fn join(list: &Vec<String>, sep: &str) -> (res: String)
    ensures
        res@ == joined(texts(list@), sep@),
{
    let mut out = String::new();
    let mut i: usize = 0;
    while i < list.len()
        invariant
            i <= list@.len(),
            out@ == joined(texts(list@).take(i as int), sep@),
        decreases list@.len() - i,
    {
        let ghost upto = texts(list@).take(i + 1);
        assert(upto.drop_last() =~= texts(list@).take(i as int));
        assert(upto.last() == list@[i as int]@);
        if i > 0 {
            out.append(sep);
        }
        out.append(list[i].as_str());
        i += 1;
        assert(out@ =~= joined(upto, sep@));
    }
    assert(texts(list@).take(i as int) =~= texts(list@));
    out
}

proof fn lemma_joined_front(list: Seq<Seq<char>>, sep: Seq<char>)
    requires
        list.len() >= 2,
    ensures
        joined(list, sep) == list[0] + sep + joined(list.drop_first(), sep),
    decreases list.len(),
{
    if list.len() == 2 {
        assert(list.drop_last().len() == 1);
        assert(joined(list.drop_last(), sep) == list[0]);
        assert(joined(list.drop_first(), sep) == list[1]);
    } else {
        lemma_joined_front(list.drop_last(), sep);
        assert(list.drop_last().drop_first() =~= list.drop_first().drop_last());
        assert(joined(list, sep) =~= list[0] + sep + joined(list.drop_first(), sep));
    }
}

proof fn lemma_no_occurrence_before(s: Seq<char>, sep: Seq<char>, from: int, to: int)
    requires
        0 <= from <= to <= s.len(),
        sep.len() > 0,
        forall|i: int| from <= i < to ==> #[trigger] s[i] != sep[0],
    ensures
        position_from(s, sep, from) == position_from(s, sep, to),
    decreases to - from,
{
    if from < to {
        lemma_no_occurrence_before(s, sep, from + 1, to);
        if from + sep.len() <= s.len() && occurs_at(s, sep, from) {
            assert(s.subrange(from, from + sep.len())[0] == s[from]);
        }
        lemma_position_from(s, sep, to);
    }
}

/// Splitting what was joined gives the parts back, if none of them holds the
/// first character of the separator.
pub proof fn lemma_split_undoes_join(list: Seq<Seq<char>>, sep: Seq<char>)
    requires
        list.len() > 0,
        sep.len() > 0,
        forall|k: int, i: int|
            0 <= k < list.len() && 0 <= i < list[k].len() ==> #[trigger] list[k][i] != sep[0],
    ensures
        parts(joined(list, sep), sep) == list,
    decreases list.len(),
{
    let s = joined(list, sep);
    let head = list[0];
    if list.len() == 1 {
        lemma_no_occurrence_before(s, sep, 0, s.len() as int);
        assert(parts(s, sep) =~= list);
    } else {
        let rest = list.drop_first();
        lemma_joined_front(list, sep);
        assert forall|i: int| 0 <= i < head.len() implies #[trigger] s[i] != sep[0] by {
            assert(s[i] == list[0][i]);
        }
        let n = head.len() as int;
        lemma_no_occurrence_before(s, sep, 0, n);
        assert(s.subrange(n, n + sep.len()) =~= sep);
        assert(occurs_at(s, sep, n));
        assert(s.take(n) =~= head);
        assert(s.skip(n + sep.len()) =~= joined(rest, sep));
        assert forall|k: int, i: int|
            0 <= k < rest.len() && 0 <= i < rest[k].len() implies #[trigger] rest[k][i]
            != sep[0] by {
            assert(rest[k][i] == list[k + 1][i]);
        }
        lemma_split_undoes_join(rest, sep);
        assert(seq![head] + rest =~= list);
    }
}

// ---------------------------------------------------------------------------
// Named values
// ---------------------------------------------------------------------------
/// What a list of named values holds: names with their values.
pub open spec fn pairs(fields: Seq<(String, String)>) -> Seq<(Seq<char>, Seq<char>)> {
    fields.map_values(|field: (String, String)| (field.0@, field.1@))
}

/// The first value of this name.
pub open spec fn value_named(fields: Seq<(Seq<char>, Seq<char>)>, name: Seq<char>) -> Option<
    Seq<char>,
>
    decreases fields.len(),
{
    if fields.len() == 0 {
        None
    } else if fields[0].0 == name {
        Some(fields[0].1)
    } else {
        value_named(fields.drop_first(), name)
    }
}

/// The first value of this name.
pub fn find_value<'a>(fields: &'a [(String, String)], name: &str) -> (res: Option<&'a str>)
    ensures
        match res {
            Some(value) => value_named(pairs(fields@), name@) == Some(value@),
            None => value_named(pairs(fields@), name@) is None,
        },
{
    let ghost all = pairs(fields@);
    let mut i: usize = 0;
    assert(all.skip(0) =~= all);
    while i < fields.len()
        invariant
            i <= fields@.len(),
            all == pairs(fields@),
            value_named(all, name@) == value_named(all.skip(i as int), name@),
        decreases fields@.len() - i,
    {
        assert(all.skip(i as int)[0] == (fields@[i as int].0@, fields@[i as int].1@));
        if same(fields[i].0.as_str(), name) {
            return Some(fields[i].1.as_str());
        }
        assert(all.skip(i as int).drop_first() =~= all.skip(i + 1));
        i += 1;
    }
    None
}

// ---------------------------------------------------------------------------
// Numbers
// ---------------------------------------------------------------------------
/// The character for a digit below ten.
pub open spec fn digit_char(d: nat) -> char {
    (0x30 + d) as char
}

/// `n` in decimal notation.
pub open spec fn decimal(n: nat) -> Seq<char>
    decreases n,
{
    if n < 10 {
        seq![digit_char(n)]
    } else {
        decimal(n / 10).push(digit_char(n % 10))
    }
}

/// The number in decimal notation.
pub fn to_decimal(n: u64) -> (res: String)
    ensures
        res@ == decimal(n as nat),
    decreases n,
{
    let digit: u8 = (n % 10) as u8;
    if n < 10 {
        let mut out = String::new();
        out.push((0x30 + digit) as char);
        assert(out@ =~= seq![digit_char(n as nat)]);
        out
    } else {
        let mut out = to_decimal(n / 10);
        out.push((0x30 + digit) as char);
        out
    }
}

/// ASCII digits only.
pub open spec fn all_digits(s: Seq<char>) -> bool {
    forall|i: int| 0 <= i < s.len() ==> 0x30 <= #[trigger] s[i] as u32 <= 0x39
}

/// The number that a sequence of digits denotes.
pub open spec fn digits_value(s: Seq<char>) -> nat
    decreases s.len(),
{
    if s.len() == 0 {
        0
    } else {
        digits_value(s.drop_last()) * 10 + (s.last() as u32 - 0x30) as nat
    }
}

/// The unsigned number that `s` denotes, if it denotes one up to `max`: an
/// optional plus sign and at least one digit.
pub open spec fn parsed_unsigned(s: Seq<char>, max: nat) -> Option<nat> {
    let digits = if s.len() > 0 && s[0] == '+' {
        s.skip(1)
    } else {
        s
    };
    if digits.len() > 0 && all_digits(digits) && digits_value(digits) <= max {
        Some(digits_value(digits))
    } else {
        None
    }
}

proof fn lemma_digits_value_grows(s: Seq<char>, i: int)
    requires
        0 <= i <= s.len(),
    ensures
        digits_value(s.take(i)) <= digits_value(s),
    decreases s.len() - i,
{
    if i < s.len() {
        assert(s.take(i + 1).drop_last() =~= s.take(i));
        lemma_digits_value_grows(s, i + 1);
    } else {
        assert(s.take(i) =~= s);
    }
}

/// The unsigned number that the text denotes, if it denotes one up to `max`.
pub fn parse_unsigned(s: &str, max: u64) -> (res: Option<u64>)
    ensures
        match res {
            Some(n) => parsed_unsigned(s@, max as nat) == Some(n as nat),
            None => parsed_unsigned(s@, max as nat) is None,
        },
{
    let chars = to_chars(s);
    let start: usize = if chars.len() > 0 && chars[0] == '+' {
        1
    } else {
        0
    };
    let ghost digits = chars@.skip(start as int);
    assert(chars@.skip(0) =~= chars@);
    if start == chars.len() {
        return None;
    }
    let mut value: u64 = 0;
    let mut i: usize = start;
    assert(digits.take(0) =~= Seq::<char>::empty());
    while i < chars.len()
        invariant
            start <= i <= chars@.len(),
            digits == chars@.skip(start as int),
            digits == (if s@.len() > 0 && s@[0] == '+' {
                s@.skip(1)
            } else {
                s@
            }),
            forall|k: int| 0 <= k < i - start ==> 0x30 <= #[trigger] digits[k] as u32 <= 0x39,
            value == digits_value(digits.take(i - start)),
            value <= max,
        decreases chars@.len() - i,
    {
        let c: char = chars[i];
        let u: u32 = c as u32;
        assert(digits[i - start] == c);
        if u < 0x30 || 0x39 < u {
            assert(!all_digits(digits));
            return None;
        }
        let d: u64 = (u - 0x30) as u64;
        proof {
            assert(digits.take(i - start + 1).drop_last() =~= digits.take(i - start));
            assert(digits.take(i - start + 1).last() == c);
            lemma_digits_value_grows(digits, i - start + 1);
        }
        if value > max / 10 || d > max - value * 10 {
            return None;
        }
        value = value * 10 + d;
        i += 1;
    }
    assert(digits.take(i - start) =~= digits);
    Some(value)
}

// ---------------------------------------------------------------------------
// Laws
// ---------------------------------------------------------------------------
/// Trimming takes away the white space around a text and nothing within.
pub proof fn law_trimming_takes_what_is_around(
    before: Seq<char>,
    s: Seq<char>,
    after: Seq<char>,
)
    requires
        blank(before),
        blank(after),
        s.len() > 0,
        !is_white_space(s[0]),
        !is_white_space(s.last()),
    ensures
        trimmed(before + s + after) == s,
        trimmed(before).len() == 0,
{
    lemma_trim_start_of(before, s + after);
    assert(before + s + after =~= before + (s + after));
    assert((s + after)[0] == s[0]);
    lemma_trim_end_of(s, after);
    lemma_trim_start_of_blank(before);
    assert(trim_end(Seq::<char>::empty()) =~= Seq::empty());
}

proof fn lemma_trim_start_of(before: Seq<char>, s: Seq<char>)
    requires
        blank(before),
        s.len() > 0,
        !is_white_space(s[0]),
    ensures
        trim_start(before + s) == s,
    decreases before.len(),
{
    if before.len() == 0 {
        assert(before + s =~= s);
    } else {
        let rest = before.drop_first();
        assert forall|i: int| 0 <= i < rest.len() implies is_white_space(#[trigger] rest[i]) by {
            assert(rest[i] == before[i + 1]);
        }
        lemma_trim_start_of(rest, s);
        assert((before + s)[0] == before[0]);
        assert((before + s).drop_first() =~= rest + s);
    }
}

proof fn lemma_trim_start_of_blank(before: Seq<char>)
    requires
        blank(before),
    ensures
        trim_start(before) == Seq::<char>::empty(),
    decreases before.len(),
{
    if before.len() == 0 {
        assert(before =~= Seq::empty());
    } else {
        let rest = before.drop_first();
        assert forall|i: int| 0 <= i < rest.len() implies is_white_space(#[trigger] rest[i]) by {
            assert(rest[i] == before[i + 1]);
        }
        lemma_trim_start_of_blank(rest);
        assert(is_white_space(before[0]));
    }
}

proof fn lemma_trim_end_of(s: Seq<char>, after: Seq<char>)
    requires
        blank(after),
        s.len() > 0,
        !is_white_space(s.last()),
    ensures
        trim_end(s + after) == s,
    decreases after.len(),
{
    if after.len() == 0 {
        assert(s + after =~= s);
    } else {
        let rest = after.drop_last();
        assert forall|i: int| 0 <= i < rest.len() implies is_white_space(#[trigger] rest[i]) by {
            assert(rest[i] == after[i]);
        }
        lemma_trim_end_of(s, rest);
        assert((s + after).last() == after[after.len() - 1]);
        assert((s + after).drop_last() =~= s + rest);
    }
}

/// A number in decimal notation reads as that number again, and begins with a
/// zero only if it is zero.
pub proof fn law_decimal_reads_back(n: nat, max: nat)
    requires
        n <= max,
    ensures
        parsed_unsigned(decimal(n), max) == Some(n),
        decimal(n)[0] == '0' <==> n == 0,
{
    lemma_decimal(n);
}

proof fn lemma_decimal(n: nat)
    ensures
        decimal(n).len() > 0,
        all_digits(decimal(n)),
        digits_value(decimal(n)) == n,
        decimal(n)[0] == '0' <==> n == 0,
        decimal(n)[0] != '+',
    decreases n,
{
    lemma_digit_char(n % 10);
    if n < 10 {
        let s = seq![digit_char(n)];
        assert(s.drop_last() =~= Seq::empty());
        assert(digits_value(Seq::<char>::empty()) == 0);
        assert(digits_value(s) == n);
    } else {
        let before = decimal(n / 10);
        lemma_decimal(n / 10);
        let s = before.push(digit_char(n % 10));
        assert(s.drop_last() =~= before);
        assert(s[0] == before[0]);
        assert(n / 10 * 10 + n % 10 == n);
    }
}

proof fn lemma_digit_char(d: nat)
    requires
        d < 10,
    ensures
        digit_char(d) as u32 == 0x30 + d,
        digit_char(d) != '+',
        digit_char(d) == '0' <==> d == 0,
{
}

/// The first value of a name is found, wherever it stands.
pub proof fn law_the_first_value_is_found(
    fields: Seq<(Seq<char>, Seq<char>)>,
    name: Seq<char>,
    i: int,
)
    requires
        0 <= i <= fields.len(),
        forall|j: int| 0 <= j < i ==> (#[trigger] fields[j]).0 != name,
    ensures
        i == fields.len() ==> value_named(fields, name) is None,
        i < fields.len() && fields[i].0 == name ==> value_named(fields, name) == Some(fields[i].1),
    decreases i,
{
    if i > 0 {
        let rest = fields.drop_first();
        assert forall|j: int| 0 <= j < i - 1 implies (#[trigger] rest[j]).0 != name by {
            assert(rest[j] == fields[j + 1]);
        }
        law_the_first_value_is_found(rest, name, i - 1);
    }
}

/// What counts as white space is Unicode's, and control codes are those of ASCII
/// and of Latin-1.
pub proof fn law_character_classes(c: char)
    ensures
        is_white_space(c) <==> {
            let u = c as u32;
            u == 9 || u == 10 || u == 11 || u == 12 || u == 13 || u == 32 || u == 133 || u == 160 || u
                == 5760 || 8192 <= u <= 8202 || u == 8232 || u == 8233 || u == 8239 || u == 8287 || u
                == 12288
        },
        is_control(c) <==> (c as u32) < 32 || 127 <= c as u32 <= 159,
{
}

/// Changing case changes ASCII letters only, and each to the same letter in the
/// other case.
pub proof fn law_case_changes_letters_only(c: char)
    ensures
        'A' <= c <= 'Z' ==> ascii_lower(c) as u32 == c as u32 + 32 && ascii_upper(c) == c,
        'a' <= c <= 'z' ==> ascii_upper(c) as u32 == c as u32 - 32 && ascii_lower(c) == c,
        !('A' <= c <= 'Z') && !('a' <= c <= 'z') ==> ascii_lower(c) == c && ascii_upper(c) == c,
{
}

/// Only digits are read as a number, with or without a plus sign before them, and
/// nothing over the maximum.
pub proof fn law_only_digits_are_read(s: Seq<char>, max: nat)
    ensures
        parsed_unsigned(s, max) matches Some(n) ==> {
            &&& n <= max
            &&& s.len() > 0
            &&& s[0] == '+' ==> s.len() > 1
            &&& forall|i: int|
                0 <= i < s.len() && !(i == 0 && s[0] == '+') ==> 0x30 <= (#[trigger] s[i]) as u32
                    <= 0x39
        },
        s.len() > 0 && s[0] != '+' ==> parsed_unsigned(seq!['+'] + s, max) == parsed_unsigned(s, max),
{
    if parsed_unsigned(s, max) is Some && s[0] == '+' {
        assert forall|i: int| 0 < i < s.len() implies 0x30 <= (#[trigger] s[i]) as u32
            <= 0x39 by {
            let rest = s.skip(1);
            assert(rest[i - 1] == s[i]);
            assert(0x30 <= rest[i - 1] as u32 <= 0x39);
        }
    }
    assert((seq!['+'] + s).skip(1) =~= s);
    assert((seq!['+'] + s)[0] == '+');
}

} // verus!

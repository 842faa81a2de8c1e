//! JSON text: objects and arrays around values that are JSON text already.
use vstd::prelude::*;

use crate::text::{decimal, has, join, joined, occurs_at, pairs, texts, to_decimal};

verus! {

/// A digit of hexadecimal notation.
pub open spec fn hex_digit(d: int) -> char {
    if d < 10 {
        (0x30 + d) as char
    } else {
        (0x61 + d - 10) as char
    }
}

/// A character as it stands in a JSON string.
pub open spec fn escaped_char(c: char) -> Seq<char> {
    let u = c as u32;
    if c == '"' || c == '\\' {
        seq!['\\', c]
    } else if u == 0x8 {
        seq!['\\', 'b']
    } else if u == 0x9 {
        seq!['\\', 't']
    } else if u == 0xa {
        seq!['\\', 'n']
    } else if u == 0xc {
        seq!['\\', 'f']
    } else if u == 0xd {
        seq!['\\', 'r']
    } else if u < 0x20 {
        seq!['\\', 'u', '0', '0', hex_digit(u as int / 16), hex_digit(u as int % 16)]
    } else {
        seq![c]
    }
}

/// A text as it stands in a JSON string, without the quotes around it.
pub open spec fn escaped(s: Seq<char>) -> Seq<char>
    decreases s.len(),
{
    if s.len() == 0 {
        Seq::empty()
    } else {
        escaped(s.drop_last()) + escaped_char(s.last())
    }
}

/// A text as a JSON string.
pub open spec fn quoted(s: Seq<char>) -> Seq<char> {
    seq!['"'] + escaped(s) + seq!['"']
}

/// `serde_json::to_string` of a `str`: the text as a JSON string. Quotes,
/// backslashes and the control codes below U+0020 are escaped, with a letter
/// where JSON has one and in hexadecimal where it has none; every other character
/// stands for itself. A text always serializes.
#[verifier::external_body]
fn quote(s: &str) -> (res: String)
    ensures
        res@ == quoted(s@),
{
    serde_json::to_string(s).unwrap()
}

/// The text at a JSON pointer in a JSON document, if the document is JSON and a
/// text stands there.
pub uninterp spec fn text_at(document: Seq<char>, pointer: Seq<char>) -> Option<Seq<char>>;

/// `serde_json::from_str` to a `Value`, with `Value::pointer` and `Value::as_str`
/// of what it gives: the text at a JSON pointer, if the document is JSON and a
/// text stands there.
#[verifier::external_body]
fn find_text(document: &str, pointer: &str) -> (res: Option<String>)
    ensures
        match res {
            Some(text) => text_at(document@, pointer@) == Some(text@),
            None => text_at(document@, pointer@) is None,
        },
{
    let value: serde_json::Value = serde_json::from_str(document).ok()?;
    value.pointer(pointer)?.as_str().map(str::to_owned)
}

/// The text at a JSON pointer in a JSON document.
pub fn json_text_at(document: &str, pointer: &str) -> (res: Option<String>)
    ensures
        match res {
            Some(text) => text_at(document@, pointer@) == Some(text@),
            None => text_at(document@, pointer@) is None,
        },
{
    find_text(document, pointer)
}

/// A member of an object: its name and its value.
pub open spec fn member_of(name: Seq<char>, value: Seq<char>) -> Seq<char> {
    quoted(name) + ":"@ + value
}

/// The members of an object, without its braces.
pub open spec fn members_of(fields: Seq<(Seq<char>, Seq<char>)>) -> Seq<Seq<char>> {
    fields.map_values(|field: (Seq<char>, Seq<char>)| member_of(field.0, field.1))
}

/// An object with these members.
pub open spec fn object_of(fields: Seq<(Seq<char>, Seq<char>)>) -> Seq<char> {
    "{"@ + joined(members_of(fields), ","@) + "}"@
}

/// An array of these items.
pub open spec fn array_of(items: Seq<Seq<char>>) -> Seq<char> {
    "["@ + joined(items, ","@) + "]"@
}

/// An array of these texts.
pub open spec fn strings_of(items: Seq<Seq<char>>) -> Seq<char> {
    array_of(items.map_values(|item: Seq<char>| quoted(item)))
}

/// A flag in JSON.
pub open spec fn flag_of(flag: bool) -> Seq<char> {
    if flag {
        "true"@
    } else {
        "false"@
    }
}

pub fn json_string(s: &str) -> (res: String)
    ensures
        res@ == quoted(s@),
{
    quote(s)
}

pub fn json_flag(flag: bool) -> (res: String)
    ensures
        res@ == flag_of(flag),
{
    if flag {
        "true".to_owned()
    } else {
        "false".to_owned()
    }
}

pub fn json_number(n: u64) -> (res: String)
    ensures
        res@ == decimal(n as nat),
{
    to_decimal(n)
}

/// An object with these members, of which the values are JSON already.
pub fn json_object(fields: &Vec<(String, String)>) -> (res: String)
    ensures
        res@ == object_of(pairs(fields@)),
{
    let ghost all = pairs(fields@);
    let mut members: Vec<String> = Vec::new();
    let mut i: usize = 0;
    while i < fields.len()
        invariant
            i <= fields@.len(),
            all == pairs(fields@),
            members@.len() == i,
            forall|k: int|
                0 <= k < i ==> (#[trigger] members@[k])@ == member_of(all[k].0, all[k].1),
        decreases fields@.len() - i,
    {
        let mut member = json_string(fields[i].0.as_str());
        member.append(":");
        member.append(fields[i].1.as_str());
        members.push(member);
        i += 1;
    }
    assert(texts(members@) =~= members_of(all));
    let mut out = "{".to_owned();
    let inner = join(&members, ",");
    out.append(inner.as_str());
    out.append("}");
    out
}

/// An array of these items, which are JSON already.
pub fn json_array(items: &Vec<String>) -> (res: String)
    ensures
        res@ == array_of(texts(items@)),
{
    let mut out = "[".to_owned();
    let inner = join(items, ",");
    out.append(inner.as_str());
    out.append("]");
    out
}

/// An array of these texts.
pub fn json_strings(items: &Vec<String>) -> (res: String)
    ensures
        res@ == strings_of(texts(items@)),
{
    let mut out: Vec<String> = Vec::new();
    let mut i: usize = 0;
    while i < items.len()
        invariant
            i <= items@.len(),
            out@.len() == i,
            forall|k: int| 0 <= k < i ==> (#[trigger] out@[k])@ == quoted(items@[k]@),
        decreases items@.len() - i,
    {
        out.push(json_string(items[i].as_str()));
        i += 1;
    }
    assert(texts(out@) =~= texts(items@).map_values(|item: Seq<char>| quoted(item)));
    json_array(&out)
}

// ---------------------------------------------------------------------------
// Laws
// ---------------------------------------------------------------------------
proof fn lemma_escaped_front(s: Seq<char>)
    requires
        s.len() > 0,
    ensures
        escaped(s) == escaped_char(s[0]) + escaped(s.drop_first()),
    decreases s.len(),
{
    if s.len() == 1 {
        assert(s.drop_last() =~= Seq::empty());
        assert(s.drop_first() =~= Seq::empty());
        assert(escaped(s) =~= escaped_char(s[0]) + escaped(s.drop_first()));
    } else {
        lemma_escaped_front(s.drop_last());
        assert(s.drop_last().drop_first() =~= s.drop_first().drop_last());
        assert(escaped(s) =~= escaped_char(s[0]) + escaped(s.drop_first()));
    }
}

/// No escape is the beginning of another.
proof fn lemma_escapes_differ(c: char, d: char, x: Seq<char>, y: Seq<char>)
    requires
        escaped_char(c) + x == escaped_char(d) + y,
    ensures
        c == d,
        x == y,
{
    let a = escaped_char(c) + x;
    let b = escaped_char(d) + y;
    let n = escaped_char(c).len() as int;
    assert(a[0] == escaped_char(c)[0] && b[0] == escaped_char(d)[0]);
    if a[0] == '\\' {
        assert(a[1] == escaped_char(c)[1] && b[1] == escaped_char(d)[1]);
        if a[1] == 'u' {
            assert(a[4] == escaped_char(c)[4] && b[4] == escaped_char(d)[4]);
            assert(a[5] == escaped_char(c)[5] && b[5] == escaped_char(d)[5]);
        }
    }
    assert(c == d);
    assert(a.skip(n) =~= x);
    assert(b.skip(n) =~= y);
}

proof fn lemma_escaped_is_injective(s: Seq<char>, t: Seq<char>)
    requires
        escaped(s) == escaped(t),
    ensures
        s == t,
    decreases s.len(),
{
    if s.len() > 0 {
        lemma_escaped_front(s);
        assert(escaped(s).len() > 0);
        assert(t.len() > 0);
        lemma_escaped_front(t);
        lemma_escapes_differ(s[0], t[0], escaped(s.drop_first()), escaped(t.drop_first()));
        lemma_escaped_is_injective(s.drop_first(), t.drop_first());
        assert(s =~= seq![s[0]] + s.drop_first());
        assert(t =~= seq![t[0]] + t.drop_first());
    } else if t.len() > 0 {
        lemma_escaped_front(t);
        assert(escaped(t).len() > 0);
    } else {
        assert(s =~= t);
    }
}

/// Different texts are quoted differently: nothing that one says can pass for
/// another.
pub proof fn law_quoting_is_injective(s: Seq<char>, t: Seq<char>)
    requires
        quoted(s) == quoted(t),
    ensures
        s == t,
{
    let n = quoted(s).len() as int;
    assert(quoted(s).subrange(1, n - 1) =~= escaped(s));
    assert(quoted(t).subrange(1, n - 1) =~= escaped(t));
    lemma_escaped_is_injective(s, t);
}

/// Where an item stands among the joined ones.
proof fn lemma_joined_at(list: Seq<Seq<char>>, sep: Seq<char>, i: int) -> (at: int)
    requires
        0 <= i < list.len(),
    ensures
        occurs_at(joined(list, sep), list[i], at),
    decreases list.len(),
{
    let whole = joined(list, sep);
    let n = list[i].len() as int;
    if list.len() == 1 {
        assert(whole.subrange(0, n) =~= list[i]);
        0
    } else if i == list.len() - 1 {
        let at = whole.len() - n;
        assert(whole.subrange(at, at + n) =~= list[i]);
        at
    } else {
        let before = joined(list.drop_last(), sep);
        let at = lemma_joined_at(list.drop_last(), sep, i);
        assert(list.drop_last()[i] == list[i]);
        assert(before.subrange(at, at + n) == list[i]);
        assert(whole.subrange(at, at + n) =~= before.subrange(at, at + n));
        at
    }
}

/// Every member of an object stands in it, its name quoted and its value behind
/// the colon.
pub proof fn law_members_stand_in_their_object(fields: Seq<(Seq<char>, Seq<char>)>, i: int)
    requires
        0 <= i < fields.len(),
    ensures
        has(object_of(fields), quoted(fields[i].0) + ":"@ + fields[i].1),
{
    let inner = joined(members_of(fields), ","@);
    let at = lemma_joined_at(members_of(fields), ","@, i);
    let member = quoted(fields[i].0) + ":"@ + fields[i].1;
    let whole = object_of(fields);
    let open = "{"@.len() as int;
    assert(members_of(fields)[i] == member);
    assert(inner.subrange(at, at + member.len()) == member);
    assert(whole.subrange(open + at, open + at + member.len()) =~= inner.subrange(
        at,
        at + member.len(),
    ));
    assert(occurs_at(whole, member, open + at));
}

/// Every item of an array stands in it.
pub proof fn law_items_stand_in_their_array(items: Seq<Seq<char>>, i: int)
    requires
        0 <= i < items.len(),
    ensures
        has(array_of(items), items[i]),
{
    let inner = joined(items, ","@);
    let at = lemma_joined_at(items, ","@, i);
    let whole = array_of(items);
    let open = "["@.len() as int;
    assert(inner.subrange(at, at + items[i].len()) == items[i]);
    assert(whole.subrange(open + at, open + at + items[i].len()) =~= inner.subrange(
        at,
        at + items[i].len(),
    ));
    assert(occurs_at(whole, items[i], open + at));
}

/// Text without quotes, backslashes and control codes stands in a JSON string as
/// it is.
pub proof fn law_plain_text_is_quoted_as_it_is(s: Seq<char>)
    requires
        forall|i: int|
            0 <= i < s.len() ==> #[trigger] s[i] != '"' && s[i] != '\\' && s[i] as u32 >= 32,
    ensures
        quoted(s) == seq!['"'] + s + seq!['"'],
    decreases s.len(),
{
    lemma_plain_text(s);
}

proof fn lemma_plain_text(s: Seq<char>)
    requires
        forall|i: int|
            0 <= i < s.len() ==> #[trigger] s[i] != '"' && s[i] != '\\' && s[i] as u32 >= 32,
    ensures
        escaped(s) == s,
    decreases s.len(),
{
    if s.len() > 0 {
        let rest = s.drop_last();
        assert forall|i: int| 0 <= i < rest.len() implies #[trigger] rest[i] != '"' && rest[i]
            != '\\' && rest[i] as u32 >= 32 by {
            assert(rest[i] == s[i]);
        }
        lemma_plain_text(rest);
        assert(s.last() == s[s.len() - 1]);
        assert(rest + seq![s.last()] =~= s);
    } else {
        assert(escaped(s) =~= s);
    }
}

} // verus!

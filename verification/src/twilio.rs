//! Twilio webhooks: their form bodies, their signatures, and the commands that
//! carriers reserve.
use vstd::prelude::*;
use vstd::relations::total_ordering;
use vstd::seq_lib::lemma_sorted_unique;
use vstd::utf8::encode_utf8;

use base64::Engine;
use hmac::Mac;

use crate::text::{
    ascii_uppercase, blank, find_value, is_white_space, law_trimming_takes_what_is_around, pairs,
    same, to_ascii_uppercase, to_chars, trim, trimmed, value_named,
};

verus! {

// ---------------------------------------------------------------------------
// Form fields
// ---------------------------------------------------------------------------
/// The name-value pairs that `url::form_urlencoded::parse` reads off a form body.
pub uninterp spec fn form_pairs(body: Seq<u8>) -> Seq<(Seq<char>, Seq<char>)>;

/// `url::form_urlencoded::parse`: the name-value pairs of a form body, percent
/// decoded, in the order in which they stand there.
#[verifier::external_body]
fn decode_form(body: &[u8]) -> (res: Vec<(String, String)>)
    ensures
        pairs(res@) == form_pairs(body@),
{
    url::form_urlencoded::parse(body).into_owned().collect()
}

/// Decodes an `application/x-www-form-urlencoded` request body.
///
/// A vector is intentional: Twilio signs every submitted pair, including
/// duplicate field names, and may add fields to webhook requests over time.
pub fn parse_form_body(body: &[u8]) -> (res: Vec<(String, String)>)
    ensures
        pairs(res@) == form_pairs(body@),
{
    decode_form(body)
}

/// The value of the first field of this name.
pub fn form_field<'a>(fields: &'a [(String, String)], name: &str) -> (res: Option<&'a str>)
    ensures
        match res {
            Some(value) => value_named(pairs(fields@), name@) == Some(value@),
            None => value_named(pairs(fields@), name@) is None,
        },
{
    find_value(fields, name)
}

// ---------------------------------------------------------------------------
// The order of the fields in a signature
// ---------------------------------------------------------------------------
/// `a` does not come after `b` in the lexicographic order of code points.
pub open spec fn not_after(a: Seq<char>, b: Seq<char>) -> bool
    decreases a.len(),
{
    if a.len() == 0 {
        true
    } else if b.len() == 0 {
        false
    } else if a[0] == b[0] {
        not_after(a.drop_first(), b.drop_first())
    } else {
        (a[0] as u32) < (b[0] as u32)
    }
}

/// Fields that are sorted by name, with one more in its place: after those whose
/// names do not come after its own.
pub open spec fn placed(
    sorted: Seq<(Seq<char>, Seq<char>)>,
    field: (Seq<char>, Seq<char>),
) -> Seq<(Seq<char>, Seq<char>)>
    decreases sorted.len(),
{
    if sorted.len() == 0 || not_after(sorted.last().0, field.0) {
        sorted.push(field)
    } else {
        placed(sorted.drop_last(), field).push(sorted.last())
    }
}

/// The fields sorted by name; fields of the same name stay in their order.
pub open spec fn by_name(fields: Seq<(Seq<char>, Seq<char>)>) -> Seq<(Seq<char>, Seq<char>)>
    decreases fields.len(),
{
    if fields.len() == 0 {
        Seq::empty()
    } else {
        placed(by_name(fields.drop_last()), fields.last())
    }
}

fn comes_not_after(a: &str, b: &str) -> (res: bool)
    ensures
        res == not_after(a@, b@),
{
    let x = to_chars(a);
    let y = to_chars(b);
    let mut i: usize = 0;
    assert(a@.skip(0) =~= a@);
    assert(b@.skip(0) =~= b@);
    while i < x.len() && i < y.len()
        invariant
            x@ == a@,
            y@ == b@,
            i <= x@.len(),
            i <= y@.len(),
            not_after(a@, b@) == not_after(a@.skip(i as int), b@.skip(i as int)),
        decreases x@.len() - i,
    {
        if x[i] != y[i] {
            return (x[i] as u32) < (y[i] as u32);
        }
        assert(a@.skip(i as int).drop_first() =~= a@.skip(i + 1));
        assert(b@.skip(i as int).drop_first() =~= b@.skip(i + 1));
        i += 1;
    }
    i == x.len()
}

fn copy_field(field: &(String, String)) -> (res: (String, String))
    ensures
        res.0@ == field.0@,
        res.1@ == field.1@,
{
    (field.0.clone(), field.1.clone())
}

/// Puts a field in its place among fields that are sorted by name.
fn place(sorted: &mut Vec<(String, String)>, field: (String, String))
    requires
        old(sorted)@.len() < usize::MAX,
    ensures
        pairs(final(sorted)@) == placed(pairs(old(sorted)@), (field.0@, field.1@)),
        final(sorted)@.len() == old(sorted)@.len() + 1,
{
    let ghost all = pairs(sorted@);
    let ghost new = (field.0@, field.1@);
    let mut i: usize = sorted.len();
    assert(all.take(i as int) =~= all);
    assert(placed(all, new) =~= placed(all.take(i as int), new) + all.skip(i as int));
    while i > 0 && !comes_not_after(sorted[i - 1].0.as_str(), field.0.as_str())
        invariant
            i <= sorted@.len(),
            sorted@ == old(sorted)@,
            all == pairs(sorted@),
            new == (field.0@, field.1@),
            placed(all, new) == placed(all.take(i as int), new) + all.skip(i as int),
        decreases i,
    {
        proof {
            let upto = all.take(i as int);
            assert(upto.drop_last() =~= all.take(i - 1));
            assert(upto.last() == all[i - 1]);
            assert(placed(upto, new) + all.skip(i as int) =~= placed(all.take(i - 1), new)
                + all.skip(i - 1));
        }
        i -= 1;
    }
    proof {
        let upto = all.take(i as int);
        if i > 0 {
            assert(upto.last() == all[i - 1]);
        }
        assert(placed(upto, new) == upto.push(new));
    }
    sorted.insert(i, field);
    assert(pairs(sorted@) =~= all.take(i as int).push(new) + all.skip(i as int));
}

fn sort_fields(fields: &[(String, String)]) -> (res: Vec<(String, String)>)
    ensures
        pairs(res@) == by_name(pairs(fields@)),
{
    let ghost all = pairs(fields@);
    let mut out: Vec<(String, String)> = Vec::new();
    let mut i: usize = 0;
    assert(pairs(out@) =~= by_name(all.take(0)));
    while i < fields.len()
        invariant
            i <= fields@.len(),
            all == pairs(fields@),
            out@.len() == i,
            pairs(out@) == by_name(all.take(i as int)),
        decreases fields@.len() - i,
    {
        assert(all.take(i + 1).drop_last() =~= all.take(i as int));
        assert(all.take(i + 1).last() == (fields@[i as int].0@, fields@[i as int].1@));
        place(&mut out, copy_field(&fields[i]));
        i += 1;
    }
    assert(all.take(i as int) =~= all);
    out
}

// ---------------------------------------------------------------------------
// Signatures
// ---------------------------------------------------------------------------
/// The names and values of some fields, one after the other, in UTF-8.
pub open spec fn field_bytes(fields: Seq<(Seq<char>, Seq<char>)>) -> Seq<u8>
    decreases fields.len(),
{
    if fields.len() == 0 {
        Seq::empty()
    } else {
        field_bytes(fields.drop_last()) + encode_utf8(fields.last().0) + encode_utf8(
            fields.last().1,
        )
    }
}

/// What is signed: the public URL, and then the fields in the order of their
/// names.
pub open spec fn signed_bytes(
    public_url: Seq<char>,
    fields: Seq<(Seq<char>, Seq<char>)>,
) -> Seq<u8> {
    encode_utf8(public_url) + field_bytes(by_name(fields))
}

/// The HMAC-SHA1 tag of a message under a key.
pub uninterp spec fn hmac_sha1_tag(key: Seq<u8>, message: Seq<u8>) -> Seq<u8>;

/// The bytes that a text stands for in standard Base64, if it is such a text.
pub uninterp spec fn base64_bytes(text: Seq<char>) -> Option<Seq<u8>>;

/// The standard Base64 of some bytes.
pub uninterp spec fn base64_text(bytes: Seq<u8>) -> Seq<char>;

/// The characters of standard Base64.
pub open spec fn is_base64_char(c: char) -> bool {
    let u = c as u32;
    0x30 <= u <= 0x39 || 0x41 <= u <= 0x5a || 0x61 <= u <= 0x7a || c == '+' || c == '/' || c == '='
}

/// `hmac::Hmac<sha1::Sha1>`, made from a key, fed a message and finalized: the
/// tag of the message, which has twenty bytes. A key may have any length.
#[verifier::external_body]
fn hmac_sha1(key: &[u8], message: &[u8]) -> (res: Vec<u8>)
    ensures
        res@ == hmac_sha1_tag(key@, message@),
        res@.len() == 20,
{
    let mut mac = hmac::Hmac::<sha1::Sha1>::new_from_slice(key).unwrap();
    mac.update(message);
    mac.finalize().into_bytes().to_vec()
}

/// `verify_slice` of the same MAC: whether a tag is the message's tag, compared
/// in constant time.
#[verifier::external_body]
fn hmac_sha1_matches(key: &[u8], message: &[u8], tag: &[u8]) -> (res: bool)
    ensures
        res == (tag@ == hmac_sha1_tag(key@, message@)),
{
    let mut mac = hmac::Hmac::<sha1::Sha1>::new_from_slice(key).unwrap();
    mac.update(message);
    mac.verify_slice(tag).is_ok()
}

/// `encode` of `base64::engine::general_purpose::STANDARD`: the bytes in
/// standard Base64, which holds only the characters of its alphabet and which
/// `decode` of the same engine reads back.
#[verifier::external_body]
fn base64_encode(bytes: &[u8]) -> (res: String)
    requires
        bytes@.len() <= usize::MAX / 4,
    ensures
        res@ == base64_text(bytes@),
        base64_bytes(res@) == Some(bytes@),
        forall|i: int| 0 <= i < res@.len() ==> is_base64_char(#[trigger] res@[i]),
{
    base64::engine::general_purpose::STANDARD.encode(bytes)
}

/// `decode` of `base64::engine::general_purpose::STANDARD`: the bytes that a
/// text stands for, if it is standard Base64.
#[verifier::external_body]
fn base64_decode(text: &str) -> (res: Option<Vec<u8>>)
    ensures
        match res {
            Some(bytes) => base64_bytes(text@) == Some(bytes@),
            None => base64_bytes(text@) is None,
        },
{
    base64::engine::general_purpose::STANDARD.decode(text).ok()
}

fn append_text(bytes: &mut Vec<u8>, text: &str)
    ensures
        final(bytes)@ == old(bytes)@ + encode_utf8(text@),
{
    let mut tail = text.as_bytes_vec();
    bytes.append(&mut tail);
}

/// The bytes that a signature covers.
fn message_bytes(public_url: &str, fields: &[(String, String)]) -> (res: Vec<u8>)
    ensures
        res@ == signed_bytes(public_url@, pairs(fields@)),
{
    let sorted = sort_fields(fields);
    let ghost all = pairs(sorted@);
    let mut out: Vec<u8> = Vec::new();
    append_text(&mut out, public_url);
    let ghost head = encode_utf8(public_url@);
    let mut i: usize = 0;
    assert(out@ =~= head + field_bytes(all.take(0)));
    while i < sorted.len()
        invariant
            i <= sorted@.len(),
            all == pairs(sorted@),
            out@ == head + field_bytes(all.take(i as int)),
        decreases sorted@.len() - i,
    {
        proof {
            assert(all.take(i + 1).drop_last() =~= all.take(i as int));
            assert(all.take(i + 1).last() == (sorted@[i as int].0@, sorted@[i as int].1@));
        }
        append_text(&mut out, sorted[i].0.as_str());
        append_text(&mut out, sorted[i].1.as_str());
        i += 1;
        assert(out@ =~= head + field_bytes(all.take(i as int)));
    }
    assert(all.take(i as int) =~= all);
    out
}

/// The signature of a request: the Base64 of the HMAC-SHA1 tag of what is
/// signed, under the account's token.
pub open spec fn signature_of(
    auth_token: Seq<char>,
    public_url: Seq<char>,
    fields: Seq<(Seq<char>, Seq<char>)>,
) -> Seq<char> {
    base64_text(hmac_sha1_tag(encode_utf8(auth_token), signed_bytes(public_url, fields)))
}

/// A signature that a request is accepted with: Base64 of the request's tag,
/// with or without white space around it.
pub open spec fn is_signature(
    auth_token: Seq<char>,
    public_url: Seq<char>,
    fields: Seq<(Seq<char>, Seq<char>)>,
    supplied: Seq<char>,
) -> bool {
    base64_bytes(trimmed(supplied)) == Some(
        hmac_sha1_tag(encode_utf8(auth_token), signed_bytes(public_url, fields)),
    )
}

/// Computes a Twilio webhook signature for an exact public request URL, which
/// is the externally visible one with its query string. The signature is
/// accepted by `verify_twilio_signature`.
pub fn twilio_signature(auth_token: &str, public_url: &str, fields: &[(String, String)]) -> (res:
    String)
    ensures
        res@ == signature_of(auth_token@, public_url@, pairs(fields@)),
        is_signature(auth_token@, public_url@, pairs(fields@), res@),
{
    let message = message_bytes(public_url, fields);
    let key = auth_token.as_bytes_vec();
    let tag = hmac_sha1(key.as_slice(), message.as_slice());
    let res = base64_encode(tag.as_slice());
    proof {
        lemma_trimming_keeps_base64(res@);
    }
    res
}

/// Validates a Twilio webhook signature, with the constant-time comparison of
/// the MAC's implementation.
pub fn verify_twilio_signature(
    auth_token: &str,
    public_url: &str,
    fields: &[(String, String)],
    supplied_signature: &str,
) -> (res: bool)
    ensures
        res == is_signature(auth_token@, public_url@, pairs(fields@), supplied_signature@),
{
    let supplied = trim(supplied_signature);
    match base64_decode(supplied.as_str()) {
        Some(signature) => {
            let message = message_bytes(public_url, fields);
            let key = auth_token.as_bytes_vec();
            hmac_sha1_matches(key.as_slice(), message.as_slice(), signature.as_slice())
        },
        None => false,
    }
}

proof fn lemma_trimming_keeps_base64(s: Seq<char>)
    requires
        forall|i: int| 0 <= i < s.len() ==> is_base64_char(#[trigger] s[i]),
    ensures
        trimmed(s) == s,
{
    assert(forall|i: int| 0 <= i < s.len() ==> !is_white_space(#[trigger] s[i]));
    if s.len() > 0 {
        assert(!is_white_space(s[0]));
        assert(!is_white_space(s.last()));
    }
}

// ---------------------------------------------------------------------------
// Compliance keywords
// ---------------------------------------------------------------------------
#[derive(Debug, Clone, Copy, PartialEq, Eq, Structural)]
pub enum ComplianceKeyword {
    Stop,
    Start,
    Help,
}

/// The carrier-compliance command that a message is, if it is one: the whole
/// message, in whatever case, with or without white space around it.
pub open spec fn command_of(body: Seq<char>) -> Option<ComplianceKeyword> {
    let word = ascii_uppercase(trimmed(body));
    if word == "STOP"@ || word == "STOPALL"@ || word == "UNSUBSCRIBE"@ || word == "CANCEL"@ || word
        == "END"@ || word == "QUIT"@ || word == "REVOKE"@ || word == "OPTOUT"@ {
        Some(ComplianceKeyword::Stop)
    } else if word == "START"@ || word == "UNSTOP"@ {
        Some(ComplianceKeyword::Start)
    } else if word == "HELP"@ || word == "INFO"@ {
        Some(ComplianceKeyword::Help)
    } else {
        None
    }
}

/// Recognizes exact carrier-compliance commands without treating ordinary
/// sentences such as "help me with Rust" as commands.
pub fn compliance_keyword(body: &str) -> (res: Option<ComplianceKeyword>)
    ensures
        res == command_of(body@),
{
    let said = trim(body);
    let upper = to_ascii_uppercase(said.as_str());
    let word = upper.as_str();
    if same(word, "STOP") || same(word, "STOPALL") || same(word, "UNSUBSCRIBE") || same(
        word,
        "CANCEL",
    ) || same(word, "END") || same(word, "QUIT") || same(word, "REVOKE") || same(word, "OPTOUT") {
        Some(ComplianceKeyword::Stop)
    } else if same(word, "START") || same(word, "UNSTOP") {
        Some(ComplianceKeyword::Start)
    } else if same(word, "HELP") || same(word, "INFO") {
        Some(ComplianceKeyword::Help)
    } else {
        None
    }
}

// ---------------------------------------------------------------------------
// Laws
// ---------------------------------------------------------------------------
proof fn lemma_not_after_reflexive(a: Seq<char>)
    ensures
        not_after(a, a),
    decreases a.len(),
{
    if a.len() > 0 {
        lemma_not_after_reflexive(a.drop_first());
    }
}

proof fn lemma_not_after_antisymmetric(a: Seq<char>, b: Seq<char>)
    requires
        not_after(a, b),
        not_after(b, a),
    ensures
        a == b,
    decreases a.len(),
{
    if a.len() > 0 && b.len() > 0 {
        lemma_not_after_antisymmetric(a.drop_first(), b.drop_first());
        assert(a =~= seq![a[0]] + a.drop_first());
        assert(b =~= seq![b[0]] + b.drop_first());
    } else {
        assert(a =~= b);
    }
}

proof fn lemma_not_after_transitive(a: Seq<char>, b: Seq<char>, c: Seq<char>)
    requires
        not_after(a, b),
        not_after(b, c),
    ensures
        not_after(a, c),
    decreases a.len(),
{
    if a.len() > 0 && b.len() > 0 && c.len() > 0 {
        if a[0] == b[0] && b[0] == c[0] {
            lemma_not_after_transitive(a.drop_first(), b.drop_first(), c.drop_first());
        }
    }
}

proof fn lemma_code_points(c: char, d: char)
    ensures
        c as u32 == d as u32 ==> c == d,
{
}

proof fn lemma_not_after_total(a: Seq<char>, b: Seq<char>)
    ensures
        not_after(a, b) || not_after(b, a),
    decreases a.len(),
{
    if a.len() > 0 && b.len() > 0 {
        lemma_code_points(a[0], b[0]);
        lemma_not_after_total(a.drop_first(), b.drop_first());
    }
}

/// The fields are sorted by name.
pub open spec fn sorted_by_name(fields: Seq<(Seq<char>, Seq<char>)>) -> bool {
    forall|i: int, j: int|
        0 <= i < j < fields.len() ==> not_after(
            (#[trigger] fields[i]).0,
            (#[trigger] fields[j]).0,
        )
}

/// The fields of one name, in their order.
pub open spec fn named(fields: Seq<(Seq<char>, Seq<char>)>, name: Seq<char>) -> Seq<
    (Seq<char>, Seq<char>),
> {
    fields.filter(|field: (Seq<char>, Seq<char>)| field.0 == name)
}

proof fn lemma_named_push(
    fields: Seq<(Seq<char>, Seq<char>)>,
    field: (Seq<char>, Seq<char>),
    name: Seq<char>,
)
    ensures
        named(fields.push(field), name) == (if field.0 == name {
            named(fields, name).push(field)
        } else {
            named(fields, name)
        }),
{
    reveal(Seq::filter);
    assert(fields.push(field).drop_last() =~= fields);
}

proof fn lemma_placed(sorted: Seq<(Seq<char>, Seq<char>)>, field: (Seq<char>, Seq<char>))
    requires
        sorted_by_name(sorted),
    ensures
        sorted_by_name(placed(sorted, field)),
        placed(sorted, field).to_multiset() == sorted.to_multiset().insert(field),
        forall|k: int|
            0 <= k < placed(sorted, field).len() ==> (#[trigger] placed(sorted, field)[k] == field
                || exists|i: int| 0 <= i < sorted.len() && placed(sorted, field)[k] == sorted[i]),
    decreases sorted.len(),
{
    broadcast use vstd::seq_lib::group_to_multiset_ensures;

    let out = placed(sorted, field);
    if sorted.len() == 0 || not_after(sorted.last().0, field.0) {
        assert forall|i: int, j: int| 0 <= i < j < out.len() implies not_after(
            (#[trigger] out[i]).0,
            (#[trigger] out[j]).0,
        ) by {
            if j == sorted.len() {
                if i < sorted.len() - 1 {
                    lemma_not_after_transitive(sorted[i].0, sorted.last().0, field.0);
                }
            } else {
                assert(not_after(sorted[i].0, sorted[j].0));
            }
        }
        assert forall|k: int| 0 <= k < out.len() implies (#[trigger] out[k] == field || exists|
            i: int,
        |
            0 <= i < sorted.len() && out[k] == sorted[i]) by {
            if k < sorted.len() {
                assert(out[k] == sorted[k]);
            }
        }
    } else {
        let rest = sorted.drop_last();
        let last = sorted.last();
        lemma_placed(rest, field);
        lemma_not_after_total(last.0, field.0);
        let inner = placed(rest, field);
        assert forall|k: int| 0 <= k < inner.len() implies not_after(
            (#[trigger] inner[k]).0,
            last.0,
        ) by {
            if inner[k] != field {
                let i = choose|i: int| 0 <= i < rest.len() && inner[k] == rest[i];
                assert(not_after(sorted[i].0, sorted[sorted.len() - 1].0));
            }
        }
        assert forall|k: int| 0 <= k < out.len() implies (#[trigger] out[k] == field || exists|
            i: int,
        |
            0 <= i < sorted.len() && out[k] == sorted[i]) by {
            if k < inner.len() {
                assert(out[k] == inner[k]);
                if inner[k] != field {
                    let i = choose|i: int| 0 <= i < rest.len() && inner[k] == rest[i];
                    assert(sorted[i] == rest[i]);
                }
            } else {
                assert(out[k] == sorted[sorted.len() - 1]);
            }
        }
        assert(rest.push(last) =~= sorted);
        assert(out.to_multiset() =~= sorted.to_multiset().insert(field));
    }
}

proof fn lemma_placed_named(
    sorted: Seq<(Seq<char>, Seq<char>)>,
    field: (Seq<char>, Seq<char>),
    name: Seq<char>,
)
    ensures
        named(placed(sorted, field), name) == named(sorted.push(field), name),
    decreases sorted.len(),
{
    lemma_named_push(sorted, field, name);
    if sorted.len() > 0 && !not_after(sorted.last().0, field.0) {
        let rest = sorted.drop_last();
        lemma_placed_named(rest, field, name);
        lemma_named_push(placed(rest, field), sorted.last(), name);
        lemma_named_push(rest, field, name);
        lemma_named_push(rest, sorted.last(), name);
        assert(rest.push(sorted.last()) =~= sorted);
        lemma_not_after_reflexive(field.0);
    }
}

/// The order in which fields are signed: they are sorted by name, none is lost
/// or added, and fields of the same name keep their order.
pub proof fn law_signing_order(fields: Seq<(Seq<char>, Seq<char>)>)
    ensures
        sorted_by_name(by_name(fields)),
        by_name(fields).to_multiset() == fields.to_multiset(),
        forall|name: Seq<char>| #[trigger] named(by_name(fields), name) == named(fields, name),
    decreases fields.len(),
{
    broadcast use vstd::seq_lib::group_to_multiset_ensures;

    if fields.len() > 0 {
        let rest = fields.drop_last();
        let last = fields.last();
        law_signing_order(rest);
        lemma_placed(by_name(rest), last);
        assert(rest.push(last) =~= fields);
        assert(by_name(fields).to_multiset() =~= fields.to_multiset());
        assert forall|name: Seq<char>| #[trigger]
            named(by_name(fields), name) == named(fields, name) by {
            lemma_placed_named(by_name(rest), last, name);
            lemma_named_push(by_name(rest), last, name);
            lemma_named_push(rest, last, name);
        }
    } else {
        assert(by_name(fields) =~= fields);
    }
}

/// A total order on fields: by name, then by value.
spec fn field_order(a: (Seq<char>, Seq<char>), b: (Seq<char>, Seq<char>)) -> bool {
    if a.0 == b.0 {
        not_after(a.1, b.1)
    } else {
        not_after(a.0, b.0)
    }
}

proof fn lemma_field_order_is_total()
    ensures
        total_ordering(
            |a: (Seq<char>, Seq<char>), b: (Seq<char>, Seq<char>)| field_order(a, b),
        ),
{
    let order = |a: (Seq<char>, Seq<char>), b: (Seq<char>, Seq<char>)| field_order(a, b);
    assert forall|a: (Seq<char>, Seq<char>)| #[trigger] order(a, a) by {
        lemma_not_after_reflexive(a.1);
    }
    assert forall|a: (Seq<char>, Seq<char>), b: (Seq<char>, Seq<char>)| #[trigger]
        order(a, b) && #[trigger] order(b, a) implies a == b by {
        if a.0 == b.0 {
            lemma_not_after_antisymmetric(a.1, b.1);
        } else {
            lemma_not_after_antisymmetric(a.0, b.0);
        }
    }
    assert forall|a: (Seq<char>, Seq<char>), b: (Seq<char>, Seq<char>), c: (Seq<char>, Seq<char>)|
     #[trigger]
        order(a, b) && #[trigger] order(b, c) implies order(a, c) by {
        if a.0 == b.0 && b.0 == c.0 {
            lemma_not_after_transitive(a.1, b.1, c.1);
        } else if a.0 != b.0 && b.0 != c.0 {
            lemma_not_after_transitive(a.0, b.0, c.0);
            if a.0 == c.0 {
                lemma_not_after_antisymmetric(a.0, b.0);
            }
        }
    }
    assert forall|a: (Seq<char>, Seq<char>), b: (Seq<char>, Seq<char>)| #[trigger]
        order(a, b) || #[trigger] order(b, a) by {
        lemma_not_after_total(a.0, b.0);
        lemma_not_after_total(a.1, b.1);
    }
}

/// No two fields have the same name.
pub open spec fn distinct_names(fields: Seq<(Seq<char>, Seq<char>)>) -> bool {
    forall|i: int, j: int|
        0 <= i < j < fields.len() ==> (#[trigger] fields[i]).0 != (#[trigger] fields[j]).0
}

proof fn lemma_distinct_once(
    fields: Seq<(Seq<char>, Seq<char>)>,
    i: int,
    j: int,
    other: Seq<(Seq<char>, Seq<char>)>,
)
    requires
        distinct_names(other),
        fields.to_multiset() == other.to_multiset(),
        0 <= i < j < fields.len(),
    ensures
        fields[i].0 != fields[j].0,
{
    broadcast use vstd::seq_lib::group_to_multiset_ensures;

    if fields[i].0 == fields[j].0 {
        assert(fields.to_multiset().count(fields[i]) > 0);
        assert(fields.to_multiset().count(fields[j]) > 0);
        assert(other.contains(fields[i]));
        assert(other.contains(fields[j]));
        let a = choose|a: int| 0 <= a < other.len() && other[a] == fields[i];
        let b = choose|b: int| 0 <= b < other.len() && other[b] == fields[j];
        assert(a == b);
        assert(fields[i] == fields[j]);
        lemma_twice(fields, i, j);
        lemma_at_most_once(other, fields[i]);
    }
}

proof fn lemma_twice(fields: Seq<(Seq<char>, Seq<char>)>, i: int, j: int)
    requires
        0 <= i < j < fields.len(),
        fields[i] == fields[j],
    ensures
        fields.to_multiset().count(fields[i]) >= 2,
{
    broadcast use vstd::seq_lib::group_to_multiset_ensures;

    let without = fields.remove(j);
    assert(fields.to_multiset() == without.to_multiset().insert(fields[j])) by {
        assert(fields =~= without.insert(j, fields[j]));
    }
    assert(without[i] == fields[i]);
    assert(without.to_multiset().count(fields[i]) > 0);
}

proof fn lemma_at_most_once(fields: Seq<(Seq<char>, Seq<char>)>, field: (Seq<char>, Seq<char>))
    requires
        distinct_names(fields),
    ensures
        fields.to_multiset().count(field) <= 1,
    decreases fields.len(),
{
    broadcast use vstd::seq_lib::group_to_multiset_ensures;

    if fields.len() > 0 {
        let rest = fields.drop_last();
        assert(rest.push(fields.last()) =~= fields);
        assert forall|i: int, j: int| 0 <= i < j < rest.len() implies (#[trigger] rest[i]).0 != (
        #[trigger] rest[j]).0 by {
            assert(fields[i].0 != fields[j].0);
        }
        lemma_at_most_once(rest, field);
        if fields.last() == field && rest.to_multiset().count(field) > 0 {
            assert(rest.contains(field));
            let i = choose|i: int| 0 <= i < rest.len() && rest[i] == field;
            assert(fields[i].0 != fields[fields.len() - 1].0);
        }
    }
}

/// The order in which fields of distinct names arrive does not matter: they are
/// signed alike, and a signature is accepted for both or for neither.
pub proof fn law_signature_ignores_the_order_of_distinct_fields(
    auth_token: Seq<char>,
    public_url: Seq<char>,
    first: Seq<(Seq<char>, Seq<char>)>,
    second: Seq<(Seq<char>, Seq<char>)>,
    supplied: Seq<char>,
)
    requires
        first.to_multiset() == second.to_multiset(),
        distinct_names(first),
    ensures
        signature_of(auth_token, public_url, first) == signature_of(
            auth_token,
            public_url,
            second,
        ),
        is_signature(auth_token, public_url, first, supplied) == is_signature(
            auth_token,
            public_url,
            second,
            supplied,
        ),
{
    let order = |a: (Seq<char>, Seq<char>), b: (Seq<char>, Seq<char>)| field_order(a, b);
    let x = by_name(first);
    let y = by_name(second);
    law_signing_order(first);
    law_signing_order(second);
    lemma_field_order_is_total();
    assert forall|i: int, j: int| 0 <= i < j < x.len() implies #[trigger] order(x[i], x[j]) by {
        lemma_distinct_once(x, i, j, first);
        assert(not_after(x[i].0, x[j].0));
    }
    assert forall|i: int, j: int| 0 <= i < j < y.len() implies #[trigger] order(y[i], y[j]) by {
        lemma_distinct_once(y, i, j, first);
        assert(not_after(y[i].0, y[j].0));
    }
    lemma_sorted_unique(x, y, order);
}

/// What is signed is the public URL followed by the name and the value of each
/// field, in the order of their names.
pub proof fn law_every_field_is_signed(
    public_url: Seq<char>,
    fields: Seq<(Seq<char>, Seq<char>)>,
    field: (Seq<char>, Seq<char>),
)
    requires
        forall|i: int| 0 <= i < fields.len() ==> not_after((#[trigger] fields[i]).0, field.0),
        by_name(fields) == fields,
    ensures
        signed_bytes(public_url, Seq::empty()) == encode_utf8(public_url),
        signed_bytes(public_url, fields.push(field)) == signed_bytes(public_url, fields)
            + encode_utf8(field.0) + encode_utf8(field.1),
{
    let nothing = Seq::<(Seq<char>, Seq<char>)>::empty();
    assert(by_name(nothing) =~= nothing);
    assert(field_bytes(nothing) =~= Seq::<u8>::empty());
    assert(encode_utf8(public_url) + field_bytes(nothing) =~= encode_utf8(public_url));
    let grown = fields.push(field);
    assert(grown.drop_last() =~= fields);
    assert(grown.last() == field);
    if fields.len() > 0 {
        assert(fields.last() == fields[fields.len() - 1]);
    }
    assert(by_name(grown) =~= grown);
    assert(signed_bytes(public_url, grown) =~= signed_bytes(public_url, fields) + encode_utf8(
        field.0,
    ) + encode_utf8(field.1));
}

/// A command is a command in whatever case and with whatever white space around
/// it, and only as the whole message.
pub proof fn law_commands_are_whole_messages(
    before: Seq<char>,
    word: Seq<char>,
    after: Seq<char>,
)
    requires
        blank(before),
        blank(after),
        word.len() > 0,
        !is_white_space(word[0]),
        !is_white_space(word.last()),
    ensures
        ({
            let upper = ascii_uppercase(word);
            command_of(before + word + after) == if seq![
                "STOP"@,
                "STOPALL"@,
                "UNSUBSCRIBE"@,
                "CANCEL"@,
                "END"@,
                "QUIT"@,
                "REVOKE"@,
                "OPTOUT"@,
            ].contains(upper) {
                Some(ComplianceKeyword::Stop)
            } else if seq!["START"@, "UNSTOP"@].contains(upper) {
                Some(ComplianceKeyword::Start)
            } else if seq!["HELP"@, "INFO"@].contains(upper) {
                Some(ComplianceKeyword::Help)
            } else {
                None
            }
        }),
{
    law_trimming_takes_what_is_around(before, word, after);
    let stops = seq![
        "STOP"@,
        "STOPALL"@,
        "UNSUBSCRIBE"@,
        "CANCEL"@,
        "END"@,
        "QUIT"@,
        "REVOKE"@,
        "OPTOUT"@,
    ];
    assert(stops[0] == "STOP"@ && stops[1] == "STOPALL"@ && stops[2] == "UNSUBSCRIBE"@ && stops[3]
        == "CANCEL"@ && stops[4] == "END"@ && stops[5] == "QUIT"@ && stops[6] == "REVOKE"@
        && stops[7] == "OPTOUT"@);
    let starts = seq!["START"@, "UNSTOP"@];
    assert(starts[0] == "START"@ && starts[1] == "UNSTOP"@);
    let helps = seq!["HELP"@, "INFO"@];
    assert(helps[0] == "HELP"@ && helps[1] == "INFO"@);
}

} // verus!

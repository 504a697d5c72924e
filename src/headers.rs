use std::str::FromStr;
use vstd::prelude::*;
use crate::error::ProxyError;

verus! {

/// The longest header name that the outbound client accepts.
pub const MAX_HEADER_NAME_LEN: usize = 65535;

/// A character allowed in an HTTP header name (an RFC 9110 token character).
pub open spec fn is_token_char(c: char) -> bool {
    let u = c as u32;
    (97 <= u <= 122) || (65 <= u <= 90) || (48 <= u <= 57) || c == '!' || c == '#' || c == '$'
        || c == '%' || c == '&' || c == '\'' || c == '*' || c == '+' || c == '-' || c == '.'
        || c == '^' || c == '_' || c == '`' || c == '|' || c == '~'
}

/// A header name that the outbound client accepts.
pub open spec fn header_name_ok(s: Seq<char>) -> bool {
    0 < s.len() <= MAX_HEADER_NAME_LEN && forall|i: int| 0 <= i < s.len() ==> is_token_char(#[trigger] s[i])
}

/// A character allowed in an outbound header value: no control character but tab.
pub open spec fn value_char_ok(c: char) -> bool {
    c == '\t' || (c as u32 >= 32 && c as u32 != 127)
}

/// A header value that the outbound client accepts.
pub open spec fn header_value_ok(s: Seq<char>) -> bool {
    forall|i: int| 0 <= i < s.len() ==> value_char_ok(#[trigger] s[i])
}

/// `d` is `c` with an upper-case ASCII letter turned to lower case.
pub open spec fn lowers_to(c: char, d: char) -> bool {
    if 65 <= c as u32 <= 90 {
        d as u32 == c as u32 + 32
    } else {
        d == c
    }
}

/// `t` is `s` with its ASCII letters in lower case.
pub open spec fn is_lowered(s: Seq<char>, t: Seq<char>) -> bool {
    t.len() == s.len() && forall|i: int| 0 <= i < s.len() ==> lowers_to(s[i], #[trigger] t[i])
}

/// A name with no upper-case ASCII letter.
pub open spec fn is_lower_case(s: Seq<char>) -> bool {
    forall|i: int| 0 <= i < s.len() ==> !(65 <= (#[trigger] s[i]) as u32 <= 90)
}

/// An inbound header entry that can be forwarded.
pub open spec fn header_ok(h: (String, String)) -> bool {
    header_name_ok(h.0@) && header_value_ok(h.1@)
}

/// Every entry of `hs` can be forwarded.
pub open spec fn all_headers_ok(hs: Seq<(String, String)>) -> bool {
    forall|i: int| 0 <= i < hs.len() ==> header_ok(#[trigger] hs[i])
}

/// `out` is the outbound form of `hs`: entry by entry, the name normalized to
/// lower case and the value unchanged.
pub open spec fn headers_translated(hs: Seq<(String, String)>, out: Seq<(String, String)>) -> bool {
    out.len() == hs.len() && forall|i: int|
        0 <= i < hs.len() ==> is_lowered(hs[i].0@, (#[trigger] out[i]).0@) && out[i].1@ == hs[i].1@
}

/// `k` is the first entry of `hs` that cannot be forwarded.
pub open spec fn first_bad_header(hs: Seq<(String, String)>, k: int) -> bool {
    0 <= k < hs.len() && !header_ok(hs[k]) && forall|j: int| 0 <= j < k ==> header_ok(#[trigger] hs[j])
}

/// The name and value texts of each entry.
pub open spec fn header_texts(hs: Seq<(String, String)>) -> Seq<(Seq<char>, Seq<char>)> {
    hs.map_values(|h: (String, String)| (h.0@, h.1@))
}

/// Relies on reqwest's `HeaderName::from_str` (http 1.x): it accepts a
/// nonempty name of at most 65535 token characters, and keeps it in lower case.
#[verifier::external_body]
fn parse_header_name(s: &str) -> (r: Option<String>)
    ensures
        r is Some <==> header_name_ok(s@),
        r matches Some(n) ==> is_lowered(s@, n@),
{
    reqwest::header::HeaderName::from_str(s).ok().map(|n| n.as_str().to_string())
}

/// Relies on reqwest's `HeaderValue::from_str` (http 1.x): it accepts a value
/// whose bytes are tab or at least 32, other than 127.
#[verifier::external_body]
fn header_value_accepted(s: &str) -> (r: bool)
    ensures
        r == header_value_ok(s@),
{
    reqwest::header::HeaderValue::from_str(s).is_ok()
}

/// Translates the inbound header entries into the outbound client's form.
/// Fails closed: the first entry whose name or value is rejected fails the
/// whole translation, naming that entry, and no partial set is returned.
/// Duplicate names are all kept, in their order.
pub fn translate_request_headers(headers: &Vec<(String, String)>) -> (r: Result<Vec<(String, String)>, ProxyError>)
    ensures
        r is Ok <==> all_headers_ok(headers@),
        r matches Ok(out) ==> headers_translated(headers@, out@),
        r matches Err(e) ==> exists|k: int|
            first_bad_header(headers@, k) && e == (ProxyError::HeaderTranslation { name: headers@[k].0 }),
{
    let mut out: Vec<(String, String)> = Vec::new();
    let mut i: usize = 0;
    while i < headers.len()
        invariant
            i <= headers@.len(),
            forall|j: int| 0 <= j < i ==> header_ok(#[trigger] headers@[j]),
            headers_translated(headers@.subrange(0, i as int), out@),
        decreases headers@.len() - i,
    {
        let name = parse_header_name(headers[i].0.as_str());
        let value_ok = header_value_accepted(headers[i].1.as_str());
        match name {
            Some(n) => {
                if !value_ok {
                    assert(first_bad_header(headers@, i as int));
                    return Err(ProxyError::HeaderTranslation { name: headers[i].0.clone() });
                }
                out.push((n, headers[i].1.clone()));
            },
            None => {
                assert(first_bad_header(headers@, i as int));
                return Err(ProxyError::HeaderTranslation { name: headers[i].0.clone() });
            },
        }
        i = i + 1;
    }
    assert(headers@.subrange(0, i as int) =~= headers@);
    Ok(out)
}

/// A valid header collection whose names are already in lower case comes out
/// of the translation with every pair unchanged: the same pairs, duplicates
/// included, hence the same multiset of pairs.
pub proof fn lemma_header_round_trip(hs: Seq<(String, String)>, out: Seq<(String, String)>)
    requires
        all_headers_ok(hs),
        headers_translated(hs, out),
        forall|i: int| 0 <= i < hs.len() ==> is_lower_case(#[trigger] hs[i].0@),
    ensures
        header_texts(out) == header_texts(hs),
        header_texts(out).to_multiset() == header_texts(hs).to_multiset(),
{
    assert forall|i: int| 0 <= i < hs.len() implies out[i].0@ == hs[i].0@ by {
        let s = hs[i].0@;
        let t = out[i].0@;
        assert(is_lower_case(s));
        assert(is_lowered(s, t));
        assert forall|j: int| 0 <= j < s.len() implies t[j] == s[j] by {
            assert(lowers_to(s[j], t[j]));
        }
        assert(t =~= s);
    }
    assert(header_texts(out) =~= header_texts(hs));
}

/// A header value byte that can be read as text: visible ASCII or tab.
pub open spec fn visible_byte(b: u8) -> bool {
    (32 <= b && b < 127) || b == 9
}

/// A header value whose every byte can be read as text.
pub open spec fn visible_text(v: Seq<u8>) -> bool {
    forall|i: int| 0 <= i < v.len() ==> visible_byte(#[trigger] v[i])
}

/// `t` holds the characters whose codes are the bytes of `v`.
pub open spec fn text_of_bytes(v: Seq<u8>, t: Seq<char>) -> bool {
    t.len() == v.len() && forall|i: int| 0 <= i < v.len() ==> (#[trigger] t[i]) as u32 == v[i] as u32
}

/// The upstream header entries that are passed on: those whose value can be
/// read as text, in their order.
pub open spec fn kept_headers(hs: Seq<(String, Vec<u8>)>) -> Seq<(String, Vec<u8>)>
    decreases hs.len(),
{
    if hs.len() == 0 {
        Seq::empty()
    } else {
        let rest = kept_headers(hs.drop_last());
        if visible_text(hs.last().1@) {
            rest.push(hs.last())
        } else {
            rest
        }
    }
}

/// `out` is the text form of the entries that `hs` keeps.
pub open spec fn response_headers_translated(hs: Seq<(String, Vec<u8>)>, out: Seq<(String, String)>) -> bool {
    let kept = kept_headers(hs);
    out.len() == kept.len() && forall|i: int|
        0 <= i < kept.len() ==> (#[trigger] out[i]).0 == kept[i].0 && text_of_bytes(kept[i].1@, out[i].1@)
}

/// Relies on `std::str::from_utf8`: bytes below 128 are valid UTF-8, each
/// one character with that code.
#[verifier::external_body]
fn ascii_to_string(v: &[u8]) -> (r: String)
    requires
        forall|i: int| 0 <= i < v@.len() ==> v@[i] < 128,
    ensures
        text_of_bytes(v@, r@),
{
    match std::str::from_utf8(v) {
        Ok(s) => s.to_string(),
        Err(_) => String::new(),
    }
}

/// Whether every byte of a header value can be read as text.
fn is_visible_text(v: &[u8]) -> (r: bool)
    ensures
        r == visible_text(v@),
{
    let mut i: usize = 0;
    while i < v.len()
        invariant
            i <= v@.len(),
            forall|j: int| 0 <= j < i ==> visible_byte(#[trigger] v@[j]),
        decreases v@.len() - i,
    {
        let b = v[i];
        if !((32 <= b && b < 127) || b == 9) {
            assert(!visible_byte(v@[i as int]));
            return false;
        }
        i = i + 1;
    }
    true
}

/// Translates the upstream response headers for the client: an entry whose
/// value cannot be read as text is dropped, every other entry is kept, in
/// order, duplicates included. Never fails.
pub fn translate_response_headers(headers: &Vec<(String, Vec<u8>)>) -> (out: Vec<(String, String)>)
    ensures
        response_headers_translated(headers@, out@),
{
    let mut out: Vec<(String, String)> = Vec::new();
    let mut i: usize = 0;
    while i < headers.len()
        invariant
            i <= headers@.len(),
            response_headers_translated(headers@.subrange(0, i as int), out@),
        decreases headers@.len() - i,
    {
        let ghost before = headers@.subrange(0, i as int);
        let ghost after = headers@.subrange(0, i + 1);
        assert(after.drop_last() =~= before);
        let v = headers[i].1.as_slice();
        if is_visible_text(v) {
            let text = ascii_to_string(v);
            out.push((headers[i].0.clone(), text));
        }
        i = i + 1;
    }
    assert(headers@.subrange(0, i as int) =~= headers@);
    out
}

/// Which entries are kept is decided entry by entry.
pub proof fn lemma_kept_headers_concat(a: Seq<(String, Vec<u8>)>, b: Seq<(String, Vec<u8>)>)
    ensures
        kept_headers(a + b) == kept_headers(a) + kept_headers(b),
    decreases b.len(),
{
    if b.len() == 0 {
        assert(a + b =~= a);
        assert(kept_headers(b) =~= Seq::empty());
        assert(kept_headers(a) + kept_headers(b) =~= kept_headers(a));
    } else {
        lemma_kept_headers_concat(a, b.drop_last());
        assert((a + b).drop_last() =~= a + b.drop_last());
        assert((a + b).last() == b.last());
        if visible_text(b.last().1@) {
            assert(kept_headers(a + b) =~= kept_headers(a) + kept_headers(b));
        } else {
            assert(kept_headers(a + b) =~= kept_headers(a) + kept_headers(b));
        }
    }
}

/// An upstream entry whose value holds a byte that cannot be read as text is
/// dropped alone: the entries kept from `a + [bad] + b` are those kept from
/// `a + b`, so every other entry is still passed on.
pub proof fn lemma_bad_response_header_dropped_alone(
    a: Seq<(String, Vec<u8>)>,
    bad: (String, Vec<u8>),
    b: Seq<(String, Vec<u8>)>,
)
    requires
        !visible_text(bad.1@),
    ensures
        kept_headers(a + seq![bad] + b) == kept_headers(a + b),
{
    lemma_kept_headers_concat(a + seq![bad], b);
    lemma_kept_headers_concat(a, seq![bad]);
    lemma_kept_headers_concat(a, b);
    let none = Seq::<(String, Vec<u8>)>::empty();
    assert(seq![bad].drop_last() =~= none);
    assert(seq![bad].last() == bad);
    assert(kept_headers(none) =~= none);
    assert(kept_headers(seq![bad]) =~= none);
    assert(kept_headers(a + seq![bad]) =~= kept_headers(a));
}

/// When every upstream value can be read as text, every entry is kept.
pub proof fn lemma_visible_response_headers_all_kept(hs: Seq<(String, Vec<u8>)>)
    requires
        forall|i: int| 0 <= i < hs.len() ==> visible_text(#[trigger] hs[i].1@),
    ensures
        kept_headers(hs) == hs,
    decreases hs.len(),
{
    if hs.len() > 0 {
        lemma_visible_response_headers_all_kept(hs.drop_last());
        assert(visible_text(hs[hs.len() - 1].1@));
        assert(hs.drop_last().push(hs.last()) =~= hs);
    }
}

} // verus!

//! The request side of the OpenMetadata REST client: where a request goes,
//! how its parameters are written, and what each HTTP answer leads to.
//!
//! The HTTP exchange itself is performed by the caller; it hands each answer
//! to [`respond`], which decides between decoding the body, reporting that
//! the entity is absent, failing with an actionable message, or waiting
//! before the next attempt.

use vstd::prelude::*;
use vstd::utf8::{decode_utf8, encode_scalar, encode_utf8, encode_utf8_decode_utf8};
use crate::json::{empty_arrays_object, sole_member, Json};
use crate::text::{
    concat2, decimal, decimal_string, has_prefix, hex_digit, hex_upper, owned, parse_u64,
    parse_u64_spec, prefix, push_char, starts_with, strip_suffix_all, take_chars,
    trim_end_matches, utf8_encode, chars_of,
};

verus! {

// ---------------------------------------------------------------------------
// Percent-encoding
// ---------------------------------------------------------------------------

/// Characters written as themselves in an encoded path segment. With
/// `path_chars`, `:` and `/` are kept too.
pub open spec fn kept_char(c: char, path_chars: bool) -> bool {
    ||| 'A' <= c && c <= 'Z'
    ||| 'a' <= c && c <= 'z'
    ||| '0' <= c && c <= '9'
    ||| c == '-' || c == '_' || c == '.' || c == '~'
    ||| path_chars && (c == ':' || c == '/')
}

/// `%XX`, with upper-case hexadecimal digits, for one byte.
pub open spec fn percent_byte(b: u8) -> Seq<char> {
    seq!['%', hex_upper(b as int / 16), hex_upper(b as int % 16)]
}

/// Every byte of `bytes` written as `%XX`.
pub open spec fn percent_bytes(bytes: Seq<u8>) -> Seq<char>
    decreases bytes.len(),
{
    if bytes.len() == 0 {
        Seq::empty()
    } else {
        percent_bytes(bytes.drop_last()) + percent_byte(bytes.last())
    }
}

/// One character, kept or written as the `%XX` of its UTF-8 bytes.
pub open spec fn encode_char(c: char, path_chars: bool) -> Seq<char> {
    if kept_char(c, path_chars) {
        seq![c]
    } else {
        percent_bytes(encode_scalar(c as u32))
    }
}

/// The percent-encoding of a whole string.
pub open spec fn percent_encode(s: Seq<char>, path_chars: bool) -> Seq<char>
    decreases s.len(),
{
    if s.len() == 0 {
        Seq::empty()
    } else {
        percent_encode(s.drop_last(), path_chars) + encode_char(s.last(), path_chars)
    }
}

/// Percent-encodes `s`, keeping unreserved characters and, with
/// `path_chars`, `:` and `/`.
pub fn percent_encode_str(s: &str, path_chars: bool) -> (r: String)
    ensures
        r@ == percent_encode(s@, path_chars),
{
    let v = chars_of(s);
    let mut out = String::new();
    let mut i: usize = 0;
    while i < v.len()
        invariant
            v@ == s@,
            i <= v@.len(),
            out@ == percent_encode(v@.subrange(0, i as int), path_chars),
        decreases v.len() - i,
    {
        let c = v[i];
        let ghost before = out@;
        assert(v@.subrange(0, i + 1).drop_last() =~= v@.subrange(0, i as int));
        assert(v@.subrange(0, i + 1).last() == c);
        let keep = ('A' <= c && c <= 'Z') || ('a' <= c && c <= 'z') || ('0' <= c && c <= '9')
            || c == '-' || c == '_' || c == '.' || c == '~' || (path_chars && (c == ':' || c
            == '/'));
        if keep {
            push_char(&mut out, c);
        } else {
            let bytes = utf8_encode(c);
            let mut j: usize = 0;
            assert(bytes@.subrange(0, 0) =~= Seq::<u8>::empty());
            while j < bytes.len()
                invariant
                    j <= bytes@.len(),
                    out@ == before + percent_bytes(bytes@.subrange(0, j as int)),
                decreases bytes.len() - j,
            {
                let b = bytes[j];
                assert(bytes@.subrange(0, j + 1).drop_last() =~= bytes@.subrange(0, j as int));
                push_char(&mut out, '%');
                push_char(&mut out, hex_digit(b / 16));
                push_char(&mut out, hex_digit(b % 16));
                j = j + 1;
                assert(out@ =~= before + percent_bytes(bytes@.subrange(0, j as int)));
            }
            assert(bytes@.subrange(0, bytes@.len() as int) =~= bytes@);
        }
        i = i + 1;
        assert(out@ =~= percent_encode(v@.subrange(0, i as int), path_chars));
    }
    assert(v@.subrange(0, v@.len() as int) =~= v@);
    out
}

/// Percent-encodes a path segment, keeping unreserved characters, `:` and `/`.
pub fn urlencode(s: &str) -> (r: String)
    ensures
        r@ == percent_encode(s@, true),
{
    percent_encode_str(s, true)
}

/// A character that can appear in percent-encoded text: a kept character,
/// `%`, or an upper-case hexadecimal digit.
pub open spec fn encoded_char(c: char, path_chars: bool) -> bool {
    kept_char(c, path_chars) || c == '%' || ('0' <= c && c <= '9') || ('A' <= c && c <= 'F')
}

proof fn lemma_hex_upper_is_hex(n: int)
    requires
        0 <= n < 16,
    ensures
        ('0' <= hex_upper(n) && hex_upper(n) <= '9') || ('A' <= hex_upper(n) && hex_upper(n)
            <= 'F'),
{
}

proof fn lemma_percent_bytes_encoded(bytes: Seq<u8>, path_chars: bool)
    ensures
        forall|i: int|
            0 <= i < percent_bytes(bytes).len() ==> encoded_char(
                #[trigger] percent_bytes(bytes)[i],
                path_chars,
            ),
    decreases bytes.len(),
{
    if bytes.len() > 0 {
        lemma_percent_bytes_encoded(bytes.drop_last(), path_chars);
        let b = bytes.last();
        lemma_hex_upper_is_hex(b as int / 16);
        lemma_hex_upper_is_hex(b as int % 16);
        let p = percent_bytes(bytes.drop_last());
        let q = percent_byte(b);
        assert forall|i: int| 0 <= i < (p + q).len() implies encoded_char(
            #[trigger] (p + q)[i],
            path_chars,
        ) by {
            if i >= p.len() {
                assert((p + q)[i] == q[i - p.len()]);
            }
        }
    }
}

/// Percent-encoded text holds only kept characters, `%` and hexadecimal
/// digits: it is always plain ASCII.
pub proof fn law_encoding_is_url_safe(s: Seq<char>, path_chars: bool)
    ensures
        forall|i: int|
            0 <= i < percent_encode(s, path_chars).len() ==> encoded_char(
                #[trigger] percent_encode(s, path_chars)[i],
                path_chars,
            ),
    decreases s.len(),
{
    if s.len() > 0 {
        law_encoding_is_url_safe(s.drop_last(), path_chars);
        let c = s.last();
        lemma_percent_bytes_encoded(encode_scalar(c as u32), path_chars);
        let p = percent_encode(s.drop_last(), path_chars);
        let q = encode_char(c, path_chars);
        assert forall|i: int| 0 <= i < (p + q).len() implies encoded_char(
            #[trigger] (p + q)[i],
            path_chars,
        ) by {
            if i >= p.len() {
                assert((p + q)[i] == q[i - p.len()]);
            }
        }
    }
}

/// Text made only of kept characters is left as it is.
pub proof fn law_kept_text_unchanged(s: Seq<char>, path_chars: bool)
    requires
        forall|i: int| 0 <= i < s.len() ==> kept_char(#[trigger] s[i], path_chars),
    ensures
        percent_encode(s, path_chars) == s,
    decreases s.len(),
{
    if s.len() > 0 {
        let t = s.drop_last();
        assert forall|i: int| 0 <= i < t.len() implies kept_char(#[trigger] t[i], path_chars) by {
            assert(t[i] == s[i]);
        }
        law_kept_text_unchanged(t, path_chars);
        assert(kept_char(s[s.len() - 1], path_chars));
        assert(t + seq![s.last()] =~= s);
    }
}

proof fn lemma_percent_bytes_len(bytes: Seq<u8>)
    ensures
        percent_bytes(bytes).len() == 3 * bytes.len(),
    decreases bytes.len(),
{
    if bytes.len() > 0 {
        lemma_percent_bytes_len(bytes.drop_last());
    }
}

/// One character is written as itself exactly when it is an ASCII letter or
/// digit, `-`, `_`, `.` or `~` (or, in a path, `:` or `/`); any other
/// character is written as `%XX` groups.
pub proof fn law_single_char_encoding(c: char, path_chars: bool)
    ensures
        (percent_encode(seq![c], path_chars) == seq![c]) <==> (('A' <= c && c <= 'Z') || ('a' <= c
            && c <= 'z') || ('0' <= c && c <= '9') || c == '-' || c == '_' || c == '.' || c == '~'
            || (path_chars && (c == ':' || c == '/'))),
        !(('A' <= c && c <= 'Z') || ('a' <= c && c <= 'z') || ('0' <= c && c <= '9') || c == '-'
            || c == '_' || c == '.' || c == '~' || (path_chars && (c == ':' || c == '/')))
            ==> percent_encode(seq![c], path_chars) == percent_bytes(encode_scalar(c as u32)),
{
    assert(seq![c].drop_last() =~= Seq::<char>::empty());
    assert(seq![c].last() == c);
    assert(percent_encode(Seq::<char>::empty(), path_chars) =~= Seq::<char>::empty());
    assert(percent_encode(seq![c], path_chars) == percent_encode(Seq::<char>::empty(), path_chars)
        + encode_char(c, path_chars));
    assert(percent_encode(seq![c], path_chars) =~= encode_char(c, path_chars));
    if !kept_char(c, path_chars) {
        let enc = encode_scalar(c as u32);
        assert(enc.len() >= 1);
        lemma_percent_bytes_len(enc);
        assert(percent_bytes(enc).len() != seq![c].len());
    }
}

/// The value of a hexadecimal digit (either case), if `c` is one.
pub open spec fn hex_value(c: char) -> Option<int> {
    if '0' <= c && c <= '9' {
        Some(c as int - 48)
    } else if 'A' <= c && c <= 'F' {
        Some(c as int - 55)
    } else if 'a' <= c && c <= 'f' {
        Some(c as int - 87)
    } else {
        None
    }
}

/// Percent-decoding: each `%XY` with hexadecimal digits X and Y gives the
/// byte 0xXY, and every other character gives its code as one byte.
pub open spec fn percent_decode(t: Seq<char>) -> Seq<u8>
    decreases t.len(),
{
    if t.len() == 0 {
        Seq::empty()
    } else if t.len() >= 3 && t[0] == '%' && hex_value(t[1]) is Some && hex_value(t[2]) is Some {
        seq![(hex_value(t[1])->0 * 16 + hex_value(t[2])->0) as u8] + percent_decode(
            t.subrange(3, t.len() as int),
        )
    } else {
        seq![t[0] as u8] + percent_decode(t.drop_first())
    }
}

proof fn lemma_hex_value_of_hex_upper(n: int)
    requires
        0 <= n < 16,
    ensures
        hex_value(hex_upper(n)) == Some(n),
{
}

proof fn lemma_decode_percent_byte(b: u8, rest: Seq<char>)
    ensures
        percent_decode(percent_byte(b) + rest) == seq![b] + percent_decode(rest),
{
    let t = percent_byte(b) + rest;
    lemma_hex_value_of_hex_upper(b as int / 16);
    lemma_hex_value_of_hex_upper(b as int % 16);
    assert(t[0] == '%');
    assert(t[1] == hex_upper(b as int / 16));
    assert(t[2] == hex_upper(b as int % 16));
    assert(t.subrange(3, t.len() as int) =~= rest);
    assert(((b as int / 16) * 16 + b as int % 16) as u8 == b);
}

proof fn lemma_decode_percent_bytes(bytes: Seq<u8>, rest: Seq<char>)
    ensures
        percent_decode(percent_bytes(bytes) + rest) == bytes + percent_decode(rest),
    decreases bytes.len(),
{
    if bytes.len() == 0 {
        assert(percent_bytes(bytes) + rest =~= rest);
        assert(bytes + percent_decode(rest) =~= percent_decode(rest));
    } else {
        let init = bytes.drop_last();
        let b = bytes.last();
        assert(percent_bytes(bytes) + rest =~= percent_bytes(init) + (percent_byte(b) + rest));
        lemma_decode_percent_bytes(init, percent_byte(b) + rest);
        lemma_decode_percent_byte(b, rest);
        assert(init + (seq![b] + percent_decode(rest)) =~= bytes + percent_decode(rest));
    }
}

proof fn lemma_kept_char_is_one_byte(c: char, path_chars: bool)
    requires
        kept_char(c, path_chars),
    ensures
        encode_scalar(c as u32) == seq![c as u8],
{
    let u = c as u32;
    assert(u < 128);
    assert(u & 0x7F == u) by (bit_vector)
        requires
            u < 128,
    ;
    assert(c as u8 == u as u8);
    assert(encode_scalar(u) =~= seq![c as u8]);
}

proof fn lemma_decode_encoded_char(c: char, path_chars: bool, rest: Seq<char>)
    ensures
        percent_decode(encode_char(c, path_chars) + rest) == encode_scalar(c as u32)
            + percent_decode(rest),
{
    if kept_char(c, path_chars) {
        lemma_kept_char_is_one_byte(c, path_chars);
        let t = seq![c] + rest;
        assert(t[0] == c);
        assert(t.drop_first() =~= rest);
    } else {
        lemma_decode_percent_bytes(encode_scalar(c as u32), rest);
    }
}

proof fn lemma_encode_utf8_last(s: Seq<char>)
    requires
        s.len() > 0,
    ensures
        encode_utf8(s) == encode_utf8(s.drop_last()) + encode_scalar(s.last() as u32),
    decreases s.len(),
{
    if s.len() == 1 {
        assert(s.drop_first() =~= Seq::<char>::empty());
        assert(s.drop_last() =~= Seq::<char>::empty());
        assert(encode_utf8(s.drop_first()) =~= Seq::<u8>::empty());
        assert(encode_utf8(s) =~= encode_scalar(s[0] as u32));
        assert(encode_utf8(s.drop_last()) + encode_scalar(s.last() as u32) =~= encode_scalar(
            s[0] as u32,
        ));
    } else {
        let t = s.drop_first();
        lemma_encode_utf8_last(t);
        assert(t.drop_last() =~= s.drop_last().drop_first());
        assert(s.drop_last()[0] == s[0]);
        assert(t.last() == s.last());
        assert(encode_utf8(s) =~= encode_utf8(s.drop_last()) + encode_scalar(s.last() as u32));
    }
}

proof fn lemma_decode_encoded(s: Seq<char>, path_chars: bool, rest: Seq<char>)
    ensures
        percent_decode(percent_encode(s, path_chars) + rest) == encode_utf8(s) + percent_decode(
            rest,
        ),
    decreases s.len(),
{
    if s.len() == 0 {
        assert(percent_encode(s, path_chars) + rest =~= rest);
        assert(encode_utf8(s) + percent_decode(rest) =~= percent_decode(rest));
    } else {
        let init = s.drop_last();
        let c = s.last();
        assert(percent_encode(s, path_chars) + rest =~= percent_encode(init, path_chars) + (
        encode_char(c, path_chars) + rest));
        lemma_decode_encoded(init, path_chars, encode_char(c, path_chars) + rest);
        lemma_decode_encoded_char(c, path_chars, rest);
        lemma_encode_utf8_last(s);
        assert(encode_utf8(init) + (encode_scalar(c as u32) + percent_decode(rest))
            =~= encode_utf8(s) + percent_decode(rest));
    }
}

/// Percent-decoding encoded text gives back the UTF-8 bytes of the text, and
/// decoding those bytes gives back the text.
pub proof fn law_decode_inverts_encode(s: Seq<char>, path_chars: bool)
    ensures
        percent_decode(percent_encode(s, path_chars)) == encode_utf8(s),
        decode_utf8(percent_decode(percent_encode(s, path_chars))) == s,
{
    lemma_decode_encoded(s, path_chars, Seq::empty());
    assert(percent_encode(s, path_chars) + Seq::<char>::empty() =~= percent_encode(s, path_chars));
    assert(encode_utf8(s) + percent_decode(Seq::<char>::empty()) =~= encode_utf8(s));
    encode_utf8_decode_utf8(s);
}

/// Different texts never encode to the same text.
pub proof fn law_encoding_is_injective(s1: Seq<char>, s2: Seq<char>, path_chars: bool)
    requires
        percent_encode(s1, path_chars) == percent_encode(s2, path_chars),
    ensures
        s1 == s2,
{
    law_decode_inverts_encode(s1, path_chars);
    law_decode_inverts_encode(s2, path_chars);
}

/// How `c` is written once `/` and `:` are escaped.
pub open spec fn escape_path_char(c: char) -> Seq<char> {
    if c == '/' {
        seq!['%', '2', 'F']
    } else if c == ':' {
        seq!['%', '3', 'A']
    } else {
        seq![c]
    }
}

/// `t` with every `/` written `%2F` and every `:` written `%3A`.
pub open spec fn escape_path_chars(t: Seq<char>) -> Seq<char>
    decreases t.len(),
{
    if t.len() == 0 {
        Seq::empty()
    } else {
        escape_path_chars(t.drop_last()) + escape_path_char(t.last())
    }
}

proof fn lemma_escape_concat(a: Seq<char>, b: Seq<char>)
    ensures
        escape_path_chars(a + b) == escape_path_chars(a) + escape_path_chars(b),
    decreases b.len(),
{
    if b.len() == 0 {
        assert(a + b =~= a);
        assert(escape_path_chars(a) + escape_path_chars(b) =~= escape_path_chars(a));
    } else {
        assert((a + b).drop_last() =~= a + b.drop_last());
        assert((a + b).last() == b.last());
        lemma_escape_concat(a, b.drop_last());
        assert(escape_path_chars(a) + escape_path_chars(b.drop_last()) + escape_path_char(b.last())
            =~= escape_path_chars(a) + escape_path_chars(b));
    }
}

proof fn lemma_escape_unchanged(t: Seq<char>)
    requires
        forall|i: int| 0 <= i < t.len() ==> t[i] != '/' && t[i] != ':',
    ensures
        escape_path_chars(t) == t,
    decreases t.len(),
{
    if t.len() > 0 {
        let init = t.drop_last();
        assert forall|i: int| 0 <= i < init.len() implies init[i] != '/' && init[i] != ':' by {
            assert(init[i] == t[i]);
        }
        lemma_escape_unchanged(init);
        assert(t[t.len() - 1] != '/' && t[t.len() - 1] != ':');
        assert(init + seq![t.last()] =~= t);
    }
}

proof fn lemma_escape_encoded_char(c: char)
    ensures
        escape_path_chars(encode_char(c, true)) == encode_char(c, false),
{
    reveal_with_fuel(percent_bytes, 2);
    if kept_char(c, false) {
        assert(seq![c].drop_last() =~= Seq::<char>::empty());
        assert(seq![c].last() == c);
        assert(escape_path_chars(seq![c]) == escape_path_chars(Seq::<char>::empty())
            + escape_path_char(c));
        assert(escape_path_chars(seq![c]) =~= seq![c]);
    } else if c == '/' || c == ':' {
        let u = c as u32;
        assert(u & 0x7F == u) by (bit_vector)
            requires
                u < 128,
        ;
        assert(encode_scalar(u) =~= seq![u as u8]);
        assert(seq![u as u8].drop_last() =~= Seq::<u8>::empty());
        assert(percent_bytes(seq![u as u8]) =~= percent_byte(u as u8));
        assert(seq![c].drop_last() =~= Seq::<char>::empty());
        assert(seq![c].last() == c);
        assert(escape_path_chars(seq![c]) == escape_path_chars(Seq::<char>::empty())
            + escape_path_char(c));
        assert(escape_path_chars(seq![c]) =~= escape_path_char(c));
        assert(percent_byte(u as u8) =~= escape_path_char(c));
    } else {
        let t = percent_bytes(encode_scalar(c as u32));
        lemma_percent_bytes_encoded(encode_scalar(c as u32), false);
        assert forall|i: int| 0 <= i < t.len() implies t[i] != '/' && t[i] != ':' by {
            assert(encoded_char(t[i], false));
        }
        lemma_escape_unchanged(t);
    }
}

/// The encoding of a fully-qualified name is the encoding of a path with
/// every `/` and `:` escaped as well.
pub proof fn law_name_encoding_escapes_path_chars(s: Seq<char>)
    ensures
        percent_encode(s, false) == escape_path_chars(percent_encode(s, true)),
    decreases s.len(),
{
    if s.len() > 0 {
        law_name_encoding_escapes_path_chars(s.drop_last());
        lemma_escape_concat(percent_encode(s.drop_last(), true), encode_char(s.last(), true));
        lemma_escape_encoded_char(s.last());
    }
}

// ---------------------------------------------------------------------------
// Hosts and URLs
// ---------------------------------------------------------------------------

/// The host with its trailing slashes removed.
pub fn normalize_host(host: &str) -> (r: String)
    ensures
        r@ == strip_suffix_all(host@, "/"@),
        r@ == host@.subrange(0, r@.len() as int),
        r@.len() == 0 || r@.last() != '/',
        forall|i: int| r@.len() <= i < host@.len() ==> #[trigger] host@[i] == '/',
{
    proof {
        reveal_strlit("/");
        assert("/"@ =~= seq!['/']);
        crate::text::law_strip_trailing_char(host@, '/');
    }
    trim_end_matches(host, "/")
}

/// The full URL of `path` on `host`.
pub open spec fn url_spec(host: Seq<char>, path: Seq<char>) -> Seq<char> {
    if has_prefix(path, "/api"@) {
        strip_suffix_all(host, "/api"@) + path
    } else if has_prefix(path, "/"@) {
        host + path
    } else {
        host + "/"@ + path
    }
}

/// The full URL of `path` on `host`: a path that starts with `/api` replaces
/// the host's own `/api` suffix, any other path is appended with one `/`.
pub fn url(host: &str, path: &str) -> (r: String)
    ensures
        r@ == url_spec(host@, path@),
{
    if starts_with(path, "/api") {
        let base = trim_end_matches(host, "/api");
        concat2(base.as_str(), path)
    } else if starts_with(path, "/") {
        concat2(host, path)
    } else {
        let mut r = concat2(host, "/");
        r.append(path);
        r
    }
}

/// A path written with the `/api` prefix, with a leading slash, or bare names
/// the same URL on a host that ends with a single `/api`.
pub proof fn law_path_spellings_agree(host: Seq<char>, rest: Seq<char>)
    requires
        strip_suffix_all(host, "/api"@) + "/api"@ == host,
        !has_prefix(rest, "/"@),
        !has_prefix(rest, "api"@),
    ensures
        url_spec(host, "/api/"@ + rest) == host + "/"@ + rest,
        url_spec(host, "/"@ + rest) == host + "/"@ + rest,
        url_spec(host, rest) == host + "/"@ + rest,
{
    reveal_strlit("/api/");
    reveal_strlit("/api");
    reveal_strlit("/");
    reveal_strlit("api");
    let p1 = "/api/"@ + rest;
    assert(p1.subrange(0, 4) =~= "/api"@);
    assert(p1 =~= "/api"@ + ("/"@ + rest));
    let p2 = "/"@ + rest;
    assert(p2.subrange(0, 1) =~= "/"@);
    if has_prefix(p2, "/api"@) {
        assert(p2.subrange(0, 4) =~= "/api"@);
        assert("/api"@[1] == 'a' && "/api"@[2] == 'p' && "/api"@[3] == 'i');
        assert(p2.subrange(0, 4)[1] == p2[1] && p2.subrange(0, 4)[2] == p2[2]
            && p2.subrange(0, 4)[3] == p2[3]);
        assert("api"@[0] == 'a' && "api"@[1] == 'p' && "api"@[2] == 'i');
        assert(rest[0] == p2[1] && rest[1] == p2[2] && rest[2] == p2[3]);
        assert(rest.subrange(0, 3) =~= "api"@);
    }
    if has_prefix(rest, "/api"@) {
        assert(rest.subrange(0, 1) =~= "/"@);
    }
    assert(strip_suffix_all(host, "/api"@) + p1 =~= host + "/"@ + rest);
    assert(host + p2 =~= host + "/"@ + rest);
}

// ---------------------------------------------------------------------------
// Authentication header
// ---------------------------------------------------------------------------

/// A character that can appear in an HTTP header value: a tab, or anything
/// from the space on except DEL. (Characters beyond ASCII encode to bytes
/// that are all at least 0x80.)
pub open spec fn header_char(c: char) -> bool {
    c == '\t' || (c as u32 >= 32 && c as u32 != 127)
}

/// `reqwest::header::HeaderValue::from_str` succeeds on `s`. Its source
/// accepts exactly the byte strings whose every byte is a tab or is at least
/// 32 and not 127; over the characters of a string that is `header_char`.
#[verifier::external_body]
fn header_value_accepts(s: &str) -> (r: bool)
    ensures
        r == (forall|i: int| 0 <= i < s@.len() ==> header_char(#[trigger] s@[i])),
{
    reqwest::header::HeaderValue::from_str(s).is_ok()
}

/// Errors in preparing a client.
#[derive(Debug, Clone, Copy, PartialEq, Eq)]
pub enum ClientError {
    /// The token holds a character that an HTTP header cannot carry.
    InvalidToken,
}

impl ClientError {
    /// The message shown to the user.
    pub fn message(&self) -> (r: String)
        ensures
            r@ == "invalid token characters"@,
    {
        owned("invalid token characters")
    }
}

/// The `Authorization` header value for `token`.
pub fn bearer_header(token: &str) -> (r: Result<String, ClientError>)
    ensures
        match r {
            Ok(v) => v@ == "Bearer "@ + token@ && (forall|i: int|
                0 <= i < v@.len() ==> header_char(#[trigger] v@[i])),
            Err(e) => e == ClientError::InvalidToken && !(forall|i: int|
                0 <= i < ("Bearer "@ + token@).len() ==> header_char(
                    #[trigger] ("Bearer "@ + token@)[i],
                )),
        },
{
    let v = concat2("Bearer ", token);
    if header_value_accepts(v.as_str()) {
        Ok(v)
    } else {
        Err(ClientError::InvalidToken)
    }
}

// ---------------------------------------------------------------------------
// Requests
// ---------------------------------------------------------------------------

/// A GET or PATCH target: a path and its query parameters, in order.
pub struct ApiRequest {
    pub path: String,
    pub query: Vec<(String, String)>,
}

impl ApiRequest {
    /// The views of the query parameters.
    pub open spec fn query_view(&self) -> Seq<(Seq<char>, Seq<char>)> {
        self.query@.map_values(|p: (String, String)| (p.0@, p.1@))
    }
}

/// A query parameter.
fn param(name: &str, value: String) -> (r: (String, String))
    ensures
        r.0@ == name@,
        r.1@ == value@,
{
    (owned(name), value)
}

/// A search of `index` for `query`, returning at most `limit` hits.
pub fn search_request(query: &str, index: &str, limit: usize) -> (r: ApiRequest)
    ensures
        r.path@ == "/api/v1/search/query"@,
        r.query_view() == seq![
            ("q"@, query@),
            ("index"@, index@),
            ("limit"@, decimal(limit as nat)),
        ],
{
    let mut q: Vec<(String, String)> = Vec::new();
    q.push(param("q", owned(query)));
    q.push(param("index", owned(index)));
    q.push(param("limit", decimal_string(limit as u64)));
    let r = ApiRequest { path: owned("/api/v1/search/query"), query: q };
    assert(r.query_view() =~= seq![
        ("q"@, query@),
        ("index"@, index@),
        ("limit"@, decimal(limit as nat)),
    ]);
    r
}

/// The table with fully-qualified name `fqn`, with the listed `fields`.
pub fn table_request(fqn: &str, fields: &str) -> (r: ApiRequest)
    ensures
        r.path@ == "/api/v1/tables/name/"@ + percent_encode(fqn@, true),
        r.query_view() == seq![("fields"@, fields@)],
{
    let enc = urlencode(fqn);
    let path = concat2("/api/v1/tables/name/", enc.as_str());
    let mut q: Vec<(String, String)> = Vec::new();
    q.push(param("fields", owned(fields)));
    let r = ApiRequest { path, query: q };
    assert(r.query_view() =~= seq![("fields"@, fields@)]);
    r
}

/// The lineage of the table with id `id`, `upstream` levels up and
/// `downstream` levels down.
pub fn lineage_request(id: &str, upstream: u32, downstream: u32) -> (r: ApiRequest)
    ensures
        r.path@ == "/api/v1/lineage/table/"@ + id@,
        r.query_view() == seq![
            ("upstreamDepth"@, decimal(upstream as nat)),
            ("downstreamDepth"@, decimal(downstream as nat)),
        ],
{
    let path = concat2("/api/v1/lineage/table/", id);
    let mut q: Vec<(String, String)> = Vec::new();
    q.push(param("upstreamDepth", decimal_string(upstream as u64)));
    q.push(param("downstreamDepth", decimal_string(downstream as u64)));
    let r = ApiRequest { path, query: q };
    assert(r.query_view() =~= seq![
        ("upstreamDepth"@, decimal(upstream as nat)),
        ("downstreamDepth"@, decimal(downstream as nat)),
    ]);
    r
}

/// The data-quality test suites of the table `fqn`.
pub fn quality_request(fqn: &str) -> (r: ApiRequest)
    ensures
        r.path@ == "/api/v1/dataQuality/testSuites"@,
        r.query_view() == seq![
            ("entityLink"@, "<#E::table::"@ + fqn@ + ">"@),
            ("fields"@, "tests,testCaseResults"@),
        ],
{
    let mut link = concat2("<#E::table::", fqn);
    link.append(">");
    let mut q: Vec<(String, String)> = Vec::new();
    q.push(param("entityLink", link));
    q.push(param("fields", owned("tests,testCaseResults")));
    let r = ApiRequest { path: owned("/api/v1/dataQuality/testSuites"), query: q };
    assert(r.query_view() =~= seq![
        ("entityLink"@, "<#E::table::"@ + fqn@ + ">"@),
        ("fields"@, "tests,testCaseResults"@),
    ]);
    r
}

/// What a search that found nothing answers: `{"hits": {"hits": []}}`.
pub fn empty_search_result() -> (r: Json)
    ensures
        sole_member(r, "hits"@) matches Some(h) && empty_arrays_object(h, seq!["hits"@]),
        r.member("hits"@) matches Some(h) && h.array_member("hits"@) == Some(Seq::<Json>::empty()),
{
    let mut inner: Vec<(String, Json)> = Vec::new();
    inner.push((owned("hits"), Json::Array(Vec::new())));
    let mut outer: Vec<(String, Json)> = Vec::new();
    outer.push((owned("hits"), Json::Object(inner)));
    let r = Json::Object(outer);
    assert(r.member("hits"@) matches Some(h) && h.array_member("hits"@) =~= Some(
        Seq::<Json>::empty(),
    ));
    r
}

/// What a quality query that found nothing answers: `{"data": []}`.
pub fn empty_quality_result() -> (r: Json)
    ensures
        empty_arrays_object(r, seq!["data"@]),
        r.array_member("data"@) == Some(Seq::<Json>::empty()),
{
    let mut outer: Vec<(String, Json)> = Vec::new();
    outer.push((owned("data"), Json::Array(Vec::new())));
    let r = Json::Object(outer);
    assert(r.array_member("data"@) =~= Some(Seq::<Json>::empty()));
    r
}

// ---------------------------------------------------------------------------
// Answers and retries
// ---------------------------------------------------------------------------

/// How many times a request is sent at most.
pub const MAX_ATTEMPTS: u32 = 3;

/// 2 to the power `n`.
pub open spec fn pow2(n: nat) -> nat
    decreases n,
{
    if n == 0 {
        1
    } else {
        2 * pow2((n - 1) as nat)
    }
}

/// A 2xx status.
pub open spec fn is_success(code: u16) -> bool {
    200 <= code < 300
}

/// A 5xx status.
pub open spec fn is_server_error(code: u16) -> bool {
    500 <= code < 600
}

/// The reason phrase that the `http` crate's table gives a status code,
/// if the table has one. It depends on the code alone.
pub uninterp spec fn reason_phrase(code: u16) -> Option<Seq<char>>;

/// `reqwest::StatusCode::canonical_reason` of the status `code`: the phrase
/// that the `http` crate's table lists for it.
#[verifier::external_body]
fn canonical_reason(code: u16) -> (r: Option<String>)
    requires
        100 <= code <= 999,
    ensures
        match r {
            Some(p) => reason_phrase(code) == Some(p@),
            None => reason_phrase(code) is None,
        },
{
    match reqwest::StatusCode::from_u16(code) {
        Ok(status) => status.canonical_reason().map(|p| p.to_string()),
        Err(_) => None,
    }
}

/// How a status is shown, given the reason phrase looked up for it.
pub open spec fn status_line_with(code: u16, reason: Option<Seq<char>>) -> Seq<char> {
    decimal(code as nat) + " "@ + match reason {
        Some(p) => p,
        None => "<unknown status code>"@,
    }
}

/// How a status is shown: its number and reason phrase.
pub open spec fn status_line(code: u16) -> Seq<char> {
    status_line_with(code, reason_phrase(code))
}

/// The text of status `code` with the reason phrase `reason` (or a note that
/// there is none).
pub fn status_text_with(code: u16, reason: Option<&str>) -> (r: String)
    ensures
        r@ == status_line_with(code, opt_view(reason)),
{
    let mut r = decimal_string(code as u64);
    r.append(" ");
    match reason {
        Some(p) => r.append(p),
        None => r.append("<unknown status code>"),
    }
    r
}

/// The status `code` as text (the `Display` form of a status code).
pub fn status_text(code: u16) -> (r: String)
    requires
        100 <= code <= 999,
    ensures
        r@ == status_line(code),
{
    let reason = canonical_reason(code);
    match reason {
        Some(p) => status_text_with(code, Some(p.as_str())),
        None => status_text_with(code, None),
    }
}

/// At most the first 300 characters of a response body, as quoted in errors.
pub open spec fn body_excerpt(body: Seq<char>) -> Seq<char> {
    prefix(body, 300)
}

/// The message for a 401 answer.
pub open spec fn unauthorized_message(url: Seq<char>) -> Seq<char> {
    "401 Unauthorized from "@ + url
        + ". Check OPENMETADATA_JWT_TOKEN (Settings -> Bots -> ingestion-bot)."@
}

/// The message for a server error on the last attempt.
pub open spec fn server_error_message(code: u16, url: Seq<char>, body: Seq<char>) -> Seq<char> {
    status_line(code) + " from "@ + url + ". Check OPENMETADATA_HOST or service health.\n"@
        + body_excerpt(body)
}

/// The message for any other unexpected status.
pub open spec fn status_error_message(code: u16, url: Seq<char>, body: Seq<char>) -> Seq<char> {
    status_line(code) + " from "@ + url + ": "@ + body_excerpt(body)
}

/// What to do with one HTTP answer.
#[derive(Debug)]
pub enum Outcome {
    /// Success: decode the body.
    Decode,
    /// 404: the entity is not in the catalog.
    NotFound,
    /// Stop with this message.
    Fail(String),
    /// Stop with the message that [`failure_message`] makes from the body.
    Report,
    /// Wait this many seconds, then send again if attempts remain.
    Wait(u64),
}

/// The seconds to wait after a 429 at `attempt`: the `Retry-After` value
/// when it is an integer, else 2^attempt; never less than one.
pub open spec fn throttle_wait(attempt: u32, retry_after: Option<Seq<char>>) -> u64 {
    let w: int = match retry_after {
        Some(s) => match parse_u64_spec(s) {
            Some(n) => n as int,
            None => pow2(attempt as nat) as int,
        },
        None => pow2(attempt as nat) as int,
    };
    if w < 1 {
        1
    } else {
        w as u64
    }
}

/// The optional `Retry-After` text as a character sequence.
pub open spec fn opt_view(o: Option<&str>) -> Option<Seq<char>> {
    match o {
        Some(s) => Some(s@),
        None => None,
    }
}

fn backoff(attempt: u32) -> (r: u64)
    requires
        attempt < MAX_ATTEMPTS,
    ensures
        r == pow2(attempt as nat),
{
    proof {
        reveal_with_fuel(pow2, 3);
    }
    if attempt == 0 {
        1
    } else if attempt == 1 {
        2
    } else {
        4
    }
}

/// The successes are exactly the statuses 200 to 299.
pub proof fn law_successes_are_the_2xx_range(code: u16)
    ensures
        is_success(code) <==> 200 <= code <= 299,
{
}

/// After a 429 the wait is the Retry-After value when it is a positive
/// integer, 2^attempt when there is no usable value, and never under a
/// second.
pub proof fn law_throttle_wait(attempt: u32, retry_after: Option<Seq<char>>)
    ensures
        retry_after is Some && parse_u64_spec(retry_after->0) is Some && parse_u64_spec(
            retry_after->0,
        )->0 >= 1 ==> throttle_wait(attempt, retry_after) == parse_u64_spec(retry_after->0)->0,
        retry_after is None && attempt < MAX_ATTEMPTS ==> throttle_wait(attempt, retry_after)
            == pow2(attempt as nat),
        retry_after is Some && parse_u64_spec(retry_after->0) is None && attempt < MAX_ATTEMPTS
            ==> throttle_wait(attempt, retry_after) == pow2(attempt as nat),
        attempt < MAX_ATTEMPTS ==> throttle_wait(attempt, retry_after) >= 1,
{
    reveal_with_fuel(pow2, 3);
}

/// The server errors are exactly the statuses 500 to 599.
pub proof fn law_server_errors_are_the_5xx_range(code: u16)
    ensures
        is_server_error(code) <==> 500 <= code <= 599,
{
}

/// A server error is retried after 1 second on the first sending and after
/// 2 seconds on the second; 2^attempt is that backoff.
pub proof fn law_server_error_backoff(attempt: nat)
    ensures
        attempt == 0 ==> pow2(attempt) == 1,
        attempt == 1 ==> pow2(attempt) == 2,
        attempt == 2 ==> pow2(attempt) == 4,
        pow2(attempt + 1) == 2 * pow2(attempt),
{
    reveal_with_fuel(pow2, 3);
}

/// Exactly 429s and, while attempts remain, the statuses 500 to 599 lead to
/// a wait.
pub proof fn law_waits_exactly(attempt: nat, status: u16)
    ensures
        waits(attempt, status) <==> (status == 429 || (500 <= status <= 599 && attempt + 1
            < MAX_ATTEMPTS)),
{
}

/// The answer `status` to the `attempt`-th sending leads to a wait: a 429,
/// or a server error while attempts remain.
pub open spec fn waits(attempt: nat, status: u16) -> bool {
    status == 429 || (is_server_error(status) && attempt + 1 < MAX_ATTEMPTS)
}

/// How many times a request is sent, from the `attempt`-th sending on, when
/// the server answers with `statuses` in turn: it is sent again only after a
/// wait and while attempts remain.
pub open spec fn sends_from(attempt: nat, statuses: Seq<u16>) -> nat
    decreases statuses.len(),
{
    if statuses.len() == 0 {
        0
    } else if waits(attempt, statuses[0]) && attempt + 1 < MAX_ATTEMPTS {
        1 + sends_from(attempt + 1, statuses.drop_first())
    } else {
        1
    }
}

proof fn lemma_sends_bounded(attempt: nat, statuses: Seq<u16>)
    requires
        attempt < MAX_ATTEMPTS,
    ensures
        sends_from(attempt, statuses) + attempt <= MAX_ATTEMPTS,
    decreases statuses.len(),
{
    if statuses.len() > 0 && waits(attempt, statuses[0]) && attempt + 1 < MAX_ATTEMPTS {
        lemma_sends_bounded(attempt + 1, statuses.drop_first());
    }
}

/// Whatever the server answers, a request is sent at most `MAX_ATTEMPTS`
/// times.
pub proof fn law_at_most_max_attempts(statuses: Seq<u16>)
    ensures
        sends_from(0, statuses) <= MAX_ATTEMPTS,
{
    lemma_sends_bounded(0, statuses);
}

/// The decision for the answer `status` (with its `Retry-After` header) to
/// a request sent for the `attempt`-th time (from 0) to `url`.
pub fn respond(url: &str, attempt: u32, status: u16, retry_after: Option<&str>) -> (r: Outcome)
    requires
        attempt < MAX_ATTEMPTS,
        100 <= status <= 999,
    ensures
        (r is Wait) <==> waits(attempt as nat, status),
        is_success(status) ==> r is Decode,
        status == 404 ==> r is NotFound,
        status == 401 ==> (r matches Outcome::Fail(m) && m@ == unauthorized_message(url@)),
        status == 401 ==> (r matches Outcome::Fail(m) && m@ == "401 Unauthorized from "@ + url@
            + ". Check OPENMETADATA_JWT_TOKEN (Settings -> Bots -> ingestion-bot)."@),
        200 <= status <= 299 ==> r is Decode,
        status == 429 ==> r == Outcome::Wait(throttle_wait(attempt, opt_view(retry_after))),
        is_server_error(status) && attempt + 1 < MAX_ATTEMPTS ==> r == Outcome::Wait(
            pow2(attempt as nat) as u64,
        ),
        500 <= status <= 599 && attempt == 0 ==> r == Outcome::Wait(1),
        500 <= status <= 599 && attempt == 1 ==> r == Outcome::Wait(2),
        500 <= status <= 599 && attempt == 2 ==> r is Report,
        is_server_error(status) && attempt + 1 == MAX_ATTEMPTS ==> r is Report,
        !is_success(status) && status != 404 && status != 401 && status != 429
            && !is_server_error(status) ==> r is Report,
{
    proof {
        reveal_with_fuel(pow2, 2);
    }
    if 200 <= status && status < 300 {
        Outcome::Decode
    } else if status == 404 {
        Outcome::NotFound
    } else if status == 401 {
        let mut m = concat2("401 Unauthorized from ", url);
        m.append(". Check OPENMETADATA_JWT_TOKEN (Settings -> Bots -> ingestion-bot).");
        Outcome::Fail(m)
    } else if status == 429 {
        let parsed = match retry_after {
            Some(s) => parse_u64(s),
            None => None,
        };
        let w = match parsed {
            Some(n) => n,
            None => backoff(attempt),
        };
        Outcome::Wait(if w < 1 { 1 } else { w })
    } else if 500 <= status && status < 600 && attempt + 1 < MAX_ATTEMPTS {
        Outcome::Wait(backoff(attempt))
    } else {
        Outcome::Report
    }
}

/// The message for an answer that [`respond`] reports: a server error names
/// the host setting to check, any other status quotes the body.
pub fn failure_message(url: &str, status: u16, body: &str) -> (r: String)
    requires
        100 <= status <= 999,
    ensures
        is_server_error(status) ==> r@ == server_error_message(status, url@, body@),
        !is_server_error(status) ==> r@ == status_error_message(status, url@, body@),
        500 <= status <= 599 ==> r@ == status_line(status) + " from "@ + url@
            + ". Check OPENMETADATA_HOST or service health.\n"@ + prefix(body@, 300),
        !(500 <= status <= 599) ==> r@ == status_line(status) + " from "@ + url@ + ": "@
            + prefix(body@, 300),
{
    let mut m = status_text(status);
    m.append(" from ");
    m.append(url);
    if 500 <= status && status < 600 {
        m.append(". Check OPENMETADATA_HOST or service health.\n");
    } else {
        m.append(": ");
    }
    let excerpt = take_chars(body, 300);
    m.append(excerpt.as_str());
    m
}

/// The attempt that follows `attempt` after a wait, if any remains: a
/// request is sent at most `MAX_ATTEMPTS` times.
pub fn next_attempt(attempt: u32) -> (r: Option<u32>)
    requires
        attempt < MAX_ATTEMPTS,
    ensures
        r == if attempt + 1 < MAX_ATTEMPTS {
            Some((attempt + 1) as u32)
        } else {
            None::<u32>
        },
{
    if attempt + 1 < MAX_ATTEMPTS {
        Some(attempt + 1)
    } else {
        None
    }
}

/// The message when every attempt was answered with a wait.
pub fn exhausted_message(url: &str) -> (r: String)
    ensures
        r@ == "exceeded retries calling "@ + url@,
{
    concat2("exceeded retries calling ", url)
}

/// The message when the host cannot be reached at all.
pub fn unreachable_message(url: &str, detail: &str) -> (r: String)
    ensures
        r@ == "could not reach OpenMetadata at "@ + url@ + ": "@ + detail@
            + ". Try `ometa configure` to verify your host."@,
{
    let mut r = concat2("could not reach OpenMetadata at ", url);
    r.append(": ");
    r.append(detail);
    r.append(". Try `ometa configure` to verify your host.");
    r
}

/// The message when a successful answer's body is not the expected JSON.
pub fn decode_message(url: &str, detail: &str) -> (r: String)
    ensures
        r@ == "decoding response from "@ + url@ + ": "@ + detail@,
{
    let mut r = concat2("decoding response from ", url);
    r.append(": ");
    r.append(detail);
    r
}

} // verus!

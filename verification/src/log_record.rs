//! The request-log record: one per request, either a fixed-order quoted
//! text line or a JSON object with the full header mapping.  Every field is
//! quoted and escaped, so an emitted record is always a single line.
use crate::ascii::{
    spec_hex_digit, hex_digit, BACKSLASH, COLON, COMMA, DIGIT_ZERO, HYPHEN, LBRACE, LOWER_U,
    QUOTE, RBRACE, SPACE,
};
use crate::bytes::{append_bytes, copy_bytes, lemma_single_line_concat, single_line, text_bytes};
use crate::headers::{
    collapse, collapsed, first_value, joined_values, joined_with_commas, last_value, name_present,
    values_of,
};
use crate::http::{pairs_of, Header, Request};
use vstd::prelude::*;
use vstd::utf8::encode_utf8;

verus! {

/// The placeholder for an absent field: `-`.
pub open spec fn dash() -> Seq<u8> {
    seq![HYPHEN]
}

/// How one byte of a field is escaped inside a quoted string: `"` and `\`
/// get a backslash, control bytes become `\u00xx`, anything else stands
/// as it is.
pub open spec fn escaped_byte(b: u8) -> Seq<u8> {
    if b == QUOTE {
        seq![BACKSLASH, QUOTE]
    } else if b == BACKSLASH {
        seq![BACKSLASH, BACKSLASH]
    } else if b < 32 {
        seq![
            BACKSLASH,
            LOWER_U,
            DIGIT_ZERO,
            DIGIT_ZERO,
            spec_hex_digit(b as int / 16),
            spec_hex_digit(b as int % 16),
        ]
    } else {
        seq![b]
    }
}

/// A whole field escaped, byte by byte.
pub open spec fn escaped(s: Seq<u8>) -> Seq<u8>
    decreases s.len(),
{
    if s.len() == 0 {
        Seq::empty()
    } else {
        escaped(s.drop_last()) + escaped_byte(s.last())
    }
}

/// A field quoted: `"`, the escaped bytes, `"`.
pub open spec fn quoted(s: Seq<u8>) -> Seq<u8> {
    seq![QUOTE] + escaped(s) + seq![QUOTE]
}

/// One JSON member: quoted key, colon, quoted value.
pub open spec fn member(key: Seq<u8>, val: Seq<u8>) -> Seq<u8> {
    quoted(key) + seq![COLON] + quoted(val)
}

/// The members of the JSON header object, comma-separated, in the order of
/// the collapsed header list.
pub open spec fn members(ps: Seq<(Seq<u8>, Seq<u8>)>) -> Seq<u8> {
    joined_with_commas(ps.map_values(|p: (Seq<u8>, Seq<u8>)| member(p.0, p.1)))
}

/// The JSON object carrying a collapsed header mapping.
pub open spec fn headers_object(ps: Seq<(Seq<u8>, Seq<u8>)>) -> Seq<u8> {
    seq![LBRACE] + members(ps) + seq![RBRACE]
}

/// The JSON log record: timestamp, remote address, method, URI, and the
/// complete header mapping collapsed to one entry per name.
pub open spec fn json_record(
    ts: Seq<u8>,
    remote: Seq<u8>,
    method: Seq<u8>,
    uri: Seq<u8>,
    ps: Seq<(Seq<u8>, Seq<u8>)>,
) -> Seq<u8> {
    seq![LBRACE] + member(encode_utf8("ts"@), ts) + seq![COMMA] + member(
        encode_utf8("remote_addr"@),
        remote,
    ) + seq![COMMA] + member(encode_utf8("method"@), method) + seq![COMMA] + member(
        encode_utf8("uri"@),
        uri,
    ) + seq![COMMA] + quoted(encode_utf8("headers"@)) + seq![COLON] + headers_object(collapsed(ps))
        + seq![RBRACE]
}

/// The referrer field: the first Referer value when present and non-empty,
/// else `-`.
pub open spec fn referrer_field(ps: Seq<(Seq<u8>, Seq<u8>)>) -> Seq<u8> {
    match first_value(ps, encode_utf8("Referer"@)) {
        Option::Some(v) => if v.len() > 0 {
            v
        } else {
            dash()
        },
        Option::None => dash(),
    }
}

/// The user-agent field: the first User-Agent value when present, else `-`.
pub open spec fn user_agent_field(ps: Seq<(Seq<u8>, Seq<u8>)>) -> Seq<u8> {
    match first_value(ps, encode_utf8("User-Agent"@)) {
        Option::Some(v) => v,
        Option::None => dash(),
    }
}

/// The cookies field: all Cookie values joined with commas, or `-` when
/// none is present.
pub open spec fn cookies_field(ps: Seq<(Seq<u8>, Seq<u8>)>) -> Seq<u8> {
    if values_of(ps, encode_utf8("Cookie"@)).len() > 0 {
        joined_with_commas(values_of(ps, encode_utf8("Cookie"@)))
    } else {
        dash()
    }
}

/// The authorization field: the first Authorization value when present and
/// non-empty, else `-`.
pub open spec fn authorization_field(ps: Seq<(Seq<u8>, Seq<u8>)>) -> Seq<u8> {
    match first_value(ps, encode_utf8("Authorization"@)) {
        Option::Some(v) => if v.len() > 0 {
            v
        } else {
            dash()
        },
        Option::None => dash(),
    }
}

/// The remote-address field: the textual address when known, else `-`.
pub open spec fn remote_field(remote: Option<Seq<u8>>) -> Seq<u8> {
    match remote {
        Option::Some(a) => a,
        Option::None => dash(),
    }
}

/// The text log record: the bare timestamp, then remote address, method,
/// URI, referrer, user-agent, cookies and authorization, each quoted and
/// escaped, space-separated, in this fixed order.
pub open spec fn text_record(
    ts: Seq<u8>,
    remote: Seq<u8>,
    method: Seq<u8>,
    uri: Seq<u8>,
    ps: Seq<(Seq<u8>, Seq<u8>)>,
) -> Seq<u8> {
    ts + seq![SPACE] + quoted(remote) + seq![SPACE] + quoted(method) + seq![SPACE] + quoted(uri)
        + seq![SPACE] + quoted(referrer_field(ps)) + seq![SPACE] + quoted(user_agent_field(ps))
        + seq![SPACE] + quoted(cookies_field(ps)) + seq![SPACE] + quoted(authorization_field(ps))
}

/// Appends one escaped byte.
fn push_escaped_byte(out: &mut Vec<u8>, b: u8)
    ensures
        final(out)@ == old(out)@ + escaped_byte(b),
{
    if b == QUOTE {
        out.push(BACKSLASH);
        out.push(QUOTE);
    } else if b == BACKSLASH {
        out.push(BACKSLASH);
        out.push(BACKSLASH);
    } else if b < 32 {
        out.push(BACKSLASH);
        out.push(LOWER_U);
        out.push(DIGIT_ZERO);
        out.push(DIGIT_ZERO);
        out.push(hex_digit(b / 16));
        out.push(hex_digit(b % 16));
    } else {
        out.push(b);
    }
    proof {
        assert(out@ =~= old(out)@ + escaped_byte(b));
    }
}

/// Appends a whole field, escaped.
fn append_escaped(out: &mut Vec<u8>, s: &Vec<u8>)
    ensures
        final(out)@ == old(out)@ + escaped(s@),
{
    let mut i: usize = 0;
    while i < s.len()
        invariant
            i <= s.len(),
            out@ == old(out)@ + escaped(s@.subrange(0, i as int)),
        decreases s.len() - i,
    {
        push_escaped_byte(out, s[i]);
        i = i + 1;
        proof {
            assert(s@.subrange(0, i as int).drop_last() =~= s@.subrange(0, i as int - 1));
            assert(s@.subrange(0, i as int).last() == s@[i as int - 1]);
        }
    }
    proof {
        assert(s@.subrange(0, s@.len() as int) =~= s@);
    }
}

/// Appends a field, quoted and escaped.
fn append_quoted(out: &mut Vec<u8>, s: &Vec<u8>)
    ensures
        final(out)@ == old(out)@ + quoted(s@),
{
    out.push(QUOTE);
    append_escaped(out, s);
    out.push(QUOTE);
    proof {
        assert(out@ =~= old(out)@ + quoted(s@));
    }
}

/// Appends one JSON member with a fixed key.
fn append_member(out: &mut Vec<u8>, key: &str, val: &Vec<u8>)
    ensures
        final(out)@ == old(out)@ + member(encode_utf8(key@), val@),
{
    let kb = text_bytes(key);
    append_quoted(out, &kb);
    out.push(COLON);
    append_quoted(out, val);
    proof {
        assert(out@ =~= old(out)@ + member(encode_utf8(key@), val@));
    }
}

/// Appends the JSON object of a collapsed header list.
fn append_headers_object(out: &mut Vec<u8>, hs: &Vec<Header>)
    ensures
        final(out)@ == old(out)@ + headers_object(pairs_of(hs@)),
{
    let ghost ps = pairs_of(hs@);
    let ghost f = |p: (Seq<u8>, Seq<u8>)| member(p.0, p.1);
    out.push(LBRACE);
    let mut i: usize = 0;
    while i < hs.len()
        invariant
            i <= hs.len(),
            ps == pairs_of(hs@),
            ps.len() == hs@.len(),
            f == (|p: (Seq<u8>, Seq<u8>)| member(p.0, p.1)),
            out@ == old(out)@ + seq![LBRACE] + joined_with_commas(
                ps.subrange(0, i as int).map_values(f),
            ),
        decreases hs.len() - i,
    {
        let h = &hs[i];
        if i > 0 {
            out.push(COMMA);
        }
        let ghost pre = ps.subrange(0, i as int).map_values(f);
        out.push(QUOTE);
        append_escaped(out, &h.name);
        out.push(QUOTE);
        out.push(COLON);
        append_quoted(out, &h.value);
        i = i + 1;
        proof {
            let post = ps.subrange(0, i as int).map_values(f);
            assert(post.drop_last() =~= pre);
            assert(post.last() == f(ps[i as int - 1]));
            assert(ps[i as int - 1] == (h.name@, h.value@));
            assert(f(ps[i as int - 1]) == member(h.name@, h.value@));
            if pre.len() == 0 {
                assert(out@ =~= old(out)@ + seq![LBRACE] + joined_with_commas(post));
            } else {
                assert(out@ =~= old(out)@ + seq![LBRACE] + joined_with_commas(post));
            }
        }
    }
    out.push(RBRACE);
    proof {
        assert(ps.subrange(0, ps.len() as int) =~= ps);
        assert(out@ =~= old(out)@ + headers_object(ps));
    }
}

/// Builds the JSON log record for a request: timestamp, remote address,
/// method, URI, and the complete header mapping, one entry per name with
/// the last value winning.
pub fn json_log_record(ts: &Vec<u8>, req: &Request) -> (r: Vec<u8>)
    ensures
        r@ == json_record(
            ts@,
            remote_field(req.model().remote),
            req.method@,
            req.uri@,
            pairs_of(req.headers@),
        ),
        single_line(r@),
{
    let remote = remote_text(req);
    let mut out: Vec<u8> = Vec::new();
    out.push(LBRACE);
    append_member(&mut out, "ts", ts);
    out.push(COMMA);
    append_member(&mut out, "remote_addr", &remote);
    out.push(COMMA);
    append_member(&mut out, "method", &req.method);
    out.push(COMMA);
    append_member(&mut out, "uri", &req.uri);
    out.push(COMMA);
    let kb = text_bytes("headers");
    append_quoted(&mut out, &kb);
    out.push(COLON);
    let coll = collapse(&req.headers);
    append_headers_object(&mut out, &coll);
    out.push(RBRACE);
    proof {
        assert(out@ =~= json_record(
            ts@,
            remote_field(req.model().remote),
            req.method@,
            req.uri@,
            pairs_of(req.headers@),
        ));
        lemma_json_record_single_line(
            ts@,
            remote_field(req.model().remote),
            req.method@,
            req.uri@,
            pairs_of(req.headers@),
        );
    }
    out
}

/// Builds the JSON log record for a request at the current instant: the
/// timestamp is the one clock reading, rendered as ISO-8601; everything
/// else is exactly the record for this request.
pub fn json_log_record_now(req: &Request) -> (r: Vec<u8>)
    ensures
        exists|t: crate::clock::Timestamp|
            t.wf() && r@ == json_record(
                crate::clock::ts_text(t),
                remote_field(req.model().remote),
                req.method@,
                req.uri@,
                pairs_of(req.headers@),
            ),
        single_line(r@),
{
    let t = crate::clock::now_timestamp();
    let ts = crate::clock::format_timestamp(&t);
    let r = json_log_record(&ts, req);
    proof {
        assert(t.wf() && r@ == json_record(
            crate::clock::ts_text(t),
            remote_field(req.model().remote),
            req.method@,
            req.uri@,
            pairs_of(req.headers@),
        ));
    }
    r
}

/// Builds the text log record for a request, fields quoted and escaped in
/// their fixed order.
pub fn text_log_record(ts: &Vec<u8>, req: &Request) -> (r: Vec<u8>)
    ensures
        r@ == text_record(
            ts@,
            remote_field(req.model().remote),
            req.method@,
            req.uri@,
            pairs_of(req.headers@),
        ),
{
    let ghost ps = pairs_of(req.headers@);
    let remote = remote_text(req);
    let referrer = presence_field(&req.headers, "Referer");
    let agent = plain_field(&req.headers, "User-Agent");
    let cookies = cookie_text(&req.headers);
    let auth = presence_field(&req.headers, "Authorization");
    let mut out: Vec<u8> = Vec::new();
    append_bytes(&mut out, ts);
    out.push(SPACE);
    append_quoted(&mut out, &remote);
    out.push(SPACE);
    append_quoted(&mut out, &req.method);
    out.push(SPACE);
    append_quoted(&mut out, &req.uri);
    out.push(SPACE);
    append_quoted(&mut out, &referrer);
    out.push(SPACE);
    append_quoted(&mut out, &agent);
    out.push(SPACE);
    append_quoted(&mut out, &cookies);
    out.push(SPACE);
    append_quoted(&mut out, &auth);
    proof {
        assert(out@ =~= text_record(
            ts@,
            remote_field(req.model().remote),
            req.method@,
            req.uri@,
            ps,
        ));
    }
    out
}

/// One escaped byte never holds a line feed: a control byte, the line feed
/// itself among them, leaves only as `\u00xx`.
proof fn lemma_escaped_byte_single_line(b: u8)
    ensures
        single_line(escaped_byte(b)),
{
}

/// An escaped field never holds a line feed.
proof fn lemma_escaped_single_line(s: Seq<u8>)
    ensures
        single_line(escaped(s)),
    decreases s.len(),
{
    if s.len() > 0 {
        lemma_escaped_single_line(s.drop_last());
        lemma_escaped_byte_single_line(s.last());
        lemma_single_line_concat(escaped(s.drop_last()), escaped_byte(s.last()));
    }
}

/// A quoted field never holds a line feed.
proof fn lemma_quoted_single_line(s: Seq<u8>)
    ensures
        single_line(quoted(s)),
{
    lemma_escaped_single_line(s);
    lemma_single_line_concat(seq![QUOTE], escaped(s));
    lemma_single_line_concat(seq![QUOTE] + escaped(s), seq![QUOTE]);
}

/// One JSON member never holds a line feed.
proof fn lemma_member_single_line(k: Seq<u8>, v: Seq<u8>)
    ensures
        single_line(member(k, v)),
{
    lemma_quoted_single_line(k);
    lemma_quoted_single_line(v);
    lemma_single_line_concat(quoted(k), seq![COLON]);
    lemma_single_line_concat(quoted(k) + seq![COLON], quoted(v));
}

/// A comma-joined list of single-line values is a single line.
proof fn lemma_join_single_line(vs: Seq<Seq<u8>>)
    requires
        forall|j: int| 0 <= j < vs.len() ==> single_line(#[trigger] vs[j]),
    ensures
        single_line(joined_with_commas(vs)),
    decreases vs.len(),
{
    if vs.len() == 0 {
    } else if vs.len() == 1 {
        assert(single_line(vs[0]));
    } else {
        let rest = vs.drop_last();
        assert forall|j: int| 0 <= j < rest.len() implies single_line(#[trigger] rest[j]) by {
            assert(rest[j] == vs[j]);
        }
        lemma_join_single_line(rest);
        lemma_single_line_concat(joined_with_commas(rest), seq![COMMA]);
        lemma_single_line_concat(joined_with_commas(rest) + seq![COMMA], vs.last());
    }
}

/// A headers object never holds a line feed.
proof fn lemma_headers_object_single_line(ps: Seq<(Seq<u8>, Seq<u8>)>)
    ensures
        single_line(headers_object(ps)),
{
    let mapped = ps.map_values(|p: (Seq<u8>, Seq<u8>)| member(p.0, p.1));
    assert forall|j: int| 0 <= j < mapped.len() implies single_line(#[trigger] mapped[j]) by {
        lemma_member_single_line(ps[j].0, ps[j].1);
    }
    lemma_join_single_line(mapped);
    lemma_single_line_concat(seq![LBRACE], members(ps));
    lemma_single_line_concat(seq![LBRACE] + members(ps), seq![RBRACE]);
}

/// A JSON log record is always a single line, whatever the request held:
/// every field, the timestamp included, stands quoted and escaped in it.
/// Emitted atomically, records therefore never tear or interleave lines.
pub proof fn lemma_json_record_single_line(
    ts: Seq<u8>,
    remote: Seq<u8>,
    method: Seq<u8>,
    uri: Seq<u8>,
    ps: Seq<(Seq<u8>, Seq<u8>)>,
)
    ensures
        single_line(json_record(ts, remote, method, uri, ps)),
{
    lemma_member_single_line(encode_utf8("ts"@), ts);
    lemma_member_single_line(encode_utf8("remote_addr"@), remote);
    lemma_member_single_line(encode_utf8("method"@), method);
    lemma_member_single_line(encode_utf8("uri"@), uri);
    lemma_quoted_single_line(encode_utf8("headers"@));
    lemma_headers_object_single_line(collapsed(ps));
    let a1 = seq![LBRACE] + member(encode_utf8("ts"@), ts);
    lemma_single_line_concat(seq![LBRACE], member(encode_utf8("ts"@), ts));
    let a2 = a1 + seq![COMMA];
    lemma_single_line_concat(a1, seq![COMMA]);
    let a3 = a2 + member(encode_utf8("remote_addr"@), remote);
    lemma_single_line_concat(a2, member(encode_utf8("remote_addr"@), remote));
    let a4 = a3 + seq![COMMA];
    lemma_single_line_concat(a3, seq![COMMA]);
    let a5 = a4 + member(encode_utf8("method"@), method);
    lemma_single_line_concat(a4, member(encode_utf8("method"@), method));
    let a6 = a5 + seq![COMMA];
    lemma_single_line_concat(a5, seq![COMMA]);
    let a7 = a6 + member(encode_utf8("uri"@), uri);
    lemma_single_line_concat(a6, member(encode_utf8("uri"@), uri));
    let a8 = a7 + seq![COMMA];
    lemma_single_line_concat(a7, seq![COMMA]);
    let a9 = a8 + quoted(encode_utf8("headers"@));
    lemma_single_line_concat(a8, quoted(encode_utf8("headers"@)));
    let a10 = a9 + seq![COLON];
    lemma_single_line_concat(a9, seq![COLON]);
    let a11 = a10 + headers_object(collapsed(ps));
    lemma_single_line_concat(a10, headers_object(collapsed(ps)));
    lemma_single_line_concat(a11, seq![RBRACE]);
}

/// A text log record whose timestamp holds no line feed is a single line:
/// every other field stands quoted and escaped in it.
pub proof fn lemma_text_record_single_line(
    ts: Seq<u8>,
    remote: Seq<u8>,
    method: Seq<u8>,
    uri: Seq<u8>,
    ps: Seq<(Seq<u8>, Seq<u8>)>,
)
    requires
        single_line(ts),
    ensures
        single_line(text_record(ts, remote, method, uri, ps)),
{
    lemma_quoted_single_line(remote);
    lemma_quoted_single_line(method);
    lemma_quoted_single_line(uri);
    lemma_quoted_single_line(referrer_field(ps));
    lemma_quoted_single_line(user_agent_field(ps));
    lemma_quoted_single_line(cookies_field(ps));
    lemma_quoted_single_line(authorization_field(ps));
    let a1 = ts + seq![SPACE];
    lemma_single_line_concat(ts, seq![SPACE]);
    let a2 = a1 + quoted(remote);
    lemma_single_line_concat(a1, quoted(remote));
    let a3 = a2 + seq![SPACE];
    lemma_single_line_concat(a2, seq![SPACE]);
    let a4 = a3 + quoted(method);
    lemma_single_line_concat(a3, quoted(method));
    let a5 = a4 + seq![SPACE];
    lemma_single_line_concat(a4, seq![SPACE]);
    let a6 = a5 + quoted(uri);
    lemma_single_line_concat(a5, quoted(uri));
    let a7 = a6 + seq![SPACE];
    lemma_single_line_concat(a6, seq![SPACE]);
    let a8 = a7 + quoted(referrer_field(ps));
    lemma_single_line_concat(a7, quoted(referrer_field(ps)));
    let a9 = a8 + seq![SPACE];
    lemma_single_line_concat(a8, seq![SPACE]);
    let a10 = a9 + quoted(user_agent_field(ps));
    lemma_single_line_concat(a9, quoted(user_agent_field(ps)));
    let a11 = a10 + seq![SPACE];
    lemma_single_line_concat(a10, seq![SPACE]);
    let a12 = a11 + quoted(cookies_field(ps));
    lemma_single_line_concat(a11, quoted(cookies_field(ps)));
    let a13 = a12 + seq![SPACE];
    lemma_single_line_concat(a12, seq![SPACE]);
    lemma_single_line_concat(a13, quoted(authorization_field(ps)));
}

/// Whether `needle` stands at position `k` of `hay`.
pub open spec fn is_sub_at(hay: Seq<u8>, needle: Seq<u8>, k: int) -> bool {
    0 <= k && k + needle.len() <= hay.len() && hay.subrange(k, k + needle.len() as int) == needle
}

/// Whether `needle` occurs contiguously inside `hay`.
pub open spec fn contains_sub(hay: Seq<u8>, needle: Seq<u8>) -> bool {
    exists|k: int| is_sub_at(hay, needle, k)
}

/// A byte string occurs in itself.
proof fn lemma_contains_self(x: Seq<u8>)
    ensures
        contains_sub(x, x),
{
    assert(x.subrange(0, x.len() as int) =~= x);
    assert(is_sub_at(x, x, 0));
}

/// Occurrence survives extending the haystack on the right.
proof fn lemma_contains_left(a: Seq<u8>, b: Seq<u8>, x: Seq<u8>)
    requires
        contains_sub(a, x),
    ensures
        contains_sub(a + b, x),
{
    let k = choose|k: int| is_sub_at(a, x, k);
    assert((a + b).subrange(k, k + x.len() as int) =~= a.subrange(k, k + x.len() as int));
    assert(is_sub_at(a + b, x, k));
}

/// Occurrence survives extending the haystack on the left.
proof fn lemma_contains_right(a: Seq<u8>, b: Seq<u8>, x: Seq<u8>)
    requires
        contains_sub(b, x),
    ensures
        contains_sub(a + b, x),
{
    let k = choose|k: int| is_sub_at(b, x, k);
    assert((a + b).subrange(a.len() + k, a.len() + k + x.len() as int) =~= b.subrange(
        k,
        k + x.len() as int,
    ));
    assert(is_sub_at(a + b, x, a.len() + k));
}

/// Occurrence is transitive.
proof fn lemma_contains_trans(a: Seq<u8>, b: Seq<u8>, x: Seq<u8>)
    requires
        contains_sub(a, b),
        contains_sub(b, x),
    ensures
        contains_sub(a, x),
{
    let k1 = choose|k: int| is_sub_at(a, b, k);
    let k2 = choose|k: int| is_sub_at(b, x, k);
    assert forall|t: int| 0 <= t < x.len() implies a.subrange(
        k1 + k2,
        k1 + k2 + x.len() as int,
    )[t] == x[t] by {
        assert(a[k1 + k2 + t] == a.subrange(k1, k1 + b.len() as int)[k2 + t]);
        assert(b[k2 + t] == b.subrange(k2, k2 + x.len() as int)[t]);
    }
    assert(a.subrange(k1 + k2, k1 + k2 + x.len() as int) =~= x);
    assert(is_sub_at(a, x, k1 + k2));
}

/// A comma-joined list holds each of its values.
proof fn lemma_join_contains(vs: Seq<Seq<u8>>, j: int)
    requires
        0 <= j < vs.len(),
    ensures
        contains_sub(joined_with_commas(vs), vs[j]),
    decreases vs.len(),
{
    if vs.len() == 1 {
        lemma_contains_self(vs[0]);
    } else if j == vs.len() - 1 {
        lemma_contains_self(vs.last());
        lemma_contains_right(joined_with_commas(vs.drop_last()) + seq![COMMA], vs.last(), vs.last());
    } else {
        lemma_join_contains(vs.drop_last(), j);
        assert(vs.drop_last()[j] == vs[j]);
        lemma_contains_left(joined_with_commas(vs.drop_last()), seq![COMMA], vs[j]);
        lemma_contains_left(
            joined_with_commas(vs.drop_last()) + seq![COMMA],
            vs.last(),
            vs[j],
        );
    }
}

/// Every header present on a request appears in the emitted JSON record:
/// the record holds, as a contiguous quoted string, the escaped value of
/// that header's last occurrence.
pub proof fn lemma_json_record_holds_header(
    ts: Seq<u8>,
    remote: Seq<u8>,
    method: Seq<u8>,
    uri: Seq<u8>,
    ps: Seq<(Seq<u8>, Seq<u8>)>,
    n: Seq<u8>,
)
    requires
        name_present(ps, n),
    ensures
        contains_sub(json_record(ts, remote, method, uri, ps), quoted(last_value(ps, n))),
{
    crate::headers::lemma_collapsed_complete(ps, n);
    let c = collapsed(ps);
    let v = last_value(ps, n);
    let j = choose|j: int| 0 <= j < c.len() && c[j] == (n, v);
    let f = |p: (Seq<u8>, Seq<u8>)| member(p.0, p.1);
    let mapped = c.map_values(f);
    assert(mapped[j] == member(n, v));
    lemma_join_contains(mapped, j);
    // the member holds the quoted value as its suffix
    lemma_contains_self(quoted(v));
    lemma_contains_right(quoted(n) + seq![COLON], quoted(v), quoted(v));
    lemma_contains_trans(members(c), member(n, v), quoted(v));
    // the headers object holds the members
    lemma_contains_self(members(c));
    lemma_contains_right(seq![LBRACE], members(c), members(c));
    lemma_contains_left(seq![LBRACE] + members(c), seq![RBRACE], members(c));
    lemma_contains_trans(headers_object(c), members(c), quoted(v));
    // the record holds the headers object
    let prefix = seq![LBRACE] + member(encode_utf8("ts"@), ts) + seq![COMMA] + member(
        encode_utf8("remote_addr"@),
        remote,
    ) + seq![COMMA] + member(encode_utf8("method"@), method) + seq![COMMA] + member(
        encode_utf8("uri"@),
        uri,
    ) + seq![COMMA] + quoted(encode_utf8("headers"@)) + seq![COLON];
    lemma_contains_self(headers_object(c));
    lemma_contains_right(prefix, headers_object(c), headers_object(c));
    lemma_contains_left(prefix + headers_object(c), seq![RBRACE], headers_object(c));
    assert(json_record(ts, remote, method, uri, ps) == prefix + headers_object(c) + seq![RBRACE]);
    lemma_contains_trans(json_record(ts, remote, method, uri, ps), headers_object(c), quoted(v));
}

/// A name that no header carries has no first value.
proof fn lemma_no_name_no_first(ps: Seq<(Seq<u8>, Seq<u8>)>, name: Seq<u8>)
    requires
        forall|j: int| 0 <= j < ps.len() ==> !crate::headers::same_name(#[trigger] ps[j].0, name),
    ensures
        first_value(ps, name) is None,
    decreases ps.len(),
{
    if ps.len() > 0 {
        assert forall|j: int| 0 <= j < ps.drop_first().len() implies !crate::headers::same_name(
            #[trigger] ps.drop_first()[j].0,
            name,
        ) by {
            assert(ps.drop_first()[j] == ps[j + 1]);
        }
        lemma_no_name_no_first(ps.drop_first(), name);
    }
}

/// A name that no header carries has no values to join.
proof fn lemma_no_name_no_values(ps: Seq<(Seq<u8>, Seq<u8>)>, name: Seq<u8>)
    requires
        forall|j: int| 0 <= j < ps.len() ==> !crate::headers::same_name(#[trigger] ps[j].0, name),
    ensures
        values_of(ps, name).len() == 0,
    decreases ps.len(),
{
    if ps.len() > 0 {
        assert forall|j: int| 0 <= j < ps.drop_last().len() implies !crate::headers::same_name(
            #[trigger] ps.drop_last()[j].0,
            name,
        ) by {
            assert(ps.drop_last()[j] == ps[j]);
        }
        lemma_no_name_no_values(ps.drop_last(), name);
    }
}

/// A request without a Referer header renders `-` in the referrer field;
/// the same holds of each of the other extracted fields when its header
/// is absent.
pub proof fn lemma_absent_headers_render_dash(ps: Seq<(Seq<u8>, Seq<u8>)>)
    ensures
        (forall|j: int|
            0 <= j < ps.len() ==> !crate::headers::same_name(
                #[trigger] ps[j].0,
                encode_utf8("Referer"@),
            )) ==> referrer_field(ps) == dash(),
        (forall|j: int|
            0 <= j < ps.len() ==> !crate::headers::same_name(
                #[trigger] ps[j].0,
                encode_utf8("User-Agent"@),
            )) ==> user_agent_field(ps) == dash(),
        (forall|j: int|
            0 <= j < ps.len() ==> !crate::headers::same_name(
                #[trigger] ps[j].0,
                encode_utf8("Cookie"@),
            )) ==> cookies_field(ps) == dash(),
        (forall|j: int|
            0 <= j < ps.len() ==> !crate::headers::same_name(
                #[trigger] ps[j].0,
                encode_utf8("Authorization"@),
            )) ==> authorization_field(ps) == dash(),
{
    if forall|j: int|
        0 <= j < ps.len() ==> !crate::headers::same_name(
            #[trigger] ps[j].0,
            encode_utf8("Referer"@),
        ) {
        lemma_no_name_no_first(ps, encode_utf8("Referer"@));
    }
    if forall|j: int|
        0 <= j < ps.len() ==> !crate::headers::same_name(
            #[trigger] ps[j].0,
            encode_utf8("User-Agent"@),
        ) {
        lemma_no_name_no_first(ps, encode_utf8("User-Agent"@));
    }
    if forall|j: int|
        0 <= j < ps.len() ==> !crate::headers::same_name(
            #[trigger] ps[j].0,
            encode_utf8("Cookie"@),
        ) {
        lemma_no_name_no_values(ps, encode_utf8("Cookie"@));
    }
    if forall|j: int|
        0 <= j < ps.len() ==> !crate::headers::same_name(
            #[trigger] ps[j].0,
            encode_utf8("Authorization"@),
        ) {
        lemma_no_name_no_first(ps, encode_utf8("Authorization"@));
    }
}

/// The dash placeholder, as bytes.
fn dash_text() -> (r: Vec<u8>)
    ensures
        r@ == dash(),
{
    let mut v: Vec<u8> = Vec::new();
    v.push(HYPHEN);
    proof {
        assert(v@ =~= dash());
    }
    v
}

/// The remote-address field of a request.
fn remote_text(req: &Request) -> (r: Vec<u8>)
    ensures
        r@ == remote_field(req.model().remote),
{
    match &req.remote {
        Option::Some(a) => copy_bytes(a),
        Option::None => dash_text(),
    }
}

/// A field shown when present and non-empty, `-` otherwise.
fn presence_field(headers: &Vec<Header>, name: &str) -> (r: Vec<u8>)
    ensures
        ({
            let v = first_value(pairs_of(headers@), encode_utf8(name@));
            r@ == match v {
                Option::Some(s) => if s.len() > 0 {
                    s
                } else {
                    dash()
                },
                Option::None => dash(),
            }
        }),
{
    let nb = text_bytes(name);
    match crate::headers::find_first(headers, &nb) {
        Option::Some(v) => {
            if v.len() > 0 {
                v
            } else {
                dash_text()
            }
        },
        Option::None => dash_text(),
    }
}

/// A field shown whenever present, `-` otherwise.
fn plain_field(headers: &Vec<Header>, name: &str) -> (r: Vec<u8>)
    ensures
        ({
            let v = first_value(pairs_of(headers@), encode_utf8(name@));
            r@ == match v {
                Option::Some(s) => s,
                Option::None => dash(),
            }
        }),
{
    let nb = text_bytes(name);
    match crate::headers::find_first(headers, &nb) {
        Option::Some(v) => v,
        Option::None => dash_text(),
    }
}

/// The cookies field: all Cookie values joined with commas, `-` when none.
fn cookie_text(headers: &Vec<Header>) -> (r: Vec<u8>)
    ensures
        r@ == cookies_field(pairs_of(headers@)),
{
    let nb = text_bytes("Cookie");
    match joined_values(headers, &nb) {
        Option::Some(v) => v,
        Option::None => dash_text(),
    }
}

} // verus!

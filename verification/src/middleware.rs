//! The response-header injection that runs after every handler: it sets the
//! fixed `Server` header and the fixed `Accept-CH` client-hint list on the
//! outgoing response, replacing any prior values, and touches nothing else
//! — never the status, never the body.
use crate::bytes::{copy_bytes, text_bytes};
use crate::headers::{names_match, same_name};
use crate::http::{pairs_of, Header, Response};
use vstd::prelude::*;
use vstd::utf8::encode_utf8;

verus! {

/// The name of the fixed server header.
pub open spec fn server_name() -> Seq<u8> {
    encode_utf8("Server"@)
}

/// The fixed server header value.
pub open spec fn server_value() -> Seq<u8> {
    encode_utf8("NeXTcube"@)
}

/// The name of the client-hints header.
pub open spec fn accept_ch_name() -> Seq<u8> {
    encode_utf8("Accept-CH"@)
}

/// The fixed, hardcoded client-hint field list.
pub open spec fn accept_ch_value() -> Seq<u8> {
    encode_utf8(
        "Sec-CH-UA-Full-Version,Sec-CH-UA-Platform,Sec-CH-UA-Platform-Version,Sec-CH-UA-Arch,Sec-CH-UA-Bitness,Sec-CH-UA-Model"@,
    )
}

/// Whether a header survives the injection: everything but the two
/// injected names, compared as header names are, case-insensitively.
pub open spec fn survives(name: Seq<u8>) -> bool {
    !same_name(name, server_name()) && !same_name(name, accept_ch_name())
}

/// The header pairs that survive the injection, in order.
pub open spec fn surviving(ps: Seq<(Seq<u8>, Seq<u8>)>) -> Seq<(Seq<u8>, Seq<u8>)>
    decreases ps.len(),
{
    if ps.len() == 0 {
        Seq::empty()
    } else {
        surviving(ps.drop_last()) + (if survives(ps.last().0) {
            seq![ps.last()]
        } else {
            Seq::<(Seq<u8>, Seq<u8>)>::empty()
        })
    }
}

/// A header list after the injection: the surviving headers, then the
/// fixed `Server` header, then the fixed `Accept-CH` header.
pub open spec fn injected(ps: Seq<(Seq<u8>, Seq<u8>)>) -> Seq<(Seq<u8>, Seq<u8>)> {
    surviving(ps) + seq![(server_name(), server_value()), (accept_ch_name(), accept_ch_value())]
}

/// Sets the fixed `Server` and `Accept-CH` headers on a response,
/// replacing any prior values; the status and the body stay untouched.
pub fn inject_headers(resp: &mut Response)
    ensures
        final(resp).status == old(resp).status,
        final(resp).body@ == old(resp).body@,
        pairs_of(final(resp).headers@) == injected(pairs_of(old(resp).headers@)),
{
    let ghost ps = pairs_of(resp.headers@);
    let server = text_bytes("Server");
    let accept_ch = text_bytes("Accept-CH");
    let mut out: Vec<Header> = Vec::new();
    let mut i: usize = 0;
    while i < resp.headers.len()
        invariant
            i <= resp.headers.len(),
            ps == pairs_of(resp.headers@),
            ps.len() == resp.headers@.len(),
            server@ == server_name(),
            accept_ch@ == accept_ch_name(),
            pairs_of(out@) == surviving(ps.subrange(0, i as int)),
        decreases resp.headers.len() - i,
    {
        let h = &resp.headers[i];
        let ghost pre = ps.subrange(0, i as int);
        if !names_match(&h.name, &server) && !names_match(&h.name, &accept_ch) {
            out.push(Header { name: copy_bytes(&h.name), value: copy_bytes(&h.value) });
        }
        i = i + 1;
        proof {
            let post = ps.subrange(0, i as int);
            assert(post.drop_last() =~= pre);
            assert(post.last() == ps[i as int - 1]);
            assert(ps[i as int - 1] == (h.name@, h.value@));
            assert(pairs_of(out@) =~= surviving(post));
        }
    }
    out.push(Header { name: server, value: text_bytes("NeXTcube") });
    out.push(
        Header {
            name: accept_ch,
            value: text_bytes(
                "Sec-CH-UA-Full-Version,Sec-CH-UA-Platform,Sec-CH-UA-Platform-Version,Sec-CH-UA-Arch,Sec-CH-UA-Bitness,Sec-CH-UA-Model",
            ),
        },
    );
    proof {
        assert(ps.subrange(0, ps.len() as int) =~= ps);
        assert(pairs_of(out@) =~= injected(ps));
    }
    resp.headers = out;
}

} // verus!

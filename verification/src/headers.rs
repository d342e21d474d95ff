//! Header lookups for the request logger: case-insensitive name matching,
//! first-match lookup, joining repeated values, and collapsing a header
//! list to one entry per exact name with the last value winning.
use crate::ascii::COMMA;
use crate::bytes::{append_bytes, bytes_eq, copy_bytes};
use crate::http::{pairs_of, Header};
use vstd::prelude::*;

verus! {

/// ASCII lower case of one byte.
pub open spec fn spec_lower(b: u8) -> u8 {
    if 65 <= b <= 90 {
        (b + 32) as u8
    } else {
        b
    }
}

/// ASCII lower case of a byte string.
pub open spec fn lower(s: Seq<u8>) -> Seq<u8> {
    s.map_values(|b: u8| spec_lower(b))
}

/// Whether two header names name the same header: HTTP header names are
/// case-insensitive.
pub open spec fn same_name(a: Seq<u8>, b: Seq<u8>) -> bool {
    lower(a) == lower(b)
}

/// ASCII lower case of one byte.
pub fn lower_byte(b: u8) -> (r: u8)
    ensures
        r == spec_lower(b),
{
    if 65 <= b && b <= 90 {
        b + 32
    } else {
        b
    }
}

/// Decides whether two names name the same header.
pub fn names_match(a: &Vec<u8>, b: &Vec<u8>) -> (r: bool)
    ensures
        r == same_name(a@, b@),
{
    if a.len() != b.len() {
        proof {
            assert(lower(a@).len() != lower(b@).len());
        }
        return false;
    }
    let mut i: usize = 0;
    while i < a.len()
        invariant
            i <= a.len(),
            a@.len() == b@.len(),
            forall|j: int| 0 <= j < i ==> spec_lower(a@[j]) == spec_lower(b@[j]),
        decreases a.len() - i,
    {
        if lower_byte(a[i]) != lower_byte(b[i]) {
            proof {
                assert(lower(a@)[i as int] != lower(b@)[i as int]);
            }
            return false;
        }
        i = i + 1;
    }
    proof {
        assert(lower(a@) =~= lower(b@));
    }
    true
}

/// The value of the first header with the given name, if any.
pub open spec fn first_value(ps: Seq<(Seq<u8>, Seq<u8>)>, name: Seq<u8>) -> Option<Seq<u8>>
    decreases ps.len(),
{
    if ps.len() == 0 {
        Option::None
    } else if same_name(ps[0].0, name) {
        Option::Some(ps[0].1)
    } else {
        first_value(ps.drop_first(), name)
    }
}

/// Finds the value of the first header with the given name.
pub fn find_first(headers: &Vec<Header>, name: &Vec<u8>) -> (r: Option<Vec<u8>>)
    ensures
        match r {
            Option::Some(v) => first_value(pairs_of(headers@), name@) == Option::Some(v@),
            Option::None => first_value(pairs_of(headers@), name@) is None,
        },
{
    let ghost ps = pairs_of(headers@);
    proof {
        assert(ps.skip(0) =~= ps);
    }
    let mut i: usize = 0;
    while i < headers.len()
        invariant
            i <= headers.len(),
            ps == pairs_of(headers@),
            ps.len() == headers@.len(),
            first_value(ps, name@) == first_value(ps.skip(i as int), name@),
        decreases headers.len() - i,
    {
        let h = &headers[i];
        if names_match(&h.name, name) {
            proof {
                assert(ps.skip(i as int)[0] == ps[i as int]);
            }
            return Option::Some(copy_bytes(&h.value));
        }
        proof {
            assert(ps.skip(i as int)[0] == ps[i as int]);
            assert(ps.skip(i as int).drop_first() =~= ps.skip(i as int + 1));
        }
        i = i + 1;
    }
    proof {
        assert(ps.skip(i as int).len() == 0);
    }
    Option::None
}

/// The values of all headers with the given name, in order.
pub open spec fn values_of(ps: Seq<(Seq<u8>, Seq<u8>)>, name: Seq<u8>) -> Seq<Seq<u8>>
    decreases ps.len(),
{
    if ps.len() == 0 {
        Seq::empty()
    } else {
        values_of(ps.drop_last(), name) + (if same_name(ps.last().0, name) {
            seq![ps.last().1]
        } else {
            Seq::empty()
        })
    }
}

/// A list of values joined with commas.
pub open spec fn joined_with_commas(vs: Seq<Seq<u8>>) -> Seq<u8>
    decreases vs.len(),
{
    if vs.len() == 0 {
        Seq::empty()
    } else if vs.len() == 1 {
        vs[0]
    } else {
        joined_with_commas(vs.drop_last()) + seq![COMMA] + vs.last()
    }
}

/// Joins the values of all headers with the given name with commas;
/// nothing when no header has that name.
pub fn joined_values(headers: &Vec<Header>, name: &Vec<u8>) -> (r: Option<Vec<u8>>)
    ensures
        match r {
            Option::Some(v) => values_of(pairs_of(headers@), name@).len() > 0 && v@
                == joined_with_commas(values_of(pairs_of(headers@), name@)),
            Option::None => values_of(pairs_of(headers@), name@).len() == 0,
        },
{
    let ghost ps = pairs_of(headers@);
    let mut found = false;
    let mut acc: Vec<u8> = Vec::new();
    let mut i: usize = 0;
    while i < headers.len()
        invariant
            i <= headers.len(),
            ps == pairs_of(headers@),
            ps.len() == headers@.len(),
            found == (values_of(ps.subrange(0, i as int), name@).len() > 0),
            found ==> acc@ == joined_with_commas(values_of(ps.subrange(0, i as int), name@)),
            !found ==> acc@.len() == 0,
        decreases headers.len() - i,
    {
        let h = &headers[i];
        let ghost pre = ps.subrange(0, i as int);
        let ghost vs = values_of(pre, name@);
        if names_match(&h.name, name) {
            if found {
                acc.push(COMMA);
            }
            append_bytes(&mut acc, &h.value);
            found = true;
            proof {
                let post = ps.subrange(0, i as int + 1);
                assert(post.drop_last() =~= pre);
                assert(post.last() == ps[i as int]);
                let vs2 = values_of(post, name@);
                assert(vs2 =~= vs.push(ps[i as int].1));
                assert(vs2.drop_last() =~= vs);
                if vs.len() > 0 {
                    assert(acc@ =~= joined_with_commas(vs2));
                } else {
                    assert(acc@ =~= joined_with_commas(vs2));
                }
            }
        } else {
            proof {
                let post = ps.subrange(0, i as int + 1);
                assert(post.drop_last() =~= pre);
                assert(post.last() == ps[i as int]);
                assert(values_of(post, name@) =~= vs);
            }
        }
        i = i + 1;
    }
    proof {
        assert(ps.subrange(0, ps.len() as int) =~= ps);
    }
    if found {
        Option::Some(acc)
    } else {
        Option::None
    }
}

/// Whether some pair in `ps` has exactly the name `n`.
pub open spec fn name_present(ps: Seq<(Seq<u8>, Seq<u8>)>, n: Seq<u8>) -> bool {
    exists|j: int| 0 <= j < ps.len() && ps[j].0 == n
}

/// Whether the pair `(n, v)` occurs in `ps`.
pub open spec fn entry_present(ps: Seq<(Seq<u8>, Seq<u8>)>, n: Seq<u8>, v: Seq<u8>) -> bool {
    exists|j: int| 0 <= j < ps.len() && ps[j] == (n, v)
}

/// The value of the last pair named exactly `n` (meaningful when present).
pub open spec fn last_value(ps: Seq<(Seq<u8>, Seq<u8>)>, n: Seq<u8>) -> Seq<u8>
    decreases ps.len(),
{
    if ps.len() == 0 {
        Seq::empty()
    } else if ps.last().0 == n {
        ps.last().1
    } else {
        last_value(ps.drop_last(), n)
    }
}

/// `ps` with the entry named `n` set to `v`: replaced in place when the
/// name is already there, appended otherwise.
pub open spec fn upsert(ps: Seq<(Seq<u8>, Seq<u8>)>, n: Seq<u8>, v: Seq<u8>) -> Seq<
    (Seq<u8>, Seq<u8>),
> {
    if name_present(ps, n) {
        ps.map_values(
            |p: (Seq<u8>, Seq<u8>)|
                if p.0 == n {
                    (n, v)
                } else {
                    p
                },
        )
    } else {
        ps.push((n, v))
    }
}

/// The header list collapsed to one entry per exact name: first-occurrence
/// order, the last value winning.
pub open spec fn collapsed(ps: Seq<(Seq<u8>, Seq<u8>)>) -> Seq<(Seq<u8>, Seq<u8>)>
    decreases ps.len(),
{
    if ps.len() == 0 {
        Seq::empty()
    } else {
        upsert(collapsed(ps.drop_last()), ps.last().0, ps.last().1)
    }
}

/// No two pairs share a name.
pub open spec fn distinct_names(ps: Seq<(Seq<u8>, Seq<u8>)>) -> bool {
    forall|j: int, k: int| 0 <= j < k < ps.len() ==> ps[j].0 != ps[k].0
}

/// An upsert holds the entry it set.
proof fn lemma_upsert_has(ps: Seq<(Seq<u8>, Seq<u8>)>, n: Seq<u8>, v: Seq<u8>)
    ensures
        entry_present(upsert(ps, n, v), n, v),
{
    if name_present(ps, n) {
        let j = choose|j: int| 0 <= j < ps.len() && ps[j].0 == n;
        assert(upsert(ps, n, v)[j] == (n, v));
    } else {
        assert(upsert(ps, n, v)[ps.len() as int] == (n, v));
    }
}

/// An upsert under one name keeps every entry under another name.
proof fn lemma_upsert_keeps(ps: Seq<(Seq<u8>, Seq<u8>)>, n: Seq<u8>, v: Seq<u8>, m: Seq<u8>, w: Seq<u8>)
    requires
        m != n,
        entry_present(ps, m, w),
    ensures
        entry_present(upsert(ps, n, v), m, w),
{
    let j = choose|j: int| 0 <= j < ps.len() && ps[j] == (m, w);
    if name_present(ps, n) {
        assert(upsert(ps, n, v)[j] == (m, w));
    } else {
        assert(upsert(ps, n, v)[j] == (m, w));
    }
}

/// Every header name present in a request appears in the collapsed list,
/// carrying the value of its last occurrence.
pub proof fn lemma_collapsed_complete(ps: Seq<(Seq<u8>, Seq<u8>)>, n: Seq<u8>)
    requires
        name_present(ps, n),
    ensures
        entry_present(collapsed(ps), n, last_value(ps, n)),
    decreases ps.len(),
{
    let rest = ps.drop_last();
    if ps.last().0 == n {
        lemma_upsert_has(collapsed(rest), n, ps.last().1);
    } else {
        let j = choose|j: int| 0 <= j < ps.len() && ps[j].0 == n;
        assert(rest[j] == ps[j]);
        assert(name_present(rest, n));
        lemma_collapsed_complete(rest, n);
        lemma_upsert_keeps(collapsed(rest), ps.last().0, ps.last().1, n, last_value(rest, n));
    }
}

/// An upsert into a list of distinct names keeps the names distinct.
proof fn lemma_upsert_distinct(ps: Seq<(Seq<u8>, Seq<u8>)>, n: Seq<u8>, v: Seq<u8>)
    requires
        distinct_names(ps),
    ensures
        distinct_names(upsert(ps, n, v)),
{
    let r = upsert(ps, n, v);
    if name_present(ps, n) {
        assert forall|a: int, b: int| 0 <= a < b < r.len() implies r[a].0 != r[b].0 by {
            assert(r[a].0 == ps[a].0);
            assert(r[b].0 == ps[b].0);
        }
    } else {
        assert forall|a: int, b: int| 0 <= a < b < r.len() implies r[a].0 != r[b].0 by {
            if b < ps.len() {
                assert(r[a] == ps[a] && r[b] == ps[b]);
            } else {
                assert(r[a] == ps[a] && r[b] == (n, v));
            }
        }
    }
}

/// The collapsed header list names each header once: the JSON record's
/// header object is a genuine mapping, no key repeated.
pub proof fn lemma_collapsed_distinct(ps: Seq<(Seq<u8>, Seq<u8>)>)
    ensures
        distinct_names(collapsed(ps)),
    decreases ps.len(),
{
    if ps.len() > 0 {
        lemma_collapsed_distinct(ps.drop_last());
        lemma_upsert_distinct(collapsed(ps.drop_last()), ps.last().0, ps.last().1);
    }
}

/// Collapses a header list to one entry per exact name, in first-occurrence
/// order, the last value winning — the form the JSON log record carries.
pub fn collapse(headers: &Vec<Header>) -> (r: Vec<Header>)
    ensures
        pairs_of(r@) == collapsed(pairs_of(headers@)),
{
    let ghost ps = pairs_of(headers@);
    let mut out: Vec<Header> = Vec::new();
    let mut i: usize = 0;
    while i < headers.len()
        invariant
            i <= headers.len(),
            ps == pairs_of(headers@),
            ps.len() == headers@.len(),
            pairs_of(out@) == collapsed(ps.subrange(0, i as int)),
            distinct_names(pairs_of(out@)),
        decreases headers.len() - i,
    {
        let h = &headers[i];
        let ghost pre = ps.subrange(0, i as int);
        let ghost cur = pairs_of(out@);
        let mut j: usize = 0;
        let mut found = false;
        while j < out.len() && !found
            invariant
                j <= out.len(),
                cur == pairs_of(out@),
                cur.len() == out@.len(),
                !found ==> forall|k: int| 0 <= k < j ==> cur[k].0 != h.name@,
                found ==> j < out.len() && cur[j as int].0 == h.name@,
            decreases out.len() - j + (if found { 0int } else { 1int }),
        {
            if bytes_eq(&out[j].name, &h.name) {
                found = true;
            } else {
                j = j + 1;
            }
        }
        let ghost post = ps.subrange(0, i as int + 1);
        proof {
            assert(post.drop_last() =~= pre);
            assert(post.last() == ps[i as int]);
            assert(ps[i as int] == (h.name@, h.value@));
        }
        if found {
            out[j] = Header { name: copy_bytes(&h.name), value: copy_bytes(&h.value) };
            proof {
                assert(name_present(cur, h.name@));
                let mapped = cur.map_values(
                    |p: (Seq<u8>, Seq<u8>)|
                        if p.0 == h.name@ {
                            (h.name@, h.value@)
                        } else {
                            p
                        },
                );
                assert forall|k: int| 0 <= k < cur.len() implies pairs_of(out@)[k] == mapped[k] by {
                    if k == j as int {
                        assert(pairs_of(out@)[k] == (h.name@, h.value@));
                    } else {
                        if cur[k].0 == h.name@ {
                            assert(false);
                        }
                        assert(pairs_of(out@)[k] == cur[k]);
                    }
                }
                assert(pairs_of(out@) =~= mapped);
                assert(pairs_of(out@) =~= collapsed(post));
                assert(distinct_names(pairs_of(out@)));
            }
        } else {
            out.push(Header { name: copy_bytes(&h.name), value: copy_bytes(&h.value) });
            proof {
                assert(!name_present(cur, h.name@));
                assert(pairs_of(out@) =~= cur.push((h.name@, h.value@)));
                assert(pairs_of(out@) =~= collapsed(post));
                assert forall|a: int, b: int|
                    0 <= a < b < pairs_of(out@).len() implies pairs_of(out@)[a].0 != pairs_of(
                    out@,
                )[b].0 by {
                    if b == cur.len() as int {
                        assert(pairs_of(out@)[a] == cur[a]);
                    }
                }
            }
        }
        i = i + 1;
    }
    proof {
        assert(ps.subrange(0, ps.len() as int) =~= ps);
    }
    out
}

} // verus!

//! The body size cap for the upload and dump handlers, and the streaming
//! discipline around it: bodies arrive in bounded chunks, a running budget
//! admits each chunk in turn, and a body over the cap fails deterministically
//! — no byte beyond the cap is ever admitted.
use crate::ascii::LF;
use crate::bytes::append_bytes;
use vstd::prelude::*;

verus! {

/// Maximum request body size accepted by the upload and dump handlers,
/// in bytes (1 MiB).
pub const BODY_CAP: u64 = 1048576;

/// A body of `len` bytes is admitted exactly when it does not exceed `cap`.
pub fn within_cap(len: u64, cap: u64) -> (r: bool)
    ensures
        r == (len <= cap),
{
    len <= cap
}

/// What a capped transfer admits of a whole body: the body itself when it is
/// within the cap, nothing otherwise.
pub open spec fn admitted(body: Seq<u8>, cap: nat) -> Option<Seq<u8>> {
    if body.len() <= cap {
        Option::Some(body)
    } else {
        Option::None
    }
}

/// All chunks of a chunked body, concatenated in order.
pub open spec fn flat(chunks: Seq<Seq<u8>>) -> Seq<u8>
    decreases chunks.len(),
{
    if chunks.len() == 0 {
        Seq::empty()
    } else {
        flat(chunks.drop_last()) + chunks.last()
    }
}

/// Concatenation of chunk lists flattens piecewise.
pub proof fn lemma_flat_append(a: Seq<Seq<u8>>, b: Seq<Seq<u8>>)
    ensures
        flat(a + b) == flat(a) + flat(b),
    decreases b.len(),
{
    if b.len() == 0 {
        assert(a + b =~= a);
        assert(flat(a) + flat(b) =~= flat(a));
    } else {
        lemma_flat_append(a, b.drop_last());
        assert((a + b).drop_last() =~= a + b.drop_last());
        assert((a + b).last() == b.last());
        assert(flat(a) + flat(b.drop_last()) + b.last() =~= flat(a) + (flat(b.drop_last())
            + b.last()));
    }
}

/// A prefix of the chunk list never flattens to more bytes than the whole.
pub proof fn lemma_flat_prefix_len(chunks: Seq<Seq<u8>>, i: int)
    requires
        0 <= i <= chunks.len(),
    ensures
        flat(chunks.subrange(0, i)).len() <= flat(chunks).len(),
{
    let pre = chunks.subrange(0, i);
    let rest = chunks.subrange(i, chunks.len() as int);
    assert(chunks =~= pre + rest);
    lemma_flat_append(pre, rest);
}

/// The cap boundary: a body of exactly the cap size is admitted whole,
/// and a body one byte over the cap fails, always.
pub proof fn lemma_cap_boundary(body: Seq<u8>, cap: nat)
    ensures
        body.len() == cap ==> admitted(body, cap) == Option::Some(body),
        body.len() == cap + 1 ==> admitted(body, cap) is None,
{
}

/// The running budget of one capped body transfer.  Each chunk is admitted
/// in full or the transfer fails; what was admitted never exceeds the cap.
pub struct BodyBudget {
    /// The cap this transfer runs under.
    pub cap: u64,
    /// Bytes admitted so far.
    pub used: u64,
}

impl BodyBudget {
    /// The budget's invariant: what was admitted is within the cap.
    pub open spec fn wf(self) -> bool {
        self.used <= self.cap
    }

    /// A fresh budget under `cap` with nothing admitted yet.
    pub fn new(cap: u64) -> (r: BodyBudget)
        ensures
            r.wf(),
            r.cap == cap,
            r.used == 0,
    {
        BodyBudget { cap, used: 0 }
    }

    /// Admits a chunk of `len` bytes in full, or refuses it: it is admitted
    /// exactly when the whole of it still fits under the cap.
    pub fn accept(&mut self, len: usize) -> (r: bool)
        requires
            old(self).wf(),
        ensures
            final(self).wf(),
            final(self).cap == old(self).cap,
            r == (old(self).used + len <= old(self).cap),
            r ==> final(self).used == old(self).used + len,
            !r ==> final(self).used == old(self).used,
    {
        if len as u64 <= self.cap - self.used {
            self.used = self.used + len as u64;
            true
        } else {
            false
        }
    }
}

/// Collects a chunked body under a cap: yields the whole body exactly when
/// it is within the cap, and fails — admitting no byte beyond the cap —
/// otherwise.  A body of exactly the cap size succeeds; one byte more fails.
pub fn collect_within_cap(chunks: &Vec<Vec<u8>>, cap: u64) -> (r: Option<Vec<u8>>)
    ensures
        match r {
            Option::Some(body) => admitted(flat(chunks.deep_view()), cap as nat) == Option::Some(
                body@,
            ),
            Option::None => admitted(flat(chunks.deep_view()), cap as nat) is None,
        },
{
    let ghost cs = chunks.deep_view();
    let mut budget = BodyBudget::new(cap);
    let mut body: Vec<u8> = Vec::new();
    let mut i: usize = 0;
    while i < chunks.len()
        invariant
            i <= chunks.len(),
            cs == chunks.deep_view(),
            cs.len() == chunks@.len(),
            forall|j: int| 0 <= j < cs.len() ==> cs[j] == chunks@[j]@,
            budget.wf(),
            budget.cap == cap,
            body@ == flat(cs.subrange(0, i as int)),
            budget.used == body@.len(),
        decreases chunks.len() - i,
    {
        let chunk = &chunks[i];
        if !budget.accept(chunk.len()) {
            proof {
                assert(cs.subrange(0, i as int + 1).drop_last() =~= cs.subrange(0, i as int));
                assert(flat(cs.subrange(0, i as int + 1)).len() > cap);
                lemma_flat_prefix_len(cs, i as int + 1);
            }
            return Option::None;
        }
        append_bytes(&mut body, chunk);
        i = i + 1;
        proof {
            assert(cs.subrange(0, i as int).drop_last() =~= cs.subrange(0, i as int - 1));
            assert(body@ =~= flat(cs.subrange(0, i as int)));
        }
    }
    proof {
        assert(cs.subrange(0, cs.len() as int) =~= cs);
    }
    Option::Some(body)
}

/// What the dump handler writes to its sink for a chunked body within the
/// cap: the body followed by one trailing newline; a body over the cap
/// fails instead.
pub open spec fn dump_output(body: Seq<u8>, cap: nat) -> Option<Seq<u8>> {
    match admitted(body, cap) {
        Option::Some(b) => Option::Some(b + seq![LF]),
        Option::None => Option::None,
    }
}

/// Collects a chunked body for the dump handler: the body with a trailing
/// newline when it is within the cap, failure otherwise.
pub fn collect_dump_output(chunks: &Vec<Vec<u8>>, cap: u64) -> (r: Option<Vec<u8>>)
    ensures
        match r {
            Option::Some(out) => dump_output(flat(chunks.deep_view()), cap as nat) == Option::Some(
                out@,
            ),
            Option::None => dump_output(flat(chunks.deep_view()), cap as nat) is None,
        },
{
    match collect_within_cap(chunks, cap) {
        Option::Some(mut body) => {
            body.push(LF);
            proof {
                assert(body@ =~= flat(chunks.deep_view()) + seq![LF]);
            }
            Option::Some(body)
        },
        Option::None => Option::None,
    }
}

} // verus!

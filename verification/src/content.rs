use vstd::prelude::*;

verus! {

/// What a comparison of two byte streams does with the bytes at hand.
#[derive(Debug, Clone, Copy, PartialEq, Eq)]
pub enum ContentStep {
    /// Both streams are exhausted: their contents are equal.
    Same,
    /// The streams differ.
    Different,
    /// The first `n` bytes of both buffers agree: consume them and go on.
    Consume(usize),
}

/// The step for the buffered bytes `a` and `b` of two streams, where a buffer
/// is empty only at the end of its stream.
pub open spec fn content_step(a: Seq<u8>, b: Seq<u8>) -> ContentStep {
    if a.len() == 0 && b.len() == 0 {
        ContentStep::Same
    } else if a.len() == 0 || b.len() == 0 {
        ContentStep::Different
    } else {
        let n = if a.len() < b.len() {
            a.len()
        } else {
            b.len()
        };
        if a.take(n as int) != b.take(n as int) {
            ContentStep::Different
        } else {
            ContentStep::Consume(n as usize)
        }
    }
}

/// Decides, from the bytes buffered of each stream, how the comparison goes on.
pub fn compare_buffers(a: &[u8], b: &[u8]) -> (r: ContentStep)
    ensures
        r == content_step(a@, b@),
        r matches ContentStep::Consume(n) ==> 0 < n <= a@.len() && n <= b@.len(),
{
    if a.len() == 0 && b.len() == 0 {
        return ContentStep::Same;
    }
    if a.len() == 0 || b.len() == 0 {
        return ContentStep::Different;
    }
    let n = if a.len() < b.len() {
        a.len()
    } else {
        b.len()
    };
    let mut i: usize = 0;
    while i < n
        invariant
            n <= a@.len(),
            n <= b@.len(),
            i <= n,
            forall|j: int| 0 <= j < i ==> a@[j] == b@[j],
        decreases n - i,
    {
        if a[i] != b[i] {
            assert(a@.take(n as int)[i as int] != b@.take(n as int)[i as int]);
            return ContentStep::Different;
        }
        i = i + 1;
    }
    assert(a@.take(n as int) =~= b@.take(n as int));
    ContentStep::Consume(n)
}

/// A comparison step is sound. For streams `rest_a` and `rest_b` whose buffered
/// bytes are `a` and `b` (a buffer is a non-empty prefix of its stream, or empty
/// at its end): `Same` means the streams are equal, `Different` that they are not,
/// and `Consume(n)` that they are equal exactly when they are equal after `n` bytes.
pub proof fn lemma_content_step_sound(rest_a: Seq<u8>, rest_b: Seq<u8>, a: Seq<u8>, b: Seq<u8>)
    requires
        a.len() <= usize::MAX,
        b.len() <= usize::MAX,
        a.len() <= rest_a.len(),
        b.len() <= rest_b.len(),
        a == rest_a.take(a.len() as int),
        b == rest_b.take(b.len() as int),
        a.len() == 0 <==> rest_a.len() == 0,
        b.len() == 0 <==> rest_b.len() == 0,
    ensures
        content_step(a, b) == ContentStep::Same ==> rest_a == rest_b,
        content_step(a, b) == ContentStep::Different ==> rest_a != rest_b,
        content_step(a, b) matches ContentStep::Consume(n) ==> (rest_a == rest_b <==> rest_a.skip(
            n as int,
        ) == rest_b.skip(n as int)),
{
    if a.len() == 0 && b.len() == 0 {
        assert(rest_a =~= rest_b);
    } else if a.len() == 0 || b.len() == 0 {
    } else {
        let n = if a.len() < b.len() {
            a.len()
        } else {
            b.len()
        };
        if a.take(n as int) != b.take(n as int) {
            if rest_a == rest_b {
                assert(a.take(n as int) =~= b.take(n as int));
            }
        } else {
            assert((n as usize) as int == n);
            if rest_a.skip(n as int) == rest_b.skip(n as int) {
                assert(rest_a.len() == rest_b.len()) by {
                    assert(rest_a.skip(n as int).len() == rest_b.skip(n as int).len());
                }
                assert forall|k: int| 0 <= k < rest_a.len() implies rest_a[k] == rest_b[k] by {
                    if k < n {
                        assert(a.take(n as int)[k] == b.take(n as int)[k]);
                        assert(a[k] == rest_a[k]);
                        assert(b[k] == rest_b[k]);
                    } else {
                        assert(rest_a.skip(n as int)[k - n] == rest_b.skip(n as int)[k - n]);
                    }
                }
                assert(rest_a =~= rest_b);
            }
        }
    }
}

/// How many bytes of `rest` a reader has buffered when it was asked for up to
/// `wanted`: at least one while the stream is not at its end, never more than is left
/// nor more than a buffer in memory can hold.
pub open spec fn buffered_len(rest: Seq<u8>, wanted: nat) -> int {
    let w: int = if wanted == 0 {
        1
    } else if wanted > usize::MAX {
        usize::MAX as int
    } else {
        wanted as int
    };
    if rest.len() == 0 {
        0
    } else if w < rest.len() {
        w
    } else {
        rest.len() as int
    }
}

/// The outcome of comparing the streams `a` and `b` step by step, where at step `k`
/// the readers have buffered `buffered_len(.., chunk_a(k))` and `buffered_len(..,
/// chunk_b(k))` bytes: any way in which two readers may split their data.
pub open spec fn compare_streams(
    a: Seq<u8>,
    b: Seq<u8>,
    chunk_a: spec_fn(int) -> nat,
    chunk_b: spec_fn(int) -> nat,
    k: int,
) -> bool
    decreases a.len() + b.len(),
{
    let ba = a.take(buffered_len(a, chunk_a(k)));
    let bb = b.take(buffered_len(b, chunk_b(k)));
    match content_step(ba, bb) {
        ContentStep::Same => true,
        ContentStep::Different => false,
        ContentStep::Consume(n) => if 0 < n && n <= a.len() && n <= b.len() {
            compare_streams(a.skip(n as int), b.skip(n as int), chunk_a, chunk_b, k + 1)
        } else {
            false
        },
    }
}

/// Comparing two streams step by step with `compare_buffers` tells whether they are
/// equal, however the readers split their data.
pub proof fn lemma_any_chunking_decides(
    a: Seq<u8>,
    b: Seq<u8>,
    chunk_a: spec_fn(int) -> nat,
    chunk_b: spec_fn(int) -> nat,
    k: int,
)
    ensures
        compare_streams(a, b, chunk_a, chunk_b, k) == (a == b),
    decreases a.len() + b.len(),
{
    let ba = a.take(buffered_len(a, chunk_a(k)));
    let bb = b.take(buffered_len(b, chunk_b(k)));
    let la = buffered_len(a, chunk_a(k));
    let lb = buffered_len(b, chunk_b(k));
    assert(0 <= la <= a.len() && 0 <= lb <= b.len() && la <= usize::MAX && lb <= usize::MAX);
    assert(ba.len() == la && bb.len() == lb);
    lemma_content_step_sound(a, b, ba, bb);
    match content_step(ba, bb) {
        ContentStep::Consume(n) => {
            let m = if la < lb { la } else { lb };
            assert((m as usize) as int == m);
            assert(n == m);
            lemma_any_chunking_decides(a.skip(n as int), b.skip(n as int), chunk_a, chunk_b, k + 1);
        },
        _ => {},
    }
}

} // verus!

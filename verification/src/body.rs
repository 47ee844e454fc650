//! Streaming payload bodies.
//!
//! A [`Body`] is a single-use, lazily-consumed sequence of byte chunks. It is
//! drained at most once: after the chunks have been pulled, further pulls
//! yield end-of-data again, never a repetition of the data.

use vstd::prelude::*;

verus! {

/// An I/O failure reported by a body's underlying byte source.
#[derive(Clone, Copy, Debug, PartialEq, Eq, Structural)]
pub struct BodyError;

/// The concatenation of a sequence of byte chunks.
pub open spec fn concat_bytes(chunks: Seq<Seq<u8>>) -> Seq<u8>
    decreases chunks.len(),
{
    if chunks.len() == 0 {
        Seq::empty()
    } else {
        chunks[0] + concat_bytes(chunks.skip(1))
    }
}

/// Concatenating a single chunk yields that chunk.
pub proof fn lemma_concat_bytes_singleton(chunk: Seq<u8>)
    ensures
        concat_bytes(seq![chunk]) == chunk,
{
    let s = seq![chunk];
    assert(s.skip(1) =~= Seq::<Seq<u8>>::empty());
    assert(concat_bytes(s.skip(1)) == Seq::<u8>::empty()) by {
        reveal_with_fuel(concat_bytes, 2);
    }
    assert(concat_bytes(s) =~= chunk);
}

/// An in-memory stand-in for an asynchronous byte source: the chunks it will
/// yield in order, and whether, after them, it fails instead of signalling a
/// clean end-of-data.
pub struct ByteSource {
    /// The chunks the source yields, front first.
    pub chunks: Vec<Vec<u8>>,
    /// Whether the source fails after its chunks instead of ending cleanly.
    pub fails: bool,
}

/// A single-use sequence of byte chunks carrying a request or response
/// payload.
///
/// A body is consumed at most once: pulling removes chunks, and once
/// end-of-data has been reached, further pulls yield end-of-data again.
pub struct Body {
    chunks: Vec<Vec<u8>>,
    fails: bool,
}

impl Body {
    /// The chunks not yet pulled, front first.
    pub closed spec fn pending(self) -> Seq<Seq<u8>> {
        self.chunks@.map_values(|c: Vec<u8>| c@)
    }

    /// Whether the underlying source fails after the pending chunks, instead
    /// of ending cleanly.
    pub closed spec fn will_fail(self) -> bool {
        self.fails
    }

    /// All bytes the body has still to yield, in order.
    pub open spec fn bytes(self) -> Seq<u8> {
        concat_bytes(self.pending())
    }

    /// A body with nothing left to yield and no failure to come: every
    /// further pull signals end-of-data.
    pub open spec fn is_drained(self) -> bool {
        self.pending().len() == 0 && !self.will_fail()
    }

    /// A body that immediately signals end-of-data.
    pub fn empty() -> (b: Body)
        ensures
            b.pending() == Seq::<Seq<u8>>::empty(),
            !b.will_fail(),
            b.is_drained(),
            b.bytes() == Seq::<u8>::empty(),
    {
        let b = Body { chunks: Vec::new(), fails: false };
        proof {
            assert(b.pending() =~= Seq::<Seq<u8>>::empty());
        }
        b
    }

    /// A body that yields the buffer's contents as a single chunk, then
    /// signals end-of-data.
    pub fn from_bytes(buffer: Vec<u8>) -> (b: Body)
        ensures
            b.pending() == seq![buffer@],
            !b.will_fail(),
            b.bytes() == buffer@,
    {
        let mut chunks = Vec::new();
        let ghost buf_view = buffer@;
        chunks.push(buffer);
        let b = Body { chunks, fails: false };
        proof {
            assert(b.pending() =~= seq![buf_view]);
            lemma_concat_bytes_singleton(buf_view);
        }
        b
    }

    /// A body that pulls its chunks from the given source on demand. The
    /// yielded sequence ends when the source signals end-of-data or fails.
    pub fn from_source(source: ByteSource) -> (b: Body)
        ensures
            b.pending() == source.chunks@.map_values(|c: Vec<u8>| c@),
            b.will_fail() == source.fails,
    {
        Body { chunks: source.chunks, fails: source.fails }
    }

    /// Pulls the next chunk.
    ///
    /// Yields the front pending chunk while one remains; at a clean end of
    /// data yields `Ok(None)`, idempotently; a failing source reports its
    /// failure once, after which the body is drained.
    pub fn pull(&mut self) -> (r: Result<Option<Vec<u8>>, BodyError>)
        ensures
            match r {
                Ok(Some(chunk)) => {
                    &&& old(self).pending().len() > 0
                    &&& chunk@ == old(self).pending()[0]
                    &&& final(self).pending() == old(self).pending().skip(1)
                    &&& final(self).will_fail() == old(self).will_fail()
                },
                Ok(None) => {
                    &&& old(self).is_drained()
                    &&& final(self).is_drained()
                },
                Err(_) => {
                    &&& old(self).pending().len() == 0
                    &&& old(self).will_fail()
                    &&& final(self).is_drained()
                },
            },
    {
        if self.chunks.len() > 0 {
            let chunk = self.chunks.remove(0);
            proof {
                assert(self.pending() =~= old(self).pending().skip(1));
            }
            Ok(Some(chunk))
        } else if self.fails {
            self.fails = false;
            Err(BodyError)
        } else {
            Ok(None)
        }
    }

    /// Repeatedly pulls chunks until end-of-data, concatenating them into one
    /// buffer.
    ///
    /// Fails if the source fails; no partial buffer is returned then, and the
    /// bytes read before the failure are discarded. Either way the body is
    /// drained afterwards.
    pub fn drain_to_buffer(&mut self) -> (r: Result<Vec<u8>, BodyError>)
        ensures
            final(self).is_drained(),
            match r {
                Ok(buffer) => !old(self).will_fail() && buffer@ == old(self).bytes(),
                Err(_) => old(self).will_fail(),
            },
    {
        let mut buffer: Vec<u8> = Vec::new();
        loop
            invariant
                self.will_fail() == old(self).will_fail(),
                buffer@ + self.bytes() == old(self).bytes(),
            decreases self.pending().len(),
        {
            let ghost before = self.pending();
            match self.pull() {
                Ok(Some(mut chunk)) => {
                    buffer.append(&mut chunk);
                    proof {
                        assert(concat_bytes(before) == before[0] + concat_bytes(before.skip(1)));
                    }
                }
                Ok(None) => {
                    proof {
                        assert(buffer@ + self.bytes() =~= buffer@);
                    }
                    return Ok(buffer);
                }
                Err(_) => {
                    return Err(BodyError);
                }
            }
        }
    }
}

/// Round trip: a body built from a byte buffer yields exactly that buffer.
///
/// A body whose pending chunks are the single chunk `buffer` — as
/// `Body::from_bytes` ensures — has exactly `buffer` as its bytes, so
/// draining it yields `buffer` and nothing else.
pub proof fn lemma_from_bytes_round_trip(b: Body, buffer: Seq<u8>)
    requires
        b.pending() == seq![buffer],
        !b.will_fail(),
    ensures
        b.bytes() == buffer,
{
    lemma_concat_bytes_singleton(buffer);
}

/// Single use: a drained body yields no further data.
///
/// After a drain, the body is drained — `Body::drain_to_buffer` ensures it —
/// and a drained body has no bytes left, so a second drain returns the empty
/// buffer, never a repetition of the first drain's data.
pub proof fn lemma_drained_body_yields_nothing(b: Body)
    requires
        b.is_drained(),
    ensures
        b.bytes() == Seq::<u8>::empty(),
{
    assert(b.pending() =~= Seq::<Seq<u8>>::empty());
}

} // verus!

//! Byte sources, and a blob that is read as one.

use vstd::prelude::*;

verus! {

/// A single-pass byte source: each call of `read` hands over the next bytes of the stream.
pub trait Source {
    /// What a failed read reports.
    type Error;

    /// What one read may do to a source that is `self` before it: leave it as `after`, make
    /// `filled` of the buffer `buf`, and answer `res`. A kind of source that knows what its reads
    /// do says so here; of any other kind nothing is said.
    open spec fn read_allows(
        &self,
        after: &Self,
        buf: Seq<u8>,
        filled: Seq<u8>,
        res: Result<usize, Self::Error>,
    ) -> bool {
        true
    }

    /// Reads at most `buf.len()` bytes into the front of `buf` and returns how many were read.
    /// A result of 0 for a non-empty `buf` means that the stream has ended.
    fn read(&mut self, buf: &mut [u8]) -> (res: Result<usize, Self::Error>)
        ensures
            final(buf)@.len() == old(buf)@.len(),
            res matches Ok(n) ==> n <= old(buf)@.len(),
            old(self).read_allows(final(self), old(buf)@, final(buf)@, res),
    ;
}

/// The smaller of two lengths.
pub open spec fn min_len(a: int, b: int) -> int {
    if a <= b {
        a
    } else {
        b
    }
}

/// A byte blob that is read front to back.
pub struct Cursor {
    data: Vec<u8>,
    pos: usize,
}

impl Cursor {
    #[verifier::type_invariant]
    spec fn inv(&self) -> bool {
        self.pos <= self.data@.len()
    }

    /// The bytes that have not been read yet.
    pub closed spec fn remaining(&self) -> Seq<u8> {
        self.data@.skip(self.pos as int)
    }

    /// A cursor at the front of `data`.
    pub fn new(data: Vec<u8>) -> (cursor: Self)
        ensures
            cursor.remaining() == data@,
    {
        Cursor { data, pos: 0 }
    }

    /// Whether every byte has been read.
    pub fn is_exhausted(&self) -> (exhausted: bool)
        ensures
            exhausted == (self.remaining().len() == 0),
    {
        proof {
            use_type_invariant(self);
        }
        self.pos == self.data.len()
    }

    /// Copies the next bytes into the front of `buf`, as many as fit, and steps over them.
    pub fn read_slice(&mut self, buf: &mut [u8]) -> (n: usize)
        ensures
            n == min_len(old(buf)@.len() as int, old(self).remaining().len() as int),
            final(buf)@ == old(self).remaining().take(n as int) + old(buf)@.skip(n as int),
            final(self).remaining() == old(self).remaining().skip(n as int),
    {
        proof {
            use_type_invariant(&*self);
        }
        let available = self.data.len() - self.pos;
        let n = if buf.len() < available {
            buf.len()
        } else {
            available
        };
        let mut i: usize = 0;
        while i < n
            invariant
                i <= n,
                n <= buf@.len(),
                self.pos + n <= self.data@.len() <= usize::MAX,
                buf@.len() == old(buf)@.len(),
                buf@ == self.data@.subrange(self.pos as int, self.pos + i) + old(buf)@.skip(i as int),
                *self == *old(self),
            decreases n - i,
        {
            buf[i] = self.data[self.pos + i];
            i += 1;
        }
        self.pos = self.pos + n;
        n
    }
}

impl Cursor {
    /// Appends every byte that has not been read yet to `out` and steps over them.
    pub fn read_to_end(&mut self, out: &mut Vec<u8>) -> (n: usize)
        ensures
            n == old(self).remaining().len(),
            final(out)@ == old(out)@ + old(self).remaining(),
            final(self).remaining() == Seq::<u8>::empty(),
    {
        proof {
            use_type_invariant(&*self);
        }
        let start = self.pos;
        let end = self.data.len();
        let mut i: usize = start;
        while i < end
            invariant
                start <= i <= end,
                end == self.data@.len(),
                *self == *old(self),
                out@ == old(out)@ + self.data@.subrange(start as int, i as int),
            decreases end - i,
        {
            out.push(self.data[i]);
            i += 1;
        }
        self.pos = end;
        end - start
    }
}

impl Source for Cursor {
    type Error = core::convert::Infallible;

    /// A read on a cursor never fails: it hands over the next bytes, as many as fit into the
    /// buffer, and steps over them.
    open spec fn read_allows(
        &self,
        after: &Self,
        buf: Seq<u8>,
        filled: Seq<u8>,
        res: Result<usize, core::convert::Infallible>,
    ) -> bool {
        &&& res matches Ok(n)
        &&& n == min_len(buf.len() as int, self.remaining().len() as int)
        &&& filled == self.remaining().take(n as int) + buf.skip(n as int)
        &&& after.remaining() == self.remaining().skip(n as int)
    }

    fn read(&mut self, buf: &mut [u8]) -> (res: Result<usize, core::convert::Infallible>) {
        Ok(self.read_slice(buf))
    }
}

/// How many bytes `read_to_end` asks a source for at a time.
pub const READ_BLOCK: usize = 8192;

/// One read in a run of reads on a source, as a specification sees it.
pub struct ReadStep<R: Source> {
    /// The source before the read.
    pub before: R,
    /// The source after the read.
    pub after: R,
    /// The buffer that was handed to the read.
    pub buf: Seq<u8>,
    /// The buffer after the read.
    pub filled: Seq<u8>,
    /// What the read answered.
    pub res: Result<usize, R::Error>,
}

/// The bytes that a read handed over: the front of the buffer, as long as the read says; none
/// after a failed read.
pub open spec fn step_bytes<R: Source>(step: ReadStep<R>) -> Seq<u8> {
    match step.res {
        Ok(n) => step.filled.take(n as int),
        Err(_) => Seq::empty(),
    }
}

/// Whether a read handed over a byte at least, so that the run goes on.
pub open spec fn went_on<R: Source>(step: ReadStep<R>) -> bool {
    step.res matches Ok(n) && n > 0
}

/// The bytes that the reads of a run handed over, in the order of the reads.
pub open spec fn run_bytes<R: Source>(steps: Seq<ReadStep<R>>) -> Seq<u8>
    decreases steps.len(),
{
    if steps.len() == 0 {
        Seq::empty()
    } else {
        run_bytes(steps.drop_last()) + step_bytes(steps.last())
    }
}

/// Whether `steps` are a run of reads on a source that is `start` before the first: each read
/// is one that the source allows, on a buffer of `READ_BLOCK` bytes, and takes the source up
/// where the read before it left it; and every read but the last handed over a byte at least.
pub open spec fn is_run<R: Source>(start: R, steps: Seq<ReadStep<R>>) -> bool {
    forall|i: int|
        0 <= i < steps.len() ==> {
            &&& (#[trigger] steps[i]).before == (if i == 0 {
                start
            } else {
                steps[i - 1].after
            })
            &&& steps[i].buf.len() == READ_BLOCK
            &&& steps[i].filled.len() == READ_BLOCK
            &&& steps[i].res matches Ok(n) ==> n <= READ_BLOCK
            &&& steps[i].before.read_allows(
                &steps[i].after,
                steps[i].buf,
                steps[i].filled,
                steps[i].res,
            )
            &&& i < steps.len() - 1 ==> went_on(steps[i])
        }
}

/// The source after a run of reads.
pub open spec fn run_end<R: Source>(start: R, steps: Seq<ReadStep<R>>) -> R {
    if steps.len() == 0 {
        start
    } else {
        steps.last().after
    }
}

/// What `read_to_end` does, told by the reads `steps` that it makes on the source.
///
/// The reads are a run on the source, which is `end` afterwards. The output grows by the bytes
/// that the reads handed over, in order. The run ends with the first read that yields no byte,
/// and the result is the number of bytes appended; or with the first read that fails, and the
/// result is its error. It also ends, with the number of bytes appended, where every read so
/// far handed over a byte and the output has no room for another block.
pub open spec fn read_to_end_allows<R: Source>(
    start: R,
    end: R,
    steps: Seq<ReadStep<R>>,
    out_before: Seq<u8>,
    out_after: Seq<u8>,
    res: Result<usize, R::Error>,
) -> bool {
    &&& is_run(start, steps)
    &&& end == run_end(start, steps)
    &&& out_after == out_before + run_bytes(steps)
    &&& match res {
        Ok(n) => {
            &&& n == run_bytes(steps).len()
            &&& {
                ||| steps.len() > 0 && steps.last().res == Ok::<usize, R::Error>(0)
                ||| {
                    &&& steps.len() > 0 ==> went_on(steps.last())
                    &&& out_after.len() > usize::MAX - READ_BLOCK
                }
            }
        },
        Err(err) => steps.len() > 0 && steps.last().res == Err::<usize, R::Error>(err),
    }
}

/// A run that is longer by one read handed over the bytes of that read after those of the
/// reads before it.
proof fn lemma_run_bytes_push<R: Source>(steps: Seq<ReadStep<R>>, step: ReadStep<R>)
    ensures
        run_bytes(steps.push(step)) == run_bytes(steps) + step_bytes(step),
{
    assert(steps.push(step).drop_last() =~= steps);
}

/// Reads `source` until a read yields 0 bytes or fails, and appends what was read to `out`. The
/// result is the number of bytes appended, or the error of the read that failed; the bytes read
/// until then stay in `out`. Reading also stops where `out` could not take another block.
pub fn read_to_end<R: Source>(source: &mut R, out: &mut Vec<u8>) -> (res: Result<usize, R::Error>)
    ensures
        exists|steps: Seq<ReadStep<R>>| #[trigger]
            read_to_end_allows(*old(source), *final(source), steps, old(out)@, final(out)@, res),
        old(out)@.len() <= final(out)@.len(),
        final(out)@.take(old(out)@.len() as int) == old(out)@,
        res matches Ok(n) ==> final(out)@.len() == old(out)@.len() + n,
{
    let start = out.len();
    let mut block: Vec<u8> = Vec::new();
    block.resize(READ_BLOCK, 0u8);
    let ghost first = *source;
    let ghost mut steps: Seq<ReadStep<R>> = Seq::empty();
    assert(out@ =~= old(out)@ + run_bytes(steps));
    loop
        invariant
            first == *old(source),
            start == old(out)@.len(),
            block@.len() == READ_BLOCK,
            is_run(first, steps),
            forall|i: int| 0 <= i < steps.len() ==> went_on(#[trigger] steps[i]),
            *source == run_end(first, steps),
            out@ == old(out)@ + run_bytes(steps),
        decreases usize::MAX - out@.len(),
    {
        if out.len() > usize::MAX - READ_BLOCK {
            let res = Ok(out.len() - start);
            assert(read_to_end_allows(first, *source, steps, old(out)@, out@, res));
            assert(out@.take(start as int) =~= old(out)@);
            return res;
        }
        let ghost before = *source;
        let ghost buf = block@;
        let outcome = source.read(block.as_mut_slice());
        let ghost step = ReadStep { before, after: *source, buf, filled: block@, res: outcome };
        let ghost earlier = steps;
        proof {
            steps = steps.push(step);
            lemma_run_bytes_push(earlier, step);
            assert forall|i: int| 0 <= i < steps.len() implies {
                &&& (#[trigger] steps[i]).before == (if i == 0 {
                    first
                } else {
                    steps[i - 1].after
                })
                &&& steps[i].buf.len() == READ_BLOCK
                &&& steps[i].filled.len() == READ_BLOCK
                &&& steps[i].res matches Ok(n) ==> n <= READ_BLOCK
                &&& steps[i].before.read_allows(
                    &steps[i].after,
                    steps[i].buf,
                    steps[i].filled,
                    steps[i].res,
                )
                &&& i < steps.len() - 1 ==> went_on(steps[i])
            } by {
                if i < earlier.len() {
                    assert(steps[i] == earlier[i]);
                    if i > 0 {
                        assert(steps[i - 1] == earlier[i - 1]);
                    }
                }
            }
        }
        match outcome {
            Ok(n) => {
                if n == 0 {
                    let res = Ok(out.len() - start);
                    assert(out@ =~= old(out)@ + run_bytes(steps));
                    assert(read_to_end_allows(first, *source, steps, old(out)@, out@, res));
                    assert(out@.take(start as int) =~= old(out)@);
                    return res;
                }
                let ghost filled = out@;
                let mut i: usize = 0;
                while i < n
                    invariant
                        i <= n <= block@.len(),
                        n <= READ_BLOCK,
                        filled.len() + n <= usize::MAX,
                        out@ == filled + block@.take(i as int),
                        block@.len() == READ_BLOCK,
                    decreases n - i,
                {
                    out.push(block[i]);
                    assert(out@ =~= filled + block@.take(i + 1));
                    i += 1;
                }
                assert(out@ =~= old(out)@ + run_bytes(steps));
                assert forall|i: int| 0 <= i < steps.len() implies went_on(#[trigger] steps[i]) by {
                    if i < earlier.len() {
                        assert(steps[i] == earlier[i]);
                    }
                }
            },
            Err(err) => {
                let res = Err(err);
                assert(out@ =~= old(out)@ + run_bytes(steps));
                assert(read_to_end_allows(first, *source, steps, old(out)@, out@, res));
                assert(out@.take(start as int) =~= old(out)@);
                return res;
            },
        }
    }
}

} // verus!

//! Playing: why it fails, and how decoded samples become bytes.

use vstd::prelude::*;

verus! {

/// Why nothing was played.
#[derive(Clone, Copy, Debug, PartialEq, Eq, Structural)]
pub enum PlayError {
    /// The bot is in no voice channel of the guild.
    NotInChannel,
    /// The source cannot be played.
    CannotPlay,
}

/// The low byte of a sample.
pub open spec fn low_byte(sample: i16) -> u8 {
    ((sample as int) % 256) as u8
}

/// The high byte of a sample.
pub open spec fn high_byte(sample: i16) -> u8 {
    (((sample as int) / 256) % 256) as u8
}

/// The bytes of `samples`: two for each sample, the low byte first.
pub open spec fn sample_bytes(samples: Seq<i16>) -> Seq<u8> {
    Seq::new(
        2 * samples.len(),
        |i: int|
            if i % 2 == 0 {
                low_byte(samples[i / 2])
            } else {
                high_byte(samples[i / 2])
            },
    )
}

/// How many samples fit into a buffer of `len` bytes.
pub fn sample_capacity(len: usize) -> (count: usize)
    ensures
        count == len / 2,
{
    len / 2
}

/// Writes decoded samples into the front of `buf`, two bytes for each, the low byte first: as
/// many samples as there are and as fit. The result is the number of bytes written.
pub fn write_samples(samples: &[i16], buf: &mut [u8]) -> (written: usize)
    ensures
        written == 2 * (if samples@.len() <= old(buf)@.len() / 2 {
            samples@.len() as int
        } else {
            old(buf)@.len() as int / 2
        }),
        final(buf)@ == sample_bytes(samples@.take(written as int / 2)) + old(buf)@.skip(
            written as int,
        ),
{
    let count = if samples.len() <= buf.len() / 2 {
        samples.len()
    } else {
        buf.len() / 2
    };
    let mut i: usize = 0;
    assert(buf@ =~= sample_bytes(samples@.take(0)) + old(buf)@.skip(0));
    while i < count
        invariant
            i <= count,
            count <= samples@.len(),
            2 * count <= buf@.len() <= usize::MAX,
            buf@.len() == old(buf)@.len(),
            buf@ == sample_bytes(samples@.take(i as int)) + old(buf)@.skip(2 * i),
        decreases count - i,
    {
        let sample = samples[i];
        let unsigned: u16 = if sample >= 0 {
            sample as u16
        } else {
            u16::MAX - ((-(sample + 1)) as u16)
        };
        let low = (unsigned % 256) as u8;
        let high = (unsigned / 256) as u8;
        assert(low == low_byte(sample));
        assert(high == high_byte(sample));
        let ghost before = buf@;
        buf[2 * i] = low;
        buf[2 * i + 1] = high;
        assert(buf@ =~= sample_bytes(samples@.take(i + 1)) + old(buf)@.skip(2 * (i + 1))) by {
            let target = sample_bytes(samples@.take(i + 1)) + old(buf)@.skip(2 * (i + 1));
            assert forall|j: int| 0 <= j < buf@.len() implies buf@[j] == target[j] by {
                if j < 2 * i {
                    assert(before[j] == sample_bytes(samples@.take(i as int))[j]);
                    assert(samples@.take(i as int)[j / 2] == samples@.take(i + 1)[j / 2]);
                } else if j < 2 * i + 2 {
                    assert(j / 2 == i);
                    assert(samples@.take(i + 1)[i as int] == sample);
                } else {
                    assert(before[j] == old(buf)@.skip(2 * i)[j - 2 * i]);
                }
            }
        }
        i += 1;
    }
    2 * count
}

} // verus!

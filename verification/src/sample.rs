//! The aligned buffer in which output is sent to the dataflow.

use aligned_vec::{AVec, ConstAlign};
use vstd::prelude::*;

verus! {

/// A buffer of bytes that starts at a multiple of 128.
#[verifier::external_body]
#[derive(Debug)]
pub struct Sample {
    buffer: AVec<u8, ConstAlign<128>>,
}

/// The bytes in the buffer.
pub uninterp spec fn sample_bytes(sample: Sample) -> Seq<u8>;

/// `AVec::__from_elem`: a buffer that holds `byte` as often as asked for. The size, rounded up to the
/// alignment, has to fit in an `isize`, as for any allocation. That the buffer is aligned is not
/// stated.
#[verifier::external_body]
fn from_elem(byte: u8, count: usize) -> (sample: Sample)
    requires
        count <= isize::MAX - 127,
    ensures
        sample_bytes(sample) == Seq::new(count as nat, |i: int| byte),
{
    Sample { buffer: AVec::__from_elem(128, byte, count) }
}

/// `AVec::as_mut_slice`: the bytes of the buffer, to be changed in place.
#[verifier::external_body]
fn as_mut_slice(sample: &mut Sample) -> (bytes: &mut [u8])
    ensures
        bytes@ == sample_bytes(*old(sample)),
        sample_bytes(*final(sample)) == final(bytes)@,
{
    sample.buffer.as_mut_slice()
}

impl Sample {
    /// A buffer of `total_len` zeros.
    pub fn zeroed(total_len: usize) -> (sample: Sample)
        requires
            total_len <= isize::MAX - 127,
        ensures
            sample_bytes(sample) == Seq::new(total_len as nat, |i: int| 0u8),
    {
        from_elem(0, total_len)
    }

    /// The bytes of the buffer, to be filled in.
    pub fn bytes_mut(&mut self) -> (bytes: &mut [u8])
        ensures
            bytes@ == sample_bytes(*old(self)),
            sample_bytes(*final(self)) == final(bytes)@,
    {
        as_mut_slice(self)
    }
}

/// A fresh buffer is as long as asked for and holds nothing but zeros.
pub proof fn law_fresh_buffer_is_zero(total_len: usize, sample: Sample)
    requires
        call_ensures(Sample::zeroed, (total_len,), sample),
    ensures
        sample_bytes(sample).len() == total_len,
        forall|i: int| 0 <= i < total_len ==> #[trigger] sample_bytes(sample)[i] == 0,
{
}

/// What is written through the bytes of a buffer is what the buffer holds afterwards.
pub proof fn law_buffer_is_filled_in_place(sample: &mut Sample, bytes: &mut [u8])
    requires
        call_ensures(Sample::bytes_mut, (sample,), bytes),
    ensures
        old(bytes)@ == sample_bytes(*old(sample)),
        sample_bytes(*final(sample)) == final(bytes)@,
{
}

} // verus!

use vstd::prelude::*;
use bytes::Bytes;
use crate::batcher::frames_bytes;
use crate::buffers::{bytes_contents, bytes_mut_contents, bytes_mut_extend_from_slice, bytes_mut_freeze, bytes_mut_with_capacity};
use crate::error::RailscaleError;
use crate::frames::Frame;

verus! {

/// Answers an error with frames to send to the client.
pub trait ErrorToFrames {
    type Frame: Frame;

    /// The frames an error is answered with.
    spec fn error_frames_spec(&self, err: &RailscaleError) -> Seq<Self::Frame>;

    fn error_frames(&self, err: &RailscaleError) -> (frames: Vec<Self::Frame>)
        ensures
            frames@ == self.error_frames_spec(err),
    ;
}

/// Answers an error with bytes to send to the client.
pub trait ErrorToBytes {
    /// The bytes an error is answered with.
    spec fn error_bytes_spec(&self, err: &RailscaleError) -> Seq<u8>;

    fn error_bytes(&self, err: &RailscaleError) -> (b: Bytes)
        ensures
            bytes_contents(b) == self.error_bytes_spec(err),
    ;
}

impl<T: ErrorToFrames> ErrorToBytes for T {
    /// The error frames' bytes, one after the other.
    open spec fn error_bytes_spec(&self, err: &RailscaleError) -> Seq<u8> {
        frames_bytes(self.error_frames_spec(err))
    }

    fn error_bytes(&self, err: &RailscaleError) -> (b: Bytes) {
        let frames = self.error_frames(err);
        let mut total_len: usize = 0;
        let mut i: usize = 0;
        while i < frames.len()
            invariant
                i <= frames@.len(),
            decreases frames@.len() - i,
        {
            total_len = total_len.saturating_add(frames[i].as_bytes().len());
            i = i + 1;
        }
        let mut buf = bytes_mut_with_capacity(total_len);
        let mut k: usize = 0;
        while k < frames.len()
            invariant
                k <= frames@.len(),
                bytes_mut_contents(buf) == frames_bytes(frames@.take(k as int)),
            decreases frames@.len() - k,
        {
            bytes_mut_extend_from_slice(&mut buf, frames[k].as_bytes());
            assert(frames@.take(k as int + 1).drop_last() == frames@.take(k as int));
            k = k + 1;
        }
        assert(frames@.take(frames@.len() as int) == frames@);
        bytes_mut_freeze(buf)
    }
}

} // verus!

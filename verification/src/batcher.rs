use vstd::prelude::*;
use bytes::{Bytes, BytesMut};
use crate::buffers::{
    bytes_as_slice, bytes_contents, bytes_mut_as_slice, bytes_mut_contents,
    bytes_mut_extend_from_slice, bytes_mut_freeze, bytes_mut_new, bytes_mut_split,
};
use crate::frames::Frame;

verus! {

/// Gathers outgoing bytes so that they can be written in one go.
pub struct BatchWriter<W> {
    buf: BytesMut,
    writer: W,
}

/// The bytes of a sequence of frames, one after the other.
pub open spec fn frames_bytes<F: Frame>(frames: Seq<F>) -> Seq<u8>
    decreases frames.len(),
{
    if frames.len() == 0 {
        Seq::empty()
    } else {
        frames_bytes(frames.drop_last()) + frames.last().frame_bytes()
    }
}

impl<W> BatchWriter<W> {
    /// The bytes gathered and not yet taken.
    pub closed spec fn pending(&self) -> Seq<u8> {
        bytes_mut_contents(self.buf)
    }

    pub closed spec fn writer_spec(&self) -> W {
        self.writer
    }

    /// Appends bytes.
    pub fn push(&mut self, data: &[u8])
        ensures
            final(self).pending() == old(self).pending() + data@,
            final(self).writer_spec() == old(self).writer_spec(),
    {
        bytes_mut_extend_from_slice(&mut self.buf, data);
    }

    /// Appends the bytes of a handle.
    pub fn push_bytes(&mut self, data: Bytes)
        ensures
            final(self).pending() == old(self).pending() + bytes_contents(data),
            final(self).writer_spec() == old(self).writer_spec(),
    {
        bytes_mut_extend_from_slice(&mut self.buf, bytes_as_slice(&data));
    }

    /// Appends the bytes of each frame, in order.
    pub fn push_frames<F: Frame>(&mut self, frames: Vec<F>)
        ensures
            final(self).pending() == old(self).pending() + frames_bytes(frames@),
            final(self).writer_spec() == old(self).writer_spec(),
    {
        let mut i: usize = 0;
        while i < frames.len()
            invariant
                i <= frames@.len(),
                self.pending() == old(self).pending() + frames_bytes(frames@.take(i as int)),
                self.writer_spec() == old(self).writer_spec(),
            decreases frames@.len() - i,
        {
            bytes_mut_extend_from_slice(&mut self.buf, frames[i].as_bytes());
            assert(frames@.take(i as int + 1).drop_last() == frames@.take(i as int));
            i = i + 1;
        }
        assert(frames@.take(frames@.len() as int) == frames@);
    }

    /// How many bytes are gathered.
    pub fn len(&self) -> (n: usize)
        ensures
            n == self.pending().len(),
    {
        bytes_mut_as_slice(&self.buf).len()
    }

    /// Takes all gathered bytes out, leaving the writer empty.
    pub fn take(&mut self) -> (b: Bytes)
        ensures
            bytes_contents(b) == old(self).pending(),
            final(self).pending() == Seq::<u8>::empty(),
            final(self).writer_spec() == old(self).writer_spec(),
    {
        bytes_mut_freeze(bytes_mut_split(&mut self.buf))
    }

    /// The sink the bytes are flushed to.
    pub fn writer_mut(&mut self) -> (w: &mut W)
        ensures
            *w == old(self).writer_spec(),
            final(self).writer_spec() == *final(w),
            final(self).pending() == old(self).pending(),
    {
        &mut self.writer
    }

    /// A batch writer that flushes into `writer`.
    pub fn with_writer(writer: W) -> (b: Self)
        ensures
            b.pending() == Seq::<u8>::empty(),
            b.writer_spec() == writer,
    {
        BatchWriter { buf: bytes_mut_new(), writer }
    }
}

impl BatchWriter<()> {
    /// A batch writer whose bytes are taken out with `take`.
    pub fn new() -> (b: Self)
        ensures
            b.pending() == Seq::<u8>::empty(),
    {
        BatchWriter { buf: bytes_mut_new(), writer: () }
    }
}

} // verus!

use bytes::Bytes;
use railscale::batcher::BatchWriter;
use railscale::error::RailscaleError;
use railscale::error_mapper::{ErrorToBytes, ErrorToFrames};
use railscale::frames::{
    FramePipelineAdapter, IdentityRail, RawFrame, RawPipeline, ShuttleLink, SimpleTurnout,
    Turnout, Frame, FramePipeline, SwitchRail,
};
use railscale::phase::{FramePhase, PhasedBuffer, PhasedFrame};
use railscale::frames::{header_stream_next, header_stream_step, DecoderPoll, HeaderStreamAction};

#[derive(Clone, Copy, PartialEq, Eq, PartialOrd, Ord, Debug)]
enum Stage {
    Head,
    Body,
    Tail,
}

impl FramePhase for Stage {
    fn is_reorderable(&self) -> bool {
        !matches!(self, Stage::Body)
    }
}

struct Staged(Stage, Bytes);

impl Frame for Staged {
    fn as_bytes(&self) -> &[u8] {
        &self.1
    }
    fn into_bytes(self) -> Bytes {
        self.1
    }
    fn routing_key(&self) -> Option<&[u8]> {
        None
    }
    // The two model functions below exist only for the verifier; nothing calls them at run time.
    fn frame_bytes(&self) -> vstd::seq::Seq<u8> {
        unreachable!()
    }
    fn frame_key(&self) -> Option<vstd::seq::Seq<u8>> {
        unreachable!()
    }
}

impl PhasedFrame for Staged {
    type Phase = Stage;
    fn phase(&self) -> Stage {
        self.0
    }
    fn frame_phase(&self) -> Stage {
        unreachable!()
    }
}

fn staged(stage: Stage, text: &'static [u8]) -> Staged {
    Staged(stage, Bytes::from_static(text))
}

#[test]
fn phased_buffer_reorders_stably() {
    let mut b: PhasedBuffer<Staged> = PhasedBuffer::new();
    assert!(b.is_empty());
    b.push_frame(staged(Stage::Tail, b"t1"));
    b.push_frame(staged(Stage::Body, b"b1"));
    b.push_passthrough(Stage::Head, Bytes::from_static(b"h1"));
    b.push_frame(staged(Stage::Body, b"b2"));
    b.push_frame(staged(Stage::Head, b"h2"));
    assert_eq!(b.byte_count(), 10);
    assert_eq!(b.phases_present(), vec![Stage::Tail, Stage::Body, Stage::Head, Stage::Body, Stage::Head]);
    b.reorder();
    assert_eq!(b.byte_count(), 10);
    assert_eq!(b.phases_present(), vec![Stage::Head, Stage::Body, Stage::Tail]);
    assert_eq!(&b.freeze()[..], b"h1h2b1b2t1");
}

#[test]
fn phased_buffer_drains_piece_by_piece() {
    let mut b: PhasedBuffer<Staged> = PhasedBuffer::new();
    b.push_frame(staged(Stage::Body, b"abc"));
    b.push_passthrough(Stage::Body, Bytes::from_static(b"de"));
    let pieces = b.drain();
    assert_eq!(pieces, vec![Bytes::from_static(b"abc"), Bytes::from_static(b"de")]);
}

#[test]
fn batch_writer_gathers_and_takes() {
    let mut w = BatchWriter::new();
    w.push(b"ab");
    w.push_bytes(Bytes::from_static(b"cd"));
    w.push_frames(vec![RawFrame::new(Bytes::from_static(b"ef")), RawFrame::new(Bytes::from_static(b"g"))]);
    assert_eq!(w.len(), 7);
    assert_eq!(&w.take()[..], b"abcdefg");
    assert_eq!(w.len(), 0);
    assert_eq!(&w.take()[..], b"");
    let mut with = BatchWriter::with_writer(5u8);
    with.push(b"x");
    *with.writer_mut() = 6;
    assert_eq!(*with.writer_mut(), 6);
    assert_eq!(&with.take()[..], b"x");
}

struct Page;

impl ErrorToFrames for Page {
    type Frame = RawFrame;
    fn error_frames_spec(&self, _: &RailscaleError) -> vstd::seq::Seq<RawFrame> {
        unreachable!()
    }
    fn error_frames(&self, err: &RailscaleError) -> Vec<RawFrame> {
        let code: &'static [u8] = match err {
            RailscaleError::NoRoutingFrame => b"400",
            _ => b"502",
        };
        vec![RawFrame::new(Bytes::from_static(b"HTTP/1.1 ")), RawFrame::new(Bytes::from_static(code))]
    }
}

#[test]
fn error_frames_become_one_answer() {
    assert_eq!(&Page.error_bytes(&RailscaleError::NoRoutingFrame)[..], b"HTTP/1.1 400");
    assert_eq!(&Page.error_bytes(&RailscaleError::ConnectionClosed)[..], b"HTTP/1.1 502");
}

#[test]
fn raw_frames_and_rails_pass_bytes_on() {
    let f = RawFrame::new(Bytes::from_static(b"raw"));
    assert_eq!(f.as_bytes(), b"raw");
    assert!(f.routing_key().is_none());
    let rail: IdentityRail<RawFrame> = IdentityRail::new();
    let out = rail.switch(f);
    assert_eq!(&RawPipeline.process(out).into_bytes()[..], b"raw");
}

#[test]
fn turnouts_compose() {
    let keep_short = SimpleTurnout::new(IdentityRail::<RawFrame>::new(), |f: RawFrame| {
        if f.as_bytes().len() < 4 { Some(f) } else { None }
    });
    let adapter = FramePipelineAdapter::new(RawPipeline);
    let link = ShuttleLink::new(keep_short, adapter);
    assert_eq!(&link.process(RawFrame::new(Bytes::from_static(b"ok"))).unwrap().into_bytes()[..], b"ok");
    assert!(link.process(RawFrame::new(Bytes::from_static(b"too long"))).is_none());
}

#[test]
fn header_stream_hands_out_the_leftover_once_headers_end() {
    assert!(header_stream_step(false, DecoderPoll::Frame, 5) == (HeaderStreamAction::Frame, false));
    assert!(header_stream_step(false, DecoderPoll::Error, 5) == (HeaderStreamAction::Error, false));
    assert!(header_stream_step(false, DecoderPoll::Pending, 5) == (HeaderStreamAction::Pending, false));
    assert!(header_stream_step(false, DecoderPoll::Finished, 5) == (HeaderStreamAction::Leftover, true));
    assert!(header_stream_step(false, DecoderPoll::Finished, 0) == (HeaderStreamAction::End, true));
    assert!(header_stream_step(true, DecoderPoll::Frame, 3) == (HeaderStreamAction::Leftover, true));
    assert!(header_stream_step(true, DecoderPoll::Frame, 0) == (HeaderStreamAction::End, true));
}

#[test]
fn header_stream_hands_out_its_buffer_then_ends() {
    let mut done = false;
    let mut buf = bytes::BytesMut::from(&b"body bytes"[..]);
    let (a, out) = header_stream_next(&mut done, DecoderPoll::Frame, &mut buf);
    assert!(a == HeaderStreamAction::Frame && out.is_none() && !done);
    assert_eq!(&buf[..], b"body bytes");
    let (a, out) = header_stream_next(&mut done, DecoderPoll::Finished, &mut buf);
    assert!(a == HeaderStreamAction::Leftover && done);
    assert_eq!(&out.unwrap()[..], b"body bytes");
    assert!(buf.is_empty());
    let (a, out) = header_stream_next(&mut done, DecoderPoll::Frame, &mut buf);
    assert!(a == HeaderStreamAction::End && out.is_none() && done);
}

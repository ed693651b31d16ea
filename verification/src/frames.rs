use vstd::prelude::*;
use std::marker::PhantomData;
use bytes::{Bytes, BytesMut};
use crate::buffers::{bytes_as_slice, bytes_contents, bytes_mut_as_slice, bytes_mut_contents, bytes_mut_freeze, bytes_mut_split, opt_contents};
use crate::error::RailscaleError;

verus! {

/// The unit of data that flows through a pipeline.
pub trait Frame: Send + Sized + Sync {
    /// The bytes the frame stands for on the wire.
    spec fn frame_bytes(&self) -> Seq<u8>;

    /// The routing key the frame carries, if any.
    spec fn frame_key(&self) -> Option<Seq<u8>>;

    fn as_bytes(&self) -> (b: &[u8])
        ensures
            b@ == self.frame_bytes(),
    ;

    fn into_bytes(self) -> (b: Bytes)
        ensures
            bytes_contents(b) == self.frame_bytes(),
    ;

    fn routing_key(&self) -> (k: Option<&[u8]>)
        ensures
            match k {
                Some(s) => self.frame_key() == Some(s@),
                None => self.frame_key() is None,
            },
    ;
}

/// What a parser yields: a frame it understood, or bytes it passes on as they are.
pub enum ParsedData<F: Frame> {
    Parsed(F),
    Passthrough(Bytes),
}

/// What the frame decoder under a header stream reported when polled.
#[derive(PartialEq, Eq, Structural, Clone, Copy)]
pub enum DecoderPoll {
    Frame,
    Error,
    Finished,
    Pending,
}

/// What a header stream hands out next: the decoder's frame or error, the bytes
/// left in the read buffer (as passthrough), the end, or nothing yet.
#[derive(PartialEq, Eq, Structural, Clone, Copy)]
pub enum HeaderStreamAction {
    Frame,
    Error,
    Leftover,
    End,
    Pending,
}

/// One step of a header stream: while the headers last it hands on what the decoder
/// reports; once the decoder has finished (and from then on) it hands out what is
/// left in the read buffer, then ends. The second part is whether the headers are
/// done after the step.
pub open spec fn header_stream_outcome(headers_done: bool, poll: DecoderPoll, leftover_len: nat) -> (
    HeaderStreamAction,
    bool,
) {
    if headers_done || poll == DecoderPoll::Finished {
        (
            if leftover_len > 0 {
                HeaderStreamAction::Leftover
            } else {
                HeaderStreamAction::End
            },
            true,
        )
    } else {
        (
            match poll {
                DecoderPoll::Frame => HeaderStreamAction::Frame,
                DecoderPoll::Error => HeaderStreamAction::Error,
                _ => HeaderStreamAction::Pending,
            },
            false,
        )
    }
}

/// Decides a header stream's next item. Once the headers are done the decoder is
/// not polled again and `poll` is not looked at; `leftover_len` is the length of
/// what the read buffer holds.
pub fn header_stream_step(headers_done: bool, poll: DecoderPoll, leftover_len: usize) -> (r: (
    HeaderStreamAction,
    bool,
))
    ensures
        r == header_stream_outcome(headers_done, poll, leftover_len as nat),
        headers_done ==> r.1,
{
    if headers_done || poll == DecoderPoll::Finished {
        if leftover_len > 0 {
            (HeaderStreamAction::Leftover, true)
        } else {
            (HeaderStreamAction::End, true)
        }
    } else {
        match poll {
            DecoderPoll::Frame => (HeaderStreamAction::Frame, false),
            DecoderPoll::Error => (HeaderStreamAction::Error, false),
            _ => (HeaderStreamAction::Pending, false),
        }
    }
}

/// One step of a header stream over the bytes left in its read buffer: the action,
/// the bytes handed out as passthrough (the whole buffer, when that is the action),
/// whether the headers are done afterwards, and what the buffer holds afterwards.
pub open spec fn header_stream_after(headers_done: bool, poll: DecoderPoll, buffer: Seq<u8>) -> (
    HeaderStreamAction,
    Option<Seq<u8>>,
    bool,
    Seq<u8>,
) {
    let (action, done) = header_stream_outcome(headers_done, poll, buffer.len());
    if action == HeaderStreamAction::Leftover {
        (action, Some(buffer), done, Seq::empty())
    } else {
        (action, None, done, buffer)
    }
}

/// Decides a header stream's next item and, when that is the leftover, takes the
/// whole read buffer off as the bytes to hand out. `headers_done` is the stream's
/// state; `buffer` is its read buffer.
pub fn header_stream_next(headers_done: &mut bool, poll: DecoderPoll, buffer: &mut BytesMut) -> (r: (
    HeaderStreamAction,
    Option<Bytes>,
))
    ensures
        ({
            let (action, handed, done, rest) = header_stream_after(
                *old(headers_done),
                poll,
                bytes_mut_contents(*old(buffer)),
            );
            &&& r.0 == action
            &&& opt_contents(r.1) == handed
            &&& *final(headers_done) == done
            &&& bytes_mut_contents(*final(buffer)) == rest
        }),
{
    let len = bytes_mut_as_slice(buffer).len();
    let (action, done) = header_stream_step(*headers_done, poll, len);
    *headers_done = done;
    if action == HeaderStreamAction::Leftover {
        let all = bytes_mut_split(buffer);
        (action, Some(bytes_mut_freeze(all)))
    } else {
        (action, None)
    }
}

/// A run of bytes read as they came, with no routing key.
pub struct RawFrame(Bytes);

impl RawFrame {
    pub fn new(data: Bytes) -> (f: Self)
        ensures
            f.frame_bytes() == bytes_contents(data),
            f.frame_key() is None,
    {
        RawFrame(data)
    }
}

impl Frame for RawFrame {
    closed spec fn frame_bytes(&self) -> Seq<u8> {
        bytes_contents(self.0)
    }

    open spec fn frame_key(&self) -> Option<Seq<u8>> {
        None
    }

    fn as_bytes(&self) -> (b: &[u8]) {
        bytes_as_slice(&self.0)
    }

    fn into_bytes(self) -> (b: Bytes) {
        self.0
    }

    fn routing_key(&self) -> (k: Option<&[u8]>) {
        None
    }
}

/// Reads a stream in chunks of up to this many bytes, one frame per chunk.
pub const RAW_CHUNK_SIZE: usize = 8192;

/// The parser that turns a byte stream into raw frames.
pub struct RawParser;

impl RawParser {
    pub fn new() -> (p: Self) {
        RawParser
    }
}

/// A sequence of transformations applied to each frame.
pub trait FramePipeline: Send + Sync {
    type Frame: Frame;

    /// What processing makes of a frame.
    spec fn processed(&self, frame: Self::Frame) -> Self::Frame;

    fn process(&self, frame: Self::Frame) -> (out: Self::Frame)
        ensures
            out == self.processed(frame),
    ;
}

/// The pipeline that leaves raw frames as they are.
pub struct RawPipeline;

impl FramePipeline for RawPipeline {
    type Frame = RawFrame;

    open spec fn processed(&self, frame: RawFrame) -> RawFrame {
        frame
    }

    fn process(&self, frame: RawFrame) -> (out: RawFrame) {
        frame
    }
}

/// A synchronous frame-to-frame transformation.
pub trait SwitchRail: Send + Sync {
    type Input: Frame;
    type Output: Frame;

    /// What switching makes of a frame.
    spec fn switched(&self, input: Self::Input) -> Self::Output;

    fn switch(&self, input: Self::Input) -> (out: Self::Output)
        ensures
            out == self.switched(input),
    ;
}

/// The rail that leaves frames as they are.
pub struct IdentityRail<F>(PhantomData<F>);

impl<F> IdentityRail<F> {
    pub fn new() -> (r: Self) {
        IdentityRail(PhantomData)
    }
}

impl<F: Frame> SwitchRail for IdentityRail<F> {
    type Input = F;
    type Output = F;

    open spec fn switched(&self, input: F) -> F {
        input
    }

    fn switch(&self, input: F) -> (out: F) {
        input
    }
}

/// A filtering transformation: a frame goes on transformed, or is dropped.
pub trait Turnout: Send + Sync {
    type Input: Frame;
    type Output: Frame;

    /// Whether `process` may be called on this input.
    spec fn admits(&self, input: Self::Input) -> bool;

    /// Whether `output` is a possible outcome of processing `input`.
    spec fn outcome(&self, input: Self::Input, output: Option<Self::Output>) -> bool;

    fn process(&self, input: Self::Input) -> (out: Option<Self::Output>)
        requires
            self.admits(input),
        ensures
            self.outcome(input, out),
    ;
}

/// A rail followed by a handler that may drop the switched frame.
pub struct SimpleTurnout<R, H> {
    rail: R,
    handler: H,
}

impl<R, H> SimpleTurnout<R, H> {
    pub fn new(rail: R, handler: H) -> (t: Self)
        ensures
            t.rail() == rail,
            t.handler() == handler,
    {
        SimpleTurnout { rail, handler }
    }

    pub closed spec fn rail(&self) -> R {
        self.rail
    }

    pub closed spec fn handler(&self) -> H {
        self.handler
    }
}

impl<R, H> Turnout for SimpleTurnout<R, H> where
    R: SwitchRail,
    H: Fn(R::Output) -> Option<R::Output> + Send + Sync,
 {
    type Input = R::Input;
    type Output = R::Output;

    open spec fn admits(&self, input: R::Input) -> bool {
        call_requires(self.handler(), (self.rail().switched(input),))
    }

    open spec fn outcome(&self, input: R::Input, output: Option<R::Output>) -> bool {
        call_ensures(self.handler(), (self.rail().switched(input),), output)
    }

    fn process(&self, input: R::Input) -> (out: Option<R::Output>) {
        let switched = self.rail.switch(input);
        (self.handler)(switched)
    }
}

/// A pipeline used as a turnout that never drops a frame.
pub struct FramePipelineAdapter<P>(P);

impl<P> FramePipelineAdapter<P> {
    pub fn new(pipeline: P) -> (a: Self)
        ensures
            a.pipeline() == pipeline,
    {
        FramePipelineAdapter(pipeline)
    }

    pub closed spec fn pipeline(&self) -> P {
        self.0
    }
}

impl<P: FramePipeline> Turnout for FramePipelineAdapter<P> {
    type Input = P::Frame;
    type Output = P::Frame;

    open spec fn admits(&self, input: P::Frame) -> bool {
        true
    }

    open spec fn outcome(&self, input: P::Frame, output: Option<P::Frame>) -> bool {
        output == Some(self.pipeline().processed(input))
    }

    fn process(&self, input: P::Frame) -> (out: Option<P::Frame>) {
        Some(self.0.process(input))
    }
}

/// Two turnouts one after the other: the second sees what the first lets through.
pub struct ShuttleLink<A, B> {
    first: A,
    second: B,
}

impl<A, B> ShuttleLink<A, B> {
    pub fn new(first: A, second: B) -> (l: Self)
        ensures
            l.first() == first,
            l.second() == second,
    {
        ShuttleLink { first, second }
    }

    pub closed spec fn first(&self) -> A {
        self.first
    }

    pub closed spec fn second(&self) -> B {
        self.second
    }
}

impl<A, B> Turnout for ShuttleLink<A, B> where A: Turnout, B: Turnout<Input = A::Output> {
    type Input = A::Input;
    type Output = B::Output;

    open spec fn admits(&self, input: A::Input) -> bool {
        &&& self.first().admits(input)
        &&& forall|mid: A::Output| #[trigger]
            self.first().outcome(input, Some(mid)) ==> self.second().admits(mid)
    }

    open spec fn outcome(&self, input: A::Input, output: Option<B::Output>) -> bool {
        ||| self.first().outcome(input, None) && output is None
        ||| exists|mid: A::Output| #[trigger]
            self.first().outcome(input, Some(mid)) && self.second().outcome(mid, output)
    }

    fn process(&self, input: A::Input) -> (out: Option<B::Output>) {
        let intermediate = self.first.process(input);
        match intermediate {
            Some(mid) => self.second.process(mid),
            None => None,
        }
    }
}

/// Watches the frames of a connection and may veto it or ask for it to close.
pub trait ConnectionHook<F: Frame>: Send + 'static {
    fn on_frame(&mut self, frame: &F);

    /// Whether the connection may go on; by default it may.
    fn validate(&self) -> (r: Result<(), RailscaleError>)
        default_ensures
            r is Ok,
    {
        Ok(())
    }

    fn reset(&mut self) {
    }

    /// Whether the connection is to be closed after this request; by default not.
    fn should_close_connection(&self) -> (b: bool)
        default_ensures
            !b,
    {
        false
    }
}

/// The hook that watches nothing.
pub struct NoHook;

impl<F: Frame> ConnectionHook<F> for NoHook {
    fn on_frame(&mut self, frame: &F) {
    }
}

/// Connects to destinations through a router, for frames of type `F`.
pub struct RouterShunt<F, R> {
    router: R,
    _frame: PhantomData<F>,
}

impl<F, R> RouterShunt<F, R> {
    pub fn new(router: R) -> (s: Self)
        ensures
            s.router_spec() == router,
    {
        RouterShunt { router, _frame: PhantomData }
    }

    pub closed spec fn router_spec(&self) -> R {
        self.router
    }

    /// The router connections are made through.
    pub fn router(&self) -> (r: &R)
        ensures
            *r == self.router_spec(),
    {
        &self.router
    }
}

/// A departure that writes into a stream destination.
pub struct StreamDeparture<D>(D);

impl<D> StreamDeparture<D> {
    pub fn new(dest: D) -> (d: Self)
        ensures
            d.destination_spec() == dest,
    {
        StreamDeparture(dest)
    }

    pub closed spec fn destination_spec(&self) -> D {
        self.0
    }

    /// The destination written to.
    pub fn destination_mut(&mut self) -> (d: &mut D)
        ensures
            *d == old(self).destination_spec(),
            final(self).destination_spec() == *final(d),
    {
        &mut self.0
    }
}

/// A destination made of a collection of streams.
pub struct MultiDestination<C> {
    coll: C,
}

impl<C> MultiDestination<C> {
    pub fn new(coll: C) -> (d: Self)
        ensures
            d.collection_spec() == coll,
    {
        MultiDestination { coll }
    }

    pub closed spec fn collection_spec(&self) -> C {
        self.coll
    }

    /// The collection written to.
    pub fn collection_mut(&mut self) -> (c: &mut C)
        ensures
            *c == old(self).collection_spec(),
            final(self).collection_spec() == *final(c),
    {
        &mut self.coll
    }
}

} // verus!

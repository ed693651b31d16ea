use vstd::prelude::*;
use vstd::std_specs::cmp::PartialEqSpec;
use bytes::Bytes;
use crate::buffers::{
    bytes_as_slice, bytes_contents, bytes_mut_contents, bytes_mut_extend_from_slice,
    bytes_mut_freeze, bytes_mut_with_capacity,
};
use crate::frames::Frame;
use crate::phase_order::{comes_after, lawful_order, lemma_order_total, lemma_order_transitive, order_follows_spec};

verus! {

/// The processing stage a frame belongs to.
pub trait FramePhase: Copy + Clone + Ord + Eq + Send + Sync + 'static {
    fn is_reorderable(&self) -> bool;
}

/// A frame that knows its processing stage.
pub trait PhasedFrame: Frame {
    type Phase: FramePhase;

    /// The frame's stage.
    spec fn frame_phase(&self) -> Self::Phase;

    fn phase(&self) -> (p: Self::Phase)
        ensures
            p == self.frame_phase(),
    ;
}

/// One buffered piece: a frame's bytes or passed-through bytes, with its stage.
enum Entry<F: PhasedFrame> {
    Framed { phase: F::Phase, data: Bytes },
    Passthrough { phase: F::Phase, data: Bytes },
}

/// The model of a buffered piece: its stage, its bytes, and whether it was a frame.
pub struct Piece<P> {
    pub phase: P,
    pub data: Seq<u8>,
    pub framed: bool,
}

impl<F: PhasedFrame> Entry<F> {
    spec fn view(&self) -> Piece<F::Phase> {
        match self {
            Entry::Framed { phase, data } => Piece { phase: *phase, data: bytes_contents(*data), framed: true },
            Entry::Passthrough { phase, data } => Piece {
                phase: *phase,
                data: bytes_contents(*data),
                framed: false,
            },
        }
    }

    fn phase(&self) -> (p: F::Phase)
        ensures
            p == self.view().phase,
    {
        match self {
            Entry::Framed { phase, .. } => *phase,
            Entry::Passthrough { phase, .. } => *phase,
        }
    }

    fn data(&self) -> (d: &Bytes)
        ensures
            bytes_contents(*d) == self.view().data,
    {
        match self {
            Entry::Framed { data, .. } => data,
            Entry::Passthrough { data, .. } => data,
        }
    }

    fn into_data(self) -> (d: Bytes)
        ensures
            bytes_contents(d) == self.view().data,
    {
        match self {
            Entry::Framed { data, .. } => data,
            Entry::Passthrough { data, .. } => data,
        }
    }
}

/// The total length of the pieces' bytes.
pub open spec fn total_len<P>(pieces: Seq<Piece<P>>) -> nat
    decreases pieces.len(),
{
    if pieces.len() == 0 {
        0
    } else {
        total_len(pieces.drop_last()) + pieces.last().data.len()
    }
}

/// The pieces' bytes, one after the other.
pub open spec fn concat_pieces<P>(pieces: Seq<Piece<P>>) -> Seq<u8>
    decreases pieces.len(),
{
    if pieces.len() == 0 {
        Seq::empty()
    } else {
        concat_pieces(pieces.drop_last()) + pieces.last().data
    }
}

/// Where a stable sort by stage puts a piece that comes after all of `sorted`: in
/// front of the first piece of a later stage.
pub open spec fn insertion_point<P: PartialOrd>(sorted: Seq<Piece<P>>, x: Piece<P>, from: int) -> int
    decreases sorted.len() - from,
{
    if from >= sorted.len() {
        sorted.len() as int
    } else if comes_after(sorted[from].phase, x.phase) {
        from
    } else {
        insertion_point(sorted, x, from + 1)
    }
}

/// The pieces sorted by stage, pieces of the same stage kept in their order.
pub open spec fn stably_sorted<P: PartialOrd>(pieces: Seq<Piece<P>>) -> Seq<Piece<P>>
    decreases pieces.len(),
{
    if pieces.len() == 0 {
        Seq::empty()
    } else {
        let t = stably_sorted(pieces.drop_last());
        t.insert(insertion_point(t, pieces.last(), 0), pieces.last())
    }
}

/// The stages of the pieces, with runs of the same stage written once.
pub open spec fn stage_runs<P: PartialEq>(pieces: Seq<Piece<P>>) -> Seq<P>
    decreases pieces.len(),
{
    if pieces.len() == 0 {
        Seq::empty()
    } else {
        let before = stage_runs(pieces.drop_last());
        if before.len() > 0 && pieces.last().phase.eq_spec(&before.last()) {
            before
        } else {
            before.push(pieces.last().phase)
        }
    }
}

proof fn lemma_stably_sorted_len<P: PartialOrd>(pieces: Seq<Piece<P>>)
    ensures
        stably_sorted(pieces).len() == pieces.len(),
    decreases pieces.len(),
{
    if pieces.len() > 0 {
        lemma_stably_sorted_len(pieces.drop_last());
        lemma_insertion_point_bounds(stably_sorted(pieces.drop_last()), pieces.last(), 0);
    }
}

/// Sorting keeps every piece, so the byte total.
proof fn lemma_stably_sorted_same_bytes<P: PartialOrd>(pieces: Seq<Piece<P>>)
    ensures
        total_len(stably_sorted(pieces)) == total_len(pieces),
    decreases pieces.len(),
{
    if pieces.len() > 0 {
        lemma_stably_sorted_same_bytes(pieces.drop_last());
        let t = stably_sorted(pieces.drop_last());
        lemma_stably_sorted_len(pieces.drop_last());
        lemma_insertion_point_bounds(t, pieces.last(), 0);
        lemma_total_len_insert(t, insertion_point(t, pieces.last(), 0), pieces.last());
    }
}

proof fn lemma_total_len_insert<P>(s: Seq<Piece<P>>, i: int, x: Piece<P>)
    requires
        0 <= i <= s.len(),
    ensures
        total_len(s.insert(i, x)) == total_len(s) + x.data.len(),
    decreases s.len(),
{
    if i == s.len() {
        assert(s.insert(i, x).drop_last() =~= s);
    } else {
        lemma_total_len_insert(s.drop_last(), i, x);
        assert(s.insert(i, x).drop_last() =~= s.drop_last().insert(i, x));
    }
}

proof fn lemma_insertion_point_bounds<P: PartialOrd>(sorted: Seq<Piece<P>>, x: Piece<P>, from: int)
    requires
        0 <= from <= sorted.len(),
    ensures
        from <= insertion_point(sorted, x, from) <= sorted.len(),
    decreases sorted.len() - from,
{
    if from < sorted.len() && !comes_after(sorted[from].phase, x.phase) {
        lemma_insertion_point_bounds(sorted, x, from + 1);
    }
}

/// Frames and passed-through bytes gathered by stage, to be sent in stage order.
pub struct PhasedBuffer<F: PhasedFrame> {
    entries: Vec<Entry<F>>,
    byte_count: usize,
}

impl<F: PhasedFrame> PhasedBuffer<F> {
    /// The buffered pieces, in their current order.
    pub closed spec fn pieces(&self) -> Seq<Piece<F::Phase>> {
        self.entries@.map_values(|e: Entry<F>| e.view())
    }

    pub closed spec fn well_formed(&self) -> bool {
        self.byte_count == total_len(self.pieces())
    }

    /// An empty buffer.
    pub fn new() -> (b: Self)
        ensures
            b.well_formed(),
            b.pieces() == Seq::<Piece<F::Phase>>::empty(),
    {
        let b = PhasedBuffer { entries: Vec::new(), byte_count: 0 };
        assert(b.pieces() =~= Seq::<Piece<F::Phase>>::empty());
        b
    }

    /// Buffers a frame's bytes under its stage.
    pub fn push_frame(&mut self, frame: F)
        requires
            old(self).well_formed(),
            old(self).counted_bytes() + frame.frame_bytes().len() <= usize::MAX,
        ensures
            final(self).well_formed(),
            final(self).pieces() == old(self).pieces().push(
                Piece { phase: frame.frame_phase(), data: frame.frame_bytes(), framed: true },
            ),
    {
        let phase = frame.phase();
        let data = frame.into_bytes();
        let len = bytes_as_slice(&data).len();
        self.byte_count = self.byte_count + len;
        let ghost before = self.entries@;
        self.entries.push(Entry::Framed { phase, data });
        assert(self.pieces().drop_last() =~= before.map_values(|e: Entry<F>| e.view()));
    }

    /// Buffers passed-through bytes under a stage.
    pub fn push_passthrough(&mut self, phase: F::Phase, data: Bytes)
        requires
            old(self).well_formed(),
            old(self).counted_bytes() + bytes_contents(data).len() <= usize::MAX,
        ensures
            final(self).well_formed(),
            final(self).pieces() == old(self).pieces().push(
                Piece { phase, data: bytes_contents(data), framed: false },
            ),
    {
        let len = bytes_as_slice(&data).len();
        self.byte_count = self.byte_count + len;
        let ghost before = self.entries@;
        self.entries.push(Entry::Passthrough { phase, data });
        assert(self.pieces().drop_last() =~= before.map_values(|e: Entry<F>| e.view()));
    }

    /// The number of bytes buffered, as counted.
    pub closed spec fn counted_bytes(&self) -> nat {
        self.byte_count as nat
    }

    /// The number of bytes buffered.
    pub fn byte_count(&self) -> (n: usize)
        ensures
            n == self.counted_bytes(),
    {
        self.byte_count
    }

    /// Sorts the pieces by stage; pieces of the same stage keep their order.
    pub fn reorder(&mut self)
        requires
            old(self).well_formed(),
            order_follows_spec::<F::Phase>(),
        ensures
            final(self).well_formed(),
            final(self).pieces() == stably_sorted(old(self).pieces()),
            final(self).counted_bytes() == old(self).counted_bytes(),
    {
        let ghost pieces = self.pieces();
        let mut input = Vec::new();
        std::mem::swap(&mut input, &mut self.entries);
        let ghost all = input@;
        let mut out: Vec<Entry<F>> = Vec::new();
        let ghost mut k: int = 0;
        while input.len() > 0
            invariant
                order_follows_spec::<F::Phase>(),
                all.map_values(|e: Entry<F>| e.view()) == pieces,
                0 <= k <= all.len(),
                input@ == all.skip(k),
                out@.map_values(|e: Entry<F>| e.view()) == stably_sorted(pieces.take(k)),
            decreases input@.len(),
        {
            let e = input.remove(0);
            let ghost sorted = out@.map_values(|e: Entry<F>| e.view());
            let ghost x = e.view();
            assert(x == pieces[k]);
            let p = e.phase();
            let mut j: usize = 0;
            while j < out.len() && !(out[j].phase() > p)
                invariant
                    order_follows_spec::<F::Phase>(),
                    j <= out@.len(),
                    sorted == out@.map_values(|e: Entry<F>| e.view()),
                    p == x.phase,
                    insertion_point(sorted, x, 0) == insertion_point(sorted, x, j as int),
                decreases out@.len() - j,
            {
                j = j + 1;
            }
            out.insert(j, e);
            proof {
                assert(pieces.take(k + 1).drop_last() == pieces.take(k));
                assert(pieces.take(k + 1).last() == x);
                assert(out@.map_values(|e: Entry<F>| e.view()) =~= sorted.insert(j as int, x));
                k = k + 1;
                assert(input@ == all.skip(k));
            }
        }
        proof {
            assert(pieces.take(pieces.len() as int) == pieces);
            lemma_stably_sorted_same_bytes(pieces);
        }
        self.entries = out;
    }

    /// Whether nothing is buffered.
    pub fn is_empty(&self) -> (b: bool)
        ensures
            b == (self.pieces().len() == 0),
    {
        self.entries.len() == 0
    }

    /// The buffered bytes, piece by piece.
    pub fn drain(self) -> (out: Vec<Bytes>)
        ensures
            out@.len() == self.pieces().len(),
            forall|i: int| 0 <= i < out@.len() ==> bytes_contents(#[trigger] out@[i]) == self.pieces()[i].data,
    {
        let ghost pieces = self.pieces();
        let mut entries = self.entries;
        let mut out: Vec<Bytes> = Vec::new();
        let ghost all = entries@;
        while entries.len() > 0
            invariant
                all.map_values(|e: Entry<F>| e.view()) == pieces,
                out@.len() + entries@.len() == all.len(),
                entries@ == all.skip(out@.len() as int),
                forall|i: int| 0 <= i < out@.len() ==> bytes_contents(#[trigger] out@[i]) == pieces[i].data,
            decreases entries@.len(),
        {
            let e = entries.remove(0);
            assert(e == all[out@.len() as int]);
            out.push(e.into_data());
            assert(entries@ == all.skip(out@.len() as int));
        }
        out
    }

    /// All buffered bytes, one piece after the other, as one handle.
    pub fn freeze(self) -> (b: Bytes)
        ensures
            bytes_contents(b) == concat_pieces(self.pieces()),
    {
        let ghost pieces = self.pieces();
        let mut buf = bytes_mut_with_capacity(self.byte_count);
        let mut i: usize = 0;
        while i < self.entries.len()
            invariant
                i <= self.entries@.len(),
                pieces == self.pieces(),
                bytes_mut_contents(buf) == concat_pieces(pieces.take(i as int)),
            decreases self.entries@.len() - i,
        {
            bytes_mut_extend_from_slice(&mut buf, bytes_as_slice(self.entries[i].data()));
            assert(pieces.take(i as int + 1).drop_last() == pieces.take(i as int));
            i = i + 1;
        }
        assert(pieces.take(pieces.len() as int) == pieces);
        bytes_mut_freeze(buf)
    }

    /// The stages present, in buffer order, each run of one stage listed once (a
    /// stage equal, by the type's `==`, to the last one listed is not listed again).
    pub fn phases_present(&self) -> (phases: Vec<F::Phase>)
        requires
            <F::Phase>::obeys_eq_spec(),
        ensures
            phases@ == stage_runs(self.pieces()),
    {
        let ghost pieces = self.pieces();
        let mut phases: Vec<F::Phase> = Vec::new();
        let mut i: usize = 0;
        while i < self.entries.len()
            invariant
                <F::Phase>::obeys_eq_spec(),
                i <= self.entries@.len(),
                pieces == self.pieces(),
                phases@ == stage_runs(pieces.take(i as int)),
            decreases self.entries@.len() - i,
        {
            let p = self.entries[i].phase();
            assert(pieces.take(i as int + 1).drop_last() == pieces.take(i as int));
            let n = phases.len();
            if n == 0 {
                phases.push(p);
            } else {
                let same = p == phases[n - 1];
                if !same {
                    phases.push(p);
                }
            }
            i = i + 1;
        }
        assert(pieces.take(pieces.len() as int) == pieces);
        phases
    }
}

/// The pieces of stage `p`, in order.
pub open spec fn with_stage<P>(pieces: Seq<Piece<P>>, p: P) -> Seq<Piece<P>>
    decreases pieces.len(),
{
    if pieces.len() == 0 {
        Seq::empty()
    } else {
        let before = with_stage(pieces.drop_last(), p);
        if pieces.last().phase == p {
            before.push(pieces.last())
        } else {
            before
        }
    }
}

/// No piece comes before a piece of an earlier stage.
pub open spec fn stage_ordered<P: PartialOrd>(pieces: Seq<Piece<P>>) -> bool {
    forall|i: int, j: int|
        0 <= i < j < pieces.len() ==> !comes_after(#[trigger] pieces[i].phase, #[trigger] pieces[j].phase)
}

proof fn lemma_with_stage_concat<P>(a: Seq<Piece<P>>, b: Seq<Piece<P>>, p: P)
    ensures
        with_stage(a + b, p) == with_stage(a, p) + with_stage(b, p),
    decreases b.len(),
{
    if b.len() == 0 {
        assert(a + b =~= a);
        assert(with_stage(a, p) + with_stage(b, p) =~= with_stage(a, p));
    } else {
        lemma_with_stage_concat(a, b.drop_last(), p);
        assert((a + b).drop_last() =~= a + b.drop_last());
        assert((a + b).last() == b.last());
        if b.last().phase == p {
            assert(with_stage(a, p) + with_stage(b.drop_last(), p).push(b.last()) =~= (with_stage(
                a,
                p,
            ) + with_stage(b.drop_last(), p)).push(b.last()));
        }
    }
}

proof fn lemma_with_stage_none<P>(s: Seq<Piece<P>>, p: P)
    requires
        forall|i: int| 0 <= i < s.len() ==> #[trigger] s[i].phase != p,
    ensures
        with_stage(s, p) == Seq::<Piece<P>>::empty(),
    decreases s.len(),
{
    if s.len() > 0 {
        lemma_with_stage_none(s.drop_last(), p);
    }
}

proof fn lemma_insertion_point_facts<P: PartialOrd>(sorted: Seq<Piece<P>>, x: Piece<P>, from: int)
    requires
        0 <= from <= sorted.len(),
        forall|i: int| 0 <= i < from ==> !comes_after(#[trigger] sorted[i].phase, x.phase),
    ensures
        ({
            let ip = insertion_point(sorted, x, from);
            &&& from <= ip <= sorted.len()
            &&& forall|i: int| 0 <= i < ip ==> !comes_after(#[trigger] sorted[i].phase, x.phase)
            &&& ip < sorted.len() ==> comes_after(sorted[ip].phase, x.phase)
        }),
    decreases sorted.len() - from,
{
    if from < sorted.len() && !comes_after(sorted[from].phase, x.phase) {
        lemma_insertion_point_facts(sorted, x, from + 1);
    }
}

/// Inserting at the insertion point keeps an ordered sequence ordered, puts only
/// later stages behind the new piece, and so adds it at the end of its own stage.
proof fn lemma_insert_ordered<P: Ord>(t: Seq<Piece<P>>, x: Piece<P>)
    requires
        lawful_order::<P>(),
        stage_ordered(t),
    ensures
        ({
            let ip = insertion_point(t, x, 0);
            &&& stage_ordered(t.insert(ip, x))
            &&& forall|q: P| #[trigger] with_stage(t.insert(ip, x), q) == if x.phase == q {
                with_stage(t, q).push(x)
            } else {
                with_stage(t, q)
            }
        }),
{
    let ip = insertion_point(t, x, 0);
    lemma_insertion_point_facts(t, x, 0);
    let u = t.insert(ip, x);
    assert forall|i: int| ip <= i < t.len() implies comes_after(#[trigger] t[i].phase, x.phase) by {
        if i > ip {
            assert(!comes_after(t[ip].phase, t[i].phase));
            lemma_order_total(t[ip].phase, t[i].phase);
            if t[ip].phase != t[i].phase {
                lemma_order_transitive(t[i].phase, t[ip].phase, x.phase);
            }
        }
    }
    assert forall|i: int, j: int| 0 <= i < j < u.len() implies !comes_after(
        #[trigger] u[i].phase,
        #[trigger] u[j].phase,
    ) by {
        if j < ip {
            assert(u[i] == t[i] && u[j] == t[j]);
        } else if j == ip {
            assert(u[i] == t[i] && u[j] == x);
        } else if i == ip {
            assert(u[i] == x && u[j] == t[j - 1]);
            assert(comes_after(t[j - 1].phase, x.phase));
            lemma_order_total(t[j - 1].phase, x.phase);
        } else if i < ip {
            assert(u[i] == t[i] && u[j] == t[j - 1]);
        } else {
            assert(u[i] == t[i - 1] && u[j] == t[j - 1]);
        }
    }
    assert(u =~= t.take(ip) + seq![x] + t.skip(ip));
    assert(t =~= t.take(ip) + t.skip(ip));
    assert forall|q: P| #[trigger] with_stage(u, q) == if x.phase == q {
        with_stage(t, q).push(x)
    } else {
        with_stage(t, q)
    } by {
        lemma_with_stage_concat(t.take(ip) + seq![x], t.skip(ip), q);
        lemma_with_stage_concat(t.take(ip), seq![x], q);
        lemma_with_stage_concat(t.take(ip), t.skip(ip), q);
        assert(seq![x].drop_last() =~= Seq::<Piece<P>>::empty());
        assert(with_stage(Seq::<Piece<P>>::empty(), q) == Seq::<Piece<P>>::empty());
        assert(with_stage(seq![x], q) == if x.phase == q {
            Seq::<Piece<P>>::empty().push(x)
        } else {
            Seq::<Piece<P>>::empty()
        });
        if x.phase == q {
            assert forall|i: int| 0 <= i < t.skip(ip).len() implies #[trigger] t.skip(ip)[i].phase
                != q by {
                assert(t.skip(ip)[i] == t[ip + i]);
                assert(comes_after(t[ip + i].phase, x.phase));
                lemma_order_total(x.phase, x.phase);
            }
            lemma_with_stage_none(t.skip(ip), q);
            assert(with_stage(t.take(ip), q) + seq![x] + Seq::<Piece<P>>::empty() =~= with_stage(
                t.take(ip),
                q,
            ).push(x));
            assert(with_stage(t.take(ip), q) + Seq::<Piece<P>>::empty() =~= with_stage(t.take(ip), q));
        } else {
            assert(with_stage(t.take(ip), q) + Seq::<Piece<P>>::empty() =~= with_stage(t.take(ip), q));
            assert(with_stage(u, q) == with_stage(t.take(ip), q) + with_stage(t.skip(ip), q));
        }
    }
}

/// Reordering sorts the pieces by stage and keeps the pieces of each stage in the
/// order they were buffered (so no piece is lost or added).
pub proof fn law_reorder_sorts_stably<P: Ord>(pieces: Seq<Piece<P>>)
    requires
        lawful_order::<P>(),
    ensures
        stage_ordered(stably_sorted(pieces)),
        forall|q: P| #[trigger] with_stage(stably_sorted(pieces), q) == with_stage(pieces, q),
    decreases pieces.len(),
{
    if pieces.len() > 0 {
        law_reorder_sorts_stably(pieces.drop_last());
        lemma_insert_ordered(stably_sorted(pieces.drop_last()), pieces.last());
    }
}

} // verus!

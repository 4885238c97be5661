use vstd::prelude::*;

use crate::prim::bound::Rect;
use crate::prim::color::RGB;
use crate::prim::point::Point3;
use crate::prim::point::UNIT;

verus! {

/// A vertex of the solid-color stream: a position in the panel plane
/// (z is a flat depth of 0) and a fixed-point RGB color.
#[derive(Clone, Copy, Debug, PartialEq, Eq, Structural)]
pub struct VertexColor {
    pub position: Point3,
    pub color: RGB,
}

/// A vertex of the textured stream: a position and fixed-point texture
/// coordinates, where `UNIT` stands for 1.0 in image space.
#[derive(Clone, Copy, Debug, PartialEq, Eq, Structural)]
pub struct VertexUV {
    pub position: Point3,
    pub u: i64,
    pub v: i64,
}

/// Largest number of vertices one stream may hold, so that every index —
/// including indices rebased during a merge — fits in a `u16`.
pub const MAX_STREAM_VERTICES: usize = 0xFFFF;

/// The mathematical model of one draw stream: a sequence of vertices and a
/// sequence of indices into it. Indices are unbounded integers in the
/// model; the executable buffer stores them as `u16`.
#[verifier::ext_equal]
pub struct Stream<V> {
    pub vertices: Seq<V>,
    pub indices: Seq<int>,
}

impl<V> Stream<V> {
    /// Every index points at a vertex of this same stream.
    pub open spec fn wf(self) -> bool {
        forall|i: int| 0 <= i < self.indices.len() ==> 0 <= #[trigger] self.indices[i]
            < self.vertices.len()
    }

    /// The stream with no vertices and no indices.
    pub open spec fn empty() -> Stream<V> {
        Stream { vertices: Seq::empty(), indices: Seq::empty() }
    }

    /// Concatenation with index rebasing: `other`'s indices are shifted by
    /// the number of vertices already in `self`, so they keep pointing at
    /// the same vertices after the vertex sequences are concatenated.
    pub open spec fn merge(self, other: Stream<V>) -> Stream<V> {
        Stream {
            vertices: self.vertices + other.vertices,
            indices: self.indices + other.indices.map_values(
                |i: int| i + self.vertices.len(),
            ),
        }
    }
}

/// Left fold of `merge` over a sequence of streams, starting from the
/// empty stream.
pub open spec fn merge_all<V>(l: Seq<Stream<V>>) -> Stream<V>
    decreases l.len(),
{
    if l.len() == 0 {
        Stream::empty()
    } else {
        merge_all(l.drop_last()).merge(l.last())
    }
}

/// The empty stream is a left and right identity of `merge`.
pub proof fn lemma_merge_empty<V>(s: Stream<V>)
    ensures
        Stream::empty().merge(s) == s,
        s.merge(Stream::empty()) == s,
{
    assert(Stream::empty().merge(s) =~= s);
    assert(s.merge(Stream::empty()) =~= s);
}

/// `merge` is associative: regrouping a chain of merges changes neither
/// the vertex content nor the rebased indices.
pub proof fn lemma_merge_assoc<V>(a: Stream<V>, b: Stream<V>, c: Stream<V>)
    ensures
        a.merge(b).merge(c) == a.merge(b.merge(c)),
{
    assert(a.merge(b).merge(c) =~= a.merge(b.merge(c)));
}

/// Merging two well-formed streams yields a well-formed stream: every
/// index of the result is a valid offset into the merged vertex sequence.
pub proof fn lemma_merge_wf<V>(a: Stream<V>, b: Stream<V>)
    requires
        a.wf(),
        b.wf(),
    ensures
        a.merge(b).wf(),
{
}

/// Folding `merge` over a concatenation splits into merging the two folds:
/// with associativity and identity this says a fold of merges gives the
/// same stream under any regrouping of the list.
pub proof fn lemma_merge_all_split<V>(l1: Seq<Stream<V>>, l2: Seq<Stream<V>>)
    ensures
        merge_all(l1 + l2) == merge_all(l1).merge(merge_all(l2)),
    decreases l2.len(),
{
    if l2.len() == 0 {
        assert(l1 + l2 =~= l1);
        lemma_merge_empty(merge_all(l1));
    } else {
        lemma_merge_all_split(l1, l2.drop_last());
        assert((l1 + l2).drop_last() =~= l1 + l2.drop_last());
        assert((l1 + l2).last() == l2.last());
        lemma_merge_assoc(merge_all(l1), merge_all(l2.drop_last()), l2.last());
    }
}

/// A fold of merges over well-formed streams is well formed.
pub proof fn lemma_merge_all_wf<V>(l: Seq<Stream<V>>)
    requires
        forall|i: int| 0 <= i < l.len() ==> (#[trigger] l[i]).wf(),
    ensures
        merge_all(l).wf(),
    decreases l.len(),
{
    if l.len() > 0 {
        lemma_merge_all_wf(l.drop_last());
        lemma_merge_wf(merge_all(l.drop_last()), l.last());
    }
}

/// Number of vertices a fold of merges accumulates.
pub proof fn lemma_merge_all_len<V>(l: Seq<Stream<V>>, bound: int)
    requires
        forall|i: int| 0 <= i < l.len() ==> (#[trigger] l[i]).vertices.len() <= bound,
        0 <= bound,
    ensures
        merge_all(l).vertices.len() <= l.len() * bound,
    decreases l.len(),
{
    if l.len() > 0 {
        lemma_merge_all_len(l.drop_last(), bound);
        assert((l.len() - 1) * bound + bound == l.len() * bound) by (nonlinear_arith);
    }
}

/// An append-only accumulator of batched 2D geometry, holding two parallel
/// draw streams: solid-colored quads and UV-textured quads. Each stream's
/// indices reference only its own vertex stream.
#[derive(Clone, Debug, PartialEq)]
pub struct DrawBuffer {
    pub vertices_cd: Vec<VertexColor>,
    pub indices_cd: Vec<u16>,
    pub vertices_uv: Vec<VertexUV>,
    pub indices_uv: Vec<u16>,
}

impl DrawBuffer {
    /// Model of the solid-color stream.
    pub open spec fn cd(self) -> Stream<VertexColor> {
        Stream {
            vertices: self.vertices_cd@,
            indices: self.indices_cd@.map_values(|i: u16| i as int),
        }
    }

    /// Model of the UV-textured stream.
    pub open spec fn uv(self) -> Stream<VertexUV> {
        Stream {
            vertices: self.vertices_uv@,
            indices: self.indices_uv@.map_values(|i: u16| i as int),
        }
    }

    /// Both streams are well formed and small enough that rebased indices
    /// keep fitting in `u16`.
    pub open spec fn wf(self) -> bool {
        &&& self.cd().wf()
        &&& self.uv().wf()
        &&& self.vertices_cd@.len() <= MAX_STREAM_VERTICES
        &&& self.vertices_uv@.len() <= MAX_STREAM_VERTICES
    }
}

/// The four corner vertices a solid-color quad appends: bottom-left,
/// bottom-right, top-left, top-right, all with the same color.
pub open spec fn quad_vertices_cd(r: Rect, c: RGB) -> Seq<VertexColor> {
    seq![
        (VertexColor { position: Point3 { x: r.min.x, y: r.min.y, z: 0 }, color: c }),
        (VertexColor { position: Point3 { x: r.max.x, y: r.min.y, z: 0 }, color: c }),
        (VertexColor { position: Point3 { x: r.min.x, y: r.max.y, z: 0 }, color: c }),
        (VertexColor { position: Point3 { x: r.max.x, y: r.max.y, z: 0 }, color: c }),
    ]
}

/// The four corner vertices a textured quad appends, with the fixed UV
/// assignment mapping the rectangle onto the whole image: the top of the
/// rectangle maps to v = 0 and the bottom to v = 1 (`UNIT` stands for 1).
pub open spec fn quad_vertices_uv(r: Rect) -> Seq<VertexUV> {
    seq![
        (VertexUV { position: Point3 { x: r.min.x, y: r.min.y, z: 0 }, u: 0, v: UNIT as i64 }),
        (VertexUV { position: Point3 { x: r.max.x, y: r.min.y, z: 0 }, u: UNIT as i64, v: UNIT as i64 }),
        (VertexUV { position: Point3 { x: r.min.x, y: r.max.y, z: 0 }, u: 0, v: 0 }),
        (VertexUV { position: Point3 { x: r.max.x, y: r.max.y, z: 0 }, u: UNIT as i64, v: 0 }),
    ]
}

/// The six indices of the two counter-clockwise triangles of a quad whose
/// four corner vertices start at `base`.
pub open spec fn quad_indices(base: int) -> Seq<int> {
    seq![base, base + 1, base + 2, base + 2, base + 1, base + 3]
}

impl DrawBuffer {
    /// Concatenate two buffers streamwise. Every index taken from `other`
    /// is rebased by the matching vertex count of `self`, so the merged
    /// buffer's indices remain valid offsets into the merged vertex
    /// streams.
    pub fn chain(self, other: DrawBuffer) -> (b: DrawBuffer)
        requires
            self.wf(),
            other.wf(),
            self.vertices_cd@.len() + other.vertices_cd@.len() <= MAX_STREAM_VERTICES,
            self.vertices_uv@.len() + other.vertices_uv@.len() <= MAX_STREAM_VERTICES,
        ensures
            b.cd() == self.cd().merge(other.cd()),
            b.uv() == self.uv().merge(other.uv()),
            b.wf(),
    {
        let ghost s0 = self;
        let ghost o0 = other;

        let offset_cd: u16 = self.vertices_cd.len() as u16;
        let mut vertices_cd = self.vertices_cd;
        let mut other_vcd = other.vertices_cd;
        vertices_cd.append(&mut other_vcd);
        let mut indices_cd = self.indices_cd;
        let other_icd = other.indices_cd;
        let n_cd = other_icd.len();
        let mut k: usize = 0;
        while k < n_cd
            invariant
                k <= n_cd,
                n_cd == o0.indices_cd@.len(),
                other_icd@ == o0.indices_cd@,
                o0.wf(),
                offset_cd == s0.vertices_cd@.len(),
                s0.vertices_cd@.len() + o0.vertices_cd@.len() <= MAX_STREAM_VERTICES,
                indices_cd@.len() == s0.indices_cd@.len() + k,
                forall|j: int|
                    0 <= j < s0.indices_cd@.len() ==> indices_cd@[j] == s0.indices_cd@[j],
                forall|j: int|
                    0 <= j < k ==> #[trigger] indices_cd@[s0.indices_cd@.len() + j] as int
                        == o0.indices_cd@[j] as int + offset_cd as int,
            decreases n_cd - k,
        {
            proof {
                assert(o0.cd().indices[k as int] == o0.indices_cd@[k as int] as int);
            }
            indices_cd.push(other_icd[k] + offset_cd);
            k += 1;
        }

        let offset_uv: u16 = self.vertices_uv.len() as u16;
        let mut vertices_uv = self.vertices_uv;
        let mut other_vuv = other.vertices_uv;
        vertices_uv.append(&mut other_vuv);
        let mut indices_uv = self.indices_uv;
        let other_iuv = other.indices_uv;
        let n_uv = other_iuv.len();
        let mut k: usize = 0;
        while k < n_uv
            invariant
                k <= n_uv,
                n_uv == o0.indices_uv@.len(),
                other_iuv@ == o0.indices_uv@,
                o0.wf(),
                offset_uv == s0.vertices_uv@.len(),
                s0.vertices_uv@.len() + o0.vertices_uv@.len() <= MAX_STREAM_VERTICES,
                indices_uv@.len() == s0.indices_uv@.len() + k,
                forall|j: int|
                    0 <= j < s0.indices_uv@.len() ==> indices_uv@[j] == s0.indices_uv@[j],
                forall|j: int|
                    0 <= j < k ==> #[trigger] indices_uv@[s0.indices_uv@.len() + j] as int
                        == o0.indices_uv@[j] as int + offset_uv as int,
            decreases n_uv - k,
        {
            proof {
                assert(o0.uv().indices[k as int] == o0.indices_uv@[k as int] as int);
            }
            indices_uv.push(other_iuv[k] + offset_uv);
            k += 1;
        }

        let b = DrawBuffer { vertices_cd, indices_cd, vertices_uv, indices_uv };
        proof {
            let mcd = s0.cd().merge(o0.cd());
            assert(b.cd().vertices =~= mcd.vertices);
            assert forall|j: int| 0 <= j < mcd.indices.len() implies b.cd().indices[j]
                == mcd.indices[j] by {
                if j >= s0.indices_cd@.len() {
                    let jj = j - s0.indices_cd@.len();
                    assert(b.indices_cd@[s0.indices_cd@.len() + jj] as int
                        == o0.indices_cd@[jj] as int + offset_cd as int);
                }
            }
            assert(b.cd().indices =~= mcd.indices);
            assert(b.cd() =~= mcd);

            let muv = s0.uv().merge(o0.uv());
            assert(b.uv().vertices =~= muv.vertices);
            assert forall|j: int| 0 <= j < muv.indices.len() implies b.uv().indices[j]
                == muv.indices[j] by {
                if j >= s0.indices_uv@.len() {
                    let jj = j - s0.indices_uv@.len();
                    assert(b.indices_uv@[s0.indices_uv@.len() + jj] as int
                        == o0.indices_uv@[jj] as int + offset_uv as int);
                }
            }
            assert(b.uv().indices =~= muv.indices);
            assert(b.uv() =~= muv);

            lemma_merge_wf(s0.cd(), o0.cd());
            lemma_merge_wf(s0.uv(), o0.uv());
        }
        b
    }

    /// Append a solid-colored quad covering `rect`: four corner vertices
    /// in reading order and six indices forming two counter-clockwise
    /// triangles. The textured stream is untouched.
    pub fn rect(&mut self, rect: Rect, color: RGB)
        requires
            old(self).wf(),
            old(self).vertices_cd@.len() + 4 <= MAX_STREAM_VERTICES,
        ensures
            final(self).cd().vertices == old(self).cd().vertices + quad_vertices_cd(rect, color),
            final(self).cd().indices == old(self).cd().indices + quad_indices(
                old(self).vertices_cd@.len() as int,
            ),
            final(self).uv() == old(self).uv(),
            final(self).wf(),
    {
        let base: u16 = self.vertices_cd.len() as u16;
        self.vertices_cd.push(VertexColor {
            position: Point3 { x: rect.min.x, y: rect.min.y, z: 0 },
            color,
        });
        self.vertices_cd.push(VertexColor {
            position: Point3 { x: rect.max.x, y: rect.min.y, z: 0 },
            color,
        });
        self.vertices_cd.push(VertexColor {
            position: Point3 { x: rect.min.x, y: rect.max.y, z: 0 },
            color,
        });
        self.vertices_cd.push(VertexColor {
            position: Point3 { x: rect.max.x, y: rect.max.y, z: 0 },
            color,
        });
        self.indices_cd.push(base);
        self.indices_cd.push(base + 1);
        self.indices_cd.push(base + 2);
        self.indices_cd.push(base + 2);
        self.indices_cd.push(base + 1);
        self.indices_cd.push(base + 3);
        proof {
            assert(self.cd().vertices =~= old(self).cd().vertices + quad_vertices_cd(
                rect,
                color,
            ));
            assert(self.cd().indices =~= old(self).cd().indices + quad_indices(
                old(self).vertices_cd@.len() as int,
            ));
            assert(self.uv() =~= old(self).uv());
        }
    }

    /// Append a textured quad covering `rect`, with the fixed UV corner
    /// assignment of `quad_vertices_uv`. The solid-color stream is
    /// untouched.
    pub fn rect_uv(&mut self, rect: Rect)
        requires
            old(self).wf(),
            old(self).vertices_uv@.len() + 4 <= MAX_STREAM_VERTICES,
        ensures
            final(self).uv().vertices == old(self).uv().vertices + quad_vertices_uv(rect),
            final(self).uv().indices == old(self).uv().indices + quad_indices(
                old(self).vertices_uv@.len() as int,
            ),
            final(self).cd() == old(self).cd(),
            final(self).wf(),
    {
        let base: u16 = self.vertices_uv.len() as u16;
        self.vertices_uv.push(VertexUV {
            position: Point3 { x: rect.min.x, y: rect.min.y, z: 0 },
            u: 0,
            v: UNIT,
        });
        self.vertices_uv.push(VertexUV {
            position: Point3 { x: rect.max.x, y: rect.min.y, z: 0 },
            u: UNIT,
            v: UNIT,
        });
        self.vertices_uv.push(VertexUV {
            position: Point3 { x: rect.min.x, y: rect.max.y, z: 0 },
            u: 0,
            v: 0,
        });
        self.vertices_uv.push(VertexUV {
            position: Point3 { x: rect.max.x, y: rect.max.y, z: 0 },
            u: UNIT,
            v: 0,
        });
        self.indices_uv.push(base);
        self.indices_uv.push(base + 1);
        self.indices_uv.push(base + 2);
        self.indices_uv.push(base + 2);
        self.indices_uv.push(base + 1);
        self.indices_uv.push(base + 3);
        proof {
            assert(self.uv().vertices =~= old(self).uv().vertices + quad_vertices_uv(rect));
            assert(self.uv().indices =~= old(self).uv().indices + quad_indices(
                old(self).vertices_uv@.len() as int,
            ));
            assert(self.cd() =~= old(self).cd());
        }
    }
}

/// The solid-color stream models of a sequence of buffers.
pub open spec fn cd_models(bufs: Seq<DrawBuffer>) -> Seq<Stream<VertexColor>> {
    bufs.map_values(|b: DrawBuffer| b.cd())
}

/// The textured stream models of a sequence of buffers.
pub open spec fn uv_models(bufs: Seq<DrawBuffer>) -> Seq<Stream<VertexUV>> {
    bufs.map_values(|b: DrawBuffer| b.uv())
}

impl DrawBuffer {
    /// Left fold of `chain` over a list of buffers, starting from the
    /// empty buffer: the batched geometry of a whole frame in traversal
    /// order.
    pub fn sum(bufs: Vec<DrawBuffer>) -> (b: DrawBuffer)
        requires
            forall|i: int| 0 <= i < bufs@.len() ==> (#[trigger] bufs@[i]).wf(),
            merge_all(cd_models(bufs@)).vertices.len() <= MAX_STREAM_VERTICES,
            merge_all(uv_models(bufs@)).vertices.len() <= MAX_STREAM_VERTICES,
        ensures
            b.cd() == merge_all(cd_models(bufs@)),
            b.uv() == merge_all(uv_models(bufs@)),
            b.wf(),
    {
        let ghost orig = bufs@;
        let mut rest = bufs;
        let mut acc = DrawBuffer::default();
        let ghost mut done: int = 0;
        proof {
            assert(rest@ =~= orig.subrange(done, orig.len() as int));
            assert(cd_models(orig.subrange(0, 0)) =~= Seq::<Stream<VertexColor>>::empty());
            assert(uv_models(orig.subrange(0, 0)) =~= Seq::<Stream<VertexUV>>::empty());
        }
        while rest.len() > 0
            invariant
                0 <= done <= orig.len(),
                rest@ == orig.subrange(done, orig.len() as int),
                forall|i: int| 0 <= i < orig.len() ==> (#[trigger] orig[i]).wf(),
                merge_all(cd_models(orig)).vertices.len() <= MAX_STREAM_VERTICES,
                merge_all(uv_models(orig)).vertices.len() <= MAX_STREAM_VERTICES,
                acc.cd() == merge_all(cd_models(orig.subrange(0, done))),
                acc.uv() == merge_all(uv_models(orig.subrange(0, done))),
                acc.wf(),
            decreases rest@.len(),
        {
            let next = rest.remove(0);
            proof {
                assert(next == orig[done]);
                let pre = orig.subrange(0, done);
                let pre1 = orig.subrange(0, done + 1);
                let suf1 = orig.subrange(done + 1, orig.len() as int);
                assert(cd_models(pre1).drop_last() =~= cd_models(pre));
                assert(cd_models(pre1).last() == next.cd());
                assert(uv_models(pre1).drop_last() =~= uv_models(pre));
                assert(uv_models(pre1).last() == next.uv());
                assert(cd_models(orig) =~= cd_models(pre1) + cd_models(suf1));
                assert(uv_models(orig) =~= uv_models(pre1) + uv_models(suf1));
                lemma_merge_all_split(cd_models(pre1), cd_models(suf1));
                lemma_merge_all_split(uv_models(pre1), uv_models(suf1));
                assert(rest@ =~= orig.subrange(done + 1, orig.len() as int));
            }
            acc = acc.chain(next);
            proof {
                done = done + 1;
            }
        }
        proof {
            assert(orig.subrange(0, done) =~= orig);
        }
        acc
    }
}

impl Default for DrawBuffer {
    /// An empty buffer: both streams empty.
    fn default() -> (b: Self)
        ensures
            b.cd() == Stream::<VertexColor>::empty(),
            b.uv() == Stream::<VertexUV>::empty(),
            b.wf(),
    {
        let b = DrawBuffer {
            vertices_cd: Vec::new(),
            indices_cd: Vec::new(),
            vertices_uv: Vec::new(),
            indices_uv: Vec::new(),
        };
        proof {
            assert(b.cd() =~= Stream::<VertexColor>::empty());
            assert(b.uv() =~= Stream::<VertexUV>::empty());
        }
        b
    }
}

} // verus!

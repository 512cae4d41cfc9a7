//! The texture store: a square grid of pixels, three channel bytes per
//! pixel, whatever the active color mode.
//!
//! The buffer length is always exactly `3 * side * side`, so a snapshot can
//! be handed to a display as an RGB image without further checks. The only
//! mutating primitives are `resize`, `scramble` and `swap`; a swap of one
//! pixel pair is the minimal mutation unit of a refinement run.

use vstd::prelude::*;
use crate::color::ColorMode;
use crate::rng::random_byte;

verus! {

/// The caller-contract violations the library reports.
#[derive(Debug, PartialEq, Eq, Structural, Clone, Copy)]
pub enum NoiseError {
    /// A grid side below 2 was asked of `new` or `resize`.
    InvalidSize,
    /// A refinement run was started while another one was active.
    RunAlreadyActive,
    /// A resize was asked for while a refinement run was active.
    ConcurrentResizeConflict,
}

/// A square noise texture of side `side()`, stored as a flat row-major
/// buffer of `3 * side * side` channel bytes.
#[derive(Debug)]
pub struct NoiseTexture {
    size: usize,
    data: Vec<u8>,
}

impl NoiseTexture {
    /// Side length of the grid.
    pub closed spec fn side(&self) -> int {
        self.size as int
    }

    /// The flat channel buffer, three bytes per pixel.
    pub closed spec fn buf(&self) -> Seq<u8> {
        self.data@
    }

    /// Structural invariant: a valid grid side and a buffer of exactly
    /// three bytes per pixel, small enough to index with `usize`.
    pub open spec fn wf(&self) -> bool {
        &&& 2 <= self.side()
        &&& self.buf().len() == 3 * (self.side() * self.side())
        &&& 3 * (self.side() * self.side()) <= usize::MAX
    }

    /// The channel triplet of pixel `p`.
    pub open spec fn pixel(&self, p: int) -> (u8, u8, u8) {
        (self.buf()[3 * p], self.buf()[3 * p + 1], self.buf()[3 * p + 2])
    }

    /// Creates a texture with every channel zeroed. A side below 2 cannot
    /// hold a non-degenerate pixel pair and is rejected.
    pub fn new(size: usize) -> (r: Result<NoiseTexture, NoiseError>)
        requires
            3 * (size * size) <= usize::MAX,
        ensures
            size < 2 ==> (r matches Err(e) && e == NoiseError::InvalidSize),
            size >= 2 ==> (r matches Ok(t) && {
                &&& t.wf()
                &&& t.side() == size
                &&& t.buf().len() == 3 * (size * size)
                &&& forall|i: int| 0 <= i < t.buf().len() ==> t.buf()[i] == 0u8
            }),
    {
        if size < 2 {
            return Err(NoiseError::InvalidSize);
        }
        let s2 = size * size;
        let n = 3 * s2;
        let data = zeroed(n);
        Ok(NoiseTexture { size, data })
    }

    /// Side length of the grid.
    pub fn size(&self) -> (s: usize)
        ensures
            s == self.side(),
    {
        self.size
    }

    /// One channel byte of one pixel.
    pub fn channel(&self, p: usize, c: usize) -> (v: u8)
        requires
            self.wf(),
            p < self.side() * self.side(),
            c < 3,
        ensures
            v == self.buf()[3 * p + c],
    {
        self.data[3 * p + c]
    }

    /// Re-shapes the grid to side `size`. Content within the surviving
    /// prefix of the buffer is kept, a grown region is zero-filled, a
    /// shrunk one is truncated. A side below 2 is rejected and leaves the
    /// texture unchanged.
    pub fn resize(&mut self, size: usize) -> (r: Result<(), NoiseError>)
        requires
            old(self).wf(),
            3 * (size * size) <= usize::MAX,
        ensures
            size < 2 ==> (r matches Err(e) && e == NoiseError::InvalidSize
                && *final(self) == *old(self)),
            size >= 2 ==> (r is Ok && {
                &&& final(self).wf()
                &&& final(self).side() == size
                &&& final(self).buf().len() == 3 * (size * size)
                &&& forall|i: int| 0 <= i < final(self).buf().len() ==> final(self).buf()[i]
                    == (if i < old(self).buf().len() { old(self).buf()[i] } else { 0u8 })
            }),
    {
        if size < 2 {
            return Err(NoiseError::InvalidSize);
        }
        let s2 = size * size;
        let n = 3 * s2;
        if n <= self.data.len() {
            self.data.truncate(n);
        } else {
            let ghost prefix = self.data@;
            while self.data.len() < n
                invariant
                    prefix.len() <= self.data@.len() <= n,
                    self.data@.subrange(0, prefix.len() as int) == prefix,
                    forall|i: int| prefix.len() <= i < self.data@.len()
                        ==> self.data@[i] == 0u8,
                decreases n - self.data.len(),
            {
                self.data.push(0);
            }
        }
        self.size = size;
        Ok(())
    }

    /// Exchanges the full channel triplets of pixels `first` and `second`;
    /// no other pixel changes. This is the sole mutation a refinement run
    /// performs on a shared texture, so a swap is never seen half-applied.
    pub fn swap(&mut self, first: usize, second: usize)
        requires
            old(self).wf(),
            first < old(self).side() * old(self).side(),
            second < old(self).side() * old(self).side(),
        ensures
            final(self).wf(),
            final(self).side() == old(self).side(),
            final(self).buf().len() == old(self).buf().len(),
            final(self).pixel(first as int) == old(self).pixel(second as int),
            final(self).pixel(second as int) == old(self).pixel(first as int),
            forall|q: int| 0 <= q < old(self).side() * old(self).side()
                && q != first && q != second
                ==> final(self).pixel(q) == old(self).pixel(q),
    {
        let a = 3 * first;
        let b = 3 * second;
        let t0 = self.data[a];
        let t1 = self.data[a + 1];
        let t2 = self.data[a + 2];
        let s0 = self.data[b];
        let s1 = self.data[b + 1];
        let s2 = self.data[b + 2];
        self.data[a] = s0;
        self.data[a + 1] = s1;
        self.data[a + 2] = s2;
        self.data[b] = t0;
        self.data[b + 1] = t1;
        self.data[b + 2] = t2;
    }

    /// An immutable copy of the whole buffer together with the side it
    /// belongs to; the two always agree, so the copy can be rendered as an
    /// RGB image directly.
    pub fn snapshot(&self) -> (r: (usize, Vec<u8>))
        requires
            self.wf(),
        ensures
            r.0 == self.side(),
            r.1@ == self.buf(),
            r.1@.len() == 3 * (r.0 * r.0),
    {
        let mut out: Vec<u8> = Vec::new();
        let n = self.data.len();
        let mut i: usize = 0;
        while i < n
            invariant
                i <= n,
                n == self.buf().len(),
                out@ == self.buf().subrange(0, i as int),
            decreases n - i,
        {
            out.push(self.data[i]);
            proof {
                assert(out@ =~= self.buf().subrange(0, i + 1));
            }
            i = i + 1;
        }
        proof {
            assert(out@ =~= self.buf());
        }
        (self.size, out)
    }

    /// A private working copy for a refinement run to evaluate candidate
    /// swaps on.
    pub fn duplicate(&self) -> (t: NoiseTexture)
        requires
            self.wf(),
        ensures
            t.wf(),
            t.side() == self.side(),
            t.buf() == self.buf(),
    {
        let (size, data) = self.snapshot();
        NoiseTexture { size, data }
    }

    /// Overwrites every pixel with white noise: each channel the mode
    /// activates gets an independent uniformly random byte. In `Gray` mode
    /// the one random byte is replicated into all three channels; in `Rg`
    /// mode the third channel is forced to zero.
    pub fn scramble(&mut self, mode: &ColorMode)
        requires
            old(self).wf(),
        ensures
            final(self).wf(),
            final(self).side() == old(self).side(),
            final(self).buf().len() == old(self).buf().len(),
            forall|p: int| 0 <= p < final(self).side() * final(self).side()
                ==> #[trigger] scrambled_pixel_ok(*mode, *final(self), p),
    {
        let n = self.size * self.size;
        let ghost side = self.side();
        let mut p: usize = 0;
        while p < n
            invariant
                p <= n,
                self.side() == side,
                n == side * side,
                self.buf().len() == 3 * (side * side),
                self.wf(),
                forall|q: int| 0 <= q < p
                    ==> #[trigger] scrambled_pixel_ok(*mode, *self, q),
            decreases n - p,
        {
            let ghost pre = *self;
            let base = 3 * p;
            match mode {
                ColorMode::Gray => {
                    let v = random_byte();
                    self.data[base] = v;
                    self.data[base + 1] = v;
                    self.data[base + 2] = v;
                    proof {
                        assert(self.pixel(p as int) == (v, v, v));
                    }
                },
                ColorMode::Rg => {
                    self.data[base] = random_byte();
                    self.data[base + 1] = random_byte();
                    self.data[base + 2] = 0;
                    proof {
                        assert(self.pixel(p as int).2 == 0u8);
                    }
                },
                ColorMode::Rgb => {
                    self.data[base] = random_byte();
                    self.data[base + 1] = random_byte();
                    self.data[base + 2] = random_byte();
                },
            }
            proof {
                assert(scrambled_pixel_ok(*mode, *self, p as int));
                assert forall|q: int| 0 <= q <= p implies
                    #[trigger] scrambled_pixel_ok(*mode, *self, q) by {
                    if q < p {
                        assert(self.buf()[3 * q] == pre.buf()[3 * q]);
                        assert(self.buf()[3 * q + 1] == pre.buf()[3 * q + 1]);
                        assert(self.buf()[3 * q + 2] == pre.buf()[3 * q + 2]);
                        assert(self.pixel(q) == pre.pixel(q));
                        assert(scrambled_pixel_ok(*mode, pre, q));
                    }
                }
            }
            p = p + 1;
        }
    }
}

/// What `scramble` guarantees of each pixel of the result: in `Gray` mode
/// the three channels of the pixel agree, in `Rg` mode the third channel
/// is zero, and in `Rgb` mode every channel carries its own random byte,
/// so nothing is forced.
pub open spec fn scrambled_pixel_ok(mode: ColorMode, t: NoiseTexture, p: int) -> bool {
    match mode {
        ColorMode::Gray => t.pixel(p).1 == t.pixel(p).0 && t.pixel(p).2 == t.pixel(p).0,
        ColorMode::Rg => t.pixel(p).2 == 0u8,
        ColorMode::Rgb => true,
    }
}

/// The grid read as a sequence of pixel triplets.
pub open spec fn pixels_of(t: NoiseTexture) -> Seq<(u8, u8, u8)> {
    Seq::new((t.side() * t.side()) as nat, |p: int| t.pixel(p))
}

/// A swap relocates pixel colors but neither invents nor loses any: a
/// texture reached from another by exchanging the triplets of one pixel
/// pair holds the same multiset of pixel colors. Chained over the
/// accepted swaps of a refinement run, the buffer a run leaves behind is
/// a permutation of the pixel colors it started from.
pub proof fn lemma_swap_preserves_pixel_multiset(
    t1: NoiseTexture,
    t2: NoiseTexture,
    i: int,
    j: int,
)
    requires
        t1.wf(),
        t2.wf(),
        t2.side() == t1.side(),
        0 <= i < t1.side() * t1.side(),
        0 <= j < t1.side() * t1.side(),
        t2.pixel(i) == t1.pixel(j),
        t2.pixel(j) == t1.pixel(i),
        forall|q: int|
            0 <= q < t1.side() * t1.side() && q != i && q != j
                ==> t2.pixel(q) == t1.pixel(q),
    ensures
        pixels_of(t2).to_multiset() == pixels_of(t1).to_multiset(),
{
    broadcast use vstd::multiset::group_multiset_axioms;
    broadcast use vstd::multiset::group_multiset_properties;

    let s1 = pixels_of(t1);
    let s2 = pixels_of(t2);
    if i == j {
        assert(s2 =~= s1);
    } else {
        let mid = s1.update(i, s1[j]);
        assert(s2 =~= mid.update(j, s1[i]));
        vstd::seq_lib::to_multiset_update(s1, i, s1[j]);
        vstd::seq_lib::to_multiset_update(mid, j, s1[i]);
        s1.to_multiset_ensures();
        mid.to_multiset_ensures();
        assert(s1.contains(s1[i]));
        assert(mid.contains(s1[j]));
        assert(mid.update(j, s1[i]).to_multiset() =~= s1.to_multiset());
    }
}

/// A vector of `n` zero bytes.
fn zeroed(n: usize) -> (v: Vec<u8>)
    ensures
        v@.len() == n,
        forall|i: int| 0 <= i < n ==> v@[i] == 0u8,
{
    let mut v: Vec<u8> = Vec::new();
    while v.len() < n
        invariant
            v@.len() <= n,
            forall|i: int| 0 <= i < v@.len() ==> v@[i] == 0u8,
        decreases n - v.len(),
    {
        v.push(0);
    }
    v
}

} // verus!

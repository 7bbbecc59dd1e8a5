//! The strided buffer descriptor and its layout analysis.
//!
//! A [`FlatSamples`] pairs a linear storage container with a geometry
//! description: extents (`width`, `height`, `channels`) and one stride per
//! axis. The descriptor is intentionally permissive — nothing is validated
//! on construction; the operations below establish every property they
//! need, with overflow-checked arithmetic throughout.

use vstd::prelude::*;

verus! {

/// Lexicographic order on (stride, count) axis descriptions: by stride,
/// with the count breaking ties deterministically.
pub open spec fn dim_le(a: (usize, usize), b: (usize, usize)) -> bool {
    a.0 < b.0 || (a.0 == b.0 && a.1 <= b.1)
}

fn dim_le_exec(a: (usize, usize), b: (usize, usize)) -> (r: bool)
    ensures
        r == dim_le(a, b),
{
    a.0 < b.0 || (a.0 == b.0 && a.1 <= b.1)
}

/// Sort three (stride, count) axis descriptions by `dim_le`, with a
/// three-element sorting network.
pub open spec fn sort3(d0: (usize, usize), d1: (usize, usize), d2: (usize, usize)) -> (
    (usize, usize),
    (usize, usize),
    (usize, usize),
) {
    let (a, b) = if dim_le(d0, d1) {
        (d0, d1)
    } else {
        (d1, d0)
    };
    let (b2, c) = if dim_le(b, d2) {
        (b, d2)
    } else {
        (d2, b)
    };
    let (a2, b3) = if dim_le(a, b2) {
        (a, b2)
    } else {
        (b2, a)
    };
    (a2, b3, c)
}

/// A flat buffer over a (multi channel) image.
///
/// The strides need not place every coordinate inside the underlying
/// buffer; the validating view constructors in [`crate::view`] establish
/// that before any pixel access is allowed.
#[derive(Clone, Debug)]
pub struct FlatSamples<Buffer> {
    /// Underlying linear container holding sample values.
    pub samples: Buffer,

    /// The number of channels in the color representation of the image.
    pub channels: u8,

    /// Add this to an index to get to the sample in the next channel.
    pub channel_stride: usize,

    /// The width of the represented image.
    pub width: u32,

    /// Add this to an index to get to the next sample in x-direction.
    pub width_stride: usize,

    /// The height of the represented image.
    pub height: u32,

    /// Add this to an index to get to the next sample in y-direction.
    pub height_stride: usize,
}

impl<Buffer> FlatSamples<Buffer> {
    /// The linear index of the coordinate `(x, y, c)`, as an unbounded
    /// integer: `x·width_stride + y·height_stride + c·channel_stride`.
    pub open spec fn spec_index(self, x: int, y: int, c: int) -> int {
        x * (self.width_stride as int) + y * (self.height_stride as int) + c
            * (self.channel_stride as int)
    }

    /// Whether `(x, y, c)` lies inside the declared extents.
    pub open spec fn spec_in_bounds(self, x: int, y: int, c: int) -> bool {
        0 <= x < self.width && 0 <= y < self.height && 0 <= c < self.channels
    }

    /// Whether some extent is zero, so that no coordinate is in bounds.
    pub open spec fn is_degenerate(self) -> bool {
        self.width == 0 || self.height == 0 || self.channels == 0
    }

    /// The linear index of the last in-bounds coordinate. Meaningful only
    /// for non-degenerate geometries.
    pub open spec fn spec_max_index(self) -> int {
        self.spec_index(self.width as int - 1, self.height as int - 1, self.channels as int - 1)
    }

    /// Whether `other` declares the same geometry (all fields but the
    /// storage itself agree).
    pub open spec fn same_geometry<Other>(self, other: FlatSamples<Other>) -> bool {
        &&& self.channels == other.channels
        &&& self.channel_stride == other.channel_stride
        &&& self.width == other.width
        &&& self.width_stride == other.width_stride
        &&& self.height == other.height
        &&& self.height_stride == other.height_stride
    }

    /// Get the strides for indexing matrix-like `[(h, w, c)]`.
    ///
    /// For a row-major layout with grouped samples, this tuple is strictly
    /// decreasing.
    pub fn strides_hwc(&self) -> (r: (usize, usize, usize))
        ensures
            r == (self.height_stride, self.width_stride, self.channel_stride),
    {
        (self.height_stride, self.width_stride, self.channel_stride)
    }

    /// Get the dimensions (height, width, channels).
    ///
    /// Width and height are swapped compared to 2D size accessors: the
    /// interface is oriented for outer-to-inner iteration along
    /// `strides_hwc`.
    pub fn extents(&self) -> (r: (usize, usize, usize))
        ensures
            r == (self.height as usize, self.width as usize, self.channels as usize),
    {
        (self.height as usize, self.width as usize, self.channels as usize)
    }

    /// Check that the pixel and the channel index are in bounds.
    pub fn in_bounds(&self, x: u32, y: u32, channel: u8) -> (r: bool)
        ensures
            r == self.spec_in_bounds(x as int, y as int, channel as int),
    {
        x < self.width && y < self.height && channel < self.channels
    }

    /// Resolve the index of a particular sample.
    ///
    /// `None` if the coordinate is outside the bounds or its index does not
    /// fit into a `usize`. Every multiplication and addition is
    /// overflow-checked; nothing ever silently wraps.
    pub fn index(&self, x: u32, y: u32, channel: u8) -> (r: Option<usize>)
        ensures
            r is Some <==> (self.spec_in_bounds(x as int, y as int, channel as int)
                && self.spec_index(x as int, y as int, channel as int) <= usize::MAX),
            r matches Some(i) ==> i == self.spec_index(x as int, y as int, channel as int),
    {
        if !self.in_bounds(x, y, channel) {
            return None;
        }
        proof {
            assert((channel as int) * (self.channel_stride as int) >= 0) by (nonlinear_arith);
            assert((x as int) * (self.width_stride as int) >= 0) by (nonlinear_arith);
            assert((y as int) * (self.height_stride as int) >= 0) by (nonlinear_arith);
        }
        let idx_c = (channel as usize).checked_mul(self.channel_stride);
        let idx_x = (x as usize).checked_mul(self.width_stride);
        let idx_y = (y as usize).checked_mul(self.height_stride);
        match (idx_c, idx_x, idx_y) {
            (Some(ic), Some(ix), Some(iy)) => match ic.checked_add(ix) {
                Some(cx) => cx.checked_add(iy),
                None => None,
            },
            _ => None,
        }
    }

    /// Get the largest index of a sample in this image.
    ///
    /// Zero strides are allowed, for compact representations of monochrome
    /// images. The saturating subtraction keeps zero-sized extents from
    /// underflowing; for such degenerate geometries the saturated
    /// coordinate is itself out of bounds, so the result is `None`.
    pub fn max_index(&self) -> (r: Option<usize>)
        ensures
            r is Some <==> (!self.is_degenerate() && self.spec_max_index() <= usize::MAX),
            r matches Some(i) ==> i == self.spec_max_index(),
    {
        let x: u32 = self.width.saturating_sub(1);
        let y: u32 = self.height.saturating_sub(1);
        let c: u8 = self.channels.saturating_sub(1);
        self.index(x, y, c)
    }

    /// The three axes as (stride, count) pairs, ordered by ascending
    /// stride (ties broken by count).
    pub open spec fn spec_dims(self) -> ((usize, usize), (usize, usize), (usize, usize)) {
        sort3(
            (self.channel_stride, self.channels as usize),
            (self.width_stride, self.width as usize),
            (self.height_stride, self.height as usize),
        )
    }

    /// The aliasing analysis, at the specification level: order the axes by
    /// ascending stride; each axis's memory footprint (stride × count) must
    /// fit below the next larger stride, and no footprint may overflow
    /// `usize`. Any violation counts as aliasing.
    pub open spec fn spec_has_aliased_samples(self) -> bool {
        let (dmin, dmid, dmax) = self.spec_dims();
        ||| (dmin.0 as int) * (dmin.1 as int) > usize::MAX as int
        ||| (dmid.0 as int) * (dmid.1 as int) > usize::MAX as int
        ||| (dmax.0 as int) * (dmax.1 as int) > usize::MAX as int
        ||| (dmin.0 as int) * (dmin.1 as int) > dmid.0 as int
        ||| (dmid.0 as int) * (dmid.1 as int) > dmax.0 as int
    }

    /// If there are any samples aliasing each other.
    ///
    /// If this is not the case, it would always be safe to allow mutable
    /// access to two different samples at the same time. When one axis
    /// overflows `usize` with its stride, that is conservatively reported
    /// as aliasing too: the check favors false positives over false
    /// negatives.
    pub fn has_aliased_samples(&self) -> (r: bool)
        ensures
            r == self.spec_has_aliased_samples(),
    {
        let d0: (usize, usize) = (self.channel_stride, self.channels as usize);
        let d1: (usize, usize) = (self.width_stride, self.width as usize);
        let d2: (usize, usize) = (self.height_stride, self.height as usize);
        // Order the axes by strides, then check that each footprint is at
        // most the next stride.
        let (a, b): ((usize, usize), (usize, usize)) = if dim_le_exec(d0, d1) {
            (d0, d1)
        } else {
            (d1, d0)
        };
        let (b2, cmax): ((usize, usize), (usize, usize)) = if dim_le_exec(b, d2) {
            (b, d2)
        } else {
            (d2, b)
        };
        let (dmin, dmid): ((usize, usize), (usize, usize)) = if dim_le_exec(a, b2) {
            (a, b2)
        } else {
            (b2, a)
        };
        let min_size: usize = match dmin.0.checked_mul(dmin.1) {
            None => return true,
            Some(s) => s,
        };
        let mid_size: usize = match dmid.0.checked_mul(dmid.1) {
            None => return true,
            Some(s) => s,
        };
        if cmax.0.checked_mul(cmax.1).is_none() {
            // Only the absence of overflow matters for the largest axis.
            return true;
        }
        // Each higher axis must walk over all of one lower axis.
        min_size > dmid.0 || mid_size > cmax.0
    }

    /// Get an index provided the coordinate is in bounds and its index was
    /// proven representable — typically because a prior `max_index`
    /// computation succeeded. The computation then cannot overflow.
    pub fn in_bounds_index(&self, x: u32, y: u32, c: u8) -> (r: usize)
        requires
            self.spec_in_bounds(x as int, y as int, c as int),
            self.spec_index(x as int, y as int, c as int) <= usize::MAX,
        ensures
            r == self.spec_index(x as int, y as int, c as int),
    {
        proof {
            assert((c as int) * (self.channel_stride as int) >= 0) by (nonlinear_arith);
            assert((x as int) * (self.width_stride as int) >= 0) by (nonlinear_arith);
            assert((y as int) * (self.height_stride as int) >= 0) by (nonlinear_arith);
        }
        let (y_stride, x_stride, c_stride) = self.strides_hwc();
        (y as usize) * y_stride + (x as usize) * x_stride + (c as usize) * c_stride
    }
}

impl<T> FlatSamples<Vec<T>> {
    /// Get a reference based version: the same geometry over the same
    /// storage, borrowed as an immutable slice.
    pub fn as_ref(&self) -> (r: FlatSamples<&[T]>)
        ensures
            r.same_geometry(*self),
            r.samples@ == self.samples@,
    {
        FlatSamples {
            samples: self.samples.as_slice(),
            width_stride: self.width_stride,
            height_stride: self.height_stride,
            channel_stride: self.channel_stride,
            width: self.width,
            height: self.height,
            channels: self.channels,
        }
    }

    /// View the samples as a slice.
    pub fn as_slice(&self) -> (r: &[T])
        ensures
            r@ == self.samples@,
    {
        self.samples.as_slice()
    }
}

impl<'a, T> FlatSamples<&'a [T]> {
    /// Get a reference based version: a copy of this descriptor, aliasing
    /// the same storage.
    pub fn as_ref(&self) -> (r: FlatSamples<&'a [T]>)
        ensures
            r == *self,
    {
        FlatSamples {
            samples: self.samples,
            width_stride: self.width_stride,
            height_stride: self.height_stride,
            channel_stride: self.channel_stride,
            width: self.width,
            height: self.height,
            channels: self.channels,
        }
    }

    /// View the samples as a slice.
    pub fn as_slice(&self) -> (r: &'a [T])
        ensures
            r@ == self.samples@,
    {
        self.samples
    }
}

/// An in-bounds coordinate's index never exceeds the maximum reachable
/// index: every stride is non-negative, so the index grows monotonically
/// along each axis.
pub proof fn lemma_index_at_most_max<Buffer>(buf: FlatSamples<Buffer>, x: int, y: int, c: int)
    requires
        buf.spec_in_bounds(x, y, c),
    ensures
        0 <= buf.spec_index(x, y, c) <= buf.spec_max_index(),
{
    let ws = buf.width_stride as int;
    let hs = buf.height_stride as int;
    let cs = buf.channel_stride as int;
    assert(0 <= x * ws && x * ws <= (buf.width as int - 1) * ws) by (nonlinear_arith)
        requires
            0 <= x <= buf.width as int - 1,
            ws >= 0,
    ;
    assert(0 <= y * hs && y * hs <= (buf.height as int - 1) * hs) by (nonlinear_arith)
        requires
            0 <= y <= buf.height as int - 1,
            hs >= 0,
    ;
    assert(0 <= c * cs && c * cs <= (buf.channels as int - 1) * cs) by (nonlinear_arith)
        requires
            0 <= c <= buf.channels as int - 1,
            cs >= 0,
    ;
}

/// A position inside an axis occupies at least 0 and at most `cap - s`
/// when the axis's whole footprint `s * n` fits below `cap`.
proof fn lemma_point_product_bounded(s: int, n: int, i: int, cap: int)
    requires
        0 <= s,
        0 <= i < n,
        s * n <= cap,
    ensures
        0 <= i * s,
        i * s <= cap - s,
{
    assert(0 <= i * s) by (nonlinear_arith)
        requires
            0 <= i,
            0 <= s,
    ;
    assert(i * s <= s * n - s) by (nonlinear_arith)
        requires
            i <= n - 1,
            0 <= s,
    ;
}

/// Along the largest stride, two positions that are part of equal sums
/// must agree: the two smaller axes together cannot span one step of the
/// largest one.
proof fn lemma_top_axis_agrees(
    s1: int,
    n1: int,
    s2: int,
    n2: int,
    s3: int,
    n3: int,
    i1: int,
    j1: int,
    k1: int,
    i2: int,
    j2: int,
    k2: int,
)
    requires
        0 <= s1 <= s2 <= s3,
        s1 >= 1 || n1 <= 1,
        s2 >= 1 || n2 <= 1,
        s3 >= 1 || n3 <= 1,
        s1 * n1 <= s2,
        s2 * n2 <= s3,
        0 <= i1 < n1,
        0 <= j1 < n2,
        0 <= k1 < n3,
        0 <= i2 < n1,
        0 <= j2 < n2,
        0 <= k2 < n3,
        i1 * s1 + j1 * s2 + k1 * s3 == i2 * s1 + j2 * s2 + k2 * s3,
    ensures
        k1 == k2,
{
    lemma_point_product_bounded(s1, n1, i1, s2);
    lemma_point_product_bounded(s1, n1, i2, s2);
    lemma_point_product_bounded(s2, n2, j1, s3);
    lemma_point_product_bounded(s2, n2, j2, s3);
    if k1 != k2 {
        if k1 > k2 {
            assert(k1 * s3 - k2 * s3 >= s3) by (nonlinear_arith)
                requires
                    k1 >= k2 + 1,
                    s3 >= 0,
            ;
        } else {
            assert(k2 * s3 - k1 * s3 >= s3) by (nonlinear_arith)
                requires
                    k2 >= k1 + 1,
                    s3 >= 0,
            ;
        }
        // The difference along the two smaller axes is at most s3 - s1,
        // yet it must cover a whole step s3 of the largest axis.
        assert(s1 == 0);
        assert(i1 * s1 == 0 && i2 * s1 == 0) by (nonlinear_arith)
            requires
                s1 == 0,
        ;
        assert(s2 == 0);
        assert(j1 * s2 == 0 && j2 * s2 == 0) by (nonlinear_arith)
            requires
                s2 == 0,
        ;
        assert(s3 == 0);
        assert(k1 * s3 == 0 && k2 * s3 == 0) by (nonlinear_arith)
            requires
                s3 == 0,
        ;
        // With every stride zero, each axis may hold one position at most.
        assert(false);
    }
}

/// The two-axis analogue of `lemma_top_axis_agrees`.
proof fn lemma_mid_axis_agrees(
    s1: int,
    n1: int,
    s2: int,
    n2: int,
    i1: int,
    j1: int,
    i2: int,
    j2: int,
)
    requires
        0 <= s1 <= s2,
        s1 >= 1 || n1 <= 1,
        s2 >= 1 || n2 <= 1,
        s1 * n1 <= s2,
        0 <= i1 < n1,
        0 <= j1 < n2,
        0 <= i2 < n1,
        0 <= j2 < n2,
        i1 * s1 + j1 * s2 == i2 * s1 + j2 * s2,
    ensures
        j1 == j2,
        i1 == i2,
{
    lemma_point_product_bounded(s1, n1, i1, s2);
    lemma_point_product_bounded(s1, n1, i2, s2);
    if j1 != j2 {
        if j1 > j2 {
            assert(j1 * s2 - j2 * s2 >= s2) by (nonlinear_arith)
                requires
                    j1 >= j2 + 1,
                    s2 >= 0,
            ;
        } else {
            assert(j2 * s2 - j1 * s2 >= s2) by (nonlinear_arith)
                requires
                    j2 >= j1 + 1,
                    s2 >= 0,
            ;
        }
        assert(s1 == 0);
        assert(i1 * s1 == 0 && i2 * s1 == 0) by (nonlinear_arith)
            requires
                s1 == 0,
        ;
        assert(s2 == 0);
        assert(j1 * s2 == 0 && j2 * s2 == 0) by (nonlinear_arith)
            requires
                s2 == 0,
        ;
        assert(false);
    }
    if i1 != i2 {
        // Two distinct positions force a positive stride on this axis.
        assert(s1 >= 1);
        if i1 > i2 {
            assert(i1 * s1 - i2 * s1 >= s1) by (nonlinear_arith)
                requires
                    i1 >= i2 + 1,
                    s1 >= 0,
            ;
        } else {
            assert(i2 * s1 - i1 * s1 >= s1) by (nonlinear_arith)
                requires
                    i2 >= i1 + 1,
                    s1 >= 0,
            ;
        }
        assert(false);
    }
}

/// A layout that the aliasing analysis clears maps distinct in-bounds
/// coordinates to distinct linear indices, provided no axis repeats a
/// position with stride zero (an axis with stride zero must hold at most
/// one position).
pub proof fn lemma_unaliased_implies_injective<Buffer>(
    buf: FlatSamples<Buffer>,
    x1: int,
    y1: int,
    c1: int,
    x2: int,
    y2: int,
    c2: int,
)
    requires
        !buf.spec_has_aliased_samples(),
        buf.channel_stride >= 1 || buf.channels <= 1,
        buf.width_stride >= 1 || buf.width <= 1,
        buf.height_stride >= 1 || buf.height <= 1,
        buf.spec_in_bounds(x1, y1, c1),
        buf.spec_in_bounds(x2, y2, c2),
        !(x1 == x2 && y1 == y2 && c1 == c2),
    ensures
        buf.spec_index(x1, y1, c1) != buf.spec_index(x2, y2, c2),
{
    let dc = (buf.channel_stride, buf.channels as usize);
    let dw = (buf.width_stride, buf.width as usize);
    let dh = (buf.height_stride, buf.height as usize);
    let (dmin, dmid, dmax) = buf.spec_dims();
    assert(dim_le(dmin, dmid) && dim_le(dmid, dmax));
    assert({
        ||| (dmin == dc && dmid == dw && dmax == dh)
        ||| (dmin == dc && dmid == dh && dmax == dw)
        ||| (dmin == dw && dmid == dc && dmax == dh)
        ||| (dmin == dw && dmid == dh && dmax == dc)
        ||| (dmin == dh && dmid == dc && dmax == dw)
        ||| (dmin == dh && dmid == dw && dmax == dc)
    });
    if buf.spec_index(x1, y1, c1) == buf.spec_index(x2, y2, c2) {
        let s1 = dmin.0 as int;
        let n1 = dmin.1 as int;
        let s2 = dmid.0 as int;
        let n2 = dmid.1 as int;
        let s3 = dmax.0 as int;
        let n3 = dmax.1 as int;
        if dmin == dc && dmid == dw && dmax == dh {
            lemma_top_axis_agrees(s1, n1, s2, n2, s3, n3, c1, x1, y1, c2, x2, y2);
            lemma_mid_axis_agrees(s1, n1, s2, n2, c1, x1, c2, x2);
        } else if dmin == dc && dmid == dh && dmax == dw {
            lemma_top_axis_agrees(s1, n1, s2, n2, s3, n3, c1, y1, x1, c2, y2, x2);
            lemma_mid_axis_agrees(s1, n1, s2, n2, c1, y1, c2, y2);
        } else if dmin == dw && dmid == dc && dmax == dh {
            lemma_top_axis_agrees(s1, n1, s2, n2, s3, n3, x1, c1, y1, x2, c2, y2);
            lemma_mid_axis_agrees(s1, n1, s2, n2, x1, c1, x2, c2);
        } else if dmin == dw && dmid == dh && dmax == dc {
            lemma_top_axis_agrees(s1, n1, s2, n2, s3, n3, x1, y1, c1, x2, y2, c2);
            lemma_mid_axis_agrees(s1, n1, s2, n2, x1, y1, x2, y2);
        } else if dmin == dh && dmid == dc && dmax == dw {
            lemma_top_axis_agrees(s1, n1, s2, n2, s3, n3, y1, c1, x1, y2, c2, x2);
            lemma_mid_axis_agrees(s1, n1, s2, n2, y1, c1, y2, c2);
        } else {
            lemma_top_axis_agrees(s1, n1, s2, n2, s3, n3, y1, x1, c1, y2, x2, c2);
            lemma_mid_axis_agrees(s1, n1, s2, n2, y1, x1, y2, x2);
        }
        assert(false);
    }
}

/// Whenever two distinct in-bounds coordinates resolve to the same linear
/// index, the aliasing analysis reports aliasing — it has no false
/// negatives, provided no axis repeats a position with stride zero.
pub proof fn lemma_collision_implies_aliased<Buffer>(
    buf: FlatSamples<Buffer>,
    x1: int,
    y1: int,
    c1: int,
    x2: int,
    y2: int,
    c2: int,
)
    requires
        buf.channel_stride >= 1 || buf.channels <= 1,
        buf.width_stride >= 1 || buf.width <= 1,
        buf.height_stride >= 1 || buf.height <= 1,
        buf.spec_in_bounds(x1, y1, c1),
        buf.spec_in_bounds(x2, y2, c2),
        !(x1 == x2 && y1 == y2 && c1 == c2),
        buf.spec_index(x1, y1, c1) == buf.spec_index(x2, y2, c2),
    ensures
        buf.spec_has_aliased_samples(),
{
    if !buf.spec_has_aliased_samples() {
        lemma_unaliased_implies_injective(buf, x1, y1, c1, x2, y2, c2);
    }
}

} // verus!

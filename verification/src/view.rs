//! Validated image views over a strided sample buffer.
//!
//! A [`View`] or [`ViewMut`] is constructed only after the geometry of a
//! [`FlatSamples`] descriptor has been proven safe for the backing
//! storage: sufficient length for every reachable index, a channel count
//! matching the pixel type's arity, and — for mutable access — the absence
//! of aliasing and contiguous pixel samples. Once constructed, every pixel
//! access within the declared width and height is in bounds by proof, with
//! no runtime re-checking.

use core::marker::PhantomData;

use vstd::prelude::*;
use vstd::pervasive::VecAdditionalExecFns;
use vstd::view::View as _;

use crate::flat::FlatSamples;
use crate::flat::lemma_index_at_most_max;
use crate::flat::lemma_unaliased_implies_injective;
use crate::pixel::Pixel;

verus! {

/// Denotes invalid flat sample buffers when trying to convert to stricter
/// types.
#[derive(Clone, Copy, Debug, PartialEq, Eq, Hash)]
pub enum Error {
    /// The represented image was too large: the backing storage cannot
    /// hold every reachable sample index.
    TooLarge,
    /// The represented image can not use this representation: the named
    /// normal form would be required.
    NormalFormRequired(NormalForm),
    /// The color format did not match the channel count.
    WrongColor,
}

/// Different normal forms of buffers: ascending degrees of layout
/// regularity, each stricter form implying all looser ones.
#[derive(Clone, Copy, Debug, PartialEq, Eq, Hash)]
pub enum NormalForm {
    /// No further constraints than no sample aliasing another.
    Unaliased,
    /// At least the samples of each pixel are packed (channel stride one).
    PixelPacked,
    /// The samples are in row-major form and all samples are packed.
    RowMajorPacked,
}

/// Whether storage of length `len` suffices for every index the geometry
/// can reach: either no coordinate is in bounds at all, or the maximum
/// reachable index is representable and lies inside the storage.
pub open spec fn len_sufficient<Buffer>(l: FlatSamples<Buffer>, len: int) -> bool {
    l.is_degenerate() || (l.spec_max_index() <= usize::MAX as int && l.spec_max_index() < len)
}

/// A degenerate geometry — width, height, or channel count zero — reaches
/// no sample at all, so storage of any length suffices for it and view
/// construction is vacuously valid: only a channel-arity mismatch can
/// still reject the buffer.
pub proof fn lemma_degenerate_needs_no_storage<Buffer>(l: FlatSamples<Buffer>, len: int)
    requires
        l.is_degenerate(),
    ensures
        len_sufficient(l, len),
{
}

/// A flat buffer usable as a read-only image view.
///
/// A nearly trivial wrapper around a descriptor, sanitized by checking the
/// buffer length and constraining the pixel type at construction.
#[derive(Debug)]
pub struct View<'a, T, P> {
    inner: FlatSamples<&'a [T]>,
    pixel_type: PhantomData<P>,
}

/// A flat buffer usable as a mutable image.
///
/// Holds the descriptor — and with it exclusive access to the backing
/// storage — for its whole lifetime; `into_inner` hands the storage back.
#[derive(Debug)]
pub struct ViewMut<T, P> {
    inner: FlatSamples<Vec<T>>,
    pixel_type: PhantomData<P>,
}

impl<'a, T: Copy> FlatSamples<&'a [T]> {
    /// View this buffer as an image over some type of pixels.
    ///
    /// Validates, in order: the storage's length must exceed the maximum
    /// reachable index (a degenerate geometry reaches nothing and passes
    /// vacuously; an unrepresentable maximum fails unconditionally), and
    /// the declared channel count must equal the pixel type's arity.
    pub fn as_view<P: Pixel<T>>(&self) -> (r: Result<View<'a, T, P>, Error>)
        ensures
            r matches Ok(v) ==> (v.layout() == *self && v.wf() && len_sufficient(
                *self,
                self.samples@.len() as int,
            ) && self.channels == P::spec_channels()),
            r matches Err(e) ==> ((e == Error::TooLarge && !len_sufficient(
                *self,
                self.samples@.len() as int,
            )) || (e == Error::WrongColor && len_sufficient(*self, self.samples@.len() as int)
                && self.channels != P::spec_channels())),
    {
        let len: usize = self.samples.len();
        let degenerate: bool = self.width == 0 || self.height == 0 || self.channels == 0;
        if !degenerate {
            match self.max_index() {
                None => return Err(Error::TooLarge),
                Some(m) => {
                    if len <= m {
                        return Err(Error::TooLarge);
                    }
                },
            }
        }
        if self.channels != P::channel_count() {
            return Err(Error::WrongColor);
        }
        Ok(
            View {
                inner: FlatSamples {
                    samples: self.samples,
                    width_stride: self.width_stride,
                    height_stride: self.height_stride,
                    channel_stride: self.channel_stride,
                    width: self.width,
                    height: self.height,
                    channels: self.channels,
                },
                pixel_type: PhantomData,
            },
        )
    }
}

impl<T: Copy> FlatSamples<Vec<T>> {
    /// Interpret this buffer as a mutable image.
    ///
    /// To succeed, the samples in this buffer may not alias each other,
    /// the samples of each pixel must be packed (channel stride one), the
    /// storage must hold every reachable index, and the channel count must
    /// equal the pixel type's arity — validated strictly in that order.
    /// The order matters: pixel packing alone does not rule out aliasing
    /// across rows or columns, so aliasing is excluded first.
    ///
    /// On failure the descriptor is handed back unchanged beside the
    /// error, so the caller may adjust the strides and retry.
    pub fn as_view_mut<P: Pixel<T>>(self) -> (r: Result<
        ViewMut<T, P>,
        (FlatSamples<Vec<T>>, Error),
    >)
        ensures
            r matches Ok(v) ==> (v.layout() == self && v.wf() && !self.spec_has_aliased_samples()
                && self.channel_stride == 1 && len_sufficient(self, self.samples@.len() as int)
                && self.channels == P::spec_channels()),
            r matches Err(p) ==> p.0 == self,
            r matches Err(p) ==> (
            (p.1 == Error::NormalFormRequired(NormalForm::Unaliased)
                && self.spec_has_aliased_samples()) || (p.1 == Error::NormalFormRequired(
                NormalForm::PixelPacked,
            ) && !self.spec_has_aliased_samples() && self.channel_stride != 1) || (p.1
                == Error::TooLarge && !self.spec_has_aliased_samples() && self.channel_stride == 1
                && !len_sufficient(self, self.samples@.len() as int)) || (p.1 == Error::WrongColor
                && !self.spec_has_aliased_samples() && self.channel_stride == 1 && len_sufficient(
                self,
                self.samples@.len() as int,
            ) && self.channels != P::spec_channels())),
    {
        if self.has_aliased_samples() {
            return Err((self, Error::NormalFormRequired(NormalForm::Unaliased)));
        }
        if self.channel_stride != 1 {
            return Err((self, Error::NormalFormRequired(NormalForm::PixelPacked)));
        }
        let len: usize = self.samples.len();
        let degenerate: bool = self.width == 0 || self.height == 0 || self.channels == 0;
        if !degenerate {
            match self.max_index() {
                None => return Err((self, Error::TooLarge)),
                Some(m) => {
                    if len <= m {
                        return Err((self, Error::TooLarge));
                    }
                },
            }
        }
        if self.channels != P::channel_count() {
            return Err((self, Error::WrongColor));
        }
        Ok(ViewMut { inner: self, pixel_type: PhantomData })
    }
}

impl<'a, T: Copy, P: Pixel<T>> View<'a, T, P> {
    /// The descriptor this view was validated from.
    pub closed spec fn layout(self) -> FlatSamples<&'a [T]> {
        self.inner
    }

    /// The construction-time guarantees: matching channel arity, and
    /// storage long enough for every reachable index.
    pub open spec fn wf(self) -> bool {
        &&& self.layout().channels == P::spec_channels()
        &&& len_sufficient(self.layout(), self.layout().samples@.len() as int)
    }

    /// The pixel at `(x, y)`: one sample per channel, gathered from the
    /// backing storage at the resolved indices.
    pub open spec fn spec_pixel(self, x: int, y: int) -> P {
        P::spec_from(
            Seq::new(
                P::spec_channels() as nat,
                |c: int| self.layout().samples@[self.layout().spec_index(x, y, c)],
            ),
        )
    }

    /// Get the width and height of this view.
    pub fn dimensions(&self) -> (r: (u32, u32))
        ensures
            r == (self.layout().width, self.layout().height),
    {
        (self.inner.width, self.inner.height)
    }

    /// The bounding rectangle of this view.
    pub fn bounds(&self) -> (r: (u32, u32, u32, u32))
        ensures
            r == (0u32, self.layout().width, 0u32, self.layout().height),
    {
        (0, self.inner.width, 0, self.inner.height)
    }

    /// Whether the pixel coordinate lies inside the declared dimensions.
    pub fn in_bounds(&self, x: u32, y: u32) -> (r: bool)
        ensures
            r == (x < self.layout().width && y < self.layout().height),
    {
        x < self.inner.width && y < self.inner.height
    }

    /// Read the pixel at `(x, y)`. The coordinate must lie inside the
    /// declared dimensions: the dimensions are authoritative, so indexing
    /// outside them is a contract violation, not a data condition.
    pub fn get_pixel(&self, x: u32, y: u32) -> (r: P)
        requires
            self.wf(),
            x < self.layout().width,
            y < self.layout().height,
        ensures
            r == self.spec_pixel(x as int, y as int),
    {
        let n: u8 = P::channel_count();
        let mut scratch: Vec<T> = Vec::new();
        let mut c: u8 = 0;
        while c < n
            invariant
                self.wf(),
                x < self.layout().width,
                y < self.layout().height,
                n == P::spec_channels(),
                c <= n,
                scratch@.len() == c as int,
                forall|k: int|
                    0 <= k < c as int ==> scratch@[k] == self.layout().samples@[self.layout().spec_index(
                        x as int,
                        y as int,
                        k,
                    )],
            decreases n as int - c as int,
        {
            proof {
                lemma_index_at_most_max(self.layout(), x as int, y as int, c as int);
            }
            let idx: usize = self.inner.in_bounds_index(x, y, c);
            scratch.push(self.inner.samples[idx]);
            c = c + 1;
        }
        proof {
            assert(scratch@ =~= Seq::new(
                P::spec_channels() as nat,
                |k: int| self.layout().samples@[self.layout().spec_index(x as int, y as int, k)],
            ));
        }
        P::from_samples(scratch.as_slice())
    }

    /// This view is its own innermost view; nothing is proxied.
    pub fn inner(&self) -> (r: &Self)
        ensures
            r == self,
    {
        self
    }
}

impl<T: Copy, P: Pixel<T>> ViewMut<T, P> {
    /// The descriptor this view was validated from.
    pub closed spec fn layout(self) -> FlatSamples<Vec<T>> {
        self.inner
    }

    /// The construction-time guarantees: matching channel arity, packed
    /// pixel samples, no aliasing, and storage long enough for every
    /// reachable index.
    pub open spec fn wf(self) -> bool {
        &&& self.layout().channels == P::spec_channels()
        &&& self.layout().channel_stride == 1
        &&& !self.layout().spec_has_aliased_samples()
        &&& len_sufficient(self.layout(), self.layout().samples@.len() as int)
    }

    /// The pixel at `(x, y)`: one sample per channel, gathered from the
    /// backing storage at the resolved indices.
    pub open spec fn spec_pixel(self, x: int, y: int) -> P {
        P::spec_from(
            Seq::new(
                P::spec_channels() as nat,
                |c: int| self.layout().samples@[self.layout().spec_index(x, y, c)],
            ),
        )
    }

    /// Get the width and height of this view.
    pub fn dimensions(&self) -> (r: (u32, u32))
        ensures
            r == (self.layout().width, self.layout().height),
    {
        (self.inner.width, self.inner.height)
    }

    /// The bounding rectangle of this view.
    pub fn bounds(&self) -> (r: (u32, u32, u32, u32))
        ensures
            r == (0u32, self.layout().width, 0u32, self.layout().height),
    {
        (0, self.inner.width, 0, self.inner.height)
    }

    /// Whether the pixel coordinate lies inside the declared dimensions.
    pub fn in_bounds(&self, x: u32, y: u32) -> (r: bool)
        ensures
            r == (x < self.layout().width && y < self.layout().height),
    {
        x < self.inner.width && y < self.inner.height
    }

    /// Read the pixel at `(x, y)`. The coordinate must lie inside the
    /// declared dimensions.
    pub fn get_pixel(&self, x: u32, y: u32) -> (r: P)
        requires
            self.wf(),
            x < self.layout().width,
            y < self.layout().height,
        ensures
            r == self.spec_pixel(x as int, y as int),
    {
        let n: u8 = P::channel_count();
        let mut scratch: Vec<T> = Vec::new();
        let mut c: u8 = 0;
        while c < n
            invariant
                self.wf(),
                x < self.layout().width,
                y < self.layout().height,
                n == P::spec_channels(),
                c <= n,
                scratch@.len() == c as int,
                forall|k: int|
                    0 <= k < c as int ==> scratch@[k] == self.layout().samples@[self.layout().spec_index(
                        x as int,
                        y as int,
                        k,
                    )],
            decreases n as int - c as int,
        {
            proof {
                lemma_index_at_most_max(self.layout(), x as int, y as int, c as int);
            }
            let idx: usize = self.inner.in_bounds_index(x, y, c);
            scratch.push(self.inner.samples[idx]);
            c = c + 1;
        }
        proof {
            assert(scratch@ =~= Seq::new(
                P::spec_channels() as nat,
                |k: int| self.layout().samples@[self.layout().spec_index(x as int, y as int, k)],
            ));
        }
        P::from_samples(scratch.as_slice())
    }

    /// Overwrite the pixel at `(x, y)` wholesale: its samples lie
    /// contiguously at the coordinate's base index, and nothing else in
    /// the storage changes.
    pub fn put_pixel(&mut self, x: u32, y: u32, pixel: P)
        requires
            old(self).wf(),
            x < old(self).layout().width,
            y < old(self).layout().height,
        ensures
            final(self).wf(),
            final(self).layout().same_geometry(old(self).layout()),
            final(self).layout().samples@.len() == old(self).layout().samples@.len(),
            forall|i: int|
                0 <= i < old(self).layout().samples@.len() ==> final(self).layout().samples@[i]
                    == (if old(self).layout().spec_index(x as int, y as int, 0) <= i < old(
                    self,
                ).layout().spec_index(x as int, y as int, 0) + P::spec_channels() as int {
                    pixel.spec_samples()[i - old(self).layout().spec_index(x as int, y as int, 0)]
                } else {
                    old(self).layout().samples@[i]
                }),
    {
        let n: u8 = P::channel_count();
        if n == 0 {
            return ;
        }
        // From here on the pixel has at least one channel, so the base
        // coordinate (x, y, 0) is in bounds and its index representable.
        let samples_in: Vec<T> = pixel.to_samples();
        proof {
            lemma_index_at_most_max(
                old(self).layout(),
                x as int,
                y as int,
                P::spec_channels() as int - 1,
            );
        }
        let base: usize = self.inner.in_bounds_index(x, y, 0);
        let len: usize = self.inner.samples.len();
        let mut c: usize = 0;
        while c < n as usize
            invariant
                n == P::spec_channels(),
                n > 0,
                c <= n as int,
                samples_in@ == pixel.spec_samples(),
                samples_in@.len() == n as int,
                old(self).wf(),
                x < old(self).layout().width,
                y < old(self).layout().height,
                base == old(self).layout().spec_index(x as int, y as int, 0),
                len == old(self).layout().samples@.len(),
                base + n <= len,
                self.layout().same_geometry(old(self).layout()),
                self.layout().samples@.len() == old(self).layout().samples@.len(),
                forall|i: int|
                    0 <= i < old(self).layout().samples@.len() ==> self.layout().samples@[i] == (
                    if base <= i < base + c {
                        pixel.spec_samples()[i - base]
                    } else {
                        old(self).layout().samples@[i]
                    }),
            decreases n as int - c,
        {
            let v: T = samples_in[c];
            self.inner.samples.set(base + c, v);
            c = c + 1;
        }
    }

    /// Blend `pixel` into the pixel at `(x, y)`, under the pixel type's
    /// own blending policy, and store the result.
    pub fn blend_pixel(&mut self, x: u32, y: u32, pixel: P)
        requires
            old(self).wf(),
            x < old(self).layout().width,
            y < old(self).layout().height,
        ensures
            final(self).wf(),
            final(self).layout().same_geometry(old(self).layout()),
            final(self).layout().samples@.len() == old(self).layout().samples@.len(),
            forall|i: int|
                0 <= i < old(self).layout().samples@.len() ==> final(self).layout().samples@[i]
                    == (if old(self).layout().spec_index(x as int, y as int, 0) <= i < old(
                    self,
                ).layout().spec_index(x as int, y as int, 0) + P::spec_channels() as int {
                    P::spec_blend(
                        old(self).spec_pixel(x as int, y as int),
                        pixel,
                    ).spec_samples()[i - old(self).layout().spec_index(x as int, y as int, 0)]
                } else {
                    old(self).layout().samples@[i]
                }),
    {
        let mut current: P = self.get_pixel(x, y);
        current.blend(&pixel);
        self.put_pixel(x, y, current);
    }

    /// This view is its own innermost image; nothing is proxied.
    pub fn inner(&self) -> (r: &Self)
        ensures
            r == self,
    {
        self
    }

    /// Give the descriptor — and with it the backing storage — back to
    /// the caller, unchanged but for the pixels written through this view.
    pub fn into_inner(self) -> (r: FlatSamples<Vec<T>>)
        ensures
            r == self.layout(),
    {
        self.inner
    }
}

/// Exclusive pixel access through a well-formed mutable view is sound:
/// distinct in-bounds coordinates of such a view resolve to distinct
/// sample indices, so no two logical pixel slots overlap. The channel
/// axis is packed by construction; the width and height axes must not
/// repeat a position with stride zero.
pub proof fn lemma_view_mut_samples_distinct<T: Copy, P: Pixel<T>>(
    v: ViewMut<T, P>,
    x1: int,
    y1: int,
    c1: int,
    x2: int,
    y2: int,
    c2: int,
)
    requires
        v.wf(),
        v.layout().width_stride >= 1 || v.layout().width <= 1,
        v.layout().height_stride >= 1 || v.layout().height <= 1,
        v.layout().spec_in_bounds(x1, y1, c1),
        v.layout().spec_in_bounds(x2, y2, c2),
        !(x1 == x2 && y1 == y2 && c1 == c2),
    ensures
        v.layout().spec_index(x1, y1, c1) != v.layout().spec_index(x2, y2, c2),
{
    lemma_unaliased_implies_injective(v.layout(), x1, y1, c1, x2, y2, c2);
}

} // verus!

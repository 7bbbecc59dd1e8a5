//! The pixel capability consumed by the validated views.
//!
//! A pixel type reports its channel arity, can be built from a slice of
//! samples, hands its samples back out, and supports blending one value
//! into another. The trait is a compile-time polymorphism point: the views
//! in [`crate::view`] are generic over it, and each implementation fixes
//! the arity and the blending policy. Two small sample types are provided,
//! generic over the scalar sample type.

use vstd::prelude::*;

verus! {

/// A fixed-arity group of samples of type `T`, one per channel,
/// representing one image location's color.
pub trait Pixel<T>: Sized + Copy {
    /// The channel arity of this pixel type.
    spec fn spec_channels() -> u8;

    /// The pixel value built from one sample per channel.
    spec fn spec_from(s: Seq<T>) -> Self;

    /// The samples of this pixel value, channel by channel.
    spec fn spec_samples(self) -> Seq<T>;

    /// The result of blending `b` into `a`.
    spec fn spec_blend(a: Self, b: Self) -> Self;

    /// The channel arity of this pixel type.
    fn channel_count() -> (n: u8)
        ensures
            n == Self::spec_channels(),
    ;

    /// Build a pixel value from a slice holding one sample per channel.
    fn from_samples(s: &[T]) -> (p: Self)
        requires
            s@.len() == Self::spec_channels() as int,
        ensures
            p == Self::spec_from(s@),
    ;

    /// The samples of this pixel value, one per channel.
    fn to_samples(self) -> (s: Vec<T>)
        ensures
            s@ == self.spec_samples(),
            s@.len() == Self::spec_channels() as int,
    ;

    /// Blend `other` into this pixel value.
    fn blend(&mut self, other: &Self)
        ensures
            *final(self) == Self::spec_blend(*old(self), *other),
    ;
}

/// A three-channel color pixel over samples of type `T`.
#[derive(Clone, Copy, Debug, PartialEq, Eq)]
pub struct Rgb<T>(pub T, pub T, pub T);

impl<T: Copy> Pixel<T> for Rgb<T> {
    open spec fn spec_channels() -> u8 {
        3
    }

    open spec fn spec_from(s: Seq<T>) -> Self {
        Rgb(s[0], s[1], s[2])
    }

    open spec fn spec_samples(self) -> Seq<T> {
        seq![self.0, self.1, self.2]
    }

    /// Without an alpha channel, the incoming value replaces the old one.
    open spec fn spec_blend(a: Self, b: Self) -> Self {
        b
    }

    fn channel_count() -> u8 {
        3
    }

    fn from_samples(s: &[T]) -> Self {
        Rgb(s[0], s[1], s[2])
    }

    fn to_samples(self) -> (s: Vec<T>)
        ensures
            s@ == self.spec_samples(),
            s@.len() == Self::spec_channels() as int,
    {
        let mut v: Vec<T> = Vec::new();
        v.push(self.0);
        v.push(self.1);
        v.push(self.2);
        proof {
            assert(v@ =~= self.spec_samples());
        }
        v
    }

    fn blend(&mut self, other: &Self) {
        *self = *other;
    }
}

/// A two-channel luminance-with-alpha pixel over samples of type `T`.
#[derive(Clone, Copy, Debug, PartialEq, Eq)]
pub struct LumaA<T>(pub T, pub T);

impl<T: Copy> Pixel<T> for LumaA<T> {
    open spec fn spec_channels() -> u8 {
        2
    }

    open spec fn spec_from(s: Seq<T>) -> Self {
        LumaA(s[0], s[1])
    }

    open spec fn spec_samples(self) -> Seq<T> {
        seq![self.0, self.1]
    }

    /// The generic scalar type carries no arithmetic, so the incoming
    /// value replaces the old one.
    open spec fn spec_blend(a: Self, b: Self) -> Self {
        b
    }

    fn channel_count() -> u8 {
        2
    }

    fn from_samples(s: &[T]) -> Self {
        LumaA(s[0], s[1])
    }

    fn to_samples(self) -> (s: Vec<T>)
        ensures
            s@ == self.spec_samples(),
            s@.len() == Self::spec_channels() as int,
    {
        let mut v: Vec<T> = Vec::new();
        v.push(self.0);
        v.push(self.1);
        proof {
            assert(v@ =~= self.spec_samples());
        }
        v
    }

    fn blend(&mut self, other: &Self) {
        *self = *other;
    }
}

} // verus!

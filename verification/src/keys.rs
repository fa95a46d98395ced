//! Cache keys, in owned and borrowed form.
//!
//! Looking a resource up must be possible from a borrowed view of the key's
//! fields (for glyph runs: a coordinate slice) without allocating the owned
//! key; the owned key is only built when an entry is actually inserted. The
//! two forms must agree on equality, which is captured here by giving every
//! key an abstract value: two keys are equal exactly when their abstract
//! values are.

use vstd::prelude::*;

verus! {

/// An owned cache key: a value that can be stored in a cache slot and
/// compared against other keys of the same type.
///
/// `Abs` is the abstract key space; `abs` maps a key into it. Equality of
/// abstract values is the single notion of key equality that both owned and
/// borrowed lookups use.
pub trait CacheKey: Sized {
    /// The abstract value this key denotes.
    type Abs;

    /// The abstract value of this key.
    spec fn abs(&self) -> Self::Abs;

    /// Equality of owned keys, agreeing with equality of abstract values.
    fn key_eq(&self, other: &Self) -> (r: bool)
        ensures
            r <==> self.abs() == other.abs(),
    ;
}

/// A lookup probe for a cache keyed by `K`: any representation (borrowed or
/// owned) that denotes a point of `K`'s abstract key space and can be
/// compared against a stored key.
pub trait Equivalent<K: CacheKey> {
    /// The abstract key value this probe denotes.
    spec fn probe_abs(&self) -> K::Abs;

    /// Whether this probe denotes the same abstract key as `key`.
    fn equivalent(&self, key: &K) -> (r: bool)
        ensures
            r <==> self.probe_abs() == key.abs(),
    ;
}

/// Every owned key is its own probe, so a cache can be searched with an
/// owned key as well as with a borrowed one.
impl<K: CacheKey> Equivalent<K> for K {
    open spec fn probe_abs(&self) -> K::Abs {
        self.abs()
    }

    fn equivalent(&self, key: &K) -> (r: bool) {
        self.key_eq(key)
    }
}

/// Compares two coordinate slices element by element.
fn coords_eq(a: &[i16], b: &[i16]) -> (r: bool)
    ensures
        r <==> a@ == b@,
{
    if a.len() != b.len() {
        assert(a@.len() != b@.len());
        return false;
    }
    let n = a.len();
    let mut i: usize = 0;
    while i < n
        invariant
            n == a@.len() == b@.len(),
            0 <= i <= n,
            forall|j: int| 0 <= j < i ==> a@[j] == b@[j],
        decreases n - i,
    {
        if a[i] != b[i] {
            return false;
        }
        i += 1;
    }
    assert(a@ =~= b@);
    true
}

/// Identifies a typeface: the identity of the raw font data together with
/// the index of the face within a font collection.
pub struct TypefaceCacheKey {
    pub typeface_id: u64,
    pub typeface_index: u32,
}

impl CacheKey for TypefaceCacheKey {
    type Abs = (u64, u32);

    open spec fn abs(&self) -> (u64, u32) {
        (self.typeface_id, self.typeface_index)
    }

    fn key_eq(&self, other: &Self) -> (r: bool) {
        self.typeface_id == other.typeface_id && self.typeface_index == other.typeface_index
    }
}

/// Identifies a typeface instantiated at a point of its variable-font
/// design space, given by normalized coordinates.
pub struct NormalizedTypefaceCacheKey {
    pub typeface_id: u64,
    pub typeface_index: u32,
    pub normalized_coords: Vec<i16>,
}

impl CacheKey for NormalizedTypefaceCacheKey {
    type Abs = (u64, u32, Seq<i16>);

    open spec fn abs(&self) -> (u64, u32, Seq<i16>) {
        (self.typeface_id, self.typeface_index, self.normalized_coords@)
    }

    fn key_eq(&self, other: &Self) -> (r: bool) {
        self.typeface_id == other.typeface_id && self.typeface_index == other.typeface_index
            && coords_eq(self.normalized_coords.as_slice(), other.normalized_coords.as_slice())
    }
}

/// Borrowed form of [`NormalizedTypefaceCacheKey`]: the coordinate slice is
/// borrowed from the caller, so probing the cache allocates nothing.
pub struct NormalizedTypefaceCacheKeyBorrowed<'a> {
    pub typeface_id: u64,
    pub typeface_index: u32,
    pub normalized_coords: &'a [i16],
}

impl<'a> Equivalent<NormalizedTypefaceCacheKey> for NormalizedTypefaceCacheKeyBorrowed<'a> {
    open spec fn probe_abs(&self) -> (u64, u32, Seq<i16>) {
        (self.typeface_id, self.typeface_index, self.normalized_coords@)
    }

    fn equivalent(&self, key: &NormalizedTypefaceCacheKey) -> (r: bool) {
        self.typeface_id == key.typeface_id && self.typeface_index == key.typeface_index
            && coords_eq(self.normalized_coords, key.normalized_coords.as_slice())
    }
}

/// Identifies a shaped font: a normalized typeface at a given size with a
/// given hinting setting. The size is stored as the bit pattern of the
/// caller's floating-point size, so equality is bitwise.
pub struct FontCacheKey {
    pub typeface_id: u64,
    pub typeface_index: u32,
    pub normalized_coords: Vec<i16>,
    pub font_size: u32,
    pub hint: bool,
}

impl CacheKey for FontCacheKey {
    type Abs = (u64, u32, Seq<i16>, u32, bool);

    open spec fn abs(&self) -> (u64, u32, Seq<i16>, u32, bool) {
        (
            self.typeface_id,
            self.typeface_index,
            self.normalized_coords@,
            self.font_size,
            self.hint,
        )
    }

    fn key_eq(&self, other: &Self) -> (r: bool) {
        self.typeface_id == other.typeface_id && self.typeface_index == other.typeface_index
            && self.font_size == other.font_size && self.hint == other.hint
            && coords_eq(self.normalized_coords.as_slice(), other.normalized_coords.as_slice())
    }
}

/// Borrowed form of [`FontCacheKey`].
pub struct FontCacheKeyBorrowed<'a> {
    pub typeface_id: u64,
    pub typeface_index: u32,
    pub normalized_coords: &'a [i16],
    pub font_size: u32,
    pub hint: bool,
}

impl<'a> Equivalent<FontCacheKey> for FontCacheKeyBorrowed<'a> {
    open spec fn probe_abs(&self) -> (u64, u32, Seq<i16>, u32, bool) {
        (
            self.typeface_id,
            self.typeface_index,
            self.normalized_coords@,
            self.font_size,
            self.hint,
        )
    }

    fn equivalent(&self, key: &FontCacheKey) -> (r: bool) {
        self.typeface_id == key.typeface_id && self.typeface_index == key.typeface_index
            && self.font_size == key.font_size && self.hint == key.hint
            && coords_eq(self.normalized_coords, key.normalized_coords.as_slice())
    }
}

/// The identity of a decoded image's backing data, used to key the cache of
/// image shaders.
impl CacheKey for u64 {
    type Abs = u64;

    open spec fn abs(&self) -> u64 {
        *self
    }

    fn key_eq(&self, other: &Self) -> (r: bool) {
        *self == *other
    }
}

} // verus!

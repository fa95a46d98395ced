//! The per-session resource caches of the drawing layer.
//!
//! A session owns one [`SceneCache`]: a generational cache per kind of
//! backend-owned resource the drawing layer rebuilds from scenes —
//! typefaces, variable-font instantiations, image shaders and shaped
//! fonts. All four share one frame clock: the frame driver ages them
//! together, once per presented frame. The caches are created with the
//! session and dropped with it, because the resources they hold refer to
//! objects the backend owns and invalidates on teardown.

use vstd::prelude::*;

use crate::cache::GenerationalCache;
use crate::cache::CacheEntry;
use crate::keys::FontCacheKey;
use crate::keys::NormalizedTypefaceCacheKey;
use crate::keys::TypefaceCacheKey;

verus! {

/// The age limit of the typeface cache.
pub const TYPEFACE_MAX_AGE: u64 = 0;

/// The age limit of the normalized-typeface cache.
pub const NORMALIZED_TYPEFACE_MAX_AGE: u64 = 0;

/// The age limit of the image-shader cache.
pub const IMAGE_SHADER_MAX_AGE: u64 = 1;

/// The age limit of the shaped-font cache.
pub const FONT_MAX_AGE: u64 = 0;

/// One generational cache per kind of backend-owned resource. `T` is the
/// embedder's handle to such a resource.
pub struct SceneCache<T> {
    pub typeface: GenerationalCache<TypefaceCacheKey, T>,
    pub normalized_typeface: GenerationalCache<NormalizedTypefaceCacheKey, T>,
    pub image_shader: GenerationalCache<u64, T>,
    pub font: GenerationalCache<FontCacheKey, T>,
}

impl<T> SceneCache<T> {
    /// All four caches are well-formed.
    pub open spec fn wf(self) -> bool {
        &&& self.typeface.wf()
        &&& self.normalized_typeface.wf()
        &&& self.image_shader.wf()
        &&& self.font.wf()
    }

    /// No cache holds an entry.
    pub open spec fn is_empty_spec(self) -> bool {
        &&& self.typeface.entries() =~= Map::<(u64, u32), CacheEntry<T>>::empty()
        &&& self.normalized_typeface.entries() =~= Map::<
            (u64, u32, Seq<i16>),
            CacheEntry<T>,
        >::empty()
        &&& self.image_shader.entries() =~= Map::<u64, CacheEntry<T>>::empty()
        &&& self.font.entries() =~= Map::<(u64, u32, Seq<i16>, u32, bool), CacheEntry<T>>::empty()
    }

    /// A newly created scene cache: empty, with every clock at zero and the
    /// age limit each resource kind is given.
    pub open spec fn fresh_spec(self) -> bool {
        &&& self.wf()
        &&& self.is_empty_spec()
        &&& self.typeface.generation() == 0
        &&& self.normalized_typeface.generation() == 0
        &&& self.image_shader.generation() == 0
        &&& self.font.generation() == 0
        &&& self.typeface.age_limit() == TYPEFACE_MAX_AGE
        &&& self.normalized_typeface.age_limit() == NORMALIZED_TYPEFACE_MAX_AGE
        &&& self.image_shader.age_limit() == IMAGE_SHADER_MAX_AGE
        &&& self.font.age_limit() == FONT_MAX_AGE
    }

    /// One eviction pass ran on each of the four caches.
    pub open spec fn advanced_from(post: Self, pre: Self) -> bool {
        &&& GenerationalCache::advanced_from(post.typeface, pre.typeface)
        &&& GenerationalCache::advanced_from(post.normalized_typeface, pre.normalized_typeface)
        &&& GenerationalCache::advanced_from(post.image_shader, pre.image_shader)
        &&& GenerationalCache::advanced_from(post.font, pre.font)
    }

    /// Creates the caches of a fresh session.
    pub fn new() -> (r: Self)
        ensures
            r.fresh_spec(),
    {
        SceneCache {
            typeface: GenerationalCache::new(TYPEFACE_MAX_AGE),
            normalized_typeface: GenerationalCache::new(NORMALIZED_TYPEFACE_MAX_AGE),
            image_shader: GenerationalCache::new(IMAGE_SHADER_MAX_AGE),
            font: GenerationalCache::new(FONT_MAX_AGE),
        }
    }

    /// Whether every cache is empty.
    pub fn is_empty(&self) -> (r: bool)
        requires
            self.wf(),
        ensures
            r <==> self.is_empty_spec(),
    {
        self.typeface.is_empty() && self.normalized_typeface.is_empty()
            && self.image_shader.is_empty() && self.font.is_empty()
    }

    /// Runs one eviction pass on each cache: called once per presented
    /// frame, never for a skipped one.
    pub fn advance_generation(&mut self)
        requires
            old(self).wf(),
        ensures
            final(self).wf(),
            Self::advanced_from(*final(self), *old(self)),
    {
        self.typeface.advance_generation();
        self.normalized_typeface.advance_generation();
        self.image_shader.advance_generation();
        self.font.advance_generation();
    }
}

impl<T> Default for SceneCache<T> {
    /// The caches of a fresh session.
    fn default() -> (r: Self)
        ensures
            r.fresh_spec(),
    {
        SceneCache::new()
    }
}

} // verus!

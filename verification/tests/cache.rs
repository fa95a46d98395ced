use anyrender::cache::GenerationalCache;
use anyrender::keys::FontCacheKey;
use anyrender::keys::FontCacheKeyBorrowed;
use anyrender::keys::NormalizedTypefaceCacheKey;
use anyrender::keys::NormalizedTypefaceCacheKeyBorrowed;
use anyrender::keys::TypefaceCacheKey;

#[test]
fn empty_cache_misses() {
    let mut cache: GenerationalCache<u64, String> = GenerationalCache::new(2);
    assert_eq!(cache.len(), 0);
    assert!(cache.is_empty());
    assert!(!cache.contains_key(&7u64));
    assert!(cache.hit(&7u64).is_none());
}

#[test]
fn default_cache_keeps_untouched_entries_for_two_passes() {
    let mut cache: GenerationalCache<u64, u64> = GenerationalCache::default();
    cache.insert(9, 90);
    cache.advance_generation();
    cache.advance_generation();
    assert!(cache.contains_key(&9u64));
    cache.advance_generation();
    assert!(!cache.contains_key(&9u64));
}

#[test]
fn insert_overwrites_existing_entry() {
    let mut cache: GenerationalCache<u64, String> = GenerationalCache::new(2);
    cache.insert(7, String::from("first"));
    cache.insert(7, String::from("second"));
    assert_eq!(cache.len(), 1);
    assert_eq!(cache.hit(&7u64), Some(&String::from("second")));
}

#[test]
fn max_age_two_boundary_is_inclusive() {
    // Insert at generation 0 with max_age 2: present at generations 1 and 2,
    // gone once the eviction pass sees age 2.
    let mut cache: GenerationalCache<u64, u64> = GenerationalCache::new(2);
    cache.insert(7, 42);
    cache.advance_generation();
    assert!(cache.contains_key(&7u64));
    cache.advance_generation();
    assert!(cache.contains_key(&7u64));
    cache.advance_generation();
    assert!(!cache.contains_key(&7u64));
}

#[test]
fn max_age_one_untouched_entry() {
    let mut cache: GenerationalCache<u64, u64> = GenerationalCache::new(1);
    cache.insert(1, 10);
    cache.advance_generation();
    assert!(cache.contains_key(&1u64));
    cache.advance_generation();
    assert!(!cache.contains_key(&1u64));
}

#[test]
fn zero_max_age_is_per_frame_scratch() {
    let mut cache: GenerationalCache<u64, u64> = GenerationalCache::new(0);
    cache.insert(1, 10);
    assert!(cache.contains_key(&1u64));
    cache.advance_generation();
    assert!(!cache.contains_key(&1u64));
    assert!(cache.is_empty());
}

#[test]
fn hit_refreshes_entry_lifetime() {
    let mut cache: GenerationalCache<u64, u64> = GenerationalCache::new(2);
    cache.insert(1, 10);
    cache.advance_generation();
    // Touch the entry at generation 1: it is stamped anew.
    assert_eq!(cache.hit(&1u64), Some(&10));
    cache.advance_generation();
    cache.advance_generation();
    assert!(cache.contains_key(&1u64));
    cache.advance_generation();
    assert!(!cache.contains_key(&1u64));
}

#[test]
fn contains_key_does_not_refresh() {
    let mut cache: GenerationalCache<u64, u64> = GenerationalCache::new(1);
    cache.insert(1, 10);
    cache.advance_generation();
    assert!(cache.contains_key(&1u64));
    cache.advance_generation();
    // Had contains_key stamped the entry, it would still be here.
    assert!(!cache.contains_key(&1u64));
}

#[test]
fn wrapping_generations_near_the_boundary() {
    // The clock wraps from u64::MAX to 0 without evicting early or late.
    let mut cache: GenerationalCache<u64, u64> =
        GenerationalCache::with_generation(2, u64::MAX - 1);
    cache.insert(3, 30);
    cache.advance_generation(); // clock now u64::MAX
    assert!(cache.contains_key(&3u64));
    cache.advance_generation(); // clock wraps to 0
    assert!(cache.contains_key(&3u64));
    cache.advance_generation(); // age 2 reached: evicted
    assert!(!cache.contains_key(&3u64));
}

#[test]
fn typeface_key_equality() {
    let mut cache: GenerationalCache<TypefaceCacheKey, u64> = GenerationalCache::new(2);
    cache.insert(TypefaceCacheKey { typeface_id: 5, typeface_index: 1 }, 55);
    assert!(cache.contains_key(&TypefaceCacheKey { typeface_id: 5, typeface_index: 1 }));
    assert!(!cache.contains_key(&TypefaceCacheKey { typeface_id: 5, typeface_index: 2 }));
    assert!(!cache.contains_key(&TypefaceCacheKey { typeface_id: 6, typeface_index: 1 }));
}

#[test]
fn borrowed_and_owned_normalized_typeface_hits_agree() {
    let mut cache: GenerationalCache<NormalizedTypefaceCacheKey, u64> = GenerationalCache::new(2);
    let owned = NormalizedTypefaceCacheKey {
        typeface_id: 5,
        typeface_index: 1,
        normalized_coords: vec![100, -200, 300],
    };
    cache.insert(owned, 77);

    let coords: Vec<i16> = vec![100, -200, 300];
    let borrowed = NormalizedTypefaceCacheKeyBorrowed {
        typeface_id: 5,
        typeface_index: 1,
        normalized_coords: &coords,
    };
    let via_borrowed = *cache.hit(&borrowed).expect("borrowed probe must hit");

    let owned_again = NormalizedTypefaceCacheKey {
        typeface_id: 5,
        typeface_index: 1,
        normalized_coords: coords.clone(),
    };
    let via_owned = *cache.hit(&owned_again).expect("owned probe must hit");

    assert_eq!(via_borrowed, 77);
    assert_eq!(via_owned, 77);
    assert_eq!(cache.len(), 1);
}

#[test]
fn borrowed_probe_misses_on_different_coords() {
    let mut cache: GenerationalCache<NormalizedTypefaceCacheKey, u64> = GenerationalCache::new(2);
    cache.insert(
        NormalizedTypefaceCacheKey {
            typeface_id: 5,
            typeface_index: 1,
            normalized_coords: vec![1, 2],
        },
        7,
    );
    let other: Vec<i16> = vec![1, 3];
    assert!(cache
        .hit(&NormalizedTypefaceCacheKeyBorrowed {
            typeface_id: 5,
            typeface_index: 1,
            normalized_coords: &other,
        })
        .is_none());
    let shorter: Vec<i16> = vec![1];
    assert!(cache
        .hit(&NormalizedTypefaceCacheKeyBorrowed {
            typeface_id: 5,
            typeface_index: 1,
            normalized_coords: &shorter,
        })
        .is_none());
}

#[test]
fn font_key_distinguishes_size_and_hinting() {
    let mut cache: GenerationalCache<FontCacheKey, u64> = GenerationalCache::new(2);
    let size_bits = 16.0f32.to_bits();
    cache.insert(
        FontCacheKey {
            typeface_id: 9,
            typeface_index: 0,
            normalized_coords: vec![],
            font_size: size_bits,
            hint: true,
        },
        1,
    );
    let coords: Vec<i16> = vec![];
    let same = FontCacheKeyBorrowed {
        typeface_id: 9,
        typeface_index: 0,
        normalized_coords: &coords,
        font_size: size_bits,
        hint: true,
    };
    assert_eq!(cache.hit(&same), Some(&1));
    let unhinted = FontCacheKeyBorrowed {
        typeface_id: 9,
        typeface_index: 0,
        normalized_coords: &coords,
        font_size: size_bits,
        hint: false,
    };
    assert!(cache.hit(&unhinted).is_none());
    let other_size = FontCacheKeyBorrowed {
        typeface_id: 9,
        typeface_index: 0,
        normalized_coords: &coords,
        font_size: 17.0f32.to_bits(),
        hint: true,
    };
    assert!(cache.hit(&other_size).is_none());
}

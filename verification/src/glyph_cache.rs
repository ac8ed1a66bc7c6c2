//! A bounded cache of tessellated glyph geometry, so that text can be drawn
//! again without repeating the expensive outline tessellation.

use vstd::prelude::*;
use lru::LruCache;

verus! {

/// How many tessellated glyphs the cache keeps: enough for some twenty to
/// thirty alphabets or font sizes in use at once.
pub const CACHE_CAPACITY: usize = 2000;

/// What identifies one glyph's geometry: the font, the face in the font, the
/// glyph, the size bucket, the tolerance bucket, whether the outline was
/// hinted, and the oversampling factor.
pub type CacheKey = (u64, u32, u16, u16, u16, bool, u8);

/// The tessellated geometry of one glyph: vertex positions (as the bit
/// patterns of their two coordinates) and the indices of its triangles.
/// Glyphs that cannot be drawn are cached empty, so that they are not
/// tessellated again.
#[derive(Debug, Clone)]
pub struct CachedGlyph {
    /// The vertex positions, each coordinate as the bits of an `f32`.
    pub vertices: Vec<(u32, u32)>,
    /// Three indices into `vertices` per triangle.
    pub indices: Vec<u16>,
}

impl CachedGlyph {
    /// Creates an empty cached glyph, for glyphs that cannot be drawn.
    pub fn empty() -> (g: Self)
        ensures
            g.vertices@.len() == 0,
            g.indices@.len() == 0,
    {
        CachedGlyph { vertices: Vec::new(), indices: Vec::new() }
    }

    /// Whether the glyph has nothing to draw: no vertices or no indices.
    pub fn is_empty(&self) -> (r: bool)
        ensures
            r == (self.vertices@.len() == 0 || self.indices@.len() == 0),
    {
        self.vertices.len() == 0 || self.indices.len() == 0
    }
}

#[verifier::external_type_specification]
#[verifier::external_body]
#[verifier::reject_recursive_types(K)]
#[verifier::reject_recursive_types(V)]
#[verifier::reject_recursive_types(S)]
pub struct ExLruCache<K, V, S>(LruCache<K, V, S>);

#[verifier::external_type_specification]
#[verifier::external_body]
pub struct ExDefaultHasher(lru::DefaultHasher);

/// The entries held by a glyph cache.
pub uninterp spec fn lru_contents(cache: LruCache<CacheKey, CachedGlyph>) -> Map<
    CacheKey,
    CachedGlyph,
>;

/// The contents of an empty cache.
pub open spec fn no_glyphs() -> Map<CacheKey, CachedGlyph> {
    Map::empty()
}

/// The capacity a glyph cache was made with.
pub uninterp spec fn lru_capacity(cache: LruCache<CacheKey, CachedGlyph>) -> nat;

/// The keys held by a glyph cache, most recently used first.
pub uninterp spec fn lru_order(cache: LruCache<CacheKey, CachedGlyph>) -> Seq<CacheKey>;

/// No key at all.
pub open spec fn no_keys() -> Seq<CacheKey> {
    Seq::empty()
}

/// `order` with `key` taken out.
pub open spec fn without_key(order: Seq<CacheKey>, key: CacheKey) -> Seq<CacheKey> {
    order.filter(|k: CacheKey| k != key)
}

/// `order` after `key` is used: `key` first, then the others as before.
pub open spec fn used_first(order: Seq<CacheKey>, key: CacheKey) -> Seq<CacheKey> {
    seq![key] + without_key(order, key)
}

/// The recency order lists exactly the keys held, each once.
pub open spec fn lru_consistent(cache: LruCache<CacheKey, CachedGlyph>) -> bool {
    &&& lru_order(cache).no_duplicates()
    &&& lru_order(cache).to_set() == lru_contents(cache).dom()
}

/// A cache holds no more entries than its capacity.
pub open spec fn lru_bounded(cache: LruCache<CacheKey, CachedGlyph>) -> bool {
    lru_contents(cache).dom().finite() && lru_contents(cache).dom().len() <= lru_capacity(cache)
}

/// Calls `lru::LruCache::new` with the capacity `cap`: an empty cache that
/// holds at most `cap` entries. (`NonZeroUsize::new(cap).unwrap()` panics on
/// zero, hence the `requires`.)
#[verifier::external_body]
fn lru_new(cap: usize) -> (c: LruCache<CacheKey, CachedGlyph>)
    requires
        cap > 0,
    ensures
        lru_contents(c) == no_glyphs(),
        lru_order(c) == no_keys(),
        lru_capacity(c) == cap,
{
    LruCache::new(std::num::NonZeroUsize::new(cap).unwrap())
}

/// Calls `lru::LruCache::get`: the value held for `key`, if any. A key that
/// is held becomes the most recently used; nothing else changes.
#[verifier::external_body]
fn lru_get<'a>(cache: &'a mut LruCache<CacheKey, CachedGlyph>, key: &CacheKey) -> (r: Option<
    &'a CachedGlyph,
>)
    ensures
        lru_contents(*final(cache)) == lru_contents(*old(cache)),
        lru_capacity(*final(cache)) == lru_capacity(*old(cache)),
        r is Some <==> lru_contents(*old(cache)).contains_key(*key),
        r matches Some(v) ==> *v == lru_contents(*old(cache))[*key],
        lru_contents(*old(cache)).contains_key(*key) ==> lru_order(*final(cache)) == used_first(
            lru_order(*old(cache)),
            *key,
        ),
        !lru_contents(*old(cache)).contains_key(*key) ==> lru_order(*final(cache)) == lru_order(
            *old(cache),
        ),
        lru_consistent(*old(cache)) ==> lru_consistent(*final(cache)),
{
    cache.get(key)
}

/// Calls `lru::LruCache::put`: `key` now holds `value` and becomes the most
/// recently used. A key already present has its old value returned; a new
/// key is added, and when the cache was full the least recently used entry
/// (the last in the recency order) is dropped to make room.
#[verifier::external_body]
fn lru_put(cache: &mut LruCache<CacheKey, CachedGlyph>, key: CacheKey, value: CachedGlyph) -> (r:
    Option<CachedGlyph>)
    ensures
        lru_capacity(*final(cache)) == lru_capacity(*old(cache)),
        lru_bounded(*old(cache)) ==> lru_bounded(*final(cache)),
        lru_consistent(*old(cache)) ==> lru_consistent(*final(cache)),
        lru_contents(*old(cache)).contains_key(key) ==> {
            &&& r == Some(lru_contents(*old(cache))[key])
            &&& lru_contents(*final(cache)) == lru_contents(*old(cache)).insert(key, value)
            &&& lru_order(*final(cache)) == used_first(lru_order(*old(cache)), key)
        },
        !lru_contents(*old(cache)).contains_key(key) ==> {
            &&& r is None
            &&& lru_contents(*old(cache)).dom().len() < lru_capacity(*old(cache)) ==> {
                &&& lru_contents(*final(cache)) == lru_contents(*old(cache)).insert(key, value)
                &&& lru_order(*final(cache)) == seq![key] + lru_order(*old(cache))
            }
            &&& lru_contents(*old(cache)).dom().len() >= lru_capacity(*old(cache)) ==> exists|
                evicted: CacheKey,
            |
                lru_contents(*old(cache)).contains_key(evicted) && #[trigger] lru_contents(
                    *final(cache),
                ) == lru_contents(*old(cache)).remove(evicted).insert(key, value)
            &&& lru_consistent(*old(cache)) && lru_contents(*old(cache)).dom().len() >= lru_capacity(
                *old(cache),
            ) ==> {
                &&& lru_order(*old(cache)).len() > 0
                &&& lru_contents(*final(cache)) == lru_contents(*old(cache)).remove(
                    lru_order(*old(cache)).last(),
                ).insert(key, value)
                &&& lru_order(*final(cache)) == seq![key] + lru_order(*old(cache)).drop_last()
            }
        },
{
    cache.put(key, value)
}

/// Calls `lru::LruCache::clear`: every entry is dropped.
#[verifier::external_body]
fn lru_clear(cache: &mut LruCache<CacheKey, CachedGlyph>)
    ensures
        lru_contents(*final(cache)) == no_glyphs(),
        lru_order(*final(cache)) == no_keys(),
        lru_capacity(*final(cache)) == lru_capacity(*old(cache)),
{
    cache.clear()
}

/// The glyph cache: keyed geometry, bounded by [`CACHE_CAPACITY`], dropping
/// the least recently used glyph when full.
pub struct TextTessellationCache {
    cache: LruCache<CacheKey, CachedGlyph>,
}

impl TextTessellationCache {
    /// The glyphs held.
    pub closed spec fn contents(&self) -> Map<CacheKey, CachedGlyph> {
        lru_contents(self.cache)
    }

    /// The keys of the glyphs held, most recently used first.
    pub closed spec fn order(&self) -> Seq<CacheKey> {
        lru_order(self.cache)
    }

    /// The cache holds no more than its capacity, and its recency order
    /// lists exactly the keys held, each once.
    pub closed spec fn well_formed(&self) -> bool {
        &&& lru_capacity(self.cache) == CACHE_CAPACITY
        &&& lru_bounded(self.cache)
        &&& lru_consistent(self.cache)
    }

    /// An empty cache.
    pub fn new() -> (c: Self)
        ensures
            c.contents() == no_glyphs(),
            c.order() == no_keys(),
            c.well_formed(),
    {
        let cache = lru_new(CACHE_CAPACITY);
        proof {
            assert(lru_contents(cache).dom() =~= Set::<CacheKey>::empty());
            assert(lru_order(cache).to_set() =~= Set::<CacheKey>::empty());
        }
        TextTessellationCache { cache }
    }

    /// The geometry cached for `key`, if any. Reading marks the glyph as
    /// recently used.
    pub fn get(&mut self, key: CacheKey) -> (r: Option<&CachedGlyph>)
        ensures
            final(self).contents() == old(self).contents(),
            old(self).well_formed() ==> final(self).well_formed(),
            r is Some <==> old(self).contents().contains_key(key),
            r matches Some(v) ==> *v == old(self).contents()[key],
            old(self).contents().contains_key(key) ==> final(self).order() == used_first(
                old(self).order(),
                key,
            ),
            !old(self).contents().contains_key(key) ==> final(self).order() == old(self).order(),
    {
        lru_get(&mut self.cache, &key)
    }

    /// Caches the geometry of a glyph. When the cache is full and the glyph
    /// is new, the least recently used glyph is dropped.
    pub fn insert(&mut self, key: CacheKey, glyph: CachedGlyph)
        ensures
            final(self).contents().contains_key(key),
            final(self).contents()[key] == glyph,
            old(self).well_formed() ==> final(self).well_formed(),
            forall|k: CacheKey|
                k != key && #[trigger] final(self).contents().contains_key(k) ==> old(
                    self,
                ).contents().contains_key(k) && final(self).contents()[k] == old(self).contents()[k],
            old(self).contents().contains_key(key) || (old(self).well_formed() && old(
                self,
            ).contents().dom().len() < CACHE_CAPACITY) ==> final(self).contents() == old(self).contents().insert(
                key,
                glyph,
            ),
            old(self).contents().contains_key(key) ==> final(self).order() == used_first(
                old(self).order(),
                key,
            ),
            !old(self).contents().contains_key(key) && old(self).well_formed() && old(
                self,
            ).contents().dom().len() < CACHE_CAPACITY ==> final(self).order() == seq![key] + old(
                self,
            ).order(),
            !old(self).contents().contains_key(key) && old(self).well_formed() && old(
                self,
            ).contents().dom().len() >= CACHE_CAPACITY ==> {
                &&& old(self).order().len() > 0
                &&& final(self).contents() == old(self).contents().remove(
                    old(self).order().last(),
                ).insert(key, glyph)
                &&& final(self).order() == seq![key] + old(self).order().drop_last()
            },
    {
        let _ = lru_put(&mut self.cache, key, glyph);
    }

    /// Drops every cached glyph; used when the quality setting changes.
    pub fn clear(&mut self)
        ensures
            final(self).contents() == no_glyphs(),
            final(self).order() == no_keys(),
            old(self).well_formed() ==> final(self).well_formed(),
    {
        lru_clear(&mut self.cache);
        proof {
            assert(lru_contents(self.cache).dom() =~= Set::<CacheKey>::empty());
            assert(lru_order(self.cache).to_set() =~= Set::<CacheKey>::empty());
        }
    }
}

/// The cache never holds more than [`CACHE_CAPACITY`] glyphs: every cache
/// made by [`TextTessellationCache::new`] is well-formed, and every operation
/// keeps it so.
pub proof fn lemma_cache_within_capacity(cache: TextTessellationCache)
    requires
        cache.well_formed(),
    ensures
        cache.contents().dom().finite(),
        cache.contents().dom().len() <= CACHE_CAPACITY,
{
}

} // verus!

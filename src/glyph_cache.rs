use vstd::prelude::*;
use crate::layout::GlyphMetrics;

verus! {

/// Identifies one rasterized glyph: the font, the pixel size and the character.
#[derive(Clone, Copy, Debug, PartialEq, Eq, Structural)]
pub struct GlyphKey {
    pub font: u32,
    pub size: u32,
    pub ch: char,
}

/// The metrics stored for `key` in `entries`, from its first entry.
pub open spec fn lookup(entries: Seq<(GlyphKey, GlyphMetrics)>, key: GlyphKey) -> Option<
    GlyphMetrics,
>
    decreases entries.len(),
{
    if entries.len() == 0 {
        None
    } else if lookup(entries.drop_last(), key).is_some() {
        lookup(entries.drop_last(), key)
    } else if entries.last().0 == key {
        Some(entries.last().1)
    } else {
        None
    }
}

/// Glyphs rasterized so far, each kept for the lifetime of the cache. A glyph
/// is rasterized once: its key is stored only on a miss, so the number of
/// entries is the number of rasterizations.
pub struct GlyphCache {
    pub entries: Vec<(GlyphKey, GlyphMetrics)>,
}

impl GlyphCache {
    pub open spec fn view_get(&self, key: GlyphKey) -> Option<GlyphMetrics> {
        lookup(self.entries@, key)
    }

    pub fn new() -> (r: GlyphCache)
        ensures
            r.entries@.len() == 0,
            forall|k: GlyphKey| r.view_get(k).is_none(),
    {
        GlyphCache { entries: Vec::new() }
    }

    /// The cached metrics of `key`, if it was rasterized before.
    pub fn get(&self, key: GlyphKey) -> (r: Option<GlyphMetrics>)
        ensures
            r == self.view_get(key),
    {
        let mut i: usize = 0;
        while i < self.entries.len()
            invariant
                i <= self.entries@.len(),
                lookup(self.entries@.subrange(0, i as int), key).is_none(),
            decreases self.entries.len() - i,
        {
            let e = self.entries[i];
            proof {
                let s = self.entries@.subrange(0, i as int + 1);
                assert(s.drop_last() =~= self.entries@.subrange(0, i as int));
            }
            if e.0 == key {
                proof {
                    lemma_lookup_prefix(self.entries@, i as int + 1, key);
                }
                return Some(e.1);
            }
            i = i + 1;
        }
        assert(self.entries@.subrange(0, self.entries@.len() as int) =~= self.entries@);
        None
    }

    /// Records the metrics of a freshly rasterized glyph that was not cached.
    pub fn insert(&mut self, key: GlyphKey, metrics: GlyphMetrics)
        requires
            old(self).view_get(key).is_none(),
        ensures
            final(self).entries@ == old(self).entries@.push((key, metrics)),
            final(self).view_get(key) == Some(metrics),
            forall|k: GlyphKey| k != key ==> final(self).view_get(k) == old(self).view_get(k),
    {
        self.entries.push((key, metrics));
        proof {
            assert(self.entries@.drop_last() =~= old(self).entries@);
        }
    }

    /// How many glyphs have been rasterized into this cache.
    pub fn rasterized(&self) -> (r: usize)
        ensures
            r == self.entries@.len(),
    {
        self.entries.len()
    }
}

proof fn lemma_lookup_prefix(entries: Seq<(GlyphKey, GlyphMetrics)>, n: int, key: GlyphKey)
    requires
        0 <= n <= entries.len(),
        lookup(entries.subrange(0, n), key).is_some(),
    ensures
        lookup(entries, key) == lookup(entries.subrange(0, n), key),
    decreases entries.len() - n,
{
    if n < entries.len() {
        let s = entries.subrange(0, n + 1);
        assert(s.drop_last() =~= entries.subrange(0, n));
        lemma_lookup_prefix(entries, n + 1, key);
    } else {
        assert(entries.subrange(0, n) =~= entries);
    }
}

/// A glyph stored after a miss is found by every later request for the same
/// font, size and character, with the metrics that were stored, so it is never
/// rasterized again; other keys see no change.
pub proof fn stored_glyph_is_reused(
    entries: Seq<(GlyphKey, GlyphMetrics)>,
    key: GlyphKey,
    metrics: GlyphMetrics,
    other: GlyphKey,
)
    requires
        lookup(entries, key).is_none(),
    ensures
        lookup(entries.push((key, metrics)), key) == Some(metrics),
        other != key ==> lookup(entries.push((key, metrics)), other) == lookup(entries, other),
{
    assert(entries.push((key, metrics)).drop_last() =~= entries);
}

} // verus!

//! Cache of sticker descriptions keyed by the platform's stable sticker id,
//! with the texts that tell the agent what a sticker shows. Reading and
//! writing the cache file is left to the caller, through `cache_path`.

use vstd::prelude::*;

use crate::clock::unix_now_secs;
use crate::platform::push_str;
use crate::strmap::StrMap;

verus! {

/// A cached sticker description.
#[derive(Debug)]
pub struct StickerDescription {
    /// What the sticker shows (one or two sentences).
    pub description: String,
    /// Associated emoji, or empty.
    pub emoji: String,
    /// Sticker set name, or empty.
    pub set_name: String,
    /// When it was cached, seconds since the Unix epoch.
    pub cached_at: u64,
}

impl Clone for StickerDescription {
    fn clone(&self) -> (r: Self)
        ensures
            r == *self,
    {
        StickerDescription {
            description: self.description.clone(),
            emoji: self.emoji.clone(),
            set_name: self.set_name.clone(),
            cached_at: self.cached_at,
        }
    }
}

/// Whether an entry cached at `t` is older than `max_age` at time `now`.
pub open spec fn is_stale(now: u64, t: u64, max_age: u64) -> bool {
    (if now >= t {
        now - t
    } else {
        0
    }) > max_age
}

/// The entries of `m` that are not stale at `now`.
pub open spec fn fresh_entries(
    m: Map<Seq<char>, StickerDescription>,
    now: u64,
    max_age: u64,
) -> Map<Seq<char>, StickerDescription> {
    Map::new(
        |k: Seq<char>| m.contains_key(k) && !is_stale(now, m[k].cached_at, max_age),
        |k: Seq<char>| m[k],
    )
}

/// The text telling that a user sent a sticker.
pub open spec fn sticker_injection(
    description: Seq<char>,
    emoji: Seq<char>,
    set_name: Seq<char>,
) -> Seq<char> {
    let context = if set_name.len() > 0 && emoji.len() > 0 {
        " "@ + emoji + " from \""@ + set_name + "\""@
    } else if emoji.len() > 0 {
        " "@ + emoji
    } else {
        Seq::empty()
    };
    "[The user sent a sticker"@ + context + "~ It shows: \""@ + description + "\" (=^.w.^=)]"@
}

/// The text telling that a user sent an animated sticker.
pub open spec fn animated_injection(emoji: Option<Seq<char>>) -> Seq<char> {
    match emoji {
        Some(e) => "[The user sent an animated sticker "@ + e
            + "~ I can't see animated ones yet, but the emoji suggests: "@ + e + "]"@,
        None => "[The user sent an animated sticker~ I can't see animated ones yet]"@,
    }
}

/// The cache file under a data directory: `{dir}/sticker_cache.json`.
pub open spec fn cache_file(dir: Seq<char>) -> Seq<char> {
    dir + "/sticker_cache.json"@
}

/// Sticker descriptions by sticker id.
pub struct StickerCache {
    cache: StrMap<StickerDescription>,
    cache_path: String,
}

impl StickerCache {
    /// Descriptions by sticker id.
    pub closed spec fn entries(&self) -> Map<Seq<char>, StickerDescription> {
        self.cache@
    }

    /// The cache file.
    pub closed spec fn path(&self) -> Seq<char> {
        self.cache_path@
    }

    /// Internal consistency.
    pub closed spec fn wf(&self) -> bool {
        self.cache.wf()
    }

    /// An empty cache stored under `data_dir`.
    pub fn new(data_dir: &str) -> (c: Self)
        ensures
            c.wf(),
            c.entries() == Map::<Seq<char>, StickerDescription>::empty(),
            c.path() == cache_file(data_dir@),
    {
        let mut path = data_dir.to_owned();
        push_str(&mut path, "/sticker_cache.json");
        StickerCache { cache: StrMap::new(), cache_path: path }
    }

    /// A cache stored under `data_dir` holding `entries` (as loaded from the
    /// cache file).
    pub fn with_entries(data_dir: &str, entries: StrMap<StickerDescription>) -> (c: Self)
        requires
            entries.wf(),
        ensures
            c.wf(),
            c.entries() == entries@,
            c.path() == cache_file(data_dir@),
    {
        let mut path = data_dir.to_owned();
        push_str(&mut path, "/sticker_cache.json");
        StickerCache { cache: entries, cache_path: path }
    }

    /// The cache file's path.
    pub fn cache_path(&self) -> (p: &String)
        ensures
            p@ == self.path(),
    {
        &self.cache_path
    }

    /// All entries (for saving).
    pub fn entries_map(&self) -> (m: &StrMap<StickerDescription>)
        requires
            self.wf(),
        ensures
            m.wf(),
            m@ == self.entries(),
    {
        &self.cache
    }

    /// A sticker's cached description.
    pub fn get_cached_description(&self, file_unique_id: &str) -> (r: Option<&StickerDescription>)
        requires
            self.wf(),
        ensures
            match r {
                Some(d) => self.entries().contains_key(file_unique_id@) && *d == self.entries()[file_unique_id@],
                None => !self.entries().contains_key(file_unique_id@),
            },
    {
        self.cache.get(file_unique_id)
    }

    /// Caches a description made at time `cached_at`; a missing emoji or set
    /// name is stored empty.
    pub fn cache_sticker_description_at(
        &mut self,
        file_unique_id: String,
        description: String,
        emoji: Option<String>,
        set_name: Option<String>,
        cached_at: u64,
    )
        requires
            old(self).wf(),
        ensures
            final(self).wf(),
            final(self).path() == old(self).path(),
            final(self).entries() == old(self).entries().insert(
                file_unique_id@,
                StickerDescription {
                    description,
                    emoji: final(self).entries()[file_unique_id@].emoji,
                    set_name: final(self).entries()[file_unique_id@].set_name,
                    cached_at,
                },
            ),
            final(self).entries()[file_unique_id@].emoji@ == (match emoji {
                Some(e) => e@,
                None => Seq::<char>::empty(),
            }),
            final(self).entries()[file_unique_id@].set_name@ == (match set_name {
                Some(s) => s@,
                None => Seq::<char>::empty(),
            }),
    {
        let emoji = match emoji {
            Some(e) => e,
            None => String::new(),
        };
        let set_name = match set_name {
            Some(s) => s,
            None => String::new(),
        };
        self.cache.insert(file_unique_id, StickerDescription { description, emoji, set_name, cached_at });
    }

    /// Caches a description made now (read from the system clock).
    pub fn cache_sticker_description(
        &mut self,
        file_unique_id: String,
        description: String,
        emoji: Option<String>,
        set_name: Option<String>,
    )
        requires
            old(self).wf(),
        ensures
            final(self).wf(),
            final(self).path() == old(self).path(),
            final(self).entries().dom() == old(self).entries().dom().insert(file_unique_id@),
            forall|k: Seq<char>|
                k != file_unique_id@ && #[trigger] old(self).entries().contains_key(k) ==> final(self).entries()[k] == old(self).entries()[k],
            final(self).entries()[file_unique_id@].description == description,
            final(self).entries()[file_unique_id@].emoji@ == (match emoji {
                Some(e) => e@,
                None => Seq::<char>::empty(),
            }),
            final(self).entries()[file_unique_id@].set_name@ == (match set_name {
                Some(s) => s@,
                None => Seq::<char>::empty(),
            }),
    {
        let now = unix_now_secs();
        let ghost id = file_unique_id@;
        self.cache_sticker_description_at(file_unique_id, description, emoji, set_name, now);
        assert(self.entries().dom() =~= old(self).entries().dom().insert(id));
    }

    /// The text for a sticker: `[The user sent a sticker{context}~ It shows:
    /// "{description}" (=^.w.^=)]`, where the context names the emoji and,
    /// when both are given, the set.
    pub fn build_sticker_injection(description: &str, emoji: &str, set_name: &str) -> (s: String)
        ensures
            s@ == sticker_injection(description@, emoji@, set_name@),
    {
        let mut s = "[The user sent a sticker".to_owned();
        if set_name.unicode_len() > 0 && emoji.unicode_len() > 0 {
            push_str(&mut s, " ");
            push_str(&mut s, emoji);
            push_str(&mut s, " from \"");
            push_str(&mut s, set_name);
            push_str(&mut s, "\"");
        } else if emoji.unicode_len() > 0 {
            push_str(&mut s, " ");
            push_str(&mut s, emoji);
        }
        push_str(&mut s, "~ It shows: \"");
        push_str(&mut s, description);
        push_str(&mut s, "\" (=^.w.^=)]");
        proof {
            assert(s@ =~= sticker_injection(description@, emoji@, set_name@));
        }
        s
    }

    /// The text for an animated sticker, which cannot be described.
    pub fn build_animated_sticker_injection(emoji: Option<&str>) -> (s: String)
        ensures
            s@ == animated_injection(
                match emoji {
                    Some(e) => Some(e@),
                    None => None,
                },
            ),
    {
        match emoji {
            Some(e) => {
                let mut s = "[The user sent an animated sticker ".to_owned();
                push_str(&mut s, e);
                push_str(&mut s, "~ I can't see animated ones yet, but the emoji suggests: ");
                push_str(&mut s, e);
                push_str(&mut s, "]");
                s
            },
            None => "[The user sent an animated sticker~ I can't see animated ones yet]".to_owned(),
        }
    }

    /// A well-formed cache holds finitely many entries.
    pub proof fn lemma_entries_finite(&self)
        requires
            self.wf(),
        ensures
            self.entries().dom().finite(),
    {
        self.cache.lemma_view();
    }

    /// Number of cached stickers.
    pub fn len(&self) -> (n: usize)
        requires
            self.wf(),
        ensures
            n == self.entries().len(),
    {
        self.cache.len()
    }

    /// Whether nothing is cached.
    pub fn is_empty(&self) -> (b: bool)
        requires
            self.wf(),
        ensures
            b == (self.entries().len() == 0),
    {
        self.cache.is_empty()
    }

    /// Forgets every description.
    pub fn clear(&mut self)
        requires
            old(self).wf(),
        ensures
            final(self).wf(),
            final(self).entries() == Map::<Seq<char>, StickerDescription>::empty(),
            final(self).path() == old(self).path(),
    {
        self.cache.clear();
    }

    /// Removes the entries older than `max_age_seconds` at time `now`, and
    /// tells how many left.
    pub fn evict_old_entries_at(&mut self, now: u64, max_age_seconds: u64) -> (removed: usize)
        requires
            old(self).wf(),
        ensures
            final(self).wf(),
            final(self).path() == old(self).path(),
            final(self).entries() == fresh_entries(old(self).entries(), now, max_age_seconds),
            old(self).entries().dom().finite(),
            final(self).entries().dom().finite(),
            removed == old(self).entries().len() - final(self).entries().len(),
    {
        proof {
            self.cache.lemma_view();
        }
        let ghost ks = self.cache.key_seq();
        let ghost vs = self.cache.val_seq();
        let ghost old_m = self.cache@;
        let n = self.cache.len();
        let mut kept: StrMap<StickerDescription> = StrMap::new();
        let mut i: usize = 0;
        while i < n
            invariant
                self.cache.wf(),
                ks == self.cache.key_seq(),
                vs == self.cache.val_seq(),
                old_m == self.cache@,
                n == ks.len(),
                n == vs.len(),
                ks.no_duplicates(),
                forall|t: int| 0 <= t < n ==> #[trigger] old_m[ks[t]] == vs[t] && old_m.contains_key(ks[t]),
                old_m.dom() == ks.to_set(),
                kept.wf(),
                i <= n,
                forall|k: Seq<char>| #[trigger] kept@.contains_key(k) ==> exists|t: int| 0 <= t < i && ks[t] == k,
                forall|t: int|
                    0 <= t < i ==> (#[trigger] kept@.contains_key(ks[t]) <==> !is_stale(
                        now,
                        vs[t].cached_at,
                        max_age_seconds,
                    )),
                forall|k: Seq<char>| #[trigger] kept@.contains_key(k) ==> kept@[k] == old_m[k],
            decreases n - i,
        {
            let v = self.cache.value_at(i);
            let age = if now >= v.cached_at {
                now - v.cached_at
            } else {
                0
            };
            if !(age > max_age_seconds) {
                let k = self.cache.key_at(i);
                proof {
                    assert(!kept@.contains_key(ks[i as int])) by {
                        if kept@.contains_key(ks[i as int]) {
                            let t = choose|t: int| 0 <= t < i && ks[t] == ks[i as int];
                            assert(ks[t] == ks[i as int]);
                        }
                    }
                }
                kept.insert(k.clone(), v.clone());
            }
            proof {
                assert forall|k: Seq<char>| #[trigger] kept@.contains_key(k) implies exists|t: int|
                    0 <= t < i + 1 && ks[t] == k by {
                    if k == ks[i as int] {
                        assert(ks[i as int] == k);
                    }
                }
                assert forall|t: int|
                    0 <= t < i + 1 implies (#[trigger] kept@.contains_key(ks[t]) <==> !is_stale(
                        now,
                        vs[t].cached_at,
                        max_age_seconds,
                    )) by {
                    if t < i {
                        assert(ks[t] != ks[i as int]);
                    }
                }
            }
            i = i + 1;
        }
        proof {
            assert forall|k: Seq<char>| #[trigger] kept@.contains_key(k) == fresh_entries(
                old_m,
                now,
                max_age_seconds,
            ).contains_key(k) by {
                if kept@.contains_key(k) {
                    let t = choose|t: int| 0 <= t < n && ks[t] == k;
                    assert(ks[t] == k);
                }
                if old_m.contains_key(k) {
                    assert(ks.to_set().contains(k));
                    let t = ks.index_of(k);
                    assert(ks[t] == k);
                }
            }
            assert(kept@ =~= fresh_entries(old_m, now, max_age_seconds));
            kept.lemma_view();
            assert(kept@.dom().subset_of(old_m.dom()));
            vstd::set_lib::lemma_len_subset(kept@.dom(), old_m.dom());
        }
        let removed = n - kept.len();
        self.cache = kept;
        removed
    }

    /// Removes the entries older than `max_age_seconds` now (read from the
    /// system clock), and tells how many left.
    pub fn evict_old_entries(&mut self, max_age_seconds: u64) -> (removed: usize)
        requires
            old(self).wf(),
        ensures
            final(self).wf(),
            final(self).path() == old(self).path(),
            exists|now: u64| final(self).entries() == fresh_entries(old(self).entries(), now, max_age_seconds),
            removed == old(self).entries().len() - final(self).entries().len(),
    {
        let now = unix_now_secs();
        self.evict_old_entries_at(now, max_age_seconds)
    }
}

} // verus!

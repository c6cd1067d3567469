use vstd::prelude::*;

verus! {

/// The three independent categories of processed inputs.
#[derive(Clone, Copy, Debug, PartialEq, Eq, Structural)]
pub enum Category {
    Ui,
    Translations,
    Assets,
}

/// A key is stale against a mapping when it was never recorded, or when the
/// recorded fingerprint is strictly older than the current one.
pub open spec fn stale(m: Map<Seq<char>, u64>, key: Seq<char>, fingerprint: u64) -> bool {
    !m.contains_key(key) || m[key] < fingerprint
}

/// A flat mapping from cache key to fingerprint (microseconds since the epoch),
/// stored as a vector of pairs with unique keys.
pub struct FingerprintMap {
    entries: Vec<(String, u64)>,
    model: Ghost<Map<Seq<char>, u64>>,
}

/// `pairs` lists exactly the entries of `m`, each key once.
pub open spec fn lists_exactly(pairs: Seq<(String, u64)>, m: Map<Seq<char>, u64>) -> bool {
    &&& forall|i: int, j: int|
        0 <= i < j < pairs.len() ==> (#[trigger] pairs[i]).0@ != (#[trigger] pairs[j]).0@
    &&& forall|i: int|
        0 <= i < pairs.len() ==> m.contains_key((#[trigger] pairs[i]).0@) && m[pairs[i].0@]
            == pairs[i].1
    &&& forall|k: Seq<char>|
        #[trigger] m.contains_key(k) ==> exists|i: int| 0 <= i < pairs.len() && pairs[i].0@ == k
}

impl View for FingerprintMap {
    type V = Map<Seq<char>, u64>;

    closed spec fn view(&self) -> Map<Seq<char>, u64> {
        self.model@
    }
}

impl FingerprintMap {
    pub closed spec fn wf(&self) -> bool {
        &&& lists_exactly(self.entries@, self.model@)
        &&& self.model@.dom().finite()
    }

    pub fn new() -> (r: FingerprintMap)
        ensures
            r.wf(),
            r@ == Map::<Seq<char>, u64>::empty(),
    {
        FingerprintMap { entries: Vec::new(), model: Ghost(Map::empty()) }
    }

    fn find(&self, key: &String) -> (r: Option<usize>)
        requires
            self.wf(),
        ensures
            match r {
                Some(i) => i < self.entries@.len() && self.entries@[i as int].0@ == key@,
                None => !self@.contains_key(key@),
            },
    {
        let mut i: usize = 0;
        while i < self.entries.len()
            invariant
                self.wf(),
                i <= self.entries@.len(),
                forall|j: int| 0 <= j < i ==> self.entries@[j].0@ != key@,
            decreases self.entries@.len() - i,
        {
            if self.entries[i].0 == *key {
                return Some(i);
            }
            i = i + 1;
        }
        None
    }

    /// The fingerprint recorded for `key`, if any.
    pub fn get(&self, key: &String) -> (r: Option<u64>)
        requires
            self.wf(),
        ensures
            r == (if self@.contains_key(key@) {
                Some(self@[key@])
            } else {
                None::<u64>
            }),
    {
        match self.find(key) {
            Some(i) => Some(self.entries[i].1),
            None => None,
        }
    }

    /// Inserts or overwrites the entry for `key`.
    pub fn insert(&mut self, key: String, fingerprint: u64)
        requires
            old(self).wf(),
        ensures
            final(self).wf(),
            final(self)@ == old(self)@.insert(key@, fingerprint),
    {
        let ghost k = key@;
        let ghost new_model = self.model@.insert(k, fingerprint);
        match self.find(&key) {
            Some(i) => {
                self.entries.set(i, (key, fingerprint));
                self.model = Ghost(new_model);
                assert forall|j: Seq<char>| #[trigger]
                    new_model.contains_key(j) implies exists|n: int|
                    0 <= n < self.entries@.len() && self.entries@[n].0@ == j by {
                    if j != k {
                        let n = choose|n: int|
                            0 <= n < old(self).entries@.len() && old(self).entries@[n].0@ == j;
                        assert(self.entries@[n].0@ == j);
                    } else {
                        assert(self.entries@[i as int].0@ == j);
                    }
                }
            },
            None => {
                self.entries.push((key, fingerprint));
                self.model = Ghost(new_model);
                assert forall|j: Seq<char>| #[trigger]
                    new_model.contains_key(j) implies exists|n: int|
                    0 <= n < self.entries@.len() && self.entries@[n].0@ == j by {
                    if j != k {
                        let n = choose|n: int|
                            0 <= n < old(self).entries@.len() && old(self).entries@[n].0@ == j;
                        assert(self.entries@[n].0@ == j);
                    } else {
                        assert(self.entries@[self.entries@.len() - 1].0@ == j);
                    }
                }
            },
        }
    }

    /// Removes every entry.
    pub fn clear(&mut self)
        ensures
            final(self).wf(),
            final(self)@ == Map::<Seq<char>, u64>::empty(),
    {
        self.entries = Vec::new();
        self.model = Ghost(Map::empty());
    }

    pub fn is_empty(&self) -> (r: bool)
        requires
            self.wf(),
        ensures
            r == (self@ == Map::<Seq<char>, u64>::empty()),
    {
        if self.entries.len() == 0 {
            assert(self@ =~= Map::<Seq<char>, u64>::empty());
            true
        } else {
            assert(self@.contains_key(self.entries@[0].0@));
            false
        }
    }

    /// A copy of every entry, each key once, for persisting the mapping.
    pub fn to_pairs(&self) -> (r: Vec<(String, u64)>)
        requires
            self.wf(),
        ensures
            lists_exactly(r@, self@),
    {
        let mut out: Vec<(String, u64)> = Vec::new();
        let mut i: usize = 0;
        while i < self.entries.len()
            invariant
                self.wf(),
                i <= self.entries@.len(),
                out@.len() == i,
                forall|j: int| 0 <= j < i ==> (#[trigger] out@[j]).0@ == self.entries@[j].0@ && out@[j].1
                    == self.entries@[j].1,
            decreases self.entries@.len() - i,
        {
            let k = self.entries[i].0.clone();
            out.push((k, self.entries[i].1));
            i = i + 1;
        }
        assert forall|k: Seq<char>| #[trigger] self@.contains_key(k) implies exists|n: int|
            0 <= n < out@.len() && out@[n].0@ == k by {
            let n = choose|n: int| 0 <= n < self.entries@.len() && self.entries@[n].0@ == k;
            assert(out@[n].0@ == k);
        }
        assert forall|a: int, b: int| 0 <= a < b < out@.len() implies (#[trigger] out@[a]).0@
            != (#[trigger] out@[b]).0@ by {
            assert(self.entries@[a].0@ != self.entries@[b].0@);
        }
        out
    }
}

/// What a cache holds: one mapping per category.
pub struct CacheView {
    pub ui: Map<Seq<char>, u64>,
    pub translations: Map<Seq<char>, u64>,
    pub assets: Map<Seq<char>, u64>,
}

impl CacheView {
    pub open spec fn get(self, c: Category) -> Map<Seq<char>, u64> {
        match c {
            Category::Ui => self.ui,
            Category::Translations => self.translations,
            Category::Assets => self.assets,
        }
    }

    /// The same cache with the mapping of `c` replaced by `m`.
    pub open spec fn set(self, c: Category, m: Map<Seq<char>, u64>) -> CacheView {
        match c {
            Category::Ui => CacheView { ui: m, ..self },
            Category::Translations => CacheView { translations: m, ..self },
            Category::Assets => CacheView { assets: m, ..self },
        }
    }

    pub open spec fn is_stale(self, c: Category, key: Seq<char>, fingerprint: u64) -> bool {
        stale(self.get(c), key, fingerprint)
    }

    pub open spec fn record(self, c: Category, key: Seq<char>, fingerprint: u64) -> CacheView {
        self.set(c, self.get(c).insert(key, fingerprint))
    }
}

/// The staleness cache: a key to fingerprint mapping for each category.
pub struct Cache {
    pub ui: FingerprintMap,
    pub i18n: FingerprintMap,
    pub assets: FingerprintMap,
}

impl View for Cache {
    type V = CacheView;

    open spec fn view(&self) -> CacheView {
        CacheView { ui: self.ui@, translations: self.i18n@, assets: self.assets@ }
    }
}

impl Cache {
    pub open spec fn wf(&self) -> bool {
        self.ui.wf() && self.i18n.wf() && self.assets.wf()
    }

    /// An empty cache: every key of every category is stale.
    pub fn new() -> (r: Cache)
        ensures
            r.wf(),
            r@.ui == Map::<Seq<char>, u64>::empty(),
            r@.translations == Map::<Seq<char>, u64>::empty(),
            r@.assets == Map::<Seq<char>, u64>::empty(),
    {
        Cache { ui: FingerprintMap::new(), i18n: FingerprintMap::new(), assets: FingerprintMap::new() }
    }

    pub fn is_empty(&self) -> (r: bool)
        requires
            self.wf(),
        ensures
            r == (self@.ui == Map::<Seq<char>, u64>::empty() && self@.translations == Map::<
                Seq<char>,
                u64,
            >::empty() && self@.assets == Map::<Seq<char>, u64>::empty()),
    {
        self.ui.is_empty() && self.i18n.is_empty() && self.assets.is_empty()
    }

    pub fn category(&self, c: Category) -> (r: &FingerprintMap)
        ensures
            r@ == self@.get(c),
            self.wf() ==> r.wf(),
    {
        match c {
            Category::Ui => &self.ui,
            Category::Translations => &self.i18n,
            Category::Assets => &self.assets,
        }
    }

    /// Whether `key` of category `c` has to be processed again.
    pub fn is_stale(&self, c: Category, key: &String, fingerprint: u64) -> (r: bool)
        requires
            self.wf(),
        ensures
            r == self@.is_stale(c, key@, fingerprint),
    {
        match self.category(c).get(key) {
            Some(t) => t < fingerprint,
            None => true,
        }
    }

    /// Records that `key` of category `c` was processed as of `fingerprint`.
    pub fn record(&mut self, c: Category, key: String, fingerprint: u64)
        requires
            old(self).wf(),
        ensures
            final(self).wf(),
            final(self)@ == old(self)@.record(c, key@, fingerprint),
    {
        match c {
            Category::Ui => self.ui.insert(key, fingerprint),
            Category::Translations => self.i18n.insert(key, fingerprint),
            Category::Assets => self.assets.insert(key, fingerprint),
        }
    }

    /// Forgets every entry of category `c`.
    pub fn clear(&mut self, c: Category)
        requires
            old(self).wf(),
        ensures
            final(self).wf(),
            final(self)@ == old(self)@.set(c, Map::<Seq<char>, u64>::empty()),
    {
        match c {
            Category::Ui => self.ui.clear(),
            Category::Translations => self.i18n.clear(),
            Category::Assets => self.assets.clear(),
        }
    }
}

/// Once `key` is recorded at `t`, it is not stale at `t` and is stale at
/// every later fingerprint.
pub proof fn lemma_record_then_stale(
    cache: CacheView,
    c: Category,
    key: Seq<char>,
    t: u64,
    later: u64,
)
    requires
        t < later,
    ensures
        !cache.record(c, key, t).is_stale(c, key, t),
        cache.record(c, key, t).is_stale(c, key, later),
{
}

/// Replacing the mapping of one category, by clearing it or by any other
/// content, leaves the staleness of every key of the other categories as it was.
pub proof fn lemma_category_independence(
    cache: CacheView,
    c: Category,
    m: Map<Seq<char>, u64>,
    other: Category,
    key: Seq<char>,
    fingerprint: u64,
)
    requires
        other != c,
    ensures
        cache.set(c, m).is_stale(other, key, fingerprint) == cache.is_stale(other, key, fingerprint),
{
}

} // verus!

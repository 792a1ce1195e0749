//! The feature-map data model: a mapping from feature name to the module
//! path of the feature's code and its optional initialization call, with
//! unique keys and a stable order.

use vstd::prelude::*;

verus! {

/// One capability module: where its code lives and, if it exposes an
/// exported initialization function, the call that starts it. A passive
/// module (no startup action) has no call.
pub struct FeatureEntry {
    pub path: String,
    pub call: Option<String>,
}

/// Mathematical image of a feature entry.
pub struct FeatureEntryView {
    pub path: Seq<char>,
    pub call: Option<Seq<char>>,
}

impl View for FeatureEntry {
    type V = FeatureEntryView;

    open spec fn view(&self) -> FeatureEntryView {
        FeatureEntryView {
            path: self.path@,
            call: match self.call {
                Option::Some(c) => Option::Some(c@),
                Option::None => Option::None,
            },
        }
    }
}

impl FeatureEntryView {
    /// The entry invariant: the module path is non-empty.
    pub open spec fn wf(self) -> bool {
        self.path.len() > 0
    }
}

impl FeatureEntry {
    /// A structurally equal copy of the entry.
    pub fn duplicate(&self) -> (r: FeatureEntry)
        ensures
            r@ == self@,
    {
        FeatureEntry {
            path: self.path.clone(),
            call: match &self.call {
                Some(c) => Some(c.clone()),
                None => None,
            },
        }
    }
}

/// One name-to-entry binding of a feature map.
pub type MapPair = (Seq<char>, FeatureEntryView);

/// Some binding of `m` carries the key `name`.
pub open spec fn map_has_key(m: Seq<MapPair>, name: Seq<char>) -> bool {
    exists|i: int| 0 <= i < m.len() && m[i].0 == name
}

/// The position of the binding that carries `name` (unique when the keys
/// are unique).
pub open spec fn map_key_at(m: Seq<MapPair>, name: Seq<char>) -> int {
    choose|i: int| 0 <= i < m.len() && m[i].0 == name
}

/// The entry bound to `name`, if any.
pub open spec fn map_get(m: Seq<MapPair>, name: Seq<char>) -> Option<FeatureEntryView> {
    if map_has_key(m, name) {
        Some(m[map_key_at(m, name)].1)
    } else {
        None
    }
}

/// Binding `name` to `entry`: an existing binding is replaced in place,
/// a new one goes to the end.
pub open spec fn map_insert(m: Seq<MapPair>, name: Seq<char>, entry: FeatureEntryView) -> Seq<
    MapPair,
> {
    if map_has_key(m, name) {
        m.update(map_key_at(m, name), (name, entry))
    } else {
        m.push((name, entry))
    }
}

/// The keys of `m` are pairwise distinct.
pub open spec fn map_keys_unique(m: Seq<MapPair>) -> bool {
    forall|i: int, j: int| 0 <= i < j < m.len() ==> m[i].0 != m[j].0
}

/// A mapping from feature name to `FeatureEntry`, built either by the
/// scanner from disk state or synthesized from a profile's enabled list.
/// Insertion order is kept, so regeneration from the same input yields
/// the same map.
pub struct FeatureMap {
    pub entries: Vec<(String, FeatureEntry)>,
}

impl View for FeatureMap {
    type V = Seq<MapPair>;

    open spec fn view(&self) -> Seq<MapPair> {
        self.entries@.map_values(|p: (String, FeatureEntry)| (p.0@, p.1@))
    }
}

impl FeatureMap {
    /// Well-formed: no feature name is bound twice, and every entry keeps
    /// its invariant.
    pub open spec fn wf(self) -> bool {
        &&& map_keys_unique(self@)
        &&& forall|i: int| 0 <= i < self@.len() ==> self@[i].1.wf()
    }

    /// The empty map.
    pub fn new() -> (m: FeatureMap)
        ensures
            m@ =~= Seq::<MapPair>::empty(),
            m.wf(),
    {
        FeatureMap { entries: Vec::new() }
    }

    /// Number of features in the map.
    pub fn len(&self) -> (n: usize)
        ensures
            n == self@.len(),
    {
        self.entries.len()
    }

    /// Position of the binding that carries `name`, if any.
    fn index_of(&self, name: &str) -> (r: Option<usize>)
        ensures
            match r {
                Some(i) => i < self@.len() && self@[i as int].0 == name@,
                None => !map_has_key(self@, name@),
            },
    {
        let mut i: usize = 0;
        while i < self.entries.len()
            invariant
                0 <= i <= self.entries.len(),
                self@.len() == self.entries.len(),
                forall|k: int| 0 <= k < i ==> self@[k].0 != name@,
            decreases self.entries.len() - i,
        {
            if crate::text::str_eq(self.entries[i].0.as_str(), name) {
                return Some(i);
            }
            i = i + 1;
        }
        None
    }

    /// The entry bound to `name`, if any.
    pub fn get(&self, name: &str) -> (r: Option<&FeatureEntry>)
        requires
            self.wf(),
        ensures
            match r {
                Some(e) => map_get(self@, name@) == Some(e@),
                None => map_get(self@, name@) is None,
            },
    {
        match self.index_of(name) {
            Some(i) => {
                proof {
                    let j = map_key_at(self@, name@);
                    assert(0 <= j < self@.len() && self@[j].0 == name@);
                    assert(j == i);
                }
                Some(&self.entries[i].1)
            },
            None => None,
        }
    }

    /// Binds `name` to `entry`, replacing any existing binding for it.
    pub fn insert(&mut self, name: String, entry: FeatureEntry)
        requires
            old(self).wf(),
            entry@.wf(),
        ensures
            final(self)@ == map_insert(old(self)@, name@, entry@),
            final(self).wf(),
    {
        match self.index_of(name.as_str()) {
            Some(i) => {
                proof {
                    let j = map_key_at(self@, name@);
                    assert(0 <= j < self@.len() && self@[j].0 == name@);
                    assert(j == i);
                }
                self.entries.set(i, (name, entry));
                assert(self@ =~= map_insert(old(self)@, name@, entry@));
            },
            None => {
                self.entries.push((name, entry));
                assert(self@ =~= map_insert(old(self)@, name@, entry@));
            },
        }
    }
}

/// The sub-map of `m` for the names in `names`, in list order: each name
/// present in `m` is bound to its entry of `m`; absent names contribute
/// nothing.
pub open spec fn restrict_map(m: Seq<MapPair>, names: Seq<Seq<char>>) -> Seq<MapPair>
    decreases names.len(),
{
    if names.len() == 0 {
        Seq::empty()
    } else {
        match map_get(m, names.last()) {
            Some(e) => map_insert(restrict_map(m, names.drop_last()), names.last(), e),
            None => restrict_map(m, names.drop_last()),
        }
    }
}

impl FeatureMap {
    /// The map restricted to exactly the given names, or the first name
    /// that resolves to no entry. A build must fail on such a name
    /// rather than silently skip it.
    pub fn restrict(&self, names: &Vec<String>) -> (r: Result<FeatureMap, String>)
        requires
            self.wf(),
        ensures
            match r {
                Ok(rm) => {
                    &&& rm@ == restrict_map(self@, names.deep_view())
                    &&& rm.wf()
                    &&& forall|i: int|
                        0 <= i < names.deep_view().len() ==> map_has_key(
                            self@,
                            names.deep_view()[i],
                        )
                },
                Err(missing) => {
                    &&& !map_has_key(self@, missing@)
                    &&& exists|i: int|
                        {
                            &&& 0 <= i < names.deep_view().len()
                            &&& names.deep_view()[i] == missing@
                            &&& forall|k: int|
                                0 <= k < i ==> map_has_key(self@, names.deep_view()[k])
                        }
                },
            },
    {
        let mut rm = FeatureMap::new();
        let mut i: usize = 0;
        while i < names.len()
            invariant
                0 <= i <= names.len(),
                self.wf(),
                rm.wf(),
                rm@ == restrict_map(self@, names.deep_view().take(i as int)),
                forall|k: int| 0 <= k < i ==> map_has_key(self@, names.deep_view()[k]),
            decreases names.len() - i,
        {
            match self.get(names[i].as_str()) {
                Some(e) => {
                    let entry = e.duplicate();
                    proof {
                        let pre = names.deep_view().take(i + 1);
                        assert(pre.drop_last() =~= names.deep_view().take(i as int));
                        assert(pre.last() == names.deep_view()[i as int]);
                    }
                    rm.insert(names[i].clone(), entry);
                },
                None => {
                    proof {
                        assert(names.deep_view()[i as int] == names@[i as int]@);
                        assert(!map_has_key(self@, names@[i as int]@));
                    }
                    return Err(names[i].clone());
                },
            }
            i = i + 1;
        }
        proof {
            assert(names.deep_view().take(names.len() as int) =~= names.deep_view());
        }
        Ok(rm)
    }
}

/// Law: restriction is exact — for pairwise distinct names that all
/// resolve, the restricted map has one binding per name, in list order,
/// each carrying the entry the base map binds to that name.
pub proof fn lemma_restrict_map_distinct(m: Seq<MapPair>, names: Seq<Seq<char>>)
    requires
        forall|i: int, j: int| 0 <= i < j < names.len() ==> names[i] != names[j],
        forall|i: int| 0 <= i < names.len() ==> map_has_key(m, names[i]),
    ensures
        restrict_map(m, names).len() == names.len(),
        forall|i: int|
            0 <= i < names.len() ==> (#[trigger] restrict_map(m, names)[i]).0 == names[i]
                && Some(restrict_map(m, names)[i].1) == map_get(m, names[i]),
    decreases names.len(),
{
    if names.len() > 0 {
        let pre = names.drop_last();
        let last = names.last();
        lemma_restrict_map_distinct(m, pre);
        let prev = restrict_map(m, pre);
        let e = map_get(m, last)->Some_0;
        if map_has_key(prev, last) {
            let i = map_key_at(prev, last);
            assert(prev[i].0 == pre[i]);
            assert(false);
        }
        assert(restrict_map(m, names) == prev.push((last, e)));
        assert forall|i: int| 0 <= i < names.len() implies (#[trigger] restrict_map(m, names)[i]).0
            == names[i] && Some(restrict_map(m, names)[i].1) == map_get(m, names[i]) by {
            if i < names.len() - 1 {
                assert(prev[i].0 == pre[i]);
            }
        }
    }
}

/// The entry synthesized for an enabled feature name: the path is the
/// name itself and the initialization call is the literal `init()`.
pub open spec fn synth_entry(name: Seq<char>) -> FeatureEntryView {
    FeatureEntryView { path: name, call: Some("init()"@) }
}

/// The map synthesized from an enabled-feature list, one binding per
/// distinct name, in first-appearance order.
pub open spec fn synth_map(names: Seq<Seq<char>>) -> Seq<MapPair>
    decreases names.len(),
{
    if names.len() == 0 {
        Seq::empty()
    } else {
        map_insert(synth_map(names.drop_last()), names.last(), synth_entry(names.last()))
    }
}

/// Synthesizes a feature map directly from a profile's enabled-feature
/// list, bypassing any directory scan: one entry per name, the path
/// equal to the name, the call the literal `init()`.
pub fn generate_feature_map_from_vec(names: &Vec<String>) -> (m: FeatureMap)
    requires
        forall|i: int| 0 <= i < names.deep_view().len() ==> names.deep_view()[i].len() > 0,
    ensures
        m@ == synth_map(names.deep_view()),
        m.wf(),
{
    let mut m = FeatureMap::new();
    let mut i: usize = 0;
    while i < names.len()
        invariant
            0 <= i <= names.len(),
            forall|k: int| 0 <= k < names.deep_view().len() ==> names.deep_view()[k].len() > 0,
            m@ == synth_map(names.deep_view().take(i as int)),
            m.wf(),
        decreases names.len() - i,
    {
        let name = names[i].clone();
        let entry = FeatureEntry { path: names[i].clone(), call: Some(init_call_string()) };
        proof {
            let pre = names.deep_view().take(i + 1);
            assert(pre.drop_last() =~= names.deep_view().take(i as int));
            assert(pre.last() == names.deep_view()[i as int]);
            assert(entry@ == synth_entry(names.deep_view()[i as int]));
            assert(entry@.wf());
        }
        m.insert(name, entry);
        i = i + 1;
    }
    proof {
        assert(names.deep_view().take(names.len() as int) =~= names.deep_view());
    }
    m
}

/// Law: map synthesis is exact — for pairwise distinct enabled names the
/// synthesized map has one binding per name, in list order, each binding
/// the name to the name itself as path with the literal initialization
/// call.
pub proof fn lemma_synth_map_distinct(names: Seq<Seq<char>>)
    requires
        forall|i: int, j: int| 0 <= i < j < names.len() ==> names[i] != names[j],
    ensures
        synth_map(names).len() == names.len(),
        forall|i: int|
            0 <= i < names.len() ==> synth_map(names)[i] == (names[i], synth_entry(names[i])),
    decreases names.len(),
{
    if names.len() > 0 {
        let pre = names.drop_last();
        let last = names.last();
        lemma_synth_map_distinct(pre);
        let prev = synth_map(pre);
        if map_has_key(prev, last) {
            let i = map_key_at(prev, last);
            assert(prev[i].0 == names[i]);
            assert(false);
        }
        assert(synth_map(names) == prev.push((last, synth_entry(last))));
        assert forall|i: int| 0 <= i < names.len() implies synth_map(names)[i] == (
            names[i],
            synth_entry(names[i]),
        ) by {
            if i < names.len() - 1 {
                assert(prev[i] == (pre[i], synth_entry(pre[i])));
            }
        }
    }
}

/// The literal initialization call recorded for synthesized entries.
pub fn init_call_string() -> (r: String)
    ensures
        r@ == "init()"@,
{
    let r: String = String::from_str("init()");
    r
}

} // verus!

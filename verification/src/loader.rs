//! The loader generator: from a feature map restricted to the enabled
//! set, the source of one generated module whose single entry function
//! performs every enabled feature's initialization call. The output is a
//! pure function of the map, so regeneration with an unchanged map is
//! byte-identical; writing the file happens outside the library.

use vstd::prelude::*;
use crate::feature_map::{FeatureMap, MapPair, map_has_key, restrict_map};

verus! {

/// The import line the loader emits for one feature's module path.
pub open spec fn loader_use_line(path: Seq<char>) -> Seq<char> {
    "use crate::features::"@ + path + ";\n"@
}

/// The statement the loader emits for one feature's initialization call.
pub open spec fn loader_call_line(path: Seq<char>, call: Seq<char>) -> Seq<char> {
    "    crate::features::"@ + path + "::"@ + call + ";\n"@
}

/// The import lines for all entries, in map order.
pub open spec fn loader_use_lines(m: Seq<MapPair>) -> Seq<char>
    decreases m.len(),
{
    if m.len() == 0 {
        Seq::empty()
    } else {
        loader_use_lines(m.drop_last()) + loader_use_line(m.last().1.path)
    }
}

/// The call statements for the entries that carry a call, in map order.
pub open spec fn loader_call_lines(m: Seq<MapPair>) -> Seq<char>
    decreases m.len(),
{
    if m.len() == 0 {
        Seq::empty()
    } else {
        loader_call_lines(m.drop_last()) + match m.last().1.call {
            Option::Some(c) => loader_call_line(m.last().1.path, c),
            Option::None => Seq::<char>::empty(),
        }
    }
}

/// The whole loader module: the imports, then one entry function that
/// performs every present initialization call.
pub open spec fn loader_source_spec(m: Seq<MapPair>) -> Seq<char> {
    loader_use_lines(m) + "\npub fn init_features() {\n"@ + loader_call_lines(m) + "}\n"@
}

/// Emits the loader module for a feature map already restricted to the
/// enabled set.
pub fn generate_loader_source(map: &FeatureMap) -> (r: String)
    ensures
        r@ == loader_source_spec(map@),
{
    let n = map.len();
    let mut uses = String::new();
    let mut calls = String::new();
    let mut i: usize = 0;
    while i < n
        invariant
            0 <= i <= n,
            n == map@.len(),
            map@.len() == map.entries@.len(),
            uses@ == loader_use_lines(map@.take(i as int)),
            calls@ == loader_call_lines(map@.take(i as int)),
        decreases n - i,
    {
        let entry = &map.entries[i].1;
        uses.append("use crate::features::");
        uses.append(entry.path.as_str());
        uses.append(";\n");
        match &entry.call {
            Some(c) => {
                calls.append("    crate::features::");
                calls.append(entry.path.as_str());
                calls.append("::");
                calls.append(c.as_str());
                calls.append(";\n");
            },
            None => {},
        }
        proof {
            let pre = map@.take(i + 1);
            assert(pre.drop_last() =~= map@.take(i as int));
            assert(pre.last() == map@[i as int]);
            assert(uses@ =~= loader_use_lines(pre));
            assert(calls@ =~= loader_call_lines(pre));
        }
        i = i + 1;
    }
    proof {
        assert(map@.take(map@.len() as int) =~= map@);
    }
    let mut out = uses;
    out.append("\npub fn init_features() {\n");
    out.append(calls.as_str());
    out.append("}\n");
    proof {
        assert(out@ =~= loader_source_spec(map@));
    }
    out
}

/// Law: loader generation is deterministic — the loader source is a
/// function of the feature map alone, so generating twice from the same
/// map produces byte-identical output.
pub proof fn lemma_loader_deterministic(m1: Seq<MapPair>, m2: Seq<MapPair>)
    requires
        m1 == m2,
    ensures
        loader_source_spec(m1) == loader_source_spec(m2),
{
}

/// Why loader generation was refused: an enabled name the map cannot
/// resolve, or two resolved entries that share one module path — a loader
/// emitted for them would import the same module twice and fail to
/// compile.
#[derive(Debug, PartialEq, Eq)]
pub enum LoaderError {
    UnresolvedFeature(String),
    ConflictingPath(String),
}

/// Two bindings of `m` carry the same module path.
pub open spec fn paths_conflict(m: Seq<MapPair>) -> bool {
    exists|i: int, j: int| 0 <= i < j < m.len() && m[i].1.path == m[j].1.path
}

/// A module path two bindings of the map share, if any.
fn find_conflicting_path(map: &FeatureMap) -> (r: Option<String>)
    ensures
        match r {
            Some(p) => exists|i: int, j: int|
                0 <= i < j < map@.len() && map@[i].1.path == map@[j].1.path && map@[j].1.path
                    == p@,
            None => !paths_conflict(map@),
        },
{
    let n = map.entries.len();
    let mut j: usize = 1;
    while j < n
        invariant
            1 <= j <= n || (n == 0 && j == 1),
            n == map@.len(),
            map@.len() == map.entries@.len(),
            forall|a: int, b: int| 0 <= a < b < j ==> map@[a].1.path != map@[b].1.path,
        decreases n - j,
    {
        let mut i: usize = 0;
        while i < j
            invariant
                0 <= i <= j < n,
                n == map@.len(),
                map@.len() == map.entries@.len(),
                forall|a: int| 0 <= a < i ==> map@[a].1.path != map@[j as int].1.path,
            decreases j - i,
        {
            if crate::text::str_eq(map.entries[i].1.path.as_str(), map.entries[j].1.path.as_str())
            {
                proof {
                    assert(map@[i as int].1.path == map.entries@[i as int].1.path@);
                    assert(map@[j as int].1.path == map.entries@[j as int].1.path@);
                    assert(0 <= i < j < map@.len() && map@[i as int].1.path == map@[
                        j as int
                    ].1.path);
                }
                return Some(map.entries[j].1.path.clone());
            }
            i = i + 1;
        }
        j = j + 1;
    }
    None
}

/// Reconciles the profile's enabled names against the map and emits the
/// loader for exactly those features, or reports the first name that the
/// map cannot resolve or a module path bound twice; nothing is emitted
/// then, so no loader file is touched.
pub fn generate_loader_for(map: &FeatureMap, enabled: &Vec<String>) -> (r: Result<
    String,
    LoaderError,
>)
    requires
        map.wf(),
    ensures
        match r {
            Ok(src) => {
                &&& src@ == loader_source_spec(restrict_map(map@, enabled.deep_view()))
                &&& forall|i: int|
                    0 <= i < enabled.deep_view().len() ==> map_has_key(
                        map@,
                        enabled.deep_view()[i],
                    )
                &&& !paths_conflict(restrict_map(map@, enabled.deep_view()))
            },
            Err(e) => match e {
                LoaderError::UnresolvedFeature(missing) => {
                    &&& !map_has_key(map@, missing@)
                    &&& exists|i: int|
                        0 <= i < enabled.deep_view().len() && enabled.deep_view()[i] == missing@
                },
                LoaderError::ConflictingPath(p) => {
                    &&& exists|i: int, j: int|
                        0 <= i < j < restrict_map(map@, enabled.deep_view()).len() && (
                        #[trigger] restrict_map(map@, enabled.deep_view())[i]).1.path == (
                        #[trigger] restrict_map(map@, enabled.deep_view())[j]).1.path
                            && restrict_map(map@, enabled.deep_view())[j].1.path == p@
                    &&& forall|i: int|
                        0 <= i < enabled.deep_view().len() ==> map_has_key(
                            map@,
                            enabled.deep_view()[i],
                        )
                },
            },
        },
{
    match map.restrict(enabled) {
        Ok(rm) => match find_conflicting_path(&rm) {
            Some(p) => Err(LoaderError::ConflictingPath(p)),
            None => Ok(generate_loader_source(&rm)),
        },
        Err(missing) => Err(LoaderError::UnresolvedFeature(missing)),
    }
}

} // verus!

//! The build-profile model: the declarative record naming a target,
//! release and strip flags, and the ordered list of enabled features, and
//! the reconciliation steps a build performs on it. Loading the profile
//! from its configuration document happens outside the library.

use vstd::prelude::*;
use crate::text::{join_sep, join_strings, str_eq, trim_spec, trim_string};

verus! {

/// A build profile: a name, an optional compilation target triple,
/// optional release and strip flags (absent means false), and the ordered
/// list of enabled feature names. The order of `enabled_features` is
/// significant: it determines initialization order and is preserved
/// verbatim through reconciliation.
pub struct BuildProfile {
    pub name: String,
    pub target: Option<String>,
    pub release: Option<bool>,
    pub strip: Option<bool>,
    pub enabled_features: Vec<String>,
}

/// The compilation target assumed when the profile names none.
pub open spec fn default_target_spec() -> Seq<char> {
    "x86_64-unknown-linux-musl"@
}

/// The compilation target assumed when the profile names none.
pub fn default_target() -> (r: String)
    ensures
        r@ == default_target_spec(),
{
    let r: String = String::from_str("x86_64-unknown-linux-musl");
    r
}

/// A feature name of the network-listener category: at most one of these
/// may be active, so an override replaces them all.
pub open spec fn is_listener_name(s: Seq<char>) -> bool {
    s == "http"@ || s == "socket"@
}

/// Decision procedure for `is_listener_name`.
pub fn is_listener(name: &str) -> (r: bool)
    ensures
        r == is_listener_name(name@),
{
    str_eq(name, "http") || str_eq(name, "socket")
}

/// `features` with every listener-category name removed, order kept.
pub open spec fn drop_listeners(features: Seq<Seq<char>>) -> Seq<Seq<char>>
    decreases features.len(),
{
    if features.len() == 0 {
        Seq::empty()
    } else if is_listener_name(features.last()) {
        drop_listeners(features.drop_last())
    } else {
        drop_listeners(features.drop_last()).push(features.last())
    }
}

/// The enabled list after a listener override: every prior
/// listener-category feature removed, the override appended at the end.
pub open spec fn override_spec(features: Seq<Seq<char>>, listener: Seq<char>) -> Seq<Seq<char>> {
    drop_listeners(features).push(listener)
}

/// Applies a listener override to the enabled-feature list: both prior
/// listener-category features are removed and the override is appended.
pub fn apply_listener_override(features: &mut Vec<String>, listener: String)
    ensures
        final(features).deep_view() == override_spec(old(features).deep_view(), listener@),
{
    let mut out: Vec<String> = Vec::new();
    let mut i: usize = 0;
    let n = features.len();
    while i < n
        invariant
            0 <= i <= n,
            n == features@.len(),
            features@ == old(features)@,
            out.deep_view() == drop_listeners(features.deep_view().take(i as int)),
        decreases n - i,
    {
        proof {
            let pre = features.deep_view().take(i + 1);
            assert(pre.drop_last() =~= features.deep_view().take(i as int));
            assert(pre.last() == features.deep_view()[i as int]);
            assert(features.deep_view()[i as int] == features@[i as int]@);
        }
        if !is_listener(features[i].as_str()) {
            let kept = features[i].clone();
            out.push(kept);
            proof {
                assert(out.deep_view() =~= drop_listeners(features.deep_view().take(i + 1)));
            }
        }
        i = i + 1;
    }
    proof {
        assert(features.deep_view().take(n as int) =~= features.deep_view());
    }
    out.push(listener);
    proof {
        assert(out.deep_view() =~= override_spec(old(features).deep_view(), listener@));
    }
    *features = out;
}

/// The text of a flag as the external build environment expects it.
pub open spec fn bool_text(b: bool) -> Seq<char> {
    if b {
        "true"@
    } else {
        "false"@
    }
}

/// The text of a flag as the external build environment expects it.
pub fn bool_string(b: bool) -> (r: String)
    ensures
        r@ == bool_text(b),
{
    if b {
        let r: String = String::from_str("true");
        r
    } else {
        let r: String = String::from_str("false");
        r
    }
}

/// The parameters handed to the external build environment, all plain
/// text: `PROFILE`, `TARGET`, `RELEASE`, `STRIP` and the comma-joined
/// `FEATURES`.
pub struct BuildArgs {
    pub profile: String,
    pub target: String,
    pub release: String,
    pub strip: String,
    pub features: String,
}

impl BuildProfile {
    /// Assembles the build parameters from the profile: the name trimmed
    /// of whitespace, the target defaulted when absent, the flags
    /// defaulted to false, and the enabled features joined by commas in
    /// their profile order.
    pub fn build_args(&self) -> (a: BuildArgs)
        ensures
            a.profile@ == trim_spec(self.name@),
            a.target@ == match self.target {
                Option::Some(t) => t@,
                Option::None => default_target_spec(),
            },
            a.release@ == bool_text(self.release.unwrap_or(false)),
            a.strip@ == bool_text(self.strip.unwrap_or(false)),
            a.features@ == join_sep(self.enabled_features.deep_view(), ","@),
    {
        let profile = trim_string(self.name.as_str());
        let target = match &self.target {
            Some(t) => t.clone(),
            None => default_target(),
        };
        let release = bool_string(self.release.unwrap_or(false));
        let strip = bool_string(self.strip.unwrap_or(false));
        let features = join_strings(&self.enabled_features, ",");
        BuildArgs { profile, target, release, strip, features }
    }
}

} // verus!

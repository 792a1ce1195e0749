//! The build orchestrator's decisions: which step to take given the state
//! of the external build environment, and which cached environment images
//! a cleanup removes. Probing the engine, building images and running the
//! compilation happen outside the library and report back plain values.

use vstd::prelude::*;
use crate::text::{split_on, split_string, starts_with, starts_with_spec, trim_spec, trim_string};

verus! {

/// What the orchestrator does next: fail fast when the engine is
/// unreachable, build the environment image first when it is missing, or
/// reuse the cached image and only run the compilation.
#[derive(PartialEq, Eq, Structural, Debug)]
pub enum CompilePlan {
    EngineUnavailable,
    BuildImageThenRun,
    RunOnly,
}

/// The plan for the probed engine state: the environment image is a cache
/// keyed by a fixed name, so it is reused whenever it exists.
pub fn compile_plan(engine_running: bool, image_exists: bool) -> (r: CompilePlan)
    ensures
        r == if !engine_running {
            CompilePlan::EngineUnavailable
        } else if !image_exists {
            CompilePlan::BuildImageThenRun
        } else {
            CompilePlan::RunOnly
        },
{
    if !engine_running {
        CompilePlan::EngineUnavailable
    } else if !image_exists {
        CompilePlan::BuildImageThenRun
    } else {
        CompilePlan::RunOnly
    }
}

/// The fixed name of the cached build-environment image.
pub open spec fn builder_image_spec() -> Seq<char> {
    "keiros-builder"@
}

/// The fixed name of the cached build-environment image.
pub fn builder_image_name() -> (r: String)
    ensures
        r@ == builder_image_spec(),
{
    let r: String = String::from_str("keiros-builder");
    r
}

/// The fixed directory the compiled artifacts are collected into.
pub open spec fn output_dir_spec() -> Seq<char> {
    "target_output"@
}

/// The fixed directory the compiled artifacts are collected into.
pub fn output_dir_name() -> (r: String)
    ensures
        r@ == output_dir_spec(),
{
    let r: String = String::from_str("target_output");
    r
}

/// The prefix that marks an image as belonging to this pipeline.
pub open spec fn image_prefix() -> Seq<char> {
    "keiros-"@
}

/// The keep-list as cleanup reads it: comma-separated, each item trimmed,
/// empty items dropped.
pub open spec fn keep_list_rec(parts: Seq<Seq<char>>) -> Seq<Seq<char>>
    decreases parts.len(),
{
    if parts.len() == 0 {
        Seq::empty()
    } else if trim_spec(parts.last()).len() == 0 {
        keep_list_rec(parts.drop_last())
    } else {
        keep_list_rec(parts.drop_last()).push(trim_spec(parts.last()))
    }
}

/// The keep-list parsed out of the raw comma-separated option text.
pub open spec fn keep_list_spec(s: Seq<char>) -> Seq<Seq<char>> {
    keep_list_rec(split_on(s, ','))
}

/// Parses the cleanup keep-list: split at commas, each piece trimmed of
/// whitespace, empty pieces dropped.
pub fn parse_keep_list(s: &str) -> (r: Vec<String>)
    ensures
        r.deep_view() == keep_list_spec(s@),
{
    let parts = split_string(s, ',');
    let mut out: Vec<String> = Vec::new();
    let mut i: usize = 0;
    let n = parts.len();
    while i < n
        invariant
            0 <= i <= n,
            n == parts@.len(),
            parts.deep_view() == split_on(s@, ','),
            out.deep_view() == keep_list_rec(parts.deep_view().take(i as int)),
        decreases n - i,
    {
        proof {
            let pre = parts.deep_view().take(i + 1);
            assert(pre.drop_last() =~= parts.deep_view().take(i as int));
            assert(pre.last() == parts.deep_view()[i as int]);
            assert(parts.deep_view()[i as int] == parts@[i as int]@);
        }
        let t = trim_string(parts[i].as_str());
        if t.unicode_len() > 0 {
            out.push(t);
            proof {
                assert(out.deep_view() =~= keep_list_rec(parts.deep_view().take(i + 1)));
            }
        }
        i = i + 1;
    }
    proof {
        assert(parts.deep_view().take(n as int) =~= parts.deep_view());
    }
    out
}

/// An image name one of the keep-prefixes protects from removal.
pub open spec fn keep_protected(name: Seq<char>, keeps: Seq<Seq<char>>) -> bool {
    exists|i: int| 0 <= i < keeps.len() && starts_with_spec(name, keeps[i])
}

/// Decision procedure for `keep_protected`.
pub fn is_keep_protected(name: &str, keeps: &Vec<String>) -> (r: bool)
    ensures
        r == keep_protected(name@, keeps.deep_view()),
{
    let mut i: usize = 0;
    let n = keeps.len();
    while i < n
        invariant
            0 <= i <= n,
            n == keeps@.len(),
            forall|k: int| 0 <= k < i ==> !starts_with_spec(name@, keeps.deep_view()[k]),
        decreases n - i,
    {
        proof {
            assert(keeps.deep_view()[i as int] == keeps@[i as int]@);
        }
        if starts_with(name, keeps[i].as_str()) {
            return true;
        }
        i = i + 1;
    }
    false
}

/// The image names a cleanup removes, in listing order: those that carry
/// the pipeline's prefix and that no keep-prefix protects.
pub open spec fn removal_set(images: Seq<Seq<char>>, keeps: Seq<Seq<char>>) -> Seq<Seq<char>>
    decreases images.len(),
{
    if images.len() == 0 {
        Seq::empty()
    } else if starts_with_spec(images.last(), image_prefix()) && !keep_protected(
        images.last(),
        keeps,
    ) {
        removal_set(images.drop_last(), keeps).push(images.last())
    } else {
        removal_set(images.drop_last(), keeps)
    }
}

/// Selects the images a cleanup removes from the engine's listing: those
/// with the pipeline's prefix, minus the ones a keep-prefix protects.
pub fn select_images_for_removal(images: &Vec<String>, keeps: &Vec<String>) -> (r: Vec<String>)
    ensures
        r.deep_view() == removal_set(images.deep_view(), keeps.deep_view()),
{
    let mut out: Vec<String> = Vec::new();
    let mut i: usize = 0;
    let n = images.len();
    while i < n
        invariant
            0 <= i <= n,
            n == images@.len(),
            out.deep_view() == removal_set(images.deep_view().take(i as int), keeps.deep_view()),
        decreases n - i,
    {
        proof {
            let pre = images.deep_view().take(i + 1);
            assert(pre.drop_last() =~= images.deep_view().take(i as int));
            assert(pre.last() == images.deep_view()[i as int]);
            assert(images.deep_view()[i as int] == images@[i as int]@);
        }
        if starts_with(images[i].as_str(), "keiros-") && !is_keep_protected(
            images[i].as_str(),
            keeps,
        ) {
            let name = images[i].clone();
            out.push(name);
            proof {
                assert(out.deep_view() =~= removal_set(
                    images.deep_view().take(i + 1),
                    keeps.deep_view(),
                ));
            }
        }
        i = i + 1;
    }
    proof {
        assert(images.deep_view().take(n as int) =~= images.deep_view());
    }
    out
}

} // verus!

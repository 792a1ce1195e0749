//! The feature scanner's structural core: turning the source files found
//! under a tree root into a feature map. Walking the tree and reading the
//! files happens outside the library; the scanner receives each file as
//! its path segments (root prefix stripped, extension stripped) and its
//! text.

use vstd::prelude::*;
use crate::feature_map::{FeatureEntry, FeatureEntryView, FeatureMap, MapPair, map_insert};
use crate::text::{contains_sub, has_sub, join_sep, join_strings};

verus! {

/// One source file handed to the scanner: the path segments from the tree
/// root to the file, and the file's text.
pub struct ScannedFile {
    pub segments: Vec<String>,
    pub content: String,
}

/// Mathematical image of a scanned file.
pub struct ScannedFileView {
    pub segments: Seq<Seq<char>>,
    pub content: Seq<char>,
}

impl View for ScannedFile {
    type V = ScannedFileView;

    open spec fn view(&self) -> ScannedFileView {
        ScannedFileView { segments: self.segments.deep_view(), content: self.content@ }
    }
}

/// The textual convention that marks an exported initialization function.
pub open spec fn init_marker() -> Seq<char> {
    "pub fn init"@
}

/// The feature name under which a scanned file is keyed: its base name,
/// the last path segment.
pub open spec fn scan_name(f: ScannedFileView) -> Seq<char> {
    f.segments.last()
}

/// The entry a scanned file contributes: the module path joins all
/// segments with the module-separator convention, and the initialization
/// call is present exactly when the file's text contains the marker.
pub open spec fn scan_entry(f: ScannedFileView) -> FeatureEntryView {
    FeatureEntryView {
        path: join_sep(f.segments, "::"@),
        call: if has_sub(f.content, init_marker()) {
            Some("init()"@)
        } else {
            None
        },
    }
}

/// The views of the scanned files, in scan order.
pub open spec fn file_views(files: Seq<ScannedFile>) -> Seq<ScannedFileView> {
    files.map_values(|f: ScannedFile| f@)
}

/// The map a scan produces: each file keyed by its base name, a later
/// file with the same base name replacing an earlier one.
pub open spec fn scan_map(files: Seq<ScannedFileView>) -> Seq<MapPair>
    decreases files.len(),
{
    if files.len() == 0 {
        Seq::empty()
    } else {
        map_insert(scan_map(files.drop_last()), scan_name(files.last()), scan_entry(files.last()))
    }
}

/// Builds the feature map for a fixed tree snapshot: deterministic in the
/// given file list. Detection is a textual substring check, sound for the
/// convention but not robust to comments or strings that contain the
/// marker.
pub fn scan_features(files: &Vec<ScannedFile>) -> (m: FeatureMap)
    requires
        forall|i: int| 0 <= i < files@.len() ==> files@[i]@.segments.len() > 0,
        forall|i: int, j: int|
            0 <= i < files@.len() && 0 <= j < files@[i]@.segments.len()
                ==> files@[i]@.segments[j].len() > 0,
    ensures
        m@ == scan_map(file_views(files@)),
        m.wf(),
{
    let mut m = FeatureMap::new();
    let mut i: usize = 0;
    while i < files.len()
        invariant
            0 <= i <= files.len(),
            forall|k: int| 0 <= k < files@.len() ==> files@[k]@.segments.len() > 0,
            forall|k: int, j: int|
                0 <= k < files@.len() && 0 <= j < files@[k]@.segments.len()
                    ==> files@[k]@.segments[j].len() > 0,
            m@ == scan_map(file_views(files@).take(i as int)),
            m.wf(),
        decreases files.len() - i,
    {
        let f = &files[i];
        let name = f.segments[f.segments.len() - 1].clone();
        let path = join_strings(&f.segments, "::");
        let has_init = contains_sub(f.content.as_str(), "pub fn init");
        let call = if has_init {
            Some(crate::feature_map::init_call_string())
        } else {
            None
        };
        let entry = FeatureEntry { path, call };
        proof {
            let pre = file_views(files@).take(i + 1);
            assert(pre.drop_last() =~= file_views(files@).take(i as int));
            assert(pre.last() == files@[i as int]@);
            assert(name@ == scan_name(files@[i as int]@));
            assert(entry@ == scan_entry(files@[i as int]@));
            assert(entry@.path.len() > 0) by {
                let parts = files@[i as int]@.segments;
                if parts.len() == 1 {
                    assert(join_sep(parts, "::"@) == parts[0]);
                } else {
                    assert(join_sep(parts, "::"@) == parts[0] + "::"@ + join_sep(
                        parts.drop_first(),
                        "::"@,
                    ));
                }
            }
        }
        m.insert(name, entry);
        i = i + 1;
    }
    proof {
        assert(file_views(files@).take(files@.len() as int) =~= file_views(files@));
    }
    m
}

} // verus!

//! The entry-point patcher: brings the program's entry file to the fully
//! patched state — loader module declared and its initialization call
//! injected exactly once — from any starting state, touching only the
//! necessary text. Reading and writing the file happens outside the
//! library; the patcher maps old text to new text.

use vstd::prelude::*;
use crate::text::{
    contains_sub, has_sub, join_sep, join_strings, lemma_sub_in_left, lemma_sub_in_right,
    lemma_sub_survives_insert, occurs_at, split_on, split_string, starts_with, starts_with_spec,
    trim_start_spec, trim_start_str,
};

verus! {

/// The statement whose presence marks an already injected loader call.
pub open spec fn loader_call_marker() -> Seq<char> {
    "init_features();"@
}

/// The import whose presence marks an already declared loader module.
pub open spec fn loader_decl_marker() -> Seq<char> {
    "use feature_loader::init_features;"@
}

/// The declaration block inserted before the entry function when the
/// loader module is not yet declared, led by a machine-readable marker
/// comment so later runs can see it is there.
pub open spec fn loader_decl_block() -> Seq<char> {
    "\n// AUTO-GENERATED\nmod feature_loader;\nuse feature_loader::init_features;\n"@
}

/// The statement inserted right after the entry function's opening brace.
pub open spec fn call_insertion() -> Seq<char> {
    "\n    init_features();"@
}

/// Entry-point text carries the loader call.
pub open spec fn has_loader_call(s: Seq<char>) -> bool {
    has_sub(s, loader_call_marker())
}

/// Entry-point text carries the loader-module declaration.
pub open spec fn has_loader_decl(s: Seq<char>) -> bool {
    has_sub(s, loader_decl_marker())
}

/// The three states of the entry-point state machine. Text with the call
/// but no declaration is outside the state machine and maps to no state.
pub enum EntryState {
    Unpatched,
    ModuleDeclared,
    FullyPatched,
}

/// The state the entry-point text is in, if any.
pub open spec fn entry_state(s: Seq<char>) -> Option<EntryState> {
    if has_loader_decl(s) && has_loader_call(s) {
        Some(EntryState::FullyPatched)
    } else if has_loader_decl(s) {
        Some(EntryState::ModuleDeclared)
    } else if !has_loader_call(s) {
        Some(EntryState::Unpatched)
    } else {
        None
    }
}

/// Where the entry-function signature pattern first matches, as the split
/// of the text into the part before the match, the matched signature, and
/// the rest; a function of the text alone.
pub uninterp spec fn entry_sig_split(s: Seq<char>) -> Option<(Seq<char>, Seq<char>, Seq<char>)>;

/// Relies on `regex::Regex::find` with the fixed entry-function pattern
/// `fn\s+main\s*\(\s*\)\s*\{`: `find` returns the leftmost match as a
/// function of the text alone, its byte range lies on character
/// boundaries, so the text splits exactly into the part before the match,
/// the matched text, and the rest; a match is nonempty and ends with the
/// one `{` the pattern requires.
#[verifier::external_body]
fn split_at_entry_sig(content: &str) -> (r: Option<(String, String, String)>)
    ensures
        match r {
            Some(p) => entry_sig_split(content@) == Some((p.0@, p.1@, p.2@)) && p.0@ + p.1@ + p.2@
                == content@ && p.1@.len() > 0 && p.1@[p.1@.len() - 1] == '{',
            None => entry_sig_split(content@) is None,
        },
{
    let re = regex::Regex::new(r"fn\s+main\s*\(\s*\)\s*\{").unwrap();
    match re.find(content) {
        Some(m) => Some((
            content[..m.start()].to_string(),
            content[m.start()..m.end()].to_string(),
            content[m.end()..].to_string(),
        )),
        None => None,
    }
}

/// The patched text assembled from the three pieces of the entry file:
/// the declaration block goes in front of the signature unless the
/// declaration is already present, and the call goes right after the
/// signature's opening brace.
pub open spec fn patched_parts(
    h: Seq<char>,
    m: Seq<char>,
    t: Seq<char>,
    decl_present: bool,
) -> Seq<char> {
    if decl_present {
        h + m + call_insertion() + t
    } else {
        h + loader_decl_block() + m + call_insertion() + t
    }
}

/// How a successful patch relates output text to input text: text that
/// already carries the call is returned unchanged; otherwise the text
/// splits at an entry-function signature (nonempty, ending in the opening
/// brace) and the insertions are made around it.
pub open spec fn patch_rel(s: Seq<char>, out: Seq<char>) -> bool {
    if has_loader_call(s) {
        out == s
    } else {
        exists|h: Seq<char>, m: Seq<char>, t: Seq<char>|
            {
                &&& s == h + m + t
                &&& m.len() > 0
                &&& m[m.len() - 1] == '{'
                &&& out == patched_parts(h, m, t, has_loader_decl(s))
            }
    }
}

/// The patch failed: no entry function was found.
#[derive(Debug)]
pub enum PatchError {
    EntryFunctionNotFound,
}

impl PatchError {
    /// A diagnostic for the operator.
    pub fn message(&self) -> (r: String)
        ensures
            r@ == "entry function not found in entry-point file"@,
    {
        let r: String = String::from_str("entry function not found in entry-point file");
        r
    }
}

/// Rewrites entry-point text so that it declares the loader module and
/// invokes its initialization function exactly once. Returns the new text
/// and whether it differs from the input (text already carrying the call
/// is returned unchanged), or fails when no entry function matches the
/// structural pattern; nothing is rewritten then.
pub fn patch_entry_source(content: &str) -> (r: Result<(String, bool), PatchError>)
    ensures
        match r {
            Ok(p) => {
                &&& patch_rel(content@, p.0@)
                &&& p.1 == !has_loader_call(content@)
                &&& (has_loader_call(content@) ==> p.0@ == content@)
                &&& (!has_loader_call(content@) ==> match entry_sig_split(content@) {
                    Some(q) => p.0@ == patched_parts(q.0, q.1, q.2, has_loader_decl(content@)),
                    None => false,
                })
            },
            Err(_) => true,
        },
        r is Err <==> !has_loader_call(content@) && entry_sig_split(content@) is None,
{
    if contains_sub(content, "init_features();") {
        return Ok((content.to_owned(), false));
    }
    match split_at_entry_sig(content) {
        None => Err(PatchError::EntryFunctionNotFound),
        Some((head, sig, tail)) => {
            let decl_present = contains_sub(content, "use feature_loader::init_features;");
            let mut out = String::new();
            out.append(head.as_str());
            if !decl_present {
                out.append("\n// AUTO-GENERATED\nmod feature_loader;\nuse feature_loader::init_features;\n");
            }
            out.append(sig.as_str());
            out.append("\n    init_features();");
            out.append(tail.as_str());
            proof {
                assert(out@ == patched_parts(
                    head@,
                    sig@,
                    tail@,
                    has_loader_decl(content@),
                )) by {
                    if decl_present {
                        assert(out@ =~= head@ + sig@ + call_insertion() + tail@);
                    } else {
                        assert(out@ =~= head@ + loader_decl_block() + sig@ + call_insertion()
                            + tail@);
                    }
                }
                assert(patch_rel(content@, out@)) by {
                    let h = head@;
                    let m = sig@;
                    let t = tail@;
                    assert(content@ == h + m + t && m.len() > 0 && m[m.len() - 1] == '{'
                        && out@ == patched_parts(h, m, t, has_loader_decl(content@)));
                }
            }
            Ok((out, true))
        },
    }
}

/// The call statement inserted by the patcher carries the call marker.
proof fn lemma_insertion_has_call_marker()
    ensures
        has_sub(call_insertion(), loader_call_marker()),
{
    reveal_strlit("\n    init_features();");
    reveal_strlit("init_features();");
    assert(call_insertion().subrange(5, 21) =~= loader_call_marker());
    assert(occurs_at(call_insertion(), loader_call_marker(), 5));
}

/// The declaration block inserted by the patcher carries the declaration
/// marker.
proof fn lemma_decl_block_has_decl_marker()
    ensures
        has_sub(loader_decl_block(), loader_decl_marker()),
{
    reveal_strlit("\n// AUTO-GENERATED\nmod feature_loader;\nuse feature_loader::init_features;\n");
    reveal_strlit("use feature_loader::init_features;");
    assert(loader_decl_block().subrange(39, 73) =~= loader_decl_marker());
    assert(occurs_at(loader_decl_block(), loader_decl_marker(), 39));
}

/// No character of the declaration marker is an opening brace, so an
/// occurrence of the marker never covers the signature's final brace.
proof fn lemma_decl_marker_no_brace()
    ensures
        forall|k: int|
            0 <= k < loader_decl_marker().len() ==> loader_decl_marker()[k] != '{',
{
    reveal_strlit("use feature_loader::init_features;");
}

/// Law: patching is idempotent — a successful patch yields text that
/// carries the loader call, so a second patch can only return that text
/// unchanged, byte for byte.
pub proof fn lemma_patch_idempotent(s: Seq<char>, out: Seq<char>)
    requires
        patch_rel(s, out),
    ensures
        has_loader_call(out),
        patch_rel(out, out),
        forall|out2: Seq<char>| patch_rel(out, out2) ==> out2 == out,
{
    if has_loader_call(s) {
        assert(out == s);
    } else {
        let (h, m, t) = choose|h: Seq<char>, m: Seq<char>, t: Seq<char>|
            {
                &&& s == h + m + t
                &&& m.len() > 0
                &&& m[m.len() - 1] == '{'
                &&& out == patched_parts(h, m, t, has_loader_decl(s))
            };
        lemma_insertion_has_call_marker();
        if has_loader_decl(s) {
            lemma_sub_in_right(h + m, call_insertion(), loader_call_marker());
            lemma_sub_in_left(h + m + call_insertion(), t, loader_call_marker());
        } else {
            lemma_sub_in_right(h + loader_decl_block() + m, call_insertion(), loader_call_marker());
            lemma_sub_in_left(
                h + loader_decl_block() + m + call_insertion(),
                t,
                loader_call_marker(),
            );
        }
    }
}

/// The declaration whose presence marks the features module as declared.
pub open spec fn features_decl_marker() -> Seq<char> {
    "mod features;"@
}

/// A line that begins the entry function: after leading whitespace it
/// starts with the entry-function keyword and name.
pub open spec fn is_entry_line(line: Seq<char>) -> bool {
    starts_with_spec(trim_start_spec(line), "fn main"@)
}

/// Position of the first line that begins the entry function, if any.
pub open spec fn find_entry_line(lines: Seq<Seq<char>>) -> Option<int>
    decreases lines.len(),
{
    if lines.len() == 0 {
        None
    } else if is_entry_line(lines[0]) {
        Some(0int)
    } else {
        match find_entry_line(lines.drop_first()) {
            Some(i) => Some(i + 1),
            None => None,
        }
    }
}

/// The entry-point text with the features-module declaration ensured:
/// unchanged when present, otherwise inserted as a line of its own before
/// the first line that begins the entry function, or at the top when no
/// such line exists.
pub open spec fn declared_features_text(s: Seq<char>) -> Seq<char> {
    if has_sub(s, features_decl_marker()) {
        s
    } else {
        let lines = split_on(s, '\n');
        let idx = match find_entry_line(lines) {
            Some(i) => i,
            None => 0int,
        };
        join_sep(lines.insert(idx, features_decl_marker()), "\n"@)
    }
}

/// A scan that stops at `i` on an entry line finds `i` first.
proof fn lemma_find_entry_at(lines: Seq<Seq<char>>, i: int)
    requires
        0 <= i < lines.len(),
        forall|k: int| 0 <= k < i ==> !is_entry_line(lines[k]),
        is_entry_line(lines[i]),
    ensures
        find_entry_line(lines) == Some(i),
    decreases i,
{
    if i > 0 {
        lemma_find_entry_at(lines.drop_first(), i - 1);
    }
}

/// A scan that finds no entry line exhausts the lines.
proof fn lemma_find_entry_none(lines: Seq<Seq<char>>)
    requires
        forall|k: int| 0 <= k < lines.len() ==> !is_entry_line(lines[k]),
    ensures
        find_entry_line(lines) is None,
    decreases lines.len(),
{
    if lines.len() > 0 {
        lemma_find_entry_none(lines.drop_first());
    }
}

/// Ensures the declaration of the features module itself is present:
/// absent, it is inserted as a line of its own immediately before the
/// first line that begins the entry function — line-based, not
/// brace-based, positioning — or at the top when no such line exists.
/// Returns the new text and whether it differs from the input.
pub fn declare_features_mod(content: &str) -> (r: (String, bool))
    ensures
        r.0@ == declared_features_text(content@),
        r.1 == !has_sub(content@, features_decl_marker()),
{
    if contains_sub(content, "mod features;") {
        return (content.to_owned(), false);
    }
    let mut lines = split_string(content, '\n');
    let ghost lseq = lines.deep_view();
    let idx = match find_entry_line_exec(&lines) {
        Some(i) => i,
        None => 0,
    };
    let decl: String = String::from_str("mod features;");
    lines.insert(idx, decl);
    proof {
        assert(lines.deep_view() =~= lseq.insert(idx as int, features_decl_marker()));
    }
    let joined = join_strings(&lines, "\n");
    (joined, true)
}

/// Scans the lines for the first one that begins the entry function.
fn find_entry_line_exec(lines: &Vec<String>) -> (r: Option<usize>)
    ensures
        match r {
            Some(i) => i < lines@.len() && find_entry_line(lines.deep_view()) == Some(i as int),
            None => find_entry_line(lines.deep_view()) is None,
        },
{
    let n = lines.len();
    let mut i: usize = 0;
    while i < n
        invariant
            0 <= i <= n,
            n == lines@.len(),
            lines.deep_view().len() == n,
            forall|k: int| 0 <= k < i ==> !is_entry_line(lines.deep_view()[k]),
        decreases n - i,
    {
        proof {
            assert(lines.deep_view()[i as int] == lines@[i as int]@);
        }
        let line_trimmed = trim_start_str(lines[i].as_str());
        if starts_with(line_trimmed, "fn main") {
            proof {
                lemma_find_entry_at(lines.deep_view(), i as int);
            }
            return Some(i);
        }
        i = i + 1;
    }
    proof {
        lemma_find_entry_none(lines.deep_view());
    }
    None
}

/// Law: convergence — from each of the three entry states, one successful
/// application of the patcher ends in the fully patched state.
pub proof fn lemma_patch_converges(s: Seq<char>, out: Seq<char>)
    requires
        entry_state(s) is Some,
        patch_rel(s, out),
    ensures
        entry_state(out) == Some(EntryState::FullyPatched),
{
    lemma_patch_idempotent(s, out);
    if has_loader_call(s) {
        assert(out == s);
        assert(has_loader_decl(s));
    } else {
        let (h, m, t) = choose|h: Seq<char>, m: Seq<char>, t: Seq<char>|
            {
                &&& s == h + m + t
                &&& m.len() > 0
                &&& m[m.len() - 1] == '{'
                &&& out == patched_parts(h, m, t, has_loader_decl(s))
            };
        if has_loader_decl(s) {
            lemma_decl_marker_no_brace();
            assert((h + m).len() > 0 && (h + m)[(h + m).len() - 1] == '{');
            assert(h + m + t =~= (h + m) + t);
            lemma_sub_survives_insert(h + m, t, call_insertion(), loader_decl_marker());
            assert((h + m) + call_insertion() + t =~= h + m + call_insertion() + t);
        } else {
            lemma_decl_block_has_decl_marker();
            lemma_sub_in_right(h, loader_decl_block(), loader_decl_marker());
            lemma_sub_in_left(h + loader_decl_block(), m, loader_decl_marker());
            lemma_sub_in_left(
                h + loader_decl_block() + m,
                call_insertion(),
                loader_decl_marker(),
            );
            lemma_sub_in_left(
                h + loader_decl_block() + m + call_insertion(),
                t,
                loader_decl_marker(),
            );
        }
    }
}

} // verus!

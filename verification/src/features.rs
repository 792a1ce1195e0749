//! The feature registry's textual core: keeping a feature's module
//! declaration present in the features module file, and reading the
//! registered feature names back out of it. Creating feature files and
//! rewriting the registry file happen outside the library.

use vstd::prelude::*;
use crate::text::{
    contains_sub, has_sub, split_on, split_string, starts_with, starts_with_spec, trim_spec,
    trim_string,
};

verus! {

/// The declaration line that registers a feature module.
pub open spec fn module_decl_of(name: Seq<char>) -> Seq<char> {
    "pub mod "@ + name + ";"@
}

/// The registry text with the feature's module declaration ensured:
/// unchanged when the declaration is already present, otherwise the
/// declaration appended as a line of its own.
pub open spec fn registered_text(content: Seq<char>, name: Seq<char>) -> Seq<char> {
    if has_sub(content, module_decl_of(name)) {
        content
    } else {
        content + module_decl_of(name) + "\n"@
    }
}

/// Ensures the feature's module declaration is present in the registry
/// text. Returns the new text and whether it differs from the input.
pub fn register_module_decl(content: &str, name: &str) -> (r: (String, bool))
    ensures
        r.0@ == registered_text(content@, name@),
        r.1 == !has_sub(content@, module_decl_of(name@)),
{
    let mut decl = String::new();
    decl.append("pub mod ");
    decl.append(name);
    decl.append(";");
    if contains_sub(content, decl.as_str()) {
        return (content.to_owned(), false);
    }
    let mut out = content.to_owned();
    out.append(decl.as_str());
    out.append("\n");
    (out, true)
}

/// The feature name a registry line declares, if any: after trimming, the
/// line must be exactly a feature-module declaration.
pub open spec fn line_decl_name(line: Seq<char>) -> Option<Seq<char>> {
    let t = trim_spec(line);
    if t.len() > 9 && starts_with_spec(t, "pub mod "@) && t.last() == ';' {
        Some(t.subrange(8, t.len() - 1))
    } else {
        None
    }
}

/// The feature names the registry lines declare, in file order.
pub open spec fn decl_names(lines: Seq<Seq<char>>) -> Seq<Seq<char>>
    decreases lines.len(),
{
    if lines.len() == 0 {
        Seq::empty()
    } else {
        match line_decl_name(lines.last()) {
            Some(n) => decl_names(lines.drop_last()).push(n),
            None => decl_names(lines.drop_last()),
        }
    }
}

/// The feature names registered in the registry text, in file order.
pub open spec fn registered_names(content: Seq<char>) -> Seq<Seq<char>> {
    decl_names(split_on(content, '\n'))
}

/// The name a single registry line declares, if any.
fn line_decl_name_exec(line: &str) -> (r: Option<String>)
    ensures
        match r {
            Some(n) => line_decl_name(line@) == Some(n@),
            None => line_decl_name(line@) is None,
        },
{
    let t = trim_string(line);
    let len = t.unicode_len();
    if len > 9 && starts_with(t.as_str(), "pub mod ") && t.as_str().get_char(len - 1) == ';' {
        Some(t.as_str().substring_char(8, len - 1).to_owned())
    } else {
        None
    }
}

/// Reads the registered feature names out of the registry text.
pub fn list_registered_features(content: &str) -> (r: Vec<String>)
    ensures
        r.deep_view() == registered_names(content@),
{
    let lines = split_string(content, '\n');
    let mut out: Vec<String> = Vec::new();
    let mut i: usize = 0;
    let n = lines.len();
    while i < n
        invariant
            0 <= i <= n,
            n == lines@.len(),
            lines.deep_view() == split_on(content@, '\n'),
            out.deep_view() == decl_names(lines.deep_view().take(i as int)),
        decreases n - i,
    {
        proof {
            let pre = lines.deep_view().take(i + 1);
            assert(pre.drop_last() =~= lines.deep_view().take(i as int));
            assert(pre.last() == lines.deep_view()[i as int]);
            assert(lines.deep_view()[i as int] == lines@[i as int]@);
        }
        match line_decl_name_exec(lines[i].as_str()) {
            Some(name) => {
                out.push(name);
                proof {
                    assert(out.deep_view() =~= decl_names(lines.deep_view().take(i + 1)));
                }
            },
            None => {},
        }
        i = i + 1;
    }
    proof {
        assert(lines.deep_view().take(n as int) =~= lines.deep_view());
    }
    out
}

} // verus!

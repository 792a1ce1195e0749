//! Text primitives the pipeline is built on: substring search over
//! character sequences, line splitting and joining, and trimming.

use vstd::prelude::*;

verus! {

/// `sub` occurs in `s` at character position `i`.
pub open spec fn occurs_at(s: Seq<char>, sub: Seq<char>, i: int) -> bool {
    0 <= i && i + sub.len() <= s.len() && s.subrange(i, i + sub.len()) == sub
}

/// `sub` occurs somewhere in `s`.
pub open spec fn has_sub(s: Seq<char>, sub: Seq<char>) -> bool {
    exists|i: int| occurs_at(s, sub, i)
}

/// Whether the substring of `s` beginning at `i` equals `sub`; the naive
/// inner step of substring search.
fn matches_at(s: &str, sub: &str, i: usize) -> (r: bool)
    requires
        i + sub@.len() <= s@.len(),
        s@.len() <= usize::MAX,
    ensures
        r == occurs_at(s@, sub@, i as int),
{
    let sub_len = sub.unicode_len();
    let mut j: usize = 0;
    while j < sub_len
        invariant
            0 <= j <= sub_len,
            sub_len == sub@.len(),
            i + sub_len <= s@.len(),
            s@.len() <= usize::MAX,
            forall|k: int| 0 <= k < j ==> s@[i + k] == sub@[k],
        decreases sub_len - j,
    {
        if s.get_char(i + j) != sub.get_char(j) {
            assert(s@.subrange(i as int, i + sub@.len()) != sub@) by {
                assert(s@.subrange(i as int, i + sub@.len())[j as int] != sub@[j as int]);
            }
            return false;
        }
        j = j + 1;
    }
    assert(s@.subrange(i as int, i + sub@.len()) =~= sub@);
    true
}

/// First position at which `sub` occurs in `s`, if any.
pub fn find_sub(s: &str, sub: &str) -> (r: Option<usize>)
    ensures
        match r {
            Some(i) => occurs_at(s@, sub@, i as int)
                && forall|k: int| 0 <= k < i ==> !occurs_at(s@, sub@, k),
            None => !has_sub(s@, sub@),
        },
{
    let s_len = s.unicode_len();
    let sub_len = sub.unicode_len();
    if sub_len > s_len {
        assert(forall|i: int| !occurs_at(s@, sub@, i));
        return None;
    }
    if sub_len == 0 {
        assert(s@.subrange(0, 0) =~= sub@);
        return Some(0);
    }
    let bound = s_len - sub_len;
    let mut i: usize = 0;
    while i <= bound
        invariant
            bound == s_len - sub_len,
            1 <= sub_len <= s_len,
            s_len == s@.len(),
            sub_len == sub@.len(),
            0 <= i <= bound + 1,
            forall|k: int| 0 <= k < i ==> !occurs_at(s@, sub@, k),
        decreases bound + 1 - i,
    {
        if matches_at(s, sub, i) {
            return Some(i);
        }
        i = i + 1;
    }
    assert forall|k: int| !occurs_at(s@, sub@, k) by {
        if 0 <= k <= bound {
            assert(!occurs_at(s@, sub@, k));
        }
    }
    None
}

/// `sub` occurs somewhere in `s` (decision procedure for `has_sub`).
pub fn contains_sub(s: &str, sub: &str) -> (r: bool)
    ensures
        r == has_sub(s@, sub@),
{
    match find_sub(s, sub) {
        Some(_) => true,
        None => false,
    }
}

/// An occurrence in the left piece survives concatenation on the right.
pub proof fn lemma_sub_in_left(a: Seq<char>, b: Seq<char>, sub: Seq<char>)
    requires
        has_sub(a, sub),
    ensures
        has_sub(a + b, sub),
{
    let i = choose|i: int| occurs_at(a, sub, i);
    assert((a + b).subrange(i, i + sub.len()) =~= a.subrange(i, i + sub.len()));
    assert(occurs_at(a + b, sub, i));
}

/// An occurrence in the right piece survives concatenation on the left.
pub proof fn lemma_sub_in_right(a: Seq<char>, b: Seq<char>, sub: Seq<char>)
    requires
        has_sub(b, sub),
    ensures
        has_sub(a + b, sub),
{
    let i = choose|i: int| occurs_at(b, sub, i);
    assert((a + b).subrange(a.len() + i, a.len() + i + sub.len())
        =~= b.subrange(i, i + sub.len()));
    assert(occurs_at(a + b, sub, a.len() + i));
}

/// An occurrence that cannot cover the last character of `a` (no
/// character of `sub` equals it) survives an insertion right after `a`.
pub proof fn lemma_sub_survives_insert(a: Seq<char>, b: Seq<char>, ins: Seq<char>, sub: Seq<char>)
    requires
        has_sub(a + b, sub),
        a.len() > 0,
        forall|k: int| 0 <= k < sub.len() ==> sub[k] != a[a.len() - 1],
    ensures
        has_sub(a + ins + b, sub),
{
    let i = choose|i: int| occurs_at(a + b, sub, i);
    let alen = a.len() as int;
    if sub.len() == 0 {
        assert((a + ins + b).subrange(0, 0) =~= sub);
        assert(occurs_at(a + ins + b, sub, 0));
    } else if i + sub.len() < alen {
        assert((a + ins + b).subrange(i, i + sub.len())
            =~= (a + b).subrange(i, i + sub.len()));
        assert(occurs_at(a + ins + b, sub, i));
    } else if i >= alen {
        assert((a + ins + b).subrange(i + ins.len(), i + ins.len() + sub.len())
            =~= (a + b).subrange(i, i + sub.len()));
        assert(occurs_at(a + ins + b, sub, i + ins.len()));
    } else {
        // the occurrence would cover the last character of `a`
        assert(i <= alen - 1 < i + sub.len());
        assert(sub[alen - 1 - i] == (a + b)[alen - 1]);
        assert(false);
    }
}

/// `parts` joined with the separator `sep` between consecutive parts.
pub open spec fn join_sep(parts: Seq<Seq<char>>, sep: Seq<char>) -> Seq<char>
    decreases parts.len(),
{
    if parts.len() == 0 {
        Seq::empty()
    } else if parts.len() == 1 {
        parts[0]
    } else {
        parts[0] + sep + join_sep(parts.drop_first(), sep)
    }
}

/// Joining one more part appends a separator and the part.
pub proof fn lemma_join_push(parts: Seq<Seq<char>>, sep: Seq<char>, p: Seq<char>)
    ensures
        join_sep(parts.push(p), sep) == if parts.len() == 0 {
            p
        } else {
            join_sep(parts, sep) + sep + p
        },
    decreases parts.len(),
{
    if parts.len() == 0 {
        assert(parts.push(p).len() == 1);
        assert(parts.push(p)[0] == p);
    } else if parts.len() == 1 {
        assert(parts.push(p).drop_first() =~= seq![p]);
        assert(join_sep(seq![p], sep) == p);
        assert(join_sep(parts.push(p), sep) == parts.push(p)[0] + sep + join_sep(parts.push(p).drop_first(), sep));
        assert(join_sep(parts.push(p), sep) == parts[0] + sep + p);
    } else {
        assert(parts.push(p).drop_first() =~= parts.drop_first().push(p));
        lemma_join_push(parts.drop_first(), sep, p);
        assert(join_sep(parts, sep) + sep + p
            =~= parts[0] + sep + (join_sep(parts.drop_first(), sep) + sep + p));
    }
}

/// Joins the parts with `sep` between consecutive parts.
pub fn join_strings(parts: &Vec<String>, sep: &str) -> (r: String)
    ensures
        r@ == join_sep(parts.deep_view(), sep@),
{
    let mut r = String::new();
    let mut i: usize = 0;
    while i < parts.len()
        invariant
            0 <= i <= parts.len(),
            r@ == join_sep(parts.deep_view().take(i as int), sep@),
        decreases parts.len() - i,
    {
        if i > 0 {
            r.append(sep);
        }
        r.append(parts[i].as_str());
        proof {
            lemma_join_push(parts.deep_view().take(i as int), sep@, parts.deep_view()[i as int]);
            assert(parts.deep_view().take(i as int).push(parts.deep_view()[i as int])
                =~= parts.deep_view().take(i + 1));
        }
        i = i + 1;
    }
    proof {
        assert(parts.deep_view().take(parts.len() as int) =~= parts.deep_view());
    }
    r
}

/// `s` split at every occurrence of `c`; always at least one part, and the
/// separator appears in no part.
pub open spec fn split_on(s: Seq<char>, c: char) -> Seq<Seq<char>>
    decreases s.len(),
{
    if s.len() == 0 {
        seq![Seq::empty()]
    } else if s[0] == c {
        seq![Seq::<char>::empty()] + split_on(s.drop_first(), c)
    } else {
        let rest = split_on(s.drop_first(), c);
        seq![seq![s[0]] + rest[0]] + rest.drop_first()
    }
}

/// A split has at least one part.
pub proof fn lemma_split_nonempty(s: Seq<char>, c: char)
    ensures
        split_on(s, c).len() >= 1,
    decreases s.len(),
{
    if s.len() > 0 && s[0] != c {
        lemma_split_nonempty(s.drop_first(), c);
    }
}

/// A text free of the separator splits into itself alone.
pub proof fn lemma_split_no_sep(s: Seq<char>, c: char)
    requires
        forall|k: int| 0 <= k < s.len() ==> s[k] != c,
    ensures
        split_on(s, c) == seq![s],
    decreases s.len(),
{
    if s.len() == 0 {
        assert(Seq::<char>::empty() =~= s);
    } else {
        lemma_split_no_sep(s.drop_first(), c);
        lemma_split_nonempty(s.drop_first(), c);
        assert(seq![s[0]] + s.drop_first() =~= s);
        assert(split_on(s, c) =~= seq![s]);
    }
}

/// Splitting at the first separator peels off the prefix before it.
pub proof fn lemma_split_first_sep(pre: Seq<char>, c: char, rest: Seq<char>)
    requires
        forall|k: int| 0 <= k < pre.len() ==> pre[k] != c,
    ensures
        split_on(pre + seq![c] + rest, c) == seq![pre] + split_on(rest, c),
    decreases pre.len(),
{
    let s = pre + seq![c] + rest;
    if pre.len() == 0 {
        assert(s =~= seq![c] + rest);
        assert(s[0] == c);
        assert(s.drop_first() =~= rest);
        assert(Seq::<char>::empty() =~= pre);
    } else {
        assert(s[0] == pre[0]);
        assert(s.drop_first() =~= pre.drop_first() + seq![c] + rest);
        lemma_split_first_sep(pre.drop_first(), c, rest);
        lemma_split_nonempty(rest, c);
        let r = split_on(s.drop_first(), c);
        assert(r == seq![pre.drop_first()] + split_on(rest, c));
        assert(r[0] == pre.drop_first());
        assert(seq![s[0]] + r[0] =~= pre);
        assert(r.drop_first() =~= split_on(rest, c));
        assert(split_on(s, c) =~= seq![pre] + split_on(rest, c));
    }
}

/// First occurrence of the character `c` in `s`.
pub fn find_char(s: &str, c: char) -> (r: Option<usize>)
    ensures
        match r {
            Some(i) => i < s@.len() && s@[i as int] == c
                && forall|k: int| 0 <= k < i ==> s@[k] != c,
            None => forall|k: int| 0 <= k < s@.len() ==> s@[k] != c,
        },
{
    let len = s.unicode_len();
    let mut i: usize = 0;
    while i < len
        invariant
            0 <= i <= len,
            len == s@.len(),
            forall|k: int| 0 <= k < i ==> s@[k] != c,
        decreases len - i,
    {
        if s.get_char(i) == c {
            return Some(i);
        }
        i = i + 1;
    }
    None
}

/// Splits `s` at every occurrence of `c`.
pub fn split_string(s: &str, c: char) -> (r: Vec<String>)
    ensures
        r.deep_view() == split_on(s@, c),
{
    let mut parts: Vec<String> = Vec::new();
    let mut rest: String = s.to_owned();
    loop
        invariant
            split_on(s@, c) == parts.deep_view() + split_on(rest@, c),
        decreases rest@.len(),
    {
        match find_char(rest.as_str(), c) {
            Some(i) => {
                let len = rest.unicode_len();
                let part = rest.as_str().substring_char(0, i).to_owned();
                let tail = rest.as_str().substring_char(i + 1, len).to_owned();
                proof {
                    assert(part@ + seq![c] + tail@ =~= rest@);
                    lemma_split_first_sep(part@, c, tail@);
                    assert(parts.deep_view().push(part@) =~= parts.deep_view() + seq![part@]);
                    assert((parts.deep_view() + seq![part@]) + split_on(tail@, c)
                        =~= parts.deep_view() + (seq![part@] + split_on(tail@, c)));
                }
                parts.push(part);
                rest = tail;
            },
            None => {
                proof {
                    lemma_split_no_sep(rest@, c);
                    assert(parts.deep_view().push(rest@) =~= parts.deep_view() + seq![rest@]);
                }
                parts.push(rest);
                return parts;
            },
        }
    }
}

/// A whitespace character for trimming: the Unicode White_Space set, the
/// one `char::is_whitespace` recognizes.
pub open spec fn is_space(ch: char) -> bool {
    ||| ch == ' '
    ||| ch == '\t'
    ||| ch == '\n'
    ||| ch == '\u{000B}'
    ||| ch == '\u{000C}'
    ||| ch == '\r'
    ||| ch == '\u{0085}'
    ||| ch == '\u{00A0}'
    ||| ch == '\u{1680}'
    ||| ch == '\u{2000}'
    ||| ch == '\u{2001}'
    ||| ch == '\u{2002}'
    ||| ch == '\u{2003}'
    ||| ch == '\u{2004}'
    ||| ch == '\u{2005}'
    ||| ch == '\u{2006}'
    ||| ch == '\u{2007}'
    ||| ch == '\u{2008}'
    ||| ch == '\u{2009}'
    ||| ch == '\u{200A}'
    ||| ch == '\u{2028}'
    ||| ch == '\u{2029}'
    ||| ch == '\u{202F}'
    ||| ch == '\u{205F}'
    ||| ch == '\u{3000}'
}

/// `s` with leading whitespace removed.
pub open spec fn trim_start_spec(s: Seq<char>) -> Seq<char>
    decreases s.len(),
{
    if s.len() > 0 && is_space(s[0]) {
        trim_start_spec(s.drop_first())
    } else {
        s
    }
}

/// `s` with trailing whitespace removed.
pub open spec fn trim_end_spec(s: Seq<char>) -> Seq<char>
    decreases s.len(),
{
    if s.len() > 0 && is_space(s[s.len() - 1]) {
        trim_end_spec(s.drop_last())
    } else {
        s
    }
}

/// `s` with leading and trailing whitespace removed.
pub open spec fn trim_spec(s: Seq<char>) -> Seq<char> {
    trim_end_spec(trim_start_spec(s))
}

/// Trimming from the front stops at the first non-space character.
proof fn lemma_trim_start_at(s: Seq<char>, i: int)
    requires
        0 <= i <= s.len(),
        forall|k: int| 0 <= k < i ==> is_space(s[k]),
        i == s.len() || !is_space(s[i]),
    ensures
        trim_start_spec(s) == s.subrange(i, s.len() as int),
    decreases i,
{
    if i == 0 {
        if s.len() == 0 || !is_space(s[0]) {
            assert(s.subrange(0, s.len() as int) =~= s);
        }
    } else {
        assert(is_space(s[0]));
        lemma_trim_start_at(s.drop_first(), i - 1);
        assert(s.drop_first().subrange(i - 1, s.drop_first().len() as int)
            =~= s.subrange(i, s.len() as int));
    }
}

/// Trimming from the back stops at the last non-space character.
proof fn lemma_trim_end_at(s: Seq<char>, j: int)
    requires
        0 <= j <= s.len(),
        forall|k: int| j <= k < s.len() ==> is_space(s[k]),
        j == 0 || !is_space(s[j - 1]),
    ensures
        trim_end_spec(s) == s.subrange(0, j),
    decreases s.len() - j,
{
    if j == s.len() {
        if s.len() == 0 || !is_space(s[s.len() - 1]) {
            assert(s.subrange(0, s.len() as int) =~= s);
        }
    } else {
        assert(is_space(s[s.len() - 1]));
        lemma_trim_end_at(s.drop_last(), j);
        assert(s.drop_last().subrange(0, j) =~= s.subrange(0, j));
    }
}

/// `s` with its leading whitespace removed.
pub fn trim_start_str<'a>(s: &'a str) -> (r: &'a str)
    ensures
        r@ == trim_start_spec(s@),
{
    let len = s.unicode_len();
    let mut i: usize = 0;
    while i < len && is_space_char(s.get_char(i))
        invariant
            0 <= i <= len,
            len == s@.len(),
            forall|k: int| 0 <= k < i ==> is_space(s@[k]),
        decreases len - i,
    {
        i = i + 1;
    }
    proof {
        lemma_trim_start_at(s@, i as int);
    }
    s.substring_char(i, len)
}

/// Whether the character counts as whitespace for trimming.
pub fn is_space_char(ch: char) -> (r: bool)
    ensures
        r == is_space(ch),
{
    ch == ' ' || ch == '\t' || ch == '\n' || ch == '\u{000B}' || ch == '\u{000C}' || ch == '\r'
        || ch == '\u{0085}' || ch == '\u{00A0}' || ch == '\u{1680}' || ch == '\u{2000}'
        || ch == '\u{2001}' || ch == '\u{2002}' || ch == '\u{2003}' || ch == '\u{2004}'
        || ch == '\u{2005}' || ch == '\u{2006}' || ch == '\u{2007}' || ch == '\u{2008}'
        || ch == '\u{2009}' || ch == '\u{200A}' || ch == '\u{2028}' || ch == '\u{2029}'
        || ch == '\u{202F}' || ch == '\u{205F}' || ch == '\u{3000}'
}

/// `s` with leading and trailing whitespace removed.
pub fn trim_string(s: &str) -> (r: String)
    ensures
        r@ == trim_spec(s@),
{
    let len = s.unicode_len();
    let mut i: usize = 0;
    while i < len && is_space_char(s.get_char(i))
        invariant
            0 <= i <= len,
            len == s@.len(),
            forall|k: int| 0 <= k < i ==> is_space(s@[k]),
        decreases len - i,
    {
        i = i + 1;
    }
    proof {
        lemma_trim_start_at(s@, i as int);
    }
    let mut j: usize = len;
    while j > i && is_space_char(s.get_char(j - 1))
        invariant
            i <= j <= len,
            len == s@.len(),
            trim_start_spec(s@) == s@.subrange(i as int, s@.len() as int),
            forall|k: int| j <= k < len ==> is_space(s@[k]),
        decreases j,
    {
        j = j - 1;
    }
    proof {
        let t = s@.subrange(i as int, s@.len() as int);
        assert(forall|k: int| j - i <= k < t.len() ==> is_space(t[k]));
        lemma_trim_end_at(t, j - i);
        assert(t.subrange(0, j - i) =~= s@.subrange(i as int, j as int));
    }
    s.substring_char(i, j).to_owned()
}

/// `s` begins with `pre`.
pub open spec fn starts_with_spec(s: Seq<char>, pre: Seq<char>) -> bool {
    occurs_at(s, pre, 0)
}

/// Character-for-character equality of two string slices.
pub fn str_eq(a: &str, b: &str) -> (r: bool)
    ensures
        r == (a@ == b@),
{
    let a_len = a.unicode_len();
    let b_len = b.unicode_len();
    if a_len != b_len {
        return false;
    }
    let r = matches_at(a, b, 0);
    proof {
        assert(a@.subrange(0, b@.len() as int) =~= a@);
    }
    r
}

/// Decision procedure for `starts_with_spec`.
pub fn starts_with(s: &str, pre: &str) -> (r: bool)
    ensures
        r == starts_with_spec(s@, pre@),
{
    let s_len = s.unicode_len();
    let pre_len = pre.unicode_len();
    if pre_len > s_len {
        return false;
    }
    matches_at(s, pre, 0)
}

} // verus!

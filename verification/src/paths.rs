//! Paths as text. Components are set apart by `/` or by `\`, so that paths
//! written in the Unix and in the Windows style are both understood; where
//! a separator has to be written, it is `/`. A path is taken as it is
//! written: nothing is normalised, and two paths are the same path only if
//! they are the same text.

use vstd::prelude::*;
use crate::text::{chars_of, text_of_range, push_char};

verus! {

/// The characters that set the components of a path apart.
pub open spec fn is_separator(c: char) -> bool {
    c == '/' || c == '\\'
}

/// A name that can be one component of a path: it holds no separator.
pub open spec fn is_plain_name(name: Seq<char>) -> bool {
    forall|i: int| 0 <= i < name.len() ==> !is_separator(#[trigger] name[i])
}

/// The index of the last separator in `p`, or -1 where there is none.
pub open spec fn last_separator(p: Seq<char>) -> int
    decreases p.len(),
{
    if p.len() == 0 {
        -1
    } else if is_separator(p.last()) {
        p.len() - 1
    } else {
        last_separator(p.drop_last())
    }
}

/// The final component of `p`: what follows its last separator.
pub open spec fn file_name(p: Seq<char>) -> Seq<char> {
    p.subrange(last_separator(p) + 1, p.len() as int)
}

/// The path that holds `p`: what precedes its last separator. The root and
/// the empty path have none; a single component has the empty path; what
/// lies directly under the root has the root.
pub open spec fn parent(p: Seq<char>) -> Option<Seq<char>> {
    let k = last_separator(p);
    if k < 0 {
        if p.len() == 0 {
            None
        } else {
            Some(Seq::empty())
        }
    } else if k == 0 {
        if p.len() == 1 {
            None
        } else {
            Some(p.subrange(0, 1))
        }
    } else {
        Some(p.subrange(0, k))
    }
}

/// `rel` placed under `base`. A `rel` that begins with a separator replaces
/// `base`.
pub open spec fn join(base: Seq<char>, rel: Seq<char>) -> Seq<char> {
    if rel.len() > 0 && is_separator(rel[0]) {
        rel
    } else if base.len() == 0 || is_separator(base.last()) {
        base + rel
    } else {
        base.push('/') + rel
    }
}

/// `p` with its final component replaced by `name`.
pub open spec fn with_file_name(p: Seq<char>, name: Seq<char>) -> Seq<char> {
    p.subrange(0, last_separator(p) + 1) + name
}

/// `p` is `dir` or lies below it: `dir` is a prefix of `p` that ends where a
/// component of `p` ends.
pub open spec fn is_within(p: Seq<char>, dir: Seq<char>) -> bool {
    &&& dir.len() <= p.len()
    &&& p.subrange(0, dir.len() as int) == dir
    &&& (p.len() == dir.len() || (dir.len() > 0 && is_separator(dir.last())) || is_separator(
        p[dir.len() as int],
    ))
}

/// `p` lies strictly below `dir`.
pub open spec fn is_descendant(p: Seq<char>, dir: Seq<char>) -> bool {
    p.len() > dir.len() && is_within(p, dir)
}

/// The index of the last `.` of `name` that is not its first character, or
/// -1 where there is none.
pub open spec fn extension_dot(name: Seq<char>) -> int
    decreases name.len(),
{
    if name.len() <= 1 {
        -1
    } else if name.last() == '.' {
        name.len() - 1
    } else {
        extension_dot(name.drop_last())
    }
}

/// The extension of the final component of `p`, with its dot; empty where
/// the name has no dot after its first character.
pub open spec fn dotted_extension(p: Seq<char>) -> Seq<char> {
    let name = file_name(p);
    let k = extension_dot(name);
    if k < 0 {
        Seq::empty()
    } else {
        name.subrange(k, name.len() as int)
    }
}

/// The last separator of `p` is where `last_separator` says, and nothing
/// after it is a separator.
pub proof fn lemma_last_separator(p: Seq<char>)
    ensures
        -1 <= last_separator(p) < p.len(),
        last_separator(p) >= 0 ==> is_separator(p[last_separator(p)]),
        forall|i: int| last_separator(p) < i < p.len() ==> !is_separator(#[trigger] p[i]),
        is_plain_name(file_name(p)),
    decreases p.len(),
{
    if p.len() > 0 && !is_separator(p.last()) {
        lemma_last_separator(p.drop_last());
        assert forall|i: int| last_separator(p) < i < p.len() implies !is_separator(
            #[trigger] p[i],
        ) by {
            if i < p.len() - 1 {
                assert(p.drop_last()[i] == p[i]);
            }
        }
    }
    let name = file_name(p);
    assert forall|i: int| 0 <= i < name.len() implies !is_separator(#[trigger] name[i]) by {
        assert(name[i] == p[last_separator(p) + 1 + i]);
    }
}

/// A plain name that follows a prefix which is empty or ends in a separator
/// is the final component of the whole.
pub proof fn lemma_last_separator_append(prefix: Seq<char>, name: Seq<char>)
    requires
        is_plain_name(name),
        prefix.len() == 0 || is_separator(prefix.last()),
    ensures
        last_separator(prefix + name) == prefix.len() - 1,
        file_name(prefix + name) == name,
    decreases name.len(),
{
    let whole = prefix + name;
    if name.len() == 0 {
        assert(whole == prefix);
        if prefix.len() > 0 {
            assert(last_separator(prefix) == prefix.len() - 1);
        }
    } else {
        assert(whole.last() == name[name.len() - 1]);
        assert(whole.drop_last() == prefix + name.drop_last());
        assert forall|i: int| 0 <= i < name.drop_last().len() implies !is_separator(
            #[trigger] name.drop_last()[i],
        ) by {
            assert(name.drop_last()[i] == name[i]);
        }
        lemma_last_separator_append(prefix, name.drop_last());
    }
    assert(whole.subrange(prefix.len() as int, whole.len() as int) == name);
}

/// Lying strictly below is transitive.
pub proof fn lemma_descendant_transitive(p: Seq<char>, mid: Seq<char>, dir: Seq<char>)
    requires
        is_descendant(p, mid),
        is_within(mid, dir),
    ensures
        is_descendant(p, dir),
{
    assert(p.subrange(0, dir.len() as int) == mid.subrange(0, dir.len() as int)) by {
        assert(p.subrange(0, mid.len() as int).subrange(0, dir.len() as int) == p.subrange(
            0,
            dir.len() as int,
        ));
    }
    if mid.len() > dir.len() && !(dir.len() > 0 && is_separator(dir.last())) {
        assert(p.subrange(0, mid.len() as int)[dir.len() as int] == mid[dir.len() as int]);
    }
}

/// Whether `c` sets components apart.
pub fn separates(c: char) -> (r: bool)
    ensures
        r == is_separator(c),
{
    c == '/' || c == '\\'
}

/// The index of the last separator in `v`, if there is one.
pub fn last_separator_of(v: &Vec<char>) -> (r: Option<usize>)
    ensures
        match r {
            Some(k) => k as int == last_separator(v@) && k < v@.len(),
            None => last_separator(v@) == -1,
        },
{
    let mut n: usize = v.len();
    proof {
        assert(v@.subrange(0, n as int) == v@);
    }
    while n > 0
        invariant
            n <= v@.len(),
            last_separator(v@.subrange(0, n as int)) == last_separator(v@),
        decreases n,
    {
        if separates(v[n - 1]) {
            assert(v@.subrange(0, n as int).last() == v@[n - 1]);
            return Some(n - 1);
        }
        proof {
            assert(v@.subrange(0, n as int).last() == v@[n - 1]);
            assert(v@.subrange(0, n as int).drop_last() == v@.subrange(0, n - 1));
        }
        n -= 1;
    }
    None
}

/// The final component of `p`.
pub fn file_name_of(p: &str) -> (r: String)
    ensures
        r@ == file_name(p@),
{
    let v = chars_of(p);
    let n = v.len();
    let start: usize = match last_separator_of(&v) {
        Some(k) => k + 1,
        None => 0,
    };
    text_of_range(&v, start, n)
}

/// The path that holds `p`, if it has one.
pub fn parent_of(p: &str) -> (r: Option<String>)
    ensures
        match r {
            Some(d) => parent(p@) == Some(d@),
            None => parent(p@) is None,
        },
{
    let v = chars_of(p);
    match last_separator_of(&v) {
        None => {
            if v.len() == 0 {
                None
            } else {
                let d = String::new();
                Some(d)
            }
        },
        Some(k) => {
            if k == 0 {
                if v.len() == 1 {
                    None
                } else {
                    Some(text_of_range(&v, 0, 1))
                }
            } else {
                Some(text_of_range(&v, 0, k))
            }
        },
    }
}

/// `rel` placed under `base`.
pub fn join_paths(base: &str, rel: &str) -> (r: String)
    ensures
        r@ == join(base@, rel@),
{
    let b = chars_of(base);
    let l = chars_of(rel);
    if l.len() > 0 && separates(l[0]) {
        return String::from_str(rel);
    }
    let mut out = String::from_str(base);
    if !(b.len() == 0 || separates(b[b.len() - 1])) {
        push_char(&mut out, '/');
    }
    out.append(rel);
    out
}

/// `p` with its final component replaced by `name`.
pub fn with_file_name_of(p: &str, name: &str) -> (r: String)
    ensures
        r@ == with_file_name(p@, name@),
{
    let v = chars_of(p);
    let n = v.len();
    let keep: usize = match last_separator_of(&v) {
        Some(k) => k + 1,
        None => 0,
    };
    let mut out = text_of_range(&v, 0, keep);
    out.append(name);
    out
}

/// Whether `p` is `dir` or lies below it.
pub fn is_within_path(p: &str, dir: &str) -> (r: bool)
    ensures
        r == is_within(p@, dir@),
{
    let pv = chars_of(p);
    let dv = chars_of(dir);
    if !crate::text::occurs_at_chars(&pv, &dv, 0) {
        return false;
    }
    pv.len() == dv.len() || (dv.len() > 0 && separates(dv[dv.len() - 1])) || separates(
        pv[dv.len()],
    )
}

/// Whether `p` lies strictly below `dir`.
pub fn is_descendant_path(p: &str, dir: &str) -> (r: bool)
    ensures
        r == is_descendant(p@, dir@),
{
    let pv = chars_of(p);
    let dv = chars_of(dir);
    pv.len() > dv.len() && is_within_path(p, dir)
}

/// The extension of the final component of `p`, with its dot.
pub fn dotted_extension_of(p: &str) -> (r: String)
    ensures
        r@ == dotted_extension(p@),
{
    let name = file_name_of(p);
    let v = chars_of(name.as_str());
    let mut n: usize = v.len();
    proof {
        assert(v@.subrange(0, n as int) == v@);
    }
    while n > 1
        invariant
            n <= v@.len(),
            v@ == file_name(p@),
            extension_dot(v@.subrange(0, n as int)) == extension_dot(v@),
        decreases n,
    {
        if v[n - 1] == '.' {
            assert(v@.subrange(0, n as int).last() == '.');
            return text_of_range(&v, n - 1, v.len());
        }
        proof {
            assert(v@.subrange(0, n as int).drop_last() == v@.subrange(0, n - 1));
        }
        n -= 1;
    }
    String::new()
}

} // verus!

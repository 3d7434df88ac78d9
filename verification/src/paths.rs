//! Paths as text: how the pipeline puts a path together and takes it apart.
//!
//! A path is a string. Its components are separated by the platform's
//! separators; a component that is joined on is a relative name.

use vstd::prelude::*;
use crate::platform::{is_separator, separator_of, HostPlatform};
use crate::text::{chars_of, string_of, strings};

verus! {

/// `base` with `part` joined on: a separator stands between them unless
/// `base` is empty or ends with one already.
pub open spec fn joined(platform: HostPlatform, base: Seq<char>, part: Seq<char>) -> Seq<char> {
    if base.len() == 0 || is_separator(platform, base.last()) {
        base + part
    } else {
        base.push(separator_of(platform)) + part
    }
}

/// `base` with each of `parts` joined on in turn.
pub open spec fn joined_all(
    platform: HostPlatform,
    base: Seq<char>,
    parts: Seq<Seq<char>>,
) -> Seq<char>
    decreases parts.len(),
{
    if parts.len() == 0 {
        base
    } else {
        joined(platform, joined_all(platform, base, parts.drop_last()), parts.last())
    }
}

/// The length of `path` without the separators at its end.
pub open spec fn trimmed_length(platform: HostPlatform, path: Seq<char>, n: int) -> int
    decreases n,
{
    if 0 < n <= path.len() && is_separator(platform, path[n - 1]) {
        trimmed_length(platform, path, n - 1)
    } else {
        n
    }
}

/// The length of `path` up to and including the last separator before
/// position `n`; 0 if there is none.
pub open spec fn directory_length(platform: HostPlatform, path: Seq<char>, n: int) -> int
    decreases n,
{
    if 0 < n <= path.len() && !is_separator(platform, path[n - 1]) {
        directory_length(platform, path, n - 1)
    } else {
        n
    }
}

/// The directory that holds `path`. A path that is empty or made of
/// separators alone has none. A single name is held by the empty path. A name
/// directly under the root is held by the root, written as the path's first
/// character. Otherwise it is the path up to the separators before its last
/// component.
pub open spec fn parent_of(platform: HostPlatform, path: Seq<char>) -> Option<Seq<char>> {
    let end = trimmed_length(platform, path, path.len() as int);
    if end <= 0 {
        None
    } else {
        let dir = directory_length(platform, path, end);
        let stem = trimmed_length(platform, path, dir);
        if dir > 0 && stem <= 0 {
            Some(path.take(1))
        } else {
            Some(path.take(stem))
        }
    }
}

/// Joins `part` on to `base`.
pub fn join(platform: HostPlatform, base: &str, part: &str) -> (path: String)
    ensures
        path@ == joined(platform, base@, part@),
{
    let mut chars = chars_of(base);
    let mut rest = chars_of(part);
    if chars.len() > 0 && !platform.separates(chars[chars.len() - 1]) {
        chars.push(platform.separator());
    }
    chars.append(&mut rest);
    string_of(&chars)
}

/// Joins each of `parts` on to `base` in turn.
pub fn join_all(platform: HostPlatform, base: &str, parts: &Vec<String>) -> (path: String)
    ensures
        path@ == joined_all(platform, base@, strings(parts@)),
{
    let mut path = base.to_owned();
    let mut i: usize = 0;
    let ghost all = strings(parts@);
    while i < parts.len()
        invariant
            i <= parts.len(),
            all == strings(parts@),
            path@ == joined_all(platform, base@, all.take(i as int)),
        decreases parts.len() - i,
    {
        proof {
            assert(all.take(i + 1).drop_last() =~= all.take(i as int));
            assert(all.take(i + 1).last() == parts@[i as int]@);
        }
        path = join(platform, path.as_str(), parts[i].as_str());
        i = i + 1;
    }
    assert(all.take(parts.len() as int) =~= all);
    path
}

/// The directory that holds the directory of a package's manifest: the root
/// of the project that the package belongs to.
pub fn project_root(platform: HostPlatform, manifest_dir: &str) -> (root: Option<String>)
    ensures
        root is Some <==> parent_of(platform, manifest_dir@) is Some,
        root is Some ==> root->Some_0@ == parent_of(platform, manifest_dir@)->Some_0,
{
    let chars = chars_of(manifest_dir);
    let end = trim_separators(platform, &chars, chars.len());
    if end == 0 {
        return None;
    }
    let mut dir: usize = end;
    while dir > 0 && !platform.separates(chars[dir - 1])
        invariant
            dir <= end <= chars.len(),
            directory_length(platform, chars@, end as int) == directory_length(
                platform,
                chars@,
                dir as int,
            ),
        decreases dir,
    {
        dir = dir - 1;
    }
    let stem = trim_separators(platform, &chars, dir);
    let keep: usize = if dir > 0 && stem == 0 {
        1
    } else {
        stem
    };
    let mut kept = chars;
    kept.truncate(keep);
    assert(kept@ =~= manifest_dir@.take(keep as int));
    Some(string_of(&kept))
}

/// The length of the first `n` characters of `path` without the separators
/// at their end.
fn trim_separators(platform: HostPlatform, path: &Vec<char>, n: usize) -> (kept: usize)
    requires
        n <= path.len(),
    ensures
        kept == trimmed_length(platform, path@, n as int),
        kept <= n,
{
    let mut kept: usize = n;
    while kept > 0 && platform.separates(path[kept - 1])
        invariant
            kept <= n <= path.len(),
            trimmed_length(platform, path@, n as int) == trimmed_length(
                platform,
                path@,
                kept as int,
            ),
        decreases kept,
    {
        kept = kept - 1;
    }
    kept
}

/// Joining keeps the base: a joined path starts with what it was joined
/// on to.
pub proof fn lemma_joined_keeps_base(platform: HostPlatform, base: Seq<char>, part: Seq<char>)
    ensures
        base.is_prefix_of(joined(platform, base, part)),
{
    let path = joined(platform, base, part);
    assert(path.subrange(0, base.len() as int) =~= base);
}

/// Joining several parts keeps the base.
pub proof fn lemma_joined_all_keeps_base(
    platform: HostPlatform,
    base: Seq<char>,
    parts: Seq<Seq<char>>,
)
    ensures
        base.is_prefix_of(joined_all(platform, base, parts)),
    decreases parts.len(),
{
    if parts.len() > 0 {
        let before = joined_all(platform, base, parts.drop_last());
        let path = joined(platform, before, parts.last());
        lemma_joined_all_keeps_base(platform, base, parts.drop_last());
        lemma_joined_keeps_base(platform, before, parts.last());
        assert(before.subrange(0, base.len() as int) =~= base);
        assert(path.subrange(0, before.len() as int) =~= before);
        assert(path.subrange(0, base.len() as int) =~= before.subrange(0, base.len() as int));
    } else {
        assert(base.subrange(0, base.len() as int) =~= base);
    }
}

} // verus!

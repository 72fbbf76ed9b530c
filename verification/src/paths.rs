//! Paths as strings with `/` between components: joining, the path of an
//! entry relative to a root, the final component, and `~` expansion.

use vstd::prelude::*;
use crate::text::{char_len, joined, head, starts_with, tail};

verus! {

/// A path that starts at the root of the file system.
pub open spec fn is_absolute(p: Seq<char>) -> bool {
    p.len() > 0 && p[0] == '/'
}

/// `rel` placed under `base`. An absolute `rel` replaces `base`; otherwise a
/// separator is put between the two unless `base` is empty or already ends
/// in one.
pub open spec fn join_spec(base: Seq<char>, rel: Seq<char>) -> Seq<char> {
    if is_absolute(rel) {
        rel
    } else if base.len() > 0 && base.last() != '/' {
        base + seq!['/'] + rel
    } else {
        base + rel
    }
}

/// What is left of `path` below `root`, if `path` lies at or below `root`.
pub open spec fn relative_to_spec(path: Seq<char>, root: Seq<char>) -> Option<Seq<char>> {
    if !root.is_prefix_of(path) {
        None
    } else {
        let rest = path.skip(root.len() as int);
        if rest.len() == 0 || root.len() == 0 || root.last() == '/' {
            Some(rest)
        } else if rest[0] == '/' {
            Some(rest.skip(1))
        } else {
            None
        }
    }
}

/// `p` without the separators at its end.
pub open spec fn trim_slashes(p: Seq<char>) -> Seq<char>
    decreases p.len(),
{
    if p.len() > 0 && p.last() == '/' {
        trim_slashes(p.drop_last())
    } else {
        p
    }
}

/// The characters of `p` after its last separator.
pub open spec fn last_segment(p: Seq<char>) -> Seq<char>
    decreases p.len(),
{
    if p.len() == 0 || p.last() == '/' {
        Seq::empty()
    } else {
        last_segment(p.drop_last()).push(p.last())
    }
}

/// The final component of `p`: separators at the end are ignored, and a path
/// that ends in `..` has none.
pub open spec fn file_name_spec(p: Seq<char>) -> Seq<char> {
    let name = last_segment(trim_slashes(p));
    if name == seq!['.', '.'] {
        Seq::empty()
    } else {
        name
    }
}

/// The directory that holds the final component of `p`: the path without
/// that component and the separators before it. The root holds what lies
/// directly below it, a lone name is held by the empty path, and the root
/// and the empty path are held by nothing.
pub open spec fn parent_spec(p: Seq<char>) -> Option<Seq<char>> {
    let trimmed = trim_slashes(p);
    if trimmed.len() == 0 {
        None
    } else {
        let dir = trimmed.take(trimmed.len() - last_segment(trimmed).len());
        if dir.len() > 0 && trim_slashes(dir).len() == 0 {
            Some(seq!['/'])
        } else {
            Some(trim_slashes(dir))
        }
    }
}

/// `~` at the start of `path`, alone or followed by a separator, stands for
/// `home`; any other path is left as it is.
pub open spec fn tilde_spec(path: Seq<char>, home: Seq<char>) -> Seq<char> {
    if path.len() > 0 && path[0] == '~' && (path.len() == 1 || path[1] == '/') {
        home + path.skip(1)
    } else {
        path
    }
}

/// `~` followed by a backslash, which is a home reference on some systems only.
pub open spec fn tilde_backslash(path: Seq<char>) -> bool {
    path.len() >= 2 && path[0] == '~' && path[1] == '\\'
}

/// Calls `shellexpand::tilde_with_context` with `home` as the home
/// directory. The crate replaces a leading `~` by the home directory when the
/// `~` ends the input or a `/` follows it, and hands every other input back
/// unchanged; inputs that start with `~\` are left to the caller because the
/// crate treats them differently from one system to another.
#[verifier::external_body]
fn tilde_with_home(path: &str, home: &str) -> (r: String)
    requires
        !tilde_backslash(path@),
    ensures
        r@ == tilde_spec(path@, home@),
{
    shellexpand::tilde_with_context(path, || Some(home)).into_owned()
}

/// Puts `rel` under `base`.
pub fn join(base: &str, rel: &str) -> (r: String)
    ensures
        r@ == join_spec(base@, rel@),
{
    let rel_len: usize = char_len(rel);
    if rel_len > 0 && rel.get_char(0) == '/' {
        return rel.to_owned();
    }
    let base_len: usize = char_len(base);
    if base_len > 0 && base.get_char(base_len - 1) != '/' {
        proof {
            reveal_strlit("/");
            assert("/"@ =~= seq!['/']);
        }
        let mut out = joined(base, "/");
        out.append(rel);
        out
    } else {
        joined(base, rel)
    }
}

/// The path of `path` relative to `root`, or `None` when `path` is not at or
/// below `root`.
pub fn relative_to(path: &str, root: &str) -> (r: Option<String>)
    ensures
        match r {
            Some(rel) => relative_to_spec(path@, root@) == Some(rel@),
            None => relative_to_spec(path@, root@) is None,
        },
{
    if !starts_with(path, root) {
        return None;
    }
    let root_len: usize = char_len(root);
    let path_len: usize = char_len(path);
    if path_len == root_len || root_len == 0 || root.get_char(root_len - 1) == '/' {
        return Some(tail(path, root_len));
    }
    assert(path@.skip(root_len as int)[0] == path@[root_len as int]);
    if path.get_char(root_len) == '/' {
        assert(path@.skip(root_len as int).skip(1) =~= path@.skip(root_len + 1));
        Some(tail(path, root_len + 1))
    } else {
        None
    }
}

proof fn lemma_trim_take(p: Seq<char>, e: int)
    requires
        0 <= e <= p.len(),
        forall|k: int| e <= k < p.len() ==> p[k] == '/',
    ensures
        trim_slashes(p) == trim_slashes(p.take(e)),
    decreases p.len() - e,
{
    if e < p.len() {
        assert(p.last() == '/');
        assert(p.drop_last().take(e) =~= p.take(e));
        lemma_trim_take(p.drop_last(), e);
    } else {
        assert(p.take(e) =~= p);
    }
}

proof fn lemma_last_segment_skip(q: Seq<char>, s: int)
    requires
        0 <= s <= q.len(),
        forall|k: int| s <= k < q.len() ==> q[k] != '/',
        s == 0 || q[s - 1] == '/',
    ensures
        last_segment(q) == q.skip(s),
    decreases q.len() - s,
{
    if s < q.len() {
        assert(q.last() != '/');
        lemma_last_segment_skip(q.drop_last(), s);
        assert(q.drop_last().skip(s).push(q.last()) =~= q.skip(s));
    } else {
        assert(q.skip(s) =~= Seq::<char>::empty());
    }
}

/// The characters of `path` after its last separator.
pub fn last_part(path: &str) -> (r: String)
    ensures
        r@ == last_segment(path@),
{
    let n: usize = char_len(path);
    let mut s: usize = n;
    while s > 0 && path.get_char(s - 1) != '/'
        invariant
            s <= n,
            n == path@.len(),
            forall|k: int| s <= k < n ==> path@[k] != '/',
        decreases s,
    {
        s = s - 1;
    }
    proof {
        lemma_last_segment_skip(path@, s as int);
    }
    tail(path, s)
}

/// The final component of `path`, empty where it has none.
pub fn file_name(path: &str) -> (r: String)
    ensures
        r@ == file_name_spec(path@),
{
    let n: usize = char_len(path);
    let mut e: usize = n;
    while e > 0 && path.get_char(e - 1) == '/'
        invariant
            e <= n,
            n == path@.len(),
            forall|k: int| e <= k < n ==> path@[k] == '/',
        decreases e,
    {
        e = e - 1;
    }
    let mut s: usize = e;
    while s > 0 && path.get_char(s - 1) != '/'
        invariant
            s <= e <= n,
            n == path@.len(),
            forall|k: int| s <= k < e ==> path@[k] != '/',
        decreases s,
    {
        s = s - 1;
    }
    let trimmed = head(path, e);
    let name = tail(trimmed.as_str(), s);
    proof {
        lemma_trim_take(path@, e as int);
        assert(trim_slashes(path@.take(e as int)) == path@.take(e as int));
        lemma_last_segment_skip(path@.take(e as int), s as int);
    }
    let len: usize = char_len(name.as_str());
    if len == 2 && name.as_str().get_char(0) == '.' && name.as_str().get_char(1) == '.' {
        assert(name@ =~= seq!['.', '.']);
        String::new()
    } else {
        name
    }
}

/// The directory that holds the final component of `path`.
pub fn parent(path: &str) -> (r: Option<String>)
    ensures
        match r {
            Some(dir) => parent_spec(path@) == Some(dir@),
            None => parent_spec(path@) is None,
        },
{
    let n: usize = char_len(path);
    let mut e: usize = n;
    while e > 0 && path.get_char(e - 1) == '/'
        invariant
            e <= n,
            n == path@.len(),
            forall|k: int| e <= k < n ==> path@[k] == '/',
        decreases e,
    {
        e = e - 1;
    }
    proof {
        lemma_trim_take(path@, e as int);
        assert(trim_slashes(path@.take(e as int)) == path@.take(e as int));
    }
    if e == 0 {
        return None;
    }
    let mut s: usize = e;
    while s > 0 && path.get_char(s - 1) != '/'
        invariant
            s <= e <= n,
            n == path@.len(),
            forall|k: int| s <= k < e ==> path@[k] != '/',
        decreases s,
    {
        s = s - 1;
    }
    let mut k: usize = s;
    while k > 0 && path.get_char(k - 1) == '/'
        invariant
            k <= s <= n,
            n == path@.len(),
            forall|j: int| k <= j < s ==> path@[j] == '/',
        decreases k,
    {
        k = k - 1;
    }
    proof {
        let trimmed = path@.take(e as int);
        lemma_last_segment_skip(trimmed, s as int);
        assert(trimmed.take(trimmed.len() - last_segment(trimmed).len()) =~= path@.take(s as int));
        lemma_trim_take(path@.take(s as int), k as int);
        assert(path@.take(s as int).take(k as int) =~= path@.take(k as int));
        assert(trim_slashes(path@.take(k as int)) == path@.take(k as int));
    }
    if s > 0 && k == 0 {
        proof {
            reveal_strlit("/");
            assert("/"@ =~= seq!['/']);
        }
        Some("/".to_owned())
    } else {
        Some(head(path, k))
    }
}

/// Replaces a leading `~` in `path` by `home`.
pub fn expand_path(path: &str, home: &str) -> (r: String)
    ensures
        r@ == tilde_spec(path@, home@),
{
    let n: usize = char_len(path);
    if n >= 2 && path.get_char(0) == '~' && path.get_char(1) == '\\' {
        path.to_owned()
    } else {
        tilde_with_home(path, home)
    }
}

/// A path put under a root and then taken relative to it is the path again.
pub proof fn law_join_then_relative(root: Seq<char>, rel: Seq<char>)
    requires
        !is_absolute(rel),
    ensures
        relative_to_spec(join_spec(root, rel), root) == Some(rel),
{
    let joined = join_spec(root, rel);
    if root.len() > 0 && root.last() != '/' {
        assert(joined.subrange(0, root.len() as int) =~= root);
        assert(joined.skip(root.len() as int) =~= seq!['/'] + rel);
        assert(joined.skip(root.len() as int).skip(1) =~= rel);
    } else {
        assert(joined.subrange(0, root.len() as int) =~= root);
        assert(joined.skip(root.len() as int) =~= rel);
    }
}

} // verus!

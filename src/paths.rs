//! Absolute paths as lists of components, and the relative path from one
//! directory to another.

use crate::text::views;
use vstd::prelude::*;
use vstd::string::*;

verus! {

/// An absolute path, held as its components below the root (`/a/b` is
/// `["a", "b"]`, the root itself is empty).
#[derive(Debug)]
pub struct AbsPath {
    pub components: Vec<String>,
}

/// A component that names an entry: non-empty, without a separator (`/`,
/// `\`) or a drive mark (`:`), and neither `.` nor `..`.
pub open spec fn normal_component(c: Seq<char>) -> bool {
    c.len() > 0 && !c.contains('/') && !c.contains('\\') && !c.contains(':') && c != "."@ && c
        != ".."@
}

pub open spec fn normal_path(p: Seq<Seq<char>>) -> bool {
    forall|i: int| 0 <= i < p.len() ==> normal_component(#[trigger] p[i])
}

impl AbsPath {
    pub open spec fn view(&self) -> Seq<Seq<char>> {
        views(self.components@)
    }

    pub open spec fn wf(&self) -> bool {
        normal_path(self.view())
    }
}

/// The length of the longest common prefix of two paths.
pub open spec fn common_prefix_len(a: Seq<Seq<char>>, b: Seq<Seq<char>>) -> nat
    decreases a.len(),
{
    if a.len() == 0 || b.len() == 0 || a[0] != b[0] {
        0
    } else {
        1 + common_prefix_len(a.drop_first(), b.drop_first())
    }
}

/// The relative path from directory `base` to `path`: one `..` for each
/// component of `base` past the common prefix, then the rest of `path`.
pub open spec fn relative_spec(path: Seq<Seq<char>>, base: Seq<Seq<char>>) -> Seq<Seq<char>> {
    let k = common_prefix_len(path, base) as int;
    Seq::new((base.len() - k) as nat, |i: int| ".."@) + path.subrange(k, path.len() as int)
}

/// Walks `rel` from the directory `base`: `..` goes up one level (the root
/// stays the root), any other component goes down into it.
pub open spec fn resolve(base: Seq<Seq<char>>, rel: Seq<Seq<char>>) -> Seq<Seq<char>>
    decreases rel.len(),
{
    if rel.len() == 0 {
        base
    } else {
        let next = if rel[0] == ".."@ {
            if base.len() > 0 {
                base.drop_last()
            } else {
                base
            }
        } else {
            base.push(rel[0])
        };
        resolve(next, rel.drop_first())
    }
}

/// Relies on pathdiff's `diff_paths`, given two absolute paths whose
/// components are all normal: it skips the leading components the two
/// share, yields `..` for each further component of `base`, then the
/// remaining components of `path`. It returns `None` only where `base`
/// alone is absolute or holds a `..` past the shared part, which cannot
/// happen here.
#[verifier::external_body]
fn diff_components(path: &AbsPath, base: &AbsPath) -> (r: Option<Vec<String>>)
    requires
        path.wf(),
        base.wf(),
    ensures
        r is Some,
        views(r->Some_0@) == relative_spec(path.view(), base.view()),
{
    let to_path = |p: &AbsPath| -> std::path::PathBuf {
        std::iter::once("/").chain(p.components.iter().map(|c| c.as_str())).collect()
    };
    pathdiff::diff_paths(to_path(path), to_path(base)).map(|d| {
        d.components().map(|c| c.as_os_str().to_string_lossy().into_owned()).collect()
    })
}

/// The relative path from the directory `base` to `path`.
pub fn relative_path(path: &AbsPath, base: &AbsPath) -> (r: Vec<String>)
    requires
        path.wf(),
        base.wf(),
    ensures
        views(r@) == relative_spec(path.view(), base.view()),
{
    match diff_components(path, base) {
        Some(v) => v,
        None => Vec::new(),
    }
}

/// The directory that holds `p`, or `None` for the root.
pub fn parent(p: &AbsPath) -> (r: Option<AbsPath>)
    requires
        p.wf(),
    ensures
        p.view().len() == 0 ==> r is None,
        p.view().len() > 0 ==> r is Some && r->Some_0.view() == p.view().drop_last()
            && r->Some_0.wf(),
{
    let n = p.components.len();
    if n == 0 {
        return None;
    }
    let mut v: Vec<String> = Vec::new();
    let mut i: usize = 0;
    while i + 1 < n
        invariant
            0 <= i < n,
            n == p.components.len(),
            views(v@) =~= p.view().take(i as int),
        decreases n - i,
    {
        let ghost before = v@;
        v.push(p.components[i].clone());
        assert(views(v@) =~= views(before).push(p.view()[i as int]));
        assert(p.view().take(i + 1) =~= p.view().take(i as int).push(p.view()[i as int]));
        i += 1;
    }
    let r = AbsPath { components: v };
    assert(r.view() =~= p.view().drop_last());
    assert(r.wf()) by {
        assert forall|j: int| 0 <= j < r.view().len() implies normal_component(
            #[trigger] r.view()[j],
        ) by {
            assert(normal_component(p.view()[j]));
        }
    }
    Some(r)
}

proof fn lemma_common_prefix(a: Seq<Seq<char>>, b: Seq<Seq<char>>)
    ensures
        common_prefix_len(a, b) <= a.len(),
        common_prefix_len(a, b) <= b.len(),
        a.take(common_prefix_len(a, b) as int) == b.take(common_prefix_len(a, b) as int),
    decreases a.len(),
{
    let k = common_prefix_len(a, b) as int;
    if a.len() == 0 || b.len() == 0 || a[0] != b[0] {
        assert(a.take(0) =~= b.take(0));
    } else {
        lemma_common_prefix(a.drop_first(), b.drop_first());
        assert(a.take(k) =~= seq![a[0]] + a.drop_first().take(k - 1));
        assert(b.take(k) =~= seq![b[0]] + b.drop_first().take(k - 1));
    }
}

proof fn lemma_resolve_up(base: Seq<Seq<char>>, m: nat, rest: Seq<Seq<char>>)
    requires
        m <= base.len(),
    ensures
        resolve(base, Seq::new(m, |i: int| ".."@) + rest) == resolve(
            base.take(base.len() - m),
            rest,
        ),
    decreases m,
{
    let rel = Seq::new(m, |i: int| ".."@) + rest;
    if m == 0 {
        assert(rel =~= rest);
        assert(base.take(base.len() as int) =~= base);
    } else {
        assert(rel[0] == ".."@);
        assert(rel.drop_first() =~= Seq::new((m - 1) as nat, |i: int| ".."@) + rest);
        lemma_resolve_up(base.drop_last(), (m - 1) as nat, rest);
        assert(base.drop_last().take(base.drop_last().len() - (m - 1)) =~= base.take(
            base.len() - m,
        ));
    }
}

proof fn lemma_resolve_down(base: Seq<Seq<char>>, rest: Seq<Seq<char>>)
    requires
        normal_path(rest),
    ensures
        resolve(base, rest) == base + rest,
    decreases rest.len(),
{
    if rest.len() == 0 {
        assert(base + rest =~= base);
    } else {
        assert(normal_component(rest[0]));
        assert(normal_path(rest.drop_first())) by {
            assert forall|i: int| 0 <= i < rest.drop_first().len() implies normal_component(
                #[trigger] rest.drop_first()[i],
            ) by {
                assert(normal_component(rest[i + 1]));
            }
        }
        lemma_resolve_down(base.push(rest[0]), rest.drop_first());
        assert(base.push(rest[0]) + rest.drop_first() =~= base + rest);
    }
}

/// Walking the relative path from `base` to `path`, starting at `base`,
/// arrives at `path`.
pub proof fn relative_path_resolves_back(path: Seq<Seq<char>>, base: Seq<Seq<char>>)
    requires
        normal_path(path),
        normal_path(base),
    ensures
        resolve(base, relative_spec(path, base)) == path,
{
    lemma_common_prefix(path, base);
    let k = common_prefix_len(path, base) as int;
    let rest = path.subrange(k, path.len() as int);
    lemma_resolve_up(base, (base.len() - k) as nat, rest);
    assert(normal_path(rest)) by {
        assert forall|i: int| 0 <= i < rest.len() implies normal_component(#[trigger] rest[i]) by {
            assert(normal_component(path[i + k]));
        }
    }
    lemma_resolve_down(base.take(k), rest);
    assert(base.take(k) + rest =~= path);
}

/// The relative path from the directory `dest` to the directory of the
/// file `main`, followed by the file's name, walked from `dest`, arrives at
/// `main`.
pub proof fn relative_file_path_resolves_back(main: Seq<Seq<char>>, dest: Seq<Seq<char>>)
    requires
        normal_path(main),
        normal_path(dest),
        main.len() > 0,
    ensures
        resolve(dest, relative_spec(main.drop_last(), dest).push(main.last())) == main,
{
    let dir = main.drop_last();
    assert(normal_path(dir)) by {
        assert forall|i: int| 0 <= i < dir.len() implies normal_component(#[trigger] dir[i]) by {
            assert(normal_component(main[i]));
        }
    }
    lemma_common_prefix(dir, dest);
    let k = common_prefix_len(dir, dest) as int;
    let rest = dir.subrange(k, dir.len() as int).push(main.last());
    assert(relative_spec(dir, dest).push(main.last()) =~= Seq::new(
        (dest.len() - k) as nat,
        |i: int| ".."@,
    ) + rest);
    lemma_resolve_up(dest, (dest.len() - k) as nat, rest);
    assert(normal_path(rest)) by {
        assert forall|i: int| 0 <= i < rest.len() implies normal_component(#[trigger] rest[i]) by {
            if i < rest.len() - 1 {
                assert(normal_component(dir[i + k]));
            } else {
                assert(normal_component(main[main.len() - 1]));
            }
        }
    }
    lemma_resolve_down(dest.take(k), rest);
    assert(dest.take(k) + rest =~= main);
}

} // verus!

//! Alias-aware resolution of qualified paths against a built index.
//!
//! `resolve_path_from` walks a path segment by segment from a starting
//! node.  The reserved segment `self` is skipped, `super` is unsupported
//! and fails, and a leading crate-shorthand segment (the `crate` marker,
//! or the legacy `alloc_crate` name of the allocation crate) is rewritten
//! to a literal crate root before matching.  When a segment is not a
//! child of the current node, the alias directives whose defining scope
//! equals the accumulated search path are tried in declaration order: a
//! named directive applies when its local name equals the missed segment,
//! a glob directive when its target has a child of that name.  A
//! directive's target is resolved first relative to the node last left,
//! then absolutely from the index root; the first candidate whose
//! continuation succeeds wins.  A recursion-depth bound turns a cyclic
//! alias graph into a plain resolution failure instead of unbounded
//! recursion.
//!
//! The whole algorithm is restated as the spec functions `spec_resolve`
//! and `spec_try_aliases`; every executable function is proved to return
//! exactly what its spec function says.

use vstd::prelude::*;

use crate::index::find_child;
use crate::index::segs_view;
use crate::index::spec_lookup_child;
use crate::index::AliasView;
use crate::index::ConstructorView;
use crate::index::ItemView;
use crate::index::LocalAlias;
use crate::index::LocalAliasView;
use crate::index::VersionConstructor;
use crate::index::VersionedItem;

verus! {

/// Depth bound on alias-following recursion: a would-be infinite loop on
/// a cyclic alias graph becomes a plain resolution failure.  Eight
/// levels of indirection cover the re-export chains a standard library
/// shows, while keeping the work on a pathological cycle small.
pub const RESOLVE_FUEL: u64 = 8;

/// The legacy name of the allocation crate is rewritten to its literal
/// crate-root name before any matching.
pub open spec fn spec_norm(p: Seq<Seq<char>>) -> Seq<Seq<char>> {
    if p.len() > 0 && p[0] == "alloc_crate"@ {
        p.update(0, "alloc"@)
    } else {
        p
    }
}

pub open spec fn option_view(o: Option<&VersionedItem>) -> Option<ItemView> {
    match o {
        Some(n) => Some(n@),
        None => None,
    }
}

/// What resolution returns: the node `path` names, looked up from `cur`
/// (whose own qualified path is `cur_path`), following aliases.
pub open spec fn spec_resolve(
    root: ItemView,
    aliases: Seq<AliasView>,
    cur: ItemView,
    cur_path: Seq<Seq<char>>,
    path: Seq<Seq<char>>,
    last: Option<ItemView>,
    fuel: nat,
) -> Option<ItemView>
    decreases fuel, path.len(), aliases.len() + 1,
{
    let cpath = spec_norm(cur_path);
    if path.len() == 0 {
        Some(cur)
    } else if cpath.len() > 0 && path[0] == "crate"@ {
        match spec_lookup_child(root.children, cpath[0]) {
            Some(sub) => spec_resolve(
                root,
                aliases,
                sub,
                seq![cpath[0]],
                path.drop_first(),
                None,
                fuel,
            ),
            None => None,
        }
    } else if cpath.len() > 0 && path[0] == "alloc_crate"@ {
        match spec_lookup_child(root.children, "alloc"@) {
            Some(sub) => spec_resolve(
                root,
                aliases,
                sub,
                seq!["alloc"@],
                path.drop_first(),
                None,
                fuel,
            ),
            None => None,
        }
    } else if path[0] == "super"@ {
        None
    } else if path[0] == "self"@ {
        spec_resolve(root, aliases, cur, cpath, path.drop_first(), last, fuel)
    } else {
        match spec_lookup_child(cur.children, path[0]) {
            Some(child) => spec_resolve(
                root,
                aliases,
                child,
                cpath.push(path[0]),
                path.drop_first(),
                Some(cur),
                fuel,
            ),
            None => spec_try_aliases(root, aliases, 0, cpath, path, last, fuel),
        }
    }
}

/// Tries the alias directives from index `k` on, in declaration order,
/// against the missed segment `path[0]` in scope `cur_path`.
pub open spec fn spec_try_aliases(
    root: ItemView,
    aliases: Seq<AliasView>,
    k: int,
    cur_path: Seq<Seq<char>>,
    path: Seq<Seq<char>>,
    last: Option<ItemView>,
    fuel: nat,
) -> Option<ItemView>
    decreases fuel, path.len(), aliases.len() - k,
    when 0 <= k && path.len() > 0
{
    if k >= aliases.len() || fuel == 0 {
        None
    } else {
        let a = aliases[k];
        let next = spec_try_aliases(root, aliases, k + 1, cur_path, path, last, fuel);
        if a.root != cur_path {
            next
        } else {
            match a.local {
                LocalAliasView::Named(n) => {
                    if n != path[0] {
                        next
                    } else {
                        let base = if last is Some {
                            last
                        } else {
                            spec_resolve(
                                root,
                                aliases,
                                root,
                                Seq::empty(),
                                cur_path,
                                None,
                                (fuel - 1) as nat,
                            )
                        };
                        let rel_target = match base {
                            Some(b) => spec_resolve(
                                root,
                                aliases,
                                b,
                                cur_path,
                                a.relative_path,
                                None,
                                (fuel - 1) as nat,
                            ),
                            None => None,
                        };
                        let r1 = match rel_target {
                            Some(t) => spec_resolve(
                                root,
                                aliases,
                                t,
                                cur_path + a.relative_path,
                                path.drop_first(),
                                None,
                                (fuel - 1) as nat,
                            ),
                            None => None,
                        };
                        if r1 is Some {
                            r1
                        } else {
                            let abs_target = spec_resolve(
                                root,
                                aliases,
                                root,
                                Seq::empty(),
                                a.relative_path,
                                None,
                                (fuel - 1) as nat,
                            );
                            let r2 = match abs_target {
                                Some(t) => spec_resolve(
                                    root,
                                    aliases,
                                    t,
                                    a.relative_path,
                                    path.drop_first(),
                                    None,
                                    (fuel - 1) as nat,
                                ),
                                None => None,
                            };
                            if r2 is Some {
                                r2
                            } else {
                                next
                            }
                        }
                    }
                },
                LocalAliasView::GlobChildren => {
                    let base = if last is Some {
                        last
                    } else {
                        spec_resolve(
                            root,
                            aliases,
                            root,
                            Seq::empty(),
                            cur_path,
                            None,
                            (fuel - 1) as nat,
                        )
                    };
                    let rel_target = match base {
                        Some(b) => spec_resolve(
                            root,
                            aliases,
                            b,
                            cur_path,
                            a.relative_path,
                            None,
                            (fuel - 1) as nat,
                        ),
                        None => None,
                    };
                    let r1 = match rel_target {
                        Some(t) => if spec_lookup_child(t.children, path[0]) is Some {
                            spec_resolve(
                                root,
                                aliases,
                                t,
                                cur_path + a.relative_path,
                                path,
                                None,
                                (fuel - 1) as nat,
                            )
                        } else {
                            None
                        },
                        None => None,
                    };
                    if r1 is Some {
                        r1
                    } else {
                        let abs_target = spec_resolve(
                            root,
                            aliases,
                            root,
                            Seq::empty(),
                            a.relative_path,
                            None,
                            (fuel - 1) as nat,
                        );
                        let r2 = match abs_target {
                            Some(t) => if spec_lookup_child(t.children, path[0]) is Some {
                                spec_resolve(
                                    root,
                                    aliases,
                                    t,
                                    a.relative_path,
                                    path,
                                    None,
                                    (fuel - 1) as nat,
                                )
                            } else {
                                None
                            },
                            None => None,
                        };
                        if r2 is Some {
                            r2
                        } else {
                            next
                        }
                    }
                },
            }
        }
    }
}

/// The stabilization version `path` resolves to, from the index root.
pub open spec fn spec_get_version(cv: ConstructorView, path: Seq<Seq<char>>) -> Option<Seq<char>> {
    match spec_resolve(
        cv.root,
        cv.aliases,
        cv.root,
        Seq::empty(),
        path,
        None,
        RESOLVE_FUEL as nat,
    ) {
        Some(n) => Some(n.version),
        None => None,
    }
}

/// Determinism: resolving the same qualified path against an unchanged
/// index always returns the same result.
pub proof fn lemma_resolution_deterministic(
    c1: ConstructorView,
    c2: ConstructorView,
    p1: Seq<Seq<char>>,
    p2: Seq<Seq<char>>,
)
    requires
        c1 == c2,
        p1 == p2,
    ensures
        spec_get_version(c1, p1) == spec_get_version(c2, p2),
{
}

/// Copies a path; the copy's view is the original's.
pub fn clone_path(p: &Vec<String>) -> (r: Vec<String>)
    ensures
        segs_view(r@) == segs_view(p@),
        r@.len() == p@.len(),
{
    let mut r: Vec<String> = Vec::new();
    let mut i: usize = 0;
    while i < p.len()
        invariant
            0 <= i <= p.len(),
            r@.len() == i,
            forall|j: int| 0 <= j < i ==> r@[j] == p@[j],
        decreases p.len() - i,
    {
        r.push(p[i].clone());
        i = i + 1;
    }
    proof {
        assert(r@ =~= p@);
    }
    r
}

/// Concatenates two paths.
fn path_concat(a: &Vec<String>, b: &Vec<String>) -> (r: Vec<String>)
    ensures
        segs_view(r@) == segs_view(a@) + segs_view(b@),
{
    let mut r = clone_path(a);
    let mut i: usize = 0;
    while i < b.len()
        invariant
            0 <= i <= b.len(),
            r@.len() == a@.len() + i,
            forall|j: int| 0 <= j < a@.len() ==> segs_view(r@)[j] == segs_view(a@)[j],
            forall|j: int| 0 <= j < i ==> segs_view(r@)[a@.len() + j] == segs_view(b@)[j],
        decreases b.len() - i,
    {
        r.push(b[i].clone());
        i = i + 1;
    }
    proof {
        assert(segs_view(r@) =~= segs_view(a@) + segs_view(b@));
    }
    r
}

/// Compares two paths by their segments.
fn path_eq(a: &Vec<String>, b: &Vec<String>) -> (r: bool)
    ensures
        r == (segs_view(a@) == segs_view(b@)),
{
    if a.len() != b.len() {
        proof {
            assert(segs_view(a@).len() == a@.len());
            assert(segs_view(b@).len() == b@.len());
        }
        return false;
    }
    let mut i: usize = 0;
    while i < a.len()
        invariant
            0 <= i <= a.len(),
            a@.len() == b@.len(),
            forall|j: int| 0 <= j < i ==> segs_view(a@)[j] == segs_view(b@)[j],
        decreases a.len() - i,
    {
        if !a[i].eq(&b[i]) {
            proof {
                assert(segs_view(a@)[i as int] == a@[i as int]@);
                assert(segs_view(b@)[i as int] == b@[i as int]@);
            }
            return false;
        }
        proof {
            assert(segs_view(a@)[i as int] == a@[i as int]@);
            assert(segs_view(b@)[i as int] == b@[i as int]@);
        }
        i = i + 1;
    }
    proof {
        assert(segs_view(a@) =~= segs_view(b@));
    }
    true
}

/// Rewrites a leading legacy allocation-crate segment.
fn norm_path(p: &Vec<String>) -> (r: Vec<String>)
    ensures
        segs_view(r@) == spec_norm(segs_view(p@)),
{
    if p.len() > 0 && p[0].eq(&"alloc_crate".to_owned()) {
        let mut r: Vec<String> = Vec::new();
        r.push("alloc".to_owned());
        let mut i: usize = 1;
        while i < p.len()
            invariant
                1 <= i <= p.len(),
                p@.len() > 0,
                r@.len() == i,
                r@[0]@ == "alloc"@,
                forall|j: int| 1 <= j < i ==> r@[j] == p@[j],
            decreases p.len() - i,
        {
            r.push(p[i].clone());
            i = i + 1;
        }
        proof {
            assert(segs_view(r@) =~= spec_norm(segs_view(p@)));
        }
        r
    } else {
        let r = clone_path(p);
        r
    }
}

impl VersionConstructor {
    /// Resolves `path` (from position `pos`) against the frozen index,
    /// starting at `cur`, whose own qualified path is `cur_path`; `last`
    /// is the node left by the previous descent, `fuel` bounds alias
    /// recursion.
    fn resolve_at<'a>(
        &'a self,
        cur: &'a VersionedItem,
        cur_path: &Vec<String>,
        path: &Vec<String>,
        pos: usize,
        last: Option<&'a VersionedItem>,
        fuel: u64,
    ) -> (r: Option<&'a VersionedItem>)
        requires
            pos <= path@.len(),
        ensures
            ({
                let sr = spec_resolve(
                    self@.root,
                    self@.aliases,
                    cur@,
                    segs_view(cur_path@),
                    segs_view(path@).skip(pos as int),
                    option_view(last),
                    fuel as nat,
                );
                match r {
                    Some(n) => sr == Some(n@),
                    None => sr is None,
                }
            }),
        decreases fuel, path@.len() - pos, self.aliases@.len() + 1,
    {
        let ghost sp = segs_view(path@).skip(pos as int);
        let npath = norm_path(cur_path);
        let ghost cpath = spec_norm(segs_view(cur_path@));
        if pos >= path.len() {
            return Some(cur);
        }
        proof {
            assert(sp[0] == path@[pos as int]@);
            assert(sp.drop_first() =~= segs_view(path@).skip(pos as int + 1));
        }
        if npath.len() > 0 && path[pos].eq(&"crate".to_owned()) {
            match find_child(&self.root, &npath[0]) {
                Some(sub) => {
                    let mut rp: Vec<String> = Vec::new();
                    rp.push(npath[0].clone());
                    proof {
                        assert(segs_view(rp@) =~= seq![cpath[0]]);
                    }
                    return self.resolve_at(sub, &rp, path, pos + 1, None, fuel);
                },
                None => {
                    return None;
                },
            }
        }
        if npath.len() > 0 && path[pos].eq(&"alloc_crate".to_owned()) {
            match find_child(&self.root, &"alloc".to_owned()) {
                Some(sub) => {
                    let mut rp: Vec<String> = Vec::new();
                    rp.push("alloc".to_owned());
                    proof {
                        assert(segs_view(rp@) =~= seq!["alloc"@]);
                    }
                    return self.resolve_at(sub, &rp, path, pos + 1, None, fuel);
                },
                None => {
                    return None;
                },
            }
        }
        if path[pos].eq(&"super".to_owned()) {
            return None;
        }
        if path[pos].eq(&"self".to_owned()) {
            return self.resolve_at(cur, &npath, path, pos + 1, last, fuel);
        }
        match find_child(cur, &path[pos]) {
            Some(child) => {
                let mut np = npath;
                np.push(path[pos].clone());
                proof {
                    assert(segs_view(np@) =~= cpath.push(sp[0]));
                }
                self.resolve_at(child, &np, path, pos + 1, Some(cur), fuel)
            },
            None => self.try_alias_from(0, &npath, path, pos, last, fuel),
        }
    }

    /// Tries the alias directives from index `k` on against the missed
    /// segment `path[pos]` in scope `cur_path`.
    fn try_alias_from<'a>(
        &'a self,
        k: usize,
        cur_path: &Vec<String>,
        path: &Vec<String>,
        pos: usize,
        last: Option<&'a VersionedItem>,
        fuel: u64,
    ) -> (r: Option<&'a VersionedItem>)
        requires
            pos < path@.len(),
        ensures
            ({
                let sr = spec_try_aliases(
                    self@.root,
                    self@.aliases,
                    k as int,
                    segs_view(cur_path@),
                    segs_view(path@).skip(pos as int),
                    option_view(last),
                    fuel as nat,
                );
                match r {
                    Some(n) => sr == Some(n@),
                    None => sr is None,
                }
            }),
        decreases fuel, path@.len() - pos, self.aliases@.len() - k,
    {
        let plen = path.len();
        assert(pos < plen);
        let ghost sp = segs_view(path@).skip(pos as int);
        proof {
            assert(sp[0] == path@[pos as int]@);
            assert(sp.drop_first() =~= segs_view(path@).skip(pos as int + 1));
        }
        if k >= self.aliases.len() || fuel == 0 {
            return None;
        }
        let a = &self.aliases[k];
        proof {
            assert(self@.aliases[k as int] == self.aliases@[k as int]@);
        }
        if !path_eq(&a.root, cur_path) {
            return self.try_alias_from(k + 1, cur_path, path, pos, last, fuel);
        }
        let empty: Vec<String> = Vec::new();
        proof {
            assert(segs_view(empty@) =~= Seq::<Seq<char>>::empty());
            assert(segs_view(cur_path@).skip(0) =~= segs_view(cur_path@));
            assert(segs_view(a.relative_path@).skip(0) =~= segs_view(a.relative_path@));
        }
        match &a.local {
            LocalAlias::Named(n) => {
                if !n.eq(&path[pos]) {
                    return self.try_alias_from(k + 1, cur_path, path, pos, last, fuel);
                }
                let base = match last {
                    Some(b) => Some(b),
                    None => self.resolve_at(&self.root, &empty, cur_path, 0, None, fuel - 1),
                };
                let rel_target = match base {
                    Some(b) => self.resolve_at(b, cur_path, &a.relative_path, 0, None, fuel - 1),
                    None => None,
                };
                let r1 = match rel_target {
                    Some(t) => {
                        let joined = path_concat(cur_path, &a.relative_path);
                        self.resolve_at(t, &joined, path, pos + 1, None, fuel - 1)
                    },
                    None => None,
                };
                if r1.is_some() {
                    return r1;
                }
                let abs_target = self.resolve_at(
                    &self.root,
                    &empty,
                    &a.relative_path,
                    0,
                    None,
                    fuel - 1,
                );
                let r2 = match abs_target {
                    Some(t) => self.resolve_at(t, &a.relative_path, path, pos + 1, None, fuel - 1),
                    None => None,
                };
                if r2.is_some() {
                    return r2;
                }
                self.try_alias_from(k + 1, cur_path, path, pos, last, fuel)
            },
            LocalAlias::GlobChildren => {
                let base = match last {
                    Some(b) => Some(b),
                    None => self.resolve_at(&self.root, &empty, cur_path, 0, None, fuel - 1),
                };
                let rel_target = match base {
                    Some(b) => self.resolve_at(b, cur_path, &a.relative_path, 0, None, fuel - 1),
                    None => None,
                };
                let r1 = match rel_target {
                    Some(t) => {
                        if find_child(t, &path[pos]).is_some() {
                            let joined = path_concat(cur_path, &a.relative_path);
                            self.resolve_at(t, &joined, path, pos, None, fuel - 1)
                        } else {
                            None
                        }
                    },
                    None => None,
                };
                if r1.is_some() {
                    return r1;
                }
                let abs_target = self.resolve_at(
                    &self.root,
                    &empty,
                    &a.relative_path,
                    0,
                    None,
                    fuel - 1,
                );
                let r2 = match abs_target {
                    Some(t) => {
                        if find_child(t, &path[pos]).is_some() {
                            self.resolve_at(t, &a.relative_path, path, pos, None, fuel - 1)
                        } else {
                            None
                        }
                    },
                    None => None,
                };
                if r2.is_some() {
                    return r2;
                }
                self.try_alias_from(k + 1, cur_path, path, pos, last, fuel)
            },
        }
    }

    /// Resolves `path` relative to `root`, whose own qualified path is
    /// `root_path`, following aliases with the standard depth bound.
    pub fn resolve_path_from<'a>(
        &'a self,
        root: &'a VersionedItem,
        root_path: &Vec<String>,
        path: &Vec<String>,
    ) -> (r: Option<&'a VersionedItem>)
        ensures
            ({
                let sr = spec_resolve(
                    self@.root,
                    self@.aliases,
                    root@,
                    segs_view(root_path@),
                    segs_view(path@),
                    None,
                    RESOLVE_FUEL as nat,
                );
                match r {
                    Some(n) => sr == Some(n@),
                    None => sr is None,
                }
            }),
    {
        proof {
            assert(segs_view(path@).skip(0) =~= segs_view(path@));
        }
        self.resolve_at(root, root_path, path, 0, None, RESOLVE_FUEL)
    }

    /// The stabilization version `path` resolves to from the index root,
    /// or nothing when resolution fails.
    pub fn get_version<'a>(&'a self, path: &Vec<String>) -> (r: Option<&'a String>)
        ensures
            ({
                let sv = spec_get_version(self@, segs_view(path@));
                match r {
                    Some(v) => sv == Some(v@),
                    None => sv is None,
                }
            }),
    {
        let empty: Vec<String> = Vec::new();
        proof {
            assert(segs_view(empty@) =~= Seq::<Seq<char>>::empty());
        }
        match self.resolve_path_from(&self.root, &empty, path) {
            Some(item) => Some(&item.version),
            None => None,
        }
    }
}

} // verus!

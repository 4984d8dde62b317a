//! Index construction: scanning declarations into the versioned tree.
//!
//! For every declaration kind that can carry a stability marker the
//! builder records a tree entry under the current scope; module nesting
//! pushes and pops the scope stack, inherent-impl blocks re-root it onto
//! the implementing type's path, impls of traits are skipped (a declared
//! limitation), and `use` trees produce alias directives plus a stability
//! entry for directly imported names.
//!
//! Every traversal function is proved equal to its spec mirror
//! (`spec_build_item` and friends), which restates the construction as a
//! pure fold over the builder-state model.

use vstd::prelude::*;

use crate::ast::ImplItem;
use crate::ast::Item;
use crate::ast::SourceFile;
use crate::ast::TraitItem;
use crate::ast::Ty;
use crate::ast::UseTree;
use crate::ast::Variant;
use crate::index::segs_view;
use crate::index::spec_set_at;
use crate::index::AliasView;
use crate::index::ConstructorView;
use crate::index::LocalAlias;
use crate::index::LocalAliasView;
use crate::index::VersionConstructor;

verus! {

/// Records one stability entry under the current scope: nothing happens
/// without a `since` string.
pub open spec fn spec_record(
    cv: ConstructorView,
    name: Seq<char>,
    since: Option<String>,
    public: bool,
) -> ConstructorView {
    match since {
        Some(v) => ConstructorView {
            root: spec_set_at(cv.root, cv.path_stack.push(name), 0, v@, public),
            aliases: cv.aliases,
            path_stack: cv.path_stack,
        },
        None => cv,
    }
}

/// Appends one alias directive.
pub open spec fn spec_add_alias(
    cv: ConstructorView,
    root: Seq<Seq<char>>,
    relative_path: Seq<Seq<char>>,
    local: LocalAliasView,
) -> ConstructorView {
    ConstructorView {
        root: cv.root,
        aliases: cv.aliases.push(AliasView { root, relative_path, local }),
        path_stack: cv.path_stack,
    }
}

pub open spec fn spec_push_scope(cv: ConstructorView, name: Seq<char>) -> ConstructorView {
    ConstructorView {
        root: cv.root,
        aliases: cv.aliases,
        path_stack: cv.path_stack.push(name),
    }
}

pub open spec fn spec_pop_scope(cv: ConstructorView, n: int) -> ConstructorView {
    ConstructorView {
        root: cv.root,
        aliases: cv.aliases,
        path_stack: if 0 <= n <= cv.path_stack.len() {
            cv.path_stack.take(cv.path_stack.len() - n)
        } else {
            cv.path_stack
        },
    }
}

/// The scope prefix an inherent impl re-roots onto: the segments of the
/// implementing type's path, found through parenthesis-like wrappers.
pub open spec fn spec_push_type(cv: ConstructorView, ty: Ty) -> Option<(ConstructorView, int)>
    decreases ty,
{
    match ty {
        Ty::Group(t) => spec_push_type(cv, *t),
        Ty::Paren(t) => spec_push_type(cv, *t),
        Ty::Path(segs) => Some(
            (
                ConstructorView {
                    root: cv.root,
                    aliases: cv.aliases,
                    path_stack: cv.path_stack + segs_view(segs@),
                },
                segs@.len() as int,
            ),
        ),
        _ => None,
    }
}

pub open spec fn spec_build_variants(cv: ConstructorView, s: Seq<Variant>, i: int) -> ConstructorView
    decreases s, s.len() - i,
{
    if i < 0 || i >= s.len() {
        cv
    } else {
        spec_build_variants(
            spec_record(cv, s[i].name@, s[i].since, true),
            s,
            i + 1,
        )
    }
}

pub open spec fn spec_build_trait_item(cv: ConstructorView, it: TraitItem) -> ConstructorView {
    match it {
        TraitItem::Const { name, since, .. } => spec_record(cv, name@, since, true),
        TraitItem::Fn { since, sig, .. } => spec_record(cv, sig.name@, since, true),
        TraitItem::TyAlias { name, since, .. } => spec_record(cv, name@, since, true),
        TraitItem::Other => cv,
    }
}

pub open spec fn spec_build_trait_items(
    cv: ConstructorView,
    s: Seq<TraitItem>,
    i: int,
) -> ConstructorView
    decreases s, s.len() - i,
{
    if i < 0 || i >= s.len() {
        cv
    } else {
        spec_build_trait_items(spec_build_trait_item(cv, s[i]), s, i + 1)
    }
}

pub open spec fn spec_build_impl_item(cv: ConstructorView, it: ImplItem) -> ConstructorView {
    match it {
        ImplItem::Const { name, since, public, .. } => spec_record(cv, name@, since, public),
        ImplItem::Fn { since, public, sig, .. } => spec_record(cv, sig.name@, since, public),
        ImplItem::TyAlias { name, since, public, .. } => spec_record(cv, name@, since, public),
        ImplItem::Other => cv,
    }
}

pub open spec fn spec_build_impl_items(
    cv: ConstructorView,
    s: Seq<ImplItem>,
    i: int,
) -> ConstructorView
    decreases s, s.len() - i,
{
    if i < 0 || i >= s.len() {
        cv
    } else {
        spec_build_impl_items(spec_build_impl_item(cv, s[i]), s, i + 1)
    }
}

/// What walking one `use` tree does: `Path` segments accumulate a
/// relative path (`self` elided), a terminal name or rename appends one
/// named directive plus a stability entry, a glob appends a glob
/// directive, a group fans the prefix out over its members.
pub open spec fn spec_build_use_tree(
    cv: ConstructorView,
    prefix: Seq<Seq<char>>,
    t: UseTree,
    since: Option<String>,
    public: bool,
) -> ConstructorView
    decreases t, 0int,
{
    match t {
        UseTree::Path { ident, tree } => {
            let p = if ident@ == "self"@ {
                prefix
            } else {
                prefix.push(ident@)
            };
            spec_build_use_tree(cv, p, *tree, since, public)
        },
        UseTree::Name { ident } => {
            if ident@ != "self"@ {
                let cv1 = spec_add_alias(
                    cv,
                    cv.path_stack,
                    prefix.push(ident@),
                    LocalAliasView::Named(ident@),
                );
                spec_record(cv1, ident@, since, public)
            } else if prefix.len() == 0 {
                cv
            } else {
                let cv1 = spec_add_alias(
                    cv,
                    cv.path_stack,
                    prefix,
                    LocalAliasView::Named(prefix.last()),
                );
                spec_record(cv1, ident@, since, public)
            }
        },
        UseTree::Rename { ident, rename } => {
            let p = if ident@ == "self"@ {
                prefix
            } else {
                prefix.push(ident@)
            };
            let cv1 = spec_add_alias(cv, cv.path_stack, p, LocalAliasView::Named(rename@));
            spec_record(cv1, ident@, since, public)
        },
        UseTree::Glob => spec_add_alias(cv, cv.path_stack, prefix, LocalAliasView::GlobChildren),
        UseTree::Group { items } => spec_build_use_trees(cv, prefix, items@, 0, since, public),
    }
}

pub open spec fn spec_build_use_trees(
    cv: ConstructorView,
    prefix: Seq<Seq<char>>,
    s: Seq<UseTree>,
    i: int,
    since: Option<String>,
    public: bool,
) -> ConstructorView
    decreases s, s.len() - i,
{
    if i < 0 || i >= s.len() {
        cv
    } else {
        spec_build_use_trees(
            spec_build_use_tree(cv, prefix, s[i], since, public),
            prefix,
            s,
            i + 1,
            since,
            public,
        )
    }
}

/// What processing one item does to the builder state.
pub open spec fn spec_build_item(cv: ConstructorView, it: Item) -> ConstructorView
    decreases it, 0int,
{
    match it {
        Item::Const { name, since, public, .. } => spec_record(cv, name@, since, public),
        Item::Enum { name, since, public, variants } => {
            let cv1 = spec_record(cv, name@, since, public);
            let cv2 = spec_push_scope(cv1, name@);
            let cv3 = spec_build_variants(cv2, variants@, 0);
            spec_pop_scope(cv3, 1)
        },
        Item::Fn { since, public, sig, .. } => spec_record(cv, sig.name@, since, public),
        Item::Impl { trait_path, self_ty, items } => {
            if trait_path is Some {
                cv
            } else {
                match spec_push_type(cv, self_ty) {
                    Some((cv1, n)) => spec_pop_scope(spec_build_impl_items(cv1, items@, 0), n),
                    None => cv,
                }
            }
        },
        Item::Mod { name, since, public, content } => {
            match content {
                Some(items) => {
                    let cv1 = spec_record(cv, name@, since, public);
                    let cv2 = spec_push_scope(cv1, name@);
                    let cv3 = spec_build_items(cv2, items@, 0);
                    spec_pop_scope(cv3, 1)
                },
                None => cv,
            }
        },
        Item::Static { name, since, public, .. } => spec_record(cv, name@, since, public),
        Item::Struct { name, since, public, .. } => spec_record(cv, name@, since, public),
        Item::Trait { name, since, public, items } => {
            let cv1 = spec_record(cv, name@, since, public);
            let cv2 = spec_push_scope(cv1, name@);
            let cv3 = spec_build_trait_items(cv2, items@, 0);
            spec_pop_scope(cv3, 1)
        },
        Item::TraitAlias { name, since, public } => spec_record(cv, name@, since, public),
        Item::TyAlias { name, since, public, .. } => spec_record(cv, name@, since, public),
        Item::Union { name, since, public } => spec_record(cv, name@, since, public),
        Item::Use { since, tree } => spec_build_use_tree(cv, Seq::empty(), tree, since, false),
        Item::Other => cv,
    }
}

pub open spec fn spec_build_items(cv: ConstructorView, s: Seq<Item>, i: int) -> ConstructorView
    decreases s, s.len() - i,
{
    if i < 0 || i >= s.len() {
        cv
    } else {
        spec_build_items(spec_build_item(cv, s[i]), s, i + 1)
    }
}

/// What processing one named source file does: its items are scanned
/// under the crate-name scope.
pub open spec fn spec_build_file(cv: ConstructorView, name: Seq<char>, f: SourceFile) -> ConstructorView {
    spec_pop_scope(spec_build_items(spec_push_scope(cv, name), f.items@, 0), 1)
}

impl VersionConstructor {
    /// Records a stability entry for `name` when `since` carries one.
    fn record(&mut self, name: &String, since: &Option<String>, public: bool)
        ensures
            final(self)@ == spec_record(old(self)@, name@, *since, public),
    {
        match since {
            Some(v) => {
                let ghost cv = self@;
                self.push_path(name.clone());
                proof {
                    assert(self@.path_stack =~= cv.path_stack.push(name@));
                }
                self.push_version(v, public);
                self.pop_path();
                proof {
                    assert(self@.path_stack =~= cv.path_stack);
                    assert(self@.aliases =~= cv.aliases);
                }
            },
            None => {},
        }
    }

    /// Re-roots the scope stack onto the implementing type's dotted path;
    /// returns how many segments were pushed.
    fn push_type(&mut self, ty: &Ty) -> (r: Option<usize>)
        ensures
            match r {
                Some(n) => spec_push_type(old(self)@, *ty) == Some((final(self)@, n as int)),
                None => spec_push_type(old(self)@, *ty) is None && final(self)@ == old(self)@,
            },
        decreases *ty,
    {
        match ty {
            Ty::Group(t) => self.push_type(t),
            Ty::Paren(t) => self.push_type(t),
            Ty::Path(segs) => {
                let mut i: usize = 0;
                while i < segs.len()
                    invariant
                        0 <= i <= segs@.len(),
                        self@.root == old(self)@.root,
                        self@.aliases =~= old(self)@.aliases,
                        self@.path_stack =~= old(self)@.path_stack + segs_view(segs@).take(
                            i as int,
                        ),
                    decreases segs@.len() - i,
                {
                    self.push_path(segs[i].clone());
                    proof {
                        assert(segs_view(segs@).take(i + 1) =~= segs_view(segs@).take(
                            i as int,
                        ).push(segs@[i as int]@));
                        assert(self@.path_stack =~= old(self)@.path_stack + segs_view(
                            segs@,
                        ).take(i + 1));
                    }
                    i = i + 1;
                }
                proof {
                    assert(segs_view(segs@).take(segs@.len() as int) =~= segs_view(segs@));
                }
                Some(segs.len())
            },
            _ => None,
        }
    }

    /// Walks one `use` tree, accumulating the relative path in `prefix`.
    #[verifier::loop_isolation(false)]
    fn process_use_tree(
        &mut self,
        prefix: &Vec<String>,
        tree: &UseTree,
        since: &Option<String>,
        public: bool,
    )
        ensures
            final(self)@ == spec_build_use_tree(
                old(self)@,
                segs_view(prefix@),
                *tree,
                *since,
                public,
            ),
        decreases *tree, 0int,
    {
        match tree {
            UseTree::Path { ident, tree: sub } => {
                if ident.eq(&"self".to_owned()) {
                    self.process_use_tree(prefix, &**sub, since, public);
                } else {
                    let mut p = crate::resolve::clone_path(prefix);
                    p.push(ident.clone());
                    proof {
                        assert(segs_view(p@) =~= segs_view(prefix@).push(ident@));
                    }
                    self.process_use_tree(&p, &**sub, since, public);
                }
            },
            UseTree::Name { ident } => {
                if !ident.eq(&"self".to_owned()) {
                    let root = crate::resolve::clone_path(&self.path_stack);
                    let mut rel = crate::resolve::clone_path(prefix);
                    rel.push(ident.clone());
                    proof {
                        assert(segs_view(rel@) =~= segs_view(prefix@).push(ident@));
                    }
                    self.push_alias(root, rel, LocalAlias::Named(ident.clone()));
                    self.record(ident, since, public);
                } else if prefix.len() == 0 {
                } else {
                    let root = crate::resolve::clone_path(&self.path_stack);
                    let rel = crate::resolve::clone_path(prefix);
                    let local_name = rel[rel.len() - 1].clone();
                    proof {
                        assert(segs_view(rel@)[prefix@.len() - 1] == segs_view(prefix@).last());
                    }
                    self.push_alias(root, rel, LocalAlias::Named(local_name));
                    self.record(ident, since, public);
                }
            },
            UseTree::Rename { ident, rename } => {
                let root = crate::resolve::clone_path(&self.path_stack);
                let rel = if ident.eq(&"self".to_owned()) {
                    crate::resolve::clone_path(prefix)
                } else {
                    let mut p = crate::resolve::clone_path(prefix);
                    p.push(ident.clone());
                    proof {
                        assert(segs_view(p@) =~= segs_view(prefix@).push(ident@));
                    }
                    p
                };
                self.push_alias(root, rel, LocalAlias::Named(rename.clone()));
                self.record(ident, since, public);
            },
            UseTree::Glob => {
                let root = crate::resolve::clone_path(&self.path_stack);
                let rel = crate::resolve::clone_path(prefix);
                self.push_alias(root, rel, LocalAlias::GlobChildren);
            },
            UseTree::Group { items } => {
                let mut i: usize = 0;
                while i < items.len()
                    invariant
                        0 <= i <= items@.len(),
                        spec_build_use_trees(
                            old(self)@,
                            segs_view(prefix@),
                            items@,
                            0,
                            *since,
                            public,
                        ) == spec_build_use_trees(
                            self@,
                            segs_view(prefix@),
                            items@,
                            i as int,
                            *since,
                            public,
                        ),
                    decreases items@.len() - i,
                {
                    proof {
                        assert(decreases_to!(*tree => tree->Group_items));
                        assert(decreases_to!(tree->Group_items => tree->Group_items@));
                        assert(decreases_to!(tree->Group_items@ => tree->Group_items@[i as int]));
                        assert(decreases_to!(*tree => items@[i as int]));
                    }
                    self.process_use_tree(prefix, &items[i], since, public);
                    i = i + 1;
                }
            },
        }
    }

    /// Scans one item: declarations with stability markers become tree
    /// entries, imports become alias directives, the rest is a no-op.
    #[verifier::loop_isolation(false)]
    pub fn process_item(&mut self, it: &Item)
        ensures
            final(self)@ == spec_build_item(old(self)@, *it),
        decreases *it, 0int,
    {
        match it {
            Item::Const { name, since, public, .. } => self.record(name, since, *public),
            Item::Enum { name, since, public, variants } => {
                self.record(name, since, *public);
                self.push_path(name.clone());
                let mut i: usize = 0;
                while i < variants.len()
                    invariant
                        0 <= i <= variants@.len(),
                        spec_build_variants(
                            spec_push_scope(
                                spec_record(old(self)@, name@, *since, *public),
                                name@,
                            ),
                            variants@,
                            0,
                        ) == spec_build_variants(self@, variants@, i as int),
                    decreases variants@.len() - i,
                {
                    self.record(&variants[i].name, &variants[i].since, true);
                    i = i + 1;
                }
                self.pop_path();
            },
            Item::Fn { since, public, sig, .. } => self.record(&sig.name, since, *public),
            Item::Impl { trait_path, self_ty, items } => {
                if trait_path.is_some() {
                    return ;
                }
                match self.push_type(self_ty) {
                    Some(n) => {
                        let ghost cv1 = self@;
                        let mut i: usize = 0;
                        while i < items.len()
                            invariant
                                0 <= i <= items@.len(),
                                spec_build_impl_items(cv1, items@, 0) == spec_build_impl_items(
                                    self@,
                                    items@,
                                    i as int,
                                ),
                            decreases items@.len() - i,
                        {
                            match &items[i] {
                                ImplItem::Const { name, since, public, .. } => self.record(
                                    name,
                                    since,
                                    *public,
                                ),
                                ImplItem::Fn { since, public, sig, .. } => self.record(
                                    &sig.name,
                                    since,
                                    *public,
                                ),
                                ImplItem::TyAlias { name, since, public, .. } => self.record(
                                    name,
                                    since,
                                    *public,
                                ),
                                ImplItem::Other => {},
                            }
                            i = i + 1;
                        }
                        if n <= self.path_stack.len() {
                            self.pop_path_n(n);
                        }
                    },
                    None => {},
                }
            },
            Item::Mod { name, since, public, content } => {
                match content {
                    Some(items) => {
                        self.record(name, since, *public);
                        self.push_path(name.clone());
                        let ghost cv2 = self@;
                        let mut i: usize = 0;
                        while i < items.len()
                            invariant
                                0 <= i <= items@.len(),
                                spec_build_items(cv2, items@, 0) == spec_build_items(
                                    self@,
                                    items@,
                                    i as int,
                                ),
                            decreases items@.len() - i,
                        {
                            proof {
                                assert(decreases_to!(*it => it->Mod_content));
                                assert(decreases_to!(it->Mod_content => it->Mod_content->0));
                                assert(decreases_to!(it->Mod_content->0 => it->Mod_content->0@));
                                assert(decreases_to!(
                                    it->Mod_content->0@ => it->Mod_content->0@[i as int]));
                                assert(decreases_to!(*it => items@[i as int]));
                            }
                            self.process_item(&items[i]);
                            i = i + 1;
                        }
                        self.pop_path();
                    },
                    None => {},
                }
            },
            Item::Static { name, since, public, .. } => self.record(name, since, *public),
            Item::Struct { name, since, public, .. } => self.record(name, since, *public),
            Item::Trait { name, since, public, items } => {
                self.record(name, since, *public);
                self.push_path(name.clone());
                let ghost cv2 = self@;
                let mut i: usize = 0;
                while i < items.len()
                    invariant
                        0 <= i <= items@.len(),
                        spec_build_trait_items(cv2, items@, 0) == spec_build_trait_items(
                            self@,
                            items@,
                            i as int,
                        ),
                    decreases items@.len() - i,
                {
                    match &items[i] {
                        TraitItem::Const { name: n, since: s, .. } => self.record(n, s, true),
                        TraitItem::Fn { since: s, sig, .. } => self.record(&sig.name, s, true),
                        TraitItem::TyAlias { name: n, since: s, .. } => self.record(n, s, true),
                        TraitItem::Other => {},
                    }
                    i = i + 1;
                }
                self.pop_path();
            },
            Item::TraitAlias { name, since, public } => self.record(name, since, *public),
            Item::TyAlias { name, since, public, .. } => self.record(name, since, *public),
            Item::Union { name, since, public } => self.record(name, since, *public),
            Item::Use { since, tree } => {
                let empty: Vec<String> = Vec::new();
                proof {
                    assert(segs_view(empty@) =~= Seq::<Seq<char>>::empty());
                }
                self.process_use_tree(&empty, tree, since, false);
            },
            Item::Other => {},
        }
    }

    /// Scans one named source file: every top-level item under the
    /// crate-name scope.
    pub fn process_file(&mut self, name: String, file: &SourceFile)
        ensures
            final(self)@ == spec_build_file(old(self)@, name@, *file),
    {
        self.push_path(name);
        let ghost cv1 = self@;
        let mut i: usize = 0;
        while i < file.items.len()
            invariant
                0 <= i <= file.items@.len(),
                spec_build_items(cv1, file.items@, 0) == spec_build_items(
                    self@,
                    file.items@,
                    i as int,
                ),
            decreases file.items@.len() - i,
        {
            self.process_item(&file.items[i]);
            i = i + 1;
        }
        self.pop_path();
    }
}

} // verus!

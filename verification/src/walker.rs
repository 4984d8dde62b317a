//! The usage walker: extracting qualified references from a package's
//! syntax tree and counting expressions and unsafe expressions.
//!
//! The walker visits every item, statement, type annotation and
//! expression in depth-first pre-order.  Every visited expression node
//! counts once; while the unsafe-nesting depth is positive it also
//! counts as an unsafe expression.  Every qualified path met in an
//! expression position, a type position or a `use` import is submitted
//! to the resolver; a successful resolution bumps that version's
//! occurrence count, a failure contributes nothing.  An `unsafe` block
//! or function raises the depth on entry and restores it on exit; the
//! explicitly unhandled constructs are no-ops.
//!
//! Every traversal function is proved equal to its spec mirror
//! (`spec_walk_expr` and friends), which restates the walk as a pure
//! computation of a `WalkCounts`: how many expressions, how many of them
//! unsafe, how much transient unsafe depth, and the multiset of resolved
//! stabilization versions.

use vstd::prelude::*;
use vstd::multiset::Multiset;

use crate::ast::Arm;
use crate::ast::Block;
use crate::ast::Expr;
use crate::ast::FnArg;
use crate::ast::ImplItem;
use crate::ast::Item;
use crate::ast::Signature;
use crate::ast::SourceFile;
use crate::ast::Stmt;
use crate::ast::TraitItem;
use crate::ast::Ty;
use crate::ast::UseTree;
use crate::ast::Variant;
use crate::index::segs_view;
use crate::index::ConstructorView;
use crate::index::VersionConstructor;
use crate::resolve::spec_get_version;

verus! {

broadcast use vstd::multiset::group_multiset_axioms;

pub open spec fn nmax(a: nat, b: nat) -> nat {
    if a >= b {
        a
    } else {
        b
    }
}

/// What one subtree contributes to a walk: expression and unsafe counts,
/// the transient unsafe depth it adds, and the resolved versions.
pub ghost struct WalkCounts {
    pub exprs: nat,
    pub unsafe_exprs: nat,
    pub depth: nat,
    pub versions: Multiset<Seq<char>>,
}

impl WalkCounts {
    pub open spec fn zero() -> WalkCounts {
        WalkCounts { exprs: 0, unsafe_exprs: 0, depth: 0, versions: Multiset::empty() }
    }

    /// One visited expression node, unsafe when the depth is positive.
    pub open spec fn tally(u: bool) -> WalkCounts {
        WalkCounts {
            exprs: 1,
            unsafe_exprs: if u {
                1nat
            } else {
                0nat
            },
            depth: 0,
            versions: Multiset::empty(),
        }
    }

    /// Only path submissions, no expressions.
    pub open spec fn only(ms: Multiset<Seq<char>>) -> WalkCounts {
        WalkCounts { exprs: 0, unsafe_exprs: 0, depth: 0, versions: ms }
    }

    /// Sequential composition: counts add, transient depths take the
    /// larger side.
    pub open spec fn add(self, o: WalkCounts) -> WalkCounts {
        WalkCounts {
            exprs: self.exprs + o.exprs,
            unsafe_exprs: self.unsafe_exprs + o.unsafe_exprs,
            depth: nmax(self.depth, o.depth),
            versions: self.versions.add(o.versions),
        }
    }

    /// One unsafe level entered around this subtree.
    pub open spec fn deepen(self) -> WalkCounts {
        WalkCounts {
            exprs: self.exprs,
            unsafe_exprs: self.unsafe_exprs,
            depth: self.depth + 1,
            versions: self.versions,
        }
    }
}

/// What submitting one qualified path contributes: the version it
/// resolves to, or nothing.
pub open spec fn spec_submit(cv: ConstructorView, p: Seq<Seq<char>>) -> Multiset<Seq<char>> {
    match spec_get_version(cv, p) {
        Some(v) => Multiset::empty().insert(v),
        None => Multiset::empty(),
    }
}

pub open spec fn spec_walk_ty(cv: ConstructorView, t: Ty) -> Multiset<Seq<char>>
    decreases t, 1int, 0int,
{
    match t {
        Ty::Array(e) => spec_walk_ty(cv, *e),
        Ty::BareFn { inputs, output } => spec_walk_tys(cv, inputs@, 0).add(
            match output {
                Some(o) => spec_walk_ty(cv, *o),
                None => Multiset::empty(),
            },
        ),
        Ty::Group(e) => spec_walk_ty(cv, *e),
        Ty::Paren(e) => spec_walk_ty(cv, *e),
        Ty::Path(p) => spec_submit(cv, segs_view(p@)),
        Ty::Ptr(e) => spec_walk_ty(cv, *e),
        Ty::Reference(e) => spec_walk_ty(cv, *e),
        Ty::Slice(e) => spec_walk_ty(cv, *e),
        Ty::Tuple(elems) => spec_walk_tys(cv, elems@, 0),
        Ty::Other => Multiset::empty(),
    }
}

pub open spec fn spec_walk_tys(cv: ConstructorView, s: Seq<Ty>, i: int) -> Multiset<Seq<char>>
    decreases s, 0int, s.len() - i,
{
    if i < 0 || i >= s.len() {
        Multiset::empty()
    } else {
        spec_walk_ty(cv, s[i]).add(spec_walk_tys(cv, s, i + 1))
    }
}

pub open spec fn spec_walk_opt_ty(cv: ConstructorView, t: Option<Ty>) -> Multiset<Seq<char>>
    decreases t, 2int, 0int,
{
    match t {
        Some(t0) => spec_walk_ty(cv, t0),
        None => Multiset::empty(),
    }
}

pub open spec fn spec_walk_args(cv: ConstructorView, s: Seq<FnArg>, i: int) -> Multiset<Seq<char>>
    decreases s, s.len() - i,
{
    if i < 0 || i >= s.len() {
        Multiset::empty()
    } else {
        (match s[i] {
            FnArg::Typed(t) => spec_walk_ty(cv, t),
            FnArg::Receiver => Multiset::empty(),
        }).add(spec_walk_args(cv, s, i + 1))
    }
}

/// A signature contributes the submissions of its argument and return
/// types.
pub open spec fn spec_walk_sig(cv: ConstructorView, sig: Signature) -> Multiset<Seq<char>>
    decreases sig, 1int, 0int,
{
    spec_walk_args(cv, sig.inputs@, 0).add(spec_walk_opt_ty(cv, sig.output))
}

/// Import paths are submitted for version counting too; a glob import is
/// a no-op.
pub open spec fn spec_walk_use_tree(
    cv: ConstructorView,
    prefix: Seq<Seq<char>>,
    t: UseTree,
) -> Multiset<Seq<char>>
    decreases t, 0int,
{
    match t {
        UseTree::Path { ident, tree } => spec_walk_use_tree(cv, prefix.push(ident@), *tree),
        UseTree::Name { ident } => spec_submit(cv, prefix.push(ident@)),
        UseTree::Rename { ident, .. } => spec_submit(cv, prefix.push(ident@)),
        UseTree::Glob => Multiset::empty(),
        UseTree::Group { items } => spec_walk_use_trees(cv, prefix, items@, 0),
    }
}

pub open spec fn spec_walk_use_trees(
    cv: ConstructorView,
    prefix: Seq<Seq<char>>,
    s: Seq<UseTree>,
    i: int,
) -> Multiset<Seq<char>>
    decreases s, s.len() - i,
{
    if i < 0 || i >= s.len() {
        Multiset::empty()
    } else {
        spec_walk_use_tree(cv, prefix, s[i]).add(spec_walk_use_trees(cv, prefix, s, i + 1))
    }
}

/// What visiting one expression contributes, with `u` saying whether the
/// unsafe depth is positive on entry.  Every variant but `Unsafe` and
/// `Other` tallies one expression first, then its children in order.
pub open spec fn spec_walk_expr(cv: ConstructorView, e: Expr, u: bool) -> WalkCounts
    decreases e, 1int, 0int,
{
    match e {
        Expr::Array(elems) => WalkCounts::tally(u).add(spec_walk_exprs(cv, elems@, 0, u)),
        Expr::Assign(l, r) => WalkCounts::tally(u).add(spec_walk_expr(cv, *l, u)).add(
            spec_walk_expr(cv, *r, u),
        ),
        Expr::Async(b) => WalkCounts::tally(u).add(spec_walk_block(cv, b, u)),
        Expr::Await(b) => WalkCounts::tally(u).add(spec_walk_expr(cv, *b, u)),
        Expr::Binary(l, r) => WalkCounts::tally(u).add(spec_walk_expr(cv, *l, u)).add(
            spec_walk_expr(cv, *r, u),
        ),
        Expr::BlockExpr(b) => WalkCounts::tally(u).add(spec_walk_block(cv, b, u)),
        Expr::Break(e0) => WalkCounts::tally(u).add(
            match e0 {
                Some(x) => spec_walk_expr(cv, *x, u),
                None => WalkCounts::zero(),
            },
        ),
        Expr::Call { func, args } => WalkCounts::tally(u).add(spec_walk_expr(cv, *func, u)).add(
            spec_walk_exprs(cv, args@, 0, u),
        ),
        Expr::Cast { expr, ty } => WalkCounts::tally(u).add(spec_walk_expr(cv, *expr, u)).add(
            WalkCounts::only(spec_walk_ty(cv, ty)),
        ),
        Expr::Closure { output, body } => WalkCounts::tally(u).add(
            WalkCounts::only(spec_walk_opt_ty(cv, output)),
        ).add(spec_walk_expr(cv, *body, u)),
        Expr::ConstBlock(b) => WalkCounts::tally(u).add(spec_walk_block(cv, b, u)),
        Expr::ForLoop { iter, body } => WalkCounts::tally(u).add(spec_walk_expr(cv, *iter, u)).add(
            spec_walk_block(cv, body, u),
        ),
        Expr::Group(e0) => WalkCounts::tally(u).add(spec_walk_expr(cv, *e0, u)),
        Expr::If { cond, then_branch, else_branch } => WalkCounts::tally(u).add(
            spec_walk_expr(cv, *cond, u),
        ).add(spec_walk_block(cv, then_branch, u)).add(
            match else_branch {
                Some(x) => spec_walk_expr(cv, *x, u),
                None => WalkCounts::zero(),
            },
        ),
        Expr::Index { expr, index } => WalkCounts::tally(u).add(spec_walk_expr(cv, *expr, u)).add(
            spec_walk_expr(cv, *index, u),
        ),
        Expr::Let(e0) => WalkCounts::tally(u).add(spec_walk_expr(cv, *e0, u)),
        Expr::Lit => WalkCounts::tally(u),
        Expr::Loop(b) => WalkCounts::tally(u).add(spec_walk_block(cv, b, u)),
        Expr::Match { expr, arms } => WalkCounts::tally(u).add(spec_walk_expr(cv, *expr, u)).add(
            spec_walk_arms(cv, arms@, 0, u),
        ),
        Expr::MethodCall { receiver, args } => WalkCounts::tally(u).add(
            spec_walk_expr(cv, *receiver, u),
        ).add(spec_walk_exprs(cv, args@, 0, u)),
        Expr::Paren(e0) => WalkCounts::tally(u).add(spec_walk_expr(cv, *e0, u)),
        Expr::PathExpr(p) => WalkCounts::tally(u).add(
            WalkCounts::only(spec_submit(cv, segs_view(p@))),
        ),
        Expr::Range { start, end } => WalkCounts::tally(u).add(
            match start {
                Some(x) => spec_walk_expr(cv, *x, u),
                None => WalkCounts::zero(),
            },
        ).add(
            match end {
                Some(x) => spec_walk_expr(cv, *x, u),
                None => WalkCounts::zero(),
            },
        ),
        Expr::Reference(e0) => WalkCounts::tally(u).add(spec_walk_expr(cv, *e0, u)),
        Expr::Repeat { expr, len } => WalkCounts::tally(u).add(spec_walk_expr(cv, *expr, u)).add(
            spec_walk_expr(cv, *len, u),
        ),
        Expr::Return(e0) => WalkCounts::tally(u).add(
            match e0 {
                Some(x) => spec_walk_expr(cv, *x, u),
                None => WalkCounts::zero(),
            },
        ),
        Expr::StructLit { path, fields } => WalkCounts::tally(u).add(
            WalkCounts::only(spec_submit(cv, segs_view(path@))),
        ).add(spec_walk_exprs(cv, fields@, 0, u)),
        Expr::Try(e0) => WalkCounts::tally(u).add(spec_walk_expr(cv, *e0, u)),
        Expr::TryBlock(b) => WalkCounts::tally(u).add(spec_walk_block(cv, b, u)),
        Expr::Tuple(elems) => WalkCounts::tally(u).add(spec_walk_exprs(cv, elems@, 0, u)),
        Expr::Unary(e0) => WalkCounts::tally(u).add(spec_walk_expr(cv, *e0, u)),
        Expr::Unsafe(b) => spec_walk_block(cv, b, true).deepen(),
        Expr::While { cond, body } => WalkCounts::tally(u).add(spec_walk_expr(cv, *cond, u)).add(
            spec_walk_block(cv, body, u),
        ),
        Expr::Yield(e0) => WalkCounts::tally(u).add(
            match e0 {
                Some(x) => spec_walk_expr(cv, *x, u),
                None => WalkCounts::zero(),
            },
        ),
        Expr::Other => WalkCounts::zero(),
    }
}

pub open spec fn spec_walk_exprs(cv: ConstructorView, s: Seq<Expr>, i: int, u: bool) -> WalkCounts
    decreases s, 1int, s.len() - i,
{
    if i < 0 || i >= s.len() {
        WalkCounts::zero()
    } else {
        spec_walk_expr(cv, s[i], u).add(spec_walk_exprs(cv, s, i + 1, u))
    }
}

pub open spec fn spec_walk_arm(cv: ConstructorView, a: Arm, u: bool) -> WalkCounts
    decreases a, 1int, 0int,
{
    (match a.guard {
        Some(g) => spec_walk_expr(cv, g, u),
        None => WalkCounts::zero(),
    }).add(spec_walk_expr(cv, a.body, u))
}

pub open spec fn spec_walk_arms(cv: ConstructorView, s: Seq<Arm>, i: int, u: bool) -> WalkCounts
    decreases s, 1int, s.len() - i,
{
    if i < 0 || i >= s.len() {
        WalkCounts::zero()
    } else {
        spec_walk_arm(cv, s[i], u).add(spec_walk_arms(cv, s, i + 1, u))
    }
}

pub open spec fn spec_walk_stmt(cv: ConstructorView, st: Stmt, u: bool) -> WalkCounts
    decreases st, 1int, 0int,
{
    match st {
        Stmt::Local { init, diverge } => (match init {
            Some(e) => spec_walk_expr(cv, e, u),
            None => WalkCounts::zero(),
        }).add(
            match diverge {
                Some(e) => spec_walk_expr(cv, e, u),
                None => WalkCounts::zero(),
            },
        ),
        Stmt::Item(it) => spec_walk_item(cv, *it, u),
        Stmt::Expr(e) => spec_walk_expr(cv, e, u),
        Stmt::MacroStmt => WalkCounts::zero(),
    }
}

pub open spec fn spec_walk_stmts(cv: ConstructorView, s: Seq<Stmt>, i: int, u: bool) -> WalkCounts
    decreases s, 1int, s.len() - i,
{
    if i < 0 || i >= s.len() {
        WalkCounts::zero()
    } else {
        spec_walk_stmt(cv, s[i], u).add(spec_walk_stmts(cv, s, i + 1, u))
    }
}

pub open spec fn spec_walk_block(cv: ConstructorView, b: Block, u: bool) -> WalkCounts
    decreases b, 2int, 0int,
{
    spec_walk_stmts(cv, b.stmts@, 0, u)
}

pub open spec fn spec_walk_variant(cv: ConstructorView, v: Variant, u: bool) -> WalkCounts
    decreases v, 1int, 0int,
{
    (match v.discriminant {
        Some(d) => spec_walk_expr(cv, d, u),
        None => WalkCounts::zero(),
    }).add(WalkCounts::only(spec_walk_tys(cv, v.fields@, 0)))
}

pub open spec fn spec_walk_variants(cv: ConstructorView, s: Seq<Variant>, i: int, u: bool) -> WalkCounts
    decreases s, 2int, s.len() - i,
{
    if i < 0 || i >= s.len() {
        WalkCounts::zero()
    } else {
        spec_walk_variant(cv, s[i], u).add(spec_walk_variants(cv, s, i + 1, u))
    }
}

pub open spec fn spec_walk_trait_item(cv: ConstructorView, it: TraitItem, u: bool) -> WalkCounts
    decreases it, 1int, 0int,
{
    match it {
        TraitItem::Const { ty, default, .. } => WalkCounts::only(spec_walk_ty(cv, ty)).add(
            match default {
                Some(d) => spec_walk_expr(cv, d, u),
                None => WalkCounts::zero(),
            },
        ),
        TraitItem::Fn { sig, default, .. } => WalkCounts::only(spec_walk_sig(cv, sig)).add(
            match default {
                Some(b) => spec_walk_block(cv, b, u),
                None => WalkCounts::zero(),
            },
        ),
        TraitItem::TyAlias { default, .. } => WalkCounts::only(spec_walk_opt_ty(cv, default)),
        TraitItem::Other => WalkCounts::zero(),
    }
}

pub open spec fn spec_walk_trait_items(
    cv: ConstructorView,
    s: Seq<TraitItem>,
    i: int,
    u: bool,
) -> WalkCounts
    decreases s, 2int, s.len() - i,
{
    if i < 0 || i >= s.len() {
        WalkCounts::zero()
    } else {
        spec_walk_trait_item(cv, s[i], u).add(spec_walk_trait_items(cv, s, i + 1, u))
    }
}

/// An unsafe method raises the depth around its signature and body.
pub open spec fn spec_walk_impl_item(cv: ConstructorView, it: ImplItem, u: bool) -> WalkCounts
    decreases it, 1int, 0int,
{
    match it {
        ImplItem::Const { ty, expr, .. } => WalkCounts::only(spec_walk_ty(cv, ty)).add(
            spec_walk_expr(cv, expr, u),
        ),
        ImplItem::Fn { sig, block, .. } => {
            if sig.unsafety {
                WalkCounts::only(spec_walk_sig(cv, sig)).add(
                    spec_walk_block(cv, block, true),
                ).deepen()
            } else {
                WalkCounts::only(spec_walk_sig(cv, sig)).add(spec_walk_block(cv, block, u))
            }
        },
        ImplItem::TyAlias { ty, .. } => WalkCounts::only(spec_walk_ty(cv, ty)),
        ImplItem::Other => WalkCounts::zero(),
    }
}

pub open spec fn spec_walk_impl_items(
    cv: ConstructorView,
    s: Seq<ImplItem>,
    i: int,
    u: bool,
) -> WalkCounts
    decreases s, 2int, s.len() - i,
{
    if i < 0 || i >= s.len() {
        WalkCounts::zero()
    } else {
        spec_walk_impl_item(cv, s[i], u).add(spec_walk_impl_items(cv, s, i + 1, u))
    }
}

/// What visiting one item contributes.
pub open spec fn spec_walk_item(cv: ConstructorView, it: Item, u: bool) -> WalkCounts
    decreases it, 4int, 0int,
{
    match it {
        Item::Const { ty, expr, .. } => WalkCounts::only(spec_walk_ty(cv, ty)).add(
            spec_walk_expr(cv, expr, u),
        ),
        Item::Enum { variants, .. } => spec_walk_variants(cv, variants@, 0, u),
        Item::Fn { sig, block, .. } => {
            if sig.unsafety {
                WalkCounts::only(spec_walk_sig(cv, sig)).add(
                    spec_walk_block(cv, block, true),
                ).deepen()
            } else {
                WalkCounts::only(spec_walk_sig(cv, sig)).add(spec_walk_block(cv, block, u))
            }
        },
        Item::Impl { trait_path, items, .. } => (match trait_path {
            Some(p) => WalkCounts::only(spec_submit(cv, segs_view(p@))),
            None => WalkCounts::zero(),
        }).add(spec_walk_impl_items(cv, items@, 0, u)),
        Item::Mod { content, .. } => match content {
            Some(items) => spec_walk_items(cv, items@, 0, u),
            None => WalkCounts::zero(),
        },
        Item::Static { ty, expr, .. } => WalkCounts::only(spec_walk_ty(cv, ty)).add(
            spec_walk_expr(cv, expr, u),
        ),
        Item::Struct { fields, .. } => WalkCounts::only(spec_walk_tys(cv, fields@, 0)),
        Item::Trait { items, .. } => spec_walk_trait_items(cv, items@, 0, u),
        Item::TraitAlias { .. } => WalkCounts::zero(),
        Item::TyAlias { ty, .. } => WalkCounts::only(spec_walk_ty(cv, ty)),
        Item::Union { .. } => WalkCounts::zero(),
        Item::Use { tree, .. } => WalkCounts::only(
            spec_walk_use_tree(cv, Seq::empty(), tree),
        ),
        Item::Other => WalkCounts::zero(),
    }
}

pub open spec fn spec_walk_items(cv: ConstructorView, s: Seq<Item>, i: int, u: bool) -> WalkCounts
    decreases s, 5int, s.len() - i,
{
    if i < 0 || i >= s.len() {
        WalkCounts::zero()
    } else {
        spec_walk_item(cv, s[i], u).add(spec_walk_items(cv, s, i + 1, u))
    }
}

/// What walking one whole file contributes.
pub open spec fn spec_walk_file(cv: ConstructorView, f: SourceFile, u: bool) -> WalkCounts {
    spec_walk_items(cv, f.items@, 0, u)
}

/// Occurrence count recorded for `v`: the first entry with that version
/// wins; absent means zero.
pub open spec fn spec_count_of(s: Seq<(String, u64)>, v: Seq<char>) -> nat
    decreases s.len(),
{
    if s.len() == 0 {
        0
    } else if s[0].0@ == v {
        s[0].1 as nat
    } else {
        spec_count_of(s.drop_first(), v)
    }
}

/// First index recording `v`, or the length.
pub open spec fn spec_counts_index(s: Seq<(String, u64)>, v: Seq<char>) -> int
    decreases s.len(),
{
    if s.len() == 0 {
        0
    } else if s[0].0@ == v {
        0
    } else {
        1 + spec_counts_index(s.drop_first(), v)
    }
}

pub open spec fn spec_sum_counts(s: Seq<(String, u64)>) -> nat
    decreases s.len(),
{
    if s.len() == 0 {
        0
    } else {
        (s[0].1 + spec_sum_counts(s.drop_first())) as nat
    }
}

/// Every version appears at most once in the counts list.
pub open spec fn wf_counts(s: Seq<(String, u64)>) -> bool {
    forall|i: int, j: int| 0 <= i < j < s.len() ==> s[i].0@ != s[j].0@
}

pub proof fn lemma_counts_index(s: Seq<(String, u64)>, v: Seq<char>)
    ensures
        0 <= spec_counts_index(s, v) <= s.len(),
        spec_counts_index(s, v) < s.len() ==> s[spec_counts_index(s, v)].0@ == v
            && spec_count_of(s, v) == s[spec_counts_index(s, v)].1 as nat,
        forall|k: int| 0 <= k < spec_counts_index(s, v) ==> s[k].0@ != v,
        spec_counts_index(s, v) == s.len() ==> spec_count_of(s, v) == 0,
    decreases s.len(),
{
    if s.len() > 0 && s[0].0@ != v {
        lemma_counts_index(s.drop_first(), v);
        let idx = spec_counts_index(s, v);
        assert forall|k: int| 0 <= k < idx implies s[k].0@ != v by {
            if k > 0 {
                assert(s.drop_first()[k - 1] == s[k]);
            }
        }
    }
}

pub proof fn lemma_count_le_sum(s: Seq<(String, u64)>, v: Seq<char>)
    ensures
        spec_count_of(s, v) <= spec_sum_counts(s),
    decreases s.len(),
{
    if s.len() > 0 {
        lemma_count_le_sum(s.drop_first(), v);
    }
}

pub proof fn lemma_counts_update(s: Seq<(String, u64)>, j: int, c: u64)
    requires
        0 <= j < s.len(),
        forall|k: int| 0 <= k < j ==> s[k].0@ != s[j].0@,
    ensures
        forall|v: Seq<char>|
            spec_count_of(s.update(j, (s[j].0, c)), v) == if v == s[j].0@ {
                c as nat
            } else {
                spec_count_of(s, v)
            },
        spec_sum_counts(s.update(j, (s[j].0, c))) == spec_sum_counts(s) - s[j].1 + c,
        wf_counts(s) ==> wf_counts(s.update(j, (s[j].0, c))),
    decreases j,
{
    let t = s.update(j, (s[j].0, c));
    if j == 0 {
        assert(t.drop_first() =~= s.drop_first());
    } else {
        assert(t[0] == s[0]);
        assert(s.drop_first()[j - 1] == s[j]);
        assert(t.drop_first() =~= s.drop_first().update(j - 1, (s.drop_first()[j - 1].0, c)));
        assert forall|k: int| 0 <= k < j - 1 implies (#[trigger] s.drop_first()[k]).0@
            != s.drop_first()[j - 1].0@ by {
            assert(s.drop_first()[k] == s[k + 1]);
        }
        lemma_counts_update(s.drop_first(), j - 1, c);
        assert forall|v: Seq<char>|
            spec_count_of(t, v) == if v == s[j].0@ {
                c as nat
            } else {
                spec_count_of(s, v)
            } by {
            if s[0].0@ == v {
                assert(v != s[j].0@);
                assert(spec_count_of(t, v) == t[0].1 as nat);
            } else {
                assert(spec_count_of(t, v) == spec_count_of(t.drop_first(), v));
                assert(spec_count_of(s, v) == spec_count_of(s.drop_first(), v));
            }
        }
        assert(spec_sum_counts(t) == t[0].1 + spec_sum_counts(t.drop_first()));
        assert(spec_sum_counts(s) == s[0].1 + spec_sum_counts(s.drop_first()));
    }
    if wf_counts(s) {
        assert forall|a: int, b: int| 0 <= a < b < t.len() implies t[a].0@ != t[b].0@ by {
            assert(t[a].0 == s[a].0);
            assert(t[b].0 == s[b].0);
        }
    }
}

pub proof fn lemma_counts_push(s: Seq<(String, u64)>, e: (String, u64))
    requires
        forall|k: int| 0 <= k < s.len() ==> s[k].0@ != e.0@,
    ensures
        forall|v: Seq<char>|
            spec_count_of(s.push(e), v) == if v == e.0@ {
                e.1 as nat
            } else {
                spec_count_of(s, v)
            },
        spec_sum_counts(s.push(e)) == spec_sum_counts(s) + e.1,
        wf_counts(s) ==> wf_counts(s.push(e)),
    decreases s.len(),
{
    let t = s.push(e);
    if s.len() == 0 {
        assert(t[0] == e);
        assert(t.drop_first() =~= Seq::<(String, u64)>::empty());
        assert forall|v: Seq<char>|
            spec_count_of(t, v) == if v == e.0@ {
                e.1 as nat
            } else {
                spec_count_of(s, v)
            } by {
            if e.0@ == v {
                assert(spec_count_of(t, v) == t[0].1 as nat);
            } else {
                assert(spec_count_of(t, v) == spec_count_of(t.drop_first(), v));
            }
        }
        assert(spec_sum_counts(t) == t[0].1 + spec_sum_counts(t.drop_first()));
    } else {
        assert(t[0] == s[0]);
        assert(t.drop_first() =~= s.drop_first().push(e));
        assert forall|k: int| 0 <= k < s.drop_first().len() implies (#[trigger] s.drop_first()[
            k
        ]).0@ != e.0@ by {
            assert(s.drop_first()[k] == s[k + 1]);
        }
        lemma_counts_push(s.drop_first(), e);
        assert forall|v: Seq<char>|
            spec_count_of(t, v) == if v == e.0@ {
                e.1 as nat
            } else {
                spec_count_of(s, v)
            } by {
            if s[0].0@ == v {
                assert(v != e.0@);
                assert(spec_count_of(t, v) == t[0].1 as nat);
            } else {
                assert(spec_count_of(t, v) == spec_count_of(t.drop_first(), v));
                assert(spec_count_of(s, v) == spec_count_of(s.drop_first(), v));
            }
        }
        assert(spec_sum_counts(t) == t[0].1 + spec_sum_counts(t.drop_first()));
        assert(spec_sum_counts(s) == s[0].1 + spec_sum_counts(s.drop_first()));
    }
    if wf_counts(s) {
        assert forall|a: int, b: int| 0 <= a < b < t.len() implies t[a].0@ != t[b].0@ by {
            if b < s.len() {
            } else {
                assert(t[b] == e);
            }
        }
    }
}

/// The per-package walk state: a borrowed frozen index, the module path,
/// the unsafe-nesting depth, and the raw counts.
pub struct VersionAnalyzer<'a> {
    pub version_constructor: &'a VersionConstructor,
    pub path: Vec<String>,
    pub nested_unsafe: u64,
    pub version_counts: Vec<(String, u64)>,
    pub total_exprs: u64,
    pub unsafe_exprs: u64,
}

impl<'a> VersionAnalyzer<'a> {
    pub open spec fn idx(self) -> ConstructorView {
        self.version_constructor@
    }

    pub open spec fn in_unsafe(self) -> bool {
        self.nested_unsafe > 0
    }

    pub open spec fn wf(self) -> bool {
        wf_counts(self.version_counts@)
    }

    /// The machine-limit bound under which a subtree contributing `w`
    /// can be walked without any counter overflowing.
    pub open spec fn can_take(self, w: WalkCounts) -> bool {
        &&& self.wf()
        &&& self.total_exprs + w.exprs <= u64::MAX
        &&& self.unsafe_exprs + w.unsafe_exprs <= u64::MAX
        &&& self.nested_unsafe + w.depth <= u64::MAX
        &&& spec_sum_counts(self.version_counts@) + w.versions.len() <= u64::MAX
    }

    /// How a walk contributing `w` changes the state: counts grow by
    /// exactly `w`, the depth and the module path are restored, the
    /// index is untouched.
    pub open spec fn took(self, post: VersionAnalyzer<'a>, w: WalkCounts) -> bool {
        &&& post.wf()
        &&& post.version_constructor == self.version_constructor
        &&& post.path@ == self.path@
        &&& post.nested_unsafe == self.nested_unsafe
        &&& post.total_exprs == self.total_exprs + w.exprs
        &&& post.unsafe_exprs == self.unsafe_exprs + w.unsafe_exprs
        &&& spec_sum_counts(post.version_counts@) == spec_sum_counts(self.version_counts@)
            + w.versions.len()
        &&& forall|v: Seq<char>|
            spec_count_of(post.version_counts@, v) == spec_count_of(self.version_counts@, v)
                + w.versions.count(v)
    }

    /// A fresh walk over the given frozen index: empty counts, depth
    /// zero.
    pub fn new(version_constructor: &'a VersionConstructor) -> (r: VersionAnalyzer<'a>)
        ensures
            r.version_constructor == version_constructor,
            r.path@ =~= Seq::<String>::empty(),
            r.nested_unsafe == 0,
            r.version_counts@ =~= Seq::<(String, u64)>::empty(),
            r.total_exprs == 0,
            r.unsafe_exprs == 0,
            r.wf(),
    {
        VersionAnalyzer {
            version_constructor,
            path: Vec::new(),
            nested_unsafe: 0,
            version_counts: Vec::new(),
            total_exprs: 0,
            unsafe_exprs: 0,
        }
    }

    /// The current unsafe-nesting depth.
    pub fn unsafe_depth(&self) -> (r: u64)
        ensures
            r == self.nested_unsafe,
    {
        self.nested_unsafe
    }

    /// Counts one visited expression, as unsafe when the depth is
    /// positive.
    pub fn count_expr(&mut self)
        requires
            old(self).total_exprs + 1 <= u64::MAX,
            old(self).in_unsafe() ==> old(self).unsafe_exprs + 1 <= u64::MAX,
            old(self).wf(),
        ensures
            old(self).took(*final(self), WalkCounts::tally(old(self).in_unsafe())),
    {
        self.total_exprs = self.total_exprs + 1;
        if self.nested_unsafe > 0 {
            self.unsafe_exprs = self.unsafe_exprs + 1;
        }
    }

    /// Bumps the occurrence count of one resolved version.
    pub fn count_version(&mut self, version: &String)
        requires
            old(self).wf(),
            spec_sum_counts(old(self).version_counts@) + 1 <= u64::MAX,
        ensures
            old(self).took(
                *final(self),
                WalkCounts::only(Multiset::empty().insert(version@)),
            ),
    {
        let ghost s = self.version_counts@;
        proof {
            lemma_counts_index(s, version@);
        }
        let mut j: usize = 0;
        let n = self.version_counts.len();
        loop
            invariant_except_break
                0 <= j <= n,
                n == self.version_counts@.len(),
                self.version_counts@ == s,
                forall|k: int| 0 <= k < j ==> s[k].0@ != version@,
            ensures
                0 <= j <= n,
                self.version_counts@ == s,
                n == s.len(),
                j == spec_counts_index(s, version@),
            decreases n - j,
        {
            if j >= n {
                proof {
                    lemma_counts_index(s, version@);
                }
                break ;
            }
            if self.version_counts[j].0.eq(version) {
                proof {
                    lemma_counts_index(s, version@);
                }
                break ;
            }
            j = j + 1;
        }
        if j < n {
            proof {
                lemma_counts_index(s, version@);
                lemma_count_le_sum(s, version@);
            }
            let entry = self.version_counts.remove(j);
            let c = entry.1;
            self.version_counts.insert(j, (entry.0, c + 1));
            proof {
                assert(self.version_counts@ =~= s.update(j as int, (s[j as int].0, (c + 1) as u64)));
                lemma_counts_update(s, j as int, (c + 1) as u64);
            }
        } else {
            let key = version.clone();
            self.version_counts.push((key, 1));
            proof {
                let entry = self.version_counts@.last();
                assert(self.version_counts@ =~= s.push(entry));
                assert(entry.0@ == version@);
                lemma_counts_push(s, entry);
            }
        }
    }

    /// Submits one qualified path to the resolver; a hit counts its
    /// version, a miss is silent.
    pub fn process_relative_path(&mut self, relative_path: &Vec<String>)
        requires
            old(self).wf(),
            spec_sum_counts(old(self).version_counts@) + spec_submit(
                old(self).idx(),
                segs_view(relative_path@),
            ).len() <= u64::MAX,
        ensures
            old(self).took(
                *final(self),
                WalkCounts::only(spec_submit(old(self).idx(), segs_view(relative_path@))),
            ),
    {
        let vc = self.version_constructor;
        match vc.get_version(relative_path) {
            Some(version) => {
                let v = version.clone();
                self.count_version(&v);
            },
            None => {},
        }
    }
}


/// Sequential composition of two walk steps.
pub proof fn lemma_took_trans<'a>(
    a: VersionAnalyzer<'a>,
    b: VersionAnalyzer<'a>,
    c: VersionAnalyzer<'a>,
    w1: WalkCounts,
    w2: WalkCounts,
)
    requires
        a.took(b, w1),
        b.took(c, w2),
    ensures
        a.took(c, w1.add(w2)),
{
    assert forall|v: Seq<char>|
        spec_count_of(c.version_counts@, v) == spec_count_of(a.version_counts@, v) + w1.add(
            w2,
        ).versions.count(v) by {
        assert(spec_count_of(b.version_counts@, v) == spec_count_of(a.version_counts@, v)
            + w1.versions.count(v));
    }
}

impl<'a> VersionAnalyzer<'a> {
    fn process_ty(&mut self, t: &Ty)
        requires
            old(self).can_take(WalkCounts::only(spec_walk_ty(old(self).idx(), *t))),
        ensures
            old(self).took(*final(self), WalkCounts::only(spec_walk_ty(old(self).idx(), *t))),
        decreases *t, 1int, 0int,
    {
        match t {
            Ty::Array(e) => self.process_ty(e),
            Ty::BareFn { inputs, output } => {
                self.process_tys(inputs, 0);
                match output {
                    Some(o) => self.process_ty(o),
                    None => {},
                }
            },
            Ty::Group(e) => self.process_ty(e),
            Ty::Paren(e) => self.process_ty(e),
            Ty::Path(p) => self.process_relative_path(p),
            Ty::Ptr(e) => self.process_ty(e),
            Ty::Reference(e) => self.process_ty(e),
            Ty::Slice(e) => self.process_ty(e),
            Ty::Tuple(elems) => self.process_tys(elems, 0),
            Ty::Other => {},
        }
    }

    fn process_tys(&mut self, v: &Vec<Ty>, i: usize)
        requires
            i <= v@.len(),
            old(self).can_take(WalkCounts::only(spec_walk_tys(old(self).idx(), v@, i as int))),
        ensures
            old(self).took(
                *final(self),
                WalkCounts::only(spec_walk_tys(old(self).idx(), v@, i as int)),
            ),
        decreases v@, 0int, v@.len() - i,
    {
        if i < v.len() {
            self.process_ty(&v[i]);
            self.process_tys(v, i + 1);
        }
    }

    fn process_args(&mut self, v: &Vec<FnArg>, i: usize)
        requires
            i <= v@.len(),
            old(self).can_take(WalkCounts::only(spec_walk_args(old(self).idx(), v@, i as int))),
        ensures
            old(self).took(
                *final(self),
                WalkCounts::only(spec_walk_args(old(self).idx(), v@, i as int)),
            ),
        decreases v@, v@.len() - i,
    {
        if i < v.len() {
            match &v[i] {
                FnArg::Typed(t) => self.process_ty(t),
                FnArg::Receiver => {},
            }
            self.process_args(v, i + 1);
        }
    }

    fn process_sig(&mut self, sig: &Signature)
        requires
            old(self).can_take(WalkCounts::only(spec_walk_sig(old(self).idx(), *sig))),
        ensures
            old(self).took(*final(self), WalkCounts::only(spec_walk_sig(old(self).idx(), *sig))),
    {
        self.process_args(&sig.inputs, 0);
        match &sig.output {
            Some(t) => self.process_ty(t),
            None => {},
        }
    }

    fn process_use_tree(&mut self, prefix: &Vec<String>, t: &UseTree)
        requires
            old(self).can_take(
                WalkCounts::only(
                    spec_walk_use_tree(old(self).idx(), segs_view(prefix@), *t),
                ),
            ),
        ensures
            old(self).took(
                *final(self),
                WalkCounts::only(spec_walk_use_tree(old(self).idx(), segs_view(prefix@), *t)),
            ),
        decreases *t, 0int,
    {
        match t {
            UseTree::Path { ident, tree } => {
                let mut p = crate::resolve::clone_path(prefix);
                p.push(ident.clone());
                proof {
                    assert(segs_view(p@) =~= segs_view(prefix@).push(ident@));
                }
                self.process_use_tree(&p, &**tree);
            },
            UseTree::Name { ident } => {
                let mut p = crate::resolve::clone_path(prefix);
                p.push(ident.clone());
                proof {
                    assert(segs_view(p@) =~= segs_view(prefix@).push(ident@));
                }
                self.process_relative_path(&p);
            },
            UseTree::Rename { ident, .. } => {
                let mut p = crate::resolve::clone_path(prefix);
                p.push(ident.clone());
                proof {
                    assert(segs_view(p@) =~= segs_view(prefix@).push(ident@));
                }
                self.process_relative_path(&p);
            },
            UseTree::Glob => {},
            UseTree::Group { items } => {
                self.process_use_trees(prefix, items, 0);
            },
        }
    }

    fn process_use_trees(&mut self, prefix: &Vec<String>, v: &Vec<UseTree>, i: usize)
        requires
            i <= v@.len(),
            old(self).can_take(
                WalkCounts::only(
                    spec_walk_use_trees(old(self).idx(), segs_view(prefix@), v@, i as int),
                ),
            ),
        ensures
            old(self).took(
                *final(self),
                WalkCounts::only(
                    spec_walk_use_trees(old(self).idx(), segs_view(prefix@), v@, i as int),
                ),
            ),
        decreases v@, v@.len() - i,
    {
        if i < v.len() {
            self.process_use_tree(prefix, &v[i]);
            self.process_use_trees(prefix, v, i + 1);
        }
    }

    /// Visits one expression: tallies it, then its children in order; an
    /// `unsafe` wrapper only deepens the privilege region around its
    /// block.
    #[verifier::rlimit(80)]
    pub fn process_expr(&mut self, e: &Expr)
        requires
            old(self).can_take(spec_walk_expr(old(self).idx(), *e, old(self).in_unsafe())),
        ensures
            old(self).took(
                *final(self),
                spec_walk_expr(old(self).idx(), *e, old(self).in_unsafe()),
            ),
        decreases *e, 1int, 0int,
    {
        match e {
            Expr::Array(elems) => {
                self.count_expr();
                self.process_exprs(elems, 0);
            },
            Expr::Assign(l, r) => {
                self.count_expr();
                self.process_expr(&**l);
                self.process_expr(&**r);
            },
            Expr::Async(b) => {
                self.count_expr();
                self.process_block(b);
            },
            Expr::Await(b) => {
                self.count_expr();
                self.process_expr(&**b);
            },
            Expr::Binary(l, r) => {
                self.count_expr();
                self.process_expr(&**l);
                self.process_expr(&**r);
            },
            Expr::BlockExpr(b) => {
                self.count_expr();
                self.process_block(b);
            },
            Expr::Break(e0) => {
                self.count_expr();
                match e0 {
                    Some(x) => self.process_expr(&**x),
                    None => {},
                }
            },
            Expr::Call { func, args } => {
                self.count_expr();
                self.process_expr(&**func);
                self.process_exprs(args, 0);
            },
            Expr::Cast { expr, ty } => {
                self.count_expr();
                self.process_expr(&**expr);
                self.process_ty(ty);
            },
            Expr::Closure { output, body } => {
                self.count_expr();
                match output {
                    Some(t) => self.process_ty(t),
                    None => {},
                }
                self.process_expr(&**body);
            },
            Expr::ConstBlock(b) => {
                self.count_expr();
                self.process_block(b);
            },
            Expr::ForLoop { iter, body } => {
                self.count_expr();
                self.process_expr(&**iter);
                self.process_block(body);
            },
            Expr::Group(e0) => {
                self.count_expr();
                self.process_expr(&**e0);
            },
            Expr::If { cond, then_branch, else_branch } => {
                self.count_expr();
                self.process_expr(&**cond);
                self.process_block(then_branch);
                match else_branch {
                    Some(x) => self.process_expr(&**x),
                    None => {},
                }
            },
            Expr::Index { expr, index } => {
                self.count_expr();
                self.process_expr(&**expr);
                self.process_expr(&**index);
            },
            Expr::Let(e0) => {
                self.count_expr();
                self.process_expr(&**e0);
            },
            Expr::Lit => {
                self.count_expr();
            },
            Expr::Loop(b) => {
                self.count_expr();
                self.process_block(b);
            },
            Expr::Match { expr, arms } => {
                self.count_expr();
                self.process_expr(&**expr);
                self.process_arms(arms, 0);
            },
            Expr::MethodCall { receiver, args } => {
                self.count_expr();
                self.process_expr(&**receiver);
                self.process_exprs(args, 0);
            },
            Expr::Paren(e0) => {
                self.count_expr();
                self.process_expr(&**e0);
            },
            Expr::PathExpr(p) => {
                self.count_expr();
                self.process_relative_path(p);
            },
            Expr::Range { start, end } => {
                self.count_expr();
                match start {
                    Some(x) => self.process_expr(&**x),
                    None => {},
                }
                match end {
                    Some(x) => self.process_expr(&**x),
                    None => {},
                }
            },
            Expr::Reference(e0) => {
                self.count_expr();
                self.process_expr(&**e0);
            },
            Expr::Repeat { expr, len } => {
                self.count_expr();
                self.process_expr(&**expr);
                self.process_expr(&**len);
            },
            Expr::Return(e0) => {
                self.count_expr();
                match e0 {
                    Some(x) => self.process_expr(&**x),
                    None => {},
                }
            },
            Expr::StructLit { path, fields } => {
                self.count_expr();
                self.process_relative_path(path);
                self.process_exprs(fields, 0);
            },
            Expr::Try(e0) => {
                self.count_expr();
                self.process_expr(&**e0);
            },
            Expr::TryBlock(b) => {
                self.count_expr();
                self.process_block(b);
            },
            Expr::Tuple(elems) => {
                self.count_expr();
                self.process_exprs(elems, 0);
            },
            Expr::Unary(e0) => {
                self.count_expr();
                self.process_expr(&**e0);
            },
            Expr::Unsafe(b) => {
                self.nested_unsafe = self.nested_unsafe + 1;
                self.process_block(b);
                self.nested_unsafe = self.nested_unsafe - 1;
            },
            Expr::While { cond, body } => {
                self.count_expr();
                self.process_expr(&**cond);
                self.process_block(body);
            },
            Expr::Yield(e0) => {
                self.count_expr();
                match e0 {
                    Some(x) => self.process_expr(&**x),
                    None => {},
                }
            },
            Expr::Other => {},
        }
    }

    fn process_exprs(&mut self, v: &Vec<Expr>, i: usize)
        requires
            i <= v@.len(),
            old(self).can_take(
                spec_walk_exprs(old(self).idx(), v@, i as int, old(self).in_unsafe()),
            ),
        ensures
            old(self).took(
                *final(self),
                spec_walk_exprs(old(self).idx(), v@, i as int, old(self).in_unsafe()),
            ),
        decreases v@, 1int, v@.len() - i,
    {
        if i < v.len() {
            self.process_expr(&v[i]);
            self.process_exprs(v, i + 1);
        }
    }

    fn process_arms(&mut self, v: &Vec<Arm>, i: usize)
        requires
            i <= v@.len(),
            old(self).can_take(
                spec_walk_arms(old(self).idx(), v@, i as int, old(self).in_unsafe()),
            ),
        ensures
            old(self).took(
                *final(self),
                spec_walk_arms(old(self).idx(), v@, i as int, old(self).in_unsafe()),
            ),
        decreases v@, 1int, v@.len() - i,
    {
        if i < v.len() {
            let ghost cv = self.idx();
            let ghost u = self.in_unsafe();
            proof {
                assert(spec_walk_arms(cv, v@, i as int, u) == spec_walk_arm(
                    cv,
                    v@[i as int],
                    u,
                ).add(spec_walk_arms(cv, v@, i + 1, u)));
                assert(spec_walk_arm(cv, v@[i as int], u) == (match v@[i as int].guard {
                    Some(g) => spec_walk_expr(cv, g, u),
                    None => WalkCounts::zero(),
                }).add(spec_walk_expr(cv, v@[i as int].body, u)));
            }
            match &v[i].guard {
                Some(g) => self.process_expr(g),
                None => {},
            }
            self.process_expr(&v[i].body);
            self.process_arms(v, i + 1);
        }
    }

    fn process_statement(&mut self, st: &Stmt)
        requires
            old(self).can_take(spec_walk_stmt(old(self).idx(), *st, old(self).in_unsafe())),
        ensures
            old(self).took(
                *final(self),
                spec_walk_stmt(old(self).idx(), *st, old(self).in_unsafe()),
            ),
        decreases *st, 1int, 0int,
    {
        match st {
            Stmt::Local { init, diverge } => {
                match init {
                    Some(x) => self.process_expr(x),
                    None => {},
                }
                match diverge {
                    Some(x) => self.process_expr(x),
                    None => {},
                }
            },
            Stmt::Item(it) => self.process_item(&**it),
            Stmt::Expr(x) => self.process_expr(x),
            Stmt::MacroStmt => {},
        }
    }

    fn process_stmts(&mut self, v: &Vec<Stmt>, i: usize)
        requires
            i <= v@.len(),
            old(self).can_take(
                spec_walk_stmts(old(self).idx(), v@, i as int, old(self).in_unsafe()),
            ),
        ensures
            old(self).took(
                *final(self),
                spec_walk_stmts(old(self).idx(), v@, i as int, old(self).in_unsafe()),
            ),
        decreases v@, 1int, v@.len() - i,
    {
        if i < v.len() {
            self.process_statement(&v[i]);
            self.process_stmts(v, i + 1);
        }
    }

    fn process_block(&mut self, b: &Block)
        requires
            old(self).can_take(spec_walk_block(old(self).idx(), *b, old(self).in_unsafe())),
        ensures
            old(self).took(
                *final(self),
                spec_walk_block(old(self).idx(), *b, old(self).in_unsafe()),
            ),
        decreases *b, 2int, 0int,
    {
        self.process_stmts(&b.stmts, 0);
    }

    fn process_variants(&mut self, v: &Vec<Variant>, i: usize)
        requires
            i <= v@.len(),
            old(self).can_take(
                spec_walk_variants(old(self).idx(), v@, i as int, old(self).in_unsafe()),
            ),
        ensures
            old(self).took(
                *final(self),
                spec_walk_variants(old(self).idx(), v@, i as int, old(self).in_unsafe()),
            ),
        decreases v@, 2int, v@.len() - i,
    {
        if i < v.len() {
            let ghost cv = self.idx();
            let ghost u = self.in_unsafe();
            proof {
                assert(spec_walk_variants(cv, v@, i as int, u) == spec_walk_variant(
                    cv,
                    v@[i as int],
                    u,
                ).add(spec_walk_variants(cv, v@, i + 1, u)));
                assert(spec_walk_variant(cv, v@[i as int], u) == (match v@[i as int].discriminant {
                    Some(d) => spec_walk_expr(cv, d, u),
                    None => WalkCounts::zero(),
                }).add(WalkCounts::only(spec_walk_tys(cv, v@[i as int].fields@, 0))));
            }
            match &v[i].discriminant {
                Some(d) => self.process_expr(d),
                None => {},
            }
            self.process_tys(&v[i].fields, 0);
            self.process_variants(v, i + 1);
        }
    }

    fn process_trait_items(&mut self, v: &Vec<TraitItem>, i: usize)
        requires
            i <= v@.len(),
            old(self).can_take(
                spec_walk_trait_items(old(self).idx(), v@, i as int, old(self).in_unsafe()),
            ),
        ensures
            old(self).took(
                *final(self),
                spec_walk_trait_items(old(self).idx(), v@, i as int, old(self).in_unsafe()),
            ),
        decreases v@, 2int, v@.len() - i,
    {
        if i < v.len() {
            let ghost cv = self.idx();
            let ghost u = self.in_unsafe();
            proof {
                assert(spec_walk_trait_items(cv, v@, i as int, u) == spec_walk_trait_item(
                    cv,
                    v@[i as int],
                    u,
                ).add(spec_walk_trait_items(cv, v@, i + 1, u)));
            }
            match &v[i] {
                TraitItem::Const { ty, default, .. } => {
                    self.process_ty(ty);
                    match default {
                        Some(d) => self.process_expr(d),
                        None => {},
                    }
                },
                TraitItem::Fn { sig, default, .. } => {
                    self.process_sig(sig);
                    match default {
                        Some(b) => self.process_block(b),
                        None => {},
                    }
                },
                TraitItem::TyAlias { default, .. } => {
                    match default {
                        Some(t) => self.process_ty(t),
                        None => {},
                    }
                },
                TraitItem::Other => {},
            }
            self.process_trait_items(v, i + 1);
        }
    }

    fn process_impl_items(&mut self, v: &Vec<ImplItem>, i: usize)
        requires
            i <= v@.len(),
            old(self).can_take(
                spec_walk_impl_items(old(self).idx(), v@, i as int, old(self).in_unsafe()),
            ),
        ensures
            old(self).took(
                *final(self),
                spec_walk_impl_items(old(self).idx(), v@, i as int, old(self).in_unsafe()),
            ),
        decreases v@, 2int, v@.len() - i,
    {
        if i < v.len() {
            let ghost cv = self.idx();
            let ghost u = self.in_unsafe();
            proof {
                assert(spec_walk_impl_items(cv, v@, i as int, u) == spec_walk_impl_item(
                    cv,
                    v@[i as int],
                    u,
                ).add(spec_walk_impl_items(cv, v@, i + 1, u)));
            }
            match &v[i] {
                ImplItem::Const { ty, expr, .. } => {
                    self.process_ty(ty);
                    self.process_expr(expr);
                },
                ImplItem::Fn { sig, block, .. } => {
                    if sig.unsafety {
                        self.nested_unsafe = self.nested_unsafe + 1;
                        self.process_sig(sig);
                        self.process_block(block);
                        self.nested_unsafe = self.nested_unsafe - 1;
                    } else {
                        self.process_sig(sig);
                        self.process_block(block);
                    }
                },
                ImplItem::TyAlias { ty, .. } => self.process_ty(ty),
                ImplItem::Other => {},
            }
            self.process_impl_items(v, i + 1);
        }
    }

    /// Visits one item of the analyzed package.
    pub fn process_item(&mut self, it: &Item)
        requires
            old(self).can_take(spec_walk_item(old(self).idx(), *it, old(self).in_unsafe())),
        ensures
            old(self).took(
                *final(self),
                spec_walk_item(old(self).idx(), *it, old(self).in_unsafe()),
            ),
        decreases *it, 4int, 0int,
    {
        match it {
            Item::Const { ty, expr, .. } => {
                self.process_ty(ty);
                self.process_expr(expr);
            },
            Item::Enum { variants, .. } => self.process_variants(variants, 0),
            Item::Fn { sig, block, .. } => {
                if sig.unsafety {
                    self.nested_unsafe = self.nested_unsafe + 1;
                    self.process_sig(sig);
                    self.process_block(block);
                    self.nested_unsafe = self.nested_unsafe - 1;
                } else {
                    self.process_sig(sig);
                    self.process_block(block);
                }
            },
            Item::Impl { trait_path, items, .. } => {
                match trait_path {
                    Some(p) => self.process_relative_path(p),
                    None => {},
                }
                self.process_impl_items(items, 0);
            },
            Item::Mod { name, content, .. } => {
                match content {
                    Some(items) => {
                        self.path.push(name.clone());
                        self.process_items(items, 0);
                        let _ = self.path.pop();
                        proof {
                            assert(self.path@ =~= old(self).path@);
                        }
                    },
                    None => {},
                }
            },
            Item::Static { ty, expr, .. } => {
                self.process_ty(ty);
                self.process_expr(expr);
            },
            Item::Struct { fields, .. } => self.process_tys(fields, 0),
            Item::Trait { items, .. } => self.process_trait_items(items, 0),
            Item::TraitAlias { .. } => {},
            Item::TyAlias { ty, .. } => self.process_ty(ty),
            Item::Union { .. } => {},
            Item::Use { tree, .. } => {
                let empty: Vec<String> = Vec::new();
                proof {
                    assert(segs_view(empty@) =~= Seq::<Seq<char>>::empty());
                }
                self.process_use_tree(&empty, tree);
            },
            Item::Other => {},
        }
    }

    fn process_items(&mut self, v: &Vec<Item>, i: usize)
        requires
            i <= v@.len(),
            old(self).can_take(
                spec_walk_items(old(self).idx(), v@, i as int, old(self).in_unsafe()),
            ),
        ensures
            old(self).took(
                *final(self),
                spec_walk_items(old(self).idx(), v@, i as int, old(self).in_unsafe()),
            ),
        decreases v@, 5int, v@.len() - i,
    {
        if i < v.len() {
            self.process_item(&v[i]);
            self.process_items(v, i + 1);
        }
    }

    /// Walks one whole package file: every reachable item, statement,
    /// type annotation and expression.
    pub fn process_file(&mut self, file: &SourceFile)
        requires
            old(self).can_take(
                spec_walk_file(old(self).idx(), *file, old(self).in_unsafe()),
            ),
        ensures
            old(self).took(
                *final(self),
                spec_walk_file(old(self).idx(), *file, old(self).in_unsafe()),
            ),
    {
        self.process_items(&file.items, 0);
    }
}


} // verus!

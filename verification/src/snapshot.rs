//! Snapshot persistence: the frozen index as a flat token document.
//!
//! A built index can be written out as a structured token list (the
//! versioned tree, then the alias directives) and read back in a later
//! run instead of re-scanning the library sources.  The format carries
//! no schema version: reading a document of another shape fails, it is
//! never reinterpreted.
//!
//! `lemma_snapshot_round_trip` proves that reading a written snapshot
//! restores exactly the tree and alias list that were written, and
//! `lemma_snapshot_preserves_resolution` that every path then resolves
//! to exactly what it resolved to before.

use vstd::prelude::*;

use crate::index::children_view;
use crate::index::lemma_children_view_index;
use crate::index::lemma_children_view_len;
use crate::index::segs_view;
use crate::index::AliasView;
use crate::index::ConstructorView;
use crate::index::ItemView;
use crate::index::LocalAlias;
use crate::index::LocalAliasView;
use crate::index::Alias;
use crate::index::VersionConstructor;
use crate::index::VersionedItem;
use crate::resolve::spec_get_version;

verus! {

/// One token of the snapshot document.
pub enum SnapToken {
    Text(String),
    Num(u64),
    Open,
    Close,
}

pub ghost enum TokView {
    Text(Seq<char>),
    Num(u64),
    Open,
    Close,
}

impl View for SnapToken {
    type V = TokView;

    open spec fn view(&self) -> TokView {
        match self {
            SnapToken::Text(s) => TokView::Text(s@),
            SnapToken::Num(n) => TokView::Num(*n),
            SnapToken::Open => TokView::Open,
            SnapToken::Close => TokView::Close,
        }
    }
}

pub open spec fn toks_view(s: Seq<SnapToken>) -> Seq<TokView> {
    s.map_values(|t: SnapToken| t@)
}

pub open spec fn pub_num(b: bool) -> u64 {
    if b {
        1
    } else {
        0
    }
}

/// A node: name, version, visibility, then the bracketed children, each
/// child as its key followed by its own encoding.
pub open spec fn enc_node(n: ItemView) -> Seq<TokView>
    decreases n, 1int,
{
    seq![
        TokView::Text(n.name),
        TokView::Text(n.version),
        TokView::Num(pub_num(n.public)),
        TokView::Open,
    ] + enc_kids(n.children, 0) + seq![TokView::Close]
}

pub open spec fn enc_kids(s: Seq<(Seq<char>, ItemView)>, i: int) -> Seq<TokView>
    decreases s, 0int, s.len() - i,
{
    if i < 0 || i >= s.len() {
        Seq::empty()
    } else {
        seq![TokView::Text(s[i].0)] + enc_node(s[i].1) + enc_kids(s, i + 1)
    }
}

pub open spec fn enc_segs(p: Seq<Seq<char>>, i: int) -> Seq<TokView>
    decreases p.len() - i,
{
    if i < 0 || i >= p.len() {
        Seq::empty()
    } else {
        seq![TokView::Text(p[i])] + enc_segs(p, i + 1)
    }
}

/// A path: its segments between one bracket pair.
pub open spec fn enc_path(p: Seq<Seq<char>>) -> Seq<TokView> {
    seq![TokView::Open] + enc_segs(p, 0) + seq![TokView::Close]
}

/// An alias: defining scope, target path, then a tagged binding.
pub open spec fn enc_alias(a: AliasView) -> Seq<TokView> {
    enc_path(a.root) + enc_path(a.relative_path) + (match a.local {
        LocalAliasView::Named(n) => seq![TokView::Num(1), TokView::Text(n)],
        LocalAliasView::GlobChildren => seq![TokView::Num(0)],
    })
}

pub open spec fn enc_aliases(s: Seq<AliasView>, i: int) -> Seq<TokView>
    decreases s.len() - i,
{
    if i < 0 || i >= s.len() {
        Seq::empty()
    } else {
        enc_alias(s[i]) + enc_aliases(s, i + 1)
    }
}

/// The whole snapshot: the tree, then the alias directives to the end of
/// the document.
pub open spec fn spec_snapshot(cv: ConstructorView) -> Seq<TokView> {
    enc_node(cv.root) + enc_aliases(cv.aliases, 0)
}

pub open spec fn dec_node(s: Seq<TokView>, fuel: nat) -> Option<(ItemView, Seq<TokView>)>
    decreases fuel,
{
    if fuel == 0 {
        None
    } else if s.len() >= 4 && s[0] is Text && s[1] is Text && s[2] is Num && s[3] == TokView::Open {
        match dec_kids(s.skip(4), (fuel - 1) as nat) {
            Some((ks, rest)) => Some(
                (
                    ItemView {
                        name: s[0]->Text_0,
                        version: s[1]->Text_0,
                        public: s[2]->Num_0 == 1,
                        children: ks,
                    },
                    rest,
                ),
            ),
            None => None,
        }
    } else {
        None
    }
}

pub open spec fn dec_kids(s: Seq<TokView>, fuel: nat) -> Option<
    (Seq<(Seq<char>, ItemView)>, Seq<TokView>),
>
    decreases fuel,
{
    if fuel == 0 || s.len() == 0 {
        None
    } else if s[0] == TokView::Close {
        Some((Seq::empty(), s.drop_first()))
    } else if s[0] is Text {
        match dec_node(s.drop_first(), (fuel - 1) as nat) {
            Some((n, rest)) => match dec_kids(rest, (fuel - 1) as nat) {
                Some((ks, rest2)) => Some((seq![(s[0]->Text_0, n)] + ks, rest2)),
                None => None,
            },
            None => None,
        }
    } else {
        None
    }
}

pub open spec fn dec_segs(s: Seq<TokView>) -> Option<(Seq<Seq<char>>, Seq<TokView>)>
    decreases s.len(),
{
    if s.len() == 0 {
        None
    } else if s[0] == TokView::Close {
        Some((Seq::empty(), s.drop_first()))
    } else if s[0] is Text {
        match dec_segs(s.drop_first()) {
            Some((p, rest)) => Some((seq![s[0]->Text_0] + p, rest)),
            None => None,
        }
    } else {
        None
    }
}

pub open spec fn dec_path(s: Seq<TokView>) -> Option<(Seq<Seq<char>>, Seq<TokView>)> {
    if s.len() > 0 && s[0] == TokView::Open {
        dec_segs(s.drop_first())
    } else {
        None
    }
}

pub open spec fn dec_alias(s: Seq<TokView>) -> Option<(AliasView, Seq<TokView>)> {
    match dec_path(s) {
        Some((root, s1)) => match dec_path(s1) {
            Some((rel, s2)) => {
                if s2.len() >= 1 && s2[0] == TokView::Num(0) {
                    Some(
                        (
                            AliasView {
                                root,
                                relative_path: rel,
                                local: LocalAliasView::GlobChildren,
                            },
                            s2.drop_first(),
                        ),
                    )
                } else if s2.len() >= 2 && s2[0] == TokView::Num(1) && s2[1] is Text {
                    Some(
                        (
                            AliasView {
                                root,
                                relative_path: rel,
                                local: LocalAliasView::Named(s2[1]->Text_0),
                            },
                            s2.skip(2),
                        ),
                    )
                } else {
                    None
                }
            },
            None => None,
        },
        None => None,
    }
}

pub open spec fn dec_aliases(s: Seq<TokView>, fuel: nat) -> Option<Seq<AliasView>>
    decreases fuel,
{
    if s.len() == 0 {
        Some(Seq::empty())
    } else if fuel == 0 {
        None
    } else {
        match dec_alias(s) {
            Some((a, rest)) => match dec_aliases(rest, (fuel - 1) as nat) {
                Some(more) => Some(seq![a] + more),
                None => None,
            },
            None => None,
        }
    }
}

/// The recursion allowance a document of `n` tokens is read with.
pub open spec fn fuel_for(n: nat) -> nat {
    if n + 2 <= u64::MAX {
        n + 2
    } else {
        u64::MAX as nat
    }
}

/// What reading a snapshot document yields: the tree and the alias list,
/// or nothing for a document of another shape.
pub open spec fn spec_parse_snapshot(s: Seq<TokView>) -> Option<(ItemView, Seq<AliasView>)> {
    match dec_node(s, fuel_for(s.len())) {
        Some((root, rest)) => match dec_aliases(rest, fuel_for(rest.len())) {
            Some(aliases) => Some((root, aliases)),
            None => None,
        },
        None => None,
    }
}

proof fn lemma_enc_segs_len(p: Seq<Seq<char>>, i: int)
    ensures
        enc_segs(p, i).len() == if 0 <= i <= p.len() {
            p.len() - i
        } else {
            0int
        },
    decreases p.len() - i,
{
    if 0 <= i < p.len() {
        lemma_enc_segs_len(p, i + 1);
    }
}

proof fn lemma_dec_segs_round(p: Seq<Seq<char>>, i: int, rest: Seq<TokView>)
    requires
        0 <= i <= p.len(),
    ensures
        dec_segs(enc_segs(p, i) + seq![TokView::Close] + rest) == Some(
            (p.skip(i), rest),
        ),
    decreases p.len() - i,
{
    let s = enc_segs(p, i) + seq![TokView::Close] + rest;
    if i >= p.len() {
        assert(s =~= seq![TokView::Close] + rest);
        assert(s[0] == TokView::Close);
        assert(s.drop_first() =~= rest);
        assert(p.skip(i) =~= Seq::<Seq<char>>::empty());
    } else {
        assert(s[0] == TokView::Text(p[i]));
        assert(s.drop_first() =~= enc_segs(p, i + 1) + seq![TokView::Close] + rest);
        lemma_dec_segs_round(p, i + 1, rest);
        assert(seq![p[i]] + p.skip(i + 1) =~= p.skip(i));
    }
}

proof fn lemma_dec_path_round(p: Seq<Seq<char>>, rest: Seq<TokView>)
    ensures
        dec_path(enc_path(p) + rest) == Some((p, rest)),
{
    let s = enc_path(p) + rest;
    assert(s[0] == TokView::Open);
    assert(s.drop_first() =~= enc_segs(p, 0) + seq![TokView::Close] + rest);
    lemma_dec_segs_round(p, 0, rest);
    assert(p.skip(0) =~= p);
}

proof fn lemma_dec_alias_round(a: AliasView, rest: Seq<TokView>)
    ensures
        dec_alias(enc_alias(a) + rest) == Some((a, rest)),
        enc_alias(a).len() >= 5,
{
    let s = enc_alias(a) + rest;
    let tag = match a.local {
        LocalAliasView::Named(n) => seq![TokView::Num(1), TokView::Text(n)],
        LocalAliasView::GlobChildren => seq![TokView::Num(0)],
    };
    assert(s =~= enc_path(a.root) + (enc_path(a.relative_path) + (tag + rest)));
    lemma_dec_path_round(a.root, enc_path(a.relative_path) + (tag + rest));
    lemma_dec_path_round(a.relative_path, tag + rest);
    lemma_enc_segs_len(a.root, 0);
    lemma_enc_segs_len(a.relative_path, 0);
    match a.local {
        LocalAliasView::Named(n) => {
            assert((tag + rest)[0] == TokView::Num(1));
            assert((tag + rest)[1] == TokView::Text(n));
            assert((tag + rest).skip(2) =~= rest);
            assert((tag + rest)[0] != TokView::Num(0));
        },
        LocalAliasView::GlobChildren => {
            assert((tag + rest)[0] == TokView::Num(0));
            assert((tag + rest).drop_first() =~= rest);
        },
    }
}

proof fn lemma_dec_aliases_round(s: Seq<AliasView>, i: int, fuel: nat)
    requires
        0 <= i <= s.len(),
        fuel >= enc_aliases(s, i).len() + 1,
    ensures
        dec_aliases(enc_aliases(s, i), fuel) == Some(s.skip(i)),
    decreases s.len() - i,
{
    let e = enc_aliases(s, i);
    if i >= s.len() {
        assert(e.len() == 0);
        assert(s.skip(i) =~= Seq::<AliasView>::empty());
    } else {
        lemma_dec_alias_round(s[i], enc_aliases(s, i + 1));
        assert(e.len() > 0);
        lemma_dec_aliases_round(s, i + 1, (fuel - 1) as nat);
        assert(seq![s[i]] + s.skip(i + 1) =~= s.skip(i));
    }
}

proof fn lemma_enc_node_len(n: ItemView)
    ensures
        enc_node(n).len() >= 5,
{
}

proof fn lemma_dec_node_round(n: ItemView, rest: Seq<TokView>, fuel: nat)
    requires
        fuel >= enc_node(n).len() + 2,
    ensures
        dec_node(enc_node(n) + rest, fuel) == Some((n, rest)),
    decreases n, 1int,
{
    let s = enc_node(n) + rest;
    assert(s[0] == TokView::Text(n.name));
    assert(s[1] == TokView::Text(n.version));
    assert(s[2] == TokView::Num(pub_num(n.public)));
    assert(s[3] == TokView::Open);
    assert(s.skip(4) =~= enc_kids(n.children, 0) + seq![TokView::Close] + rest);
    lemma_dec_kids_round(n.children, 0, rest, (fuel - 1) as nat);
    assert(n.children.skip(0) =~= n.children);
    assert(pub_num(n.public) == 1 <==> n.public);
}

proof fn lemma_dec_kids_round(
    ks: Seq<(Seq<char>, ItemView)>,
    i: int,
    rest: Seq<TokView>,
    fuel: nat,
)
    requires
        0 <= i <= ks.len(),
        fuel >= enc_kids(ks, i).len() + 2,
    ensures
        dec_kids(enc_kids(ks, i) + seq![TokView::Close] + rest, fuel) == Some(
            (ks.skip(i), rest),
        ),
    decreases ks, 0int, ks.len() - i,
{
    let s = enc_kids(ks, i) + seq![TokView::Close] + rest;
    if i >= ks.len() {
        assert(s =~= seq![TokView::Close] + rest);
        assert(s[0] == TokView::Close);
        assert(s.drop_first() =~= rest);
        assert(ks.skip(i) =~= Seq::<(Seq<char>, ItemView)>::empty());
    } else {
        lemma_enc_node_len(ks[i].1);
        assert(s[0] == TokView::Text(ks[i].0));
        assert(s.drop_first() =~= enc_node(ks[i].1) + (enc_kids(ks, i + 1) + seq![
            TokView::Close,
        ] + rest));
        lemma_dec_node_round(
            ks[i].1,
            enc_kids(ks, i + 1) + seq![TokView::Close] + rest,
            (fuel - 1) as nat,
        );
        lemma_dec_kids_round(ks, i + 1, rest, (fuel - 1) as nat);
        assert(seq![(ks[i].0, ks[i].1)] + ks.skip(i + 1) =~= ks.skip(i));
    }
}

/// Reading a written snapshot restores exactly the tree and the alias
/// list that were written, for any index whose document fits the
/// machine's recursion allowance.
pub proof fn lemma_snapshot_round_trip(cv: ConstructorView)
    requires
        spec_snapshot(cv).len() + 2 <= u64::MAX,
    ensures
        spec_parse_snapshot(spec_snapshot(cv)) == Some((cv.root, cv.aliases)),
{
    let s = spec_snapshot(cv);
    lemma_dec_node_round(cv.root, enc_aliases(cv.aliases, 0), fuel_for(s.len()));
    lemma_dec_aliases_round(cv.aliases, 0, fuel_for(enc_aliases(cv.aliases, 0).len()));
    assert(cv.aliases.skip(0) =~= cv.aliases);
}

/// Every path that resolved before a snapshot round trip resolves to the
/// same version afterwards: reading restores the tree and aliases, and
/// resolution reads nothing else.
pub proof fn lemma_snapshot_preserves_resolution(
    cv: ConstructorView,
    restored: ConstructorView,
    path: Seq<Seq<char>>,
)
    requires
        spec_snapshot(cv).len() + 2 <= u64::MAX,
        spec_parse_snapshot(spec_snapshot(cv)) == Some((restored.root, restored.aliases)),
    ensures
        spec_get_version(restored, path) == spec_get_version(cv, path),
{
    lemma_snapshot_round_trip(cv);
}

proof fn lemma_toks_push(s: Seq<SnapToken>, t: SnapToken)
    ensures
        toks_view(s.push(t)) =~= toks_view(s).push(t@),
{
    assert forall|j: int| 0 <= j < s.push(t).len() implies toks_view(s.push(t))[j] == toks_view(
        s,
    ).push(t@)[j] by {
        if j < s.len() {
            assert(s.push(t)[j] == s[j]);
        }
    }
}

fn write_kids(v: &Vec<(String, VersionedItem)>, i: usize, out: &mut Vec<SnapToken>)
    requires
        i <= v@.len(),
    ensures
        toks_view(final(out)@) == toks_view(old(out)@) + enc_kids(
            children_view(v@),
            i as int,
        ),
    decreases v@, 0int, v@.len() - i,
{
    proof {
        lemma_children_view_len(v@);
    }
    if i < v.len() {
        proof {
            lemma_children_view_index(v@, i as int);
        }
        out.push(SnapToken::Text(v[i].0.clone()));
        write_node(&v[i].1, out);
        let ghost mid = toks_view(out@);
        write_kids(v, i + 1, out);
        proof {
            assert(toks_view(out@) =~= toks_view(old(out)@) + enc_kids(
                children_view(v@),
                i as int,
            ));
        }
    } else {
        proof {
            assert(toks_view(out@) =~= toks_view(old(out)@) + enc_kids(
                children_view(v@),
                i as int,
            ));
        }
    }
}

/// Writes one tree node as tokens.
fn write_node(n: &VersionedItem, out: &mut Vec<SnapToken>)
    ensures
        toks_view(final(out)@) == toks_view(old(out)@) + enc_node(n@),
    decreases *n, 1int,
{
    let ghost base = toks_view(old(out)@);
    let ghost s0 = out@;
    out.push(SnapToken::Text(n.name.clone()));
    proof {
        lemma_toks_push(s0, out@.last());
    }
    let ghost s1 = out@;
    out.push(SnapToken::Text(n.version.clone()));
    proof {
        lemma_toks_push(s1, out@.last());
    }
    let ghost s2 = out@;
    out.push(SnapToken::Num(if n.public { 1u64 } else { 0u64 }));
    proof {
        lemma_toks_push(s2, out@.last());
    }
    let ghost s3 = out@;
    out.push(SnapToken::Open);
    proof {
        lemma_toks_push(s3, out@.last());
        assert(toks_view(out@) =~= base + seq![
            TokView::Text(n.name@),
            TokView::Text(n.version@),
            TokView::Num(pub_num(n.public)),
            TokView::Open,
        ]);
    }
    let ghost hdr = toks_view(out@);
    write_kids(&n.children, 0, out);
    let ghost s4 = out@;
    out.push(SnapToken::Close);
    proof {
        lemma_toks_push(s4, out@.last());
        assert(toks_view(out@) =~= base + enc_node(n@));
    }
}

fn write_path(p: &Vec<String>, out: &mut Vec<SnapToken>)
    ensures
        toks_view(final(out)@) == toks_view(old(out)@) + enc_path(segs_view(p@)),
{
    let ghost s0 = out@;
    out.push(SnapToken::Open);
    proof {
        lemma_toks_push(s0, out@.last());
        assert(toks_view(out@) =~= toks_view(old(out)@) + seq![TokView::Open] + enc_segs(
            segs_view(p@),
            0,
        ).take(0int));
    }
    let mut i: usize = 0;
    while i < p.len()
        invariant
            0 <= i <= p@.len(),
            toks_view(out@) =~= toks_view(old(out)@) + seq![TokView::Open] + enc_segs(
                segs_view(p@),
                0,
            ).take(i as int),
        decreases p@.len() - i,
    {
        let ghost sx = out@;
        out.push(SnapToken::Text(p[i].clone()));
        proof {
            lemma_toks_push(sx, out@.last());
            lemma_enc_segs_take(segs_view(p@), i as int);
            assert(segs_view(p@)[i as int] == p@[i as int]@);
            assert(toks_view(out@) =~= toks_view(old(out)@) + seq![TokView::Open] + enc_segs(
                segs_view(p@),
                0,
            ).take(i + 1));
        }
        i = i + 1;
    }
    let ghost sy = out@;
    out.push(SnapToken::Close);
    proof {
        lemma_toks_push(sy, out@.last());
        lemma_enc_segs_len(segs_view(p@), 0);
        assert(enc_segs(segs_view(p@), 0).take(p@.len() as int) =~= enc_segs(segs_view(p@), 0));
        assert(toks_view(out@) =~= toks_view(old(out)@) + enc_path(segs_view(p@)));
    }
}

proof fn lemma_enc_segs_take(p: Seq<Seq<char>>, i: int)
    requires
        0 <= i < p.len(),
    ensures
        enc_segs(p, 0).take(i + 1) =~= enc_segs(p, 0).take(i).push(TokView::Text(p[i])),
        enc_segs(p, 0).len() == p.len(),
    decreases p.len(),
{
    lemma_enc_segs_len(p, 0);
    lemma_enc_segs_index(p, 0, i);
}

proof fn lemma_enc_segs_index(p: Seq<Seq<char>>, from: int, i: int)
    requires
        0 <= from <= i < p.len(),
    ensures
        enc_segs(p, from).len() == p.len() - from,
        enc_segs(p, from)[i - from] == TokView::Text(p[i]),
    decreases i - from,
{
    lemma_enc_segs_len(p, from);
    lemma_enc_segs_len(p, from + 1);
    if i > from {
        lemma_enc_segs_index(p, from + 1, i);
    }
}

fn write_alias(a: &Alias, out: &mut Vec<SnapToken>)
    ensures
        toks_view(final(out)@) == toks_view(old(out)@) + enc_alias(a@),
{
    write_path(&a.root, out);
    write_path(&a.relative_path, out);
    match &a.local {
        LocalAlias::Named(n) => {
            let ghost s0 = out@;
            out.push(SnapToken::Num(1));
            proof {
                lemma_toks_push(s0, out@.last());
            }
            let ghost s1 = out@;
            out.push(SnapToken::Text(n.clone()));
            proof {
                lemma_toks_push(s1, out@.last());
            }
        },
        LocalAlias::GlobChildren => {
            let ghost s0 = out@;
            out.push(SnapToken::Num(0));
            proof {
                lemma_toks_push(s0, out@.last());
            }
        },
    }
    proof {
        assert(toks_view(out@) =~= toks_view(old(out)@) + enc_alias(a@));
    }
}

impl VersionConstructor {
    /// The frozen index as a snapshot document: the tree, then the alias
    /// directives.  The scope stack is construction-time state and is
    /// not persisted.
    pub fn snapshot(&self) -> (r: Vec<SnapToken>)
        ensures
            toks_view(r@) == spec_snapshot(self@),
    {
        let mut out: Vec<SnapToken> = Vec::new();
        proof {
            assert(toks_view(out@) =~= Seq::<TokView>::empty());
        }
        write_node(&self.root, &mut out);
        let mut i: usize = 0;
        while i < self.aliases.len()
            invariant
                0 <= i <= self.aliases@.len(),
                toks_view(out@) =~= enc_node(self@.root) + enc_aliases_upto(self@.aliases, i as int),
            decreases self.aliases@.len() - i,
        {
            write_alias(&self.aliases[i], &mut out);
            proof {
                assert(self@.aliases[i as int] == self.aliases@[i as int]@);
                lemma_enc_aliases_upto(self@.aliases, i as int);
                assert(toks_view(out@) =~= enc_node(self@.root) + enc_aliases_upto(
                    self@.aliases,
                    i + 1,
                ));
            }
            i = i + 1;
        }
        proof {
            lemma_enc_aliases_upto_full(self@.aliases, 0);
            assert(toks_view(out@) =~= spec_snapshot(self@));
        }
        out
    }
}

/// The tokens of the first `i` aliases.
pub open spec fn enc_aliases_upto(s: Seq<AliasView>, i: int) -> Seq<TokView>
    decreases i,
{
    if i <= 0 {
        Seq::empty()
    } else {
        enc_aliases_upto(s, i - 1) + enc_alias(s[i - 1])
    }
}

proof fn lemma_enc_aliases_upto(s: Seq<AliasView>, i: int)
    requires
        0 <= i,
    ensures
        enc_aliases_upto(s, i + 1) =~= enc_aliases_upto(s, i) + enc_alias(s[i]),
{
}

proof fn lemma_enc_aliases_upto_full(s: Seq<AliasView>, i: int)
    requires
        0 <= i <= s.len(),
    ensures
        enc_aliases_upto(s, s.len() as int) =~= enc_aliases_upto(s, i) + enc_aliases(s, i),
    decreases s.len() - i,
{
    if i < s.len() {
        lemma_enc_aliases_upto_full(s, i + 1);
        lemma_enc_aliases_upto(s, i);
    }
}

fn read_node(toks: &Vec<SnapToken>, pos: usize, fuel: u64) -> (r: Option<(VersionedItem, usize)>)
    requires
        pos <= toks@.len(),
    ensures
        match r {
            Some((n, p2)) => pos <= p2 <= toks@.len() && dec_node(
                toks_view(toks@).skip(pos as int),
                fuel as nat,
            ) == Some((n@, toks_view(toks@).skip(p2 as int))),
            None => dec_node(toks_view(toks@).skip(pos as int), fuel as nat) is None,
        },
    decreases fuel,
{
    let ghost s = toks_view(toks@).skip(pos as int);
    if fuel == 0 {
        return None;
    }
    if toks.len() - pos < 4 {
        return None;
    }
    proof {
        assert(s[0] == toks@[pos as int]@);
        assert(s[1] == toks@[pos as int + 1]@);
        assert(s[2] == toks@[pos as int + 2]@);
        assert(s[3] == toks@[pos as int + 3]@);
    }
    let name = match &toks[pos] {
        SnapToken::Text(t) => t.clone(),
        _ => {
            return None;
        },
    };
    let version = match &toks[pos + 1] {
        SnapToken::Text(t) => t.clone(),
        _ => {
            return None;
        },
    };
    let pb = match &toks[pos + 2] {
        SnapToken::Num(k) => *k,
        _ => {
            return None;
        },
    };
    match &toks[pos + 3] {
        SnapToken::Open => {},
        _ => {
            return None;
        },
    }
    proof {
        assert(s.skip(4) =~= toks_view(toks@).skip(pos as int + 4));
    }
    match read_kids(toks, pos + 4, fuel - 1) {
        Some((children, p2)) => {
            let node = VersionedItem { name, version, public: pb == 1, children };
            Some((node, p2))
        },
        None => None,
    }
}

fn read_kids(toks: &Vec<SnapToken>, pos: usize, fuel: u64) -> (r: Option<
    (Vec<(String, VersionedItem)>, usize),
>)
    requires
        pos <= toks@.len(),
    ensures
        match r {
            Some((v, p2)) => pos <= p2 <= toks@.len() && dec_kids(
                toks_view(toks@).skip(pos as int),
                fuel as nat,
            ) == Some((children_view(v@), toks_view(toks@).skip(p2 as int))),
            None => dec_kids(toks_view(toks@).skip(pos as int), fuel as nat) is None,
        },
    decreases fuel,
{
    let ghost s = toks_view(toks@).skip(pos as int);
    if fuel == 0 || pos >= toks.len() {
        return None;
    }
    proof {
        assert(s[0] == toks@[pos as int]@);
        assert(s.drop_first() =~= toks_view(toks@).skip(pos as int + 1));
    }
    match &toks[pos] {
        SnapToken::Close => {
            let v: Vec<(String, VersionedItem)> = Vec::new();
            proof {
                assert(children_view(v@) =~= Seq::<(Seq<char>, ItemView)>::empty());
            }
            Some((v, pos + 1))
        },
        SnapToken::Text(k) => {
            let key = k.clone();
            match read_node(toks, pos + 1, fuel - 1) {
                Some((n, p2)) => {
                    match read_kids(toks, p2, fuel - 1) {
                        Some((mut ks, p3)) => {
                            let ghost prev = ks@;
                            ks.insert(0, (key, n));
                            proof {
                                lemma_children_view_len(ks@);
                                lemma_children_view_len(prev);
                                assert forall|j: int| 0 <= j < ks@.len() implies children_view(
                                    ks@,
                                )[j] == (seq![(key@, n@)] + children_view(prev))[j] by {
                                    lemma_children_view_index(ks@, j);
                                    if j > 0 {
                                        lemma_children_view_index(prev, j - 1);
                                    }
                                }
                                assert(children_view(ks@) =~= seq![(key@, n@)] + children_view(
                                    prev,
                                ));
                            }
                            Some((ks, p3))
                        },
                        None => None,
                    }
                },
                None => None,
            }
        },
        _ => None,
    }
}

fn read_segs(toks: &Vec<SnapToken>, pos: usize) -> (r: Option<(Vec<String>, usize)>)
    requires
        pos <= toks@.len(),
    ensures
        match r {
            Some((p, p2)) => pos < p2 <= toks@.len() && dec_segs(
                toks_view(toks@).skip(pos as int),
            ) == Some((segs_view(p@), toks_view(toks@).skip(p2 as int))),
            None => dec_segs(toks_view(toks@).skip(pos as int)) is None,
        },
    decreases toks@.len() - pos,
{
    let ghost s = toks_view(toks@).skip(pos as int);
    if pos >= toks.len() {
        return None;
    }
    proof {
        assert(s[0] == toks@[pos as int]@);
        assert(s.drop_first() =~= toks_view(toks@).skip(pos as int + 1));
    }
    match &toks[pos] {
        SnapToken::Close => {
            let v: Vec<String> = Vec::new();
            proof {
                assert(segs_view(v@) =~= Seq::<Seq<char>>::empty());
            }
            Some((v, pos + 1))
        },
        SnapToken::Text(t) => {
            match read_segs(toks, pos + 1) {
                Some((mut p, p2)) => {
                    let ghost prev = p@;
                    p.insert(0, t.clone());
                    proof {
                        assert(segs_view(p@) =~= seq![t@] + segs_view(prev));
                    }
                    Some((p, p2))
                },
                None => None,
            }
        },
        _ => None,
    }
}

fn read_path(toks: &Vec<SnapToken>, pos: usize) -> (r: Option<(Vec<String>, usize)>)
    requires
        pos <= toks@.len(),
    ensures
        match r {
            Some((p, p2)) => pos < p2 <= toks@.len() && dec_path(
                toks_view(toks@).skip(pos as int),
            ) == Some((segs_view(p@), toks_view(toks@).skip(p2 as int))),
            None => dec_path(toks_view(toks@).skip(pos as int)) is None,
        },
{
    let ghost s = toks_view(toks@).skip(pos as int);
    if pos >= toks.len() {
        return None;
    }
    proof {
        assert(s[0] == toks@[pos as int]@);
        assert(s.drop_first() =~= toks_view(toks@).skip(pos as int + 1));
    }
    match &toks[pos] {
        SnapToken::Open => read_segs(toks, pos + 1),
        _ => None,
    }
}

fn read_alias(toks: &Vec<SnapToken>, pos: usize) -> (r: Option<(Alias, usize)>)
    requires
        pos <= toks@.len(),
    ensures
        match r {
            Some((a, p2)) => pos < p2 <= toks@.len() && dec_alias(
                toks_view(toks@).skip(pos as int),
            ) == Some((a@, toks_view(toks@).skip(p2 as int))),
            None => dec_alias(toks_view(toks@).skip(pos as int)) is None,
        },
{
    let ghost s = toks_view(toks@).skip(pos as int);
    let root = match read_path(toks, pos) {
        Some(x) => x,
        None => {
            return None;
        },
    };
    let rel = match read_path(toks, root.1) {
        Some(x) => x,
        None => {
            return None;
        },
    };
    let p2 = rel.1;
    let ghost s2 = toks_view(toks@).skip(p2 as int);
    if p2 >= toks.len() {
        return None;
    }
    proof {
        assert(s2[0] == toks@[p2 as int]@);
        assert(s2.drop_first() =~= toks_view(toks@).skip(p2 as int + 1));
    }
    match &toks[p2] {
        SnapToken::Num(k) => {
            if *k == 0 {
                let a = Alias {
                    root: root.0,
                    relative_path: rel.0,
                    local: LocalAlias::GlobChildren,
                };
                Some((a, p2 + 1))
            } else if *k == 1 {
                if p2 + 1 >= toks.len() {
                    return None;
                }
                proof {
                    assert(s2[1] == toks@[p2 as int + 1]@);
                    assert(s2.skip(2) =~= toks_view(toks@).skip(p2 as int + 2));
                }
                match &toks[p2 + 1] {
                    SnapToken::Text(nm) => {
                        let a = Alias {
                            root: root.0,
                            relative_path: rel.0,
                            local: LocalAlias::Named(nm.clone()),
                        };
                        Some((a, p2 + 2))
                    },
                    _ => None,
                }
            } else {
                None
            }
        },
        _ => None,
    }
}

fn read_aliases(toks: &Vec<SnapToken>, pos: usize, fuel: u64) -> (r: Option<Vec<Alias>>)
    requires
        pos <= toks@.len(),
    ensures
        match r {
            Some(v) => dec_aliases(toks_view(toks@).skip(pos as int), fuel as nat) == Some(
                crate::index::aliases_view(v@),
            ),
            None => dec_aliases(toks_view(toks@).skip(pos as int), fuel as nat) is None,
        },
    decreases fuel,
{
    let ghost s = toks_view(toks@).skip(pos as int);
    if pos >= toks.len() {
        let v: Vec<Alias> = Vec::new();
        proof {
            assert(crate::index::aliases_view(v@) =~= Seq::<AliasView>::empty());
        }
        return Some(v);
    }
    if fuel == 0 {
        return None;
    }
    match read_alias(toks, pos) {
        Some((a, p2)) => {
            match read_aliases(toks, p2, fuel - 1) {
                Some(mut v) => {
                    let ghost prev = v@;
                    v.insert(0, a);
                    proof {
                        assert(crate::index::aliases_view(v@) =~= seq![v@[0]@]
                            + crate::index::aliases_view(prev));
                    }
                    Some(v)
                },
                None => None,
            }
        },
        None => None,
    }
}

/// Reads a snapshot document back into a builder whose scope stack is
/// empty; a document of another shape yields nothing.
pub fn from_snapshot(toks: &Vec<SnapToken>) -> (r: Option<VersionConstructor>)
    ensures
        match r {
            Some(c) => spec_parse_snapshot(toks_view(toks@)) == Some((c@.root, c@.aliases))
                && c@.path_stack =~= Seq::<Seq<char>>::empty(),
            None => spec_parse_snapshot(toks_view(toks@)) is None,
        },
{
    let n = toks.len();
    let fuel: u64 = if n as u64 <= u64::MAX - 2 {
        n as u64 + 2
    } else {
        u64::MAX
    };
    proof {
        assert(toks_view(toks@).len() == toks@.len());
        assert(fuel as nat == fuel_for(toks_view(toks@).len()));
        assert(toks_view(toks@).skip(0) =~= toks_view(toks@));
    }
    match read_node(toks, 0, fuel) {
        Some((root, pos)) => {
            let rest = n - pos;
            let fuel2: u64 = if rest as u64 <= u64::MAX - 2 {
                rest as u64 + 2
            } else {
                u64::MAX
            };
            proof {
                assert(toks_view(toks@).skip(pos as int).len() == toks@.len() - pos);
                assert(fuel2 as nat == fuel_for(toks_view(toks@).skip(pos as int).len()));
            }
            match read_aliases(toks, pos, fuel2) {
                Some(aliases) => Some(
                    VersionConstructor { root, aliases, path_stack: Vec::new() },
                ),
                None => None,
            }
        },
        None => None,
    }
}


} // verus!

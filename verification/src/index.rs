//! The versioned symbol tree and the alias directive list.
//!
//! A `VersionedItem` is one node of the tree: a symbol's stabilization
//! version, its visibility, and its named children.  A `VersionConstructor`
//! owns the tree while it is being built: a path stack marks the module
//! scope that declarations are recorded under, and every import or
//! re-export relationship is kept as an `Alias` in declaration order.
//!
//! All contracts are stated over ghost views: `ItemView`, `AliasView` and
//! `ConstructorView` are the mathematical models of the three types.

use vstd::prelude::*;

verus! {

/// One node of the versioned symbol tree.
pub struct VersionedItem {
    pub name: String,
    pub version: String,
    pub public: bool,
    pub children: Vec<(String, VersionedItem)>,
}

/// The mathematical model of a tree node.
pub ghost struct ItemView {
    pub name: Seq<char>,
    pub version: Seq<char>,
    pub public: bool,
    pub children: Seq<(Seq<char>, ItemView)>,
}

impl View for VersionedItem {
    type V = ItemView;

    open spec fn view(&self) -> ItemView
        decreases self,
    {
        ItemView {
            name: self.name@,
            version: self.version@,
            public: self.public,
            children: children_view(self.children@),
        }
    }
}

/// The model of a children list: each entry keeps its name and its subtree.
pub open spec fn children_view(s: Seq<(String, VersionedItem)>) -> Seq<(Seq<char>, ItemView)>
    decreases s,
{
    if s.len() == 0 {
        Seq::empty()
    } else {
        children_view(s.drop_last()).push((s.last().0@, s.last().1@))
    }
}

pub proof fn lemma_children_view_len(s: Seq<(String, VersionedItem)>)
    ensures
        children_view(s).len() == s.len(),
    decreases s.len(),
{
    if s.len() == 0 {
        assert(children_view(s) =~= Seq::<(Seq<char>, ItemView)>::empty());
    } else {
        lemma_children_view_len(s.drop_last());
        assert(children_view(s) == children_view(s.drop_last()).push(
            (s.last().0@, s.last().1@),
        ));
    }
}

pub proof fn lemma_children_view_index(s: Seq<(String, VersionedItem)>, j: int)
    requires
        0 <= j < s.len(),
    ensures
        children_view(s)[j] == (s[j].0@, s[j].1@),
    decreases s.len(),
{
    lemma_children_view_len(s);
    assert(children_view(s) == children_view(s.drop_last()).push((s.last().0@, s.last().1@)));
    if j < s.len() - 1 {
        lemma_children_view_len(s.drop_last());
        assert(s.drop_last()[j] == s[j]);
        lemma_children_view_index(s.drop_last(), j);
    } else {
        assert(s[j] == s.last());
    }
}

/// The view of a whole path: each segment as its character sequence.
pub open spec fn segs_view(s: Seq<String>) -> Seq<Seq<char>> {
    s.map_values(|x: String| x@)
}

/// One import or re-export relationship.
pub enum LocalAlias {
    /// A single name is imported, possibly renamed.
    Named(String),
    /// All children of the target are imported.
    GlobChildren,
}

pub struct Alias {
    /// Qualified path of the module that declares the import.
    pub root: Vec<String>,
    /// Qualified path the import points to, possibly relative.
    pub relative_path: Vec<String>,
    pub local: LocalAlias,
}

pub ghost enum LocalAliasView {
    Named(Seq<char>),
    GlobChildren,
}

pub ghost struct AliasView {
    pub root: Seq<Seq<char>>,
    pub relative_path: Seq<Seq<char>>,
    pub local: LocalAliasView,
}

impl View for Alias {
    type V = AliasView;

    open spec fn view(&self) -> AliasView {
        AliasView {
            root: segs_view(self.root@),
            relative_path: segs_view(self.relative_path@),
            local: match self.local {
                LocalAlias::Named(ref n) => LocalAliasView::Named(n@),
                LocalAlias::GlobChildren => LocalAliasView::GlobChildren,
            },
        }
    }
}

pub open spec fn aliases_view(s: Seq<Alias>) -> Seq<AliasView> {
    s.map_values(|a: Alias| a@)
}

/// Owner of the tree during construction; frozen afterwards and then only
/// queried through the resolver.
pub struct VersionConstructor {
    pub root: VersionedItem,
    pub aliases: Vec<Alias>,
    pub path_stack: Vec<String>,
}

/// The model of the builder state.
pub ghost struct ConstructorView {
    pub root: ItemView,
    pub aliases: Seq<AliasView>,
    pub path_stack: Seq<Seq<char>>,
}

impl View for VersionConstructor {
    type V = ConstructorView;

    open spec fn view(&self) -> ConstructorView {
        ConstructorView {
            root: self.root@,
            aliases: aliases_view(self.aliases@),
            path_stack: segs_view(self.path_stack@),
        }
    }
}

/// The model of a freshly created node: stabilization version "1.0.0",
/// public, childless.
pub open spec fn spec_new_item(name: Seq<char>) -> ItemView {
    ItemView { name, version: "1.0.0"@, public: true, children: Seq::empty() }
}

impl VersionedItem {
    /// A fresh node for a symbol that has not carried its own stability
    /// marker yet.
    pub fn new(name: String) -> (r: VersionedItem)
        ensures
            r@ == spec_new_item(name@),
    {
        let r = VersionedItem {
            name,
            version: "1.0.0".to_owned(),
            public: true,
            children: Vec::new(),
        };
        assert(r@.children =~= Seq::<(Seq<char>, ItemView)>::empty());
        r
    }
}

/// First entry of a children list whose name matches, if any.
pub open spec fn spec_lookup_child(s: Seq<(Seq<char>, ItemView)>, name: Seq<char>) -> Option<
    ItemView,
>
    decreases s.len(),
{
    if s.len() == 0 {
        None
    } else if s[0].0 == name {
        Some(s[0].1)
    } else {
        spec_lookup_child(s.drop_first(), name)
    }
}

/// First index of a children list whose name matches, or the length.
pub open spec fn spec_child_index(s: Seq<(Seq<char>, ItemView)>, name: Seq<char>) -> int
    decreases s.len(),
{
    if s.len() == 0 {
        0
    } else if s[0].0 == name {
        0
    } else {
        1 + spec_child_index(s.drop_first(), name)
    }
}

pub proof fn lemma_child_index(s: Seq<(Seq<char>, ItemView)>, name: Seq<char>)
    ensures
        0 <= spec_child_index(s, name) <= s.len(),
        spec_child_index(s, name) < s.len() ==> s[spec_child_index(s, name)].0 == name
            && spec_lookup_child(s, name) == Some(s[spec_child_index(s, name)].1),
        forall|k: int| 0 <= k < spec_child_index(s, name) ==> s[k].0 != name,
        spec_child_index(s, name) == s.len() ==> spec_lookup_child(s, name) is None,
    decreases s.len(),
{
    if s.len() > 0 && s[0].0 != name {
        lemma_child_index(s.drop_first(), name);
        let idx = spec_child_index(s, name);
        assert forall|k: int| 0 <= k < idx implies s[k].0 != name by {
            if k > 0 {
                assert(s.drop_first()[k - 1] == s[k]);
            }
        }
    }
}

/// Looks a child up by name: the first entry with that name wins.
pub fn find_child<'a>(node: &'a VersionedItem, name: &String) -> (r: Option<&'a VersionedItem>)
    ensures
        match r {
            Some(c) => spec_lookup_child(node@.children, name@) == Some(c@),
            None => spec_lookup_child(node@.children, name@) is None,
        },
{
    proof {
        lemma_children_view_len(node.children@);
        assert(node@.children.skip(0) =~= node@.children);
    }
    let mut i: usize = 0;
    while i < node.children.len()
        invariant
            0 <= i <= node.children.len(),
            children_view(node.children@).len() == node.children@.len(),
            spec_lookup_child(node@.children.skip(i as int), name@) == spec_lookup_child(
                node@.children,
                name@,
            ),
        decreases node.children.len() - i,
    {
        proof {
            lemma_children_view_index(node.children@, i as int);
            assert(node@.children.skip(i as int)[0] == node@.children[i as int]);
            assert(node@.children.skip(i as int).drop_first() =~= node@.children.skip(i + 1));
        }
        if node.children[i].0.eq(name) {
            return Some(&node.children[i].1);
        }
        i = i + 1;
    }
    proof {
        assert(node@.children.skip(node.children@.len() as int) =~= Seq::<
            (Seq<char>, ItemView),
        >::empty());
    }
    None
}

/// The result of writing `version` and `public` at the end of `path`
/// (counted from position `i`), creating missing intermediate nodes with
/// the defaults of `spec_new_item` and skipping `self` segments.
pub open spec fn spec_set_at(
    n: ItemView,
    path: Seq<Seq<char>>,
    i: int,
    version: Seq<char>,
    public: bool,
) -> ItemView
    decreases path.len() - i, 1int, 0int,
    when 0 <= i <= path.len()
{
    if i >= path.len() {
        ItemView { name: n.name, version, public, children: n.children }
    } else if path[i] == "self"@ {
        spec_set_at(n, path, i + 1, version, public)
    } else {
        ItemView {
            name: n.name,
            version: n.version,
            public: n.public,
            children: spec_set_children(n.children, path, i, version, public),
        }
    }
}

/// Helper of `spec_set_at`: rewrites the first child named `path[i]`, or
/// appends a fresh branch when none exists.
pub open spec fn spec_set_children(
    s: Seq<(Seq<char>, ItemView)>,
    path: Seq<Seq<char>>,
    i: int,
    version: Seq<char>,
    public: bool,
) -> Seq<(Seq<char>, ItemView)>
    decreases path.len() - i, 0int, s.len(),
    when 0 <= i < path.len()
{
    if s.len() == 0 {
        seq![(path[i], spec_set_at(spec_new_item(path[i]), path, i + 1, version, public))]
    } else if s[0].0 == path[i] {
        seq![(s[0].0, spec_set_at(s[0].1, path, i + 1, version, public))] + s.drop_first()
    } else {
        seq![s[0]] + spec_set_children(s.drop_first(), path, i, version, public)
    }
}

pub proof fn lemma_set_children_shape(
    s: Seq<(Seq<char>, ItemView)>,
    path: Seq<Seq<char>>,
    i: int,
    version: Seq<char>,
    public: bool,
)
    requires
        0 <= i < path.len(),
    ensures
        spec_child_index(s, path[i]) < s.len() ==> spec_set_children(s, path, i, version, public)
            =~= s.update(
            spec_child_index(s, path[i]),
            (
                s[spec_child_index(s, path[i])].0,
                spec_set_at(s[spec_child_index(s, path[i])].1, path, i + 1, version, public),
            ),
        ),
        spec_child_index(s, path[i]) == s.len() ==> spec_set_children(s, path, i, version, public)
            =~= s.push(
            (path[i], spec_set_at(spec_new_item(path[i]), path, i + 1, version, public)),
        ),
    decreases s.len(),
{
    lemma_child_index(s, path[i]);
    if s.len() > 0 && s[0].0 != path[i] {
        lemma_set_children_shape(s.drop_first(), path, i, version, public);
        lemma_child_index(s.drop_first(), path[i]);
    }
}

/// Writes `version` and `public` at the end of `path[i..]` below `node`,
/// creating the branch where it is missing.
pub fn set_version_at(
    node: &mut VersionedItem,
    path: &Vec<String>,
    i: usize,
    version: &String,
    public: bool,
)
    requires
        i <= path@.len(),
    ensures
        final(node)@ == spec_set_at(old(node)@, segs_view(path@), i as int, version@, public),
    decreases path@.len() - i,
{
    let ghost pview = segs_view(path@);
    if i >= path.len() {
        node.version = version.clone();
        node.public = public;
        return ;
    }
    if path[i].eq(&"self".to_owned()) {
        set_version_at(node, path, i + 1, version, public);
        return ;
    }
    proof {
        lemma_children_view_len(node.children@);
        lemma_child_index(node@.children, pview[i as int]);
    }
    // Find the first child with the segment's name.
    let mut j: usize = 0;
    let n = node.children.len();
    loop
        invariant_except_break
            0 <= j <= n,
            n == node.children@.len(),
            children_view(node.children@).len() == n,
            pview =~= segs_view(path@),
            pview.len() == path@.len(),
            forall|k: int| 0 <= k < j ==> node@.children[k].0 != pview[i as int],
            i < path@.len(),
        ensures
            0 <= j <= n,
            n == node.children@.len(),
            children_view(node.children@).len() == n,
            j == spec_child_index(node@.children, pview[i as int]),
            i < path@.len(),
        decreases n - j,
    {
        if j >= n {
            proof {
                lemma_child_index(node@.children, pview[i as int]);
            }
            break ;
        }
        proof {
            lemma_children_view_index(node.children@, j as int);
            assert(pview[i as int] == path@[i as int]@);
        }
        if node.children[j].0.eq(&path[i]) {
            proof {
                lemma_child_index(node@.children, pview[i as int]);
            }
            break ;
        }
        j = j + 1;
    }
    let found = j < n;
    let ghost oldex = node.children@;
    let ghost oldc = children_view(oldex);
    proof {
        lemma_child_index(oldc, pview[i as int]);
        assert forall|k: int| 0 <= k < oldex.len() implies #[trigger] oldc[k] == (
            oldex[k].0@,
            oldex[k].1@,
        ) by {
            lemma_children_view_index(oldex, k);
        }
    }
    if found {
        let mut entry = node.children.remove(j);
        set_version_at(&mut entry.1, path, i + 1, version, public);
        node.children.insert(j, entry);
        proof {
            lemma_set_children_shape(oldc, pview, i as int, version@, public);
            lemma_children_view_len(node.children@);
            assert(node.children@ =~= oldex.update(
                j as int,
                (oldex[j as int].0, entry.1),
            ));
            assert forall|k: int| 0 <= k < node.children@.len() implies children_view(
                node.children@,
            )[k] == spec_set_children(oldc, pview, i as int, version@, public)[k] by {
                lemma_children_view_index(node.children@, k);
            }
            assert(children_view(node.children@) =~= spec_set_children(
                oldc,
                pview,
                i as int,
                version@,
                public,
            ));
        }
    } else {
        let mut fresh = VersionedItem::new(path[i].clone());
        set_version_at(&mut fresh, path, i + 1, version, public);
        node.children.push((path[i].clone(), fresh));
        proof {
            lemma_set_children_shape(oldc, pview, i as int, version@, public);
            lemma_children_view_len(node.children@);
            assert(node.children@ =~= oldex.push(node.children@.last()));
            assert forall|k: int| 0 <= k < node.children@.len() implies children_view(
                node.children@,
            )[k] == spec_set_children(oldc, pview, i as int, version@, public)[k] by {
                lemma_children_view_index(node.children@, k);
            }
            assert(children_view(node.children@) =~= spec_set_children(
                oldc,
                pview,
                i as int,
                version@,
                public,
            ));
        }
    }
}

impl VersionConstructor {
    /// An empty builder: a nameless root with no children, no aliases, an
    /// empty scope stack.
    pub fn new() -> (r: VersionConstructor)
        ensures
            r@.root == spec_new_item(""@),
            r@.aliases =~= Seq::<AliasView>::empty(),
            r@.path_stack =~= Seq::<Seq<char>>::empty(),
    {
        let r = VersionConstructor {
            root: VersionedItem::new("".to_owned()),
            aliases: Vec::new(),
            path_stack: Vec::new(),
        };
        r
    }

    /// Enters a scope.
    pub fn push_path(&mut self, path: String)
        ensures
            final(self)@.path_stack =~= old(self)@.path_stack.push(path@),
            final(self)@.root == old(self)@.root,
            final(self)@.aliases =~= old(self)@.aliases,
    {
        self.path_stack.push(path);
    }

    /// Leaves the innermost scope; does nothing at the top.
    pub fn pop_path(&mut self)
        ensures
            final(self)@.path_stack =~= if old(self)@.path_stack.len() > 0 {
                old(self)@.path_stack.drop_last()
            } else {
                old(self)@.path_stack
            },
            final(self)@.root == old(self)@.root,
            final(self)@.aliases =~= old(self)@.aliases,
    {
        if self.path_stack.len() > 0 {
            let _ = self.path_stack.pop();
            proof {
                assert(self@.path_stack =~= old(self)@.path_stack.drop_last());
            }
        }
    }

    /// Leaves `n` scopes.
    pub fn pop_path_n(&mut self, n: usize)
        requires
            n <= old(self)@.path_stack.len(),
        ensures
            final(self)@.path_stack =~= old(self)@.path_stack.take(
                old(self)@.path_stack.len() - n as int,
            ),
            final(self)@.root == old(self)@.root,
            final(self)@.aliases =~= old(self)@.aliases,
    {
        let mut k: usize = 0;
        while k < n
            invariant
                0 <= k <= n,
                n <= old(self)@.path_stack.len(),
                self@.path_stack =~= old(self)@.path_stack.take(
                    old(self)@.path_stack.len() - k as int,
                ),
                self@.root == old(self)@.root,
                self@.aliases =~= old(self)@.aliases,
            decreases n - k,
        {
            self.pop_path();
            k = k + 1;
            proof {
                assert(self@.path_stack =~= old(self)@.path_stack.take(
                    old(self)@.path_stack.len() - k as int,
                ));
            }
        }
    }

    /// Records `version` and `public` for the symbol the scope stack names,
    /// creating missing tree nodes along the way.
    pub fn push_version(&mut self, version: &String, public: bool)
        ensures
            final(self)@.root == spec_set_at(
                old(self)@.root,
                old(self)@.path_stack,
                0,
                version@,
                public,
            ),
            final(self)@.path_stack =~= old(self)@.path_stack,
            final(self)@.aliases =~= old(self)@.aliases,
    {
        set_version_at(&mut self.root, &self.path_stack, 0, version, public);
    }

    /// Appends one alias directive; declaration order is resolution order.
    pub fn push_alias(&mut self, root: Vec<String>, relative_path: Vec<String>, local: LocalAlias)
        ensures
            final(self)@.aliases =~= old(self)@.aliases.push(
                AliasView {
                    root: segs_view(root@),
                    relative_path: segs_view(relative_path@),
                    local: match local {
                        LocalAlias::Named(ref n) => LocalAliasView::Named(n@),
                        LocalAlias::GlobChildren => LocalAliasView::GlobChildren,
                    },
                },
            ),
            final(self)@.root == old(self)@.root,
            final(self)@.path_stack =~= old(self)@.path_stack,
    {
        let alias = Alias { root, relative_path, local };
        self.aliases.push(alias);
    }
}

} // verus!

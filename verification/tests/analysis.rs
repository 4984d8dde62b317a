use modernity::ast::{Block, Expr, Item, Signature, SourceFile, Stmt, UseTree};
use modernity::index::{LocalAlias, VersionConstructor, VersionedItem};
use modernity::snapshot::from_snapshot;
use modernity::stats::{edition_id, rust_version_to_number, Edition};
use modernity::walker::VersionAnalyzer;

fn s(x: &str) -> String {
    x.to_string()
}

fn fn_item(name: &str, since: Option<&str>, block: Block) -> Item {
    Item::Fn {
        since: since.map(s),
        public: true,
        sig: Signature { name: s(name), unsafety: false, inputs: Vec::new(), output: None },
        block,
    }
}

fn empty_block() -> Block {
    Block { stmts: Vec::new() }
}

/// An index holding `path::Example::old_name` at 1.2.0 and a module `m`
/// importing `Example` under the name `Renamed`.
fn rename_index() -> VersionConstructor {
    let mut vc = VersionConstructor::new();
    vc.process_file(
        s("path"),
        &SourceFile {
            items: vec![Item::Mod {
                name: s("Example"),
                since: Some(s("1.0.0")),
                public: true,
                content: Some(vec![fn_item("old_name", Some("1.2.0"), empty_block())]),
            }],
        },
    );
    vc.process_file(
        s("m"),
        &SourceFile {
            items: vec![Item::Use {
                since: Some(s("1.0.0")),
                tree: UseTree::Path {
                    ident: s("path"),
                    tree: Box::new(UseTree::Rename { ident: s("Example"), rename: s("Renamed") }),
                },
            }],
        },
    );
    vc
}

#[test]
fn rename_transparency() {
    let vc = rename_index();
    let got = vc.get_version(&vec![s("m"), s("Renamed"), s("old_name")]);
    assert_eq!(got, Some(&s("1.2.0")));
}

#[test]
fn glob_reexport_discoverability() {
    let mut vc = VersionConstructor::new();
    vc.process_file(
        s("b"),
        &SourceFile {
            items: vec![Item::Struct {
                name: s("Widget"),
                since: Some(s("1.10.0")),
                public: true,
                fields: Vec::new(),
            }],
        },
    );
    vc.process_file(
        s("a"),
        &SourceFile {
            items: vec![
                Item::Use {
                    since: None,
                    tree: UseTree::Path { ident: s("b"), tree: Box::new(UseTree::Glob) },
                },
                Item::Struct {
                    name: s("Anchor"),
                    since: Some(s("1.0.0")),
                    public: true,
                    fields: Vec::new(),
                },
            ],
        },
    );
    let got = vc.get_version(&vec![s("a"), s("Widget")]);
    assert_eq!(got, Some(&s("1.10.0")));
}

#[test]
fn unknown_root_resolves_to_none() {
    let vc = rename_index();
    let got = vc.get_version(&vec![s("no_such_crate"), s("thing")]);
    assert_eq!(got, None);
}

#[test]
fn resolution_is_deterministic() {
    let vc = rename_index();
    let path = vec![s("m"), s("Renamed"), s("old_name")];
    let first = vc.get_version(&path).cloned();
    let second = vc.get_version(&path).cloned();
    assert_eq!(first, second);
    assert_eq!(first, Some(s("1.2.0")));
}

#[test]
fn super_segment_fails() {
    let vc = rename_index();
    assert_eq!(vc.get_version(&vec![s("super"), s("x")]), None);
}

#[test]
fn self_segments_are_skipped() {
    let vc = rename_index();
    let got = vc.get_version(&vec![s("self"), s("path"), s("Example"), s("old_name")]);
    assert_eq!(got, Some(&s("1.2.0")));
}

#[test]
fn alias_cycle_fails_instead_of_hanging() {
    let mut vc = VersionConstructor::new();
    vc.push_path(s("c"));
    vc.push_version(&s("1.0.0"), true);
    vc.pop_path();
    // A directive that forwards the missed name back to itself forever.
    vc.push_alias(vec![s("c")], vec![s("c"), s("x")], LocalAlias::Named(s("x")));
    assert_eq!(vc.get_version(&vec![s("c"), s("x")]), None);
}

#[test]
fn unsafe_nesting_accounting() {
    let vc = VersionConstructor::new();
    let mut analyzer = VersionAnalyzer::new(&vc);
    let body = Block {
        stmts: vec![
            Stmt::Expr(Expr::Lit),
            Stmt::Expr(Expr::Unsafe(Block { stmts: vec![Stmt::Expr(Expr::Lit)] })),
            Stmt::Expr(Expr::Lit),
            Stmt::Expr(Expr::Unsafe(Block { stmts: vec![Stmt::Expr(Expr::Lit)] })),
            Stmt::Expr(Expr::Lit),
        ],
    };
    let file = SourceFile { items: vec![fn_item("f", None, body)] };
    analyzer.process_file(&file);
    assert_eq!(analyzer.total_exprs, 5);
    assert_eq!(analyzer.unsafe_exprs, 2);
    assert_eq!(analyzer.unsafe_depth(), 0);
}

#[test]
fn unsafe_function_body_counts_as_unsafe() {
    let vc = VersionConstructor::new();
    let mut analyzer = VersionAnalyzer::new(&vc);
    let file = SourceFile {
        items: vec![Item::Fn {
            since: None,
            public: true,
            sig: Signature { name: s("f"), unsafety: true, inputs: Vec::new(), output: None },
            block: Block { stmts: vec![Stmt::Expr(Expr::Lit), Stmt::Expr(Expr::Lit)] },
        }],
    };
    analyzer.process_file(&file);
    assert_eq!(analyzer.total_exprs, 2);
    assert_eq!(analyzer.unsafe_exprs, 2);
    assert_eq!(analyzer.unsafe_depth(), 0);
}

#[test]
fn walker_counts_resolved_versions() {
    let vc = rename_index();
    let mut analyzer = VersionAnalyzer::new(&vc);
    // Two references to the renamed symbol, one unresolvable reference.
    let body = Block {
        stmts: vec![
            Stmt::Expr(Expr::PathExpr(vec![s("m"), s("Renamed"), s("old_name")])),
            Stmt::Expr(Expr::PathExpr(vec![s("m"), s("Renamed"), s("old_name")])),
            Stmt::Expr(Expr::PathExpr(vec![s("unknown"), s("thing")])),
        ],
    };
    let file = SourceFile { items: vec![fn_item("g", None, body)] };
    analyzer.process_file(&file);
    assert_eq!(analyzer.total_exprs, 3);
    assert_eq!(analyzer.unsafe_exprs, 0);
    assert_eq!(analyzer.version_counts, vec![(s("1.2.0"), 2)]);
}

#[test]
fn failed_resolution_is_silent() {
    let vc = VersionConstructor::new();
    let mut analyzer = VersionAnalyzer::new(&vc);
    analyzer.process_relative_path(&vec![s("nowhere")]);
    assert!(analyzer.version_counts.is_empty());
    assert_eq!(analyzer.total_exprs, 0);
}

#[test]
fn snapshot_round_trip_preserves_resolution() {
    let vc = rename_index();
    let tokens = vc.snapshot();
    let restored = from_snapshot(&tokens).expect("a written snapshot reads back");
    let path = vec![s("m"), s("Renamed"), s("old_name")];
    assert_eq!(restored.get_version(&path), vc.get_version(&path));
    assert_eq!(restored.get_version(&path), Some(&s("1.2.0")));
    let missing = vec![s("no_such_crate")];
    assert_eq!(restored.get_version(&missing), None);
    assert_eq!(vc.get_version(&missing), None);
}

#[test]
fn malformed_snapshot_is_rejected() {
    let tokens = vec![modernity::snapshot::SnapToken::Close];
    assert!(from_snapshot(&tokens).is_none());
}

#[test]
fn fresh_item_defaults() {
    let item = VersionedItem::new(s("core"));
    assert_eq!(item.name, s("core"));
    assert_eq!(item.version, s("1.0.0"));
    assert!(item.public);
    assert!(item.children.is_empty());
}

#[test]
fn push_version_writes_at_scope() {
    let mut vc = VersionConstructor::new();
    vc.push_path(s("std"));
    vc.push_path(s("mem"));
    vc.push_version(&s("1.21.0"), true);
    vc.pop_path();
    vc.pop_path();
    assert_eq!(vc.get_version(&vec![s("std"), s("mem")]), Some(&s("1.21.0")));
    // The intermediate node takes the default version.
    assert_eq!(vc.get_version(&vec![s("std")]), Some(&s("1.0.0")));
}

#[test]
fn prelude_glob_alias_applies_at_root() {
    let mut vc = VersionConstructor::new();
    vc.process_file(
        s("std"),
        &SourceFile {
            items: vec![Item::Mod {
                name: s("prelude"),
                since: Some(s("1.0.0")),
                public: true,
                content: Some(vec![Item::Mod {
                    name: s("v1"),
                    since: Some(s("1.0.0")),
                    public: true,
                    content: Some(vec![Item::Struct {
                        name: s("String"),
                        since: Some(s("1.0.0")),
                        public: true,
                        fields: Vec::new(),
                    }]),
                }]),
            }],
        },
    );
    vc.push_alias(
        Vec::new(),
        vec![s("std"), s("prelude"), s("v1")],
        LocalAlias::GlobChildren,
    );
    assert_eq!(vc.get_version(&vec![s("String")]), Some(&s("1.0.0")));
}

#[test]
fn crate_shorthand_rewrites_to_crate_root() {
    let mut vc = VersionConstructor::new();
    vc.process_file(
        s("std"),
        &SourceFile { items: vec![fn_item("swap", Some("1.8.0"), empty_block())] },
    );
    let root_path = vec![s("std")];
    let path = vec![s("crate"), s("swap")];
    let got = vc.resolve_path_from(vc_root(&vc), &root_path, &path).map(|n| n.version.clone());
    assert_eq!(got, Some(s("1.8.0")));
}

fn vc_root(vc: &VersionConstructor) -> &VersionedItem {
    &vc.root
}

#[test]
fn alloc_crate_shorthand_rewrites_to_alloc() {
    let mut vc = VersionConstructor::new();
    vc.process_file(
        s("alloc"),
        &SourceFile { items: vec![fn_item("vec_new", Some("1.3.0"), empty_block())] },
    );
    let root_path = vec![s("std")];
    let path = vec![s("alloc_crate"), s("vec_new")];
    let got = vc.resolve_path_from(vc_root(&vc), &root_path, &path).map(|n| n.version.clone());
    assert_eq!(got, Some(s("1.3.0")));
}

#[test]
fn minor_version_parses_exactly() {
    assert_eq!(rust_version_to_number("1.42.0"), Some(42));
    assert_eq!(rust_version_to_number("1.0.0"), Some(0));
    assert_eq!(rust_version_to_number("1.56"), Some(56));
}

#[test]
fn minor_version_rejects_malformed() {
    assert_eq!(rust_version_to_number("1"), None);
    assert_eq!(rust_version_to_number("1."), None);
    assert_eq!(rust_version_to_number("1.x.0"), None);
    assert_eq!(rust_version_to_number(""), None);
    assert_eq!(rust_version_to_number("1.99999999999999999999999.0"), None);
}

#[test]
fn sample_indices_spread_evenly() {
    assert_eq!(modernity::stats::sample_indices(10, 3), vec![0, 4, 9]);
    assert_eq!(modernity::stats::sample_indices(5, 2), vec![0, 4]);
    assert_eq!(modernity::stats::sample_indices(4, 4), vec![0, 1, 2, 3]);
}

#[test]
fn edition_identifiers() {
    assert_eq!(edition_id(&Edition::E2015), 0);
    assert_eq!(edition_id(&Edition::E2018), 1);
    assert_eq!(edition_id(&Edition::E2021), 2);
}

#[test]
fn use_imports_are_submitted_for_counting() {
    let vc = rename_index();
    let mut analyzer = VersionAnalyzer::new(&vc);
    let file = SourceFile {
        items: vec![Item::Use {
            since: None,
            tree: UseTree::Path {
                ident: s("path"),
                tree: Box::new(UseTree::Path {
                    ident: s("Example"),
                    tree: Box::new(UseTree::Name { ident: s("old_name") }),
                }),
            },
        }],
    };
    analyzer.process_file(&file);
    assert_eq!(analyzer.total_exprs, 0);
    assert_eq!(analyzer.version_counts, vec![(s("1.2.0"), 1)]);
}

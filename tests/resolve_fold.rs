use aleph_compiler::ast::{ExportSpecifier, Expr, ImportSpecifier, ModuleItem, Pat, Stmt};
use aleph_compiler::fold::{aleph_resolve_fold, is_call_expr_by_name, AlephResolveFold};
use aleph_compiler::import_map::ImportMap;
use aleph_compiler::resolver::{DependencyDescriptor, Resolver};
use aleph_compiler::{transform, Options};
use sha1::{Digest, Sha1};

fn s(v: &str) -> String {
    v.to_string()
}

fn ident(v: &str) -> Expr {
    Expr::Ident(s(v))
}

fn lit(v: &str) -> Expr {
    Expr::Str(s(v))
}

fn call(callee: Expr, args: Vec<Expr>) -> Expr {
    Expr::Call(Box::new(callee), args)
}

fn pack(url: &str) -> Expr {
    Expr::Index(
        Box::new(Expr::Member(Box::new(ident("__ALEPH")), s("pack"))),
        Box::new(lit(url)),
    )
}

fn import(specifiers: Vec<ImportSpecifier>, src: &str) -> ModuleItem {
    ModuleItem::Import { specifiers, src: s(src), type_only: false }
}

fn default_spec(local: &str) -> ImportSpecifier {
    ImportSpecifier::Default(s(local))
}

fn named_spec(local: &str) -> ImportSpecifier {
    ImportSpecifier::Named { local: s(local), imported: None }
}

fn folder(specifier: &str, bundle_mode: bool, external: Vec<&str>) -> AlephResolveFold {
    let resolver = Resolver::new(
        specifier,
        "",
        ImportMap::new(),
        Vec::new(),
        bundle_mode,
        external.into_iter().map(s).collect(),
        false,
    );
    aleph_resolve_fold(resolver)
}

fn expected_id(specifier: &str, ordinal: &str, callback: &str) -> String {
    let mut hasher = Sha1::new();
    hasher.update(specifier);
    hasher.update(ordinal);
    hasher.update(callback);
    let id = base64::encode(hasher.finalize()).replace("/", "").replace("+", "");
    format!("useDeno-{}", id.trim_end_matches('='))
}

const CALLBACK_2: &str = "async function() {\n          return await readJson(\"./data.json\")\n        }";

fn hook_module() -> Vec<ModuleItem> {
    let version = Expr::Member(Box::new(ident("Deno")), s("version"));
    let first = call(
        ident("useDeno"),
        vec![Expr::Func { arrow: true, text: s("() => Deno.version"), body: vec![Stmt::Return(version)] }],
    );
    let read = Expr::Op(s("await"), vec![call(ident("readJson"), vec![lit("./data.json")])]);
    let second = call(
        ident("useDeno"),
        vec![
            Expr::Func { arrow: false, text: s(CALLBACK_2), body: vec![Stmt::Return(read)] },
            Expr::Num(s("1000")),
        ],
    );
    let body = vec![
        Stmt::Const(Pat::Ident(s("verison")), first),
        Stmt::Const(Pat::Ident(s("verison")), second),
    ];
    vec![ModuleItem::Stmt(Stmt::Expr(Expr::Func {
        arrow: false,
        text: s("function Index() { ... }"),
        body,
    }))]
}

fn hook_calls(items: &[ModuleItem]) -> (&Vec<Expr>, &Vec<Expr>) {
    let body = match &items[0] {
        ModuleItem::Stmt(Stmt::Expr(Expr::Func { body, .. })) => body,
        other => panic!("unexpected item {:?}", other),
    };
    let a = match &body[0] {
        Stmt::Const(_, Expr::Call(_, args)) => args,
        other => panic!("unexpected statement {:?}", other),
    };
    let b = match &body[1] {
        Stmt::Const(_, Expr::Call(_, args)) => args,
        other => panic!("unexpected statement {:?}", other),
    };
    (a, b)
}

#[test]
fn sign_use_deno_hook() {
    let specifier = "/pages/index.tsx";
    let id_1 = expected_id(specifier, "1", "() => Deno.version");
    let id_2 = expected_id(specifier, "2", CALLBACK_2);
    for _ in 0..3 {
        let mut f = folder(specifier, false, vec![]);
        let out = f.fold_module_items(hook_module());
        let (a, b) = hook_calls(&out);
        assert_eq!(a.len(), 3);
        assert_eq!(a[1], Expr::Num(s("0")));
        assert_eq!(a[2], lit(&id_1));
        assert_eq!(b[1], Expr::Num(s("1000")));
        assert_eq!(b[2], lit(&id_2));
        let mut f = folder(specifier, true, vec![]);
        let out = f.fold_module_items(hook_module());
        let (a, b) = hook_calls(&out);
        assert_eq!(a[0], Expr::Null);
        assert_eq!(a[1], Expr::Num(s("0")));
        assert_eq!(a[2], lit(&id_1));
        assert_eq!(b[0], Expr::Null);
        assert_eq!(b[1], Expr::Num(s("1000")));
        assert_eq!(b[2], lit(&id_2));
    }
}

#[test]
fn resolve_import_meta_url() {
    let meta_url = Expr::Member(Box::new(Expr::MetaProp(s("import"), s("meta"))), s("url"));
    let log = Expr::Member(Box::new(ident("console")), s("log"));
    let module = vec![ModuleItem::Stmt(Stmt::Expr(call(log, vec![meta_url])))];
    let mut f = folder("/pages/index.tsx", true, vec![]);
    let out = f.fold_module_items(module);
    let log = Expr::Member(Box::new(ident("console")), s("log"));
    assert_eq!(out, vec![ModuleItem::Stmt(Stmt::Expr(call(log, vec![lit("/pages/index.tsx")])))]);
}

#[test]
fn import_meta_url_folds_without_bundling() {
    let meta_url = Expr::Member(Box::new(Expr::MetaProp(s("import"), s("meta"))), s("url"));
    let mut f = folder("/pages/index.tsx", false, vec![]);
    assert_eq!(f.fold_expr(meta_url), lit("/pages/index.tsx"));
    assert!(f.resolver.deps.is_empty());
}

#[test]
fn bundle_mode() {
    let module = vec![
        import(
            vec![
                default_spec("React"),
                named_spec("useState"),
                ImportSpecifier::Named { local: s("useEffect_"), imported: Some(s("useEffect")) },
            ],
            "https://esm.sh/react",
        ),
        import(vec![ImportSpecifier::Namespace(s("React_"))], "https://esm.sh/react"),
        import(vec![default_spec("Logo")], "../components/logo.tsx"),
        import(vec![default_spec("Nav")], "../components/nav.tsx"),
        import(vec![], "../shared/iife.ts"),
        import(vec![], "../shared/iife2.ts"),
        ModuleItem::ExportAll(s("https://esm.sh/react")),
        ModuleItem::ExportNamed {
            specifiers: vec![ExportSpecifier::Named { orig: s("render"), exported: None }],
            src: s("https://esm.sh/react-dom"),
            type_only: false,
        },
        ModuleItem::ExportNamed {
            specifiers: vec![ExportSpecifier::Namespace(s("ReactDom"))],
            src: s("https://esm.sh/react-dom"),
            type_only: false,
        },
        ModuleItem::Stmt(Stmt::Const(
            Pat::Ident(s("AsyncLogo")),
            call(
                Expr::Member(Box::new(ident("React")), s("lazy")),
                vec![Expr::Func {
                    arrow: true,
                    text: s("() => import('../components/async-logo.tsx')"),
                    body: vec![Stmt::Return(call(
                        ident("import"),
                        vec![lit("../components/async-logo.tsx")],
                    ))],
                }],
            ),
        )),
    ];
    let mut f = folder(
        "/pages/index.tsx",
        true,
        vec!["https://esm.sh/react", "https://esm.sh/react-dom", "/components/logo.tsx", "/shared/iife.ts"],
    );
    let out = f.fold_module_items(module);
    assert_eq!(out.len(), 10);
    assert_eq!(
        out[0],
        ModuleItem::Stmt(Stmt::Const(
            Pat::Object(vec![
                (s("React"), Some(s("default"))),
                (s("useState"), None),
                (s("useEffect_"), Some(s("useEffect"))),
            ]),
            pack("https://esm.sh/react"),
        ))
    );
    assert_eq!(
        out[1],
        ModuleItem::Stmt(Stmt::Const(Pat::Ident(s("React_")), pack("https://esm.sh/react")))
    );
    assert_eq!(
        out[2],
        ModuleItem::Stmt(Stmt::Const(
            Pat::Object(vec![(s("Logo"), Some(s("default")))]),
            pack("/components/logo.tsx"),
        ))
    );
    assert_eq!(out[3], import(vec![default_spec("Nav")], "/components/nav.js"));
    assert_eq!(out[4], ModuleItem::Stmt(Stmt::Empty));
    assert_eq!(out[5], import(vec![], "/shared/iife2.js"));
    assert_eq!(
        out[6],
        ModuleItem::ExportConst(Pat::Ident(s("$$star_0")), pack("https://esm.sh/react"))
    );
    assert_eq!(
        out[7],
        ModuleItem::ExportConst(
            Pat::Object(vec![(s("render"), None)]),
            pack("https://esm.sh/react-dom"),
        )
    );
    assert_eq!(
        out[8],
        ModuleItem::ExportConst(Pat::Ident(s("ReactDom")), pack("https://esm.sh/react-dom"))
    );
    let loader = call(
        Expr::MetaProp(s("__ALEPH"), s("import")),
        vec![lit("/components/async-logo.js"), lit("/pages/index.tsx")],
    );
    assert_eq!(
        out[9],
        ModuleItem::Stmt(Stmt::Const(
            Pat::Ident(s("AsyncLogo")),
            call(
                Expr::Member(Box::new(ident("React")), s("lazy")),
                vec![Expr::Func {
                    arrow: true,
                    text: s("() => import('../components/async-logo.tsx')"),
                    body: vec![Stmt::Return(loader)],
                }],
            ),
        ))
    );
    assert_eq!(f.resolver.star_exports, vec![s("https://esm.sh/react")]);
    assert_eq!(f.resolver.deps.len(), 10);
    assert_eq!(
        f.resolver.deps[9],
        DependencyDescriptor { specifier: s("/components/async-logo.tsx"), is_dynamic: true }
    );
}

#[test]
fn import_proxies_remote_module() {
    let module = vec![import(vec![default_spec("React"), named_spec("useState")], "https://cdn.example/react")];
    let mut f = folder("/pages/index.tsx", false, vec![]);
    let out = f.fold_module_items(module);
    assert_eq!(
        out,
        vec![import(vec![default_spec("React"), named_spec("useState")], "/-/cdn.example/react.js")]
    );
    assert_eq!(
        f.resolver.deps,
        vec![DependencyDescriptor { specifier: s("https://cdn.example/react"), is_dynamic: false }]
    );
}

#[test]
fn bundled_import_reads_registry() {
    let module = vec![import(vec![default_spec("React"), named_spec("useState")], "https://cdn.example/react")];
    let mut f = folder("/pages/index.tsx", true, vec!["https://cdn.example/react"]);
    let out = f.fold_module_items(module);
    assert_eq!(
        out,
        vec![ModuleItem::Stmt(Stmt::Const(
            Pat::Object(vec![(s("React"), Some(s("default"))), (s("useState"), None)]),
            pack("https://cdn.example/react"),
        ))]
    );
    assert_eq!(
        f.resolver.deps,
        vec![DependencyDescriptor { specifier: s("https://cdn.example/react"), is_dynamic: false }]
    );
}

#[test]
fn bundled_dynamic_import_uses_loader() {
    let mut f = folder("/pages/index.tsx", true, vec![]);
    let out = f.fold_expr(call(ident("import"), vec![lit("../components/logo.tsx")]));
    assert_eq!(
        out,
        call(
            Expr::MetaProp(s("__ALEPH"), s("import")),
            vec![lit("/components/logo.js"), lit("/pages/index.tsx")],
        )
    );
    assert_eq!(
        f.resolver.deps,
        vec![DependencyDescriptor { specifier: s("/components/logo.tsx"), is_dynamic: true }]
    );
}

#[test]
fn dynamic_import_carries_marker() {
    let mut f = folder("/pages/index.tsx", false, vec![]);
    let out = f.fold_expr(call(ident("import"), vec![lit("../components/logo.tsx")]));
    assert_eq!(
        out,
        call(ident("import"), vec![lit("/components/logo.js#../components/logo.tsx@/components/logo.tsx")])
    );
}

#[test]
fn dynamic_import_of_non_literal_is_left_alone() {
    let mut f = folder("/pages/index.tsx", true, vec![]);
    let out = f.fold_expr(call(ident("import"), vec![ident("path")]));
    assert_eq!(out, call(ident("import"), vec![ident("path")]));
    assert!(f.resolver.deps.is_empty());
}

#[test]
fn two_hooks_get_distinct_ids() {
    let mut f = folder("/pages/index.tsx", false, vec![]);
    let out = f.fold_module_items(hook_module());
    let (a, b) = hook_calls(&out);
    assert_ne!(a[2], b[2]);
    let id_1 = expected_id("/pages/index.tsx", "1", "() => Deno.version");
    let id_2 = expected_id("/pages/index.tsx", "2", CALLBACK_2);
    assert!(id_1.starts_with("useDeno-") && id_2.starts_with("useDeno-"));
    assert_eq!(
        f.resolver.deps,
        vec![
            DependencyDescriptor { specifier: format!("#{}", id_1), is_dynamic: false },
            DependencyDescriptor { specifier: format!("#{}", id_2), is_dynamic: false },
        ]
    );
    assert_eq!(f.deno_hooks_idx, 2);
}

#[test]
fn hook_with_only_callback_gets_three_arguments() {
    let mut f = folder("/pages/index.tsx", false, vec![]);
    let cb = Expr::Func { arrow: true, text: s("() => 1"), body: vec![] };
    let out = f.fold_expr(call(ident("useDeno"), vec![cb]));
    let id = expected_id("/pages/index.tsx", "1", "() => 1");
    let cb = Expr::Func { arrow: true, text: s("() => 1"), body: vec![] };
    assert_eq!(out, call(ident("useDeno"), vec![cb, Expr::Num(s("0")), lit(&id)]));
}

#[test]
fn hook_without_callback_is_left_alone() {
    let mut f = folder("/pages/index.tsx", false, vec![]);
    let out = f.fold_expr(call(ident("useDeno"), vec![ident("fetcher")]));
    assert_eq!(out, call(ident("useDeno"), vec![ident("fetcher")]));
    assert_eq!(f.deno_hooks_idx, 0);
    assert!(f.resolver.deps.is_empty());
}

#[test]
fn star_exports_numbered_in_order() {
    let module = vec![
        ModuleItem::ExportAll(s("https://cdn.example/react")),
        ModuleItem::ExportAll(s("https://cdn.example/other")),
        ModuleItem::ExportNamed {
            specifiers: vec![ExportSpecifier::Named { orig: s("a"), exported: Some(s("b")) }],
            src: s("./local.ts"),
            type_only: false,
        },
        ModuleItem::ExportAll(s("https://cdn.example/react-dom")),
    ];
    let mut f = folder(
        "/pages/index.tsx",
        true,
        vec!["https://cdn.example/react", "https://cdn.example/react-dom"],
    );
    let out = f.fold_module_items(module);
    assert_eq!(out.len(), 4);
    assert_eq!(
        out[0],
        ModuleItem::ExportConst(Pat::Ident(s("$$star_0")), pack("https://cdn.example/react"))
    );
    assert_eq!(out[1], ModuleItem::ExportAll(s("/-/cdn.example/other.js")));
    assert_eq!(
        out[3],
        ModuleItem::ExportConst(Pat::Ident(s("$$star_1")), pack("https://cdn.example/react-dom"))
    );
    assert_eq!(f.resolver.star_exports.len(), 2);
}

#[test]
fn renamed_reexport_keeps_pairs() {
    let module = vec![ModuleItem::ExportNamed {
        specifiers: vec![
            ExportSpecifier::Named { orig: s("a"), exported: Some(s("b")) },
            ExportSpecifier::Default(s("c")),
        ],
        src: s("https://cdn.example/lib"),
        type_only: false,
    }];
    let mut f = folder("/pages/index.tsx", true, vec!["https://cdn.example/lib"]);
    let out = f.fold_module_items(module);
    assert_eq!(
        out,
        vec![ModuleItem::ExportConst(
            Pat::Object(vec![(s("b"), Some(s("a"))), (s("c"), Some(s("default")))]),
            pack("https://cdn.example/lib"),
        )]
    );
}

#[test]
fn type_only_items_pass_through() {
    let module = vec![
        ModuleItem::Import { specifiers: vec![named_spec("Props")], src: s("./types.ts"), type_only: true },
        ModuleItem::ExportNamed {
            specifiers: vec![ExportSpecifier::Named { orig: s("T"), exported: None }],
            src: s("./types.ts"),
            type_only: true,
        },
    ];
    let mut f = folder("/pages/index.tsx", true, vec!["/pages/types.ts"]);
    let out = f.fold_module_items(module);
    assert_eq!(
        out[0],
        ModuleItem::Import { specifiers: vec![named_spec("Props")], src: s("./types.ts"), type_only: true }
    );
    assert!(f.resolver.deps.is_empty());
}

#[test]
fn rewrite_keeps_item_count_and_order() {
    let module = vec![
        import(vec![], "./a.ts"),
        ModuleItem::Stmt(Stmt::Empty),
        import(vec![default_spec("B")], "./b.ts"),
    ];
    let mut f = folder("/pages/index.tsx", true, vec!["/pages/a.ts"]);
    let out = f.fold_module_items(module);
    assert_eq!(
        out,
        vec![
            ModuleItem::Stmt(Stmt::Empty),
            ModuleItem::Stmt(Stmt::Empty),
            import(vec![default_spec("B")], "/pages/b.js"),
        ]
    );
    assert_eq!(f.resolver.deps.len(), 2);
    assert_eq!(f.resolver.deps[0].specifier, "/pages/a.ts");
    assert_eq!(f.resolver.deps[1].specifier, "/pages/b.ts");
}

#[test]
fn call_name_check() {
    assert!(is_call_expr_by_name(&call(ident("useDeno"), vec![]), "useDeno"));
    assert!(!is_call_expr_by_name(&call(ident("useDeno"), vec![]), "import"));
    assert!(!is_call_expr_by_name(&ident("useDeno"), "useDeno"));
}

#[test]
fn transform_runs_one_pass() {
    let mut options = Options::default();
    options.bundle_mode = true;
    options.bundle_external = vec![s("https://cdn.example/react")];
    let module = vec![
        ModuleItem::ExportAll(s("https://cdn.example/react")),
        import(vec![default_spec("X")], "./x.tsx"),
    ];
    let out = transform("/pages/index.tsx", module, options);
    assert_eq!(out.star_exports, 1);
    assert_eq!(out.module[1], import(vec![default_spec("X")], "/pages/x.js"));
    assert_eq!(
        out.deps,
        vec![
            DependencyDescriptor { specifier: s("https://cdn.example/react"), is_dynamic: false },
            DependencyDescriptor { specifier: s("/pages/x.tsx"), is_dynamic: false },
        ]
    );
}

#[test]
fn hook_extra_arguments_are_dropped() {
    let mut f = folder("/pages/index.tsx", false, vec![]);
    let cb = Expr::Func { arrow: true, text: s("() => 2"), body: vec![] };
    let out = f.fold_expr(call(
        ident("useDeno"),
        vec![cb, Expr::Num(s("1000")), lit("old-id"), ident("extra")],
    ));
    let id = expected_id("/pages/index.tsx", "1", "() => 2");
    let cb = Expr::Func { arrow: true, text: s("() => 2"), body: vec![] };
    assert_eq!(out, call(ident("useDeno"), vec![cb, Expr::Num(s("1000")), lit(&id)]));
}

#[test]
fn dependency_list_same_in_both_modes() {
    let module = || {
        vec![
            import(vec![default_spec("React")], "https://cdn.example/react"),
            ModuleItem::ExportAll(s("https://cdn.example/react-dom")),
            import(vec![], "./side.ts"),
        ]
    };
    let mut plain = folder("/pages/index.tsx", false, vec![]);
    let mut bundled = folder(
        "/pages/index.tsx",
        true,
        vec!["https://cdn.example/react", "https://cdn.example/react-dom", "/pages/side.ts"],
    );
    let a = plain.fold_module_items(module());
    let b = bundled.fold_module_items(module());
    assert_ne!(a, b);
    assert_eq!(plain.resolver.deps, bundled.resolver.deps);
    assert_eq!(plain.resolver.deps.len(), 3);
}

#[test]
fn non_literal_dynamic_import_arguments_are_visited() {
    let meta_url = Expr::Member(Box::new(Expr::MetaProp(s("import"), s("meta"))), s("url"));
    let mut f = folder("/pages/index.tsx", true, vec![]);
    let out = f.fold_expr(call(ident("import"), vec![meta_url]));
    assert_eq!(out, call(ident("import"), vec![lit("/pages/index.tsx")]));
    assert!(f.resolver.deps.is_empty());
    let inner = call(ident("import"), vec![lit("./inner.ts")]);
    let out = f.fold_expr(call(ident("import"), vec![Expr::Op(s("await"), vec![inner])]));
    let loader = call(
        Expr::MetaProp(s("__ALEPH"), s("import")),
        vec![lit("/pages/inner.js"), lit("/pages/index.tsx")],
    );
    assert_eq!(out, call(ident("import"), vec![Expr::Op(s("await"), vec![loader])]));
    assert_eq!(
        f.resolver.deps,
        vec![DependencyDescriptor { specifier: s("/pages/inner.ts"), is_dynamic: true }]
    );
}

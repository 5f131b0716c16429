use aleph_compiler::import_map::{ImportMap, ImportMapEntry};
use aleph_compiler::resolver::{DependencyDescriptor, Resolver};
use aleph_compiler::{default_jsx_runtime, default_target};

fn s(v: &str) -> String {
    v.to_string()
}

fn entry(key: &str, targets: Vec<&str>) -> ImportMapEntry {
    ImportMapEntry { key: s(key), targets: targets.into_iter().map(s).collect() }
}

fn resolver_with(specifier: &str, root: &str, map: ImportMap, versions: Vec<(String, String)>, bundle: bool) -> Resolver {
    Resolver::new(specifier, root, map, versions, bundle, Vec::new(), false)
}

fn plain(specifier: &str) -> Resolver {
    resolver_with(specifier, "", ImportMap::new(), Vec::new(), false)
}

#[test]
fn remote_url_gets_proxy_path() {
    let mut r = plain("/pages/index.tsx");
    assert_eq!(
        r.resolve("https://esm.sh/react", false),
        (s("/-/esm.sh/react.js"), s("https://esm.sh/react"))
    );
    assert_eq!(
        r.resolve("http://example.com/lib/mod.ts", false),
        (s("/-/example.com/lib/mod.js"), s("http://example.com/lib/mod.ts"))
    );
}

#[test]
fn local_paths_are_resolved_and_normalized() {
    let mut r = plain("/pages/index.tsx");
    assert_eq!(r.resolve("../components/logo.tsx", false), (s("/components/logo.js"), s("/components/logo.tsx")));
    assert_eq!(r.resolve("./a/./b/../c.jsx", false), (s("/pages/a/c.js"), s("/pages/a/c.jsx")));
    assert_eq!(r.resolve("../../../x.ts", false), (s("/x.js"), s("/x.ts")));
    assert_eq!(r.resolve("/lib/util.mjs", false), (s("/lib/util.mjs"), s("/lib/util.mjs")));
    assert_eq!(r.resolve("../style/index.css", false), (s("/style/index.css.js"), s("/style/index.css")));
    assert_eq!(r.deps.len(), 5);
}

#[test]
fn relative_import_inside_remote_module() {
    let mut r = plain("https://esm.sh/react/index.js");
    assert_eq!(
        r.resolve("./jsx-runtime.js", false),
        (s("/-/esm.sh/react/jsx-runtime.js"), s("https://esm.sh/react/jsx-runtime.js"))
    );
}

#[test]
fn framework_internal_specifier() {
    let mut r = resolver_with("/pages/index.tsx", "/aleph/", ImportMap::new(), Vec::new(), false);
    assert_eq!(
        r.resolve("/aleph/framework/core.ts", false),
        (s("/-/aleph/framework/core.js"), s("/aleph/framework/core.ts"))
    );
}

#[test]
fn import_map_exact_and_prefix() {
    let map = ImportMap {
        imports: vec![
            entry("react", vec!["", "https://esm.sh/react"]),
            entry("https://esm.sh/", vec!["https://cdn.a/"]),
            entry("https://esm.sh/react/", vec!["https://cdn.b/react/"]),
            entry("@/", vec!["/lib/"]),
            entry("broken", vec![""]),
        ],
    };
    let mut r = resolver_with("/pages/index.tsx", "", map, Vec::new(), false);
    assert_eq!(r.resolve("react", false).1, "https://esm.sh/react");
    assert_eq!(r.resolve("https://esm.sh/react/jsx.js", false).1, "https://cdn.b/react/jsx.js");
    assert_eq!(r.resolve("https://esm.sh/vue", false).1, "https://cdn.a/vue");
    assert_eq!(r.resolve("@/utils.ts", false), (s("/lib/utils.js"), s("/lib/utils.ts")));
    assert_eq!(r.resolve("broken", false).1, "/pages/broken");
}

#[test]
fn version_table_appends_tag() {
    let versions = vec![(s("https://esm.sh/react"), s("17.0.2")), (s("/pages/a.tsx"), s("42"))];
    let mut r = resolver_with("/pages/index.tsx", "", ImportMap::new(), versions, false);
    assert_eq!(r.resolve("https://esm.sh/react", false).0, "/-/esm.sh/react.js?v=17.0.2");
    assert_eq!(r.resolve("./a.tsx", false).0, "/pages/a.js?v=42");
    assert_eq!(r.resolve("./b.tsx", false).0, "/pages/b.js");
}

#[test]
fn canonical_key_same_in_both_modes() {
    let mut a = resolver_with("/pages/index.tsx", "", ImportMap::new(), Vec::new(), false);
    let mut b = resolver_with("/pages/index.tsx", "", ImportMap::new(), Vec::new(), true);
    let x = a.resolve("../components/logo.tsx", true);
    let y = b.resolve("../components/logo.tsx", true);
    assert_eq!(x.1, y.1);
    assert_eq!(x.0, "/components/logo.js#../components/logo.tsx@/components/logo.tsx");
    assert_eq!(y.0, "/components/logo.js");
}

#[test]
fn dependencies_accumulate_with_duplicates() {
    let mut r = plain("/pages/index.tsx");
    r.resolve("./a.ts", false);
    r.resolve("./a.ts", true);
    assert_eq!(
        r.deps,
        vec![
            DependencyDescriptor { specifier: s("/pages/a.ts"), is_dynamic: false },
            DependencyDescriptor { specifier: s("/pages/a.ts"), is_dynamic: true },
        ]
    );
}

#[test]
fn option_defaults() {
    assert_eq!(default_target(), "es2015");
    assert_eq!(default_jsx_runtime(), "react");
}

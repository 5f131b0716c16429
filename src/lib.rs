//! Module-graph resolution and rewriting for one parsed source module.
pub mod ast;
pub mod fold;
pub mod import_map;
pub mod laws;
pub mod path;
pub mod resolver;
pub mod sign;
pub mod text;

use crate::ast::{items_view, ModuleItem};
use crate::fold::{aleph_resolve_fold, fold_items, ModuleState};
use crate::import_map::{str_views, ImportMap};
use crate::resolver::{dep_views, pair_views, DependencyDescriptor, ResolveConfig, Resolver};
use vstd::prelude::*;

verus! {

/// The options of one transform.
pub struct Options {
    /// The framework package root.
    pub aleph_pkg_uri: String,
    pub is_dev: bool,
    /// Where two entries have the same key, the first one wins.
    pub import_map: ImportMap,
    /// Canonical URL to version tag; where a key occurs twice, the first entry wins.
    pub graph_versions: Vec<(String, String)>,
    pub target: String,
    pub jsx_runtime: String,
    pub jsx_runtime_version: String,
    pub jsx_runtime_cdn_version: String,
    pub jsx_import_source: String,
    pub parse_jsx_static_classes: bool,
    pub strip_data_export: bool,
    pub bundle_mode: bool,
    /// Canonical keys read from the shared registry in bundle mode.
    pub bundle_external: Vec<String>,
}

/// The default output target.
pub fn default_target() -> (r: String)
    ensures
        r@ == seq!['e', 's', '2', '0', '1', '5'],
{
    let v = vec!['e', 's', '2', '0', '1', '5'];
    crate::text::string_of(&v)
}

/// The default JSX runtime.
pub fn default_jsx_runtime() -> (r: String)
    ensures
        r@ == seq!['r', 'e', 'a', 'c', 't'],
{
    let v = vec!['r', 'e', 'a', 'c', 't'];
    crate::text::string_of(&v)
}

impl Default for Options {
    fn default() -> (r: Options)
        ensures
            r.aleph_pkg_uri@.len() == 0,
            !r.is_dev,
            r.import_map@.len() == 0,
            r.graph_versions@.len() == 0,
            r.target@ == seq!['e', 's', '2', '0', '1', '5'],
            r.jsx_runtime@ == seq!['r', 'e', 'a', 'c', 't'],
            r.jsx_runtime_version@.len() == 0,
            r.jsx_runtime_cdn_version@.len() == 0,
            r.jsx_import_source@.len() == 0,
            !r.parse_jsx_static_classes,
            !r.strip_data_export,
            !r.bundle_mode,
            r.bundle_external@.len() == 0,
    {
        Options {
            aleph_pkg_uri: String::new(),
            is_dev: false,
            import_map: ImportMap::new(),
            graph_versions: Vec::new(),
            target: default_target(),
            jsx_runtime: default_jsx_runtime(),
            jsx_runtime_version: String::new(),
            jsx_runtime_cdn_version: String::new(),
            jsx_import_source: String::new(),
            parse_jsx_static_classes: false,
            strip_data_export: false,
            bundle_mode: false,
            bundle_external: Vec::new(),
        }
    }
}

/// What a transform gives back: the rewritten module and what the pass accumulated.
pub struct TransformOutput {
    pub module: Vec<ModuleItem>,
    /// Outgoing edges, in first-use order.
    pub deps: Vec<DependencyDescriptor>,
    pub jsx_static_class_names: Vec<String>,
    /// The number of bundled `export *` items.
    pub star_exports: usize,
}

/// The context a transform of `specifier` with `options` resolves in.
pub open spec fn options_config(specifier: Seq<char>, options: Options) -> ResolveConfig {
    ResolveConfig {
        specifier,
        root: options.aleph_pkg_uri@,
        import_map: options.import_map@,
        versions: pair_views(options.graph_versions@),
        bundle_mode: options.bundle_mode,
        external: str_views(options.bundle_external@),
    }
}

/// The state a pass starts from.
pub open spec fn start_state() -> ModuleState {
    (0, Seq::empty(), Seq::empty())
}

/// Resolves and rewrites `module`, the parsed module `specifier`, in one pass.
pub fn transform(specifier: &str, module: Vec<ModuleItem>, options: Options) -> (r: TransformOutput)
    ensures
        ({
            let f = fold_items(options_config(specifier@, options), start_state(), items_view(module@));
            &&& items_view(r.module@) == f.0
            &&& dep_views(r.deps@) == f.1.1
            &&& r.star_exports == f.1.2.len()
        }),
{
    let resolver = Resolver::new(
        specifier,
        options.aleph_pkg_uri.as_str(),
        options.import_map,
        options.graph_versions,
        options.bundle_mode,
        options.bundle_external,
        options.is_dev,
    );
    let mut fold = aleph_resolve_fold(resolver);
    assert(dep_views(fold.resolver.deps@) =~= Seq::<(Seq<char>, bool)>::empty());
    assert(fold.mst() =~= start_state());
    let items = fold.fold_module_items(module);
    TransformOutput {
        module: items,
        deps: fold.resolver.deps,
        jsx_static_class_names: fold.resolver.jsx_static_class_names,
        star_exports: fold.resolver.star_exports.len(),
    }
}

} // verus!

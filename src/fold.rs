//! The module rewriter: one depth-first pass that resolves every import and export,
//! folds `import.meta.url`, rewrites dynamic imports and signs hook callbacks.
use crate::ast::{
    export_spec_view, expr_view, exprs_view, import_spec_view, item_view, items_view, names_view, opt_view, pat_view, stmt_view, stmts_view, ExportSpecV,
    ExportSpecifier, Expr, ExprV, ImportSpecV, ImportSpecifier, ItemV, ModuleItem, Pat, PatV, Stmt,
    StmtV,
};
use crate::import_map::str_views;
use crate::resolver::{dep_views, DependencyDescriptor, ResolveConfig, Resolver};
use crate::sign::{hook_ident, sign};
use crate::text::{chars_of, same_chars, string_of};
use vstd::prelude::*;

verus! {

/// The state a pass threads through expressions: hooks signed so far, and the dependency list.
pub type PassState = (nat, Seq<(Seq<char>, bool)>);

pub open spec fn lit_import() -> Seq<char> {
    seq!['i', 'm', 'p', 'o', 'r', 't']
}

pub open spec fn lit_meta() -> Seq<char> {
    seq!['m', 'e', 't', 'a']
}

pub open spec fn lit_url() -> Seq<char> {
    seq!['u', 'r', 'l']
}

pub open spec fn lit_use_deno() -> Seq<char> {
    seq!['u', 's', 'e', 'D', 'e', 'n', 'o']
}

pub open spec fn lit_aleph() -> Seq<char> {
    seq!['_', '_', 'A', 'L', 'E', 'P', 'H']
}

pub open spec fn lit_pack() -> Seq<char> {
    seq!['p', 'a', 'c', 'k']
}

/// Whether `e` is `import.meta.url`.
pub open spec fn is_import_meta_url(e: ExprV) -> bool {
    e == ExprV::Member(Box::new(ExprV::MetaProp(lit_import(), lit_meta())), lit_url())
}

/// `__ALEPH.pack[url]`: the shared registry entry of `url`.
pub open spec fn pack_entry(url: Seq<char>) -> ExprV {
    ExprV::Index(
        Box::new(ExprV::Member(Box::new(ExprV::Ident(lit_aleph())), lit_pack())),
        Box::new(ExprV::Str(url)),
    )
}

/// The largest number of hooks a pass can sign.
pub open spec fn max_hooks() -> nat {
    0xffff_ffff_ffff_ffffnat
}

/// Whether a call with callee `callee` and arguments `args` is a dynamic import of a literal.
pub open spec fn is_literal_import(callee: ExprV, args: Seq<ExprV>) -> bool {
    callee == ExprV::Ident(lit_import()) && args.len() > 0 && args[0] is Str
}

/// Whether a call is a hook call whose first argument is a function literal.
pub open spec fn is_hook_call(callee: ExprV, args: Seq<ExprV>) -> bool {
    callee == ExprV::Ident(lit_use_deno()) && args.len() > 0 && args[0] is Func
}

/// The call that a dynamic import of a literal becomes.
pub open spec fn import_call(c: ResolveConfig, url: Seq<char>) -> ExprV {
    if c.bundle_mode {
        ExprV::Call(
            Box::new(ExprV::MetaProp(lit_aleph(), lit_import())),
            seq![ExprV::Str(c.emitted_of(url, true)), ExprV::Str(c.specifier)],
        )
    } else {
        ExprV::Call(
            Box::new(ExprV::Ident(lit_import())),
            seq![ExprV::Str(c.emitted_of(url, true))],
        )
    }
}

/// Folds one expression in context `c` from state `st`: the new expression and state.
pub open spec fn fold_e(c: ResolveConfig, st: PassState, e: ExprV) -> (ExprV, PassState)
    decreases e,
{
    match e {
        ExprV::Member(o, p) => {
            if is_import_meta_url(e) {
                (ExprV::Str(c.specifier), st)
            } else {
                let r = fold_e(c, st, *o);
                (ExprV::Member(Box::new(r.0), p), r.1)
            }
        },
        ExprV::Index(o, k) => {
            let r1 = fold_e(c, st, *o);
            let r2 = fold_e(c, r1.1, *k);
            (ExprV::Index(Box::new(r1.0), Box::new(r2.0)), r2.1)
        },
        ExprV::Call(callee, args) => {
            if is_literal_import(*callee, args) {
                let url = args[0]->Str_0;
                (import_call(c, url), (st.0, st.1.push((c.canonical_of(url), true))))
            } else if is_hook_call(*callee, args) && st.0 < max_hooks() {
                fold_hook(c, st, *callee, args)
            } else {
                let r1 = fold_e(c, st, *callee);
                let r2 = fold_es(c, r1.1, args);
                (ExprV::Call(Box::new(r1.0), r2.0), r2.1)
            }
        },
        ExprV::Func { arrow, text, body } => {
            let r = fold_ss(c, st, body);
            (ExprV::Func { arrow, text, body: r.0 }, r.1)
        },
        ExprV::Op(t, xs) => {
            let r = fold_es(c, st, xs);
            (ExprV::Op(t, r.0), r.1)
        },
        _ => (e, st),
    }
}

/// Folds a hook call: signs the callback with the next ordinal, records the
/// pseudo-dependency, and normalizes the arguments to exactly (callback, option,
/// identifier): a missing option becomes `0`, and arguments after the option are dropped.
pub open spec fn fold_hook(c: ResolveConfig, st: PassState, callee: ExprV, args: Seq<ExprV>) -> (
    ExprV,
    PassState,
)
    decreases args,
{
    if args.len() == 0 || !(args[0] is Func) {
        (ExprV::Call(Box::new(callee), args), st)
    } else {
        let n = st.0 + 1;
        let id = hook_ident(c.specifier, n, args[0]->text);
        let s0: PassState = (n, st.1.push((seq!['#'] + id, false)));
        let r0 = if c.bundle_mode {
            (ExprV::Null, s0)
        } else {
            fold_e(c, s0, args[0])
        };
        let r1 = if args.len() > 1 {
            fold_e(c, r0.1, args[1])
        } else {
            (ExprV::Num(seq!['0']), r0.1)
        };
        (ExprV::Call(Box::new(callee), seq![r0.0, r1.0, ExprV::Str(id)]), r1.1)
    }
}

/// Folds a sequence of expressions from left to right.
pub open spec fn fold_es(c: ResolveConfig, st: PassState, es: Seq<ExprV>) -> (Seq<ExprV>, PassState)
    decreases es,
{
    if es.len() == 0 {
        (es, st)
    } else {
        let r = fold_es(c, st, es.drop_last());
        let x = fold_e(c, r.1, es.last());
        (r.0.push(x.0), x.1)
    }
}

/// Folds one statement.
pub open spec fn fold_s(c: ResolveConfig, st: PassState, s: StmtV) -> (StmtV, PassState)
    decreases s,
{
    match s {
        StmtV::Expr(e) => {
            let r = fold_e(c, st, e);
            (StmtV::Expr(r.0), r.1)
        },
        StmtV::Const(p, e) => {
            let r = fold_e(c, st, e);
            (StmtV::Const(p, r.0), r.1)
        },
        StmtV::Return(e) => {
            let r = fold_e(c, st, e);
            (StmtV::Return(r.0), r.1)
        },
        StmtV::Empty => (s, st),
    }
}

/// Folds a sequence of statements from left to right.
pub open spec fn fold_ss(c: ResolveConfig, st: PassState, ss: Seq<StmtV>) -> (Seq<StmtV>, PassState)
    decreases ss,
{
    if ss.len() == 0 {
        (ss, st)
    } else {
        let r = fold_ss(c, st, ss.drop_last());
        let x = fold_s(c, r.1, ss.last());
        (r.0.push(x.0), x.1)
    }
}

/// The state a pass threads through top-level items: hooks signed so far, the
/// dependency list, and the bundled `export *` targets.
pub type ModuleState = (nat, Seq<(Seq<char>, bool)>, Seq<Seq<char>>);

pub open spec fn lit_default() -> Seq<char> {
    seq!['d', 'e', 'f', 'a', 'u', 'l', 't']
}

/// The ASCII decimal digits of `n`, as characters.
pub open spec fn digits(n: nat) -> Seq<char>
    decreases n,
{
    if n < 10 {
        seq![(48 + n) as char]
    } else {
        digits(n / 10).push((48 + n % 10) as char)
    }
}

/// The synthetic name of the bundled `export *` with ordinal `n`.
pub open spec fn star_name(n: nat) -> Seq<char> {
    seq!['$', '$', 's', 't', 'a', 'r', '_'] + digits(n)
}

/// The (local name, property read) pairs that an import's bindings destructure.
pub open spec fn import_names(specs: Seq<ImportSpecV>) -> Seq<(Seq<char>, Option<Seq<char>>)>
    decreases specs.len(),
{
    if specs.len() == 0 {
        Seq::empty()
    } else {
        let r = import_names(specs.drop_last());
        match specs.last() {
            ImportSpecV::Named { local, imported } => r.push((local, imported)),
            ImportSpecV::Default(l) => r.push((l, Some(lit_default()))),
            ImportSpecV::Namespace(_) => r,
        }
    }
}

/// The local name of an import's namespace binding, the last one if any.
pub open spec fn import_ns(specs: Seq<ImportSpecV>) -> Option<Seq<char>>
    decreases specs.len(),
{
    if specs.len() == 0 {
        None
    } else {
        match specs.last() {
            ImportSpecV::Namespace(l) => Some(l),
            _ => import_ns(specs.drop_last()),
        }
    }
}

/// The (exported name, property read) pairs that an export-from's bindings destructure.
pub open spec fn export_names(specs: Seq<ExportSpecV>) -> Seq<(Seq<char>, Option<Seq<char>>)>
    decreases specs.len(),
{
    if specs.len() == 0 {
        Seq::empty()
    } else {
        let r = export_names(specs.drop_last());
        match specs.last() {
            ExportSpecV::Named { orig, exported } => match exported {
                Some(x) => r.push((x, Some(orig))),
                None => r.push((orig, None)),
            },
            ExportSpecV::Default(x) => r.push((x, Some(lit_default()))),
            ExportSpecV::Namespace(_) => r,
        }
    }
}

/// The name of an export-from's namespace binding, the last one if any.
pub open spec fn export_ns(specs: Seq<ExportSpecV>) -> Option<Seq<char>>
    decreases specs.len(),
{
    if specs.len() == 0 {
        None
    } else {
        match specs.last() {
            ExportSpecV::Namespace(l) => Some(l),
            _ => export_ns(specs.drop_last()),
        }
    }
}

/// The binding that reads registry entry `url`: the namespace name if there is one,
/// else the destructured names, else none.
pub open spec fn pack_binding(
    ns: Option<Seq<char>>,
    names: Seq<(Seq<char>, Option<Seq<char>>)>,
    url: Seq<char>,
) -> Option<(PatV, ExprV)> {
    match ns {
        Some(n) => Some((PatV::Ident(n), pack_entry(url))),
        None => if names.len() > 0 {
            Some((PatV::Object(names), pack_entry(url)))
        } else {
            None
        },
    }
}

/// Rewrites one top-level item.
#[verifier::opaque]
pub open spec fn fold_item(c: ResolveConfig, st: ModuleState, item: ItemV) -> (ItemV, ModuleState) {
    match item {
        ItemV::Import { specifiers, src, type_only } => {
            if type_only {
                (item, st)
            } else {
                let k = c.canonical_of(src);
                let st1 = (st.0, st.1.push((k, false)), st.2);
                if c.reads_pack(k) {
                    match pack_binding(import_ns(specifiers), import_names(specifiers), k) {
                        Some(b) => (ItemV::Stmt(StmtV::Const(b.0, b.1)), st1),
                        None => (ItemV::Stmt(StmtV::Empty), st1),
                    }
                } else {
                    (
                        ItemV::Import { specifiers, src: c.emitted_of(src, false), type_only: false },
                        st1,
                    )
                }
            }
        },
        ItemV::ExportNamed { specifiers, src, type_only } => {
            if type_only {
                (item, st)
            } else {
                let k = c.canonical_of(src);
                let st1 = (st.0, st.1.push((k, false)), st.2);
                if c.reads_pack(k) {
                    match pack_binding(export_ns(specifiers), export_names(specifiers), k) {
                        Some(b) => (ItemV::ExportConst(b.0, b.1), st1),
                        None => (ItemV::Stmt(StmtV::Empty), st1),
                    }
                } else {
                    (
                        ItemV::ExportNamed {
                            specifiers,
                            src: c.emitted_of(src, false),
                            type_only: false,
                        },
                        st1,
                    )
                }
            }
        },
        ItemV::ExportAll(src) => {
            let k = c.canonical_of(src);
            if c.reads_pack(k) {
                (
                    ItemV::ExportConst(PatV::Ident(star_name(st.2.len())), pack_entry(k)),
                    (st.0, st.1.push((k, false)), st.2.push(k)),
                )
            } else {
                (ItemV::ExportAll(c.emitted_of(src, false)), (st.0, st.1.push((k, false)), st.2))
            }
        },
        ItemV::ExportConst(p, e) => {
            let r = fold_e(c, (st.0, st.1), e);
            (ItemV::ExportConst(p, r.0), (r.1.0, r.1.1, st.2))
        },
        ItemV::Stmt(s) => {
            let r = fold_s(c, (st.0, st.1), s);
            (ItemV::Stmt(r.0), (r.1.0, r.1.1, st.2))
        },
    }
}

/// Rewrites top-level items from first to last.
pub open spec fn fold_items(c: ResolveConfig, st: ModuleState, items: Seq<ItemV>) -> (
    Seq<ItemV>,
    ModuleState,
)
    decreases items.len(),
{
    if items.len() == 0 {
        (items, st)
    } else {
        let r = fold_items(c, st, items.drop_last());
        let x = fold_item(c, r.1, items.last());
        (r.0.push(x.0), x.1)
    }
}

/// The rewriter of one module: the hook counter and the resolution context.
pub struct AlephResolveFold {
    pub deno_hooks_idx: u64,
    pub resolver: Resolver,
}

/// A rewriter over `resolver`, with no hook signed yet.
pub fn aleph_resolve_fold(resolver: Resolver) -> (r: AlephResolveFold)
    ensures
        r.deno_hooks_idx == 0,
        r.resolver == resolver,
{
    AlephResolveFold { deno_hooks_idx: 0, resolver }
}

fn string_is(s: &String, lit: Vec<char>) -> (r: bool)
    ensures
        r == (s@ == lit@),
{
    let c = chars_of(s.as_str());
    same_chars(&c, &lit)
}

fn is_ident_named(e: &Expr, lit: Vec<char>) -> (r: bool)
    ensures
        r == (expr_view(*e) == ExprV::Ident(lit@)),
{
    match e {
        Expr::Ident(s) => string_is(s, lit),
        _ => false,
    }
}

/// Whether `call` is a call whose callee is the identifier `name`.
pub fn is_call_expr_by_name(call: &Expr, name: &str) -> (r: bool)
    ensures
        r == (expr_view(*call) is Call && *expr_view(*call)->Call_0 == ExprV::Ident(name@)),
{
    match call {
        Expr::Call(callee, _) => is_ident_named(callee, chars_of(name)),
        _ => false,
    }
}

/// `__ALEPH.pack[url]`.
pub fn create_aleph_pack_member_expr(url: &str) -> (r: Expr)
    ensures
        expr_view(r) == pack_entry(url@),
{
    let av = vec!['_', '_', 'A', 'L', 'E', 'P', 'H'];
    let pv = vec!['p', 'a', 'c', 'k'];
    assert(av@ =~= lit_aleph());
    assert(pv@ =~= lit_pack());
    let aleph = string_of(&av);
    let pack = string_of(&pv);
    let base = Expr::Ident(aleph);
    assert(expr_view(base) == ExprV::Ident(lit_aleph()));
    let m = Expr::Member(Box::new(base), pack);
    assert(expr_view(m) == ExprV::Member(Box::new(ExprV::Ident(lit_aleph())), lit_pack()));
    let key = Expr::Str(url.to_owned());
    assert(expr_view(key) == ExprV::Str(url@));
    let r = Expr::Index(Box::new(m), Box::new(key));
    r
}

/// A string literal.
pub fn new_str(s: String) -> (r: Expr)
    ensures
        expr_view(r) == ExprV::Str(s@),
{
    Expr::Str(s)
}

fn is_import_meta_url_exec(o: &Expr, p: &String) -> (r: bool)
    ensures
        r == is_import_meta_url(ExprV::Member(Box::new(expr_view(*o)), p@)),
{
    let is_url = string_is(p, vec!['u', 'r', 'l']);
    let r = match o {
        Expr::MetaProp(a, b) => is_url && string_is(a, vec!['i', 'm', 'p', 'o', 'r', 't'])
            && string_is(b, vec!['m', 'e', 't', 'a']),
        _ => false,
    };
    r
}

/// The ASCII decimal digits of `n`, as characters.
fn decimal_chars(n: usize) -> (r: Vec<char>)
    ensures
        r@ == digits(n as nat),
    decreases n,
{
    if n < 10 {
        let d: char = ((48 + n) as u8) as char;
        let r = vec![d];
        assert(r@ =~= seq![d]);
        r
    } else {
        let mut r = decimal_chars(n / 10);
        r.push(((48 + n % 10) as u8) as char);
        r
    }
}

fn star_ident(n: usize) -> (r: String)
    ensures
        r@ == star_name(n as nat),
{
    let mut v = vec!['$', '$', 's', 't', 'a', 'r', '_'];
    let d = decimal_chars(n);
    crate::text::push_all(&mut v, &d);
    string_of(&v)
}

/// `const name = __ALEPH.pack[url]`, as a binding and its initializer.
pub fn create_aleph_pack_var_decl(url: &str, name: String) -> (r: (Pat, Expr))
    ensures
        pat_view(r.0) == PatV::Ident(name@),
        expr_view(r.1) == pack_entry(url@),
{
    (Pat::Ident(name), create_aleph_pack_member_expr(url))
}

/// `const { key: local, .. } = __ALEPH.pack[url]`, as a binding and its initializer.
pub fn create_aleph_pack_var_decl_member(url: &str, names: Vec<(String, Option<String>)>) -> (r: (
    Pat,
    Expr,
))
    ensures
        pat_view(r.0) == PatV::Object(names_view(names@)),
        expr_view(r.1) == pack_entry(url@),
{
    (Pat::Object(names), create_aleph_pack_member_expr(url))
}

fn clone_opt(o: &Option<String>) -> (r: Option<String>)
    ensures
        opt_view(r) == opt_view(*o),
{
    match o {
        Some(s) => Some(s.clone()),
        None => None,
    }
}

fn default_string() -> (r: String)
    ensures
        r@ == lit_default(),
{
    let v = vec!['d', 'e', 'f', 'a', 'u', 'l', 't'];
    assert(v@ =~= lit_default());
    string_of(&v)
}

pub open spec fn import_specs_view(s: Seq<ImportSpecifier>) -> Seq<ImportSpecV> {
    s.map_values(|x: ImportSpecifier| import_spec_view(x))
}

pub open spec fn export_specs_view(s: Seq<ExportSpecifier>) -> Seq<ExportSpecV> {
    s.map_values(|x: ExportSpecifier| export_spec_view(x))
}

fn import_bindings(specs: &Vec<ImportSpecifier>) -> (r: (Option<String>, Vec<(String, Option<String>)>))
    ensures
        opt_view(r.0) == import_ns(import_specs_view(specs@)),
        names_view(r.1@) == import_names(import_specs_view(specs@)),
{
    let ghost sv = import_specs_view(specs@);
    let mut ns: Option<String> = None;
    let mut names: Vec<(String, Option<String>)> = Vec::new();
    let mut i: usize = 0;
    assert(sv.take(0) =~= Seq::<ImportSpecV>::empty());
    assert(names_view(names@) =~= Seq::<(Seq<char>, Option<Seq<char>>)>::empty());
    while i < specs.len()
        invariant
            i <= specs@.len(),
            sv == import_specs_view(specs@),
            opt_view(ns) == import_ns(sv.take(i as int)),
            names_view(names@) == import_names(sv.take(i as int)),
        decreases specs@.len() - i,
    {
        let ghost prev = names@;
        assert(sv.take(i + 1).drop_last() =~= sv.take(i as int));
        match &specs[i] {
            ImportSpecifier::Named { local, imported } => {
                names.push((local.clone(), clone_opt(imported)));
                assert(names_view(names@) =~= names_view(prev).push((local@, opt_view(*imported))));
            },
            ImportSpecifier::Default(l) => {
                names.push((l.clone(), Some(default_string())));
                assert(names_view(names@) =~= names_view(prev).push((l@, Some(lit_default()))));
            },
            ImportSpecifier::Namespace(l) => {
                ns = Some(l.clone());
            },
        }
        i = i + 1;
    }
    assert(sv.take(i as int) =~= sv);
    (ns, names)
}

fn export_bindings(specs: &Vec<ExportSpecifier>) -> (r: (Option<String>, Vec<(String, Option<String>)>))
    ensures
        opt_view(r.0) == export_ns(export_specs_view(specs@)),
        names_view(r.1@) == export_names(export_specs_view(specs@)),
{
    let ghost sv = export_specs_view(specs@);
    let mut ns: Option<String> = None;
    let mut names: Vec<(String, Option<String>)> = Vec::new();
    let mut i: usize = 0;
    assert(sv.take(0) =~= Seq::<ExportSpecV>::empty());
    assert(names_view(names@) =~= Seq::<(Seq<char>, Option<Seq<char>>)>::empty());
    while i < specs.len()
        invariant
            i <= specs@.len(),
            sv == export_specs_view(specs@),
            opt_view(ns) == export_ns(sv.take(i as int)),
            names_view(names@) == export_names(sv.take(i as int)),
        decreases specs@.len() - i,
    {
        let ghost prev = names@;
        assert(sv.take(i + 1).drop_last() =~= sv.take(i as int));
        match &specs[i] {
            ExportSpecifier::Named { orig, exported } => {
                match exported {
                    Some(x) => {
                        names.push((x.clone(), Some(orig.clone())));
                        assert(names_view(names@) =~= names_view(prev).push((x@, Some(orig@))));
                    },
                    None => {
                        names.push((orig.clone(), None));
                        assert(names_view(names@) =~= names_view(prev).push((orig@, None)));
                    },
                }
            },
            ExportSpecifier::Default(x) => {
                names.push((x.clone(), Some(default_string())));
                assert(names_view(names@) =~= names_view(prev).push((x@, Some(lit_default()))));
            },
            ExportSpecifier::Namespace(l) => {
                ns = Some(l.clone());
            },
        }
        i = i + 1;
    }
    assert(sv.take(i as int) =~= sv);
    (ns, names)
}

impl AlephResolveFold {
    /// The state the pass has threaded so far.
    pub open spec fn st(&self) -> PassState {
        (self.deno_hooks_idx as nat, dep_views(self.resolver.deps@))
    }

    /// The pass changed only the hook counter and the dependency list.
    pub open spec fn keeps(&self, o: &AlephResolveFold) -> bool {
        &&& self.resolver.same_config(&o.resolver)
        &&& self.resolver.star_exports == o.resolver.star_exports
    }

    /// The state the pass has threaded so far, with the bundled `export *` targets.
    pub open spec fn mst(&self) -> ModuleState {
        (
            self.deno_hooks_idx as nat,
            dep_views(self.resolver.deps@),
            str_views(self.resolver.star_exports@),
        )
    }

    /// Rewrites the top-level items of a module, keeping their number and order.
    pub fn fold_module_items(&mut self, module_items: Vec<ModuleItem>) -> (r: Vec<ModuleItem>)
        ensures
            (items_view(r@), final(self).mst()) == fold_items(
                old(self).resolver.config(),
                old(self).mst(),
                items_view(module_items@),
            ),
            final(self).resolver.same_config(&old(self).resolver),
    {
        let ghost c = self.resolver.config();
        let ghost st0 = self.mst();
        let ghost orig = items_view(module_items@);
        let mut rest = module_items;
        let mut out: Vec<ModuleItem> = Vec::new();
        let ghost mut i: int = 0;
        assert(orig.take(0) =~= Seq::<ItemV>::empty());
        assert(items_view(out@) =~= Seq::<ItemV>::empty());
        while rest.len() > 0
            invariant
                0 <= i <= orig.len(),
                items_view(rest@) == orig.skip(i),
                self.resolver.config() == c,
                self.resolver.same_config(&old(self).resolver),
                (items_view(out@), self.mst()) == fold_items(c, st0, orig.take(i)),
            decreases rest@.len(),
        {
            let ghost prev = out@;
            let ghost before = rest@;
            let x = rest.remove(0);
            assert(item_view(x) == items_view(before)[0]);
            assert(items_view(before).drop_first() =~= items_view(rest@));
            let y = self.fold_module_item(x);
            out.push(y);
            proof {
                i = i + 1;
            }
            assert(orig.take(i).drop_last() =~= orig.take(i - 1));
            assert(items_view(out@) =~= items_view(prev).push(item_view(y)));
            assert(items_view(rest@) =~= orig.skip(i));
        }
        assert(orig.take(i) =~= orig);
        out
    }

    /// Rewrites one statement.
    fn fold_stmt(&mut self, s: Stmt) -> (r: Stmt)
        ensures
            (stmt_view(r), final(self).st()) == fold_s(
                old(self).resolver.config(),
                old(self).st(),
                stmt_view(s),
            ),
            final(self).keeps(old(self)),
        decreases s, 1nat,
    {
        match s {
            Stmt::Expr(e) => Stmt::Expr(self.fold_expr(e)),
            Stmt::Const(p, e) => {
                let e2 = self.fold_expr(e);
                Stmt::Const(p, e2)
            },
            Stmt::Return(e) => Stmt::Return(self.fold_expr(e)),
            Stmt::Empty => Stmt::Empty,
        }
    }

    fn reads_pack_exec(&self, key: &String) -> (r: bool)
        ensures
            r == self.resolver.config().reads_pack(key@),
    {
        let k = chars_of(key.as_str());
        self.resolver.bundle_mode && self.resolver.exec_is_external(&k)
    }

    /// Rewrites one top-level item: imports and re-exports are resolved, and read
    /// from the shared registry where bundle mode says so; other items are folded.
    pub fn fold_module_item(&mut self, item: ModuleItem) -> (r: ModuleItem)
        ensures
            (item_view(r), final(self).mst()) == fold_item(
                old(self).resolver.config(),
                old(self).mst(),
                item_view(item),
            ),
            final(self).resolver.same_config(&old(self).resolver),
    {
        reveal(fold_item);
        match item {
            ModuleItem::Import { specifiers, src, type_only } => {
                if type_only {
                    return ModuleItem::Import { specifiers, src, type_only };
                }
                let (emitted, key) = self.resolver.resolve(src.as_str(), false);
                if self.reads_pack_exec(&key) {
                    let (ns, names) = import_bindings(&specifiers);
                    match ns {
                        Some(n) => {
                            let (p, e) = create_aleph_pack_var_decl(key.as_str(), n);
                            ModuleItem::Stmt(Stmt::Const(p, e))
                        },
                        None => {
                            if names.len() > 0 {
                                let (p, e) = create_aleph_pack_var_decl_member(key.as_str(), names);
                                ModuleItem::Stmt(Stmt::Const(p, e))
                            } else {
                                ModuleItem::Stmt(Stmt::Empty)
                            }
                        },
                    }
                } else {
                    ModuleItem::Import { specifiers, src: emitted, type_only: false }
                }
            },
            ModuleItem::ExportNamed { specifiers, src, type_only } => {
                if type_only {
                    return ModuleItem::ExportNamed { specifiers, src, type_only };
                }
                let (emitted, key) = self.resolver.resolve(src.as_str(), false);
                if self.reads_pack_exec(&key) {
                    let (ns, names) = export_bindings(&specifiers);
                    match ns {
                        Some(n) => {
                            let (p, e) = create_aleph_pack_var_decl(key.as_str(), n);
                            ModuleItem::ExportConst(p, e)
                        },
                        None => {
                            if names.len() > 0 {
                                let (p, e) = create_aleph_pack_var_decl_member(key.as_str(), names);
                                ModuleItem::ExportConst(p, e)
                            } else {
                                ModuleItem::Stmt(Stmt::Empty)
                            }
                        },
                    }
                } else {
                    ModuleItem::ExportNamed { specifiers, src: emitted, type_only: false }
                }
            },
            ModuleItem::ExportAll(src) => {
                let (emitted, key) = self.resolver.resolve(src.as_str(), false);
                if self.reads_pack_exec(&key) {
                    let ghost stars = str_views(self.resolver.star_exports@);
                    let n = self.resolver.star_exports.len();
                    self.resolver.star_exports.push(key.clone());
                    assert(str_views(self.resolver.star_exports@) =~= stars.push(key@));
                    let (p, e) = create_aleph_pack_var_decl(key.as_str(), star_ident(n));
                    ModuleItem::ExportConst(p, e)
                } else {
                    ModuleItem::ExportAll(emitted)
                }
            },
            ModuleItem::ExportConst(p, e) => {
                let e2 = self.fold_expr(e);
                ModuleItem::ExportConst(p, e2)
            },
            ModuleItem::Stmt(s) => {
                let s2 = self.fold_stmt(s);
                ModuleItem::Stmt(s2)
            },
        }
    }

    /// Counts one more hook and signs `callback_text` with the new ordinal.
    pub fn new_use_deno_hook_ident(&mut self, callback_text: &str) -> (r: String)
        requires
            old(self).deno_hooks_idx < u64::MAX,
        ensures
            final(self).deno_hooks_idx == old(self).deno_hooks_idx + 1,
            final(self).resolver == old(self).resolver,
            r@ == hook_ident(
                old(self).resolver.specifier@,
                final(self).deno_hooks_idx as nat,
                callback_text@,
            ),
            crate::sign::hook_prefix().is_prefix_of(r@),
            r@.len() <= 35,
            forall|i: int| 8 <= i < r@.len() ==> crate::sign::is_ident_char(#[trigger] r@[i]),
    {
        self.deno_hooks_idx = self.deno_hooks_idx + 1;
        sign(self.resolver.specifier.as_str(), self.deno_hooks_idx, callback_text)
    }

    /// Rewrites one expression and, depth first, everything below it.
    pub fn fold_expr(&mut self, e: Expr) -> (r: Expr)
        ensures
            (expr_view(r), final(self).st()) == fold_e(
                old(self).resolver.config(),
                old(self).st(),
                expr_view(e),
            ),
            final(self).keeps(old(self)),
        decreases e, 1nat,
    {
        match e {
            Expr::Member(o, p) => {
                if is_import_meta_url_exec(&o, &p) {
                    Expr::Str(self.resolver.specifier.clone())
                } else {
                    let o2 = self.fold_expr(*o);
                    Expr::Member(Box::new(o2), p)
                }
            },
            Expr::Index(o, k) => {
                let o2 = self.fold_expr(*o);
                let k2 = self.fold_expr(*k);
                Expr::Index(Box::new(o2), Box::new(k2))
            },
            Expr::Call(callee, args) => self.fold_call_expr(Expr::Call(callee, args)),
            Expr::Func { arrow, text, body } => {
                let body2 = self.fold_stmts(body);
                Expr::Func { arrow, text, body: body2 }
            },
            Expr::Op(t, xs) => {
                let xs2 = self.fold_exprs(xs);
                Expr::Op(t, xs2)
            },
            _ => e,
        }
    }

    /// Rewrites a call: a dynamic import of a literal, a hook call, or any other call.
    pub fn fold_call_expr(&mut self, call: Expr) -> (r: Expr)
        requires
            call is Call,
        ensures
            (expr_view(r), final(self).st()) == fold_e(
                old(self).resolver.config(),
                old(self).st(),
                expr_view(call),
            ),
            final(self).keeps(old(self)),
        decreases call, 0nat,
    {
        match call {
            Expr::Call(callee, args) => {
                proof {
                    lemma_exprs_view(args@);
                }
                let literal_url: Option<String> = if args.len() > 0 && is_ident_named(
                    &callee,
                    vec!['i', 'm', 'p', 'o', 'r', 't'],
                ) {
                    match &args[0] {
                        Expr::Str(u) => Some(u.clone()),
                        _ => None,
                    }
                } else {
                    None
                };
                if let Some(url) = literal_url {
                    return self.rewrite_import(callee, args, url);
                }
                let hook_text: Option<String> = if self.deno_hooks_idx < u64::MAX && args.len() > 0
                    && is_ident_named(&callee, vec!['u', 's', 'e', 'D', 'e', 'n', 'o']) {
                    match &args[0] {
                        Expr::Func { text, .. } => Some(text.clone()),
                        _ => None,
                    }
                } else {
                    None
                };
                match hook_text {
                    Some(text) => {
                        assert(expr_view(*callee) != ExprV::Ident(lit_import()));
                        self.fold_hook_call(callee, args, text)
                    },
                    None => {
                        let c2 = self.fold_expr(*callee);
                        let a2 = self.fold_exprs(args);
                        Expr::Call(Box::new(c2), a2)
                    },
                }
            },
            _ => call,
        }
    }

    fn rewrite_import(&mut self, callee: Box<Expr>, args: Vec<Expr>, url: String) -> (r: Expr)
        requires
            is_literal_import(expr_view(*callee), exprs_view(args@)),
            url@ == exprs_view(args@)[0]->Str_0,
        ensures
            (expr_view(r), final(self).st()) == fold_e(
                old(self).resolver.config(),
                old(self).st(),
                ExprV::Call(Box::new(expr_view(*callee)), exprs_view(args@)),
            ),
            final(self).keeps(old(self)),
    {
        let ghost c = self.resolver.config();
        proof {
            lemma_exprs_view(args@);
        }
        let ghost av = exprs_view(args@);
        assert(url@ == av[0]->Str_0);
        let spec_name = self.resolver.specifier.clone();
        let (emitted, _key) = self.resolver.resolve(url.as_str(), true);
        let r = if self.resolver.bundle_mode {
            let av = vec!['_', '_', 'A', 'L', 'E', 'P', 'H'];
            let iv = vec!['i', 'm', 'p', 'o', 'r', 't'];
            assert(av@ =~= lit_aleph());
            assert(iv@ =~= lit_import());
            let aleph = string_of(&av);
            let imp = string_of(&iv);
            let mp = Expr::MetaProp(aleph, imp);
            assert(expr_view(mp) == ExprV::MetaProp(lit_aleph(), lit_import()));
            let e1 = Expr::Str(emitted);
            let e2 = Expr::Str(spec_name);
            let xs = vec![e1, e2];
            proof {
                lemma_exprs_view(xs@);
            }
            assert(exprs_view(xs@) =~= seq![expr_view(e1), expr_view(e2)]);
            Expr::Call(Box::new(mp), xs)
        } else {
            let e1 = Expr::Str(emitted);
            let xs = vec![e1];
            proof {
                lemma_exprs_view(xs@);
            }
            assert(exprs_view(xs@) =~= seq![expr_view(e1)]);
            Expr::Call(callee, xs)
        };
        assert(expr_view(r) == import_call(c, url@));
        r
    }

    #[verifier::rlimit(60)]
    fn fold_hook_call(&mut self, callee: Box<Expr>, args: Vec<Expr>, text: String) -> (r: Expr)
        requires
            is_hook_call(expr_view(*callee), exprs_view(args@)),
            old(self).deno_hooks_idx < u64::MAX,
            text@ == exprs_view(args@)[0]->text,
        ensures
            (expr_view(r), final(self).st()) == fold_hook(
                old(self).resolver.config(),
                old(self).st(),
                expr_view(*callee),
                exprs_view(args@),
            ),
            final(self).keeps(old(self)),
        decreases args@, 0nat,
    {
        let ghost c = self.resolver.config();
        proof {
            lemma_exprs_view(args@);
        }
        let ghost av = exprs_view(args@);
        let ghost argv = args@;
        let ghost n = self.deno_hooks_idx + 1;
        let id = self.new_use_deno_hook_ident(text.as_str());
        let mut key = vec!['#'];
        assert(key@ =~= seq!['#']);
        let id_chars = chars_of(id.as_str());
        crate::text::push_all(&mut key, &id_chars);
        let dep = DependencyDescriptor { specifier: string_of(&key), is_dynamic: false };
        assert(dep@ == (seq!['#'] + id@, false));
        let ghost deps0 = dep_views(self.resolver.deps@);
        self.resolver.deps.push(dep);
        assert(dep_views(self.resolver.deps@) =~= deps0.push((seq!['#'] + id@, false)));
        let ghost s0 = self.st();
        assert(s0 == (n as nat, old(self).st().1.push((seq!['#'] + id@, false))));
        assert(av[0] == expr_view(argv[0]));
        let mut rest = args;
        let a0 = rest.remove(0);
        assert(decreases_to!(argv => argv[0]));
        let r0 = if self.resolver.bundle_mode {
            Expr::Null
        } else {
            self.fold_expr(a0)
        };
        let ghost s1 = self.st();
        assert((expr_view(r0), s1) == (if c.bundle_mode {
            (ExprV::Null, s0)
        } else {
            fold_e(c, s0, av[0])
        }));
        let r1 = if rest.len() > 0 {
            let a1 = rest.remove(0);
            assert(a1 == argv[1]);
            assert(decreases_to!(argv => argv[1]));
            self.fold_expr(a1)
        } else {
            let zero = vec!['0'];
            assert(zero@ =~= seq!['0']);
            Expr::Num(string_of(&zero))
        };
        let ghost s2 = self.st();
        assert((expr_view(r1), s2) == (if av.len() > 1 {
            fold_e(c, s1, av[1])
        } else {
            (ExprV::Num(seq!['0']), s1)
        }));
        let out = vec![r0, r1, Expr::Str(id)];
        proof {
            lemma_exprs_view(out@);
            assert(exprs_view(out@) =~= seq![expr_view(out@[0]), expr_view(out@[1]), ExprV::Str(id@)]);
            assert(id@ == hook_ident(c.specifier, n as nat, av[0]->text));
        }
        let r = Expr::Call(callee, out);
        assert(expr_view(r) == ExprV::Call(Box::new(expr_view(*callee)), exprs_view(out@)));
        r
    }

    /// Rewrites expressions from left to right.
    pub fn fold_exprs(&mut self, es: Vec<Expr>) -> (r: Vec<Expr>)
        ensures
            (exprs_view(r@), final(self).st()) == fold_es(
                old(self).resolver.config(),
                old(self).st(),
                exprs_view(es@),
            ),
            final(self).keeps(old(self)),
        decreases es@, 1nat,
    {
        let ghost c = self.resolver.config();
        let ghost st0 = self.st();
        let ghost orig = es@;
        let mut rest = es;
        let mut out: Vec<Expr> = Vec::new();
        let ghost mut i: int = 0;
        assert(orig.take(0) =~= Seq::<Expr>::empty());
        while rest.len() > 0
            invariant
                0 <= i <= orig.len(),
                orig == es@,
                rest@ == orig.skip(i),
                self.resolver.config() == c,
                self.keeps(old(self)),
                (exprs_view(out@), self.st()) == fold_es(c, st0, exprs_view(orig.take(i))),
            decreases rest@.len(),
        {
            let x = rest.remove(0);
            assert(x == orig[i]);
            assert(decreases_to!(orig => orig[i]));
            let ghost prev = out@;
            let y = self.fold_expr(x);
            out.push(y);
            proof {
                i = i + 1;
            }
            assert(orig.take(i).drop_last() =~= orig.take(i - 1));
            assert(out@.drop_last() =~= prev);
            assert(rest@ =~= orig.skip(i));
            assert(exprs_view(orig.take(i)) == exprs_view(orig.take(i - 1)).push(
                expr_view(orig[i - 1]),
            ));
            assert(exprs_view(orig.take(i)).drop_last() =~= exprs_view(orig.take(i - 1)));
            assert(exprs_view(out@) == exprs_view(prev).push(expr_view(y)));
        }
        assert(orig.take(i) =~= orig);
        out
    }

    /// Rewrites statements from left to right.
    pub fn fold_stmts(&mut self, ss: Vec<Stmt>) -> (r: Vec<Stmt>)
        ensures
            (stmts_view(r@), final(self).st()) == fold_ss(
                old(self).resolver.config(),
                old(self).st(),
                stmts_view(ss@),
            ),
            final(self).keeps(old(self)),
        decreases ss@, 1nat,
    {
        let ghost c = self.resolver.config();
        let ghost st0 = self.st();
        let ghost orig = ss@;
        let mut rest = ss;
        let mut out: Vec<Stmt> = Vec::new();
        let ghost mut i: int = 0;
        assert(orig.take(0) =~= Seq::<Stmt>::empty());
        while rest.len() > 0
            invariant
                0 <= i <= orig.len(),
                orig == ss@,
                rest@ == orig.skip(i),
                self.resolver.config() == c,
                self.keeps(old(self)),
                (stmts_view(out@), self.st()) == fold_ss(c, st0, stmts_view(orig.take(i))),
            decreases rest@.len(),
        {
            let x = rest.remove(0);
            assert(x == orig[i]);
            assert(decreases_to!(orig => orig[i]));
            let ghost prev = out@;
            let ghost mid = self.st();
            let y = self.fold_stmt(x);
            assert((stmt_view(y), self.st()) == fold_s(c, mid, stmt_view(x)));
            out.push(y);
            proof {
                i = i + 1;
            }
            assert(orig.take(i).drop_last() =~= orig.take(i - 1));
            assert(out@.drop_last() =~= prev);
            assert(rest@ =~= orig.skip(i));
            assert(stmts_view(orig.take(i)) == stmts_view(orig.take(i - 1)).push(
                stmt_view(orig[i - 1]),
            ));
            assert(stmts_view(orig.take(i)).drop_last() =~= stmts_view(orig.take(i - 1)));
            assert(stmts_view(out@) == stmts_view(prev).push(stmt_view(y)));
        }
        assert(orig.take(i) =~= orig);
        out
    }
}

proof fn lemma_exprs_view(s: Seq<Expr>)
    ensures
        exprs_view(s).len() == s.len(),
        forall|i: int| 0 <= i < s.len() ==> #[trigger] exprs_view(s)[i] == expr_view(s[i]),
    decreases s.len(),
{
    if s.len() > 0 {
        lemma_exprs_view(s.drop_last());
    }
}

} // verus!

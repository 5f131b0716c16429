//! Properties of the resolver, the signer and the rewriter, stated over their models.
use crate::ast::{ExprV, ItemV, PatV};
use crate::fold::{
    fold_e, fold_es, fold_hook, fold_item, fold_items, is_hook_call, max_hooks, pack_entry,
    star_name, ModuleState, PassState,
};
use crate::resolver::ResolveConfig;
use crate::sign::{hook_ident, hook_prefix};
use vstd::prelude::*;

verus! {

/// Signing depends on the module specifier, the ordinal and the callback text alone:
/// two signatures of the same three values are the same identifier.
pub proof fn sign_is_deterministic(
    specifier: Seq<char>,
    ordinal: nat,
    callback: Seq<char>,
    first: Seq<char>,
    second: Seq<char>,
)
    requires
        first == hook_ident(specifier, ordinal, callback),
        second == hook_ident(specifier, ordinal, callback),
    ensures
        first == second,
{
}

/// The canonical key of a specifier does not depend on bundle mode or on the
/// external-bundle set: two contexts that agree on the module, the package root and
/// the import map give every specifier the same key.
pub proof fn canonical_key_ignores_bundle_mode(a: ResolveConfig, b: ResolveConfig, raw: Seq<char>)
    requires
        a.specifier == b.specifier,
        a.root == b.root,
        a.import_map == b.import_map,
    ensures
        a.canonical_of(raw) == b.canonical_of(raw),
{
}

/// The rewritten module has as many top-level items as the input, and the item at
/// each position is the rewrite of the input item at that position.
pub proof fn fold_items_keeps_order(c: ResolveConfig, st: ModuleState, items: Seq<ItemV>)
    ensures
        fold_items(c, st, items).0.len() == items.len(),
        forall|i: int|
            0 <= i < items.len() ==> #[trigger] fold_items(c, st, items).0[i] == fold_item(
                c,
                fold_items(c, st, items.take(i)).1,
                items[i],
            ).0,
    decreases items.len(),
{
    if items.len() > 0 {
        let init = items.drop_last();
        fold_items_keeps_order(c, st, init);
        assert forall|i: int| 0 <= i < items.len() implies #[trigger] fold_items(c, st, items).0[i]
            == fold_item(c, fold_items(c, st, items.take(i)).1, items[i]).0 by {
            if i < items.len() - 1 {
                assert(items.take(i) =~= init.take(i));
                assert(fold_items(c, st, init).0[i] == fold_item(
                    c,
                    fold_items(c, st, init.take(i)).1,
                    init[i],
                ).0);
            } else {
                assert(items.take(i) =~= init);
            }
        }
    }
}

/// A hook call gets exactly three arguments: the callback (a null literal in bundle
/// mode), the option (`0` when none was supplied), and the identifier signed with the
/// next ordinal; arguments after the option are dropped.
pub proof fn hook_call_normalized(c: ResolveConfig, st: PassState, callee: ExprV, args: Seq<ExprV>)
    requires
        is_hook_call(callee, args),
        st.0 < max_hooks(),
    ensures
        ({
            let r = fold_e(c, st, ExprV::Call(Box::new(callee), args)).0;
            &&& r is Call
            &&& r->Call_1.len() == 3
            &&& args.len() == 1 ==> r->Call_1[1] == ExprV::Num(seq!['0'])
            &&& r->Call_1[2] == ExprV::Str(hook_ident(c.specifier, st.0 + 1, args[0]->text))
            &&& c.bundle_mode ==> r->Call_1[0] == ExprV::Null
        }),
{
    assert(!(callee == ExprV::Ident(crate::fold::lit_import())));
    assert(fold_e(c, st, ExprV::Call(Box::new(callee), args)) == fold_hook(c, st, callee, args));
}

/// Whether `item` is an `export *` that the pass reads from the shared registry.
pub open spec fn is_bundled_star(c: ResolveConfig, item: ItemV) -> bool {
    match item {
        ItemV::ExportAll(src) => c.reads_pack(c.canonical_of(src)),
        _ => false,
    }
}

/// The number of bundled `export *` items in `items`.
pub open spec fn bundled_stars(c: ResolveConfig, items: Seq<ItemV>) -> nat
    decreases items.len(),
{
    if items.len() == 0 {
        0
    } else {
        bundled_stars(c, items.drop_last()) + if is_bundled_star(c, items.last()) {
            1nat
        } else {
            0nat
        }
    }
}

proof fn lemma_star_count(c: ResolveConfig, st: ModuleState, items: Seq<ItemV>)
    ensures
        fold_items(c, st, items).1.2.len() == st.2.len() + bundled_stars(c, items),
    decreases items.len(),
{
    reveal(fold_item);
    if items.len() > 0 {
        lemma_star_count(c, st, items.drop_last());
    }
}

/// The bundled `export *` items get the ordinals 0, 1, 2, ... in source order (after
/// those already registered), whatever other items stand between them.
pub proof fn star_export_ordinals(c: ResolveConfig, st: ModuleState, items: Seq<ItemV>, i: int)
    requires
        0 <= i < items.len(),
        is_bundled_star(c, items[i]),
    ensures
        fold_items(c, st, items).0[i] == ItemV::ExportConst(
            PatV::Ident(star_name(st.2.len() + bundled_stars(c, items.take(i)))),
            pack_entry(c.canonical_of(items[i]->ExportAll_0)),
        ),
{
    fold_items_keeps_order(c, st, items);
    lemma_star_count(c, st, items.take(i));
    reveal(fold_item);
}

/// Whether `item` is an import, an export-from or an `export *`.
pub open spec fn is_module_decl(item: ItemV) -> bool {
    item is Import || item is ExportNamed || item is ExportAll
}

proof fn lemma_decl_edges_agree(a: ResolveConfig, b: ResolveConfig, st1: ModuleState, st2: ModuleState, item: ItemV)
    requires
        a.specifier == b.specifier,
        a.root == b.root,
        a.import_map == b.import_map,
        st1.0 == st2.0,
        st1.1 == st2.1,
        is_module_decl(item),
    ensures
        fold_item(a, st1, item).1.0 == fold_item(b, st2, item).1.0,
        fold_item(a, st1, item).1.1 == fold_item(b, st2, item).1.1,
{
    reveal(fold_item);
    canonical_key_ignores_bundle_mode(a, b, match item {
        ItemV::Import { src, .. } => src,
        ItemV::ExportNamed { src, .. } => src,
        ItemV::ExportAll(src) => src,
        _ => Seq::empty(),
    });
}

/// For a module of imports and re-exports, the dependency list that a pass records
/// does not depend on bundle mode or on the external-bundle set: two contexts that
/// agree on the module, the package root and the import map record the same edges, in
/// the same order.
pub proof fn dependency_list_ignores_bundle_mode(
    a: ResolveConfig,
    b: ResolveConfig,
    st: ModuleState,
    items: Seq<ItemV>,
)
    requires
        a.specifier == b.specifier,
        a.root == b.root,
        a.import_map == b.import_map,
        forall|i: int| 0 <= i < items.len() ==> is_module_decl(#[trigger] items[i]),
    ensures
        fold_items(a, st, items).1.1 == fold_items(b, st, items).1.1,
        fold_items(a, st, items).1.0 == fold_items(b, st, items).1.0,
    decreases items.len(),
{
    if items.len() > 0 {
        let init = items.drop_last();
        assert forall|i: int| 0 <= i < init.len() implies is_module_decl(#[trigger] init[i]) by {
            assert(init[i] == items[i]);
        }
        dependency_list_ignores_bundle_mode(a, b, st, init);
        assert(is_module_decl(items[items.len() - 1]));
        lemma_decl_edges_agree(
            a,
            b,
            fold_items(a, st, init).1,
            fold_items(b, st, init).1,
            items.last(),
        );
    }
}

/// In bundle mode, two hook calls in a row, each with only a callback, are signed with
/// the next two ordinals, and each records one pseudo-dependency (`#` and its
/// identifier), in source order; both identifiers carry the marker prefix.
pub proof fn hooks_record_in_source_order(
    c: ResolveConfig,
    st: PassState,
    callee: ExprV,
    first: ExprV,
    second: ExprV,
)
    requires
        c.bundle_mode,
        is_hook_call(callee, seq![first]),
        is_hook_call(callee, seq![second]),
        st.0 + 2 <= max_hooks(),
    ensures
        ({
            let id1 = hook_ident(c.specifier, st.0 + 1, first->text);
            let id2 = hook_ident(c.specifier, st.0 + 2, second->text);
            let r = fold_es(
                c,
                st,
                seq![
                    ExprV::Call(Box::new(callee), seq![first]),
                    ExprV::Call(Box::new(callee), seq![second]),
                ],
            );
            &&& r.1.0 == st.0 + 2
            &&& r.1.1 == st.1.push((seq!['#'] + id1, false)).push((seq!['#'] + id2, false))
            &&& hook_prefix().is_prefix_of(id1)
            &&& hook_prefix().is_prefix_of(id2)
        }),
{
    let x1 = ExprV::Call(Box::new(callee), seq![first]);
    let x2 = ExprV::Call(Box::new(callee), seq![second]);
    let xs = seq![x1, x2];
    assert(xs.drop_last() =~= seq![x1]);
    assert(seq![x1].drop_last() =~= Seq::<ExprV>::empty());
    assert(seq![first][0] == first);
    assert(seq![second][0] == second);
    assert(!(callee == ExprV::Ident(crate::fold::lit_import())));
    let r1 = fold_e(c, st, x1);
    assert(r1 == fold_hook(c, st, callee, seq![first]));
    assert(fold_e(c, r1.1, x2) == fold_hook(c, r1.1, callee, seq![second]));
    let id1 = hook_ident(c.specifier, st.0 + 1, first->text);
    let id2 = hook_ident(c.specifier, st.0 + 2, second->text);
    assert(r1.1 == (st.0 + 1, st.1.push((seq!['#'] + id1, false))));
    let r2 = fold_e(c, r1.1, x2);
    assert(r2.1 == (st.0 + 2, r1.1.1.push((seq!['#'] + id2, false))));
    assert(fold_es(c, st, Seq::<ExprV>::empty()) == (Seq::<ExprV>::empty(), st));
    assert(fold_es(c, st, seq![x1]).1 == r1.1);
    assert(fold_es(c, st, xs).1 == r2.1);
    assert(id1.take(8) =~= hook_prefix());
    assert(id2.take(8) =~= hook_prefix());
}

} // verus!

use vstd::prelude::*;

verus! {

use crate::ast::{FragmentV, SelectionV, VariableDeclV};
use crate::fragments::{FragmentErrorV, spec_expand, spec_expand_sel, spec_expand_sels,
    spec_frag_lookup};
use crate::model::SchemaModelV;
use crate::output::{OutputEntryV, OutputVariantV};
use crate::selection::{CtxV, ResolveErrorV, common_ctx, spec_find_field, spec_find_key,
    spec_mentions, spec_resolve_sels, spec_resolve_step, spec_resolve_variants, spec_sel_mentions,
    spec_with_typename, variant_ctx};
use crate::synth::{ScalarOverrideV, spec_synth_entries, spec_synthesize};
use crate::ast::OperationKind;
use crate::{spec_generate, GenErrorV};
use crate::synth::NamedTypeDefV;

// ---------------------------------------------------------------------------
// The laws the library states of itself.
// ---------------------------------------------------------------------------

/// Determinism: one generation run is a mathematical function of the
/// schema, the registry, and the parsed document alone, so byte-identical
/// input always yields byte-identical definitions.
pub proof fn lemma_generate_deterministic(
    schema1: SchemaModelV,
    ov1: Seq<ScalarOverrideV>,
    kind1: OperationKind,
    decls1: Seq<VariableDeclV>,
    opsels1: Seq<SelectionV>,
    frags1: Seq<FragmentV>,
    schema2: SchemaModelV,
    ov2: Seq<ScalarOverrideV>,
    kind2: OperationKind,
    decls2: Seq<VariableDeclV>,
    opsels2: Seq<SelectionV>,
    frags2: Seq<FragmentV>,
)
    requires
        schema1 == schema2,
        ov1 == ov2,
        kind1 == kind2,
        decls1 == decls2,
        opsels1 == opsels2,
        frags1 == frags2,
    ensures
        spec_generate(schema1, ov1, kind1, decls1, opsels1, frags1) == spec_generate(
            schema2,
            ov2,
            kind2,
            decls2,
            opsels2,
            frags2,
        ),
{
}

/// Unknown-field detection: a resolution that succeeds has found every
/// selected field on its context type (or it was the discriminant), so a
/// selection naming an absent field can never resolve, and no output is
/// ever synthesized for it.
pub proof fn lemma_resolved_fields_exist(
    schema: SchemaModelV,
    ctx: CtxV,
    sels: Seq<SelectionV>,
    acc: Seq<OutputEntryV>,
    i: int,
)
    requires
        spec_resolve_sels(schema, ctx, sels, acc) is Ok,
        0 <= i < sels.len(),
        sels[i] is Field,
        sels[i]->Field_name != "__typename"@,
    ensures
        spec_find_field(schema, ctx.fields, ctx.implements, sels[i]->Field_name) is Some,
    decreases sels.len(),
{
    let step = spec_resolve_step(schema, ctx, sels.first(), acc);
    assert(step is Ok);
    if i == 0 {
        assert(sels.first() == sels[0]);
    } else {
        assert(sels.drop_first()[i - 1] == sels[i]);
        lemma_resolved_fields_exist(schema, ctx, sels.drop_first(), step->Ok_0, i - 1);
    }
}

/// Cycle safety: a fragment whose body opens by spreading the fragment
/// itself can never be inlined; whatever depth budget inlining starts
/// with, it reports the cycle. (Termination of inlining itself is part of
/// its definition: every walk carries a decreasing measure.)
pub proof fn lemma_self_spread_cycle(lib: Seq<FragmentV>, name: Seq<char>, fuel: nat)
    requires
        spec_frag_lookup(lib, name, 0) is Some,
        spec_frag_lookup(lib, name, 0)->0.sels.len() > 0,
        spec_frag_lookup(lib, name, 0)->0.sels.first() == (SelectionV::FragmentSpread { name }),
    ensures
        spec_expand_sel(lib, SelectionV::FragmentSpread { name }, fuel) == Err::<
            SelectionV,
            FragmentErrorV,
        >(FragmentErrorV::CycleDetected { name }),
    decreases fuel,
{
    if fuel > 0 {
        let f = spec_frag_lookup(lib, name, 0)->0;
        lemma_self_spread_cycle(lib, name, (fuel - 1) as nat);
        assert(spec_expand_sels(lib, f.sels, (fuel - 1) as nat) is Err);
    }
}

/// The same, at the document level: an operation that spreads such a
/// fragment fails with the cycle error, never with exhaustion or output.
pub proof fn lemma_cycle_detected(lib: Seq<FragmentV>, name: Seq<char>, opsels: Seq<SelectionV>)
    requires
        spec_frag_lookup(lib, name, 0) is Some,
        spec_frag_lookup(lib, name, 0)->0.sels.len() > 0,
        spec_frag_lookup(lib, name, 0)->0.sels.first() == (SelectionV::FragmentSpread { name }),
        opsels.len() > 0,
        opsels.first() == (SelectionV::FragmentSpread { name }),
    ensures
        spec_expand(lib, opsels) == Err::<Seq<SelectionV>, FragmentErrorV>(
            FragmentErrorV::CycleDetected { name },
        ),
{
    lemma_self_spread_cycle(lib, name, lib.len());
}

/// A successful schema lookup returns the definition of the very name
/// looked up.
pub proof fn lemma_lookup_name(ts: Seq<crate::model::SchemaTypeV>, n: Seq<char>, i: int)
    requires
        crate::model::spec_lookup_from(ts, n, i) is Some,
    ensures
        crate::model::sty_name(crate::model::spec_lookup_from(ts, n, i)->0) == n,
    decreases ts.len() - i,
{
    if 0 <= i < ts.len() {
        if crate::model::sty_name(ts[i]) == n {
        } else {
            lemma_lookup_name(ts, n, i + 1);
        }
    }
}

/// Polymorphic isolation: the variant fan-out is determined, for each
/// concrete type, only by whether the query names that type and by what
/// resolving the selections under that type's own context yields. Two
/// selection lists that agree in both respects for every possible type
/// produce identical variant lists, whatever else they differ in.
pub proof fn lemma_poly_isolation(
    schema: SchemaModelV,
    iface: Seq<char>,
    possible: Seq<Seq<char>>,
    s1: Seq<SelectionV>,
    s2: Seq<SelectionV>,
    i: int,
)
    requires
        forall|c: Seq<char>|
            possible.contains(c) ==> spec_mentions(s1, iface, c) == spec_mentions(s2, iface, c),
        forall|c: Seq<char>, fields: Seq<crate::model::FieldDefV>, implements: Seq<Seq<char>>|
            possible.contains(c) ==> spec_resolve_sels(
                schema,
                variant_ctx(iface, c, fields, implements, possible),
                s1,
                Seq::empty(),
            ) == spec_resolve_sels(
                schema,
                variant_ctx(iface, c, fields, implements, possible),
                s2,
                Seq::empty(),
            ),
    ensures
        spec_resolve_variants(schema, iface, possible, s1, i) == spec_resolve_variants(
            schema,
            iface,
            possible,
            s2,
            i,
        ),
    decreases possible.len() - i,
{
    if 0 <= i < possible.len() {
        assert(possible.contains(possible[i]));
        match crate::model::spec_lookup(schema, possible[i]) {
            Some(crate::model::SchemaTypeV::Object { name, fields, implements }) => {
                assert(spec_resolve_sels(
                    schema,
                    variant_ctx(iface, name, fields, implements, possible),
                    s1,
                    Seq::empty(),
                ) == spec_resolve_sels(
                    schema,
                    variant_ctx(iface, name, fields, implements, possible),
                    s2,
                    Seq::empty(),
                )) by {
                    assert(possible.contains(possible[i]));
                    lemma_lookup_name(schema.types, possible[i], 0);
                    assert(name == possible[i]);
                }
            },
            _ => {},
        }
        lemma_poly_isolation(schema, iface, possible, s1, s2, i + 1);
    }
}

/// Projection shape: the record emitted for a resolved object holds one
/// field per resolved response key, under the same name and in the same
/// order, and nothing else.
pub proof fn lemma_struct_fields_match_selection(
    schema: SchemaModelV,
    ov: Seq<ScalarOverrideV>,
    entries: Seq<OutputEntryV>,
    parent: Seq<char>,
)
    ensures
        spec_synth_entries(schema, ov, entries, parent).0.len() == entries.len(),
        forall|j: int|
            0 <= j < entries.len() ==> #[trigger] spec_synth_entries(
                schema,
                ov,
                entries,
                parent,
            ).0[j].name == entries[j].key,
    decreases entries.len(),
{
    if entries.len() > 0 {
        lemma_struct_fields_match_selection(schema, ov, entries.drop_first(), parent);
        assert forall|j: int| 0 <= j < entries.len() implies #[trigger] spec_synth_entries(
            schema,
            ov,
            entries,
            parent,
        ).0[j].name == entries[j].key by {
            let full = spec_synth_entries(schema, ov, entries, parent);
            let rest = spec_synth_entries(schema, ov, entries.drop_first(), parent);
            let step = crate::synth::spec_synth_entry(schema, ov, entries.first(), parent);
            assert(full.0 == seq![step.0] + rest.0);
            if j == 0 {
                assert(full.0[0] == step.0);
            } else {
                assert(entries.drop_first()[j - 1] == entries[j]);
                assert(full.0[j] == rest.0[j - 1]);
            }
        }
    }
}

/// Two selection lists that differ only inside one inline fragment on
/// type `tname` resolve identically under any context that neither
/// splices nor errors on `tname` (it is in the skip list): the fragment's
/// body is never entered there.
pub proof fn lemma_skipped_fragment_ignored(
    schema: SchemaModelV,
    ctx: CtxV,
    s1: Seq<SelectionV>,
    s2: Seq<SelectionV>,
    k: int,
    tname: Seq<char>,
    acc: Seq<OutputEntryV>,
    j: int,
)
    requires
        s1.len() == s2.len(),
        forall|i: int| 0 <= i < s1.len() && i != k ==> s1[i] == s2[i],
        0 <= k < s1.len(),
        s1[k] is InlineFragment,
        s2[k] is InlineFragment,
        s1[k]->InlineFragment_on_type == Some(tname),
        s2[k]->InlineFragment_on_type == Some(tname),
        !ctx.splice.contains(tname),
        ctx.skip.contains(tname),
        0 <= j <= s1.len(),
    ensures
        spec_resolve_sels(schema, ctx, s1.skip(j), acc) == spec_resolve_sels(
            schema,
            ctx,
            s2.skip(j),
            acc,
        ),
    decreases s1.len() - j,
{
    if j < s1.len() {
        assert(s1.skip(j).first() == s1[j]);
        assert(s2.skip(j).first() == s2[j]);
        assert(s1.skip(j).drop_first() =~= s1.skip(j + 1));
        assert(s2.skip(j).drop_first() =~= s2.skip(j + 1));
        let step1 = spec_resolve_step(schema, ctx, s1[j], acc);
        let step2 = spec_resolve_step(schema, ctx, s2[j], acc);
        if j == k {
            assert(step1 == Ok::<Seq<OutputEntryV>, ResolveErrorV>(acc));
            assert(step2 == Ok::<Seq<OutputEntryV>, ResolveErrorV>(acc));
        } else {
            assert(s1[j] == s2[j]);
        }
        assert(step1 == step2);
        if step1 is Ok {
            lemma_skipped_fragment_ignored(schema, ctx, s1, s2, k, tname, step1->Ok_0, j + 1);
        }
    } else {
        assert(s1.skip(j) =~= Seq::<SelectionV>::empty());
        assert(s2.skip(j) =~= Seq::<SelectionV>::empty());
    }
}

/// The fan-out walk never enters such a fragment's body either, as long
/// as its condition is not the context interface itself.
pub proof fn lemma_mentions_ignores_typed_body(
    s1: Seq<SelectionV>,
    s2: Seq<SelectionV>,
    k: int,
    tname: Seq<char>,
    iface: Seq<char>,
    c: Seq<char>,
    j: int,
)
    requires
        s1.len() == s2.len(),
        forall|i: int| 0 <= i < s1.len() && i != k ==> s1[i] == s2[i],
        0 <= k < s1.len(),
        s1[k] is InlineFragment,
        s2[k] is InlineFragment,
        s1[k]->InlineFragment_on_type == Some(tname),
        s2[k]->InlineFragment_on_type == Some(tname),
        tname != iface,
        0 <= j <= s1.len(),
    ensures
        spec_mentions(s1.skip(j), iface, c) == spec_mentions(s2.skip(j), iface, c),
    decreases s1.len() - j,
{
    if j < s1.len() {
        assert(s1.skip(j).first() == s1[j]);
        assert(s2.skip(j).first() == s2[j]);
        assert(s1.skip(j).drop_first() =~= s1.skip(j + 1));
        assert(s2.skip(j).drop_first() =~= s2.skip(j + 1));
        if j == k {
            assert(spec_sel_mentions(s1[j], iface, c) == (Some(tname) == Some(c)));
            assert(spec_sel_mentions(s2[j], iface, c) == (Some(tname) == Some(c)));
        } else {
            assert(s1[j] == s2[j]);
        }
        lemma_mentions_ignores_typed_body(s1, s2, k, tname, iface, c, j + 1);
    } else {
        assert(s1.skip(j) =~= Seq::<SelectionV>::empty());
        assert(s2.skip(j) =~= Seq::<SelectionV>::empty());
    }
}

/// Polymorphic isolation, in the removed-field form: change a query only
/// inside an inline fragment on concrete type `tname` (remove a field,
/// add one, anything), and every other concrete type's variant
/// resolution, the fan-out membership of every type, and the common part
/// that the fallback is built from are unchanged; only `tname`'s own
/// variant may differ.
pub proof fn lemma_removed_field_isolation(
    schema: SchemaModelV,
    iface: Seq<char>,
    ifields: Seq<crate::model::FieldDefV>,
    possible: Seq<Seq<char>>,
    s1: Seq<SelectionV>,
    s2: Seq<SelectionV>,
    k: int,
    tname: Seq<char>,
)
    requires
        s1.len() == s2.len(),
        forall|i: int| 0 <= i < s1.len() && i != k ==> s1[i] == s2[i],
        0 <= k < s1.len(),
        s1[k] is InlineFragment,
        s2[k] is InlineFragment,
        s1[k]->InlineFragment_on_type == Some(tname),
        s2[k]->InlineFragment_on_type == Some(tname),
        tname != iface,
        possible.contains(tname),
    ensures
        spec_resolve_sels(schema, common_ctx(iface, ifields, possible), s1, Seq::empty())
            == spec_resolve_sels(schema, common_ctx(iface, ifields, possible), s2, Seq::empty()),
        forall|c: Seq<char>| #[trigger] possible.contains(c) ==> spec_mentions(s1, iface, c)
            == spec_mentions(s2, iface, c),
        forall|c: Seq<char>, fields: Seq<crate::model::FieldDefV>, implements: Seq<Seq<char>>|
            possible.contains(c) && c != tname && !implements.contains(tname)
                ==> #[trigger] spec_resolve_sels(
                schema,
                variant_ctx(iface, c, fields, implements, possible),
                s1,
                Seq::empty(),
            ) == spec_resolve_sels(
                schema,
                variant_ctx(iface, c, fields, implements, possible),
                s2,
                Seq::empty(),
            ),
{
    assert(s1.skip(0) =~= s1);
    assert(s2.skip(0) =~= s2);
    let cc = common_ctx(iface, ifields, possible);
    assert(!cc.splice.contains(tname)) by {
        assert(cc.splice == seq![iface]);
        if cc.splice.contains(tname) {
            let w = choose|w: int| 0 <= w < cc.splice.len() && cc.splice[w] == tname;
            assert(cc.splice[w] == iface);
        }
    }
    lemma_skipped_fragment_ignored(schema, cc, s1, s2, k, tname, Seq::empty(), 0);
    assert forall|c: Seq<char>| #[trigger] possible.contains(c) implies spec_mentions(
        s1,
        iface,
        c,
    ) == spec_mentions(s2, iface, c) by {
        lemma_mentions_ignores_typed_body(s1, s2, k, tname, iface, c, 0);
    }
    assert forall|c: Seq<char>, fields: Seq<crate::model::FieldDefV>, implements: Seq<Seq<char>>|
        possible.contains(c) && c != tname && !implements.contains(tname) implies #[trigger] spec_resolve_sels(
        schema,
        variant_ctx(iface, c, fields, implements, possible),
        s1,
        Seq::empty(),
    ) == spec_resolve_sels(
        schema,
        variant_ctx(iface, c, fields, implements, possible),
        s2,
        Seq::empty(),
    ) by {
        let vc = variant_ctx(iface, c, fields, implements, possible);
        assert(!vc.splice.contains(tname)) by {
            assert(vc.splice == seq![c] + implements + seq![iface]);
            if vc.splice.contains(tname) {
                let w = choose|w: int| 0 <= w < vc.splice.len() && vc.splice[w] == tname;
                if w == 0 {
                    assert(vc.splice[w] == c);
                } else if w < 1 + implements.len() {
                    assert(vc.splice[w] == implements[w - 1]);
                    assert(implements.contains(tname));
                } else {
                    assert(vc.splice[w] == iface);
                }
            }
        }
        lemma_skipped_fragment_ignored(schema, vc, s1, s2, k, tname, Seq::empty(), 0);
    }
}

/// A list that expanded successfully expanded each of its selections.
pub proof fn lemma_expand_sels_ok_elements(
    lib: Seq<FragmentV>,
    s: Seq<SelectionV>,
    fuel: nat,
    i: int,
)
    requires
        spec_expand_sels(lib, s, fuel) is Ok,
        0 <= i < s.len(),
    ensures
        spec_expand_sel(lib, s[i], fuel) is Ok,
    decreases s.len(),
{
    if i == 0 {
        assert(s.first() == s[0]);
    } else {
        assert(s.drop_first()[i - 1] == s[i]);
        lemma_expand_sels_ok_elements(lib, s.drop_first(), fuel, i - 1);
    }
}

/// A cyclic spread chain: fragment `names[t]` spreads `names[t+1]`
/// somewhere in its body, and the last spreads the first again.
pub open spec fn chain_next(names: Seq<Seq<char>>, t: int) -> int {
    if t + 1 == names.len() {
        0
    } else {
        t + 1
    }
}

pub open spec fn cyclic_chain(lib: Seq<FragmentV>, names: Seq<Seq<char>>) -> bool {
    names.len() > 0 && forall|t: int|
        0 <= t < names.len() ==> {
            &&& (#[trigger] spec_frag_lookup(lib, names[t], 0)) is Some
            &&& exists|i: int|
                0 <= i < spec_frag_lookup(lib, names[t], 0)->0.sels.len()
                    && spec_frag_lookup(lib, names[t], 0)->0.sels[i] == (SelectionV::FragmentSpread {
                    name: names[chain_next(names, t)],
                })
        }
}

/// Cycle safety, in the transitive form: a spread of any fragment on a
/// cyclic spread chain never inlines, whatever the depth budget. With the
/// budget the library uses, the reported error is the cycle (or an
/// earlier fault of the same walk); it is never success, and expansion
/// terminates on every input by its decreasing measure.
pub proof fn lemma_chain_never_expands(
    lib: Seq<FragmentV>,
    names: Seq<Seq<char>>,
    t: int,
    fuel: nat,
)
    requires
        cyclic_chain(lib, names),
        0 <= t < names.len(),
    ensures
        spec_expand_sel(lib, SelectionV::FragmentSpread { name: names[t] }, fuel) is Err,
    decreases fuel,
{
    if fuel > 0 {
        let f = spec_frag_lookup(lib, names[t], 0)->0;
        let body = f.sels;
        let i = choose|i: int|
            0 <= i < body.len() && body[i] == (SelectionV::FragmentSpread {
                name: names[chain_next(names, t)],
            });
        if spec_expand_sels(lib, body, (fuel - 1) as nat) is Ok {
            lemma_expand_sels_ok_elements(lib, body, (fuel - 1) as nat, i);
            lemma_chain_never_expands(lib, names, chain_next(names, t), (fuel - 1) as nat);
        }
    }
}

/// The same at the document level: an operation that spreads a fragment
/// on a cyclic chain never expands successfully.
pub proof fn lemma_cyclic_operation_never_expands(
    lib: Seq<FragmentV>,
    names: Seq<Seq<char>>,
    t: int,
    opsels: Seq<SelectionV>,
    j: int,
)
    requires
        cyclic_chain(lib, names),
        0 <= t < names.len(),
        0 <= j < opsels.len(),
        opsels[j] == (SelectionV::FragmentSpread { name: names[t] }),
    ensures
        spec_expand(lib, opsels) is Err,
{
    if spec_expand_sels(lib, opsels, lib.len()) is Ok {
        lemma_expand_sels_ok_elements(lib, opsels, lib.len(), j);
        lemma_chain_never_expands(lib, names, t, lib.len());
    }
}

/// A polymorphic node's common entries always hold the discriminant:
/// whatever the query requested, an entry under the `__typename` response
/// key is present, so the tagged union the node synthesizes into can be
/// decoded.
pub proof fn lemma_polymorphic_has_discriminant(es: Seq<OutputEntryV>)
    ensures
        spec_find_key(spec_with_typename(es), "__typename"@, 0) is Some,
{
    if spec_find_key(es, "__typename"@, 0) is Some {
    } else {
        let extended = spec_with_typename(es);
        assert(extended[0] == crate::selection::implicit_typename_entry());
        assert(extended[0].key == "__typename"@);
    }
}

} // verus!

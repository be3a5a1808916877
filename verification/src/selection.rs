use vstd::prelude::*;

verus! {

use crate::ast::{
    Selection, SelectionV, copy_args, lemma_sels_size_index, lemma_sels_view, sel_size, sel_view,
    sels_size, sels_view,
};
use crate::fragments::{FragmentError, FragmentErrorV};
use crate::model::{
    FieldDef, FieldDefV, SchemaModel, SchemaModelV, SchemaType, SchemaTypeV, TypeRef, TypeRefV,
    base_name, copy_tref, field_view, fields_view, lookup_type, schema_view, spec_base_name,
    spec_lookup, tref_view,
};
use crate::output::{
    OutputEntry, OutputEntryV, OutputField, OutputFieldV, OutputNode, OutputNodeV, OutputVariant,
    OutputVariantV, lemma_oentries_view, lemma_oentries_view_push, lemma_ovariants_view_push,
    oentries_view, oentry_eq, oentry_view, ofield_view, onode_view, ovariant_view,
    ovariants_view,
};
use crate::util::{cons_names, contains_name, push_name, str_eq};

// ---------------------------------------------------------------------------
// Selection resolution: matching an inlined selection set against a schema
// type, producing the result tree.
//
// A selection list is walked against a context made of the type's own
// fields, the interfaces it implements (for field lookup), the type
// conditions an inline fragment may splice under, and those it may be
// silently skipped under. Concrete object types splice fragments on
// themselves and on their interfaces; an interface or union resolves its
// direct fields as the common part, then fans out one variant per possible
// concrete type the query names in a fragment.
// ---------------------------------------------------------------------------

/// Why a selection could not be resolved.
#[derive(Debug)]
pub enum SelectionError {
    UnknownField { tyname: String, field: String },
    AliasConflict { key: String },
    InvalidFragmentTarget { on_type: String },
}

pub enum SelectionErrorV {
    UnknownField { tyname: Seq<char>, field: Seq<char> },
    AliasConflict { key: Seq<char> },
    InvalidFragmentTarget { on_type: Seq<char> },
}

pub open spec fn serr_view(e: SelectionError) -> SelectionErrorV {
    match e {
        SelectionError::UnknownField { tyname, field } => SelectionErrorV::UnknownField {
            tyname: tyname@,
            field: field@,
        },
        SelectionError::AliasConflict { key } => SelectionErrorV::AliasConflict { key: key@ },
        SelectionError::InvalidFragmentTarget { on_type } => SelectionErrorV::InvalidFragmentTarget {
            on_type: on_type@,
        },
    }
}

/// Everything resolution can fail with: a selection fault, or a fragment
/// fault found only once the spread's target type is known.
#[derive(Debug)]
pub enum ResolveError {
    Selection(SelectionError),
    Fragment(FragmentError),
}

pub enum ResolveErrorV {
    Selection(SelectionErrorV),
    Fragment(FragmentErrorV),
}

pub open spec fn rerr_view(e: ResolveError) -> ResolveErrorV {
    match e {
        ResolveError::Selection(s) => ResolveErrorV::Selection(serr_view(s)),
        ResolveError::Fragment(f) => ResolveErrorV::Fragment(crate::fragments::ferr_view(f)),
    }
}

/// The resolution context of one walk over a selection list. An inline
/// fragment whose condition is in `splice` contributes its body here; one
/// whose condition is in `skip` belongs to another concrete type's
/// fan-out and contributes nothing; any other condition is an error.
pub struct CtxV {
    pub tyname: Seq<char>,
    pub fields: Seq<FieldDefV>,
    pub implements: Seq<Seq<char>>,
    pub splice: Seq<Seq<char>>,
    pub skip: Seq<Seq<char>>,
}

pub open spec fn obj_ctx(name: Seq<char>, fields: Seq<FieldDefV>, implements: Seq<Seq<char>>) -> CtxV {
    CtxV {
        tyname: name,
        fields,
        implements,
        splice: seq![name] + implements,
        skip: Seq::empty(),
    }
}

pub open spec fn input_ctx(name: Seq<char>, fields: Seq<FieldDefV>) -> CtxV {
    CtxV {
        tyname: name,
        fields,
        implements: Seq::empty(),
        splice: seq![name],
        skip: Seq::empty(),
    }
}

pub open spec fn common_ctx(name: Seq<char>, fields: Seq<FieldDefV>, possible: Seq<Seq<char>>) -> CtxV {
    CtxV {
        tyname: name,
        fields,
        implements: Seq::empty(),
        splice: seq![name],
        skip: possible,
    }
}

pub open spec fn variant_ctx(
    iface: Seq<char>,
    name: Seq<char>,
    fields: Seq<FieldDefV>,
    implements: Seq<Seq<char>>,
    possible: Seq<Seq<char>>,
) -> CtxV {
    CtxV {
        tyname: name,
        fields,
        implements,
        splice: seq![name] + implements + seq![iface],
        skip: possible,
    }
}

/// The discriminant field's resolved shape: a non-null built-in string.
pub open spec fn typename_field() -> OutputFieldV {
    OutputFieldV {
        ty: TypeRefV::NonNull(Box::new(TypeRefV::Named("String"@))),
        node: OutputNodeV::Leaf { tyname: "String"@ },
    }
}

/// The discriminant entry a polymorphic node implicitly carries, so that
/// its tagged union can always be decoded.
pub open spec fn implicit_typename_entry() -> OutputEntryV {
    OutputEntryV {
        key: "__typename"@,
        fname: "__typename"@,
        args: Seq::empty(),
        field: typename_field(),
    }
}

// ---------------------------------------------------------------------------
// Field lookup: a field selected on a type must be declared on the type
// itself or on one of the interfaces it implements.
// ---------------------------------------------------------------------------

pub open spec fn spec_find_field_own(fields: Seq<FieldDefV>, n: Seq<char>, i: int) -> Option<
    FieldDefV,
>
    decreases fields.len() - i,
{
    if i < 0 || i >= fields.len() {
        None
    } else if fields[i].name == n {
        Some(fields[i])
    } else {
        spec_find_field_own(fields, n, i + 1)
    }
}

pub open spec fn spec_find_field_via(
    schema: SchemaModelV,
    implements: Seq<Seq<char>>,
    n: Seq<char>,
    i: int,
) -> Option<FieldDefV>
    decreases implements.len() - i,
{
    if i < 0 || i >= implements.len() {
        None
    } else {
        let here = match spec_lookup(schema, implements[i]) {
            Some(SchemaTypeV::Interface { fields, .. }) => spec_find_field_own(fields, n, 0),
            _ => None,
        };
        match here {
            Some(f) => Some(f),
            None => spec_find_field_via(schema, implements, n, i + 1),
        }
    }
}

pub open spec fn spec_find_field(
    schema: SchemaModelV,
    fields: Seq<FieldDefV>,
    implements: Seq<Seq<char>>,
    n: Seq<char>,
) -> Option<FieldDefV> {
    match spec_find_field_own(fields, n, 0) {
        Some(f) => Some(f),
        None => spec_find_field_via(schema, implements, n, 0),
    }
}

pub fn find_field_own<'a>(fields: &'a Vec<FieldDef>, n: &str) -> (r: Option<&'a FieldDef>)
    ensures
        match r {
            Some(f) => spec_find_field_own(fields_view(fields@), n@, 0) == Some(field_view(*f)),
            None => spec_find_field_own(fields_view(fields@), n@, 0) is None,
        },
{
    let ghost fv = fields_view(fields@);
    let mut i: usize = 0;
    while i < fields.len()
        invariant
            0 <= i <= fields.len(),
            fv == fields_view(fields@),
            spec_find_field_own(fv, n@, 0) == spec_find_field_own(fv, n@, i as int),
        decreases fields.len() - i,
    {
        if str_eq(fields[i].name.as_str(), n) {
            return Some(&fields[i]);
        }
        i = i + 1;
    }
    None
}

pub fn find_field<'a>(
    schema: &'a SchemaModel,
    fields: &'a Vec<FieldDef>,
    implements: &Vec<String>,
    n: &str,
) -> (r: Option<&'a FieldDef>)
    ensures
        match r {
            Some(f) => spec_find_field(
                schema_view(*schema),
                fields_view(fields@),
                implements.deep_view(),
                n@,
            ) == Some(field_view(*f)),
            None => spec_find_field(
                schema_view(*schema),
                fields_view(fields@),
                implements.deep_view(),
                n@,
            ) is None,
        },
{
    let own = find_field_own(fields, n);
    match own {
        Some(f) => Some(f),
        None => {
            let ghost sv = schema_view(*schema);
            let ghost imps = implements.deep_view();
            let mut i: usize = 0;
            while i < implements.len()
                invariant
                    0 <= i <= implements.len(),
                    sv == schema_view(*schema),
                    imps == implements.deep_view(),
                    spec_find_field_own(fields_view(fields@), n@, 0) is None,
                    spec_find_field_via(sv, imps, n@, 0) == spec_find_field_via(
                        sv,
                        imps,
                        n@,
                        i as int,
                    ),
                decreases implements.len() - i,
            {
                match lookup_type(schema, implements[i].as_str()) {
                    Some(t) => match t {
                        SchemaType::Interface { fields: ifields, .. } => {
                            match find_field_own(ifields, n) {
                                Some(f) => {
                                    return Some(f);
                                },
                                None => {},
                            }
                        },
                        _ => {},
                    },
                    None => {},
                }
                i = i + 1;
            }
            None
        },
    }
}

// ---------------------------------------------------------------------------
// Response-key merging: a duplicate key is merged when the shapes agree
// exactly, and an alias conflict otherwise.
// ---------------------------------------------------------------------------

pub open spec fn spec_find_key(acc: Seq<OutputEntryV>, key: Seq<char>, i: int) -> Option<int>
    decreases acc.len() - i,
{
    if i < 0 || i >= acc.len() {
        None
    } else if acc[i].key == key {
        Some(i)
    } else {
        spec_find_key(acc, key, i + 1)
    }
}

/// Fold one resolved entry into the accumulator. A duplicate response
/// key merges only when the two requests are identical — same field, same
/// arguments, same nested shape — per the response-shape merging rule;
/// anything else under one key is an alias conflict.
pub open spec fn spec_add_entry(acc: Seq<OutputEntryV>, e: OutputEntryV) -> Result<
    Seq<OutputEntryV>,
    ResolveErrorV,
> {
    match spec_find_key(acc, e.key, 0) {
        None => Ok(acc.push(e)),
        Some(j) => if acc[j] == e {
            Ok(acc)
        } else {
            Err(ResolveErrorV::Selection(SelectionErrorV::AliasConflict { key: e.key }))
        },
    }
}

pub fn add_entry(acc: Vec<OutputEntry>, e: OutputEntry) -> (r: Result<
    Vec<OutputEntry>,
    ResolveError,
>)
    ensures
        ({
            let s = spec_add_entry(oentries_view(acc@), oentry_view(e));
            match r {
                Ok(v) => s == Ok::<Seq<OutputEntryV>, ResolveErrorV>(oentries_view(v@)),
                Err(err) => s == Err::<Seq<OutputEntryV>, ResolveErrorV>(rerr_view(err)),
            }
        }),
{
    let ghost av = oentries_view(acc@);
    proof {
        lemma_oentries_view(acc@);
    }
    let mut i: usize = 0;
    while i < acc.len()
        invariant
            0 <= i <= acc.len(),
            av == oentries_view(acc@),
            av.len() == acc@.len(),
            forall|j: int| 0 <= j < acc@.len() ==> av[j] == oentry_view(acc@[j]),
            spec_find_key(av, oentry_view(e).key, 0) == spec_find_key(
                av,
                oentry_view(e).key,
                i as int,
            ),
        decreases acc.len() - i,
    {
        if str_eq(acc[i].key.as_str(), e.key.as_str()) {
            let same = oentry_eq(&acc[i], &e);
            if same {
                proof {
                    assert(av[i as int] == oentry_view(e));
                }
                return Ok(acc);
            } else {
                proof {
                    assert(av[i as int] != oentry_view(e));
                }
                return Err(
                    ResolveError::Selection(SelectionError::AliasConflict { key: e.key }),
                );
            }
        }
        i = i + 1;
    }
    let ghost before = acc@;
    let mut out = acc;
    proof {
        lemma_oentries_view_push(before, e);
    }
    out.push(e);
    Ok(out)
}

// ---------------------------------------------------------------------------
// Variant fan-out: which possible concrete types the query names.
// ---------------------------------------------------------------------------

/// Whether one selection names concrete type `c`, looking through
/// fragments conditioned on the context interface itself.
pub open spec fn spec_sel_mentions(s: SelectionV, iface: Seq<char>, c: Seq<char>) -> bool
    decreases sel_size(s), 0nat, 0nat,
{
    match s {
        SelectionV::InlineFragment { on_type, origin, sels: body } => on_type == Some(c) || ((
        on_type is None || on_type == Some(iface)) && spec_mentions(body, iface, c)),
        _ => false,
    }
}

/// Whether the list carries an inline fragment on concrete type `c`.
pub open spec fn spec_mentions(sels: Seq<SelectionV>, iface: Seq<char>, c: Seq<char>) -> bool
    decreases sels_size(sels), 0nat, sels.len(),
{
    if sels.len() == 0 {
        false
    } else {
        spec_sel_mentions(sels.first(), iface, c) || spec_mentions(sels.drop_first(), iface, c)
    }
}

pub fn mentions(sels: &Vec<Selection>, iface: &str, c: &str) -> (r: bool)
    ensures
        r == spec_mentions(sels_view(sels@), iface@, c@),
    decreases sels_size(sels_view(sels@)), 0nat, 1nat,
{
    let ghost vs = sels_view(sels@);
    proof {
        lemma_sels_view(sels@);
        assert(vs.skip(0) =~= vs);
    }
    let mut i: usize = 0;
    while i < sels.len()
        invariant
            0 <= i <= sels.len(),
            vs == sels_view(sels@),
            vs.len() == sels@.len(),
            forall|j: int| 0 <= j < vs.len() ==> vs[j] == sel_view(sels@[j]),
            spec_mentions(vs, iface@, c@) == spec_mentions(vs.skip(i as int), iface@, c@),
        decreases sels.len() - i,
    {
        proof {
            assert(vs[i as int] == sel_view(sels@[i as int]));
            assert(vs.skip(i as int).first() == vs[i as int]);
            assert(vs.skip(i as int).drop_first() =~= vs.skip(i as int + 1));
            lemma_sels_size_index(vs, i as int);
        }
        match &sels[i] {
            Selection::InlineFragment { on_type, origin: _, sels: body } => {
                match on_type {
                    Some(t) => {
                        if str_eq(t.as_str(), c) {
                            proof {
                                assert(sels@[i as int] is InlineFragment);
                                assert(vs[i as int] is InlineFragment);
                                assert(vs[i as int]->InlineFragment_on_type == Some(c@));
                                assert(spec_sel_mentions(vs[i as int], iface@, c@));
                                assert(spec_mentions(vs.skip(i as int), iface@, c@));
                            }
                            return true;
                        }
                        if str_eq(t.as_str(), iface) {
                            if mentions(body, iface, c) {
                                proof {
                                    assert(spec_sel_mentions(vs[i as int], iface@, c@));
                                    assert(spec_mentions(vs.skip(i as int), iface@, c@));
                                }
                                return true;
                            }
                        }
                    },
                    None => {
                        if mentions(body, iface, c) {
                            proof {
                                assert(spec_sel_mentions(vs[i as int], iface@, c@));
                                assert(spec_mentions(vs.skip(i as int), iface@, c@));
                            }
                            return true;
                        }
                    },
                }
            },
            _ => {},
        }
        proof {
            assert(!spec_sel_mentions(vs[i as int], iface@, c@));
            assert(spec_mentions(vs.skip(i as int), iface@, c@) == spec_mentions(
                vs.skip(i as int + 1),
                iface@,
                c@,
            ));
        }
        i = i + 1;
    }
    false
}

// ---------------------------------------------------------------------------
// The resolver.
// ---------------------------------------------------------------------------

/// What resolving one selection folds into the accumulator.
pub open spec fn spec_resolve_step(
    schema: SchemaModelV,
    ctx: CtxV,
    s: SelectionV,
    acc: Seq<OutputEntryV>,
) -> Result<Seq<OutputEntryV>, ResolveErrorV>
    decreases sel_size(s), 0nat, 0nat,
{
    match s {
        SelectionV::Field { alias, name, args, sels: subsels } => {
            let key = match alias {
                Some(a) => a,
                None => name,
            };
            if name == "__typename"@ {
                spec_add_entry(acc, OutputEntryV { key, fname: name, args, field: typename_field() })
            } else {
                match spec_find_field(schema, ctx.fields, ctx.implements, name) {
                    None => Err(
                        ResolveErrorV::Selection(
                            SelectionErrorV::UnknownField { tyname: ctx.tyname, field: name },
                        ),
                    ),
                    Some(fd) => match spec_resolve_type(schema, spec_base_name(fd.ty), subsels) {
                        Err(e) => Err(e),
                        Ok(node) => spec_add_entry(
                            acc,
                            OutputEntryV {
                                key,
                                fname: name,
                                args,
                                field: OutputFieldV { ty: fd.ty, node },
                            },
                        ),
                    },
                }
            }
        },
        SelectionV::FragmentSpread { name } => Err(
            ResolveErrorV::Fragment(FragmentErrorV::Undefined { name }),
        ),
        SelectionV::InlineFragment { on_type, origin, sels: body } => {
            if on_type is None || ctx.splice.contains(on_type->0) {
                spec_resolve_sels(schema, ctx, body, acc)
            } else if ctx.skip.contains(on_type->0) {
                Ok(acc)
            } else {
                match origin {
                    Some(fname) => Err(
                        ResolveErrorV::Fragment(
                            FragmentErrorV::TypeConditionMismatch {
                                name: fname,
                                on_type: on_type->0,
                            },
                        ),
                    ),
                    None => Err(
                        ResolveErrorV::Selection(
                            SelectionErrorV::InvalidFragmentTarget { on_type: on_type->0 },
                        ),
                    ),
                }
            }
        },
    }
}

/// Resolve a selection list against the context, folding entries into
/// `acc` in source order. Selections must already be spread-free.
pub open spec fn spec_resolve_sels(
    schema: SchemaModelV,
    ctx: CtxV,
    sels: Seq<SelectionV>,
    acc: Seq<OutputEntryV>,
) -> Result<Seq<OutputEntryV>, ResolveErrorV>
    decreases sels_size(sels), 1nat, sels.len(),
{
    if sels.len() == 0 {
        Ok(acc)
    } else {
        match spec_resolve_step(schema, ctx, sels.first(), acc) {
            Err(e) => Err(e),
            Ok(acc2) => spec_resolve_sels(schema, ctx, sels.drop_first(), acc2),
        }
    }
}

/// The common entries of a polymorphic node, with the discriminant made
/// explicit: if the query did not request `__typename` under its own
/// name, the entry is prepended, because decoding the tagged union is
/// impossible without it.
pub open spec fn spec_with_typename(es: Seq<OutputEntryV>) -> Seq<OutputEntryV> {
    if spec_find_key(es, "__typename"@, 0) is Some {
        es
    } else {
        seq![implicit_typename_entry()] + es
    }
}

/// Resolve a selection list against the named schema type. A name the
/// schema does not define is treated as an opaque custom scalar.
pub open spec fn spec_resolve_type(
    schema: SchemaModelV,
    tyname: Seq<char>,
    sels: Seq<SelectionV>,
) -> Result<OutputNodeV, ResolveErrorV>
    decreases sels_size(sels), 3nat, 0nat,
{
    match spec_lookup(schema, tyname) {
        Some(SchemaTypeV::Object { name, fields, implements }) => match spec_resolve_sels(
            schema,
            obj_ctx(name, fields, implements),
            sels,
            Seq::empty(),
        ) {
            Ok(entries) => Ok(OutputNodeV::Object { entries }),
            Err(e) => Err(e),
        },
        Some(SchemaTypeV::InputObject { name, fields }) => match spec_resolve_sels(
            schema,
            input_ctx(name, fields),
            sels,
            Seq::empty(),
        ) {
            Ok(entries) => Ok(OutputNodeV::Object { entries }),
            Err(e) => Err(e),
        },
        Some(SchemaTypeV::Interface { name, fields, possible }) => match spec_resolve_sels(
            schema,
            common_ctx(name, fields, possible),
            sels,
            Seq::empty(),
        ) {
            Err(e) => Err(e),
            Ok(common) => match spec_resolve_variants(schema, name, possible, sels, 0) {
                Err(e) => Err(e),
                Ok(variants) => Ok(
                    OutputNodeV::Polymorphic { common: spec_with_typename(common), variants },
                ),
            },
        },
        Some(SchemaTypeV::Union { name, possible }) => match spec_resolve_sels(
            schema,
            common_ctx(name, Seq::empty(), possible),
            sels,
            Seq::empty(),
        ) {
            Err(e) => Err(e),
            Ok(common) => match spec_resolve_variants(schema, name, possible, sels, 0) {
                Err(e) => Err(e),
                Ok(variants) => Ok(
                    OutputNodeV::Polymorphic { common: spec_with_typename(common), variants },
                ),
            },
        },
        _ => Ok(OutputNodeV::Leaf { tyname }),
    }
}

/// One variant per possible concrete type the query names, in the
/// schema's order of possible types.
pub open spec fn spec_resolve_variants(
    schema: SchemaModelV,
    iface: Seq<char>,
    possible: Seq<Seq<char>>,
    sels: Seq<SelectionV>,
    i: int,
) -> Result<Seq<OutputVariantV>, ResolveErrorV>
    decreases sels_size(sels), 2nat, possible.len() - i,
{
    if i < 0 || i >= possible.len() {
        Ok(Seq::empty())
    } else if spec_mentions(sels, iface, possible[i]) {
        match spec_lookup(schema, possible[i]) {
            Some(SchemaTypeV::Object { name, fields, implements }) => match spec_resolve_sels(
                schema,
                variant_ctx(iface, name, fields, implements, possible),
                sels,
                Seq::empty(),
            ) {
                Err(e) => Err(e),
                Ok(entries) => match spec_resolve_variants(schema, iface, possible, sels, i + 1) {
                    Err(e) => Err(e),
                    Ok(rest) => Ok(seq![OutputVariantV { tyname: possible[i], entries }] + rest),
                },
            },
            _ => spec_resolve_variants(schema, iface, possible, sels, i + 1),
        }
    } else {
        spec_resolve_variants(schema, iface, possible, sels, i + 1)
    }
}

/// How the variants gathered so far relate to the whole fan-out.
pub open spec fn variants_continues(
    full: Result<Seq<OutputVariantV>, ResolveErrorV>,
    done: Seq<OutputVariantV>,
    rest: Result<Seq<OutputVariantV>, ResolveErrorV>,
) -> bool {
    match rest {
        Ok(r) => full == Ok::<Seq<OutputVariantV>, ResolveErrorV>(done + r),
        Err(e) => full == Err::<Seq<OutputVariantV>, ResolveErrorV>(e),
    }
}

/// Make the discriminant explicit in a polymorphic node's common
/// entries.
pub fn with_typename(es: Vec<OutputEntry>) -> (r: Vec<OutputEntry>)
    ensures
        oentries_view(r@) == spec_with_typename(oentries_view(es@)),
{
    let ghost ev = oentries_view(es@);
    proof {
        lemma_oentries_view(es@);
    }
    let mut i: usize = 0;
    while i < es.len()
        invariant
            0 <= i <= es.len(),
            ev == oentries_view(es@),
            ev.len() == es@.len(),
            forall|j: int| 0 <= j < ev.len() ==> ev[j] == oentry_view(es@[j]),
            spec_find_key(ev, "__typename"@, 0) == spec_find_key(ev, "__typename"@, i as int),
        decreases es.len() - i,
    {
        if str_eq(es[i].key.as_str(), "__typename") {
            return es;
        }
        i = i + 1;
    }
    let tn = OutputEntry {
        key: String::from_str("__typename"),
        fname: String::from_str("__typename"),
        args: Vec::new(),
        field: OutputField {
            ty: TypeRef::NonNull(Box::new(TypeRef::Named(String::from_str("String")))),
            node: OutputNode::Leaf { tyname: String::from_str("String") },
        },
    };
    proof {
        reveal_with_fuel(crate::model::tref_view, 3);
        assert(crate::ast::args_view(Seq::<crate::ast::Argument>::empty())
            =~= Seq::<crate::ast::ArgumentV>::empty());
        assert(oentry_view(tn) == implicit_typename_entry());
    }
    let mut out: Vec<OutputEntry> = Vec::new();
    out.push(tn);
    let mut rest = es;
    out.append(&mut rest);
    proof {
        lemma_oentries_view(out@);
        assert(oentries_view(out@) =~= seq![implicit_typename_entry()] + ev);
    }
    out
}

pub fn resolve_sels(
    schema: &SchemaModel,
    tyname: &String,
    fields: &Vec<FieldDef>,
    implements: &Vec<String>,
    splice: &Vec<String>,
    skip: &Vec<String>,
    sels: &Vec<Selection>,
    acc: Vec<OutputEntry>,
) -> (r: Result<Vec<OutputEntry>, ResolveError>)
    ensures
        ({
            let ctx = (CtxV {
                tyname: tyname@,
                fields: fields_view(fields@),
                implements: implements.deep_view(),
                splice: splice.deep_view(),
                skip: skip.deep_view(),
            });
            let s = spec_resolve_sels(
                schema_view(*schema),
                ctx,
                sels_view(sels@),
                oentries_view(acc@),
            );
            match r {
                Ok(v) => s == Ok::<Seq<OutputEntryV>, ResolveErrorV>(oentries_view(v@)),
                Err(e) => s == Err::<Seq<OutputEntryV>, ResolveErrorV>(rerr_view(e)),
            }
        }),
    decreases sels_size(sels_view(sels@)), 1nat, 0nat,
{
    let ghost ctx = (CtxV {
        tyname: tyname@,
        fields: fields_view(fields@),
        implements: implements.deep_view(),
        splice: splice.deep_view(),
        skip: skip.deep_view(),
    });
    let ghost sv = schema_view(*schema);
    let ghost vs = sels_view(sels@);
    let ghost acc0 = oentries_view(acc@);
    proof {
        lemma_sels_view(sels@);
        assert(vs.skip(0) =~= vs);
    }
    let mut cur = acc;
    let mut i: usize = 0;
    while i < sels.len()
        invariant
            0 <= i <= sels.len(),
            sv == schema_view(*schema),
            vs == sels_view(sels@),
            vs.len() == sels@.len(),
            forall|j: int| 0 <= j < vs.len() ==> vs[j] == sel_view(sels@[j]),
            ctx == (CtxV {
                tyname: tyname@,
                fields: fields_view(fields@),
                implements: implements.deep_view(),
                splice: splice.deep_view(),
                skip: skip.deep_view(),
            }),
            acc0 == oentries_view(acc@),
            spec_resolve_sels(sv, ctx, vs, acc0) == spec_resolve_sels(
                sv,
                ctx,
                vs.skip(i as int),
                oentries_view(cur@),
            ),
        decreases sels.len() - i,
    {
        let ghost curv = oentries_view(cur@);
        proof {
            assert(vs[i as int] == sel_view(sels@[i as int]));
            assert(vs.skip(i as int).first() == vs[i as int]);
            assert(vs.skip(i as int).drop_first() =~= vs.skip(i as int + 1));
            lemma_sels_size_index(vs, i as int);
            assert(spec_resolve_sels(sv, ctx, vs.skip(i as int), curv) == (match spec_resolve_step(
                sv,
                ctx,
                vs[i as int],
                curv,
            ) {
                Err(e) => Err::<Seq<OutputEntryV>, ResolveErrorV>(e),
                Ok(a2) => spec_resolve_sels(sv, ctx, vs.skip(i as int + 1), a2),
            }));
        }
        match &sels[i] {
            Selection::Field { alias, name, args, sels: subsels } => {
                let key: String = match alias {
                    Some(a) => a.clone(),
                    None => name.clone(),
                };
                let ghost kv = key@;
                proof {
                    assert(kv == (match vs[i as int]->Field_alias {
                        Some(a) => a,
                        None => vs[i as int]->Field_name,
                    }));
                }
                let resolved: OutputEntry = if str_eq(name.as_str(), "__typename") {
                    let e = OutputEntry {
                        key,
                        fname: name.clone(),
                        args: copy_args(args),
                        field: OutputField {
                            ty: TypeRef::NonNull(
                                Box::new(TypeRef::Named(String::from_str("String"))),
                            ),
                            node: OutputNode::Leaf { tyname: String::from_str("String") },
                        },
                    };
                    proof {
                        reveal_with_fuel(crate::model::tref_view, 3);
                        assert(oentry_view(e).field == typename_field());
                    }
                    e
                } else {
                    match find_field(schema, fields, implements, name.as_str()) {
                        None => {
                            let e = ResolveError::Selection(
                                SelectionError::UnknownField {
                                    tyname: tyname.clone(),
                                    field: name.clone(),
                                },
                            );
                            proof {
                                assert(spec_resolve_step(sv, ctx, vs[i as int], curv) == Err::<
                                    Seq<OutputEntryV>,
                                    ResolveErrorV,
                                >(rerr_view(e)));
                            }
                            return Err(e);
                        },
                        Some(fdef) => {
                            let bn = base_name(&fdef.ty);
                            match resolve_type(schema, bn.as_str(), subsels) {
                                Err(e) => {
                                    proof {
                                        assert(spec_resolve_step(sv, ctx, vs[i as int], curv)
                                            == Err::<Seq<OutputEntryV>, ResolveErrorV>(
                                            rerr_view(e),
                                        ));
                                    }
                                    return Err(e);
                                },
                                Ok(node) => {
                                    let fe = OutputEntry {
                                        key,
                                        fname: name.clone(),
                                        args: copy_args(args),
                                        field: OutputField { ty: copy_tref(&fdef.ty), node },
                                    };
                                    proof {
                                        assert(oentry_view(fe).key == kv);
                                        assert(oentry_view(fe).field.ty == field_view(*fdef).ty);
                                    }
                                    fe
                                },
                            }
                        },
                    }
                };
                proof {
                    assert(spec_resolve_step(sv, ctx, vs[i as int], curv) == spec_add_entry(
                        curv,
                        oentry_view(resolved),
                    ));
                }
                match add_entry(cur, resolved) {
                    Err(e) => {
                        return Err(e);
                    },
                    Ok(c2) => {
                        cur = c2;
                    },
                }
            },
            Selection::FragmentSpread { name } => {
                let e = ResolveError::Fragment(FragmentError::Undefined { name: name.clone() });
                proof {
                    assert(spec_resolve_step(sv, ctx, vs[i as int], curv) == Err::<
                        Seq<OutputEntryV>,
                        ResolveErrorV,
                    >(rerr_view(e)));
                }
                return Err(e);
            },
            Selection::InlineFragment { on_type, origin, sels: body } => {
                let spliceable: bool = match on_type {
                    None => true,
                    Some(t) => contains_name(splice, t.as_str()),
                };
                if spliceable {
                    proof {
                        assert(spec_resolve_step(sv, ctx, vs[i as int], curv)
                            == spec_resolve_sels(sv, ctx, sels_view(body@), curv));
                    }
                    match resolve_sels(
                        schema,
                        tyname,
                        fields,
                        implements,
                        splice,
                        skip,
                        body,
                        cur,
                    ) {
                        Err(e) => {
                            return Err(e);
                        },
                        Ok(c2) => {
                            cur = c2;
                        },
                    }
                } else {
                    match on_type {
                        None => {
                            // never reached: a conditionless fragment always splices
                            return Err(
                                ResolveError::Selection(
                                    SelectionError::InvalidFragmentTarget {
                                        on_type: String::new(),
                                    },
                                ),
                            );
                        },
                        Some(t) => {
                            if contains_name(skip, t.as_str()) {
                                proof {
                                    assert(spec_resolve_step(sv, ctx, vs[i as int], curv) == Ok::<
                                        Seq<OutputEntryV>,
                                        ResolveErrorV,
                                    >(curv));
                                }
                            } else {
                                match origin {
                                    Some(o) => {
                                        let e = ResolveError::Fragment(
                                            FragmentError::TypeConditionMismatch {
                                                name: o.clone(),
                                                on_type: t.clone(),
                                            },
                                        );
                                        proof {
                                            assert(spec_resolve_step(sv, ctx, vs[i as int], curv)
                                                == Err::<Seq<OutputEntryV>, ResolveErrorV>(
                                                rerr_view(e),
                                            ));
                                        }
                                        return Err(e);
                                    },
                                    None => {
                                        let e = ResolveError::Selection(
                                            SelectionError::InvalidFragmentTarget {
                                                on_type: t.clone(),
                                            },
                                        );
                                        proof {
                                            assert(spec_resolve_step(sv, ctx, vs[i as int], curv)
                                                == Err::<Seq<OutputEntryV>, ResolveErrorV>(
                                                rerr_view(e),
                                            ));
                                        }
                                        return Err(e);
                                    },
                                }
                            }
                        },
                    }
                }
            },
        }
        i = i + 1;
    }
    proof {
        assert(vs.skip(i as int) =~= Seq::<SelectionV>::empty());
    }
    Ok(cur)
}

/// Resolve a spread-free selection list against the named schema type.
pub fn resolve_type(schema: &SchemaModel, tyname: &str, sels: &Vec<Selection>) -> (r: Result<
    OutputNode,
    ResolveError,
>)
    ensures
        ({
            let s = spec_resolve_type(schema_view(*schema), tyname@, sels_view(sels@));
            match r {
                Ok(n) => s == Ok::<OutputNodeV, ResolveErrorV>(onode_view(n)),
                Err(e) => s == Err::<OutputNodeV, ResolveErrorV>(rerr_view(e)),
            }
        }),
    decreases sels_size(sels_view(sels@)), 3nat, 0nat,
{
    let ghost sv = schema_view(*schema);
    match lookup_type(schema, tyname) {
        None => Ok(OutputNode::Leaf { tyname: tyname.to_owned() }),
        Some(t) => match t {
            SchemaType::Scalar { .. } => Ok(OutputNode::Leaf { tyname: tyname.to_owned() }),
            SchemaType::Enum { .. } => Ok(OutputNode::Leaf { tyname: tyname.to_owned() }),
            SchemaType::Object { name, fields, implements } => {
                let splice = cons_names(name, implements);
                let skipv: Vec<String> = Vec::new();
                proof {
                    assert(skipv.deep_view() =~= Seq::<Seq<char>>::empty());
                    assert(oentries_view(Seq::<OutputEntry>::empty()) =~= Seq::<
                        OutputEntryV,
                    >::empty());
                }
                match resolve_sels(
                    schema,
                    name,
                    fields,
                    implements,
                    &splice,
                    &skipv,
                    sels,
                    Vec::new(),
                ) {
                    Ok(entries) => Ok(OutputNode::Object { entries }),
                    Err(e) => Err(e),
                }
            },
            SchemaType::InputObject { name, fields } => {
                let no_names: Vec<String> = Vec::new();
                let splice = cons_names(name, &no_names);
                proof {
                    assert(no_names.deep_view() =~= Seq::<Seq<char>>::empty());
                    assert(splice.deep_view() =~= seq![name@]);
                    assert(oentries_view(Seq::<OutputEntry>::empty()) =~= Seq::<
                        OutputEntryV,
                    >::empty());
                }
                match resolve_sels(
                    schema,
                    name,
                    fields,
                    &no_names,
                    &splice,
                    &no_names,
                    sels,
                    Vec::new(),
                ) {
                    Ok(entries) => Ok(OutputNode::Object { entries }),
                    Err(e) => Err(e),
                }
            },
            SchemaType::Interface { name, fields, possible } => {
                let no_names: Vec<String> = Vec::new();
                let splice = cons_names(name, &no_names);
                proof {
                    assert(no_names.deep_view() =~= Seq::<Seq<char>>::empty());
                    assert(splice.deep_view() =~= seq![name@]);
                    assert(oentries_view(Seq::<OutputEntry>::empty()) =~= Seq::<
                        OutputEntryV,
                    >::empty());
                }
                let common = match resolve_sels(
                    schema,
                    name,
                    fields,
                    &no_names,
                    &splice,
                    possible,
                    sels,
                    Vec::new(),
                ) {
                    Err(e) => {
                        return Err(e);
                    },
                    Ok(c) => c,
                };
                let variants = match resolve_variants(schema, name, possible, sels) {
                    Err(e) => {
                        return Err(e);
                    },
                    Ok(v) => v,
                };
                let common = with_typename(common);
                Ok(OutputNode::Polymorphic { common, variants })
            },
            SchemaType::Union { name, possible } => {
                let no_names: Vec<String> = Vec::new();
                let no_fields: Vec<FieldDef> = Vec::new();
                let splice = cons_names(name, &no_names);
                proof {
                    assert(no_names.deep_view() =~= Seq::<Seq<char>>::empty());
                    assert(splice.deep_view() =~= seq![name@]);
                    assert(fields_view(no_fields@) =~= Seq::<FieldDefV>::empty());
                    assert(oentries_view(Seq::<OutputEntry>::empty()) =~= Seq::<
                        OutputEntryV,
                    >::empty());
                }
                let common = match resolve_sels(
                    schema,
                    name,
                    &no_fields,
                    &no_names,
                    &splice,
                    possible,
                    sels,
                    Vec::new(),
                ) {
                    Err(e) => {
                        return Err(e);
                    },
                    Ok(c) => c,
                };
                let variants = match resolve_variants(schema, name, possible, sels) {
                    Err(e) => {
                        return Err(e);
                    },
                    Ok(v) => v,
                };
                let common = with_typename(common);
                Ok(OutputNode::Polymorphic { common, variants })
            },
        },
    }
}

pub fn resolve_variants(
    schema: &SchemaModel,
    iface: &String,
    possible: &Vec<String>,
    sels: &Vec<Selection>,
) -> (r: Result<Vec<OutputVariant>, ResolveError>)
    ensures
        ({
            let s = spec_resolve_variants(
                schema_view(*schema),
                iface@,
                possible.deep_view(),
                sels_view(sels@),
                0,
            );
            match r {
                Ok(v) => s == Ok::<Seq<OutputVariantV>, ResolveErrorV>(ovariants_view(v@)),
                Err(e) => s == Err::<Seq<OutputVariantV>, ResolveErrorV>(rerr_view(e)),
            }
        }),
    decreases sels_size(sels_view(sels@)), 2nat, 0nat,
{
    let ghost sv = schema_view(*schema);
    let ghost pv = possible.deep_view();
    let ghost vsel = sels_view(sels@);
    let ghost full = spec_resolve_variants(sv, iface@, pv, vsel, 0);
    proof {
        let rest0 = spec_resolve_variants(sv, iface@, pv, vsel, 0);
        if rest0 is Ok {
            assert(Seq::<OutputVariantV>::empty() + rest0->Ok_0 =~= rest0->Ok_0);
        }
    }
    let mut out: Vec<OutputVariant> = Vec::new();
    let mut i: usize = 0;
    while i < possible.len()
        invariant
            0 <= i <= possible.len(),
            sv == schema_view(*schema),
            pv == possible.deep_view(),
            vsel == sels_view(sels@),
            pv.len() == possible@.len(),
            full == spec_resolve_variants(sv, iface@, pv, vsel, 0),
            variants_continues(
                full,
                ovariants_view(out@),
                spec_resolve_variants(sv, iface@, pv, vsel, i as int),
            ),
        decreases possible.len() - i,
    {
        let m = mentions(sels, iface.as_str(), possible[i].as_str());
        if m {
            match lookup_type(schema, possible[i].as_str()) {
                Some(t) => match t {
                    SchemaType::Object { name, fields, implements } => {
                        let splice0 = cons_names(name, implements);
                        let splice = push_name(splice0, iface);
                        proof {
                            assert(splice.deep_view() =~= seq![name@] + implements.deep_view()
                                + seq![iface@]);
                            assert(oentries_view(Seq::<OutputEntry>::empty()) =~= Seq::<
                                OutputEntryV,
                            >::empty());
                        }
                        match resolve_sels(
                            schema,
                            name,
                            fields,
                            implements,
                            &splice,
                            possible,
                            sels,
                            Vec::new(),
                        ) {
                            Err(e) => {
                                return Err(e);
                            },
                            Ok(entries) => {
                                let v = OutputVariant { tyname: possible[i].clone(), entries };
                                proof {
                                    lemma_ovariants_view_push(out@, v);
                                    let nxt = spec_resolve_variants(
                                        sv,
                                        iface@,
                                        pv,
                                        vsel,
                                        i as int + 1,
                                    );
                                    if nxt is Ok {
                                        assert(ovariants_view(out@) + (seq![ovariant_view(v)]
                                            + nxt->Ok_0) =~= ovariants_view(out@).push(
                                            ovariant_view(v),
                                        ) + nxt->Ok_0);
                                    }
                                }
                                out.push(v);
                            },
                        }
                    },
                    _ => {},
                },
                None => {},
            }
        }
        i = i + 1;
    }
    proof {
        assert(ovariants_view(out@) + Seq::<OutputVariantV>::empty() =~= ovariants_view(out@));
    }
    Ok(out)
}

} // verus!

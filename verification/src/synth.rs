use vstd::prelude::*;

verus! {

use crate::ast::{VariableDecl, VariableDeclV, vdecl_view, vdecls_view};
use crate::model::{
    FieldDef, FieldDefV, adefs_view, SchemaModel, SchemaModelV, SchemaTypeV, TypeRef, TypeRefV, copy_tref,
    field_view, fields_view, lookup_type, schema_view, spec_base_name, spec_lookup, tref_view,
    base_name,
};
use crate::output::{
    OutputEntry, OutputEntryV, OutputNode, OutputNodeV, OutputVariant, OutputVariantV,
    lemma_oentries_view, lemma_oentries_size_index, lemma_ovariants_view,
    lemma_ovariants_size_index, oentries_size, oentries_view, oentry_size, oentry_view,
    onode_size, onode_view, ovariant_size, ovariant_view, ovariants_size, ovariants_view,
};
use crate::util::str_eq;

// ---------------------------------------------------------------------------
// Output synthesis: walking the resolved tree and the bound variables into
// a flat, deduplicated sequence of named type definitions. Names are
// derived only from the selection path, so identical input always yields
// identical definitions, in the same order.
// ---------------------------------------------------------------------------

/// An uppercase mapping for the ASCII letters; any other character is
/// left alone.
pub open spec fn up_char(c: char) -> char {
    if 'a' <= c && c <= 'z' {
        ((c as u32) - 32) as u8 as char
    } else {
        c
    }
}

/// A name with its first character uppercased. Capitalization applies to
/// ASCII names, which is all the GraphQL grammar admits; anything else is
/// passed through unchanged.
pub open spec fn spec_capitalize(s: Seq<char>) -> Seq<char> {
    if s.len() == 0 {
        s
    } else {
        seq![up_char(s[0])] + s.drop_first()
    }
}

pub fn capitalize(s: &str) -> (r: String)
    ensures
        r@ == spec_capitalize(s@),
{
    let n = s.unicode_len();
    if n == 0 {
        let r = String::new();
        proof {
            assert(r@ =~= s@);
        }
        return r;
    }
    let c = s.get_char(0);
    let rest = s.substring_char(1, n);
    let up: Option<&str> = if c == 'a' {
        Some("A")
    } else if c == 'b' {
        Some("B")
    } else if c == 'c' {
        Some("C")
    } else if c == 'd' {
        Some("D")
    } else if c == 'e' {
        Some("E")
    } else if c == 'f' {
        Some("F")
    } else if c == 'g' {
        Some("G")
    } else if c == 'h' {
        Some("H")
    } else if c == 'i' {
        Some("I")
    } else if c == 'j' {
        Some("J")
    } else if c == 'k' {
        Some("K")
    } else if c == 'l' {
        Some("L")
    } else if c == 'm' {
        Some("M")
    } else if c == 'n' {
        Some("N")
    } else if c == 'o' {
        Some("O")
    } else if c == 'p' {
        Some("P")
    } else if c == 'q' {
        Some("Q")
    } else if c == 'r' {
        Some("R")
    } else if c == 's' {
        Some("S")
    } else if c == 't' {
        Some("T")
    } else if c == 'u' {
        Some("U")
    } else if c == 'v' {
        Some("V")
    } else if c == 'w' {
        Some("W")
    } else if c == 'x' {
        Some("X")
    } else if c == 'y' {
        Some("Y")
    } else if c == 'z' {
        Some("Z")
    } else {
        None
    };
    match up {
        Some(u) => {
            proof {
                reveal_strlit("A");
                reveal_strlit("B");
                reveal_strlit("C");
                reveal_strlit("D");
                reveal_strlit("E");
                reveal_strlit("F");
                reveal_strlit("G");
                reveal_strlit("H");
                reveal_strlit("I");
                reveal_strlit("J");
                reveal_strlit("K");
                reveal_strlit("L");
                reveal_strlit("M");
                reveal_strlit("N");
                reveal_strlit("O");
                reveal_strlit("P");
                reveal_strlit("Q");
                reveal_strlit("R");
                reveal_strlit("S");
                reveal_strlit("T");
                reveal_strlit("U");
                reveal_strlit("V");
                reveal_strlit("W");
                reveal_strlit("X");
                reveal_strlit("Y");
                reveal_strlit("Z");
            }
            let out = String::from_str(u).concat(rest);
            proof {
                assert(out@ =~= spec_capitalize(s@));
            }
            out
        },
        None => {
            let out = s.to_owned();
            proof {
                assert(up_char(s@[0]) == s@[0]);
                assert(out@ =~= spec_capitalize(s@));
            }
            out
        },
    }
}

// ---------------------------------------------------------------------------
// The scalar registry: schema scalar names to host type names, with the
// five built-in scalars fixed and everything else opaque unless the caller
// supplies an override.
// ---------------------------------------------------------------------------

pub struct ScalarOverride {
    pub graphql: String,
    pub host: String,
}

pub struct ScalarOverrideV {
    pub graphql: Seq<char>,
    pub host: Seq<char>,
}

pub open spec fn sov_view(o: ScalarOverride) -> ScalarOverrideV {
    ScalarOverrideV { graphql: o.graphql@, host: o.host@ }
}

pub open spec fn sovs_view(s: Seq<ScalarOverride>) -> Seq<ScalarOverrideV> {
    Seq::new(s.len(), |i: int| sov_view(s[i]))
}

/// The registry's mapping table, to be passed in explicitly.
pub struct ScalarRegistry {
    pub overrides: Vec<ScalarOverride>,
}

pub open spec fn reg_view(r: ScalarRegistry) -> Seq<ScalarOverrideV> {
    sovs_view(r.overrides@)
}

pub open spec fn spec_builtin_host(n: Seq<char>) -> Seq<char> {
    if n == "String"@ {
        "String"@
    } else if n == "Int"@ {
        "Int64"@
    } else if n == "Float"@ {
        "Float64"@
    } else if n == "Boolean"@ {
        "Boolean"@
    } else if n == "ID"@ {
        "Id"@
    } else {
        n
    }
}

pub open spec fn spec_reg_host_from(ov: Seq<ScalarOverrideV>, n: Seq<char>, i: int) -> Seq<char>
    decreases ov.len() - i,
{
    if i < 0 || i >= ov.len() {
        spec_builtin_host(n)
    } else if ov[i].graphql == n {
        ov[i].host
    } else {
        spec_reg_host_from(ov, n, i + 1)
    }
}

/// The host type name a scalar resolves to: the first override, else the
/// built-in mapping, else the scalar's own name, opaque.
pub open spec fn spec_reg_host(ov: Seq<ScalarOverrideV>, n: Seq<char>) -> Seq<char> {
    spec_reg_host_from(ov, n, 0)
}

pub fn reg_host(reg: &ScalarRegistry, n: &str) -> (r: String)
    ensures
        r@ == spec_reg_host(reg_view(*reg), n@),
{
    let ghost ov = reg_view(*reg);
    let mut i: usize = 0;
    while i < reg.overrides.len()
        invariant
            0 <= i <= reg.overrides.len(),
            ov == reg_view(*reg),
            ov.len() == reg.overrides@.len(),
            spec_reg_host_from(ov, n@, 0) == spec_reg_host_from(ov, n@, i as int),
        decreases reg.overrides.len() - i,
    {
        if str_eq(reg.overrides[i].graphql.as_str(), n) {
            return reg.overrides[i].host.clone();
        }
        i = i + 1;
    }
    proof {
        reveal_strlit("String");
        reveal_strlit("Int");
        reveal_strlit("Int64");
        reveal_strlit("Float");
        reveal_strlit("Float64");
        reveal_strlit("Boolean");
        reveal_strlit("ID");
        reveal_strlit("Id");
    }
    if str_eq(n, "String") {
        String::from_str("String")
    } else if str_eq(n, "Int") {
        String::from_str("Int64")
    } else if str_eq(n, "Float") {
        String::from_str("Float64")
    } else if str_eq(n, "Boolean") {
        String::from_str("Boolean")
    } else if str_eq(n, "ID") {
        String::from_str("Id")
    } else {
        n.to_owned()
    }
}

// ---------------------------------------------------------------------------
// The definitions the synthesizer emits.
// ---------------------------------------------------------------------------

/// A field's host-language type: a named type, an optional wrapper, or an
/// ordered sequence.
pub enum TypeShape {
    Name(String),
    Optional(Box<TypeShape>),
    ListOf(Box<TypeShape>),
}

pub enum TypeShapeV {
    Name(Seq<char>),
    Optional(Box<TypeShapeV>),
    ListOf(Box<TypeShapeV>),
}

pub open spec fn tshape_view(t: TypeShape) -> TypeShapeV
    decreases t,
{
    match t {
        TypeShape::Name(n) => TypeShapeV::Name(n@),
        TypeShape::Optional(inner) => TypeShapeV::Optional(Box::new(tshape_view(*inner))),
        TypeShape::ListOf(inner) => TypeShapeV::ListOf(Box::new(tshape_view(*inner))),
    }
}

pub struct FieldRepr {
    pub name: String,
    pub shape: TypeShape,
}

pub struct FieldReprV {
    pub name: Seq<char>,
    pub shape: TypeShapeV,
}

pub open spec fn frepr_view(f: FieldRepr) -> FieldReprV {
    FieldReprV { name: f.name@, shape: tshape_view(f.shape) }
}

pub open spec fn freprs_view(s: Seq<FieldRepr>) -> Seq<FieldReprV> {
    Seq::new(s.len(), |i: int| frepr_view(s[i]))
}

pub struct UnionArm {
    pub tyname: String,
    pub struct_name: String,
}

pub struct UnionArmV {
    pub tyname: Seq<char>,
    pub struct_name: Seq<char>,
}

pub open spec fn arm_view(a: UnionArm) -> UnionArmV {
    UnionArmV { tyname: a.tyname@, struct_name: a.struct_name@ }
}

pub open spec fn arms_view(s: Seq<UnionArm>) -> Seq<UnionArmV> {
    Seq::new(s.len(), |i: int| arm_view(s[i]))
}

/// One emitted definition: a record, a tagged union keyed by the
/// discriminant's string value, or an enumeration.
pub enum NamedTypeDef {
    StructDef { name: String, fields: Vec<FieldRepr> },
    UnionDef { name: String, arms: Vec<UnionArm>, fallback: String },
    EnumDef { name: String, values: Vec<String> },
}

pub enum NamedTypeDefV {
    StructDef { name: Seq<char>, fields: Seq<FieldReprV> },
    UnionDef { name: Seq<char>, arms: Seq<UnionArmV>, fallback: Seq<char> },
    EnumDef { name: Seq<char>, values: Seq<Seq<char>> },
}

pub open spec fn def_view(d: NamedTypeDef) -> NamedTypeDefV {
    match d {
        NamedTypeDef::StructDef { name, fields } => NamedTypeDefV::StructDef {
            name: name@,
            fields: freprs_view(fields@),
        },
        NamedTypeDef::UnionDef { name, arms, fallback } => NamedTypeDefV::UnionDef {
            name: name@,
            arms: arms_view(arms@),
            fallback: fallback@,
        },
        NamedTypeDef::EnumDef { name, values } => NamedTypeDefV::EnumDef {
            name: name@,
            values: values.deep_view(),
        },
    }
}

pub open spec fn defs_view(s: Seq<NamedTypeDef>) -> Seq<NamedTypeDefV> {
    Seq::new(s.len(), |i: int| def_view(s[i]))
}

// ---------------------------------------------------------------------------
// Type-reference translation: non-null strips the optional wrapper, lists
// become sequences, and a bare named type is optional.
// ---------------------------------------------------------------------------

pub open spec fn spec_translate(t: TypeRefV, base: Seq<char>) -> TypeShapeV
    decreases t, 1nat,
{
    match t {
        TypeRefV::NonNull(inner) => spec_inner_shape(*inner, base),
        _ => TypeShapeV::Optional(Box::new(spec_inner_shape(t, base))),
    }
}

pub open spec fn spec_inner_shape(t: TypeRefV, base: Seq<char>) -> TypeShapeV
    decreases t, 0nat,
{
    match t {
        TypeRefV::Named(_) => TypeShapeV::Name(base),
        TypeRefV::List(inner) => TypeShapeV::ListOf(Box::new(spec_translate(*inner, base))),
        TypeRefV::NonNull(inner) => spec_inner_shape(*inner, base),
    }
}

pub fn translate(t: &TypeRef, base: &str) -> (r: TypeShape)
    ensures
        tshape_view(r) == spec_translate(tref_view(*t), base@),
    decreases *t, 1nat,
{
    match t {
        TypeRef::NonNull(inner) => inner_shape(inner, base),
        _ => TypeShape::Optional(Box::new(inner_shape(t, base))),
    }
}

pub fn inner_shape(t: &TypeRef, base: &str) -> (r: TypeShape)
    ensures
        tshape_view(r) == spec_inner_shape(tref_view(*t), base@),
    decreases *t, 0nat,
{
    match t {
        TypeRef::Named(_) => TypeShape::Name(base.to_owned()),
        TypeRef::List(inner) => TypeShape::ListOf(Box::new(translate(inner, base))),
        TypeRef::NonNull(inner) => inner_shape(inner, base),
    }
}

// ---------------------------------------------------------------------------
// Emission of the response tree.
// ---------------------------------------------------------------------------

/// The host base name of one resolved field's node, with the definitions
/// the node itself contributes under the given child name.
pub open spec fn spec_entry_base(
    schema: SchemaModelV,
    ov: Seq<ScalarOverrideV>,
    node: OutputNodeV,
    child: Seq<char>,
) -> (Seq<char>, Seq<NamedTypeDefV>)
    decreases onode_size(node), 2nat, 0nat,
{
    match node {
        OutputNodeV::Leaf { tyname } => match spec_lookup(schema, tyname) {
            Some(SchemaTypeV::Enum { name, values }) => (
                name,
                seq![NamedTypeDefV::EnumDef { name, values }],
            ),
            _ => (spec_reg_host(ov, tyname), Seq::empty()),
        },
        _ => (child, spec_synth_node(schema, ov, node, child)),
    }
}

/// The definitions one node emits under the given name: nothing for a
/// leaf, a record for an object, and a tagged union with one record per
/// variant plus the fallback record for a polymorphic node.
pub open spec fn spec_synth_node(
    schema: SchemaModelV,
    ov: Seq<ScalarOverrideV>,
    node: OutputNodeV,
    name: Seq<char>,
) -> Seq<NamedTypeDefV>
    decreases onode_size(node), 1nat, 0nat,
{
    match node {
        OutputNodeV::Leaf { .. } => Seq::empty(),
        OutputNodeV::Object { entries } => {
            let (fields, defs) = spec_synth_entries(schema, ov, entries, name);
            seq![NamedTypeDefV::StructDef { name, fields }] + defs
        },
        OutputNodeV::Polymorphic { common, variants } => {
            let (arms, vdefs) = spec_synth_variants(schema, ov, variants, name);
            let fallback = name + "Other"@;
            let (ffields, fdefs) = spec_synth_entries(schema, ov, common, fallback);
            seq![NamedTypeDefV::UnionDef { name, arms, fallback }] + vdefs + seq![
                NamedTypeDefV::StructDef { name: fallback, fields: ffields },
            ] + fdefs
        },
    }
}

/// The field and nested definitions one resolved entry yields.
pub open spec fn spec_synth_entry(
    schema: SchemaModelV,
    ov: Seq<ScalarOverrideV>,
    e: OutputEntryV,
    parent: Seq<char>,
) -> (FieldReprV, Seq<NamedTypeDefV>)
    decreases oentry_size(e), 0nat, 0nat,
{
    let child = parent + spec_capitalize(e.key);
    let (base, defs) = spec_entry_base(schema, ov, e.field.node, child);
    (FieldReprV { name: e.key, shape: spec_translate(e.field.ty, base) }, defs)
}

/// The field list and nested definitions a list of resolved entries
/// yields, in source order.
pub open spec fn spec_synth_entries(
    schema: SchemaModelV,
    ov: Seq<ScalarOverrideV>,
    entries: Seq<OutputEntryV>,
    parent: Seq<char>,
) -> (Seq<FieldReprV>, Seq<NamedTypeDefV>)
    decreases oentries_size(entries), 1nat, entries.len(),
{
    if entries.len() == 0 {
        (Seq::empty(), Seq::empty())
    } else {
        let (field, defs) = spec_synth_entry(schema, ov, entries.first(), parent);
        let (rfields, rdefs) = spec_synth_entries(schema, ov, entries.drop_first(), parent);
        (seq![field] + rfields, defs + rdefs)
    }
}

/// The union arm and definitions one variant yields.
pub open spec fn spec_synth_variant(
    schema: SchemaModelV,
    ov: Seq<ScalarOverrideV>,
    v: OutputVariantV,
    name: Seq<char>,
) -> (UnionArmV, Seq<NamedTypeDefV>)
    decreases ovariant_size(v), 0nat, 0nat,
{
    let sname = name + "On"@ + v.tyname;
    let (fields, defs) = spec_synth_entries(schema, ov, v.entries, sname);
    (
        UnionArmV { tyname: v.tyname, struct_name: sname },
        seq![NamedTypeDefV::StructDef { name: sname, fields }] + defs,
    )
}

/// One union arm and one record per variant, named after the path and the
/// concrete type.
pub open spec fn spec_synth_variants(
    schema: SchemaModelV,
    ov: Seq<ScalarOverrideV>,
    variants: Seq<OutputVariantV>,
    name: Seq<char>,
) -> (Seq<UnionArmV>, Seq<NamedTypeDefV>)
    decreases ovariants_size(variants), 1nat, variants.len(),
{
    if variants.len() == 0 {
        (Seq::empty(), Seq::empty())
    } else {
        let (arm, defs) = spec_synth_variant(schema, ov, variants.first(), name);
        let (rarms, rdefs) = spec_synth_variants(schema, ov, variants.drop_first(), name);
        (seq![arm] + rarms, defs + rdefs)
    }
}

pub fn entry_base(
    schema: &SchemaModel,
    reg: &ScalarRegistry,
    node: &OutputNode,
    child: &String,
) -> (r: (String, Vec<NamedTypeDef>))
    ensures
        ({
            let s = spec_entry_base(schema_view(*schema), reg_view(*reg), onode_view(*node), child@);
            r.0@ == s.0 && defs_view(r.1@) == s.1
        }),
    decreases onode_size(onode_view(*node)), 2nat, 0nat,
{
    match node {
        OutputNode::Leaf { tyname } => {
            match lookup_type(schema, tyname.as_str()) {
                Some(t) => match t {
                    crate::model::SchemaType::Enum { name, values } => {
                        let d = NamedTypeDef::EnumDef {
                            name: name.clone(),
                            values: crate::util::copy_names(values),
                        };
                        let mut defs: Vec<NamedTypeDef> = Vec::new();
                        let n2 = name.clone();
                        defs.push(d);
                        proof {
                            assert(defs_view(defs@) =~= seq![
                                NamedTypeDefV::EnumDef {
                                    name: n2@,
                                    values: values.deep_view(),
                                },
                            ]);
                        }
                        (n2, defs)
                    },
                    _ => {
                        let h = reg_host(reg, tyname.as_str());
                        let defs: Vec<NamedTypeDef> = Vec::new();
                        proof {
                            assert(defs_view(defs@) =~= Seq::<NamedTypeDefV>::empty());
                        }
                        (h, defs)
                    },
                },
                None => {
                    let h = reg_host(reg, tyname.as_str());
                    let defs: Vec<NamedTypeDef> = Vec::new();
                    proof {
                        assert(defs_view(defs@) =~= Seq::<NamedTypeDefV>::empty());
                    }
                    (h, defs)
                },
            }
        },
        _ => {
            let defs = synth_node(schema, reg, node, child);
            (child.clone(), defs)
        },
    }
}

pub fn synth_node(
    schema: &SchemaModel,
    reg: &ScalarRegistry,
    node: &OutputNode,
    name: &String,
) -> (r: Vec<NamedTypeDef>)
    ensures
        defs_view(r@) == spec_synth_node(schema_view(*schema), reg_view(*reg), onode_view(*node), name@),
    decreases onode_size(onode_view(*node)), 1nat, 0nat,
{
    match node {
        OutputNode::Leaf { .. } => {
            let defs: Vec<NamedTypeDef> = Vec::new();
            proof {
                assert(defs_view(defs@) =~= Seq::<NamedTypeDefV>::empty());
            }
            defs
        },
        OutputNode::Object { entries } => {
            let (fields, mut defs) = synth_entries(schema, reg, entries, name);
            let mut out: Vec<NamedTypeDef> = Vec::new();
            out.push(NamedTypeDef::StructDef { name: name.clone(), fields });
            out.append(&mut defs);
            proof {
                assert(defs_view(out@) =~= spec_synth_node(
                    schema_view(*schema),
                    reg_view(*reg),
                    onode_view(*node),
                    name@,
                ));
            }
            out
        },
        OutputNode::Polymorphic { common, variants } => {
            let (arms, mut vdefs) = synth_variants(schema, reg, variants, name);
            let fallback = name.clone().concat("Other");
            let (ffields, mut fdefs) = synth_entries(schema, reg, common, &fallback);
            let mut out: Vec<NamedTypeDef> = Vec::new();
            out.push(
                NamedTypeDef::UnionDef { name: name.clone(), arms, fallback: fallback.clone() },
            );
            out.append(&mut vdefs);
            out.push(NamedTypeDef::StructDef { name: fallback, fields: ffields });
            out.append(&mut fdefs);
            proof {
                assert(defs_view(out@) =~= spec_synth_node(
                    schema_view(*schema),
                    reg_view(*reg),
                    onode_view(*node),
                    name@,
                ));
            }
            out
        },
    }
}

pub fn synth_entries(
    schema: &SchemaModel,
    reg: &ScalarRegistry,
    entries: &Vec<OutputEntry>,
    parent: &String,
) -> (r: (Vec<FieldRepr>, Vec<NamedTypeDef>))
    ensures
        ({
            let s = spec_synth_entries(
                schema_view(*schema),
                reg_view(*reg),
                oentries_view(entries@),
                parent@,
            );
            freprs_view(r.0@) == s.0 && defs_view(r.1@) == s.1
        }),
    decreases oentries_size(oentries_view(entries@)), 0nat, 1nat,
{
    let ghost sv = schema_view(*schema);
    let ghost ov = reg_view(*reg);
    let ghost ev = oentries_view(entries@);
    let ghost full = spec_synth_entries(sv, ov, ev, parent@);
    proof {
        lemma_oentries_view(entries@);
        assert(ev.skip(0) =~= ev);
    }
    let mut fields: Vec<FieldRepr> = Vec::new();
    let mut defs: Vec<NamedTypeDef> = Vec::new();
    let mut i: usize = 0;
    while i < entries.len()
        invariant
            0 <= i <= entries.len(),
            sv == schema_view(*schema),
            ov == reg_view(*reg),
            ev == oentries_view(entries@),
            ev.len() == entries@.len(),
            forall|j: int| 0 <= j < ev.len() ==> ev[j] == oentry_view(entries@[j]),
            full == spec_synth_entries(sv, ov, ev, parent@),
            ({
                let rest = spec_synth_entries(sv, ov, ev.skip(i as int), parent@);
                full.0 == freprs_view(fields@) + rest.0 && full.1 == defs_view(defs@) + rest.1
            }),
        decreases entries.len() - i,
    {
        proof {
            assert(ev[i as int] == oentry_view(entries@[i as int]));
            assert(ev.skip(i as int).first() == ev[i as int]);
            assert(ev.skip(i as int).drop_first() =~= ev.skip(i as int + 1));
            lemma_oentries_size_index(ev, i as int);
        }
        let cap = capitalize(entries[i].key.as_str());
        let child = parent.clone().concat(cap.as_str());
        proof {
            assert(child@ == parent@ + spec_capitalize(ev[i as int].key));
        }
        let (base, mut cdefs) = entry_base(schema, reg, &entries[i].field.node, &child);
        let shape = translate(&entries[i].field.ty, base.as_str());
        let fr = FieldRepr { name: entries[i].key.clone(), shape };
        proof {
            let rest = spec_synth_entries(sv, ov, ev.skip(i as int + 1), parent@);
            let step = spec_synth_entry(sv, ov, ev[i as int], parent@);
            assert(frepr_view(fr) == step.0);
            assert(defs_view(cdefs@) == step.1);
            assert(freprs_view(fields@.push(fr)) =~= freprs_view(fields@).push(frepr_view(fr)));
            assert(freprs_view(fields@) + (seq![step.0] + rest.0) =~= freprs_view(fields@).push(
                step.0,
            ) + rest.0);
            assert(defs_view(defs@ + cdefs@) =~= defs_view(defs@) + defs_view(cdefs@));
            assert(defs_view(defs@) + (step.1 + rest.1) =~= (defs_view(defs@) + step.1) + rest.1);
        }
        fields.push(fr);
        defs.append(&mut cdefs);
        i = i + 1;
    }
    proof {
        assert(ev.skip(i as int) =~= Seq::<OutputEntryV>::empty());
        assert(freprs_view(fields@) + Seq::<FieldReprV>::empty() =~= freprs_view(fields@));
        assert(defs_view(defs@) + Seq::<NamedTypeDefV>::empty() =~= defs_view(defs@));
    }
    (fields, defs)
}

pub fn synth_variants(
    schema: &SchemaModel,
    reg: &ScalarRegistry,
    variants: &Vec<OutputVariant>,
    name: &String,
) -> (r: (Vec<UnionArm>, Vec<NamedTypeDef>))
    ensures
        ({
            let s = spec_synth_variants(
                schema_view(*schema),
                reg_view(*reg),
                ovariants_view(variants@),
                name@,
            );
            arms_view(r.0@) == s.0 && defs_view(r.1@) == s.1
        }),
    decreases ovariants_size(ovariants_view(variants@)), 0nat, 1nat,
{
    let ghost sv = schema_view(*schema);
    let ghost ov = reg_view(*reg);
    let ghost vv = ovariants_view(variants@);
    let ghost full = spec_synth_variants(sv, ov, vv, name@);
    proof {
        lemma_ovariants_view(variants@);
        assert(vv.skip(0) =~= vv);
    }
    let mut arms: Vec<UnionArm> = Vec::new();
    let mut defs: Vec<NamedTypeDef> = Vec::new();
    let mut i: usize = 0;
    while i < variants.len()
        invariant
            0 <= i <= variants.len(),
            sv == schema_view(*schema),
            ov == reg_view(*reg),
            vv == ovariants_view(variants@),
            vv.len() == variants@.len(),
            forall|j: int| 0 <= j < vv.len() ==> vv[j] == ovariant_view(variants@[j]),
            full == spec_synth_variants(sv, ov, vv, name@),
            ({
                let rest = spec_synth_variants(sv, ov, vv.skip(i as int), name@);
                full.0 == arms_view(arms@) + rest.0 && full.1 == defs_view(defs@) + rest.1
            }),
        decreases variants.len() - i,
    {
        proof {
            assert(vv[i as int] == ovariant_view(variants@[i as int]));
            assert(vv.skip(i as int).first() == vv[i as int]);
            assert(vv.skip(i as int).drop_first() =~= vv.skip(i as int + 1));
            lemma_ovariants_size_index(vv, i as int);
        }
        let sname = name.clone().concat("On").concat(variants[i].tyname.as_str());
        proof {
            assert(sname@ == name@ + "On"@ + vv[i as int].tyname);
        }
        let (vfields, mut vdefs) = synth_entries(schema, reg, &variants[i].entries, &sname);
        let arm = UnionArm { tyname: variants[i].tyname.clone(), struct_name: sname.clone() };
        let sd = NamedTypeDef::StructDef { name: sname, fields: vfields };
        proof {
            let rest = spec_synth_variants(sv, ov, vv.skip(i as int + 1), name@);
            let step = spec_synth_variant(sv, ov, vv[i as int], name@);
            let snv = name@ + "On"@ + vv[i as int].tyname;
            let sdv = NamedTypeDefV::StructDef {
                name: snv,
                fields: spec_synth_entries(sv, ov, vv[i as int].entries, snv).0,
            };
            assert(arm_view(arm) == step.0);
            assert(def_view(sd) == sdv);
            assert(step.1 == seq![sdv] + spec_synth_entries(sv, ov, vv[i as int].entries, snv).1);
            assert(arms_view(arms@.push(arm)) =~= arms_view(arms@).push(step.0));
            assert(arms_view(arms@) + (seq![step.0] + rest.0) =~= arms_view(arms@).push(step.0)
                + rest.0);
            assert(defs_view(defs@.push(sd) + vdefs@) =~= (defs_view(defs@) + seq![sdv])
                + defs_view(vdefs@));
            assert(defs_view(defs@) + ((seq![sdv] + defs_view(vdefs@)) + rest.1) =~= ((defs_view(
                defs@,
            ) + seq![sdv]) + defs_view(vdefs@)) + rest.1);
        }
        arms.push(arm);
        defs.push(sd);
        defs.append(&mut vdefs);
        i = i + 1;
    }
    proof {
        assert(vv.skip(i as int) =~= Seq::<OutputVariantV>::empty());
        assert(arms_view(arms@) + Seq::<UnionArmV>::empty() =~= arms_view(arms@));
        assert(defs_view(defs@) + Seq::<NamedTypeDefV>::empty() =~= defs_view(defs@));
    }
    (arms, defs)
}

// ---------------------------------------------------------------------------
// Emission of the Variables record and the input objects it reaches.
// Input objects are named by their schema name, which is unique; nesting
// is cut off at the number of schema definitions, a depth only a cyclic
// input-object schema could exceed.
// ---------------------------------------------------------------------------

/// The field and definitions one input-position field yields.
pub open spec fn spec_synth_infield(
    schema: SchemaModelV,
    ov: Seq<ScalarOverrideV>,
    f: FieldDefV,
    fuel: nat,
) -> (FieldReprV, Seq<NamedTypeDefV>)
    decreases fuel, 0nat, 0nat,
{
    let bn = spec_base_name(f.ty);
    let pair = match spec_lookup(schema, bn) {
        Some(SchemaTypeV::Enum { name, values }) => (
            name,
            seq![NamedTypeDefV::EnumDef { name, values }],
        ),
        Some(SchemaTypeV::InputObject { name, .. }) => if fuel == 0 {
            (name, Seq::<NamedTypeDefV>::empty())
        } else {
            (name, spec_synth_input(schema, ov, bn, (fuel - 1) as nat))
        },
        _ => (spec_reg_host(ov, bn), Seq::<NamedTypeDefV>::empty()),
    };
    (FieldReprV { name: f.name, shape: spec_translate(f.ty, pair.0) }, pair.1)
}

pub open spec fn spec_synth_infields(
    schema: SchemaModelV,
    ov: Seq<ScalarOverrideV>,
    fields: Seq<FieldDefV>,
    fuel: nat,
) -> (Seq<FieldReprV>, Seq<NamedTypeDefV>)
    decreases fuel, 0nat, fields.len(),
{
    if fields.len() == 0 {
        (Seq::empty(), Seq::empty())
    } else {
        let (field, defs) = spec_synth_infield(schema, ov, fields.first(), fuel);
        let (rfields, rdefs) = spec_synth_infields(schema, ov, fields.drop_first(), fuel);
        (seq![field] + rfields, defs + rdefs)
    }
}

/// The record an input object synthesizes, with everything it reaches.
pub open spec fn spec_synth_input(
    schema: SchemaModelV,
    ov: Seq<ScalarOverrideV>,
    tyname: Seq<char>,
    fuel: nat,
) -> Seq<NamedTypeDefV>
    decreases fuel, 1nat, 0nat,
{
    match spec_lookup(schema, tyname) {
        Some(SchemaTypeV::InputObject { name, fields }) => {
            let (frs, defs) = spec_synth_infields(schema, ov, fields, fuel);
            seq![NamedTypeDefV::StructDef { name, fields: frs }] + defs
        },
        _ => Seq::empty(),
    }
}

pub fn synth_infields(
    schema: &SchemaModel,
    reg: &ScalarRegistry,
    fields: &Vec<FieldDef>,
    fuel: usize,
) -> (r: (Vec<FieldRepr>, Vec<NamedTypeDef>))
    ensures
        ({
            let s = spec_synth_infields(
                schema_view(*schema),
                reg_view(*reg),
                fields_view(fields@),
                fuel as nat,
            );
            freprs_view(r.0@) == s.0 && defs_view(r.1@) == s.1
        }),
    decreases fuel, 0nat, 1nat,
{
    let ghost sv = schema_view(*schema);
    let ghost ov = reg_view(*reg);
    let ghost fv = fields_view(fields@);
    let ghost full = spec_synth_infields(sv, ov, fv, fuel as nat);
    proof {
        assert(fv.skip(0) =~= fv);
    }
    let mut frs: Vec<FieldRepr> = Vec::new();
    let mut defs: Vec<NamedTypeDef> = Vec::new();
    let mut i: usize = 0;
    while i < fields.len()
        invariant
            0 <= i <= fields.len(),
            sv == schema_view(*schema),
            ov == reg_view(*reg),
            fv == fields_view(fields@),
            fv.len() == fields@.len(),
            full == spec_synth_infields(sv, ov, fv, fuel as nat),
            ({
                let rest = spec_synth_infields(sv, ov, fv.skip(i as int), fuel as nat);
                full.0 == freprs_view(frs@) + rest.0 && full.1 == defs_view(defs@) + rest.1
            }),
        decreases fields.len() - i,
    {
        proof {
            assert(fv[i as int] == field_view(fields@[i as int]));
            assert(fv.skip(i as int).first() == fv[i as int]);
            assert(fv.skip(i as int).drop_first() =~= fv.skip(i as int + 1));
        }
        let bn = base_name(&fields[i].ty);
        let pair: (String, Vec<NamedTypeDef>) = match lookup_type(schema, bn.as_str()) {
            Some(t) => match t {
                crate::model::SchemaType::Enum { name, values } => {
                    let mut ds: Vec<NamedTypeDef> = Vec::new();
                    let n2 = name.clone();
                    ds.push(
                        NamedTypeDef::EnumDef {
                            name: name.clone(),
                            values: crate::util::copy_names(values),
                        },
                    );
                    proof {
                        assert(defs_view(ds@) =~= seq![
                            NamedTypeDefV::EnumDef { name: n2@, values: values.deep_view() },
                        ]);
                    }
                    (n2, ds)
                },
                crate::model::SchemaType::InputObject { name, .. } => {
                    if fuel == 0 {
                        let ds: Vec<NamedTypeDef> = Vec::new();
                        proof {
                            assert(defs_view(ds@) =~= Seq::<NamedTypeDefV>::empty());
                        }
                        (name.clone(), ds)
                    } else {
                        let ds = synth_input(schema, reg, bn.as_str(), fuel - 1);
                        (name.clone(), ds)
                    }
                },
                _ => {
                    let h = reg_host(reg, bn.as_str());
                    let ds: Vec<NamedTypeDef> = Vec::new();
                    proof {
                        assert(defs_view(ds@) =~= Seq::<NamedTypeDefV>::empty());
                    }
                    (h, ds)
                },
            },
            None => {
                let h = reg_host(reg, bn.as_str());
                let ds: Vec<NamedTypeDef> = Vec::new();
                proof {
                    assert(defs_view(ds@) =~= Seq::<NamedTypeDefV>::empty());
                }
                (h, ds)
            },
        };
        let (base, mut cdefs) = pair;
        let shape = translate(&fields[i].ty, base.as_str());
        let fr = FieldRepr { name: fields[i].name.clone(), shape };
        proof {
            let rest = spec_synth_infields(sv, ov, fv.skip(i as int + 1), fuel as nat);
            let step = spec_synth_infield(sv, ov, fv[i as int], fuel as nat);
            assert(frepr_view(fr) == step.0);
            assert(defs_view(cdefs@) == step.1);
            assert(freprs_view(frs@.push(fr)) =~= freprs_view(frs@).push(frepr_view(fr)));
            assert(freprs_view(frs@) + (seq![step.0] + rest.0) =~= freprs_view(frs@).push(step.0)
                + rest.0);
            assert(defs_view(defs@ + cdefs@) =~= defs_view(defs@) + defs_view(cdefs@));
            assert(defs_view(defs@) + (step.1 + rest.1) =~= (defs_view(defs@) + step.1) + rest.1);
        }
        frs.push(fr);
        defs.append(&mut cdefs);
        i = i + 1;
    }
    proof {
        assert(fv.skip(i as int) =~= Seq::<FieldDefV>::empty());
        assert(freprs_view(frs@) + Seq::<FieldReprV>::empty() =~= freprs_view(frs@));
        assert(defs_view(defs@) + Seq::<NamedTypeDefV>::empty() =~= defs_view(defs@));
    }
    (frs, defs)
}

pub fn synth_input(schema: &SchemaModel, reg: &ScalarRegistry, tyname: &str, fuel: usize) -> (r:
    Vec<NamedTypeDef>)
    ensures
        defs_view(r@) == spec_synth_input(
            schema_view(*schema),
            reg_view(*reg),
            tyname@,
            fuel as nat,
        ),
    decreases fuel, 1nat, 0nat,
{
    match lookup_type(schema, tyname) {
        Some(t) => match t {
            crate::model::SchemaType::InputObject { name, fields } => {
                let (frs, mut defs) = synth_infields(schema, reg, fields, fuel);
                let mut out: Vec<NamedTypeDef> = Vec::new();
                out.push(NamedTypeDef::StructDef { name: name.clone(), fields: frs });
                out.append(&mut defs);
                proof {
                    assert(defs_view(out@) =~= spec_synth_input(
                        schema_view(*schema),
                        reg_view(*reg),
                        tyname@,
                        fuel as nat,
                    ));
                }
                out
            },
            _ => {
                let out: Vec<NamedTypeDef> = Vec::new();
                proof {
                    assert(defs_view(out@) =~= Seq::<NamedTypeDefV>::empty());
                }
                out
            },
        },
        None => {
            let out: Vec<NamedTypeDef> = Vec::new();
            proof {
                assert(defs_view(out@) =~= Seq::<NamedTypeDefV>::empty());
            }
            out
        },
    }
}

/// The input-position field a declared variable contributes.
pub open spec fn decl_field(d: VariableDeclV) -> FieldDefV {
    FieldDefV { name: d.name, ty: d.ty, args: Seq::empty() }
}

pub open spec fn decl_fields(decls: Seq<VariableDeclV>) -> Seq<FieldDefV> {
    Seq::new(decls.len(), |i: int| decl_field(decls[i]))
}

/// The Variables record and every definition its declared types reach.
pub open spec fn spec_synth_variables(
    schema: SchemaModelV,
    ov: Seq<ScalarOverrideV>,
    decls: Seq<VariableDeclV>,
    fuel: nat,
) -> Seq<NamedTypeDefV> {
    let (frs, defs) = spec_synth_infields(schema, ov, decl_fields(decls), fuel);
    seq![NamedTypeDefV::StructDef { name: "Variables"@, fields: frs }] + defs
}

pub fn synth_variables(
    schema: &SchemaModel,
    reg: &ScalarRegistry,
    decls: &Vec<VariableDecl>,
    fuel: usize,
) -> (r: Vec<NamedTypeDef>)
    ensures
        defs_view(r@) == spec_synth_variables(
            schema_view(*schema),
            reg_view(*reg),
            vdecls_view(decls@),
            fuel as nat,
        ),
{
    let ghost dv = vdecls_view(decls@);
    let mut dfields: Vec<FieldDef> = Vec::new();
    let mut i: usize = 0;
    while i < decls.len()
        invariant
            0 <= i <= decls.len(),
            dv == vdecls_view(decls@),
            dv.len() == decls@.len(),
            dfields@.len() == i,
            forall|j: int| 0 <= j < i ==> field_view(dfields@[j]) == decl_field(dv[j]),
        decreases decls.len() - i,
    {
        proof {
            assert(dv[i as int] == vdecl_view(decls@[i as int]));
        }
        let f = FieldDef {
            name: decls[i].name.clone(),
            ty: copy_tref(&decls[i].ty),
            args: Vec::new(),
        };
        proof {
            assert(adefs_view(f.args@) =~= Seq::<crate::model::ArgumentDefV>::empty());
        }
        dfields.push(f);
        i = i + 1;
    }
    proof {
        assert(fields_view(dfields@) =~= decl_fields(dv));
    }
    let (frs, mut defs) = synth_infields(schema, reg, &dfields, fuel);
    let mut out: Vec<NamedTypeDef> = Vec::new();
    out.push(NamedTypeDef::StructDef { name: String::from_str("Variables"), fields: frs });
    out.append(&mut defs);
    proof {
        assert(defs_view(out@) =~= spec_synth_variables(
            schema_view(*schema),
            reg_view(*reg),
            dv,
            fuel as nat,
        ));
    }
    out
}

// ---------------------------------------------------------------------------
// Deduplication and the synthesizer's entry point.
// ---------------------------------------------------------------------------

/// Structural equality of emitted field types.
pub fn shape_eq(a: &TypeShape, b: &TypeShape) -> (r: bool)
    ensures
        r == (tshape_view(*a) == tshape_view(*b)),
    decreases *a,
{
    match (a, b) {
        (TypeShape::Name(x), TypeShape::Name(y)) => str_eq(x.as_str(), y.as_str()),
        (TypeShape::Optional(x), TypeShape::Optional(y)) => shape_eq(x, y),
        (TypeShape::ListOf(x), TypeShape::ListOf(y)) => shape_eq(x, y),
        _ => false,
    }
}

pub fn freprs_eq(a: &Vec<FieldRepr>, b: &Vec<FieldRepr>) -> (r: bool)
    ensures
        r == (freprs_view(a@) == freprs_view(b@)),
{
    if a.len() != b.len() {
        proof {
            assert(freprs_view(a@).len() != freprs_view(b@).len());
        }
        return false;
    }
    let mut i: usize = 0;
    while i < a.len()
        invariant
            0 <= i <= a.len(),
            a@.len() == b@.len(),
            forall|j: int| 0 <= j < i ==> freprs_view(a@)[j] == freprs_view(b@)[j],
        decreases a.len() - i,
    {
        let same_name = str_eq(a[i].name.as_str(), b[i].name.as_str());
        let same_shape = shape_eq(&a[i].shape, &b[i].shape);
        if !same_name || !same_shape {
            proof {
                assert(freprs_view(a@)[i as int] != freprs_view(b@)[i as int]);
            }
            return false;
        }
        proof {
            assert(freprs_view(a@)[i as int] == freprs_view(b@)[i as int]);
        }
        i = i + 1;
    }
    proof {
        assert(freprs_view(a@) =~= freprs_view(b@));
    }
    true
}

pub fn arms_eq(a: &Vec<UnionArm>, b: &Vec<UnionArm>) -> (r: bool)
    ensures
        r == (arms_view(a@) == arms_view(b@)),
{
    if a.len() != b.len() {
        proof {
            assert(arms_view(a@).len() != arms_view(b@).len());
        }
        return false;
    }
    let mut i: usize = 0;
    while i < a.len()
        invariant
            0 <= i <= a.len(),
            a@.len() == b@.len(),
            forall|j: int| 0 <= j < i ==> arms_view(a@)[j] == arms_view(b@)[j],
        decreases a.len() - i,
    {
        let same_ty = str_eq(a[i].tyname.as_str(), b[i].tyname.as_str());
        let same_struct = str_eq(a[i].struct_name.as_str(), b[i].struct_name.as_str());
        if !same_ty || !same_struct {
            proof {
                assert(arms_view(a@)[i as int] != arms_view(b@)[i as int]);
            }
            return false;
        }
        proof {
            assert(arms_view(a@)[i as int] == arms_view(b@)[i as int]);
        }
        i = i + 1;
    }
    proof {
        assert(arms_view(a@) =~= arms_view(b@));
    }
    true
}

/// Whether two emitted definitions are one and the same.
pub fn def_eq(a: &NamedTypeDef, b: &NamedTypeDef) -> (r: bool)
    ensures
        r == (def_view(*a) == def_view(*b)),
{
    match (a, b) {
        (
            NamedTypeDef::StructDef { name: xn, fields: xf },
            NamedTypeDef::StructDef { name: yn, fields: yf },
        ) => {
            let same_name = str_eq(xn.as_str(), yn.as_str());
            if !same_name {
                return false;
            }
            freprs_eq(xf, yf)
        },
        (
            NamedTypeDef::UnionDef { name: xn, arms: xa, fallback: xb },
            NamedTypeDef::UnionDef { name: yn, arms: ya, fallback: yb },
        ) => {
            let same_name = str_eq(xn.as_str(), yn.as_str());
            let same_fb = str_eq(xb.as_str(), yb.as_str());
            if !same_name || !same_fb {
                return false;
            }
            arms_eq(xa, ya)
        },
        (
            NamedTypeDef::EnumDef { name: xn, values: xv },
            NamedTypeDef::EnumDef { name: yn, values: yv },
        ) => {
            let same_name = str_eq(xn.as_str(), yn.as_str());
            if !same_name {
                return false;
            }
            crate::util::names_eq(xv, yv)
        },
        _ => false,
    }
}

/// Whether the list already holds this very definition.
pub fn contains_def(list: &Vec<NamedTypeDef>, d: &NamedTypeDef) -> (r: bool)
    ensures
        r == defs_view(list@).contains(def_view(*d)),
{
    let mut i: usize = 0;
    while i < list.len()
        invariant
            0 <= i <= list.len(),
            forall|j: int| 0 <= j < i ==> defs_view(list@)[j] != def_view(*d),
        decreases list.len() - i,
    {
        if def_eq(&list[i], d) {
            proof {
                assert(defs_view(list@)[i as int] == def_view(*d));
            }
            return true;
        }
        i = i + 1;
    }
    proof {
        assert(!defs_view(list@).contains(def_view(*d))) by {
            if defs_view(list@).contains(def_view(*d)) {
                let j = choose|j: int|
                    0 <= j < defs_view(list@).len() && defs_view(list@)[j] == def_view(*d);
                assert(defs_view(list@)[j] != def_view(*d));
            }
        }
    }
    false
}

/// The list with every repetition of an already-kept definition removed.
/// Only identical definitions merge: two different definitions under one
/// name are both kept, so a path-name collision stays visible in the
/// output instead of silently keeping the first shape.
pub open spec fn spec_dedup_from(
    s: Seq<NamedTypeDefV>,
    i: int,
    kept: Seq<NamedTypeDefV>,
) -> Seq<NamedTypeDefV>
    decreases s.len() - i,
{
    if i < 0 || i >= s.len() {
        Seq::empty()
    } else if kept.contains(s[i]) {
        spec_dedup_from(s, i + 1, kept)
    } else {
        seq![s[i]] + spec_dedup_from(s, i + 1, kept.push(s[i]))
    }
}

pub fn dedup_defs(defs: Vec<NamedTypeDef>) -> (r: Vec<NamedTypeDef>)
    ensures
        defs_view(r@) == spec_dedup_from(defs_view(defs@), 0, Seq::empty()),
{
    let ghost dvf = defs_view(defs@);
    let mut rest = defs;
    let mut out: Vec<NamedTypeDef> = Vec::new();
    let ghost mut i: int = 0;
    proof {
        assert(defs_view(out@) =~= Seq::<NamedTypeDefV>::empty());
    }
    while rest.len() > 0
        invariant
            0 <= i <= dvf.len(),
            rest@.len() == dvf.len() - i,
            forall|j: int| 0 <= j < rest@.len() ==> def_view(rest@[j]) == dvf[i + j],
            spec_dedup_from(dvf, 0, Seq::empty()) == defs_view(out@) + spec_dedup_from(
                dvf,
                i,
                defs_view(out@),
            ),
        decreases rest@.len(),
    {
        let d = rest.remove(0);
        proof {
            assert(def_view(d) == dvf[i]);
            assert(forall|j: int| 0 <= j < rest@.len() ==> def_view(rest@[j]) == dvf[i + 1 + j]);
        }
        if contains_def(&out, &d) {
            proof {
                assert(defs_view(out@).contains(dvf[i]));
                i = i + 1;
            }
        } else {
            let ghost outv = defs_view(out@);
            proof {
                assert(!outv.contains(dvf[i]));
            }
            out.push(d);
            proof {
                assert(defs_view(out@) =~= outv.push(dvf[i]));
                assert(outv + (seq![dvf[i]] + spec_dedup_from(dvf, i + 1, outv.push(dvf[i])))
                    =~= outv.push(dvf[i]) + spec_dedup_from(dvf, i + 1, outv.push(dvf[i])));
                i = i + 1;
            }
        }
    }
    proof {
        assert(defs_view(out@) + Seq::<NamedTypeDefV>::empty() =~= defs_view(out@));
    }
    out
}

/// Everything one operation synthesizes: the Variables record with the
/// input objects and enums it reaches, then the response tree under its
/// fixed root name, deduplicated by definition name. Identical resolved
/// input always yields identical definitions in identical order.
pub open spec fn spec_synthesize(
    schema: SchemaModelV,
    ov: Seq<ScalarOverrideV>,
    root: OutputNodeV,
    decls: Seq<VariableDeclV>,
) -> Seq<NamedTypeDefV> {
    spec_dedup_from(
        spec_synth_variables(schema, ov, decls, schema.types.len()) + spec_synth_node(
            schema,
            ov,
            root,
            "ResponseData"@,
        ),
        0,
        Seq::empty(),
    )
}

pub fn synthesize(
    schema: &SchemaModel,
    reg: &ScalarRegistry,
    root: &OutputNode,
    decls: &Vec<VariableDecl>,
) -> (r: Vec<NamedTypeDef>)
    ensures
        defs_view(r@) == spec_synthesize(
            schema_view(*schema),
            reg_view(*reg),
            onode_view(*root),
            vdecls_view(decls@),
        ),
{
    let fuel = schema.types.len();
    let mut defs = synth_variables(schema, reg, decls, fuel);
    let rname = String::from_str("ResponseData");
    let mut ndefs = synth_node(schema, reg, root, &rname);
    proof {
        assert(defs_view(defs@ + ndefs@) =~= defs_view(defs@) + defs_view(ndefs@));
    }
    defs.append(&mut ndefs);
    dedup_defs(defs)
}

} // verus!

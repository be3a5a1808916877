use vstd::prelude::*;

verus! {

// ---------------------------------------------------------------------------
// The GraphQL type system, as the generator models it.
//
// A schema is a flat list of named type definitions; `TypeRef` mirrors
// GraphQL's list/non-null wrapping of a named type exactly. The model is
// built once per generation run and read-only afterwards.
// ---------------------------------------------------------------------------

/// A reference to a schema type, with GraphQL's nullability and list nesting.
pub enum TypeRef {
    Named(String),
    List(Box<TypeRef>),
    NonNull(Box<TypeRef>),
}

/// Spec-level shape of a `TypeRef`.
pub enum TypeRefV {
    Named(Seq<char>),
    List(Box<TypeRefV>),
    NonNull(Box<TypeRefV>),
}

pub open spec fn tref_view(t: TypeRef) -> TypeRefV
    decreases t,
{
    match t {
        TypeRef::Named(n) => TypeRefV::Named(n@),
        TypeRef::List(inner) => TypeRefV::List(Box::new(tref_view(*inner))),
        TypeRef::NonNull(inner) => TypeRefV::NonNull(Box::new(tref_view(*inner))),
    }
}

/// The name at the core of a type reference, below all wrappers.
pub open spec fn spec_base_name(t: TypeRefV) -> Seq<char>
    decreases t,
{
    match t {
        TypeRefV::Named(n) => n,
        TypeRefV::List(inner) => spec_base_name(*inner),
        TypeRefV::NonNull(inner) => spec_base_name(*inner),
    }
}

/// Strip list and non-null wrappers down to the named type.
pub fn base_name(t: &TypeRef) -> (r: &String)
    ensures
        r@ == spec_base_name(tref_view(*t)),
    decreases *t,
{
    match t {
        TypeRef::Named(n) => n,
        TypeRef::List(inner) => base_name(inner),
        TypeRef::NonNull(inner) => base_name(inner),
    }
}

/// Copy a type reference, wrapper for wrapper.
pub fn copy_tref(t: &TypeRef) -> (r: TypeRef)
    ensures
        tref_view(r) == tref_view(*t),
    decreases *t,
{
    match t {
        TypeRef::Named(n) => TypeRef::Named(n.clone()),
        TypeRef::List(inner) => TypeRef::List(Box::new(copy_tref(inner))),
        TypeRef::NonNull(inner) => TypeRef::NonNull(Box::new(copy_tref(inner))),
    }
}

/// One declared argument of a schema field.
pub struct ArgumentDef {
    pub name: String,
    pub ty: TypeRef,
}

pub struct ArgumentDefV {
    pub name: Seq<char>,
    pub ty: TypeRefV,
}

pub open spec fn adef_view(a: ArgumentDef) -> ArgumentDefV {
    ArgumentDefV { name: a.name@, ty: tref_view(a.ty) }
}

pub open spec fn adefs_view(s: Seq<ArgumentDef>) -> Seq<ArgumentDefV> {
    Seq::new(s.len(), |i: int| adef_view(s[i]))
}

/// A field on an object, interface, or input object type, with the
/// arguments it declares.
pub struct FieldDef {
    pub name: String,
    pub ty: TypeRef,
    pub args: Vec<ArgumentDef>,
}

pub struct FieldDefV {
    pub name: Seq<char>,
    pub ty: TypeRefV,
    pub args: Seq<ArgumentDefV>,
}

pub open spec fn field_view(f: FieldDef) -> FieldDefV {
    FieldDefV { name: f.name@, ty: tref_view(f.ty), args: adefs_view(f.args@) }
}

pub open spec fn fields_view(s: Seq<FieldDef>) -> Seq<FieldDefV> {
    Seq::new(s.len(), |i: int| field_view(s[i]))
}

/// One named definition of the schema's type system.
pub enum SchemaType {
    Object { name: String, fields: Vec<FieldDef>, implements: Vec<String> },
    Interface { name: String, fields: Vec<FieldDef>, possible: Vec<String> },
    Union { name: String, possible: Vec<String> },
    Enum { name: String, values: Vec<String> },
    Scalar { name: String },
    InputObject { name: String, fields: Vec<FieldDef> },
}

pub enum SchemaTypeV {
    Object { name: Seq<char>, fields: Seq<FieldDefV>, implements: Seq<Seq<char>> },
    Interface { name: Seq<char>, fields: Seq<FieldDefV>, possible: Seq<Seq<char>> },
    Union { name: Seq<char>, possible: Seq<Seq<char>> },
    Enum { name: Seq<char>, values: Seq<Seq<char>> },
    Scalar { name: Seq<char> },
    InputObject { name: Seq<char>, fields: Seq<FieldDefV> },
}

pub open spec fn sty_view(t: SchemaType) -> SchemaTypeV {
    match t {
        SchemaType::Object { name, fields, implements } => SchemaTypeV::Object {
            name: name@,
            fields: fields_view(fields@),
            implements: implements.deep_view(),
        },
        SchemaType::Interface { name, fields, possible } => SchemaTypeV::Interface {
            name: name@,
            fields: fields_view(fields@),
            possible: possible.deep_view(),
        },
        SchemaType::Union { name, possible } => SchemaTypeV::Union {
            name: name@,
            possible: possible.deep_view(),
        },
        SchemaType::Enum { name, values } => SchemaTypeV::Enum {
            name: name@,
            values: values.deep_view(),
        },
        SchemaType::Scalar { name } => SchemaTypeV::Scalar { name: name@ },
        SchemaType::InputObject { name, fields } => SchemaTypeV::InputObject {
            name: name@,
            fields: fields_view(fields@),
        },
    }
}

pub open spec fn stys_view(s: Seq<SchemaType>) -> Seq<SchemaTypeV> {
    Seq::new(s.len(), |i: int| sty_view(s[i]))
}

pub open spec fn sty_name(t: SchemaTypeV) -> Seq<char> {
    match t {
        SchemaTypeV::Object { name, .. } => name,
        SchemaTypeV::Interface { name, .. } => name,
        SchemaTypeV::Union { name, .. } => name,
        SchemaTypeV::Enum { name, .. } => name,
        SchemaTypeV::Scalar { name, .. } => name,
        SchemaTypeV::InputObject { name, .. } => name,
    }
}

pub fn sty_name_of(t: &SchemaType) -> (r: &String)
    ensures
        r@ == sty_name(sty_view(*t)),
{
    match t {
        SchemaType::Object { name, .. } => name,
        SchemaType::Interface { name, .. } => name,
        SchemaType::Union { name, .. } => name,
        SchemaType::Enum { name, .. } => name,
        SchemaType::Scalar { name, .. } => name,
        SchemaType::InputObject { name, .. } => name,
    }
}

/// The full type system of one schema, ready for resolution.
pub struct SchemaModel {
    pub query_root: String,
    pub mutation_root: Option<String>,
    pub subscription_root: Option<String>,
    pub types: Vec<SchemaType>,
}

pub struct SchemaModelV {
    pub query_root: Seq<char>,
    pub mutation_root: Option<Seq<char>>,
    pub subscription_root: Option<Seq<char>>,
    pub types: Seq<SchemaTypeV>,
}

pub open spec fn schema_view(m: SchemaModel) -> SchemaModelV {
    SchemaModelV {
        query_root: m.query_root@,
        mutation_root: m.mutation_root.deep_view(),
        subscription_root: m.subscription_root.deep_view(),
        types: stys_view(m.types@),
    }
}

/// The first definition named `n`, searching from index `i`.
pub open spec fn spec_lookup_from(ts: Seq<SchemaTypeV>, n: Seq<char>, i: int) -> Option<SchemaTypeV>
    decreases ts.len() - i,
{
    if i < 0 || i >= ts.len() {
        None
    } else if sty_name(ts[i]) == n {
        Some(ts[i])
    } else {
        spec_lookup_from(ts, n, i + 1)
    }
}

pub open spec fn spec_lookup(m: SchemaModelV, n: Seq<char>) -> Option<SchemaTypeV> {
    spec_lookup_from(m.types, n, 0)
}

/// Find the schema definition with the given name.
pub fn lookup_type<'a>(m: &'a SchemaModel, n: &str) -> (r: Option<&'a SchemaType>)
    ensures
        match r {
            Some(t) => spec_lookup(schema_view(*m), n@) == Some(sty_view(*t)),
            None => spec_lookup(schema_view(*m), n@) is None,
        },
{
    let ghost ts = stys_view(m.types@);
    let mut i: usize = 0;
    while i < m.types.len()
        invariant
            0 <= i <= m.types.len(),
            ts == stys_view(m.types@),
            spec_lookup_from(ts, n@, 0) == spec_lookup_from(ts, n@, i as int),
        decreases m.types.len() - i,
    {
        if crate::util::str_eq(sty_name_of(&m.types[i]).as_str(), n) {
            return Some(&m.types[i]);
        }
        i = i + 1;
    }
    None
}

// ---------------------------------------------------------------------------
// The model builder: raw definitions in, a resolution-ready model out.
// Interfaces arrive without their possible types; the builder computes them
// by scanning every object's implements list. The five built-in scalars are
// appended after the document's own definitions, and the model must name an
// object type as its query root.
// ---------------------------------------------------------------------------

#[derive(Debug)]
pub enum SchemaError {
    UnsupportedFormat { extension: String },
    ParseError { message: String },
    MissingRootType { name: String },
}

pub enum SchemaErrorV {
    UnsupportedFormat { extension: Seq<char> },
    ParseError { message: Seq<char> },
    MissingRootType { name: Seq<char> },
}

pub open spec fn scherr_view(e: SchemaError) -> SchemaErrorV {
    match e {
        SchemaError::UnsupportedFormat { extension } => SchemaErrorV::UnsupportedFormat {
            extension: extension@,
        },
        SchemaError::ParseError { message } => SchemaErrorV::ParseError { message: message@ },
        SchemaError::MissingRootType { name } => SchemaErrorV::MissingRootType { name: name@ },
    }
}

/// The names of the objects that list `iface` among their interfaces,
/// from index `i` on, in definition order.
pub open spec fn spec_implementers(defs: Seq<SchemaTypeV>, iface: Seq<char>, i: int) -> Seq<
    Seq<char>,
>
    decreases defs.len() - i,
{
    if i < 0 || i >= defs.len() {
        Seq::empty()
    } else {
        let rest = spec_implementers(defs, iface, i + 1);
        match defs[i] {
            SchemaTypeV::Object { name, implements, .. } => if implements.contains(iface) {
                seq![name] + rest
            } else {
                rest
            },
            _ => rest,
        }
    }
}

/// One definition, with an interface's possible types filled in.
pub open spec fn spec_fix_def(defs: Seq<SchemaTypeV>, d: SchemaTypeV) -> SchemaTypeV {
    match d {
        SchemaTypeV::Interface { name, fields, .. } => SchemaTypeV::Interface {
            name,
            fields,
            possible: spec_implementers(defs, name, 0),
        },
        _ => d,
    }
}

pub open spec fn spec_builtin_scalars() -> Seq<SchemaTypeV> {
    seq![
        SchemaTypeV::Scalar { name: "String"@ },
        SchemaTypeV::Scalar { name: "Int"@ },
        SchemaTypeV::Scalar { name: "Float"@ },
        SchemaTypeV::Scalar { name: "Boolean"@ },
        SchemaTypeV::Scalar { name: "ID"@ },
    ]
}

pub open spec fn spec_build_types(defs: Seq<SchemaTypeV>) -> Seq<SchemaTypeV> {
    Seq::new(defs.len(), |i: int| spec_fix_def(defs, defs[i])) + spec_builtin_scalars()
}

/// What building the model from raw definitions yields.
pub open spec fn spec_build(
    defs: Seq<SchemaTypeV>,
    query_root: Option<Seq<char>>,
    mutation_root: Option<Seq<char>>,
    subscription_root: Option<Seq<char>>,
) -> Result<SchemaModelV, SchemaErrorV> {
    let types = spec_build_types(defs);
    let q = match query_root {
        Some(n) => n,
        None => "Query"@,
    };
    match spec_lookup_from(types, q, 0) {
        Some(SchemaTypeV::Object { .. }) => Ok(
            SchemaModelV { query_root: q, mutation_root, subscription_root, types },
        ),
        _ => Err(SchemaErrorV::MissingRootType { name: q }),
    }
}

fn implementers(defs: &Vec<SchemaType>, iface: &str) -> (r: Vec<String>)
    ensures
        r.deep_view() == spec_implementers(stys_view(defs@), iface@, 0),
{
    let ghost dv = stys_view(defs@);
    let mut out: Vec<String> = Vec::new();
    let mut i: usize = 0;
    while i < defs.len()
        invariant
            0 <= i <= defs.len(),
            dv == stys_view(defs@),
            dv.len() == defs@.len(),
            spec_implementers(dv, iface@, 0) == out.deep_view() + spec_implementers(
                dv,
                iface@,
                i as int,
            ),
        decreases defs.len() - i,
    {
        proof {
            assert(dv[i as int] == sty_view(defs@[i as int]));
        }
        match &defs[i] {
            SchemaType::Object { name, implements, .. } => {
                if crate::util::contains_name(implements, iface) {
                    let ghost before = out.deep_view();
                    out.push(name.clone());
                    proof {
                        assert(out.deep_view() =~= before + seq![name@]);
                        assert(before + (seq![name@] + spec_implementers(dv, iface@, i as int + 1))
                            =~= (before + seq![name@]) + spec_implementers(
                            dv,
                            iface@,
                            i as int + 1,
                        ));
                    }
                }
            },
            _ => {},
        }
        i = i + 1;
    }
    proof {
        assert(out.deep_view() + Seq::<Seq<char>>::empty() =~= out.deep_view());
    }
    out
}

fn copy_fields(fields: &Vec<FieldDef>) -> (r: Vec<FieldDef>)
    ensures
        fields_view(r@) == fields_view(fields@),
{
    let mut out: Vec<FieldDef> = Vec::new();
    let mut i: usize = 0;
    while i < fields.len()
        invariant
            0 <= i <= fields.len(),
            out@.len() == i,
            forall|j: int| 0 <= j < i ==> field_view(out@[j]) == field_view(fields@[j]),
        decreases fields.len() - i,
    {
        let mut cargs: Vec<ArgumentDef> = Vec::new();
        let mut k: usize = 0;
        while k < fields[i].args.len()
            invariant
                0 <= k <= fields@[i as int].args.len(),
                cargs@.len() == k,
                i < fields@.len(),
                forall|j: int|
                    0 <= j < k ==> adef_view(cargs@[j]) == adef_view(fields@[i as int].args@[j]),
            decreases fields@[i as int].args@.len() - k,
        {
            let a = ArgumentDef {
                name: fields[i].args[k].name.clone(),
                ty: copy_tref(&fields[i].args[k].ty),
            };
            cargs.push(a);
            k = k + 1;
        }
        proof {
            assert(adefs_view(cargs@) =~= adefs_view(fields@[i as int].args@));
        }
        let f = FieldDef {
            name: fields[i].name.clone(),
            ty: copy_tref(&fields[i].ty),
            args: cargs,
        };
        out.push(f);
        i = i + 1;
    }
    proof {
        assert(fields_view(out@) =~= fields_view(fields@));
    }
    out
}

/// Build the schema model from raw definitions and optional root names.
pub fn build_schema(
    defs: &Vec<SchemaType>,
    query_root: Option<String>,
    mutation_root: Option<String>,
    subscription_root: Option<String>,
) -> (r: Result<SchemaModel, SchemaError>)
    ensures
        ({
            let s = spec_build(
                stys_view(defs@),
                query_root.deep_view(),
                mutation_root.deep_view(),
                subscription_root.deep_view(),
            );
            match r {
                Ok(m) => s == Ok::<SchemaModelV, SchemaErrorV>(schema_view(m)),
                Err(e) => s == Err::<SchemaModelV, SchemaErrorV>(scherr_view(e)),
            }
        }),
{
    let ghost dv = stys_view(defs@);
    let mut types: Vec<SchemaType> = Vec::new();
    let mut i: usize = 0;
    while i < defs.len()
        invariant
            0 <= i <= defs.len(),
            dv == stys_view(defs@),
            dv.len() == defs@.len(),
            types@.len() == i,
            forall|j: int| 0 <= j < i ==> sty_view(types@[j]) == spec_fix_def(dv, dv[j]),
        decreases defs.len() - i,
    {
        proof {
            assert(dv[i as int] == sty_view(defs@[i as int]));
        }
        let fixed: SchemaType = match &defs[i] {
            SchemaType::Interface { name, fields, .. } => {
                let possible = implementers(defs, name.as_str());
                SchemaType::Interface {
                    name: name.clone(),
                    fields: copy_fields(fields),
                    possible,
                }
            },
            SchemaType::Object { name, fields, implements } => SchemaType::Object {
                name: name.clone(),
                fields: copy_fields(fields),
                implements: crate::util::copy_names(implements),
            },
            SchemaType::Union { name, possible } => SchemaType::Union {
                name: name.clone(),
                possible: crate::util::copy_names(possible),
            },
            SchemaType::Enum { name, values } => SchemaType::Enum {
                name: name.clone(),
                values: crate::util::copy_names(values),
            },
            SchemaType::Scalar { name } => SchemaType::Scalar { name: name.clone() },
            SchemaType::InputObject { name, fields } => SchemaType::InputObject {
                name: name.clone(),
                fields: copy_fields(fields),
            },
        };
        types.push(fixed);
        i = i + 1;
    }
    types.push(SchemaType::Scalar { name: String::from_str("String") });
    types.push(SchemaType::Scalar { name: String::from_str("Int") });
    types.push(SchemaType::Scalar { name: String::from_str("Float") });
    types.push(SchemaType::Scalar { name: String::from_str("Boolean") });
    types.push(SchemaType::Scalar { name: String::from_str("ID") });
    proof {
        assert(stys_view(types@) =~= spec_build_types(dv));
    }
    let q: String = match &query_root {
        Some(n) => n.clone(),
        None => String::from_str("Query"),
    };
    let model = SchemaModel {
        query_root: q,
        mutation_root,
        subscription_root,
        types,
    };
    let is_object = match lookup_type(&model, model.query_root.as_str()) {
        Some(t) => match t {
            SchemaType::Object { .. } => true,
            _ => false,
        },
        None => false,
    };
    if is_object {
        Ok(model)
    } else {
        Err(SchemaError::MissingRootType { name: model.query_root })
    }
}

} // verus!

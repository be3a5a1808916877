use vstd::prelude::*;

verus! {

use crate::ast::{
    Argument, ArgumentV, Document, Selection, SelectionV, Value, ValueV, VariableDecl,
    VariableDeclV, arg_view, args_view, copy_value, frag_view, frags_view,
    lemma_args_view, lemma_oargs_size_index, lemma_sels_size_index, lemma_sels_view,
    lemma_vals_size_index, lemma_vals_view, oarg_size, oargs_size, sel_size, sel_view, sels_size,
    sels_view, val_size, val_view, vals_size, vals_view, vdecl_view, vdecls_view,
};
use crate::model::{
    SchemaModel, SchemaModelV, SchemaTypeV, TypeRefV, base_name, copy_tref, schema_view,
    spec_base_name, spec_lookup, tref_view,
};
use crate::util::{contains_name, name_in, str_eq};

// ---------------------------------------------------------------------------
// Variable binding: the declared variables of an operation become the
// fields of its Variables shape. Binding fails when an argument anywhere
// in the document references an undeclared variable, or when a declared
// variable's named type is not an input-position type (a scalar, an enum,
// or an input object); a declared variable that no argument uses is legal
// and merely warned about.
// ---------------------------------------------------------------------------

#[derive(Debug)]
pub enum VariableError {
    UndeclaredUsed { name: String },
    TypeMismatch { name: String, tyname: String },
}

pub enum VariableErrorV {
    UndeclaredUsed { name: Seq<char> },
    TypeMismatch { name: Seq<char>, tyname: Seq<char> },
}

pub open spec fn verr_view(e: VariableError) -> VariableErrorV {
    match e {
        VariableError::UndeclaredUsed { name } => VariableErrorV::UndeclaredUsed { name: name@ },
        VariableError::TypeMismatch { name, tyname } => VariableErrorV::TypeMismatch {
            name: name@,
            tyname: tyname@,
        },
    }
}

// The variable names an argument value references, in traversal order.

pub open spec fn spec_vars_val(v: ValueV) -> Seq<Seq<char>>
    decreases val_size(v), 0nat,
{
    match v {
        ValueV::Variable(n) => seq![n],
        ValueV::Scalar(_) => Seq::empty(),
        ValueV::ListVal(items) => spec_vars_vals(items),
        ValueV::ObjectVal(fields) => spec_vars_oargs(fields),
    }
}

pub open spec fn spec_vars_vals(s: Seq<ValueV>) -> Seq<Seq<char>>
    decreases vals_size(s), s.len(),
{
    if s.len() == 0 {
        Seq::empty()
    } else {
        spec_vars_val(s.first()) + spec_vars_vals(s.drop_first())
    }
}

pub open spec fn spec_vars_oarg(a: ArgumentV) -> Seq<Seq<char>>
    decreases oarg_size(a), 0nat,
{
    spec_vars_val(a.value)
}

pub open spec fn spec_vars_oargs(s: Seq<ArgumentV>) -> Seq<Seq<char>>
    decreases oargs_size(s), s.len(),
{
    if s.len() == 0 {
        Seq::empty()
    } else {
        spec_vars_oarg(s.first()) + spec_vars_oargs(s.drop_first())
    }
}

pub open spec fn spec_vars_sel(s: SelectionV) -> Seq<Seq<char>>
    decreases sel_size(s), 0nat,
{
    match s {
        SelectionV::Field { args, sels, .. } => spec_vars_oargs(args) + spec_vars_sels(sels),
        SelectionV::FragmentSpread { .. } => Seq::empty(),
        SelectionV::InlineFragment { sels, .. } => spec_vars_sels(sels),
    }
}

pub open spec fn spec_vars_sels(s: Seq<SelectionV>) -> Seq<Seq<char>>
    decreases sels_size(s), s.len(),
{
    if s.len() == 0 {
        Seq::empty()
    } else {
        spec_vars_sel(s.first()) + spec_vars_sels(s.drop_first())
    }
}

/// Collect the variable names an argument value references.
pub fn vars_val(v: &Value, out: &mut Vec<String>)
    ensures
        final(out).deep_view() == old(out).deep_view() + spec_vars_val(val_view(*v)),
    decreases val_size(val_view(*v)), 0nat,
{
    let ghost start = out.deep_view();
    match v {
        Value::Variable(n) => {
            out.push(n.clone());
            proof {
                assert(out.deep_view() =~= start + seq![n@]);
            }
        },
        Value::Scalar(_) => {
            proof {
                assert(out.deep_view() =~= start + Seq::<Seq<char>>::empty());
            }
        },
        Value::ListVal(items) => {
            let ghost vv = vals_view(items@);
            proof {
                lemma_vals_view(items@);
                assert(vv.skip(0) =~= vv);
            }
            let mut i: usize = 0;
            while i < items.len()
                invariant
                    0 <= i <= items.len(),
                    vv == vals_view(items@),
                    vv.len() == items@.len(),
                    forall|j: int| 0 <= j < vv.len() ==> vv[j] == val_view(items@[j]),
                    val_view(*v) == ValueV::ListVal(vv),
                    start + spec_vars_vals(vv) == out.deep_view() + spec_vars_vals(
                        vv.skip(i as int),
                    ),
                decreases items.len() - i,
            {
                proof {
                    assert(vv[i as int] == val_view(items@[i as int]));
                    assert(vv.skip(i as int).first() == vv[i as int]);
                    assert(vv.skip(i as int).drop_first() =~= vv.skip(i as int + 1));
                    lemma_vals_size_index(vv, i as int);
                }
                let ghost before = out.deep_view();
                vars_val(&items[i], out);
                proof {
                    assert(before + (spec_vars_val(vv[i as int]) + spec_vars_vals(
                        vv.skip(i as int + 1),
                    )) =~= (before + spec_vars_val(vv[i as int])) + spec_vars_vals(
                        vv.skip(i as int + 1),
                    ));
                }
                i = i + 1;
            }
            proof {
                assert(vv.skip(i as int) =~= Seq::<ValueV>::empty());
                assert(out.deep_view() + Seq::<Seq<char>>::empty() =~= out.deep_view());
            }
        },
        Value::ObjectVal(fields) => {
            let ghost av = args_view(fields@);
            proof {
                lemma_args_view(fields@);
                assert(av.skip(0) =~= av);
            }
            let mut i: usize = 0;
            while i < fields.len()
                invariant
                    0 <= i <= fields.len(),
                    av == args_view(fields@),
                    av.len() == fields@.len(),
                    forall|j: int| 0 <= j < av.len() ==> av[j] == arg_view(fields@[j]),
                    val_view(*v) == ValueV::ObjectVal(av),
                    start + spec_vars_oargs(av) == out.deep_view() + spec_vars_oargs(
                        av.skip(i as int),
                    ),
                decreases fields.len() - i,
            {
                proof {
                    assert(av[i as int] == arg_view(fields@[i as int]));
                    assert(av.skip(i as int).first() == av[i as int]);
                    assert(av.skip(i as int).drop_first() =~= av.skip(i as int + 1));
                    lemma_oargs_size_index(av, i as int);
                    assert(spec_vars_oarg(av[i as int]) == spec_vars_val(av[i as int].value));
                    assert(spec_vars_oargs(av.skip(i as int)) == spec_vars_oarg(av[i as int])
                        + spec_vars_oargs(av.skip(i as int + 1)));
                }
                let ghost before = out.deep_view();
                vars_val(&fields[i].value, out);
                proof {
                    assert(before + (spec_vars_val(av[i as int].value) + spec_vars_oargs(
                        av.skip(i as int + 1),
                    )) =~= (before + spec_vars_val(av[i as int].value)) + spec_vars_oargs(
                        av.skip(i as int + 1),
                    ));
                }
                i = i + 1;
            }
            proof {
                assert(av.skip(i as int) =~= Seq::<ArgumentV>::empty());
                assert(out.deep_view() + Seq::<Seq<char>>::empty() =~= out.deep_view());
            }
        },
    }
}

/// Collect the variable names a selection list references.
pub fn vars_sels(sels: &Vec<Selection>, out: &mut Vec<String>)
    ensures
        final(out).deep_view() == old(out).deep_view() + spec_vars_sels(sels_view(sels@)),
    decreases sels_size(sels_view(sels@)), 1nat,
{
    let ghost start = out.deep_view();
    let ghost vs = sels_view(sels@);
    proof {
        lemma_sels_view(sels@);
        assert(vs.skip(0) =~= vs);
    }
    let mut i: usize = 0;
    while i < sels.len()
        invariant
            0 <= i <= sels.len(),
            vs == sels_view(sels@),
            vs.len() == sels@.len(),
            forall|j: int| 0 <= j < vs.len() ==> vs[j] == sel_view(sels@[j]),
            start + spec_vars_sels(vs) == out.deep_view() + spec_vars_sels(vs.skip(i as int)),
        decreases sels.len() - i,
    {
        proof {
            assert(vs[i as int] == sel_view(sels@[i as int]));
            assert(vs.skip(i as int).first() == vs[i as int]);
            assert(vs.skip(i as int).drop_first() =~= vs.skip(i as int + 1));
            lemma_sels_size_index(vs, i as int);
        }
        let ghost before = out.deep_view();
        match &sels[i] {
            Selection::Field { args, sels: subsels, .. } => {
                let ghost av = args_view(args@);
                let ghost mid0 = out.deep_view();
                proof {
                    lemma_args_view(args@);
                    assert(av.skip(0) =~= av);
                }
                let mut k: usize = 0;
                while k < args.len()
                    invariant
                        0 <= k <= args.len(),
                        av == args_view(args@),
                        av.len() == args@.len(),
                        forall|j: int| 0 <= j < av.len() ==> av[j] == arg_view(args@[j]),
                        mid0 + spec_vars_oargs(av) == out.deep_view() + spec_vars_oargs(
                            av.skip(k as int),
                        ),
                        sels_size(sels_view(sels@)) == sels_size(vs),
                        vs == sels_view(sels@),
                        vs.len() == sels@.len(),
                        i < sels@.len(),
                        sels@[i as int] is Field,
                        av == args_view(sels@[i as int]->Field_args@),
                        oargs_size(av) < sel_size(sel_view(sels@[i as int])),
                        sel_size(sel_view(sels@[i as int])) <= sels_size(vs),
                    decreases args.len() - k,
                {
                    proof {
                        assert(av[k as int] == arg_view(args@[k as int]));
                        assert(av.skip(k as int).first() == av[k as int]);
                        assert(av.skip(k as int).drop_first() =~= av.skip(k as int + 1));
                        lemma_oargs_size_index(av, k as int);
                        assert(spec_vars_oarg(av[k as int]) == spec_vars_val(av[k as int].value));
                        assert(spec_vars_oargs(av.skip(k as int)) == spec_vars_oarg(av[k as int])
                            + spec_vars_oargs(av.skip(k as int + 1)));
                    }
                    let ghost b2 = out.deep_view();
                    vars_val(&args[k].value, out);
                    proof {
                        assert(b2 + (spec_vars_val(av[k as int].value) + spec_vars_oargs(
                            av.skip(k as int + 1),
                        )) =~= (b2 + spec_vars_val(av[k as int].value)) + spec_vars_oargs(
                            av.skip(k as int + 1),
                        ));
                    }
                    k = k + 1;
                }
                proof {
                    assert(av.skip(k as int) =~= Seq::<ArgumentV>::empty());
                    assert(out.deep_view() + Seq::<Seq<char>>::empty() =~= out.deep_view());
                }
                vars_sels(subsels, out);
                proof {
                    assert(before + (spec_vars_oargs(av) + spec_vars_sels(sels_view(subsels@)))
                        =~= (before + spec_vars_oargs(av)) + spec_vars_sels(sels_view(subsels@)));
                    assert(before + (spec_vars_sel(vs[i as int]) + spec_vars_sels(
                        vs.skip(i as int + 1),
                    )) =~= (before + spec_vars_sel(vs[i as int])) + spec_vars_sels(
                        vs.skip(i as int + 1),
                    ));
                }
            },
            Selection::FragmentSpread { .. } => {
                proof {
                    assert(before + (spec_vars_sel(vs[i as int]) + spec_vars_sels(
                        vs.skip(i as int + 1),
                    )) =~= (before + spec_vars_sel(vs[i as int])) + spec_vars_sels(
                        vs.skip(i as int + 1),
                    ));
                    assert(before + Seq::<Seq<char>>::empty() =~= before);
                }
            },
            Selection::InlineFragment { sels: body, .. } => {
                vars_sels(body, out);
                proof {
                    assert(before + (spec_vars_sel(vs[i as int]) + spec_vars_sels(
                        vs.skip(i as int + 1),
                    )) =~= (before + spec_vars_sel(vs[i as int])) + spec_vars_sels(
                        vs.skip(i as int + 1),
                    ));
                }
            },
        }
        i = i + 1;
    }
    proof {
        assert(vs.skip(i as int) =~= Seq::<SelectionV>::empty());
        assert(out.deep_view() + Seq::<Seq<char>>::empty() =~= out.deep_view());
    }
}

/// Every variable name the document references: the operation's selections
/// first, then each fragment's, in order.
pub open spec fn spec_doc_vars(opsels: Seq<SelectionV>, frags: Seq<crate::ast::FragmentV>) -> Seq<
    Seq<char>,
>
    decreases frags.len(),
{
    if frags.len() == 0 {
        spec_vars_sels(opsels)
    } else {
        spec_doc_vars(opsels, frags.drop_last()) + spec_vars_sels(frags.last().sels)
    }
}

pub fn doc_vars(doc: &Document) -> (out: Vec<String>)
    ensures
        out.deep_view() == spec_doc_vars(
            sels_view(doc.operation.sels@),
            frags_view(doc.fragments@),
        ),
{
    let ghost fv = frags_view(doc.fragments@);
    let mut out: Vec<String> = Vec::new();
    proof {
        assert(out.deep_view() =~= Seq::<Seq<char>>::empty());
    }
    vars_sels(&doc.operation.sels, &mut out);
    proof {
        assert(Seq::<Seq<char>>::empty() + spec_vars_sels(sels_view(doc.operation.sels@))
            =~= spec_vars_sels(sels_view(doc.operation.sels@)));
        assert(fv.take(0) =~= Seq::<crate::ast::FragmentV>::empty());
        assert(out.deep_view() == spec_doc_vars(sels_view(doc.operation.sels@), fv.take(0)));
    }
    let mut i: usize = 0;
    while i < doc.fragments.len()
        invariant
            0 <= i <= doc.fragments.len(),
            fv == frags_view(doc.fragments@),
            fv.len() == doc.fragments@.len(),
            out.deep_view() == spec_doc_vars(
                sels_view(doc.operation.sels@),
                fv.take(i as int),
            ),
        decreases doc.fragments.len() - i,
    {
        proof {
            assert(fv[i as int] == frag_view(doc.fragments@[i as int]));
            assert(fv.take(i as int + 1).drop_last() =~= fv.take(i as int));
            assert(fv.take(i as int + 1).last() == fv[i as int]);
        }
        vars_sels(&doc.fragments[i].sels, &mut out);
        i = i + 1;
    }
    proof {
        assert(fv.take(i as int) =~= fv);
    }
    out
}

// ---------------------------------------------------------------------------
// The binder itself.
// ---------------------------------------------------------------------------

/// A declared variable's named type must be usable in input position.
pub open spec fn spec_input_type_ok(schema: SchemaModelV, d: VariableDeclV) -> bool {
    match spec_lookup(schema, spec_base_name(d.ty)) {
        Some(SchemaTypeV::Scalar { .. }) => true,
        Some(SchemaTypeV::Enum { .. }) => true,
        Some(SchemaTypeV::InputObject { .. }) => true,
        _ => false,
    }
}

pub open spec fn decl_names(decls: Seq<VariableDeclV>) -> Seq<Seq<char>> {
    Seq::new(decls.len(), |i: int| decls[i].name)
}

/// The first used variable that no declaration names.
pub open spec fn spec_first_undeclared(used: Seq<Seq<char>>, names: Seq<Seq<char>>, i: int) -> Option<
    Seq<char>,
>
    decreases used.len() - i,
{
    if i < 0 || i >= used.len() {
        None
    } else if !names.contains(used[i]) {
        Some(used[i])
    } else {
        spec_first_undeclared(used, names, i + 1)
    }
}

/// The first declaration whose type is not an input type.
pub open spec fn spec_first_bad_decl(schema: SchemaModelV, decls: Seq<VariableDeclV>, i: int) -> Option<
    VariableDeclV,
>
    decreases decls.len() - i,
{
    if i < 0 || i >= decls.len() {
        None
    } else if !spec_input_type_ok(schema, decls[i]) {
        Some(decls[i])
    } else {
        spec_first_bad_decl(schema, decls, i + 1)
    }
}

/// What binding an operation's variables yields.
pub open spec fn spec_bind(
    schema: SchemaModelV,
    decls: Seq<VariableDeclV>,
    used: Seq<Seq<char>>,
) -> Result<Seq<VariableDeclV>, VariableErrorV> {
    match spec_first_undeclared(used, decl_names(decls), 0) {
        Some(n) => Err(VariableErrorV::UndeclaredUsed { name: n }),
        None => match spec_first_bad_decl(schema, decls, 0) {
            Some(d) => Err(
                VariableErrorV::TypeMismatch { name: d.name, tyname: spec_base_name(d.ty) },
            ),
            None => Ok(decls),
        },
    }
}

/// Which declarations no argument uses, in declaration order.
pub open spec fn spec_unused(decls: Seq<VariableDeclV>, used: Seq<Seq<char>>) -> Seq<Seq<char>> {
    decl_names(decls).filter(|n: Seq<char>| !used.contains(n))
}

/// A validated Variables shape: the declarations, with the names of those
/// that nothing uses.
pub struct BoundVariables {
    pub decls: Vec<VariableDecl>,
    pub unused: Vec<String>,
}

pub fn copy_decl(d: &VariableDecl) -> (r: VariableDecl)
    ensures
        vdecl_view(r) == vdecl_view(*d),
{
    VariableDecl {
        name: d.name.clone(),
        ty: copy_tref(&d.ty),
        default_value: match &d.default_value {
            Some(v) => Some(copy_value(v)),
            None => None,
        },
    }
}

/// Bind a document's declared variables against the schema.
pub fn bind(schema: &SchemaModel, doc: &Document) -> (r: Result<BoundVariables, VariableError>)
    ensures
        ({
            let s = spec_bind(
                schema_view(*schema),
                vdecls_view(doc.operation.variables@),
                spec_doc_vars(sels_view(doc.operation.sels@), frags_view(doc.fragments@)),
            );
            match r {
                Ok(b) => s == Ok::<Seq<VariableDeclV>, VariableErrorV>(vdecls_view(b.decls@))
                    && b.unused.deep_view() == spec_unused(
                    vdecls_view(doc.operation.variables@),
                    spec_doc_vars(sels_view(doc.operation.sels@), frags_view(doc.fragments@)),
                ),
                Err(e) => s == Err::<Seq<VariableDeclV>, VariableErrorV>(verr_view(e)),
            }
        }),
{
    let ghost sv = schema_view(*schema);
    let ghost dv = vdecls_view(doc.operation.variables@);
    let used = doc_vars(doc);
    let ghost uv = used.deep_view();

    let decls = &doc.operation.variables;
    let mut names: Vec<String> = Vec::new();
    let mut i: usize = 0;
    while i < decls.len()
        invariant
            0 <= i <= decls.len(),
            dv == vdecls_view(decls@),
            dv.len() == decls@.len(),
            names@.len() == i,
            forall|j: int| 0 <= j < i ==> names@[j] == decls@[j].name,
        decreases decls.len() - i,
    {
        names.push(decls[i].name.clone());
        i = i + 1;
    }
    proof {
        assert forall|j: int| 0 <= j < dv.len() implies names.deep_view()[j] == decl_names(dv)[j] by {
            assert(dv[j] == vdecl_view(decls@[j]));
            assert(names@[j] == decls@[j].name);
        }
        assert(names.deep_view() =~= decl_names(dv));
    }

    let mut u: usize = 0;
    while u < used.len()
        invariant
            0 <= u <= used.len(),
            uv == used.deep_view(),
            uv == spec_doc_vars(sels_view(doc.operation.sels@), frags_view(doc.fragments@)),
            dv == vdecls_view(doc.operation.variables@),
            uv.len() == used@.len(),
            names.deep_view() == decl_names(dv),
            spec_first_undeclared(uv, decl_names(dv), 0) == spec_first_undeclared(
                uv,
                decl_names(dv),
                u as int,
            ),
        decreases used.len() - u,
    {
        if !contains_name(&names, used[u].as_str()) {
            proof {
                assert(uv[u as int] == used@[u as int]@);
            }
            return Err(VariableError::UndeclaredUsed { name: used[u].clone() });
        }
        u = u + 1;
    }

    let mut d: usize = 0;
    while d < decls.len()
        invariant
            0 <= d <= decls.len(),
            sv == schema_view(*schema),
            dv == vdecls_view(decls@),
            dv == vdecls_view(doc.operation.variables@),
            dv.len() == decls@.len(),
            spec_first_undeclared(uv, decl_names(dv), 0) is None,
            uv == used.deep_view(),
            uv == spec_doc_vars(sels_view(doc.operation.sels@), frags_view(doc.fragments@)),
            spec_first_bad_decl(sv, dv, 0) == spec_first_bad_decl(sv, dv, d as int),
        decreases decls.len() - d,
    {
        proof {
            assert(dv[d as int] == vdecl_view(decls@[d as int]));
        }
        let bn = base_name(&decls[d].ty);
        let ok = match crate::model::lookup_type(schema, bn.as_str()) {
            Some(t) => match t {
                crate::model::SchemaType::Scalar { .. } => true,
                crate::model::SchemaType::Enum { .. } => true,
                crate::model::SchemaType::InputObject { .. } => true,
                _ => false,
            },
            None => false,
        };
        if !ok {
            return Err(
                VariableError::TypeMismatch { name: decls[d].name.clone(), tyname: bn.clone() },
            );
        }
        d = d + 1;
    }

    let mut out_decls: Vec<VariableDecl> = Vec::new();
    let mut k: usize = 0;
    while k < decls.len()
        invariant
            0 <= k <= decls.len(),
            dv == vdecls_view(decls@),
            dv.len() == decls@.len(),
            out_decls@.len() == k,
            forall|j: int| 0 <= j < k ==> vdecl_view(out_decls@[j]) == dv[j],
        decreases decls.len() - k,
    {
        proof {
            assert(dv[k as int] == vdecl_view(decls@[k as int]));
        }
        let c = copy_decl(&decls[k]);
        out_decls.push(c);
        k = k + 1;
    }
    proof {
        assert(vdecls_view(out_decls@) =~= dv);
    }

    let mut unused: Vec<String> = Vec::new();
    let mut w: usize = 0;
    while w < decls.len()
        invariant
            0 <= w <= decls.len(),
            dv == vdecls_view(decls@),
            dv.len() == decls@.len(),
            uv == used.deep_view(),
            unused.deep_view() =~= decl_names(dv).take(w as int).filter(
                |n: Seq<char>| !uv.contains(n),
            ),
        decreases decls.len() - w,
    {
        proof {
            assert(dv[w as int] == vdecl_view(decls@[w as int]));
            reveal(Seq::filter);
            assert(decl_names(dv).take(w as int + 1).drop_last() =~= decl_names(dv).take(
                w as int,
            ));
            assert(decl_names(dv).take(w as int + 1).last() == dv[w as int].name);
        }
        if !contains_name(&used, decls[w].name.as_str()) {
            unused.push(decls[w].name.clone());
            proof {
                assert(unused.deep_view() =~= decl_names(dv).take(w as int + 1).filter(
                    |n: Seq<char>| !uv.contains(n),
                ));
            }
        } else {
            proof {
                assert(unused.deep_view() =~= decl_names(dv).take(w as int + 1).filter(
                    |n: Seq<char>| !uv.contains(n),
                ));
            }
        }
        w = w + 1;
    }
    proof {
        assert(decl_names(dv).take(decls.len() as int) =~= decl_names(dv));
    }
    Ok(BoundVariables { decls: out_decls, unused })
}

} // verus!

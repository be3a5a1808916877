use vstd::prelude::*;

pub mod ast;
pub mod fragments;
pub mod model;
pub mod output;
pub mod selection;
pub mod synth;
pub mod util;
pub mod variables;

pub mod laws;

verus! {

use crate::ast::{
    Document, Operation, OperationKind, VariableDeclV, frags_view, sels_view, vdecls_view,
};
use crate::fragments::{FragmentError, FragmentErrorV, FragmentLibrary, expand, ferr_view,
    index_fragments, spec_expand};
use crate::model::{SchemaError, SchemaErrorV, SchemaModel, SchemaModelV, scherr_view,
    schema_view};
use crate::output::{OutputNodeV, onode_view};
use crate::selection::{ResolveError, ResolveErrorV, SelectionError, SelectionErrorV, rerr_view,
    resolve_type, spec_resolve_type};
use crate::synth::{NamedTypeDef, NamedTypeDefV, ScalarOverrideV, ScalarRegistry, defs_view,
    reg_view, spec_synthesize, synthesize};
use crate::util::str_eq;
use crate::variables::{VariableError, VariableErrorV, bind, spec_bind, spec_doc_vars,
    spec_unused, verr_view};

/// Decide the schema source format from a file extension, as the
/// generator's entry point does before handing the text to a parser.
pub enum SchemaFormat {
    Sdl,
    IntrospectionJson,
}

/// Map a schema file extension to the format the builder accepts.
/// `graphql` and `gql` hold SDL text, `json` an introspection document;
/// anything else is unsupported.
pub fn schema_format_of_extension(ext: &str) -> (r: Option<SchemaFormat>)
    ensures
        (ext@ == "graphql"@ || ext@ == "gql"@) <==> (r is Some && r->0 is Sdl),
        (ext@ == "json"@) <==> (r is Some && r->0 is IntrospectionJson),
{
    proof {
        reveal_strlit("graphql");
        reveal_strlit("gql");
        reveal_strlit("json");
        assert("graphql"@.len() == 7);
        assert("gql"@.len() == 3);
        assert("json"@.len() == 4);
    }
    if str_eq(ext, "graphql") || str_eq(ext, "gql") {
        Some(SchemaFormat::Sdl)
    } else if str_eq(ext, "json") {
        Some(SchemaFormat::IntrospectionJson)
    } else {
        None
    }
}

/// Everything one generation run can fail with. A failed run emits no
/// definitions at all.
#[derive(Debug)]
pub enum GenError {
    Schema(SchemaError),
    Fragment(FragmentError),
    Selection(SelectionError),
    Variable(VariableError),
}

pub enum GenErrorV {
    Schema(SchemaErrorV),
    Fragment(FragmentErrorV),
    Selection(SelectionErrorV),
    Variable(VariableErrorV),
}

pub open spec fn gerr_view(e: GenError) -> GenErrorV {
    match e {
        GenError::Schema(x) => GenErrorV::Schema(scherr_view(x)),
        GenError::Fragment(x) => GenErrorV::Fragment(ferr_view(x)),
        GenError::Selection(x) => GenErrorV::Selection(crate::selection::serr_view(x)),
        GenError::Variable(x) => GenErrorV::Variable(verr_view(x)),
    }
}

pub open spec fn gen_of_resolve(e: ResolveErrorV) -> GenErrorV {
    match e {
        ResolveErrorV::Selection(s) => GenErrorV::Selection(s),
        ResolveErrorV::Fragment(f) => GenErrorV::Fragment(f),
    }
}

/// The root type an operation resolves against.
pub open spec fn spec_root_name(schema: SchemaModelV, kind: OperationKind) -> Result<
    Seq<char>,
    GenErrorV,
> {
    match kind {
        OperationKind::Query => Ok(schema.query_root),
        OperationKind::Mutation => match schema.mutation_root {
            Some(n) => Ok(n),
            None => Err(
                GenErrorV::Schema(SchemaErrorV::MissingRootType { name: "Mutation"@ }),
            ),
        },
        OperationKind::Subscription => match schema.subscription_root {
            Some(n) => Ok(n),
            None => Err(
                GenErrorV::Schema(SchemaErrorV::MissingRootType { name: "Subscription"@ }),
            ),
        },
    }
}

/// What the generated bundle holds: every named definition, and the names
/// of declared variables that nothing uses.
pub struct Generated {
    pub defs: Vec<NamedTypeDef>,
    pub unused: Vec<String>,
}

/// What one generation run yields for a parsed document: the definitions
/// and the unused-variable warnings, or the first error, in the fixed
/// order root type, fragment expansion, selection resolution, variable
/// binding.
pub open spec fn spec_generate(
    schema: SchemaModelV,
    ov: Seq<ScalarOverrideV>,
    kind: OperationKind,
    decls: Seq<VariableDeclV>,
    opsels: Seq<crate::ast::SelectionV>,
    frags: Seq<crate::ast::FragmentV>,
) -> Result<(Seq<NamedTypeDefV>, Seq<Seq<char>>), GenErrorV> {
    match spec_root_name(schema, kind) {
        Err(e) => Err(e),
        Ok(root) => match spec_expand(frags, opsels) {
            Err(fe) => Err(GenErrorV::Fragment(fe)),
            Ok(expanded) => match spec_resolve_type(schema, root, expanded) {
                Err(re) => Err(gen_of_resolve(re)),
                Ok(node) => match spec_bind(schema, decls, spec_doc_vars(opsels, frags)) {
                    Err(ve) => Err(GenErrorV::Variable(ve)),
                    Ok(bound) => Ok(
                        (
                            spec_synthesize(schema, ov, node, bound),
                            spec_unused(decls, spec_doc_vars(opsels, frags)),
                        ),
                    ),
                },
            },
        },
    }
}

/// Run the whole pipeline for one parsed document.
pub fn generate(schema: &SchemaModel, reg: &ScalarRegistry, doc: Document) -> (r: Result<
    Generated,
    GenError,
>)
    ensures
        ({
            let s = spec_generate(
                schema_view(*schema),
                reg_view(*reg),
                doc.operation.kind,
                vdecls_view(doc.operation.variables@),
                sels_view(doc.operation.sels@),
                frags_view(doc.fragments@),
            );
            match r {
                Ok(g) => s == Ok::<(Seq<NamedTypeDefV>, Seq<Seq<char>>), GenErrorV>(
                    (defs_view(g.defs@), g.unused.deep_view()),
                ),
                Err(e) => s == Err::<(Seq<NamedTypeDefV>, Seq<Seq<char>>), GenErrorV>(
                    gerr_view(e),
                ),
            }
        }),
{
    let bind_r = bind(schema, &doc);
    let root: String = match doc.operation.kind {
        OperationKind::Query => schema.query_root.clone(),
        OperationKind::Mutation => match &schema.mutation_root {
            Some(n) => n.clone(),
            None => {
                return Err(
                    GenError::Schema(
                        SchemaError::MissingRootType { name: String::from_str("Mutation") },
                    ),
                );
            },
        },
        OperationKind::Subscription => match &schema.subscription_root {
            Some(n) => n.clone(),
            None => {
                return Err(
                    GenError::Schema(
                        SchemaError::MissingRootType { name: String::from_str("Subscription") },
                    ),
                );
            },
        },
    };
    let Document { operation, fragments } = doc;
    let lib: FragmentLibrary = index_fragments(fragments);
    let expanded = match expand(&lib, &operation.sels) {
        Err(fe) => {
            return Err(GenError::Fragment(fe));
        },
        Ok(x) => x,
    };
    let node = match resolve_type(schema, root.as_str(), &expanded) {
        Err(re) => {
            return Err(
                match re {
                    ResolveError::Selection(s) => GenError::Selection(s),
                    ResolveError::Fragment(f) => GenError::Fragment(f),
                },
            );
        },
        Ok(n) => n,
    };
    match bind_r {
        Err(ve) => Err(GenError::Variable(ve)),
        Ok(bound) => {
            let defs = synthesize(schema, reg, &node, &bound.decls);
            Ok(Generated { defs, unused: bound.unused })
        },
    }
}

} // verus!

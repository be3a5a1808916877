use vstd::prelude::*;

verus! {

use crate::model::{TypeRef, TypeRefV, tref_view};
use crate::util::str_eq;

// ---------------------------------------------------------------------------
// The operation-side abstract syntax: what an external GraphQL parser hands
// the generator. Selections are recursive; fragment spreads refer into a
// per-document fragment library.
// ---------------------------------------------------------------------------

/// An argument value, as far as generation needs it: variable references
/// must be found anywhere inside, everything else is carried opaquely.
pub enum Value {
    Variable(String),
    Scalar(String),
    ListVal(Vec<Value>),
    ObjectVal(Vec<Argument>),
}

/// A named argument (also an input-object field inside a value).
pub struct Argument {
    pub name: String,
    pub value: Value,
}

pub enum ValueV {
    Variable(Seq<char>),
    Scalar(Seq<char>),
    ListVal(Seq<ValueV>),
    ObjectVal(Seq<ArgumentV>),
}

pub struct ArgumentV {
    pub name: Seq<char>,
    pub value: ValueV,
}

pub open spec fn val_view(v: Value) -> ValueV
    decreases v,
{
    match v {
        Value::Variable(n) => ValueV::Variable(n@),
        Value::Scalar(s) => ValueV::Scalar(s@),
        Value::ListVal(items) => ValueV::ListVal(vals_view(items@)),
        Value::ObjectVal(fields) => ValueV::ObjectVal(args_view(fields@)),
    }
}

pub open spec fn vals_view(s: Seq<Value>) -> Seq<ValueV>
    decreases s,
{
    if s.len() == 0 {
        Seq::empty()
    } else {
        seq![val_view(s.first())] + vals_view(s.drop_first())
    }
}

pub open spec fn arg_view(a: Argument) -> ArgumentV
    decreases a,
{
    ArgumentV { name: a.name@, value: val_view(a.value) }
}

pub open spec fn args_view(s: Seq<Argument>) -> Seq<ArgumentV>
    decreases s,
{
    if s.len() == 0 {
        Seq::empty()
    } else {
        seq![arg_view(s.first())] + args_view(s.drop_first())
    }
}

pub proof fn lemma_vals_view(s: Seq<Value>)
    ensures
        vals_view(s).len() == s.len(),
        forall|i: int| 0 <= i < s.len() ==> vals_view(s)[i] == val_view(s[i]),
    decreases s.len(),
{
    if s.len() > 0 {
        lemma_vals_view(s.drop_first());
    }
}

pub proof fn lemma_args_view(s: Seq<Argument>)
    ensures
        args_view(s).len() == s.len(),
        forall|i: int| 0 <= i < s.len() ==> args_view(s)[i] == arg_view(s[i]),
    decreases s.len(),
{
    if s.len() > 0 {
        lemma_args_view(s.drop_first());
    }
}

/// Structural size of an argument value, the termination measure for walks
/// over value trees.
pub open spec fn val_size(v: ValueV) -> nat
    decreases v,
{
    match v {
        ValueV::Variable(_) => 1,
        ValueV::Scalar(_) => 1,
        ValueV::ListVal(items) => 1 + vals_size(items),
        ValueV::ObjectVal(fields) => 1 + oargs_size(fields),
    }
}

pub open spec fn vals_size(s: Seq<ValueV>) -> nat
    decreases s,
{
    if s.len() == 0 {
        0
    } else {
        val_size(s.first()) + vals_size(s.drop_first())
    }
}

pub open spec fn oarg_size(a: ArgumentV) -> nat
    decreases a,
{
    1 + val_size(a.value)
}

pub open spec fn oargs_size(s: Seq<ArgumentV>) -> nat
    decreases s,
{
    if s.len() == 0 {
        0
    } else {
        oarg_size(s.first()) + oargs_size(s.drop_first())
    }
}

/// Whether two argument values are identical, character for character.
pub fn value_eq(a: &Value, b: &Value) -> (r: bool)
    ensures
        r == (val_view(*a) == val_view(*b)),
    decreases val_size(val_view(*a)), 0nat,
{
    match (a, b) {
        (Value::Variable(x), Value::Variable(y)) => str_eq(x.as_str(), y.as_str()),
        (Value::Scalar(x), Value::Scalar(y)) => str_eq(x.as_str(), y.as_str()),
        (Value::ListVal(x), Value::ListVal(y)) => {
            proof {
                assert(val_view(*a) == ValueV::ListVal(vals_view(x@)));
            }
            values_eq(x, y)
        },
        (Value::ObjectVal(x), Value::ObjectVal(y)) => {
            proof {
                assert(val_view(*a) == ValueV::ObjectVal(args_view(x@)));
            }
            args_eq(x, y)
        },
        _ => false,
    }
}

pub fn values_eq(a: &Vec<Value>, b: &Vec<Value>) -> (r: bool)
    ensures
        r == (vals_view(a@) == vals_view(b@)),
    decreases vals_size(vals_view(a@)), 1nat,
{
    proof {
        lemma_vals_view(a@);
        lemma_vals_view(b@);
    }
    if a.len() != b.len() {
        proof {
            assert(vals_view(a@).len() != vals_view(b@).len());
        }
        return false;
    }
    let mut i: usize = 0;
    while i < a.len()
        invariant
            0 <= i <= a.len(),
            a@.len() == b@.len(),
            vals_view(a@).len() == a@.len(),
            vals_view(b@).len() == b@.len(),
            forall|j: int| 0 <= j < a@.len() ==> vals_view(a@)[j] == val_view(a@[j]),
            forall|j: int| 0 <= j < b@.len() ==> vals_view(b@)[j] == val_view(b@[j]),
            forall|j: int| 0 <= j < i ==> val_view(a@[j]) == val_view(b@[j]),
        decreases a.len() - i,
    {
        proof {
            lemma_vals_size_index(vals_view(a@), i as int);
        }
        let same = value_eq(&a[i], &b[i]);
        if !same {
            proof {
                assert(vals_view(a@)[i as int] != vals_view(b@)[i as int]);
            }
            return false;
        }
        i = i + 1;
    }
    proof {
        assert(vals_view(a@) =~= vals_view(b@));
    }
    true
}

/// Whether two argument lists are identical: same names, same values, in
/// the same order.
pub fn args_eq(a: &Vec<Argument>, b: &Vec<Argument>) -> (r: bool)
    ensures
        r == (args_view(a@) == args_view(b@)),
    decreases oargs_size(args_view(a@)), 1nat,
{
    proof {
        lemma_args_view(a@);
        lemma_args_view(b@);
    }
    if a.len() != b.len() {
        proof {
            assert(args_view(a@).len() != args_view(b@).len());
        }
        return false;
    }
    let mut i: usize = 0;
    while i < a.len()
        invariant
            0 <= i <= a.len(),
            a@.len() == b@.len(),
            args_view(a@).len() == a@.len(),
            args_view(b@).len() == b@.len(),
            forall|j: int| 0 <= j < a@.len() ==> args_view(a@)[j] == arg_view(a@[j]),
            forall|j: int| 0 <= j < b@.len() ==> args_view(b@)[j] == arg_view(b@[j]),
            forall|j: int| 0 <= j < i ==> arg_view(a@[j]) == arg_view(b@[j]),
        decreases a.len() - i,
    {
        proof {
            lemma_oargs_size_index(args_view(a@), i as int);
        }
        let same_name = str_eq(a[i].name.as_str(), b[i].name.as_str());
        if !same_name {
            proof {
                assert(args_view(a@)[i as int] != args_view(b@)[i as int]);
            }
            return false;
        }
        proof {
            assert(oarg_size(args_view(a@)[i as int]) == 1 + val_size(val_view(a@[i as int].value)));
        }
        let same_value = value_eq(&a[i].value, &b[i].value);
        if !same_value {
            proof {
                assert(args_view(a@)[i as int] != args_view(b@)[i as int]);
            }
            return false;
        }
        proof {
            assert(arg_view(a@[i as int]) == arg_view(b@[i as int]));
        }
        i = i + 1;
    }
    proof {
        assert(args_view(a@) =~= args_view(b@));
    }
    true
}

pub proof fn lemma_vals_size_index(s: Seq<ValueV>, i: int)
    requires
        0 <= i < s.len(),
    ensures
        val_size(s[i]) <= vals_size(s),
    decreases s.len(),
{
    if i > 0 {
        lemma_vals_size_index(s.drop_first(), i - 1);
        assert(s.drop_first()[i - 1] == s[i]);
    }
}

pub proof fn lemma_oargs_size_index(s: Seq<ArgumentV>, i: int)
    requires
        0 <= i < s.len(),
    ensures
        oarg_size(s[i]) <= oargs_size(s),
    decreases s.len(),
{
    if i > 0 {
        lemma_oargs_size_index(s.drop_first(), i - 1);
        assert(s.drop_first()[i - 1] == s[i]);
    }
}

/// One entry of a selection set.
pub enum Selection {
    Field { alias: Option<String>, name: String, args: Vec<Argument>, sels: Vec<Selection> },
    FragmentSpread { name: String },
    InlineFragment { on_type: Option<String>, origin: Option<String>, sels: Vec<Selection> },
}

pub enum SelectionV {
    Field { alias: Option<Seq<char>>, name: Seq<char>, args: Seq<ArgumentV>, sels: Seq<SelectionV> },
    FragmentSpread { name: Seq<char> },
    InlineFragment {
        on_type: Option<Seq<char>>,
        origin: Option<Seq<char>>,
        sels: Seq<SelectionV>,
    },
}

pub open spec fn sel_view(s: Selection) -> SelectionV
    decreases s,
{
    match s {
        Selection::Field { alias, name, args, sels } => SelectionV::Field {
            alias: alias.deep_view(),
            name: name@,
            args: args_view(args@),
            sels: sels_view(sels@),
        },
        Selection::FragmentSpread { name } => SelectionV::FragmentSpread { name: name@ },
        Selection::InlineFragment { on_type, origin, sels } => SelectionV::InlineFragment {
            on_type: on_type.deep_view(),
            origin: origin.deep_view(),
            sels: sels_view(sels@),
        },
    }
}

pub open spec fn sels_view(s: Seq<Selection>) -> Seq<SelectionV>
    decreases s,
{
    if s.len() == 0 {
        Seq::empty()
    } else {
        seq![sel_view(s.first())] + sels_view(s.drop_first())
    }
}

pub proof fn lemma_sels_view(s: Seq<Selection>)
    ensures
        sels_view(s).len() == s.len(),
        forall|i: int| 0 <= i < s.len() ==> sels_view(s)[i] == sel_view(s[i]),
    decreases s.len(),
{
    if s.len() > 0 {
        lemma_sels_view(s.drop_first());
    }
}

/// Structural size of a selection, the termination measure of every walk
/// over selection sets.
pub open spec fn sel_size(s: SelectionV) -> nat
    decreases s,
{
    match s {
        SelectionV::Field { args, sels, .. } => 1 + oargs_size(args) + sels_size(sels),
        SelectionV::FragmentSpread { .. } => 1,
        SelectionV::InlineFragment { sels, .. } => 1 + sels_size(sels),
    }
}

pub open spec fn sels_size(s: Seq<SelectionV>) -> nat
    decreases s,
{
    if s.len() == 0 {
        0
    } else {
        sel_size(s.first()) + sels_size(s.drop_first())
    }
}

/// Every element's size is bounded by the size of the whole list.
pub proof fn lemma_sels_size_index(s: Seq<SelectionV>, i: int)
    requires
        0 <= i < s.len(),
    ensures
        sel_size(s[i]) <= sels_size(s),
    decreases s.len(),
{
    if i == 0 {
    } else {
        lemma_sels_size_index(s.drop_first(), i - 1);
        assert(s.drop_first()[i - 1] == s[i]);
    }
}

pub proof fn lemma_sels_view_push(s: Seq<Selection>, e: Selection)
    ensures
        sels_view(s.push(e)) == sels_view(s).push(sel_view(e)),
{
    lemma_sels_view(s);
    lemma_sels_view(s.push(e));
    assert(sels_view(s.push(e)) =~= sels_view(s).push(sel_view(e)));
}

/// Copy an argument value, field for field.
pub fn copy_value(v: &Value) -> (r: Value)
    ensures
        val_view(r) == val_view(*v),
    decreases val_size(val_view(*v)),
{
    match v {
        Value::Variable(n) => Value::Variable(n.clone()),
        Value::Scalar(s) => Value::Scalar(s.clone()),
        Value::ListVal(items) => {
            let mut out: Vec<Value> = Vec::new();
            let mut i: usize = 0;
            while i < items.len()
                invariant
                    0 <= i <= items.len(),
                    out@.len() == i,
                    val_view(*v) == ValueV::ListVal(vals_view(items@)),
                    forall|j: int| 0 <= j < i ==> val_view(out@[j]) == val_view(items@[j]),
                decreases items.len() - i,
            {
                proof {
                    lemma_vals_view(items@);
                    lemma_vals_size_index(vals_view(items@), i as int);
                }
                let c = copy_value(&items[i]);
                out.push(c);
                i = i + 1;
            }
            proof {
                lemma_vals_view(out@);
                lemma_vals_view(items@);
                assert(vals_view(out@) =~= vals_view(items@));
            }
            Value::ListVal(out)
        },
        Value::ObjectVal(fields) => {
            let mut out: Vec<Argument> = Vec::new();
            let mut i: usize = 0;
            while i < fields.len()
                invariant
                    0 <= i <= fields.len(),
                    out@.len() == i,
                    val_view(*v) == ValueV::ObjectVal(args_view(fields@)),
                    forall|j: int| 0 <= j < i ==> arg_view(out@[j]) == arg_view(fields@[j]),
                decreases fields.len() - i,
            {
                proof {
                    lemma_args_view(fields@);
                    lemma_oargs_size_index(args_view(fields@), i as int);
                }
                let c = copy_argument(&fields[i]);
                out.push(c);
                i = i + 1;
            }
            proof {
                lemma_args_view(out@);
                lemma_args_view(fields@);
                assert(args_view(out@) =~= args_view(fields@));
            }
            Value::ObjectVal(out)
        },
    }
}

pub fn copy_argument(a: &Argument) -> (r: Argument)
    ensures
        arg_view(r) == arg_view(*a),
    decreases oarg_size(arg_view(*a)),
{
    Argument { name: a.name.clone(), value: copy_value(&a.value) }
}

/// Copy a whole argument list.
pub fn copy_args(args: &Vec<Argument>) -> (r: Vec<Argument>)
    ensures
        args_view(r@) == args_view(args@),
{
    let mut out: Vec<Argument> = Vec::new();
    let mut i: usize = 0;
    while i < args.len()
        invariant
            0 <= i <= args.len(),
            out@.len() == i,
            forall|j: int| 0 <= j < i ==> arg_view(out@[j]) == arg_view(args@[j]),
        decreases args.len() - i,
    {
        let c = copy_argument(&args[i]);
        out.push(c);
        i = i + 1;
    }
    proof {
        lemma_args_view(out@);
        lemma_args_view(args@);
        assert(args_view(out@) =~= args_view(args@));
    }
    out
}

/// Copy an optional name.
pub fn copy_opt_name(o: &Option<String>) -> (r: Option<String>)
    ensures
        r.deep_view() == o.deep_view(),
{
    match o {
        Some(s) => Some(s.clone()),
        None => None,
    }
}

/// A declared operation variable.
pub struct VariableDecl {
    pub name: String,
    pub ty: TypeRef,
    pub default_value: Option<Value>,
}

pub struct VariableDeclV {
    pub name: Seq<char>,
    pub ty: TypeRefV,
    pub default_value: Option<ValueV>,
}

pub open spec fn vdecl_view(d: VariableDecl) -> VariableDeclV {
    VariableDeclV {
        name: d.name@,
        ty: tref_view(d.ty),
        default_value: match d.default_value {
            Some(v) => Some(val_view(v)),
            None => None,
        },
    }
}

pub open spec fn vdecls_view(s: Seq<VariableDecl>) -> Seq<VariableDeclV> {
    Seq::new(s.len(), |i: int| vdecl_view(s[i]))
}

/// Which kind of operation a definition declares.
pub enum OperationKind {
    Query,
    Mutation,
    Subscription,
}

/// A top-level operation definition.
pub struct Operation {
    pub name: Option<String>,
    pub kind: OperationKind,
    pub variables: Vec<VariableDecl>,
    pub sels: Vec<Selection>,
}

/// A named fragment definition.
pub struct Fragment {
    pub name: String,
    pub on_type: String,
    pub sels: Vec<Selection>,
}

pub struct FragmentV {
    pub name: Seq<char>,
    pub on_type: Seq<char>,
    pub sels: Seq<SelectionV>,
}

pub open spec fn frag_view(f: Fragment) -> FragmentV {
    FragmentV { name: f.name@, on_type: f.on_type@, sels: sels_view(f.sels@) }
}

pub open spec fn frags_view(s: Seq<Fragment>) -> Seq<FragmentV> {
    Seq::new(s.len(), |i: int| frag_view(s[i]))
}

/// One parsed document: a single operation plus its fragment definitions.
pub struct Document {
    pub operation: Operation,
    pub fragments: Vec<Fragment>,
}

} // verus!

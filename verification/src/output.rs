use vstd::prelude::*;

verus! {

use crate::ast::{Argument, ArgumentV, args_eq, args_view};
use crate::model::{TypeRef, TypeRefV, tref_view};
use crate::util::str_eq;

// ---------------------------------------------------------------------------
// The resolved result tree. Every response position becomes a node: a leaf
// for scalars and enums, an object for concrete compositions, and a
// polymorphic node for interface and union positions, holding one variant
// per concrete type the query fans out to, plus the common fields that the
// fallback decodes for types without a variant.
// ---------------------------------------------------------------------------

pub struct OutputField {
    pub ty: TypeRef,
    pub node: OutputNode,
}

/// One resolved response key. Besides the resolved field, the entry
/// records which schema field was selected and with which arguments, so
/// that merging two selections under one key can demand the same field
/// with the same arguments, per the response-shape merging rule.
pub struct OutputEntry {
    pub key: String,
    pub fname: String,
    pub args: Vec<Argument>,
    pub field: OutputField,
}

pub struct OutputVariant {
    pub tyname: String,
    pub entries: Vec<OutputEntry>,
}

pub enum OutputNode {
    Leaf { tyname: String },
    Object { entries: Vec<OutputEntry> },
    Polymorphic { common: Vec<OutputEntry>, variants: Vec<OutputVariant> },
}

pub struct OutputFieldV {
    pub ty: TypeRefV,
    pub node: OutputNodeV,
}

pub struct OutputEntryV {
    pub key: Seq<char>,
    pub fname: Seq<char>,
    pub args: Seq<ArgumentV>,
    pub field: OutputFieldV,
}

pub struct OutputVariantV {
    pub tyname: Seq<char>,
    pub entries: Seq<OutputEntryV>,
}

pub enum OutputNodeV {
    Leaf { tyname: Seq<char> },
    Object { entries: Seq<OutputEntryV> },
    Polymorphic { common: Seq<OutputEntryV>, variants: Seq<OutputVariantV> },
}

pub open spec fn onode_view(n: OutputNode) -> OutputNodeV
    decreases n,
{
    match n {
        OutputNode::Leaf { tyname } => OutputNodeV::Leaf { tyname: tyname@ },
        OutputNode::Object { entries } => OutputNodeV::Object { entries: oentries_view(entries@) },
        OutputNode::Polymorphic { common, variants } => OutputNodeV::Polymorphic {
            common: oentries_view(common@),
            variants: ovariants_view(variants@),
        },
    }
}

pub open spec fn ofield_view(f: OutputField) -> OutputFieldV
    decreases f,
{
    OutputFieldV { ty: tref_view(f.ty), node: onode_view(f.node) }
}

pub open spec fn oentry_view(e: OutputEntry) -> OutputEntryV
    decreases e,
{
    OutputEntryV {
        key: e.key@,
        fname: e.fname@,
        args: args_view(e.args@),
        field: ofield_view(e.field),
    }
}

pub open spec fn oentries_view(s: Seq<OutputEntry>) -> Seq<OutputEntryV>
    decreases s,
{
    if s.len() == 0 {
        Seq::empty()
    } else {
        seq![oentry_view(s.first())] + oentries_view(s.drop_first())
    }
}

pub open spec fn ovariant_view(v: OutputVariant) -> OutputVariantV
    decreases v,
{
    OutputVariantV { tyname: v.tyname@, entries: oentries_view(v.entries@) }
}

pub open spec fn ovariants_view(s: Seq<OutputVariant>) -> Seq<OutputVariantV>
    decreases s,
{
    if s.len() == 0 {
        Seq::empty()
    } else {
        seq![ovariant_view(s.first())] + ovariants_view(s.drop_first())
    }
}

pub proof fn lemma_oentries_view(s: Seq<OutputEntry>)
    ensures
        oentries_view(s).len() == s.len(),
        forall|i: int| 0 <= i < s.len() ==> oentries_view(s)[i] == oentry_view(s[i]),
    decreases s.len(),
{
    if s.len() > 0 {
        lemma_oentries_view(s.drop_first());
    }
}

pub proof fn lemma_ovariants_view(s: Seq<OutputVariant>)
    ensures
        ovariants_view(s).len() == s.len(),
        forall|i: int| 0 <= i < s.len() ==> ovariants_view(s)[i] == ovariant_view(s[i]),
    decreases s.len(),
{
    if s.len() > 0 {
        lemma_ovariants_view(s.drop_first());
    }
}

pub proof fn lemma_oentries_view_push(s: Seq<OutputEntry>, e: OutputEntry)
    ensures
        oentries_view(s.push(e)) == oentries_view(s).push(oentry_view(e)),
{
    lemma_oentries_view(s);
    lemma_oentries_view(s.push(e));
    assert(oentries_view(s.push(e)) =~= oentries_view(s).push(oentry_view(e)));
}

pub proof fn lemma_ovariants_view_push(s: Seq<OutputVariant>, v: OutputVariant)
    ensures
        ovariants_view(s.push(v)) == ovariants_view(s).push(ovariant_view(v)),
{
    lemma_ovariants_view(s);
    lemma_ovariants_view(s.push(v));
    assert(ovariants_view(s.push(v)) =~= ovariants_view(s).push(ovariant_view(v)));
}

// ---------------------------------------------------------------------------
// Structural size, the termination measure for walks over result trees.
// ---------------------------------------------------------------------------

pub open spec fn onode_size(n: OutputNodeV) -> nat
    decreases n,
{
    match n {
        OutputNodeV::Leaf { .. } => 1,
        OutputNodeV::Object { entries } => 1 + oentries_size(entries),
        OutputNodeV::Polymorphic { common, variants } => 1 + oentries_size(common)
            + ovariants_size(variants),
    }
}

pub open spec fn oentry_size(e: OutputEntryV) -> nat
    decreases e,
{
    1 + onode_size(e.field.node)
}

pub open spec fn oentries_size(s: Seq<OutputEntryV>) -> nat
    decreases s,
{
    if s.len() == 0 {
        0
    } else {
        oentry_size(s.first()) + oentries_size(s.drop_first())
    }
}

pub open spec fn ovariant_size(v: OutputVariantV) -> nat
    decreases v,
{
    1 + oentries_size(v.entries)
}

pub open spec fn ovariants_size(s: Seq<OutputVariantV>) -> nat
    decreases s,
{
    if s.len() == 0 {
        0
    } else {
        ovariant_size(s.first()) + ovariants_size(s.drop_first())
    }
}

pub proof fn lemma_oentries_size_index(s: Seq<OutputEntryV>, i: int)
    requires
        0 <= i < s.len(),
    ensures
        oentry_size(s[i]) <= oentries_size(s),
    decreases s.len(),
{
    if i > 0 {
        lemma_oentries_size_index(s.drop_first(), i - 1);
        assert(s.drop_first()[i - 1] == s[i]);
    }
}

pub proof fn lemma_ovariants_size_index(s: Seq<OutputVariantV>, i: int)
    requires
        0 <= i < s.len(),
    ensures
        ovariant_size(s[i]) <= ovariants_size(s),
    decreases s.len(),
{
    if i > 0 {
        lemma_ovariants_size_index(s.drop_first(), i - 1);
        assert(s.drop_first()[i - 1] == s[i]);
    }
}

// ---------------------------------------------------------------------------
// Structural agreement: the executable equality the resolver uses when two
// selections share one response key.
// ---------------------------------------------------------------------------

/// Whether two type references have the same shape.
pub fn tref_eq(a: &TypeRef, b: &TypeRef) -> (r: bool)
    ensures
        r == (tref_view(*a) == tref_view(*b)),
    decreases *a,
{
    match (a, b) {
        (TypeRef::Named(x), TypeRef::Named(y)) => str_eq(x.as_str(), y.as_str()),
        (TypeRef::List(x), TypeRef::List(y)) => tref_eq(x, y),
        (TypeRef::NonNull(x), TypeRef::NonNull(y)) => tref_eq(x, y),
        _ => false,
    }
}

/// Whether two result trees have exactly the same shape.
pub fn onode_eq(a: &OutputNode, b: &OutputNode) -> (r: bool)
    ensures
        r == (onode_view(*a) == onode_view(*b)),
    decreases onode_size(onode_view(*a)), 2nat,
{
    match (a, b) {
        (OutputNode::Leaf { tyname: x }, OutputNode::Leaf { tyname: y }) => str_eq(
            x.as_str(),
            y.as_str(),
        ),
        (OutputNode::Object { entries: x }, OutputNode::Object { entries: y }) => {
            proof {
                assert(onode_view(*a) == OutputNodeV::Object { entries: oentries_view(x@) });
            }
            oentries_eq(x, y)
        },
        (
            OutputNode::Polymorphic { common: xc, variants: xv },
            OutputNode::Polymorphic { common: yc, variants: yv },
        ) => {
            proof {
                assert(onode_view(*a) == OutputNodeV::Polymorphic {
                    common: oentries_view(xc@),
                    variants: ovariants_view(xv@),
                });
            }
            let c = oentries_eq(xc, yc);
            if !c {
                return false;
            }
            ovariants_eq(xv, yv)
        },
        _ => false,
    }
}

pub fn oentries_eq(a: &Vec<OutputEntry>, b: &Vec<OutputEntry>) -> (r: bool)
    ensures
        r == (oentries_view(a@) == oentries_view(b@)),
    decreases oentries_size(oentries_view(a@)), 1nat,
{
    proof {
        lemma_oentries_view(a@);
        lemma_oentries_view(b@);
    }
    if a.len() != b.len() {
        proof {
            assert(oentries_view(a@).len() != oentries_view(b@).len());
        }
        return false;
    }
    let mut i: usize = 0;
    while i < a.len()
        invariant
            0 <= i <= a.len(),
            a@.len() == b@.len(),
            oentries_view(a@).len() == a@.len(),
            oentries_view(b@).len() == b@.len(),
            forall|j: int| 0 <= j < a@.len() ==> oentries_view(a@)[j] == oentry_view(a@[j]),
            forall|j: int| 0 <= j < b@.len() ==> oentries_view(b@)[j] == oentry_view(b@[j]),
            forall|j: int| 0 <= j < i ==> oentry_view(a@[j]) == oentry_view(b@[j]),
        decreases a.len() - i,
    {
        proof {
            lemma_oentries_size_index(oentries_view(a@), i as int);
        }
        let same_key = str_eq(a[i].key.as_str(), b[i].key.as_str());
        let same_fname = str_eq(a[i].fname.as_str(), b[i].fname.as_str());
        let same_args = args_eq(&a[i].args, &b[i].args);
        let same_ty = tref_eq(&a[i].field.ty, &b[i].field.ty);
        if !same_key || !same_fname || !same_args || !same_ty {
            proof {
                assert(oentries_view(a@)[i as int] != oentries_view(b@)[i as int]);
            }
            return false;
        }
        proof {
            assert(oentry_size(oentries_view(a@)[i as int]) == 1 + onode_size(onode_view(
                a@[i as int].field.node,
            )));
        }
        let same_node = onode_eq(&a[i].field.node, &b[i].field.node);
        if !same_node {
            proof {
                assert(oentries_view(a@)[i as int] != oentries_view(b@)[i as int]);
            }
            return false;
        }
        proof {
            assert(oentry_view(a@[i as int]) == oentry_view(b@[i as int]));
        }
        i = i + 1;
    }
    proof {
        assert(oentries_view(a@) =~= oentries_view(b@));
    }
    true
}

pub fn ovariants_eq(a: &Vec<OutputVariant>, b: &Vec<OutputVariant>) -> (r: bool)
    ensures
        r == (ovariants_view(a@) == ovariants_view(b@)),
    decreases ovariants_size(ovariants_view(a@)), 1nat,
{
    proof {
        lemma_ovariants_view(a@);
        lemma_ovariants_view(b@);
    }
    if a.len() != b.len() {
        proof {
            assert(ovariants_view(a@).len() != ovariants_view(b@).len());
        }
        return false;
    }
    let mut i: usize = 0;
    while i < a.len()
        invariant
            0 <= i <= a.len(),
            a@.len() == b@.len(),
            ovariants_view(a@).len() == a@.len(),
            ovariants_view(b@).len() == b@.len(),
            forall|j: int| 0 <= j < a@.len() ==> ovariants_view(a@)[j] == ovariant_view(a@[j]),
            forall|j: int| 0 <= j < b@.len() ==> ovariants_view(b@)[j] == ovariant_view(b@[j]),
            forall|j: int| 0 <= j < i ==> ovariant_view(a@[j]) == ovariant_view(b@[j]),
        decreases a.len() - i,
    {
        proof {
            lemma_ovariants_size_index(ovariants_view(a@), i as int);
        }
        let same_name = str_eq(a[i].tyname.as_str(), b[i].tyname.as_str());
        if !same_name {
            proof {
                assert(ovariants_view(a@)[i as int] != ovariants_view(b@)[i as int]);
            }
            return false;
        }
        let same_entries = oentries_eq(&a[i].entries, &b[i].entries);
        if !same_entries {
            proof {
                assert(ovariants_view(a@)[i as int] != ovariants_view(b@)[i as int]);
            }
            return false;
        }
        proof {
            assert(ovariant_view(a@[i as int]) == ovariant_view(b@[i as int]));
        }
        i = i + 1;
    }
    proof {
        assert(ovariants_view(a@) =~= ovariants_view(b@));
    }
    true
}

/// Whether two resolved fields agree structurally: same wrapped type
/// reference and the same nested shape.
pub fn ofield_eq(a: &OutputField, b: &OutputField) -> (r: bool)
    ensures
        r == (ofield_view(*a) == ofield_view(*b)),
{
    let t = tref_eq(&a.ty, &b.ty);
    if !t {
        return false;
    }
    onode_eq(&a.node, &b.node)
}

/// Whether two resolved entries are one and the same request: same
/// response key, same selected field, same arguments, same shape.
pub fn oentry_eq(a: &OutputEntry, b: &OutputEntry) -> (r: bool)
    ensures
        r == (oentry_view(*a) == oentry_view(*b)),
{
    let same_key = str_eq(a.key.as_str(), b.key.as_str());
    if !same_key {
        return false;
    }
    let same_fname = str_eq(a.fname.as_str(), b.fname.as_str());
    if !same_fname {
        return false;
    }
    let same_args = args_eq(&a.args, &b.args);
    if !same_args {
        return false;
    }
    ofield_eq(&a.field, &b.field)
}

} // verus!

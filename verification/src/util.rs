use vstd::prelude::*;

verus! {

/// Character-for-character equality of two string slices.
pub fn str_eq(a: &str, b: &str) -> (r: bool)
    ensures
        r == (a@ == b@),
{
    let sa: String = a.to_owned();
    let sb: String = b.to_owned();
    sa == sb
}

pub open spec fn name_in(names: Seq<Seq<char>>, x: Seq<char>) -> bool {
    names.contains(x)
}

/// Copy a list of names.
pub fn copy_names(names: &Vec<String>) -> (r: Vec<String>)
    ensures
        r@ == names@,
{
    let mut out: Vec<String> = Vec::new();
    let mut i: usize = 0;
    while i < names.len()
        invariant
            0 <= i <= names.len(),
            out@.len() == i,
            forall|j: int| 0 <= j < i ==> out@[j] == names@[j],
        decreases names.len() - i,
    {
        out.push(names[i].clone());
        i = i + 1;
    }
    proof {
        assert(out@ =~= names@);
    }
    out
}

/// A list holding `head` and then every name of `rest`.
pub fn cons_names(head: &String, rest: &Vec<String>) -> (r: Vec<String>)
    ensures
        r.deep_view() == seq![head@] + rest.deep_view(),
{
    let mut out: Vec<String> = Vec::new();
    out.push(head.clone());
    let mut i: usize = 0;
    while i < rest.len()
        invariant
            0 <= i <= rest.len(),
            out@.len() == i + 1,
            out@[0] == *head,
            forall|j: int| 0 <= j < i ==> out@[j + 1] == rest@[j],
        decreases rest.len() - i,
    {
        out.push(rest[i].clone());
        i = i + 1;
    }
    proof {
        assert(out.deep_view() =~= seq![head@] + rest.deep_view());
    }
    out
}

/// The same list with one more name at its end.
pub fn push_name(names: Vec<String>, e: &String) -> (r: Vec<String>)
    ensures
        r.deep_view() == names.deep_view() + seq![e@],
{
    let mut out = names;
    out.push(e.clone());
    proof {
        assert(out.deep_view() =~= names.deep_view() + seq![e@]);
    }
    out
}

/// Whether two name lists are identical, element for element.
pub fn names_eq(a: &Vec<String>, b: &Vec<String>) -> (r: bool)
    ensures
        r == (a.deep_view() == b.deep_view()),
{
    if a.len() != b.len() {
        proof {
            assert(a.deep_view().len() != b.deep_view().len());
        }
        return false;
    }
    let mut i: usize = 0;
    while i < a.len()
        invariant
            0 <= i <= a.len(),
            a@.len() == b@.len(),
            forall|j: int| 0 <= j < i ==> a.deep_view()[j] == b.deep_view()[j],
        decreases a.len() - i,
    {
        if !str_eq(a[i].as_str(), b[i].as_str()) {
            proof {
                assert(a.deep_view()[i as int] != b.deep_view()[i as int]);
            }
            return false;
        }
        proof {
            assert(a.deep_view()[i as int] == b.deep_view()[i as int]);
        }
        i = i + 1;
    }
    proof {
        assert(a.deep_view() =~= b.deep_view());
    }
    true
}

/// Whether `x` occurs in the list of names.
pub fn contains_name(names: &Vec<String>, x: &str) -> (r: bool)
    ensures
        r == name_in(names.deep_view(), x@),
{
    let mut i: usize = 0;
    while i < names.len()
        invariant
            0 <= i <= names.len(),
            forall|j: int| 0 <= j < i ==> names.deep_view()[j] != x@,
        decreases names.len() - i,
    {
        if str_eq(names[i].as_str(), x) {
            assert(names.deep_view()[i as int] == x@);
            return true;
        }
        i = i + 1;
    }
    false
}

} // verus!

use vstd::prelude::*;

verus! {

use crate::ast::{
    Fragment, FragmentV, Selection, SelectionV, copy_args, copy_opt_name, frag_view, frags_view,
    lemma_sels_size_index, lemma_sels_view, lemma_sels_view_push, sel_size, sel_view, sels_size,
    sels_view,
};
use crate::util::str_eq;

// ---------------------------------------------------------------------------
// Fragment resolution: a per-document library of named fragments, and the
// inlining of every spread into an equivalent inline fragment.
//
// Inlining carries a depth budget equal to the number of fragments in the
// library. A chain of nested spreads longer than that must revisit some
// fragment, which is exactly a fragment that transitively spreads itself,
// so exhausting the budget reports a cycle; an acyclic library can never
// exhaust it, because a spread chain repeats no fragment and so is bounded
// by the library's size.
// ---------------------------------------------------------------------------

/// Why a spread could not be inlined.
#[derive(Debug)]
pub enum FragmentError {
    Undefined { name: String },
    CycleDetected { name: String },
    TypeConditionMismatch { name: String, on_type: String },
}

pub enum FragmentErrorV {
    Undefined { name: Seq<char> },
    CycleDetected { name: Seq<char> },
    TypeConditionMismatch { name: Seq<char>, on_type: Seq<char> },
}

pub open spec fn ferr_view(e: FragmentError) -> FragmentErrorV {
    match e {
        FragmentError::Undefined { name } => FragmentErrorV::Undefined { name: name@ },
        FragmentError::CycleDetected { name } => FragmentErrorV::CycleDetected { name: name@ },
        FragmentError::TypeConditionMismatch { name, on_type } => FragmentErrorV::TypeConditionMismatch {
            name: name@,
            on_type: on_type@,
        },
    }
}

/// The named fragments of one document.
pub struct FragmentLibrary {
    pub fragments: Vec<Fragment>,
}

pub open spec fn lib_view(l: FragmentLibrary) -> Seq<FragmentV> {
    frags_view(l.fragments@)
}

/// Collect a document's fragment definitions into a library.
pub fn index_fragments(fragments: Vec<Fragment>) -> (r: FragmentLibrary)
    ensures
        lib_view(r) == frags_view(fragments@),
{
    FragmentLibrary { fragments }
}

/// The first fragment named `n`, searching from index `i`.
pub open spec fn spec_frag_lookup(fs: Seq<FragmentV>, n: Seq<char>, i: int) -> Option<FragmentV>
    decreases fs.len() - i,
{
    if i < 0 || i >= fs.len() {
        None
    } else if fs[i].name == n {
        Some(fs[i])
    } else {
        spec_frag_lookup(fs, n, i + 1)
    }
}

/// Find the definition a spread refers to.
pub fn lookup_fragment<'a>(lib: &'a FragmentLibrary, n: &str) -> (r: Option<&'a Fragment>)
    ensures
        match r {
            Some(f) => spec_frag_lookup(lib_view(*lib), n@, 0) == Some(frag_view(*f)),
            None => spec_frag_lookup(lib_view(*lib), n@, 0) is None,
        },
{
    let ghost fs = lib_view(*lib);
    let mut i: usize = 0;
    while i < lib.fragments.len()
        invariant
            0 <= i <= lib.fragments.len(),
            fs == lib_view(*lib),
            fs.len() == lib.fragments.len(),
            spec_frag_lookup(fs, n@, 0) == spec_frag_lookup(fs, n@, i as int),
        decreases lib.fragments.len() - i,
    {
        if str_eq(lib.fragments[i].name.as_str(), n) {
            return Some(&lib.fragments[i]);
        }
        i = i + 1;
    }
    None
}

/// What inlining one selection yields: fields and inline fragments keep
/// their shape with their nested sets inlined; a spread becomes an inline
/// fragment conditioned on the fragment's target type, marked with its
/// origin so the selection resolver can report spread errors as such.
pub open spec fn spec_expand_sel(lib: Seq<FragmentV>, s: SelectionV, fuel: nat) -> Result<
    SelectionV,
    FragmentErrorV,
>
    decreases fuel, sel_size(s), 0nat,
{
    match s {
        SelectionV::Field { alias, name, args, sels } => match spec_expand_sels(lib, sels, fuel) {
            Ok(body) => Ok(SelectionV::Field { alias, name, args, sels: body }),
            Err(e) => Err(e),
        },
        SelectionV::FragmentSpread { name } => match spec_frag_lookup(lib, name, 0) {
            None => Err(FragmentErrorV::Undefined { name }),
            Some(f) => if fuel == 0 {
                Err(FragmentErrorV::CycleDetected { name })
            } else {
                match spec_expand_sels(lib, f.sels, (fuel - 1) as nat) {
                    Ok(body) => Ok(
                        SelectionV::InlineFragment {
                            on_type: Some(f.on_type),
                            origin: Some(name),
                            sels: body,
                        },
                    ),
                    Err(e) => Err(e),
                }
            },
        },
        SelectionV::InlineFragment { on_type, origin, sels } => match spec_expand_sels(
            lib,
            sels,
            fuel,
        ) {
            Ok(body) => Ok(SelectionV::InlineFragment { on_type, origin, sels: body }),
            Err(e) => Err(e),
        },
    }
}

pub open spec fn spec_expand_sels(lib: Seq<FragmentV>, sels: Seq<SelectionV>, fuel: nat) -> Result<
    Seq<SelectionV>,
    FragmentErrorV,
>
    decreases fuel, sels_size(sels), sels.len(),
{
    if sels.len() == 0 {
        Ok(Seq::empty())
    } else {
        match spec_expand_sel(lib, sels.first(), fuel) {
            Err(e) => Err(e),
            Ok(s0) => match spec_expand_sels(lib, sels.drop_first(), fuel) {
                Err(e) => Err(e),
                Ok(rest) => Ok(seq![s0] + rest),
            },
        }
    }
}

/// How a partial expansion relates to the expansion of the whole list.
pub open spec fn expand_continues(
    full: Result<Seq<SelectionV>, FragmentErrorV>,
    done: Seq<SelectionV>,
    rest: Result<Seq<SelectionV>, FragmentErrorV>,
) -> bool {
    match rest {
        Ok(r) => full == Ok::<Seq<SelectionV>, FragmentErrorV>(done + r),
        Err(e) => full == Err::<Seq<SelectionV>, FragmentErrorV>(e),
    }
}

/// Inline one selection under a depth budget.
pub fn expand_sel(lib: &FragmentLibrary, s: &Selection, fuel: usize) -> (r: Result<
    Selection,
    FragmentError,
>)
    ensures
        (r is Ok) == (spec_expand_sel(lib_view(*lib), sel_view(*s), fuel as nat) is Ok),
        r is Ok ==> spec_expand_sel(lib_view(*lib), sel_view(*s), fuel as nat) == Ok::<
            SelectionV,
            FragmentErrorV,
        >(sel_view(r->Ok_0)),
        r is Err ==> spec_expand_sel(lib_view(*lib), sel_view(*s), fuel as nat) == Err::<
            SelectionV,
            FragmentErrorV,
        >(ferr_view(r->Err_0)),
    decreases fuel, sel_size(sel_view(*s)), 0nat,
{
    match s {
        Selection::Field { alias, name, args, sels } => {
            match expand_sels(lib, sels, fuel) {
                Ok(body) => Ok(
                    Selection::Field {
                        alias: copy_opt_name(alias),
                        name: name.clone(),
                        args: copy_args(args),
                        sels: body,
                    },
                ),
                Err(e) => Err(e),
            }
        },
        Selection::FragmentSpread { name } => {
            match lookup_fragment(lib, name.as_str()) {
                None => Err(FragmentError::Undefined { name: name.clone() }),
                Some(f) => {
                    if fuel == 0 {
                        Err(FragmentError::CycleDetected { name: name.clone() })
                    } else {
                        match expand_sels(lib, &f.sels, fuel - 1) {
                            Ok(body) => Ok(
                                Selection::InlineFragment {
                                    on_type: Some(f.on_type.clone()),
                                    origin: Some(name.clone()),
                                    sels: body,
                                },
                            ),
                            Err(e) => Err(e),
                        }
                    }
                },
            }
        },
        Selection::InlineFragment { on_type, origin, sels } => {
            match expand_sels(lib, sels, fuel) {
                Ok(body) => Ok(
                    Selection::InlineFragment {
                        on_type: copy_opt_name(on_type),
                        origin: copy_opt_name(origin),
                        sels: body,
                    },
                ),
                Err(e) => Err(e),
            }
        },
    }
}

/// Inline every selection of a list under a depth budget.
pub fn expand_sels(lib: &FragmentLibrary, sels: &Vec<Selection>, fuel: usize) -> (r: Result<
    Vec<Selection>,
    FragmentError,
>)
    ensures
        (r is Ok) == (spec_expand_sels(lib_view(*lib), sels_view(sels@), fuel as nat) is Ok),
        r is Ok ==> spec_expand_sels(lib_view(*lib), sels_view(sels@), fuel as nat) == Ok::<
            Seq<SelectionV>,
            FragmentErrorV,
        >(sels_view(r->Ok_0@)),
        r is Err ==> spec_expand_sels(lib_view(*lib), sels_view(sels@), fuel as nat) == Err::<
            Seq<SelectionV>,
            FragmentErrorV,
        >(ferr_view(r->Err_0)),
    decreases fuel, sels_size(sels_view(sels@)), 1nat,
{
    let ghost libv = lib_view(*lib);
    let ghost vs = sels_view(sels@);
    let ghost full = spec_expand_sels(libv, vs, fuel as nat);
    proof {
        lemma_sels_view(sels@);
        assert(vs.skip(0) =~= vs);
        let rest0 = spec_expand_sels(libv, vs.skip(0), fuel as nat);
        if rest0 is Ok {
            assert(sels_view(Seq::<Selection>::empty()).len() == 0);
            assert(Seq::<SelectionV>::empty() + rest0->Ok_0 =~= rest0->Ok_0);
        }
    }
    let mut out: Vec<Selection> = Vec::new();
    let mut i: usize = 0;
    while i < sels.len()
        invariant
            0 <= i <= sels.len(),
            libv == lib_view(*lib),
            vs == sels_view(sels@),
            vs.len() == sels.len(),
            full == spec_expand_sels(libv, vs, fuel as nat),
            expand_continues(
                full,
                sels_view(out@),
                spec_expand_sels(libv, vs.skip(i as int), fuel as nat),
            ),
        decreases sels.len() - i,
    {
        proof {
            lemma_sels_view(sels@);
            lemma_sels_size_index(vs, i as int);
            assert(vs.skip(i as int).first() == vs[i as int]);
        }
        match expand_sel(lib, &sels[i], fuel) {
            Err(e) => {
                proof {
                    assert(spec_expand_sels(libv, vs.skip(i as int), fuel as nat)
                        == Err::<Seq<SelectionV>, FragmentErrorV>(ferr_view(e)));
                }
                return Err(e);
            },
            Ok(s2) => {
                proof {
                    let cur = spec_expand_sels(libv, vs.skip(i as int), fuel as nat);
                    let nxt = spec_expand_sels(libv, vs.skip(i as int + 1), fuel as nat);
                    assert(vs.skip(i as int).drop_first() =~= vs.skip(i as int + 1));
                    lemma_sels_view_push(out@, s2);
                    if nxt is Ok {
                        assert(sels_view(out@) + (seq![sel_view(s2)] + nxt->Ok_0) =~= sels_view(
                            out@,
                        ).push(sel_view(s2)) + nxt->Ok_0);
                    }
                }
                out.push(s2);
                i = i + 1;
            },
        }
    }
    proof {
        assert(vs.skip(i as int).len() == 0);
        assert(vs.skip(i as int) =~= Seq::<SelectionV>::empty());
        let rest = spec_expand_sels(libv, vs.skip(i as int), fuel as nat);
        assert(rest == Ok::<Seq<SelectionV>, FragmentErrorV>(Seq::<SelectionV>::empty()));
        assert(sels_view(out@) + Seq::<SelectionV>::empty() =~= sels_view(out@));
    }
    Ok(out)
}

/// What resolving a document's selections starts from: every spread
/// inlined, with the library's size as the depth budget.
pub open spec fn spec_expand(lib: Seq<FragmentV>, sels: Seq<SelectionV>) -> Result<
    Seq<SelectionV>,
    FragmentErrorV,
> {
    spec_expand_sels(lib, sels, lib.len())
}

/// Inline every spread of an operation's selection set.
pub fn expand(lib: &FragmentLibrary, sels: &Vec<Selection>) -> (r: Result<
    Vec<Selection>,
    FragmentError,
>)
    ensures
        (r is Ok) == (spec_expand(lib_view(*lib), sels_view(sels@)) is Ok),
        r is Ok ==> spec_expand(lib_view(*lib), sels_view(sels@)) == Ok::<
            Seq<SelectionV>,
            FragmentErrorV,
        >(sels_view(r->Ok_0@)),
        r is Err ==> spec_expand(lib_view(*lib), sels_view(sels@)) == Err::<
            Seq<SelectionV>,
            FragmentErrorV,
        >(ferr_view(r->Err_0)),
{
    let fuel = lib.fragments.len();
    expand_sels(lib, sels, fuel)
}

} // verus!

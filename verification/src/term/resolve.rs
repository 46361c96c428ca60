//! The resolution pass: load-time atom references become runtime atoms.
//!
//! While a module is loaded, an atom is known by its index in the module's
//! own atom table. Once every atom of that table has its runtime index, the
//! pass replaces each `Atom_` by the `Atom` that the table holds at that
//! index, inside jump tables too. Labels, literals and raw words are
//! resolved elsewhere and pass through unchanged.

use vstd::prelude::*;
use crate::defs::Word;
use crate::term::fterm::{views_of, lemma_container_views, FTerm, FTermError, FTermView};
use crate::term::lterm::{LTerm, TermView};

verus! {

/// What the load-time atom index `i` resolves to against the table `tab`.
pub open spec fn resolve_index(i: Word, tab: Seq<LTerm>) -> Result<FTermView, FTermError> {
    if i >= tab.len() {
        Err(FTermError::AtomIndexRange { index: i })
    } else {
        match tab[i as int]@ {
            TermView::Atom(a) => Ok(FTermView::Atom(a as Word)),
            other => Err(FTermError::NotAnAtom { index: i, found: other.category() }),
        }
    }
}

/// The error of the first atom reference in `t`, in reading order, that the
/// table cannot resolve, if there is one.
pub open spec fn resolve_fault(t: FTermView, tab: Seq<LTerm>) -> Option<FTermError>
    decreases t, 0nat,
{
    match t {
        FTermView::Atom_(i) => match resolve_index(i, tab) {
            Ok(_) => None,
            Err(e) => Some(e),
        },
        FTermView::ExtList_(entries) => first_fault(entries, tab, entries.len()),
        _ => None,
    }
}

/// The first fault among the first `n` terms of a sequence.
pub open spec fn first_fault(terms: Seq<FTermView>, tab: Seq<LTerm>, n: nat) -> Option<FTermError>
    decreases terms, n,
{
    if n == 0 || n > terms.len() {
        None
    } else {
        match first_fault(terms, tab, (n - 1) as nat) {
            Some(e) => Some(e),
            None => resolve_fault(terms[n - 1], tab),
        }
    }
}

/// The term `t` with every atom reference that the table resolves replaced
/// by its runtime atom.
pub open spec fn resolved(t: FTermView, tab: Seq<LTerm>) -> FTermView
    decreases t, 0nat,
{
    match t {
        FTermView::Atom_(i) => match resolve_index(i, tab) {
            Ok(a) => a,
            Err(_) => t,
        },
        FTermView::ExtList_(entries) => FTermView::ExtList_(resolved_upto(entries, tab, entries.len())),
        _ => t,
    }
}

/// The first `n` terms of a sequence, each resolved.
pub open spec fn resolved_upto(terms: Seq<FTermView>, tab: Seq<LTerm>, n: nat) -> Seq<FTermView>
    decreases terms, n,
{
    if n == 0 || n > terms.len() {
        Seq::empty()
    } else {
        resolved_upto(terms, tab, (n - 1) as nat).push(resolved(terms[n - 1], tab))
    }
}

/// What the resolution pass answers for the term `t`: the first fault, or
/// "no change" where resolving leaves the term as it is, or the resolved
/// term.
pub open spec fn resolve_spec(t: FTermView, tab: Seq<LTerm>) -> Result<Option<FTermView>, FTermError> {
    match resolve_fault(t, tab) {
        Some(e) => Err(e),
        None => if resolved(t, tab) == t {
            Ok(None)
        } else {
            Ok(Some(resolved(t, tab)))
        },
    }
}

/// The value of what the pass hands back.
pub open spec fn outcome_view(r: Result<Option<FTerm>, FTermError>) -> Result<Option<FTermView>, FTermError> {
    match r {
        Ok(Some(t)) => Ok(Some(t@)),
        Ok(None) => Ok(None),
        Err(e) => Err(e),
    }
}

/// The first `n` resolved terms are the terms resolved one by one.
pub proof fn lemma_resolved_upto(terms: Seq<FTermView>, tab: Seq<LTerm>, n: nat)
    requires
        n <= terms.len(),
    ensures
        resolved_upto(terms, tab, n).len() == n,
        forall|k: int| 0 <= k < n ==> #[trigger] resolved_upto(terms, tab, n)[k] == resolved(terms[k], tab),
    decreases n,
{
    if n > 0 {
        lemma_resolved_upto(terms, tab, (n - 1) as nat);
    }
}

/// There is no fault among the first `n` terms exactly when none of them has
/// one.
pub proof fn lemma_first_fault_none(terms: Seq<FTermView>, tab: Seq<LTerm>, n: nat)
    requires
        n <= terms.len(),
    ensures
        first_fault(terms, tab, n) is None <==> forall|k: int| 0 <= k < n ==> (#[trigger] resolve_fault(terms[k], tab)) is None,
    decreases n,
{
    if n > 0 {
        lemma_first_fault_none(terms, tab, (n - 1) as nat);
        if first_fault(terms, tab, n) is None {
            assert forall|k: int| 0 <= k < n implies (#[trigger] resolve_fault(terms[k], tab)) is None by {
                if k == n - 1 {
                    assert(resolve_fault(terms[n - 1], tab) is None);
                }
            }
        }
        if forall|k: int| 0 <= k < n ==> (#[trigger] resolve_fault(terms[k], tab)) is None {
            assert(resolve_fault(terms[n - 1], tab) is None);
            assert(first_fault(terms, tab, (n - 1) as nat) is None);
        }
    }
}

/// A fault found among the first `n` terms is still the first fault when more
/// terms are looked at.
pub proof fn lemma_first_fault_stays(terms: Seq<FTermView>, tab: Seq<LTerm>, n: nat, m: nat)
    requires
        n <= m <= terms.len(),
        first_fault(terms, tab, n) is Some,
    ensures
        first_fault(terms, tab, m) == first_fault(terms, tab, n),
    decreases m,
{
    if n < m {
        lemma_first_fault_stays(terms, tab, n, (m - 1) as nat);
    }
}

/// Resolving a term that resolves without fault gives a term in which
/// nothing is left to resolve: it has no fault and resolving it again
/// changes nothing.
pub proof fn lemma_resolved_is_stable(t: FTermView, tab: Seq<LTerm>)
    requires
        resolve_fault(t, tab) is None,
    ensures
        resolve_fault(resolved(t, tab), tab) is None,
        resolved(resolved(t, tab), tab) == resolved(t, tab),
    decreases t,
{
    match t {
        FTermView::ExtList_(entries) => {
            let once = resolved_upto(entries, tab, entries.len());
            lemma_resolved_upto(entries, tab, entries.len());
            lemma_first_fault_none(entries, tab, entries.len());
            lemma_resolved_upto(once, tab, once.len());
            let twice = resolved_upto(once, tab, once.len());
            assert forall|k: int| 0 <= k < once.len() implies (#[trigger] resolve_fault(once[k], tab)) is None by {
                assert(resolve_fault(entries[k], tab) is None);
                lemma_resolved_is_stable(entries[k], tab);
            }
            assert forall|k: int| 0 <= k < once.len() implies #[trigger] twice[k] == once[k] by {
                assert(resolve_fault(entries[k], tab) is None);
                lemma_resolved_is_stable(entries[k], tab);
            }
            lemma_first_fault_none(once, tab, once.len());
            assert(twice =~= once);
        },
        _ => {},
    }
}

/// Resolution is idempotent: what a pass hands back as resolved has nothing
/// left to resolve, so a second pass over it answers "no change".
pub proof fn lemma_resolution_idempotent(t: FTermView, tab: Seq<LTerm>)
    ensures
        match resolve_spec(t, tab) {
            Ok(Some(once)) => resolve_spec(once, tab) == Ok::<Option<FTermView>, FTermError>(None),
            _ => true,
        },
{
    if resolve_fault(t, tab) is None {
        lemma_resolved_is_stable(t, tab);
    }
}

impl FTerm {
    /// Given a load-time `Atom_` or a jump table that may hold `Atom_`s,
    /// resolves it to runtime atoms with `atom_tab`, the runtime atoms of the
    /// module in the order of its load-time indices. Answers `Ok(None)` where
    /// there is nothing to change, so that the caller keeps the term it has,
    /// and an error for the first index that the table does not hold or
    /// holds no atom at. The table is only read.
    pub fn maybe_resolve_atom_(&self, atom_tab: &Vec<LTerm>) -> (r: Result<Option<FTerm>, FTermError>)
        ensures
            outcome_view(r) == resolve_spec(self@, atom_tab@),
        decreases self,
    {
        match self {
            // Repack a load-time atom into a runtime atom
            FTerm::Atom_(i) => {
                if *i >= atom_tab.len() as u64 {
                    return Err(FTermError::AtomIndexRange { index: *i });
                }
                match atom_tab[*i as usize].atom_index() {
                    Ok(a) => Ok(Some(FTerm::Atom(a))),
                    Err(mismatch) => Err(FTermError::NotAnAtom { index: *i, found: mismatch.actual }),
                }
            },
            // A jump table can hold load-time atoms: convert them too
            FTerm::ExtList_(lst) => {
                proof {
                    lemma_container_views(**lst);
                }
                let n = lst.len();
                let ghost entries = views_of(lst@);
                let mut result: Vec<FTerm> = Vec::new();
                result.reserve(n);
                let mut changed = false;
                let mut i: usize = 0;
                while i < n
                    invariant
                        n == lst@.len(),
                        entries == views_of(lst@),
                        *self == FTerm::ExtList_(*lst),
                        self@ == FTermView::ExtList_(entries),
                        0 <= i <= n,
                        result@.len() == i,
                        first_fault(entries, atom_tab@, i as nat) is None,
                        forall|k: int| 0 <= k < i ==> (#[trigger] result@[k])@ == resolved(entries[k], atom_tab@),
                        changed <==> exists|k: int| 0 <= k < i && #[trigger] resolved(entries[k], atom_tab@) != entries[k],
                    decreases n - i,
                {
                    assert(entries[i as int] == lst@[i as int]@);
                    match lst[i].maybe_resolve_atom_(atom_tab) {
                        Ok(Some(tmp)) => {
                            result.push(tmp);
                            changed = true;
                        },
                        Ok(None) => {
                            result.push(lst[i].clone());
                        },
                        Err(e) => {
                            proof {
                                assert(first_fault(entries, atom_tab@, (i + 1) as nat) == Some(e));
                                lemma_first_fault_stays(entries, atom_tab@, (i + 1) as nat, n as nat);
                            }
                            return Err(e);
                        },
                    }
                    i += 1;
                }
                proof {
                    lemma_resolved_upto(entries, atom_tab@, n as nat);
                    lemma_container_views(result);
                    let once = resolved_upto(entries, atom_tab@, n as nat);
                    assert(views_of(result@) =~= once);
                    if changed {
                        let k = choose|k: int| 0 <= k < n && #[trigger] resolved(entries[k], atom_tab@) != entries[k];
                        assert(once[k] != entries[k]);
                    } else {
                        assert(once =~= entries);
                    }
                }
                if changed {
                    Ok(Some(FTerm::ExtList_(Box::new(result))))
                } else {
                    Ok(None)
                }
            },
            // Otherwise no changes
            _ => Ok(None),
        }
    }
}

} // verus!

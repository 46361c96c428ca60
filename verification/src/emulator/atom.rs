//! Atom storage: every atom text once, under a stable index.
//!
//! The table only grows. A text gets the next free index when it is first
//! interned and keeps it from then on, so an atom term can be compared and
//! copied as the small number it is. The table is an ordinary value: whoever
//! shares it between threads puts it behind one lock.

use vstd::prelude::*;
use vstd::hash_map::StringHashMap;
use crate::defs::{Word, MAX_ATOM_INDEX};
use crate::term::lterm::{Category, LTerm, TermView};

verus! {

/// Lookup table for atom text to atom index and back.
pub struct AtomStorage {
    /// Direct mapping of text to atom index
    atoms: StringHashMap<Word>,
    /// Reverse mapping of atom index to text, in the order of the indices
    atoms_r: Vec<String>,
}

/// Why an atom could not be turned back into its text.
#[derive(Clone, Copy, Debug, PartialEq, Eq, Structural)]
pub enum AtomError {
    /// The term is no atom but of the category given.
    NotAnAtom(Category),
    /// The index was never handed out by this table.
    IndexRange { index: Word },
}

/// What interning `text` does to a table with the texts `names`: the texts
/// afterwards and the index of `text` among them. A text that is there keeps
/// its index, a new one goes to the end.
pub open spec fn intern_spec(names: Seq<Seq<char>>, text: Seq<char>) -> (Seq<Seq<char>>, nat) {
    if names.contains(text) {
        (names, names.index_of(text) as nat)
    } else {
        (names.push(text), names.len())
    }
}

/// The texts of a table after interning each of `texts` in order, starting
/// from the table `names`.
pub open spec fn intern_all(names: Seq<Seq<char>>, texts: Seq<Seq<char>>) -> Seq<Seq<char>>
    decreases texts.len(),
{
    if texts.len() == 0 {
        names
    } else {
        intern_spec(intern_all(names, texts.drop_last()), texts.last()).0
    }
}

/// Interning only ever appends. The texts that were there keep their places,
/// no text comes to stand twice, the index handed out is the place of the
/// text, and a text that is new gets the next free index.
pub proof fn lemma_intern_appends(names: Seq<Seq<char>>, text: Seq<char>)
    requires
        names.no_duplicates(),
    ensures
        ({
            let (after, index) = intern_spec(names, text);
            &&& after.no_duplicates()
            &&& names.is_prefix_of(after)
            &&& index < after.len()
            &&& after[index as int] == text
            &&& names.contains(text) ==> after == names
            &&& !names.contains(text) ==> index == names.len() && after.len() == names.len() + 1
        }),
{
    let (after, index) = intern_spec(names, text);
    if names.contains(text) {
        let j = names.index_of(text);
        assert(names[j] == text);
    } else {
        assert forall|i: int, j: int| 0 <= i < after.len() && 0 <= j < after.len() && i != j implies after[i]
            != after[j] by {
            if i < names.len() && j < names.len() {
                assert(names[i] != names[j]);
            } else if i < names.len() {
                assert(names.contains(names[i]));
            } else {
                assert(names.contains(names[j]));
            }
        }
    }
}

/// Interning is one-to-one: two texts interned one after the other get the
/// same index exactly when they are the same text, and each index still
/// leads back to its text afterwards.
pub proof fn lemma_intern_one_to_one(names: Seq<Seq<char>>, a: Seq<char>, b: Seq<char>)
    requires
        names.no_duplicates(),
    ensures
        ({
            let (first, index_a) = intern_spec(names, a);
            let (second, index_b) = intern_spec(first, b);
            &&& index_a == index_b <==> a == b
            &&& index_a < second.len() && second[index_a as int] == a
            &&& index_b < second.len() && second[index_b as int] == b
        }),
{
    let (first, index_a) = intern_spec(names, a);
    let (second, index_b) = intern_spec(first, b);
    lemma_intern_appends(names, a);
    lemma_intern_appends(first, b);
    assert(second[index_a as int] == first[index_a as int]);
    if a == b {
        assert(first.contains(b));
        assert(second == first);
        if index_a != index_b {
            assert(first[index_a as int] == first[index_b as int]);
        }
    }
}

/// Interning a run of texts keeps the table free of duplicates and keeps what
/// was there, and afterwards the table holds just the old texts and the
/// texts of the run.
pub proof fn lemma_intern_all(names: Seq<Seq<char>>, texts: Seq<Seq<char>>)
    requires
        names.no_duplicates(),
    ensures
        intern_all(names, texts).no_duplicates(),
        names.is_prefix_of(intern_all(names, texts)),
        intern_all(names, texts).to_set() == names.to_set().union(texts.to_set()),
    decreases texts.len(),
{
    let after = intern_all(names, texts);
    if texts.len() == 0 {
        assert(after.to_set() =~= names.to_set().union(texts.to_set()));
    } else {
        let before = intern_all(names, texts.drop_last());
        lemma_intern_all(names, texts.drop_last());
        lemma_intern_appends(before, texts.last());
        assert forall|t: Seq<char>| after.to_set().contains(t) <==> names.to_set().union(texts.to_set()).contains(
            t,
        ) by {
            if after.contains(t) {
                let i = choose|i: int| 0 <= i < after.len() && after[i] == t;
                if i < before.len() {
                    assert(before[i] == t);
                    assert(before.to_set().contains(t));
                    if texts.drop_last().to_set().contains(t) {
                        let k = choose|k: int| 0 <= k < texts.drop_last().len() && texts.drop_last()[k] == t;
                        assert(texts[k] == t);
                    }
                } else {
                    assert(t == texts.last());
                    assert(texts[texts.len() - 1] == t);
                }
            }
            if names.contains(t) {
                let i = choose|i: int| 0 <= i < names.len() && names[i] == t;
                assert(after[i] == t);
            }
            if texts.contains(t) {
                let k = choose|k: int| 0 <= k < texts.len() && texts[k] == t;
                if k < texts.len() - 1 {
                    assert(texts.drop_last()[k] == t);
                    assert(texts.drop_last().to_set().contains(t));
                    assert(before.to_set().contains(t));
                    let i = choose|i: int| 0 <= i < before.len() && before[i] == t;
                    assert(after[i] == t);
                } else {
                    let (_, index) = intern_spec(before, texts.last());
                    assert(after[index as int] == t);
                }
            }
        }
        assert(after.to_set() =~= names.to_set().union(texts.to_set()));
    }
}

/// Indices are handed out in the order of first interning: a run of distinct
/// texts interned into the empty table gives each text its place in the run
/// as index, the n-th text the index n - 1.
pub proof fn lemma_intern_order(texts: Seq<Seq<char>>)
    requires
        texts.no_duplicates(),
    ensures
        intern_all(Seq::empty(), texts) == texts,
    decreases texts.len(),
{
    if texts.len() == 0 {
        assert(intern_all(Seq::empty(), texts) =~= texts);
    } else {
        let before = texts.drop_last();
        assert(before.no_duplicates()) by {
            assert forall|i: int, j: int| 0 <= i < before.len() && 0 <= j < before.len() && i != j implies before[i]
                != before[j] by {
                assert(texts[i] != texts[j]);
            }
        }
        lemma_intern_order(before);
        if before.contains(texts.last()) {
            let i = choose|i: int| 0 <= i < before.len() && before[i] == texts.last();
            assert(texts[i] == texts[texts.len() - 1]);
        }
        assert(before.push(texts.last()) =~= texts);
    }
}

impl View for AtomStorage {
    type V = Seq<Seq<char>>;

    /// The texts of the table in the order of their indices.
    closed spec fn view(&self) -> Seq<Seq<char>> {
        Seq::new(self.atoms_r@.len(), |i: int| self.atoms_r@[i]@)
    }
}

impl AtomStorage {
    /// The two mappings agree with each other, and every index fits an atom
    /// term.
    pub closed spec fn wf(&self) -> bool {
        &&& self.atoms_r@.len() <= MAX_ATOM_INDEX + 1
        &&& forall|i: int|
            0 <= i < self.atoms_r@.len() ==> self.atoms@.contains_key(#[trigger] self.atoms_r@[i]@)
                && self.atoms@[self.atoms_r@[i]@] == i
        &&& forall|t: Seq<char>| #[trigger]
            self.atoms@.contains_key(t) ==> self.atoms@[t] < self.atoms_r@.len()
                && self.atoms_r@[self.atoms@[t] as int]@ == t
    }

    /// In a well-formed table no text occurs twice, and there are no more
    /// texts than atom terms can tell apart.
    pub proof fn lemma_wf_distinct(&self)
        requires
            self.wf(),
        ensures
            self@.no_duplicates(),
            self@.len() <= MAX_ATOM_INDEX + 1,
    {
        assert forall|i: int, j: int| 0 <= i < self@.len() && 0 <= j < self@.len() && i != j implies self@[i]
            != self@[j] by {
            assert(self.atoms@[self.atoms_r@[i]@] == i);
            assert(self.atoms@[self.atoms_r@[j]@] == j);
        }
    }

    /// The table without atoms.
    pub fn new() -> (tab: AtomStorage)
        ensures
            tab.wf(),
            tab@ == Seq::<Seq<char>>::empty(),
    {
        let tab = AtomStorage { atoms: StringHashMap::new(), atoms_r: Vec::new() };
        assert(tab@ =~= Seq::<Seq<char>>::empty());
        tab
    }

    /// The number of atoms in the table.
    pub fn len(&self) -> (n: usize)
        ensures
            n == self@.len(),
    {
        self.atoms_r.len()
    }
}

/// Allocates a new atom in the atom table or finds the existing one, and
/// packs its index as an atom term. A text that is new to the table needs a
/// free index that an atom term can hold.
pub fn from_str(tab: &mut AtomStorage, val: &str) -> (a: LTerm)
    requires
        old(tab).wf(),
        old(tab)@.contains(val@) || old(tab)@.len() <= MAX_ATOM_INDEX,
    ensures
        final(tab).wf(),
        final(tab)@ == intern_spec(old(tab)@, val@).0,
        a@ == TermView::Atom(intern_spec(old(tab)@, val@).1),
{
    proof {
        tab.lemma_wf_distinct();
    }
    let ghost names = tab@;
    match tab.atoms.get(val) {
        Some(index) => {
            proof {
                let i = *index as int;
                assert(names[i] == val@);
                assert(names.contains(val@));
                let j = names.index_of(val@);
                assert(names[j] == val@);
            }
            return LTerm::make_atom(*index);
        },
        None => {},
    }
    proof {
        if names.contains(val@) {
            let j = choose|j: int| 0 <= j < names.len() && names[j] == val@;
            assert(tab.atoms@.contains_key(tab.atoms_r@[j]@));
        }
    }
    let index = tab.atoms_r.len() as Word;
    tab.atoms.insert(val.to_owned(), index);
    tab.atoms_r.push(val.to_owned());
    proof {
        assert(tab@ =~= names.push(val@));
        assert forall|i: int| 0 <= i < tab.atoms_r@.len() implies tab.atoms@.contains_key(
            #[trigger] tab.atoms_r@[i]@,
        ) && tab.atoms@[tab.atoms_r@[i]@] == i by {
            if i < names.len() {
                assert(names[i] == tab.atoms_r@[i]@);
            }
        }
        assert forall|t: Seq<char>| #[trigger] tab.atoms@.contains_key(t) implies tab.atoms@[t]
            < tab.atoms_r@.len() && tab.atoms_r@[tab.atoms@[t] as int]@ == t by {
            if t != val@ {
                assert(old(tab).atoms@.contains_key(t));
            }
        }
    }
    LTerm::make_atom(index)
}

/// The text of an atom. Only an atom of this table has one: another term is
/// answered with `NotAnAtom`, an index beyond the table with `IndexRange`.
pub fn to_str(tab: &AtomStorage, a: LTerm) -> (r: Result<String, AtomError>)
    ensures
        match a@ {
            TermView::Atom(i) => if i < tab@.len() {
                r is Ok && r->Ok_0@ == tab@[i as int]
            } else {
                r == Err::<String, AtomError>(AtomError::IndexRange { index: i as Word })
            },
            other => r == Err::<String, AtomError>(AtomError::NotAnAtom(other.category())),
        },
{
    match a.atom_index() {
        Ok(index) => {
            if index < tab.atoms_r.len() as u64 {
                Ok(tab.atoms_r[index as usize].clone())
            } else {
                Err(AtomError::IndexRange { index })
            }
        },
        Err(mismatch) => Err(AtomError::NotAnAtom(mismatch.actual)),
    }
}

} // verus!

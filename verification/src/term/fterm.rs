//! The friendly term: a plain enum for terms while a module is being loaded.
//!
//! It can hold what the runtime will see (atoms, integers, lists, tuples) and
//! what only the loader knows (indices into the module's own tables, jump
//! tables). It is never used by the running machine, which works on `LTerm`.
//! Load-time values must not leak into the runtime: every conversion names
//! the variants it takes and answers the others with an error.

use vstd::prelude::*;
use crate::defs::{Word, SWord, MAX_ATOM_INDEX, MAX_HEADER_ARITY, MAX_INDEX, MAX_POS_SMALL, MAX_UNSIG_SMALL, MIN_NEG_SMALL};
use crate::term::bignum::BigInteger;
use crate::term::lterm::{Category, LTerm, TermView};

verus! {

/// The prefix of every diagnostic that concerns friendly terms.
pub fn module() -> (name: &'static str)
    ensures
        name@ == "term::friendly: "@,
{
    "term::friendly: "
}

/// The variants of `FTerm` without their contents, for diagnostics.
#[allow(non_camel_case_types)]
#[derive(Clone, Copy, Debug, PartialEq, Eq, Structural)]
pub enum FKind {
    Atom,
    SmallInt,
    BigInt,
    Cons,
    Nil,
    Tuple,
    Tuple0,
    Float,
    X_,
    Y_,
    FP_,
    Label_,
    Atom_,
    Int_,
    Lit_,
    ExtList_,
    AllocList_,
}

/// Why a friendly term could not be read or converted.
#[derive(Clone, Copy, Debug, PartialEq, Eq, Structural)]
pub enum FTermError {
    /// An accessor for the variant `expected` was given the variant `actual`.
    WrongVariant { expected: FKind, actual: FKind },
    /// A load-time-only variant was to become a runtime term.
    LoadTimeOnly(FKind),
    /// A runtime value that has no form of one tagged word.
    NoWordForm(FKind),
    /// The contents do not fit the payload of the tagged word.
    PayloadRange(FKind),
    /// The variant does not expand into a sequence of runtime terms.
    NoSequenceForm(FKind),
    /// A load-time atom index that lies beyond the atom table.
    AtomIndexRange { index: Word },
    /// At a load-time atom index the atom table holds no atom.
    NotAnAtom { index: Word, found: Category },
}

/// A term at load time, both runtime and load-time values.
#[allow(non_camel_case_types)]
#[derive(Debug, PartialEq)]
pub enum FTerm {
    /// Runtime atom index in the atom table of the machine
    Atom(Word),
    SmallInt(SWord),
    BigInt(Box<BigInteger>),
    /// A regular cons cell with a head and a tail
    Cons(Box<Vec<FTerm>>),
    /// The empty list
    Nil,
    Tuple(Box<Vec<FTerm>>),
    /// The tuple without elements
    Tuple0,
    /// A floating-point number, as the bits of its IEEE 754 double
    Float(u64),
    //
    // Internal values not visible in the user data
    //
    /// A runtime index of an X register
    X_(Word),
    /// A runtime index of a stack cell relative to the stack top (Y register)
    Y_(Word),
    /// A runtime index of a floating-point register
    FP_(Word),
    //
    // Loader specials: these never occur at runtime, and to find one there is
    // an error
    //
    /// A load-time index of a label
    Label_(Word),
    /// A load-time atom index in the atom table of the module being loaded
    Atom_(Word),
    /// A load-time word value literally specified
    Int_(Word),
    /// A load-time index in the literal heap
    Lit_(Word),
    /// A list of value/label pairs, a jump table
    ExtList_(Box<Vec<FTerm>>),
    AllocList_,
}

/// The mathematical value of a friendly term: the same tree with sequences
/// for its containers and an integer for its big integer.
#[allow(non_camel_case_types)]
pub enum FTermView {
    Atom(Word),
    SmallInt(SWord),
    BigInt(int),
    Cons(Seq<FTermView>),
    Nil,
    Tuple(Seq<FTermView>),
    Tuple0,
    Float(u64),
    X_(Word),
    Y_(Word),
    FP_(Word),
    Label_(Word),
    Atom_(Word),
    Int_(Word),
    Lit_(Word),
    ExtList_(Seq<FTermView>),
    AllocList_,
}

/// The values of a sequence of terms, one by one.
pub open spec fn views_of(terms: Seq<FTerm>) -> Seq<FTermView> {
    Seq::new(terms.len(), |k: int| terms[k]@)
}

/// The value of a term. Containers are walked by `values_upto`.
pub open spec fn value_of(t: FTerm) -> FTermView
    decreases t, 0nat,
{
    match t {
        FTerm::Atom(i) => FTermView::Atom(i),
        FTerm::SmallInt(n) => FTermView::SmallInt(n),
        FTerm::BigInt(b) => FTermView::BigInt(b@),
        FTerm::Cons(v) => FTermView::Cons(values_upto(v@, v@.len())),
        FTerm::Nil => FTermView::Nil,
        FTerm::Tuple(v) => FTermView::Tuple(values_upto(v@, v@.len())),
        FTerm::Tuple0 => FTermView::Tuple0,
        FTerm::Float(bits) => FTermView::Float(bits),
        FTerm::X_(i) => FTermView::X_(i),
        FTerm::Y_(i) => FTermView::Y_(i),
        FTerm::FP_(i) => FTermView::FP_(i),
        FTerm::Label_(i) => FTermView::Label_(i),
        FTerm::Atom_(i) => FTermView::Atom_(i),
        FTerm::Int_(w) => FTermView::Int_(w),
        FTerm::Lit_(i) => FTermView::Lit_(i),
        FTerm::ExtList_(v) => FTermView::ExtList_(values_upto(v@, v@.len())),
        FTerm::AllocList_ => FTermView::AllocList_,
    }
}

/// The values of the first `n` terms of a sequence.
pub open spec fn values_upto(terms: Seq<FTerm>, n: nat) -> Seq<FTermView>
    decreases terms, n,
{
    if n == 0 || n > terms.len() {
        Seq::empty()
    } else {
        values_upto(terms, (n - 1) as nat).push(value_of(terms[n - 1]))
    }
}

impl View for FTerm {
    type V = FTermView;

    open spec fn view(&self) -> FTermView {
        value_of(*self)
    }
}

/// The values of the first `n` terms are the values of the terms, one by one.
pub proof fn lemma_values_upto(terms: Seq<FTerm>, n: nat)
    requires
        n <= terms.len(),
    ensures
        values_upto(terms, n).len() == n,
        forall|k: int| 0 <= k < n ==> #[trigger] values_upto(terms, n)[k] == terms[k]@,
    decreases n,
{
    if n > 0 {
        lemma_values_upto(terms, (n - 1) as nat);
    }
}

/// The value of a container is the sequence of the values of its elements.
pub proof fn lemma_container_views(terms: Vec<FTerm>)
    ensures
        FTerm::Cons(Box::new(terms))@ == FTermView::Cons(views_of(terms@)),
        FTerm::Tuple(Box::new(terms))@ == FTermView::Tuple(views_of(terms@)),
        FTerm::ExtList_(Box::new(terms))@ == FTermView::ExtList_(views_of(terms@)),
{
    lemma_values_upto(terms@, terms@.len());
    assert(values_upto(terms@, terms@.len()) =~= views_of(terms@));
}

impl FTermView {
    /// The variant of a term, forgetting its contents.
    pub open spec fn kind(self) -> FKind {
        match self {
            FTermView::Atom(_) => FKind::Atom,
            FTermView::SmallInt(_) => FKind::SmallInt,
            FTermView::BigInt(_) => FKind::BigInt,
            FTermView::Cons(_) => FKind::Cons,
            FTermView::Nil => FKind::Nil,
            FTermView::Tuple(_) => FKind::Tuple,
            FTermView::Tuple0 => FKind::Tuple0,
            FTermView::Float(_) => FKind::Float,
            FTermView::X_(_) => FKind::X_,
            FTermView::Y_(_) => FKind::Y_,
            FTermView::FP_(_) => FKind::FP_,
            FTermView::Label_(_) => FKind::Label_,
            FTermView::Atom_(_) => FKind::Atom_,
            FTermView::Int_(_) => FKind::Int_,
            FTermView::Lit_(_) => FKind::Lit_,
            FTermView::ExtList_(_) => FKind::ExtList_,
            FTermView::AllocList_ => FKind::AllocList_,
        }
    }
}

impl FKind {
    /// The variants that exist only while a module is being loaded.
    pub open spec fn is_load_time_only(self) -> bool {
        match self {
            FKind::Label_ | FKind::Atom_ | FKind::Int_ | FKind::Lit_ | FKind::ExtList_ | FKind::AllocList_ => true,
            _ => false,
        }
    }
}

/// What `FTerm::from_word` makes of a word: a small integer below the limit,
/// a big integer from the limit upwards.
pub open spec fn from_word_spec(w: Word) -> FTermView {
    if w < MAX_UNSIG_SMALL {
        FTermView::SmallInt(w as SWord)
    } else {
        FTermView::BigInt(w as int)
    }
}

/// The runtime term that a friendly term converts to, or the reason why it
/// has none.
pub open spec fn to_lterm_spec(t: FTermView) -> Result<TermView, FTermError> {
    match t {
        FTermView::Atom(i) => if i <= MAX_ATOM_INDEX {
            Ok(TermView::Atom(i as nat))
        } else {
            Err(FTermError::PayloadRange(FKind::Atom))
        },
        FTermView::SmallInt(n) => if MIN_NEG_SMALL <= n <= MAX_POS_SMALL {
            Ok(TermView::Small(n as int))
        } else {
            Err(FTermError::PayloadRange(FKind::SmallInt))
        },
        FTermView::Nil => Ok(TermView::Nil),
        FTermView::X_(i) => if i <= MAX_INDEX {
            Ok(TermView::RegX(i as nat))
        } else {
            Err(FTermError::PayloadRange(FKind::X_))
        },
        FTermView::Y_(i) => if i <= MAX_INDEX {
            Ok(TermView::RegY(i as nat))
        } else {
            Err(FTermError::PayloadRange(FKind::Y_))
        },
        FTermView::FP_(i) => if i <= MAX_INDEX {
            Ok(TermView::RegFp(i as nat))
        } else {
            Err(FTermError::PayloadRange(FKind::FP_))
        },
        _ => if t.kind().is_load_time_only() {
            Err(FTermError::LoadTimeOnly(t.kind()))
        } else {
            Err(FTermError::NoWordForm(t.kind()))
        },
    }
}

/// The runtime word for one entry of a jump table. Besides the runtime
/// values, a jump table holds labels and literally specified words: they
/// become label references and small integers.
pub open spec fn table_entry_spec(t: FTermView) -> Result<TermView, FTermError> {
    match t {
        FTermView::Label_(i) => if i <= MAX_INDEX {
            Ok(TermView::Label(i as nat))
        } else {
            Err(FTermError::PayloadRange(FKind::Label_))
        },
        FTermView::Int_(w) => if w < MAX_UNSIG_SMALL {
            Ok(TermView::Small(w as int))
        } else {
            Err(FTermError::PayloadRange(FKind::Int_))
        },
        _ => to_lterm_spec(t),
    }
}

/// The error of the first among the first `n` entries that has no runtime
/// word, if there is one.
pub open spec fn first_entry_error(entries: Seq<FTermView>, n: nat) -> Option<FTermError>
    decreases n,
{
    if n == 0 {
        None
    } else {
        match first_entry_error(entries, (n - 1) as nat) {
            Some(e) => Some(e),
            None => match table_entry_spec(entries[n - 1]) {
                Ok(_) => None,
                Err(e) => Some(e),
            },
        }
    }
}

/// The runtime words of the entries of a jump table, one by one.
pub open spec fn table_entries(entries: Seq<FTermView>) -> Seq<TermView> {
    Seq::new(entries.len(), |k: int| table_entry_spec(entries[k])->Ok_0)
}

/// The sequence of runtime terms that a friendly term expands to: for a jump
/// table a header with the number of its entries, then the entries.
pub open spec fn to_lterm_vec_spec(t: FTermView) -> Result<Seq<TermView>, FTermError> {
    match t {
        FTermView::ExtList_(entries) => if entries.len() > MAX_HEADER_ARITY {
            Err(FTermError::PayloadRange(FKind::ExtList_))
        } else {
            match first_entry_error(entries, entries.len()) {
                Some(e) => Err(e),
                None => Ok(seq![TermView::Header(entries.len())] + table_entries(entries)),
            }
        },
        _ => Err(FTermError::NoSequenceForm(t.kind())),
    }
}

/// The meanings of a sequence of tagged words, one by one.
pub open spec fn term_views(terms: Seq<LTerm>) -> Seq<TermView> {
    Seq::new(terms.len(), |k: int| terms[k]@)
}

impl FTerm {
    /// The variant of this term.
    pub fn kind(&self) -> (k: FKind)
        ensures
            k == self@.kind(),
    {
        match self {
            FTerm::Atom(_) => FKind::Atom,
            FTerm::SmallInt(_) => FKind::SmallInt,
            FTerm::BigInt(_) => FKind::BigInt,
            FTerm::Cons(_) => FKind::Cons,
            FTerm::Nil => FKind::Nil,
            FTerm::Tuple(_) => FKind::Tuple,
            FTerm::Tuple0 => FKind::Tuple0,
            FTerm::Float(_) => FKind::Float,
            FTerm::X_(_) => FKind::X_,
            FTerm::Y_(_) => FKind::Y_,
            FTerm::FP_(_) => FKind::FP_,
            FTerm::Label_(_) => FKind::Label_,
            FTerm::Atom_(_) => FKind::Atom_,
            FTerm::Int_(_) => FKind::Int_,
            FTerm::Lit_(_) => FKind::Lit_,
            FTerm::ExtList_(_) => FKind::ExtList_,
            FTerm::AllocList_ => FKind::AllocList_,
        }
    }

    /// Whether this term exists only while a module is being loaded.
    pub fn is_load_time_only(&self) -> (b: bool)
        ensures
            b == self@.kind().is_load_time_only(),
    {
        match self {
            FTerm::Label_(_) | FTerm::Atom_(_) | FTerm::Int_(_) | FTerm::Lit_(_) | FTerm::ExtList_(_) | FTerm::AllocList_ => true,
            _ => false,
        }
    }

    /// Given a word, determine if it fits into a small integer (word size
    /// less 4 bits, signed), otherwise form a big integer.
    pub fn from_word(w: Word) -> (t: FTerm)
        ensures
            t@ == from_word_spec(w),
    {
        if w < MAX_UNSIG_SMALL {
            return FTerm::SmallInt(w as SWord);
        }
        FTerm::BigInt(Box::new(BigInteger::from_word(w)))
    }

    /// Reads the term as a load-time atom and gives its index in the atom
    /// table of the module being loaded.
    pub fn loadtime_atom_index(&self) -> (r: Result<Word, FTermError>)
        ensures
            match self@ {
                FTermView::Atom_(i) => r == Ok::<Word, FTermError>(i),
                _ => r == Err::<Word, FTermError>(
                    FTermError::WrongVariant { expected: FKind::Atom_, actual: self@.kind() },
                ),
            },
    {
        match self {
            FTerm::Atom_(w) => Ok(*w),
            _ => Err(FTermError::WrongVariant { expected: FKind::Atom_, actual: self.kind() }),
        }
    }

    /// Reads the term as a load-time integer and gives the word it holds.
    pub fn loadtime_word(&self) -> (r: Result<Word, FTermError>)
        ensures
            match self@ {
                FTermView::Int_(w) => r == Ok::<Word, FTermError>(w),
                _ => r == Err::<Word, FTermError>(
                    FTermError::WrongVariant { expected: FKind::Int_, actual: self@.kind() },
                ),
            },
    {
        match self {
            FTerm::Int_(w) => Ok(*w),
            _ => Err(FTermError::WrongVariant { expected: FKind::Int_, actual: self.kind() }),
        }
    }

    /// Converts a friendly term to the tagged word that stands for it at
    /// runtime. Only runtime values of one word have such a word: a load-time
    /// variant is answered with `LoadTimeOnly`, a value that needs the heap
    /// with `NoWordForm`, contents too large for the word with `PayloadRange`.
    pub fn to_lterm(&self) -> (r: Result<LTerm, FTermError>)
        ensures
            match to_lterm_spec(self@) {
                Ok(t) => r is Ok && r->Ok_0@ == t,
                Err(e) => r == Err::<LTerm, FTermError>(e),
            },
    {
        match self {
            FTerm::Atom(i) => {
                if *i <= MAX_ATOM_INDEX {
                    Ok(LTerm::make_atom(*i))
                } else {
                    Err(FTermError::PayloadRange(FKind::Atom))
                }
            },
            FTerm::SmallInt(n) => {
                if MIN_NEG_SMALL <= *n && *n <= MAX_POS_SMALL {
                    Ok(LTerm::make_small_i(*n))
                } else {
                    Err(FTermError::PayloadRange(FKind::SmallInt))
                }
            },
            FTerm::Nil => Ok(LTerm::nil()),
            FTerm::X_(i) => {
                if *i <= MAX_INDEX {
                    Ok(LTerm::make_xreg(*i))
                } else {
                    Err(FTermError::PayloadRange(FKind::X_))
                }
            },
            FTerm::Y_(i) => {
                if *i <= MAX_INDEX {
                    Ok(LTerm::make_yreg(*i))
                } else {
                    Err(FTermError::PayloadRange(FKind::Y_))
                }
            },
            FTerm::FP_(i) => {
                if *i <= MAX_INDEX {
                    Ok(LTerm::make_fpreg(*i))
                } else {
                    Err(FTermError::PayloadRange(FKind::FP_))
                }
            },
            _ => {
                if self.is_load_time_only() {
                    Err(FTermError::LoadTimeOnly(self.kind()))
                } else {
                    Err(FTermError::NoWordForm(self.kind()))
                }
            },
        }
    }

    /// Converts one entry of a jump table to its tagged word: a label to a
    /// label reference, a literally specified word to a small integer, and
    /// every other term as `to_lterm` does.
    pub fn to_table_entry(&self) -> (r: Result<LTerm, FTermError>)
        ensures
            match table_entry_spec(self@) {
                Ok(t) => r is Ok && r->Ok_0@ == t,
                Err(e) => r == Err::<LTerm, FTermError>(e),
            },
    {
        match self {
            FTerm::Label_(i) => {
                if *i <= MAX_INDEX {
                    Ok(LTerm::make_label(*i))
                } else {
                    Err(FTermError::PayloadRange(FKind::Label_))
                }
            },
            FTerm::Int_(w) => {
                if *w < MAX_UNSIG_SMALL {
                    Ok(LTerm::make_small_u(*w))
                } else {
                    Err(FTermError::PayloadRange(FKind::Int_))
                }
            },
            _ => self.to_lterm(),
        }
    }

    /// Converts the few friendly terms that hold longer structures into the
    /// sequence of tagged words that stands for them: a jump table becomes a
    /// header with the number of its entries, followed by the entries in
    /// order. The first entry without a word fails the conversion with its
    /// error; every other variant is answered with `NoSequenceForm`.
    pub fn to_lterm_vec(&self) -> (r: Result<Vec<LTerm>, FTermError>)
        ensures
            match to_lterm_vec_spec(self@) {
                Ok(s) => r is Ok && term_views(r->Ok_0@) == s,
                Err(e) => r == Err::<Vec<LTerm>, FTermError>(e),
            },
    {
        match self {
            FTerm::ExtList_(v) => {
                proof {
                    lemma_container_views(**v);
                }
                let n = v.len();
                if n as u64 > MAX_HEADER_ARITY {
                    return Err(FTermError::PayloadRange(FKind::ExtList_));
                }
                let ghost entries = views_of(v@);
                let mut result: Vec<LTerm> = Vec::with_capacity(n);
                result.push(LTerm::make_header(n as Word));
                let mut i: usize = 0;
                while i < n
                    invariant
                        n == v@.len(),
                        n <= MAX_HEADER_ARITY,
                        entries == views_of(v@),
                        self@ == FTermView::ExtList_(entries),
                        0 <= i <= n,
                        first_entry_error(entries, i as nat) is None,
                        result@.len() == i + 1,
                        result@[0]@ == TermView::Header(n as nat),
                        forall|j: int| 1 <= j <= i ==> (#[trigger] result@[j])@ == table_entry_spec(entries[j - 1])->Ok_0,
                    decreases n - i,
                {
                    assert(entries[i as int] == v@[i as int]@);
                    match v[i].to_table_entry() {
                        Ok(t) => result.push(t),
                        Err(e) => {
                            proof {
                                assert(first_entry_error(entries, (i + 1) as nat) == Some(e));
                                lemma_first_entry_error_stays(entries, (i + 1) as nat, n as nat);
                            }
                            return Err(e);
                        },
                    }
                    i += 1;
                }
                assert(term_views(result@) =~= seq![TermView::Header(n as nat)] + table_entries(entries));
                Ok(result)
            },
            _ => Err(FTermError::NoSequenceForm(self.kind())),
        }
    }
}

/// Copies a sequence of terms, term by term.
fn clone_terms(terms: &Vec<FTerm>) -> (r: Vec<FTerm>)
    ensures
        views_of(r@) == views_of(terms@),
    decreases terms,
{
    let n = terms.len();
    let mut result: Vec<FTerm> = Vec::with_capacity(n);
    let mut i: usize = 0;
    while i < n
        invariant
            n == terms@.len(),
            0 <= i <= n,
            result@.len() == i,
            forall|k: int| 0 <= k < i ==> (#[trigger] result@[k])@ == terms@[k]@,
        decreases n - i,
    {
        result.push(terms[i].clone());
        i += 1;
    }
    assert(views_of(result@) =~= views_of(terms@));
    result
}

impl Clone for FTerm {
    /// A copy with the same value all the way down.
    fn clone(&self) -> (r: Self)
        ensures
            r@ == self@,
        decreases self,
    {
        match self {
            FTerm::Atom(i) => FTerm::Atom(*i),
            FTerm::SmallInt(n) => FTerm::SmallInt(*n),
            FTerm::BigInt(b) => FTerm::BigInt(Box::new((**b).clone())),
            FTerm::Cons(v) => {
                let copy = clone_terms(v);
                proof {
                    lemma_container_views(**v);
                    lemma_container_views(copy);
                }
                FTerm::Cons(Box::new(copy))
            },
            FTerm::Nil => FTerm::Nil,
            FTerm::Tuple(v) => {
                let copy = clone_terms(v);
                proof {
                    lemma_container_views(**v);
                    lemma_container_views(copy);
                }
                FTerm::Tuple(Box::new(copy))
            },
            FTerm::Tuple0 => FTerm::Tuple0,
            FTerm::Float(bits) => FTerm::Float(*bits),
            FTerm::X_(i) => FTerm::X_(*i),
            FTerm::Y_(i) => FTerm::Y_(*i),
            FTerm::FP_(i) => FTerm::FP_(*i),
            FTerm::Label_(i) => FTerm::Label_(*i),
            FTerm::Atom_(i) => FTerm::Atom_(*i),
            FTerm::Int_(w) => FTerm::Int_(*w),
            FTerm::Lit_(i) => FTerm::Lit_(*i),
            FTerm::ExtList_(v) => {
                let copy = clone_terms(v);
                proof {
                    lemma_container_views(**v);
                    lemma_container_views(copy);
                }
                FTerm::ExtList_(Box::new(copy))
            },
            FTerm::AllocList_ => FTerm::AllocList_,
        }
    }
}

/// The limit between small and big integers is the same on both sides: a
/// word below it becomes a small integer whose runtime term holds the very
/// value, a word from the limit upwards becomes a big integer, which is
/// never cut down to a word.
pub proof fn lemma_from_word_boundary(w: Word)
    ensures
        w < MAX_UNSIG_SMALL <==> from_word_spec(w) is SmallInt,
        w >= MAX_UNSIG_SMALL <==> from_word_spec(w) is BigInt,
        to_lterm_spec(from_word_spec(w)) == if w < MAX_UNSIG_SMALL {
            Ok::<TermView, FTermError>(TermView::Small(w as int))
        } else {
            Err::<TermView, FTermError>(FTermError::NoWordForm(FKind::BigInt))
        },
{
}

/// No load-time-only variant converts to a runtime term: each is answered
/// with the error that names it.
pub proof fn lemma_load_time_only_rejected(t: FTermView)
    requires
        t.kind().is_load_time_only(),
    ensures
        to_lterm_spec(t) == Err::<TermView, FTermError>(FTermError::LoadTimeOnly(t.kind())),
{
}

/// An error found among the first `n` entries is still the first error when
/// more entries are looked at.
pub proof fn lemma_first_entry_error_stays(entries: Seq<FTermView>, n: nat, m: nat)
    requires
        n <= m,
        first_entry_error(entries, n) is Some,
    ensures
        first_entry_error(entries, m) == first_entry_error(entries, n),
    decreases m,
{
    if n < m {
        lemma_first_entry_error_stays(entries, n, (m - 1) as nat);
    }
}

} // verus!

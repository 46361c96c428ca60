use erlang_rt::defs::{MAX_ATOM_INDEX, MAX_INDEX, MAX_POS_SMALL, MAX_UNSIG_SMALL, MIN_NEG_SMALL};
use erlang_rt::term::bignum::BigInteger;
use erlang_rt::term::fterm::{module, FKind, FTerm, FTermError};
use erlang_rt::term::lterm::{Category, LTerm};

#[test]
fn module_prefix() {
    assert_eq!(module(), "term::friendly: ");
}

#[test]
fn from_word_below_limit_is_small() {
    assert_eq!(FTerm::from_word(0), FTerm::SmallInt(0));
    assert_eq!(FTerm::from_word(42), FTerm::SmallInt(42));
    assert_eq!(FTerm::from_word(MAX_UNSIG_SMALL - 1), FTerm::SmallInt(MAX_POS_SMALL));
}

#[test]
fn from_word_at_limit_is_big() {
    let at = FTerm::from_word(MAX_UNSIG_SMALL);
    assert_eq!(at, FTerm::BigInt(Box::new(BigInteger { negative: false, digits: vec![0, 0x0800_0000] })));
    let above = FTerm::from_word(MAX_UNSIG_SMALL + 1);
    assert_eq!(above, FTerm::BigInt(Box::new(BigInteger { negative: false, digits: vec![1, 0x0800_0000] })));
    let top = FTerm::from_word(u64::MAX);
    assert_eq!(top, FTerm::BigInt(Box::new(BigInteger { negative: false, digits: vec![0xffff_ffff, 0xffff_ffff] })));
}

#[test]
fn big_integer_from_word_digits() {
    assert_eq!(BigInteger::from_word(0), BigInteger { negative: false, digits: vec![] });
    assert_eq!(BigInteger::from_word(1125), BigInteger { negative: false, digits: vec![1125] });
    assert_eq!(BigInteger::from_word(4294967296), BigInteger { negative: false, digits: vec![0, 1] });
    assert_eq!(BigInteger::from_word(112500000000), BigInteger { negative: false, digits: vec![830850304, 26] });
}

#[test]
fn boundary_value_does_not_truncate() {
    let small = FTerm::from_word(MAX_UNSIG_SMALL - 1).to_lterm();
    assert_eq!(small, Ok(LTerm::make_small_i(MAX_POS_SMALL)));
    assert_eq!(small.unwrap().small_get(), Ok(MAX_POS_SMALL));
    let big = FTerm::from_word(MAX_UNSIG_SMALL).to_lterm();
    assert_eq!(big, Err(FTermError::NoWordForm(FKind::BigInt)));
}

#[test]
fn loadtime_accessors() {
    assert_eq!(FTerm::Atom_(7).loadtime_atom_index(), Ok(7));
    assert_eq!(
        FTerm::Atom(7).loadtime_atom_index(),
        Err(FTermError::WrongVariant { expected: FKind::Atom_, actual: FKind::Atom })
    );
    assert_eq!(FTerm::Int_(9).loadtime_word(), Ok(9));
    assert_eq!(
        FTerm::Nil.loadtime_word(),
        Err(FTermError::WrongVariant { expected: FKind::Int_, actual: FKind::Nil })
    );
}

#[test]
fn to_lterm_of_runtime_values() {
    assert_eq!(FTerm::Atom(3).to_lterm(), Ok(LTerm::make_atom(3)));
    assert_eq!(FTerm::SmallInt(-5).to_lterm(), Ok(LTerm::make_small_i(-5)));
    assert_eq!(FTerm::SmallInt(MIN_NEG_SMALL).to_lterm(), Ok(LTerm::make_small_i(MIN_NEG_SMALL)));
    assert_eq!(FTerm::Nil.to_lterm(), Ok(LTerm::nil()));
    assert_eq!(FTerm::X_(1).to_lterm(), Ok(LTerm::make_xreg(1)));
    assert_eq!(FTerm::Y_(2).to_lterm(), Ok(LTerm::make_yreg(2)));
    assert_eq!(FTerm::FP_(3).to_lterm(), Ok(LTerm::make_fpreg(3)));
}

#[test]
fn to_lterm_rejects_load_time_only() {
    assert_eq!(FTerm::Label_(5).to_lterm(), Err(FTermError::LoadTimeOnly(FKind::Label_)));
    assert_eq!(FTerm::Atom_(5).to_lterm(), Err(FTermError::LoadTimeOnly(FKind::Atom_)));
    assert_eq!(FTerm::Int_(5).to_lterm(), Err(FTermError::LoadTimeOnly(FKind::Int_)));
    assert_eq!(FTerm::Lit_(5).to_lterm(), Err(FTermError::LoadTimeOnly(FKind::Lit_)));
    assert_eq!(FTerm::ExtList_(Box::new(vec![])).to_lterm(), Err(FTermError::LoadTimeOnly(FKind::ExtList_)));
    assert_eq!(FTerm::AllocList_.to_lterm(), Err(FTermError::LoadTimeOnly(FKind::AllocList_)));
    assert!(FTerm::Label_(5).is_load_time_only());
    assert!(!FTerm::Atom(5).is_load_time_only());
}

#[test]
fn to_lterm_rejects_values_without_word() {
    assert_eq!(FTerm::Tuple0.to_lterm(), Err(FTermError::NoWordForm(FKind::Tuple0)));
    assert_eq!(FTerm::Float(0x3ff0_0000_0000_0000).to_lterm(), Err(FTermError::NoWordForm(FKind::Float)));
    assert_eq!(FTerm::Tuple(Box::new(vec![FTerm::Nil])).to_lterm(), Err(FTermError::NoWordForm(FKind::Tuple)));
    assert_eq!(
        FTerm::Cons(Box::new(vec![FTerm::SmallInt(1), FTerm::Nil])).to_lterm(),
        Err(FTermError::NoWordForm(FKind::Cons))
    );
}

#[test]
fn to_lterm_rejects_payload_out_of_range() {
    assert_eq!(FTerm::Atom(MAX_ATOM_INDEX + 1).to_lterm(), Err(FTermError::PayloadRange(FKind::Atom)));
    assert_eq!(FTerm::SmallInt(MAX_POS_SMALL + 1).to_lterm(), Err(FTermError::PayloadRange(FKind::SmallInt)));
    assert_eq!(FTerm::SmallInt(MIN_NEG_SMALL - 1).to_lterm(), Err(FTermError::PayloadRange(FKind::SmallInt)));
    assert_eq!(FTerm::X_(MAX_INDEX + 1).to_lterm(), Err(FTermError::PayloadRange(FKind::X_)));
    assert_eq!(FTerm::Y_(MAX_INDEX + 1).to_lterm(), Err(FTermError::PayloadRange(FKind::Y_)));
    assert_eq!(FTerm::FP_(MAX_INDEX + 1).to_lterm(), Err(FTermError::PayloadRange(FKind::FP_)));
}

#[test]
fn table_entries_take_labels_and_words() {
    assert_eq!(FTerm::Label_(4).to_table_entry(), Ok(LTerm::make_label(4)));
    assert_eq!(FTerm::Int_(6).to_table_entry(), Ok(LTerm::make_small_u(6)));
    assert_eq!(FTerm::Atom(2).to_table_entry(), Ok(LTerm::make_atom(2)));
    assert_eq!(FTerm::Label_(MAX_INDEX + 1).to_table_entry(), Err(FTermError::PayloadRange(FKind::Label_)));
    assert_eq!(FTerm::Int_(MAX_UNSIG_SMALL).to_table_entry(), Err(FTermError::PayloadRange(FKind::Int_)));
    assert_eq!(FTerm::Atom_(2).to_table_entry(), Err(FTermError::LoadTimeOnly(FKind::Atom_)));
}

#[test]
fn jump_table_becomes_header_and_entries() {
    let table = FTerm::ExtList_(Box::new(vec![
        FTerm::Atom(1),
        FTerm::Label_(10),
        FTerm::SmallInt(7),
        FTerm::Label_(11),
    ]));
    assert_eq!(
        table.to_lterm_vec(),
        Ok(vec![
            LTerm::make_header(4),
            LTerm::make_atom(1),
            LTerm::make_label(10),
            LTerm::make_small_i(7),
            LTerm::make_label(11),
        ])
    );
    assert_eq!(FTerm::ExtList_(Box::new(vec![])).to_lterm_vec(), Ok(vec![LTerm::make_header(0)]));
}

#[test]
fn jump_table_fails_on_first_bad_entry() {
    let table = FTerm::ExtList_(Box::new(vec![FTerm::Atom(1), FTerm::Atom_(2), FTerm::Tuple0]));
    assert_eq!(table.to_lterm_vec(), Err(FTermError::LoadTimeOnly(FKind::Atom_)));
}

#[test]
fn sequence_only_for_jump_tables() {
    assert_eq!(FTerm::Atom(1).to_lterm_vec(), Err(FTermError::NoSequenceForm(FKind::Atom)));
    assert_eq!(FTerm::Tuple(Box::new(vec![])).to_lterm_vec(), Err(FTermError::NoSequenceForm(FKind::Tuple)));
    assert_eq!(FTerm::AllocList_.to_lterm_vec(), Err(FTermError::NoSequenceForm(FKind::AllocList_)));
}

#[test]
fn clone_copies_the_whole_tree() {
    let t = FTerm::Tuple(Box::new(vec![
        FTerm::from_word(u64::MAX),
        FTerm::ExtList_(Box::new(vec![FTerm::Atom_(1), FTerm::Label_(2)])),
        FTerm::Cons(Box::new(vec![FTerm::SmallInt(-1), FTerm::Nil])),
        FTerm::Float(1),
    ]));
    assert_eq!(t.clone(), t);
}

#[test]
fn kinds() {
    assert_eq!(FTerm::Atom(1).kind(), FKind::Atom);
    assert_eq!(FTerm::from_word(u64::MAX).kind(), FKind::BigInt);
    assert_eq!(FTerm::AllocList_.kind(), FKind::AllocList_);
}

fn atom_table() -> Vec<LTerm> {
    vec![LTerm::make_atom(10), LTerm::make_atom(20), LTerm::make_atom(30)]
}

#[test]
fn resolve_replaces_load_time_atom() {
    assert_eq!(FTerm::Atom_(1).maybe_resolve_atom_(&atom_table()), Ok(Some(FTerm::Atom(20))));
    assert_eq!(FTerm::Atom_(0).maybe_resolve_atom_(&atom_table()), Ok(Some(FTerm::Atom(10))));
}

#[test]
fn resolve_rebuilds_jump_table() {
    let table = FTerm::ExtList_(Box::new(vec![
        FTerm::Atom_(2),
        FTerm::Label_(5),
        FTerm::ExtList_(Box::new(vec![FTerm::Atom_(0)])),
        FTerm::SmallInt(1),
    ]));
    let expected = FTerm::ExtList_(Box::new(vec![
        FTerm::Atom(30),
        FTerm::Label_(5),
        FTerm::ExtList_(Box::new(vec![FTerm::Atom(10)])),
        FTerm::SmallInt(1),
    ]));
    assert_eq!(table.maybe_resolve_atom_(&atom_table()), Ok(Some(expected)));
}

#[test]
fn resolve_answers_no_change() {
    let tab = atom_table();
    assert_eq!(FTerm::Atom(1).maybe_resolve_atom_(&tab), Ok(None));
    assert_eq!(FTerm::Label_(1).maybe_resolve_atom_(&tab), Ok(None));
    assert_eq!(FTerm::Lit_(1).maybe_resolve_atom_(&tab), Ok(None));
    assert_eq!(FTerm::Int_(1).maybe_resolve_atom_(&tab), Ok(None));
    assert_eq!(FTerm::Nil.maybe_resolve_atom_(&tab), Ok(None));
    assert_eq!(FTerm::ExtList_(Box::new(vec![])).maybe_resolve_atom_(&tab), Ok(None));
    let plain = FTerm::ExtList_(Box::new(vec![FTerm::Atom(1), FTerm::Label_(2)]));
    assert_eq!(plain.maybe_resolve_atom_(&tab), Ok(None));
    // a tuple is no jump table: what it holds is not looked at
    assert_eq!(FTerm::Tuple(Box::new(vec![FTerm::Atom_(1)])).maybe_resolve_atom_(&tab), Ok(None));
}

#[test]
fn resolve_twice_changes_nothing() {
    let tab = atom_table();
    let table = FTerm::ExtList_(Box::new(vec![FTerm::Atom_(2), FTerm::Label_(5)]));
    let once = table.maybe_resolve_atom_(&tab).unwrap().unwrap();
    assert_eq!(once.maybe_resolve_atom_(&tab), Ok(None));
    let atom = FTerm::Atom_(1).maybe_resolve_atom_(&tab).unwrap().unwrap();
    assert_eq!(atom.maybe_resolve_atom_(&tab), Ok(None));
}

#[test]
fn resolve_faults() {
    let tab = vec![LTerm::make_atom(10), LTerm::make_small_i(5)];
    assert_eq!(FTerm::Atom_(2).maybe_resolve_atom_(&tab), Err(FTermError::AtomIndexRange { index: 2 }));
    assert_eq!(
        FTerm::Atom_(1).maybe_resolve_atom_(&tab),
        Err(FTermError::NotAnAtom { index: 1, found: Category::Small })
    );
    let table = FTerm::ExtList_(Box::new(vec![FTerm::Atom_(0), FTerm::Atom_(1), FTerm::Atom_(9)]));
    assert_eq!(
        table.maybe_resolve_atom_(&tab),
        Err(FTermError::NotAnAtom { index: 1, found: Category::Small })
    );
    assert_eq!(FTerm::Atom_(0).maybe_resolve_atom_(&vec![]), Err(FTermError::AtomIndexRange { index: 0 }));
}

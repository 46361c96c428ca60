use erlang_rt::defs::{MAX_ATOM_INDEX, MAX_HEADER_ARITY, MAX_INDEX, MAX_POS_SMALL, MAX_UNSIG_SMALL, MIN_NEG_SMALL};
use erlang_rt::term::lterm::{Category, LTerm, TagError};

fn predicates(t: &LTerm) -> Vec<bool> {
    vec![
        t.is_small(),
        t.is_atom(),
        t.is_box(),
        t.is_regx(),
        t.is_regy(),
        t.is_regfp(),
        t.is_nil(),
        t.is_header(),
        t.is_label(),
    ]
}

fn count_true(tests: &[bool]) -> usize {
    tests.iter().filter(|b| **b).count()
}

#[test]
fn atom_round_trip_and_bits() {
    let t = LTerm::make_atom(5);
    assert_eq!(t.raw(), 5 * 64 + 0x0b);
    assert_eq!(t.atom_index(), Ok(5));
    assert_eq!(t.category(), Category::Atom);
    assert!(t.is_immediate());
    let top = LTerm::make_atom(MAX_ATOM_INDEX);
    assert_eq!(top.atom_index(), Ok(MAX_ATOM_INDEX));
    assert_eq!(LTerm::make_atom(0).atom_index(), Ok(0));
}

#[test]
fn small_round_trip_and_bits() {
    let t = LTerm::make_small_i(42);
    assert_eq!(t.raw(), 42 * 16 + 0x0f);
    assert_eq!(t.small_get(), Ok(42));
    let minus_one = LTerm::make_small_i(-1);
    assert_eq!(minus_one.raw(), 0xffff_ffff_ffff_ffff);
    assert_eq!(minus_one.small_get(), Ok(-1));
    assert_eq!(LTerm::make_small_i(-7).raw(), 0xffff_ffff_ffff_ff9f);
    assert_eq!(LTerm::make_small_i(MAX_POS_SMALL).small_get(), Ok(MAX_POS_SMALL));
    assert_eq!(LTerm::make_small_i(MIN_NEG_SMALL).small_get(), Ok(MIN_NEG_SMALL));
    assert_eq!(LTerm::make_small_i(0).small_get(), Ok(0));
}

#[test]
fn small_unsigned_agrees_with_signed() {
    assert_eq!(LTerm::make_small_u(42), LTerm::make_small_i(42));
    let top = LTerm::make_small_u(MAX_UNSIG_SMALL - 1);
    assert_eq!(top.small_get(), Ok(MAX_POS_SMALL));
    assert_eq!(top, LTerm::make_small_i(MAX_POS_SMALL));
}

#[test]
fn box_round_trip_and_bits() {
    let t = LTerm::make_box(0x1000);
    assert_eq!(t.raw(), 0x1002);
    assert_eq!(t.box_ptr(), Ok(0x1000));
    assert_eq!(t.category(), Category::Boxed);
    assert!(!t.is_immediate());
    assert_eq!(LTerm::make_box(0).box_ptr(), Ok(0));
    assert_eq!(LTerm::make_box(0xffff_ffff_ffff_fffc).box_ptr(), Ok(0xffff_ffff_ffff_fffc));
}

#[test]
fn register_round_trips_and_bits() {
    let x = LTerm::make_xreg(3);
    assert_eq!(x.raw(), 3 * 256 + 0x2b);
    assert_eq!(x.regx_get(), Ok(3));
    let y = LTerm::make_yreg(0);
    assert_eq!(y.raw(), 0x6b);
    assert_eq!(y.regy_get(), Ok(0));
    let fp = LTerm::make_fpreg(2);
    assert_eq!(fp.raw(), 2 * 256 + 0xeb);
    assert_eq!(fp.regfp_get(), Ok(2));
    let l = LTerm::make_label(7);
    assert_eq!(l.raw(), 7 * 256 + 0xab);
    assert_eq!(l.label_get(), Ok(7));
    assert_eq!(LTerm::make_xreg(MAX_INDEX).regx_get(), Ok(MAX_INDEX));
    assert_eq!(LTerm::make_yreg(MAX_INDEX).regy_get(), Ok(MAX_INDEX));
    assert_eq!(LTerm::make_fpreg(MAX_INDEX).regfp_get(), Ok(MAX_INDEX));
    assert_eq!(LTerm::make_label(MAX_INDEX).label_get(), Ok(MAX_INDEX));
}

#[test]
fn nil_and_header() {
    let nil = LTerm::nil();
    assert_eq!(nil.raw(), 0x3b);
    assert!(nil.is_nil());
    assert_eq!(nil.category(), Category::Nil);
    let h = LTerm::make_header(3);
    assert_eq!(h.raw(), 12);
    assert_eq!(h.header_arity(), Ok(3));
    assert!(!h.is_immediate());
    assert_eq!(LTerm::make_header(MAX_HEADER_ARITY).header_arity(), Ok(MAX_HEADER_ARITY));
    assert_eq!(LTerm::make_header(0).header_arity(), Ok(0));
}

#[test]
fn exactly_one_predicate_per_constructed_term() {
    let terms = vec![
        LTerm::make_small_i(-3),
        LTerm::make_atom(9),
        LTerm::make_box(64),
        LTerm::make_xreg(1),
        LTerm::make_yreg(2),
        LTerm::make_fpreg(3),
        LTerm::nil(),
        LTerm::make_header(4),
        LTerm::make_label(5),
    ];
    for (place, t) in terms.iter().enumerate() {
        let answers = predicates(t);
        assert_eq!(count_true(&answers), 1);
        assert!(answers[place]);
    }
}

#[test]
fn words_of_no_category() {
    // tags that this layer gives no meaning: cons, process and port identifiers, catch, a special beside nil
    for raw in [0x01u64, 0x03, 0x07, 0x1b, 0x7b] {
        let t = LTerm::from_raw(raw);
        assert_eq!(t.category(), Category::Other);
        assert_eq!(count_true(&predicates(&t)), 0);
        assert_eq!(t.is_immediate(), raw != 0x01);
        assert_eq!(t.raw(), raw);
    }
}

#[test]
fn accessor_on_other_category_fails() {
    let atom = LTerm::make_atom(1);
    assert_eq!(atom.small_get(), Err(TagError { expected: Category::Small, actual: Category::Atom }));
    assert_eq!(atom.box_ptr(), Err(TagError { expected: Category::Boxed, actual: Category::Atom }));
    assert_eq!(atom.regx_get(), Err(TagError { expected: Category::RegX, actual: Category::Atom }));
    assert_eq!(atom.regy_get(), Err(TagError { expected: Category::RegY, actual: Category::Atom }));
    assert_eq!(atom.regfp_get(), Err(TagError { expected: Category::RegFp, actual: Category::Atom }));
    assert_eq!(atom.label_get(), Err(TagError { expected: Category::Label, actual: Category::Atom }));
    assert_eq!(atom.header_arity(), Err(TagError { expected: Category::Header, actual: Category::Atom }));
    let small = LTerm::make_small_i(1);
    assert_eq!(small.atom_index(), Err(TagError { expected: Category::Atom, actual: Category::Small }));
    let nil = LTerm::nil();
    assert_eq!(nil.atom_index(), Err(TagError { expected: Category::Atom, actual: Category::Nil }));
    let other = LTerm::from_raw(1);
    assert_eq!(other.atom_index(), Err(TagError { expected: Category::Atom, actual: Category::Other }));
}

#[test]
fn distinct_payloads_give_distinct_words() {
    assert_ne!(LTerm::make_atom(1), LTerm::make_atom(2));
    assert_ne!(LTerm::make_atom(0), LTerm::nil());
    assert_ne!(LTerm::make_xreg(1), LTerm::make_yreg(1));
    assert_ne!(LTerm::make_box(0), LTerm::make_header(0));
    assert_ne!(LTerm::make_small_i(0), LTerm::make_atom(0));
}

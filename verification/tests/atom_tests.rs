use erlang_rt::emulator::atom::{from_str, to_str, AtomError, AtomStorage};
use erlang_rt::term::lterm::{Category, LTerm};

#[test]
fn first_atom_gets_index_zero() {
    let mut tab = AtomStorage::new();
    assert_eq!(tab.len(), 0);
    let a = from_str(&mut tab, "ok");
    assert_eq!(a, LTerm::make_atom(0));
    assert_eq!(tab.len(), 1);
}

#[test]
fn nth_distinct_text_gets_index_n_minus_one() {
    let mut tab = AtomStorage::new();
    let texts = ["error", "ok", "undefined", "true", "false"];
    for (n, text) in texts.iter().enumerate() {
        let a = from_str(&mut tab, text);
        assert_eq!(a.atom_index(), Ok(n as u64));
    }
    assert_eq!(tab.len(), 5);
}

#[test]
fn same_text_same_index() {
    let mut tab = AtomStorage::new();
    let a = from_str(&mut tab, "hello");
    let b = from_str(&mut tab, "world");
    let c = from_str(&mut tab, "hello");
    assert_eq!(a, c);
    assert_ne!(a, b);
    assert_eq!(tab.len(), 2);
}

#[test]
fn text_comes_back() {
    let mut tab = AtomStorage::new();
    let a = from_str(&mut tab, "hello");
    let b = from_str(&mut tab, "");
    let c = from_str(&mut tab, "h\u{e9}llo");
    assert_eq!(to_str(&tab, a), Ok(String::from("hello")));
    assert_eq!(to_str(&tab, b), Ok(String::new()));
    assert_eq!(to_str(&tab, c), Ok(String::from("h\u{e9}llo")));
    // earlier atoms are still there after later ones came
    from_str(&mut tab, "more");
    assert_eq!(to_str(&tab, a), Ok(String::from("hello")));
}

#[test]
fn texts_that_differ_get_indices_that_differ() {
    let mut tab = AtomStorage::new();
    let texts = ["a", "b", "ab", "ba", "A", " a"];
    let mut seen: Vec<LTerm> = Vec::new();
    for text in texts.iter() {
        let a = from_str(&mut tab, text);
        assert!(!seen.contains(&a));
        seen.push(a);
    }
    for (text, a) in texts.iter().zip(seen.iter()) {
        assert_eq!(from_str(&mut tab, text), *a);
        assert_eq!(to_str(&tab, *a), Ok(String::from(*text)));
    }
    assert_eq!(tab.len(), texts.len());
}

#[test]
fn repeated_interning_of_a_fixed_set() {
    let mut tab = AtomStorage::new();
    let texts = ["one", "two", "three", "four"];
    for round in 0..50 {
        for k in 0..texts.len() {
            let text = texts[(k + round) % texts.len()];
            from_str(&mut tab, text);
        }
    }
    assert_eq!(tab.len(), 4);
    for text in texts.iter() {
        let a = from_str(&mut tab, text);
        assert_eq!(to_str(&tab, a), Ok(String::from(*text)));
    }
}

#[test]
fn to_str_faults() {
    let mut tab = AtomStorage::new();
    from_str(&mut tab, "only");
    assert_eq!(to_str(&tab, LTerm::make_atom(1)), Err(AtomError::IndexRange { index: 1 }));
    assert_eq!(to_str(&tab, LTerm::make_small_i(0)), Err(AtomError::NotAnAtom(Category::Small)));
    assert_eq!(to_str(&tab, LTerm::nil()), Err(AtomError::NotAnAtom(Category::Nil)));
    assert_eq!(to_str(&AtomStorage::new(), LTerm::make_atom(0)), Err(AtomError::IndexRange { index: 0 }));
}

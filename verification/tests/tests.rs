use columnation::{ColumnStack, Columnation};

fn _test_pass<T: Columnation + Eq>(record: T) {
    let mut arena = ColumnStack::<T>::default();
    for _ in 0..100 {
        arena.copy(&record);
    }
    for element in arena.as_slice().iter() {
        assert!(element == &record);
    }
}

#[test]
fn test_opt_vec() {
    _test_pass(vec![Some(vec![0, 1, 2]), None]);
}

#[test]
fn test_option_vec() {
    _test_pass(vec![Some(vec![0, 1, 2])]);
}

#[test]
fn test_u32x3_pass() {
    _test_pass(vec![((1, 2, 3), vec![(0u32, 0u32, 0u32); 1024])]);
}

#[test]
fn test_u64_pass() {
    _test_pass(vec![0u64; 1024]);
}

#[test]
fn test_string_pass() {
    _test_pass(vec![format!("grawwwwrr!"); 1024]);
}

#[test]
fn test_vec_u_s_pass() {
    _test_pass(vec![vec![(0u64, format!("grawwwwrr!")); 32]; 32]);
}

#[test]
fn copy_into() {
    let o = Some(String::from("test"));
    let mut ts: ColumnStack<Option<String>> = ColumnStack::default();
    ts.copy(&o);
    assert!(ts.get(0) == &o);

    let o = Some(1usize);
    let mut ts: ColumnStack<Option<usize>> = ColumnStack::default();
    ts.copy(&o);
    assert!(ts.get(0) == &o);

    let o = (String::from("abc"), String::from("def"));
    let mut ts: ColumnStack<(String, String)> = ColumnStack::default();
    ts.copy(&o);
    assert!(ts.get(0) == &o);

    let o2 = (String::from("abc"), o.clone());
    let mut ts: ColumnStack<(String, (String, String))> = ColumnStack::default();
    ts.copy(&o2);
    assert!(ts.get(0) == &o2);

    let o: Result<String, ()> = Ok(String::from("asdf"));
    let mut ts: ColumnStack<Result<String, ()>> = ColumnStack::default();
    ts.copy(&o);
    assert!(ts.get(0) == &o);

    let o = vec![(String::from("asdf"), String::from("def"))];
    let mut ts: ColumnStack<Vec<(String, String)>> = ColumnStack::default();
    ts.copy(&o);
    assert!(ts.get(0) == &o);

    let binding = (String::from("asdf"), Some(String::from("def")));
    let o = vec![binding];
    let mut ts: ColumnStack<Vec<(String, Option<String>)>> = ColumnStack::default();
    ts.copy(&o);
    assert!(ts.get(0) == &o);
}

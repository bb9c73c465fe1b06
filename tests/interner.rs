use immie2d_shared::global_string::{GlobalString, InternError, Interner};

fn text(s: &str) -> String {
    s.to_string()
}

#[test]
fn interning_twice_gives_the_same_handle() {
    let mut table = Interner::new();
    let first = GlobalString::new(&mut table, &text("fireball"));
    let second = GlobalString::new(&mut table, &text("fireball"));
    assert_eq!(first, second);
    assert_eq!(table.len(), 2);
    assert_eq!(first.to_string(&table), Ok(text("fireball")));
}

#[test]
fn distinct_texts_get_distinct_handles() {
    let mut table = Interner::new();
    let a = GlobalString::new(&mut table, &text("a"));
    let b = GlobalString::new(&mut table, &text("b"));
    assert_ne!(a, b);
    assert_eq!(a.to_string(&table), Ok(text("a")));
    assert_eq!(b.to_string(&table), Ok(text("b")));
    assert_eq!(table.len(), 3);
}

#[test]
fn default_handle_resolves_to_empty_string() {
    let table = Interner::new();
    assert_eq!(GlobalString::default().to_string(&table), Ok(text("")));
    assert_eq!(table.len(), 1);
}

#[test]
fn empty_string_interns_to_default_handle() {
    let mut table = Interner::new();
    let g = GlobalString::new(&mut table, &text(""));
    assert_eq!(g, GlobalString::default());
    assert_eq!(table.len(), 1);
}

#[test]
fn new_if_exists_finds_interned_text() {
    let mut table = Interner::new();
    let g = GlobalString::new(&mut table, &text("hello world!"));
    let found = GlobalString::new_if_exists(&table, &text("hello world!"));
    assert_eq!(found, g);
    assert_eq!(found.to_string(&table), Ok(text("hello world!")));
}

#[test]
fn new_if_exists_gives_default_for_unknown_text() {
    let table = Interner::new();
    let g = GlobalString::new_if_exists(&table, &text("some random string not in the map"));
    assert_eq!(g, GlobalString::default());
    assert_eq!(g.to_string(&table), Ok(text("")));
    assert_eq!(table.len(), 1);
}

#[test]
fn handle_from_another_table_is_invalid() {
    let mut big = Interner::new();
    GlobalString::new(&mut big, &text("x"));
    let late = GlobalString::new(&mut big, &text("y"));
    let small = Interner::new();
    assert_eq!(late.to_string(&small), Err(InternError::InvalidHandle));
}

#[test]
fn handles_are_dense_in_first_seen_order() {
    let mut table = Interner::new();
    let a = GlobalString::new(&mut table, &text("a"));
    let b = GlobalString::new(&mut table, &text("b"));
    let a_again = GlobalString::new(&mut table, &text("a"));
    let c = GlobalString::new(&mut table, &text("c"));
    assert_eq!(a, a_again);
    assert_eq!(table.len(), 4);
    assert_eq!(c.to_string(&table), Ok(text("c")));
    assert_eq!(b.to_string(&table), Ok(text("b")));
}

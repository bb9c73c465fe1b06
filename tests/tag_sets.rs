use immie2d_shared::ability_names::{AbilityNames, MAX_ABILITIES_COUNT};
use immie2d_shared::elements::{ElementKind, Elements, ELEMENT_COUNT};
use immie2d_shared::global_string::{GlobalString, Interner};
use immie2d_shared::tag_set::{TagError, TagSet};
use immie2d_shared::types::{Type, TypeKind};

fn name(table: &mut Interner, s: &str) -> GlobalString {
    GlobalString::new(table, &s.to_string())
}

#[test]
fn elements_from_fire_and_water() {
    let mut elements = Elements::new(vec![ElementKind::Fire, ElementKind::Water]).unwrap();
    assert!(elements.has_elements(ElementKind::Fire));
    assert!(!elements.has_elements(ElementKind::Dragon));
    assert_eq!(elements.add_elements(ElementKind::Fire), Err(TagError::DuplicateTag));
    assert_eq!(elements.get_elements(), vec![ElementKind::Fire, ElementKind::Water]);
}

#[test]
fn five_ability_names_then_a_sixth_fails() {
    let mut table = Interner::new();
    let mut names = AbilityNames::default();
    for s in ["a", "b", "c", "d", "e"] {
        let g = name(&mut table, s);
        assert_eq!(names.add_ability(g), Ok(()));
    }
    assert_eq!(names.get_count(), MAX_ABILITIES_COUNT);
    let f = name(&mut table, "f");
    assert_eq!(names.add_ability(f), Err(TagError::CapacityExceeded));
    assert_eq!(names.get_count(), 5);
    assert!(!names.has_ability(f));
}

#[test]
fn from_list_keeps_order_and_count() {
    let kinds = vec![ElementKind::Light, ElementKind::Dark, ElementKind::Air];
    let elements = Elements::new(kinds.clone()).unwrap();
    assert_eq!(elements.get_elements(), kinds);
    assert_eq!(elements.get_elements_count(), 3);
}

#[test]
fn from_list_rejects_a_repeat() {
    let r = Elements::new(vec![ElementKind::Fire, ElementKind::Standard, ElementKind::Fire]);
    assert_eq!(r.err(), Some(TagError::DuplicateTag));
}

#[test]
fn from_list_rejects_the_sentinel() {
    let r = Elements::new(vec![ElementKind::Invalid]);
    assert_eq!(r.err(), Some(TagError::InvalidTagValue));
}

#[test]
fn from_list_reports_the_first_failure() {
    let r = Type::new(vec![TypeKind::Fire, TypeKind::Invalid, TypeKind::Fire]);
    assert_eq!(r.err(), Some(TagError::InvalidTagValue));
    let r = Type::new(vec![TypeKind::Fire, TypeKind::Fire, TypeKind::Invalid]);
    assert_eq!(r.err(), Some(TagError::DuplicateTag));
}

#[test]
fn from_list_rejects_too_many_names() {
    let mut table = Interner::new();
    let list: Vec<GlobalString> =
        ["a", "b", "c", "d", "e", "f"].iter().map(|s| name(&mut table, s)).collect();
    assert_eq!(AbilityNames::new(list).err(), Some(TagError::CapacityExceeded));
}

#[test]
fn too_many_repeats_report_capacity_first() {
    let mut table = Interner::new();
    let a = name(&mut table, "a");
    let list = vec![a; 6];
    assert_eq!(AbilityNames::new(list).err(), Some(TagError::CapacityExceeded));
}

#[test]
fn ability_names_from_list() {
    let mut table = Interner::new();
    let a = name(&mut table, "a");
    let b = name(&mut table, "b");
    let names = AbilityNames::new(vec![a, b]).unwrap();
    assert_eq!(names.get_names(), vec![a, b]);
    assert_eq!(names.get_count(), 2);
    assert!(names.has_ability(a));
    let other = name(&mut table, "something else");
    assert!(!names.has_ability(other));
}

#[test]
fn ability_names_reject_the_empty_name() {
    let mut names = AbilityNames::default();
    assert_eq!(names.add_ability(GlobalString::default()), Err(TagError::InvalidTagValue));
    assert_eq!(names.get_count(), 0);
}

#[test]
fn ability_names_reject_a_duplicate() {
    let mut table = Interner::new();
    let fireball = name(&mut table, "fireball");
    let mut names = AbilityNames::new(vec![fireball]).unwrap();
    assert_eq!(names.add_ability(fireball), Err(TagError::DuplicateTag));
    assert_eq!(names.get_names(), vec![fireball]);
}

#[test]
fn adding_to_elements() {
    let mut elements = Elements::new(vec![ElementKind::Ground]).unwrap();
    assert_eq!(elements.add_elements(ElementKind::Water), Ok(()));
    assert!(elements.has_elements(ElementKind::Water));
    assert_eq!(elements.get_elements_count(), 2);
    assert_eq!(elements.add_elements(ElementKind::Invalid), Err(TagError::InvalidTagValue));
    assert_eq!(elements.get_elements_count(), 2);
}

#[test]
fn elements_hold_every_kind_once_and_no_more() {
    let mut elements = Elements::new(vec![]).unwrap();
    for id in 1..=11u32 {
        assert_eq!(elements.add_elements(ElementKind::from_id(id)), Ok(()));
    }
    assert_eq!(elements.get_elements_count() as usize, ELEMENT_COUNT);
    assert_eq!(elements.add_elements(ElementKind::Fire), Err(TagError::DuplicateTag));
    assert_eq!(elements.add_elements(ElementKind::Invalid), Err(TagError::CapacityExceeded));
}

#[test]
fn count_follows_successful_adds() {
    let mut types = Type::new(vec![]).unwrap();
    let mut ok = 0;
    for k in [TypeKind::Fire, TypeKind::Fire, TypeKind::Invalid, TypeKind::Metal, TypeKind::Water] {
        if types.add_type(k).is_ok() {
            ok += 1;
        }
    }
    assert_eq!(ok, 3);
    assert_eq!(types.get_type_count(), 3);
    assert_eq!(types.get_types(), vec![TypeKind::Fire, TypeKind::Metal, TypeKind::Water]);
    assert!(types.has_type(TypeKind::Metal));
}

#[test]
fn element_iteration_in_order_then_stops() {
    let elements =
        Elements::new(vec![ElementKind::Fire, ElementKind::Water, ElementKind::Nature]).unwrap();
    let mut it = elements.iter();
    assert_eq!(it.next(), Some(ElementKind::Fire));
    assert_eq!(it.next(), Some(ElementKind::Water));
    assert_eq!(it.next(), Some(ElementKind::Nature));
    assert_eq!(it.next(), None);
    assert_eq!(it.next(), None);
    let mut again = elements.iter();
    assert_eq!(again.next(), Some(ElementKind::Fire));
}

#[test]
fn type_iteration_in_order_then_stops() {
    let types = Type::new(vec![TypeKind::Dragon, TypeKind::Standard]).unwrap();
    let mut it = types.iter();
    assert_eq!(it.next(), Some(TypeKind::Dragon));
    assert_eq!(it.next(), Some(TypeKind::Standard));
    assert_eq!(it.next(), None);
}

#[test]
fn ability_name_iteration_in_order_then_stops() {
    let mut table = Interner::new();
    let a = name(&mut table, "a");
    let b = name(&mut table, "b");
    let names = AbilityNames::new(vec![a, b]).unwrap();
    let mut it = names.iter();
    assert_eq!(it.next(), Some(a));
    assert_eq!(it.next(), Some(b));
    assert_eq!(it.next(), None);
}

#[test]
fn empty_set_iterates_nothing() {
    let names = AbilityNames::default();
    assert_eq!(names.iter().next(), None);
    assert_eq!(names.get_names(), vec![]);
}

#[test]
fn generic_tag_set_round_trip() {
    let set: TagSet<ElementKind, 3> =
        TagSet::from_list(&vec![ElementKind::Air, ElementKind::Metal]).unwrap();
    assert_eq!(set.to_list(), vec![ElementKind::Air, ElementKind::Metal]);
    assert_eq!(set.count(), 2);
    assert!(set.contains(ElementKind::Metal));
    assert!(!set.contains(ElementKind::Fire));
    let mut set = set;
    assert_eq!(set.add(ElementKind::Fire), Ok(()));
    assert_eq!(set.add(ElementKind::Dark), Err(TagError::CapacityExceeded));
    let mut it = set.iter();
    assert_eq!(it.next(), Some(ElementKind::Air));
    assert_eq!(it.next(), Some(ElementKind::Metal));
    assert_eq!(it.next(), Some(ElementKind::Fire));
    assert_eq!(it.next(), None);
}

#[test]
fn empty_generic_set() {
    let set: TagSet<TypeKind, 2> = TagSet::empty();
    assert_eq!(set.count(), 0);
    assert_eq!(set.to_list(), vec![]);
    assert!(!set.contains(TypeKind::Invalid));
}

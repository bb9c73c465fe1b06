use immie2d_shared::ability_map::{AbilityCategory, AbilityMap, RegistryError};
use immie2d_shared::elements::{ElementKind, Elements};

struct Fireball {
    name: &'static str,
    category: AbilityCategory,
    types: Elements,
    power: f32,
    speed: f32,
}

fn fireball() -> Fireball {
    Fireball {
        name: "fireball",
        category: AbilityCategory::Attack,
        types: Elements::new(vec![ElementKind::Fire]).unwrap(),
        power: 40.0,
        speed: 10.0,
    }
}

fn growl() -> Fireball {
    Fireball {
        name: "growl",
        category: AbilityCategory::Status,
        types: Elements::new(vec![ElementKind::Standard]).unwrap(),
        power: 0.0,
        speed: 5.0,
    }
}

#[test]
fn registered_fireball_is_created() {
    let mut map: AbilityMap<fn() -> Fireball> = AbilityMap::new();
    assert_eq!(map.add_ability("fireball", fireball), Ok(()));
    let ability = map.new_ability("fireball").ok().unwrap();
    assert_eq!(ability.name, "fireball");
    assert_eq!(ability.category, AbilityCategory::Attack);
    assert!(ability.types.has_elements(ElementKind::Fire));
    assert_eq!(ability.power, 40.0);
    assert_eq!(ability.speed, 10.0);
    assert_eq!(map.new_ability("does-not-exist").err(), Some(RegistryError::NameNotFound));
}

#[test]
fn is_ability_name_agrees_with_creation() {
    let mut map: AbilityMap<fn() -> Fireball> = AbilityMap::new();
    map.add_ability("fireball", fireball).unwrap();
    map.add_ability("growl", growl).unwrap();
    for n in ["fireball", "growl", "wuhafjnb", "", "Fireball"] {
        assert_eq!(map.is_ability_name(n), map.new_ability(n).is_ok());
    }
    assert!(map.is_ability_name("growl"));
    assert!(!map.is_ability_name("wuhafjnb"));
    assert_eq!(map.new_ability("growl").ok().unwrap().category, AbilityCategory::Status);
}

#[test]
fn duplicate_registration_is_rejected() {
    let mut map: AbilityMap<fn() -> Fireball> = AbilityMap::new();
    assert_eq!(map.add_ability("fireball", fireball), Ok(()));
    assert_eq!(map.add_ability("fireball", growl), Err(RegistryError::DuplicateName));
    assert_eq!(map.new_ability("fireball").ok().unwrap().name, "fireball");
}

#[test]
fn each_creation_is_a_fresh_instance() {
    let mut map: AbilityMap<fn() -> Fireball> = AbilityMap::new();
    map.add_ability("fireball", fireball).unwrap();
    let mut first = map.new_ability("fireball").ok().unwrap();
    first.power = 99.0;
    let second = map.new_ability("fireball").ok().unwrap();
    assert_eq!(second.power, 40.0);
}

#[test]
fn empty_registry_knows_nothing() {
    let map: AbilityMap<fn() -> Fireball> = AbilityMap::new();
    assert!(!map.is_ability_name("fireball"));
    assert_eq!(map.new_ability("fireball").err(), Some(RegistryError::NameNotFound));
}

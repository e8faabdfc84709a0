use haybale::double_keyed_map::DoubleKeyedMap;
use haybale::name::Name;
use haybale::table::{TableKey, VecMap};

#[test]
fn keys_are_the_same_by_value() {
    assert!(5u64.same_key(&5));
    assert!(!5u64.same_key(&6));
    assert!(5usize.same_key(&5));
    assert!("a".to_owned().same_key(&"a".to_owned()));
    assert!(!"a".to_owned().same_key(&"b".to_owned()));
    assert!(("a".to_owned(), 1u64).same_key(&("a".to_owned(), 1u64)));
    assert!(!("a".to_owned(), 1u64).same_key(&("a".to_owned(), 2u64)));
    assert!(!("a".to_owned(), 1u64).same_key(&("b".to_owned(), 1u64)));
}

#[test]
fn names_are_the_same_by_kind_and_payload() {
    assert!(Name::Name("x".to_owned()).same_key(&Name::Name("x".to_owned())));
    assert!(!Name::Name("x".to_owned()).same_key(&Name::Name("y".to_owned())));
    assert!(Name::Number(3).same_key(&Name::Number(3)));
    assert!(!Name::Number(3).same_key(&Name::Number(4)));
    assert!(!Name::Number(3).same_key(&Name::Name("3".to_owned())));
    assert!(!Name::Name("3".to_owned()).same_key(&Name::Number(3)));
    assert_eq!(Name::Name("x".to_owned()).clone(), Name::Name("x".to_owned()));
    assert_eq!(Name::Number(3).clone(), Name::Number(3));
}

#[test]
fn vec_map_inserts_and_replaces() {
    let mut map: VecMap<u64, String> = VecMap::new();
    assert_eq!(map.len(), 0);
    assert_eq!(map.get(&1), None);
    assert!(!map.contains_key(&1));
    map.insert(1, "one".to_owned());
    map.insert(2, "two".to_owned());
    assert_eq!(map.len(), 2);
    assert_eq!(map.get(&1), Some(&"one".to_owned()));
    assert_eq!(map.get(&2), Some(&"two".to_owned()));
    assert_eq!(map.get(&3), None);
    map.insert(1, "uno".to_owned());
    assert_eq!(map.len(), 2);
    assert_eq!(map.get(&1), Some(&"uno".to_owned()));
    assert_eq!(map.position(&2), Some(1));
    assert_eq!(map.position(&3), None);
    assert_eq!(*map.key_at(1), 2);
    assert_eq!(map.value_at(1), "two");
    map.set_value_at(1, "dos".to_owned());
    assert_eq!(map.get(&2), Some(&"dos".to_owned()));
    assert_eq!(map.get(&1), Some(&"uno".to_owned()));
}

#[test]
fn double_keyed_map_finds_by_both_keys() {
    let mut map: DoubleKeyedMap<String, Name, u32> = DoubleKeyedMap::new();
    let f = "f".to_owned();
    let g = "g".to_owned();
    assert_eq!(map.get(&f, &Name::Number(1)), None);
    map.insert(f.clone(), Name::Number(1), 10);
    map.insert(g.clone(), Name::Number(1), 20);
    map.insert(f.clone(), Name::Name("1".to_owned()), 30);
    assert_eq!(map.len(), 3);
    assert_eq!(map.get(&f, &Name::Number(1)), Some(&10));
    assert_eq!(map.get(&g, &Name::Number(1)), Some(&20));
    assert_eq!(map.get(&f, &Name::Name("1".to_owned())), Some(&30));
    assert_eq!(map.get(&g, &Name::Name("1".to_owned())), None);
    assert!(map.contains_key(&g, &Name::Number(1)));
    assert!(!map.contains_key(&g, &Name::Number(2)));
    map.insert(f.clone(), Name::Number(1), 11);
    assert_eq!(map.len(), 3);
    assert_eq!(map.get(&f, &Name::Number(1)), Some(&11));
    assert_eq!(map.position(&g, &Name::Number(1)), Some(1));
    assert_eq!(map.keys_at(1), &(g.clone(), Name::Number(1)));
    assert_eq!(*map.value_at(1), 20);
    map.set_value_at(1, 21);
    assert_eq!(map.get(&g, &Name::Number(1)), Some(&21));
}

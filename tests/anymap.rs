use cling::anymap::AnyMap;
use cling::tag::TypeTag;

#[derive(Debug, PartialEq)]
struct MyType(i32);

#[derive(Debug, PartialEq)]
enum Val {
    Num(u32),
    Text(String),
    My(MyType),
}

fn u32_tag() -> TypeTag {
    TypeTag::named("u32")
}

fn string_tag() -> TypeTag {
    TypeTag::named("alloc::string::String")
}

fn my_tag() -> TypeTag {
    TypeTag::named("anymap::MyType")
}

#[test]
fn test_anymap() {
    let mut map: AnyMap<Val> = AnyMap::default();
    assert_eq!(0, map.len());

    assert_eq!(None, map.insert(u32_tag(), Val::Num(1u32)));
    let x = map.get(&u32_tag()).unwrap();
    assert_eq!(&Val::Num(1), x);

    map.insert(string_tag(), Val::Text("hello".to_string()));
    assert_eq!(2, map.len());
    assert_eq!(&Val::Text("hello".to_string()), map.get(&string_tag()).unwrap());

    assert_eq!(None, map.get(&my_tag()));

    map.insert(my_tag(), Val::My(MyType(42)));
    assert_eq!(3, map.len());
    assert_eq!(&Val::My(MyType(42)), map.get(&my_tag()).unwrap());

    assert_eq!(Val::My(MyType(42)), map.insert(my_tag(), Val::My(MyType(43))).unwrap());

    map.clear();

    assert_eq!(0, map.len());
    assert!(map.is_empty());
    assert_eq!(None, map.insert(my_tag(), Val::My(MyType(43))));
}

#[test]
fn known_types_are_sorted_by_name() {
    let mut map: AnyMap<u8> = AnyMap::new();
    map.insert(TypeTag::named("b::Zeta"), 1);
    map.insert(TypeTag::named("a::Alpha"), 2);
    map.insert(TypeTag::named("a::Alpha").optional(), 3);
    map.insert(TypeTag::named("a::Beta").list(), 4);
    assert_eq!(
        vec![
            "Option<a::Alpha>".to_string(),
            "Vec<a::Beta>".to_string(),
            "a::Alpha".to_string(),
            "b::Zeta".to_string(),
        ],
        map.known_types()
    );
}

#[test]
fn insert_then_get_round_trip() {
    let mut map: AnyMap<String> = AnyMap::new();
    let tag = TypeTag::named("app::Session").list();
    map.insert(tag.duplicate(), "42".to_string());
    assert_eq!(Some(&"42".to_string()), map.get(&tag));
    map.clear();
    assert_eq!(None, map.get(&tag));
    assert!(map.is_empty());
}

#[test]
fn get_mut_changes_the_stored_value() {
    let mut map: AnyMap<u32> = AnyMap::new();
    assert_eq!(None, map.get_mut(&TypeTag::named("u32")));
    map.insert(TypeTag::named("u32"), 1);
    *map.get_mut(&TypeTag::named("u32")).unwrap() += 5;
    assert_eq!(Some(&6), map.get(&TypeTag::named("u32")));
    assert_eq!(1, map.len());
}

#[test]
fn collected_args_get_mut() {
    let mut args: cling::params::CollectedArgs<String> = cling::params::CollectedArgs::new();
    assert!(args.get_mut(&TypeTag::named("x")).is_none());
    args.insert(TypeTag::named("x"), "a".to_string(), false);
    args.get_mut(&TypeTag::named("x")).unwrap().push('b');
    assert_eq!(Some(&"ab".to_string()), args.get(&TypeTag::named("x")));
    assert!(args.warnings().is_empty());
    args.clear();
    assert!(args.is_empty());
    assert_eq!(None, args.get(&TypeTag::named("x")));
}

#[test]
fn each_name_is_listed_once() {
    let mut map: AnyMap<u8> = AnyMap::new();
    map.insert(TypeTag::named("Option<a::Foo>"), 1);
    map.insert(TypeTag::named("a::Foo").optional(), 2);
    map.insert(TypeTag::named("a::Foo"), 3);
    assert_eq!(3, map.len());
    assert_eq!(vec!["Option<a::Foo>".to_string(), "a::Foo".to_string()], map.known_types());
}

use cling::params::{Collectable, CollectableKind, Uncollectable};
use cling::tag::{text_le_exec, TypeTag};

#[test]
fn wrapped_tags_render_their_names() {
    let tag = TypeTag::named("app::Color").list().optional();
    assert_eq!("Option<Vec<app::Color>>", tag.name());
    assert_eq!("Collected<u8>", TypeTag::named("u8").collected().name());
    assert_eq!("app::Color", TypeTag::named("app::Color").name());
}

#[test]
fn optional_is_a_different_type() {
    let foo = TypeTag::named("app::Foo");
    let opt = TypeTag::named("app::Foo").optional();
    assert!(!foo.same_type(&opt));
    assert!(opt.same_type(&TypeTag::named("app::Foo").optional()));
    assert!(!TypeTag::named("app::Foo").list().same_type(&opt));
    assert!(foo.duplicate().same_type(&foo));
}

#[test]
fn text_order_is_by_code_point() {
    assert!(text_le_exec("", "a"));
    assert!(text_le_exec("ab", "ab"));
    assert!(text_le_exec("ab", "abc"));
    assert!(!text_le_exec("abc", "ab"));
    assert!(text_le_exec("B", "a"));
    assert!(!text_le_exec("b", "a"));
}

#[test]
fn collectable_kinds() {
    assert!(Collectable.can_collect());
    assert!(!Uncollectable.can_collect());
    let registry = vec!["app::Common".to_string()];
    let common = TypeTag::named("app::Common");
    assert!(CollectableKind::of(&registry, &common).can_collect());
    assert!(CollectableKind::of(&registry, &common.duplicate().optional().list()).can_collect());
    assert!(!CollectableKind::of(&registry, &common.duplicate().collected()).can_collect());
    assert!(!CollectableKind::of(&registry, &TypeTag::named("app::Other")).can_collect());
}

use mongo_collection::collection::{
    get_collection_name, BindingError, CollectionBinding, ItemKind,
};
use mongo_collection::{collection_name, to_plural_snake_case};

#[test]
fn test_to_plural_snake_case() {
    assert_eq!(to_plural_snake_case("User"), "users");
    assert_eq!(to_plural_snake_case("UserProfile"), "user_profiles");
    assert_eq!(to_plural_snake_case("Course"), "courses");
    assert_eq!(to_plural_snake_case("Category"), "categories");
    assert_eq!(to_plural_snake_case("Book"), "books");
}

#[test]
fn derived_name_differs_from_the_type_name() {
    let derived = to_plural_snake_case("Post");
    assert_eq!(derived, "posts");
    assert_ne!(derived, "Post");
}

#[test]
fn derived_name_of_several_words() {
    assert_eq!(to_plural_snake_case("OrderLineItem"), "order_line_items");
    assert_eq!(to_plural_snake_case("foo-bar"), "foo_bars");
}

#[test]
fn configured_name_wins_over_the_derived_one() {
    assert_eq!(collection_name(Some("people".to_string()), "User"), "people");
}

#[test]
fn name_is_derived_where_none_is_configured() {
    assert_eq!(collection_name(None, "User"), "users");
    assert_eq!(collection_name(None, "UserProfile"), "user_profiles");
    assert_eq!(collection_name(None, "Category"), "categories");
}

#[test]
fn configured_name_is_taken_as_it_is() {
    assert_eq!(collection_name(Some("UserProfile".to_string()), "User"), "UserProfile");
}

#[test]
fn first_entry_that_yields_a_name_decides() {
    let candidates = vec![None, Some("first".to_string()), Some("second".to_string())];
    assert_eq!(get_collection_name(candidates), Some("first".to_string()));
}

#[test]
fn no_entry_yields_no_configured_name() {
    assert_eq!(get_collection_name(vec![]), None);
    assert_eq!(get_collection_name(vec![None, None]), None);
}

#[test]
fn single_entry_yields_its_name() {
    assert_eq!(get_collection_name(vec![Some("users".to_string())]), Some("users".to_string()));
}

#[test]
fn binding_keeps_its_name() {
    let binding = CollectionBinding::new("users".to_string()).unwrap();
    assert_eq!(binding.name(), "users");
}

#[test]
fn binding_refuses_an_empty_name() {
    assert!(CollectionBinding::new(String::new()).is_none());
    assert!(CollectionBinding::resolve(Some(String::new()), "User").is_none());
}

#[test]
fn binding_resolves_to_configured_or_derived_name() {
    let configured = CollectionBinding::resolve(Some("people".to_string()), "User").unwrap();
    assert_eq!(configured.name(), "people");
    let derived = CollectionBinding::resolve(None, "UserProfile").unwrap();
    assert_eq!(derived.name(), "user_profiles");
}

#[test]
fn struct_is_bound_to_its_configured_collection() {
    let candidates = vec![None, Some("people".to_string()), Some("persons".to_string())];
    let binding = CollectionBinding::for_item(ItemKind::Struct, "User", candidates).unwrap();
    assert_eq!(binding.name(), "people");
}

#[test]
fn struct_without_configuration_is_bound_to_its_derived_collection() {
    let binding = CollectionBinding::for_item(ItemKind::Struct, "UserProfile", vec![]).unwrap();
    assert_eq!(binding.name(), "user_profiles");
    let binding = CollectionBinding::for_item(ItemKind::Struct, "Category", vec![None]).unwrap();
    assert_eq!(binding.name(), "categories");
}

#[test]
fn only_a_struct_is_bound() {
    let named = vec![Some("users".to_string())];
    assert_eq!(
        CollectionBinding::for_item(ItemKind::Enum, "User", named.clone()).err(),
        Some(BindingError::NotAStruct)
    );
    assert_eq!(
        CollectionBinding::for_item(ItemKind::Union, "User", vec![]).err(),
        Some(BindingError::NotAStruct)
    );
}

#[test]
fn struct_with_an_empty_configured_name_is_not_bound() {
    let candidates = vec![Some(String::new()), Some("users".to_string())];
    assert_eq!(
        CollectionBinding::for_item(ItemKind::Struct, "User", candidates).err(),
        Some(BindingError::EmptyName)
    );
}

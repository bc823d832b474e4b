use std::collections::HashMap;

use store_core::catalog::Catalog;
use store_core::errors::ApiError;
use store_core::records::{Database, Item, Location, Tag};

fn plain_item(id: Option<u64>, name: &str, location: u64, tags: Vec<u64>) -> Item {
    Item::new(
        id,
        String::from(name),
        String::from("a box of things"),
        String::from("img.png"),
        location,
        tags,
        25,
        vec![],
        vec![],
        HashMap::new(),
        637463746,
        989343,
    )
}

fn tag(name: &str) -> Tag {
    Tag { id: 0, name: String::from(name), color: 345156, icon: Some(24) }
}

#[test]
fn create_database_with_supplied_id_is_bad_request() {
    let mut c = Catalog::new();
    let r = c.create_database(Database { id: 3, name: String::from("Warehouse") });
    assert!(matches!(r, Err(ApiError::BadRequest)));
    assert!(c.list_databases().is_empty());
}

#[test]
fn create_tag_with_supplied_id_is_bad_request() {
    let mut c = Catalog::new();
    let r = c.create_tag(Tag { id: 9, name: String::from("fragile"), color: 1, icon: None });
    assert!(matches!(r, Err(ApiError::BadRequest)));
    assert!(c.list_tags().is_empty());
}

#[test]
fn create_item_with_supplied_id_is_bad_request() {
    let mut c = Catalog::new();
    let r = c.create_item(plain_item(Some(5), "Box", 1, vec![]));
    assert!(matches!(r, Err(ApiError::BadRequest)));
    assert!(c.list_items().is_empty());
}

#[test]
fn create_item_with_zero_id_passes_the_id_check() {
    let mut c = Catalog::new();
    let db = c.create_database(Database { id: 0, name: String::from("W") }).unwrap();
    let loc = c.create_location(Location { id: 0, name: String::from("L"), database: db }).unwrap();
    // Some(0) and None both stand for "unassigned".
    let a = c.create_item(plain_item(Some(0), "A", loc, vec![])).unwrap();
    let b = c.create_item(plain_item(None, "B", loc, vec![])).unwrap();
    assert_ne!(a, 0);
    assert_ne!(b, 0);
    assert!(a < 65536 && b < 65536);
    assert_ne!(a, b);
}

#[test]
fn create_item_with_unknown_tag_is_not_found_and_persists_nothing() {
    let mut c = Catalog::new();
    let db = c.create_database(Database { id: 0, name: String::from("W") }).unwrap();
    let loc = c.create_location(Location { id: 0, name: String::from("L"), database: db }).unwrap();
    let r = c.create_item(plain_item(None, "Box", loc, vec![777]));
    assert!(matches!(r, Err(ApiError::NotFound)));
    assert!(c.list_items().is_empty());
}

#[test]
fn create_item_with_unknown_location_is_not_found_and_persists_nothing() {
    let mut c = Catalog::new();
    let r = c.create_item(plain_item(None, "Box", 321, vec![]));
    assert!(matches!(r, Err(ApiError::NotFound)));
    assert!(c.list_items().is_empty());
}

#[test]
fn create_location_with_unknown_database_is_not_found() {
    let mut c = Catalog::new();
    let r = c.create_location(Location { id: 0, name: String::from("L"), database: 44 });
    assert!(matches!(r, Err(ApiError::NotFound)));
    assert!(c.list_locations().is_empty());
}

#[test]
fn duplicate_names_conflict_and_first_row_is_kept() {
    let mut c = Catalog::new();
    let first = c.create_tag(tag("fragile")).unwrap();
    let r = c.create_tag(tag("fragile"));
    assert!(matches!(r, Err(ApiError::Conflict)));
    assert_eq!(c.list_tags().len(), 1);
    let kept = c.get_tag(first).unwrap();
    assert_eq!(kept.id, first);
    assert_eq!(kept.name, "fragile");
    assert_eq!(kept.color, 345156);
    assert_eq!(kept.icon, Some(24));
}

#[test]
fn duplicate_database_names_conflict() {
    let mut c = Catalog::new();
    c.create_database(Database { id: 0, name: String::from("Warehouse") }).unwrap();
    let r = c.create_database(Database { id: 0, name: String::from("Warehouse") });
    assert!(matches!(r, Err(ApiError::Conflict)));
    assert_eq!(c.list_databases().len(), 1);
}

#[test]
fn get_and_delete_of_unknown_ids_are_not_found() {
    let mut c = Catalog::new();
    assert!(matches!(c.get_database(1), Err(ApiError::NotFound)));
    assert!(matches!(c.get_location(1), Err(ApiError::NotFound)));
    assert!(matches!(c.get_tag(1), Err(ApiError::NotFound)));
    assert!(matches!(c.get_item(1), Err(ApiError::NotFound)));
    assert!(matches!(c.delete_database(1), Err(ApiError::NotFound)));
    assert!(matches!(c.delete_location(1), Err(ApiError::NotFound)));
    assert!(matches!(c.delete_tag(1), Err(ApiError::NotFound)));
    assert!(matches!(c.delete_item(1), Err(ApiError::NotFound)));
}

#[test]
fn update_with_mismatched_ids_is_bad_request() {
    let mut c = Catalog::new();
    let id = c.create_tag(tag("fragile")).unwrap();
    let other = if id == 65535 { 1 } else { id + 1 };
    let r = c.update_tag(other, Tag { id, name: String::from("renamed"), color: 2, icon: None });
    assert!(matches!(r, Err(ApiError::BadRequest)));
    assert_eq!(c.get_tag(id).unwrap().name, "fragile");
}

#[test]
fn update_of_nonexistent_row_is_not_found() {
    let mut c = Catalog::new();
    let r = c.update_tag(12, Tag { id: 12, name: String::from("x"), color: 2, icon: None });
    assert!(matches!(r, Err(ApiError::NotFound)));
}

#[test]
fn update_changes_the_row_in_place() {
    let mut c = Catalog::new();
    let id = c.create_tag(tag("fragile")).unwrap();
    let r = c.update_tag(id, Tag { id, name: String::from("sturdy"), color: 2, icon: None });
    assert!(r.is_ok());
    let row = c.get_tag(id).unwrap();
    assert_eq!(row.name, "sturdy");
    assert_eq!(row.color, 2);
    assert_eq!(row.icon, None);
    assert_eq!(c.list_tags().len(), 1);
}

#[test]
fn update_to_another_rows_name_is_conflict() {
    let mut c = Catalog::new();
    let a = c.create_tag(tag("first")).unwrap();
    let _b = c.create_tag(tag("second")).unwrap();
    let r = c.update_tag(a, Tag { id: a, name: String::from("second"), color: 1, icon: None });
    assert!(matches!(r, Err(ApiError::Conflict)));
    assert_eq!(c.get_tag(a).unwrap().name, "first");
}

#[test]
fn deleting_referenced_rows_is_conflict() {
    let mut c = Catalog::new();
    let db = c.create_database(Database { id: 0, name: String::from("W") }).unwrap();
    let loc = c.create_location(Location { id: 0, name: String::from("L"), database: db }).unwrap();
    let tg = c.create_tag(tag("fragile")).unwrap();
    let item = c.create_item(plain_item(None, "Box", loc, vec![tg])).unwrap();

    assert!(matches!(c.delete_tag(tg), Err(ApiError::Conflict)));
    assert!(matches!(c.delete_location(loc), Err(ApiError::Conflict)));
    assert!(matches!(c.delete_database(db), Err(ApiError::Conflict)));

    // removing the reference frees the dependency chain, innermost first
    assert!(c.delete_item(item).is_ok());
    assert!(c.delete_tag(tg).is_ok());
    assert!(c.delete_location(loc).is_ok());
    assert!(c.delete_database(db).is_ok());
    assert!(c.list_databases().is_empty());
}

#[test]
fn tag_is_deletable_after_its_reference_is_updated_away() {
    let mut c = Catalog::new();
    let db = c.create_database(Database { id: 0, name: String::from("W") }).unwrap();
    let loc = c.create_location(Location { id: 0, name: String::from("L"), database: db }).unwrap();
    let tg = c.create_tag(tag("fragile")).unwrap();
    let item = c.create_item(plain_item(None, "Box", loc, vec![tg])).unwrap();

    assert!(matches!(c.delete_tag(tg), Err(ApiError::Conflict)));
    let updated = plain_item(Some(item), "Box", loc, vec![]);
    assert!(c.update_item(item, updated).is_ok());
    assert!(c.delete_tag(tg).is_ok());
    assert!(c.get_item(item).is_ok());
}

#[test]
fn end_to_end_scenario() {
    let mut c = Catalog::new();
    c.add_user(String::from("admin"), String::from("SECRET-REDACTED")).unwrap();
    let token = c.authenticate(&String::from("admin"), &String::from("SECRET-REDACTED")).unwrap();
    assert!(c.validate(&token).is_ok());

    let db = c.create_database(Database { id: 0, name: String::from("Warehouse") }).unwrap();
    let loc = c
        .create_location(Location { id: 0, name: String::from("Aisle1"), database: db })
        .unwrap();
    let tg = c.create_tag(tag("fragile")).unwrap();
    let item_id = c.create_item(plain_item(None, "Box", loc, vec![tg])).unwrap();
    assert_ne!(item_id, 0);

    let got = c.get_item(item_id).unwrap();
    assert_eq!(got.id, Some(item_id));
    assert_eq!(got.name, "Box");
    assert_eq!(got.description, "a box of things");
    assert_eq!(got.image, "img.png");
    assert_eq!(got.location, loc);
    assert_eq!(got.tags, vec![tg]);
    assert_eq!(got.amount, 25);
    assert!(got.properties_internal.is_empty());
    assert!(got.properties_custom.is_empty());
    assert!(got.attachments.is_empty());
    assert_eq!(got.last_edited, 637463746);
    assert_eq!(got.created, 989343);

    assert!(matches!(c.delete_tag(tg), Err(ApiError::Conflict)));
    assert!(c.delete_item(item_id).is_ok());
    assert!(c.delete_tag(tg).is_ok());
}

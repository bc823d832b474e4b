use std::collections::HashMap;

use store_core::records::{Item, Property};

#[test]
fn it_works() {
    assert_eq!(2 + 2, 4);
}

#[test]
fn property_new_keeps_fields() {
    let p = Property::new(
        2,
        String::from("Mein EAN13"),
        String::from("1568745165912"),
        Some(String::from("ean13")),
        None,
        Some(9),
    );
    assert_eq!(p.id, 2);
    assert_eq!(p.name, "Mein EAN13");
    assert_eq!(p.value, "1568745165912");
    assert_eq!(p.display_type, Some(String::from("ean13")));
    assert_eq!(p.min, None);
    assert_eq!(p.max, Some(9));
}

#[test]
fn item_new_keeps_fields() {
    let mut attachments = HashMap::new();
    attachments.insert(String::from("doc1"), String::from("file.ext"));
    let prop = Property::new(1, String::from("price"), String::from("32"), None, None, None);
    let item = Item::new(
        None,
        String::from("TestItem"),
        String::from("TestItem please ignore"),
        String::from("img.png"),
        1,
        vec![1, 2],
        25,
        vec![prop],
        vec![],
        attachments,
        3165416541646341,
        3165416541646141,
    );
    assert_eq!(item.id, None);
    assert_eq!(item.name, "TestItem");
    assert_eq!(item.description, "TestItem please ignore");
    assert_eq!(item.image, "img.png");
    assert_eq!(item.location, 1);
    assert_eq!(item.tags, vec![1, 2]);
    assert_eq!(item.amount, 25);
    assert_eq!(item.properties_internal.len(), 1);
    assert_eq!(item.properties_internal[0].name, "price");
    assert!(item.properties_custom.is_empty());
    assert_eq!(item.attachments.get("doc1"), Some(&String::from("file.ext")));
    assert_eq!(item.last_edited, 3165416541646341);
    assert_eq!(item.created, 3165416541646141);
}

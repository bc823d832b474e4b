use std::collections::HashMap;
use vstd::prelude::*;

verus! {

/// A typed key/value attached to an `Item`. Internal and custom
/// properties are kept in two disjoint lists and never merged.
#[derive(Clone, Debug)]
pub struct Property {
    pub id: u64,
    pub name: String,
    pub value: String,
    pub display_type: Option<String>,
    pub min: Option<u64>,
    pub max: Option<u64>,
}

impl Property {
    pub fn new(
        id: u64,
        name: String,
        value: String,
        display_type: Option<String>,
        min: Option<u64>,
        max: Option<u64>,
    ) -> (r: Property)
        ensures
            r == (Property { id, name, value, display_type, min, max }),
    {
        Property { id, name, value, display_type, min, max }
    }
}

/// A catalogued inventory item. `id` is server-assigned: `None` or
/// `Some(0)` both stand for "unassigned" on input, and a stored item
/// always carries a non-zero assigned id. `location` must reference an
/// existing `Location`, and every entry of `tags` an existing `Tag`.
#[derive(Clone, Debug)]
pub struct Item {
    pub id: Option<u64>,
    pub name: String,
    pub description: String,
    pub image: String,
    pub location: u64,
    pub tags: Vec<u64>,
    pub amount: u64,
    pub properties_internal: Vec<Property>,
    pub properties_custom: Vec<Property>,
    pub attachments: HashMap<String, String>,
    pub last_edited: u64,
    pub created: u64,
}

impl Item {
    pub fn new(
        id: Option<u64>,
        name: String,
        description: String,
        image: String,
        location: u64,
        tags: Vec<u64>,
        amount: u64,
        properties_internal: Vec<Property>,
        properties_custom: Vec<Property>,
        attachments: HashMap<String, String>,
        last_edited: u64,
        created: u64,
    ) -> (r: Item)
        ensures
            r == (Item {
                id,
                name,
                description,
                image,
                location,
                tags,
                amount,
                properties_internal,
                properties_custom,
                attachments,
                last_edited,
                created,
            }),
    {
        Item {
            id,
            name,
            description,
            image,
            location,
            tags,
            amount,
            properties_internal,
            properties_custom,
            attachments,
            last_edited,
            created,
        }
    }
}

/// A label that items may reference; never owned by them.
#[derive(Clone, Debug)]
pub struct Tag {
    pub id: u64,
    pub name: String,
    pub color: u64,
    pub icon: Option<u64>,
}

/// A place that items live in; belongs to one `Database`.
#[derive(Clone, Debug)]
pub struct Location {
    pub id: u64,
    pub name: String,
    pub database: u64,
}

/// The root of the hierarchy: a named collection of locations.
#[derive(Clone, Debug)]
pub struct Database {
    pub id: u64,
    pub name: String,
}

/// A known account; credentials are checked on authentication and the
/// account is not otherwise mutated here.
#[derive(Clone, Debug)]
pub struct User {
    pub id: u64,
    pub username: String,
    pub password: String,
}

/// A live session: an opaque token bound to the user it was issued to.
/// It exists from successful authentication until explicit revocation.
#[derive(Clone, Debug)]
pub struct Session {
    pub token: String,
    pub user: u64,
}

} // verus!

use vstd::prelude::*;

use crate::auth::sessions_wf;
use crate::errors::ApiError;
use crate::records::{Database, Item, Location, Session, Tag, User};
use crate::table::{
    get_by_id, has_id, has_name, lemma_push_preserves_has_id, name_taken_by_other, rows_wf,
    Resource, Table,
};

verus! {

/// Every listed tag id resolves to a stored tag.
pub open spec fn all_tags_exist(tags: Seq<Tag>, list: Seq<u64>) -> bool {
    forall|j: int| 0 <= j < list.len() ==> has_id(tags, #[trigger] list[j])
}

/// The whole catalog state, abstracted: one sequence of rows per
/// resource kind, plus the known accounts and the live sessions.
#[verifier::ext_equal]
pub struct CatalogView {
    pub users: Seq<User>,
    pub sessions: Seq<Session>,
    pub databases: Seq<Database>,
    pub locations: Seq<Location>,
    pub tags: Seq<Tag>,
    pub items: Seq<Item>,
}

/// Some location belongs to the database with this id.
pub open spec fn database_referenced(locations: Seq<Location>, id: u64) -> bool {
    exists|i: int| 0 <= i < locations.len() && locations[i].database == id
}

/// Some item lives in the location with this id.
pub open spec fn location_referenced(items: Seq<Item>, id: u64) -> bool {
    exists|i: int| 0 <= i < items.len() && items[i].location == id
}

/// Some item carries the tag with this id.
pub open spec fn tag_referenced(items: Seq<Item>, id: u64) -> bool {
    exists|i: int| 0 <= i < items.len() && items[i].tags@.contains(id)
}

/// Referential integrity: every foreign key resolves to a stored row.
pub open spec fn fk_ok(v: CatalogView) -> bool {
    &&& forall|i: int|
        0 <= i < v.locations.len() ==> has_id(v.databases, #[trigger] v.locations[i].database)
    &&& forall|i: int| 0 <= i < v.items.len() ==> has_id(v.locations, #[trigger] v.items[i].location)
    &&& forall|i: int| 0 <= i < v.items.len() ==> all_tags_exist(v.tags, #[trigger] v.items[i].tags@)
}

/// Well-formedness of the whole catalog: each kind's rows are
/// well-formed, foreign keys resolve, and the session set is sound.
pub open spec fn wf_view(v: CatalogView) -> bool {
    &&& rows_wf(v.users)
    &&& rows_wf(v.databases)
    &&& rows_wf(v.locations)
    &&& rows_wf(v.tags)
    &&& rows_wf(v.items)
    &&& fk_ok(v)
    &&& sessions_wf(v.sessions)
}

/// The in-memory inventory catalog: accounts, live sessions, and one
/// table per resource kind. The sole mutator of all of them.
pub struct Catalog {
    pub users: Table<User>,
    pub sessions: Vec<Session>,
    pub databases: Table<Database>,
    pub locations: Table<Location>,
    pub tags: Table<Tag>,
    pub items: Table<Item>,
}

impl View for Catalog {
    type V = CatalogView;

    open spec fn view(&self) -> CatalogView {
        CatalogView {
            users: self.users@,
            sessions: self.sessions@,
            databases: self.databases@,
            locations: self.locations@,
            tags: self.tags@,
            items: self.items@,
        }
    }
}

impl Catalog {
    pub open spec fn wf(self) -> bool {
        wf_view(self@)
    }

    /// An empty catalog: no accounts, no sessions, no resources.
    pub fn new() -> (r: Catalog)
        ensures
            r.wf(),
            r@.users.len() == 0,
            r@.sessions.len() == 0,
            r@.databases.len() == 0,
            r@.locations.len() == 0,
            r@.tags.len() == 0,
            r@.items.len() == 0,
    {
        Catalog {
            users: Table::new(),
            sessions: Vec::new(),
            databases: Table::new(),
            locations: Table::new(),
            tags: Table::new(),
            items: Table::new(),
        }
    }

    /// Registers an account. The username must be free; the id is
    /// server-assigned, as for every other kind.
    pub fn add_user(&mut self, username: String, password: String) -> (r: Result<u64, ApiError>)
        requires
            old(self).wf(),
        ensures
            final(self).wf(),
            match r {
                Result::Ok(id) => !has_name(old(self)@.users, username@) && id != 0 && !has_id(
                    old(self)@.users,
                    id,
                ) && final(self)@ == (CatalogView {
                    users: old(self)@.users.push(User { id, username, password }),
                    ..old(self)@
                }),
                Result::Err(e) => final(self)@ == old(self)@ && match e {
                    ApiError::Conflict => has_name(old(self)@.users, username@),
                    ApiError::Internal => !has_name(old(self)@.users, username@),
                    _ => false,
                },
            },
    {
        let r = self.users.create(User { id: 0, username, password });
        proof {
            assert(fk_ok(self@));
        }
        r
    }

    /// All databases, in storage order.
    pub fn list_databases(&self) -> (r: &Vec<Database>)
        ensures
            r@ == self@.databases,
    {
        self.databases.list()
    }

    /// One database by id; `NotFound` when no row carries the id.
    pub fn get_database(&self, id: u64) -> (r: Result<&Database, ApiError>)
        requires
            self.wf(),
        ensures
            match r {
                Result::Ok(row) => has_id(self@.databases, id) && *row == get_by_id(
                    self@.databases,
                    id,
                ),
                Result::Err(e) => e == ApiError::NotFound && !has_id(self@.databases, id),
            },
    {
        self.databases.get(id)
    }

    /// Creates a database under a fresh server-assigned id.
    pub fn create_database(&mut self, database: Database) -> (r: Result<u64, ApiError>)
        requires
            old(self).wf(),
        ensures
            final(self).wf(),
            match r {
                Result::Ok(id) => database.id == 0 && !has_name(old(self)@.databases, database.name@)
                    && id != 0 && id < 65536 && !has_id(old(self)@.databases, id) && final(self)@
                    == (CatalogView {
                    databases: old(self)@.databases.push(database.spec_with_id(id)),
                    ..old(self)@
                }),
                Result::Err(e) => final(self)@ == old(self)@ && match e {
                    ApiError::BadRequest => database.id != 0,
                    ApiError::Conflict => database.id == 0 && has_name(
                        old(self)@.databases,
                        database.name@,
                    ),
                    ApiError::Internal => database.id == 0 && !has_name(
                        old(self)@.databases,
                        database.name@,
                    ),
                    _ => false,
                },
            },
    {
        let r = self.databases.create(database);
        proof {
            if r is Ok {
                assert forall|i: int| 0 <= i < self@.locations.len() implies has_id(
                    self@.databases,
                    #[trigger] self@.locations[i].database,
                ) by {
                    lemma_push_preserves_has_id(
                        old(self)@.databases,
                        database.spec_with_id(r->Ok_0),
                        self@.locations[i].database,
                    );
                }
            }
        }
        r
    }

    /// Deletes a database; refused with `Conflict` while any location
    /// still belongs to it.
    pub fn delete_database(&mut self, id: u64) -> (r: Result<(), ApiError>)
        requires
            old(self).wf(),
        ensures
            final(self).wf(),
            match r {
                Result::Ok(()) => has_id(old(self)@.databases, id) && !database_referenced(
                    old(self)@.locations,
                    id,
                ) && !has_id(final(self)@.databases, id) && final(self)@ == (CatalogView {
                    databases: old(self)@.databases.remove(
                        crate::table::index_of(old(self)@.databases, id),
                    ),
                    ..old(self)@
                }),
                Result::Err(e) => final(self)@ == old(self)@ && match e {
                    ApiError::NotFound => !has_id(old(self)@.databases, id),
                    ApiError::Conflict => has_id(old(self)@.databases, id) && database_referenced(
                        old(self)@.locations,
                        id,
                    ),
                    _ => false,
                },
            },
    {
        if !self.databases.contains_id(id) {
            return Result::Err(ApiError::NotFound);
        }
        if database_referenced_exec(&self.locations, id) {
            return Result::Err(ApiError::Conflict);
        }
        self.databases.remove(id);
        proof {
            assert forall|i: int| 0 <= i < self@.locations.len() implies has_id(
                self@.databases,
                #[trigger] self@.locations[i].database,
            ) by {
                assert(self@.locations[i].database != id);
            }
        }
        Result::Ok(())
    }

    /// All locations, in storage order.
    pub fn list_locations(&self) -> (r: &Vec<Location>)
        ensures
            r@ == self@.locations,
    {
        self.locations.list()
    }

    /// One location by id; `NotFound` when no row carries the id.
    pub fn get_location(&self, id: u64) -> (r: Result<&Location, ApiError>)
        requires
            self.wf(),
        ensures
            match r {
                Result::Ok(row) => has_id(self@.locations, id) && *row == get_by_id(
                    self@.locations,
                    id,
                ),
                Result::Err(e) => e == ApiError::NotFound && !has_id(self@.locations, id),
            },
    {
        self.locations.get(id)
    }

    /// Creates a location under a fresh server-assigned id. The parent
    /// database must exist.
    pub fn create_location(&mut self, location: Location) -> (r: Result<u64, ApiError>)
        requires
            old(self).wf(),
        ensures
            final(self).wf(),
            match r {
                Result::Ok(id) => location.id == 0 && has_id(old(self)@.databases, location.database)
                    && !has_name(old(self)@.locations, location.name@) && id != 0 && id < 65536
                    && !has_id(old(self)@.locations, id) && final(self)@ == (CatalogView {
                    locations: old(self)@.locations.push(location.spec_with_id(id)),
                    ..old(self)@
                }),
                Result::Err(e) => final(self)@ == old(self)@ && match e {
                    ApiError::BadRequest => location.id != 0,
                    ApiError::NotFound => location.id == 0 && !has_id(
                        old(self)@.databases,
                        location.database,
                    ),
                    ApiError::Conflict => location.id == 0 && has_id(
                        old(self)@.databases,
                        location.database,
                    ) && has_name(old(self)@.locations, location.name@),
                    ApiError::Internal => location.id == 0 && has_id(
                        old(self)@.databases,
                        location.database,
                    ) && !has_name(old(self)@.locations, location.name@),
                    _ => false,
                },
            },
    {
        if location.id() != 0 {
            return Result::Err(ApiError::BadRequest);
        }
        if !self.databases.contains_id(location.database) {
            return Result::Err(ApiError::NotFound);
        }
        let ghost pre = self@;
        let r = self.locations.create(location);
        proof {
            if r is Ok {
                assert forall|i: int| 0 <= i < self@.locations.len() implies has_id(
                    self@.databases,
                    #[trigger] self@.locations[i].database,
                ) by {
                    if i < pre.locations.len() {
                        assert(self@.locations[i] == pre.locations[i]);
                    } else {
                        assert(self@.locations[i] == location.spec_with_id(r->Ok_0));
                    }
                }
                assert forall|i: int| 0 <= i < self@.items.len() implies has_id(
                    self@.locations,
                    #[trigger] self@.items[i].location,
                ) by {
                    lemma_push_preserves_has_id(
                        pre.locations,
                        location.spec_with_id(r->Ok_0),
                        self@.items[i].location,
                    );
                }
            }
        }
        r
    }

    /// Updates the location stored under `path_id`; the payload must
    /// carry the same id, and the parent database must exist.
    pub fn update_location(&mut self, path_id: u64, location: Location) -> (r: Result<
        (),
        ApiError,
    >)
        requires
            old(self).wf(),
        ensures
            final(self).wf(),
            match r {
                Result::Ok(()) => location.id == path_id && has_id(old(self)@.locations, path_id)
                    && !name_taken_by_other(old(self)@.locations, location.name@, path_id) && has_id(
                    old(self)@.databases,
                    location.database,
                ) && final(self)@ == (CatalogView {
                    locations: old(self)@.locations.update(
                        crate::table::index_of(old(self)@.locations, path_id),
                        location,
                    ),
                    ..old(self)@
                }),
                Result::Err(e) => final(self)@ == old(self)@ && match e {
                    ApiError::BadRequest => location.id != path_id,
                    ApiError::NotFound => location.id == path_id && (!has_id(
                        old(self)@.locations,
                        path_id,
                    ) || (has_id(old(self)@.locations, path_id) && !name_taken_by_other(
                        old(self)@.locations,
                        location.name@,
                        path_id,
                    ) && !has_id(old(self)@.databases, location.database))),
                    ApiError::Conflict => location.id == path_id && has_id(
                        old(self)@.locations,
                        path_id,
                    ) && name_taken_by_other(old(self)@.locations, location.name@, path_id),
                    _ => false,
                },
            },
    {
        if location.id() != path_id {
            return Result::Err(ApiError::BadRequest);
        }
        if !self.locations.contains_id(path_id) {
            return Result::Err(ApiError::NotFound);
        }
        if self.locations.name_collides(&location.name, path_id) {
            return Result::Err(ApiError::Conflict);
        }
        if !self.databases.contains_id(location.database) {
            return Result::Err(ApiError::NotFound);
        }
        let ghost pre = self@;
        self.locations.replace(location);
        proof {
            assert forall|i: int| 0 <= i < self@.locations.len() implies has_id(
                self@.databases,
                #[trigger] self@.locations[i].database,
            ) by {
                if self@.locations[i] != location {
                    assert(self@.locations[i] == pre.locations[i]);
                }
            }
        }
        Result::Ok(())
    }

    /// Deletes a location; refused with `Conflict` while any item still
    /// lives in it.
    pub fn delete_location(&mut self, id: u64) -> (r: Result<(), ApiError>)
        requires
            old(self).wf(),
        ensures
            final(self).wf(),
            match r {
                Result::Ok(()) => has_id(old(self)@.locations, id) && !location_referenced(
                    old(self)@.items,
                    id,
                ) && !has_id(final(self)@.locations, id) && final(self)@ == (CatalogView {
                    locations: old(self)@.locations.remove(
                        crate::table::index_of(old(self)@.locations, id),
                    ),
                    ..old(self)@
                }),
                Result::Err(e) => final(self)@ == old(self)@ && match e {
                    ApiError::NotFound => !has_id(old(self)@.locations, id),
                    ApiError::Conflict => has_id(old(self)@.locations, id) && location_referenced(
                        old(self)@.items,
                        id,
                    ),
                    _ => false,
                },
            },
    {
        if !self.locations.contains_id(id) {
            return Result::Err(ApiError::NotFound);
        }
        if location_referenced_exec(&self.items, id) {
            return Result::Err(ApiError::Conflict);
        }
        self.locations.remove(id);
        proof {
            assert forall|i: int| 0 <= i < self@.items.len() implies has_id(
                self@.locations,
                #[trigger] self@.items[i].location,
            ) by {
                assert(self@.items[i].location != id);
            }
        }
        Result::Ok(())
    }

    /// All tags, in storage order.
    pub fn list_tags(&self) -> (r: &Vec<Tag>)
        ensures
            r@ == self@.tags,
    {
        self.tags.list()
    }

    /// One tag by id; `NotFound` when no row carries the id.
    pub fn get_tag(&self, id: u64) -> (r: Result<&Tag, ApiError>)
        requires
            self.wf(),
        ensures
            match r {
                Result::Ok(row) => has_id(self@.tags, id) && *row == get_by_id(self@.tags, id),
                Result::Err(e) => e == ApiError::NotFound && !has_id(self@.tags, id),
            },
    {
        self.tags.get(id)
    }

    /// Creates a tag under a fresh server-assigned id.
    pub fn create_tag(&mut self, tag: Tag) -> (r: Result<u64, ApiError>)
        requires
            old(self).wf(),
        ensures
            final(self).wf(),
            match r {
                Result::Ok(id) => tag.id == 0 && !has_name(old(self)@.tags, tag.name@) && id != 0
                    && id < 65536 && !has_id(old(self)@.tags, id) && final(self)@ == (CatalogView {
                    tags: old(self)@.tags.push(tag.spec_with_id(id)),
                    ..old(self)@
                }),
                Result::Err(e) => final(self)@ == old(self)@ && match e {
                    ApiError::BadRequest => tag.id != 0,
                    ApiError::Conflict => tag.id == 0 && has_name(old(self)@.tags, tag.name@),
                    ApiError::Internal => tag.id == 0 && !has_name(old(self)@.tags, tag.name@),
                    _ => false,
                },
            },
    {
        let ghost pre = self@;
        let r = self.tags.create(tag);
        proof {
            if r is Ok {
                assert forall|i: int| 0 <= i < self@.items.len() implies all_tags_exist(
                    self@.tags,
                    #[trigger] self@.items[i].tags@,
                ) by {
                    assert forall|j: int| 0 <= j < self@.items[i].tags@.len() implies has_id(
                        self@.tags,
                        #[trigger] self@.items[i].tags@[j],
                    ) by {
                        assert(all_tags_exist(pre.tags, pre.items[i].tags@));
                        lemma_push_preserves_has_id(
                            pre.tags,
                            tag.spec_with_id(r->Ok_0),
                            self@.items[i].tags@[j],
                        );
                    }
                }
            }
        }
        r
    }

    /// Updates the tag stored under `path_id`; the payload must carry
    /// the same id.
    pub fn update_tag(&mut self, path_id: u64, tag: Tag) -> (r: Result<(), ApiError>)
        requires
            old(self).wf(),
        ensures
            final(self).wf(),
            match r {
                Result::Ok(()) => tag.id == path_id && has_id(old(self)@.tags, path_id)
                    && !name_taken_by_other(old(self)@.tags, tag.name@, path_id) && final(self)@
                    == (CatalogView {
                    tags: old(self)@.tags.update(
                        crate::table::index_of(old(self)@.tags, path_id),
                        tag,
                    ),
                    ..old(self)@
                }),
                Result::Err(e) => final(self)@ == old(self)@ && match e {
                    ApiError::BadRequest => tag.id != path_id,
                    ApiError::NotFound => tag.id == path_id && !has_id(old(self)@.tags, path_id),
                    ApiError::Conflict => tag.id == path_id && has_id(old(self)@.tags, path_id)
                        && name_taken_by_other(old(self)@.tags, tag.name@, path_id),
                    _ => false,
                },
            },
    {
        if tag.id() != path_id {
            return Result::Err(ApiError::BadRequest);
        }
        if !self.tags.contains_id(path_id) {
            return Result::Err(ApiError::NotFound);
        }
        if self.tags.name_collides(&tag.name, path_id) {
            return Result::Err(ApiError::Conflict);
        }
        let ghost pre = self@;
        self.tags.replace(tag);
        proof {
            assert forall|i: int| 0 <= i < self@.items.len() implies all_tags_exist(
                self@.tags,
                #[trigger] self@.items[i].tags@,
            ) by {
                assert forall|j: int| 0 <= j < self@.items[i].tags@.len() implies has_id(
                    self@.tags,
                    #[trigger] self@.items[i].tags@[j],
                ) by {
                    assert(all_tags_exist(pre.tags, pre.items[i].tags@));
                    assert(has_id(pre.tags, self@.items[i].tags@[j]));
                }
            }
        }
        Result::Ok(())
    }

    /// Deletes a tag; refused with `Conflict` while any item still
    /// carries it.
    pub fn delete_tag(&mut self, id: u64) -> (r: Result<(), ApiError>)
        requires
            old(self).wf(),
        ensures
            final(self).wf(),
            match r {
                Result::Ok(()) => has_id(old(self)@.tags, id) && !tag_referenced(
                    old(self)@.items,
                    id,
                ) && !has_id(final(self)@.tags, id) && final(self)@ == (CatalogView {
                    tags: old(self)@.tags.remove(crate::table::index_of(old(self)@.tags, id)),
                    ..old(self)@
                }),
                Result::Err(e) => final(self)@ == old(self)@ && match e {
                    ApiError::NotFound => !has_id(old(self)@.tags, id),
                    ApiError::Conflict => has_id(old(self)@.tags, id) && tag_referenced(
                        old(self)@.items,
                        id,
                    ),
                    _ => false,
                },
            },
    {
        if !self.tags.contains_id(id) {
            return Result::Err(ApiError::NotFound);
        }
        if tag_referenced_exec(&self.items, id) {
            return Result::Err(ApiError::Conflict);
        }
        self.tags.remove(id);
        proof {
            assert forall|i: int| 0 <= i < self@.items.len() implies all_tags_exist(
                self@.tags,
                #[trigger] self@.items[i].tags@,
            ) by {
                assert forall|j: int| 0 <= j < self@.items[i].tags@.len() implies has_id(
                    self@.tags,
                    #[trigger] self@.items[i].tags@[j],
                ) by {
                    assert(all_tags_exist(old(self)@.tags, old(self)@.items[i].tags@));
                    assert(has_id(old(self)@.tags, self@.items[i].tags@[j]));
                    assert(self@.items[i].tags@.contains(self@.items[i].tags@[j]));
                    assert(self@.items[i].tags@[j] != id);
                }
            }
        }
        Result::Ok(())
    }

    /// All items, in storage order.
    pub fn list_items(&self) -> (r: &Vec<Item>)
        ensures
            r@ == self@.items,
    {
        self.items.list()
    }

    /// One item by id; `NotFound` when no row carries the id.
    pub fn get_item(&self, id: u64) -> (r: Result<&Item, ApiError>)
        requires
            self.wf(),
        ensures
            match r {
                Result::Ok(row) => has_id(self@.items, id) && *row == get_by_id(self@.items, id),
                Result::Err(e) => e == ApiError::NotFound && !has_id(self@.items, id),
            },
    {
        self.items.get(id)
    }

    /// Creates an item under a fresh server-assigned id. Its location
    /// and every tag it carries must exist before the write is tried.
    pub fn create_item(&mut self, item: Item) -> (r: Result<u64, ApiError>)
        requires
            old(self).wf(),
        ensures
            final(self).wf(),
            match r {
                Result::Ok(id) => item.spec_id() == 0 && all_tags_exist(old(self)@.tags, item.tags@)
                    && has_id(old(self)@.locations, item.location) && !has_name(
                    old(self)@.items,
                    item.name@,
                ) && id != 0 && id < 65536 && !has_id(old(self)@.items, id) && final(self)@
                    == (CatalogView {
                    items: old(self)@.items.push(item.spec_with_id(id)),
                    ..old(self)@
                }),
                Result::Err(e) => final(self)@ == old(self)@ && match e {
                    ApiError::BadRequest => item.spec_id() != 0,
                    ApiError::NotFound => item.spec_id() == 0 && !(all_tags_exist(
                        old(self)@.tags,
                        item.tags@,
                    ) && has_id(old(self)@.locations, item.location)),
                    ApiError::Conflict => item.spec_id() == 0 && all_tags_exist(
                        old(self)@.tags,
                        item.tags@,
                    ) && has_id(old(self)@.locations, item.location) && has_name(
                        old(self)@.items,
                        item.name@,
                    ),
                    ApiError::Internal => item.spec_id() == 0 && all_tags_exist(
                        old(self)@.tags,
                        item.tags@,
                    ) && has_id(old(self)@.locations, item.location) && !has_name(
                        old(self)@.items,
                        item.name@,
                    ),
                    _ => false,
                },
            },
    {
        if item.id() != 0 {
            return Result::Err(ApiError::BadRequest);
        }
        if !all_tags_exist_exec(&self.tags, &item.tags) {
            return Result::Err(ApiError::NotFound);
        }
        if !self.locations.contains_id(item.location) {
            return Result::Err(ApiError::NotFound);
        }
        let ghost pre = self@;
        let r = self.items.create(item);
        proof {
            if r is Ok {
                let it = pre.items.push(item.spec_with_id(r->Ok_0));
                assert forall|i: int| 0 <= i < it.len() implies has_id(
                    self@.locations,
                    #[trigger] it[i].location,
                ) by {
                    if i < pre.items.len() {
                        assert(it[i] == pre.items[i]);
                    } else {
                        assert(it[i] == item.spec_with_id(r->Ok_0));
                    }
                }
                assert forall|i: int| 0 <= i < it.len() implies all_tags_exist(
                    self@.tags,
                    #[trigger] it[i].tags@,
                ) by {
                    if i < pre.items.len() {
                        assert(it[i] == pre.items[i]);
                        assert(all_tags_exist(pre.tags, pre.items[i].tags@));
                    } else {
                        assert(it[i] == item.spec_with_id(r->Ok_0));
                        assert(it[i].tags@ == item.tags@);
                    }
                }
            }
        }
        r
    }

    /// Updates the item stored under `path_id`; the payload must carry
    /// the same id, and its location and tags must exist.
    pub fn update_item(&mut self, path_id: u64, item: Item) -> (r: Result<(), ApiError>)
        requires
            old(self).wf(),
        ensures
            final(self).wf(),
            match r {
                Result::Ok(()) => item.spec_id() == path_id && has_id(old(self)@.items, path_id)
                    && !name_taken_by_other(old(self)@.items, item.name@, path_id) && all_tags_exist(
                    old(self)@.tags,
                    item.tags@,
                ) && has_id(old(self)@.locations, item.location) && final(self)@ == (CatalogView {
                    items: old(self)@.items.update(
                        crate::table::index_of(old(self)@.items, path_id),
                        item,
                    ),
                    ..old(self)@
                }),
                Result::Err(e) => final(self)@ == old(self)@ && match e {
                    ApiError::BadRequest => item.spec_id() != path_id,
                    ApiError::NotFound => item.spec_id() == path_id && (!has_id(
                        old(self)@.items,
                        path_id,
                    ) || (has_id(old(self)@.items, path_id) && !name_taken_by_other(
                        old(self)@.items,
                        item.name@,
                        path_id,
                    ) && !(all_tags_exist(old(self)@.tags, item.tags@) && has_id(
                        old(self)@.locations,
                        item.location,
                    )))),
                    ApiError::Conflict => item.spec_id() == path_id && has_id(
                        old(self)@.items,
                        path_id,
                    ) && name_taken_by_other(old(self)@.items, item.name@, path_id),
                    _ => false,
                },
            },
    {
        if item.id() != path_id {
            return Result::Err(ApiError::BadRequest);
        }
        if !self.items.contains_id(path_id) {
            return Result::Err(ApiError::NotFound);
        }
        if self.items.name_collides(&item.name, path_id) {
            return Result::Err(ApiError::Conflict);
        }
        if !all_tags_exist_exec(&self.tags, &item.tags) {
            return Result::Err(ApiError::NotFound);
        }
        if !self.locations.contains_id(item.location) {
            return Result::Err(ApiError::NotFound);
        }
        let ghost pre = self@;
        self.items.replace(item);
        proof {
            assert forall|i: int| 0 <= i < self@.items.len() implies has_id(
                self@.locations,
                #[trigger] self@.items[i].location,
            ) by {
                if self@.items[i] != item {
                    assert(self@.items[i] == pre.items[i]);
                }
            }
            assert forall|i: int| 0 <= i < self@.items.len() implies all_tags_exist(
                self@.tags,
                #[trigger] self@.items[i].tags@,
            ) by {
                if self@.items[i] != item {
                    assert(self@.items[i] == pre.items[i]);
                    assert(all_tags_exist(pre.tags, pre.items[i].tags@));
                }
            }
        }
        Result::Ok(())
    }

    /// Deletes an item; nothing references items, so only existence is
    /// checked.
    pub fn delete_item(&mut self, id: u64) -> (r: Result<(), ApiError>)
        requires
            old(self).wf(),
        ensures
            final(self).wf(),
            match r {
                Result::Ok(()) => has_id(old(self)@.items, id) && !has_id(final(self)@.items, id)
                    && final(self)@ == (CatalogView {
                    items: old(self)@.items.remove(crate::table::index_of(old(self)@.items, id)),
                    ..old(self)@
                }),
                Result::Err(e) => final(self)@ == old(self)@ && e == ApiError::NotFound && !has_id(
                    old(self)@.items,
                    id,
                ),
            },
    {
        if !self.items.contains_id(id) {
            return Result::Err(ApiError::NotFound);
        }
        let ghost pre = self@;
        self.items.remove(id);
        proof {
            let idx = crate::table::index_of(pre.items, id);
            pre.items.remove_ensures(idx);
            assert forall|i: int| 0 <= i < self@.items.len() implies has_id(
                self@.locations,
                #[trigger] self@.items[i].location,
            ) by {
                let i0 = if i < idx {
                    i
                } else {
                    i + 1
                };
                assert(self@.items[i] == pre.items[i0]);
            }
            assert forall|i: int| 0 <= i < self@.items.len() implies all_tags_exist(
                self@.tags,
                #[trigger] self@.items[i].tags@,
            ) by {
                let i0 = if i < idx {
                    i
                } else {
                    i + 1
                };
                assert(self@.items[i] == pre.items[i0]);
                assert(all_tags_exist(pre.tags, pre.items[i0].tags@));
            }
        }
        Result::Ok(())
    }
}

/// Does the vector hold the value?
fn vec_contains_u64(v: &Vec<u64>, x: u64) -> (r: bool)
    ensures
        r == v@.contains(x),
{
    let n = v.len();
    let mut i: usize = 0;
    while i < n
        invariant
            n == v@.len(),
            i <= n,
            forall|k: int| 0 <= k < i ==> v@[k] != x,
        decreases n - i,
    {
        if v[i] == x {
            return true;
        }
        i = i + 1;
    }
    false
}

/// Do all the listed tag ids resolve to stored tags?
fn all_tags_exist_exec(tags: &Table<Tag>, list: &Vec<u64>) -> (r: bool)
    ensures
        r == all_tags_exist(tags@, list@),
{
    let n = list.len();
    let mut i: usize = 0;
    while i < n
        invariant
            n == list@.len(),
            i <= n,
            forall|k: int| 0 <= k < i ==> has_id(tags@, #[trigger] list@[k]),
        decreases n - i,
    {
        if !tags.contains_id(list[i]) {
            return false;
        }
        i = i + 1;
    }
    true
}

/// Does any item carry the tag?
fn tag_referenced_exec(items: &Table<Item>, id: u64) -> (r: bool)
    ensures
        r == tag_referenced(items@, id),
{
    let n = items.rows.len();
    let mut i: usize = 0;
    while i < n
        invariant
            n == items@.len(),
            i <= n,
            forall|k: int| 0 <= k < i ==> !(#[trigger] items@[k].tags@.contains(id)),
        decreases n - i,
    {
        if vec_contains_u64(&items.rows[i].tags, id) {
            proof {
                assert(tag_referenced(items@, id));
            }
            return true;
        }
        i = i + 1;
    }
    false
}

/// Does any item live in the location?
fn location_referenced_exec(items: &Table<Item>, id: u64) -> (r: bool)
    ensures
        r == location_referenced(items@, id),
{
    let n = items.rows.len();
    let mut i: usize = 0;
    while i < n
        invariant
            n == items@.len(),
            i <= n,
            forall|k: int| 0 <= k < i ==> #[trigger] items@[k].location != id,
        decreases n - i,
    {
        if items.rows[i].location == id {
            proof {
                assert(location_referenced(items@, id));
            }
            return true;
        }
        i = i + 1;
    }
    false
}

/// Does any location belong to the database?
fn database_referenced_exec(locations: &Table<Location>, id: u64) -> (r: bool)
    ensures
        r == database_referenced(locations@, id),
{
    let n = locations.rows.len();
    let mut i: usize = 0;
    while i < n
        invariant
            n == locations@.len(),
            i <= n,
            forall|k: int| 0 <= k < i ==> #[trigger] locations@[k].database != id,
        decreases n - i,
    {
        if locations.rows[i].database == id {
            proof {
                assert(database_referenced(locations@, id));
            }
            return true;
        }
        i = i + 1;
    }
    false
}

} // verus!

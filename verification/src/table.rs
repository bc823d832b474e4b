use vstd::prelude::*;

use crate::errors::ApiError;
use crate::records::{Database, Item, Location, Tag, User};
use crate::rng::random_resource_id;

verus! {

/// How many random ids a create draws before giving up. Collisions in a
/// 16-bit id space are a safety net, not a throughput path, so the bound
/// only turns an astronomically unlikely run of collisions into an
/// `Internal` failure instead of an endless loop.
pub const MAX_ID_DRAWS: u64 = 64;

/// One resource kind: a record with a server-assigned numeric id (0
/// standing for "unassigned") and a name that is unique within the kind.
pub trait Resource: Sized {
    /// The id the record carries; 0 means "not assigned yet".
    spec fn spec_id(&self) -> u64;

    /// The name that must be unique within the record's kind.
    spec fn spec_name(&self) -> Seq<char>;

    /// The same record with its id replaced and all else kept.
    spec fn spec_with_id(&self, id: u64) -> Self;

    /// Assigning an id changes the id and keeps the name.
    proof fn lemma_with_id(&self, id: u64)
        ensures
            self.spec_with_id(id).spec_id() == id,
            self.spec_with_id(id).spec_name() == self.spec_name(),
    ;

    fn id(&self) -> (r: u64)
        ensures
            r == self.spec_id(),
    ;

    fn name(&self) -> (r: &String)
        ensures
            r@ == self.spec_name(),
    ;

    fn with_id(self, id: u64) -> (r: Self)
        ensures
            r == self.spec_with_id(id),
    ;
}

impl Resource for Database {
    open spec fn spec_id(&self) -> u64 {
        self.id
    }

    open spec fn spec_name(&self) -> Seq<char> {
        self.name@
    }

    open spec fn spec_with_id(&self, id: u64) -> Database {
        Database { id, ..*self }
    }

    proof fn lemma_with_id(&self, id: u64) {
    }

    fn id(&self) -> u64 {
        self.id
    }

    fn name(&self) -> &String {
        &self.name
    }

    fn with_id(self, id: u64) -> Database {
        Database { id, ..self }
    }
}

impl Resource for Location {
    open spec fn spec_id(&self) -> u64 {
        self.id
    }

    open spec fn spec_name(&self) -> Seq<char> {
        self.name@
    }

    open spec fn spec_with_id(&self, id: u64) -> Location {
        Location { id, ..*self }
    }

    proof fn lemma_with_id(&self, id: u64) {
    }

    fn id(&self) -> u64 {
        self.id
    }

    fn name(&self) -> &String {
        &self.name
    }

    fn with_id(self, id: u64) -> Location {
        Location { id, ..self }
    }
}

impl Resource for Tag {
    open spec fn spec_id(&self) -> u64 {
        self.id
    }

    open spec fn spec_name(&self) -> Seq<char> {
        self.name@
    }

    open spec fn spec_with_id(&self, id: u64) -> Tag {
        Tag { id, ..*self }
    }

    proof fn lemma_with_id(&self, id: u64) {
    }

    fn id(&self) -> u64 {
        self.id
    }

    fn name(&self) -> &String {
        &self.name
    }

    fn with_id(self, id: u64) -> Tag {
        Tag { id, ..self }
    }
}

impl Resource for Item {
    open spec fn spec_id(&self) -> u64 {
        match self.id {
            Option::Some(n) => n,
            Option::None => 0u64,
        }
    }

    open spec fn spec_name(&self) -> Seq<char> {
        self.name@
    }

    open spec fn spec_with_id(&self, id: u64) -> Item {
        Item { id: Option::Some(id), ..*self }
    }

    proof fn lemma_with_id(&self, id: u64) {
    }

    fn id(&self) -> u64 {
        match self.id {
            Option::Some(n) => n,
            Option::None => 0,
        }
    }

    fn name(&self) -> &String {
        &self.name
    }

    fn with_id(self, id: u64) -> Item {
        Item { id: Option::Some(id), ..self }
    }
}

impl Resource for User {
    open spec fn spec_id(&self) -> u64 {
        self.id
    }

    open spec fn spec_name(&self) -> Seq<char> {
        self.username@
    }

    open spec fn spec_with_id(&self, id: u64) -> User {
        User { id, ..*self }
    }

    proof fn lemma_with_id(&self, id: u64) {
    }

    fn id(&self) -> u64 {
        self.id
    }

    fn name(&self) -> &String {
        &self.username
    }

    fn with_id(self, id: u64) -> User {
        User { id, ..self }
    }
}

/// Some row of `rows` carries the id.
pub open spec fn has_id<T: Resource>(rows: Seq<T>, id: u64) -> bool {
    exists|i: int| 0 <= i < rows.len() && rows[i].spec_id() == id
}

/// Some row of `rows` carries the name.
pub open spec fn has_name<T: Resource>(rows: Seq<T>, name: Seq<char>) -> bool {
    exists|i: int| 0 <= i < rows.len() && rows[i].spec_name() == name
}

/// Some row other than the one with the given id carries the name.
pub open spec fn name_taken_by_other<T: Resource>(rows: Seq<T>, name: Seq<char>, id: u64) -> bool {
    exists|i: int| 0 <= i < rows.len() && rows[i].spec_name() == name && rows[i].spec_id() != id
}

/// The index of the row carrying the id; meaningful under `has_id`.
pub open spec fn index_of<T: Resource>(rows: Seq<T>, id: u64) -> int {
    choose|i: int| 0 <= i < rows.len() && rows[i].spec_id() == id
}

/// The row carrying the id; meaningful under `has_id`.
pub open spec fn get_by_id<T: Resource>(rows: Seq<T>, id: u64) -> T {
    rows[index_of(rows, id)]
}

/// No two rows share an id.
pub open spec fn unique_ids<T: Resource>(rows: Seq<T>) -> bool {
    forall|i: int, j: int|
        0 <= i < j < rows.len() ==> #[trigger] rows[i].spec_id() != #[trigger] rows[j].spec_id()
}

/// No two rows share a name.
pub open spec fn unique_names<T: Resource>(rows: Seq<T>) -> bool {
    forall|i: int, j: int|
        0 <= i < j < rows.len() ==> #[trigger] rows[i].spec_name() != #[trigger] rows[j].spec_name()
}

/// Every stored row carries a real (non-zero) id.
pub open spec fn nonzero_ids<T: Resource>(rows: Seq<T>) -> bool {
    forall|i: int| 0 <= i < rows.len() ==> #[trigger] rows[i].spec_id() != 0
}

/// Well-formedness of one kind's stored rows: ids assigned and unique,
/// names unique.
pub open spec fn rows_wf<T: Resource>(rows: Seq<T>) -> bool {
    unique_ids(rows) && unique_names(rows) && nonzero_ids(rows)
}

/// Under unique ids, the row found at `i` is the row looked up by its id.
pub proof fn lemma_found_index<T: Resource>(rows: Seq<T>, i: int)
    requires
        unique_ids(rows),
        0 <= i < rows.len(),
    ensures
        has_id(rows, rows[i].spec_id()),
        index_of(rows, rows[i].spec_id()) == i,
        get_by_id(rows, rows[i].spec_id()) == rows[i],
{
    let id = rows[i].spec_id();
    assert(has_id(rows, id));
    let j = index_of(rows, id);
    assert(0 <= j < rows.len() && rows[j].spec_id() == id);
    if i < j {
        assert(rows[i].spec_id() != rows[j].spec_id());
    } else if j < i {
        assert(rows[j].spec_id() != rows[i].spec_id());
    }
}

/// Pushing a row keeps every id that was already present.
pub proof fn lemma_push_preserves_has_id<T: Resource>(rows: Seq<T>, x: T, k: u64)
    requires
        has_id(rows, k),
    ensures
        has_id(rows.push(x), k),
{
    let i = choose|i: int| 0 <= i < rows.len() && rows[i].spec_id() == k;
    assert(rows.push(x)[i].spec_id() == k);
}

/// Pushing a row whose id and name are both fresh keeps the rows
/// well-formed.
pub proof fn lemma_push_fresh_wf<T: Resource>(rows: Seq<T>, row: T)
    requires
        rows_wf(rows),
        row.spec_id() != 0,
        !has_id(rows, row.spec_id()),
        !has_name(rows, row.spec_name()),
    ensures
        rows_wf(rows.push(row)),
{
    let s1 = rows.push(row);
    assert forall|i: int, j: int| 0 <= i < j < s1.len() implies #[trigger] s1[i].spec_id()
        != #[trigger] s1[j].spec_id() by {
        if j < rows.len() {
            assert(s1[i] == rows[i] && s1[j] == rows[j]);
        } else {
            assert(s1[j] == row && s1[i] == rows[i]);
            if rows[i].spec_id() == row.spec_id() {
                assert(has_id(rows, row.spec_id()));
            }
        }
    }
    assert forall|i: int, j: int| 0 <= i < j < s1.len() implies #[trigger] s1[i].spec_name()
        != #[trigger] s1[j].spec_name() by {
        if j < rows.len() {
            assert(s1[i] == rows[i] && s1[j] == rows[j]);
        } else {
            assert(s1[j] == row && s1[i] == rows[i]);
            if rows[i].spec_name() == row.spec_name() {
                assert(has_name(rows, row.spec_name()));
            }
        }
    }
    assert forall|i: int| 0 <= i < s1.len() implies #[trigger] s1[i].spec_id() != 0 by {
        if i < rows.len() {
            assert(s1[i] == rows[i]);
        } else {
            assert(s1[i] == row);
        }
    }
}

/// The rows of one resource kind, with ids assigned and unique and
/// names unique. The in-memory registry behind each kind's operations.
pub struct Table<T> {
    pub rows: Vec<T>,
}

impl<T: Resource> View for Table<T> {
    type V = Seq<T>;

    open spec fn view(&self) -> Seq<T> {
        self.rows@
    }
}

impl<T: Resource> Table<T> {
    pub open spec fn wf(self) -> bool {
        rows_wf(self@)
    }

    pub fn new() -> (r: Table<T>)
        ensures
            r@ =~= Seq::<T>::empty(),
            r.wf(),
    {
        Table { rows: Vec::new() }
    }

    fn find_index(&self, id: u64) -> (r: Option<usize>)
        ensures
            match r {
                Option::Some(i) => i < self@.len() && self@[i as int].spec_id() == id,
                Option::None => !has_id(self@, id),
            },
    {
        let n = self.rows.len();
        let mut i: usize = 0;
        while i < n
            invariant
                n == self@.len(),
                i <= n,
                forall|k: int| 0 <= k < i ==> #[trigger] self@[k].spec_id() != id,
            decreases n - i,
        {
            if self.rows[i].id() == id {
                return Option::Some(i);
            }
            i = i + 1;
        }
        Option::None
    }

    pub fn contains_id(&self, id: u64) -> (r: bool)
        ensures
            r == has_id(self@, id),
    {
        match self.find_index(id) {
            Option::Some(i) => {
                proof {
                    assert(has_id(self@, id));
                }
                true
            },
            Option::None => false,
        }
    }

    pub fn contains_name(&self, name: &String) -> (r: bool)
        ensures
            r == has_name(self@, name@),
    {
        let n = self.rows.len();
        let mut i: usize = 0;
        while i < n
            invariant
                n == self@.len(),
                i <= n,
                forall|k: int| 0 <= k < i ==> #[trigger] self@[k].spec_name() != name@,
            decreases n - i,
        {
            if *self.rows[i].name() == *name {
                proof {
                    assert(has_name(self@, name@));
                }
                return true;
            }
            i = i + 1;
        }
        false
    }

    /// Is the name carried by a row other than the one with the id?
    pub fn name_collides(&self, name: &String, id: u64) -> (r: bool)
        ensures
            r == name_taken_by_other(self@, name@, id),
    {
        let n = self.rows.len();
        let mut i: usize = 0;
        while i < n
            invariant
                n == self@.len(),
                i <= n,
                forall|k: int|
                    0 <= k < i ==> !(#[trigger] self@[k].spec_name() == name@
                        && self@[k].spec_id() != id),
            decreases n - i,
        {
            if *self.rows[i].name() == *name && self.rows[i].id() != id {
                proof {
                    assert(name_taken_by_other(self@, name@, id));
                }
                return true;
            }
            i = i + 1;
        }
        false
    }

    /// All rows of the kind, in storage order.
    pub fn list(&self) -> (r: &Vec<T>)
        ensures
            r@ == self@,
    {
        &self.rows
    }

    /// A single row read by id; `NotFound` when no row carries the id.
    pub fn get(&self, id: u64) -> (r: Result<&T, ApiError>)
        requires
            self.wf(),
        ensures
            match r {
                Result::Ok(row) => has_id(self@, id) && *row == get_by_id(self@, id),
                Result::Err(e) => e == ApiError::NotFound && !has_id(self@, id),
            },
    {
        match self.find_index(id) {
            Option::Some(i) => {
                proof {
                    lemma_found_index(self@, i as int);
                }
                Result::Ok(&self.rows[i])
            },
            Option::None => Result::Err(ApiError::NotFound),
        }
    }

    /// Appends a row whose id and name are both still free.
    fn insert_fresh(&mut self, row: T)
        requires
            old(self).wf(),
            row.spec_id() != 0,
            !has_id(old(self)@, row.spec_id()),
            !has_name(old(self)@, row.spec_name()),
        ensures
            final(self)@ == old(self)@.push(row),
            final(self).wf(),
    {
        proof {
            lemma_push_fresh_wf(self@, row);
        }
        self.rows.push(row);
    }

    /// The shared creation protocol: ids are server-assigned only, the
    /// name must be free, and the id is drawn at random and re-drawn on
    /// collision, bounded by entropy.
    pub fn create(&mut self, row: T) -> (r: Result<u64, ApiError>)
        requires
            old(self).wf(),
        ensures
            final(self).wf(),
            match r {
                Result::Ok(id) => row.spec_id() == 0 && !has_name(old(self)@, row.spec_name()) && id
                    != 0 && id < 65536 && !has_id(old(self)@, id) && final(self)@ == old(
                    self,
                )@.push(row.spec_with_id(id)),
                Result::Err(e) => final(self)@ == old(self)@ && match e {
                    ApiError::BadRequest => row.spec_id() != 0,
                    ApiError::Conflict => row.spec_id() == 0 && has_name(
                        old(self)@,
                        row.spec_name(),
                    ),
                    ApiError::Internal => row.spec_id() == 0 && !has_name(
                        old(self)@,
                        row.spec_name(),
                    ),
                    _ => false,
                },
            },
    {
        if row.id() != 0 {
            return Result::Err(ApiError::BadRequest);
        }
        if self.contains_name(row.name()) {
            return Result::Err(ApiError::Conflict);
        }
        let mut draws: u64 = 0;
        while draws < MAX_ID_DRAWS
            invariant
                *self == *old(self),
                self.wf(),
                row.spec_id() == 0,
                !has_name(self@, row.spec_name()),
            decreases MAX_ID_DRAWS - draws,
        {
            let id = random_resource_id();
            if id != 0 && !self.contains_id(id) {
                proof {
                    row.lemma_with_id(id);
                }
                let fresh = row.with_id(id);
                self.insert_fresh(fresh);
                return Result::Ok(id);
            }
            draws = draws + 1;
        }
        Result::Err(ApiError::Internal)
    }

    /// Removes the row that carries the id.
    pub fn remove(&mut self, id: u64)
        requires
            old(self).wf(),
            has_id(old(self)@, id),
        ensures
            final(self).wf(),
            final(self)@ == old(self)@.remove(index_of(old(self)@, id)),
            final(self)@.len() == old(self)@.len() - 1,
            !has_id(final(self)@, id),
            forall|k: u64| k != id ==> (has_id(final(self)@, k) <==> has_id(old(self)@, k)),
            forall|k: u64|
                k != id && has_id(old(self)@, k) ==> get_by_id(final(self)@, k) == get_by_id(
                    old(self)@,
                    k,
                ),
            forall|n: Seq<char>| has_name(final(self)@, n) ==> has_name(old(self)@, n),
            !has_name(final(self)@, get_by_id(old(self)@, id).spec_name()),
            forall|n: Seq<char>|
                n != get_by_id(old(self)@, id).spec_name() && has_name(old(self)@, n) ==> has_name(
                    final(self)@,
                    n,
                ),
    {
        let i = match self.find_index(id) {
            Option::Some(i) => i,
            Option::None => {
                proof {
                    assert(false);
                }
                0
            },
        };
        proof {
            lemma_found_index(self@, i as int);
            lemma_remove_effects(self@, i as int);
        }
        self.rows.remove(i);
    }

    /// Replaces the stored row that carries the same id.
    pub fn replace(&mut self, row: T)
        requires
            old(self).wf(),
            row.spec_id() != 0,
            has_id(old(self)@, row.spec_id()),
            !name_taken_by_other(old(self)@, row.spec_name(), row.spec_id()),
        ensures
            final(self).wf(),
            final(self)@ == old(self)@.update(index_of(old(self)@, row.spec_id()), row),
            final(self)@.len() == old(self)@.len(),
            forall|j: int|
                0 <= j < old(self)@.len() ==> final(self)@[j] == (if old(self)@[j].spec_id()
                    == row.spec_id() {
                    row
                } else {
                    old(self)@[j]
                }),
            forall|k: u64| has_id(final(self)@, k) <==> has_id(old(self)@, k),
            get_by_id(final(self)@, row.spec_id()) == row,
            forall|k: u64|
                k != row.spec_id() && has_id(old(self)@, k) ==> get_by_id(final(self)@, k)
                    == get_by_id(old(self)@, k),
    {
        let i = match self.find_index(row.id()) {
            Option::Some(i) => i,
            Option::None => {
                proof {
                    assert(false);
                }
                0
            },
        };
        proof {
            lemma_found_index(self@, i as int);
            lemma_replace_effects(self@, i as int, row);
        }
        self.rows.remove(i);
        self.rows.insert(i, row);
        proof {
            assert(final(self)@ =~= old(self)@.update(i as int, row));
        }
    }
}

/// What removing row `i` does to lookups by id and by name.
pub proof fn lemma_remove_effects<T: Resource>(s0: Seq<T>, i: int)
    requires
        rows_wf(s0),
        0 <= i < s0.len(),
    ensures
        rows_wf(s0.remove(i)),
        !has_id(s0.remove(i), s0[i].spec_id()),
        forall|k: u64|
            k != s0[i].spec_id() ==> (has_id(s0.remove(i), k) <==> has_id(s0, k)),
        forall|k: u64|
            k != s0[i].spec_id() && has_id(s0, k) ==> get_by_id(s0.remove(i), k) == get_by_id(
                s0,
                k,
            ),
        forall|n: Seq<char>| has_name(s0.remove(i), n) ==> has_name(s0, n),
        !has_name(s0.remove(i), s0[i].spec_name()),
        forall|n: Seq<char>|
            n != s0[i].spec_name() && has_name(s0, n) ==> has_name(s0.remove(i), n),
{
    let s1 = s0.remove(i);
    s0.remove_ensures(i);
    assert forall|j: int| 0 <= j < s1.len() implies #[trigger] s1[j] == (if j < i {
        s0[j]
    } else {
        s0[j + 1]
    }) by {}
    assert forall|a: int, b: int| 0 <= a < b < s1.len() implies #[trigger] s1[a].spec_id()
        != #[trigger] s1[b].spec_id() by {
        let a0 = if a < i { a } else { a + 1 };
        let b0 = if b < i { b } else { b + 1 };
        assert(s1[a] == s0[a0] && s1[b] == s0[b0]);
        assert(a0 < b0);
    }
    assert forall|a: int, b: int| 0 <= a < b < s1.len() implies #[trigger] s1[a].spec_name()
        != #[trigger] s1[b].spec_name() by {
        let a0 = if a < i { a } else { a + 1 };
        let b0 = if b < i { b } else { b + 1 };
        assert(s1[a] == s0[a0] && s1[b] == s0[b0]);
        assert(a0 < b0);
    }
    assert forall|j: int| 0 <= j < s1.len() implies #[trigger] s1[j].spec_id() != 0 by {
        let j0 = if j < i { j } else { j + 1 };
        assert(s1[j] == s0[j0]);
    }
    // the removed id is gone: any row of s1 maps to a row of s0 other than i
    assert forall|j: int| 0 <= j < s1.len() implies #[trigger] s1[j].spec_id() != s0[i].spec_id()
        by {
        let j0 = if j < i { j } else { j + 1 };
        assert(s1[j] == s0[j0]);
        if j0 < i {
            assert(s0[j0].spec_id() != s0[i].spec_id());
        } else {
            assert(s0[i].spec_id() != s0[j0].spec_id());
        }
    }
    assert forall|j: int| 0 <= j < s1.len() implies #[trigger] s1[j].spec_name()
        != s0[i].spec_name() by {
        let j0 = if j < i { j } else { j + 1 };
        assert(s1[j] == s0[j0]);
        if j0 < i {
            assert(s0[j0].spec_name() != s0[i].spec_name());
        } else {
            assert(s0[i].spec_name() != s0[j0].spec_name());
        }
    }
    assert forall|k: u64| k != s0[i].spec_id() && has_id(s0, k) implies has_id(s1, k) by {
        let j0 = choose|j: int| 0 <= j < s0.len() && s0[j].spec_id() == k;
        if j0 < i {
            assert(s1[j0] == s0[j0]);
        } else {
            assert(j0 != i);
            assert(s1[j0 - 1] == s0[j0]);
        }
    }
    assert forall|k: u64|
        k != s0[i].spec_id() && has_id(s0, k) implies get_by_id(s1, k) == get_by_id(s0, k) by {
        let j0 = index_of(s0, k);
        assert(0 <= j0 < s0.len() && s0[j0].spec_id() == k);
        let j1 = if j0 < i {
            j0
        } else {
            j0 - 1
        };
        assert(s1[j1] == s0[j0]);
        lemma_found_index(s1, j1);
        lemma_found_index(s0, j0);
    }
    assert forall|n: Seq<char>|
        n != s0[i].spec_name() && has_name(s0, n) implies has_name(s1, n) by {
        let j0 = choose|j: int| 0 <= j < s0.len() && s0[j].spec_name() == n;
        assert(j0 != i);
        if j0 < i {
            assert(s1[j0] == s0[j0]);
        } else {
            assert(s1[j0 - 1] == s0[j0]);
        }
    }
    lemma_found_index(s0, i);
}

/// What replacing row `i` by `row` does to lookups by id and by name.
proof fn lemma_replace_effects<T: Resource>(s0: Seq<T>, i: int, row: T)
    requires
        rows_wf(s0),
        0 <= i < s0.len(),
        s0[i].spec_id() == row.spec_id(),
        row.spec_id() != 0,
        !name_taken_by_other(s0, row.spec_name(), row.spec_id()),
    ensures
        rows_wf(s0.update(i, row)),
        forall|k: u64| has_id(s0.update(i, row), k) <==> has_id(s0, k),
        get_by_id(s0.update(i, row), row.spec_id()) == row,
        forall|k: u64|
            k != row.spec_id() && has_id(s0, k) ==> get_by_id(s0.update(i, row), k) == get_by_id(
                s0,
                k,
            ),
{
    let s1 = s0.update(i, row);
    assert forall|j: int| 0 <= j < s1.len() implies #[trigger] s1[j] == (if j == i {
        row
    } else {
        s0[j]
    }) by {}
    assert forall|a: int, b: int| 0 <= a < b < s1.len() implies #[trigger] s1[a].spec_id()
        != #[trigger] s1[b].spec_id() by {
        if a != i && b != i {
            assert(s1[a] == s0[a] && s1[b] == s0[b]);
        } else if a == i {
            assert(s1[b] == s0[b] && s0[i].spec_id() != s0[b].spec_id());
        } else {
            assert(s1[a] == s0[a] && s0[a].spec_id() != s0[i].spec_id());
        }
    }
    assert forall|a: int, b: int| 0 <= a < b < s1.len() implies #[trigger] s1[a].spec_name()
        != #[trigger] s1[b].spec_name() by {
        if a != i && b != i {
            assert(s1[a] == s0[a] && s1[b] == s0[b]);
        } else if a == i {
            assert(s1[b] == s0[b]);
            if s0[b].spec_name() == row.spec_name() {
                assert(s0[b].spec_id() != s0[i].spec_id());
                assert(name_taken_by_other(s0, row.spec_name(), row.spec_id()));
            }
        } else {
            assert(s1[a] == s0[a]);
            if s0[a].spec_name() == row.spec_name() {
                assert(s0[a].spec_id() != s0[i].spec_id());
                assert(name_taken_by_other(s0, row.spec_name(), row.spec_id()));
            }
        }
    }
    assert forall|j: int| 0 <= j < s1.len() implies #[trigger] s1[j].spec_id() != 0 by {}
    assert forall|k: u64| has_id(s0, k) implies has_id(s1, k) by {
        let j0 = choose|j: int| 0 <= j < s0.len() && s0[j].spec_id() == k;
        assert(s1[j0].spec_id() == k);
    }
    assert forall|k: u64| has_id(s1, k) implies has_id(s0, k) by {
        let j0 = choose|j: int| 0 <= j < s1.len() && s1[j].spec_id() == k;
        assert(s0[j0].spec_id() == k);
    }
    lemma_found_index(s1, i);
    assert forall|k: u64|
        k != row.spec_id() && has_id(s0, k) implies get_by_id(s1, k) == get_by_id(s0, k) by {
        let j0 = index_of(s0, k);
        assert(0 <= j0 < s0.len() && s0[j0].spec_id() == k);
        assert(j0 != i);
        assert(s1[j0] == s0[j0]);
        lemma_found_index(s1, j0);
        lemma_found_index(s0, j0);
    }
}

} // verus!

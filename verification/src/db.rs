use vstd::prelude::*;

use crate::models::{CreateTodoRequest, Todo, UpdateTodoRequest};

verus! {

/// A data-access failure. Every storage operation can surface it; the
/// handler layer flattens it to HTTP 500 without further detail.
#[derive(Debug)]
pub struct DataError;

/// No two rows share an id.
pub open spec fn unique_ids(rows: Seq<Todo>) -> bool {
    forall|i: int, j: int| 0 <= i < j < rows.len() ==> rows[i].id@ != rows[j].id@
}

/// Rows are ordered by `created_at` descending: the listing order.
pub open spec fn sorted_newest_first(rows: Seq<Todo>) -> bool {
    forall|i: int, j: int|
        0 <= i <= j < rows.len() ==> rows[i].created_at >= rows[j].created_at
}

/// No row was updated before it was created.
pub open spec fn times_ok(rows: Seq<Todo>) -> bool {
    forall|i: int| 0 <= i < rows.len() ==> rows[i].created_at <= rows[i].updated_at
}

/// Some row carries the given id.
pub open spec fn contains_id(rows: Seq<Todo>, id: Seq<char>) -> bool {
    exists|i: int| 0 <= i < rows.len() && rows[i].id@ == id
}

/// Where a row created at `now` goes in a listing kept newest first: before
/// every strictly newer row, and before any row of the same age, so that of
/// two rows created in the same instant the later insertion lists first.
pub open spec fn insert_pos(rows: Seq<Todo>, now: i64) -> int
    decreases rows.len(),
{
    if rows.len() == 0 {
        0
    } else if rows[0].created_at <= now {
        0
    } else {
        1 + insert_pos(rows.drop_first(), now)
    }
}

/// The table after a creation: the new row stands at its listing position.
pub open spec fn spec_create(rows: Seq<Todo>, t: Todo) -> Seq<Todo> {
    rows.insert(insert_pos(rows, t.created_at), t)
}

/// A stored row merged with an update request: a present request field
/// overwrites, an absent one keeps the stored value; `updated_at` is
/// refreshed; `id` and `created_at` never change.
pub open spec fn spec_merge(cur: Todo, req: UpdateTodoRequest, now: i64) -> Todo {
    Todo {
        id: cur.id,
        title: match req.title {
            Some(t) => t,
            None => cur.title,
        },
        description: match req.description {
            Some(d) => d,
            None => cur.description,
        },
        completed: match req.completed {
            Some(c) => c,
            None => cur.completed,
        },
        created_at: cur.created_at,
        updated_at: now,
    }
}

/// `insert_pos` lands in the table, every row before it strictly newer,
/// and the row at it (if any) no newer than the inserted one.
proof fn lemma_insert_pos_props(rows: Seq<Todo>, now: i64)
    ensures
        0 <= insert_pos(rows, now) <= rows.len(),
        forall|j: int| 0 <= j < insert_pos(rows, now) ==> rows[j].created_at > now,
        insert_pos(rows, now) < rows.len() ==> rows[insert_pos(rows, now)].created_at <= now,
    decreases rows.len(),
{
    if rows.len() == 0 {
    } else if rows[0].created_at <= now {
    } else {
        lemma_insert_pos_props(rows.drop_first(), now);
        assert forall|j: int| 0 <= j < insert_pos(rows, now) implies rows[j].created_at > now by {
            if j >= 1 {
                assert(rows[j] == rows.drop_first()[j - 1]);
            }
        }
        if insert_pos(rows, now) < rows.len() {
            assert(rows[insert_pos(rows, now)] == rows.drop_first()[insert_pos(rows, now) - 1]);
        }
    }
}

/// The index left of which every row is strictly newer than `now`, and at
/// which no strictly newer row stands, is exactly `insert_pos`.
proof fn lemma_insert_pos_is_first(rows: Seq<Todo>, now: i64, k: int)
    requires
        0 <= k <= rows.len(),
        forall|j: int| 0 <= j < k ==> rows[j].created_at > now,
        k < rows.len() ==> rows[k].created_at <= now,
    ensures
        insert_pos(rows, now) == k,
    decreases rows.len(),
{
    if rows.len() == 0 {
    } else if rows[0].created_at <= now {
        assert(k == 0);
    } else {
        assert(k >= 1);
        assert(forall|j: int|
            1 <= j < rows.len() ==> rows[j] == #[trigger] rows.drop_first()[j - 1]);
        lemma_insert_pos_is_first(rows.drop_first(), now, k - 1);
    }
}

/// How an insertion at `k` maps indices of the old table to the new one.
proof fn lemma_insert_index(rows: Seq<Todo>, t: Todo, k: int, i: int)
    requires
        0 <= k <= rows.len(),
        0 <= i < rows.len() + 1,
    ensures
        i < k ==> rows.insert(k, t)[i] == rows[i],
        i == k ==> rows.insert(k, t)[i] == t,
        i > k ==> rows.insert(k, t)[i] == rows[i - 1],
{
    rows.insert_ensures(k, t);
    if i > k {
        assert(rows.insert(k, t)[(i - 1) + 1] == rows[i - 1]);
    }
}

/// Creating a row with a fresh id keeps the table invariant, grows the
/// table by one, and makes the new id present.
proof fn lemma_create_preserves_wf(rows: Seq<Todo>, t: Todo)
    requires
        unique_ids(rows),
        sorted_newest_first(rows),
        times_ok(rows),
        !contains_id(rows, t.id@),
        t.created_at <= t.updated_at,
    ensures
        unique_ids(spec_create(rows, t)),
        sorted_newest_first(spec_create(rows, t)),
        times_ok(spec_create(rows, t)),
        spec_create(rows, t).len() == rows.len() + 1,
        contains_id(spec_create(rows, t), t.id@),
{
    let k = insert_pos(rows, t.created_at);
    lemma_insert_pos_props(rows, t.created_at);
    let s2 = spec_create(rows, t);
    rows.insert_ensures(k, t);
    assert forall|i: int| 0 <= i < s2.len() implies {
        &&& (i < k ==> s2[i] == rows[i])
        &&& (i == k ==> s2[i] == t)
        &&& (i > k ==> s2[i] == rows[i - 1])
    } by {
        lemma_insert_index(rows, t, k, i);
    }
    assert(s2[k] == t);
    assert forall|i: int, j: int| 0 <= i < j < s2.len() implies s2[i].id@ != s2[j].id@ by {
        lemma_insert_index(rows, t, k, i);
        lemma_insert_index(rows, t, k, j);
    }
    assert forall|i: int, j: int|
        0 <= i <= j < s2.len() implies s2[i].created_at >= s2[j].created_at by {
        lemma_insert_index(rows, t, k, i);
        lemma_insert_index(rows, t, k, j);
    }
}

/// Replacing a row by one with the same id and creation instant, updated
/// no earlier than created, keeps the table invariant.
proof fn lemma_update_preserves_wf(rows: Seq<Todo>, k: int, m: Todo)
    requires
        unique_ids(rows),
        sorted_newest_first(rows),
        times_ok(rows),
        0 <= k < rows.len(),
        m.id@ == rows[k].id@,
        m.created_at == rows[k].created_at,
        m.created_at <= m.updated_at,
    ensures
        unique_ids(rows.update(k, m)),
        sorted_newest_first(rows.update(k, m)),
        times_ok(rows.update(k, m)),
{
}

/// Removing a row keeps the table invariant, and with ids unique nothing
/// left carries the removed row's id: a second delete of it finds nothing.
proof fn lemma_remove_preserves_wf(rows: Seq<Todo>, k: int)
    requires
        unique_ids(rows),
        sorted_newest_first(rows),
        times_ok(rows),
        0 <= k < rows.len(),
    ensures
        unique_ids(rows.remove(k)),
        sorted_newest_first(rows.remove(k)),
        times_ok(rows.remove(k)),
        !contains_id(rows.remove(k), rows[k].id@),
{
    rows.remove_ensures(k);
    let s2 = rows.remove(k);
    assert forall|a: int, b: int| 0 <= a < b < s2.len() implies s2[a].id@ != s2[b].id@ by {
        assert(s2[a] == (if a < k { rows[a] } else { rows[a + 1] }));
        assert(s2[b] == (if b < k { rows[b] } else { rows[b + 1] }));
    }
    assert forall|a: int, b: int|
        0 <= a <= b < s2.len() implies s2[a].created_at >= s2[b].created_at by {
        assert(s2[a] == (if a < k { rows[a] } else { rows[a + 1] }));
        assert(s2[b] == (if b < k { rows[b] } else { rows[b + 1] }));
    }
    assert forall|j: int| 0 <= j < s2.len() implies s2[j].id@ != rows[k].id@ by {
        assert(s2[j] == (if j < k { rows[j] } else { rows[j + 1] }));
    }
    assert forall|j: int| 0 <= j < s2.len() implies s2[j].created_at <= s2[j].updated_at by {
        assert(s2[j] == (if j < k { rows[j] } else { rows[j + 1] }));
    }
}

/// A raw `todos` row as the storage reports it: `description` nullable,
/// `completed` an integer flag.
pub struct TodoRow {
    pub id: String,
    pub title: String,
    pub description: Option<String>,
    pub completed: i64,
    pub created_at: i64,
    pub updated_at: i64,
}

/// The API-visible shape of a raw row: a missing description becomes the
/// empty string, and any nonzero `completed` becomes true.
pub fn row_to_todo(row: TodoRow) -> (t: Todo)
    ensures
        t.id == row.id,
        t.title == row.title,
        (row.description matches Some(d) ==> t.description == d),
        (row.description is None ==> t.description@ == Seq::<char>::empty()),
        t.completed == (row.completed != 0),
        t.created_at == row.created_at,
        t.updated_at == row.updated_at,
{
    let description = match row.description {
        Some(d) => d,
        None => String::new(),
    };
    Todo {
        id: row.id,
        title: row.title,
        description,
        completed: row.completed != 0,
        created_at: row.created_at,
        updated_at: row.updated_at,
    }
}

/// The partial-update merge, as a pure function of the stored row and the
/// request: testable without any storage behind it.
pub fn merge_update(cur: &Todo, req: &UpdateTodoRequest, now: i64) -> (r: Todo)
    ensures
        r == spec_merge(*cur, *req, now),
{
    let title = match &req.title {
        Some(t) => t.clone(),
        None => cur.title.clone(),
    };
    let description = match &req.description {
        Some(d) => d.clone(),
        None => cur.description.clone(),
    };
    let completed = match req.completed {
        Some(c) => c,
        None => cur.completed,
    };
    Todo {
        id: cur.id.clone(),
        title,
        description,
        completed,
        created_at: cur.created_at,
        updated_at: now,
    }
}

/// The data-access layer: the single point of truth for the `todos` table,
/// held as an in-memory image ordered the way listings report it.
pub struct DataBase {
    todos: Vec<Todo>,
}

impl View for DataBase {
    type V = Seq<Todo>;

    closed spec fn view(&self) -> Seq<Todo> {
        self.todos@
    }
}

impl DataBase {
    /// The table invariant: ids unique, rows listed newest first, and no
    /// row updated before it was created.
    pub open spec fn wf(&self) -> bool {
        &&& unique_ids(self@)
        &&& sorted_newest_first(self@)
        &&& times_ok(self@)
    }

    /// An empty table.
    pub fn new() -> (db: DataBase)
        ensures
            db.wf(),
            db@ == Seq::<Todo>::empty(),
    {
        DataBase { todos: Vec::new() }
    }

    /// All rows, newest first.
    pub fn list_todos(&self) -> (r: Vec<Todo>)
        ensures
            r@ == self@,
    {
        let mut out: Vec<Todo> = Vec::new();
        let mut i: usize = 0;
        while i < self.todos.len()
            invariant
                i <= self.todos@.len(),
                out@ == self@.take(i as int),
            decreases self.todos@.len() - i,
        {
            out.push(self.todos[i].clone());
            proof {
                assert(self@.take(i + 1 as int) =~= self@.take(i as int).push(self@[i as int]));
            }
            i += 1;
        }
        proof {
            assert(self@.take(self@.len() as int) =~= self@);
        }
        out
    }

    /// The row with the given id, or nothing when no row matches.
    pub fn get_todo(&self, id: &str) -> (r: Option<Todo>)
        ensures
            r is Some <==> contains_id(self@, id@),
            r matches Some(t) ==> exists|k: int|
                0 <= k < self@.len() && #[trigger] self@[k] == t && t.id@ == id@,
    {
        let id_owned: String = id.to_owned();
        let mut i: usize = 0;
        while i < self.todos.len()
            invariant
                i <= self.todos@.len(),
                id_owned@ == id@,
                forall|j: int| 0 <= j < i ==> self@[j].id@ != id@,
            decreases self.todos@.len() - i,
        {
            if self.todos[i].id == id_owned {
                let t = self.todos[i].clone();
                proof {
                    assert((i as int) < self@.len() && self@[i as int] == t && t.id@ == id@);
                }
                return Some(t);
            }
            i += 1;
        }
        None
    }

    /// Insert the row a create request describes, under a caller-supplied
    /// generated id and creation instant (`created_at` and `updated_at`
    /// both take it). An id already present is rejected; a missing
    /// description is stored, and returned, as the empty string.
    pub fn create_with(&mut self, id: String, now: i64, input: CreateTodoRequest) -> (r:
        Result<Todo, DataError>)
        requires
            old(self).wf(),
        ensures
            final(self).wf(),
            r is Err <==> contains_id(old(self)@, id@),
            r is Err ==> final(self)@ == old(self)@,
            r matches Ok(t) ==> ({
                &&& t.id == id
                &&& t.title == input.title
                &&& (input.description matches Some(d) ==> t.description == d)
                &&& (input.description is None ==> t.description@ == Seq::<char>::empty())
                &&& t.completed == false
                &&& t.created_at == now
                &&& t.updated_at == now
                &&& final(self)@ == spec_create(old(self)@, t)
                &&& contains_id(final(self)@, t.id@)
                &&& forall|i: int|
                    0 <= i < final(self)@.len() && #[trigger] final(self)@[i].id@ == t.id@
                        ==> final(self)@[i] == t
            }),
    {
        if self.get_todo(id.as_str()).is_some() {
            return Err(DataError);
        }
        let description = match input.description {
            Some(d) => d,
            None => String::new(),
        };
        let t = Todo {
            id,
            title: input.title,
            description,
            completed: false,
            created_at: now,
            updated_at: now,
        };
        let out = t.clone();
        let mut k: usize = 0;
        while k < self.todos.len() && self.todos[k].created_at > now
            invariant
                k <= self.todos@.len(),
                self@ == old(self)@,
                forall|j: int| 0 <= j < k ==> self@[j].created_at > now,
            decreases self.todos@.len() - k,
        {
            k += 1;
        }
        proof {
            lemma_insert_pos_is_first(self@, now, k as int);
            lemma_create_preserves_wf(self@, t);
            lemma_create_then_get(self@, t);
        }
        self.todos.insert(k, t);
        Ok(out)
    }

    /// Merge an update request into the row with the given id at the given
    /// instant, or report "not found". The merged row replaces the stored
    /// one in place; `id` and `created_at` survive, `updated_at` becomes
    /// `now`. The instant must not precede the row's creation.
    pub fn update_with(&mut self, id: &str, now: i64, input: UpdateTodoRequest) -> (r: Option<
        Todo>)
        requires
            old(self).wf(),
            forall|i: int|
                0 <= i < old(self)@.len() && old(self)@[i].id@ == id@ ==> old(
                    self,
                )@[i].created_at <= now,
        ensures
            final(self).wf(),
            r is Some <==> contains_id(old(self)@, id@),
            r is None ==> final(self)@ == old(self)@,
            r matches Some(t) ==> exists|k: int|
                #![trigger old(self)@[k]]
                {
                    &&& 0 <= k < old(self)@.len()
                    &&& old(self)@[k].id@ == id@
                    &&& t == spec_merge(old(self)@[k], input, now)
                    &&& final(self)@ == old(self)@.update(k, t)
                },
    {
        let id_owned: String = id.to_owned();
        let mut i: usize = 0;
        while i < self.todos.len()
            invariant
                i <= self.todos@.len(),
                self@ == old(self)@,
                id_owned@ == id@,
                old(self).wf(),
                forall|j: int| 0 <= j < i ==> self@[j].id@ != id@,
                forall|j: int|
                    0 <= j < old(self)@.len() && old(self)@[j].id@ == id@ ==> old(
                        self,
                    )@[j].created_at <= now,
            decreases self.todos@.len() - i,
        {
            if self.todos[i].id == id_owned {
                let cur = self.todos[i].clone();
                let merged = merge_update(&cur, &input, now);
                let out = merged.clone();
                let ghost rows = self@;
                let ghost k = i as int;
                self.todos.remove(i);
                self.todos.insert(i, merged);
                proof {
                    let m = spec_merge(rows[k], input, now);
                    rows.remove_ensures(k);
                    rows.remove(k).insert_ensures(k, m);
                    assert forall|j: int|
                        0 <= j < rows.len() && j != k implies rows.remove(k).insert(k, m)[j]
                        == rows[j] by {
                        if j < k {
                            assert(rows.remove(k).insert(k, m)[j] == rows.remove(k)[j]);
                        } else {
                            assert(rows.remove(k).insert(k, m)[(j - 1) + 1] == rows.remove(k)[j
                                - 1]);
                            assert(rows.remove(k)[j - 1] == rows[(j - 1) + 1]);
                        }
                    }
                    assert(self@ =~= rows.update(k, m));
                    lemma_update_preserves_wf(rows, k, m);
                    assert(k < rows.len() && rows[k].id@ == id@);
                }
                return Some(out);
            }
            i += 1;
        }
        None
    }

    /// Create a row from the request under a freshly generated id and the
    /// current time. Creation can fail only if the generated id collides
    /// with a stored one; in particular it succeeds on an empty table.
    pub fn create_todo(&mut self, input: CreateTodoRequest) -> (r: Result<Todo, DataError>)
        requires
            old(self).wf(),
        ensures
            final(self).wf(),
            r is Err ==> final(self)@ == old(self)@,
            old(self)@.len() == 0 ==> r is Ok,
            r matches Ok(t) ==> ({
                &&& t.id@.len() == 36
                &&& !contains_id(old(self)@, t.id@)
                &&& t.title == input.title
                &&& (input.description matches Some(d) ==> t.description == d)
                &&& (input.description is None ==> t.description@ == Seq::<char>::empty())
                &&& t.completed == false
                &&& t.created_at == t.updated_at
                &&& final(self)@ == spec_create(old(self)@, t)
                &&& contains_id(final(self)@, t.id@)
                &&& forall|i: int|
                    0 <= i < final(self)@.len() && #[trigger] final(self)@[i].id@ == t.id@
                        ==> final(self)@[i] == t
            }),
    {
        let id = crate::gen::new_uuid_string();
        let now = crate::gen::now_micros();
        self.create_with(id, now, input)
    }

    /// Merge an update request into the row with the given id at the
    /// current time, or report "not found". A clock reading that would
    /// precede the row's creation is raised to the creation instant, so
    /// a row is never updated before it was created.
    pub fn update_todo(&mut self, id: &str, input: UpdateTodoRequest) -> (r: Option<Todo>)
        requires
            old(self).wf(),
        ensures
            final(self).wf(),
            r is Some <==> contains_id(old(self)@, id@),
            r is None ==> final(self)@ == old(self)@,
            r matches Some(t) ==> exists|k: int|
                #![trigger old(self)@[k]]
                {
                    &&& 0 <= k < old(self)@.len()
                    &&& old(self)@[k].id@ == id@
                    &&& t.updated_at >= old(self)@[k].created_at
                    &&& t == spec_merge(old(self)@[k], input, t.updated_at)
                    &&& final(self)@ == old(self)@.update(k, t)
                },
    {
        let now = crate::gen::now_micros();
        let cur = match self.get_todo(id) {
            Some(c) => c,
            None => {
                return None;
            },
        };
        let eff = if now >= cur.created_at {
            now
        } else {
            cur.created_at
        };
        proof {
            let rows = self@;
            let k0 = choose|k: int|
                0 <= k < rows.len() && #[trigger] rows[k] == cur && cur.id@ == id@;
            assert forall|i: int|
                0 <= i < rows.len() && rows[i].id@ == id@ implies rows[i].created_at <= eff by {
                if i != k0 {
                    assert(rows[i].id@ != rows[k0].id@);
                }
            }
        }
        self.update_with(id, eff, input)
    }

    /// Remove the row with the given id; report whether one was removed.
    /// After a removal the id is gone: deleting it again finds nothing.
    pub fn delete_todo(&mut self, id: &str) -> (r: bool)
        requires
            old(self).wf(),
        ensures
            final(self).wf(),
            r == contains_id(old(self)@, id@),
            !r ==> final(self)@ == old(self)@,
            r ==> exists|k: int|
                #![trigger old(self)@[k]]
                {
                    &&& 0 <= k < old(self)@.len()
                    &&& old(self)@[k].id@ == id@
                    &&& final(self)@ == old(self)@.remove(k)
                },
            !contains_id(final(self)@, id@),
    {
        let id_owned: String = id.to_owned();
        let mut i: usize = 0;
        while i < self.todos.len()
            invariant
                i <= self.todos@.len(),
                self@ == old(self)@,
                id_owned@ == id@,
                old(self).wf(),
                forall|j: int| 0 <= j < i ==> self@[j].id@ != id@,
            decreases self.todos@.len() - i,
        {
            if self.todos[i].id == id_owned {
                let ghost rows = self@;
                let ghost k = i as int;
                self.todos.remove(i);
                proof {
                    lemma_remove_preserves_wf(rows, k);
                    assert(k < rows.len() && rows[k].id@ == id@);
                }
                return true;
            }
            i += 1;
        }
        false
    }
}

/// Round trip: after a creation under a fresh id, exactly the new row
/// carries that id, so a fetch by it yields the row the creation returned
/// — `completed` false, `created_at == updated_at`, the description as
/// given — as `create_with` and `get_todo` state them.
pub proof fn lemma_create_then_get(rows: Seq<Todo>, t: Todo)
    requires
        unique_ids(rows),
        !contains_id(rows, t.id@),
    ensures
        contains_id(spec_create(rows, t), t.id@),
        forall|i: int|
            0 <= i < spec_create(rows, t).len() && #[trigger] spec_create(rows, t)[i].id@
                == t.id@ ==> spec_create(rows, t)[i] == t,
{
    let k = insert_pos(rows, t.created_at);
    lemma_insert_pos_props(rows, t.created_at);
    rows.insert_ensures(k, t);
    let s2 = spec_create(rows, t);
    assert(s2[k] == t && s2[k].id@ == t.id@);
    assert forall|i: int| 0 <= i < s2.len() && #[trigger] s2[i].id@ == t.id@ implies s2[i]
        == t by {
        lemma_insert_index(rows, t, k, i);
    }
}

/// Partial update: a request that carries neither a title nor a
/// description keeps both stored values; a present `completed` lands;
/// `created_at` is untouched; and `updated_at` moves strictly forward
/// whenever the instant lies past the stored one.
pub proof fn lemma_partial_update_preserves_fields(cur: Todo, req: UpdateTodoRequest, now: i64)
    requires
        req.title is None,
        req.description is None,
        cur.updated_at < now,
    ensures
        spec_merge(cur, req, now).title == cur.title,
        spec_merge(cur, req, now).description == cur.description,
        req.completed matches Some(c) ==> spec_merge(cur, req, now).completed == c,
        req.completed is None ==> spec_merge(cur, req, now).completed == cur.completed,
        spec_merge(cur, req, now).created_at == cur.created_at,
        spec_merge(cur, req, now).updated_at > cur.updated_at,
{
}

/// Listing order: three rows created in sequence, each at an instant no
/// earlier than the one before and no earlier than anything stored, land
/// at the head in turn — after creating A, then B, then C, the listing
/// starts C, B, A.
pub proof fn lemma_list_newest_first(rows: Seq<Todo>, a: Todo, b: Todo, c: Todo)
    requires
        forall|i: int| 0 <= i < rows.len() ==> rows[i].created_at <= a.created_at,
        a.created_at <= b.created_at,
        b.created_at <= c.created_at,
    ensures
        ({
            let r3 = spec_create(spec_create(spec_create(rows, a), b), c);
            &&& r3.len() == rows.len() + 3
            &&& r3[0] == c
            &&& r3[1] == b
            &&& r3[2] == a
        }),
{
    let r1 = spec_create(rows, a);
    lemma_insert_pos_is_first(rows, a.created_at, 0);
    rows.insert_ensures(0, a);
    assert forall|i: int| 0 <= i < r1.len() implies r1[i].created_at <= b.created_at by {
        lemma_insert_index(rows, a, 0, i);
    }
    let r2 = spec_create(r1, b);
    lemma_insert_pos_is_first(r1, b.created_at, 0);
    r1.insert_ensures(0, b);
    assert forall|i: int| 0 <= i < r2.len() implies r2[i].created_at <= c.created_at by {
        lemma_insert_index(r1, b, 0, i);
    }
    let r3 = spec_create(r2, c);
    lemma_insert_pos_is_first(r2, c.created_at, 0);
    r2.insert_ensures(0, c);
    assert(r1[0] == a && r2[0] == b && r3[0] == c);
    lemma_insert_index(r2, c, 0, 1);
    lemma_insert_index(r2, c, 0, 2);
    lemma_insert_index(r1, b, 0, 1);
}

} // verus!

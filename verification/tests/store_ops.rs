use todo_service::db::{merge_update, row_to_todo, DataBase, TodoRow};
use todo_service::models::{CreateTodoRequest, UpdateTodoRequest};

fn create_req(title: &str, description: Option<&str>) -> CreateTodoRequest {
    CreateTodoRequest { title: title.to_string(), description: description.map(|d| d.to_string()) }
}

fn update_req(
    title: Option<&str>,
    description: Option<&str>,
    completed: Option<bool>,
) -> UpdateTodoRequest {
    UpdateTodoRequest {
        title: title.map(|t| t.to_string()),
        description: description.map(|d| d.to_string()),
        completed,
    }
}

#[test]
fn round_trip_create_then_get() {
    let mut db = DataBase::new();
    let created = db.create_todo(create_req("A", Some("B"))).expect("creation on empty store");
    assert_eq!(created.title, "A");
    assert_eq!(created.description, "B");
    assert!(!created.completed);
    assert_eq!(created.created_at, created.updated_at);
    let fetched = db.get_todo(&created.id).expect("created row must be found");
    assert_eq!(fetched.id, created.id);
    assert_eq!(fetched.title, "A");
    assert_eq!(fetched.description, "B");
    assert!(!fetched.completed);
    assert_eq!(fetched.created_at, created.created_at);
    assert_eq!(fetched.updated_at, created.updated_at);
}

#[test]
fn generated_id_is_uuid_shaped() {
    let mut db = DataBase::new();
    let created = db.create_todo(create_req("A", None)).expect("creation on empty store");
    assert_eq!(created.id.chars().count(), 36);
}

#[test]
fn delete_is_not_idempotent() {
    let mut db = DataBase::new();
    let created = db.create_todo(create_req("A", None)).expect("creation on empty store");
    assert!(db.delete_todo(&created.id));
    assert!(!db.delete_todo(&created.id));
    assert!(db.get_todo(&created.id).is_none());
}

#[test]
fn partial_update_preserves_untouched_fields() {
    let mut db = DataBase::new();
    let created = db
        .create_with("id-1".to_string(), 1_000, create_req("A", Some("B")))
        .expect("fresh id");
    let updated = db
        .update_with("id-1", 2_000, update_req(None, None, Some(true)))
        .expect("row exists");
    assert_eq!(updated.title, "A");
    assert_eq!(updated.description, "B");
    assert!(updated.completed);
    assert_eq!(updated.created_at, created.created_at);
    assert!(updated.updated_at > created.updated_at);
    assert_eq!(updated.updated_at, 2_000);
    let fetched = db.get_todo("id-1").expect("row exists");
    assert_eq!(fetched.title, "A");
    assert_eq!(fetched.description, "B");
    assert!(fetched.completed);
}

#[test]
fn update_refreshes_updated_at_without_visible_change() {
    let mut db = DataBase::new();
    db.create_with("id-1".to_string(), 1_000, create_req("A", Some("B"))).expect("fresh id");
    let updated = db.update_with("id-1", 5_000, update_req(None, None, None)).expect("row exists");
    assert_eq!(updated.title, "A");
    assert_eq!(updated.description, "B");
    assert!(!updated.completed);
    assert_eq!(updated.created_at, 1_000);
    assert_eq!(updated.updated_at, 5_000);
}

#[test]
fn list_returns_newest_first() {
    let mut db = DataBase::new();
    db.create_with("id-a".to_string(), 1_000, create_req("A", None)).expect("fresh id");
    db.create_with("id-b".to_string(), 2_000, create_req("B", None)).expect("fresh id");
    db.create_with("id-c".to_string(), 3_000, create_req("C", None)).expect("fresh id");
    let listed = db.list_todos();
    let titles: Vec<&str> = listed.iter().map(|t| t.title.as_str()).collect();
    assert_eq!(titles, vec!["C", "B", "A"]);
}

#[test]
fn list_with_generated_ids_is_newest_first() {
    let mut db = DataBase::new();
    let a = db.create_todo(create_req("A", None)).expect("fresh id");
    let b = db.create_todo(create_req("B", None)).expect("fresh id");
    let c = db.create_todo(create_req("C", None)).expect("fresh id");
    let listed = db.list_todos();
    assert_eq!(listed.len(), 3);
    assert_eq!(listed[0].id, c.id);
    assert_eq!(listed[1].id, b.id);
    assert_eq!(listed[2].id, a.id);
}

#[test]
fn absent_id_is_not_found_everywhere() {
    let mut db = DataBase::new();
    db.create_with("id-1".to_string(), 1_000, create_req("A", None)).expect("fresh id");
    assert!(db.get_todo("missing").is_none());
    assert!(db.update_with("missing", 2_000, update_req(Some("X"), None, None)).is_none());
    assert!(!db.delete_todo("missing"));
    let listed = db.list_todos();
    assert_eq!(listed.len(), 1);
}

#[test]
fn missing_description_becomes_empty_string() {
    let mut db = DataBase::new();
    let created = db.create_todo(create_req("A", None)).expect("creation on empty store");
    assert_eq!(created.description, "");
    let fetched = db.get_todo(&created.id).expect("created row must be found");
    assert_eq!(fetched.description, "");
}

#[test]
fn duplicate_id_is_rejected() {
    let mut db = DataBase::new();
    db.create_with("id-1".to_string(), 1_000, create_req("A", None)).expect("fresh id");
    let second = db.create_with("id-1".to_string(), 2_000, create_req("B", None));
    assert!(second.is_err());
    let listed = db.list_todos();
    assert_eq!(listed.len(), 1);
    assert_eq!(listed[0].title, "A");
}

#[test]
fn two_updates_last_write_wins() {
    let mut db = DataBase::new();
    db.create_with("id-1".to_string(), 1_000, create_req("A", Some("B"))).expect("fresh id");
    db.update_with("id-1", 2_000, update_req(Some("first"), None, Some(true))).expect("row exists");
    db.update_with("id-1", 3_000, update_req(Some("second"), None, None)).expect("row exists");
    let fetched = db.get_todo("id-1").expect("row exists");
    assert_eq!(fetched.title, "second");
    assert_eq!(fetched.description, "B");
    assert!(fetched.completed);
    assert_eq!(fetched.updated_at, 3_000);
}

#[test]
fn update_overwrites_every_present_field() {
    let mut db = DataBase::new();
    db.create_with("id-1".to_string(), 1_000, create_req("A", Some("B"))).expect("fresh id");
    let updated = db
        .update_with("id-1", 2_000, update_req(Some("T"), Some("D"), Some(true)))
        .expect("row exists");
    assert_eq!(updated.title, "T");
    assert_eq!(updated.description, "D");
    assert!(updated.completed);
    assert_eq!(updated.created_at, 1_000);
    assert_eq!(updated.updated_at, 2_000);
}

#[test]
fn merge_is_pure_and_exact() {
    let cur = {
        let mut db = DataBase::new();
        db.create_with("id-1".to_string(), 1_000, create_req("A", Some("B"))).expect("fresh id")
    };
    let merged = merge_update(&cur, &update_req(None, Some("D"), None), 9_000);
    assert_eq!(merged.id, cur.id);
    assert_eq!(merged.title, "A");
    assert_eq!(merged.description, "D");
    assert!(!merged.completed);
    assert_eq!(merged.created_at, 1_000);
    assert_eq!(merged.updated_at, 9_000);
}

#[test]
fn raw_row_coercions() {
    let row = TodoRow {
        id: "id-1".to_string(),
        title: "A".to_string(),
        description: None,
        completed: 2,
        created_at: 10,
        updated_at: 20,
    };
    let t = row_to_todo(row);
    assert_eq!(t.description, "");
    assert!(t.completed);
    let row0 = TodoRow {
        id: "id-2".to_string(),
        title: "B".to_string(),
        description: Some("D".to_string()),
        completed: 0,
        created_at: 10,
        updated_at: 20,
    };
    let t0 = row_to_todo(row0);
    assert_eq!(t0.description, "D");
    assert!(!t0.completed);
}

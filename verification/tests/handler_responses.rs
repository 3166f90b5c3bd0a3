use todo_service::db::{DataBase, DataError};
use todo_service::handlers;
use todo_service::models::{CreateTodoRequest, Todo, UpdateTodoRequest};

fn sample_todo() -> Todo {
    let mut db = DataBase::new();
    db.create_with(
        "id-1".to_string(),
        1_000,
        CreateTodoRequest { title: "A".to_string(), description: None },
    )
    .expect("fresh id")
}

#[test]
fn list_maps_to_200_or_500() {
    let (status, body) = handlers::list_todos(Ok(vec![sample_todo()]));
    assert_eq!(status, 200);
    assert_eq!(body.expect("list body").len(), 1);
    let (status, body) = handlers::list_todos(Err(DataError));
    assert_eq!(status, 500);
    assert!(body.is_none());
}

#[test]
fn get_maps_to_200_404_or_500() {
    let (status, body) = handlers::get_todo(Ok(Some(sample_todo())));
    assert_eq!(status, 200);
    assert_eq!(body.expect("get body").id, "id-1");
    let (status, body) = handlers::get_todo(Ok(None));
    assert_eq!(status, 404);
    assert!(body.is_none());
    let (status, body) = handlers::get_todo(Err(DataError));
    assert_eq!(status, 500);
    assert!(body.is_none());
}

#[test]
fn create_maps_to_201_or_500() {
    let (status, body) = handlers::create_todo(Ok(sample_todo()));
    assert_eq!(status, 201);
    assert_eq!(body.expect("create body").title, "A");
    let (status, body) = handlers::create_todo(Err(DataError));
    assert_eq!(status, 500);
    assert!(body.is_none());
}

#[test]
fn update_maps_to_200_404_or_500() {
    let (status, _) = handlers::update_todo(Ok(Some(sample_todo())));
    assert_eq!(status, 200);
    let (status, _) = handlers::update_todo(Ok(None));
    assert_eq!(status, 404);
    let (status, _) = handlers::update_todo(Err(DataError));
    assert_eq!(status, 500);
}

#[test]
fn delete_maps_to_204_404_or_500() {
    assert_eq!(handlers::delete_todo(Ok(true)), 204);
    assert_eq!(handlers::delete_todo(Ok(false)), 404);
    assert_eq!(handlers::delete_todo(Err(DataError)), 500);
}

#[test]
fn end_to_end_status_codes() {
    let mut db = DataBase::new();
    let created = db.create_todo(CreateTodoRequest {
        title: "A".to_string(),
        description: Some("B".to_string()),
    });
    let (status, body) = handlers::create_todo(created);
    assert_eq!(status, 201);
    let id = body.expect("created").id;
    let (status, _) = handlers::get_todo(Ok(db.get_todo(&id)));
    assert_eq!(status, 200);
    let req = UpdateTodoRequest { title: None, description: None, completed: Some(true) };
    let (status, _) = handlers::update_todo(Ok(db.update_todo(&id, req)));
    assert_eq!(status, 200);
    assert_eq!(handlers::delete_todo(Ok(db.delete_todo(&id))), 204);
    assert_eq!(handlers::delete_todo(Ok(db.delete_todo(&id))), 404);
    let (status, _) = handlers::get_todo(Ok(db.get_todo(&id)));
    assert_eq!(status, 404);
}

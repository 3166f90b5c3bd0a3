use vstd::prelude::*;

verus! {

/// A todo record in its API-visible shape: `description` is always present
/// (a missing stored value is exposed as the empty string) and `completed`
/// is a boolean. Timestamps are UTC instants in microseconds since the Unix
/// epoch; the process edge renders them as ISO-8601 strings.
pub struct Todo {
    pub id: String,
    pub title: String,
    pub description: String,
    pub completed: bool,
    pub created_at: i64,
    pub updated_at: i64,
}

impl Clone for Todo {
    fn clone(&self) -> (r: Self)
        ensures
            r == *self,
    {
        Todo {
            id: self.id.clone(),
            title: self.title.clone(),
            description: self.description.clone(),
            completed: self.completed,
            created_at: self.created_at,
            updated_at: self.updated_at,
        }
    }
}

/// Body of `POST /todos`: a title, and optionally a description.
pub struct CreateTodoRequest {
    pub title: String,
    pub description: Option<String>,
}

/// Body of `PUT /todos/{id}`: each field optional; a present value
/// overwrites the stored one, an absent value keeps it.
pub struct UpdateTodoRequest {
    pub title: Option<String>,
    pub description: Option<String>,
    pub completed: Option<bool>,
}

} // verus!

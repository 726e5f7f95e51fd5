//! To-do items.

use vstd::prelude::*;

verus! {

/// Something to do once, and whether it has been done.
pub struct Todo {
    pub description: String,
    pub completed: bool,
}

/// What a to-do item is, as plain mathematical values.
#[verifier::ext_equal]
pub struct TodoView {
    pub description: Seq<char>,
    pub completed: bool,
}

impl View for Todo {
    type V = TodoView;

    open spec fn view(&self) -> TodoView {
        TodoView { description: self.description@, completed: self.completed }
    }
}

impl Clone for Todo {
    fn clone(&self) -> (r: Todo)
        ensures
            r@ == self@,
    {
        Todo { description: self.description.clone(), completed: self.completed }
    }
}

impl Todo {
    /// A to-do item that has not been done yet.
    pub fn new(description: String) -> (r: Todo)
        ensures
            r@ == (TodoView { description: description@, completed: false }),
    {
        Todo { description, completed: false }
    }

    /// Turns a done item into one not done, and the other way round.
    pub fn toggle_completion(&mut self)
        ensures
            final(self)@ == (TodoView {
                description: old(self)@.description,
                completed: !old(self)@.completed,
            }),
    {
        self.completed = !self.completed;
    }
}

/// The to-do items of a sequence, each as plain values.
pub open spec fn todo_views(s: Seq<Todo>) -> Seq<TodoView> {
    s.map_values(|t: Todo| t@)
}

} // verus!

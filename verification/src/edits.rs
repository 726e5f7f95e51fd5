//! Changes to the habits and the to-do items: toggling and removing the ones
//! that a row of the list stands for.

use crate::date::Date;
use crate::habit::{habit_views, Habit, HabitView};
use crate::todo::{todo_views, Todo, TodoView};
use vstd::prelude::*;

verus! {

/// Whether the habit has the given name and category.
pub open spec fn same_habit(habit: HabitView, name: Seq<char>, category: Seq<char>) -> bool {
    habit.name == name && habit.category == category
}

/// Whether `i` is the place of the first habit with the given name and category.
pub open spec fn is_first_habit(
    habits: Seq<HabitView>,
    name: Seq<char>,
    category: Seq<char>,
    i: int,
) -> bool {
    &&& 0 <= i < habits.len()
    &&& same_habit(habits[i], name, category)
    &&& forall|k: int| 0 <= k < i ==> !same_habit(#[trigger] habits[k], name, category)
}

/// The habits with the first one of the given name and category toggled on
/// the day numbered `day`; unchanged where there is none.
pub open spec fn toggle_first_habit(
    habits: Seq<HabitView>,
    name: Seq<char>,
    category: Seq<char>,
    day: int,
) -> Seq<HabitView> {
    if exists|i: int| is_first_habit(habits, name, category, i) {
        let i = choose|i: int| is_first_habit(habits, name, category, i);
        habits.update(i, habits[i].toggled(day))
    } else {
        habits
    }
}

/// Whether every habit of the category was done on the day numbered `day`.
pub open spec fn all_completed(habits: Seq<HabitView>, category: Seq<char>, day: int) -> bool {
    forall|i: int|
        0 <= i < habits.len() && (#[trigger] habits[i]).category == category
            ==> habits[i].is_completed(day)
}

/// The habits with those of the category toggled together on the day
/// numbered `day`: all unmarked where all were done, else all marked.
pub open spec fn toggle_category(habits: Seq<HabitView>, category: Seq<char>, day: int) -> Seq<
    HabitView,
> {
    Seq::new(
        habits.len(),
        |i: int|
            if habits[i].category != category {
                habits[i]
            } else if all_completed(habits, category, day) {
                habits[i].unmarked(day)
            } else {
                habits[i].marked(day)
            },
    )
}

/// Whether `i` is the place of the first to-do item with the given description.
pub open spec fn is_first_todo(todos: Seq<TodoView>, description: Seq<char>, i: int) -> bool {
    &&& 0 <= i < todos.len()
    &&& todos[i].description == description
    &&& forall|k: int| 0 <= k < i ==> (#[trigger] todos[k]).description != description
}

/// The to-do items with the first one of the given description toggled;
/// unchanged where there is none.
pub open spec fn toggle_first_todo(todos: Seq<TodoView>, description: Seq<char>) -> Seq<TodoView> {
    if exists|i: int| is_first_todo(todos, description, i) {
        let i = choose|i: int| is_first_todo(todos, description, i);
        todos.update(i, TodoView { completed: !todos[i].completed, ..todos[i] })
    } else {
        todos
    }
}

/// The habits without those of the category, the others in their order.
pub open spec fn without_category(habits: Seq<HabitView>, category: Seq<char>) -> Seq<HabitView> {
    habits.filter(|h: HabitView| h.category != category)
}

/// The habits without those of the given name and category, the others in their order.
pub open spec fn without_habit(habits: Seq<HabitView>, name: Seq<char>, category: Seq<char>) -> Seq<
    HabitView,
> {
    habits.filter(|h: HabitView| !same_habit(h, name, category))
}

/// The to-do items without those of the given description, the others in their order.
pub open spec fn without_todo(todos: Seq<TodoView>, description: Seq<char>) -> Seq<TodoView> {
    todos.filter(|t: TodoView| t.description != description)
}

/// Toggles the first habit of the given name and category on `date`.
pub fn toggle_habit_in(habits: &mut Vec<Habit>, name: &String, category: &String, date: Date)
    ensures
        habit_views(final(habits)@) == toggle_first_habit(
            habit_views(old(habits)@),
            name@,
            category@,
            date@,
        ),
{
    let ghost before = habit_views(habits@);
    let mut i: usize = 0;
    while i < habits.len()
        invariant
            i <= habits@.len(),
            habits@ == old(habits)@,
            before == habit_views(habits@),
            forall|k: int| 0 <= k < i ==> !same_habit(#[trigger] before[k], name@, category@),
        decreases habits@.len() - i,
    {
        if *habits[i].name() == *name && *habits[i].category() == *category {
            habits[i].toggle_completed(date);
            proof {
                assert(is_first_habit(before, name@, category@, i as int));
                let c = choose|c: int| is_first_habit(before, name@, category@, c);
                assert(c == i);
                assert(habit_views(habits@) =~= before.update(
                    i as int,
                    before[i as int].toggled(date@),
                ));
            }
            return ;
        }
        i = i + 1;
    }
}

/// Toggles together, on `date`, the habits of the category: all are unmarked
/// where all were done, else all are marked.
pub fn toggle_category_in(habits: &mut Vec<Habit>, category: &String, date: Date)
    ensures
        habit_views(final(habits)@) == toggle_category(
            habit_views(old(habits)@),
            category@,
            date@,
        ),
{
    let ghost before = habit_views(habits@);
    let mut all_done = true;
    let mut i: usize = 0;
    while i < habits.len()
        invariant
            i <= habits@.len(),
            habits@ == old(habits)@,
            before == habit_views(habits@),
            all_done == all_completed(before.take(i as int), category@, date@),
        decreases habits@.len() - i,
    {
        if *habits[i].category() == *category && !habits[i].is_completed(date) {
            all_done = false;
            assert(!before.take(i + 1)[i as int].is_completed(date@));
        } else if all_done {
            assert forall|k: int|
                0 <= k < i + 1 && (#[trigger] before.take(i + 1)[k]).category
                    == category@ implies before.take(i + 1)[k].is_completed(date@) by {
                if k < i {
                    assert(before.take(i as int)[k].is_completed(date@));
                }
            }
        } else {
            proof {
                let bad = choose|bad: int|
                    0 <= bad < i && (#[trigger] before.take(i as int)[bad]).category == category@
                        && !before.take(i as int)[bad].is_completed(date@);
                assert(!before.take(i + 1)[bad].is_completed(date@));
            }
        }
        i = i + 1;
    }
    assert(before.take(i as int) =~= before);
    let mut j: usize = 0;
    while j < habits.len()
        invariant
            j <= habits@.len(),
            habits@.len() == before.len(),
            all_done == all_completed(before, category@, date@),
            forall|k: int|
                0 <= k < j ==> (#[trigger] habits@[k])@ == toggle_category(
                    before,
                    category@,
                    date@,
                )[k],
            forall|k: int| j <= k < habits@.len() ==> (#[trigger] habits@[k])@ == before[k],
        decreases habits@.len() - j,
    {
        if *habits[j].category() == *category {
            if all_done {
                habits[j].unmark_completed(date);
            } else {
                habits[j].mark_completed(date);
            }
        }
        j = j + 1;
    }
    assert(habit_views(habits@) =~= toggle_category(before, category@, date@));
}

/// Toggles the first to-do item of the given description.
pub fn toggle_todo_in(todos: &mut Vec<Todo>, description: &String)
    ensures
        todo_views(final(todos)@) == toggle_first_todo(todo_views(old(todos)@), description@),
{
    let ghost before = todo_views(todos@);
    let mut i: usize = 0;
    while i < todos.len()
        invariant
            i <= todos@.len(),
            todos@ == old(todos)@,
            before == todo_views(todos@),
            forall|k: int| 0 <= k < i ==> (#[trigger] before[k]).description != description@,
        decreases todos@.len() - i,
    {
        if todos[i].description == *description {
            todos[i].toggle_completion();
            proof {
                assert(is_first_todo(before, description@, i as int));
                let c = choose|c: int| is_first_todo(before, description@, c);
                assert(c == i);
                assert(todo_views(todos@) =~= before.update(
                    i as int,
                    TodoView { completed: !before[i as int].completed, ..before[i as int] },
                ));
            }
            return ;
        }
        i = i + 1;
    }
}

/// Removes the habits of the category, leaving the others in their order.
pub fn remove_category_in(habits: &mut Vec<Habit>, category: &String)
    ensures
        habit_views(final(habits)@) == without_category(habit_views(old(habits)@), category@),
{
    let ghost before = habit_views(habits@);
    let ghost staying = |h: HabitView| h.category != category@;
    let ghost mut done: int = 0;
    let mut i: usize = 0;
    proof {
        assert(before.take(0).filter(staying) =~= habit_views(habits@).take(0));
    }
    while i < habits.len()
        invariant
            0 <= i <= done,
            i <= habits@.len(),
            habits@.len() - i == before.len() - done,
            staying == |h: HabitView| h.category != category@,
            habit_views(habits@).take(i as int) == before.take(done).filter(staying),
            forall|k: int| 0 <= k < habits@.len() - i ==> (#[trigger] habits@[i + k])@ == before[done + k],
        decreases habits@.len() - i,
    {
        let ghost rows = habit_views(habits@);
        proof {
            assert(habits@[i + 0]@ == before[done + 0]);
            assert(before.take(done + 1) =~= before.take(done).push(before[done]));
            before.take(done).lemma_filter_push(before[done], staying);
        }
        if *habits[i].category() == *category {
            habits.remove(i);
            proof {
                assert(habit_views(habits@).take(i as int) =~= rows.take(i as int));
                assert forall|k: int| 0 <= k < habits@.len() - i implies (#[trigger] habits@[i
                    + k])@ == before[done + 1 + k] by {
                    assert(rows[i + (k + 1)] == before[done + (k + 1)]);
                }
                done = done + 1;
            }
        } else {
            proof {
                assert(habit_views(habits@).take(i + 1) =~= rows.take(i as int).push(
                    before[done],
                ));
                assert forall|k: int| 0 <= k < habits@.len() - (i + 1) implies (
                #[trigger] habits@[i + 1 + k])@ == before[done + 1 + k] by {
                    assert(habits@[i + (k + 1)]@ == before[done + (k + 1)]);
                }
                done = done + 1;
            }
            i = i + 1;
        }
    }
    proof {
        assert(before.take(done) =~= before);
        assert(habit_views(habits@).take(i as int) =~= habit_views(habits@));
    }
}

/// Removes the habits of the given name and category, leaving the others in
/// their order.
pub fn remove_habit_in(habits: &mut Vec<Habit>, name: &String, category: &String)
    ensures
        habit_views(final(habits)@) == without_habit(
            habit_views(old(habits)@),
            name@,
            category@,
        ),
{
    let ghost before = habit_views(habits@);
    let ghost staying = |h: HabitView| !same_habit(h, name@, category@);
    let ghost mut done: int = 0;
    let mut i: usize = 0;
    proof {
        assert(before.take(0).filter(staying) =~= habit_views(habits@).take(0));
    }
    while i < habits.len()
        invariant
            0 <= i <= done,
            i <= habits@.len(),
            habits@.len() - i == before.len() - done,
            staying == |h: HabitView| !same_habit(h, name@, category@),
            habit_views(habits@).take(i as int) == before.take(done).filter(staying),
            forall|k: int| 0 <= k < habits@.len() - i ==> (#[trigger] habits@[i + k])@ == before[done + k],
        decreases habits@.len() - i,
    {
        let ghost rows = habit_views(habits@);
        proof {
            assert(habits@[i + 0]@ == before[done + 0]);
            assert(before.take(done + 1) =~= before.take(done).push(before[done]));
            before.take(done).lemma_filter_push(before[done], staying);
        }
        if *habits[i].name() == *name && *habits[i].category() == *category {
            habits.remove(i);
            proof {
                assert(habit_views(habits@).take(i as int) =~= rows.take(i as int));
                assert forall|k: int| 0 <= k < habits@.len() - i implies (#[trigger] habits@[i
                    + k])@ == before[done + 1 + k] by {
                    assert(rows[i + (k + 1)] == before[done + (k + 1)]);
                }
                done = done + 1;
            }
        } else {
            proof {
                assert(habit_views(habits@).take(i + 1) =~= rows.take(i as int).push(
                    before[done],
                ));
                assert forall|k: int| 0 <= k < habits@.len() - (i + 1) implies (
                #[trigger] habits@[i + 1 + k])@ == before[done + 1 + k] by {
                    assert(habits@[i + (k + 1)]@ == before[done + (k + 1)]);
                }
                done = done + 1;
            }
            i = i + 1;
        }
    }
    proof {
        assert(before.take(done) =~= before);
        assert(habit_views(habits@).take(i as int) =~= habit_views(habits@));
    }
}

/// Removes the to-do items of the given description, leaving the others in
/// their order.
pub fn remove_todo_in(todos: &mut Vec<Todo>, description: &String)
    ensures
        todo_views(final(todos)@) == without_todo(todo_views(old(todos)@), description@),
{
    let ghost before = todo_views(todos@);
    let ghost staying = |t: TodoView| t.description != description@;
    let ghost mut done: int = 0;
    let mut i: usize = 0;
    proof {
        assert(before.take(0).filter(staying) =~= todo_views(todos@).take(0));
    }
    while i < todos.len()
        invariant
            0 <= i <= done,
            i <= todos@.len(),
            todos@.len() - i == before.len() - done,
            staying == |t: TodoView| t.description != description@,
            todo_views(todos@).take(i as int) == before.take(done).filter(staying),
            forall|k: int| 0 <= k < todos@.len() - i ==> (#[trigger] todos@[i + k])@ == before[done + k],
        decreases todos@.len() - i,
    {
        let ghost rows = todo_views(todos@);
        proof {
            assert(todos@[i + 0]@ == before[done + 0]);
            assert(before.take(done + 1) =~= before.take(done).push(before[done]));
            before.take(done).lemma_filter_push(before[done], staying);
        }
        if todos[i].description == *description {
            todos.remove(i);
            proof {
                assert(todo_views(todos@).take(i as int) =~= rows.take(i as int));
                assert forall|k: int| 0 <= k < todos@.len() - i implies (#[trigger] todos@[i
                    + k])@ == before[done + 1 + k] by {
                    assert(rows[i + (k + 1)] == before[done + (k + 1)]);
                }
                done = done + 1;
            }
        } else {
            proof {
                assert(todo_views(todos@).take(i + 1) =~= rows.take(i as int).push(before[done]));
                assert forall|k: int| 0 <= k < todos@.len() - (i + 1) implies (
                #[trigger] todos@[i + 1 + k])@ == before[done + 1 + k] by {
                    assert(todos@[i + (k + 1)]@ == before[done + (k + 1)]);
                }
                done = done + 1;
            }
            i = i + 1;
        }
    }
    proof {
        assert(before.take(done) =~= before);
        assert(todo_views(todos@).take(i as int) =~= todo_views(todos@));
    }
}

} // verus!

//! A session: the habits, the to-do items, the reference date and the screen
//! state, and what each key does to them.

use crate::calendar::{MAX_DAYS, MIN_DAYS};
use crate::date::Date;
use crate::edits::{
    remove_category_in, remove_habit_in, remove_todo_in, same_habit, toggle_category,
    toggle_category_in, toggle_first_habit, toggle_first_todo, toggle_habit_in, toggle_todo_in,
    without_category, without_habit, without_todo,
};
use crate::habit::{habit_views, Frequency, Habit, HabitView};
use crate::projection::{
    is_category_list, lemma_category_list_unique, lemma_one_more_habit_keeps_rows,
    lemma_projection_len, lemma_same_shape_same_len, projection, same_shape, TAB_COUNT, TODO_TAB,
};
use crate::todo::{todo_views, Todo, TodoView};
use crate::ui::{AppState, AppStateView, InputMode, ListEntry, ListEntryView};
use vstd::prelude::*;

verus! {

/// A key, as far as the tracker tells keys apart.
#[derive(Debug, Clone, Copy, PartialEq, Eq, Structural)]
pub enum Key {
    Char(char),
    Enter,
    Esc,
    Backspace,
    Tab,
    Left,
    Right,
    Up,
    Down,
    Other,
}

/// Everything a running tracker holds.
pub struct Session {
    pub habits: Vec<Habit>,
    pub todos: Vec<Todo>,
    pub current_date: Date,
    pub app_state: AppState,
}

/// What a session holds, as plain mathematical values.
#[verifier::ext_equal]
pub struct SessionView {
    pub habits: Seq<HabitView>,
    pub todos: Seq<TodoView>,
    pub current_date: int,
    pub state: AppStateView,
}

impl View for Session {
    type V = SessionView;

    open spec fn view(&self) -> SessionView {
        SessionView {
            habits: habit_views(self.habits@),
            todos: todo_views(self.todos@),
            current_date: self.current_date@,
            state: self.app_state@,
        }
    }
}

impl SessionView {
    /// The session as it starts on the day numbered `today`.
    pub open spec fn initial(habits: Seq<HabitView>, todos: Seq<TodoView>, today: int) -> SessionView {
        (SessionView { habits, todos, current_date: today, state: AppStateView::initial(today) }).rebuilt()
    }

    /// The list that the current tab shows of the habits and to-do items.
    pub open spec fn current_projection(self) -> Seq<ListEntryView> {
        projection(self.habits, self.todos, self.state.current_tab)
    }

    /// The session with its list rebuilt from the habits and to-do items.
    pub open spec fn rebuilt(self) -> SessionView {
        SessionView { state: self.state.with_list(self.current_projection()), ..self }
    }

    /// Whether the list is the projection of the habits and to-do items as
    /// they are now, and `total_items` its length.
    pub open spec fn list_fresh(self) -> bool {
        &&& self.state.list_items == self.current_projection()
        &&& self.state.total_items == self.state.list_items.len()
    }

    /// Whether the list is fresh and the selection, if there is one, stands
    /// on one of its rows.
    pub open spec fn consistent(self) -> bool {
        self.list_fresh() && self.state.selection_valid()
    }

    /// The place of the selected row, if a row of the list is selected.
    pub open spec fn selected_row(self) -> Option<int> {
        match self.state.selected {
            Some(i) => if 0 <= i < self.state.list_items.len() {
                Some(i)
            } else {
                None
            },
            None => None,
        }
    }

    /// The session after the selected row was toggled on the reference date:
    /// a category toggles its habits together, a habit or a to-do item
    /// toggles the first of its like. Without a selected row nothing changes.
    pub open spec fn toggled(self) -> SessionView {
        match self.selected_row() {
            None => self,
            Some(i) => (match self.state.list_items[i] {
                ListEntryView::Category(category) => SessionView {
                    habits: toggle_category(self.habits, category, self.current_date),
                    ..self
                },
                ListEntryView::Habit(habit) => SessionView {
                    habits: toggle_first_habit(
                        self.habits,
                        habit.name,
                        habit.category,
                        self.current_date,
                    ),
                    ..self
                },
                ListEntryView::Todo(todo) => SessionView {
                    todos: toggle_first_todo(self.todos, todo.description),
                    ..self
                },
            }).rebuilt(),
        }
    }

    /// The session with the selection put on row `i`, or on the last row
    /// where the list ends before `i`, or nowhere where the list is empty.
    pub open spec fn selection_clamped(self, i: int) -> SessionView {
        SessionView {
            state: AppStateView {
                selected: if self.state.total_items == 0 {
                    None
                } else if i < self.state.total_items - 1 {
                    Some(i)
                } else {
                    Some(self.state.total_items - 1)
                },
                ..self.state
            },
            ..self
        }
    }

    /// The session after what the selected row stands for was deleted: the
    /// habits of a category, the habits with a habit's name and category, or
    /// the to-do items with an item's description. The list is rebuilt and
    /// the selection kept within it. Without a selected row nothing changes.
    pub open spec fn deleted(self) -> SessionView {
        match self.selected_row() {
            None => self,
            Some(i) => (match self.state.list_items[i] {
                ListEntryView::Category(category) => SessionView {
                    habits: without_category(self.habits, category),
                    ..self
                },
                ListEntryView::Habit(habit) => SessionView {
                    habits: without_habit(self.habits, habit.name, habit.category),
                    ..self
                },
                ListEntryView::Todo(todo) => SessionView {
                    todos: without_todo(self.todos, todo.description),
                    ..self
                },
            }).rebuilt().selection_clamped(i),
        }
    }

    /// The session with the reference date one day back, or unchanged on the
    /// calendar's first day.
    pub open spec fn day_back(self) -> SessionView {
        SessionView {
            current_date: if self.current_date > MIN_DAYS {
                self.current_date - 1
            } else {
                self.current_date
            },
            ..self
        }
    }

    /// The session with the reference date one day on, or unchanged on the
    /// calendar's last day.
    pub open spec fn day_forward(self) -> SessionView {
        SessionView {
            current_date: if self.current_date < MAX_DAYS {
                self.current_date + 1
            } else {
                self.current_date
            },
            ..self
        }
    }

    /// Whether the selection can move: the list has rows and the selection,
    /// if there is one, stands on one of them.
    pub open spec fn can_move(self) -> bool {
        self.state.total_items > 0 && self.state.selection_valid()
    }

    /// The session with the selection moved down one row; unchanged where it
    /// cannot move.
    pub open spec fn selection_down(self) -> SessionView {
        if self.can_move() {
            SessionView { state: self.state.moved_down(), ..self }
        } else {
            self
        }
    }

    /// The session with the selection moved up one row; unchanged where it
    /// cannot move.
    pub open spec fn selection_up(self) -> SessionView {
        if self.can_move() {
            SessionView { state: self.state.moved_up(), ..self }
        } else {
            self
        }
    }

    /// The session on the next tab, the first one after the last, with
    /// nothing selected and the list rebuilt.
    pub open spec fn tab_advanced(self) -> SessionView {
        (SessionView {
            state: AppStateView {
                current_tab: (self.state.current_tab + 1) % (TAB_COUNT as int),
                selected: None,
                ..self.state
            },
            ..self
        }).rebuilt()
    }

    /// The session with the displayed week seven days on.
    pub open spec fn week_forward(self) -> SessionView {
        SessionView { state: self.state.week_forward(), ..self }
    }

    /// The session with the displayed week seven days back.
    pub open spec fn week_back(self) -> SessionView {
        SessionView { state: self.state.week_back(), ..self }
    }

    /// The session ready to take a new entry: a to-do item on the to-do tab,
    /// else a habit, whose category is asked for first. What was typed
    /// before is dropped.
    pub open spec fn adding_begun(self) -> SessionView {
        SessionView {
            state: if self.state.current_tab == TODO_TAB {
                AppStateView {
                    input_mode: InputMode::AddingTodo,
                    new_todo: Seq::empty(),
                    ..self.state
                }
            } else {
                AppStateView {
                    input_mode: InputMode::AddingCategory,
                    new_category: Seq::empty(),
                    new_habit_name: Seq::empty(),
                    new_habit_frequency: Frequency::Daily,
                    ..self.state
                }
            },
            ..self
        }
    }

    /// The session asking for the new habit's name, its category being typed.
    pub open spec fn category_confirmed(self) -> SessionView {
        SessionView {
            state: AppStateView { input_mode: InputMode::AddingHabit, ..self.state },
            ..self
        }
    }

    /// The session back in normal mode, with what was typed for the new
    /// entry dropped.
    pub open spec fn input_cancelled(self) -> SessionView {
        SessionView {
            state: if self.state.input_mode == InputMode::AddingTodo {
                AppStateView {
                    input_mode: InputMode::Normal,
                    new_todo: Seq::empty(),
                    ..self.state
                }
            } else {
                AppStateView {
                    input_mode: InputMode::Normal,
                    new_category: Seq::empty(),
                    new_habit_name: Seq::empty(),
                    ..self.state
                }
            },
            ..self
        }
    }

    /// The session with the typed habit added after the others, back in
    /// normal mode with nothing typed, and the list rebuilt.
    pub open spec fn habit_added(self) -> SessionView {
        (SessionView {
            habits: self.habits.push(
                HabitView {
                    name: self.state.new_habit_name,
                    category: self.state.new_category,
                    frequency: self.state.new_habit_frequency,
                    completed: Set::empty(),
                },
            ),
            state: AppStateView {
                input_mode: InputMode::Normal,
                new_habit_name: Seq::empty(),
                new_category: Seq::empty(),
                new_habit_frequency: Frequency::Daily,
                ..self.state
            },
            ..self
        }).rebuilt()
    }

    /// The session with the typed to-do item added after the others, back in
    /// normal mode with nothing typed, and the list rebuilt.
    pub open spec fn todo_added(self) -> SessionView {
        (SessionView {
            todos: self.todos.push(
                TodoView { description: self.state.new_todo, completed: false },
            ),
            state: AppStateView {
                input_mode: InputMode::Normal,
                new_todo: Seq::empty(),
                ..self.state
            },
            ..self
        }).rebuilt()
    }

    /// The session with the new habit's frequency moved on to the next one.
    pub open spec fn frequency_cycled(self) -> SessionView {
        SessionView {
            state: AppStateView {
                new_habit_frequency: match self.state.new_habit_frequency {
                    Frequency::Daily => Frequency::Weekly,
                    Frequency::Weekly => Frequency::Monthly,
                    Frequency::Monthly => Frequency::Daily,
                },
                ..self.state
            },
            ..self
        }
    }

    /// The session with `c` added to the text that the input mode asks for;
    /// unchanged in a mode that asks for none.
    pub open spec fn typed(self, c: char) -> SessionView {
        SessionView {
            state: match self.state.input_mode {
                InputMode::AddingCategory => AppStateView {
                    new_category: self.state.new_category.push(c),
                    ..self.state
                },
                InputMode::AddingHabit => AppStateView {
                    new_habit_name: self.state.new_habit_name.push(c),
                    ..self.state
                },
                InputMode::AddingTodo => AppStateView {
                    new_todo: self.state.new_todo.push(c),
                    ..self.state
                },
                _ => self.state,
            },
            ..self
        }
    }

    /// The session with the last character taken off the text that the
    /// input mode asks for; unchanged where that text is empty or the mode
    /// asks for none.
    pub open spec fn erased(self) -> SessionView {
        SessionView {
            state: match self.state.input_mode {
                InputMode::AddingCategory => AppStateView {
                    new_category: without_last(self.state.new_category),
                    ..self.state
                },
                InputMode::AddingHabit => AppStateView {
                    new_habit_name: without_last(self.state.new_habit_name),
                    ..self.state
                },
                InputMode::AddingTodo => AppStateView {
                    new_todo: without_last(self.state.new_todo),
                    ..self.state
                },
                _ => self.state,
            },
            ..self
        }
    }

    /// Whether `key` ends the session: `q` in normal mode does.
    pub open spec fn quits(self, key: Key) -> bool {
        self.state.input_mode == InputMode::Normal && key == Key::Char('q')
    }

    /// The session after `key` was pressed. A key that the input mode does
    /// not bind changes nothing, and no key is bound in the editing modes.
    pub open spec fn after_key(self, key: Key) -> SessionView {
        match self.state.input_mode {
            InputMode::Normal => match key {
                Key::Char(c) => if c == 'a' {
                    self.adding_begun()
                } else if c == 'd' {
                    self.deleted()
                } else if c == 'p' {
                    self.week_back()
                } else if c == 'n' {
                    self.week_forward()
                } else {
                    self
                },
                Key::Enter => self.toggled(),
                Key::Left => self.day_back(),
                Key::Right => self.day_forward(),
                Key::Up => self.selection_up(),
                Key::Down => self.selection_down(),
                Key::Tab => self.tab_advanced(),
                _ => self,
            },
            InputMode::AddingCategory => match key {
                Key::Enter => self.category_confirmed(),
                Key::Esc => self.input_cancelled(),
                Key::Char(c) => self.typed(c),
                Key::Backspace => self.erased(),
                _ => self,
            },
            InputMode::AddingHabit => match key {
                Key::Enter => self.habit_added(),
                Key::Esc => self.input_cancelled(),
                Key::Char(c) => self.typed(c),
                Key::Backspace => self.erased(),
                Key::Tab => self.frequency_cycled(),
                _ => self,
            },
            InputMode::AddingTodo => match key {
                Key::Enter => self.todo_added(),
                Key::Esc => self.input_cancelled(),
                Key::Char(c) => self.typed(c),
                Key::Backspace => self.erased(),
                _ => self,
            },
            InputMode::EditingCategory => self,
            InputMode::EditingHabit => self,
        }
    }
}

/// No key makes the list stale: where the list is the projection of the
/// habits and to-do items before a key, it is so after it.
pub proof fn lemma_after_key_keeps_list_fresh(session: SessionView, key: Key)
    requires
        session.list_fresh(),
    ensures
        session.after_key(key).list_fresh(),
{
}

/// Toggling changes no habit's category or frequency and no list's length,
/// so a selection that stood on a row still stands on one.
pub proof fn lemma_toggled_keeps_consistent(session: SessionView)
    requires
        session.consistent(),
    ensures
        session.toggled().consistent(),
{
    match session.selected_row() {
        None => {},
        Some(i) => {
            let after = session.toggled();
            match session.state.list_items[i] {
                ListEntryView::Category(category) => {
                    assert(same_shape(session.habits, after.habits));
                },
                ListEntryView::Habit(habit) => {
                    assert(same_shape(session.habits, after.habits));
                },
                ListEntryView::Todo(todo) => {
                    assert(same_shape(session.habits, after.habits));
                },
            }
            lemma_same_shape_same_len(
                session.habits,
                after.habits,
                session.todos,
                session.state.current_tab,
            );
            lemma_projection_len(session.habits, session.todos, session.state.current_tab);
            lemma_projection_len(after.habits, after.todos, session.state.current_tab);
        },
    }
}

/// A key leaves a consistent session consistent: the list stays the
/// projection of the habits and to-do items, and the selection, if there is
/// one, stays on one of its rows.
pub proof fn lemma_after_key_keeps_consistent(session: SessionView, key: Key)
    requires
        session.consistent(),
    ensures
        session.after_key(key).consistent(),
{
    lemma_after_key_keeps_list_fresh(session, key);
    let after = session.after_key(key);
    let tab = session.state.current_tab;
    if after == session.toggled() {
        lemma_toggled_keeps_consistent(session);
    } else if after == session.habit_added() {
        let habit = HabitView {
            name: session.state.new_habit_name,
            category: session.state.new_category,
            frequency: session.state.new_habit_frequency,
            completed: Set::empty(),
        };
        lemma_one_more_habit_keeps_rows(session.habits, habit, session.todos, tab);
    } else if after == session.todo_added() {
        let todo = TodoView { description: session.state.new_todo, completed: false };
        lemma_projection_len(session.habits, session.todos, tab);
        lemma_projection_len(session.habits, session.todos.push(todo), tab);
    } else if after == session.selection_down() && session.can_move() {
        let total = session.state.total_items;
        if let Some(i) = session.state.selected {
            assert(0 <= (i + 1) % total < total) by (nonlinear_arith)
                requires
                    0 <= i < total,
            ;
        }
    }
}

/// Where the list is empty after a deletion, nothing is selected and
/// `total_items` is 0.
pub proof fn lemma_delete_to_empty(session: SessionView)
    requires
        session.selected_row() is Some,
        session.deleted().state.list_items.len() == 0,
    ensures
        session.deleted().state.selected is None,
        session.deleted().state.total_items == 0,
{
}

/// Without habits, a tab that shows habits shows nothing.
pub proof fn lemma_projection_of_no_habit(todos: Seq<TodoView>, tab: int)
    requires
        tab != TODO_TAB,
    ensures
        projection(Seq::<HabitView>::empty(), todos, tab) == Seq::<ListEntryView>::empty(),
{
    let none = Seq::<HabitView>::empty();
    let no_name = Seq::<Seq<char>>::empty();
    assert(is_category_list(none, tab, no_name));
    lemma_category_list_unique(none, tab, no_name);
    assert(projection(none, todos, tab) =~= Seq::<ListEntryView>::empty());
}

/// Deleting the last remaining habit leaves nothing selected and an empty
/// list: where every habit has the name and category of the selected one,
/// on a tab that shows habits, the deletion leaves no habit, no row and no
/// selection.
pub proof fn lemma_delete_last_habit(session: SessionView, row: int, habit: HabitView)
    requires
        session.state.current_tab != TODO_TAB,
        session.selected_row() == Some(row),
        session.state.list_items[row] == ListEntryView::Habit(habit),
        forall|k: int|
            0 <= k < session.habits.len() ==> same_habit(
                #[trigger] session.habits[k],
                habit.name,
                habit.category,
            ),
    ensures
        session.deleted().habits.len() == 0,
        session.deleted().state.list_items.len() == 0,
        session.deleted().state.total_items == 0,
        session.deleted().state.selected is None,
{
    let staying = |h: HabitView| !same_habit(h, habit.name, habit.category);
    let left = session.habits.filter(staying);
    if left.len() > 0 {
        session.habits.lemma_filter_pred(staying, 0);
        assert(left.contains(left[0]));
        session.habits.lemma_filter_contains_rev(staying, left[0]);
    }
    assert(left =~= Seq::<HabitView>::empty());
    lemma_projection_of_no_habit(session.todos, session.state.current_tab);
}

/// The text without its last character; the empty text stays empty.
pub open spec fn without_last(text: Seq<char>) -> Seq<char> {
    if text.len() > 0 {
        text.drop_last()
    } else {
        text
    }
}

impl Session {
    /// A session that starts on `today` with the given habits and to-do
    /// items, its list built for the first tab.
    pub fn new(habits: Vec<Habit>, todos: Vec<Todo>, today: Date) -> (r: Session)
        ensures
            r@ == SessionView::initial(habit_views(habits@), todo_views(todos@), today@),
            r@.consistent(),
    {
        let mut r = Session { habits, todos, current_date: today, app_state: AppState::new(today) };
        r.rebuild();
        r
    }

    /// Rebuilds the list from the habits and to-do items for the current tab.
    pub fn rebuild(&mut self)
        ensures
            final(self)@ == old(self)@.rebuilt(),
    {
        self.app_state.update_list_items(self.habits.as_slice(), self.todos.as_slice());
    }

    /// Toggles what the selected row stands for on the reference date, and
    /// rebuilds the list. Without a selected row nothing changes.
    pub fn toggle_selected(&mut self)
        ensures
            final(self)@ == old(self)@.toggled(),
    {
        let index = match self.app_state.selected {
            Some(index) => index,
            None => {
                return ;
            },
        };
        if index >= self.app_state.list_items.len() {
            return ;
        }
        let date = self.current_date;
        match &self.app_state.list_items[index] {
            ListEntry::Category(category) => {
                toggle_category_in(&mut self.habits, category, date);
            },
            ListEntry::Habit(habit) => {
                toggle_habit_in(&mut self.habits, habit.name(), habit.category(), date);
            },
            ListEntry::Todo(todo) => {
                toggle_todo_in(&mut self.todos, &todo.description);
            },
        }
        self.rebuild();
    }

    /// Deletes what the selected row stands for, rebuilds the list and keeps
    /// the selection within it. Without a selected row nothing changes.
    pub fn delete_selected(&mut self)
        ensures
            final(self)@ == old(self)@.deleted(),
    {
        let index = match self.app_state.selected {
            Some(index) => index,
            None => {
                return ;
            },
        };
        if index >= self.app_state.list_items.len() {
            return ;
        }
        match &self.app_state.list_items[index] {
            ListEntry::Category(category) => {
                remove_category_in(&mut self.habits, category);
            },
            ListEntry::Habit(habit) => {
                remove_habit_in(&mut self.habits, habit.name(), habit.category());
            },
            ListEntry::Todo(todo) => {
                remove_todo_in(&mut self.todos, &todo.description);
            },
        }
        self.rebuild();
        if self.app_state.total_items == 0 {
            self.app_state.selected = None;
        } else if index < self.app_state.total_items - 1 {
            self.app_state.selected = Some(index);
        } else {
            self.app_state.selected = Some(self.app_state.total_items - 1);
        }
    }

    /// Moves the reference date one day back; it stays on the calendar's first day.
    pub fn previous_day(&mut self)
        ensures
            final(self)@ == old(self)@.day_back(),
    {
        match self.current_date.pred() {
            Some(day) => {
                self.current_date = day;
            },
            None => {},
        }
    }

    /// Moves the reference date one day on; it stays on the calendar's last day.
    pub fn next_day(&mut self)
        ensures
            final(self)@ == old(self)@.day_forward(),
    {
        match self.current_date.succ() {
            Some(day) => {
                self.current_date = day;
            },
            None => {},
        }
    }

    /// Whether the selection can move: the list has rows and the selection,
    /// if there is one, stands on one of them.
    pub fn can_move(&self) -> (r: bool)
        ensures
            r == self@.can_move(),
    {
        self.app_state.total_items > 0 && match self.app_state.selected {
            Some(i) => i < self.app_state.total_items,
            None => true,
        }
    }

    /// Moves the selection down one row, where it can move.
    pub fn select_next(&mut self)
        ensures
            final(self)@ == old(self)@.selection_down(),
    {
        if self.can_move() {
            self.app_state.next();
        }
    }

    /// Moves the selection up one row, where it can move.
    pub fn select_previous(&mut self)
        ensures
            final(self)@ == old(self)@.selection_up(),
    {
        if self.can_move() {
            self.app_state.previous();
        }
    }

    /// Goes to the next tab, the first one after the last, drops the
    /// selection and rebuilds the list.
    pub fn next_tab(&mut self)
        ensures
            final(self)@ == old(self)@.tab_advanced(),
    {
        self.app_state.current_tab = (self.app_state.current_tab % TAB_COUNT + 1) % TAB_COUNT;
        self.app_state.selected = None;
        self.rebuild();
    }

    /// Starts taking a new entry: a to-do item on the to-do tab, else a habit.
    pub fn begin_adding(&mut self)
        ensures
            final(self)@ == old(self)@.adding_begun(),
    {
        if self.app_state.current_tab == TODO_TAB {
            self.app_state.input_mode = InputMode::AddingTodo;
            self.app_state.new_todo = String::new();
        } else {
            self.app_state.input_mode = InputMode::AddingCategory;
            self.app_state.new_category = String::new();
            self.app_state.new_habit_name = String::new();
            self.app_state.new_habit_frequency = Frequency::Daily;
        }
    }

    /// Takes the typed category and goes on to ask for the habit's name.
    pub fn confirm_category(&mut self)
        ensures
            final(self)@ == old(self)@.category_confirmed(),
    {
        self.app_state.input_mode = InputMode::AddingHabit;
    }

    /// Gives up the entry being typed and goes back to normal mode.
    pub fn cancel_input(&mut self)
        ensures
            final(self)@ == old(self)@.input_cancelled(),
    {
        match self.app_state.input_mode {
            InputMode::AddingTodo => {
                self.app_state.new_todo = String::new();
            },
            _ => {
                self.app_state.new_category = String::new();
                self.app_state.new_habit_name = String::new();
            },
        }
        self.app_state.input_mode = InputMode::Normal;
    }

    /// Adds the typed habit after the others, goes back to normal mode and
    /// rebuilds the list.
    pub fn add_habit(&mut self)
        ensures
            final(self)@ == old(self)@.habit_added(),
    {
        let habit = Habit::new(
            self.app_state.new_habit_name.clone(),
            self.app_state.new_category.clone(),
            self.app_state.new_habit_frequency,
        );
        self.habits.push(habit);
        self.app_state.input_mode = InputMode::Normal;
        self.app_state.new_habit_name = String::new();
        self.app_state.new_category = String::new();
        self.app_state.new_habit_frequency = Frequency::Daily;
        proof {
            assert(habit_views(self.habits@) =~= habit_views(old(self).habits@).push(habit@));
        }
        self.rebuild();
    }

    /// Adds the typed to-do item after the others, goes back to normal mode
    /// and rebuilds the list.
    pub fn add_todo(&mut self)
        ensures
            final(self)@ == old(self)@.todo_added(),
    {
        let todo = Todo::new(self.app_state.new_todo.clone());
        self.todos.push(todo);
        self.app_state.input_mode = InputMode::Normal;
        self.app_state.new_todo = String::new();
        proof {
            assert(todo_views(self.todos@) =~= todo_views(old(self).todos@).push(todo@));
        }
        self.rebuild();
    }

    /// Moves the new habit's frequency on to the next one.
    pub fn cycle_frequency(&mut self)
        ensures
            final(self)@ == old(self)@.frequency_cycled(),
    {
        self.app_state.new_habit_frequency = self.app_state.new_habit_frequency.next();
    }

    /// Adds `c` to the text that the input mode asks for.
    pub fn type_char(&mut self, c: char)
        ensures
            final(self)@ == old(self)@.typed(c),
    {
        match self.app_state.input_mode {
            InputMode::AddingCategory => {
                self.app_state.new_category.push(c);
            },
            InputMode::AddingHabit => {
                self.app_state.new_habit_name.push(c);
            },
            InputMode::AddingTodo => {
                self.app_state.new_todo.push(c);
            },
            _ => {},
        }
    }

    /// Takes the last character off the text that the input mode asks for.
    pub fn erase_char(&mut self)
        ensures
            final(self)@ == old(self)@.erased(),
    {
        match self.app_state.input_mode {
            InputMode::AddingCategory => {
                self.app_state.new_category.pop();
            },
            InputMode::AddingHabit => {
                self.app_state.new_habit_name.pop();
            },
            InputMode::AddingTodo => {
                self.app_state.new_todo.pop();
            },
            _ => {},
        }
    }

    /// Does what `key` is bound to in the current input mode. Returns whether
    /// the key ends the session.
    pub fn handle_key(&mut self, key: Key) -> (quit: bool)
        ensures
            quit == old(self)@.quits(key),
            final(self)@ == old(self)@.after_key(key),
            old(self)@.consistent() ==> final(self)@.consistent(),
    {
        proof {
            if self@.consistent() {
                lemma_after_key_keeps_consistent(self@, key);
            }
        }
        match self.app_state.input_mode {
            InputMode::Normal => match key {
                Key::Char(c) => {
                    if c == 'q' {
                        return true;
                    } else if c == 'a' {
                        self.begin_adding();
                    } else if c == 'd' {
                        self.delete_selected();
                    } else if c == 'p' {
                        self.app_state.previous_week();
                    } else if c == 'n' {
                        self.app_state.next_week();
                    }
                },
                Key::Enter => {
                    self.toggle_selected();
                },
                Key::Left => {
                    self.previous_day();
                },
                Key::Right => {
                    self.next_day();
                },
                Key::Up => {
                    self.select_previous();
                },
                Key::Down => {
                    self.select_next();
                },
                Key::Tab => {
                    self.next_tab();
                },
                _ => {},
            },
            InputMode::AddingCategory => match key {
                Key::Enter => {
                    self.confirm_category();
                },
                Key::Esc => {
                    self.cancel_input();
                },
                Key::Char(c) => {
                    self.type_char(c);
                },
                Key::Backspace => {
                    self.erase_char();
                },
                _ => {},
            },
            InputMode::AddingHabit => match key {
                Key::Enter => {
                    self.add_habit();
                },
                Key::Esc => {
                    self.cancel_input();
                },
                Key::Char(c) => {
                    self.type_char(c);
                },
                Key::Backspace => {
                    self.erase_char();
                },
                Key::Tab => {
                    self.cycle_frequency();
                },
                _ => {},
            },
            InputMode::AddingTodo => match key {
                Key::Enter => {
                    self.add_todo();
                },
                Key::Esc => {
                    self.cancel_input();
                },
                Key::Char(c) => {
                    self.type_char(c);
                },
                Key::Backspace => {
                    self.erase_char();
                },
                _ => {},
            },
            InputMode::EditingCategory => {},
            InputMode::EditingHabit => {},
        }
        false
    }
}

} // verus!

//! The state of the screen: the list that is shown, the selection that moves
//! over it, the current tab and input mode, and the texts being typed.

use crate::calendar::{weekday_of, MAX_DAYS, MIN_DAYS};
use crate::date::Date;
use crate::habit::{habit_views, Frequency, Habit, HabitView};
use crate::projection::{
    project, projection, ALL_TAB, DAILY_TAB, MONTHLY_TAB, TODO_TAB, WEEKLY_TAB,
};
use crate::todo::{todo_views, Todo, TodoView};
use vstd::prelude::*;

verus! {

/// What the keys typed next are taken for.
#[derive(Debug, Clone, Copy, PartialEq, Eq, Structural)]
pub enum InputMode {
    Normal,
    AddingCategory,
    AddingHabit,
    AddingTodo,
    EditingCategory,
    EditingHabit,
}

/// One row of the list: a category heading, a habit or a to-do item. The
/// habit and the to-do item are copies taken when the list was built.
pub enum ListEntry {
    Category(String),
    Habit(Habit),
    Todo(Todo),
}

/// What a row of the list is, as plain mathematical values.
#[verifier::ext_equal]
pub enum ListEntryView {
    Category(Seq<char>),
    Habit(HabitView),
    Todo(TodoView),
}

impl View for ListEntry {
    type V = ListEntryView;

    open spec fn view(&self) -> ListEntryView {
        match self {
            ListEntry::Category(name) => ListEntryView::Category(name@),
            ListEntry::Habit(habit) => ListEntryView::Habit(habit@),
            ListEntry::Todo(todo) => ListEntryView::Todo(todo@),
        }
    }
}

impl Clone for ListEntry {
    fn clone(&self) -> (r: ListEntry)
        ensures
            r@ == self@,
    {
        match self {
            ListEntry::Category(name) => ListEntry::Category(name.clone()),
            ListEntry::Habit(habit) => ListEntry::Habit(habit.clone()),
            ListEntry::Todo(todo) => ListEntry::Todo(todo.clone()),
        }
    }
}

/// The rows of a list, each as plain values.
pub open spec fn entry_views(s: Seq<ListEntry>) -> Seq<ListEntryView> {
    s.map_values(|e: ListEntry| e@)
}

/// The state of the screen: the list that is shown, where the selection
/// stands in it, the current tab and input mode, and the texts being typed.
pub struct AppState {
    pub selected: Option<usize>,
    pub input_mode: InputMode,
    pub new_habit_name: String,
    pub new_category: String,
    pub new_habit_frequency: Frequency,
    pub new_todo: String,
    pub current_tab: usize,
    pub total_items: usize,
    pub list_items: Vec<ListEntry>,
    pub current_week: Date,
    pub edit_buffer: String,
}

/// What the state of the screen is, as plain mathematical values.
#[verifier::ext_equal]
pub struct AppStateView {
    pub selected: Option<int>,
    pub input_mode: InputMode,
    pub new_habit_name: Seq<char>,
    pub new_category: Seq<char>,
    pub new_habit_frequency: Frequency,
    pub new_todo: Seq<char>,
    pub current_tab: int,
    pub total_items: int,
    pub list_items: Seq<ListEntryView>,
    pub current_week: int,
    pub edit_buffer: Seq<char>,
}

impl View for AppState {
    type V = AppStateView;

    open spec fn view(&self) -> AppStateView {
        AppStateView {
            selected: match self.selected {
                Some(i) => Some(i as int),
                None => None,
            },
            input_mode: self.input_mode,
            new_habit_name: self.new_habit_name@,
            new_category: self.new_category@,
            new_habit_frequency: self.new_habit_frequency,
            new_todo: self.new_todo@,
            current_tab: self.current_tab as int,
            total_items: self.total_items as int,
            list_items: entry_views(self.list_items@),
            current_week: self.current_week@,
            edit_buffer: self.edit_buffer@,
        }
    }
}

/// The row selected after moving down from `selected` in a list of `total`
/// rows: the first row where none was selected, else the next one, and the
/// first again after the last.
pub open spec fn next_index(selected: Option<int>, total: int) -> int {
    match selected {
        Some(i) => (i + 1) % total,
        None => 0,
    }
}

/// The row selected after moving up from `selected` in a list of `total`
/// rows: the first row where none was selected, else the one before, and the
/// last one before the first.
pub open spec fn previous_index(selected: Option<int>, total: int) -> int {
    match selected {
        Some(i) => if i > 0 {
            i - 1
        } else {
            total - 1
        },
        None => 0,
    }
}

/// Moving down from the last row selects the first, and moving up from the
/// first row selects the last.
pub proof fn lemma_selection_wraps(total: int)
    requires
        total > 0,
    ensures
        next_index(Some(total - 1), total) == 0,
        previous_index(Some(0), total) == total - 1,
{
    assert(total % total == 0) by (nonlinear_arith)
        requires
            total > 0,
    ;
}

impl AppStateView {
    /// The state in which a session starts: nothing selected, nothing typed,
    /// the daily tab, an empty list, and the given calendar week.
    pub open spec fn initial(current_week: int) -> AppStateView {
        AppStateView {
            selected: None,
            input_mode: InputMode::Normal,
            new_habit_name: Seq::empty(),
            new_category: Seq::empty(),
            new_habit_frequency: Frequency::Daily,
            new_todo: Seq::empty(),
            current_tab: DAILY_TAB as int,
            total_items: 0,
            list_items: Seq::empty(),
            current_week,
            edit_buffer: Seq::empty(),
        }
    }

    /// Whether the selection, if there is one, stands on a row of a list of
    /// `total_items` rows.
    pub open spec fn selection_valid(self) -> bool {
        self.selected matches Some(i) ==> 0 <= i < self.total_items
    }

    /// The text that the input mode asks for: the new category, the new
    /// habit's name, the new to-do item, or the text being edited; in normal
    /// mode, where none is asked for, the empty text.
    pub open spec fn input_text(self) -> Seq<char> {
        match self.input_mode {
            InputMode::Normal => Seq::empty(),
            InputMode::AddingCategory => self.new_category,
            InputMode::AddingHabit => self.new_habit_name,
            InputMode::AddingTodo => self.new_todo,
            InputMode::EditingCategory => self.edit_buffer,
            InputMode::EditingHabit => self.edit_buffer,
        }
    }

    /// The day number of the Monday of the displayed week.
    pub open spec fn week_start(self) -> int {
        self.current_week - weekday_of(self.current_week)
    }

    /// The state with `items` as its list and their number as `total_items`.
    pub open spec fn with_list(self, items: Seq<ListEntryView>) -> AppStateView {
        AppStateView { list_items: items, total_items: items.len() as int, ..self }
    }

    /// The state with the selection moved down one row, from the last row to the first.
    pub open spec fn moved_down(self) -> AppStateView {
        AppStateView { selected: Some(next_index(self.selected, self.total_items)), ..self }
    }

    /// The state with the selection moved up one row, from the first row to the last.
    pub open spec fn moved_up(self) -> AppStateView {
        AppStateView { selected: Some(previous_index(self.selected, self.total_items)), ..self }
    }

    /// The state with the displayed week seven days on, or unchanged where
    /// the calendar ends before that.
    pub open spec fn week_forward(self) -> AppStateView {
        AppStateView {
            current_week: if self.current_week + 7 <= MAX_DAYS {
                self.current_week + 7
            } else {
                self.current_week
            },
            ..self
        }
    }

    /// The state with the displayed week seven days back, or unchanged where
    /// the calendar starts after that.
    pub open spec fn week_back(self) -> AppStateView {
        AppStateView {
            current_week: if self.current_week - 7 >= MIN_DAYS {
                self.current_week - 7
            } else {
                self.current_week
            },
            ..self
        }
    }
}

/// What the input line asks for in the given mode.
pub open spec fn prompt_text(mode: InputMode) -> Seq<char> {
    match mode {
        InputMode::Normal => ""@,
        InputMode::AddingCategory => "Enter category: "@,
        InputMode::AddingHabit => "Enter habit name: "@,
        InputMode::AddingTodo => "Enter todo: "@,
        InputMode::EditingCategory => "Edit category: "@,
        InputMode::EditingHabit => "Edit habit name: "@,
    }
}

/// The title over the list of the tab numbered `tab`.
pub open spec fn list_title_text(tab: int) -> Seq<char> {
    if tab == DAILY_TAB {
        "Daily Habits"@
    } else if tab == WEEKLY_TAB {
        "Weekly Habits"@
    } else if tab == MONTHLY_TAB {
        "Monthly Habits"@
    } else if tab == ALL_TAB {
        "All Habits"@
    } else if tab == TODO_TAB {
        "Todo List"@
    } else {
        "Items"@
    }
}

/// The title over the list of the tab numbered `tab`.
pub fn list_title(tab: usize) -> (r: &'static str)
    ensures
        r@ == list_title_text(tab as int),
{
    if tab == DAILY_TAB {
        "Daily Habits"
    } else if tab == WEEKLY_TAB {
        "Weekly Habits"
    } else if tab == MONTHLY_TAB {
        "Monthly Habits"
    } else if tab == ALL_TAB {
        "All Habits"
    } else if tab == TODO_TAB {
        "Todo List"
    } else {
        "Items"
    }
}

impl AppState {
    /// What the input line asks for in the current mode.
    pub fn input_prompt(&self) -> (r: &'static str)
        ensures
            r@ == prompt_text(self@.input_mode),
    {
        match self.input_mode {
            InputMode::Normal => "",
            InputMode::AddingCategory => "Enter category: ",
            InputMode::AddingHabit => "Enter habit name: ",
            InputMode::AddingTodo => "Enter todo: ",
            InputMode::EditingCategory => "Edit category: ",
            InputMode::EditingHabit => "Edit habit name: ",
        }
    }

    /// The text that the current mode asks for, as far as it is typed.
    pub fn input_text(&self) -> (r: &str)
        ensures
            r@ == self@.input_text(),
    {
        match self.input_mode {
            InputMode::Normal => {
                proof {
                    reveal_strlit("");
                    assert(""@ =~= Seq::<char>::empty());
                }
                ""
            },
            InputMode::AddingCategory => self.new_category.as_str(),
            InputMode::AddingHabit => self.new_habit_name.as_str(),
            InputMode::AddingTodo => self.new_todo.as_str(),
            InputMode::EditingCategory => self.edit_buffer.as_str(),
            InputMode::EditingHabit => self.edit_buffer.as_str(),
        }
    }

    /// The Monday of the displayed week, or `None` where the calendar starts
    /// after it.
    pub fn week_start(&self) -> (r: Option<Date>)
        ensures
            match r {
                Some(monday) => monday@ == self@.week_start() && monday@ >= MIN_DAYS,
                None => self@.week_start() < MIN_DAYS,
            },
    {
        proof {
            use_type_invariant(&self.current_week);
        }
        let after_monday = self.current_week.days_from_monday();
        self.current_week.checked_sub_days(after_monday as i32)
    }

    /// The state in which a session starts: nothing selected, nothing typed,
    /// the daily tab, an empty list, and the calendar week of `current_week`.
    pub fn new(current_week: Date) -> (r: AppState)
        ensures
            r@ == AppStateView::initial(current_week@),
    {
        let r = AppState {
            selected: None,
            input_mode: InputMode::Normal,
            new_habit_name: String::new(),
            new_category: String::new(),
            new_habit_frequency: Frequency::Daily,
            new_todo: String::new(),
            current_tab: DAILY_TAB,
            total_items: 0,
            list_items: Vec::new(),
            current_week,
            edit_buffer: String::new(),
        };
        assert(r@ =~= AppStateView::initial(current_week@));
        r
    }

    /// Moves the selection down one row, from the last row to the first.
    pub fn next(&mut self)
        requires
            old(self)@.total_items > 0,
            old(self)@.selection_valid(),
        ensures
            final(self)@ == old(self)@.moved_down(),
            final(self)@.selection_valid(),
    {
        self.selected = Some(
            match self.selected {
                Some(i) => (i + 1) % self.total_items,
                None => 0,
            },
        );
    }

    /// Moves the selection up one row, from the first row to the last.
    pub fn previous(&mut self)
        requires
            old(self)@.total_items > 0,
            old(self)@.selection_valid(),
        ensures
            final(self)@ == old(self)@.moved_up(),
            final(self)@.selection_valid(),
    {
        self.selected = Some(
            match self.selected {
                Some(i) => {
                    if i > 0 {
                        i - 1
                    } else {
                        self.total_items - 1
                    }
                },
                None => 0,
            },
        );
    }

    /// Rebuilds the list from the habits and to-do items for the current tab,
    /// and sets `total_items` to its length. Nothing else changes.
    pub fn update_list_items(&mut self, habits: &[Habit], todos: &[Todo])
        ensures
            final(self)@ == old(self)@.with_list(
                projection(habit_views(habits@), todo_views(todos@), old(self)@.current_tab),
            ),
    {
        self.list_items = project(habits, todos, self.current_tab);
        self.total_items = self.list_items.len();
    }

    /// Moves the displayed calendar week seven days on. At the end of the
    /// calendar, where there is no such day, the week stays.
    pub fn next_week(&mut self)
        ensures
            final(self)@ == old(self)@.week_forward(),
    {
        proof {
            use_type_invariant(&self.current_week);
        }
        match self.current_week.checked_add_days(7) {
            Some(week) => {
                self.current_week = week;
            },
            None => {},
        }
    }

    /// Moves the displayed calendar week seven days back. At the start of the
    /// calendar, where there is no such day, the week stays.
    pub fn previous_week(&mut self)
        ensures
            final(self)@ == old(self)@.week_back(),
    {
        proof {
            use_type_invariant(&self.current_week);
        }
        match self.current_week.checked_sub_days(7) {
            Some(week) => {
                self.current_week = week;
            },
            None => {},
        }
    }
}

} // verus!

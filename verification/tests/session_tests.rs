use habit_tracker::date::Date;
use habit_tracker::habit::{Frequency, Habit};
use habit_tracker::edits::{
    remove_category_in, remove_habit_in, remove_todo_in, toggle_category_in, toggle_habit_in,
    toggle_todo_in,
};
use habit_tracker::session::{Key, Session};
use habit_tracker::todo::Todo;
use habit_tracker::projection::TODO_TAB;
use habit_tracker::ui::{InputMode, ListEntry};

fn ymd(year: i32, month: u32, day: u32) -> Date {
    Date::from_ymd(year, month, day).unwrap()
}

fn today() -> Date {
    ymd(2024, 1, 17)
}

fn habit(name: &str, category: &str, frequency: Frequency) -> Habit {
    Habit::new(name.to_string(), category.to_string(), frequency)
}

fn todo(description: &str) -> Todo {
    Todo::new(description.to_string())
}

fn rows(session: &Session) -> Vec<String> {
    session
        .app_state
        .list_items
        .iter()
        .map(|entry| match entry {
            ListEntry::Category(name) => format!("[{}]", name),
            ListEntry::Habit(habit) => format!("h:{}", habit.name),
            ListEntry::Todo(todo) => format!("t:{}", todo.description),
        })
        .collect()
}

fn names(habits: &[Habit]) -> Vec<String> {
    habits.iter().map(|h| h.name.clone()).collect()
}

fn done(habits: &[Habit], date: Date) -> Vec<bool> {
    habits.iter().map(|h| h.is_completed(date)).collect()
}

fn sample() -> Session {
    Session::new(
        vec![
            habit("Read", "Mind", Frequency::Daily),
            habit("Run", "Body", Frequency::Daily),
            habit("Write", "Mind", Frequency::Daily),
            habit("Audit", "Mind", Frequency::Monthly),
        ],
        vec![todo("Buy milk"), todo("Walk dog")],
        today(),
    )
}

fn press(session: &mut Session, keys: &[Key]) {
    for key in keys {
        assert!(!session.handle_key(*key));
    }
}

fn type_text(session: &mut Session, text: &str) {
    for c in text.chars() {
        assert!(!session.handle_key(Key::Char(c)));
    }
}

#[test]
fn a_new_session_lists_the_daily_habits() {
    let s = sample();
    assert_eq!(rows(&s), vec!["[Body]", "h:Run", "[Mind]", "h:Read", "h:Write"]);
    assert_eq!(s.app_state.total_items, 5);
    assert_eq!(s.app_state.selected, None);
    assert_eq!(s.app_state.current_tab, 0);
    assert_eq!(s.app_state.current_week, today());
    assert_eq!(s.current_date, today());
    assert_eq!(s.app_state.input_mode, InputMode::Normal);
}

#[test]
fn an_empty_session_lists_nothing() {
    let s = Session::new(Vec::new(), Vec::new(), today());
    assert!(s.app_state.list_items.is_empty());
    assert_eq!(s.app_state.total_items, 0);
    assert_eq!(s.app_state.selected, None);
}

#[test]
fn q_quits_in_normal_mode_only() {
    let mut s = sample();
    assert!(s.handle_key(Key::Char('q')));
    assert_eq!(rows(&s), vec!["[Body]", "h:Run", "[Mind]", "h:Read", "h:Write"]);
    press(&mut s, &[Key::Char('a')]);
    assert!(!s.handle_key(Key::Char('q')));
    assert_eq!(s.app_state.new_category, "q");
}

#[test]
fn down_and_up_move_the_selection_with_wraparound() {
    let mut s = sample();
    press(&mut s, &[Key::Down]);
    assert_eq!(s.app_state.selected, Some(0));
    press(&mut s, &[Key::Up]);
    assert_eq!(s.app_state.selected, Some(4));
    press(&mut s, &[Key::Down]);
    assert_eq!(s.app_state.selected, Some(0));
    press(&mut s, &[Key::Down, Key::Down]);
    assert_eq!(s.app_state.selected, Some(2));
}

#[test]
fn moving_in_an_empty_list_selects_nothing() {
    let mut s = Session::new(Vec::new(), Vec::new(), today());
    press(&mut s, &[Key::Down]);
    assert_eq!(s.app_state.selected, None);
    press(&mut s, &[Key::Up]);
    assert_eq!(s.app_state.selected, None);
    s.select_next();
    s.select_previous();
    assert_eq!(s.app_state.selected, None);
    assert!(!s.can_move());
}

#[test]
fn a_selection_off_the_list_does_not_move() {
    let mut s = sample();
    s.app_state.selected = Some(9);
    assert!(!s.can_move());
    press(&mut s, &[Key::Down, Key::Up]);
    assert_eq!(s.app_state.selected, Some(9));
}

#[test]
fn enter_without_a_selection_changes_nothing() {
    let mut s = sample();
    press(&mut s, &[Key::Enter]);
    assert_eq!(done(&s.habits, today()), vec![false, false, false, false]);
    s.app_state.selected = Some(17);
    press(&mut s, &[Key::Enter, Key::Char('d')]);
    assert_eq!(s.habits.len(), 4);
    assert_eq!(s.app_state.selected, Some(17));
}

#[test]
fn enter_on_a_habit_toggles_it_on_the_reference_date() {
    let mut s = sample();
    press(&mut s, &[Key::Down, Key::Down, Key::Enter]);
    assert_eq!(done(&s.habits, today()), vec![false, true, false, false]);
    assert!(!s.habits[1].is_completed(ymd(2024, 1, 16)));
    match &s.app_state.list_items[1] {
        ListEntry::Habit(h) => assert!(h.is_completed(today())),
        _ => panic!("expected a habit"),
    }
    press(&mut s, &[Key::Enter]);
    assert_eq!(done(&s.habits, today()), vec![false, false, false, false]);
    assert_eq!(s.app_state.selected, Some(1));
}

#[test]
fn enter_on_a_category_marks_all_unless_all_are_marked() {
    let mut s = sample();
    s.habits[0].mark_completed(today());
    s.rebuild();
    s.app_state.selected = Some(2);
    press(&mut s, &[Key::Enter]);
    assert_eq!(done(&s.habits, today()), vec![true, false, true, true]);
    press(&mut s, &[Key::Enter]);
    assert_eq!(done(&s.habits, today()), vec![false, false, false, false]);
    press(&mut s, &[Key::Enter]);
    assert_eq!(done(&s.habits, today()), vec![true, false, true, true]);
}

#[test]
fn enter_on_a_todo_toggles_the_first_of_that_description() {
    let mut s = Session::new(
        Vec::new(),
        vec![todo("Buy milk"), todo("Walk dog"), todo("Walk dog")],
        today(),
    );
    press(&mut s, &[Key::Tab, Key::Tab, Key::Tab, Key::Tab]);
    assert_eq!(s.app_state.current_tab, TODO_TAB);
    s.app_state.selected = Some(3);
    press(&mut s, &[Key::Enter]);
    let flags: Vec<bool> = s.todos.iter().map(|t| t.completed).collect();
    assert_eq!(flags, vec![false, true, false]);
    press(&mut s, &[Key::Enter]);
    let flags: Vec<bool> = s.todos.iter().map(|t| t.completed).collect();
    assert_eq!(flags, vec![false, false, false]);
}

#[test]
fn enter_on_the_todo_heading_toggles_habits_of_that_category() {
    let mut s = Session::new(
        vec![habit("Plan", "To-Do List", Frequency::Daily)],
        vec![todo("Buy milk")],
        today(),
    );
    press(&mut s, &[Key::Tab, Key::Tab, Key::Tab, Key::Tab, Key::Down, Key::Enter]);
    assert!(s.habits[0].is_completed(today()));
    assert!(!s.todos[0].completed);
}

#[test]
fn deleting_the_last_remaining_item_leaves_nothing_selected() {
    let mut s = Session::new(vec![habit("Read", "Mind", Frequency::Daily)], Vec::new(), today());
    assert_eq!(s.app_state.total_items, 2);
    s.app_state.selected = Some(1);
    press(&mut s, &[Key::Char('d')]);
    assert!(s.habits.is_empty());
    assert_eq!(s.app_state.selected, None);
    assert_eq!(s.app_state.total_items, 0);
    assert!(s.app_state.list_items.is_empty());
}

#[test]
fn deleting_a_habit_removes_all_of_its_name_and_category() {
    let mut s = Session::new(
        vec![
            habit("Read", "Mind", Frequency::Daily),
            habit("Read", "Body", Frequency::Daily),
            habit("Read", "Mind", Frequency::Weekly),
            habit("Write", "Mind", Frequency::Daily),
        ],
        Vec::new(),
        today(),
    );
    assert_eq!(rows(&s), vec!["[Body]", "h:Read", "[Mind]", "h:Read", "h:Write"]);
    s.app_state.selected = Some(3);
    press(&mut s, &[Key::Char('d')]);
    assert_eq!(names(&s.habits), vec!["Read", "Write"]);
    assert_eq!(s.habits[0].category, "Body");
    assert_eq!(rows(&s), vec!["[Body]", "h:Read", "[Mind]", "h:Write"]);
    assert_eq!(s.app_state.selected, Some(3));
    assert_eq!(s.app_state.total_items, 4);
}

#[test]
fn deleting_keeps_the_selection_within_the_list() {
    let mut s = sample();
    s.app_state.selected = Some(4);
    press(&mut s, &[Key::Char('d')]);
    assert_eq!(rows(&s), vec!["[Body]", "h:Run", "[Mind]", "h:Read"]);
    assert_eq!(s.app_state.selected, Some(3));
    s.app_state.selected = Some(0);
    press(&mut s, &[Key::Char('d')]);
    assert_eq!(rows(&s), vec!["[Mind]", "h:Read"]);
    assert_eq!(s.app_state.selected, Some(0));
}

#[test]
fn deleting_a_category_removes_its_habits_of_every_frequency() {
    let mut s = sample();
    s.app_state.selected = Some(2);
    press(&mut s, &[Key::Char('d')]);
    assert_eq!(names(&s.habits), vec!["Run"]);
    assert_eq!(rows(&s), vec!["[Body]", "h:Run"]);
    assert_eq!(s.app_state.selected, Some(1));
    assert_eq!(s.todos.len(), 2);
}

#[test]
fn deleting_a_todo_leaves_the_heading() {
    let mut s = Session::new(Vec::new(), vec![todo("Buy milk")], today());
    press(&mut s, &[Key::Tab, Key::Tab, Key::Tab, Key::Tab]);
    s.app_state.selected = Some(1);
    press(&mut s, &[Key::Char('d')]);
    assert!(s.todos.is_empty());
    assert_eq!(rows(&s), vec!["[To-Do List]"]);
    assert_eq!(s.app_state.selected, Some(0));
    assert_eq!(s.app_state.total_items, 1);
}

#[test]
fn tab_goes_round_the_five_tabs_and_drops_the_selection() {
    let mut s = sample();
    s.app_state.selected = Some(1);
    press(&mut s, &[Key::Tab]);
    assert_eq!(s.app_state.current_tab, 1);
    assert_eq!(s.app_state.selected, None);
    assert!(rows(&s).is_empty());
    press(&mut s, &[Key::Tab]);
    assert_eq!(rows(&s), vec!["[Mind]", "h:Audit"]);
    press(&mut s, &[Key::Tab]);
    assert_eq!(s.app_state.total_items, 6);
    press(&mut s, &[Key::Tab]);
    assert_eq!(rows(&s), vec!["[To-Do List]", "t:Buy milk", "t:Walk dog"]);
    press(&mut s, &[Key::Tab]);
    assert_eq!(s.app_state.current_tab, 0);
    assert_eq!(s.app_state.total_items, 5);
}

#[test]
fn next_tab_is_defined_for_any_tab_number() {
    let mut s = sample();
    s.app_state.current_tab = usize::MAX;
    s.next_tab();
    assert_eq!(s.app_state.current_tab, (usize::MAX % 5 + 1) % 5);
    s.app_state.current_tab = 9;
    s.next_tab();
    assert_eq!(s.app_state.current_tab, 0);
}

#[test]
fn left_and_right_move_the_reference_date() {
    let mut s = sample();
    press(&mut s, &[Key::Left]);
    assert_eq!(s.current_date, ymd(2024, 1, 16));
    press(&mut s, &[Key::Right, Key::Right]);
    assert_eq!(s.current_date, ymd(2024, 1, 18));
    s.current_date = Date::min();
    press(&mut s, &[Key::Left]);
    assert_eq!(s.current_date, Date::min());
    s.current_date = Date::max();
    press(&mut s, &[Key::Right]);
    assert_eq!(s.current_date, Date::max());
}

#[test]
fn p_and_n_move_the_displayed_week() {
    let mut s = sample();
    press(&mut s, &[Key::Char('n')]);
    assert_eq!(s.app_state.current_week, ymd(2024, 1, 24));
    press(&mut s, &[Key::Char('p'), Key::Char('p')]);
    assert_eq!(s.app_state.current_week, ymd(2024, 1, 10));
    assert_eq!(s.current_date, today());
}

#[test]
fn a_habit_is_added_by_category_then_name() {
    let mut s = sample();
    s.app_state.selected = Some(1);
    press(&mut s, &[Key::Char('a')]);
    assert_eq!(s.app_state.input_mode, InputMode::AddingCategory);
    type_text(&mut s, "Arts");
    press(&mut s, &[Key::Backspace]);
    assert_eq!(s.app_state.new_category, "Art");
    press(&mut s, &[Key::Enter]);
    assert_eq!(s.app_state.input_mode, InputMode::AddingHabit);
    type_text(&mut s, "Draw a lot");
    press(&mut s, &[Key::Enter]);
    assert_eq!(s.app_state.input_mode, InputMode::Normal);
    assert_eq!(s.app_state.new_category, "");
    assert_eq!(s.app_state.new_habit_name, "");
    assert_eq!(s.habits.len(), 5);
    assert_eq!(s.habits[4].name, "Draw a lot");
    assert_eq!(s.habits[4].category, "Art");
    assert_eq!(s.habits[4].frequency, Frequency::Daily);
    assert!(s.habits[4].completed_dates().is_empty());
    assert_eq!(
        rows(&s),
        vec!["[Art]", "h:Draw a lot", "[Body]", "h:Run", "[Mind]", "h:Read", "h:Write"]
    );
    assert_eq!(s.app_state.total_items, 7);
    assert_eq!(s.app_state.selected, Some(1));
}

#[test]
fn tab_cycles_the_frequency_of_the_new_habit() {
    let mut s = sample();
    press(&mut s, &[Key::Char('a'), Key::Enter, Key::Tab]);
    assert_eq!(s.app_state.new_habit_frequency, Frequency::Weekly);
    press(&mut s, &[Key::Tab]);
    assert_eq!(s.app_state.new_habit_frequency, Frequency::Monthly);
    press(&mut s, &[Key::Tab]);
    assert_eq!(s.app_state.new_habit_frequency, Frequency::Daily);
    press(&mut s, &[Key::Tab, Key::Char('x'), Key::Enter]);
    assert_eq!(s.habits[4].frequency, Frequency::Weekly);
    assert_eq!(s.habits[4].category, "");
    assert_eq!(s.app_state.new_habit_frequency, Frequency::Daily);
    assert_eq!(s.app_state.total_items, 5);
    assert_eq!(s.app_state.current_tab, 0);
}

#[test]
fn esc_gives_up_the_new_habit() {
    let mut s = sample();
    press(&mut s, &[Key::Char('a'), Key::Char('x'), Key::Esc]);
    assert_eq!(s.app_state.input_mode, InputMode::Normal);
    assert_eq!(s.app_state.new_category, "");
    press(&mut s, &[Key::Char('a'), Key::Char('x'), Key::Enter, Key::Char('y'), Key::Esc]);
    assert_eq!(s.app_state.input_mode, InputMode::Normal);
    assert_eq!(s.app_state.new_category, "");
    assert_eq!(s.app_state.new_habit_name, "");
    assert_eq!(s.habits.len(), 4);
}

#[test]
fn a_todo_is_added_on_the_todo_tab() {
    let mut s = sample();
    press(&mut s, &[Key::Tab, Key::Tab, Key::Tab, Key::Tab, Key::Char('a')]);
    assert_eq!(s.app_state.input_mode, InputMode::AddingTodo);
    type_text(&mut s, "Call mum");
    press(&mut s, &[Key::Enter]);
    assert_eq!(s.app_state.input_mode, InputMode::Normal);
    assert_eq!(s.app_state.new_todo, "");
    assert_eq!(s.todos.len(), 3);
    assert_eq!(s.todos[2].description, "Call mum");
    assert!(!s.todos[2].completed);
    assert_eq!(rows(&s), vec!["[To-Do List]", "t:Buy milk", "t:Walk dog", "t:Call mum"]);
    press(&mut s, &[Key::Char('a'), Key::Char('x'), Key::Esc]);
    assert_eq!(s.app_state.input_mode, InputMode::Normal);
    assert_eq!(s.app_state.new_todo, "");
    assert_eq!(s.todos.len(), 3);
}

#[test]
fn backspace_on_an_empty_text_changes_nothing() {
    let mut s = sample();
    press(&mut s, &[Key::Char('a'), Key::Backspace]);
    assert_eq!(s.app_state.new_category, "");
    press(&mut s, &[Key::Char('é'), Key::Char('x'), Key::Backspace]);
    assert_eq!(s.app_state.new_category, "é");
    press(&mut s, &[Key::Backspace, Key::Backspace]);
    assert_eq!(s.app_state.new_category, "");
}

#[test]
fn typing_in_normal_mode_changes_no_text() {
    let mut s = sample();
    s.type_char('x');
    s.erase_char();
    press(&mut s, &[Key::Char('x'), Key::Backspace, Key::Esc, Key::Other]);
    assert_eq!(s.app_state.new_category, "");
    assert_eq!(s.app_state.new_habit_name, "");
    assert_eq!(s.app_state.new_todo, "");
    assert_eq!(s.app_state.edit_buffer, "");
    assert_eq!(s.app_state.input_mode, InputMode::Normal);
}

#[test]
fn keys_that_a_mode_does_not_bind_change_nothing() {
    let mut s = sample();
    s.app_state.selected = Some(1);
    press(&mut s, &[Key::Char('a')]);
    press(&mut s, &[Key::Up, Key::Down, Key::Left, Key::Right, Key::Tab, Key::Other]);
    assert_eq!(s.app_state.input_mode, InputMode::AddingCategory);
    assert_eq!(s.app_state.selected, Some(1));
    assert_eq!(s.current_date, today());
    assert_eq!(s.app_state.current_tab, 0);
}

#[test]
fn no_key_is_bound_in_the_editing_modes() {
    for mode in [InputMode::EditingCategory, InputMode::EditingHabit] {
        let mut s = sample();
        s.app_state.input_mode = mode;
        s.app_state.selected = Some(1);
        press(
            &mut s,
            &[Key::Char('q'), Key::Char('d'), Key::Enter, Key::Esc, Key::Backspace, Key::Tab],
        );
        assert_eq!(s.app_state.input_mode, mode);
        assert_eq!(s.habits.len(), 4);
        assert_eq!(s.app_state.edit_buffer, "");
        assert_eq!(s.app_state.selected, Some(1));
    }
}

#[test]
fn toggle_habit_in_toggles_the_first_match_only() {
    let mut habits = vec![
        habit("Read", "Body", Frequency::Daily),
        habit("Read", "Mind", Frequency::Daily),
        habit("Read", "Mind", Frequency::Weekly),
    ];
    toggle_habit_in(&mut habits, &"Read".to_string(), &"Mind".to_string(), today());
    assert_eq!(done(&habits, today()), vec![false, true, false]);
    toggle_habit_in(&mut habits, &"Read".to_string(), &"Mind".to_string(), today());
    assert_eq!(done(&habits, today()), vec![false, false, false]);
    toggle_habit_in(&mut habits, &"Read".to_string(), &"None".to_string(), today());
    assert_eq!(done(&habits, today()), vec![false, false, false]);
}

#[test]
fn toggle_category_in_acts_on_the_whole_category() {
    let mut habits = vec![
        habit("Read", "Mind", Frequency::Daily),
        habit("Run", "Body", Frequency::Daily),
        habit("Write", "Mind", Frequency::Weekly),
    ];
    habits[2].mark_completed(today());
    habits[2].mark_completed(ymd(2024, 1, 1));
    toggle_category_in(&mut habits, &"Mind".to_string(), today());
    assert_eq!(done(&habits, today()), vec![true, false, true]);
    toggle_category_in(&mut habits, &"Mind".to_string(), today());
    assert_eq!(done(&habits, today()), vec![false, false, false]);
    assert!(habits[2].is_completed(ymd(2024, 1, 1)));
    toggle_category_in(&mut habits, &"None".to_string(), today());
    assert_eq!(done(&habits, today()), vec![false, false, false]);
}

#[test]
fn toggle_todo_in_toggles_the_first_match_only() {
    let mut todos = vec![todo("a"), todo("b"), todo("b")];
    toggle_todo_in(&mut todos, &"b".to_string());
    let flags: Vec<bool> = todos.iter().map(|t| t.completed).collect();
    assert_eq!(flags, vec![false, true, false]);
    toggle_todo_in(&mut todos, &"c".to_string());
    let flags: Vec<bool> = todos.iter().map(|t| t.completed).collect();
    assert_eq!(flags, vec![false, true, false]);
}

#[test]
fn removals_keep_the_others_in_order() {
    let mut habits = vec![
        habit("a", "X", Frequency::Daily),
        habit("b", "Y", Frequency::Daily),
        habit("c", "X", Frequency::Weekly),
        habit("b", "X", Frequency::Daily),
        habit("b", "Y", Frequency::Monthly),
        habit("d", "Z", Frequency::Daily),
    ];
    remove_habit_in(&mut habits, &"b".to_string(), &"Y".to_string());
    assert_eq!(names(&habits), vec!["a", "c", "b", "d"]);
    remove_category_in(&mut habits, &"X".to_string());
    assert_eq!(names(&habits), vec!["d"]);
    remove_category_in(&mut habits, &"X".to_string());
    assert_eq!(names(&habits), vec!["d"]);
    remove_habit_in(&mut habits, &"d".to_string(), &"Z".to_string());
    assert!(habits.is_empty());
    remove_habit_in(&mut habits, &"d".to_string(), &"Z".to_string());
    assert!(habits.is_empty());
    let mut todos = vec![todo("a"), todo("b"), todo("a"), todo("c"), todo("a")];
    remove_todo_in(&mut todos, &"a".to_string());
    let left: Vec<String> = todos.iter().map(|t| t.description.clone()).collect();
    assert_eq!(left, vec!["b", "c"]);
}

//! The list that a tab shows of the habits and to-do items.
//!
//! The list is a projection: the habits that the tab shows, grouped under
//! their categories in ascending order of category, and on the to-do tab the
//! to-do items under a heading of their own. It is built anew whenever the
//! habits, the to-do items or the tab change.

use crate::habit::{habit_views, Frequency, Habit, HabitView};
use crate::text::{
    insert_name, lemma_ascending_unique, lemma_lex_irreflexive, lemma_name_inserted, lex_less,
    names_ascending, texts,
};
use crate::todo::{todo_views, Todo, TodoView};
use crate::ui::{entry_views, ListEntry, ListEntryView};
use vstd::prelude::*;

verus! {

/// The tab that shows the daily habits.
pub const DAILY_TAB: usize = 0;

/// The tab that shows the weekly habits.
pub const WEEKLY_TAB: usize = 1;

/// The tab that shows the monthly habits.
pub const MONTHLY_TAB: usize = 2;

/// The tab that shows every habit.
pub const ALL_TAB: usize = 3;

/// The tab that shows the to-do items.
pub const TODO_TAB: usize = 4;

/// The number of tabs.
pub const TAB_COUNT: usize = 5;

/// Whether the tab numbered `tab` shows habits of the given frequency.
pub open spec fn tab_shows(tab: int, frequency: Frequency) -> bool {
    match frequency {
        Frequency::Daily => tab == DAILY_TAB || tab == ALL_TAB,
        Frequency::Weekly => tab == WEEKLY_TAB || tab == ALL_TAB,
        Frequency::Monthly => tab == MONTHLY_TAB || tab == ALL_TAB,
    }
}

/// Whether `habit` is shown on the tab and belongs to the category.
pub open spec fn in_group(habit: HabitView, tab: int, category: Seq<char>) -> bool {
    tab_shows(tab, habit.frequency) && habit.category == category
}

/// Whether some habit shown on the tab belongs to the category.
pub open spec fn is_shown_category(habits: Seq<HabitView>, tab: int, category: Seq<char>) -> bool {
    exists|i: int| 0 <= i < habits.len() && in_group(#[trigger] habits[i], tab, category)
}

/// Whether `categories` lists the categories of the habits shown on the tab,
/// each once, in ascending order.
pub open spec fn is_category_list(
    habits: Seq<HabitView>,
    tab: int,
    categories: Seq<Seq<char>>,
) -> bool {
    &&& names_ascending(categories)
    &&& forall|c: Seq<char>| categories.contains(c) <==> is_shown_category(habits, tab, c)
}

/// The categories of the habits shown on the tab, each once, in ascending order.
pub open spec fn sorted_categories(habits: Seq<HabitView>, tab: int) -> Seq<Seq<char>> {
    choose|categories: Seq<Seq<char>>| is_category_list(habits, tab, categories)
}

/// The habits shown on the tab that belong to the category, in the order in
/// which `habits` holds them.
pub open spec fn group_members(habits: Seq<HabitView>, tab: int, category: Seq<char>) -> Seq<
    HabitView,
> {
    habits.filter(|h: HabitView| in_group(h, tab, category))
}

/// The rows of one group: the category's heading, then its habits.
pub open spec fn group(habits: Seq<HabitView>, tab: int, category: Seq<char>) -> Seq<
    ListEntryView,
> {
    seq![ListEntryView::Category(category)] + group_members(habits, tab, category).map_values(
        |h: HabitView| ListEntryView::Habit(h),
    )
}

/// The rows of the groups of the given categories, one group after the other.
pub open spec fn groups(habits: Seq<HabitView>, tab: int, categories: Seq<Seq<char>>) -> Seq<
    ListEntryView,
>
    decreases categories.len(),
{
    if categories.len() == 0 {
        Seq::empty()
    } else {
        groups(habits, tab, categories.drop_last()) + group(habits, tab, categories.last())
    }
}

/// The heading under which the to-do items are listed.
pub open spec fn todo_heading() -> Seq<char> {
    "To-Do List"@
}

/// The rows of the to-do items: their heading, then the items in their own order.
pub open spec fn todo_section(todos: Seq<TodoView>) -> Seq<ListEntryView> {
    seq![ListEntryView::Category(todo_heading())] + todos.map_values(
        |t: TodoView| ListEntryView::Todo(t),
    )
}

/// The list that the tab numbered `tab` shows of the habits and to-do items:
/// the groups of the shown habits in ascending order of category, and on the
/// to-do tab the to-do items after them.
pub open spec fn projection(habits: Seq<HabitView>, todos: Seq<TodoView>, tab: int) -> Seq<
    ListEntryView,
> {
    groups(habits, tab, sorted_categories(habits, tab)) + if tab == TODO_TAB {
        todo_section(todos)
    } else {
        Seq::empty()
    }
}

/// Whatever the habits, their shown categories can be listed each once in
/// ascending order.
pub proof fn lemma_category_list_exists(habits: Seq<HabitView>, tab: int)
    ensures
        is_category_list(habits, tab, sorted_categories(habits, tab)),
    decreases habits.len(),
{
    if habits.len() == 0 {
        let none = Seq::<Seq<char>>::empty();
        assert(is_category_list(habits, tab, none));
    } else {
        let front = habits.drop_last();
        let last = habits.last();
        lemma_category_list_exists(front, tab);
        let listed = sorted_categories(front, tab);
        let all = if tab_shows(tab, last.frequency) {
            lemma_name_inserted(listed, last.category)
        } else {
            listed
        };
        assert forall|c: Seq<char>| all.contains(c) <==> is_shown_category(habits, tab, c) by {
            if is_shown_category(front, tab, c) {
                let i = choose|i: int| 0 <= i < front.len() && in_group(#[trigger] front[i], tab, c);
                assert(in_group(habits[i], tab, c));
            }
            if is_shown_category(habits, tab, c) {
                let i = choose|i: int|
                    0 <= i < habits.len() && in_group(#[trigger] habits[i], tab, c);
                if i < front.len() {
                    assert(in_group(front[i], tab, c));
                }
            }
            if tab_shows(tab, last.frequency) && c == last.category {
                assert(in_group(habits[habits.len() - 1], tab, c));
            }
        }
        assert(is_category_list(habits, tab, all));
    }
}

/// A list of the shown categories, each once in ascending order, is the list of them.
pub proof fn lemma_category_list_unique(
    habits: Seq<HabitView>,
    tab: int,
    categories: Seq<Seq<char>>,
)
    requires
        is_category_list(habits, tab, categories),
    ensures
        categories == sorted_categories(habits, tab),
{
    lemma_ascending_unique(categories, sorted_categories(habits, tab));
}

/// The category headings of a list, in the order in which the list holds them.
pub open spec fn headings(rows: Seq<ListEntryView>) -> Seq<Seq<char>>
    decreases rows.len(),
{
    if rows.len() == 0 {
        Seq::empty()
    } else {
        match rows.last() {
            ListEntryView::Category(name) => headings(rows.drop_last()).push(name),
            _ => headings(rows.drop_last()),
        }
    }
}

/// The headings of a list made of two are those of the first, then those of the second.
pub proof fn lemma_headings_of_sum(a: Seq<ListEntryView>, b: Seq<ListEntryView>)
    ensures
        headings(a + b) == headings(a) + headings(b),
    decreases b.len(),
{
    if b.len() == 0 {
        assert(a + b =~= a);
        assert(headings(a) + headings(b) =~= headings(a));
    } else {
        lemma_headings_of_sum(a, b.drop_last());
        assert((a + b).drop_last() =~= a + b.drop_last());
        assert((a + b).last() == b.last());
        match b.last() {
            ListEntryView::Category(name) => {
                assert(headings(a + b) =~= headings(a) + headings(b));
            },
            _ => {},
        }
    }
}

/// Rows that are all habits hold no heading.
pub proof fn lemma_habit_rows_have_no_heading(habits: Seq<HabitView>)
    ensures
        headings(habits.map_values(|h: HabitView| ListEntryView::Habit(h))) == Seq::<
            Seq<char>,
        >::empty(),
    decreases habits.len(),
{
    let rows = habits.map_values(|h: HabitView| ListEntryView::Habit(h));
    if habits.len() > 0 {
        lemma_habit_rows_have_no_heading(habits.drop_last());
        assert(rows.drop_last() =~= habits.drop_last().map_values(
            |h: HabitView| ListEntryView::Habit(h),
        ));
    }
}

/// The headings of the groups of some categories are those categories, in
/// their order: each group is headed by its category and holds no other heading.
pub proof fn lemma_headings_of_groups(habits: Seq<HabitView>, tab: int, categories: Seq<Seq<char>>)
    ensures
        headings(groups(habits, tab, categories)) == categories,
    decreases categories.len(),
{
    if categories.len() == 0 {
        assert(headings(groups(habits, tab, categories)) =~= categories);
    } else {
        let front = categories.drop_last();
        let name = categories.last();
        lemma_headings_of_groups(habits, tab, front);
        lemma_headings_of_sum(groups(habits, tab, front), group(habits, tab, name));
        let heading = seq![ListEntryView::Category(name)];
        let members = group_members(habits, tab, name).map_values(
            |h: HabitView| ListEntryView::Habit(h),
        );
        lemma_headings_of_sum(heading, members);
        lemma_habit_rows_have_no_heading(group_members(habits, tab, name));
        assert(heading.last() == ListEntryView::Category(name));
        assert(headings(heading.drop_last()) =~= Seq::<Seq<char>>::empty());
        assert(headings(heading) =~= seq![name]);
        assert(front + (seq![name] + Seq::<Seq<char>>::empty()) =~= categories);
    }
}

/// On a tab that shows habits, the headings of the list are the categories
/// of the shown habits, each once, in ascending order.
pub proof fn lemma_projection_headings_ascend(
    habits: Seq<HabitView>,
    todos: Seq<TodoView>,
    tab: int,
)
    requires
        tab != TODO_TAB,
    ensures
        headings(projection(habits, todos, tab)) == sorted_categories(habits, tab),
        is_category_list(habits, tab, headings(projection(habits, todos, tab))),
{
    lemma_category_list_exists(habits, tab);
    lemma_headings_of_groups(habits, tab, sorted_categories(habits, tab));
    assert(projection(habits, todos, tab) =~= groups(habits, tab, sorted_categories(habits, tab)));
}

/// The order of the categories does not depend on the order of the habits:
/// two sequences of habits that show the same categories on a tab list them
/// in the same order.
pub proof fn lemma_category_order_ignores_habit_order(
    one: Seq<HabitView>,
    other: Seq<HabitView>,
    tab: int,
)
    requires
        forall|c: Seq<char>| is_shown_category(one, tab, c) <==> is_shown_category(other, tab, c),
    ensures
        sorted_categories(one, tab) == sorted_categories(other, tab),
{
    lemma_category_list_exists(one, tab);
    lemma_category_list_exists(other, tab);
    lemma_ascending_unique(sorted_categories(one, tab), sorted_categories(other, tab));
}

/// Within a group the habits keep their order: of two members of a group, the
/// one listed first stands first among the habits too.
pub proof fn lemma_group_keeps_order(
    habits: Seq<HabitView>,
    tab: int,
    category: Seq<char>,
    a: int,
    b: int,
)
    requires
        0 <= a < b < group_members(habits, tab, category).len(),
    ensures
        exists|p: int, q: int|
            0 <= p < q < habits.len() && #[trigger] habits[p] == group_members(
                habits,
                tab,
                category,
            )[a] && #[trigger] habits[q] == group_members(habits, tab, category)[b],
        in_group(group_members(habits, tab, category)[a], tab, category),
        in_group(group_members(habits, tab, category)[b], tab, category),
    decreases habits.len(),
{
    let belonging = |h: HabitView| in_group(h, tab, category);
    let members = habits.filter(belonging);
    reveal(Seq::filter);
    assert(habits.len() > 0);
    let front = habits.drop_last();
    let front_members = front.filter(belonging);
    if belonging(habits.last()) && b == front_members.len() {
        lemma_member_comes_from(front, tab, category, a);
        let p = choose|p: int| 0 <= p < front.len() && front[p] == front_members[a];
        let q = habits.len() - 1;
        assert(habits[p] == members[a] && habits[q] == members[b]);
    } else {
        lemma_group_keeps_order(front, tab, category, a, b);
        let (p, q) = choose|p: int, q: int|
            0 <= p < q < front.len() && #[trigger] front[p] == front_members[a]
                && #[trigger] front[q] == front_members[b];
        assert(habits[p] == members[a] && habits[q] == members[b]);
    }
}

/// Each member of a group is one of the habits, shown on the tab and of the category.
pub proof fn lemma_member_comes_from(habits: Seq<HabitView>, tab: int, category: Seq<char>, a: int)
    requires
        0 <= a < group_members(habits, tab, category).len(),
    ensures
        exists|p: int| 0 <= p < habits.len() && habits[p] == group_members(habits, tab, category)[a],
        in_group(group_members(habits, tab, category)[a], tab, category),
    decreases habits.len(),
{
    let belonging = |h: HabitView| in_group(h, tab, category);
    let members = habits.filter(belonging);
    reveal(Seq::filter);
    let front = habits.drop_last();
    let front_members = front.filter(belonging);
    if belonging(habits.last()) && a == front_members.len() {
        assert(habits[habits.len() - 1] == members[a]);
    } else {
        lemma_member_comes_from(front, tab, category, a);
        let p = choose|p: int| 0 <= p < front.len() && front[p] == front_members[a];
        assert(habits[p] == members[a]);
    }
}

/// How many of the habits the tab shows.
pub open spec fn shown_count(habits: Seq<HabitView>, tab: int) -> nat {
    habits.filter(|h: HabitView| tab_shows(tab, h.frequency)).len()
}

/// How many of the habits the tab shows under one of the given categories.
pub open spec fn covered_count(habits: Seq<HabitView>, tab: int, categories: Seq<Seq<char>>) -> nat {
    habits.filter(|h: HabitView| tab_shows(tab, h.frequency) && categories.contains(h.category)).len()
}

/// Two tests that agree on every item of a sequence filter it alike.
pub proof fn lemma_filter_agrees<A>(s: Seq<A>, p: spec_fn(A) -> bool, q: spec_fn(A) -> bool)
    requires
        forall|i: int| 0 <= i < s.len() ==> p(#[trigger] s[i]) == q(s[i]),
    ensures
        s.filter(p) == s.filter(q),
    decreases s.len(),
{
    reveal(Seq::filter);
    if s.len() > 0 {
        assert(p(s[s.len() - 1]) == q(s[s.len() - 1]));
        assert forall|i: int| 0 <= i < s.drop_last().len() implies p(#[trigger] s.drop_last()[i])
            == q(s.drop_last()[i]) by {
            assert(p(s[i]) == q(s[i]));
        }
        lemma_filter_agrees(s.drop_last(), p, q);
    }
}

/// Without habits each group is its heading alone.
pub proof fn lemma_groups_of_no_habit(tab: int, categories: Seq<Seq<char>>)
    ensures
        groups(Seq::<HabitView>::empty(), tab, categories).len() == categories.len(),
    decreases categories.len(),
{
    reveal(Seq::filter);
    if categories.len() > 0 {
        lemma_groups_of_no_habit(tab, categories.drop_last());
    }
}

/// One more habit adds one row to the groups of some categories, each listed
/// once, if the tab shows it under one of them, and none if not.
pub proof fn lemma_groups_with_one_more_habit(
    habits: Seq<HabitView>,
    habit: HabitView,
    tab: int,
    categories: Seq<Seq<char>>,
)
    requires
        names_ascending(categories),
    ensures
        groups(habits.push(habit), tab, categories).len() == groups(habits, tab, categories).len()
            + if tab_shows(tab, habit.frequency) && categories.contains(habit.category) {
            1int
        } else {
            0int
        },
    decreases categories.len(),
{
    if categories.len() > 0 {
        let front = categories.drop_last();
        let name = categories.last();
        lemma_groups_with_one_more_habit(habits, habit, tab, front);
        habits.lemma_filter_push(habit, |h: HabitView| in_group(h, tab, name));
        assert(categories[categories.len() - 1] == name);
        if front.contains(habit.category) {
            let i = choose|i: int| 0 <= i < front.len() && front[i] == habit.category;
            assert(categories[i] == habit.category);
            if name == habit.category {
                assert(lex_less(categories[i], categories[categories.len() - 1]));
                lemma_lex_irreflexive(name);
            }
        }
        if categories.contains(habit.category) && name != habit.category {
            let i = choose|i: int| 0 <= i < categories.len() && categories[i] == habit.category;
            assert(front[i] == habit.category);
        }
    } else {
        assert(!categories.contains(habit.category));
    }
}

/// The groups of some categories, each listed once, have one row for each
/// category and one for each habit that the tab shows under one of them.
pub proof fn lemma_groups_len(habits: Seq<HabitView>, tab: int, categories: Seq<Seq<char>>)
    requires
        names_ascending(categories),
    ensures
        groups(habits, tab, categories).len() == categories.len() + covered_count(
            habits,
            tab,
            categories,
        ),
    decreases habits.len(),
{
    if habits.len() == 0 {
        lemma_groups_of_no_habit(tab, categories);
        assert(habits =~= Seq::<HabitView>::empty());
    } else {
        let front = habits.drop_last();
        let last = habits.last();
        assert(habits =~= front.push(last));
        lemma_groups_len(front, tab, categories);
        lemma_groups_with_one_more_habit(front, last, tab, categories);
        front.lemma_filter_push(
            last,
            |h: HabitView| tab_shows(tab, h.frequency) && categories.contains(h.category),
        );
    }
}

/// The list has one row for each category shown and one for each habit
/// shown; on the to-do tab, one for the heading of the to-do items and one
/// for each of them.
pub proof fn lemma_projection_len(habits: Seq<HabitView>, todos: Seq<TodoView>, tab: int)
    ensures
        projection(habits, todos, tab).len() == sorted_categories(habits, tab).len() + shown_count(
            habits,
            tab,
        ) + if tab == TODO_TAB {
            1 + todos.len()
        } else {
            0
        },
{
    let categories = sorted_categories(habits, tab);
    lemma_category_list_exists(habits, tab);
    lemma_groups_len(habits, tab, categories);
    assert forall|i: int| 0 <= i < habits.len() implies (tab_shows(
        tab,
        (#[trigger] habits[i]).frequency,
    ) && categories.contains(habits[i].category)) == tab_shows(tab, habits[i].frequency) by {
        if tab_shows(tab, habits[i].frequency) {
            assert(in_group(habits[i], tab, habits[i].category));
            assert(is_shown_category(habits, tab, habits[i].category));
        }
    }
    lemma_filter_agrees(
        habits,
        |h: HabitView| tab_shows(tab, h.frequency) && categories.contains(h.category),
        |h: HabitView| tab_shows(tab, h.frequency),
    );
}

/// Whether two sequences of habits agree, place by place, on category and frequency.
pub open spec fn same_shape(one: Seq<HabitView>, other: Seq<HabitView>) -> bool {
    &&& one.len() == other.len()
    &&& forall|i: int|
        0 <= i < one.len() ==> (#[trigger] one[i]).category == other[i].category && one[i].frequency
            == other[i].frequency
}

/// Habits that agree place by place on category and frequency are shown in as many rows.
pub proof fn lemma_same_shape_same_len(
    one: Seq<HabitView>,
    other: Seq<HabitView>,
    todos: Seq<TodoView>,
    tab: int,
)
    requires
        same_shape(one, other),
    ensures
        projection(one, todos, tab).len() == projection(other, todos, tab).len(),
        sorted_categories(one, tab) == sorted_categories(other, tab),
        shown_count(one, tab) == shown_count(other, tab),
{
    assert forall|c: Seq<char>| is_shown_category(one, tab, c) <==> is_shown_category(
        other,
        tab,
        c,
    ) by {
        if is_shown_category(one, tab, c) {
            let i = choose|i: int| 0 <= i < one.len() && in_group(#[trigger] one[i], tab, c);
            assert(in_group(other[i], tab, c));
        }
        if is_shown_category(other, tab, c) {
            let i = choose|i: int| 0 <= i < other.len() && in_group(#[trigger] other[i], tab, c);
            assert(one[i].category == other[i].category);
            assert(in_group(one[i], tab, c));
        }
    }
    lemma_category_order_ignores_habit_order(one, other, tab);
    lemma_shown_count_same_shape(one, other, tab);
    lemma_projection_len(one, todos, tab);
    lemma_projection_len(other, todos, tab);
}

/// Habits that agree place by place on frequency are shown in equal number.
pub proof fn lemma_shown_count_same_shape(one: Seq<HabitView>, other: Seq<HabitView>, tab: int)
    requires
        same_shape(one, other),
    ensures
        shown_count(one, tab) == shown_count(other, tab),
    decreases one.len(),
{
    reveal(Seq::filter);
    if one.len() > 0 {
        assert(one[one.len() - 1].frequency == other[other.len() - 1].frequency);
        assert forall|i: int| 0 <= i < one.drop_last().len() implies (
        #[trigger] one.drop_last()[i]).category == other.drop_last()[i].category
            && one.drop_last()[i].frequency == other.drop_last()[i].frequency by {
            assert(one[i].category == other[i].category);
        }
        lemma_shown_count_same_shape(one.drop_last(), other.drop_last(), tab);
    }
}

/// One more habit takes no row away: the list of the habits with one added
/// after them is at least as long as the list of the habits.
pub proof fn lemma_one_more_habit_keeps_rows(
    habits: Seq<HabitView>,
    habit: HabitView,
    todos: Seq<TodoView>,
    tab: int,
)
    ensures
        projection(habits.push(habit), todos, tab).len() >= projection(habits, todos, tab).len(),
{
    let more = habits.push(habit);
    let listed = sorted_categories(habits, tab);
    lemma_category_list_exists(habits, tab);
    let all = if tab_shows(tab, habit.frequency) {
        lemma_name_inserted(listed, habit.category)
    } else {
        listed
    };
    assert forall|c: Seq<char>| all.contains(c) <==> is_shown_category(more, tab, c) by {
        if is_shown_category(habits, tab, c) {
            let i = choose|i: int| 0 <= i < habits.len() && in_group(#[trigger] habits[i], tab, c);
            assert(in_group(more[i], tab, c));
        }
        if is_shown_category(more, tab, c) {
            let i = choose|i: int| 0 <= i < more.len() && in_group(#[trigger] more[i], tab, c);
            if i < habits.len() {
                assert(in_group(habits[i], tab, c));
            }
        }
        if tab_shows(tab, habit.frequency) && c == habit.category {
            assert(in_group(more[more.len() - 1], tab, c));
        }
    }
    lemma_category_list_unique(more, tab, all);
    habits.lemma_filter_push(habit, |h: HabitView| tab_shows(tab, h.frequency));
    lemma_projection_len(habits, todos, tab);
    lemma_projection_len(more, todos, tab);
}

/// Whether the tab numbered `tab` shows habits of the given frequency.
pub fn tab_shows_frequency(tab: usize, frequency: Frequency) -> (r: bool)
    ensures
        r == tab_shows(tab as int, frequency),
{
    match frequency {
        Frequency::Daily => tab == DAILY_TAB || tab == ALL_TAB,
        Frequency::Weekly => tab == WEEKLY_TAB || tab == ALL_TAB,
        Frequency::Monthly => tab == MONTHLY_TAB || tab == ALL_TAB,
    }
}

/// The categories of the habits shown on the tab, each once, in ascending order.
pub fn shown_categories(habits: &[Habit], tab: usize) -> (categories: Vec<String>)
    ensures
        texts(categories@) == sorted_categories(habit_views(habits@), tab as int),
        is_category_list(habit_views(habits@), tab as int, texts(categories@)),
{
    let ghost all = habit_views(habits@);
    let mut categories: Vec<String> = Vec::new();
    let mut i: usize = 0;
    assert(is_category_list(all.take(0), tab as int, texts(categories@)));
    while i < habits.len()
        invariant
            i <= habits@.len(),
            all == habit_views(habits@),
            is_category_list(all.take(i as int), tab as int, texts(categories@)),
        decreases habits@.len() - i,
    {
        let ghost listed = texts(categories@);
        let habit = &habits[i];
        if tab_shows_frequency(tab, habit.get_frequency()) {
            insert_name(&mut categories, habit.category());
        }
        proof {
            let now = texts(categories@);
            let seen = all.take(i as int);
            let more = all.take(i + 1);
            assert(more[i as int] == habits@[i as int]@);
            assert forall|c: Seq<char>| now.contains(c) <==> is_shown_category(more, tab as int, c) by {
                if is_shown_category(seen, tab as int, c) {
                    let k = choose|k: int|
                        0 <= k < seen.len() && in_group(#[trigger] seen[k], tab as int, c);
                    assert(in_group(more[k], tab as int, c));
                }
                if is_shown_category(more, tab as int, c) {
                    let k = choose|k: int|
                        0 <= k < more.len() && in_group(#[trigger] more[k], tab as int, c);
                    if k < i {
                        assert(in_group(seen[k], tab as int, c));
                    }
                }
                if in_group(more[i as int], tab as int, c) {
                    assert(is_shown_category(more, tab as int, c));
                }
            }
        }
        i = i + 1;
    }
    proof {
        assert(all.take(i as int) =~= all);
        lemma_category_list_unique(all, tab as int, texts(categories@));
    }
    categories
}

/// Appends the rows of one group to `items`: the category's heading, then
/// copies of the habits shown on the tab that belong to it, in their order.
pub fn push_group(items: &mut Vec<ListEntry>, habits: &[Habit], tab: usize, category: &String)
    ensures
        entry_views(final(items)@) == entry_views(old(items)@) + group(
            habit_views(habits@),
            tab as int,
            category@,
        ),
{
    let ghost all = habit_views(habits@);
    let ghost before = entry_views(items@);
    items.push(ListEntry::Category(category.clone()));
    let mut i: usize = 0;
    proof {
        assert(all.take(0) =~= Seq::<HabitView>::empty());
        assert(entry_views(items@) =~= before + group(all.take(0), tab as int, category@));
    }
    while i < habits.len()
        invariant
            i <= habits@.len(),
            all == habit_views(habits@),
            entry_views(items@) == before + group(all.take(i as int), tab as int, category@),
        decreases habits@.len() - i,
    {
        let ghost rows = entry_views(items@);
        let habit = &habits[i];
        let belongs = tab_shows_frequency(tab, habit.get_frequency()) && *habit.category()
            == *category;
        if belongs {
            items.push(ListEntry::Habit(habit.clone()));
        }
        proof {
            let seen = all.take(i as int);
            let more = all.take(i + 1);
            let belonging = |h: HabitView| in_group(h, tab as int, category@);
            assert(more =~= seen.push(habit@));
            seen.lemma_filter_push(habit@, belonging);
            assert(belongs == in_group(habit@, tab as int, category@));
            if belongs {
                assert(entry_views(items@) =~= rows.push(ListEntryView::Habit(habit@)));
                assert(group(more, tab as int, category@) =~= group(seen, tab as int, category@).push(
                    ListEntryView::Habit(habit@),
                ));
            }
            assert(entry_views(items@) =~= before + group(more, tab as int, category@));
        }
        i = i + 1;
    }
    proof {
        assert(all.take(i as int) =~= all);
    }
}

/// Appends the rows of the to-do items to `items`: their heading, then a copy
/// of each item, in their order.
pub fn push_todo_section(items: &mut Vec<ListEntry>, todos: &[Todo])
    ensures
        entry_views(final(items)@) == entry_views(old(items)@) + todo_section(todo_views(todos@)),
{
    let ghost all = todo_views(todos@);
    let ghost before = entry_views(items@);
    items.push(ListEntry::Category("To-Do List".to_owned()));
    let mut i: usize = 0;
    proof {
        assert(entry_views(items@) =~= before + todo_section(all.take(0)));
    }
    while i < todos.len()
        invariant
            i <= todos@.len(),
            all == todo_views(todos@),
            entry_views(items@) == before + todo_section(all.take(i as int)),
        decreases todos@.len() - i,
    {
        let ghost rows = entry_views(items@);
        items.push(ListEntry::Todo(todos[i].clone()));
        proof {
            assert(entry_views(items@) =~= rows.push(ListEntryView::Todo(todos@[i as int]@)));
            assert(todo_section(all.take(i + 1)) =~= todo_section(all.take(i as int)).push(
                ListEntryView::Todo(todos@[i as int]@),
            ));
        }
        i = i + 1;
    }
    proof {
        assert(all.take(i as int) =~= all);
    }
}

/// The list that the tab numbered `tab` shows of the habits and to-do items.
pub fn project(habits: &[Habit], todos: &[Todo], tab: usize) -> (items: Vec<ListEntry>)
    ensures
        entry_views(items@) == projection(habit_views(habits@), todo_views(todos@), tab as int),
{
    let ghost all = habit_views(habits@);
    let mut items: Vec<ListEntry> = Vec::new();
    let categories = shown_categories(habits, tab);
    let ghost names = texts(categories@);
    let mut k: usize = 0;
    proof {
        assert(entry_views(items@) =~= groups(all, tab as int, names.take(0)));
    }
    while k < categories.len()
        invariant
            k <= categories@.len(),
            all == habit_views(habits@),
            names == texts(categories@),
            entry_views(items@) == groups(all, tab as int, names.take(k as int)),
        decreases categories@.len() - k,
    {
        push_group(&mut items, habits, tab, &categories[k]);
        proof {
            assert(names.take(k + 1).drop_last() =~= names.take(k as int));
            assert(names.take(k + 1).last() == categories@[k as int]@);
        }
        k = k + 1;
    }
    proof {
        assert(names.take(k as int) =~= names);
    }
    if tab == TODO_TAB {
        push_todo_section(&mut items, todos);
    } else {
        assert(entry_views(items@) =~= entry_views(items@) + Seq::<ListEntryView>::empty());
    }
    items
}

} // verus!

//! The choices of the plain menu, and how what was typed is taken for one.

use crate::text::str_equal;
use vstd::prelude::*;

verus! {

/// What the menu offers.
#[derive(Debug, Clone, Copy, PartialEq, Eq, Structural)]
pub enum UserAction {
    AddHabit,
    MarkHabit,
    ViewHabits,
    ViewStreaks,
    Quit,
}

/// The action that a typed choice stands for: the menu numbers its actions
/// from 1 to 5, and anything else stands for none.
pub open spec fn action_of_choice(choice: Seq<char>) -> Option<UserAction> {
    if choice == "1"@ {
        Some(UserAction::AddHabit)
    } else if choice == "2"@ {
        Some(UserAction::MarkHabit)
    } else if choice == "3"@ {
        Some(UserAction::ViewHabits)
    } else if choice == "4"@ {
        Some(UserAction::ViewStreaks)
    } else if choice == "5"@ {
        Some(UserAction::Quit)
    } else {
        None
    }
}

impl UserAction {
    /// The action that a typed choice stands for, if it stands for one. The
    /// choice is taken as it is: blanks around it are for the caller to drop.
    pub fn from_choice(choice: &str) -> (r: Option<UserAction>)
        ensures
            r == action_of_choice(choice@),
    {
        if str_equal(choice, "1") {
            Some(UserAction::AddHabit)
        } else if str_equal(choice, "2") {
            Some(UserAction::MarkHabit)
        } else if str_equal(choice, "3") {
            Some(UserAction::ViewHabits)
        } else if str_equal(choice, "4") {
            Some(UserAction::ViewStreaks)
        } else if str_equal(choice, "5") {
            Some(UserAction::Quit)
        } else {
            None
        }
    }
}

/// The place in a list of `count` habits that the typed number stands for:
/// habits are numbered from 1, so `number` stands for the place before it,
/// and a number that is 0 or beyond `count` stands for none.
pub fn habit_index(number: usize, count: usize) -> (r: Option<usize>)
    ensures
        r == if 0 < number <= count {
            Some((number - 1) as usize)
        } else {
            None
        },
{
    if number > 0 && number <= count {
        Some(number - 1)
    } else {
        None
    }
}

} // verus!

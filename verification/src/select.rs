//! What an interactive choice among candidates comes to.
//!
//! The picker itself runs at the terminal. Here stands what is asked of it
//! and what is made of its answer.

use vstd::prelude::*;
use vstd::string::StringExecFns;

verus! {

/// How the picker is set up.
pub struct PickerOptions {
    /// The share of the terminal's height that the picker takes.
    pub height: &'static str,
    /// The text that the candidates are filtered by from the start.
    pub query: Option<String>,
    /// Whether a single candidate left by the query is taken without asking.
    pub select_single: bool,
    /// Whether several candidates may be chosen.
    pub multi: bool,
    /// Key bindings beyond the picker's own.
    pub bindings: Vec<&'static str>,
}

/// The height of the picker.
pub const PICKER_HEIGHT: &'static str = "20%";

/// The key that moves to the beginning of the query.
pub const BIND_LINE_START: &'static str = "ctrl-a:beginning-of-line";

/// The key that moves to the end of the query.
pub const BIND_LINE_END: &'static str = "ctrl-e:end-of-line";

fn query_text(query: Option<&str>) -> (text: Option<String>)
    ensures
        match query {
            Some(given) => text is Some && text->0@ == given@,
            None => text is None,
        },
{
    match query {
        Some(given) => Some(String::from_str(given)),
        None => None,
    }
}

/// The options for choosing several candidates: with a query, a single match
/// is taken at once.
pub fn many_options(query: Option<&str>) -> (options: PickerOptions)
    ensures
        options.height@ == PICKER_HEIGHT@,
        options.multi,
        options.select_single == (query is Some),
        options.bindings@.len() == 2,
        options.bindings@[0]@ == BIND_LINE_START@,
        options.bindings@[1]@ == BIND_LINE_END@,
        match query {
            Some(given) => options.query is Some && options.query->0@ == given@,
            None => options.query is None,
        },
{
    let mut bindings: Vec<&'static str> = Vec::new();
    bindings.push(BIND_LINE_START);
    bindings.push(BIND_LINE_END);
    PickerOptions {
        height: PICKER_HEIGHT,
        query: query_text(query),
        select_single: query.is_some(),
        multi: true,
        bindings,
    }
}

/// The options for choosing one candidate: with a query, a single match is
/// taken at once.
pub fn one_options(query: Option<&str>) -> (options: PickerOptions)
    ensures
        options.height@ == PICKER_HEIGHT@,
        !options.multi,
        options.select_single == (query is Some),
        options.bindings@.len() == 0,
        match query {
            Some(given) => options.query is Some && options.query->0@ == given@,
            None => options.query is None,
        },
{
    PickerOptions {
        height: PICKER_HEIGHT,
        query: query_text(query),
        select_single: query.is_some(),
        multi: false,
        bindings: Vec::new(),
    }
}

/// What the picker answered: whether the user broke off, and the candidates
/// chosen.
pub struct PickerOutcome<T> {
    pub is_abort: bool,
    pub selected_items: Vec<T>,
}

/// Nothing was chosen.
#[derive(Clone, Copy, Debug, PartialEq, Eq)]
pub enum SelectionError {
    /// A choice of several came back empty.
    NoItemsSelected,
    /// A choice of one came back empty.
    NoItemSelected,
}

impl SelectionError {
    /// The error in words.
    pub fn message(&self) -> (text: String)
        ensures
            text@ == match *self {
                SelectionError::NoItemsSelected => "No items selected"@,
                SelectionError::NoItemSelected => "No item was selected"@,
            },
    {
        match self {
            SelectionError::NoItemsSelected => String::from_str("No items selected"),
            SelectionError::NoItemSelected => String::from_str("No item was selected"),
        }
    }
}

/// The candidates that count as chosen: those of an answer that was not
/// broken off; none where the picker gave no answer.
pub open spec fn chosen<T>(outcome: Option<PickerOutcome<T>>) -> Seq<T> {
    match outcome {
        Some(answer) => if answer.is_abort {
            Seq::empty()
        } else {
            answer.selected_items@
        },
        None => Seq::empty(),
    }
}

/// The chosen candidates of an answer.
pub fn skim_select<T>(outcome: Option<PickerOutcome<T>>) -> (items: Vec<T>)
    ensures
        items@ == chosen(outcome),
{
    match outcome {
        Some(answer) => if answer.is_abort {
            Vec::new()
        } else {
            answer.selected_items
        },
        None => Vec::new(),
    }
}

/// The chosen candidates, of which there must be at least one.
pub fn select_many<T>(outcome: Option<PickerOutcome<T>>) -> (picked: Result<Vec<T>, SelectionError>)
    ensures
        match picked {
            Ok(items) => items@ == chosen(outcome) && items@.len() > 0,
            Err(fault) => fault == SelectionError::NoItemsSelected && chosen(outcome).len() == 0,
        },
{
    let items = skim_select(outcome);
    if items.len() > 0 {
        Ok(items)
    } else {
        Err(SelectionError::NoItemsSelected)
    }
}

/// The first of the chosen candidates, of which there must be at least one.
pub fn select_one<T>(outcome: Option<PickerOutcome<T>>) -> (picked: Result<T, SelectionError>)
    ensures
        match picked {
            Ok(item) => chosen(outcome).len() > 0 && item == chosen(outcome)[0],
            Err(fault) => fault == SelectionError::NoItemSelected && chosen(outcome).len() == 0,
        },
{
    let mut items = skim_select(outcome);
    if items.len() > 0 {
        Ok(items.remove(0))
    } else {
        Err(SelectionError::NoItemSelected)
    }
}

} // verus!

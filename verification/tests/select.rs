use container_logs::select::{
    many_options, one_options, select_many, select_one, skim_select, PickerOutcome,
    SelectionError,
};

fn answer(is_abort: bool, items: &[&str]) -> Option<PickerOutcome<String>> {
    Some(PickerOutcome {
        is_abort,
        selected_items: items.iter().map(|item| item.to_string()).collect(),
    })
}

#[test]
fn chosen_items_are_those_of_an_answer_not_broken_off() {
    assert_eq!(skim_select(answer(false, &["a", "b"])), vec!["a", "b"]);
    assert_eq!(skim_select(answer(true, &["a", "b"])), Vec::<String>::new());
    assert_eq!(skim_select::<String>(None), Vec::<String>::new());
}

#[test]
fn select_one_takes_the_first() {
    assert_eq!(select_one(answer(false, &["web", "db"])), Ok("web".to_string()));
    assert_eq!(select_one(answer(false, &["only"])), Ok("only".to_string()));
}

#[test]
fn select_one_fails_without_a_choice() {
    assert_eq!(select_one(answer(false, &[])), Err(SelectionError::NoItemSelected));
    assert_eq!(select_one(answer(true, &["web"])), Err(SelectionError::NoItemSelected));
    assert_eq!(select_one::<String>(None), Err(SelectionError::NoItemSelected));
}

#[test]
fn select_many_takes_all() {
    assert_eq!(
        select_many(answer(false, &["web", "db"])),
        Ok(vec!["web".to_string(), "db".to_string()])
    );
}

#[test]
fn select_many_fails_without_a_choice() {
    assert_eq!(select_many(answer(false, &[])), Err(SelectionError::NoItemsSelected));
    assert_eq!(select_many(answer(true, &["web"])), Err(SelectionError::NoItemsSelected));
    assert_eq!(select_many::<String>(None), Err(SelectionError::NoItemsSelected));
}

#[test]
fn selection_errors_in_words() {
    assert_eq!(SelectionError::NoItemsSelected.message(), "No items selected");
    assert_eq!(SelectionError::NoItemSelected.message(), "No item was selected");
}

#[test]
fn options_for_one() {
    let options = one_options(Some("web"));
    assert_eq!(options.height, "20%");
    assert_eq!(options.query.as_deref(), Some("web"));
    assert!(options.select_single);
    assert!(!options.multi);
    assert!(options.bindings.is_empty());
    let options = one_options(None);
    assert_eq!(options.query, None);
    assert!(!options.select_single);
}

#[test]
fn options_for_many() {
    let options = many_options(None);
    assert_eq!(options.height, "20%");
    assert_eq!(options.query, None);
    assert!(!options.select_single);
    assert!(options.multi);
    assert_eq!(options.bindings, vec!["ctrl-a:beginning-of-line", "ctrl-e:end-of-line"]);
    assert!(many_options(Some("q")).select_single);
}

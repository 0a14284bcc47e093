use text_wrench::selection::{delete_operation, select_operation, selected_ids};

#[test]
fn selecting_an_operation_keeps_one_free_entry_at_the_end() {
    let mut selected = vec![0];
    select_operation(&mut selected, 0, 3, 0);
    assert_eq!(selected, vec![3, 0]);
    select_operation(&mut selected, 1, 5, 0);
    assert_eq!(selected, vec![3, 5, 0]);
    select_operation(&mut selected, 0, 4, 0);
    assert_eq!(selected, vec![4, 5, 0]);
}

#[test]
fn freeing_an_entry_drops_the_spare_entries_behind_it() {
    let mut selected = vec![3, 5, 0];
    select_operation(&mut selected, 1, 0, 0);
    assert_eq!(selected, vec![3, 0]);
    select_operation(&mut selected, 0, 0, 0);
    assert_eq!(selected, vec![0, 0]);
    let mut selected = vec![3, 0, 0, 0, 0];
    select_operation(&mut selected, 0, 2, 0);
    assert_eq!(selected, vec![2, 0]);
    let mut selected = vec![1, 2, 7, 7];
    select_operation(&mut selected, 1, 7, 7);
    assert_eq!(selected, vec![1, 7]);
    let mut selected = vec![0];
    select_operation(&mut selected, 0, 0, 0);
    assert_eq!(selected, vec![0]);
}

#[test]
fn deleting_frees_the_last_entry_and_takes_out_any_other() {
    let mut selected = vec![3, 5, 0];
    assert!(delete_operation(&mut selected, 0, 0));
    assert_eq!(selected, vec![5, 0]);
    assert!(delete_operation(&mut selected, 1, 0));
    assert_eq!(selected, vec![5, 0]);
    let mut selected = vec![4];
    assert!(delete_operation(&mut selected, 0, 9));
    assert_eq!(selected, vec![9]);
    assert!(!delete_operation(&mut selected, 1, 9));
    assert_eq!(selected, vec![9]);
    let mut selected: Vec<usize> = vec![];
    assert!(!delete_operation(&mut selected, 0, 9));
    assert_eq!(selected, Vec::<usize>::new());
}

#[test]
fn selected_ids_names_the_entries_in_order() {
    let ids = vec![String::from("NONE"), String::from("TO_HEX"), String::from("FROM_HEX")];
    assert_eq!(selected_ids(&vec![2, 1, 0, 1], &ids), vec!["FROM_HEX", "TO_HEX", "NONE", "TO_HEX"]);
    assert_eq!(selected_ids(&vec![], &ids), Vec::<String>::new());
}

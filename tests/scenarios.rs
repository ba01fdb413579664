use vec_historic::{take_values_from_action, Action, InsertData, MoveData, RemoveData, VecHistoric};

fn letters(s: &str) -> VecHistoric<char> {
    VecHistoric::from_vec(s.chars().collect())
}

fn contents(v: &VecHistoric<char>) -> String {
    v.get_inner_data().iter().collect()
}

fn sorted_selects(v: &VecHistoric<char>) -> Vec<usize> {
    let mut s = v.iter_selects();
    s.sort();
    s
}

#[test]
fn push_back_historic_then_undo() {
    let mut v = letters("ABC");
    v.push_back_historic('D');
    assert_eq!(contents(&v), "ABCD");
    assert_eq!(v.len_history(), 1);
    assert!(matches!(v.iter_history()[0], Action::PushBack));
    let undone = v.undo();
    assert_eq!(undone, vec!['D']);
    assert_eq!(contents(&v), "ABC");
    assert_eq!(v.len_history(), 0);
}

#[test]
fn remove_selected_historic_then_undo() {
    let mut v = letters("ABCDE");
    v.select(1);
    v.select(3);
    let removed: Vec<char> = v.remove_selects_historic().clone();
    assert_eq!(removed, vec!['B', 'D']);
    assert_eq!(contents(&v), "ACE");
    assert_eq!(v.len_selects(), 0);
    assert_eq!(v.len_history(), 1);
    match &v.iter_history()[0] {
        Action::Remove(d) => {
            assert_eq!(d.indecies, vec![1, 3]);
            assert_eq!(d.values, vec!['B', 'D']);
        }
        _ => panic!("expected a removal record"),
    }
    let undone = v.undo();
    assert!(undone.is_empty());
    assert_eq!(contents(&v), "ABCDE");
    assert_eq!(sorted_selects(&v), vec![1, 3]);
}

#[test]
fn move_selected_historic_to_one() {
    let mut v = letters("ABCD");
    v.push_back_historic('E');
    v.pop_back_historic();
    v.select(0);
    v.select(3);
    v.move_selects_historic(1);
    assert_eq!(contents(&v), "BADC");
    assert_eq!(sorted_selects(&v), vec![1, 2]);
    assert_eq!(v.len_history(), 1);
    match &v.iter_history()[0] {
        Action::Move(d) => {
            assert_eq!(d.dest_index, 1);
            assert_eq!(d.indecies, vec![0, 3]);
        }
        _ => panic!("expected a move record"),
    }
    let undone = v.undo();
    assert!(undone.is_empty());
    assert_eq!(contents(&v), "ABCD");
    assert_eq!(sorted_selects(&v), vec![0, 3]);
}

#[test]
fn undo_on_empty_collection() {
    let mut v: VecHistoric<char> = VecHistoric::new();
    let undone = v.undo();
    assert!(undone.is_empty());
    assert_eq!(v.len(), 0);
    assert_eq!(v.len_history(), 0);
    assert_eq!(v.len_selects(), 0);
}

#[test]
fn undo_with_empty_log_keeps_selection() {
    let mut v = letters("AB");
    v.select(1);
    assert!(v.undo().is_empty());
    assert_eq!(contents(&v), "AB");
    assert_eq!(sorted_selects(&v), vec![1]);
}

#[test]
fn selection_stays_below_length() {
    let mut v = letters("ABCDE");
    v.select_all();
    assert_eq!(v.len_selects(), 5);
    v.remove_selects_historic();
    assert_eq!(v.len(), 0);
    assert_eq!(v.len_selects(), 0);
    v.undo();
    assert_eq!(contents(&v), "ABCDE");
    assert!(v.iter_selects().iter().all(|&i| i < v.len()));
    v.pop_back_historic();
    assert_eq!(v.len_selects(), 0);
}

#[test]
fn undo_each_historic_operation() {
    let mut v = letters("ABC");
    v.push_front_historic('Z');
    assert_eq!(contents(&v), "ZABC");
    assert_eq!(v.undo(), vec!['Z']);
    assert_eq!(contents(&v), "ABC");

    assert_eq!(v.pop_back_historic(), Some(&'C'));
    assert_eq!(contents(&v), "AB");
    assert!(v.undo().is_empty());
    assert_eq!(contents(&v), "ABC");

    assert_eq!(v.pop_front_historic(), Some(&'A'));
    assert_eq!(contents(&v), "BC");
    assert!(v.undo().is_empty());
    assert_eq!(contents(&v), "ABC");

    v.insert_many_historic(1, vec!['X', 'Y']);
    assert_eq!(contents(&v), "AXYBC");
    assert_eq!(sorted_selects(&v), vec![1, 2]);
    assert_eq!(v.undo(), vec!['X', 'Y']);
    assert_eq!(contents(&v), "ABC");
    assert_eq!(v.len_selects(), 0);
}

#[test]
fn several_undos_in_turn() {
    let mut v = letters("ABC");
    v.push_back_historic('D');
    v.insert_historic(0, 'Q');
    v.deselect_all();
    v.select(2);
    v.remove_selects_historic();
    assert_eq!(contents(&v), "QACD");
    v.undo();
    assert_eq!(contents(&v), "QABCD");
    v.undo();
    assert_eq!(contents(&v), "ABCD");
    v.undo();
    assert_eq!(contents(&v), "ABC");
    assert!(v.undo().is_empty());
    assert_eq!(contents(&v), "ABC");
}

#[test]
fn insert_historic_round_trip() {
    let mut v = letters("ABC");
    v.insert_historic(2, 'X');
    assert_eq!(contents(&v), "ABXC");
    assert!(v.is_selected(2));
    assert_eq!(v.undo(), vec!['X']);
    assert_eq!(contents(&v), "ABC");
    assert!(!v.is_selected(2));
}

#[test]
fn pop_historic_on_empty() {
    let mut v: VecHistoric<char> = VecHistoric::new();
    assert_eq!(v.pop_back_historic(), None);
    assert_eq!(v.pop_front_historic(), None);
    assert_eq!(v.len_history(), 0);
}

#[test]
fn plain_mutators_clear_log_and_selection() {
    let mut v = letters("ABCDE");
    v.push_back_historic('F');
    v.select(0);
    assert_eq!(v.pop_back(), Some('F'));
    assert_eq!(v.len_history(), 0);
    assert_eq!(v.len_selects(), 0);

    v.push_back_historic('F');
    v.select(1);
    assert_eq!(v.pop_front(), Some('A'));
    assert_eq!((v.len_history(), v.len_selects()), (0, 0));

    v.push_back_historic('G');
    v.select(1);
    v.push_front('A');
    assert_eq!((v.len_history(), v.len_selects()), (0, 0));
    assert_eq!(contents(&v), "ABCDEFG");

    v.push_back_historic('H');
    v.select(1);
    v.insert(1, 'x');
    assert_eq!((v.len_history(), v.len_selects()), (0, 0));
    assert_eq!(contents(&v), "AxBCDEFGH");

    v.push_back_historic('I');
    v.select(1);
    assert_eq!(v.remove(1), 'x');
    assert_eq!((v.len_history(), v.len_selects()), (0, 0));

    v.push_back_historic('J');
    v.select(1);
    v.insert_many(2, vec!['y', 'z']);
    assert_eq!((v.len_history(), v.len_selects()), (0, 0));
    assert_eq!(contents(&v), "AByzCDEFGHIJ");

    v.push_back_historic('K');
    v.select(1);
    assert_eq!(v.drain(2, 4), vec!['y', 'z']);
    assert_eq!((v.len_history(), v.len_selects()), (0, 0));
    assert_eq!(contents(&v), "ABCDEFGHIJK");

    v.push_back_historic('L');
    v.select(1);
    v.clear();
    assert_eq!((v.len_history(), v.len_selects(), v.len()), (0, 0, 0));
    assert!(v.is_empty());
}

#[test]
fn plain_push_back_keeps_log_and_selection() {
    let mut v = letters("AB");
    v.push_back_historic('C');
    v.select(0);
    v.push_back('D');
    assert_eq!(v.len_history(), 1);
    assert!(v.is_selected(0));
    assert_eq!(contents(&v), "ABCD");
    assert_eq!(v.undo(), vec!['D']);
}

#[test]
fn clear_history_returns_owned_values_in_order() {
    let mut v = letters("ABCDE");
    v.pop_back_historic();
    v.push_back_historic('X');
    v.pop_front_historic();
    v.insert_historic(0, 'Y');
    v.deselect_all();
    v.select(1);
    v.select(2);
    v.remove_selects_historic();
    v.push_front_historic('Z');
    assert_eq!(v.len_history(), 6);
    let values = v.clear_history();
    assert_eq!(values, vec!['E', 'A', 'B', 'C']);
    assert_eq!(v.len_history(), 0);
    assert_eq!(contents(&v), "ZYDX");
}

#[test]
fn take_values_from_each_action() {
    assert_eq!(take_values_from_action(Action::PopBack(1)), vec![1]);
    assert_eq!(take_values_from_action(Action::PopFront(2)), vec![2]);
    let mut d: RemoveData<i32> = RemoveData::new(2);
    assert!(d.indecies.is_empty() && d.values.is_empty());
    d.indecies.push(0);
    d.values.push(7);
    assert_eq!(take_values_from_action(Action::Remove(d)), vec![7]);
    assert!(take_values_from_action::<i32>(Action::PushBack).is_empty());
    assert!(take_values_from_action::<i32>(Action::PushFront).is_empty());
    let ins = InsertData { index: 0, amount: 3 };
    assert!(take_values_from_action::<i32>(Action::Insert(ins)).is_empty());
    let mv = MoveData { dest_index: 0, indecies: vec![1] };
    assert!(take_values_from_action::<i32>(Action::Move(mv)).is_empty());
}

#[test]
fn remove_selects_plain_returns_descending() {
    let mut v = letters("ABCDE");
    v.push_back_historic('F');
    v.select(4);
    v.select(0);
    v.select(2);
    assert_eq!(v.remove_selects(), vec!['E', 'C', 'A']);
    assert_eq!(contents(&v), "BDF");
    assert_eq!((v.len_history(), v.len_selects()), (0, 0));
}

#[test]
fn move_selects_plain_to_end() {
    let mut v = letters("ABCDE");
    v.push_back_historic('F');
    v.select(0);
    v.select(1);
    v.move_selects(100);
    assert_eq!(contents(&v), "CDEFAB");
    assert_eq!(sorted_selects(&v), vec![4, 5]);
    assert_eq!(v.len_history(), 0);
}

#[test]
fn move_selected_historic_past_end_lands_at_end() {
    let mut v = letters("ABCD");
    v.select(0);
    v.select(1);
    v.move_selects_historic(3);
    assert_eq!(contents(&v), "CDAB");
    assert_eq!(sorted_selects(&v), vec![2, 3]);
    v.undo();
    assert_eq!(contents(&v), "ABCD");
    assert_eq!(sorted_selects(&v), vec![0, 1]);
    v.deselect_all();
    v.select(1);
    v.move_selects_historic(9);
    assert_eq!(contents(&v), "ACDB");
    v.undo();
    assert_eq!(contents(&v), "ABCD");
}

#[test]
fn move_with_nothing_selected() {
    let mut v = letters("ABC");
    v.move_selects_historic(1);
    assert_eq!(contents(&v), "ABC");
    assert_eq!(v.len_history(), 1);
    assert!(v.undo().is_empty());
    assert_eq!(contents(&v), "ABC");
}

#[test]
fn selection_set_operations() {
    let mut v = letters("ABCD");
    v.select(2);
    v.select(2);
    assert_eq!(v.len_selects(), 1);
    assert!(v.is_selected(2));
    assert!(!v.is_selected(1));
    v.select(0);
    let picked: Vec<char> = {
        let mut p: Vec<char> = v.get_selected().into_iter().copied().collect();
        p.sort();
        p
    };
    assert_eq!(picked, vec!['A', 'C']);
    assert!(v.deselect(2));
    assert!(!v.deselect(2));
    assert_eq!(sorted_selects(&v), vec![0]);
    v.deselect_all();
    assert_eq!(v.len_selects(), 0);
    v.select_all();
    assert_eq!(sorted_selects(&v), vec![0, 1, 2, 3]);
    v.clear_selects();
    assert!(v.iter_selects().is_empty());
}

#[test]
fn accessors_and_iteration() {
    let v = letters("ABC");
    assert_eq!(v.len(), 3);
    assert!(!v.is_empty());
    assert_eq!(*v.get(1), 'B');
    let mut it = v.into_iter();
    assert_eq!(it.size_hint(), (3, Some(3)));
    assert_eq!(it.next(), Some('A'));
    assert_eq!(it.next_back(), Some('C'));
    assert_eq!(it.next(), Some('B'));
    assert_eq!(it.next(), None);
    assert_eq!(it.next_back(), None);
    let w: VecHistoric<u8> = VecHistoric::with_capacity(8);
    assert!(w.is_empty());
}

#[test]
fn set_keeps_log_and_selection() {
    let mut v = letters("ABC");
    v.push_back_historic('D');
    v.select(1);
    v.set(1, 'x');
    assert_eq!(contents(&v), "AxCD");
    assert_eq!(v.len_history(), 1);
    assert!(v.is_selected(1));
    assert_eq!(v.undo(), vec!['D']);
    assert_eq!(contents(&v), "AxC");
}

#[test]
fn extend_appends_and_clears_log() {
    let mut v = letters("AB");
    v.pop_front_historic();
    v.select(0);
    v.extend(vec!['C', 'D']);
    assert_eq!(contents(&v), "BCD");
    assert_eq!(v.len_history(), 0);
    assert!(v.is_selected(0));
    assert!(v.undo().is_empty());
}

use habit_tracker::clock::DATE_RANGE_SECS;
use habit_tracker::grid::transpose;
use habit_tracker::model::{Class, Data, Entry, Timestamp, BLANK};
use habit_tracker::text::decimal_text;

fn at(secs: i64) -> Timestamp {
    Timestamp { secs, nanos: 0 }
}

fn class(name: &str, rows: &[(i64, u8)]) -> Class {
    Class {
        name: name.to_string(),
        entries: rows.iter().map(|&(secs, value)| Entry { stamp: at(secs), value }).collect(),
    }
}

#[test]
fn blank_is_the_largest_byte() {
    assert_eq!(BLANK, 255);
    assert_eq!(BLANK, u8::MAX);
}

#[test]
fn starting_grid_has_one_unset_row_in_default() {
    let stamp = Timestamp { secs: 1_700_000_000, nanos: 42 };
    let data = Data::starting_at(stamp);
    assert_eq!(data.classes.len(), 1);
    assert_eq!(data.classes[0].name, "default");
    assert_eq!(data.classes[0].entries, vec![Entry { stamp, value: 255 }]);
}

#[test]
fn new_grid_starts_at_the_present() {
    let data = Data::new();
    assert_eq!(data.classes.len(), 1);
    assert_eq!(data.classes[0].name, "default");
    assert_eq!(data.classes[0].entries.len(), 1);
    assert_eq!(data.classes[0].entries[0].value, BLANK);
    let stamp = data.classes[0].entries[0].stamp;
    assert!(stamp.secs > 1_600_000_000);
    assert!(stamp.secs < DATE_RANGE_SECS);
}

#[test]
fn naive_grid_keeps_values_and_drops_timestamps() {
    let data = Data {
        classes: vec![class("a", &[(1, 10), (2, 255)]), class("b", &[(1, 0), (2, 99), (3, 7)])],
    };
    assert_eq!(data.make_naive_grid(), vec![vec![10, 255], vec![0, 99, 7]]);
}

#[test]
fn naive_grid_of_nothing_is_empty() {
    let data = Data { classes: vec![] };
    assert_eq!(data.make_naive_grid(), Vec::<Vec<u8>>::new());
}

#[test]
fn transpose_turns_columns_into_rows() {
    let grid = vec![vec![1, 2, 3], vec![4, 5, 6]];
    assert_eq!(transpose(&grid), vec![vec![1, 4], vec![2, 5], vec![3, 6]]);
}

#[test]
fn transpose_drops_what_exceeds_the_first_line() {
    let grid = vec![vec![1, 2], vec![3, 4, 5]];
    assert_eq!(transpose(&grid), vec![vec![1, 3], vec![2, 4]]);
}

#[test]
fn transpose_of_empty_columns_has_no_rows() {
    let grid = vec![vec![], vec![9]];
    assert_eq!(transpose(&grid), Vec::<Vec<u8>>::new());
}

#[test]
fn transpose_twice_gives_the_grid_back() {
    let grid = vec![vec![1, 2, 3], vec![4, 5, 6], vec![7, 8, 9], vec![10, 11, 12]];
    assert_eq!(transpose(&transpose(&grid)), grid);
}

#[test]
fn set_changes_one_value_and_keeps_the_timestamp() {
    let mut data = Data { classes: vec![class("a", &[(1, 10), (2, 20)]), class("b", &[(1, 30), (2, 40)])] };
    data.set(1, 0, 77);
    assert_eq!(data.make_naive_grid(), vec![vec![10, 20], vec![77, 40]]);
    assert_eq!(data.classes[1].entries[0].stamp, at(1));
    assert_eq!(data.classes[1].name, "b");
}

#[test]
fn new_blank_class_copies_the_first_class_rows_unset() {
    let mut data = Data { classes: vec![class("a", &[(5, 10), (3, 20)]), class("b", &[(9, 1)])] };
    data.new_blank_class("c".to_string());
    assert_eq!(data.classes.len(), 3);
    assert_eq!(data.classes[2].name, "c");
    assert_eq!(
        data.classes[2].entries,
        vec![Entry { stamp: at(5), value: 255 }, Entry { stamp: at(3), value: 255 }]
    );
    assert_eq!(data.make_naive_grid()[0], vec![10, 20]);
    assert_eq!(data.make_naive_grid()[1], vec![1]);
}

#[test]
fn rename_changes_every_class_of_that_name_and_no_other() {
    let mut data = Data {
        classes: vec![class("run", &[(1, 1)]), class("read", &[(1, 2)]), class("run", &[(1, 3)])],
    };
    data.rename(&"run".to_string(), &"walk".to_string());
    let names: Vec<&str> = data.classes.iter().map(|c| c.name.as_str()).collect();
    assert_eq!(names, vec!["walk", "read", "walk"]);
    assert_eq!(data.make_naive_grid(), vec![vec![1], vec![2], vec![3]]);
}

#[test]
fn rename_of_an_unknown_name_changes_nothing() {
    let mut data = Data { classes: vec![class("run", &[(1, 1)])] };
    data.rename(&"swim".to_string(), &"walk".to_string());
    assert_eq!(data.classes[0].name, "run");
}

#[test]
fn decimal_text_of_small_and_large_numbers() {
    assert_eq!(decimal_text(0), "0");
    assert_eq!(decimal_text(7), "7");
    assert_eq!(decimal_text(10), "10");
    assert_eq!(decimal_text(95), "95");
    assert_eq!(decimal_text(254), "254");
    assert_eq!(decimal_text(1_203_400), "1203400");
    assert_eq!(decimal_text(usize::MAX), usize::MAX.to_string());
}

use rbd::store::{add_to_index, remove_from_index, sorted_names};

fn names(v: &[&str]) -> Vec<String> {
    v.iter().map(|s| s.to_string()).collect()
}

#[test]
fn adding_a_name_sorts_the_index() {
    let index = names(&["work", "alt"]);
    assert_eq!(add_to_index(&index, "default"), Some(names(&["alt", "default", "work"])));
    assert_eq!(add_to_index(&index, "work"), None);
    assert_eq!(add_to_index(&vec![], "x"), Some(names(&["x"])));
}

#[test]
fn removing_a_name_keeps_the_others_in_order() {
    let index = names(&["b", "a", "b", "c"]);
    assert_eq!(remove_from_index(&index, "b"), names(&["a", "c"]));
    assert_eq!(remove_from_index(&index, "zz"), index);
}

#[test]
fn names_sort_by_code_point() {
    assert_eq!(sorted_names(&names(&["b", "B", "ab", "a", "é"])), names(&["B", "a", "ab", "b", "é"]));
}

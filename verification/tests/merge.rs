//! The positional AND-merge engine on plain per-condition position lists.

use nested_filtering::nested_filter::merge_nested_matching_indices;

#[test]
fn zero_matching_merge_nested_matching_indices() {
    let matching_indices: Vec<Vec<usize>> = vec![vec![], vec![], vec![]];
    let merged = merge_nested_matching_indices(&matching_indices);
    // none of the conditions are matching anything
    let result: bool = merged;
    assert!(!result);
}

#[test]
fn single_matching_merge_merge_nested_matching_indices() {
    let matching_indices: Vec<Vec<usize>> = vec![vec![0], vec![0], vec![0]];
    let merged = merge_nested_matching_indices(&matching_indices);
    let result: bool = merged;
    assert!(result);
}

#[test]
fn single_non_matching_merge_nested_matching_indices() {
    let matching_indices: Vec<Vec<usize>> = vec![vec![0], vec![0], vec![1]];
    let merged = merge_nested_matching_indices(&matching_indices);
    // does not match because the checkers do not share a position
    let result: bool = merged;
    assert!(!result);
}

#[test]
fn many_matching_merge_nested_matching_indices() {
    let matching_indices: Vec<Vec<usize>> = vec![vec![0, 1], vec![0, 1], vec![0]];
    let merged = merge_nested_matching_indices(&matching_indices);
    // still matching because position 0 matches all conditions
    let result: bool = merged;
    assert!(result);
}

#[test]
fn merge_no_conditions_is_vacuously_true() {
    let matching_indices: Vec<Vec<usize>> = vec![];
    assert!(merge_nested_matching_indices(&matching_indices));
}

#[test]
fn merge_cross_condition_position_correlation() {
    // condition A matches positions {0, 1}, condition B matches {0}:
    // the intersection {0} is nonempty, so the point matches
    let overlapping: Vec<Vec<usize>> = vec![vec![0, 1], vec![0]];
    assert!(merge_nested_matching_indices(&overlapping));

    // with B matching {2} instead the intersection is empty
    let disjoint: Vec<Vec<usize>> = vec![vec![0, 1], vec![2]];
    assert!(!merge_nested_matching_indices(&disjoint));
}

#[test]
fn merge_one_empty_set_forces_no_match() {
    let matching_indices: Vec<Vec<usize>> = vec![vec![0, 1, 2], vec![], vec![1, 2]];
    assert!(!merge_nested_matching_indices(&matching_indices));
}

#[test]
fn merge_intersection_not_at_position_zero() {
    let matching_indices: Vec<Vec<usize>> = vec![vec![1, 3], vec![2, 3], vec![3, 4]];
    assert!(merge_nested_matching_indices(&matching_indices));
}

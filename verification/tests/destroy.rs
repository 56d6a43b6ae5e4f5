use tree_pool::destroy::{
    destroy_all_start, destroy_all_tree, destroy_one_step, AllStart, OneStep, TreeAction,
};

#[test]
fn single_destroy_needs_a_tree_of_the_pool() {
    assert!(matches!(destroy_one_step(false, false, None, None, None), OneStep::NoPath));
    assert!(matches!(destroy_one_step(true, false, None, None, None), OneStep::NoPath));
    assert!(matches!(destroy_one_step(false, true, None, None, None), OneStep::Lookup));
    assert!(matches!(destroy_one_step(false, true, Some(false), None, None), OneStep::NotATree));
}

#[test]
fn single_destroy_without_force_checks_and_asks() {
    let f = Some(true);
    assert!(matches!(destroy_one_step(false, true, f, None, None), OneStep::CheckInUse));
    assert!(matches!(destroy_one_step(false, true, f, Some(true), None), OneStep::InUse));
    assert!(matches!(destroy_one_step(false, true, f, Some(false), None), OneStep::Confirm));
    assert!(matches!(
        destroy_one_step(false, true, f, Some(false), Some(false)),
        OneStep::Declined
    ));
    assert!(matches!(
        destroy_one_step(false, true, f, Some(false), Some(true)),
        OneStep::Destroy
    ));
}

#[test]
fn single_destroy_with_force_goes_at_once() {
    assert!(matches!(destroy_one_step(true, true, Some(true), None, None), OneStep::Destroy));
}

#[test]
fn destroy_all_start_cases() {
    assert!(matches!(destroy_all_start(false, 0, None), AllStart::NothingToDo));
    assert!(matches!(destroy_all_start(true, 0, None), AllStart::NothingToDo));
    assert!(matches!(destroy_all_start(false, 2, None), AllStart::Confirm));
    assert!(matches!(destroy_all_start(false, 2, Some(false)), AllStart::Declined));
    assert!(matches!(destroy_all_start(false, 2, Some(true)), AllStart::Proceed));
    assert!(matches!(destroy_all_start(true, 2, None), AllStart::Proceed));
}

#[test]
fn destroy_all_skips_trees_in_use() {
    assert!(matches!(destroy_all_tree(false, None), TreeAction::CheckInUse));
    assert!(matches!(destroy_all_tree(false, Some(true)), TreeAction::Skip));
    assert!(matches!(destroy_all_tree(false, Some(false)), TreeAction::Destroy));
    assert!(matches!(destroy_all_tree(true, None), TreeAction::Destroy));
}

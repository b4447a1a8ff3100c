use cosmic_sim::travel::take_due_milestones;

#[test]
fn nothing_due_before_the_first_threshold() {
    assert_eq!(take_due_milestones(0, 0), (vec![], 0));
}

#[test]
fn milestones_are_announced_in_order() {
    let (due, shown) = take_due_milestones(2, 0);
    assert_eq!(due, vec![0, 1]);
    assert_eq!(shown, 0b011);
    let (due, shown) = take_due_milestones(3, shown);
    assert_eq!(due, vec![2]);
    assert_eq!(shown, 0b111);
}

#[test]
fn each_milestone_is_announced_once() {
    let (due, shown) = take_due_milestones(1, 0);
    assert_eq!(due, vec![0]);
    let (due, shown) = take_due_milestones(1, shown);
    assert!(due.is_empty());
    let (due, _) = take_due_milestones(3, shown);
    assert_eq!(due, vec![1, 2]);
}

#[test]
fn other_bits_of_the_mask_are_kept() {
    let (due, shown) = take_due_milestones(3, 0b1010_0010);
    assert_eq!(due, vec![0, 2]);
    assert_eq!(shown, 0b1010_0111);
}

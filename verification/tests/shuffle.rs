use amberol::shuffle::ShuffleListModel;

fn order(model: &ShuffleListModel, n: u32) -> Vec<u32> {
    (0..n).map(|pos| model.item(pos)).collect()
}

fn is_permutation(shown: &[u32]) -> bool {
    let mut sorted = shown.to_vec();
    sorted.sort();
    sorted == (0..shown.len() as u32).collect::<Vec<u32>>()
}

#[test]
fn unshuffled_model_shows_natural_order() {
    let model = ShuffleListModel::default();
    assert!(!model.shuffled());
    assert_eq!(order(&model, 4), vec![0, 1, 2, 3]);
}

#[test]
fn anchor_first_keeps_the_first_position() {
    for _ in 0..20 {
        let mut model = ShuffleListModel::new();
        model.reshuffle(8, 0);
        assert!(model.shuffled());
        let shown = order(&model, 8);
        assert_eq!(shown[0], 0);
        assert!(is_permutation(&shown));
    }
}

#[test]
fn anchor_last_keeps_the_last_position() {
    for _ in 0..20 {
        let mut model = ShuffleListModel::new();
        model.reshuffle(8, 7);
        let shown = order(&model, 8);
        assert_eq!(shown[7], 7);
        assert!(is_permutation(&shown));
    }
}

#[test]
fn anchor_inside_keeps_the_head_in_order() {
    for _ in 0..20 {
        let mut model = ShuffleListModel::new();
        model.reshuffle(9, 4);
        let shown = order(&model, 9);
        assert_eq!(shown[..5], [0, 1, 2, 3, 4]);
        assert!(is_permutation(&shown));
    }
}

#[test]
fn shuffle_really_shuffles() {
    let mut seen_other_order = false;
    for _ in 0..50 {
        let mut model = ShuffleListModel::new();
        model.reshuffle(10, 0);
        if order(&model, 10) != (0..10).collect::<Vec<u32>>() {
            seen_other_order = true;
        }
    }
    assert!(seen_other_order);
}

#[test]
fn small_lists() {
    let mut model = ShuffleListModel::new();
    model.reshuffle(0, 0);
    assert!(model.shuffled());
    assert_eq!(model.item(0), 0);
    model.reshuffle(1, 0);
    assert_eq!(order(&model, 1), vec![0]);
    model.reshuffle(2, 1);
    assert_eq!(order(&model, 2), vec![0, 1]);
    model.reshuffle(2, 0);
    assert_eq!(order(&model, 2), vec![0, 1]);
    assert_eq!(model.item(5), 5);
    model.unshuffle();
    assert!(!model.shuffled());
}

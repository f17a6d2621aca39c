use lightborne::progress::{on_end_marker, on_start_marker, LevelState};

fn levels() -> Vec<LevelState> {
    vec![
        LevelState { level_iid: "a".to_string(), locked: false, complete: false },
        LevelState { level_iid: "b".to_string(), locked: true, complete: false },
        LevelState { level_iid: "c".to_string(), locked: true, complete: false },
    ]
}

#[test]
fn finishing_a_level_unlocks_the_next() {
    let mut in_progress = String::new();
    let current = "a".to_string();
    on_start_marker(&mut in_progress, &current);
    assert_eq!(in_progress, "a");
    let mut ls = levels();
    assert!(on_end_marker(&in_progress, &current, &mut ls));
    assert!(ls[0].complete && !ls[1].locked);
    assert!(ls[2].locked && !ls[1].complete);
}

#[test]
fn end_marker_without_start_does_nothing() {
    let mut ls = levels();
    assert!(!on_end_marker(&"b".to_string(), &"a".to_string(), &mut ls));
    assert!(!ls[0].complete && ls[1].locked);
}

#[test]
fn last_level_completes_without_save() {
    let mut ls = levels();
    let c = "c".to_string();
    assert!(!on_end_marker(&c, &c, &mut ls));
    assert!(ls[2].complete);
    assert!(ls[1].locked);
    let unknown = "zz".to_string();
    let mut ls2 = levels();
    assert!(!on_end_marker(&unknown, &unknown, &mut ls2));
    assert!(!ls2.iter().any(|l| l.complete));
}

use lightborne::dialogue::{DialogueRes, TypewriterAction};

#[test]
fn typewriter_reveals_shows_and_finishes() {
    let mut d = DialogueRes::new();
    assert_eq!(d.step(true, true), TypewriterAction::Wait);
    assert!(d.start(vec![3, 2]));
    assert!(!d.start(vec![1]));
    assert_eq!(d.step(false, false), TypewriterAction::Wait);
    assert_eq!(d.step(false, true), TypewriterAction::RevealNext);
    assert_eq!(d.shown, 1);
    assert_eq!(d.step(true, false), TypewriterAction::ShowFull);
    assert_eq!(d.shown, 3);
    assert_eq!(d.step(false, true), TypewriterAction::Wait);
    assert_eq!(d.step(true, false), TypewriterAction::NextLine);
    assert_eq!((d.index, d.shown), (1, 0));
    assert_eq!(d.step(false, true), TypewriterAction::RevealNext);
    assert_eq!(d.step(false, true), TypewriterAction::RevealNext);
    assert_eq!(d.step(true, true), TypewriterAction::Finish);
    assert!(d.line_lens.is_none());
    assert!(d.start(vec![1]));
}

use lightborne::egg::{EggChime, EGG_SOUNDS};

#[test]
fn chime_plays_on_first_touch_only() {
    let mut egg = EggChime::new();
    assert_eq!(egg.contact(false, 1), None);
    assert_eq!(egg.contact(true, 2), Some(2));
    assert_eq!(egg.contact(true, 0), None);
    assert_eq!(egg.contact(false, 0), None);
    assert_eq!(egg.contact(true, 1), Some(1));
}

#[test]
fn random_chime_is_one_of_the_sounds() {
    for _ in 0..200 {
        let mut egg = EggChime::new();
        let sound = egg.on_egg(true).expect("touching the egg chimes");
        assert!(sound < EGG_SOUNDS);
        assert_eq!(egg.on_egg(true), None);
        assert_eq!(egg.on_egg(false), None);
    }
}

#[test]
fn random_chimes_vary() {
    let mut seen = [false; 3];
    for _ in 0..300 {
        let mut egg = EggChime::new();
        seen[egg.on_egg(true).unwrap()] = true;
    }
    assert!(seen.iter().filter(|s| **s).count() >= 2);
}

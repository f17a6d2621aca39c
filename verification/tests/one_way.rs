use lightborne::one_way::{decide_contact, ContactDecision, OneWayPlatform, PassThroughOneWayPlatform};

#[test]
fn intersecting_set_adds_and_removes() {
    let mut p = OneWayPlatform::new();
    assert!(!p.contains(3));
    p.add(3);
    p.add(3);
    p.add(5);
    assert!(p.contains(3) && p.contains(5));
    assert_eq!(p.intersecting.len(), 2);
    p.remove(3);
    assert!(!p.contains(3));
    assert!(p.contains(5));
    p.remove(9);
    assert_eq!(p.intersecting, vec![5]);
}

#[test]
fn contact_rules() {
    let mut p = OneWayPlatform::new();
    assert_eq!(
        decide_contact(&p, 1, false, Some(PassThroughOneWayPlatform::ByNormal), true),
        ContactDecision { accept: true, forget: false, remember: false }
    );
    assert_eq!(
        decide_contact(&p, 1, false, Some(PassThroughOneWayPlatform::ByNormal), false),
        ContactDecision { accept: false, forget: false, remember: true }
    );
    assert_eq!(
        decide_contact(&p, 1, true, Some(PassThroughOneWayPlatform::Always), true),
        ContactDecision { accept: false, forget: false, remember: true }
    );
    assert_eq!(
        decide_contact(&p, 1, true, Some(PassThroughOneWayPlatform::Never), false),
        ContactDecision { accept: true, forget: false, remember: false }
    );
    assert_eq!(decide_contact(&p, 1, false, None, false), ContactDecision { accept: true, forget: false, remember: false });
    p.add(1);
    assert_eq!(
        decide_contact(&p, 1, true, Some(PassThroughOneWayPlatform::Never), true),
        ContactDecision { accept: false, forget: false, remember: false }
    );
    assert_eq!(
        decide_contact(&p, 1, false, Some(PassThroughOneWayPlatform::ByNormal), true),
        ContactDecision { accept: true, forget: true, remember: false }
    );
}

use lightborne::color::LightColor;
use lightborne::crystal::CrystalColor;
use lightborne::platform::PlatformState;
use lightborne::sensor::{LightSensor, SensorToggle};

fn ident() -> CrystalColor {
    CrystalColor { color: LightColor::White, id: 2 }
}

#[test]
fn platform_id_defaults_to_minus_one() {
    assert_eq!(LightSensor::from_fields(ident(), None).platform_id, -1);
    assert_eq!(LightSensor::from_fields(ident(), Some(4)).platform_id, 4);
}

#[test]
fn hits_are_tracked_per_color() {
    let mut s = LightSensor::new(ident(), 3);
    assert!(!s.is_hit());
    s.set_hit(LightColor::Blue, true);
    s.set_hit(LightColor::Green, true);
    assert!(s.is_hit());
    assert_eq!(s.hit_colors(), vec![LightColor::Green, LightColor::Blue]);
    s.set_hit(LightColor::Blue, false);
    assert_eq!(s.hit_colors(), vec![LightColor::Green]);
    s.reset();
    assert!(!s.is_hit());
    assert!(!s.is_active);
}

#[test]
fn meter_crossings_toggle_once() {
    let mut s = LightSensor::new(ident(), 3);
    s.set_hit(LightColor::Purple, true);
    assert_eq!(s.on_meter(false, false), None);
    assert_eq!(
        s.on_meter(true, false),
        Some(SensorToggle { crystals: ident(), platform_id: 3, platform_state: PlatformState::Play })
    );
    assert!(s.is_active);
    assert_eq!(s.on_meter(true, false), None);
    s.set_hit(LightColor::Purple, false);
    assert_eq!(
        s.on_meter(false, true),
        Some(SensorToggle { crystals: ident(), platform_id: 3, platform_state: PlatformState::Pause })
    );
    assert!(!s.is_active);
    assert_eq!(s.on_meter(false, true), None);
}

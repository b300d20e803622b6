use esp32s3_farmstick::joystick::{sample_passes, AxisConfig, JoystickConfig, SampleAccumulator};

#[test]
fn default_axis_config() {
    let c = AxisConfig::default();
    assert_eq!(c, AxisConfig { min_mv: 0, center_mv: 1550, max_mv: 3100, deadzone_mv: 80, invert: false });
    let j = JoystickConfig::default();
    assert_eq!(j.x, c);
    assert_eq!(j.y, c);
    assert_eq!(j.z, c);
}

#[test]
fn deflection_in_deadzone() {
    let c = AxisConfig::default();
    assert_eq!(c.deflection(1550), None);
    assert_eq!(c.deflection(1630), None);
    assert_eq!(c.deflection(1470), None);
}

#[test]
fn deflection_outside_deadzone() {
    let c = AxisConfig::default();
    assert_eq!(c.deflection(1631), Some((1, 1470)));
    assert_eq!(c.deflection(3100), Some((1470, 1470)));
    assert_eq!(c.deflection(1469), Some((-1, 1470)));
    assert_eq!(c.deflection(0), Some((-1470, 1470)));
    assert_eq!(c.deflection(4000), Some((2370, 1470)));
}

#[test]
fn deflection_span_at_least_one() {
    let c = AxisConfig { min_mv: 1000, center_mv: 1000, max_mv: 1000, deadzone_mv: 10, invert: true };
    assert_eq!(c.deflection(1100), Some((90, 1)));
    assert_eq!(c.deflection(900), Some((-90, 1)));
}

#[test]
fn sample_passes_at_least_one() {
    assert_eq!(sample_passes(0), 1);
    assert_eq!(sample_passes(1), 1);
    assert_eq!(sample_passes(64), 64);
}

#[test]
fn average_rounds_down() {
    let mut a = SampleAccumulator::new();
    assert_eq!(a.len(), 0);
    assert!(a.can_push(1, 2, 3));
    a.push(1, 10, 65535);
    a.push(2, 10, 65535);
    assert_eq!(a.len(), 2);
    assert_eq!(a.average(), (1, 10, 65535));
    a.push(4, 11, 0);
    assert_eq!(a.average(), (2, 10, 43690));
}

#[test]
fn calibrate_center_sets_means() {
    let mut a = SampleAccumulator::new();
    a.push(1500, 1600, 1700);
    a.push(1510, 1600, 1690);
    let mut cfg = JoystickConfig::default();
    cfg.calibrate_center(&a);
    assert_eq!(cfg.x.center_mv, 1505);
    assert_eq!(cfg.y.center_mv, 1600);
    assert_eq!(cfg.z.center_mv, 1695);
    assert_eq!(cfg.x.deadzone_mv, 80);
    assert_eq!(cfg.x.max_mv, 3100);
}

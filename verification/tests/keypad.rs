use esp32s3_farmstick::matrix::{DiodeDirection, KeyEvent, MatrixKeypad4x4, DEFAULT_KEY_MAP};

fn only_pressed(row: usize, col: usize, pressed_high: bool) -> [[bool; 4]; 4] {
    let mut levels = [[!pressed_high; 4]; 4];
    levels[row][col] = pressed_high;
    levels
}

#[test]
fn scan_raw_active_low() {
    let k = MatrixKeypad4x4::new();
    assert_eq!(k.diode_direction, DiodeDirection::ColToRow);
    assert_eq!(k.scan_raw([[true; 4]; 4]), 0);
    assert_eq!(k.scan_raw([[false; 4]; 4]), 0xFFFF);
    assert_eq!(k.scan_raw(only_pressed(2, 1, false)), 1 << 9);
}

#[test]
fn scan_raw_active_high() {
    let k = MatrixKeypad4x4::with_diode_direction(DiodeDirection::RowToCol);
    assert_eq!(k.scan_raw([[false; 4]; 4]), 0);
    assert_eq!(k.scan_raw(only_pressed(3, 3, true)), 1 << 15);
    assert_eq!(k.scan_raw(only_pressed(0, 0, true)), 1);
}

#[test]
fn diode_direction_levels() {
    assert!(!DiodeDirection::ColToRow.active_row_high());
    assert!(DiodeDirection::ColToRow.idle_row_high());
    assert!(DiodeDirection::ColToRow.column_pull_up());
    assert!(DiodeDirection::ColToRow.column_reads_pressed(false));
    assert!(DiodeDirection::RowToCol.active_row_high());
    assert!(!DiodeDirection::RowToCol.idle_row_high());
    assert!(!DiodeDirection::RowToCol.column_pull_up());
    assert!(DiodeDirection::RowToCol.column_reads_pressed(true));
}

#[test]
fn press_needs_two_scans() {
    let mut k = MatrixKeypad4x4::new();
    let first = k.update(1 << 5);
    assert_eq!(first.len(), 0);
    assert_eq!(k.debounced_state(), 0);
    let second = k.update(1 << 5);
    assert_eq!(second.len(), 1);
    assert_eq!(second[0], KeyEvent::Pressed { row: 1, col: 1, key: '5', index: 5 });
    assert_eq!(k.debounced_state(), 1 << 5);
    assert!(k.is_pressed(1, 1));
    assert!(k.is_key_pressed('5'));
    assert!(!k.is_key_pressed('6'));
}

#[test]
fn release_needs_two_scans() {
    let mut k = MatrixKeypad4x4::new();
    k.update(1 << 15);
    k.update(1 << 15);
    assert!(k.is_pressed(3, 3));
    assert_eq!(k.update(0).len(), 0);
    let ev = k.update(0);
    assert_eq!(ev.len(), 1);
    assert_eq!(ev[0], KeyEvent::Released { row: 3, col: 3, key: 'D', index: 15 });
    assert_eq!(k.debounced_state(), 0);
}

#[test]
fn glitch_is_filtered() {
    let mut k = MatrixKeypad4x4::new();
    assert_eq!(k.update(1).len(), 0);
    assert_eq!(k.update(0).len(), 0);
    assert_eq!(k.update(1).len(), 0);
    assert_eq!(k.debounced_state(), 0);
}

#[test]
fn events_in_key_order() {
    let mut k = MatrixKeypad4x4::new();
    k.update(0b1000_0000_0000_0011);
    let ev = k.update(0b1000_0000_0000_0011);
    assert_eq!(ev.len(), 3);
    assert_eq!(ev[0], KeyEvent::Pressed { row: 0, col: 0, key: '1', index: 0 });
    assert_eq!(ev[1], KeyEvent::Pressed { row: 0, col: 1, key: '2', index: 1 });
    assert_eq!(ev[2], KeyEvent::Pressed { row: 3, col: 3, key: 'D', index: 15 });
}

#[test]
fn all_keys_at_once() {
    let mut k = MatrixKeypad4x4::new();
    k.set_debounce_threshold(1);
    let ev = k.update(0xFFFF);
    assert_eq!(ev.len(), 16);
    assert_eq!(ev[15], KeyEvent::Pressed { row: 3, col: 3, key: 'D', index: 15 });
    assert_eq!(k.debounced_state(), 0xFFFF);
}

#[test]
fn threshold_zero_counts_as_one() {
    let mut k = MatrixKeypad4x4::new();
    k.set_debounce_threshold(0);
    let ev = k.update(1 << 3);
    assert_eq!(ev.len(), 1);
    assert_eq!(ev[0], KeyEvent::Pressed { row: 0, col: 3, key: 'A', index: 3 });
}

#[test]
fn threshold_three() {
    let mut k = MatrixKeypad4x4::new();
    k.set_debounce_threshold(3);
    assert_eq!(k.update(1).len(), 0);
    assert_eq!(k.update(1).len(), 0);
    assert_eq!(k.update(1).len(), 1);
}

#[test]
fn is_pressed_outside_matrix() {
    let mut k = MatrixKeypad4x4::new();
    k.set_debounce_threshold(1);
    k.update(0xFFFF);
    assert!(k.is_pressed(3, 0));
    assert!(!k.is_pressed(4, 0));
    assert!(!k.is_pressed(0, 4));
}

#[test]
fn custom_keymap() {
    let mut k = MatrixKeypad4x4::new();
    assert_eq!(k.keymap, DEFAULT_KEY_MAP);
    let mut map = DEFAULT_KEY_MAP;
    map[0][0] = 'x';
    map[2][2] = 'x';
    k.set_keymap(map);
    k.set_debounce_threshold(1);
    let ev = k.update(1 << 10);
    assert_eq!(ev[0], KeyEvent::Pressed { row: 2, col: 2, key: 'x', index: 10 });
    // a held key with the label counts, wherever it sits
    assert!(k.is_key_pressed('x'));
    assert!(!k.is_pressed(0, 0));
    assert!(!k.is_key_pressed('?'));
}

#[test]
fn interrupted_run_starts_counting_again() {
    let mut k = MatrixKeypad4x4::new();
    k.set_debounce_threshold(3);
    assert_eq!(k.update(1).len(), 0);
    assert_eq!(k.update(1).len(), 0);
    assert_eq!(k.update(0).len(), 0);
    assert_eq!(k.update(1).len(), 0);
    assert_eq!(k.update(1).len(), 0);
    assert_eq!(k.debounced_state(), 0);
    assert_eq!(k.update(1).len(), 1);
    assert_eq!(k.debounced_state(), 1);
}

#[test]
fn same_scans_settle() {
    let mut k = MatrixKeypad4x4::new();
    k.set_debounce_threshold(3);
    k.update(0b11);
    k.update(0b01);
    for _ in 0..3 {
        k.update(0b10);
    }
    assert_eq!(k.debounced_state(), 0b10);
    assert_eq!(k.update(0b10).len(), 0);
    assert_eq!(k.debounced_state(), 0b10);
}

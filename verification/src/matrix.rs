//! Debounced 4x4 key matrix: scan decoding, per-key debouncing and
//! press/release events.

use vstd::prelude::*;

verus! {

/// Standard 4x4 keypad key mapping (row-major).
pub const DEFAULT_KEY_MAP: [[char; 4]; 4] = [
    ['1', '2', '3', 'A'],
    ['4', '5', '6', 'B'],
    ['7', '8', '9', 'C'],
    ['*', '0', '#', 'D'],
];

/// A key event representing a key press or release.
#[derive(Debug, Clone, Copy, PartialEq, Eq, Structural)]
pub enum KeyEvent {
    /// The key at `row`, `col` (key map label `key`, key index
    /// `4 * row + col`) went down.
    Pressed { row: u8, col: u8, key: char, index: u8 },
    /// The key went up.
    Released { row: u8, col: u8, key: char, index: u8 },
}

/// `heapless::Vec`, the fixed-capacity vector that carries a scan's key
/// events; Verus sees nothing inside it.
#[verifier::external_type_specification]
#[verifier::external_body]
#[verifier::reject_recursive_types(T)]
pub struct ExHeaplessVec<T, const N: usize>(heapless::Vec<T, N>);

/// The events that a `heapless::Vec<KeyEvent, 16>` holds, in order.
pub uninterp spec fn key_event_list(v: heapless::Vec<KeyEvent, 16>) -> Seq<KeyEvent>;

/// Calls `heapless::Vec::new`; trusted to return a vector that holds no
/// event.
#[verifier::external_body]
fn new_event_list() -> (v: heapless::Vec<KeyEvent, 16>)
    ensures
        key_event_list(v) == Seq::<KeyEvent>::empty(),
{
    heapless::Vec::new()
}

/// Calls `heapless::Vec::push`; trusted to append `e` and return `Ok` when
/// fewer than 16 events (the capacity) are held, and otherwise to leave the
/// vector as it was and hand `e` back in `Err`.
#[verifier::external_body]
fn push_event(v: &mut heapless::Vec<KeyEvent, 16>, e: KeyEvent) -> (r: Result<(), KeyEvent>)
    ensures
        r is Ok <==> key_event_list(*old(v)).len() < 16,
        r is Ok ==> key_event_list(*final(v)) == key_event_list(*old(v)).push(e),
        r is Err ==> key_event_list(*final(v)) == key_event_list(*old(v)) && r->Err_0 == e,
{
    v.push(e)
}

/// Diode orientation in the matrix.
#[derive(Debug, Clone, Copy, PartialEq, Eq, Structural)]
pub enum DiodeDirection {
    /// Cathode towards the row (column -> row): columns pulled up (idle
    /// high), the scanned row is driven low, a pressed key pulls its column
    /// low.
    ColToRow,
    /// Cathode towards the column (row -> column): columns pulled down (idle
    /// low), the scanned row is driven high, a pressed key pulls its column
    /// high.
    RowToCol,
}

impl DiodeDirection {
    /// Whether the scanned row is driven high (otherwise low).
    pub open spec fn spec_active_high(self) -> bool {
        self == DiodeDirection::RowToCol
    }

    /// The level a row is driven to while it is being scanned: low for
    /// `ColToRow`, high for `RowToCol`.
    pub fn active_row_high(&self) -> (r: bool)
        ensures
            r == self.spec_active_high(),
    {
        match self {
            DiodeDirection::ColToRow => false,
            DiodeDirection::RowToCol => true,
        }
    }

    /// The level a row rests at between scans (the opposite of the active
    /// level): high for `ColToRow`, low for `RowToCol`.
    pub fn idle_row_high(&self) -> (r: bool)
        ensures
            r == !self.spec_active_high(),
    {
        match self {
            DiodeDirection::ColToRow => true,
            DiodeDirection::RowToCol => false,
        }
    }

    /// Whether the column inputs use the internal pull-up (otherwise the
    /// pull-down): pull-up for `ColToRow`, pull-down for `RowToCol`.
    pub fn column_pull_up(&self) -> (r: bool)
        ensures
            r == !self.spec_active_high(),
    {
        match self {
            DiodeDirection::ColToRow => true,
            DiodeDirection::RowToCol => false,
        }
    }

    /// Whether a column read at the given level while its row is driven
    /// means that the key is pressed: the column follows the driven row.
    pub fn column_reads_pressed(&self, column_high: bool) -> (r: bool)
        ensures
            r == (column_high == self.spec_active_high()),
    {
        match self {
            DiodeDirection::ColToRow => !column_high,
            DiodeDirection::RowToCol => column_high,
        }
    }
}

/// Whether bit `i` of a 16-key state is set.
pub open spec fn key_bit(state: u16, i: int) -> bool {
    (state >> (i as u16)) & 1u16 == 1u16
}

/// The one-bit mask of key `k`.
proof fn lemma_mask_bit(d: u16, k: u16)
    requires
        k < 16,
    ensures
        ((d & (1u16 << k)) != 0u16) == ((d >> k) & 1u16 == 1u16),
{
    assert(((d & (1u16 << k)) != 0u16) == ((d >> k) & 1u16 == 1u16)) by (bit_vector)
        requires
            k < 16,
    ;
}

/// No bit of 0 is set.
pub(crate) proof fn lemma_zero_bits(j: u16)
    ensures
        (0u16 >> j) & 1u16 != 1u16,
{
    assert((0u16 >> j) & 1u16 != 1u16) by (bit_vector);
}

/// Setting bit `k` sets that bit and keeps the others.
proof fn lemma_set_bit(d: u16, k: u16, j: u16)
    requires
        k < 16,
        j < 16,
    ensures
        (((d | (1u16 << k)) >> j) & 1u16 == 1u16) == (j == k || (d >> j) & 1u16 == 1u16),
{
    assert((((d | (1u16 << k)) >> j) & 1u16 == 1u16) == (j == k || (d >> j) & 1u16 == 1u16))
        by (bit_vector)
        requires
            k < 16,
            j < 16,
    ;
}

/// Clearing bit `k` clears that bit and keeps the others.
proof fn lemma_clear_bit(d: u16, k: u16, j: u16)
    requires
        k < 16,
        j < 16,
    ensures
        (((d & !(1u16 << k)) >> j) & 1u16 == 1u16) == (j != k && (d >> j) & 1u16 == 1u16),
{
    assert((((d & !(1u16 << k)) >> j) & 1u16 == 1u16) == (j != k && (d >> j) & 1u16 == 1u16))
        by (bit_vector)
        requires
            k < 16,
            j < 16,
    ;
}

/// The key state decoded from one scan: bit `4 * row + col` is set exactly
/// when the column level read while that row was driven means "pressed".
pub open spec fn scan_decodes(state: u16, direction: DiodeDirection, column_high: [[bool; 4]; 4]) -> bool {
    forall|i: int|
        0 <= i < 16 ==> #[trigger] key_bit(state, i) == (column_high[i / 4][i % 4]
            == direction.spec_active_high())
}

/// Saturating increment of a debounce counter.
pub open spec fn counter_inc(c: u8) -> u8 {
    if c < 255 {
        (c + 1) as u8
    } else {
        255
    }
}

/// The debounced level of one key after a scan: it follows the raw level
/// once the raw level has differed from it in `threshold` consecutive scans.
pub open spec fn next_level(raw: bool, debounced: bool, counter: u8, threshold: u8) -> bool {
    if raw != debounced && counter_inc(counter) >= threshold {
        raw
    } else {
        debounced
    }
}

/// The debounce counter of one key after a scan: the number of consecutive
/// scans in which the raw level differed from the debounced one, reset to 0
/// when the levels agree or when the debounced level flips.
pub open spec fn next_counter(raw: bool, debounced: bool, counter: u8, threshold: u8) -> u8 {
    if raw != debounced {
        if counter_inc(counter) >= threshold {
            0
        } else {
            counter_inc(counter)
        }
    } else {
        0
    }
}

/// The event reported for key `i` when its debounced level becomes
/// `pressed`.
pub open spec fn key_event_at(keymap: [[char; 4]; 4], i: int, pressed: bool) -> KeyEvent {
    let row = (i / 4) as u8;
    let col = (i % 4) as u8;
    let key = keymap[i / 4][i % 4];
    if pressed {
        KeyEvent::Pressed { row, col, key, index: i as u8 }
    } else {
        KeyEvent::Released { row, col, key, index: i as u8 }
    }
}

/// The events that one scan produces for keys `0..n`, in key order: one for
/// each key whose debounced level changes.
pub open spec fn scan_events(
    keymap: [[char; 4]; 4],
    debounced: u16,
    counters: Seq<u8>,
    threshold: u8,
    raw: u16,
    n: int,
) -> Seq<KeyEvent>
    decreases n,
{
    if n <= 0 {
        Seq::empty()
    } else {
        let i = n - 1;
        let before = scan_events(keymap, debounced, counters, threshold, raw, i);
        if next_level(key_bit(raw, i), key_bit(debounced, i), counters[i], threshold) != key_bit(debounced, i) {
            before.push(key_event_at(keymap, i, key_bit(raw, i)))
        } else {
            before
        }
    }
}

proof fn lemma_scan_events_len(
    keymap: [[char; 4]; 4],
    debounced: u16,
    counters: Seq<u8>,
    threshold: u8,
    raw: u16,
    n: int,
)
    requires
        n >= 0,
    ensures
        scan_events(keymap, debounced, counters, threshold, raw, n).len() <= n,
    decreases n,
{
    if n > 0 {
        lemma_scan_events_len(keymap, debounced, counters, threshold, raw, n - 1);
    }
}

/// 4x4 matrix keypad state: key map, diode orientation and per-key software
/// debouncing. The pins are driven and read by the caller; `update` takes
/// the raw state that one scan produced.
pub struct MatrixKeypad4x4 {
    pub keymap: [[char; 4]; 4],
    pub diode_direction: DiodeDirection,
    last_raw_state: u16,
    debounced_state: u16,
    debounce_counters: [u8; 16],
    debounce_threshold: u8,
}

impl MatrixKeypad4x4 {
    #[verifier::type_invariant]
    spec fn threshold_positive(self) -> bool {
        self.debounce_threshold >= 1
    }

    /// The key map.
    pub closed spec fn spec_keymap(self) -> [[char; 4]; 4] {
        self.keymap
    }

    /// The diode orientation.
    pub closed spec fn spec_direction(self) -> DiodeDirection {
        self.diode_direction
    }

    /// The debounced key state (bit `4 * row + col` set while pressed).
    pub closed spec fn spec_debounced(self) -> u16 {
        self.debounced_state
    }

    /// The raw key state of the latest scan.
    pub closed spec fn spec_last_raw(self) -> u16 {
        self.last_raw_state
    }

    /// The per-key debounce counters.
    pub closed spec fn spec_counters(self) -> Seq<u8> {
        self.debounce_counters@
    }

    /// The number of consecutive differing scans that flips a key.
    pub closed spec fn spec_threshold(self) -> u8 {
        self.debounce_threshold
    }

    /// Creates a keypad with `ColToRow` diodes (active-low scanning with
    /// pulled-up columns).
    pub fn new() -> (k: MatrixKeypad4x4)
        ensures
            k.spec_keymap() == DEFAULT_KEY_MAP,
            k.spec_direction() == DiodeDirection::ColToRow,
            k.spec_last_raw() == 0,
            k.spec_debounced() == 0,
            k.spec_counters() == Seq::new(16, |i: int| 0u8),
            k.spec_threshold() == 2,
    {
        Self::with_diode_direction(DiodeDirection::ColToRow)
    }

    /// Creates a keypad with the given diode orientation.
    pub fn with_diode_direction(diode_direction: DiodeDirection) -> (k: MatrixKeypad4x4)
        ensures
            k.spec_keymap() == DEFAULT_KEY_MAP,
            k.spec_direction() == diode_direction,
            k.spec_last_raw() == 0,
            k.spec_debounced() == 0,
            k.spec_counters() == Seq::new(16, |i: int| 0u8),
            k.spec_threshold() == 2,
    {
        let k = MatrixKeypad4x4 {
            keymap: DEFAULT_KEY_MAP,
            diode_direction,
            last_raw_state: 0,
            debounced_state: 0,
            debounce_counters: [0u8; 16],
            debounce_threshold: 2,
        };
        assert(k.debounce_counters@ =~= Seq::new(16, |i: int| 0u8));
        k
    }

    /// Sets the number of consecutive stable scans that a key needs before
    /// it changes state; 0 counts as 1.
    pub fn set_debounce_threshold(&mut self, threshold: u8)
        ensures
            final(self).spec_threshold() == if threshold >= 1 { threshold } else { 1 },
            final(self).spec_keymap() == old(self).spec_keymap(),
            final(self).spec_direction() == old(self).spec_direction(),
            final(self).spec_debounced() == old(self).spec_debounced(),
            final(self).spec_last_raw() == old(self).spec_last_raw(),
            final(self).spec_counters() == old(self).spec_counters(),
    {
        self.debounce_threshold = if threshold >= 1 { threshold } else { 1 };
    }

    /// Sets a custom key mapping.
    pub fn set_keymap(&mut self, keymap: [[char; 4]; 4])
        ensures
            final(self).spec_keymap() == keymap,
            final(self).spec_direction() == old(self).spec_direction(),
            final(self).spec_threshold() == old(self).spec_threshold(),
            final(self).spec_debounced() == old(self).spec_debounced(),
            final(self).spec_last_raw() == old(self).spec_last_raw(),
            final(self).spec_counters() == old(self).spec_counters(),
    {
        proof {
            use_type_invariant(&*self);
        }
        self.keymap = keymap;
    }

    /// Decodes one scan of the matrix into a raw key state: bit
    /// `4 * row + col` is 1 when the column level read while the row was
    /// driven means that the key is pressed.
    pub fn scan_raw(&self, column_high: [[bool; 4]; 4]) -> (state: u16)
        ensures
            scan_decodes(state, self.spec_direction(), column_high),
            forall|r: int, c: int| 0 <= r < 4 && 0 <= c < 4 ==> #[trigger] key_bit(state, 4 * r + c) == (
                column_high[r][c] == (self.spec_direction() == DiodeDirection::RowToCol)),
    {
        let mut state: u16 = 0;
        proof {
            assert forall|i: int| 0 <= i < 16 implies !#[trigger] key_bit(0u16, i) by {
                lemma_zero_bits(i as u16);
            }
        }
        let mut r: usize = 0;
        while r < 4
            invariant
                r <= 4,
                forall|i: int| 0 <= i < 16 ==> #[trigger] key_bit(state, i) == (i < 4 * r
                    && column_high[i / 4][i % 4] == self.diode_direction.spec_active_high()),
            decreases 4 - r,
        {
            let mut c: usize = 0;
            while c < 4
                invariant
                    r < 4,
                    c <= 4,
                    forall|i: int| 0 <= i < 16 ==> #[trigger] key_bit(state, i) == ((i < 4 * r + c)
                        && column_high[i / 4][i % 4] == self.diode_direction.spec_active_high()),
                decreases 4 - c,
            {
                if self.diode_direction.column_reads_pressed(column_high[r][c]) {
                    let k: u16 = (r * 4 + c) as u16;
                    let old_state = state;
                    state = state | (1u16 << k);
                    proof {
                        assert forall|i: int| 0 <= i < 16 implies #[trigger] key_bit(state, i) == (i == k || key_bit(old_state, i)) by {
                            lemma_set_bit(old_state, k, i as u16);
                        }
                    }
                }
                c = c + 1;
            }
            r = r + 1;
        }
        proof {
            lemma_scan_bits(state, self.diode_direction, column_high);
        }
        state
    }

    /// Applies one raw scan: each key whose raw level has differed from its
    /// debounced level for `threshold` consecutive scans flips, and the
    /// flips are returned as events in key order.
    pub fn update(&mut self, raw: u16) -> (events: heapless::Vec<KeyEvent, 16>)
        ensures
            forall|i: int| 0 <= i < 16 ==> #[trigger] key_bit(final(self).spec_debounced(), i)
                == next_level(key_bit(raw, i), key_bit(old(self).spec_debounced(), i),
                    old(self).spec_counters()[i], old(self).spec_threshold()),
            forall|i: int| 0 <= i < 16 ==> #[trigger] final(self).spec_counters()[i]
                == next_counter(key_bit(raw, i), key_bit(old(self).spec_debounced(), i),
                    old(self).spec_counters()[i], old(self).spec_threshold()),
            final(self).spec_counters().len() == 16,
            key_event_list(events) == scan_events(old(self).spec_keymap(), old(self).spec_debounced(),
                old(self).spec_counters(), old(self).spec_threshold(), raw, 16),
            update_relation(*old(self), raw, *final(self)),
            forall|k: int| 0 <= k < key_event_list(events).len() ==> match #[trigger] key_event_list(events)[k] {
                KeyEvent::Pressed { row, col, key, index } => index < 16 && row == index / 4 && col == index % 4
                    && key == old(self).spec_keymap()[(index / 4) as int][(index % 4) as int] && key_bit(raw, index as int)
                    && !key_bit(old(self).spec_debounced(), index as int),
                KeyEvent::Released { row, col, key, index } => index < 16 && row == index / 4 && col == index % 4
                    && key == old(self).spec_keymap()[(index / 4) as int][(index % 4) as int] && !key_bit(raw, index as int)
                    && key_bit(old(self).spec_debounced(), index as int),
            },
            final(self).spec_last_raw() == raw,
            final(self).spec_keymap() == old(self).spec_keymap(),
            final(self).spec_direction() == old(self).spec_direction(),
            final(self).spec_threshold() == old(self).spec_threshold(),
    {
        proof {
            use_type_invariant(&*self);
        }
        let ghost old_deb = self.debounced_state;
        let ghost old_counters = self.debounce_counters@;
        let threshold = self.debounce_threshold;
        let mut debounced = self.debounced_state;
        let mut counters = self.debounce_counters;
        let mut events = new_event_list();
        let mut index: usize = 0;
        while index < 16
            invariant
                index <= 16,
                counters@.len() == 16,
                old_counters.len() == 16,
                forall|j: int| 0 <= j < index ==> #[trigger] key_bit(debounced, j)
                    == next_level(key_bit(raw, j), key_bit(old_deb, j), old_counters[j], threshold),
                forall|j: int| index <= j < 16 ==> #[trigger] key_bit(debounced, j) == key_bit(old_deb, j),
                forall|j: int| 0 <= j < index ==> #[trigger] counters@[j]
                    == next_counter(key_bit(raw, j), key_bit(old_deb, j), old_counters[j], threshold),
                forall|j: int| index <= j < 16 ==> #[trigger] counters@[j] == old_counters[j],
                key_event_list(events) == scan_events(self.keymap, old_deb, old_counters, threshold, raw, index as int),
            decreases 16 - index,
        {
            let k: u16 = index as u16;
            let mask: u16 = 1u16 << k;
            proof {
                lemma_mask_bit(raw, k);
                lemma_mask_bit(debounced, k);
                lemma_scan_events_len(self.keymap, old_deb, old_counters, threshold, raw, index as int);
            }
            let is_raw_pressed = (raw & mask) != 0;
            let is_currently_debounced = (debounced & mask) != 0;
            let ghost events_before = key_event_list(events);
            let ghost i = index as int;
            let ghost raw_bit = key_bit(raw, i);
            let ghost old_bit = key_bit(old_deb, i);
            assert(key_bit(debounced, i) == old_bit);
            assert(counters@[i] == old_counters[i]);
            assert(raw_bit == is_raw_pressed);
            assert(old_bit == is_currently_debounced);
            assert(scan_events(self.keymap, old_deb, old_counters, threshold, raw, i + 1) == if next_level(
                raw_bit, old_bit, old_counters[i], threshold) != old_bit {
                events_before.push(key_event_at(self.keymap, i, raw_bit))
            } else {
                events_before
            });
            if is_raw_pressed != is_currently_debounced {
                let c = counters[index].saturating_add(1);
                if c >= threshold {
                    counters[index] = 0;
                    let row = (index / 4) as u8;
                    let col = (index % 4) as u8;
                    let key = self.keymap[index / 4][index % 4];
                    let old_debounced = debounced;
                    if is_raw_pressed {
                        debounced = debounced | mask;
                        proof {
                            assert forall|j: int| 0 <= j < 16 implies #[trigger] key_bit(debounced, j) == (j == k || key_bit(old_debounced, j)) by {
                                lemma_set_bit(old_debounced, k, j as u16);
                            }
                        }
                        let _ = push_event(&mut events, KeyEvent::Pressed { row, col, key, index: index as u8 });
                    } else {
                        debounced = debounced & !mask;
                        proof {
                            assert forall|j: int| 0 <= j < 16 implies #[trigger] key_bit(debounced, j) == (j != k && key_bit(old_debounced, j)) by {
                                lemma_clear_bit(old_debounced, k, j as u16);
                            }
                        }
                        let _ = push_event(&mut events, KeyEvent::Released { row, col, key, index: index as u8 });
                    }
                } else {
                    counters[index] = c;
                }
            } else {
                counters[index] = 0;
            }
            index = index + 1;
        }
        proof {
            lemma_event_fields(self.keymap, old_deb, old_counters, threshold, raw, 16);
        }
        self.debounced_state = debounced;
        self.debounce_counters = counters;
        self.last_raw_state = raw;
        events
    }

    /// Whether the key at `row` (0..3), `col` (0..3) is held down after
    /// debouncing; `false` outside the matrix.
    pub fn is_pressed(&self, row: usize, col: usize) -> (r: bool)
        ensures
            r == (row < 4 && col < 4 && key_bit(self.spec_debounced(), 4 * row + col)),
    {
        if row < 4 && col < 4 {
            let k: u16 = (row * 4 + col) as u16;
            proof {
                lemma_mask_bit(self.debounced_state, k);
            }
            (self.debounced_state & (1u16 << k)) != 0
        } else {
            false
        }
    }

    /// Whether a key labelled `key` in the key map is held down after
    /// debouncing; `false` when no key carries that label. Where several
    /// keys carry the label, any one of them held counts.
    pub fn is_key_pressed(&self, key: char) -> (r: bool)
        ensures
            r == exists|i: int| 0 <= i < 16 && self.spec_keymap()[i / 4][i % 4] == key
                && #[trigger] key_bit(self.spec_debounced(), i),
    {
        let mut index: usize = 0;
        while index < 16
            invariant
                index <= 16,
                forall|i: int| 0 <= i < index ==> !(self.keymap[i / 4][i % 4] == key
                    && #[trigger] key_bit(self.debounced_state, i)),
            decreases 16 - index,
        {
            let r = index / 4;
            let c = index % 4;
            if self.keymap[r][c] == key && self.is_pressed(r, c) {
                assert(key_bit(self.debounced_state, index as int));
                return true;
            }
            index = index + 1;
        }
        false
    }

    /// Returns the debounced 16-bit key state.
    pub fn debounced_state(&self) -> (r: u16)
        ensures
            r == self.spec_debounced(),
    {
        self.debounced_state
    }
}

/// The debounced level and counter of one key after `n` scans that all read
/// the raw level `raw`, starting from level `debounced` and counter `counter`.
pub open spec fn scans_of_key(raw: bool, debounced: bool, counter: u8, threshold: u8, n: nat) -> (bool, u8)
    decreases n,
{
    if n == 0 {
        (debounced, counter)
    } else {
        let (d, c) = scans_of_key(raw, debounced, counter, threshold, (n - 1) as nat);
        (next_level(raw, d, c, threshold), next_counter(raw, d, c, threshold))
    }
}

/// A settled key (counter 0) whose raw level changes keeps its debounced
/// level through the first `threshold - 1` scans of the new level, counting
/// them.
pub proof fn lemma_debounce_holds_below_threshold(raw: bool, debounced: bool, threshold: u8, n: nat)
    requires
        raw != debounced,
        threshold >= 1,
        n < threshold,
    ensures
        scans_of_key(raw, debounced, 0, threshold, n) == (debounced, n as u8),
    decreases n,
{
    if n > 0 {
        lemma_debounce_holds_below_threshold(raw, debounced, threshold, (n - 1) as nat);
    }
}

/// A settled key whose raw level changes takes the new level exactly at the
/// `threshold`-th consecutive scan of it, with its counter back at 0.
pub proof fn lemma_debounce_flips_at_threshold(raw: bool, debounced: bool, threshold: u8)
    requires
        raw != debounced,
        threshold >= 1,
    ensures
        scans_of_key(raw, debounced, 0, threshold, threshold as nat) == (raw, 0u8),
{
    lemma_debounce_holds_below_threshold(raw, debounced, threshold, (threshold - 1) as nat);
}

/// A glitch shorter than the threshold is filtered out: after fewer than
/// `threshold` scans of the other level, one scan that agrees with the
/// debounced level leaves the key settled where it was.
pub proof fn lemma_short_glitch_ignored(raw: bool, debounced: bool, threshold: u8, n: nat)
    requires
        raw != debounced,
        threshold >= 1,
        n < threshold,
    ensures
        ({
            let (d, c) = scans_of_key(raw, debounced, 0, threshold, n);
            next_level(debounced, d, c, threshold) == debounced && next_counter(debounced, d, c, threshold) == 0
        }),
{
    lemma_debounce_holds_below_threshold(raw, debounced, threshold, n);
}

/// A key whose raw level agrees with its debounced level stays settled:
/// its level is kept and its counter is reset.
pub proof fn lemma_agreeing_scan_settles(level: bool, counter: u8, threshold: u8)
    ensures
        next_level(level, level, counter, threshold) == level,
        next_counter(level, level, counter, threshold) == 0,
{
}

/// A scan whose raw state equals the debounced state produces no event.
pub proof fn lemma_stable_scan_no_events(
    keymap: [[char; 4]; 4],
    debounced: u16,
    counters: Seq<u8>,
    threshold: u8,
    n: int,
)
    ensures
        scan_events(keymap, debounced, counters, threshold, debounced, n) == Seq::<KeyEvent>::empty(),
    decreases n,
{
    if n > 0 {
        lemma_stable_scan_no_events(keymap, debounced, counters, threshold, n - 1);
    }
}

/// The key index that an event reports.
pub open spec fn event_index(e: KeyEvent) -> int {
    match e {
        KeyEvent::Pressed { index, .. } => index as int,
        KeyEvent::Released { index, .. } => index as int,
    }
}

/// Whether key `i` changes its debounced level in a scan.
pub open spec fn key_changes(debounced: u16, counters: Seq<u8>, threshold: u8, raw: u16, i: int) -> bool {
    next_level(key_bit(raw, i), key_bit(debounced, i), counters[i], threshold) != key_bit(debounced, i)
}

/// The events of a scan are exactly the keys that change, in increasing key
/// order, each reported as a press when the key goes down and as a release
/// when it goes up.
pub proof fn lemma_events_are_changes(
    keymap: [[char; 4]; 4],
    debounced: u16,
    counters: Seq<u8>,
    threshold: u8,
    raw: u16,
    n: int,
)
    requires
        0 <= n <= 16,
    ensures
        ({
            let ev = scan_events(keymap, debounced, counters, threshold, raw, n);
            &&& forall|k: int| 0 <= k < ev.len() ==> {
                let i = #[trigger] event_index(ev[k]);
                &&& 0 <= i < n
                &&& key_changes(debounced, counters, threshold, raw, i)
                &&& ev[k] == key_event_at(keymap, i, key_bit(raw, i))
            }
            &&& forall|k1: int, k2: int| 0 <= k1 < k2 < ev.len() ==> event_index(ev[k1]) < event_index(ev[k2])
            &&& forall|i: int| 0 <= i < n && key_changes(debounced, counters, threshold, raw, i) ==>
                exists|k: int| 0 <= k < ev.len() && #[trigger] event_index(ev[k]) == i
        }),
    decreases n,
{
    if n > 0 {
        lemma_events_are_changes(keymap, debounced, counters, threshold, raw, n - 1);
        let prev = scan_events(keymap, debounced, counters, threshold, raw, n - 1);
        let ev = scan_events(keymap, debounced, counters, threshold, raw, n);
        let i = n - 1;
        if key_changes(debounced, counters, threshold, raw, i) {
            let e = key_event_at(keymap, i, key_bit(raw, i));
            assert(ev == prev.push(e));
            assert(event_index(e) == i);
            assert(event_index(ev[prev.len() as int]) == i);
            assert forall|j: int| 0 <= j < n && key_changes(debounced, counters, threshold, raw, j) implies
                exists|k: int| 0 <= k < ev.len() && #[trigger] event_index(ev[k]) == j by {
                if j < i {
                    let k = choose|k: int| 0 <= k < prev.len() && #[trigger] event_index(prev[k]) == j;
                    assert(ev[k] == prev[k]);
                } else {
                    assert(event_index(ev[prev.len() as int]) == j);
                }
            }
            assert forall|k: int| 0 <= k < ev.len() implies {
                let i = #[trigger] event_index(ev[k]);
                &&& 0 <= i < n
                &&& key_changes(debounced, counters, threshold, raw, i)
                &&& ev[k] == key_event_at(keymap, i, key_bit(raw, i))
            } by {
                if k < prev.len() {
                    assert(ev[k] == prev[k]);
                }
            }
            assert forall|k1: int, k2: int| 0 <= k1 < k2 < ev.len() implies event_index(ev[k1]) < event_index(ev[k2]) by {
                assert(ev[k1] == prev[k1]);
                if k2 < prev.len() {
                    assert(ev[k2] == prev[k2]);
                }
            }
        } else {
            assert(ev == prev);
        }
    }
}

/// One debounce step of a key: its (level, counter) after a scan that read
/// `raw`.
pub open spec fn key_step(raw: bool, state: (bool, u8), threshold: u8) -> (bool, u8) {
    (next_level(raw, state.0, state.1, threshold), next_counter(raw, state.0, state.1, threshold))
}

/// The debounced level and counter of key `i` of a keypad.
pub open spec fn key_state(k: MatrixKeypad4x4, i: int) -> (bool, u8) {
    (key_bit(k.spec_debounced(), i), k.spec_counters()[i])
}

/// What one `update` that read `raw` makes of a keypad: every key takes one
/// debounce step, and the threshold is kept.
pub open spec fn update_relation(before: MatrixKeypad4x4, raw: u16, after: MatrixKeypad4x4) -> bool {
    &&& after.spec_counters().len() == 16
    &&& after.spec_threshold() == before.spec_threshold()
    &&& forall|i: int|
        0 <= i < 16 ==> #[trigger] key_state(after, i) == key_step(key_bit(raw, i), key_state(before, i), before.spec_threshold())
}

/// The (level, counter) of one key after the scans `raws`, in order.
pub open spec fn key_run(raws: Seq<bool>, state: (bool, u8), threshold: u8) -> (bool, u8)
    decreases raws.len(),
{
    if raws.len() == 0 {
        state
    } else {
        key_step(raws.last(), key_run(raws.drop_last(), state, threshold), threshold)
    }
}

/// The number of scans at the end of `raws` that read the level other than
/// `level`.
pub open spec fn trailing_differing(raws: Seq<bool>, level: bool) -> nat
    decreases raws.len(),
{
    if raws.len() == 0 || raws.last() == level {
        0
    } else {
        1 + trailing_differing(raws.drop_last(), level)
    }
}

/// Key `i`'s reading in each of a sequence of raw scans.
pub open spec fn key_readings(scans: Seq<u16>, i: int) -> Seq<bool> {
    scans.map_values(|s: u16| key_bit(s, i))
}

/// Starting settled, a key's counter is always the number of consecutive
/// latest scans that read the level other than its debounced one, and stays
/// below the threshold.
pub proof fn lemma_counter_counts_differing_scans(raws: Seq<bool>, level: bool, threshold: u8)
    requires
        threshold >= 1,
    ensures
        ({
            let (l, c) = key_run(raws, (level, 0u8), threshold);
            c == trailing_differing(raws, l) && c < threshold
        }),
    decreases raws.len(),
{
    if raws.len() > 0 {
        let prev = raws.drop_last();
        lemma_counter_counts_differing_scans(prev, level, threshold);
        let (l0, c0) = key_run(prev, (level, 0u8), threshold);
        let r = raws.last();
        if r != l0 {
            assert(counter_inc(c0) == c0 + 1);
        }
    }
}

/// From any level and counter, the scans of one raw level keep counting
/// while the count stays below the threshold, and once there have been
/// enough of them (at least one, and at least `threshold - counter`) the key
/// has that level with its counter at 0.
pub proof fn lemma_debounce_reaches_raw(raw: bool, debounced: bool, counter: u8, threshold: u8, m: nat)
    requires
        threshold >= 1,
    ensures
        m >= 1 && (debounced == raw || m + counter >= threshold) ==> scans_of_key(raw, debounced, counter, threshold, m)
            == (raw, 0u8),
        debounced != raw && counter + m < threshold ==> scans_of_key(raw, debounced, counter, threshold, m)
            == (debounced, (counter + m) as u8),
    decreases m,
{
    if m > 0 {
        lemma_debounce_reaches_raw(raw, debounced, counter, threshold, (m - 1) as nat);
        let (d, c) = scans_of_key(raw, debounced, counter, threshold, (m - 1) as nat);
        assert(counter_inc(c) >= c);
        assert(c < 255 ==> counter_inc(c) == c + 1);
        if m == 1 {
            assert((d, c) == (debounced, counter));
        }
    }
}

proof fn lemma_constant_run(raw: bool, debounced: bool, counter: u8, threshold: u8, n: nat)
    ensures
        key_run(Seq::new(n, |j: int| raw), (debounced, counter), threshold) == scans_of_key(raw, debounced, counter, threshold, n),
    decreases n,
{
    if n > 0 {
        assert(Seq::new(n, |j: int| raw).drop_last() =~= Seq::new((n - 1) as nat, |j: int| raw));
        lemma_constant_run(raw, debounced, counter, threshold, (n - 1) as nat);
    }
}

/// Along a chain of updates, each key follows `key_run` over its readings.
proof fn lemma_chain_key(states: Seq<MatrixKeypad4x4>, scans: Seq<u16>, i: int, n: int)
    requires
        states.len() == scans.len() + 1,
        forall|j: int| 0 <= j < scans.len() ==> #[trigger] update_relation(states[j], scans[j], states[j + 1]),
        0 <= i < 16,
        0 <= n <= scans.len(),
    ensures
        key_state(states[n], i) == key_run(key_readings(scans.take(n), i), key_state(states[0], i), states[0].spec_threshold()),
        states[n].spec_threshold() == states[0].spec_threshold(),
    decreases n,
{
    if n > 0 {
        lemma_chain_key(states, scans, i, n - 1);
        assert(update_relation(states[n - 1], scans[n - 1], states[(n - 1) + 1]));
        assert(key_readings(scans.take(n), i).drop_last() =~= key_readings(scans.take(n - 1), i));
        assert(key_readings(scans.take(n), i).last() == key_bit(scans[n - 1], i));
    }
}

/// Over any sequence of updates with a fixed threshold, starting from a
/// settled key (as every key of a new keypad is), the key's counter is the
/// number of consecutive latest scans that read the other level than its
/// debounced one, below the threshold; so the next scan flips the key
/// exactly when it also reads the other level and that makes `threshold`
/// such scans in a row.
pub proof fn lemma_debounce_counts_scans(states: Seq<MatrixKeypad4x4>, scans: Seq<u16>, i: int)
    requires
        states.len() == scans.len() + 1,
        forall|j: int| 0 <= j < scans.len() ==> #[trigger] update_relation(states[j], scans[j], states[j + 1]),
        0 <= i < 16,
        states[0].spec_threshold() >= 1,
        states[0].spec_counters()[i] == 0,
    ensures
        ({
            let last = states[scans.len() as int];
            let t = states[0].spec_threshold();
            let level = key_bit(last.spec_debounced(), i);
            let count = trailing_differing(key_readings(scans, i), level);
            &&& last.spec_counters()[i] == count
            &&& count < t
            &&& last.spec_threshold() == t
            &&& forall|r: bool| #[trigger] next_level(r, level, last.spec_counters()[i], t) == if r != level && count
                + 1 >= t {
                r
            } else {
                level
            }
        }),
{
    let n = scans.len() as int;
    lemma_chain_key(states, scans, i, n);
    assert(scans.take(n) =~= scans);
    lemma_counter_counts_differing_scans(key_readings(scans, i), key_bit(states[0].spec_debounced(), i), states[0].spec_threshold());
}

proof fn lemma_bits_determine(a: u16, b: u16)
    requires
        forall|i: int| 0 <= i < 16 ==> #[trigger] key_bit(a, i) == key_bit(b, i),
    ensures
        a == b,
{
    assert(key_bit(a, 0) == key_bit(b, 0));
    assert(key_bit(a, 1) == key_bit(b, 1));
    assert(key_bit(a, 2) == key_bit(b, 2));
    assert(key_bit(a, 3) == key_bit(b, 3));
    assert(key_bit(a, 4) == key_bit(b, 4));
    assert(key_bit(a, 5) == key_bit(b, 5));
    assert(key_bit(a, 6) == key_bit(b, 6));
    assert(key_bit(a, 7) == key_bit(b, 7));
    assert(key_bit(a, 8) == key_bit(b, 8));
    assert(key_bit(a, 9) == key_bit(b, 9));
    assert(key_bit(a, 10) == key_bit(b, 10));
    assert(key_bit(a, 11) == key_bit(b, 11));
    assert(key_bit(a, 12) == key_bit(b, 12));
    assert(key_bit(a, 13) == key_bit(b, 13));
    assert(key_bit(a, 14) == key_bit(b, 14));
    assert(key_bit(a, 15) == key_bit(b, 15));
    assert(a == b) by (bit_vector)
        requires
            (a >> 0u16) & 1u16 == 1u16 <==> (b >> 0u16) & 1u16 == 1u16,
            (a >> 1u16) & 1u16 == 1u16 <==> (b >> 1u16) & 1u16 == 1u16,
            (a >> 2u16) & 1u16 == 1u16 <==> (b >> 2u16) & 1u16 == 1u16,
            (a >> 3u16) & 1u16 == 1u16 <==> (b >> 3u16) & 1u16 == 1u16,
            (a >> 4u16) & 1u16 == 1u16 <==> (b >> 4u16) & 1u16 == 1u16,
            (a >> 5u16) & 1u16 == 1u16 <==> (b >> 5u16) & 1u16 == 1u16,
            (a >> 6u16) & 1u16 == 1u16 <==> (b >> 6u16) & 1u16 == 1u16,
            (a >> 7u16) & 1u16 == 1u16 <==> (b >> 7u16) & 1u16 == 1u16,
            (a >> 8u16) & 1u16 == 1u16 <==> (b >> 8u16) & 1u16 == 1u16,
            (a >> 9u16) & 1u16 == 1u16 <==> (b >> 9u16) & 1u16 == 1u16,
            (a >> 10u16) & 1u16 == 1u16 <==> (b >> 10u16) & 1u16 == 1u16,
            (a >> 11u16) & 1u16 == 1u16 <==> (b >> 11u16) & 1u16 == 1u16,
            (a >> 12u16) & 1u16 == 1u16 <==> (b >> 12u16) & 1u16 == 1u16,
            (a >> 13u16) & 1u16 == 1u16 <==> (b >> 13u16) & 1u16 == 1u16,
            (a >> 14u16) & 1u16 == 1u16 <==> (b >> 14u16) & 1u16 == 1u16,
            (a >> 15u16) & 1u16 == 1u16 <==> (b >> 15u16) & 1u16 == 1u16,
    ;
}

/// After `threshold` or more consecutive updates that all read the same raw
/// state, whatever the counters were, the debounced state is that raw state
/// with every counter at 0; a further update that reads it again reports no
/// event and keeps every key where it is.
pub proof fn lemma_same_scans_settle(states: Seq<MatrixKeypad4x4>, scans: Seq<u16>, raw: u16)
    requires
        states.len() == scans.len() + 1,
        forall|j: int| 0 <= j < scans.len() ==> #[trigger] update_relation(states[j], scans[j], states[j + 1]),
        forall|j: int| 0 <= j < scans.len() ==> #[trigger] scans[j] == raw,
        states[0].spec_threshold() >= 1,
        scans.len() >= states[0].spec_threshold(),
    ensures
        ({
            let last = states[scans.len() as int];
            let t = last.spec_threshold();
            &&& last.spec_debounced() == raw
            &&& forall|i: int| 0 <= i < 16 ==> #[trigger] last.spec_counters()[i] == 0
            &&& scan_events(last.spec_keymap(), last.spec_debounced(), last.spec_counters(), t, raw, 16)
                == Seq::<KeyEvent>::empty()
            &&& forall|i: int| 0 <= i < 16 ==> #[trigger] next_level(key_bit(raw, i), key_bit(last.spec_debounced(), i),
                last.spec_counters()[i], t) == key_bit(raw, i)
        }),
{
    let n = scans.len() as int;
    let last = states[n];
    let t = states[0].spec_threshold();
    assert(scans.take(n) =~= scans);
    assert forall|i: int| 0 <= i < 16 implies #[trigger] key_state(last, i) == (key_bit(raw, i), 0u8) by {
        lemma_chain_key(states, scans, i, n);
        assert(key_readings(scans, i) =~= Seq::new(n as nat, |j: int| key_bit(raw, i)));
        let (d0, c0) = key_state(states[0], i);
        lemma_constant_run(key_bit(raw, i), d0, c0, t, n as nat);
        lemma_debounce_reaches_raw(key_bit(raw, i), d0, c0, t, n as nat);
    }
    assert forall|i: int| 0 <= i < 16 implies #[trigger] key_bit(last.spec_debounced(), i) == key_bit(raw, i) by {
        assert(key_state(last, i) == (key_bit(raw, i), 0u8));
    }
    assert forall|i: int| 0 <= i < 16 implies #[trigger] last.spec_counters()[i] == 0 by {
        assert(key_state(last, i) == (key_bit(raw, i), 0u8));
    }
    lemma_bits_determine(last.spec_debounced(), raw);
    lemma_chain_key(states, scans, 0, n);
    lemma_stable_scan_no_events(last.spec_keymap(), raw, last.spec_counters(), t, 16);
}

/// Every event of a scan names its key correctly: a key index below 16,
/// row `index / 4`, column `index % 4` and the key map's label there; it is
/// a press when the key reads down and was up, and a release when it reads
/// up and was down.
pub proof fn lemma_event_fields(
    keymap: [[char; 4]; 4],
    debounced: u16,
    counters: Seq<u8>,
    threshold: u8,
    raw: u16,
    n: int,
)
    requires
        0 <= n <= 16,
    ensures
        ({
            let ev = scan_events(keymap, debounced, counters, threshold, raw, n);
            forall|k: int| 0 <= k < ev.len() ==> match #[trigger] ev[k] {
                KeyEvent::Pressed { row, col, key, index } => index < 16 && row == index / 4 && col == index % 4
                    && key == keymap[(index / 4) as int][(index % 4) as int] && key_bit(raw, index as int)
                    && !key_bit(debounced, index as int),
                KeyEvent::Released { row, col, key, index } => index < 16 && row == index / 4 && col == index % 4
                    && key == keymap[(index / 4) as int][(index % 4) as int] && !key_bit(raw, index as int)
                    && key_bit(debounced, index as int),
            }
        }),
{
    lemma_events_are_changes(keymap, debounced, counters, threshold, raw, n);
    let ev = scan_events(keymap, debounced, counters, threshold, raw, n);
    assert forall|k: int| 0 <= k < ev.len() implies match #[trigger] ev[k] {
        KeyEvent::Pressed { row, col, key, index } => index < 16 && row == index / 4 && col == index % 4
            && key == keymap[(index / 4) as int][(index % 4) as int] && key_bit(raw, index as int)
            && !key_bit(debounced, index as int),
        KeyEvent::Released { row, col, key, index } => index < 16 && row == index / 4 && col == index % 4
            && key == keymap[(index / 4) as int][(index % 4) as int] && !key_bit(raw, index as int)
            && key_bit(debounced, index as int),
    } by {
        let i = event_index(ev[k]);
        assert(0 <= i < n);
        assert(key_changes(debounced, counters, threshold, raw, i));
        assert(ev[k] == key_event_at(keymap, i, key_bit(raw, i)));
    }
}

/// A decoded scan sets bit `4 * r + c` exactly when the column `c` read
/// while row `r` was driven is at the pressed level: high for `RowToCol`,
/// low for `ColToRow`.
pub proof fn lemma_scan_bits(state: u16, direction: DiodeDirection, column_high: [[bool; 4]; 4])
    requires
        scan_decodes(state, direction, column_high),
    ensures
        forall|r: int, c: int| 0 <= r < 4 && 0 <= c < 4 ==> #[trigger] key_bit(state, 4 * r + c) == (
            column_high[r][c] == (direction == DiodeDirection::RowToCol)),
{
    assert forall|r: int, c: int| 0 <= r < 4 && 0 <= c < 4 implies #[trigger] key_bit(state, 4 * r + c) == (
        column_high[r][c] == (direction == DiodeDirection::RowToCol)) by {
        let i = 4 * r + c;
        assert(i / 4 == r && i % 4 == c);
        assert(key_bit(state, i) == (column_high[i / 4][i % 4] == direction.spec_active_high()));
    }
}

} // verus!

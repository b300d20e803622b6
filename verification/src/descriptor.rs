//! The size of the input report that a HID report descriptor declares,
//! read from its short items.

use vstd::prelude::*;

verus! {

/// The number of data bytes that follow the prefix byte of a short item.
pub open spec fn item_data_len(prefix: u8) -> int {
    if prefix % 4 == 3 {
        4
    } else {
        (prefix % 4) as int
    }
}

/// The unsigned little-endian value of the `n` data bytes at `pos`.
pub open spec fn item_data(d: Seq<u8>, pos: int, n: int) -> int {
    if n == 0 {
        0
    } else if n == 1 {
        d[pos] as int
    } else if n == 2 {
        d[pos] + 256 * d[pos + 1]
    } else {
        d[pos] + 256 * d[pos + 1] + 65536 * d[pos + 2] + 16777216 * d[pos + 3]
    }
}

/// The total number of bits of the Input items from `pos` on, given the
/// Report Size and Report Count in force (both global items): each Input
/// main item contributes Report Size times Report Count bits. An item cut
/// short by the end of the descriptor counts for nothing.
pub open spec fn input_bits_from(d: Seq<u8>, pos: int, report_size: int, report_count: int) -> int
    decreases d.len() - pos,
{
    if pos < 0 || pos >= d.len() {
        0
    } else {
        let prefix = d[pos];
        let n = item_data_len(prefix);
        let value = item_data(d, pos + 1, n);
        let next = pos + 1 + n;
        if next > d.len() {
            0
        } else if prefix / 4 == 29u8 {
            input_bits_from(d, next, value, report_count)
        } else if prefix / 4 == 37u8 {
            input_bits_from(d, next, report_size, value)
        } else if prefix / 4 == 32u8 {
            report_size * report_count + input_bits_from(d, next, report_size, report_count)
        } else {
            input_bits_from(d, next, report_size, report_count)
        }
    }
}

/// The number of bits of the input report that a descriptor declares.
pub open spec fn input_report_bits(d: Seq<u8>) -> int {
    input_bits_from(d, 0, 0, 0)
}

} // verus!

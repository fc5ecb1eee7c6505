//! The quarter-square multiply table used by the F-B1 kernel:
//! `a * b == floor((a + b)^2 / 4) - floor((a - b)^2 / 4)`.

use vstd::prelude::*;
use vstd::arithmetic::div_mod::lemma_hoist_over_denominator;

verus! {

pub const QUARTER_SQUARE_MIN: i16 = -256;

pub const QUARTER_SQUARE_MAX: i16 = 255;

pub const QUARTER_SQUARE_LEN: usize = 512;

pub const QUARTER_SQUARE_BYTES: u16 = 1024;

/// `floor(x^2 / 4)`, the value the table holds for `x`.
pub open spec fn quarter_square(x: int) -> int {
    (x * x) / 4
}

/// The table entry at index `i` holds the quarter square of `i - 256`.
pub open spec fn table_entry(i: int) -> int {
    quarter_square(i + QUARTER_SQUARE_MIN)
}

/// The two quarter squares of `a + b` and `a - b` differ by exactly `a * b`.
pub proof fn lemma_quarter_square_difference(a: int, b: int)
    ensures
        quarter_square(a + b) - quarter_square(a - b) == a * b,
{
    let s = a + b;
    let d = a - b;
    assert(s * s == d * d + (a * b) * 4) by (nonlinear_arith)
        requires
            s == a + b,
            d == a - b,
    ;
    lemma_hoist_over_denominator(d * d, a * b, 4);
}

proof fn lemma_quarter_square_bounds(x: int)
    requires
        -256 <= x <= 256,
    ensures
        0 <= quarter_square(x) <= 16384,
{
    assert(0 <= x * x <= 65536) by (nonlinear_arith)
        requires
            -256 <= x <= 256,
    ;
}

/// Index of `x` in the quarter-square table.
pub fn quarter_square_index(x: i16) -> (index: usize)
    requires
        x >= QUARTER_SQUARE_MIN,
    ensures
        index == x - QUARTER_SQUARE_MIN,
{
    (x as i32 - QUARTER_SQUARE_MIN as i32) as usize
}

/// The table entry for `x`, computed directly.
fn quarter_square_entry(x: i16) -> (value: i16)
    requires
        QUARTER_SQUARE_MIN <= x <= QUARTER_SQUARE_MAX,
    ensures
        value == quarter_square(x as int),
        0 <= value <= 16384,
{
    proof {
        lemma_quarter_square_bounds(x as int);
    }
    let wide = x as i32;
    assert(0 <= wide * wide <= 65536) by (nonlinear_arith)
        requires
            -256 <= wide <= 255,
    ;
    ((wide * wide) / 4) as i16
}

/// The 512-entry table of `floor(x^2 / 4)` for `x` in `-256..=255`.
pub fn quarter_square_table_i16() -> (table: Vec<i16>)
    ensures
        table@.len() == QUARTER_SQUARE_LEN,
        forall|i: int| 0 <= i < QUARTER_SQUARE_LEN ==> #[trigger] table@[i] == table_entry(i),
        forall|i: int| 0 <= i < QUARTER_SQUARE_LEN ==> 0 <= #[trigger] table@[i] <= 16384,
{
    let mut table: Vec<i16> = Vec::with_capacity(QUARTER_SQUARE_LEN);
    let mut x: i16 = QUARTER_SQUARE_MIN;
    while x <= QUARTER_SQUARE_MAX
        invariant
            QUARTER_SQUARE_MIN <= x <= QUARTER_SQUARE_MAX + 1,
            table@.len() == x - QUARTER_SQUARE_MIN,
            forall|i: int| 0 <= i < table@.len() ==> #[trigger] table@[i] == table_entry(i),
            forall|i: int| 0 <= i < table@.len() ==> 0 <= #[trigger] table@[i] <= 16384,
        decreases QUARTER_SQUARE_MAX + 1 - x,
    {
        let value = quarter_square_entry(x);
        table.push(value);
        x = x + 1;
    }
    table
}

/// The table as 1024 little-endian bytes, entry by entry.
pub fn quarter_square_table_bytes_le() -> (bytes: Vec<u8>)
    ensures
        bytes@.len() == QUARTER_SQUARE_BYTES,
        forall|i: int|
            0 <= i < QUARTER_SQUARE_LEN ==> #[trigger] bytes@[2 * i] == table_entry(i) % 256
                && bytes@[2 * i + 1] == table_entry(i) / 256,
{
    let table = quarter_square_table_i16();
    let mut bytes: Vec<u8> = Vec::with_capacity(QUARTER_SQUARE_BYTES as usize);
    let mut i: usize = 0;
    while i < table.len()
        invariant
            table@.len() == QUARTER_SQUARE_LEN,
            forall|k: int| 0 <= k < QUARTER_SQUARE_LEN ==> #[trigger] table@[k] == table_entry(k),
            forall|k: int| 0 <= k < QUARTER_SQUARE_LEN ==> 0 <= #[trigger] table@[k] <= 16384,
            0 <= i <= QUARTER_SQUARE_LEN,
            bytes@.len() == 2 * i,
            forall|k: int|
                0 <= k < i ==> #[trigger] bytes@[2 * k] == table_entry(k) % 256 && bytes@[2 * k
                    + 1] == table_entry(k) / 256,
        decreases QUARTER_SQUARE_LEN - i,
    {
        let value = table[i];
        let lo = (value % 256) as u8;
        let hi = (value / 256) as u8;
        let ghost before = bytes@;
        bytes.push(lo);
        bytes.push(hi);
        proof {
            assert forall|k: int| 0 <= k < i + 1 implies #[trigger] bytes@[2 * k] == table_entry(k)
                % 256 && bytes@[2 * k + 1] == table_entry(k) / 256 by {
                if k < i {
                    assert(bytes@[2 * k] == before[2 * k]);
                    assert(bytes@[2 * k + 1] == before[2 * k + 1]);
                }
            }
        }
        i = i + 1;
    }
    bytes
}

/// The table as two 512-byte planes: every low byte, then every high byte.
pub fn quarter_square_table_split_bytes() -> (bytes: Vec<u8>)
    ensures
        bytes@.len() == QUARTER_SQUARE_BYTES,
        forall|i: int|
            0 <= i < QUARTER_SQUARE_LEN ==> #[trigger] bytes@[i] == table_entry(i) % 256,
        forall|i: int|
            0 <= i < QUARTER_SQUARE_LEN ==> #[trigger] bytes@[i + 512] == table_entry(i) / 256,
{
    let table = quarter_square_table_i16();
    let mut bytes: Vec<u8> = Vec::with_capacity(QUARTER_SQUARE_BYTES as usize);
    let mut i: usize = 0;
    while i < table.len()
        invariant
            table@.len() == QUARTER_SQUARE_LEN,
            forall|k: int| 0 <= k < QUARTER_SQUARE_LEN ==> #[trigger] table@[k] == table_entry(k),
            forall|k: int| 0 <= k < QUARTER_SQUARE_LEN ==> 0 <= #[trigger] table@[k] <= 16384,
            0 <= i <= QUARTER_SQUARE_LEN,
            bytes@.len() == i,
            forall|k: int| 0 <= k < i ==> #[trigger] bytes@[k] == table_entry(k) % 256,
        decreases QUARTER_SQUARE_LEN - i,
    {
        bytes.push((table[i] % 256) as u8);
        i = i + 1;
    }
    let mut j: usize = 0;
    while j < table.len()
        invariant
            table@.len() == QUARTER_SQUARE_LEN,
            forall|k: int| 0 <= k < QUARTER_SQUARE_LEN ==> #[trigger] table@[k] == table_entry(k),
            forall|k: int| 0 <= k < QUARTER_SQUARE_LEN ==> 0 <= #[trigger] table@[k] <= 16384,
            0 <= j <= QUARTER_SQUARE_LEN,
            bytes@.len() == QUARTER_SQUARE_LEN + j,
            forall|k: int|
                0 <= k < QUARTER_SQUARE_LEN ==> #[trigger] bytes@[k] == table_entry(k) % 256,
            forall|k: int| 0 <= k < j ==> #[trigger] bytes@[k + 512] == table_entry(k) / 256,
        decreases QUARTER_SQUARE_LEN - j,
    {
        bytes.push((table[j] / 256) as u8);
        j = j + 1;
    }
    bytes
}

/// `a * b` for signed bytes through two quarter-square lookups.
pub fn quarter_square_mul_i8(a: i8, b: i8) -> (product: i32)
    ensures
        product == a * b,
{
    let sum = a as i16 + b as i16;
    let diff = a as i16 - b as i16;
    let high = quarter_square_entry(sum);
    let low = quarter_square_entry(diff);
    proof {
        lemma_quarter_square_difference(a as int, b as int);
    }
    high as i32 - low as i32
}

} // verus!

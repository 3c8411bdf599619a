//! Special segment patterns (same bit layout as the digit patterns).
use vstd::prelude::*;

verus! {

/// Minus sign
pub const MINUS: u8 = 0x80;
/// Plus sign (f + g + b)
pub const PLUS: u8 = 0x66;
/// Decimal point
pub const DOT: u8 = 0x01;
/// All segments on
pub const ALL_ON: u8 = 0xFF;
/// All segments off
pub const ALL_OFF: u8 = 0x00;

/// Unit prefix k (kilo), drawn as the letter K
pub const K: u8 = 0x38;
/// Unit prefix M (mega)
pub const M: u8 = 0x37;
/// Unit prefix G (giga)
pub const G: u8 = 0x3D;

/// Unit V (volt), a simplified V shape
pub const V: u8 = 0x3C;
/// Unit A (ampere)
pub const A: u8 = 0x77;
/// Unit W (watt), drawn like M
pub const W: u8 = 0x37;
/// Unit var (needs several digits)
pub const VAR: u8 = 0x00;
/// Unit Hz, a simplified h shape
pub const HZ: u8 = 0x6E;

/// Status OPEN (needs several digits)
pub const OPEN: u8 = 0x00;
/// Status CLOSE (needs several digits)
pub const CLOSE: u8 = 0x00;
/// Status TEST (needs several digits)
pub const TEST: u8 = 0x00;

} // verus!

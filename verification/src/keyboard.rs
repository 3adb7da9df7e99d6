//! ZX Spectrum keyboard: 8 half-rows of 5 keys each.
//!
//! The keyboard is read through port 0xFE. The upper byte of the port address
//! selects which half-rows are read (a 0 bit selects a row). Bits 4:0 of the
//! value read are the key states, active low (0 = pressed).
//!
//! Half-row map (port address, keys from bit 0 to bit 4):
//!   0xFEFE : CAPS-SHIFT  Z  X  C  V
//!   0xFDFE : A           S  D  F  G
//!   0xFBFE : Q           W  E  R  T
//!   0xF7FE : 1           2  3  4  5
//!   0xEFFE : 0           9  8  7  6
//!   0xDFFE : P           O  I  U  Y
//!   0xBFFE : ENTER       L  K  J  H
//!   0x7FFE : SPACE  SYM-SHIFT  M  N  B
use vstd::prelude::*;
use vstd::string::StringSliceAdditionalSpecFns;
use crate::flags::b2i;

verus! {

/// Every key on the ZX Spectrum keyboard.
#[derive(Clone, Copy, Debug, PartialEq, Eq, Structural)]
pub enum ZxKey {
    // Row 0 (0xFEFE)
    CapsShift, Z, X, C, V,
    // Row 1 (0xFDFE)
    A, S, D, F, G,
    // Row 2 (0xFBFE)
    Q, W, E, R, T,
    // Row 3 (0xF7FE)
    K1, K2, K3, K4, K5,
    // Row 4 (0xEFFE)
    K0, K9, K8, K7, K6,
    // Row 5 (0xDFFE)
    P, O, I, U, Y,
    // Row 6 (0xBFFE)
    Enter, L, K, J, H,
    // Row 7 (0x7FFE)
    Space, SymShift, M, N, B,
}

/// The half-row (0..8) and the bit within it (0..5) of each key.
pub open spec fn key_location(k: ZxKey) -> (int, int) {
    match k {
        ZxKey::CapsShift => (0, 0), ZxKey::Z => (0, 1), ZxKey::X => (0, 2), ZxKey::C => (0, 3), ZxKey::V => (0, 4),
        ZxKey::A => (1, 0), ZxKey::S => (1, 1), ZxKey::D => (1, 2), ZxKey::F => (1, 3), ZxKey::G => (1, 4),
        ZxKey::Q => (2, 0), ZxKey::W => (2, 1), ZxKey::E => (2, 2), ZxKey::R => (2, 3), ZxKey::T => (2, 4),
        ZxKey::K1 => (3, 0), ZxKey::K2 => (3, 1), ZxKey::K3 => (3, 2), ZxKey::K4 => (3, 3), ZxKey::K5 => (3, 4),
        ZxKey::K0 => (4, 0), ZxKey::K9 => (4, 1), ZxKey::K8 => (4, 2), ZxKey::K7 => (4, 3), ZxKey::K6 => (4, 4),
        ZxKey::P => (5, 0), ZxKey::O => (5, 1), ZxKey::I => (5, 2), ZxKey::U => (5, 3), ZxKey::Y => (5, 4),
        ZxKey::Enter => (6, 0), ZxKey::L => (6, 1), ZxKey::K => (6, 2), ZxKey::J => (6, 3), ZxKey::H => (6, 4),
        ZxKey::Space => (7, 0), ZxKey::SymShift => (7, 1), ZxKey::M => (7, 2), ZxKey::N => (7, 3), ZxKey::B => (7, 4),
    }
}

/// Whether bit `b` of the byte `v` is set.
pub open spec fn has_bit(v: u8, b: u8) -> bool {
    (v >> b) & 1 == 1
}

/// Whether half-row `row` is selected by the upper port byte `port_hi` (active low).
pub open spec fn row_selected(port_hi: u8, row: int) -> bool {
    !has_bit(port_hi, row as u8)
}

/// The keyboard state: for each half-row, a byte whose bit set means the key is pressed.
pub struct Keyboard {
    rows: [u8; 8],
}

impl View for Keyboard {
    type V = Seq<u8>;

    closed spec fn view(&self) -> Seq<u8> {
        self.rows@
    }
}

impl Keyboard {
    /// The keyboard state always has eight half-rows.
    pub proof fn lemma_rows_len(&self)
        ensures
            self@.len() == 8,
    {
    }
}

/// Whether key position (`row`, `b`) is held down in the rows `rows`.
pub open spec fn pressed_at(rows: Seq<u8>, row: int, b: int) -> bool {
    has_bit(rows[row], b as u8)
}

/// The keyboard rows after pressing `k`.
pub open spec fn press_rows(rows: Seq<u8>, k: ZxKey) -> Seq<u8> {
    rows.update(key_location(k).0, rows[key_location(k).0] | (1u8 << key_location(k).1 as u8))
}

/// The keyboard rows after releasing `k`.
pub open spec fn release_rows(rows: Seq<u8>, k: ZxKey) -> Seq<u8> {
    rows.update(key_location(k).0, rows[key_location(k).0] & !(1u8 << key_location(k).1 as u8))
}

/// Whether `k` is held down in the rows `rows`.
pub open spec fn key_pressed(rows: Seq<u8>, k: ZxKey) -> bool {
    pressed_at(rows, key_location(k).0, key_location(k).1)
}

/// What a read of the keyboard with upper port byte `port_hi` gives: bits 7:5 are 0;
/// bit `b` of 4:0 is 0 exactly when some selected half-row has key `b` pressed.
pub open spec fn read_result(rows: Seq<u8>, port_hi: u8, r: u8) -> bool {
    &&& r < 32
    &&& forall|b: int|
        0 <= b < 5 ==> (#[trigger] has_bit(r, b as u8) <==> !(exists|row: int|
            0 <= row < 8 && row_selected(port_hi, row) && #[trigger] pressed_at(rows, row, b)))
}

/// Whether no half-row selected by `port_hi` has key `b` (0..5) pressed.
pub open spec fn column_free(rows: Seq<u8>, port_hi: u8, b: int) -> bool {
    !(exists|row: int| 0 <= row < 8 && row_selected(port_hi, row) && #[trigger] pressed_at(rows, row, b))
}

/// The byte that a read of the keyboard with upper port byte `port_hi` gives:
/// bit `b` (0..5) is 1 exactly when no selected half-row has key `b` pressed; bits 7:5 are 0.
pub open spec fn read_value(rows: Seq<u8>, port_hi: u8) -> u8 {
    (b2i(column_free(rows, port_hi, 0)) + 2 * b2i(column_free(rows, port_hi, 1)) + 4 * b2i(
        column_free(rows, port_hi, 2),
    ) + 8 * b2i(column_free(rows, port_hi, 3)) + 16 * b2i(column_free(rows, port_hi, 4))) as u8
}

proof fn lemma_five_bits(r: u8) by (bit_vector)
    requires
        r < 32,
    ensures
        r == ((r >> 0u8) & 1) + 2 * ((r >> 1u8) & 1) + 4 * ((r >> 2u8) & 1) + 8 * ((r >> 3u8) & 1) + 16 * ((r >> 4u8) & 1),
        (r >> 0u8) & 1 <= 1, (r >> 1u8) & 1 <= 1, (r >> 2u8) & 1 <= 1, (r >> 3u8) & 1 <= 1, (r >> 4u8) & 1 <= 1,
{
}

proof fn lemma_and_not(x: u8, y: u8, b: u8) by (bit_vector)
    requires
        b < 8,
    ensures
        ((x & !y) >> b) & 1 == 1 <==> ((x >> b) & 1 == 1 && (y >> b) & 1 != 1),
        x < 32 ==> (x & !y) < 32,
{
}

proof fn lemma_set_bit(x: u8, b: u8, c: u8) by (bit_vector)
    requires
        b < 8,
        c < 8,
    ensures
        ((x | (1u8 << b)) >> b) & 1 == 1,
        ((x & !(1u8 << b)) >> b) & 1 != 1,
        c != b ==> (((x | (1u8 << b)) >> c) & 1 == 1 <==> (x >> c) & 1 == 1),
        c != b ==> (((x & !(1u8 << b)) >> c) & 1 == 1 <==> (x >> c) & 1 == 1),
{
}

proof fn lemma_row_test(p: u8, row: u8) by (bit_vector)
    requires
        row < 8,
    ensures
        (p & (1u8 << row) == 0) <==> ((p >> row) & 1 != 1),
{
}

proof fn lemma_low_bits(v: u8) by (bit_vector)
    ensures
        v == 0x1f ==> forall|b: u8| b < 5 ==> #[trigger] ((v >> b) & 1) == 1,
        v < 32 ==> forall|b: u8| 5 <= b < 8 ==> #[trigger] ((v >> b) & 1) == 0,
{
}

impl ZxKey {
    /// Returns (row, bit) for this key.
    fn location(self) -> (r: (usize, usize))
        ensures
            r.0 == key_location(self).0,
            r.1 == key_location(self).1,
            r.0 < 8,
            r.1 < 5,
    {
        match self {
            ZxKey::CapsShift => (0, 0), ZxKey::Z => (0, 1), ZxKey::X => (0, 2),
            ZxKey::C => (0, 3), ZxKey::V => (0, 4),

            ZxKey::A => (1, 0), ZxKey::S => (1, 1), ZxKey::D => (1, 2),
            ZxKey::F => (1, 3), ZxKey::G => (1, 4),

            ZxKey::Q => (2, 0), ZxKey::W => (2, 1), ZxKey::E => (2, 2),
            ZxKey::R => (2, 3), ZxKey::T => (2, 4),

            ZxKey::K1 => (3, 0), ZxKey::K2 => (3, 1), ZxKey::K3 => (3, 2),
            ZxKey::K4 => (3, 3), ZxKey::K5 => (3, 4),

            ZxKey::K0 => (4, 0), ZxKey::K9 => (4, 1), ZxKey::K8 => (4, 2),
            ZxKey::K7 => (4, 3), ZxKey::K6 => (4, 4),

            ZxKey::P => (5, 0), ZxKey::O => (5, 1), ZxKey::I => (5, 2),
            ZxKey::U => (5, 3), ZxKey::Y => (5, 4),

            ZxKey::Enter => (6, 0), ZxKey::L => (6, 1), ZxKey::K => (6, 2),
            ZxKey::J => (6, 3), ZxKey::H => (6, 4),

            ZxKey::Space => (7, 0), ZxKey::SymShift => (7, 1), ZxKey::M => (7, 2),
            ZxKey::N => (7, 3), ZxKey::B => (7, 4),
        }
    }
}

impl Keyboard {
    /// A keyboard with no key pressed.
    pub fn new() -> (kb: Self)
        ensures
            kb@ == Seq::new(8, |i: int| 0u8),
    {
        let kb = Keyboard { rows: [0u8, 0u8, 0u8, 0u8, 0u8, 0u8, 0u8, 0u8] };
        assert(kb@ =~= Seq::new(8, |i: int| 0u8));
        kb
    }

    /// Read the combined state of all half-rows selected by `port_hi` (upper byte).
    /// Returns bits 4:0 with 0 = pressed, 1 = released (active-low).
    pub fn read(&self, port_hi: u8) -> (r: u8)
        ensures
            read_result(self@, port_hi, r),
            r == read_value(self@, port_hi),
    {
        let mut result = 0x1Fu8;  // all 5 bits high (not pressed)
        proof {
            lemma_low_bits(result);
        }
        let mut row: usize = 0;
        while row < 8
            invariant
                row <= 8,
                self@.len() == 8,
                result < 32,
                forall|b: int|
                    0 <= b < 5 ==> (#[trigger] has_bit(result, b as u8) <==> !(exists|rw: int|
                        0 <= rw < row && row_selected(port_hi, rw) && #[trigger] pressed_at(self@, rw, b))),
            decreases 8 - row,
        {
            let old_result = result;
            proof {
                lemma_row_test(port_hi, row as u8);
            }
            if port_hi & (1u8 << row as u8) == 0 {
                // This row is selected: clear the bits of its pressed keys
                result &= !self.rows[row];
            }
            proof {
                assert forall|b: int| 0 <= b < 5 implies (#[trigger] has_bit(result, b as u8) <==> !(exists|rw: int|
                    0 <= rw < row + 1 && row_selected(port_hi, rw) && #[trigger] pressed_at(self@, rw, b))) by {
                    lemma_and_not(old_result, self.rows[row as int], b as u8);
                    if has_bit(result, b as u8) {
                        if exists|rw: int| 0 <= rw < row + 1 && row_selected(port_hi, rw) && #[trigger] pressed_at(self@, rw, b) {
                            let rw = choose|rw: int| 0 <= rw < row + 1 && row_selected(port_hi, rw) && #[trigger] pressed_at(self@, rw, b);
                            if rw < row {
                                assert(!has_bit(old_result, b as u8));
                            }
                        }
                    } else {
                        if !has_bit(old_result, b as u8) {
                            let rw = choose|rw: int| 0 <= rw < row && row_selected(port_hi, rw) && #[trigger] pressed_at(self@, rw, b);
                            assert(0 <= rw < row + 1 && row_selected(port_hi, rw) && pressed_at(self@, rw, b));
                        } else {
                            assert(0 <= row < row + 1 && row_selected(port_hi, row as int) && pressed_at(self@, row as int, b));
                        }
                    }
                }
                lemma_and_not(old_result, self.rows[row as int], 0);
            }
            row += 1;
        }
        proof {
            lemma_five_bits(result);
            assert(has_bit(result, (0int) as u8) == column_free(self@, port_hi, 0));
            assert(has_bit(result, (1int) as u8) == column_free(self@, port_hi, 1));
            assert(has_bit(result, (2int) as u8) == column_free(self@, port_hi, 2));
            assert(has_bit(result, (3int) as u8) == column_free(self@, port_hi, 3));
            assert(has_bit(result, (4int) as u8) == column_free(self@, port_hi, 4));
        }
        result
    }

    /// Mark `key` as held down.
    pub fn press(&mut self, key: ZxKey)
        ensures
            final(self)@ == press_rows(old(self)@, key),
            key_pressed(final(self)@, key),
            forall|k: ZxKey| k != key ==> key_pressed(final(self)@, k) == key_pressed(old(self)@, k),
    {
        let (row, bit) = key.location();
        let v = self.rows[row] | (1u8 << bit as u8);
        self.rows[row] = v;
        proof {
            assert forall|k: ZxKey| k != key implies key_pressed(final(self)@, k) == key_pressed(old(self)@, k) by {
                lemma_set_bit(old(self)@[row as int], bit as u8, key_location(k).1 as u8);
            }
            lemma_set_bit(old(self)@[row as int], bit as u8, 0);
        }
    }

    /// Mark `key` as released.
    pub fn release(&mut self, key: ZxKey)
        ensures
            final(self)@ == release_rows(old(self)@, key),
            !key_pressed(final(self)@, key),
            forall|k: ZxKey| k != key ==> key_pressed(final(self)@, k) == key_pressed(old(self)@, k),
    {
        let (row, bit) = key.location();
        let v = self.rows[row] & !(1u8 << bit as u8);
        self.rows[row] = v;
        proof {
            assert forall|k: ZxKey| k != key implies key_pressed(final(self)@, k) == key_pressed(old(self)@, k) by {
                lemma_set_bit(old(self)@[row as int], bit as u8, key_location(k).1 as u8);
            }
            lemma_set_bit(old(self)@[row as int], bit as u8, 0);
        }
    }
}

/// The key for the letter byte `c` ('A'..='Z').
pub open spec fn letter_key(c: u8) -> Option<ZxKey> {
    if c == 65u8 { Some(ZxKey::A) }
    else if c == 66u8 { Some(ZxKey::B) }
    else if c == 67u8 { Some(ZxKey::C) }
    else if c == 68u8 { Some(ZxKey::D) }
    else if c == 69u8 { Some(ZxKey::E) }
    else if c == 70u8 { Some(ZxKey::F) }
    else if c == 71u8 { Some(ZxKey::G) }
    else if c == 72u8 { Some(ZxKey::H) }
    else if c == 73u8 { Some(ZxKey::I) }
    else if c == 74u8 { Some(ZxKey::J) }
    else if c == 75u8 { Some(ZxKey::K) }
    else if c == 76u8 { Some(ZxKey::L) }
    else if c == 77u8 { Some(ZxKey::M) }
    else if c == 78u8 { Some(ZxKey::N) }
    else if c == 79u8 { Some(ZxKey::O) }
    else if c == 80u8 { Some(ZxKey::P) }
    else if c == 81u8 { Some(ZxKey::Q) }
    else if c == 82u8 { Some(ZxKey::R) }
    else if c == 83u8 { Some(ZxKey::S) }
    else if c == 84u8 { Some(ZxKey::T) }
    else if c == 85u8 { Some(ZxKey::U) }
    else if c == 86u8 { Some(ZxKey::V) }
    else if c == 87u8 { Some(ZxKey::W) }
    else if c == 88u8 { Some(ZxKey::X) }
    else if c == 89u8 { Some(ZxKey::Y) }
    else if c == 90u8 { Some(ZxKey::Z) }
    else { None }
}

/// The key for the digit byte `c` ('0'..='9').
pub open spec fn digit_key(c: u8) -> Option<ZxKey> {
    if c == 48u8 { Some(ZxKey::K0) }
    else if c == 49u8 { Some(ZxKey::K1) }
    else if c == 50u8 { Some(ZxKey::K2) }
    else if c == 51u8 { Some(ZxKey::K3) }
    else if c == 52u8 { Some(ZxKey::K4) }
    else if c == 53u8 { Some(ZxKey::K5) }
    else if c == 54u8 { Some(ZxKey::K6) }
    else if c == 55u8 { Some(ZxKey::K7) }
    else if c == 56u8 { Some(ZxKey::K8) }
    else if c == 57u8 { Some(ZxKey::K9) }
    else { None }
}

/// The key that a JS `event.code` string (given by its bytes) names, if any:
/// "ShiftLeft", "ShiftRight", "CapsLock" are CAPS SHIFT; "ControlLeft", "ControlRight"
/// SYMBOL SHIFT; "Space"; "Enter"; "KeyA".."KeyZ"; "Digit0".."Digit9".
pub open spec fn key_for_code(s: Seq<u8>) -> Option<ZxKey> {
    if s == seq![83u8, 104u8, 105u8, 102u8, 116u8, 76u8, 101u8, 102u8, 116u8] /* "ShiftLeft" */ || s == seq![83u8, 104u8, 105u8, 102u8, 116u8, 82u8, 105u8, 103u8, 104u8, 116u8] /* "ShiftRight" */ || s == seq![67u8, 97u8, 112u8, 115u8, 76u8, 111u8, 99u8, 107u8] /* "CapsLock" */ {
        Some(ZxKey::CapsShift)
    } else if s == seq![67u8, 111u8, 110u8, 116u8, 114u8, 111u8, 108u8, 76u8, 101u8, 102u8, 116u8] /* "ControlLeft" */ || s == seq![67u8, 111u8, 110u8, 116u8, 114u8, 111u8, 108u8, 82u8, 105u8, 103u8, 104u8, 116u8] /* "ControlRight" */ {
        Some(ZxKey::SymShift)
    } else if s == seq![83u8, 112u8, 97u8, 99u8, 101u8] /* "Space" */ {
        Some(ZxKey::Space)
    } else if s == seq![69u8, 110u8, 116u8, 101u8, 114u8] /* "Enter" */ {
        Some(ZxKey::Enter)
    } else if s.len() == 4 && s.subrange(0, 3) == seq![75u8, 101u8, 121u8] /* "Key" */ {
        letter_key(s[3])
    } else if s.len() == 6 && s.subrange(0, 5) == seq![68u8, 105u8, 103u8, 105u8, 116u8] /* "Digit" */ {
        digit_key(s[5])
    } else {
        None
    }
}

/// Whether the byte strings `a` and `b` are equal.
pub(crate) fn bytes_eq(a: &[u8], b: &[u8]) -> (r: bool)
    ensures
        r == (a@ == b@),
{
    if a.len() != b.len() {
        return false;
    }
    let mut i: usize = 0;
    while i < a.len()
        invariant
            a@.len() == b@.len(),
            i <= a@.len(),
            forall|j: int| 0 <= j < i ==> a@[j] == b@[j],
        decreases a@.len() - i,
    {
        if a[i] != b[i] {
            return false;
        }
        i += 1;
    }
    assert(a@ =~= b@);
    true
}

fn letter_key_of(c: u8) -> (k: Option<ZxKey>)
    ensures
        k == letter_key(c),
{
    match c {
        65u8 => Some(ZxKey::A),
        66u8 => Some(ZxKey::B),
        67u8 => Some(ZxKey::C),
        68u8 => Some(ZxKey::D),
        69u8 => Some(ZxKey::E),
        70u8 => Some(ZxKey::F),
        71u8 => Some(ZxKey::G),
        72u8 => Some(ZxKey::H),
        73u8 => Some(ZxKey::I),
        74u8 => Some(ZxKey::J),
        75u8 => Some(ZxKey::K),
        76u8 => Some(ZxKey::L),
        77u8 => Some(ZxKey::M),
        78u8 => Some(ZxKey::N),
        79u8 => Some(ZxKey::O),
        80u8 => Some(ZxKey::P),
        81u8 => Some(ZxKey::Q),
        82u8 => Some(ZxKey::R),
        83u8 => Some(ZxKey::S),
        84u8 => Some(ZxKey::T),
        85u8 => Some(ZxKey::U),
        86u8 => Some(ZxKey::V),
        87u8 => Some(ZxKey::W),
        88u8 => Some(ZxKey::X),
        89u8 => Some(ZxKey::Y),
        90u8 => Some(ZxKey::Z),
        _ => None,
    }
}

fn digit_key_of(c: u8) -> (k: Option<ZxKey>)
    ensures
        k == digit_key(c),
{
    match c {
        48u8 => Some(ZxKey::K0),
        49u8 => Some(ZxKey::K1),
        50u8 => Some(ZxKey::K2),
        51u8 => Some(ZxKey::K3),
        52u8 => Some(ZxKey::K4),
        53u8 => Some(ZxKey::K5),
        54u8 => Some(ZxKey::K6),
        55u8 => Some(ZxKey::K7),
        56u8 => Some(ZxKey::K8),
        57u8 => Some(ZxKey::K9),
        _ => None,
    }
}

/// Map a JS `event.code` string to a ZxKey (or None if unmapped).
/// Using `e.code` rather than `e.key` means the mapping is layout-independent
/// and modifier keys have unambiguous values (e.g. "ShiftLeft" not "Shift").
/// Arrow keys are not mapped here: they need CAPS SHIFT chorded with a digit.
pub fn map_key(code: &str) -> (k: Option<ZxKey>)
    ensures
        k == key_for_code(code.spec_bytes()),
{
    let s = code.as_bytes();
    if bytes_eq(s, &[83u8, 104u8, 105u8, 102u8, 116u8, 76u8, 101u8, 102u8, 116u8] /* "ShiftLeft" */) || bytes_eq(s, &[83u8, 104u8, 105u8, 102u8, 116u8, 82u8, 105u8, 103u8, 104u8, 116u8] /* "ShiftRight" */) || bytes_eq(s, &[67u8, 97u8, 112u8, 115u8, 76u8, 111u8, 99u8, 107u8] /* "CapsLock" */) {
        Some(ZxKey::CapsShift)
    } else if bytes_eq(s, &[67u8, 111u8, 110u8, 116u8, 114u8, 111u8, 108u8, 76u8, 101u8, 102u8, 116u8] /* "ControlLeft" */) || bytes_eq(s, &[67u8, 111u8, 110u8, 116u8, 114u8, 111u8, 108u8, 82u8, 105u8, 103u8, 104u8, 116u8] /* "ControlRight" */) {
        Some(ZxKey::SymShift)
    } else if bytes_eq(s, &[83u8, 112u8, 97u8, 99u8, 101u8] /* "Space" */) {
        Some(ZxKey::Space)
    } else if bytes_eq(s, &[69u8, 110u8, 116u8, 101u8, 114u8] /* "Enter" */) {
        Some(ZxKey::Enter)
    } else if s.len() == 4 && s[0] == 75u8 && s[1] == 101u8 && s[2] == 121u8 {
        proof {
            assert(s@.subrange(0, 3) =~= seq![75u8, 101u8, 121u8] /* "Key" */);
        }
        letter_key_of(s[3])
    } else if s.len() == 6 && s[0] == 68u8 && s[1] == 105u8 && s[2] == 103u8 && s[3] == 105u8 && s[4] == 116u8 {
        proof {
            assert(s@.subrange(0, 5) =~= seq![68u8, 105u8, 103u8, 105u8, 116u8] /* "Digit" */);
        }
        digit_key_of(s[5])
    } else {
        proof {
            if s@.len() == 4 {
                assert(s@.subrange(0, 3) == seq![75u8, 101u8, 121u8] /* "Key" */ ==> s@[0] == 75u8 && s@[1] == 101u8 && s@[2] == 121u8);
            }
            if s@.len() == 6 {
                assert(s@.subrange(0, 5) == seq![68u8, 105u8, 103u8, 105u8, 116u8] /* "Digit" */ ==> s@[0] == 68u8 && s@[1] == 105u8 && s@[2] == 103u8 && s@[3] == 105u8 && s@[4] == 116u8);
            }
        }
        None
    }
}

/// With no key pressed, every read gives 0x1F (all five keys released).
pub proof fn lemma_no_keys_read(rows: Seq<u8>, port_hi: u8)
    requires
        rows.len() == 8,
        forall|i: int| 0 <= i < 8 ==> rows[i] == 0,
    ensures
        read_value(rows, port_hi) == 0x1F,
{
    assert forall|row: int, b: int| 0 <= row < 8 && 0 <= b < 5 implies !pressed_at(rows, row, b) by {
        let bb = b as u8;
        assert((0u8 >> bb) & 1 == 0) by (bit_vector)
            requires
                bb < 5;
    }
}

/// A read that selects no half-row (port high byte 0xFF) gives 0x1F, whatever is pressed.
pub proof fn lemma_no_row_selected(rows: Seq<u8>)
    ensures
        read_value(rows, 0xFF) == 0x1F,
{
    assert forall|row: int| 0 <= row < 8 implies !row_selected(0xFF, row) by {
        let rr = row as u8;
        assert((0xFFu8 >> rr) & 1 == 1) by (bit_vector)
            requires
                rr < 8;
    }
}

/// A pressed key reads as 0 in its bit whenever its half-row is selected.
pub proof fn lemma_pressed_key_reads_low(rows: Seq<u8>, k: ZxKey, port_hi: u8)
    requires
        rows.len() == 8,
        key_pressed(rows, k),
        row_selected(port_hi, key_location(k).0),
    ensures
        !has_bit(read_value(rows, port_hi), key_location(k).1 as u8),
{
    let (row, b) = key_location(k);
    assert(!column_free(rows, port_hi, b));
    let r = read_value(rows, port_hi);
    let c0 = b2i(column_free(rows, port_hi, 0));
    let c1 = b2i(column_free(rows, port_hi, 1));
    let c2 = b2i(column_free(rows, port_hi, 2));
    let c3 = b2i(column_free(rows, port_hi, 3));
    let c4 = b2i(column_free(rows, port_hi, 4));
    lemma_bits_of_sum(c0 as u8, c1 as u8, c2 as u8, c3 as u8, c4 as u8);
}

proof fn lemma_bits_of_sum(c0: u8, c1: u8, c2: u8, c3: u8, c4: u8) by (bit_vector)
    requires
        c0 <= 1, c1 <= 1, c2 <= 1, c3 <= 1, c4 <= 1,
    ensures
        ((c0 + 2 * c1 + 4 * c2 + 8 * c3 + 16 * c4) as u8 >> 0u8) & 1 == c0,
        ((c0 + 2 * c1 + 4 * c2 + 8 * c3 + 16 * c4) as u8 >> 1u8) & 1 == c1,
        ((c0 + 2 * c1 + 4 * c2 + 8 * c3 + 16 * c4) as u8 >> 2u8) & 1 == c2,
        ((c0 + 2 * c1 + 4 * c2 + 8 * c3 + 16 * c4) as u8 >> 3u8) & 1 == c3,
        ((c0 + 2 * c1 + 4 * c2 + 8 * c3 + 16 * c4) as u8 >> 4u8) & 1 == c4,
{
}

proof fn lemma_or_and_not(x: u8, b: u8) by (bit_vector)
    requires
        b < 8,
        (x >> b) & 1 != 1,
    ensures
        (x | (1u8 << b)) & !(1u8 << b) == x,
{
}

/// Releasing a key that was up before it was pressed restores the keyboard.
pub proof fn lemma_release_undoes_press(rows: Seq<u8>, k: ZxKey)
    requires
        rows.len() == 8,
        !key_pressed(rows, k),
    ensures
        release_rows(press_rows(rows, k), k) == rows,
{
    let (row, b) = key_location(k);
    lemma_or_and_not(rows[row], b as u8);
    assert(release_rows(press_rows(rows, k), k) =~= rows);
}

/// Pressing a key that is already down changes nothing.
pub proof fn lemma_press_idempotent(rows: Seq<u8>, k: ZxKey)
    requires
        rows.len() == 8,
        key_pressed(rows, k),
    ensures
        press_rows(rows, k) == rows,
{
    let (row, b) = key_location(k);
    let x = rows[row];
    let bb = b as u8;
    assert((x | (1u8 << bb)) == x) by (bit_vector)
        requires
            bb < 8,
            (x >> bb) & 1 == 1;
    assert(press_rows(rows, k) =~= rows);
}

proof fn lemma_bits_commute(x: u8, a: u8, b: u8) by (bit_vector)
    requires
        a < 8,
        b < 8,
    ensures
        (x | (1u8 << a)) & !(1u8 << b) == (x & !(1u8 << b)) | (1u8 << a) || a == b,
{
}

/// Releasing one key and pressing a different one commute.
pub proof fn lemma_press_release_other(rows: Seq<u8>, k: ZxKey, other: ZxKey)
    requires
        rows.len() == 8,
        k != other,
    ensures
        release_rows(press_rows(rows, k), other) == press_rows(release_rows(rows, other), k),
{
    let (r1, b1) = key_location(k);
    let (r2, b2) = key_location(other);
    if r1 == r2 {
        lemma_bits_commute(rows[r1], b1 as u8, b2 as u8);
    }
    assert(release_rows(press_rows(rows, k), other) =~= press_rows(release_rows(rows, other), k));
}

proof fn lemma_and_selects(p: u8, q: u8, rr: u8) by (bit_vector)
    requires
        rr < 8,
    ensures
        ((p & q) >> rr) & 1 == 1 <==> (p >> rr) & 1 == 1 && (q >> rr) & 1 == 1,
{
}

proof fn lemma_and_of_bits(
    a0: u8, a1: u8, a2: u8, a3: u8, a4: u8,
    b0: u8, b1: u8, b2: u8, b3: u8, b4: u8,
) by (bit_vector)
    requires
        a0 <= 1, a1 <= 1, a2 <= 1, a3 <= 1, a4 <= 1,
        b0 <= 1, b1 <= 1, b2 <= 1, b3 <= 1, b4 <= 1,
    ensures
        ((a0 + 2 * a1 + 4 * a2 + 8 * a3 + 16 * a4) as u8) & ((b0 + 2 * b1 + 4 * b2 + 8 * b3 + 16 * b4) as u8)
            == ((a0 & b0) + 2 * (a1 & b1) + 4 * (a2 & b2) + 8 * (a3 & b3) + 16 * (a4 & b4)) as u8,
{
}

/// Reading with the rows of `p` and of `q` selected at once gives the AND of the two reads:
/// a key reads pressed when it is down in a row that either selects. A read never has
/// bits 7:5 set, and selecting no row reads 0x1F.
pub proof fn lemma_read_combines_rows(rows: Seq<u8>, p: u8, q: u8)
    ensures
        read_value(rows, p & q) == read_value(rows, p) & read_value(rows, q),
        read_value(rows, p) <= 0x1F,
        read_value(rows, 0xFF) == 0x1F,
{
    assert forall|row: int| 0 <= row < 8 implies row_selected(p & q, row) == (row_selected(p, row)
        || row_selected(q, row)) by {
        lemma_and_selects(p, q, row as u8);
    }
    assert forall|b: int| 0 <= b < 5 implies column_free(rows, p & q, b) == (column_free(rows, p, b)
        && column_free(rows, q, b)) by {
        if !column_free(rows, p & q, b) {
            let row = choose|row: int| 0 <= row < 8 && row_selected(p & q, row) && #[trigger] pressed_at(rows, row, b);
            assert(row_selected(p, row) || row_selected(q, row));
        }
        if !column_free(rows, p, b) {
            let row = choose|row: int| 0 <= row < 8 && row_selected(p, row) && #[trigger] pressed_at(rows, row, b);
            assert(row_selected(p & q, row));
        }
        if !column_free(rows, q, b) {
            let row = choose|row: int| 0 <= row < 8 && row_selected(q, row) && #[trigger] pressed_at(rows, row, b);
            assert(row_selected(p & q, row));
        }
    }
    let a = |b: int| if column_free(rows, p, b) { 1u8 } else { 0u8 };
    let c = |b: int| if column_free(rows, q, b) { 1u8 } else { 0u8 };
    lemma_and_of_bits(a(0), a(1), a(2), a(3), a(4), c(0), c(1), c(2), c(3), c(4));
    assert(1u8 & 1u8 == 1u8 && 1u8 & 0u8 == 0u8 && 0u8 & 1u8 == 0u8 && 0u8 & 0u8 == 0u8) by (bit_vector);
    lemma_no_row_selected(rows);
}

/// Each key has its own place in the matrix: a half-row below 8 and a bit below 5, and
/// no two keys share one.
pub proof fn lemma_key_locations_distinct(k1: ZxKey, k2: ZxKey)
    ensures
        0 <= key_location(k1).0 < 8,
        0 <= key_location(k1).1 < 5,
        key_location(k1) == key_location(k2) ==> k1 == k2,
{
}

/// Whether `s` is "Key" followed by a capital letter.
pub open spec fn is_letter_code(s: Seq<u8>) -> bool {
    s.len() == 4 && s.subrange(0, 3) == seq![75u8, 101u8, 121u8] && 65 <= s[3] <= 90
}

/// Whether `s` is "Digit" followed by a decimal digit.
pub open spec fn is_digit_code(s: Seq<u8>) -> bool {
    s.len() == 6 && s.subrange(0, 5) == seq![68u8, 105u8, 103u8, 105u8, 116u8] && 48 <= s[5] <= 57
}

/// Whether `s` is one of the seven named codes: "ShiftLeft", "ShiftRight", "CapsLock",
/// "ControlLeft", "ControlRight", "Space", "Enter".
pub open spec fn is_named_code(s: Seq<u8>) -> bool {
    ||| s == seq![83u8, 104u8, 105u8, 102u8, 116u8, 76u8, 101u8, 102u8, 116u8]
    ||| s == seq![83u8, 104u8, 105u8, 102u8, 116u8, 82u8, 105u8, 103u8, 104u8, 116u8]
    ||| s == seq![67u8, 97u8, 112u8, 115u8, 76u8, 111u8, 99u8, 107u8]
    ||| s == seq![67u8, 111u8, 110u8, 116u8, 114u8, 111u8, 108u8, 76u8, 101u8, 102u8, 116u8]
    ||| s == seq![67u8, 111u8, 110u8, 116u8, 114u8, 111u8, 108u8, 82u8, 105u8, 103u8, 104u8, 116u8]
    ||| s == seq![83u8, 112u8, 97u8, 99u8, 101u8]
    ||| s == seq![69u8, 110u8, 116u8, 101u8, 114u8]
}

/// A key code is mapped exactly when it is one of the seven named codes, "KeyA".."KeyZ"
/// or "Digit0".."Digit9"; "Key" plus a letter gives that letter's key and "Digit" plus a
/// digit gives that digit's key.
pub proof fn lemma_mapped_codes(s: Seq<u8>)
    ensures
        key_for_code(s).is_some() <==> (is_named_code(s) || is_letter_code(s) || is_digit_code(s)),
        is_letter_code(s) ==> key_for_code(s) == letter_key(s[3]) && letter_byte(key_for_code(s).unwrap()) == s[3],
        is_digit_code(s) ==> key_for_code(s) == digit_key(s[5]),
{
}

/// The code "KeyX" for a letter key, "DigitN" for a digit key, and "ShiftLeft",
/// "ControlLeft", "Space" or "Enter" for the others.
pub open spec fn code_of(k: ZxKey) -> Seq<u8> {
    match k {
        ZxKey::CapsShift => seq![83u8, 104u8, 105u8, 102u8, 116u8, 76u8, 101u8, 102u8, 116u8],
        ZxKey::SymShift => seq![67u8, 111u8, 110u8, 116u8, 114u8, 111u8, 108u8, 76u8, 101u8, 102u8, 116u8],
        ZxKey::Space => seq![83u8, 112u8, 97u8, 99u8, 101u8],
        ZxKey::Enter => seq![69u8, 110u8, 116u8, 101u8, 114u8],
        ZxKey::K0 => seq![68u8, 105u8, 103u8, 105u8, 116u8, 48u8],
        ZxKey::K1 => seq![68u8, 105u8, 103u8, 105u8, 116u8, 49u8],
        ZxKey::K2 => seq![68u8, 105u8, 103u8, 105u8, 116u8, 50u8],
        ZxKey::K3 => seq![68u8, 105u8, 103u8, 105u8, 116u8, 51u8],
        ZxKey::K4 => seq![68u8, 105u8, 103u8, 105u8, 116u8, 52u8],
        ZxKey::K5 => seq![68u8, 105u8, 103u8, 105u8, 116u8, 53u8],
        ZxKey::K6 => seq![68u8, 105u8, 103u8, 105u8, 116u8, 54u8],
        ZxKey::K7 => seq![68u8, 105u8, 103u8, 105u8, 116u8, 55u8],
        ZxKey::K8 => seq![68u8, 105u8, 103u8, 105u8, 116u8, 56u8],
        ZxKey::K9 => seq![68u8, 105u8, 103u8, 105u8, 116u8, 57u8],
        _ => seq![75u8, 101u8, 121u8, letter_byte(k)],
    }
}

/// The capital letter naming a letter key (0 for the other keys).
pub open spec fn letter_byte(k: ZxKey) -> u8 {
    match k {
        ZxKey::A => 65u8, ZxKey::B => 66u8, ZxKey::C => 67u8, ZxKey::D => 68u8, ZxKey::E => 69u8,
        ZxKey::F => 70u8, ZxKey::G => 71u8, ZxKey::H => 72u8, ZxKey::I => 73u8, ZxKey::J => 74u8,
        ZxKey::K => 75u8, ZxKey::L => 76u8, ZxKey::M => 77u8, ZxKey::N => 78u8, ZxKey::O => 79u8,
        ZxKey::P => 80u8, ZxKey::Q => 81u8, ZxKey::R => 82u8, ZxKey::S => 83u8, ZxKey::T => 84u8,
        ZxKey::U => 85u8, ZxKey::V => 86u8, ZxKey::W => 87u8, ZxKey::X => 88u8, ZxKey::Y => 89u8,
        ZxKey::Z => 90u8, _ => 0u8,
    }
}

/// Every key of the Spectrum can be reached from some key code.
pub proof fn lemma_every_key_mapped(k: ZxKey)
    ensures
        key_for_code(code_of(k)) == Some(k),
{
    let s = code_of(k);
    assert(s.subrange(0, 3) =~= seq![75u8, 101u8, 121u8] || s.len() != 4);
    assert(s.subrange(0, 5) =~= seq![68u8, 105u8, 103u8, 105u8, 116u8] || s.len() != 6);
}

proof fn lemma_or_bit(x: u8, b: u8, b2: u8) by (bit_vector)
    requires
        b < 8,
        b2 < 8,
    ensures
        ((x | (1u8 << b)) >> b2) & 1 == 1 <==> ((x >> b2) & 1 == 1 || b == b2),
{
}

/// Pressing a key holds that key and leaves every other key as it was.
pub proof fn lemma_press_effect(rows: Seq<u8>, k: ZxKey, j: ZxKey)
    requires
        rows.len() == 8,
    ensures
        key_pressed(press_rows(rows, k), j) <==> (key_pressed(rows, j) || j == k),
        press_rows(rows, k).len() == 8,
{
    let (r1, b1) = key_location(k);
    let (r2, b2) = key_location(j);
    lemma_key_locations_distinct(k, j);
    lemma_key_locations_distinct(j, k);
    if r1 == r2 {
        lemma_or_bit(rows[r1], b1 as u8, b2 as u8);
    }
}

} // verus!

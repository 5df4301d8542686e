//! Number keys: each number can be typed on the digit row or the numpad.

use vstd::prelude::*;

verus! {

/// A key that types a number.
#[derive(Debug, Clone, Copy, PartialEq, Eq, Structural)]
pub enum NumberKey {
    /// The digit-row key of this number.
    Digit(u8),
    /// The numpad key of this number.
    Numpad(u8),
}

/// Both keys that type `num` (0 to 9): the digit-row key, then the numpad key.
pub fn any_numbered(num: usize) -> (keys: Vec<NumberKey>)
    requires
        num <= 9,
    ensures
        keys@ == seq![NumberKey::Digit(num as u8), NumberKey::Numpad(num as u8)],
{
    let n = num as u8;
    let keys = vec![NumberKey::Digit(n), NumberKey::Numpad(n)];
    assert(keys@ =~= seq![NumberKey::Digit(num as u8), NumberKey::Numpad(num as u8)]);
    keys
}

/// The smallest number whose keys are in the queried state (pressed, just pressed, or just
/// released), given that state for each number from 0 upwards; numbers are tried from 0 to 9.
pub fn first_number(state: &Vec<bool>) -> (n: Option<usize>)
    ensures
        match n {
            Some(k) => k <= 9 && k < state@.len() && state@[k as int] && forall|j: int|
                0 <= j < k ==> !state@[j],
            None => forall|j: int| 0 <= j < state@.len() && j <= 9 ==> !state@[j],
        },
{
    let mut k: usize = 0;
    while k <= 9 && k < state.len()
        invariant
            k <= 10,
            k <= state@.len(),
            forall|j: int| 0 <= j < k ==> !state@[j],
        decreases 10 - k,
    {
        if state[k] {
            return Some(k);
        }
        k = k + 1;
    }
    None
}

} // verus!

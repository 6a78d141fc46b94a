//! Small helpers shared by the input and output sides.
use vstd::prelude::*;
use std::marker::PhantomData;

verus! {

/// The number of touch slots that a `Slots` value has room for.
pub const SLOTS: usize = 10;

/// One value per touch slot.
pub type Slots<T> = [T; 10];

/// One value for every touch slot: the first `SLOTS - 1` are clones of
/// `element`, the last one is `element` itself.
pub fn mk_slots<T: Clone>(element: T) -> (r: Slots<T>)
    ensures
        forall|i: int| 0 <= i < SLOTS - 1 ==> cloned::<T>(element, #[trigger] r@[i]),
        r@[SLOTS - 1] == element,
{
    [
        element.clone(),
        element.clone(),
        element.clone(),
        element.clone(),
        element.clone(),
        element.clone(),
        element.clone(),
        element.clone(),
        element.clone(),
        element,
    ]
}

/// A source of values of type `T` that never yields one: reading from it
/// waits forever. Used where no input device is attached.
pub struct Blocking<T>(pub PhantomData<T>);

pub fn blocking<T>() -> (r: Blocking<T>) {
    Blocking(PhantomData)
}

pub open spec fn fits_i32(x: int) -> bool {
    i32::MIN <= x <= i32::MAX
}

pub open spec fn fits_i16(x: int) -> bool {
    i16::MIN <= x <= i16::MAX
}

/// Integer division rounding toward zero, as Rust's `/` does.
pub open spec fn div_toward_zero(a: int, b: int) -> int {
    if a >= 0 {
        a / b
    } else {
        -((-a) / b)
    }
}

/// The remainder that goes with `div_toward_zero`, as Rust's `%` computes
/// it: it has the sign of `a`.
pub open spec fn rem_toward_zero(a: int, b: int) -> int {
    if a >= 0 {
        a % b
    } else {
        -((-a) % b)
    }
}

} // verus!

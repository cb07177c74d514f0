use vstd::prelude::*;

verus! {

/// The smallest multiple of `multiple` that is at least `value`
/// (or `value` itself when `multiple` is zero).
pub open spec fn is_ceil_multiple(value: nat, multiple: nat, r: nat) -> bool {
    if multiple == 0 {
        r == value
    } else {
        r % multiple == 0 && value <= r < value + multiple
    }
}

/// Rounds `value` up to the next multiple of `multiple`; a zero `multiple`
/// leaves `value` unchanged.
pub fn ceil_to_multiple(value: usize, multiple: usize) -> (r: usize)
    requires
        multiple == 0 || value % multiple == 0 || value + (multiple - value % multiple)
            <= usize::MAX,
    ensures
        is_ceil_multiple(value as nat, multiple as nat, r as nat),
{
    if multiple == 0 || value % multiple == 0 {
        value
    } else {
        let rem = value % multiple;
        let r = value + (multiple - rem);
        assert(r % multiple == 0) by (nonlinear_arith)
            requires
                multiple > 0,
                rem == value % multiple,
                r == value + (multiple - rem),
        {
            assert(value == multiple * (value / multiple) + rem);
            assert(r == multiple * (value / multiple + 1));
        }
        r
    }
}

} // verus!

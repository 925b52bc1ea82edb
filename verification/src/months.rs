//! The months of the year.
use vstd::prelude::*;

verus! {

/// `time::Month::previous`: the month before, December before January. Months are counted from one.
#[verifier::external_body]
pub(crate) fn month_before(m: u8) -> (r: u8)
    requires
        1 <= m <= 12,
    ensures
        r == (if m == 1 {
            12int
        } else {
            m - 1
        }),
{
    match time::Month::try_from(m) {
        Ok(month) => month.previous() as u8,
        Err(_) => m,
    }
}

/// `time::Month::next`: the month after, January after December. Months are counted from one.
#[verifier::external_body]
pub(crate) fn month_after(m: u8) -> (r: u8)
    requires
        1 <= m <= 12,
    ensures
        r == (if m == 12 {
            1int
        } else {
            m + 1
        }),
{
    match time::Month::try_from(m) {
        Ok(month) => month.next() as u8,
        Err(_) => m,
    }
}

} // verus!

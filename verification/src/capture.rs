//! The capture test over one row of readings.
//!
//! A reading is the squared distance from the test particle to one graviton,
//! as the bit pattern of a single precision number. A squared distance is
//! never negative, and among such patterns the unsigned order of the bits is
//! the order of the numbers. A pattern above `LARGEST_FINITE` (an infinity, a
//! NaN, anything with the sign bit set) is farther than every distance: it
//! never captures and never lowers the least reading.

use vstd::prelude::*;
use crate::graviton::LARGEST_FINITE;

verus! {

/// Bit pattern of the squared capture radius, the square of one hundred.
pub const CAPTURE_RADIUS_SQUARED: u32 = 0x461C_4000;

/// The particle is caught by a graviton whose reading is below the squared
/// capture radius.
pub open spec fn captures(reading: u32) -> bool {
    reading < CAPTURE_RADIUS_SQUARED
}

/// `at` is the first position whose reading captures.
pub open spec fn is_first_capture(readings: Seq<u32>, at: int) -> bool {
    &&& 0 <= at < readings.len()
    &&& captures(readings[at])
    &&& forall|j: int| 0 <= j < at ==> !captures(#[trigger] readings[j])
}

/// No reading captures.
pub open spec fn none_captures(readings: Seq<u32>) -> bool {
    forall|j: int| 0 <= j < readings.len() ==> !captures(#[trigger] readings[j])
}

/// `least` is the smallest of the readings and `LARGEST_FINITE`.
pub open spec fn is_least_reading(readings: Seq<u32>, least: u32) -> bool {
    &&& least <= LARGEST_FINITE
    &&& forall|j: int| 0 <= j < readings.len() ==> least <= #[trigger] readings[j]
    &&& (least == LARGEST_FINITE || exists|j: int|
        0 <= j < readings.len() && #[trigger] readings[j] == least)
}

/// `at` is the first position that holds the smallest reading.
pub open spec fn is_nearest(readings: Seq<u32>, at: int) -> bool {
    &&& 0 <= at < readings.len()
    &&& forall|j: int| 0 <= j < readings.len() ==> readings[at] <= #[trigger] readings[j]
    &&& forall|j: int| 0 <= j < at ==> readings[at] < #[trigger] readings[j]
}

/// The first position whose reading captures, if there is one.
pub open spec fn first_capture(readings: Seq<u32>) -> Option<int>
    decreases readings.len(),
{
    if readings.len() == 0 {
        None
    } else {
        match first_capture(readings.drop_last()) {
            Some(at) => Some(at),
            None => if captures(readings.last()) {
                Some(readings.len() - 1)
            } else {
                None
            },
        }
    }
}

/// The smallest of the readings and `LARGEST_FINITE`.
pub open spec fn least_reading(readings: Seq<u32>) -> u32
    decreases readings.len(),
{
    if readings.len() == 0 {
        LARGEST_FINITE
    } else {
        let before = least_reading(readings.drop_last());
        if readings.last() < before {
            readings.last()
        } else {
            before
        }
    }
}

/// The first position that holds the smallest reading, if there is a reading.
pub open spec fn nearest_of(readings: Seq<u32>) -> Option<int>
    decreases readings.len(),
{
    if readings.len() == 0 {
        None
    } else {
        match nearest_of(readings.drop_last()) {
            Some(at) => if readings.last() < readings[at] {
                Some(readings.len() - 1)
            } else {
                Some(at)
            },
            None => Some(readings.len() - 1),
        }
    }
}

/// `first_capture` names the lowest capturing position, and is `None` exactly
/// when no reading captures.
pub proof fn lemma_first_capture(readings: Seq<u32>)
    ensures
        match first_capture(readings) {
            Some(at) => is_first_capture(readings, at),
            None => none_captures(readings),
        },
    decreases readings.len(),
{
    if readings.len() > 0 {
        lemma_first_capture(readings.drop_last());
        let before = readings.drop_last();
        assert(forall|j: int| 0 <= j < before.len() ==> before[j] == readings[j]);
    }
}

/// A position that is the first to capture is the one `first_capture` names.
pub proof fn lemma_first_capture_unique(readings: Seq<u32>, at: int)
    requires
        is_first_capture(readings, at),
    ensures
        first_capture(readings) == Some(at),
{
    lemma_first_capture(readings);
}

/// Where no reading captures, `first_capture` is `None`.
pub proof fn lemma_first_capture_none(readings: Seq<u32>)
    requires
        none_captures(readings),
    ensures
        first_capture(readings) == None::<int>,
{
    lemma_first_capture(readings);
}

/// `least_reading` is the smallest of the readings and `LARGEST_FINITE`.
pub proof fn lemma_least_reading(readings: Seq<u32>)
    ensures
        is_least_reading(readings, least_reading(readings)),
    decreases readings.len(),
{
    if readings.len() > 0 {
        let before = readings.drop_last();
        lemma_least_reading(before);
        assert(forall|j: int| 0 <= j < before.len() ==> before[j] == readings[j]);
        let least = least_reading(readings);
        if least != LARGEST_FINITE {
            if readings.last() < least_reading(before) {
                assert(readings[readings.len() - 1] == least);
            } else {
                let j = choose|j: int| 0 <= j < before.len() && #[trigger] before[j] == least;
                assert(readings[j] == least);
            }
        }
    }
}

/// Only one value is the smallest of the readings and `LARGEST_FINITE`.
pub proof fn lemma_least_reading_unique(readings: Seq<u32>, least: u32)
    requires
        is_least_reading(readings, least),
    ensures
        least_reading(readings) == least,
{
    lemma_least_reading(readings);
}

/// `nearest_of` names the first position of the smallest reading, and is
/// `None` exactly when there is no reading.
pub proof fn lemma_nearest(readings: Seq<u32>)
    ensures
        match nearest_of(readings) {
            Some(at) => is_nearest(readings, at),
            None => readings.len() == 0,
        },
    decreases readings.len(),
{
    if readings.len() > 0 {
        let before = readings.drop_last();
        lemma_nearest(before);
        assert(forall|j: int| 0 <= j < before.len() ==> before[j] == readings[j]);
    }
}

/// A position that is the first of the smallest reading is the one
/// `nearest_of` names.
pub proof fn lemma_nearest_unique(readings: Seq<u32>, at: int)
    requires
        is_nearest(readings, at),
    ensures
        nearest_of(readings) == Some(at),
{
    lemma_nearest(readings);
}

/// What one pass over the readings finds.
#[derive(Clone, Copy, Debug, PartialEq, Eq, Structural)]
pub enum Scan {
    /// The graviton at this position caught the particle.
    Captured(usize),
    /// No graviton caught it; the value is the least reading.
    Free(u32),
}

/// What `scan` returns on these readings.
pub open spec fn scan_of(readings: Seq<u32>) -> Scan {
    match first_capture(readings) {
        Some(at) => Scan::Captured(at as usize),
        None => Scan::Free(least_reading(readings)),
    }
}

/// Walks the readings in order and stops at the first that captures, so that
/// among several capturing gravitons the earliest wins. Where none captures,
/// the least reading is reported.
pub fn scan(readings: &Vec<u32>) -> (found: Scan)
    ensures
        found == scan_of(readings@),
        match found {
            Scan::Captured(at) => is_first_capture(readings@, at as int),
            Scan::Free(least) => none_captures(readings@) && is_least_reading(readings@, least),
        },
{
    let mut least: u32 = LARGEST_FINITE;
    let mut i: usize = 0;
    while i < readings.len()
        invariant
            i <= readings.len(),
            forall|j: int| 0 <= j < i ==> !captures(#[trigger] readings@[j]),
            is_least_reading(readings@.take(i as int), least),
        decreases readings.len() - i,
    {
        let reading: u32 = readings[i];
        if reading < CAPTURE_RADIUS_SQUARED {
            proof {
                lemma_first_capture_unique(readings@, i as int);
            }
            return Scan::Captured(i);
        }
        proof {
            let before = readings@.take(i as int);
            let after = readings@.take(i + 1);
            assert(forall|j: int| 0 <= j < i ==> before[j] == after[j]);
            if reading < least {
                assert(after[i as int] == reading);
            } else if least != LARGEST_FINITE {
                let j = choose|j: int| 0 <= j < before.len() && #[trigger] before[j] == least;
                assert(after[j] == least);
            }
        }
        if reading < least {
            least = reading;
        }
        i += 1;
    }
    proof {
        assert(readings@.take(i as int) =~= readings@);
        lemma_first_capture_none(readings@);
        lemma_least_reading_unique(readings@, least);
    }
    Scan::Free(least)
}

/// The position of the smallest reading, the earliest among equals; `None`
/// where there is no reading.
pub fn nearest(readings: &Vec<u32>) -> (found: Option<usize>)
    ensures
        match found {
            Some(at) => {
                &&& nearest_of(readings@) == Some(at as int)
                &&& is_nearest(readings@, at as int)
            },
            None => nearest_of(readings@) == None::<int> && readings@.len() == 0,
        },
{
    if readings.len() == 0 {
        return None;
    }
    let mut best: usize = 0;
    let mut i: usize = 1;
    while i < readings.len()
        invariant
            1 <= i <= readings.len(),
            is_nearest(readings@.take(i as int), best as int),
        decreases readings.len() - i,
    {
        proof {
            let before = readings@.take(i as int);
            let after = readings@.take(i + 1);
            assert(forall|j: int| 0 <= j < i ==> before[j] == after[j]);
        }
        if readings[i] < readings[best] {
            best = i;
        }
        i += 1;
    }
    proof {
        assert(readings@.take(i as int) =~= readings@);
        lemma_nearest_unique(readings@, best as int);
    }
    Some(best)
}

} // verus!

//! What the user does at the terminal.
use vstd::prelude::*;

verus! {

#[derive(Debug, PartialEq, Eq)]
pub enum Command {
    /// A line was entered.
    Submit(String),
    /// The line changed.
    Partial(String),
    /// The selection moves by so many places.
    SelectMove(i32),
    /// The terminal changed its size.
    Resize,
    Cancel,
    Exit,
    /// The permission mode changes to the next.
    CycleMode,
    /// A key was pressed while an approval is asked for.
    ApprovalKey(char),
    ToggleTranscript,
    /// The filter of the file picker changed.
    FilePickerFilter(String),
    FilePickerAccept,
    FilePickerClose,
}

/// Where a selection at `at` stands after moving by `delta` within `0..=max`.
pub open spec fn moved(at: int, delta: int, max: int) -> int {
    if at + delta < 0 {
        0
    } else if at + delta > max {
        max
    } else {
        at + delta
    }
}

/// Where a selection at `at` stands after moving by `delta` within `0..=max`.
pub fn move_within(at: usize, delta: i32, max: usize) -> (r: usize)
    ensures
        r == moved(at as int, delta as int, max as int),
        r <= max,
{
    let to: i128 = at as i128 + delta as i128;
    if to < 0 {
        0
    } else if to > max as i128 {
        max
    } else {
        to as usize
    }
}

/// A selection moves by as much as it is told to while that stays within the rows, and else goes
/// as far as they reach.
pub proof fn selections_move_as_far_as_they_can(at: int, delta: int, max: int)
    requires
        0 <= max,
    ensures
        0 <= moved(at, delta, max) <= max,
        0 <= at + delta <= max ==> moved(at, delta, max) == at + delta,
        at + delta < 0 ==> moved(at, delta, max) == 0,
        at + delta > max ==> moved(at, delta, max) == max,
{
}

} // verus!

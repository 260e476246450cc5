//! The command text the engine answers a search with.
use vstd::prelude::*;

verus! {

/// The reply to a search: `"move "` followed by the chosen move.
pub fn move_command(best_move: &str) -> (r: String)
    ensures
        r@ == "move "@ + best_move@,
{
    let mut out = String::from_str("move ");
    out.append(best_move);
    out
}

} // verus!

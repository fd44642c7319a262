//! The error taxonomy, and the human-readable messages that errors carry.
//!
//! Every failing operation returns one of the `Error` variants as a value;
//! verified code never panics. The "not found" messages embed the offending
//! identifier in decimal, so a small verified decimal renderer lives here too.

use vstd::prelude::*;
use vstd::string::StringExecFns;

verus! {

/// Every error the store can report.
#[derive(Debug)]
pub enum Error {
    /// A referenced identifier does not exist in the relevant store, or a bulk
    /// read found the store empty. The message names the kind and identifier.
    NotFound { msg: String },
    /// A structurally invalid mutation, such as an experience total that would
    /// overflow its field.
    InvalidOperation { msg: String },
    /// A player's experience is below an achievement's point threshold.
    InsufficientExperience { msg: String },
}

/// The character for one decimal digit.
pub open spec fn dec_digit(d: int) -> char {
    if d == 0 {
        '0'
    } else if d == 1 {
        '1'
    } else if d == 2 {
        '2'
    } else if d == 3 {
        '3'
    } else if d == 4 {
        '4'
    } else if d == 5 {
        '5'
    } else if d == 6 {
        '6'
    } else if d == 7 {
        '7'
    } else if d == 8 {
        '8'
    } else {
        '9'
    }
}

/// The decimal rendering of `n`: most significant digit first, no leading
/// zeros, a single `'0'` for zero.
pub open spec fn dec_str(n: nat) -> Seq<char>
    decreases n,
{
    if n < 10 {
        seq![dec_digit(n as int)]
    } else {
        dec_str(n / 10).push(dec_digit((n % 10) as int))
    }
}

fn push_digit(s: &mut String, d: u64)
    requires
        d < 10,
    ensures
        final(s)@ == old(s)@ + seq![dec_digit(d as int)],
{
    if d == 0 {
        s.append("0");
        proof {
            reveal_strlit("0");
            assert(("0")@ =~= seq![dec_digit(d as int)]);
        }
    } else if d == 1 {
        s.append("1");
        proof {
            reveal_strlit("1");
            assert(("1")@ =~= seq![dec_digit(d as int)]);
        }
    } else if d == 2 {
        s.append("2");
        proof {
            reveal_strlit("2");
            assert(("2")@ =~= seq![dec_digit(d as int)]);
        }
    } else if d == 3 {
        s.append("3");
        proof {
            reveal_strlit("3");
            assert(("3")@ =~= seq![dec_digit(d as int)]);
        }
    } else if d == 4 {
        s.append("4");
        proof {
            reveal_strlit("4");
            assert(("4")@ =~= seq![dec_digit(d as int)]);
        }
    } else if d == 5 {
        s.append("5");
        proof {
            reveal_strlit("5");
            assert(("5")@ =~= seq![dec_digit(d as int)]);
        }
    } else if d == 6 {
        s.append("6");
        proof {
            reveal_strlit("6");
            assert(("6")@ =~= seq![dec_digit(d as int)]);
        }
    } else if d == 7 {
        s.append("7");
        proof {
            reveal_strlit("7");
            assert(("7")@ =~= seq![dec_digit(d as int)]);
        }
    } else if d == 8 {
        s.append("8");
        proof {
            reveal_strlit("8");
            assert(("8")@ =~= seq![dec_digit(d as int)]);
        }
    } else {
        s.append("9");
        proof {
            reveal_strlit("9");
            assert(("9")@ =~= seq![dec_digit(d as int)]);
        }
    }
}

/// Appends the decimal rendering of `n` to `s`.
pub fn push_dec(s: &mut String, n: u64)
    ensures
        final(s)@ == old(s)@ + dec_str(n as nat),
    decreases n,
{
    if n >= 10 {
        push_dec(s, n / 10);
    }
    push_digit(s, n % 10);
    proof {
        if n < 10 {
            assert(n % 10 == n);
        } else {
            assert(old(s)@ + dec_str((n / 10) as nat) + seq![dec_digit((n % 10) as int)] =~= old(
                s,
            )@ + dec_str(n as nat));
        }
    }
}

/// Builds `prefix`, then the decimal digits of `id`, then `suffix`: the shape
/// of every "not found" message that names an identifier.
pub fn not_found_msg(prefix: &str, id: u64, suffix: &str) -> (r: String)
    ensures
        r@ == prefix@ + dec_str(id as nat) + suffix@,
{
    let mut s = prefix.to_owned();
    push_dec(&mut s, id);
    s.append(suffix);
    s
}

/// Message of a failed player lookup.
pub open spec fn player_not_found_text(id: u64) -> Seq<char> {
    ("Player with id=")@ + dec_str(id as nat) + (" not found.")@
}

/// Message of a failed player lookup inside `earn_achievement`, which
/// phrases this message without the final period.
pub open spec fn earn_player_not_found_text(id: u64) -> Seq<char> {
    ("Player with id=")@ + dec_str(id as nat) + (" not found")@
}

/// Message of a failed achievement lookup.
pub open spec fn achievement_not_found_text(id: u64) -> Seq<char> {
    ("Achievement with id=")@ + dec_str(id as nat) + (" not found.")@
}

/// Message of a failed achievement lookup inside `earn_achievement`.
pub open spec fn earn_achievement_not_found_text(id: u64) -> Seq<char> {
    ("Achievement with id=")@ + dec_str(id as nat) + (" not found")@
}

/// Message of a failed inventory item lookup.
pub open spec fn item_not_found_text(id: u64) -> Seq<char> {
    ("Inventory item with id=")@ + dec_str(id as nat) + (" not found.")@
}

} // verus!

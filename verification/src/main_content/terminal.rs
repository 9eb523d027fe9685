//! The terminal panel: naming a new tab, and which tab stays selected as
//! tabs come and go.

use crate::text::{chars_of, i64_text, int_text, push_all, string_of};
use vstd::prelude::*;

verus! {

/// The names of the terminal tab numbered `n`: its id, the label on the
/// tab, and the title its console window is given to be found by.
pub open spec fn tab_names(n: u32) -> (Seq<char>, Seq<char>, Seq<char>) {
    (
        "term_"@ + int_text(n as int),
        "pwsh "@ + int_text(n as int),
        "OperonTerminal_"@ + int_text(n as int),
    )
}

fn numbered(prefix: &str, n: u32) -> (r: String)
    ensures
        r@ == prefix@ + int_text(n as int),
{
    let mut v = chars_of(prefix);
    let d = i64_text(n as i64);
    push_all(&mut v, &d);
    string_of(v.as_slice())
}

/// See [`tab_names`].
pub fn terminal_tab_names(n: u32) -> (r: (String, String, String))
    ensures
        (r.0@, r.1@, r.2@) == tab_names(n),
{
    (numbered("term_", n), numbered("pwsh ", n), numbered("OperonTerminal_", n))
}

/// The selected tab once there are `count` tabs: none (-1) when there are
/// none, the last one when the selection is out of range, else unchanged;
/// the flag is false when no tab is left and the panel must close.
pub open spec fn kept_tab(count: nat, active: i32) -> (int, bool) {
    if count == 0 {
        (-1, false)
    } else if active < 0 || active >= count {
        (count - 1, true)
    } else {
        (active as int, true)
    }
}

/// See [`kept_tab`].
pub fn terminal_active_tab(count: usize, active: i32) -> (r: (i32, bool))
    requires
        count <= i32::MAX,
    ensures
        (r.0 as int, r.1) == kept_tab(count as nat, active),
{
    if count == 0 {
        (-1, false)
    } else if active < 0 || active as usize >= count {
        ((count - 1) as i32, true)
    } else {
        (active, true)
    }
}

} // verus!

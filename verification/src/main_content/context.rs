//! The context-window usage indicator.

use crate::text::{i64_text, int_text, push_all, push_str_chars, string_of};
use vstd::prelude::*;

verus! {

/// A token count as shown: thousands as "Nk", smaller counts in full.
pub open spec fn token_text(n: i32) -> Seq<char> {
    if n >= 1000 {
        int_text((n / 1000) as int) + "k"@
    } else {
        int_text(n as int)
    }
}

fn push_token_count(v: &mut Vec<char>, n: i32)
    ensures
        final(v)@ == old(v)@ + token_text(n),
{
    if n >= 1000 {
        let t = i64_text((n / 1000) as i64);
        push_all(v, &t);
        push_str_chars(v, "k");
    } else {
        let t = i64_text(n as i64);
        push_all(v, &t);
    }
}

/// Formats token counts like "15k/128k".
pub fn format_tokens(used: i32, total: i32) -> (r: String)
    ensures
        r@ == token_text(used) + "/"@ + token_text(total),
{
    let mut v: Vec<char> = Vec::new();
    push_token_count(&mut v, used);
    push_str_chars(&mut v, "/");
    push_token_count(&mut v, total);
    assert(v@ =~= token_text(used) + "/"@ + token_text(total));
    string_of(v.as_slice())
}

} // verus!

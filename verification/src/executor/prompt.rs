//! Sending a prompt: which session it goes to, and which turn an edited
//! message restarts from.

use crate::state::{opt_str, AppState};
use crate::text::{char_from_ascii, string_of};
use vstd::prelude::*;

verus! {

/// Nanoseconds since the Unix epoch by the system clock, zero when the
/// clock reads before the epoch. Nothing is claimed of the reading.
#[verifier::external_body]
fn unix_now_nanos() -> u128 {
    std::time::SystemTime::now().duration_since(std::time::UNIX_EPOCH).unwrap_or_default().as_nanos()
}

/// A hexadecimal digit, in lower case.
pub open spec fn hex_digit(d: nat) -> char {
    if d % 16 < 10 {
        ((d % 16) + 48) as char
    } else {
        ((d % 16) + 87) as char
    }
}

/// Lower-case hexadecimal digits of a natural number, as printed by `{:x}`.
pub open spec fn hex_digits(n: nat) -> Seq<char>
    decreases n,
{
    if n < 16 {
        seq![hex_digit(n)]
    } else {
        hex_digits(n / 16).push(hex_digit(n % 16))
    }
}

fn hex_text(n: u128) -> (r: Vec<char>)
    ensures
        r@ == hex_digits(n as nat),
    decreases n,
{
    let d = (n % 16) as u32;
    let c = if d < 10 {
        char_from_ascii(d + 48)
    } else {
        char_from_ascii(d + 87)
    };
    if n < 16 {
        let mut r: Vec<char> = Vec::new();
        r.push(c);
        assert(r@ =~= seq![hex_digit(n as nat)]);
        r
    } else {
        let mut r = hex_text(n / 16);
        r.push(c);
        r
    }
}

/// The session a prompt goes to: the open one, or else a new one named by
/// the clock's reading in hexadecimal, which becomes the open session. The
/// flag tells whether the session is new.
pub fn prompt_session_at(state: &mut AppState, now_nanos: u128) -> (r: (String, bool))
    ensures
        match opt_str(old(state).active_session_id) {
            Some(id) => r.0@ == id && !r.1 && *final(state) == *old(state),
            None => {
                &&& r.0@ == hex_digits(now_nanos as nat)
                &&& r.1
                &&& opt_str(final(state).active_session_id) == Some(r.0@)
                &&& *final(state) == (AppState { active_session_id: final(state).active_session_id, ..*old(state) })
            },
        },
{
    match &state.active_session_id {
        Some(id) => (id.clone(), false),
        None => {
            let id = string_of(hex_text(now_nanos).as_slice());
            state.set_active_session_id(Some(id.clone()));
            (id, true)
        },
    }
}

/// The session a prompt goes to (see [`prompt_session_at`]), a new one
/// being named by the clock when it is needed.
pub fn prompt_session(state: &mut AppState) -> (r: (String, bool))
    ensures
        match opt_str(old(state).active_session_id) {
            Some(id) => r.0@ == id && !r.1 && *final(state) == *old(state),
            None => exists|t: u128| {
                &&& r.0@ == hex_digits(t as nat)
                &&& r.1
                &&& opt_str(final(state).active_session_id) == Some(r.0@)
                &&& *final(state) == (AppState { active_session_id: final(state).active_session_id, ..*old(state) })
            },
        },
{
    let t = unix_now_nanos();
    prompt_session_at(state, t)
}

/// How many of the first `n` messages the user wrote.
pub open spec fn user_count(is_user: Seq<bool>, n: int) -> nat
    decreases n,
{
    if n <= 0 || is_user.len() == 0 {
        0
    } else if n > is_user.len() {
        user_count(is_user, is_user.len() as int)
    } else {
        user_count(is_user, n - 1) + if is_user[n - 1] {
            1nat
        } else {
            0nat
        }
    }
}

/// The turn an edit of message `idx` restarts from: the number of user
/// messages up to and including it, less one; none when there is no user
/// message among them. `is_user` tells, for each message shown, whether the
/// user wrote it.
pub open spec fn edited_turn(is_user: Seq<bool>, idx: int) -> Option<nat> {
    let c = user_count(is_user, idx + 1);
    if c == 0 {
        None
    } else {
        Some((c - 1) as nat)
    }
}

/// See [`edited_turn`].
pub fn edited_turn_index(is_user: &Vec<bool>, idx: usize) -> (r: Option<usize>)
    ensures
        match r {
            Some(t) => edited_turn(is_user@, idx as int) == Some(t as nat),
            None => edited_turn(is_user@, idx as int) is None,
        },
{
    let end = if idx < is_user.len() {
        idx + 1
    } else {
        is_user.len()
    };
    let mut count: usize = 0;
    let mut i: usize = 0;
    while i < end
        invariant
            end <= is_user.len(),
            end == if (idx as int) < is_user.len() {
                idx + 1
            } else {
                is_user.len() as int
            },
            i <= end,
            count == user_count(is_user@, i as int),
            count <= i,
        decreases end - i,
    {
        if is_user[i] {
            count += 1;
        }
        i += 1;
    }
    proof {
        if (idx as int) >= is_user.len() && is_user.len() > 0 {
            assert(user_count(is_user@, idx + 1) == user_count(is_user@, is_user.len() as int));
        }
    }
    if count == 0 {
        None
    } else {
        Some(count - 1)
    }
}

/// The last message the user wrote among the first `n`.
pub open spec fn last_user(is_user: Seq<bool>, n: int) -> Option<int>
    decreases n,
{
    if n <= 0 || is_user.len() == 0 {
        None
    } else if n > is_user.len() {
        last_user(is_user, is_user.len() as int)
    } else if is_user[n - 1] {
        Some(n - 1)
    } else {
        last_user(is_user, n - 1)
    }
}

proof fn lemma_last_user_some(is_user: Seq<bool>, n: int)
    ensures
        (last_user(is_user, n) is Some) == (user_count(is_user, n) > 0),
        last_user(is_user, n) matches Some(i) ==> 0 <= i < n && i < is_user.len() && is_user[i],
    decreases n,
{
    if n <= 0 || is_user.len() == 0 {
    } else if n > is_user.len() {
        lemma_last_user_some(is_user, is_user.len() as int);
    } else {
        lemma_last_user_some(is_user, n - 1);
    }
}

/// Regenerating the answer at message `idx` resends the last user message
/// up to it: the turn it starts (user messages up to `idx`, less one) and
/// where it stands; none when the user wrote nothing up to `idx`.
pub open spec fn regenerate_point(is_user: Seq<bool>, idx: int) -> Option<(nat, int)> {
    match last_user(is_user, idx + 1) {
        Some(i) => Some(((user_count(is_user, idx + 1) - 1) as nat, i)),
        None => None,
    }
}

/// See [`regenerate_point`]; the shown messages after the one returned are
/// dropped before the message is sent again.
pub fn regenerate_index(is_user: &Vec<bool>, idx: usize) -> (r: Option<(usize, usize)>)
    ensures
        match r {
            Some((t, i)) => regenerate_point(is_user@, idx as int) == Some((t as nat, i as int)),
            None => regenerate_point(is_user@, idx as int) is None,
        },
{
    let end = if idx < is_user.len() {
        idx + 1
    } else {
        is_user.len()
    };
    let mut count: usize = 0;
    let mut last: usize = 0;
    let mut i: usize = 0;
    while i < end
        invariant
            end <= is_user.len(),
            end == if (idx as int) < is_user.len() {
                idx + 1
            } else {
                is_user.len() as int
            },
            i <= end,
            count == user_count(is_user@, i as int),
            count <= i,
            count > 0 ==> last_user(is_user@, i as int) == Some(last as int),
        decreases end - i,
    {
        proof {
            lemma_last_user_some(is_user@, i as int);
        }
        if is_user[i] {
            count += 1;
            last = i;
        }
        i += 1;
    }
    proof {
        lemma_last_user_some(is_user@, end as int);
        lemma_last_user_some(is_user@, idx + 1);
        if (idx as int) >= is_user.len() && is_user.len() > 0 {
            assert(user_count(is_user@, idx + 1) == user_count(is_user@, is_user.len() as int));
            assert(last_user(is_user@, idx + 1) == last_user(is_user@, is_user.len() as int));
        }
    }
    if count == 0 {
        None
    } else {
        Some((count - 1, last))
    }
}

/// A fork of the conversation at message `idx` keeps as many turns as the
/// user wrote messages up to it.
pub fn fork_turns(is_user: &Vec<bool>, idx: usize) -> (r: usize)
    ensures
        r == user_count(is_user@, idx + 1),
{
    let end = if idx < is_user.len() {
        idx + 1
    } else {
        is_user.len()
    };
    let mut count: usize = 0;
    let mut i: usize = 0;
    while i < end
        invariant
            end <= is_user.len(),
            end == if (idx as int) < is_user.len() {
                idx + 1
            } else {
                is_user.len() as int
            },
            i <= end,
            count == user_count(is_user@, i as int),
            count <= i,
        decreases end - i,
    {
        if is_user[i] {
            count += 1;
        }
        i += 1;
    }
    proof {
        if (idx as int) >= is_user.len() && is_user.len() > 0 {
            assert(user_count(is_user@, idx + 1) == user_count(is_user@, is_user.len() as int));
        }
    }
    count
}

/// `n` in lower-case hexadecimal, padded with zeros to `width` digits, as
/// `{:0width$x}` prints it.
pub open spec fn padded_hex(n: nat, width: nat) -> Seq<char> {
    let d = hex_digits(n);
    if d.len() < width {
        Seq::new((width - d.len()) as nat, |i: int| '0') + d
    } else {
        d
    }
}

/// The id of a forked session: the random number `r` as sixteen
/// hexadecimal digits.
pub fn fork_session_id(r: u64) -> (s: String)
    ensures
        s@ == padded_hex(r as nat, 16),
{
    let d = hex_text(r as u128);
    let mut out: Vec<char> = Vec::new();
    let pad: usize = if d.len() < 16 {
        16 - d.len()
    } else {
        0
    };
    let mut i: usize = 0;
    while i < pad
        invariant
            i <= pad,
            out@ == Seq::new(i as nat, |k: int| '0'),
        decreases pad - i,
    {
        out.push('0');
        i += 1;
        assert(out@ =~= Seq::new(i as nat, |k: int| '0'));
    }
    let ghost zeros = out@;
    crate::text::push_all(&mut out, &d);
    proof {
        if d@.len() < 16 {
            assert(out@ =~= Seq::new((16 - d@.len()) as nat, |k: int| '0') + d@);
        } else {
            assert(zeros =~= Seq::<char>::empty());
            assert(out@ =~= d@);
        }
    }
    string_of(out.as_slice())
}

} // verus!

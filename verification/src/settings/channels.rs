//! The messaging-channel pages of the settings window: checking the
//! Telegram form before the bot connects, the allowlists, and following the
//! connection until it settles.

use crate::text::{all_ws, is_blank, owned, trim, trim_chars, chars_of, string_of};
use vstd::prelude::*;

verus! {

/// The value of a run of decimal digits.
pub open spec fn digits_value(d: Seq<char>) -> int
    decreases d.len(),
{
    if d.len() == 0 {
        0
    } else {
        digits_value(d.drop_last()) * 10 + (d.last() as int - '0' as int)
    }
}

pub open spec fn all_digits(d: Seq<char>) -> bool {
    d.len() > 0 && forall|i: int| 0 <= i < d.len() ==> '0' <= #[trigger] d[i] && d[i] <= '9'
}

/// `str::parse::<i64>`: an optional `+` or `-` followed by one or more
/// ASCII digits, whose value fits in `i64`; anything else (white space
/// included) does not parse.
pub open spec fn i64_of_text(s: Seq<char>) -> Option<i64> {
    let (negative, d) = if s.len() > 0 && s[0] == '-' {
        (true, s.skip(1))
    } else if s.len() > 0 && s[0] == '+' {
        (false, s.skip(1))
    } else {
        (false, s)
    };
    let v = if negative {
        -digits_value(d)
    } else {
        digits_value(d)
    };
    if all_digits(d) && i64::MIN <= v <= i64::MAX {
        Some(v as i64)
    } else {
        None
    }
}

/// `str::parse::<i64>`. Claimed: it parses exactly the texts
/// [`i64_of_text`] describes, to the value it gives.
#[verifier::external_body]
fn parse_i64(s: &str) -> (r: Option<i64>)
    ensures
        r == i64_of_text(s@),
{
    s.parse::<i64>().ok()
}

/// The Telegram settings the form describes.
#[derive(Debug)]
pub struct TelegramSettings {
    pub bot_token: Option<String>,
    pub owner_chat_id: Option<i64>,
    pub allowlist: Vec<i64>,
    pub workspace_dir: Option<String>,
    pub poll_interval_secs: u64,
}

/// Why the Telegram form cannot be saved.
#[derive(Debug, Clone, Copy, PartialEq, Eq, Structural)]
pub enum TelegramFormError {
    /// The owner chat id is filled in but is not an integer.
    InvalidOwnerChatId,
    /// No bot token is filled in.
    MissingBotToken,
}

impl TelegramFormError {
    /// The status line shown for the error.
    pub fn message(&self) -> (r: String)
        ensures
            r@ == match *self {
                TelegramFormError::InvalidOwnerChatId => "Error: Owner Chat ID must be a valid integer"@,
                TelegramFormError::MissingBotToken => "Error: Bot Token required"@,
            },
    {
        match self {
            TelegramFormError::InvalidOwnerChatId => owned("Error: Owner Chat ID must be a valid integer"),
            TelegramFormError::MissingBotToken => owned("Error: Bot Token required"),
        }
    }
}

/// The chat ids of the allowlist that parse once trimmed, in order; the
/// others are left out.
pub open spec fn parsed_ids(entries: Seq<Seq<char>>) -> Seq<i64>
    decreases entries.len(),
{
    if entries.len() == 0 {
        seq![]
    } else {
        match i64_of_text(trim(entries.last())) {
            Some(v) => parsed_ids(entries.drop_last()).push(v),
            None => parsed_ids(entries.drop_last()),
        }
    }
}

/// A field's trimmed text, or none when it is blank.
pub open spec fn trimmed_field(s: Seq<char>) -> Option<Seq<char>> {
    if all_ws(s) {
        None
    } else {
        Some(trim(s))
    }
}

fn trimmed_text(s: &str) -> (r: String)
    ensures
        r@ == trim(s@),
{
    let v = chars_of(s);
    let t = trim_chars(&v);
    string_of(t.as_slice())
}

/// Reads the Telegram form: the owner chat id must be an integer when it
/// is filled in (checked first), and a bot token is required; the allowlist
/// keeps the entries that are integers; the bot is polled every 30 seconds.
pub fn telegram_settings_form(
    bot_token: &str,
    owner_chat_id: &str,
    allowlist: &Vec<String>,
    workspace_dir: &str,
) -> (r: Result<TelegramSettings, TelegramFormError>)
    ensures
        match r {
            Ok(t) => {
                &&& !all_ws(bot_token@)
                &&& (t.bot_token matches Some(b) && b@ == trim(bot_token@))
                &&& !all_ws(owner_chat_id@) ==> i64_of_text(trim(owner_chat_id@)) is Some
                &&& t.owner_chat_id == if all_ws(owner_chat_id@) {
                    None
                } else {
                    i64_of_text(trim(owner_chat_id@))
                }
                &&& t.allowlist@ == parsed_ids(allowlist@.map_values(|s: String| s@))
                &&& match t.workspace_dir {
                    Some(w) => trimmed_field(workspace_dir@) == Some(w@),
                    None => trimmed_field(workspace_dir@) is None,
                }
                &&& t.poll_interval_secs == 30
            },
            Err(TelegramFormError::InvalidOwnerChatId) => !all_ws(owner_chat_id@) && i64_of_text(
                trim(owner_chat_id@),
            ) is None,
            Err(TelegramFormError::MissingBotToken) => all_ws(bot_token@) && (all_ws(owner_chat_id@)
                || i64_of_text(trim(owner_chat_id@)) is Some),
        },
{
    let owner = if is_blank(owner_chat_id) {
        None
    } else {
        let t = trimmed_text(owner_chat_id);
        match parse_i64(t.as_str()) {
            Some(id) => Some(id),
            None => {
                return Err(TelegramFormError::InvalidOwnerChatId);
            },
        }
    };
    let ghost av = allowlist@.map_values(|s: String| s@);
    let mut ids: Vec<i64> = Vec::new();
    let mut i: usize = 0;
    while i < allowlist.len()
        invariant
            i <= allowlist.len(),
            av == allowlist@.map_values(|s: String| s@),
            ids@ == parsed_ids(av.take(i as int)),
        decreases allowlist.len() - i,
    {
        proof {
            assert(av.take(i + 1).drop_last() =~= av.take(i as int));
            assert(av.take(i + 1).last() == allowlist@[i as int]@);
        }
        let t = trimmed_text(allowlist[i].as_str());
        match parse_i64(t.as_str()) {
            Some(v) => ids.push(v),
            None => {},
        }
        i += 1;
    }
    assert(av.take(allowlist.len() as int) =~= av);
    let workspace = if is_blank(workspace_dir) {
        None
    } else {
        Some(trimmed_text(workspace_dir))
    };
    if is_blank(bot_token) {
        return Err(TelegramFormError::MissingBotToken);
    }
    let token = trimmed_text(bot_token);
    Ok(TelegramSettings {
        bot_token: Some(token),
        owner_chat_id: owner,
        allowlist: ids,
        workspace_dir: workspace,
        poll_interval_secs: 30,
    })
}

/// Adds an entry to an allowlist unless it is blank (the entry is kept as
/// typed).
pub fn allowlist_add(list: &mut Vec<String>, entry: String)
    ensures
        final(list)@ == if all_ws(entry@) {
            old(list)@
        } else {
            old(list)@.push(entry)
        },
{
    if !is_blank(entry.as_str()) {
        list.push(entry);
    }
}

/// The place a selector index names in a list of `len` entries, if any (a
/// negative index names none).
pub open spec fn list_place(idx: i32, len: nat) -> Option<int> {
    if 0 <= idx && idx < len {
        Some(idx as int)
    } else {
        None
    }
}

/// Removes the allowlist entry at `idx`; other indexes change nothing.
pub fn allowlist_remove(list: &mut Vec<String>, idx: i32)
    ensures
        final(list)@ == match list_place(idx, old(list)@.len()) {
            Some(i) => old(list)@.remove(i),
            None => old(list)@,
        },
{
    if idx >= 0 && (idx as usize) < list.len() {
        list.remove(idx as usize);
    }
}

/// What the channel client reports of its connection.
#[derive(Debug)]
pub enum ChannelStatus {
    Connected,
    Error(String),
    /// Still connecting, or not connected.
    Pending,
}

/// One look at the connection while the page waits for it to settle (it
/// waits at most five minutes): past the deadline it stops without a word;
/// a connection or an error is shown and ends the wait; anything else waits
/// on. Returns the status line to show, if any, and whether to stop.
pub fn status_poll_step(past_deadline: bool, status: ChannelStatus) -> (r: (Option<String>, bool))
    ensures
        past_deadline ==> r == (None::<String>, true),
        !past_deadline ==> match status {
            ChannelStatus::Connected => r.1 && (r.0 matches Some(t) && t@ == "Connected"@),
            ChannelStatus::Error(e) => r.1 && (r.0 matches Some(t) && t@ == "Error: "@ + e@),
            ChannelStatus::Pending => r == (None::<String>, false),
        },
{
    if past_deadline {
        return (None, true);
    }
    match status {
        ChannelStatus::Connected => (Some(owned("Connected")), true),
        ChannelStatus::Error(e) => {
            let mut t = owned("Error: ");
            crate::text::string_push_str(&mut t, e.as_str());
            (Some(t), true)
        },
        ChannelStatus::Pending => (None, false),
    }
}

} // verus!

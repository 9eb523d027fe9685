//! Desktop notifications: their texts, and the command each platform runs
//! to show one.

use crate::main_content::assistant_messages::blocks::{replace_all, replace_chars};
use crate::text::{chars_of, owned, push_all, push_str_chars, str_eq, string_of};
use crate::window::menu::{args_view, Platform};
use vstd::prelude::*;

verus! {

/// The title of a permission notification.
pub const PERMISSION_SUMMARY: &'static str = "Operon: Permission Confirmation Requested";

/// The title of a response notification.
pub const RESPONSE_SUMMARY: &'static str = "Operon: Response Complete";

/// What a permission notification says.
pub open spec fn permission_body(action: Seq<char>, target: Seq<char>) -> Seq<char> {
    if target.len() == 0 {
        "An agent action requires your manual approval: "@ + action
    } else {
        "An agent action requires your manual approval: "@ + action + " on "@ + target
    }
}

/// What a response notification says; untitled sessions are not named.
pub open spec fn response_body(session_title: Seq<char>) -> Seq<char> {
    if session_title.len() == 0 || session_title == "New Session"@ {
        "Agent finished generating response"@
    } else {
        "Agent finished generating response for '"@ + session_title + "'"@
    }
}

/// The text of a notification asking for permission.
pub fn permission_notification_body(action: &str, target: &str) -> (r: String)
    ensures
        r@ == permission_body(action@, target@),
{
    let mut v = chars_of("An agent action requires your manual approval: ");
    push_str_chars(&mut v, action);
    let tv = chars_of(target);
    if tv.len() != 0 {
        push_str_chars(&mut v, " on ");
        push_str_chars(&mut v, target);
    }
    assert(v@ =~= permission_body(action@, target@));
    string_of(v.as_slice())
}

/// The text of a notification that a response is complete.
pub fn response_notification_body(session_title: &str) -> (r: String)
    ensures
        r@ == response_body(session_title@),
{
    let tv = chars_of(session_title);
    if tv.len() == 0 || str_eq(session_title, "New Session") {
        owned("Agent finished generating response")
    } else {
        let mut v = chars_of("Agent finished generating response for '");
        push_str_chars(&mut v, session_title);
        push_str_chars(&mut v, "'");
        assert(v@ =~= response_body(session_title@));
        string_of(v.as_slice())
    }
}

/// A command that shows a notification.
#[derive(Debug, Clone, PartialEq, Eq)]
pub struct NotificationCommand {
    pub program: String,
    pub args: Vec<String>,
}

/// The PowerShell script that shows a balloon tip, quotes doubled.
pub open spec fn balloon_script(summary: Seq<char>, body: Seq<char>) -> Seq<char> {
    "[reflection.assembly]::loadwithpartialname('System.Windows.Forms') | Out-Null; $n = New-Object System.Windows.Forms.NotifyIcon; $n.Icon = [System.Drawing.SystemIcons]::Information; $n.Visible = $true; $n.ShowBalloonTip(5000, '"@
        + replace_all(summary, "'"@, "''"@) + "', '"@ + replace_all(body, "'"@, "''"@)
        + "', [System.Windows.Forms.ToolTipIcon]::Info); Start-Sleep -s 6; $n.Dispose()"@
}

/// The AppleScript that shows a notification, double quotes escaped.
pub open spec fn apple_script(summary: Seq<char>, body: Seq<char>) -> Seq<char> {
    "display notification \""@ + replace_all(body, "\""@, "\\\""@) + "\" with title \""@
        + replace_all(summary, "\""@, "\\\""@) + "\""@
}

/// The command each platform runs to show a notification; none elsewhere.
pub open spec fn notifier(platform: Platform, summary: Seq<char>, body: Seq<char>) -> Option<
    (Seq<char>, Seq<Seq<char>>),
> {
    match platform {
        Platform::Windows => Some(
            (
                "powershell"@,
                seq!["-NoProfile"@, "-NonInteractive"@, "-Command"@, balloon_script(summary, body)],
            ),
        ),
        Platform::MacOs => Some(("osascript"@, seq!["-e"@, apple_script(summary, body)])),
        Platform::Linux => Some(("notify-send"@, seq![summary, body])),
        Platform::OtherUnix => None,
    }
}

/// The command that shows the notification `summary`/`body` on `platform`.
pub fn notification_command(platform: Platform, summary: &str, body: &str) -> (r: Option<
    NotificationCommand,
>)
    ensures
        match r {
            Some(c) => notifier(platform, summary@, body@) == Some((c.program@, args_view(c.args@))),
            None => notifier(platform, summary@, body@) is None,
        },
{
    let sv = chars_of(summary);
    let bv = chars_of(body);
    let mut args: Vec<String> = Vec::new();
    match platform {
        Platform::Windows => {
            let q = chars_of("'");
            let qq = chars_of("''");
            proof {
                reveal_strlit("'");
            }
            let st = replace_chars(&sv, &q, &qq);
            let sb = replace_chars(&bv, &q, &qq);
            let mut s = chars_of(
                "[reflection.assembly]::loadwithpartialname('System.Windows.Forms') | Out-Null; $n = New-Object System.Windows.Forms.NotifyIcon; $n.Icon = [System.Drawing.SystemIcons]::Information; $n.Visible = $true; $n.ShowBalloonTip(5000, '",
            );
            push_all(&mut s, &st);
            push_str_chars(&mut s, "', '");
            push_all(&mut s, &sb);
            push_str_chars(
                &mut s,
                "', [System.Windows.Forms.ToolTipIcon]::Info); Start-Sleep -s 6; $n.Dispose()",
            );
            args.push(owned("-NoProfile"));
            args.push(owned("-NonInteractive"));
            args.push(owned("-Command"));
            args.push(string_of(s.as_slice()));
            assert(args_view(args@) =~= notifier(platform, summary@, body@).unwrap().1);
            Some(NotificationCommand { program: owned("powershell"), args })
        },
        Platform::MacOs => {
            let q = chars_of("\"");
            let eq = chars_of("\\\"");
            proof {
                reveal_strlit("\"");
            }
            let st = replace_chars(&sv, &q, &eq);
            let sb = replace_chars(&bv, &q, &eq);
            let mut s = chars_of("display notification \"");
            push_all(&mut s, &sb);
            push_str_chars(&mut s, "\" with title \"");
            push_all(&mut s, &st);
            push_str_chars(&mut s, "\"");
            args.push(owned("-e"));
            args.push(string_of(s.as_slice()));
            assert(args_view(args@) =~= notifier(platform, summary@, body@).unwrap().1);
            Some(NotificationCommand { program: owned("osascript"), args })
        },
        Platform::Linux => {
            args.push(owned(summary));
            args.push(owned(body));
            assert(args_view(args@) =~= notifier(platform, summary@, body@).unwrap().1);
            Some(NotificationCommand { program: owned("notify-send"), args })
        },
        Platform::OtherUnix => None,
    }
}

} // verus!

//! The Help menu's links and the command that opens them in a browser.

use crate::text::{chars_of, owned, string_of, trim, trim_chars};
use vstd::prelude::*;

verus! {

/// The documentation page opened from the Help menu.
pub const DOCUMENTATION_URL: &'static str = "https://github.com/lukagray-dev/Operon/tree/main/docs";

/// The issue tracker opened from the Help menu.
pub const REPORT_BUG_URL: &'static str = "https://github.com/lukagray-dev/Operon/issues";

/// The creator profile opened from the Help menu.
pub const FOLLOW_CREATOR_URL: &'static str = "https://www.instagram.com/lukagray.official/";

/// The project repository opened from the Help menu.
pub const REPOSITORY_URL: &'static str = "https://github.com/lukagray-dev/Operon";

/// The operating system family the shell runs on.
#[derive(Debug, Clone, Copy, PartialEq, Eq, Structural)]
pub enum Platform {
    Windows,
    MacOs,
    Linux,
    /// Any other Unix-like system.
    OtherUnix,
}

/// The command the operating system is asked to run to open a link.
#[derive(Debug, Clone, PartialEq, Eq)]
pub struct BrowserCommand {
    pub program: String,
    pub args: Vec<String>,
}

pub open spec fn args_view(args: Seq<String>) -> Seq<Seq<char>> {
    args.map_values(|a: String| a@)
}

/// The launcher for `url` (trimmed): `cmd /C start "" url` on Windows,
/// `open url` on macOS, `xdg-open url` elsewhere.
pub open spec fn launcher(url: Seq<char>, platform: Platform) -> (Seq<char>, Seq<Seq<char>>) {
    let u = trim(url);
    match platform {
        Platform::Windows => ("cmd"@, seq!["/C"@, "start"@, seq![], u]),
        Platform::MacOs => ("open"@, seq![u]),
        _ => ("xdg-open"@, seq![u]),
    }
}

/// The platform-specific browser launcher command for a URL.
pub fn browser_command_parts(url: &str, platform: Platform) -> (r: BrowserCommand)
    ensures
        (r.program@, args_view(r.args@)) == launcher(url@, platform),
{
    let v = chars_of(url);
    let t = trim_chars(&v);
    let u = string_of(t.as_slice());
    let mut args: Vec<String> = Vec::new();
    let program = match platform {
        Platform::Windows => {
            args.push(owned("/C"));
            args.push(owned("start"));
            args.push(String::new());
            args.push(u);
            owned("cmd")
        },
        Platform::MacOs => {
            args.push(u);
            owned("open")
        },
        _ => {
            args.push(u);
            owned("xdg-open")
        },
    };
    proof {
        reveal_strlit("");
    }
    assert(args_view(args@) =~= launcher(url@, platform).1);
    BrowserCommand { program, args }
}

/// Why a link cannot be opened.
#[derive(Debug, Clone, PartialEq, Eq)]
pub enum OpenUrlError {
    /// The link is empty once trimmed.
    EmptyUrl,
}

/// The command that opens `url`, or an error when it is blank.
pub fn browser_command_for(url: &str, platform: Platform) -> (r: Result<BrowserCommand, OpenUrlError>)
    ensures
        match r {
            Ok(c) => trim(url@).len() > 0 && (c.program@, args_view(c.args@)) == launcher(url@, platform),
            Err(e) => trim(url@).len() == 0 && e == OpenUrlError::EmptyUrl,
        },
{
    let v = chars_of(url);
    let t = trim_chars(&v);
    if t.len() == 0 {
        return Err(OpenUrlError::EmptyUrl);
    }
    Ok(browser_command_parts(url, platform))
}

} // verus!

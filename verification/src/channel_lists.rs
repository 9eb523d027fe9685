//! The sidebar lists of the messaging channels: each chat directory of
//! saved sessions becomes a project whose conversations are its session
//! files (`<session id>.json`), titled by the start of the session id; and
//! which changes on disk reload the conversation on screen.

use crate::main_content::title::{byte_len, byte_prefix, byte_prefix_of, has_cut};
use crate::sidebar::{convs_view, projects_view, SidebarConversation, SidebarProject};
use crate::text::{
    chars_of, eq_chars, lemma_rfind_char_bound, owned, push_all, rfind_char, rfind_char_chars, slice_chars, starts_with,
    starts_with_chars, str_eq, string_of, string_push_str, trim, trim_chars,
};
use vstd::prelude::*;

verus! {

/// A chat directory of saved sessions, as read from disk.
#[derive(Debug)]
pub struct ChatDirectory {
    /// The directory's name, when it is valid UTF-8.
    pub name: Option<String>,
    pub path: String,
    /// The names of the regular files in the directory.
    pub file_names: Vec<String>,
}

pub open spec fn opt_view(o: Option<String>) -> Option<Seq<char>> {
    match o {
        Some(s) => Some(s@),
        None => None,
    }
}

pub open spec fn dir_view(d: ChatDirectory) -> (Option<Seq<char>>, Seq<char>, Seq<Seq<char>>) {
    (opt_view(d.name), d.path@, d.file_names@.map_values(|s: String| s@))
}

pub open spec fn dirs_view(v: Seq<ChatDirectory>) -> Seq<(Option<Seq<char>>, Seq<char>, Seq<Seq<char>>)> {
    v.map_values(|d: ChatDirectory| dir_view(d))
}

/// `Path::extension` of a file name: the part after the last `.`, unless
/// there is no `.` or the only one starts the name.
pub open spec fn file_extension(name: Seq<char>) -> Option<Seq<char>> {
    match rfind_char(name, '.') {
        Some(i) => if i > 0 {
            Some(name.skip(i + 1))
        } else {
            None
        },
        None => None,
    }
}

/// `Path::file_stem` of a file name: the part before the last `.`, or the
/// whole name when there is no `.` or the only one starts the name.
pub open spec fn file_stem(name: Seq<char>) -> Seq<char> {
    match rfind_char(name, '.') {
        Some(i) => if i > 0 {
            name.take(i)
        } else {
            name
        },
        None => name,
    }
}

pub open spec fn is_session_file(name: Seq<char>) -> bool {
    file_extension(name) == Some("json"@)
}

/// The conversation of a session file: the session id, titled `Session `
/// and the first eight bytes of the id.
pub open spec fn session_conversation(name: Seq<char>) -> (Seq<char>, Seq<char>) {
    let id = file_stem(name);
    (id, "Session "@ + byte_prefix_of(id, 8))
}

/// The conversations of a directory's files, in order.
pub open spec fn session_conversations(files: Seq<Seq<char>>) -> Seq<(Seq<char>, Seq<char>)>
    decreases files.len(),
{
    if files.len() == 0 {
        seq![]
    } else if is_session_file(files.last()) {
        session_conversations(files.drop_last()).push(session_conversation(files.last()))
    } else {
        session_conversations(files.drop_last())
    }
}

/// Whether every session id among `files` can be cut at eight bytes: it is
/// shorter, or its eighth byte ends a character.
pub open spec fn ids_cuttable(files: Seq<Seq<char>>) -> bool {
    forall|i: int|
        0 <= i < files.len() && is_session_file(#[trigger] files[i]) ==> byte_len(file_stem(files[i])) <= 8
            || has_cut(file_stem(files[i]), 8)
}

pub open spec fn dirs_cuttable(dirs: Seq<(Option<Seq<char>>, Seq<char>, Seq<Seq<char>>)>) -> bool {
    forall|i: int| 0 <= i < dirs.len() ==> ids_cuttable(#[trigger] dirs[i].2)
}

/// The projects of a channel's chat directories, in order: `prefix` and the
/// directory's name (or `unknown`) as the project's name, its path, and its
/// conversations; directories without session files are left out.
pub open spec fn channel_projects(
    dirs: Seq<(Option<Seq<char>>, Seq<char>, Seq<Seq<char>>)>,
    prefix: Seq<char>,
    unknown: Seq<char>,
) -> Seq<(Seq<char>, Seq<char>, Seq<(Seq<char>, Seq<char>)>)>
    decreases dirs.len(),
{
    if dirs.len() == 0 {
        seq![]
    } else {
        let rest = channel_projects(dirs.drop_last(), prefix, unknown);
        let (name, path, files) = dirs.last();
        let convs = session_conversations(files);
        if convs.len() > 0 {
            rest.push(
                (
                    prefix + match name {
                        Some(n) => n,
                        None => unknown,
                    },
                    path,
                    convs,
                ),
            )
        } else {
            rest
        }
    }
}

/// The extension and stem of a file name (see [`file_extension`] and
/// [`file_stem`]).
fn split_file_name(name: &Vec<char>) -> (r: (Option<Vec<char>>, Vec<char>))
    ensures
        match r.0 {
            Some(e) => file_extension(name@) == Some(e@),
            None => file_extension(name@) is None,
        },
        r.1@ == file_stem(name@),
{
    proof {
        lemma_rfind_char_bound(name@, '.');
    }
    match rfind_char_chars(name, '.') {
        Some(i) => {
            let end = name.len();
            if i > 0 {
                let ext = slice_chars(name, i + 1, end);
                let stem = slice_chars(name, 0, i);
                assert(ext@ =~= name@.skip(i + 1));
                assert(stem@ =~= name@.take(i as int));
                (Some(ext), stem)
            } else {
                (None, slice_chars(name, 0, name.len()))
            }
        },
        None => {
            let stem = slice_chars(name, 0, name.len());
            assert(stem@ =~= name@);
            (None, stem)
        },
    }
}

fn conversations_of(files: &Vec<String>) -> (r: Vec<SidebarConversation>)
    requires
        ids_cuttable(files@.map_values(|s: String| s@)),
    ensures
        convs_view(r@) == session_conversations(files@.map_values(|s: String| s@)),
{
    proof {
        reveal_strlit("json");
        reveal_strlit("Session ");
    }
    let ghost fv = files@.map_values(|s: String| s@);
    let json = chars_of("json");
    let mut out: Vec<SidebarConversation> = Vec::new();
    assert(convs_view(out@) =~= seq![]);
    let mut i: usize = 0;
    while i < files.len()
        invariant
            i <= files.len(),
            fv == files@.map_values(|s: String| s@),
            ids_cuttable(fv),
            json@ == "json"@,
            convs_view(out@) == session_conversations(fv.take(i as int)),
        decreases files.len() - i,
    {
        proof {
            assert(fv.take(i + 1).drop_last() =~= fv.take(i as int));
            assert(fv.take(i + 1).last() == fv[i as int]);
        }
        let name = chars_of(files[i].as_str());
        let (ext, stem) = split_file_name(&name);
        let is_json = match &ext {
            Some(e) => eq_chars(e, &json),
            None => false,
        };
        if is_json {
            proof {
                assert(is_session_file(fv[i as int]));
                assert(fv[i as int] == files@[i as int]@);
            }
            let (head, _) = byte_prefix(&stem, 8);
            let mut title = chars_of("Session ");
            push_all(&mut title, &head);
            let c = SidebarConversation { id: string_of(stem.as_slice()), title: string_of(title.as_slice()) };
            let ghost o0 = out@;
            out.push(c);
            assert(convs_view(out@) =~= convs_view(o0).push(session_conversation(fv[i as int])));
        }
        i += 1;
    }
    assert(fv.take(files.len() as int) =~= fv);
    out
}

fn channel_projects_of(dirs: &Vec<ChatDirectory>, prefix: &str, unknown: &str) -> (r: Vec<SidebarProject>)
    requires
        dirs_cuttable(dirs_view(dirs@)),
    ensures
        projects_view(r@) == channel_projects(dirs_view(dirs@), prefix@, unknown@),
{
    let ghost dv = dirs_view(dirs@);
    let mut out: Vec<SidebarProject> = Vec::new();
    assert(projects_view(out@) =~= seq![]);
    let mut i: usize = 0;
    while i < dirs.len()
        invariant
            i <= dirs.len(),
            dv == dirs_view(dirs@),
            dirs_cuttable(dv),
            projects_view(out@) == channel_projects(dv.take(i as int), prefix@, unknown@),
        decreases dirs.len() - i,
    {
        proof {
            assert(dv.take(i + 1).drop_last() =~= dv.take(i as int));
            assert(dv.take(i + 1).last() == dv[i as int]);
            assert(ids_cuttable(dv[i as int].2));
        }
        let d = &dirs[i];
        let convs = conversations_of(&d.file_names);
        if convs.len() > 0 {
            let mut name = owned(prefix);
            match &d.name {
                Some(n) => string_push_str(&mut name, n.as_str()),
                None => string_push_str(&mut name, unknown),
            }
            let p = SidebarProject { name, path: d.path.clone(), conversations: convs };
            let ghost o0 = out@;
            out.push(p);
            assert(projects_view(out@) =~= projects_view(o0).push(
                channel_projects(dv.take(i + 1), prefix@, unknown@).last(),
            ));
        } else {
            proof {
                assert(convs_view(convs@).len() == 0);
            }
        }
        i += 1;
    }
    assert(dv.take(dirs.len() as int) =~= dv);
    out
}

/// The Telegram projects of the sidebar: one per chat directory holding
/// session files, named `Telegram: ` and the chat id.
pub fn telegram_sidebar_projects(dirs: &Vec<ChatDirectory>) -> (r: Vec<SidebarProject>)
    requires
        dirs_cuttable(dirs_view(dirs@)),
    ensures
        projects_view(r@) == channel_projects(dirs_view(dirs@), "Telegram: "@, "Unknown Chat"@),
{
    channel_projects_of(dirs, "Telegram: ", "Unknown Chat")
}

/// The WhatsApp projects of the sidebar: one per contact directory holding
/// session files, named by the contact.
pub fn whatsapp_sidebar_projects(dirs: &Vec<ChatDirectory>) -> (r: Vec<SidebarProject>)
    requires
        dirs_cuttable(dirs_view(dirs@)),
    ensures
        projects_view(r@) == channel_projects(dirs_view(dirs@), ""@, "Unknown Contact"@),
{
    channel_projects_of(dirs, "", "Unknown Contact")
}

/// `str::trim_start_matches`: `s` with every leading copy of `p` removed.
pub open spec fn strip_leading(s: Seq<char>, p: Seq<char>) -> Seq<char>
    decreases s.len(),
{
    if p.len() > 0 && starts_with(s, p) {
        strip_leading(s.skip(p.len() as int), p)
    } else {
        s
    }
}

/// The chat id of a Telegram project name (`Telegram: <chat id>`).
pub fn telegram_chat_id(name: &str) -> (r: String)
    ensures
        r@ == trim(strip_leading(name@, "Telegram: "@)),
{
    let p = chars_of("Telegram: ");
    proof {
        reveal_strlit("Telegram: ");
    }
    let mut v = chars_of(name);
    assert(p@.len() == 10);
    while starts_with_chars(&v, &p)
        invariant
            p@ == "Telegram: "@,
            p@.len() == 10,
            strip_leading(name@, p@) == strip_leading(v@, p@),
        decreases v@.len(),
    {
        let rest = slice_chars(&v, p.len(), v.len());
        assert(rest@ =~= v@.skip(p@.len() as int));
        v = rest;
    }
    let t = trim_chars(&v);
    string_of(t.as_slice())
}

/// The session id a changed file stands for: the stem of a session file.
pub fn changed_session_id(file_name: &str) -> (r: Option<String>)
    ensures
        match r {
            Some(id) => is_session_file(file_name@) && id@ == file_stem(file_name@),
            None => !is_session_file(file_name@),
        },
{
    proof {
        reveal_strlit("json");
    }
    let name = chars_of(file_name);
    let json = chars_of("json");
    let (ext, stem) = split_file_name(&name);
    let is_json = match &ext {
        Some(e) => eq_chars(e, &json),
        None => false,
    };
    if is_json {
        Some(string_of(stem.as_slice()))
    } else {
        None
    }
}

/// Whether the conversation on screen is reloaded after a batch of file
/// changes: it must be a session of the channel (its id starts with the
/// channel's `prefix`), and either the batch names no session or names it.
pub open spec fn reloads_open_session(active_id: Seq<char>, prefix: Seq<char>, changed: Seq<Seq<char>>) -> bool {
    &&& active_id.len() > 0
    &&& starts_with(active_id, prefix)
    &&& (changed.len() == 0 || changed.contains(active_id))
}

/// See [`reloads_open_session`].
pub fn should_reload_open_session(active_id: &str, prefix: &str, changed: &Vec<String>) -> (r: bool)
    ensures
        r == reloads_open_session(active_id@, prefix@, changed@.map_values(|s: String| s@)),
{
    let ghost cv = changed@.map_values(|s: String| s@);
    if active_id.is_empty() {
        return false;
    }
    let a = chars_of(active_id);
    let p = chars_of(prefix);
    if !starts_with_chars(&a, &p) {
        return false;
    }
    assert(active_id@.len() > 0);
    if changed.len() == 0 {
        return true;
    }
    let mut i: usize = 0;
    while i < changed.len()
        invariant
            i <= changed.len(),
            cv == changed@.map_values(|s: String| s@),
            active_id@.len() > 0,
            starts_with(active_id@, prefix@),
            forall|k: int| 0 <= k < i ==> cv[k] != active_id@,
        decreases changed.len() - i,
    {
        if str_eq(changed[i].as_str(), active_id) {
            assert(cv[i as int] == active_id@);
            assert(cv.contains(active_id@));
            return true;
        }
        i += 1;
    }
    false
}

} // verus!

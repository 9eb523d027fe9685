//! The permissions page of the settings window: the allowed directories it
//! lists, the rows of the tool policy it shows (groups with their tools
//! folded in or out), and what a mode change asks the policy to record.

use crate::paths::{clean_windows_path, plain_windows_path};
use crate::string_set::StringSet;
use crate::text::{owned, str_eq, string_push_str};
use crate::window::menu::Platform;
use vstd::prelude::*;

verus! {

/// One row of the tool policy: a group of tools, or a tool of a group.
#[derive(Debug)]
pub struct PermissionRow {
    pub key: String,
    pub label: String,
    /// The mode in force: "allow", "ask" or "deny".
    pub mode: String,
    /// The mode the row inherits when nothing is set for it.
    pub base_mode: String,
    pub is_explicit: bool,
    /// "group" for a group row; a tool row otherwise.
    pub kind: String,
    /// For a tool row, the key of its group.
    pub group_key: String,
}

/// The value of a [`PermissionRow`].
pub struct RowView {
    pub key: Seq<char>,
    pub label: Seq<char>,
    pub mode: Seq<char>,
    pub base_mode: Seq<char>,
    pub is_explicit: bool,
    pub kind: Seq<char>,
    pub group_key: Seq<char>,
}

impl View for PermissionRow {
    type V = RowView;

    open spec fn view(&self) -> RowView {
        RowView {
            key: self.key@,
            label: self.label@,
            mode: self.mode@,
            base_mode: self.base_mode@,
            is_explicit: self.is_explicit,
            kind: self.kind@,
            group_key: self.group_key@,
        }
    }
}

pub open spec fn rows_view(v: Seq<PermissionRow>) -> Seq<RowView> {
    v.map_values(|r: PermissionRow| r@)
}

impl PermissionRow {
    /// A copy of the row.
    pub fn copy(&self) -> (r: Self)
        ensures
            r@ == self@,
    {
        PermissionRow {
            key: self.key.clone(),
            label: self.label.clone(),
            mode: self.mode.clone(),
            base_mode: self.base_mode.clone(),
            is_explicit: self.is_explicit,
            kind: self.kind.clone(),
            group_key: self.group_key.clone(),
        }
    }
}

/// One line of the permissions list as shown.
#[derive(Debug)]
pub struct PermissionItem {
    pub key: String,
    pub label: String,
    pub subtitle: String,
    pub mode: String,
    pub base_mode: String,
    pub is_explicit: bool,
    pub kind: String,
    pub group_key: String,
    pub is_expanded: bool,
    pub has_tools: bool,
}

/// The value of a [`PermissionItem`].
pub struct ItemLine {
    pub key: Seq<char>,
    pub label: Seq<char>,
    pub subtitle: Seq<char>,
    pub mode: Seq<char>,
    pub base_mode: Seq<char>,
    pub is_explicit: bool,
    pub kind: Seq<char>,
    pub group_key: Seq<char>,
    pub is_expanded: bool,
    pub has_tools: bool,
}

impl View for PermissionItem {
    type V = ItemLine;

    open spec fn view(&self) -> ItemLine {
        ItemLine {
            key: self.key@,
            label: self.label@,
            subtitle: self.subtitle@,
            mode: self.mode@,
            base_mode: self.base_mode@,
            is_explicit: self.is_explicit,
            kind: self.kind@,
            group_key: self.group_key@,
            is_expanded: self.is_expanded,
            has_tools: self.has_tools,
        }
    }
}

pub open spec fn lines_view(v: Seq<PermissionItem>) -> Seq<ItemLine> {
    v.map_values(|i: PermissionItem| i@)
}

pub open spec fn is_group_row(r: RowView) -> bool {
    r.kind == "group"@
}

/// The group rows, in order.
pub open spec fn group_rows(rows: Seq<RowView>) -> Seq<RowView>
    decreases rows.len(),
{
    if rows.len() == 0 {
        seq![]
    } else if is_group_row(rows.last()) {
        group_rows(rows.drop_last()).push(rows.last())
    } else {
        group_rows(rows.drop_last())
    }
}

/// The tool rows, in order.
pub open spec fn tool_rows(rows: Seq<RowView>) -> Seq<RowView>
    decreases rows.len(),
{
    if rows.len() == 0 {
        seq![]
    } else if !is_group_row(rows.last()) {
        tool_rows(rows.drop_last()).push(rows.last())
    } else {
        tool_rows(rows.drop_last())
    }
}

/// The tools of group `key`, in order.
pub open spec fn tools_of_group(tools: Seq<RowView>, key: Seq<char>) -> Seq<RowView>
    decreases tools.len(),
{
    if tools.len() == 0 {
        seq![]
    } else if tools.last().group_key == key {
        tools_of_group(tools.drop_last(), key).push(tools.last())
    } else {
        tools_of_group(tools.drop_last(), key)
    }
}

pub open spec fn subtitle_of(what: Seq<char>, r: RowView) -> Seq<char> {
    what + r.key + " · default: "@ + r.base_mode
}

pub open spec fn group_line(g: RowView, tools: Seq<RowView>, expanded: Set<Seq<char>>) -> ItemLine {
    ItemLine {
        key: g.key,
        label: g.label,
        subtitle: subtitle_of("group key: "@, g),
        mode: g.mode,
        base_mode: g.base_mode,
        is_explicit: g.is_explicit,
        kind: g.kind,
        group_key: g.group_key,
        is_expanded: expanded.contains(g.key),
        has_tools: tools_of_group(tools, g.key).len() > 0,
    }
}

pub open spec fn tool_line(t: RowView) -> ItemLine {
    ItemLine {
        key: t.key,
        label: t.label,
        subtitle: subtitle_of("tool key: "@, t),
        mode: t.mode,
        base_mode: t.base_mode,
        is_explicit: t.is_explicit,
        kind: t.kind,
        group_key: t.group_key,
        is_expanded: false,
        has_tools: false,
    }
}

/// A group's line, followed by its tools' lines when it is expanded.
pub open spec fn group_section(g: RowView, tools: Seq<RowView>, expanded: Set<Seq<char>>) -> Seq<ItemLine> {
    seq![group_line(g, tools, expanded)] + if expanded.contains(g.key) {
        tools_of_group(tools, g.key).map_values(|t: RowView| tool_line(t))
    } else {
        seq![]
    }
}

pub open spec fn sections(groups: Seq<RowView>, tools: Seq<RowView>, expanded: Set<Seq<char>>) -> Seq<ItemLine>
    decreases groups.len(),
{
    if groups.len() == 0 {
        seq![]
    } else {
        sections(groups.drop_last(), tools, expanded) + group_section(groups.last(), tools, expanded)
    }
}

/// The permissions list: every group row in order, each followed by the
/// rows of its tools when the group is expanded. Tool rows of no listed
/// group are not shown.
pub open spec fn permission_lines(rows: Seq<RowView>, expanded: Set<Seq<char>>) -> Seq<ItemLine> {
    sections(group_rows(rows), tool_rows(rows), expanded)
}

fn subtitle(what: &str, key: &str, base_mode: &str) -> (r: String)
    ensures
        r@ == what@ + key@ + " · default: "@ + base_mode@,
{
    let mut s = owned(what);
    string_push_str(&mut s, key);
    string_push_str(&mut s, " · default: ");
    string_push_str(&mut s, base_mode);
    s
}

fn tool_item(t: &PermissionRow) -> (r: PermissionItem)
    ensures
        r@ == tool_line(t@),
{
    proof {
        reveal_strlit("tool key: ");
    }
    PermissionItem {
        key: t.key.clone(),
        label: t.label.clone(),
        subtitle: subtitle("tool key: ", t.key.as_str(), t.base_mode.as_str()),
        mode: t.mode.clone(),
        base_mode: t.base_mode.clone(),
        is_explicit: t.is_explicit,
        kind: t.kind.clone(),
        group_key: t.group_key.clone(),
        is_expanded: false,
        has_tools: false,
    }
}

/// Splits the rows into group rows and tool rows, order kept.
fn split_rows(rows: &Vec<PermissionRow>) -> (r: (Vec<PermissionRow>, Vec<PermissionRow>))
    ensures
        rows_view(r.0@) == group_rows(rows_view(rows@)),
        rows_view(r.1@) == tool_rows(rows_view(rows@)),
{
    proof {
        reveal_strlit("group");
    }
    let ghost rv = rows_view(rows@);
    let mut groups: Vec<PermissionRow> = Vec::new();
    let mut tools: Vec<PermissionRow> = Vec::new();
    let mut i: usize = 0;
    while i < rows.len()
        invariant
            i <= rows.len(),
            rv == rows_view(rows@),
            rows_view(groups@) == group_rows(rv.take(i as int)),
            rows_view(tools@) == tool_rows(rv.take(i as int)),
        decreases rows.len() - i,
    {
        proof {
            assert(rv.take(i + 1).drop_last() =~= rv.take(i as int));
            assert(rv.take(i + 1).last() == rows@[i as int]@);
        }
        let r = rows[i].copy();
        if str_eq(r.kind.as_str(), "group") {
            let ghost g0 = groups@;
            groups.push(r);
            assert(rows_view(groups@) =~= rows_view(g0).push(rows@[i as int]@));
        } else {
            let ghost t0 = tools@;
            tools.push(r);
            assert(rows_view(tools@) =~= rows_view(t0).push(rows@[i as int]@));
        }
        i += 1;
    }
    assert(rv.take(rows.len() as int) =~= rv);
    (groups, tools)
}

/// Whether some tool belongs to group `key`.
fn group_has_tools(tools: &Vec<PermissionRow>, key: &str) -> (r: bool)
    ensures
        r == (tools_of_group(rows_view(tools@), key@).len() > 0),
{
    let ghost tv = rows_view(tools@);
    let mut j: usize = 0;
    while j < tools.len()
        invariant
            j <= tools.len(),
            tv == rows_view(tools@),
            tools_of_group(tv.take(j as int), key@).len() == 0,
        decreases tools.len() - j,
    {
        proof {
            assert(tv.take(j + 1).drop_last() =~= tv.take(j as int));
            assert(tv.take(j + 1).last() == tools@[j as int]@);
        }
        if str_eq(tools[j].group_key.as_str(), key) {
            proof {
                lemma_tools_of_group_grows(tv, key@, j as int);
            }
            return true;
        }
        j += 1;
    }
    assert(tv.take(tools.len() as int) =~= tv);
    false
}

/// A tool of the group among the first `j + 1` rows stays among all rows.
proof fn lemma_tools_of_group_grows(tv: Seq<RowView>, key: Seq<char>, j: int)
    requires
        0 <= j < tv.len(),
        tv[j].group_key == key,
    ensures
        tools_of_group(tv, key).len() > 0,
    decreases tv.len(),
{
    if j < tv.len() - 1 {
        lemma_tools_of_group_grows(tv.drop_last(), key, j);
    }
}

/// The lines of the permissions list (see [`permission_lines`]), for the
/// groups expanded in `expanded`.
pub fn permission_items(rows: &Vec<PermissionRow>, expanded: &StringSet) -> (r: Vec<PermissionItem>)
    ensures
        lines_view(r@) == permission_lines(rows_view(rows@), expanded.view_set()),
{
    proof {
        reveal_strlit("group key: ");
    }
    let (groups, tools) = split_rows(rows);
    let ghost gv = rows_view(groups@);
    let ghost tv = rows_view(tools@);
    let ghost es = expanded.view_set();
    let mut out: Vec<PermissionItem> = Vec::new();
    assert(lines_view(out@) =~= seq![]);
    let mut k: usize = 0;
    while k < groups.len()
        invariant
            k <= groups.len(),
            gv == rows_view(groups@),
            tv == rows_view(tools@),
            es == expanded.view_set(),
            lines_view(out@) == sections(gv.take(k as int), tv, es),
        decreases groups.len() - k,
    {
        proof {
            assert(gv.take(k + 1).drop_last() =~= gv.take(k as int));
            assert(gv.take(k + 1).last() == groups@[k as int]@);
        }
        let g = &groups[k];
        let has_tools = group_has_tools(&tools, g.key.as_str());
        let is_expanded = expanded.contains(g.key.as_str());
        let ghost base = lines_view(out@);
        let line = PermissionItem {
            key: g.key.clone(),
            label: g.label.clone(),
            subtitle: subtitle("group key: ", g.key.as_str(), g.base_mode.as_str()),
            mode: g.mode.clone(),
            base_mode: g.base_mode.clone(),
            is_explicit: g.is_explicit,
            kind: g.kind.clone(),
            group_key: g.group_key.clone(),
            is_expanded,
            has_tools,
        };
        assert(line@ == group_line(g@, tv, es));
        out.push(line);
        assert(lines_view(out@) =~= base + seq![group_line(g@, tv, es)]);
        if is_expanded {
            let ghost head = lines_view(out@);
            let mut j: usize = 0;
            while j < tools.len()
                invariant
                    j <= tools.len(),
                    tv == rows_view(tools@),
                    lines_view(out@) == head + tools_of_group(tv.take(j as int), g.key@).map_values(
                        |t: RowView| tool_line(t),
                    ),
                decreases tools.len() - j,
            {
                proof {
                    assert(tv.take(j + 1).drop_last() =~= tv.take(j as int));
                    assert(tv.take(j + 1).last() == tools@[j as int]@);
                }
                if str_eq(tools[j].group_key.as_str(), g.key.as_str()) {
                    let t = tool_item(&tools[j]);
                    let ghost o0 = lines_view(out@);
                    out.push(t);
                    proof {
                        let s0 = tools_of_group(tv.take(j as int), g.key@);
                        assert(s0.push(tv[j as int]).map_values(|t: RowView| tool_line(t)) =~= s0.map_values(
                            |t: RowView| tool_line(t),
                        ).push(tool_line(tv[j as int])));
                        assert(lines_view(out@) =~= o0.push(tool_line(tv[j as int])));
                    }
                }
                j += 1;
            }
            assert(tv.take(tools.len() as int) =~= tv);
        }
        proof {
            let sec = group_section(g@, tv, es);
            assert(lines_view(out@) =~= base + sec);
        }
        k += 1;
    }
    assert(gv.take(groups.len() as int) =~= gv);
    out
}

/// Folds group `key` in if it is shown expanded, out otherwise.
pub fn toggle_group_expanded(expanded: &mut StringSet, key: &str)
    requires
        old(expanded).wf(),
    ensures
        final(expanded).wf(),
        final(expanded).view_set() == if old(expanded).view_set().contains(key@) {
            old(expanded).view_set().remove(key@)
        } else {
            old(expanded).view_set().insert(key@)
        },
{
    if expanded.contains(key) {
        expanded.remove(key);
    } else {
        expanded.insert(key);
    }
}

/// The first row of `kind` with key `key`.
pub open spec fn first_row(rows: Seq<RowView>, key: Seq<char>, kind: Seq<char>) -> Option<RowView>
    decreases rows.len(),
{
    if rows.len() == 0 {
        None
    } else if rows[0].key == key && rows[0].kind == kind {
        Some(rows[0])
    } else {
        first_row(rows.drop_first(), key, kind)
    }
}

/// The mode to record when the user picks `mode` for the row `key` of
/// `kind`: nothing, which clears the row's own setting, when `mode` is the
/// mode the row inherits anyway; `mode` itself otherwise.
pub open spec fn mode_to_record(rows: Seq<RowView>, key: Seq<char>, kind: Seq<char>, mode: Seq<char>) -> Option<
    Seq<char>,
> {
    match first_row(rows, key, kind) {
        Some(r) => if r.base_mode == mode {
            None
        } else {
            Some(mode)
        },
        None => Some(mode),
    }
}

/// See [`mode_to_record`].
pub fn target_mode(rows: &Vec<PermissionRow>, key: &str, kind: &str, mode: &str) -> (r: Option<String>)
    ensures
        match r {
            Some(m) => mode_to_record(rows_view(rows@), key@, kind@, mode@) == Some(m@),
            None => mode_to_record(rows_view(rows@), key@, kind@, mode@) is None,
        },
{
    let ghost rv = rows_view(rows@);
    let mut i: usize = 0;
    assert(rv.skip(0) =~= rv);
    while i < rows.len()
        invariant
            i <= rows.len(),
            rv == rows_view(rows@),
            first_row(rv, key@, kind@) == first_row(rv.skip(i as int), key@, kind@),
        decreases rows.len() - i,
    {
        proof {
            assert(rv.skip(i as int)[0] == rows@[i as int]@);
            assert(rv.skip(i as int).drop_first() =~= rv.skip(i + 1));
        }
        if str_eq(rows[i].key.as_str(), key) && str_eq(rows[i].kind.as_str(), kind) {
            if str_eq(rows[i].base_mode.as_str(), mode) {
                return None;
            } else {
                return Some(owned(mode));
            }
        }
        i += 1;
    }
    Some(owned(mode))
}

/// The scope a scope tab stands for: the owner's own sessions for the
/// first tab, sessions of external channels otherwise.
pub open spec fn scope_name(scope_index: i32) -> Seq<char> {
    if scope_index == 0 {
        "owner"@
    } else {
        "external"@
    }
}

/// The policy rows to load for the page's state: `None` when the list is
/// hidden (neither the global tab nor a directory is open), else the scope
/// and, when a directory is being configured, that directory.
pub open spec fn rows_query(active_tab: i32, scope_index: i32, configure_dir: Seq<char>) -> Option<
    (Seq<char>, Option<Seq<char>>),
> {
    if active_tab == 1 || configure_dir.len() > 0 {
        Some(
            (
                scope_name(scope_index),
                if configure_dir.len() > 0 {
                    Some(configure_dir)
                } else {
                    None
                },
            ),
        )
    } else {
        None
    }
}

/// See [`rows_query`].
pub fn permission_rows_query(active_tab: i32, scope_index: i32, configure_dir: &str) -> (r: Option<
    (String, Option<String>),
>)
    ensures
        match r {
            Some((s, d)) => rows_query(active_tab, scope_index, configure_dir@) == Some(
                (
                    s@,
                    match d {
                        Some(x) => Some(x@),
                        None => None,
                    },
                ),
            ),
            None => rows_query(active_tab, scope_index, configure_dir@) is None,
        },
{
    let is_dir_view = !configure_dir.is_empty();
    if active_tab == 1 || is_dir_view {
        let scope = if scope_index == 0 {
            owned("owner")
        } else {
            owned("external")
        };
        let dir = if is_dir_view {
            Some(owned(configure_dir))
        } else {
            None
        };
        Some((scope, dir))
    } else {
        None
    }
}

/// A directory as the page shows it: in plain form on Windows.
pub open spec fn shown_path(p: Seq<char>, platform: Platform) -> Seq<char> {
    if platform == Platform::Windows {
        plain_windows_path(p)
    } else {
        p
    }
}

/// The allowed directories as listed: each in its shown form, with the
/// workspace directory put first when it is set and not listed already.
pub open spec fn shown_directories(dirs: Seq<Seq<char>>, workspace: Seq<char>, platform: Platform) -> Seq<Seq<char>> {
    let d = dirs.map_values(|p: Seq<char>| shown_path(p, platform));
    let w = shown_path(workspace, platform);
    if w.len() > 0 && !d.contains(w) {
        seq![w] + d
    } else {
        d
    }
}

pub open spec fn strings_view(v: Seq<String>) -> Seq<Seq<char>> {
    v.map_values(|s: String| s@)
}

fn shown_path_of(p: &str, platform: Platform) -> (r: String)
    ensures
        r@ == shown_path(p@, platform),
{
    match platform {
        Platform::Windows => clean_windows_path(p),
        _ => owned(p),
    }
}

/// The directory list and the workspace directory as the page shows them
/// (see [`shown_directories`]).
pub fn directory_list(dirs: &Vec<String>, workspace: &str, platform: Platform) -> (r: (Vec<String>, String))
    ensures
        strings_view(r.0@) == shown_directories(strings_view(dirs@), workspace@, platform),
        r.1@ == shown_path(workspace@, platform),
{
    let ghost dv = strings_view(dirs@);
    let ghost shown = dv.map_values(|p: Seq<char>| shown_path(p, platform));
    let mut list: Vec<String> = Vec::new();
    let mut i: usize = 0;
    while i < dirs.len()
        invariant
            i <= dirs.len(),
            dv == strings_view(dirs@),
            shown == dv.map_values(|p: Seq<char>| shown_path(p, platform)),
            strings_view(list@) == shown.take(i as int),
        decreases dirs.len() - i,
    {
        let p = shown_path_of(dirs[i].as_str(), platform);
        let ghost l0 = list@;
        list.push(p);
        assert(strings_view(list@) =~= shown.take(i + 1)) by {
            assert(strings_view(list@) =~= strings_view(l0).push(p@));
            assert(shown.take(i + 1) =~= shown.take(i as int).push(shown[i as int]));
        }
        i += 1;
    }
    assert(shown.take(dirs.len() as int) =~= shown);
    let w = shown_path_of(workspace, platform);
    let mut listed = false;
    let mut j: usize = 0;
    while j < list.len()
        invariant
            j <= list.len(),
            strings_view(list@) == shown,
            listed == exists|k: int| 0 <= k < j && shown[k] == w@,
        decreases list.len() - j,
    {
        let eq = str_eq(list[j].as_str(), w.as_str());
        proof {
            assert(shown[j as int] == list@[j as int]@);
            if exists|k: int| 0 <= k < j + 1 && shown[k] == w@ {
                let k = choose|k: int| 0 <= k < j + 1 && shown[k] == w@;
                if k < j {
                    assert(exists|k2: int| 0 <= k2 < j && shown[k2] == w@);
                }
            }
        }
        listed = listed || eq;
        j += 1;
    }
    proof {
        if shown.contains(w@) {
            let k = choose|k: int| 0 <= k < shown.len() && shown[k] == w@;
            assert(shown[k] == w@);
        }
        if listed {
            let k = choose|k: int| 0 <= k < list.len() && shown[k] == w@;
            assert(shown.contains(w@));
        }
    }
    if !w.as_str().is_empty() && !listed {
        let ghost l0 = strings_view(list@);
        list.insert(0, w.clone());
        assert(strings_view(list@) =~= seq![w@] + l0);
    }
    (list, w)
}

/// A workspace directory that is set is always listed.
pub proof fn lemma_workspace_listed(dirs: Seq<Seq<char>>, workspace: Seq<char>, platform: Platform)
    requires
        shown_path(workspace, platform).len() > 0,
    ensures
        shown_directories(dirs, workspace, platform).contains(shown_path(workspace, platform)),
{
    let d = dirs.map_values(|p: Seq<char>| shown_path(p, platform));
    let w = shown_path(workspace, platform);
    if !d.contains(w) {
        assert((seq![w] + d)[0] == w);
    }
}

} // verus!

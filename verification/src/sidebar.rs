//! The conversation lists of the left sidebar: which saved sessions match
//! the search, newest first, split into standalone chats and the chats of
//! each project directory.

use crate::paths::without_unc;
use crate::text::{chars_of, contains, contains_chars, str_eq};
use vstd::multiset::Multiset;
use vstd::prelude::*;

verus! {

/// A saved session, as the sidebar lists it.
#[derive(Debug, Clone, PartialEq, Eq)]
pub struct SessionRecord {
    pub id: String,
    /// Seconds since the Unix epoch.
    pub created_at: i64,
    /// The workspace directory the session ran in.
    pub workspace: String,
    pub title: String,
    /// Whether the workspace is a project rather than the default workspace.
    pub is_project: bool,
    /// The last component of the workspace path, for projects.
    pub project_name: String,
}

/// One entry of a conversation list.
#[derive(Debug, Clone, PartialEq, Eq)]
pub struct SidebarConversation {
    pub id: String,
    pub title: String,
}

/// A project directory with its conversations.
#[derive(Debug, Clone, PartialEq, Eq)]
pub struct SidebarProject {
    pub name: String,
    pub path: String,
    pub conversations: Vec<SidebarConversation>,
}

pub struct RecordView {
    pub id: Seq<char>,
    pub created_at: i64,
    pub workspace: Seq<char>,
    pub title: Seq<char>,
    pub is_project: bool,
    pub project_name: Seq<char>,
}

pub open spec fn record_view(r: SessionRecord) -> RecordView {
    RecordView {
        id: r.id@,
        created_at: r.created_at,
        workspace: r.workspace@,
        title: r.title@,
        is_project: r.is_project,
        project_name: r.project_name@,
    }
}

pub open spec fn records_view(v: Seq<SessionRecord>) -> Seq<RecordView> {
    v.map_values(|r: SessionRecord| record_view(r))
}

pub open spec fn conv_view(c: SidebarConversation) -> (Seq<char>, Seq<char>) {
    (c.id@, c.title@)
}

pub open spec fn convs_view(v: Seq<SidebarConversation>) -> Seq<(Seq<char>, Seq<char>)> {
    v.map_values(|c: SidebarConversation| conv_view(c))
}

pub open spec fn project_view(p: SidebarProject) -> (Seq<char>, Seq<char>, Seq<(Seq<char>, Seq<char>)>) {
    (p.name@, p.path@, convs_view(p.conversations@))
}

pub open spec fn projects_view(v: Seq<SidebarProject>) -> Seq<
    (Seq<char>, Seq<char>, Seq<(Seq<char>, Seq<char>)>),
> {
    v.map_values(|p: SidebarProject| project_view(p))
}

// ---------------------------------------------------------------------------
// Trusted std text and path operations
// ---------------------------------------------------------------------------

/// The Unicode lower-case form of `s`, as `str::to_lowercase` gives it.
pub uninterp spec fn lowercase_of(s: Seq<char>) -> Seq<char>;

/// The last component of the path `p`, as `Path::file_name` gives it, when
/// there is one and it is valid UTF-8 (by the path rules of the platform
/// the library is built for, which are fixed for a build).
pub uninterp spec fn file_name_of(p: Seq<char>) -> Option<Seq<char>>;

/// `str::to_lowercase`. Claimed: the result is `lowercase_of(s)`.
#[verifier::external_body]
fn lowercase(s: &str) -> (r: String)
    ensures
        r@ == lowercase_of(s@),
{
    s.to_lowercase()
}

/// `Path::file_name`, as text. Claimed: the result is `file_name_of(p)`.
#[verifier::external_body]
pub(crate) fn path_file_name(p: &str) -> (r: Option<String>)
    ensures
        match r {
            Some(n) => file_name_of(p@) == Some(n@),
            None => file_name_of(p@) is None,
        },
{
    std::path::Path::new(p).file_name().and_then(|n| n.to_str()).map(|n| n.to_string())
}

// ---------------------------------------------------------------------------
// Specification
// ---------------------------------------------------------------------------

/// The project directories among the allowed ones: all but the default workspace.
pub open spec fn project_dirs(dirs: Seq<Seq<char>>, default_workspace: Seq<char>) -> Seq<Seq<char>>
    decreases dirs.len(),
{
    if dirs.len() == 0 {
        seq![]
    } else {
        let rest = project_dirs(dirs.drop_last(), default_workspace);
        if without_unc(dirs.last()) != default_workspace {
            rest.push(dirs.last())
        } else {
            rest
        }
    }
}

/// Whether a session is listed under the search `query`: an empty query
/// lists everything, otherwise its title or project name must contain it,
/// lower-cased.
pub open spec fn matches_search(query: Seq<char>, r: RecordView) -> bool {
    query.len() == 0 || contains(lowercase_of(r.title), query) || contains(
        lowercase_of(r.project_name),
        query,
    )
}

pub open spec fn listed(rs: Seq<RecordView>, query: Seq<char>) -> Seq<RecordView>
    decreases rs.len(),
{
    if rs.len() == 0 {
        seq![]
    } else {
        let rest = listed(rs.drop_last(), query);
        if matches_search(query, rs.last()) {
            rest.push(rs.last())
        } else {
            rest
        }
    }
}

/// `x` placed into the newest-first list `s` after every session at least as new.
pub open spec fn insert_by_age(s: Seq<RecordView>, x: RecordView) -> Seq<RecordView>
    decreases s.len(),
{
    if s.len() == 0 {
        seq![x]
    } else if s.last().created_at >= x.created_at {
        s.push(x)
    } else {
        insert_by_age(s.drop_last(), x).push(s.last())
    }
}

/// The sessions newest first; sessions created at the same second keep their order.
pub open spec fn newest_first(rs: Seq<RecordView>) -> Seq<RecordView>
    decreases rs.len(),
{
    if rs.len() == 0 {
        seq![]
    } else {
        insert_by_age(newest_first(rs.drop_last()), rs.last())
    }
}

/// The (id, title) of the sessions for which `keep` holds, in order.
pub open spec fn entries_where(rs: Seq<RecordView>, keep: spec_fn(RecordView) -> bool) -> Seq<
    (Seq<char>, Seq<char>),
>
    decreases rs.len(),
{
    if rs.len() == 0 {
        seq![]
    } else {
        let rest = entries_where(rs.drop_last(), keep);
        if keep(rs.last()) {
            rest.push((rs.last().id, rs.last().title))
        } else {
            rest
        }
    }
}

pub open spec fn standalone(r: RecordView) -> bool {
    !r.is_project
}

pub open spec fn in_project(p: Seq<char>) -> spec_fn(RecordView) -> bool {
    |r: RecordView| r.is_project && r.workspace == p
}

/// The name a project is shown under.
pub open spec fn project_name_of(p: Seq<char>) -> Seq<char> {
    match file_name_of(p) {
        Some(n) => n,
        None => p,
    }
}

/// The projects shown: each directory once, with its conversations, when the
/// search is empty, matches its name, or matched one of its conversations.
pub open spec fn shown_projects(
    projects: Seq<Seq<char>>,
    sorted: Seq<RecordView>,
    query: Seq<char>,
) -> Seq<(Seq<char>, Seq<char>, Seq<(Seq<char>, Seq<char>)>)>
    decreases projects.len(),
{
    if projects.len() == 0 {
        seq![]
    } else {
        let rest = shown_projects(projects.drop_last(), sorted, query);
        let p = projects.last();
        let convs = if projects.drop_last().contains(p) {
            seq![]
        } else {
            entries_where(sorted, in_project(p))
        };
        let name = project_name_of(p);
        if query.len() == 0 || contains(lowercase_of(name), query) || convs.len() > 0 {
            rest.push((name, p, convs))
        } else {
            rest
        }
    }
}

/// The sidebar lists: standalone chats, and the shown projects with theirs.
pub open spec fn sidebar_lists(
    records: Seq<RecordView>,
    projects: Seq<Seq<char>>,
    query: Seq<char>,
) -> (Seq<(Seq<char>, Seq<char>)>, Seq<(Seq<char>, Seq<char>, Seq<(Seq<char>, Seq<char>)>)>) {
    let sorted = newest_first(listed(records, query));
    (entries_where(sorted, |r: RecordView| standalone(r)), shown_projects(projects, sorted, query))
}

// ---------------------------------------------------------------------------
// Executable
// ---------------------------------------------------------------------------

pub open spec fn strings_view(v: Seq<String>) -> Seq<Seq<char>> {
    v.map_values(|s: String| s@)
}

/// The project directories among the allowed ones.
pub fn project_directories(allowed_dirs: &Vec<String>, default_workspace: &str) -> (r: Vec<String>)
    ensures
        strings_view(r@) == project_dirs(strings_view(allowed_dirs@), default_workspace@),
{
    let ghost dv = strings_view(allowed_dirs@);
    let mut out: Vec<String> = Vec::new();
    let mut i: usize = 0;
    while i < allowed_dirs.len()
        invariant
            i <= allowed_dirs.len(),
            dv == strings_view(allowed_dirs@),
            strings_view(out@) == project_dirs(dv.take(i as int), default_workspace@),
        decreases allowed_dirs.len() - i,
    {
        proof {
            assert(dv.take(i + 1).drop_last() =~= dv.take(i as int));
            assert(dv.take(i + 1).last() == allowed_dirs@[i as int]@);
        }
        let cleaned = crate::paths::clean_unc_path(allowed_dirs[i].clone());
        if !str_eq(cleaned.as_str(), default_workspace) {
            let ghost o0 = out@;
            out.push(allowed_dirs[i].clone());
            assert(strings_view(out@) =~= strings_view(o0).push(allowed_dirs@[i as int]@));
        }
        i += 1;
    }
    assert(dv.take(allowed_dirs.len() as int) =~= dv);
    out
}

fn matches_search_exec(query: &str, r: &SessionRecord) -> (b: bool)
    ensures
        b == matches_search(query@, record_view(*r)),
{
    let q = chars_of(query);
    if q.len() == 0 {
        return true;
    }
    let t = chars_of(lowercase(r.title.as_str()).as_str());
    if contains_chars(&t, &q) {
        return true;
    }
    let n = chars_of(lowercase(r.project_name.as_str()).as_str());
    contains_chars(&n, &q)
}

fn copy_record(r: &SessionRecord) -> (c: SessionRecord)
    ensures
        record_view(c) == record_view(*r),
{
    SessionRecord {
        id: r.id.clone(),
        created_at: r.created_at,
        workspace: r.workspace.clone(),
        title: r.title.clone(),
        is_project: r.is_project,
        project_name: r.project_name.clone(),
    }
}

proof fn lemma_insert_by_age_at(s: Seq<RecordView>, x: RecordView, j: int)
    requires
        0 <= j <= s.len(),
        forall|k: int| j <= k < s.len() ==> #[trigger] s[k].created_at < x.created_at,
        j == 0 || s[j - 1].created_at >= x.created_at,
    ensures
        insert_by_age(s, x) == s.take(j).push(x) + s.skip(j),
    decreases s.len(),
{
    if s.len() == 0 {
        assert(s.take(j).push(x) + s.skip(j) =~= seq![x]);
    } else if j == s.len() {
        assert(s.take(j).push(x) + s.skip(j) =~= s.push(x));
    } else {
        lemma_insert_by_age_at(s.drop_last(), x, j);
        assert(insert_by_age(s, x) == insert_by_age(s.drop_last(), x).push(s.last()));
        assert(s.drop_last().take(j).push(x) + s.drop_last().skip(j) + seq![s.last()]
            =~= s.take(j).push(x) + s.skip(j));
    }
}

/// Sessions matching the search, newest first.
fn sort_listed(records: &Vec<SessionRecord>, query: &str) -> (r: Vec<SessionRecord>)
    ensures
        records_view(r@) == newest_first(listed(records_view(records@), query@)),
{
    let ghost rv = records_view(records@);
    let mut out: Vec<SessionRecord> = Vec::new();
    let mut i: usize = 0;
    let ghost mut kept: Seq<RecordView> = seq![];
    assert(records_view(out@) =~= seq![]);
    while i < records.len()
        invariant
            i <= records.len(),
            rv == records_view(records@),
            kept == listed(rv.take(i as int), query@),
            records_view(out@) == newest_first(kept),
        decreases records.len() - i,
    {
        proof {
            assert(rv.take(i + 1).drop_last() =~= rv.take(i as int));
            assert(rv.take(i + 1).last() == record_view(records@[i as int]));
        }
        if matches_search_exec(query, &records[i]) {
            let x = copy_record(&records[i]);
            let ghost ov = records_view(out@);
            let mut j: usize = out.len();
            while j > 0 && out[j - 1].created_at < x.created_at
                invariant
                    j <= out.len(),
                    ov == records_view(out@),
                    forall|k: int| j <= k < out.len() ==> #[trigger] ov[k].created_at < x.created_at,
                decreases j,
            {
                j -= 1;
            }
            proof {
                lemma_insert_by_age_at(ov, record_view(x), j as int);
                kept = kept.push(record_view(records@[i as int]));
                assert(kept.drop_last() =~= listed(rv.take(i as int), query@));
            }
            out.insert(j, x);
            assert(records_view(out@) =~= ov.take(j as int).push(record_view(x)) + ov.skip(j as int));
        }
        i += 1;
    }
    assert(rv.take(records.len() as int) =~= rv);
    out
}

fn conversation_of(r: &SessionRecord) -> (c: SidebarConversation)
    ensures
        conv_view(c) == (r.id@, r.title@),
{
    SidebarConversation { id: r.id.clone(), title: r.title.clone() }
}

fn standalone_entries(sorted: &Vec<SessionRecord>) -> (r: Vec<SidebarConversation>)
    ensures
        convs_view(r@) == entries_where(records_view(sorted@), |x: RecordView| standalone(x)),
{
    let ghost sv = records_view(sorted@);
    let ghost keep = |x: RecordView| standalone(x);
    let mut out: Vec<SidebarConversation> = Vec::new();
    let mut i: usize = 0;
    assert(convs_view(out@) =~= seq![]);
    while i < sorted.len()
        invariant
            i <= sorted.len(),
            sv == records_view(sorted@),
            keep == (|x: RecordView| standalone(x)),
            convs_view(out@) == entries_where(sv.take(i as int), keep),
        decreases sorted.len() - i,
    {
        proof {
            assert(sv.take(i + 1).drop_last() =~= sv.take(i as int));
            assert(sv.take(i + 1).last() == record_view(sorted@[i as int]));
        }
        if !sorted[i].is_project {
            let c = conversation_of(&sorted[i]);
            let ghost o0 = out@;
            out.push(c);
            assert(convs_view(out@) =~= convs_view(o0).push(conv_view(c)));
        }
        i += 1;
    }
    assert(sv.take(sorted.len() as int) =~= sv);
    out
}

fn project_entries(sorted: &Vec<SessionRecord>, p: &str) -> (r: Vec<SidebarConversation>)
    ensures
        convs_view(r@) == entries_where(records_view(sorted@), in_project(p@)),
{
    let ghost sv = records_view(sorted@);
    let mut out: Vec<SidebarConversation> = Vec::new();
    let mut i: usize = 0;
    assert(convs_view(out@) =~= seq![]);
    while i < sorted.len()
        invariant
            i <= sorted.len(),
            sv == records_view(sorted@),
            convs_view(out@) == entries_where(sv.take(i as int), in_project(p@)),
        decreases sorted.len() - i,
    {
        proof {
            assert(sv.take(i + 1).drop_last() =~= sv.take(i as int));
            assert(sv.take(i + 1).last() == record_view(sorted@[i as int]));
        }
        if sorted[i].is_project && str_eq(sorted[i].workspace.as_str(), p) {
            let c = conversation_of(&sorted[i]);
            let ghost o0 = out@;
            out.push(c);
            assert(convs_view(out@) =~= convs_view(o0).push(conv_view(c)));
        }
        i += 1;
    }
    assert(sv.take(sorted.len() as int) =~= sv);
    out
}

fn seen_before(projects: &Vec<String>, k: usize) -> (r: bool)
    requires
        k <= projects.len(),
    ensures
        r == strings_view(projects@).take(k as int).contains(projects@[k as int]@) || (k
            == projects.len() && r == false),
{
    if k == projects.len() {
        return false;
    }
    let ghost pv = strings_view(projects@);
    let mut j: usize = 0;
    while j < k
        invariant
            j <= k < projects.len(),
            pv == strings_view(projects@),
            forall|m: int| 0 <= m < j ==> #[trigger] pv[m] != pv[k as int],
        decreases k - j,
    {
        if str_eq(projects[j].as_str(), projects[k].as_str()) {
            assert(pv.take(k as int)[j as int] == pv[k as int]);
            return true;
        }
        j += 1;
    }
    proof {
        if pv.take(k as int).contains(pv[k as int]) {
            let m = choose|m: int| 0 <= m < k && pv.take(k as int)[m] == pv[k as int];
            assert(pv[m] == pv[k as int]);
        }
    }
    false
}

/// Matches saved sessions against the search and splits them, newest
/// first, into standalone chats and the chats of each project directory.
pub fn group_sidebar_sessions(
    records: &Vec<SessionRecord>,
    projects: &Vec<String>,
    search_query: &str,
) -> (r: (Vec<SidebarConversation>, Vec<SidebarProject>))
    ensures
        (convs_view(r.0@), projects_view(r.1@)) == sidebar_lists(
            records_view(records@),
            strings_view(projects@),
            search_query@,
        ),
{
    let sorted = sort_listed(records, search_query);
    let ghost sv = records_view(sorted@);
    let chats = standalone_entries(&sorted);
    let ghost pv = strings_view(projects@);
    let q = chars_of(search_query);
    let mut shown: Vec<SidebarProject> = Vec::new();
    let mut k: usize = 0;
    assert(projects_view(shown@) =~= seq![]);
    while k < projects.len()
        invariant
            k <= projects.len(),
            pv == strings_view(projects@),
            sv == records_view(sorted@),
            q@ == search_query@,
            projects_view(shown@) == shown_projects(pv.take(k as int), sv, search_query@),
        decreases projects.len() - k,
    {
        proof {
            assert(pv.take(k + 1).drop_last() =~= pv.take(k as int));
            assert(pv.take(k + 1).last() == projects@[k as int]@);
        }
        let p = &projects[k];
        let convs: Vec<SidebarConversation> = if seen_before(projects, k) {
            let v: Vec<SidebarConversation> = Vec::new();
            assert(convs_view(v@) =~= seq![]);
            v
        } else {
            project_entries(&sorted, p.as_str())
        };
        let name = match path_file_name(p.as_str()) {
            Some(n) => n,
            None => p.clone(),
        };
        let lname = chars_of(lowercase(name.as_str()).as_str());
        if q.len() == 0 || contains_chars(&lname, &q) || convs.len() > 0 {
            let entry = SidebarProject { name, path: p.clone(), conversations: convs };
            let ghost s0 = shown@;
            shown.push(entry);
            assert(projects_view(shown@) =~= projects_view(s0).push(project_view(entry)));
        }
        k += 1;
    }
    assert(pv.take(projects.len() as int) =~= pv);
    (chats, shown)
}

// ---------------------------------------------------------------------------
// Laws of the ordering
// ---------------------------------------------------------------------------

pub open spec fn sorted_by_age(s: Seq<RecordView>) -> bool {
    forall|i: int, j: int| 0 <= i < j < s.len() ==> #[trigger] s[i].created_at >= #[trigger] s[j].created_at
}

proof fn lemma_insert_sorted(s: Seq<RecordView>, x: RecordView)
    requires
        sorted_by_age(s),
    ensures
        sorted_by_age(insert_by_age(s, x)),
        insert_by_age(s, x).to_multiset() == s.to_multiset().insert(x),
    decreases s.len(),
{
    if s.len() == 0 {
        assert(seq![x].to_multiset() =~= Multiset::empty().insert(x)) by {
            broadcast use vstd::seq_lib::group_to_multiset_ensures;
            assert(seq![x] =~= Seq::<RecordView>::empty().push(x));
        }
        broadcast use vstd::seq_lib::group_to_multiset_ensures;
    } else if s.last().created_at >= x.created_at {
        broadcast use vstd::seq_lib::group_to_multiset_ensures;
    } else {
        lemma_insert_sorted(s.drop_last(), x);
        let r0 = insert_by_age(s.drop_last(), x);
        let r = r0.push(s.last());
        assert forall|i: int, j: int| 0 <= i < j < r.len() implies #[trigger] r[i].created_at
            >= #[trigger] r[j].created_at by {
            if j == r.len() - 1 {
                // every element of r0 is x or an element of s before the last
                assert(r0.to_multiset().count(r0[i]) > 0) by {
                    broadcast use vstd::seq_lib::group_to_multiset_ensures;
                    assert(r0.contains(r0[i]));
                }
                if r0[i] != x {
                    assert(s.drop_last().to_multiset().count(r0[i]) > 0);
                    broadcast use vstd::seq_lib::group_to_multiset_ensures;
                    let k = choose|k: int| 0 <= k < s.drop_last().len() && s.drop_last()[k] == r0[i];
                    assert(s[k] == r0[i]);
                }
            }
        }
        broadcast use vstd::seq_lib::group_to_multiset_ensures;
        assert(s.drop_last().push(s.last()) =~= s);
    }
}

/// The sidebar lists sessions newest first, each listed session exactly once.
pub proof fn lemma_newest_first_sorted(rs: Seq<RecordView>)
    ensures
        sorted_by_age(newest_first(rs)),
        newest_first(rs).to_multiset() == rs.to_multiset(),
    decreases rs.len(),
{
    broadcast use vstd::seq_lib::group_to_multiset_ensures;
    if rs.len() > 0 {
        lemma_newest_first_sorted(rs.drop_last());
        lemma_insert_sorted(newest_first(rs.drop_last()), rs.last());
        assert(rs.drop_last().push(rs.last()) =~= rs);
    }
}

/// Where `id` is among the conversations `convs`, first place first.
pub open spec fn conv_position(convs: Seq<(Seq<char>, Seq<char>)>, id: Seq<char>) -> Option<int>
    decreases convs.len(),
{
    if convs.len() == 0 {
        None
    } else {
        match conv_position(convs.drop_last(), id) {
            Some(i) => Some(i),
            None => if convs.last().0 == id {
                Some(convs.len() - 1)
            } else {
                None
            },
        }
    }
}

/// The last project holding `id`, and its place there.
pub open spec fn project_position(
    projects: Seq<(Seq<char>, Seq<char>, Seq<(Seq<char>, Seq<char>)>)>,
    id: Seq<char>,
) -> Option<(int, int)>
    decreases projects.len(),
{
    if projects.len() == 0 {
        None
    } else {
        match conv_position(projects.last().2, id) {
            Some(c) => Some((projects.len() - 1, c)),
            None => project_position(projects.drop_last(), id),
        }
    }
}

/// The sidebar entry to highlight for the open session, as (chat, project,
/// conversation) indexes with -1 for none: the standalone chat holding it,
/// else the project conversation holding it; `None` leaves the highlight
/// as it is (no session open, or the session is not listed).
pub open spec fn selection_of(
    chats: Seq<(Seq<char>, Seq<char>)>,
    projects: Seq<(Seq<char>, Seq<char>, Seq<(Seq<char>, Seq<char>)>)>,
    active: Option<Seq<char>>,
) -> Option<(int, int, int)> {
    match active {
        None => None,
        Some(id) => match conv_position(chats, id) {
            Some(i) => Some((i, -1, -1)),
            None => match project_position(projects, id) {
                Some((p, c)) => Some((-1, p, c)),
                None => None,
            },
        },
    }
}

proof fn lemma_conv_position_bound(convs: Seq<(Seq<char>, Seq<char>)>, id: Seq<char>)
    ensures
        conv_position(convs, id) matches Some(i) ==> 0 <= i < convs.len(),
    decreases convs.len(),
{
    if convs.len() > 0 {
        lemma_conv_position_bound(convs.drop_last(), id);
    }
}

fn position_in(convs: &Vec<SidebarConversation>, id: &str) -> (r: Option<usize>)
    ensures
        match r {
            Some(i) => conv_position(convs_view(convs@), id@) == Some(i as int) && i < convs@.len(),
            None => conv_position(convs_view(convs@), id@) is None,
        },
{
    let ghost cv = convs_view(convs@);
    let mut i: usize = 0;
    while i < convs.len()
        invariant
            i <= convs.len(),
            cv == convs_view(convs@),
            conv_position(cv.take(i as int), id@) is None,
        decreases convs.len() - i,
    {
        proof {
            assert(cv.take(i + 1).drop_last() =~= cv.take(i as int));
            assert(cv.take(i + 1).last() == conv_view(convs@[i as int]));
        }
        if str_eq(convs[i].id.as_str(), id) {
            proof {
                lemma_conv_position_first(cv, id@, i as int);
            }
            return Some(i);
        }
        i += 1;
    }
    assert(cv.take(convs.len() as int) =~= cv);
    None
}

proof fn lemma_conv_position_first(cv: Seq<(Seq<char>, Seq<char>)>, id: Seq<char>, i: int)
    requires
        0 <= i < cv.len(),
        cv[i].0 == id,
        conv_position(cv.take(i), id) is None,
    ensures
        conv_position(cv, id) == Some(i),
    decreases cv.len(),
{
    if i < cv.len() - 1 {
        assert(cv.drop_last().take(i) =~= cv.take(i));
        lemma_conv_position_first(cv.drop_last(), id, i);
    } else {
        assert(cv.drop_last() =~= cv.take(i));
    }
}

/// See [`selection_of`].
pub fn sidebar_selection(
    chats: &Vec<SidebarConversation>,
    projects: &Vec<SidebarProject>,
    active: Option<&str>,
) -> (r: Option<(i32, i32, i32)>)
    requires
        chats@.len() <= i32::MAX,
        projects@.len() <= i32::MAX,
        forall|p: int| 0 <= p < projects@.len() ==> (#[trigger] projects@[p]).conversations@.len() <= i32::MAX,
    ensures
        match r {
            Some((a, b, c)) => selection_of(
                convs_view(chats@),
                projects_view(projects@),
                match active {
                    Some(s) => Some(s@),
                    None => None,
                },
            ) == Some((a as int, b as int, c as int)),
            None => selection_of(
                convs_view(chats@),
                projects_view(projects@),
                match active {
                    Some(s) => Some(s@),
                    None => None,
                },
            ) is None,
        },
{
    let id = match active {
        None => {
            return None;
        },
        Some(id) => id,
    };
    match position_in(chats, id) {
        Some(i) => {
            return Some((i as i32, -1, -1));
        },
        None => {},
    }
    let ghost pv = projects_view(projects@);
    let mut k: usize = projects.len();
    assert(pv.take(projects.len() as int) =~= pv);
    while k > 0
        invariant
            k <= projects.len(),
            pv == projects_view(projects@),
            projects@.len() <= i32::MAX,
            forall|p: int| 0 <= p < projects@.len() ==> (#[trigger] projects@[p]).conversations@.len() <= i32::MAX,
            project_position(pv, id@) == project_position(pv.take(k as int), id@),
            conv_position(convs_view(chats@), id@) is None,
            active == Some(id),
        decreases k,
    {
        proof {
            assert(pv.take(k as int).drop_last() =~= pv.take(k - 1));
            assert(pv.take(k as int).last() == project_view(projects@[k - 1]));
        }
        match position_in(&projects[k - 1].conversations, id) {
            Some(c) => {
                proof {
                    assert(projects@[k - 1].conversations@.len() <= i32::MAX);
                }
                return Some((-1, (k - 1) as i32, c as i32));
            },
            None => {},
        }
        k -= 1;
    }
    None
}

} // verus!

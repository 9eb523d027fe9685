//! Assembling a streamed assistant turn.
//!
//! Text deltas accumulate into response paragraphs; thinking deltas and tool
//! calls gather into collapsible activity groups, one per uninterrupted run
//! of work. A group closes, with a one-line summary of what it did, when
//! response text arrives between two runs of work or when the turn ends.

use crate::main_content::markdown::{
    copy_items, lemma_resp_views_index, lemma_resp_views_len, lemma_resp_views_push,
    lemma_resp_views_update, resp_default, resp_view, resp_views, ParsedMarkdownItem, RespView,
};
use crate::main_content::keyed::keyed_view;
use crate::text::{
    all_ws, ascii_upper, chars_of, contains, contains_chars, int_text, i64_text, is_blank, owned,
    push_all, push_str_chars, str_eq, string_of, string_push_str, to_ascii_upper_char,
};
use std::time::{Duration, Instant};
use vstd::multiset::Multiset;
use vstd::prelude::*;

verus! {

// ---------------------------------------------------------------------------
// Activity summary
// ---------------------------------------------------------------------------

/// The category of one group entry: 0 listing, 1 reading, 2 editing,
/// 3 searching, 4 thinking, 5 another tool, 6 none.
pub open spec fn activity_kind(it: RespView) -> nat {
    let n = it.tool_name;
    if it.kind == "thinking"@ {
        4
    } else if it.kind == "tool"@ {
        if n == "ls"@ || n == "list_dir"@ {
            0
        } else if n == "read"@ {
            1
        } else if n == "write"@ || n == "edit"@ || n == "append"@ {
            2
        } else if contains(n, "search"@) || contains(n, "web"@) {
            3
        } else {
            5
        }
    } else {
        6
    }
}

/// Counts of a group's activities: (listed, read, edited, searched, thought, other tools).
pub open spec fn activity_counts(items: Seq<RespView>) -> (nat, nat, nat, nat, nat, nat)
    decreases items.len(),
{
    if items.len() == 0 {
        (0, 0, 0, 0, 0, 0)
    } else {
        let (l, r, e, s, t, o) = activity_counts(items.drop_last());
        let k = activity_kind(items.last());
        (
            if k == 0 { l + 1 } else { l },
            if k == 1 { r + 1 } else { r },
            if k == 2 { e + 1 } else { e },
            if k == 3 { s + 1 } else { s },
            if k == 4 { t + 1 } else { t },
            if k == 5 { o + 1 } else { o },
        )
    }
}

/// "verb a noun" for one, "verb N nouns" for more, nothing otherwise.
pub open spec fn count_phrase(verb: Seq<char>, count: i32, singular: Seq<char>, plural: Seq<char>) -> Seq<
    Seq<char>,
> {
    if count == 1 {
        seq![verb + " a "@ + singular]
    } else if count > 1 {
        seq![verb + " "@ + int_text(count as int) + " "@ + plural]
    } else {
        seq![]
    }
}

/// "verb once" for one, "verb N times" for more, nothing otherwise.
pub open spec fn times_phrase(verb: Seq<char>, count: i32) -> Seq<Seq<char>> {
    if count == 1 {
        seq![verb + " once"@]
    } else if count > 1 {
        seq![verb + " "@ + int_text(count as int) + " times"@]
    } else {
        seq![]
    }
}

/// The phrases of a summary, in reading order.
pub open spec fn summary_parts(items: Seq<RespView>) -> Seq<Seq<char>> {
    let (l, r, e, s, t, o) = activity_counts(items);
    count_phrase("read"@, r as i32, "file"@, "files"@) + count_phrase(
        "edited"@,
        e as i32,
        "file"@,
        "files"@,
    ) + count_phrase("listed"@, l as i32, "directory"@, "directories"@) + times_phrase(
        "searched"@,
        s as i32,
    ) + times_phrase("thought"@, t as i32) + count_phrase("ran"@, o as i32, "tool"@, "tools"@)
}

/// `parts.join(sep)`.
pub open spec fn join(parts: Seq<Seq<char>>, sep: Seq<char>) -> Seq<char>
    decreases parts.len(),
{
    if parts.len() == 0 {
        seq![]
    } else if parts.len() == 1 {
        parts[0]
    } else {
        join(parts.drop_last(), sep) + sep + parts.last()
    }
}

/// The text with its first character in ASCII upper case.
pub open spec fn capitalize(s: Seq<char>) -> Seq<char> {
    if s.len() == 0 {
        s
    } else {
        seq![ascii_upper(s[0])] + s.drop_first()
    }
}

/// The one-line summary of a group: its phrases joined by commas and
/// capitalised, or "Worked" when there is nothing to count.
pub open spec fn work_summary(items: Seq<RespView>) -> Seq<char> {
    let joined = join(summary_parts(items), ", "@);
    if joined.len() == 0 {
        "Worked"@
    } else {
        capitalize(joined)
    }
}

/// The category of each kind of entry: a thinking block counts as
/// thinking; a tool card named `ls` or `list_dir` as a listing, `read` as a
/// read, `write`, `edit` or `append` as an edit; other entries count for
/// nothing.
pub proof fn lemma_activity_categories(it: RespView)
    ensures
        it.kind == "thinking"@ ==> activity_kind(it) == 4,
        it.kind == "tool"@ && (it.tool_name == "ls"@ || it.tool_name == "list_dir"@) ==> activity_kind(it)
            == 0,
        it.kind == "tool"@ && it.tool_name == "read"@ ==> activity_kind(it) == 1,
        it.kind == "tool"@ && (it.tool_name == "write"@ || it.tool_name == "edit"@ || it.tool_name
            == "append"@) ==> activity_kind(it) == 2,
        it.kind != "thinking"@ && it.kind != "tool"@ ==> activity_kind(it) == 6,
{
    reveal_strlit("thinking");
    reveal_strlit("tool");
    reveal_strlit("ls");
    reveal_strlit("list_dir");
    reveal_strlit("read");
    reveal_strlit("write");
    reveal_strlit("edit");
    reveal_strlit("append");
    assert("thinking"@.len() != "tool"@.len());
    assert("read"@[0] != "ls"@[0] && "read"@.len() != "list_dir"@.len());
    assert("write"@.len() != "ls"@.len() && "write"@.len() != "list_dir"@.len() && "write"@.len()
        != "read"@.len());
    assert("edit"@.len() != "ls"@.len() && "edit"@.len() != "list_dir"@.len() && "edit"@[0]
        != "read"@[0]);
    assert("append"@.len() != "ls"@.len() && "append"@.len() != "list_dir"@.len() && "append"@.len()
        != "read"@.len());
}

/// A group holding one tool card that writes, edits or appends to a file
/// reads "Edited a file".
pub proof fn lemma_one_edit_summary(it: RespView)
    requires
        it.kind == "tool"@,
        it.tool_name == "write"@ || it.tool_name == "edit"@ || it.tool_name == "append"@,
    ensures
        work_summary(seq![it]) == "Edited a file"@,
{
    lemma_activity_categories(it);
    let items = seq![it];
    assert(items.drop_last() =~= Seq::<RespView>::empty());
    assert(items.last() == it);
    assert(activity_kind(items.last()) == 2);
    assert(activity_counts(Seq::<RespView>::empty()) == (0nat, 0nat, 0nat, 0nat, 0nat, 0nat));
    assert(activity_counts(items) == (0nat, 0nat, 1nat, 0nat, 0nat, 0nat));
    let phrase = "edited"@ + " a "@ + "file"@;
    assert(summary_parts(items) =~= seq![phrase]);
    assert(join(seq![phrase], ", "@) == phrase);
    reveal_strlit("edited");
    reveal_strlit(" a ");
    reveal_strlit("file");
    reveal_strlit("Edited a file");
    assert(phrase.len() > 0);
    assert(ascii_upper('e') == 'E');
    assert(capitalize(phrase) =~= "Edited a file"@);
}

fn push_count_phrase(parts: &mut Vec<String>, verb: &str, count: i32, singular: &str, plural: &str)
    ensures
        final(parts)@.map_values(|p: String| p@) == old(parts)@.map_values(|p: String| p@) + count_phrase(
            verb@,
            count,
            singular@,
            plural@,
        ),
{
    let ghost p0 = parts@.map_values(|p: String| p@);
    if count == 1 {
        let mut v: Vec<char> = chars_of(verb);
        push_str_chars(&mut v, " a ");
        push_str_chars(&mut v, singular);
        let s = string_of(v.as_slice());
        parts.push(s);
        assert(parts@.map_values(|p: String| p@) =~= p0 + seq![verb@ + " a "@ + singular@]);
    } else if count > 1 {
        let mut v: Vec<char> = chars_of(verb);
        push_str_chars(&mut v, " ");
        let n = i64_text(count as i64);
        push_all(&mut v, &n);
        push_str_chars(&mut v, " ");
        push_str_chars(&mut v, plural);
        let s = string_of(v.as_slice());
        parts.push(s);
        assert(parts@.map_values(|p: String| p@) =~= p0 + seq![
            verb@ + " "@ + int_text(count as int) + " "@ + plural@,
        ]);
    } else {
        assert(parts@.map_values(|p: String| p@) =~= p0 + seq![]);
    }
}

fn push_times_phrase(parts: &mut Vec<String>, verb: &str, count: i32)
    ensures
        final(parts)@.map_values(|p: String| p@) == old(parts)@.map_values(|p: String| p@) + times_phrase(
            verb@,
            count,
        ),
{
    let ghost p0 = parts@.map_values(|p: String| p@);
    if count == 1 {
        let mut v: Vec<char> = chars_of(verb);
        push_str_chars(&mut v, " once");
        let s = string_of(v.as_slice());
        parts.push(s);
        assert(parts@.map_values(|p: String| p@) =~= p0 + seq![verb@ + " once"@]);
    } else if count > 1 {
        let mut v: Vec<char> = chars_of(verb);
        push_str_chars(&mut v, " ");
        let n = i64_text(count as i64);
        push_all(&mut v, &n);
        push_str_chars(&mut v, " times");
        let s = string_of(v.as_slice());
        parts.push(s);
        assert(parts@.map_values(|p: String| p@) =~= p0 + seq![
            verb@ + " "@ + int_text(count as int) + " times"@,
        ]);
    } else {
        assert(parts@.map_values(|p: String| p@) =~= p0 + seq![]);
    }
}

fn capitalize_first_ascii(text: Vec<char>) -> (r: Vec<char>)
    ensures
        r@ == capitalize(text@),
{
    if text.len() == 0 {
        return text;
    }
    let mut r: Vec<char> = Vec::new();
    r.push(to_ascii_upper_char(text[0]));
    let mut i: usize = 1;
    while i < text.len()
        invariant
            1 <= i <= text.len(),
            r@ == seq![ascii_upper(text@[0])] + text@.subrange(1, i as int),
        decreases text.len() - i,
    {
        r.push(text[i]);
        i += 1;
        assert(r@ =~= seq![ascii_upper(text@[0])] + text@.subrange(1, i as int));
    }
    assert(text@.subrange(1, text.len() as int) =~= text@.drop_first());
    r
}

fn activity_kind_of(it: &ParsedMarkdownItem) -> (r: u8)
    ensures
        r as nat == activity_kind(resp_view(*it)),
{
    if str_eq(it.kind.as_str(), "thinking") {
        4
    } else if str_eq(it.kind.as_str(), "tool") {
        let n = it.tool_name.as_str();
        if str_eq(n, "ls") || str_eq(n, "list_dir") {
            0
        } else if str_eq(n, "read") {
            1
        } else if str_eq(n, "write") || str_eq(n, "edit") || str_eq(n, "append") {
            2
        } else {
            let nv = chars_of(n);
            let search = chars_of("search");
            let web = chars_of("web");
            if contains_chars(&nv, &search) || contains_chars(&nv, &web) {
                3
            } else {
                5
            }
        }
    } else {
        6
    }
}

/// `[String]::join`: the parts with `sep` between each two.
pub(crate) fn join_parts(parts: &Vec<String>, sep: &str) -> (r: Vec<char>)
    ensures
        r@ == join(parts@.map_values(|p: String| p@), sep@),
{
    let ghost pv = parts@.map_values(|p: String| p@);
    let mut joined: Vec<char> = Vec::new();
    let mut k: usize = 0;
    while k < parts.len()
        invariant
            k <= parts.len(),
            pv == parts@.map_values(|p: String| p@),
            joined@ == join(pv.take(k as int), sep@),
        decreases parts.len() - k,
    {
        proof {
            assert(pv.take(k + 1).drop_last() =~= pv.take(k as int));
            assert(pv.take(k + 1).last() == parts@[k as int]@);
        }
        if k > 0 {
            push_str_chars(&mut joined, sep);
        } else {
            assert(pv.take(1) =~= seq![pv[0]]);
            assert(joined@ =~= seq![]);
        }
        push_str_chars(&mut joined, parts[k].as_str());
        k += 1;
    }
    assert(pv.take(parts.len() as int) =~= pv);
    joined
}

/// Builds the human-readable collapsed activity summary for one work group.
pub fn build_work_summary(items: &[ParsedMarkdownItem]) -> (r: String)
    ensures
        r@ == work_summary(resp_views(items@)),
{
    let ghost iv = resp_views(items@);
    proof {
        lemma_resp_views_len(items@);
    }
    let mut listed: usize = 0;
    let mut read: usize = 0;
    let mut edited: usize = 0;
    let mut searched: usize = 0;
    let mut thought: usize = 0;
    let mut other: usize = 0;
    let mut i: usize = 0;
    while i < items.len()
        invariant
            i <= items.len(),
            iv == resp_views(items@),
            iv.len() == items@.len(),
            (listed as nat, read as nat, edited as nat, searched as nat, thought as nat, other as nat)
                == activity_counts(iv.take(i as int)),
            listed + read + edited + searched + thought + other <= i,
        decreases items.len() - i,
    {
        proof {
            assert(iv.take(i + 1).drop_last() =~= iv.take(i as int));
            lemma_resp_views_index(items@, i as int);
            assert(iv.take(i + 1).last() == resp_view(items@[i as int]));
        }
        let k = activity_kind_of(&items[i]);
        if k == 0 {
            listed += 1;
        } else if k == 1 {
            read += 1;
        } else if k == 2 {
            edited += 1;
        } else if k == 3 {
            searched += 1;
        } else if k == 4 {
            thought += 1;
        } else if k == 5 {
            other += 1;
        }
        i += 1;
    }
    assert(iv.take(items.len() as int) =~= iv);
    let mut parts: Vec<String> = Vec::new();
    assert(parts@.map_values(|p: String| p@) =~= seq![]);
    push_count_phrase(&mut parts, "read", read as i32, "file", "files");
    push_count_phrase(&mut parts, "edited", edited as i32, "file", "files");
    push_count_phrase(&mut parts, "listed", listed as i32, "directory", "directories");
    push_times_phrase(&mut parts, "searched", searched as i32);
    push_times_phrase(&mut parts, "thought", thought as i32);
    push_count_phrase(&mut parts, "ran", other as i32, "tool", "tools");
    let ghost pv = parts@.map_values(|p: String| p@);
    assert(pv =~= summary_parts(iv));
    let joined = join_parts(&parts, ", ");
    if joined.len() == 0 {
        owned("Worked")
    } else {
        let c = capitalize_first_ascii(joined);
        string_of(c.as_slice())
    }
}

/// The entries of a multiset of group entries that are of category `k`.
pub open spec fn of_kind(k: nat) -> spec_fn(RespView) -> bool {
    |x: RespView| activity_kind(x) == k
}

proof fn lemma_filter_insert(m: Multiset<RespView>, a: RespView, k: nat)
    ensures
        m.insert(a).filter(of_kind(k)).len() == m.filter(of_kind(k)).len() + (if activity_kind(a)
            == k {
            1nat
        } else {
            0nat
        }),
{
    broadcast use vstd::multiset::group_multiset_axioms;

    if activity_kind(a) == k {
        assert(m.insert(a).filter(of_kind(k)) =~= m.filter(of_kind(k)).insert(a));
    } else {
        assert(m.insert(a).filter(of_kind(k)) =~= m.filter(of_kind(k)));
    }
}

proof fn lemma_counts_by_multiset(s: Seq<RespView>)
    ensures
        activity_counts(s) == (
            s.to_multiset().filter(of_kind(0)).len(),
            s.to_multiset().filter(of_kind(1)).len(),
            s.to_multiset().filter(of_kind(2)).len(),
            s.to_multiset().filter(of_kind(3)).len(),
            s.to_multiset().filter(of_kind(4)).len(),
            s.to_multiset().filter(of_kind(5)).len(),
        ),
    decreases s.len(),
{
    broadcast use vstd::multiset::group_multiset_axioms;
    broadcast use vstd::seq_lib::group_to_multiset_ensures;

    if s.len() == 0 {
        assert(s.to_multiset() =~= Multiset::empty());
        assert forall|k: nat| #[trigger] Multiset::<RespView>::empty().filter(of_kind(k)).len()
            == 0 by {
            assert(Multiset::<RespView>::empty().filter(of_kind(k)) =~= Multiset::empty());
        }
        assert(Multiset::<RespView>::empty().filter(of_kind(0)).len() == 0);
        assert(Multiset::<RespView>::empty().filter(of_kind(1)).len() == 0);
        assert(Multiset::<RespView>::empty().filter(of_kind(2)).len() == 0);
        assert(Multiset::<RespView>::empty().filter(of_kind(3)).len() == 0);
        assert(Multiset::<RespView>::empty().filter(of_kind(4)).len() == 0);
        assert(Multiset::<RespView>::empty().filter(of_kind(5)).len() == 0);
    } else {
        let t = s.drop_last();
        let a = s.last();
        lemma_counts_by_multiset(t);
        assert(s =~= t.push(a));
        assert(s.to_multiset() =~= t.to_multiset().insert(a));
        lemma_filter_insert(t.to_multiset(), a, 0);
        lemma_filter_insert(t.to_multiset(), a, 1);
        lemma_filter_insert(t.to_multiset(), a, 2);
        lemma_filter_insert(t.to_multiset(), a, 3);
        lemma_filter_insert(t.to_multiset(), a, 4);
        lemma_filter_insert(t.to_multiset(), a, 5);
    }
}

/// The summary of a group does not depend on the order of its entries: two
/// groups holding the same entries, each as many times, read the same.
pub proof fn lemma_summary_ignores_order(items: Seq<RespView>, other: Seq<RespView>)
    requires
        items.to_multiset() == other.to_multiset(),
    ensures
        work_summary(items) == work_summary(other),
{
    lemma_counts_by_multiset(items);
    lemma_counts_by_multiset(other);
}

/// The items of a multiset whose entries are of category `k`.
pub open spec fn item_of_kind(k: nat) -> spec_fn(ParsedMarkdownItem) -> bool {
    |x: ParsedMarkdownItem| activity_kind(resp_view(x)) == k
}

proof fn lemma_item_filter_insert(m: Multiset<ParsedMarkdownItem>, a: ParsedMarkdownItem, k: nat)
    ensures
        m.insert(a).filter(item_of_kind(k)).len() == m.filter(item_of_kind(k)).len() + (if activity_kind(
            resp_view(a),
        ) == k {
            1nat
        } else {
            0nat
        }),
{
    broadcast use vstd::multiset::group_multiset_axioms;

    if activity_kind(resp_view(a)) == k {
        assert(m.insert(a).filter(item_of_kind(k)) =~= m.filter(item_of_kind(k)).insert(a));
    } else {
        assert(m.insert(a).filter(item_of_kind(k)) =~= m.filter(item_of_kind(k)));
    }
}

proof fn lemma_item_counts_by_multiset(s: Seq<ParsedMarkdownItem>)
    ensures
        activity_counts(resp_views(s)) == (
            s.to_multiset().filter(item_of_kind(0)).len(),
            s.to_multiset().filter(item_of_kind(1)).len(),
            s.to_multiset().filter(item_of_kind(2)).len(),
            s.to_multiset().filter(item_of_kind(3)).len(),
            s.to_multiset().filter(item_of_kind(4)).len(),
            s.to_multiset().filter(item_of_kind(5)).len(),
        ),
    decreases s.len(),
{
    broadcast use vstd::multiset::group_multiset_axioms;
    broadcast use vstd::seq_lib::group_to_multiset_ensures;

    if s.len() == 0 {
        assert(s.to_multiset() =~= Multiset::empty());
        assert forall|k: nat| #[trigger] Multiset::<ParsedMarkdownItem>::empty().filter(item_of_kind(k)).len()
            == 0 by {
            assert(Multiset::<ParsedMarkdownItem>::empty().filter(item_of_kind(k)) =~= Multiset::empty());
        }
        assert(Multiset::<ParsedMarkdownItem>::empty().filter(item_of_kind(0)).len() == 0);
        assert(Multiset::<ParsedMarkdownItem>::empty().filter(item_of_kind(1)).len() == 0);
        assert(Multiset::<ParsedMarkdownItem>::empty().filter(item_of_kind(2)).len() == 0);
        assert(Multiset::<ParsedMarkdownItem>::empty().filter(item_of_kind(3)).len() == 0);
        assert(Multiset::<ParsedMarkdownItem>::empty().filter(item_of_kind(4)).len() == 0);
        assert(Multiset::<ParsedMarkdownItem>::empty().filter(item_of_kind(5)).len() == 0);
    } else {
        let t = s.drop_last();
        let a = s.last();
        lemma_item_counts_by_multiset(t);
        assert(s =~= t.push(a));
        assert(resp_views(s).drop_last() =~= resp_views(t));
        assert(s.to_multiset() =~= t.to_multiset().insert(a));
        lemma_item_filter_insert(t.to_multiset(), a, 0);
        lemma_item_filter_insert(t.to_multiset(), a, 1);
        lemma_item_filter_insert(t.to_multiset(), a, 2);
        lemma_item_filter_insert(t.to_multiset(), a, 3);
        lemma_item_filter_insert(t.to_multiset(), a, 4);
        lemma_item_filter_insert(t.to_multiset(), a, 5);
    }
}

/// The summary of a group's items does not depend on their order: two
/// groups holding the same items, each as many times, read the same, so
/// [`build_work_summary`] gives the same text for any permutation.
pub proof fn lemma_summary_ignores_item_order(items: Seq<ParsedMarkdownItem>, other: Seq<ParsedMarkdownItem>)
    requires
        items.to_multiset() == other.to_multiset(),
    ensures
        work_summary(resp_views(items)) == work_summary(resp_views(other)),
{
    lemma_item_counts_by_multiset(items);
    lemma_item_counts_by_multiset(other);
}

/// Whether an entry is a thinking block or a tool card.
pub open spec fn is_activity(it: RespView) -> bool {
    it.kind == "thinking"@ || it.kind == "tool"@
}

proof fn lemma_counts_zero(s: Seq<RespView>)
    ensures
        activity_counts(s) == (0nat, 0nat, 0nat, 0nat, 0nat, 0nat) <==> forall|i: int|
            0 <= i < s.len() ==> !is_activity(#[trigger] s[i]),
        ({
            let (l, r, e, se, t, o) = activity_counts(s);
            l + r + e + se + t + o <= s.len()
        }),
    decreases s.len(),
{
    if s.len() > 0 {
        let t = s.drop_last();
        lemma_counts_zero(t);
        assert forall|i: int| 0 <= i < t.len() implies t[i] == s[i] by {}
        if forall|i: int| 0 <= i < s.len() ==> !is_activity(#[trigger] s[i]) {
            assert(!is_activity(s[s.len() - 1]));
        }
        if activity_counts(s) == (0nat, 0nat, 0nat, 0nat, 0nat, 0nat) {
            assert forall|i: int| 0 <= i < s.len() implies !is_activity(#[trigger] s[i]) by {
                if i < t.len() {
                    assert(t[i] == s[i]);
                }
            }
        }
    }
}

proof fn lemma_join_prefix(parts: Seq<Seq<char>>, sep: Seq<char>)
    requires
        parts.len() > 0,
    ensures
        parts[0].len() <= join(parts, sep).len(),
        forall|i: int| 0 <= i < parts[0].len() ==> join(parts, sep)[i] == #[trigger] parts[0][i],
    decreases parts.len(),
{
    if parts.len() > 1 {
        lemma_join_prefix(parts.drop_last(), sep);
        assert(parts.drop_last()[0] == parts[0]);
    }
}

/// A group reads "Worked" exactly when it holds no thinking block and no tool
/// card (for groups of fewer than 2^31 entries, which the counters hold).
pub proof fn lemma_worked_iff_no_activity(items: Seq<RespView>)
    requires
        items.len() <= i32::MAX,
    ensures
        work_summary(items) == "Worked"@ <==> forall|i: int|
            0 <= i < items.len() ==> !is_activity(#[trigger] items[i]),
{
    lemma_counts_zero(items);
    let (l, r, e, se, t, o) = activity_counts(items);
    let parts = summary_parts(items);
    reveal_strlit("Worked");
    if l + r + e + se + t + o == 0 {
        assert(parts =~= seq![]);
    } else {
        reveal_strlit("read");
        reveal_strlit("edited");
        reveal_strlit("listed");
        reveal_strlit("searched");
        reveal_strlit("thought");
        reveal_strlit("ran");
        assert(parts.len() > 0);
        assert(parts[0].len() >= 2 && parts[0][1] != 'o') by {
            let a = count_phrase("read"@, r as i32, "file"@, "files"@);
            let b = count_phrase("edited"@, e as i32, "file"@, "files"@);
            let c = count_phrase("listed"@, l as i32, "directory"@, "directories"@);
            let d = times_phrase("searched"@, se as i32);
            let f = times_phrase("thought"@, t as i32);
            let g = count_phrase("ran"@, o as i32, "tool"@, "tools"@);
            assert(parts == a + b + c + d + f + g);
            if a.len() > 0 {
                assert(parts[0] == a[0]);
            } else if b.len() > 0 {
                assert(parts[0] == b[0]);
            } else if c.len() > 0 {
                assert(parts[0] == c[0]);
            } else if d.len() > 0 {
                assert(parts[0] == d[0]);
            } else if f.len() > 0 {
                assert(parts[0] == f[0]);
            } else {
                assert(parts[0] == g[0]);
            }
        }
        lemma_join_prefix(parts, ", "@);
        let joined = join(parts, ", "@);
        assert(joined[1] == parts[0][1]);
        assert(capitalize(joined)[1] == joined[1]);
        assert(work_summary(items)[1] != "Worked"@[1]);
    }
}

/// [`build_work_summary`] reads "Worked" exactly when no item is a thinking
/// block or a tool card (for groups of fewer than 2^31 items).
pub proof fn lemma_worked_iff_no_activity_items(items: Seq<ParsedMarkdownItem>)
    requires
        items.len() <= i32::MAX,
    ensures
        work_summary(resp_views(items)) == "Worked"@ <==> forall|i: int|
            0 <= i < items.len() ==> (#[trigger] items[i]).kind@ != "thinking"@ && items[i].kind@
                != "tool"@,
{
    let v = resp_views(items);
    lemma_resp_views_len(items);
    lemma_worked_iff_no_activity(v);
    assert forall|i: int| 0 <= i < items.len() implies v[i].kind == (#[trigger] items[i]).kind@ by {
        lemma_resp_views_index(items, i);
    }
    if forall|i: int| 0 <= i < items.len() ==> (#[trigger] items[i]).kind@ != "thinking"@ && items[i].kind@
        != "tool"@ {
        assert forall|i: int| 0 <= i < v.len() implies !is_activity(#[trigger] v[i]) by {
            assert(v[i].kind == items[i].kind@);
        }
    }
    if forall|i: int| 0 <= i < v.len() ==> !is_activity(#[trigger] v[i]) {
        assert forall|i: int| 0 <= i < items.len() implies (#[trigger] items[i]).kind@ != "thinking"@
            && items[i].kind@ != "tool"@ by {
            assert(!is_activity(v[i]));
        }
    }
}

// ---------------------------------------------------------------------------
// The monotonic clock
// ---------------------------------------------------------------------------

/// `std::time::Instant`, carried opaquely as the start of an activity group.
#[verifier::external_type_specification]
#[verifier::external_body]
pub struct ExInstant(Instant);

/// `Instant::now`: the current reading of the monotonic clock; nothing is
/// claimed of it.
#[verifier::external_body]
fn instant_now() -> Instant {
    Instant::now()
}

/// `Instant::elapsed`: the time since `start`; nothing is claimed of it.
#[verifier::external_body]
fn elapsed_since(start: &Instant) -> Duration {
    start.elapsed()
}

/// `Duration::as_secs`: the whole seconds of `d`; nothing is claimed of them.
#[verifier::external_body]
fn whole_secs(d: &Duration) -> u64 {
    d.as_secs()
}

// ---------------------------------------------------------------------------
// The turn being streamed
// ---------------------------------------------------------------------------

/// Tracks block accumulation for the active assistant message turn.
#[derive(Debug)]
pub struct ResponseState {
    /// Ordered list of blocks generated within this turn.
    pub current_blocks: Vec<ParsedMarkdownItem>,
    /// Accumulates text deltas for the currently active text block.
    pub current_text_accumulator: String,
    /// Whether the model was outputting reasoning in the last delta.
    pub in_thinking: bool,
    /// Tool call ids with the (group block, item) they are shown at.
    pub active_tool_calls: Vec<(String, (usize, usize))>,
    /// Permission ids with the block they are shown at.
    pub active_permissions: Vec<(String, usize)>,
    /// Whether the turn has an open activity group.
    pub work_group_open: bool,
    /// When the open activity group started.
    pub work_group_start: Option<Instant>,
    /// Whether activity groups collapse when they close.
    pub auto_collapse: bool,
}

/// The value of a [`ResponseState`]; `started` says whether a group start time is held.
pub struct StateView {
    pub blocks: Seq<RespView>,
    pub acc: Seq<char>,
    pub in_thinking: bool,
    pub tools: Seq<(Seq<char>, (usize, usize))>,
    pub perms: Seq<(Seq<char>, usize)>,
    pub open: bool,
    pub started: bool,
    pub auto_collapse: bool,
}

impl View for ResponseState {
    type V = StateView;

    open spec fn view(&self) -> StateView {
        StateView {
            blocks: resp_views(self.current_blocks@),
            acc: self.current_text_accumulator@,
            in_thinking: self.in_thinking,
            tools: keyed_view(self.active_tool_calls@),
            perms: keyed_view(self.active_permissions@),
            open: self.work_group_open,
            started: self.work_group_start is Some,
            auto_collapse: self.auto_collapse,
        }
    }
}

pub open spec fn fresh_state(auto_collapse: bool) -> StateView {
    StateView {
        blocks: seq![],
        acc: seq![],
        in_thinking: false,
        tools: seq![],
        perms: seq![],
        open: false,
        started: false,
        auto_collapse,
    }
}

/// Seconds an activity group ran: the clock reading, capped at `i32::MAX`,
/// or zero when no start time was held.
pub open spec fn secs_of(started: bool, elapsed: u64) -> i32 {
    if !started {
        0
    } else if elapsed > i32::MAX {
        i32::MAX
    } else {
        elapsed as i32
    }
}

/// The accumulated response text becomes a text block unless it is blank.
pub open spec fn flush_spec(s: StateView) -> StateView {
    StateView {
        blocks: if all_ws(s.acc) {
            s.blocks
        } else {
            s.blocks.push(resp_default("text"@, s.acc))
        },
        acc: seq![],
        ..s
    }
}

/// Index of the last activity group (the last active one when `active_only`).
pub open spec fn last_group(b: Seq<RespView>, active_only: bool) -> Option<int>
    decreases b.len(),
{
    if b.len() == 0 {
        None
    } else if b.last().kind == "work_group"@ && (!active_only || b.last().work_group_active) {
        Some(b.len() - 1)
    } else {
        last_group(b.drop_last(), active_only)
    }
}

pub proof fn lemma_last_group(b: Seq<RespView>, active_only: bool)
    ensures
        match last_group(b, active_only) {
            Some(i) => 0 <= i < b.len() && b[i].kind == "work_group"@ && (!active_only
                || b[i].work_group_active),
            None => true,
        },
    decreases b.len(),
{
    if b.len() > 0 {
        lemma_last_group(b.drop_last(), active_only);
    }
}

/// Thinking entries stop being shown as in progress.
pub open spec fn settle(items: Seq<RespView>) -> Seq<RespView> {
    items.map_values(
        |it: RespView|
            if it.kind == "thinking"@ {
                RespView { is_thinking_active: false, ..it }
            } else {
                it
            },
    )
}

pub open spec fn closed_group(g: RespView, secs: i32, auto_collapse: bool) -> RespView {
    RespView {
        work_group_active: false,
        work_group_elapsed_secs: secs,
        work_group_summary: work_summary(g.work_group_items),
        work_group_expanded: !auto_collapse,
        work_group_items: settle(g.work_group_items),
        ..g
    }
}

/// Closing the open group: the last active group (else the last group)
/// gets its run time and summary and stops being active.
pub open spec fn close_spec(s: StateView, elapsed: u64) -> StateView {
    let secs = secs_of(s.started, elapsed);
    let target = match last_group(s.blocks, true) {
        Some(i) => Some(i),
        None => last_group(s.blocks, false),
    };
    StateView {
        blocks: match target {
            Some(i) => s.blocks.update(i, closed_group(s.blocks[i], secs, s.auto_collapse)),
            None => s.blocks,
        },
        open: false,
        started: false,
        ..s
    }
}

pub open spec fn new_group(auto_collapse: bool) -> RespView {
    RespView {
        work_group_active: true,
        work_group_expanded: !auto_collapse,
        ..resp_default("work_group"@, seq![])
    }
}

/// Making sure an activity group is open: response text that arrived since
/// the last activity closes the group and becomes a block (whitespace alone
/// is dropped); then the open group is reused, or a new one is appended.
/// Returns the group's index.
pub open spec fn ensure_spec(s: StateView, elapsed: u64) -> (StateView, int) {
    let s1 = if !all_ws(s.acc) && s.open {
        flush_spec(close_spec(s, elapsed))
    } else {
        flush_spec(s)
    };
    match last_group(s1.blocks, false) {
        Some(i) if s1.open => (
            StateView {
                blocks: s1.blocks.update(i, RespView { work_group_active: true, ..s1.blocks[i] }),
                ..s1
            },
            i,
        ),
        _ => (
            StateView {
                blocks: s1.blocks.push(new_group(s1.auto_collapse)),
                open: true,
                started: true,
                ..s1
            },
            s1.blocks.len() as int,
        ),
    }
}

/// Whether making sure a group is open reuses the open group: no response
/// text is pending, a group is open, and the turn has one.
pub open spec fn reuses_group(s: StateView) -> bool {
    all_ws(s.acc) && s.open && last_group(s.blocks, false) is Some
}

pub open spec fn thinking_item(text: Seq<char>) -> RespView {
    RespView { thinking_text: text, is_thinking_active: true, ..resp_default("thinking"@, seq![]) }
}

/// A reasoning delta: it extends the last thinking entry of the group while
/// the model keeps thinking, and starts a new entry otherwise.
pub open spec fn thinking_spec(s: StateView, text: Seq<char>, elapsed: u64) -> StateView {
    let (s1, gi) = ensure_spec(s, elapsed);
    let g = s1.blocks[gi];
    let items = g.work_group_items;
    if s1.in_thinking && items.len() > 0 && items.last().kind == "thinking"@ {
        let last = items.last();
        let items2 = items.update(
            items.len() - 1,
            RespView { thinking_text: last.thinking_text + text, ..last },
        );
        StateView { blocks: s1.blocks.update(gi, RespView { work_group_items: items2, ..g }), ..s1 }
    } else {
        StateView {
            blocks: s1.blocks.update(
                gi,
                RespView { work_group_items: items.push(thinking_item(text)), ..g },
            ),
            in_thinking: true,
            ..s1
        }
    }
}

/// A response text delta.
pub open spec fn text_spec(s: StateView, text: Seq<char>) -> StateView {
    StateView { in_thinking: false, acc: s.acc + text, ..s }
}

/// An active group mid-stream: its run time so far and its summary.
pub open spec fn tick(b: RespView, secs: i32) -> RespView {
    if b.kind == "work_group"@ && b.work_group_active {
        RespView {
            work_group_elapsed_secs: secs,
            work_group_summary: work_summary(b.work_group_items),
            ..b
        }
    } else {
        b
    }
}

/// The blocks shown mid-stream: active groups carry their run time so far
/// and their summary, and pending response text is a block of its own.
pub open spec fn snapshot(s: StateView, elapsed: u64) -> Seq<RespView> {
    let secs = secs_of(s.started, elapsed);
    let blocks = s.blocks.map_values(|b: RespView| tick(b, secs));
    if all_ws(s.acc) {
        blocks
    } else {
        blocks.push(resp_default("text"@, s.acc))
    }
}

/// The end of the stream: the open group closes and pending text becomes a block.
pub open spec fn finalize_spec(s: StateView, elapsed: u64) -> StateView {
    let s0 = StateView { in_thinking: false, ..s };
    flush_spec(
        if s0.open {
            close_spec(s0, elapsed)
        } else {
            s0
        },
    )
}

/// `v[i]` replaced by `x`, by removing it and inserting `x`.
fn swap_block(v: &mut Vec<ParsedMarkdownItem>, i: usize, x: ParsedMarkdownItem) -> (r:
    ParsedMarkdownItem)
    requires
        i < old(v).len(),
    ensures
        r == old(v)@[i as int],
        final(v)@ == old(v)@.update(i as int, x),
        resp_views(final(v)@) == resp_views(old(v)@).update(i as int, resp_view(x)),
{
    let r = v.remove(i);
    v.insert(i, x);
    assert(v@ =~= old(v)@.update(i as int, x));
    proof {
        lemma_resp_views_update(old(v)@, i as int, x);
    }
    r
}

fn find_last_group(blocks: &Vec<ParsedMarkdownItem>, active_only: bool) -> (r: Option<usize>)
    ensures
        match r {
            Some(i) => last_group(resp_views(blocks@), active_only) == Some(i as int) && i
                < blocks.len(),
            None => last_group(resp_views(blocks@), active_only) is None,
        },
{
    let ghost bv = resp_views(blocks@);
    proof {
        lemma_resp_views_len(blocks@);
    }
    let mut i: usize = blocks.len();
    assert(bv.take(blocks.len() as int) =~= bv);
    while i > 0
        invariant
            i <= blocks.len(),
            bv == resp_views(blocks@),
            bv.len() == blocks.len(),
            last_group(bv, active_only) == last_group(bv.take(i as int), active_only),
        decreases i,
    {
        proof {
            assert(bv.take(i as int).drop_last() =~= bv.take(i - 1));
            lemma_resp_views_index(blocks@, i - 1);
            assert(bv.take(i as int).last() == resp_view(blocks@[i - 1]));
        }
        let b = &blocks[i - 1];
        if str_eq(b.kind.as_str(), "work_group") && (!active_only || b.work_group_active) {
            return Some(i - 1);
        }
        i -= 1;
    }
    None
}

fn settle_items(items: &mut Vec<ParsedMarkdownItem>)
    ensures
        resp_views(final(items)@) == settle(resp_views(old(items)@)),
{
    let ghost iv = resp_views(items@);
    proof {
        lemma_resp_views_len(items@);
    }
    let mut i: usize = 0;
    while i < items.len()
        invariant
            i <= items.len(),
            items@.len() == old(items)@.len(),
            iv == resp_views(old(items)@),
            iv.len() == items@.len(),
            forall|k: int| 0 <= k < i ==> #[trigger] resp_view(items@[k]) == settle(iv)[k],
            forall|k: int| i <= k < items@.len() ==> #[trigger] items@[k] == old(items)@[k],
        decreases items.len() - i,
    {
        proof {
            lemma_resp_views_index(old(items)@, i as int);
        }
        if str_eq(items[i].kind.as_str(), "thinking") {
            let placeholder = ParsedMarkdownItem::new_default(String::new(), String::new());
            let mut it = swap_block(items, i, placeholder);
            it.is_thinking_active = false;
            swap_block(items, i, it);
        }
        i += 1;
    }
    proof {
        lemma_resp_views_len(items@);
        assert forall|k: int| 0 <= k < items@.len() implies #[trigger] resp_views(items@)[k]
            == settle(iv)[k] by {
            lemma_resp_views_index(items@, k);
        }
        assert(resp_views(items@) =~= settle(iv));
    }
}

impl ResponseState {
    /// A fresh turn.
    pub fn new() -> (r: Self)
        ensures
            r@ == fresh_state(false),
    {
        Self::with_auto_collapse(false)
    }

    /// A fresh turn whose activity groups collapse when they close, if `auto_collapse`.
    pub fn with_auto_collapse(auto_collapse: bool) -> (r: Self)
        ensures
            r@ == fresh_state(auto_collapse),
    {
        let r = ResponseState {
            current_blocks: Vec::new(),
            current_text_accumulator: String::new(),
            in_thinking: false,
            active_tool_calls: Vec::new(),
            active_permissions: Vec::new(),
            work_group_open: false,
            work_group_start: None,
            auto_collapse,
        };
        proof {
            reveal_strlit("");
            assert(""@ =~= Seq::<char>::empty());
            assert(resp_views(r.current_blocks@) =~= seq![]);
            assert(keyed_view(r.active_tool_calls@) =~= seq![]);
            assert(keyed_view(r.active_permissions@) =~= seq![]);
        }
        r
    }

    /// Flushes any accumulated text deltas into a text block.
    pub fn flush_text(&mut self)
        ensures
            final(self).work_group_start == old(self).work_group_start,
            final(self)@ == flush_spec(old(self)@),
    {
        if !is_blank(self.current_text_accumulator.as_str()) {
            let text = self.current_text_accumulator.clone();
            let item = ParsedMarkdownItem::new_default(owned("text"), text);
            proof {
                lemma_resp_views_push(self.current_blocks@, item);
            }
            self.current_blocks.push(item);
        }
        self.current_text_accumulator = String::new();
        proof {
            reveal_strlit("");
            assert(""@ =~= Seq::<char>::empty());
        }
    }

    /// Seconds on the clock since the open group started (zero without a start).
    fn group_clock(&self) -> (r: u64)
        ensures
            self.work_group_start is None ==> r == 0,
    {
        match &self.work_group_start {
            Some(start) => {
                let d = elapsed_since(start);
                whole_secs(&d)
            },
            None => 0,
        }
    }

    /// Closes the open activity group, `elapsed_secs` being the clock's
    /// reading of how long it ran.
    pub fn close_work_group_after(&mut self, elapsed_secs: u64)
        ensures
            final(self).work_group_start is None,
            final(self)@ == close_spec(old(self)@, elapsed_secs),
    {
        let secs: i32 = if self.work_group_start.is_none() {
            0
        } else if elapsed_secs > 2147483647u64 {
            i32::MAX
        } else {
            elapsed_secs as i32
        };
        self.work_group_start = None;
        let target = match find_last_group(&self.current_blocks, true) {
            Some(i) => Some(i),
            None => find_last_group(&self.current_blocks, false),
        };
        if let Some(idx) = target {
            proof {
                lemma_resp_views_index(self.current_blocks@, idx as int);
            }
            let ghost bv0 = resp_views(self.current_blocks@);
            proof {
                lemma_resp_views_len(self.current_blocks@);
            }
            let placeholder = ParsedMarkdownItem::new_default(String::new(), String::new());
            let mut group = swap_block(&mut self.current_blocks, idx, placeholder);
            let ghost g0 = resp_view(group);
            let summary = build_work_summary(group.work_group_items.as_slice());
            group.work_group_active = false;
            group.work_group_elapsed_secs = secs;
            group.work_group_summary = summary;
            group.work_group_expanded = !self.auto_collapse;
            settle_items(&mut group.work_group_items);
            proof {
                assert(resp_view(group) == closed_group(g0, secs, self.auto_collapse));
            }
            let ghost gv = resp_view(group);
            swap_block(&mut self.current_blocks, idx, group);
            assert(resp_views(self.current_blocks@) =~= bv0.update(idx as int, gv));
        }
        self.work_group_open = false;
    }

    /// Ensures an activity group is open, `elapsed_secs` being the clock's
    /// reading for a group that has to close first; returns its index.
    pub fn ensure_work_group_open_after(&mut self, elapsed_secs: u64) -> (r: usize)
        ensures
            reuses_group(old(self)@) ==> final(self).work_group_start == old(self).work_group_start,
            !reuses_group(old(self)@) ==> final(self).work_group_start is Some,
            (final(self)@, r as int) == ensure_spec(old(self)@, elapsed_secs),
            (r as int) < final(self)@.blocks.len(),
    {
        if !is_blank(self.current_text_accumulator.as_str()) && self.work_group_open {
            self.close_work_group_after(elapsed_secs);
        }
        self.flush_text();
        if self.work_group_open {
            if let Some(idx) = find_last_group(&self.current_blocks, false) {
                proof {
                    lemma_resp_views_index(self.current_blocks@, idx as int);
                    lemma_resp_views_len(self.current_blocks@);
                }
                let ghost bv0 = resp_views(self.current_blocks@);
                let placeholder = ParsedMarkdownItem::new_default(String::new(), String::new());
                let mut group = swap_block(&mut self.current_blocks, idx, placeholder);
                let ghost g0 = resp_view(group);
                group.work_group_active = true;
                proof {
                    assert(resp_view(group) == RespView { work_group_active: true, ..g0 });
                }
                let ghost gv = resp_view(group);
                swap_block(&mut self.current_blocks, idx, group);
                assert(resp_views(self.current_blocks@) =~= bv0.update(idx as int, gv));
                proof {
                    lemma_resp_views_len(self.current_blocks@);
                }
                return idx;
            }
        }
        let mut group = ParsedMarkdownItem::new_default(owned("work_group"), String::new());
        proof {
            reveal_strlit("");
            assert(""@ =~= Seq::<char>::empty());
        }
        group.work_group_active = true;
        group.work_group_expanded = !self.auto_collapse;
        proof {
            lemma_resp_views_push(self.current_blocks@, group);
            lemma_resp_views_len(self.current_blocks@);
        }
        self.current_blocks.push(group);
        self.work_group_open = true;
        self.work_group_start = Some(instant_now());
        proof {
            lemma_resp_views_len(self.current_blocks@);
        }
        self.current_blocks.len() - 1
    }

    /// Ensures a single activity group is open for the current run of work
    /// and returns its index.
    pub fn ensure_work_group_open(&mut self) -> (r: usize)
        ensures
            reuses_group(old(self)@) ==> final(self).work_group_start == old(self).work_group_start,
            !reuses_group(old(self)@) ==> final(self).work_group_start is Some,
            exists|e: u64| (final(self)@, r as int) == ensure_spec(old(self)@, e),
            (r as int) < final(self)@.blocks.len(),
    {
        let e = self.group_clock();
        self.ensure_work_group_open_after(e)
    }
    /// Handles a reasoning delta, `elapsed_secs` being the clock's reading
    /// for a group that has to close first.
    #[verifier::rlimit(40)]
    pub fn append_thinking_after(&mut self, text: &str, elapsed_secs: u64)
        ensures
            reuses_group(old(self)@) ==> final(self).work_group_start == old(self).work_group_start,
            !reuses_group(old(self)@) ==> final(self).work_group_start is Some,
            final(self)@ == thinking_spec(old(self)@, text@, elapsed_secs),
    {
        let gi = self.ensure_work_group_open_after(elapsed_secs);
        let ghost s1 = self@;
        let ghost bv0 = resp_views(self.current_blocks@);
        proof {
            lemma_resp_views_len(self.current_blocks@);
            lemma_resp_views_index(self.current_blocks@, gi as int);
        }
        let placeholder = ParsedMarkdownItem::new_default(String::new(), String::new());
        let mut group = swap_block(&mut self.current_blocks, gi, placeholder);
        let ghost g0 = resp_view(group);
        let ghost iv0 = resp_views(group.work_group_items@);
        proof {
            lemma_resp_views_len(group.work_group_items@);
        }
        let n = group.work_group_items.len();
        let extend = if self.in_thinking && n > 0 {
            proof {
                lemma_resp_views_index(group.work_group_items@, n - 1);
            }
            str_eq(group.work_group_items[n - 1].kind.as_str(), "thinking")
        } else {
            false
        };
        if extend {
            let ph = ParsedMarkdownItem::new_default(String::new(), String::new());
            let mut last = swap_block(&mut group.work_group_items, n - 1, ph);
            let ghost l0 = resp_view(last);
            string_push_str(&mut last.thinking_text, text);
            proof {
                assert(resp_view(last) == RespView { thinking_text: l0.thinking_text + text@, ..l0 });
            }
            let ghost lv = resp_view(last);
            swap_block(&mut group.work_group_items, n - 1, last);
            assert(resp_views(group.work_group_items@) =~= iv0.update(n - 1, lv));
            let ghost gv = resp_view(group);
            swap_block(&mut self.current_blocks, gi, group);
            assert(resp_views(self.current_blocks@) =~= bv0.update(gi as int, gv));
        } else {
            let mut item = ParsedMarkdownItem::new_default(owned("thinking"), String::new());
            proof {
                reveal_strlit("");
                assert(""@ =~= Seq::<char>::empty());
            }
            item.thinking_text = owned(text);
            item.is_thinking_active = true;
            proof {
                assert(resp_view(item) == thinking_item(text@));
                lemma_resp_views_push(group.work_group_items@, item);
            }
            group.work_group_items.push(item);
            let ghost gv = resp_view(group);
            swap_block(&mut self.current_blocks, gi, group);
            assert(resp_views(self.current_blocks@) =~= bv0.update(gi as int, gv));
            self.in_thinking = true;
        }
    }

    /// Handles a reasoning/thinking delta.
    pub fn append_thinking(&mut self, text: &str)
        ensures
            reuses_group(old(self)@) ==> final(self).work_group_start == old(self).work_group_start,
            !reuses_group(old(self)@) ==> final(self).work_group_start is Some,
            exists|e: u64| final(self)@ == thinking_spec(old(self)@, text@, e),
    {
        let e = self.group_clock();
        self.append_thinking_after(text, e);
    }

    /// Handles a standard text delta from the assistant response.
    pub fn append_text(&mut self, text: &str)
        ensures
            final(self).work_group_start == old(self).work_group_start,
            final(self)@ == text_spec(old(self)@, text@),
    {
        self.in_thinking = false;
        string_push_str(&mut self.current_text_accumulator, text);
    }

    /// The blocks to show mid-stream, `elapsed_secs` being the clock's
    /// reading of how long the open group has run.
    pub fn build_parsed_items_after(&self, elapsed_secs: u64) -> (r: Vec<ParsedMarkdownItem>)
        ensures
            resp_views(r@) == snapshot(self@, elapsed_secs),
    {
        let ghost bv = resp_views(self.current_blocks@);
        let secs: i32 = if self.work_group_start.is_none() {
            0
        } else if elapsed_secs > 2147483647u64 {
            i32::MAX
        } else {
            elapsed_secs as i32
        };
        let mut temp = copy_items(&self.current_blocks);
        proof {
            lemma_resp_views_len(self.current_blocks@);
            lemma_resp_views_len(temp@);
            assert forall|k: int| 0 <= k < temp@.len() implies #[trigger] resp_view(temp@[k])
                == bv[k] by {
                lemma_resp_views_index(temp@, k);
            }
        }
        let mut i: usize = 0;
        while i < temp.len()
            invariant
                i <= temp.len(),
                temp@.len() == bv.len(),
                bv == resp_views(self.current_blocks@),
                secs == secs_of(self@.started, elapsed_secs),
                forall|k: int| 0 <= k < i ==> #[trigger] resp_view(temp@[k]) == tick(bv[k], secs),
                forall|k: int| i <= k < temp@.len() ==> #[trigger] resp_view(temp@[k]) == bv[k],
            decreases temp.len() - i,
        {
            let ghost t0 = temp@;
            assert(resp_view(temp@[i as int]) == bv[i as int]);
            if str_eq(temp[i].kind.as_str(), "work_group") && temp[i].work_group_active {
                let ph = ParsedMarkdownItem::new_default(String::new(), String::new());
                let mut b = swap_block(&mut temp, i, ph);
                let summary = build_work_summary(b.work_group_items.as_slice());
                b.work_group_elapsed_secs = secs;
                b.work_group_summary = summary;
                proof {
                    assert(resp_view(b) == tick(bv[i as int], secs));
                }
                swap_block(&mut temp, i, b);
                assert(temp@ =~= t0.update(i as int, b));
            } else {
                assert(tick(bv[i as int], secs) == bv[i as int]);
            }
            i += 1;
        }
        let ghost ticked = bv.map_values(|b: RespView| tick(b, secs));
        proof {
            lemma_resp_views_len(temp@);
            assert forall|k: int| 0 <= k < temp@.len() implies #[trigger] resp_views(temp@)[k]
                == ticked[k] by {
                lemma_resp_views_index(temp@, k);
            }
            assert(resp_views(temp@) =~= ticked);
        }
        if !is_blank(self.current_text_accumulator.as_str()) {
            let item = ParsedMarkdownItem::new_default(
                owned("text"),
                self.current_text_accumulator.clone(),
            );
            proof {
                lemma_resp_views_push(temp@, item);
            }
            temp.push(item);
        }
        temp
    }

    /// Assembles the current blocks into the list to show mid-stream.
    pub fn build_parsed_items(&self) -> (r: Vec<ParsedMarkdownItem>)
        ensures
            exists|e: u64| resp_views(r@) == snapshot(self@, e),
    {
        let e = self.group_clock();
        self.build_parsed_items_after(e)
    }

    /// Ends the stream, `elapsed_secs` being the clock's reading of how long
    /// the open group ran; returns the final blocks.
    pub fn finalize_after(&mut self, elapsed_secs: u64) -> (r: Vec<ParsedMarkdownItem>)
        ensures
            old(self)@.open ==> final(self).work_group_start is None,
            !old(self)@.open ==> final(self).work_group_start == old(self).work_group_start,
            final(self)@ == finalize_spec(old(self)@, elapsed_secs),
            resp_views(r@) == final(self)@.blocks,
    {
        self.in_thinking = false;
        if self.work_group_open {
            self.close_work_group_after(elapsed_secs);
        }
        self.flush_text();
        copy_items(&self.current_blocks)
    }

    /// Finalizes the stream and returns the block list with active thinking set to false.
    pub fn finalize(&mut self) -> (r: Vec<ParsedMarkdownItem>)
        ensures
            old(self)@.open ==> final(self).work_group_start is None,
            !old(self)@.open ==> final(self).work_group_start == old(self).work_group_start,
            exists|e: u64| final(self)@ == finalize_spec(old(self)@, e),
            resp_views(r@) == final(self)@.blocks,
    {
        let e = self.group_clock();
        self.finalize_after(e)
    }
}

// ---------------------------------------------------------------------------
// Entries of activity groups
// ---------------------------------------------------------------------------

/// Whether block `g` has an entry `i`.
pub open spec fn entry_exists(blocks: Seq<RespView>, g: int, i: int) -> bool {
    0 <= g < blocks.len() && 0 <= i < blocks[g].work_group_items.len()
}

/// The blocks with entry `i` of block `g` replaced by `x`.
pub open spec fn set_entry(blocks: Seq<RespView>, g: int, i: int, x: RespView) -> Seq<RespView> {
    blocks.update(
        g,
        RespView { work_group_items: blocks[g].work_group_items.update(i, x), ..blocks[g] },
    )
}

/// The blocks with `x` appended to the entries of block `g`.
pub open spec fn push_entry(blocks: Seq<RespView>, g: int, x: RespView) -> Seq<RespView> {
    blocks.update(
        g,
        RespView { work_group_items: blocks[g].work_group_items.push(x), ..blocks[g] },
    )
}

/// Writing an entry twice keeps the second value.
pub proof fn lemma_set_entry_twice(b: Seq<RespView>, g: int, i: int, x: RespView, y: RespView)
    requires
        entry_exists(b, g, i),
    ensures
        entry_exists(set_entry(b, g, i, x), g, i),
        set_entry(set_entry(b, g, i, x), g, i, y) == set_entry(b, g, i, y),
{
    let b1 = set_entry(b, g, i, x);
    assert(b1[g].work_group_items.update(i, y) =~= b[g].work_group_items.update(i, y));
    assert(set_entry(b1, g, i, y) =~= set_entry(b, g, i, y));
}

pub open spec fn with_blocks(s: StateView, blocks: Seq<RespView>) -> StateView {
    StateView { blocks, ..s }
}

impl ResponseState {
    /// Takes entry `i` of block `g` out, leaving an empty entry in its place.
    pub fn take_entry(&mut self, g: usize, i: usize) -> (r: Option<ParsedMarkdownItem>)
        ensures
            final(self).work_group_start == old(self).work_group_start,
            match r {
                Some(x) => entry_exists(old(self)@.blocks, g as int, i as int) && resp_view(x)
                    == old(self)@.blocks[g as int].work_group_items[i as int] && final(self)@
                    == with_blocks(
                    old(self)@,
                    set_entry(old(self)@.blocks, g as int, i as int, resp_default(seq![], seq![])),
                ),
                None => !entry_exists(old(self)@.blocks, g as int, i as int) && final(self)@
                    == old(self)@,
            },
    {
        proof {
            lemma_resp_views_len(self.current_blocks@);
        }
        if g >= self.current_blocks.len() {
            return None;
        }
        proof {
            lemma_resp_views_index(self.current_blocks@, g as int);
            lemma_resp_views_len(self.current_blocks@[g as int].work_group_items@);
        }
        if i >= self.current_blocks[g].work_group_items.len() {
            return None;
        }
        let ghost bv0 = resp_views(self.current_blocks@);
        let ph = ParsedMarkdownItem::new_default(String::new(), String::new());
        let mut group = swap_block(&mut self.current_blocks, g, ph);
        let ghost g0 = resp_view(group);
        let ghost iv0 = resp_views(group.work_group_items@);
        proof {
            lemma_resp_views_index(group.work_group_items@, i as int);
            reveal_strlit("");
            assert(""@ =~= Seq::<char>::empty());
        }
        let ph2 = ParsedMarkdownItem::new_default(String::new(), String::new());
        let x = swap_block(&mut group.work_group_items, i, ph2);
        proof {
            assert(resp_views(group.work_group_items@) == iv0.update(i as int, resp_default(seq![], seq![])));
        }
        let ghost gv = resp_view(group);
        swap_block(&mut self.current_blocks, g, group);
        assert(resp_views(self.current_blocks@) =~= bv0.update(g as int, gv));
        Some(x)
    }

    /// Puts `x` as entry `i` of block `g`.
    pub fn put_entry(&mut self, g: usize, i: usize, x: ParsedMarkdownItem)
        requires
            entry_exists(old(self)@.blocks, g as int, i as int),
        ensures
            final(self).work_group_start == old(self).work_group_start,
            final(self)@ == with_blocks(
                old(self)@,
                set_entry(old(self)@.blocks, g as int, i as int, resp_view(x)),
            ),
    {
        proof {
            lemma_resp_views_len(self.current_blocks@);
            lemma_resp_views_index(self.current_blocks@, g as int);
        }
        let ghost bv0 = resp_views(self.current_blocks@);
        let ph = ParsedMarkdownItem::new_default(String::new(), String::new());
        let mut group = swap_block(&mut self.current_blocks, g, ph);
        let ghost iv0 = resp_views(group.work_group_items@);
        proof {
            lemma_resp_views_len(group.work_group_items@);
        }
        let ghost xv = resp_view(x);
        swap_block(&mut group.work_group_items, i, x);
        let ghost gv = resp_view(group);
        swap_block(&mut self.current_blocks, g, group);
        assert(resp_views(self.current_blocks@) =~= bv0.update(g as int, gv));
    }

    /// Appends `x` to the entries of block `g`; returns its index.
    pub fn push_entry(&mut self, g: usize, x: ParsedMarkdownItem) -> (r: usize)
        requires
            (g as int) < old(self)@.blocks.len(),
        ensures
            final(self).work_group_start == old(self).work_group_start,
            final(self)@ == with_blocks(old(self)@, push_entry(old(self)@.blocks, g as int, resp_view(x))),
            r as int == old(self)@.blocks[g as int].work_group_items.len(),
    {
        proof {
            lemma_resp_views_len(self.current_blocks@);
            lemma_resp_views_index(self.current_blocks@, g as int);
        }
        let ghost bv0 = resp_views(self.current_blocks@);
        let ph = ParsedMarkdownItem::new_default(String::new(), String::new());
        let mut group = swap_block(&mut self.current_blocks, g, ph);
        proof {
            lemma_resp_views_len(group.work_group_items@);
            lemma_resp_views_push(group.work_group_items@, x);
        }
        let n = group.work_group_items.len();
        group.work_group_items.push(x);
        let ghost gv = resp_view(group);
        swap_block(&mut self.current_blocks, g, group);
        assert(resp_views(self.current_blocks@) =~= bv0.update(g as int, gv));
        n
    }
}

// ---------------------------------------------------------------------------
// How activity groups split
// ---------------------------------------------------------------------------

/// Work with nothing but whitespace since the last step stays in the open
/// activity group: that group is the one used, and no block is added.
pub proof fn lemma_quiet_work_stays_in_group(s: StateView, e: u64)
    requires
        s.open,
        all_ws(s.acc),
        last_group(s.blocks, false) is Some,
    ensures
        ensure_spec(s, e).1 == last_group(s.blocks, false).unwrap(),
        ensure_spec(s, e).0.blocks.len() == s.blocks.len(),
{
    let s1 = flush_spec(s);
    assert(s1.blocks == s.blocks);
    assert(s1.open);
    lemma_last_group(s.blocks, false);
}

/// Response text between two runs of work splits them: the open group
/// closes, the text becomes a block, and a new, empty group follows it.
pub proof fn lemma_text_splits_groups(s: StateView, e: u64)
    requires
        s.open,
        !all_ws(s.acc),
    ensures
        ({
            let (t, gi) = ensure_spec(s, e);
            &&& gi == s.blocks.len() + 1
            &&& t.blocks.len() == s.blocks.len() + 2
            &&& t.blocks[s.blocks.len() as int] == resp_default("text"@, s.acc)
            &&& t.blocks[gi] == new_group(s.auto_collapse)
            &&& t.open
        }),
{
    lemma_last_group(s.blocks, true);
    lemma_last_group(s.blocks, false);
    let c = close_spec(s, e);
    assert(!c.open);
    assert(c.blocks.len() == s.blocks.len());
}

} // verus!

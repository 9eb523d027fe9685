//! What the one-line summary of an activity group says, category by
//! category: the laws behind `build_work_summary`.

use crate::main_content::markdown::RespView;
use crate::main_content::reasoning::{
    activity_counts, activity_kind, capitalize, count_phrase, join, summary_parts, times_phrase,
    work_summary,
};
use crate::text::{ascii_upper, contains, int_text};
use vstd::prelude::*;

verus! {

/// A tool card outside the named file and directory tools counts as a
/// search when its name mentions `search` or `web`, and as another tool
/// otherwise.
pub proof fn lemma_other_tool_categories(it: RespView)
    requires
        it.kind == "tool"@,
        !(it.tool_name == "ls"@ || it.tool_name == "list_dir"@ || it.tool_name == "read"@
            || it.tool_name == "write"@ || it.tool_name == "edit"@ || it.tool_name == "append"@),
    ensures
        contains(it.tool_name, "search"@) || contains(it.tool_name, "web"@) ==> activity_kind(it)
            == 3,
        !contains(it.tool_name, "search"@) && !contains(it.tool_name, "web"@) ==> activity_kind(it)
            == 5,
{
    reveal_strlit("thinking");
    reveal_strlit("tool");
    assert("thinking"@.len() != "tool"@.len());
}

/// What a group whose `n` entries are all of category `k` reads: one entry
/// is "Read a file", "Listed a directory", "Thought once" and so on; more
/// are counted, as in "Read 3 files" or "Searched 2 times".
pub open spec fn uniform_summary(k: nat, n: nat) -> Seq<char> {
    if n == 1 {
        if k == 0 {
            "Listed a directory"@
        } else if k == 1 {
            "Read a file"@
        } else if k == 2 {
            "Edited a file"@
        } else if k == 3 {
            "Searched once"@
        } else if k == 4 {
            "Thought once"@
        } else {
            "Ran a tool"@
        }
    } else {
        if k == 0 {
            "Listed "@ + int_text(n as int) + " directories"@
        } else if k == 1 {
            "Read "@ + int_text(n as int) + " files"@
        } else if k == 2 {
            "Edited "@ + int_text(n as int) + " files"@
        } else if k == 3 {
            "Searched "@ + int_text(n as int) + " times"@
        } else if k == 4 {
            "Thought "@ + int_text(n as int) + " times"@
        } else {
            "Ran "@ + int_text(n as int) + " tools"@
        }
    }
}

proof fn lemma_uniform_counts(items: Seq<RespView>, k: nat)
    requires
        k < 6,
        forall|i: int| 0 <= i < items.len() ==> activity_kind(#[trigger] items[i]) == k,
    ensures
        ({
            let (l, r, e, s, t, o) = activity_counts(items);
            let n = items.len();
            &&& l == (if k == 0 { n } else { 0 })
            &&& r == (if k == 1 { n } else { 0 })
            &&& e == (if k == 2 { n } else { 0 })
            &&& s == (if k == 3 { n } else { 0 })
            &&& t == (if k == 4 { n } else { 0 })
            &&& o == (if k == 5 { n } else { 0 })
        }),
    decreases items.len(),
{
    if items.len() > 0 {
        let d = items.drop_last();
        assert forall|i: int| 0 <= i < d.len() implies activity_kind(#[trigger] d[i]) == k by {
            assert(d[i] == items[i]);
        }
        lemma_uniform_counts(d, k);
        assert(activity_kind(items[items.len() - 1]) == k);
    }
}

/// A group whose entries all fall in one category reads as that category
/// counted: see [`uniform_summary`].
pub proof fn lemma_uniform_summary(items: Seq<RespView>, k: nat)
    requires
        k < 6,
        1 <= items.len() <= i32::MAX,
        forall|i: int| 0 <= i < items.len() ==> activity_kind(#[trigger] items[i]) == k,
    ensures
        work_summary(items) == uniform_summary(k, items.len()),
{
    lemma_uniform_counts(items, k);
    let n = items.len();
    let c = n as i32;
    assert(c as int == n as int);
    let zero: i32 = 0;
    reveal_strlit("read");
    reveal_strlit("edited");
    reveal_strlit("listed");
    reveal_strlit("searched");
    reveal_strlit("thought");
    reveal_strlit("ran");
    reveal_strlit(" a ");
    reveal_strlit(" ");
    reveal_strlit(" once");
    reveal_strlit(" times");
    reveal_strlit("file");
    reveal_strlit("files");
    reveal_strlit("directory");
    reveal_strlit("directories");
    reveal_strlit("tool");
    reveal_strlit("tools");
    reveal_strlit("Listed a directory");
    reveal_strlit("Read a file");
    reveal_strlit("Edited a file");
    reveal_strlit("Searched once");
    reveal_strlit("Thought once");
    reveal_strlit("Ran a tool");
    reveal_strlit("Listed ");
    reveal_strlit("Read ");
    reveal_strlit("Edited ");
    reveal_strlit("Searched ");
    reveal_strlit("Thought ");
    reveal_strlit("Ran ");
    reveal_strlit(" directories");
    reveal_strlit(" files");
    reveal_strlit(" tools");
    let (verb, sing, plur) = if k == 0 {
        ("listed"@, "directory"@, "directories"@)
    } else if k == 1 {
        ("read"@, "file"@, "files"@)
    } else if k == 2 {
        ("edited"@, "file"@, "files"@)
    } else if k == 3 {
        ("searched"@, seq![], seq![])
    } else if k == 4 {
        ("thought"@, seq![], seq![])
    } else {
        ("ran"@, "tool"@, "tools"@)
    };
    let timed = k == 3 || k == 4;
    let phrase = if n == 1 {
        if timed {
            verb + " once"@
        } else {
            verb + " a "@ + sing
        }
    } else {
        if timed {
            verb + " "@ + int_text(c as int) + " times"@
        } else {
            verb + " "@ + int_text(c as int) + " "@ + plur
        }
    };
    assert(count_phrase("read"@, zero, "file"@, "files"@) =~= seq![]);
    assert(count_phrase("edited"@, zero, "file"@, "files"@) =~= seq![]);
    assert(count_phrase("listed"@, zero, "directory"@, "directories"@) =~= seq![]);
    assert(times_phrase("searched"@, zero) =~= seq![]);
    assert(times_phrase("thought"@, zero) =~= seq![]);
    assert(count_phrase("ran"@, zero, "tool"@, "tools"@) =~= seq![]);
    if k == 0 {
        assert(count_phrase("listed"@, c, "directory"@, "directories"@) =~= seq![phrase]);
    } else if k == 1 {
        assert(count_phrase("read"@, c, "file"@, "files"@) =~= seq![phrase]);
    } else if k == 2 {
        assert(count_phrase("edited"@, c, "file"@, "files"@) =~= seq![phrase]);
    } else if k == 3 {
        assert(times_phrase("searched"@, c) =~= seq![phrase]);
    } else if k == 4 {
        assert(times_phrase("thought"@, c) =~= seq![phrase]);
    } else {
        assert(k == 5);
        assert(count_phrase("ran"@, c, "tool"@, "tools"@) =~= seq![phrase]);
    }
    assert(summary_parts(items) =~= seq![phrase]);
    assert(join(seq![phrase], ", "@) == phrase);
    assert(phrase.len() > 0);
    assert(ascii_upper('l') == 'L');
    assert(ascii_upper('r') == 'R');
    assert(ascii_upper('e') == 'E');
    assert(ascii_upper('s') == 'S');
    assert(ascii_upper('t') == 'T');
    assert(capitalize(phrase) =~= uniform_summary(k, n));
}

} // verus!

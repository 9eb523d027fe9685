//! Conversation titles taken from the first user message.

use crate::text::{chars_of, owned, push_str_chars, slice_chars, string_of, trim, trim_chars};
use vstd::prelude::*;

verus! {

/// Bytes `c` takes in UTF-8.
pub open spec fn utf8_len(c: char) -> nat {
    if (c as u32) < 0x80 {
        1
    } else if (c as u32) < 0x800 {
        2
    } else if (c as u32) < 0x10000 {
        3
    } else {
        4
    }
}

/// Bytes `s` takes in UTF-8.
pub open spec fn byte_len(s: Seq<char>) -> nat
    decreases s.len(),
{
    if s.len() == 0 {
        0
    } else {
        byte_len(s.drop_last()) + utf8_len(s.last())
    }
}

/// Longer prefixes take more bytes.
pub proof fn lemma_byte_len_grows(s: Seq<char>, a: int, b: int)
    requires
        0 <= a < b <= s.len(),
    ensures
        byte_len(s.take(a)) < byte_len(s.take(b)),
    decreases b - a,
{
    assert(s.take(b).drop_last() =~= s.take(b - 1));
    if a < b - 1 {
        lemma_byte_len_grows(s, a, b - 1);
    }
}

/// Whether the first `n` bytes of `s` end on a character boundary.
pub open spec fn has_cut(s: Seq<char>, n: nat) -> bool {
    exists|k: int| 0 <= k <= s.len() && byte_len(#[trigger] s.take(k)) == n
}

/// The number of characters in the first `n` bytes of `s`.
pub open spec fn cut(s: Seq<char>, n: nat) -> int {
    choose|k: int| 0 <= k <= s.len() && byte_len(#[trigger] s.take(k)) == n
}

/// The message with line breaks as spaces, trimmed.
pub open spec fn clean_title(msg: Seq<char>) -> Seq<char> {
    trim(msg.map_values(|c: char| if c == '\n' { ' ' } else { c }))
}

pub open spec fn opt_text(o: Option<&str>) -> Option<Seq<char>> {
    match o {
        Some(s) => Some(s@),
        None => None,
    }
}

/// Whether the first `k` characters of `s` are the longest prefix of it
/// that fits in `n` bytes.
pub open spec fn fits_at(s: Seq<char>, n: nat, k: int) -> bool {
    &&& 0 <= k <= s.len()
    &&& byte_len(s.take(k)) <= n
    &&& k == s.len() || byte_len(s.take(k + 1)) > n
}

/// The number of characters of the longest prefix of `s` that fits in `n`
/// bytes: the cut lands on the last character boundary at or before byte `n`.
pub open spec fn fit(s: Seq<char>, n: nat) -> int {
    choose|k: int| fits_at(s, n, k)
}

/// There is such a prefix, and only one.
pub proof fn lemma_fit(s: Seq<char>, n: nat)
    ensures
        fits_at(s, n, fit(s, n)),
        forall|k: int| fits_at(s, n, k) ==> k == fit(s, n),
{
    assert(s.take(0) =~= Seq::<char>::empty());
    lemma_fit_from(s, n, 0);
    assert forall|k: int| fits_at(s, n, k) implies k == fit(s, n) by {
        lemma_fit_unique(s, n, k, fit(s, n));
    }
}

proof fn lemma_fit_from(s: Seq<char>, n: nat, k: int)
    requires
        0 <= k <= s.len(),
        byte_len(s.take(k)) <= n,
    ensures
        exists|j: int| fits_at(s, n, j),
    decreases s.len() - k,
{
    if k == s.len() || byte_len(s.take(k + 1)) > n {
        assert(fits_at(s, n, k));
    } else {
        lemma_fit_from(s, n, k + 1);
    }
}

proof fn lemma_fit_unique(s: Seq<char>, n: nat, a: int, b: int)
    requires
        fits_at(s, n, a),
        fits_at(s, n, b),
    ensures
        a == b,
{
    if a < b {
        if a + 1 < b {
            lemma_byte_len_grows(s, a + 1, b);
        }
    } else if b < a {
        if b + 1 < a {
            lemma_byte_len_grows(s, b + 1, a);
        }
    }
}

/// The title of a conversation: its first message on one line, cut at the
/// last character boundary within 40 bytes, with an ellipsis, when longer;
/// the fallback when there is none.
pub open spec fn session_title(first_message: Option<Seq<char>>, fallback: Seq<char>) -> Seq<char> {
    match first_message {
        None => fallback,
        Some(m) => {
            let c = clean_title(m);
            if byte_len(c) > 40 {
                c.take(fit(c, 40)) + "..."@
            } else {
                c
            }
        },
    }
}

/// The longest prefix of `c` that fits in `n` bytes, by its length.
fn fitting_prefix_len(c: &Vec<char>, n: usize) -> (k: usize)
    requires
        n < usize::MAX - 4,
    ensures
        fits_at(c@, n as nat, k as int),
{
    let ghost cs = c@;
    let mut k: usize = 0;
    let mut b: usize = 0;
    assert(cs.take(0) =~= Seq::<char>::empty());
    while k < c.len() && b + utf8_width(c[k]) <= n
        invariant
            k <= c.len(),
            cs == c@,
            n < usize::MAX - 4,
            b == byte_len(cs.take(k as int)),
            b <= n,
        decreases c.len() - k,
    {
        assert(cs.take(k + 1).drop_last() =~= cs.take(k as int));
        b = b + utf8_width(c[k]);
        k += 1;
    }
    if k < c.len() {
        assert(cs.take(k + 1).drop_last() =~= cs.take(k as int));
    }
    k
}

pub(crate) fn utf8_width(c: char) -> (r: usize)
    ensures
        r == utf8_len(c),
{
    if (c as u32) < 0x80 {
        1
    } else if (c as u32) < 0x800 {
        2
    } else if (c as u32) < 0x10000 {
        3
    } else {
        4
    }
}

/// The first `n` bytes of `s` when it is longer, `s` itself otherwise.
pub open spec fn byte_prefix_of(s: Seq<char>, n: nat) -> Seq<char> {
    if byte_len(s) > n {
        s.take(cut(s, n))
    } else {
        s
    }
}

/// Cuts `c` to its first `n` bytes (`&s[..s.len().min(n)]`), telling
/// whether anything was cut.
pub fn byte_prefix(c: &Vec<char>, n: usize) -> (r: (Vec<char>, bool))
    requires
        n < usize::MAX - 4,
        byte_len(c@) <= n || has_cut(c@, n as nat),
    ensures
        r.0@ == byte_prefix_of(c@, n as nat),
        r.1 == (byte_len(c@) > n),
{
    let ghost cs = c@;
    // bytes of the first k characters, up to the first prefix of n bytes or more
    let mut k: usize = 0;
    let mut b: usize = 0;
    while k < c.len() && b < n
        invariant
            k <= c.len(),
            cs == c@,
            n < usize::MAX - 4,
            b == byte_len(cs.take(k as int)),
            b < n + 4,
            forall|j: int| 0 <= j < k ==> byte_len(#[trigger] cs.take(j)) < n,
        decreases c.len() - k,
    {
        proof {
            assert(cs.take(k + 1).drop_last() =~= cs.take(k as int));
        }
        b = b + utf8_width(c[k]);
        k += 1;
    }
    proof {
        assert(cs.take(c.len() as int) =~= cs);
        if k < c.len() {
            lemma_byte_len_grows(cs, k as int, c.len() as int);
        }
    }
    if k < c.len() || b > n {
        // `c` is longer than `n` bytes
        proof {
            if b > n {
                // no prefix ends at byte n: shorter ones end before it, longer ones after
                assert forall|j: int| 0 <= j <= cs.len() implies byte_len(#[trigger] cs.take(j))
                    != n by {
                    if j > k {
                        lemma_byte_len_grows(cs, k as int, j);
                    }
                }
                assert(false);
            }
            assert(byte_len(cs.take(k as int)) == n);
            let kk = cut(cs, n as nat);
            if kk < k {
                lemma_byte_len_grows(cs, kk, k as int);
            } else if kk > k {
                lemma_byte_len_grows(cs, k as int, kk);
            }
        }
        let mut t: Vec<char> = Vec::new();
        let mut j: usize = 0;
        while j < k
            invariant
                j <= k <= c.len(),
                t@ == c@.take(j as int),
            decreases k - j,
        {
            t.push(c[j]);
            j += 1;
            assert(t@ =~= c@.take(j as int));
        }
        (t, true)
    } else {
        let mut t: Vec<char> = Vec::new();
        let mut j: usize = 0;
        while j < c.len()
            invariant
                j <= c.len(),
                t@ == c@.take(j as int),
            decreases c.len() - j,
        {
            t.push(c[j]);
            j += 1;
            assert(t@ =~= c@.take(j as int));
        }
        assert(t@ =~= c@);
        (t, false)
    }
}

/// Determines the conversation title from the first user message.
pub fn determine_session_title(first_message: Option<&str>, default_fallback: &str) -> (r: String)
    ensures
        r@ == session_title(opt_text(first_message), default_fallback@),
{
    match first_message {
        None => owned(default_fallback),
        Some(msg) => {
            let v = chars_of(msg);
            let mut spaced: Vec<char> = Vec::new();
            let mut i: usize = 0;
            while i < v.len()
                invariant
                    i <= v.len(),
                    spaced@ == v@.take(i as int).map_values(
                        |c: char|
                            if c == '\n' {
                                ' '
                            } else {
                                c
                            },
                    ),
                decreases v.len() - i,
            {
                spaced.push(
                    if v[i] == '\n' {
                        ' '
                    } else {
                        v[i]
                    },
                );
                i += 1;
                assert(spaced@ =~= v@.take(i as int).map_values(
                    |c: char|
                        if c == '\n' {
                            ' '
                        } else {
                            c
                        },
                ));
            }
            assert(v@.take(v.len() as int) =~= v@);
            let c = trim_chars(&spaced);
            let ghost cs = c@;
            assert(cs == clean_title(msg@));
            let k = fitting_prefix_len(&c, 40);
            proof {
                lemma_fit(cs, 40);
                assert(cs.take(c.len() as int) =~= cs);
                if k < c.len() && k + 1 < c.len() {
                    lemma_byte_len_grows(cs, k + 1, c.len() as int);
                }
            }
            if k < c.len() {
                let mut t = slice_chars(&c, 0, k);
                assert(t@ =~= cs.take(k as int));
                push_str_chars(&mut t, "...");
                string_of(t.as_slice())
            } else {
                string_of(c.as_slice())
            }
        },
    }
}

pub proof fn lemma_byte_len_concat(a: Seq<char>, b: Seq<char>)
    ensures
        byte_len(a + b) == byte_len(a) + byte_len(b),
    decreases b.len(),
{
    if b.len() > 0 {
        lemma_byte_len_concat(a, b.drop_last());
        assert((a + b).drop_last() =~= a + b.drop_last());
    } else {
        assert(a + b =~= a);
    }
}

/// A title never takes more than 43 bytes: at most 40 of the message and
/// an ellipsis.
pub proof fn lemma_title_fits(m: Seq<char>, fallback: Seq<char>)
    ensures
        byte_len(session_title(Some(m), fallback)) <= 43,
{
    let c = clean_title(m);
    if byte_len(c) > 40 {
        lemma_fit(c, 40);
        let k = fit(c, 40);
        assert(byte_len(c.take(k)) <= 40);
        lemma_byte_len_concat(c.take(k), "..."@);
        reveal_strlit("...");
        assert("..."@ =~= seq!['.', '.', '.']);
        assert(byte_len(seq!['.', '.', '.']) == 3) by {
            reveal_with_fuel(byte_len, 4);
            assert(seq!['.', '.', '.'].drop_last() =~= seq!['.', '.']);
            assert(seq!['.', '.'].drop_last() =~= seq!['.']);
            assert(seq!['.'].drop_last() =~= Seq::<char>::empty());
        }
    }
}

} // verus!

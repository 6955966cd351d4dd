use vstd::prelude::*;
use crate::dedup::{Deduplicator, id_set};
use crate::user::User;

verus! {

/// The accounts of `users` whose identity is not in `ids`, in order.
pub open spec fn without_ids(users: Seq<User>, ids: Set<Seq<char>>) -> Seq<User>
    decreases users.len(),
{
    if users.len() == 0 {
        seq![]
    } else {
        let rest = without_ids(users.drop_last(), ids);
        if ids.contains(users.last().login@) {
            rest
        } else {
            rest.push(users.last())
        }
    }
}

/// Removes every account whose identity is listed in `blacklist`, keeping
/// the order of the others.
pub fn filter_blacklist(users: &mut Vec<User>, blacklist: &Vec<String>)
    ensures
        final(users)@ == without_ids(old(users)@, id_set(blacklist@)),
{
    let banned = Deduplicator::with_blacklist(blacklist);
    let ghost all = users@;
    let mut rest: Vec<User> = Vec::new();
    std::mem::swap(users, &mut rest);
    let total: usize = rest.len();
    let mut taken: usize = 0;
    while rest.len() > 0
        invariant
            banned@ == id_set(blacklist@),
            all.len() == total,
            taken + rest@.len() == total,
            rest@ == all.subrange(taken as int, total as int),
            users@ == without_ids(all.subrange(0, taken as int), id_set(blacklist@)),
        decreases rest@.len(),
    {
        let u = rest.remove(0);
        proof {
            let next = all.subrange(0, taken + 1);
            assert(next.drop_last() =~= all.subrange(0, taken as int));
            assert(next.last() == u);
        }
        if !banned.seen(&u.login) {
            users.push(u);
        }
        taken = taken + 1;
        assert(rest@ =~= all.subrange(taken as int, total as int));
    }
    assert(all.subrange(0, total as int) =~= all);
}

/// Unicode white space, as `char::is_whitespace` defines it.
pub open spec fn white_space(c: char) -> bool {
    ('\t' <= c && c <= '\r') || c == ' ' || c == '\u{85}' || c == '\u{a0}' || c == '\u{1680}'
        || ('\u{2000}' <= c && c <= '\u{200a}') || c == '\u{2028}' || c == '\u{2029}'
        || c == '\u{202f}' || c == '\u{205f}' || c == '\u{3000}'
}

pub fn is_white_space(c: char) -> (r: bool)
    ensures
        r == white_space(c),
{
    ('\t' <= c && c <= '\r') || c == ' ' || c == '\u{85}' || c == '\u{a0}' || c == '\u{1680}'
        || ('\u{2000}' <= c && c <= '\u{200a}') || c == '\u{2028}' || c == '\u{2029}'
        || c == '\u{202f}' || c == '\u{205f}' || c == '\u{3000}'
}

/// `s` without its leading white space.
pub open spec fn trim_start(s: Seq<char>) -> Seq<char>
    decreases s.len(),
{
    if s.len() > 0 && white_space(s[0]) {
        trim_start(s.drop_first())
    } else {
        s
    }
}

/// `s` without its trailing white space.
pub open spec fn trim_end(s: Seq<char>) -> Seq<char>
    decreases s.len(),
{
    if s.len() > 0 && white_space(s.last()) {
        trim_end(s.drop_last())
    } else {
        s
    }
}

/// The entry a line stands for: the line without surrounding white space,
/// unless that is empty or a comment (starts with `#`).
pub open spec fn line_entry(line: Seq<char>) -> Option<Seq<char>> {
    let t = trim_end(trim_start(line));
    if t.len() == 0 || t[0] == '#' {
        None
    } else {
        Some(t)
    }
}

/// The finished lines of `text` and the line still open at its end.
pub open spec fn split_lines(text: Seq<char>) -> (Seq<Seq<char>>, Seq<char>)
    decreases text.len(),
{
    if text.len() == 0 {
        (seq![], seq![])
    } else {
        let (done, open) = split_lines(text.drop_last());
        if text.last() == '\n' {
            (done.push(open), seq![])
        } else {
            (done, open.push(text.last()))
        }
    }
}

/// The entries of a sequence of lines, in order.
pub open spec fn line_entries(lines: Seq<Seq<char>>) -> Seq<Seq<char>>
    decreases lines.len(),
{
    if lines.len() == 0 {
        seq![]
    } else {
        let rest = line_entries(lines.drop_last());
        match line_entry(lines.last()) {
            Some(e) => rest.push(e),
            None => rest,
        }
    }
}

/// The entries of a blacklist text: one per line that is neither blank nor
/// a comment, trimmed of white space.
pub open spec fn blacklist_entries(text: Seq<char>) -> Seq<Seq<char>> {
    let (done, open) = split_lines(text);
    line_entries(done.push(open))
}

proof fn lemma_trim_start_skip(s: Seq<char>, k: int)
    requires
        0 <= k <= s.len(),
        forall|j: int| 0 <= j < k ==> white_space(#[trigger] s[j]),
    ensures
        trim_start(s) == trim_start(s.subrange(k, s.len() as int)),
    decreases k,
{
    if k > 0 {
        assert(s.drop_first() =~= s.subrange(1, s.len() as int));
        let t = s.drop_first();
        assert forall|j: int| 0 <= j < k - 1 implies white_space(#[trigger] t[j]) by {
            assert(t[j] == s[j + 1]);
        }
        lemma_trim_start_skip(t, k - 1);
        assert(t.subrange(k - 1, t.len() as int) =~= s.subrange(k, s.len() as int));
    } else {
        assert(s.subrange(0, s.len() as int) =~= s);
    }
}

proof fn lemma_trim_end_drop(s: Seq<char>, k: int)
    requires
        0 <= k <= s.len(),
        forall|j: int| k <= j < s.len() ==> white_space(#[trigger] s[j]),
    ensures
        trim_end(s) == trim_end(s.subrange(0, k)),
    decreases s.len() - k,
{
    if k < s.len() {
        let t = s.drop_last();
        assert forall|j: int| k <= j < t.len() implies white_space(#[trigger] t[j]) by {
            assert(t[j] == s[j]);
        }
        lemma_trim_end_drop(t, k);
        assert(t.subrange(0, k) =~= s.subrange(0, k));
    } else {
        assert(s.subrange(0, k) =~= s);
    }
}

/// The entry of the line `text[start..end)`, if any.
fn entry_of(text: &str, start: usize, end: usize) -> (r: Option<String>)
    requires
        start <= end <= text@.len(),
    ensures
        match line_entry(text@.subrange(start as int, end as int)) {
            Some(e) => r is Some && r->Some_0@ == e,
            None => r is None,
        },
{
    let ghost line = text@.subrange(start as int, end as int);
    let mut a: usize = start;
    while a < end && is_white_space(text.get_char(a))
        invariant
            start <= a <= end,
            end <= text@.len(),
            line == text@.subrange(start as int, end as int),
            forall|j: int| start <= j < a ==> white_space(#[trigger] text@[j]),
        decreases end - a,
    {
        a = a + 1;
    }
    proof {
        assert forall|j: int| 0 <= j < a - start implies white_space(#[trigger] line[j]) by {
            assert(line[j] == text@[start + j]);
        }
        lemma_trim_start_skip(line, a - start);
        let s1 = line.subrange(a - start, line.len() as int);
        assert(s1 =~= text@.subrange(a as int, end as int));
        if a < end {
            assert(s1[0] == text@[a as int]);
        }
    }
    let mut b: usize = end;
    while b > a && is_white_space(text.get_char(b - 1))
        invariant
            start <= a <= b <= end,
            end <= text@.len(),
            forall|j: int| b <= j < end ==> white_space(#[trigger] text@[j]),
        decreases b - a,
    {
        b = b - 1;
    }
    proof {
        let s1 = text@.subrange(a as int, end as int);
        assert forall|j: int| b - a <= j < s1.len() implies white_space(#[trigger] s1[j]) by {
            assert(s1[j] == text@[a + j]);
        }
        lemma_trim_end_drop(s1, b - a);
        let s2 = s1.subrange(0, b - a);
        assert(s2 =~= text@.subrange(a as int, b as int));
        if b > a {
            assert(s2.last() == text@[b - 1]);
        }
    }
    if a == b {
        return None;
    }
    if text.get_char(a) == '#' {
        return None;
    }
    let t = text.substring_char(a, b);
    Some(String::from_str(t))
}

/// Reads a blacklist text: one identity per line; blank lines and lines
/// that start with `#` are skipped, and surrounding white space is
/// dropped.
pub fn parse_blacklist(text: &str) -> (r: Vec<String>)
    ensures
        r.deep_view() == blacklist_entries(text@),
{
    let n = text.unicode_len();
    let mut out: Vec<String> = Vec::new();
    let mut start: usize = 0;
    let mut i: usize = 0;
    while i < n
        invariant
            n == text@.len(),
            start <= i <= n,
            split_lines(text@.subrange(0, i as int)).1 == text@.subrange(start as int, i as int),
            out.deep_view() == line_entries(split_lines(text@.subrange(0, i as int)).0),
        decreases n - i,
    {
        let c = text.get_char(i);
        proof {
            let next = text@.subrange(0, i + 1);
            assert(next.drop_last() =~= text@.subrange(0, i as int));
            assert(next.last() == c);
        }
        if c == '\n' {
            let e = entry_of(text, start, i);
            let ghost before = out.deep_view();
            match e {
                Some(s) => {
                    out.push(s);
                },
                None => {},
            }
            proof {
                let lines = split_lines(text@.subrange(0, i + 1)).0;
                assert(lines.drop_last() == split_lines(text@.subrange(0, i as int)).0);
                assert(out.deep_view() =~= line_entries(lines));
            }
            start = i + 1;
            assert(split_lines(text@.subrange(0, i + 1)).1 =~= text@.subrange(start as int, i + 1));
        } else {
            assert(split_lines(text@.subrange(0, i + 1)).1 =~= text@.subrange(start as int, i + 1));
        }
        i = i + 1;
    }
    let e = entry_of(text, start, n);
    match e {
        Some(s) => {
            out.push(s);
        },
        None => {},
    }
    proof {
        assert(text@.subrange(0, n as int) =~= text@);
        let (done, open) = split_lines(text@);
        assert(done.push(open).drop_last() =~= done);
        assert(out.deep_view() =~= line_entries(done.push(open)));
    }
    out
}

} // verus!

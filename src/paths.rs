//! Path text: joining, file names, stems and extensions, and the traversal guard.
//!
//! Both `/` and `\` count as separators; joins always insert `/`.
use vstd::prelude::*;

verus! {

pub open spec fn is_sep(c: char) -> bool {
    c == '/' || c == '\\'
}

pub fn is_sep_exec(c: char) -> (r: bool)
    ensures
        r == is_sep(c),
{
    c == '/' || c == '\\'
}

/// Number of separator characters inserted between `base` and a joined segment.
pub open spec fn sep_len(base: Seq<char>) -> int {
    if base.len() == 0 || is_sep(base.last()) { 0 } else { 1 }
}

/// `base` followed by `seg`, with a `/` between them unless `base` is empty or
/// already ends in a separator.
pub open spec fn join(base: Seq<char>, seg: Seq<char>) -> Seq<char> {
    if sep_len(base) == 0 { base + seg } else { base.push('/') + seg }
}

pub fn join_exec(base: &Vec<char>, seg: &Vec<char>) -> (r: Vec<char>)
    ensures
        r@ == join(base@, seg@),
{
    let mut out = base.clone();
    if base.len() > 0 && !is_sep_exec(base[base.len() - 1]) {
        out.push('/');
    }
    crate::text::push_all(&mut out, seg);
    proof {
        assert(out@ =~= join(base@, seg@));
    }
    out
}

/// `s` without its trailing separators.
pub open spec fn trim_trailing_seps(s: Seq<char>) -> Seq<char>
    decreases s.len(),
{
    if s.len() > 0 && is_sep(s.last()) { trim_trailing_seps(s.drop_last()) } else { s }
}

/// One past the position of the last separator of `s`, or 0 when it has none.
pub open spec fn after_last_sep(s: Seq<char>) -> int
    decreases s.len(),
{
    if s.len() == 0 { 0 }
    else if is_sep(s.last()) { s.len() as int }
    else { after_last_sep(s.drop_last()) }
}

/// The final component of a path: its last segment once trailing separators are
/// dropped; none when that segment is empty, `.` or `..`.
pub open spec fn file_name(p: Seq<char>) -> Option<Seq<char>> {
    let t = trim_trailing_seps(p);
    let n = t.subrange(after_last_sep(t), t.len() as int);
    if n.len() == 0 || n == seq!['.'] || n == seq!['.', '.'] { None } else { Some(n) }
}

/// One past the position of the last `.` of `s`, or 0 when it has none.
pub open spec fn after_last_dot(s: Seq<char>) -> int
    decreases s.len(),
{
    if s.len() == 0 { 0 }
    else if s.last() == '.' { s.len() as int }
    else { after_last_dot(s.drop_last()) }
}

/// Whether a file name splits into a stem and an extension: it holds a `.`
/// other than a leading one.
pub open spec fn has_extension(n: Seq<char>) -> bool {
    after_last_dot(n) > 1
}

/// The file name without its extension.
pub open spec fn stem(n: Seq<char>) -> Seq<char> {
    if has_extension(n) { n.subrange(0, after_last_dot(n) - 1) } else { n }
}

/// The text after the last non-leading `.` of the file name, if any.
pub open spec fn extension(n: Seq<char>) -> Option<Seq<char>> {
    if has_extension(n) { Some(n.subrange(after_last_dot(n), n.len() as int)) } else { None }
}

proof fn lemma_after_last_sep_bounds(s: Seq<char>)
    ensures
        0 <= after_last_sep(s) <= s.len(),
    decreases s.len(),
{
    if s.len() > 0 && !is_sep(s.last()) {
        lemma_after_last_sep_bounds(s.drop_last());
    }
}

proof fn lemma_after_last_dot_bounds(s: Seq<char>)
    ensures
        0 <= after_last_dot(s) <= s.len(),
    decreases s.len(),
{
    if s.len() > 0 && s.last() != '.' {
        lemma_after_last_dot_bounds(s.drop_last());
    }
}

fn trimmed_len(p: &Vec<char>) -> (r: usize)
    ensures
        r <= p@.len(),
        p@.subrange(0, r as int) == trim_trailing_seps(p@),
{
    let mut i: usize = p.len();
    proof {
        assert(p@.subrange(0, p@.len() as int) =~= p@);
    }
    while i > 0 && is_sep_exec(p[i - 1])
        invariant
            i <= p@.len(),
            trim_trailing_seps(p@.subrange(0, i as int)) == trim_trailing_seps(p@),
        decreases i,
    {
        proof {
            assert(p@.subrange(0, i as int).drop_last() =~= p@.subrange(0, i - 1));
        }
        i = i - 1;
    }
    proof {
        assert(p@.subrange(0, p@.len() as int) =~= p@);
    }
    i
}

fn after_last_sep_exec(s: &Vec<char>, end: usize) -> (r: usize)
    requires
        end <= s@.len(),
    ensures
        r as int == after_last_sep(s@.subrange(0, end as int)),
{
    let mut i: usize = end;
    while i > 0 && !is_sep_exec(s[i - 1])
        invariant
            i <= end,
            end <= s@.len(),
            after_last_sep(s@.subrange(0, i as int)) == after_last_sep(s@.subrange(0, end as int)),
        decreases i,
    {
        proof {
            assert(s@.subrange(0, i as int).drop_last() =~= s@.subrange(0, i - 1));
        }
        i = i - 1;
    }
    i
}

fn after_last_dot_exec(s: &Vec<char>) -> (r: usize)
    ensures
        r as int == after_last_dot(s@),
{
    let mut i: usize = s.len();
    proof {
        assert(s@.subrange(0, s@.len() as int) =~= s@);
    }
    while i > 0 && s[i - 1] != '.'
        invariant
            i <= s@.len(),
            after_last_dot(s@.subrange(0, i as int)) == after_last_dot(s@),
        decreases i,
    {
        proof {
            assert(s@.subrange(0, i as int).drop_last() =~= s@.subrange(0, i - 1));
        }
        i = i - 1;
    }
    proof {
        assert(s@.subrange(0, s@.len() as int) =~= s@);
    }
    i
}

pub(crate) fn copy_range(s: &Vec<char>, from: usize, to: usize) -> (r: Vec<char>)
    requires
        from <= to <= s@.len(),
    ensures
        r@ == s@.subrange(from as int, to as int),
{
    let mut out: Vec<char> = Vec::new();
    let mut i: usize = from;
    while i < to
        invariant
            from <= i <= to,
            to <= s@.len(),
            out@ == s@.subrange(from as int, i as int),
        decreases to - i,
    {
        out.push(s[i]);
        i = i + 1;
        proof {
            assert(out@ =~= s@.subrange(from as int, i as int));
        }
    }
    out
}

/// The final component of path `p` (see `file_name`).
pub fn file_name_exec(p: &Vec<char>) -> (r: Option<Vec<char>>)
    ensures
        match r {
            Some(n) => file_name(p@) == Some(n@),
            None => file_name(p@) is None,
        },
{
    let end = trimmed_len(p);
    let start = after_last_sep_exec(p, end);
    proof {
        lemma_after_last_sep_bounds(p@.subrange(0, end as int));
    }
    let n = copy_range(p, start, end);
    proof {
        assert(n@ =~= trim_trailing_seps(p@).subrange(start as int, end as int));
    }
    if n.len() == 0 || (n.len() == 1 && n[0] == '.') || (n.len() == 2 && n[0] == '.' && n[1] == '.') {
        proof {
            if n@.len() == 1 { assert(n@ =~= seq!['.']); }
            if n@.len() == 2 { assert(n@ =~= seq!['.', '.']); }
        }
        None
    } else {
        proof {
            if n@ == seq!['.'] || n@ == seq!['.', '.'] {
                assert(n@[0] == '.');
                assert(n@.len() == 2 ==> n@[1] == '.');
            }
        }
        Some(n)
    }
}

/// Splits a file name into its stem and extension.
pub fn split_name(n: &Vec<char>) -> (r: (Vec<char>, Option<Vec<char>>))
    ensures
        r.0@ == stem(n@),
        match r.1 {
            Some(e) => extension(n@) == Some(e@),
            None => extension(n@) is None,
        },
{
    let d = after_last_dot_exec(n);
    proof {
        lemma_after_last_dot_bounds(n@);
    }
    if d > 1 {
        (copy_range(n, 0, d - 1), Some(copy_range(n, d, n.len())))
    } else {
        (n.clone(), None)
    }
}

/// A single path segment: not empty, no separator, not `.` or `..`.
pub open spec fn is_plain_name(n: Seq<char>) -> bool {
    &&& n.len() > 0
    &&& forall|i: int| 0 <= i < n.len() ==> !is_sep(#[trigger] n[i])
    &&& n != seq!['.']
    &&& n != seq!['.', '.']
}

proof fn lemma_after_last_sep_append(p: Seq<char>, n: Seq<char>)
    requires
        p.len() == 0 || is_sep(p.last()),
        forall|i: int| 0 <= i < n.len() ==> !is_sep(#[trigger] n[i]),
    ensures
        after_last_sep(p + n) == p.len(),
    decreases n.len(),
{
    if n.len() > 0 {
        assert((p + n).drop_last() =~= p + n.drop_last());
        assert((p + n).last() == n[n.len() - 1]);
        lemma_after_last_sep_append(p, n.drop_last());
    } else {
        assert(p + n =~= p);
        if p.len() > 0 {
            assert(after_last_sep(p) == p.len());
        }
    }
}

/// The file name of a plain name joined to any root is that name.
pub proof fn lemma_file_name_of_join(root: Seq<char>, n: Seq<char>)
    requires
        is_plain_name(n),
    ensures
        file_name(join(root, n)) == Some(n),
{
    let j = join(root, n);
    let p = if sep_len(root) == 0 { root } else { root.push('/') };
    assert(j =~= p + n);
    assert(!is_sep(j.last())) by {
        assert(j.last() == n[n.len() - 1]);
    }
    assert(trim_trailing_seps(j) == j);
    lemma_after_last_sep_append(p, n);
    assert(j.subrange(p.len() as int, j.len() as int) =~= n);
}

/// Whether a `..` segment starts at position `i` of `n`.
pub open spec fn parent_at(n: Seq<char>, i: int) -> bool {
    &&& 0 <= i && i + 2 <= n.len()
    &&& n[i] == '.' && n[i + 1] == '.'
    &&& i == 0 || is_sep(n[i - 1])
    &&& i + 2 == n.len() || is_sep(n[i + 2])
}

pub open spec fn has_parent_segment(n: Seq<char>) -> bool {
    exists|i: int| parent_at(n, i)
}

/// Whether `n` starts with a drive prefix: an ASCII letter and `:`.
pub open spec fn has_drive_prefix(n: Seq<char>) -> bool {
    n.len() >= 2 && (('a' <= n[0] && n[0] <= 'z') || ('A' <= n[0] && n[0] <= 'Z')) && n[1] == ':'
}

/// A relative path that cannot leave the directory it is joined to: not empty,
/// not rooted, no drive prefix, no NUL, and no `..` segment.
pub open spec fn is_safe_relative(n: Seq<char>) -> bool {
    &&& n.len() > 0
    &&& !is_sep(n[0])
    &&& !has_drive_prefix(n)
    &&& forall|i: int| 0 <= i < n.len() ==> n[i] != '\0'
    &&& !has_parent_segment(n)
}

/// Whether `cand` names a descendant of `root`: `root`, then the separator
/// that `join` would insert, then a safe relative path.
pub open spec fn within(root: Seq<char>, cand: Seq<char>) -> bool {
    let k = root.len() + sep_len(root);
    &&& cand.len() >= k
    &&& cand.subrange(0, root.len() as int) == root
    &&& sep_len(root) == 1 ==> is_sep(cand[root.len() as int])
    &&& is_safe_relative(cand.subrange(k, cand.len() as int))
}

/// Joining a safe relative path to a root yields a descendant of that root.
pub proof fn lemma_join_within(root: Seq<char>, n: Seq<char>)
    requires
        is_safe_relative(n),
    ensures
        within(root, join(root, n)),
{
    let j = join(root, n);
    let k = root.len() + sep_len(root);
    if sep_len(root) == 0 {
        assert(j.subrange(0, root.len() as int) =~= root);
        assert(j.subrange(k, j.len() as int) =~= n);
    } else {
        assert(j.subrange(0, root.len() as int) =~= root);
        assert(j.subrange(k, j.len() as int) =~= n);
    }
}

/// Checks `is_safe_relative`.
pub fn is_safe_relative_exec(n: &Vec<char>) -> (r: bool)
    ensures
        r == is_safe_relative(n@),
{
    let len = n.len();
    if len == 0 || is_sep_exec(n[0]) {
        return false;
    }
    if len >= 2 && (('a' <= n[0] && n[0] <= 'z') || ('A' <= n[0] && n[0] <= 'Z')) && n[1] == ':' {
        return false;
    }
    let mut i: usize = 0;
    while i < len
        invariant
            len == n@.len(),
            i <= len,
            forall|k: int| 0 <= k < i ==> n@[k] != '\0',
            forall|k: int| 0 <= k < i ==> !parent_at(n@, k),
        decreases len - i,
    {
        let c = n[i];
        if c == '\0' {
            return false;
        }
        if c == '.' && i + 1 < len && n[i + 1] == '.' && (i == 0 || is_sep_exec(n[i - 1]))
            && (i + 2 == len || is_sep_exec(n[i + 2])) {
            assert(parent_at(n@, i as int));
            return false;
        }
        i = i + 1;
    }
    proof {
        assert forall|k: int| !parent_at(n@, k) by {
            if 0 <= k < len {
            }
        }
    }
    true
}

/// Whether `candidate` lies under `root` (see `within`): the one check that
/// decides which archive entries may be written.
pub fn is_within(root: &str, candidate: &str) -> (r: bool)
    ensures
        r == within(root@, candidate@),
{
    let rt = crate::text::chars_of(root);
    let c = crate::text::chars_of(candidate);
    let rl = rt.len();
    let sl: usize = if rl == 0 || is_sep_exec(rt[rl - 1]) { 0 } else { 1 };
    if c.len() < rl || c.len() - rl < sl {
        return false;
    }
    let mut i: usize = 0;
    while i < rl
        invariant
            rl == rt@.len(),
            rt@ == root@,
            c@ == candidate@,
            rl <= c@.len(),
            i <= rl,
            forall|k: int| 0 <= k < i ==> c@[k] == rt@[k],
        decreases rl - i,
    {
        if c[i] != rt[i] {
            proof {
                assert(c@.subrange(0, rl as int)[i as int] == c@[i as int]);
                assert(c@.subrange(0, rl as int) != rt@);
            }
            return false;
        }
        i = i + 1;
    }
    assert(c@.subrange(0, rl as int) =~= rt@);
    if sl == 1 && !is_sep_exec(c[rl]) {
        return false;
    }
    let rest = copy_range(&c, rl + sl, c.len());
    is_safe_relative_exec(&rest)
}

} // verus!

use vstd::prelude::*;
use vstd::string::*;

verus! {

/// The last component of a slash-separated path: what follows the last `/`.
pub open spec fn base_name(s: Seq<char>) -> Seq<char>
    decreases s.len(),
{
    if s.len() == 0 {
        s
    } else if s.last() == '/' {
        Seq::empty()
    } else {
        base_name(s.drop_last()).push(s.last())
    }
}

/// A path without what adds no component at its end: trailing slashes and
/// trailing `/.` segments.
pub open spec fn strip_tail(s: Seq<char>) -> Seq<char>
    decreases s.len(),
{
    if s.len() > 0 && s.last() == '/' {
        strip_tail(s.drop_last())
    } else if s.len() >= 2 && s.last() == '.' && s[s.len() - 2] == '/' {
        strip_tail(s.drop_last())
    } else {
        s
    }
}

/// The name of the file a path leads to: its last component, or nothing when
/// that is empty, `.` or `..` (the path ends at a root or names a directory
/// by reference).
pub open spec fn path_file_name(s: Seq<char>) -> Option<Seq<char>> {
    let b = base_name(strip_tail(s));
    if b.len() == 0 || b == seq!['.'] || b == seq!['.', '.'] {
        None
    } else {
        Some(b)
    }
}

/// Everything before the last component, up to and including the last `/`.
pub open spec fn dir_part(s: Seq<char>) -> Seq<char> {
    s.subrange(0, s.len() - base_name(s).len())
}

/// The name of the directory that holds the entry `p` names; `.` segments
/// name no directory of their own and are passed over.
pub open spec fn parent_name(p: Seq<char>) -> Seq<char> {
    base_name(strip_tail(dir_part(strip_tail(p))))
}

/// `rel` placed under the directory `dir`, with exactly one `/` between them.
pub open spec fn join(dir: Seq<char>, rel: Seq<char>) -> Seq<char> {
    if dir.len() == 0 {
        rel
    } else if dir.last() == '/' {
        dir + rel
    } else {
        dir + seq!['/'] + rel
    }
}

proof fn lemma_base_name_len(s: Seq<char>)
    ensures
        base_name(s).len() <= s.len(),
        base_name(s) == s.subrange(s.len() - base_name(s).len(), s.len() as int),
    decreases s.len(),
{
    if s.len() > 0 && s.last() != '/' {
        lemma_base_name_len(s.drop_last());
        assert(base_name(s) =~= s.subrange(s.len() - base_name(s).len(), s.len() as int));
    } else if s.len() > 0 {
        assert(base_name(s) =~= s.subrange(s.len() as int, s.len() as int));
    } else {
        assert(base_name(s) =~= s.subrange(0, 0));
    }
}

/// Joining puts `dir` first and `rel` last, with at most one `/` added
/// between them; nothing else enters the result.
pub proof fn lemma_join_composes(dir: Seq<char>, rel: Seq<char>)
    ensures
        join(dir, rel) == dir + rel || join(dir, rel) == dir + seq!['/'] + rel,
        join(dir, rel).subrange(0, dir.len() as int) == dir,
        join(dir, rel).subrange(join(dir, rel).len() - rel.len(), join(dir, rel).len() as int) == rel,
{
    if dir.len() == 0 {
        assert(dir + rel =~= rel);
    }
    assert(join(dir, rel).subrange(0, dir.len() as int) =~= dir);
    assert(join(dir, rel).subrange(join(dir, rel).len() - rel.len(), join(dir, rel).len() as int) =~= rel);
}

/// The file name of a path is its last component, whatever directory
/// precedes it, as long as that component is a proper name.
pub proof fn lemma_file_name_ignores_dir(dir: Seq<char>, name: Seq<char>)
    requires
        name.len() > 0,
        name != seq!['.'],
        name != seq!['.', '.'],
        forall|i: int| 0 <= i < name.len() ==> name[i] != '/',
    ensures
        path_file_name(dir + seq!['/'] + name) == Some(name),
{
    let p = dir + seq!['/'] + name;
    assert(p.last() == name.last());
    assert(p[p.len() - 2] == if name.len() >= 2 { name[name.len() - 2] } else { '/' });
    if name.len() < 2 {
        assert(name.last() != '.') by {
            if name.last() == '.' {
                assert(name =~= seq!['.']);
            }
        }
    }
    assert(strip_tail(p) == p);
    lemma_base_name_ignores_dir(dir, name);
}

proof fn lemma_base_name_ignores_dir(dir: Seq<char>, name: Seq<char>)
    requires
        forall|i: int| 0 <= i < name.len() ==> name[i] != '/',
    ensures
        base_name(dir + seq!['/'] + name) == name,
    decreases name.len(),
{
    if name.len() == 0 {
        assert(dir + seq!['/'] + name =~= dir.push('/'));
        assert(dir.push('/').last() == '/');
    } else {
        let shorter = name.drop_last();
        lemma_base_name_ignores_dir(dir, shorter);
        assert((dir + seq!['/'] + name).drop_last() =~= dir + seq!['/'] + shorter);
        assert(shorter.push(name.last()) =~= name);
    }
}

/// Position just past the last `/` of `s`, or 0 when it holds none.
fn base_start(s: &str) -> (r: usize)
    ensures
        r <= s@.len(),
        s@.subrange(r as int, s@.len() as int) == base_name(s@),
{
    let n = s.unicode_len();
    let mut start: usize = 0;
    let mut i: usize = 0;
    while i < n
        invariant
            n == s@.len(),
            start <= i <= n,
            base_name(s@.subrange(0, i as int)) == s@.subrange(start as int, i as int),
        decreases n - i,
    {
        let c = s.get_char(i);
        let ghost pre = s@.subrange(0, i as int);
        let ghost next = s@.subrange(0, i + 1);
        assert(next.drop_last() =~= pre);
        if c == '/' {
            start = i + 1;
            assert(base_name(next) =~= s@.subrange(start as int, i + 1));
        } else {
            assert(base_name(next) =~= s@.subrange(start as int, i + 1));
        }
        i = i + 1;
    }
    assert(s@.subrange(0, n as int) =~= s@);
    start
}

/// What follows the last `/` of `path`.
fn last_component(path: &str) -> (r: String)
    ensures
        r@ == base_name(path@),
{
    let start = base_start(path);
    let n = path.unicode_len();
    String::from_str(path.substring_char(start, n))
}

/// The name of the file `path` leads to, if its last component is a proper name.
pub fn file_name(path: &str) -> (r: Option<String>)
    ensures
        r matches Some(n) ==> path_file_name(path@) == Some(n@),
        r is None <==> path_file_name(path@) is None,
{
    let stripped_owned = strip_trailing(path);
    let stripped = stripped_owned.as_str();
    let start = base_start(stripped);
    let n = stripped.unicode_len();
    let base = stripped.substring_char(start, n);
    let len = n - start;
    if len == 0 {
        return None;
    }
    if base.get_char(0) == '.' && (len == 1 || (len == 2 && base.get_char(1) == '.')) {
        assert(base@ =~= seq!['.'] || base@ =~= seq!['.', '.']);
        return None;
    }
    assert(base@ != seq!['.']);
    assert(base@ != seq!['.', '.']);
    Some(String::from_str(base))
}

/// `path` without trailing slashes and trailing `/.` segments.
pub fn strip_trailing(path: &str) -> (r: String)
    ensures
        r@ == strip_tail(path@),
{
    let mut end = path.unicode_len();
    assert(path@.subrange(0, end as int) =~= path@);
    while end > 0 && (path.get_char(end - 1) == '/' || (end >= 2 && path.get_char(end - 1) == '.'
        && path.get_char(end - 2) == '/'))
        invariant
            end <= path@.len(),
            strip_tail(path@) == strip_tail(path@.subrange(0, end as int)),
        decreases end,
    {
        assert(path@.subrange(0, end as int).drop_last() =~= path@.subrange(0, end - 1));
        end = end - 1;
    }
    String::from_str(path.substring_char(0, end))
}

/// The name of the directory that holds the entry `path` names; `.`
/// segments are passed over.
pub fn parent_dir_name(path: &str) -> (r: String)
    ensures
        r@ == parent_name(path@),
{
    let trimmed = strip_trailing(path);
    let start = base_start(trimmed.as_str());
    proof {
        lemma_base_name_len(trimmed@);
    }
    let dir = trimmed.as_str().substring_char(0, start);
    assert(dir@ =~= dir_part(trimmed@));
    let dir_trimmed = strip_trailing(dir);
    last_component(dir_trimmed.as_str())
}

/// `rel` placed under the directory `dir`, with exactly one `/` between them.
pub fn join_path(dir: &str, rel: &str) -> (r: String)
    ensures
        r@ == join(dir@, rel@),
{
    let n = dir.unicode_len();
    let mut r = String::from_str(dir);
    if n > 0 && dir.get_char(n - 1) != '/' {
        proof {
            reveal_strlit("/");
        }
        r.append("/");
    }
    r.append(rel);
    r
}

} // verus!

//! Classification of filesystem paths into accepted photo files.
//!
//! A path names an accepted photo exactly when the extension of its file
//! name is one of `png`, `jpg`, `jpeg` (exact, case-sensitive match).
//! Only the extension governs acceptance; the directory prefix is
//! irrelevant.

use vstd::prelude::*;

verus! {

/// True for the characters that separate path components.
pub open spec fn is_sep(c: char) -> bool {
    c == '/' || c == '\\'
}

/// Index at which the file name of `s` begins: one past the last
/// separator, or 0 when `s` holds no separator.
pub open spec fn name_start(s: Seq<char>) -> int
    decreases s.len(),
{
    if s.len() == 0 {
        0
    } else if is_sep(s[s.len() - 1]) {
        s.len() as int
    } else {
        name_start(s.drop_last())
    }
}

/// Index of the last `'.'` in `s`, or -1 when `s` holds none.
pub open spec fn last_dot(s: Seq<char>) -> int
    decreases s.len(),
{
    if s.len() == 0 {
        -1
    } else if s[s.len() - 1] == '.' {
        s.len() - 1
    } else {
        last_dot(s.drop_last())
    }
}

/// The extension of the file name of `s`: the part after the final dot
/// of the file name, provided that dot is not the file name's first
/// character (a file name that is nothing but `.ext` has no extension).
pub open spec fn path_extension(s: Seq<char>) -> Option<Seq<char>> {
    if last_dot(s) > name_start(s) {
        Some(s.subrange(last_dot(s) + 1, s.len() as int))
    } else {
        None
    }
}

/// True when `ext` is one of the photo extensions the watcher accepts.
pub open spec fn is_accepted_extension(ext: Seq<char>) -> bool {
    ext == "png"@ || ext == "jpg"@ || ext == "jpeg"@
}

/// True when the path names an accepted photo file.
pub open spec fn path_accepted(s: Seq<char>) -> bool {
    match path_extension(s) {
        Some(ext) => is_accepted_extension(ext),
        None => false,
    }
}

proof fn lemma_name_start_bounds(s: Seq<char>)
    ensures
        0 <= name_start(s) <= s.len(),
    decreases s.len(),
{
    if s.len() > 0 && !is_sep(s[s.len() - 1]) {
        lemma_name_start_bounds(s.drop_last());
    }
}

proof fn lemma_last_dot_bounds(s: Seq<char>)
    ensures
        -1 <= last_dot(s) < s.len(),
    decreases s.len(),
{
    if s.len() > 0 && s[s.len() - 1] != '.' {
        lemma_last_dot_bounds(s.drop_last());
    }
}

proof fn lemma_name_start_after_sep(s: Seq<char>, k: int)
    requires
        0 <= k < s.len(),
        is_sep(s[k]),
        forall|j: int| k < j < s.len() ==> !is_sep(#[trigger] s[j]),
    ensures
        name_start(s) == k + 1,
    decreases s.len(),
{
    if k == s.len() - 1 {
    } else {
        assert(s.drop_last()[k] == s[k]);
        lemma_name_start_after_sep(s.drop_last(), k);
    }
}

proof fn lemma_name_start_no_sep(s: Seq<char>, k: int)
    requires
        -1 <= k < s.len(),
        forall|j: int| k < j < s.len() ==> !is_sep(#[trigger] s[j]),
    ensures
        name_start(s) <= k + 1,
    decreases s.len(),
{
    lemma_name_start_bounds(s);
    if s.len() == 0 {
    } else if k == s.len() - 1 {
    } else {
        lemma_name_start_no_sep(s.drop_last(), k);
    }
}

proof fn lemma_last_dot_at(s: Seq<char>, k: int)
    requires
        0 <= k < s.len(),
        s[k] == '.',
        forall|j: int| k < j < s.len() ==> #[trigger] s[j] != '.',
    ensures
        last_dot(s) == k,
    decreases s.len(),
{
    if k == s.len() - 1 {
    } else {
        assert(s.drop_last()[k] == s[k]);
        lemma_last_dot_at(s.drop_last(), k);
    }
}

proof fn lemma_last_dot_below(s: Seq<char>, k: int)
    requires
        -1 <= k < s.len(),
        forall|j: int| k < j < s.len() ==> #[trigger] s[j] != '.',
    ensures
        last_dot(s) <= k,
    decreases s.len(),
{
    lemma_last_dot_bounds(s);
    if s.len() == 0 {
    } else if k == s.len() - 1 {
    } else {
        lemma_last_dot_below(s.drop_last(), k);
    }
}

/// Decides whether `path` names an accepted photo file.
pub fn is_accepted_photo_path(path: &str) -> (accepted: bool)
    ensures
        accepted == path_accepted(path@),
{
    let n = path.unicode_len();
    let mut idx = n;
    let mut dot_idx: usize = 0;
    let mut has_dot = false;
    let mut start: usize = 0;
    loop
        invariant_except_break
            start == 0,
            forall|j: int| idx <= j < n ==> !is_sep(#[trigger] path@[j]),
        invariant
            n == path@.len(),
            idx <= n,
            has_dot ==> idx <= dot_idx < n && path@[dot_idx as int] == '.',
            has_dot ==> forall|j: int| dot_idx < j < n ==> #[trigger] path@[j] != '.',
            !has_dot ==> forall|j: int| idx <= j < n ==> #[trigger] path@[j] != '.',
        ensures
            start <= n,
            start == 0 ==> forall|j: int| 0 <= j < n ==> !is_sep(#[trigger] path@[j]),
            start > 0 ==> is_sep(path@[start - 1]) && forall|j: int|
                start <= j < n ==> !is_sep(#[trigger] path@[j]),
            has_dot ==> start <= dot_idx < n && path@[dot_idx as int] == '.',
            has_dot ==> forall|j: int| dot_idx < j < n ==> #[trigger] path@[j] != '.',
            !has_dot ==> forall|j: int| start <= j < n ==> #[trigger] path@[j] != '.',
        decreases idx,
    {
        if idx == 0 {
            break;
        }
        idx = idx - 1;
        let c = path.get_char(idx);
        if c == '/' || c == '\\' {
            start = idx + 1;
            break;
        }
        if !has_dot && c == '.' {
            has_dot = true;
            dot_idx = idx;
        }
    }
    proof {
        if start > 0 {
            lemma_name_start_after_sep(path@, start - 1);
        } else {
            lemma_name_start_no_sep(path@, -1);
            lemma_name_start_bounds(path@);
            assert(name_start(path@) == 0);
        }
        if has_dot {
            lemma_last_dot_at(path@, dot_idx as int);
        } else {
            lemma_last_dot_below(path@, start as int - 1);
        }
    }
    if !has_dot || dot_idx < start || dot_idx == start {
        assert(!(last_dot(path@) > name_start(path@)));
        return false;
    }
    let ext_start = dot_idx + 1;
    let ext_len = n - ext_start;
    let ghost ext = path@.subrange(ext_start as int, n as int);
    proof {
        reveal_strlit("png");
        reveal_strlit("jpg");
        reveal_strlit("jpeg");
    }
    proof {
        assert(ext.len() == ext_len as int);
    }
    if ext_len == 3 {
        let c0 = path.get_char(ext_start);
        let c1 = path.get_char(ext_start + 1);
        let c2 = path.get_char(ext_start + 2);
        proof {
            assert(ext[0] == c0 && ext[1] == c1 && ext[2] == c2);
        }
        if c0 == 'p' && c1 == 'n' && c2 == 'g' {
            assert(ext =~= "png"@);
            true
        } else if c0 == 'j' && c1 == 'p' && c2 == 'g' {
            assert(ext =~= "jpg"@);
            true
        } else {
            assert(ext != "png"@ && ext != "jpg"@ && ext != "jpeg"@);
            false
        }
    } else if ext_len == 4 {
        let c0 = path.get_char(ext_start);
        let c1 = path.get_char(ext_start + 1);
        let c2 = path.get_char(ext_start + 2);
        let c3 = path.get_char(ext_start + 3);
        proof {
            assert(ext[0] == c0 && ext[1] == c1 && ext[2] == c2 && ext[3] == c3);
        }
        if c0 == 'j' && c1 == 'p' && c2 == 'e' && c3 == 'g' {
            assert(ext =~= "jpeg"@);
            true
        } else {
            assert(ext != "png"@ && ext != "jpg"@ && ext != "jpeg"@);
            false
        }
    } else {
        assert(ext != "png"@ && ext != "jpg"@ && ext != "jpeg"@);
        false
    }
}

proof fn lemma_name_start_concat(dir: Seq<char>, name: Seq<char>)
    requires
        dir.len() == 0 || is_sep(dir[dir.len() - 1]),
        forall|j: int| 0 <= j < name.len() ==> !is_sep(#[trigger] name[j]),
    ensures
        name_start(dir + name) == dir.len(),
    decreases name.len(),
{
    if name.len() == 0 {
        assert(dir + name =~= dir);
    } else {
        assert((dir + name).drop_last() =~= dir + name.drop_last());
        lemma_name_start_concat(dir, name.drop_last());
    }
}

proof fn lemma_last_dot_concat(dir: Seq<char>, name: Seq<char>)
    ensures
        last_dot(name) >= 0 ==> last_dot(dir + name) == dir.len() + last_dot(name),
        last_dot(name) < 0 ==> last_dot(dir + name) == last_dot(dir),
    decreases name.len(),
{
    if name.len() == 0 {
        assert(dir + name =~= dir);
    } else {
        assert((dir + name).drop_last() =~= dir + name.drop_last());
        lemma_last_dot_concat(dir, name.drop_last());
    }
}

/// Only the file name decides acceptance: a path whose directory prefix is
/// exchanged for any other (for example the same prefix in a different
/// casing) is classified exactly as before.
pub proof fn lemma_acceptance_ignores_prefix(d1: Seq<char>, d2: Seq<char>, name: Seq<char>)
    requires
        d1.len() == 0 || is_sep(d1[d1.len() - 1]),
        d2.len() == 0 || is_sep(d2[d2.len() - 1]),
        forall|j: int| 0 <= j < name.len() ==> !is_sep(#[trigger] name[j]),
    ensures
        path_accepted(d1 + name) == path_accepted(d2 + name),
{
    lemma_prefix_extension(d1, name);
    lemma_prefix_extension(d2, name);
}

proof fn lemma_prefix_extension(dir: Seq<char>, name: Seq<char>)
    requires
        dir.len() == 0 || is_sep(dir[dir.len() - 1]),
        forall|j: int| 0 <= j < name.len() ==> !is_sep(#[trigger] name[j]),
    ensures
        last_dot(name) > 0 ==> path_extension(dir + name) == Some(
            name.subrange(last_dot(name) + 1, name.len() as int),
        ),
        last_dot(name) <= 0 ==> path_extension(dir + name) is None,
{
    let s = dir + name;
    lemma_name_start_concat(dir, name);
    lemma_last_dot_concat(dir, name);
    lemma_last_dot_bounds(name);
    if last_dot(name) > 0 {
        assert(s.subrange(dir.len() + last_dot(name) + 1, s.len() as int) =~= name.subrange(
            last_dot(name) + 1,
            name.len() as int,
        ));
    } else if last_dot(name) < 0 {
        if dir.len() > 0 {
            lemma_last_dot_below(dir, dir.len() - 1);
        }
        assert(last_dot(s) <= name_start(s));
    }
}

/// The kind of a filesystem notification, as far as the watcher cares.
#[derive(Clone, Copy, Debug, PartialEq, Eq, Structural)]
pub enum WatchEventKind {
    /// A file or directory was created.
    Create,
    /// An existing file or directory was modified.
    Modify,
    /// A file or directory was removed.
    Remove,
    /// Any other kind of notification.
    Other,
}

/// The subsequence of `paths` that names accepted photo files, in order.
pub open spec fn accepted_paths(paths: Seq<Seq<char>>) -> Seq<Seq<char>>
    decreases paths.len(),
{
    if paths.len() == 0 {
        Seq::empty()
    } else if path_accepted(paths.last()) {
        accepted_paths(paths.drop_last()).push(paths.last())
    } else {
        accepted_paths(paths.drop_last())
    }
}

/// Filters one filesystem notification down to the photo paths the
/// watcher forwards: creation events contribute their accepted paths in
/// order, every other kind of event is ignored entirely.
pub fn filter_event_paths(kind: WatchEventKind, event_paths: &Vec<String>) -> (r: Vec<String>)
    ensures
        kind is Create ==> r.deep_view() == accepted_paths(event_paths.deep_view()),
        !(kind is Create) ==> r@.len() == 0,
{
    let mut r: Vec<String> = Vec::new();
    if !matches!(kind, WatchEventKind::Create) {
        return r;
    }
    let mut i: usize = 0;
    while i < event_paths.len()
        invariant
            i <= event_paths@.len(),
            r.deep_view() == accepted_paths(event_paths.deep_view().take(i as int)),
        decreases event_paths@.len() - i,
    {
        let ghost prefix = event_paths.deep_view().take(i as int);
        let ghost next = event_paths.deep_view().take(i + 1 as int);
        proof {
            assert(next.drop_last() =~= prefix);
            assert(next.last() == event_paths.deep_view()[i as int]);
        }
        if is_accepted_photo_path(&event_paths[i]) {
            r.push(event_paths[i].clone());
        }
        i = i + 1;
    }
    proof {
        assert(event_paths.deep_view().take(event_paths@.len() as int) =~= event_paths.deep_view());
    }
    r
}

} // verus!

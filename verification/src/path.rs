use vstd::prelude::*;

verus! {

/// Whether a character separates the components of a Windows path. In a
/// verbatim path (one that starts with `\\?\`) only `\` does.
pub open spec fn is_separator(c: char, verbatim: bool) -> bool {
    c == '\\' || (!verbatim && c == '/')
}

/// Whether a character is an ASCII letter, as a drive is named.
pub open spec fn is_drive_letter(c: char) -> bool {
    ('A' <= c && c <= 'Z') || ('a' <= c && c <= 'z')
}

/// The length of the component at the start of `path`: up to its first separator.
pub open spec fn first_separator(path: Seq<char>, verbatim: bool) -> int
    decreases path.len(),
{
    if path.len() == 0 {
        0
    } else if is_separator(path[0], verbatim) {
        0
    } else {
        1 + first_separator(path.drop_first(), verbatim)
    }
}

/// What follows the component at the start of `path` and the separator after it.
pub open spec fn after_first_component(path: Seq<char>, verbatim: bool) -> Seq<char> {
    let n = first_separator(path, verbatim);
    if n < path.len() {
        path.skip(n + 1)
    } else {
        Seq::empty()
    }
}

/// The length of a `server\share` pair at the start of `path`; the share and the
/// separator before it count only when the share is not empty.
pub open spec fn server_share_len(path: Seq<char>, verbatim: bool) -> int {
    let server = first_separator(path, verbatim);
    let share = first_separator(after_first_component(path, verbatim), verbatim);
    server + if share > 0 {
        1 + share
    } else {
        0
    }
}

/// Whether `path` starts with the four characters `\\?\`.
pub open spec fn starts_verbatim(path: Seq<char>) -> bool {
    path.len() >= 4 && path[0] == '\\' && path[1] == '\\' && path[2] == '?' && path[3] == '\\'
}

/// The prefix of a Windows path, as `std::path::Prefix` lists its kinds: its
/// length, and whether it makes the path verbatim.
/// `\\?\UNC\server\share`, `\\?\C:`, `\\?\name` are verbatim; `\\.\name` (a
/// device), `\\server\share` (with both parts named) and `C:` are not; any other
/// path has no prefix.
pub open spec fn path_prefix(path: Seq<char>) -> (int, bool) {
    if path.len() >= 2 && is_separator(path[0], false) && is_separator(path[1], false) {
        if starts_verbatim(path) {
            let rest = path.skip(4);
            if rest.len() >= 4 && rest[0] == 'U' && rest[1] == 'N' && rest[2] == 'C' && is_separator(
                rest[3],
                false,
            ) {
                (8 + server_share_len(path.skip(8), true), true)
            } else if rest.len() >= 2 && is_drive_letter(rest[0]) && rest[1] == ':' && (rest.len()
                == 2 || is_separator(rest[2], false)) {
                (6, true)
            } else {
                (4 + first_separator(rest, true), true)
            }
        } else if path.len() >= 4 && path[2] == '.' && is_separator(path[3], false) {
            (4 + first_separator(path.skip(4), false), false)
        } else {
            let rest = path.skip(2);
            let server = first_separator(rest, false);
            let share = first_separator(after_first_component(rest, false), false);
            if server > 0 && share > 0 {
                (2 + server + 1 + share, false)
            } else {
                (0, false)
            }
        }
    } else if path.len() >= 2 && is_drive_letter(path[0]) && path[1] == ':' {
        (2, false)
    } else {
        (0, false)
    }
}

/// Where the last component of `path` starts: just after its last separator, or
/// at 0 when it has none.
pub open spec fn last_component_start(path: Seq<char>, verbatim: bool) -> int
    decreases path.len(),
{
    if path.len() == 0 {
        0
    } else if is_separator(path.last(), verbatim) {
        path.len() as int
    } else {
        last_component_start(path.drop_last(), verbatim)
    }
}

/// The last component starts within the path, just after a separator when it
/// does not start at 0.
pub proof fn lemma_last_component_start_bounds(path: Seq<char>, verbatim: bool)
    ensures
        0 <= last_component_start(path, verbatim) <= path.len(),
        last_component_start(path, verbatim) > 0 ==> is_separator(
            path[last_component_start(path, verbatim) - 1],
            verbatim,
        ),
    decreases path.len(),
{
    if path.len() > 0 && !is_separator(path.last(), verbatim) {
        lemma_last_component_start_bounds(path.drop_last(), verbatim);
    }
}

/// The name of the last component of what follows a path's prefix: separators
/// at the end are passed over, and so are `.` components of a path that is not
/// verbatim; there is no name when nothing is left, when the last component is
/// `..`, or when it is `.` in a verbatim path.
pub open spec fn name_of_last_component(path: Seq<char>, verbatim: bool) -> Option<Seq<char>>
    decreases path.len(),
{
    if path.len() == 0 {
        None
    } else if is_separator(path.last(), verbatim) {
        name_of_last_component(path.drop_last(), verbatim)
    } else {
        let start = last_component_start(path, verbatim);
        let component = path.subrange(start, path.len() as int);
        if component == seq!['.'] {
            if verbatim {
                None
            } else {
                proof {
                    lemma_last_component_start_bounds(path, verbatim);
                }
                name_of_last_component(path.subrange(0, start), verbatim)
            }
        } else if component == seq!['.', '.'] {
            None
        } else {
            Some(component)
        }
    }
}

/// The file name of a Windows path: the name of the last component of what
/// follows its prefix.
pub open spec fn file_name_of(path: Seq<char>) -> Option<Seq<char>> {
    let (prefix_len, verbatim) = path_prefix(path);
    name_of_last_component(path.skip(prefix_len), verbatim)
}

/// `first_separator` is determined by where the first separator stands.
proof fn lemma_first_separator_at(path: Seq<char>, verbatim: bool, n: int)
    requires
        0 <= n <= path.len(),
        n < path.len() ==> is_separator(path[n], verbatim),
        forall|j: int| 0 <= j < n ==> !is_separator(#[trigger] path[j], verbatim),
    ensures
        first_separator(path, verbatim) == n,
    decreases path.len(),
{
    if path.len() > 0 && n > 0 {
        assert forall|j: int| 0 <= j < n - 1 implies !is_separator(#[trigger] path.drop_first()[j], verbatim) by {
            assert(path.drop_first()[j] == path[j + 1]);
        }
        lemma_first_separator_at(path.drop_first(), verbatim, n - 1);
    }
}

fn is_separator_char(c: char, verbatim: bool) -> (b: bool)
    ensures
        b == is_separator(c, verbatim),
{
    c == '\\' || (!verbatim && c == '/')
}

fn is_drive_letter_char(c: char) -> (b: bool)
    ensures
        b == is_drive_letter(c),
{
    ('A' <= c && c <= 'Z') || ('a' <= c && c <= 'z')
}

/// Where the first separator of `path[lo..end]` stands, counted in `path`, or `end`.
fn separator_from(path: &str, lo: usize, end: usize, verbatim: bool) -> (at: usize)
    requires
        lo <= end <= path@.len(),
    ensures
        at == lo + first_separator(path@.subrange(lo as int, end as int), verbatim),
        lo <= at <= end,
{
    let ghost part = path@.subrange(lo as int, end as int);
    let mut i = lo;
    while i < end
        invariant
            lo <= i <= end <= path@.len(),
            part == path@.subrange(lo as int, end as int),
            forall|j: int| lo <= j < i ==> !is_separator(#[trigger] path@[j], verbatim),
        decreases end - i,
    {
        if is_separator_char(path.get_char(i), verbatim) {
            proof {
                assert forall|j: int| 0 <= j < i - lo implies !is_separator(#[trigger] part[j], verbatim) by {
                    assert(part[j] == path@[lo + j]);
                }
                lemma_first_separator_at(part, verbatim, i - lo);
            }
            return i;
        }
        i = i + 1;
    }
    proof {
        assert forall|j: int| 0 <= j < end - lo implies !is_separator(#[trigger] part[j], verbatim) by {
            assert(part[j] == path@[lo + j]);
        }
        lemma_first_separator_at(part, verbatim, end - lo);
    }
    end
}

/// Where the `server\share` pair at `path[lo..end]` ends, counted in `path`.
fn server_share_end(path: &str, lo: usize, end: usize, verbatim: bool) -> (at: usize)
    requires
        lo <= end <= path@.len(),
    ensures
        at == lo + server_share_len(path@.subrange(lo as int, end as int), verbatim),
        lo <= at <= end,
{
    let ghost part = path@.subrange(lo as int, end as int);
    let server_end = separator_from(path, lo, end, verbatim);
    if server_end == end {
        proof {
            assert(after_first_component(part, verbatim) =~= Seq::<char>::empty());
            assert(first_separator(Seq::<char>::empty(), verbatim) == 0);
        }
        return end;
    }
    let share_end = separator_from(path, server_end + 1, end, verbatim);
    proof {
        assert(after_first_component(part, verbatim) =~= path@.subrange(server_end + 1, end as int));
    }
    if share_end > server_end + 1 {
        share_end
    } else {
        server_end
    }
}

/// The prefix of `path` (see `path_prefix`).
fn prefix_of(path: &str, len: usize) -> (prefix: (usize, bool))
    requires
        len == path@.len(),
    ensures
        prefix.0 as int == path_prefix(path@).0,
        prefix.1 == path_prefix(path@).1,
        prefix.0 <= len,
{
    let ghost p = path@;
    if len >= 2 && is_separator_char(path.get_char(0), false) && is_separator_char(path.get_char(1), false) {
        if len >= 4 && path.get_char(0) == '\\' && path.get_char(1) == '\\' && path.get_char(2) == '?'
            && path.get_char(3) == '\\' {
            let ghost rest = p.skip(4);
            if len >= 8 && path.get_char(4) == 'U' && path.get_char(5) == 'N' && path.get_char(6) == 'C'
                && is_separator_char(path.get_char(7), false) {
                assert(p.skip(8) =~= p.subrange(8, len as int));
                let at = server_share_end(path, 8, len, true);
                (at, true)
            } else if len >= 6 && is_drive_letter_char(path.get_char(4)) && path.get_char(5) == ':' && (
            len == 6 || is_separator_char(path.get_char(6), false)) {
                (6, true)
            } else {
                assert(rest =~= p.subrange(4, len as int));
                let at = separator_from(path, 4, len, true);
                (at, true)
            }
        } else if len >= 4 && path.get_char(2) == '.' && is_separator_char(path.get_char(3), false) {
            assert(p.skip(4) =~= p.subrange(4, len as int));
            let at = separator_from(path, 4, len, false);
            (at, false)
        } else {
            let ghost rest = p.skip(2);
            assert(rest =~= p.subrange(2, len as int));
            let server_end = separator_from(path, 2, len, false);
            if server_end == len {
                proof {
                    assert(after_first_component(rest, false) =~= Seq::<char>::empty());
                    assert(first_separator(Seq::<char>::empty(), false) == 0);
                }
                return (0, false);
            }
            let share_end = separator_from(path, server_end + 1, len, false);
            proof {
                assert(after_first_component(rest, false) =~= p.subrange(server_end + 1, len as int));
            }
            if server_end > 2 && share_end > server_end + 1 {
                (share_end, false)
            } else {
                (0, false)
            }
        }
    } else if len >= 2 && is_drive_letter_char(path.get_char(0)) && path.get_char(1) == ':' {
        (2, false)
    } else {
        (0, false)
    }
}

/// Where the last component of `path[lo..end]` starts, counted in `path`.
fn component_start(path: &str, lo: usize, end: usize, verbatim: bool) -> (start: usize)
    requires
        lo <= end <= path@.len(),
    ensures
        start == lo + last_component_start(path@.subrange(lo as int, end as int), verbatim),
{
    let mut i = end;
    while i > lo
        invariant
            lo <= i <= end <= path@.len(),
            last_component_start(path@.subrange(lo as int, end as int), verbatim) == last_component_start(
                path@.subrange(lo as int, i as int),
                verbatim,
            ),
        decreases i - lo,
    {
        let c = path.get_char(i - 1);
        if is_separator_char(c, verbatim) {
            return i;
        }
        assert(path@.subrange(lo as int, i as int).drop_last() =~= path@.subrange(lo as int, i - 1));
        i = i - 1;
    }
    lo
}

/// The name of the last component of `path[lo..end]`.
fn last_component_name(path: &str, lo: usize, end: usize, verbatim: bool) -> (name: Option<String>)
    requires
        lo <= end <= path@.len(),
    ensures
        match name {
            Some(n) => name_of_last_component(path@.subrange(lo as int, end as int), verbatim) == Some(
                n@,
            ),
            None => name_of_last_component(path@.subrange(lo as int, end as int), verbatim) is None,
        },
    decreases end - lo,
{
    let ghost part = path@.subrange(lo as int, end as int);
    if end == lo {
        return None;
    }
    let c = path.get_char(end - 1);
    if is_separator_char(c, verbatim) {
        assert(part.drop_last() =~= path@.subrange(lo as int, end - 1));
        return last_component_name(path, lo, end - 1, verbatim);
    }
    let start = component_start(path, lo, end, verbatim);
    proof {
        lemma_last_component_start_bounds(part, verbatim);
        assert(part.subrange(start - lo, part.len() as int) =~= path@.subrange(start as int, end as int));
        assert(part.subrange(0, start - lo) =~= path@.subrange(lo as int, start as int));
    }
    if start < end && end - start == 1 && path.get_char(start) == '.' {
        assert(path@.subrange(start as int, end as int) =~= seq!['.']);
        if verbatim {
            return None;
        }
        return last_component_name(path, lo, start, verbatim);
    }
    if end - start == 2 && path.get_char(start) == '.' && path.get_char(start + 1) == '.' {
        assert(path@.subrange(start as int, end as int) =~= seq!['.', '.']);
        return None;
    }
    let name = String::from_str(path.substring_char(start, end));
    proof {
        let comp = path@.subrange(start as int, end as int);
        if end - start == 1 {
            assert(comp[0] != '.');
            assert(comp != seq!['.']);
        }
        if end - start == 2 {
            assert(comp[0] != '.' || comp[1] != '.');
            assert(comp != seq!['.', '.']);
        }
        if end - start != 1 {
            assert(comp.len() != seq!['.'].len());
        }
        if end - start != 2 {
            assert(comp.len() != seq!['.', '.'].len());
        }
    }
    Some(name)
}

/// The file name of a path as Windows reads it (see `file_name_of`): the name of
/// the picture shown on the lock screen, out of the path of its file.
pub fn file_name(path: &str) -> (name: Option<String>)
    ensures
        match name {
            Some(n) => file_name_of(path@) == Some(n@),
            None => file_name_of(path@) is None,
        },
{
    let len = path.unicode_len();
    let (prefix_len, verbatim) = prefix_of(path, len);
    assert(path@.subrange(prefix_len as int, len as int) =~= path@.skip(prefix_len as int));
    last_component_name(path, prefix_len, len, verbatim)
}

/// Only `\` separates the components of a verbatim path; `\` and `/` separate
/// those of any other path; no other character separates anything.
pub proof fn lemma_separators(c: char)
    ensures
        is_separator(c, false) <==> (c == '\\' || c == '/'),
        is_separator(c, true) <==> c == '\\',
{
}

/// The last component of a path whose last separator ends `front` starts right
/// after `front`.
proof fn lemma_last_component_start_after(front: Seq<char>, name: Seq<char>, verbatim: bool)
    requires
        front.len() > 0,
        is_separator(front.last(), verbatim),
        forall|j: int| 0 <= j < name.len() ==> !is_separator(#[trigger] name[j], verbatim),
    ensures
        last_component_start(front + name, verbatim) == front.len(),
    decreases name.len(),
{
    if name.len() == 0 {
        assert(front + name =~= front);
    } else {
        let whole = front + name;
        assert(whole.last() == name[name.len() - 1]);
        assert(whole.drop_last() =~= front + name.drop_last());
        assert forall|j: int| 0 <= j < name.drop_last().len() implies !is_separator(
            #[trigger] name.drop_last()[j],
            verbatim,
        ) by {
            assert(name.drop_last()[j] == name[j]);
        }
        lemma_last_component_start_after(front, name.drop_last(), verbatim);
    }
}

/// A path made of `dir`, a `\` and `name`, where `dir` is empty or does not start
/// with a separator and `name` has no `\` or `/` in it and is neither `.` nor
/// `..`, has `name` as its file name: no other character cuts the name, and a
/// drive in front of it is set aside.
pub proof fn lemma_file_name_after_separator(dir: Seq<char>, name: Seq<char>)
    requires
        dir.len() == 0 || (dir[0] != '\\' && dir[0] != '/'),
        name.len() > 0,
        forall|j: int| 0 <= j < name.len() ==> #[trigger] name[j] != '\\' && name[j] != '/',
        name != seq!['.'],
        name != seq!['.', '.'],
    ensures
        file_name_of(dir + seq!['\\'] + name) == Some(name),
{
    let path = dir + seq!['\\'] + name;
    assert forall|j: int| 0 <= j < name.len() implies !is_separator(#[trigger] name[j], false) by {
        assert(name[j] != '\\' && name[j] != '/');
    }
    if dir.len() == 0 {
        assert(path[0] == '\\');
        assert(path[1] == name[0]);
        assert(!is_separator(name[0], false));
    } else {
        assert(path[0] == dir[0]);
        if dir.len() == 1 {
            assert(path[1] == '\\');
        } else {
            assert(path[1] == dir[1]);
        }
    }
    let (k, verbatim) = path_prefix(path);
    assert(!verbatim);
    assert(k == 0 || (k == 2 && dir.len() >= 2));
    let front = dir.skip(k) + seq!['\\'];
    assert(path.skip(k) =~= front + name);
    lemma_last_component_start_after(front, name, false);
    let rest = front + name;
    assert(rest.last() == name[name.len() - 1]);
    assert(rest.subrange(front.len() as int, rest.len() as int) =~= name);
}

/// A name with no `\` or `/` in it contains no separator.
proof fn lemma_plain_name(name: Seq<char>, verbatim: bool)
    requires
        forall|j: int| 0 <= j < name.len() ==> #[trigger] name[j] != '\\' && name[j] != '/',
    ensures
        forall|j: int| 0 <= j < name.len() ==> !is_separator(#[trigger] name[j], verbatim),
{
    assert forall|j: int| 0 <= j < name.len() implies !is_separator(#[trigger] name[j], verbatim) by {
        assert(name[j] != '\\' && name[j] != '/');
    }
}

/// The first component of `component + rest` is `component` when `rest` is
/// empty or starts with a separator.
proof fn lemma_first_separator_of(component: Seq<char>, rest: Seq<char>, verbatim: bool)
    requires
        forall|j: int| 0 <= j < component.len() ==> !is_separator(#[trigger] component[j], verbatim),
        rest.len() == 0 || is_separator(rest[0], verbatim),
    ensures
        first_separator(component + rest, verbatim) == component.len(),
{
    let whole = component + rest;
    assert forall|j: int| 0 <= j < component.len() implies !is_separator(#[trigger] whole[j], verbatim) by {
        assert(whole[j] == component[j]);
    }
    if rest.len() > 0 {
        assert(whole[component.len() as int] == rest[0]);
    }
    lemma_first_separator_at(whole, verbatim, component.len() as int);
}

/// A path made of `dir` and then `tail`, which starts with `\` followed by
/// something other than a separator, where `dir` is empty or does not start with a
/// separator, has no prefix or a drive of two characters inside `dir`.
proof fn lemma_prefix_inside_dir(dir: Seq<char>, tail: Seq<char>)
    requires
        dir.len() == 0 || (dir[0] != '\\' && dir[0] != '/'),
        tail.len() >= 2,
        tail[0] == '\\',
        tail[1] != '\\' && tail[1] != '/',
    ensures
        !path_prefix(dir + tail).1,
        path_prefix(dir + tail).0 == 0 || (path_prefix(dir + tail).0 == 2 && dir.len() >= 2),
{
    let path = dir + tail;
    if dir.len() == 0 {
        assert(path[0] == tail[0]);
        assert(path[1] == tail[1]);
    } else {
        assert(path[0] == dir[0]);
        if dir.len() == 1 {
            assert(path[1] == tail[0]);
        } else {
            assert(path[1] == dir[1]);
        }
    }
}

/// A final `..` component leaves a path with no file name.
pub proof fn lemma_parent_has_no_file_name(dir: Seq<char>)
    requires
        dir.len() == 0 || (dir[0] != '\\' && dir[0] != '/'),
    ensures
        file_name_of(dir + seq!['\\', '.', '.']) is None,
{
    let tail = seq!['\\', '.', '.'];
    lemma_prefix_inside_dir(dir, tail);
    let k = path_prefix(dir + tail).0;
    let rest = dir.skip(k) + tail;
    assert((dir + tail).skip(k) =~= rest);
    let front = dir.skip(k) + seq!['\\'];
    assert(rest =~= front + seq!['.', '.']);
    lemma_last_component_start_after(front, seq!['.', '.'], false);
    assert(rest.subrange(front.len() as int, rest.len() as int) =~= seq!['.', '.']);
}

/// After a component that ends in a separator, a name with no separator in it
/// that is neither `.` nor `..` is the name of the last component.
proof fn lemma_name_after_front(front: Seq<char>, name: Seq<char>)
    requires
        front.len() > 0,
        is_separator(front.last(), false),
        name.len() > 0,
        forall|j: int| 0 <= j < name.len() ==> !is_separator(#[trigger] name[j], false),
        name != seq!['.'],
        name != seq!['.', '.'],
    ensures
        name_of_last_component(front + name, false) == Some(name),
{
    let whole = front + name;
    lemma_last_component_start_after(front, name, false);
    assert(whole.last() == name[name.len() - 1]);
    assert(whole.subrange(front.len() as int, whole.len() as int) =~= name);
}

/// Separators after the name do not change the file name of a path.
pub proof fn lemma_file_name_ignores_trailing_separator(dir: Seq<char>, name: Seq<char>)
    requires
        dir.len() == 0 || (dir[0] != '\\' && dir[0] != '/'),
        name.len() > 0,
        forall|j: int| 0 <= j < name.len() ==> #[trigger] name[j] != '\\' && name[j] != '/',
        name != seq!['.'],
        name != seq!['.', '.'],
    ensures
        file_name_of(dir + seq!['\\'] + name + seq!['\\']) == Some(name),
{
    lemma_plain_name(name, false);
    let tail = seq!['\\'] + name + seq!['\\'];
    assert(tail[1] == name[0]);
    let path = dir + tail;
    assert(dir + seq!['\\'] + name + seq!['\\'] =~= path);
    lemma_prefix_inside_dir(dir, tail);
    let k = path_prefix(path).0;
    let front = dir.skip(k) + seq!['\\'];
    let rest = path.skip(k);
    assert(rest =~= front + name + seq!['\\']);
    assert(rest.last() == '\\');
    assert(rest.drop_last() =~= front + name);
    lemma_name_after_front(front, name);
    assert(name_of_last_component(rest, false) == name_of_last_component(rest.drop_last(), false));
}

/// A `.` component after the name does not change the file name of a path that
/// is not verbatim.
pub proof fn lemma_file_name_ignores_trailing_dot(dir: Seq<char>, name: Seq<char>)
    requires
        dir.len() == 0 || (dir[0] != '\\' && dir[0] != '/'),
        name.len() > 0,
        forall|j: int| 0 <= j < name.len() ==> #[trigger] name[j] != '\\' && name[j] != '/',
        name != seq!['.'],
        name != seq!['.', '.'],
    ensures
        file_name_of(dir + seq!['\\'] + name + seq!['/', '.']) == Some(name),
{
    lemma_plain_name(name, false);
    let tail = seq!['\\'] + name + seq!['/', '.'];
    assert(tail[1] == name[0]);
    let path = dir + tail;
    assert(dir + seq!['\\'] + name + seq!['/', '.'] =~= path);
    lemma_prefix_inside_dir(dir, tail);
    let k = path_prefix(path).0;
    let front = dir.skip(k) + seq!['\\'];
    let inner = front + name;
    let with_slash = inner + seq!['/'];
    let rest = path.skip(k);
    assert(rest =~= with_slash + seq!['.']);
    lemma_last_component_start_after(with_slash, seq!['.'], false);
    assert(rest.last() == '.');
    assert(rest.subrange(with_slash.len() as int, rest.len() as int) =~= seq!['.']);
    assert(rest.subrange(0, with_slash.len() as int) =~= with_slash);
    assert(name_of_last_component(rest, false) == name_of_last_component(with_slash, false));
    assert(with_slash.last() == '/');
    assert(with_slash.drop_last() =~= inner);
    assert(name_of_last_component(with_slash, false) == name_of_last_component(inner, false));
    lemma_name_after_front(front, name);
}

/// A `\\server\share` path names a share, not a file: it has no file name; a
/// file in the share is named by its last component.
pub proof fn lemma_unc_share(server: Seq<char>, share: Seq<char>, name: Seq<char>)
    requires
        server.len() > 0,
        share.len() > 0,
        server[0] != '?' && server[0] != '.',
        forall|j: int| 0 <= j < server.len() ==> #[trigger] server[j] != '\\' && server[j] != '/',
        forall|j: int| 0 <= j < share.len() ==> #[trigger] share[j] != '\\' && share[j] != '/',
        name.len() > 0,
        forall|j: int| 0 <= j < name.len() ==> #[trigger] name[j] != '\\' && name[j] != '/',
        name != seq!['.'],
        name != seq!['.', '.'],
    ensures
        file_name_of(seq!['\\', '\\'] + server + seq!['\\'] + share) is None,
        file_name_of(seq!['\\', '\\'] + server + seq!['\\'] + share + seq!['\\'] + name) == Some(name),
{
    lemma_plain_name(server, false);
    lemma_plain_name(share, false);
    lemma_plain_name(name, false);
    let head = seq!['\\', '\\'];
    let bare = head + server + seq!['\\'] + share;
    let full = bare + seq!['\\'] + name;
    let file = seq!['\\'] + name;
    // the share alone
    assert(bare[0] == '\\' && bare[1] == '\\' && bare[2] == server[0]);
    let r1 = bare.skip(2);
    assert(r1 =~= server + (seq!['\\'] + share));
    lemma_first_separator_of(server, seq!['\\'] + share, false);
    assert(after_first_component(r1, false) =~= share);
    lemma_first_separator_of(share, Seq::<char>::empty(), false);
    assert(share + Seq::<char>::empty() =~= share);
    if bare.len() >= 4 {
        if server.len() == 1 {
            assert(bare[3] == '\\');
        } else {
            assert(bare[3] == server[1]);
        }
    }
    assert(path_prefix(bare).0 == bare.len());
    assert(bare.skip(bare.len() as int) =~= Seq::<char>::empty());
    // a file in the share
    assert(full[0] == '\\' && full[1] == '\\' && full[2] == server[0]);
    let r2 = full.skip(2);
    assert(r2 =~= server + (seq!['\\'] + share + file));
    lemma_first_separator_of(server, seq!['\\'] + share + file, false);
    assert(after_first_component(r2, false) =~= share + file);
    lemma_first_separator_of(share, file, false);
    if full.len() >= 4 {
        if server.len() == 1 {
            assert(full[3] == '\\');
        } else {
            assert(full[3] == server[1]);
        }
    }
    let k = (2 + server.len() + 1 + share.len()) as int;
    assert(path_prefix(full).0 == k);
    assert(full.skip(k) =~= file);
    lemma_last_component_start_after(seq!['\\'], name, false);
    assert(file.last() == name[name.len() - 1]);
    assert(file.subrange(1, file.len() as int) =~= name);
}

} // verus!

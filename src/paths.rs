use vstd::prelude::*;
use vstd::string::*;

verus! {

/// A path is modelled as the sequence of its components.
pub type PathView = Seq<Seq<char>>;

/// The components joined with `/`.
pub open spec fn join_slash(parts: PathView) -> Seq<char>
    decreases parts.len(),
{
    if parts.len() == 0 {
        Seq::empty()
    } else if parts.len() == 1 {
        parts[0]
    } else {
        join_slash(parts.drop_last()) + "/"@ + parts.last()
    }
}

/// `path` lies at or below `base`.
pub open spec fn is_under(base: PathView, path: PathView) -> bool {
    base.len() <= path.len() && path.subrange(0, base.len() as int) == base
}

/// The components of `path` below `base`.
pub open spec fn relative(base: PathView, path: PathView) -> PathView {
    path.subrange(base.len() as int, path.len() as int)
}

/// The position of the last `.` in `name`, or -1.
pub open spec fn last_dot(name: Seq<char>) -> int
    decreases name.len(),
{
    if name.len() == 0 {
        -1
    } else if name.last() == '.' {
        name.len() - 1
    } else {
        last_dot(name.drop_last())
    }
}

/// A file name without its extension: the part before the last `.`, or the
/// whole name when it has no `.` past its first character.
pub open spec fn stem_of(name: Seq<char>) -> Seq<char> {
    if last_dot(name) <= 0 {
        name
    } else {
        name.subrange(0, last_dot(name))
    }
}

/// A path has a stem when it has a non-empty last component.
pub open spec fn has_stem(path: PathView) -> bool {
    path.len() > 0 && path.last().len() > 0
}

pub proof fn lemma_last_dot_bounds(name: Seq<char>)
    ensures
        -1 <= last_dot(name) < name.len(),
        last_dot(name) >= 0 ==> name[last_dot(name)] == '.',
    decreases name.len(),
{
    if name.len() > 0 && name.last() != '.' {
        lemma_last_dot_bounds(name.drop_last());
    }
}

/// The deep view of a vector of strings.
pub open spec fn parts_view(v: Seq<String>) -> PathView {
    v.map_values(|s: String| s@)
}

/// A copy of a string.
pub fn copy_string(s: &String) -> (r: String)
    ensures
        r@ == s@,
{
    s.clone()
}

/// A copy of a path.
pub fn copy_path(p: &Vec<String>) -> (r: Vec<String>)
    ensures
        parts_view(r@) == parts_view(p@),
        r@.len() == p@.len(),
        forall|j: int| 0 <= j < p@.len() ==> (#[trigger] r@[j])@ == p@[j]@,
{
    let mut out: Vec<String> = Vec::new();
    let mut i: usize = 0;
    while i < p.len()
        invariant
            i <= p@.len(),
            out@.len() == i,
            forall|j: int| 0 <= j < i ==> (#[trigger] out@[j])@ == p@[j]@,
        decreases p@.len() - i,
    {
        out.push(copy_string(&p[i]));
        i = i + 1;
    }
    assert(parts_view(out@) =~= parts_view(p@));
    out
}

/// `base` followed by one more component.
pub fn child(base: &Vec<String>, name: String) -> (r: Vec<String>)
    ensures
        parts_view(r@) == parts_view(base@).push(name@),
{
    let mut out = copy_path(base);
    out.push(name);
    proof {
        assert(parts_view(out@) =~= parts_view(base@).push(name@));
    }
    out
}

/// `base` followed by the components of `path` from `start` up to `end`.
pub fn rebase(base: &Vec<String>, path: &Vec<String>, start: usize, end: usize) -> (r: Vec<String>)
    requires
        start <= end <= path@.len(),
    ensures
        parts_view(r@) == parts_view(base@) + parts_view(path@).subrange(start as int, end as int),
{
    let mut out = copy_path(base);
    let mut i: usize = start;
    while i < end
        invariant
            start <= i <= end <= path@.len(),
            out@.len() == base@.len() + (i - start),
            forall|j: int| 0 <= j < base@.len() ==> (#[trigger] out@[j])@ == base@[j]@,
            forall|j: int|
                base@.len() <= j < out@.len() ==> (#[trigger] out@[j])@ == path@[start + j
                    - base@.len()]@,
        decreases end - i,
    {
        out.push(copy_string(&path[i]));
        i = i + 1;
    }
    assert(parts_view(out@) =~= parts_view(base@) + parts_view(path@).subrange(
        start as int,
        end as int,
    ));
    out
}

/// Whether `path` lies at or below `base`.
pub fn path_is_under(base: &Vec<String>, path: &Vec<String>) -> (r: bool)
    ensures
        r == is_under(parts_view(base@), parts_view(path@)),
{
    if base.len() > path.len() {
        return false;
    }
    let mut i: usize = 0;
    while i < base.len()
        invariant
            base@.len() <= path@.len(),
            i <= base@.len(),
            forall|j: int| 0 <= j < i ==> base@[j]@ == path@[j]@,
        decreases base@.len() - i,
    {
        if base[i] != path[i] {
            proof {
                assert(parts_view(path@).subrange(0, base@.len() as int)[i as int]
                    != parts_view(base@)[i as int]);
            }
            return false;
        }
        i = i + 1;
    }
    assert(parts_view(path@).subrange(0, base@.len() as int) =~= parts_view(base@));
    true
}

/// The components of `path` from position `start` on, joined with `/`.
pub fn join_from(path: &Vec<String>, start: usize) -> (r: String)
    requires
        start <= path@.len(),
    ensures
        r@ == join_slash(parts_view(path@).subrange(start as int, path@.len() as int)),
{
    let mut out = String::new();
    let mut i: usize = start;
    while i < path.len()
        invariant
            start <= i <= path@.len(),
            out@ == join_slash(parts_view(path@).subrange(start as int, i as int)),
        decreases path@.len() - i,
    {
        let ghost prev = parts_view(path@).subrange(start as int, i as int);
        let ghost next = parts_view(path@).subrange(start as int, i + 1);
        assert(next.drop_last() =~= prev);
        if i > start {
            out.append("/");
        }
        out.append(path[i].as_str());
        proof {
            if i == start {
                assert(out@ =~= next[0]);
            }
        }
        i = i + 1;
    }
    out
}

/// The position of the last `.` in `s`, or -1.
fn find_last_dot(s: &String) -> (r: Option<usize>)
    ensures
        match r {
            Some(d) => d == last_dot(s@),
            None => last_dot(s@) == -1,
        },
{
    let n = s.as_str().unicode_len();
    let mut i: usize = n;
    assert(s@.subrange(0, n as int) =~= s@);
    while i > 0
        invariant
            i <= n == s@.len(),
            last_dot(s@) == last_dot(s@.subrange(0, i as int)),
        decreases i,
    {
        let c = s.as_str().get_char(i - 1);
        let ghost pre = s@.subrange(0, i as int);
        assert(pre.drop_last() =~= s@.subrange(0, i - 1));
        assert(pre.last() == c);
        if c == '.' {
            assert(last_dot(pre) == i - 1);
            return Some(i - 1);
        }
        i = i - 1;
    }
    assert(s@.subrange(0, 0).len() == 0);
    None
}

/// The extension of a path: what follows the last `.` of its last component,
/// when that `.` is not the component's first character.
pub open spec fn extension_of(path: PathView) -> Option<Seq<char>> {
    if path.len() > 0 && last_dot(path.last()) > 0 {
        Some(path.last().subrange(last_dot(path.last()) + 1, path.last().len() as int))
    } else {
        None
    }
}

/// The extension of `path`, if it has one.
pub fn extension(path: &Vec<String>) -> (r: Option<String>)
    ensures
        match r {
            Some(s) => extension_of(parts_view(path@)) == Some(s@),
            None => extension_of(parts_view(path@)) is None,
        },
{
    if path.len() == 0 {
        return None;
    }
    let name = &path[path.len() - 1];
    let ghost pv = parts_view(path@);
    assert(pv.last() == name@);
    proof {
        lemma_last_dot_bounds(name@);
    }
    match find_last_dot(name) {
        Some(d) if d > 0 => {
            let n = name.as_str().unicode_len();
            let s = name.as_str().substring_char(d + 1, n);
            Some(s.to_string())
        },
        _ => None,
    }
}

/// The last component of `path` without its extension.
pub fn file_stem(path: &Vec<String>) -> (r: Option<String>)
    ensures
        match r {
            Some(s) => has_stem(parts_view(path@)) && s@ == stem_of(parts_view(path@).last()),
            None => !has_stem(parts_view(path@)),
        },
{
    if path.len() == 0 {
        return None;
    }
    let name = &path[path.len() - 1];
    let ghost pv = parts_view(path@);
    assert(pv.last() == name@);
    let n = name.as_str().unicode_len();
    if n == 0 {
        return None;
    }
    let d = find_last_dot(name);
    proof {
        lemma_last_dot_bounds(name@);
    }
    match d {
        Some(d) if d > 0 => {
            let s = name.as_str().substring_char(0, d);
            Some(s.to_string())
        },
        _ => Some(copy_string(name)),
    }
}

} // verus!

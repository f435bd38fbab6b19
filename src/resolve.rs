use vstd::prelude::*;

use crate::text::{chars_of, opt_view, string_of};
use crate::words::views;

verus! {

/// The pieces of `s` between `:` separators, empty pieces included; there is
/// always at least one.
pub open spec fn pieces(s: Seq<char>) -> Seq<Seq<char>>
    decreases s.len(),
{
    if s.len() == 0 {
        seq![seq![]]
    } else {
        let p = pieces(s.drop_last());
        if s.last() == ':' {
            p.push(seq![])
        } else {
            p.update(p.len() - 1, p.last().push(s.last()))
        }
    }
}

/// The directories that a search-path value lists, in order. An unset or
/// empty value lists none.
pub open spec fn search_dirs(path_var: Option<Seq<char>>) -> Seq<Seq<char>> {
    match path_var {
        None => seq![],
        Some(s) => if s.len() == 0 {
            seq![]
        } else {
            pieces(s)
        },
    }
}

/// `name` placed in directory `dir`: an absolute name stands for itself, an
/// empty directory adds nothing, and otherwise a `/` separates the two unless
/// `dir` already ends with one.
pub open spec fn join_path(dir: Seq<char>, name: Seq<char>) -> Seq<char> {
    if name.len() > 0 && name[0] == '/' {
        name
    } else if dir.len() == 0 {
        name
    } else if dir.last() == '/' {
        dir + name
    } else {
        dir + seq!['/'] + name
    }
}

/// The paths at which `name` is looked for, in the order they are tried.
pub open spec fn candidates(path_var: Option<Seq<char>>, name: Seq<char>) -> Seq<Seq<char>> {
    search_dirs(path_var).map_values(|d: Seq<char>| join_path(d, name))
}

/// The pieces of `cs` between `:` separators.
fn split_colons(cs: &Vec<char>) -> (r: Vec<Vec<char>>)
    ensures
        r@.map_values(|v: Vec<char>| v@) == pieces(cs@),
{
    let mut r: Vec<Vec<char>> = Vec::new();
    let mut cur: Vec<char> = Vec::new();
    let mut i: usize = 0;
    while i < cs.len()
        invariant
            i <= cs.len(),
            r@.map_values(|v: Vec<char>| v@).push(cur@) == pieces(cs@.take(i as int)),
        decreases cs.len() - i,
    {
        let c = cs[i];
        let ghost t = cs@.take(i + 1);
        let ghost before = r@.map_values(|v: Vec<char>| v@);
        let ghost cv = cur@;
        assert(t.drop_last() == cs@.take(i as int));
        assert(t.last() == c);
        if c == ':' {
            r.push(cur);
            cur = Vec::new();
            assert(r@.map_values(|v: Vec<char>| v@) =~= before.push(cv));
            assert(r@.map_values(|v: Vec<char>| v@).push(cur@) =~= before.push(cv).push(seq![]));
        } else {
            cur.push(c);
            assert(before.push(cv).update(before.len() as int, cv.push(c)) =~= before.push(cur@));
        }
        i += 1;
    }
    let ghost before = r@.map_values(|v: Vec<char>| v@);
    let ghost cv = cur@;
    r.push(cur);
    assert(r@.map_values(|v: Vec<char>| v@) =~= before.push(cv));
    assert(cs@.take(cs.len() as int) == cs@);
    r
}

/// `name` placed in directory `dir`.
pub fn join(dir: &Vec<char>, name: &Vec<char>) -> (r: Vec<char>)
    ensures
        r@ == join_path(dir@, name@),
{
    if name.len() > 0 && name[0] == '/' {
        return name.clone();
    }
    if dir.len() == 0 {
        return name.clone();
    }
    let mut r = dir.clone();
    if dir[dir.len() - 1] != '/' {
        r.push('/');
    }
    let ghost base = r@;
    for i in 0..name.len()
        invariant
            r@ == base + name@.take(i as int),
    {
        r.push(name[i]);
        assert(base + name@.take(i + 1) =~= (base + name@.take(i as int)).push(name@[i as int]));
    }
    assert(name@.take(name.len() as int) == name@);
    proof {
        if dir@.last() != '/' {
            assert(base == dir@.push('/'));
            assert(base + name@ =~= dir@ + seq!['/'] + name@);
        }
    }
    r
}

/// The full paths to try for `name`, in order, given the search-path value.
pub fn candidate_paths(path_var: Option<&str>, name: &str) -> (r: Vec<String>)
    ensures
        views(r@) == candidates(opt_view(path_var), name@),
{
    let dirs: Vec<Vec<char>> = match path_var {
        None => Vec::new(),
        Some(s) => {
            let cs = chars_of(s);
            if cs.len() == 0 {
                Vec::new()
            } else {
                split_colons(&cs)
            }
        },
    };
    let ghost d = dirs@.map_values(|v: Vec<char>| v@);
    assert(d =~= search_dirs(opt_view(path_var)));
    let n = chars_of(name);
    let mut r: Vec<String> = Vec::new();
    for k in 0..dirs.len()
        invariant
            d == dirs@.map_values(|v: Vec<char>| v@),
            n@ == name@,
            views(r@) == d.map_values(|x: Seq<char>| join_path(x, name@)).take(k as int),
    {
        let ghost before = r@;
        let t = string_of(&join(&dirs[k], &n));
        r.push(t);
        assert(views(r@) =~= views(before).push(join_path(dirs@[k as int]@, name@)));
        assert(views(r@) =~= d.map_values(|x: Seq<char>| join_path(x, name@)).take(k + 1));
    }
    assert(d.map_values(|x: Seq<char>| join_path(x, name@)).take(dirs.len() as int) =~= d.map_values(
        |x: Seq<char>| join_path(x, name@),
    ));
    r
}

/// Whether a permission `mode` grants execution to at least one class (owner,
/// group or others).
pub fn has_exec_bit(mode: u32) -> (r: bool)
    ensures
        r == (mode & 0o111 != 0),
{
    mode & 0o111 != 0
}

/// `k` is the first index at which `usable` holds.
pub open spec fn is_first_usable(usable: Seq<bool>, k: int) -> bool {
    0 <= k < usable.len() && usable[k] && forall|j: int| 0 <= j < k ==> !usable[j]
}

/// The first of `paths` whose entry at the same index of `usable` holds
/// (it was found to be a regular file with an execute bit), or `None`.
pub fn first_usable(paths: &Vec<String>, usable: &Vec<bool>) -> (r: Option<String>)
    requires
        paths.len() == usable.len(),
    ensures
        r is None <==> forall|j: int| 0 <= j < usable.len() ==> !usable@[j],
        r matches Some(p) ==> exists|k: int|
            is_first_usable(usable@, k) && p@ == #[trigger] paths@[k]@,
{
    let mut i: usize = 0;
    while i < usable.len()
        invariant
            i <= usable.len(),
            paths.len() == usable.len(),
            forall|j: int| 0 <= j < i ==> !usable@[j],
        decreases usable.len() - i,
    {
        if usable[i] {
            let p = paths[i].clone();
            assert(is_first_usable(usable@, i as int));
            assert(p@ == paths@[i as int]@);
            return Some(p);
        }
        i += 1;
    }
    None
}

} // verus!

//! Resolving a command name to an executable along a search path.
//!
//! Whether a file exists and what its permission bits are is a question for
//! the file system; the caller asks it of each candidate in turn and hands
//! the answers back here, where the first match is chosen.
use vstd::prelude::*;
use vstd::string::*;
use crate::words::{opt_view, views};

verus! {

/// The directories listed in a search-path value: the pieces between `:`
/// separators, empty pieces included, so that an empty value lists one
/// empty directory.
pub open spec fn dirs_of(s: Seq<char>) -> Seq<Seq<char>>
    decreases s.len(),
{
    if s.len() == 0 {
        seq![Seq::empty()]
    } else {
        let prev = dirs_of(s.drop_last());
        if s.last() == ':' {
            prev.push(Seq::empty())
        } else {
            prev.update(prev.len() - 1, prev.last().push(s.last()))
        }
    }
}

/// A search-path value always lists at least one directory.
pub proof fn lemma_dirs_nonempty(s: Seq<char>)
    ensures
        dirs_of(s).len() > 0,
    decreases s.len(),
{
    if s.len() > 0 {
        lemma_dirs_nonempty(s.drop_last());
    }
}

/// The path of `name` inside `dir`: an absolute name stands for itself, an
/// empty directory adds nothing, and otherwise one `/` separates the two.
pub open spec fn path_in(dir: Seq<char>, name: Seq<char>) -> Seq<char> {
    if name.len() > 0 && name[0] == '/' {
        name
    } else if dir.len() == 0 {
        name
    } else if dir.last() == '/' {
        dir + name
    } else {
        dir + seq!['/'] + name
    }
}

/// The candidate paths for `name`, one per listed directory, in order.
pub open spec fn candidates_of(path_var: Seq<char>, name: Seq<char>) -> Seq<Seq<char>> {
    dirs_of(path_var).map_values(|d: Seq<char>| path_in(d, name))
}

/// The first of `paths` whose flag is set.
pub open spec fn first_flagged(paths: Seq<Seq<char>>, flags: Seq<bool>) -> Option<Seq<char>>
    decreases paths.len(),
{
    if paths.len() == 0 || flags.len() == 0 {
        None
    } else if flags[0] {
        Some(paths[0])
    } else {
        first_flagged(paths.skip(1), flags.skip(1))
    }
}

/// What `name` resolves to along `path_var`, given for each candidate
/// whether it is an existing file with an execute bit set.
pub open spec fn resolved(path_var: Seq<char>, name: Seq<char>, flags: Seq<bool>) -> Option<
    Seq<char>,
> {
    first_flagged(candidates_of(path_var, name), flags)
}

/// Splits a search-path value on `:`.
pub fn path_dirs(path_var: &str) -> (r: Vec<String>)
    ensures
        views(r@) == dirs_of(path_var@),
{
    let n = path_var.unicode_len();
    let mut out: Vec<String> = Vec::new();
    let mut start: usize = 0;
    let mut i: usize = 0;
    assert(path_var@.take(0) =~= Seq::<char>::empty());
    assert(views(out@) =~= Seq::<Seq<char>>::empty());
    assert(path_var@.subrange(0, 0) =~= Seq::<char>::empty());
    while i < n
        invariant
            n == path_var@.len(),
            start <= i <= n,
            dirs_of(path_var@.take(i as int)) == views(out@).push(
                path_var@.subrange(start as int, i as int),
            ),
        decreases n - i,
    {
        let c = path_var.get_char(i);
        let ghost s = path_var@.take(i as int + 1);
        assert(s.drop_last() =~= path_var@.take(i as int));
        assert(s.last() == c);
        if c == ':' {
            let w = String::from_str(path_var.substring_char(start, i));
            let ghost before = out@;
            out.push(w);
            assert(views(out@) =~= views(before).push(w@));
            assert(path_var@.subrange(i as int + 1, i as int + 1) =~= Seq::<char>::empty());
            start = i + 1;
        } else {
            assert(path_var@.subrange(start as int, i as int + 1) =~= path_var@.subrange(
                start as int,
                i as int,
            ).push(c));
        }
        i = i + 1;
    }
    let w = String::from_str(path_var.substring_char(start, n));
    let ghost before = out@;
    out.push(w);
    assert(views(out@) =~= views(before).push(w@));
    assert(path_var@.take(n as int) =~= path_var@);
    out
}

/// The path of `name` inside `dir`.
pub fn candidate_path(dir: &String, name: &String) -> (r: String)
    ensures
        r@ == path_in(dir@, name@),
{
    proof {
        reveal_strlit("/");
        assert("/"@ =~= seq!['/']);
    }
    let n = name.as_str().unicode_len();
    if n > 0 && name.as_str().get_char(0) == '/' {
        return name.clone();
    }
    let d = dir.as_str().unicode_len();
    if d == 0 {
        return name.clone();
    }
    let mut out = dir.clone();
    if dir.as_str().get_char(d - 1) != '/' {
        out.append("/");
    }
    out.append(name.as_str());
    out
}

/// The candidate paths for `name` along `path_var`, in the order in which
/// they are to be tried.
pub fn search_candidates(path_var: &str, name: &String) -> (r: Vec<String>)
    ensures
        views(r@) == candidates_of(path_var@, name@),
{
    let dirs = path_dirs(path_var);
    let mut out: Vec<String> = Vec::new();
    let mut i: usize = 0;
    while i < dirs.len()
        invariant
            i <= dirs@.len(),
            views(dirs@) == dirs_of(path_var@),
            views(out@) == views(dirs@).take(i as int).map_values(
                |d: Seq<char>| path_in(d, name@),
            ),
        decreases dirs@.len() - i,
    {
        let p = candidate_path(&dirs[i], name);
        let ghost before = out@;
        out.push(p);
        assert(views(out@) =~= views(dirs@).take(i as int + 1).map_values(
            |d: Seq<char>| path_in(d, name@),
        )) by {
            assert(views(out@) =~= views(before).push(p@));
        };
        i = i + 1;
    }
    assert(views(dirs@).take(dirs@.len() as int) =~= views(dirs@));
    out
}

/// The first candidate whose flag is set; `flags[i]` tells whether
/// `candidates[i]` exists and may be executed.
pub fn first_executable(candidates: &Vec<String>, flags: &Vec<bool>) -> (r: Option<String>)
    requires
        candidates@.len() == flags@.len(),
    ensures
        opt_view(r) == first_flagged(views(candidates@), flags@),
{
    let mut i: usize = 0;
    assert(views(candidates@).skip(0) =~= views(candidates@));
    assert(flags@.skip(0) =~= flags@);
    while i < flags.len()
        invariant
            i <= flags@.len(),
            candidates@.len() == flags@.len(),
            first_flagged(views(candidates@), flags@) == first_flagged(
                views(candidates@).skip(i as int),
                flags@.skip(i as int),
            ),
        decreases flags@.len() - i,
    {
        let ghost ps = views(candidates@).skip(i as int);
        let ghost fs = flags@.skip(i as int);
        assert(ps.skip(1) =~= views(candidates@).skip(i as int + 1));
        assert(fs.skip(1) =~= flags@.skip(i as int + 1));
        if flags[i] {
            return Some(candidates[i].clone());
        }
        i = i + 1;
    }
    None
}

/// Whether a file's permission bits `mode` let anyone execute it.
pub fn has_execute_bit(mode: u32) -> (r: bool)
    ensures
        r == (mode & 0o111u32 != 0),
{
    mode & 0o111u32 != 0
}

} // verus!

//! File-system paths as text, joined and taken apart as `std::path` does on
//! Windows (`windows == true`) and on Unix.
use vstd::prelude::*;
use crate::text::{append, chars_of, eq, is_ascii_alpha, slice, to_string};

verus! {

pub open spec fn is_sep(c: char, windows: bool) -> bool {
    c == '/' || (windows && c == '\\')
}

pub fn is_sep_exec(c: char, windows: bool) -> (r: bool)
    ensures
        r == is_sep(c, windows),
{
    c == '/' || (windows && c == '\\')
}

/// A Windows drive prefix such as `C:` starts the path.
pub open spec fn has_drive(s: Seq<char>, windows: bool) -> bool {
    windows && s.len() >= 2 && is_ascii_alpha(s[0]) && s[1] == ':'
}

pub fn has_drive_exec(s: &Vec<char>, windows: bool) -> (r: bool)
    ensures
        r == has_drive(s@, windows),
{
    windows && s.len() >= 2 && (('a' <= s[0] && s[0] <= 'z') || ('A' <= s[0] && s[0] <= 'Z'))
        && s[1] == ':'
}

pub open spec fn starts_with_sep(s: Seq<char>, windows: bool) -> bool {
    s.len() > 0 && is_sep(s[0], windows)
}

/// `PathBuf::push`: an absolute part replaces the base; on Windows a part
/// that starts at the root keeps only the base's drive; otherwise the parts
/// are put together with one separator between them.
pub open spec fn join_path(base: Seq<char>, part: Seq<char>, windows: bool) -> Seq<char> {
    if !windows {
        if starts_with_sep(part, false) {
            part
        } else if base.len() == 0 || is_sep(base.last(), false) {
            base + part
        } else {
            base + "/"@ + part
        }
    } else if has_drive(part, true) {
        part
    } else if starts_with_sep(part, true) {
        if has_drive(base, true) {
            base.subrange(0, 2) + part
        } else {
            part
        }
    } else if base.len() == 0 || is_sep(base.last(), true) || (has_drive(base, true) && base.len()
        == 2) {
        base + part
    } else {
        base + "\\"@ + part
    }
}

pub fn join_chars(base: &Vec<char>, part: &Vec<char>, windows: bool) -> (r: Vec<char>)
    ensures
        r@ == join_path(base@, part@, windows),
{
    let part_rooted = part.len() > 0 && is_sep_exec(part[0], windows);
    if !windows {
        if part_rooted {
            return part.clone();
        }
    } else if has_drive_exec(part, true) {
        return part.clone();
    } else if part_rooted {
        if has_drive_exec(base, true) {
            let mut r = slice(base, 0, 2);
            append(&mut r, part);
            return r;
        } else {
            return part.clone();
        }
    }
    let mut r = base.clone();
    let no_sep = base.len() == 0 || is_sep_exec(base[base.len() - 1], windows) || (has_drive_exec(
        base,
        windows,
    ) && base.len() == 2);
    if !no_sep {
        if windows {
            r.push('\\');
        } else {
            r.push('/');
        }
    }
    append(&mut r, part);
    proof {
        if !no_sep {
            if windows {
                assert(base@ + "\\"@ + part@ =~= base@.push('\\') + part@) by {
                    reveal_strlit("\\");
                }
            } else {
                assert(base@ + "/"@ + part@ =~= base@.push('/') + part@) by {
                    reveal_strlit("/");
                }
            }
        }
    }
    r
}

/// `base.join(part)` as text.
pub fn join(base: &str, part: &str, windows: bool) -> (r: String)
    ensures
        r@ == join_path(base@, part@, windows),
{
    to_string(&join_chars(&chars_of(base), &chars_of(part), windows))
}

/// Joins several parts in turn.
pub open spec fn join_all(base: Seq<char>, parts: Seq<Seq<char>>, windows: bool) -> Seq<char>
    decreases parts.len(),
{
    if parts.len() == 0 {
        base
    } else {
        join_path(join_all(base, parts.drop_last(), windows), parts.last(), windows)
    }
}

/// The path with a leading Windows drive removed.
pub open spec fn after_drive(s: Seq<char>, windows: bool) -> Seq<char> {
    if has_drive(s, windows) {
        s.subrange(2, s.len() as int)
    } else {
        s
    }
}

/// A piece between separators that names something (not empty, not `.`).
pub open spec fn is_named(p: Seq<char>) -> bool {
    p.len() > 0 && p != seq!['.']
}

/// The named pieces read so far and the piece being read.
pub open spec fn scan_pieces(s: Seq<char>, windows: bool) -> (Seq<Seq<char>>, Seq<char>)
    decreases s.len(),
{
    if s.len() == 0 {
        (seq![], seq![])
    } else {
        let (done, cur) = scan_pieces(s.drop_last(), windows);
        if is_sep(s.last(), windows) {
            (if is_named(cur) {
                done.push(cur)
            } else {
                done
            }, seq![])
        } else {
            (done, cur.push(s.last()))
        }
    }
}

/// The names along a path (its normal components, with `..` kept): the
/// drive, the root, empty pieces and `.` are left out.
pub open spec fn path_names(p: Seq<char>, windows: bool) -> Seq<Seq<char>> {
    let (done, cur) = scan_pieces(after_drive(p, windows), windows);
    if is_named(cur) {
        done.push(cur)
    } else {
        done
    }
}

/// `Path::file_name`.
pub open spec fn file_name(p: Seq<char>, windows: bool) -> Option<Seq<char>> {
    let names = path_names(p, windows);
    if names.len() > 0 && names.last() != ".."@ {
        Some(names.last())
    } else {
        None
    }
}

/// `Path::parent().and_then(Path::file_name)`.
pub open spec fn parent_name(p: Seq<char>, windows: bool) -> Option<Seq<char>> {
    let names = path_names(p, windows);
    if names.len() > 1 && names[names.len() - 2] != ".."@ {
        Some(names[names.len() - 2])
    } else {
        None
    }
}

pub fn path_names_exec(p: &Vec<char>, windows: bool) -> (r: Vec<Vec<char>>)
    ensures
        r@.map_values(|x: Vec<char>| x@) == path_names(p@, windows),
{
    let start: usize = if has_drive_exec(p, windows) {
        2
    } else {
        0
    };
    let s = slice(p, start, p.len());
    assert(s@ == after_drive(p@, windows));
    let dot = chars_of(".");
    proof {
        reveal_strlit(".");
        assert(dot@ =~= seq!['.']);
    }
    let mut done: Vec<Vec<char>> = Vec::new();
    let mut cur: Vec<char> = Vec::new();
    let mut i: usize = 0;
    while i < s.len()
        invariant
            i <= s.len(),
            dot@ == seq!['.'],
            scan_pieces(s@.subrange(0, i as int), windows) == (
                done@.map_values(|x: Vec<char>| x@),
                cur@,
            ),
        decreases s.len() - i,
    {
        assert(s@.subrange(0, i + 1).drop_last() =~= s@.subrange(0, i as int));
        let ghost before = done@.map_values(|x: Vec<char>| x@);
        if is_sep_exec(s[i], windows) {
            if cur.len() > 0 && !eq(&cur, &dot) {
                done.push(cur);
                assert(done@.map_values(|x: Vec<char>| x@) =~= before.push(cur@));
            }
            cur = Vec::new();
        } else {
            cur.push(s[i]);
        }
        i = i + 1;
    }
    assert(s@.subrange(0, s.len() as int) =~= s@);
    if cur.len() > 0 && !eq(&cur, &dot) {
        let ghost before = done@.map_values(|x: Vec<char>| x@);
        done.push(cur);
        assert(done@.map_values(|x: Vec<char>| x@) =~= before.push(cur@));
    }
    done
}

pub fn file_name_exec(p: &Vec<char>, windows: bool) -> (r: Option<Vec<char>>)
    ensures
        match r {
            Some(x) => file_name(p@, windows) == Some(x@),
            None => file_name(p@, windows) is None,
        },
{
    let names = path_names_exec(p, windows);
    let ghost nv = names@.map_values(|x: Vec<char>| x@);
    if names.len() > 0 {
        let last = &names[names.len() - 1];
        assert(nv.last() == last@);
        if !eq(last, &chars_of("..")) {
            return Some(last.clone());
        }
    }
    None
}

pub fn parent_name_exec(p: &Vec<char>, windows: bool) -> (r: Option<Vec<char>>)
    ensures
        match r {
            Some(x) => parent_name(p@, windows) == Some(x@),
            None => parent_name(p@, windows) is None,
        },
{
    let names = path_names_exec(p, windows);
    let ghost nv = names@.map_values(|x: Vec<char>| x@);
    if names.len() > 1 {
        let second = &names[names.len() - 2];
        assert(nv[nv.len() - 2] == second@);
        if !eq(second, &chars_of("..")) {
            return Some(second.clone());
        }
    }
    None
}

/// Index of the last `.` in `s`, or `s.len()` when there is none.
pub open spec fn last_dot(s: Seq<char>) -> nat
    decreases s.len(),
{
    if s.len() == 0 {
        0
    } else if s.last() == '.' {
        (s.len() - 1) as nat
    } else if last_dot(s.drop_last()) < s.len() - 1 {
        last_dot(s.drop_last())
    } else {
        s.len()
    }
}

/// `Path::extension`: what follows the last `.` of the file name, unless
/// that dot starts the name.
pub open spec fn extension(p: Seq<char>, windows: bool) -> Option<Seq<char>> {
    match file_name(p, windows) {
        Some(n) => {
            let d = last_dot(n);
            if d < n.len() && d > 0 {
                Some(n.subrange(d as int + 1, n.len() as int))
            } else {
                None
            }
        },
        None => None,
    }
}

pub fn extension_exec(p: &Vec<char>, windows: bool) -> (r: Option<Vec<char>>)
    ensures
        match r {
            Some(x) => extension(p@, windows) == Some(x@),
            None => extension(p@, windows) is None,
        },
{
    match file_name_exec(p, windows) {
        Some(n) => {
            let mut d: usize = 0;
            let mut found = false;
            let mut i: usize = 0;
            while i < n.len()
                invariant
                    i <= n.len(),
                    found ==> d < i,
                    last_dot(n@.subrange(0, i as int)) == if found {
                        d as nat
                    } else {
                        i as nat
                    },
                decreases n.len() - i,
            {
                assert(n@.subrange(0, i + 1).drop_last() =~= n@.subrange(0, i as int));
                if n[i] == '.' {
                    d = i;
                    found = true;
                }
                i = i + 1;
            }
            if !found {
                d = n.len();
            }
            assert(n@.subrange(0, n.len() as int) =~= n@);
            if d < n.len() && d > 0 {
                Some(slice(&n, d + 1, n.len()))
            } else {
                None
            }
        },
        None => None,
    }
}

/// `Path::is_absolute`: on Unix a leading `/`; on Windows a drive followed by
/// a separator, or a leading pair of separators (a network share).
pub open spec fn is_absolute(p: Seq<char>, windows: bool) -> bool {
    if windows {
        (has_drive(p, true) && p.len() > 2 && is_sep(p[2], true)) || (p.len() >= 2 && is_sep(p[0], true)
            && is_sep(p[1], true))
    } else {
        p.len() > 0 && p[0] == '/'
    }
}

pub fn is_absolute_exec(p: &Vec<char>, windows: bool) -> (r: bool)
    ensures
        r == is_absolute(p@, windows),
{
    if windows {
        (has_drive_exec(p, true) && p.len() > 2 && is_sep_exec(p[2], true)) || (p.len() >= 2
            && is_sep_exec(p[0], true) && is_sep_exec(p[1], true))
    } else {
        p.len() > 0 && p[0] == '/'
    }
}

/// The code of a name in the order of `Path` components: `..` is a parent
/// component; another name is a normal one, its characters shifted up by
/// one and closed by a 0 so that a name comes before its extensions.
pub open spec fn name_code(n: Seq<char>) -> Seq<u32> {
    if n == ".."@ {
        seq![3u32]
    } else {
        seq![4u32] + n.map_values(|c: char| (c as u32 + 1) as u32) + seq![0u32]
    }
}

pub open spec fn names_code(ns: Seq<Seq<char>>) -> Seq<u32>
    decreases ns.len(),
{
    if ns.len() == 0 {
        seq![]
    } else {
        names_code(ns.drop_last()) + name_code(ns.last())
    }
}

/// A relative path that starts with `.` as its own component.
pub open spec fn has_cur_dir(p: Seq<char>, windows: bool) -> bool {
    let s = after_drive(p, windows);
    !(s.len() > 0 && is_sep(s[0], windows)) && s.len() > 0 && s[0] == '.' && (s.len() == 1 || is_sep(
        s[1],
        windows,
    ))
}

/// The key by which `PathBuf`s are ordered and found equal: the codes of the
/// components in turn (drive, root, leading `.`, then the names), each kind
/// of component before the next as `std::path::Component` orders them.
pub open spec fn path_order_key(p: Seq<char>, windows: bool) -> Seq<u32> {
    let s = after_drive(p, windows);
    (if has_drive(p, windows) {
        seq![0u32, (crate::text::lower_char(p[0]) as u32 + 1) as u32, 0u32]
    } else {
        seq![]
    }) + (if s.len() > 0 && is_sep(s[0], windows) {
        seq![1u32]
    } else {
        seq![]
    }) + (if has_cur_dir(p, windows) {
        seq![2u32]
    } else {
        seq![]
    }) + names_code(path_names(p, windows))
}

fn name_code_exec(n: &Vec<char>) -> (r: Vec<u32>)
    ensures
        r@ == name_code(n@),
{
    let mut r: Vec<u32> = Vec::new();
    if eq(n, &chars_of("..")) {
        r.push(3);
        assert(r@ =~= seq![3u32]);
        return r;
    }
    r.push(4);
    let mut i: usize = 0;
    while i < n.len()
        invariant
            i <= n.len(),
            r@ == seq![4u32] + n@.take(i as int).map_values(|c: char| (c as u32 + 1) as u32),
        decreases n.len() - i,
    {
        let c = n[i];
        proof {
            vstd::utf8::char_is_scalar(c);
        }
        r.push((c as u32) + 1);
        i = i + 1;
        assert(r@ =~= seq![4u32] + n@.take(i as int).map_values(|c: char| (c as u32 + 1) as u32));
    }
    assert(n@.take(n.len() as int) =~= n@);
    r.push(0);
    r
}

pub fn path_order_key_exec(p: &Vec<char>, windows: bool) -> (r: Vec<u32>)
    ensures
        r@ == path_order_key(p@, windows),
{
    let drive = has_drive_exec(p, windows);
    let s = if drive {
        slice(p, 2, p.len())
    } else {
        p.clone()
    };
    assert(s@ == after_drive(p@, windows));
    let mut r: Vec<u32> = Vec::new();
    if drive {
        let c = crate::text::lower_char_exec(p[0]);
        proof {
            vstd::utf8::char_is_scalar(c);
        }
        r.push(0);
        r.push((c as u32) + 1);
        r.push(0);
    }
    let rooted = s.len() > 0 && is_sep_exec(s[0], windows);
    if rooted {
        r.push(1);
    }
    let cur = !rooted && s.len() > 0 && s[0] == '.' && (s.len() == 1 || is_sep_exec(s[1], windows));
    if cur {
        r.push(2);
    }
    let ghost head = r@;
    assert(head =~= (if has_drive(p@, windows) {
        seq![0u32, (crate::text::lower_char(p@[0]) as u32 + 1) as u32, 0u32]
    } else {
        seq![]
    }) + (if s@.len() > 0 && is_sep(s@[0], windows) {
        seq![1u32]
    } else {
        seq![]
    }) + (if has_cur_dir(p@, windows) {
        seq![2u32]
    } else {
        seq![]
    }));
    let names = path_names_exec(p, windows);
    let ghost nv = names@.map_values(|x: Vec<char>| x@);
    let mut i: usize = 0;
    assert(nv.take(0) =~= Seq::<Seq<char>>::empty());
    assert(r@ =~= head + names_code(nv.take(0)));
    while i < names.len()
        invariant
            i <= names.len(),
            nv == names@.map_values(|x: Vec<char>| x@),
            r@ == head + names_code(nv.take(i as int)),
        decreases names.len() - i,
    {
        let code = name_code_exec(&names[i]);
        assert(nv[i as int] == names@[i as int]@);
        let mut j: usize = 0;
        let ghost before = r@;
        while j < code.len()
            invariant
                j <= code.len(),
                r@ == before + code@.take(j as int),
            decreases code.len() - j,
        {
            r.push(code[j]);
            j = j + 1;
            assert(r@ =~= before + code@.take(j as int));
        }
        assert(code@.take(code.len() as int) =~= code@);
        assert(nv.take(i + 1).drop_last() =~= nv.take(i as int));
        i = i + 1;
        assert(r@ =~= head + names_code(nv.take(i as int)));
    }
    assert(nv.take(names.len() as int) =~= nv);
    r
}

} // verus!

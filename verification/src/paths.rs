//! Paths, written as text with `/` between their segments.
use crate::models::texts;
use crate::text::{
    chars_of, concat_text, contains, contains_text, has_prefix, has_suffix, last_index_of,
    lemma_last_index_of, lowered, rfind_char, same_text, slice_of, split_last, starts_with,
    to_ascii_lowercase, trim, trimmed,
};
use vstd::prelude::*;

verus! {

/// The last segment of a path: what follows its last `/`, or the whole path if
/// it holds none.
pub open spec fn file_name_of(p: Seq<char>) -> Seq<char> {
    match split_last(p, '/') {
        Some((_, name)) => name,
        None => p,
    }
}

/// The folder that holds a path: what stands before its last `/`, or `/`
/// itself where that is the path's first character. A path without `/` has
/// the empty path as its parent; the empty path and `/` have none.
pub open spec fn parent_of(p: Seq<char>) -> Option<Seq<char>> {
    if p.len() == 0 || p == seq!['/'] {
        None
    } else {
        match last_index_of(p, '/') {
            Some(i) => if i == 0 {
                Some(seq!['/'])
            } else {
                Some(p.take(i))
            },
            None => Some(Seq::empty()),
        }
    }
}

/// A file name without its extension: what stands before its last `.`, or the
/// whole name if it holds none.
pub open spec fn stem_of(name: Seq<char>) -> Seq<char> {
    match split_last(name, '.') {
        Some((stem, _)) => stem,
        None => name,
    }
}

/// The extension of a path: what follows the last `.` of its file name. A
/// name without `.`, or whose only `.` is its first character, has none.
pub open spec fn extension_of(p: Seq<char>) -> Option<Seq<char>> {
    let name = file_name_of(p);
    match last_index_of(name, '.') {
        Some(i) => if i == 0 {
            None
        } else {
            Some(name.skip(i + 1))
        },
        None => None,
    }
}

/// Whether `p` is `root` or lies below it.
pub open spec fn is_under(p: Seq<char>, root: Seq<char>) -> bool {
    p == root || (has_prefix(p, root) && (has_suffix(root, seq!['/']) || p[root.len() as int]
        == '/'))
}

/// `p` as seen from `root`: empty for `root` itself, the part after `root` and
/// its `/` for a path below it, and `p` itself for any other path.
pub open spec fn relative_to(p: Seq<char>, root: Seq<char>) -> Seq<char> {
    if p == root {
        Seq::empty()
    } else if is_under(p, root) {
        if has_suffix(root, seq!['/']) {
            p.skip(root.len() as int)
        } else {
            p.skip(root.len() + 1 as int)
        }
    } else {
        p
    }
}

/// The path of `name` inside the folder `dir`.
pub open spec fn joined(dir: Seq<char>, name: Seq<char>) -> Seq<char> {
    if dir.len() == 0 || has_prefix(name, seq!['/']) {
        name
    } else if has_suffix(dir, seq!['/']) {
        dir + name
    } else {
        dir.push('/') + name
    }
}

/// Whether a segment of the path begins with `.::TMPNAME:`, the mark of a
/// temporary file of a network share.
pub open spec fn is_temp_path(p: Seq<char>) -> bool {
    has_prefix(p, ".::TMPNAME:"@) || contains_text(p, "/.::TMPNAME:"@)
}

/// An extension pattern without the white space around it and without a
/// leading `*.` or `.`.
pub open spec fn bare_extension(pattern: Seq<char>) -> Seq<char> {
    let p = trimmed(pattern);
    if has_prefix(p, "*."@) {
        p.skip(2)
    } else if has_prefix(p, "."@) {
        p.skip(1)
    } else {
        p
    }
}

/// Whether the extension `ext` is the one that `pattern` names, without
/// regard to case. A pattern of white space names none.
pub open spec fn pattern_names(pattern: Seq<char>, ext: Seq<char>) -> bool {
    trimmed(pattern).len() > 0 && lowered(ext) == lowered(bare_extension(pattern))
}

/// Whether the path has an extension that one of the patterns names.
pub open spec fn matches_extensions(p: Seq<char>, patterns: Seq<Seq<char>>) -> bool {
    match extension_of(p) {
        Some(ext) => exists|i: int| 0 <= i < patterns.len() && pattern_names(#[trigger] patterns[i], ext),
        None => false,
    }
}

/// The folder that holds a path has a shorter path.
pub proof fn lemma_parent_shorter(p: Seq<char>)
    ensures
        parent_of(p) is Some ==> parent_of(p)->0.len() < p.len(),
{
    if p.len() > 0 && p != seq!['/'] {
        lemma_last_index_of(p, '/');
        match last_index_of(p, '/') {
            Some(i) => {
                if i == 0 {
                    if p.len() == 1 {
                        assert(p =~= seq!['/']);
                    }
                }
            },
            None => {},
        }
    }
}

/// The last segment of a path.
pub fn file_name(p: &Vec<char>) -> (r: Vec<char>)
    ensures
        r@ == file_name_of(p@),
{
    match rfind_char(p, '/') {
        Some(i) => {
            proof {
                lemma_last_index_of(p@, '/');
            }
            assert(i + 1 <= p.len());
            slice_of(p, i + 1, p.len())
        },
        None => {
            assert(p@.subrange(0, p.len() as int) =~= p@);
            slice_of(p, 0, p.len())
        },
    }
}

/// The folder that holds a path.
pub fn parent(p: &Vec<char>) -> (r: Option<Vec<char>>)
    ensures
        match r {
            Some(q) => parent_of(p@) == Some(q@),
            None => parent_of(p@) is None,
        },
{
    if p.len() == 0 {
        return None;
    }
    if p.len() == 1 && p[0] == '/' {
        assert(p@ =~= seq!['/']);
        return None;
    }
    assert(p@ != seq!['/']) by {
        if p@ == seq!['/'] {
            assert(p@.len() == 1);
        }
    }
    match rfind_char(p, '/') {
        Some(i) => {
            if i == 0 {
                let mut r: Vec<char> = Vec::new();
                r.push('/');
                assert(r@ =~= seq!['/']);
                Some(r)
            } else {
                proof {
                    lemma_last_index_of(p@, '/');
                }
                assert(i <= p.len());
                Some(slice_of(p, 0, i))
            }
        },
        None => {
            Some(Vec::new())
        },
    }
}

/// A file name without its extension.
pub fn stem(name: &Vec<char>) -> (r: Vec<char>)
    ensures
        r@ == stem_of(name@),
{
    match rfind_char(name, '.') {
        Some(i) => {
            proof {
                lemma_last_index_of(name@, '.');
            }
            assert(i <= name.len());
            slice_of(name, 0, i)
        },
        None => {
            assert(name@.subrange(0, name.len() as int) =~= name@);
            slice_of(name, 0, name.len())
        },
    }
}

/// The extension of a path.
pub fn extension(p: &Vec<char>) -> (r: Option<Vec<char>>)
    ensures
        match r {
            Some(e) => extension_of(p@) == Some(e@),
            None => extension_of(p@) is None,
        },
{
    let name = file_name(p);
    match rfind_char(&name, '.') {
        Some(i) => {
            if i == 0 {
                None
            } else {
                proof {
                    lemma_last_index_of(name@, '.');
                }
                assert(i + 1 <= name.len());
                Some(slice_of(&name, i + 1, name.len()))
            }
        },
        None => None,
    }
}

fn ends_with_slash(p: &Vec<char>) -> (r: bool)
    ensures
        r == has_suffix(p@, seq!['/']),
{
    if p.len() == 0 {
        return false;
    }
    let r = p[p.len() - 1] == '/';
    proof {
        let tail = p@.subrange(p@.len() - 1, p@.len() as int);
        assert(tail[0] == p@[p@.len() - 1]);
        if r {
            assert(tail =~= seq!['/']);
        } else {
            assert(seq!['/'][0] == '/');
        }
    }
    r
}

fn starts_with_slash(p: &Vec<char>) -> (r: bool)
    ensures
        r == has_prefix(p@, seq!['/']),
{
    if p.len() == 0 {
        return false;
    }
    let r = p[0] == '/';
    proof {
        let head = p@.subrange(0, 1);
        assert(head[0] == p@[0]);
        if r {
            assert(head =~= seq!['/']);
        } else {
            assert(seq!['/'][0] == '/');
        }
    }
    r
}

/// Tests whether `p` is `root` or lies below it.
pub fn path_is_under(p: &Vec<char>, root: &Vec<char>) -> (r: bool)
    ensures
        r == is_under(p@, root@),
{
    if same_text(p, root) {
        return true;
    }
    if !starts_with(p, root) {
        return false;
    }
    if ends_with_slash(root) {
        return true;
    }
    assert(p.len() > root.len()) by {
        if p@.len() == root@.len() {
            assert(p@.subrange(0, root@.len() as int) =~= p@);
        }
    }
    p[root.len()] == '/'
}

/// Gives `p` as seen from `root`.
pub fn path_relative_to(p: &Vec<char>, root: &Vec<char>) -> (r: Vec<char>)
    ensures
        r@ == relative_to(p@, root@),
{
    if same_text(p, root) {
        return Vec::new();
    }
    if path_is_under(p, root) {
        assert(p.len() > root.len()) by {
            if p@.len() == root@.len() {
                assert(p@.subrange(0, root@.len() as int) =~= p@);
            }
        }
        if ends_with_slash(root) {
            slice_of(p, root.len(), p.len())
        } else {
            slice_of(p, root.len() + 1, p.len())
        }
    } else {
        assert(p@.subrange(0, p.len() as int) =~= p@);
        slice_of(p, 0, p.len())
    }
}

/// Gives the path of `name` inside the folder `dir`.
pub fn join(dir: &Vec<char>, name: &Vec<char>) -> (r: Vec<char>)
    ensures
        r@ == joined(dir@, name@),
{
    if dir.len() == 0 || starts_with_slash(name) {
        assert(name@.subrange(0, name.len() as int) =~= name@);
        slice_of(name, 0, name.len())
    } else if ends_with_slash(dir) {
        concat_text(dir, name)
    } else {
        let mut d = slice_of(dir, 0, dir.len());
        assert(d@ =~= dir@);
        d.push('/');
        concat_text(&d, name)
    }
}

/// Tests whether a segment of the path begins with `.::TMPNAME:`.
pub fn is_smb_temp_path(path: &str) -> (r: bool)
    ensures
        r == is_temp_path(path@),
{
    let p = chars_of(path);
    starts_with(&p, &chars_of(".::TMPNAME:")) || contains(&p, &chars_of("/.::TMPNAME:"))
}

fn bare(pattern: &Vec<char>) -> (r: Vec<char>)
    ensures
        r@ == bare_extension(pattern@),
{
    let p = trim(pattern);
    let star_dot = chars_of("*.");
    let dot = chars_of(".");
    proof {
        reveal_strlit("*.");
        reveal_strlit(".");
    }
    if starts_with(&p, &star_dot) {
        slice_of(&p, 2, p.len())
    } else if starts_with(&p, &dot) {
        slice_of(&p, 1, p.len())
    } else {
        p
    }
}

/// Tests whether the path has an extension that one of the patterns names.
pub fn path_matches_extensions(path: &str, exts: &Vec<String>) -> (r: bool)
    ensures
        r == matches_extensions(path@, texts(exts@)),
{
    let p = chars_of(path);
    let ext = match extension(&p) {
        Some(e) => to_ascii_lowercase(&e),
        None => {
            return false;
        },
    };
    let ghost e = extension_of(path@)->0;
    let mut i: usize = 0;
    while i < exts.len()
        invariant
            i <= exts.len(),
            extension_of(path@) == Some(e),
            ext@ == lowered(e),
            forall|j: int| 0 <= j < i ==> !pattern_names(#[trigger] texts(exts@)[j], e),
        decreases exts.len() - i,
    {
        let pat = chars_of(exts[i].as_str());
        assert(texts(exts@)[i as int] == pat@);
        if trim(&pat).len() > 0 {
            let b = to_ascii_lowercase(&bare(&pat));
            if same_text(&ext, &b) {
                return true;
            }
        }
        i += 1;
    }
    false
}

} // verus!

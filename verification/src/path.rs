//! Paths as text, with `/` between components.

use vstd::prelude::*;

use crate::text::{chars_of, same, split_on, string_of};
#[allow(unused_imports)]
use crate::text::{split, views};

verus! {

/// `base` extended by `name`: an absolute `name` takes the place of `base`.
pub open spec fn join(base: Seq<char>, name: Seq<char>) -> Seq<char> {
    if name.len() > 0 && name[0] == '/' {
        name
    } else if base.len() == 0 || base.last() == '/' {
        base + name
    } else {
        base + "/"@ + name
    }
}

/// `base` extended by `name`: an absolute `name` takes the place of `base`.
pub fn joined(base: &str, name: &str) -> (r: String)
    ensures
        r@ == join(base@, name@),
{
    let b = chars_of(base);
    let n = chars_of(name);
    if n.len() > 0 && n[0] == '/' {
        name.to_owned()
    } else if b.len() == 0 || b[b.len() - 1] == '/' {
        base.to_owned().concat(name)
    } else {
        base.to_owned().concat("/").concat(name)
    }
}

/// How many characters at the beginning of `p` stand before its first ordinary
/// component: a root, or a leading `.`.
pub open spec fn head_len(p: Seq<char>) -> nat {
    if p.len() > 0 && p[0] == '/' {
        1
    } else if p.len() > 0 && p[0] == '.' && (p.len() == 1 || p[1] == '/') {
        1
    } else {
        0
    }
}

/// Where the last component of `p` begins, given that the first `head`
/// characters are none of its components.
pub open spec fn last_start(p: Seq<char>, head: nat) -> int
    decreases p.len(),
{
    if p.len() <= head || p.last() == '/' {
        p.len() as int
    } else {
        last_start(p.drop_last(), head)
    }
}

/// The part of `p` before its last component and the separator before that.
pub open spec fn without_last(p: Seq<char>, head: nat) -> Seq<char> {
    let start = last_start(p, head);
    p.take(if start > head {
        start - 1
    } else {
        head as int
    })
}

/// The last component of `p`.
pub open spec fn last_component(p: Seq<char>, head: nat) -> Seq<char> {
    p.skip(last_start(p, head))
}

/// `p` without the empty and `.` components at its end.
pub open spec fn strip_tail(p: Seq<char>, head: nat) -> Seq<char>
    decreases p.len(),
    via strip_tail_decreases
{
    let last = last_component(p, head);
    if p.len() > head && (last.len() == 0 || last == seq!['.']) {
        strip_tail(without_last(p, head), head)
    } else {
        p
    }
}

proof fn last_start_bounds(p: Seq<char>, head: nat)
    ensures
        p.len() >= head ==> head <= last_start(p, head) <= p.len(),
    decreases p.len(),
{
    if p.len() > head && p.last() != '/' {
        last_start_bounds(p.drop_last(), head);
    }
}

#[via_fn]
proof fn strip_tail_decreases(p: Seq<char>, head: nat) {
    last_start_bounds(p, head);
    let start = last_start(p, head);
    if p.len() > head {
        if start == head {
            assert(without_last(p, head).len() == head);
        } else {
            assert(without_last(p, head).len() == start - 1);
        }
    }
}

/// The path that `p` lies in: none for a root and for the empty path.
pub open spec fn parent(p: Seq<char>) -> Option<Seq<char>> {
    let head = head_len(p);
    let body = strip_tail(p, head);
    if body.len() > head {
        Some(strip_tail(without_last(body, head), head))
    } else if body.len() > 0 && body[0] != '/' {
        Some(Seq::empty())
    } else {
        None
    }
}

proof fn strip_tail_bounds(p: Seq<char>, head: nat)
    ensures
        strip_tail(p, head).len() <= p.len(),
        p.len() >= head ==> strip_tail(p, head).len() >= head,
    decreases p.len(),
{
    last_start_bounds(p, head);
    let last = last_component(p, head);
    if p.len() > head && (last.len() == 0 || last == seq!['.']) {
        strip_tail_bounds(without_last(p, head), head);
    }
}

/// The path that `p` lies in is shorter than `p`.
pub proof fn parent_is_shorter(p: Seq<char>)
    ensures
        parent(p) matches Some(up) ==> up.len() < p.len(),
{
    let head = head_len(p);
    let body = strip_tail(p, head);
    strip_tail_bounds(p, head);
    if body.len() > head {
        last_start_bounds(body, head);
        strip_tail_bounds(without_last(body, head), head);
        last_of_stripped(p, head);
    }
}

proof fn last_of_stripped(p: Seq<char>, head: nat)
    ensures
        strip_tail(p, head).len() > head ==> last_component(strip_tail(p, head), head).len() > 0,
    decreases p.len(),
{
    last_start_bounds(p, head);
    let last = last_component(p, head);
    if p.len() > head && (last.len() == 0 || last == seq!['.']) {
        last_of_stripped(without_last(p, head), head);
    }
}

fn last_start_of(p: &[char], len: usize, head: usize) -> (r: usize)
    requires
        len <= p@.len(),
    ensures
        r == last_start(p@.take(len as int), head as nat),
        len > head ==> head <= r <= len,
{
    let mut i: usize = len;
    while i > head && p[i - 1] != '/'
        invariant
            i <= len <= p@.len(),
            len > head ==> head <= i,
            last_start(p@.take(i as int), head as nat) == last_start(
                p@.take(len as int),
                head as nat,
            ),
        decreases i,
    {
        assert(p@.take(i as int).drop_last() =~= p@.take(i - 1));
        i -= 1;
    }
    i
}

fn strip_tail_of(p: &[char], len: usize, head: usize) -> (r: usize)
    requires
        len <= p@.len(),
    ensures
        r <= len,
        p@.take(r as int) == strip_tail(p@.take(len as int), head as nat),
    decreases len,
{
    if len <= head {
        return len;
    }
    let start: usize = last_start_of(p, len, head);
    let ghost whole = p@.take(len as int);
    assert(last_component(whole, head as nat) =~= p@.subrange(start as int, len as int));
    if start == len || (len - start == 1 && p[start] == '.') {
        let shorter: usize = if start > head {
            start - 1
        } else {
            head
        };
        assert(whole.take(shorter as int) =~= p@.take(shorter as int));
        assert(last_component(whole, head as nat).len() == 0 || last_component(whole, head as nat)
            =~= seq!['.']);
        strip_tail_of(p, shorter, head)
    } else {
        assert(last_component(whole, head as nat) != seq!['.']) by {
            if len - start == 1 {
                assert(last_component(whole, head as nat)[0] == p@[start as int]);
            }
        }
        len
    }
}

/// The path that `p` lies in: none for a root and for the empty path.
pub fn parent_of(p: &str) -> (r: Option<String>)
    ensures
        match r {
            Some(q) => Some(q@),
            None => None,
        } == parent(p@),
{
    let chars = chars_of(p);
    let head: usize = if chars.len() > 0 && (chars[0] == '/' || (chars[0] == '.' && (chars.len()
        == 1 || chars[1] == '/'))) {
        1
    } else {
        0
    };
    let whole: usize = chars.len();
    assert(chars@.take(whole as int) =~= p@);
    let len: usize = strip_tail_of(&chars, whole, head);
    let ghost body = p@.take(len as int);
    if len > head {
        let start: usize = last_start_of(&chars, len, head);
        let shorter: usize = if start > head {
            start - 1
        } else {
            head
        };
        assert(without_last(body, head as nat) =~= p@.take(shorter as int));
        let end: usize = strip_tail_of(&chars, shorter, head);
        let q = string_of(&chars, 0, end);
        assert(q@ =~= p@.take(end as int));
        Some(q)
    } else if len > 0 && chars[0] != '/' {
        Some(String::new())
    } else {
        None
    }
}

/// The components among the pieces of a path between separators: empty ones and
/// `.` are none, but for a `.` in front where `lead` says so.
pub open spec fn ordinary(pieces: Seq<Seq<char>>, lead: bool) -> Seq<Seq<char>>
    decreases pieces.len(),
{
    if pieces.len() == 0 {
        Seq::empty()
    } else {
        let rest = ordinary(pieces.drop_last(), lead);
        let piece = pieces.last();
        if piece.len() == 0 || (piece == seq!['.'] && !(lead && pieces.len() == 1)) {
            rest
        } else {
            rest.push(piece)
        }
    }
}

/// The components of a path; an absolute one begins with `/`.
pub open spec fn components(p: Seq<char>) -> Seq<Seq<char>> {
    if p.len() > 0 && p[0] == '/' {
        seq!["/"@] + ordinary(split(p, '/'), false)
    } else {
        ordinary(split(p, '/'), true)
    }
}

/// Whether a path is absolute.
pub fn is_absolute(p: &str) -> (r: bool)
    ensures
        r == (p@.len() > 0 && p@[0] == '/'),
{
    let chars = chars_of(p);
    chars.len() > 0 && chars[0] == '/'
}

/// The components of a path; an absolute one begins with `/`.
pub fn components_of(p: &str) -> (r: Vec<String>)
    ensures
        views(r@) == components(p@),
{
    let absolute = is_absolute(p);
    let pieces = split_on(p, '/');
    let mut out: Vec<String> = Vec::new();
    if absolute {
        out.push("/".to_owned());
    }
    let ghost head = views(out@);
    let ghost all = views(pieces@);
    let mut i: usize = 0;
    while i < pieces.len()
        invariant
            i <= pieces@.len(),
            all == views(pieces@),
            views(out@) == head + ordinary(all.take(i as int), !absolute),
        decreases pieces@.len() - i,
    {
        let piece = &pieces[i];
        assert(all.take(i + 1).drop_last() =~= all.take(i as int));
        assert(all.take(i + 1).last() == piece@);
        let ghost before = out@;
        proof {
            reveal_strlit(".");
            assert("."@ =~= seq!['.']);
        }
        if !(piece.as_str().is_empty() || (same(piece, ".") && !(!absolute && i == 0))) {
            out.push(piece.clone());
            assert(views(out@) =~= views(before).push(piece@));
            assert(views(out@) =~= head + ordinary(all.take(i + 1), !absolute));
        }
        i += 1;
    }
    assert(all.take(i as int) =~= all);
    assert(views(out@) =~= components(p@));
    out
}

/// Whether two paths have the same components.
pub fn same_path(a: &str, b: &str) -> (r: bool)
    ensures
        r == (components(a@) == components(b@)),
{
    let x = components_of(a);
    let y = components_of(b);
    if x.len() != y.len() {
        assert(views(x@).len() != views(y@).len());
        return false;
    }
    let mut i: usize = 0;
    while i < x.len()
        invariant
            i <= x@.len(),
            x@.len() == y@.len(),
            views(x@) == components(a@),
            views(y@) == components(b@),
            forall|j: int| 0 <= j < i ==> views(x@)[j] == views(y@)[j],
        decreases x@.len() - i,
    {
        if !same(&x[i], &y[i]) {
            assert(views(x@)[i as int] != views(y@)[i as int]);
            return false;
        }
        i += 1;
    }
    assert(views(x@) =~= views(y@));
    true
}

/// Where the extension of a file's path begins, with its dot: at the last dot of the name,
/// unless the name begins with it.
pub open spec fn extension_at(p: Seq<char>) -> int
    decreases p.len(),
{
    if p.len() == 0 || p.last() == '/' {
        -1
    } else if p.last() == '.' {
        if p.len() > 1 && p[p.len() - 2] != '/' {
            p.len() - 1
        } else {
            -1
        }
    } else {
        extension_at(p.drop_last())
    }
}

/// A file's path with another extension.
pub open spec fn with_extension(p: Seq<char>, extension: Seq<char>) -> Seq<char> {
    let at = extension_at(p);
    (if at >= 0 {
        p.take(at)
    } else {
        p
    }) + "."@ + extension
}

/// A file's path with another extension.
pub fn path_with_extension(p: &str, extension: &str) -> (r: String)
    ensures
        r@ == with_extension(p@, extension@),
{
    let chars = chars_of(p);
    let mut i: usize = chars.len();
    let mut cut: usize = chars.len();
    assert(p@.take(i as int) =~= p@);
    let mut looking: bool = true;
    while looking && i > 0
        invariant
            chars@ == p@,
            i <= chars@.len(),
            cut <= chars@.len(),
            looking ==> cut == chars@.len() && extension_at(p@.take(i as int)) == extension_at(p@),
            !looking ==> extension_at(p@) == if cut < chars@.len() {
                cut as int
            } else {
                -1
            },
        decreases i,
    {
        assert(p@.take(i as int).last() == p@[i - 1]);
        assert(p@.take(i as int).drop_last() =~= p@.take(i - 1));
        if chars[i - 1] == '/' {
            looking = false;
        } else if chars[i - 1] == '.' {
            if i > 1 && chars[i - 2] != '/' {
                cut = i - 1;
            }
            looking = false;
        }
        i = i - 1;
    }
    if looking {
        assert(p@.take(0).len() == 0);
    }
    if cut == chars.len() {
        assert(p@.take(cut as int) =~= p@);
    }
    string_of(&chars, 0, cut).concat(".").concat(extension)
}

/// A name that stands behind a separator, or at the start, is the last component.
proof fn a_name_comes_last(base: Seq<char>, name: Seq<char>, head: nat)
    requires
        !name.contains('/'),
        base.len() > head && base.last() == '/' || base.len() == head,
    ensures
        last_start(base + name, head) == base.len(),
    decreases name.len(),
{
    let p = base + name;
    if name.len() == 0 {
        assert(p =~= base);
    } else {
        assert(name.contains(name.last()));
        assert(p.last() == name.last());
        assert(p.drop_last() =~= base + name.drop_last());
        assert(!name.drop_last().contains('/')) by {
            if name.drop_last().contains('/') {
                let i = choose|i: int| 0 <= i < name.drop_last().len() && name.drop_last()[i] == '/';
                assert(name[i] == '/');
            }
        }
        a_name_comes_last(base, name.drop_last(), head);
    }
}

/// Whether a text is the name of a file: not empty, without a separator, and not `.`.
pub open spec fn is_name(name: Seq<char>) -> bool {
    name.len() > 0 && !name.contains('/') && name != seq!['.']
}

/// What lies in a directory of a plain name lies in that directory.
pub proof fn parent_of_a_file(above: Seq<char>, directory: Seq<char>, file: Seq<char>)
    requires
        is_name(directory),
        is_name(file),
        above.len() > 1 && above.last() == '/',
    ensures
        parent(above + directory + "/"@ + file) == Some(above + directory),
{
    reveal_strlit("/");
    let base = above + directory;
    let p = base + "/"@ + file;
    let head = head_len(p);
    a_name_comes_last(base + "/"@, file, head);
    assert(last_component(p, head) =~= file);
    assert(strip_tail(p, head) == p);
    assert(without_last(p, head) =~= base);
    a_name_comes_last(above, directory, head);
    assert(last_component(base, head) =~= directory);
    assert(strip_tail(base, head) == base);
}

} // verus!

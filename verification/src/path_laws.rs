//! What holds of paths.

use vstd::prelude::*;

#[allow(unused_imports)]
use crate::path::{extension_at, is_name, join, parent, parent_of_a_file, with_extension};

verus! {

/// Whether a text ends where a name begins: at the start, or behind a separator.
pub open spec fn a_name_may_follow(front: Seq<char>) -> bool {
    front.len() == 0 || front.last() == '/'
}

proof fn a_dot_before_the_end(p: Seq<char>, rest: Seq<char>)
    requires
        !rest.contains('/'),
        !rest.contains('.'),
    ensures
        extension_at(p + rest) == extension_at(p),
    decreases rest.len(),
{
    if rest.len() == 0 {
        assert(p + rest =~= p);
    } else {
        let less = rest.drop_last();
        assert(rest.contains(rest.last()));
        assert((p + rest).last() == rest.last());
        assert((p + rest).drop_last() =~= p + less);
        assert(!less.contains('/')) by {
            if less.contains('/') {
                let i = choose|i: int| 0 <= i < less.len() && less[i] == '/';
                assert(rest[i] == '/');
            }
        }
        assert(!less.contains('.')) by {
            if less.contains('.') {
                let i = choose|i: int| 0 <= i < less.len() && less[i] == '.';
                assert(rest[i] == '.');
            }
        }
        a_dot_before_the_end(p, less);
    }
}

/// The extension of a name is what stands behind its last dot. Another extension takes its
/// place, dots of its own and all, and the name before it and the path before the name stay. A
/// name without a dot, or with one at its beginning alone, gets the extension at its end.
pub proof fn another_extension_takes_its_place(
    front: Seq<char>,
    stem: Seq<char>,
    last: Seq<char>,
    extension: Seq<char>,
)
    requires
        a_name_may_follow(front),
        stem.len() > 0,
        !stem.contains('/'),
        !last.contains('/'),
        !last.contains('.'),
    ensures
        with_extension(front + stem + seq!['.'] + last, extension) == front + stem + seq!['.']
            + extension,
        !stem.contains('.') ==> with_extension(front + stem, extension) == front + stem + seq!['.']
            + extension,
        with_extension(front + seq!['.'] + last, extension) == front + seq!['.'] + last + seq!['.']
            + extension,
{
    reveal_strlit(".");
    assert("."@ =~= seq!['.']);
    let p = front + stem + seq!['.'];
    a_dot_before_the_end(p, last);
    assert(stem.contains(stem.last()));
    assert(p[p.len() - 2] == stem.last());
    assert(p.last() == '.');
    assert(extension_at(p) == p.len() - 1);
    assert((p + last).take(p.len() - 1) =~= front + stem);
    a_dot_before_the_end(front, stem.take(0));
    if !stem.contains('.') {
        a_dot_before_the_end(front, stem);
        assert(extension_at(front) == -1);
    }
    let q = front + seq!['.'];
    a_dot_before_the_end(q, last);
    assert(q.last() == '.');
    assert(extension_at(q) == -1) by {
        if q.len() > 1 {
            assert(q[q.len() - 2] == front.last());
        }
    }
    assert(front + seq!['.'] + last =~= q + last);
}

/// A file of a directory lies in that directory, and a file that is put beside another one, by
/// the directory that the other lies in, lies there too.
pub proof fn a_file_lies_beside_another(
    above: Seq<char>,
    directory: Seq<char>,
    file: Seq<char>,
    other: Seq<char>,
)
    requires
        is_name(directory),
        is_name(file),
        is_name(other),
        above.len() > 1 && above.last() == '/',
    ensures
        parent(join(above + directory, file)) == Some(above + directory),
        parent(join(parent(join(above + directory, file))->0, other)) == parent(
            join(above + directory, file),
        ),
{
    assert(file.contains(file[0]));
    assert(other.contains(other[0]));
    assert(directory.contains(directory.last()));
    assert((above + directory).last() == directory.last());
    parent_of_a_file(above, directory, file);
    parent_of_a_file(above, directory, other);
}

} // verus!

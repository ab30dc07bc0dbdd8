//! What holds of the files of templates.

use vstd::prelude::*;

#[allow(unused_imports)]
use super::registry::{without, Catalog, Disk};
#[allow(unused_imports)]
use super::{
    among, boot_verdict, owner, same_place, stays_below, Architecture, Artifact, ImageManifest,
    Template, Wanted,
};
#[allow(unused_imports)]
use crate::digest::{hex, sha256};
#[allow(unused_imports)]
use crate::path;
#[allow(unused_imports)]
use crate::text::{first_at, first_at_bounds, first_at_is, opt_view, split};

verus! {

/// Whether a file below the root can be pinned: its path stays below the root, and it is a
/// regular file that can be read.
pub open spec fn can_be_pinned(disk: Disk, p: Seq<char>) -> bool {
    &&& stays_below(p)
    &&& (disk.stats)(p) is Ok
    &&& (disk.stats)(p)->Ok_0.regular
    &&& (disk.bytes)(p) is Ok
}

/// Whether a pinned file is the one at that path, as it is.
pub open spec fn is_pin_of(disk: Disk, p: Seq<char>, artifact: Artifact) -> bool {
    let found = (disk.stats)(p)->Ok_0;
    &&& artifact.path == p
    &&& artifact.device == found.device
    &&& artifact.inode == found.inode
    &&& artifact.length == found.length
    &&& artifact.sha256 == hex(sha256((disk.bytes)(p)->Ok_0))
}

/// A template is built exactly where each of its files can be pinned and its kernel is one that
/// the host boots. It has the name, the version and the command line that were asked for, and
/// each of its files is pinned by its path, its identity, its length and its digest.
pub proof fn a_template_pins_its_files(disk: Disk, wanted: Wanted, host: Option<Architecture>)
    ensures
        disk.template(wanted, host) is Ok <==> {
            &&& can_be_pinned(disk, wanted.kernel)
            &&& can_be_pinned(disk, wanted.rootfs)
            &&& wanted.initrd is Some ==> can_be_pinned(disk, wanted.initrd->0)
            &&& host is Some ==> boot_verdict(
                wanted.kernel,
                (disk.bytes)(wanted.kernel)->Ok_0,
                host->0,
            ) is Ok
        },
        disk.template(wanted, host) matches Ok(t) ==> {
            &&& t.name == wanted.alias
            &&& t.version == wanted.version
            &&& t.boot_args == wanted.boot_args
            &&& is_pin_of(disk, wanted.kernel, t.kernel)
            &&& is_pin_of(disk, wanted.rootfs, t.rootfs)
            &&& t.initrd is Some == wanted.initrd is Some
            &&& wanted.initrd is Some ==> is_pin_of(disk, wanted.initrd->0, t.initrd->0)
        },
{
}

proof fn pieces_of_two(a: Seq<char>, b: Seq<char>)
    ensures
        split(a + seq!['/'] + b, '/') == split(a, '/') + split(b, '/'),
    decreases a.len(),
{
    let s = a + seq!['/'] + b;
    first_at_bounds(a, '/');
    let i = first_at(a, '/');
    if i < a.len() {
        assert(s[i] == '/');
        assert forall|j: int| 0 <= j < i implies s[j] != '/' by {
            assert(s[j] == a[j]);
        }
        first_at_is(s, '/', i);
        assert(s.take(i) =~= a.take(i));
        assert(s.skip(i + 1) =~= a.skip(i + 1) + seq!['/'] + b);
        pieces_of_two(a.skip(i + 1), b);
        assert(split(s, '/') =~= split(a, '/') + split(b, '/'));
    } else {
        let n = a.len() as int;
        assert(s[n] == '/');
        assert forall|j: int| 0 <= j < n implies s[j] != '/' by {
            assert(s[j] == a[j]);
        }
        first_at_is(s, '/', n);
        assert(s.take(n) =~= a);
        assert(s.skip(n + 1) =~= b);
        assert(split(s, '/') =~= split(a, '/') + split(b, '/'));
    }
}

proof fn a_step_up_is_one_piece()
    ensures
        split(".."@, '/') == seq![".."@],
{
    reveal_strlit("..");
    first_at_bounds(".."@, '/');
    assert(".."@[0] != '/' && ".."@[1] != '/');
}

/// A path that is absolute, or that climbs at its beginning, at its end or in between, is
/// refused. Two paths that stay below where they start do so one behind the other.
pub proof fn a_path_that_climbs_is_refused(a: Seq<char>, b: Seq<char>)
    ensures
        !stays_below(seq!['/'] + b),
        !stays_below(".."@),
        !stays_below(".."@ + seq!['/'] + b),
        !stays_below(a + seq!['/'] + ".."@),
        !stays_below(a + seq!['/'] + (".."@ + seq!['/'] + b)),
        stays_below(a) && stays_below(b) ==> stays_below(a + seq!['/'] + b),
{
    a_step_up_is_one_piece();
    let up = ".."@;
    assert(split(up, '/')[0] == up);
    pieces_of_two(up, b);
    assert(split(up + seq!['/'] + b, '/')[0] == up);
    pieces_of_two(a, up);
    assert(split(a + seq!['/'] + up, '/')[split(a, '/').len() as int] == up);
    pieces_of_two(a, up + seq!['/'] + b);
    assert(split(a + seq!['/'] + (up + seq!['/'] + b), '/')[split(a, '/').len() as int] == up);
    pieces_of_two(a, b);
    if stays_below(a) && stays_below(b) {
        let both = split(a + seq!['/'] + b, '/');
        assert((a + seq!['/'] + b)[0] == a[0]);
        let n = split(a, '/').len() as int;
        assert forall|i: int| 0 <= i < both.len() implies #[trigger] both[i] != "."@ && both[i]
            != ".."@ by {
            if i < n {
                assert(both[i] == split(a, '/')[i]);
            } else {
                assert(both[i] == split(b, '/')[i - n]);
            }
        }
    }
}

proof fn components_of_pieces(a: Seq<Seq<char>>, b: Seq<Seq<char>>, lead: bool)
    requires
        a.len() > 0,
    ensures
        path::ordinary(a + b, lead) == path::ordinary(a, lead) + path::ordinary(b, false),
    decreases b.len(),
{
    if b.len() == 0 {
        assert(a + b =~= a);
        assert(path::ordinary(a, lead) + path::ordinary(b, false) =~= path::ordinary(a, lead));
    } else {
        components_of_pieces(a, b.drop_last(), lead);
        assert((a + b).drop_last() =~= a + b.drop_last());
        assert((a + b).last() == b.last());
        assert(path::ordinary(a + b, lead) =~= path::ordinary(a, lead) + path::ordinary(b, false));
    }
}

proof fn without_a_dot_in_front(pieces: Seq<Seq<char>>)
    requires
        pieces.len() > 0 ==> pieces[0] != seq!['.'],
    ensures
        path::ordinary(pieces, true) == path::ordinary(pieces, false),
    decreases pieces.len(),
{
    if pieces.len() > 0 {
        without_a_dot_in_front(pieces.drop_last());
    }
}

proof fn pieces_are_some(s: Seq<char>)
    ensures
        split(s, '/').len() > 0,
{
    first_at_bounds(s, '/');
}

/// A file whose path stays below where it starts lies below the image root: its place is that
/// of the root, followed by the path, step by step, and no step leads up.
pub proof fn a_file_lies_below_its_root(root: Seq<char>, p: Seq<char>)
    requires
        stays_below(p),
        root.len() > 0,
        root.last() != '/',
    ensures
        path::components(path::join(root, p)) == path::components(root) + path::components(p),
        !path::components(p).contains(".."@),
{
    reveal_strlit("/");
    reveal_strlit(".");
    assert("/"@ =~= seq!['/']);
    assert("."@ =~= seq!['.']);
    let whole = root + seq!['/'] + p;
    assert(path::join(root, p) == whole);
    pieces_of_two(root, p);
    pieces_are_some(root);
    pieces_are_some(p);
    assert(whole[0] == root[0]);
    let lead = root[0] != '/';
    components_of_pieces(split(root, '/'), split(p, '/'), lead);
    assert(split(p, '/')[0] != "."@);
    without_a_dot_in_front(split(p, '/'));
    assert(path::components(whole) =~= path::components(root) + path::components(p));
    components_are_pieces(split(p, '/'), true);
    if path::components(p).contains(".."@) {
        assert(split(p, '/').contains(".."@));
        let i = choose|i: int| 0 <= i < split(p, '/').len() && split(p, '/')[i] == ".."@;
        assert(split(p, '/')[i] != ".."@);
    }
}

proof fn components_are_pieces(pieces: Seq<Seq<char>>, lead: bool)
    ensures
        forall|c: Seq<char>|
            path::ordinary(pieces, lead).contains(c) ==> #[trigger] pieces.contains(c),
    decreases pieces.len(),
{
    if pieces.len() > 0 {
        let less = pieces.drop_last();
        components_are_pieces(less, lead);
        assert forall|c: Seq<char>|
            path::ordinary(pieces, lead).contains(c) implies #[trigger] pieces.contains(c) by {
            let all = path::ordinary(pieces, lead);
            let rest = path::ordinary(less, lead);
            let i = choose|i: int| 0 <= i < all.len() && all[i] == c;
            if i < rest.len() {
                assert(rest[i] == c);
                assert(rest.contains(c));
                assert(less.contains(c));
                let j = choose|j: int| 0 <= j < less.len() && less[j] == c;
                assert(pieces[j] == c);
            } else {
                assert(pieces[pieces.len() - 1] == c);
            }
        }
    }
}

/// Whether a file is one of a template: its kernel, its root filesystem or its initrd, by
/// whatever spelling of its path.
pub open spec fn has_file(w: Wanted, file: Seq<char>) -> bool {
    ||| same_place(w.kernel, file)
    ||| same_place(w.rootfs, file)
    ||| (w.initrd is Some && same_place(w.initrd->0, file))
}

proof fn files_of_a_template(w: Wanted, file: Seq<char>)
    ensures
        among(w.files(), file) <==> has_file(w, file),
{
    let all = w.files();
    assert(all[0] == w.kernel && all[1] == w.rootfs);
    if w.initrd is Some {
        assert(all[2] == w.initrd->0);
    }
}

/// A file belongs to the first of some templates that has it, and to none exactly where none of
/// them has it.
pub proof fn a_file_belongs_to_the_first_that_has_it(catalog: Seq<Wanted>, file: Seq<char>)
    ensures
        owner(catalog, file) is None <==> forall|i: int|
            0 <= i < catalog.len() ==> !has_file(#[trigger] catalog[i], file),
        forall|i: int|
            0 <= i < catalog.len() && has_file(#[trigger] catalog[i], file) && (forall|j: int|
                0 <= j < i ==> !has_file(#[trigger] catalog[j], file)) ==> owner(catalog, file)
                == Some(catalog[i].alias),
    decreases catalog.len(),
{
    if catalog.len() > 0 {
        let rest = catalog.skip(1);
        files_of_a_template(catalog[0], file);
        a_file_belongs_to_the_first_that_has_it(rest, file);
        if !has_file(catalog[0], file) {
            assert forall|i: int| 0 < i < catalog.len() implies #[trigger] catalog[i] == rest[i
                - 1] by {}
            assert forall|i: int| 0 <= i < rest.len() implies #[trigger] rest[i] == catalog[i
                + 1] by {}
            assert forall|i: int|
                0 <= i < catalog.len() && has_file(#[trigger] catalog[i], file) && (forall|j: int|
                    0 <= j < i ==> !has_file(#[trigger] catalog[j], file)) implies owner(
                catalog,
                file,
            ) == Some(catalog[i].alias) by {
                assert(i > 0);
                assert forall|j: int| 0 <= j < i - 1 implies !has_file(
                    #[trigger] rest[j],
                    file,
                ) by {
                    assert(rest[j] == catalog[j + 1]);
                }
                assert(rest[i - 1] == catalog[i]);
            }
            if owner(catalog, file) is None {
                assert forall|i: int| 0 <= i < catalog.len() implies !has_file(
                    #[trigger] catalog[i],
                    file,
                ) by {
                    if i > 0 {
                        assert(!has_file(rest[i - 1], file));
                    }
                }
            }
            if forall|i: int| 0 <= i < catalog.len() ==> !has_file(#[trigger] catalog[i], file) {
                assert forall|i: int| 0 <= i < rest.len() implies !has_file(
                    #[trigger] rest[i],
                    file,
                ) by {
                    assert(rest[i] == catalog[i + 1]);
                }
            }
        }
    }
}

/// Each published image has one template, in the order of the images: with the files for ARM on
/// a host that is `aarch64`, and with the files for x86 on every other.
pub proof fn each_machine_gets_its_own_files(manifest: ImageManifest, machine: Seq<char>)
    ensures
        manifest.wanted(machine).len() == manifest.images@.len(),
        forall|i: int|
            0 <= i < manifest.images@.len() ==> {
                let image = manifest.images@[i];
                let w = #[trigger] manifest.wanted(machine)[i];
                let arm = image.aarch64->0;
                let x86 = image.x86_64->0;
                &&& w.alias == image.alias@
                &&& w.version == image.template_version@
                &&& machine == "aarch64"@ ==> w.kernel == arm.kernel@ && w.rootfs == arm.rootfs@
                    && w.initrd == opt_view(arm.initrd) && w.boot_args == arm.boot_args@
                &&& machine != "aarch64"@ ==> w.kernel == x86.kernel@ && w.rootfs == x86.rootfs@
                    && w.initrd == opt_view(x86.initrd) && w.boot_args == x86.boot_args@
            },
{
}

/// Forgetting an alias takes away each registration of it, and no other: the others stay, in
/// their order.
pub proof fn only_that_alias_is_forgotten(
    before: Seq<Wanted>,
    entry: Wanted,
    behind: Seq<Wanted>,
    alias: Seq<char>,
)
    ensures
        without(Seq::empty(), alias) == Seq::<Wanted>::empty(),
        without(before + behind, alias) == without(before, alias) + without(behind, alias),
        without(before.push(entry), alias) == if entry.alias == alias {
            without(before, alias)
        } else {
            without(before, alias).push(entry)
        },
{
    reveal(Seq::filter);
    let keep = |e: Wanted| e.alias != alias;
    assert(Seq::<Wanted>::empty().filter(keep) =~= Seq::<Wanted>::empty());
    Seq::filter_distributes_over_add(before, behind, keep);
    assert(before.push(entry).drop_last() =~= before);
}

/// What goes with a template is exactly what may go: a path is among what goes exactly where it
/// is that of a file of the template, below the root, that no template which stays has, that is
/// no kernel managed on its own, and that no published image of another alias has first.
pub proof fn what_may_go_goes(
    catalog: Catalog,
    gone: Template,
    managed: Seq<Seq<char>>,
    published: Seq<Wanted>,
    p: Seq<char>,
)
    ensures
        catalog.orphans(gone, managed, published).contains(p) <==> exists|i: int|
            {
                &&& 0 <= i < gone.files().len()
                &&& p == path::join(catalog.root, #[trigger] gone.files()[i])
                &&& forall|k: (Seq<char>, Seq<char>)| #[trigger]
                    catalog.templates.contains_key(k) ==> !among(
                        catalog.templates[k].files(),
                        gone.files()[i],
                    )
                &&& forall|j: int|
                    0 <= j < managed.len() ==> !same_place(#[trigger] managed[j], gone.files()[i])
                &&& (owner(published, gone.files()[i]) is None || owner(
                    published,
                    gone.files()[i],
                ) == Some(gone.name))
            },
{
    let files = gone.files();
    let may = |f: Seq<char>| catalog.may_go(gone, managed, published, f);
    let kept = files.filter(may);
    let all = catalog.orphans(gone, managed, published);
    if all.contains(p) {
        let i = choose|i: int| 0 <= i < all.len() && all[i] == p;
        assert(all[i] == path::join(catalog.root, kept[i]));
        files.lemma_filter_pred(may, i);
        files.lemma_filter_contains_rev(may, kept[i]);
        let j = choose|j: int| 0 <= j < files.len() && files[j] == kept[i];
        assert(files[j] == kept[i]);
    }
    if exists|i: int|
        0 <= i < files.len() && p == path::join(catalog.root, #[trigger] files[i]) && may(files[i]) {
        let i = choose|i: int|
            0 <= i < files.len() && p == path::join(catalog.root, #[trigger] files[i]) && may(
                files[i],
            );
        files.lemma_filter_contains(may, i);
        let j = choose|j: int| 0 <= j < kept.len() && kept[j] == files[i];
        assert(all[j] == p);
    }
}

} // verus!

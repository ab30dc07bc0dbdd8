//! Where a kernel is kept, and where it is put together.

use vstd::prelude::*;

#[allow(unused_imports)]
use super::kernel::{Job, Pinned};
#[allow(unused_imports)]
use crate::path::{self, is_name, parent};
#[allow(unused_imports)]
use crate::path_laws::a_file_lies_beside_another;
#[allow(unused_imports)]
use crate::templates::Architecture;
#[allow(unused_imports)]
use crate::text::{starts_with, trim_end_of};

verus! {

/// The directory of the cache for a machine, below the image root.
pub open spec fn shelf(architecture: Architecture) -> Seq<char> {
    match architecture {
        Architecture::X86_64 => ".oci/kernel/x86_64"@,
        Architecture::Aarch64 => ".oci/kernel/aarch64"@,
    }
}

proof fn words_of_the_cache()
    ensures
        "/"@ == seq!['/'],
        ".oci/kernel/x86_64"@ == ".oci/kernel"@ + "/"@ + "x86_64"@,
        ".oci/kernel/aarch64"@ == ".oci/kernel"@ + "/"@ + "aarch64"@,
        ".oci/kernel"@.len() == 11 && ".oci/kernel"@[0] == '.' && ".oci/kernel"@.last() == 'l',
        is_name("x86_64"@) && "x86_64"@[0] == 'x' && "x86_64"@.last() == '4' && "x86_64"@.len()
            == 6,
        is_name("aarch64"@) && "aarch64"@[0] == 'a' && "aarch64"@.last() == '4' && "aarch64"@.len()
            == 7,
        "."@ == seq!['.'],
        "-"@ == seq!['-'],
        ".partial"@.len() == 8 && !".partial"@.contains('/'),
{
    reveal_strlit("/");
    reveal_strlit(".");
    reveal_strlit("-");
    reveal_strlit(".partial");
    reveal_strlit(".oci/kernel");
    reveal_strlit("x86_64");
    reveal_strlit("aarch64");
    reveal_strlit(".oci/kernel/x86_64");
    reveal_strlit(".oci/kernel/aarch64");
    assert("/"@ =~= seq!['/']);
    assert("."@ =~= seq!['.']);
    assert("-"@ =~= seq!['-']);
    assert(".oci/kernel/x86_64"@ =~= ".oci/kernel"@ + "/"@ + "x86_64"@);
    assert(".oci/kernel/aarch64"@ =~= ".oci/kernel"@ + "/"@ + "aarch64"@);
    let x = "x86_64"@;
    assert(!x.contains('/')) by {
        assert(x[0] != '/' && x[1] != '/' && x[2] != '/' && x[3] != '/' && x[4] != '/' && x[5]
            != '/');
    }
    let a = "aarch64"@;
    assert(!a.contains('/')) by {
        assert(a[0] != '/' && a[1] != '/' && a[2] != '/' && a[3] != '/' && a[4] != '/' && a[5]
            != '/' && a[6] != '/');
    }
    let p = ".partial"@;
    assert(!p.contains('/')) by {
        assert(p[0] != '/' && p[1] != '/' && p[2] != '/' && p[3] != '/' && p[4] != '/' && p[5]
            != '/' && p[6] != '/' && p[7] != '/');
    }
    assert(x != seq!['.'] && a != seq!['.']);
}

/// A kernel is kept under its name, in the directory of its machine below the image root, and
/// what a job gives names it by its path below the root. It is put together in that very
/// directory, under another name, so that it can be moved into its place at once.
pub proof fn a_kernel_is_put_together_beside_its_place(job: Job)
    requires
        job.image_root.len() > 0,
        job.image_root.last() != '/',
        is_name(job.pinned.image),
        !job.token.contains('/'),
    ensures
        job.pair().kernel == shelf(job.architecture) + "/"@ + job.pinned.image,
        job.cached() == job.image_root + "/"@ + shelf(job.architecture) + "/"@ + job.pinned.image,
        parent(job.cached()) == Some(job.image_root + "/"@ + shelf(job.architecture)),
        parent(job.staged()) == parent(job.cached()),
        job.staged() != job.cached(),
{
    words_of_the_cache();
    let root = job.image_root;
    let machine = job.architecture.name();
    let image = job.pinned.image;
    let above = root + "/"@ + ".oci/kernel"@ + "/"@;
    assert(image.contains(image[0]));
    assert(path::join(".oci/kernel"@, machine) == ".oci/kernel"@ + "/"@ + machine);
    assert(shelf(job.architecture) == ".oci/kernel"@ + "/"@ + machine);
    let shelved = shelf(job.architecture);
    assert(shelved.last() == '4');
    assert(job.relative() == shelved + "/"@ + image);
    assert(job.relative()[0] == '.');
    assert(job.cached() =~= root + "/"@ + shelved + "/"@ + image);
    assert(above + machine =~= root + "/"@ + shelved);
    let temporary = "."@ + image + "-"@ + job.token + ".partial"@;
    assert(is_name(temporary)) by {
        if temporary.contains('/') {
            let i = choose|i: int| 0 <= i < temporary.len() && temporary[i] == '/';
            let n = image.len() as int;
            let m = job.token.len() as int;
            if i == 0 {
            } else if i < 1 + n {
                assert(image[i - 1] == '/');
            } else if i == 1 + n {
            } else if i < 2 + n + m {
                assert(job.token[i - 2 - n] == '/');
            } else {
                assert(".partial"@[i - 2 - n - m] == '/');
            }
        }
        assert(temporary.len() > 1);
    }
    a_file_lies_beside_another(above, machine, image, temporary);
    assert((above + machine).last() == '4');
    assert(path::join(above + machine, image) == above + machine + "/"@ + image);
    assert(above + machine + "/"@ + image =~= job.cached());
    assert(job.directory() == above + machine);
    assert(job.staged() == path::join(above + machine, temporary));
    assert(temporary.contains(temporary[0]));
    assert(job.staged().len() == (above + machine).len() + 1 + temporary.len());
}

/// The registry is asked for the package of the release and of the machine: the address ends
/// with both and the release's name, whether or not the registry was given with separators at
/// its end.
pub proof fn a_package_is_asked_for_by_its_release(job: Job, base: Seq<char>)
    requires
        job.base_url == Some(base),
        base.len() > 0,
        base.last() != '/',
    ensures
        job.url() == base + "/kernel/"@ + job.pinned.version + "/"@ + (match job.architecture {
            Architecture::X86_64 => "x86_64"@,
            Architecture::Aarch64 => "aarch64"@,
        }) + "/"@ + job.pinned.alias + ".tar.zst"@,
        (Job { base_url: Some(base + seq!['/']), ..job }).url() == job.url(),
{
    reveal_strlit("/");
    reveal_strlit("kernel/");
    reveal_strlit("/kernel/");
    assert(trim_end_of(base, '/') == base);
    let more = base + seq!['/'];
    assert(more.drop_last() =~= base);
    assert(trim_end_of(more, '/') == base);
    assert("/"@ + "kernel/"@ =~= "/kernel/"@);
    assert(job.url() =~= base + "/kernel/"@ + job.pinned.version + "/"@ + job.architecture.name()
        + "/"@ + job.pinned.alias + ".tar.zst"@);
}

} // verus!

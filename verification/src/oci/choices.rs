//! What is chosen and changed on the way to a bootable guest.

use vstd::prelude::*;

#[allow(unused_imports)]
use super::archive::{archived_bytes, archived_path, inflated, over_at};
#[allow(unused_imports)]
use super::kernel::{kernel_bytes, kernel_verdict, lifted, membership, Membership, Pinned};
#[allow(unused_imports)]
use super::provision::{
    lists_serial_console, root_line, with_root_shell, with_serial_console, with_shell,
};
#[allow(unused_imports)]
use super::Refusal;
#[allow(unused_imports)]
use crate::digest::{is_pin, pin};
#[allow(unused_imports)]
use crate::templates::{boot_verdict, kernel_format, Architecture, KernelFormat, Problem};
#[allow(unused_imports)]
use crate::text::{
    first_at, first_at_bounds, first_at_is, join, lines, replace, split, starts_with, strip_cr,
    trim, trim_end, trim_start,
};
#[allow(unused_imports)]
use crate::text_laws::{ended_lines, pieces_make_the_text};

verus! {

proof fn lines_of_two(a: Seq<char>, b: Seq<char>)
    requires
        a.len() == 0 || a.last() == '\n',
    ensures
        lines(a + b) == lines(a) + lines(b),
    decreases a.len(),
{
    if a.len() == 0 {
        assert(a + b =~= b);
        assert(lines(a) + lines(b) =~= lines(b));
    } else {
        let whole = a + b;
        let i = first_at(a, '\n');
        first_at_bounds(a, '\n');
        assert(a[a.len() - 1] == '\n');
        assert(i < a.len()) by {
            if i >= a.len() {
                assert(a[a.len() - 1] != '\n');
            }
        }
        assert forall|j: int| 0 <= j < i implies whole[j] != '\n' by {
            assert(whole[j] == a[j]);
        }
        assert(whole[i] == a[i]);
        first_at_is(whole, '\n', i);
        assert(whole.take(i) =~= a.take(i));
        assert(whole.skip(i + 1) =~= a.skip(i + 1) + b);
        let rest = a.skip(i + 1);
        if rest.len() > 0 {
            assert(rest.last() == a.last());
        }
        lines_of_two(rest, b);
        assert(lines(whole) =~= lines(a) + lines(b));
    }
}

/// A list of terminals to which the serial console is added lists it, and begins with what it
/// held before.
pub proof fn the_serial_console_is_listed(text: Seq<char>)
    ensures
        lists_serial_console(with_serial_console(text)),
        starts_with(with_serial_console(text), text),
{
    reveal_strlit("ttyS0\n");
    reveal_strlit("ttyS0");
    reveal_strlit("\n");
    let added = "ttyS0\n"@;
    let before = if text.len() > 0 && text.last() != '\n' {
        text + "\n"@
    } else {
        text
    };
    let whole = with_serial_console(text);
    assert(whole =~= before + added);
    assert(whole.subrange(0, text.len() as int) =~= text);
    lines_of_two(before, added);
    first_at_is(added, '\n', 5);
    assert(added.take(5) =~= "ttyS0"@);
    assert(added.skip(6) =~= Seq::empty());
    assert(lines(added.skip(6)) =~= Seq::empty());
    assert(strip_cr("ttyS0"@) == "ttyS0"@);
    assert(lines(added) =~= seq!["ttyS0"@]);
    let all = lines(whole);
    let trimmed = all.map_values(|l: Seq<char>| trim(l));
    let n = lines(before).len() as int;
    assert(all[n] == "ttyS0"@);
    let t = "ttyS0"@;
    assert(!crate::text::is_space(t[0]) && !crate::text::is_space(t.last()));
    assert(trim_start(t) == t);
    assert(trim_end(t) == t);
    assert(trimmed[n] == "ttyS0"@);
    assert(trimmed.contains("ttyS0"@));
}

/// Whether a line is that of root, with a shell in the last of its seven fields and every
/// other field as in another line.
pub open spec fn gives_root(line: Seq<char>, before: Seq<char>, shell: Seq<char>) -> bool {
    if split(before, ':').len() >= 7 {
        line == join(split(before, ':').update(6, shell), seq![':'])
    } else {
        line == "root:x:0:0:root:/root:"@ + shell
    }
}

/// Whether a line is the first of root.
pub open spec fn is_roots(all: Seq<Seq<char>>, i: int) -> bool {
    &&& 0 <= i < all.len()
    &&& starts_with(all[i], "root:"@)
    &&& forall|j: int| 0 <= j < i ==> !starts_with(#[trigger] all[j], "root:"@)
}

proof fn the_rest_stays(all: Seq<Seq<char>>, shell: Seq<char>)
    ensures
        with_shell(all, shell, true) == ended_lines(all),
    decreases all.len(),
{
    reveal_strlit("\n");
    assert("\n"@ =~= seq!['\n']);
    if all.len() > 0 {
        the_rest_stays(all.skip(1), shell);
    }
}

proof fn only_roots_line_changes(all: Seq<Seq<char>>, shell: Seq<char>)
    ensures
        forall|i: int| #[trigger]
            is_roots(all, i) ==> with_shell(all, shell, false) == ended_lines(
                all.update(i, root_line(all[i], shell)),
            ),
        (forall|i: int| 0 <= i < all.len() ==> !starts_with(#[trigger] all[i], "root:"@))
            ==> with_shell(all, shell, false) == ended_lines(
            all.push("root:x:0:0:root:/root:"@ + shell),
        ),
    decreases all.len(),
{
    reveal_strlit("\n");
    assert("\n"@ =~= seq!['\n']);
    reveal_with_fuel(ended_lines, 2);
    let default = "root:x:0:0:root:/root:"@ + shell;
    if all.len() == 0 {
        let one = all.push(default);
        assert(one.skip(1) =~= Seq::empty());
        assert(ended_lines(one) =~= default + seq!['\n']);
    } else {
        let rest = all.skip(1);
        only_roots_line_changes(rest, shell);
        assert forall|i: int| 0 <= i < rest.len() implies #[trigger] rest[i] == all[i + 1] by {}
        if starts_with(all[0], "root:"@) {
            the_rest_stays(rest, shell);
            assert forall|i: int| #[trigger] is_roots(all, i) implies with_shell(
                all,
                shell,
                false,
            ) == ended_lines(all.update(i, root_line(all[i], shell))) by {
                if i > 0 {
                    assert(!starts_with(all[0], "root:"@));
                }
                let new = all.update(0, root_line(all[0], shell));
                assert(new.skip(1) =~= rest);
            }
        } else {
            assert forall|i: int| #[trigger] is_roots(all, i) implies with_shell(
                all,
                shell,
                false,
            ) == ended_lines(all.update(i, root_line(all[i], shell))) by {
                assert(i > 0);
                assert(rest[i - 1] == all[i]);
                assert forall|j: int| 0 <= j < i - 1 implies !starts_with(
                    #[trigger] rest[j],
                    "root:"@,
                ) by {
                    assert(rest[j] == all[j + 1]);
                }
                assert(is_roots(rest, i - 1));
                let new = all.update(i, root_line(all[i], shell));
                assert(new.skip(1) =~= rest.update(i - 1, root_line(all[i], shell)));
                assert(new[0] == all[0]);
            }
            if forall|i: int| 0 <= i < all.len() ==> !starts_with(#[trigger] all[i], "root:"@) {
                assert forall|i: int| 0 <= i < rest.len() implies !starts_with(
                    #[trigger] rest[i],
                    "root:"@,
                ) by {
                    assert(rest[i] == all[i + 1]);
                }
                let new = all.push(default);
                assert(new.skip(1) =~= rest.push(default));
                assert(new[0] == all[0]);
            }
        }
    }
}

/// Giving root a shell changes root's line alone, and in it the shell alone; a list without a
/// line of root gets one at its end.
pub proof fn only_the_shell_of_root_changes(passwd: Seq<char>, shell: Seq<char>)
    ensures
        forall|i: int| #[trigger]
            is_roots(lines(passwd), i) ==> exists|line: Seq<char>|
                with_root_shell(passwd, shell) == ended_lines(
                    #[trigger] lines(passwd).update(i, line),
                ) && gives_root(line, lines(passwd)[i], shell),
        (forall|i: int|
            0 <= i < lines(passwd).len() ==> !starts_with(#[trigger] lines(passwd)[i], "root:"@))
            ==> with_root_shell(passwd, shell) == ended_lines(
            lines(passwd).push("root:x:0:0:root:/root:"@ + shell),
        ),
{
    let all = lines(passwd);
    only_roots_line_changes(all, shell);
    reveal_strlit(":");
    assert(":"@ =~= seq![':']);
    assert forall|i: int| #[trigger] is_roots(all, i) implies exists|line: Seq<char>|
        with_root_shell(passwd, shell) == ended_lines(#[trigger] all.update(i, line))
            && gives_root(line, all[i], shell) by {
        let line = root_line(all[i], shell);
        assert(all.update(i, line).len() == all.len());
        assert(gives_root(line, all[i], shell));
        assert(with_root_shell(passwd, shell) == ended_lines(all.update(i, line)));
    }
}

/// The kernel that is lifted out of a package is its first member of the kernel's name, with
/// either kind of separator, whole, and of no more than 256 MiB.
pub proof fn the_first_member_of_the_name_is_lifted(
    bytes: Seq<u8>,
    package: Seq<char>,
    key: Seq<char>,
    member: Seq<char>,
    staged: Seq<char>,
    from: nat,
)
    requires
        lifted(bytes, package, key, member, staged, from) is Ok,
        from <= usize::MAX,
    ensures
        exists|i: nat|
            {
                &&& from <= i
                &&& (#[trigger] archived_path(bytes, i)) matches Ok(Some(p)) && replace(
                    p,
                    "\\"@,
                    "/"@,
                ) == member
                &&& forall|j: nat|
                    from <= j < i ==> ((#[trigger] archived_path(bytes, j)) matches Ok(Some(q))
                        && replace(q, "\\"@, "/"@) != member)
                &&& archived_bytes(bytes, i, 268_435_457) == Ok::<Seq<u8>, Seq<char>>(
                    lifted(bytes, package, key, member, staged, from)->Ok_0,
                )
                &&& lifted(bytes, package, key, member, staged, from)->Ok_0.len() <= 268_435_456
            },
    decreases usize::MAX - from,
{
    match membership(archived_path(bytes, from), package, key, member) {
        Membership::Stop(_) => {},
        Membership::Take => {
            assert(archived_path(bytes, from) is Ok);
        },
        Membership::Skip => {
            the_first_member_of_the_name_is_lifted(
                bytes,
                package,
                key,
                member,
                staged,
                from + 1,
            );
            let i = choose|i: nat|
                {
                    &&& from + 1 <= i
                    &&& (#[trigger] archived_path(bytes, i)) matches Ok(Some(p)) && replace(
                        p,
                        "\\"@,
                        "/"@,
                    ) == member
                    &&& forall|j: nat|
                        from + 1 <= j < i ==> ((
                        #[trigger] archived_path(bytes, j)) matches Ok(Some(q)) && replace(
                            q,
                            "\\"@,
                            "/"@,
                        ) != member)
                    &&& archived_bytes(bytes, i, 268_435_457) == Ok::<Seq<u8>, Seq<char>>(
                        lifted(bytes, package, key, member, staged, from + 1)->Ok_0,
                    )
                    &&& lifted(bytes, package, key, member, staged, from + 1)->Ok_0.len()
                        <= 268_435_456
                };
            assert forall|j: nat| from <= j < i implies ((
            #[trigger] archived_path(bytes, j)) matches Ok(Some(q)) && replace(q, "\\"@, "/"@)
                != member) by {
                if j == from {
                    assert(archived_path(bytes, from) is Ok);
                }
            }
        },
    }
}

/// A kernel is accepted exactly where the digest that it is pinned by is one, its bytes have
/// that digest, and its header does not name another machine than the one that is to boot it.
pub proof fn only_the_pinned_kernel_of_the_machine_is_accepted(
    subject: Seq<char>,
    bytes: Seq<u8>,
    architecture: Architecture,
    expected: Seq<char>,
)
    ensures
        kernel_verdict(subject, bytes, architecture, expected) is Ok <==> is_pin(expected) && pin(
            bytes,
        ) == expected && (kernel_format(bytes) == KernelFormat::Bootable(architecture)
            || kernel_format(bytes) is Unrecognized),
{
}

/// What the header of a kernel says of its machine: an ELF file by its number for the machine,
/// low byte first, 62 for x86_64 and 183 for aarch64; an `Image` for aarch64 by the four
/// letters at its 56th byte. Of all else nothing is known.
pub proof fn a_kernel_names_its_machine(header: Seq<u8>)
    ensures
        ({
            let elf = header.len() >= 4 && header[0] == 0x7f && header[1] == 69 && header[2] == 76
                && header[3] == 70;
            let image = header.len() >= 60 && header[56] == 65 && header[57] == 82 && header[58]
                == 77 && header[59] == 100;
            let machine = header[18] + 256 * header[19];
            &&& kernel_format(header) == KernelFormat::Bootable(Architecture::X86_64) <==> elf
                && header.len() >= 20 && machine == 62
            &&& kernel_format(header) == KernelFormat::Bootable(Architecture::Aarch64) <==> (elf
                && header.len() >= 20 && machine == 183) || (!elf && image)
            &&& kernel_format(header) is Unrecognized <==> (elf && header.len() < 20) || (!elf
                && !image)
            &&& kernel_format(header) matches KernelFormat::Foreign { machine: m } ==> m == machine
        }),
{
    if header.len() >= 4 {
        let first = header.take(4);
        let magic = seq![0x7fu8, 0x45u8, 0x4cu8, 0x46u8];
        assert(first[0] == header[0] && first[1] == header[1] && first[2] == header[2] && first[3]
            == header[3]);
        if header[0] == 0x7f && header[1] == 69 && header[2] == 76 && header[3] == 70 {
            assert(first =~= magic);
        } else {
            assert(first != magic);
        }
    }
    if header.len() >= 60 {
        let part = header.subrange(56, 60);
        let magic = seq![0x41u8, 0x52u8, 0x4du8, 0x64u8];
        assert(part[0] == header[56] && part[1] == header[57] && part[2] == header[58] && part[3]
            == header[59]);
        if header[56] == 65 && header[57] == 82 && header[58] == 77 && header[59] == 100 {
            assert(part =~= magic);
        } else {
            assert(part != magic);
        }
    }
}

/// A host refuses exactly the kernels that are for another machine: by their machine where
/// some host boots it, and by its number where none does.
pub proof fn a_host_boots_its_own_kernels(p: Seq<char>, header: Seq<u8>, host: Architecture)
    ensures
        boot_verdict(p, header, host) is Ok <==> kernel_format(header) == KernelFormat::Bootable(
            host,
        ) || kernel_format(header) is Unrecognized,
        kernel_format(header) matches KernelFormat::Bootable(found) ==> (found != host
            ==> boot_verdict(p, header, host) == Err::<(), Problem>(
            Problem::KernelArchitectureMismatch { path: p, found, host },
        )),
{
}

/// The packages and the cached kernels of the two machines are kept apart, whatever their
/// names.
pub proof fn machines_share_no_kernel(pinned: Pinned)
    ensures
        pinned.key(Architecture::X86_64) != pinned.key(Architecture::Aarch64),
        pinned.image.len() > 0 && pinned.image[0] != '/' ==> pinned.cached(Architecture::X86_64)
            != pinned.cached(Architecture::Aarch64),
{
    reveal_strlit("x86_64");
    reveal_strlit("aarch64");
    reveal_strlit(".oci/kernel");
    reveal_strlit("/");
    assert(pinned.key(Architecture::X86_64).len() != pinned.key(Architecture::Aarch64).len());
    if pinned.image.len() > 0 && pinned.image[0] != '/' {
        assert(pinned.cached(Architecture::X86_64).len() != pinned.cached(
            Architecture::Aarch64,
        ).len());
    }
}

} // verus!

//! What holds of the command line of a kernel.

use vstd::prelude::*;

#[allow(unused_imports)]
use super::{
    a_pci_guest_finds_its_devices, command_line, distribution_needs_pci, needs_pci, runtime_args,
    ImageManifest, ManifestImage,
};
#[allow(unused_imports)]
use crate::text::{is_space, join, joined_in_front, starts_with, words, words_from};

verus! {

/// Whether a text could be one word.
pub open spec fn one_word(text: Seq<char>) -> bool {
    text.len() > 0 && forall|i: int| 0 <= i < text.len() ==> !is_space(#[trigger] text[i])
}

proof fn words_are_words(s: Seq<char>, open: Seq<char>)
    requires
        forall|i: int| 0 <= i < open.len() ==> !is_space(#[trigger] open[i]),
    ensures
        forall|i: int| 0 <= i < words_from(s, open).len() ==> one_word(#[trigger] words_from(s, open)[i]),
    decreases s.len(),
{
    if s.len() > 0 {
        if is_space(s[0]) {
            words_are_words(s.skip(1), Seq::empty());
            let rest = words_from(s.skip(1), Seq::empty());
            let all = words_from(s, open);
            if open.len() > 0 {
                assert(all =~= seq![open] + rest);
                assert(one_word(open));
            } else {
                assert(all =~= rest);
            }
            assert forall|i: int| 0 <= i < all.len() implies one_word(#[trigger] all[i]) by {
                if open.len() > 0 && i > 0 {
                    assert(all[i] == rest[i - 1]);
                } else if open.len() == 0 {
                    assert(all[i] == rest[i]);
                }
            }
        } else {
            words_are_words(s.skip(1), open.push(s[0]));
            assert(words_from(s, open) == words_from(s.skip(1), open.push(s[0])));
        }
    } else if open.len() > 0 {
        assert(one_word(open));
        assert(words_from(s, open) =~= seq![open]);
    } else {
        assert(words_from(s, open) =~= Seq::<Seq<char>>::empty());
    }
}

pub(crate) proof fn a_word_is_read_on(word: Seq<char>, rest: Seq<char>, open: Seq<char>)
    requires
        forall|i: int| 0 <= i < word.len() ==> !is_space(#[trigger] word[i]),
    ensures
        words_from(word + rest, open) == words_from(rest, open + word),
    decreases word.len(),
{
    if word.len() == 0 {
        assert(word + rest =~= rest);
        assert(open + word =~= open);
    } else {
        let tail = word.skip(1);
        assert((word + rest)[0] == word[0]);
        assert((word + rest).skip(1) =~= tail + rest);
        assert forall|i: int| 0 <= i < tail.len() implies !is_space(#[trigger] tail[i]) by {
            assert(tail[i] == word[i + 1]);
        }
        a_word_is_read_on(tail, rest, open.push(word[0]));
        assert(open.push(word[0]) + tail =~= open + word);
    }
}

proof fn joined_words_are_read(all: Seq<Seq<char>>)
    requires
        forall|i: int| 0 <= i < all.len() ==> one_word(#[trigger] all[i]),
    ensures
        words(join(all, " "@)) == all,
    decreases all.len(),
{
    reveal_strlit(" ");
    let none = Seq::<char>::empty();
    if all.len() == 0 {
        assert(words(join(all, " "@)) =~= all);
    } else {
        let first = all[0];
        assert(one_word(first));
        assert(none + first =~= first);
        if all.len() == 1 {
            a_word_is_read_on(first, none, none);
            assert(first + none =~= first);
            assert(words(join(all, " "@)) =~= all);
        } else {
            joined_in_front(all, " "@);
            let rest = join(all.skip(1), " "@);
            let tail = " "@ + rest;
            assert(join(all, " "@) =~= first + tail);
            a_word_is_read_on(first, tail, none);
            assert(tail[0] == ' ');
            assert(tail.skip(1) =~= rest);
            assert forall|i: int| 0 <= i < all.skip(1).len() implies one_word(
                #[trigger] all.skip(1)[i],
            ) by {
                assert(all.skip(1)[i] == all[i + 1]);
            }
            joined_words_are_read(all.skip(1));
            assert(seq![first] + all.skip(1) =~= all);
        }
    }
}

proof fn a_full_filter_keeps_all(all: Seq<Seq<char>>, keep: spec_fn(Seq<char>) -> bool)
    requires
        forall|i: int| 0 <= i < all.len() ==> keep(#[trigger] all[i]),
    ensures
        all.filter(keep) == all,
    decreases all.len(),
{
    reveal(Seq::filter);
    if all.len() > 0 {
        let front = all.drop_last();
        assert forall|i: int| 0 <= i < front.len() implies keep(#[trigger] front[i]) by {
            assert(front[i] == all[i]);
        }
        a_full_filter_keeps_all(front, keep);
        assert(keep(all[all.len() - 1]));
        assert(front.push(all.last()) =~= all);
    } else {
        assert(all.filter(keep) =~= all);
    }
}

proof fn filtered_words_are_words(all: Seq<Seq<char>>, keep: spec_fn(Seq<char>) -> bool)
    requires
        forall|i: int| 0 <= i < all.len() ==> one_word(#[trigger] all[i]),
    ensures
        forall|i: int|
            0 <= i < all.filter(keep).len() ==> one_word(#[trigger] all.filter(keep)[i]) && keep(
                all.filter(keep)[i],
            ),
    decreases all.len(),
{
    reveal(Seq::filter);
    if all.len() > 0 {
        let front = all.drop_last();
        assert forall|i: int| 0 <= i < front.len() implies one_word(#[trigger] front[i]) by {
            assert(front[i] == all[i]);
        }
        filtered_words_are_words(front, keep);
        assert(one_word(all[all.len() - 1]));
        let rest = front.filter(keep);
        let kept = all.filter(keep);
        assert forall|i: int| 0 <= i < kept.len() implies one_word(#[trigger] kept[i]) && keep(
            kept[i],
        ) by {
            if i < rest.len() {
                assert(kept[i] == rest[i]);
            }
        }
    }
}

proof fn flags_are_words()
    ensures
        one_word("rd.driver.pre=virtio_net"@),
        one_word("net.ifnames=0"@),
        "rd.driver.pre=virtio_net"@ != "pci=off"@,
        "net.ifnames=0"@ != "pci=off"@,
{
    reveal_strlit("rd.driver.pre=virtio_net");
    reveal_strlit("net.ifnames=0");
    reveal_strlit("pci=off");
    assert("rd.driver.pre=virtio_net"@.len() != "pci=off"@.len());
    assert("net.ifnames=0"@.len() != "pci=off"@.len());
    assert forall|i: int| 0 <= i < "rd.driver.pre=virtio_net"@.len() implies !is_space(#[trigger] "rd.driver.pre=virtio_net"@[i]) by {
        assert(i == 0 || i == 1 || i == 2 || i == 3 || i == 4 || i == 5 || i == 6 || i == 7 || i == 8 || i == 9 || i == 10 || i == 11 || i == 12 || i == 13 || i == 14 || i == 15 || i == 16 || i == 17 || i == 18 || i == 19 || i == 20 || i == 21 || i == 22 || i == 23);
    }
    assert forall|i: int| 0 <= i < "net.ifnames=0"@.len() implies !is_space(#[trigger] "net.ifnames=0"@[i]) by {
        assert(i == 0 || i == 1 || i == 2 || i == 3 || i == 4 || i == 5 || i == 6 || i == 7 || i == 8 || i == 9 || i == 10 || i == 11 || i == 12);
    }
}

/// Adjusting a command line that was adjusted changes nothing, so no flag is ever added twice.
pub proof fn adjusting_again_changes_nothing(boot_args: Seq<char>, pci: bool, rocky: bool)
    ensures
        ({
            let adjusted = join(runtime_args(words(boot_args), pci, rocky), " "@);
            join(runtime_args(words(adjusted), pci, rocky), " "@) == adjusted
        }),
{
    flags_are_words();
    let given = words(boot_args);
    let keep = |a: Seq<char>| a != "pci=off"@;
    let kept = if pci {
        given.filter(keep)
    } else {
        given
    };
    words_are_words(boot_args, Seq::empty());
    assert forall|i: int| 0 <= i < kept.len() implies one_word(#[trigger] kept[i]) && (pci ==> keep(
        kept[i],
    )) by {
        if pci {
            filtered_words_are_words(given, keep);
        } else {
            assert(one_word(given[i]));
        }
    }
    let second = if rocky && !kept.contains("rd.driver.pre=virtio_net"@) {
        kept.push("rd.driver.pre=virtio_net"@)
    } else {
        kept
    };
    let all = runtime_args(given, pci, rocky);
    assert forall|i: int| 0 <= i < second.len() implies one_word(#[trigger] second[i]) && (pci
        ==> keep(second[i])) by {
        if i < kept.len() {
            assert(second[i] == kept[i]);
        }
    }
    assert forall|i: int| 0 <= i < all.len() implies one_word(#[trigger] all[i]) && (pci ==> keep(
        all[i],
    )) by {
        if i < second.len() {
            assert(all[i] == second[i]);
        }
    }
    joined_words_are_read(all);
    if pci {
        a_full_filter_keeps_all(all, keep);
        if !second.contains("net.ifnames=0"@) {
            assert(all[second.len() as int] == "net.ifnames=0"@);
        }
    }
    if rocky {
        let flag = "rd.driver.pre=virtio_net"@;
        if !kept.contains(flag) {
            assert(second[kept.len() as int] == flag);
        }
        assert(second.contains(flag));
        let at = choose|at: int| 0 <= at < second.len() && second[at] == flag;
        assert(all[at] == flag);
    }
    assert(runtime_args(all, pci, rocky) =~= all);
}

/// Whether an image is the first of its alias.
pub open spec fn is_first_of(images: Seq<ManifestImage>, name: Seq<char>, i: int) -> bool {
    &&& 0 <= i < images.len()
    &&& images[i].alias@ == name
    &&& forall|j: int| 0 <= j < i ==> (#[trigger] images[j]).alias@ != name
}

proof fn the_first_of_a_name_decides(images: Seq<ManifestImage>, name: Seq<char>)
    ensures
        distribution_needs_pci(images, name) <==> exists|i: int| #[trigger]
            is_first_of(images, name, i) && (images[i].distribution@ == "rocky"@
                || images[i].distribution@ == "ubuntu"@),
    decreases images.len(),
{
    if images.len() > 0 {
        let rest = images.skip(1);
        the_first_of_a_name_decides(rest, name);
        assert forall|i: int| #[trigger] is_first_of(images, name, i) && i > 0 implies is_first_of(
            rest,
            name,
            i - 1,
        ) && rest[i - 1] == images[i] by {
            assert forall|j: int| 0 <= j < i - 1 implies (#[trigger] rest[j]).alias@ != name by {
                assert(rest[j] == images[j + 1]);
            }
        }
        if images[0].alias@ == name {
            assert(is_first_of(images, name, 0));
        } else {
            assert forall|i: int| #[trigger] is_first_of(rest, name, i) implies is_first_of(
                images,
                name,
                i + 1,
            ) && rest[i] == images[i + 1] by {
                assert forall|j: int| 0 <= j < i + 1 implies (#[trigger] images[j]).alias@
                    != name by {
                    if j > 0 {
                        assert(rest[j - 1] == images[j]);
                    }
                }
            }
            if distribution_needs_pci(rest, name) {
                let i = choose|i: int| #[trigger]
                    is_first_of(rest, name, i) && (rest[i].distribution@ == "rocky"@
                        || rest[i].distribution@ == "ubuntu"@);
                assert(is_first_of(images, name, i + 1));
            }
        }
    }
}

/// An image needs PCI exactly where the machine is not an aarch64 and the first published
/// image of its alias is of the distribution `rocky` or `ubuntu`. So an alias that no
/// published image has never needs it, and no alias does on aarch64.
pub proof fn pci_is_for_published_images(
    manifest: ImageManifest,
    name: Seq<char>,
    architecture: Seq<char>,
)
    ensures
        needs_pci(manifest, name, architecture) <==> architecture != "aarch64"@ && exists|i: int|
            #[trigger]
            is_first_of(manifest.images@, name, i) && (manifest.images@[i].distribution@
                == "rocky"@ || manifest.images@[i].distribution@ == "ubuntu"@),
        (forall|i: int|
            0 <= i < manifest.images@.len() ==> (#[trigger] manifest.images@[i]).alias@ != name)
            ==> !needs_pci(manifest, name, architecture),
{
    the_first_of_a_name_decides(manifest.images@, name);
}

/// Whether a word of a command line is one that starting a VM may add or take away.
pub open spec fn is_adjusted(word: Seq<char>) -> bool {
    word == "pci=off"@ || word == "net.ifnames=0"@ || word == "rd.driver.pre=virtio_net"@
}

proof fn filtered_in_two(a: Seq<Seq<char>>, last: Seq<char>, keep: spec_fn(Seq<char>) -> bool)
    ensures
        a.push(last).filter(keep) == if keep(last) {
            a.filter(keep).push(last)
        } else {
            a.filter(keep)
        },
{
    reveal(Seq::filter);
    assert(a.push(last).drop_last() =~= a);
}

proof fn a_filter_of_a_filter(
    all: Seq<Seq<char>>,
    first: spec_fn(Seq<char>) -> bool,
    second: spec_fn(Seq<char>) -> bool,
)
    requires
        forall|w: Seq<char>| #[trigger] second(w) ==> first(w),
    ensures
        all.filter(first).filter(second) == all.filter(second),
    decreases all.len(),
{
    reveal(Seq::filter);
    if all.len() > 0 {
        let front = all.drop_last();
        a_filter_of_a_filter(front, first, second);
        if first(all.last()) {
            filtered_in_two(front.filter(first), all.last(), second);
        }
    }
}

/// What a VM's command line is, word by word. Where no published image has the template's
/// alias, and its name does not begin with `rocky-`, the words are those of the template, so
/// that `pci=off` stays. Where the VM has PCI, `pci=off` is gone and the network interface
/// keeps its name; a Rocky guest loads the network driver early. No flag is added
/// otherwise, and all other words stay, as often as they stood and in their order.
pub proof fn a_command_line_is_adjusted_for_its_machine(
    manifest: ImageManifest,
    name: Seq<char>,
    boot_args: Seq<char>,
    architecture: Seq<char>,
)
    ensures
        ({
            let given = words(boot_args);
            let got = words(command_line(manifest, name, boot_args, architecture));
            let rocky = starts_with(name, "rocky-"@);
            let pci = needs_pci(manifest, name, architecture);
            let other = |w: Seq<char>| !is_adjusted(w);
            &&& (forall|i: int|
                0 <= i < manifest.images@.len() ==> (#[trigger] manifest.images@[i]).alias@
                    != name) && !rocky ==> got == given
            &&& !pci && !rocky ==> got == given
            &&& pci ==> !got.contains("pci=off"@) && got.contains("net.ifnames=0"@)
            &&& rocky ==> got.contains("rd.driver.pre=virtio_net"@)
            &&& got.contains("net.ifnames=0"@) ==> pci || given.contains("net.ifnames=0"@)
            &&& got.contains("rd.driver.pre=virtio_net"@) ==> rocky || given.contains(
                "rd.driver.pre=virtio_net"@,
            )
            &&& !pci ==> got.contains("pci=off"@) == given.contains("pci=off"@)
            &&& got.filter(other) == given.filter(other)
        }),
{
    let given = words(boot_args);
    let rocky = starts_with(name, "rocky-"@);
    let pci = needs_pci(manifest, name, architecture);
    let all = runtime_args(given, pci, rocky);
    let keep = |a: Seq<char>| a != "pci=off"@;
    let other = |w: Seq<char>| !is_adjusted(w);
    pci_is_for_published_images(manifest, name, architecture);
    a_pci_guest_finds_its_devices(given, pci, rocky);
    flags_are_words();
    words_are_words(boot_args, Seq::empty());
    let kept = if pci {
        given.filter(keep)
    } else {
        given
    };
    filtered_words_are_words(given, keep);
    let second = if rocky && !kept.contains("rd.driver.pre=virtio_net"@) {
        kept.push("rd.driver.pre=virtio_net"@)
    } else {
        kept
    };
    assert forall|i: int| 0 <= i < all.len() implies one_word(#[trigger] all[i]) by {
        if i < kept.len() {
            assert(all[i] == kept[i]);
        } else if i < second.len() {
            assert(all[i] == second[i]);
        }
    }
    joined_words_are_read(all);
    a_filter_of_a_filter(given, keep, other);
    filtered_in_two(kept, "rd.driver.pre=virtio_net"@, other);
    filtered_in_two(second, "net.ifnames=0"@, other);
    reveal_strlit("rd.driver.pre=virtio_net");
    reveal_strlit("net.ifnames=0");
    assert forall|w: Seq<char>| all.contains(w) implies given.contains(w) || w
        == "net.ifnames=0"@ && pci || w == "rd.driver.pre=virtio_net"@ && rocky by {
        let i = choose|i: int| 0 <= i < all.len() && all[i] == w;
        if i < kept.len() {
            assert(kept[i] == w);
            if pci {
                assert(given.filter(keep).contains(w));
                given.lemma_filter_contains_rev(keep, w);
            }
        } else if i < second.len() {
            assert(second[i] == w);
        }
    }
    assert("net.ifnames=0"@.len() != "rd.driver.pre=virtio_net"@.len());
}

} // verus!

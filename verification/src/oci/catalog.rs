//! What holds of every kernel that this release trusts.

use vstd::prelude::*;

#[allow(unused_imports)]
use super::kernel::{
    a_branch_keeps_its_newest_releases, newer, offered, release_text, AARCH64_BOOT_ARGS, RELEASES,
    X86_64_BOOT_ARGS,
};
#[allow(unused_imports)]
use crate::digest::{is_hex, is_pin};
#[allow(unused_imports)]
use crate::templates::Architecture;
#[allow(unused_imports)]
use crate::text::{contains, occurs_at};

verus! {

/// Whether a place is that of a digit of a digest, one by one.
spec fn a_digit(i: int) -> bool {
    i == 7 || i == 8 || i == 9 || i == 10 || i == 11 || i == 12 || i == 13 || i == 14 || i == 15
        || i == 16 || i == 17 || i == 18 || i == 19 || i == 20 || i == 21 || i == 22 || i == 23
        || i == 24 || i == 25 || i == 26 || i == 27 || i == 28 || i == 29 || i == 30 || i == 31
        || i == 32 || i == 33 || i == 34 || i == 35 || i == 36 || i == 37 || i == 38 || i == 39
        || i == 40 || i == 41 || i == 42 || i == 43 || i == 44 || i == 45 || i == 46 || i == 47
        || i == 48 || i == 49 || i == 50 || i == 51 || i == 52 || i == 53 || i == 54 || i == 55
        || i == 56 || i == 57 || i == 58 || i == 59 || i == 60 || i == 61 || i == 62 || i == 63
        || i == 64 || i == 65 || i == 66 || i == 67 || i == 68 || i == 69 || i == 70
}

proof fn one_of_the_digits(i: int)
    requires
        7 <= i < 71,
    ensures
        a_digit(i),
{
}

proof fn digest_0_of_x86_64_packages()
    ensures
        is_pin("sha256:716d7bcfcf9118a76d0c9f0b7ab06ba167f78b77cb16f928612809c75ebeffae"@),
{
    reveal_strlit("sha256:716d7bcfcf9118a76d0c9f0b7ab06ba167f78b77cb16f928612809c75ebeffae");
    reveal_strlit("sha256:");
    let text = "sha256:716d7bcfcf9118a76d0c9f0b7ab06ba167f78b77cb16f928612809c75ebeffae"@;
    assert(text.subrange(0, 7) =~= "sha256:"@);
    assert forall|i: int| 7 <= i < 71 implies is_hex(#[trigger] text[i]) by {
        one_of_the_digits(i);
    }
}

proof fn digest_1_of_x86_64_packages()
    ensures
        is_pin("sha256:b4666cdc2ded25c6e929c9b4a4d4bcad0bff58c6fcae831d9514d17819fac31e"@),
{
    reveal_strlit("sha256:b4666cdc2ded25c6e929c9b4a4d4bcad0bff58c6fcae831d9514d17819fac31e");
    reveal_strlit("sha256:");
    let text = "sha256:b4666cdc2ded25c6e929c9b4a4d4bcad0bff58c6fcae831d9514d17819fac31e"@;
    assert(text.subrange(0, 7) =~= "sha256:"@);
    assert forall|i: int| 7 <= i < 71 implies is_hex(#[trigger] text[i]) by {
        one_of_the_digits(i);
    }
}

proof fn digest_2_of_x86_64_packages()
    ensures
        is_pin("sha256:fd058e64d2173b3911ad09a15aa6bcf15531941254ce44ba6e935b876662ba65"@),
{
    reveal_strlit("sha256:fd058e64d2173b3911ad09a15aa6bcf15531941254ce44ba6e935b876662ba65");
    reveal_strlit("sha256:");
    let text = "sha256:fd058e64d2173b3911ad09a15aa6bcf15531941254ce44ba6e935b876662ba65"@;
    assert(text.subrange(0, 7) =~= "sha256:"@);
    assert forall|i: int| 7 <= i < 71 implies is_hex(#[trigger] text[i]) by {
        one_of_the_digits(i);
    }
}

proof fn digest_3_of_x86_64_packages()
    ensures
        is_pin("sha256:eb2efc87a8b64b9bcf5c4b7365193c578e6cf203c4773060ec157d6f34c11f53"@),
{
    reveal_strlit("sha256:eb2efc87a8b64b9bcf5c4b7365193c578e6cf203c4773060ec157d6f34c11f53");
    reveal_strlit("sha256:");
    let text = "sha256:eb2efc87a8b64b9bcf5c4b7365193c578e6cf203c4773060ec157d6f34c11f53"@;
    assert(text.subrange(0, 7) =~= "sha256:"@);
    assert forall|i: int| 7 <= i < 71 implies is_hex(#[trigger] text[i]) by {
        one_of_the_digits(i);
    }
}

proof fn digest_0_of_x86_64_images()
    ensures
        is_pin("sha256:351b23784e5e53de5af970ff6af7a074a916a55327ff802645f3583b39f3a4f1"@),
{
    reveal_strlit("sha256:351b23784e5e53de5af970ff6af7a074a916a55327ff802645f3583b39f3a4f1");
    reveal_strlit("sha256:");
    let text = "sha256:351b23784e5e53de5af970ff6af7a074a916a55327ff802645f3583b39f3a4f1"@;
    assert(text.subrange(0, 7) =~= "sha256:"@);
    assert forall|i: int| 7 <= i < 71 implies is_hex(#[trigger] text[i]) by {
        one_of_the_digits(i);
    }
}

proof fn digest_1_of_x86_64_images()
    ensures
        is_pin("sha256:004c3031dfcc2deec974b55714a2ed1052903662531e8df2a3cb3380bda5674b"@),
{
    reveal_strlit("sha256:004c3031dfcc2deec974b55714a2ed1052903662531e8df2a3cb3380bda5674b");
    reveal_strlit("sha256:");
    let text = "sha256:004c3031dfcc2deec974b55714a2ed1052903662531e8df2a3cb3380bda5674b"@;
    assert(text.subrange(0, 7) =~= "sha256:"@);
    assert forall|i: int| 7 <= i < 71 implies is_hex(#[trigger] text[i]) by {
        one_of_the_digits(i);
    }
}

proof fn digest_2_of_x86_64_images()
    ensures
        is_pin("sha256:079d2149a9378f5705da46232e99886187fecdd5517428d2c294b6bd1e0dca6b"@),
{
    reveal_strlit("sha256:079d2149a9378f5705da46232e99886187fecdd5517428d2c294b6bd1e0dca6b");
    reveal_strlit("sha256:");
    let text = "sha256:079d2149a9378f5705da46232e99886187fecdd5517428d2c294b6bd1e0dca6b"@;
    assert(text.subrange(0, 7) =~= "sha256:"@);
    assert forall|i: int| 7 <= i < 71 implies is_hex(#[trigger] text[i]) by {
        one_of_the_digits(i);
    }
}

proof fn digest_3_of_x86_64_images()
    ensures
        is_pin("sha256:1d693ebb340ee418127aacf679080671679e455302a8f89ff8d4a45b6d293cdb"@),
{
    reveal_strlit("sha256:1d693ebb340ee418127aacf679080671679e455302a8f89ff8d4a45b6d293cdb");
    reveal_strlit("sha256:");
    let text = "sha256:1d693ebb340ee418127aacf679080671679e455302a8f89ff8d4a45b6d293cdb"@;
    assert(text.subrange(0, 7) =~= "sha256:"@);
    assert forall|i: int| 7 <= i < 71 implies is_hex(#[trigger] text[i]) by {
        one_of_the_digits(i);
    }
}

proof fn digest_0_of_aarch64_packages()
    ensures
        is_pin("sha256:885550806de246892df6f08b6d37a3062ac987228729ee50b9421d5caa98621f"@),
{
    reveal_strlit("sha256:885550806de246892df6f08b6d37a3062ac987228729ee50b9421d5caa98621f");
    reveal_strlit("sha256:");
    let text = "sha256:885550806de246892df6f08b6d37a3062ac987228729ee50b9421d5caa98621f"@;
    assert(text.subrange(0, 7) =~= "sha256:"@);
    assert forall|i: int| 7 <= i < 71 implies is_hex(#[trigger] text[i]) by {
        one_of_the_digits(i);
    }
}

proof fn digest_1_of_aarch64_packages()
    ensures
        is_pin("sha256:3cdf98523c4688ba6061cb025394931c696e67988d8367280639941f8a833c48"@),
{
    reveal_strlit("sha256:3cdf98523c4688ba6061cb025394931c696e67988d8367280639941f8a833c48");
    reveal_strlit("sha256:");
    let text = "sha256:3cdf98523c4688ba6061cb025394931c696e67988d8367280639941f8a833c48"@;
    assert(text.subrange(0, 7) =~= "sha256:"@);
    assert forall|i: int| 7 <= i < 71 implies is_hex(#[trigger] text[i]) by {
        one_of_the_digits(i);
    }
}

proof fn digest_2_of_aarch64_packages()
    ensures
        is_pin("sha256:3a8576656d45eb051874a4b1cf4b8838d54d96aa268bc53706118e0bbeb727f7"@),
{
    reveal_strlit("sha256:3a8576656d45eb051874a4b1cf4b8838d54d96aa268bc53706118e0bbeb727f7");
    reveal_strlit("sha256:");
    let text = "sha256:3a8576656d45eb051874a4b1cf4b8838d54d96aa268bc53706118e0bbeb727f7"@;
    assert(text.subrange(0, 7) =~= "sha256:"@);
    assert forall|i: int| 7 <= i < 71 implies is_hex(#[trigger] text[i]) by {
        one_of_the_digits(i);
    }
}

proof fn digest_3_of_aarch64_packages()
    ensures
        is_pin("sha256:bddbe93f83fc3180a23c1c55a0a40946e5906592ec6331969bd64d68a302a507"@),
{
    reveal_strlit("sha256:bddbe93f83fc3180a23c1c55a0a40946e5906592ec6331969bd64d68a302a507");
    reveal_strlit("sha256:");
    let text = "sha256:bddbe93f83fc3180a23c1c55a0a40946e5906592ec6331969bd64d68a302a507"@;
    assert(text.subrange(0, 7) =~= "sha256:"@);
    assert forall|i: int| 7 <= i < 71 implies is_hex(#[trigger] text[i]) by {
        one_of_the_digits(i);
    }
}

proof fn digest_0_of_aarch64_images()
    ensures
        is_pin("sha256:f3acb729ded8213e4b157fd80746f6034cc4994888f73b82b1e34cea5813dbc0"@),
{
    reveal_strlit("sha256:f3acb729ded8213e4b157fd80746f6034cc4994888f73b82b1e34cea5813dbc0");
    reveal_strlit("sha256:");
    let text = "sha256:f3acb729ded8213e4b157fd80746f6034cc4994888f73b82b1e34cea5813dbc0"@;
    assert(text.subrange(0, 7) =~= "sha256:"@);
    assert forall|i: int| 7 <= i < 71 implies is_hex(#[trigger] text[i]) by {
        one_of_the_digits(i);
    }
}

proof fn digest_1_of_aarch64_images()
    ensures
        is_pin("sha256:6d6205c7dccbadcd74fa0bf84082af2f13bd8492d7a489ee0e2a6891c00c10bd"@),
{
    reveal_strlit("sha256:6d6205c7dccbadcd74fa0bf84082af2f13bd8492d7a489ee0e2a6891c00c10bd");
    reveal_strlit("sha256:");
    let text = "sha256:6d6205c7dccbadcd74fa0bf84082af2f13bd8492d7a489ee0e2a6891c00c10bd"@;
    assert(text.subrange(0, 7) =~= "sha256:"@);
    assert forall|i: int| 7 <= i < 71 implies is_hex(#[trigger] text[i]) by {
        one_of_the_digits(i);
    }
}

proof fn digest_2_of_aarch64_images()
    ensures
        is_pin("sha256:6d60d06429aa5e244cc5a0eb60383a97fde61f4aa40453d5cc6fecb59a64b58f"@),
{
    reveal_strlit("sha256:6d60d06429aa5e244cc5a0eb60383a97fde61f4aa40453d5cc6fecb59a64b58f");
    reveal_strlit("sha256:");
    let text = "sha256:6d60d06429aa5e244cc5a0eb60383a97fde61f4aa40453d5cc6fecb59a64b58f"@;
    assert(text.subrange(0, 7) =~= "sha256:"@);
    assert forall|i: int| 7 <= i < 71 implies is_hex(#[trigger] text[i]) by {
        one_of_the_digits(i);
    }
}

proof fn digest_3_of_aarch64_images()
    ensures
        is_pin("sha256:f1ded792a87f2b2d798566d22485fe73367dc8f348670827638f1a6b43375a44"@),
{
    reveal_strlit("sha256:f1ded792a87f2b2d798566d22485fe73367dc8f348670827638f1a6b43375a44");
    reveal_strlit("sha256:");
    let text = "sha256:f1ded792a87f2b2d798566d22485fe73367dc8f348670827638f1a6b43375a44"@;
    assert(text.subrange(0, 7) =~= "sha256:"@);
    assert forall|i: int| 7 <= i < 71 implies is_hex(#[trigger] text[i]) by {
        one_of_the_digits(i);
    }
}

proof fn command_lines_boot_a_tree()
    ensures
        contains(X86_64_BOOT_ARGS@, "root=/dev/vda"@),
        contains(AARCH64_BOOT_ARGS@, "root=/dev/vda"@),
        !contains(X86_64_BOOT_ARGS@, "keep_bootcon"@),
        contains(AARCH64_BOOT_ARGS@, "keep_bootcon"@),
{
    reveal_strlit("console=ttyS0 reboot=k panic=1 pci=off root=/dev/vda rw");
    reveal_strlit("keep_bootcon console=ttyS0 reboot=k panic=1 pci=off root=/dev/vda rw");
    reveal_strlit("root=/dev/vda");
    reveal_strlit("keep_bootcon");
    let x = X86_64_BOOT_ARGS@;
    let a = AARCH64_BOOT_ARGS@;
    let root = "root=/dev/vda"@;
    let keep = "keep_bootcon"@;
    assert(x.subrange(39, 39 + root.len() as int) =~= root);
    assert(occurs_at(x, root, 39));
    assert(a.subrange(52, 52 + root.len() as int) =~= root);
    assert(occurs_at(a, root, 52));
    assert(a.subrange(0, keep.len() as int) =~= keep);
    assert(occurs_at(a, keep, 0));
    assert forall|at: int| !occurs_at(x, keep, at) by {
        if occurs_at(x, keep, at) {
            let part = x.subrange(at, at + keep.len());
            assert(part[0] == x[at] && part[1] == x[at + 1]);
            assert(at == 0 || at == 1 || at == 2 || at == 3 || at == 4 || at == 5 || at == 6
                || at == 7 || at == 8 || at == 9 || at == 10 || at == 11 || at == 12 || at == 13
                || at == 14 || at == 15 || at == 16 || at == 17 || at == 18 || at == 19
                || at == 20 || at == 21 || at == 22 || at == 23 || at == 24 || at == 25
                || at == 26 || at == 27 || at == 28 || at == 29 || at == 30 || at == 31
                || at == 32 || at == 33 || at == 34 || at == 35 || at == 36 || at == 37
                || at == 38 || at == 39 || at == 40 || at == 41 || at == 42 || at == 43);
        }
    }
}

/// Every kernel that this release trusts, on either machine, is named after its version, has
/// digests that are digests, boots an imported tree, and is newer than those after it.
pub proof fn every_offered_kernel_is_sound(architecture: Architecture, i: int)
    requires
        0 <= i < RELEASES@.len(),
    ensures
        offered(architecture, i).sound(architecture),
        offered(architecture, i).version == release_text(RELEASES[i]),
        forall|j: int| i < j < RELEASES@.len() ==> newer(RELEASES[i], #[trigger] RELEASES[j]),
{
    command_lines_boot_a_tree();
    a_branch_keeps_its_newest_releases();
    digest_0_of_x86_64_packages();
    digest_1_of_x86_64_packages();
    digest_2_of_x86_64_packages();
    digest_3_of_x86_64_packages();
    digest_0_of_x86_64_images();
    digest_1_of_x86_64_images();
    digest_2_of_x86_64_images();
    digest_3_of_x86_64_images();
    digest_0_of_aarch64_packages();
    digest_1_of_aarch64_packages();
    digest_2_of_aarch64_packages();
    digest_3_of_aarch64_packages();
    digest_0_of_aarch64_images();
    digest_1_of_aarch64_images();
    digest_2_of_aarch64_images();
    digest_3_of_aarch64_images();
    assert(i == 0 || i == 1 || i == 2 || i == 3);
}

} // verus!

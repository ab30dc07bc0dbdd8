//! What holds of what the operator is shown.

use vstd::prelude::*;

#[allow(unused_imports)]
use crate::api_client::{api_base, DEFAULT_API_BASE};
#[allow(unused_imports)]
use crate::image::{
    image_line, image_list, import_text, indented, last_word, yes_no, ImageInstallResponse,
    ImageResponse,
};
#[allow(unused_imports)]
use crate::network::{network_line, network_list};
#[allow(unused_imports)]
use crate::persistence::network::MicroNetwork;
#[allow(unused_imports)]
use crate::persistence::record::uuid_text;
#[allow(unused_imports)]
use crate::status::{host_text, HostStatus};
#[allow(unused_imports)]
use crate::text::{contains, decimal, join, joined_in_front, occurs_at, split, trim};
#[allow(unused_imports)]
use crate::text_laws::{ended_lines, trimming_takes_that_character_only};

verus! {

/// Pieces that do not hold a character, with that character between them, are read back as
/// those pieces.
pub proof fn joined_pieces_are_read_back(parts: Seq<Seq<char>>, c: char)
    requires
        parts.len() > 0,
        forall|i: int| 0 <= i < parts.len() ==> !(#[trigger] parts[i]).contains(c),
    ensures
        split(join(parts, seq![c]), c) == parts,
    decreases parts.len(),
{
    let whole = join(parts, seq![c]);
    let first = parts[0];
    let n = first.len() as int;
    assert forall|j: int| 0 <= j < n implies first[j] != c by {
        assert(first.contains(first[j]));
    }
    if parts.len() == 1 {
        crate::text::first_at_is(whole, c, n);
        assert(split(whole, c) =~= parts);
    } else {
        let rest = parts.skip(1);
        joined_in_front(parts, seq![c]);
        assert forall|i: int| 0 <= i < rest.len() implies !(#[trigger] rest[i]).contains(c) by {
            assert(rest[i] == parts[i + 1]);
        }
        joined_pieces_are_read_back(rest, c);
        assert(whole =~= first + seq![c] + join(rest, seq![c]));
        assert(whole[n] == c);
        assert forall|j: int| 0 <= j < n implies whole[j] != c by {
            assert(whole[j] == first[j]);
        }
        crate::text::first_at_is(whole, c, n);
        assert(whole.take(n) =~= first);
        assert(whole.skip(n + 1) =~= join(rest, seq![c]));
        assert(split(whole, c) =~= seq![first] + rest);
        assert(seq![first] + rest =~= parts);
    }
}

/// The fields of the line of an image.
pub open spec fn image_fields(image: ImageResponse) -> Seq<Seq<char>> {
    seq![
        image.alias@,
        image.version@,
        if image.installed {
            "yes"@
        } else {
            "no"@
        },
        decimal(image.min_disk_gb as nat),
        if image.package_staged {
            "staged"@
        } else if image.package_url is Some {
            "available"@
        } else {
            "-"@
        },
    ]
}

/// The fields of the line of a network.
pub open spec fn network_fields(network: MicroNetwork) -> Seq<Seq<char>> {
    seq![
        uuid_text(network.id),
        network.name@,
        network.subnet_cidr@,
        network.gateway@,
        if network.internet_enabled {
            "yes"@
        } else {
            "no"@
        },
        match network.uplink {
            Some(uplink) => uplink@,
            None => "auto"@,
        },
    ]
}

/// Fields with a tab between each and the next.
pub open spec fn tabbed(fields: Seq<Seq<char>>) -> Seq<char> {
    join(fields, seq!['\t'])
}

proof fn five_tabbed(a: Seq<char>, b: Seq<char>, c: Seq<char>, d: Seq<char>, e: Seq<char>)
    ensures
        tabbed(seq![a, b, c, d, e]) == a + "\t"@ + b + "\t"@ + c + "\t"@ + d + "\t"@ + e,
{
    reveal_strlit("\t");
    assert("\t"@ =~= seq!['\t']);
    reveal_with_fuel(join, 6);
    let all = seq![a, b, c, d, e];
    assert(all.drop_last() =~= seq![a, b, c, d]);
    assert(all.drop_last().drop_last() =~= seq![a, b, c]);
    assert(all.drop_last().drop_last().drop_last() =~= seq![a, b]);
    assert(all.drop_last().drop_last().drop_last().drop_last() =~= seq![a]);
}

proof fn six_tabbed(
    a: Seq<char>,
    b: Seq<char>,
    c: Seq<char>,
    d: Seq<char>,
    e: Seq<char>,
    f: Seq<char>,
)
    ensures
        tabbed(seq![a, b, c, d, e, f]) == a + "\t"@ + b + "\t"@ + c + "\t"@ + d + "\t"@ + e
            + "\t"@ + f,
{
    reveal_strlit("\t");
    assert("\t"@ =~= seq!['\t']);
    let all = seq![a, b, c, d, e, f];
    assert(all.drop_last() =~= seq![a, b, c, d, e]);
    five_tabbed(a, b, c, d, e);
    assert(join(all, seq!['\t']) == join(all.drop_last(), seq!['\t']) + seq!['\t'] + all.last());
}

/// The list of images is a heading and a line for each image, in their order: alias, version,
/// whether it is installed, the smallest disk, and whether its package is staged or can be
/// had, with a tab between each and the next.
pub proof fn each_image_has_its_line(images: Seq<ImageResponse>)
    ensures
        image_list(images) == ended_lines(
            seq!["ALIAS\tVERSION\tINSTALLED\tMIN_DISK_GIB\tPACKAGE"@] + images.map_values(
                |i: ImageResponse| tabbed(image_fields(i)),
            ),
        ),
    decreases images.len(),
{
    let f = |i: ImageResponse| tabbed(image_fields(i));
    let head = "ALIAS\tVERSION\tINSTALLED\tMIN_DISK_GIB\tPACKAGE"@;
    reveal_strlit("ALIAS\tVERSION\tINSTALLED\tMIN_DISK_GIB\tPACKAGE");
    reveal_strlit("ALIAS\tVERSION\tINSTALLED\tMIN_DISK_GIB\tPACKAGE\n");
    reveal_strlit("\n");
    assert("\n"@ =~= seq!['\n']);
    assert("ALIAS\tVERSION\tINSTALLED\tMIN_DISK_GIB\tPACKAGE\n"@ =~= head + seq!['\n']);
    if images.len() == 0 {
        let all = seq![head] + images.map_values(f);
        assert(all =~= seq![head]);
        assert(all.skip(1) =~= Seq::empty());
        reveal_with_fuel(ended_lines, 2);
        assert(ended_lines(all) =~= head + seq!['\n']);
    } else {
        let front = images.drop_last();
        let last = images.last();
        each_image_has_its_line(front);
        let before = seq![head] + front.map_values(f);
        let fields = image_fields(last);
        five_tabbed(fields[0], fields[1], fields[2], fields[3], fields[4]);
        assert(fields =~= seq![fields[0], fields[1], fields[2], fields[3], fields[4]]);
        assert(image_line(last) =~= f(last) + seq!['\n']);
        assert(seq![head] + images.map_values(f) =~= before.push(f(last)));
        one_line_more(before, f(last));
    }
}

proof fn one_line_more(all: Seq<Seq<char>>, last: Seq<char>)
    ensures
        ended_lines(all.push(last)) == ended_lines(all) + (last + seq!['\n']),
    decreases all.len(),
{
    reveal_with_fuel(ended_lines, 2);
    let more = all.push(last);
    if all.len() == 0 {
        assert(more.skip(1) =~= Seq::empty());
        assert(ended_lines(more) =~= ended_lines(all) + (last + seq!['\n']));
    } else {
        assert(more.skip(1) =~= all.skip(1).push(last));
        one_line_more(all.skip(1), last);
        assert(ended_lines(more) =~= ended_lines(all) + (last + seq!['\n']));
    }
}

/// The list of networks is a heading and a line for each network, in their order: id, name,
/// subnet, gateway, whether it reaches the internet, and the interface that its traffic leaves
/// by, with a tab between each and the next.
pub proof fn each_network_has_its_line(networks: Seq<MicroNetwork>)
    ensures
        network_list(networks) == ended_lines(
            seq!["ID\tNAME\tSUBNET\tGATEWAY\tINTERNET\tUPLINK"@] + networks.map_values(
                |n: MicroNetwork| tabbed(network_fields(n)),
            ),
        ),
    decreases networks.len(),
{
    let f = |n: MicroNetwork| tabbed(network_fields(n));
    let head = "ID\tNAME\tSUBNET\tGATEWAY\tINTERNET\tUPLINK"@;
    reveal_strlit("ID\tNAME\tSUBNET\tGATEWAY\tINTERNET\tUPLINK");
    reveal_strlit("ID\tNAME\tSUBNET\tGATEWAY\tINTERNET\tUPLINK\n");
    reveal_strlit("\n");
    assert("\n"@ =~= seq!['\n']);
    assert("ID\tNAME\tSUBNET\tGATEWAY\tINTERNET\tUPLINK\n"@ =~= head + seq!['\n']);
    if networks.len() == 0 {
        let all = seq![head] + networks.map_values(f);
        assert(all =~= seq![head]);
        assert(all.skip(1) =~= Seq::empty());
        reveal_with_fuel(ended_lines, 2);
        assert(ended_lines(all) =~= head + seq!['\n']);
    } else {
        let front = networks.drop_last();
        let last = networks.last();
        each_network_has_its_line(front);
        let before = seq![head] + front.map_values(f);
        let fields = network_fields(last);
        six_tabbed(fields[0], fields[1], fields[2], fields[3], fields[4], fields[5]);
        assert(fields =~= seq![
            fields[0],
            fields[1],
            fields[2],
            fields[3],
            fields[4],
            fields[5],
        ]);
        assert(network_line(uuid_text(last.id), last) =~= f(last) + seq!['\n']);
        assert(seq![head] + networks.map_values(f) =~= before.push(f(last)));
        one_line_more(before, f(last));
    }
}

/// What an import failed of is the last line of its log that is not blank, without the white
/// space around it; where every line is blank, that no detail was returned is said.
pub proof fn a_failure_is_told_by_its_last_line(all: Seq<Seq<char>>)
    ensures
        (forall|i: int| 0 <= i < all.len() ==> trim(#[trigger] all[i]).len() == 0) ==> last_word(
            all,
        ) == "no failure detail returned"@,
        forall|i: int|
            0 <= i < all.len() && trim(#[trigger] all[i]).len() > 0 && (forall|j: int|
                i < j < all.len() ==> trim(#[trigger] all[j]).len() == 0) ==> last_word(all)
                == trim(all[i]),
    decreases all.len(),
{
    if all.len() > 0 {
        let front = all.drop_last();
        a_failure_is_told_by_its_last_line(front);
        assert forall|i: int| 0 <= i < front.len() implies #[trigger] all[i] == front[i] by {}
        if trim(all.last()).len() == 0 {
            if forall|i: int| 0 <= i < all.len() ==> trim(#[trigger] all[i]).len() == 0 {
                assert forall|i: int| 0 <= i < front.len() implies trim(
                    #[trigger] front[i],
                ).len() == 0 by {
                    assert(all[i] == front[i]);
                }
            }
            assert forall|i: int|
                0 <= i < all.len() && trim(#[trigger] all[i]).len() > 0 && (forall|j: int|
                    i < j < all.len() ==> trim(#[trigger] all[j]).len() == 0) implies last_word(
                all,
            ) == trim(all[i]) by {
                assert(i < front.len());
                assert(front[i] == all[i]);
                assert forall|j: int| i < j < front.len() implies trim(#[trigger] front[j]).len()
                    == 0 by {
                    assert(front[j] == all[j]);
                }
            }
        } else {
            assert(trim(all[all.len() - 1]).len() > 0);
            assert forall|i: int|
                0 <= i < all.len() && trim(#[trigger] all[i]).len() > 0 && (forall|j: int|
                    i < j < all.len() ==> trim(#[trigger] all[j]).len() == 0) implies last_word(
                all,
            ) == trim(all[i]) by {
                if i < all.len() - 1 {
                    assert(trim(all[all.len() - 1]).len() == 0);
                }
            }
        }
    }
}

/// The API is where the operator's flag says, else where the variable says unless it is empty,
/// else on this host; slashes at the end are dropped, and nothing else.
pub proof fn the_flag_names_the_api(flag: Option<Seq<char>>, variable: Option<Seq<char>>)
    ensures
        ({
            let named = match flag {
                Some(flag) => flag,
                None => if variable is Some && variable->0.len() > 0 {
                    variable->0
                } else {
                    "http://127.0.0.1:5523"@
                },
            };
            let base = api_base(flag, variable);
            &&& base.len() <= named.len()
            &&& named.take(base.len() as int) == base
            &&& forall|i: int| base.len() <= i < named.len() ==> #[trigger] named[i] == '/'
            &&& base.len() > 0 ==> base.last() != '/'
        }),
{
    reveal_strlit("http://127.0.0.1:5523");
    assert(DEFAULT_API_BASE@.last() == '3');
    if let Some(flag) = flag {
        trimming_takes_that_character_only(flag, '/');
    } else if let Some(value) = variable {
        trimming_takes_that_character_only(value, '/');
    }
    assert(DEFAULT_API_BASE@.take(DEFAULT_API_BASE@.len() as int) =~= DEFAULT_API_BASE@);
}

proof fn stands_in(text: Seq<char>, front: Seq<char>, part: Seq<char>, back: Seq<char>)
    requires
        text == front + part + back,
    ensures
        contains(text, part),
{
    assert(text.subrange(front.len() as int, (front.len() + part.len()) as int) =~= part);
    assert(occurs_at(text, part, front.len() as int));
}

/// What is shown of a host that answered: what it has of memory and disk left, before what it
/// has of them, and its load and uptime.
pub proof fn a_host_shows_what_it_has_left(h: HostStatus, why: Option<String>)
    ensures
        ({
            let text = host_text(Some(h), why);
            &&& contains(
                text,
                "  memory: "@ + decimal(h.memory_available_mib as nat) + " / "@ + decimal(
                    h.memory_total_mib as nat,
                ) + " MiB available\n"@,
            )
            &&& contains(
                text,
                "  disk:   "@ + decimal(h.disk_available_gib as nat) + " / "@ + decimal(
                    h.disk_total_gib as nat,
                ) + " GiB available\n"@,
            )
            &&& contains(text, "  uptime: "@ + decimal(h.uptime_seconds as nat) + "s\n"@)
            &&& contains(text, "  load average (1m): "@ + h.load_average_1m@ + "\n"@)
        }),
{
    reveal_strlit("host:\n  load average (1m): ");
    reveal_strlit("host:\n");
    reveal_strlit("  load average (1m): ");
    reveal_strlit("\n  memory: ");
    reveal_strlit("\n");
    reveal_strlit("  memory: ");
    reveal_strlit(" / ");
    reveal_strlit(" MiB available\n  disk:   ");
    reveal_strlit(" MiB available\n");
    reveal_strlit("  disk:   ");
    reveal_strlit(" GiB available\n  uptime: ");
    reveal_strlit(" GiB available\n");
    reveal_strlit("  uptime: ");
    reveal_strlit("s\n");
    let text = host_text(Some(h), why);
    let a = "host:\n"@;
    let b = "  load average (1m): "@ + h.load_average_1m@ + "\n"@;
    let c = "  memory: "@ + decimal(h.memory_available_mib as nat) + " / "@ + decimal(
        h.memory_total_mib as nat,
    ) + " MiB available\n"@;
    let d = "  disk:   "@ + decimal(h.disk_available_gib as nat) + " / "@ + decimal(
        h.disk_total_gib as nat,
    ) + " GiB available\n"@;
    let e = "  uptime: "@ + decimal(h.uptime_seconds as nat) + "s\n"@;
    assert("host:\n  load average (1m): "@ =~= a + "  load average (1m): "@);
    assert("\n  memory: "@ =~= "\n"@ + "  memory: "@);
    assert(" MiB available\n  disk:   "@ =~= " MiB available\n"@ + "  disk:   "@);
    assert(" GiB available\n  uptime: "@ =~= " GiB available\n"@ + "  uptime: "@);
    assert(text =~= a + b + c + d + e);
    assert(text =~= a + b + (c + d + e));
    stands_in(text, a, b, c + d + e);
    assert(text =~= (a + b) + c + (d + e));
    stands_in(text, a + b, c, d + e);
    assert(text =~= (a + b + c) + d + e);
    stands_in(text, a + b + c, d, e);
    assert(text =~= (a + b + c + d) + e + Seq::<char>::empty());
    stands_in(text, a + b + c + d, e, Seq::empty());
}

} // verus!

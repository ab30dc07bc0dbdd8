//! The list of accounts of a guest, in which root gets a shell.

use vstd::prelude::*;

#[allow(unused_imports)]
use super::provision::{root_line, with_root_shell, with_shell};
#[allow(unused_imports)]
use crate::text::{first_at, first_at_bounds, first_at_is, join, joined_in_front, lines, split, starts_with, strip_cr};

verus! {

/// The lines of a list of accounts in which root has another shell.
pub open spec fn accounts(all: Seq<Seq<char>>, shell: Seq<char>, seen: bool) -> Seq<Seq<char>>
    decreases all.len(),
{
    if all.len() == 0 {
        if seen {
            Seq::empty()
        } else {
            seq!["root:x:0:0:root:/root:"@ + shell]
        }
    } else if !seen && starts_with(all[0], "root:"@) {
        seq![root_line(all[0], shell)] + accounts(all.skip(1), shell, true)
    } else {
        seq![all[0]] + accounts(all.skip(1), shell, seen)
    }
}

/// Some lines, each with its end.
pub open spec fn written(all: Seq<Seq<char>>) -> Seq<char>
    decreases all.len(),
{
    if all.len() == 0 {
        Seq::empty()
    } else {
        all[0] + "\n"@ + written(all.skip(1))
    }
}

proof fn accounts_are_written(all: Seq<Seq<char>>, shell: Seq<char>, seen: bool)
    ensures
        with_shell(all, shell, seen) == written(accounts(all, shell, seen)),
    decreases all.len(),
{
    let kept = accounts(all, shell, seen);
    if all.len() == 0 {
        if !seen {
            assert(kept.skip(1) =~= Seq::empty());
            assert(written(kept.skip(1)) == Seq::<char>::empty());
            assert(written(kept) =~= kept[0] + "\n"@);
        }
    } else {
        let later = seen || starts_with(all[0], "root:"@);
        accounts_are_written(all.skip(1), shell, later);
        assert(kept.skip(1) =~= accounts(all.skip(1), shell, later));
    }
}

/// Whether a line is read as it was written.
pub open spec fn readable(line: Seq<char>) -> bool {
    !line.contains('\n') && (line.len() > 0 ==> line.last() != '\r')
}

proof fn written_lines_are_read(all: Seq<Seq<char>>)
    requires
        forall|i: int| 0 <= i < all.len() ==> readable(#[trigger] all[i]),
    ensures
        lines(written(all)) == all,
    decreases all.len(),
{
    if all.len() == 0 {
        assert(lines(written(all)) =~= all);
    } else {
        reveal_strlit("\n");
        let line = all[0];
        let text = written(all);
        let rest = written(all.skip(1));
        assert(readable(line));
        assert forall|j: int| 0 <= j < line.len() implies text[j] != '\n' by {
            assert(text[j] == line[j]);
            assert(line.contains(line[j]));
        }
        first_at_is(text, '\n', line.len() as int);
        assert(text.take(line.len() as int) =~= line);
        assert(text.skip(line.len() as int + 1) =~= rest);
        assert forall|i: int| 0 <= i < all.skip(1).len() implies readable(
            #[trigger] all.skip(1)[i],
        ) by {
            assert(all.skip(1)[i] == all[i + 1]);
        }
        written_lines_are_read(all.skip(1));
        assert(seq![line] + all.skip(1) =~= all);
    }
}

proof fn joined_parts_are_split(parts: Seq<Seq<char>>, c: char)
    requires
        parts.len() >= 1,
        forall|i: int| 0 <= i < parts.len() ==> !(#[trigger] parts[i]).contains(c),
    ensures
        split(join(parts, seq![c]), c) == parts,
    decreases parts.len(),
{
    let text = join(parts, seq![c]);
    let first = parts[0];
    assert(!first.contains(c));
    assert forall|j: int| 0 <= j < first.len() implies first[j] != c by {
        assert(first.contains(first[j]));
    }
    if parts.len() == 1 {
        first_at_is(text, c, text.len() as int);
        assert(split(text, c) =~= parts);
    } else {
        joined_in_front(parts, seq![c]);
        let rest = join(parts.skip(1), seq![c]);
        assert(text =~= first + seq![c] + rest);
        assert forall|j: int| 0 <= j < first.len() implies text[j] != c by {
            assert(text[j] == first[j]);
        }
        first_at_is(text, c, first.len() as int);
        assert(text.take(first.len() as int) =~= first);
        assert(text.skip(first.len() as int + 1) =~= rest);
        assert forall|i: int| 0 <= i < parts.skip(1).len() implies !(#[trigger] parts.skip(
            1,
        )[i]).contains(c) by {
            assert(parts.skip(1)[i] == parts[i + 1]);
        }
        joined_parts_are_split(parts.skip(1), c);
        assert(split(text, c) =~= seq![first] + parts.skip(1));
        assert(seq![first] + parts.skip(1) =~= parts);
    }
}

/// The pieces of a text hold no separator, and no character that the text lacks.
proof fn pieces_are_clean(s: Seq<char>, c: char, other: char)
    ensures
        forall|i: int| 0 <= i < split(s, c).len() ==> !(#[trigger] split(s, c)[i]).contains(c),
        !s.contains(other) ==> forall|i: int|
            0 <= i < split(s, c).len() ==> !(#[trigger] split(s, c)[i]).contains(other),
        split(s, c).len() >= 1,
    decreases s.len(),
{
    let at = first_at(s, c);
    first_at_bounds(s, c);
    if at < s.len() {
        let head = s.take(at);
        let tail = s.skip(at + 1);
        pieces_are_clean(tail, c, other);
        assert forall|x: char| head.contains(x) implies s.contains(x) && x != c by {
            let j = choose|j: int| 0 <= j < head.len() && head[j] == x;
            assert(s[j] == x);
        }
        assert forall|x: char| tail.contains(x) implies s.contains(x) by {
            let j = choose|j: int| 0 <= j < tail.len() && tail[j] == x;
            assert(s[j + at + 1] == x);
        }
        assert forall|i: int| 0 <= i < split(s, c).len() implies !(#[trigger] split(
            s,
            c,
        )[i]).contains(c) by {
            if i > 0 {
                assert(split(s, c)[i] == split(tail, c)[i - 1]);
            }
        }
        if !s.contains(other) {
            assert forall|i: int| 0 <= i < split(s, c).len() implies !(#[trigger] split(
                s,
                c,
            )[i]).contains(other) by {
                if i > 0 {
                    assert(split(s, c)[i] == split(tail, c)[i - 1]);
                }
            }
        }
    }
}

proof fn joined_is_clean(parts: Seq<Seq<char>>, sep: Seq<char>, other: char)
    requires
        !sep.contains(other),
        forall|i: int| 0 <= i < parts.len() ==> !(#[trigger] parts[i]).contains(other),
    ensures
        !join(parts, sep).contains(other),
    decreases parts.len(),
{
    if parts.len() >= 2 {
        let front = join(parts.drop_last(), sep);
        assert forall|i: int| 0 <= i < parts.drop_last().len() implies !(
        #[trigger] parts.drop_last()[i]).contains(other) by {
            assert(parts.drop_last()[i] == parts[i]);
        }
        joined_is_clean(parts.drop_last(), sep, other);
        let all = join(parts, sep);
        assert(!parts.last().contains(other));
        assert forall|j: int| 0 <= j < all.len() implies all[j] != other by {
            if j < front.len() {
                assert(all[j] == front[j]);
                assert(front.contains(front[j]));
            } else if j < front.len() + sep.len() {
                assert(all[j] == sep[j - front.len()]);
                assert(sep.contains(sep[j - front.len()]));
            } else {
                let k = j - front.len() - sep.len();
                assert(all[j] == parts.last()[k]);
                assert(parts.last().contains(parts.last()[k]));
            }
        }
    } else if parts.len() == 1 {
        assert(!parts[0].contains(other));
    }
}

proof fn lines_hold_no_line_feed(s: Seq<char>)
    ensures
        forall|i: int| 0 <= i < lines(s).len() ==> !(#[trigger] lines(s)[i]).contains('\n'),
    decreases s.len(),
{
    if s.len() > 0 {
        let at = first_at(s, '\n');
        first_at_bounds(s, '\n');
        if at < s.len() {
            let head = s.take(at);
            let tail = s.skip(at + 1);
            lines_hold_no_line_feed(tail);
            assert(!strip_cr(head).contains('\n'));
            assert forall|i: int| 0 <= i < lines(s).len() implies !(#[trigger] lines(
                s,
            )[i]).contains('\n') by {
                if i > 0 {
                    assert(lines(s)[i] == lines(tail)[i - 1]);
                }
            }
        } else {
            assert(!s.contains('\n'));
        }
    }
}

/// The fields of the line of root, with a shell.
spec fn root_fields(line: Seq<char>, shell: Seq<char>) -> Seq<Seq<char>> {
    if split(line, ':').len() >= 7 {
        split(line, ':').update(6, shell)
    } else {
        seq!["root"@, "x"@, "0"@, "0"@, "root"@, "/root"@, shell]
    }
}

proof fn literal_line(shell: Seq<char>)
    ensures
        "root:x:0:0:root:/root:"@ + shell == join(
            seq!["root"@, "x"@, "0"@, "0"@, "root"@, "/root"@, shell],
            ":"@,
        ),
{
    reveal_strlit("root:x:0:0:root:/root:");
    reveal_strlit("root");
    reveal_strlit("x");
    reveal_strlit("0");
    reveal_strlit("/root");
    reveal_strlit(":");
    let g = seq!["root"@, "x"@, "0"@, "0"@, "root"@, "/root"@, shell];
    let f = g.drop_last();
    let e = f.drop_last();
    let d = e.drop_last();
    let c = d.drop_last();
    let b = c.drop_last();
    let a = b.drop_last();
    assert(join(a, ":"@) == "root"@);
    assert(join(b, ":"@) =~= "root"@ + ":"@ + "x"@);
    assert(join(c, ":"@) =~= join(b, ":"@) + ":"@ + "0"@);
    assert(join(d, ":"@) =~= join(c, ":"@) + ":"@ + "0"@);
    assert(join(e, ":"@) =~= join(d, ":"@) + ":"@ + "root"@);
    assert(join(f, ":"@) =~= join(e, ":"@) + ":"@ + "/root"@);
    assert(join(g, ":"@) =~= "root:x:0:0:root:/root:"@ + shell);
}

proof fn root_keeps_its_line(line: Seq<char>, shell: Seq<char>, other: Seq<char>)
    requires
        !shell.contains(':'),
        starts_with(line, "root:"@) || split(line, ':').len() < 7,
    ensures
        starts_with(root_line(line, shell), "root:"@),
        root_line(root_line(line, shell), other) == root_line(line, other),
        !line.contains('\n') && !shell.contains('\n') ==> !root_line(line, shell).contains('\n'),
{
    reveal_strlit("root:x:0:0:root:/root:");
    reveal_strlit("root:");
    reveal_strlit("root");
    reveal_strlit("x");
    reveal_strlit("0");
    reveal_strlit("/root");
    reveal_strlit(":");
    let fields = root_fields(line, shell);
    let next = root_line(line, shell);
    let colon = ':';
    literal_line(shell);
    literal_line(other);
    pieces_are_clean(line, ':', '\n');
    assert(next == join(fields, ":"@));
    assert(fields.len() >= 7 && fields[6] == shell);
    if split(line, ':').len() >= 7 {
        assert(line.subrange(0, 5) == "root:"@);
        assert(line[0] == line.subrange(0, 5)[0]);
        assert(line[1] == line.subrange(0, 5)[1]);
        assert(line[2] == line.subrange(0, 5)[2]);
        assert(line[3] == line.subrange(0, 5)[3]);
        assert(line[4] == line.subrange(0, 5)[4]);
        first_at_is(line, ':', 4);
        assert(split(line, ':')[0] =~= line.take(4));
    }
    assert(fields[0] =~= "root"@);
    assert forall|i: int| 0 <= i < fields.len() implies !(#[trigger] fields[i]).contains(colon) by {}
    assert(":"@ =~= seq![colon]);
    joined_parts_are_split(fields, colon);
    assert(split(next, ':') == fields);
    assert(fields.update(6, other) =~= root_fields(line, other));
    assert(root_line(line, other) == join(root_fields(line, other), ":"@));
    joined_in_front(fields, ":"@);
    assert(next.subrange(0, 5) =~= "root:"@);
    if !line.contains('\n') && !shell.contains('\n') {
        assert forall|i: int| 0 <= i < fields.len() implies !(#[trigger] fields[i]).contains(
            '\n',
        ) by {}
        joined_is_clean(fields, ":"@, '\n');
    }
}

proof fn the_last_shell_counts(
    all: Seq<Seq<char>>,
    shell: Seq<char>,
    other: Seq<char>,
    seen: bool,
)
    requires
        !shell.contains(':'),
    ensures
        accounts(accounts(all, shell, seen), other, seen) == accounts(all, other, seen),
    decreases all.len(),
{
    let kept = accounts(all, shell, seen);
    if all.len() == 0 {
        if !seen {
            let none = Seq::<char>::empty();
            first_at_is(none, ':', 0);
            assert(split(none, ':').len() == 1);
            root_keeps_its_line(none, shell, other);
            assert(kept[0] == root_line(none, shell));
            assert(accounts(kept.skip(1), other, true) =~= Seq::empty());
            assert(accounts(kept, other, seen) =~= accounts(all, other, seen));
        }
    } else {
        let later = seen || starts_with(all[0], "root:"@);
        the_last_shell_counts(all.skip(1), shell, other, later);
        assert(kept.skip(1) =~= accounts(all.skip(1), shell, later));
        if !seen && later {
            root_keeps_its_line(all[0], shell, other);
        }
        assert(accounts(kept, other, seen) =~= accounts(all, other, seen));
    }
}

proof fn accounts_hold_no_line_feed(all: Seq<Seq<char>>, shell: Seq<char>, seen: bool)
    requires
        !shell.contains(':'),
        !shell.contains('\n'),
        forall|i: int| 0 <= i < all.len() ==> !(#[trigger] all[i]).contains('\n'),
    ensures
        forall|i: int|
            0 <= i < accounts(all, shell, seen).len() ==> !(#[trigger] accounts(
                all,
                shell,
                seen,
            )[i]).contains('\n'),
    decreases all.len(),
{
    let kept = accounts(all, shell, seen);
    if all.len() == 0 {
        let none = Seq::<char>::empty();
        first_at_is(none, ':', 0);
        assert(split(none, ':').len() == 1);
        root_keeps_its_line(none, shell, shell);
    } else {
        let later = seen || starts_with(all[0], "root:"@);
        assert forall|i: int| 0 <= i < all.skip(1).len() implies !(#[trigger] all.skip(
            1,
        )[i]).contains('\n') by {
            assert(all.skip(1)[i] == all[i + 1]);
        }
        accounts_hold_no_line_feed(all.skip(1), shell, later);
        let rest = accounts(all.skip(1), shell, later);
        if !seen && later {
            root_keeps_its_line(all[0], shell, shell);
        }
        assert forall|i: int| 0 <= i < kept.len() implies !(#[trigger] kept[i]).contains('\n') by {
            if i > 0 {
                assert(kept[i] == rest[i - 1]);
            } else {
                assert(!all[0].contains('\n'));
            }
        }
    }
}

/// Root's shell can be set again and again, and the last one counts: setting one after another
/// is setting the other alone, and setting the same one again changes nothing. A shell holds
/// neither `:` nor a line feed, and no line of the list that is written ends with a carriage
/// return.
pub proof fn the_last_shell_is_roots(passwd: Seq<char>, shell: Seq<char>, other: Seq<char>)
    requires
        !shell.contains(':'),
        !shell.contains('\n'),
        forall|i: int|
            0 <= i < accounts(lines(passwd), shell, false).len() && (#[trigger] accounts(
                lines(passwd),
                shell,
                false,
            )[i]).len() > 0 ==> accounts(lines(passwd), shell, false)[i].last() != '\r',
    ensures
        with_root_shell(with_root_shell(passwd, shell), other) == with_root_shell(passwd, other),
{
    let kept = accounts(lines(passwd), shell, false);
    lines_hold_no_line_feed(passwd);
    accounts_hold_no_line_feed(lines(passwd), shell, false);
    assert forall|i: int| 0 <= i < kept.len() implies readable(#[trigger] kept[i]) by {}
    accounts_are_written(lines(passwd), shell, false);
    written_lines_are_read(kept);
    the_last_shell_counts(lines(passwd), shell, other, false);
    accounts_are_written(kept, other, false);
    accounts_are_written(lines(passwd), other, false);
}

} // verus!

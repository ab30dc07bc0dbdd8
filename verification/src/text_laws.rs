//! What holds of the operations on texts.

use vstd::prelude::*;

#[allow(unused_imports)]
use crate::text::{
    ascii_lower, contains, decimal, digit, first_at, first_at_bounds, is_space, join,
    joined_in_front, lines, lower, occurs_at, replace, signed_decimal, split, starts_with, trim,
    trim_end, trim_end_of, trim_start, trim_start_of, words, words_from,
};

verus! {

/// Whether a text is white space.
pub open spec fn blank(s: Seq<char>) -> bool {
    forall|i: int| 0 <= i < s.len() ==> is_space(#[trigger] s[i])
}

proof fn trimmed_in_front(s: Seq<char>)
    ensures
        exists|front: Seq<char>| #[trigger] (front + trim_start(s)) == s && blank(front),
        trim_start(s).len() > 0 ==> !is_space(trim_start(s)[0]),
    decreases s.len(),
{
    if s.len() > 0 && is_space(s[0]) {
        trimmed_in_front(s.skip(1));
        let front = choose|front: Seq<char>| #[trigger]
            (front + trim_start(s.skip(1))) == s.skip(1) && blank(front);
        let more = seq![s[0]] + front;
        assert(more + trim_start(s) =~= seq![s[0]] + s.skip(1));
        assert(seq![s[0]] + s.skip(1) =~= s);
        assert(blank(more));
    } else {
        let none = Seq::<char>::empty();
        assert(none + trim_start(s) =~= s);
        assert(blank(none));
    }
}

proof fn trimmed_behind(s: Seq<char>)
    ensures
        exists|back: Seq<char>| #[trigger] (trim_end(s) + back) == s && blank(back),
        trim_end(s).len() > 0 ==> !is_space(trim_end(s).last()),
        trim_end(s).len() > 0 ==> trim_end(s)[0] == s[0],
    decreases s.len(),
{
    if s.len() > 0 && is_space(s.last()) {
        trimmed_behind(s.drop_last());
        let back = choose|back: Seq<char>| #[trigger]
            (trim_end(s.drop_last()) + back) == s.drop_last() && blank(back);
        let more = back.push(s.last());
        assert(trim_end(s) + more =~= s.drop_last().push(s.last()));
        assert(s.drop_last().push(s.last()) =~= s);
        assert(blank(more));
    } else {
        let none = Seq::<char>::empty();
        assert(trim_end(s) + none =~= s);
        assert(blank(none));
    }
}

/// A text is its white space in front, what is left of it without the white space at its
/// ends, and its white space behind. What is left neither begins nor ends with white space.
pub proof fn trimming_takes_white_space_only(s: Seq<char>)
    ensures
        exists|front: Seq<char>, back: Seq<char>|
            #![trigger blank(front), blank(back)]
            s == front + trim(s) + back && blank(front) && blank(back),
        trim(s).len() > 0 ==> !is_space(trim(s)[0]) && !is_space(trim(s).last()),
{
    trimmed_in_front(s);
    trimmed_behind(trim_start(s));
    let front = choose|front: Seq<char>| #[trigger]
        (front + trim_start(s)) == s && blank(front);
    let back = choose|back: Seq<char>| #[trigger]
        (trim_end(trim_start(s)) + back) == trim_start(s) && blank(back);
    assert(s =~= front + trim(s) + back);
    assert(blank(front) && blank(back));
}

/// Taking a character away from an end of a text takes nothing else: what is left with that
/// character put back so and so often is the text, and it is gone from that end.
pub proof fn trimming_takes_that_character_only(s: Seq<char>, c: char)
    ensures
        trim_end_of(s, c).len() <= s.len(),
        s.take(trim_end_of(s, c).len() as int) == trim_end_of(s, c),
        forall|i: int| trim_end_of(s, c).len() <= i < s.len() ==> #[trigger] s[i] == c,
        trim_end_of(s, c).len() > 0 ==> trim_end_of(s, c).last() != c,
        trim_start_of(s, c).len() <= s.len(),
        s.skip(s.len() - trim_start_of(s, c).len()) == trim_start_of(s, c),
        forall|i: int| 0 <= i < s.len() - trim_start_of(s, c).len() ==> #[trigger] s[i] == c,
        trim_start_of(s, c).len() > 0 ==> trim_start_of(s, c)[0] != c,
    decreases s.len(),
{
    assert(s.take(s.len() as int) =~= s);
    assert(s.skip(0) =~= s);
    if s.len() > 0 {
        let front = s.drop_last();
        let rest = s.skip(1);
        trimming_takes_that_character_only(front, c);
        trimming_takes_that_character_only(rest, c);
        if s.last() == c {
            let n = trim_end_of(front, c).len() as int;
            assert(s.take(n) =~= front.take(n));
            assert forall|i: int| n <= i < s.len() implies #[trigger] s[i] == c by {
                if i < front.len() {
                    assert(front[i] == s[i]);
                }
            }
        }
        if s[0] == c {
            let n = trim_start_of(rest, c).len() as int;
            assert(s.skip(s.len() - n) =~= rest.skip(rest.len() - n));
            assert forall|i: int| 0 <= i < s.len() - n implies #[trigger] s[i] == c by {
                if i > 0 {
                    assert(rest[i - 1] == s[i]);
                }
            }
        }
    }
}

/// The pieces of a text between a character, with that character between them again, are the
/// text, and none of them holds the character.
pub proof fn pieces_make_the_text(s: Seq<char>, c: char)
    ensures
        join(split(s, c), seq![c]) == s,
        split(s, c).len() > 0,
        forall|i: int| 0 <= i < split(s, c).len() ==> !(#[trigger] split(s, c)[i]).contains(c),
    decreases s.len(),
{
    let i = first_at(s, c);
    first_at_bounds(s, c);
    let all = split(s, c);
    if 0 <= i < s.len() {
        let rest = split(s.skip(i + 1), c);
        pieces_make_the_text(s.skip(i + 1), c);
        assert(all =~= seq![s.take(i)] + rest);
        assert(all.skip(1) =~= rest);
        joined_in_front(all, seq![c]);
        assert(s =~= s.take(i) + seq![c] + s.skip(i + 1));
        assert forall|k: int| 0 <= k < all.len() implies !(#[trigger] all[k]).contains(c) by {
            if k > 0 {
                assert(all[k] == rest[k - 1]);
            }
        }
    } else {
        assert(all =~= seq![s]);
    }
}

/// A line of a text holds no line feed, and a text that has none is one line.
pub proof fn lines_hold_no_line_feed(s: Seq<char>)
    ensures
        forall|i: int| 0 <= i < lines(s).len() ==> !(#[trigger] lines(s)[i]).contains('\n'),
        s.len() > 0 && !s.contains('\n') ==> lines(s) == seq![s],
        s.len() == 0 ==> lines(s).len() == 0,
    decreases s.len(),
{
    let i = first_at(s, '\n');
    first_at_bounds(s, '\n');
    let all = lines(s);
    if s.len() > 0 {
        if 0 <= i < s.len() {
            assert(s.contains(s[i]));
            let rest = lines(s.skip(i + 1));
            lines_hold_no_line_feed(s.skip(i + 1));
            let first = crate::text::strip_cr(s.take(i));
            assert forall|k: int| 0 <= k < all.len() implies !(#[trigger] all[k]).contains(
                '\n',
            ) by {
                if k > 0 {
                    assert(all[k] == rest[k - 1]);
                } else {
                    assert(all[0] == first);
                    assert forall|x: int| 0 <= x < first.len() implies first[x] != '\n' by {
                        assert(first[x] == s[x]);
                    }
                }
            }
        } else {
            assert(all =~= seq![s]);
        }
    }
}

/// A text of lines, each ended by a line feed.
pub open spec fn ended_lines(all: Seq<Seq<char>>) -> Seq<char>
    decreases all.len(),
{
    if all.len() == 0 {
        Seq::empty()
    } else {
        all[0] + seq!['\n'] + ended_lines(all.skip(1))
    }
}

/// Lines that were written, each with a line feed behind it, are the lines that are read.
pub proof fn written_lines_are_read(all: Seq<Seq<char>>)
    requires
        forall|i: int|
            0 <= i < all.len() ==> !(#[trigger] all[i]).contains('\n') && (all[i].len() > 0
                ==> all[i].last() != '\r'),
    ensures
        lines(ended_lines(all)) == all,
    decreases all.len(),
{
    let text = ended_lines(all);
    if all.len() == 0 {
        assert(lines(text) =~= all);
    } else {
        let rest = all.skip(1);
        assert forall|i: int| 0 <= i < rest.len() implies !(#[trigger] rest[i]).contains('\n') && (
        rest[i].len() > 0 ==> rest[i].last() != '\r') by {
            assert(rest[i] == all[i + 1]);
        }
        written_lines_are_read(rest);
        let n = all[0].len() as int;
        assert(text[n] == '\n');
        assert forall|j: int| 0 <= j < n implies text[j] != '\n' by {
            assert(text[j] == all[0][j]);
            assert(all[0].contains(all[0][j]));
        }
        crate::text::first_at_is(text, '\n', n);
        assert(text.take(n) =~= all[0]);
        assert(text.skip(n + 1) =~= ended_lines(rest));
        assert(lines(text) =~= seq![all[0]] + rest);
        assert(seq![all[0]] + rest =~= all);
    }
}

/// The number that decimal digits stand for.
pub open spec fn value(digits: Seq<char>) -> int
    decreases digits.len(),
{
    if digits.len() == 0 {
        0
    } else {
        10 * value(digits.drop_last()) + (digits.last() as int - '0' as int)
    }
}

/// A number is written in decimal digits that stand for it, and with no zero in front unless
/// it is zero.
pub proof fn digits_stand_for_their_number(n: nat)
    ensures
        value(decimal(n)) == n,
        decimal(n).len() > 0,
        forall|i: int| 0 <= i < decimal(n).len() ==> '0' <= #[trigger] decimal(n)[i] <= '9',
        decimal(n)[0] == '0' ==> n == 0,
    decreases n,
{
    reveal_with_fuel(value, 2);
    if n < 10 {
        assert(decimal(n).drop_last() =~= Seq::empty());
        assert(digit(n as int) as int == '0' as int + n);
    } else {
        digits_stand_for_their_number(n / 10);
        assert(decimal(n).drop_last() =~= decimal(n / 10));
        assert(digit((n % 10) as int) as int == '0' as int + n % 10);
        assert forall|i: int| 0 <= i < decimal(n).len() implies '0' <= #[trigger] decimal(n)[i]
            <= '9' by {
            if i < decimal(n / 10).len() {
                assert(decimal(n)[i] == decimal(n / 10)[i]);
            }
        }
        assert(decimal(n)[0] == decimal(n / 10)[0]);
    }
}

/// A number has a sign in front exactly where it is negative, and then the digits of its
/// amount.
pub proof fn a_sign_stands_before_the_digits(n: int)
    ensures
        n >= 0 ==> value(signed_decimal(n)) == n && signed_decimal(n)[0] != '-',
        n < 0 ==> signed_decimal(n)[0] == '-' && value(signed_decimal(n).skip(1)) == -n,
{
    reveal_strlit("-");
    if n < 0 {
        digits_stand_for_their_number((-n) as nat);
        assert(signed_decimal(n).skip(1) =~= decimal((-n) as nat));
    } else {
        digits_stand_for_their_number(n as nat);
    }
}

/// A text that does not hold what is to be replaced stays as it is; one that begins with it
/// begins with what takes its place. A text is replaced piece by piece.
pub proof fn only_occurrences_are_replaced(s: Seq<char>, from: Seq<char>, to: Seq<char>)
    requires
        from.len() > 0,
    ensures
        !contains(s, from) ==> replace(s, from, to) == s,
        replace(from + s, from, to) == to + replace(s, from, to),
        from == to ==> replace(s, from, to) == s,
    decreases s.len(),
{
    assert((from + s).subrange(0, from.len() as int) =~= from);
    assert((from + s).skip(from.len() as int) =~= s);
    if s.len() >= from.len() {
        let rest = s.skip(1);
        only_occurrences_are_replaced(rest, from, to);
        if !contains(s, from) {
            assert(!occurs_at(s, from, 0));
            assert forall|at: int| !occurs_at(rest, from, at) by {
                if occurs_at(rest, from, at) {
                    assert(s.subrange(at + 1, at + 1 + from.len()) =~= rest.subrange(
                        at,
                        at + from.len(),
                    ));
                    assert(occurs_at(s, from, at + 1));
                }
            }
            assert(seq![s[0]] + rest =~= s);
        }
        if from == to {
            if starts_with(s, from) {
                only_occurrences_are_replaced(s.skip(from.len() as int), from, to);
                assert(s =~= s.subrange(0, from.len() as int) + s.skip(from.len() as int));
            } else {
                assert(seq![s[0]] + rest =~= s);
            }
        }
    }
}

/// What stands before the first occurrence stays, and what stands behind it is replaced on
/// its own.
pub proof fn the_first_occurrence_is_replaced(
    front: Seq<char>,
    from: Seq<char>,
    back: Seq<char>,
    to: Seq<char>,
)
    requires
        from.len() > 0,
        forall|at: int| 0 <= at < front.len() ==> !occurs_at(front + from + back, from, at),
    ensures
        replace(front + from + back, from, to) == front + to + replace(back, from, to),
    decreases front.len(),
{
    let s = front + from + back;
    if front.len() == 0 {
        assert(s =~= from + back);
        only_occurrences_are_replaced(back, from, to);
        assert(front + to + replace(back, from, to) =~= to + replace(back, from, to));
    } else {
        let rest = front.skip(1);
        assert(!occurs_at(s, from, 0));
        assert(s.skip(1) =~= rest + from + back);
        assert forall|at: int| 0 <= at < rest.len() implies !occurs_at(
            rest + from + back,
            from,
            at,
        ) by {
            if occurs_at(rest + from + back, from, at) {
                assert(s.subrange(at + 1, at + 1 + from.len()) =~= (rest + from + back).subrange(
                    at,
                    at + from.len(),
                ));
                assert(occurs_at(s, from, at + 1));
            }
        }
        the_first_occurrence_is_replaced(rest, from, back, to);
        assert(seq![s[0]] + (rest + to + replace(back, from, to)) =~= front + to + replace(
            back,
            from,
            to,
        ));
    }
}

/// A text in lower case has as many characters, no capital letter of ASCII, and differs from
/// the text only in those.
pub proof fn lower_case_holds_no_capital(s: Seq<char>, i: int)
    requires
        0 <= i < s.len(),
    ensures
        ascii_lower(s).len() == s.len(),
        !('A' <= ascii_lower(s)[i] <= 'Z'),
        !('A' <= s[i] <= 'Z') ==> ascii_lower(s)[i] == s[i],
        'A' <= s[i] <= 'Z' ==> ascii_lower(s)[i] as int == s[i] as int + 32,
{
}

/// The characters of some words, one word after the other.
pub open spec fn run_together(all: Seq<Seq<char>>) -> Seq<char>
    decreases all.len(),
{
    if all.len() == 0 {
        Seq::empty()
    } else {
        all[0] + run_together(all.skip(1))
    }
}

/// A text without its white space.
pub open spec fn without_space(s: Seq<char>) -> Seq<char>
    decreases s.len(),
{
    if s.len() == 0 {
        Seq::empty()
    } else if is_space(s[0]) {
        without_space(s.skip(1))
    } else {
        seq![s[0]] + without_space(s.skip(1))
    }
}

proof fn words_hold_the_rest(s: Seq<char>, open: Seq<char>)
    ensures
        run_together(words_from(s, open)) == open + without_space(s),
    decreases s.len(),
{
    let all = words_from(s, open);
    reveal_with_fuel(run_together, 2);
    if s.len() == 0 {
        if open.len() > 0 {
            assert(all =~= seq![open]);
            assert(all.skip(1) =~= Seq::empty());
        }
        assert(run_together(all) =~= open + without_space(s));
    } else if is_space(s[0]) {
        let rest = words_from(s.skip(1), Seq::empty());
        words_hold_the_rest(s.skip(1), Seq::empty());
        if open.len() > 0 {
            assert(all =~= seq![open] + rest);
            assert(all.skip(1) =~= rest);
            assert(all[0] == open);
        } else {
            assert(all =~= rest);
        }
        assert(run_together(all) =~= open + without_space(s));
    } else {
        words_hold_the_rest(s.skip(1), open.push(s[0]));
        assert(open.push(s[0]) + without_space(s.skip(1)) =~= open + (seq![s[0]]
            + without_space(s.skip(1))));
    }
}

/// The words of a text hold all of its characters but the white space, in their order.
pub proof fn words_hold_all_but_space(s: Seq<char>)
    ensures
        run_together(words(s)) == without_space(s),
{
    words_hold_the_rest(s, Seq::empty());
    assert(Seq::<char>::empty() + without_space(s) =~= without_space(s));
}

} // verus!

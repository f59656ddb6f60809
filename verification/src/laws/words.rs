//! Texts: what trimming, splitting, joining, searching and numbers have in common.
use crate::text::{
    decimal, digit, has_prefix, is_white_space, joined, occurs_in, precedes, split, stands_at,
    trim_end, trim_start, trimmed, without_leading,
};
use vstd::prelude::*;

verus! {

/// Nothing but white space.
pub open spec fn is_blank(s: Seq<char>) -> bool {
    forall|i: int| 0 <= i < s.len() ==> is_white_space(#[trigger] s[i])
}

/// No white space at either end.
pub open spec fn has_bare_ends(s: Seq<char>) -> bool {
    s.len() > 0 ==> !is_white_space(s[0]) && !is_white_space(s.last())
}

/// Nothing but `c`.
pub open spec fn is_run(s: Seq<char>, c: char) -> bool {
    forall|i: int| 0 <= i < s.len() ==> #[trigger] s[i] == c
}

/// `c` does not stand in the text.
pub open spec fn is_without(s: Seq<char>, c: char) -> bool {
    forall|i: int| 0 <= i < s.len() ==> #[trigger] s[i] != c
}

proof fn front_is_trimmed(a: Seq<char>, t: Seq<char>)
    requires
        is_blank(a),
        t.len() > 0 ==> !is_white_space(t[0]),
    ensures
        trim_start(a + t) == t,
    decreases a.len(),
{
    if a.len() > 0 {
        let s = a + t;
        assert(s[0] == a[0]);
        assert(s.drop_first() =~= a.drop_first() + t);
        assert forall|i: int| 0 <= i < a.drop_first().len() implies is_white_space(
            #[trigger] a.drop_first()[i],
        ) by {
            assert(a.drop_first()[i] == a[i + 1]);
        }
        front_is_trimmed(a.drop_first(), t);
    } else {
        assert(a + t =~= t);
    }
}

proof fn back_is_trimmed(t: Seq<char>, b: Seq<char>)
    requires
        is_blank(b),
        t.len() > 0 ==> !is_white_space(t.last()),
    ensures
        trim_end(t + b) == t,
    decreases b.len(),
{
    if b.len() > 0 {
        let s = t + b;
        assert(s.last() == b[b.len() - 1]);
        assert(s.drop_last() =~= t + b.drop_last());
        assert forall|i: int| 0 <= i < b.drop_last().len() implies is_white_space(
            #[trigger] b.drop_last()[i],
        ) by {
            assert(b.drop_last()[i] == b[i]);
        }
        back_is_trimmed(t, b.drop_last());
    } else {
        assert(t + b =~= t);
    }
}

/// Trimming takes the white space off both ends and leaves all that stands between.
pub proof fn law_trim_leaves_the_middle(a: Seq<char>, t: Seq<char>, b: Seq<char>)
    requires
        is_blank(a),
        has_bare_ends(t),
        is_blank(b),
    ensures
        trimmed(a + t + b) == t,
{
    if t.len() > 0 {
        assert(a + t + b =~= a + (t + b));
        front_is_trimmed(a, t + b);
        back_is_trimmed(t, b);
    } else {
        assert forall|i: int| 0 <= i < (a + t + b).len() implies is_white_space(
            #[trigger] (a + t + b)[i],
        ) by {
            if i < a.len() {
                assert((a + t + b)[i] == a[i]);
            } else {
                assert((a + t + b)[i] == b[i - a.len()]);
            }
        }
        let none = Seq::<char>::empty();
        assert(a + t + b =~= (a + t + b) + none);
        front_is_trimmed(a + t + b, none);
        assert(t =~= none);
    }
}

proof fn front_parts(s: Seq<char>) -> (a: Seq<char>)
    ensures
        s == a + trim_start(s),
        is_blank(a),
        trim_start(s).len() > 0 ==> !is_white_space(trim_start(s)[0]),
    decreases s.len(),
{
    if s.len() > 0 && is_white_space(s[0]) {
        let rest = front_parts(s.drop_first());
        let a = seq![s[0]] + rest;
        assert(a + trim_start(s) =~= seq![s[0]] + (rest + trim_start(s.drop_first())));
        assert(s =~= seq![s[0]] + s.drop_first());
        assert forall|i: int| 0 <= i < a.len() implies is_white_space(#[trigger] a[i]) by {
            if i > 0 {
                assert(a[i] == rest[i - 1]);
            }
        }
        a
    } else {
        assert(s =~= Seq::<char>::empty() + s);
        Seq::empty()
    }
}

proof fn back_parts(s: Seq<char>) -> (b: Seq<char>)
    ensures
        s == trim_end(s) + b,
        is_blank(b),
        trim_end(s).len() > 0 ==> !is_white_space(trim_end(s).last()) && trim_end(s)[0] == s[0],
    decreases s.len(),
{
    if s.len() > 0 && is_white_space(s.last()) {
        let rest = back_parts(s.drop_last());
        let b = rest.push(s.last());
        assert(trim_end(s) + b =~= (trim_end(s.drop_last()) + rest).push(s.last()));
        assert(s =~= s.drop_last().push(s.last()));
        assert forall|i: int| 0 <= i < b.len() implies is_white_space(#[trigger] b[i]) by {
            if i < rest.len() {
                assert(b[i] == rest[i]);
            }
        }
        b
    } else {
        assert(s =~= s + Seq::<char>::empty());
        Seq::empty()
    }
}

/// Every text is white space, what trimming leaves, and white space.
pub proof fn law_trim_takes_white_space_only(s: Seq<char>) -> (ends: (Seq<char>, Seq<char>))
    ensures
        s == ends.0 + trimmed(s) + ends.1,
        is_blank(ends.0),
        is_blank(ends.1),
        has_bare_ends(trimmed(s)),
{
    let a = front_parts(s);
    let b = back_parts(trim_start(s));
    assert(s =~= a + trimmed(s) + b);
    (a, b)
}

/// Taking a run off the start leaves all that follows it.
pub proof fn law_run_is_taken_off(run: Seq<char>, rest: Seq<char>, c: char)
    requires
        is_run(run, c),
        rest.len() > 0 ==> rest[0] != c,
    ensures
        without_leading(run + rest, c) == rest,
    decreases run.len(),
{
    if run.len() > 0 {
        let s = run + rest;
        assert(s[0] == run[0]);
        assert(s.drop_first() =~= run.drop_first() + rest);
        assert forall|i: int| 0 <= i < run.drop_first().len() implies
            #[trigger] run.drop_first()[i] == c by {
            assert(run.drop_first()[i] == run[i + 1]);
        }
        law_run_is_taken_off(run.drop_first(), rest, c);
    } else {
        assert(run + rest =~= rest);
    }
}

/// Every text is a run of `c` and what is left when the run is taken off.
pub proof fn law_only_the_run_is_taken_off(s: Seq<char>, c: char) -> (run: Seq<char>)
    ensures
        s == run + without_leading(s, c),
        is_run(run, c),
        without_leading(s, c).len() > 0 ==> without_leading(s, c)[0] != c,
    decreases s.len(),
{
    if s.len() > 0 && s[0] == c {
        let rest = law_only_the_run_is_taken_off(s.drop_first(), c);
        let run = seq![c] + rest;
        assert(run + without_leading(s, c) =~= seq![c] + (rest + without_leading(
            s.drop_first(),
            c,
        )));
        assert(s =~= seq![c] + s.drop_first());
        assert forall|i: int| 0 <= i < run.len() implies #[trigger] run[i] == c by {
            if i > 0 {
                assert(run[i] == rest[i - 1]);
            }
        }
        run
    } else {
        assert(s =~= Seq::<char>::empty() + s);
        Seq::empty()
    }
}

/// A part of a text is found wherever it stands.
pub proof fn law_part_is_found(a: Seq<char>, part: Seq<char>, b: Seq<char>)
    ensures
        occurs_in(part, a + part + b),
{
    let s = a + part + b;
    let i = a.len() as int;
    assert(s.subrange(i, i + part.len()) =~= part);
    assert(stands_at(s, part, i));
}

/// What is found is a part of the text: something stands before it and something behind.
pub proof fn law_found_is_a_part(part: Seq<char>, s: Seq<char>) -> (around: (Seq<char>, Seq<char>))
    requires
        occurs_in(part, s),
    ensures
        s == around.0 + part + around.1,
{
    let i = choose|i: int| stands_at(s, part, i);
    let (a, b) = (s.take(i), s.skip(i + part.len()));
    assert(s =~= a + s.subrange(i, i + part.len()) + b);
    (a, b)
}

/// A text starts with a prefix where it is the prefix and something more, and only there.
pub proof fn law_prefix_is_the_start(s: Seq<char>, prefix: Seq<char>, rest: Seq<char>)
    ensures
        has_prefix(prefix + rest, prefix),
        has_prefix(s, prefix) ==> s == prefix + s.skip(prefix.len() as int),
{
    assert((prefix + rest).take(prefix.len() as int) =~= prefix);
    if has_prefix(s, prefix) {
        assert(s =~= s.take(prefix.len() as int) + s.skip(prefix.len() as int));
    }
}

/// The order of texts: behind what two texts have in common, the shorter one comes first, or
/// the one whose next character has the lower code point.
pub proof fn law_order_is_lexicographic(common: Seq<char>, a: Seq<char>, b: Seq<char>)
    requires
        a.len() > 0 && b.len() > 0 ==> a[0] != b[0],
    ensures
        precedes(common + a, common + b) <==> b.len() > 0 && (a.len() == 0 || (a[0] as int) < (
        b[0] as int)),
    decreases common.len(),
{
    if common.len() > 0 {
        assert((common + a).drop_first() =~= common.drop_first() + a);
        assert((common + b).drop_first() =~= common.drop_first() + b);
        assert((common + a)[0] == common[0] && (common + b)[0] == common[0]);
        law_order_is_lexicographic(common.drop_first(), a, b);
    } else {
        assert(common + a =~= a);
        assert(common + b =~= b);
    }
}

proof fn split_has_pieces(s: Seq<char>, sep: char)
    ensures
        split(s, sep).len() > 0,
    decreases s.len(),
{
    if s.len() > 0 {
        split_has_pieces(s.drop_last(), sep);
    }
}

/// Splitting two texts with the separator between them is splitting each by itself.
pub proof fn law_split_cuts_at_separators(a: Seq<char>, b: Seq<char>, sep: char)
    ensures
        split(a.push(sep) + b, sep) == split(a, sep) + split(b, sep),
    decreases b.len(),
{
    let s = a.push(sep) + b;
    let none = Seq::<char>::empty();
    if b.len() == 0 {
        assert(s =~= a.push(sep));
        assert(s.drop_last() =~= a);
        assert(split(b, sep) =~= seq![none]);
        assert(split(s, sep) =~= split(a, sep) + split(b, sep));
    } else {
        law_split_cuts_at_separators(a, b.drop_last(), sep);
        assert(s.drop_last() =~= a.push(sep) + b.drop_last());
        assert(s.last() == b.last());
        split_has_pieces(b.drop_last(), sep);
        let (x, y) = (split(a, sep), split(b.drop_last(), sep));
        assert((x + y).last() == y.last());
        assert((x + y).drop_last() =~= x + y.drop_last());
        assert(split(s, sep) =~= x + split(b, sep));
    }
}

/// A text without the separator is one piece, and no piece holds the separator.
pub proof fn law_pieces_are_whole(s: Seq<char>, sep: char)
    ensures
        is_without(s, sep) ==> split(s, sep) == seq![s],
        split(s, sep).len() > 0,
        forall|i: int|
            0 <= i < split(s, sep).len() ==> is_without(#[trigger] split(s, sep)[i], sep),
    decreases s.len(),
{
    if s.len() == 0 {
        assert(s =~= Seq::<char>::empty());
        assert(split(s, sep) =~= seq![s]);
    } else {
        let front = s.drop_last();
        let before = split(front, sep);
        law_pieces_are_whole(front, sep);
        if is_without(s, sep) {
            assert forall|i: int| 0 <= i < front.len() implies #[trigger] front[i] != sep by {
                assert(front[i] == s[i]);
            }
            assert(s[s.len() - 1] != sep);
            assert(front.push(s.last()) =~= s);
            assert(split(s, sep) =~= seq![s]);
        }
        assert forall|i: int| 0 <= i < split(s, sep).len() implies is_without(
            #[trigger] split(s, sep)[i],
            sep,
        ) by {
            let piece = split(s, sep)[i];
            if i < split(s, sep).len() - 1 {
                assert(piece == before[i]);
            } else if s.last() != sep {
                let old_last = before[before.len() - 1];
                assert(is_without(old_last, sep));
                assert forall|k: int| 0 <= k < piece.len() implies #[trigger] piece[k] != sep by {
                    if k < old_last.len() {
                        assert(piece[k] == old_last[k]);
                    }
                }
            }
        }
    }
}

/// Joining one list behind another puts the separator between the two; one text by itself is
/// left as it is, and nothing joined is nothing.
pub proof fn law_join_puts_the_separator_between(
    x: Seq<Seq<char>>,
    y: Seq<Seq<char>>,
    sep: Seq<char>,
    one: Seq<char>,
)
    ensures
        x.len() > 0 && y.len() > 0 ==> joined(x + y, sep) == joined(x, sep) + sep + joined(y, sep),
        joined(seq![one], sep) == one,
        joined(Seq::<Seq<char>>::empty(), sep) == Seq::<char>::empty(),
    decreases y.len(),
{
    if x.len() > 0 && y.len() > 0 {
        assert((x + y).drop_last() =~= x + y.drop_last());
        assert((x + y).last() == y.last());
        if y.len() > 1 {
            law_join_puts_the_separator_between(x, y.drop_last(), sep, one);
            assert(joined(x + y, sep) =~= joined(x, sep) + sep + joined(y, sep));
        } else {
            assert(x + y.drop_last() =~= x);
            assert(y.last() == y[0]);
        }
    }
}

/// The number that digits stand for.
pub open spec fn number_of(s: Seq<char>) -> int
    decreases s.len(),
{
    if s.len() == 0 {
        0
    } else {
        number_of(s.drop_last()) * 10 + (s.last() as int - 0x30)
    }
}

/// Every character is a decimal digit.
pub open spec fn is_digits(s: Seq<char>) -> bool {
    forall|i: int| 0 <= i < s.len() ==> 0x30 <= #[trigger] s[i] as int <= 0x39
}

/// A number in decimal notation reads back as that number, and has no zeros in front.
pub proof fn law_decimal_reads_back(n: nat)
    ensures
        number_of(decimal(n)) == n,
        is_digits(decimal(n)),
        decimal(n).len() > 0,
        n > 0 ==> decimal(n)[0] != '0',
    decreases n,
{
    let s = decimal(n);
    if n < 10 {
        assert(digit(n as int) as int == 0x30 + n);
        assert(s.drop_last() =~= Seq::<char>::empty());
        assert(number_of(s.drop_last()) == 0);
    } else {
        let d = digit((n % 10) as int);
        assert(d as int == 0x30 + n % 10);
        law_decimal_reads_back(n / 10);
        assert(s.drop_last() =~= decimal(n / 10));
        assert forall|i: int| 0 <= i < s.len() implies 0x30 <= #[trigger] s[i] as int
            <= 0x39 by {
            if i < decimal(n / 10).len() {
                assert(s[i] == decimal(n / 10)[i]);
            }
        }
        assert(s[0] == decimal(n / 10)[0]);
    }
}

} // verus!

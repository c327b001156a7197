//! Text that fits a line: a limited number of columns, and nothing in it that moves the cursor or
//! turns the direction of writing.
use unicode_width::UnicodeWidthChar;
use vstd::prelude::*;

use crate::text;
use crate::text::{is_control, text_of, trimmed};

verus! {

/// How many characters a line can have at most.
pub const MAX_CHARS: usize = 80;

/// The columns that a character takes, or nothing where it is a control character.
pub uninterp spec fn char_columns(c: char) -> Option<usize>;

/// `<char as UnicodeWidthChar>::width`: it depends on the character alone. Only a control character
/// has no width. No character is wider than three columns, and those of ASCII, and the middle dot,
/// take one.
#[verifier::external_body]
fn columns_of(c: char) -> (r: Option<usize>)
    ensures
        r == char_columns(c),
        r is None <==> text::control(c),
        r is Some ==> r->0 <= 3,
        narrow(c) ==> r == Some(1usize),
{
    c.width()
}

/// Whether `c` is one of the visible characters of ASCII, a blank or the middle dot.
pub open spec fn narrow(c: char) -> bool {
    (' ' <= c && c <= '~') || c == '·'
}

/// The columns that `c` takes on a line.
pub open spec fn columns(c: char) -> nat {
    match char_columns(c) {
        Some(n) => n as nat,
        None => 0,
    }
}

/// The columns that `s` takes on a line.
pub open spec fn width(s: Seq<char>) -> nat
    decreases s.len(),
{
    if s.len() == 0 {
        0
    } else {
        width(s.drop_last()) + columns(s.last())
    }
}

/// Whether `c` turns the direction of writing: an embedding, an override or an isolate.
pub open spec fn turns(c: char) -> bool {
    ('\u{202a}' <= c && c <= '\u{202e}') || ('\u{2066}' <= c && c <= '\u{2069}')
}

/// Whether `c` may stand on a line.
pub open spec fn shown(c: char) -> bool {
    !text::control(c) && !turns(c)
}

/// The characters of `s` that may stand on a line.
pub open spec fn visible(s: Seq<char>) -> Seq<char> {
    s.filter(|c: char| shown(c))
}

/// The first `n` items of `s`, or all of it.
pub open spec fn first(s: Seq<char>, n: nat) -> Seq<char> {
    if s.len() <= n {
        s
    } else {
        s.take(n as int)
    }
}

/// How many characters of `s`, from its start, fit into `limit` columns.
pub open spec fn fitting(s: Seq<char>, limit: nat) -> int
    decreases s.len(),
{
    if s.len() == 0 {
        0
    } else {
        let n = fitting(s.drop_last(), limit);
        if n == s.len() - 1 && width(s) <= limit {
            n + 1
        } else {
            n
        }
    }
}

/// The part of `input` that goes on a line of `limit` columns.
pub open spec fn line(input: Seq<char>, limit: nat) -> Seq<char> {
    let s = first(visible(input), MAX_CHARS as nat);
    s.take(fitting(s, limit))
}

/// `input` on a line of `limit` columns, without white space at either end.
pub open spec fn cleaned(input: Seq<char>, limit: nat) -> Seq<char> {
    text::trim(line(input, limit))
}

/// What [`fitting`] says: no further than the limit, and as far as that.
pub proof fn lemma_fitting(s: Seq<char>, limit: nat)
    ensures
        0 <= fitting(s, limit) <= s.len(),
        width(s.take(fitting(s, limit))) <= limit,
        fitting(s, limit) < s.len() ==> width(s.take(fitting(s, limit) + 1)) > limit,
    decreases s.len(),
{
    if s.len() > 0 {
        let t = s.drop_last();
        lemma_fitting(t, limit);
        let n = fitting(t, limit);
        assert(t.take(n) =~= s.take(n));
        if n < t.len() {
            assert(t.take(n + 1) =~= s.take(n + 1));
        } else {
            assert(s.take(n + 1) =~= s);
        }
        assert(s.take(s.len() as int) =~= s);
    } else {
        assert(s.take(0) =~= s);
    }
}

/// More text takes no fewer columns.
pub proof fn lemma_width_take(s: Seq<char>, n: int)
    requires
        0 <= n <= s.len(),
    ensures
        width(s.take(n)) <= width(s),
    decreases s.len() - n,
{
    if n < s.len() {
        lemma_width_take(s, n + 1);
        assert(s.take(n + 1).drop_last() =~= s.take(n));
    } else {
        assert(s.take(n) =~= s);
    }
}

/// A text whose next prefix is too wide fits no further.
pub proof fn lemma_fitting_is(s: Seq<char>, limit: nat, n: int)
    requires
        0 <= n <= s.len(),
        width(s.take(n)) <= limit,
        n < s.len() ==> width(s.take(n + 1)) > limit,
    ensures
        fitting(s, limit) == n,
{
    lemma_fitting(s, limit);
    let m = fitting(s, limit);
    if m < n {
        lemma_width_take(s.take(n), m + 1);
        assert(s.take(n).take(m + 1) =~= s.take(m + 1));
    } else if n < m {
        lemma_width_take(s.take(m), n + 1);
        assert(s.take(m).take(n + 1) =~= s.take(n + 1));
    }
}

/// The characters of `input` that may stand on a line, up to as many as a line can have.
fn visible_chars(input: &str) -> (r: Vec<char>)
    ensures
        r@ == first(visible(input@), MAX_CHARS as nat),
{
    let mut r: Vec<char> = Vec::new();
    let ghost mut seen: int = 0;
    assert(input@.take(0) =~= Seq::empty());
    assert(visible(input@.take(0)) =~= Seq::empty()) by {
        reveal(Seq::filter);
    }
    for c in it: input.chars()
        invariant
            it.seq() == input@,
            seen == it.index(),
            r@ == first(visible(input@.take(seen)), MAX_CHARS as nat),
    {
        proof {
            reveal(Seq::filter);
            assert(input@.take(seen + 1).drop_last() =~= input@.take(seen));
            assert(input@.take(seen + 1).last() == c);
            seen = seen + 1;
        }
        if r.len() < MAX_CHARS && !is_control(c) && !(('\u{202a}' <= c && c <= '\u{202e}') || (
        '\u{2066}' <= c && c <= '\u{2069}')) {
            r.push(c);
        }
    }
    assert(input@.take(seen) =~= input@);
    r
}

/// The sum of widths.
pub open spec fn total(widths: Seq<usize>) -> nat
    decreases widths.len(),
{
    if widths.len() == 0 {
        0
    } else {
        total(widths.drop_last()) + widths.last() as nat
    }
}

/// How many characters of the given widths, from the first on, fit into `columns` columns.
pub fn fit(widths: &Vec<usize>, columns: usize) -> (r: usize)
    ensures
        r <= widths@.len(),
        total(widths@.take(r as int)) <= columns,
        r < widths@.len() ==> total(widths@.take(r + 1)) > columns,
{
    let n: usize = widths.len();
    let mut used: usize = 0;
    assert(widths@.take(0) =~= Seq::empty());
    for i in 0..n
        invariant
            n == widths@.len(),
            used == total(widths@.take(i as int)),
            used <= columns,
    {
        proof {
            assert(widths@.take(i + 1).drop_last() =~= widths@.take(i as int));
            assert(widths@.take(i + 1).last() == widths@[i as int]);
        }
        if widths[i] > columns - used {
            return i;
        }
        used = used + widths[i];
    }
    n
}

/// The widths of characters add up to the width of a text of them.
proof fn lemma_total(widths: Seq<usize>, s: Seq<char>)
    requires
        widths.len() == s.len(),
        forall|i: int| 0 <= i < s.len() ==> #[trigger] widths[i] == columns(s[i]),
    ensures
        total(widths) == width(s),
    decreases s.len(),
{
    if s.len() > 0 {
        assert(widths[s.len() - 1] == columns(s[s.len() - 1]));
        assert forall|i: int| 0 <= i < s.drop_last().len() implies #[trigger] widths.drop_last()[i]
            == columns(s.drop_last()[i]) by {
            assert(widths.drop_last()[i] == widths[i]);
        }
        lemma_total(widths.drop_last(), s.drop_last());
    }
}

/// What [`clean`] gives, as characters.
pub(crate) fn clean_chars(input: &str, columns: usize) -> (r: Vec<char>)
    ensures
        r@ == cleaned(input@, columns as nat),
        plain_widths(input@),
{
    let s: Vec<char> = visible_chars(input);
    let n: usize = s.len();
    let mut widths: Vec<usize> = Vec::new();
    for i in 0..n
        invariant
            n == s@.len(),
            widths@.len() == i,
            forall|k: int| 0 <= k < i ==> #[trigger] widths@[k] == self::columns(s@[k]),
            forall|k: int| 0 <= k < i && narrow(#[trigger] s@[k]) ==> self::columns(s@[k]) == 1,
    {
        let w: usize = match columns_of(s[i]) {
            Some(w) => w,
            None => 0,
        };
        widths.push(w);
    }
    let taken: usize = fit(&widths, columns);
    let mut line: Vec<char> = Vec::new();
    assert(s@.take(0) =~= Seq::empty());
    for i in 0..taken
        invariant
            taken <= s@.len(),
            line@ == s@.take(i as int),
    {
        line.push(s[i]);
        assert(line@ =~= s@.take(i + 1));
    }
    proof {
        lemma_total(widths@.take(taken as int), s@.take(taken as int));
        if taken < n {
            lemma_total(widths@.take(taken + 1), s@.take(taken + 1));
        }
        lemma_fitting_is(s@, columns as nat, taken as int);
    }
    trimmed(&line)
}

/// Whether each narrow character among those of `input` that may go on a line takes one column.
pub open spec fn plain_widths(input: Seq<char>) -> bool {
    let s = first(visible(input), MAX_CHARS as nat);
    forall|i: int| 0 <= i < s.len() && narrow(#[trigger] s[i]) ==> columns(s[i]) == 1
}

/// Whether `s` is made of narrow characters.
pub open spec fn all_narrow(s: Seq<char>) -> bool {
    forall|i: int| 0 <= i < s.len() ==> narrow(#[trigger] s[i])
}

/// As many narrow characters at the start of `input` as the line has columns are on it.
pub proof fn lemma_narrow_stays(input: Seq<char>, limit: nat, k: int)
    requires
        plain_widths(input),
        ({
            let s = first(visible(input), MAX_CHARS as nat);
            0 <= k <= s.len() && k <= limit && all_narrow(s.take(k))
        }),
    ensures
        k <= fitting(first(visible(input), MAX_CHARS as nat), limit),
{
    let s = first(visible(input), MAX_CHARS as nat);
    lemma_fitting(s, limit);
    let n = fitting(s, limit);
    if n < k {
        lemma_narrow_width(s, n + 1, k);
    }
}

/// Narrow characters take as many columns as they are.
proof fn lemma_narrow_width(s: Seq<char>, n: int, k: int)
    requires
        0 <= n <= k <= s.len(),
        all_narrow(s.take(k)),
        forall|i: int| 0 <= i < n ==> (narrow(#[trigger] s[i]) ==> columns(s[i]) == 1),
    ensures
        width(s.take(n)) == n,
    decreases n,
{
    if n > 0 {
        lemma_narrow_width(s, n - 1, k);
        assert(s.take(n).drop_last() =~= s.take(n - 1));
        assert(s.take(k)[n - 1] == s[n - 1]);
    }
}

/// `input` as one line: without control characters and characters that turn the direction of
/// writing, of limited length, and no wider than `columns`.
pub fn clean(input: &str, columns: usize) -> (r: String)
    ensures
        r@ == cleaned(input@, columns as nat),
        plain_widths(input@),
{
    text_of(&clean_chars(input, columns))
}

/// The widths of two texts add up.
pub proof fn lemma_width_sum(a: Seq<char>, b: Seq<char>)
    ensures
        width(a + b) == width(a) + width(b),
    decreases b.len(),
{
    if b.len() == 0 {
        assert(a + b =~= a);
    } else {
        lemma_width_sum(a, b.drop_last());
        assert((a + b).drop_last() =~= a + b.drop_last());
    }
}

/// A text of which every character may stand on a line is left as it is.
proof fn lemma_all_visible(s: Seq<char>)
    requires
        forall|i: int| 0 <= i < s.len() ==> shown(#[trigger] s[i]),
    ensures
        visible(s) == s,
    decreases s.len(),
{
    reveal(Seq::filter);
    if s.len() > 0 {
        assert forall|i: int| 0 <= i < s.drop_last().len() implies shown(
            #[trigger] s.drop_last()[i],
        ) by {
            assert(s.drop_last()[i] == s[i]);
        }
        lemma_all_visible(s.drop_last());
        assert(s.drop_last().push(s.last()) =~= s);
    }
}

/// Only characters that may stand on a line are left.
proof fn lemma_visible(s: Seq<char>)
    ensures
        forall|i: int| 0 <= i < visible(s).len() ==> shown(#[trigger] visible(s)[i]),
    decreases s.len(),
{
    reveal(Seq::filter);
    if s.len() > 0 {
        lemma_visible(s.drop_last());
    }
}

/// A line has a limited number of characters, each of which may stand on it, takes no more than its
/// columns, and has no white space at either end.
pub proof fn law_line_fits(input: Seq<char>, limit: nat)
    ensures
        ({
            let r = cleaned(input, limit);
            &&& r.len() <= MAX_CHARS
            &&& width(r) <= limit
            &&& forall|i: int| 0 <= i < r.len() ==> shown(#[trigger] r[i])
            &&& r.len() > 0 ==> !text::white(r[0]) && !text::white(r.last())
        }),
{
    let s = first(visible(input), MAX_CHARS as nat);
    let l = line(input, limit);
    lemma_visible(input);
    lemma_fitting(s, limit);
    let (i, j) = text::lemma_trim(l);
    let r = cleaned(input, limit);
    assert(l =~= l.take(i) + r + l.skip(j));
    lemma_width_sum(l.take(i) + r, l.skip(j));
    lemma_width_sum(l.take(i), r);
    assert forall|k: int| 0 <= k < r.len() implies shown(#[trigger] r[k]) by {
        assert(r[k] == visible(input)[i + k]);
    }
}

/// A line that is cleaned again stays as it is.
pub proof fn law_clean_is_idempotent(input: Seq<char>, limit: nat)
    ensures
        cleaned(cleaned(input, limit), limit) == cleaned(input, limit),
{
    let r = cleaned(input, limit);
    law_line_fits(input, limit);
    lemma_all_visible(r);
    assert(r.take(r.len() as int) =~= r);
    lemma_fitting_is(r, limit, r.len() as int);
    text::lemma_trim_start(r, 0);
    assert(r.skip(0) =~= r);
    text::lemma_trim_end(r, r.len() as int);
}

/// Which line is made of a text: of its characters that neither control anything nor turn the direction
/// of writing, in their order, the longest start that has at most eighty of them and takes at most
/// `limit` columns, without the white space at its ends.
pub proof fn law_line_is_the_longest_start(input: Seq<char>, limit: nat) -> (n: int)
    ensures
        ({
            let v = input.filter(
                |c: char|
                    !(c as u32 <= 0x1f || 0x7f <= c as u32 <= 0x9f || '\u{202a}' <= c <= '\u{202e}'
                        || '\u{2066}' <= c <= '\u{2069}'),
            );
            &&& 0 <= n <= v.len()
            &&& n <= 80
            &&& width(v.take(n)) <= limit
            &&& n == v.len() || n == 80 || width(v.take(n + 1)) > limit
            &&& cleaned(input, limit) == text::trim(v.take(n))
        }),
{
    let wanted = |c: char|
        !(c as u32 <= 0x1f || 0x7f <= c as u32 <= 0x9f || '\u{202a}' <= c <= '\u{202e}'
            || '\u{2066}' <= c <= '\u{2069}');
    let v = input.filter(wanted);
    let f = |c: char| shown(c);
    assert forall|x: char| #[trigger] f(x) == wanted(x) by {
        assert(f(x) == shown(x));
    }
    lemma_same_filter(input, f, wanted);
    let s = first(visible(input), 80);
    lemma_fitting(s, limit);
    let n = fitting(s, limit);
    assert(s.take(n) =~= v.take(n));
    if n < s.len() {
        assert(s.take(n + 1) =~= v.take(n + 1));
    }
    n
}

/// Two tests that agree leave the same.
pub proof fn lemma_same_filter<T>(s: Seq<T>, f: spec_fn(T) -> bool, g: spec_fn(T) -> bool)
    requires
        forall|x: T| #[trigger] f(x) == g(x),
    ensures
        s.filter(f) == s.filter(g),
    decreases s.len(),
{
    reveal(Seq::filter);
    if s.len() > 0 {
        lemma_same_filter(s.drop_last(), f, g);
        assert(f(s.last()) == g(s.last()));
    }
}

/// A text that is a line already stays as it is: one of at most eighty characters that takes no more than
/// its columns, holds nothing that may not stand on a line, and has no white space at its ends.
pub proof fn law_fitting_line_stays(input: Seq<char>, limit: nat)
    requires
        input.len() <= 80,
        width(input) <= limit,
        forall|i: int|
            0 <= i < input.len() ==> !text::control(#[trigger] input[i]) && !(0x202a
                <= input[i] as u32 <= 0x202e) && !(0x2066 <= input[i] as u32 <= 0x2069),
        input.len() > 0 ==> !text::white(input[0]) && !text::white(input.last()),
    ensures
        cleaned(input, limit) == input,
{
    lemma_all_visible(input);
    assert(input.take(input.len() as int) =~= input);
    lemma_fitting_is(input, limit, input.len() as int);
    text::lemma_trim_start(input, 0);
    assert(input.skip(0) =~= input);
    text::lemma_trim_end(input, input.len() as int);
}

/// What may not stand on a line is passed over, wherever it stands.
pub proof fn law_controls_are_passed_over(before: Seq<char>, c: char, rest: Seq<char>, limit: nat)
    requires
        text::control(c) || 0x202a <= c as u32 <= 0x202e || 0x2066 <= c as u32 <= 0x2069,
    ensures
        cleaned(before + seq![c] + rest, limit) == cleaned(before + rest, limit),
{
    let wanted = |c: char| shown(c);
    Seq::filter_distributes_over_add(before + seq![c], rest, wanted);
    Seq::filter_distributes_over_add(before, seq![c], wanted);
    Seq::filter_distributes_over_add(before, rest, wanted);
    reveal_with_fuel(Seq::filter, 3);
    assert(seq![c].drop_last() =~= Seq::empty());
    assert(seq![c].filter(wanted) =~= Seq::empty());
    assert(before.filter(wanted) + seq![c].filter(wanted) =~= before.filter(wanted));
}

/// The columns of a text are those of its characters, each counted in full; one without a width counts
/// for nothing.
pub proof fn law_width_is_the_sum(a: Seq<char>, c: char, b: Seq<char>)
    ensures
        width(a + b) == width(a) + width(b),
        char_columns(c) is Some ==> width(seq![c]) == char_columns(c)->0,
        char_columns(c) is None ==> width(seq![c]) == 0,
        width(Seq::empty()) == 0,
    decreases b.len(),
{
    if b.len() == 0 {
        assert(a + b =~= a);
    } else {
        law_width_is_the_sum(a, c, b.drop_last());
        assert((a + b).drop_last() =~= a + b.drop_last());
    }
    assert(seq![c].drop_last() =~= Seq::empty());
    reveal_with_fuel(width, 2);
}

} // verus!

//! Text as sequences of characters.
use vstd::prelude::*;

verus! {

/// `String::push`: the text afterwards is the text before with the character at its end.
pub assume_specification[ String::push ](s: &mut String, c: char)
    ensures
        final(s)@ == old(s)@.push(c),
;

/// The characters of `s`, in order.
pub fn chars_of(s: &str) -> (r: Vec<char>)
    ensures
        r@ == s@,
{
    let mut r: Vec<char> = Vec::new();
    for c in it: s.chars()
        invariant
            r@ == s@.take(it.index() as int),
            it.seq() == s@,
    {
        r.push(c);
    }
    r
}

/// The text that holds the characters of `v`, in order.
pub fn text_of(v: &Vec<char>) -> (r: String)
    ensures
        r@ == v@,
{
    let mut r = String::new();
    let n: usize = v.len();
    for i in 0..n
        invariant
            n == v@.len(),
            r@ == v@.take(i as int),
    {
        r.push(v[i]);
    }
    assert(v@.take(n as int) == v@);
    r
}

/// Whether `a` and `b` hold the same characters.
pub fn same_text(a: &str, b: &str) -> (r: bool)
    ensures
        r == (a@ == b@),
{
    a.to_owned() == b.to_owned()
}

/// Whether two texts, each of which may be missing, are both missing or the same.
pub fn same_option(a: &Option<String>, b: &Option<String>) -> (r: bool)
    ensures
        r == (option_view(*a) == option_view(*b)),
{
    match (a, b) {
        (Some(x), Some(y)) => same_text(x.as_str(), y.as_str()),
        (None, None) => true,
        _ => false,
    }
}

/// The characters of a text that may be missing.
pub open spec fn option_view(s: Option<String>) -> Option<Seq<char>> {
    match s {
        Some(t) => Some(t@),
        None => None,
    }
}

/// The text that is named or else, where none is, the other one.
pub open spec fn named_or(named: Option<Seq<char>>, other: Option<Seq<char>>) -> Option<Seq<char>> {
    match named {
        Some(text) => Some(text),
        None => other,
    }
}

/// The characters of each of a list of texts.
pub open spec fn views(v: Seq<String>) -> Seq<Seq<char>> {
    v.map_values(|s: String| s@)
}

// ---------------------------------------------------------------------------
// Characters
// ---------------------------------------------------------------------------

/// Whether `c` is a control character: the C0 and C1 sets and the delete character.
pub open spec fn control(c: char) -> bool {
    c as u32 <= 0x1f || 0x7f <= c as u32 <= 0x9f
}

/// Decides [`control`].
pub fn is_control(c: char) -> (r: bool)
    ensures
        r == control(c),
{
    let n: u32 = c as u32;
    n <= 0x1f || (0x7f <= n && n <= 0x9f)
}

/// Whether `c` has the Unicode property `White_Space`.
pub open spec fn white(c: char) -> bool {
    let n = c as u32;
    ||| 0x9 <= n <= 0xd
    ||| n == 0x20
    ||| n == 0x85
    ||| n == 0xa0
    ||| n == 0x1680
    ||| 0x2000 <= n <= 0x200a
    ||| n == 0x2028
    ||| n == 0x2029
    ||| n == 0x202f
    ||| n == 0x205f
    ||| n == 0x3000
}

/// Decides [`white`].
pub fn is_white(c: char) -> (r: bool)
    ensures
        r == white(c),
{
    let n: u32 = c as u32;
    (0x9 <= n && n <= 0xd) || n == 0x20 || n == 0x85 || n == 0xa0 || n == 0x1680 || (0x2000 <= n
        && n <= 0x200a) || n == 0x2028 || n == 0x2029 || n == 0x202f || n == 0x205f || n == 0x3000
}

// ---------------------------------------------------------------------------
// Trimming and squashing
// ---------------------------------------------------------------------------

/// `s` without the white space at its start.
pub open spec fn trim_start(s: Seq<char>) -> Seq<char>
    decreases s.len(),
{
    if s.len() > 0 && white(s[0]) {
        trim_start(s.drop_first())
    } else {
        s
    }
}

/// `s` without the white space at its end.
pub open spec fn trim_end(s: Seq<char>) -> Seq<char>
    decreases s.len(),
{
    if s.len() > 0 && white(s.last()) {
        trim_end(s.drop_last())
    } else {
        s
    }
}

/// `s` without the white space at either end.
pub open spec fn trim(s: Seq<char>) -> Seq<char> {
    trim_end(trim_start(s))
}

/// [`trim_start`] drops some prefix that is all white.
pub proof fn lemma_trim_start(s: Seq<char>, k: int)
    requires
        0 <= k <= s.len(),
        forall|i: int| 0 <= i < k ==> white(s[i]),
        k < s.len() ==> !white(s[k]),
    ensures
        trim_start(s) == s.skip(k),
    decreases s.len(),
{
    if k == 0 {
        assert(s.skip(0) == s);
    } else {
        let t = s.drop_first();
        assert forall|i: int| 0 <= i < k - 1 implies white(t[i]) by {
            assert(t[i] == s[i + 1]);
        }
        lemma_trim_start(t, k - 1);
        assert(t.skip(k - 1) == s.skip(k));
    }
}

/// [`trim_end`] drops some suffix that is all white.
pub proof fn lemma_trim_end(s: Seq<char>, k: int)
    requires
        0 <= k <= s.len(),
        forall|i: int| k <= i < s.len() ==> white(s[i]),
        k > 0 ==> !white(s[k - 1]),
    ensures
        trim_end(s) == s.take(k),
    decreases s.len(),
{
    if k == s.len() {
        assert(s.take(k) == s);
    } else {
        let t = s.drop_last();
        lemma_trim_end(t, k);
        assert(t.take(k) == s.take(k));
    }
}

/// What trimming leaves is a part of the text that neither starts nor ends with white space; what it
/// takes off is white.
pub proof fn lemma_trim(s: Seq<char>) -> (r: (int, int))
    ensures
        0 <= r.0 <= r.1 <= s.len(),
        trim(s) == s.subrange(r.0, r.1),
        forall|i: int| 0 <= i < r.0 ==> white(s[i]),
        forall|i: int| r.1 <= i < s.len() ==> white(s[i]),
        r.0 < r.1 ==> !white(s[r.0]) && !white(s[r.1 - 1]),
{
    let i = white_prefix(s);
    lemma_trim_start(s, i);
    let t = s.skip(i);
    let k = white_suffix(t);
    lemma_trim_end(t, k);
    assert(t.take(k) =~= s.subrange(i, i + k));
    if k == 0 {
        assert forall|j: int| i <= j < s.len() implies white(s[j]) by {
            assert(white(t[j - i]));
        }
    }
    assert forall|j: int| i + k <= j < s.len() implies white(s[j]) by {
        assert(white(t[j - i]));
    }
    if k > 0 {
        assert(!white(t[k - 1]));
    }
    (i, i + k)
}

/// How many characters at the start are white.
proof fn white_prefix(s: Seq<char>) -> (k: int)
    ensures
        0 <= k <= s.len(),
        forall|i: int| 0 <= i < k ==> white(s[i]),
        k < s.len() ==> !white(s[k]),
    decreases s.len(),
{
    if s.len() == 0 || !white(s[0]) {
        0
    } else {
        let t = s.drop_first();
        let k = white_prefix(t);
        assert forall|i: int| 0 <= i < k + 1 implies white(s[i]) by {
            if i > 0 {
                assert(t[i - 1] == s[i]);
            }
        }
        k + 1
    }
}

/// Where the white characters at the end start.
proof fn white_suffix(s: Seq<char>) -> (k: int)
    ensures
        0 <= k <= s.len(),
        forall|i: int| k <= i < s.len() ==> white(s[i]),
        k > 0 ==> !white(s[k - 1]),
    decreases s.len(),
{
    if s.len() == 0 || !white(s.last()) {
        s.len() as int
    } else {
        let t = s.drop_last();
        let k = white_suffix(t);
        assert forall|i: int| k <= i < s.len() implies white(s[i]) by {
            if i < t.len() {
                assert(t[i] == s[i]);
            }
        }
        k
    }
}

/// `v` without the white space at either end.
pub fn trimmed(v: &Vec<char>) -> (r: Vec<char>)
    ensures
        r@ == trim(v@),
{
    let n: usize = v.len();
    let mut i: usize = 0;
    while i < n && is_white(v[i])
        invariant
            i <= n == v@.len(),
            forall|j: int| 0 <= j < i ==> white(v@[j]),
        decreases n - i,
    {
        i = i + 1;
    }
    proof {
        lemma_trim_start(v@, i as int);
    }
    let ghost t = v@.skip(i as int);
    let mut k: usize = n;
    while k > i && is_white(v[k - 1])
        invariant
            i <= k <= n == v@.len(),
            forall|j: int| k <= j < n ==> white(v@[j]),
        decreases k,
    {
        k = k - 1;
    }
    proof {
        assert forall|j: int| k - i <= j < t.len() implies white(t[j]) by {
            assert(t[j] == v@[i + j]);
        }
        if k > i {
            assert(t[k - i - 1] == v@[k - 1]);
        }
        lemma_trim_end(t, k - i);
    }
    let mut r: Vec<char> = Vec::new();
    let mut j: usize = i;
    while j < k
        invariant
            i <= j <= k <= v@.len(),
            r@ == v@.subrange(i as int, j as int),
        decreases k - j,
    {
        r.push(v[j]);
        j = j + 1;
    }
    assert(t.take(k - i) == v@.subrange(i as int, k as int));
    r
}

/// `s` without any of its white space.
pub open spec fn squash(s: Seq<char>) -> Seq<char> {
    s.filter(|c: char| !white(c))
}

/// The text `s` without any of its white space.
pub fn squashed(s: &str) -> (r: String)
    ensures
        r@ == squash(s@),
{
    let v = chars_of(s);
    let n: usize = v.len();
    let mut r = String::new();
    let ghost keep = |c: char| !white(c);
    assert(v@.take(0).filter(keep) == Seq::<char>::empty()) by {
        reveal(Seq::filter);
    }
    for i in 0..n
        invariant
            n == v@.len(),
            keep == (|c: char| !white(c)),
            r@ == v@.take(i as int).filter(keep),
    {
        let ghost before = v@.take(i as int);
        assert(v@.take(i + 1) == before.push(v@[i as int]));
        assert(before.push(v@[i as int]).drop_last() == before);
        proof {
            reveal(Seq::filter);
        }
        if !is_white(v[i]) {
            r.push(v[i]);
        }
    }
    assert(v@.take(n as int) == v@);
    r
}

// ---------------------------------------------------------------------------
// Searching
// ---------------------------------------------------------------------------

/// Whether `part` stands in `s` at position `i`.
pub open spec fn occurs_at(s: Seq<char>, part: Seq<char>, i: int) -> bool {
    0 <= i && i + part.len() <= s.len() && s.subrange(i, i + part.len()) == part
}

/// Whether `part` stands somewhere in `s`.
pub open spec fn occurs(s: Seq<char>, part: Seq<char>) -> bool {
    exists|i: int| occurs_at(s, part, i)
}

/// Whether `part` stands somewhere in `s`.
pub fn contains(s: &str, part: &str) -> (r: bool)
    ensures
        r == occurs(s@, part@),
{
    let v = chars_of(s);
    let p = chars_of(part);
    let n: usize = v.len();
    let m: usize = p.len();
    if m > n {
        return false;
    }
    let mut i: usize = 0;
    while i <= n - m
        invariant
            n == v@.len(),
            m == p@.len(),
            m <= n,
            i <= n - m + 1,
            v@ == s@,
            p@ == part@,
            forall|j: int| 0 <= j < i ==> !occurs_at(s@, part@, j),
        decreases n - m + 1 - i,
    {
        let mut k: usize = 0;
        while k < m && v[i + k] == p[k]
            invariant
                n == v@.len(),
                m == p@.len(),
                i <= n - m,
                k <= m,
                m <= n,
                forall|j: int| 0 <= j < k ==> v@[i + j] == p@[j],
            decreases m - k,
        {
            k = k + 1;
        }
        if k == m {
            assert(s@.subrange(i as int, i + part@.len()) == part@);
            assert(occurs_at(s@, part@, i as int));
            return true;
        }
        assert(!occurs_at(s@, part@, i as int)) by {
            if occurs_at(s@, part@, i as int) {
                assert(s@.subrange(i as int, i + part@.len())[k as int] == part@[k as int]);
            }
        }
        if i == usize::MAX {
            return false;
        }
        i = i + 1;
    }
    assert forall|j: int| !occurs_at(s@, part@, j) by {}
    false
}

// ---------------------------------------------------------------------------
// Joining
// ---------------------------------------------------------------------------

/// `parts` one after the other, with `between` between each two.
pub open spec fn join(parts: Seq<Seq<char>>, between: Seq<char>) -> Seq<char>
    decreases parts.len(),
{
    if parts.len() == 0 {
        Seq::empty()
    } else if parts.len() == 1 {
        parts[0]
    } else {
        join(parts.drop_last(), between) + between + parts.last()
    }
}

/// `parts` one after the other, with `between` between each two.
pub fn joined(parts: &Vec<String>, between: &str) -> (r: String)
    ensures
        r@ == join(views(parts@), between@),
{
    let mut r = String::new();
    let n: usize = parts.len();
    proof {
        reveal_strlit("");
        assert(r@ =~= Seq::<char>::empty());
        assert(views(parts@).take(0) =~= Seq::empty());
    }
    for i in 0..n
        invariant
            n == parts@.len(),
            r@ == join(views(parts@).take(i as int), between@),
    {
        if i > 0 {
            r.append(between);
        }
        r.append(parts[i].as_str());
        proof {
            let now = views(parts@).take(i + 1);
            assert(now.drop_last() =~= views(parts@).take(i as int));
            assert(now.last() == parts@[i as int]@);
            if i == 0 {
                assert(r@ =~= now[0]);
            }
        }
    }
    assert(views(parts@).take(n as int) =~= views(parts@));
    r
}

// ---------------------------------------------------------------------------
// Lines and words
// ---------------------------------------------------------------------------

/// The parts of `s`: what stands between the characters `mark` in it.
pub open spec fn split(s: Seq<char>, mark: char) -> Seq<Seq<char>>
    decreases s.len(),
{
    if s.len() == 0 {
        seq![Seq::empty()]
    } else {
        let before = split(s.drop_last(), mark);
        if s.last() == mark {
            before.push(Seq::empty())
        } else {
            before.drop_last().push(before.last().push(s.last()))
        }
    }
}

/// The lines of `s`: what stands between its line feeds.
pub open spec fn lines(s: Seq<char>) -> Seq<Seq<char>> {
    split(s, '\n')
}

/// The words of `s`: what stands between its white space.
pub open spec fn words(s: Seq<char>) -> Seq<Seq<char>>
    decreases s.len(),
{
    if s.len() == 0 {
        Seq::empty()
    } else {
        let before = words(s.drop_last());
        if white(s.last()) {
            before
        } else if s.len() == 1 || white(s[s.len() - 2]) {
            before.push(seq![s.last()])
        } else {
            before.drop_last().push(before.last().push(s.last()))
        }
    }
}

/// The characters of each of a list of texts.
pub open spec fn char_views(v: Seq<Vec<char>>) -> Seq<Seq<char>> {
    v.map_values(|s: Vec<char>| s@)
}

/// The parts of `s` between the characters `mark` in it.
pub fn split_at_each(s: &Vec<char>, mark: char) -> (r: Vec<Vec<char>>)
    ensures
        char_views(r@) == split(s@, mark),
{
    let mut done: Vec<Vec<char>> = Vec::new();
    let mut now: Vec<char> = Vec::new();
    let n: usize = s.len();
    assert(s@.take(0) =~= Seq::empty());
    assert(char_views(done@).push(now@) =~= split(s@.take(0), mark));
    for i in 0..n
        invariant
            n == s@.len(),
            char_views(done@).push(now@) == split(s@.take(i as int), mark),
    {
        let c: char = s[i];
        let ghost before = char_views(done@);
        let ghost line = now@;
        proof {
            assert(s@.take(i + 1).drop_last() =~= s@.take(i as int));
            assert(s@.take(i + 1).last() == c);
            assert(before.push(line).drop_last() =~= before);
        }
        if c == mark {
            done.push(now);
            now = Vec::new();
            assert(char_views(done@) =~= before.push(line));
        } else {
            now.push(c);
        }
    }
    assert(s@.take(n as int) =~= s@);
    let ghost before = char_views(done@);
    let ghost line = now@;
    done.push(now);
    assert(char_views(done@) =~= before.push(line));
    done
}

/// The words of `s`.
pub fn split_words(s: &Vec<char>) -> (r: Vec<Vec<char>>)
    ensures
        char_views(r@) == words(s@),
{
    let mut done: Vec<Vec<char>> = Vec::new();
    let mut now: Vec<char> = Vec::new();
    let n: usize = s.len();
    assert(s@.take(0) =~= Seq::empty());
    assert(char_views(done@) =~= words(s@.take(0)));
    for i in 0..n
        invariant
            n == s@.len(),
            now@.len() > 0 <==> i > 0 && !white(s@[i - 1]),
            (if now@.len() > 0 {
                char_views(done@).push(now@)
            } else {
                char_views(done@)
            }) == words(s@.take(i as int)),
    {
        let c: char = s[i];
        let ghost before = char_views(done@);
        let ghost word = now@;
        proof {
            let t = s@.take(i + 1);
            assert(t.drop_last() =~= s@.take(i as int));
            assert(t.last() == c);
            if i > 0 {
                assert(t[t.len() - 2] == s@[i - 1]);
            }
            assert(before.push(word).drop_last() =~= before);
        }
        if is_white(c) {
            if now.len() > 0 {
                done.push(now);
                now = Vec::new();
                assert(char_views(done@) =~= before.push(word));
            }
        } else {
            now.push(c);
            assert(now@ =~= word.push(c));
            assert(word.len() == 0 ==> now@ =~= seq![c]);
        }
    }
    assert(s@.take(n as int) =~= s@);
    if now.len() > 0 {
        let ghost before = char_views(done@);
        let ghost word = now@;
        done.push(now);
        assert(char_views(done@) =~= before.push(word));
    }
    done
}

// ---------------------------------------------------------------------------
// What holds of parts and words
// ---------------------------------------------------------------------------

/// A text has at least one part.
proof fn lemma_split_some(s: Seq<char>, mark: char)
    ensures
        split(s, mark).len() > 0,
    decreases s.len(),
{
    if s.len() > 0 {
        lemma_split_some(s.drop_last(), mark);
    }
}

/// A mark parts what stands before it from what stands behind it, and nothing else does: the parts of a
/// text with a mark in it are those before the mark and those behind it, and a text without one is its
/// own only part.
pub proof fn law_marks_part(a: Seq<char>, b: Seq<char>, mark: char)
    ensures
        split(a + seq![mark] + b, mark) == split(a, mark) + split(b, mark),
        !a.contains(mark) ==> split(a, mark) == seq![a],
    decreases a.len() + b.len(),
{
    let s = a + seq![mark] + b;
    lemma_split_some(a, mark);
    lemma_split_some(b, mark);
    if b.len() == 0 {
        assert(s.drop_last() =~= a);
        assert(split(b, mark) =~= seq![Seq::empty()]);
        assert(split(s, mark) =~= split(a, mark) + split(b, mark));
    } else {
        let c = b.drop_last();
        law_marks_part(a, c, mark);
        lemma_split_some(c, mark);
        assert(s.drop_last() =~= a + seq![mark] + c);
        assert(s.last() == b.last());
        assert(split(s, mark) =~= split(a, mark) + split(b, mark));
    }
    if !a.contains(mark) && a.len() > 0 {
        let c = a.drop_last();
        assert(!c.contains(mark)) by {
            if c.contains(mark) {
                let i = choose|i: int| 0 <= i < c.len() && c[i] == mark;
                assert(a[i] == mark);
            }
        }
        assert(a[a.len() - 1] != mark);
        law_marks_part(c, Seq::empty(), mark);
        assert(c.push(a.last()) =~= a);
        assert(split(a, mark) =~= seq![a]);
    } else if a.len() == 0 {
        assert(a =~= Seq::empty());
    }
}

/// White space parts words, and nothing else does: the words of a text with white space in it are those
/// before it and those behind it, and a text without any is its own only word, unless it is empty.
pub proof fn law_white_space_parts_words(a: Seq<char>, c: char, b: Seq<char>)
    requires
        white(c),
    ensures
        words(a + seq![c] + b) == words(a) + words(b),
        a.len() > 0 && (forall|i: int| 0 <= i < a.len() ==> !white(#[trigger] a[i])) ==> words(a)
            == seq![a],
        words(Seq::empty()).len() == 0,
    decreases a.len() + b.len(),
{
    let s = a + seq![c] + b;
    if b.len() == 0 {
        assert(s.drop_last() =~= a);
        assert(words(s) =~= words(a) + words(b));
    } else {
        let d = b.drop_last();
        law_white_space_parts_words(a, c, d);
        lemma_words_some(d);
        assert(s.drop_last() =~= a + seq![c] + d);
        assert(s.last() == b.last());
        assert(words(s) =~= words(a) + words(b));
    }
    if a.len() > 0 && (forall|i: int| 0 <= i < a.len() ==> !white(#[trigger] a[i])) {
        let d = a.drop_last();
        assert(!white(a[a.len() - 1]));
        if d.len() > 0 {
            assert(!white(a[a.len() - 2]));
            assert forall|i: int| 0 <= i < d.len() implies !white(#[trigger] d[i]) by {
                assert(d[i] == a[i]);
            }
            law_white_space_parts_words(d, c, Seq::empty());
            assert(d.push(a.last()) =~= a);
            assert(words(d) == seq![d]);
            assert(a.len() > 1 && !white(a[a.len() - 2]));
            assert(words(a) == words(d).drop_last().push(words(d).last().push(a.last())));
        } else {
            assert(a =~= seq![a.last()]);
            assert(words(d).len() == 0);
            assert(words(a) == words(d).push(seq![a.last()]));
        }
        assert(words(a) =~= seq![a]);
    }
}

/// A text that does not end in white space has a word.
proof fn lemma_words_some(s: Seq<char>)
    ensures
        s.len() > 0 && !white(s.last()) ==> words(s).len() > 0,
    decreases s.len(),
{
    if s.len() > 0 {
        lemma_words_some(s.drop_last());
    }
}

/// Which characters are white space: the tab and the four line breaks behind it, the space, the next line,
/// the no-break space, the Ogham space, the spaces from the en quad to the hair space, the line and the
/// paragraph separator, the narrow no-break space, the medium mathematical space and the ideographic one.
pub proof fn law_which_characters_are_white(c: char)
    ensures
        white(c) <==> {
            ||| c == '\t' || c == '\n' || c == '\u{b}' || c == '\u{c}' || c == '\r' || c == ' '
            ||| c == '\u{85}' || c == '\u{a0}' || c == '\u{1680}'
            ||| '\u{2000}' <= c <= '\u{200a}'
            ||| c == '\u{2028}' || c == '\u{2029}' || c == '\u{202f}' || c == '\u{205f}' || c
                == '\u{3000}'
        },
{
}

/// A part stands in a text exactly where the text is something before it, the part, and something behind
/// it.
pub proof fn law_what_occurs_stands_between(s: Seq<char>, part: Seq<char>)
    ensures
        occurs(s, part) <==> exists|before: Seq<char>, behind: Seq<char>|
            s == #[trigger] (before + part + behind),
{
    if occurs(s, part) {
        let i = choose|i: int| occurs_at(s, part, i);
        let before = s.take(i);
        let behind = s.skip(i + part.len());
        assert(s =~= before + part + behind) by {
            assert(s.subrange(i, i + part.len()) =~= part);
            assert forall|k: int| 0 <= k < s.len() implies s[k] == (before + part + behind)[k] by {
                if i <= k < i + part.len() {
                    assert(s.subrange(i, i + part.len())[k - i] == s[k]);
                }
            }
        }
    }
    if exists|before: Seq<char>, behind: Seq<char>| s == #[trigger] (before + part + behind) {
        let (before, behind) = choose|before: Seq<char>, behind: Seq<char>|
            s == #[trigger] (before + part + behind);
        let i = before.len() as int;
        assert(s.subrange(i, i + part.len()) =~= part);
        assert(occurs_at(s, part, i));
    }
}

/// What is named counts, whatever the other is; without it the other does, and there is none only where
/// neither is there.
pub proof fn law_what_is_named_counts(named: Seq<char>, other: Option<Seq<char>>)
    ensures
        named_or(Some(named), other) == Some(named),
        named_or(None, other) == other,
{
}

} // verus!

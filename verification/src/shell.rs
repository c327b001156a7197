//! Words of a shell command.
use vstd::prelude::*;

verus! {

/// `s` between single quotes, each single quote in it written outside of them, behind a backslash.
pub open spec fn quoted(s: Seq<char>) -> Seq<char> {
    seq!['\''] + quoted_inner(s) + seq!['\'']
}

/// What stands between the outer quotes.
pub open spec fn quoted_inner(s: Seq<char>) -> Seq<char>
    decreases s.len(),
{
    if s.len() == 0 {
        Seq::empty()
    } else {
        quoted_inner(s.drop_last()) + (if s.last() == '\'' {
            seq!['\'', '\\', '\'', '\'']
        } else {
            seq![s.last()]
        })
    }
}

/// `s` as one word of a shell command.
pub fn quote(s: &str) -> (r: String)
    ensures
        r@ == quoted(s@),
{
    let mut r = String::new();
    r.push('\'');
    let ghost mut seen: int = 0;
    proof {
        reveal_strlit("");
        assert(s@.take(0) =~= Seq::empty());
        assert(r@ =~= seq!['\''] + quoted_inner(s@.take(0)));
    }
    for c in it: s.chars()
        invariant
            it.seq() == s@,
            seen == it.index(),
            r@ == seq!['\''] + quoted_inner(s@.take(seen)),
    {
        let ghost before = r@;
        proof {
            assert(s@.take(seen + 1).drop_last() =~= s@.take(seen));
            assert(s@.take(seen + 1).last() == c);
            seen = seen + 1;
        }
        if c == '\'' {
            r.push('\'');
            r.push('\\');
            r.push('\'');
            r.push('\'');
            assert(r@ =~= before + seq!['\'', '\\', '\'', '\'']);
        } else {
            r.push(c);
            assert(r@ =~= before + seq![c]);
        }
        assert(r@ =~= seq!['\''] + quoted_inner(s@.take(seen)));
    }
    assert(s@.take(seen) =~= s@);
    r.push('\'');
    assert(r@ =~= quoted(s@));
    r
}

/// Where a shell is in a word: outside of quotes, behind a backslash there, or inside of single
/// quotes.
pub ghost enum Reading {
    Outside,
    Escaped,
    Inside,
}

/// What a shell has read of a word, and where it is in it. Outside of quotes only quotes and
/// backslashes are read; anything else would end the word or mean something of its own.
pub open spec fn read_word(s: Seq<char>) -> Option<(Seq<char>, Reading)>
    decreases s.len(),
{
    if s.len() == 0 {
        Some((Seq::empty(), Reading::Outside))
    } else {
        match read_word(s.drop_last()) {
            None => None,
            Some((word, at)) => match at {
                Reading::Inside => if s.last() == '\'' {
                    Some((word, Reading::Outside))
                } else {
                    Some((word.push(s.last()), Reading::Inside))
                },
                Reading::Escaped => Some((word.push(s.last()), Reading::Outside)),
                Reading::Outside => if s.last() == '\'' {
                    Some((word, Reading::Inside))
                } else if s.last() == '\\' {
                    Some((word, Reading::Escaped))
                } else {
                    None
                },
            },
        }
    }
}

/// A shell that has read up to some point inside of quotes reads on to the same.
proof fn lemma_read_inner(s: Seq<char>)
    ensures
        read_word(seq!['\''] + quoted_inner(s)) == Some((s, Reading::Inside)),
    decreases s.len(),
{
    if s.len() == 0 {
        let start = seq!['\''] + quoted_inner(s);
        assert(start =~= seq!['\'']);
        assert(start.drop_last() =~= Seq::empty());
        assert(read_word(start.drop_last()) == Some((Seq::<char>::empty(), Reading::Outside)));
        assert(s =~= Seq::empty());
    } else {
        lemma_read_inner(s.drop_last());
        let before = seq!['\''] + quoted_inner(s.drop_last());
        let after = seq!['\''] + quoted_inner(s);
        assert(s.drop_last().push(s.last()) =~= s);
        if s.last() == '\'' {
            assert(after =~= before.push('\'').push('\\').push('\'').push('\''));
            assert(before.push('\'').drop_last() =~= before);
            assert(read_word(before.push('\'')) == Some((s.drop_last(), Reading::Outside)));
            assert(before.push('\'').push('\\').drop_last() =~= before.push('\''));
            assert(read_word(before.push('\'').push('\\')) == Some(
                (s.drop_last(), Reading::Escaped),
            ));
            assert(before.push('\'').push('\\').push('\'').drop_last() =~= before.push('\'').push(
                '\\',
            ));
            assert(read_word(before.push('\'').push('\\').push('\'')) == Some(
                (s, Reading::Outside),
            ));
            assert(after.drop_last() =~= before.push('\'').push('\\').push('\''));
        } else {
            assert(after =~= before.push(s.last()));
            assert(after.drop_last() =~= before);
        }
    }
}

/// A shell reads a quoted text as one word, which is that text.
pub proof fn law_quoted_text_is_one_word(s: Seq<char>)
    ensures
        read_word(quoted(s)) == Some((s, Reading::Outside)),
{
    lemma_read_inner(s);
    let before = seq!['\''] + quoted_inner(s);
    assert(quoted(s) =~= before.push('\''));
    assert(quoted(s).drop_last() =~= before);
}

} // verus!

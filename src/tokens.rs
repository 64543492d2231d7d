use vstd::prelude::*;

verus! {

/// The pieces of `s` between occurrences of `sep`, in order; `k` separators give
/// `k + 1` pieces, empty ones included.
pub open spec fn split_on(s: Seq<char>, sep: char) -> Seq<Seq<char>>
    decreases s.len(),
{
    if s.len() == 0 {
        seq![Seq::<char>::empty()]
    } else {
        let pieces = split_on(s.drop_last(), sep);
        if s.last() == sep {
            pieces.push(Seq::<char>::empty())
        } else {
            pieces.update(pieces.len() - 1, pieces.last().push(s.last()))
        }
    }
}

/// A line ended by `'\n'`, with one carriage return before that end removed,
/// as a line reader does.
pub open spec fn strip_cr(line: Seq<char>) -> Seq<char> {
    if line.len() > 0 && line.last() == '\r' {
        line.drop_last()
    } else {
        line
    }
}

/// The words of one line: none if it is empty, else its pieces between single spaces.
pub open spec fn line_words(line: Seq<char>) -> Seq<Seq<char>> {
    if line.len() == 0 {
        Seq::empty()
    } else {
        split_on(line, ' ')
    }
}

/// The words of lines that were each ended by `'\n'`, concatenated in order.
pub open spec fn words_of_lines(lines: Seq<Seq<char>>) -> Seq<Seq<char>>
    decreases lines.len(),
{
    if lines.len() == 0 {
        Seq::empty()
    } else {
        words_of_lines(lines.drop_last()) + line_words(strip_cr(lines.last()))
    }
}

/// The words of a text: the lines that `'\n'` ends, then the text after the
/// last `'\n'`, which keeps any carriage return at its end.
pub open spec fn words_of(text: Seq<char>) -> Seq<Seq<char>> {
    let lines = split_on(text, '\n');
    words_of_lines(lines.drop_last()) + line_words(lines.last())
}

/// The character sequences held by a sequence of character vectors.
pub open spec fn views(v: Seq<Vec<char>>) -> Seq<Seq<char>> {
    v.map_values(|p: Vec<char>| p@)
}

proof fn lemma_views_push(v: Seq<Vec<char>>, x: Vec<char>)
    ensures
        views(v.push(x)) == views(v).push(x@),
{
    assert(views(v.push(x)) =~= views(v).push(x@));
}

proof fn lemma_split_len(s: Seq<char>, sep: char)
    ensures
        split_on(s, sep).len() >= 1,
    decreases s.len(),
{
    if s.len() > 0 {
        lemma_split_len(s.drop_last(), sep);
    }
}

/// Splits `s` on every occurrence of `sep`.
pub fn split_chars(s: &[char], sep: char) -> (r: Vec<Vec<char>>)
    ensures
        views(r@) == split_on(s@, sep),
{
    let mut pieces: Vec<Vec<char>> = Vec::new();
    let mut cur: Vec<char> = Vec::new();
    let mut i: usize = 0;
    proof {
        assert(s@.subrange(0, 0) =~= Seq::<char>::empty());
    }
    while i < s.len()
        invariant
            i <= s@.len(),
            split_on(s@.subrange(0, i as int), sep) == views(pieces@).push(cur@),
        decreases s.len() - i,
    {
        let c = s[i];
        proof {
            let t = s@.subrange(0, i as int + 1);
            assert(t.drop_last() =~= s@.subrange(0, i as int));
            assert(t.last() == c);
        }
        if c == sep {
            proof {
                lemma_views_push(pieces@, cur);
            }
            pieces.push(cur);
            cur = Vec::new();
            assert(cur@ =~= Seq::<char>::empty());
        } else {
            let ghost before = views(pieces@).push(cur@);
            cur.push(c);
            assert(before.update(before.len() - 1, before.last().push(c)) =~= views(pieces@).push(cur@));
        }
        i = i + 1;
    }
    assert(s@.subrange(0, s@.len() as int) =~= s@);
    proof {
        lemma_views_push(pieces@, cur);
    }
    pieces.push(cur);
    pieces
}

proof fn lemma_views_append(a: Seq<Vec<char>>, b: Seq<Vec<char>>)
    ensures
        views(a + b) == views(a) + views(b),
{
    assert(views(a + b) =~= views(a) + views(b));
}

/// The words of a text: each non-empty line (split on `'\n'`, one trailing
/// `'\r'` removed) split on single spaces, in order of appearance.
pub fn split_words(text: &[char]) -> (r: Vec<Vec<char>>)
    ensures
        views(r@) == words_of(text@),
{
    let lines = split_chars(text, '\n');
    proof {
        lemma_split_len(text@, '\n');
    }
    let last = lines.len() - 1;
    let mut words: Vec<Vec<char>> = Vec::new();
    let mut j: usize = 0;
    proof {
        assert(views(lines@).subrange(0, 0) =~= Seq::<Seq<char>>::empty());
    }
    while j < last
        invariant
            j <= last,
            last + 1 == lines@.len(),
            views(lines@) == split_on(text@, '\n'),
            views(words@) == words_of_lines(views(lines@).subrange(0, j as int)),
        decreases last - j,
    {
        let line = &lines[j];
        let n = line.len();
        let end = if n > 0 && line[n - 1] == '\r' {
            n - 1
        } else {
            n
        };
        let body = vstd::slice::slice_subrange(line.as_slice(), 0, end);
        proof {
            let ls = views(lines@).subrange(0, j as int + 1);
            assert(ls.drop_last() =~= views(lines@).subrange(0, j as int));
            assert(ls.last() == line@);
            assert(body@ =~= strip_cr(line@));
        }
        if end > 0 {
            let mut pieces = split_chars(body, ' ');
            proof {
                lemma_views_append(words@, pieces@);
            }
            words.append(&mut pieces);
        } else {
            assert(words@ + Seq::<Vec<char>>::empty() =~= words@);
            assert(views(words@) + Seq::<Seq<char>>::empty() =~= views(words@));
        }
        j = j + 1;
    }
    let tail = &lines[last];
    proof {
        assert(views(lines@).subrange(0, last as int) =~= views(lines@).drop_last());
        assert(views(lines@).last() == tail@);
    }
    if tail.len() > 0 {
        let mut pieces = split_chars(tail.as_slice(), ' ');
        proof {
            lemma_views_append(words@, pieces@);
        }
        words.append(&mut pieces);
    } else {
        assert(views(words@) + Seq::<Seq<char>>::empty() =~= views(words@));
    }
    words
}

} // verus!

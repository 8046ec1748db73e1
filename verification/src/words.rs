use crate::mapping::StrMap;
use vstd::prelude::*;
use vstd::string::StrSliceExecFns;

verus! {

/// The delimiter characters: blank, tab, and the two line-break characters.
pub open spec fn is_space(c: char) -> bool {
    c == ' ' || c == '\t' || c == '\n' || c == '\r'
}

/// Exec test for a delimiter character.
pub fn is_space_char(c: char) -> (r: bool)
    ensures
        r == is_space(c),
{
    c == ' ' || c == '\t' || c == '\n' || c == '\r'
}

/// The whitespace-delimited tokens of a character sequence, in order: a
/// token is a maximal run of non-delimiter characters.
pub open spec fn tokens_of(s: Seq<char>) -> Seq<Seq<char>>
    decreases s.len(),
{
    if s.len() == 0 {
        Seq::empty()
    } else {
        let rest = tokens_of(s.drop_last());
        let c = s.last();
        if is_space(c) {
            rest
        } else if s.len() >= 2 && !is_space(s[s.len() - 2]) {
            rest.update(rest.len() - 1, rest.last().push(c))
        } else {
            rest.push(seq![c])
        }
    }
}

/// The character sequences a list of strings denotes.
pub open spec fn views_of(words: Seq<String>) -> Seq<Seq<char>> {
    words.map_values(|w: String| w@)
}

/// How often `w` occurs among the tokens `ts`.
pub open spec fn occurrences(ts: Seq<Seq<char>>, w: Seq<char>) -> nat
    decreases ts.len(),
{
    if ts.len() == 0 {
        0
    } else {
        occurrences(ts.drop_last(), w) + if ts.last() == w {
            1nat
        } else {
            0nat
        }
    }
}

proof fn lemma_occurrences_le_len(ts: Seq<Seq<char>>, w: Seq<char>)
    ensures
        occurrences(ts, w) <= ts.len(),
    decreases ts.len(),
{
    if ts.len() > 0 {
        lemma_occurrences_le_len(ts.drop_last(), w);
    }
}

proof fn lemma_occurrences_absent(ts: Seq<Seq<char>>, w: Seq<char>)
    requires
        !ts.contains(w),
    ensures
        occurrences(ts, w) == 0,
    decreases ts.len(),
{
    if ts.len() > 0 {
        assert(!ts.drop_last().contains(w)) by {
            if ts.drop_last().contains(w) {
                let i = choose|i: int| 0 <= i < ts.drop_last().len() && ts.drop_last()[i] == w;
                assert(ts[i] == w);
            }
        }
        assert(ts.last() != w) by {
            assert(ts[ts.len() - 1] == ts.last());
        }
        lemma_occurrences_absent(ts.drop_last(), w);
    }
}

/// Splits `text` into its whitespace-delimited tokens, in order.
pub fn tokenize(text: &str) -> (words: Vec<String>)
    ensures
        views_of(words@) == tokens_of(text@),
{
    let n = text.unicode_len();
    let mut words: Vec<String> = Vec::new();
    let mut start: usize = 0;
    let mut in_word = false;
    let mut i: usize = 0;
    while i < n
        invariant
            n == text@.len(),
            i <= n,
            !in_word ==> views_of(words@) == tokens_of(text@.take(i as int)) && (i == 0 || is_space(
                text@[i as int - 1],
            )),
            in_word ==> start < i && (start == 0 || is_space(text@[start as int - 1])) && (forall|
                j: int,
            |
                start <= j < i ==> !is_space(text@[j])) && tokens_of(text@.take(i as int))
                == views_of(words@).push(text@.subrange(start as int, i as int)),
        decreases n - i,
    {
        let ghost t0 = text@.take(i as int);
        let ghost t1 = text@.take(i as int + 1);
        proof {
            assert(t1.drop_last() =~= t0);
            assert(t1.last() == text@[i as int]);
        }
        let c = text.get_char(i);
        if is_space_char(c) {
            if in_word {
                let w = text.substring_char(start, i).to_owned();
                proof {
                    assert(views_of(words@.push(w)) =~= views_of(words@).push(w@));
                }
                words.push(w);
                in_word = false;
            }
            assert(tokens_of(t1) == views_of(words@));
        } else {
            if !in_word {
                start = i;
                in_word = true;
                proof {
                    assert(seq![text@[i as int]] =~= text@.subrange(i as int, i as int + 1));
                    assert(tokens_of(t1) == views_of(words@).push(
                        text@.subrange(i as int, i as int + 1),
                    ));
                }
            } else {
                proof {
                    let ws = views_of(words@);
                    let cur = text@.subrange(start as int, i as int);
                    assert(!is_space(t1[t1.len() - 2]));
                    assert(cur.push(text@[i as int]) =~= text@.subrange(
                        start as int,
                        i as int + 1,
                    ));
                    assert(ws.push(cur).update(ws.len() as int, cur.push(text@[i as int]))
                        =~= ws.push(text@.subrange(start as int, i as int + 1)));
                    assert(tokens_of(t1) == ws.push(text@.subrange(start as int, i as int + 1)));
                }
            }
        }
        i = i + 1;
    }
    if in_word {
        let w = text.substring_char(start, n).to_owned();
        proof {
            assert(views_of(words@.push(w)) =~= views_of(words@).push(w@));
        }
        words.push(w);
    }
    proof {
        assert(text@.take(n as int) =~= text@);
    }
    words
}

/// Tallies the given words: each distinct word is mapped to how often it
/// occurs in the list.
pub fn count_words(words: &Vec<String>) -> (r: StrMap<usize>)
    ensures
        r.wf(),
        forall|w: Seq<char>| r@.contains_key(w) <==> views_of(words@).contains(w),
        forall|w: Seq<char>| r@.contains_key(w) ==> r@[w] == occurrences(views_of(words@), w),
{
    let ghost vw = views_of(words@);
    let n = words.len();
    let mut r: StrMap<usize> = StrMap::new();
    let mut j: usize = 0;
    while j < n
        invariant
            n == words@.len(),
            j <= n,
            vw == views_of(words@),
            r.wf(),
            forall|w: Seq<char>| r@.contains_key(w) <==> vw.take(j as int).contains(w),
            forall|w: Seq<char>| r@.contains_key(w) ==> r@[w] == occurrences(vw.take(j as int), w),
        decreases n - j,
    {
        let ghost p0 = vw.take(j as int);
        let ghost p1 = vw.take(j as int + 1);
        proof {
            assert(p1.drop_last() =~= p0);
            assert(p1.last() == words@[j as int]@);
        }
        let w = &words[j];
        let c = r.get_or(w.as_str(), 0);
        proof {
            lemma_occurrences_le_len(p0, w@);
            if !r@.contains_key(w@) {
                lemma_occurrences_absent(p0, w@);
            }
            assert(c == occurrences(p0, w@));
        }
        r.insert(w.as_str(), c + 1);
        proof {
            assert forall|x: Seq<char>| r@.contains_key(x) <==> p1.contains(x) by {
                if x == w@ {
                    assert(p1[p1.len() - 1] == x);
                } else {
                    if p0.contains(x) {
                        let i = choose|i: int| 0 <= i < p0.len() && p0[i] == x;
                        assert(p1[i] == x);
                    }
                    if p1.contains(x) {
                        let i = choose|i: int| 0 <= i < p1.len() && p1[i] == x;
                        assert(p0[i] == x);
                    }
                }
            }
            assert forall|x: Seq<char>| r@.contains_key(x) implies r@[x] == occurrences(p1, x) by {
                if x == w@ {
                    assert(occurrences(p1, x) == occurrences(p0, x) + 1);
                } else {
                    assert(occurrences(p1, x) == occurrences(p0, x));
                }
            }
        }
        j = j + 1;
    }
    proof {
        assert(vw.take(n as int) =~= vw);
    }
    r
}

/// Group-and-count over whitespace-tokenized text: maps each distinct token
/// of `text` to how often it occurs.
pub fn word_count(text: &str) -> (r: StrMap<usize>)
    ensures
        r.wf(),
        forall|w: Seq<char>| r@.contains_key(w) <==> tokens_of(text@).contains(w),
        forall|w: Seq<char>| r@.contains_key(w) ==> r@[w] == occurrences(tokens_of(text@), w),
{
    let words = tokenize(text);
    count_words(&words)
}

} // verus!

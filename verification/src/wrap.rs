//! Text wrapping for rendered output: greedy word wrap with hard breaks for
//! overlong words, and the ordered-list prefix of the markdown renderer.

use vstd::prelude::*;

use crate::text::{
    all_digits, append_chars, chars_of, find_from, is_digit, is_ws, is_ws_char,
    lemma_spec_find_props, slice_range_to_vec, spec_find, string_from_chars,
};

verus! {

/// Length of the run of non-whitespace characters starting at `p`.
pub open spec fn word_run(s: Seq<char>, p: int) -> int
    decreases s.len() - p,
    when 0 <= p
{
    if p >= s.len() || is_ws(s[p]) {
        0
    } else {
        1 + word_run(s, p + 1)
    }
}

pub proof fn lemma_word_run_pub(s: Seq<char>, p: int)
    requires
        0 <= p <= s.len(),
    ensures
        0 <= word_run(s, p),
        p + word_run(s, p) <= s.len(),
        p < s.len() && !is_ws(s[p]) ==> word_run(s, p) >= 1,
{
    lemma_word_run(s, p);
}

proof fn lemma_word_run(s: Seq<char>, p: int)
    requires
        0 <= p <= s.len(),
    ensures
        0 <= word_run(s, p),
        p + word_run(s, p) <= s.len(),
        p < s.len() && !is_ws(s[p]) ==> word_run(s, p) >= 1,
    decreases s.len() - p,
{
    if p < s.len() && !is_ws(s[p]) {
        lemma_word_run(s, p + 1);
    }
}

/// The whitespace-separated words of `s`, in order, without empties.
pub open spec fn spec_words(s: Seq<char>) -> Seq<Seq<char>>
    decreases s.len(),
    via spec_words_decreases
{
    if s.len() == 0 {
        Seq::empty()
    } else if is_ws(s[0]) {
        spec_words(s.skip(1))
    } else {
        seq![s.take(word_run(s, 0))] + spec_words(s.skip(word_run(s, 0)))
    }
}

#[via_fn]
proof fn spec_words_decreases(s: Seq<char>) {
    if s.len() > 0 && !is_ws(s[0]) {
        lemma_word_run(s, 0);
    }
}

/// Split a text into its whitespace-separated words.
pub fn split_words(s: &[char]) -> (r: Vec<Vec<char>>)
    ensures
        r@.len() == spec_words(s@).len(),
        forall|k: int| 0 <= k < r@.len() ==> r@[k]@ == spec_words(s@)[k],
    decreases s@.len(),
{
    let n = s.len();
    if n == 0 {
        return Vec::new();
    }
    if is_ws_char(s[0]) {
        let rest = slice_range_to_vec(s, 1, n);
        proof {
            assert(rest@ =~= s@.skip(1));
        }
        return split_words(rest.as_slice());
    }
    proof {
        lemma_word_run(s@, 0);
    }
    let mut t: usize = 0;
    while t < n && !is_ws_char(s[t])
        invariant
            0 <= t <= n,
            n == s@.len(),
            word_run(s@, 0) == t + word_run(s@, t as int),
        decreases n - t,
    {
        t += 1;
    }
    proof {
        assert(word_run(s@, t as int) == 0);
    }
    let word = slice_range_to_vec(s, 0, t);
    let rest = slice_range_to_vec(s, t, n);
    proof {
        assert(word@ =~= s@.take(word_run(s@, 0)));
        assert(rest@ =~= s@.skip(word_run(s@, 0)));
    }
    let mut tail = split_words(rest.as_slice());
    let ghost tail0 = tail@;
    let mut r: Vec<Vec<char>> = Vec::new();
    r.push(word);
    r.append(&mut tail);
    proof {
        assert(forall|k: int| 0 <= k < tail0.len() ==> r@[k + 1] == tail0[k]);
    }
    r
}

/// An overlong word cut into full-width pieces and the remainder.
pub open spec fn spec_chunks(w: Seq<char>, max: int) -> (Seq<Seq<char>>, Seq<char>)
    decreases w.len(),
    when max >= 1
{
    if w.len() > max {
        let rest = spec_chunks(w.skip(max), max);
        (seq![w.take(max)] + rest.0, rest.1)
    } else {
        (Seq::empty(), w)
    }
}

/// One word folded into the wrap state: an overlong word starting a line is
/// hard-broken; a word that no longer fits opens a new line; anything else
/// joins the line after a blank.
pub open spec fn spec_wrap_word(
    acc: (Seq<Seq<char>>, Seq<char>),
    word: Seq<char>,
    max: int,
) -> (Seq<Seq<char>>, Seq<char>) {
    if acc.1.len() == 0 {
        if word.len() > max {
            let broken = spec_chunks(word, max);
            (acc.0 + broken.0, broken.1)
        } else {
            (acc.0, word)
        }
    } else if acc.1.len() + 1 + word.len() > max {
        (acc.0.push(acc.1), word)
    } else {
        (acc.0, acc.1 + seq![' '] + word)
    }
}

/// All words folded in order.
pub open spec fn spec_wrap_fold(
    words: Seq<Seq<char>>,
    acc: (Seq<Seq<char>>, Seq<char>),
    max: int,
) -> (Seq<Seq<char>>, Seq<char>)
    decreases words.len(),
{
    if words.len() == 0 {
        acc
    } else {
        spec_wrap_fold(words.drop_first(), spec_wrap_word(acc, words[0], max), max)
    }
}

/// Folding one more word folds onto the folded prefix.
proof fn lemma_wrap_fold_snoc(
    words: Seq<Seq<char>>,
    w: Seq<char>,
    acc: (Seq<Seq<char>>, Seq<char>),
    max: int,
)
    ensures
        spec_wrap_fold(words.push(w), acc, max) == spec_wrap_word(
            spec_wrap_fold(words, acc, max),
            w,
            max,
        ),
    decreases words.len(),
{
    let q = words.push(w);
    assert(q[0] == if words.len() == 0 {
        w
    } else {
        words[0]
    });
    if words.len() == 0 {
        assert(q.drop_first() =~= Seq::<Seq<char>>::empty());
        assert(spec_wrap_fold(q.drop_first(), spec_wrap_word(acc, w, max), max)
            == spec_wrap_word(acc, w, max));
        assert(spec_wrap_fold(words, acc, max) == acc);
    } else {
        lemma_wrap_fold_snoc(words.drop_first(), w, spec_wrap_word(acc, words[0], max), max);
        assert(q.drop_first() =~= words.drop_first().push(w));
    }
}

/// The wrapped lines of a text at a width: the words folded greedily, the
/// open line flushed, and one empty line when nothing was there at all; a
/// zero width returns the text unbroken.
pub open spec fn spec_wrap_text(s: Seq<char>, max: int) -> Seq<Seq<char>> {
    if max == 0 {
        seq![s]
    } else {
        let folded = spec_wrap_fold(spec_words(s), (Seq::empty(), Seq::empty()), max);
        let flushed = if folded.1.len() > 0 {
            folded.0.push(folded.1)
        } else {
            folded.0
        };
        if flushed.len() == 0 {
            seq![Seq::<char>::empty()]
        } else {
            flushed
        }
    }
}

/// Wrap text at the given width, breaking on whitespace.
pub fn wrap_text(text: &str, max_width: usize) -> (r: Vec<String>)
    ensures
        r@.len() == spec_wrap_text(text@, max_width as int).len(),
        forall|k: int| 0 <= k < r@.len() ==> r@[k]@ == spec_wrap_text(text@, max_width as int)[k],
{
    let tv = chars_of(text);
    if max_width == 0 {
        let mut r: Vec<String> = Vec::new();
        r.push(string_from_chars(tv.as_slice()));
        return r;
    }
    let words = split_words(tv.as_slice());
    let ghost wviews = spec_words(text@);
    let ghost start_acc = (Seq::<Seq<char>>::empty(), Seq::<char>::empty());
    let mut lines: Vec<String> = Vec::new();
    let mut current: Vec<char> = Vec::new();
    let mut i: usize = 0;
    while i < words.len()
        invariant
            max_width >= 1,
            0 <= i <= words@.len(),
            words@.len() == wviews.len(),
            forall|k: int| 0 <= k < wviews.len() ==> words@[k]@ == wviews[k],
            ({
                let folded = spec_wrap_fold(wviews.take(i as int), start_acc, max_width as int);
                lines@.map_values(|l: String| l@) == folded.0 && current@ == folded.1
            }),
        decreases words@.len() - i,
    {
        proof {
            lemma_wrap_fold_snoc(wviews.take(i as int), wviews[i as int], start_acc,
                max_width as int);
            assert(wviews.take(i + 1) =~= wviews.take(i as int).push(wviews[i as int]));
        }
        let word = &words[i];
        if current.len() == 0 {
            if word.len() > max_width {
                let mut remaining = slice_range_to_vec(word.as_slice(), 0, word.len());
                proof {
                    assert(remaining@ =~= wviews[i as int]);
                }
                while remaining.len() > max_width
                    invariant
                        max_width >= 1,
                        ({
                            let broken = spec_chunks(remaining@, max_width as int);
                            let target = spec_wrap_fold(
                                wviews.take(i + 1),
                                start_acc,
                                max_width as int,
                            );
                            lines@.map_values(|l: String| l@) + broken.0 =~= target.0 && broken.1
                                =~= target.1
                        }),
                    decreases remaining@.len(),
                {
                    let chunk = slice_range_to_vec(remaining.as_slice(), 0, max_width);
                    let rest = slice_range_to_vec(remaining.as_slice(), max_width,
                        remaining.len());
                    proof {
                        assert(chunk@ =~= remaining@.take(max_width as int));
                        assert(rest@ =~= remaining@.skip(max_width as int));
                        let broken = spec_chunks(remaining@, max_width as int);
                        let broken_rest = spec_chunks(rest@, max_width as int);
                        assert(broken.0 =~= seq![chunk@] + broken_rest.0);
                    }
                    lines.push(string_from_chars(chunk.as_slice()));
                    proof {
                        let target = spec_wrap_fold(wviews.take(i + 1), start_acc,
                            max_width as int);
                        assert(lines@.map_values(|l: String| l@) + spec_chunks(
                            rest@,
                            max_width as int,
                        ).0 =~= target.0);
                    }
                    remaining = rest;
                }
                current = remaining;
                proof {
                    assert(spec_chunks(current@, max_width as int).0 =~= Seq::<Seq<char>>::empty());
                    assert(lines@.map_values(|l: String| l@) =~= spec_wrap_fold(
                        wviews.take(i + 1),
                        start_acc,
                        max_width as int,
                    ).0);
                }
            } else {
                current = slice_range_to_vec(word.as_slice(), 0, word.len());
                proof {
                    assert(current@ =~= wviews[i as int]);
                }
            }
        } else if current.len() >= max_width || word.len() > max_width - 1 - current.len() {
            proof {
                assert(current@.len() + 1 + wviews[i as int].len() > max_width as int);
            }
            lines.push(string_from_chars(current.as_slice()));
            current = slice_range_to_vec(word.as_slice(), 0, word.len());
            proof {
                assert(current@ =~= wviews[i as int]);
                assert(lines@.map_values(|l: String| l@) =~= spec_wrap_fold(
                    wviews.take(i + 1),
                    start_acc,
                    max_width as int,
                ).0);
            }
        } else {
            current.push(' ');
            append_chars(&mut current, word.as_slice());
            proof {
                assert(current@ =~= old_line_with_word(
                    spec_wrap_fold(wviews.take(i as int), start_acc, max_width as int).1,
                    wviews[i as int],
                ));
            }
        }
        i += 1;
    }
    proof {
        assert(wviews.take(wviews.len() as int) =~= wviews);
    }
    if current.len() > 0 {
        lines.push(string_from_chars(current.as_slice()));
        proof {
            let folded = spec_wrap_fold(wviews, start_acc, max_width as int);
            assert(lines@.map_values(|l: String| l@) =~= folded.0.push(folded.1));
        }
    }
    if lines.len() == 0 {
        lines.push(String::new());
        proof {
            assert(lines@.map_values(|l: String| l@) =~= seq![Seq::<char>::empty()]);
        }
    }
    lines
}

/// A line joined with one more word after a blank.
pub open spec fn old_line_with_word(line: Seq<char>, word: Seq<char>) -> Seq<char> {
    line + seq![' '] + word
}

/// What follows an ordered-list prefix: a leading digit run, the first
/// `. ` after it, and digits all the way up to it.
pub open spec fn spec_strip_ordered(s: Seq<char>) -> Option<Seq<char>> {
    if s.len() == 0 || !is_digit(s[0]) {
        None
    } else {
        let rest = s.skip(1);
        match spec_find(rest, ". "@, 0) {
            Some(d) => if all_digits(rest.take(d)) {
                Some(rest.skip(d + 2))
            } else {
                None
            },
            None => None,
        }
    }
}

/// Strip an ordered-list prefix like `1. ` and return the rest.
pub fn strip_ordered_list_prefix(text: &str) -> (r: Option<String>)
    ensures
        r is Some <==> spec_strip_ordered(text@) is Some,
        r matches Some(t) ==> spec_strip_ordered(text@) == Some(t@),
{
    let tv = chars_of(text);
    let n = tv.len();
    if n == 0 {
        return None;
    }
    let c0 = tv[0] as u32;
    if c0 < '0' as u32 || c0 > '9' as u32 {
        proof {
            assert(!is_digit(text@[0]));
        }
        return None;
    }
    let rest = slice_range_to_vec(tv.as_slice(), 1, n);
    proof {
        assert(rest@ =~= text@.skip(1));
    }
    let pat = chars_of(". ");
    proof {
        reveal_strlit(". ");
        assert(pat@.len() == 2);
    }
    match find_from(rest.as_slice(), pat.as_slice(), 0) {
        None => None,
        Some(d) => {
            proof {
                lemma_spec_find_props(rest@, ". "@, 0);
            }
            let mut k: usize = 0;
            while k < d
                invariant
                    0 <= k <= d,
                    d + 2 <= rest@.len(),
                    rest@ == text@.skip(1),
                    text@.len() > 0 && is_digit(text@[0]),
                    spec_find(rest@, ". "@, 0) == Some(d as int),
                    forall|j: int| 0 <= j < k ==> is_digit(rest@[j]),
                decreases d - k,
            {
                let u = rest[k] as u32;
                if u < '0' as u32 || u > '9' as u32 {
                    proof {
                        assert(!is_digit(rest@[k as int]));
                        assert(rest@.take(d as int)[k as int] == rest@[k as int]);
                        assert(!all_digits(rest@.take(d as int)));
                    }
                    return None;
                }
                k += 1;
            }
            proof {
                assert(all_digits(rest@.take(d as int)));
            }
            let tail = slice_range_to_vec(rest.as_slice(), d + 2, rest.len());
            proof {
                assert(tail@ =~= rest@.skip(d + 2));
            }
            Some(string_from_chars(tail.as_slice()))
        },
    }
}

} // verus!

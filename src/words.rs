//! Words: the maximal runs of non-whitespace characters of a text.
use vstd::prelude::*;
use crate::chars::{is_white_space, is_ws, push_char};

verus! {

/// Scanning `s` from the left: the words already closed by whitespace,
/// and the run of non-whitespace characters still open at the end.
pub open spec fn split_state(s: Seq<char>) -> (Seq<Seq<char>>, Seq<char>)
    decreases s.len(),
{
    if s.len() == 0 {
        (seq![], seq![])
    } else {
        let (done, cur) = split_state(s.drop_last());
        let c = s.last();
        if is_white_space(c) {
            if cur.len() > 0 {
                (done.push(cur), seq![])
            } else {
                (done, cur)
            }
        } else {
            (done, cur.push(c))
        }
    }
}

/// The words of `s`, in order.
pub open spec fn words(s: Seq<char>) -> Seq<Seq<char>> {
    let (done, cur) = split_state(s);
    if cur.len() > 0 {
        done.push(cur)
    } else {
        done
    }
}

/// Whether a maximal run of non-whitespace characters starts at index `i` of `s`.
pub open spec fn run_starts_at(s: Seq<char>, i: int) -> bool {
    0 <= i < s.len() && !is_white_space(s[i]) && (i == 0 || is_white_space(s[i - 1]))
}

/// The number of maximal runs of non-whitespace characters of `s`:
/// the indices at which such a run starts.
pub open spec fn run_count(s: Seq<char>) -> nat
    decreases s.len(),
{
    if s.len() == 0 {
        0
    } else {
        run_count(s.drop_last()) + if run_starts_at(s, s.len() - 1) {
            1nat
        } else {
            0nat
        }
    }
}

/// The sum of the lengths of `ws`.
pub open spec fn total_len(ws: Seq<Seq<char>>) -> nat
    decreases ws.len(),
{
    if ws.len() == 0 {
        0
    } else {
        total_len(ws.drop_last()) + ws.last().len()
    }
}

proof fn lemma_split_state(s: Seq<char>)
    ensures
        split_state(s).1.len() > 0 <==> (s.len() > 0 && !is_white_space(s.last())),
        split_state(s).0.len() + (if split_state(s).1.len() > 0 {
            1nat
        } else {
            0nat
        }) == run_count(s),
        total_len(split_state(s).0) + split_state(s).1.len() <= s.len(),
    decreases s.len(),
{
    if s.len() > 0 {
        let p = s.drop_last();
        lemma_split_state(p);
        let (done, cur) = split_state(p);
        if is_white_space(s.last()) && cur.len() > 0 {
            assert(done.push(cur).drop_last() =~= done);
        }
        if s.len() >= 2 {
            assert(p.last() == s[s.len() - 2]);
        }
    }
}

/// The number of words of a text is the number of maximal runs of
/// non-whitespace characters in it, and their lengths sum to at most
/// the length of the text.
pub proof fn lemma_words_are_runs(s: Seq<char>)
    ensures
        words(s).len() == run_count(s),
        total_len(words(s)) <= s.len(),
{
    lemma_split_state(s);
    let (done, cur) = split_state(s);
    if cur.len() > 0 {
        assert(done.push(cur).drop_last() =~= done);
    }
}

/// The words of a text, each with its length in characters.
pub fn split_words(s: &Vec<char>) -> (r: (Vec<String>, Vec<usize>))
    ensures
        r.0@.map_values(|w: String| w@) == words(s@),
        r.1.len() == words(s@).len(),
        forall|j: int| 0 <= j < r.1.len() ==> r.1[j] == words(s@)[j].len(),
{
    let mut done: Vec<String> = Vec::new();
    let mut lens: Vec<usize> = Vec::new();
    let mut cur: String = String::new();
    let mut cur_len: usize = 0;
    let mut i: usize = 0;
    while i < s.len()
        invariant
            i <= s.len(),
            split_state(s@.take(i as int)) == (done@.map_values(|w: String| w@), cur@),
            lens.len() == done.len(),
            forall|j: int| 0 <= j < lens.len() ==> lens[j] == done[j]@.len(),
            cur_len == cur@.len(),
            cur_len <= i,
        decreases s.len() - i,
    {
        assert(s@.take(i + 1).drop_last() =~= s@.take(i as int));
        let c = s[i];
        if is_ws(c) {
            if cur_len > 0 {
                let ghost old_done = done@;
                done.push(cur);
                lens.push(cur_len);
                assert(done@.map_values(|w: String| w@) =~= old_done.map_values(|w: String| w@).push(cur@));
                cur = String::new();
                cur_len = 0;
            }
        } else {
            push_char(&mut cur, c);
            cur_len = cur_len + 1;
        }
        i = i + 1;
    }
    assert(s@.take(s.len() as int) =~= s@);
    if cur_len > 0 {
        let ghost old_done = done@;
        done.push(cur);
        lens.push(cur_len);
        assert(done@.map_values(|w: String| w@) =~= old_done.map_values(|w: String| w@).push(cur@));
    }
    (done, lens)
}

} // verus!

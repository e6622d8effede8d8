//! The analysis of a text: every statistic, computed from one split into words.
use vstd::prelude::*;
use crate::chars::{
    chars_of, count_chars, count_non_ws, is_sentence_mark, is_white_space, lower_of,
    lowercase,
};
use crate::freq::{
    count_matches, is_letter_histogram, is_most_common, letter_histogram, most_common,
    occurrences,
};
use crate::words::{lemma_words_are_runs, run_count, split_words, total_len, words};

verus! {

/// The statistics of one text.
///
/// The mean word length is `total_word_length / word_count`, and zero
/// where there are no words.
pub struct AnalysisResult {
    pub word_count: usize,
    pub char_count: usize,
    pub letter_count: usize,
    pub sentence_count: usize,
    pub longest_word: Option<String>,
    pub longest_word_length: Option<usize>,
    pub most_common_word: Option<String>,
    pub most_common_word_count: Option<usize>,
    pub search_word: Option<String>,
    pub search_word_count: Option<usize>,
    pub char_freq: Vec<(char, usize)>,
    pub total_word_length: usize,
}

/// Each word of `ws` lowercased.
pub open spec fn lowered(ws: Seq<Seq<char>>) -> Seq<Seq<char>> {
    ws.map_values(|w: Seq<char>| lower_of(w))
}

/// `k` is the index of the first of the longest entries of `ws`.
pub open spec fn is_first_longest(ws: Seq<Seq<char>>, k: int) -> bool {
    &&& 0 <= k < ws.len()
    &&& forall|j: int| 0 <= j < ws.len() ==> ws[j].len() <= ws[k].len()
    &&& forall|j: int| 0 <= j < k ==> ws[j].len() < ws[k].len()
}

/// The view of an optional string.
pub open spec fn opt_view(o: Option<&str>) -> Option<Seq<char>> {
    match o {
        Some(q) => Some(q@),
        None => None,
    }
}

/// `r` holds the statistics of the text `s`, searched for `search`.
pub open spec fn is_analysis_of(s: Seq<char>, search: Option<Seq<char>>, r: AnalysisResult) -> bool {
    let ws = words(s);
    &&& r.word_count == ws.len()
    &&& r.char_count == s.len()
    &&& r.letter_count == count_chars(s, |c: char| !is_white_space(c))
    &&& r.sentence_count == count_chars(s, |c: char| is_sentence_mark(c))
    &&& r.total_word_length == total_len(ws)
    &&& (r.longest_word is None <==> ws.len() == 0)
    &&& (r.longest_word_length is None <==> ws.len() == 0)
    &&& (ws.len() > 0 ==> exists|k: int| is_first_longest(ws, k)
        && r.longest_word->0@ == ws[k] && r.longest_word_length == Some(ws[k].len() as usize))
    &&& (r.most_common_word is None <==> ws.len() == 0)
    &&& (r.most_common_word_count is None <==> ws.len() == 0)
    &&& (ws.len() > 0 ==> is_most_common(lowered(ws), r.most_common_word->0@, r.most_common_word_count->0 as nat))
    &&& match search {
        Some(q) => r.search_word is Some && r.search_word->0@ == lower_of(q) && r.search_word_count == Some(occurrences(lowered(ws), lower_of(q)) as usize),
        None => r.search_word is None && r.search_word_count is None,
    }
    &&& is_letter_histogram(s, r.char_freq@)
}

/// The index of the first of the longest words, given the word lengths.
pub fn first_longest(lens: &Vec<usize>) -> (r: Option<usize>)
    ensures
        r is None <==> lens.len() == 0,
        r matches Some(k) ==> k < lens.len()
            && (forall|j: int| 0 <= j < lens.len() ==> lens[j] <= lens[k as int])
            && (forall|j: int| 0 <= j < k ==> lens[j] < lens[k as int]),
{
    if lens.len() == 0 {
        return None;
    }
    let mut best: usize = 0;
    let mut i: usize = 1;
    while i < lens.len()
        invariant
            1 <= i <= lens.len(),
            best < i,
            forall|j: int| 0 <= j < i ==> lens[j] <= lens[best as int],
            forall|j: int| 0 <= j < best ==> lens[j] < lens[best as int],
        decreases lens.len() - i,
    {
        if lens[i] > lens[best] {
            best = i;
        }
        i = i + 1;
    }
    Some(best)
}

/// The number of sentence marks (`.`, `!`, `?`) in `s`.
pub fn count_sentence_marks(s: &Vec<char>) -> (n: usize)
    ensures
        n == count_chars(s@, |c: char| is_sentence_mark(c)),
{
    let mut n: usize = 0;
    let mut i: usize = 0;
    while i < s.len()
        invariant
            i <= s.len(),
            n == count_chars(s@.take(i as int), |c: char| is_sentence_mark(c)),
            n <= i,
        decreases s.len() - i,
    {
        assert(s@.take(i + 1).drop_last() =~= s@.take(i as int));
        let c = s[i];
        if c == '.' || c == '!' || c == '?' {
            n = n + 1;
        }
        i = i + 1;
    }
    assert(s@.take(s.len() as int) =~= s@);
    n
}

/// Each word lowercased.
pub fn lowercase_all(ws: &Vec<String>) -> (r: Vec<String>)
    ensures
        r@.map_values(|w: String| w@) == lowered(ws@.map_values(|w: String| w@)),
{
    let mut r: Vec<String> = Vec::new();
    let mut i: usize = 0;
    while i < ws.len()
        invariant
            i <= ws.len(),
            r@.map_values(|w: String| w@) == lowered(ws@.map_values(|w: String| w@).take(i as int)),
        decreases ws.len() - i,
    {
        let ghost prev = r@;
        r.push(lowercase(ws[i].as_str()));
        assert(r@.map_values(|w: String| w@) =~= prev.map_values(|w: String| w@).push(lower_of(ws[i as int]@)));
        assert(r@.map_values(|w: String| w@) =~= lowered(ws@.map_values(|w: String| w@).take(i + 1)));
        i = i + 1;
    }
    assert(ws@.map_values(|w: String| w@).take(ws.len() as int) =~= ws@.map_values(|w: String| w@));
    r
}

/// The sum of the word lengths.
fn sum_lengths(lens: &Vec<usize>, Ghost(ws): Ghost<Seq<Seq<char>>>, Ghost(bound): Ghost<nat>) -> (n: usize)
    requires
        lens.len() == ws.len(),
        forall|j: int| 0 <= j < lens.len() ==> lens[j] == ws[j].len(),
        total_len(ws) <= bound,
        bound <= usize::MAX,
    ensures
        n == total_len(ws),
{
    let mut n: usize = 0;
    let mut i: usize = 0;
    while i < lens.len()
        invariant
            i <= lens.len(),
            lens.len() == ws.len(),
            forall|j: int| 0 <= j < lens.len() ==> lens[j] == ws[j].len(),
            total_len(ws) <= bound,
            bound <= usize::MAX,
            n == total_len(ws.take(i as int)),
        decreases lens.len() - i,
    {
        assert(ws.take(i + 1).drop_last() =~= ws.take(i as int));
        proof {
            lemma_total_len_prefix(ws, i + 1);
        }
        n = n + lens[i];
        i = i + 1;
    }
    assert(ws.take(lens.len() as int) =~= ws);
    n
}

proof fn lemma_total_len_prefix(ws: Seq<Seq<char>>, i: int)
    requires
        0 <= i <= ws.len(),
    ensures
        total_len(ws.take(i)) <= total_len(ws),
    decreases ws.len(),
{
    if i < ws.len() {
        assert(ws.drop_last().take(i) =~= ws.take(i));
        lemma_total_len_prefix(ws.drop_last(), i);
    } else {
        assert(ws.take(i) =~= ws);
    }
}

/// Computes every statistic of `content`; with a search term, also how many
/// words equal it, both lowercased.
///
/// The most common word is one of the most frequent lowercased words; which
/// of several equally frequent ones is reported is left open.
pub fn analyze(content: &str, search: Option<&str>) -> (r: AnalysisResult)
    ensures
        is_analysis_of(content@, opt_view(search), r),
{
    let chars = chars_of(content);
    let ghost s = chars@;
    let (ws, lens) = split_words(&chars);
    let ghost wseq = words(s);
    proof {
        lemma_words_are_runs(s);
    }
    let letter_count = count_non_ws(&chars);
    let sentence_count = count_sentence_marks(&chars);
    let total_word_length = sum_lengths(&lens, Ghost(wseq), Ghost(chars.len() as nat));
    let (longest_word, longest_word_length) = match first_longest(&lens) {
        Some(k) => {
            assert forall|j: int| 0 <= j < wseq.len() implies #[trigger] wseq[j].len() == lens[j] by {}
            assert(is_first_longest(wseq, k as int));
            (Some(ws[k].clone()), Some(lens[k]))
        },
        None => (None, None),
    };
    let low = lowercase_all(&ws);
    let (most_common_word, most_common_word_count) = match most_common(&low) {
        Some((w, n)) => (Some(w), Some(n)),
        None => (None, None),
    };
    let (search_word, search_word_count) = match search {
        Some(q) => {
            let ql = lowercase(q);
            let n = count_matches(&low, &ql);
            (Some(ql), Some(n))
        },
        None => (None, None),
    };
    let char_freq = letter_histogram(&chars);
    AnalysisResult {
        word_count: ws.len(),
        char_count: chars.len(),
        letter_count,
        sentence_count,
        longest_word,
        longest_word_length,
        most_common_word,
        most_common_word_count,
        search_word,
        search_word_count,
        char_freq,
        total_word_length,
    }
}

proof fn lemma_non_ws_count(s: Seq<char>)
    ensures
        count_chars(s, |c: char| !is_white_space(c)) <= s.len(),
        count_chars(s, |c: char| !is_white_space(c)) == s.len() <==> forall|i: int|
            0 <= i < s.len() ==> !is_white_space(#[trigger] s[i]),
    decreases s.len(),
{
    if s.len() > 0 {
        let p = s.drop_last();
        lemma_non_ws_count(p);
        if forall|i: int| 0 <= i < s.len() ==> !is_white_space(#[trigger] s[i]) {
            assert forall|i: int| 0 <= i < p.len() implies !is_white_space(#[trigger] p[i]) by {
                assert(p[i] == s[i]);
            }
        } else {
            let i = choose|i: int| 0 <= i < s.len() && is_white_space(#[trigger] s[i]);
            if i < p.len() {
                assert(p[i] == s[i]);
            }
        }
    }
}

/// The word count is the number of maximal runs of non-whitespace characters.
pub proof fn lemma_word_count_counts_runs(s: Seq<char>, search: Option<Seq<char>>, r: AnalysisResult)
    requires
        is_analysis_of(s, search, r),
    ensures
        r.word_count == run_count(s),
{
    lemma_words_are_runs(s);
}

/// There are never more non-whitespace characters than characters, and
/// the two counts agree exactly when the text holds no whitespace.
pub proof fn lemma_letters_within_chars(s: Seq<char>, search: Option<Seq<char>>, r: AnalysisResult)
    requires
        is_analysis_of(s, search, r),
    ensures
        r.letter_count <= r.char_count,
        r.letter_count == r.char_count <==> forall|i: int| 0 <= i < s.len() ==> !is_white_space(#[trigger] s[i]),
{
    lemma_non_ws_count(s);
}

/// The total word length is the sum of the lengths of the words, and is
/// zero when there are no words, so that the mean word length is zero then.
pub proof fn lemma_total_word_length(s: Seq<char>, search: Option<Seq<char>>, r: AnalysisResult)
    requires
        is_analysis_of(s, search, r),
    ensures
        r.total_word_length == total_len(words(s)),
        r.word_count == 0 ==> r.total_word_length == 0,
{
}

/// Two analyses of the same text agree on every count that does not depend
/// on breaking a tie between equally frequent words.
pub proof fn lemma_analysis_deterministic(
    s: Seq<char>,
    search1: Option<Seq<char>>,
    r1: AnalysisResult,
    search2: Option<Seq<char>>,
    r2: AnalysisResult,
)
    requires
        is_analysis_of(s, search1, r1),
        is_analysis_of(s, search2, r2),
    ensures
        r1.word_count == r2.word_count,
        r1.char_count == r2.char_count,
        r1.letter_count == r2.letter_count,
        r1.sentence_count == r2.sentence_count,
        r1.longest_word_length == r2.longest_word_length,
        r1.longest_word matches Some(w1) ==> r2.longest_word matches Some(w2) && w1@ == w2@,
        r1.most_common_word_count == r2.most_common_word_count,
        r1.total_word_length == r2.total_word_length,
{
    let ws = words(s);
    if ws.len() > 0 {
        let k1 = choose|k: int| is_first_longest(ws, k) && r1.longest_word->0@ == ws[k]
            && r1.longest_word_length == Some(ws[k].len() as usize);
        let k2 = choose|k: int| is_first_longest(ws, k) && r2.longest_word->0@ == ws[k]
            && r2.longest_word_length == Some(ws[k].len() as usize);
        assert(k1 == k2);
        let l = lowered(ws);
        let j1 = choose|j: int| 0 <= j < l.len() && l[j] == r1.most_common_word->0@;
        let j2 = choose|j: int| 0 <= j < l.len() && l[j] == r2.most_common_word->0@;
        assert(occurrences(l, l[j1]) <= r2.most_common_word_count->0);
        assert(occurrences(l, l[j2]) <= r1.most_common_word_count->0);
    }
}

} // verus!

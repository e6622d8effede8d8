//! Frequency tables: how often each lowercased word, and each lowercased
//! letter, occurs.
use vstd::prelude::*;
use crate::chars::{alphabetic, char_lower_of, is_alpha, lower_char};

verus! {

/// How many entries of `ws` equal `w`.
pub open spec fn occurrences(ws: Seq<Seq<char>>, w: Seq<char>) -> nat
    decreases ws.len(),
{
    if ws.len() == 0 {
        0
    } else {
        occurrences(ws.drop_last(), w) + if ws.last() == w {
            1nat
        } else {
            0nat
        }
    }
}

/// Some entry of `ws` equals `w` when `w` occurs in it at all.
pub proof fn lemma_occurs_in(ws: Seq<Seq<char>>, w: Seq<char>)
    requires
        occurrences(ws, w) > 0,
    ensures
        exists|j: int| 0 <= j < ws.len() && ws[j] == w,
    decreases ws.len(),
{
    if ws.last() != w {
        lemma_occurs_in(ws.drop_last(), w);
        let j = choose|j: int| 0 <= j < ws.len() - 1 && ws.drop_last()[j] == w;
        assert(ws[j] == w);
    }
}

/// `w` is a most frequent entry of the nonempty `ws`, occurring `n` times.
pub open spec fn is_most_common(ws: Seq<Seq<char>>, w: Seq<char>, n: nat) -> bool {
    &&& exists|j: int| 0 <= j < ws.len() && ws[j] == w
    &&& n == occurrences(ws, w)
    &&& forall|j: int| 0 <= j < ws.len() ==> occurrences(ws, ws[j]) <= n
}

/// A most frequent entry of `ws` and its number of occurrences; `None`
/// when `ws` is empty. Which of several equally frequent entries is
/// returned is left open.
#[verifier::loop_isolation(false)]
pub fn most_common(ws: &Vec<String>) -> (r: Option<(String, usize)>)
    ensures
        r is None <==> ws.len() == 0,
        r matches Some((w, n)) ==> is_most_common(ws@.map_values(|s: String| s@), w@, n as nat),
{
    let ghost l = ws@.map_values(|s: String| s@);
    let mut keys: Vec<String> = Vec::new();
    let mut counts: Vec<usize> = Vec::new();
    let mut i: usize = 0;
    while i < ws.len()
        invariant
            i <= ws.len(),
            l == ws@.map_values(|s: String| s@),
            keys.len() == counts.len(),
            keys.len() <= i,
            forall|a: int, b: int| 0 <= a < b < keys.len() ==> keys[a]@ != keys[b]@,
            forall|k: int| 0 <= k < keys.len() ==> counts[k] == occurrences(l.take(i as int), #[trigger] keys[k]@),
            forall|k: int| 0 <= k < keys.len() ==> 1 <= #[trigger] counts[k] <= i,
            forall|j: int| #![trigger l[j]] 0 <= j < i ==> exists|k: int| #![trigger keys[k]] 0 <= k < keys.len() && keys[k]@ == l[j],
        decreases ws.len() - i,
    {
        assert(l.take(i + 1).drop_last() =~= l.take(i as int));
        let ghost old_keys = keys@;
        let mut k: usize = 0;
        while k < keys.len()
            invariant
                k <= keys.len(),
                forall|m: int| 0 <= m < k ==> keys[m]@ != ws[i as int]@,
            decreases keys.len() - k,
        {
            if keys[k] == ws[i] {
                break;
            }
            k = k + 1;
        }
        if k < keys.len() {
            let c = counts[k];
            counts.set(k, c + 1);
        } else {
            keys.push(ws[i].clone());
            counts.push(1);
            assert(occurrences(l.take(i as int), ws[i as int]@) == 0) by {
                if occurrences(l.take(i as int), ws[i as int]@) > 0 {
                    lemma_occurs_in(l.take(i as int), ws[i as int]@);
                }
            }
        }
        assert forall|j: int| #![trigger l[j]] 0 <= j < i + 1 implies exists|k: int| #![trigger keys[k]] 0 <= k < keys.len() && keys[k]@ == l[j] by {
            if j == i {
                assert(keys[k as int]@ == l[j]);
            } else {
                let k2 = choose|k2: int| #![trigger old_keys[k2]] 0 <= k2 < old_keys.len() && old_keys[k2]@ == l[j];
                assert(keys[k2]@ == l[j]);
            }
        }
        i = i + 1;
    }
    assert(l.take(ws.len() as int) =~= l);
    if keys.len() == 0 {
        assert(ws.len() > 0 ==> l[0] == l[0]);
        return None;
    }
    let mut best: usize = 0;
    let mut m: usize = 1;
    while m < keys.len()
        invariant
            1 <= m <= keys.len(),
            keys.len() == counts.len(),
            best < keys.len(),
            forall|k: int| 0 <= k < m ==> counts[k] <= counts[best as int],
        decreases keys.len() - m,
    {
        if counts[m] > counts[best] {
            best = m;
        }
        m = m + 1;
    }
    let ghost w = keys[best as int]@;
    assert(is_most_common(l, w, counts[best as int] as nat)) by {
        lemma_occurs_in(l, w);
        assert forall|j: int| 0 <= j < l.len() implies occurrences(l, l[j]) <= counts[best as int] by {
            let k = choose|k: int| #![trigger keys[k]] 0 <= k < keys.len() && keys[k]@ == l[j];
        }
    }
    Some((keys[best].clone(), counts[best]))
}

/// How many entries of `ws` equal `w`.
pub fn count_matches(ws: &Vec<String>, w: &String) -> (n: usize)
    ensures
        n == occurrences(ws@.map_values(|s: String| s@), w@),
{
    let ghost l = ws@.map_values(|s: String| s@);
    let mut n: usize = 0;
    let mut i: usize = 0;
    while i < ws.len()
        invariant
            i <= ws.len(),
            l == ws@.map_values(|s: String| s@),
            n == occurrences(l.take(i as int), w@),
            n <= i,
        decreases ws.len() - i,
    {
        assert(l.take(i + 1).drop_last() =~= l.take(i as int));
        if ws[i] == *w {
            n = n + 1;
        }
        i = i + 1;
    }
    assert(l.take(ws.len() as int) =~= l);
    n
}

/// The histogram key of a character: the first character of its lowercase
/// mapping, for an alphabetic character; none for any other.
pub open spec fn histogram_key(c: char) -> Option<char> {
    if alphabetic(c) && char_lower_of(c).len() > 0 {
        Some(char_lower_of(c)[0])
    } else {
        None
    }
}

/// The histogram key of each character of `s`.
pub open spec fn letter_keys(s: Seq<char>) -> Seq<Option<char>> {
    s.map_values(|c: char| histogram_key(c))
}

/// How many entries of `keys` are `Some(k)`.
pub open spec fn key_occurrences(keys: Seq<Option<char>>, k: char) -> nat
    decreases keys.len(),
{
    if keys.len() == 0 {
        0
    } else {
        key_occurrences(keys.drop_last(), k) + if keys.last() == Some(k) {
            1nat
        } else {
            0nat
        }
    }
}

/// `h` tallies `keys`: one entry for each key that occurs, with the number
/// of its occurrences.
pub open spec fn is_tally(keys: Seq<Option<char>>, h: Seq<(char, usize)>) -> bool {
    &&& forall|a: int, b: int| 0 <= a < b < h.len() ==> h[a].0 != h[b].0
    &&& forall|e: int| 0 <= e < h.len() ==> h[e].1 == key_occurrences(keys, h[e].0)
    &&& forall|k: char| key_occurrences(keys, k) > 0 ==> exists|e: int| 0 <= e < h.len() && h[e].0 == k
    &&& forall|e: int| 0 <= e < h.len() ==> h[e].1 > 0
}

/// `h` is the letter histogram of `s`.
pub open spec fn is_letter_histogram(s: Seq<char>, h: Seq<(char, usize)>) -> bool {
    is_tally(letter_keys(s), h)
}

/// The histogram key of each character of `s`.
pub fn histogram_keys(s: &Vec<char>) -> (r: Vec<Option<char>>)
    ensures
        r@ == letter_keys(s@),
{
    let mut r: Vec<Option<char>> = Vec::new();
    let mut i: usize = 0;
    while i < s.len()
        invariant
            i <= s.len(),
            r@ == letter_keys(s@.take(i as int)),
        decreases s.len() - i,
    {
        let c = s[i];
        let mut key: Option<char> = None;
        if is_alpha(c) {
            let lc = lower_char(c);
            if lc.as_str().unicode_len() > 0 {
                key = Some(lc.as_str().get_char(0));
            }
        }
        r.push(key);
        assert(r@ =~= letter_keys(s@.take(i + 1)));
        i = i + 1;
    }
    assert(s@.take(s.len() as int) =~= s@);
    r
}

/// The tally of `keys`, its entries in the order of first occurrence.
#[verifier::loop_isolation(false)]
pub fn tally(keys: &Vec<Option<char>>) -> (h: Vec<(char, usize)>)
    ensures
        is_tally(keys@, h@),
{
    let mut h: Vec<(char, usize)> = Vec::new();
    let mut i: usize = 0;
    while i < keys.len()
        invariant
            i <= keys.len(),
            forall|a: int, b: int| 0 <= a < b < h.len() ==> h[a].0 != h[b].0,
            forall|e: int| 0 <= e < h.len() ==> h[e].1 == key_occurrences(keys@.take(i as int), #[trigger] h[e].0),
            forall|k: char| key_occurrences(keys@.take(i as int), k) > 0 ==> exists|e: int| 0 <= e < h.len() && #[trigger] h[e].0 == k,
            forall|e: int| 0 <= e < h.len() ==> 1 <= #[trigger] h[e].1 <= i,
        decreases keys.len() - i,
    {
        let ghost prev = keys@.take(i as int);
        let ghost next = keys@.take(i + 1);
        assert(next.drop_last() =~= prev);
        let ghost hk = keys@[i as int];
        assert(forall|k: char| #[trigger] key_occurrences(next, k) == key_occurrences(prev, k) + if hk == Some(k) { 1nat } else { 0nat });
        let ghost old_h = h@;
        let ghost mut slot: int = 0;
        if let Some(key) = keys[i] {
            let mut e: usize = 0;
            while e < h.len()
                invariant
                    e <= h.len(),
                    forall|m: int| 0 <= m < e ==> h[m].0 != key,
                decreases h.len() - e,
            {
                if h[e].0 == key {
                    break;
                }
                e = e + 1;
            }
            if e < h.len() {
                let n = h[e].1;
                h.set(e, (key, n + 1));
                proof {
                    slot = e as int;
                }
            } else {
                h.push((key, 1));
                proof {
                    slot = h.len() - 1;
                }
            }
        }
        assert forall|k: char| key_occurrences(next, k) > 0 implies exists|e: int| 0 <= e < h.len() && #[trigger] h[e].0 == k by {
            if key_occurrences(prev, k) > 0 {
                let e2 = choose|e2: int| 0 <= e2 < old_h.len() && #[trigger] old_h[e2].0 == k;
                assert(h[e2].0 == k);
            } else {
                assert(h[slot].0 == k);
            }
        }
        i = i + 1;
    }
    assert(keys@.take(keys.len() as int) =~= keys@);
    h
}

/// The letter histogram of `s`: for each alphabetic character, the first
/// character of its lowercase mapping is counted.
pub fn letter_histogram(s: &Vec<char>) -> (h: Vec<(char, usize)>)
    ensures
        is_letter_histogram(s@, h@),
{
    let keys = histogram_keys(s);
    tally(&keys)
}

} // verus!

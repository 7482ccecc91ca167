use vstd::prelude::*;

verus! {

/// The words of a text as `str::split_whitespace` cuts them.
pub uninterp spec fn whitespace_words(text: Seq<char>) -> Seq<Seq<char>>;

/// Relies on `str::split_whitespace`: the words of `text`, in order; a text
/// that is empty yields none.
#[verifier::external_body]
fn split_words(text: &str) -> (r: Vec<String>)
    ensures
        r@.map_values(|w: String| w@) == whitespace_words(text@),
        text@.len() == 0 ==> r@.len() == 0,
{
    text.split_whitespace().map(|w| w.to_string()).collect()
}

/// How many times `w` occurs in `words`.
pub open spec fn occurrences(words: Seq<Seq<char>>, w: Seq<char>) -> nat
    decreases words.len(),
{
    if words.len() == 0 {
        0
    } else {
        occurrences(words.drop_last(), w) + if words.last() == w {
            1nat
        } else {
            0nat
        }
    }
}

/// `(word, count)` names the most frequent word of `words` and its count;
/// among equally frequent words, the one that occurs first. An empty list
/// gives the empty word and zero.
pub open spec fn is_most_frequent(words: Seq<Seq<char>>, word: Seq<char>, count: nat) -> bool {
    if words.len() == 0 {
        word.len() == 0 && count == 0
    } else {
        exists|j: int|
            0 <= j < words.len() && word == words[j] && count == occurrences(words, words[j])
                && (forall|k: int| 0 <= k < words.len() ==> occurrences(words, #[trigger] words[k]) <= count)
                && (forall|k: int| 0 <= k < j ==> occurrences(words, #[trigger] words[k]) < count)
    }
}

proof fn lemma_occurrences_positive(words: Seq<Seq<char>>, j: int)
    requires
        0 <= j < words.len(),
    ensures
        occurrences(words, words[j]) >= 1,
    decreases words.len(),
{
    if j < words.len() - 1 {
        lemma_occurrences_positive(words.drop_last(), j);
        assert(words.drop_last()[j] == words[j]);
    }
}

fn count_word(words: &Vec<String>, w: &String) -> (c: usize)
    ensures
        c == occurrences(words@.map_values(|s: String| s@), w@),
{
    let ghost ws = words@.map_values(|s: String| s@);
    let n = words.len();
    let mut c: usize = 0;
    let mut i: usize = 0;
    while i < n
        invariant
            n == words@.len(),
            ws == words@.map_values(|s: String| s@),
            i <= n,
            c <= i,
            c == occurrences(ws.subrange(0, i as int), w@),
        decreases n - i,
    {
        assert(ws.subrange(0, i + 1).drop_last() =~= ws.subrange(0, i as int));
        if words[i] == *w {
            c = c + 1;
        }
        i = i + 1;
    }
    assert(ws.subrange(0, n as int) =~= ws);
    c
}

/// The most frequent word of a list of words and its count; the first to
/// occur wins a tie.
pub fn most_frequent_in(words: &Vec<String>) -> (r: (String, usize))
    ensures
        is_most_frequent(words@.map_values(|s: String| s@), r.0@, r.1 as nat),
{
    let ghost ws = words@.map_values(|s: String| s@);
    let n = words.len();
    let mut best_word = String::new();
    let mut best_count: usize = 0;
    let ghost mut best_j: int = 0;
    let mut i: usize = 0;
    while i < n
        invariant
            n == words@.len(),
            ws == words@.map_values(|s: String| s@),
            i <= n,
            i == 0 ==> best_word@.len() == 0 && best_count == 0,
            i > 0 ==> 0 <= best_j < i && best_word@ == ws[best_j] && best_count == occurrences(
                ws,
                ws[best_j],
            ),
            forall|k: int| 0 <= k < i ==> occurrences(ws, #[trigger] ws[k]) <= best_count,
            forall|k: int| 0 <= k < best_j ==> occurrences(ws, #[trigger] ws[k]) < best_count,
        decreases n - i,
    {
        let c = count_word(words, &words[i]);
        proof {
            lemma_occurrences_positive(ws, i as int);
        }
        if c > best_count {
            best_count = c;
            best_word = words[i].clone();
            proof {
                best_j = i as int;
            }
        }
        i = i + 1;
    }
    (best_word, best_count)
}

/// The most frequent whitespace-separated word of `text` and its count; the
/// first to occur wins a tie, and a text without words gives `("", 0)`.
pub fn most_frequent_word(text: &str) -> (r: (String, usize))
    ensures
        is_most_frequent(whitespace_words(text@), r.0@, r.1 as nat),
{
    let words = split_words(text);
    most_frequent_in(&words)
}

} // verus!

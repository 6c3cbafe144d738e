//! Strings on their way to KenLM: the bytes that may cross the C ABI, and the
//! words of a whitespace-separated sentence.

use vstd::prelude::*;
use crate::error::{first_nul_at, nul_free, KenlmError, NulError};
use vstd::string::StringSliceAdditionalSpecFns;
use vstd::string::StrSliceExecFns;

verus! {

/// The UTF-8 bytes of `text`, ready to become a C string, or the position of
/// the NUL byte that keeps it from becoming one.
pub fn c_string_bytes(text: &str) -> (result: Result<Vec<u8>, KenlmError>)
    ensures
        result matches Ok(bytes) ==> bytes@ == text.spec_bytes() && nul_free(bytes@),
        result matches Err(error) ==> error matches KenlmError::InteriorNul(e) && e@.bytes
            == text.spec_bytes() && first_nul_at(text.spec_bytes(), e@.position as int),
        result is Ok <==> nul_free(text.spec_bytes()),
{
    match NulError::check(vstd::slice::slice_to_vec(text.as_bytes())) {
        Ok(bytes) => Ok(bytes),
        Err(e) => Err(KenlmError::InteriorNul(e)),
    }
}

/// Whitespace as Unicode's White_Space property defines it.
pub open spec fn is_white_space(c: char) -> bool {
    ||| '\u{9}' <= c <= '\u{d}'
    ||| c == ' '
    ||| c == '\u{85}'
    ||| c == '\u{a0}'
    ||| c == '\u{1680}'
    ||| '\u{2000}' <= c <= '\u{200a}'
    ||| c == '\u{2028}'
    ||| c == '\u{2029}'
    ||| c == '\u{202f}'
    ||| c == '\u{205f}'
    ||| c == '\u{3000}'
}

/// Whether `c` is whitespace, in the sense of Unicode's White_Space property
/// (the sense of `char::is_whitespace`).
pub fn is_whitespace(c: char) -> (b: bool)
    ensures
        b == is_white_space(c),
{
    ('\u{9}' <= c && c <= '\u{d}') || c == ' ' || c == '\u{85}' || c == '\u{a0}' || c
        == '\u{1680}' || ('\u{2000}' <= c && c <= '\u{200a}') || c == '\u{2028}' || c
        == '\u{2029}' || c == '\u{202f}' || c == '\u{205f}' || c == '\u{3000}'
}

/// Reading `s` from the left: the words already closed, and the word being read.
pub open spec fn scan_words(s: Seq<char>) -> (Seq<Seq<char>>, Seq<char>)
    decreases s.len(),
{
    if s.len() == 0 {
        (Seq::empty(), Seq::empty())
    } else {
        let (done, current) = scan_words(s.drop_last());
        if is_white_space(s.last()) {
            if current.len() > 0 {
                (done.push(current), Seq::empty())
            } else {
                (done, current)
            }
        } else {
            (done, current.push(s.last()))
        }
    }
}

/// The maximal runs of non-whitespace characters of `s`, in order.
pub open spec fn words_of(s: Seq<char>) -> Seq<Seq<char>> {
    let (done, current) = scan_words(s);
    if current.len() > 0 {
        done.push(current)
    } else {
        done
    }
}

/// The words of a sentence, as its strings.
pub open spec fn word_views(words: Seq<String>) -> Seq<Seq<char>> {
    words.map_values(|w: String| w@)
}

/// `w` is a word: some characters, none of them whitespace.
pub open spec fn is_word(w: Seq<char>) -> bool {
    &&& w.len() > 0
    &&& forall|j: int| 0 <= j < w.len() ==> !is_white_space(#[trigger] w[j])
}

/// The characters of `s` that are not whitespace, in order.
pub open spec fn non_white(s: Seq<char>) -> Seq<char> {
    s.filter(|c: char| !is_white_space(c))
}

proof fn lemma_scan_shape(s: Seq<char>)
    ensures
        forall|i: int| 0 <= i < scan_words(s).0.len() ==> is_word(#[trigger] scan_words(s).0[i]),
        forall|j: int|
            0 <= j < scan_words(s).1.len() ==> !is_white_space(#[trigger] scan_words(s).1[j]),
        scan_words(s).0.flatten() + scan_words(s).1 == non_white(s),
    decreases s.len(),
{
    broadcast use Seq::lemma_flatten_push, Seq::lemma_filter_push;

    if s.len() == 0 {
        assert(non_white(s) =~= Seq::<char>::empty()) by {
            reveal(Seq::filter);
        }
        assert(scan_words(s).0.flatten() =~= Seq::<char>::empty());
    } else {
        let prefix = s.drop_last();
        lemma_scan_shape(prefix);
        let (done, current) = scan_words(prefix);
        let c = s.last();
        assert(prefix.push(c) =~= s);
        if is_white_space(c) {
            if current.len() > 0 {
                assert(done.push(current).flatten() + Seq::<char>::empty() =~= done.flatten()
                    + current);
            }
        } else {
            assert(done.flatten() + current.push(c) =~= (done.flatten() + current).push(c));
        }
    }
}

/// Every word of a sentence is nonempty and holds no whitespace.
pub proof fn lemma_words_are_words(s: Seq<char>)
    ensures
        forall|i: int| 0 <= i < words_of(s).len() ==> is_word(#[trigger] words_of(s)[i]),
{
    lemma_scan_shape(s);
}

/// The words of a sentence, put back together, are the sentence without its whitespace.
pub proof fn lemma_words_keep_all_other_characters(s: Seq<char>)
    ensures
        words_of(s).flatten() == non_white(s),
{
    broadcast use Seq::lemma_flatten_push;

    lemma_scan_shape(s);
}

/// `s[a..b)` is a maximal run of non-whitespace characters of `s`: it is
/// nonempty, holds no whitespace, and is preceded by whitespace or the start
/// of `s` and followed by whitespace or the end of `s`.
pub open spec fn is_run(s: Seq<char>, a: int, b: int) -> bool {
    &&& 0 <= a < b <= s.len()
    &&& a == 0 || is_white_space(s[a - 1])
    &&& b == s.len() || is_white_space(s[b])
    &&& forall|k: int| a <= k < b ==> !is_white_space(#[trigger] s[k])
}

/// What reading `s` from the left has found so far, located in `s`: the
/// closed words at `bounds`, each followed by whitespace, and the word being
/// read at the end of `s`.
spec fn scan_located(s: Seq<char>, bounds: Seq<(int, int)>) -> bool {
    let (done, current) = scan_words(s);
    let st = s.len() - current.len();
    &&& bounds.len() == done.len()
    &&& forall|i: int|
        0 <= i < bounds.len() ==> {
            &&& 0 <= (#[trigger] bounds[i]).0 < bounds[i].1 < s.len()
            &&& is_run(s, bounds[i].0, bounds[i].1)
            &&& done[i] == s.subrange(bounds[i].0, bounds[i].1)
        }
    &&& forall|i: int, j: int|
        0 <= i < j < bounds.len() ==> (#[trigger] bounds[i]).1 < (#[trigger] bounds[j]).0
    &&& 0 <= st <= s.len()
    &&& current == s.subrange(st, s.len() as int)
    &&& forall|k: int| st <= k < s.len() ==> !is_white_space(#[trigger] s[k])
    &&& current.len() > 0 ==> (st == 0 || is_white_space(s[st - 1]))
    &&& current.len() > 0 ==> forall|i: int| 0 <= i < bounds.len() ==> (#[trigger] bounds[i]).1 < st
    &&& current.len() == 0 && s.len() > 0 ==> is_white_space(s.last())
    &&& forall|k: int|
        0 <= k < st && !is_white_space(#[trigger] s[k]) ==> exists|i: int|
            0 <= i < bounds.len() && (#[trigger] bounds[i]).0 <= k < bounds[i].1
}

proof fn lemma_scan_located(s: Seq<char>) -> (bounds: Seq<(int, int)>)
    ensures
        scan_located(s, bounds),
    decreases s.len(),
{
    if s.len() == 0 {
        let bounds = Seq::<(int, int)>::empty();
        assert(scan_words(s).1 =~= s.subrange(0, 0));
        bounds
    } else {
        let p = s.drop_last();
        let c = s.last();
        let pb = lemma_scan_located(p);
        let (done, current) = scan_words(p);
        let pst = p.len() - current.len();
        assert(forall|k: int| 0 <= k < p.len() ==> p[k] == s[k]);
        assert(forall|a: int, b: int|
            0 <= a <= b <= p.len() ==> #[trigger] p.subrange(a, b) =~= s.subrange(a, b));
        if is_white_space(c) {
            if current.len() > 0 {
                let bounds = pb.push((pst, p.len() as int));
                assert(is_run(s, pst, p.len() as int));
                assert(done.push(current)[done.len() as int] == current);
                assert forall|k: int|
                    0 <= k < s.len() && !is_white_space(#[trigger] s[k]) implies exists|i: int|
                    0 <= i < bounds.len() && (#[trigger] bounds[i]).0 <= k < bounds[i].1 by {
                    if k >= pst {
                        assert(bounds[pb.len() as int].0 <= k < bounds[pb.len() as int].1);
                    } else {
                        let i = choose|i: int| 0 <= i < pb.len() && (#[trigger] pb[i]).0 <= k < pb[i].1;
                        assert(bounds[i] == pb[i]);
                    }
                }
                assert(s.subrange(s.len() as int, s.len() as int) =~= Seq::<char>::empty());
                bounds
            } else {
                assert(s.subrange(s.len() as int, s.len() as int) =~= Seq::<char>::empty());
                assert forall|k: int|
                    0 <= k < s.len() && !is_white_space(#[trigger] s[k]) implies exists|i: int|
                    0 <= i < pb.len() && (#[trigger] pb[i]).0 <= k < pb[i].1 by {
                    assert(k < p.len());
                    assert(!is_white_space(p[k]));
                }
                assert(current =~= s.subrange(s.len() as int, s.len() as int));
                pb
            }
        } else {
            let st = if current.len() > 0 {
                pst
            } else {
                p.len() as int
            };
            assert(current.push(c) =~= s.subrange(st, s.len() as int));
            pb
        }
    }
}

/// The words of a sentence are exactly its maximal runs of non-whitespace
/// characters, in order: each word is such a run `s[a..b)`, the runs of
/// consecutive words do not overlap and come in the order of the sentence, and
/// every character that is not whitespace lies in the run of some word.
pub proof fn lemma_words_are_maximal_runs(s: Seq<char>) -> (bounds: Seq<(int, int)>)
    ensures
        bounds.len() == words_of(s).len(),
        forall|i: int|
            0 <= i < bounds.len() ==> is_run(s, (#[trigger] bounds[i]).0, bounds[i].1)
                && words_of(s)[i] == s.subrange(bounds[i].0, bounds[i].1),
        forall|i: int, j: int|
            0 <= i < j < bounds.len() ==> (#[trigger] bounds[i]).1 < (#[trigger] bounds[j]).0,
        forall|k: int|
            0 <= k < s.len() && !is_white_space(#[trigger] s[k]) ==> exists|i: int|
                0 <= i < bounds.len() && (#[trigger] bounds[i]).0 <= k < bounds[i].1,
{
    let pb = lemma_scan_located(s);
    let (done, current) = scan_words(s);
    let st = s.len() - current.len();
    if current.len() > 0 {
        let bounds = pb.push((st, s.len() as int));
        assert(done.push(current)[done.len() as int] == current);
        assert forall|k: int|
            0 <= k < s.len() && !is_white_space(#[trigger] s[k]) implies exists|i: int|
            0 <= i < bounds.len() && (#[trigger] bounds[i]).0 <= k < bounds[i].1 by {
            if k >= st {
                assert(bounds[pb.len() as int].0 <= k < bounds[pb.len() as int].1);
            } else {
                let i = choose|i: int| 0 <= i < pb.len() && (#[trigger] pb[i]).0 <= k < pb[i].1;
                assert(bounds[i] == pb[i]);
            }
        }
        bounds
    } else {
        pb
    }
}

/// Split a sentence into its whitespace-separated words.
pub fn split_words(sentence: &str) -> (words: Vec<String>)
    ensures
        word_views(words@) == words_of(sentence@),
{
    broadcast use vstd::string::group_string_axioms;

    let n = sentence.unicode_len();
    let mut words: Vec<String> = Vec::new();
    let mut start: usize = 0;
    let mut in_word = false;
    let mut i: usize = 0;
    for c in iter: sentence.chars()
        invariant
            n == sentence@.len(),
            iter.seq() == sentence@,
            i == iter.index(),
            start <= i <= n,
            word_views(words@) == scan_words(sentence@.take(i as int)).0,
            in_word <==> scan_words(sentence@.take(i as int)).1.len() > 0,
            in_word ==> scan_words(sentence@.take(i as int)).1 == sentence@.subrange(
                start as int,
                i as int,
            ),
    {
        let ghost prefix = sentence@.take(i as int);
        let ghost next = sentence@.take(i + 1);
        assert(next.drop_last() =~= prefix);
        assert(next.last() == c);
        if is_whitespace(c) {
            if in_word {
                let word = sentence.substring_char(start, i).to_owned();
                words.push(word);
                in_word = false;
                assert(word_views(words@) =~= word_views(words@.drop_last()).push(word@));
            }
        } else {
            if !in_word {
                start = i;
                in_word = true;
            }
            assert(sentence@.subrange(start as int, i + 1) =~= scan_words(prefix).1.push(c)) by {
                if scan_words(prefix).1.len() == 0 {
                    assert(start == i);
                }
            }
        }
        i = i + 1;
    }
    assert(sentence@.take(i as int) =~= sentence@);
    if in_word {
        let word = sentence.substring_char(start, i).to_owned();
        words.push(word);
        assert(word_views(words@) =~= word_views(words@.drop_last()).push(word@));
    }
    words
}

} // verus!

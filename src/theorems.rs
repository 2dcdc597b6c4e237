//! Facts about the parsed game that hold for every input text.

use vstd::prelude::*;
use crate::extract::{pgn_model, text_of};
use crate::grammar::{
    game_tree, lemma_pair_at, lemma_pairs_from, lemma_tag_at, lemma_tags_from, number_at, pair_at,
    pairs_from, quoted_at, result_at, tag_at, tags_from, word_at,
};
use crate::lexer::{is_digit, is_space, lemma_run_end, skip_space, CharClass};

verus! {

/// A move number as written: one or more digits and a full stop.
pub open spec fn is_move_number(t: Seq<char>) -> bool {
    &&& t.len() >= 2
    &&& t[t.len() - 1] == '.'
    &&& forall|k: int| 0 <= k < t.len() - 1 ==> is_digit(#[trigger] t[k])
}

/// One of the four result tokens.
pub open spec fn is_result_token(t: Seq<char>) -> bool {
    ||| t == seq!['1', '-', '0']
    ||| t == seq!['0', '-', '1']
    ||| t == seq!['1', '/', '2', '-', '1', '/', '2']
    ||| t == seq!['*']
}

proof fn lemma_pair_number(s: Seq<char>, j: int)
    requires
        0 <= j <= s.len(),
        s.len() <= usize::MAX,
    ensures
        pair_at(s, j) matches Ok((p, _)) ==> is_move_number(text_of(s, p.number)),
{
    lemma_run_end(s, j, CharClass::Digit);
    if let Some(n) = number_at(s, j) {
        let t = s.subrange(j, n);
        assert forall|k: int| 0 <= k < t.len() - 1 implies is_digit(#[trigger] t[k]) by {
            assert(t[k] == s[j + k]);
        }
    }
}

proof fn lemma_pair_numbers(s: Seq<char>, i: int)
    requires
        0 <= i <= s.len(),
        s.len() <= usize::MAX,
    ensures
        pairs_from(s, i) matches Ok((ps, _)) ==> forall|k: int|
            0 <= k < ps.len() ==> is_move_number(text_of(s, #[trigger] ps[k].number)),
    decreases s.len() - i,
{
    lemma_run_end(s, i, CharClass::Space);
    let j = skip_space(s, i);
    lemma_pair_at(s, j);
    lemma_pair_number(s, j);
    if number_at(s, j) is Some {
        if let Ok((p, e)) = pair_at(s, j) {
            lemma_pair_numbers(s, e);
            if let Ok((ps, _)) = pairs_from(s, e) {
                let all = seq![p] + ps;
                assert forall|k: int| 0 <= k < all.len() implies is_move_number(
                    text_of(s, #[trigger] all[k].number),
                ) by {
                    if k > 0 {
                        assert(all[k] == ps[k - 1]);
                    }
                }
            }
        }
    }
}

/// A text that matches the grammar parses, and yields exactly one move pair
/// for each move number token that the grammar found in it.
pub proof fn move_pairs_match_move_numbers(s: Seq<char>)
    requires
        s.len() <= usize::MAX,
        game_tree(s) is Ok,
    ensures
        pgn_model(s) is Ok,
        pgn_model(s)->Ok_0.moves.len() == game_tree(s)->Ok_0.pairs.len(),
        forall|k: int|
            0 <= k < game_tree(s)->Ok_0.pairs.len() ==> is_move_number(
                text_of(s, #[trigger] game_tree(s)->Ok_0.pairs[k].number),
            ),
{
    lemma_tags_from(s, 0);
    lemma_pair_numbers(s, tags_from(s, 0).1);
}

/// A text parses only when a result token closes it: the result is one of
/// the four tokens, and nothing but blanks follows it.
pub proof fn result_is_canonical(s: Seq<char>)
    requires
        s.len() <= usize::MAX,
    ensures
        pgn_model(s) matches Ok(g) ==> is_result_token(g.result),
        game_tree(s) matches Ok(t) ==> forall|k: int|
            t.result.end <= k < s.len() ==> is_space(#[trigger] s[k]),
{
    lemma_tags_from(s, 0);
    let t0 = tags_from(s, 0).1;
    lemma_pairs_from(s, t0);
    if let Ok((_, p)) = pairs_from(s, t0) {
        lemma_run_end(s, p, CharClass::Space);
        let j = skip_space(s, p);
        if let Some(r) = result_at(s, j) {
            lemma_run_end(s, r, CharClass::Space);
        }
    }
}

proof fn lemma_tags_in_order(s: Seq<char>, i: int)
    requires
        0 <= i <= s.len(),
        s.len() <= usize::MAX,
    ensures
        ({
            let (ts, end) = tags_from(s, i);
            &&& forall|k: int|
                0 <= k < ts.len() ==> i <= (#[trigger] ts[k]).key.start && ts[k].key.end
                    < ts[k].value.start && ts[k].value.end < end
            &&& forall|k: int, m: int|
                0 <= k < m < ts.len() ==> #[trigger] ts[k].value.end < #[trigger] ts[m].key.start
        }),
    decreases s.len() - i,
{
    lemma_run_end(s, i, CharClass::Space);
    let j = skip_space(s, i);
    lemma_tag_at(s, j);
    if let Some((t, e)) = tag_at(s, j) {
        lemma_run_end(s, j + 1, CharClass::Space);
        let k0 = skip_space(s, j + 1);
        lemma_run_end(s, k0, CharClass::Word);
        let k1 = word_at(s, k0)->Some_0;
        lemma_run_end(s, k1, CharClass::Space);
        let k2 = skip_space(s, k1);
        lemma_run_end(s, k2 + 1, CharClass::NotQuote);
        let q = quoted_at(s, k2)->Some_0;
        lemma_run_end(s, q + 1, CharClass::Space);
        lemma_tags_in_order(s, e);
        lemma_tags_from(s, e);
        let (rest, end) = tags_from(s, e);
        let ts = seq![t] + rest;
        assert forall|k: int| 0 <= k < ts.len() implies i <= (#[trigger] ts[k]).key.start
            && ts[k].key.end < ts[k].value.start && ts[k].value.end < end by {
            if k > 0 {
                assert(ts[k] == rest[k - 1]);
            }
        }
        assert forall|k: int, m: int| 0 <= k < m < ts.len() implies #[trigger] ts[k].value.end
            < #[trigger] ts[m].key.start by {
            assert(ts[m] == rest[m - 1]);
            if k > 0 {
                assert(ts[k] == rest[k - 1]);
            }
        }
    }
}

/// Tag lines come out in the order in which they stand in the text, each key
/// and value exactly as written; a key that repeats is kept each time.
pub proof fn tags_kept_in_order(s: Seq<char>)
    requires
        s.len() <= usize::MAX,
        game_tree(s) is Ok,
    ensures
        ({
            let t = game_tree(s)->Ok_0;
            let g = pgn_model(s)->Ok_0;
            &&& g.metadata.len() == t.tags.len()
            &&& forall|k: int|
                0 <= k < t.tags.len() ==> #[trigger] g.metadata[k] == (
                    text_of(s, t.tags[k].key),
                    text_of(s, t.tags[k].value),
                )
            &&& forall|k: int, m: int|
                0 <= k < m < t.tags.len() ==> #[trigger] t.tags[k].value.end
                    < #[trigger] t.tags[m].key.start
            &&& forall|k: int|
                0 <= k < t.tags.len() ==> (#[trigger] t.tags[k]).key.end < t.tags[k].value.start
        }),
{
    lemma_tags_in_order(s, 0);
    let t = game_tree(s)->Ok_0;
    let g = pgn_model(s)->Ok_0;
    assert(t.tags == tags_from(s, 0).0);
    assert forall|k: int| 0 <= k < t.tags.len() implies #[trigger] g.metadata[k] == (
        text_of(s, t.tags[k].key),
        text_of(s, t.tags[k].value),
    ) by {}
}

} // verus!

//! The grammar of a game record, as rules over positions in the text.
//!
//! Each rule is a function from a start position to the position where its
//! match ends, in the manner of a parsing expression grammar: options are
//! tried in order, and repetitions take as much as they can.

use vstd::prelude::*;
use crate::lexer::{is_quiet_move, is_san, lemma_run_end, run_end, skip_space, CharClass};

verus! {

/// The rules of the grammar, as named in parse trees and syntax errors.
#[allow(non_camel_case_types)]
#[derive(Clone, Copy, PartialEq, Eq, Structural, Debug)]
pub enum Rule {
    word,
    metadata_block,
    move_comment,
    move_piece_without_capture,
    complete_move,
    move_number,
    move_pair,
    move_list,
    game_result,
    game,
    EOI,
}

/// The characters from `start` up to `end`.
#[derive(Clone, Copy, PartialEq, Eq, Structural, Debug)]
pub struct Span {
    pub start: usize,
    pub end: usize,
}

/// Where the text stopped matching the grammar, as an offset in characters,
/// and the rule that was expected there.
#[derive(Clone, Copy, PartialEq, Eq, Structural, Debug)]
pub struct SyntaxError {
    pub pos: usize,
    pub expected: Rule,
}

/// A tag line: the span of its key and that of its value without the quotes.
#[derive(Clone, Copy, PartialEq, Eq, Structural, Debug)]
pub struct TagNode {
    pub key: Span,
    pub value: Span,
}

/// What may follow the first move of a move pair.
#[derive(Clone, Copy, PartialEq, Eq, Structural, Debug)]
pub enum Item {
    /// A move, as written.
    Notation(Span),
    /// The body of a comment, without its braces.
    Comment(Span),
}

/// A move number, the first move, and what follows it in order.
#[derive(Clone, Debug)]
pub struct MovePairNode {
    pub number: Span,
    pub first: Span,
    pub rest: Vec<Item>,
}

pub struct MovePairView {
    pub number: Span,
    pub first: Span,
    pub rest: Seq<Item>,
}

impl View for MovePairNode {
    type V = MovePairView;

    open spec fn view(&self) -> MovePairView {
        MovePairView { number: self.number, first: self.first, rest: self.rest@ }
    }
}

/// The parse tree of a whole game.
#[derive(Clone, Debug)]
pub struct GameTree {
    pub tags: Vec<TagNode>,
    pub pairs: Vec<MovePairNode>,
    pub result: Span,
}

pub struct GameTreeView {
    pub tags: Seq<TagNode>,
    pub pairs: Seq<MovePairView>,
    pub result: Span,
}

impl View for GameTree {
    type V = GameTreeView;

    open spec fn view(&self) -> GameTreeView {
        GameTreeView {
            tags: self.tags@,
            pairs: self.pairs@.map_values(|p: MovePairNode| p@),
            result: self.result,
        }
    }
}

/// What a syntax error names as expected.
pub open spec fn description(rule: Rule) -> Seq<char> {
    match rule {
        Rule::word => "word"@,
        Rule::metadata_block => "tag line"@,
        Rule::move_comment => "comment"@,
        Rule::move_piece_without_capture => "quiet move"@,
        Rule::complete_move => "move"@,
        Rule::move_number => "move number"@,
        Rule::move_pair => "move pair"@,
        Rule::move_list => "move list"@,
        Rule::game_result => "game result token"@,
        Rule::game => "game"@,
        Rule::EOI => "end of input"@,
    }
}

impl Rule {
    /// A short description of what the rule matches.
    pub fn describe(&self) -> (r: &'static str)
        ensures
            r@ == description(*self),
    {
        match self {
            Rule::word => "word",
            Rule::metadata_block => "tag line",
            Rule::move_comment => "comment",
            Rule::move_piece_without_capture => "quiet move",
            Rule::complete_move => "move",
            Rule::move_number => "move number",
            Rule::move_pair => "move pair",
            Rule::move_list => "move list",
            Rule::game_result => "game result token",
            Rule::game => "game",
            Rule::EOI => "end of input",
        }
    }
}

pub open spec fn span(a: int, b: int) -> Span {
    Span { start: a as usize, end: b as usize }
}

pub open spec fn err(pos: int, expected: Rule) -> SyntaxError {
    SyntaxError { pos: pos as usize, expected }
}

pub open spec fn opt_pos(r: Option<usize>) -> Option<int> {
    match r {
        Some(e) => Some(e as int),
        None => None,
    }
}

/// Whether `lit` stands in `s` at `i`.
pub open spec fn lit_at(s: Seq<char>, i: int, lit: Seq<char>) -> bool {
    0 <= i && i + lit.len() <= s.len() && s.subrange(i, i + lit.len()) == lit
}

/// A bare word: a run of characters that are neither blank nor a quote.
pub open spec fn word_at(s: Seq<char>, i: int) -> Option<int> {
    let e = run_end(s, i, CharClass::Word);
    if e > i {
        Some(e)
    } else {
        None
    }
}

/// A quoted string; the result is the position of its closing quote.
pub open spec fn quoted_at(s: Seq<char>, i: int) -> Option<int> {
    if 0 <= i < s.len() && s[i] == '"' {
        let e = run_end(s, i + 1, CharClass::NotQuote);
        if e < s.len() {
            Some(e)
        } else {
            None
        }
    } else {
        None
    }
}

/// A comment in braces; the result is the position after its closing brace.
pub open spec fn comment_at(s: Seq<char>, i: int) -> Option<int> {
    if 0 <= i < s.len() && s[i] == '{' {
        let e = run_end(s, i + 1, CharClass::NotBrace);
        if e < s.len() {
            Some(e + 1)
        } else {
            None
        }
    } else {
        None
    }
}

/// A move: the run of move characters at `i`, when it is algebraic notation.
pub open spec fn move_at(s: Seq<char>, i: int) -> Option<int> {
    let e = run_end(s, i, CharClass::MoveText);
    if e > i && is_san(s.subrange(i, e)) {
        Some(e)
    } else {
        None
    }
}

/// A quiet move: the run of move characters at `i`, with no capture and no mark.
pub open spec fn quiet_move_at(s: Seq<char>, i: int) -> Option<int> {
    let e = run_end(s, i, CharClass::MoveText);
    if e > i && is_quiet_move(s.subrange(i, e)) {
        Some(e)
    } else {
        None
    }
}

/// A move number: digits and a full stop.
pub open spec fn number_at(s: Seq<char>, i: int) -> Option<int> {
    let e = run_end(s, i, CharClass::Digit);
    if e > i && e < s.len() && s[e] == '.' {
        Some(e + 1)
    } else {
        None
    }
}

/// One of the four result tokens.
pub open spec fn result_at(s: Seq<char>, i: int) -> Option<int> {
    if lit_at(s, i, seq!['1', '-', '0']) || lit_at(s, i, seq!['0', '-', '1']) {
        Some(i + 3)
    } else if lit_at(s, i, seq!['1', '/', '2', '-', '1', '/', '2']) {
        Some(i + 7)
    } else if lit_at(s, i, seq!['*']) {
        Some(i + 1)
    } else {
        None
    }
}

/// A tag line: `[`, a key, a quoted value and `]`, with blanks between.
pub open spec fn tag_at(s: Seq<char>, i: int) -> Option<(TagNode, int)> {
    if 0 <= i < s.len() && s[i] == '[' {
        let k0 = skip_space(s, i + 1);
        match word_at(s, k0) {
            None => None,
            Some(k1) => {
                let k2 = skip_space(s, k1);
                match quoted_at(s, k2) {
                    None => None,
                    Some(q) => {
                        let k3 = skip_space(s, q + 1);
                        if k3 < s.len() && s[k3] == ']' {
                            Some((TagNode { key: span(k0, k1), value: span(k2 + 1, q) }, k3 + 1))
                        } else {
                            None
                        }
                    },
                }
            },
        }
    } else {
        None
    }
}

/// What follows the first move of a pair that ends at `e1`: an optional
/// comment, then an optional second move with an optional comment of its own.
pub open spec fn pair_tail(s: Seq<char>, e1: int) -> (Seq<Item>, int) {
    let j1 = skip_space(s, e1);
    let (items, p) = match comment_at(s, j1) {
        Some(x) => (seq![Item::Comment(span(j1 + 1, x - 1))], x),
        None => (Seq::<Item>::empty(), e1),
    };
    let j2 = skip_space(s, p);
    match move_at(s, j2) {
        None => (items, p),
        Some(e2) => {
            let items2 = items.push(Item::Notation(span(j2, e2)));
            let j3 = skip_space(s, e2);
            match comment_at(s, j3) {
                Some(y) => (items2.push(Item::Comment(span(j3 + 1, y - 1))), y),
                None => (items2, e2),
            }
        },
    }
}

/// A move pair: a move number, a move, and what may follow it.
pub open spec fn pair_at(s: Seq<char>, i: int) -> Result<(MovePairView, int), SyntaxError> {
    match number_at(s, i) {
        None => Err(err(i, Rule::move_number)),
        Some(n) => {
            let a = skip_space(s, n);
            match move_at(s, a) {
                None => Err(err(a, Rule::complete_move)),
                Some(e1) => {
                    let (rest, e) = pair_tail(s, e1);
                    Ok((MovePairView { number: span(i, n), first: span(a, e1), rest }, e))
                },
            }
        },
    }
}

/// Zero or more tag lines, each after optional blanks.
pub open spec fn tags_from(s: Seq<char>, i: int) -> (Seq<TagNode>, int)
    decreases s.len() - i,
    via tags_from_decreases
{
    match tag_at(s, skip_space(s, i)) {
        Some((t, e)) => {
            let (ts, end) = tags_from(s, e);
            (seq![t] + ts, end)
        },
        None => (Seq::<TagNode>::empty(), i),
    }
}

/// Zero or more move pairs, each after optional blanks. A move number that
/// starts a pair which does not match is an error.
pub open spec fn pairs_from(s: Seq<char>, i: int) -> Result<(Seq<MovePairView>, int), SyntaxError>
    decreases s.len() - i,
    via pairs_from_decreases
{
    let j = skip_space(s, i);
    if number_at(s, j) is Some {
        match pair_at(s, j) {
            Err(x) => Err(x),
            Ok((p, e)) => match pairs_from(s, e) {
                Err(x) => Err(x),
                Ok((ps, end)) => Ok((seq![p] + ps, end)),
            },
        }
    } else {
        Ok((Seq::<MovePairView>::empty(), i))
    }
}

/// A whole game: tag lines, move pairs and a result, up to the end of the text.
pub open spec fn game_tree(s: Seq<char>) -> Result<GameTreeView, SyntaxError> {
    let (tags, t) = tags_from(s, 0);
    match pairs_from(s, t) {
        Err(x) => Err(x),
        Ok((pairs, p)) => {
            let j = skip_space(s, p);
            match result_at(s, j) {
                None => Err(err(j, Rule::game_result)),
                Some(r) => {
                    let k = skip_space(s, r);
                    if k == s.len() {
                        Ok(GameTreeView { tags, pairs, result: span(j, r) })
                    } else {
                        Err(err(k, Rule::EOI))
                    }
                },
            }
        },
    }
}

pub open spec fn found(r: Option<int>, rule: Rule) -> Result<int, SyntaxError> {
    match r {
        Some(e) => Ok(e),
        None => Err(err(0, rule)),
    }
}

/// Where a match of `rule` at the start of `s` ends.
pub open spec fn rule_at(s: Seq<char>, rule: Rule) -> Result<int, SyntaxError> {
    match rule {
        Rule::word => found(word_at(s, 0), rule),
        Rule::metadata_block => match tag_at(s, 0) {
            Some((_, e)) => Ok(e),
            None => Err(err(0, rule)),
        },
        Rule::move_comment => found(comment_at(s, 0), rule),
        Rule::move_piece_without_capture => found(quiet_move_at(s, 0), rule),
        Rule::complete_move => found(move_at(s, 0), rule),
        Rule::move_number => found(number_at(s, 0), rule),
        Rule::move_pair => match pair_at(s, 0) {
            Ok((_, e)) => Ok(e),
            Err(x) => Err(x),
        },
        Rule::move_list => match pairs_from(s, 0) {
            Ok((_, e)) => Ok(e),
            Err(x) => Err(x),
        },
        Rule::game_result => found(result_at(s, 0), rule),
        Rule::game => match game_tree(s) {
            Ok(_) => Ok(s.len() as int),
            Err(x) => Err(x),
        },
        Rule::EOI => found(
            if s.len() == 0 {
                Some(0)
            } else {
                None
            },
            rule,
        ),
    }
}

pub open spec fn span_ok(sp: Span, n: int) -> bool {
    sp.start <= sp.end <= n
}

pub open spec fn item_ok(it: Item, n: int) -> bool {
    match it {
        Item::Notation(sp) => span_ok(sp, n),
        Item::Comment(sp) => span_ok(sp, n),
    }
}

pub open spec fn pair_ok(p: MovePairView, n: int) -> bool {
    &&& span_ok(p.number, n)
    &&& span_ok(p.first, n)
    &&& forall|k: int| 0 <= k < p.rest.len() ==> item_ok(#[trigger] p.rest[k], n)
}

pub open spec fn tag_ok(t: TagNode, n: int) -> bool {
    span_ok(t.key, n) && span_ok(t.value, n)
}

/// Every span of the tree lies within a text of length `n`.
pub open spec fn tree_ok(t: GameTreeView, n: int) -> bool {
    &&& forall|k: int| 0 <= k < t.tags.len() ==> tag_ok(#[trigger] t.tags[k], n)
    &&& forall|k: int| 0 <= k < t.pairs.len() ==> pair_ok(#[trigger] t.pairs[k], n)
    &&& span_ok(t.result, n)
}

pub proof fn lemma_comment_at(s: Seq<char>, i: int)
    requires
        0 <= i <= s.len(),
    ensures
        comment_at(s, i) matches Some(x) ==> i + 2 <= x <= s.len(),
{
    if i < s.len() {
        lemma_run_end(s, i + 1, CharClass::NotBrace);
    }
}

pub proof fn lemma_pair_tail(s: Seq<char>, e1: int)
    requires
        0 <= e1 <= s.len(),
    ensures
        e1 <= pair_tail(s, e1).1 <= s.len(),
        s.len() <= usize::MAX ==> forall|k: int|
            0 <= k < pair_tail(s, e1).0.len() ==> item_ok(
                #[trigger] pair_tail(s, e1).0[k],
                s.len() as int,
            ),
{
    let j1 = skip_space(s, e1);
    lemma_run_end(s, e1, CharClass::Space);
    lemma_comment_at(s, j1);
    let p = match comment_at(s, j1) {
        Some(x) => x,
        None => e1,
    };
    let j2 = skip_space(s, p);
    lemma_run_end(s, p, CharClass::Space);
    lemma_run_end(s, j2, CharClass::MoveText);
    if let Some(e2) = move_at(s, j2) {
        lemma_run_end(s, e2, CharClass::Space);
        lemma_comment_at(s, skip_space(s, e2));
    }
}

pub proof fn lemma_pair_at(s: Seq<char>, i: int)
    requires
        0 <= i <= s.len(),
    ensures
        pair_at(s, i) matches Ok((p, e)) ==> i < e <= s.len() && (s.len() <= usize::MAX
            ==> pair_ok(p, s.len() as int)),
        number_at(s, i) is Some ==> i < s.len(),
{
    lemma_run_end(s, i, CharClass::Digit);
    if let Some(n) = number_at(s, i) {
        lemma_run_end(s, n, CharClass::Space);
        let a = skip_space(s, n);
        lemma_run_end(s, a, CharClass::MoveText);
        if let Some(e1) = move_at(s, a) {
            lemma_pair_tail(s, e1);
        }
    }
}

pub proof fn lemma_tag_at(s: Seq<char>, i: int)
    requires
        0 <= i <= s.len(),
    ensures
        tag_at(s, i) matches Some((t, e)) ==> i < e <= s.len() && (s.len() <= usize::MAX
            ==> tag_ok(t, s.len() as int)),
{
    if 0 <= i < s.len() && s[i] == '[' {
        lemma_run_end(s, i + 1, CharClass::Space);
        let k0 = skip_space(s, i + 1);
        lemma_run_end(s, k0, CharClass::Word);
        if let Some(k1) = word_at(s, k0) {
            lemma_run_end(s, k1, CharClass::Space);
            let k2 = skip_space(s, k1);
            if k2 < s.len() {
                lemma_run_end(s, k2 + 1, CharClass::NotQuote);
            }
            if let Some(q) = quoted_at(s, k2) {
                lemma_run_end(s, q + 1, CharClass::Space);
            }
        }
    }
}

#[via_fn]
proof fn tags_from_decreases(s: Seq<char>, i: int) {
    if 0 <= i <= s.len() {
        lemma_run_end(s, i, CharClass::Space);
        lemma_tag_at(s, skip_space(s, i));
    }
}

#[via_fn]
proof fn pairs_from_decreases(s: Seq<char>, i: int) {
    if 0 <= i <= s.len() {
        lemma_run_end(s, i, CharClass::Space);
        lemma_pair_at(s, skip_space(s, i));
    }
}

pub proof fn lemma_tags_from(s: Seq<char>, i: int)
    requires
        0 <= i <= s.len(),
        s.len() <= usize::MAX,
    ensures
        i <= tags_from(s, i).1 <= s.len(),
        forall|k: int|
            0 <= k < tags_from(s, i).0.len() ==> tag_ok(
                #[trigger] tags_from(s, i).0[k],
                s.len() as int,
            ),
    decreases s.len() - i,
{
    lemma_run_end(s, i, CharClass::Space);
    lemma_tag_at(s, skip_space(s, i));
    if let Some((t, e)) = tag_at(s, skip_space(s, i)) {
        lemma_tags_from(s, e);
        let ts = tags_from(s, e).0;
        assert forall|k: int| 0 <= k < tags_from(s, i).0.len() implies tag_ok(
            #[trigger] tags_from(s, i).0[k],
            s.len() as int,
        ) by {
            if k > 0 {
                assert(tags_from(s, i).0[k] == ts[k - 1]);
            }
        }
    }
}

pub proof fn lemma_pairs_from(s: Seq<char>, i: int)
    requires
        0 <= i <= s.len(),
        s.len() <= usize::MAX,
    ensures
        pairs_from(s, i) matches Ok((ps, e)) ==> i <= e <= s.len() && forall|k: int|
            0 <= k < ps.len() ==> pair_ok(#[trigger] ps[k], s.len() as int),
    decreases s.len() - i,
{
    lemma_run_end(s, i, CharClass::Space);
    let j = skip_space(s, i);
    lemma_pair_at(s, j);
    if number_at(s, j) is Some {
        if let Ok((p, e)) = pair_at(s, j) {
            lemma_pairs_from(s, e);
            if let Ok((ps, end)) = pairs_from(s, e) {
                let all = seq![p] + ps;
                assert forall|k: int| 0 <= k < all.len() implies pair_ok(
                    #[trigger] all[k],
                    s.len() as int,
                ) by {
                    if k > 0 {
                        assert(all[k] == ps[k - 1]);
                    }
                }
            }
        }
    }
}

/// The spans of a parsed game lie within its text.
pub proof fn lemma_game_tree(s: Seq<char>)
    requires
        s.len() <= usize::MAX,
    ensures
        game_tree(s) matches Ok(t) ==> tree_ok(t, s.len() as int),
{
    lemma_tags_from(s, 0);
    let t = tags_from(s, 0).1;
    lemma_pairs_from(s, t);
    if let Ok((_, p)) = pairs_from(s, t) {
        lemma_run_end(s, p, CharClass::Space);
    }
}

} // verus!

//! From a parse tree to a parsed game.

use vstd::prelude::*;
use crate::grammar::{
    game_tree, item_ok, lemma_game_tree, pair_ok, span_ok, tag_ok, tree_ok, GameTree, GameTreeView,
    Item, MovePairNode, MovePairView, Span, SyntaxError, TagNode,
};
use crate::model::{opt_chars, pair_chars, tag_chars, GameView, Move, MoveView, ParsedGame};
use crate::parser::parse_game;
use crate::text::{chars_of, substring};

verus! {

/// What the items after a first move have been read as so far.
#[derive(Clone, Copy, PartialEq, Eq, Structural, Debug)]
pub struct Slots {
    pub first_comment: Option<Span>,
    pub second: Option<Span>,
    pub second_comment: Option<Span>,
}

/// Reads one more item: a move is the second move; a comment belongs to the
/// first move until a second move has been read, and to the second after.
pub open spec fn absorb(st: Slots, it: Item) -> Slots {
    match it {
        Item::Notation(n) => Slots { second: Some(n), ..st },
        Item::Comment(c) => if st.second is None {
            Slots { first_comment: Some(c), ..st }
        } else {
            Slots { second_comment: Some(c), ..st }
        },
    }
}

/// The slots after the first `n` items have been read.
pub open spec fn slots_after(items: Seq<Item>, n: int) -> Slots
    decreases n,
{
    if n <= 0 {
        Slots { first_comment: None, second: None, second_comment: None }
    } else {
        absorb(slots_after(items, n - 1), items[n - 1])
    }
}

/// A move pair holds at most three items after its first move.
pub open spec fn slots_of(items: Seq<Item>) -> Slots {
    slots_after(items, if items.len() < 3 { items.len() as int } else { 3 })
}

pub open spec fn text_of(s: Seq<char>, sp: Span) -> Seq<char> {
    s.subrange(sp.start as int, sp.end as int)
}

pub open spec fn opt_text(s: Seq<char>, o: Option<Span>) -> Option<Seq<char>> {
    match o {
        Some(sp) => Some(text_of(s, sp)),
        None => None,
    }
}

/// The white and black moves of a move pair.
pub open spec fn pair_model(s: Seq<char>, p: MovePairView) -> (MoveView, Option<MoveView>) {
    let st = slots_of(p.rest);
    let white = MoveView { notation: text_of(s, p.first), comment: opt_text(s, st.first_comment) };
    match st.second {
        Some(n) => (
            white,
            Some(MoveView { notation: text_of(s, n), comment: opt_text(s, st.second_comment) }),
        ),
        None => (white, None),
    }
}

/// The game that a parse tree of `s` describes.
pub open spec fn game_model(s: Seq<char>, t: GameTreeView) -> GameView {
    GameView {
        metadata: t.tags.map_values(|tg: TagNode| (text_of(s, tg.key), text_of(s, tg.value))),
        moves: t.pairs.map_values(|p: MovePairView| pair_model(s, p)),
        result: text_of(s, t.result),
    }
}

/// The game that `s` holds, or the syntax error that stops it.
pub open spec fn pgn_model(s: Seq<char>) -> Result<GameView, SyntaxError> {
    match game_tree(s) {
        Ok(t) => Ok(game_model(s, t)),
        Err(x) => Err(x),
    }
}

pub open spec fn parsed_view(r: Result<ParsedGame, SyntaxError>) -> Result<GameView, SyntaxError> {
    match r {
        Ok(g) => Ok(g@),
        Err(x) => Err(x),
    }
}

fn read_item(st: Slots, it: Item) -> (r: Slots)
    ensures
        r == absorb(st, it),
{
    match it {
        Item::Notation(n) => Slots { second: Some(n), ..st },
        Item::Comment(c) => if st.second.is_none() {
            Slots { first_comment: Some(c), ..st }
        } else {
            Slots { second_comment: Some(c), ..st }
        },
    }
}

fn text_in(s: &Vec<char>, sp: Span) -> (r: String)
    requires
        span_ok(sp, s.len() as int),
    ensures
        r@ == text_of(s@, sp),
{
    substring(s, sp.start, sp.end)
}

fn opt_text_in(s: &Vec<char>, o: Option<Span>) -> (r: Option<String>)
    requires
        o matches Some(sp) ==> span_ok(sp, s.len() as int),
    ensures
        opt_chars(r) == opt_text(s@, o),
{
    match o {
        Some(sp) => Some(text_in(s, sp)),
        None => None,
    }
}

/// The white and black moves of one move pair of the tree.
pub fn extract_pair(s: &Vec<char>, p: &MovePairNode) -> (r: (Move, Option<Move>))
    requires
        pair_ok(p@, s.len() as int),
    ensures
        pair_chars(r) == pair_model(s@, p@),
{
    let n: usize = if p.rest.len() < 3 {
        p.rest.len()
    } else {
        3
    };
    let mut st = Slots { first_comment: None, second: None, second_comment: None };
    let mut k: usize = 0;
    while k < n
        invariant
            k <= n <= p.rest.len(),
            n == if p.rest.len() < 3 { p.rest.len() as int } else { 3 },
            st == slots_after(p.rest@, k as int),
            pair_ok(p@, s.len() as int),
            st.first_comment matches Some(sp) ==> span_ok(sp, s.len() as int),
            st.second matches Some(sp) ==> span_ok(sp, s.len() as int),
            st.second_comment matches Some(sp) ==> span_ok(sp, s.len() as int),
        decreases n - k,
    {
        assert(p@.rest == p.rest@);
        assert(item_ok(p@.rest[k as int], s.len() as int));
        st = read_item(st, p.rest[k]);
        k = k + 1;
    }
    let white = Move::new(text_in(s, p.first), opt_text_in(s, st.first_comment));
    match st.second {
        Some(sp) => {
            let black = Move::new(text_in(s, sp), opt_text_in(s, st.second_comment));
            (white, Some(black))
        },
        None => (white, None),
    }
}

/// The white and black moves of each move pair, in order.
pub fn extract_pairs(s: &Vec<char>, pairs: &Vec<MovePairNode>) -> (r: Vec<(Move, Option<Move>)>)
    requires
        forall|k: int| 0 <= k < pairs.len() ==> pair_ok(#[trigger] pairs@[k]@, s.len() as int),
    ensures
        r@.map_values(|p: (Move, Option<Move>)| pair_chars(p)) == pairs@.map_values(
            |p: MovePairNode| pair_model(s@, p@),
        ),
{
    let mut moves: Vec<(Move, Option<Move>)> = Vec::new();
    for k in 0..pairs.len()
        invariant
            forall|m: int| 0 <= m < pairs.len() ==> pair_ok(#[trigger] pairs@[m]@, s.len() as int),
            moves.len() == k,
            forall|m: int|
                0 <= m < k ==> pair_chars(#[trigger] moves@[m]) == pair_model(s@, pairs@[m]@),
    {
        assert(pair_ok(pairs@[k as int]@, s.len() as int));
        moves.push(extract_pair(s, &pairs[k]));
    }
    assert(moves@.map_values(|p: (Move, Option<Move>)| pair_chars(p)) =~= pairs@.map_values(
        |p: MovePairNode| pair_model(s@, p@),
    ));
    moves
}

/// The game that a parse tree of `s` describes.
pub fn extract_game(s: &Vec<char>, tree: &GameTree) -> (r: ParsedGame)
    requires
        tree_ok(tree@, s.len() as int),
    ensures
        r@ == game_model(s@, tree@),
{
    let ghost model = game_model(s@, tree@);
    let mut metadata: Vec<(String, String)> = Vec::new();
    for k in 0..tree.tags.len()
        invariant
            tree_ok(tree@, s.len() as int),
            model == game_model(s@, tree@),
            metadata.len() == k,
            forall|m: int| 0 <= m < k ==> tag_chars(#[trigger] metadata@[m]) == model.metadata[m],
    {
        let tg = tree.tags[k];
        assert(tag_ok(tree@.tags[k as int], s.len() as int));
        metadata.push((text_in(s, tg.key), text_in(s, tg.value)));
    }
    assert forall|k: int| 0 <= k < tree.pairs.len() implies pair_ok(
        #[trigger] tree.pairs@[k]@,
        s.len() as int,
    ) by {
        assert(tree@.pairs[k] == tree.pairs@[k]@);
    }
    let moves = extract_pairs(s, &tree.pairs);
    let game_result = text_in(s, tree.result);
    let r = ParsedGame { metadata, moves, game_result };
    assert(r@.metadata =~= model.metadata);
    assert(r@.moves =~= model.moves);
    r
}

/// Parses the text of one game.
pub fn parse_pgn(to_parse: &str) -> (r: Result<ParsedGame, SyntaxError>)
    ensures
        parsed_view(r) == pgn_model(to_parse@),
{
    let s = chars_of(to_parse);
    proof {
        lemma_game_tree(s@);
    }
    match parse_game(&s) {
        Ok(tree) => Ok(extract_game(&s, &tree)),
        Err(x) => Err(x),
    }
}

} // verus!

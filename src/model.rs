//! The parsed game: tags, move pairs and the result.

use vstd::prelude::*;
use vstd::string::StringExecFns;
use crate::text::push_char;

verus! {

/// A half-move as written, with the comment that follows it, if any.
#[derive(Clone, Debug)]
pub struct Move {
    piece_move: String,
    comment: Option<String>,
}

pub struct MoveView {
    pub notation: Seq<char>,
    pub comment: Option<Seq<char>>,
}

pub open spec fn opt_chars(o: Option<String>) -> Option<Seq<char>> {
    match o {
        Some(c) => Some(c@),
        None => None,
    }
}

pub open spec fn opt_move(o: Option<Move>) -> Option<MoveView> {
    match o {
        Some(m) => Some(m@),
        None => None,
    }
}

impl View for Move {
    type V = MoveView;

    closed spec fn view(&self) -> MoveView {
        MoveView { notation: self.piece_move@, comment: opt_chars(self.comment) }
    }
}

impl Move {
    pub fn new(piece_move: String, comment: Option<String>) -> (r: Move)
        ensures
            r@ == (MoveView { notation: piece_move@, comment: opt_chars(comment) }),
    {
        Move { piece_move, comment }
    }

    /// The move as written.
    pub fn piece_move(&self) -> (r: &String)
        ensures
            r@ == self@.notation,
    {
        &self.piece_move
    }

    /// The body of the comment after the move, if there is one.
    pub fn comment(&self) -> (r: Option<&String>)
        ensures
            match r {
                Some(c) => self@.comment == Some(c@),
                None => self@.comment is None,
            },
    {
        match &self.comment {
            Some(c) => Some(c),
            None => None,
        }
    }

    /// The move, a blank, and its comment if it has one.
    pub fn to_string(&self) -> (r: String)
        ensures
            r@ == move_text(self@),
    {
        let mut out = self.piece_move.clone();
        out.append(" ");
        if let Some(c) = &self.comment {
            out.append(c.as_str());
        }
        assert(out@ =~= move_text(self@));
        out
    }
}

/// A game: its tags in order, its move pairs in order, and its result.
#[derive(Clone, Debug)]
pub struct ParsedGame {
    pub metadata: Vec<(String, String)>,
    pub moves: Vec<(Move, Option<Move>)>,
    pub game_result: String,
}

pub struct GameView {
    pub metadata: Seq<(Seq<char>, Seq<char>)>,
    pub moves: Seq<(MoveView, Option<MoveView>)>,
    pub result: Seq<char>,
}

pub open spec fn tag_chars(kv: (String, String)) -> (Seq<char>, Seq<char>) {
    (kv.0@, kv.1@)
}

pub open spec fn pair_chars(p: (Move, Option<Move>)) -> (MoveView, Option<MoveView>) {
    (p.0@, opt_move(p.1))
}

impl View for ParsedGame {
    type V = GameView;

    open spec fn view(&self) -> GameView {
        GameView {
            metadata: self.metadata@.map_values(|kv: (String, String)| tag_chars(kv)),
            moves: self.moves@.map_values(|p: (Move, Option<Move>)| pair_chars(p)),
            result: self.game_result@,
        }
    }
}

pub open spec fn move_text(m: MoveView) -> Seq<char> {
    m.notation + " "@ + match m.comment {
        Some(c) => c,
        None => Seq::<char>::empty(),
    }
}

pub open spec fn digit(d: int) -> char {
    seq!['0', '1', '2', '3', '4', '5', '6', '7', '8', '9'][d]
}

/// The decimal digits of `n`.
pub open spec fn decimal(n: nat) -> Seq<char>
    decreases n,
{
    if n < 10 {
        seq![digit(n as int)]
    } else {
        decimal(n / 10).push(digit((n % 10) as int))
    }
}

/// The lines, with a line break between each two.
pub open spec fn joined(lines: Seq<Seq<char>>) -> Seq<char>
    decreases lines.len(),
{
    if lines.len() == 0 {
        Seq::<char>::empty()
    } else if lines.len() == 1 {
        lines[0]
    } else {
        joined(lines.drop_last()) + "\n"@ + lines.last()
    }
}

pub open spec fn tag_line(kv: (Seq<char>, Seq<char>)) -> Seq<char> {
    kv.0 + ": "@ + kv.1
}

/// The lines of the move pair numbered `n`.
pub open spec fn pair_block(n: nat, p: (MoveView, Option<MoveView>)) -> Seq<char> {
    "Move #"@ + decimal(n) + "\nWhite: "@ + move_text(p.0) + " Black: "@ + match p.1 {
        Some(b) => move_text(b),
        None => Seq::<char>::empty(),
    }
}

pub open spec fn tag_lines(g: GameView) -> Seq<Seq<char>> {
    g.metadata.map_values(|kv: (Seq<char>, Seq<char>)| tag_line(kv))
}

pub open spec fn pair_blocks(g: GameView) -> Seq<Seq<char>> {
    Seq::new(g.moves.len(), |k: int| pair_block((k + 1) as nat, g.moves[k]))
}

/// The report of a game: its tags, its numbered move pairs and its result.
pub open spec fn report(g: GameView) -> Seq<char> {
    "Game Metadata\n"@ + joined(tag_lines(g)) + "\n\nList of moves\n"@ + joined(pair_blocks(g))
        + "\n\nGame Result\n"@ + g.result + "\n"@
}

fn push_decimal(out: &mut String, n: usize)
    ensures
        final(out)@ == old(out)@ + decimal(n as nat),
    decreases n,
{
    let digits = vec!['0', '1', '2', '3', '4', '5', '6', '7', '8', '9'];
    assert(digits@ =~= seq!['0', '1', '2', '3', '4', '5', '6', '7', '8', '9']);
    if n >= 10 {
        push_decimal(out, n / 10);
    }
    push_char(out, digits[n % 10]);
    assert(final(out)@ =~= old(out)@ + decimal(n as nat));
}

proof fn lemma_joined_step(lines: Seq<Seq<char>>, k: int)
    requires
        0 <= k < lines.len(),
    ensures
        joined(lines.take(k + 1)) == if k == 0 {
            lines[0]
        } else {
            joined(lines.take(k)) + "\n"@ + lines[k]
        },
{
    assert(lines.take(k + 1).drop_last() =~= lines.take(k));
}

fn push_pair_block(out: &mut String, n: usize, pair: &(Move, Option<Move>))
    ensures
        final(out)@ == old(out)@ + pair_block(n as nat, pair_chars(*pair)),
{
    out.append("Move #");
    push_decimal(out, n);
    out.append("\nWhite: ");
    let w = pair.0.to_string();
    out.append(w.as_str());
    out.append(" Black: ");
    if let Some(b) = &pair.1 {
        let bs = b.to_string();
        out.append(bs.as_str());
    }
    assert(final(out)@ =~= old(out)@ + pair_block(n as nat, pair_chars(*pair)));
}

impl ParsedGame {
    /// The report of the game: its tags, its numbered move pairs and its result.
    pub fn to_string(&self) -> (r: String)
        ensures
            r@ == report(self@),
    {
        let ghost g = self@;
        let mut out = String::new();
        out.append("Game Metadata\n");
        let ghost head = out@;
        for k in 0..self.metadata.len()
            invariant
                g == self@,
                out@ == head + joined(tag_lines(g).take(k as int)),
        {
            proof {
                lemma_joined_step(tag_lines(g), k as int);
            }
            if k > 0 {
                out.append("\n");
            }
            let kv = &self.metadata[k];
            assert(tag_lines(g)[k as int] == tag_line(tag_chars(self.metadata@[k as int])));
            out.append(kv.0.as_str());
            out.append(": ");
            out.append(kv.1.as_str());
            assert(out@ =~= head + joined(tag_lines(g).take(k + 1)));
        }
        assert(tag_lines(g).take(self.metadata.len() as int) =~= tag_lines(g));
        out.append("\n\nList of moves\n");
        let ghost head2 = out@;
        for k in 0..self.moves.len()
            invariant
                g == self@,
                out@ == head2 + joined(pair_blocks(g).take(k as int)),
        {
            proof {
                lemma_joined_step(pair_blocks(g), k as int);
            }
            if k > 0 {
                out.append("\n");
            }
            let pair = &self.moves[k];
            assert(g.moves[k as int] == pair_chars(self.moves@[k as int]));
            push_pair_block(&mut out, k + 1, pair);
            assert(out@ =~= head2 + joined(pair_blocks(g).take(k + 1)));
        }
        assert(pair_blocks(g).take(self.moves.len() as int) =~= pair_blocks(g));
        out.append("\n\nGame Result\n");
        out.append(self.game_result.as_str());
        out.append("\n");
        assert(out@ =~= report(g));
        out
    }
}

} // verus!

//! Character classes and the single-token rules of the grammar.

use vstd::prelude::*;

verus! {

/// A class of characters that a token is made of.
#[derive(Clone, Copy, PartialEq, Eq, Structural)]
pub enum CharClass {
    /// Blanks between tokens.
    Space,
    /// Characters of a bare word: neither blank nor a double quote.
    Word,
    /// Characters that may stand in a move in algebraic notation.
    MoveText,
    /// Decimal digits.
    Digit,
    /// Anything but a double quote.
    NotQuote,
    /// Anything but a closing brace.
    NotBrace,
}

pub open spec fn is_space(c: char) -> bool {
    c == ' ' || c == '\t' || c == '\n' || c == '\r'
}

pub open spec fn is_digit(c: char) -> bool {
    '0' <= c && c <= '9'
}

pub open spec fn in_class(k: CharClass, c: char) -> bool {
    match k {
        CharClass::Space => is_space(c),
        CharClass::Word => !is_space(c) && c != '"',
        CharClass::MoveText => ('a' <= c && c <= 'z') || ('A' <= c && c <= 'Z') || is_digit(c)
            || c == '+' || c == '#' || c == '=' || c == '-',
        CharClass::Digit => is_digit(c),
        CharClass::NotQuote => c != '"',
        CharClass::NotBrace => c != '}',
    }
}

pub fn class_contains(k: CharClass, c: char) -> (r: bool)
    ensures
        r == in_class(k, c),
{
    match k {
        CharClass::Space => c == ' ' || c == '\t' || c == '\n' || c == '\r',
        CharClass::Word => !(c == ' ' || c == '\t' || c == '\n' || c == '\r') && c != '"',
        CharClass::MoveText => ('a' <= c && c <= 'z') || ('A' <= c && c <= 'Z') || ('0' <= c
            && c <= '9') || c == '+' || c == '#' || c == '=' || c == '-',
        CharClass::Digit => '0' <= c && c <= '9',
        CharClass::NotQuote => c != '"',
        CharClass::NotBrace => c != '}',
    }
}

/// The end of the longest run of characters of class `k` that starts at `i`.
pub open spec fn run_end(s: Seq<char>, i: int, k: CharClass) -> int
    decreases s.len() - i,
{
    if 0 <= i < s.len() && in_class(k, s[i]) {
        run_end(s, i + 1, k)
    } else {
        i
    }
}

/// The first position at or after `i` that does not hold a blank.
pub open spec fn skip_space(s: Seq<char>, i: int) -> int {
    run_end(s, i, CharClass::Space)
}

pub proof fn lemma_run_end(s: Seq<char>, i: int, k: CharClass)
    requires
        0 <= i <= s.len(),
    ensures
        i <= run_end(s, i, k) <= s.len(),
        forall|j: int| i <= j < run_end(s, i, k) ==> in_class(k, #[trigger] s[j]),
        run_end(s, i, k) < s.len() ==> !in_class(k, s[run_end(s, i, k)]),
    decreases s.len() - i,
{
    if i < s.len() && in_class(k, s[i]) {
        lemma_run_end(s, i + 1, k);
    }
}

/// Scans the run of characters of class `k` that starts at `i`.
pub fn scan(s: &Vec<char>, i: usize, k: CharClass) -> (r: usize)
    requires
        i <= s.len(),
    ensures
        r == run_end(s@, i as int, k),
        i <= r <= s.len(),
{
    let mut j: usize = i;
    while j < s.len() && class_contains(k, s[j])
        invariant
            i <= j <= s.len(),
            run_end(s@, j as int, k) == run_end(s@, i as int, k),
        decreases s.len() - j,
    {
        j = j + 1;
    }
    j
}

pub open spec fn is_file(c: char) -> bool {
    'a' <= c && c <= 'h'
}

pub open spec fn is_rank(c: char) -> bool {
    '1' <= c && c <= '8'
}

pub open spec fn is_piece(c: char) -> bool {
    c == 'K' || c == 'Q' || c == 'R' || c == 'B' || c == 'N'
}

pub open spec fn is_promotion_piece(c: char) -> bool {
    c == 'Q' || c == 'R' || c == 'B' || c == 'N'
}

/// A board square such as `e4`.
pub open spec fn is_square(t: Seq<char>) -> bool {
    t.len() == 2 && is_file(t[0]) && is_rank(t[1])
}

/// What may tell two pieces apart: nothing, a file, a rank, or a square.
pub open spec fn is_origin_hint(t: Seq<char>) -> bool {
    t.len() == 0 || (t.len() == 1 && (is_file(t[0]) || is_rank(t[0]))) || is_square(t)
}

/// A move of a piece: its letter, a hint of its origin, an optional capture mark
/// and the target square (`Nf3`, `Rae1`, `Nbxd7`, `Q1a2`).
pub open spec fn is_piece_move(t: Seq<char>) -> bool {
    let n = t.len() as int;
    n >= 3 && is_piece(t[0]) && is_square(t.subrange(n - 2, n)) && (is_origin_hint(
        t.subrange(1, n - 2),
    ) || (n >= 4 && t[n - 3] == 'x' && is_origin_hint(t.subrange(1, n - 3))))
}

/// A pawn move without promotion: a square, or a file, `x` and a square.
pub open spec fn is_pawn_step(t: Seq<char>) -> bool {
    is_square(t) || (t.len() == 4 && is_file(t[0]) && t[1] == 'x' && is_square(
        t.subrange(2, 4),
    ))
}

/// A pawn move, with an optional promotion such as `=Q`.
pub open spec fn is_pawn_move(t: Seq<char>) -> bool {
    let n = t.len() as int;
    is_pawn_step(t) || (n >= 2 && t[n - 2] == '=' && is_promotion_piece(t[n - 1])
        && is_pawn_step(t.subrange(0, n - 2)))
}

pub open spec fn is_castling(t: Seq<char>) -> bool {
    t == seq!['O', '-', 'O'] || t == seq!['O', '-', 'O', '-', 'O']
}

/// A move in standard algebraic notation, with an optional check or mate mark.
pub open spec fn is_san_body(t: Seq<char>) -> bool {
    is_castling(t) || is_piece_move(t) || is_pawn_move(t)
}

pub open spec fn is_san(t: Seq<char>) -> bool {
    let n = t.len() as int;
    is_san_body(t) || (n >= 1 && (t[n - 1] == '+' || t[n - 1] == '#') && is_san_body(
        t.subrange(0, n - 1),
    ))
}

/// A quiet move: a piece move or a pawn step, with no capture and no mark.
pub open spec fn is_quiet_move(t: Seq<char>) -> bool {
    let n = t.len() as int;
    is_square(t) || (n >= 3 && is_piece(t[0]) && is_square(t.subrange(n - 2, n))
        && is_origin_hint(t.subrange(1, n - 2)))
}

fn char_is_file(c: char) -> (r: bool)
    ensures
        r == is_file(c),
{
    'a' <= c && c <= 'h'
}

fn char_is_rank(c: char) -> (r: bool)
    ensures
        r == is_rank(c),
{
    '1' <= c && c <= '8'
}

fn char_is_piece(c: char) -> (r: bool)
    ensures
        r == is_piece(c),
{
    c == 'K' || c == 'Q' || c == 'R' || c == 'B' || c == 'N'
}

fn square_in(s: &Vec<char>, a: usize, b: usize) -> (r: bool)
    requires
        a <= b <= s.len(),
    ensures
        r == is_square(s@.subrange(a as int, b as int)),
{
    b - a == 2 && char_is_file(s[a]) && char_is_rank(s[a + 1])
}

fn origin_hint_in(s: &Vec<char>, a: usize, b: usize) -> (r: bool)
    requires
        a <= b <= s.len(),
    ensures
        r == is_origin_hint(s@.subrange(a as int, b as int)),
{
    b == a || (b - a == 1 && (char_is_file(s[a]) || char_is_rank(s[a]))) || square_in(s, a, b)
}

fn piece_move_in(s: &Vec<char>, a: usize, b: usize) -> (r: bool)
    requires
        a <= b <= s.len(),
    ensures
        r == is_piece_move(s@.subrange(a as int, b as int)),
{
    let ghost t = s@.subrange(a as int, b as int);
    if b - a < 3 || !char_is_piece(s[a]) || !square_in(s, b - 2, b) {
        assert(b - a >= 3 ==> t.subrange(t.len() - 2, t.len() as int) =~= s@.subrange(
            b - 2,
            b as int,
        ));
        return false;
    }
    assert(t.subrange(t.len() - 2, t.len() as int) =~= s@.subrange(b - 2, b as int));
    assert(t.subrange(1, t.len() - 2) =~= s@.subrange(a + 1, b - 2));
    if origin_hint_in(s, a + 1, b - 2) {
        return true;
    }
    if b - a >= 4 && s[b - 3] == 'x' {
        assert(t.subrange(1, t.len() - 3) =~= s@.subrange(a + 1, b - 3));
        origin_hint_in(s, a + 1, b - 3)
    } else {
        false
    }
}

fn pawn_step_in(s: &Vec<char>, a: usize, b: usize) -> (r: bool)
    requires
        a <= b <= s.len(),
    ensures
        r == is_pawn_step(s@.subrange(a as int, b as int)),
{
    let ghost t = s@.subrange(a as int, b as int);
    if square_in(s, a, b) {
        return true;
    }
    if b - a == 4 {
        assert(t.subrange(2, 4) =~= s@.subrange(a + 2, b as int));
        char_is_file(s[a]) && s[a + 1] == 'x' && square_in(s, a + 2, b)
    } else {
        false
    }
}

fn pawn_move_in(s: &Vec<char>, a: usize, b: usize) -> (r: bool)
    requires
        a <= b <= s.len(),
    ensures
        r == is_pawn_move(s@.subrange(a as int, b as int)),
{
    let ghost t = s@.subrange(a as int, b as int);
    if pawn_step_in(s, a, b) {
        return true;
    }
    if b - a >= 2 && s[b - 2] == '=' && (s[b - 1] == 'Q' || s[b - 1] == 'R' || s[b - 1] == 'B'
        || s[b - 1] == 'N') {
        assert(t.subrange(0, t.len() - 2) =~= s@.subrange(a as int, b - 2));
        pawn_step_in(s, a, b - 2)
    } else {
        false
    }
}

fn castling_in(s: &Vec<char>, a: usize, b: usize) -> (r: bool)
    requires
        a <= b <= s.len(),
    ensures
        r == is_castling(s@.subrange(a as int, b as int)),
{
    let ghost t = s@.subrange(a as int, b as int);
    let r = (b - a == 3 || b - a == 5) && s[a] == 'O' && s[a + 1] == '-' && s[a + 2] == 'O' && (
    b - a == 3 || (s[a + 3] == '-' && s[a + 4] == 'O'));
    if r {
        if b - a == 3 {
            assert(t =~= seq!['O', '-', 'O']);
        } else {
            assert(t =~= seq!['O', '-', 'O', '-', 'O']);
        }
    } else {
        assert(t == seq!['O', '-', 'O'] ==> t[0] == 'O' && t[1] == '-' && t[2] == 'O');
        assert(t == seq!['O', '-', 'O', '-', 'O'] ==> t[0] == 'O' && t[1] == '-' && t[2] == 'O'
            && t[3] == '-' && t[4] == 'O');
    }
    r
}

fn san_body_in(s: &Vec<char>, a: usize, b: usize) -> (r: bool)
    requires
        a <= b <= s.len(),
    ensures
        r == is_san_body(s@.subrange(a as int, b as int)),
{
    castling_in(s, a, b) || piece_move_in(s, a, b) || pawn_move_in(s, a, b)
}

/// Whether `s[a..b]` is a move in standard algebraic notation.
pub fn san_in(s: &Vec<char>, a: usize, b: usize) -> (r: bool)
    requires
        a <= b <= s.len(),
    ensures
        r == is_san(s@.subrange(a as int, b as int)),
{
    let ghost t = s@.subrange(a as int, b as int);
    if san_body_in(s, a, b) {
        return true;
    }
    if b - a >= 1 && (s[b - 1] == '+' || s[b - 1] == '#') {
        assert(t.subrange(0, t.len() - 1) =~= s@.subrange(a as int, b - 1));
        san_body_in(s, a, b - 1)
    } else {
        false
    }
}

/// Whether `s[a..b]` is a quiet move: no capture, no mark.
pub fn quiet_move_in(s: &Vec<char>, a: usize, b: usize) -> (r: bool)
    requires
        a <= b <= s.len(),
    ensures
        r == is_quiet_move(s@.subrange(a as int, b as int)),
{
    let ghost t = s@.subrange(a as int, b as int);
    if square_in(s, a, b) {
        return true;
    }
    if b - a >= 3 && char_is_piece(s[a]) && square_in(s, b - 2, b) {
        assert(t.subrange(t.len() - 2, t.len() as int) =~= s@.subrange(b - 2, b as int));
        assert(t.subrange(1, t.len() - 2) =~= s@.subrange(a + 1, b - 2));
        origin_hint_in(s, a + 1, b - 2)
    } else {
        assert(b - a >= 3 ==> t.subrange(t.len() - 2, t.len() as int) =~= s@.subrange(
            b - 2,
            b as int,
        ));
        false
    }
}

} // verus!

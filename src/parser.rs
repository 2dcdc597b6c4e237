//! The executable parser: each function matches one rule of the grammar.

use vstd::prelude::*;
use crate::grammar::{
    comment_at, game_tree, lit_at, move_at, number_at, opt_pos, pair_at, pair_tail, pairs_from,
    quiet_move_at, quoted_at, result_at, span, tag_at, tags_from, word_at, GameTree, GameTreeView,
    Item, MovePairNode, MovePairView, Rule, Span, SyntaxError, TagNode,
};
use crate::lexer::{quiet_move_in, san_in, scan, skip_space, CharClass};

verus! {

pub open spec fn tag_view(r: Option<(TagNode, usize)>) -> Option<(TagNode, int)> {
    match r {
        Some((t, e)) => Some((t, e as int)),
        None => None,
    }
}

pub open spec fn pair_view(r: Result<(MovePairNode, usize), SyntaxError>) -> Result<
    (MovePairView, int),
    SyntaxError,
> {
    match r {
        Ok((p, e)) => Ok((p@, e as int)),
        Err(x) => Err(x),
    }
}

pub open spec fn pairs_view(r: Result<(Vec<MovePairNode>, usize), SyntaxError>) -> Result<
    (Seq<MovePairView>, int),
    SyntaxError,
> {
    match r {
        Ok((ps, e)) => Ok((ps@.map_values(|p: MovePairNode| p@), e as int)),
        Err(x) => Err(x),
    }
}

pub open spec fn game_view(r: Result<GameTree, SyntaxError>) -> Result<GameTreeView, SyntaxError> {
    match r {
        Ok(t) => Ok(t@),
        Err(x) => Err(x),
    }
}

fn lit_in(s: &Vec<char>, i: usize, lit: &Vec<char>) -> (r: bool)
    requires
        i <= s.len(),
    ensures
        r == lit_at(s@, i as int, lit@),
{
    if lit.len() > s.len() - i {
        return false;
    }
    let mut k: usize = 0;
    while k < lit.len()
        invariant
            k <= lit.len(),
            i + lit.len() <= s.len(),
            forall|m: int| 0 <= m < k ==> s@[i + m] == lit@[m],
        decreases lit.len() - k,
    {
        if s[i + k] != lit[k] {
            assert(s@.subrange(i as int, i + lit.len())[k as int] != lit@[k as int]);
            return false;
        }
        k = k + 1;
    }
    assert(s@.subrange(i as int, i + lit.len()) =~= lit@);
    true
}

pub(crate) fn word_end(s: &Vec<char>, i: usize) -> (r: Option<usize>)
    requires
        i <= s.len(),
    ensures
        opt_pos(r) == word_at(s@, i as int),
        r matches Some(e) ==> i < e <= s.len(),
{
    let e = scan(s, i, CharClass::Word);
    if e > i {
        Some(e)
    } else {
        None
    }
}

pub(crate) fn quoted_end(s: &Vec<char>, i: usize) -> (r: Option<usize>)
    requires
        i <= s.len(),
    ensures
        opt_pos(r) == quoted_at(s@, i as int),
        r matches Some(q) ==> i < q < s.len(),
{
    if i < s.len() && s[i] == '"' {
        let e = scan(s, i + 1, CharClass::NotQuote);
        if e < s.len() {
            Some(e)
        } else {
            None
        }
    } else {
        None
    }
}

pub(crate) fn comment_end(s: &Vec<char>, i: usize) -> (r: Option<usize>)
    requires
        i <= s.len(),
    ensures
        opt_pos(r) == comment_at(s@, i as int),
        r matches Some(x) ==> i + 2 <= x <= s.len(),
{
    if i < s.len() && s[i] == '{' {
        let e = scan(s, i + 1, CharClass::NotBrace);
        if e < s.len() {
            Some(e + 1)
        } else {
            None
        }
    } else {
        None
    }
}

pub(crate) fn move_end(s: &Vec<char>, i: usize) -> (r: Option<usize>)
    requires
        i <= s.len(),
    ensures
        opt_pos(r) == move_at(s@, i as int),
        r matches Some(e) ==> i < e <= s.len(),
{
    let e = scan(s, i, CharClass::MoveText);
    if e > i && san_in(s, i, e) {
        Some(e)
    } else {
        None
    }
}

pub(crate) fn quiet_move_end(s: &Vec<char>, i: usize) -> (r: Option<usize>)
    requires
        i <= s.len(),
    ensures
        opt_pos(r) == quiet_move_at(s@, i as int),
        r matches Some(e) ==> i < e <= s.len(),
{
    let e = scan(s, i, CharClass::MoveText);
    if e > i && quiet_move_in(s, i, e) {
        Some(e)
    } else {
        None
    }
}

pub(crate) fn number_end(s: &Vec<char>, i: usize) -> (r: Option<usize>)
    requires
        i <= s.len(),
    ensures
        opt_pos(r) == number_at(s@, i as int),
        r matches Some(e) ==> i < e <= s.len(),
{
    let e = scan(s, i, CharClass::Digit);
    if e > i && e < s.len() && s[e] == '.' {
        Some(e + 1)
    } else {
        None
    }
}

pub(crate) fn result_end(s: &Vec<char>, i: usize) -> (r: Option<usize>)
    requires
        i <= s.len(),
    ensures
        opt_pos(r) == result_at(s@, i as int),
        r matches Some(e) ==> i < e <= s.len(),
{
    let white = vec!['1', '-', '0'];
    let black = vec!['0', '-', '1'];
    let draw = vec!['1', '/', '2', '-', '1', '/', '2'];
    let open = vec!['*'];
    assert(white@ =~= seq!['1', '-', '0']);
    assert(black@ =~= seq!['0', '-', '1']);
    assert(draw@ =~= seq!['1', '/', '2', '-', '1', '/', '2']);
    assert(open@ =~= seq!['*']);
    if lit_in(s, i, &white) || lit_in(s, i, &black) {
        Some(i + 3)
    } else if lit_in(s, i, &draw) {
        Some(i + 7)
    } else if lit_in(s, i, &open) {
        Some(i + 1)
    } else {
        None
    }
}

pub(crate) fn parse_tag(s: &Vec<char>, i: usize) -> (r: Option<(TagNode, usize)>)
    requires
        i <= s.len(),
    ensures
        tag_view(r) == tag_at(s@, i as int),
        r matches Some((_, e)) ==> i < e <= s.len(),
{
    if i < s.len() && s[i] == '[' {
        let k0 = scan(s, i + 1, CharClass::Space);
        match word_end(s, k0) {
            None => None,
            Some(k1) => {
                let k2 = scan(s, k1, CharClass::Space);
                match quoted_end(s, k2) {
                    None => None,
                    Some(q) => {
                        let k3 = scan(s, q + 1, CharClass::Space);
                        if k3 < s.len() && s[k3] == ']' {
                            let key = Span { start: k0, end: k1 };
                            let value = Span { start: k2 + 1, end: q };
                            Some((TagNode { key, value }, k3 + 1))
                        } else {
                            None
                        }
                    },
                }
            },
        }
    } else {
        None
    }
}

pub(crate) fn parse_pair_tail(s: &Vec<char>, e1: usize) -> (r: (Vec<Item>, usize))
    requires
        e1 <= s.len(),
    ensures
        (r.0@, r.1 as int) == pair_tail(s@, e1 as int),
        e1 <= r.1 <= s.len(),
{
    let mut items: Vec<Item> = Vec::new();
    let j1 = scan(s, e1, CharClass::Space);
    let p = match comment_end(s, j1) {
        Some(x) => {
            items.push(Item::Comment(Span { start: j1 + 1, end: x - 1 }));
            x
        },
        None => e1,
    };
    let j2 = scan(s, p, CharClass::Space);
    match move_end(s, j2) {
        None => (items, p),
        Some(e2) => {
            items.push(Item::Notation(Span { start: j2, end: e2 }));
            let j3 = scan(s, e2, CharClass::Space);
            match comment_end(s, j3) {
                Some(y) => {
                    items.push(Item::Comment(Span { start: j3 + 1, end: y - 1 }));
                    (items, y)
                },
                None => (items, e2),
            }
        },
    }
}

pub(crate) fn parse_pair(s: &Vec<char>, i: usize) -> (r: Result<(MovePairNode, usize), SyntaxError>)
    requires
        i <= s.len(),
    ensures
        pair_view(r) == pair_at(s@, i as int),
        r matches Ok((_, e)) ==> i < e <= s.len(),
{
    match number_end(s, i) {
        None => Err(SyntaxError { pos: i, expected: Rule::move_number }),
        Some(n) => {
            let a = scan(s, n, CharClass::Space);
            match move_end(s, a) {
                None => Err(SyntaxError { pos: a, expected: Rule::complete_move }),
                Some(e1) => {
                    let (rest, e) = parse_pair_tail(s, e1);
                    let number = Span { start: i, end: n };
                    let first = Span { start: a, end: e1 };
                    Ok((MovePairNode { number, first, rest }, e))
                },
            }
        },
    }
}

pub(crate) fn parse_tags(s: &Vec<char>, i: usize) -> (r: (Vec<TagNode>, usize))
    requires
        i <= s.len(),
    ensures
        (r.0@, r.1 as int) == tags_from(s@, i as int),
        i <= r.1 <= s.len(),
{
    let mut tags: Vec<TagNode> = Vec::new();
    let mut k: usize = i;
    loop
        invariant
            i <= k <= s.len(),
            tags_from(s@, i as int) == (tags@ + tags_from(s@, k as int).0, tags_from(
                s@,
                k as int,
            ).1),
        decreases s.len() - k,
    {
        let j = scan(s, k, CharClass::Space);
        match parse_tag(s, j) {
            Some((t, e)) => {
                let ghost before = tags@;
                tags.push(t);
                assert(before + tags_from(s@, k as int).0 =~= tags@ + tags_from(s@, e as int).0);
                k = e;
            },
            None => {
                assert(tags@ + tags_from(s@, k as int).0 =~= tags@);
                return (tags, k);
            },
        }
    }
}

pub open spec fn prepend(ps: Seq<MovePairView>, r: Result<(Seq<MovePairView>, int), SyntaxError>) -> Result<
    (Seq<MovePairView>, int),
    SyntaxError,
> {
    match r {
        Ok((qs, e)) => Ok((ps + qs, e)),
        Err(x) => Err(x),
    }
}

pub(crate) fn parse_pairs(s: &Vec<char>, i: usize) -> (r: Result<(Vec<MovePairNode>, usize), SyntaxError>)
    requires
        i <= s.len(),
    ensures
        pairs_view(r) == pairs_from(s@, i as int),
        r matches Ok((_, e)) ==> i <= e <= s.len(),
{
    let mut pairs: Vec<MovePairNode> = Vec::new();
    let mut k: usize = i;
    loop
        invariant
            i <= k <= s.len(),
            pairs_from(s@, i as int) == prepend(
                pairs@.map_values(|p: MovePairNode| p@),
                pairs_from(s@, k as int),
            ),
        decreases s.len() - k,
    {
        let j = scan(s, k, CharClass::Space);
        if number_end(s, j).is_none() {
            assert(pairs@.map_values(|p: MovePairNode| p@) + Seq::<MovePairView>::empty()
                =~= pairs@.map_values(|p: MovePairNode| p@));
            return Ok((pairs, k));
        }
        match parse_pair(s, j) {
            Err(x) => {
                return Err(x);
            },
            Ok((p, e)) => {
                let ghost before = pairs@.map_values(|p: MovePairNode| p@);
                let ghost pv = p@;
                pairs.push(p);
                assert(pairs@.map_values(|p: MovePairNode| p@) =~= before.push(pv));
                assert forall|qs: Seq<MovePairView>| before + (seq![pv] + qs) == #[trigger] (
                before.push(pv) + qs) by {
                    assert(before + (seq![pv] + qs) =~= before.push(pv) + qs);
                }
                k = e;
            },
        }
    }
}

/// Parses a whole game into its tree.
pub fn parse_game(s: &Vec<char>) -> (r: Result<GameTree, SyntaxError>)
    ensures
        game_view(r) == game_tree(s@),
{
    let (tags, t) = parse_tags(s, 0);
    match parse_pairs(s, t) {
        Err(x) => Err(x),
        Ok((pairs, p)) => {
            let j = scan(s, p, CharClass::Space);
            match result_end(s, j) {
                None => Err(SyntaxError { pos: j, expected: Rule::game_result }),
                Some(r) => {
                    let k = scan(s, r, CharClass::Space);
                    if k == s.len() {
                        Ok(GameTree { tags, pairs, result: Span { start: j, end: r } })
                    } else {
                        Err(SyntaxError { pos: k, expected: Rule::EOI })
                    }
                },
            }
        },
    }
}

} // verus!

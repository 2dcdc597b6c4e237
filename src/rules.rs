//! Matching a single rule of the grammar at the start of a text.

use vstd::prelude::*;
use crate::grammar::{rule_at, span, Rule, Span, SyntaxError};
use crate::parser::{
    comment_end, move_end, number_end, parse_game, parse_pair, parse_pairs, parse_tag, quiet_move_end,
    result_end, word_end,
};
use crate::text::{chars_of, substring};

verus! {

/// The parser of game records.
pub struct PGNParser;

/// A match of one rule: the rule, its span, and the text it covers.
#[derive(Clone, Debug)]
pub struct Pair {
    pub rule: Rule,
    pub span: Span,
    pub text: String,
}

impl Pair {
    pub fn as_rule(&self) -> (r: Rule)
        ensures
            r == self.rule,
    {
        self.rule
    }

    /// The text that the rule matched.
    pub fn as_str(&self) -> (r: &str)
        ensures
            r@ == self.text@,
    {
        self.text.as_str()
    }
}

fn found(r: Option<usize>, rule: Rule) -> (x: Result<usize, SyntaxError>)
    ensures
        match r {
            Some(e) => x == Ok::<usize, SyntaxError>(e),
            None => x == Err::<usize, SyntaxError>(SyntaxError { pos: 0, expected: rule }),
        },
{
    match r {
        Some(e) => Ok(e),
        None => Err(SyntaxError { pos: 0, expected: rule }),
    }
}

impl PGNParser {
    /// Matches `rule` at the start of `input`. The match need not reach the end
    /// of the input, but for `Rule::game`, which takes all of it.
    pub fn parse(rule: Rule, input: &str) -> (r: Result<Pair, SyntaxError>)
        ensures
            match rule_at(input@, rule) {
                Ok(e) => r is Ok && r->Ok_0.rule == rule && r->Ok_0.span == span(0, e)
                    && r->Ok_0.text@ == input@.subrange(0, e),
                Err(x) => r == Err::<Pair, SyntaxError>(x),
            },
    {
        let s = chars_of(input);
        let end: Result<usize, SyntaxError> = match rule {
            Rule::word => found(word_end(&s, 0), rule),
            Rule::metadata_block => match parse_tag(&s, 0) {
                Some((_, e)) => Ok(e),
                None => Err(SyntaxError { pos: 0, expected: rule }),
            },
            Rule::move_comment => found(comment_end(&s, 0), rule),
            Rule::move_piece_without_capture => found(quiet_move_end(&s, 0), rule),
            Rule::complete_move => found(move_end(&s, 0), rule),
            Rule::move_number => found(number_end(&s, 0), rule),
            Rule::move_pair => match parse_pair(&s, 0) {
                Ok((_, e)) => Ok(e),
                Err(x) => Err(x),
            },
            Rule::move_list => match parse_pairs(&s, 0) {
                Ok((_, e)) => Ok(e),
                Err(x) => Err(x),
            },
            Rule::game_result => found(result_end(&s, 0), rule),
            Rule::game => match parse_game(&s) {
                Ok(_) => Ok(s.len()),
                Err(x) => Err(x),
            },
            Rule::EOI => found(
                if s.len() == 0 {
                    Some(0)
                } else {
                    None
                },
                rule,
            ),
        };
        match end {
            Ok(e) => {
                Ok(Pair { rule, span: Span { start: 0, end: e }, text: substring(&s, 0, e) })
            },
            Err(x) => Err(x),
        }
    }
}

} // verus!

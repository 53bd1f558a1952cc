//! The token stream: a thin cursor over pre-lexed tokens.
//!
//! Lookahead is strictly `peek`; no operation ever backtracks past a
//! consumed token, so every parser built on top is LL(1) at each decision
//! point. The stream never loses or reorders tokens: every operation keeps
//! the token vector intact and moves the cursor forward by at most one.

use vstd::prelude::*;

use crate::ast::ParseError;
use crate::token::Token;
use crate::token::TokenKind;

verus! {

/// The byte offset reported when the stream is exhausted: the end of the
/// last token, or zero for an empty stream.
pub open spec fn spec_end_position(toks: Seq<Token>) -> u32 {
    if toks.len() > 0 {
        toks.last().span.end
    } else {
        0
    }
}

/// What `peek` answers at position `p` of `toks`: the token there, or an
/// `UnexpectedEndOfInput` error past the end.
pub open spec fn spec_peek(toks: Seq<Token>, p: int) -> Result<Token, ParseError> {
    if 0 <= p < toks.len() {
        Ok(toks[p])
    } else {
        Err(ParseError::UnexpectedEndOfInput { position: spec_end_position(toks) })
    }
}

/// A cursor over a fixed vector of tokens.
pub struct TokenStream {
    pub tokens: Vec<Token>,
    pub position: usize,
}

impl TokenStream {
    /// The cursor never points past one-past-the-end.
    pub open spec fn wf(self) -> bool {
        self.position <= self.tokens@.len()
    }

    /// Whether every token has been consumed.
    pub open spec fn spec_exhausted(self) -> bool {
        self.position == self.tokens@.len()
    }

    /// A fresh stream positioned at the first token.
    pub fn new(tokens: Vec<Token>) -> (r: TokenStream)
        ensures
            r.tokens@ == tokens@,
            r.position == 0,
            r.wf(),
    {
        TokenStream { tokens, position: 0 }
    }

    /// Whether every token has been consumed.
    pub fn is_exhausted(&self) -> (r: bool)
        requires
            self.wf(),
        ensures
            r == self.spec_exhausted(),
    {
        self.position == self.tokens.len()
    }

    /// Returns the next token without consuming it; fails only on stream
    /// exhaustion.
    pub fn peek(&self) -> (r: Result<Token, ParseError>)
        requires
            self.wf(),
        ensures
            r == spec_peek(self.tokens@, self.position as int),
    {
        if self.position < self.tokens.len() {
            Ok(self.tokens[self.position])
        } else {
            let position = if self.tokens.len() > 0 {
                self.tokens[self.tokens.len() - 1].span.end
            } else {
                0
            };
            Err(ParseError::UnexpectedEndOfInput { position })
        }
    }

    /// Consumes the next token unconditionally; used once a kind check has
    /// already happened. Fails only on stream exhaustion, and then leaves
    /// the cursor where it was.
    pub fn expect_any(&mut self) -> (r: Result<Token, ParseError>)
        requires
            old(self).wf(),
        ensures
            final(self).tokens@ == old(self).tokens@,
            final(self).wf(),
            match spec_peek(old(self).tokens@, old(self).position as int) {
                Ok(t) => r == Ok::<Token, ParseError>(t) && final(self).position
                    == old(self).position + 1,
                Err(e) => r == Err::<Token, ParseError>(e) && final(self).position == old(
                    self,
                ).position,
            },
    {
        let t = self.peek()?;
        let n: usize = self.tokens.len();
        assert(self.position < n);
        self.position = self.position + 1;
        Ok(t)
    }

    /// Consumes the next token if it has the expected kind; fails with a
    /// structured error otherwise, leaving the cursor where it was.
    pub fn expect(&mut self, expected: TokenKind) -> (r: Result<Token, ParseError>)
        requires
            old(self).wf(),
        ensures
            final(self).tokens@ == old(self).tokens@,
            final(self).wf(),
            match spec_peek(old(self).tokens@, old(self).position as int) {
                Ok(t) => if t.kind == expected {
                    r == Ok::<Token, ParseError>(t) && final(self).position == old(self).position
                        + 1
                } else {
                    r == Err::<Token, ParseError>(
                        ParseError::UnexpectedToken { expected, found: t.kind, span: t.span },
                    ) && final(self).position == old(self).position
                },
                Err(e) => r == Err::<Token, ParseError>(e) && final(self).position == old(
                    self,
                ).position,
            },
    {
        let t = self.peek()?;
        let n: usize = self.tokens.len();
        assert(self.position < n);
        if t.kind == expected {
            self.position = self.position + 1;
            Ok(t)
        } else {
            Err(ParseError::UnexpectedToken { expected, found: t.kind, span: t.span })
        }
    }
}

} // verus!

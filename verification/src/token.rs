//! Tokens: the lexical units of a source text.
use vstd::prelude::*;

verus! {

/// A token as a mathematical value.
pub enum Lexeme {
    Integer(i64),
    /// A float literal as it is written.
    FloatLiteral(Seq<char>),
    /// A float, as the bit pattern of its binary64 encoding.
    Float(u64),
    String(Seq<char>),
    /// A quoted name.
    Symbol(Seq<char>),
    /// A bare name.
    Call(Seq<char>),
    Nil,
    ParenStart,
    ParenEnd,
    BracketStart,
    BracketEnd,
}

/// A token. Tokens are flat: the parser pairs the brackets.
#[derive(Debug, Clone)]
pub enum Token {
    Integer(i64),
    /// A float literal as it is written. The lexer goes no further: the library has no
    /// floating-point unit, and whoever has one replaces the token by the `Float` of the
    /// literal's value before parsing.
    FloatLiteral(String),
    /// A float, as the bit pattern of its binary64 encoding.
    Float(u64),
    String(String),
    /// A quoted name: data, never looked up.
    Symbol(String),
    /// A bare name, to be looked up and invoked.
    Call(String),
    Nil,
    /// `(`
    ParenStart,
    /// `)`
    ParenEnd,
    /// `[`
    BracketStart,
    /// `]`
    BracketEnd,
}

impl View for Token {
    type V = Lexeme;

    open spec fn view(&self) -> Lexeme {
        match self {
            Token::Integer(i) => Lexeme::Integer(*i),
            Token::FloatLiteral(s) => Lexeme::FloatLiteral(s@),
            Token::Float(f) => Lexeme::Float(*f),
            Token::String(s) => Lexeme::String(s@),
            Token::Symbol(s) => Lexeme::Symbol(s@),
            Token::Call(s) => Lexeme::Call(s@),
            Token::Nil => Lexeme::Nil,
            Token::ParenStart => Lexeme::ParenStart,
            Token::ParenEnd => Lexeme::ParenEnd,
            Token::BracketStart => Lexeme::BracketStart,
            Token::BracketEnd => Lexeme::BracketEnd,
        }
    }
}

/// The views of the tokens of a sequence.
pub open spec fn lexemes(v: Seq<Token>) -> Seq<Lexeme> {
    Seq::new(v.len(), |i: int| v[i]@)
}

impl Token {
    /// The token with the value of its float literal filled in: a `FloatLiteral` becomes the
    /// `Float` of the given bits, and any other token stays as it is.
    pub fn resolve(self, bits: u64) -> (r: Token)
        ensures
            r@ == (if self@ is FloatLiteral {
                Lexeme::Float(bits)
            } else {
                self@
            }),
    {
        match self {
            Token::FloatLiteral(_) => Token::Float(bits),
            other => other,
        }
    }
}

} // verus!

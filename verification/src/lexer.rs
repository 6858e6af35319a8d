//! The lexer: from source text to tokens.
//!
//! Spaces, tabs and line ends separate tokens and are skipped. The four brackets are tokens
//! of their own. A double quote opens a string literal, which runs to the next unescaped
//! double quote. Everything else is a word, which runs until a separator, a bracket or a
//! double quote: a word that begins with a single quote is a symbol, a word of digits with
//! an optional minus sign before them is an integer, such a word with exactly one decimal
//! point in it is a float literal, `nil` is nil, and any other word is a call.
use crate::text::{chars_of, string_of};
use crate::token::{lexemes, Lexeme, Token};
use vstd::prelude::*;

verus! {

/// What can be wrong with a source text.
#[derive(Debug, Clone, Copy, PartialEq, Eq, Structural)]
pub enum LexErrorKind {
    /// An integer literal that does not fit in 64 bits.
    IntegerOverflow,
    /// A string literal with no closing quote, or with an escape that is none.
    MalformedString,
    /// A single quote with no name behind it.
    MalformedSymbol,
}

/// A lexical error and the index of the character at which the offending token begins.
#[derive(Debug, Clone, Copy, PartialEq, Eq, Structural)]
pub struct LexError {
    pub kind: LexErrorKind,
    pub at: usize,
}

/// A lexical error as a mathematical value.
pub struct Fault {
    pub kind: LexErrorKind,
    pub at: int,
}

impl View for LexError {
    type V = Fault;

    open spec fn view(&self) -> Fault {
        Fault { kind: self.kind, at: self.at as int }
    }
}

/// Whether the character separates tokens.
pub open spec fn is_space(c: char) -> bool {
    c == ' ' || c == '\t' || c == '\n' || c == '\r'
}

/// Whether a word ends before the character.
pub open spec fn ends_word(c: char) -> bool {
    is_space(c) || c == '(' || c == ')' || c == '[' || c == ']' || c == '"'
}

/// Whether the character is a decimal digit.
pub open spec fn is_digit(c: char) -> bool {
    c == '0' || c == '1' || c == '2' || c == '3' || c == '4' || c == '5' || c == '6' || c == '7'
        || c == '8' || c == '9'
}

/// The value of a decimal digit.
pub open spec fn digit_value(c: char) -> nat {
    if c == '1' {
        1
    } else if c == '2' {
        2
    } else if c == '3' {
        3
    } else if c == '4' {
        4
    } else if c == '5' {
        5
    } else if c == '6' {
        6
    } else if c == '7' {
        7
    } else if c == '8' {
        8
    } else if c == '9' {
        9
    } else {
        0
    }
}

/// The number that a sequence of digits writes in decimal.
pub open spec fn number(d: Seq<char>) -> nat
    decreases d.len(),
{
    if d.len() == 0 {
        0
    } else {
        number(d.drop_last()) * 10 + digit_value(d.last())
    }
}

/// The word without the minus sign that it may begin with.
pub open spec fn unsigned(w: Seq<char>) -> Seq<char> {
    if w.len() > 0 && w[0] == '-' {
        w.skip(1)
    } else {
        w
    }
}

/// Whether the word writes an integer: digits, at least one, after an optional minus sign.
pub open spec fn is_integer_literal(w: Seq<char>) -> bool {
    let u = unsigned(w);
    u.len() > 0 && forall|i: int| 0 <= i < u.len() ==> is_digit(#[trigger] u[i])
}

/// Whether the word writes a float: after an optional minus sign, digits and exactly one
/// decimal point, with at least one digit.
pub open spec fn is_float_literal(w: Seq<char>) -> bool {
    let u = unsigned(w);
    u.len() >= 2 && exists|p: int|
        0 <= p < u.len() && #[trigger] u[p] == '.' && forall|i: int|
            0 <= i < u.len() && i != p ==> is_digit(#[trigger] u[i])
}

/// The integer that an integer literal writes.
pub open spec fn integer_value(w: Seq<char>) -> int {
    if w[0] == '-' {
        -(number(unsigned(w)) as int)
    } else {
        number(unsigned(w)) as int
    }
}

/// The token of a word, which is not empty.
pub open spec fn classify(w: Seq<char>) -> Result<Lexeme, LexErrorKind> {
    if w[0] == '\'' {
        if w.len() == 1 {
            Err(LexErrorKind::MalformedSymbol)
        } else {
            Ok(Lexeme::Symbol(w.skip(1)))
        }
    } else if is_integer_literal(w) {
        let v = integer_value(w);
        if i64::MIN <= v <= i64::MAX {
            Ok(Lexeme::Integer(v as i64))
        } else {
            Err(LexErrorKind::IntegerOverflow)
        }
    } else if is_float_literal(w) {
        Ok(Lexeme::FloatLiteral(w))
    } else if w == seq!['n', 'i', 'l'] {
        Ok(Lexeme::Nil)
    } else {
        Ok(Lexeme::Call(w))
    }
}

/// The index at which the word that holds the character at `at` ends: that of the next
/// character that ends a word, or the length of the text.
pub open spec fn word_end(s: Seq<char>, at: int) -> int
    decreases s.len() - at,
{
    if at < 0 || at >= s.len() || ends_word(s[at]) {
        at
    } else {
        word_end(s, at + 1)
    }
}

/// The character that an escape stands for, by the character after the backslash.
pub open spec fn unescape(c: char) -> Option<char> {
    if c == 'n' {
        Some('\n')
    } else if c == 't' {
        Some('\t')
    } else if c == 'r' {
        Some('\r')
    } else if c == '0' {
        Some('\0')
    } else if c == '\\' {
        Some('\\')
    } else if c == '"' {
        Some('"')
    } else {
        None
    }
}

/// The rest of a string literal from index `at` on, `acc` being what was read of it so far:
/// its contents and the index after its closing quote, or nothing where the literal is not
/// closed or holds a backslash before a character that no escape has.
pub open spec fn string_from(s: Seq<char>, at: int, acc: Seq<char>) -> Option<(Seq<char>, int)>
    decreases s.len() - at,
{
    if at < 0 || at >= s.len() {
        None
    } else if s[at] == '"' {
        Some((acc, at + 1))
    } else if s[at] == '\\' {
        if at + 1 >= s.len() {
            None
        } else {
            match unescape(s[at + 1]) {
                Some(c) => string_from(s, at + 2, acc.push(c)),
                None => None,
            }
        }
    } else {
        string_from(s, at + 1, acc.push(s[at]))
    }
}

/// `first` before the tokens of `rest`, or the fault of `rest`.
pub open spec fn then(first: Lexeme, rest: Result<Seq<Lexeme>, Fault>) -> Result<
    Seq<Lexeme>,
    Fault,
> {
    match rest {
        Ok(r) => Ok(seq![first] + r),
        Err(e) => Err(e),
    }
}

/// `prefix` before the tokens of `rest`, or the fault of `rest`.
pub open spec fn after(prefix: Seq<Lexeme>, rest: Result<Seq<Lexeme>, Fault>) -> Result<
    Seq<Lexeme>,
    Fault,
> {
    match rest {
        Ok(r) => Ok(prefix + r),
        Err(e) => Err(e),
    }
}

/// The tokens of the text from index `at` on, or the first fault in it.
pub open spec fn scan_from(s: Seq<char>, at: int) -> Result<Seq<Lexeme>, Fault>
    decreases s.len() - at,
    via scan_from_decreases
{
    if at < 0 || at >= s.len() {
        Ok(Seq::empty())
    } else if is_space(s[at]) {
        scan_from(s, at + 1)
    } else if s[at] == '(' {
        then(Lexeme::ParenStart, scan_from(s, at + 1))
    } else if s[at] == ')' {
        then(Lexeme::ParenEnd, scan_from(s, at + 1))
    } else if s[at] == '[' {
        then(Lexeme::BracketStart, scan_from(s, at + 1))
    } else if s[at] == ']' {
        then(Lexeme::BracketEnd, scan_from(s, at + 1))
    } else if s[at] == '"' {
        match string_from(s, at + 1, Seq::empty()) {
            Some((text, end)) => then(Lexeme::String(text), scan_from(s, end)),
            None => Err(Fault { kind: LexErrorKind::MalformedString, at }),
        }
    } else {
        let end = word_end(s, at);
        match classify(s.subrange(at, end)) {
            Ok(token) => then(token, scan_from(s, end)),
            Err(kind) => Err(Fault { kind, at }),
        }
    }
}

#[via_fn]
proof fn scan_from_decreases(s: Seq<char>, at: int) {
    if 0 <= at < s.len() {
        lemma_word_end(s, at);
        lemma_string_from(s, at + 1, Seq::empty());
    }
}

/// A word ends at or after the index it is asked from, within the text, and no character
/// between the two ends a word.
pub proof fn lemma_word_end(s: Seq<char>, at: int)
    requires
        0 <= at <= s.len(),
    ensures
        at <= word_end(s, at) <= s.len(),
        at < s.len() && !ends_word(s[at]) ==> at < word_end(s, at),
        forall|i: int| at <= i < word_end(s, at) ==> !ends_word(#[trigger] s[i]),
        word_end(s, at) < s.len() ==> ends_word(s[word_end(s, at)]),
    decreases s.len() - at,
{
    if at < s.len() && !ends_word(s[at]) {
        lemma_word_end(s, at + 1);
    }
}

/// A string literal ends after the index it is read from, within the text.
pub proof fn lemma_string_from(s: Seq<char>, at: int, acc: Seq<char>)
    requires
        0 <= at,
    ensures
        string_from(s, at, acc) matches Some((_, end)) ==> at < end <= s.len(),
    decreases s.len() - at,
{
    if at < s.len() && s[at] != '"' {
        if s[at] == '\\' {
            if at + 1 < s.len() {
                match unescape(s[at + 1]) {
                    Some(c) => lemma_string_from(s, at + 2, acc.push(c)),
                    None => {},
                }
            }
        } else {
            lemma_string_from(s, at + 1, acc.push(s[at]));
        }
    }
}

fn space(c: char) -> (r: bool)
    ensures
        r == is_space(c),
{
    c == ' ' || c == '\t' || c == '\n' || c == '\r'
}

fn word_stops(c: char) -> (r: bool)
    ensures
        r == ends_word(c),
{
    space(c) || c == '(' || c == ')' || c == '[' || c == ']' || c == '"'
}

fn digit_of(c: char) -> (r: Option<u64>)
    ensures
        r is Some <==> is_digit(c),
        r matches Some(d) ==> d == digit_value(c) && d < 10,
{
    if c == '0' {
        Some(0)
    } else if c == '1' {
        Some(1)
    } else if c == '2' {
        Some(2)
    } else if c == '3' {
        Some(3)
    } else if c == '4' {
        Some(4)
    } else if c == '5' {
        Some(5)
    } else if c == '6' {
        Some(6)
    } else if c == '7' {
        Some(7)
    } else if c == '8' {
        Some(8)
    } else if c == '9' {
        Some(9)
    } else {
        None
    }
}

fn escape_of(c: char) -> (r: Option<char>)
    ensures
        r == unescape(c),
{
    if c == 'n' {
        Some('\n')
    } else if c == 't' {
        Some('\t')
    } else if c == 'r' {
        Some('\r')
    } else if c == '0' {
        Some('\0')
    } else if c == '\\' {
        Some('\\')
    } else if c == '"' {
        Some('"')
    } else {
        None
    }
}

/// The characters of `s` from `from` up to `to`.
fn slice(s: &Vec<char>, from: usize, to: usize) -> (r: Vec<char>)
    requires
        from <= to <= s.len(),
    ensures
        r@ == s@.subrange(from as int, to as int),
{
    let mut r: Vec<char> = Vec::new();
    let mut i: usize = from;
    while i < to
        invariant
            from <= i <= to <= s.len(),
            r@ == s@.subrange(from as int, i as int),
        decreases to - i,
    {
        r.push(s[i]);
        assert(s@.subrange(from as int, i + 1) =~= s@.subrange(from as int, i as int).push(
            s@[i as int],
        ));
        i += 1;
    }
    r
}

/// What a word is, as far as its digits and decimal points say.
enum Shape {
    /// An integer literal whose digits write the given number, which is at most `2^63`.
    Integer(u64),
    /// An integer literal whose digits write a number above `2^63`.
    TooLarge,
    /// A float literal.
    Float,
    /// Neither.
    Other,
}

/// The shape of the word `w`, `from` being the index after its minus sign if it has one.
fn shape(w: &Vec<char>, from: usize) -> (r: Shape)
    requires
        w.len() > 0,
        from == (if w@[0] == '-' {
            1usize
        } else {
            0usize
        }),
    ensures
        match r {
            Shape::Integer(n) => is_integer_literal(w@) && n == number(unsigned(w@)) && n
                <= 0x8000_0000_0000_0000,
            Shape::TooLarge => is_integer_literal(w@) && number(unsigned(w@))
                > 0x8000_0000_0000_0000,
            Shape::Float => !is_integer_literal(w@) && is_float_literal(w@),
            Shape::Other => !is_integer_literal(w@) && !is_float_literal(w@),
        },
{
    let ghost u = unsigned(w@);
    assert(u =~= w@.skip(from as int));
    let n = w.len();
    if n == from {
        return Shape::Other;
    }
    let mut acc: u64 = 0;
    let mut over = false;
    let mut dot: Option<usize> = None;
    let mut i: usize = from;
    while i < n
        invariant
            from <= i <= n,
            n == w.len(),
            u == w@.skip(from as int),
            u == unsigned(w@),
            u.len() == n - from,
            match dot {
                Some(p) => from <= p < i && w@[p as int] == '.' && forall|j: int|
                    0 <= j < i - from && j != p - from ==> is_digit(#[trigger] u[j]),
                None => forall|j: int| 0 <= j < i - from ==> is_digit(#[trigger] u[j]),
            },
            dot is None && !over ==> acc == number(u.take(i - from)) && acc
                <= 0x8000_0000_0000_0000,
            dot is None && over ==> number(u.take(i - from)) > 0x8000_0000_0000_0000,
        decreases n - i,
    {
        let c = w[i];
        assert(u[i - from] == c);
        assert(u.take(i - from + 1).drop_last() =~= u.take(i - from));
        assert(u.take(i - from + 1).last() == c);
        match digit_of(c) {
            Some(d) => {
                if !over {
                    if acc > (0x8000_0000_0000_0000 - d) / 10 {
                        over = true;
                    } else {
                        acc = acc * 10 + d;
                    }
                }
            },
            None => {
                if c == '.' && dot.is_none() {
                    dot = Some(i);
                } else {
                    // A second decimal point, or a character that is neither: no number.
                    proof {
                        let bad = i - from;
                        assert(!is_digit(u[bad]));
                        assert(!is_integer_literal(w@));
                        assert forall|p: int|
                            0 <= p < u.len() && #[trigger] u[p] == '.' implies !(forall|k: int|
                                0 <= k < u.len() && k != p ==> is_digit(#[trigger] u[k])) by {
                            if p == bad {
                                let q = dot->0 - from;
                                assert(!is_digit(u[q]));
                            } else {
                                assert(!is_digit(u[bad]));
                            }
                        }
                    }
                    return Shape::Other;
                }
            },
        }
        i += 1;
    }
    assert(u.take(n - from) =~= u);
    match dot {
        Some(p) => {
            assert(!is_digit(u[p - from]));
            if n - from >= 2 {
                assert(u[p - from] == '.');
                Shape::Float
            } else {
                Shape::Other
            }
        },
        None => {
            assert forall|p: int| 0 <= p < u.len() implies #[trigger] u[p] != '.' by {
                assert(is_digit(u[p]));
            }
            if over {
                Shape::TooLarge
            } else {
                Shape::Integer(acc)
            }
        },
    }
}

/// The token of a word.
fn word_token(w: Vec<char>) -> (r: Result<Token, LexErrorKind>)
    requires
        w.len() > 0,
    ensures
        match (r, classify(w@)) {
            (Ok(token), Ok(lexeme)) => token@ == lexeme,
            (Err(e), Err(kind)) => e == kind,
            _ => false,
        },
{
    if w[0] == '\'' {
        if w.len() == 1 {
            return Err(LexErrorKind::MalformedSymbol);
        }
        let name = slice(&w, 1, w.len());
        assert(name@ =~= w@.skip(1));
        return Ok(Token::Symbol(string_of(&name)));
    }
    let negative = w[0] == '-';
    let from: usize = if negative {
        1
    } else {
        0
    };
    match shape(&w, from) {
        Shape::Integer(n) => {
            if negative {
                if n == 0x8000_0000_0000_0000 {
                    Ok(Token::Integer(i64::MIN))
                } else {
                    Ok(Token::Integer(-(n as i64)))
                }
            } else if n == 0x8000_0000_0000_0000 {
                Err(LexErrorKind::IntegerOverflow)
            } else {
                Ok(Token::Integer(n as i64))
            }
        },
        Shape::TooLarge => Err(LexErrorKind::IntegerOverflow),
        Shape::Float => Ok(Token::FloatLiteral(string_of(&w))),
        Shape::Other => {
            if w.len() == 3 && w[0] == 'n' && w[1] == 'i' && w[2] == 'l' {
                assert(w@ =~= seq!['n', 'i', 'l']);
                Ok(Token::Nil)
            } else {
                assert(w@ != seq!['n', 'i', 'l']) by {
                    if w@ == seq!['n', 'i', 'l'] {
                        assert(seq!['n', 'i', 'l'].len() == 3);
                        assert(seq!['n', 'i', 'l'][0] == 'n');
                        assert(seq!['n', 'i', 'l'][1] == 'i');
                        assert(seq!['n', 'i', 'l'][2] == 'l');
                    }
                }
                Ok(Token::Call(string_of(&w)))
            }
        },
    }
}

/// The tokens of a source text, in the order of the text, or its first lexical error. A
/// float literal comes out as it is written: see [`Token::resolve`].
pub fn scan(source: &str) -> (r: Result<Vec<Token>, LexError>)
    ensures
        match (r, scan_from(source@, 0)) {
            (Ok(tokens), Ok(all)) => lexemes(tokens@) == all,
            (Err(e), Err(fault)) => e@ == fault,
            _ => false,
        },
{
    let s = chars_of(source);
    let n = s.len();
    let mut tokens: Vec<Token> = Vec::new();
    let mut i: usize = 0;
    assert(lexemes(tokens@) =~= Seq::<Lexeme>::empty());
    assert(scan_from(s@, 0) == after(lexemes(tokens@), scan_from(s@, 0))) by {
        match scan_from(s@, 0) {
            Ok(r) => assert(Seq::<Lexeme>::empty() + r =~= r),
            Err(_) => {},
        }
    }
    while i < n
        invariant
            i <= n,
            n == s.len(),
            s@ == source@,
            scan_from(s@, 0) == after(lexemes(tokens@), scan_from(s@, i as int)),
        decreases n - i,
    {
        let c = s[i];
        let ghost before = lexemes(tokens@);
        let start = i;
        let token: Token;
        if space(c) {
            i += 1;
            continue ;
        } else if c == '(' {
            token = Token::ParenStart;
            i += 1;
        } else if c == ')' {
            token = Token::ParenEnd;
            i += 1;
        } else if c == '[' {
            token = Token::BracketStart;
            i += 1;
        } else if c == ']' {
            token = Token::BracketEnd;
            i += 1;
        } else if c == '"' {
            let mut text: Vec<char> = Vec::new();
            let mut j: usize = i + 1;
            let mut closed = false;
            while j < n
                invariant_except_break
                    !closed,
                    string_from(s@, i + 1, Seq::empty()) == string_from(s@, j as int, text@),
                invariant
                    i < j <= n,
                    n == s.len(),
                ensures
                    i < j <= n,
                    closed ==> string_from(s@, i + 1, Seq::empty()) == Some((text@, j as int)),
                    !closed ==> string_from(s@, i + 1, Seq::empty()) is None,
                decreases n - j,
            {
                let d = s[j];
                if d == '"' {
                    closed = true;
                    j += 1;
                    break ;
                } else if d == '\\' {
                    if j + 1 >= n {
                        j = n;
                        break ;
                    }
                    match escape_of(s[j + 1]) {
                        Some(e) => {
                            text.push(e);
                            j += 2;
                        },
                        None => {
                            break ;
                        },
                    }
                } else {
                    text.push(d);
                    j += 1;
                }
            }
            if !closed {
                return Err(LexError { kind: LexErrorKind::MalformedString, at: start });
            }
            token = Token::String(string_of(&text));
            i = j;
        } else {
            let mut j: usize = i + 1;
            proof {
                lemma_word_end(s@, i as int);
            }
            while j < n && !word_stops(s[j])
                invariant
                    i < j <= n,
                    n == s.len(),
                    word_end(s@, i as int) == word_end(s@, j as int),
                decreases n - j,
            {
                j += 1;
            }
            let word = slice(&s, i, j);
            match word_token(word) {
                Ok(t) => {
                    token = t;
                },
                Err(kind) => {
                    return Err(LexError { kind, at: start });
                },
            }
            i = j;
        }
        proof {
            let rest = scan_from(s@, i as int);
            assert(scan_from(s@, start as int) == then(token@, rest));
            match rest {
                Ok(r) => {
                    assert(before + (seq![token@] + r) =~= before.push(token@) + r);
                },
                Err(_) => {},
            }
        }
        tokens.push(token);
        assert(lexemes(tokens@) =~= before.push(token@));
    }
    assert(lexemes(tokens@) + Seq::<Lexeme>::empty() =~= lexemes(tokens@));
    Ok(tokens)
}

/// The tokens of a source text, or no token at all where the text has a lexical error.
pub fn lex(source: String) -> (tokens: Vec<Token>)
    ensures
        lexemes(tokens@) == (match scan_from(source@, 0) {
            Ok(all) => all,
            Err(_) => Seq::empty(),
        }),
{
    match scan(source.as_str()) {
        Ok(tokens) => tokens,
        Err(_) => {
            let tokens: Vec<Token> = Vec::new();
            assert(lexemes(tokens@) =~= Seq::<Lexeme>::empty());
            tokens
        },
    }
}

} // verus!

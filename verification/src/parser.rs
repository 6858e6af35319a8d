//! The parser: from tokens to expressions.
//!
//! The parser reads the tokens from left to right and keeps a stack of open frames, each the
//! expressions gathered so far between one opening bracket and its closing one; the
//! outermost frame is the program itself. An opening bracket opens a frame, a closing
//! bracket of the same kind closes the innermost one and makes it a block or a list of the
//! frame below, and any other token adds one expression to the innermost frame.
use crate::expr::{trees, Expr, Tree};
use crate::token::{lexemes, Lexeme, Token};
use vstd::prelude::*;
use vstd::string::StringExecFns;

verus! {

/// The two kinds of brackets.
#[derive(Debug, Clone, Copy, PartialEq, Eq, Structural)]
pub enum ListMode {
    /// Round brackets, which make a block.
    Paren,
    /// Square brackets, which make a list.
    Bracket,
}

/// Why a sequence of tokens is no program.
#[derive(Debug, Clone, Copy, PartialEq, Eq, Structural)]
pub enum ParseError {
    /// A closing bracket where none is open, or where the innermost open one is of the
    /// other kind.
    MismatchedBrackets,
    /// The tokens end while a bracket is open.
    UnbalancedBlocks,
    /// A float literal whose value was not filled in.
    UnresolvedFloat,
}

/// The state of the parser between two tokens.
pub struct Frames {
    /// The expressions of each open frame, the outermost frame first.
    pub blocks: Seq<Seq<Tree>>,
    /// The bracket that opened each frame but the outermost.
    pub modes: Seq<ListMode>,
}

impl Frames {
    /// The state before the first token: the outermost frame, empty.
    pub open spec fn start() -> Frames {
        Frames { blocks: seq![Seq::empty()], modes: Seq::empty() }
    }

    /// The state with one more expression in the innermost frame.
    pub open spec fn append(self, e: Tree) -> Frames {
        Frames {
            blocks: self.blocks.drop_last().push(self.blocks.last().push(e)),
            modes: self.modes,
        }
    }

    /// The state with one more frame, empty, opened by `mode`.
    pub open spec fn open(self, mode: ListMode) -> Frames {
        Frames { blocks: self.blocks.push(Seq::empty()), modes: self.modes.push(mode) }
    }

    /// The state after a closing bracket of kind `mode`: the innermost frame becomes one
    /// expression of the frame below.
    pub open spec fn close(self, mode: ListMode) -> Result<Frames, ParseError> {
        if self.modes.len() > 0 && self.modes.last() == mode && self.blocks.len() >= 2 {
            let items = self.blocks.last();
            let below = Frames { blocks: self.blocks.drop_last(), modes: self.modes.drop_last() };
            Ok(
                below.append(
                    match mode {
                        ListMode::Paren => Tree::Block(items),
                        ListMode::Bracket => Tree::List(items),
                    },
                ),
            )
        } else {
            Err(ParseError::MismatchedBrackets)
        }
    }

    /// The state after one more token.
    pub open spec fn shift(self, token: Lexeme) -> Result<Frames, ParseError> {
        match token {
            Lexeme::ParenStart => Ok(self.open(ListMode::Paren)),
            Lexeme::BracketStart => Ok(self.open(ListMode::Bracket)),
            Lexeme::ParenEnd => self.close(ListMode::Paren),
            Lexeme::BracketEnd => self.close(ListMode::Bracket),
            Lexeme::FloatLiteral(_) => Err(ParseError::UnresolvedFloat),
            Lexeme::Integer(i) => Ok(self.append(Tree::Integer(i))),
            Lexeme::Float(f) => Ok(self.append(Tree::Float(f))),
            Lexeme::String(s) => Ok(self.append(Tree::String(s))),
            Lexeme::Symbol(s) => Ok(self.append(Tree::Symbol(s))),
            Lexeme::Call(s) => Ok(self.append(call_or_boolean(s))),
            Lexeme::Nil => Ok(self.append(Tree::Nil)),
        }
    }

    /// The state after the given tokens, or the error of the first token that has one.
    pub open spec fn run(self, tokens: Seq<Lexeme>) -> Result<Frames, ParseError>
        decreases tokens.len(),
    {
        if tokens.len() == 0 {
            Ok(self)
        } else {
            match self.run(tokens.drop_last()) {
                Ok(state) => state.shift(tokens.last()),
                Err(e) => Err(e),
            }
        }
    }
}

/// The expression of a bare name: `true` and `false` are the booleans, any other name is
/// a call.
pub open spec fn call_or_boolean(name: Seq<char>) -> Tree {
    if name == "true"@ {
        Tree::Boolean(true)
    } else if name == "false"@ {
        Tree::Boolean(false)
    } else {
        Tree::Call(name)
    }
}

/// The program that the tokens write, or why they write none.
pub open spec fn parsed(tokens: Seq<Lexeme>) -> Result<Seq<Tree>, ParseError> {
    match Frames::start().run(tokens) {
        Ok(state) => if state.blocks.len() == 1 {
            Ok(state.blocks[0])
        } else {
            Err(ParseError::UnbalancedBlocks)
        },
        Err(e) => Err(e),
    }
}

/// The views of the frames of the executable parser: the closed-over frames and, last, the
/// innermost one.
pub open spec fn frames_of(outer: Seq<Vec<Expr>>, current: Seq<Expr>) -> Seq<Seq<Tree>> {
    Seq::new(outer.len() + 1, |i: int| if i < outer.len() {
        trees(outer[i]@)
    } else {
        trees(current)
    })
}

/// The program that the tokens write, or why they write none.
pub fn try_parse(tokens: Vec<Token>) -> (r: Result<Vec<Expr>, ParseError>)
    ensures
        match (r, parsed(lexemes(tokens@))) {
            (Ok(exprs), Ok(program)) => trees(exprs@) == program,
            (Err(e), Err(error)) => e == error,
            _ => false,
        },
{
    let mut outer: Vec<Vec<Expr>> = Vec::new();
    let mut current: Vec<Expr> = Vec::new();
    let mut modes: Vec<ListMode> = Vec::new();
    let ghost all = lexemes(tokens@);
    let mut i: usize = 0;
    assert(trees(current@) =~= Seq::<Tree>::empty());
    assert(frames_of(outer@, current@) =~= Frames::start().blocks);
    assert(all.take(0) =~= Seq::<Lexeme>::empty());
    while i < tokens.len()
        invariant
            i <= tokens.len(),
            all == lexemes(tokens@),
            outer.len() == modes.len(),
            Frames::start().run(all.take(i as int)) == Ok::<Frames, ParseError>(
                Frames { blocks: frames_of(outer@, current@), modes: modes@ },
            ),
        decreases tokens.len() - i,
    {
        let ghost state = Frames { blocks: frames_of(outer@, current@), modes: modes@ };
        proof {
            assert(all.take(i + 1).drop_last() =~= all.take(i as int));
            assert(all.take(i + 1).last() == tokens@[i as int]@);
            assert(state.blocks.last() == trees(current@));
        }
        let ghost before = current@;
        let mut closing: Option<ListMode> = None;
        match &tokens[i] {
            Token::Integer(n) => current.push(Expr::Integer(*n)),
            Token::Float(f) => current.push(Expr::Float(*f)),
            Token::FloatLiteral(_) => {
                proof {
                    lemma_run_fails(all, i + 1);
                }
                return Err(ParseError::UnresolvedFloat);
            },
            Token::String(s) => current.push(Expr::String(s.clone())),
            Token::Symbol(s) => current.push(Expr::Symbol(s.clone())),
            Token::Call(s) => {
                if *s == String::from_str("true") {
                    current.push(Expr::Boolean(true));
                } else if *s == String::from_str("false") {
                    current.push(Expr::Boolean(false));
                } else {
                    current.push(Expr::Call(s.clone()));
                }
            },
            Token::Nil => current.push(Expr::Nil),
            Token::ParenStart => {
                outer.push(current);
                current = Vec::new();
                modes.push(ListMode::Paren);
                assert(trees(current@) =~= Seq::<Tree>::empty());
                assert(frames_of(outer@, current@) =~= state.blocks.push(Seq::empty()));
                i += 1;
                continue ;
            },
            Token::BracketStart => {
                outer.push(current);
                current = Vec::new();
                modes.push(ListMode::Bracket);
                assert(trees(current@) =~= Seq::<Tree>::empty());
                assert(frames_of(outer@, current@) =~= state.blocks.push(Seq::empty()));
                i += 1;
                continue ;
            },
            Token::ParenEnd => {
                closing = Some(ListMode::Paren);
            },
            Token::BracketEnd => {
                closing = Some(ListMode::Bracket);
            },
        }
        match closing {
            None => {
                assert(trees(current@) =~= trees(before).push(current@.last()@));
                assert(frames_of(outer@, current@) =~= state.blocks.drop_last().push(
                    state.blocks.last().push(current@.last()@),
                ));
            },
            Some(mode) => {
                let open = modes.pop();
                if open != Some(mode) {
                    proof {
                        lemma_run_fails(all, i + 1);
                    }
                    return Err(ParseError::MismatchedBrackets);
                }
                let items = current;
                current = outer.pop().unwrap();
                let ghost below = current@;
                match mode {
                    ListMode::Paren => current.push(Expr::Block(items)),
                    ListMode::Bracket => current.push(Expr::List(items)),
                }
                proof {
                    assert(trees(current@) =~= trees(below).push(current@.last()@));
                    let closed = Frames {
                        blocks: state.blocks.drop_last(),
                        modes: state.modes.drop_last(),
                    };
                    assert(closed.blocks =~= frames_of(outer@, below));
                    assert(frames_of(outer@, current@) =~= closed.blocks.drop_last().push(
                        closed.blocks.last().push(current@.last()@),
                    ));
                }
            },
        }
        i += 1;
    }
    assert(all.take(tokens.len() as int) =~= all);
    if outer.len() != 0 {
        return Err(ParseError::UnbalancedBlocks);
    }
    Ok(current)
}

/// The program that the tokens write, or no expression at all where they write none. A
/// caller that must tell a failure from the empty program calls [`try_parse`].
pub fn parse(tokens: Vec<Token>) -> (exprs: Vec<Expr>)
    ensures
        trees(exprs@) == (match parsed(lexemes(tokens@)) {
            Ok(program) => program,
            Err(_) => Seq::empty(),
        }),
{
    match try_parse(tokens) {
        Ok(exprs) => exprs,
        Err(_) => {
            let exprs: Vec<Expr> = Vec::new();
            assert(trees(exprs@) =~= Seq::<Tree>::empty());
            exprs
        },
    }
}

/// The brackets that the tokens leave open, the innermost last, or nothing where a closing
/// bracket stands where none is open or where the innermost open one is of the other kind.
pub open spec fn nesting(tokens: Seq<Lexeme>) -> Option<Seq<ListMode>>
    decreases tokens.len(),
{
    if tokens.len() == 0 {
        Some(Seq::empty())
    } else {
        match nesting(tokens.drop_last()) {
            None => None,
            Some(open) => match tokens.last() {
                Lexeme::ParenStart => Some(open.push(ListMode::Paren)),
                Lexeme::BracketStart => Some(open.push(ListMode::Bracket)),
                Lexeme::ParenEnd => if open.len() > 0 && open.last() == ListMode::Paren {
                    Some(open.drop_last())
                } else {
                    None
                },
                Lexeme::BracketEnd => if open.len() > 0 && open.last() == ListMode::Bracket {
                    Some(open.drop_last())
                } else {
                    None
                },
                _ => Some(open),
            },
        }
    }
}

/// Whether every bracket of the tokens has its partner of the same kind, properly nested.
pub open spec fn balanced(tokens: Seq<Lexeme>) -> bool {
    nesting(tokens) == Some(Seq::<ListMode>::empty())
}

/// Whether no token is a float literal whose value is still to be filled in.
pub open spec fn resolved(tokens: Seq<Lexeme>) -> bool {
    forall|i: int| 0 <= i < tokens.len() ==> !(#[trigger] tokens[i] is FloatLiteral)
}

/// The number of expressions that the tokens complete outside all brackets: the tokens
/// that are no opening bracket and after which no bracket is open.
pub open spec fn top_level_items(tokens: Seq<Lexeme>) -> nat
    decreases tokens.len(),
{
    if tokens.len() == 0 {
        0
    } else {
        let rest = top_level_items(tokens.drop_last());
        if !(tokens.last() is ParenStart) && !(tokens.last() is BracketStart) && balanced(tokens) {
            rest + 1
        } else {
            rest
        }
    }
}

/// The parser's frames follow the nesting of the brackets: after tokens without an error
/// it has one frame more than brackets are open, opened by those brackets, and its
/// outermost frame holds as many expressions as the tokens complete outside all brackets;
/// and it reports mismatched brackets exactly where the nesting breaks.
pub proof fn lemma_run_follows_nesting(tokens: Seq<Lexeme>)
    requires
        resolved(tokens),
    ensures
        match (Frames::start().run(tokens), nesting(tokens)) {
            (Ok(state), Some(open)) => state.modes == open && state.blocks.len() == open.len() + 1
                && state.blocks[0].len() == top_level_items(tokens),
            (Err(e), None) => e == ParseError::MismatchedBrackets,
            _ => false,
        },
    decreases tokens.len(),
{
    if tokens.len() > 0 {
        let front = tokens.drop_last();
        assert(resolved(front)) by {
            assert forall|i: int| 0 <= i < front.len() implies !(#[trigger] front[i]
                is FloatLiteral) by {
                assert(front[i] == tokens[i]);
            }
        }
        lemma_run_follows_nesting(front);
        assert(!(tokens[tokens.len() - 1] is FloatLiteral));
        match (Frames::start().run(front), nesting(front)) {
            (Ok(state), Some(open)) => {
                match nesting(tokens) {
                    Some(now) => {
                        if now.len() == 0 {
                            assert(now =~= Seq::<ListMode>::empty());
                        }
                        match state.shift(tokens.last()) {
                            Ok(next) => {
                                assert(next.modes =~= now);
                            },
                            Err(_) => {},
                        }
                    },
                    None => {},
                }
            },
            _ => {},
        }
    }
}

/// Parsing succeeds exactly on balanced tokens. Tokens whose float literals are all filled
/// in parse to a program if and only if their brackets are balanced, and the program then
/// has one expression for each expression that the tokens complete outside all brackets. A
/// closing bracket that meets no open bracket, or one of the other kind, is reported as
/// mismatched brackets, and a bracket left open at the end as unbalanced blocks: no
/// imbalance is passed over.
pub proof fn lemma_parse_succeeds_iff_balanced(tokens: Seq<Lexeme>)
    requires
        resolved(tokens),
    ensures
        parsed(tokens) is Ok <==> balanced(tokens),
        parsed(tokens) matches Ok(program) ==> program.len() == top_level_items(tokens),
        nesting(tokens) is None <==> parsed(tokens) == Err::<Seq<Tree>, ParseError>(
            ParseError::MismatchedBrackets,
        ),
        nesting(tokens) matches Some(open) && open.len() > 0 <==> parsed(tokens) == Err::<
            Seq<Tree>,
            ParseError,
        >(ParseError::UnbalancedBlocks),
{
    lemma_run_follows_nesting(tokens);
    match nesting(tokens) {
        Some(open) => {
            if open.len() == 0 {
                assert(open =~= Seq::<ListMode>::empty());
            }
        },
        None => {},
    }
}

/// The tokens that write an expression which has a notation: a literal or a name as one
/// token, a boolean as the name `true` or `false`, and a block or a list as its items
/// between its brackets.
pub open spec fn written(e: Tree) -> Seq<Lexeme>
    decreases e,
{
    match e {
        Tree::Nil => seq![Lexeme::Nil],
        Tree::Boolean(b) => seq![
            Lexeme::Call(
                if b {
                    "true"@
                } else {
                    "false"@
                },
            ),
        ],
        Tree::Integer(i) => seq![Lexeme::Integer(i)],
        Tree::Float(f) => seq![Lexeme::Float(f)],
        Tree::String(s) => seq![Lexeme::String(s)],
        Tree::Symbol(s) => seq![Lexeme::Symbol(s)],
        Tree::Call(s) => seq![Lexeme::Call(s)],
        Tree::Block(items) => seq![Lexeme::ParenStart] + written_all(items) + seq![
            Lexeme::ParenEnd,
        ],
        Tree::List(items) => seq![Lexeme::BracketStart] + written_all(items) + seq![
            Lexeme::BracketEnd,
        ],
        _ => Seq::empty(),
    }
}

/// The tokens that write the expressions of a sequence, one after the other.
pub open spec fn written_all(items: Seq<Tree>) -> Seq<Lexeme>
    decreases items,
{
    if items.len() == 0 {
        Seq::empty()
    } else {
        written_all(items.drop_last()) + written(items.last())
    }
}

/// Whether an expression has a notation: it is a literal, a symbol, a call of a name other
/// than `true` and `false`, or a block or a list of such expressions.
pub open spec fn writable(e: Tree) -> bool
    decreases e,
{
    match e {
        Tree::Call(s) => s != "true"@ && s != "false"@,
        Tree::Block(items) => all_writable(items),
        Tree::List(items) => all_writable(items),
        Tree::Record(_) => false,
        Tree::Function { .. } => false,
        Tree::SExpr { .. } => false,
        Tree::Underscore => false,
        _ => true,
    }
}

/// Whether every expression of a sequence has a notation.
pub open spec fn all_writable(items: Seq<Tree>) -> bool
    decreases items,
{
    forall|i: int| 0 <= i < items.len() ==> writable(#[trigger] items[i])
}

impl Frames {
    /// The state with the given expressions behind those of the innermost frame.
    pub open spec fn append_all(self, items: Seq<Tree>) -> Frames {
        Frames {
            blocks: self.blocks.drop_last().push(self.blocks.last() + items),
            modes: self.modes,
        }
    }
}

/// Running the parser over two sequences of tokens, one after the other, is running it
/// over the first and then, from the state that this leaves, over the second.
pub proof fn lemma_run_continues(state: Frames, first: Seq<Lexeme>, second: Seq<Lexeme>)
    ensures
        state.run(first + second) == (match state.run(first) {
            Ok(next) => next.run(second),
            Err(e) => Err(e),
        }),
    decreases second.len(),
{
    if second.len() == 0 {
        assert(first + second =~= first);
    } else {
        assert((first + second).drop_last() =~= first + second.drop_last());
        lemma_run_continues(state, first, second.drop_last());
    }
}

/// The tokens that write an expression add that expression to the innermost frame,
/// whatever the state of the parser.
pub proof fn lemma_run_reads_written(state: Frames, e: Tree)
    requires
        writable(e),
        state.blocks.len() >= 1,
    ensures
        state.run(written(e)) == Ok::<Frames, ParseError>(state.append(e)),
    decreases e, 1nat,
{
    reveal_strlit("true");
    reveal_strlit("false");
    let tokens = written(e);
    match e {
        Tree::Block(items) => {
            lemma_run_reads_bracketed(state, items, ListMode::Paren);
        },
        Tree::List(items) => {
            lemma_run_reads_bracketed(state, items, ListMode::Bracket);
        },
        _ => {
            assert(tokens.len() == 1);
            assert(tokens.drop_last() =~= Seq::<Lexeme>::empty());
            assert(state.run(tokens.drop_last()) == Ok::<Frames, ParseError>(state));
            // `true` and `false` differ in length, so neither is taken for the other.
            assert("true"@.len() == 4);
            assert("false"@.len() == 5);
        },
    }
}

/// The tokens that write the items of a block or a list between its brackets add the
/// block or the list to the innermost frame.
proof fn lemma_run_reads_bracketed(state: Frames, items: Seq<Tree>, mode: ListMode)
    requires
        all_writable(items),
        state.blocks.len() >= 1,
    ensures
        state.run(
            seq![
                match mode {
                    ListMode::Paren => Lexeme::ParenStart,
                    ListMode::Bracket => Lexeme::BracketStart,
                },
            ] + written_all(items) + seq![
                match mode {
                    ListMode::Paren => Lexeme::ParenEnd,
                    ListMode::Bracket => Lexeme::BracketEnd,
                },
            ],
        ) == Ok::<Frames, ParseError>(
            state.append(
                match mode {
                    ListMode::Paren => Tree::Block(items),
                    ListMode::Bracket => Tree::List(items),
                },
            ),
        ),
    decreases items, 1nat,
{
    let opener = seq![
        match mode {
            ListMode::Paren => Lexeme::ParenStart,
            ListMode::Bracket => Lexeme::BracketStart,
        },
    ];
    let closer = seq![
        match mode {
            ListMode::Paren => Lexeme::ParenEnd,
            ListMode::Bracket => Lexeme::BracketEnd,
        },
    ];
    let inside = written_all(items);
    let opened = state.open(mode);
    let filled = opened.append_all(items);

    assert(state.run(opener) == Ok::<Frames, ParseError>(opened)) by {
        assert(opener.drop_last() =~= Seq::<Lexeme>::empty());
        assert(state.run(opener.drop_last()) == Ok::<Frames, ParseError>(state));
    }
    lemma_run_reads_all(opened, items);
    lemma_run_continues(state, opener, inside);
    assert(state.run(opener + inside) == Ok::<Frames, ParseError>(filled));

    assert(filled.run(closer) == filled.close(mode)) by {
        assert(closer.drop_last() =~= Seq::<Lexeme>::empty());
        assert(filled.run(closer.drop_last()) == Ok::<Frames, ParseError>(filled));
    }
    lemma_run_continues(state, opener + inside, closer);

    assert(filled.blocks.last() =~= items);
    assert(filled.blocks.drop_last() =~= state.blocks);
    assert(filled.modes.drop_last() =~= state.modes);
}

/// The tokens that write a sequence of expressions add those expressions, in order, to
/// the innermost frame.
pub proof fn lemma_run_reads_all(state: Frames, items: Seq<Tree>)
    requires
        all_writable(items),
        state.blocks.len() >= 1,
    ensures
        state.run(written_all(items)) == Ok::<Frames, ParseError>(state.append_all(items)),
    decreases items, 0nat,
{
    if items.len() == 0 {
        assert(state.blocks.last() + items =~= state.blocks.last());
        assert(state.append_all(items).blocks =~= state.blocks);
    } else {
        let front = items.drop_last();
        assert(all_writable(front)) by {
            assert forall|i: int| 0 <= i < front.len() implies writable(#[trigger] front[i]) by {
                assert(front[i] == items[i]);
            }
        }
        assert(writable(items.last())) by {
            assert(items.last() == items[items.len() - 1]);
        }
        lemma_run_reads_all(state, front);
        let middle = state.append_all(front);
        lemma_run_reads_written(middle, items.last());
        lemma_run_continues(state, written_all(front), written(items.last()));
        assert(middle.blocks.last().push(items.last()) =~= state.blocks.last() + items);
        assert(middle.append(items.last()).blocks =~= state.append_all(items).blocks);
    }
}

/// Parsing inverts writing. A program of expressions that have a notation, written out as
/// tokens and parsed, is the same program again: every such program can be written, and
/// nothing is lost or added on the way through the parser.
pub proof fn lemma_parse_inverts_writing(program: Seq<Tree>)
    requires
        all_writable(program),
    ensures
        parsed(written_all(program)) == Ok::<Seq<Tree>, ParseError>(program),
{
    lemma_run_reads_all(Frames::start(), program);
    let state = Frames::start().append_all(program);
    assert(Frames::start().blocks.last() + program =~= program);
    assert(state.blocks =~= seq![program]);
}

/// Once a token has an error, so has every longer sequence of tokens, and the same one.
pub proof fn lemma_run_fails(tokens: Seq<Lexeme>, k: int)
    requires
        0 <= k <= tokens.len(),
        Frames::start().run(tokens.take(k)) is Err,
    ensures
        Frames::start().run(tokens) == Frames::start().run(tokens.take(k)),
    decreases tokens.len() - k,
{
    if k < tokens.len() {
        assert(tokens.take(k + 1).drop_last() =~= tokens.take(k));
        lemma_run_fails(tokens, k + 1);
    } else {
        assert(tokens.take(k) =~= tokens);
    }
}

} // verus!

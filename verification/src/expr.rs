//! Expressions: the syntax tree of the language, which is also the shape of its run-time
//! values.
//!
//! [`Expr`] is the executable type. Its view, [`Tree`], is the same tree over mathematical
//! sequences, and every contract in the library speaks of expressions through it.
use crate::float::{equal, float_eq, int_equal, int_equals_float, is_zero, zero};
use crate::text::{decimal, push_decimal, push_str, string_of};
use vstd::prelude::*;
use vstd::std_specs::cmp::PartialEqSpecImpl;
use vstd::std_specs::convert::FromSpecImpl;

verus! {

/// An expression as a mathematical value.
pub enum Tree {
    /// The absence of a value.
    Nil,
    Boolean(bool),
    Integer(i64),
    /// A float, as the bit pattern of its binary64 encoding.
    Float(u64),
    String(Seq<char>),
    /// A name that is data: it is pushed, never looked up.
    Symbol(Seq<char>),
    /// A bare name, looked up and invoked when it is reached.
    Call(Seq<char>),
    /// A lazy sequence, evaluated only when it is invoked.
    Block(Seq<Tree>),
    /// An eager sequence, whose items are evaluated before the list becomes a value.
    List(Seq<Tree>),
    /// Keys with their values. The order of the entries means nothing; a well-formed record
    /// has no key twice.
    Record(Seq<(Seq<char>, Tree)>),
    /// A closure: the bindings it captured, and its body.
    Function { scope: Seq<(Seq<char>, Tree)>, body: Seq<Tree> },
    /// A call together with the body it is applied to.
    SExpr { call: Seq<char>, body: Seq<Tree> },
    /// The wildcard.
    Underscore,
}

/// One element of the written form of an expression: a character, or a float that is still
/// to be written out by whoever holds a floating-point formatter.
#[derive(Debug, Clone, Copy, PartialEq, Eq, Structural)]
pub enum Glyph {
    Char(char),
    Float(u64),
}

/// The glyph of a character.
pub open spec fn letter(c: char) -> Glyph {
    Glyph::Char(c)
}

/// The given characters as glyphs.
pub open spec fn glyphs(s: Seq<char>) -> Seq<Glyph> {
    Seq::new(s.len(), |i: int| letter(s[i]))
}

/// Whether no glyph of the sequence is a float.
pub open spec fn is_plain(g: Seq<Glyph>) -> bool {
    forall|i: int| 0 <= i < g.len() ==> #[trigger] g[i] is Char
}

/// The character of a glyph that is one.
pub open spec fn letter_of(g: Glyph) -> char {
    g->Char_0
}

/// The characters of a sequence of glyphs that holds no float.
pub open spec fn plain_text(g: Seq<Glyph>) -> Seq<char> {
    Seq::new(g.len(), |i: int| letter_of(g[i]))
}

/// Appends the characters of `s`, as glyphs.
fn push_chars(out: &mut Vec<Glyph>, s: &Vec<char>)
    ensures
        final(out)@ == old(out)@ + glyphs(s@),
{
    let mut i: usize = 0;
    while i < s.len()
        invariant
            i <= s.len(),
            out@ == old(out)@ + glyphs(s@.take(i as int)),
        decreases s.len() - i,
    {
        out.push(Glyph::Char(s[i]));
        assert(glyphs(s@.take(i + 1)) =~= glyphs(s@.take(i as int)).push(letter(s@[i as int])));
        i += 1;
    }
    assert(s@.take(s.len() as int) =~= s@);
}

/// Appends the characters of `s`, as glyphs.
fn push_text(out: &mut Vec<Glyph>, s: &str)
    ensures
        final(out)@ == old(out)@ + glyphs(s@),
{
    let mut chars: Vec<char> = Vec::new();
    push_str(&mut chars, s);
    assert(chars@ =~= s@);
    push_chars(out, &chars);
}

/// Appends one character, as a glyph.
fn push_char(out: &mut Vec<Glyph>, c: char)
    ensures
        final(out)@ == old(out)@ + glyphs(seq![c]),
{
    out.push(Glyph::Char(c));
    assert(out@ =~= old(out)@ + glyphs(seq![c]));
}

impl Tree {
    /// Equality of the language. Within one variant it is that of the contents, for floats as
    /// IEEE 754 has it, and for records whatever the order of the entries. Across variants an
    /// integer equals the float it converts to and the boolean that says whether it is nonzero;
    /// no other two variants are ever equal.
    pub open spec fn equals(self, other: Tree) -> bool
        decreases self, 0nat,
    {
        match (self, other) {
            (Tree::Float(a), Tree::Float(b)) => float_eq(a, b),
            (Tree::Integer(a), Tree::Integer(b)) => a == b,
            (Tree::String(a), Tree::String(b)) => a == b,
            (Tree::Boolean(a), Tree::Boolean(b)) => a == b,
            (Tree::Symbol(a), Tree::Symbol(b)) => a == b,
            (Tree::Call(a), Tree::Call(b)) => a == b,
            (Tree::Block(a), Tree::Block(b)) => Tree::all_equal(a, b),
            (Tree::List(a), Tree::List(b)) => Tree::all_equal(a, b),
            (Tree::Record(a), Tree::Record(b)) => Tree::entries_equal(a, b),
            (
                Tree::Function { scope: sa, body: ba },
                Tree::Function { scope: sb, body: bb },
            ) => Tree::entries_equal(sa, sb) && Tree::all_equal(ba, bb),
            (Tree::SExpr { call: ca, body: ba }, Tree::SExpr { call: cb, body: bb }) => ca == cb
                && Tree::all_equal(ba, bb),
            (Tree::Nil, Tree::Nil) => true,
            (Tree::Underscore, Tree::Underscore) => true,
            (Tree::Float(a), Tree::Integer(b)) => int_equals_float(b, a),
            (Tree::Integer(a), Tree::Float(b)) => int_equals_float(a, b),
            (Tree::Integer(a), Tree::Boolean(b)) => (a != 0) == b,
            (Tree::Boolean(a), Tree::Integer(b)) => a == (b != 0),
            _ => false,
        }
    }

    /// Two sequences of one length whose expressions are equal place by place.
    pub open spec fn all_equal(a: Seq<Tree>, b: Seq<Tree>) -> bool
        decreases a, 0nat,
    {
        a.len() == b.len() && forall|i: int| 0 <= i < a.len() ==> (#[trigger] a[i]).equals(b[i])
    }

    /// Whether `b` has an entry under the key `key` whose value equals `value`.
    pub open spec fn has_entry(key: Seq<char>, value: Tree, b: Seq<(Seq<char>, Tree)>) -> bool
        decreases value, 1nat,
    {
        exists|j: int| 0 <= j < b.len() && (#[trigger] b[j]).0 == key && value.equals(b[j].1)
    }

    /// Two lists of entries of one length, each entry of the first with its equal in the second.
    pub open spec fn entries_equal(a: Seq<(Seq<char>, Tree)>, b: Seq<(Seq<char>, Tree)>) -> bool
        decreases a, 0nat,
    {
        a.len() == b.len() && forall|i: int|
            0 <= i < a.len() ==> Tree::has_entry((#[trigger] a[i]).0, a[i].1, b)
    }

    /// Truthiness: nil, false, the integer zero and a float zero are false; everything else,
    /// the empty string too, is true.
    pub open spec fn truthy(self) -> bool {
        match self {
            Tree::Nil => false,
            Tree::Boolean(b) => b,
            Tree::Integer(i) => i != 0,
            Tree::Float(f) => !is_zero(f),
            _ => true,
        }
    }

    /// The written form: `nil`, `true` and `false`; an integer in decimal; a string, a symbol
    /// and a call as their text; a float as a single glyph; a block in round and a list in
    /// square brackets, their items separated by one space; a record in braces, each entry as
    /// its key, a colon, a space and its value; a function as `(fn` and its body; an
    /// s-expression as its call and its body in round brackets; the wildcard as `_`.
    pub open spec fn rendering(self) -> Seq<Glyph>
        decreases self,
    {
        match self {
            Tree::Nil => glyphs(seq!['n', 'i', 'l']),
            Tree::Boolean(b) => if b {
                glyphs(seq!['t', 'r', 'u', 'e'])
            } else {
                glyphs(seq!['f', 'a', 'l', 's', 'e'])
            },
            Tree::Integer(i) => glyphs(decimal(i as int)),
            Tree::Float(f) => seq![Glyph::Float(f)],
            Tree::String(s) => glyphs(s),
            Tree::Symbol(s) => glyphs(s),
            Tree::Call(s) => glyphs(s),
            Tree::Block(items) => glyphs(seq!['(']) + Tree::joined(items) + glyphs(seq![')']),
            Tree::List(items) => glyphs(seq!['[']) + Tree::joined(items) + glyphs(seq![']']),
            Tree::Record(entries) => glyphs(seq!['{']) + Tree::joined_entries(entries) + glyphs(
                seq!['}'],
            ),
            Tree::Function { scope, body } => glyphs(seq!['(', 'f', 'n']) + Tree::trailing(body)
                + glyphs(seq![')']),
            Tree::SExpr { call, body } => glyphs(seq!['(']) + glyphs(call) + Tree::trailing(body)
                + glyphs(seq![')']),
            Tree::Underscore => glyphs(seq!['_']),
        }
    }

    /// The written forms of the items, one space between two of them.
    pub open spec fn joined(items: Seq<Tree>) -> Seq<Glyph>
        decreases items,
    {
        if items.len() == 0 {
            Seq::empty()
        } else if items.len() == 1 {
            items[0].rendering()
        } else {
            Tree::joined(items.drop_last()) + glyphs(seq![' ']) + items.last().rendering()
        }
    }

    /// The written forms of the items, one space before each of them.
    pub open spec fn trailing(items: Seq<Tree>) -> Seq<Glyph>
        decreases items,
    {
        if items.len() == 0 {
            Seq::empty()
        } else {
            Tree::trailing(items.drop_last()) + glyphs(seq![' ']) + items.last().rendering()
        }
    }

    /// The written forms of the entries, one space between two of them.
    pub open spec fn joined_entries(entries: Seq<(Seq<char>, Tree)>) -> Seq<Glyph>
        decreases entries,
    {
        if entries.len() == 0 {
            Seq::empty()
        } else {
            let last = entries.last();
            let head = if entries.len() == 1 {
                Seq::empty()
            } else {
                Tree::joined_entries(entries.drop_last()) + glyphs(seq![' '])
            };
            head + glyphs(last.0) + glyphs(seq![':', ' ']) + last.1.rendering()
        }
    }
}

/// Whether two expressions are of one variant.
pub open spec fn same_variant(a: Tree, b: Tree) -> bool {
    match (a, b) {
        (Tree::Nil, Tree::Nil) => true,
        (Tree::Boolean(_), Tree::Boolean(_)) => true,
        (Tree::Integer(_), Tree::Integer(_)) => true,
        (Tree::Float(_), Tree::Float(_)) => true,
        (Tree::String(_), Tree::String(_)) => true,
        (Tree::Symbol(_), Tree::Symbol(_)) => true,
        (Tree::Call(_), Tree::Call(_)) => true,
        (Tree::Block(_), Tree::Block(_)) => true,
        (Tree::List(_), Tree::List(_)) => true,
        (Tree::Record(_), Tree::Record(_)) => true,
        (Tree::Function { .. }, Tree::Function { .. }) => true,
        (Tree::SExpr { .. }, Tree::SExpr { .. }) => true,
        (Tree::Underscore, Tree::Underscore) => true,
        _ => false,
    }
}

/// Equality across variants is numeric coercion and nothing else: an integer equals a float
/// exactly when the float it converts to is IEEE-equal to that float, on whichever side the
/// integer stands; an integer equals a boolean exactly when the boolean says whether the
/// integer is nonzero; and two expressions of different variants that are equal are an
/// integer and a float, or an integer and a boolean.
pub proof fn lemma_equality_coerces(i: i64, f: u64, b: bool, x: Tree, y: Tree)
    ensures
        Tree::Integer(i).equals(Tree::Float(f)) <==> int_equals_float(i, f),
        Tree::Float(f).equals(Tree::Integer(i)) <==> int_equals_float(i, f),
        Tree::Integer(i).equals(Tree::Boolean(b)) <==> ((i != 0) == b),
        Tree::Boolean(b).equals(Tree::Integer(i)) <==> ((i != 0) == b),
        x.equals(y) && !same_variant(x, y) ==> (x is Integer && (y is Float || y is Boolean)) || (
        y is Integer && (x is Float || x is Boolean)),
{
}

/// An expression: a node of the syntax tree and, unchanged, a value at run time.
#[derive(Debug)]
pub enum Expr {
    /// The absence of a value.
    Nil,
    Boolean(bool),
    Integer(i64),
    /// A float, as the bit pattern of its binary64 encoding.
    Float(u64),
    String(String),
    /// A name that is data: it is pushed, never looked up.
    Symbol(String),
    /// A bare name, looked up and invoked when it is reached.
    Call(String),
    /// A block is lazy: it is evaluated only when it is invoked. `(1 2 3)` is a block.
    Block(Vec<Expr>),
    /// A list is eager: its items are evaluated before it is pushed. `[1 2 3]` is a list.
    List(Vec<Expr>),
    /// Keys with their values, in no order that matters.
    Record(Vec<(String, Expr)>),
    /// A closure: the bindings it captured, and its body.
    Function { scope: Vec<(String, Expr)>, body: Vec<Expr> },
    /// A call together with the body it is applied to.
    SExpr { call: String, body: Vec<Expr> },
    /// The wildcard.
    Underscore,
}

/// The views of the expressions of a sequence.
pub open spec fn trees(v: Seq<Expr>) -> Seq<Tree>
    decreases v,
{
    Seq::new(
        v.len(),
        |i: int|
            if 0 <= i < v.len() {
                v[i]@
            } else {
                Tree::Nil
            },
    )
}

/// The views of the entries of a sequence.
pub open spec fn entries(v: Seq<(String, Expr)>) -> Seq<(Seq<char>, Tree)>
    decreases v,
{
    Seq::new(
        v.len(),
        |i: int|
            if 0 <= i < v.len() {
                (v[i].0@, v[i].1@)
            } else {
                (Seq::empty(), Tree::Nil)
            },
    )
}

impl View for Expr {
    type V = Tree;

    open spec fn view(&self) -> Tree
        decreases self,
    {
        match self {
            Expr::Nil => Tree::Nil,
            Expr::Boolean(b) => Tree::Boolean(*b),
            Expr::Integer(i) => Tree::Integer(*i),
            Expr::Float(f) => Tree::Float(*f),
            Expr::String(s) => Tree::String(s@),
            Expr::Symbol(s) => Tree::Symbol(s@),
            Expr::Call(s) => Tree::Call(s@),
            Expr::Block(v) => Tree::Block(trees(v@)),
            Expr::List(v) => Tree::List(trees(v@)),
            Expr::Record(v) => Tree::Record(entries(v@)),
            Expr::Function { scope, body } => Tree::Function {
                scope: entries(scope@),
                body: trees(body@),
            },
            Expr::SExpr { call, body } => Tree::SExpr { call: call@, body: trees(body@) },
            Expr::Underscore => Tree::Underscore,
        }
    }
}

impl Expr {
    /// Whether the expression counts as true.
    pub fn is_truthy(&self) -> (r: bool)
        ensures
            r == self@.truthy(),
    {
        match self {
            Expr::Nil => false,
            Expr::Boolean(b) => *b,
            Expr::Integer(i) => *i != 0,
            Expr::Float(f) => !zero(*f),
            _ => true,
        }
    }

    /// Whether the expression is nil.
    pub fn is_nil(&self) -> (r: bool)
        ensures
            r == (self@ == Tree::Nil),
    {
        match self {
            Expr::Nil => true,
            _ => false,
        }
    }

    /// A copy of the expression.
    pub fn copy(&self) -> (r: Expr)
        ensures
            r@ == self@,
        decreases self,
    {
        match self {
            Expr::Nil => Expr::Nil,
            Expr::Boolean(b) => Expr::Boolean(*b),
            Expr::Integer(i) => Expr::Integer(*i),
            Expr::Float(f) => Expr::Float(*f),
            Expr::String(s) => Expr::String(s.clone()),
            Expr::Symbol(s) => Expr::Symbol(s.clone()),
            Expr::Call(s) => Expr::Call(s.clone()),
            Expr::Block(v) => Expr::Block(Expr::copy_all(v)),
            Expr::List(v) => Expr::List(Expr::copy_all(v)),
            Expr::Record(v) => Expr::Record(Expr::copy_entries(v)),
            Expr::Function { scope, body } => Expr::Function {
                scope: Expr::copy_entries(scope),
                body: Expr::copy_all(body),
            },
            Expr::SExpr { call, body } => Expr::SExpr {
                call: call.clone(),
                body: Expr::copy_all(body),
            },
            Expr::Underscore => Expr::Underscore,
        }
    }

    /// A copy of each expression of a vector.
    pub fn copy_all(v: &Vec<Expr>) -> (out: Vec<Expr>)
        ensures
            trees(out@) == trees(v@),
        decreases v,
    {
        let mut out: Vec<Expr> = Vec::new();
        let mut i: usize = 0;
        while i < v.len()
            invariant
                i <= v.len(),
                out@.len() == i,
                forall|j: int| 0 <= j < i ==> out@[j]@ == v@[j]@,
            decreases v.len() - i,
        {
            out.push(v[i].copy());
            i += 1;
        }
        assert(trees(out@) =~= trees(v@));
        out
    }

    /// A copy of each entry of a vector.
    pub fn copy_entries(v: &Vec<(String, Expr)>) -> (out: Vec<(String, Expr)>)
        ensures
            entries(out@) == entries(v@),
        decreases v,
    {
        let mut out: Vec<(String, Expr)> = Vec::new();
        let mut i: usize = 0;
        while i < v.len()
            invariant
                i <= v.len(),
                out@.len() == i,
                forall|j: int| 0 <= j < i ==> out@[j].0@ == v@[j].0@ && out@[j].1@ == v@[j].1@,
            decreases v.len() - i,
        {
            out.push((v[i].0.clone(), v[i].1.copy()));
            i += 1;
        }
        assert(entries(out@) =~= entries(v@));
        out
    }

    /// The written form of the expression. Each float in it is one glyph, for the caller to
    /// write out.
    pub fn render(&self) -> (out: Vec<Glyph>)
        ensures
            out@ == self@.rendering(),
    {
        let mut out: Vec<Glyph> = Vec::new();
        self.render_into(&mut out);
        out
    }

    /// The written form as a string, where the expression holds no float.
    pub fn to_string(&self) -> (r: Option<String>)
        ensures
            r is Some <==> is_plain(self@.rendering()),
            r matches Some(s) ==> s@ == plain_text(self@.rendering()),
    {
        let g = self.render();
        let mut chars: Vec<char> = Vec::new();
        let mut i: usize = 0;
        while i < g.len()
            invariant
                i <= g.len(),
                g@ == self@.rendering(),
                chars@.len() == i,
                forall|j: int| 0 <= j < i ==> (#[trigger] g@[j]) == letter(chars@[j]),
            decreases g.len() - i,
        {
            match g[i] {
                Glyph::Char(c) => chars.push(c),
                Glyph::Float(_) => {
                    assert(!(g@[i as int] is Char));
                    return None;
                },
            }
            i += 1;
        }
        assert(chars@ =~= plain_text(g@));
        Some(string_of(&chars))
    }

    /// Appends the written form of the expression.
    pub fn render_into(&self, out: &mut Vec<Glyph>)
        ensures
            final(out)@ == old(out)@ + self@.rendering(),
        decreases self,
    {
        match self {
            Expr::Nil => {
                push_char(out, 'n');
                push_char(out, 'i');
                push_char(out, 'l');
                assert(out@ =~= old(out)@ + glyphs(seq!['n', 'i', 'l']));
            },
            Expr::Boolean(b) => {
                if *b {
                    push_char(out, 't');
                    push_char(out, 'r');
                    push_char(out, 'u');
                    push_char(out, 'e');
                    assert(out@ =~= old(out)@ + glyphs(seq!['t', 'r', 'u', 'e']));
                } else {
                    push_char(out, 'f');
                    push_char(out, 'a');
                    push_char(out, 'l');
                    push_char(out, 's');
                    push_char(out, 'e');
                    assert(out@ =~= old(out)@ + glyphs(seq!['f', 'a', 'l', 's', 'e']));
                }
            },
            Expr::Integer(i) => {
                let mut chars: Vec<char> = Vec::new();
                push_decimal(&mut chars, *i);
                assert(chars@ =~= decimal(*i as int));
                push_chars(out, &chars);
            },
            Expr::Float(f) => {
                out.push(Glyph::Float(*f));
                assert(out@ =~= old(out)@ + seq![Glyph::Float(*f)]);
            },
            Expr::String(s) => push_text(out, s.as_str()),
            Expr::Symbol(s) => push_text(out, s.as_str()),
            Expr::Call(s) => push_text(out, s.as_str()),
            Expr::Block(items) => {
                push_char(out, '(');
                Expr::render_items(items, out, false);
                push_char(out, ')');
                assert(out@ =~= old(out)@ + self@.rendering());
            },
            Expr::List(items) => {
                push_char(out, '[');
                Expr::render_items(items, out, false);
                push_char(out, ']');
                assert(out@ =~= old(out)@ + self@.rendering());
            },
            Expr::Record(fields) => {
                push_char(out, '{');
                Expr::render_entries(fields, out);
                push_char(out, '}');
                assert(out@ =~= old(out)@ + self@.rendering());
            },
            Expr::Function { scope, body } => {
                push_char(out, '(');
                push_char(out, 'f');
                push_char(out, 'n');
                Expr::render_items(body, out, true);
                push_char(out, ')');
                assert(out@ =~= old(out)@ + self@.rendering());
            },
            Expr::SExpr { call, body } => {
                push_char(out, '(');
                push_text(out, call.as_str());
                Expr::render_items(body, out, true);
                push_char(out, ')');
                assert(out@ =~= old(out)@ + self@.rendering());
            },
            Expr::Underscore => push_char(out, '_'),
        }
    }

    /// Appends the written forms of the items: with `lead`, a space before each of them;
    /// without, a space between two of them.
    fn render_items(items: &Vec<Expr>, out: &mut Vec<Glyph>, lead: bool)
        ensures
            final(out)@ == old(out)@ + (if lead {
                Tree::trailing(trees(items@))
            } else {
                Tree::joined(trees(items@))
            }),
        decreases items,
    {
        let ghost all = trees(items@);
        let mut i: usize = 0;
        while i < items.len()
            invariant
                i <= items.len(),
                all == trees(items@),
                out@ == old(out)@ + (if lead {
                    Tree::trailing(all.take(i as int))
                } else {
                    Tree::joined(all.take(i as int))
                }),
            decreases items.len() - i,
        {
            let ghost before = out@;
            if lead || i > 0 {
                push_char(out, ' ');
            }
            items[i].render_into(out);
            proof {
                assert(all.take(i + 1).drop_last() =~= all.take(i as int));
                assert(all.take(i + 1).last() == items@[i as int]@);
                if !lead && i == 0 {
                    assert(Tree::joined(all.take(0)) =~= Seq::<Glyph>::empty());
                }
                assert(out@ =~= old(out)@ + (if lead {
                    Tree::trailing(all.take(i + 1))
                } else {
                    Tree::joined(all.take(i + 1))
                }));
            }
            i += 1;
        }
        assert(all.take(items.len() as int) =~= all);
    }

    /// Appends the written forms of the entries, a space between two of them.
    fn render_entries(fields: &Vec<(String, Expr)>, out: &mut Vec<Glyph>)
        ensures
            final(out)@ == old(out)@ + Tree::joined_entries(entries(fields@)),
        decreases fields,
    {
        let ghost all = entries(fields@);
        let mut i: usize = 0;
        while i < fields.len()
            invariant
                i <= fields.len(),
                all == entries(fields@),
                out@ == old(out)@ + Tree::joined_entries(all.take(i as int)),
            decreases fields.len() - i,
        {
            if i > 0 {
                push_char(out, ' ');
            }
            push_text(out, fields[i].0.as_str());
            push_char(out, ':');
            push_char(out, ' ');
            fields[i].1.render_into(out);
            proof {
                assert(all.take(i + 1).drop_last() =~= all.take(i as int));
                assert(all.take(i + 1).last() == (fields@[i as int].0@, fields@[i as int].1@));
                assert(glyphs(seq![':']) + glyphs(seq![' ']) =~= glyphs(seq![':', ' ']));
                assert(Tree::joined_entries(all.take(0)) =~= Seq::<Glyph>::empty());
                assert(out@ =~= old(out)@ + Tree::joined_entries(all.take(i + 1)));
            }
            i += 1;
        }
        assert(all.take(fields.len() as int) =~= all);
    }

    /// Whether two expressions are equal as values of the language.
    pub fn same(&self, other: &Expr) -> (r: bool)
        ensures
            r == self@.equals(other@),
        decreases self, 0nat,
    {
        match (self, other) {
            (Expr::Float(a), Expr::Float(b)) => equal(*a, *b),
            (Expr::Integer(a), Expr::Integer(b)) => *a == *b,
            (Expr::String(a), Expr::String(b)) => *a == *b,
            (Expr::Boolean(a), Expr::Boolean(b)) => *a == *b,
            (Expr::Symbol(a), Expr::Symbol(b)) => *a == *b,
            (Expr::Call(a), Expr::Call(b)) => *a == *b,
            (Expr::Block(a), Expr::Block(b)) => Expr::same_items(a, b),
            (Expr::List(a), Expr::List(b)) => Expr::same_items(a, b),
            (Expr::Record(a), Expr::Record(b)) => Expr::same_entries(a, b),
            (
                Expr::Function { scope: sa, body: ba },
                Expr::Function { scope: sb, body: bb },
            ) => Expr::same_entries(sa, sb) && Expr::same_items(ba, bb),
            (Expr::SExpr { call: ca, body: ba }, Expr::SExpr { call: cb, body: bb }) => *ca == *cb
                && Expr::same_items(ba, bb),
            (Expr::Nil, Expr::Nil) => true,
            (Expr::Underscore, Expr::Underscore) => true,
            (Expr::Float(a), Expr::Integer(b)) => int_equal(*b, *a),
            (Expr::Integer(a), Expr::Float(b)) => int_equal(*a, *b),
            (Expr::Integer(a), Expr::Boolean(b)) => (*a != 0) == *b,
            (Expr::Boolean(a), Expr::Integer(b)) => *a == (*b != 0),
            _ => false,
        }
    }

    /// Whether two vectors have one length and equal expressions place by place.
    pub fn same_items(a: &Vec<Expr>, b: &Vec<Expr>) -> (r: bool)
        ensures
            r == Tree::all_equal(trees(a@), trees(b@)),
        decreases a, 0nat,
    {
        if a.len() != b.len() {
            return false;
        }
        let mut i: usize = 0;
        while i < a.len()
            invariant
                a.len() == b.len(),
                i <= a.len(),
                forall|j: int| 0 <= j < i ==> (#[trigger] trees(a@)[j]).equals(trees(b@)[j]),
            decreases a.len() - i,
        {
            if !a[i].same(&b[i]) {
                assert(!trees(a@)[i as int].equals(trees(b@)[i as int]));
                return false;
            }
            i += 1;
        }
        true
    }

    /// Whether `b` has an entry under `key` whose value equals `value`.
    fn find_entry(key: &String, value: &Expr, b: &Vec<(String, Expr)>) -> (r: bool)
        ensures
            r == Tree::has_entry(key@, value@, entries(b@)),
        decreases value, 1nat,
    {
        let mut j: usize = 0;
        while j < b.len()
            invariant
                j <= b.len(),
                forall|k: int|
                    0 <= k < j ==> !((#[trigger] entries(b@)[k]).0 == key@ && value@.equals(
                        entries(b@)[k].1,
                    )),
            decreases b.len() - j,
        {
            if b[j].0 == *key && value.same(&b[j].1) {
                assert(entries(b@)[j as int].0 == key@ && value@.equals(entries(b@)[j as int].1));
                return true;
            }
            j += 1;
        }
        false
    }

    /// Whether two vectors of entries have one length and each entry of the first its equal in
    /// the second.
    pub fn same_entries(a: &Vec<(String, Expr)>, b: &Vec<(String, Expr)>) -> (r: bool)
        ensures
            r == Tree::entries_equal(entries(a@), entries(b@)),
        decreases a, 0nat,
    {
        if a.len() != b.len() {
            return false;
        }
        let mut i: usize = 0;
        while i < a.len()
            invariant
                a.len() == b.len(),
                i <= a.len(),
                forall|j: int|
                    0 <= j < i ==> Tree::has_entry(
                        (#[trigger] entries(a@)[j]).0,
                        entries(a@)[j].1,
                        entries(b@),
                    ),
            decreases a.len() - i,
        {
            if !Expr::find_entry(&a[i].0, &a[i].1, b) {
                assert(!Tree::has_entry(
                    entries(a@)[i as int].0,
                    entries(a@)[i as int].1,
                    entries(b@),
                ));
                return false;
            }
            i += 1;
        }
        true
    }
}

impl Clone for Expr {
    fn clone(&self) -> (r: Expr)
        ensures
            r@ == self@,
    {
        self.copy()
    }
}

impl PartialEq for Expr {
    fn eq(&self, other: &Expr) -> (r: bool) {
        self.same(other)
    }
}

impl PartialEqSpecImpl for Expr {
    open spec fn obeys_eq_spec() -> bool {
        true
    }

    open spec fn eq_spec(&self, other: &Expr) -> bool {
        self@.equals(other@)
    }
}

impl From<Option<Expr>> for Expr {
    fn from(value: Option<Expr>) -> (r: Expr) {
        match value {
            Option::None => Expr::Nil,
            Option::Some(value) => value,
        }
    }
}

impl FromSpecImpl<Option<Expr>> for Expr {
    open spec fn obeys_from_spec() -> bool {
        true
    }

    open spec fn from_spec(value: Option<Expr>) -> Expr {
        match value {
            Option::None => Expr::Nil,
            Option::Some(value) => value,
        }
    }
}

} // verus!

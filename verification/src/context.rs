//! The context: the state of one evaluation beside the machine.
//!
//! A context owns the stack of values, the chain of lexical scopes with their `let`
//! bindings, the table of persistent `def` items, and, where journaling is on, the journal
//! of stack snapshots. It is made once for an evaluation and changed in place.
use crate::expr::{entries, trees, Expr, Tree};
use crate::journal::{recorded, Journal};
use vstd::prelude::*;
use vstd::string::StringExecFns;

verus! {

/// Why an operation on the context failed.
#[derive(Debug, Clone, Copy, PartialEq, Eq, Structural)]
pub enum RunError {
    /// A value was asked of an empty stack.
    StackUnderflow,
}

/// The value that a list of bindings gives a name: that of the latest binding of the name.
pub open spec fn bound(bindings: Seq<(Seq<char>, Tree)>, name: Seq<char>) -> Option<Tree>
    decreases bindings.len(),
{
    if bindings.len() == 0 {
        None
    } else if bindings.last().0 == name {
        Some(bindings.last().1)
    } else {
        bound(bindings.drop_last(), name)
    }
}

/// The value that a chain of scopes, the innermost last, gives a name: that of the
/// innermost scope that binds it.
pub open spec fn visible(scopes: Seq<Seq<(Seq<char>, Tree)>>, name: Seq<char>) -> Option<Tree>
    decreases scopes.len(),
{
    if scopes.len() == 0 {
        None
    } else {
        match bound(scopes.last(), name) {
            Some(value) => Some(value),
            None => visible(scopes.drop_last(), name),
        }
    }
}

/// The index of the first item of the given name, or the number of items where none has it.
pub open spec fn position(items: Seq<(Seq<char>, Tree)>, name: Seq<char>) -> int
    decreases items.len(),
{
    if items.len() == 0 {
        0
    } else if items[0].0 == name {
        0
    } else {
        1 + position(items.skip(1), name)
    }
}

/// The items after a definition: the item of that name with its new value, in its old
/// place, or a new item behind the others.
pub open spec fn defined(items: Seq<(Seq<char>, Tree)>, name: Seq<char>, value: Tree) -> Seq<
    (Seq<char>, Tree),
> {
    let at = position(items, name);
    if at < items.len() {
        items.update(at, (name, value))
    } else {
        items.push((name, value))
    }
}

/// Whether no two items have one name.
pub open spec fn distinct(items: Seq<(Seq<char>, Tree)>) -> bool {
    forall|i: int, j: int| 0 <= i < j < items.len() ==> (#[trigger] items[i]).0 != (
    #[trigger] items[j]).0
}

/// The index of the innermost scope that binds a name, or -1 where none does.
pub open spec fn binder(scopes: Seq<Seq<(Seq<char>, Tree)>>, name: Seq<char>) -> int
    decreases scopes.len(),
{
    if scopes.len() == 0 {
        -1
    } else if bound(scopes.last(), name) is Some {
        scopes.len() - 1
    } else {
        binder(scopes.drop_last(), name)
    }
}

/// The first item of a name stands where `position` says, and no item before it has the
/// name; where `position` is the number of items, none has it.
pub proof fn lemma_position(items: Seq<(Seq<char>, Tree)>, name: Seq<char>)
    ensures
        0 <= position(items, name) <= items.len(),
        position(items, name) < items.len() ==> items[position(items, name)].0 == name,
        forall|i: int| 0 <= i < position(items, name) ==> (#[trigger] items[i]).0 != name,
    decreases items.len(),
{
    if items.len() > 0 && items[0].0 != name {
        let rest = items.skip(1);
        lemma_position(rest, name);
        assert forall|i: int| 0 <= i < position(items, name) implies (#[trigger] items[i]).0
            != name by {
            if i > 0 {
                assert(rest[i - 1] == items[i]);
            }
        }
    }
}

/// Among items of distinct names, the value of a name is that of the item that has it, and
/// a name that no item has has no value.
pub proof fn lemma_bound(items: Seq<(Seq<char>, Tree)>, name: Seq<char>)
    requires
        distinct(items),
    ensures
        forall|k: int|
            0 <= k < items.len() && (#[trigger] items[k]).0 == name ==> bound(items, name)
                == Some(items[k].1),
        (forall|k: int| 0 <= k < items.len() ==> (#[trigger] items[k]).0 != name) ==> bound(
            items,
            name,
        ) is None,
    decreases items.len(),
{
    if items.len() > 0 {
        let front = items.drop_last();
        assert(distinct(front)) by {
            assert forall|i: int, j: int| 0 <= i < j < front.len() implies (#[trigger] front[i]).0
                != (#[trigger] front[j]).0 by {
                assert(front[i] == items[i] && front[j] == items[j]);
            }
        }
        lemma_bound(front, name);
        assert forall|k: int|
            0 <= k < items.len() && (#[trigger] items[k]).0 == name implies bound(items, name)
            == Some(items[k].1) by {
            if items.last().0 != name {
                assert(front[k] == items[k]);
            } else if k < items.len() - 1 {
                assert(items[k].0 != items[items.len() - 1].0);
            }
        }
        if forall|k: int| 0 <= k < items.len() ==> (#[trigger] items[k]).0 != name {
            assert(items[items.len() - 1].0 != name);
            assert forall|k: int| 0 <= k < front.len() implies (#[trigger] front[k]).0
                != name by {
                assert(front[k] == items[k]);
            }
        }
    }
}

/// A definition is seen and disturbs nothing else. Among items of distinct names, after
/// a name was defined its value is the one it was given, every other name has the value
/// it had, the names are still distinct, and the items are as many as before or one more.
pub proof fn lemma_defined(
    items: Seq<(Seq<char>, Tree)>,
    name: Seq<char>,
    value: Tree,
    other: Seq<char>,
)
    requires
        distinct(items),
    ensures
        distinct(defined(items, name, value)),
        bound(defined(items, name, value), name) == Some(value),
        other != name ==> bound(defined(items, name, value), other) == bound(items, other),
        defined(items, name, value).len() == (if bound(items, name) is Some {
            items.len()
        } else {
            items.len() + 1
        }),
{
    let at = position(items, name);
    let after = defined(items, name, value);
    lemma_position(items, name);
    lemma_bound(items, name);
    if at < items.len() {
        assert(distinct(after)) by {
            assert forall|i: int, j: int| 0 <= i < j < after.len() implies (#[trigger] after[i]).0
                != (#[trigger] after[j]).0 by {
                assert(after[i].0 == items[i].0 && after[j].0 == items[j].0);
            }
        }
        lemma_bound(after, name);
        assert(after[at].0 == name);
        lemma_bound(items, other);
        lemma_bound(after, other);
        if other != name {
            if exists|k: int| 0 <= k < items.len() && (#[trigger] items[k]).0 == other {
                let k = choose|k: int| 0 <= k < items.len() && (#[trigger] items[k]).0 == other;
                assert(after[k] == items[k]);
            } else {
                assert forall|k: int| 0 <= k < after.len() implies (#[trigger] after[k]).0
                    != other by {
                    assert(after[k].0 == items[k].0);
                }
            }
        }
    } else {
        assert(after.drop_last() =~= items);
        assert(distinct(after)) by {
            assert forall|i: int, j: int| 0 <= i < j < after.len() implies (#[trigger] after[i]).0
                != (#[trigger] after[j]).0 by {
                if j < items.len() {
                    assert(after[i] == items[i] && after[j] == items[j]);
                } else {
                    assert(after[i] == items[i]);
                }
            }
        }
    }
}

/// The context as a mathematical value.
pub struct Env {
    /// The stack, its top last.
    pub stack: Seq<Tree>,
    /// The lexical scopes, the innermost last, each with its bindings in the order in which
    /// they were made.
    pub scopes: Seq<Seq<(Seq<char>, Tree)>>,
    /// The persistent items, in the order in which they were first defined.
    pub items: Seq<(Seq<char>, Tree)>,
    /// The journal, where journaling is on: how many snapshots it keeps, and its history.
    pub journal: Option<(nat, Seq<Seq<Tree>>)>,
}

impl Env {
    /// Whether the context is well formed: it has at least the outermost scope, and no
    /// two of its items have one name.
    pub open spec fn wf(self) -> bool {
        self.scopes.len() >= 1 && distinct(self.items)
    }

    /// The context after a value was assigned to a name that has one: the innermost
    /// scope that binds the name binds it anew, or else the item of the name gets the
    /// value. A name without a value is assigned none.
    pub open spec fn assigned(self, name: Seq<char>, value: Tree) -> Option<Env> {
        let at = binder(self.scopes, name);
        if at >= 0 {
            Some(Env { scopes: self.scopes.update(at, self.scopes[at].push((name, value))), ..self })
        } else if bound(self.items, name) is Some {
            Some(Env { items: defined(self.items, name, value), ..self })
        } else {
            None
        }
    }

    /// The value of a name: that of its `let` binding in the innermost scope that has one,
    /// or else that of the persistent item of that name.
    pub open spec fn value(self, name: Seq<char>) -> Option<Tree> {
        match visible(self.scopes, name) {
            Some(value) => Some(value),
            None => bound(self.items, name),
        }
    }
}

/// The state of one evaluation: stack, scopes, items and journal.
#[derive(Debug)]
pub struct Context {
    stack: Vec<Expr>,
    lets: Vec<Vec<(String, Expr)>>,
    items: Vec<(String, Expr)>,
    journal: Option<Journal>,
}

/// The views of the scopes of a chain.
pub open spec fn scopes_of(lets: Seq<Vec<(String, Expr)>>) -> Seq<Seq<(Seq<char>, Tree)>> {
    Seq::new(lets.len(), |i: int| entries(lets[i]@))
}

impl View for Context {
    type V = Env;

    closed spec fn view(&self) -> Env {
        Env {
            stack: trees(self.stack@),
            scopes: scopes_of(self.lets@),
            items: entries(self.items@),
            journal: match self.journal {
                Some(journal) => Some((journal.capacity(), journal.history())),
                None => None,
            },
        }
    }
}

/// The latest binding of `name` among `bindings`.
fn find<'a>(bindings: &'a Vec<(String, Expr)>, name: &String) -> (r: Option<&'a Expr>)
    ensures
        match r {
            Some(value) => bound(entries(bindings@), name@) == Some(value@),
            None => bound(entries(bindings@), name@) is None,
        },
{
    let ghost all = entries(bindings@);
    let mut i: usize = bindings.len();
    assert(all.take(i as int) =~= all);
    while i > 0
        invariant
            i <= bindings.len(),
            all == entries(bindings@),
            bound(all, name@) == bound(all.take(i as int), name@),
        decreases i,
    {
        i -= 1;
        assert(all.take(i + 1).drop_last() =~= all.take(i as int));
        assert(all.take(i + 1).last() == all[i as int]);
        if bindings[i].0 == *name {
            return Some(&bindings[i].1);
        }
    }
    None
}

impl Context {
    /// Whether the context is well formed: it has at least the outermost scope, and its
    /// journal, where it has one, is in order. Every context that the library makes is,
    /// and stays so.
    pub closed spec fn wf(&self) -> bool {
        &&& self@.wf()
        &&& self.journal matches Some(journal) ==> journal.wf()
    }

    /// The view of a well-formed context is well formed.
    pub proof fn lemma_wf(&self)
        requires
            self.wf(),
        ensures
            self@.wf(),
    {
    }

    /// A context with an empty stack, one empty scope, no items and no journal.
    pub fn new() -> (context: Context)
        ensures
            context.wf(),
            context@ == (Env {
                stack: Seq::empty(),
                scopes: seq![Seq::empty()],
                items: Seq::empty(),
                journal: None,
            }),
    {
        let mut lets: Vec<Vec<(String, Expr)>> = Vec::new();
        lets.push(Vec::new());
        let context = Context { stack: Vec::new(), lets, items: Vec::new(), journal: None };
        assert(context@.stack =~= Seq::<Tree>::empty());
        assert(entries(context.lets@[0]@) =~= Seq::<(Seq<char>, Tree)>::empty());
        assert(context@.scopes =~= seq![Seq::<(Seq<char>, Tree)>::empty()]);
        assert(context@.items =~= Seq::<(Seq<char>, Tree)>::empty());
        context
    }

    /// The context with an empty journal that keeps `max_len` snapshots, or with none where
    /// `max_len` is nothing.
    pub fn with_journal(self, max_len: Option<usize>) -> (context: Context)
        requires
            self.wf(),
        ensures
            context.wf(),
            context@ == (Env {
                journal: match max_len {
                    Some(n) => Some((n as nat, Seq::empty())),
                    None => None,
                },
                ..self@
            }),
    {
        let journal = match max_len {
            Some(n) => Some(Journal::new(n)),
            None => None,
        };
        Context { stack: self.stack, lets: self.lets, items: self.items, journal }
    }

    /// The stack, its top last.
    pub fn stack(&self) -> (stack: &Vec<Expr>)
        ensures
            trees(stack@) == self@.stack,
    {
        &self.stack
    }

    /// The persistent items, in the order in which they were first defined.
    pub fn scope_items(&self) -> (items: &Vec<(String, Expr)>)
        ensures
            entries(items@) == self@.items,
    {
        &self.items
    }

    /// The journal, where journaling is on.
    pub fn journal(&self) -> (journal: Option<&Journal>)
        requires
            self.wf(),
        ensures
            match journal {
                Some(j) => j.wf() && self@.journal == Some((j.capacity(), j.history())),
                None => self@.journal is None,
            },
    {
        self.journal.as_ref()
    }

    /// Puts a value on top of the stack.
    pub fn stack_push(&mut self, expr: Expr)
        requires
            old(self).wf(),
        ensures
            final(self).wf(),
            final(self)@ == (Env { stack: old(self)@.stack.push(expr@), ..old(self)@ }),
    {
        let ghost before = self.stack@;
        self.stack.push(expr);
        assert(trees(self.stack@) =~= trees(before).push(expr@));
    }

    /// Takes the top value off the stack. An empty stack is an underflow, and stays empty.
    pub fn stack_pop(&mut self) -> (r: Result<Expr, RunError>)
        requires
            old(self).wf(),
        ensures
            final(self).wf(),
            match r {
                Ok(expr) => old(self)@.stack.len() > 0 && expr@ == old(self)@.stack.last()
                    && final(self)@ == (Env {
                    stack: old(self)@.stack.drop_last(),
                    ..old(self)@
                }),
                Err(e) => e == RunError::StackUnderflow && old(self)@.stack.len() == 0
                    && final(self)@ == old(self)@,
            },
    {
        let ghost before = self.stack@;
        match self.stack.pop() {
            Some(expr) => {
                assert(trees(self.stack@) =~= trees(before).drop_last());
                Ok(expr)
            },
            None => Err(RunError::StackUnderflow),
        }
    }

    /// Opens a lexical scope, which becomes the innermost.
    pub fn let_push(&mut self)
        requires
            old(self).wf(),
        ensures
            final(self).wf(),
            final(self)@ == (Env { scopes: old(self)@.scopes.push(Seq::empty()), ..old(self)@ }),
    {
        let frame: Vec<(String, Expr)> = Vec::new();
        assert(entries(frame@) =~= Seq::<(Seq<char>, Tree)>::empty());
        self.lets.push(frame);
        assert(self@.scopes =~= old(self)@.scopes.push(Seq::empty()));
    }

    /// Closes the innermost lexical scope with its bindings. The outermost scope stays.
    pub fn let_pop(&mut self)
        requires
            old(self).wf(),
        ensures
            final(self).wf(),
            final(self)@ == (Env {
                scopes: if old(self)@.scopes.len() > 1 {
                    old(self)@.scopes.drop_last()
                } else {
                    old(self)@.scopes
                },
                ..old(self)@
            }),
    {
        if self.lets.len() > 1 {
            self.lets.pop();
            assert(self@.scopes =~= old(self)@.scopes.drop_last());
        }
    }

    /// Binds a name in the innermost lexical scope. The binding hides any earlier one of
    /// the name.
    pub fn let_set(&mut self, name: String, value: Expr)
        requires
            old(self).wf(),
        ensures
            final(self).wf(),
            final(self)@ == (Env {
                scopes: old(self)@.scopes.drop_last().push(
                    old(self)@.scopes.last().push((name@, value@)),
                ),
                ..old(self)@
            }),
    {
        let last = self.lets.len() - 1;
        let mut frame: Vec<(String, Expr)> = Vec::new();
        core::mem::swap(&mut self.lets[last], &mut frame);
        let ghost before = frame@;
        frame.push((name, value));
        assert(entries(frame@) =~= entries(before).push((name@, value@)));
        core::mem::swap(&mut self.lets[last], &mut frame);
        assert(self@.scopes =~= old(self)@.scopes.drop_last().push(
            old(self)@.scopes.last().push((name@, value@)),
        ));
    }

    /// The value of the `let` binding of a name in the innermost scope that has one.
    pub fn let_get(&self, name: &str) -> (r: Option<&Expr>)
        requires
            self.wf(),
        ensures
            match r {
                Some(value) => visible(self@.scopes, name@) == Some(value@),
                None => visible(self@.scopes, name@) is None,
            },
    {
        let key = String::from_str(name);
        let ghost all = scopes_of(self.lets@);
        let mut i: usize = self.lets.len();
        assert(all.take(i as int) =~= all);
        while i > 0
            invariant
                i <= self.lets.len(),
                all == scopes_of(self.lets@),
                key@ == name@,
                visible(all, name@) == visible(all.take(i as int), name@),
            decreases i,
        {
            i -= 1;
            assert(all.take(i + 1).drop_last() =~= all.take(i as int));
            assert(all.take(i + 1).last() == entries(self.lets@[i as int]@));
            match find(&self.lets[i], &key) {
                Some(value) => {
                    return Some(value);
                },
                None => {},
            }
        }
        None
    }

    /// The value of the persistent item of a name.
    pub fn scope_item(&self, name: &str) -> (r: Option<&Expr>)
        ensures
            match r {
                Some(value) => bound(self@.items, name@) == Some(value@),
                None => bound(self@.items, name@) is None,
            },
    {
        let name = String::from_str(name);
        find(&self.items, &name)
    }

    /// The value of a name: that of its `let` binding, or else of its persistent item.
    pub fn get(&self, name: &str) -> (r: Option<&Expr>)
        requires
            self.wf(),
        ensures
            match r {
                Some(value) => self@.value(name@) == Some(value@),
                None => self@.value(name@) is None,
            },
    {
        match self.let_get(name) {
            Some(value) => Some(value),
            None => self.scope_item(name),
        }
    }

    /// Defines a persistent item: the item of that name gets the value and keeps its place,
    /// or a new item comes behind the others.
    pub fn def(&mut self, name: String, value: Expr)
        requires
            old(self).wf(),
        ensures
            final(self).wf(),
            final(self)@ == (Env {
                items: defined(old(self)@.items, name@, value@),
                ..old(self)@
            }),
    {
        let ghost all = entries(self.items@);
        proof {
            lemma_defined(all, name@, value@, name@);
        }
        let mut i: usize = 0;
        assert(all.skip(0) =~= all);
        while i < self.items.len()
            invariant
                i <= self.items.len(),
                *self == *old(self),
                self.wf(),
                all == entries(self.items@),
                position(all, name@) == i + position(all.skip(i as int), name@),
            decreases self.items.len() - i,
        {
            assert(all.skip(i as int)[0] == all[i as int]);
            assert(all.skip(i as int).skip(1) =~= all.skip(i + 1));
            if self.items[i].0 == name {
                let mut entry = (name, value);
                core::mem::swap(&mut self.items[i], &mut entry);
                assert(entries(self.items@) =~= all.update(i as int, (name@, value@)));
                return ;
            }
            i += 1;
        }
        self.items.push((name, value));
        assert(entries(self.items@) =~= all.push((name@, value@)));
    }

    /// Assigns a value to a name that has one: see [`Env::assigned`]. Says whether the name
    /// had a value; where it had none, nothing changes.
    pub fn set(&mut self, name: String, value: Expr) -> (changed: bool)
        requires
            old(self).wf(),
        ensures
            final(self).wf(),
            match old(self)@.assigned(name@, value@) {
                Some(env) => changed && final(self)@ == env,
                None => !changed && final(self)@ == old(self)@,
            },
    {
        let ghost all = scopes_of(self.lets@);
        let mut i: usize = self.lets.len();
        assert(all.take(i as int) =~= all);
        while i > 0
            invariant
                i <= self.lets.len(),
                *self == *old(self),
                self.wf(),
                all == scopes_of(self.lets@),
                binder(all, name@) == binder(all.take(i as int), name@),
            decreases i,
        {
            i -= 1;
            assert(all.take(i + 1).drop_last() =~= all.take(i as int));
            assert(all.take(i + 1).last() == entries(self.lets@[i as int]@));
            if find(&self.lets[i], &name).is_some() {
                let mut frame: Vec<(String, Expr)> = Vec::new();
                core::mem::swap(&mut self.lets[i], &mut frame);
                let ghost before = frame@;
                frame.push((name, value));
                assert(entries(frame@) =~= entries(before).push((name@, value@)));
                core::mem::swap(&mut self.lets[i], &mut frame);
                assert(self@.scopes =~= all.update(i as int, all[i as int].push((name@, value@))));
                return true;
            }
        }
        assert(all.take(0) =~= Seq::<Seq<(Seq<char>, Tree)>>::empty());
        if find(&self.items, &name).is_some() {
            self.def(name, value);
            true
        } else {
            false
        }
    }

    /// Records the stack in the journal, where journaling is on. This is for the caller to
    /// do after each step of an evaluation that changed the stack.
    pub fn record(&mut self)
        requires
            old(self).wf(),
        ensures
            final(self).wf(),
            final(self)@ == (Env {
                journal: match old(self)@.journal {
                    Some((max, history)) => Some(
                        (max, recorded(history, old(self)@.stack, max)),
                    ),
                    None => None,
                },
                ..old(self)@
            }),
    {
        let mut journal: Option<Journal> = None;
        core::mem::swap(&mut self.journal, &mut journal);
        match journal {
            Some(mut j) => {
                let snapshot = Expr::copy_all(&self.stack);
                j.push(snapshot);
                self.journal = Some(j);
            },
            None => {},
        }
    }
}

} // verus!

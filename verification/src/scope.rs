//! The `scope` module: introspection of names and of the persistent items.
use crate::context::{Context, Env, RunError};
use crate::expr::{entries, trees, Expr, Tree};
use crate::module::{origin, Engine, Exports, Func, Module, Origin};
use vstd::prelude::*;
use vstd::string::StringExecFns;

verus! {

/// The value by which `where` names an origin: the string `intrinsic`, `module`, `let` or
/// `scope`, and nil for a name that is not known.
pub open spec fn origin_value(o: Origin) -> Tree {
    match o {
        Origin::Intrinsic => Tree::String("intrinsic"@),
        Origin::Module => Tree::String("module"@),
        Origin::Let => Tree::String("let"@),
        Origin::Scope => Tree::String("scope"@),
        Origin::Unknown => Tree::Nil,
    }
}

/// What `where` answers to the value it took off the stack: for a symbol, where its name
/// comes from, and nil for anything else.
pub open spec fn answer(asked: Tree, modules: Seq<Exports>, env: Env) -> Tree {
    match asked {
        Tree::Symbol(name) => origin_value(origin(name, modules, env)),
        _ => Tree::Nil,
    }
}

/// The list that `dump` pushes: for each persistent item, in order, the list of the item's
/// name as a symbol and its value.
pub open spec fn listing(items: Seq<(Seq<char>, Tree)>) -> Tree {
    Tree::List(Seq::new(items.len(), |i: int| pair(items[i].0, items[i].1)))
}

/// The list of a name, as a symbol, and a value.
pub open spec fn pair(name: Seq<char>, value: Tree) -> Tree {
    Tree::List(seq![Tree::Symbol(name), value])
}

/// The module `scope`, which exports `where` and `dump`.
pub fn module() -> (module: Module)
    ensures
        module@ == (Exports {
            name: "scope"@,
            funcs: seq![("where"@, Func::Where), ("dump"@, Func::Dump)],
        }),
{
    let module = Module::new(String::from_str("scope")).add_func(
        String::from_str("where"),
        Func::Where,
    ).add_func(String::from_str("dump"), Func::Dump);
    assert(module@.funcs =~= seq![("where"@, Func::Where), ("dump"@, Func::Dump)]);
    module
}

/// `where`: takes a value off the stack and pushes where it comes from. The answer is
/// that of the context as it is after the value was taken. An empty stack is an underflow.
pub fn locate(engine: &Engine, context: &mut Context) -> (r: Result<(), RunError>)
    requires
        old(context).wf(),
    ensures
        final(context).wf(),
        match r {
            Ok(_) => old(context)@.stack.len() > 0 && final(context)@ == (Env {
                stack: old(context)@.stack.drop_last().push(
                    answer(
                        old(context)@.stack.last(),
                        engine@,
                        Env { stack: old(context)@.stack.drop_last(), ..old(context)@ },
                    ),
                ),
                ..old(context)@
            }),
            Err(e) => e == RunError::StackUnderflow && old(context)@.stack.len() == 0
                && final(context)@ == old(context)@,
        },
{
    let symbol = match context.stack_pop() {
        Ok(symbol) => symbol,
        Err(e) => {
            return Err(e);
        },
    };
    let found = match &symbol {
        Expr::Symbol(name) => match engine.origin(name.as_str(), context) {
            Origin::Intrinsic => Expr::String(String::from_str("intrinsic")),
            Origin::Module => Expr::String(String::from_str("module")),
            Origin::Let => Expr::String(String::from_str("let")),
            Origin::Scope => Expr::String(String::from_str("scope")),
            Origin::Unknown => Expr::Nil,
        },
        _ => Expr::Nil,
    };
    context.stack_push(found);
    Ok(())
}

/// `dump`: pushes the list of the persistent items.
pub fn dump(context: &mut Context)
    requires
        old(context).wf(),
    ensures
        final(context).wf(),
        final(context)@ == (Env {
            stack: old(context)@.stack.push(listing(old(context)@.items)),
            ..old(context)@
        }),
{
    let mut list: Vec<Expr> = Vec::new();
    let items = context.scope_items();
    let ghost all = entries(items@);
    let mut i: usize = 0;
    while i < items.len()
        invariant
            i <= items.len(),
            all == entries(items@),
            list@.len() == i,
            forall|j: int| 0 <= j < i ==> (#[trigger] list@[j])@ == pair(all[j].0, all[j].1),
        decreases items.len() - i,
    {
        let mut entry: Vec<Expr> = Vec::new();
        entry.push(Expr::Symbol(items[i].0.clone()));
        entry.push(items[i].1.copy());
        assert(trees(entry@) =~= seq![Tree::Symbol(all[i as int].0), all[i as int].1]);
        list.push(Expr::List(entry));
        i += 1;
    }
    assert(trees(list@) =~= listing(all)->List_0);
    context.stack_push(Expr::List(list));
}

/// Calls a function of a module on the context.
pub fn call(func: Func, engine: &Engine, context: &mut Context) -> (r: Result<(), RunError>)
    requires
        old(context).wf(),
    ensures
        final(context).wf(),
        match func {
            Func::Where => match r {
                Ok(_) => old(context)@.stack.len() > 0 && final(context)@ == (Env {
                    stack: old(context)@.stack.drop_last().push(
                        answer(
                            old(context)@.stack.last(),
                            engine@,
                            Env { stack: old(context)@.stack.drop_last(), ..old(context)@ },
                        ),
                    ),
                    ..old(context)@
                }),
                Err(e) => e == RunError::StackUnderflow && old(context)@.stack.len() == 0
                    && final(context)@ == old(context)@,
            },
            Func::Dump => r is Ok && final(context)@ == (Env {
                stack: old(context)@.stack.push(listing(old(context)@.items)),
                ..old(context)@
            }),
        },
{
    match func {
        Func::Where => locate(engine, context),
        Func::Dump => {
            dump(context);
            Ok(())
        },
    }
}

} // verus!

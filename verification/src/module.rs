//! Modules: named collections of functions, and the registry that finds them.
//!
//! A name of the form `module:rest` is qualified: it is split at its first colon, and the
//! part before the colon names a module. A name is resolved in a fixed order: as an
//! intrinsic, then as a qualified name whose module is registered, then as a `let` binding,
//! then as a persistent item.
use crate::context::{bound, visible, Context, Env};
use crate::intrinsic::{intrinsic_named, Intrinsic};
use crate::text::{chars_of, string_of};
use vstd::prelude::*;
use vstd::string::StringExecFns;

verus! {

/// A function that a module can export: one of those that the library itself provides.
#[derive(Debug, Clone, Copy, PartialEq, Eq, Structural)]
pub enum Func {
    /// `scope:where`: says where a name comes from.
    Where,
    /// `scope:dump`: lists the persistent items.
    Dump,
}

/// A module as a mathematical value.
pub struct Exports {
    pub name: Seq<char>,
    /// The functions with their names, in the order in which they were added.
    pub funcs: Seq<(Seq<char>, Func)>,
}

/// A named collection of functions.
#[derive(Debug)]
pub struct Module {
    name: String,
    funcs: Vec<(String, Func)>,
}

/// The views of the named functions of a sequence.
pub open spec fn named(funcs: Seq<(String, Func)>) -> Seq<(Seq<char>, Func)> {
    Seq::new(funcs.len(), |i: int| (funcs[i].0@, funcs[i].1))
}

/// The function that a list gives a name: the one added last under it.
pub open spec fn exported(funcs: Seq<(Seq<char>, Func)>, name: Seq<char>) -> Option<Func>
    decreases funcs.len(),
{
    if funcs.len() == 0 {
        None
    } else if funcs.last().0 == name {
        Some(funcs.last().1)
    } else {
        exported(funcs.drop_last(), name)
    }
}

/// The module that a registry has under a name: the one registered last under it.
pub open spec fn registered(modules: Seq<Exports>, name: Seq<char>) -> Option<Exports>
    decreases modules.len(),
{
    if modules.len() == 0 {
        None
    } else if modules.last().name == name {
        Some(modules.last())
    } else {
        registered(modules.drop_last(), name)
    }
}

/// The index of the first colon of a name, or the length of the name where it has none.
pub open spec fn colon(name: Seq<char>) -> int
    decreases name.len(),
{
    if name.len() == 0 {
        0
    } else if name[0] == ':' {
        0
    } else {
        1 + colon(name.skip(1))
    }
}

/// The part of a qualified name before its first colon; nothing for a name without a colon.
pub open spec fn qualifier(name: Seq<char>) -> Option<Seq<char>> {
    if colon(name) < name.len() {
        Some(name.take(colon(name)))
    } else {
        None
    }
}

/// The part of a qualified name after its first colon.
pub open spec fn unqualified(name: Seq<char>) -> Seq<char> {
    name.skip(colon(name) + 1)
}

/// Where a name comes from.
#[derive(Debug, Clone, Copy, PartialEq, Eq, Structural)]
pub enum Origin {
    /// The name is that of an intrinsic.
    Intrinsic,
    /// The name is qualified by a registered module.
    Module,
    /// The name has a `let` binding in a lexical scope.
    Let,
    /// The name is that of a persistent item.
    Scope,
    /// The name is not known.
    Unknown,
}

/// Where a name comes from: the first of intrinsic, module, `let` binding and persistent
/// item that knows it.
pub open spec fn origin(name: Seq<char>, modules: Seq<Exports>, env: Env) -> Origin {
    if intrinsic_named(name) is Some {
        Origin::Intrinsic
    } else if qualifier(name) matches Some(q) && registered(modules, q) is Some {
        Origin::Module
    } else if visible(env.scopes, name) is Some {
        Origin::Let
    } else if bound(env.items, name) is Some {
        Origin::Scope
    } else {
        Origin::Unknown
    }
}

/// The function of a qualified name: that which the module before the colon exports under
/// the name after it.
pub open spec fn function_named(name: Seq<char>, modules: Seq<Exports>) -> Option<Func> {
    match qualifier(name) {
        Some(q) => match registered(modules, q) {
            Some(module) => exported(module.funcs, unqualified(name)),
            None => None,
        },
        None => None,
    }
}

impl View for Module {
    type V = Exports;

    closed spec fn view(&self) -> Exports {
        Exports { name: self.name@, funcs: named(self.funcs@) }
    }
}

impl Module {
    /// A module of the given name that exports nothing yet.
    pub fn new(name: String) -> (module: Module)
        ensures
            module@ == (Exports { name: name@, funcs: Seq::empty() }),
    {
        let module = Module { name, funcs: Vec::new() };
        assert(named(module.funcs@) =~= Seq::<(Seq<char>, Func)>::empty());
        module
    }

    /// The module with one more function, exported under the given name.
    pub fn add_func(self, name: String, func: Func) -> (module: Module)
        ensures
            module@ == (Exports { name: self@.name, funcs: self@.funcs.push((name@, func)) }),
    {
        let mut funcs = self.funcs;
        funcs.push((name, func));
        let module = Module { name: self.name, funcs };
        assert(named(module.funcs@) =~= named(self.funcs@).push((name@, func)));
        module
    }

    /// The name of the module.
    pub fn name(&self) -> (name: &String)
        ensures
            name@ == self@.name,
    {
        &self.name
    }

    /// The function that the module exports under a name.
    pub fn func(&self, name: &str) -> (r: Option<Func>)
        ensures
            r == exported(self@.funcs, name@),
    {
        let key = String::from_str(name);
        let ghost all = named(self.funcs@);
        let mut i: usize = self.funcs.len();
        assert(all.take(i as int) =~= all);
        while i > 0
            invariant
                i <= self.funcs.len(),
                all == named(self.funcs@),
                key@ == name@,
                exported(all, name@) == exported(all.take(i as int), name@),
            decreases i,
        {
            i -= 1;
            assert(all.take(i + 1).drop_last() =~= all.take(i as int));
            assert(all.take(i + 1).last() == all[i as int]);
            if self.funcs[i].0 == key {
                return Some(self.funcs[i].1);
            }
        }
        None
    }
}

/// The registry of modules.
#[derive(Debug)]
pub struct Engine {
    modules: Vec<Module>,
}

/// The views of the modules of a sequence.
pub open spec fn exports_of(modules: Seq<Module>) -> Seq<Exports> {
    Seq::new(modules.len(), |i: int| modules[i]@)
}

impl View for Engine {
    type V = Seq<Exports>;

    closed spec fn view(&self) -> Seq<Exports> {
        exports_of(self.modules@)
    }
}

/// The index of the first colon among the characters, or their number where there is none.
fn find_colon(name: &Vec<char>) -> (at: usize)
    ensures
        at == colon(name@),
        at <= name.len(),
{
    let mut i: usize = 0;
    assert(name@.skip(0) =~= name@);
    while i < name.len()
        invariant
            i <= name.len(),
            colon(name@) == i + colon(name@.skip(i as int)),
        decreases name.len() - i,
    {
        assert(name@.skip(i as int)[0] == name@[i as int]);
        assert(name@.skip(i as int).skip(1) =~= name@.skip(i + 1));
        if name[i] == ':' {
            return i;
        }
        i += 1;
    }
    i
}

/// The characters from `from` up to `to`, as a string.
fn substring(s: &Vec<char>, from: usize, to: usize) -> (r: String)
    requires
        from <= to <= s.len(),
    ensures
        r@ == s@.subrange(from as int, to as int),
{
    let mut part: Vec<char> = Vec::new();
    let mut i: usize = from;
    while i < to
        invariant
            from <= i <= to <= s.len(),
            part@ == s@.subrange(from as int, i as int),
        decreases to - i,
    {
        part.push(s[i]);
        assert(s@.subrange(from as int, i + 1) =~= s@.subrange(from as int, i as int).push(
            s@[i as int],
        ));
        i += 1;
    }
    string_of(&part)
}

impl Engine {
    /// A registry without modules.
    pub fn new() -> (engine: Engine)
        ensures
            engine@ == Seq::<Exports>::empty(),
    {
        let engine = Engine { modules: Vec::new() };
        assert(engine@ =~= Seq::<Exports>::empty());
        engine
    }

    /// Registers a module. It hides any module registered earlier under its name.
    pub fn add_module(&mut self, module: Module)
        ensures
            final(self)@ == old(self)@.push(module@),
    {
        self.modules.push(module);
        assert(self@ =~= old(self)@.push(module@));
    }

    /// The module registered under a name.
    pub fn module(&self, name: &str) -> (r: Option<&Module>)
        ensures
            match r {
                Some(module) => registered(self@, name@) == Some(module@),
                None => registered(self@, name@) is None,
            },
    {
        let key = String::from_str(name);
        let ghost all = exports_of(self.modules@);
        let mut i: usize = self.modules.len();
        assert(all.take(i as int) =~= all);
        while i > 0
            invariant
                i <= self.modules.len(),
                all == exports_of(self.modules@),
                key@ == name@,
                registered(all, name@) == registered(all.take(i as int), name@),
            decreases i,
        {
            i -= 1;
            assert(all.take(i + 1).drop_last() =~= all.take(i as int));
            assert(all.take(i + 1).last() == self.modules@[i as int]@);
            if self.modules[i].name == key {
                return Some(&self.modules[i]);
            }
        }
        None
    }

    /// The function of a qualified name.
    pub fn function(&self, name: &str) -> (r: Option<Func>)
        ensures
            r == function_named(name@, self@),
    {
        let chars = chars_of(name);
        let at = find_colon(&chars);
        if at >= chars.len() {
            return None;
        }
        let q = substring(&chars, 0, at);
        assert(q@ =~= name@.take(at as int));
        match self.module(q.as_str()) {
            Some(module) => {
                let rest = substring(&chars, at + 1, chars.len());
                assert(rest@ =~= name@.skip(at + 1));
                module.func(rest.as_str())
            },
            None => None,
        }
    }

    /// Where a name comes from.
    pub fn origin(&self, name: &str, context: &Context) -> (r: Origin)
        requires
            context.wf(),
        ensures
            r == origin(name@, self@, context@),
    {
        if Intrinsic::from_str(name).is_some() {
            return Origin::Intrinsic;
        }
        let chars = chars_of(name);
        let at = find_colon(&chars);
        if at < chars.len() {
            let q = substring(&chars, 0, at);
            assert(q@ =~= name@.take(at as int));
            if self.module(q.as_str()).is_some() {
                return Origin::Module;
            }
        }
        if context.let_get(name).is_some() {
            Origin::Let
        } else if context.scope_item(name).is_some() {
            Origin::Scope
        } else {
            Origin::Unknown
        }
    }
}

} // verus!

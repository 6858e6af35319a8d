use stack::scope::{call, dump, locate, module};
use stack::{Context, Engine, Expr, Func, Journal, Module, Origin, RunError, DEFAULT_MAX_LEN};

fn values(journal: &Journal) -> Vec<Vec<i64>> {
    (0..journal.len())
        .map(|i| {
            journal
                .get(i)
                .unwrap()
                .iter()
                .map(|e| match e {
                    Expr::Integer(n) => *n,
                    other => panic!("{:?}", other),
                })
                .collect()
        })
        .collect()
}

#[test]
fn the_journal_keeps_the_most_recent_snapshots() {
    let mut journal = Journal::new(3);
    assert_eq!(journal.max_len(), 3);
    assert_eq!(journal.len(), 0);
    assert!(journal.get(0).is_none());
    for n in 1..=2 {
        journal.push(vec![Expr::Integer(n)]);
    }
    assert_eq!(values(&journal), vec![vec![1], vec![2]]);
    journal.push(vec![Expr::Integer(3)]);
    assert_eq!(values(&journal), vec![vec![1], vec![2], vec![3]]);
    journal.push(vec![Expr::Integer(4)]);
    assert_eq!(values(&journal), vec![vec![2], vec![3], vec![4]]);
    for n in 5..=11 {
        journal.push(vec![Expr::Integer(n), Expr::Integer(-n)]);
        assert_eq!(journal.len(), 3);
    }
    assert_eq!(values(&journal), vec![vec![9, -9], vec![10, -10], vec![11, -11]]);
    assert!(journal.get(3).is_none());
}

#[test]
fn a_journal_of_one() {
    let mut journal = Journal::new(1);
    journal.push(vec![Expr::Integer(1)]);
    journal.push(vec![Expr::Integer(2)]);
    journal.push(vec![]);
    assert_eq!(values(&journal), vec![Vec::<i64>::new()]);
}

#[test]
fn a_journal_of_none_stays_empty() {
    let mut journal = Journal::new(0);
    journal.push(vec![Expr::Integer(1)]);
    journal.push(vec![Expr::Integer(2)]);
    assert_eq!(journal.len(), 0);
    assert!(journal.get(0).is_none());
}

#[test]
fn journaling_is_off_unless_asked_for() {
    let mut context = Context::new();
    assert!(context.journal().is_none());
    context.stack_push(Expr::Integer(1));
    context.record();
    assert!(context.journal().is_none());
    let context = context.with_journal(None);
    assert!(context.journal().is_none());
}

#[test]
fn the_context_records_its_stack() {
    assert_eq!(DEFAULT_MAX_LEN, 20);
    let mut context = Context::new().with_journal(Some(DEFAULT_MAX_LEN));
    assert_eq!(context.journal().unwrap().max_len(), 20);
    for n in 1..=25 {
        context.stack_push(Expr::Integer(n));
        context.record();
    }
    let journal = context.journal().unwrap();
    assert_eq!(journal.len(), 20);
    let history = values(journal);
    for (place, snapshot) in history.iter().enumerate() {
        let expected: Vec<i64> = (1..=(place as i64 + 6)).collect();
        assert_eq!(snapshot, &expected);
    }
    // A snapshot is a copy: what happens to the stack afterwards leaves it alone.
    assert_eq!(context.stack_pop(), Ok(Expr::Integer(25)));
    assert_eq!(values(context.journal().unwrap())[19].len(), 25);
}

#[test]
fn the_stack_of_the_context() {
    let mut context = Context::new();
    assert_eq!(context.stack_pop(), Err(RunError::StackUnderflow));
    context.stack_push(Expr::Integer(1));
    context.stack_push(Expr::String("two".to_owned()));
    assert_eq!(context.stack().len(), 2);
    assert_eq!(context.stack_pop(), Ok(Expr::String("two".to_owned())));
    assert_eq!(context.stack_pop(), Ok(Expr::Integer(1)));
    assert_eq!(context.stack_pop(), Err(RunError::StackUnderflow));
    assert!(context.stack().is_empty());
}

#[test]
fn the_innermost_binding_is_seen() {
    let mut context = Context::new();
    assert_eq!(context.let_get("x"), None);
    context.let_set("x".to_owned(), Expr::Integer(1));
    assert_eq!(context.let_get("x"), Some(&Expr::Integer(1)));
    context.let_push();
    assert_eq!(context.let_get("x"), Some(&Expr::Integer(1)));
    context.let_set("x".to_owned(), Expr::Integer(2));
    context.let_set("y".to_owned(), Expr::Integer(3));
    assert_eq!(context.let_get("x"), Some(&Expr::Integer(2)));
    context.let_set("x".to_owned(), Expr::Integer(4));
    assert_eq!(context.let_get("x"), Some(&Expr::Integer(4)));
    context.let_pop();
    assert_eq!(context.let_get("x"), Some(&Expr::Integer(1)));
    assert_eq!(context.let_get("y"), None);
    // The outermost scope stays.
    context.let_pop();
    assert_eq!(context.let_get("x"), Some(&Expr::Integer(1)));
}

#[test]
fn items_are_persistent_and_keep_their_place() {
    let mut context = Context::new();
    assert_eq!(context.scope_item("a"), None);
    context.def("a".to_owned(), Expr::Integer(1));
    context.def("b".to_owned(), Expr::Integer(2));
    context.let_push();
    context.def("a".to_owned(), Expr::Integer(3));
    context.let_pop();
    assert_eq!(context.scope_item("a"), Some(&Expr::Integer(3)));
    assert_eq!(context.scope_item("b"), Some(&Expr::Integer(2)));
    assert_eq!(
        context.scope_items(),
        &vec![("a".to_owned(), Expr::Integer(3)), ("b".to_owned(), Expr::Integer(2))]
    );
}

#[test]
fn a_binding_hides_an_item() {
    let mut context = Context::new();
    context.def("x".to_owned(), Expr::Integer(1));
    assert_eq!(context.get("x"), Some(&Expr::Integer(1)));
    context.let_set("x".to_owned(), Expr::Integer(2));
    assert_eq!(context.get("x"), Some(&Expr::Integer(2)));
    assert_eq!(context.scope_item("x"), Some(&Expr::Integer(1)));
    assert_eq!(context.get("y"), None);
}

#[test]
fn the_scope_module() {
    let scope = module();
    assert_eq!(scope.name(), "scope");
    assert_eq!(scope.func("where"), Some(Func::Where));
    assert_eq!(scope.func("dump"), Some(Func::Dump));
    assert_eq!(scope.func("scope"), None);
    assert_eq!(scope.func(""), None);
}

#[test]
fn the_function_added_last_is_found() {
    let module = Module::new("m".to_owned())
        .add_func("f".to_owned(), Func::Where)
        .add_func("g".to_owned(), Func::Where)
        .add_func("f".to_owned(), Func::Dump);
    assert_eq!(module.func("f"), Some(Func::Dump));
    assert_eq!(module.func("g"), Some(Func::Where));
}

#[test]
fn qualified_names_split_at_the_first_colon() {
    let mut engine = Engine::new();
    assert!(engine.module("scope").is_none());
    engine.add_module(module());
    engine.add_module(Module::new("a".to_owned()).add_func("b:c".to_owned(), Func::Dump));
    assert_eq!(engine.module("scope").unwrap().name(), "scope");
    assert_eq!(engine.function("scope:where"), Some(Func::Where));
    assert_eq!(engine.function("scope:dump"), Some(Func::Dump));
    assert_eq!(engine.function("scope:other"), None);
    assert_eq!(engine.function("scope"), None);
    assert_eq!(engine.function("where"), None);
    assert_eq!(engine.function("other:where"), None);
    assert_eq!(engine.function("a:b:c"), Some(Func::Dump));
    assert_eq!(engine.function(":where"), None);
    assert_eq!(engine.function("scope:"), None);
}

#[test]
fn names_are_resolved_in_order() {
    let mut engine = Engine::new();
    engine.add_module(module());
    let mut context = Context::new();
    assert_eq!(engine.origin("+", &context), Origin::Intrinsic);
    assert_eq!(engine.origin("scope:where", &context), Origin::Module);
    assert_eq!(engine.origin("scope:nothing", &context), Origin::Module);
    assert_eq!(engine.origin("other:where", &context), Origin::Unknown);
    assert_eq!(engine.origin("scope", &context), Origin::Unknown);
    assert_eq!(engine.origin("x", &context), Origin::Unknown);

    context.def("x".to_owned(), Expr::Integer(1));
    assert_eq!(engine.origin("x", &context), Origin::Scope);
    context.let_set("x".to_owned(), Expr::Integer(2));
    assert_eq!(engine.origin("x", &context), Origin::Let);

    // An intrinsic comes before a binding of its name, a module before a binding too.
    context.let_set("swap".to_owned(), Expr::Integer(3));
    context.def("swap".to_owned(), Expr::Integer(3));
    assert_eq!(engine.origin("swap", &context), Origin::Intrinsic);
    context.let_set("scope:where".to_owned(), Expr::Integer(4));
    assert_eq!(engine.origin("scope:where", &context), Origin::Module);
    context.let_set("other:where".to_owned(), Expr::Integer(5));
    assert_eq!(engine.origin("other:where", &context), Origin::Let);
}

fn ask(engine: &Engine, context: &mut Context, asked: Expr) -> Expr {
    context.stack_push(asked);
    assert_eq!(locate(engine, context), Ok(()));
    context.stack_pop().unwrap()
}

#[test]
fn where_says_where_a_name_comes_from() {
    let mut engine = Engine::new();
    engine.add_module(module());
    let mut context = Context::new();
    context.let_set("local".to_owned(), Expr::Integer(1));
    context.def("item".to_owned(), Expr::Integer(2));
    let symbol = |name: &str| Expr::Symbol(name.to_owned());
    let string = |text: &str| Expr::String(text.to_owned());

    assert_eq!(ask(&engine, &mut context, symbol("dupe")), string("intrinsic"));
    assert_eq!(ask(&engine, &mut context, symbol("scope:dump")), string("module"));
    assert_eq!(ask(&engine, &mut context, symbol("local")), string("let"));
    assert_eq!(ask(&engine, &mut context, symbol("item")), string("scope"));
    assert_eq!(ask(&engine, &mut context, symbol("nothing")), Expr::Nil);
    assert_eq!(ask(&engine, &mut context, string("dupe")), Expr::Nil);
    assert_eq!(ask(&engine, &mut context, Expr::Call("dupe".to_owned())), Expr::Nil);
    assert_eq!(ask(&engine, &mut context, Expr::Integer(1)), Expr::Nil);
    assert!(context.stack().is_empty());

    assert_eq!(locate(&engine, &mut context), Err(RunError::StackUnderflow));
    assert!(context.stack().is_empty());
}

#[test]
fn where_takes_one_value_and_pushes_one() {
    let engine = Engine::new();
    let mut context = Context::new();
    context.stack_push(Expr::Integer(7));
    context.stack_push(Expr::Symbol("+".to_owned()));
    assert_eq!(call(Func::Where, &engine, &mut context), Ok(()));
    assert_eq!(
        context.stack(),
        &vec![Expr::Integer(7), Expr::String("intrinsic".to_owned())]
    );
}

#[test]
fn dump_lists_the_items() {
    let engine = Engine::new();
    let mut context = Context::new();
    dump(&mut context);
    assert_eq!(context.stack_pop(), Ok(Expr::List(vec![])));

    context.def("a".to_owned(), Expr::Integer(1));
    context.def("b".to_owned(), Expr::Block(vec![Expr::Call("+".to_owned())]));
    context.let_set("c".to_owned(), Expr::Integer(3));
    context.stack_push(Expr::Integer(0));
    assert_eq!(call(Func::Dump, &engine, &mut context), Ok(()));
    assert_eq!(
        context.stack(),
        &vec![
            Expr::Integer(0),
            Expr::List(vec![
                Expr::List(vec![Expr::Symbol("a".to_owned()), Expr::Integer(1)]),
                Expr::List(vec![
                    Expr::Symbol("b".to_owned()),
                    Expr::Block(vec![Expr::Call("+".to_owned())]),
                ]),
            ]),
        ]
    );
    // The items are still there.
    assert_eq!(context.scope_items().len(), 2);
}

#[test]
fn assigning_needs_a_binding() {
    let mut context = Context::new();
    assert!(!context.set("x".to_owned(), Expr::Integer(1)));
    assert_eq!(context.get("x"), None);
    assert!(context.scope_items().is_empty());

    context.def("x".to_owned(), Expr::Integer(1));
    assert!(context.set("x".to_owned(), Expr::Integer(2)));
    assert_eq!(context.scope_item("x"), Some(&Expr::Integer(2)));
    assert_eq!(context.scope_items().len(), 1);
}

#[test]
fn assigning_reaches_the_scope_that_binds() {
    let mut context = Context::new();
    context.def("x".to_owned(), Expr::Integer(0));
    context.let_set("x".to_owned(), Expr::Integer(1));
    context.let_push();
    context.let_set("y".to_owned(), Expr::Integer(2));
    // `x` is bound in the outer scope: the assignment is made there and outlives the inner one.
    assert!(context.set("x".to_owned(), Expr::Integer(3)));
    assert_eq!(context.let_get("x"), Some(&Expr::Integer(3)));
    context.let_pop();
    assert_eq!(context.let_get("x"), Some(&Expr::Integer(3)));
    // The item of the same name was hidden and is untouched.
    assert_eq!(context.scope_item("x"), Some(&Expr::Integer(0)));
}

#[test]
fn a_definition_disturbs_nothing_else() {
    let mut context = Context::new();
    context.def("a".to_owned(), Expr::Integer(1));
    context.def("b".to_owned(), Expr::Integer(2));
    context.def("c".to_owned(), Expr::Integer(3));
    context.def("b".to_owned(), Expr::Integer(20));
    assert_eq!(context.scope_item("a"), Some(&Expr::Integer(1)));
    assert_eq!(context.scope_item("b"), Some(&Expr::Integer(20)));
    assert_eq!(context.scope_item("c"), Some(&Expr::Integer(3)));
    let names: Vec<&str> = context.scope_items().iter().map(|(n, _)| n.as_str()).collect();
    assert_eq!(names, vec!["a", "b", "c"]);
}

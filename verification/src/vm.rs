//! The virtual machine: a flat stream of instructions, an instruction pointer and a stack
//! of values.
//!
//! The compiler lowers one expression to one instruction and ends the stream with `End`.
//! A step reads the instruction under the pointer, moves the pointer on by one and then
//! executes what it read. There are no jumps. Whatever the machine cannot do itself, an
//! operation on two floats or writing a value out, it hands to its caller as an
//! [`Action`]; a step that fails leaves the stack as it found it.
use crate::expr::{trees, Expr, Tree};
use crate::intrinsic::{intrinsic_named, Intrinsic};
use crate::val::{Arith, Val};
use vstd::prelude::*;
use vstd::std_specs::cmp::PartialEqSpecImpl;

verus! {

/// An instruction.
#[derive(Debug, Clone, Copy)]
pub enum Op {
    /// Pushes the value.
    Push(Val),
    /// Runs the built-in operation.
    Intrinsic(Intrinsic),
    /// Halts the machine.
    End,
}

/// Why the machine stopped.
#[derive(Debug, Clone, Copy, PartialEq, Eq, Structural, PartialOrd, Ord, Hash, Default)]
pub enum VMError {
    #[default]
    Unknown,
    /// The machine halted: it executed `End` or the `halt` intrinsic. This is no failure.
    Halt,
    /// The instruction pointer stands at the end of a stream that did not end in `End`.
    IPBounds,
    /// An operation found fewer values on the stack than it takes.
    StackUnderflow,
    /// An arithmetic operation met operands that it does not support: an integer with a
    /// float, or a zero divisor. The operands are still on the stack.
    Operands,
    /// An intrinsic that has no meaning on a stack of numbers.
    Unsupported,
}

/// An arithmetic operation that the machine leaves to its caller.
#[derive(Debug, Clone, Copy, PartialEq, Eq, Structural)]
pub enum FloatOp {
    Add,
    Sub,
    Mul,
    Div,
    Rem,
}

/// What a successful step leaves for the caller to do before the next one.
#[derive(Debug, Clone, Copy)]
pub enum Action {
    /// Nothing.
    Continue,
    /// Apply the operation to the two floats, the left operand first, and push the float
    /// that results. The operands are off the stack.
    Float(FloatOp, u64, u64),
    /// Write out the value, which `print` took off the stack.
    Print(Val),
    /// Write out the value in its long form; `pretty` took it off the stack.
    Pretty(Val),
    /// Write out the value for inspection; `debug` left it on the stack.
    Debug(Val),
}

/// Why a program was not compiled.
#[derive(Debug, Clone, Copy, PartialEq, Eq, Structural)]
pub struct CompileError {
    /// The index of the first expression that has no instruction.
    pub index: usize,
}

/// The instruction of an expression: a push for an integer or a float, the intrinsic for
/// a call of its name, and none for anything else.
pub open spec fn lowered(e: Tree) -> Option<Op> {
    match e {
        Tree::Integer(i) => Some(Op::Push(Val::Integer(i))),
        Tree::Float(f) => Some(Op::Push(Val::Float(f))),
        Tree::Call(name) => match intrinsic_named(name) {
            Some(i) => Some(Op::Intrinsic(i)),
            None => None,
        },
        _ => None,
    }
}

/// Whether every expression of the program has an instruction.
pub open spec fn lowers(program: Seq<Tree>) -> bool {
    forall|i: int| 0 <= i < program.len() ==> lowered(#[trigger] program[i]) is Some
}

/// The index of the first expression without an instruction, or the length of the program.
pub open spec fn first_unlowered(program: Seq<Tree>) -> int
    decreases program.len(),
{
    if program.len() == 0 {
        0
    } else if lowered(program[0]) is None {
        0
    } else {
        1 + first_unlowered(program.skip(1))
    }
}

/// The instructions of a program whose expressions all have one: one for each expression,
/// in order, and `End` behind them.
pub open spec fn compiled(program: Seq<Tree>) -> Seq<Op> {
    Seq::new(program.len(), |i: int| lowered(program[i])->0).push(Op::End)
}

/// 1 for true and 0 for false: the machine has no booleans of its own.
pub open spec fn truth(b: bool) -> Val {
    if b {
        Val::Integer(1)
    } else {
        Val::Integer(0)
    }
}

/// What an arithmetic intrinsic computes.
pub open spec fn arithmetic(i: Intrinsic, lhs: Val, rhs: Val) -> Result<Arith, (Val, Val)> {
    match i {
        Intrinsic::Add => lhs.sum(rhs),
        Intrinsic::Sub => lhs.difference(rhs),
        Intrinsic::Mul => lhs.product(rhs),
        Intrinsic::Div => lhs.ratio(rhs),
        _ => lhs.modulo(rhs),
    }
}

/// The operation that an arithmetic intrinsic leaves to the caller on two floats.
pub open spec fn float_op(i: Intrinsic) -> FloatOp {
    match i {
        Intrinsic::Add => FloatOp::Add,
        Intrinsic::Sub => FloatOp::Sub,
        Intrinsic::Mul => FloatOp::Mul,
        Intrinsic::Div => FloatOp::Div,
        _ => FloatOp::Rem,
    }
}

/// What a comparison or a boolean intrinsic of two operands says.
pub open spec fn relation(i: Intrinsic, lhs: Val, rhs: Val) -> bool {
    match i {
        Intrinsic::Eq => lhs.equals(rhs),
        Intrinsic::Ne => !lhs.equals(rhs),
        Intrinsic::Lt => lhs.precedes(rhs),
        Intrinsic::Le => lhs.precedes(rhs) || lhs.equals(rhs),
        Intrinsic::Gt => rhs.precedes(lhs),
        Intrinsic::Ge => rhs.precedes(lhs) || lhs.equals(rhs),
        Intrinsic::Or => lhs.truthy() || rhs.truthy(),
        _ => lhs.truthy() && rhs.truthy(),
    }
}

/// The families of intrinsics, by what they do to a stack of numbers.
pub enum Family {
    /// `+ - * / %`: two operands, one result.
    Arithmetic,
    /// `= != < <= > >= or and`: two operands, a truth value.
    Relation,
    /// An intrinsic of its own kind.
    Single,
    /// An intrinsic that works on names, blocks or collections, of which a stack of
    /// numbers has none.
    Unsupported,
}

/// The family of an intrinsic.
pub open spec fn family(i: Intrinsic) -> Family {
    match i {
        Intrinsic::Add | Intrinsic::Sub | Intrinsic::Mul | Intrinsic::Div | Intrinsic::Rem => {
            Family::Arithmetic
        },
        Intrinsic::Eq
        | Intrinsic::Ne
        | Intrinsic::Lt
        | Intrinsic::Le
        | Intrinsic::Gt
        | Intrinsic::Ge
        | Intrinsic::Or
        | Intrinsic::And => Family::Relation,
        Intrinsic::Not
        | Intrinsic::Drop
        | Intrinsic::Dupe
        | Intrinsic::Swap
        | Intrinsic::Rot
        | Intrinsic::Halt
        | Intrinsic::Print
        | Intrinsic::Pretty
        | Intrinsic::Debug => Family::Single,
        _ => Family::Unsupported,
    }
}

/// What an intrinsic does to the stack, whose top is its last value, and what comes back.
///
/// The second value from the top is the left operand. Arithmetic takes two operands and
/// pushes the result, or takes two floats and leaves the operation to the caller. A
/// comparison or `or` or `and` takes two operands and pushes 1 or 0; `not` takes one.
/// `drop` takes the top off, `dupe` pushes it once more, `swap` exchanges the two on top,
/// and `rot` brings the third from the top to the top. `halt` halts. `print` and `pretty`
/// take the top off and hand it to the caller, `debug` hands it over and leaves it. An
/// operation that finds too few values fails with an underflow, arithmetic on operands it
/// does not support with `Operands`, and any other intrinsic with `Unsupported`; a failure
/// leaves the stack as it was.
pub open spec fn apply(stack: Seq<Val>, i: Intrinsic) -> (Seq<Val>, Result<Action, VMError>) {
    let n = stack.len() as int;
    match family(i) {
        Family::Arithmetic => if n < 2 {
            (stack, Err(VMError::StackUnderflow))
        } else {
            match arithmetic(i, stack[n - 2], stack[n - 1]) {
                Ok(Arith::Done(v)) => (stack.take(n - 2).push(v), Ok(Action::Continue)),
                Ok(Arith::Floats(a, b)) => (stack.take(n - 2), Ok(Action::Float(float_op(i), a, b))),
                Err(_) => (stack, Err(VMError::Operands)),
            }
        },
        Family::Relation => if n < 2 {
            (stack, Err(VMError::StackUnderflow))
        } else {
            (
                stack.take(n - 2).push(truth(relation(i, stack[n - 2], stack[n - 1]))),
                Ok(Action::Continue),
            )
        },
        Family::Unsupported => (stack, Err(VMError::Unsupported)),
        Family::Single => match i {
            Intrinsic::Halt => (stack, Err(VMError::Halt)),
            Intrinsic::Rot => if n < 3 {
                (stack, Err(VMError::StackUnderflow))
            } else {
                (
                    stack.take(n - 3).push(stack[n - 2]).push(stack[n - 1]).push(stack[n - 3]),
                    Ok(Action::Continue),
                )
            },
            Intrinsic::Swap => if n < 2 {
                (stack, Err(VMError::StackUnderflow))
            } else {
                (stack.take(n - 2).push(stack[n - 1]).push(stack[n - 2]), Ok(Action::Continue))
            },
            _ => if n < 1 {
                (stack, Err(VMError::StackUnderflow))
            } else {
                let top = stack[n - 1];
                match i {
                    Intrinsic::Not => (
                        stack.take(n - 1).push(truth(!top.truthy())),
                        Ok(Action::Continue),
                    ),
                    Intrinsic::Drop => (stack.take(n - 1), Ok(Action::Continue)),
                    Intrinsic::Dupe => (stack.push(top), Ok(Action::Continue)),
                    Intrinsic::Print => (stack.take(n - 1), Ok(Action::Print(top))),
                    Intrinsic::Pretty => (stack.take(n - 1), Ok(Action::Pretty(top))),
                    _ => (stack, Ok(Action::Debug(top))),
                }
            },
        },
    }
}

/// The machine as a mathematical value.
pub struct Machine {
    /// The instruction stream.
    pub ops: Seq<Op>,
    /// The instruction pointer: the index of the next instruction.
    pub ip: nat,
    /// The stack, its top last.
    pub stack: Seq<Val>,
}

impl Machine {
    /// Whether the machine is well formed: its pointer stands within its stream or at the
    /// end of it. Every machine that the library makes is, and stays so.
    pub open spec fn wf(self) -> bool {
        self.ip <= self.ops.len()
    }

    /// Whether the stream ends in `End`.
    pub open spec fn ends(self) -> bool {
        self.ops.len() > 0 && self.ops.last() is End
    }

    /// One step: the machine after it, and what comes back.
    ///
    /// Within the stream, the pointer moves on by one and the instruction it stood on is
    /// executed. At the end of the stream nothing changes: a machine whose stream ends in
    /// `End` has executed it and reports the halt again, and any other machine reports that
    /// the pointer is out of bounds.
    pub open spec fn step(self) -> (Machine, Result<Action, VMError>) {
        if self.ip >= self.ops.len() {
            (
                self,
                if self.ends() {
                    Err(VMError::Halt)
                } else {
                    Err(VMError::IPBounds)
                },
            )
        } else {
            let next = Machine { ops: self.ops, ip: self.ip + 1, stack: self.stack };
            match self.ops[self.ip as int] {
                Op::Push(v) => (
                    Machine { stack: self.stack.push(v), ..next },
                    Ok(Action::Continue),
                ),
                Op::Intrinsic(i) => {
                    let (stack, r) = apply(self.stack, i);
                    (Machine { stack, ..next }, r)
                },
                Op::End => (next, Err(VMError::Halt)),
            }
        }
    }

    /// Steps until one comes back with anything but `Continue`: the machine after that
    /// step, and what came back.
    pub open spec fn run(self) -> (Machine, Result<Action, VMError>)
        decreases self.ops.len() - self.ip,
    {
        let (next, r) = self.step();
        if self.ip < self.ops.len() && r is Ok && r->Ok_0 is Continue {
            next.run()
        } else {
            (next, r)
        }
    }

    /// The number of steps that [`Machine::run`] takes, the last one counted.
    pub open spec fn steps(self) -> nat
        decreases self.ops.len() - self.ip,
    {
        let (next, r) = self.step();
        if self.ip < self.ops.len() && r is Ok && r->Ok_0 is Continue {
            1 + next.steps()
        } else {
            1
        }
    }
}

/// A stack machine.
#[derive(Debug, Clone, PartialEq)]
pub struct VM {
    /// The instruction stream.
    ops: Vec<Op>,
    /// The index of the next instruction.
    ip: usize,
    /// The register file, kept for the linkage of call frames. No instruction uses it yet.
    registers: Vec<Val>,
    /// The stack, its top last.
    stack: Vec<Val>,
}

impl View for VM {
    type V = Machine;

    closed spec fn view(&self) -> Machine {
        Machine { ops: self.ops@, ip: self.ip as nat, stack: self.stack@ }
    }
}

impl VM {
    /// A machine with no instructions and an empty stack.
    pub fn new() -> (vm: VM)
        ensures
            vm@ == (Machine { ops: Seq::empty(), ip: 0, stack: Seq::empty() }),
            vm@.wf(),
    {
        VM { ops: Vec::new(), ip: 0, registers: Vec::new(), stack: Vec::new() }
    }

    /// The stack, its top last.
    pub fn stack(&self) -> (s: &Vec<Val>)
        ensures
            s@ == self@.stack,
    {
        &self.stack
    }

    /// The instruction stream.
    pub fn ops(&self) -> (o: &Vec<Op>)
        ensures
            o@ == self@.ops,
    {
        &self.ops
    }

    /// The instruction pointer.
    pub fn ip(&self) -> (ip: usize)
        ensures
            ip == self@.ip,
    {
        self.ip
    }

    /// Takes the top value off the stack. An empty stack is an underflow.
    pub fn stack_pop(&mut self) -> (r: Result<Val, VMError>)
        ensures
            final(self)@.ops == old(self)@.ops,
            final(self)@.ip == old(self)@.ip,
            match r {
                Ok(v) => old(self)@.stack.len() > 0 && v == old(self)@.stack.last()
                    && final(self)@.stack == old(self)@.stack.drop_last(),
                Err(e) => e == VMError::StackUnderflow && old(self)@.stack.len() == 0
                    && final(self)@.stack == old(self)@.stack,
            },
    {
        match self.stack.pop() {
            Some(val) => Ok(val),
            None => Err(VMError::StackUnderflow),
        }
    }

    /// Puts a value on top of the stack.
    pub fn stack_push(&mut self, val: Val)
        ensures
            final(self)@ == (Machine { stack: old(self)@.stack.push(val), ..old(self)@ }),
    {
        self.stack.push(val);
    }

    /// The instruction of an expression, or nothing where it has none.
    pub fn compile_expr(&self, expr: Expr) -> (op: Option<Op>)
        ensures
            op == lowered(expr@),
    {
        match expr {
            Expr::Integer(i) => Some(Op::Push(Val::Integer(i))),
            Expr::Float(f) => Some(Op::Push(Val::Float(f))),
            Expr::Call(name) => match Intrinsic::from_str(name.as_str()) {
                Some(intrinsic) => Some(Op::Intrinsic(intrinsic)),
                None => None,
            },
            _ => None,
        }
    }

    /// Appends the instructions of a program and, behind them, `End`. Where an expression
    /// has no instruction the machine stays as it is, and the index of the first such
    /// expression comes back.
    pub fn compile(&mut self, exprs: Vec<Expr>) -> (r: Result<(), CompileError>)
        requires
            old(self)@.wf(),
        ensures
            final(self)@.wf(),
            match r {
                Ok(_) => lowers(trees(exprs@)) && final(self)@ == (Machine {
                    ops: old(self)@.ops + compiled(trees(exprs@)),
                    ..old(self)@
                }),
                Err(e) => !lowers(trees(exprs@)) && e.index == first_unlowered(trees(exprs@))
                    && final(self)@ == old(self)@,
            },
    {
        let ghost program = trees(exprs@);
        let mut ops: Vec<Op> = Vec::new();
        let mut i: usize = 0;
        let mut rest = exprs;
        let n = rest.len();
        assert(program.skip(0) =~= program);
        while i < n
            invariant
                i <= n,
                self@ == old(self)@,
                n == rest.len(),
                old(self)@.wf(),
                program == trees(exprs@),
                program.len() == n,
                forall|j: int| i <= j < n ==> rest@[j]@ == #[trigger] program[j],
                ops@.len() == i,
                forall|j: int| 0 <= j < i ==> lowered(#[trigger] program[j]) == Some(ops@[j]),
                first_unlowered(program) == i + first_unlowered(program.skip(i as int)),
            decreases n - i,
        {
            let mut expr = Expr::Nil;
                        core::mem::swap(&mut rest[i], &mut expr);
            assert(expr@ == program[i as int]);
            assert(program.skip(i as int)[0] == program[i as int]);
            assert(program.skip(i as int).skip(1) =~= program.skip(i + 1));
            match self.compile_expr(expr) {
                Some(op) => {
                    ops.push(op);
                },
                None => {
                    return Err(CompileError { index: i });
                },
            }
            i += 1;
        }
        ops.push(Op::End);
        assert(ops@ =~= compiled(program));
        let mut ops = ops;
        self.ops.append(&mut ops);
        Ok(())
    }

    /// Executes one instruction: see [`Machine::step`].
    pub fn step(&mut self) -> (r: Result<Action, VMError>)
        requires
            old(self)@.wf(),
        ensures
            (final(self)@, r) == old(self)@.step(),
            final(self)@.wf(),
    {
        if self.ip >= self.ops.len() {
            let n = self.ops.len();
            if n > 0 {
                if let Op::End = self.ops[n - 1] {
                    return Err(VMError::Halt);
                }
            }
            return Err(VMError::IPBounds);
        }
        let op = self.ops[self.ip];
        self.ip = self.ip + 1;
        match op {
            Op::Push(val) => {
                self.stack.push(val);
                Ok(Action::Continue)
            },
            Op::Intrinsic(intrinsic) => self.execute(intrinsic),
            Op::End => Err(VMError::Halt),
        }
    }

    /// Steps until a step comes back with anything but `Continue`: with a halt, a failure,
    /// or something for the caller to do, after which the caller may run the machine on.
    pub fn run(&mut self) -> (r: Result<Action, VMError>)
        requires
            old(self)@.wf(),
        ensures
            (final(self)@, r) == old(self)@.run(),
            final(self)@.wf(),
            !(r matches Ok(Action::Continue)),
    {
        loop
            invariant
                self@.wf(),
                old(self)@.run() == self@.run(),
            decreases self.ops.len() - self.ip,
        {
            let at_end = self.ip >= self.ops.len();
            let r = self.step();
            match r {
                Ok(Action::Continue) => {
                    assert(!at_end);
                },
                _ => {
                    return r;
                },
            }
        }
    }

    /// Runs an intrinsic on the stack: see [`apply`].
    fn execute(&mut self, i: Intrinsic) -> (r: Result<Action, VMError>)
        requires
            old(self).ip <= old(self).ops.len(),
        ensures
            final(self).ip <= final(self).ops.len(),
            final(self)@.ops == old(self)@.ops,
            final(self)@.ip == old(self)@.ip,
            (final(self)@.stack, r) == apply(old(self)@.stack, i),
    {
        let n = self.stack.len();
        match i {
            Intrinsic::Add | Intrinsic::Sub | Intrinsic::Mul | Intrinsic::Div | Intrinsic::Rem => {
                if n < 2 {
                    return Err(VMError::StackUnderflow);
                }
                let lhs = self.stack[n - 2];
                let rhs = self.stack[n - 1];
                let result = match i {
                    Intrinsic::Add => lhs.add(rhs),
                    Intrinsic::Sub => lhs.sub(rhs),
                    Intrinsic::Mul => lhs.mul(rhs),
                    Intrinsic::Div => lhs.div(rhs),
                    _ => lhs.rem(rhs),
                };
                match result {
                    Ok(Arith::Done(v)) => {
                        self.stack.truncate(n - 2);
                        self.stack.push(v);
                        Ok(Action::Continue)
                    },
                    Ok(Arith::Floats(a, b)) => {
                        self.stack.truncate(n - 2);
                        let op = match i {
                            Intrinsic::Add => FloatOp::Add,
                            Intrinsic::Sub => FloatOp::Sub,
                            Intrinsic::Mul => FloatOp::Mul,
                            Intrinsic::Div => FloatOp::Div,
                            _ => FloatOp::Rem,
                        };
                        Ok(Action::Float(op, a, b))
                    },
                    Err(_) => Err(VMError::Operands),
                }
            },
            Intrinsic::Eq
            | Intrinsic::Ne
            | Intrinsic::Lt
            | Intrinsic::Le
            | Intrinsic::Gt
            | Intrinsic::Ge
            | Intrinsic::Or
            | Intrinsic::And => {
                if n < 2 {
                    return Err(VMError::StackUnderflow);
                }
                let lhs = self.stack[n - 2];
                let rhs = self.stack[n - 1];
                let holds = match i {
                    Intrinsic::Eq => lhs.is_equal(rhs),
                    Intrinsic::Ne => !lhs.is_equal(rhs),
                    Intrinsic::Lt => lhs.is_less(rhs),
                    Intrinsic::Le => lhs.is_less(rhs) || lhs.is_equal(rhs),
                    Intrinsic::Gt => rhs.is_less(lhs),
                    Intrinsic::Ge => rhs.is_less(lhs) || lhs.is_equal(rhs),
                    Intrinsic::Or => lhs.is_truthy() || rhs.is_truthy(),
                    _ => lhs.is_truthy() && rhs.is_truthy(),
                };
                self.stack.truncate(n - 2);
                self.stack.push(truth_of(holds));
                Ok(Action::Continue)
            },
            Intrinsic::Halt => Err(VMError::Halt),
            Intrinsic::Rot => {
                if n < 3 {
                    return Err(VMError::StackUnderflow);
                }
                let a = self.stack[n - 3];
                let b = self.stack[n - 2];
                let c = self.stack[n - 1];
                self.stack.truncate(n - 3);
                self.stack.push(b);
                self.stack.push(c);
                self.stack.push(a);
                Ok(Action::Continue)
            },
            Intrinsic::Swap => {
                if n < 2 {
                    return Err(VMError::StackUnderflow);
                }
                let a = self.stack[n - 2];
                let b = self.stack[n - 1];
                self.stack.truncate(n - 2);
                self.stack.push(b);
                self.stack.push(a);
                Ok(Action::Continue)
            },
            Intrinsic::Not
            | Intrinsic::Drop
            | Intrinsic::Dupe
            | Intrinsic::Print
            | Intrinsic::Pretty
            | Intrinsic::Debug => {
                if n < 1 {
                    return Err(VMError::StackUnderflow);
                }
                let top = self.stack[n - 1];
                match i {
                    Intrinsic::Not => {
                        self.stack.truncate(n - 1);
                        self.stack.push(truth_of(!top.is_truthy()));
                        Ok(Action::Continue)
                    },
                    Intrinsic::Drop => {
                        self.stack.truncate(n - 1);
                        Ok(Action::Continue)
                    },
                    Intrinsic::Dupe => {
                        self.stack.push(top);
                        Ok(Action::Continue)
                    },
                    Intrinsic::Print => {
                        self.stack.truncate(n - 1);
                        Ok(Action::Print(top))
                    },
                    Intrinsic::Pretty => {
                        self.stack.truncate(n - 1);
                        Ok(Action::Pretty(top))
                    },
                    _ => Ok(Action::Debug(top)),
                }
            },
            _ => Err(VMError::Unsupported),
        }
    }
}

/// The stream of a compiled program has one instruction for each expression and one `End`,
/// which is its last instruction.
pub proof fn lemma_compiled_ends_once(program: Seq<Tree>)
    requires
        lowers(program),
    ensures
        compiled(program).len() == program.len() + 1,
        compiled(program).last() is End,
        forall|i: int| 0 <= i < program.len() ==> !(#[trigger] compiled(program)[i] is End),
{
    assert forall|i: int| 0 <= i < program.len() implies !(#[trigger] compiled(program)[i]
        is End) by {
        assert(lowered(program[i]) is Some);
    }
}

/// A machine whose stream ends in `End` stops within as many steps as it has instructions
/// left: every step moves the pointer on by one, there are no jumps, and the last
/// instruction halts. What stops the machine is a halt, a failure, or an action for the
/// caller; a caller who runs the machine on after an action starts from a pointer further
/// on, so that all the runs together take no more steps than the stream is long.
pub proof fn lemma_run_stops(m: Machine)
    requires
        m.wf(),
        m.ends(),
        m.ip < m.ops.len(),
    ensures
        m.steps() <= m.ops.len() - m.ip,
        m.steps() == m.run().0.ip - m.ip,
        !(m.run().1 matches Ok(Action::Continue)),
        m.run().0.ops == m.ops,
        m.run().0.wf(),
    decreases m.ops.len() - m.ip,
{
    let (next, r) = m.step();
    if r is Ok && r->Ok_0 is Continue {
        lemma_run_stops(next);
    }
}

/// A machine that starts on a compiled program stops within as many steps as the stream is
/// long, whatever is on its stack.
pub proof fn lemma_compiled_program_stops(program: Seq<Tree>, stack: Seq<Val>)
    requires
        lowers(program),
    ensures
        (Machine { ops: compiled(program), ip: 0, stack }).steps() <= program.len() + 1,
{
    lemma_compiled_ends_once(program);
    lemma_run_stops(Machine { ops: compiled(program), ip: 0, stack });
}

/// 1 for true and 0 for false.
fn truth_of(b: bool) -> (v: Val)
    ensures
        v == truth(b),
{
    if b {
        Val::Integer(1)
    } else {
        Val::Integer(0)
    }
}

impl Default for VM {
    fn default() -> (vm: VM)
        ensures
            vm@ == (Machine { ops: Seq::empty(), ip: 0, stack: Seq::empty() }),
            vm@.wf(),
    {
        VM::new()
    }
}

impl PartialEq for Op {
    fn eq(&self, other: &Op) -> (r: bool) {
        match (*self, *other) {
            (Op::Push(a), Op::Push(b)) => a == b,
            (Op::Intrinsic(a), Op::Intrinsic(b)) => a == b,
            (Op::End, Op::End) => true,
            _ => false,
        }
    }
}

impl PartialEqSpecImpl for Op {
    open spec fn obeys_eq_spec() -> bool {
        true
    }

    open spec fn eq_spec(&self, other: &Op) -> bool {
        match (*self, *other) {
            (Op::Push(a), Op::Push(b)) => a.matches(b),
            (Op::Intrinsic(a), Op::Intrinsic(b)) => a == b,
            (Op::End, Op::End) => true,
            _ => false,
        }
    }
}

} // verus!

//! The value model and the virtual machine.
//!
//! A `JsValue` is a tagged runtime datum. A number payload is kept as the
//! shortest round-tripping decimal form of the IEEE-754 double it stands for
//! (exactly the text the Language prints for it), so the string projection of
//! a number is its payload, and the numeric operations live behind the
//! trusted primitives in `numbers`.
//!
//! The machine makes a single linear pass over the script. `step` states
//! what one instruction does to the stack and the environment; `run_insts`
//! folds `step` over a whole instruction stream, and `VM::run` is proved to
//! realise it exactly. The one fault is popping an empty stack; the faulting
//! state is the state just before the faulting instruction.

use vstd::prelude::*;

use crate::bytecode::{Image, Instruction, InstructionV};
use crate::operations::{spec_add, spec_div, spec_eq, spec_mlp, spec_strict_eq, spec_sub};
use crate::scope::Scope;
use crate::types::spec_flip;

verus! {
/// A runtime value of the Language.
#[derive(Debug, PartialEq)]
pub enum JsValue {
    JsNull,
    JsUndefined,
    JsNan,
    /// The payload is the decimal form of the number, as the Language prints it.
    JsNumber(String),
    JsString(String),
    JsTrue,
    JsFalse,
}

/// The mathematical model of a `JsValue`: the same tags over character
/// sequences.
pub enum JsValueV {
    JsNull,
    JsUndefined,
    JsNan,
    JsNumber(Seq<char>),
    JsString(Seq<char>),
    JsTrue,
    JsFalse,
}

impl View for JsValue {
    type V = JsValueV;

    open spec fn view(&self) -> JsValueV {
        match self {
            JsValue::JsNull => JsValueV::JsNull,
            JsValue::JsUndefined => JsValueV::JsUndefined,
            JsValue::JsNan => JsValueV::JsNan,
            JsValue::JsNumber(s) => JsValueV::JsNumber(s@),
            JsValue::JsString(s) => JsValueV::JsString(s@),
            JsValue::JsTrue => JsValueV::JsTrue,
            JsValue::JsFalse => JsValueV::JsFalse,
        }
    }
}

impl Clone for JsValue {
    fn clone(&self) -> (res: Self)
        ensures
            res@ == self@,
    {
        match self {
            JsValue::JsNull => JsValue::JsNull,
            JsValue::JsUndefined => JsValue::JsUndefined,
            JsValue::JsNan => JsValue::JsNan,
            JsValue::JsNumber(s) => JsValue::JsNumber(s.clone()),
            JsValue::JsString(s) => JsValue::JsString(s.clone()),
            JsValue::JsTrue => JsValue::JsTrue,
            JsValue::JsFalse => JsValue::JsFalse,
        }
    }
}


/// The machine's whole observable state: the operand stack and the bindings.
#[verifier::ext_equal]
pub struct StateV {
    pub stack: Seq<JsValueV>,
    pub vars: Map<Seq<char>, JsValueV>,
}

/// The stack as a sequence of value models, bottom first.
pub open spec fn stack_view(s: Seq<JsValue>) -> Seq<JsValueV> {
    s.map_values(|v: JsValue| v@)
}

/// The binding of `name`, or `Undefined` where there is none.
pub open spec fn lookup(vars: Map<Seq<char>, JsValueV>, name: Seq<char>) -> JsValueV {
    if vars.dom().contains(name) {
        vars[name]
    } else {
        JsValueV::JsUndefined
    }
}

/// What one instruction does to the state: `None` is a stack underflow.
/// An arithmetic or comparison opcode pops the left operand `a`, then the
/// right operand `b`, and pushes the kernel result; an assignment reads the
/// current binding before popping its right-hand side, binds the result and
/// pushes it back, so that assignment is itself an expression.
pub open spec fn step(i: InstructionV, st: StateV) -> Option<StateV> {
    match i {
        InstructionV::PUSHNUM(s) => Some(
            StateV { stack: st.stack.push(JsValueV::JsNumber(s)), ..st },
        ),
        InstructionV::PUSHSTRLIT(s) => Some(
            StateV { stack: st.stack.push(JsValueV::JsString(s)), ..st },
        ),
        InstructionV::PUSHTRUE => Some(StateV { stack: st.stack.push(JsValueV::JsTrue), ..st }),
        InstructionV::PUSHFALSE => Some(StateV { stack: st.stack.push(JsValueV::JsFalse), ..st }),
        InstructionV::UNDEFINED => Some(
            StateV { stack: st.stack.push(JsValueV::JsUndefined), ..st },
        ),
        InstructionV::ADD => step_binary(st, |a: JsValueV, b: JsValueV| spec_add(a, b)),
        InstructionV::SUB => step_binary(st, |a: JsValueV, b: JsValueV| spec_sub(a, b)),
        InstructionV::MLP => step_binary(st, |a: JsValueV, b: JsValueV| spec_mlp(a, b)),
        InstructionV::DIV => step_binary(st, |a: JsValueV, b: JsValueV| spec_div(a, b)),
        InstructionV::EQ => step_binary(st, |a: JsValueV, b: JsValueV| spec_eq(a, b)),
        InstructionV::NEQ => step_binary(st, |a: JsValueV, b: JsValueV| spec_flip(spec_eq(a, b))),
        InstructionV::SEQ => step_binary(st, |a: JsValueV, b: JsValueV| spec_strict_eq(a, b)),
        InstructionV::SNEQ => step_binary(
            st,
            |a: JsValueV, b: JsValueV| spec_flip(spec_strict_eq(a, b)),
        ),
        InstructionV::PUSHVAR(name) => if st.stack.len() >= 1 {
            Some(
                StateV {
                    stack: st.stack.drop_last(),
                    vars: st.vars.insert(name, st.stack.last()),
                },
            )
        } else {
            None
        },
        InstructionV::READIDENT(name) => Some(
            StateV { stack: st.stack.push(lookup(st.vars, name)), ..st },
        ),
        InstructionV::ASSIGNEQ(name) => if st.stack.len() >= 1 {
            Some(StateV { stack: st.stack, vars: st.vars.insert(name, st.stack.last()) })
        } else {
            None
        },
        InstructionV::ASSIGNPLUSEQ(name) => step_assign_op(
            st,
            name,
            |a: JsValueV, b: JsValueV| spec_add(a, b),
        ),
        InstructionV::ASSIGNSUBEQ(name) => step_assign_op(
            st,
            name,
            |a: JsValueV, b: JsValueV| spec_sub(a, b),
        ),
        InstructionV::ASSIGNMLPEQ(name) => step_assign_op(
            st,
            name,
            |a: JsValueV, b: JsValueV| spec_mlp(a, b),
        ),
        InstructionV::ASSIGNDIVEQ(name) => step_assign_op(
            st,
            name,
            |a: JsValueV, b: JsValueV| spec_div(a, b),
        ),
    }
}

/// A binary opcode: pop `a`, pop `b`, push `op(a, b)`.
pub open spec fn step_binary(st: StateV, op: spec_fn(JsValueV, JsValueV) -> JsValueV) -> Option<
    StateV,
> {
    if st.stack.len() >= 2 {
        Some(
            StateV {
                stack: st.stack.drop_last().drop_last().push(
                    op(st.stack.last(), st.stack[st.stack.len() - 2]),
                ),
                ..st
            },
        )
    } else {
        None
    }
}

/// A compound assignment: read the current binding, pop the right-hand side,
/// bind the operation's result and push it back.
pub open spec fn step_assign_op(
    st: StateV,
    name: Seq<char>,
    op: spec_fn(JsValueV, JsValueV) -> JsValueV,
) -> Option<StateV> {
    if st.stack.len() >= 1 {
        Some(
            StateV {
                stack: st.stack.drop_last().push(op(lookup(st.vars, name), st.stack.last())),
                vars: st.vars.insert(name, op(lookup(st.vars, name), st.stack.last())),
            },
        )
    } else {
        None
    }
}

/// Folds `step` over an instruction stream. `Ok` carries the state after the
/// last instruction; `Err` carries the state at the fault.
pub open spec fn run_insts(code: Seq<InstructionV>, st: StateV) -> Result<StateV, StateV>
    decreases code.len(),
{
    if code.len() == 0 {
        Ok(st)
    } else {
        match step(code.first(), st) {
            Some(st2) => run_insts(code.drop_first(), st2),
            None => Err(st),
        }
    }
}

/// The one runtime fault: an opcode found too few operands on the stack.
#[derive(Debug, PartialEq, Eq, Structural, Clone, Copy)]
pub enum RuntimeFault {
    StackUnderflow,
}

/// The machine: a compiled image, the operand stack, and the scope it binds
/// variables in. `sp` and `cp` are a provision for nested blocks; nothing
/// moves them yet.
pub struct VM {
    pub image: Image,
    pub stack: Vec<JsValue>,
    pub scope: Scope,
    pub sp: usize,
    pub cp: usize,
}

impl VM {
    /// The machine's observable state.
    pub open spec fn state(self) -> StateV {
        StateV { stack: stack_view(self.stack@), vars: self.scope@ }
    }

    pub fn new(img: Image, scope: Scope) -> (r: VM)
        ensures
            r.image == img,
            r.scope == scope,
            r.stack@ == Seq::<JsValue>::empty(),
            r.sp == 0 && r.cp == 0,
    {
        VM { image: img, stack: Vec::new(), scope: scope, sp: 0, cp: 0 }
    }

    /// A copy of the value on top of the stack, or `Undefined` where the
    /// stack is empty.
    pub fn read_stack_end(&mut self) -> (r: JsValue)
        ensures
            *final(self) == *old(self),
            r@ == if old(self).state().stack.len() == 0 {
                JsValueV::JsUndefined
            } else {
                old(self).state().stack.last()
            },
    {
        if self.stack.len() < 1 {
            return JsValue::JsUndefined;
        }
        self.stack[self.stack.len() - 1].clone()
    }

    pub fn push_stack(&mut self, val: JsValue)
        ensures
            final(self).stack@ == old(self).stack@.push(val),
            final(self).image == old(self).image,
            final(self).scope == old(self).scope,
            final(self).sp == old(self).sp && final(self).cp == old(self).cp,
    {
        self.stack.push(val);
    }

    /// Pops the top of the stack. Popping an empty stack is the caller's
    /// fault: `run` tests before it pops.
    pub fn pop_stack(&mut self) -> (r: JsValue)
        requires
            old(self).stack@.len() > 0,
        ensures
            final(self).stack@ == old(self).stack@.drop_last(),
            r == old(self).stack@.last(),
            final(self).image == old(self).image,
            final(self).scope == old(self).scope,
            final(self).sp == old(self).sp && final(self).cp == old(self).cp,
    {
        self.stack.pop().unwrap()
    }
}


/// A push seen through the stack model.
proof fn lemma_stack_view_push(s: Seq<JsValue>, v: JsValue)
    ensures
        stack_view(s.push(v)) == stack_view(s).push(v@),
{
    assert(stack_view(s.push(v)) =~= stack_view(s).push(v@));
}

/// A pop seen through the stack model.
proof fn lemma_stack_view_drop_last(s: Seq<JsValue>)
    requires
        s.len() > 0,
    ensures
        stack_view(s.drop_last()) == stack_view(s).drop_last(),
        stack_view(s).last() == s.last()@,
{
    assert(stack_view(s.drop_last()) =~= stack_view(s).drop_last());
}

impl VM {
    /// Executes the whole script, one linear pass. On a fault the machine
    /// stops where it stands: the state is whatever the instructions before
    /// the faulting one produced, and the caller may keep the scope.
    pub fn run(&mut self) -> (r: Result<(), RuntimeFault>)
        requires
            old(self).scope.wf(),
        ensures
            final(self).image == old(self).image,
            final(self).sp == old(self).sp && final(self).cp == old(self).cp,
            final(self).scope.wf(),
            (match run_insts(old(self).image@.script, old(self).state()) {
                Ok(st) => r is Ok && final(self).state() == st,
                Err(st) => r == Err::<(), RuntimeFault>(RuntimeFault::StackUnderflow) && final(self).state() == st,
            }),
    {
        let ghost code = self.image@.script;
        let ghost st0 = self.state();
        proof {
            assert(code.skip(0) =~= code);
        }
        let n = self.image.script.instructions.len();
        let mut i: usize = 0;
        while i < n
            invariant
                old(self).scope.wf(),
                n == self.image.script.instructions@.len(),
                i <= n,
                self.image == old(self).image,
                self.sp == old(self).sp && self.cp == old(self).cp,
                self.scope.wf(),
                code == self.image@.script,
                st0 == old(self).state(),
                run_insts(code, st0) == run_insts(code.skip(i as int), self.state()),
            decreases n - i,
        {
            let ghost pre = self.state();
            let ghost svec = self.stack@;
            let instr = &self.image.script.instructions[i];
            proof {
                assert(code[i as int] == instr@);
                assert(code.skip(i as int).first() == code[i as int]);
                assert(code.skip(i as int).drop_first() =~= code.skip(i as int + 1));
            }
            match instr {
                Instruction::PUSHNUM(num) => {
                    let v = JsValue::JsNumber(num.clone());
                    self.push_stack(v);
                    proof {
                        lemma_stack_view_push(svec, self.stack@.last());
                        assert(self.state() =~= step(code[i as int], pre)->Some_0);
                    }
                },
                Instruction::PUSHSTRLIT(string) => {
                    let v = JsValue::JsString(string.clone());
                    self.push_stack(v);
                    proof {
                        lemma_stack_view_push(svec, self.stack@.last());
                        assert(self.state() =~= step(code[i as int], pre)->Some_0);
                    }
                },
                Instruction::PUSHTRUE => {
                    self.push_stack(JsValue::JsTrue);
                    proof {
                        lemma_stack_view_push(svec, self.stack@.last());
                        assert(self.state() =~= step(code[i as int], pre)->Some_0);
                    }
                },
                Instruction::PUSHFALSE => {
                    self.push_stack(JsValue::JsFalse);
                    proof {
                        lemma_stack_view_push(svec, self.stack@.last());
                        assert(self.state() =~= step(code[i as int], pre)->Some_0);
                    }
                },
                Instruction::UNDEFINED => {
                    self.push_stack(JsValue::JsUndefined);
                    proof {
                        lemma_stack_view_push(svec, self.stack@.last());
                        assert(self.state() =~= step(code[i as int], pre)->Some_0);
                    }
                },
                Instruction::ADD => {
                    if self.stack.len() < 2 {
                        proof {
                            assert(run_insts(code.skip(i as int), pre) == Err::<StateV, StateV>(
                                pre,
                            ));
                        }
                        return Err(RuntimeFault::StackUnderflow);
                    }
                    let a = self.pop_stack();
                    let b = self.pop_stack();
                    let v = crate::operations::add(&a, &b);
                    self.push_stack(v);
                    proof {
                        lemma_stack_view_drop_last(svec);
                        lemma_stack_view_drop_last(svec.drop_last());
                        lemma_stack_view_push(svec.drop_last().drop_last(), self.stack@.last());
                        assert(self.state() =~= step(code[i as int], pre)->Some_0);
                    }
                },
                Instruction::SUB => {
                    if self.stack.len() < 2 {
                        proof {
                            assert(run_insts(code.skip(i as int), pre) == Err::<StateV, StateV>(
                                pre,
                            ));
                        }
                        return Err(RuntimeFault::StackUnderflow);
                    }
                    let a = self.pop_stack();
                    let b = self.pop_stack();
                    let v = crate::operations::sub(&a, &b);
                    self.push_stack(v);
                    proof {
                        lemma_stack_view_drop_last(svec);
                        lemma_stack_view_drop_last(svec.drop_last());
                        lemma_stack_view_push(svec.drop_last().drop_last(), self.stack@.last());
                        assert(self.state() =~= step(code[i as int], pre)->Some_0);
                    }
                },
                Instruction::MLP => {
                    if self.stack.len() < 2 {
                        proof {
                            assert(run_insts(code.skip(i as int), pre) == Err::<StateV, StateV>(
                                pre,
                            ));
                        }
                        return Err(RuntimeFault::StackUnderflow);
                    }
                    let a = self.pop_stack();
                    let b = self.pop_stack();
                    let v = crate::operations::mlp(&a, &b);
                    self.push_stack(v);
                    proof {
                        lemma_stack_view_drop_last(svec);
                        lemma_stack_view_drop_last(svec.drop_last());
                        lemma_stack_view_push(svec.drop_last().drop_last(), self.stack@.last());
                        assert(self.state() =~= step(code[i as int], pre)->Some_0);
                    }
                },
                Instruction::DIV => {
                    if self.stack.len() < 2 {
                        proof {
                            assert(run_insts(code.skip(i as int), pre) == Err::<StateV, StateV>(
                                pre,
                            ));
                        }
                        return Err(RuntimeFault::StackUnderflow);
                    }
                    let a = self.pop_stack();
                    let b = self.pop_stack();
                    let v = crate::operations::div(&a, &b);
                    self.push_stack(v);
                    proof {
                        lemma_stack_view_drop_last(svec);
                        lemma_stack_view_drop_last(svec.drop_last());
                        lemma_stack_view_push(svec.drop_last().drop_last(), self.stack@.last());
                        assert(self.state() =~= step(code[i as int], pre)->Some_0);
                    }
                },
                Instruction::EQ => {
                    if self.stack.len() < 2 {
                        proof {
                            assert(run_insts(code.skip(i as int), pre) == Err::<StateV, StateV>(
                                pre,
                            ));
                        }
                        return Err(RuntimeFault::StackUnderflow);
                    }
                    let a = self.pop_stack();
                    let b = self.pop_stack();
                    let v = crate::operations::eq(&a, &b);
                    self.push_stack(v);
                    proof {
                        lemma_stack_view_drop_last(svec);
                        lemma_stack_view_drop_last(svec.drop_last());
                        lemma_stack_view_push(svec.drop_last().drop_last(), self.stack@.last());
                        assert(self.state() =~= step(code[i as int], pre)->Some_0);
                    }
                },
                Instruction::NEQ => {
                    if self.stack.len() < 2 {
                        proof {
                            assert(run_insts(code.skip(i as int), pre) == Err::<StateV, StateV>(
                                pre,
                            ));
                        }
                        return Err(RuntimeFault::StackUnderflow);
                    }
                    let a = self.pop_stack();
                    let b = self.pop_stack();
                    let v = crate::operations::neq(&a, &b);
                    self.push_stack(v);
                    proof {
                        lemma_stack_view_drop_last(svec);
                        lemma_stack_view_drop_last(svec.drop_last());
                        lemma_stack_view_push(svec.drop_last().drop_last(), self.stack@.last());
                        assert(self.state() =~= step(code[i as int], pre)->Some_0);
                    }
                },
                Instruction::SEQ => {
                    if self.stack.len() < 2 {
                        proof {
                            assert(run_insts(code.skip(i as int), pre) == Err::<StateV, StateV>(
                                pre,
                            ));
                        }
                        return Err(RuntimeFault::StackUnderflow);
                    }
                    let a = self.pop_stack();
                    let b = self.pop_stack();
                    let v = crate::operations::strict_eq(&a, &b);
                    self.push_stack(v);
                    proof {
                        lemma_stack_view_drop_last(svec);
                        lemma_stack_view_drop_last(svec.drop_last());
                        lemma_stack_view_push(svec.drop_last().drop_last(), self.stack@.last());
                        assert(self.state() =~= step(code[i as int], pre)->Some_0);
                    }
                },
                Instruction::SNEQ => {
                    if self.stack.len() < 2 {
                        proof {
                            assert(run_insts(code.skip(i as int), pre) == Err::<StateV, StateV>(
                                pre,
                            ));
                        }
                        return Err(RuntimeFault::StackUnderflow);
                    }
                    let a = self.pop_stack();
                    let b = self.pop_stack();
                    let v = crate::operations::strict_neq(&a, &b);
                    self.push_stack(v);
                    proof {
                        lemma_stack_view_drop_last(svec);
                        lemma_stack_view_drop_last(svec.drop_last());
                        lemma_stack_view_push(svec.drop_last().drop_last(), self.stack@.last());
                        assert(self.state() =~= step(code[i as int], pre)->Some_0);
                    }
                },
                Instruction::PUSHVAR(string) => {
                    if self.stack.len() < 1 {
                        proof {
                            assert(run_insts(code.skip(i as int), pre) == Err::<StateV, StateV>(
                                pre,
                            ));
                        }
                        return Err(RuntimeFault::StackUnderflow);
                    }
                    let name = string.clone();
                    let a = self.pop_stack();
                    self.scope.set_var(name, a);
                    proof {
                        lemma_stack_view_drop_last(svec);
                        assert(self.state() =~= step(code[i as int], pre)->Some_0);
                    }
                },
                Instruction::READIDENT(string) => {
                    let name = string.clone();
                    let a = self.scope.get_var(name);
                    self.push_stack(a);
                    proof {
                        lemma_stack_view_push(svec, self.stack@.last());
                        assert(self.state() =~= step(code[i as int], pre)->Some_0);
                    }
                },
                Instruction::ASSIGNEQ(string) => {
                    if self.stack.len() < 1 {
                        proof {
                            assert(run_insts(code.skip(i as int), pre) == Err::<StateV, StateV>(
                                pre,
                            ));
                        }
                        return Err(RuntimeFault::StackUnderflow);
                    }
                    let name = string.clone();
                    let a = self.pop_stack();
                    self.scope.set_var(name, a.clone());
                    self.push_stack(a);
                    proof {
                        lemma_stack_view_drop_last(svec);
                        lemma_stack_view_push(svec.drop_last(), self.stack@.last());
                        assert(stack_view(self.stack@) =~= pre.stack);
                        assert(self.state() =~= step(code[i as int], pre)->Some_0);
                    }
                },
                Instruction::ASSIGNPLUSEQ(string) => {
                    if self.stack.len() < 1 {
                        proof {
                            assert(run_insts(code.skip(i as int), pre) == Err::<StateV, StateV>(
                                pre,
                            ));
                        }
                        return Err(RuntimeFault::StackUnderflow);
                    }
                    let name = string.clone();
                    let a = self.scope.get_var(name.clone());
                    let b = self.pop_stack();
                    let v = crate::operations::add(&a, &b);
                    self.scope.set_var(name, v.clone());
                    self.push_stack(v);
                    proof {
                        lemma_stack_view_drop_last(svec);
                        lemma_stack_view_push(svec.drop_last(), self.stack@.last());
                        assert(self.state() =~= step(code[i as int], pre)->Some_0);
                    }
                },
                Instruction::ASSIGNSUBEQ(string) => {
                    if self.stack.len() < 1 {
                        proof {
                            assert(run_insts(code.skip(i as int), pre) == Err::<StateV, StateV>(
                                pre,
                            ));
                        }
                        return Err(RuntimeFault::StackUnderflow);
                    }
                    let name = string.clone();
                    let a = self.scope.get_var(name.clone());
                    let b = self.pop_stack();
                    let v = crate::operations::sub(&a, &b);
                    self.scope.set_var(name, v.clone());
                    self.push_stack(v);
                    proof {
                        lemma_stack_view_drop_last(svec);
                        lemma_stack_view_push(svec.drop_last(), self.stack@.last());
                        assert(self.state() =~= step(code[i as int], pre)->Some_0);
                    }
                },
                Instruction::ASSIGNMLPEQ(string) => {
                    if self.stack.len() < 1 {
                        proof {
                            assert(run_insts(code.skip(i as int), pre) == Err::<StateV, StateV>(
                                pre,
                            ));
                        }
                        return Err(RuntimeFault::StackUnderflow);
                    }
                    let name = string.clone();
                    let a = self.scope.get_var(name.clone());
                    let b = self.pop_stack();
                    let v = crate::operations::mlp(&a, &b);
                    self.scope.set_var(name, v.clone());
                    self.push_stack(v);
                    proof {
                        lemma_stack_view_drop_last(svec);
                        lemma_stack_view_push(svec.drop_last(), self.stack@.last());
                        assert(self.state() =~= step(code[i as int], pre)->Some_0);
                    }
                },
                Instruction::ASSIGNDIVEQ(string) => {
                    if self.stack.len() < 1 {
                        proof {
                            assert(run_insts(code.skip(i as int), pre) == Err::<StateV, StateV>(
                                pre,
                            ));
                        }
                        return Err(RuntimeFault::StackUnderflow);
                    }
                    let name = string.clone();
                    let a = self.scope.get_var(name.clone());
                    let b = self.pop_stack();
                    let v = crate::operations::div(&a, &b);
                    self.scope.set_var(name, v.clone());
                    self.push_stack(v);
                    proof {
                        lemma_stack_view_drop_last(svec);
                        lemma_stack_view_push(svec.drop_last(), self.stack@.last());
                        assert(self.state() =~= step(code[i as int], pre)->Some_0);
                    }
                },
            }
            proof {
                assert(step(code[i as int], pre) == Some(self.state()));
            }
            i = i + 1;
        }
        proof {
            assert(code.skip(n as int) =~= Seq::<InstructionV>::empty());
        }
        Ok(())
    }
}

} // verus!

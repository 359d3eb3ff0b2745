//! What a syntax tree means, and that the compiler and machine realise it.
//!
//! `eval_expr` gives the Language's evaluation order directly on trees: the
//! right operand of a binary node is evaluated before the left one, matching
//! the emitted code, and an assignment is an expression whose value is the
//! value bound. The lemmas here tie the three components together: every
//! supported tree compiles, and running the compiled code from any state
//! pushes exactly the evaluated values and performs exactly the evaluated
//! bindings — in particular, compiled code never faults.

use vstd::prelude::*;

use crate::ast::{AssopTag, BinopTag, DtorV, ExprV, PattV, StmtListItemV, StmtV};
use crate::bytecode::{
    CompileError, ImageV, InstructionV, assign_instr, binop_instr, emit_dtor, emit_dtors,
    emit_expr, emit_item, emit_items, emit_stmt,
};
use crate::operations::{proj, spec_add, spec_div, spec_eq, spec_mlp, spec_strict_eq, spec_sub};
use crate::types::spec_flip;
use crate::vm::{JsValueV, StateV, lookup, run_insts, step};

verus! {

/// Whether the Language compiles this expression.
pub open spec fn expr_supported(e: ExprV) -> bool
    decreases e,
{
    match e {
        ExprV::Number(_) => true,
        ExprV::StrLit(_) => true,
        ExprV::True => true,
        ExprV::False => true,
        ExprV::Id(_) => true,
        ExprV::Binop(op, l, r) => op != BinopTag::Unsupported && expr_supported(*l)
            && expr_supported(*r),
        ExprV::Assign(op, target, value) => op != AssopTag::Unsupported && target is Id
            && expr_supported(*value),
        ExprV::Unsupported => false,
    }
}

/// Whether the Language compiles this declarator.
pub open spec fn dtor_supported(d: DtorV) -> bool {
    match d {
        DtorV::Simple(_, init) => match init {
            Some(e) => expr_supported(e),
            None => true,
        },
        DtorV::Unsupported => false,
    }
}

/// Whether the Language compiles this statement.
pub open spec fn stmt_supported(st: StmtV) -> bool {
    match st {
        StmtV::Expr(e) => expr_supported(e),
        StmtV::Var(ds) => forall|j: int| 0 <= j < ds.len() ==> dtor_supported(#[trigger] ds[j]),
        StmtV::Unsupported => false,
    }
}

/// Whether the Language compiles this item.
pub open spec fn item_supported(it: StmtListItemV) -> bool {
    match it {
        StmtListItemV::Decl => true,
        StmtListItemV::Stmt(st) => stmt_supported(st),
    }
}

/// Whether the Language compiles this whole script body.
pub open spec fn tree_supported(items: Seq<StmtListItemV>) -> bool {
    forall|j: int| 0 <= j < items.len() ==> item_supported(#[trigger] items[j])
}

/// The value of a supported binary operation, left operand first.
pub open spec fn binop_value(op: BinopTag, a: JsValueV, b: JsValueV) -> JsValueV {
    match op {
        BinopTag::Plus => spec_add(a, b),
        BinopTag::Minus => spec_sub(a, b),
        BinopTag::Times => spec_mlp(a, b),
        BinopTag::Div => spec_div(a, b),
        BinopTag::StrictEq => spec_strict_eq(a, b),
        BinopTag::Eq => spec_eq(a, b),
        BinopTag::StrictNEq => spec_flip(spec_strict_eq(a, b)),
        BinopTag::NEq => spec_flip(spec_eq(a, b)),
        BinopTag::Unsupported => JsValueV::JsUndefined,
    }
}

/// The value and the bindings after a supported expression. The right
/// operand of a binary node is evaluated first, so its bindings are seen by
/// the left one; an assignment binds and yields the bound value, a compound
/// assignment reads the old binding after its right-hand side has run.
pub open spec fn eval_expr(e: ExprV, env: Map<Seq<char>, JsValueV>) -> (JsValueV, Map<
    Seq<char>,
    JsValueV,
>)
    decreases e,
{
    match e {
        ExprV::Number(s) => (JsValueV::JsNumber(s), env),
        ExprV::StrLit(s) => (JsValueV::JsString(s), env),
        ExprV::True => (JsValueV::JsTrue, env),
        ExprV::False => (JsValueV::JsFalse, env),
        ExprV::Id(name) => (lookup(env, name), env),
        ExprV::Binop(op, l, r) => {
            let (rv, env1) = eval_expr(*r, env);
            let (lv, env2) = eval_expr(*l, env1);
            (binop_value(op, lv, rv), env2)
        },
        ExprV::Assign(op, target, value) => {
            let (v, env1) = eval_expr(*value, env);
            match target {
                PattV::Id(name) => match op {
                    AssopTag::Eq => (v, env1.insert(name, v)),
                    AssopTag::PlusEq => {
                        let r = spec_add(lookup(env1, name), v);
                        (r, env1.insert(name, r))
                    },
                    AssopTag::MinusEq => {
                        let r = spec_sub(lookup(env1, name), v);
                        (r, env1.insert(name, r))
                    },
                    AssopTag::TimesEq => {
                        let r = spec_mlp(lookup(env1, name), v);
                        (r, env1.insert(name, r))
                    },
                    AssopTag::DivEq => {
                        let r = spec_div(lookup(env1, name), v);
                        (r, env1.insert(name, r))
                    },
                    AssopTag::Unsupported => (v, env1),
                },
                PattV::Unsupported => (v, env1),
            }
        },
        ExprV::Unsupported => (JsValueV::JsUndefined, env),
    }
}

/// The bindings after a supported declarator: the initialiser's value, or
/// `Undefined` where there is none, bound to the name.
pub open spec fn eval_dtor(d: DtorV, env: Map<Seq<char>, JsValueV>) -> Map<Seq<char>, JsValueV> {
    match d {
        DtorV::Simple(name, init) => match init {
            Some(e) => {
                let (v, env1) = eval_expr(e, env);
                env1.insert(name, v)
            },
            None => env.insert(name, JsValueV::JsUndefined),
        },
        DtorV::Unsupported => env,
    }
}

/// The bindings after a run of declarators, in source order.
pub open spec fn eval_dtors(ds: Seq<DtorV>, env: Map<Seq<char>, JsValueV>) -> Map<
    Seq<char>,
    JsValueV,
>
    decreases ds.len(),
{
    if ds.len() == 0 {
        env
    } else {
        eval_dtors(ds.drop_first(), eval_dtor(ds.first(), env))
    }
}

/// The values a statement leaves on the stack, and the bindings after it.
/// An expression statement leaves its value; a variable statement leaves
/// nothing.
pub open spec fn eval_stmt(st: StmtV, env: Map<Seq<char>, JsValueV>) -> (Seq<JsValueV>, Map<
    Seq<char>,
    JsValueV,
>) {
    match st {
        StmtV::Expr(e) => {
            let (v, env1) = eval_expr(e, env);
            (seq![v], env1)
        },
        StmtV::Var(ds) => (Seq::empty(), eval_dtors(ds, env)),
        StmtV::Unsupported => (Seq::empty(), env),
    }
}

/// The values an item leaves on the stack, and the bindings after it.
pub open spec fn eval_item(it: StmtListItemV, env: Map<Seq<char>, JsValueV>) -> (
    Seq<JsValueV>,
    Map<Seq<char>, JsValueV>,
) {
    match it {
        StmtListItemV::Decl => (Seq::empty(), env),
        StmtListItemV::Stmt(st) => eval_stmt(st, env),
    }
}

/// The values a whole script body leaves on the stack, in order, and the
/// bindings after it.
pub open spec fn eval_items(items: Seq<StmtListItemV>, env: Map<Seq<char>, JsValueV>) -> (
    Seq<JsValueV>,
    Map<Seq<char>, JsValueV>,
)
    decreases items.len(),
{
    if items.len() == 0 {
        (Seq::empty(), env)
    } else {
        let (p1, env1) = eval_item(items.first(), env);
        let (p2, env2) = eval_items(items.drop_first(), env1);
        (p1 + p2, env2)
    }
}

/// Running a concatenation runs the first part, then the second from where
/// the first ended; a fault in the first part is a fault of the whole.
pub proof fn lemma_run_insts_append(c1: Seq<InstructionV>, c2: Seq<InstructionV>, st: StateV)
    ensures
        run_insts(c1 + c2, st) == (match run_insts(c1, st) {
            Ok(st1) => run_insts(c2, st1),
            Err(stf) => Err::<StateV, StateV>(stf),
        }),
    decreases c1.len(),
{
    if c1.len() == 0 {
        assert(c1 + c2 =~= c2);
    } else {
        assert((c1 + c2).first() == c1.first());
        assert((c1 + c2).drop_first() =~= c1.drop_first() + c2);
        match step(c1.first(), st) {
            Some(st2) => {
                lemma_run_insts_append(c1.drop_first(), c2, st2);
            },
            None => {},
        }
    }
}

/// One instruction runs as one step.
pub proof fn lemma_run_insts_one(i: InstructionV, st: StateV)
    ensures
        run_insts(seq![i], st) == (match step(i, st) {
            Some(st2) => Ok::<StateV, StateV>(st2),
            None => Err::<StateV, StateV>(st),
        }),
{
    assert(seq![i].first() == i);
    assert(seq![i].drop_first() =~= Seq::<InstructionV>::empty());
    match step(i, st) {
        Some(st2) => {
            assert(run_insts(Seq::<InstructionV>::empty(), st2) == Ok::<StateV, StateV>(st2));
        },
        None => {},
    }
}

/// A supported expression compiles to at least one instruction, and running
/// that code from any state pushes exactly the expression's value and leaves
/// exactly the expression's bindings: it never faults.
pub proof fn lemma_compiled_expr_runs(e: ExprV, st: StateV)
    requires
        expr_supported(e),
    ensures
        emit_expr(e) is Ok,
        emit_expr(e)->Ok_0.len() >= 1,
        run_insts(emit_expr(e)->Ok_0, st) == Ok::<StateV, StateV>(
            StateV {
                stack: st.stack.push(eval_expr(e, st.vars).0),
                vars: eval_expr(e, st.vars).1,
            },
        ),
    decreases e,
{
    match e {
        ExprV::Number(s) => {
            lemma_run_insts_one(InstructionV::PUSHNUM(s), st);
            assert(run_insts(emit_expr(e)->Ok_0, st)->Ok_0 =~= (StateV {
                stack: st.stack.push(eval_expr(e, st.vars).0),
                vars: eval_expr(e, st.vars).1,
            }));
        },
        ExprV::StrLit(s) => {
            lemma_run_insts_one(InstructionV::PUSHSTRLIT(s), st);
            assert(run_insts(emit_expr(e)->Ok_0, st)->Ok_0 =~= (StateV {
                stack: st.stack.push(eval_expr(e, st.vars).0),
                vars: eval_expr(e, st.vars).1,
            }));
        },
        ExprV::True => {
            lemma_run_insts_one(InstructionV::PUSHTRUE, st);
            assert(run_insts(emit_expr(e)->Ok_0, st)->Ok_0 =~= (StateV {
                stack: st.stack.push(eval_expr(e, st.vars).0),
                vars: eval_expr(e, st.vars).1,
            }));
        },
        ExprV::False => {
            lemma_run_insts_one(InstructionV::PUSHFALSE, st);
            assert(run_insts(emit_expr(e)->Ok_0, st)->Ok_0 =~= (StateV {
                stack: st.stack.push(eval_expr(e, st.vars).0),
                vars: eval_expr(e, st.vars).1,
            }));
        },
        ExprV::Id(name) => {
            lemma_run_insts_one(InstructionV::READIDENT(name), st);
            assert(run_insts(emit_expr(e)->Ok_0, st)->Ok_0 =~= (StateV {
                stack: st.stack.push(eval_expr(e, st.vars).0),
                vars: eval_expr(e, st.vars).1,
            }));
        },
        ExprV::Binop(op, l, r) => {
            let rc = emit_expr(*r)->Ok_0;
            let lc = emit_expr(*l)->Ok_0;
            let instr = binop_instr(op)->Some_0;
            lemma_compiled_expr_runs(*r, st);
            let rv = eval_expr(*r, st.vars).0;
            let env1 = eval_expr(*r, st.vars).1;
            let st_r = StateV { stack: st.stack.push(rv), vars: env1 };
            lemma_compiled_expr_runs(*l, st_r);
            let lv = eval_expr(*l, env1).0;
            let env2 = eval_expr(*l, env1).1;
            let st_l = StateV { stack: st.stack.push(rv).push(lv), vars: env2 };
            assert(run_insts(lc, st_r)->Ok_0 =~= st_l);
            lemma_run_insts_append(rc, lc, st);
            lemma_run_insts_append(rc + lc, seq![instr], st);
            assert(emit_expr(e)->Ok_0 == (rc + lc) + seq![instr]);
            lemma_run_insts_one(instr, st_l);
            assert(st_l.stack.len() >= 2);
            assert(st_l.stack.last() == lv);
            assert(st_l.stack[st_l.stack.len() - 2] == rv);
            assert(st_l.stack.drop_last().drop_last() =~= st.stack);
            assert(step(instr, st_l) is Some);
            assert(step(instr, st_l)->Some_0 =~= (StateV {
                stack: st.stack.push(binop_value(op, lv, rv)),
                vars: env2,
            }));
        },
        ExprV::Assign(op, target, value) => {
            let vc = emit_expr(*value)->Ok_0;
            let name = target->Id_0;
            let instr = assign_instr(op, name)->Some_0;
            lemma_compiled_expr_runs(*value, st);
            let v = eval_expr(*value, st.vars).0;
            let env1 = eval_expr(*value, st.vars).1;
            let st_v = StateV { stack: st.stack.push(v), vars: env1 };
            lemma_run_insts_append(vc, seq![instr], st);
            assert(emit_expr(e)->Ok_0 == vc + seq![instr]);
            lemma_run_insts_one(instr, st_v);
            assert(st_v.stack.len() >= 1);
            assert(st_v.stack.last() == v);
            assert(st_v.stack.drop_last() =~= st.stack);
            assert(step(instr, st_v) is Some);
            assert(step(instr, st_v)->Some_0 =~= (StateV {
                stack: st.stack.push(eval_expr(e, st.vars).0),
                vars: eval_expr(e, st.vars).1,
            }));
        },
        ExprV::Unsupported => {},
    }
}

/// A supported declarator's code binds its name and leaves the stack as it
/// found it.
pub proof fn lemma_compiled_dtor_runs(d: DtorV, st: StateV)
    requires
        dtor_supported(d),
    ensures
        emit_dtor(d) is Ok,
        emit_dtor(d)->Ok_0.len() >= 1,
        run_insts(emit_dtor(d)->Ok_0, st) == Ok::<StateV, StateV>(
            StateV { stack: st.stack, vars: eval_dtor(d, st.vars) },
        ),
{
    match d {
        DtorV::Simple(name, init) => match init {
            Some(e) => {
                let c = emit_expr(e)->Ok_0;
                lemma_compiled_expr_runs(e, st);
                let v = eval_expr(e, st.vars).0;
                let env1 = eval_expr(e, st.vars).1;
                let st_e = StateV { stack: st.stack.push(v), vars: env1 };
                lemma_run_insts_append(c, seq![InstructionV::PUSHVAR(name)], st);
                lemma_run_insts_one(InstructionV::PUSHVAR(name), st_e);
                assert(st_e.stack.drop_last() =~= st.stack);
                assert(step(InstructionV::PUSHVAR(name), st_e)->Some_0 =~= (StateV {
                    stack: st.stack,
                    vars: eval_dtor(d, st.vars),
                }));
            },
            None => {
                let code = seq![InstructionV::UNDEFINED, InstructionV::PUSHVAR(name)];
                assert(emit_dtor(d)->Ok_0 == code);
                let st_u = StateV { stack: st.stack.push(JsValueV::JsUndefined), vars: st.vars };
                assert(code.first() == InstructionV::UNDEFINED);
                assert(step(InstructionV::UNDEFINED, st)->Some_0 =~= st_u);
                assert(code.drop_first() =~= seq![InstructionV::PUSHVAR(name)]);
                lemma_run_insts_one(InstructionV::PUSHVAR(name), st_u);
                assert(st_u.stack.drop_last() =~= st.stack);
                assert(step(InstructionV::PUSHVAR(name), st_u)->Some_0 =~= (StateV {
                    stack: st.stack,
                    vars: eval_dtor(d, st.vars),
                }));
            },
        },
        DtorV::Unsupported => {},
    }
}

/// A supported run of declarators binds in source order and leaves the stack
/// as it found it.
pub proof fn lemma_compiled_dtors_run(ds: Seq<DtorV>, st: StateV)
    requires
        forall|j: int| 0 <= j < ds.len() ==> dtor_supported(#[trigger] ds[j]),
    ensures
        emit_dtors(ds) is Ok,
        run_insts(emit_dtors(ds)->Ok_0, st) == Ok::<StateV, StateV>(
            StateV { stack: st.stack, vars: eval_dtors(ds, st.vars) },
        ),
    decreases ds.len(),
{
    if ds.len() == 0 {
        assert(run_insts(Seq::<InstructionV>::empty(), st) == Ok::<StateV, StateV>(st));
        assert(st =~= (StateV { stack: st.stack, vars: eval_dtors(ds, st.vars) }));
    } else {
        assert(dtor_supported(ds[0]));
        assert(forall|j: int| 0 <= j < ds.drop_first().len() ==> dtor_supported(
            #[trigger] ds.drop_first()[j],
        ));
        lemma_compiled_dtor_runs(ds.first(), st);
        let st1 = StateV { stack: st.stack, vars: eval_dtor(ds.first(), st.vars) };
        lemma_compiled_dtors_run(ds.drop_first(), st1);
        lemma_run_insts_append(
            emit_dtor(ds.first())->Ok_0,
            emit_dtors(ds.drop_first())->Ok_0,
            st,
        );
    }
}

/// A supported statement's code pushes exactly the statement's values and
/// performs exactly its bindings.
pub proof fn lemma_compiled_stmt_runs(s: StmtV, st: StateV)
    requires
        stmt_supported(s),
    ensures
        emit_stmt(s) is Ok,
        run_insts(emit_stmt(s)->Ok_0, st) == Ok::<StateV, StateV>(
            StateV { stack: st.stack + eval_stmt(s, st.vars).0, vars: eval_stmt(s, st.vars).1 },
        ),
{
    match s {
        StmtV::Expr(e) => {
            lemma_compiled_expr_runs(e, st);
            assert(st.stack.push(eval_expr(e, st.vars).0) =~= st.stack + seq![
                eval_expr(e, st.vars).0,
            ]);
        },
        StmtV::Var(ds) => {
            lemma_compiled_dtors_run(ds, st);
            assert(st.stack =~= st.stack + Seq::<JsValueV>::empty());
        },
        StmtV::Unsupported => {},
    }
}

/// One supported item runs as the statement it holds; a declaration is a
/// no-op.
pub proof fn lemma_compiled_item_runs(it: StmtListItemV, st: StateV)
    requires
        item_supported(it),
    ensures
        emit_item(it) is Ok,
        run_insts(emit_item(it)->Ok_0, st) == Ok::<StateV, StateV>(
            StateV { stack: st.stack + eval_item(it, st.vars).0, vars: eval_item(it, st.vars).1 },
        ),
{
    match it {
        StmtListItemV::Decl => {
            assert(st =~= (StateV {
                stack: st.stack + eval_item(it, st.vars).0,
                vars: eval_item(it, st.vars).1,
            }));
        },
        StmtListItemV::Stmt(s) => {
            lemma_compiled_stmt_runs(s, st);
        },
    }
}

/// The compiled code of a supported script body never faults: run from any
/// state, it pushes exactly the values of its expression statements, in
/// order, and performs exactly its bindings.
pub proof fn lemma_compiled_tree_runs(items: Seq<StmtListItemV>, st: StateV)
    requires
        tree_supported(items),
    ensures
        emit_items(items) is Ok,
        run_insts(emit_items(items)->Ok_0, st) == Ok::<StateV, StateV>(
            StateV {
                stack: st.stack + eval_items(items, st.vars).0,
                vars: eval_items(items, st.vars).1,
            },
        ),
    decreases items.len(),
{
    if items.len() == 0 {
        assert(run_insts(Seq::<InstructionV>::empty(), st) == Ok::<StateV, StateV>(st));
        assert(st =~= (StateV {
            stack: st.stack + eval_items(items, st.vars).0,
            vars: eval_items(items, st.vars).1,
        }));
    } else {
        assert(item_supported(items[0]));
        assert(forall|j: int| 0 <= j < items.drop_first().len() ==> item_supported(
            #[trigger] items.drop_first()[j],
        ));
        lemma_compiled_item_runs(items.first(), st);
        let p1 = eval_item(items.first(), st.vars).0;
        let env1 = eval_item(items.first(), st.vars).1;
        let st1 = StateV { stack: st.stack + p1, vars: env1 };
        lemma_compiled_tree_runs(items.drop_first(), st1);
        lemma_run_insts_append(
            emit_item(items.first())->Ok_0,
            emit_items(items.drop_first())->Ok_0,
            st,
        );
        let p2 = eval_items(items.drop_first(), env1).0;
        assert((st.stack + p1) + p2 =~= st.stack + (p1 + p2));
        assert(run_insts(emit_items(items)->Ok_0, st)->Ok_0 =~= (StateV {
            stack: st.stack + eval_items(items, st.vars).0,
            vars: eval_items(items, st.vars).1,
        }));
    }
}

/// An expression compiles exactly when it is supported.
pub proof fn lemma_expr_compiles_iff_supported(e: ExprV)
    ensures
        emit_expr(e) is Ok <==> expr_supported(e),
    decreases e,
{
    match e {
        ExprV::Binop(op, l, r) => {
            lemma_expr_compiles_iff_supported(*l);
            lemma_expr_compiles_iff_supported(*r);
        },
        ExprV::Assign(op, target, value) => {
            lemma_expr_compiles_iff_supported(*value);
        },
        _ => {},
    }
}

/// A declarator compiles exactly when it is supported.
pub proof fn lemma_dtor_compiles_iff_supported(d: DtorV)
    ensures
        emit_dtor(d) is Ok <==> dtor_supported(d),
{
    match d {
        DtorV::Simple(name, init) => match init {
            Some(e) => {
                lemma_expr_compiles_iff_supported(e);
            },
            None => {},
        },
        DtorV::Unsupported => {},
    }
}

/// A run of declarators compiles exactly when each one is supported.
pub proof fn lemma_dtors_compile_iff_supported(ds: Seq<DtorV>)
    ensures
        emit_dtors(ds) is Ok <==> (forall|j: int| 0 <= j < ds.len() ==> dtor_supported(
            #[trigger] ds[j],
        )),
    decreases ds.len(),
{
    if ds.len() == 0 {
    } else {
        lemma_dtor_compiles_iff_supported(ds.first());
        lemma_dtors_compile_iff_supported(ds.drop_first());
        assert(ds.first() == ds[0]);
        if emit_dtors(ds) is Ok {
            assert forall|j: int| 0 <= j < ds.len() implies dtor_supported(#[trigger] ds[j]) by {
                if j > 0 {
                    assert(ds[j] == ds.drop_first()[j - 1]);
                }
            }
        }
        if forall|j: int| 0 <= j < ds.len() ==> dtor_supported(#[trigger] ds[j]) {
            assert(forall|j: int| 0 <= j < ds.drop_first().len() ==> dtor_supported(
                #[trigger] ds.drop_first()[j],
            ));
        }
    }
}

/// A statement compiles exactly when it is supported.
pub proof fn lemma_stmt_compiles_iff_supported(s: StmtV)
    ensures
        emit_stmt(s) is Ok <==> stmt_supported(s),
{
    match s {
        StmtV::Expr(e) => {
            lemma_expr_compiles_iff_supported(e);
        },
        StmtV::Var(ds) => {
            lemma_dtors_compile_iff_supported(ds);
        },
        StmtV::Unsupported => {},
    }
}

/// An item compiles exactly when it is supported.
pub proof fn lemma_item_compiles_iff_supported(it: StmtListItemV)
    ensures
        emit_item(it) is Ok <==> item_supported(it),
{
    match it {
        StmtListItemV::Decl => {},
        StmtListItemV::Stmt(s) => {
            lemma_stmt_compiles_iff_supported(s);
        },
    }
}

/// Compilation succeeds on exactly the supported script bodies.
pub proof fn lemma_tree_compiles_iff_supported(items: Seq<StmtListItemV>)
    ensures
        emit_items(items) is Ok <==> tree_supported(items),
    decreases items.len(),
{
    if items.len() == 0 {
    } else {
        lemma_item_compiles_iff_supported(items.first());
        lemma_tree_compiles_iff_supported(items.drop_first());
        assert(items.first() == items[0]);
        if emit_items(items) is Ok {
            assert forall|j: int| 0 <= j < items.len() implies item_supported(
                #[trigger] items[j],
            ) by {
                if j > 0 {
                    assert(items[j] == items.drop_first()[j - 1]);
                }
            }
        }
        if tree_supported(items) {
            assert(forall|j: int| 0 <= j < items.drop_first().len() ==> item_supported(
                #[trigger] items.drop_first()[j],
            ));
        }
    }
}

/// A supported single-expression script compiles to a non-empty instruction
/// list, and running it on an empty stack never faults and leaves exactly
/// one value: the expression's value.
pub proof fn lemma_single_expression_script(e: ExprV, env: Map<Seq<char>, JsValueV>)
    requires
        expr_supported(e),
    ensures
        emit_items(seq![StmtListItemV::Stmt(StmtV::Expr(e))]) is Ok,
        emit_items(seq![StmtListItemV::Stmt(StmtV::Expr(e))])->Ok_0.len() >= 1,
        run_insts(
            emit_items(seq![StmtListItemV::Stmt(StmtV::Expr(e))])->Ok_0,
            StateV { stack: Seq::empty(), vars: env },
        ) == Ok::<StateV, StateV>(
            StateV { stack: seq![eval_expr(e, env).0], vars: eval_expr(e, env).1 },
        ),
{
    let items = seq![StmtListItemV::Stmt(StmtV::Expr(e))];
    assert(items[0] == StmtListItemV::Stmt(StmtV::Expr(e)));
    assert(items.first() == items[0]);
    let st = StateV { stack: Seq::empty(), vars: env };
    lemma_compiled_tree_runs(items, st);
    assert(items.drop_first() =~= Seq::<StmtListItemV>::empty());
    let p1 = eval_item(items.first(), env).0;
    let env1 = eval_item(items.first(), env).1;
    assert(eval_items(Seq::<StmtListItemV>::empty(), env1) == (Seq::<JsValueV>::empty(), env1));
    assert(p1 == seq![eval_expr(e, env).0]);
    assert(eval_items(items, env).0 == p1 + Seq::<JsValueV>::empty());
    assert(p1 + Seq::<JsValueV>::empty() =~= p1);
    assert(Seq::<JsValueV>::empty() + eval_items(items, env).0 =~= eval_items(items, env).0);
    assert(emit_item(items[0]) is Ok);
    lemma_compiled_expr_runs(e, st);
    assert(emit_items(items)->Ok_0.len() >= emit_expr(e)->Ok_0.len());
}

/// Compilation is deterministic: one tree has one image.
pub proof fn lemma_compile_deterministic(t: Seq<StmtListItemV>, i1: ImageV, i2: ImageV)
    requires
        emit_items(t) == Ok::<Seq<InstructionV>, CompileError>(i1.script),
        emit_items(t) == Ok::<Seq<InstructionV>, CompileError>(i2.script),
        i1.blocks == Seq::<Seq<InstructionV>>::empty(),
        i2.blocks == Seq::<Seq<InstructionV>>::empty(),
    ensures
        i1 == i2,
{
    assert(i1 =~= i2);
}

/// Loose inequality is the negation of loose equality, boolean-valued on
/// every pair of values.
pub proof fn lemma_neq_is_not_eq(a: JsValueV, b: JsValueV)
    ensures
        spec_eq(a, b) is JsTrue || spec_eq(a, b) is JsFalse,
        spec_flip(spec_eq(a, b)) is JsTrue <==> spec_eq(a, b) is JsFalse,
        spec_flip(spec_eq(a, b)) is JsFalse <==> spec_eq(a, b) is JsTrue,
{
}

/// Strict inequality is the negation of strict equality, boolean-valued on
/// every pair of values.
pub proof fn lemma_strict_neq_is_not_strict_eq(a: JsValueV, b: JsValueV)
    ensures
        spec_strict_eq(a, b) is JsTrue || spec_strict_eq(a, b) is JsFalse,
        spec_flip(spec_strict_eq(a, b)) is JsTrue <==> spec_strict_eq(a, b) is JsFalse,
        spec_flip(spec_strict_eq(a, b)) is JsFalse <==> spec_strict_eq(a, b) is JsTrue,
{
}

/// Strict equality implies loose equality; the converse does not hold.
pub proof fn lemma_strict_eq_implies_eq(a: JsValueV, b: JsValueV)
    requires
        spec_strict_eq(a, b) == JsValueV::JsTrue,
    ensures
        spec_eq(a, b) == JsValueV::JsTrue,
{
}

/// String addition keeps its operands in order: whenever either side is not
/// a number, the sum is the left projection followed by the right one.
pub proof fn lemma_add_keeps_string_order(a: JsValueV, b: JsValueV)
    requires
        !(a is JsNumber && b is JsNumber),
    ensures
        spec_add(a, b) == JsValueV::JsString(proj(a) + proj(b)),
{
}

} // verus!

//! The instruction set, the compiled image, and the compiler.
//!
//! The compiler lowers a syntax tree into a flat instruction stream in
//! postfix operand order: for a binary node the right operand's code is
//! emitted first, then the left operand's, then the opcode, so the machine
//! pops the left operand first. The spec functions `emit_*` state the
//! emitted code exactly; compilation is a function of the tree alone.

use vstd::prelude::*;

use crate::ast::{
    AssopTag, BinopTag, Decl, Dtor, DtorV, Expr, ExprV, Patt, PattV, Stmt, StmtListItem, StmtListItemV,
    StmtV, view_items,
};

verus! {

/// One operation of the stack machine. Operand-bearing opcodes carry their
/// operand inline; a number travels as its decimal text.
#[derive(Debug, PartialEq, Clone)]
pub enum Instruction {
    PUSHNUM(String),
    PUSHSTRLIT(String),
    ADD,
    SUB,
    MLP,
    DIV,
    PUSHTRUE,
    PUSHFALSE,
    EQ,
    SEQ,
    NEQ,
    SNEQ,
    PUSHVAR(String),
    UNDEFINED,
    READIDENT(String),
    ASSIGNEQ(String),
    ASSIGNPLUSEQ(String),
    ASSIGNSUBEQ(String),
    ASSIGNDIVEQ(String),
    ASSIGNMLPEQ(String),
}

/// The model of an `Instruction`.
pub enum InstructionV {
    PUSHNUM(Seq<char>),
    PUSHSTRLIT(Seq<char>),
    ADD,
    SUB,
    MLP,
    DIV,
    PUSHTRUE,
    PUSHFALSE,
    EQ,
    SEQ,
    NEQ,
    SNEQ,
    PUSHVAR(Seq<char>),
    UNDEFINED,
    READIDENT(Seq<char>),
    ASSIGNEQ(Seq<char>),
    ASSIGNPLUSEQ(Seq<char>),
    ASSIGNSUBEQ(Seq<char>),
    ASSIGNDIVEQ(Seq<char>),
    ASSIGNMLPEQ(Seq<char>),
}

impl View for Instruction {
    type V = InstructionV;

    open spec fn view(&self) -> InstructionV {
        match self {
            Instruction::PUSHNUM(s) => InstructionV::PUSHNUM(s@),
            Instruction::PUSHSTRLIT(s) => InstructionV::PUSHSTRLIT(s@),
            Instruction::ADD => InstructionV::ADD,
            Instruction::SUB => InstructionV::SUB,
            Instruction::MLP => InstructionV::MLP,
            Instruction::DIV => InstructionV::DIV,
            Instruction::PUSHTRUE => InstructionV::PUSHTRUE,
            Instruction::PUSHFALSE => InstructionV::PUSHFALSE,
            Instruction::EQ => InstructionV::EQ,
            Instruction::SEQ => InstructionV::SEQ,
            Instruction::NEQ => InstructionV::NEQ,
            Instruction::SNEQ => InstructionV::SNEQ,
            Instruction::PUSHVAR(s) => InstructionV::PUSHVAR(s@),
            Instruction::UNDEFINED => InstructionV::UNDEFINED,
            Instruction::READIDENT(s) => InstructionV::READIDENT(s@),
            Instruction::ASSIGNEQ(s) => InstructionV::ASSIGNEQ(s@),
            Instruction::ASSIGNPLUSEQ(s) => InstructionV::ASSIGNPLUSEQ(s@),
            Instruction::ASSIGNSUBEQ(s) => InstructionV::ASSIGNSUBEQ(s@),
            Instruction::ASSIGNDIVEQ(s) => InstructionV::ASSIGNDIVEQ(s@),
            Instruction::ASSIGNMLPEQ(s) => InstructionV::ASSIGNMLPEQ(s@),
        }
    }
}

/// A straight-line run of instructions.
#[derive(Debug, PartialEq)]
pub struct Block {
    pub instructions: Vec<Instruction>,
}

impl View for Block {
    type V = Seq<InstructionV>;

    open spec fn view(&self) -> Seq<InstructionV> {
        self.instructions@.map_values(|i: Instruction| i@)
    }
}

/// The model of an `Image`.
#[verifier::ext_equal]
pub struct ImageV {
    pub script: Seq<InstructionV>,
    pub blocks: Seq<Seq<InstructionV>>,
}

/// A compiled program: the top-level script, and a provision for nested
/// blocks that no opcode addresses yet.
#[derive(Debug, PartialEq)]
pub struct Image {
    pub script: Block,
    pub blocks: Vec<Block>,
}

impl View for Image {
    type V = ImageV;

    open spec fn view(&self) -> ImageV {
        ImageV {
            script: self.script@,
            blocks: self.blocks@.map_values(|b: Block| b@),
        }
    }
}

impl Image {
    pub fn new() -> (r: Image)
        ensures
            r@.script == Seq::<InstructionV>::empty(),
            r@.blocks == Seq::<Seq<InstructionV>>::empty(),
    {
        let r = Image { script: Block { instructions: Vec::new() }, blocks: Vec::new() };
        proof {
            assert(r@.script =~= Seq::<InstructionV>::empty());
            assert(r@.blocks =~= Seq::<Seq<InstructionV>>::empty());
        }
        r
    }

    pub fn push_instruction(&mut self, instr: Instruction)
        ensures
            final(self)@.script == old(self)@.script.push(instr@),
            final(self)@.blocks == old(self)@.blocks,
    {
        let ghost pre = self.script.instructions@;
        self.script.instructions.push(instr);
        proof {
            assert(final(self)@.script =~= old(self)@.script.push(instr@));
        }
    }

    pub fn push_number(&mut self, num: String)
        ensures
            final(self)@.script == old(self)@.script.push(InstructionV::PUSHNUM(num@)),
            final(self)@.blocks == old(self)@.blocks,
    {
        self.push_instruction(Instruction::PUSHNUM(num));
    }

    pub fn push_string(&mut self, s: String)
        ensures
            final(self)@.script == old(self)@.script.push(InstructionV::PUSHSTRLIT(s@)),
            final(self)@.blocks == old(self)@.blocks,
    {
        self.push_instruction(Instruction::PUSHSTRLIT(s));
    }
}

/// Why a tree was refused.
#[derive(Debug, PartialEq, Eq, Structural, Clone, Copy)]
pub enum CompileError {
    UnsupportedStatement,
    UnsupportedExpression,
    UnsupportedAssignTarget,
    UnsupportedBinop,
    UnsupportedAssop,
    UnsupportedDeclarator,
}

/// The opcode of a supported binary operator.
pub open spec fn binop_instr(op: BinopTag) -> Option<InstructionV> {
    match op {
        BinopTag::Plus => Some(InstructionV::ADD),
        BinopTag::Minus => Some(InstructionV::SUB),
        BinopTag::Times => Some(InstructionV::MLP),
        BinopTag::Div => Some(InstructionV::DIV),
        BinopTag::StrictEq => Some(InstructionV::SEQ),
        BinopTag::Eq => Some(InstructionV::EQ),
        BinopTag::StrictNEq => Some(InstructionV::SNEQ),
        BinopTag::NEq => Some(InstructionV::NEQ),
        BinopTag::Unsupported => None,
    }
}

/// The opcode of a supported assignment operator, carrying its target.
pub open spec fn assign_instr(op: AssopTag, name: Seq<char>) -> Option<InstructionV> {
    match op {
        AssopTag::Eq => Some(InstructionV::ASSIGNEQ(name)),
        AssopTag::PlusEq => Some(InstructionV::ASSIGNPLUSEQ(name)),
        AssopTag::MinusEq => Some(InstructionV::ASSIGNSUBEQ(name)),
        AssopTag::DivEq => Some(InstructionV::ASSIGNDIVEQ(name)),
        AssopTag::TimesEq => Some(InstructionV::ASSIGNMLPEQ(name)),
        AssopTag::Unsupported => None,
    }
}

/// The code of an expression: right operand, then left operand, then the
/// opcode. An assignment emits its value, then the assign opcode. Subtrees
/// are refused in evaluation order, so the first offending construct names
/// the error.
pub open spec fn emit_expr(e: ExprV) -> Result<Seq<InstructionV>, CompileError>
    decreases e,
{
    match e {
        ExprV::Number(s) => Ok(seq![InstructionV::PUSHNUM(s)]),
        ExprV::StrLit(s) => Ok(seq![InstructionV::PUSHSTRLIT(s)]),
        ExprV::True => Ok(seq![InstructionV::PUSHTRUE]),
        ExprV::False => Ok(seq![InstructionV::PUSHFALSE]),
        ExprV::Id(name) => Ok(seq![InstructionV::READIDENT(name)]),
        ExprV::Binop(op, l, r) => match emit_expr(*r) {
            Err(ce) => Err(ce),
            Ok(rc) => match emit_expr(*l) {
                Err(ce) => Err(ce),
                Ok(lc) => match binop_instr(op) {
                    Some(i) => Ok(rc + lc + seq![i]),
                    None => Err(CompileError::UnsupportedBinop),
                },
            },
        },
        ExprV::Assign(op, target, value) => match emit_expr(*value) {
            Err(ce) => Err(ce),
            Ok(vc) => match target {
                PattV::Id(name) => match assign_instr(op, name) {
                    Some(i) => Ok(vc + seq![i]),
                    None => Err(CompileError::UnsupportedAssop),
                },
                PattV::Unsupported => Err(CompileError::UnsupportedAssignTarget),
            },
        },
        ExprV::Unsupported => Err(CompileError::UnsupportedExpression),
    }
}

/// The code of one declarator: its initialiser (or an undefined push), then
/// the binding opcode.
pub open spec fn emit_dtor(d: DtorV) -> Result<Seq<InstructionV>, CompileError> {
    match d {
        DtorV::Simple(name, init) => match init {
            Some(e) => match emit_expr(e) {
                Err(ce) => Err(ce),
                Ok(c) => Ok(c + seq![InstructionV::PUSHVAR(name)]),
            },
            None => Ok(seq![InstructionV::UNDEFINED, InstructionV::PUSHVAR(name)]),
        },
        DtorV::Unsupported => Err(CompileError::UnsupportedDeclarator),
    }
}

/// The code of a run of declarators, in source order.
pub open spec fn emit_dtors(ds: Seq<DtorV>) -> Result<Seq<InstructionV>, CompileError>
    decreases ds.len(),
{
    if ds.len() == 0 {
        Ok(Seq::empty())
    } else {
        match emit_dtor(ds.first()) {
            Err(ce) => Err(ce),
            Ok(c) => match emit_dtors(ds.drop_first()) {
                Err(ce) => Err(ce),
                Ok(rest) => Ok(c + rest),
            },
        }
    }
}

/// The code of a statement.
pub open spec fn emit_stmt(st: StmtV) -> Result<Seq<InstructionV>, CompileError> {
    match st {
        StmtV::Expr(e) => emit_expr(e),
        StmtV::Var(ds) => emit_dtors(ds),
        StmtV::Unsupported => Err(CompileError::UnsupportedStatement),
    }
}

/// The code of one item. A declaration emits nothing.
pub open spec fn emit_item(it: StmtListItemV) -> Result<Seq<InstructionV>, CompileError> {
    match it {
        StmtListItemV::Decl => Ok(Seq::empty()),
        StmtListItemV::Stmt(st) => emit_stmt(st),
    }
}

/// The code of a whole script body, in source order.
pub open spec fn emit_items(items: Seq<StmtListItemV>) -> Result<Seq<InstructionV>, CompileError>
    decreases items.len(),
{
    if items.len() == 0 {
        Ok(Seq::empty())
    } else {
        match emit_item(items.first()) {
            Err(ce) => Err(ce),
            Ok(c) => match emit_items(items.drop_first()) {
                Err(ce) => Err(ce),
                Ok(rest) => Ok(c + rest),
            },
        }
    }
}

/// A run of declarators compiles piecewise: the code of a concatenation is
/// the concatenation of the codes, and the first error wins.
proof fn lemma_emit_dtors_append(a: Seq<DtorV>, b: Seq<DtorV>)
    ensures
        emit_dtors(a + b) == (match emit_dtors(a) {
            Err(ce) => Err::<Seq<InstructionV>, CompileError>(ce),
            Ok(ca) => match emit_dtors(b) {
                Err(ce) => Err(ce),
                Ok(cb) => Ok(ca + cb),
            },
        }),
    decreases a.len(),
{
    if a.len() == 0 {
        assert(a + b =~= b);
        if emit_dtors(b) is Ok {
            assert(Seq::<InstructionV>::empty() + emit_dtors(b)->Ok_0 =~= emit_dtors(b)->Ok_0);
        }
    } else {
        assert((a + b).first() == a.first());
        assert((a + b).drop_first() =~= a.drop_first() + b);
        lemma_emit_dtors_append(a.drop_first(), b);
        if emit_dtor(a.first()) is Ok && emit_dtors(a.drop_first()) is Ok && emit_dtors(b) is Ok {
            let c = emit_dtor(a.first())->Ok_0;
            let ca = emit_dtors(a.drop_first())->Ok_0;
            let cb = emit_dtors(b)->Ok_0;
            assert(c + (ca + cb) =~= (c + ca) + cb);
        }
    }
}

/// A script body compiles piecewise, as a run of declarators does.
proof fn lemma_emit_items_append(a: Seq<StmtListItemV>, b: Seq<StmtListItemV>)
    ensures
        emit_items(a + b) == (match emit_items(a) {
            Err(ce) => Err::<Seq<InstructionV>, CompileError>(ce),
            Ok(ca) => match emit_items(b) {
                Err(ce) => Err(ce),
                Ok(cb) => Ok(ca + cb),
            },
        }),
    decreases a.len(),
{
    if a.len() == 0 {
        assert(a + b =~= b);
        if emit_items(b) is Ok {
            assert(Seq::<InstructionV>::empty() + emit_items(b)->Ok_0 =~= emit_items(b)->Ok_0);
        }
    } else {
        assert((a + b).first() == a.first());
        assert((a + b).drop_first() =~= a.drop_first() + b);
        lemma_emit_items_append(a.drop_first(), b);
        if emit_item(a.first()) is Ok && emit_items(a.drop_first()) is Ok && emit_items(b) is Ok {
            let c = emit_item(a.first())->Ok_0;
            let ca = emit_items(a.drop_first())->Ok_0;
            let cb = emit_items(b)->Ok_0;
            assert(c + (ca + cb) =~= (c + ca) + cb);
        }
    }
}

/// Compiles a script body to an image. Succeeds exactly on supported trees;
/// on failure no partial image is handed out.
pub fn compile_to_image(body: Vec<StmtListItem>) -> (r: Result<Image, CompileError>)
    ensures
        (match r {
            Ok(img) => emit_items(view_items(body@)) == Ok::<_, CompileError>(img@.script)
                && img@.blocks == Seq::<Seq<InstructionV>>::empty(),
            Err(ce) => emit_items(view_items(body@)) == Err::<Seq<InstructionV>, _>(ce),
        }),
{
    let mut image = Image::new();
    let ghost items = view_items(body@);
    proof {
        assert(items.take(0) =~= Seq::<StmtListItemV>::empty());
    }
    let n = body.len();
    let mut i: usize = 0;
    while i < n
        invariant
            n == body@.len(),
            i <= n,
            items == view_items(body@),
            emit_items(items.take(i as int)) == Ok::<_, CompileError>(image@.script),
            image@.blocks == Seq::<Seq<InstructionV>>::empty(),
        decreases n - i,
    {
        let ghost taken = items.take(i as int);
        let ghost script_pre = image@.script;
        let item = &body[i];
        let res = match item {
            StmtListItem::Decl(decl) => {
                compile_decl(&mut image, decl);
                Ok(())
            },
            StmtListItem::Stmt(stmt) => compile_stmt(&mut image, stmt),
        };
        proof {
            assert(items[i as int] == view_items(body@)[i as int]);
            assert(items.take(i + 1) =~= taken + seq![items[i as int]]);
            lemma_emit_items_append(taken, seq![items[i as int]]);
            assert(seq![items[i as int]].first() == items[i as int]);
            assert(seq![items[i as int]].drop_first() =~= Seq::<StmtListItemV>::empty());
            assert(emit_items(Seq::<StmtListItemV>::empty()) == Ok::<_, CompileError>(
                Seq::<InstructionV>::empty(),
            ));
            assert(items =~= items.take(i + 1) + items.skip(i + 1));
            lemma_emit_items_append(items.take(i + 1), items.skip(i + 1));
            if emit_item(items[i as int]) is Ok {
                let c = emit_item(items[i as int])->Ok_0;
                assert(c + Seq::<InstructionV>::empty() =~= c);
                assert(script_pre + Seq::<InstructionV>::empty() =~= script_pre);
                assert(image@.script == script_pre + c);
            }
        }
        match res {
            Ok(()) => {},
            Err(ce) => {
                return Err(ce);
            },
        }
        proof {
            assert(emit_item(items[i as int]) is Ok);
            assert(emit_items(taken) == Ok::<_, CompileError>(script_pre));
            assert(emit_items(seq![items[i as int]]) == Ok::<_, CompileError>(
                emit_item(items[i as int])->Ok_0,
            ));
            assert(emit_items(items.take(i + 1)) == Ok::<_, CompileError>(image@.script));
        }
        i = i + 1;
    }
    proof {
        assert(items.take(n as int) =~= items);
    }
    Ok(image)
}

/// A declaration compiles to nothing: no opcode addresses one yet.
fn compile_decl(image: &mut Image, decl: &Decl)
    ensures
        *final(image) == *old(image),
{
}

/// Compiles one statement onto the image's script.
fn compile_stmt(image: &mut Image, stmt: &Stmt) -> (r: Result<(), CompileError>)
    ensures
        (match emit_stmt(stmt@) {
            Ok(code) => r is Ok && final(image)@.script == old(image)@.script + code && final(image)@.blocks == old(image)@.blocks,
            Err(ce) => r == Err::<(), CompileError>(ce),
        }),
{
    match stmt {
        Stmt::Expr(expr) => compile_expression(image, expr),
        Stmt::Var(dtor_vec) => compile_dtor_vec(image, dtor_vec),
        Stmt::Unsupported => Err(CompileError::UnsupportedStatement),
    }
}

/// Compiles one expression onto the image's script: right before left for a
/// binary node, the value before the assign opcode for an assignment.
fn compile_expression(image: &mut Image, expr: &Expr) -> (r: Result<(), CompileError>)
    ensures
        (match emit_expr(expr@) {
            Ok(code) => r is Ok && final(image)@.script == old(image)@.script + code && final(image)@.blocks == old(image)@.blocks,
            Err(ce) => r == Err::<(), CompileError>(ce),
        }),
    decreases expr,
{
    match expr {
        Expr::Binop(op, left, right) => {
            match compile_expression(image, right) {
                Err(ce) => Err(ce),
                Ok(()) => match compile_expression(image, left) {
                    Err(ce) => Err(ce),
                    Ok(()) => {
                        let r = compile_bin_op(image, *op);
                        proof {
                            if emit_expr(expr@) is Ok {
                                let rc = emit_expr(right@)->Ok_0;
                                let lc = emit_expr(left@)->Ok_0;
                                let i = binop_instr(*op)->Some_0;
                                assert((((old(image)@.script + rc) + lc)).push(i) =~= ((old(image)@.script + rc) + lc) + seq![i]);
                                assert(old(image)@.script + (rc + lc + seq![i]) =~= ((old(image)@.script + rc) + lc) + seq![i]);
                            }
                        }
                        r
                    },
                },
            }
        },
        Expr::Number(number) => {
            image.push_number(number.clone());
            proof {
                assert(old(image)@.script + seq![InstructionV::PUSHNUM(number@)] =~= old(image)@.script.push(InstructionV::PUSHNUM(number@)));
            }
            Ok(())
        },
        Expr::StrLit(string_literal) => {
            image.push_string(string_literal.clone());
            proof {
                assert(old(image)@.script + seq![InstructionV::PUSHSTRLIT(string_literal@)] =~= old(image)@.script.push(InstructionV::PUSHSTRLIT(string_literal@)));
            }
            Ok(())
        },
        Expr::True => {
            image.push_instruction(Instruction::PUSHTRUE);
            proof {
                assert(old(image)@.script + seq![InstructionV::PUSHTRUE] =~= old(image)@.script.push(InstructionV::PUSHTRUE));
            }
            Ok(())
        },
        Expr::False => {
            image.push_instruction(Instruction::PUSHFALSE);
            proof {
                assert(old(image)@.script + seq![InstructionV::PUSHFALSE] =~= old(image)@.script.push(InstructionV::PUSHFALSE));
            }
            Ok(())
        },
        Expr::Id(name) => {
            image.push_instruction(Instruction::READIDENT(name.clone()));
            proof {
                assert(old(image)@.script + seq![InstructionV::READIDENT(name@)] =~= old(image)@.script.push(InstructionV::READIDENT(name@)));
            }
            Ok(())
        },
        Expr::Assign(op, target, value) => {
            match compile_expression(image, value) {
                Err(ce) => Err(ce),
                Ok(()) => match target {
                    Patt::Id(name) => {
                        let r = compile_ass_op(image, *op, name.clone());
                        proof {
                            if emit_expr(expr@) is Ok {
                                let vc = emit_expr(value@)->Ok_0;
                                let i = assign_instr(*op, name@)->Some_0;
                                assert((old(image)@.script + vc).push(i) =~= (old(image)@.script + vc) + seq![i]);
                                assert(old(image)@.script + (vc + seq![i]) =~= (old(image)@.script + vc) + seq![i]);
                            }
                        }
                        r
                    },
                    Patt::Unsupported => Err(CompileError::UnsupportedAssignTarget),
                },
            }
        },
        Expr::Unsupported => Err(CompileError::UnsupportedExpression),
    }
}

/// Emits the opcode of a binary operator.
fn compile_bin_op(image: &mut Image, binop: BinopTag) -> (r: Result<(), CompileError>)
    ensures
        (match binop_instr(binop) {
            Some(i) => r is Ok && final(image)@.script == old(image)@.script.push(i) && final(image)@.blocks == old(image)@.blocks,
            None => r == Err::<(), CompileError>(CompileError::UnsupportedBinop) && *final(image)
                == *old(image),
        }),
{
    match binop {
        BinopTag::Plus => {
            image.push_instruction(Instruction::ADD);
            Ok(())
        },
        BinopTag::Minus => {
            image.push_instruction(Instruction::SUB);
            Ok(())
        },
        BinopTag::Times => {
            image.push_instruction(Instruction::MLP);
            Ok(())
        },
        BinopTag::Div => {
            image.push_instruction(Instruction::DIV);
            Ok(())
        },
        BinopTag::StrictEq => {
            image.push_instruction(Instruction::SEQ);
            Ok(())
        },
        BinopTag::Eq => {
            image.push_instruction(Instruction::EQ);
            Ok(())
        },
        BinopTag::StrictNEq => {
            image.push_instruction(Instruction::SNEQ);
            Ok(())
        },
        BinopTag::NEq => {
            image.push_instruction(Instruction::NEQ);
            Ok(())
        },
        BinopTag::Unsupported => Err(CompileError::UnsupportedBinop),
    }
}

/// Emits the opcode of an assignment operator, carrying its target.
fn compile_ass_op(image: &mut Image, assop: AssopTag, id: String) -> (r: Result<(), CompileError>)
    ensures
        (match assign_instr(assop, id@) {
            Some(i) => r is Ok && final(image)@.script == old(image)@.script.push(i) && final(image)@.blocks == old(image)@.blocks,
            None => r == Err::<(), CompileError>(CompileError::UnsupportedAssop) && *final(image)
                == *old(image),
        }),
{
    match assop {
        AssopTag::Eq => {
            image.push_instruction(Instruction::ASSIGNEQ(id));
            Ok(())
        },
        AssopTag::PlusEq => {
            image.push_instruction(Instruction::ASSIGNPLUSEQ(id));
            Ok(())
        },
        AssopTag::MinusEq => {
            image.push_instruction(Instruction::ASSIGNSUBEQ(id));
            Ok(())
        },
        AssopTag::DivEq => {
            image.push_instruction(Instruction::ASSIGNDIVEQ(id));
            Ok(())
        },
        AssopTag::TimesEq => {
            image.push_instruction(Instruction::ASSIGNMLPEQ(id));
            Ok(())
        },
        AssopTag::Unsupported => Err(CompileError::UnsupportedAssop),
    }
}

/// Compiles a run of declarators in source order.
fn compile_dtor_vec(image: &mut Image, dtor_vec: &Vec<Dtor>) -> (r: Result<(), CompileError>)
    ensures
        (match emit_dtors(dtor_vec@.map_values(|d: Dtor| crate::ast::view_dtor(d))) {
            Ok(code) => r is Ok && final(image)@.script == old(image)@.script + code && final(image)@.blocks == old(image)@.blocks,
            Err(ce) => r == Err::<(), CompileError>(ce),
        }),
{
    let ghost ds = dtor_vec@.map_values(|d: Dtor| crate::ast::view_dtor(d));
    proof {
        assert(ds.take(0) =~= Seq::<DtorV>::empty());
        assert(image@.script.skip(old(image)@.script.len() as int) =~= Seq::<InstructionV>::empty());
        assert(image@.script.take(old(image)@.script.len() as int) =~= old(image)@.script);
    }
    let n = dtor_vec.len();
    let mut i: usize = 0;
    while i < n
        invariant
            n == dtor_vec@.len(),
            i <= n,
            ds == dtor_vec@.map_values(|d: Dtor| crate::ast::view_dtor(d)),
            emit_dtors(ds.take(i as int)) == Ok::<_, CompileError>(
                image@.script.skip(old(image)@.script.len() as int),
            ),
            image@.script.len() >= old(image)@.script.len(),
            image@.script.take(old(image)@.script.len() as int) == old(image)@.script,
            image@.blocks == old(image)@.blocks,
        decreases n - i,
    {
        let ghost taken = ds.take(i as int);
        let ghost script_pre = image@.script;
        let res = compile_dtor(image, &dtor_vec[i]);
        proof {
            assert(ds[i as int] == crate::ast::view_dtor(dtor_vec@[i as int]));
            assert(ds.take(i + 1) =~= taken + seq![ds[i as int]]);
            lemma_emit_dtors_append(taken, seq![ds[i as int]]);
            assert(seq![ds[i as int]].first() == ds[i as int]);
            assert(seq![ds[i as int]].drop_first() =~= Seq::<DtorV>::empty());
            assert(emit_dtors(Seq::<DtorV>::empty()) == Ok::<_, CompileError>(
                Seq::<InstructionV>::empty(),
            ));
            assert(ds =~= ds.take(i + 1) + ds.skip(i + 1));
            lemma_emit_dtors_append(ds.take(i + 1), ds.skip(i + 1));
            if emit_dtor(ds[i as int]) is Ok {
                let c = emit_dtor(ds[i as int])->Ok_0;
                assert(c + Seq::<InstructionV>::empty() =~= c);
                assert(image@.script =~= script_pre + c);
                assert(image@.script.skip(old(image)@.script.len() as int) =~= script_pre.skip(
                    old(image)@.script.len() as int,
                ) + c);
                assert(image@.script.take(old(image)@.script.len() as int) =~= old(image)@.script);
            }
        }
        match res {
            Ok(()) => {},
            Err(ce) => {
                return Err(ce);
            },
        }
        i = i + 1;
    }
    proof {
        assert(ds.take(n as int) =~= ds);
        assert(old(image)@.script + image@.script.skip(old(image)@.script.len() as int)
            =~= image@.script);
    }
    Ok(())
}

/// Compiles one declarator: the initialiser (or an undefined push), then the
/// binding opcode.
fn compile_dtor(image: &mut Image, dtor: &Dtor) -> (r: Result<(), CompileError>)
    ensures
        (match emit_dtor(dtor@) {
            Ok(code) => r is Ok && final(image)@.script == old(image)@.script + code && final(image)@.blocks == old(image)@.blocks,
            Err(ce) => r == Err::<(), CompileError>(ce),
        }),
{
    match dtor {
        Dtor::Simple(identifier, expressions) => {
            match expressions {
                Some(expr) => {
                    match compile_expression(image, expr) {
                        Err(ce) => {
                            return Err(ce);
                        },
                        Ok(()) => {},
                    }
                },
                None => {
                    image.push_instruction(Instruction::UNDEFINED);
                },
            }
            image.push_instruction(Instruction::PUSHVAR(identifier.clone()));
            proof {
                if emit_dtor(dtor@) is Ok {
                    let code = emit_dtor(dtor@)->Ok_0;
                    assert(image@.script =~= old(image)@.script + code);
                }
            }
            Ok(())
        },
        Dtor::Unsupported => Err(CompileError::UnsupportedDeclarator),
    }
}

} // verus!

//! The syntax tree that the compiler consumes.
//!
//! A script body is an ordered list of statement-or-declaration items. The
//! shapes below carry exactly what the compiler reads; a producer (an outside
//! parser, or a test) builds them from source text. Node kinds that the
//! Language does not support yet are carried as `Unsupported` markers, so
//! that the compiler can refuse them with a structured error.
//!
//! A number literal carries the shortest round-tripping decimal form of its
//! IEEE-754 double value, as `numbers` explains.

use vstd::prelude::*;

verus! {

/// A binary operator tag. `Unsupported` stands for every operator of the
/// source grammar that the Language does not compile.
#[derive(Debug, PartialEq, Eq, Structural, Clone, Copy)]
pub enum BinopTag {
    Plus,
    Minus,
    Times,
    Div,
    StrictEq,
    Eq,
    StrictNEq,
    NEq,
    Unsupported,
}

/// An assignment operator tag.
#[derive(Debug, PartialEq, Eq, Structural, Clone, Copy)]
pub enum AssopTag {
    Eq,
    PlusEq,
    MinusEq,
    TimesEq,
    DivEq,
    Unsupported,
}

/// An assignment target: a simple identifier, or a complex pattern that the
/// compiler refuses.
#[derive(Debug, PartialEq)]
pub enum Patt {
    Id(String),
    Unsupported,
}

/// An expression.
#[derive(Debug, PartialEq)]
pub enum Expr {
    /// A number literal, as its decimal text.
    Number(String),
    /// A string literal.
    StrLit(String),
    True,
    False,
    /// A read of a variable.
    Id(String),
    /// A binary operation on two subexpressions.
    Binop(BinopTag, Box<Expr>, Box<Expr>),
    /// An assignment of a value to a target.
    Assign(AssopTag, Patt, Box<Expr>),
    /// Any expression kind the Language does not compile.
    Unsupported,
}

/// One declarator of a variable statement: a name with an optional
/// initialiser, or a destructuring form that the compiler refuses.
#[derive(Debug, PartialEq)]
pub enum Dtor {
    Simple(String, Option<Expr>),
    Unsupported,
}

/// A statement.
#[derive(Debug, PartialEq)]
pub enum Stmt {
    /// An expression statement.
    Expr(Expr),
    /// A variable statement with its declarators.
    Var(Vec<Dtor>),
    /// Any statement kind the Language does not compile.
    Unsupported,
}

/// A declaration. The compiler walks past declarations without emitting
/// anything: no opcode addresses them yet.
#[derive(Debug, PartialEq)]
pub enum Decl {
    Fun(String),
}

/// One item of a script body.
#[derive(Debug, PartialEq)]
pub enum StmtListItem {
    Decl(Decl),
    Stmt(Stmt),
}

/// The model of a `Patt`.
pub enum PattV {
    Id(Seq<char>),
    Unsupported,
}

/// The model of an `Expr`.
pub enum ExprV {
    Number(Seq<char>),
    StrLit(Seq<char>),
    True,
    False,
    Id(Seq<char>),
    Binop(BinopTag, Box<ExprV>, Box<ExprV>),
    Assign(AssopTag, PattV, Box<ExprV>),
    Unsupported,
}

/// The model of a `Dtor`.
pub enum DtorV {
    Simple(Seq<char>, Option<ExprV>),
    Unsupported,
}

/// The model of a `Stmt`.
pub enum StmtV {
    Expr(ExprV),
    Var(Seq<DtorV>),
    Unsupported,
}

/// The model of a `StmtListItem`.
pub enum StmtListItemV {
    Decl,
    Stmt(StmtV),
}

pub open spec fn view_expr(e: Expr) -> ExprV
    decreases e,
{
    match e {
        Expr::Number(s) => ExprV::Number(s@),
        Expr::StrLit(s) => ExprV::StrLit(s@),
        Expr::True => ExprV::True,
        Expr::False => ExprV::False,
        Expr::Id(s) => ExprV::Id(s@),
        Expr::Binop(op, l, r) => ExprV::Binop(
            op,
            Box::new(view_expr(*l)),
            Box::new(view_expr(*r)),
        ),
        Expr::Assign(op, t, v) => ExprV::Assign(op, t@, Box::new(view_expr(*v))),
        Expr::Unsupported => ExprV::Unsupported,
    }
}

pub open spec fn view_dtor(d: Dtor) -> DtorV {
    match d {
        Dtor::Simple(name, init) => DtorV::Simple(
            name@,
            match init {
                Some(e) => Some(view_expr(e)),
                None => None,
            },
        ),
        Dtor::Unsupported => DtorV::Unsupported,
    }
}

pub open spec fn view_stmt(st: Stmt) -> StmtV {
    match st {
        Stmt::Expr(e) => StmtV::Expr(view_expr(e)),
        Stmt::Var(ds) => StmtV::Var(ds@.map_values(|d: Dtor| view_dtor(d))),
        Stmt::Unsupported => StmtV::Unsupported,
    }
}

pub open spec fn view_item(it: StmtListItem) -> StmtListItemV {
    match it {
        StmtListItem::Decl(_) => StmtListItemV::Decl,
        StmtListItem::Stmt(st) => StmtListItemV::Stmt(view_stmt(st)),
    }
}

/// The model of a whole script body.
pub open spec fn view_items(items: Seq<StmtListItem>) -> Seq<StmtListItemV> {
    items.map_values(|it: StmtListItem| view_item(it))
}

impl View for Patt {
    type V = PattV;

    open spec fn view(&self) -> PattV {
        match self {
            Patt::Id(s) => PattV::Id(s@),
            Patt::Unsupported => PattV::Unsupported,
        }
    }
}

impl View for Expr {
    type V = ExprV;

    open spec fn view(&self) -> ExprV {
        view_expr(*self)
    }
}

impl View for Dtor {
    type V = DtorV;

    open spec fn view(&self) -> DtorV {
        view_dtor(*self)
    }
}

impl View for Stmt {
    type V = StmtV;

    open spec fn view(&self) -> StmtV {
        view_stmt(*self)
    }
}

impl View for StmtListItem {
    type V = StmtListItemV;

    open spec fn view(&self) -> StmtListItemV {
        view_item(*self)
    }
}

} // verus!

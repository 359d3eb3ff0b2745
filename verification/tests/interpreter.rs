//! End-to-end tests: trees are built by hand in the shape an outside parser
//! would produce, compiled, and run on the machine. Source text is quoted in
//! comments beside each tree.

use jsvm::ast::{AssopTag, BinopTag, Decl, Dtor, Expr, Patt, Stmt, StmtListItem};
use jsvm::bytecode::{compile_to_image, Block, CompileError, Image, Instruction};
use jsvm::operations;
use jsvm::repl::ret_value_fmt;
use jsvm::scope::Scope;
use jsvm::temp::js_value_to_string;
use jsvm::types::{flip_js_bool, rust_to_js_boolean, try_js_value_to_js_number};
use jsvm::vm::{JsValue, RuntimeFault, VM};

fn n(x: f64) -> Expr {
    Expr::Number(format!("{}", x))
}

fn s(t: &str) -> Expr {
    Expr::StrLit(t.to_string())
}

fn id(name: &str) -> Expr {
    Expr::Id(name.to_string())
}

fn bin(op: BinopTag, l: Expr, r: Expr) -> Expr {
    Expr::Binop(op, Box::new(l), Box::new(r))
}

fn assign(op: AssopTag, name: &str, value: Expr) -> Expr {
    Expr::Assign(op, Patt::Id(name.to_string()), Box::new(value))
}

fn var_stmt(name: &str, init: Option<Expr>) -> StmtListItem {
    StmtListItem::Stmt(Stmt::Var(vec![Dtor::Simple(name.to_string(), init)]))
}

fn script(e: Expr) -> Vec<StmtListItem> {
    vec![StmtListItem::Stmt(Stmt::Expr(e))]
}

fn numv(x: f64) -> JsValue {
    JsValue::JsNumber(format!("{}", x))
}

fn pushnum(x: f64) -> Instruction {
    Instruction::PUSHNUM(format!("{}", x))
}

fn compile_or_panic(body: Vec<StmtListItem>) -> Image {
    match compile_to_image(body) {
        Err(why) => panic!("Could not compile, {:?}", why),
        Ok(image) => image,
    }
}

fn compile_repl(body: Vec<StmtListItem>) -> JsValue {
    let image = compile_or_panic(body);
    let mut engine = VM::new(image, Scope::new_global());
    engine.run().unwrap();
    engine.read_stack_end()
}

// "10 + 1"
#[test]
fn bytecode_binaryop_plus() {
    assert_eq!(
        Image {
            script: Block { instructions: vec![pushnum(1.0), pushnum(10.0), Instruction::ADD] },
            blocks: vec![],
        },
        compile_or_panic(script(bin(BinopTag::Plus, n(10.0), n(1.0))))
    );
}

// "10 - 1"
#[test]
fn bytecode_binaryop_minus() {
    assert_eq!(
        Image {
            script: Block { instructions: vec![pushnum(1.0), pushnum(10.0), Instruction::SUB] },
            blocks: vec![],
        },
        compile_or_panic(script(bin(BinopTag::Minus, n(10.0), n(1.0))))
    );
}

// "10 / 1"
#[test]
fn bytecode_binaryop_divide() {
    assert_eq!(
        Image {
            script: Block { instructions: vec![pushnum(1.0), pushnum(10.0), Instruction::DIV] },
            blocks: vec![],
        },
        compile_or_panic(script(bin(BinopTag::Div, n(10.0), n(1.0))))
    );
}

// "10 * 1"
#[test]
fn bytecode_binaryop_multiply() {
    assert_eq!(
        Image {
            script: Block { instructions: vec![pushnum(1.0), pushnum(10.0), Instruction::MLP] },
            blocks: vec![],
        },
        compile_or_panic(script(bin(BinopTag::Times, n(10.0), n(1.0))))
    );
}

// "\"hello, world\""
#[test]
fn bytecode_helloworld_string() {
    assert_eq!(
        Image {
            script: Block {
                instructions: vec![Instruction::PUSHSTRLIT("hello, world".to_owned())],
            },
            blocks: vec![],
        },
        compile_or_panic(script(s("hello, world")))
    );
}

// "1 + 2"
#[test]
fn vm_add_numnum() {
    assert_eq!(compile_repl(script(bin(BinopTag::Plus, n(1.0), n(2.0)))), numv(3.0))
}

// "1 * 2"
#[test]
fn vm_mlp_valid() {
    assert_eq!(compile_repl(script(bin(BinopTag::Times, n(1.0), n(2.0)))), numv(2.0))
}

// "10 / 2"
#[test]
fn vm_div_valid() {
    assert_eq!(compile_repl(script(bin(BinopTag::Div, n(10.0), n(2.0)))), numv(5.0))
}

// "10 - 2"
#[test]
fn vm_sub_valid() {
    assert_eq!(compile_repl(script(bin(BinopTag::Minus, n(10.0), n(2.0)))), numv(8.0))
}

// "10 + 'hello'"
#[test]
fn vm_concat_strnum() {
    assert_eq!(
        compile_repl(script(bin(BinopTag::Plus, n(10.0), s("hello")))),
        JsValue::JsString("10hello".to_owned())
    )
}

// "'hello, ' + 'world'"
#[test]
fn vm_concat_strstr() {
    assert_eq!(
        compile_repl(script(bin(BinopTag::Plus, s("hello, "), s("world")))),
        JsValue::JsString("hello, world".to_owned())
    )
}

// "10 - \"\""
#[test]
fn vm_sub_invalid() {
    assert_eq!(compile_repl(script(bin(BinopTag::Minus, n(10.0), s("")))), JsValue::JsNan)
}

// "10 * \"\""
#[test]
fn vm_mlp_invalid() {
    assert_eq!(compile_repl(script(bin(BinopTag::Times, n(10.0), s("")))), JsValue::JsNan)
}

// "10 / \"\""
#[test]
fn vm_div_invalid() {
    assert_eq!(compile_repl(script(bin(BinopTag::Div, n(10.0), s("")))), JsValue::JsNan)
}

// "10 - \"5\""
#[test]
fn vm_sub_numstr() {
    assert_eq!(compile_repl(script(bin(BinopTag::Minus, n(10.0), s("5")))), numv(5.0))
}

// "10 * \"5\""
#[test]
fn vm_mlp_numstr() {
    assert_eq!(compile_repl(script(bin(BinopTag::Times, n(10.0), s("5")))), numv(50.0))
}

// "10 / \"5\""
#[test]
fn vm_div_numstr() {
    assert_eq!(compile_repl(script(bin(BinopTag::Div, n(10.0), s("5")))), numv(2.0))
}

// "10 - \"a\""
#[test]
fn vm_sub_numstr_invalid() {
    assert_eq!(compile_repl(script(bin(BinopTag::Minus, n(10.0), s("a")))), JsValue::JsNan)
}

// "10 * \"a\""
#[test]
fn vm_mlp_numstr_invalid() {
    assert_eq!(compile_repl(script(bin(BinopTag::Times, n(10.0), s("a")))), JsValue::JsNan)
}

// "10 / \"a\""
#[test]
fn vm_div_numstr_invalid() {
    assert_eq!(compile_repl(script(bin(BinopTag::Div, n(10.0), s("a")))), JsValue::JsNan)
}

// "\"10\" - 5"
#[test]
fn vm_sub_strnum() {
    assert_eq!(compile_repl(script(bin(BinopTag::Minus, s("10"), n(5.0)))), numv(5.0))
}

// "\"5\" * 10"
#[test]
fn vm_mlp_strnum() {
    assert_eq!(compile_repl(script(bin(BinopTag::Times, s("5"), n(10.0)))), numv(50.0))
}

// "\"10\" / 5"
#[test]
fn vm_div_strnum() {
    assert_eq!(compile_repl(script(bin(BinopTag::Div, s("10"), n(5.0)))), numv(2.0))
}

// "\"a\" - 5"
#[test]
fn vm_sub_strnum_invalid() {
    assert_eq!(compile_repl(script(bin(BinopTag::Minus, s("a"), n(5.0)))), JsValue::JsNan)
}

// "\"a\" * 10"
#[test]
fn vm_mlp_strnum_invalid() {
    assert_eq!(compile_repl(script(bin(BinopTag::Times, s("a"), n(10.0)))), JsValue::JsNan)
}

// "\"a\" / 5"
#[test]
fn vm_div_strnum_invalid() {
    assert_eq!(compile_repl(script(bin(BinopTag::Div, s("a"), n(5.0)))), JsValue::JsNan)
}

// "1 == '1'"
#[test]
fn num_eq_strnum() {
    assert_eq!(compile_repl(script(bin(BinopTag::Eq, n(1.0), s("1")))), JsValue::JsTrue)
}

// "1 != '2'"
#[test]
fn num_neq_strnum() {
    assert_eq!(compile_repl(script(bin(BinopTag::NEq, n(1.0), s("2")))), JsValue::JsTrue)
}

// "'1' == 1"
#[test]
fn num_eq_numstr() {
    assert_eq!(compile_repl(script(bin(BinopTag::Eq, s("1"), n(1.0)))), JsValue::JsTrue)
}

// "'2' != 1"
#[test]
fn num_neq_numstr() {
    assert_eq!(compile_repl(script(bin(BinopTag::NEq, s("2"), n(1.0)))), JsValue::JsTrue)
}

// "1 === '1'"
#[test]
fn num_seq_strnum() {
    assert_eq!(compile_repl(script(bin(BinopTag::StrictEq, n(1.0), s("1")))), JsValue::JsFalse)
}

// "1 !== '1'"
#[test]
fn num_sneq_strnum() {
    assert_eq!(compile_repl(script(bin(BinopTag::StrictNEq, n(1.0), s("1")))), JsValue::JsTrue)
}

// "'1' === 1"
#[test]
fn num_seq_numstr() {
    assert_eq!(compile_repl(script(bin(BinopTag::StrictEq, s("1"), n(1.0)))), JsValue::JsFalse)
}

// "'1' !== 1"
#[test]
fn num_sneq_numstr() {
    assert_eq!(compile_repl(script(bin(BinopTag::StrictNEq, s("1"), n(1.0)))), JsValue::JsTrue)
}

// "true == ''"
#[test]
fn bool_empty_string() {
    assert_eq!(compile_repl(script(bin(BinopTag::Eq, Expr::True, s("")))), JsValue::JsFalse)
}

// "'' == false"
#[test]
fn empty_string_bool() {
    assert_eq!(compile_repl(script(bin(BinopTag::Eq, s(""), Expr::False))), JsValue::JsTrue)
}

// "2 !== 1"
#[test]
fn num_sneq() {
    assert_eq!(compile_repl(script(bin(BinopTag::StrictNEq, n(2.0), n(1.0)))), JsValue::JsTrue)
}

// "1 === 1"
#[test]
fn num_seq() {
    assert_eq!(compile_repl(script(bin(BinopTag::StrictEq, n(1.0), n(1.0)))), JsValue::JsTrue)
}

// "'HELLO' === 'HELLO'"
#[test]
fn str_seq() {
    assert_eq!(
        compile_repl(script(bin(BinopTag::StrictEq, s("HELLO"), s("HELLO")))),
        JsValue::JsTrue
    )
}

// "'HELLO' == 'HELLO'"
#[test]
fn str_eq() {
    assert_eq!(compile_repl(script(bin(BinopTag::Eq, s("HELLO"), s("HELLO")))), JsValue::JsTrue)
}

// "'0' == false"
#[test]
fn zerostr_true() {
    assert_eq!(compile_repl(script(bin(BinopTag::Eq, s("0"), Expr::False))), JsValue::JsTrue)
}

// "0 == false"
#[test]
fn zero_true() {
    assert_eq!(compile_repl(script(bin(BinopTag::Eq, n(0.0), Expr::False))), JsValue::JsTrue)
}

// "true === true"
#[test]
fn seq_true() {
    assert_eq!(
        compile_repl(script(bin(BinopTag::StrictEq, Expr::True, Expr::True))),
        JsValue::JsTrue
    )
}

// "false == false"
#[test]
fn eq_false() {
    assert_eq!(compile_repl(script(bin(BinopTag::Eq, Expr::False, Expr::False))), JsValue::JsTrue)
}

// "true == true"
#[test]
fn eq_true() {
    assert_eq!(compile_repl(script(bin(BinopTag::Eq, Expr::True, Expr::True))), JsValue::JsTrue)
}

// "false === false"
#[test]
fn seq_false() {
    assert_eq!(
        compile_repl(script(bin(BinopTag::StrictEq, Expr::False, Expr::False))),
        JsValue::JsTrue
    )
}

// "1 == 1"
#[test]
fn num_eq() {
    assert_eq!(compile_repl(script(bin(BinopTag::Eq, n(1.0), n(1.0)))), JsValue::JsTrue)
}

// Declaring a variable and reading it back: "var k = 41 + 1; k"
#[test]
fn var_declaration_binds_value() {
    let body = vec![
        var_stmt("k", Some(bin(BinopTag::Plus, n(41.0), n(1.0)))),
        StmtListItem::Stmt(Stmt::Expr(id("k"))),
    ];
    assert_eq!(compile_repl(body), numv(42.0));
}

// A declarator without an initialiser binds Undefined: "var k; k"
#[test]
fn var_declaration_without_initialiser() {
    let body = vec![var_stmt("k", None), StmtListItem::Stmt(Stmt::Expr(id("k")))];
    assert_eq!(compile_repl(body), JsValue::JsUndefined);
}

// Reading a name never bound yields Undefined: "k"
#[test]
fn read_unbound_identifier() {
    assert_eq!(compile_repl(script(id("k"))), JsValue::JsUndefined);
}

// Assignment is an expression: "a = 5" leaves 5 on the stack.
#[test]
fn assignment_is_an_expression() {
    assert_eq!(compile_repl(script(assign(AssopTag::Eq, "a", n(5.0)))), numv(5.0));
}

// Compound assignment: "var k = 1; k += 2; k" leaves 3 bound and 3 pushed.
#[test]
fn compound_assignment_adds_to_binding() {
    let body = vec![
        var_stmt("k", Some(n(1.0))),
        StmtListItem::Stmt(Stmt::Expr(assign(AssopTag::PlusEq, "k", n(2.0)))),
    ];
    assert_eq!(compile_repl(body), numv(3.0));
    let body2 = vec![
        var_stmt("k", Some(n(1.0))),
        StmtListItem::Stmt(Stmt::Expr(assign(AssopTag::PlusEq, "k", n(2.0)))),
        StmtListItem::Stmt(Stmt::Expr(id("k"))),
    ];
    assert_eq!(compile_repl(body2), numv(3.0));
}

// The other compound assignments: "var k = 10; k -= 2" and friends.
#[test]
fn compound_assignment_variants() {
    for (op, expected) in [
        (AssopTag::MinusEq, 8.0),
        (AssopTag::TimesEq, 20.0),
        (AssopTag::DivEq, 5.0),
    ] {
        let body = vec![
            var_stmt("k", Some(n(10.0))),
            StmtListItem::Stmt(Stmt::Expr(assign(op, "k", n(2.0)))),
        ];
        assert_eq!(compile_repl(body), numv(expected));
    }
}

// A compound assignment of an unbound name operates on Undefined: "k += 2"
// concatenates nothing numeric and yields NaN.
#[test]
fn compound_assignment_of_unbound_name() {
    let body = vec![StmtListItem::Stmt(Stmt::Expr(assign(AssopTag::MinusEq, "k", n(2.0))))];
    assert_eq!(compile_repl(body), JsValue::JsNan);
}

// The environment outlives a run: bindings persist into the next script.
#[test]
fn scope_persists_across_runs() {
    let first = compile_or_panic(vec![var_stmt("a", Some(n(5.0)))]);
    let mut engine = VM::new(first, Scope::new_global());
    engine.run().unwrap();
    let scope = engine.scope;
    let second = compile_or_panic(script(bin(BinopTag::Plus, id("a"), n(1.0))));
    let mut engine2 = VM::new(second, scope);
    engine2.run().unwrap();
    assert_eq!(engine2.read_stack_end(), numv(6.0));
}

// An empty script compiles to an empty image and leaves an empty stack.
#[test]
fn empty_script_compiles_and_runs() {
    let image = compile_or_panic(vec![]);
    assert_eq!(image.script.instructions.len(), 0);
    let mut engine = VM::new(image, Scope::new_global());
    engine.run().unwrap();
    assert_eq!(engine.read_stack_end(), JsValue::JsUndefined);
}

// A declaration item compiles to nothing.
#[test]
fn declaration_emits_nothing() {
    let image = compile_or_panic(vec![StmtListItem::Decl(Decl::Fun("f".to_string()))]);
    assert_eq!(image.script.instructions.len(), 0);
}

// Compilation is deterministic: the same tree gives the same image twice.
#[test]
fn compilation_is_deterministic() {
    let make = || script(bin(BinopTag::Plus, s("a"), bin(BinopTag::Times, n(2.0), id("x"))));
    assert_eq!(compile_or_panic(make()), compile_or_panic(make()));
}

// Adding two numbers is commutative; adding strings keeps operand order.
#[test]
fn addition_commutes_on_numbers_not_on_strings() {
    let a = numv(2.5);
    let b = numv(3.25);
    assert_eq!(operations::add(&a, &b), operations::add(&b, &a));
    let t = JsValue::JsString("ab".to_owned());
    assert_eq!(operations::add(&t, &a), JsValue::JsString("ab2.5".to_owned()));
    assert_eq!(operations::add(&a, &t), JsValue::JsString("2.5ab".to_owned()));
}

// Loose and strict inequality are the negations of their equalities.
#[test]
fn inequalities_negate_equalities() {
    let pairs = [
        (numv(1.0), JsValue::JsString("1".to_owned())),
        (numv(1.0), numv(2.0)),
        (JsValue::JsNull, JsValue::JsUndefined),
        (JsValue::JsNan, JsValue::JsNan),
    ];
    for (a, b) in pairs {
        let e = operations::eq(&a, &b);
        let ne = operations::neq(&a, &b);
        assert_eq!(ne, flip_js_bool(e));
        let se = operations::strict_eq(&a, &b);
        let sne = operations::strict_neq(&a, &b);
        assert_eq!(sne, flip_js_bool(se));
    }
}

// Strict equality implies loose equality.
#[test]
fn strict_equal_values_are_loosely_equal() {
    let pairs = [
        (numv(3.0), numv(3.0)),
        (JsValue::JsString("x".to_owned()), JsValue::JsString("x".to_owned())),
        (JsValue::JsTrue, JsValue::JsTrue),
        (JsValue::JsNull, JsValue::JsNull),
    ];
    for (a, b) in pairs {
        assert_eq!(operations::strict_eq(&a, &b), JsValue::JsTrue);
        assert_eq!(operations::eq(&a, &b), JsValue::JsTrue);
    }
}

// The NaN tag equals itself loosely but not strictly.
#[test]
fn nan_tag_equality() {
    assert_eq!(operations::eq(&JsValue::JsNan, &JsValue::JsNan), JsValue::JsTrue);
    assert_eq!(operations::strict_eq(&JsValue::JsNan, &JsValue::JsNan), JsValue::JsFalse);
}

// Exactly one boolean side triggers the boolean rule; two booleans of
// different value are simply unequal.
#[test]
fn true_is_not_loosely_false() {
    assert_eq!(operations::eq(&JsValue::JsTrue, &JsValue::JsFalse), JsValue::JsFalse);
    assert_eq!(operations::eq(&JsValue::JsFalse, &JsValue::JsTrue), JsValue::JsFalse);
}

// A parseable string beside a boolean compares through its number: '1' is
// loosely true, '0' loosely false, and an unparseable string loosely true.
#[test]
fn boolean_against_strings() {
    let one = JsValue::JsString("1".to_owned());
    let zero = JsValue::JsString("0".to_owned());
    let word = JsValue::JsString("word".to_owned());
    assert_eq!(operations::eq(&JsValue::JsTrue, &one), JsValue::JsTrue);
    assert_eq!(operations::eq(&JsValue::JsFalse, &zero), JsValue::JsTrue);
    assert_eq!(operations::eq(&JsValue::JsTrue, &word), JsValue::JsTrue);
    assert_eq!(operations::eq(&JsValue::JsFalse, &word), JsValue::JsFalse);
}

// Division by zero follows IEEE-754: the result is still a number — an
// infinity, or for zero over zero the NaN double, not the NaN tag.
#[test]
fn division_by_zero_is_infinite() {
    assert_eq!(compile_repl(script(bin(BinopTag::Div, n(10.0), n(0.0)))), numv(f64::INFINITY));
    assert_eq!(compile_repl(script(bin(BinopTag::Div, n(0.0), n(0.0)))), numv(f64::NAN));
}

// An unsupported statement is a structured compile error, not a crash.
#[test]
fn unsupported_statement_is_refused() {
    let body = vec![StmtListItem::Stmt(Stmt::Unsupported)];
    assert_eq!(compile_to_image(body), Err(CompileError::UnsupportedStatement));
}

// An unsupported expression is refused.
#[test]
fn unsupported_expression_is_refused() {
    assert_eq!(
        compile_to_image(script(Expr::Unsupported)),
        Err(CompileError::UnsupportedExpression)
    );
}

// A complex assignment target is refused.
#[test]
fn unsupported_assign_target_is_refused() {
    let e = Expr::Assign(AssopTag::Eq, Patt::Unsupported, Box::new(n(1.0)));
    assert_eq!(compile_to_image(script(e)), Err(CompileError::UnsupportedAssignTarget));
}

// An unrecognised binary operator tag is refused.
#[test]
fn unsupported_binop_is_refused() {
    let e = bin(BinopTag::Unsupported, n(1.0), n(2.0));
    assert_eq!(compile_to_image(script(e)), Err(CompileError::UnsupportedBinop));
}

// An unrecognised assignment operator tag is refused.
#[test]
fn unsupported_assop_is_refused() {
    let e = assign(AssopTag::Unsupported, "a", n(1.0));
    assert_eq!(compile_to_image(script(e)), Err(CompileError::UnsupportedAssop));
}

// A destructuring declarator is refused.
#[test]
fn unsupported_declarator_is_refused() {
    let body = vec![StmtListItem::Stmt(Stmt::Var(vec![Dtor::Unsupported]))];
    assert_eq!(compile_to_image(body), Err(CompileError::UnsupportedDeclarator));
}

// The right operand is refused first: it is compiled before the left one.
#[test]
fn first_offending_construct_names_the_error() {
    let e = bin(BinopTag::Plus, Expr::Unsupported, bin(BinopTag::Unsupported, n(1.0), n(2.0)));
    assert_eq!(compile_to_image(script(e)), Err(CompileError::UnsupportedBinop));
}

// A hand-made image that pops an empty stack faults; the machine reports
// the underflow instead of crashing.
#[test]
fn stack_underflow_is_a_fault() {
    let mut image = Image::new();
    image.push_number("1".to_string());
    image.push_instruction(Instruction::ADD);
    let mut engine = VM::new(image, Scope::new_global());
    assert_eq!(engine.run(), Err(RuntimeFault::StackUnderflow));
    assert_eq!(engine.read_stack_end(), numv(1.0));
}

// The scope: reading before and after setting, and overwriting.
#[test]
fn scope_get_and_set() {
    let mut scope = Scope::new_global();
    assert_eq!(scope.get_var("a".to_string()), JsValue::JsUndefined);
    scope.set_var("a".to_string(), numv(1.0));
    scope.set_var("b".to_string(), JsValue::JsTrue);
    assert_eq!(scope.get_var("a".to_string()), numv(1.0));
    scope.set_var("a".to_string(), JsValue::JsFalse);
    assert_eq!(scope.get_var("a".to_string()), JsValue::JsFalse);
    assert_eq!(scope.get_var("b".to_string()), JsValue::JsTrue);
}

// The string projection of every tag.
#[test]
fn string_projection_of_values() {
    assert_eq!(js_value_to_string(&JsValue::JsNull), "null");
    assert_eq!(js_value_to_string(&JsValue::JsUndefined), "undefined");
    assert_eq!(js_value_to_string(&JsValue::JsNan), "NaN");
    assert_eq!(js_value_to_string(&numv(-0.0)), "-0");
    assert_eq!(js_value_to_string(&numv(11.0)), "11");
    assert_eq!(js_value_to_string(&JsValue::JsString("hey".to_owned())), "hey");
    assert_eq!(js_value_to_string(&JsValue::JsTrue), "true");
    assert_eq!(js_value_to_string(&JsValue::JsFalse), "false");
}

// The numeric reading of a value: parseable strings become numbers, the
// rest stay themselves.
#[test]
fn numeric_reading_of_values() {
    assert_eq!(try_js_value_to_js_number(&JsValue::JsString("2.5".to_owned())), numv(2.5));
    assert_eq!(
        try_js_value_to_js_number(&JsValue::JsString("x".to_owned())),
        JsValue::JsString("x".to_owned())
    );
    assert_eq!(try_js_value_to_js_number(&JsValue::JsTrue), JsValue::JsTrue);
}

// The boolean conversions.
#[test]
fn boolean_conversions() {
    assert_eq!(rust_to_js_boolean(true), JsValue::JsTrue);
    assert_eq!(rust_to_js_boolean(false), JsValue::JsFalse);
    assert_eq!(flip_js_bool(JsValue::JsTrue), JsValue::JsFalse);
    assert_eq!(flip_js_bool(JsValue::JsFalse), JsValue::JsTrue);
    assert_eq!(flip_js_bool(JsValue::JsNan), JsValue::JsTrue);
}

// The coloured rendering wraps the text of the value in the 24-bit
// foreground escape of its tag's colour and the reset escape.
#[test]
fn ret_value_fmt_wraps_in_colour_escapes() {
    assert_eq!(ret_value_fmt(&numv(3.0)), "\u{1b}[38;2;209;154;102m3\u{1b}[0m");
    assert_eq!(ret_value_fmt(&JsValue::JsNull), "\u{1b}[38;2;130;130;130mnull\u{1b}[0m");
    assert_eq!(
        ret_value_fmt(&JsValue::JsString("hi".to_owned())),
        "\u{1b}[38;2;152;195;121m\"hi\"\u{1b}[0m"
    );
    assert_eq!(ret_value_fmt(&JsValue::JsTrue), "\u{1b}[38;2;209;154;102mtrue\u{1b}[0m");
}

// Numbers round-trip through their decimal payloads: arithmetic on large
// and fractional values stays exact.
#[test]
fn decimal_payloads_round_trip() {
    assert_eq!(
        compile_repl(script(bin(BinopTag::Plus, n(0.1), n(0.2)))),
        numv(0.1_f64 + 0.2_f64)
    );
    let big = 1.0e300_f64;
    assert_eq!(compile_repl(script(bin(BinopTag::Times, n(big), n(big)))), numv(f64::INFINITY));
    assert_eq!(compile_repl(script(bin(BinopTag::Minus, n(-0.0), n(0.0)))), numv(-0.0));
}

// The four arithmetic seeds: "10 + 1", "10 - 1", "10 * 1", "10 / 1".
#[test]
fn seed_arithmetic_scenarios() {
    assert_eq!(compile_repl(script(bin(BinopTag::Plus, n(10.0), n(1.0)))), numv(11.0));
    assert_eq!(compile_repl(script(bin(BinopTag::Minus, n(10.0), n(1.0)))), numv(9.0));
    assert_eq!(compile_repl(script(bin(BinopTag::Times, n(10.0), n(1.0)))), numv(10.0));
    assert_eq!(compile_repl(script(bin(BinopTag::Div, n(10.0), n(1.0)))), numv(10.0));
}

// A lone string literal evaluates to itself: "\"hello, world\"".
#[test]
fn seed_string_scenario() {
    assert_eq!(
        compile_repl(script(s("hello, world"))),
        JsValue::JsString("hello, world".to_owned())
    );
}

// A script of several statements leaves one value per expression statement,
// in order, and nothing for its declarations.
#[test]
fn multi_statement_script_stacks_one_value_per_expression() {
    let body = vec![
        StmtListItem::Stmt(Stmt::Expr(bin(BinopTag::Plus, n(1.0), n(1.0)))),
        StmtListItem::Stmt(Stmt::Expr(s("x"))),
        var_stmt("a", Some(n(2.0))),
        StmtListItem::Stmt(Stmt::Expr(id("a"))),
    ];
    let image = compile_or_panic(body);
    let mut engine = VM::new(image, Scope::new_global());
    engine.run().unwrap();
    assert_eq!(engine.stack.len(), 3);
    assert_eq!(engine.stack[0], numv(2.0));
    assert_eq!(engine.stack[1], JsValue::JsString("x".to_owned()));
    assert_eq!(engine.read_stack_end(), numv(2.0));
}

// The raw stack interface: pushes stack, pops in reverse order.
#[test]
fn push_and_pop_stack() {
    let mut engine = VM::new(Image::new(), Scope::new_global());
    engine.push_stack(numv(1.0));
    engine.push_stack(JsValue::JsTrue);
    assert_eq!(engine.read_stack_end(), JsValue::JsTrue);
    assert_eq!(engine.pop_stack(), JsValue::JsTrue);
    assert_eq!(engine.pop_stack(), numv(1.0));
    assert_eq!(engine.read_stack_end(), JsValue::JsUndefined);
}

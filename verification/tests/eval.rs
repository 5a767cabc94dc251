use std::rc::Rc;

use pris::ast::{BinOpKind, Block, Document, FnDef, Idents, Num, Stmt, Term, Unit};
use pris::interpreter::{
    eval_block, eval_document, eval_expr, eval_statement, Env, EvalError, Val,
};

const FUEL: u32 = 100;

fn ident(name: &str) -> Term {
    Term::Idents(Idents(vec![name.to_string()]))
}

fn num(x: i64) -> Term {
    Term::Number(Num(x, None))
}

#[test]
fn unitless_literal_is_a_number() {
    let env = Env::new();
    match eval_expr(&env, &num(42), FUEL) {
        Ok(Val::Num(x)) => assert_eq!(x, 42),
        _ => panic!("expected a number"),
    }
}

#[test]
fn width_literal_scales_by_canvas_width() {
    let env = Env::new();
    match eval_expr(&env, &Term::Number(Num(2, Some(Unit::W))), FUEL) {
        Ok(Val::Len(x)) => assert_eq!(x, 2 * 1920),
        _ => panic!("expected a length"),
    }
}

#[test]
fn height_literal_scales_by_canvas_height() {
    let env = Env::new();
    match eval_expr(&env, &Term::Number(Num(3, Some(Unit::H))), FUEL) {
        Ok(Val::Len(x)) => assert_eq!(x, 3 * 1080),
        _ => panic!("expected a length"),
    }
}

#[test]
fn point_literal_is_absolute() {
    let env = Env::new();
    match eval_expr(&env, &Term::Number(Num(7, Some(Unit::Pt))), FUEL) {
        Ok(Val::Len(x)) => assert_eq!(x, 7),
        _ => panic!("expected a length"),
    }
}

#[test]
fn em_literal_uses_default_font_size() {
    let env = Env::new();
    match eval_expr(&env, &Term::Number(Num(2, Some(Unit::Em))), FUEL) {
        Ok(Val::Len(x)) => assert_eq!(x, 2 * 108),
        _ => panic!("expected a length"),
    }
}

#[test]
fn em_literal_follows_rebound_font_size() {
    let mut env = Env::new();
    let assign = Stmt::Assign("font_size".to_string(), Term::Number(Num(50, Some(Unit::Pt))));
    assert!(eval_statement(&mut env, &assign, FUEL).is_ok());
    match eval_expr(&env, &Term::Number(Num(2, Some(Unit::Em))), FUEL) {
        Ok(Val::Len(x)) => assert_eq!(x, 100),
        _ => panic!("expected a length"),
    }
}

#[test]
fn em_literal_rejects_number_font_size() {
    let mut env = Env::new();
    let assign = Stmt::Assign("font_size".to_string(), num(50));
    assert!(eval_statement(&mut env, &assign, FUEL).is_ok());
    match eval_expr(&env, &Term::Number(Num(2, Some(Unit::Em))), FUEL) {
        Err(EvalError::NotALen(name)) => assert_eq!(name, "font_size"),
        _ => panic!("expected a type error naming font_size"),
    }
}

#[test]
fn block_isolation_keeps_outer_binding() {
    let mut env = Env::new();
    let assign = Stmt::Assign("x".to_string(), num(1));
    assert!(eval_statement(&mut env, &assign, FUEL).is_ok());

    let block = Block(vec![
        Stmt::Assign("x".to_string(), num(2)),
        Stmt::Return(ident("x")),
    ]);
    match eval_expr(&env, &Term::Block(block), FUEL) {
        Ok(Val::Num(x)) => assert_eq!(x, 2),
        _ => panic!("expected the inner value"),
    }

    match env.lookup(&Idents(vec!["x".to_string()])) {
        Ok(Val::Num(x)) => assert_eq!(x, 1),
        _ => panic!("outer binding must be untouched"),
    }
}

#[test]
fn block_without_return_yields_scope() {
    let env = Env::new();
    let block = Block(vec![Stmt::Assign("y".to_string(), num(9))]);
    match eval_expr(&env, &Term::Block(block), FUEL) {
        Ok(Val::Scope(inner)) => match inner.lookup(&Idents(vec!["y".to_string()])) {
            Ok(Val::Num(x)) => assert_eq!(x, 9),
            _ => panic!("scope must hold the binding"),
        },
        _ => panic!("expected a scope value"),
    }
}

#[test]
fn path_lookup_chains_through_scopes() {
    let mut env = Env::new();
    let block = Block(vec![Stmt::Assign("b".to_string(), num(5))]);
    let assign = Stmt::Assign("a".to_string(), Term::Block(block));
    assert!(eval_statement(&mut env, &assign, FUEL).is_ok());
    match env.lookup(&Idents(vec!["a".to_string(), "b".to_string()])) {
        Ok(Val::Num(x)) => assert_eq!(x, 5),
        _ => panic!("expected the nested binding"),
    }
}

#[test]
fn undefined_identifier_is_named() {
    let env = Env::new();
    match eval_expr(&env, &ident("nope"), FUEL) {
        Err(EvalError::Undefined(name)) => assert_eq!(name, "nope"),
        _ => panic!("expected an undefined-identifier error"),
    }
}

#[test]
fn document_with_unbound_reference_fails() {
    let doc = Document(vec![Stmt::Assign(
        "a".to_string(),
        ident("missing"),
    )]);
    match eval_document(&doc, FUEL) {
        Err(EvalError::Undefined(name)) => assert_eq!(name, "missing"),
        _ => panic!("expected an undefined-identifier error"),
    }
}

#[test]
fn document_binds_in_order() {
    let doc = Document(vec![
        Stmt::Assign("a".to_string(), num(1)),
        Stmt::Assign("a".to_string(), num(2)),
        Stmt::Assign("b".to_string(), ident("a")),
    ]);
    let env = eval_document(&doc, FUEL).expect("document must evaluate");
    match env.lookup(&Idents(vec!["b".to_string()])) {
        Ok(Val::Num(x)) => assert_eq!(x, 2),
        _ => panic!("last write must win"),
    }
}

#[test]
fn return_at_top_level_is_an_error() {
    let mut env = Env::new();
    match eval_statement(&mut env, &Stmt::Return(num(1)), FUEL) {
        Err(EvalError::ReturnOutsideBlock) => {},
        _ => panic!("expected a return-misuse error"),
    }
}

#[test]
fn import_reports_unsupported() {
    let mut env = Env::new();
    match eval_statement(&mut env, &Stmt::Import("lib.pris".to_string()), FUEL) {
        Err(EvalError::ImportUnsupported(p)) => assert_eq!(p, "lib.pris"),
        _ => panic!("expected an import error"),
    }
}

#[test]
fn put_at_reports_unsupported() {
    let mut env = Env::new();
    let stmt = Stmt::PutAt(num(1), Term::Coord(Box::new(num(0)), Box::new(num(0))));
    match eval_statement(&mut env, &stmt, FUEL) {
        Err(EvalError::PutAtUnsupported) => {},
        _ => panic!("expected a placement error"),
    }
}

#[test]
fn block_statement_mutates_current_environment() {
    let mut env = Env::new();
    let stmt = Stmt::Block(Block(vec![Stmt::Assign("z".to_string(), num(4))]));
    assert!(eval_statement(&mut env, &stmt, FUEL).is_ok());
    match env.lookup(&Idents(vec!["z".to_string()])) {
        Ok(Val::Num(x)) => assert_eq!(x, 4),
        _ => panic!("block statement must write the current scope"),
    }
}

#[test]
fn coordinates_require_matching_kinds() {
    let env = Env::new();
    let good = Term::Coord(Box::new(num(1)), Box::new(num(2)));
    match eval_expr(&env, &good, FUEL) {
        Ok(Val::NumCoord(x, y)) => {
            assert_eq!(x, 1);
            assert_eq!(y, 2);
        },
        _ => panic!("expected a numeric coordinate"),
    }
    let bad = Term::Coord(
        Box::new(num(1)),
        Box::new(Term::Number(Num(2, Some(Unit::Pt)))),
    );
    match eval_expr(&env, &bad, FUEL) {
        Err(EvalError::CoordKindMismatch) => {},
        _ => panic!("expected a coordinate kind error"),
    }
}

#[test]
fn operators_respect_kinds() {
    let env = Env::new();
    let sum = Term::BinOp(BinOpKind::Add, Box::new(num(2)), Box::new(num(3)));
    match eval_expr(&env, &sum, FUEL) {
        Ok(Val::Num(x)) => assert_eq!(x, 5),
        _ => panic!("expected a number"),
    }
    let scaled = Term::BinOp(
        BinOpKind::Mul,
        Box::new(num(3)),
        Box::new(Term::Number(Num(4, Some(Unit::Pt)))),
    );
    match eval_expr(&env, &scaled, FUEL) {
        Ok(Val::Len(x)) => assert_eq!(x, 12),
        _ => panic!("expected a length"),
    }
    let mixed = Term::BinOp(
        BinOpKind::Add,
        Box::new(num(1)),
        Box::new(Term::Number(Num(1, Some(Unit::Pt)))),
    );
    match eval_expr(&env, &mixed, FUEL) {
        Err(EvalError::OperandMismatch) => {},
        _ => panic!("expected an operand error"),
    }
}

#[test]
fn addition_overflow_is_reported() {
    let env = Env::new();
    let sum = Term::BinOp(BinOpKind::Add, Box::new(num(i64::MAX)), Box::new(num(1)));
    match eval_expr(&env, &sum, FUEL) {
        Err(EvalError::Overflow) => {},
        _ => panic!("expected an overflow error"),
    }
}

#[test]
fn function_call_binds_parameters() {
    let mut env = Env::new();
    let def = FnDef {
        params: vec!["a".to_string()],
        body: Block(vec![Stmt::Return(ident("a"))]),
    };
    let assign = Stmt::Assign("f".to_string(), Term::FnDef(Rc::new(def)));
    assert!(eval_statement(&mut env, &assign, FUEL).is_ok());
    let call = Term::FnCall(Box::new(ident("f")), vec![num(5)]);
    match eval_expr(&env, &call, FUEL) {
        Ok(Val::Num(x)) => assert_eq!(x, 5),
        _ => panic!("expected the argument back"),
    }
    let bad = Term::FnCall(Box::new(ident("f")), vec![num(5), num(6)]);
    match eval_expr(&env, &bad, FUEL) {
        Err(EvalError::ArityMismatch) => {},
        _ => panic!("expected an arity error"),
    }
}

#[test]
fn function_captures_definition_environment() {
    let mut env = Env::new();
    assert!(eval_statement(&mut env, &Stmt::Assign("c".to_string(), num(10)), FUEL).is_ok());
    let def = FnDef {
        params: vec![],
        body: Block(vec![Stmt::Return(ident("c"))]),
    };
    assert!(
        eval_statement(&mut env, &Stmt::Assign("f".to_string(), Term::FnDef(Rc::new(def))), FUEL)
            .is_ok()
    );
    assert!(eval_statement(&mut env, &Stmt::Assign("c".to_string(), num(99)), FUEL).is_ok());
    let call = Term::FnCall(Box::new(ident("f")), vec![]);
    match eval_expr(&env, &call, FUEL) {
        Ok(Val::Num(x)) => assert_eq!(x, 10),
        _ => panic!("the captured environment must be the defining one"),
    }
}

#[test]
fn calling_a_number_fails() {
    let env = Env::new();
    let call = Term::FnCall(Box::new(num(1)), vec![]);
    match eval_expr(&env, &call, FUEL) {
        Err(EvalError::NotAFunc) => {},
        _ => panic!("expected a not-a-function error"),
    }
}

#[test]
fn exhausted_fuel_is_reported() {
    let env = Env::new();
    match eval_expr(&env, &num(1), 0) {
        Err(EvalError::RecursionLimit) => {},
        _ => panic!("expected a recursion limit error"),
    }
}

#[test]
fn lookup_num_and_len_check_kinds() {
    let mut env = Env::new();
    assert!(eval_statement(&mut env, &Stmt::Assign("n".to_string(), num(3)), FUEL).is_ok());
    assert_eq!(env.lookup_num(&Idents(vec!["n".to_string()])), Ok(3));
    match env.lookup_len(&Idents(vec!["n".to_string()])) {
        Err(EvalError::NotALen(name)) => assert_eq!(name, "n"),
        _ => panic!("expected a length type error"),
    }
    assert_eq!(env.lookup_len(&Idents(vec!["font_size".to_string()])), Ok(108));
    match env.lookup_num(&Idents(vec!["font_size".to_string()])) {
        Err(EvalError::NotANum(name)) => assert_eq!(name, "font_size"),
        _ => panic!("expected a number type error"),
    }
}

#[test]
fn string_term_strips_quotes() {
    let env = Env::new();
    let term = Term::Str("\"hello\"".to_string());
    match eval_expr(&env, &term, FUEL) {
        Ok(Val::Str(s)) => assert_eq!(s, "hello"),
        _ => panic!("expected a string"),
    }
}

#[test]
fn eval_block_leaves_given_environment_unread() {
    let env = Env::new();
    let block = Block(vec![
        Stmt::Assign("q".to_string(), num(1)),
        Stmt::Return(ident("q")),
    ]);
    match eval_block(&env, &block, FUEL) {
        Ok(Val::Num(x)) => assert_eq!(x, 1),
        _ => panic!("expected the returned value"),
    }
    match env.lookup(&Idents(vec!["q".to_string()])) {
        Err(EvalError::Undefined(_)) => {},
        _ => panic!("the block copy must not leak"),
    }
}

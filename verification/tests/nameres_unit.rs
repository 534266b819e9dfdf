//! Name resolution on hand-built syntax trees, statement by statement.

use meerkat_lib::runtime::ast::{ActionStmt, BinOp, Decl, Expr, Stmt, Value};
use meerkat_lib::runtime::nameres::{Error, Resolver};
use meerkat_lib::runtime::tt::Param;
use meerkat_lib::runtime::{Env, Symbol};

/// Hands out one symbol per distinct name.
struct Interner {
    names: Vec<String>,
}

impl Interner {
    fn new() -> Self {
        Interner { names: Vec::new() }
    }

    fn insert(&mut self, name: &str) -> Symbol {
        if let Some(i) = self.names.iter().position(|n| n == name) {
            return Symbol(i as u32);
        }
        self.names.push(name.to_string());
        Symbol((self.names.len() - 1) as u32)
    }
}

/// Verify that service-level hoisting allows out-of-order decls
#[test]
fn test_unit_service_hoisting_semantics() {
    let mut interner = Interner::new();
    let s = interner.insert("s");
    let x = interner.insert("x");
    let y = interner.insert("y");

    // def y = (x + 1);
    let decl_y = Decl::DefDecl {
        name: y,
        ty: None,
        val: Expr::Binop {
            op: BinOp::Add,
            expr1: Box::new(Expr::Variable { name: x }),
            expr2: Box::new(Expr::Literal {
                val: Value::Int { val: 1 },
            }),
        },
        is_pub: true,
    };

    // var x = 5;
    let decl_x = Decl::VarDecl {
        name: x,
        ty: None,
        val: Expr::Literal {
            val: Value::Int { val: 5 },
        },
    };

    let stmt = Stmt::Service {
        name: s,
        decls: vec![decl_y, decl_x],
    };

    let mut env = Env::new(None);
    let mut resolver = Resolver::new();
    assert!(resolver.resolve_stmt(&stmt, &mut env).is_ok());

    // Verify that the service is now bound in the parent scope
    assert!(env.find(s).is_some());
}

/// Verify sequential block scoping and declaration-before-use
#[test]
fn test_unit_sequential_lexical_scoping() {
    let mut interner = Interner::new();
    let s = interner.insert("s");
    let x = interner.insert("x");
    let local_x = interner.insert("x");

    // Service scope has x
    let decl_x = Decl::VarDecl {
        name: x,
        ty: None,
        val: Expr::Literal {
            val: Value::Int { val: 5 },
        },
    };

    // Action block:
    // do x;
    // let x = 10;
    // do x;
    let action_expr = Expr::Action(vec![
        ActionStmt::Expr(Expr::Variable { name: local_x }),
        ActionStmt::Let {
            name: local_x,
            ty: None,
            expr: Expr::Literal {
                val: Value::Int { val: 10 },
            },
        },
        ActionStmt::Expr(Expr::Variable { name: local_x }),
    ]);

    let decl_action = Decl::DefDecl {
        name: interner.insert("act"),
        ty: None,
        val: action_expr,
        is_pub: true,
    };

    let stmt = Stmt::Service {
        name: s,
        decls: vec![decl_x, decl_action],
    };

    let mut env = Env::new(None);
    let mut resolver = Resolver::new();
    assert!(resolver.resolve_stmt(&stmt, &mut env).is_ok());

    // Test sequential failure (no service variable x exists)
    // action { do x; let x = 10; }
    // The first 'do x' must fail because x is not yet declared
    let bad_action = Expr::Action(vec![
        ActionStmt::Expr(Expr::Variable { name: local_x }),
        ActionStmt::Let {
            name: local_x,
            ty: None,
            expr: Expr::Literal {
                val: Value::Int { val: 10 },
            },
        },
    ]);

    let bad_decl = Decl::DefDecl {
        name: interner.insert("act2"),
        ty: None,
        val: bad_action,
        is_pub: true,
    };

    let bad_stmt = Stmt::Service {
        name: s,
        decls: vec![bad_decl],
    };

    let mut bad_env = Env::new(None);
    let res = resolver.resolve_stmt(&bad_stmt, &mut bad_env);
    assert_eq!(res, Err(Error::UnboundVariable { name: local_x }));
}

/// Verify lexical isolation between sibling action blocks
#[test]
fn test_unit_scope_isolation_and_nesting() {
    let mut interner = Interner::new();
    let x = interner.insert("x");

    // Sibling blocks:
    // block1: action { let x = 5; }
    // block2: action { do x; }
    // block2 must fail because block1's let binding does not leak
    let block1 = ActionStmt::Expr(Expr::Action(vec![ActionStmt::Let {
        name: x,
        ty: None,
        expr: Expr::Literal {
            val: Value::Int { val: 5 },
        },
    }]));

    let block2 = ActionStmt::Expr(Expr::Action(vec![ActionStmt::Expr(Expr::Variable {
        name: x,
    })]));

    let decl = Decl::DefDecl {
        name: interner.insert("d"),
        ty: None,
        val: Expr::Action(vec![block1, block2]),
        is_pub: true,
    };

    let stmt = Stmt::Service {
        name: interner.insert("s"),
        decls: vec![decl],
    };

    let mut env = Env::new(None);
    let mut resolver = Resolver::new();
    let res = resolver.resolve_stmt(&stmt, &mut env);
    assert_eq!(res, Err(Error::UnboundVariable { name: x }));
}

/// Verify nested function parameter binding and scope capture
#[test]
fn test_unit_closure_variable_capture() {
    let mut interner = Interner::new();
    let a = interner.insert("a");
    let b = interner.insert("b");

    // fn a => fn b => (a + b)
    let body = Expr::Binop {
        op: BinOp::Add,
        expr1: Box::new(Expr::Variable { name: a }),
        expr2: Box::new(Expr::Variable { name: b }),
    };

    let inner_closure = Expr::Func {
        params: vec![Param { name: b, ty: None }],
        body: Box::new(body),
        return_ty: None,
    };

    let outer_closure = Expr::Func {
        params: vec![Param { name: a, ty: None }],
        body: Box::new(inner_closure),
        return_ty: None,
    };

    let env = Env::new(None);
    let mut resolver = Resolver::new();
    assert!(resolver.resolve_expr(&outer_closure, &env).is_ok());

    // Verify parameter escaping triggers error:
    // fn a => (fn b => b) + b
    // The last 'b' should fail as b has escaped its lexical closure
    let escaped_body = Expr::Binop {
        op: BinOp::Add,
        expr1: Box::new(Expr::Func {
            params: vec![Param { name: b, ty: None }],
            body: Box::new(Expr::Variable { name: b }),
            return_ty: None,
        }),
        expr2: Box::new(Expr::Variable { name: b }),
    };

    let escaped_closure = Expr::Func {
        params: vec![Param { name: a, ty: None }],
        body: Box::new(escaped_body),
        return_ty: None,
    };

    let res = resolver.resolve_expr(&escaped_closure, &env);
    assert_eq!(res, Err(Error::UnboundVariable { name: b }));
}

/// Verify scope depth limit increases and decreases correctly
#[test]
fn test_unit_depth_limit_tracking() {
    let env = Env::new(None);
    let mut resolver = Resolver::new();

    // 1. Sibling blocks do not accumulate depth
    // We create a tuple containing two sibling action chains,
    // each nested 100 levels deep.
    // If depth was not decremented on exit, this would cross 128.
    let mut nested_a = Expr::Literal {
        val: Value::Int { val: 0 },
    };
    let mut nested_b = Expr::Literal {
        val: Value::Int { val: 0 },
    };
    for _ in 0..100 {
        nested_a = Expr::Action(vec![ActionStmt::Expr(nested_a)]);
        nested_b = Expr::Action(vec![ActionStmt::Expr(nested_b)]);
    }

    let sibling_tuple = Expr::Tuple {
        val: vec![nested_a, nested_b],
    };

    assert!(resolver.resolve_expr(&sibling_tuple, &env).is_ok());
    assert_eq!(resolver.depth(), 0);

    // 2. Nested block exceeding 128 depth triggers limit
    let mut deep_expr = Expr::Literal {
        val: Value::Int { val: 0 },
    };
    for _ in 0..130 {
        deep_expr = Expr::Action(vec![ActionStmt::Expr(deep_expr)]);
    }

    assert_eq!(
        resolver.resolve_expr(&deep_expr, &env),
        Err(Error::DepthLimit)
    );
}

/// Verify update statement declarations hoist internally
#[test]
fn test_unit_update_block_scope_resolution() {
    let mut interner = Interner::new();
    let s = interner.insert("s");
    let x = interner.insert("x");
    let y = interner.insert("y");

    let s_stmt = Stmt::Service {
        name: s,
        decls: vec![],
    };

    // update s { def y = x; var x = 5; }
    // x must hoist within the update block
    let update_stmt = Stmt::Update {
        service_name: s,
        decls: vec![
            Decl::DefDecl {
                name: y,
                ty: None,
                val: Expr::Variable { name: x },
                is_pub: false,
            },
            Decl::VarDecl {
                name: x,
                ty: None,
                val: Expr::Literal {
                    val: Value::Int { val: 5 },
                },
            },
        ],
    };

    let mut env = Env::new(None);
    let mut resolver = Resolver::new();
    assert!(resolver.resolve_stmt(&s_stmt, &mut env).is_ok());
    assert!(resolver.resolve_stmt(&update_stmt, &mut env).is_ok());
}

/// Verify that resolver depth state is recovered on early errors
#[test]
fn test_unit_depth_limit_recovery_on_error() {
    let mut interner = Interner::new();
    let z = interner.insert("z");
    let env = Env::new(None);
    let mut resolver = Resolver::new();

    // A nested action block containing an unbound variable 'z'
    // nested 5 levels deep
    let mut bad_expr = Expr::Variable { name: z };
    for _ in 0..5 {
        bad_expr = Expr::Action(vec![ActionStmt::Expr(bad_expr)]);
    }

    // Resolving should fail because z is unbound
    let res = resolver.resolve_expr(&bad_expr, &env);
    assert_eq!(res, Err(Error::UnboundVariable { name: z }));

    // Ensure that the depth was unwound and returned to 0
    assert_eq!(resolver.depth(), 0);
}

// The compiler pipeline: tokenizing, parsing, SSA lowering, analysis and
// code generation over source text of the supported subset.

use akari_ad::codegen::AdCodeGen;
use akari_ad::error::{CompileError, Construct};
use akari_ad::ir::{Expr, Var};
use akari_ad::parse::parse_str;

#[test]
fn test_parse_simple() {
    let f = parse_str("fn f(x: f32) -> f32 {\n    let x = x+1.0;\n    let x = x * x;\n    x\n}\n")
        .unwrap();
    assert_eq!(f.parameters.len(), 1);
    // parameter x is version 0; the two lets rebind it as versions 1 and 2
    match &f.parameters[0].name {
        Var::Named(p, g) => {
            assert_eq!(p.0[0], "x");
            assert_eq!(*g, 0);
        }
        _ => panic!("parameter should be named"),
    }
    // bindings: t0 (literal 1.0), t1 (x0 + t0), x1, t2 (x1 * x1), x2
    assert_eq!(f.body.bindings.len(), 5);
    match &f.body.bindings[0].var {
        Var::Id(i) => assert_eq!(*i, 0),
        _ => panic!("first binding should be a temporary"),
    }
    match &f.body.bindings[2].var {
        Var::Named(p, g) => {
            assert_eq!(p.0[0], "x");
            assert_eq!(*g, 1);
        }
        _ => panic!("third binding should be the rebound name"),
    }
    match &f.body.bindings[4].var {
        Var::Named(p, g) => {
            assert_eq!(p.0[0], "x");
            assert_eq!(*g, 2);
        }
        _ => panic!("fifth binding should be the second rebinding"),
    }
    assert!(f.body.ret.is_some());
}

// No two bindings in lowered IR share a variable identifier.
#[test]
fn test_ssa_unique_vars() {
    let src = "fn g(x: f32) -> f32 { let y = x * x; let y = y + x; if x > 1.0 { y } else { let z = y * 2.0; z } }";
    let f = parse_str(src).unwrap();
    let mut seen: Vec<String> = Vec::new();
    collect(&f.body, &mut seen);
    let n = seen.len();
    for i in 0..n {
        for j in 0..i {
            assert_ne!(seen[i], seen[j], "duplicate SSA variable");
        }
    }
}

fn collect(b: &akari_ad::ir::Block, out: &mut Vec<String>) {
    for l in &b.bindings {
        out.push(format!("{:?}", l.var));
        if let Expr::IfThenElse { then, else_, .. } = &l.val {
            collect(then, out);
            collect(else_, out);
        }
    }
}

#[test]
fn test_undefined_variable() {
    let r = parse_str("fn f(x: f32) -> f32 { y }");
    assert!(matches!(r, Err(CompileError::UndefinedVariable(_))));
}

#[test]
fn test_mutable_binding_rejected() {
    let r = parse_str("fn f(x: f32) -> f32 { let mut y = x; y }");
    assert!(matches!(
        r,
        Err(CompileError::UnsupportedConstruct(Construct::Mutability))
    ));
}

#[test]
fn test_missing_else_rejected() {
    let r = parse_str("fn f(x: f32) -> f32 { if x > 1.0 { x } }");
    assert!(matches!(
        r,
        Err(CompileError::UnsupportedConstruct(Construct::MissingElse))
    ));
}

#[test]
fn test_missing_return_type_rejected() {
    let r = parse_str("fn f(x: f32) { x }");
    assert!(matches!(
        r,
        Err(CompileError::UnsupportedConstruct(Construct::MissingReturnType))
    ));
}

#[test]
fn test_xor_operator_rejected() {
    let r = parse_str("fn f(x: i32) -> i32 { x ^ x }");
    assert!(matches!(
        r,
        Err(CompileError::UnsupportedConstruct(Construct::Operator))
    ));
}

#[test]
fn test_generics_rejected() {
    let r = parse_str("fn f(x: f32) -> f32 { g::<f32>(x) }");
    assert!(matches!(
        r,
        Err(CompileError::UnsupportedConstruct(Construct::Generics))
    ));
}

#[test]
fn test_block_fallthrough_rejected() {
    let r = parse_str("fn f(x: f32) -> f32 { let y = x; }");
    assert!(matches!(
        r,
        Err(CompileError::UnsupportedConstruct(Construct::BlockFallthrough))
    ));
}

#[test]
fn test_syntax_error() {
    let r = parse_str("fn f(x: f32) -> f32 { x @ }");
    assert!(matches!(r, Err(CompileError::SyntaxError(_))));
}

#[test]
fn test_gen_var_names() {
    let cg = AdCodeGen::new();
    assert_eq!(cg.gen_var(&Var::Id(17)), "t17");
    let p = akari_ad::ir::Path(vec![String::from("velocity")]);
    assert_eq!(cg.gen_var(&Var::Named(p, 3)), "_velocity3");
}

#[test]
fn test_gen_expr_primitive() {
    let cg = AdCodeGen::new();
    let e = Expr::Call(
        akari_ad::ir::Func::PrimFunc(akari_ad::ir::PrimFunc::Add),
        vec![Var::Id(0), Var::Id(1)],
    );
    assert_eq!(cg.gen_expr(&e).unwrap(), "*t0.get() + *t1.get()");
}

#[test]
fn test_gen_expr_unsupported_tag() {
    let cg = AdCodeGen::new();
    let e = Expr::Call(
        akari_ad::ir::Func::PrimFunc(akari_ad::ir::PrimFunc::Load),
        vec![Var::Id(0)],
    );
    assert!(matches!(
        cg.gen_expr(&e),
        Err(CompileError::UnsupportedLowering(_))
    ));
}

// Identical source text compiles to syntactically identical output.
#[test]
fn test_compile_deterministic() {
    let src = "fn f(x: f32) -> f32 { let y = x * x; if x > 1.0 { y } else { x } }";
    let out1 = akari_ad::codegen::compile_str(src).unwrap();
    let out2 = akari_ad::codegen::compile_str(src).unwrap();
    assert_eq!(out1, out2);
}

#[test]
fn test_compile_shape() {
    let src = "fn f(x: f32) -> f32 {\n    let x = x+1.0;\n    let x = x * x;\n    x\n}\n";
    let out = akari_ad::codegen::compile_str(src).unwrap();
    assert!(out.starts_with(
        "pub fn f_ad(ctx:&mut akari_ad::runtime::AdContext, _x0: akari_ad::runtime::Dual<f32>) -> (akari_ad::runtime::Dual<f32>, impl Fn(), impl Fn()) {"
    ));
    assert!(out.contains("let t0: Dual<_> = Dual::zero(ctx);"));
    assert!(out.contains("let reset_grad = move || { unsafe {"));
    assert!(out.contains("t0.reset_grad();"));
    assert!(out.contains("t1.assign(*_x0.get() + *t0.get());"));
    assert!(out.contains("_x1.assign(t1);"));
    assert!(out.contains("(ret, reset_grad, back_propagator)} }"));
}

#[test]
fn test_compile_conditional_shape() {
    let src = "fn g(x: f32) -> f32 { if x > 1.0 { x * x } else { x } }";
    let out = akari_ad::codegen::compile_str(src).unwrap();
    assert!(out.contains("if *t1.get() "));
    assert!(out.contains("*_x0.get() > *t0.get()"));
}

#[test]
fn test_tokenizer_comments_and_floats() {
    let f = parse_str("// a comment\nfn h(a: f32) -> f32 {\n  a * 2.5 // twice and a half\n}\n")
        .unwrap();
    let mut found = false;
    for l in &f.body.bindings {
        if let Expr::Atom(akari_ad::ir::Atom::Literal(s, p)) = &l.val {
            assert_eq!(s, "2.5");
            assert!(matches!(p, akari_ad::ir::Primitive::F32));
            found = true;
        }
    }
    assert!(found);
}

#[test]
fn test_vec_lib_text() {
    let out = akari_ad::cpp_runtime::generate_vec_lib_(String::from("f32"), 2, 8);
    assert!(out.starts_with("struct alignas(8) f32x2 { f32 a[2];\nusing Self=f32x2;"));
    assert!(out.contains("Self operator + (const Self&rhs)const{"));
    assert!(out.contains("Self operator / (const Self&rhs)const{"));
    assert!(out.ends_with("};\n"));
    let lib = akari_ad::cpp_runtime::generate_vec_lib();
    assert!(lib.contains("f32x3"));
    assert!(lib.contains("f32x4"));
    let rt = akari_ad::cpp_runtime::generate_runtime_lib();
    assert!(rt.starts_with("template<class T>const T& read(const void* p){"));
}

#[test]
fn test_else_if_chain() {
    let src = "fn f(x: f32) -> f32 { if x > 2.0 { x * x } else if x > 1.0 { x + x } else { x } }";
    let f = parse_str(src).unwrap();
    // the outer conditional's else arm holds the inner conditional
    let mut found_nested = false;
    for l in &f.body.bindings {
        if let Expr::IfThenElse { else_, .. } = &l.val {
            for inner in &else_.bindings {
                if matches!(inner.val, Expr::IfThenElse { .. }) {
                    found_nested = true;
                }
            }
        }
    }
    assert!(found_nested);
}

#[test]
fn test_method_call_lowering() {
    // the receiver is lowered after the arguments and becomes the first operand
    let f = parse_str("fn f(x: f32) -> f32 { x.min(1.0) }").unwrap();
    let mut found = false;
    for l in &f.body.bindings {
        if let Expr::Call(akari_ad::ir::Func::Named(p), args) = &l.val {
            assert_eq!(p.0[0], "min");
            assert_eq!(args.len(), 2);
            found = true;
        }
    }
    assert!(found);
}

#[test]
fn test_field_access_lowers_to_extract() {
    let f = parse_str("fn f(v: vec3) -> f32 { v.x }").unwrap();
    let mut found = false;
    for l in &f.body.bindings {
        if let Expr::Call(akari_ad::ir::Func::PrimFunc(pf), _) = &l.val {
            assert!(matches!(pf, akari_ad::ir::PrimFunc::Extract));
            found = true;
        }
    }
    assert!(found);
    // the generator has no translation for the extract form
    let r = akari_ad::codegen::compile_str("fn f(v: vec3) -> f32 { v.x }");
    assert!(matches!(r, Err(CompileError::UnsupportedLowering(_))));
}

#[test]
fn test_rem_and_shift_operators() {
    let out = akari_ad::codegen::compile_str("fn f(a: i32, b: i32) -> i32 { a % b }").unwrap();
    assert!(out.contains("*_a0.get() % *_b0.get()"));
    let out2 = akari_ad::codegen::compile_str("fn f(a: i32, b: i32) -> i32 { a << b }").unwrap();
    assert!(out2.contains("*_a0.get() << *_b0.get()"));
}

#[test]
fn test_global_path_reference() {
    // a multi-segment free identifier becomes a constant-flagged atom
    let f = parse_str("fn f(x: f32) -> f32 { x * math::PI }").unwrap();
    let mut found = false;
    for l in &f.body.bindings {
        if let Expr::Atom(akari_ad::ir::Atom::Identifier { path, constant }) = &l.val {
            assert_eq!(path.0.len(), 2);
            assert!(*constant);
            found = true;
        }
    }
    assert!(found);
}

#[test]
fn test_token_methods() {
    let t = akari_ad::lex::Token::Identifier {
        value: String::from("speed"),
        loc: akari_ad::lex::SourceLocation { line: 3, col: 7 },
    };
    assert!(!t.is_eof());
    assert_eq!(t.str(), "speed");
    assert_eq!(t.as_identifier().unwrap(), "speed");
    assert_eq!(t.loc().line, 3);
    let e = akari_ad::lex::Token::EOF { loc: akari_ad::lex::SourceLocation { line: 9, col: 0 } };
    assert!(e.is_eof());
    assert_eq!(e.str(), "");
    assert!(e.as_identifier().is_none());
}

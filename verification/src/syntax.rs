//! The parser of the supported subset: recursive descent over the token
//! sequence, building the surface syntax tree. Precedence follows the host
//! language: disjunction, conjunction, comparison, then bit-or, bit-xor,
//! bit-and, shifts, additive, multiplicative, unary, postfix, primary.

use vstd::prelude::*;
use crate::ast::{AstBlock, AstBlockV, AstExpr, AstExprV, AstFn, AstFnV, AstParam, AstParamV, AstStmt, AstStmtV, BinOp, PathAst, PathAstV, UnOp};
use crate::error::{CompileError, CompileErrorV, Construct};
use crate::lex::{token_loc, token_text, SourceLocation, Token, TokenV};

verus! {

broadcast use vstd::seq::axiom_seq_index_decreases, vstd::std_specs::vec::axiom_vec_index_decreases;

/// The location of token `i`, for error reports.
pub open spec fn sp_tok_loc(t: Seq<TokenV>, i: int) -> SourceLocation {
    if 0 <= i < t.len() {
        token_loc(t[i])
    } else {
        SourceLocation { line: 0, col: 0 }
    }
}

/// Unparseable input at token `i`.
pub open spec fn sp_perr(t: Seq<TokenV>, i: int) -> CompileErrorV {
    CompileErrorV::SyntaxError(sp_tok_loc(t, i))
}

/// Whether token `i` is the symbol `w`.
pub open spec fn sp_at_sym(t: Seq<TokenV>, i: int, w: Seq<char>) -> bool {
    0 <= i < t.len() && t[i] is Symbol && token_text(t[i]) == w
}

/// Whether token `i` is the keyword `w`.
pub open spec fn sp_at_kw(t: Seq<TokenV>, i: int, w: Seq<char>) -> bool {
    0 <= i < t.len() && t[i] is Keyword && token_text(t[i]) == w
}

/// The binary operator of token `i` at precedence level `lvl`, if any.
/// Level 0 binds loosest (disjunction); level 8 tightest (multiplicative).
pub open spec fn sp_bin_op_at(t: Seq<TokenV>, i: int, lvl: int) -> Option<BinOp> {
    if lvl == 0 && sp_at_sym(t, i, "||"@) {
        Option::Some(BinOp::Or)
    } else if lvl == 1 && sp_at_sym(t, i, "&&"@) {
        Option::Some(BinOp::And)
    } else if lvl == 2 && sp_at_sym(t, i, "=="@) {
        Option::Some(BinOp::Eq)
    } else if lvl == 2 && sp_at_sym(t, i, "!="@) {
        Option::Some(BinOp::Ne)
    } else if lvl == 2 && sp_at_sym(t, i, "<"@) {
        Option::Some(BinOp::Lt)
    } else if lvl == 2 && sp_at_sym(t, i, ">"@) {
        Option::Some(BinOp::Gt)
    } else if lvl == 2 && sp_at_sym(t, i, "<="@) {
        Option::Some(BinOp::Le)
    } else if lvl == 2 && sp_at_sym(t, i, ">="@) {
        Option::Some(BinOp::Ge)
    } else if lvl == 3 && sp_at_sym(t, i, "|"@) {
        Option::Some(BinOp::BitOr)
    } else if lvl == 4 && sp_at_sym(t, i, "^"@) {
        Option::Some(BinOp::BitXor)
    } else if lvl == 5 && sp_at_sym(t, i, "&"@) {
        Option::Some(BinOp::BitAnd)
    } else if lvl == 6 && sp_at_sym(t, i, "<<"@) {
        Option::Some(BinOp::Shl)
    } else if lvl == 6 && sp_at_sym(t, i, ">>"@) {
        Option::Some(BinOp::Shr)
    } else if lvl == 7 && sp_at_sym(t, i, "+"@) {
        Option::Some(BinOp::Add)
    } else if lvl == 7 && sp_at_sym(t, i, "-"@) {
        Option::Some(BinOp::Sub)
    } else if lvl == 8 && sp_at_sym(t, i, "*"@) {
        Option::Some(BinOp::Mul)
    } else if lvl == 8 && sp_at_sym(t, i, "/"@) {
        Option::Some(BinOp::Div)
    } else if lvl == 8 && sp_at_sym(t, i, "%"@) {
        Option::Some(BinOp::Rem)
    } else {
        Option::None
    }
}

/// Whether token `i` is a compound-assignment symbol.
pub open spec fn sp_at_op_assign(t: Seq<TokenV>, i: int) -> bool {
    sp_at_sym(t, i, "+="@) || sp_at_sym(t, i, "-="@) || sp_at_sym(t, i, "*="@) || sp_at_sym(
        t,
        i,
        "/="@,
    ) || sp_at_sym(t, i, "%="@) || sp_at_sym(t, i, "^="@) || sp_at_sym(t, i, "&="@) || sp_at_sym(
        t,
        i,
        "|="@,
    )
}

/// Skips the tokens of a generic-argument list; `depth` open angle brackets
/// are pending.
pub open spec fn sp_skip_gen(t: Seq<TokenV>, i: int, depth: int) -> Result<int, CompileErrorV>
    decreases t.len() - i,
{
    if depth <= 0 {
        Ok(i)
    } else if i < 0 || i >= t.len() || t[i] is EOF {
        Err(sp_perr(t, i))
    } else if sp_at_sym(t, i, "<"@) {
        sp_skip_gen(t, i + 1, depth + 1)
    } else if sp_at_sym(t, i, ">"@) {
        sp_skip_gen(t, i + 1, depth - 1)
    } else if sp_at_sym(t, i, ">>"@) {
        if depth >= 2 {
            sp_skip_gen(t, i + 1, depth - 2)
        } else {
            Err(sp_perr(t, i))
        }
    } else {
        sp_skip_gen(t, i + 1, depth)
    }
}

/// The segments after the first, with `::` separators; a turbofish marks
/// the path generic and its argument tokens are skipped.
pub open spec fn sp_parse_path_rest(
    t: Seq<TokenV>,
    i: int,
    segs: Seq<Seq<char>>,
    generics: bool,
) -> Result<(PathAstV, int), CompileErrorV>
    decreases t.len() - i, 8int,
{
    if sp_at_sym(t, i, "::"@) {
        if i + 1 < t.len() && t[i + 1] is Identifier {
            sp_parse_path_rest(t, i + 2, segs.push(token_text(t[i + 1])), generics)
        } else if i + 1 < t.len() && sp_at_sym(t, i + 1, "<"@) {
            match sp_skip_gen(t, i + 2, 1) {
                Err(e) => Err(e),
                Ok(m) => if m <= i + 1 || m > t.len() {
                    Err(sp_perr(t, i))
                } else {
                    sp_parse_path_rest(t, m, segs, true)
                },
            }
        } else {
            Err(sp_perr(t, i + 1))
        }
    } else {
        Ok((PathAstV { segments: segs, generics }, i))
    }
}

/// A path: an identifier, then `::`-joined further segments.
pub open spec fn sp_parse_path(t: Seq<TokenV>, i: int) -> Result<(PathAstV, int), CompileErrorV> {
    if 0 <= i < t.len() && t[i] is Identifier {
        sp_parse_path_rest(t, i + 1, seq![token_text(t[i])], false)
    } else {
        Err(sp_perr(t, i))
    }
}

/// A declared type: a path, optionally with generic arguments, which are
/// skipped and only noted.
pub open spec fn sp_parse_ty(t: Seq<TokenV>, i: int) -> Result<(PathAstV, int), CompileErrorV> {
    match sp_parse_path(t, i) {
        Err(e) => Err(e),
        Ok((p, j)) => if sp_at_sym(t, j, "<"@) {
            match sp_skip_gen(t, j + 1, 1) {
                Err(e) => Err(e),
                Ok(m) => Ok((PathAstV { segments: p.segments, generics: true }, m)),
            }
        } else {
            Ok((p, j))
        },
    }
}


/// A primary expression: a literal, a parenthesized expression, a
/// conditional (both branches required), a block, or a path that may be a
/// call target.
pub open spec fn sp_parse_primary(t: Seq<TokenV>, i: int) -> Result<(AstExprV, int), CompileErrorV>
    decreases t.len() - i, 10int,
{
    if i < 0 || i >= t.len() {
        Err(sp_perr(t, i))
    } else {
        match t[i] {
            TokenV::Number { value, is_float, .. } => Ok(
                (AstExprV::Lit { digits: value, is_float }, i + 1),
            ),
            TokenV::String { value, .. } => Ok((AstExprV::StrLit(value), i + 1)),
            TokenV::Keyword { value, .. } => if value == "true"@ {
                Ok((AstExprV::BoolLit(true), i + 1))
            } else if value == "false"@ {
                Ok((AstExprV::BoolLit(false), i + 1))
            } else if value == "if"@ {
                match sp_parse_bin(t, i + 1, 0) {
                    Err(e) => Err(e),
                    Ok((cond, j)) => if j <= i + 1 || j > t.len() {
                        Err(sp_perr(t, i))
                    } else {
                        match sp_parse_block_syn(t, j) {
                            Err(e) => Err(e),
                            Ok((then_blk, k)) => if k <= j || k > t.len() {
                                Err(sp_perr(t, j))
                            } else if !sp_at_kw(t, k, "else"@) {
                                Err(CompileErrorV::UnsupportedConstruct(Construct::MissingElse))
                            } else if k + 1 < t.len() && (sp_at_kw(t, k + 1, "if"@) || sp_at_sym(
                                t,
                                k + 1,
                                "{"@,
                            )) {
                                match sp_parse_primary(t, k + 1) {
                                    Err(e) => Err(e),
                                    Ok((els, m)) => Ok(
                                        (
                                            AstExprV::IfElse {
                                                cond: Box::new(cond),
                                                then_branch: then_blk,
                                                else_branch: Box::new(els),
                                            },
                                            m,
                                        ),
                                    ),
                                }
                            } else {
                                Err(CompileErrorV::UnsupportedConstruct(Construct::MissingElse))
                            },
                        }
                    },
                }
            } else {
                Err(sp_perr(t, i))
            },
            TokenV::Symbol { value, .. } => if value == "("@ {
                match sp_parse_bin(t, i + 1, 0) {
                    Err(e) => Err(e),
                    Ok((e1, j)) => if sp_at_sym(t, j, ")"@) {
                        Ok((e1, j + 1))
                    } else {
                        Err(sp_perr(t, j))
                    },
                }
            } else if value == "{"@ {
                match sp_parse_block_syn(t, i) {
                    Err(e) => Err(e),
                    Ok((blk, j)) => Ok((AstExprV::BlockExpr(blk), j)),
                }
            } else {
                Err(sp_perr(t, i))
            },
            TokenV::Identifier { .. } => match sp_parse_path(t, i) {
                Err(e) => Err(e),
                Ok((p, j)) => if j <= i || j > t.len() {
                    Err(sp_perr(t, i))
                } else if sp_at_sym(t, j, "("@) {
                    match sp_parse_call_args(t, j + 1) {
                        Err(e) => Err(e),
                        Ok((args, k)) => Ok((AstExprV::CallExpr { callee: p, args }, k)),
                    }
                } else {
                    Ok((AstExprV::Ident(p), j))
                },
            },
            TokenV::EOF { .. } => Err(sp_perr(t, i)),
        }
    }
}

/// The comma-separated arguments of a call, up to and including the
/// closing parenthesis.
pub open spec fn sp_parse_call_args(t: Seq<TokenV>, i: int) -> Result<
    (Seq<AstExprV>, int),
    CompileErrorV,
>
    decreases t.len() - i, 40int,
{
    if sp_at_sym(t, i, ")"@) {
        Ok((Seq::empty(), i + 1))
    } else {
        match sp_parse_bin(t, i, 0) {
            Err(e) => Err(e),
            Ok((e1, j)) => if j <= i || j > t.len() {
                Err(sp_perr(t, i))
            } else if sp_at_sym(t, j, ","@) {
                match sp_parse_call_args(t, j + 1) {
                    Err(e) => Err(e),
                    Ok((rest, k)) => Ok((seq![e1] + rest, k)),
                }
            } else if sp_at_sym(t, j, ")"@) {
                Ok((seq![e1], j + 1))
            } else {
                Err(sp_perr(t, j))
            },
        }
    }
}

/// Postfix forms after a primary expression: field access and method calls.
pub open spec fn sp_parse_postfix(t: Seq<TokenV>, i: int, e: AstExprV) -> Result<
    (AstExprV, int),
    CompileErrorV,
>
    decreases t.len() - i, 30int,
{
    if sp_at_sym(t, i, "."@) {
        if i + 1 < t.len() && t[i + 1] is Identifier {
            let name = token_text(t[i + 1]);
            if sp_at_sym(t, i + 2, "("@) {
                match sp_parse_call_args(t, i + 3) {
                    Err(e1) => Err(e1),
                    Ok((args, k)) => if k <= i + 2 || k > t.len() {
                        Err(sp_perr(t, i))
                    } else {
                        sp_parse_postfix(
                            t,
                            k,
                            AstExprV::MethodCall { receiver: Box::new(e), method: name, args },
                        )
                    },
                }
            } else {
                sp_parse_postfix(
                    t,
                    i + 2,
                    AstExprV::Field { base: Box::new(e), member: name },
                )
            }
        } else {
            Err(sp_perr(t, i + 1))
        }
    } else {
        Ok((e, i))
    }
}

/// A unary expression: negation, logical not, or a postfix expression.
pub open spec fn sp_parse_unary(t: Seq<TokenV>, i: int) -> Result<(AstExprV, int), CompileErrorV>
    decreases t.len() - i, 11int,
{
    if sp_at_sym(t, i, "-"@) {
        match sp_parse_unary(t, i + 1) {
            Err(e) => Err(e),
            Ok((e1, j)) => Ok((AstExprV::Unary { op: UnOp::Neg, expr: Box::new(e1) }, j)),
        }
    } else if sp_at_sym(t, i, "!"@) {
        match sp_parse_unary(t, i + 1) {
            Err(e) => Err(e),
            Ok((e1, j)) => Ok((AstExprV::Unary { op: UnOp::Not, expr: Box::new(e1) }, j)),
        }
    } else {
        match sp_parse_primary(t, i) {
            Err(e) => Err(e),
            Ok((e1, j)) => if j <= i || j > t.len() {
                Err(sp_perr(t, i))
            } else {
                sp_parse_postfix(t, j, e1)
            },
        }
    }
}

/// The second termination measure of `sp_parse_bin`: deeper levels are
/// smaller, and every level sits above the unary tier.
pub open spec fn bin_level_measure(lvl: int) -> int {
    if 0 <= lvl && lvl <= 9 {
        24 - lvl
    } else {
        24
    }
}

/// A left-associative binary expression at precedence level `lvl`.
pub open spec fn sp_parse_bin(t: Seq<TokenV>, i: int, lvl: int) -> Result<
    (AstExprV, int),
    CompileErrorV,
>
    decreases t.len() - i, bin_level_measure(lvl),
{
    if lvl >= 9 || lvl < 0 {
        sp_parse_unary(t, i)
    } else {
        match sp_parse_bin(t, i, lvl + 1) {
            Err(e) => Err(e),
            Ok((e1, j)) => if j <= i || j > t.len() {
                Err(sp_perr(t, i))
            } else {
                sp_parse_bin_rest(t, j, lvl, e1)
            },
        }
    }
}

/// Further operands at the same precedence level, folded to the left.
pub open spec fn sp_parse_bin_rest(t: Seq<TokenV>, i: int, lvl: int, e: AstExprV) -> Result<
    (AstExprV, int),
    CompileErrorV,
>
    decreases t.len() - i, 25int,
{
    match sp_bin_op_at(t, i, lvl) {
        Option::None => Ok((e, i)),
        Option::Some(op) => match sp_parse_bin(t, i + 1, lvl + 1) {
            Err(e1) => Err(e1),
            Ok((rhs, j)) => if j <= i || j > t.len() {
                Err(sp_perr(t, i))
            } else {
                sp_parse_bin_rest(
                    t,
                    j,
                    lvl,
                    AstExprV::Binary { op, lhs: Box::new(e), rhs: Box::new(rhs) },
                )
            },
        },
    }
}

/// One statement: a let binding, an assignment, a compound assignment, an
/// expression statement, or the block's trailing expression.
pub open spec fn sp_parse_stmt(t: Seq<TokenV>, i: int) -> Result<(AstStmtV, int), CompileErrorV>
    decreases t.len() - i, 50int,
{
    if sp_at_kw(t, i, "let"@) {
        let has_mut = sp_at_kw(t, i + 1, "mut"@);
        let j = if has_mut {
            i + 2
        } else {
            i + 1
        };
        if !(0 <= j < t.len() && t[j] is Identifier) {
            Err(sp_perr(t, j))
        } else {
            let name = token_text(t[j]);
            let tyr: Result<int, CompileErrorV> = if sp_at_sym(t, j + 1, ":"@) {
                match sp_parse_ty(t, j + 2) {
                    Err(e) => Err(e),
                    Ok((_ty, m)) => Ok(m),
                }
            } else {
                Ok(j + 1)
            };
            match tyr {
                Err(e) => Err(e),
                Ok(m) => if m < j || m > t.len() {
                    Err(sp_perr(t, j))
                } else if !sp_at_sym(t, m, "="@) {
                    Err(sp_perr(t, m))
                } else {
                    match sp_parse_bin(t, m + 1, 0) {
                        Err(e) => Err(e),
                        Ok((init, k)) => if !sp_at_sym(t, k, ";"@) {
                            Err(sp_perr(t, k))
                        } else {
                            Ok(
                                (
                                    AstStmtV::LetBind {
                                        by_ref: false,
                                        mutable: has_mut,
                                        name,
                                        init,
                                    },
                                    k + 1,
                                ),
                            )
                        },
                    }
                },
            }
        }
    } else {
        match sp_parse_bin(t, i, 0) {
            Err(e) => Err(e),
            Ok((e1, j)) => if j <= i || j > t.len() {
                Err(sp_perr(t, i))
            } else if sp_at_sym(t, j, "="@) {
                match e1 {
                    AstExprV::Ident(p) => match sp_parse_bin(t, j + 1, 0) {
                        Err(e) => Err(e),
                        Ok((value, k)) => if !sp_at_sym(t, k, ";"@) {
                            Err(sp_perr(t, k))
                        } else {
                            Ok((AstStmtV::Assign { target: p, value }, k + 1))
                        },
                    },
                    _ => Err(sp_perr(t, j)),
                }
            } else if sp_at_op_assign(t, j) {
                match sp_parse_bin(t, j + 1, 0) {
                    Err(e) => Err(e),
                    Ok((_value, k)) => if !sp_at_sym(t, k, ";"@) {
                        Err(sp_perr(t, k))
                    } else {
                        Ok((AstStmtV::OpAssign, k + 1))
                    },
                }
            } else if sp_at_sym(t, j, ";"@) {
                Ok((AstStmtV::SemiExpr, j + 1))
            } else if sp_at_sym(t, j, "}"@) {
                Ok((AstStmtV::Tail(e1), j))
            } else {
                Err(sp_perr(t, j))
            },
        }
    }
}

/// The statements of a block, up to but not including the closing brace.
pub open spec fn sp_parse_stmts(t: Seq<TokenV>, i: int) -> Result<
    (Seq<AstStmtV>, int),
    CompileErrorV,
>
    decreases t.len() - i, 55int,
{
    if sp_at_sym(t, i, "}"@) {
        Ok((Seq::empty(), i))
    } else {
        match sp_parse_stmt(t, i) {
            Err(e) => Err(e),
            Ok((s1, j)) => if j <= i || j > t.len() {
                Err(sp_perr(t, i))
            } else {
                match sp_parse_stmts(t, j) {
                    Err(e) => Err(e),
                    Ok((rest, k)) => Ok((seq![s1] + rest, k)),
                }
            },
        }
    }
}

/// A braced block.
pub open spec fn sp_parse_block_syn(t: Seq<TokenV>, i: int) -> Result<
    (AstBlockV, int),
    CompileErrorV,
>
    decreases t.len() - i, 9int,
{
    if !sp_at_sym(t, i, "{"@) {
        Err(sp_perr(t, i))
    } else {
        match sp_parse_stmts(t, i + 1) {
            Err(e) => Err(e),
            Ok((stmts, j)) => if !sp_at_sym(t, j, "}"@) {
                Err(sp_perr(t, j))
            } else {
                Ok((AstBlockV { stmts }, j + 1))
            },
        }
    }
}

/// The comma-separated parameter list, up to and including the closing
/// parenthesis.
pub open spec fn sp_parse_params(t: Seq<TokenV>, i: int) -> Result<
    (Seq<AstParamV>, int),
    CompileErrorV,
>
    decreases t.len() - i, 55int,
{
    if sp_at_sym(t, i, ")"@) {
        Ok((Seq::empty(), i + 1))
    } else {
        let has_mut = sp_at_kw(t, i, "mut"@);
        let j = if has_mut {
            i + 1
        } else {
            i
        };
        if !(0 <= j < t.len() && t[j] is Identifier) {
            Err(sp_perr(t, j))
        } else if !sp_at_sym(t, j + 1, ":"@) {
            Err(sp_perr(t, j + 1))
        } else {
            let name = token_text(t[j]);
            match sp_parse_ty(t, j + 2) {
                Err(e) => Err(e),
                Ok((ty, m)) => {
                    let p = AstParamV { by_ref: false, mutable: has_mut, name, ty };
                    if m <= j || m > t.len() {
                        Err(sp_perr(t, j))
                    } else if sp_at_sym(t, m, ","@) {
                        match sp_parse_params(t, m + 1) {
                            Err(e) => Err(e),
                            Ok((rest, k)) => Ok((seq![p] + rest, k)),
                        }
                    } else if sp_at_sym(t, m, ")"@) {
                        Ok((seq![p], m + 1))
                    } else {
                        Err(sp_perr(t, m))
                    }
                },
            }
        }
    }
}

/// One function definition: `fn` name, parameters, an optional declared
/// return type, and the body block.
pub open spec fn sp_parse_fn(t: Seq<TokenV>, i: int) -> Result<(AstFnV, int), CompileErrorV>
    decreases t.len() - i, 70int,
{
    if !sp_at_kw(t, i, "fn"@) {
        Err(sp_perr(t, i))
    } else if !(0 <= i + 1 < t.len() && t[i + 1] is Identifier) {
        Err(sp_perr(t, i + 1))
    } else if !sp_at_sym(t, i + 2, "("@) {
        Err(sp_perr(t, i + 2))
    } else {
        let name = token_text(t[i + 1]);
        let name_loc = token_loc(t[i + 1]);
        match sp_parse_params(t, i + 3) {
            Err(e) => Err(e),
            Ok((params, j)) => if j <= i + 2 || j > t.len() {
                Err(sp_perr(t, i))
            } else {
                let retr: Result<(Option<PathAstV>, int), CompileErrorV> = if sp_at_sym(
                    t,
                    j,
                    "->"@,
                ) {
                    match sp_parse_ty(t, j + 1) {
                        Err(e) => Err(e),
                        Ok((ty, m)) => Ok((Option::Some(ty), m)),
                    }
                } else {
                    Ok((Option::None, j))
                };
                match retr {
                    Err(e) => Err(e),
                    Ok((ret, m)) => if m < j || m > t.len() {
                        Err(sp_perr(t, j))
                    } else {
                        match sp_parse_block_syn(t, m) {
                            Err(e) => Err(e),
                            Ok((body, k)) => Ok(
                                (AstFnV { name, name_loc, params, ret, body }, k),
                            ),
                        }
                    },
                }
            },
        }
    }
}


/// The views of a token vector (shared with the tokenizer).
pub open spec fn tv(t: Vec<Token>) -> Seq<TokenV> {
    crate::lex::tokens_view(t)
}

fn at_sym(t: &Vec<Token>, i: usize, w: &str) -> (r: bool)
    ensures
        r == sp_at_sym(tv(*t), i as int, w@),
{
    proof {
        assert(tv(*t).len() == t@.len());
    }
    if i < t.len() {
        proof {
            assert(tv(*t)[i as int] == t@[i as int]@);
        }
        match &t[i] {
            Token::Symbol { value, .. } => crate::text::str_eq(value.as_str(), w),
            _ => false,
        }
    } else {
        false
    }
}

fn at_kw(t: &Vec<Token>, i: usize, w: &str) -> (r: bool)
    ensures
        r == sp_at_kw(tv(*t), i as int, w@),
{
    proof {
        assert(tv(*t).len() == t@.len());
    }
    if i < t.len() {
        proof {
            assert(tv(*t)[i as int] == t@[i as int]@);
        }
        match &t[i] {
            Token::Keyword { value, .. } => crate::text::str_eq(value.as_str(), w),
            _ => false,
        }
    } else {
        false
    }
}

pub(crate) fn perr_at(t: &Vec<Token>, i: usize) -> (e: CompileError)
    ensures
        e@ == sp_perr(tv(*t), i as int),
{
    proof {
        assert(tv(*t).len() == t@.len());
    }
    if i < t.len() {
        proof {
            assert(tv(*t)[i as int] == t@[i as int]@);
        }
        CompileError::SyntaxError(*t[i].loc())
    } else {
        CompileError::SyntaxError(SourceLocation { line: 0, col: 0 })
    }
}

fn bin_op_at(t: &Vec<Token>, i: usize, lvl: usize) -> (r: Option<BinOp>)
    ensures
        r == sp_bin_op_at(tv(*t), i as int, lvl as int),
{
    if lvl == 0 && at_sym(t, i, "||") {
        Some(BinOp::Or)
    } else if lvl == 1 && at_sym(t, i, "&&") {
        Some(BinOp::And)
    } else if lvl == 2 && at_sym(t, i, "==") {
        Some(BinOp::Eq)
    } else if lvl == 2 && at_sym(t, i, "!=") {
        Some(BinOp::Ne)
    } else if lvl == 2 && at_sym(t, i, "<") {
        Some(BinOp::Lt)
    } else if lvl == 2 && at_sym(t, i, ">") {
        Some(BinOp::Gt)
    } else if lvl == 2 && at_sym(t, i, "<=") {
        Some(BinOp::Le)
    } else if lvl == 2 && at_sym(t, i, ">=") {
        Some(BinOp::Ge)
    } else if lvl == 3 && at_sym(t, i, "|") {
        Some(BinOp::BitOr)
    } else if lvl == 4 && at_sym(t, i, "^") {
        Some(BinOp::BitXor)
    } else if lvl == 5 && at_sym(t, i, "&") {
        Some(BinOp::BitAnd)
    } else if lvl == 6 && at_sym(t, i, "<<") {
        Some(BinOp::Shl)
    } else if lvl == 6 && at_sym(t, i, ">>") {
        Some(BinOp::Shr)
    } else if lvl == 7 && at_sym(t, i, "+") {
        Some(BinOp::Add)
    } else if lvl == 7 && at_sym(t, i, "-") {
        Some(BinOp::Sub)
    } else if lvl == 8 && at_sym(t, i, "*") {
        Some(BinOp::Mul)
    } else if lvl == 8 && at_sym(t, i, "/") {
        Some(BinOp::Div)
    } else if lvl == 8 && at_sym(t, i, "%") {
        Some(BinOp::Rem)
    } else {
        None
    }
}

fn at_op_assign(t: &Vec<Token>, i: usize) -> (r: bool)
    ensures
        r == sp_at_op_assign(tv(*t), i as int),
{
    at_sym(t, i, "+=") || at_sym(t, i, "-=") || at_sym(t, i, "*=") || at_sym(t, i, "/=") || at_sym(
        t,
        i,
        "%=",
    ) || at_sym(t, i, "^=") || at_sym(t, i, "&=") || at_sym(t, i, "|=")
}

fn skip_gen(t: &Vec<Token>, i: usize, depth: usize) -> (r: Result<usize, CompileError>)
    requires
        i <= t@.len(),
        depth <= i,
    ensures
        match r {
            Ok(m) => sp_skip_gen(tv(*t), i as int, depth as int) == Ok::<_, CompileErrorV>(
                m as int,
            ) && i <= m <= t@.len(),
            Err(e) => sp_skip_gen(tv(*t), i as int, depth as int) == Err::<int, _>(e@),
        },
    decreases t@.len() - i,
{
    proof {
        assert(tv(*t).len() == t@.len());
    }
    if depth == 0 {
        return Ok(i);
    }
    if i >= t.len() {
        return Err(perr_at(t, i));
    }
    proof {
        assert(tv(*t)[i as int] == t@[i as int]@);
    }
    let eof = t[i].is_eof();
    if eof {
        return Err(perr_at(t, i));
    }
    if at_sym(t, i, "<") {
        skip_gen(t, i + 1, depth + 1)
    } else if at_sym(t, i, ">") {
        skip_gen(t, i + 1, depth - 1)
    } else if at_sym(t, i, ">>") {
        if depth >= 2 {
            skip_gen(t, i + 1, depth - 2)
        } else {
            Err(perr_at(t, i))
        }
    } else {
        skip_gen(t, i + 1, depth)
    }
}

fn parse_path_rest(t: &Vec<Token>, i: usize, segs: Vec<String>, generics: bool) -> (r: Result<
    (PathAst, usize),
    CompileError,
>)
    requires
        i <= t@.len(),
    ensures
        match r {
            Ok(p) => sp_parse_path_rest(tv(*t), i as int, crate::text::strings_view(segs), generics)
                == Ok::<_, CompileErrorV>((p.0@, p.1 as int)) && i <= p.1 <= t@.len(),
            Err(e) => sp_parse_path_rest(tv(*t), i as int, crate::text::strings_view(segs), generics)
                == Err::<(PathAstV, int), _>(e@),
        },
    decreases t@.len() - i, 8int,
{
    proof {
        assert(tv(*t).len() == t@.len());
    }
    let _tn = t.len();
    let ghost segs0 = crate::text::strings_view(segs);
    if at_sym(t, i, "::") {
        if i + 1 < t.len() && t[i + 1].as_identifier().is_some() {
            proof {
                assert(tv(*t)[i as int + 1] == t@[i as int + 1]@);
            }
            let name = t[i + 1].str();
            let ghost namev = name@;
            let mut segs2 = segs;
            segs2.push(name);
            proof {
                assert(crate::text::strings_view(segs2) =~= segs0.push(namev));
            }
            parse_path_rest(t, i + 2, segs2, generics)
        } else if i + 1 < t.len() && at_sym(t, i + 1, "<") {
            proof {
                if i + 1 < t@.len() {
                    assert(tv(*t)[i as int + 1] == t@[i as int + 1]@);
                }
            }
            match skip_gen(t, i + 2, 1) {
                Err(e) => Err(e),
                Ok(m) => {
                    if m <= i + 1 || m > t.len() {
                        Err(perr_at(t, i))
                    } else {
                        parse_path_rest(t, m, segs, true)
                    }
                },
            }
        } else {
            proof {
                if i + 1 < t@.len() {
                    assert(tv(*t)[i as int + 1] == t@[i as int + 1]@);
                }
            }
            Err(perr_at(t, i + 1))
        }
    } else {
        let p = PathAst { segments: segs, generics };
        proof {
            assert(p@ == (PathAstV { segments: segs0, generics }));
        }
        Ok((p, i))
    }
}

fn parse_path(t: &Vec<Token>, i: usize) -> (r: Result<(PathAst, usize), CompileError>)
    requires
        i <= t@.len(),
    ensures
        match r {
            Ok(p) => sp_parse_path(tv(*t), i as int) == Ok::<_, CompileErrorV>(
                (p.0@, p.1 as int),
            ) && i < p.1 <= t@.len(),
            Err(e) => sp_parse_path(tv(*t), i as int) == Err::<(PathAstV, int), _>(e@),
        },
{
    proof {
        assert(tv(*t).len() == t@.len());
    }
    if i < t.len() && t[i].as_identifier().is_some() {
        proof {
            assert(tv(*t)[i as int] == t@[i as int]@);
        }
        let name = t[i].str();
        let ghost namev = name@;
        let mut segs: Vec<String> = Vec::new();
        segs.push(name);
        proof {
            assert(crate::text::strings_view(segs) =~= seq![namev]);
        }
        parse_path_rest(t, i + 1, segs, false)
    } else {
        proof {
            if i < t@.len() {
                assert(tv(*t)[i as int] == t@[i as int]@);
            }
        }
        Err(perr_at(t, i))
    }
}

fn parse_ty(t: &Vec<Token>, i: usize) -> (r: Result<(PathAst, usize), CompileError>)
    requires
        i <= t@.len(),
    ensures
        match r {
            Ok(p) => sp_parse_ty(tv(*t), i as int) == Ok::<_, CompileErrorV>((p.0@, p.1 as int))
                && i <= p.1 <= t@.len(),
            Err(e) => sp_parse_ty(tv(*t), i as int) == Err::<(PathAstV, int), _>(e@),
        },
{
    let _tn = t.len();
    let (p, j) = match parse_path(t, i) {
        Ok(x) => x,
        Err(e) => {
            return Err(e);
        },
    };
    if at_sym(t, j, "<") {
        match skip_gen(t, j + 1, 1) {
            Err(e) => Err(e),
            Ok(m) => {
                let p2 = PathAst { segments: p.segments, generics: true };
                Ok((p2, m))
            },
        }
    } else {
        Ok((p, j))
    }
}


#[verifier::rlimit(100)]
fn parse_primary(t: &Vec<Token>, i: usize) -> (r: Result<(AstExpr, usize), CompileError>)
    requires
        i <= t@.len(),
    ensures
        match r {
            Ok(p) => sp_parse_primary(tv(*t), i as int) == Ok::<_, CompileErrorV>(
                (p.0@, p.1 as int),
            ) && i < p.1 <= t@.len(),
            Err(e) => sp_parse_primary(tv(*t), i as int) == Err::<(AstExprV, int), _>(e@),
        },
    decreases t@.len() - i, 10int,
{
    let tn = t.len();
    proof {
        assert(tv(*t).len() == t@.len());
    }
    if i >= tn {
        return Err(perr_at(t, i));
    }
    proof {
        assert(tv(*t)[i as int] == t@[i as int]@);
    }
    match &t[i] {
        Token::Number { value, is_float, .. } => {
            let out = AstExpr::Lit { digits: value.clone(), is_float: *is_float };
            proof {
                assert(t@[i as int]@ == (TokenV::Number {
                    value: value@,
                    is_float: *is_float,
                    loc: token_loc(t@[i as int]@),
                }));
                assert(out@ == (AstExprV::Lit { digits: value@, is_float: *is_float }));
                assert(sp_parse_primary(tv(*t), i as int) == Ok::<(AstExprV, int), CompileErrorV>(
                    (out@, i as int + 1),
                ));
            }
            Ok((out, i + 1))
        },
        Token::String { value, .. } => Ok((AstExpr::StrLit(value.clone()), i + 1)),
        Token::Keyword { value, .. } => {
            if crate::text::str_eq(value.as_str(), "true") {
                Ok((AstExpr::BoolLit(true), i + 1))
            } else if crate::text::str_eq(value.as_str(), "false") {
                Ok((AstExpr::BoolLit(false), i + 1))
            } else if crate::text::str_eq(value.as_str(), "if") {
                let (cond, j) = match parse_bin(t, i + 1, 0) {
                    Ok(x) => x,
                    Err(e) => {
                        return Err(e);
                    },
                };
                let (then_blk, k) = match parse_block_syn(t, j) {
                    Ok(x) => x,
                    Err(e) => {
                        return Err(e);
                    },
                };
                if !at_kw(t, k, "else") {
                    return Err(CompileError::UnsupportedConstruct(Construct::MissingElse));
                }
                if k + 1 < tn && (at_kw(t, k + 1, "if") || at_sym(t, k + 1, "{")) {
                    let (els, m) = match parse_primary(t, k + 1) {
                        Ok(x) => x,
                        Err(e) => {
                            return Err(e);
                        },
                    };
                    let ghost condv = cond@;
                    let ghost thenv = then_blk@;
                    let ghost elsv = els@;
                    let out = AstExpr::IfElse {
                        cond: Box::new(cond),
                        then_branch: then_blk,
                        else_branch: Box::new(els),
                    };
                    proof {
                        assert(out@ == (AstExprV::IfElse {
                            cond: Box::new(condv),
                            then_branch: thenv,
                            else_branch: Box::new(elsv),
                        }));
                    }
                    Ok((out, m))
                } else {
                    Err(CompileError::UnsupportedConstruct(Construct::MissingElse))
                }
            } else {
                Err(perr_at(t, i))
            }
        },
        Token::Symbol { value, .. } => {
            if crate::text::str_eq(value.as_str(), "(") {
                let (e1, j) = match parse_bin(t, i + 1, 0) {
                    Ok(x) => x,
                    Err(e) => {
                        return Err(e);
                    },
                };
                if at_sym(t, j, ")") {
                    Ok((e1, j + 1))
                } else {
                    Err(perr_at(t, j))
                }
            } else if crate::text::str_eq(value.as_str(), "{") {
                let (blk, j) = match parse_block_syn(t, i) {
                    Ok(x) => x,
                    Err(e) => {
                        return Err(e);
                    },
                };
                let ghost blkv = blk@;
                let out = AstExpr::BlockExpr(blk);
                proof {
                    assert(out@ == AstExprV::BlockExpr(blkv));
                }
                Ok((out, j))
            } else {
                Err(perr_at(t, i))
            }
        },
        Token::Identifier { .. } => {
            let (p, j) = match parse_path(t, i) {
                Ok(x) => x,
                Err(e) => {
                    return Err(e);
                },
            };
            if at_sym(t, j, "(") {
                let (args, k) = match parse_call_args(t, j + 1) {
                    Ok(x) => x,
                    Err(e) => {
                        return Err(e);
                    },
                };
                let ghost pv = p@;
                let ghost argsv = crate::ast::ast_exprs_view_rec(args, 0);
                let out = AstExpr::CallExpr { callee: p, args };
                proof {
                    assert(out@ == (AstExprV::CallExpr { callee: pv, args: argsv }));
                }
                Ok((out, k))
            } else {
                let ghost pv = p@;
                let out = AstExpr::Ident(p);
                proof {
                    assert(out@ == AstExprV::Ident(pv));
                }
                Ok((out, j))
            }
        },
        Token::EOF { .. } => Err(perr_at(t, i)),
    }
}

fn parse_call_args(t: &Vec<Token>, i: usize) -> (r: Result<(Vec<AstExpr>, usize), CompileError>)
    requires
        i <= t@.len(),
    ensures
        match r {
            Ok(p) => sp_parse_call_args(tv(*t), i as int) == Ok::<_, CompileErrorV>(
                (crate::ast::ast_exprs_view_rec(p.0, 0), p.1 as int),
            ) && i < p.1 <= t@.len(),
            Err(e) => sp_parse_call_args(tv(*t), i as int) == Err::<(Seq<AstExprV>, int), _>(e@),
        },
    decreases t@.len() - i, 40int,
{
    let _tn = t.len();
    if at_sym(t, i, ")") {
        let v: Vec<AstExpr> = Vec::new();
        proof {
            assert(crate::ast::ast_exprs_view_rec(v, 0) =~= Seq::<AstExprV>::empty());
        }
        return Ok((v, i + 1));
    }
    let (e1, j) = match parse_bin(t, i, 0) {
        Ok(x) => x,
        Err(e) => {
            return Err(e);
        },
    };
    if at_sym(t, j, ",") {
        let (rest, k) = match parse_call_args(t, j + 1) {
            Ok(x) => x,
            Err(e) => {
                return Err(e);
            },
        };
        let ghost e1v = e1@;
        let ghost restv = crate::ast::ast_exprs_view_rec(rest, 0);
        let ghost rest0 = rest;
        let mut v = rest;
        v.insert(0, e1);
        proof {
            crate::ast::lemma_ast_exprs_view_cons(v, rest0, v@[0]);
            assert(crate::ast::ast_exprs_view_rec(v, 0) == seq![e1v] + restv);
        }
        Ok((v, k))
    } else if at_sym(t, j, ")") {
        let ghost e1v = e1@;
        let mut v: Vec<AstExpr> = Vec::new();
        v.push(e1);
        proof {
            crate::ast::lemma_ast_exprs_view_index(v, 0, 0);
            assert(crate::ast::ast_exprs_view_rec(v, 0) =~= seq![e1v]);
        }
        Ok((v, j + 1))
    } else {
        Err(perr_at(t, j))
    }
}

fn parse_postfix(t: &Vec<Token>, i: usize, e: AstExpr) -> (r: Result<
    (AstExpr, usize),
    CompileError,
>)
    requires
        i <= t@.len(),
    ensures
        match r {
            Ok(p) => sp_parse_postfix(tv(*t), i as int, e@) == Ok::<_, CompileErrorV>(
                (p.0@, p.1 as int),
            ) && i <= p.1 <= t@.len(),
            Err(er) => sp_parse_postfix(tv(*t), i as int, e@) == Err::<(AstExprV, int), _>(er@),
        },
    decreases t@.len() - i, 30int,
{
    let tn = t.len();
    proof {
        assert(tv(*t).len() == t@.len());
    }
    let ghost ev = e@;
    if at_sym(t, i, ".") {
        if i + 1 < tn && t[i + 1].as_identifier().is_some() {
            proof {
                assert(tv(*t)[i as int + 1] == t@[i as int + 1]@);
            }
            let name = t[i + 1].str();
            let ghost namev = name@;
            if at_sym(t, i + 2, "(") {
                let (args, k) = match parse_call_args(t, i + 3) {
                    Ok(x) => x,
                    Err(e1) => {
                        return Err(e1);
                    },
                };
                let ghost argsv = crate::ast::ast_exprs_view_rec(args, 0);
                let e2 = AstExpr::MethodCall { receiver: Box::new(e), method: name, args };
                proof {
                    assert(e2@ == (AstExprV::MethodCall {
                        receiver: Box::new(ev),
                        method: namev,
                        args: argsv,
                    }));
                }
                parse_postfix(t, k, e2)
            } else {
                let e2 = AstExpr::Field { base: Box::new(e), member: name };
                proof {
                    assert(e2@ == (AstExprV::Field { base: Box::new(ev), member: namev }));
                }
                parse_postfix(t, i + 2, e2)
            }
        } else {
            proof {
                if i + 1 < t@.len() {
                    assert(tv(*t)[i as int + 1] == t@[i as int + 1]@);
                }
            }
            Err(perr_at(t, i + 1))
        }
    } else {
        Ok((e, i))
    }
}

fn parse_unary(t: &Vec<Token>, i: usize) -> (r: Result<(AstExpr, usize), CompileError>)
    requires
        i <= t@.len(),
    ensures
        match r {
            Ok(p) => sp_parse_unary(tv(*t), i as int) == Ok::<_, CompileErrorV>(
                (p.0@, p.1 as int),
            ) && i < p.1 <= t@.len(),
            Err(e) => sp_parse_unary(tv(*t), i as int) == Err::<(AstExprV, int), _>(e@),
        },
    decreases t@.len() - i, 11int,
{
    let _tn = t.len();
    if at_sym(t, i, "-") {
        let (e1, j) = match parse_unary(t, i + 1) {
            Ok(x) => x,
            Err(e) => {
                return Err(e);
            },
        };
        let ghost e1v = e1@;
        let out = AstExpr::Unary { op: UnOp::Neg, expr: Box::new(e1) };
        proof {
            assert(out@ == (AstExprV::Unary { op: UnOp::Neg, expr: Box::new(e1v) }));
        }
        Ok((out, j))
    } else if at_sym(t, i, "!") {
        let (e1, j) = match parse_unary(t, i + 1) {
            Ok(x) => x,
            Err(e) => {
                return Err(e);
            },
        };
        let ghost e1v = e1@;
        let out = AstExpr::Unary { op: UnOp::Not, expr: Box::new(e1) };
        proof {
            assert(out@ == (AstExprV::Unary { op: UnOp::Not, expr: Box::new(e1v) }));
        }
        Ok((out, j))
    } else {
        let (e1, j) = match parse_primary(t, i) {
            Ok(x) => x,
            Err(e) => {
                return Err(e);
            },
        };
        parse_postfix(t, j, e1)
    }
}

fn parse_bin(t: &Vec<Token>, i: usize, lvl: usize) -> (r: Result<(AstExpr, usize), CompileError>)
    requires
        i <= t@.len(),
    ensures
        match r {
            Ok(p) => sp_parse_bin(tv(*t), i as int, lvl as int) == Ok::<_, CompileErrorV>(
                (p.0@, p.1 as int),
            ) && i < p.1 <= t@.len(),
            Err(e) => sp_parse_bin(tv(*t), i as int, lvl as int) == Err::<(AstExprV, int), _>(e@),
        },
    decreases t@.len() - i, bin_level_measure(lvl as int),
{
    if lvl >= 9 {
        parse_unary(t, i)
    } else {
        let (e1, j) = match parse_bin(t, i, lvl + 1) {
            Ok(x) => x,
            Err(e) => {
                return Err(e);
            },
        };
        parse_bin_rest(t, j, lvl, e1)
    }
}

fn parse_bin_rest(t: &Vec<Token>, i: usize, lvl: usize, e: AstExpr) -> (r: Result<
    (AstExpr, usize),
    CompileError,
>)
    requires
        i <= t@.len(),
    ensures
        match r {
            Ok(p) => sp_parse_bin_rest(tv(*t), i as int, lvl as int, e@) == Ok::<
                _,
                CompileErrorV,
            >((p.0@, p.1 as int)) && i <= p.1 <= t@.len(),
            Err(er) => sp_parse_bin_rest(tv(*t), i as int, lvl as int, e@) == Err::<
                (AstExprV, int),
                _,
            >(er@),
        },
    decreases t@.len() - i, 25int,
{
    let _tn = t.len();
    proof {
        assert(tv(*t).len() == t@.len());
    }
    let ghost ev = e@;
    match bin_op_at(t, i, lvl) {
        None => Ok((e, i)),
        Some(op) => {
            let (rhs, j) = match parse_bin(t, i + 1, lvl + 1) {
                Ok(x) => x,
                Err(e1) => {
                    return Err(e1);
                },
            };
            let ghost rhsv = rhs@;
            let e2 = AstExpr::Binary { op, lhs: Box::new(e), rhs: Box::new(rhs) };
            proof {
                assert(e2@ == (AstExprV::Binary {
                    op,
                    lhs: Box::new(ev),
                    rhs: Box::new(rhsv),
                }));
            }
            parse_bin_rest(t, j, lvl, e2)
        },
    }
}


fn parse_stmt(t: &Vec<Token>, i: usize) -> (r: Result<(AstStmt, usize), CompileError>)
    requires
        i <= t@.len(),
    ensures
        match r {
            Ok(p) => sp_parse_stmt(tv(*t), i as int) == Ok::<_, CompileErrorV>(
                (p.0@, p.1 as int),
            ) && i < p.1 <= t@.len(),
            Err(e) => sp_parse_stmt(tv(*t), i as int) == Err::<(AstStmtV, int), _>(e@),
        },
    decreases t@.len() - i, 50int,
{
    let tn = t.len();
    proof {
        assert(tv(*t).len() == t@.len());
    }
    if at_kw(t, i, "let") {
        let has_mut = at_kw(t, i + 1, "mut");
        let j = if has_mut {
            i + 2
        } else {
            i + 1
        };
        if !(j < tn && t[j].as_identifier().is_some()) {
            proof {
                if j < t@.len() {
                    assert(tv(*t)[j as int] == t@[j as int]@);
                }
            }
            return Err(perr_at(t, j));
        }
        proof {
            assert(tv(*t)[j as int] == t@[j as int]@);
        }
        let name = t[j].str();
        let ghost namev = name@;
        let m = if at_sym(t, j + 1, ":") {
            match parse_ty(t, j + 2) {
                Ok((_ty, m0)) => m0,
                Err(e) => {
                    return Err(e);
                },
            }
        } else {
            j + 1
        };
        if !at_sym(t, m, "=") {
            return Err(perr_at(t, m));
        }
        let (init, k) = match parse_bin(t, m + 1, 0) {
            Ok(x) => x,
            Err(e) => {
                return Err(e);
            },
        };
        if !at_sym(t, k, ";") {
            return Err(perr_at(t, k));
        }
        let ghost initv = init@;
        let out = AstStmt::LetBind { by_ref: false, mutable: has_mut, name, init };
        proof {
            assert(out@ == (AstStmtV::LetBind {
                by_ref: false,
                mutable: has_mut,
                name: namev,
                init: initv,
            }));
        }
        Ok((out, k + 1))
    } else {
        let (e1, j) = match parse_bin(t, i, 0) {
            Ok(x) => x,
            Err(e) => {
                return Err(e);
            },
        };
        if at_sym(t, j, "=") {
            match e1 {
                AstExpr::Ident(p) => {
                    let (value, k) = match parse_bin(t, j + 1, 0) {
                        Ok(x) => x,
                        Err(e) => {
                            return Err(e);
                        },
                    };
                    if !at_sym(t, k, ";") {
                        return Err(perr_at(t, k));
                    }
                    let ghost pv = p@;
                    let ghost valv = value@;
                    let out = AstStmt::Assign { target: p, value };
                    proof {
                        assert(out@ == (AstStmtV::Assign { target: pv, value: valv }));
                    }
                    Ok((out, k + 1))
                },
                _ => Err(perr_at(t, j)),
            }
        } else if at_op_assign(t, j) {
            let (_value, k) = match parse_bin(t, j + 1, 0) {
                Ok(x) => x,
                Err(e) => {
                    return Err(e);
                },
            };
            if !at_sym(t, k, ";") {
                return Err(perr_at(t, k));
            }
            Ok((AstStmt::OpAssign, k + 1))
        } else if at_sym(t, j, ";") {
            Ok((AstStmt::SemiExpr, j + 1))
        } else if at_sym(t, j, "}") {
            let ghost e1v = e1@;
            let out = AstStmt::Tail(e1);
            proof {
                assert(out@ == AstStmtV::Tail(e1v));
            }
            Ok((out, j))
        } else {
            Err(perr_at(t, j))
        }
    }
}

fn parse_stmts(t: &Vec<Token>, i: usize) -> (r: Result<(Vec<AstStmt>, usize), CompileError>)
    requires
        i <= t@.len(),
    ensures
        match r {
            Ok(p) => sp_parse_stmts(tv(*t), i as int) == Ok::<_, CompileErrorV>(
                (crate::ast::ast_stmts_view_rec(p.0, 0), p.1 as int),
            ) && i <= p.1 <= t@.len(),
            Err(e) => sp_parse_stmts(tv(*t), i as int) == Err::<(Seq<AstStmtV>, int), _>(e@),
        },
    decreases t@.len() - i, 55int,
{
    if at_sym(t, i, "}") {
        let v: Vec<AstStmt> = Vec::new();
        proof {
            assert(crate::ast::ast_stmts_view_rec(v, 0) =~= Seq::<AstStmtV>::empty());
        }
        return Ok((v, i));
    }
    let (s1, j) = match parse_stmt(t, i) {
        Ok(x) => x,
        Err(e) => {
            return Err(e);
        },
    };
    let (rest, k) = match parse_stmts(t, j) {
        Ok(x) => x,
        Err(e) => {
            return Err(e);
        },
    };
    let ghost s1v = s1@;
    let ghost restv = crate::ast::ast_stmts_view_rec(rest, 0);
    let ghost rest0 = rest;
    let mut v = rest;
    v.insert(0, s1);
    proof {
        crate::ast::lemma_ast_stmts_view_cons(v, rest0, v@[0]);
        assert(crate::ast::ast_stmts_view_rec(v, 0) == seq![s1v] + restv);
    }
    Ok((v, k))
}

fn parse_block_syn(t: &Vec<Token>, i: usize) -> (r: Result<(AstBlock, usize), CompileError>)
    requires
        i <= t@.len(),
    ensures
        match r {
            Ok(p) => sp_parse_block_syn(tv(*t), i as int) == Ok::<_, CompileErrorV>(
                (p.0@, p.1 as int),
            ) && i < p.1 <= t@.len(),
            Err(e) => sp_parse_block_syn(tv(*t), i as int) == Err::<(AstBlockV, int), _>(e@),
        },
    decreases t@.len() - i, 9int,
{
    let _tn = t.len();
    proof {
        assert(tv(*t).len() == t@.len());
    }
    if !at_sym(t, i, "{") {
        return Err(perr_at(t, i));
    }
    let (stmts, j) = match parse_stmts(t, i + 1) {
        Ok(x) => x,
        Err(e) => {
            return Err(e);
        },
    };
    if !at_sym(t, j, "}") {
        return Err(perr_at(t, j));
    }
    let ghost stmtsv = crate::ast::ast_stmts_view_rec(stmts, 0);
    let out = AstBlock { stmts };
    proof {
        assert(out@ == (AstBlockV { stmts: stmtsv }));
    }
    Ok((out, j + 1))
}

fn parse_params(t: &Vec<Token>, i: usize) -> (r: Result<(Vec<AstParam>, usize), CompileError>)
    requires
        i <= t@.len(),
    ensures
        match r {
            Ok(p) => sp_parse_params(tv(*t), i as int) == Ok::<_, CompileErrorV>(
                (crate::ast::ast_params_view(p.0), p.1 as int),
            ) && i < p.1 <= t@.len(),
            Err(e) => sp_parse_params(tv(*t), i as int) == Err::<(Seq<AstParamV>, int), _>(e@),
        },
    decreases t@.len() - i, 55int,
{
    let tn = t.len();
    proof {
        assert(tv(*t).len() == t@.len());
    }
    if at_sym(t, i, ")") {
        let v: Vec<AstParam> = Vec::new();
        proof {
            assert(crate::ast::ast_params_view(v) =~= Seq::<AstParamV>::empty());
        }
        return Ok((v, i + 1));
    }
    let has_mut = at_kw(t, i, "mut");
    let j = if has_mut {
        i + 1
    } else {
        i
    };
    if !(j < tn && t[j].as_identifier().is_some()) {
        proof {
            if j < t@.len() {
                assert(tv(*t)[j as int] == t@[j as int]@);
            }
        }
        return Err(perr_at(t, j));
    }
    proof {
        assert(tv(*t)[j as int] == t@[j as int]@);
    }
    if !at_sym(t, j + 1, ":") {
        return Err(perr_at(t, j + 1));
    }
    let name = t[j].str();
    let ghost namev = name@;
    let (ty, m) = match parse_ty(t, j + 2) {
        Ok(x) => x,
        Err(e) => {
            return Err(e);
        },
    };
    let ghost tyv = ty@;
    let p = AstParam { by_ref: false, mutable: has_mut, name, ty };
    proof {
        assert(p@ == (AstParamV { by_ref: false, mutable: has_mut, name: namev, ty: tyv }));
    }
    if at_sym(t, m, ",") {
        let (rest, k) = match parse_params(t, m + 1) {
            Ok(x) => x,
            Err(e) => {
                return Err(e);
            },
        };
        let ghost pv = p@;
        let ghost restv = crate::ast::ast_params_view(rest);
        let ghost rest0 = rest;
        let mut v = rest;
        v.insert(0, p);
        proof {
            assert(crate::ast::ast_params_view(v) =~= seq![pv] + restv);
        }
        Ok((v, k))
    } else if at_sym(t, m, ")") {
        let ghost pv = p@;
        let mut v: Vec<AstParam> = Vec::new();
        v.push(p);
        proof {
            assert(crate::ast::ast_params_view(v) =~= seq![pv]);
        }
        Ok((v, m + 1))
    } else {
        Err(perr_at(t, m))
    }
}

/// Parses one function definition from the token sequence (see
/// `sp_parse_fn`).
pub fn parse_fn(t: &Vec<Token>, i: usize) -> (r: Result<(AstFn, usize), CompileError>)
    requires
        i <= t@.len(),
    ensures
        match r {
            Ok(p) => sp_parse_fn(tv(*t), i as int) == Ok::<_, CompileErrorV>(
                (p.0@, p.1 as int),
            ) && i < p.1 <= t@.len(),
            Err(e) => sp_parse_fn(tv(*t), i as int) == Err::<(AstFnV, int), _>(e@),
        },
    decreases t@.len() - i, 70int,
{
    let tn = t.len();
    proof {
        assert(tv(*t).len() == t@.len());
    }
    if !at_kw(t, i, "fn") {
        return Err(perr_at(t, i));
    }
    if !(i + 1 < tn && t[i + 1].as_identifier().is_some()) {
        proof {
            if i + 1 < t@.len() {
                assert(tv(*t)[i as int + 1] == t@[i as int + 1]@);
            }
        }
        return Err(perr_at(t, i + 1));
    }
    proof {
        assert(tv(*t)[i as int + 1] == t@[i as int + 1]@);
    }
    if !at_sym(t, i + 2, "(") {
        return Err(perr_at(t, i + 2));
    }
    let name = t[i + 1].str();
    let name_loc = *t[i + 1].loc();
    let ghost namev = name@;
    let (params, j) = match parse_params(t, i + 3) {
        Ok(x) => x,
        Err(e) => {
            return Err(e);
        },
    };
    let (ret, m) = if at_sym(t, j, "->") {
        match parse_ty(t, j + 1) {
            Ok((ty, m0)) => (Some(ty), m0),
            Err(e) => {
                return Err(e);
            },
        }
    } else {
        (None, j)
    };
    let (body, k) = match parse_block_syn(t, m) {
        Ok(x) => x,
        Err(e) => {
            return Err(e);
        },
    };
    let ghost paramsv = crate::ast::ast_params_view(params);
    let ghost retv: Option<PathAstV> = match &ret {
        Some(ty) => Some(ty@),
        None => None,
    };
    let ghost bodyv = body@;
    let out = AstFn { name, name_loc, params, ret, body };
    proof {
        assert(out@ == (AstFnV {
            name: namev,
            name_loc,
            params: paramsv,
            ret: retv,
            body: bodyv,
        }));
    }
    Ok((out, k))
}

} // verus!





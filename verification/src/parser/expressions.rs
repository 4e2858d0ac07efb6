//! The grammar of expressions.

use crate::ast::expressions::{
    lemma_expr_view, Assign, Atom, AtomView, BinExpr, BinOp, BuiltIn,
    Call, Expr, ExprView, LValue, LValueView, ListInit, StructInit, Ternary, UnExpr, UnOp,
};
use crate::eval::entries::same_text;
use crate::parser::cursor::{ident, ident_at, is_sym, shifted, sym_at, ParseError};
use crate::parser::lexer::{Sym, Token, TokenView};
use vstd::prelude::*;

verus! {

/// The binary operator that a symbol spells, and how tightly it binds: from
/// 1 for `||` up to 10 for `*`, `/` and `%`.
pub open spec fn bin_op_of(sym: Sym) -> Option<(BinOp, nat)> {
    match sym {
        Sym::OrOr => Some((BinOp::Or, 1)),
        Sym::AndAnd => Some((BinOp::And, 2)),
        Sym::Pipe => Some((BinOp::BitOr, 3)),
        Sym::Caret => Some((BinOp::Xor, 4)),
        Sym::Amp => Some((BinOp::BitAnd, 5)),
        Sym::EqEq => Some((BinOp::Eq, 6)),
        Sym::Neq => Some((BinOp::Neq, 6)),
        Sym::Lt => Some((BinOp::Lt, 7)),
        Sym::Leq => Some((BinOp::Leq, 7)),
        Sym::Gt => Some((BinOp::Gt, 7)),
        Sym::Geq => Some((BinOp::Geq, 7)),
        Sym::Shl => Some((BinOp::Shl, 8)),
        Sym::Shr => Some((BinOp::Shr, 8)),
        Sym::Plus => Some((BinOp::Add, 9)),
        Sym::Minus => Some((BinOp::Sub, 9)),
        Sym::Star => Some((BinOp::Mul, 10)),
        Sym::Slash => Some((BinOp::Div, 10)),
        Sym::Percent => Some((BinOp::Mod, 10)),
        _ => None,
    }
}

/// The binary operator at `pos`.
pub open spec fn op_at(tokens: Seq<TokenView>, pos: int) -> Option<(BinOp, nat)> {
    if 0 <= pos < tokens.len() && tokens[pos] is Sym {
        bin_op_of(tokens[pos]->Sym_0)
    } else {
        None
    }
}

/// The unary operator that a symbol spells.
pub open spec fn un_op_of(sym: Sym) -> Option<UnOp> {
    match sym {
        Sym::Plus => Some(UnOp::Pos),
        Sym::Minus => Some(UnOp::Neg),
        Sym::Bang => Some(UnOp::Not),
        Sym::Tilde => Some(UnOp::BitNot),
        _ => None,
    }
}

/// The unary operator at `pos`.
pub open spec fn un_at(tokens: Seq<TokenView>, pos: int) -> Option<UnOp> {
    if 0 <= pos < tokens.len() && tokens[pos] is Sym {
        un_op_of(tokens[pos]->Sym_0)
    } else {
        None
    }
}

/// The builtin that a word names.
pub open spec fn builtin_of(word: Seq<char>) -> Option<BuiltIn> {
    if word == "clone"@ {
        Some(BuiltIn::Clone)
    } else if word == "spawn"@ {
        Some(BuiltIn::Spawn)
    } else if word == "delete"@ {
        Some(BuiltIn::Delete)
    } else if word == "print"@ {
        Some(BuiltIn::Print)
    } else {
        None
    }
}

/// The segments `.name` from `pos` on, added to `done`, and the tokens they
/// take.
pub open spec fn path_from(tokens: Seq<TokenView>, pos: int, done: Seq<Seq<char>>) -> (
    Seq<Seq<char>>,
    nat,
)
    decreases tokens.len() - pos,
{
    if sym_at(tokens, pos, Sym::Dot) && ident_at(tokens, pos + 1) is Some {
        let rest = path_from(tokens, pos + 2, done.push(ident_at(tokens, pos + 1)->Some_0));
        (rest.0, rest.1 + 2)
    } else {
        (done, 0)
    }
}

/// An expression: a binary expression, which may be the condition of a
/// ternary `c ? a : b` or, where it is a left-value, the target of an
/// assignment `l = e`.
pub open spec fn expr_at(tokens: Seq<TokenView>, pos: int) -> Option<(ExprView, nat)>
    decreases tokens.len() - pos, 5nat,
{
    match binary_at(tokens, pos, 1) {
        Some((head, n)) => if sym_at(tokens, pos + n, Sym::Question) {
            match expr_at(tokens, pos + n + 1) {
                Some((first, m)) => if sym_at(tokens, pos + n + 1 + m, Sym::Colon) {
                    match expr_at(tokens, pos + n + m + 2) {
                        Some((second, k)) => Some(
                            (
                                ExprView::Ternary(
                                    Box::new(head),
                                    Box::new(first),
                                    Box::new(second),
                                ),
                                n + m + k + 2,
                            ),
                        ),
                        None => None,
                    }
                } else {
                    None
                },
                None => None,
            }
        } else if sym_at(tokens, pos + n, Sym::Assign) && head is LValue {
            match expr_at(tokens, pos + n + 1) {
                Some((rhs, m)) => Some(
                    (ExprView::Assign(head->LValue_0, Box::new(rhs)), n + m + 1),
                ),
                None => None,
            }
        } else {
            Some((head, n))
        },
        None => None,
    }
}

/// A binary expression whose operators all bind at least as tightly as
/// `min`: a unary expression, then operators and operands as far as they
/// go. Operators that bind equally group from the left.
pub open spec fn binary_at(tokens: Seq<TokenView>, pos: int, min: nat) -> Option<(ExprView, nat)>
    decreases tokens.len() - pos, 4nat,
{
    match unary_at(tokens, pos) {
        Some((left, n)) => if op_at(tokens, pos + n) is Some {
            shifted(binary_tail(tokens, left, pos + n, min), n)
        } else {
            Some((left, n))
        },
        None => None,
    }
}

/// What follows the operand `left`: if the token at `at` is an operator that
/// binds at least as tightly as `min`, its right operand, which takes every
/// operator that binds more tightly, and then what follows the two joined.
pub open spec fn binary_tail(tokens: Seq<TokenView>, left: ExprView, at: int, min: nat) -> Option<
    (ExprView, nat),
>
    decreases tokens.len() - at, 3nat,
{
    match op_at(tokens, at) {
        Some((op, prec)) => if prec >= min {
            match binary_at(tokens, at + 1, prec + 1) {
                Some((right, m)) => {
                    let joined = ExprView::BinExpr(Box::new(left), op, Box::new(right));
                    if op_at(tokens, at + 1 + m) is Some {
                        shifted(binary_tail(tokens, joined, at + 1 + m, min), 1 + m)
                    } else {
                        Some((joined, 1 + m))
                    }
                },
                None => None,
            }
        } else {
            Some((left, 0))
        },
        None => Some((left, 0)),
    }
}

/// A unary expression: unary operators, then a primary expression.
pub open spec fn unary_at(tokens: Seq<TokenView>, pos: int) -> Option<(ExprView, nat)>
    decreases tokens.len() - pos, 2nat,
{
    match un_at(tokens, pos) {
        Some(op) => match unary_at(tokens, pos + 1) {
            Some((operand, n)) => Some((ExprView::UnExpr(op, Box::new(operand)), n + 1)),
            None => None,
        },
        None => primary_at(tokens, pos),
    }
}

/// A primary expression: a literal; `true`, `false` or `void`; an
/// expression in parentheses; a list `[a, b]`; a call of a builtin
/// `print(a)`; a struct initialization `Name { x: a, y: b }`; or a path
/// `a.b.c`.
pub open spec fn primary_at(tokens: Seq<TokenView>, pos: int) -> Option<(ExprView, nat)>
    decreases tokens.len() - pos, 1nat,
{
    if pos < 0 || pos >= tokens.len() {
        None
    } else {
        match tokens[pos] {
            TokenView::Int(i) => Some((ExprView::Atom(AtomView::Int(i)), 1)),
            TokenView::Float(text) => Some((ExprView::Atom(AtomView::Float(text)), 1)),
            TokenView::Char(c) => Some((ExprView::Atom(AtomView::Char(c)), 1)),
            TokenView::Text(text) => Some((ExprView::Atom(AtomView::Text(text)), 1)),
            TokenView::Sym(sym) => if sym == Sym::LParen {
                group_at(tokens, pos)
            } else if sym == Sym::LBracket {
                list_at(tokens, pos)
            } else {
                None
            },
            TokenView::Ident(word) => if word == "true"@ {
                Some((ExprView::Atom(AtomView::Bool(true)), 1))
            } else if word == "false"@ {
                Some((ExprView::Atom(AtomView::Bool(false)), 1))
            } else if word == "void"@ {
                Some((ExprView::Atom(AtomView::Void), 1))
            } else if builtin_of(word) is Some && sym_at(tokens, pos + 1, Sym::LParen) {
                call_at(tokens, pos)
            } else if sym_at(tokens, pos + 1, Sym::LBrace) {
                struct_init_at(tokens, pos)
            } else {
                Some(lvalue_at(tokens, pos, word))
            },
        }
    }
}

/// An expression between `(` and `)`.
pub open spec fn group_at(tokens: Seq<TokenView>, pos: int) -> Option<(ExprView, nat)>
    decreases tokens.len() - pos, 0nat,
{
    if sym_at(tokens, pos, Sym::LParen) {
        match expr_at(tokens, pos + 1) {
            Some((inner, n)) => if sym_at(tokens, pos + 1 + n, Sym::RParen) {
                Some((inner, n + 2))
            } else {
                None
            },
            None => None,
        }
    } else {
        None
    }
}

/// A list: `[`, expressions separated by `,` or none, `]`.
pub open spec fn list_at(tokens: Seq<TokenView>, pos: int) -> Option<(ExprView, nat)>
    decreases tokens.len() - pos, 0nat,
{
    if !sym_at(tokens, pos, Sym::LBracket) {
        None
    } else if sym_at(tokens, pos + 1, Sym::RBracket) {
        Some((ExprView::ListInit(Seq::empty()), 2))
    } else {
        match exprs_from(tokens, pos + 1, Seq::empty()) {
            Some((items, n)) => if sym_at(tokens, pos + 1 + n, Sym::RBracket) {
                Some((ExprView::ListInit(items), n + 2))
            } else {
                None
            },
            None => None,
        }
    }
}

/// A call: the name of a builtin, `(`, arguments separated by `,` or none,
/// `)`.
pub open spec fn call_at(tokens: Seq<TokenView>, pos: int) -> Option<(ExprView, nat)>
    decreases tokens.len() - pos, 0nat,
{
    match ident_at(tokens, pos) {
        Some(word) => match builtin_of(word) {
            Some(which) => if !sym_at(tokens, pos + 1, Sym::LParen) {
                None
            } else if sym_at(tokens, pos + 2, Sym::RParen) {
                Some((ExprView::Call(which, Seq::empty()), 3))
            } else {
                match exprs_from(tokens, pos + 2, Seq::empty()) {
                    Some((args, n)) => if sym_at(tokens, pos + 2 + n, Sym::RParen) {
                        Some((ExprView::Call(which, args), n + 3))
                    } else {
                        None
                    },
                    None => None,
                }
            },
            None => None,
        },
        None => None,
    }
}

/// A struct initialization: the name of a shape, `{`, field initializers
/// separated by `,` or none, `}`.
pub open spec fn struct_init_at(tokens: Seq<TokenView>, pos: int) -> Option<(ExprView, nat)>
    decreases tokens.len() - pos, 0nat,
{
    match ident_at(tokens, pos) {
        Some(word) => if !sym_at(tokens, pos + 1, Sym::LBrace) {
            None
        } else if sym_at(tokens, pos + 2, Sym::RBrace) {
            Some((ExprView::StructInit(word, Seq::empty()), 3))
        } else {
            match inits_from(tokens, pos + 2, Seq::empty()) {
                Some((fields, n)) => if sym_at(tokens, pos + 2 + n, Sym::RBrace) {
                    Some((ExprView::StructInit(word, fields), n + 3))
                } else {
                    None
                },
                None => None,
            }
        },
        None => None,
    }
}

/// A left-value that starts with `word` at `pos`: the word alone, or a path
/// of the word and the segments `.name` that follow it.
pub open spec fn lvalue_at(tokens: Seq<TokenView>, pos: int, word: Seq<char>) -> (ExprView, nat) {
    let path = path_from(tokens, pos + 1, seq![word]);
    if path.1 == 0 {
        (ExprView::LValue(LValueView::Ident(word)), 1)
    } else {
        (ExprView::LValue(LValueView::Access(path.0)), path.1 + 1)
    }
}

/// Expressions separated by `,`, from `pos` on, added to `done`.
pub open spec fn exprs_from(tokens: Seq<TokenView>, pos: int, done: Seq<ExprView>) -> Option<
    (Seq<ExprView>, nat),
>
    decreases tokens.len() - pos, 6nat,
{
    match expr_at(tokens, pos) {
        Some((item, n)) => if sym_at(tokens, pos + n, Sym::Comma) {
            shifted(exprs_from(tokens, pos + n + 1, done.push(item)), n + 1)
        } else {
            Some((done.push(item), n))
        },
        None => None,
    }
}

/// Field initializers `name: expression`, separated by `,`, from `pos` on,
/// added to `done`.
pub open spec fn inits_from(
    tokens: Seq<TokenView>,
    pos: int,
    done: Seq<(Seq<char>, ExprView)>,
) -> Option<(Seq<(Seq<char>, ExprView)>, nat)>
    decreases tokens.len() - pos, 6nat,
{
    match ident_at(tokens, pos) {
        Some(name) => if sym_at(tokens, pos + 1, Sym::Colon) {
            match expr_at(tokens, pos + 2) {
                Some((value, n)) => if sym_at(tokens, pos + 2 + n, Sym::Comma) {
                    shifted(inits_from(tokens, pos + 3 + n, done.push((name, value))), n + 3)
                } else {
                    Some((done.push((name, value)), n + 2))
                },
                None => None,
            }
        } else {
            None
        },
        None => None,
    }
}

fn operator(tokens: &Vec<Token>, pos: usize) -> (found: Option<(BinOp, u8)>)
    ensures
        match found {
            Some((op, prec)) => op_at(tokens.deep_view(), pos as int) == Some((op, prec as nat))
                && prec <= 10 && pos < tokens.len(),
            None => op_at(tokens.deep_view(), pos as int) is None,
        },
{
    if pos >= tokens.len() {
        return None;
    }
    assert(tokens.deep_view()[pos as int] == tokens[pos as int].deep_view());
    match &tokens[pos] {
        Token::Sym(sym) => match sym {
            Sym::OrOr => Some((BinOp::Or, 1)),
            Sym::AndAnd => Some((BinOp::And, 2)),
            Sym::Pipe => Some((BinOp::BitOr, 3)),
            Sym::Caret => Some((BinOp::Xor, 4)),
            Sym::Amp => Some((BinOp::BitAnd, 5)),
            Sym::EqEq => Some((BinOp::Eq, 6)),
            Sym::Neq => Some((BinOp::Neq, 6)),
            Sym::Lt => Some((BinOp::Lt, 7)),
            Sym::Leq => Some((BinOp::Leq, 7)),
            Sym::Gt => Some((BinOp::Gt, 7)),
            Sym::Geq => Some((BinOp::Geq, 7)),
            Sym::Shl => Some((BinOp::Shl, 8)),
            Sym::Shr => Some((BinOp::Shr, 8)),
            Sym::Plus => Some((BinOp::Add, 9)),
            Sym::Minus => Some((BinOp::Sub, 9)),
            Sym::Star => Some((BinOp::Mul, 10)),
            Sym::Slash => Some((BinOp::Div, 10)),
            Sym::Percent => Some((BinOp::Mod, 10)),
            _ => None,
        },
        _ => None,
    }
}

fn unary_operator(tokens: &Vec<Token>, pos: usize) -> (found: Option<UnOp>)
    ensures
        found == un_at(tokens.deep_view(), pos as int),
        found is Some ==> pos < tokens.len(),
{
    if pos >= tokens.len() {
        return None;
    }
    assert(tokens.deep_view()[pos as int] == tokens[pos as int].deep_view());
    match &tokens[pos] {
        Token::Sym(sym) => match sym {
            Sym::Plus => Some(UnOp::Pos),
            Sym::Minus => Some(UnOp::Neg),
            Sym::Bang => Some(UnOp::Not),
            Sym::Tilde => Some(UnOp::BitNot),
            _ => None,
        },
        _ => None,
    }
}

fn builtin(word: &str) -> (found: Option<BuiltIn>)
    ensures
        found == builtin_of(word@),
{
    if same_text(word, "clone") {
        Some(BuiltIn::Clone)
    } else if same_text(word, "spawn") {
        Some(BuiltIn::Spawn)
    } else if same_text(word, "delete") {
        Some(BuiltIn::Delete)
    } else if same_text(word, "print") {
        Some(BuiltIn::Print)
    } else {
        None
    }
}

/// Parses an expression.
pub fn parse_expr(tokens: &Vec<Token>, pos: usize) -> (out: Result<(Expr, usize), ParseError>)
    ensures
        match out {
            Ok((expr, next)) => pos <= next <= tokens.len() && expr_at(
                tokens.deep_view(),
                pos as int,
            ) == Some((expr.deep_view(), (next - pos) as nat)),
            Err(e) => expr_at(tokens.deep_view(), pos as int) is None && e is Syntax,
        },
    decreases tokens.len() - pos, 5nat,
{
    let (head, next) = match parse_binary(tokens, pos, 1) {
        Ok(found) => found,
        Err(e) => {
            return Err(e);
        },
    };
    if is_sym(tokens, next, Sym::Question) {
        let (first, after_first) = match parse_expr(tokens, next + 1) {
            Ok(found) => found,
            Err(e) => {
                return Err(e);
            },
        };
        if !is_sym(tokens, after_first, Sym::Colon) {
            return Err(ParseError::Syntax(after_first));
        }
        match parse_expr(tokens, after_first + 1) {
            Ok((second, end)) => {
                let tern = Expr::Ternary(
                    Box::new(Ternary { cond: head, branch1: first, branch2: second }),
                );
                proof {
                    lemma_expr_view(tern);
                }
                Ok((tern, end))
            },
            Err(e) => Err(e),
        }
    } else if is_sym(tokens, next, Sym::Assign) {
        proof {
            lemma_expr_view(head);
        }
        match head {
            Expr::LValue(lvalue) => match parse_expr(tokens, next + 1) {
                Ok((rhs, end)) => {
                    let assign = Expr::Assign(Box::new(Assign { lvalue, expr: rhs }));
                    proof {
                        lemma_expr_view(assign);
                    }
                    Ok((assign, end))
                },
                Err(e) => Err(e),
            },
            other => Ok((other, next)),
        }
    } else {
        Ok((head, next))
    }
}

/// Parses a binary expression whose operators bind at least as tightly as
/// `min`.
pub fn parse_binary(tokens: &Vec<Token>, pos: usize, min: u8) -> (out: Result<
    (Expr, usize),
    ParseError,
>)
    ensures
        match out {
            Ok((expr, next)) => pos <= next <= tokens.len() && binary_at(
                tokens.deep_view(),
                pos as int,
                min as nat,
            ) == Some((expr.deep_view(), (next - pos) as nat)),
            Err(e) => binary_at(tokens.deep_view(), pos as int, min as nat) is None && e is Syntax,
        },
    decreases tokens.len() - pos, 4nat,
{
    let ghost toks = tokens.deep_view();
    let (first, after) = match parse_unary(tokens, pos) {
        Ok(found) => found,
        Err(e) => {
            return Err(e);
        },
    };
    let mut left = first;
    let mut cur = after;
    loop
        invariant
            pos <= cur <= tokens.len(),
            toks == tokens.deep_view(),
            binary_at(toks, pos as int, min as nat) == (if op_at(toks, cur as int) is Some {
                shifted(
                    binary_tail(toks, left.deep_view(), cur as int, min as nat),
                    (cur - pos) as nat,
                )
            } else {
                Some((left.deep_view(), (cur - pos) as nat))
            }),
        decreases tokens.len() - cur,
    {
        let (op, prec) = match operator(tokens, cur) {
            Some(found) => found,
            None => {
                return Ok((left, cur));
            },
        };
        if prec < min {
            return Ok((left, cur));
        }
        let (right, next) = match parse_binary(tokens, cur + 1, prec + 1) {
            Ok(found) => found,
            Err(e) => {
                return Err(e);
            },
        };
        left = Expr::BinExpr(Box::new(BinExpr { left, op, right }));
        proof {
            lemma_expr_view(left);
        }
        cur = next;
    }
}

/// Parses a unary expression.
pub fn parse_unary(tokens: &Vec<Token>, pos: usize) -> (out: Result<(Expr, usize), ParseError>)
    ensures
        match out {
            Ok((expr, next)) => pos <= next <= tokens.len() && unary_at(
                tokens.deep_view(),
                pos as int,
            ) == Some((expr.deep_view(), (next - pos) as nat)),
            Err(e) => unary_at(tokens.deep_view(), pos as int) is None && e is Syntax,
        },
    decreases tokens.len() - pos, 2nat,
{
    match unary_operator(tokens, pos) {
        Some(op) => match parse_unary(tokens, pos + 1) {
            Ok((operand, next)) => {
                let un = Expr::UnExpr(Box::new(UnExpr { expr: operand, op }));
                proof {
                    lemma_expr_view(un);
                }
                Ok((un, next))
            },
            Err(e) => Err(e),
        },
        None => parse_primary(tokens, pos),
    }
}

fn parse_path(tokens: &Vec<Token>, pos: usize, first: String) -> (out: (Vec<String>, usize))
    requires
        pos <= tokens.len(),
    ensures
        pos <= out.1 <= tokens.len(),
        path_from(tokens.deep_view(), pos as int, seq![first@]) == (
            out.0.deep_view(),
            (out.1 - pos) as nat,
        ),
{
    let ghost toks = tokens.deep_view();
    let mut path: Vec<String> = Vec::new();
    path.push(first);
    assert(path.deep_view() =~= seq![first@]);
    let mut cur = pos;
    loop
        invariant
            pos <= cur <= tokens.len(),
            toks == tokens.deep_view(),
            path_from(toks, pos as int, seq![first@]) == (
                path_from(toks, cur as int, path.deep_view()).0,
                path_from(toks, cur as int, path.deep_view()).1 + (cur - pos) as nat,
            ),
        decreases tokens.len() - cur,
    {
        if !is_sym(tokens, cur, Sym::Dot) {
            return (path, cur);
        }
        match ident(tokens, cur + 1) {
            Some(word) => {
                let ghost done = path.deep_view();
                path.push(word.clone());
                assert(path.deep_view() =~= done.push(word@));
                cur = cur + 2;
            },
            None => {
                return (path, cur);
            },
        }
    }
}

fn parse_exprs(tokens: &Vec<Token>, pos: usize) -> (out: Result<(Vec<Expr>, usize), ParseError>)
    requires
        pos <= tokens.len(),
    ensures
        match out {
            Ok((items, next)) => pos <= next <= tokens.len() && exprs_from(
                tokens.deep_view(),
                pos as int,
                Seq::empty(),
            ) == Some((items.deep_view(), (next - pos) as nat)),
            Err(e) => exprs_from(tokens.deep_view(), pos as int, Seq::empty()) is None
                && e is Syntax,
        },
    decreases tokens.len() - pos, 6nat,
{
    let ghost toks = tokens.deep_view();
    let mut items: Vec<Expr> = Vec::new();
    assert(items.deep_view() =~= Seq::<ExprView>::empty());
    let mut cur = pos;
    loop
        invariant
            pos <= cur <= tokens.len(),
            toks == tokens.deep_view(),
            shifted(exprs_from(toks, cur as int, items.deep_view()), (cur - pos) as nat)
                == exprs_from(toks, pos as int, Seq::empty()),
        decreases tokens.len() - cur,
    {
        let (item, next) = match parse_expr(tokens, cur) {
            Ok(found) => found,
            Err(e) => {
                return Err(e);
            },
        };
        let ghost done = items.deep_view();
        items.push(item);
        assert(items.deep_view() =~= done.push(item.deep_view()));
        if is_sym(tokens, next, Sym::Comma) {
            cur = next + 1;
        } else {
            return Ok((items, next));
        }
    }
}

fn parse_inits(tokens: &Vec<Token>, pos: usize) -> (out: Result<
    (Vec<(String, Expr)>, usize),
    ParseError,
>)
    requires
        pos <= tokens.len(),
    ensures
        match out {
            Ok((fields, next)) => pos <= next <= tokens.len() && inits_from(
                tokens.deep_view(),
                pos as int,
                Seq::empty(),
            ) == Some((fields.deep_view(), (next - pos) as nat)),
            Err(e) => inits_from(tokens.deep_view(), pos as int, Seq::empty()) is None
                && e is Syntax,
        },
    decreases tokens.len() - pos, 6nat,
{
    let ghost toks = tokens.deep_view();
    let mut fields: Vec<(String, Expr)> = Vec::new();
    assert(fields.deep_view() =~= Seq::<(Seq<char>, ExprView)>::empty());
    let mut cur = pos;
    loop
        invariant
            pos <= cur <= tokens.len(),
            toks == tokens.deep_view(),
            shifted(inits_from(toks, cur as int, fields.deep_view()), (cur - pos) as nat)
                == inits_from(toks, pos as int, Seq::empty()),
        decreases tokens.len() - cur,
    {
        let name = match ident(tokens, cur) {
            Some(name) => name.clone(),
            None => {
                return Err(ParseError::Syntax(cur));
            },
        };
        if !is_sym(tokens, cur + 1, Sym::Colon) {
            return Err(ParseError::Syntax(cur + 1));
        }
        let (value, next) = match parse_expr(tokens, cur + 2) {
            Ok(found) => found,
            Err(e) => {
                return Err(e);
            },
        };
        let ghost done = fields.deep_view();
        fields.push((name, value));
        assert(fields.deep_view() =~= done.push((name@, value.deep_view())));
        if is_sym(tokens, next, Sym::Comma) {
            cur = next + 1;
        } else {
            return Ok((fields, next));
        }
    }
}

fn atom(value: Atom) -> (expr: Expr)
    ensures
        expr.deep_view() == ExprView::Atom(value.deep_view()),
{
    let expr = Expr::Atom(value);
    proof {
        lemma_expr_view(expr);
    }
    expr
}

/// Parses a primary expression.
pub fn parse_primary(tokens: &Vec<Token>, pos: usize) -> (out: Result<(Expr, usize), ParseError>)
    ensures
        match out {
            Ok((expr, next)) => pos <= next <= tokens.len() && primary_at(
                tokens.deep_view(),
                pos as int,
            ) == Some((expr.deep_view(), (next - pos) as nat)),
            Err(e) => primary_at(tokens.deep_view(), pos as int) is None && e is Syntax,
        },
    decreases tokens.len() - pos, 1nat,
{
    if pos >= tokens.len() {
        return Err(ParseError::Syntax(pos));
    }
    assert(tokens.deep_view()[pos as int] == tokens[pos as int].deep_view());
    match &tokens[pos] {
        Token::Int(i) => Ok((atom(Atom::Int(*i)), pos + 1)),
        Token::Float(text) => Ok((atom(Atom::Float(text.clone())), pos + 1)),
        Token::Char(c) => Ok((atom(Atom::Char(*c)), pos + 1)),
        Token::Text(text) => Ok((atom(Atom::String(text.clone())), pos + 1)),
        Token::Sym(sym) => {
            if *sym == Sym::LParen {
                parse_group(tokens, pos)
            } else if *sym == Sym::LBracket {
                parse_list(tokens, pos)
            } else {
                Err(ParseError::Syntax(pos))
            }
        },
        Token::Ident(word) => {
            let text = word.as_str();
            if same_text(text, "true") {
                Ok((atom(Atom::Bool(true)), pos + 1))
            } else if same_text(text, "false") {
                Ok((atom(Atom::Bool(false)), pos + 1))
            } else if same_text(text, "void") {
                Ok((atom(Atom::Void), pos + 1))
            } else if builtin(text).is_some() && is_sym(tokens, pos + 1, Sym::LParen) {
                parse_call(tokens, pos)
            } else if is_sym(tokens, pos + 1, Sym::LBrace) {
                parse_struct_init(tokens, pos)
            } else {
                Ok(parse_lvalue(tokens, pos, word))
            }
        },
    }
}

/// Parses an expression between parentheses.
pub fn parse_group(tokens: &Vec<Token>, pos: usize) -> (out: Result<(Expr, usize), ParseError>)
    ensures
        match out {
            Ok((expr, next)) => pos <= next <= tokens.len() && group_at(
                tokens.deep_view(),
                pos as int,
            ) == Some((expr.deep_view(), (next - pos) as nat)),
            Err(e) => group_at(tokens.deep_view(), pos as int) is None && e is Syntax,
        },
    decreases tokens.len() - pos, 0nat,
{
    if !is_sym(tokens, pos, Sym::LParen) {
        return Err(ParseError::Syntax(pos));
    }
    match parse_expr(tokens, pos + 1) {
        Ok((inner, next)) => {
            if is_sym(tokens, next, Sym::RParen) {
                Ok((inner, next + 1))
            } else {
                Err(ParseError::Syntax(next))
            }
        },
        Err(e) => Err(e),
    }
}

/// Parses a list initialization.
pub fn parse_list(tokens: &Vec<Token>, pos: usize) -> (out: Result<(Expr, usize), ParseError>)
    ensures
        match out {
            Ok((expr, next)) => pos <= next <= tokens.len() && list_at(
                tokens.deep_view(),
                pos as int,
            ) == Some((expr.deep_view(), (next - pos) as nat)),
            Err(e) => list_at(tokens.deep_view(), pos as int) is None && e is Syntax,
        },
    decreases tokens.len() - pos, 0nat,
{
    if !is_sym(tokens, pos, Sym::LBracket) {
        return Err(ParseError::Syntax(pos));
    }
    if is_sym(tokens, pos + 1, Sym::RBracket) {
        let list = Expr::ListInit(ListInit { exprs: Vec::new() });
        proof {
            lemma_expr_view(list);
            assert(list->ListInit_0.exprs.deep_view() =~= Seq::<ExprView>::empty());
        }
        return Ok((list, pos + 2));
    }
    match parse_exprs(tokens, pos + 1) {
        Ok((exprs, next)) => {
            if is_sym(tokens, next, Sym::RBracket) {
                let list = Expr::ListInit(ListInit { exprs });
                proof {
                    lemma_expr_view(list);
                }
                Ok((list, next + 1))
            } else {
                Err(ParseError::Syntax(next))
            }
        },
        Err(e) => Err(e),
    }
}

/// Parses a call of a builtin.
pub fn parse_call(tokens: &Vec<Token>, pos: usize) -> (out: Result<(Expr, usize), ParseError>)
    ensures
        match out {
            Ok((expr, next)) => pos <= next <= tokens.len() && call_at(
                tokens.deep_view(),
                pos as int,
            ) == Some((expr.deep_view(), (next - pos) as nat)),
            Err(e) => call_at(tokens.deep_view(), pos as int) is None && e is Syntax,
        },
    decreases tokens.len() - pos, 0nat,
{
    let which = match ident(tokens, pos) {
        Some(word) => match builtin(word.as_str()) {
            Some(which) => which,
            None => {
                return Err(ParseError::Syntax(pos));
            },
        },
        None => {
            return Err(ParseError::Syntax(pos));
        },
    };
    if !is_sym(tokens, pos + 1, Sym::LParen) {
        return Err(ParseError::Syntax(pos + 1));
    }
    if is_sym(tokens, pos + 2, Sym::RParen) {
        let call = Expr::Call(Box::new(Call { builtin: which, args: Vec::new() }));
        proof {
            lemma_expr_view(call);
            assert(call->Call_0.args.deep_view() =~= Seq::<ExprView>::empty());
        }
        return Ok((call, pos + 3));
    }
    match parse_exprs(tokens, pos + 2) {
        Ok((args, next)) => {
            if is_sym(tokens, next, Sym::RParen) {
                let call = Expr::Call(Box::new(Call { builtin: which, args }));
                proof {
                    lemma_expr_view(call);
                }
                Ok((call, next + 1))
            } else {
                Err(ParseError::Syntax(next))
            }
        },
        Err(e) => Err(e),
    }
}

/// Parses a struct initialization.
pub fn parse_struct_init(tokens: &Vec<Token>, pos: usize) -> (out: Result<
    (Expr, usize),
    ParseError,
>)
    ensures
        match out {
            Ok((expr, next)) => pos <= next <= tokens.len() && struct_init_at(
                tokens.deep_view(),
                pos as int,
            ) == Some((expr.deep_view(), (next - pos) as nat)),
            Err(e) => struct_init_at(tokens.deep_view(), pos as int) is None && e is Syntax,
        },
    decreases tokens.len() - pos, 0nat,
{
    let name = match ident(tokens, pos) {
        Some(word) => word.clone(),
        None => {
            return Err(ParseError::Syntax(pos));
        },
    };
    if !is_sym(tokens, pos + 1, Sym::LBrace) {
        return Err(ParseError::Syntax(pos + 1));
    }
    if is_sym(tokens, pos + 2, Sym::RBrace) {
        let init = Expr::StructInit(StructInit { name, fields: Vec::new() });
        proof {
            lemma_expr_view(init);
            assert(init->StructInit_0.fields.deep_view() =~= Seq::<
                (Seq<char>, ExprView),
            >::empty());
        }
        return Ok((init, pos + 3));
    }
    match parse_inits(tokens, pos + 2) {
        Ok((fields, next)) => {
            if is_sym(tokens, next, Sym::RBrace) {
                let init = Expr::StructInit(StructInit { name, fields });
                proof {
                    lemma_expr_view(init);
                }
                Ok((init, next + 1))
            } else {
                Err(ParseError::Syntax(next))
            }
        },
        Err(e) => Err(e),
    }
}

fn parse_lvalue(tokens: &Vec<Token>, pos: usize, word: &String) -> (out: (Expr, usize))
    requires
        pos < tokens.len(),
    ensures
        pos <= out.1 <= tokens.len(),
        lvalue_at(tokens.deep_view(), pos as int, word@) == (
            out.0.deep_view(),
            (out.1 - pos) as nat,
        ),
{
    let (path, next) = parse_path(tokens, pos + 1, word.clone());
    let lvalue = if next == pos + 1 {
        Expr::LValue(LValue::Ident(word.clone()))
    } else {
        Expr::LValue(LValue::Access(path))
    };
    proof {
        lemma_expr_view(lvalue);
    }
    (lvalue, next)
}

} // verus!

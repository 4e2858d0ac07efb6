//! What holds between the textual form of values and the grammar.

use crate::ast::expressions::{Atom, AtomView, Expr, ExprView, UnExpr, UnOp};
use crate::eval::context::{Outcome, State};
use crate::eval::error::EvalError;
use crate::eval::operators::un_op;
use crate::eval::render::{digit, display, nat_text};
use crate::eval::semantics::{eval, unary};
use crate::eval::value::{ObjectView, Value};
use crate::parser::expressions::{binary_at, expr_at, op_at, primary_at, un_at, unary_at};
use crate::parser::lexer::{
    decimal_value, digit_value, in_class, is_digit, is_letter, lex, lex_from, run_len, token_at,
    CharClass, Sym, TokenView,
};
use vstd::prelude::*;

verus! {

/// The decimal spelling of a number is made of digits and spells that
/// number.
pub proof fn lemma_nat_text_reads_back(n: nat)
    ensures
        nat_text(n).len() >= 1,
        forall|k: int| 0 <= k < nat_text(n).len() ==> is_digit(#[trigger] nat_text(n)[k]),
        decimal_value(nat_text(n)) == n,
    decreases n,
{
    if n < 10 {
        let text = nat_text(n);
        assert(text.len() == 1);
        assert(text.last() == digit(n));
        assert(text.drop_last() =~= Seq::<char>::empty());
        assert(decimal_value(text.drop_last()) == 0);
        assert(digit_value(digit(n)) == n);
    } else {
        lemma_nat_text_reads_back(n / 10);
        let head = nat_text(n / 10);
        let text = nat_text(n);
        assert(text == head.push(digit(n % 10)));
        assert(text.drop_last() =~= head);
        assert(text.last() == digit(n % 10));
        assert(digit_value(digit(n % 10)) == n % 10);
        assert forall|k: int| 0 <= k < text.len() implies is_digit(#[trigger] text[k]) by {
            if k < head.len() {
                assert(text[k] == head[k]);
            }
        }
    }
}

/// Where every character from `pos` on is of a class, the run from `pos`
/// goes to the end.
pub proof fn lemma_run_to_the_end(text: Seq<char>, pos: int, class: CharClass)
    requires
        0 <= pos <= text.len(),
        forall|k: int| pos <= k < text.len() ==> in_class(class, #[trigger] text[k]),
    ensures
        run_len(text, pos, class) == text.len() - pos,
    decreases text.len() - pos,
{
    if pos < text.len() {
        lemma_run_to_the_end(text, pos + 1, class);
    }
}

/// A single token that is a literal is the expression of that literal.
proof fn lemma_single_literal(token: TokenView, atom: AtomView)
    requires
        primary_at(seq![token], 0) == Some((ExprView::Atom(atom), 1nat)),
    ensures
        expr_at(seq![token], 0) == Some((ExprView::Atom(atom), 1nat)),
{
    let tokens = seq![token];
    assert(tokens.len() == 1);
    assert(tokens[0] == token);
    assert(un_at(tokens, 0) is None) by {
        if token is Sym {
            assert(primary_at(tokens, 0) is None || !(primary_at(tokens, 0)->Some_0.0 is Atom));
        }
    }
    assert(unary_at(tokens, 0) == primary_at(tokens, 0));
    assert(op_at(tokens, 1) is None);
    assert(binary_at(tokens, 0, 1) == primary_at(tokens, 0));
}

/// The textual form of an integer that is not negative is one token, and
/// that token is the literal of the integer: what `print` writes for it
/// reads back as the same value.
pub proof fn law_integer_prints_as_its_literal(heap: Seq<ObjectView>, i: i64)
    requires
        i >= 0,
    ensures
        lex(display(heap, Value::Int(i))) == Some(seq![TokenView::Int(i)]),
        expr_at(seq![TokenView::Int(i)], 0) == Some((ExprView::Atom(AtomView::Int(i)), 1nat)),
{
    let text = display(heap, Value::Int(i));
    assert(text == nat_text(i as nat));
    lemma_nat_text_reads_back(i as nat);
    assert(is_digit(text[0]));
    assert(run_len(text, 0, CharClass::Space) == 0);
    assert forall|k: int| 1 <= k < text.len() implies in_class(
        CharClass::Digit,
        #[trigger] text[k],
    ) by {
        assert(is_digit(text[k]));
    }
    lemma_run_to_the_end(text, 1, CharClass::Digit);
    assert(text.subrange(0, text.len() as int) =~= text);
    assert(token_at(text, 0) == Some((TokenView::Int(i), text.len())));
    let done = Seq::<TokenView>::empty().push(TokenView::Int(i));
    assert(done =~= seq![TokenView::Int(i)]);
    assert(lex_from(text, text.len() as int, done) == Some(done));
    assert(lex_from(text, 0, Seq::empty()) == Some(done));
    let tokens = seq![TokenView::Int(i)];
    assert(tokens[0] == TokenView::Int(i));
    lemma_single_literal(TokenView::Int(i), AtomView::Int(i));
}

/// The textual form of a negative integer other than the smallest is `-`
/// and the literal of its magnitude, which is the negation of that literal,
/// and the negation evaluates to the integer: what `print` writes for it
/// reads back as an expression of the same value.
pub proof fn law_negative_integer_prints_as_a_negation(s: State, i: i64)
    requires
        i64::MIN < i < 0,
    ensures
        lex(display(s.heap, Value::Int(i))) == Some(
            seq![TokenView::Sym(Sym::Minus), TokenView::Int((-i) as i64)],
        ),
        expr_at(seq![TokenView::Sym(Sym::Minus), TokenView::Int((-i) as i64)], 0) == Some(
            (
                ExprView::UnExpr(UnOp::Neg, Box::new(ExprView::Atom(AtomView::Int((-i) as i64)))),
                2nat,
            ),
        ),
        eval(
            s,
            Expr::UnExpr(
                Box::new(UnExpr { expr: Expr::Atom(Atom::Int((-i) as i64)), op: UnOp::Neg }),
            ),
        ).result == Ok::<Value, EvalError>(Value::Int(i)),
        eval(
            s,
            Expr::UnExpr(
                Box::new(UnExpr { expr: Expr::Atom(Atom::Int((-i) as i64)), op: UnOp::Neg }),
            ),
        ).state == s,
{
    let m = (-i) as i64;
    let text = display(s.heap, Value::Int(i));
    let digits = nat_text(m as nat);
    assert(text == seq!['-'] + digits);
    lemma_nat_text_reads_back(m as nat);
    assert(text[0] == '-');
    assert forall|k: int| 1 <= k < text.len() implies is_digit(#[trigger] text[k]) by {
        assert(text[k] == digits[k - 1]);
    }
    assert(run_len(text, 0, CharClass::Space) == 0);
    assert(token_at(text, 0) == Some((TokenView::Sym(Sym::Minus), 1nat))) by {
        assert(text.len() >= 2);
        assert(is_digit(text[1]));
    }
    let first = Seq::<TokenView>::empty().push(TokenView::Sym(Sym::Minus));
    assert(run_len(text, 1, CharClass::Space) == 0) by {
        assert(is_digit(text[1]));
    }
    assert forall|k: int| 2 <= k < text.len() implies in_class(
        CharClass::Digit,
        #[trigger] text[k],
    ) by {
        assert(is_digit(text[k]));
    }
    lemma_run_to_the_end(text, 2, CharClass::Digit);
    assert(text.subrange(1, text.len() as int) =~= digits);
    assert(token_at(text, 1) == Some((TokenView::Int(m), (text.len() - 1) as nat))) by {
        assert(is_digit(text[1]));
    }
    let both = first.push(TokenView::Int(m));
    assert(both =~= seq![TokenView::Sym(Sym::Minus), TokenView::Int(m)]);
    assert(lex_from(text, text.len() as int, both) == Some(both));
    assert(lex_from(text, 1, first) == Some(both));
    assert(lex_from(text, 0, Seq::empty()) == Some(both));
    let tokens = seq![TokenView::Sym(Sym::Minus), TokenView::Int(m)];
    assert(tokens.len() == 2);
    assert(tokens[0] == TokenView::Sym(Sym::Minus));
    assert(tokens[1] == TokenView::Int(m));
    assert(un_at(tokens, 0) == Some(UnOp::Neg));
    assert(un_at(tokens, 1) is None);
    assert(primary_at(tokens, 1) == Some((ExprView::Atom(AtomView::Int(m)), 1nat)));
    assert(unary_at(tokens, 1) == primary_at(tokens, 1));
    assert(unary_at(tokens, 0) == Some(
        (ExprView::UnExpr(UnOp::Neg, Box::new(ExprView::Atom(AtomView::Int(m)))), 2nat),
    ));
    assert(op_at(tokens, 2) is None);
    assert(binary_at(tokens, 0, 1) == unary_at(tokens, 0));
    let operand = Expr::Atom(Atom::Int(m));
    let negation = UnExpr { expr: operand, op: UnOp::Neg };
    assert(eval(s, operand) == (Outcome { state: s, result: Ok(Value::Int(m)) }));
    assert(un_op(UnOp::Neg, Value::Int(m)) == Ok::<Value, EvalError>(Value::Int(i)));
    assert(unary(s, negation) == (Outcome { state: s, result: Ok(Value::Int(i)) }));
    assert(eval(s, Expr::UnExpr(Box::new(negation))) == unary(s, negation));
}

/// A text that is made of letters is one token, a word.
pub proof fn lemma_word_is_one_token(text: Seq<char>)
    requires
        text.len() >= 1,
        forall|k: int| 0 <= k < text.len() ==> is_letter(#[trigger] text[k]),
    ensures
        lex(text) == Some(seq![TokenView::Ident(text)]),
{
    assert(is_letter(text[0]));
    assert(run_len(text, 0, CharClass::Space) == 0);
    assert forall|k: int| 1 <= k < text.len() implies in_class(
        CharClass::Word,
        #[trigger] text[k],
    ) by {
        assert(is_letter(text[k]));
    }
    lemma_run_to_the_end(text, 1, CharClass::Word);
    assert(text.subrange(0, text.len() as int) =~= text);
    assert(token_at(text, 0) == Some((TokenView::Ident(text), text.len())));
    let done = Seq::<TokenView>::empty().push(TokenView::Ident(text));
    assert(done =~= seq![TokenView::Ident(text)]);
    assert(lex_from(text, text.len() as int, done) == Some(done));
    assert(lex_from(text, 0, Seq::empty()) == Some(done));
}

/// The textual forms of `true`, `false` and `void` are one word each, and
/// that word is the literal of the value: what `print` writes for it reads
/// back as the same value.
pub proof fn law_keyword_values_print_as_their_literals(heap: Seq<ObjectView>)
    ensures
        lex(display(heap, Value::Bool(true))) == Some(seq![TokenView::Ident("true"@)]),
        lex(display(heap, Value::Bool(false))) == Some(seq![TokenView::Ident("false"@)]),
        lex(display(heap, Value::Void)) == Some(seq![TokenView::Ident("void"@)]),
        expr_at(seq![TokenView::Ident("true"@)], 0) == Some(
            (ExprView::Atom(AtomView::Bool(true)), 1nat),
        ),
        expr_at(seq![TokenView::Ident("false"@)], 0) == Some(
            (ExprView::Atom(AtomView::Bool(false)), 1nat),
        ),
        expr_at(seq![TokenView::Ident("void"@)], 0) == Some((ExprView::Atom(AtomView::Void), 1nat)),
{
    reveal_strlit("true");
    reveal_strlit("false");
    reveal_strlit("void");
    lemma_word_is_one_token("true"@);
    lemma_word_is_one_token("false"@);
    lemma_word_is_one_token("void"@);
    assert("false"@ != "true"@) by {
        assert("false"@.len() != "true"@.len());
    }
    assert("void"@ != "true"@) by {
        assert("void"@[0] != "true"@[0]);
    }
    assert("void"@ != "false"@) by {
        assert("void"@.len() != "false"@.len());
    }
    assert(seq![TokenView::Ident("true"@)][0] == TokenView::Ident("true"@));
    assert(seq![TokenView::Ident("false"@)][0] == TokenView::Ident("false"@));
    assert(seq![TokenView::Ident("void"@)][0] == TokenView::Ident("void"@));
    lemma_single_literal(TokenView::Ident("true"@), AtomView::Bool(true));
    lemma_single_literal(TokenView::Ident("false"@), AtomView::Bool(false));
    lemma_single_literal(TokenView::Ident("void"@), AtomView::Void);
}

} // verus!

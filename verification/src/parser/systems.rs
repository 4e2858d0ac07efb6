//! The grammar of systems: their filters and their body.

use crate::ast::expressions::{Expr, ExprView};
use crate::ast::{Argument, ArgumentView, Filter, FilterView, Name, NameView, System, SystemView};
use crate::parser::cursor::{
    ident, ident_at, is_sym, is_word, shifted, sym_at, word_at, ParseError,
};
use crate::parser::expressions::{expr_at, parse_expr};
use crate::parser::lexer::{Sym, Token, TokenView};
use crate::parser::types::{parse_type, type_at};
use vstd::prelude::*;

verus! {

/// A formal argument: `const` or nothing, a type, a name.
pub open spec fn argument_at(tokens: Seq<TokenView>, pos: int) -> Option<(ArgumentView, nat)> {
    let c: nat = if word_at(tokens, pos, "const"@) {
        1
    } else {
        0
    };
    match type_at(tokens, pos + c) {
        Some((ty, n)) => match ident_at(tokens, pos + c + n) {
            Some(name) => Some((ArgumentView { is_const: c == 1, ty, name }, c + n + 1)),
            None => None,
        },
        None => None,
    }
}

/// Arguments separated by `,`, from `pos` on, added to `done`.
pub open spec fn arguments_from(tokens: Seq<TokenView>, pos: int, done: Seq<ArgumentView>) -> Option<
    (Seq<ArgumentView>, nat),
>
    decreases tokens.len() - pos,
{
    match argument_at(tokens, pos) {
        Some((arg, n)) => if sym_at(tokens, pos + n, Sym::Comma) {
            shifted(arguments_from(tokens, pos + n + 1, done.push(arg)), n + 1)
        } else {
            Some((done.push(arg), n))
        },
        None => None,
    }
}

/// An entity filter: a name, `(`, arguments separated by `,` or none, `)`.
pub open spec fn entity_filter_at(tokens: Seq<TokenView>, pos: int) -> Option<(FilterView, nat)> {
    match ident_at(tokens, pos) {
        Some(name) => if !sym_at(tokens, pos + 1, Sym::LParen) {
            None
        } else if sym_at(tokens, pos + 2, Sym::RParen) {
            Some((FilterView::Entity(name, Seq::empty()), 3))
        } else {
            match arguments_from(tokens, pos + 2, Seq::empty()) {
                Some((args, n)) => if sym_at(tokens, pos + 2 + n, Sym::RParen) {
                    Some((FilterView::Entity(name, args), n + 3))
                } else {
                    None
                },
                None => None,
            }
        },
        None => None,
    }
}

/// A filter: an entity filter where a name other than `const` is followed
/// by `(`, and else an argument, which stands for a resource.
pub open spec fn filter_at(tokens: Seq<TokenView>, pos: int) -> Option<(FilterView, nat)> {
    if ident_at(tokens, pos) is Some && !word_at(tokens, pos, "const"@) && sym_at(
        tokens,
        pos + 1,
        Sym::LParen,
    ) {
        entity_filter_at(tokens, pos)
    } else {
        match argument_at(tokens, pos) {
            Some((arg, n)) => Some((FilterView::Resource(arg), n)),
            None => None,
        }
    }
}

/// Filters separated by `,`, from `pos` on, added to `done`.
pub open spec fn filters_from(tokens: Seq<TokenView>, pos: int, done: Seq<FilterView>) -> Option<
    (Seq<FilterView>, nat),
>
    decreases tokens.len() - pos,
{
    match filter_at(tokens, pos) {
        Some((filter, n)) => if sym_at(tokens, pos + n, Sym::Comma) {
            shifted(filters_from(tokens, pos + n + 1, done.push(filter)), n + 1)
        } else {
            Some((done.push(filter), n))
        },
        None => None,
    }
}

/// The filters of a system: none where `)` stands at `pos`, and else
/// filters separated by `,`.
pub open spec fn filter_list_at(tokens: Seq<TokenView>, pos: int) -> Option<
    (Seq<FilterView>, nat),
> {
    if sym_at(tokens, pos, Sym::RParen) {
        Some((Seq::empty(), 0))
    } else {
        filters_from(tokens, pos, Seq::empty())
    }
}

/// The expressions of a body from `pos` on, each followed by `;`, up to and
/// with the closing `}`, added to `done`.
pub open spec fn block_from(tokens: Seq<TokenView>, pos: int, done: Seq<ExprView>) -> Option<
    (Seq<ExprView>, nat),
>
    decreases tokens.len() - pos,
{
    if sym_at(tokens, pos, Sym::RBrace) {
        Some((done, 1))
    } else {
        match expr_at(tokens, pos) {
            Some((expr, n)) => if sym_at(tokens, pos + n, Sym::Semi) {
                shifted(block_from(tokens, pos + n + 1, done.push(expr)), n + 1)
            } else {
                None
            },
            None => None,
        }
    }
}

/// A body: `{`, expressions that are each followed by `;`, `}`.
pub open spec fn block_at(tokens: Seq<TokenView>, pos: int) -> Option<(Seq<ExprView>, nat)> {
    if sym_at(tokens, pos, Sym::LBrace) {
        shifted(block_from(tokens, pos + 1, Seq::empty()), 1)
    } else {
        None
    }
}

/// A system, after its keyword: a name, `(`, filters, `)`, a body.
pub open spec fn system_at(tokens: Seq<TokenView>, pos: int) -> Option<
    ((Seq<char>, NameView), nat),
> {
    match ident_at(tokens, pos) {
        Some(name) => if sym_at(tokens, pos + 1, Sym::LParen) {
            match filter_list_at(tokens, pos + 2) {
                Some((filters, n)) => if sym_at(tokens, pos + 2 + n, Sym::RParen) {
                    match block_at(tokens, pos + 3 + n) {
                        Some((code, m)) => Some(
                            ((name, NameView::System(SystemView { filters, code })), n + m + 3),
                        ),
                        None => None,
                    }
                } else {
                    None
                },
                None => None,
            }
        } else {
            None
        },
        None => None,
    }
}

/// Parses a formal argument of a filter.
pub fn parse_argument(tokens: &Vec<Token>, pos: usize) -> (out: Result<
    (Argument, usize),
    ParseError,
>)
    ensures
        match out {
            Ok((value, next)) => pos <= next <= tokens.len() && argument_at(
                tokens.deep_view(),
                pos as int,
            ) == Some((value.deep_view(), (next - pos) as nat)),
            Err(e) => argument_at(tokens.deep_view(), pos as int) is None && e is Syntax,
        },
{
    let is_const = is_word(tokens, pos, "const");
    let start = if is_const {
        pos + 1
    } else {
        pos
    };
    let (ty, next) = match parse_type(tokens, start) {
        Ok(found) => found,
        Err(e) => {
            return Err(e);
        },
    };
    match ident(tokens, next) {
        Some(name) => Ok((Argument { is_const, ty, name: name.clone() }, next + 1)),
        None => Err(ParseError::Syntax(next)),
    }
}

/// Parses an entity filter.
pub fn parse_entity_filter(tokens: &Vec<Token>, pos: usize) -> (out: Result<
    (Filter, usize),
    ParseError,
>)
    ensures
        match out {
            Ok((value, next)) => pos <= next <= tokens.len() && entity_filter_at(
                tokens.deep_view(),
                pos as int,
            ) == Some((value.deep_view(), (next - pos) as nat)),
            Err(e) => entity_filter_at(tokens.deep_view(), pos as int) is None && e is Syntax,
        },
{
    let ghost toks = tokens.deep_view();
    let name = match ident(tokens, pos) {
        Some(name) => name.clone(),
        None => {
            return Err(ParseError::Syntax(pos));
        },
    };
    if !is_sym(tokens, pos + 1, Sym::LParen) {
        return Err(ParseError::Syntax(pos + 1));
    }
    let mut args: Vec<Argument> = Vec::new();
    assert(args.deep_view() =~= Seq::<ArgumentView>::empty());
    if is_sym(tokens, pos + 2, Sym::RParen) {
        return Ok((Filter::Entity(name, args), pos + 3));
    }
    let start = pos + 2;
    let mut cur = start;
    loop
        invariant
            start == pos + 2,
            start <= cur <= tokens.len(),
            toks == tokens.deep_view(),
            ident_at(toks, pos as int) == Some(name@),
            sym_at(toks, pos + 1, Sym::LParen),
            !sym_at(toks, pos + 2, Sym::RParen),
            shifted(arguments_from(toks, cur as int, args.deep_view()), (cur - start) as nat)
                == arguments_from(toks, start as int, Seq::empty()),
        decreases tokens.len() - cur,
    {
        let (arg, next) = match parse_argument(tokens, cur) {
            Ok(found) => found,
            Err(e) => {
                return Err(e);
            },
        };
        let ghost done = args.deep_view();
        args.push(arg);
        assert(args.deep_view() =~= done.push(arg.deep_view()));
        if is_sym(tokens, next, Sym::Comma) {
            cur = next + 1;
        } else if is_sym(tokens, next, Sym::RParen) {
            return Ok((Filter::Entity(name, args), next + 1));
        } else {
            return Err(ParseError::Syntax(next));
        }
    }
}

/// Parses a single filter.
pub fn parse_filter(tokens: &Vec<Token>, pos: usize) -> (out: Result<(Filter, usize), ParseError>)
    ensures
        match out {
            Ok((value, next)) => pos <= next <= tokens.len() && filter_at(
                tokens.deep_view(),
                pos as int,
            ) == Some((value.deep_view(), (next - pos) as nat)),
            Err(e) => filter_at(tokens.deep_view(), pos as int) is None && e is Syntax,
        },
{
    if ident(tokens, pos).is_some() && !is_word(tokens, pos, "const") && is_sym(
        tokens,
        pos + 1,
        Sym::LParen,
    ) {
        parse_entity_filter(tokens, pos)
    } else {
        match parse_argument(tokens, pos) {
            Ok((arg, next)) => Ok((Filter::Resource(arg), next)),
            Err(e) => Err(e),
        }
    }
}

/// Parses a list of filters.
pub fn parse_filter_list(tokens: &Vec<Token>, pos: usize) -> (out: Result<
    (Vec<Filter>, usize),
    ParseError,
>)
    requires
        pos <= tokens.len(),
    ensures
        match out {
            Ok((value, next)) => pos <= next <= tokens.len() && filter_list_at(
                tokens.deep_view(),
                pos as int,
            ) == Some((value.deep_view(), (next - pos) as nat)),
            Err(e) => filter_list_at(tokens.deep_view(), pos as int) is None && e is Syntax,
        },
{
    let ghost toks = tokens.deep_view();
    let mut filters: Vec<Filter> = Vec::new();
    assert(filters.deep_view() =~= Seq::<FilterView>::empty());
    if is_sym(tokens, pos, Sym::RParen) {
        return Ok((filters, pos));
    }
    let mut cur = pos;
    loop
        invariant
            pos <= cur <= tokens.len(),
            toks == tokens.deep_view(),
            !sym_at(toks, pos as int, Sym::RParen),
            shifted(filters_from(toks, cur as int, filters.deep_view()), (cur - pos) as nat)
                == filters_from(toks, pos as int, Seq::empty()),
        decreases tokens.len() - cur,
    {
        let (filter, next) = match parse_filter(tokens, cur) {
            Ok(found) => found,
            Err(e) => {
                return Err(e);
            },
        };
        let ghost done = filters.deep_view();
        filters.push(filter);
        assert(filters.deep_view() =~= done.push(filter.deep_view()));
        if is_sym(tokens, next, Sym::Comma) {
            cur = next + 1;
        } else {
            return Ok((filters, next));
        }
    }
}

/// Parses the body of a system.
pub fn parse_block(tokens: &Vec<Token>, pos: usize) -> (out: Result<(Vec<Expr>, usize), ParseError>)
    ensures
        match out {
            Ok((value, next)) => pos <= next <= tokens.len() && block_at(
                tokens.deep_view(),
                pos as int,
            ) == Some((value.deep_view(), (next - pos) as nat)),
            Err(e) => block_at(tokens.deep_view(), pos as int) is None && e is Syntax,
        },
{
    let ghost toks = tokens.deep_view();
    if !is_sym(tokens, pos, Sym::LBrace) {
        return Err(ParseError::Syntax(pos));
    }
    let mut code: Vec<Expr> = Vec::new();
    assert(code.deep_view() =~= Seq::<ExprView>::empty());
    let start = pos + 1;
    let mut cur = start;
    loop
        invariant
            start == pos + 1,
            start <= cur <= tokens.len(),
            toks == tokens.deep_view(),
            sym_at(toks, pos as int, Sym::LBrace),
            shifted(block_from(toks, cur as int, code.deep_view()), (cur - start) as nat)
                == block_from(toks, start as int, Seq::empty()),
        decreases tokens.len() - cur,
    {
        if is_sym(tokens, cur, Sym::RBrace) {
            return Ok((code, cur + 1));
        }
        let (expr, next) = match parse_expr(tokens, cur) {
            Ok(found) => found,
            Err(e) => {
                return Err(e);
            },
        };
        if !is_sym(tokens, next, Sym::Semi) {
            return Err(ParseError::Syntax(next));
        }
        let ghost done = code.deep_view();
        code.push(expr);
        assert(code.deep_view() =~= done.push(expr.deep_view()));
        cur = next + 1;
    }
}

/// Parses a system, after its keyword.
pub fn parse_system(tokens: &Vec<Token>, pos: usize) -> (out: Result<
    ((String, Name), usize),
    ParseError,
>)
    ensures
        match out {
            Ok((value, next)) => pos <= next <= tokens.len() && system_at(
                tokens.deep_view(),
                pos as int,
            ) == Some((value.deep_view(), (next - pos) as nat)),
            Err(e) => system_at(tokens.deep_view(), pos as int) is None && e is Syntax,
        },
{
    let name = match ident(tokens, pos) {
        Some(name) => name.clone(),
        None => {
            return Err(ParseError::Syntax(pos));
        },
    };
    if !is_sym(tokens, pos + 1, Sym::LParen) {
        return Err(ParseError::Syntax(pos + 1));
    }
    let (filters, after_filters) = match parse_filter_list(tokens, pos + 2) {
        Ok(found) => found,
        Err(e) => {
            return Err(e);
        },
    };
    if !is_sym(tokens, after_filters, Sym::RParen) {
        return Err(ParseError::Syntax(after_filters));
    }
    match parse_block(tokens, after_filters + 1) {
        Ok((code, next)) => Ok(((name, Name::System(System { filters, code })), next)),
        Err(e) => Err(e),
    }
}

} // verus!

//! Declared types and the fields of a shape.

use crate::ast::{StructDef, Type, TypeView};
use crate::eval::entries::same_text;
use crate::parser::cursor::{ident, ident_at, is_sym, shifted, sym_at, ParseError};
use crate::parser::lexer::{Sym, Token, TokenView};
use vstd::prelude::*;

verus! {

/// The type that a word names: a primitive by its keyword, a shape by
/// anything else.
pub open spec fn type_of_name(name: Seq<char>) -> TypeView {
    if name == "void"@ {
        TypeView::Void
    } else if name == "bool"@ {
        TypeView::Bool
    } else if name == "int"@ {
        TypeView::Int
    } else if name == "float"@ {
        TypeView::Float
    } else if name == "char"@ {
        TypeView::Char
    } else if name == "string"@ {
        TypeView::String
    } else {
        TypeView::Named(name)
    }
}

/// A type: a word, or a type between `[` and `]` for a list.
pub open spec fn type_at(tokens: Seq<TokenView>, pos: int) -> Option<(TypeView, nat)>
    decreases tokens.len() - pos,
{
    if sym_at(tokens, pos, Sym::LBracket) {
        match type_at(tokens, pos + 1) {
            Some((item, n)) => if sym_at(tokens, pos + 1 + n, Sym::RBracket) {
                Some((TypeView::List(Box::new(item)), n + 2))
            } else {
                None
            },
            None => None,
        }
    } else {
        match ident_at(tokens, pos) {
            Some(name) => Some((type_of_name(name), 1)),
            None => None,
        }
    }
}

/// Fields `name: type`, separated by `,`, from `pos` on, added to `done`.
pub open spec fn fields_from(
    tokens: Seq<TokenView>,
    pos: int,
    done: Seq<(Seq<char>, TypeView)>,
) -> Option<(Seq<(Seq<char>, TypeView)>, nat)>
    decreases tokens.len() - pos,
{
    match ident_at(tokens, pos) {
        Some(name) => if sym_at(tokens, pos + 1, Sym::Colon) {
            match type_at(tokens, pos + 2) {
                Some((ty, n)) => if sym_at(tokens, pos + 2 + n, Sym::Comma) {
                    shifted(fields_from(tokens, pos + 3 + n, done.push((name, ty))), 3 + n)
                } else {
                    Some((done.push((name, ty)), 2 + n))
                },
                None => None,
            }
        } else {
            None
        },
        None => None,
    }
}

/// The fields of a shape: `{`, fields separated by `,` or none, `}`.
pub open spec fn struct_def_at(tokens: Seq<TokenView>, pos: int) -> Option<
    (Seq<(Seq<char>, TypeView)>, nat),
> {
    if !sym_at(tokens, pos, Sym::LBrace) {
        None
    } else if sym_at(tokens, pos + 1, Sym::RBrace) {
        Some((Seq::empty(), 2))
    } else {
        match fields_from(tokens, pos + 1, Seq::empty()) {
            Some((fields, n)) => if sym_at(tokens, pos + 1 + n, Sym::RBrace) {
                Some((fields, n + 2))
            } else {
                None
            },
            None => None,
        }
    }
}

fn named_type(name: &String) -> (ty: Type)
    ensures
        ty.deep_view() == type_of_name(name@),
{
    let word = name.as_str();
    if same_text(word, "void") {
        Type::Void
    } else if same_text(word, "bool") {
        Type::Bool
    } else if same_text(word, "int") {
        Type::Int
    } else if same_text(word, "float") {
        Type::Float
    } else if same_text(word, "char") {
        Type::Char
    } else if same_text(word, "string") {
        Type::String
    } else {
        Type::Named(name.clone())
    }
}

/// Parses a type.
pub fn parse_type(tokens: &Vec<Token>, pos: usize) -> (out: Result<(Type, usize), ParseError>)
    ensures
        match out {
            Ok((ty, next)) => pos <= next <= tokens.len() && type_at(
                tokens.deep_view(),
                pos as int,
            ) == Some((ty.deep_view(), (next - pos) as nat)),
            Err(e) => type_at(tokens.deep_view(), pos as int) is None && e is Syntax,
        },
    decreases tokens.len() - pos,
{
    if is_sym(tokens, pos, Sym::LBracket) {
        match parse_type(tokens, pos + 1) {
            Ok((item, next)) => {
                if is_sym(tokens, next, Sym::RBracket) {
                    Ok((Type::List(Box::new(item)), next + 1))
                } else {
                    Err(ParseError::Syntax(next))
                }
            },
            Err(e) => Err(e),
        }
    } else {
        match ident(tokens, pos) {
            Some(name) => Ok((named_type(name), pos + 1)),
            None => Err(ParseError::Syntax(pos)),
        }
    }
}

/// Parses the fields of a shape.
pub fn parse_struct_def(tokens: &Vec<Token>, pos: usize) -> (out: Result<
    (StructDef, usize),
    ParseError,
>)
    ensures
        match out {
            Ok((def, next)) => pos <= next <= tokens.len() && struct_def_at(
                tokens.deep_view(),
                pos as int,
            ) == Some((def.deep_view(), (next - pos) as nat)),
            Err(e) => struct_def_at(tokens.deep_view(), pos as int) is None && e is Syntax,
        },
{
    let ghost toks = tokens.deep_view();
    if !is_sym(tokens, pos, Sym::LBrace) {
        return Err(ParseError::Syntax(pos));
    }
    let mut fields: Vec<(String, Type)> = Vec::new();
    assert(fields.deep_view() =~= Seq::<(Seq<char>, TypeView)>::empty());
    if is_sym(tokens, pos + 1, Sym::RBrace) {
        return Ok((StructDef { fields }, pos + 2));
    }
    let start = pos + 1;
    let mut cur = start;
    loop
        invariant
            start == pos + 1,
            start <= cur <= tokens.len(),
            toks == tokens.deep_view(),
            sym_at(toks, pos as int, Sym::LBrace),
            !sym_at(toks, pos + 1, Sym::RBrace),
            shifted(fields_from(toks, cur as int, fields.deep_view()), (cur - start) as nat)
                == fields_from(toks, start as int, Seq::empty()),
        decreases tokens.len() - cur,
    {
        let name = match ident(tokens, cur) {
            Some(name) => name.clone(),
            None => {
                return Err(ParseError::Syntax(cur));
            },
        };
        if !is_sym(tokens, cur + 1, Sym::Colon) {
            return Err(ParseError::Syntax(cur + 1));
        }
        let (ty, next) = match parse_type(tokens, cur + 2) {
            Ok(found) => found,
            Err(e) => {
                return Err(e);
            },
        };
        let ghost done = fields.deep_view();
        fields.push((name, ty));
        assert(fields.deep_view() =~= done.push((name@, ty.deep_view())));
        if is_sym(tokens, next, Sym::Comma) {
            cur = next + 1;
        } else if is_sym(tokens, next, Sym::RBrace) {
            return Ok((StructDef { fields }, next + 1));
        } else {
            return Err(ParseError::Syntax(next));
        }
    }
}

} // verus!

//! The parser: from program text to the syntax tree.
//!
//! A text is split into tokens, and the tokens are read by the grammar:
//!
//! ```text
//! program   = { element | "init" names ";" | "run" names ";" }
//! element   = "component" name fields
//!           | "resource" name fields
//!           | "struct" name fields
//!           | "system" name "(" [ filter { "," filter } ] ")" body
//!           | "static" type name "=" expr ";"
//! fields    = "{" [ name ":" type { "," name ":" type } ] "}"
//! type      = name | "[" type "]"
//! filter    = name "(" [ argument { "," argument } ] ")" | argument
//! argument  = [ "const" ] type name
//! body      = "{" { expr ";" } "}"
//! names     = [ name { "," name } ]
//! expr      = binary [ "?" expr ":" expr ]
//!           | path "=" expr
//! binary    = unary { operator unary }
//! unary     = { "+" | "-" | "!" | "~" } primary
//! primary   = literal | "true" | "false" | "void" | "(" expr ")"
//!           | "[" [ expr { "," expr } ] "]"
//!           | builtin "(" [ expr { "," expr } ] ")"
//!           | name "{" [ name ":" expr { "," name ":" expr } ] "}"
//!           | path
//! path      = name { "." name }
//! ```
//!
//! Each grammar rule is a specification function that gives, for a position
//! in the tokens, the tree that starts there and the number of tokens it
//! takes; each parsing function returns what its rule gives.

use crate::ast::{Name, NameView, ProgramView, Static, StaticView, AST};
use crate::eval::entries::{distinct_keys, has_distinct_keys};
use crate::parser::cursor::{
    ident, ident_at, is_sym, is_word, shifted, sym_at, word_at, ParseError,
};
use crate::parser::expressions::{expr_at, parse_expr};
use crate::parser::lexer::{lex, tokenize, Sym, Token, TokenView};
use crate::parser::systems::{parse_system, system_at};
use crate::parser::types::{parse_struct_def, parse_type, struct_def_at, type_at};
use vstd::prelude::*;
use vstd::std_specs::iter::IteratorSpec;

pub mod cursor;
pub mod expressions;
pub mod laws;
pub mod lexer;
pub mod systems;
pub mod types;

verus! {

/// The characters of a text, in order.
pub fn chars_of(text: &str) -> (chars: Vec<char>)
    ensures
        chars@ == text@,
{
    let mut chars: Vec<char> = Vec::new();
    let mut rest = text.chars();
    loop
        invariant
            chars@ + rest.remaining() == text@,
            rest.obeys_prophetic_iter_laws(),
            rest.decrease() is Some,
        decreases rest.decrease()->0,
    {
        let ghost before = rest;
        match rest.next() {
            Some(c) => {
                chars.push(c);
                assert(chars@ + rest.remaining() =~= text@);
            },
            None => {
                assert(chars@ =~= text@);
                return chars;
            },
        }
    }
}

/// A component, after its keyword: a name and its fields.
pub open spec fn component_at(tokens: Seq<TokenView>, pos: int) -> Option<
    ((Seq<char>, NameView), nat),
> {
    match ident_at(tokens, pos) {
        Some(name) => match struct_def_at(tokens, pos + 1) {
            Some((def, n)) => Some(((name, NameView::Component(def)), n + 1)),
            None => None,
        },
        None => None,
    }
}

/// A resource, after its keyword: a name and its fields.
pub open spec fn resource_at(tokens: Seq<TokenView>, pos: int) -> Option<
    ((Seq<char>, NameView), nat),
> {
    match ident_at(tokens, pos) {
        Some(name) => match struct_def_at(tokens, pos + 1) {
            Some((def, n)) => Some(((name, NameView::Resource(def)), n + 1)),
            None => None,
        },
        None => None,
    }
}

/// A struct, after its keyword: a name and its fields.
pub open spec fn shape_at(tokens: Seq<TokenView>, pos: int) -> Option<
    ((Seq<char>, NameView), nat),
> {
    match ident_at(tokens, pos) {
        Some(name) => match struct_def_at(tokens, pos + 1) {
            Some((def, n)) => Some(((name, NameView::Struct(def)), n + 1)),
            None => None,
        },
        None => None,
    }
}

/// A static, after its keyword: a type, a name, `=`, an expression, `;`.
pub open spec fn static_at(tokens: Seq<TokenView>, pos: int) -> Option<
    ((Seq<char>, NameView), nat),
> {
    match type_at(tokens, pos) {
        Some((ty, n)) => match ident_at(tokens, pos + n) {
            Some(name) => if sym_at(tokens, pos + n + 1, Sym::Assign) {
                match expr_at(tokens, pos + n + 2) {
                    Some((value, m)) => if sym_at(tokens, pos + n + 2 + m, Sym::Semi) {
                        Some(((name, NameView::Static(StaticView { ty, value })), n + m + 3))
                    } else {
                        None
                    },
                    None => None,
                }
            } else {
                None
            },
            None => None,
        },
        None => None,
    }
}

/// A declaration: one of the keywords `component`, `resource`, `struct`,
/// `system` and `static`, and what follows it.
pub open spec fn element_at(tokens: Seq<TokenView>, pos: int) -> Option<
    ((Seq<char>, NameView), nat),
> {
    if word_at(tokens, pos, "component"@) {
        shifted(component_at(tokens, pos + 1), 1)
    } else if word_at(tokens, pos, "resource"@) {
        shifted(resource_at(tokens, pos + 1), 1)
    } else if word_at(tokens, pos, "struct"@) {
        shifted(shape_at(tokens, pos + 1), 1)
    } else if word_at(tokens, pos, "system"@) {
        shifted(system_at(tokens, pos + 1), 1)
    } else if word_at(tokens, pos, "static"@) {
        shifted(static_at(tokens, pos + 1), 1)
    } else {
        None
    }
}

/// Names separated by `,`, from `pos` on, added to `done`; they end where
/// no name follows, or no `,` follows a name.
pub open spec fn idents_from(tokens: Seq<TokenView>, pos: int, done: Seq<Seq<char>>) -> (
    Seq<Seq<char>>,
    nat,
)
    decreases tokens.len() - pos,
{
    match ident_at(tokens, pos) {
        Some(name) => if sym_at(tokens, pos + 1, Sym::Comma) {
            let rest = idents_from(tokens, pos + 2, done.push(name));
            (rest.0, rest.1 + 2)
        } else {
            (done.push(name), 1)
        },
        None => (done, 0),
    }
}

/// One item of a program added to `done`: a declaration, which is added
/// to the names; an `init` list or a `run` list, each ended by `;`, which
/// takes the place of the list that `done` has.
pub open spec fn item_at(tokens: Seq<TokenView>, pos: int, done: ProgramView) -> Option<
    (ProgramView, nat),
> {
    if word_at(tokens, pos, "init"@) {
        let names = idents_from(tokens, pos + 1, Seq::empty());
        if sym_at(tokens, pos + 1 + names.1, Sym::Semi) {
            Some((ProgramView { init: names.0, ..done }, names.1 + 2))
        } else {
            None
        }
    } else if word_at(tokens, pos, "run"@) {
        let names = idents_from(tokens, pos + 1, Seq::empty());
        if sym_at(tokens, pos + 1 + names.1, Sym::Semi) {
            Some((ProgramView { run: names.0, ..done }, names.1 + 2))
        } else {
            None
        }
    } else {
        match element_at(tokens, pos) {
            Some((entry, n)) => Some((ProgramView { names: done.names.push(entry), ..done }, n)),
            None => None,
        }
    }
}

/// The program that the tokens from `pos` on add to `done`: items, one
/// after the other, to the end of the tokens.
pub open spec fn program_from(tokens: Seq<TokenView>, pos: int, done: ProgramView) -> Option<
    ProgramView,
>
    decreases tokens.len() - pos,
{
    if pos < 0 || pos >= tokens.len() {
        Some(done)
    } else {
        match item_at(tokens, pos, done) {
            Some((next, n)) => if n == 0 || pos + n > tokens.len() {
                None
            } else {
                program_from(tokens, pos + n, next)
            },
            None => None,
        }
    }
}

/// The program that declares nothing.
pub open spec fn empty_program() -> ProgramView {
    ProgramView { names: Seq::empty(), init: Seq::empty(), run: Seq::empty() }
}

/// The program that a text spells, if it spells one: its tokens follow the
/// grammar of programs, and no two declarations have the same name.
pub open spec fn program_of(text: Seq<char>) -> Option<ProgramView> {
    match lex(text) {
        Some(tokens) => match program_from(
            tokens,
            0,
            empty_program(),
        ) {
            Some(program) => if distinct_keys(program.names) {
                Some(program)
            } else {
                None
            },
            None => None,
        },
        None => None,
    }
}

/// Parses a component definition, after its keyword.
pub fn parse_component(tokens: &Vec<Token>, pos: usize) -> (out: Result<
    ((String, Name), usize),
    ParseError,
>)
    ensures
        match out {
            Ok((value, next)) => pos <= next <= tokens.len() && component_at(
                tokens.deep_view(),
                pos as int,
            ) == Some((value.deep_view(), (next - pos) as nat)),
            Err(e) => component_at(tokens.deep_view(), pos as int) is None && e is Syntax,
        },
{
    let name = match ident(tokens, pos) {
        Some(name) => name.clone(),
        None => {
            return Err(ParseError::Syntax(pos));
        },
    };
    match parse_struct_def(tokens, pos + 1) {
        Ok((def, next)) => Ok(((name, Name::Component(def)), next)),
        Err(e) => Err(e),
    }
}

/// Parses a resource definition, after its keyword.
pub fn parse_resource(tokens: &Vec<Token>, pos: usize) -> (out: Result<
    ((String, Name), usize),
    ParseError,
>)
    ensures
        match out {
            Ok((value, next)) => pos <= next <= tokens.len() && resource_at(
                tokens.deep_view(),
                pos as int,
            ) == Some((value.deep_view(), (next - pos) as nat)),
            Err(e) => resource_at(tokens.deep_view(), pos as int) is None && e is Syntax,
        },
{
    let name = match ident(tokens, pos) {
        Some(name) => name.clone(),
        None => {
            return Err(ParseError::Syntax(pos));
        },
    };
    match parse_struct_def(tokens, pos + 1) {
        Ok((def, next)) => Ok(((name, Name::Resource(def)), next)),
        Err(e) => Err(e),
    }
}

/// Parses a struct definition, after its keyword.
pub fn parse_shape(tokens: &Vec<Token>, pos: usize) -> (out: Result<
    ((String, Name), usize),
    ParseError,
>)
    ensures
        match out {
            Ok((value, next)) => pos <= next <= tokens.len() && shape_at(
                tokens.deep_view(),
                pos as int,
            ) == Some((value.deep_view(), (next - pos) as nat)),
            Err(e) => shape_at(tokens.deep_view(), pos as int) is None && e is Syntax,
        },
{
    let name = match ident(tokens, pos) {
        Some(name) => name.clone(),
        None => {
            return Err(ParseError::Syntax(pos));
        },
    };
    match parse_struct_def(tokens, pos + 1) {
        Ok((def, next)) => Ok(((name, Name::Struct(def)), next)),
        Err(e) => Err(e),
    }
}

/// Parses a static declaration, after its keyword.
pub fn parse_static(tokens: &Vec<Token>, pos: usize) -> (out: Result<
    ((String, Name), usize),
    ParseError,
>)
    ensures
        match out {
            Ok((value, next)) => pos <= next <= tokens.len() && static_at(
                tokens.deep_view(),
                pos as int,
            ) == Some((value.deep_view(), (next - pos) as nat)),
            Err(e) => static_at(tokens.deep_view(), pos as int) is None && e is Syntax,
        },
{
    let (ty, after_type) = match parse_type(tokens, pos) {
        Ok(found) => found,
        Err(e) => {
            return Err(e);
        },
    };
    let name = match ident(tokens, after_type) {
        Some(name) => name.clone(),
        None => {
            return Err(ParseError::Syntax(after_type));
        },
    };
    if !is_sym(tokens, after_type + 1, Sym::Assign) {
        return Err(ParseError::Syntax(after_type + 1));
    }
    let (value, next) = match parse_expr(tokens, after_type + 2) {
        Ok(found) => found,
        Err(e) => {
            return Err(e);
        },
    };
    if !is_sym(tokens, next, Sym::Semi) {
        return Err(ParseError::Syntax(next));
    }
    Ok(((name, Name::Static(Static { ty, value })), next + 1))
}

/// Parses an element: a declaration with its keyword.
pub fn parse_element(tokens: &Vec<Token>, pos: usize) -> (out: Result<
    ((String, Name), usize),
    ParseError,
>)
    ensures
        match out {
            Ok((value, next)) => pos <= next <= tokens.len() && element_at(
                tokens.deep_view(),
                pos as int,
            ) == Some((value.deep_view(), (next - pos) as nat)),
            Err(e) => element_at(tokens.deep_view(), pos as int) is None && e is Syntax,
        },
{
    if is_word(tokens, pos, "component") {
        parse_component(tokens, pos + 1)
    } else if is_word(tokens, pos, "resource") {
        parse_resource(tokens, pos + 1)
    } else if is_word(tokens, pos, "struct") {
        parse_shape(tokens, pos + 1)
    } else if is_word(tokens, pos, "system") {
        parse_system(tokens, pos + 1)
    } else if is_word(tokens, pos, "static") {
        parse_static(tokens, pos + 1)
    } else {
        Err(ParseError::Syntax(pos))
    }
}

/// Parses a list of identifiers.
pub fn parse_ident_list(tokens: &Vec<Token>, pos: usize) -> (out: (Vec<String>, usize))
    requires
        pos <= tokens.len(),
    ensures
        pos <= out.1 <= tokens.len(),
        idents_from(tokens.deep_view(), pos as int, Seq::empty()) == (
            out.0.deep_view(),
            (out.1 - pos) as nat,
        ),
{
    let ghost toks = tokens.deep_view();
    let mut names: Vec<String> = Vec::new();
    assert(names.deep_view() =~= Seq::<Seq<char>>::empty());
    let mut cur = pos;
    loop
        invariant
            pos <= cur <= tokens.len(),
            toks == tokens.deep_view(),
            idents_from(toks, pos as int, Seq::empty()) == (
                idents_from(toks, cur as int, names.deep_view()).0,
                idents_from(toks, cur as int, names.deep_view()).1 + (cur - pos) as nat,
            ),
        decreases tokens.len() - cur,
    {
        match ident(tokens, cur) {
            Some(name) => {
                let ghost done = names.deep_view();
                names.push(name.clone());
                assert(names.deep_view() =~= done.push(name@));
                if is_sym(tokens, cur + 1, Sym::Comma) {
                    cur = cur + 2;
                } else {
                    return (names, cur + 1);
                }
            },
            None => {
                return (names, cur);
            },
        }
    }
}

/// Parses one item of a program and adds it to `ast`.
pub fn parse_item(tokens: &Vec<Token>, pos: usize, ast: AST) -> (out: Result<
    (AST, usize),
    ParseError,
>)
    requires
        pos < tokens.len(),
    ensures
        match out {
            Ok((next, end)) => pos < end <= tokens.len() && item_at(
                tokens.deep_view(),
                pos as int,
                ast.deep_view(),
            ) == Some((next.deep_view(), (end - pos) as nat)),
            Err(e) => e is Syntax && item_at(tokens.deep_view(), pos as int, ast.deep_view())
                is None,
        },
{
    let ghost done = ast.deep_view();
    let mut ast = ast;
    if is_word(tokens, pos, "init") {
        let (names, next) = parse_ident_list(tokens, pos + 1);
        if !is_sym(tokens, next, Sym::Semi) {
            return Err(ParseError::Syntax(next));
        }
        ast.init = names;
        Ok((ast, next + 1))
    } else if is_word(tokens, pos, "run") {
        let (names, next) = parse_ident_list(tokens, pos + 1);
        if !is_sym(tokens, next, Sym::Semi) {
            return Err(ParseError::Syntax(next));
        }
        ast.run = names;
        Ok((ast, next + 1))
    } else {
        let (entry, next) = match parse_element(tokens, pos) {
            Ok(found) => found,
            Err(e) => {
                return Err(e);
            },
        };
        ast.names.push(entry);
        assert(ast.deep_view().names =~= done.names.push(entry.deep_view()));
        Ok((ast, next))
    }
}

/// Parses the tokens of a program.
pub fn parse_tokens(tokens: &Vec<Token>) -> (out: Result<AST, ParseError>)
    ensures
        match out {
            Ok(ast) => program_from(tokens.deep_view(), 0, empty_program()) == Some(
                ast.deep_view(),
            ),
            Err(e) => e is Syntax && program_from(tokens.deep_view(), 0, empty_program())
                is None,
        },
{
    let ghost toks = tokens.deep_view();
    let mut ast = AST { names: Vec::new(), init: Vec::new(), run: Vec::new() };
    assert(ast.deep_view().names =~= empty_program().names);
    assert(ast.deep_view().init =~= empty_program().init);
    assert(ast.deep_view().run =~= empty_program().run);
    let mut pos: usize = 0;
    while pos < tokens.len()
        invariant
            pos <= tokens.len(),
            toks == tokens.deep_view(),
            program_from(toks, pos as int, ast.deep_view()) == program_from(
                toks,
                0,
                empty_program(),
            ),
        decreases tokens.len() - pos,
    {
        match parse_item(tokens, pos, ast) {
            Ok((next, end)) => {
                ast = next;
                pos = end;
            },
            Err(e) => {
                return Err(e);
            },
        }
    }
    Ok(ast)
}

/// Generates the abstract syntax tree from the program's source code, which
/// is the first text of `src`. `path` names the source for the caller's
/// messages; the result does not depend on it.
pub fn parse_program(path: &str, src: &mut Vec<String>) -> (out: Result<AST, ParseError>)
    requires
        old(src).len() > 0,
    ensures
        *final(src) == *old(src),
        match out {
            Ok(ast) => program_of(old(src)[0]@) == Some(ast.deep_view()),
            Err(e) => program_of(old(src)[0]@) is None,
        },
        out matches Err(e) ==> match e {
            ParseError::Lexical(at) => lex(old(src)[0]@) is None && at < old(src)[0]@.len(),
            ParseError::Syntax(_) => lex(old(src)[0]@) matches Some(tokens) && program_from(
                tokens,
                0,
                empty_program(),
            ) is None,
            ParseError::DuplicateName => lex(old(src)[0]@) matches Some(tokens) && program_from(
                tokens,
                0,
                empty_program(),
            ) matches Some(program) && !distinct_keys(program.names),
        },
{
    let chars = chars_of(src[0].as_str());
    let tokens = match tokenize(&chars) {
        Ok(tokens) => tokens,
        Err(at) => {
            return Err(ParseError::Lexical(at));
        },
    };
    let ast = match parse_tokens(&tokens) {
        Ok(ast) => ast,
        Err(e) => {
            return Err(e);
        },
    };
    if !has_distinct_keys(&ast.names) {
        return Err(ParseError::DuplicateName);
    }
    Ok(ast)
}

} // verus!

//! Every rule matches forward: what it matches ends in the text, and not
//! before the place where it begins. So where one rule is tried after
//! another, nothing is ever cut off by asking for that.

use vstd::prelude::*;
use crate::grammar::rules::{
    assignment, atom, blanks, block, boolean, call, climb, conditional, declared_type, expr,
    forward, function, ident, integer, is_digit, lemma_blanks, lemma_letters, level, list, more,
    more_params, numerals, operator, param, params, primary, statement, symbol, tail, variable,
    word, Parsed,
};
use crate::tree::{ExprTree, ParamTree};

verus! {

/// The match `r` ends in the text and not before `from`.
pub open spec fn ahead<T>(text: Seq<char>, from: int, r: Option<Parsed<T>>) -> bool {
    r matches Some(p) ==> from <= p.next <= text.len()
}

/// The digits end where they begin or later, and not after the text.
pub proof fn lemma_numerals(text: Seq<char>, pos: int)
    ensures
        pos <= numerals(text, pos),
        pos <= text.len() ==> numerals(text, pos) <= text.len(),
    decreases text.len() - pos,
{
    if 0 <= pos < text.len() && is_digit(text[pos]) {
        lemma_numerals(text, pos + 1);
    }
}

/// A name, a literal and a variable match forward.
pub proof fn lemma_tokens_ahead(text: Seq<char>, pos: int)
    requires
        0 <= pos <= text.len(),
    ensures
        ahead(text, pos, ident(text, pos)),
        ahead(text, pos, integer(text, pos)),
        ahead(text, pos, boolean(text, pos)),
        ahead(text, pos, variable(text, pos)),
{
    lemma_letters(text, pos);
    lemma_numerals(text, pos);
}

/// An expression matches forward.
pub proof fn lemma_expr_ahead(text: Seq<char>, pos: int)
    requires
        0 <= pos <= text.len(),
    ensures
        ahead(text, pos, expr(text, pos)),
    decreases text.len() - pos, 8int,
{
    lemma_climb_ahead(text, pos, 0);
}

/// An operand with the operators after it matches forward.
pub proof fn lemma_climb_ahead(text: Seq<char>, pos: int, min: int)
    requires
        0 <= pos <= text.len(),
    ensures
        ahead(text, pos, climb(text, pos, min)),
    decreases text.len() - pos, 7int,
{
    lemma_atom_ahead(text, pos);
    match forward(text, pos, atom(text, pos)) {
        Some(first) => {
            lemma_tail_ahead(text, first.next, min, first.value);
        },
        None => {},
    }
}

/// What follows an operand ends where it begins or later, and in the text.
pub proof fn lemma_tail_ahead(text: Seq<char>, pos: int, min: int, left: ExprTree)
    requires
        0 <= pos <= text.len(),
    ensures
        pos <= tail(text, pos, min, left).next <= text.len(),
    decreases text.len() - pos, 1int,
{
    if 0 <= pos < text.len() && operator(text[pos]) is Some && level(operator(text[pos])->0)
        >= min {
        let op = operator(text[pos])->0;
        lemma_climb_ahead(text, pos + 1, level(op) + 1);
        match forward(text, pos + 1, climb(text, pos + 1, level(op) + 1)) {
            Some(right) => {
                lemma_tail_ahead(
                    text,
                    right.next,
                    min,
                    ExprTree::Binary { lhs: Box::new(left), op, rhs: Box::new(right.value) },
                );
            },
            None => {},
        }
    }
}

/// An operand matches forward.
pub proof fn lemma_atom_ahead(text: Seq<char>, pos: int)
    requires
        0 <= pos <= text.len(),
    ensures
        ahead(text, pos, atom(text, pos)),
    decreases text.len() - pos, 6int,
{
    let start = blanks(text, pos);
    lemma_blanks(text, pos);
    lemma_primary_ahead(text, start);
    if primary(text, start) is Some {
        lemma_blanks(text, primary(text, start)->0.next);
    } else if symbol(text, start, '(') is Some {
        let inner_start = blanks(text, start + 1);
        lemma_blanks(text, start + 1);
        lemma_expr_ahead(text, inner_start);
        match forward(text, inner_start, expr(text, inner_start)) {
            Some(inner) => {
                lemma_blanks(text, inner.next);
                match symbol(text, blanks(text, inner.next), ')') {
                    Some(end) => {
                        lemma_blanks(text, end);
                    },
                    None => {},
                }
            },
            None => {},
        }
    }
}

/// A conditional, a `let`, a call, a literal and a variable match forward.
pub proof fn lemma_primary_ahead(text: Seq<char>, pos: int)
    requires
        0 <= pos <= text.len(),
    ensures
        ahead(text, pos, primary(text, pos)),
    decreases text.len() - pos, 5int,
{
    lemma_conditional_ahead(text, pos);
    lemma_assignment_ahead(text, pos);
    lemma_call_ahead(text, pos);
    lemma_tokens_ahead(text, pos);
}

/// A conditional matches forward.
pub proof fn lemma_conditional_ahead(text: Seq<char>, pos: int)
    requires
        0 <= pos <= text.len(),
    ensures
        ahead(text, pos, conditional(text, pos)),
    decreases text.len() - pos, 4int,
{
    reveal_strlit("if");
    reveal_strlit("else");
    match word(text, pos, "if"@) {
        None => {},
        Some(after_if) => {
            let cond_start = blanks(text, after_if);
            lemma_blanks(text, after_if);
            lemma_expr_ahead(text, cond_start);
            match forward(text, cond_start, expr(text, cond_start)) {
                None => {},
                Some(cond) => {
                    let then_start = blanks(text, cond.next);
                    lemma_blanks(text, cond.next);
                    lemma_block_ahead(text, then_start);
                    match forward(text, then_start, block(text, then_start)) {
                        None => {},
                        Some(then) => {
                            lemma_blanks(text, then.next);
                            match word(text, blanks(text, then.next), "else"@) {
                                None => {},
                                Some(after_else) => {
                                    let else_start = blanks(text, after_else);
                                    lemma_blanks(text, after_else);
                                    lemma_block_ahead(text, else_start);
                                    match block(text, else_start) {
                                        None => {},
                                        Some(other) => {
                                            lemma_blanks(text, other.next);
                                        },
                                    }
                                },
                            }
                        },
                    }
                },
            }
        },
    }
}

/// A `let` matches forward.
pub proof fn lemma_assignment_ahead(text: Seq<char>, pos: int)
    requires
        0 <= pos <= text.len(),
    ensures
        ahead(text, pos, assignment(text, pos)),
    decreases text.len() - pos, 4int,
{
    reveal_strlit("let");
    match word(text, pos, "let"@) {
        None => {},
        Some(after_let) => {
            lemma_blanks(text, after_let);
            lemma_tokens_ahead(text, blanks(text, after_let));
            match ident(text, blanks(text, after_let)) {
                None => {},
                Some(name) => {
                    let type_start = blanks(text, name.next);
                    lemma_blanks(text, name.next);
                    let declared = declared_type(text, type_start);
                    if symbol(text, type_start, ':') is Some {
                        lemma_blanks(text, type_start + 1);
                        lemma_tokens_ahead(text, blanks(text, type_start + 1));
                    }
                    let after_type = match declared {
                        Some(t) => t.next,
                        None => type_start,
                    };
                    lemma_blanks(text, after_type);
                    match symbol(text, blanks(text, after_type), '=') {
                        None => {},
                        Some(after_eq) => {
                            lemma_blanks(text, after_eq);
                            lemma_expr_ahead(text, blanks(text, after_eq));
                        },
                    }
                },
            }
        },
    }
}

/// A call matches forward.
pub proof fn lemma_call_ahead(text: Seq<char>, pos: int)
    requires
        0 <= pos <= text.len(),
    ensures
        ahead(text, pos, call(text, pos)),
    decreases text.len() - pos, 4int,
{
    lemma_tokens_ahead(text, pos);
    match ident(text, pos) {
        None => {},
        Some(name) => match symbol(text, name.next, '(') {
            None => {},
            Some(open) => {
                lemma_list_ahead(text, open, ',');
                lemma_blanks(text, list(text, open, ',').next);
            },
        },
    }
}

/// A list of expressions ends where it begins or later, and in the text.
pub proof fn lemma_list_ahead(text: Seq<char>, pos: int, sep: char)
    requires
        0 <= pos <= text.len(),
    ensures
        pos <= list(text, pos, sep).next <= text.len(),
    decreases text.len() - pos, 9int,
{
    lemma_expr_ahead(text, pos);
    match forward(text, pos, expr(text, pos)) {
        Some(first) => {
            lemma_more_ahead(text, first.next, sep, seq![first.value]);
        },
        None => {},
    }
}

/// The rest of a list of expressions ends where it begins or later, and in the text.
pub proof fn lemma_more_ahead(text: Seq<char>, pos: int, sep: char, found: Seq<ExprTree>)
    requires
        0 <= pos <= text.len(),
    ensures
        pos <= more(text, pos, sep, found).next <= text.len(),
    decreases text.len() - pos, 1int,
{
    if 0 <= pos < text.len() && text[pos] == sep {
        lemma_expr_ahead(text, pos + 1);
        match forward(text, pos + 1, expr(text, pos + 1)) {
            Some(next) => {
                lemma_more_ahead(text, next.next, sep, found.push(next.value));
            },
            None => {},
        }
    }
}

/// A block matches forward.
pub proof fn lemma_block_ahead(text: Seq<char>, pos: int)
    requires
        0 <= pos <= text.len(),
    ensures
        ahead(text, pos, block(text, pos)),
    decreases text.len() - pos, 4int,
{
    match symbol(text, pos, '{') {
        None => {},
        Some(open) => {
            lemma_list_ahead(text, open, ';');
            let exprs = list(text, open, ';');
            let after = blanks(text, exprs.next);
            lemma_blanks(text, exprs.next);
            let closing = match symbol(text, after, ';') {
                Some(p) => p,
                None => after,
            };
            lemma_blanks(text, closing);
        },
    }
}

/// A parameter matches forward.
pub proof fn lemma_param_ahead(text: Seq<char>, pos: int)
    requires
        0 <= pos <= text.len(),
    ensures
        ahead(text, pos, param(text, pos)),
{
    lemma_blanks(text, pos);
    lemma_tokens_ahead(text, blanks(text, pos));
    match ident(text, blanks(text, pos)) {
        None => {},
        Some(name) => {
            lemma_blanks(text, name.next);
            match symbol(text, blanks(text, name.next), ':') {
                None => {},
                Some(colon) => {
                    lemma_blanks(text, colon);
                    lemma_tokens_ahead(text, blanks(text, colon));
                    match ident(text, blanks(text, colon)) {
                        None => {},
                        Some(arg_type) => {
                            lemma_blanks(text, arg_type.next);
                        },
                    }
                },
            }
        },
    }
}

/// The rest of a list of parameters ends where it begins or later, and in the text.
pub proof fn lemma_more_params_ahead(text: Seq<char>, pos: int, found: Seq<ParamTree>)
    requires
        0 <= pos <= text.len(),
    ensures
        pos <= more_params(text, pos, found).next <= text.len(),
    decreases text.len() - pos,
{
    if 0 <= pos < text.len() && text[pos] == ',' {
        lemma_param_ahead(text, pos + 1);
        match forward(text, pos + 1, param(text, pos + 1)) {
            Some(next) => {
                lemma_more_params_ahead(text, next.next, found.push(next.value));
            },
            None => {},
        }
    }
}

/// A function declaration and a statement match forward, and match a character at least.
pub proof fn lemma_statement_ahead(text: Seq<char>, pos: int)
    requires
        0 <= pos <= text.len(),
    ensures
        function(text, pos) matches Some(f) ==> pos < f.next <= text.len(),
        statement(text, pos) matches Some(s) ==> pos < s.next <= text.len(),
{
    lemma_function_ahead(text, pos);
    lemma_blanks(text, pos);
    lemma_function_ahead(text, blanks(text, pos));
    match function(text, blanks(text, pos)) {
        None => {},
        Some(f) => {
            lemma_blanks(text, f.next);
        },
    }
}

/// A function declaration matches forward, and matches a character at least.
pub proof fn lemma_function_ahead(text: Seq<char>, pos: int)
    requires
        0 <= pos <= text.len(),
    ensures
        function(text, pos) matches Some(f) ==> pos < f.next <= text.len(),
{
    reveal_strlit("def");
    let after_pub = match word(text, pos, "pub"@) {
        Some(p) => p,
        None => pos,
    };
    lemma_blanks(text, after_pub);
    match word(text, blanks(text, after_pub), "def"@) {
        None => {},
        Some(after_def) => {
            lemma_blanks(text, after_def);
            lemma_tokens_ahead(text, blanks(text, after_def));
            match ident(text, blanks(text, after_def)) {
                None => {},
                Some(name) => {
                    lemma_blanks(text, name.next);
                    match symbol(text, blanks(text, name.next), '(') {
                        None => {},
                        Some(open) => {
                            lemma_blanks(text, open);
                            let start = blanks(text, open);
                            lemma_param_ahead(text, start);
                            match forward(text, start, param(text, start)) {
                                Some(first) => {
                                    lemma_more_params_ahead(text, first.next, seq![first.value]);
                                },
                                None => {},
                            }
                            let fn_args = params(text, start);
                            let after = blanks(text, fn_args.next);
                            lemma_blanks(text, fn_args.next);
                            let before_close = match symbol(text, after, ',') {
                                Some(p) => p,
                                None => after,
                            };
                            lemma_blanks(text, before_close);
                            match symbol(text, blanks(text, before_close), ')') {
                                None => {},
                                Some(close) => {
                                    lemma_blanks(text, close);
                                    match word(text, blanks(text, close), "->"@) {
                                        None => {},
                                        Some(arrow) => {
                                            lemma_blanks(text, arrow);
                                            lemma_tokens_ahead(text, blanks(text, arrow));
                                            match ident(text, blanks(text, arrow)) {
                                                None => {},
                                                Some(return_type) => {
                                                    lemma_blanks(text, return_type.next);
                                                    lemma_block_ahead(
                                                        text,
                                                        blanks(text, return_type.next),
                                                    );
                                                    match block(
                                                        text,
                                                        blanks(text, return_type.next),
                                                    ) {
                                                        None => {},
                                                        Some(body) => {
                                                            lemma_blanks(text, body.next);
                                                        },
                                                    }
                                                },
                                            }
                                        },
                                    }
                                },
                            }
                        },
                    }
                },
            }
        },
    }
}

/// Every rule matches forward, so no match is cut off where one rule is
/// tried after another: to ask that a match lie ahead changes nothing.
pub proof fn law_rules_match_forward(text: Seq<char>, pos: int)
    requires
        0 <= pos <= text.len(),
    ensures
        forward(text, pos, expr(text, pos)) == expr(text, pos),
        forward(text, pos, atom(text, pos)) == atom(text, pos),
        forward(text, pos, block(text, pos)) == block(text, pos),
        forward(text, pos, param(text, pos)) == param(text, pos),
        forall|min: int| forward(text, pos, #[trigger] climb(text, pos, min)) == climb(text, pos, min),
        statement(text, pos) matches Some(s) ==> pos < s.next <= text.len(),
{
    lemma_expr_ahead(text, pos);
    lemma_atom_ahead(text, pos);
    lemma_block_ahead(text, pos);
    lemma_param_ahead(text, pos);
    lemma_statement_ahead(text, pos);
    assert forall|min: int| forward(text, pos, #[trigger] climb(text, pos, min)) == climb(
        text,
        pos,
        min,
    ) by {
        lemma_climb_ahead(text, pos, min);
    }
}

} // verus!

//! The rules of the grammar.
//!
//! Every rule is tried at a position of the text. It either fails there or
//! matches a stretch of the text that begins there, and then says where the
//! stretch ends and what it stands for. Rules are tried in the order in which
//! they are written, and the first that matches is taken; a repetition takes
//! as much as it can get. Nothing is ever taken back.

use vstd::prelude::*;
use crate::ast::BinOpAst;
use crate::decimal::digits;
use crate::tree::{BlockTree, ExprTree, FunctionTree, ModuleTree, ParamTree, StatementTree};

verus! {

/// A match: what the matched text stands for, and where it ends.
pub struct Parsed<T> {
    pub value: T,
    pub next: int,
}

/// The match `r`, if it ends in the text and not before `from`. Every rule
/// matches forward; this says so where one rule is tried after another.
pub open spec fn forward<T>(text: Seq<char>, from: int, r: Option<Parsed<T>>) -> Option<Parsed<T>> {
    match r {
        Some(p) => if from <= p.next <= text.len() {
            r
        } else {
            None
        },
        None => None,
    }
}

/// A blank, a line feed or a tab.
pub open spec fn is_blank(c: char) -> bool {
    c == ' ' || c == '\n' || c == '\t'
}

/// A letter of the Latin alphabet, small or capital, or the underscore.
pub open spec fn is_letter(c: char) -> bool {
    ('a' <= c && c <= 'z') || ('A' <= c && c <= 'Z') || c == '_'
}

/// One of the ten digits.
pub open spec fn is_digit(c: char) -> bool {
    '0' <= c && c <= '9'
}

/// Where the blanks that begin at `pos` end.
pub open spec fn blanks(text: Seq<char>, pos: int) -> int
    decreases text.len() - pos,
{
    if 0 <= pos < text.len() && is_blank(text[pos]) {
        blanks(text, pos + 1)
    } else {
        pos
    }
}

/// Where the letters that begin at `pos` end.
pub open spec fn letters(text: Seq<char>, pos: int) -> int
    decreases text.len() - pos,
{
    if 0 <= pos < text.len() && is_letter(text[pos]) {
        letters(text, pos + 1)
    } else {
        pos
    }
}

/// Where the digits that begin at `pos` end.
pub open spec fn numerals(text: Seq<char>, pos: int) -> int
    decreases text.len() - pos,
{
    if 0 <= pos < text.len() && is_digit(text[pos]) {
        numerals(text, pos + 1)
    } else {
        pos
    }
}

/// The character `c` at `pos`: where it ends.
pub open spec fn symbol(text: Seq<char>, pos: int, c: char) -> Option<int> {
    if 0 <= pos < text.len() && text[pos] == c {
        Some(pos + 1)
    } else {
        None
    }
}

/// The word `word` at `pos`: where it ends.
pub open spec fn word(text: Seq<char>, pos: int, word: Seq<char>) -> Option<int> {
    if 0 <= pos && pos + word.len() <= text.len() && text.subrange(pos, pos + word.len()) == word {
        Some(pos + word.len())
    } else {
        None
    }
}

/// A name: one letter or more, where the underscore counts as a letter.
pub open spec fn ident(text: Seq<char>, pos: int) -> Option<Parsed<Seq<char>>> {
    let end = letters(text, pos);
    if 0 <= pos < end {
        Some(Parsed { value: text.subrange(pos, end), next: end })
    } else {
        None
    }
}

/// The number that a sequence of digits denotes to the base ten.
pub open spec fn number(s: Seq<char>) -> nat
    decreases s.len(),
{
    if s.len() == 0 {
        0
    } else {
        number(s.drop_last()) * 10 + (s.last() as nat - '0' as nat) as nat
    }
}

/// An integer literal: one digit or more, that denote a number which an `i64` holds.
pub open spec fn integer(text: Seq<char>, pos: int) -> Option<Parsed<ExprTree>> {
    let end = numerals(text, pos);
    if 0 <= pos < end && number(text.subrange(pos, end)) <= i64::MAX {
        Some(
            Parsed {
                value: ExprTree::Integer(number(text.subrange(pos, end)) as i64),
                next: end,
            },
        )
    } else {
        None
    }
}

/// A boolean literal: `true` or `false`.
pub open spec fn boolean(text: Seq<char>, pos: int) -> Option<Parsed<ExprTree>> {
    if word(text, pos, "true"@) is Some {
        Some(Parsed { value: ExprTree::Boolean(true), next: word(text, pos, "true"@)->0 })
    } else if word(text, pos, "false"@) is Some {
        Some(Parsed { value: ExprTree::Boolean(false), next: word(text, pos, "false"@)->0 })
    } else {
        None
    }
}

/// A variable: a name.
pub open spec fn variable(text: Seq<char>, pos: int) -> Option<Parsed<ExprTree>> {
    match ident(text, pos) {
        Some(name) => Some(Parsed { value: ExprTree::Variable(name.value), next: name.next }),
        None => None,
    }
}

/// The operator that `c` is, if it is one.
pub open spec fn operator(c: char) -> Option<BinOpAst> {
    if c == '+' {
        Some(BinOpAst::Add)
    } else if c == '-' {
        Some(BinOpAst::Sub)
    } else if c == '*' {
        Some(BinOpAst::Mul)
    } else if c == '/' {
        Some(BinOpAst::Div)
    } else {
        None
    }
}

/// How tightly an operator binds: `*` and `/` bind tighter than `+` and `-`.
pub open spec fn level(op: BinOpAst) -> int {
    match op {
        BinOpAst::Add => 0,
        BinOpAst::Sub => 0,
        BinOpAst::Mul => 1,
        BinOpAst::Div => 1,
    }
}

/// An expression: operands with operators between them. Operators of one
/// level group from the left.
pub open spec fn expr(text: Seq<char>, pos: int) -> Option<Parsed<ExprTree>>
    decreases text.len() - pos, 8int,
{
    climb(text, pos, 0)
}

/// An operand with the operators after it that bind at level `min` or tighter.
pub open spec fn climb(text: Seq<char>, pos: int, min: int) -> Option<Parsed<ExprTree>>
    decreases text.len() - pos, 7int,
{
    match forward(text, pos, atom(text, pos)) {
        Some(first) => Some(tail(text, first.next, min, first.value)),
        None => None,
    }
}

/// What follows the operand `left`: as long as an operator that binds at
/// level `min` or tighter stands at `pos` with an operand behind it that
/// binds tighter than the operator, the two operands make one.
pub open spec fn tail(text: Seq<char>, pos: int, min: int, left: ExprTree) -> Parsed<ExprTree>
    decreases text.len() - pos, 1int,
{
    if 0 <= pos < text.len() && operator(text[pos]) is Some && level(operator(text[pos])->0)
        >= min {
        let op = operator(text[pos])->0;
        match forward(text, pos + 1, climb(text, pos + 1, level(op) + 1)) {
            Some(right) => tail(
                text,
                right.next,
                min,
                ExprTree::Binary { lhs: Box::new(left), op, rhs: Box::new(right.value) },
            ),
            None => Parsed { value: left, next: pos },
        }
    } else {
        Parsed { value: left, next: pos }
    }
}

/// An operand: a conditional, a `let`, a call, a literal or a variable,
/// or else an expression in parentheses. Blanks may stand around it.
pub open spec fn atom(text: Seq<char>, pos: int) -> Option<Parsed<ExprTree>>
    decreases text.len() - pos, 6int,
{
    let start = blanks(text, pos);
    proof {
        lemma_blanks(text, pos);
    }
    if pos < 0 || pos > text.len() {
        None
    } else if primary(text, start) is Some {
        Some(
            Parsed {
                value: primary(text, start)->0.value,
                next: blanks(text, primary(text, start)->0.next),
            },
        )
    } else if symbol(text, start, '(') is Some {
        let inner_start = blanks(text, start + 1);
        proof {
            lemma_blanks(text, start + 1);
        }
        match forward(text, inner_start, expr(text, inner_start)) {
            Some(inner) => match symbol(text, blanks(text, inner.next), ')') {
                Some(end) => Some(Parsed { value: inner.value, next: blanks(text, end) }),
                None => None,
            },
            None => None,
        }
    } else {
        None
    }
}

/// The first of these that matches: a conditional, a `let`, a call, an
/// integer, a boolean, a variable.
pub open spec fn primary(text: Seq<char>, pos: int) -> Option<Parsed<ExprTree>>
    decreases text.len() - pos, 5int,
{
    if conditional(text, pos) is Some {
        conditional(text, pos)
    } else if assignment(text, pos) is Some {
        assignment(text, pos)
    } else if call(text, pos) is Some {
        call(text, pos)
    } else if integer(text, pos) is Some {
        integer(text, pos)
    } else if boolean(text, pos) is Some {
        boolean(text, pos)
    } else {
        variable(text, pos)
    }
}

/// A conditional: `if`, the condition, a block, `else`, a block.
pub open spec fn conditional(text: Seq<char>, pos: int) -> Option<Parsed<ExprTree>>
    decreases text.len() - pos, 4int,
{
    match word(text, pos, "if"@) {
        None => None,
        Some(after_if) => {
            let cond_start = blanks(text, after_if);
            proof {
                reveal_strlit("if");
                lemma_blanks(text, after_if);
            }
            match forward(text, cond_start, expr(text, cond_start)) {
                None => None,
                Some(cond) => {
                    let then_start = blanks(text, cond.next);
                    proof {
                        lemma_blanks(text, cond.next);
                    }
                    match forward(text, then_start, block(text, then_start)) {
                        None => None,
                        Some(then) => match word(text, blanks(text, then.next), "else"@) {
                            None => None,
                            Some(after_else) => {
                                let else_start = blanks(text, after_else);
                                proof {
                                    reveal_strlit("else");
                                    lemma_blanks(text, then.next);
                                    lemma_blanks(text, after_else);
                                }
                                match block(text, else_start) {
                                    None => None,
                                    Some(other) => Some(
                                        Parsed {
                                            value: ExprTree::If {
                                                cond_expr: Box::new(cond.value),
                                                then_expr: then.value,
                                                else_expr: other.value,
                                            },
                                            next: blanks(text, other.next),
                                        },
                                    ),
                                }
                            },
                        },
                    }
                },
            }
        },
    }
}

/// The declared type of a `let`: a colon and a name.
pub open spec fn declared_type(text: Seq<char>, pos: int) -> Option<Parsed<Seq<char>>> {
    match symbol(text, pos, ':') {
        Some(after) => ident(text, blanks(text, after)),
        None => None,
    }
}

/// A `let`: `let`, a name, a declared type or none, `=`, an expression.
pub open spec fn assignment(text: Seq<char>, pos: int) -> Option<Parsed<ExprTree>>
    decreases text.len() - pos, 4int,
{
    match word(text, pos, "let"@) {
        None => None,
        Some(after_let) => match ident(text, blanks(text, after_let)) {
            None => None,
            Some(name) => {
                let type_start = blanks(text, name.next);
                let declared = declared_type(text, type_start);
                let after_type = match declared {
                    Some(t) => t.next,
                    None => type_start,
                };
                match symbol(text, blanks(text, after_type), '=') {
                    None => None,
                    Some(after_eq) => {
                        let start = blanks(text, after_eq);
                        proof {
                            reveal_strlit("let");
                            lemma_blanks(text, after_let);
                            lemma_letters(text, blanks(text, after_let));
                            lemma_blanks(text, name.next);
                            lemma_blanks(text, type_start + 1);
                            lemma_letters(text, blanks(text, type_start + 1));
                            lemma_blanks(text, after_type);
                            lemma_blanks(text, after_eq);
                        }
                        match expr(text, start) {
                            None => None,
                            Some(bound) => Some(
                                Parsed {
                                    value: ExprTree::Assignment {
                                        name: name.value,
                                        maybe_type: match declared {
                                            Some(t) => Some(t.value),
                                            None => None,
                                        },
                                        expr: Box::new(bound.value),
                                    },
                                    next: bound.next,
                                },
                            ),
                        }
                    },
                }
            },
        },
    }
}

/// A call: a name, and right behind it the arguments in parentheses, with
/// commas between them and, if one likes, a comma behind the last.
pub open spec fn call(text: Seq<char>, pos: int) -> Option<Parsed<ExprTree>>
    decreases text.len() - pos, 4int,
{
    match ident(text, pos) {
        None => None,
        Some(name) => match symbol(text, name.next, '(') {
            None => None,
            Some(open) => {
                proof {
                    lemma_letters(text, pos);
                }
                let args = list(text, open, ',');
                let after = blanks(text, args.next);
                let before_close = match symbol(text, after, ',') {
                    Some(p) => p,
                    None => after,
                };
                match symbol(text, before_close, ')') {
                    None => None,
                    Some(end) => Some(
                        Parsed {
                            value: ExprTree::FunctionCall { name: name.value, args: args.value },
                            next: end,
                        },
                    ),
                }
            },
        },
    }
}

/// Expressions with the separator `sep` between them: as many as there are, or none.
pub open spec fn list(text: Seq<char>, pos: int, sep: char) -> Parsed<Seq<ExprTree>>
    decreases text.len() - pos, 9int,
{
    match forward(text, pos, expr(text, pos)) {
        Some(first) => more(text, first.next, sep, seq![first.value]),
        None => Parsed { value: Seq::empty(), next: pos },
    }
}

/// The expressions after those in `found`: as long as the separator stands
/// at `pos` with an expression behind it.
pub open spec fn more(text: Seq<char>, pos: int, sep: char, found: Seq<ExprTree>) -> Parsed<
    Seq<ExprTree>,
>
    decreases text.len() - pos, 1int,
{
    if 0 <= pos < text.len() && text[pos] == sep {
        match forward(text, pos + 1, expr(text, pos + 1)) {
            Some(next) => more(text, next.next, sep, found.push(next.value)),
            None => Parsed { value: found, next: pos },
        }
    } else {
        Parsed { value: found, next: pos }
    }
}

/// A block: expressions in braces, with semicolons between them and, if
/// one likes, a semicolon behind the last.
pub open spec fn block(text: Seq<char>, pos: int) -> Option<Parsed<BlockTree>>
    decreases text.len() - pos, 4int,
{
    match symbol(text, pos, '{') {
        None => None,
        Some(open) => {
            let exprs = list(text, open, ';');
            let after = blanks(text, exprs.next);
            let closing = match symbol(text, after, ';') {
                Some(p) => p,
                None => after,
            };
            match symbol(text, blanks(text, closing), '}') {
                None => None,
                Some(end) => Some(
                    Parsed {
                        value: BlockTree {
                            exprs: exprs.value,
                            trailing_semi: symbol(text, after, ';') is Some,
                        },
                        next: end,
                    },
                ),
            }
        },
    }
}

/// A parameter: a name, a colon, the name of its type. Blanks may stand around each.
pub open spec fn param(text: Seq<char>, pos: int) -> Option<Parsed<ParamTree>> {
    match ident(text, blanks(text, pos)) {
        None => None,
        Some(name) => match symbol(text, blanks(text, name.next), ':') {
            None => None,
            Some(colon) => match ident(text, blanks(text, colon)) {
                None => None,
                Some(arg_type) => Some(
                    Parsed {
                        value: ParamTree { name: name.value, arg_type: arg_type.value },
                        next: blanks(text, arg_type.next),
                    },
                ),
            },
        },
    }
}

/// Parameters with commas between them: as many as there are, or none.
pub open spec fn params(text: Seq<char>, pos: int) -> Parsed<Seq<ParamTree>> {
    match forward(text, pos, param(text, pos)) {
        Some(first) => more_params(text, first.next, seq![first.value]),
        None => Parsed { value: Seq::empty(), next: pos },
    }
}

/// The parameters after those in `found`: as long as a comma stands at
/// `pos` with a parameter behind it.
pub open spec fn more_params(text: Seq<char>, pos: int, found: Seq<ParamTree>) -> Parsed<
    Seq<ParamTree>,
>
    decreases text.len() - pos,
{
    if 0 <= pos < text.len() && text[pos] == ',' {
        match forward(text, pos + 1, param(text, pos + 1)) {
            Some(next) => more_params(text, next.next, found.push(next.value)),
            None => Parsed { value: found, next: pos },
        }
    } else {
        Parsed { value: found, next: pos }
    }
}

/// A function declaration: `pub` or not, `def`, the name, the parameters
/// in parentheses, with commas between them and, if one likes, a comma
/// behind the last, `->`, the name of the result type, and the body, a block.
pub open spec fn function(text: Seq<char>, pos: int) -> Option<Parsed<FunctionTree>> {
    let is_pub = word(text, pos, "pub"@) is Some;
    let after_pub = match word(text, pos, "pub"@) {
        Some(p) => p,
        None => pos,
    };
    match word(text, blanks(text, after_pub), "def"@) {
        None => None,
        Some(after_def) => match ident(text, blanks(text, after_def)) {
            None => None,
            Some(name) => match symbol(text, blanks(text, name.next), '(') {
                None => None,
                Some(open) => {
                    let fn_args = params(text, blanks(text, open));
                    let after = blanks(text, fn_args.next);
                    let before_close = match symbol(text, after, ',') {
                        Some(p) => p,
                        None => after,
                    };
                    match symbol(text, blanks(text, before_close), ')') {
                        None => None,
                        Some(close) => match word(text, blanks(text, close), "->"@) {
                            None => None,
                            Some(arrow) => match ident(text, blanks(text, arrow)) {
                                None => None,
                                Some(return_type) => match block(
                                    text,
                                    blanks(text, return_type.next),
                                ) {
                                    None => None,
                                    Some(body) => Some(
                                        Parsed {
                                            value: FunctionTree {
                                                name: name.value,
                                                is_pub,
                                                fn_args: fn_args.value,
                                                return_type: return_type.value,
                                                block: body.value,
                                            },
                                            next: blanks(text, body.next),
                                        },
                                    ),
                                },
                            },
                        },
                    }
                },
            },
        },
    }
}

/// A statement: a function declaration. Blanks may stand around it.
pub open spec fn statement(text: Seq<char>, pos: int) -> Option<Parsed<StatementTree>> {
    match function(text, blanks(text, pos)) {
        None => None,
        Some(f) => Some(
            Parsed { value: StatementTree::Function(f.value), next: blanks(text, f.next) },
        ),
    }
}

/// The statements after those in `found`: as many as there are.
pub open spec fn statements(text: Seq<char>, pos: int, found: Seq<StatementTree>) -> Parsed<
    Seq<StatementTree>,
>
    decreases text.len() - pos,
{
    match statement(text, pos) {
        Some(next) => if pos < next.next <= text.len() {
            statements(text, next.next, found.push(next.value))
        } else {
            Parsed { value: found, next: pos }
        },
        None => Parsed { value: found, next: pos },
    }
}

/// Where the statements at the beginning of the text end: the text is a
/// module if and only if that is the end of the text.
pub open spec fn stop(text: Seq<char>) -> int {
    statements(text, 0, Seq::empty()).next
}

/// What is reported of a text that is no module: how far it is one.
pub open spec fn complaint(text: Seq<char>) -> Seq<char> {
    "syntax error at character "@ + digits(stop(text) as nat)
}

/// A module: statements, and nothing after them.
pub open spec fn module(text: Seq<char>) -> Option<ModuleTree> {
    let all = statements(text, 0, Seq::empty());
    if all.next == text.len() {
        Some(ModuleTree { statements: all.value })
    } else {
        None
    }
}

/// The blanks end where they begin or later, and not after the text.
pub proof fn lemma_blanks(text: Seq<char>, pos: int)
    ensures
        pos <= blanks(text, pos),
        pos <= text.len() ==> blanks(text, pos) <= text.len(),
    decreases text.len() - pos,
{
    if 0 <= pos < text.len() && is_blank(text[pos]) {
        lemma_blanks(text, pos + 1);
    }
}

/// The letters end where they begin or later, and not after the text.
pub proof fn lemma_letters(text: Seq<char>, pos: int)
    ensures
        pos <= letters(text, pos),
        pos <= text.len() ==> letters(text, pos) <= text.len(),
    decreases text.len() - pos,
{
    if 0 <= pos < text.len() && is_letter(text[pos]) {
        lemma_letters(text, pos + 1);
    }
}

} // verus!

//! The syntax tree: what the parser produces and the checker and the code
//! generator consume.

use vstd::prelude::*;
use vstd::std_specs::cmp::PartialEqSpecImpl;
use crate::tree::{block_tree, expr_tree, expr_trees, function_tree, module_tree, statement_tree};

verus! {

/// A parsed module.
#[derive(Debug)]
pub struct ModuleAst {
    pub statements: Vec<StatementAst>,
}

impl ModuleAst {
    /// The module of these statements.
    pub fn from_statements(statements: Vec<StatementAst>) -> (module: ModuleAst)
        ensures
            module.statements == statements,
    {
        ModuleAst { statements }
    }
}

/// What a module is made of.
#[derive(Debug)]
pub enum StatementAst {
    Function(FunctionAst),
}

/// A function declaration. The declared types of the parameters and of the
/// result are names; the checker knows `Integer` and `Bool`.
#[derive(Debug)]
pub struct FunctionAst {
    pub name: IdentAst,
    pub is_pub: bool,
    pub fn_args: Vec<FunctionArgAst>,
    pub return_type: IdentAst,
    pub block: BlockAst,
}

impl FunctionAst {
    /// The function declaration of these parts.
    pub fn new(
        name: IdentAst,
        is_pub: bool,
        fn_args: Vec<FunctionArgAst>,
        return_type: IdentAst,
        block: BlockAst,
    ) -> (function: FunctionAst)
        ensures
            function.name == name,
            function.is_pub == is_pub,
            function.fn_args == fn_args,
            function.return_type == return_type,
            function.block == block,
    {
        FunctionAst { name, is_pub, fn_args, return_type, block }
    }
}

/// A sequence of expressions. With `trailing_semi` the block ends with a
/// separator and has no value; without it the value of the last expression
/// is the value of the block.
#[derive(Debug)]
pub struct BlockAst {
    pub exprs: Vec<Box<ExprAst>>,
    pub trailing_semi: bool,
}

/// Every element of `boxed` holds the element of `plain` at its place.
pub open spec fn boxes_of(boxed: Seq<Box<ExprAst>>, plain: Seq<ExprAst>) -> bool {
    &&& boxed.len() == plain.len()
    &&& forall|i: int| 0 <= i < boxed.len() ==> *#[trigger] boxed[i] == plain[i]
}

fn box_all(exprs: Vec<ExprAst>) -> (boxed: Vec<Box<ExprAst>>)
    ensures
        boxes_of(boxed@, exprs@),
{
    let ghost plain = exprs@;
    let mut rest = exprs;
    let mut reversed: Vec<Box<ExprAst>> = Vec::new();
    while rest.len() > 0
        invariant
            rest@.len() + reversed@.len() == plain.len(),
            forall|i: int| 0 <= i < rest@.len() ==> rest@[i] == plain[i],
            forall|i: int|
                0 <= i < reversed@.len() ==> *#[trigger] reversed@[i] == plain[plain.len() - 1 - i],
        decreases rest@.len(),
    {
        let e = rest.pop().unwrap();
        reversed.push(Box::new(e));
    }
    let mut boxed: Vec<Box<ExprAst>> = Vec::new();
    while reversed.len() > 0
        invariant
            reversed@.len() + boxed@.len() == plain.len(),
            forall|i: int|
                0 <= i < reversed@.len() ==> *#[trigger] reversed@[i] == plain[plain.len() - 1 - i],
            forall|i: int| 0 <= i < boxed@.len() ==> *#[trigger] boxed@[i] == plain[i],
        decreases reversed@.len(),
    {
        let b = reversed.pop().unwrap();
        boxed.push(b);
    }
    boxed
}

impl BlockAst {
    /// The block of these expressions, in their order.
    pub fn new(exprs: Vec<ExprAst>, trailing_semi: bool) -> (block: BlockAst)
        ensures
            boxes_of(block.exprs@, exprs@),
            block.trailing_semi == trailing_semi,
    {
        BlockAst { exprs: box_all(exprs), trailing_semi }
    }
}

/// A parameter of a function: its name and the name of its declared type.
#[derive(Debug)]
pub struct FunctionArgAst {
    pub name: IdentAst,
    pub arg_type: IdentAst,
}

/// An expression.
#[derive(Debug)]
pub enum ExprAst {
    Boolean(bool),
    Integer(i64),
    Variable(IdentAst),
    FunctionCall { name: IdentAst, args: Vec<Box<ExprAst>> },
    /// A `let`: binds `name` in the scope where it stands. The declared type is not checked.
    Assignment { name: IdentAst, maybe_type: Option<IdentAst>, expr: Box<ExprAst> },
    Binary { lhs: Box<ExprAst>, op: BinOpAst, rhs: Box<ExprAst> },
    If { cond_expr: Box<ExprAst>, then_expr: BlockAst, else_expr: BlockAst },
}

impl ExprAst {
    /// The call of `name` with these arguments, in their order.
    pub fn new_fn_call(name: IdentAst, args: Vec<ExprAst>) -> (call: ExprAst)
        ensures
            call matches ExprAst::FunctionCall { name: n, args: a } && n == name && boxes_of(
                a@,
                args@,
            ),
    {
        ExprAst::FunctionCall { name, args: box_all(args) }
    }
}

/// An operator between two operands.
#[derive(Debug, Clone, Copy)]
pub enum BinOpAst {
    Add,
    Sub,
    Mul,
    Div,
}

impl BinOpAst {
    /// The operator as it is written.
    pub open spec fn symbol(self) -> Seq<char> {
        match self {
            BinOpAst::Add => seq!['+'],
            BinOpAst::Sub => seq!['-'],
            BinOpAst::Mul => seq!['*'],
            BinOpAst::Div => seq!['/'],
        }
    }

    /// The operator as it is written.
    pub fn as_str(&self) -> (s: &'static str)
        ensures
            s@ == self.symbol(),
    {
        proof {
            reveal_strlit("+");
            reveal_strlit("-");
            reveal_strlit("*");
            reveal_strlit("/");
        }
        let s = match self {
            BinOpAst::Add => "+",
            BinOpAst::Sub => "-",
            BinOpAst::Mul => "*",
            BinOpAst::Div => "/",
        };
        s
    }

    /// The operator as it is written.
    pub fn to_string(&self) -> (s: String)
        ensures
            s@ == self.symbol(),
    {
        String::from_str(self.as_str())
    }
}

/// A name.
#[derive(Debug, Eq, Hash)]
pub struct IdentAst {
    pub name: String,
}

impl View for IdentAst {
    type V = Seq<char>;

    open spec fn view(&self) -> Seq<char> {
        self.name@
    }
}

impl Clone for IdentAst {
    fn clone(&self) -> (copy: IdentAst)
        ensures
            copy == *self,
    {
        IdentAst { name: self.name.clone() }
    }
}

impl PartialEq for IdentAst {
    fn eq(&self, other: &IdentAst) -> (equal: bool) {
        self.name == other.name
    }
}

impl PartialEqSpecImpl for IdentAst {
    open spec fn obeys_eq_spec() -> bool {
        true
    }

    open spec fn eq_spec(&self, other: &IdentAst) -> bool {
        self.name@ == other.name@
    }
}

impl IdentAst {
    /// The name that is written `s`.
    pub fn from_str(s: &str) -> (ident: IdentAst)
        ensures
            ident@ == s@,
    {
        IdentAst { name: String::from_str(s) }
    }

    /// The name as it is written.
    pub fn as_str(&self) -> (s: &str)
        ensures
            s@ == self@,
    {
        self.name.as_str()
    }

    /// The name as it is written, as a text of its own.
    pub fn as_string(&self) -> (s: String)
        ensures
            s@ == self@,
    {
        self.name.clone()
    }

    /// The name as it is written.
    pub fn to_string(&self) -> (s: String)
        ensures
            s@ == self@,
    {
        self.name.clone()
    }
}


fn clone_expr(e: &ExprAst) -> (copy: ExprAst)
    ensures
        expr_tree(copy) == expr_tree(*e),
    decreases e,
{
    match e {
        ExprAst::Boolean(b) => ExprAst::Boolean(*b),
        ExprAst::Integer(i) => ExprAst::Integer(*i),
        ExprAst::Variable(name) => ExprAst::Variable(name.clone()),
        ExprAst::FunctionCall { name, args } => ExprAst::FunctionCall {
            name: name.clone(),
            args: clone_exprs(args),
        },
        ExprAst::Assignment { name, maybe_type, expr } => ExprAst::Assignment {
            name: name.clone(),
            maybe_type: match maybe_type {
                Some(t) => Some(t.clone()),
                None => None,
            },
            expr: Box::new(clone_expr(expr)),
        },
        ExprAst::Binary { lhs, op, rhs } => ExprAst::Binary {
            lhs: Box::new(clone_expr(lhs)),
            op: *op,
            rhs: Box::new(clone_expr(rhs)),
        },
        ExprAst::If { cond_expr, then_expr, else_expr } => ExprAst::If {
            cond_expr: Box::new(clone_expr(cond_expr)),
            then_expr: clone_block(then_expr),
            else_expr: clone_block(else_expr),
        },
    }
}

fn clone_exprs(exprs: &Vec<Box<ExprAst>>) -> (copy: Vec<Box<ExprAst>>)
    ensures
        expr_trees(copy@) == expr_trees(exprs@),
    decreases exprs,
{
    let mut copy: Vec<Box<ExprAst>> = Vec::new();
    let mut i: usize = 0;
    proof {
        assert(exprs@.take(0) =~= Seq::<Box<ExprAst>>::empty());
    }
    while i < exprs.len()
        invariant
            i <= exprs.len(),
            expr_trees(copy@) == expr_trees(exprs@.take(i as int)),
        decreases exprs.len() - i,
    {
        proof {
            assert(exprs@.take(i + 1).drop_last() =~= exprs@.take(i as int));
        }
        let ghost before = copy@;
        copy.push(Box::new(clone_expr(&exprs[i])));
        proof {
            assert(copy@.drop_last() =~= before);
        }
        i += 1;
    }
    proof {
        assert(exprs@.take(i as int) =~= exprs@);
    }
    copy
}

fn clone_block(block: &BlockAst) -> (copy: BlockAst)
    ensures
        block_tree(copy) == block_tree(*block),
    decreases block,
{
    BlockAst { exprs: clone_exprs(&block.exprs), trailing_semi: block.trailing_semi }
}

impl Clone for ExprAst {
    /// A copy that is the same program.
    fn clone(&self) -> (copy: ExprAst)
        ensures
            expr_tree(copy) == expr_tree(*self),
    {
        clone_expr(self)
    }
}

impl Clone for BlockAst {
    /// A copy that is the same program.
    fn clone(&self) -> (copy: BlockAst)
        ensures
            block_tree(copy) == block_tree(*self),
    {
        clone_block(self)
    }
}

impl Clone for FunctionArgAst {
    fn clone(&self) -> (copy: FunctionArgAst)
        ensures
            copy == *self,
    {
        FunctionArgAst { name: self.name.clone(), arg_type: self.arg_type.clone() }
    }
}

impl Clone for FunctionAst {
    /// A copy that is the same program.
    fn clone(&self) -> (copy: FunctionAst)
        ensures
            function_tree(copy) == function_tree(*self),
    {
        let mut fn_args: Vec<FunctionArgAst> = Vec::new();
        let mut i: usize = 0;
        while i < self.fn_args.len()
            invariant
                i <= self.fn_args.len(),
                fn_args@.len() == i,
                forall|k: int| 0 <= k < i ==> fn_args@[k] == self.fn_args@[k],
            decreases self.fn_args.len() - i,
        {
            fn_args.push(self.fn_args[i].clone());
            i += 1;
        }
        let copy = FunctionAst {
            name: self.name.clone(),
            is_pub: self.is_pub,
            fn_args,
            return_type: self.return_type.clone(),
            block: self.block.clone(),
        };
        proof {
            assert(function_tree(copy).fn_args =~= function_tree(*self).fn_args);
        }
        copy
    }
}

impl Clone for StatementAst {
    /// A copy that is the same program.
    fn clone(&self) -> (copy: StatementAst)
        ensures
            statement_tree(copy) == statement_tree(*self),
    {
        match self {
            StatementAst::Function(f) => StatementAst::Function(f.clone()),
        }
    }
}

impl Clone for ModuleAst {
    /// A copy that is the same program.
    fn clone(&self) -> (copy: ModuleAst)
        ensures
            module_tree(copy) == module_tree(*self),
    {
        let mut statements: Vec<StatementAst> = Vec::new();
        let mut i: usize = 0;
        while i < self.statements.len()
            invariant
                i <= self.statements.len(),
                statements@.len() == i,
                forall|k: int|
                    0 <= k < i ==> statement_tree(statements@[k]) == statement_tree(
                        self.statements@[k],
                    ),
            decreases self.statements.len() - i,
        {
            statements.push(self.statements[i].clone());
            i += 1;
        }
        let copy = ModuleAst { statements };
        proof {
            assert(module_tree(copy).statements =~= module_tree(*self).statements);
        }
        copy
    }
}

} // verus!

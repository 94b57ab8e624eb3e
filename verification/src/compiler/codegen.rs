//! The code generator: writes a module as text.

use vstd::prelude::*;
use vstd::string::StringExecFns;
use crate::ast::{BlockAst, ExprAst, FunctionArgAst, ModuleAst, StatementAst};
use crate::compiler::text::{
    args_text, block_text, expr_text, function_text, items_text, module_text, params_text,
    statements_text,
};
use crate::decimal::write_decimal;
use crate::error::CompileError;

verus! {

/// The code generator.
pub struct Compiler;

impl Compiler {
    /// A code generator. It holds nothing.
    pub fn new() -> (compiler: Compiler) {
        Compiler {  }
    }

    /// The text of a module. Never fails.
    pub fn compile_module(&self, module_ast: ModuleAst) -> (r: Result<String, CompileError>)
        ensures
            r matches Ok(text) && text@ == module_text(module_ast),
    {
        let mut output: String = String::new();
        let mut i: usize = 0;
        proof {
            assert(module_ast.statements@.take(0) =~= Seq::<StatementAst>::empty());
        }
        while i < module_ast.statements.len()
            invariant
                i <= module_ast.statements.len(),
                output@ == items_text(module_ast.statements@.take(i as int)),
            decreases module_ast.statements.len() - i,
        {
            proof {
                assert(module_ast.statements@.take(i + 1).drop_last()
                    =~= module_ast.statements@.take(i as int));
            }
            let ghost before = output@;
            match &module_ast.statements[i] {
                StatementAst::Function(function) => {
                    output.append("function ");
                    output.append(function.name.as_str());
                    output.append("(");
                    self.visit_params(&function.fn_args, &mut output);
                    output.append("){");
                    self.visit_block(&function.block, &mut output);
                    output.append("}");
                    output.append("\n");
                    proof {
                        assert(output@ =~= before + function_text(*function));
                    }
                },
            }
            i += 1;
        }
        proof {
            assert(module_ast.statements@.take(i as int) =~= module_ast.statements@);
        }
        output.append("document.getElementById(\"app-root\").innerHTML = main(true)");
        Ok(output)
    }

    /// Writes the parameters of a function.
    fn visit_params(&self, args: &Vec<FunctionArgAst>, output: &mut String)
        ensures
            final(output)@ == old(output)@ + params_text(args@),
    {
        let mut i: usize = 0;
        proof {
            assert(output@ =~= old(output)@ + params_text(args@.take(0)));
        }
        while i < args.len()
            invariant
                i <= args.len(),
                output@ == old(output)@ + params_text(args@.take(i as int)),
            decreases args.len() - i,
        {
            proof {
                assert(args@.take(i + 1).drop_last() =~= args@.take(i as int));
            }
            output.append(args[i].name.as_str());
            output.append(",");
            proof {
                assert(output@ =~= old(output)@ + params_text(args@.take(i + 1)));
            }
            i += 1;
        }
        proof {
            assert(args@.take(i as int) =~= args@);
        }
    }

    /// Writes a block.
    pub fn visit_block(&self, block: &BlockAst, output: &mut String) -> (r: Result<
        (),
        CompileError,
    >)
        ensures
            r is Ok,
            final(output)@ == old(output)@ + block_text(*block),
        decreases block,
    {
        let length = block.exprs.len();
        let mut index: usize = 0;
        proof {
            assert(output@ =~= old(output)@ + statements_text(block.exprs@.take(0), false));
        }
        while index < length
            invariant
                length == block.exprs.len(),
                index <= length,
                index < length ==> output@ == old(output)@ + statements_text(
                    block.exprs@.take(index as int),
                    false,
                ),
                index == length ==> output@ == old(output)@ + block_text(*block),
            decreases length - index,
        {
            proof {
                assert(block.exprs@.take(index + 1).drop_last() =~= block.exprs@.take(
                    index as int,
                ));
            }
            let yields = index + 1 == length && !block.trailing_semi;
            if yields {
                output.append("return ");
            }
            let _ = self.visit_expr(&block.exprs[index], output);
            output.append(";");
            proof {
                assert(output@ =~= old(output)@ + statements_text(
                    block.exprs@.take(index + 1),
                    yields,
                ));
            }
            index += 1;
        }
        Ok(())
    }

    /// Writes the arguments of a call.
    fn visit_args(&self, args: &Vec<Box<ExprAst>>, output: &mut String)
        ensures
            final(output)@ == old(output)@ + args_text(args@),
        decreases args,
    {
        let mut i: usize = 0;
        proof {
            assert(output@ =~= old(output)@ + args_text(args@.take(0)));
        }
        while i < args.len()
            invariant
                i <= args.len(),
                output@ == old(output)@ + args_text(args@.take(i as int)),
            decreases args.len() - i,
        {
            proof {
                assert(args@.take(i + 1).drop_last() =~= args@.take(i as int));
            }
            let _ = self.visit_expr(&args[i], output);
            output.append(",");
            proof {
                assert(output@ =~= old(output)@ + args_text(args@.take(i + 1)));
            }
            i += 1;
        }
        proof {
            assert(args@.take(i as int) =~= args@);
        }
    }

    /// Writes an expression.
    pub fn visit_expr(&self, expr: &ExprAst, output: &mut String) -> (r: Result<(), CompileError>)
        ensures
            r is Ok,
            final(output)@ == old(output)@ + expr_text(*expr),
        decreases expr,
    {
        match expr {
            ExprAst::Integer(i) => {
                write_decimal(*i, output);
            },
            ExprAst::Boolean(b) => {
                if *b {
                    output.append("true");
                } else {
                    output.append("false");
                }
            },
            ExprAst::Variable(v) => {
                output.append(v.as_str());
            },
            ExprAst::FunctionCall { name, args } => {
                output.append(name.as_str());
                output.append("(");
                self.visit_args(args, output);
                output.append(")");
                proof {
                    assert(output@ =~= old(output)@ + expr_text(*expr));
                }
            },
            ExprAst::Assignment { name, maybe_type, expr: bound } => {
                output.append("const ");
                output.append(name.as_str());
                output.append("=");
                let _ = self.visit_expr(bound, output);
                proof {
                    assert(output@ =~= old(output)@ + expr_text(*expr));
                }
            },
            ExprAst::Binary { lhs, op, rhs } => {
                let _ = self.visit_expr(lhs, output);
                output.append(op.as_str());
                let _ = self.visit_expr(rhs, output);
                proof {
                    assert(output@ =~= old(output)@ + expr_text(*expr));
                }
            },
            ExprAst::If { cond_expr, then_expr, else_expr } => {
                output.append("(function(){if(");
                let _ = self.visit_expr(cond_expr, output);
                output.append("){");
                let _ = self.visit_block(then_expr, output);
                output.append("}else{");
                let _ = self.visit_block(else_expr, output);
                output.append("}})()");
                proof {
                    assert(output@ =~= old(output)@ + expr_text(*expr));
                }
            },
        }
        Ok(())
    }
}

} // verus!

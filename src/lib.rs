//! An ahead-of-time compiler for a small expression language: lexing,
//! parsing, name checking, lowering to a virtual-register IR, register
//! allocation, x86-64 emission and ELF64 packaging.

pub mod lexer;
pub mod ast;
pub mod parser;
pub mod ir;
pub mod text;
pub mod regalloc;
pub mod encode;
pub mod assembler;
pub mod elf;
pub mod lower;
pub mod semantic;
pub mod compile;
pub mod labels;
pub mod driver;
pub mod success;

pub use assembler::Assembler;
pub use ast::{
    AssignStatementNode, BinaryExprNode, BlockNode, CallExprNode, CstNode, CstRoot, ElseBodyNode,
    ElseClauseNode, ErrorNode, ExpressionNode, ExpressionStatementNode, FunctionNode,
    IfStatementNode, LetStatementNode, ParamListNode, StatementNode, TokenNode, Trivia,
    WhileStatementNode,
};
pub use compile::compile_to_executable;
pub use driver::{CompileError, SourceFile, analyze_source, compile_source, parse_source};
pub use ir::{BinOp, CodegenError, Instruction, LabelId, Register, VReg, Value};
pub use lexer::{Lexer, Span, Token, TokenKind};
pub use lower::Codegen;
pub use parser::{ParseError, Parser, parse};
pub use regalloc::RegisterAllocator;
pub use semantic::{FunctionSignature, RueType, Scope, SemanticError, analyze_cst};

//! The front-to-back pipeline on source text: lex, parse, check, compile.
use crate::ast::CstRoot;
use crate::compile::{compile_spec, compile_to_executable, lemma_output_is_elf};
use crate::lexer::{Lexer, Span, lex_failure, lexable_from};
use crate::parser::{ParseError, parse, wf_items};
use crate::semantic::{
    Scope, ScopeView, SemanticError, analyze_cst, check_items, empty_scope,
};
use crate::text::join;
use vstd::prelude::*;
use vstd::string::StringExecFns;

verus! {

/// Whether `s` begins with `prefix`.
pub open spec fn starts_with(s: Seq<char>, prefix: Seq<char>) -> bool {
    prefix.len() <= s.len() && s.subrange(0, prefix.len() as int) == prefix
}

/// A source file: where it came from and what it says.
#[derive(Debug, Clone, PartialEq)]
pub struct SourceFile {
    pub path: String,
    pub text: String,
}

/// A compilation failure, with the message of the stage that failed.
#[derive(Debug, Clone, PartialEq)]
pub struct CompileError {
    pub message: String,
}

impl SourceFile {
    pub fn new(path: String, text: String) -> (r: SourceFile)
        ensures
            r.path == path,
            r.text == text,
    {
        SourceFile { path, text }
    }
}

/// Lexes and parses source text. Text that starts no token is reported at
/// the offending character.
pub fn parse_source(text: &str) -> (r: Result<CstRoot, ParseError>)
    ensures
        r is Ok ==> wf_items(r->Ok_0.items@) && lexable_from(text@, 0),
        !lexable_from(text@, 0) ==> r is Err && r->Err_0.message@ == "Unexpected character"@
            && r->Err_0.span.start == lex_failure(text@, 0),
{
    let mut lexer = Lexer::new(text);
    match lexer.try_tokenize() {
        Ok(tokens) => parse(tokens),
        Err(at) => {
            let end = if at < usize::MAX {
                at + 1
            } else {
                at
            };
            Err(
                ParseError {
                    message: String::from_str("Unexpected character"),
                    span: Span { start: at, end },
                },
            )
        },
    }
}

/// Parses and checks source text; a parse error is reported as a semantic
/// error whose message starts with `Parse error: `.
pub fn analyze_source(text: &str) -> (r: Result<(CstRoot, Scope), SemanticError>)
    ensures
        r is Ok ==> wf_items(r->Ok_0.0.items@) && check_items(r->Ok_0.0.items@, empty_scope())
            == Ok::<ScopeView, (Seq<char>, Span)>(r->Ok_0.1.view()),
        r is Err ==> starts_with(r->Err_0.message@, "Parse error: "@) || exists|ast: CstRoot|
            wf_items(ast.items@) && check_items(ast.items@, empty_scope()) == Err::<
                ScopeView,
                (Seq<char>, Span),
            >((r->Err_0.message@, r->Err_0.span)),
{
    let ast = match parse_source(text) {
        Ok(ast) => ast,
        Err(e) => {
            let m = join("Parse error: ", e.message.as_str());
            proof {
                reveal_strlit("Parse error: ");
                assert(m@.subrange(0, 13) =~= "Parse error: "@);
                assert(starts_with(m@, "Parse error: "@));
            }
            return Err(SemanticError { message: m, span: e.span });
        },
    };
    match analyze_cst(&ast) {
        Ok(scope) => Ok((ast, scope)),
        Err(e) => {
            assert(wf_items(ast.items@));
            Err(e)
        },
    }
}

/// Compiles source text to an executable image.
pub fn compile_source(text: &str) -> (r: Result<Vec<u8>, CompileError>)
    ensures
        r is Ok ==> r->Ok_0@.len() >= 4 && r->Ok_0@.subrange(0, 4) == seq![
            0x7fu8,
            0x45u8,
            0x4cu8,
            0x46u8,
        ],
        r is Ok ==> exists|ast: CstRoot|
            wf_items(ast.items@) && check_items(ast.items@, empty_scope()) is Ok && compile_spec(
                ast.items@,
            ) == Ok::<Seq<u8>, Seq<char>>(r->Ok_0@),
        r is Err ==> starts_with(r->Err_0.message@, "Semantic error: "@) || exists|ast: CstRoot|
            wf_items(ast.items@) && check_items(ast.items@, empty_scope()) is Ok && compile_spec(
                ast.items@,
            ) == Err::<Seq<u8>, Seq<char>>(r->Err_0.message@),
{
    let (ast, scope) = match analyze_source(text) {
        Ok(x) => x,
        Err(e) => {
            let m = join("Semantic error: ", e.message.as_str());
            proof {
                reveal_strlit("Semantic error: ");
                assert(m@.subrange(0, 16) =~= "Semantic error: "@);
                assert(starts_with(m@, "Semantic error: "@));
            }
            return Err(CompileError { message: m });
        },
    };
    let ghost tree = ast;
    assert(wf_items(tree.items@) && check_items(tree.items@, empty_scope()) is Ok);
    match compile_to_executable(&ast, &scope) {
        Ok(executable) => {
            proof {
                lemma_output_is_elf(tree.items@);
                assert(compile_spec(tree.items@) == Ok::<Seq<u8>, Seq<char>>(executable@));
            }
            Ok(executable)
        },
        Err(e) => {
            assert(compile_spec(tree.items@) == Err::<Seq<u8>, Seq<char>>(e.message@));
            Err(CompileError { message: e.message })
        },
    }
}

} // verus!

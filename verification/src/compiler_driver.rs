//! The driver's decision logic: the ordered stage-limit setting, the
//! filename rules, the configuration check, and the whole in-memory
//! compilation from source text to assembly text. Invoking the external
//! toolchain and touching files is left to the surrounding program.

use vstd::prelude::*;
use vstd::string::StrSliceExecFns;
use vstd::string::StringExecFns;

use crate::ast_nodes::c_nodes::CProgram;
use crate::codegen::{asm_program_of, gen_asm_program, lemma_generated_program_is_legal};
use crate::emit::{emit_asm_program, render_program};
use crate::lexer::{lex_spec, Lexer};
use crate::parser::{
    lemma_lex_failure_fails_parse, lemma_parse_agrees_with_token_grammar, parse_program_src,
    parse_program_tokens, Parser,
};
use crate::tackygen::{gen_tacky_program, lower_program};

verus! {

/// The furthest stage the driver runs, in pipeline order.
/// `EmitReferenceAssembly` is a separate branch that asks the external
/// toolchain for reference assembly instead of compiling.
#[derive(Debug, Clone, Copy, PartialEq, Eq, Structural)]
pub enum CompilerDriverOption {
    EmitReferenceAssembly,
    Lex,
    Parse,
    Tacky,
    Codegen,
    EmitAssembly,
    All,
}

/// The position of a stage limit in the pipeline order.
pub open spec fn stage_rank(option: CompilerDriverOption) -> int {
    match option {
        CompilerDriverOption::EmitReferenceAssembly => 0,
        CompilerDriverOption::Lex => 1,
        CompilerDriverOption::Parse => 2,
        CompilerDriverOption::Tacky => 3,
        CompilerDriverOption::Codegen => 4,
        CompilerDriverOption::EmitAssembly => 5,
        CompilerDriverOption::All => 6,
    }
}

impl CompilerDriverOption {
    /// The stage limit's position in the pipeline order, for deciding
    /// which stages still run.
    pub fn rank(&self) -> (r: u8)
        ensures
            r as int == stage_rank(*self),
    {
        match self {
            CompilerDriverOption::EmitReferenceAssembly => 0,
            CompilerDriverOption::Lex => 1,
            CompilerDriverOption::Parse => 2,
            CompilerDriverOption::Tacky => 3,
            CompilerDriverOption::Codegen => 4,
            CompilerDriverOption::EmitAssembly => 5,
            CompilerDriverOption::All => 6,
        }
    }
}

impl Default for CompilerDriverOption {
    /// With no stage limit given, everything runs.
    fn default() -> (r: CompilerDriverOption)
        ensures
            r == CompilerDriverOption::All,
    {
        CompilerDriverOption::All
    }
}

/// Mathematical model of the driver's configuration.
pub ghost struct CompilerDriverView {
    pub option: CompilerDriverOption,
    pub filename: Seq<char>,
}

/// Whether a filename is acceptable input: non-empty and ending in `.c`.
pub open spec fn valid_c_filename(filename: Seq<char>) -> bool {
    filename.len() >= 2 && filename[filename.len() - 2] == '.' && filename[filename.len() - 1]
        == 'c'
}

/// The input filename with its `.c` ending removed.
pub open spec fn filename_base(filename: Seq<char>) -> Seq<char> {
    filename.take(filename.len() - 2)
}

/// Holds the configuration of one compiler run.
pub struct CompilerDriver {
    option: CompilerDriverOption,
    filename: String,
}

impl View for CompilerDriver {
    type V = CompilerDriverView;

    closed spec fn view(&self) -> CompilerDriverView {
        CompilerDriverView { option: self.option, filename: self.filename@ }
    }
}

impl Default for CompilerDriver {
    /// A fresh driver: no input file, no stage limit.
    fn default() -> (r: CompilerDriver)
        ensures
            r@.option == CompilerDriverOption::All,
            r@.filename == Seq::<char>::empty(),
    {
        CompilerDriver { option: CompilerDriverOption::All, filename: String::new() }
    }
}

impl CompilerDriver {
    /// Sets the furthest stage to run; a later setting wins.
    pub fn set_option(&mut self, option: CompilerDriverOption)
        ensures
            final(self)@.option == option,
            final(self)@.filename == old(self)@.filename,
    {
        self.option = option;
    }

    /// Sets the input filename.
    pub fn set_filename(&mut self, filename: &str)
        ensures
            final(self)@.filename == filename@,
            final(self)@.option == old(self)@.option,
    {
        self.filename = String::from_str(filename);
    }

    /// The configured stage limit.
    pub fn option(&self) -> (r: CompilerDriverOption)
        ensures
            r == self@.option,
    {
        self.option
    }

    /// The name of the preprocessed file: the base name with `.i`.
    pub fn filename_preprocessed(&self) -> (r: String)
        requires
            self@.filename.len() >= 2,
        ensures
            r@ == filename_base(self@.filename) + ".i"@,
    {
        let n = self.filename.as_str().unicode_len();
        let base = self.filename.as_str().substring_char(0, n - 2);
        let r = String::from_str(base).concat(".i");
        proof {
            assert(r@ =~= filename_base(self@.filename) + ".i"@);
        }
        r
    }

    /// The name of the assembly file: the base name with `.s`.
    pub fn filename_assembly(&self) -> (r: String)
        requires
            self@.filename.len() >= 2,
        ensures
            r@ == filename_base(self@.filename) + ".s"@,
    {
        let n = self.filename.as_str().unicode_len();
        let base = self.filename.as_str().substring_char(0, n - 2);
        let r = String::from_str(base).concat(".s");
        proof {
            assert(r@ =~= filename_base(self@.filename) + ".s"@);
        }
        r
    }

    /// The name of the linked executable: the base name alone.
    pub fn filename_output(&self) -> (r: String)
        requires
            self@.filename.len() >= 2,
        ensures
            r@ == filename_base(self@.filename),
    {
        let n = self.filename.as_str().unicode_len();
        let base = self.filename.as_str().substring_char(0, n - 2);
        proof {
            assert(base@ =~= filename_base(self@.filename));
        }
        String::from_str(base)
    }

    /// Checks the configuration: there must be an input file and its name
    /// must end in `.c`. `Ok` exactly on acceptable filenames.
    pub fn check_config(&self) -> (r: Result<(), String>)
        ensures
            r is Ok <==> valid_c_filename(self@.filename),
    {
        let n = self.filename.as_str().unicode_len();
        if n == 0 {
            return Err(String::from_str("No input file"));
        }
        if n < 2 || self.filename.as_str().get_char(n - 2) != '.'
            || self.filename.as_str().get_char(n - 1) != 'c' {
            let mut message = String::from_str("Filename `");
            message.append(self.filename.as_str());
            message.append("` should end with \".c\"");
            return Err(message);
        }
        Ok(())
    }
}

/// The assembly text for a source text: lex, parse, lower, generate,
/// emit — or nothing, where the source does not parse.
pub open spec fn compile_spec(source: Seq<char>) -> Option<Seq<char>> {
    match parse_program_src(source) {
        Some(p) => Some(render_program(asm_program_of(lower_program(p)))),
        None => None,
    }
}

/// Compilation stage by stage: a source compiles exactly when it lexes and
/// its token sequence reads by the grammar; the output is then the rendered
/// assembly of the lowered and translated program.
pub proof fn lemma_compile_spec_by_stages(source: Seq<char>)
    ensures
        match lex_spec(source) {
            Some(toks) => compile_spec(source) == (match parse_program_tokens(toks) {
                Option::Some(p) => Some(render_program(asm_program_of(lower_program(p)))),
                Option::None => None::<Seq<char>>,
            }),
            None => compile_spec(source) is None,
        },
{
    match lex_spec(source) {
        Option::Some(toks) => {
            lemma_parse_agrees_with_token_grammar(source, toks);
        },
        Option::None => {
            lemma_lex_failure_fails_parse(source);
        },
    }
}

/// Compiles ASCII source text to assembly text in memory, running the
/// whole verified pipeline. `Ok` exactly when the source parses; the error
/// carries the first stage's message otherwise.
pub fn compile_source(source: &str) -> (r: Result<String, String>)
    requires
        vstd::utf8::is_ascii_chars(source@),
    ensures
        match r {
            Ok(asm_text) => compile_spec(source@) == Some(asm_text@),
            Err(_) => compile_spec(source@) is None,
        },
{
    let mut lexer = Lexer::default();
    lexer.set_src(String::from_str(source));
    let mut parser = Parser::from(lexer.tokens());
    let c_program: CProgram = match parser.parse() {
        Ok(p) => p,
        Err(e) => {
            return Err(e);
        },
    };
    let tacky_program = gen_tacky_program(c_program);
    let ghost tacky_view = tacky_program@;
    let asm_program = gen_asm_program(tacky_program);
    proof {
        lemma_generated_program_is_legal(tacky_view);
    }
    let asm_text = emit_asm_program(asm_program);
    Ok(asm_text)
}

} // verus!

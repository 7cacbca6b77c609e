//! Core of the Chronos compiler: a graph intermediate representation, the
//! natural-language front end, the bookkeeping of the formal checks, and the
//! schedule of a compilation.
//!
//! A compilation parses a description into a graph, runs the configured
//! number of optimization passes, runs the formal checks when they are
//! enabled, and generates code for the target. The optimizer, the solver and
//! the code generators are driven by the caller: [`CompileSession`] says
//! which of them to run next and takes their results.

pub mod checking;
pub mod ir;
pub mod parser;
pub mod text;

use crate::ir::graph::{GraphIR, IrView};
use crate::parser::llm::{parse_post, NaturalLanguageParser};
use vstd::prelude::*;

verus! {

/// Architectures code can be generated for.
#[derive(Clone, Copy, Debug, PartialEq, Eq, Structural)]
pub enum Target {
    X86_64,
    Arm64,
    WebAssembly,
    Cuda,
}

/// How to compile.
#[derive(Clone, Copy, Debug, PartialEq, Eq, Structural)]
pub struct CompilerConfig {
    pub target: Target,
    pub optimization_level: u8,
    pub verify: bool,
    pub max_retries: u32,
}

/// The code generators, one per target.
#[derive(Clone, Copy, Debug, PartialEq, Eq, Structural)]
pub enum Backend {
    X86_64,
    Arm64,
    WebAssembly,
    Cuda,
}

/// Why a compilation stops.
#[derive(Clone, Copy, Debug, PartialEq, Eq, Structural)]
pub enum CompileError {
    /// The formal checks found an error in the graph.
    VerificationFailed,
}

/// Message of [`CompileError::VerificationFailed`].
pub const VERIFICATION_FAILED_MESSAGE: &'static str = "formal verification failed";

impl CompileError {
    /// The error's message.
    pub fn message(&self) -> (m: String)
        ensures
            m@ == VERIFICATION_FAILED_MESSAGE@,
    {
        match self {
            CompileError::VerificationFailed => VERIFICATION_FAILED_MESSAGE.to_owned(),
        }
    }
}

/// The code generator for `target`.
pub open spec fn spec_backend_for(target: Target) -> Backend {
    match target {
        Target::X86_64 => Backend::X86_64,
        Target::Arm64 => Backend::Arm64,
        Target::WebAssembly => Backend::WebAssembly,
        Target::Cuda => Backend::Cuda,
    }
}

/// The code generator for `target`.
pub fn backend_for(target: Target) -> (b: Backend)
    ensures
        b == spec_backend_for(target),
        target == Target::X86_64 ==> b == Backend::X86_64,
        target == Target::Arm64 ==> b == Backend::Arm64,
        target == Target::WebAssembly ==> b == Backend::WebAssembly,
        target == Target::Cuda ==> b == Backend::Cuda,
{
    match target {
        Target::X86_64 => Backend::X86_64,
        Target::Arm64 => Backend::Arm64,
        Target::WebAssembly => Backend::WebAssembly,
        Target::Cuda => Backend::Cuda,
    }
}

/// The compiler: a natural-language parser and a configuration.
pub struct ChronosCompiler {
    pub parser: NaturalLanguageParser,
    pub config: CompilerConfig,
}

/// A compiled program.
#[derive(Debug)]
pub struct CompiledModule {
    pub ir: GraphIR,
    pub target: Target,
    pub code: String,
}

/// What a compilation needs done next.
#[derive(Clone, Copy, Debug, PartialEq, Eq, Structural)]
pub enum CompileAction {
    /// Run optimization pass number `pass` (counted from 0) on the graph.
    Optimize { pass: u8 },
    /// Run the formal checks on the graph.
    Verify,
    /// Generate code for the graph with `backend`.
    Generate { backend: Backend },
    /// Stop with `error`.
    Fail { error: CompileError },
}

/// A compilation under way: the graph so far, and how far the schedule
/// has got.
pub struct CompileSession {
    ir: GraphIR,
    target: Target,
    optimization_level: u8,
    passes_done: u8,
    verify_pending: bool,
    verification_failed: bool,
}

/// What a session holds.
pub struct SessionView {
    pub ir: IrView,
    pub target: Target,
    pub optimization_level: u8,
    pub passes_done: u8,
    pub verify_pending: bool,
    pub verification_failed: bool,
}

impl View for CompileSession {
    type V = SessionView;

    closed spec fn view(&self) -> SessionView {
        SessionView {
            ir: self.ir@,
            target: self.target,
            optimization_level: self.optimization_level,
            passes_done: self.passes_done,
            verify_pending: self.verify_pending,
            verification_failed: self.verification_failed,
        }
    }
}

/// The number of optimization passes and checks still to run.
pub open spec fn steps_left(s: SessionView) -> nat {
    ((if s.passes_done < s.optimization_level {
        s.optimization_level - s.passes_done
    } else {
        0int
    }) + (if s.verify_pending {
        1int
    } else {
        0int
    })) as nat
}

/// The next action of a session: the remaining passes in order, then the
/// checks if pending, then failure if the checks found an error, else code
/// generation for the target.
pub open spec fn spec_next_action(s: SessionView) -> CompileAction {
    if s.passes_done < s.optimization_level {
        CompileAction::Optimize { pass: s.passes_done }
    } else if s.verify_pending {
        CompileAction::Verify
    } else if s.verification_failed {
        CompileAction::Fail { error: CompileError::VerificationFailed }
    } else {
        CompileAction::Generate { backend: spec_backend_for(s.target) }
    }
}

impl CompileSession {
    /// The graph so far.
    pub fn ir(&self) -> (r: &GraphIR)
        ensures
            r@ == self@.ir,
    {
        &self.ir
    }

    /// The target the session compiles for.
    pub fn target(&self) -> (t: Target)
        ensures
            t == self@.target,
    {
        self.target
    }

    /// What to do next: the remaining optimization passes in order, then
    /// the checks if they are enabled, then code generation, or failure
    /// when the checks found an error.
    pub fn next_action(&self) -> (a: CompileAction)
        ensures
            a == spec_next_action(self@),
            (a is Optimize || a is Verify) <==> steps_left(self@) > 0,
            steps_left(self@) == 0 && !self@.verification_failed ==> {
                &&& self@.target == Target::X86_64 ==> a == (CompileAction::Generate { backend: Backend::X86_64 })
                &&& self@.target == Target::Arm64 ==> a == (CompileAction::Generate { backend: Backend::Arm64 })
                &&& self@.target == Target::WebAssembly ==> a == (CompileAction::Generate {
                    backend: Backend::WebAssembly,
                })
                &&& self@.target == Target::Cuda ==> a == (CompileAction::Generate { backend: Backend::Cuda })
            },
    {
        proof {
            lemma_generation_uses_the_target_backend(self@);
        }
        if self.passes_done < self.optimization_level {
            CompileAction::Optimize { pass: self.passes_done }
        } else if self.verify_pending {
            CompileAction::Verify
        } else if self.verification_failed {
            CompileAction::Fail { error: CompileError::VerificationFailed }
        } else {
            CompileAction::Generate { backend: backend_for(self.target) }
        }
    }

    /// Takes the graph produced by the pending optimization pass.
    pub fn finish_pass(&mut self, ir: GraphIR)
        requires
            old(self)@.passes_done < old(self)@.optimization_level,
        ensures
            final(self)@ == (SessionView {
                ir: ir@,
                passes_done: (old(self)@.passes_done + 1) as u8,
                ..old(self)@
            }),
            steps_left(final(self)@) + 1 == steps_left(old(self)@),
    {
        self.ir = ir;
        self.passes_done = self.passes_done + 1;
    }

    /// Takes the outcome of the pending checks: `verified` is whether they
    /// found no error. A failed check stops the compilation.
    pub fn finish_verify(&mut self, verified: bool)
        requires
            old(self)@.passes_done >= old(self)@.optimization_level,
            old(self)@.verify_pending,
        ensures
            final(self)@ == (SessionView {
                verify_pending: false,
                verification_failed: !verified,
                ..old(self)@
            }),
            steps_left(final(self)@) + 1 == steps_left(old(self)@),
    {
        self.verify_pending = false;
        self.verification_failed = !verified;
    }

    /// The compiled module, once all passes and checks have run and no
    /// check failed, from the code the generator produced.
    pub fn finish(self, code: String) -> (m: CompiledModule)
        requires
            steps_left(self@) == 0,
            !self@.verification_failed,
        ensures
            m.ir@ == self@.ir,
            m.target == self@.target,
            m.code == code,
    {
        CompiledModule { ir: self.ir, target: self.target, code }
    }
}

impl ChronosCompiler {
    /// A compiler for `config` with a fresh parser.
    pub fn new(config: CompilerConfig) -> (c: Self)
        ensures
            c.config == config,
            !c.parser@.api,
            !c.parser@.local_model,
            c.parser@.cache == Seq::<(Seq<char>, IrView)>::empty(),
    {
        ChronosCompiler { parser: NaturalLanguageParser::new(), config }
    }

    /// Starts compiling `description`: parses it (through the parser's
    /// cache) and schedules the configured passes, then the checks if
    /// enabled, then code generation for the configured target.
    pub fn compile_from_nl(&mut self, description: &str) -> (s: CompileSession)
        ensures
            final(self).config == old(self).config,
            parse_post(old(self).parser@, description@, final(self).parser@, s@.ir),
            s@.target == old(self).config.target,
            s@.optimization_level == old(self).config.optimization_level,
            s@.passes_done == 0,
            s@.verify_pending == old(self).config.verify,
            !s@.verification_failed,
            steps_left(s@) == old(self).config.optimization_level + (if old(self).config.verify {
                1int
            } else {
                0int
            }),
    {
        let ir = self.parser.parse(description);
        CompileSession {
            ir,
            target: self.config.target,
            optimization_level: self.config.optimization_level,
            passes_done: 0,
            verify_pending: self.config.verify,
            verification_failed: false,
        }
    }
}

/// A compilation never yields a module after a failed check: once the
/// checks have reported an error, the next action is to fail, whatever
/// else the session holds.
pub proof fn lemma_failed_checks_stop_compilation(s: SessionView)
    requires
        steps_left(s) == 0,
        s.verification_failed,
    ensures
        spec_next_action(s) == (CompileAction::Fail { error: CompileError::VerificationFailed }),
{
}


/// Once every pass and check has run and no check failed, the session
/// generates code with the code generator of its own target: x86-64 code
/// for x86-64, ARM64 code for ARM64, WebAssembly for WebAssembly and CUDA
/// for CUDA.
pub proof fn lemma_generation_uses_the_target_backend(s: SessionView)
    ensures
        steps_left(s) == 0 && !s.verification_failed ==> {
            &&& s.target == Target::X86_64 ==> spec_next_action(s) == (CompileAction::Generate {
                backend: Backend::X86_64,
            })
            &&& s.target == Target::Arm64 ==> spec_next_action(s) == (CompileAction::Generate {
                backend: Backend::Arm64,
            })
            &&& s.target == Target::WebAssembly ==> spec_next_action(s) == (CompileAction::Generate {
                backend: Backend::WebAssembly,
            })
            &&& s.target == Target::Cuda ==> spec_next_action(s) == (CompileAction::Generate {
                backend: Backend::Cuda,
            })
        },
{
}

} // verus!

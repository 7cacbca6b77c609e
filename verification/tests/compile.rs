use chronos_core::ir::graph::{GraphIR, Operation};
use chronos_core::{
    backend_for, Backend, ChronosCompiler, CompileAction, CompileError, CompilerConfig, Target,
};

fn config(target: Target, level: u8, verify: bool) -> CompilerConfig {
    CompilerConfig { target, optimization_level: level, verify, max_retries: 3 }
}

#[test]
fn schedule_runs_passes_then_checks_then_generation() {
    let mut c = ChronosCompiler::new(config(Target::WebAssembly, 2, true));
    let mut s = c.compile_from_nl("check if a number is prime");
    assert_eq!(s.ir().node_count(), 3);
    assert_eq!(s.next_action(), CompileAction::Optimize { pass: 0 });
    let mut ir = GraphIR::new();
    ir.add_node(Operation::Return, vec![]);
    s.finish_pass(ir);
    assert_eq!(s.next_action(), CompileAction::Optimize { pass: 1 });
    s.finish_pass(GraphIR::new());
    assert_eq!(s.next_action(), CompileAction::Verify);
    s.finish_verify(true);
    assert_eq!(s.next_action(), CompileAction::Generate { backend: Backend::WebAssembly });
    let m = s.finish("(module)".to_string());
    assert_eq!(m.code, "(module)");
    assert_eq!(m.target, Target::WebAssembly);
    assert_eq!(m.ir.node_count(), 2);
}

#[test]
fn no_passes_and_no_checks_go_straight_to_generation() {
    let mut c = ChronosCompiler::new(config(Target::X86_64, 0, false));
    let s = c.compile_from_nl("anything");
    assert_eq!(s.next_action(), CompileAction::Generate { backend: Backend::X86_64 });
}

#[test]
fn cuda_generates_after_the_passes() {
    let mut c = ChronosCompiler::new(config(Target::Cuda, 1, false));
    let mut s = c.compile_from_nl("sort");
    assert_eq!(s.next_action(), CompileAction::Optimize { pass: 0 });
    s.finish_pass(GraphIR::new());
    assert_eq!(s.next_action(), CompileAction::Generate { backend: Backend::Cuda });
    let m = s.finish("__global__ void k() {}".to_string());
    assert_eq!(m.target, Target::Cuda);
}

#[test]
fn failed_checks_stop_the_compilation() {
    let mut c = ChronosCompiler::new(config(Target::X86_64, 0, true));
    let mut s = c.compile_from_nl("load from memory");
    assert_eq!(s.next_action(), CompileAction::Verify);
    s.finish_verify(false);
    assert_eq!(s.next_action(), CompileAction::Fail { error: CompileError::VerificationFailed });
    assert_eq!(CompileError::VerificationFailed.message(), "formal verification failed");
}

#[test]
fn backends_per_target() {
    assert_eq!(backend_for(Target::X86_64), Backend::X86_64);
    assert_eq!(backend_for(Target::Arm64), Backend::Arm64);
    assert_eq!(backend_for(Target::WebAssembly), Backend::WebAssembly);
    assert_eq!(backend_for(Target::Cuda), Backend::Cuda);
}

#[test]
fn compiler_keeps_its_parse_cache() {
    let mut c = ChronosCompiler::new(config(Target::Arm64, 0, true));
    let s1 = c.compile_from_nl("fibonacci");
    let s2 = c.compile_from_nl("fibonacci");
    assert_eq!(s1.ir().edges, s2.ir().edges);
    assert_eq!(s2.ir().node_count(), 3);
    assert_eq!(s2.next_action(), CompileAction::Verify);
}

#[test]
fn readme_prime_example_parses_to_the_prime_template() {
    let mut c = ChronosCompiler::new(config(Target::WebAssembly, 2, true));
    let s = c.compile_from_nl("Write a function to check if a number is prime");
    match &s.ir().nodes[&2].op {
        Operation::LlmGenerated { prompt, code } => {
            assert_eq!(prompt, "generated");
            assert_eq!(code, chronos_core::parser::llm::PRIME_TEMPLATE);
            assert!(code.contains("fn is_prime(n: u64) -> bool {"));
        }
        other => panic!("unexpected operation {:?}", other),
    }
    assert_eq!(s.next_action(), CompileAction::Optimize { pass: 0 });
}

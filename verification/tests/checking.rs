use chronos_core::checking::report::{SolverOutcome, VerificationResult};
use chronos_core::ir::graph::{GraphIR, NodeId, Operation};

#[test]
fn new_result_is_verified_and_empty() {
    let r = VerificationResult::new();
    assert!(r.verified);
    assert!(r.errors.is_empty());
    assert!(r.warnings.is_empty());
    assert_eq!(r.smt_checks, 0);
}

#[test]
fn unsatisfiable_memory_query_is_an_error() {
    let mut r = VerificationResult::new();
    r.record_memory_check(NodeId(42), SolverOutcome::Unsat);
    r.record_memory_check(NodeId(7), SolverOutcome::Sat);
    r.record_memory_check(NodeId(8), SolverOutcome::Unknown);
    r.finish();
    assert_eq!(r.errors, vec!["Memory safety violation at node 42".to_string()]);
    assert!(r.warnings.is_empty());
    assert_eq!(r.smt_checks, 3);
    assert!(!r.verified);
}

#[test]
fn satisfiable_overflow_query_is_a_warning() {
    let mut r = VerificationResult::new();
    r.record_overflow_check(NodeId(3), SolverOutcome::Sat);
    r.record_overflow_check(NodeId(4), SolverOutcome::Unsat);
    r.finish();
    assert_eq!(r.warnings, vec!["Potential integer overflow at node 3".to_string()]);
    assert!(r.errors.is_empty());
    assert_eq!(r.smt_checks, 2);
    assert!(r.verified);
}

#[test]
fn check_targets_pick_the_right_nodes() {
    let mut ir = GraphIR::new();
    let a = ir.add_node(Operation::ConstInt(1), vec![]);
    let l = ir.add_node(Operation::Load { addr: a }, vec![a]);
    let s = ir.add_node(Operation::Store { addr: a, value: l }, vec![a, l]);
    let add = ir.add_node(Operation::Add, vec![a, l]);
    let mul = ir.add_node(Operation::Mul, vec![add, a]);
    ir.add_node(Operation::Sub, vec![mul, a]);
    let order: Vec<u64> = (0..ir.next_id).collect();
    assert_eq!(ir.memory_check_targets(&order), vec![l, s]);
    assert_eq!(ir.overflow_check_targets(&order), vec![add, mul]);
    let reversed: Vec<u64> = order.iter().rev().cloned().collect();
    assert_eq!(ir.memory_check_targets(&reversed), vec![s, l]);
}

#[test]
fn a_check_run_counts_every_query() {
    let r = VerificationResult::from_answers(
        &vec![NodeId(2), NodeId(5)],
        &vec![SolverOutcome::Sat, SolverOutcome::Unsat],
        &vec![NodeId(3), NodeId(4), NodeId(9)],
        &vec![SolverOutcome::Sat, SolverOutcome::Unknown, SolverOutcome::Sat],
    );
    assert_eq!(r.smt_checks, 5);
    assert_eq!(r.errors, vec!["Memory safety violation at node 5".to_string()]);
    assert_eq!(
        r.warnings,
        vec![
            "Potential integer overflow at node 3".to_string(),
            "Potential integer overflow at node 9".to_string(),
        ]
    );
    assert!(!r.verified);
}

#[test]
fn a_check_run_without_unsat_memory_answers_is_verified() {
    let r = VerificationResult::from_answers(
        &vec![NodeId(1)],
        &vec![SolverOutcome::Sat],
        &vec![],
        &vec![],
    );
    assert_eq!(r.smt_checks, 1);
    assert!(r.errors.is_empty());
    assert!(r.verified);
}

//! Bookkeeping of the formal checks run on a graph.
//!
//! Each load and store gets a memory-safety query and each addition and
//! multiplication an overflow query; the queries go to an SMT solver, and
//! the answers are recorded here. An unsatisfiable memory-safety query is an
//! error, a satisfiable overflow query a warning.

use crate::ir::graph::{GraphIR, Node, NodeId, Operation};
use crate::text::{decimal, decimal_string};
use vstd::prelude::*;

verus! {

/// Size of the memory region a pointer must stay within, in bytes.
pub const MEMORY_REGION_SIZE: u64 = 1024u64;

/// Width of the access made through a pointer, in bytes.
pub const ACCESS_WIDTH: u64 = 8u64;

/// The largest `i64`: a sum above it overflows.
pub const OVERFLOW_BOUND: u64 = 0x7fff_ffff_ffff_ffffu64;

/// Start of the message for an unsatisfiable memory-safety query.
pub const MEMORY_VIOLATION_PREFIX: &'static str = "Memory safety violation at node ";

/// Start of the message for a satisfiable overflow query.
pub const OVERFLOW_PREFIX: &'static str = "Potential integer overflow at node ";

/// What the solver answered.
#[derive(Clone, Copy, Debug, PartialEq, Eq, Structural)]
pub enum SolverOutcome {
    Unsat,
    Unknown,
    Sat,
}

/// The outcome of checking a graph.
#[derive(Debug)]
pub struct VerificationResult {
    pub verified: bool,
    pub errors: Vec<String>,
    pub warnings: Vec<String>,
    pub smt_checks: u32,
}

/// The characters of each string.
pub open spec fn texts(v: Seq<String>) -> Seq<Seq<char>> {
    v.map_values(|s: String| s@)
}

/// Message for a memory-safety violation at node `id`.
pub open spec fn memory_violation_message(id: NodeId) -> Seq<char> {
    MEMORY_VIOLATION_PREFIX@ + decimal(id.0 as nat)
}

/// Message for a potential overflow at node `id`.
pub open spec fn overflow_message(id: NodeId) -> Seq<char> {
    OVERFLOW_PREFIX@ + decimal(id.0 as nat)
}

/// The node reads or writes memory.
pub open spec fn is_memory_access(op: Operation) -> bool {
    op is Load || op is Store
}

/// The node adds or multiplies.
pub open spec fn may_overflow(op: Operation) -> bool {
    op is Add || op is Mul
}

/// The ids, in the order of `order`, of the nodes whose operation satisfies
/// `pick`.
pub open spec fn picked_ids(
    nodes: Map<u64, Node>,
    order: Seq<u64>,
    pick: spec_fn(Operation) -> bool,
) -> Seq<NodeId>
    decreases order.len(),
{
    if order.len() == 0 {
        Seq::empty()
    } else {
        let rest = picked_ids(nodes, order.drop_last(), pick);
        if pick(nodes[order.last()].op) {
            rest.push(NodeId(order.last()))
        } else {
            rest
        }
    }
}

/// A node is picked exactly when its key is in `order` and its operation
/// satisfies `pick`.
pub proof fn lemma_picked_ids_members(
    nodes: Map<u64, Node>,
    order: Seq<u64>,
    pick: spec_fn(Operation) -> bool,
    k: u64,
)
    ensures
        picked_ids(nodes, order, pick).contains(NodeId(k)) <==> (order.contains(k) && pick(
            nodes[k].op,
        )),
    decreases order.len(),
{
    if order.len() > 0 {
        let prefix = order.drop_last();
        let last = order.last();
        let rest = picked_ids(nodes, prefix, pick);
        lemma_picked_ids_members(nodes, prefix, pick, k);
        if order.contains(k) && pick(nodes[k].op) {
            if k == last {
                assert(picked_ids(nodes, order, pick) == rest.push(NodeId(last)));
                assert(picked_ids(nodes, order, pick)[rest.len() as int] == NodeId(k));
            } else {
                let i = choose|i: int| 0 <= i < order.len() && order[i] == k;
                assert(i < order.len() - 1);
                assert(prefix[i] == k);
                let j = choose|j: int| 0 <= j < rest.len() && rest[j] == NodeId(k);
                if pick(nodes[last].op) {
                    assert(picked_ids(nodes, order, pick)[j] == NodeId(k));
                }
            }
        }
        if picked_ids(nodes, order, pick).contains(NodeId(k)) {
            let j = choose|j: int|
                0 <= j < picked_ids(nodes, order, pick).len() && picked_ids(nodes, order, pick)[j]
                    == NodeId(k);
            if pick(nodes[last].op) && j == rest.len() {
                assert(k == last);
                assert(order[order.len() - 1] == k);
            } else {
                assert(rest[j] == NodeId(k));
                assert(rest.contains(NodeId(k)));
                let i = choose|i: int| 0 <= i < prefix.len() && prefix[i] == k;
                assert(order[i] == k);
            }
        }
    }
}

/// Whether the operation reads or writes memory.
fn op_is_memory_access(op: &Operation) -> (r: bool)
    ensures
        r == is_memory_access(*op),
        r <==> (*op is Load || *op is Store),
{
    match op {
        Operation::Load { .. } => true,
        Operation::Store { .. } => true,
        _ => false,
    }
}

/// Whether the operation adds or multiplies.
fn op_may_overflow(op: &Operation) -> (r: bool)
    ensures
        r == may_overflow(*op),
        r <==> (*op is Add || *op is Mul),
{
    match op {
        Operation::Add => true,
        Operation::Mul => true,
        _ => false,
    }
}

impl GraphIR {
    /// Ids of the loads and stores, in the order of `order`.
    pub fn memory_check_targets(&self, order: &Vec<u64>) -> (ids: Vec<NodeId>)
        requires
            forall|i: int| 0 <= i < order@.len() ==> self.nodes@.contains_key(#[trigger] order@[i]),
        ensures
            ids@ == picked_ids(self.nodes@, order@, |op: Operation| is_memory_access(op)),
            forall|k: u64|
                #[trigger] ids@.contains(NodeId(k)) <==> (order@.contains(k) && (
                self.nodes@[k].op is Load || self.nodes@[k].op is Store)),
    {
        let mut ids: Vec<NodeId> = Vec::new();
        let n = order.len();
        let mut i: usize = 0;
        while i < n
            invariant
                n == order@.len(),
                i <= n,
                forall|a: int| 0 <= a < order@.len() ==> self.nodes@.contains_key(#[trigger] order@[a]),
                ids@ == picked_ids(
                    self.nodes@,
                    order@.take(i as int),
                    |op: Operation| is_memory_access(op),
                ),
            decreases n - i,
        {
            let key = order[i];
            let ghost prefix = order@.take(i + 1);
            assert(prefix.drop_last() =~= order@.take(i as int));
            match self.nodes.get(&key) {
                Some(node) => {
                    if op_is_memory_access(&node.op) {
                        ids.push(NodeId(key));
                    }
                },
                None => {
                    assert(self.nodes@.contains_key(order@[i as int]));
                },
            }
            i = i + 1;
        }
        assert(order@.take(n as int) =~= order@);
        assert forall|k: u64| #[trigger] ids@.contains(NodeId(k)) == (order@.contains(k) && (
        self.nodes@[k].op is Load || self.nodes@[k].op is Store)) by {
            lemma_picked_ids_members(self.nodes@, order@, |op: Operation| is_memory_access(op), k);
        }
        ids
    }

    /// Ids of the additions and multiplications, in the order of `order`.
    pub fn overflow_check_targets(&self, order: &Vec<u64>) -> (ids: Vec<NodeId>)
        requires
            forall|i: int| 0 <= i < order@.len() ==> self.nodes@.contains_key(#[trigger] order@[i]),
        ensures
            ids@ == picked_ids(self.nodes@, order@, |op: Operation| may_overflow(op)),
            forall|k: u64|
                #[trigger] ids@.contains(NodeId(k)) <==> (order@.contains(k) && (
                self.nodes@[k].op is Add || self.nodes@[k].op is Mul)),
    {
        let mut ids: Vec<NodeId> = Vec::new();
        let n = order.len();
        let mut i: usize = 0;
        while i < n
            invariant
                n == order@.len(),
                i <= n,
                forall|a: int| 0 <= a < order@.len() ==> self.nodes@.contains_key(#[trigger] order@[a]),
                ids@ == picked_ids(self.nodes@, order@.take(i as int), |op: Operation| may_overflow(op)),
            decreases n - i,
        {
            let key = order[i];
            let ghost prefix = order@.take(i + 1);
            assert(prefix.drop_last() =~= order@.take(i as int));
            match self.nodes.get(&key) {
                Some(node) => {
                    if op_may_overflow(&node.op) {
                        ids.push(NodeId(key));
                    }
                },
                None => {
                    assert(self.nodes@.contains_key(order@[i as int]));
                },
            }
            i = i + 1;
        }
        assert(order@.take(n as int) =~= order@);
        assert forall|k: u64| #[trigger] ids@.contains(NodeId(k)) == (order@.contains(k) && (
        self.nodes@[k].op is Add || self.nodes@[k].op is Mul)) by {
            lemma_picked_ids_members(self.nodes@, order@, |op: Operation| may_overflow(op), k);
        }
        ids
    }
}

/// `prefix` followed by the decimal rendering of `id`.
fn message_for(prefix: &str, id: NodeId) -> (m: String)
    ensures
        m@ == prefix@ + decimal(id.0 as nat),
{
    let mut m = prefix.to_owned();
    let digits = decimal_string(id.0);
    m.append(digits.as_str());
    m
}

impl VerificationResult {
    /// A result with no checks, no errors and no warnings, marked verified.
    pub fn new() -> (r: Self)
        ensures
            r.verified,
            r.errors@ == Seq::<String>::empty(),
            r.warnings@ == Seq::<String>::empty(),
            r.smt_checks == 0,
    {
        VerificationResult { verified: true, errors: Vec::new(), warnings: Vec::new(), smt_checks: 0 }
    }

    /// Records the answer to the memory-safety query for node `id`: one
    /// more check, and an error when the query is unsatisfiable.
    pub fn record_memory_check(&mut self, id: NodeId, outcome: SolverOutcome)
        requires
            old(self).smt_checks < u32::MAX,
        ensures
            final(self).smt_checks == old(self).smt_checks + 1,
            final(self).verified == old(self).verified,
            texts(final(self).warnings@) == texts(old(self).warnings@),
            texts(final(self).errors@) == (if outcome == SolverOutcome::Unsat {
                texts(old(self).errors@).push(memory_violation_message(id))
            } else {
                texts(old(self).errors@)
            }),
    {
        self.smt_checks = self.smt_checks + 1;
        if outcome == SolverOutcome::Unsat {
            let m = message_for(MEMORY_VIOLATION_PREFIX, id);
            self.errors.push(m);
            assert(texts(self.errors@) =~= texts(old(self).errors@).push(memory_violation_message(id)));
        }
    }

    /// Records the answer to the overflow query for node `id`: one more
    /// check, and a warning when the query is satisfiable.
    pub fn record_overflow_check(&mut self, id: NodeId, outcome: SolverOutcome)
        requires
            old(self).smt_checks < u32::MAX,
        ensures
            final(self).smt_checks == old(self).smt_checks + 1,
            final(self).verified == old(self).verified,
            texts(final(self).errors@) == texts(old(self).errors@),
            texts(final(self).warnings@) == (if outcome == SolverOutcome::Sat {
                texts(old(self).warnings@).push(overflow_message(id))
            } else {
                texts(old(self).warnings@)
            }),
    {
        self.smt_checks = self.smt_checks + 1;
        if outcome == SolverOutcome::Sat {
            let m = message_for(OVERFLOW_PREFIX, id);
            self.warnings.push(m);
            assert(texts(self.warnings@) =~= texts(old(self).warnings@).push(overflow_message(id)));
        }
    }

    /// Closes the result: it is verified exactly when there is no error.
    pub fn finish(&mut self)
        ensures
            final(self).verified == (final(self).errors@.len() == 0),
            final(self).errors@ == old(self).errors@,
            final(self).warnings@ == old(self).warnings@,
            final(self).smt_checks == old(self).smt_checks,
    {
        self.verified = self.errors.len() == 0;
    }
}


/// The errors of the first `n` memory-safety answers: one message per
/// unsatisfiable query, in order.
pub open spec fn memory_errors(ids: Seq<NodeId>, answers: Seq<SolverOutcome>, n: nat) -> Seq<Seq<char>>
    decreases n,
{
    if n == 0 {
        Seq::empty()
    } else {
        let rest = memory_errors(ids, answers, (n - 1) as nat);
        if answers[n - 1] == SolverOutcome::Unsat {
            rest.push(memory_violation_message(ids[n - 1]))
        } else {
            rest
        }
    }
}

/// The warnings of the first `n` overflow answers: one message per
/// satisfiable query, in order.
pub open spec fn overflow_warnings(ids: Seq<NodeId>, answers: Seq<SolverOutcome>, n: nat) -> Seq<Seq<char>>
    decreases n,
{
    if n == 0 {
        Seq::empty()
    } else {
        let rest = overflow_warnings(ids, answers, (n - 1) as nat);
        if answers[n - 1] == SolverOutcome::Sat {
            rest.push(overflow_message(ids[n - 1]))
        } else {
            rest
        }
    }
}

/// There is no error among the first `n` memory-safety answers exactly when
/// none of them is unsatisfiable.
pub proof fn lemma_no_memory_errors(ids: Seq<NodeId>, answers: Seq<SolverOutcome>, n: nat)
    requires
        n <= answers.len(),
    ensures
        memory_errors(ids, answers, n).len() == 0 <==> forall|i: int|
            0 <= i < n ==> answers[i] != SolverOutcome::Unsat,
    decreases n,
{
    if n > 0 {
        lemma_no_memory_errors(ids, answers, (n - 1) as nat);
        if memory_errors(ids, answers, n).len() == 0 {
            assert forall|i: int| 0 <= i < n implies answers[i] != SolverOutcome::Unsat by {
                if i < n - 1 {
                } else {
                    assert(answers[n - 1] != SolverOutcome::Unsat);
                }
            }
        }
    }
}

/// The answer says the query is satisfiable.
pub open spec fn is_sat(a: SolverOutcome) -> bool {
    a == SolverOutcome::Sat
}

/// The answer says the query is unsatisfiable.
pub open spec fn is_unsat(a: SolverOutcome) -> bool {
    a == SolverOutcome::Unsat
}

/// The warnings of the first `n` overflow answers: there are as many as
/// satisfiable answers among them, each names a node whose query was
/// satisfiable, and each satisfiable query's node is named.
pub proof fn lemma_overflow_warnings(ids: Seq<NodeId>, answers: Seq<SolverOutcome>, n: nat)
    requires
        n <= answers.len(),
        n <= ids.len(),
    ensures
        overflow_warnings(ids, answers, n).len() == answers.take(n as int).filter(
            |a: SolverOutcome| is_sat(a),
        ).len(),
        forall|i: int|
            0 <= i < overflow_warnings(ids, answers, n).len() ==> exists|j: int|
                0 <= j < n && answers[j] == SolverOutcome::Sat && #[trigger] overflow_warnings(
                    ids,
                    answers,
                    n,
                )[i] == overflow_message(ids[j]),
        forall|j: int|
            0 <= j < n && answers[j] == SolverOutcome::Sat ==> overflow_warnings(
                ids,
                answers,
                n,
            ).contains(#[trigger] overflow_message(ids[j])),
    decreases n,
{
    let w = overflow_warnings(ids, answers, n);
    if n == 0 {
        assert(answers.take(0) =~= Seq::<SolverOutcome>::empty());
    } else {
        let m = (n - 1) as nat;
        lemma_overflow_warnings(ids, answers, m);
        let rest = overflow_warnings(ids, answers, m);
        reveal_with_fuel(Seq::<SolverOutcome>::filter, 1);
        let pred = |a: SolverOutcome| is_sat(a);
        let t = answers.take(n as int);
        assert(t.drop_last() =~= answers.take(m as int));
        assert(t.last() == answers[m as int]);
        assert(rest.len() == answers.take(m as int).filter(pred).len());
        if is_sat(answers[m as int]) {
            assert(t.filter(pred) == t.drop_last().filter(pred).push(t.last()));
        } else {
            assert(t.filter(pred) == t.drop_last().filter(pred));
        }
        assert forall|i: int| 0 <= i < w.len() implies exists|j: int|
            0 <= j < n && answers[j] == SolverOutcome::Sat && #[trigger] w[i] == overflow_message(
                ids[j],
            ) by {
            if i < rest.len() {
                assert(w[i] == rest[i]);
                let j = choose|j: int|
                    0 <= j < m && answers[j] == SolverOutcome::Sat && #[trigger] rest[i]
                        == overflow_message(ids[j]);
                assert(0 <= j < n && answers[j] == SolverOutcome::Sat && w[i] == overflow_message(ids[j]));
            } else {
                assert(is_sat(answers[m as int]));
                assert(w[i] == overflow_message(ids[m as int]));
                let j = m as int;
                assert(0 <= j < n && answers[j] == SolverOutcome::Sat && w[i] == overflow_message(ids[j]));
            }
        }
        assert forall|j: int| 0 <= j < n && answers[j] == SolverOutcome::Sat implies w.contains(
            #[trigger] overflow_message(ids[j]),
        ) by {
            if j < m {
                let i = choose|i: int| 0 <= i < rest.len() && rest[i] == overflow_message(ids[j]);
                assert(w[i] == rest[i]);
            } else {
                assert(w[rest.len() as int] == overflow_message(ids[j]));
            }
        }
    }
}

/// The errors of the first `n` memory-safety answers: there are as many as
/// unsatisfiable answers among them, each names a node whose query was
/// unsatisfiable, and each unsatisfiable query's node is named.
pub proof fn lemma_memory_errors(ids: Seq<NodeId>, answers: Seq<SolverOutcome>, n: nat)
    requires
        n <= answers.len(),
        n <= ids.len(),
    ensures
        memory_errors(ids, answers, n).len() == answers.take(n as int).filter(
            |a: SolverOutcome| is_unsat(a),
        ).len(),
        forall|i: int|
            0 <= i < memory_errors(ids, answers, n).len() ==> exists|j: int|
                0 <= j < n && answers[j] == SolverOutcome::Unsat && #[trigger] memory_errors(
                    ids,
                    answers,
                    n,
                )[i] == memory_violation_message(ids[j]),
        forall|j: int|
            0 <= j < n && answers[j] == SolverOutcome::Unsat ==> memory_errors(
                ids,
                answers,
                n,
            ).contains(#[trigger] memory_violation_message(ids[j])),
    decreases n,
{
    let w = memory_errors(ids, answers, n);
    if n == 0 {
        assert(answers.take(0) =~= Seq::<SolverOutcome>::empty());
    } else {
        let m = (n - 1) as nat;
        lemma_memory_errors(ids, answers, m);
        let rest = memory_errors(ids, answers, m);
        reveal_with_fuel(Seq::<SolverOutcome>::filter, 1);
        let pred = |a: SolverOutcome| is_unsat(a);
        let t = answers.take(n as int);
        assert(t.drop_last() =~= answers.take(m as int));
        assert(rest.len() == answers.take(m as int).filter(pred).len());
        if is_unsat(answers[m as int]) {
            assert(t.filter(pred) == t.drop_last().filter(pred).push(t.last()));
        } else {
            assert(t.filter(pred) == t.drop_last().filter(pred));
        }
        assert(answers.take(n as int).drop_last() =~= answers.take(m as int));
        assert(answers.take(n as int).last() == answers[m as int]);
        assert forall|i: int| 0 <= i < w.len() implies exists|j: int|
            0 <= j < n && answers[j] == SolverOutcome::Unsat && #[trigger] w[i]
                == memory_violation_message(ids[j]) by {
            if i < rest.len() {
                assert(w[i] == rest[i]);
                let j = choose|j: int|
                    0 <= j < m && answers[j] == SolverOutcome::Unsat && #[trigger] rest[i]
                        == memory_violation_message(ids[j]);
                assert(0 <= j < n && answers[j] == SolverOutcome::Unsat && w[i]
                    == memory_violation_message(ids[j]));
            } else {
                assert(w[i] == memory_violation_message(ids[m as int]));
            }
        }
        assert forall|j: int| 0 <= j < n && answers[j] == SolverOutcome::Unsat implies w.contains(
            #[trigger] memory_violation_message(ids[j]),
        ) by {
            if j < m {
                let i = choose|i: int| 0 <= i < rest.len() && rest[i] == memory_violation_message(ids[j]);
                assert(w[i] == rest[i]);
            } else {
                assert(w[rest.len() as int] == memory_violation_message(ids[j]));
            }
        }
    }
}

impl VerificationResult {
    /// The result of a whole check run: `memory_answers[i]` answers the
    /// memory-safety query for `memory_ids[i]`, and `overflow_answers[i]`
    /// the overflow query for `overflow_ids[i]`. Every query is counted, every
    /// unsatisfiable memory-safety query is an error and every satisfiable
    /// overflow query a warning, in order; the run is verified exactly when
    /// no memory-safety query is unsatisfiable.
    pub fn from_answers(
        memory_ids: &Vec<NodeId>,
        memory_answers: &Vec<SolverOutcome>,
        overflow_ids: &Vec<NodeId>,
        overflow_answers: &Vec<SolverOutcome>,
    ) -> (r: Self)
        requires
            memory_answers@.len() == memory_ids@.len(),
            overflow_answers@.len() == overflow_ids@.len(),
            memory_ids@.len() + overflow_ids@.len() <= u32::MAX,
        ensures
            r.smt_checks == memory_ids@.len() + overflow_ids@.len(),
            texts(r.errors@) == memory_errors(memory_ids@, memory_answers@, memory_ids@.len()),
            texts(r.warnings@) == overflow_warnings(
                overflow_ids@,
                overflow_answers@,
                overflow_ids@.len(),
            ),
            r.verified == (r.errors@.len() == 0),
            r.verified <==> forall|i: int|
                0 <= i < memory_answers@.len() ==> memory_answers@[i] != SolverOutcome::Unsat,
            r.errors@.len() == memory_answers@.filter(|a: SolverOutcome| is_unsat(a)).len(),
            r.warnings@.len() == overflow_answers@.filter(|a: SolverOutcome| is_sat(a)).len(),
            forall|j: int|
                0 <= j < memory_answers@.len() && memory_answers@[j] == SolverOutcome::Unsat
                    ==> texts(r.errors@).contains(#[trigger] memory_violation_message(memory_ids@[j])),
            forall|j: int|
                0 <= j < overflow_answers@.len() && overflow_answers@[j] == SolverOutcome::Sat
                    ==> texts(r.warnings@).contains(#[trigger] overflow_message(overflow_ids@[j])),
    {
        let mut r = VerificationResult::new();
        assert(texts(r.errors@) =~= Seq::<Seq<char>>::empty());
        assert(texts(r.warnings@) =~= Seq::<Seq<char>>::empty());
        let m = memory_ids.len();
        let mut i: usize = 0;
        while i < m
            invariant
                m == memory_ids@.len(),
                memory_answers@.len() == m,
                m + overflow_ids@.len() <= u32::MAX,
                i <= m,
                r.smt_checks == i,
                texts(r.errors@) == memory_errors(memory_ids@, memory_answers@, i as nat),
                texts(r.warnings@) == Seq::<Seq<char>>::empty(),
            decreases m - i,
        {
            r.record_memory_check(memory_ids[i], memory_answers[i]);
            i = i + 1;
        }
        let o = overflow_ids.len();
        let mut j: usize = 0;
        while j < o
            invariant
                m == memory_ids@.len(),
                memory_answers@.len() == m,
                o == overflow_ids@.len(),
                overflow_answers@.len() == o,
                m + o <= u32::MAX,
                j <= o,
                r.smt_checks == m + j,
                texts(r.errors@) == memory_errors(memory_ids@, memory_answers@, m as nat),
                texts(r.warnings@) == overflow_warnings(overflow_ids@, overflow_answers@, j as nat),
            decreases o - j,
        {
            r.record_overflow_check(overflow_ids[j], overflow_answers[j]);
            j = j + 1;
        }
        r.finish();
        proof {
            lemma_no_memory_errors(memory_ids@, memory_answers@, m as nat);
            assert(texts(r.errors@).len() == r.errors@.len());
            lemma_memory_errors(memory_ids@, memory_answers@, m as nat);
            lemma_overflow_warnings(overflow_ids@, overflow_answers@, o as nat);
            assert(memory_answers@.take(m as int) =~= memory_answers@);
            assert(overflow_answers@.take(o as int) =~= overflow_answers@);
            assert(texts(r.warnings@) == overflow_warnings(overflow_ids@, overflow_answers@, o as nat));
            assert(texts(r.warnings@).len() == r.warnings@.len());
        }
        r
    }
}

} // verus!

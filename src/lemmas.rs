use crate::assembler::{
    declare, drain, operand, resolvable, run, step, total_size, AsmState, Error,
};
use crate::ops::Op;
use vstd::prelude::*;

verus! {

/// No two instructions of `ops` declare the same label.
pub open spec fn distinct_declarations(ops: Seq<Op>) -> bool {
    forall|i: int, j: int|
        0 <= i < j < ops.len() && (#[trigger] ops[i]).declared() is Some ==> ops[i].declared()
            != (#[trigger] ops[j]).declared()
}

proof fn lemma_total_size_push(q: Seq<Op>, op: Op)
    ensures
        total_size(q.push(op)) == total_size(q) + op.size(),
    decreases q.len(),
{
    if q.len() > 0 {
        assert(q.push(op).drop_first() =~= q.drop_first().push(op));
        lemma_total_size_push(q.drop_first(), op);
    } else {
        assert(q.push(op).drop_first() =~= q);
    }
}

proof fn lemma_drain_accounts(labels: Map<Seq<char>, u64>, q: Seq<Op>)
    ensures
        drain(labels, q).0.len() + total_size(drain(labels, q).1) == total_size(q),
    decreases q.len(),
{
    if q.len() > 0 && resolvable(q[0], labels) && q[0].spec_fits(
        operand(q[0], labels),
    ) {
        lemma_drain_accounts(labels, q.drop_first());
        q[0].lemma_encoding_len(operand(q[0], labels));
    }
}

proof fn lemma_step_accounts(s: AsmState, op: Op)
    ensures
        step(s, op).0.ready.len() + total_size(step(s, op).0.pending) + s.code_len == s.ready.len()
            + total_size(s.pending) + step(s, op).0.code_len,
{
    if step(s, op).1 != Some(Error::DuplicateLabel) || !(op.declared() is Some
        && s.labels.contains_key(op.declared()->0)) {
        let labels = declare(s, op);
        lemma_drain_accounts(labels, s.pending.push(op));
        lemma_total_size_push(s.pending, op);
    }
}

/// Every byte of every accepted instruction is either in the output buffer or
/// still owed by a pending instruction: a sequence of pushes grows the output
/// and the pending instructions together by exactly what it adds to the code
/// length.
pub proof fn lemma_run_accounts(s: AsmState, ops: Seq<Op>)
    ensures
        run(s, ops).0.ready.len() + total_size(run(s, ops).0.pending) + s.code_len
            == s.ready.len() + total_size(s.pending) + run(s, ops).0.code_len,
    decreases ops.len(),
{
    if ops.len() > 0 {
        lemma_step_accounts(s, ops[0]);
        if step(s, ops[0]).1 is None {
            lemma_run_accounts(step(s, ops[0]).0, ops.drop_first());
        }
    }
}

proof fn lemma_run_code_len(s: AsmState, ops: Seq<Op>)
    requires
        run(s, ops).1 is None,
    ensures
        run(s, ops).0.code_len == s.code_len + total_size(ops),
    decreases ops.len(),
{
    if ops.len() > 0 {
        lemma_run_code_len(step(s, ops[0]).0, ops.drop_first());
    }
}

/// When a whole program assembles without error and nothing is left pending,
/// the output holds exactly one opcode and its operand bytes per instruction.
pub proof fn lemma_output_length(ops: Seq<Op>)
    requires
        run(AsmState::empty(), ops).1 is None,
        run(AsmState::empty(), ops).0.pending.len() == 0,
    ensures
        run(AsmState::empty(), ops).0.ready.len() == total_size(ops),
{
    lemma_run_accounts(AsmState::empty(), ops);
    lemma_run_code_len(AsmState::empty(), ops);
    assert(total_size(run(AsmState::empty(), ops).0.pending) == 0);
    assert(total_size(Seq::<Op>::empty()) == 0);
}

proof fn lemma_run_no_duplicate(s: AsmState, ops: Seq<Op>)
    requires
        distinct_declarations(ops),
        forall|i: int|
            0 <= i < ops.len() && (#[trigger] ops[i]).declared() is Some ==> !s.labels.contains_key(
                ops[i].declared()->0,
            ),
    ensures
        run(s, ops).1 != Some(Error::DuplicateLabel),
    decreases ops.len(),
{
    if ops.len() > 0 {
        let next = step(s, ops[0]).0;
        if step(s, ops[0]).1 is None {
            let rest = ops.drop_first();
            assert forall|i: int|
                0 <= i < rest.len() && (#[trigger] rest[i]).declared() is Some implies !next.labels.contains_key(
                rest[i].declared()->0,
            ) by {
                assert(ops[i + 1] == rest[i]);
            }
            assert forall|i: int, j: int|
                0 <= i < j < rest.len() && (#[trigger] rest[i]).declared() is Some implies rest[i].declared()
                != (#[trigger] rest[j]).declared() by {
                assert(ops[i + 1] == rest[i] && ops[j + 1] == rest[j]);
            }
            lemma_run_no_duplicate(next, rest);
        }
    }
}

/// A program in which no label is declared twice never fails with a duplicate
/// label.
pub proof fn lemma_no_duplicate_label(ops: Seq<Op>)
    requires
        distinct_declarations(ops),
    ensures
        run(AsmState::empty(), ops).1 != Some(Error::DuplicateLabel),
{
    lemma_run_no_duplicate(AsmState::empty(), ops);
}

proof fn lemma_run_keeps_labels(s: AsmState, ops: Seq<Op>)
    requires
        run(s, ops).1 is None,
    ensures
        forall|l: Seq<char>|
            s.labels.contains_key(l) ==> (#[trigger] run(s, ops).0.labels.contains_key(l))
                && run(s, ops).0.labels[l] == s.labels[l],
    decreases ops.len(),
{
    if ops.len() > 0 {
        let next = step(s, ops[0]).0;
        assert forall|l: Seq<char>| s.labels.contains_key(l) implies #[trigger] next.labels.contains_key(
            l,
        ) && next.labels[l] == s.labels[l] by {
            if ops[0].declared() is Some {
                assert(l != ops[0].declared()->0);
            }
        }
        lemma_run_keeps_labels(next, ops.drop_first());
        assert(run(s, ops) == run(next, ops.drop_first()));
        assert forall|l: Seq<char>| s.labels.contains_key(l) implies #[trigger] run(
            s,
            ops,
        ).0.labels.contains_key(l) && run(s, ops).0.labels[l] == s.labels[l] by {
            assert(next.labels.contains_key(l));
        }
    }
}

proof fn lemma_run_label_address(s: AsmState, ops: Seq<Op>, k: int)
    requires
        run(s, ops).1 is None,
        0 <= k < ops.len(),
        ops[k].declared() is Some,
        s.code_len + total_size(ops) <= u64::MAX,
    ensures
        run(s, ops).0.labels.contains_key(ops[k].declared()->0),
        run(s, ops).0.labels[ops[k].declared()->0] as nat == s.code_len + total_size(ops.take(k)),
    decreases ops.len(),
{
    let next = step(s, ops[0]).0;
    let rest = ops.drop_first();
    if k == 0 {
        lemma_run_keeps_labels(next, rest);
        assert(ops.take(0) =~= Seq::<Op>::empty());
    } else {
        assert(rest[k - 1] == ops[k]);
        lemma_run_label_address(next, rest, k - 1);
        assert(ops.take(k).drop_first() =~= rest.take(k - 1));
    }
}

/// Each label's address is the total length of the instructions before the one
/// that declares it.
pub proof fn lemma_label_address(ops: Seq<Op>, k: int)
    requires
        run(AsmState::empty(), ops).1 is None,
        0 <= k < ops.len(),
        ops[k].declared() is Some,
        total_size(ops) <= u64::MAX,
    ensures
        run(AsmState::empty(), ops).0.labels.contains_key(ops[k].declared()->0),
        run(AsmState::empty(), ops).0.labels[ops[k].declared()->0] as nat == total_size(
            ops.take(k),
        ),
{
    lemma_run_label_address(AsmState::empty(), ops, k);
}

/// Nothing more can be emitted from `pending` as it stands: it is empty, or its
/// front instruction refers to a label not yet declared, or to one whose
/// address does not fit in its operand.
pub open spec fn settled(s: AsmState) -> bool {
    s.pending.len() > 0 ==> !resolvable(s.pending[0], s.labels) || !s.pending[0].spec_fits(
        operand(s.pending[0], s.labels),
    )
}

proof fn lemma_drain_settles(labels: Map<Seq<char>, u64>, q: Seq<Op>)
    ensures
        drain(labels, q).1.len() > 0 ==> !resolvable(drain(labels, q).1[0], labels)
            || !drain(labels, q).1[0].spec_fits(operand(drain(labels, q).1[0], labels)),
    decreases q.len(),
{
    if q.len() > 0 && resolvable(q[0], labels) && q[0].spec_fits(operand(q[0], labels)) {
        lemma_drain_settles(labels, q.drop_first());
    }
}

/// A push drains the queue as far as it can: afterwards the front pending
/// instruction, if any, is blocked, and so is everything behind it.
pub proof fn lemma_push_settles(s: AsmState, op: Op)
    requires
        settled(s),
    ensures
        settled(step(s, op).0),
{
    lemma_drain_settles(declare(s, op), s.pending.push(op));
}

/// Taking the output twice in a row gives nothing the second time.
pub proof fn lemma_take_twice(s: AsmState)
    ensures
        s.taken().taken().ready == Seq::<u8>::empty(),
        s.taken().taken() == s.taken(),
{
    assert(s.taken().taken().ready =~= Seq::<u8>::empty());
}

} // verus!

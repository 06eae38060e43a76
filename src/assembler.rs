use crate::ops::Op;
use std::collections::VecDeque;
use vstd::hash_map::StringHashMap;
use vstd::prelude::*;

verus! {

/// Why an instruction could not be assembled.
#[derive(Debug, PartialEq, Eq, Structural)]
pub enum Error {
    /// A label was declared a second time.
    DuplicateLabel,
    /// A label's address does not fit in the operand of an instruction that refers to it.
    LabelTooLarge,
}

/// The state of an assembler, as values.
pub struct AsmState {
    /// Bytes of resolved instructions not yet taken by the caller.
    pub ready: Seq<u8>,
    /// Accepted instructions still waiting for a label, in program order.
    pub pending: Seq<Op>,
    /// Total length of every accepted instruction, resolved or pending.
    pub code_len: nat,
    /// Address of each declared label.
    pub labels: Map<Seq<char>, u64>,
}

impl AsmState {
    pub open spec fn empty() -> AsmState {
        AsmState { ready: seq![], pending: seq![], code_len: 0, labels: Map::empty() }
    }

    /// The state after the caller has taken the output buffer.
    pub open spec fn taken(self) -> AsmState {
        AsmState { ready: seq![], ..self }
    }
}

/// Whether every label that `op` refers to has an address.
pub open spec fn resolvable(op: Op, labels: Map<Seq<char>, u64>) -> bool {
    match op.referenced() {
        Some(l) => labels.contains_key(l),
        None => true,
    }
}

/// The address that goes into `op`'s operand.
pub open spec fn operand(op: Op, labels: Map<Seq<char>, u64>) -> nat {
    match op.referenced() {
        Some(l) => labels[l] as nat,
        None => 0,
    }
}

/// Emits instructions from the front of `queue` while the front one can be
/// resolved. Gives the emitted bytes, what stays queued, and whether the front
/// instruction stopped it because its label's address does not fit.
pub open spec fn drain(labels: Map<Seq<char>, u64>, queue: Seq<Op>) -> (Seq<u8>, Seq<Op>, bool)
    decreases queue.len(),
{
    if queue.len() == 0 {
        (seq![], queue, false)
    } else if !resolvable(queue[0], labels) {
        (seq![], queue, false)
    } else if !queue[0].spec_fits(operand(queue[0], labels)) {
        (seq![], queue, true)
    } else {
        let rest = drain(labels, queue.drop_first());
        (queue[0].encoding(operand(queue[0], labels)) + rest.0, rest.1, rest.2)
    }
}

/// The labels after `op` is accepted at the current code length.
pub open spec fn declare(s: AsmState, op: Op) -> Map<Seq<char>, u64> {
    match op.declared() {
        Some(l) => s.labels.insert(l, s.code_len as u64),
        None => s.labels,
    }
}

/// One push: the next state and the error, if any. A label declared twice is
/// refused before anything changes; otherwise the instruction is accepted,
/// queued behind those still pending, and the queue is drained, which fails
/// when the front instruction's address does not fit its operand.
pub open spec fn step(s: AsmState, op: Op) -> (AsmState, Option<Error>) {
    if op.declared() is Some && s.labels.contains_key(op.declared()->0) {
        (s, Some(Error::DuplicateLabel))
    } else {
        let labels = declare(s, op);
        let d = drain(labels, s.pending.push(op));
        let next = AsmState {
            ready: s.ready + d.0,
            pending: d.1,
            code_len: s.code_len + op.size(),
            labels,
        };
        (next, if d.2 { Some(Error::LabelTooLarge) } else { None })
    }
}

/// Pushes each of `ops` in turn, stopping at the first error.
pub open spec fn run(s: AsmState, ops: Seq<Op>) -> (AsmState, Option<Error>)
    decreases ops.len(),
{
    if ops.len() == 0 {
        (s, None)
    } else {
        let (next, e) = step(s, ops[0]);
        if e is Some {
            (next, e)
        } else {
            run(next, ops.drop_first())
        }
    }
}

/// Total length of a sequence of instructions.
pub open spec fn total_size(ops: Seq<Op>) -> nat
    decreases ops.len(),
{
    if ops.len() == 0 {
        0
    } else {
        ops[0].size() + total_size(ops.drop_first())
    }
}

/// Turns instructions into bytes, resolving label references to addresses.
pub struct Assembler {
    ready: Vec<u8>,
    pending: VecDeque<Op>,
    code_len: u64,
    labels: StringHashMap<u64>,
}

impl View for Assembler {
    type V = AsmState;

    closed spec fn view(&self) -> AsmState {
        AsmState {
            ready: self.ready@,
            pending: self.pending@,
            code_len: self.code_len as nat,
            labels: self.labels@,
        }
    }
}

impl Default for Assembler {
    fn default() -> (r: Self)
        ensures
            r@ == AsmState::empty(),
    {
        Assembler::new()
    }
}

impl Assembler {
    pub fn new() -> (r: Self)
        ensures
            r@ == AsmState::empty(),
    {
        Assembler {
            ready: Vec::new(),
            pending: VecDeque::new(),
            code_len: 0,
            labels: StringHashMap::new(),
        }
    }

    /// Removes and returns the bytes assembled so far.
    pub fn take(&mut self) -> (r: Vec<u8>)
        ensures
            r@ == old(self)@.ready,
            final(self)@ == old(self)@.taken(),
    {
        let mut out: Vec<u8> = Vec::new();
        std::mem::swap(&mut out, &mut self.ready);
        out
    }

    /// Pushes one instruction, in program order. Returns the length of the
    /// output buffer.
    pub fn push(&mut self, op: Op) -> (r: Result<usize, Error>)
        requires
            old(self)@.code_len + op.size() <= u64::MAX,
        ensures
            final(self)@ == step(old(self)@, op).0,
            match r {
                Ok(n) => step(old(self)@, op).1 is None && n == final(self)@.ready.len(),
                Err(e) => step(old(self)@, op).1 == Some(e),
            },
    {
        if let Some(label) = op.label() {
            if self.labels.contains_key(label.as_str()) {
                return Err(Error::DuplicateLabel);
            }
            self.labels.insert(label.clone(), self.code_len);
        }
        let extra = op.extra_len();
        let drained = if self.pending.len() == 0 {
            self.push_ready(op)
        } else {
            self.push_pending(op)
        };
        self.code_len = self.code_len + 1 + extra;
        match drained {
            Ok(()) => Ok(self.ready.len()),
            Err(e) => Err(e),
        }
    }

    /// Pushes each instruction in order, stopping at the first error; those
    /// pushed before it stay pushed. Returns the length of the output buffer.
    pub fn push_all(&mut self, ops: Vec<Op>) -> (r: Result<usize, Error>)
        requires
            old(self)@.code_len + total_size(ops@) <= u64::MAX,
        ensures
            final(self)@ == run(old(self)@, ops@).0,
            match r {
                Ok(n) => run(old(self)@, ops@).1 is None && n == final(self)@.ready.len(),
                Err(e) => run(old(self)@, ops@).1 == Some(e),
            },
    {
        let ghost all = ops@;
        let mut input = ops;
        let mut queue: VecDeque<Op> = VecDeque::new();
        while input.len() > 0
            invariant
                all == ops@,
                input@ + queue@ == all,
            decreases input@.len(),
        {
                        match input.pop() {
                Some(op) => {
                    queue.push_front(op);
                    assert(input@ + queue@ =~= all);
                },
                None => {},
            }
        }
        assert(queue@ =~= all);
        let ghost start = self@;
        loop
            invariant
                start == old(self)@,
                all == ops@,
                run(start, all) == run(self@, queue@),
                self@.code_len + total_size(queue@) <= u64::MAX,
            decreases queue@.len(),
        {
            let ghost rest = queue@;
            match queue.pop_front() {
                None => {
                    return Ok(self.ready.len());
                },
                Some(op) => {
                    assert(queue@ =~= rest.drop_first());
                    match self.push(op) {
                        Ok(_) => {},
                        Err(e) => {
                            return Err(e);
                        },
                    }
                },
            }
        }
    }

    /// The address recorded for label `name`, if it was declared.
    pub fn label_address(&self, name: &str) -> (r: Option<u64>)
        ensures
            r == (if self@.labels.contains_key(name@) {
                Some(self@.labels[name@])
            } else {
                None
            }),
    {
        match self.labels.get(name) {
            Some(a) => Some(*a),
            None => None,
        }
    }

    /// Number of labels declared so far.
    pub fn label_count(&self) -> (r: usize)
        ensures
            r == self@.labels.len(),
    {
        self.labels.len()
    }

    /// Number of accepted instructions still waiting for a label. A program
    /// whose every referenced label was declared leaves none.
    pub fn unresolved(&self) -> (r: usize)
        ensures
            r == self@.pending.len(),
    {
        self.pending.len()
    }

    /// Total length of every accepted instruction, resolved or pending.
    pub fn code_len(&self) -> (r: u64)
        ensures
            r == self@.code_len,
    {
        self.code_len
    }

    /// Emits `op` at once when nothing is queued and its label, if any, is
    /// known; queues it otherwise.
    fn push_ready(&mut self, op: Op) -> (r: Result<(), Error>)
        requires
            old(self)@.pending.len() == 0,
        ensures
            final(self)@.labels == old(self)@.labels,
            final(self)@.code_len == old(self)@.code_len,
            final(self)@.ready == old(self)@.ready + drain(old(self)@.labels, old(self)@.pending.push(op)).0,
            final(self)@.pending == drain(old(self)@.labels, old(self)@.pending.push(op)).1,
            match r {
                Ok(()) => !drain(old(self)@.labels, old(self)@.pending.push(op)).2,
                Err(e) => drain(old(self)@.labels, old(self)@.pending.push(op)).2 && e
                    == Error::LabelTooLarge,
            },
    {
        let ghost labels = self@.labels;
        let ghost q = self@.pending.push(op);
        assert(q.drop_first() =~= Seq::<Op>::empty());
        assert(q[0] == op);
        let mut address: u64 = 0;
        match op.immediate_label() {
            Some(l) => match self.labels.get(l.as_str()) {
                Some(a) => {
                    address = *a;
                },
                None => {
                    self.pending.push_back(op);
                    assert(self.ready@ =~= self.ready@ + Seq::<u8>::empty());
                    return Ok(());
                },
            },
            None => {},
        }
        if !op.fits(address) {
            self.pending.push_back(op);
            assert(self.ready@ =~= self.ready@ + Seq::<u8>::empty());
            return Err(Error::LabelTooLarge);
        }
        op.assemble(address, &mut self.ready);
        assert(drain(labels, q.drop_first()).0 =~= Seq::<u8>::empty());
        assert(self@.pending =~= drain(labels, q).1);
        assert(self.ready@ =~= old(self)@.ready + drain(labels, q).0);
        Ok(())
    }

    /// Queues `op` behind the instructions already waiting, then emits from the
    /// front for as long as the front one can be resolved.
    fn push_pending(&mut self, op: Op) -> (r: Result<(), Error>)
        ensures
            final(self)@.labels == old(self)@.labels,
            final(self)@.code_len == old(self)@.code_len,
            final(self)@.ready == old(self)@.ready + drain(old(self)@.labels, old(self)@.pending.push(op)).0,
            final(self)@.pending == drain(old(self)@.labels, old(self)@.pending.push(op)).1,
            match r {
                Ok(()) => !drain(old(self)@.labels, old(self)@.pending.push(op)).2,
                Err(e) => drain(old(self)@.labels, old(self)@.pending.push(op)).2 && e
                    == Error::LabelTooLarge,
            },
    {
        self.pending.push_back(op);
        let ghost labels = self@.labels;
        let ghost start = self@;
        let ghost d = drain(labels, self@.pending);
        loop
            invariant
                start.pending == old(self)@.pending.push(op),
                start.ready == old(self)@.ready,
                start.labels == old(self)@.labels,
                start.code_len == old(self)@.code_len,
                labels == start.labels,
                d == drain(labels, start.pending),
                self@.labels == labels,
                self@.code_len == start.code_len,
                self.ready@ + drain(labels, self@.pending).0 == start.ready + d.0,
                drain(labels, self@.pending).1 == d.1,
                drain(labels, self@.pending).2 == d.2,
            decreases self@.pending.len(),
        {
            if self.pending.len() == 0 {
                assert(self.ready@ =~= start.ready + d.0);
                return Ok(());
            }
            let mut address: u64 = 0;
            let mut known = true;
            match self.pending[0].immediate_label() {
                Some(l) => match self.labels.get(l.as_str()) {
                    Some(a) => {
                        address = *a;
                    },
                    None => {
                        known = false;
                    },
                },
                None => {},
            }
            if !known {
                assert(self.ready@ =~= start.ready + d.0);
                return Ok(());
            }
            assert(address as nat == operand(self@.pending[0], labels));
            if !self.pending[0].fits(address) {
                assert(self.ready@ =~= start.ready + d.0);
                return Err(Error::LabelTooLarge);
            }
            let ghost before = self@;
            match self.pending.pop_front() {
                Some(op) => {
                    op.assemble(address, &mut self.ready);
                    assert(self@.pending =~= before.pending.drop_first());
                    assert(self.ready@ + drain(labels, self@.pending).0 =~= before.ready
                        + drain(labels, before.pending).0);
                },
                None => {},
            }
        }
    }
}

} // verus!

//! The opcode audit of the bot's own transactions. Some opcodes let a
//! contract tell a simulation from the real inclusion; a token that runs
//! one of them while the sandwich contract trades it is taken for a trap.
//! Which opcodes count is a matter of policy and is handed in.

use crate::types::IsSandwichSafu;
use vstd::prelude::*;

verus! {

/// The opcodes among `trace` that `policy` holds.
pub open spec fn suspicious_in(policy: Set<u8>, trace: Seq<u8>) -> Set<u8> {
    trace.to_set().intersect(policy)
}

/// The audit of one execution: it is shown every opcode that runs in a
/// frame of the sandwich contract, and tells afterwards which suspicious
/// ones it saw.
pub struct SalmonellaInspector {
    policy: Vec<u8>,
    seen: [bool; 256],
}

/// Whether `opcode` is among `list`.
fn holds(list: &Vec<u8>, opcode: u8) -> (r: bool)
    ensures
        r == list@.contains(opcode),
{
    let mut i: usize = 0;
    while i < list.len()
        invariant
            i <= list.len(),
            forall|j: int| 0 <= j < i ==> list[j] != opcode,
        decreases list.len() - i,
    {
        if list[i] == opcode {
            return true;
        }
        i = i + 1;
    }
    false
}

impl SalmonellaInspector {
    /// The opcodes that this audit looks for.
    pub closed spec fn policy(self) -> Set<u8> {
        self.policy@.to_set()
    }

    /// The opcodes of the policy seen so far.
    pub closed spec fn found(self) -> Set<u8> {
        Set::new(|opcode: u8| self.seen@[opcode as int])
    }

    /// An audit that looks for the opcodes of `policy` and has seen nothing.
    pub fn new(policy: Vec<u8>) -> (inspector: SalmonellaInspector)
        ensures
            inspector.policy() == policy@.to_set(),
            inspector.found() == Set::<u8>::empty(),
    {
        let inspector = SalmonellaInspector { policy, seen: [false; 256] };
        proof {
            assert(inspector.found() =~= Set::<u8>::empty());
        }
        inspector
    }

    /// Shows the audit one opcode that ran.
    pub fn observe(&mut self, opcode: u8)
        ensures
            final(self).policy() == old(self).policy(),
            final(self).found() == if old(self).policy().contains(opcode) {
                old(self).found().insert(opcode)
            } else {
                old(self).found()
            },
    {
        if holds(&self.policy, opcode) {
            let ghost before = self.found();
            self.seen[opcode as usize] = true;
            proof {
                assert(self.found() =~= before.insert(opcode));
            }
        }
    }

    /// `Safu` where none of the policy's opcodes was seen; otherwise those
    /// that were, each once, in rising order.
    pub fn is_sandwich_safu(&self) -> (verdict: IsSandwichSafu)
        ensures
            match verdict {
                IsSandwichSafu::Safu => self.found() == Set::<u8>::empty(),
                IsSandwichSafu::NotSafu(opcodes) => {
                    &&& opcodes@.len() > 0
                    &&& opcodes@.to_set() == self.found()
                    &&& forall|j: int, k: int|
                        0 <= j < k < opcodes@.len() ==> opcodes@[j] < opcodes@[k]
                },
            },
    {
        let mut opcodes: Vec<u8> = Vec::new();
        let mut i: usize = 0;
        while i < 256
            invariant
                i <= 256,
                forall|j: int| 0 <= j < opcodes.len() ==> opcodes[j] < i && self.seen@[opcodes[j] as int],
                forall|j: int, k: int| 0 <= j < k < opcodes.len() ==> opcodes[j] < opcodes[k],
                forall|x: u8| x < i && self.seen@[x as int] ==> #[trigger] opcodes@.contains(x),
            decreases 256 - i,
        {
            if self.seen[i] {
                let ghost before = opcodes@;
                opcodes.push(i as u8);
                proof {
                    assert forall|x: u8| x < i + 1 && self.seen@[x as int] implies opcodes@.contains(
                        x,
                    ) by {
                        if x < i {
                            assert(before.contains(x));
                            let j = choose|j: int| 0 <= j < before.len() && before[j] == x;
                            assert(opcodes@[j] == x);
                        } else {
                            assert(opcodes@[before.len() as int] == x);
                        }
                    }
                }
            }
            i = i + 1;
        }
        proof {
            assert forall|x: u8| self.found().contains(x) implies opcodes@.to_set().contains(x) by {
                assert(opcodes@.contains(x));
            }
            assert(opcodes@.to_set() =~= self.found());
        }
        if opcodes.len() == 0 {
            proof {
                assert(self.found() =~= Set::<u8>::empty());
            }
            IsSandwichSafu::Safu
        } else {
            IsSandwichSafu::NotSafu(opcodes)
        }
    }

    /// The audit of a whole trace under a policy.
    pub fn inspect(policy: Vec<u8>, trace: &Vec<u8>) -> (verdict: IsSandwichSafu)
        ensures
            match verdict {
                IsSandwichSafu::Safu => suspicious_in(policy@.to_set(), trace@) == Set::<u8>::empty(),
                IsSandwichSafu::NotSafu(opcodes) => {
                    &&& opcodes@.len() > 0
                    &&& opcodes@.to_set() == suspicious_in(policy@.to_set(), trace@)
                    &&& forall|j: int, k: int|
                        0 <= j < k < opcodes@.len() ==> opcodes@[j] < opcodes@[k]
                },
            },
    {
        let mut inspector = SalmonellaInspector::new(policy);
        let mut i: usize = 0;
        proof {
            assert(suspicious_in(policy@.to_set(), trace@.subrange(0, 0)) =~= Set::<u8>::empty());
        }
        while i < trace.len()
            invariant
                i <= trace.len(),
                inspector.policy() == policy@.to_set(),
                inspector.found() == suspicious_in(policy@.to_set(), trace@.subrange(0, i as int)),
            decreases trace.len() - i,
        {
            inspector.observe(trace[i]);
            proof {
                let head = trace@.subrange(0, i as int);
                let next = trace@.subrange(0, i + 1);
                assert(next =~= head.push(trace[i as int]));
                assert(next.to_set() =~= head.to_set().insert(trace[i as int])) by {
                    assert forall|x: u8|
                        next.to_set().contains(x) <==> head.to_set().insert(
                            trace[i as int],
                        ).contains(x) by {
                        if next.contains(x) {
                            let j = choose|j: int| 0 <= j < next.len() && next[j] == x;
                            if j < head.len() {
                                assert(head[j] == x);
                            }
                        }
                        if head.contains(x) {
                            let j = choose|j: int| 0 <= j < head.len() && head[j] == x;
                            assert(next[j] == x);
                        }
                        if x == trace[i as int] {
                            assert(next[i as int] == x);
                        }
                    }
                }
                assert(inspector.found() =~= suspicious_in(policy@.to_set(), next));
            }
            i = i + 1;
        }
        proof {
            assert(trace@.subrange(0, trace.len() as int) =~= trace@);
        }
        inspector.is_sandwich_safu()
    }
}

/// The audit finds nothing exactly if no opcode that ran is one of the
/// policy's: a single appearance is enough.
pub proof fn lemma_any_appearance_counts(policy: Set<u8>, trace: Seq<u8>)
    ensures
        suspicious_in(policy, trace) == Set::<u8>::empty() <==> forall|i: int|
            0 <= i < trace.len() ==> !policy.contains(trace[i]),
{
    if suspicious_in(policy, trace) == Set::<u8>::empty() {
        assert forall|i: int| 0 <= i < trace.len() implies !policy.contains(trace[i]) by {
            if policy.contains(trace[i]) {
                assert(trace.contains(trace[i]));
                assert(suspicious_in(policy, trace).contains(trace[i]));
            }
        }
    }
    if forall|i: int| 0 <= i < trace.len() ==> !policy.contains(trace[i]) {
        assert(suspicious_in(policy, trace) =~= Set::<u8>::empty());
    }
}

} // verus!

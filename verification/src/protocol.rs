//! What passes between an evaluation and the simulator that runs its
//! transactions. An evaluation never executes anything itself: it names the
//! next thing to do as a [`Request`], and is resumed with the [`Response`].

use crate::types::{
    access_list_views, copy_bytes, AccessListItem, Address, ExecutionOutcome, IsSandwichSafu, Meat,
    MeatView, TxEnv, TxEnvView,
};
use crate::uint::U256;
use vstd::prelude::*;

verus! {

/// What an evaluation needs done next.
#[derive(Clone, Debug, PartialEq, Eq)]
pub enum Request {
    /// Run the call on the fork without committing its writes.
    Call(TxEnv),
    /// Run the transaction on the fork and commit its writes.
    Execute(TxEnv),
    /// Run the transaction without committing, under the tracer that
    /// records the accounts and slots it touches, and report that list.
    TraceAccessList(TxEnv),
    /// Run the transaction and commit, under the opcode audit, and report
    /// the outcome together with the audit's verdict.
    ExecuteAudited(TxEnv),
    /// Build the call data of a swap through the helper router.
    RouterCallData { amount: U256, is_frontrun: bool },
    /// Build call data and value of the frontrun for the sandwich contract.
    FrontrunPayload { amount_in: U256, amount_out: U256 },
    /// Build call data and value of the backrun for the sandwich contract.
    BackrunPayload { amount_in: U256, amount_out: U256 },
}

/// What the simulator answers.
#[derive(Clone, Debug, PartialEq, Eq)]
pub enum Response {
    /// How a call or a transaction ended.
    Outcome(ExecutionOutcome),
    /// How an audited transaction ended, and what the audit found.
    Audited(ExecutionOutcome, IsSandwichSafu),
    /// The accounts and slots that a traced transaction touched.
    AccessList(Vec<AccessListItem>),
    /// Call data, and the value to send with it.
    Payload { data: Vec<u8>, value: U256 },
    /// The simulator could not do what was asked.
    Fault(String),
}

/// The environment in which a victim transaction is simulated. Caller,
/// target, call data, value, chain and gas limit are the transaction's own;
/// a transaction without a target calls the zero address. The nonce is left
/// out. A transaction of type 0, or of no stated type, pays its gas price;
/// one of any other type pays its fee cap, with its priority fee.
pub open spec fn meat_env(meat: MeatView) -> TxEnvView {
    let legacy = meat.transaction_type is None || meat.transaction_type == Some(0u64);
    let zero = U256 { w0: 0, w1: 0, w2: 0, w3: 0 };
    TxEnvView {
        caller: meat.from,
        gas_limit: meat.gas,
        gas_price: if legacy {
            match meat.gas_price {
                Some(p) => p,
                None => zero,
            }
        } else {
            match meat.max_fee_per_gas {
                Some(p) => p,
                None => zero,
            }
        },
        gas_priority_fee: if legacy {
            None
        } else {
            meat.max_priority_fee_per_gas
        },
        transact_to: match meat.to {
            Some(a) => a,
            None => Address { hi: 0, mid: 0, lo: 0 },
        },
        value: meat.value,
        data: meat.input,
        chain_id: meat.chain_id,
        nonce: None,
        access_list: Seq::empty(),
    }
}

/// A victim transaction goes into simulation with its own caller, value
/// and call data, and without a nonce.
pub proof fn lemma_meat_env_preserves(meat: MeatView)
    ensures
        meat_env(meat).caller == meat.from,
        meat_env(meat).value == meat.value,
        meat_env(meat).data == meat.input,
        meat_env(meat).nonce is None,
{
}

/// The environment in which `meat` is simulated.
pub fn meat_tx_env(meat: &Meat) -> (env: TxEnv)
    ensures
        env@ == meat_env(meat@),
{
    let legacy = match meat.transaction_type {
        None => true,
        Some(t) => t == 0,
    };
    let gas_price = if legacy {
        match meat.gas_price {
            Some(p) => p,
            None => U256::zero(),
        }
    } else {
        match meat.max_fee_per_gas {
            Some(p) => p,
            None => U256::zero(),
        }
    };
    let env = TxEnv {
        caller: meat.from,
        gas_limit: meat.gas,
        gas_price,
        gas_priority_fee: if legacy {
            None
        } else {
            meat.max_priority_fee_per_gas
        },
        transact_to: match meat.to {
            Some(a) => a,
            None => Address::zero(),
        },
        value: meat.value,
        data: copy_bytes(&meat.input),
        chain_id: meat.chain_id,
        nonce: None,
        access_list: Vec::new(),
    };
    proof {
        assert(env@.access_list =~= Seq::empty());
    }
    env
}

/// The victims that are kept: those whose flag is set, in their order.
pub open spec fn kept(meats: Seq<MeatView>, flags: Seq<bool>) -> Seq<MeatView>
    decreases meats.len(),
{
    if meats.len() == 0 || flags.len() != meats.len() {
        Seq::empty()
    } else if flags.last() {
        kept(meats.drop_last(), flags.drop_last()).push(meats.last())
    } else {
        kept(meats.drop_last(), flags.drop_last())
    }
}

/// Whether `positions` picks `sub` out of `all`: one position for each entry
/// of `sub`, in rising order.
pub open spec fn picks(all: Seq<MeatView>, positions: Seq<int>, sub: Seq<MeatView>) -> bool {
    &&& positions.len() == sub.len()
    &&& forall|j: int| 0 <= j < positions.len() ==> 0 <= #[trigger] positions[j] < all.len()
    &&& forall|j: int| 0 <= j < positions.len() ==> sub[j] == all[#[trigger] positions[j]]
    &&& forall|i: int, j: int|
        0 <= i < j < positions.len() ==> #[trigger] positions[i] < #[trigger] positions[j]
}

/// The victims that are kept are a subsequence of all victims, in the same
/// order, and a victim is among them exactly if its flag is set.
pub proof fn lemma_kept_is_subsequence(meats: Seq<MeatView>, flags: Seq<bool>) -> (positions: Seq<
    int,
>)
    requires
        flags.len() == meats.len(),
    ensures
        picks(meats, positions, kept(meats, flags)),
        forall|i: int| 0 <= i < meats.len() ==> (flags[i] <==> positions.contains(i)),
    decreases meats.len(),
{
    if meats.len() == 0 {
        Seq::empty()
    } else {
        let head = lemma_kept_is_subsequence(meats.drop_last(), flags.drop_last());
        let last = meats.len() - 1;
        if flags.last() {
            let positions = head.push(last);
            assert forall|i: int| 0 <= i < meats.len() implies (flags[i] <==> positions.contains(
                i,
            )) by {
                if i < last {
                    assert(flags.drop_last()[i] == flags[i]);
                    if head.contains(i) {
                        let j = choose|j: int| 0 <= j < head.len() && head[j] == i;
                        assert(positions[j] == i);
                    }
                    if positions.contains(i) {
                        let j = choose|j: int| 0 <= j < positions.len() && positions[j] == i;
                        assert(head[j] == i);
                    }
                } else {
                    assert(positions[head.len() as int] == last);
                }
            }
            positions
        } else {
            assert forall|i: int| 0 <= i < meats.len() implies (flags[i] <==> head.contains(i)) by {
                if i < last {
                    assert(flags.drop_last()[i] == flags[i]);
                } else if head.contains(i) {
                    let j = choose|j: int| 0 <= j < head.len() && head[j] == i;
                    assert(head[j] < meats.drop_last().len());
                }
            }
            head
        }
    }
}

/// Copies of the victims whose flag is set, in their order.
pub fn keep_meats(meats: &Vec<Meat>, flags: &Vec<bool>) -> (good: Vec<Meat>)
    requires
        flags.len() == meats.len(),
    ensures
        crate::types::meat_views(good@) == kept(crate::types::meat_views(meats@), flags@),
{
    let mut good: Vec<Meat> = Vec::new();
    let mut i: usize = 0;
    let ghost all = crate::types::meat_views(meats@);
    proof {
        assert(all.subrange(0, 0) =~= Seq::<MeatView>::empty());
        assert(crate::types::meat_views(good@) =~= Seq::<MeatView>::empty());
    }
    while i < meats.len()
        invariant
            i <= meats.len(),
            flags.len() == meats.len(),
            all == crate::types::meat_views(meats@),
            crate::types::meat_views(good@) == kept(
                all.subrange(0, i as int),
                flags@.subrange(0, i as int),
            ),
        decreases meats.len() - i,
    {
        let ghost before = crate::types::meat_views(good@);
        if flags[i] {
            good.push(meats[i].duplicate());
        }
        proof {
            let head = all.subrange(0, i + 1);
            let head_flags = flags@.subrange(0, i + 1);
            assert(head.drop_last() =~= all.subrange(0, i as int));
            assert(head_flags.drop_last() =~= flags@.subrange(0, i as int));
            assert(head.last() == meats[i as int]@);
            if flags[i as int] {
                assert(crate::types::meat_views(good@) =~= before.push(meats[i as int]@));
            } else {
                assert(crate::types::meat_views(good@) =~= before);
            }
        }
        i = i + 1;
    }
    proof {
        assert(all.subrange(0, meats.len() as int) =~= all);
        assert(flags@.subrange(0, meats.len() as int) =~= flags@);
    }
    good
}

/// A copy of an access list with the same contents.
pub fn copy_access_list(list: &Vec<AccessListItem>) -> (copy: Vec<AccessListItem>)
    ensures
        access_list_views(copy@) == access_list_views(list@),
{
    let mut copy: Vec<AccessListItem> = Vec::new();
    let mut i: usize = 0;
    while i < list.len()
        invariant
            i <= list.len(),
            copy.len() == i,
            forall|j: int| 0 <= j < i ==> copy[j]@ == list[j]@,
        decreases list.len() - i,
    {
        let item = &list[i];
        let mut keys: Vec<U256> = Vec::new();
        let mut k: usize = 0;
        while k < item.storage_keys.len()
            invariant
                k <= item.storage_keys.len(),
                keys@ == item.storage_keys@.subrange(0, k as int),
            decreases item.storage_keys.len() - k,
        {
            keys.push(item.storage_keys[k]);
            proof {
                assert(keys@ =~= item.storage_keys@.subrange(0, k + 1));
            }
            k = k + 1;
        }
        proof {
            assert(item.storage_keys@.subrange(0, item.storage_keys.len() as int)
                =~= item.storage_keys@);
        }
        copy.push(AccessListItem { address: item.address, storage_keys: keys });
        i = i + 1;
    }
    proof {
        assert(access_list_views(copy@) =~= access_list_views(list@));
    }
    copy
}

/// A copy of a transaction environment with the same contents.
pub fn copy_tx_env(env: &TxEnv) -> (copy: TxEnv)
    ensures
        copy@ == env@,
{
    TxEnv {
        caller: env.caller,
        gas_limit: env.gas_limit,
        gas_price: env.gas_price,
        gas_priority_fee: env.gas_priority_fee,
        transact_to: env.transact_to,
        value: env.value,
        data: copy_bytes(&env.data),
        chain_id: env.chain_id,
        nonce: env.nonce,
        access_list: copy_access_list(&env.access_list),
    }
}

} // verus!

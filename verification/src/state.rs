use vstd::prelude::*;

verus! {

/// Proposal kind: replace the owner set with the proposal's candidate list.
pub const VARIANT_SET_OWNERS: u8 = 0;

/// Proposal kind: replace the quorum threshold with the candidate threshold.
pub const VARIANT_SET_THRESHOLD: u8 = 1;

/// Proposal kind: move the proposal's amount from the wallet to the
/// stored destination.
pub const VARIANT_TRANSFER: u8 = 2;

/// An identity on the ledger: a 32-byte public key. Owners, callers,
/// transfer destinations and program instances are all identities.
#[derive(Clone, Copy, Debug, PartialEq, Eq)]
pub struct Identity {
    pub bytes: [u8; 32],
}

impl View for Identity {
    type V = Seq<u8>;

    open spec fn view(&self) -> Seq<u8> {
        self.bytes@
    }
}

impl DeepView for Identity {
    type V = Seq<u8>;

    open spec fn deep_view(&self) -> Seq<u8> {
        self.bytes@
    }
}

/// The all-zero key, the destination recorded in a wallet with no
/// proposal history.
pub open spec fn zero_key() -> Seq<u8> {
    Seq::new(32, |i: int| 0u8)
}

impl Identity {
    pub fn new(bytes: [u8; 32]) -> (r: Identity)
        ensures
            r@ == bytes@,
    {
        Identity { bytes }
    }

    /// The all-zero identity.
    pub fn zero() -> (r: Identity)
        ensures
            r@ == zero_key(),
    {
        let r = Identity { bytes: [0u8; 32] };
        proof {
            assert(r@ =~= zero_key());
        }
        r
    }

    /// Byte-for-byte comparison of two identities.
    pub fn equals(&self, other: &Identity) -> (r: bool)
        ensures
            r == (self@ == other@),
    {
        let mut i: usize = 0;
        while i < 32
            invariant
                0 <= i <= 32,
                forall|j: int| 0 <= j < i ==> self.bytes@[j] == other.bytes@[j],
            decreases 32 - i,
        {
            if self.bytes[i] != other.bytes[i] {
                return false;
            }
            i += 1;
        }
        proof {
            assert(self@ =~= other@);
        }
        true
    }
}

/// Whether the key list holds `key`.
pub fn contains_key(list: &Vec<Identity>, key: &Identity) -> (r: bool)
    ensures
        r == list.deep_view().contains(key@),
{
    let mut i: usize = 0;
    while i < list.len()
        invariant
            0 <= i <= list@.len(),
            forall|j: int| 0 <= j < i ==> list.deep_view()[j] != key@,
        decreases list@.len() - i,
    {
        if list[i].equals(key) {
            proof {
                assert(list.deep_view()[i as int] == key@);
            }
            return true;
        }
        i += 1;
    }
    false
}

/// The key sequence with every occurrence of `key` dropped, other entries
/// kept in order.
pub open spec fn without(s: Seq<Seq<u8>>, key: Seq<u8>) -> Seq<Seq<u8>> {
    s.filter(|x: Seq<u8>| x != key)
}

/// Membership in `without(s, key)` is membership in `s` minus `key`;
/// removal keeps the list duplicate-free and never lengthens it.
pub proof fn lemma_without_props(s: Seq<Seq<u8>>, key: Seq<u8>)
    ensures
        forall|x: Seq<u8>| #[trigger] without(s, key).contains(x) <==> (s.contains(x) && x != key),
        s.no_duplicates() ==> without(s, key).no_duplicates(),
        without(s, key).len() <= s.len(),
    decreases s.len(),
{
    reveal(Seq::filter);
    if s.len() > 0 {
        let prefix = s.drop_last();
        lemma_without_props(prefix, key);
        assert forall|x: Seq<u8>| #[trigger] without(s, key).contains(x) implies (s.contains(x)
            && x != key) by {
            if without(prefix, key).contains(x) {
                let i = choose|i: int| 0 <= i < prefix.len() && prefix[i] == x;
                assert(s[i] == x);
            }
        }
        assert forall|x: Seq<u8>| s.contains(x) && x != key implies #[trigger] without(
            s,
            key,
        ).contains(x) by {
            let i = choose|i: int| 0 <= i < s.len() && s[i] == x;
            if i < prefix.len() {
                assert(prefix[i] == x);
                assert(without(prefix, key).contains(x));
                if s.last() != key {
                    assert(without(s, key) == without(prefix, key).push(s.last()));
                }
            } else {
                assert(x == s.last());
                assert(without(s, key).last() == x);
            }
        }
        if s.no_duplicates() {
            assert(prefix.no_duplicates());
            if s.last() != key {
                assert(forall|i: int| 0 <= i < prefix.len() ==> prefix[i] != s.last());
                assert(!prefix.contains(s.last()));
                assert(!without(prefix, key).contains(s.last()));
                assert(without(s, key) == without(prefix, key).push(s.last()));
                assert(without(s, key).no_duplicates());
            }
        }
    } else {
        assert(without(s, key) =~= s);
    }
}

/// A copy of the key list with every occurrence of `key` removed.
pub fn remove_key(list: &Vec<Identity>, key: &Identity) -> (r: Vec<Identity>)
    ensures
        r.deep_view() == without(list.deep_view(), key@),
{
    let ghost all = list.deep_view();
    let mut out: Vec<Identity> = Vec::new();
    let mut i: usize = 0;
    proof {
        reveal(Seq::filter);
        assert(out.deep_view() =~= without(all.take(0), key@));
    }
    while i < list.len()
        invariant
            0 <= i <= list@.len(),
            all == list.deep_view(),
            out.deep_view() == without(all.take(i as int), key@),
        decreases list@.len() - i,
    {
        let ghost pre = out.deep_view();
        let keep = !list[i].equals(key);
        if keep {
            let entry = list[i];
            out.push(entry);
            proof {
                assert(out.deep_view() =~= pre.push(all[i as int]));
            }
        }
        proof {
            reveal(Seq::filter);
            let step = all.take(i as int + 1);
            assert(step.drop_last() =~= all.take(i as int));
            assert(step.last() == all[i as int]);
            assert(out.deep_view() == without(step, key@));
        }
        i += 1;
    }
    proof {
        assert(all.take(list@.len() as int) =~= all);
    }
    out
}

/// The single in-flight or last-settled proposal embedded in a wallet
/// record: the action it performs on execution, the action's parameters,
/// and the vote tally.
#[derive(Debug, PartialEq)]
pub struct TransactionState {
    /// True when no action is pending: the initial state and the state
    /// after execution or cancellation.
    pub is_executed: bool,
    /// Which action this proposal performs: one of the `VARIANT_` kinds.
    pub variant: u8,
    /// Owners who voted to approve; the proposer counts as the first.
    pub signers: Vec<Identity>,
    /// Owners who voted to reject.
    pub opponents: Vec<Identity>,
    /// Transfer destination, fixed when the proposal is created.
    pub to_address: Identity,
    /// Transfer amount; zero unless a transfer is pending.
    pub amount: u64,
    /// Candidate owner set for [`VARIANT_SET_OWNERS`].
    pub owners: Vec<Identity>,
    /// Candidate threshold for [`VARIANT_SET_THRESHOLD`].
    pub threshold: u64,
}

/// The mathematical value of a [`TransactionState`].
#[verifier::ext_equal]
pub ghost struct TransactionView {
    pub is_executed: bool,
    pub variant: u8,
    pub signers: Seq<Seq<u8>>,
    pub opponents: Seq<Seq<u8>>,
    pub to_address: Seq<u8>,
    pub amount: u64,
    pub owners: Seq<Seq<u8>>,
    pub threshold: u64,
}

impl View for TransactionState {
    type V = TransactionView;

    open spec fn view(&self) -> TransactionView {
        TransactionView {
            is_executed: self.is_executed,
            variant: self.variant,
            signers: self.signers.deep_view(),
            opponents: self.opponents.deep_view(),
            to_address: self.to_address@,
            amount: self.amount,
            owners: self.owners.deep_view(),
            threshold: self.threshold,
        }
    }
}

/// The persisted wallet record: owner set, quorum threshold, derivation
/// seed, and the single embedded proposal slot.
#[derive(Debug, PartialEq)]
pub struct MultiSigWalletState {
    /// Guards against re-creation and use before creation.
    pub is_initialized: bool,
    /// The identities authorized to propose and vote, two or three of them.
    pub owners: Vec<Identity>,
    /// Distinct approvals required to execute a proposal: two or three.
    pub threshold: u64,
    /// The creator identity whose derivation fixed this wallet's address.
    pub seed: Identity,
    /// The single in-flight or last-settled proposal.
    pub transaction: TransactionState,
}

/// The mathematical value of a [`MultiSigWalletState`].
#[verifier::ext_equal]
pub ghost struct WalletView {
    pub is_initialized: bool,
    pub owners: Seq<Seq<u8>>,
    pub threshold: u64,
    pub seed: Seq<u8>,
    pub transaction: TransactionView,
}

impl View for MultiSigWalletState {
    type V = WalletView;

    open spec fn view(&self) -> WalletView {
        WalletView {
            is_initialized: self.is_initialized,
            owners: self.owners.deep_view(),
            threshold: self.threshold,
            seed: self.seed@,
            transaction: self.transaction@,
        }
    }
}

impl MultiSigWalletState {
    pub fn is_initialized(&self) -> (r: bool)
        ensures
            r == self@.is_initialized,
    {
        self.is_initialized
    }
}

/// The proposal slot after execution or cancellation: the neutral payload,
/// with the kind discriminant and the last destination left behind as
/// harmless residue, exactly as the processor writes it.
pub open spec fn cleared(t: TransactionView) -> TransactionView {
    TransactionView {
        is_executed: true,
        amount: 0,
        owners: Seq::empty(),
        threshold: 0,
        signers: Seq::empty(),
        opponents: Seq::empty(),
        ..t
    }
}

/// The neutral proposal payload: nothing pending, empty vote lists, zeroed
/// parameters. Holds in a fresh wallet and after every execution or
/// cancellation.
pub open spec fn proposal_neutral(t: TransactionView) -> bool {
    &&& t.is_executed
    &&& t.amount == 0
    &&& t.owners.len() == 0
    &&& t.threshold == 0
    &&& t.signers.len() == 0
    &&& t.opponents.len() == 0
}

/// What holds of a pending proposal: a known kind, duplicate-free and
/// disjoint vote lists drawn from the owner set, and a payload the wallet
/// could execute without breaking its own bounds.
pub open spec fn proposal_pending_wf(w: WalletView) -> bool {
    let t = w.transaction;
    &&& (t.variant == VARIANT_SET_OWNERS || t.variant == VARIANT_SET_THRESHOLD || t.variant
        == VARIANT_TRANSFER)
    &&& t.signers.no_duplicates()
    &&& t.opponents.no_duplicates()
    &&& (forall|k: Seq<u8>| #[trigger] t.signers.contains(k) ==> w.owners.contains(k))
    &&& (forall|k: Seq<u8>| #[trigger] t.opponents.contains(k) ==> w.owners.contains(k))
    &&& (forall|k: Seq<u8>| #[trigger] t.signers.contains(k) ==> !t.opponents.contains(k))
    &&& (t.variant == VARIANT_SET_OWNERS ==> w.threshold as int <= t.owners.len() as int && 2
        <= t.owners.len() <= 3)
    &&& (t.variant == VARIANT_SET_THRESHOLD ==> 2 <= t.threshold <= 3 && t.threshold as int
        <= w.owners.len() as int)
    &&& (t.variant == VARIANT_TRANSFER ==> t.amount > 0)
}

/// The record invariant, re-established by every transition: an initialized
/// wallet has two or three owners, a threshold its owners can meet, and a
/// proposal slot that is either neutral or a well-formed pending proposal.
pub open spec fn wallet_wf(w: WalletView) -> bool {
    w.is_initialized ==> {
        &&& 2 <= w.threshold <= 3
        &&& 2 <= w.owners.len() <= 3
        &&& w.threshold as int <= w.owners.len() as int
        &&& (w.transaction.is_executed ==> proposal_neutral(w.transaction))
        &&& (!w.transaction.is_executed ==> proposal_pending_wf(w))
    }
}

} // verus!

//! The airdrop's operations: creation, the claim orchestrator, the
//! deadline-gated clawback, and the queries, each against the ghost model of
//! the state, with the at-most-once law proved at the bottom.

use vstd::prelude::*;
use crate::airdrop::crypto::{pubkey_to_addr, spec_pubkey_to_addr, spec_verify_proof,
    spec_verify_signature, str_views, verify_proof, verify_signature};
use crate::airdrop::msg::{leaf, msg, spec_claim_msg, spec_leaf};
use crate::airdrop::msg::{ClaimedResponse, ConfigResponse, ExecuteMsg, InstantiateMsg, QueryMsg,
    SudoMsg};
use crate::airdrop::state::AirdropState;
use crate::airdrop::types::{AirdropError, MarsMsg};
use crate::coin::Coin;
use crate::table::{lemma_insert_lookup, pairs_view, spec_contains, spec_insert, spec_lookup,
    spec_page, start_view, StrTable};

verus! {

/// Account prefix of the source chain; the derived address format.
pub open spec fn spec_prefix() -> Seq<char> {
    "terra"@
}

const MAX_LIMIT: u32 = 30;

const DEFAULT_LIMIT: u32 = 10;

/// The page size a query asks for: `limit` capped at 30, or 10 when absent.
pub open spec fn spec_limit(limit: Option<u32>) -> nat {
    match limit {
        None => 10,
        Some(l) => if l <= 30 {
            l as nat
        } else {
            30
        },
    }
}

/// What a successful claim instructs the host to do: transfer `amount` of
/// the airdropped token to `mars_acct`, and record the event fields.
#[derive(Debug)]
pub struct ClaimResponse {
    /// The derived source-chain account.
    pub terra_acct: String,
    /// The destination account the transfer goes to.
    pub mars_acct: String,
    /// The amount transferred.
    pub amount: u128,
}

/// Creates the state: commits the root and fixes the deadline at
/// `now + claim_period`.
pub fn instantiate(init: InstantiateMsg, now: u64) -> (r: AirdropState)
    requires
        now + init.claim_period <= u64::MAX,
    ensures
        r.wf(),
        r.merkle_root == init.merkle_root,
        r.deadline == now + init.claim_period,
        r.claimed@ == Seq::<(Seq<char>, u128)>::empty(),
{
    AirdropState { merkle_root: init.merkle_root, deadline: now + init.claim_period, claimed: StrTable::new() }
}

/// The claim transition on the ghost ledger: derive the source account,
/// take its slot, then check signature and proof; a failure after the slot
/// is taken leaves the record in place, by design.
pub open spec fn spec_claim(
    claimed: Seq<(Seq<char>, u128)>,
    root: Seq<char>,
    pk_hex: Seq<char>,
    mars_acct: Seq<char>,
    amount: u128,
    proof: Seq<Seq<char>>,
    sig_hex: Seq<char>,
) -> (Seq<(Seq<char>, u128)>, Result<(), AirdropError>) {
    match spec_pubkey_to_addr(pk_hex, spec_prefix()) {
        None => (claimed, Err(AirdropError::DecodeError)),
        Some(acct) => if spec_contains(claimed, acct) {
            (claimed, Err(AirdropError::AlreadyClaimed))
        } else {
            let taken = spec_insert(claimed, acct, amount);
            match spec_verify_signature(spec_claim_msg(acct, mars_acct, amount), pk_hex, sig_hex) {
                None => (taken, Err(AirdropError::DecodeError)),
                Some(false) => (taken, Err(AirdropError::InvalidSignature)),
                Some(true) => match spec_verify_proof(spec_leaf(acct, amount), root, proof) {
                    None => (taken, Err(AirdropError::DecodeError)),
                    Some(false) => (taken, Err(AirdropError::InvalidProof)),
                    Some(true) => (taken, Ok(())),
                },
            }
        },
    }
}

/// A result with its payload erased, for comparison against `spec_claim`.
pub open spec fn result_tag(r: Result<ClaimResponse, AirdropError>) -> Result<(), AirdropError> {
    match r {
        Ok(_) => Ok(()),
        Err(e) => Err(e),
    }
}

/// Authorizes a one-time transfer: derives the source account from the
/// public key, takes the account's claim slot, and only then verifies the
/// signature over the canonical message and the Merkle proof of the leaf
/// against the committed root.
pub fn claim(
    state: &mut AirdropState,
    terra_acct_pk: String,
    mars_acct: String,
    amount: u128,
    proof: Vec<String>,
    signature: String,
) -> (r: Result<ClaimResponse, AirdropError>)
    requires
        old(state).wf(),
    ensures
        final(state).wf(),
        final(state).merkle_root == old(state).merkle_root,
        final(state).deadline == old(state).deadline,
        final(state).claimed@ == spec_claim(
            old(state).claimed@,
            old(state).merkle_root@,
            terra_acct_pk@,
            mars_acct@,
            amount,
            str_views(proof@),
            signature@,
        ).0,
        result_tag(r) == spec_claim(
            old(state).claimed@,
            old(state).merkle_root@,
            terra_acct_pk@,
            mars_acct@,
            amount,
            str_views(proof@),
            signature@,
        ).1,
        r matches Ok(out) ==> Some(out.terra_acct@) == spec_pubkey_to_addr(
            terra_acct_pk@,
            spec_prefix(),
        ) && out.mars_acct == mars_acct && out.amount == amount,
{
    let terra_acct = match pubkey_to_addr(terra_acct_pk.as_str(), "terra") {
        Ok(a) => a,
        Err(e) => {
            return Err(e);
        },
    };
    if !state.claimed.try_insert(terra_acct.as_str(), amount) {
        return Err(AirdropError::AlreadyClaimed);
    }
    let signed = msg(terra_acct.as_str(), mars_acct.as_str(), amount);
    match verify_signature(signed.as_str(), terra_acct_pk.as_str(), signature.as_str()) {
        Err(e) => {
            return Err(e);
        },
        Ok(false) => {
            return Err(AirdropError::InvalidSignature);
        },
        Ok(true) => {},
    }
    let lf = leaf(terra_acct.as_str(), amount);
    match verify_proof(lf.as_str(), state.merkle_root.as_str(), &proof) {
        Err(e) => Err(e),
        Ok(false) => Err(AirdropError::InvalidProof),
        Ok(true) => Ok(ClaimResponse { terra_acct, mars_acct, amount }),
    }
}

/// Dispatches a state-changing call.
pub fn execute(state: &mut AirdropState, message: ExecuteMsg) -> (r: Result<
    ClaimResponse,
    AirdropError,
>)
    requires
        old(state).wf(),
    ensures
        final(state).wf(),
        final(state).merkle_root == old(state).merkle_root,
        final(state).deadline == old(state).deadline,
        ({
            let ExecuteMsg::Claim { terra_acct_pk, mars_acct, amount, proof, signature } = message;
            final(state).claimed@ == spec_claim(
                old(state).claimed@,
                old(state).merkle_root@,
                terra_acct_pk@,
                mars_acct@,
                amount,
                str_views(proof@),
                signature@,
            ).0 && result_tag(r) == spec_claim(
                old(state).claimed@,
                old(state).merkle_root@,
                terra_acct_pk@,
                mars_acct@,
                amount,
                str_views(proof@),
                signature@,
            ).1
        }),
{
    match message {
        ExecuteMsg::Claim { terra_acct_pk, mars_acct, amount, proof, signature } => claim(
            state,
            terra_acct_pk,
            mars_acct,
            amount,
            proof,
            signature,
        ),
    }
}

/// Law (clawback gating): sweeping fails before the deadline and succeeds
/// from the deadline on, moving the entire residual balance to the
/// community pool. Not gated by any flag: repeated calls simply move
/// whatever is left.
pub fn clawback(state: &AirdropState, current_time: u64, balance: Vec<Coin>) -> (r: Result<
    MarsMsg,
    AirdropError,
>)
    ensures
        current_time < state.deadline <==> r == Err::<MarsMsg, AirdropError>(
            AirdropError::DeadlineNotReached,
        ),
        current_time >= state.deadline ==> (r matches Ok(m) && m matches
            MarsMsg::FundCommunityPool { amount } && amount == balance),
{
    if current_time < state.deadline {
        return Err(AirdropError::DeadlineNotReached);
    }
    Ok(MarsMsg::FundCommunityPool { amount: balance })
}

/// Dispatches a privileged call.
pub fn sudo(state: &AirdropState, message: SudoMsg, current_time: u64, balance: Vec<Coin>) -> (r:
    Result<MarsMsg, AirdropError>)
    ensures
        current_time < state.deadline <==> r == Err::<MarsMsg, AirdropError>(
            AirdropError::DeadlineNotReached,
        ),
        current_time >= state.deadline ==> (r matches Ok(m) && m matches
            MarsMsg::FundCommunityPool { amount } && amount == balance),
{
    match message {
        SudoMsg::Clawback {} => clawback(state, current_time, balance),
    }
}

/// The amount recorded for an account; zero when it has not claimed.
pub open spec fn spec_claimed_amount(m: Seq<(Seq<char>, u128)>, k: Seq<char>) -> u128 {
    match spec_lookup(m, k) {
        Some(a) => a,
        None => 0,
    }
}

pub fn query_config(state: &AirdropState) -> (r: ConfigResponse)
    ensures
        r.merkle_root == state.merkle_root,
        r.deadline == state.deadline,
{
    ConfigResponse { merkle_root: clone_string(&state.merkle_root), deadline: state.deadline }
}

pub fn query_claimed(state: &AirdropState, terra_acct: String) -> (r: ClaimedResponse)
    ensures
        r.terra_acct == terra_acct,
        r.amount == spec_claimed_amount(state.claimed@, terra_acct@),
{
    let amount = match state.claimed.get(terra_acct.as_str()) {
        Some(a) => a,
        None => 0,
    };
    ClaimedResponse { terra_acct, amount }
}

/// The records of a vector of responses, as ghost pairs.
pub open spec fn claimed_views(v: Seq<ClaimedResponse>) -> Seq<(Seq<char>, u128)> {
    v.map(|i: int, c: ClaimedResponse| (c.terra_acct@, c.amount))
}

/// The ghost cursor of an optional owned string.
pub open spec fn opt_chars(o: Option<String>) -> Option<Seq<char>> {
    match o {
        None => None,
        Some(s) => Some(s@),
    }
}

/// Enumerates claim records in ascending key order, strictly after
/// `start_after` when given, at most `min(limit, 30)` of them, 10 when no
/// limit is given.
pub fn query_all_claimed(
    state: &AirdropState,
    start_after: Option<String>,
    limit: Option<u32>,
) -> (r: Vec<ClaimedResponse>)
    requires
        state.wf(),
    ensures
        claimed_views(r@) == spec_page(state.claimed@, opt_chars(start_after), spec_limit(limit)),
{
    let lim: u32 = match limit {
        None => DEFAULT_LIMIT,
        Some(l) => if l <= MAX_LIMIT {
            l
        } else {
            MAX_LIMIT
        },
    };
    let cursor: Option<&str> = match &start_after {
        None => None,
        Some(s) => Some(s.as_str()),
    };
    proof {
        assert(start_view(cursor) == opt_chars(start_after));
    }
    let pairs = state.claimed.page(cursor, lim as usize);
    let n = pairs.len();
    let mut r: Vec<ClaimedResponse> = Vec::new();
    let mut i: usize = 0;
    while i < n
        invariant
            0 <= i <= n,
            n == pairs@.len(),
            r@.len() == i,
            forall|j: int|
                0 <= j < i ==> (#[trigger] r@[j]).terra_acct@ == pairs@[j].0@ && r@[j].amount
                    == pairs@[j].1,
        decreases n - i,
    {
        let acct = clone_string(&pairs[i].0);
        r.push(ClaimedResponse { terra_acct: acct, amount: pairs[i].1 });
        i = i + 1;
    }
    proof {
        assert(claimed_views(r@) =~= pairs_view(pairs@));
    }
    r
}

fn clone_string(s: &String) -> (r: String)
    ensures
        r == s,
{
    s.clone()
}

/// Dry run of the signature check: `None` on malformed inputs, otherwise
/// the verdict for the canonical message of the derived source account.
pub open spec fn spec_query_verify_signature(
    pk_hex: Seq<char>,
    mars_acct: Seq<char>,
    amount: u128,
    sig_hex: Seq<char>,
) -> Option<bool> {
    match spec_pubkey_to_addr(pk_hex, spec_prefix()) {
        None => None,
        Some(acct) => spec_verify_signature(spec_claim_msg(acct, mars_acct, amount), pk_hex, sig_hex),
    }
}

/// Checks a signature as `claim` would, without touching state.
pub fn query_verify_signature(
    terra_acct_pk: String,
    mars_acct: String,
    amount: u128,
    signature: String,
) -> (r: Result<bool, AirdropError>)
    ensures
        r matches Ok(b) ==> spec_query_verify_signature(
            terra_acct_pk@,
            mars_acct@,
            amount,
            signature@,
        ) == Some(b),
        r is Err ==> r == Err::<bool, AirdropError>(AirdropError::DecodeError)
            && spec_query_verify_signature(terra_acct_pk@, mars_acct@, amount, signature@) is None,
{
    let terra_acct = match pubkey_to_addr(terra_acct_pk.as_str(), "terra") {
        Ok(a) => a,
        Err(e) => {
            return Err(e);
        },
    };
    let signed = msg(terra_acct.as_str(), mars_acct.as_str(), amount);
    verify_signature(signed.as_str(), terra_acct_pk.as_str(), signature.as_str())
}

/// Checks a Merkle proof as `claim` would, without touching state.
pub fn query_verify_proof(
    state: &AirdropState,
    terra_acct: String,
    amount: u128,
    merkle_proof: Vec<String>,
) -> (r: Result<bool, AirdropError>)
    ensures
        r matches Ok(b) ==> spec_verify_proof(
            spec_leaf(terra_acct@, amount),
            state.merkle_root@,
            str_views(merkle_proof@),
        ) == Some(b),
        r is Err ==> r == Err::<bool, AirdropError>(AirdropError::DecodeError) && spec_verify_proof(
            spec_leaf(terra_acct@, amount),
            state.merkle_root@,
            str_views(merkle_proof@),
        ) is None,
{
    let lf = leaf(terra_acct.as_str(), amount);
    verify_proof(lf.as_str(), state.merkle_root.as_str(), &merkle_proof)
}

/// Answers to the read-only calls.
#[derive(Debug)]
pub enum QueryResponse {
    Config(ConfigResponse),
    Claimed(ClaimedResponse),
    AllClaimed(Vec<ClaimedResponse>),
    VerifySignature(bool),
    VerifyProof(bool),
}

/// Dispatches a read-only call.
pub fn query(state: &AirdropState, message: QueryMsg) -> (r: Result<QueryResponse, AirdropError>)
    requires
        state.wf(),
    ensures
        match message {
            QueryMsg::Config {} => r matches Ok(q) && q matches QueryResponse::Config(c)
                && c.merkle_root == state.merkle_root && c.deadline == state.deadline,
            QueryMsg::Claimed { terra_acct } => r matches Ok(q) && q matches
                QueryResponse::Claimed(c) && c.terra_acct == terra_acct && c.amount
                == spec_claimed_amount(state.claimed@, terra_acct@),
            QueryMsg::AllClaimed { start_after, limit } => r matches Ok(q) && q matches
                QueryResponse::AllClaimed(v) && claimed_views(v@) == spec_page(
                state.claimed@,
                opt_chars(start_after),
                spec_limit(limit),
            ),
            QueryMsg::VerifySignature { terra_acct_pk, mars_acct, amount, signature } => match
                spec_query_verify_signature(terra_acct_pk@, mars_acct@, amount, signature@) {
                Some(b) => r matches Ok(q) && q == QueryResponse::VerifySignature(b),
                None => r == Err::<QueryResponse, AirdropError>(AirdropError::DecodeError),
            },
            QueryMsg::VerifyProof { terra_acct, amount, proof } => match spec_verify_proof(
                spec_leaf(terra_acct@, amount),
                state.merkle_root@,
                str_views(proof@),
            ) {
                Some(b) => r matches Ok(q) && q == QueryResponse::VerifyProof(b),
                None => r == Err::<QueryResponse, AirdropError>(AirdropError::DecodeError),
            },
        },
{
    match message {
        QueryMsg::Config {} => Ok(QueryResponse::Config(query_config(state))),
        QueryMsg::Claimed { terra_acct } => Ok(
            QueryResponse::Claimed(query_claimed(state, terra_acct)),
        ),
        QueryMsg::AllClaimed { start_after, limit } => Ok(
            QueryResponse::AllClaimed(query_all_claimed(state, start_after, limit)),
        ),
        QueryMsg::VerifySignature { terra_acct_pk, mars_acct, amount, signature } => {
            match query_verify_signature(terra_acct_pk, mars_acct, amount, signature) {
                Ok(b) => Ok(QueryResponse::VerifySignature(b)),
                Err(e) => Err(e),
            }
        },
        QueryMsg::VerifyProof { terra_acct, amount, proof } => {
            match query_verify_proof(state, terra_acct, amount, proof) {
                Ok(b) => Ok(QueryResponse::VerifyProof(b)),
                Err(e) => Err(e),
            }
        },
    }
}

/// Law (complete enumeration): asking for all claim records without a
/// cursor and without a limit returns every record, in ascending key
/// order, whenever at most the default page of ten exists; a larger ledger
/// is enumerated across pages by cursor instead.
pub proof fn lemma_all_claimed_complete(m: Seq<(Seq<char>, u128)>)
    requires
        m.len() <= 10,
    ensures
        spec_page(m, None, spec_limit(None)) == m,
{
    crate::table::lemma_page_complete(m, spec_limit(None));
}

/// Law (at-most-once): once a claim attempt for a source account has taken
/// the account's slot — it got past address derivation and the ledger
/// check, whatever happened after — every later attempt for the same
/// account fails with `AlreadyClaimed` and leaves the ledger unchanged,
/// regardless of its arguments.
pub proof fn lemma_claim_at_most_once(
    claimed: Seq<(Seq<char>, u128)>,
    root: Seq<char>,
    pk1: Seq<char>,
    mars1: Seq<char>,
    amount1: u128,
    proof1: Seq<Seq<char>>,
    sig1: Seq<char>,
    pk2: Seq<char>,
    mars2: Seq<char>,
    amount2: u128,
    proof2: Seq<Seq<char>>,
    sig2: Seq<char>,
)
    requires
        spec_pubkey_to_addr(pk1, spec_prefix()) is Some,
        !spec_contains(claimed, spec_pubkey_to_addr(pk1, spec_prefix()).unwrap()),
        spec_pubkey_to_addr(pk2, spec_prefix()) == spec_pubkey_to_addr(pk1, spec_prefix()),
    ensures
        ({
            let after = spec_claim(claimed, root, pk1, mars1, amount1, proof1, sig1).0;
            spec_claim(after, root, pk2, mars2, amount2, proof2, sig2) == (
                after,
                Err::<(), AirdropError>(AirdropError::AlreadyClaimed),
            )
        }),
{
    let acct = spec_pubkey_to_addr(pk1, spec_prefix()).unwrap();
    lemma_insert_lookup(claimed, acct, amount1);
}

/// Law (at-most-once, success side): a claim can only succeed for an
/// account with no record, and it leaves the account recorded.
pub proof fn lemma_claim_takes_slot(
    claimed: Seq<(Seq<char>, u128)>,
    root: Seq<char>,
    pk: Seq<char>,
    mars: Seq<char>,
    amount: u128,
    proof: Seq<Seq<char>>,
    sig: Seq<char>,
)
    requires
        spec_claim(claimed, root, pk, mars, amount, proof, sig).1 is Ok,
    ensures
        spec_pubkey_to_addr(pk, spec_prefix()) is Some,
        !spec_contains(claimed, spec_pubkey_to_addr(pk, spec_prefix()).unwrap()),
        spec_lookup(
            spec_claim(claimed, root, pk, mars, amount, proof, sig).0,
            spec_pubkey_to_addr(pk, spec_prefix()).unwrap(),
        ) == Some(amount),
{
    let acct = spec_pubkey_to_addr(pk, spec_prefix()).unwrap();
    lemma_insert_lookup(claimed, acct, amount);
}

} // verus!

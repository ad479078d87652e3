use vstd::prelude::*;

use crate::error::CivicError;
use crate::ledger::{
    ids_distinct, index_of, lemma_owned_by_held, lemma_owned_by_remove, lemma_owned_by_update,
    owned_by, transferred, TokenView,
};
use crate::policy::Operation;
use crate::registry::{
    burn_step, constructor_outcome, deployed_view, fresh_view, grant_gatekeeper_step, guard_of,
    kyc_proved, meta_of, mint_step, owner_view, pause_outcome, revoke_gatekeeper_step,
    token_at, transfer_from_step, unpause_outcome, RegistryView,
};
use crate::status::{meta_proves_kyc, Status};

verus! {

/// Granting the Gatekeeper role to `i` makes `i` a gatekeeper, revoking it
/// afterwards makes `i` none; the Admins set is untouched by both calls.
pub proof fn lemma_gatekeeper_grant_then_revoke(v: RegistryView, admin: Seq<char>, i: Seq<char>)
    requires
        v.initialized,
        v.admins.contains(admin),
    ensures
        ({
            let (r1, v1) = grant_gatekeeper_step(v, admin, i);
            let (r2, v2) = revoke_gatekeeper_step(v1, admin, i);
            &&& r1 == Ok::<(), CivicError>(())
            &&& v1.gatekeepers.contains(i)
            &&& v1.admins == v.admins
            &&& r2 == Ok::<(), CivicError>(())
            &&& !v2.gatekeepers.contains(i)
            &&& v2.admins == v.admins
        }),
{
}

/// A successful mint of `id` for `owner` with metadata `meta`: the token
/// carries `meta`, it is the last entry of the owner's index (the first when
/// the owner held nothing), and the owner's balance and the total supply each
/// grow by one.
pub proof fn lemma_mint_records_token(
    v: RegistryView,
    caller: Seq<char>,
    owner: Seq<char>,
    id: Seq<char>,
    meta: Map<Seq<char>, Seq<char>>,
)
    requires
        mint_step(v, caller, owner, Some(id), meta).0 is Ok,
    ensures
        ({
            let w = mint_step(v, caller, owner, Some(id), meta).1;
            let before = owned_by(v.ledger.tokens, owner);
            &&& meta_of(w, id) == Some(meta)
            &&& owner_view(w, id) == Some(owner)
            &&& token_at(w, owner, before.len() as int) == Some(id)
            &&& (before.len() == 0 ==> token_at(w, owner, 0) == Some(id))
            &&& owned_by(w.ledger.tokens, owner).len() == before.len() + 1
            &&& w.ledger.tokens.len() == v.ledger.tokens.len() + 1
        }),
{
    let s = v.ledger.tokens;
    let t = TokenView { id, owner, meta };
    let s2 = s.push(t);
    assert(s2.drop_last() == s);
    assert(s2[s.len() as int].id == id);
    let k = index_of(s2, id);
    assert(k == s.len()) by {
        if k < s.len() {
            assert(s2[k] == s[k]);
        }
    }
}

/// A successful burn of `id` held by `owner`: the id leaves the owner's
/// index, which closes up around the gap keeping its order, and the owner's
/// balance and the total supply each shrink by one.
pub proof fn lemma_burn_compacts_index(
    v: RegistryView,
    caller: Seq<char>,
    owner: Seq<char>,
    id: Seq<char>,
)
    requires
        ids_distinct(v.ledger.tokens),
        burn_step(v, caller, owner, id).0 is Ok,
    ensures
        ({
            let w = burn_step(v, caller, owner, id).1;
            let before = owned_by(v.ledger.tokens, owner);
            let after = owned_by(w.ledger.tokens, owner);
            &&& !after.contains(id)
            &&& exists|k: int|
                0 <= k < before.len() && before[k] == id && after == before.remove(k)
            &&& after.len() == before.len() - 1
            &&& w.ledger.tokens.len() == v.ledger.tokens.len() - 1
        }),
{
    let s = v.ledger.tokens;
    let p = index_of(s, id);
    let s2 = s.remove(p);
    lemma_owned_by_remove(s, p, owner);
    let k = owned_by(s.take(p), owner).len() as int;
    assert(owned_by(s, owner)[k] == id);
    assert forall|a: int, b: int| 0 <= a < b < s2.len() implies s2[a].id != s2[b].id by {
        let oa = if a < p { a } else { a + 1 };
        let ob = if b < p { b } else { b + 1 };
        assert(s2[a] == s[oa]);
        assert(s2[b] == s[ob]);
    }
    lemma_owned_by_held(s2, owner);
    let after = owned_by(s2, owner);
    if after.contains(id) {
        let n = choose|n: int| 0 <= n < after.len() && after[n] == id;
        assert(crate::ledger::holds(s2, owner, after[n]));
        let q = index_of(s2, id);
        let oq = if q < p { q } else { q + 1 };
        assert(s2[q] == s[oq]);
    }
}

/// A successful transfer of the single token `id` from `from` to another
/// identity `to`: `to` owns it, `from`'s balance shrinks by one, `to`'s grows
/// by one, the total supply and the token's metadata stay.
pub proof fn lemma_transfer_moves_one(
    v: RegistryView,
    caller: Seq<char>,
    from: Seq<char>,
    to: Seq<char>,
    id: Seq<char>,
)
    requires
        ids_distinct(v.ledger.tokens),
        from != to,
        transfer_from_step(v, caller, from, to, seq![id]).0 is Ok,
    ensures
        ({
            let w = transfer_from_step(v, caller, from, to, seq![id]).1;
            &&& owner_view(w, id) == Some(to)
            &&& owned_by(w.ledger.tokens, from).len() == owned_by(v.ledger.tokens, from).len() - 1
            &&& owned_by(w.ledger.tokens, to).len() == owned_by(v.ledger.tokens, to).len() + 1
            &&& w.ledger.tokens.len() == v.ledger.tokens.len()
            &&& meta_of(w, id) == meta_of(v, id)
        }),
{
    let s = v.ledger.tokens;
    let ids = seq![id];
    assert(crate::ledger::holds(s, from, ids[0]));
    let p = index_of(s, id);
    let t = TokenView { id, owner: to, meta: s[p].meta };
    let s2 = transferred(s, to, ids);
    assert forall|i: int| 0 <= i < s.len() implies #[trigger] ids.contains(s[i].id) == (i == p) by {
        if ids.contains(s[i].id) {
            assert(ids[0] == s[i].id);
        }
        if i == p {
            assert(ids[0] == s[i].id);
        }
    }
    assert(s2 =~= s.update(p, t));
    lemma_owned_by_update(s, p, t, from);
    lemma_owned_by_update(s, p, t, to);
    crate::ledger::lemma_owned_by_single(t, from);
    crate::ledger::lemma_owned_by_single(t, to);
    crate::ledger::lemma_owned_by_single(s[p], from);
    crate::ledger::lemma_owned_by_single(s[p], to);
    assert(s2[p].id == id);
    let q = index_of(s2, id);
    assert(q == p) by {
        assert(s2[q].id == s[q].id);
    }
}

/// `is_kyc_proved` is false when the account owns no token, when its token
/// has no `status`, and when the status is `Revoked`, `Frozen` or
/// `Unregistered`; it is true exactly when the status is `Active`.
pub proof fn lemma_kyc_requires_active(v: RegistryView, account: Seq<char>)
    ensures
        owned_by(v.ledger.tokens, account).len() == 0 ==> !kyc_proved(v, account, None),
        ({
            let owned = owned_by(v.ledger.tokens, account);
            owned.len() > 0 ==> match meta_of(v, owned[0]) {
                Some(m) => {
                    &&& !m.contains_key("status"@) ==> !kyc_proved(v, account, None)
                    &&& (m.contains_key("status"@) && (m["status"@] == Status::Revoked.spec_name()
                        || m["status"@] == Status::Frozen.spec_name() || m["status"@]
                        == Status::Unregistered.spec_name())) ==> !kyc_proved(v, account, None)
                    &&& kyc_proved(v, account, None) <==> (m.contains_key("status"@) && m["status"@]
                        == "Active"@)
                },
                None => !kyc_proved(v, account, None),
            }
        }),
{
    reveal_strlit("Active");
    reveal_strlit("Revoked");
    reveal_strlit("Frozen");
    reveal_strlit("Unregistered");
    assert("Revoked"@[0] != "Active"@[0]);
    assert("Frozen"@[0] != "Active"@[0]);
    assert("Unregistered"@[0] != "Active"@[0]);
}

/// While paused, a mint is refused with `OperationPaused`, and a second pause
/// with `AlreadyPaused`; unpausing gives back the registry as it was, so the
/// same mint has the same outcome as before the pause.
pub proof fn lemma_pause_blocks_mint(
    v: RegistryView,
    admin: Seq<char>,
    minter: Seq<char>,
    recipient: Seq<char>,
    token_id: Option<Seq<char>>,
    meta: Map<Seq<char>, Seq<char>>,
)
    requires
        v.initialized,
        !v.paused,
        v.admins.contains(admin),
        v.gatekeepers.contains(minter),
    ensures
        ({
            let (r1, v1) = pause_outcome(v, admin);
            let (r3, v3) = unpause_outcome(v1, admin);
            &&& r1 == Ok::<(), CivicError>(())
            &&& mint_step(v1, minter, recipient, token_id, meta) == (
            Err::<(), CivicError>(CivicError::OperationPaused),
            v1)
            &&& pause_outcome(v1, admin).0 == Err::<(), CivicError>(CivicError::AlreadyPaused)
            &&& r3 == Ok::<(), CivicError>(())
            &&& v3 == v
            &&& mint_step(v3, minter, recipient, token_id, meta) == mint_step(
                v,
                minter,
                recipient,
                token_id,
                meta,
            )
        }),
{
    let v1 = pause_outcome(v, admin).1;
    let v3 = unpause_outcome(v1, admin).1;
    assert(v3 == v);
}

/// The constructor runs at most once: once a deployment has consumed the
/// capability, and equally once the constructor has run, every further call
/// fails with `InvalidState` and changes nothing.
pub proof fn lemma_constructor_runs_once(
    deployer: Seq<char>,
    name: Seq<char>,
    symbol: Seq<char>,
    meta: Map<Seq<char>, Seq<char>>,
    admin: Option<Seq<char>>,
    deployer2: Seq<char>,
    name2: Seq<char>,
    symbol2: Seq<char>,
    meta2: Map<Seq<char>, Seq<char>>,
    admin2: Option<Seq<char>>,
)
    ensures
        ({
            let d = deployed_view(deployer, name, symbol, meta, admin);
            let c = constructor_outcome(fresh_view(), deployer, name, symbol, meta, admin).1;
            &&& constructor_outcome(d, deployer2, name2, symbol2, meta2, admin2) == (
            Err::<(), CivicError>(CivicError::InvalidState),
            d)
            &&& constructor_outcome(c, deployer2, name2, symbol2, meta2, admin2) == (
            Err::<(), CivicError>(CivicError::InvalidState),
            c)
        }),
{
}

/// Before the constructor has run, every guarded operation is refused with
/// `InvalidState`.
pub proof fn lemma_guard_needs_construction(v: RegistryView, caller: Seq<char>, op: Operation)
    requires
        !v.initialized,
    ensures
        guard_of(v, caller, op) == Err::<(), CivicError>(CivicError::InvalidState),
{
}

} // verus!

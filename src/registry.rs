use vstd::prelude::*;

use crate::error::CivicError;
use crate::identity::Identity;
use crate::ledger::{
    burn_outcome, has_token, holds, ids_distinct, index_of, mint_outcome, opt_view, owned_by,
    set_meta_outcome, transfer_outcome, update_meta_outcome, LedgerView, TokenLedger,
};
use crate::metadata::Metadata;
use crate::policy::{guard, guard_outcome, Operation};
use crate::roles::{Admins, GateKeepers};
use crate::status::{meta_proves_kyc, status_is_active};

verus! {

/// The registry as the contracts speak of it.
pub struct RegistryView {
    /// The one-time constructor capability is still live.
    pub constructor_open: bool,
    /// The constructor has run.
    pub initialized: bool,
    pub name: Seq<char>,
    pub symbol: Seq<char>,
    pub meta: Map<Seq<char>, Seq<char>>,
    pub admins: Set<Seq<char>>,
    pub gatekeepers: Set<Seq<char>>,
    pub paused: bool,
    pub ledger: LedgerView,
}

/// A registry just created, before its constructor has run.
pub open spec fn fresh_view() -> RegistryView {
    RegistryView {
        constructor_open: true,
        initialized: false,
        name: Seq::empty(),
        symbol: Seq::empty(),
        meta: Map::empty(),
        admins: Set::empty(),
        gatekeepers: Set::empty(),
        paused: false,
        ledger: LedgerView { tokens: Seq::empty(), next_id: 0 },
    }
}

/// The constructor runs once, while its capability is live: it names the
/// registry, makes `admin` (the deployer when none is given) both Admin and
/// Gatekeeper, and starts with an empty ledger, not paused.
pub open spec fn constructor_outcome(
    v: RegistryView,
    deployer: Seq<char>,
    name: Seq<char>,
    symbol: Seq<char>,
    meta: Map<Seq<char>, Seq<char>>,
    admin: Option<Seq<char>>,
) -> (Result<(), CivicError>, RegistryView) {
    if !v.constructor_open || v.initialized {
        (Err(CivicError::InvalidState), v)
    } else {
        let a = match admin {
            Some(x) => x,
            None => deployer,
        };
        (
            Ok(()),
            RegistryView {
                constructor_open: v.constructor_open,
                initialized: true,
                name,
                symbol,
                meta,
                admins: Set::empty().insert(a),
                gatekeepers: Set::empty().insert(a),
                paused: false,
                ledger: LedgerView { tokens: Seq::empty(), next_id: 0 },
            },
        )
    }
}

/// What a deployment leaves: the constructor has run and its capability is gone.
pub open spec fn deployed_view(
    deployer: Seq<char>,
    name: Seq<char>,
    symbol: Seq<char>,
    meta: Map<Seq<char>, Seq<char>>,
    admin: Option<Seq<char>>,
) -> RegistryView {
    RegistryView {
        constructor_open: false,
        ..constructor_outcome(fresh_view(), deployer, name, symbol, meta, admin).1
    }
}

pub open spec fn opt_identity_view(o: Option<Identity>) -> Option<Seq<char>> {
    match o {
        Some(i) => Some(i@),
        None => None,
    }
}

/// Whether a call of `op` by `caller` may go on: the registry must be
/// constructed, then the caller's roles and the pause gate decide.
pub open spec fn guard_of(v: RegistryView, caller: Seq<char>, op: Operation) -> Result<
    (),
    CivicError,
> {
    if !v.initialized {
        Err(CivicError::InvalidState)
    } else {
        guard_outcome(op, v.admins.contains(caller), v.gatekeepers.contains(caller), v.paused)
    }
}

/// A guarded change of the ledger: refused by the guard, nothing changes;
/// else the ledger step decides.
pub open spec fn ledger_step(
    v: RegistryView,
    caller: Seq<char>,
    op: Operation,
    step: (Result<(), CivicError>, LedgerView),
) -> (Result<(), CivicError>, RegistryView) {
    match guard_of(v, caller, op) {
        Err(e) => (Err(e), v),
        Ok(_) => (step.0, RegistryView { ledger: step.1, ..v }),
    }
}

/// A guarded change of anything else: refused by the guard, nothing changes.
pub open spec fn guarded_step(
    v: RegistryView,
    caller: Seq<char>,
    op: Operation,
    next: RegistryView,
) -> (Result<(), CivicError>, RegistryView) {
    match guard_of(v, caller, op) {
        Err(e) => (Err(e), v),
        Ok(_) => (Ok(()), next),
    }
}

pub open spec fn mint_step(
    v: RegistryView,
    caller: Seq<char>,
    recipient: Seq<char>,
    token_id: Option<Seq<char>>,
    meta: Map<Seq<char>, Seq<char>>,
) -> (Result<(), CivicError>, RegistryView) {
    ledger_step(v, caller, Operation::Mint, mint_outcome(v.ledger, recipient, token_id, meta))
}

pub open spec fn burn_step(v: RegistryView, caller: Seq<char>, owner: Seq<char>, id: Seq<char>) -> (
    Result<(), CivicError>,
    RegistryView,
) {
    ledger_step(v, caller, Operation::Burn, burn_outcome(v.ledger, owner, id))
}

pub open spec fn transfer_from_step(
    v: RegistryView,
    caller: Seq<char>,
    sender: Seq<char>,
    recipient: Seq<char>,
    ids: Seq<Seq<char>>,
) -> (Result<(), CivicError>, RegistryView) {
    ledger_step(
        v,
        caller,
        Operation::TransferFrom,
        transfer_outcome(v.ledger, sender, recipient, ids),
    )
}

pub open spec fn transfer_step(
    v: RegistryView,
    caller: Seq<char>,
    recipient: Seq<char>,
    ids: Seq<Seq<char>>,
) -> (Result<(), CivicError>, RegistryView) {
    ledger_step(v, caller, Operation::Transfer, transfer_outcome(v.ledger, caller, recipient, ids))
}

pub open spec fn set_meta_step(
    v: RegistryView,
    caller: Seq<char>,
    id: Seq<char>,
    meta: Map<Seq<char>, Seq<char>>,
) -> (Result<(), CivicError>, RegistryView) {
    ledger_step(v, caller, Operation::SetTokenMeta, set_meta_outcome(v.ledger, id, meta))
}

pub open spec fn update_meta_step(
    v: RegistryView,
    caller: Seq<char>,
    id: Seq<char>,
    key: Seq<char>,
    value: Seq<char>,
) -> (Result<(), CivicError>, RegistryView) {
    ledger_step(v, caller, Operation::UpdateTokenMeta, update_meta_outcome(v.ledger, id, key, value))
}

pub open spec fn grant_gatekeeper_step(v: RegistryView, caller: Seq<char>, id: Seq<char>) -> (
    Result<(), CivicError>,
    RegistryView,
) {
    guarded_step(
        v,
        caller,
        Operation::GrantGatekeeper,
        RegistryView { gatekeepers: v.gatekeepers.insert(id), ..v },
    )
}

pub open spec fn revoke_gatekeeper_step(v: RegistryView, caller: Seq<char>, id: Seq<char>) -> (
    Result<(), CivicError>,
    RegistryView,
) {
    guarded_step(
        v,
        caller,
        Operation::RevokeGatekeeper,
        RegistryView { gatekeepers: v.gatekeepers.remove(id), ..v },
    )
}

pub open spec fn grant_admin_step(v: RegistryView, caller: Seq<char>, id: Seq<char>) -> (
    Result<(), CivicError>,
    RegistryView,
) {
    guarded_step(v, caller, Operation::GrantAdmin, RegistryView { admins: v.admins.insert(id), ..v })
}

pub open spec fn revoke_admin_step(v: RegistryView, caller: Seq<char>, id: Seq<char>) -> (
    Result<(), CivicError>,
    RegistryView,
) {
    guarded_step(v, caller, Operation::RevokeAdmin, RegistryView { admins: v.admins.remove(id), ..v })
}

pub open spec fn pause_outcome(v: RegistryView, caller: Seq<char>) -> (
    Result<(), CivicError>,
    RegistryView,
) {
    match guard_of(v, caller, Operation::Pause) {
        Err(e) => (Err(e), v),
        Ok(_) => if v.paused {
            (Err(CivicError::AlreadyPaused), v)
        } else {
            (Ok(()), RegistryView { paused: true, ..v })
        },
    }
}

pub open spec fn unpause_outcome(v: RegistryView, caller: Seq<char>) -> (
    Result<(), CivicError>,
    RegistryView,
) {
    match guard_of(v, caller, Operation::Unpause) {
        Err(e) => (Err(e), v),
        Ok(_) => if !v.paused {
            (Err(CivicError::AlreadyActive), v)
        } else {
            (Ok(()), RegistryView { paused: false, ..v })
        },
    }
}

/// The id at `index` of `owner`'s index, if there is one.
pub open spec fn token_at(v: RegistryView, owner: Seq<char>, index: int) -> Option<Seq<char>> {
    let owned = owned_by(v.ledger.tokens, owner);
    if 0 <= index < owned.len() {
        Some(owned[index])
    } else {
        None
    }
}

/// The metadata of the token `id`, if it is live.
pub open spec fn meta_of(v: RegistryView, id: Seq<char>) -> Option<Map<Seq<char>, Seq<char>>> {
    if has_token(v.ledger.tokens, id) {
        Some(v.ledger.tokens[index_of(v.ledger.tokens, id)].meta)
    } else {
        None
    }
}

/// The owner of the token `id`, if it is live.
pub open spec fn owner_view(v: RegistryView, id: Seq<char>) -> Option<Seq<char>> {
    if has_token(v.ledger.tokens, id) {
        Some(v.ledger.tokens[index_of(v.ledger.tokens, id)].owner)
    } else {
        None
    }
}

/// An account proves KYC when the token at `index` (0 when none is given) of
/// its index exists and its metadata has status `Active`.
pub open spec fn kyc_proved(v: RegistryView, account: Seq<char>, index: Option<usize>) -> bool {
    let i = match index {
        Some(i) => i as int,
        None => 0,
    };
    match token_at(v, account, i) {
        Some(id) => match meta_of(v, id) {
            Some(m) => meta_proves_kyc(m),
            None => false,
        },
        None => false,
    }
}

/// The identity-attestation registry: roles, pause gate, one-time
/// constructor, and the ledger of attestation tokens.
#[derive(Debug)]
pub struct Registry {
    constructor_open: bool,
    initialized: bool,
    name: String,
    symbol: String,
    meta: Metadata,
    admins: Admins,
    gatekeepers: GateKeepers,
    paused: bool,
    ledger: TokenLedger,
}

impl View for Registry {
    type V = RegistryView;

    closed spec fn view(&self) -> RegistryView {
        RegistryView {
            constructor_open: self.constructor_open,
            initialized: self.initialized,
            name: self.name@,
            symbol: self.symbol@,
            meta: self.meta@,
            admins: self.admins@,
            gatekeepers: self.gatekeepers@,
            paused: self.paused,
            ledger: self.ledger@,
        }
    }
}

impl Registry {
    /// A registry whose constructor capability is live and whose constructor
    /// has not run.
    pub fn new() -> (r: Registry)
        ensures
            r@ == fresh_view(),
    {
        Registry {
            constructor_open: true,
            initialized: false,
            name: String::new(),
            symbol: String::new(),
            meta: Metadata::new(),
            admins: Admins::init(),
            gatekeepers: GateKeepers::init(),
            paused: false,
            ledger: TokenLedger::new(),
        }
    }

    /// A registry put back together from its parts, as kept between calls.
    pub fn restore(
        constructor_open: bool,
        initialized: bool,
        name: String,
        symbol: String,
        meta: Metadata,
        admins: Admins,
        gatekeepers: GateKeepers,
        paused: bool,
        ledger: TokenLedger,
    ) -> (r: Registry)
        ensures
            r@ == (RegistryView {
                constructor_open,
                initialized,
                name: name@,
                symbol: symbol@,
                meta: meta@,
                admins: admins@,
                gatekeepers: gatekeepers@,
                paused,
                ledger: ledger@,
            }),
    {
        Registry {
            constructor_open,
            initialized,
            name,
            symbol,
            meta,
            admins,
            gatekeepers,
            paused,
            ledger,
        }
    }

    pub fn is_initialized(&self) -> (r: bool)
        ensures
            r == self@.initialized,
    {
        self.initialized
    }

    pub fn constructor_open(&self) -> (r: bool)
        ensures
            r == self@.constructor_open,
    {
        self.constructor_open
    }

    pub fn admins(&self) -> (r: &Admins)
        ensures
            r@ == self@.admins,
    {
        &self.admins
    }

    pub fn gatekeepers(&self) -> (r: &GateKeepers)
        ensures
            r@ == self@.gatekeepers,
    {
        &self.gatekeepers
    }

    /// The ledger; its tokens are always named by distinct ids.
    pub fn ledger(&self) -> (r: &TokenLedger)
        ensures
            r@ == self@.ledger,
            ids_distinct(self@.ledger.tokens),
    {
        self.ledger.ids_are_distinct();
        &self.ledger
    }

    /// Runs the one-time initialisation.
    pub fn constructor(
        &mut self,
        deployer: &Identity,
        name: String,
        symbol: String,
        meta: Metadata,
        admin: Option<Identity>,
    ) -> (r: Result<(), CivicError>)
        ensures
            (r, final(self)@) == constructor_outcome(
                old(self)@,
                deployer@,
                name@,
                symbol@,
                meta@,
                opt_identity_view(admin),
            ),
    {
        if !self.constructor_open || self.initialized {
            return Err(CivicError::InvalidState);
        }
        let a = match admin {
            Some(x) => x,
            None => deployer.duplicate(),
        };
        let mut admins = Admins::init();
        admins.add_admin(&a);
        let mut gatekeepers = GateKeepers::init();
        gatekeepers.add_gatekeeper(&a);
        self.initialized = true;
        self.name = name;
        self.symbol = symbol;
        self.meta = meta;
        self.admins = admins;
        self.gatekeepers = gatekeepers;
        self.paused = false;
        self.ledger = TokenLedger::new();
        Ok(())
    }

    /// Destroys the constructor capability, for good.
    pub fn remove_constructor_access(&mut self)
        ensures
            final(self)@ == (RegistryView { constructor_open: false, ..old(self)@ }),
    {
        self.constructor_open = false;
    }

    /// Creates a registry, runs its constructor with the capability, and then
    /// destroys the capability so that the constructor can never run again.
    pub fn deploy(
        deployer: &Identity,
        name: String,
        symbol: String,
        meta: Metadata,
        admin: Option<Identity>,
    ) -> (r: Registry)
        ensures
            r@ == deployed_view(deployer@, name@, symbol@, meta@, opt_identity_view(admin)),
    {
        let mut r = Registry::new();
        let _ = r.constructor(deployer, name, symbol, meta, admin);
        r.remove_constructor_access();
        r
    }

    /// The dispatch guard of `op` for `caller`.
    pub fn authorize(&self, caller: &Identity, op: Operation) -> (r: Result<(), CivicError>)
        ensures
            r == guard_of(self@, caller@, op),
    {
        if !self.initialized {
            return Err(CivicError::InvalidState);
        }
        guard(
            op,
            self.admins.is_admin(caller),
            self.gatekeepers.is_gatekeeper(caller),
            self.paused,
        )
    }

    /// Fails with `Unauthorized` unless `caller` is an Admin.
    pub fn assert_caller_is_admin(&self, caller: &Identity) -> (r: Result<(), CivicError>)
        ensures
            r is Ok <==> self@.admins.contains(caller@),
            r is Err ==> r == Err::<(), CivicError>(CivicError::Unauthorized),
    {
        if self.admins.is_admin(caller) {
            Ok(())
        } else {
            Err(CivicError::Unauthorized)
        }
    }

    /// Fails with `Unauthorized` unless `caller` is a Gatekeeper.
    pub fn assert_caller_is_gatekeeper(&self, caller: &Identity) -> (r: Result<(), CivicError>)
        ensures
            r is Ok <==> self@.gatekeepers.contains(caller@),
            r is Err ==> r == Err::<(), CivicError>(CivicError::Unauthorized),
    {
        if self.gatekeepers.is_gatekeeper(caller) {
            Ok(())
        } else {
            Err(CivicError::Unauthorized)
        }
    }

    /// Fails with `Unauthorized` unless `caller` is an Admin or a Gatekeeper.
    pub fn assert_authorized_caller(&self, caller: &Identity) -> (r: Result<(), CivicError>)
        ensures
            r is Ok <==> (self@.admins.contains(caller@) || self@.gatekeepers.contains(caller@)),
            r is Err ==> r == Err::<(), CivicError>(CivicError::Unauthorized),
    {
        if self.gatekeepers.is_gatekeeper(caller) || self.admins.is_admin(caller) {
            Ok(())
        } else {
            Err(CivicError::Unauthorized)
        }
    }

    pub fn is_admin(&self, id: &Identity) -> (r: bool)
        ensures
            r == self@.admins.contains(id@),
    {
        self.admins.is_admin(id)
    }

    pub fn is_gatekeeper(&self, id: &Identity) -> (r: bool)
        ensures
            r == self@.gatekeepers.contains(id@),
    {
        self.gatekeepers.is_gatekeeper(id)
    }

    pub fn is_paused(&self) -> (r: bool)
        ensures
            r == self@.paused,
    {
        self.paused
    }

    pub fn name(&self) -> (r: &String)
        ensures
            r@ == self@.name,
    {
        &self.name
    }

    pub fn symbol(&self) -> (r: &String)
        ensures
            r@ == self@.symbol,
    {
        &self.symbol
    }

    pub fn meta(&self) -> (r: &Metadata)
        ensures
            r@ == self@.meta,
    {
        &self.meta
    }

    pub fn total_supply(&self) -> (r: usize)
        ensures
            r == self@.ledger.tokens.len(),
    {
        self.ledger.total_supply()
    }

    pub fn balance_of(&self, owner: &Identity) -> (r: usize)
        ensures
            r == owned_by(self@.ledger.tokens, owner@).len(),
    {
        self.ledger.balance_of(owner)
    }

    pub fn get_token_by_index(&self, owner: &Identity, index: usize) -> (r: Option<String>)
        ensures
            opt_view(r) == token_at(self@, owner@, index as int),
    {
        let r = self.ledger.get_token_by_index(owner, index);
        r
    }

    pub fn owner_of(&self, token_id: &String) -> (r: Option<Identity>)
        ensures
            opt_identity_view(r) == owner_view(self@, token_id@),
    {
        self.ledger.owner_of(token_id)
    }

    pub fn token_meta(&self, token_id: &String) -> (r: Option<Metadata>)
        ensures
            r.is_some() == meta_of(self@, token_id@).is_some(),
            r matches Some(m) ==> meta_of(self@, token_id@) == Some(m@),
    {
        self.ledger.token_meta(token_id)
    }

    /// Whether the token at `index` (0 when none is given) of `account`'s
    /// index attests an active verification. Never fails: every missing piece
    /// reads as `false`.
    pub fn is_kyc_proved(&self, account: &Identity, index: Option<usize>) -> (r: bool)
        ensures
            r == kyc_proved(self@, account@, index),
    {
        let i: usize = match index {
            Some(i) => i,
            None => 0,
        };
        let token_id = match self.ledger.get_token_by_index(account, i) {
            Some(t) => t,
            None => {
                return false;
            },
        };
        self.ledger.ids_are_distinct();
        proof {
            crate::ledger::lemma_owned_by_held(self@.ledger.tokens, account@);
            assert(holds(self@.ledger.tokens, account@, token_id@));
        }
        match self.ledger.token_meta(&token_id) {
            Some(m) => status_is_active(&m),
            None => false,
        }
    }

    pub fn mint(
        &mut self,
        caller: &Identity,
        recipient: &Identity,
        token_id: Option<String>,
        token_meta: Metadata,
    ) -> (r: Result<(), CivicError>)
        ensures
            (r, final(self)@) == mint_step(
                old(self)@,
                caller@,
                recipient@,
                opt_view(token_id),
                token_meta@,
            ),
    {
        match self.authorize(caller, Operation::Mint) {
            Err(e) => Err(e),
            Ok(()) => self.ledger.mint(recipient, token_id, token_meta),
        }
    }

    pub fn burn(&mut self, caller: &Identity, owner: &Identity, token_id: &String) -> (r: Result<
        (),
        CivicError,
    >)
        ensures
            (r, final(self)@) == burn_step(old(self)@, caller@, owner@, token_id@),
    {
        match self.authorize(caller, Operation::Burn) {
            Err(e) => Err(e),
            Ok(()) => self.ledger.burn(owner, token_id),
        }
    }

    pub fn transfer_from(
        &mut self,
        caller: &Identity,
        sender: &Identity,
        recipient: &Identity,
        token_ids: &Vec<String>,
    ) -> (r: Result<(), CivicError>)
        ensures
            (r, final(self)@) == transfer_from_step(
                old(self)@,
                caller@,
                sender@,
                recipient@,
                token_ids@.map_values(|x: String| x@),
            ),
    {
        match self.authorize(caller, Operation::TransferFrom) {
            Err(e) => Err(e),
            Ok(()) => self.ledger.transfer(sender, recipient, token_ids),
        }
    }

    /// Hands the caller's own tokens to `recipient`.
    pub fn transfer(&mut self, caller: &Identity, recipient: &Identity, token_ids: &Vec<String>) -> (r:
        Result<(), CivicError>)
        ensures
            (r, final(self)@) == transfer_step(
                old(self)@,
                caller@,
                recipient@,
                token_ids@.map_values(|x: String| x@),
            ),
    {
        match self.authorize(caller, Operation::Transfer) {
            Err(e) => Err(e),
            Ok(()) => self.ledger.transfer(caller, recipient, token_ids),
        }
    }

    pub fn set_token_meta(&mut self, caller: &Identity, token_id: &String, token_meta: Metadata) -> (r:
        Result<(), CivicError>)
        ensures
            (r, final(self)@) == set_meta_step(old(self)@, caller@, token_id@, token_meta@),
    {
        match self.authorize(caller, Operation::SetTokenMeta) {
            Err(e) => Err(e),
            Ok(()) => self.ledger.set_token_meta(token_id, token_meta),
        }
    }

    pub fn update_token_meta(
        &mut self,
        caller: &Identity,
        token_id: &String,
        key: String,
        value: String,
    ) -> (r: Result<(), CivicError>)
        ensures
            (r, final(self)@) == update_meta_step(old(self)@, caller@, token_id@, key@, value@),
    {
        match self.authorize(caller, Operation::UpdateTokenMeta) {
            Err(e) => Err(e),
            Ok(()) => self.ledger.update_token_meta(token_id, key, value),
        }
    }

    pub fn grant_gatekeeper(&mut self, caller: &Identity, gatekeeper: &Identity) -> (r: Result<
        (),
        CivicError,
    >)
        ensures
            (r, final(self)@) == grant_gatekeeper_step(old(self)@, caller@, gatekeeper@),
    {
        match self.authorize(caller, Operation::GrantGatekeeper) {
            Err(e) => Err(e),
            Ok(()) => {
                self.gatekeepers.add_gatekeeper(gatekeeper);
                Ok(())
            },
        }
    }

    pub fn revoke_gatekeeper(&mut self, caller: &Identity, gatekeeper: &Identity) -> (r: Result<
        (),
        CivicError,
    >)
        ensures
            (r, final(self)@) == revoke_gatekeeper_step(old(self)@, caller@, gatekeeper@),
    {
        match self.authorize(caller, Operation::RevokeGatekeeper) {
            Err(e) => Err(e),
            Ok(()) => {
                self.gatekeepers.revoke_gatekeeper(gatekeeper);
                Ok(())
            },
        }
    }

    pub fn grant_admin(&mut self, caller: &Identity, admin: &Identity) -> (r: Result<(), CivicError>)
        ensures
            (r, final(self)@) == grant_admin_step(old(self)@, caller@, admin@),
    {
        match self.authorize(caller, Operation::GrantAdmin) {
            Err(e) => Err(e),
            Ok(()) => {
                self.admins.add_admin(admin);
                Ok(())
            },
        }
    }

    pub fn revoke_admin(&mut self, caller: &Identity, admin: &Identity) -> (r: Result<
        (),
        CivicError,
    >)
        ensures
            (r, final(self)@) == revoke_admin_step(old(self)@, caller@, admin@),
    {
        match self.authorize(caller, Operation::RevokeAdmin) {
            Err(e) => Err(e),
            Ok(()) => {
                self.admins.disable_admin(admin);
                Ok(())
            },
        }
    }

    pub fn pause(&mut self, caller: &Identity) -> (r: Result<(), CivicError>)
        ensures
            (r, final(self)@) == pause_outcome(old(self)@, caller@),
    {
        match self.authorize(caller, Operation::Pause) {
            Err(e) => Err(e),
            Ok(()) => {
                if self.paused {
                    Err(CivicError::AlreadyPaused)
                } else {
                    self.paused = true;
                    Ok(())
                }
            },
        }
    }

    pub fn unpause(&mut self, caller: &Identity) -> (r: Result<(), CivicError>)
        ensures
            (r, final(self)@) == unpause_outcome(old(self)@, caller@),
    {
        match self.authorize(caller, Operation::Unpause) {
            Err(e) => Err(e),
            Ok(()) => {
                if !self.paused {
                    Err(CivicError::AlreadyActive)
                } else {
                    self.paused = false;
                    Ok(())
                }
            },
        }
    }
}

} // verus!

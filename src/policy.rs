use vstd::prelude::*;

use crate::error::CivicError;

verus! {

/// The named operations that the registry exposes.
#[derive(Debug, Clone, Copy, PartialEq, Eq, Structural)]
pub enum Operation {
    Constructor,
    Name,
    Symbol,
    Meta,
    TotalSupply,
    BalanceOf,
    OwnerOf,
    IsKycProved,
    TokenMeta,
    SetTokenMeta,
    UpdateTokenMeta,
    Mint,
    Burn,
    Transfer,
    TransferFrom,
    GetTokenByIndex,
    GrantGatekeeper,
    RevokeGatekeeper,
    GrantAdmin,
    RevokeAdmin,
    Pause,
    Unpause,
}

/// Who may call an operation.
#[derive(Debug, Clone, Copy, PartialEq, Eq, Structural)]
pub enum Authorization {
    /// Anyone.
    Public,
    /// Members of Admins.
    Admin,
    /// Members of Gatekeepers.
    Gatekeeper,
    /// Members of either set.
    AdminOrGatekeeper,
    /// Only the one-time constructor capability.
    ConstructorGroup,
}

/// How an operation is guarded.
#[derive(Debug, Clone, Copy, PartialEq, Eq, Structural)]
pub struct Policy {
    pub authorization: Authorization,
    /// Whether the operation is refused while the registry is paused.
    pub pausable: bool,
}

/// The type of an entry point's argument or result.
#[derive(Debug, Clone, Copy, PartialEq, Eq, Structural)]
pub enum ArgType {
    Unit,
    Bool,
    Text,
    Meta,
    Key,
    Number,
    TokenId,
    TokenIdList,
    OptionKey,
    OptionNumber,
    OptionTokenId,
}

/// One named argument of an entry point.
#[derive(Debug, Clone, Copy)]
pub struct Parameter {
    pub name: &'static str,
    pub ty: ArgType,
}

pub open spec fn spec_policy(op: Operation) -> Policy {
    let (authorization, pausable) = match op {
        Operation::Constructor => (Authorization::ConstructorGroup, false),
        Operation::Name => (Authorization::Public, false),
        Operation::Symbol => (Authorization::Public, false),
        Operation::Meta => (Authorization::Public, false),
        Operation::TotalSupply => (Authorization::Public, false),
        Operation::BalanceOf => (Authorization::Public, false),
        Operation::OwnerOf => (Authorization::Public, false),
        Operation::IsKycProved => (Authorization::Public, false),
        Operation::TokenMeta => (Authorization::Public, false),
        Operation::GetTokenByIndex => (Authorization::Public, false),
        Operation::SetTokenMeta => (Authorization::AdminOrGatekeeper, true),
        Operation::UpdateTokenMeta => (Authorization::AdminOrGatekeeper, true),
        Operation::Mint => (Authorization::Gatekeeper, true),
        Operation::Burn => (Authorization::AdminOrGatekeeper, true),
        Operation::Transfer => (Authorization::Admin, true),
        Operation::TransferFrom => (Authorization::Admin, true),
        Operation::GrantGatekeeper => (Authorization::Admin, false),
        Operation::RevokeGatekeeper => (Authorization::Admin, false),
        Operation::GrantAdmin => (Authorization::Admin, false),
        Operation::RevokeAdmin => (Authorization::Admin, false),
        Operation::Pause => (Authorization::Admin, false),
        Operation::Unpause => (Authorization::Admin, false),
    };
    Policy { authorization, pausable }
}

/// The guard of each operation.
pub fn policy(op: Operation) -> (r: Policy)
    ensures
        r == spec_policy(op),
{
    let (authorization, pausable) = match op {
        Operation::Constructor => (Authorization::ConstructorGroup, false),
        Operation::Name => (Authorization::Public, false),
        Operation::Symbol => (Authorization::Public, false),
        Operation::Meta => (Authorization::Public, false),
        Operation::TotalSupply => (Authorization::Public, false),
        Operation::BalanceOf => (Authorization::Public, false),
        Operation::OwnerOf => (Authorization::Public, false),
        Operation::IsKycProved => (Authorization::Public, false),
        Operation::TokenMeta => (Authorization::Public, false),
        Operation::GetTokenByIndex => (Authorization::Public, false),
        Operation::SetTokenMeta => (Authorization::AdminOrGatekeeper, true),
        Operation::UpdateTokenMeta => (Authorization::AdminOrGatekeeper, true),
        Operation::Mint => (Authorization::Gatekeeper, true),
        Operation::Burn => (Authorization::AdminOrGatekeeper, true),
        Operation::Transfer => (Authorization::Admin, true),
        Operation::TransferFrom => (Authorization::Admin, true),
        Operation::GrantGatekeeper => (Authorization::Admin, false),
        Operation::RevokeGatekeeper => (Authorization::Admin, false),
        Operation::GrantAdmin => (Authorization::Admin, false),
        Operation::RevokeAdmin => (Authorization::Admin, false),
        Operation::Pause => (Authorization::Admin, false),
        Operation::Unpause => (Authorization::Admin, false),
    };
    Policy { authorization, pausable }
}

/// Whether a caller with these roles meets `auth`.
pub open spec fn permits(auth: Authorization, is_admin: bool, is_gatekeeper: bool) -> bool {
    match auth {
        Authorization::Public => true,
        Authorization::Admin => is_admin,
        Authorization::Gatekeeper => is_gatekeeper,
        Authorization::AdminOrGatekeeper => is_admin || is_gatekeeper,
        Authorization::ConstructorGroup => false,
    }
}

/// The outcome of the guard of `op`: first the role, then the pause gate.
pub open spec fn guard_outcome(
    op: Operation,
    is_admin: bool,
    is_gatekeeper: bool,
    paused: bool,
) -> Result<(), CivicError> {
    let p = spec_policy(op);
    if !permits(p.authorization, is_admin, is_gatekeeper) {
        Err(CivicError::Unauthorized)
    } else if p.pausable && paused {
        Err(CivicError::OperationPaused)
    } else {
        Ok(())
    }
}

/// Decides whether a call of `op` may go on, given what the registry knows
/// of the caller and of the pause gate.
pub fn guard(op: Operation, is_admin: bool, is_gatekeeper: bool, paused: bool) -> (r: Result<
    (),
    CivicError,
>)
    ensures
        r == guard_outcome(op, is_admin, is_gatekeeper, paused),
{
    let p = policy(op);
    let allowed = match p.authorization {
        Authorization::Public => true,
        Authorization::Admin => is_admin,
        Authorization::Gatekeeper => is_gatekeeper,
        Authorization::AdminOrGatekeeper => is_admin || is_gatekeeper,
        Authorization::ConstructorGroup => false,
    };
    if !allowed {
        Err(CivicError::Unauthorized)
    } else if p.pausable && paused {
        Err(CivicError::OperationPaused)
    } else {
        Ok(())
    }
}

pub open spec fn all_operations() -> Seq<Operation> {
    seq![
        Operation::Constructor,
        Operation::Name,
        Operation::Symbol,
        Operation::Meta,
        Operation::TotalSupply,
        Operation::BalanceOf,
        Operation::OwnerOf,
        Operation::IsKycProved,
        Operation::TokenMeta,
        Operation::SetTokenMeta,
        Operation::UpdateTokenMeta,
        Operation::Mint,
        Operation::Burn,
        Operation::Transfer,
        Operation::TransferFrom,
        Operation::GetTokenByIndex,
        Operation::GrantGatekeeper,
        Operation::RevokeGatekeeper,
        Operation::GrantAdmin,
        Operation::RevokeAdmin,
        Operation::Pause,
        Operation::Unpause,
    ]
}

pub open spec fn spec_entry_name(op: Operation) -> Seq<char> {
    match op {
        Operation::Constructor => "constructor"@,
        Operation::Name => "name"@,
        Operation::Symbol => "symbol"@,
        Operation::Meta => "meta"@,
        Operation::TotalSupply => "total_supply"@,
        Operation::BalanceOf => "balance_of"@,
        Operation::OwnerOf => "owner_of"@,
        Operation::IsKycProved => "is_kyc_proved"@,
        Operation::TokenMeta => "token_meta"@,
        Operation::SetTokenMeta => "set_token_meta"@,
        Operation::UpdateTokenMeta => "update_token_meta"@,
        Operation::Mint => "mint"@,
        Operation::Burn => "burn"@,
        Operation::Transfer => "transfer"@,
        Operation::TransferFrom => "transfer_from"@,
        Operation::GetTokenByIndex => "get_token_by_index"@,
        Operation::GrantGatekeeper => "grant_gatekeeper"@,
        Operation::RevokeGatekeeper => "revoke_gatekeeper"@,
        Operation::GrantAdmin => "grant_admin"@,
        Operation::RevokeAdmin => "revoke_admin"@,
        Operation::Pause => "pause"@,
        Operation::Unpause => "unpause"@,
    }
}

pub open spec fn spec_parameters(op: Operation) -> Seq<(Seq<char>, ArgType)> {
    match op {
        Operation::Constructor => seq![
            ("name"@, ArgType::Text),
            ("symbol"@, ArgType::Text),
            ("meta"@, ArgType::Meta),
            ("admin"@, ArgType::Key),
        ],
        Operation::BalanceOf => seq![("owner"@, ArgType::Key)],
        Operation::OwnerOf => seq![("token_id"@, ArgType::TokenId)],
        Operation::IsKycProved => seq![
            ("account"@, ArgType::Key),
            ("index"@, ArgType::OptionNumber),
        ],
        Operation::TokenMeta => seq![("token_id"@, ArgType::TokenId)],
        Operation::SetTokenMeta => seq![
            ("token_id"@, ArgType::TokenId),
            ("token_meta"@, ArgType::Meta),
        ],
        Operation::UpdateTokenMeta => seq![
            ("token_id"@, ArgType::TokenId),
            ("token_meta_key"@, ArgType::Text),
            ("token_meta_value"@, ArgType::Text),
        ],
        Operation::Mint => seq![
            ("recipient"@, ArgType::Key),
            ("token_id"@, ArgType::OptionTokenId),
            ("token_meta"@, ArgType::Meta),
        ],
        Operation::Burn => seq![("owner"@, ArgType::Key), ("token_id"@, ArgType::TokenId)],
        Operation::Transfer => seq![
            ("recipient"@, ArgType::Key),
            ("token_ids"@, ArgType::TokenIdList),
        ],
        Operation::TransferFrom => seq![
            ("sender"@, ArgType::Key),
            ("recipient"@, ArgType::Key),
            ("token_ids"@, ArgType::TokenIdList),
        ],
        Operation::GetTokenByIndex => seq![("owner"@, ArgType::Key), ("index"@, ArgType::Number)],
        Operation::GrantGatekeeper => seq![("gatekeeper"@, ArgType::Key)],
        Operation::RevokeGatekeeper => seq![("gatekeeper"@, ArgType::Key)],
        Operation::GrantAdmin => seq![("admin"@, ArgType::Key)],
        Operation::RevokeAdmin => seq![("admin"@, ArgType::Key)],
        _ => seq![],
    }
}

pub open spec fn spec_returns(op: Operation) -> ArgType {
    match op {
        Operation::Name => ArgType::Text,
        Operation::Symbol => ArgType::Text,
        Operation::Meta => ArgType::Meta,
        Operation::TotalSupply => ArgType::Number,
        Operation::BalanceOf => ArgType::Number,
        Operation::OwnerOf => ArgType::OptionKey,
        Operation::IsKycProved => ArgType::Bool,
        Operation::TokenMeta => ArgType::Meta,
        Operation::GetTokenByIndex => ArgType::OptionTokenId,
        _ => ArgType::Unit,
    }
}

fn param(name: &'static str, ty: ArgType) -> (r: Parameter)
    ensures
        r.name@ == name@,
        r.ty == ty,
{
    Parameter { name, ty }
}

impl Operation {
    /// Every operation, in the order in which entry points are registered.
    pub fn all() -> (r: Vec<Operation>)
        ensures
            r@ == all_operations(),
    {
        let r = vec![
            Operation::Constructor,
            Operation::Name,
            Operation::Symbol,
            Operation::Meta,
            Operation::TotalSupply,
            Operation::BalanceOf,
            Operation::OwnerOf,
            Operation::IsKycProved,
            Operation::TokenMeta,
            Operation::SetTokenMeta,
            Operation::UpdateTokenMeta,
            Operation::Mint,
            Operation::Burn,
            Operation::Transfer,
            Operation::TransferFrom,
            Operation::GetTokenByIndex,
            Operation::GrantGatekeeper,
            Operation::RevokeGatekeeper,
            Operation::GrantAdmin,
            Operation::RevokeAdmin,
            Operation::Pause,
            Operation::Unpause,
        ];
        assert(r@ =~= all_operations());
        r
    }

    /// The name under which the operation is called.
    pub fn entry_name(&self) -> (r: &'static str)
        ensures
            r@ == spec_entry_name(*self),
    {
        match self {
            Operation::Constructor => "constructor",
            Operation::Name => "name",
            Operation::Symbol => "symbol",
            Operation::Meta => "meta",
            Operation::TotalSupply => "total_supply",
            Operation::BalanceOf => "balance_of",
            Operation::OwnerOf => "owner_of",
            Operation::IsKycProved => "is_kyc_proved",
            Operation::TokenMeta => "token_meta",
            Operation::SetTokenMeta => "set_token_meta",
            Operation::UpdateTokenMeta => "update_token_meta",
            Operation::Mint => "mint",
            Operation::Burn => "burn",
            Operation::Transfer => "transfer",
            Operation::TransferFrom => "transfer_from",
            Operation::GetTokenByIndex => "get_token_by_index",
            Operation::GrantGatekeeper => "grant_gatekeeper",
            Operation::RevokeGatekeeper => "revoke_gatekeeper",
            Operation::GrantAdmin => "grant_admin",
            Operation::RevokeAdmin => "revoke_admin",
            Operation::Pause => "pause",
            Operation::Unpause => "unpause",
        }
    }

    /// The named arguments that the operation reads, in order.
    pub fn parameters(&self) -> (r: Vec<Parameter>)
        ensures
            r@.len() == spec_parameters(*self).len(),
            forall|i: int|
                0 <= i < r@.len() ==> (#[trigger] r@[i]).name@ == spec_parameters(*self)[i].0
                    && r@[i].ty == spec_parameters(*self)[i].1,
    {
        let r = match self {
            Operation::Constructor => vec![
                param("name", ArgType::Text),
                param("symbol", ArgType::Text),
                param("meta", ArgType::Meta),
                param("admin", ArgType::Key),
            ],
            Operation::BalanceOf => vec![param("owner", ArgType::Key)],
            Operation::OwnerOf => vec![param("token_id", ArgType::TokenId)],
            Operation::IsKycProved => vec![
                param("account", ArgType::Key),
                param("index", ArgType::OptionNumber),
            ],
            Operation::TokenMeta => vec![param("token_id", ArgType::TokenId)],
            Operation::SetTokenMeta => vec![
                param("token_id", ArgType::TokenId),
                param("token_meta", ArgType::Meta),
            ],
            Operation::UpdateTokenMeta => vec![
                param("token_id", ArgType::TokenId),
                param("token_meta_key", ArgType::Text),
                param("token_meta_value", ArgType::Text),
            ],
            Operation::Mint => vec![
                param("recipient", ArgType::Key),
                param("token_id", ArgType::OptionTokenId),
                param("token_meta", ArgType::Meta),
            ],
            Operation::Burn => vec![param("owner", ArgType::Key), param("token_id", ArgType::TokenId)],
            Operation::Transfer => vec![
                param("recipient", ArgType::Key),
                param("token_ids", ArgType::TokenIdList),
            ],
            Operation::TransferFrom => vec![
                param("sender", ArgType::Key),
                param("recipient", ArgType::Key),
                param("token_ids", ArgType::TokenIdList),
            ],
            Operation::GetTokenByIndex => vec![
                param("owner", ArgType::Key),
                param("index", ArgType::Number),
            ],
            Operation::GrantGatekeeper => vec![param("gatekeeper", ArgType::Key)],
            Operation::RevokeGatekeeper => vec![param("gatekeeper", ArgType::Key)],
            Operation::GrantAdmin => vec![param("admin", ArgType::Key)],
            Operation::RevokeAdmin => vec![param("admin", ArgType::Key)],
            _ => Vec::new(),
        };
        r
    }

    /// The type of the operation's result.
    pub fn result_type(&self) -> (r: ArgType)
        ensures
            r == spec_returns(*self),
    {
        match self {
            Operation::Name => ArgType::Text,
            Operation::Symbol => ArgType::Text,
            Operation::Meta => ArgType::Meta,
            Operation::TotalSupply => ArgType::Number,
            Operation::BalanceOf => ArgType::Number,
            Operation::OwnerOf => ArgType::OptionKey,
            Operation::IsKycProved => ArgType::Bool,
            Operation::TokenMeta => ArgType::Meta,
            Operation::GetTokenByIndex => ArgType::OptionTokenId,
            _ => ArgType::Unit,
        }
    }
}

} // verus!

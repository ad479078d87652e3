use vstd::prelude::*;
use vstd::string::StringExecFns;

use crate::error::CivicError;
use crate::identity::Identity;
use crate::metadata::Metadata;

verus! {

/// A token as the contracts speak of it.
pub struct TokenView {
    pub id: Seq<char>,
    pub owner: Seq<char>,
    pub meta: Map<Seq<char>, Seq<char>>,
}

/// The ledger as the contracts speak of it: the live tokens in the order in
/// which they entered, and the counter that names tokens minted without an id.
pub struct LedgerView {
    pub tokens: Seq<TokenView>,
    pub next_id: nat,
}

/// One live token.
#[derive(Debug)]
pub struct Token {
    pub id: String,
    pub owner: Identity,
    pub meta: Metadata,
}

impl View for Token {
    type V = TokenView;

    open spec fn view(&self) -> TokenView {
        TokenView { id: self.id@, owner: self.owner@, meta: self.meta@ }
    }
}

/// The ids that `owner` holds, in index order: the owner index.
pub open spec fn owned_by(s: Seq<TokenView>, owner: Seq<char>) -> Seq<Seq<char>>
    decreases s.len(),
{
    if s.len() == 0 {
        Seq::empty()
    } else {
        let rest = owned_by(s.drop_last(), owner);
        if s.last().owner == owner {
            rest.push(s.last().id)
        } else {
            rest
        }
    }
}

pub open spec fn has_token(s: Seq<TokenView>, id: Seq<char>) -> bool {
    exists|i: int| 0 <= i < s.len() && s[i].id == id
}

/// Where the token `id` stands; meaningful when `has_token(s, id)`.
pub open spec fn index_of(s: Seq<TokenView>, id: Seq<char>) -> int {
    choose|i: int| 0 <= i < s.len() && s[i].id == id
}

pub open spec fn ids_distinct(s: Seq<TokenView>) -> bool {
    forall|i: int, j: int| 0 <= i < j < s.len() ==> s[i].id != s[j].id
}

/// Whether `owner` holds `id`.
pub open spec fn holds(s: Seq<TokenView>, owner: Seq<char>, id: Seq<char>) -> bool {
    has_token(s, id) && s[index_of(s, id)].owner == owner
}

/// A transfer of `ids` from `from` to `to` goes through when every id is held
/// by `from`, and no id is named twice unless the tokens stay where they are.
pub open spec fn transfer_allowed(
    s: Seq<TokenView>,
    from: Seq<char>,
    to: Seq<char>,
    ids: Seq<Seq<char>>,
) -> bool {
    &&& forall|j: int| 0 <= j < ids.len() ==> holds(s, from, #[trigger] ids[j])
    &&& (from == to || forall|a: int, b: int| 0 <= a < b < ids.len() ==> ids[a] != ids[b])
}

/// The tokens after `ids` have passed to `to`; all else stays.
pub open spec fn transferred(s: Seq<TokenView>, to: Seq<char>, ids: Seq<Seq<char>>) -> Seq<
    TokenView,
> {
    Seq::new(
        s.len(),
        |i: int|
            if ids.contains(s[i].id) {
                TokenView { id: s[i].id, owner: to, meta: s[i].meta }
            } else {
                s[i]
            },
    )
}

pub open spec fn opt_view(o: Option<String>) -> Option<Seq<char>> {
    match o {
        Some(t) => Some(t@),
        None => None,
    }
}

/// Minting adds a token for `owner` at the end, named `token_id` or, without
/// one, by the decimal text of the counter, which then moves on. A taken id is
/// refused, and so is a counter that cannot move on.
pub open spec fn mint_outcome(
    l: LedgerView,
    owner: Seq<char>,
    token_id: Option<Seq<char>>,
    meta: Map<Seq<char>, Seq<char>>,
) -> (Result<(), CivicError>, LedgerView) {
    let id = match token_id {
        Some(t) => t,
        None => decimal_text(l.next_id),
    };
    if token_id.is_none() && l.next_id >= u64::MAX {
        (Err(CivicError::InvalidState), l)
    } else if has_token(l.tokens, id) {
        (Err(CivicError::AlreadyExists), l)
    } else {
        (
            Ok(()),
            LedgerView {
                tokens: l.tokens.push(TokenView { id, owner, meta }),
                next_id: if token_id.is_none() {
                    l.next_id + 1
                } else {
                    l.next_id
                },
            },
        )
    }
}

/// Burning removes a token that `owner` holds; the others keep their order.
pub open spec fn burn_outcome(l: LedgerView, owner: Seq<char>, id: Seq<char>) -> (
    Result<(), CivicError>,
    LedgerView,
) {
    if holds(l.tokens, owner, id) {
        (Ok(()), LedgerView { tokens: l.tokens.remove(index_of(l.tokens, id)), next_id: l.next_id })
    } else {
        (Err(CivicError::NotFound), l)
    }
}

/// Setting metadata replaces that of an existing token.
pub open spec fn set_meta_outcome(
    l: LedgerView,
    id: Seq<char>,
    meta: Map<Seq<char>, Seq<char>>,
) -> (Result<(), CivicError>, LedgerView) {
    if has_token(l.tokens, id) {
        let p = index_of(l.tokens, id);
        (
            Ok(()),
            LedgerView {
                tokens: l.tokens.update(p, TokenView { id, owner: l.tokens[p].owner, meta }),
                next_id: l.next_id,
            },
        )
    } else {
        (Err(CivicError::NotFound), l)
    }
}

/// Updating metadata sets one key of an existing token's metadata.
pub open spec fn update_meta_outcome(
    l: LedgerView,
    id: Seq<char>,
    key: Seq<char>,
    value: Seq<char>,
) -> (Result<(), CivicError>, LedgerView) {
    if has_token(l.tokens, id) {
        let p = index_of(l.tokens, id);
        let t = l.tokens[p];
        (
            Ok(()),
            LedgerView {
                tokens: l.tokens.update(
                    p,
                    TokenView { id: t.id, owner: t.owner, meta: t.meta.insert(key, value) },
                ),
                next_id: l.next_id,
            },
        )
    } else {
        (Err(CivicError::NotFound), l)
    }
}

/// A transfer hands every listed token to `to`, or nothing at all.
pub open spec fn transfer_outcome(
    l: LedgerView,
    from: Seq<char>,
    to: Seq<char>,
    ids: Seq<Seq<char>>,
) -> (Result<(), CivicError>, LedgerView) {
    if transfer_allowed(l.tokens, from, to, ids) {
        (Ok(()), LedgerView { tokens: transferred(l.tokens, to, ids), next_id: l.next_id })
    } else {
        (Err(CivicError::NotFound), l)
    }
}

pub open spec fn digit_char(d: nat) -> char {
    if d == 0 {
        '0'
    } else if d == 1 {
        '1'
    } else if d == 2 {
        '2'
    } else if d == 3 {
        '3'
    } else if d == 4 {
        '4'
    } else if d == 5 {
        '5'
    } else if d == 6 {
        '6'
    } else if d == 7 {
        '7'
    } else if d == 8 {
        '8'
    } else {
        '9'
    }
}

/// The decimal text of `n`, which names the `n`-th token minted without an id.
pub open spec fn decimal_text(n: nat) -> Seq<char>
    decreases n,
{
    if n < 10 {
        seq![digit_char(n)]
    } else {
        decimal_text(n / 10).push(digit_char(n % 10))
    }
}

fn digit(d: u64) -> (r: &'static str)
    requires
        d < 10,
    ensures
        r@ == seq![digit_char(d as nat)],
{
    proof {
        reveal_strlit("0");
        reveal_strlit("1");
        reveal_strlit("2");
        reveal_strlit("3");
        reveal_strlit("4");
        reveal_strlit("5");
        reveal_strlit("6");
        reveal_strlit("7");
        reveal_strlit("8");
        reveal_strlit("9");
    }
    if d == 0 {
        "0"
    } else if d == 1 {
        "1"
    } else if d == 2 {
        "2"
    } else if d == 3 {
        "3"
    } else if d == 4 {
        "4"
    } else if d == 5 {
        "5"
    } else if d == 6 {
        "6"
    } else if d == 7 {
        "7"
    } else if d == 8 {
        "8"
    } else {
        "9"
    }
}

pub fn decimal(n: u64) -> (r: String)
    ensures
        r@ == decimal_text(n as nat),
    decreases n,
{
    if n < 10 {
        digit(n).to_owned()
    } else {
        let mut s = decimal(n / 10);
        s.append(digit(n % 10));
        proof {
            assert(seq![digit_char((n % 10) as nat)] =~= seq![digit_char((n % 10) as nat)]);
        }
        s
    }
}

proof fn lemma_owned_by_concat(a: Seq<TokenView>, b: Seq<TokenView>, owner: Seq<char>)
    ensures
        owned_by(a + b, owner) == owned_by(a, owner) + owned_by(b, owner),
    decreases b.len(),
{
    if b.len() == 0 {
        assert(a + b == a);
        assert(owned_by(a, owner) + owned_by(b, owner) == owned_by(a, owner));
    } else {
        lemma_owned_by_concat(a, b.drop_last(), owner);
        assert((a + b).drop_last() == a + b.drop_last());
        assert((a + b).last() == b.last());
        if b.last().owner == owner {
            assert(owned_by(a, owner) + owned_by(b.drop_last(), owner).push(b.last().id) == (
            owned_by(a, owner) + owned_by(b.drop_last(), owner)).push(b.last().id));
        }
    }
}

pub proof fn lemma_owned_by_single(t: TokenView, owner: Seq<char>)
    ensures
        owned_by(seq![t], owner) == (if t.owner == owner {
            seq![t.id]
        } else {
            Seq::<Seq<char>>::empty()
        }),
{
    assert(seq![t].drop_last() == Seq::<TokenView>::empty());
    assert(seq![t].last() == t);
    assert(owned_by(Seq::<TokenView>::empty(), owner) == Seq::<Seq<char>>::empty());
    assert(Seq::<Seq<char>>::empty().push(t.id) == seq![t.id]);
}

/// The owner index after a removal loses exactly the removed token, at the
/// place it had.
pub proof fn lemma_owned_by_remove(s: Seq<TokenView>, p: int, owner: Seq<char>)
    requires
        0 <= p < s.len(),
    ensures
        owned_by(s.remove(p), owner) == (if s[p].owner == owner {
            owned_by(s, owner).remove(owned_by(s.take(p), owner).len() as int)
        } else {
            owned_by(s, owner)
        }),
        s[p].owner == owner ==> owned_by(s.take(p), owner).len() < owned_by(s, owner).len()
            && owned_by(s, owner)[owned_by(s.take(p), owner).len() as int] == s[p].id,
{
    let a = s.take(p);
    let b = s.skip(p + 1);
    assert(s == a + seq![s[p]] + b);
    assert(s.remove(p) == a + b);
    lemma_owned_by_concat(a + seq![s[p]], b, owner);
    lemma_owned_by_concat(a, seq![s[p]], owner);
    lemma_owned_by_concat(a, b, owner);
    lemma_owned_by_single(s[p], owner);
    if s[p].owner == owner {
        let k = owned_by(a, owner).len() as int;
        assert(owned_by(a, owner) + seq![s[p].id] + owned_by(b, owner) == owned_by(s, owner));
        assert((owned_by(a, owner) + seq![s[p].id] + owned_by(b, owner)).remove(k) == owned_by(
            a,
            owner,
        ) + owned_by(b, owner));
    } else {
        assert(owned_by(a, owner) + Seq::<Seq<char>>::empty() == owned_by(a, owner));
    }
}

/// The owner index of `owner` after the token at `p` is replaced by `t`.
pub proof fn lemma_owned_by_update(s: Seq<TokenView>, p: int, t: TokenView, owner: Seq<char>)
    requires
        0 <= p < s.len(),
    ensures
        owned_by(s.update(p, t), owner) == owned_by(s.take(p), owner) + owned_by(seq![t], owner)
            + owned_by(s.skip(p + 1), owner),
        owned_by(s, owner) == owned_by(s.take(p), owner) + owned_by(seq![s[p]], owner) + owned_by(
            s.skip(p + 1),
            owner,
        ),
{
    let a = s.take(p);
    let b = s.skip(p + 1);
    assert(s == a + seq![s[p]] + b);
    assert(s.update(p, t) == a + seq![t] + b);
    lemma_owned_by_concat(a + seq![s[p]], b, owner);
    lemma_owned_by_concat(a, seq![s[p]], owner);
    lemma_owned_by_concat(a + seq![t], b, owner);
    lemma_owned_by_concat(a, seq![t], owner);
}

proof fn lemma_owned_by_prefix(s: Seq<TokenView>, k: int, owner: Seq<char>)
    requires
        0 <= k <= s.len(),
    ensures
        owned_by(s.take(k), owner).len() <= owned_by(s, owner).len(),
        forall|n: int|
            0 <= n < owned_by(s.take(k), owner).len() ==> owned_by(s, owner)[n] == owned_by(
                s.take(k),
                owner,
            )[n],
{
    assert(s == s.take(k) + s.skip(k));
    lemma_owned_by_concat(s.take(k), s.skip(k), owner);
}

proof fn lemma_owned_by_step(s: Seq<TokenView>, i: int, owner: Seq<char>)
    requires
        0 <= i < s.len(),
    ensures
        owned_by(s.take(i + 1), owner) == (if s[i].owner == owner {
            owned_by(s.take(i), owner).push(s[i].id)
        } else {
            owned_by(s.take(i), owner)
        }),
{
    assert(s.take(i + 1).drop_last() == s.take(i));
}

proof fn lemma_owned_by_len(s: Seq<TokenView>, owner: Seq<char>)
    ensures
        owned_by(s, owner).len() <= s.len(),
    decreases s.len(),
{
    if s.len() > 0 {
        lemma_owned_by_len(s.drop_last(), owner);
    }
}

proof fn lemma_index_of(s: Seq<TokenView>, i: int)
    requires
        ids_distinct(s),
        0 <= i < s.len(),
    ensures
        has_token(s, s[i].id),
        index_of(s, s[i].id) == i,
{
    assert(has_token(s, s[i].id));
}

/// Every id in an owner index names a live token that the owner holds.
pub proof fn lemma_owned_by_held(s: Seq<TokenView>, owner: Seq<char>)
    requires
        ids_distinct(s),
    ensures
        forall|n: int|
            0 <= n < owned_by(s, owner).len() ==> holds(s, owner, #[trigger] owned_by(s, owner)[n]),
    decreases s.len(),
{
    if s.len() > 0 {
        let d = s.drop_last();
        assert forall|a: int, b: int| 0 <= a < b < d.len() implies d[a].id != d[b].id by {
            assert(d[a] == s[a]);
            assert(d[b] == s[b]);
        }
        lemma_owned_by_held(d, owner);
        assert forall|n: int| 0 <= n < owned_by(s, owner).len() implies holds(
            s,
            owner,
            #[trigger] owned_by(s, owner)[n],
        ) by {
            let x = owned_by(s, owner)[n];
            if n < owned_by(d, owner).len() {
                assert(x == owned_by(d, owner)[n]);
                assert(holds(d, owner, x));
                let k = index_of(d, x);
                assert(d[k] == s[k]);
                lemma_index_of(s, k);
            } else {
                lemma_index_of(s, s.len() - 1);
            }
        }
    }
}

/// The tokens that are live, with their owners and metadata.
#[derive(Debug)]
pub struct TokenLedger {
    tokens: Vec<Token>,
    next_id: u64,
}

impl View for TokenLedger {
    type V = LedgerView;

    closed spec fn view(&self) -> LedgerView {
        LedgerView {
            tokens: self.tokens@.map_values(|t: Token| t@),
            next_id: self.next_id as nat,
        }
    }
}

fn find(tokens: &Vec<Token>, id: &String) -> (r: Option<usize>)
    requires
        ids_distinct(tokens@.map_values(|t: Token| t@)),
    ensures
        r.is_some() == has_token(tokens@.map_values(|t: Token| t@), id@),
        r matches Some(i) ==> i < tokens@.len() && tokens@[i as int].id@ == id@ && i == index_of(
            tokens@.map_values(|t: Token| t@),
            id@,
        ),
{
    let ghost s = tokens@.map_values(|t: Token| t@);
    let mut i: usize = 0;
    while i < tokens.len()
        invariant
            s == tokens@.map_values(|t: Token| t@),
            ids_distinct(s),
            i <= tokens@.len(),
            forall|j: int| 0 <= j < i ==> s[j].id != id@,
        decreases tokens@.len() - i,
    {
        if tokens[i].id == *id {
            proof {
                lemma_index_of(s, i as int);
            }
            return Some(i);
        }
        i = i + 1;
    }
    None
}

impl TokenLedger {
    #[verifier::type_invariant]
    spec fn inv(self) -> bool {
        ids_distinct(self.tokens@.map_values(|t: Token| t@))
    }

    pub fn new() -> (r: TokenLedger)
        ensures
            r@.tokens == Seq::<TokenView>::empty(),
            r@.next_id == 0,
    {
        let r = TokenLedger { tokens: Vec::new(), next_id: 0 };
        assert(r@.tokens =~= Seq::<TokenView>::empty());
        r
    }

    /// The tokens are named by distinct ids.
    pub(crate) fn ids_are_distinct(&self)
        ensures
            ids_distinct(self@.tokens),
    {
        proof {
            use_type_invariant(self);
        }
    }

    /// The live tokens, in the order of the owner indexes.
    pub fn tokens(&self) -> (r: &Vec<Token>)
        ensures
            r@.map_values(|t: Token| t@) == self@.tokens,
            ids_distinct(self@.tokens),
    {
        proof {
            use_type_invariant(self);
        }
        &self.tokens
    }

    /// The counter that names the next token minted without an id.
    pub fn next_id(&self) -> (r: u64)
        ensures
            r == self@.next_id,
    {
        self.next_id
    }

    /// A ledger holding `tokens` in this order, with this counter; refused
    /// when two tokens share an id.
    pub fn from_parts(tokens: Vec<Token>, next_id: u64) -> (r: Option<TokenLedger>)
        ensures
            r is Some <==> ids_distinct(tokens@.map_values(|t: Token| t@)),
            r matches Some(l) ==> l@ == (LedgerView {
                tokens: tokens@.map_values(|t: Token| t@),
                next_id: next_id as nat,
            }),
    {
        let ghost s = tokens@.map_values(|t: Token| t@);
        let mut j: usize = 0;
        while j < tokens.len()
            invariant
                s == tokens@.map_values(|t: Token| t@),
                j <= tokens@.len(),
                forall|a: int, b: int| 0 <= a < b < j ==> s[a].id != s[b].id,
            decreases tokens@.len() - j,
        {
            let mut k: usize = 0;
            while k < j
                invariant
                    s == tokens@.map_values(|t: Token| t@),
                    j < tokens@.len(),
                    k <= j,
                    forall|a: int| 0 <= a < k ==> s[a].id != s[j as int].id,
                decreases j - k,
            {
                if tokens[k].id == tokens[j].id {
                    assert(s[k as int].id == s[j as int].id);
                    return None;
                }
                k = k + 1;
            }
            j = j + 1;
        }
        Some(TokenLedger { tokens, next_id })
    }

    pub fn total_supply(&self) -> (r: usize)
        ensures
            r == self@.tokens.len(),
    {
        self.tokens.len()
    }

    pub fn balance_of(&self, owner: &Identity) -> (r: usize)
        ensures
            r == owned_by(self@.tokens, owner@).len(),
    {
        let ghost s = self@.tokens;
        let mut count: usize = 0;
        let mut i: usize = 0;
        while i < self.tokens.len()
            invariant
                s == self@.tokens,
                i <= s.len(),
                count == owned_by(s.take(i as int), owner@).len(),
            decreases s.len() - i,
        {
            proof {
                lemma_owned_by_step(s, i as int, owner@);
                lemma_owned_by_len(s.take(i as int), owner@);
            }
            if self.tokens[i].owner == *owner {
                count = count + 1;
            }
            i = i + 1;
        }
        proof {
            assert(s.take(i as int) == s);
        }
        count
    }

    pub fn get_token_by_index(&self, owner: &Identity, index: usize) -> (r: Option<String>)
        ensures
            r.is_some() == (index < owned_by(self@.tokens, owner@).len()),
            r matches Some(id) ==> id@ == owned_by(self@.tokens, owner@)[index as int],
    {
        let ghost s = self@.tokens;
        let mut count: usize = 0;
        let mut i: usize = 0;
        while i < self.tokens.len()
            invariant
                s == self@.tokens,
                i <= s.len(),
                count == owned_by(s.take(i as int), owner@).len(),
                count <= index,
            decreases s.len() - i,
        {
            proof {
                lemma_owned_by_step(s, i as int, owner@);
                lemma_owned_by_len(s.take(i as int), owner@);
            }
            if self.tokens[i].owner == *owner {
                if count == index {
                    proof {
                        lemma_owned_by_prefix(s, i + 1, owner@);
                    }
                    return Some(self.tokens[i].id.clone());
                }
                count = count + 1;
            }
            i = i + 1;
        }
        proof {
            assert(s.take(i as int) == s);
        }
        None
    }

    pub fn owner_of(&self, id: &String) -> (r: Option<Identity>)
        ensures
            r.is_some() == has_token(self@.tokens, id@),
            r matches Some(o) ==> o@ == self@.tokens[index_of(self@.tokens, id@)].owner,
    {
        proof {
            use_type_invariant(self);
        }
        match find(&self.tokens, id) {
            Some(i) => Some(self.tokens[i].owner.duplicate()),
            None => None,
        }
    }

    pub fn token_meta(&self, id: &String) -> (r: Option<Metadata>)
        ensures
            r.is_some() == has_token(self@.tokens, id@),
            r matches Some(m) ==> m@ == self@.tokens[index_of(self@.tokens, id@)].meta,
    {
        proof {
            use_type_invariant(self);
        }
        match find(&self.tokens, id) {
            Some(i) => Some(self.tokens[i].meta.duplicate()),
            None => None,
        }
    }

    /// Adds a token for `owner`, named `token_id` or, without one, by the
    /// decimal text of the counter, which then moves on.
    pub fn mint(
        &mut self,
        owner: &Identity,
        token_id: Option<String>,
        meta: Metadata,
    ) -> (r: Result<(), CivicError>)
        ensures
            (r, final(self)@) == mint_outcome(old(self)@, owner@, opt_view(token_id), meta@),
    {
        let generated = token_id.is_none();
        if generated && self.next_id == u64::MAX {
            return Err(CivicError::InvalidState);
        }
        let id = match token_id {
            Some(t) => t,
            None => decimal(self.next_id),
        };
        let mut taken = TokenLedger::new();
        core::mem::swap(self, &mut taken);
        proof {
            use_type_invariant(&taken);
        }
        let TokenLedger { mut tokens, mut next_id } = taken;
        let ghost s = tokens@.map_values(|t: Token| t@);
        if find(&tokens, &id).is_some() {
            *self = TokenLedger { tokens, next_id };
            return Err(CivicError::AlreadyExists);
        }
        let ghost id_view = id@;
        tokens.push(Token { id, owner: owner.duplicate(), meta });
        proof {
            let s2 = tokens@.map_values(|t: Token| t@);
            assert(s2 =~= s.push(tokens@.last()@));
            assert forall|a: int, b: int| 0 <= a < b < s2.len() implies s2[a].id != s2[b].id by {
                if b == s.len() {
                    assert(s2[b].id == id_view);
                    assert(s2[a] == s[a]);
                } else {
                    assert(s2[a] == s[a]);
                    assert(s2[b] == s[b]);
                }
            }
        }
        if generated {
            next_id = next_id + 1;
        }
        *self = TokenLedger { tokens, next_id };
        Ok(())
    }

    /// Removes `id`, which `owner` must hold.
    pub fn burn(&mut self, owner: &Identity, id: &String) -> (r: Result<(), CivicError>)
        ensures
            (r, final(self)@) == burn_outcome(old(self)@, owner@, id@),
    {
        let mut taken = TokenLedger::new();
        core::mem::swap(self, &mut taken);
        proof {
            use_type_invariant(&taken);
        }
        let TokenLedger { mut tokens, next_id } = taken;
        let ghost s = tokens@.map_values(|t: Token| t@);
        let p = match find(&tokens, id) {
            Some(p) => p,
            None => {
                *self = TokenLedger { tokens, next_id };
                return Err(CivicError::NotFound);
            },
        };
        if !(tokens[p].owner == *owner) {
            *self = TokenLedger { tokens, next_id };
            return Err(CivicError::NotFound);
        }
        tokens.remove(p);
        proof {
            let s2 = tokens@.map_values(|t: Token| t@);
            assert(s2 =~= s.remove(p as int));
            assert forall|a: int, b: int| 0 <= a < b < s2.len() implies s2[a].id != s2[b].id by {
                let oa = if a < p { a } else { a + 1 };
                let ob = if b < p { b } else { b + 1 };
                assert(s2[a] == s[oa]);
                assert(s2[b] == s[ob]);
            }
        }
        *self = TokenLedger { tokens, next_id };
        Ok(())
    }

    /// Replaces the metadata of `id`.
    pub fn set_token_meta(&mut self, id: &String, meta: Metadata) -> (r: Result<(), CivicError>)
        ensures
            (r, final(self)@) == set_meta_outcome(old(self)@, id@, meta@),
    {
        let mut taken = TokenLedger::new();
        core::mem::swap(self, &mut taken);
        proof {
            use_type_invariant(&taken);
        }
        let TokenLedger { mut tokens, next_id } = taken;
        let ghost s = tokens@.map_values(|t: Token| t@);
        let p = match find(&tokens, id) {
            Some(p) => p,
            None => {
                *self = TokenLedger { tokens, next_id };
                return Err(CivicError::NotFound);
            },
        };
        let old_token = tokens.remove(p);
        let Token { id: tid, owner, meta: _ } = old_token;
        tokens.insert(p, Token { id: tid, owner, meta });
        proof {
            let s2 = tokens@.map_values(|t: Token| t@);
            assert(s2 =~= s.update(p as int, s2[p as int]));
            assert forall|a: int, b: int| 0 <= a < b < s2.len() implies s2[a].id != s2[b].id by {
                assert(s2[a].id == s[a].id);
                assert(s2[b].id == s[b].id);
            }
        }
        *self = TokenLedger { tokens, next_id };
        Ok(())
    }

    /// Sets one key of the metadata of `id`, keeping the others.
    pub fn update_token_meta(&mut self, id: &String, key: String, value: String) -> (r: Result<
        (),
        CivicError,
    >)
        ensures
            (r, final(self)@) == update_meta_outcome(old(self)@, id@, key@, value@),
    {
        let mut taken = TokenLedger::new();
        core::mem::swap(self, &mut taken);
        proof {
            use_type_invariant(&taken);
        }
        let TokenLedger { mut tokens, next_id } = taken;
        let ghost s = tokens@.map_values(|t: Token| t@);
        let p = match find(&tokens, id) {
            Some(p) => p,
            None => {
                *self = TokenLedger { tokens, next_id };
                return Err(CivicError::NotFound);
            },
        };
        let old_token = tokens.remove(p);
        let Token { id: tid, owner, mut meta } = old_token;
        meta.insert(key, value);
        tokens.insert(p, Token { id: tid, owner, meta });
        proof {
            let s2 = tokens@.map_values(|t: Token| t@);
            assert(s2 =~= s.update(p as int, s2[p as int]));
            assert forall|a: int, b: int| 0 <= a < b < s2.len() implies s2[a].id != s2[b].id by {
                assert(s2[a].id == s[a].id);
                assert(s2[b].id == s[b].id);
            }
        }
        *self = TokenLedger { tokens, next_id };
        Ok(())
    }
    /// Passes each token of `ids` from `from` to `to`; all or nothing.
    pub fn transfer(&mut self, from: &Identity, to: &Identity, ids: &Vec<String>) -> (r: Result<
        (),
        CivicError,
    >)
        ensures
            (r, final(self)@) == transfer_outcome(
                old(self)@,
                from@,
                to@,
                ids@.map_values(|x: String| x@),
            ),
    {
        proof {
            use_type_invariant(&*self);
        }
        let ghost idv = ids@.map_values(|x: String| x@);
        let ghost s = self@.tokens;
        let same_owner = *from == *to;
        let mut j: usize = 0;
        while j < ids.len()
            invariant
                idv == ids@.map_values(|x: String| x@),
                s == self@.tokens,
                ids_distinct(s),
                j <= ids@.len(),
                forall|jj: int| 0 <= jj < j ==> holds(s, from@, #[trigger] idv[jj]),
                same_owner == (from@ == to@),
                same_owner || forall|a: int, b: int| 0 <= a < b < j ==> idv[a] != idv[b],
            decreases ids@.len() - j,
        {
            assert(ids@[j as int]@ == idv[j as int]);
            match find(&self.tokens, &ids[j]) {
                Some(p) => {
                    if !(self.tokens[p].owner == *from) {
                        assert(!holds(s, from@, idv[j as int]));
                        return Err(CivicError::NotFound);
                    }
                },
                None => {
                    assert(!holds(s, from@, idv[j as int]));
                    return Err(CivicError::NotFound);
                },
            }
            if !same_owner {
                let mut k: usize = 0;
                while k < j
                    invariant
                        idv == ids@.map_values(|x: String| x@),
                        s == self@.tokens,
                        !same_owner,
                        same_owner == (from@ == to@),
                        j < ids@.len(),
                        k <= j,
                        forall|kk: int| 0 <= kk < k ==> idv[kk] != idv[j as int],
                    decreases j - k,
                {
                    if ids[k] == ids[j] {
                        assert(idv[k as int] == idv[j as int]);
                        assert(!transfer_allowed(s, from@, to@, idv));
                        return Err(CivicError::NotFound);
                    }
                    k = k + 1;
                }
            }
            j = j + 1;
        }
        let mut taken = TokenLedger::new();
        core::mem::swap(self, &mut taken);
        let TokenLedger { mut tokens, next_id } = taken;
        let mut j: usize = 0;
        while j < ids.len()
            invariant
                idv == ids@.map_values(|x: String| x@),
                transfer_allowed(s, from@, to@, idv),
                ids_distinct(s),
                j <= ids@.len(),
                tokens@.map_values(|t: Token| t@) == transferred(s, to@, idv.take(j as int)),
            decreases ids@.len() - j,
        {
            let ghost cur = tokens@.map_values(|t: Token| t@);
            assert(holds(s, from@, idv[j as int]));
            let ghost q = index_of(s, idv[j as int]);
            assert(cur[q].id == s[q].id);
            assert(ids_distinct(cur)) by {
                assert forall|a: int, b: int|
                    0 <= a < b < cur.len() implies cur[a].id != cur[b].id by {
                    assert(cur[a].id == s[a].id);
                    assert(cur[b].id == s[b].id);
                }
            }
            let p = match find(&tokens, &ids[j]) {
                Some(p) => p,
                None => {
                    proof {
                        assert(has_token(cur, idv[j as int]));
                    }
                    *self = TokenLedger { tokens, next_id };
                    return Err(CivicError::NotFound);
                },
            };
            proof {
                lemma_index_of(s, p as int);
            }
            let old_token = tokens.remove(p);
            let Token { id: tid, owner: _, meta } = old_token;
            tokens.insert(p, Token { id: tid, owner: to.duplicate(), meta });
            proof {
                let next = tokens@.map_values(|t: Token| t@);
                let want = transferred(s, to@, idv.take(j + 1));
                assert(idv.take(j + 1) == idv.take(j as int).push(idv[j as int]));
                assert forall|i: int| 0 <= i < s.len() implies #[trigger] next[i] == want[i] by {
                    if i == p {
                        assert(idv.take(j + 1)[j as int] == idv[j as int]);
                    } else {
                        assert(s[i].id != s[p as int].id);
                        assert(next[i] == cur[i]);
                        if idv.take(j as int).contains(s[i].id) {
                            let w = choose|w: int|
                                0 <= w < j && #[trigger] idv.take(j as int)[w] == s[i].id;
                            assert(idv.take(j + 1)[w] == s[i].id);
                        }
                        if idv.take(j + 1).contains(s[i].id) {
                            let w = choose|w: int|
                                0 <= w < j + 1 && #[trigger] idv.take(j + 1)[w] == s[i].id;
                            assert(w != j);
                            assert(idv.take(j as int)[w] == s[i].id);
                        }
                    }
                }
                assert(next =~= want);
            }
            j = j + 1;
        }
        proof {
            assert(idv.take(j as int) == idv);
            let fin = tokens@.map_values(|t: Token| t@);
            assert forall|a: int, b: int| 0 <= a < b < fin.len() implies fin[a].id != fin[b].id by {
                assert(fin[a].id == s[a].id);
                assert(fin[b].id == s[b].id);
            }
        }
        *self = TokenLedger { tokens, next_id };
        Ok(())
    }
}

} // verus!

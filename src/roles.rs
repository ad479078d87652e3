use vstd::prelude::*;

use crate::identity::Identity;

verus! {

/// The identities that a list holds.
pub open spec fn members_of(s: Seq<Identity>) -> Set<Seq<char>> {
    Set::new(|k: Seq<char>| exists|i: int| 0 <= i < s.len() && s[i]@ == k)
}

/// A set of identities; adding a member twice or removing a non-member
/// changes nothing.
#[derive(Debug)]
pub struct IdentitySet {
    members: Vec<Identity>,
}

impl View for IdentitySet {
    type V = Set<Seq<char>>;

    closed spec fn view(&self) -> Set<Seq<char>> {
        members_of(self.members@)
    }
}

impl IdentitySet {
    #[verifier::type_invariant]
    spec fn inv(self) -> bool {
        forall|i: int, j: int|
            0 <= i < j < self.members@.len() ==> self.members@[i]@ != self.members@[j]@
    }

    pub fn new() -> (r: IdentitySet)
        ensures
            r@ == Set::<Seq<char>>::empty(),
    {
        let r = IdentitySet { members: Vec::new() };
        assert(r@ =~= Set::<Seq<char>>::empty());
        r
    }

    fn position(members: &Vec<Identity>, id: &Identity) -> (r: Option<usize>)
        ensures
            match r {
                Some(i) => i < members@.len() && members@[i as int]@ == id@,
                None => !members_of(members@).contains(id@),
            },
    {
        let mut i: usize = 0;
        while i < members.len()
            invariant
                i <= members@.len(),
                forall|j: int| 0 <= j < i ==> members@[j]@ != id@,
            decreases members@.len() - i,
        {
            if members[i] == *id {
                return Some(i);
            }
            i = i + 1;
        }
        None
    }

    pub fn contains(&self, id: &Identity) -> (r: bool)
        ensures
            r == self@.contains(id@),
    {
        Self::position(&self.members, id).is_some()
    }

    pub fn insert(&mut self, id: &Identity)
        ensures
            final(self)@ == old(self)@.insert(id@),
    {
        let mut taken = IdentitySet::new();
        core::mem::swap(self, &mut taken);
        proof {
            use_type_invariant(&taken);
        }
        let IdentitySet { mut members } = taken;
        let ghost old_members = members@;
        match Self::position(&members, id) {
            Some(i) => {
                assert(members_of(old_members).insert(id@) =~= members_of(old_members));
            },
            None => {
                members.push(id.duplicate());
                assert forall|k: Seq<char>|
                    members_of(members@).contains(k) == members_of(old_members).insert(id@).contains(
                        k,
                    ) by {
                    if members_of(old_members).contains(k) {
                        let i = choose|i: int| 0 <= i < old_members.len() && old_members[i]@ == k;
                        assert(members@[i] == old_members[i]);
                    }
                    if members_of(members@).contains(k) {
                        let i = choose|i: int| 0 <= i < members@.len() && members@[i]@ == k;
                        if i < old_members.len() {
                            assert(members@[i] == old_members[i]);
                        }
                    }
                    if k == id@ {
                        assert(members@[old_members.len() as int]@ == k);
                    }
                }
                assert(members_of(members@) =~= members_of(old_members).insert(id@));
                assert forall|a: int, b: int|
                    0 <= a < b < members@.len() implies members@[a]@ != members@[b]@ by {
                    assert(members@[a] == old_members[a]);
                    if b < old_members.len() {
                        assert(members@[b] == old_members[b]);
                    }
                }
            },
        }
        *self = IdentitySet { members };
    }

    pub fn remove(&mut self, id: &Identity)
        ensures
            final(self)@ == old(self)@.remove(id@),
    {
        let mut taken = IdentitySet::new();
        core::mem::swap(self, &mut taken);
        proof {
            use_type_invariant(&taken);
        }
        let IdentitySet { mut members } = taken;
        let ghost old_members = members@;
        match Self::position(&members, id) {
            Some(p) => {
                members.remove(p);
                assert forall|k: Seq<char>|
                    members_of(members@).contains(k) == members_of(old_members).remove(id@).contains(
                        k,
                    ) by {
                    if members_of(old_members).contains(k) && k != id@ {
                        let i = choose|i: int| 0 <= i < old_members.len() && old_members[i]@ == k;
                        if i < p {
                            assert(members@[i] == old_members[i]);
                        } else {
                            assert(i != p);
                            assert(members@[i - 1] == old_members[i]);
                        }
                    }
                    if members_of(members@).contains(k) {
                        let i = choose|i: int| 0 <= i < members@.len() && members@[i]@ == k;
                        if i < p {
                            assert(members@[i] == old_members[i]);
                        } else {
                            assert(members@[i] == old_members[i + 1]);
                        }
                    }
                }
                assert(members_of(members@) =~= members_of(old_members).remove(id@));
                assert forall|a: int, b: int|
                    0 <= a < b < members@.len() implies members@[a]@ != members@[b]@ by {
                    let oa = if a < p { a } else { a + 1 };
                    let ob = if b < p { b } else { b + 1 };
                    assert(members@[a] == old_members[oa]);
                    assert(members@[b] == old_members[ob]);
                }
            },
            None => {
                assert(members_of(old_members).remove(id@) =~= members_of(old_members));
            },
        }
        *self = IdentitySet { members };
    }

    /// The members, each once.
    pub fn members(&self) -> (r: Vec<Identity>)
        ensures
            members_of(r@) == self@,
    {
        let mut r: Vec<Identity> = Vec::new();
        let mut i: usize = 0;
        while i < self.members.len()
            invariant
                i <= self.members@.len(),
                r@.len() == i,
                forall|j: int| 0 <= j < i ==> (#[trigger] r@[j])@ == self.members@[j]@,
            decreases self.members@.len() - i,
        {
            r.push(self.members[i].duplicate());
            i = i + 1;
        }
        assert(members_of(r@) =~= members_of(self.members@)) by {
            assert forall|k: Seq<char>| members_of(r@).contains(k) implies members_of(
                self.members@,
            ).contains(k) by {
                let j = choose|j: int| 0 <= j < r@.len() && r@[j]@ == k;
                assert(self.members@[j]@ == k);
            }
            assert forall|k: Seq<char>| members_of(self.members@).contains(k) implies members_of(
                r@,
            ).contains(k) by {
                let j = choose|j: int| 0 <= j < self.members@.len() && self.members@[j]@ == k;
                assert(r@[j]@ == k);
            }
        }
        r
    }

    /// The set of the identities in `list`.
    pub fn from_list(list: &Vec<Identity>) -> (r: IdentitySet)
        ensures
            r@ == members_of(list@),
    {
        let mut r = IdentitySet::new();
        let mut i: usize = 0;
        while i < list.len()
            invariant
                i <= list@.len(),
                r@ == members_of(list@.take(i as int)),
            decreases list@.len() - i,
        {
            r.insert(&list[i]);
            proof {
                let t = list@.take(i + 1);
                assert(members_of(t) =~= members_of(list@.take(i as int)).insert(list@[i as int]@)) by {
                    assert forall|k: Seq<char>| members_of(t).contains(k) implies members_of(
                        list@.take(i as int),
                    ).insert(list@[i as int]@).contains(k) by {
                        let j = choose|j: int| 0 <= j < t.len() && t[j]@ == k;
                        if j < i {
                            assert(list@.take(i as int)[j] == t[j]);
                        }
                    }
                    assert forall|k: Seq<char>| members_of(list@.take(i as int)).insert(
                        list@[i as int]@,
                    ).contains(k) implies members_of(t).contains(k) by {
                        if k == list@[i as int]@ {
                            assert(t[i as int] == list@[i as int]);
                        } else {
                            let j = choose|j: int|
                                0 <= j < i && list@.take(i as int)[j]@ == k;
                            assert(t[j] == list@.take(i as int)[j]);
                        }
                    }
                }
            }
            i = i + 1;
        }
        proof {
            assert(list@.take(i as int) == list@);
        }
        r
    }
}

/// The identities that hold the Gatekeeper role: they mint tokens and write
/// attestation status.
#[derive(Debug)]
pub struct GateKeepers {
    set: IdentitySet,
}

impl View for GateKeepers {
    type V = Set<Seq<char>>;

    closed spec fn view(&self) -> Set<Seq<char>> {
        self.set@
    }
}

impl GateKeepers {
    /// An empty set of gatekeepers.
    pub fn init() -> (r: GateKeepers)
        ensures
            r@ == Set::<Seq<char>>::empty(),
    {
        GateKeepers { set: IdentitySet::new() }
    }

    pub fn is_gatekeeper(&self, key: &Identity) -> (r: bool)
        ensures
            r == self@.contains(key@),
    {
        self.set.contains(key)
    }

    pub fn add_gatekeeper(&mut self, key: &Identity)
        ensures
            final(self)@ == old(self)@.insert(key@),
    {
        self.set.insert(key);
    }

    pub fn revoke_gatekeeper(&mut self, key: &Identity)
        ensures
            final(self)@ == old(self)@.remove(key@),
    {
        self.set.remove(key);
    }

    /// The gatekeepers, each once.
    pub fn members(&self) -> (r: Vec<Identity>)
        ensures
            members_of(r@) == self@,
    {
        self.set.members()
    }

    /// The gatekeepers named in `list`.
    pub fn from_members(list: &Vec<Identity>) -> (r: GateKeepers)
        ensures
            r@ == members_of(list@),
    {
        GateKeepers { set: IdentitySet::from_list(list) }
    }
}

/// The identities that hold the Admin role: they manage roles, transfers and
/// the pause gate.
#[derive(Debug)]
pub struct Admins {
    set: IdentitySet,
}

impl View for Admins {
    type V = Set<Seq<char>>;

    closed spec fn view(&self) -> Set<Seq<char>> {
        self.set@
    }
}

impl Admins {
    /// An empty set of admins.
    pub fn init() -> (r: Admins)
        ensures
            r@ == Set::<Seq<char>>::empty(),
    {
        Admins { set: IdentitySet::new() }
    }

    pub fn is_admin(&self, key: &Identity) -> (r: bool)
        ensures
            r == self@.contains(key@),
    {
        self.set.contains(key)
    }

    pub fn add_admin(&mut self, key: &Identity)
        ensures
            final(self)@ == old(self)@.insert(key@),
    {
        self.set.insert(key);
    }

    pub fn disable_admin(&mut self, key: &Identity)
        ensures
            final(self)@ == old(self)@.remove(key@),
    {
        self.set.remove(key);
    }

    /// The admins, each once.
    pub fn members(&self) -> (r: Vec<Identity>)
        ensures
            members_of(r@) == self@,
    {
        self.set.members()
    }

    /// The admins named in `list`.
    pub fn from_members(list: &Vec<Identity>) -> (r: Admins)
        ensures
            r@ == members_of(list@),
    {
        Admins { set: IdentitySet::from_list(list) }
    }
}

} // verus!

use vstd::prelude::*;

verus! {

/// The structural role of an account that belongs to a resource object.
#[derive(Debug, Clone, Copy, PartialEq, Eq, Structural)]
pub enum RequiredAccountSubtype {
    SelfAccount,
    Metadata,
    MintAuthority,
}

/// What kind of slot a required account is.
#[derive(Debug, Clone, Copy, PartialEq, Eq, Structural)]
pub enum RequiredAccountType {
    /// An account of the resource object itself.
    Account(RequiredAccountSubtype),
    /// An account shared by every object that needs it (a payer, a program, a sysvar).
    Shared,
    /// Any other account.
    Plain,
}

/// One slot of a handler's account list.
#[derive(Debug)]
pub struct RequiredAccount {
    /// Stable identity: two requirements with the same id occupy one slot.
    pub id: u64,
    pub ident: String,
    pub account_type: RequiredAccountType,
    pub is_mut: bool,
    pub is_signer: bool,
}

impl RequiredAccount {
    pub fn duplicate(&self) -> (r: RequiredAccount)
        ensures
            r == *self,
    {
        RequiredAccount {
            id: self.id,
            ident: self.ident.clone(),
            account_type: self.account_type,
            is_mut: self.is_mut,
            is_signer: self.is_signer,
        }
    }
}

/// A discovered resource type and the accounts it is built from.
#[derive(Debug)]
pub struct ResourceType {
    pub id: u64,
    pub name: String,
    /// The account holding the object itself; always contributed first.
    pub self_account: RequiredAccount,
    /// Further accounts the object reads, in declared order.
    pub sub_accounts: Vec<RequiredAccount>,
    /// Accounts needed only when the object is being created.
    pub create_accounts: Vec<RequiredAccount>,
}

pub open spec fn has_id(s: Seq<RequiredAccount>, id: u64) -> bool {
    exists|i: int| 0 <= i < s.len() && s[i].id == id
}

pub open spec fn unique_ids(s: Seq<RequiredAccount>) -> bool {
    forall|i: int, j: int| 0 <= i < s.len() && 0 <= j < s.len() && i != j ==> s[i].id != s[j].id
}

/// Keeps the first occurrence of each identity, in input order.
pub open spec fn condensed(s: Seq<RequiredAccount>) -> Seq<RequiredAccount>
    decreases s.len(),
{
    if s.len() == 0 {
        Seq::empty()
    } else {
        let prev = condensed(s.drop_last());
        if has_id(prev, s.last().id) {
            prev
        } else {
            prev.push(s.last())
        }
    }
}

/// The concatenation of the lists, in order.
pub open spec fn flat(lists: Seq<Vec<RequiredAccount>>) -> Seq<RequiredAccount>
    decreases lists.len(),
{
    if lists.len() == 0 {
        Seq::empty()
    } else {
        flat(lists.drop_last()) + lists.last()@
    }
}

impl ResourceType {
    /// Accounts read by every occurrence: the object's own first, then the others.
    pub open spec fn read_accounts(&self) -> Seq<RequiredAccount> {
        seq![self.self_account].add(self.sub_accounts@)
    }

    /// The requirement list of one occurrence of this type.
    pub open spec fn required(&self, create: bool) -> Seq<RequiredAccount> {
        if create {
            self.read_accounts() + self.create_accounts@
        } else {
            self.read_accounts()
        }
    }

    /// Creation-only accounts are distinct from the accounts read in any case.
    pub open spec fn wf(&self) -> bool {
        forall|i: int, j: int|
            0 <= i < self.create_accounts@.len() && 0 <= j < self.read_accounts().len()
                ==> self.create_accounts@[i].id != self.read_accounts()[j].id
    }

    /// The ordered requirement list of one occurrence, with the creation-only
    /// accounts appended when the occurrence creates the object.
    pub fn required_accounts(&self, create: bool) -> (r: Vec<RequiredAccount>)
        ensures
            r@ == self.required(create),
    {
        let mut r: Vec<RequiredAccount> = Vec::new();
        r.push(self.self_account.duplicate());
        let mut i: usize = 0;
        while i < self.sub_accounts.len()
            invariant
                i <= self.sub_accounts@.len(),
                r@ == seq![self.self_account] + self.sub_accounts@.take(i as int),
            decreases self.sub_accounts@.len() - i,
        {
            r.push(self.sub_accounts[i].duplicate());
            i = i + 1;
            assert(self.sub_accounts@.take(i as int) == self.sub_accounts@.take(i - 1).push(
                self.sub_accounts@[i - 1],
            ));
        }
        assert(self.sub_accounts@.take(i as int) == self.sub_accounts@);
        if create {
            let mut j: usize = 0;
            while j < self.create_accounts.len()
                invariant
                    j <= self.create_accounts@.len(),
                    r@ == self.read_accounts() + self.create_accounts@.take(j as int),
                decreases self.create_accounts@.len() - j,
            {
                r.push(self.create_accounts[j].duplicate());
                j = j + 1;
                assert(self.create_accounts@.take(j as int) == self.create_accounts@.take(
                    j - 1,
                ).push(self.create_accounts@[j - 1]));
            }
            assert(self.create_accounts@.take(j as int) == self.create_accounts@);
        }
        r
    }
}

/// A copy of the list, entry by entry.
pub fn duplicate_all(v: &Vec<RequiredAccount>) -> (r: Vec<RequiredAccount>)
    ensures
        r@ == v@,
{
    let mut r: Vec<RequiredAccount> = Vec::new();
    let mut i: usize = 0;
    while i < v.len()
        invariant
            i <= v@.len(),
            r@ == v@.take(i as int),
        decreases v@.len() - i,
    {
        r.push(v[i].duplicate());
        i = i + 1;
        assert(v@.take(i as int) == v@.take(i - 1).push(v@[i - 1]));
    }
    assert(v@.take(i as int) == v@);
    r
}

/// Two descriptions of the same resource type, field by field.
pub open spec fn same_resource(a: ResourceType, b: ResourceType) -> bool {
    &&& a.id == b.id
    &&& a.name == b.name
    &&& a.self_account == b.self_account
    &&& a.sub_accounts@ == b.sub_accounts@
    &&& a.create_accounts@ == b.create_accounts@
}

impl ResourceType {
    pub fn duplicate(&self) -> (r: ResourceType)
        ensures
            same_resource(r, *self),
    {
        let r = ResourceType {
            id: self.id,
            name: self.name.clone(),
            self_account: self.self_account.duplicate(),
            sub_accounts: duplicate_all(&self.sub_accounts),
            create_accounts: duplicate_all(&self.create_accounts),
        };
        r
    }
}

/// Whether some entry of `s` has identity `id`.
pub fn contains_id(s: &Vec<RequiredAccount>, id: u64) -> (r: bool)
    ensures
        r == has_id(s@, id),
{
    let mut i: usize = 0;
    while i < s.len()
        invariant
            i <= s@.len(),
            forall|k: int| 0 <= k < i ==> s@[k].id != id,
        decreases s@.len() - i,
    {
        if s[i].id == id {
            return true;
        }
        i = i + 1;
    }
    false
}

/// Merges the requirement lists of one handler into one list that keeps
/// the first occurrence of each identity, in order.
pub fn condense(lists: Vec<Vec<RequiredAccount>>) -> (r: Vec<RequiredAccount>)
    ensures
        r@ == condensed(flat(lists@)),
        unique_ids(r@),
{
    let mut r: Vec<RequiredAccount> = Vec::new();
    let mut i: usize = 0;
    while i < lists.len()
        invariant
            i <= lists@.len(),
            r@ == condensed(flat(lists@.take(i as int))),
        decreases lists@.len() - i,
    {
        let list = &lists[i];
        let mut j: usize = 0;
        while j < list.len()
            invariant
                i < lists@.len(),
                *list == lists@[i as int],
                j <= list@.len(),
                r@ == condensed(flat(lists@.take(i as int)) + list@.take(j as int)),
            decreases list@.len() - j,
        {
            let ghost before = flat(lists@.take(i as int)) + list@.take(j as int);
            let ghost after = flat(lists@.take(i as int)) + list@.take(j + 1);
            assert(after.drop_last() == before);
            assert(after.last() == list@[j as int]);
            if !contains_id(&r, list[j].id) {
                r.push(list[j].duplicate());
            }
            j = j + 1;
        }
        assert(list@.take(j as int) == list@);
        assert(lists@.take(i + 1).drop_last() == lists@.take(i as int));
        i = i + 1;
    }
    assert(lists@.take(i as int) == lists@);
    proof {
        lemma_condensed_no_duplicates(flat(lists@));
    }
    r
}

/// No identity appears twice in a condensed list.
pub proof fn lemma_condensed_no_duplicates(s: Seq<RequiredAccount>)
    ensures
        unique_ids(condensed(s)),
    decreases s.len(),
{
    if s.len() > 0 {
        lemma_condensed_no_duplicates(s.drop_last());
    }
}

/// Every identity of the input keeps a slot, and every slot comes from the input.
pub proof fn lemma_condensed_same_ids(s: Seq<RequiredAccount>)
    ensures
        forall|i: int| 0 <= i < s.len() ==> has_id(condensed(s), #[trigger] s[i].id),
        forall|i: int| 0 <= i < condensed(s).len() ==> s.contains(#[trigger] condensed(s)[i]),
    decreases s.len(),
{
    if s.len() > 0 {
        let prev = s.drop_last();
        lemma_condensed_same_ids(prev);
        assert forall|i: int| 0 <= i < s.len() implies has_id(condensed(s), #[trigger] s[i].id) by {
            if i < s.len() - 1 {
                assert(prev[i] == s[i]);
                let k = choose|k: int| 0 <= k < condensed(prev).len() && condensed(prev)[k].id == s[i].id;
                assert(condensed(s)[k] == condensed(prev)[k]);
            } else {
                if !has_id(condensed(prev), s.last().id) {
                    assert(condensed(s)[condensed(prev).len() as int] == s.last());
                }
            }
        }
        assert forall|i: int| 0 <= i < condensed(s).len() implies s.contains(#[trigger] condensed(s)[i]) by {
            if i < condensed(prev).len() {
                let k = choose|k: int| 0 <= k < prev.len() && prev[k] == condensed(prev)[i];
                assert(s[k] == prev[k]);
            } else {
                assert(s[s.len() - 1] == condensed(s)[i]);
            }
        }
    }
}

/// A creating occurrence needs every account a reading occurrence needs,
/// and at least one more.
pub proof fn lemma_creation_extends_read(t: ResourceType)
    requires
        t.wf(),
        t.create_accounts@.len() > 0,
    ensures
        forall|i: int| 0 <= i < t.required(false).len() ==> has_id(t.required(true), #[trigger] t.required(false)[i].id),
        has_id(t.required(true), t.create_accounts@[0].id),
        !has_id(t.required(false), t.create_accounts@[0].id),
        t.required(true).len() > t.required(false).len(),
{
    let r = t.required(true);
    assert forall|i: int| 0 <= i < t.required(false).len() implies has_id(r, #[trigger] t.required(false)[i].id) by {
        assert(r[i] == t.required(false)[i]);
    }
    assert(r[t.read_accounts().len() as int] == t.create_accounts@[0]);
}

} // verus!

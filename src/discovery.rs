use vstd::prelude::*;

use crate::shape::ParamType;
use crate::requirement::{RequiredAccount, RequiredAccountSubtype, RequiredAccountType, ResourceType};

verus! {

/// A struct of the scanned crate: its name, the names it derives, and its
/// fields with their declared types. A plain struct is also the schema
/// record of its type.
#[derive(Debug)]
pub struct StructDecl {
    pub ident: String,
    pub derives: Vec<String>,
    pub fields: Vec<(String, ParamType)>,
}

pub open spec fn derives_nautilus(s: StructDecl) -> bool {
    exists|i: int| 0 <= i < s.derives@.len() && s.derives@[i]@ == "Nautilus"@
}

/// The structs that derive `Nautilus`, in order.
pub open spec fn resource_decls(structs: Seq<StructDecl>) -> Seq<StructDecl>
    decreases structs.len(),
{
    if structs.len() == 0 {
        Seq::empty()
    } else {
        let prev = resource_decls(structs.drop_last());
        if derives_nautilus(structs.last()) {
            prev.push(structs.last())
        } else {
            prev
        }
    }
}

/// The other structs, in order.
pub open spec fn plain_decls(structs: Seq<StructDecl>) -> Seq<StructDecl>
    decreases structs.len(),
{
    if structs.len() == 0 {
        Seq::empty()
    } else {
        let prev = plain_decls(structs.drop_last());
        if derives_nautilus(structs.last()) {
            prev
        } else {
            prev.push(structs.last())
        }
    }
}

fn has_nautilus_derive(s: &StructDecl) -> (r: bool)
    ensures
        r == derives_nautilus(*s),
{
    let target = String::from_str("Nautilus");
    let mut i: usize = 0;
    while i < s.derives.len()
        invariant
            i <= s.derives@.len(),
            target@ == "Nautilus"@,
            forall|j: int| 0 <= j < i ==> s.derives@[j]@ != "Nautilus"@,
        decreases s.derives@.len() - i,
    {
        if s.derives[i] == target {
            return true;
        }
        i = i + 1;
    }
    false
}

/// Splits the scanned structs into resource types (those deriving
/// `Nautilus`) and plain schema types, each in declaration order.
pub fn partition_structs(structs: Vec<StructDecl>) -> (r: (Vec<StructDecl>, Vec<StructDecl>))
    ensures
        r.0@ == resource_decls(structs@),
        r.1@ == plain_decls(structs@),
{
    let ghost orig = structs@;
    let n = structs.len();
    let mut pending = structs;
    let mut resources: Vec<StructDecl> = Vec::new();
    let mut types: Vec<StructDecl> = Vec::new();
    let mut i: usize = 0;
    while pending.len() > 0
        invariant
            n == orig.len(),
            i + pending@.len() == n,
            pending@ == orig.skip(i as int),
            resources@ == resource_decls(orig.take(i as int)),
            types@ == plain_decls(orig.take(i as int)),
        decreases pending@.len(),
    {
        let s = pending.remove(0);
        assert(s == orig[i as int]);
        assert(orig.take(i + 1).drop_last() == orig.take(i as int));
        if has_nautilus_derive(&s) {
            resources.push(s);
        } else {
            types.push(s);
        }
        i = i + 1;
        assert(pending@ =~= orig.skip(i as int));
    }
    assert(orig.take(i as int) =~= orig);
    (resources, types)
}

/// Identity of the fee payer slot shared by every creation.
pub const FEE_PAYER_ID: u64 = 0;

/// Identity of the system program slot shared by every creation.
pub const SYSTEM_PROGRAM_ID: u64 = 1;

/// The slots every creation needs: the fee payer (a mutable signer), then
/// the system program.
pub open spec fn creation_slots_ok(s: Seq<RequiredAccount>) -> bool {
    &&& s.len() == 2
    &&& s[0].id == FEE_PAYER_ID && s[0].ident@ == "fee_payer"@
    &&& s[0].account_type == RequiredAccountType::Shared && s[0].is_mut && s[0].is_signer
    &&& s[1].id == SYSTEM_PROGRAM_ID && s[1].ident@ == "system_program"@
    &&& s[1].account_type == RequiredAccountType::Shared && !s[1].is_mut && !s[1].is_signer
}

/// A further account a resource type reads besides its own.
#[derive(Debug)]
pub struct SlotDecl {
    pub ident: String,
    pub subtype: RequiredAccountSubtype,
    pub is_mut: bool,
    pub is_signer: bool,
}

/// A resource type as its object library declares it.
#[derive(Debug)]
pub struct ResourceDecl {
    pub name: String,
    pub sub_accounts: Vec<SlotDecl>,
}

/// How many identities the declarations take: one for each type's own
/// account and one for each further account.
pub open spec fn slot_count(decls: Seq<ResourceDecl>) -> nat
    decreases decls.len(),
{
    if decls.len() == 0 {
        0
    } else {
        1 + decls[0].sub_accounts@.len() + slot_count(decls.drop_first())
    }
}

/// `a` is the slot declared by `d` with identity `id`.
pub open spec fn slot_of(d: SlotDecl, a: RequiredAccount, id: u64) -> bool {
    &&& a.id == id
    &&& a.ident == d.ident
    &&& a.account_type == RequiredAccountType::Account(d.subtype)
    &&& a.is_mut == d.is_mut
    &&& a.is_signer == d.is_signer
}

/// `r` is the registry entry of `d` whose own account has identity `id`:
/// its further accounts take the next identities in declared order, and
/// its creation needs the fee payer and the system program.
pub open spec fn registered_as(d: ResourceDecl, r: ResourceType, id: u64) -> bool {
    &&& r.id == id
    &&& r.name == d.name
    &&& r.self_account.id == id
    &&& r.self_account.ident == d.name
    &&& r.self_account.account_type == RequiredAccountType::Account(
        RequiredAccountSubtype::SelfAccount,
    )
    &&& r.self_account.is_mut && !r.self_account.is_signer
    &&& r.sub_accounts@.len() == d.sub_accounts@.len()
    &&& forall|m: int|
        0 <= m < r.sub_accounts@.len() ==> slot_of(
            d.sub_accounts@[m],
            #[trigger] r.sub_accounts@[m],
            (id + 1 + m) as u64,
        )
    &&& creation_slots_ok(r.create_accounts@)
}

fn registered_resource(id: u64, d: ResourceDecl) -> (r: ResourceType)
    requires
        id >= 2,
        id + 1 + d.sub_accounts@.len() <= u64::MAX,
    ensures
        registered_as(d, r, id),
        r.wf(),
{
    let ghost dv = d;
    let ResourceDecl { name, sub_accounts: decls } = d;
    let mut sub_accounts: Vec<RequiredAccount> = Vec::new();
    let mut m: usize = 0;
    while m < decls.len()
        invariant
            decls == dv.sub_accounts,
            m <= decls@.len(),
            id + 1 + decls@.len() <= u64::MAX,
            sub_accounts@.len() == m,
            forall|j: int|
                0 <= j < m ==> slot_of(decls@[j], #[trigger] sub_accounts@[j], (id + 1 + j) as u64),
        decreases decls@.len() - m,
    {
        let sd = &decls[m];
        sub_accounts.push(
            RequiredAccount {
                id: id + 1 + m as u64,
                ident: sd.ident.clone(),
                account_type: RequiredAccountType::Account(sd.subtype),
                is_mut: sd.is_mut,
                is_signer: sd.is_signer,
            },
        );
        m = m + 1;
    }
    let mut create_accounts: Vec<RequiredAccount> = Vec::new();
    create_accounts.push(
        RequiredAccount {
            id: FEE_PAYER_ID,
            ident: String::from_str("fee_payer"),
            account_type: RequiredAccountType::Shared,
            is_mut: true,
            is_signer: true,
        },
    );
    create_accounts.push(
        RequiredAccount {
            id: SYSTEM_PROGRAM_ID,
            ident: String::from_str("system_program"),
            account_type: RequiredAccountType::Shared,
            is_mut: false,
            is_signer: false,
        },
    );
    let r = ResourceType {
        id,
        name: name.clone(),
        self_account: RequiredAccount {
            id,
            ident: name,
            account_type: RequiredAccountType::Account(RequiredAccountSubtype::SelfAccount),
            is_mut: true,
            is_signer: false,
        },
        sub_accounts,
        create_accounts,
    };
    assert forall|i: int, j: int|
        0 <= i < r.create_accounts@.len() && 0 <= j < r.read_accounts().len() implies r.create_accounts@[i].id
        != r.read_accounts()[j].id by {
        if j > 0 {
            assert(r.read_accounts()[j] == r.sub_accounts@[j - 1]);
            assert(slot_of(dv.sub_accounts@[j - 1], r.sub_accounts@[j - 1], (id + j) as u64));
        }
    }
    r
}

/// The registry of the declared resource types, in declaration order. The
/// identities of the types' own and further accounts are handed out one
/// after another from just past the shared ones, so no two slots of
/// different declarations share one, and none takes a shared one.
pub fn register_resources(decls: Vec<ResourceDecl>) -> (r: Vec<ResourceType>)
    requires
        slot_count(decls@) + 2 <= u64::MAX,
    ensures
        r@.len() == decls@.len(),
        r@.len() > 0 ==> r@[0].id == 2,
        forall|i: int| 0 <= i < r@.len() ==> registered_as(decls@[i], #[trigger] r@[i], r@[i].id),
        forall|i: int| 0 <= i < r@.len() ==> (#[trigger] r@[i]).wf(),
        forall|i: int|
            0 <= i < r@.len() - 1 ==> #[trigger] r@[i + 1].id == r@[i].id + 1
                + r@[i].sub_accounts@.len(),
{
    let ghost orig = decls@;
    let n = decls.len();
    let mut pending = decls;
    let mut r: Vec<ResourceType> = Vec::new();
    let mut next: u64 = 2;
    let mut i: usize = 0;
    while pending.len() > 0
        invariant
            orig == decls@,
            n == orig.len(),
            i + pending@.len() == n,
            pending@ == orig.skip(i as int),
            r@.len() == i,
            next >= 2,
            next + slot_count(pending@) <= u64::MAX,
            i == 0 ==> next == 2,
            i > 0 ==> r@[0].id == 2,
            i > 0 ==> next == r@[i - 1].id + 1 + r@[i - 1].sub_accounts@.len(),
            forall|j: int| 0 <= j < i ==> registered_as(orig[j], #[trigger] r@[j], r@[j].id),
            forall|j: int| 0 <= j < i ==> (#[trigger] r@[j]).wf(),
            forall|j: int|
                0 <= j < i - 1 ==> #[trigger] r@[j + 1].id == r@[j].id + 1
                    + r@[j].sub_accounts@.len(),
        decreases pending@.len(),
    {
        assert(pending@.drop_first() =~= orig.skip(i + 1));
        let d = pending.remove(0);
        assert(d == orig[i as int]);
        let subs = d.sub_accounts.len() as u64;
        let e = registered_resource(next, d);
        r.push(e);
        next = next + 1 + subs;
        i = i + 1;
        assert(pending@ =~= orig.skip(i as int));
    }
    r
}

} // verus!

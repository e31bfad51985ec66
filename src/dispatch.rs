use vstd::prelude::*;

use crate::error::{DispatchError, GenerationError};
use crate::requirement::has_id;
use crate::payload::{all_decodable, arg_types, decodable, decode_args, decode_payload, ArgValue};
use crate::variant::{
    is_first_slot, CallContext, CallStep, IdlInstruction, NautilusEntrypointEnumVariant, Wrapper,
};

verus! {

/// A runtime account as supplied to one dispatch call.
#[derive(Debug, Clone, Copy, PartialEq, Eq, Structural)]
pub struct AccountHandle {
    pub key: u64,
    pub is_signer: bool,
    pub is_writable: bool,
}

/// A resource argument rebuilt from the supplied accounts.
#[derive(Debug)]
pub struct RebuiltObject {
    pub arg_ident: String,
    pub resource: String,
    pub wrapper: Wrapper,
    pub self_account: AccountHandle,
    pub sub_accounts: Vec<AccountHandle>,
    pub create_accounts: Vec<AccountHandle>,
}

impl RebuiltObject {
    pub fn key(&self) -> (r: u64)
        ensures
            r == self.self_account.key,
    {
        self.self_account.key
    }

    pub fn is_signer(&self) -> (r: bool)
        ensures
            r == self.self_account.is_signer,
    {
        self.self_account.is_signer
    }

    pub fn is_writable(&self) -> (r: bool)
        ensures
            r == self.self_account.is_writable,
    {
        self.self_account.is_writable
    }
}

/// One argument handed to a handler.
#[derive(Debug)]
pub enum CallArg {
    Object(RebuiltObject),
    Value(ArgValue),
}

/// The outcome of a successful dispatch: the selected variant and the
/// handler's arguments in declared order.
#[derive(Debug)]
pub struct Dispatched {
    pub variant: usize,
    pub call_args: Vec<CallArg>,
}

/// `args` are the handler arguments that `plan` yields from these values and accounts.
pub open spec fn rebuilt(
    plan: Seq<CallStep>,
    vals: Seq<ArgValue>,
    accounts: Seq<AccountHandle>,
    args: Seq<CallArg>,
) -> bool {
    args.len() == plan.len() && forall|k: int|
        0 <= k < plan.len() ==> match #[trigger] plan[k] {
            CallStep::Object(init) => match args[k] {
                CallArg::Object(o) => {
                    &&& o.arg_ident == init.arg_ident
                    &&& o.resource == init.resource
                    &&& o.wrapper == init.wrapper
                    &&& init.read_slots@.len() > 0
                    &&& o.self_account == accounts[init.read_slots@[0] as int]
                    &&& o.sub_accounts@.len() + 1 == init.read_slots@.len()
                    &&& forall|m: int|
                        0 <= m < o.sub_accounts@.len() ==> #[trigger] o.sub_accounts@[m]
                            == accounts[init.read_slots@[m + 1] as int]
                    &&& o.create_accounts@.len() == init.create_slots@.len()
                    &&& forall|m: int|
                        0 <= m < o.create_accounts@.len() ==> #[trigger] o.create_accounts@[m]
                            == accounts[init.create_slots@[m] as int]
                },
                CallArg::Value(_) => false,
            },
            CallStep::Arg(p) => 0 <= p < vals.len() && args[k] == CallArg::Value(vals[p as int]),
        }
}

pub open spec fn distinct_discriminants(vs: Seq<NautilusEntrypointEnumVariant>) -> bool {
    forall|i: int, j: int|
        0 <= i < vs.len() && 0 <= j < vs.len() && i != j ==> vs[i].discriminant
            != vs[j].discriminant
}

pub open spec fn has_discriminant(vs: Seq<NautilusEntrypointEnumVariant>, tag: u8) -> bool {
    exists|i: int| 0 <= i < vs.len() && vs[i].discriminant == tag
}

/// All variants of one program, each with its call plan.
pub struct Dispatcher {
    variants: Vec<NautilusEntrypointEnumVariant>,
    plans: Vec<Vec<CallStep>>,
}

impl View for Dispatcher {
    type V = Seq<NautilusEntrypointEnumVariant>;

    closed spec fn view(&self) -> Seq<NautilusEntrypointEnumVariant> {
        self.variants@
    }
}

impl Dispatcher {
    #[verifier::type_invariant]
    spec fn inv(&self) -> bool {
        &&& self.plans@.len() == self.variants@.len()
        &&& distinct_discriminants(self.variants@)
        &&& forall|i: int|
            0 <= i < self.variants@.len() ==> #[trigger] self.variants@[i].plan_matches(
                self.plans@[i]@,
            )
    }

    /// The call plan of each variant.
    pub closed spec fn plans(&self) -> Seq<Vec<CallStep>> {
        self.plans@
    }

    /// Collects the variants; fails when two share a discriminant or when
    /// one cannot be planned.
    pub fn new(variants: Vec<NautilusEntrypointEnumVariant>) -> (r: Result<
        Dispatcher,
        GenerationError,
    >)
        ensures
            r is Ok <==> distinct_discriminants(variants@) && forall|i: int|
                0 <= i < variants@.len() ==> #[trigger] variants@[i].plan_possible(),
            !distinct_discriminants(variants@) ==> r matches Err(
                GenerationError::DuplicateDiscriminant(_),
            ),
            r matches Ok(d) ==> d@ == variants@ && distinct_discriminants(d@),
    {
        let mut i: usize = 0;
        while i < variants.len()
            invariant
                i <= variants@.len(),
                forall|a: int, b: int|
                    0 <= a < i && 0 <= b < variants@.len() && a != b ==> variants@[a].discriminant
                        != variants@[b].discriminant,
            decreases variants@.len() - i,
        {
            let mut j: usize = 0;
            while j < variants.len()
                invariant
                    i < variants@.len(),
                    j <= variants@.len(),
                    forall|a: int, b: int|
                        0 <= a < i && 0 <= b < variants@.len() && a != b
                            ==> variants@[a].discriminant != variants@[b].discriminant,
                    forall|b: int|
                        0 <= b < j && b != i ==> variants@[i as int].discriminant
                            != variants@[b].discriminant,
                decreases variants@.len() - j,
            {
                if j != i && variants[i].discriminant == variants[j].discriminant {
                    return Err(GenerationError::DuplicateDiscriminant(variants[i].discriminant));
                }
                j = j + 1;
            }
            i = i + 1;
        }
        assert(distinct_discriminants(variants@));
        let mut plans: Vec<Vec<CallStep>> = Vec::new();
        let mut k: usize = 0;
        while k < variants.len()
            invariant
                distinct_discriminants(variants@),
                k <= variants@.len(),
                plans@.len() == k,
                forall|a: int| 0 <= a < k ==> #[trigger] variants@[a].plan_matches(plans@[a]@),
                forall|a: int| 0 <= a < k ==> #[trigger] variants@[a].plan_possible(),
            decreases variants@.len() - k,
        {
            match variants[k].build_match_arm_logic() {
                Ok(plan) => plans.push(plan),
                Err(e) => {
                    return Err(e);
                },
            }
            k = k + 1;
        }
        Ok(Dispatcher { variants, plans })
    }

    pub fn variants(&self) -> (r: &Vec<NautilusEntrypointEnumVariant>)
        ensures
            r@ == self@,
            distinct_discriminants(self@),
    {
        proof {
            use_type_invariant(self);
        }
        &self.variants
    }

    /// The schema instructions of all variants, in order.
    pub fn idl_instructions(&self) -> (r: Vec<IdlInstruction<'_>>)
        ensures
            r@.len() == self@.len(),
            forall|i: int| 0 <= i < r@.len() ==> self@[i].is_idl_of(#[trigger] r@[i]),
    {
        let mut r: Vec<IdlInstruction<'_>> = Vec::new();
        let mut i: usize = 0;
        while i < self.variants.len()
            invariant
                i <= self.variants@.len(),
                r@.len() == i,
                forall|j: int| 0 <= j < i ==> self.variants@[j].is_idl_of(#[trigger] r@[j]),
            decreases self.variants@.len() - i,
        {
            r.push(self.variants[i].idl_instruction());
            i = i + 1;
        }
        r
    }

    /// What a successful dispatch of `data` over `accounts` yields.
    pub open spec fn dispatched(
        &self,
        data: Seq<u8>,
        accounts: Seq<AccountHandle>,
        out: Dispatched,
    ) -> bool {
        &&& data.len() > 0
        &&& 0 <= out.variant < self@.len()
        &&& self@[out.variant as int].discriminant == data[0]
        &&& self@[out.variant as int].plan_matches(self.plans()[out.variant as int]@)
        &&& accounts.len() >= self@[out.variant as int].required_accounts@.len()
        &&& decodable(self@[out.variant as int].variant_args@)
        &&& decode_args(arg_types(self@[out.variant as int].variant_args@), data.skip(1))
            matches Some(vals)
        &&& rebuilt(self.plans()[out.variant as int]@, vals, accounts, out.call_args@)
    }

    /// Reads the discriminant, selects the variant, decodes the payload and
    /// rebuilds the handler's arguments from the accounts, one per slot of the
    /// variant's condensed list. The payload decoder knows the fixed-width
    /// primitives; a variant with a payload argument of another type is
    /// refused here, at run time, and nowhere else.
    pub fn dispatch(&self, data: &Vec<u8>, accounts: &Vec<AccountHandle>) -> (r: Result<
        Dispatched,
        DispatchError,
    >)
        ensures
            data@.len() == 0 ==> r == Err::<Dispatched, DispatchError>(
                DispatchError::MissingDiscriminant,
            ),
            data@.len() > 0 && !has_discriminant(self@, data@[0]) ==> r == Err::<
                Dispatched,
                DispatchError,
            >(DispatchError::UnknownDiscriminant(data@[0])),
            forall|i: int|
                0 <= i < self@.len() && data@.len() > 0 && #[trigger] self@[i].discriminant
                    == data@[0] ==> {
                    let v = self@[i];
                    let decoded = decode_args(arg_types(v.variant_args@), data@.skip(1));
                    &&& !decodable(v.variant_args@) ==> r == Err::<Dispatched, DispatchError>(
                        DispatchError::UnsupportedPayload,
                    )
                    &&& decodable(v.variant_args@) && decoded is None ==> r == Err::<Dispatched, DispatchError>(
                        DispatchError::MalformedPayload,
                    )
                    &&& decodable(v.variant_args@) && decoded is Some && accounts@.len()
                        < v.required_accounts@.len() ==> r
                        == Err::<Dispatched, DispatchError>(DispatchError::NotEnoughAccounts)
                    &&& decodable(v.variant_args@) && decoded is Some && accounts@.len()
                        >= v.required_accounts@.len() ==> (r
                        matches Ok(out) && out.variant == i)
                },
            r matches Ok(out) ==> self.dispatched(data@, accounts@, out),
    {
        proof {
            use_type_invariant(self);
        }
        if data.len() == 0 {
            return Err(DispatchError::MissingDiscriminant);
        }
        let tag = data[0];
        let mut vi: usize = 0;
        while vi < self.variants.len()
            invariant
                vi <= self.variants@.len(),
                forall|a: int| 0 <= a < vi ==> self.variants@[a].discriminant != tag,
            ensures
                vi <= self.variants@.len(),
                forall|a: int| 0 <= a < vi ==> self.variants@[a].discriminant != tag,
                vi < self.variants@.len() ==> self.variants@[vi as int].discriminant == tag,
            decreases self.variants@.len() - vi,
        {
            if self.variants[vi].discriminant == tag {
                break;
            }
            vi = vi + 1;
        }
        if vi == self.variants.len() {
            return Err(DispatchError::UnknownDiscriminant(tag));
        }
        let v = &self.variants[vi];
        assert(self@[vi as int].discriminant == tag);
        assert(forall|i: int|
            0 <= i < self@.len() && #[trigger] self@[i].discriminant == tag ==> i == vi);
        if all_decodable(&v.variant_args).is_some() {
            return Err(DispatchError::UnsupportedPayload);
        }
        let vals = match decode_payload(&v.variant_args, data) {
            Some(vals) => vals,
            None => {
                return Err(DispatchError::MalformedPayload);
            },
        };
        if accounts.len() < v.required_accounts.len() {
            return Err(DispatchError::NotEnoughAccounts);
        }
        let call_args = rebuild(&self.plans[vi], v, &vals, accounts);
        Ok(Dispatched { variant: vi, call_args })
    }
}

/// Round trip: after a successful dispatch, each resource parameter of the
/// selected handler is rebuilt from the supplied accounts at the slots that
/// its requirements occupy in the condensed list, so the rebuilt object's
/// identity, signer and writable flags are those of the supplied account.
pub proof fn lemma_round_trip(
    d: &Dispatcher,
    data: Seq<u8>,
    accounts: Seq<AccountHandle>,
    out: Dispatched,
    k: int,
)
    requires
        d.dispatched(data, accounts, out),
        0 <= k < d@[out.variant as int].call_context@.len(),
    ensures
        ({
            let v = d@[out.variant as int];
            v.call_context@[k] matches CallContext::Nautilus(o) ==> {
                &&& has_id(v.required_accounts@, o.resource.self_account.id)
                &&& out.call_args@[k] matches CallArg::Object(obj)
                &&& forall|p: int|
                    #![trigger is_first_slot(v.required_accounts@, o.resource.self_account.id, p)]
                    is_first_slot(v.required_accounts@, o.resource.self_account.id, p)
                        ==> obj.self_account == accounts[p]
                &&& obj.sub_accounts@.len() == o.resource.sub_accounts@.len()
                &&& forall|m: int, p: int|
                    #![trigger obj.sub_accounts@[m], accounts[p]]
                    0 <= m < obj.sub_accounts@.len() && is_first_slot(
                        v.required_accounts@,
                        o.resource.sub_accounts@[m].id,
                        p,
                    ) ==> obj.sub_accounts@[m] == accounts[p]
            }
        }),
        d@[out.variant as int].call_context@[k] matches CallContext::Arg(_)
            ==> out.call_args@[k] is Value,
{
    let v = d@[out.variant as int];
    let plan = d.plans()[out.variant as int]@;
    assert(v.step_matches(k, plan[k]));
    let vals = decode_args(arg_types(v.variant_args@), data.skip(1))->Some_0;
    assert(rebuilt(plan, vals, accounts, out.call_args@));
    match v.call_context@[k] {
        CallContext::Nautilus(o) => {
            let init = plan[k]->Object_0;
            let read = o.resource.read_accounts();
            assert(read[0] == o.resource.self_account);
            assert(is_first_slot(v.required_accounts@, read[0].id, init.read_slots@[0] as int));
            let obj = out.call_args@[k]->Object_0;
            assert forall|m: int, p: int|
                #![trigger obj.sub_accounts@[m], accounts[p]]
                0 <= m < obj.sub_accounts@.len() && is_first_slot(
                    v.required_accounts@,
                    o.resource.sub_accounts@[m].id,
                    p,
                ) implies obj.sub_accounts@[m] == accounts[p] by {
                assert(read[m + 1] == o.resource.sub_accounts@[m]);
                assert(is_first_slot(
                    v.required_accounts@,
                    read[m + 1].id,
                    init.read_slots@[m + 1] as int,
                ));
            }
        },
        CallContext::Arg(_) => {},
    }
}

/// Slot positions of a faithful plan lie inside the variant's account list.
proof fn lemma_slots_in_range(v: NautilusEntrypointEnumVariant, plan: Seq<CallStep>, k: int)
    requires
        v.plan_matches(plan),
        0 <= k < plan.len(),
    ensures
        plan[k] matches CallStep::Object(init) ==> {
            &&& init.read_slots@.len() > 0
            &&& forall|m: int|
                0 <= m < init.read_slots@.len() ==> #[trigger] init.read_slots@[m]
                    < v.required_accounts@.len()
            &&& forall|m: int|
                0 <= m < init.create_slots@.len() ==> #[trigger] init.create_slots@[m]
                    < v.required_accounts@.len()
        },
        plan[k] matches CallStep::Arg(p) ==> p < v.variant_args@.len(),
{
    assert(v.step_matches(k, plan[k]));
    match plan[k] {
        CallStep::Object(init) => {
            match v.call_context@[k] {
                CallContext::Nautilus(o) => {
                    assert(o.resource.read_accounts().len() > 0);
                    assert forall|m: int| 0 <= m < init.read_slots@.len() implies #[trigger] init.read_slots@[m]
                        < v.required_accounts@.len() by {
                        assert(is_first_slot(
                            v.required_accounts@,
                            o.resource.read_accounts()[m].id,
                            init.read_slots@[m] as int,
                        ));
                    }
                    assert forall|m: int| 0 <= m < init.create_slots@.len() implies #[trigger] init.create_slots@[m]
                        < v.required_accounts@.len() by {
                        assert(is_first_slot(
                            v.required_accounts@,
                            o.create_part()[m].id,
                            init.create_slots@[m] as int,
                        ));
                    }
                },
                CallContext::Arg(_) => {},
            }
        },
        CallStep::Arg(_) => {},
    }
}

/// The accounts at the given slots, in order.
fn pick(accounts: &Vec<AccountHandle>, slots: &Vec<usize>, from: usize) -> (r: Vec<AccountHandle>)
    requires
        from <= slots@.len(),
        forall|m: int| 0 <= m < slots@.len() ==> #[trigger] slots@[m] < accounts@.len(),
    ensures
        r@.len() + from == slots@.len(),
        forall|m: int| 0 <= m < r@.len() ==> #[trigger] r@[m] == accounts@[slots@[m + from] as int],
{
    let mut r: Vec<AccountHandle> = Vec::new();
    let mut m: usize = from;
    while m < slots.len()
        invariant
            from <= m <= slots@.len(),
            r@.len() + from == m,
            forall|m: int| 0 <= m < slots@.len() ==> #[trigger] slots@[m] < accounts@.len(),
            forall|j: int| 0 <= j < r@.len() ==> #[trigger] r@[j] == accounts@[slots@[j + from] as int],
        decreases slots@.len() - m,
    {
        r.push(accounts[slots[m]]);
        m = m + 1;
    }
    r
}

/// Follows the plan over decoded values and supplied accounts.
fn rebuild(
    plan: &Vec<CallStep>,
    v: &NautilusEntrypointEnumVariant,
    vals: &Vec<ArgValue>,
    accounts: &Vec<AccountHandle>,
) -> (r: Vec<CallArg>)
    requires
        v.plan_matches(plan@),
        vals@.len() == v.variant_args@.len(),
        accounts@.len() >= v.required_accounts@.len(),
    ensures
        rebuilt(plan@, vals@, accounts@, r@),
{
    let mut out: Vec<CallArg> = Vec::new();
    let mut k: usize = 0;
    while k < plan.len()
        invariant
            v.plan_matches(plan@),
            vals@.len() == v.variant_args@.len(),
            accounts@.len() >= v.required_accounts@.len(),
            k <= plan@.len(),
            out@.len() == k,
            forall|j: int|
                0 <= j < k ==> match #[trigger] plan@[j] {
                    CallStep::Object(init) => match out@[j] {
                        CallArg::Object(o) => {
                            &&& o.arg_ident == init.arg_ident
                            &&& o.resource == init.resource
                            &&& o.wrapper == init.wrapper
                            &&& init.read_slots@.len() > 0
                            &&& o.self_account == accounts@[init.read_slots@[0] as int]
                            &&& o.sub_accounts@.len() + 1 == init.read_slots@.len()
                            &&& forall|m: int|
                                0 <= m < o.sub_accounts@.len() ==> #[trigger] o.sub_accounts@[m]
                                    == accounts@[init.read_slots@[m + 1] as int]
                            &&& o.create_accounts@.len() == init.create_slots@.len()
                            &&& forall|m: int|
                                0 <= m < o.create_accounts@.len()
                                    ==> #[trigger] o.create_accounts@[m]
                                    == accounts@[init.create_slots@[m] as int]
                        },
                        CallArg::Value(_) => false,
                    },
                    CallStep::Arg(p) => 0 <= p < vals@.len() && out@[j] == CallArg::Value(
                        vals@[p as int],
                    ),
                },
        decreases plan@.len() - k,
    {
        proof {
            lemma_slots_in_range(*v, plan@, k as int);
        }
        match &plan[k] {
            CallStep::Object(init) => {
                let self_account = accounts[init.read_slots[0]];
                let sub_accounts = pick(accounts, &init.read_slots, 1);
                let create_accounts = pick(accounts, &init.create_slots, 0);
                out.push(
                    CallArg::Object(
                        RebuiltObject {
                            arg_ident: init.arg_ident.clone(),
                            resource: init.resource.clone(),
                            wrapper: init.wrapper,
                            self_account,
                            sub_accounts,
                            create_accounts,
                        },
                    ),
                );
            },
            CallStep::Arg(p) => {
                out.push(CallArg::Value(vals[*p]));
            },
        }
        k = k + 1;
    }
    out
}

} // verus!

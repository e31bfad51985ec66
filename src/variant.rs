use vstd::prelude::*;

use crate::error::GenerationError;
use crate::shape::ParamType;
use crate::requirement::{
    condense, condensed, flat, has_id, same_resource, unique_ids, RequiredAccount, ResourceType,
};

verus! {

/// How a resource argument was declared on the handler.
#[derive(Debug)]
pub struct ObjectEntryConfig {
    pub arg_ident: String,
    pub is_create: bool,
    pub is_signer: bool,
    pub is_mut: bool,
}

/// A resource type as it occurs in one handler parameter.
#[derive(Debug)]
pub struct NautilusObject {
    pub resource: ResourceType,
    pub entry_config: Option<ObjectEntryConfig>,
}

/// One parameter of a handler, in declared order.
#[derive(Debug)]
pub enum CallContext {
    /// A resource argument, rebuilt from accounts.
    Nautilus(NautilusObject),
    /// A plain argument, taken from the payload by name.
    Arg(String),
}

/// The payload types the dispatcher decodes.
#[derive(Debug, Clone, Copy, PartialEq, Eq, Structural)]
pub enum ArgType {
    U8,
    U16,
    U32,
    U64,
    Bool,
}

/// The wrapper a resource argument is rebuilt into.
#[derive(Debug, Clone, Copy, PartialEq, Eq, Structural)]
pub enum Wrapper {
    Create,
    Signer,
    Mut,
    Plain,
}

/// Rebuild one resource argument from the accounts at the given positions
/// of the condensed list.
#[derive(Debug)]
pub struct ObjectInit {
    pub arg_ident: String,
    pub resource: String,
    pub wrapper: Wrapper,
    pub read_slots: Vec<usize>,
    pub create_slots: Vec<usize>,
}

/// One step of a call plan, in the handler's parameter order.
#[derive(Debug)]
pub enum CallStep {
    Object(ObjectInit),
    /// Pass the payload argument at this position.
    Arg(usize),
}

/// One dispatch variant: a handler with its discriminant, payload shape and accounts.
#[derive(Debug)]
pub struct NautilusEntrypointEnumVariant {
    pub discriminant: u8,
    pub variant_ident: String,
    pub variant_args: Vec<(String, ParamType)>,
    pub required_accounts: Vec<RequiredAccount>,
    pub call_ident: String,
    pub call_context: Vec<CallContext>,
}

/// An account entry of a schema instruction.
#[derive(Debug)]
pub struct IdlAccount {
    pub name: String,
    pub is_mut: bool,
    pub is_signer: bool,
}

/// An argument entry of a schema instruction: its name and declared type.
#[derive(Debug)]
pub struct IdlArg<'a> {
    pub name: String,
    pub ty: &'a ParamType,
}

/// The schema record of one instruction.
#[derive(Debug)]
pub struct IdlInstruction<'a> {
    pub name: String,
    pub discriminant: u8,
    pub accounts: Vec<IdlAccount>,
    pub args: Vec<IdlArg<'a>>,
}

impl NautilusObject {
    pub open spec fn is_create(&self) -> bool {
        match self.entry_config {
            Some(c) => c.is_create,
            None => false,
        }
    }

    /// Accounts this occurrence needs beyond those it reads.
    pub open spec fn create_part(&self) -> Seq<RequiredAccount> {
        if self.is_create() {
            self.resource.create_accounts@
        } else {
            Seq::empty()
        }
    }

    pub open spec fn required(&self) -> Seq<RequiredAccount> {
        self.resource.required(self.is_create())
    }

    pub fn get_required_accounts(&self) -> (r: Vec<RequiredAccount>)
        ensures
            r@ == self.required(),
    {
        let create = match &self.entry_config {
            Some(c) => c.is_create,
            None => false,
        };
        self.resource.required_accounts(create)
    }
}

/// All requirement lists of the resource parameters, concatenated in order.
pub open spec fn call_requirements(cc: Seq<CallContext>) -> Seq<RequiredAccount>
    decreases cc.len(),
{
    if cc.len() == 0 {
        Seq::empty()
    } else {
        let prev = call_requirements(cc.drop_last());
        match cc.last() {
            CallContext::Nautilus(o) => prev + o.required(),
            CallContext::Arg(_) => prev,
        }
    }
}

/// Every resource parameter carries its capability configuration.
pub open spec fn all_configured(cc: Seq<CallContext>) -> bool {
    forall|k: int|
        0 <= k < cc.len() ==> match #[trigger] cc[k] {
            CallContext::Nautilus(o) => o.entry_config is Some,
            CallContext::Arg(_) => true,
        }
}

/// `mut` is implied by `create` and by `signer`.
pub open spec fn wrapper_of(c: ObjectEntryConfig) -> Wrapper {
    if c.is_create {
        Wrapper::Create
    } else if c.is_signer {
        Wrapper::Signer
    } else if c.is_mut {
        Wrapper::Mut
    } else {
        Wrapper::Plain
    }
}

/// `p` is the first position in `reqs` with identity `id`.
pub open spec fn is_first_slot(reqs: Seq<RequiredAccount>, id: u64, p: int) -> bool {
    0 <= p < reqs.len() && reqs[p].id == id && forall|j: int| 0 <= j < p ==> reqs[j].id != id
}

pub open spec fn slots_match(
    reqs: Seq<RequiredAccount>,
    wanted: Seq<RequiredAccount>,
    slots: Seq<usize>,
) -> bool {
    slots.len() == wanted.len() && forall|m: int|
        0 <= m < slots.len() ==> is_first_slot(reqs, #[trigger] wanted[m].id, slots[m] as int)
}

pub open spec fn covers(reqs: Seq<RequiredAccount>, wanted: Seq<RequiredAccount>) -> bool {
    forall|m: int| 0 <= m < wanted.len() ==> has_id(reqs, #[trigger] wanted[m].id)
}

/// `p` is the first payload argument named `name`.
pub open spec fn is_first_arg(args: Seq<(String, ParamType)>, name: Seq<char>, p: int) -> bool {
    0 <= p < args.len() && args[p].0@ == name && forall|j: int| 0 <= j < p ==> args[j].0@ != name
}

pub open spec fn has_arg(args: Seq<(String, ParamType)>, name: Seq<char>) -> bool {
    exists|j: int| 0 <= j < args.len() && args[j].0@ == name
}

/// Position of the first slot with identity `id`, if any.
pub fn first_slot(reqs: &Vec<RequiredAccount>, id: u64) -> (r: Option<usize>)
    ensures
        r matches Some(p) ==> is_first_slot(reqs@, id, p as int),
        r is None ==> !has_id(reqs@, id),
{
    let mut i: usize = 0;
    while i < reqs.len()
        invariant
            i <= reqs@.len(),
            forall|k: int| 0 <= k < i ==> reqs@[k].id != id,
        decreases reqs@.len() - i,
    {
        if reqs[i].id == id {
            return Some(i);
        }
        i = i + 1;
    }
    None
}

/// Positions of the first slots of each wanted identity, if all are present.
pub fn slots_for(reqs: &Vec<RequiredAccount>, wanted: &Vec<RequiredAccount>) -> (r: Option<
    Vec<usize>,
>)
    ensures
        r matches Some(s) ==> slots_match(reqs@, wanted@, s@),
        r is None <==> !covers(reqs@, wanted@),
{
    let mut slots: Vec<usize> = Vec::new();
    let mut m: usize = 0;
    while m < wanted.len()
        invariant
            m <= wanted@.len(),
            slots@.len() == m,
            forall|k: int|
                0 <= k < m ==> is_first_slot(reqs@, #[trigger] wanted@[k].id, slots@[k] as int),
        decreases wanted@.len() - m,
    {
        match first_slot(reqs, wanted[m].id) {
            Some(p) => slots.push(p),
            None => {
                return None;
            },
        }
        m = m + 1;
    }
    Some(slots)
}

/// Position of the first payload argument named `name`, if any.
pub fn first_arg(args: &Vec<(String, ParamType)>, name: &String) -> (r: Option<usize>)
    ensures
        r matches Some(p) ==> is_first_arg(args@, name@, p as int),
        r is None ==> !has_arg(args@, name@),
{
    let mut i: usize = 0;
    while i < args.len()
        invariant
            i <= args@.len(),
            forall|k: int| 0 <= k < i ==> args@[k].0@ != name@,
        decreases args@.len() - i,
    {
        if args[i].0 == *name {
            return Some(i);
        }
        i = i + 1;
    }
    None
}

impl NautilusEntrypointEnumVariant {
    /// The plan step of parameter `k` is built faithfully.
    pub open spec fn step_matches(&self, k: int, step: CallStep) -> bool {
        match self.call_context@[k] {
            CallContext::Nautilus(o) => match o.entry_config {
                Some(c) => match step {
                    CallStep::Object(init) => {
                        &&& init.arg_ident == c.arg_ident
                        &&& init.resource == o.resource.name
                        &&& init.wrapper == wrapper_of(c)
                        &&& slots_match(
                            self.required_accounts@,
                            o.resource.read_accounts(),
                            init.read_slots@,
                        )
                        &&& slots_match(self.required_accounts@, o.create_part(), init.create_slots@)
                    },
                    CallStep::Arg(_) => false,
                },
                None => false,
            },
            CallContext::Arg(name) => match step {
                CallStep::Arg(p) => is_first_arg(self.variant_args@, name@, p as int),
                CallStep::Object(_) => false,
            },
        }
    }

    /// Whether parameter `k` can be planned.
    pub open spec fn step_possible(&self, k: int) -> bool {
        match self.call_context@[k] {
            CallContext::Nautilus(o) => {
                &&& o.entry_config is Some
                &&& covers(self.required_accounts@, o.resource.read_accounts())
                &&& covers(self.required_accounts@, o.create_part())
            },
            CallContext::Arg(name) => has_arg(self.variant_args@, name@),
        }
    }

    /// `e` is the diagnostic for parameter `k`, which cannot be planned: it
    /// names the handler and the resource type or argument.
    pub open spec fn step_error(&self, k: int, e: GenerationError) -> bool {
        match self.call_context@[k] {
            CallContext::Nautilus(o) => match o.entry_config {
                None => e == GenerationError::MissingEntryConfig {
                    handler: self.call_ident,
                    resource: o.resource.name,
                },
                Some(_) => e == GenerationError::MissingAccount {
                    handler: self.call_ident,
                    resource: o.resource.name,
                },
            },
            CallContext::Arg(name) => e == GenerationError::UnknownArgument {
                handler: self.call_ident,
                arg: name,
            },
        }
    }

    pub open spec fn plan_possible(&self) -> bool {
        forall|k: int| 0 <= k < self.call_context@.len() ==> #[trigger] self.step_possible(k)
    }

    pub open spec fn plan_matches(&self, plan: Seq<CallStep>) -> bool {
        plan.len() == self.call_context@.len() && forall|k: int|
            0 <= k < plan.len() ==> #[trigger] self.step_matches(k, plan[k])
    }

    /// Builds a variant; the account list is the condensation of the
    /// requirement lists of the resource parameters, in parameter order.
    pub fn new(
        discriminant: u8,
        variant_ident: String,
        variant_args: Vec<(String, ParamType)>,
        call_ident: String,
        call_context: Vec<CallContext>,
    ) -> (r: Result<Self, GenerationError>)
        ensures
            r is Ok <==> all_configured(call_context@),
            r matches Ok(v) ==> {
                &&& v.discriminant == discriminant
                &&& v.variant_ident == variant_ident
                &&& v.variant_args == variant_args
                &&& v.call_ident == call_ident
                &&& v.call_context == call_context
                &&& v.required_accounts@ == condensed(call_requirements(call_context@))
                &&& unique_ids(v.required_accounts@)
            },
            r matches Err(e) ==> e matches GenerationError::MissingEntryConfig { handler, .. }
                && handler == call_ident,
    {
        let mut lists: Vec<Vec<RequiredAccount>> = Vec::new();
        let mut i: usize = 0;
        while i < call_context.len()
            invariant
                i <= call_context@.len(),
                flat(lists@) == call_requirements(call_context@.take(i as int)),
                all_configured(call_context@.take(i as int)),
            decreases call_context@.len() - i,
        {
            assert(call_context@.take(i + 1).drop_last() == call_context@.take(i as int));
            match &call_context[i] {
                CallContext::Nautilus(o) => {
                    if o.entry_config.is_none() {
                        assert(!all_configured(call_context@)) by {
                            assert(call_context@[i as int] matches CallContext::Nautilus(o)
                                && o.entry_config is None);
                        }
                        return Err(
                            GenerationError::MissingEntryConfig {
                                handler: call_ident,
                                resource: o.resource.name.clone(),
                            },
                        );
                    }
                    let req = o.get_required_accounts();
                    let ghost before = lists@;
                    lists.push(req);
                    assert(lists@.drop_last() == before);
                },
                CallContext::Arg(_) => {},
            }
            i = i + 1;
            assert(all_configured(call_context@.take(i as int))) by {
                assert forall|k: int| 0 <= k < i implies match #[trigger] call_context@.take(
                    i as int,
                )[k] {
                    CallContext::Nautilus(o) => o.entry_config is Some,
                    CallContext::Arg(_) => true,
                } by {
                    if k < i - 1 {
                        assert(call_context@.take(i as int)[k] == call_context@.take(i - 1)[k]);
                    }
                }
            }
        }
        assert(call_context@.take(i as int) == call_context@);
        let required_accounts = condense(lists);
        Ok(Self {
            discriminant,
            variant_ident,
            variant_args,
            required_accounts,
            call_ident,
            call_context,
        })
    }

    /// The call plan: for each parameter in declared order, either how to
    /// rebuild the resource object from the condensed account list, or which
    /// payload argument to pass.
    pub fn build_match_arm_logic(&self) -> (r: Result<Vec<CallStep>, GenerationError>)
        ensures
            r is Ok <==> self.plan_possible(),
            r matches Ok(plan) ==> self.plan_matches(plan@),
            r matches Err(e) ==> exists|k: int|
                0 <= k < self.call_context@.len() && !self.step_possible(k) && (forall|j: int|
                    0 <= j < k ==> #[trigger] self.step_possible(j)) && self.step_error(k, e),
    {
        let mut plan: Vec<CallStep> = Vec::new();
        let mut k: usize = 0;
        while k < self.call_context.len()
            invariant
                k <= self.call_context@.len(),
                plan@.len() == k,
                forall|j: int| 0 <= j < k ==> #[trigger] self.step_matches(j, plan@[j]),
                forall|j: int| 0 <= j < k ==> #[trigger] self.step_possible(j),
            decreases self.call_context@.len() - k,
        {
            match &self.call_context[k] {
                CallContext::Nautilus(o) => {
                    let c = match &o.entry_config {
                        Some(c) => c,
                        None => {
                            let e = GenerationError::MissingEntryConfig {
                                handler: self.call_ident.clone(),
                                resource: o.resource.name.clone(),
                            };
                            assert(!self.step_possible(k as int) && self.step_error(k as int, e));
                            return Err(e);
                        },
                    };
                    let read = o.resource.required_accounts(false);
                    let create_list = if c.is_create {
                        let mut v: Vec<RequiredAccount> = Vec::new();
                        let mut m: usize = 0;
                        while m < o.resource.create_accounts.len()
                            invariant
                                m <= o.resource.create_accounts@.len(),
                                v@ == o.resource.create_accounts@.take(m as int),
                            decreases o.resource.create_accounts@.len() - m,
                        {
                            v.push(o.resource.create_accounts[m].duplicate());
                            m = m + 1;
                            assert(o.resource.create_accounts@.take(m as int)
                                == o.resource.create_accounts@.take(m - 1).push(
                                o.resource.create_accounts@[m - 1],
                            ));
                        }
                        assert(o.resource.create_accounts@.take(m as int)
                            == o.resource.create_accounts@);
                        v
                    } else {
                        Vec::new()
                    };
                    assert(create_list@ == o.create_part());
                    let read_slots = match slots_for(&self.required_accounts, &read) {
                        Some(s) => s,
                        None => {
                            let e = GenerationError::MissingAccount {
                                handler: self.call_ident.clone(),
                                resource: o.resource.name.clone(),
                            };
                            assert(!self.step_possible(k as int) && self.step_error(k as int, e));
                            return Err(e);
                        },
                    };
                    let create_slots = match slots_for(&self.required_accounts, &create_list) {
                        Some(s) => s,
                        None => {
                            let e = GenerationError::MissingAccount {
                                handler: self.call_ident.clone(),
                                resource: o.resource.name.clone(),
                            };
                            assert(!self.step_possible(k as int) && self.step_error(k as int, e));
                            return Err(e);
                        },
                    };
                    let wrapper = if c.is_create {
                        Wrapper::Create
                    } else if c.is_signer {
                        Wrapper::Signer
                    } else if c.is_mut {
                        Wrapper::Mut
                    } else {
                        Wrapper::Plain
                    };
                    plan.push(
                        CallStep::Object(
                            ObjectInit {
                                arg_ident: c.arg_ident.clone(),
                                resource: o.resource.name.clone(),
                                wrapper,
                                read_slots,
                                create_slots,
                            },
                        ),
                    );
                },
                CallContext::Arg(name) => {
                    match first_arg(&self.variant_args, name) {
                        Some(p) => plan.push(CallStep::Arg(p)),
                        None => {
                            let e = GenerationError::UnknownArgument {
                                handler: self.call_ident.clone(),
                                arg: name.clone(),
                            };
                            assert(!self.step_possible(k as int) && self.step_error(k as int, e));
                            return Err(e);
                        },
                    }
                },
            }
            assert(self.step_matches(k as int, plan@[k as int]));
            k = k + 1;
        }
        Ok(plan)
    }

    /// `r` is the schema record of this variant: its name and discriminant,
    /// the name and flags of each condensed account, and the name and
    /// declared type of each payload argument, in order.
    pub open spec fn is_idl_of(&self, r: IdlInstruction) -> bool {
        &&& r.name == self.variant_ident
        &&& r.discriminant == self.discriminant
        &&& r.accounts@.len() == self.required_accounts@.len()
        &&& forall|i: int|
            0 <= i < r.accounts@.len() ==> {
                &&& (#[trigger] r.accounts@[i]).name == self.required_accounts@[i].ident
                &&& r.accounts@[i].is_mut == self.required_accounts@[i].is_mut
                &&& r.accounts@[i].is_signer == self.required_accounts@[i].is_signer
            }
        &&& r.args@.len() == self.variant_args@.len()
        &&& forall|i: int|
            0 <= i < r.args@.len() ==> {
                &&& (#[trigger] r.args@[i]).name == self.variant_args@[i].0
                &&& *r.args@[i].ty == self.variant_args@[i].1
            }
    }

    /// The schema record of this variant: one account entry per condensed
    /// account and one argument entry per payload argument, in order.
    pub fn idl_instruction(&self) -> (r: IdlInstruction<'_>)
        ensures
            self.is_idl_of(r),
    {
        let mut accounts: Vec<IdlAccount> = Vec::new();
        let mut i: usize = 0;
        while i < self.required_accounts.len()
            invariant
                i <= self.required_accounts@.len(),
                accounts@.len() == i,
                forall|j: int|
                    0 <= j < i ==> {
                        &&& (#[trigger] accounts@[j]).name == self.required_accounts@[j].ident
                        &&& accounts@[j].is_mut == self.required_accounts@[j].is_mut
                        &&& accounts@[j].is_signer == self.required_accounts@[j].is_signer
                    },
            decreases self.required_accounts@.len() - i,
        {
            let a = &self.required_accounts[i];
            accounts.push(IdlAccount { name: a.ident.clone(), is_mut: a.is_mut, is_signer: a.is_signer });
            i = i + 1;
        }
        let mut args: Vec<IdlArg> = Vec::new();
        let mut j: usize = 0;
        while j < self.variant_args.len()
            invariant
                j <= self.variant_args@.len(),
                args@.len() == j,
                forall|m: int|
                    0 <= m < j ==> {
                        &&& (#[trigger] args@[m]).name == self.variant_args@[m].0
                        &&& *args@[m].ty == self.variant_args@[m].1
                    },
            decreases self.variant_args@.len() - j,
        {
            let a = &self.variant_args[j];
            args.push(IdlArg { name: a.0.clone(), ty: &a.1 });
            j = j + 1;
        }
        IdlInstruction {
            name: self.variant_ident.clone(),
            discriminant: self.discriminant,
            accounts,
            args,
        }
    }
}

proof fn lemma_call_requirements_contain(cc: Seq<CallContext>, k: int)
    requires
        0 <= k < cc.len(),
        cc[k] is Nautilus,
    ensures
        forall|m: int|
            0 <= m < cc[k]->Nautilus_0.required().len() ==> call_requirements(cc).contains(
                #[trigger] cc[k]->Nautilus_0.required()[m],
            ),
    decreases cc.len(),
{
    let o = cc[k]->Nautilus_0;
    let prev = call_requirements(cc.drop_last());
    if k == cc.len() - 1 {
        assert forall|m: int| 0 <= m < o.required().len() implies call_requirements(cc).contains(
            #[trigger] o.required()[m],
        ) by {
            assert(call_requirements(cc)[prev.len() + m] == o.required()[m]);
        }
    } else {
        assert(cc.drop_last()[k] == cc[k]);
        lemma_call_requirements_contain(cc.drop_last(), k);
        assert forall|m: int| 0 <= m < o.required().len() implies call_requirements(cc).contains(
            #[trigger] o.required()[m],
        ) by {
            let i = choose|i: int| 0 <= i < prev.len() && prev[i] == o.required()[m];
            match cc.last() {
                CallContext::Nautilus(q) => {
                    assert(call_requirements(cc)[i] == prev[i]);
                },
                CallContext::Arg(_) => {},
            }
        }
    }
}

/// A variant whose accounts are the condensation of its parameters'
/// requirements, whose resource parameters are all configured and whose
/// plain parameters all name a payload argument can always be planned.
pub proof fn lemma_condensed_variant_plannable(v: NautilusEntrypointEnumVariant)
    requires
        v.required_accounts@ == condensed(call_requirements(v.call_context@)),
        all_configured(v.call_context@),
        forall|k: int|
            0 <= k < v.call_context@.len() ==> (#[trigger] v.call_context@[k] matches CallContext::Arg(
                name,
            ) ==> has_arg(v.variant_args@, name@)),
    ensures
        v.plan_possible(),
{
    let cc = v.call_context@;
    let s = call_requirements(cc);
    crate::requirement::lemma_condensed_same_ids(s);
    assert forall|k: int| 0 <= k < cc.len() implies #[trigger] v.step_possible(k) by {
        match cc[k] {
            CallContext::Nautilus(o) => {
                lemma_call_requirements_contain(cc, k);
                assert forall|m: int| 0 <= m < o.resource.read_accounts().len() implies has_id(
                    v.required_accounts@,
                    #[trigger] o.resource.read_accounts()[m].id,
                ) by {
                    assert(o.required()[m] == o.resource.read_accounts()[m]);
                    let i = choose|i: int| 0 <= i < s.len() && s[i] == o.required()[m];
                    assert(has_id(condensed(s), s[i].id));
                }
                assert forall|m: int| 0 <= m < o.create_part().len() implies has_id(
                    v.required_accounts@,
                    #[trigger] o.create_part()[m].id,
                ) by {
                    let r = o.resource.read_accounts().len();
                    assert(o.required()[r + m] == o.create_part()[m]);
                    let i = choose|i: int| 0 <= i < s.len() && s[i] == o.required()[r + m];
                    assert(has_id(condensed(s), s[i].id));
                }
            },
            CallContext::Arg(_) => {},
        }
    }
}

/// A creating occurrence of a resource type needs every account that a
/// non-creating occurrence of the same type needs, and at least one more.
pub proof fn lemma_creating_occurrence_extends(c: NautilusObject, n: NautilusObject)
    requires
        c.is_create(),
        !n.is_create(),
        same_resource(c.resource, n.resource),
        c.resource.wf(),
        c.resource.create_accounts@.len() > 0,
    ensures
        forall|i: int| 0 <= i < n.required().len() ==> has_id(c.required(), #[trigger] n.required()[i].id),
        has_id(c.required(), c.resource.create_accounts@[0].id),
        !has_id(n.required(), c.resource.create_accounts@[0].id),
        c.required().len() > n.required().len(),
{
    assert(n.required() =~= c.resource.required(false));
    crate::requirement::lemma_creation_extends_read(c.resource);
}

/// One creating parameter of a type that reads only its own account and
/// whose creation needs two further slots, then one non-creating parameter
/// (say a signer) that reads only its own account, which is one of those
/// three (the same type's account, or the funding account itself): the
/// handler's accounts are the created object's own slot, then the two
/// creation slots, each once.
pub proof fn lemma_create_and_signer_same_type(v: NautilusEntrypointEnumVariant)
    requires
        v.required_accounts@ == condensed(call_requirements(v.call_context@)),
        v.call_context@.len() == 2,
        v.call_context@[0] matches CallContext::Nautilus(c) && c.is_create(),
        v.call_context@[1] matches CallContext::Nautilus(s) && !s.is_create()
            && s.resource.sub_accounts@.len() == 0,
        v.call_context@[0]->Nautilus_0.resource.sub_accounts@.len() == 0,
        v.call_context@[0]->Nautilus_0.resource.create_accounts@.len() == 2,
        ({
            let t = v.call_context@[0]->Nautilus_0.resource;
            let own = v.call_context@[1]->Nautilus_0.resource.self_account;
            &&& t.self_account.id != t.create_accounts@[0].id
            &&& t.self_account.id != t.create_accounts@[1].id
            &&& t.create_accounts@[0].id != t.create_accounts@[1].id
            &&& (own.id == t.self_account.id || own.id == t.create_accounts@[0].id || own.id
                == t.create_accounts@[1].id)
        }),
    ensures
        ({
            let t = v.call_context@[0]->Nautilus_0.resource;
            v.required_accounts@ == seq![t.self_account, t.create_accounts@[0], t.create_accounts@[1]]
        }),
{
    let cc = v.call_context@;
    let c = cc[0]->Nautilus_0;
    let s = cc[1]->Nautilus_0;
    let t = c.resource;
    let sa = t.self_account;
    let f = t.create_accounts@[0];
    let h = t.create_accounts@[1];
    let own = s.resource.self_account;
    assert(c.required() =~= seq![sa, f, h]);
    assert(s.required() =~= seq![own]);
    assert(cc.drop_last().drop_last() =~= Seq::<CallContext>::empty());
    assert(call_requirements(cc.drop_last().drop_last()) =~= Seq::<RequiredAccount>::empty());
    assert(cc.drop_last().last() == cc[0]);
    assert(call_requirements(cc.drop_last()) =~= Seq::<RequiredAccount>::empty() + c.required());
    assert(call_requirements(cc.drop_last()) =~= seq![sa, f, h]);
    let all = seq![sa, f, h, own];
    assert(call_requirements(cc) =~= all);
    assert(all.drop_last() =~= seq![sa, f, h]);
    assert(seq![sa, f, h].drop_last() =~= seq![sa, f]);
    assert(seq![sa, f].drop_last() =~= seq![sa]);
    assert(seq![sa].drop_last() =~= Seq::<RequiredAccount>::empty());
    assert(condensed(seq![sa].drop_last()) =~= Seq::<RequiredAccount>::empty());
    assert(!has_id(Seq::<RequiredAccount>::empty(), sa.id));
    assert(condensed(seq![sa]) =~= seq![sa]);
    assert(!has_id(seq![sa], f.id));
    assert(condensed(seq![sa, f]) =~= seq![sa, f]);
    assert(!has_id(seq![sa, f], h.id));
    assert(condensed(seq![sa, f, h]) =~= seq![sa, f, h]);
    let three = seq![sa, f, h];
    assert(three[0].id == sa.id && three[1].id == f.id && three[2].id == h.id);
    assert(has_id(three, own.id));
    assert(condensed(all) =~= seq![sa, f, h]);
}

/// A slot that the creation lists of two resource parameters share takes
/// exactly one position in the handler's accounts.
pub proof fn lemma_shared_creation_slot_once(
    v: NautilusEntrypointEnumVariant,
    k1: int,
    k2: int,
    a: int,
    b: int,
)
    requires
        v.required_accounts@ == condensed(call_requirements(v.call_context@)),
        0 <= k1 < k2 < v.call_context@.len(),
        v.call_context@[k1] matches CallContext::Nautilus(o) && o.is_create() && 0 <= a
            < o.resource.create_accounts@.len(),
        v.call_context@[k2] matches CallContext::Nautilus(o) && o.is_create() && 0 <= b
            < o.resource.create_accounts@.len(),
        v.call_context@[k1]->Nautilus_0.resource.create_accounts@[a].id
            == v.call_context@[k2]->Nautilus_0.resource.create_accounts@[b].id,
    ensures
        ({
            let x = v.call_context@[k1]->Nautilus_0.resource.create_accounts@[a].id;
            &&& has_id(v.required_accounts@, x)
            &&& forall|p: int, q: int|
                0 <= p < v.required_accounts@.len() && 0 <= q < v.required_accounts@.len()
                    && v.required_accounts@[p].id == x && v.required_accounts@[q].id == x ==> p == q
        }),
{
    let cc = v.call_context@;
    let o = cc[k1]->Nautilus_0;
    let s = call_requirements(cc);
    lemma_call_requirements_contain(cc, k1);
    let r = o.resource.read_accounts().len();
    assert(o.required()[r + a] == o.resource.create_accounts@[a]);
    let i = choose|i: int| 0 <= i < s.len() && s[i] == o.required()[r + a];
    crate::requirement::lemma_condensed_same_ids(s);
    assert(has_id(condensed(s), s[i].id));
    crate::requirement::lemma_condensed_no_duplicates(s);
}

/// In a faithful plan, each resource parameter is rebuilt with its own
/// account taken from the slot of the condensed list that holds its
/// identity, and its further accounts from theirs.
pub proof fn lemma_plan_reads_own_slots(v: NautilusEntrypointEnumVariant, plan: Seq<CallStep>, k: int)
    requires
        v.plan_matches(plan),
        0 <= k < plan.len(),
        v.call_context@[k] is Nautilus,
    ensures
        ({
            let o = v.call_context@[k]->Nautilus_0;
            &&& plan[k] matches CallStep::Object(init)
            &&& init.read_slots@.len() == o.resource.sub_accounts@.len() + 1
            &&& is_first_slot(
                v.required_accounts@,
                o.resource.self_account.id,
                init.read_slots@[0] as int,
            )
            &&& forall|m: int|
                0 <= m < o.resource.sub_accounts@.len() ==> is_first_slot(
                    v.required_accounts@,
                    #[trigger] o.resource.sub_accounts@[m].id,
                    init.read_slots@[m + 1] as int,
                )
        }),
{
    assert(v.step_matches(k, plan[k]));
    let o = v.call_context@[k]->Nautilus_0;
    let init = plan[k]->Object_0;
    let read = o.resource.read_accounts();
    assert(read[0] == o.resource.self_account);
    assert forall|m: int| 0 <= m < o.resource.sub_accounts@.len() implies is_first_slot(
        v.required_accounts@,
        #[trigger] o.resource.sub_accounts@[m].id,
        init.read_slots@[m + 1] as int,
    ) by {
        assert(read[m + 1] == o.resource.sub_accounts@[m]);
    }
}

/// Condensing a longer list keeps the condensation of its prefix in front.
proof fn lemma_condensed_prefix(a: Seq<RequiredAccount>, b: Seq<RequiredAccount>)
    ensures
        condensed(a).len() <= condensed(a + b).len(),
        forall|i: int| 0 <= i < condensed(a).len() ==> #[trigger] condensed(a + b)[i] == condensed(a)[i],
    decreases b.len(),
{
    if b.len() == 0 {
        assert(a + b =~= a);
    } else {
        lemma_condensed_prefix(a, b.drop_last());
        assert((a + b).drop_last() =~= a + b.drop_last());
    }
}

proof fn lemma_single_parameter(v: NautilusEntrypointEnumVariant)
    requires
        v.call_context@.len() == 1,
        v.call_context@[0] is Nautilus,
    ensures
        call_requirements(v.call_context@) == v.call_context@[0]->Nautilus_0.required(),
{
    let cc = v.call_context@;
    assert(cc.drop_last() =~= Seq::<CallContext>::empty());
    assert(call_requirements(cc.drop_last()) =~= Seq::<RequiredAccount>::empty());
    assert(cc.last() == cc[0]);
    assert(call_requirements(cc) =~= Seq::<RequiredAccount>::empty() + cc[0]->Nautilus_0.required());
}

/// Two handlers whose only parameter is the same resource type, one
/// creating it and one not: the creating handler's accounts include every
/// account of the other, and at least one more.
pub proof fn lemma_creating_variant_extends(
    vc: NautilusEntrypointEnumVariant,
    vr: NautilusEntrypointEnumVariant,
)
    requires
        vc.required_accounts@ == condensed(call_requirements(vc.call_context@)),
        vr.required_accounts@ == condensed(call_requirements(vr.call_context@)),
        vc.call_context@.len() == 1,
        vr.call_context@.len() == 1,
        vc.call_context@[0] matches CallContext::Nautilus(c) && c.is_create(),
        vr.call_context@[0] matches CallContext::Nautilus(n) && !n.is_create() && same_resource(
            vc.call_context@[0]->Nautilus_0.resource,
            n.resource,
        ),
        vc.call_context@[0]->Nautilus_0.resource.wf(),
        vc.call_context@[0]->Nautilus_0.resource.create_accounts@.len() > 0,
    ensures
        forall|i: int|
            0 <= i < vr.required_accounts@.len() ==> has_id(
                vc.required_accounts@,
                #[trigger] vr.required_accounts@[i].id,
            ),
        ({
            let x = vc.call_context@[0]->Nautilus_0.resource.create_accounts@[0].id;
            has_id(vc.required_accounts@, x) && !has_id(vr.required_accounts@, x)
        }),
        vc.required_accounts@.len() > vr.required_accounts@.len(),
{
    let c = vc.call_context@[0]->Nautilus_0;
    let n = vr.call_context@[0]->Nautilus_0;
    let t = c.resource;
    let a = t.read_accounts();
    let b = t.create_accounts@;
    lemma_single_parameter(vc);
    lemma_single_parameter(vr);
    assert(c.required() == a + b);
    assert(n.required() =~= a);
    lemma_condensed_prefix(a, b);
    crate::requirement::lemma_condensed_same_ids(a + b);
    crate::requirement::lemma_condensed_same_ids(a);
    let x = b[0].id;
    assert((a + b)[a.len() as int] == b[0]);
    assert(has_id(condensed(a + b), (a + b)[a.len() as int].id));
    assert(!has_id(condensed(a), x)) by {
        if has_id(condensed(a), x) {
            let p = choose|p: int| 0 <= p < condensed(a).len() && condensed(a)[p].id == x;
            assert(a.contains(condensed(a)[p]));
            let q = choose|q: int| 0 <= q < a.len() && a[q] == condensed(a)[p];
        }
    }
    assert forall|i: int| 0 <= i < condensed(a).len() implies has_id(
        condensed(a + b),
        #[trigger] condensed(a)[i].id,
    ) by {
        assert(condensed(a + b)[i] == condensed(a)[i]);
    }
    if condensed(a + b).len() == condensed(a).len() {
        let p = choose|p: int| 0 <= p < condensed(a + b).len() && condensed(a + b)[p].id == x;
        assert(condensed(a + b)[p] == condensed(a)[p]);
    }
}

/// The requirements of the first `j` parameters come first, in order.
proof fn lemma_call_requirements_prefix(cc: Seq<CallContext>, j: int)
    requires
        0 <= j <= cc.len(),
    ensures
        call_requirements(cc) =~= call_requirements(cc.take(j)) + call_requirements(cc).skip(
            call_requirements(cc.take(j)).len() as int,
        ),
        call_requirements(cc.take(j)).len() <= call_requirements(cc).len(),
    decreases cc.len(),
{
    if j == cc.len() {
        assert(cc.take(j) =~= cc);
    } else {
        lemma_call_requirements_prefix(cc.drop_last(), j);
        assert(cc.drop_last().take(j) =~= cc.take(j));
    }
}

/// The slot that two creating parameters share comes, in the handler's
/// accounts, before the own slot of the second parameter, when that slot
/// is new at that parameter.
pub proof fn lemma_shared_slot_before_second_object(
    v: NautilusEntrypointEnumVariant,
    k1: int,
    k2: int,
    a: int,
    p: int,
    q: int,
)
    requires
        v.required_accounts@ == condensed(call_requirements(v.call_context@)),
        0 <= k1 < k2 < v.call_context@.len(),
        v.call_context@[k1] matches CallContext::Nautilus(o) && o.is_create() && 0 <= a
            < o.resource.create_accounts@.len(),
        v.call_context@[k2] is Nautilus,
        !has_id(
            call_requirements(v.call_context@.take(k2)),
            v.call_context@[k2]->Nautilus_0.resource.self_account.id,
        ),
        0 <= p < v.required_accounts@.len(),
        v.required_accounts@[p].id == v.call_context@[k1]->Nautilus_0.resource.create_accounts@[a].id,
        0 <= q < v.required_accounts@.len(),
        v.required_accounts@[q].id == v.call_context@[k2]->Nautilus_0.resource.self_account.id,
    ensures
        p < q,
{
    let cc = v.call_context@;
    let w = call_requirements(cc);
    let pre = call_requirements(cc.take(k2));
    let o1 = cc[k1]->Nautilus_0;
    let o2 = cc[k2]->Nautilus_0;
    let x = o1.resource.create_accounts@[a].id;
    let sid = o2.resource.self_account.id;
    lemma_call_requirements_prefix(cc, k2);
    let rest = w.skip(pre.len() as int);
    lemma_condensed_prefix(pre, rest);
    assert(pre + rest == w);
    crate::requirement::lemma_condensed_no_duplicates(w);
    crate::requirement::lemma_condensed_same_ids(pre);
    assert(cc.take(k2)[k1] == cc[k1]);
    lemma_call_requirements_contain(cc.take(k2), k1);
    let r = o1.resource.read_accounts().len();
    assert(o1.required()[r + a] == o1.resource.create_accounts@[a]);
    let i = choose|i: int| 0 <= i < pre.len() && pre[i] == o1.required()[r + a];
    assert(has_id(condensed(pre), pre[i].id));
    let p2 = choose|p2: int| 0 <= p2 < condensed(pre).len() && condensed(pre)[p2].id == x;
    assert(condensed(w)[p2] == condensed(pre)[p2]);
    assert(p == p2);
    if q < condensed(pre).len() {
        assert(condensed(w)[q] == condensed(pre)[q]);
        assert(pre.contains(condensed(pre)[q]));
        let j = choose|j: int| 0 <= j < pre.len() && pre[j] == condensed(pre)[q];
        assert(has_id(pre, sid));
    }
}

} // verus!

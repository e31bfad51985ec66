use nautilus_entry::dispatch::{AccountHandle, CallArg, Dispatcher};
use nautilus_entry::entry::{build_dispatcher, build_variants};
use nautilus_entry::error::{DispatchError, GenerationError};
use nautilus_entry::parser::{parse_function, HandlerFn};
use nautilus_entry::payload::ArgValue;
use nautilus_entry::requirement::{
    condense, RequiredAccount, RequiredAccountSubtype, RequiredAccountType, ResourceType,
};
use nautilus_entry::shape::{GenericArgument, ParamType, PathArguments, PathSegment, TypePath};
use nautilus_entry::variant::{
    CallContext, NautilusEntrypointEnumVariant, NautilusObject, ObjectEntryConfig, Wrapper,
};

const FEE_PAYER: u64 = 900;
const SYSTEM_PROGRAM: u64 = 901;

fn account(id: u64, ident: &str, account_type: RequiredAccountType, is_mut: bool, is_signer: bool) -> RequiredAccount {
    RequiredAccount { id, ident: ident.to_string(), account_type, is_mut, is_signer }
}

fn creation_extras() -> Vec<RequiredAccount> {
    vec![
        account(FEE_PAYER, "fee_payer", RequiredAccountType::Shared, true, true),
        account(SYSTEM_PROGRAM, "system_program", RequiredAccountType::Shared, false, false),
    ]
}

fn resource(id: u64, name: &str, self_id: u64) -> ResourceType {
    ResourceType {
        id,
        name: name.to_string(),
        self_account: account(
            self_id,
            &name.to_lowercase(),
            RequiredAccountType::Account(RequiredAccountSubtype::SelfAccount),
            true,
            false,
        ),
        sub_accounts: vec![],
        create_accounts: creation_extras(),
    }
}

fn with_metadata(mut r: ResourceType, meta_id: u64) -> ResourceType {
    r.sub_accounts.push(account(
        meta_id,
        "metadata",
        RequiredAccountType::Account(RequiredAccountSubtype::Metadata),
        true,
        false,
    ));
    r
}

fn path(idents: &[&str]) -> TypePath {
    TypePath {
        segments: idents
            .iter()
            .map(|i| PathSegment { ident: i.to_string(), arguments: PathArguments::Bare })
            .collect(),
    }
}

fn plain(name: &str) -> ParamType {
    ParamType::Path(path(&[name]))
}

fn wrapped(wrapper: &str, inner: TypePath) -> ParamType {
    ParamType::Path(TypePath {
        segments: vec![PathSegment {
            ident: wrapper.to_string(),
            arguments: PathArguments::AngleBracketed(vec![GenericArgument::Type(inner)]),
        }],
    })
}

fn handler(ident: &str, inputs: Vec<(&str, ParamType)>) -> HandlerFn {
    HandlerFn {
        ident: ident.to_string(),
        inputs: inputs.into_iter().map(|(n, t)| (n.to_string(), t)).collect(),
    }
}

fn objects() -> Vec<ResourceType> {
    vec![resource(1, "Vault", 100), with_metadata(resource(2, "Ledger", 200), 201)]
}

fn ids(v: &NautilusEntrypointEnumVariant) -> Vec<u64> {
    v.required_accounts.iter().map(|a| a.id).collect()
}

fn handle(key: u64, is_signer: bool, is_writable: bool) -> AccountHandle {
    AccountHandle { key, is_signer, is_writable }
}

fn deposit_dispatcher() -> Dispatcher {
    let f = handler("deposit_funds", vec![("amount", plain("u64")), ("vault", plain("Vault"))]);
    build_dispatcher(&objects(), vec![f]).unwrap()
}

fn open_vault_dispatcher() -> Dispatcher {
    let f = handler(
        "open_vault",
        vec![
            ("new_vault", wrapped("Create", path(&["Vault"]))),
            ("owner", wrapped("Signer", path(&["Vault"]))),
        ],
    );
    build_dispatcher(&objects(), vec![f]).unwrap()
}

#[test]
fn scenario_read_only_resource_and_plain_argument() {
    let d = deposit_dispatcher();
    let v = &d.variants()[0];
    assert_eq!(ids(v), vec![100]);
    assert_eq!(v.discriminant, 0);
    let idl = v.idl_instruction();
    assert_eq!(idl.accounts.len(), 1);
    assert_eq!(idl.args.len(), 1);
    assert_eq!(idl.args[0].name, "amount");
    assert!(matches!(idl.args[0].ty, ParamType::Path(p) if p.segments.len() == 1 && p.segments[0].ident == "u64"));
    assert_eq!(idl.accounts[0].name, "vault");
}

#[test]
fn variant_name_is_pascal_case_of_handler_name() {
    let d = deposit_dispatcher();
    assert_eq!(d.variants()[0].variant_ident, "DepositFunds");
    assert_eq!(d.variants()[0].call_ident, "deposit_funds");
}

#[test]
fn scenario_create_and_signer_of_same_type() {
    let d = open_vault_dispatcher();
    assert_eq!(ids(&d.variants()[0]), vec![100, FEE_PAYER, SYSTEM_PROGRAM]);
}

#[test]
fn scenario_shared_creation_slot_appears_once() {
    let f = handler(
        "open_both",
        vec![
            ("vault", wrapped("Create", path(&["Vault"]))),
            ("ledger", wrapped("Create", path(&["Ledger"]))),
        ],
    );
    let d = build_dispatcher(&objects(), vec![f]).unwrap();
    let got = ids(&d.variants()[0]);
    assert_eq!(got, vec![100, FEE_PAYER, SYSTEM_PROGRAM, 200, 201]);
    assert_eq!(got.iter().filter(|i| **i == SYSTEM_PROGRAM).count(), 1);
}

#[test]
fn scenario_unknown_discriminant_is_rejected() {
    let d = deposit_dispatcher();
    let accounts = vec![handle(5, false, true)];
    let r = d.dispatch(&vec![7u8, 1, 0, 0, 0, 0, 0, 0, 0], &accounts);
    assert!(matches!(r, Err(DispatchError::UnknownDiscriminant(7))));
}

#[test]
fn condensed_list_has_no_duplicates() {
    let lists = vec![
        vec![account(1, "a", RequiredAccountType::Plain, false, false), account(2, "b", RequiredAccountType::Plain, false, false)],
        vec![account(2, "b2", RequiredAccountType::Plain, true, false), account(3, "c", RequiredAccountType::Plain, false, false)],
        vec![account(1, "a2", RequiredAccountType::Plain, false, false)],
    ];
    let r = condense(lists);
    let got: Vec<u64> = r.iter().map(|a| a.id).collect();
    assert_eq!(got, vec![1, 2, 3]);
    assert_eq!(r[1].ident, "b");
}

#[test]
fn creation_list_extends_read_list() {
    let t = resource(1, "Vault", 100);
    let read = t.required_accounts(false);
    let create = t.required_accounts(true);
    assert!(create.len() > read.len());
    for a in &read {
        assert!(create.iter().any(|c| c.id == a.id));
    }
    assert!(!read.iter().any(|a| a.id == FEE_PAYER));
    let got: Vec<u64> = create.iter().map(|a| a.id).collect();
    assert_eq!(got, vec![100, FEE_PAYER, SYSTEM_PROGRAM]);
}

#[test]
fn discriminants_follow_declaration_order() {
    let fs = vec![
        handler("first", vec![("x", plain("u8"))]),
        handler("second", vec![]),
        handler("third", vec![("vault", plain("Vault"))]),
    ];
    let d = build_dispatcher(&objects(), fs).unwrap();
    let tags: Vec<u8> = d.variants().iter().map(|v| v.discriminant).collect();
    assert_eq!(tags, vec![0, 1, 2]);
}

#[test]
fn schema_counts_match_variant() {
    let f = handler(
        "mixed",
        vec![
            ("flag", plain("bool")),
            ("ledger", wrapped("Mut", path(&["Ledger"]))),
            ("n", plain("u16")),
        ],
    );
    let d = build_dispatcher(&objects(), vec![f]).unwrap();
    let v = &d.variants()[0];
    let idl = v.idl_instruction();
    assert_eq!(idl.accounts.len(), v.required_accounts.len());
    assert_eq!(idl.accounts.len(), 2);
    assert_eq!(idl.args.len(), v.variant_args.len());
    assert_eq!(idl.args.len(), 2);
    assert_eq!(idl.name, "Mixed");
}

#[test]
fn round_trip_rebuilds_flags_of_supplied_accounts() {
    let d = open_vault_dispatcher();
    let accounts = vec![handle(11, false, true), handle(12, true, true), handle(13, false, false)];
    let out = d.dispatch(&vec![0u8], &accounts).unwrap();
    assert_eq!(out.variant, 0);
    assert_eq!(out.call_args.len(), 2);
    match &out.call_args[0] {
        CallArg::Object(o) => {
            assert_eq!(o.wrapper, Wrapper::Create);
            assert_eq!(o.key(), 11);
            assert!(!o.is_signer());
            assert!(o.is_writable());
            assert_eq!(o.create_accounts, vec![accounts[1], accounts[2]]);
        }
        CallArg::Value(_) => panic!("expected an object"),
    }
    match &out.call_args[1] {
        CallArg::Object(o) => {
            assert_eq!(o.wrapper, Wrapper::Signer);
            assert_eq!(o.key(), 11);
            assert!(o.create_accounts.is_empty());
        }
        CallArg::Value(_) => panic!("expected an object"),
    }
}

#[test]
fn dispatch_decodes_payload_in_parameter_order() {
    let f = handler(
        "mixed",
        vec![
            ("flag", plain("bool")),
            ("ledger", plain("Ledger")),
            ("n", plain("u16")),
            ("big", plain("u64")),
        ],
    );
    let d = build_dispatcher(&objects(), vec![f]).unwrap();
    let accounts = vec![handle(21, false, false), handle(22, false, true)];
    let data = vec![0u8, 1, 0x34, 0x12, 1, 0, 0, 0, 0, 0, 0, 0x80];
    let out = d.dispatch(&data, &accounts).unwrap();
    assert!(matches!(out.call_args[0], CallArg::Value(ArgValue::Bool(true))));
    match &out.call_args[1] {
        CallArg::Object(o) => {
            assert_eq!(o.key(), 21);
            assert_eq!(o.sub_accounts, vec![accounts[1]]);
            assert_eq!(o.wrapper, Wrapper::Plain);
        }
        CallArg::Value(_) => panic!("expected an object"),
    }
    assert!(matches!(out.call_args[2], CallArg::Value(ArgValue::U16(0x1234))));
    assert!(matches!(out.call_args[3], CallArg::Value(ArgValue::U64(0x8000_0000_0000_0001))));
}

#[test]
fn dispatch_errors() {
    let d = deposit_dispatcher();
    let enough = vec![handle(5, false, true)];
    assert!(matches!(d.dispatch(&vec![], &enough), Err(DispatchError::MissingDiscriminant)));
    assert!(matches!(d.dispatch(&vec![0u8, 1, 2], &enough), Err(DispatchError::MalformedPayload)));
    let too_long = vec![0u8, 1, 0, 0, 0, 0, 0, 0, 0, 9];
    assert!(matches!(d.dispatch(&too_long, &enough), Err(DispatchError::MalformedPayload)));
    let ok = vec![0u8, 1, 0, 0, 0, 0, 0, 0, 0];
    assert!(matches!(d.dispatch(&ok, &vec![]), Err(DispatchError::NotEnoughAccounts)));
    let out = d.dispatch(&ok, &enough).unwrap();
    assert!(matches!(out.call_args[0], CallArg::Value(ArgValue::U64(1))));
}

#[test]
fn malformed_boolean_is_rejected() {
    let f = handler("toggle", vec![("on", plain("bool"))]);
    let d = build_dispatcher(&objects(), vec![f]).unwrap();
    assert!(matches!(d.dispatch(&vec![0u8, 2], &vec![]), Err(DispatchError::MalformedPayload)));
    assert!(matches!(d.dispatch(&vec![0u8, 0], &vec![]).unwrap().call_args[0], CallArg::Value(ArgValue::Bool(false))));
}

#[test]
fn generation_errors_from_parameters() {
    let bare_create = ParamType::Path(path(&["Create"]));
    let r = parse_function(&objects(), handler("f", vec![("x", bare_create)]));
    assert_eq!(
        r.err(),
        Some(GenerationError::MissingInnerType { handler: "f".to_string(), wrapper: "Create".to_string() })
    );

    let nested = wrapped("Create", TypePath {
        segments: vec![PathSegment {
            ident: "Mut".to_string(),
            arguments: PathArguments::AngleBracketed(vec![GenericArgument::Type(path(&["Vault"]))]),
        }],
    });
    let r = parse_function(&objects(), handler("f", vec![("x", nested)]));
    assert_eq!(
        r.err(),
        Some(GenerationError::UnresolvedInnerType { handler: "f".to_string(), resource: "Mut".to_string() })
    );

    let unknown = wrapped("Signer", path(&["Unknown"]));
    let r = parse_function(&objects(), handler("g", vec![("n", plain("u8")), ("x", unknown)]));
    assert_eq!(
        r.err(),
        Some(GenerationError::UnresolvedInnerType { handler: "g".to_string(), resource: "Unknown".to_string() })
    );

    let qualified = wrapped("Mut", path(&["other", "Vault"]));
    let r = parse_function(&objects(), handler("h", vec![("x", qualified)]));
    assert_eq!(
        r.err(),
        Some(GenerationError::UnresolvedInnerType { handler: "h".to_string(), resource: "Vault".to_string() })
    );
}

#[test]
fn plain_arguments_keep_their_declared_type() {
    let f = handler(
        "rename",
        vec![("name", plain("String")), ("vault", plain("Vault")), ("owner", ParamType::Path(path(&["other", "Vault"])))],
    );
    let (vi, args, ci, cc) = parse_function(&objects(), f).unwrap();
    assert_eq!(vi, "Rename");
    assert_eq!(ci, "rename");
    assert_eq!(args.len(), 2);
    assert_eq!(args[0].0, "name");
    assert!(matches!(&args[0].1, ParamType::Path(p) if p.segments.len() == 1 && p.segments[0].ident == "String"));
    assert_eq!(args[1].0, "owner");
    assert!(matches!(&args[1].1, ParamType::Path(p) if p.segments.len() == 2 && p.segments[0].ident == "other" && p.segments[1].ident == "Vault"));
    assert!(matches!(&cc[0], CallContext::Arg(a) if a == "name"));
    assert!(matches!(&cc[1], CallContext::Nautilus(o) if o.resource.name == "Vault"));
    assert!(matches!(&cc[2], CallContext::Arg(a) if a == "owner"));
}

#[test]
fn any_payload_type_generates_and_only_dispatch_refuses_it() {
    let f = handler(
        "create_vault",
        vec![("title", plain("String")), ("vault", wrapped("Create", path(&["Vault"]))), ("n", plain("u8"))],
    );
    let d = build_dispatcher(&objects(), vec![f]).unwrap();
    let v = &d.variants()[0];
    assert_eq!(v.variant_args.len(), 2);
    assert_eq!(v.variant_args[0].0, "title");
    assert!(matches!(&v.variant_args[0].1, ParamType::Path(p) if p.segments[0].ident == "String"));
    let idl = v.idl_instruction();
    assert_eq!(idl.args.len(), 2);
    assert_eq!(idl.accounts.len(), 3);
    let accounts = vec![handle(1, false, true), handle(2, true, true), handle(3, false, false)];
    assert!(matches!(d.dispatch(&vec![0u8, 5], &accounts), Err(DispatchError::UnsupportedPayload)));
}

#[test]
fn generation_errors_from_variants() {
    let unconfigured = vec![CallContext::Nautilus(NautilusObject { resource: resource(1, "Vault", 100), entry_config: None })];
    let r = NautilusEntrypointEnumVariant::new(0, "F".to_string(), vec![], "f".to_string(), unconfigured);
    assert_eq!(
        r.err(),
        Some(GenerationError::MissingEntryConfig { handler: "f".to_string(), resource: "Vault".to_string() })
    );

    let v = NautilusEntrypointEnumVariant::new(0, "F".to_string(), vec![], "f".to_string(), vec![CallContext::Arg("x".to_string())]).unwrap();
    assert_eq!(
        Dispatcher::new(vec![v]).err(),
        Some(GenerationError::UnknownArgument { handler: "f".to_string(), arg: "x".to_string() })
    );

    let config = ObjectEntryConfig { arg_ident: "vault".to_string(), is_create: false, is_signer: false, is_mut: false };
    let v = NautilusEntrypointEnumVariant {
        discriminant: 0,
        variant_ident: "F".to_string(),
        variant_args: vec![],
        required_accounts: vec![],
        call_ident: "f".to_string(),
        call_context: vec![CallContext::Nautilus(NautilusObject { resource: resource(1, "Vault", 100), entry_config: Some(config) })],
    };
    assert_eq!(
        Dispatcher::new(vec![v]).err(),
        Some(GenerationError::MissingAccount { handler: "f".to_string(), resource: "Vault".to_string() })
    );

    let a = NautilusEntrypointEnumVariant::new(3, "A".to_string(), vec![], "a".to_string(), vec![]).unwrap();
    let b = NautilusEntrypointEnumVariant::new(3, "B".to_string(), vec![], "b".to_string(), vec![]).unwrap();
    assert_eq!(Dispatcher::new(vec![a, b]).err(), Some(GenerationError::DuplicateDiscriminant(3)));
}

#[test]
fn too_many_handlers() {
    let fs: Vec<HandlerFn> = (0..257).map(|i| handler(&format!("h{}", i), vec![])).collect();
    assert_eq!(build_variants(&objects(), fs).err(), Some(GenerationError::TooManyHandlers));
    let fs: Vec<HandlerFn> = (0..256).map(|i| handler(&format!("h{}", i), vec![])).collect();
    let d = build_dispatcher(&objects(), fs).unwrap();
    assert_eq!(d.variants()[255].discriminant, 255);
}

#[test]
fn call_plan_follows_parameter_order() {
    let f = handler(
        "mixed",
        vec![("n", plain("u8")), ("vault", wrapped("Mut", path(&["Vault"]))), ("m", plain("u32"))],
    );
    let d = build_dispatcher(&objects(), vec![f]).unwrap();
    let plan = d.variants()[0].build_match_arm_logic().unwrap();
    assert_eq!(plan.len(), 3);
    assert!(matches!(plan[0], nautilus_entry::variant::CallStep::Arg(0)));
    match &plan[1] {
        nautilus_entry::variant::CallStep::Object(init) => {
            assert_eq!(init.wrapper, Wrapper::Mut);
            assert_eq!(init.arg_ident, "vault");
            assert_eq!(init.resource, "Vault");
            assert_eq!(init.read_slots, vec![0]);
            assert!(init.create_slots.is_empty());
        }
        _ => panic!("expected an object step"),
    }
    assert!(matches!(plan[2], nautilus_entry::variant::CallStep::Arg(1)));
}

#[test]
fn parameters_of_one_type_share_its_own_slot() {
    let f = handler(
        "sign_and_update",
        vec![("a", wrapped("Signer", path(&["Vault"]))), ("b", wrapped("Mut", path(&["Vault"])))],
    );
    let d = build_dispatcher(&objects(), vec![f]).unwrap();
    assert_eq!(ids(&d.variants()[0]), vec![100]);
    let accounts = vec![handle(9, true, true)];
    let out = d.dispatch(&vec![0u8], &accounts).unwrap();
    for arg in &out.call_args {
        match arg {
            CallArg::Object(o) => assert_eq!(o.key(), 9),
            CallArg::Value(_) => panic!("expected an object"),
        }
    }
}

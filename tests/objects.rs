use nautilus_entry::discovery::{
    partition_structs, register_resources, ResourceDecl, SlotDecl, StructDecl, FEE_PAYER_ID,
    SYSTEM_PROGRAM_ID,
};
use nautilus_entry::dispatch::AccountHandle;
use nautilus_entry::requirement::{RequiredAccountSubtype, RequiredAccountType};
use nautilus_entry::index::{InsertRecordError, NautilusIndexData};
use nautilus_entry::nft::Nft;
use nautilus_entry::parser::{parse_type, thread_lifetime};
use nautilus_entry::shape::{
    derive_child_type, insert_lifetime_first, is_use_super_star, new_angle_bracketed_args,
    type_to_string, GenericArgument, Item, ParamType, PathArguments, PathSegment, TypePath, UseTree,
};

fn index() -> NautilusIndexData {
    NautilusIndexData { index: vec![("person".to_string(), 3), ("car".to_string(), 0)] }
}

#[test]
fn index_counts() {
    let d = index();
    assert_eq!(d.get_count(&"person".to_string()), Some(&3));
    assert_eq!(d.get_count(&"boat".to_string()), None);
    assert_eq!(d.get_next_count(&"car".to_string()), Some(1));
    assert_eq!(d.get_next_count(&"boat".to_string()), None);
}

#[test]
fn index_add_record() {
    let mut d = index();
    assert_eq!(d.add_record(&"person".to_string()), Ok(4));
    assert_eq!(d.get_count(&"person".to_string()), Some(&4));
    assert_eq!(d.get_count(&"car".to_string()), Some(&0));
    assert_eq!(d.add_record(&"boat".to_string()), Err(InsertRecordError {}));
    assert_eq!(d.index.len(), 2);
    assert_eq!(InsertRecordError {}.message(), "Failed to write new record.");
}

#[test]
fn nft_answers_for_its_mint() {
    let mint = AccountHandle { key: 1, is_signer: true, is_writable: false };
    let meta = AccountHandle { key: 2, is_signer: false, is_writable: true };
    let tp = AccountHandle { key: 3, is_signer: false, is_writable: false };
    let mp = AccountHandle { key: 4, is_signer: false, is_writable: false };
    let n = Nft::new(mint, meta, tp, mp);
    assert_eq!(n.key(), 1);
    assert!(n.is_signer());
    assert!(!n.is_writable());
    assert_eq!(n.metadata.account_info, meta);
    assert_eq!(n.metadata.token_metadata_program, mp);
    assert_eq!(n.mint.token_program, tp);
}

fn seg(ident: &str, arguments: PathArguments) -> PathSegment {
    PathSegment { ident: ident.to_string(), arguments }
}

#[test]
fn super_glob_use_is_recognised() {
    let glob = Item::Use(UseTree::Path { ident: "super".to_string(), tree: Box::new(UseTree::Glob) });
    assert!(is_use_super_star(&glob));
    let named = Item::Use(UseTree::Path { ident: "super".to_string(), tree: Box::new(UseTree::Name("x".to_string())) });
    assert!(!is_use_super_star(&named));
    let other = Item::Use(UseTree::Path { ident: "crate".to_string(), tree: Box::new(UseTree::Glob) });
    assert!(!is_use_super_star(&other));
    assert!(!is_use_super_star(&Item::Other));
}

#[test]
fn type_names_and_children() {
    let ty = ParamType::Path(TypePath { segments: vec![seg("state", PathArguments::Bare), seg("Vault", PathArguments::Bare)] });
    assert_eq!(type_to_string(&ty), Some("Vault".to_string()));
    assert_eq!(type_to_string(&ParamType::Other("(u8, u8)".to_string())), None);
    let args = PathArguments::AngleBracketed(vec![GenericArgument::Type(TypePath { segments: vec![seg("Vault", PathArguments::Bare)] })]);
    assert_eq!(derive_child_type(&args).map(|t| t.segments[0].ident.clone()), Some("Vault".to_string()));
    let lifetime_only = PathArguments::AngleBracketed(vec![GenericArgument::Lifetime("'b".to_string())]);
    assert!(derive_child_type(&lifetime_only).is_none());
    assert!(derive_child_type(&PathArguments::Bare).is_none());
}

#[test]
fn lifetimes_go_first() {
    match new_angle_bracketed_args("'a".to_string()) {
        PathArguments::AngleBracketed(v) => {
            assert_eq!(v.len(), 1);
            assert!(matches!(&v[0], GenericArgument::Lifetime(l) if l == "'a"));
        }
        PathArguments::Bare => panic!("expected arguments"),
    }
    let mut v = vec![GenericArgument::Type(TypePath { segments: vec![] })];
    insert_lifetime_first(&mut v, &"'a".to_string());
    assert_eq!(v.len(), 2);
    assert!(matches!(&v[0], GenericArgument::Lifetime(l) if l == "'a"));
    assert!(matches!(&v[1], GenericArgument::Type(_)));
}

fn signer_wallet() -> ParamType {
    ParamType::Path(TypePath {
        segments: vec![seg(
            "Signer",
            PathArguments::AngleBracketed(vec![GenericArgument::Type(TypePath { segments: vec![seg("Wallet", PathArguments::Bare)] })]),
        )],
    })
}

#[test]
fn parse_type_classifies() {
    let (referenced, c, s, m) = parse_type(signer_wallet()).unwrap();
    assert!(matches!(&referenced, ParamType::Path(p) if p.segments.len() == 1 && p.segments[0].ident == "Wallet"));
    assert_eq!((c, s, m), (false, true, true));

    let vec_u8 = ParamType::Path(TypePath {
        segments: vec![
            seg("std", PathArguments::Bare),
            seg("vec", PathArguments::Bare),
            seg("Vec", PathArguments::AngleBracketed(vec![GenericArgument::Type(TypePath { segments: vec![seg("u8", PathArguments::Bare)] })])),
        ],
    });
    let (referenced, c, s, m) = parse_type(vec_u8).unwrap();
    assert_eq!((c, s, m), (false, false, false));
    let ParamType::Path(p) = referenced else { panic!("expected a path") };
    assert_eq!(p.segments.len(), 3);
    assert_eq!(p.segments[0].ident, "std");
    assert!(matches!(&p.segments[2].arguments, PathArguments::AngleBracketed(a) if a.len() == 1));

    let create = ParamType::Path(TypePath {
        segments: vec![seg("Create", PathArguments::AngleBracketed(vec![GenericArgument::Type(TypePath { segments: vec![seg("Vault", PathArguments::Bare)] })]))],
    });
    let (_, c, s, m) = parse_type(create).unwrap();
    assert_eq!((c, s, m), (true, false, true));
    let record = ParamType::Path(TypePath {
        segments: vec![seg("Record", PathArguments::AngleBracketed(vec![GenericArgument::Type(TypePath { segments: vec![seg("Vault", PathArguments::Bare)] })]))],
    });
    let (referenced, c, s, m) = parse_type(record).unwrap();
    assert!(matches!(&referenced, ParamType::Path(p) if p.segments[0].ident == "Vault"));
    assert_eq!((c, s, m), (false, false, false));
    let other = ParamType::Other("[u8; 32]".to_string());
    assert!(matches!(parse_type(other).unwrap().0, ParamType::Other(t) if t == "[u8; 32]"));
}

#[test]
fn lifetime_is_threaded_through_wrappers() {
    let t = thread_lifetime(signer_wallet(), &"'a".to_string());
    let ParamType::Path(p) = t else { panic!("expected a path") };
    let PathArguments::AngleBracketed(outer) = &p.segments[0].arguments else { panic!("expected arguments") };
    assert_eq!(outer.len(), 2);
    assert!(matches!(&outer[0], GenericArgument::Lifetime(l) if l == "'a"));
    let GenericArgument::Type(inner) = &outer[1] else { panic!("expected a type") };
    assert_eq!(inner.segments[0].ident, "Wallet");
    let PathArguments::AngleBracketed(inner_args) = &inner.segments[0].arguments else { panic!("expected arguments") };
    assert!(matches!(&inner_args[0], GenericArgument::Lifetime(l) if l == "'a"));
}

#[test]
fn registry_keeps_identities_apart() {
    let decls = vec![
        ResourceDecl { name: "Vault".to_string(), sub_accounts: vec![] },
        ResourceDecl {
            name: "Nft".to_string(),
            sub_accounts: vec![SlotDecl {
                ident: "nft".to_string(),
                subtype: RequiredAccountSubtype::Metadata,
                is_mut: true,
                is_signer: false,
            }],
        },
        ResourceDecl { name: "Wallet".to_string(), sub_accounts: vec![] },
    ];
    let r = register_resources(decls);
    assert_eq!(r.len(), 3);
    assert_eq!((r[0].id, r[1].id, r[2].id), (2, 3, 5));
    assert_eq!(r[1].sub_accounts[0].id, 4);
    assert_eq!(r[1].sub_accounts[0].account_type, RequiredAccountType::Account(RequiredAccountSubtype::Metadata));
    assert_eq!(r[2].name, "Wallet");
    assert_eq!(r[2].self_account.id, 5);
    let extra: Vec<u64> = r[0].create_accounts.iter().map(|a| a.id).collect();
    assert_eq!(extra, vec![FEE_PAYER_ID, SYSTEM_PROGRAM_ID]);
    assert_eq!(r[0].create_accounts[0].ident, "fee_payer");
    assert!(r[0].create_accounts[0].is_signer);
}

#[test]
fn structs_deriving_nautilus_are_resources() {
    let decl = |name: &str, derives: &[&str]| StructDecl {
        ident: name.to_string(),
        derives: derives.iter().map(|d| d.to_string()).collect(),
        fields: vec![("id".to_string(), ParamType::Path(TypePath { segments: vec![seg("u32", PathArguments::Bare)] }))],
    };
    let structs = vec![
        decl("Person", &["Clone", "Nautilus"]),
        decl("Config", &["Clone"]),
        decl("Car", &["Nautilus"]),
        decl("Empty", &[]),
    ];
    let (resources, types) = partition_structs(structs);
    let names = |v: &Vec<StructDecl>| v.iter().map(|s| s.ident.clone()).collect::<Vec<String>>();
    assert_eq!(names(&resources), vec!["Person".to_string(), "Car".to_string()]);
    assert_eq!(names(&types), vec!["Config".to_string(), "Empty".to_string()]);
    assert_eq!(types[0].fields.len(), 1);
    assert_eq!(types[0].fields[0].0, "id");
}

use gears_wasm::address::{AccAddress, AddressError};
use gears_wasm::coin::{CoinError, CoinsError, DenomError, UnsignedCoin, UnsignedCoins};
use gears_wasm::message::{
    blank, decode_addresses, decode_funds, duplicate_addresses, encode_addresses, AccessConfig,
    AccessType, CoreError, Message, MsgClearAdmin, MsgExecuteContract, MsgInstantiateContract,
    MsgMigrateContract, MsgStoreCode, MsgUpdateAdmin, ValidationError,
};
use gears_wasm::params::Params;

fn sample_addr() -> AccAddress {
    AccAddress::from_bech32("cosmos1syavy2npfyt9tcncdtsdzf7kny9lh777pahuux").unwrap()
}

#[test]
fn validate_store_code() {
    let msg = MsgStoreCode {
        sender: sample_addr(),
        wasm_byte_code: vec![0u8; 1],
        instantiate_permission: None,
    };
    assert!(msg.validate_basic().is_ok());

    let bad = MsgStoreCode {
        wasm_byte_code: vec![],
        ..msg
    };
    assert!(bad.validate_basic().is_err());
}

#[test]
fn validate_update_admin() {
    // The checksum of this string is wrong, so that it stands for no address.
    assert!(AccAddress::from_bech32("cosmos1z9det0w6aqr35d4pl3z0gp70wh6tt0q3p0m9q5").is_err());
    // The same data with the checksum that belongs to it.
    let msg = MsgUpdateAdmin {
        sender: sample_addr(),
        new_admin: AccAddress::from_bech32("cosmos1z9det0w6aqr35d4pl3z0gp70wh6tt0q37jtv5g")
            .unwrap(),
        contract: sample_addr(),
    };
    assert!(msg.validate_basic().is_ok());
    let bad = MsgUpdateAdmin {
        new_admin: msg.sender.clone(),
        ..msg
    };
    assert!(bad.validate_basic().is_err());
}

#[test]
fn validate_clear_admin() {
    let msg = MsgClearAdmin {
        sender: sample_addr(),
        contract: sample_addr(),
    };
    assert!(msg.validate_basic().is_ok());
}

#[test]
fn validate_instantiate_contract() {
    let msg = MsgInstantiateContract {
        sender: sample_addr(),
        admin: None,
        code_id: 1,
        label: "contract".into(),
        msg: vec![1],
        funds: UnsignedCoins::new(vec![UnsignedCoin::from_str("1uatom").unwrap()]).unwrap(),
    };
    assert!(msg.validate_basic().is_ok());
    let bad = MsgInstantiateContract { code_id: 0, ..msg };
    assert!(bad.validate_basic().is_err());
}

#[test]
fn validate_execute_contract() {
    let msg = MsgExecuteContract {
        sender: sample_addr(),
        contract: sample_addr(),
        msg: vec![1],
        funds: UnsignedCoins::new(vec![UnsignedCoin::from_str("1uatom").unwrap()]).unwrap(),
    };
    assert!(msg.validate_basic().is_ok());
    let bad = MsgExecuteContract {
        msg: Vec::new(),
        ..msg
    };
    assert!(bad.validate_basic().is_err());
}

#[test]
fn validate_migrate_contract() {
    let msg = MsgMigrateContract {
        sender: sample_addr(),
        contract: sample_addr(),
        code_id: 2,
        msg: vec![1],
    };
    assert!(msg.validate_basic().is_ok());
    let bad = MsgMigrateContract { code_id: 0, ..msg };
    assert!(bad.validate_basic().is_err());
}

#[test]
fn each_refusal_has_its_error() {
    let unspecified = AccessConfig::default();
    assert_eq!(unspecified.validate_basic(), Err(ValidationError::AccessTypeUnspecified));
    let nobody = AccessConfig { permission: AccessType::Nobody, addresses: vec![] };
    assert_eq!(nobody.validate_basic(), Ok(()));
    let everybody = AccessConfig { permission: AccessType::Everybody, addresses: vec![] };
    assert_eq!(everybody.validate_basic(), Ok(()));
    let nobody_listed = AccessConfig { permission: AccessType::AnyOfAddresses, addresses: vec![] };
    assert_eq!(nobody_listed.validate_basic(), Err(ValidationError::AddressesRequired));
    let listed =
        AccessConfig { permission: AccessType::AnyOfAddresses, addresses: vec![sample_addr()] };
    assert_eq!(listed.validate_basic(), Ok(()));
    assert_eq!(listed.duplicate().addresses.len(), 1);

    let store = MsgStoreCode {
        sender: sample_addr(),
        wasm_byte_code: vec![1],
        instantiate_permission: Some(AccessConfig::default()),
    };
    assert_eq!(store.validate_basic(), Err(ValidationError::AccessTypeUnspecified));
    let empty = MsgStoreCode { wasm_byte_code: vec![], ..store };
    assert_eq!(empty.validate_basic(), Err(ValidationError::EmptyWasm));

    let instantiate = MsgInstantiateContract {
        sender: sample_addr(),
        admin: Some(sample_addr()),
        code_id: 1,
        label: " \t\n\u{3000}".into(),
        msg: vec![],
        funds: UnsignedCoins::new(vec![UnsignedCoin::from_str("1uatom").unwrap()]).unwrap(),
    };
    assert_eq!(instantiate.validate_basic(), Err(ValidationError::EmptyLabel));
    let no_label = MsgInstantiateContract { label: String::new(), ..instantiate };
    assert_eq!(no_label.validate_basic(), Err(ValidationError::EmptyLabel));
    let no_code = MsgInstantiateContract { code_id: 0, ..no_label };
    assert_eq!(no_code.validate_basic(), Err(ValidationError::CodeIdRequired));

    let update = Message::UpdateAdmin(MsgUpdateAdmin {
        sender: sample_addr(),
        new_admin: sample_addr(),
        contract: sample_addr(),
    });
    assert_eq!(update.validate_basic(), Err(ValidationError::SameAdmin));
    assert_eq!(update.type_url(), "/cosmwasm.wasm.v1.MsgUpdateAdmin");
    let clear = Message::ClearAdmin(MsgClearAdmin { sender: sample_addr(), contract: sample_addr() });
    assert_eq!(clear.validate_basic(), Ok(()));
    assert_eq!(clear.type_url(), "/cosmwasm.wasm.v1.MsgClearAdmin");
    let migrate = Message::MigrateContract(MsgMigrateContract {
        sender: sample_addr(),
        contract: sample_addr(),
        code_id: 0,
        msg: vec![],
    });
    assert_eq!(migrate.validate_basic(), Err(ValidationError::CodeIdRequired));
    let execute = MsgExecuteContract {
        sender: sample_addr(),
        contract: sample_addr(),
        msg: vec![],
        funds: UnsignedCoins::new(vec![UnsignedCoin::from_str("1uatom").unwrap()]).unwrap(),
    };
    assert_eq!(execute.validate_basic(), Err(ValidationError::EmptyMessage));
}

#[test]
fn refusals_in_words() {
    assert_eq!(ValidationError::AccessTypeUnspecified.message(), "access type unspecified");
    assert_eq!(
        ValidationError::AddressesRequired.message(),
        "addresses required for AnyOfAddresses"
    );
    assert_eq!(ValidationError::EmptyWasm.message(), "wasm byte code cannot be empty");
    assert_eq!(ValidationError::CodeIdRequired.message(), "code id is required");
    assert_eq!(ValidationError::EmptyLabel.message(), "label cannot be empty");
    assert_eq!(ValidationError::EmptyMessage.message(), "execute message cannot be empty");
    assert_eq!(ValidationError::SameAdmin.message(), "new admin is the same as current");
}

#[test]
fn access_types_have_their_numbers() {
    assert_eq!(AccessType::Unspecified.to_i32(), 0);
    assert_eq!(AccessType::Nobody.to_i32(), 1);
    assert_eq!(AccessType::Everybody.to_i32(), 3);
    assert_eq!(AccessType::AnyOfAddresses.to_i32(), 4);
    for n in [-1, 0, 2, 5, i32::MAX] {
        assert_eq!(AccessType::from_i32(n), AccessType::Unspecified);
    }
    assert_eq!(AccessType::from_i32(1), AccessType::Nobody);
    assert_eq!(AccessType::from_i32(3), AccessType::Everybody);
    assert_eq!(AccessType::from_i32(4), AccessType::AnyOfAddresses);
}

#[test]
fn blank_strings() {
    assert!(blank(""));
    assert!(blank("  \t\r\n"));
    assert!(blank("\u{a0}\u{2003}\u{85}"));
    assert!(!blank(" a "));
    assert!(!blank("\u{200b}"));
}

#[test]
fn messages_from_the_wire() {
    let good = "cosmos1syavy2npfyt9tcncdtsdzf7kny9lh777pahuux";
    let other = "cosmos1z9det0w6aqr35d4pl3z0gp70wh6tt0q37jtv5g";
    let bad = "cosmos1z9det0w6aqr35d4pl3z0gp70wh6tt0q3p0m9q5";
    let funds = vec![("uatom".to_string(), "1".to_string())];

    let config = AccessConfig::from_parts(4, &vec![good.to_string(), other.to_string()]).unwrap();
    assert_eq!(config.permission, AccessType::AnyOfAddresses);
    assert_eq!(config.addresses.len(), 2);
    assert!(config.addresses[0].same_as(&sample_addr()));
    assert_eq!(config.to_parts(), Some((4, vec![good.to_string(), other.to_string()])));
    assert_eq!(AccessConfig::from_parts(2, &vec![]).unwrap().permission, AccessType::Unspecified);
    assert!(matches!(
        AccessConfig::from_parts(3, &vec![good.to_string(), bad.to_string()]),
        Err(CoreError::DecodeAddress(AddressError::Decode))
    ));

    let store = MsgStoreCode::from_parts(good, vec![1, 2], Some((3, vec![]))).unwrap();
    assert_eq!(store.wasm_byte_code, vec![1, 2]);
    assert_eq!(store.instantiate_permission.unwrap().permission, AccessType::Everybody);
    assert!(MsgStoreCode::from_parts(good, vec![], None).unwrap().instantiate_permission.is_none());
    assert!(MsgStoreCode::from_parts(bad, vec![], None).is_err());
    assert!(MsgStoreCode::from_parts(good, vec![], Some((3, vec![bad.to_string()]))).is_err());

    let parts = |admin: &str, funds: &Vec<(String, String)>| {
        MsgInstantiateContract::from_parts(good, admin, 7, "label".to_string(), vec![9], funds)
    };
    let instantiate = parts("", &funds).unwrap();
    assert!(instantiate.admin.is_none());
    assert_eq!(instantiate.code_id, 7);
    assert_eq!(instantiate.label, "label");
    assert_eq!(instantiate.msg, vec![9]);
    assert_eq!(instantiate.funds.len(), 1);
    assert!(parts(other, &funds).unwrap().admin.unwrap().same_as(
        &AccAddress::from_bech32(other).unwrap()
    ));
    assert!(matches!(parts(bad, &funds), Err(CoreError::DecodeAddress(AddressError::Decode))));
    assert!(matches!(parts("", &vec![]), Err(CoreError::Coins(CoinsError::Empty))));
    let no_denom = vec![("u".to_string(), "1".to_string())];
    assert!(matches!(
        parts("", &no_denom),
        Err(CoreError::Coin(CoinError::Denom(DenomError::Length)))
    ));
    let no_amount = vec![("uatom".to_string(), "one".to_string())];
    assert!(matches!(parts("", &no_amount), Err(CoreError::Coin(CoinError::Uint))));
    let both_wrong = vec![("u".to_string(), "one".to_string())];
    assert!(matches!(
        parts("", &both_wrong),
        Err(CoreError::Coin(CoinError::Denom(DenomError::Length)))
    ));
    let twice = vec![("uatom".to_string(), "1".to_string()), ("uatom".to_string(), "2".to_string())];
    assert!(matches!(parts("", &twice), Err(CoreError::Coins(CoinsError::Unsorted))));
    let zero = vec![("uatom".to_string(), "0".to_string())];
    assert!(matches!(parts("", &zero), Err(CoreError::Coins(CoinsError::ZeroAmount))));

    let execute = MsgExecuteContract::from_parts(good, other, vec![1], &funds).unwrap();
    assert!(execute.contract.same_as(&AccAddress::from_bech32(other).unwrap()));
    assert!(MsgExecuteContract::from_parts(good, bad, vec![1], &funds).is_err());
    assert!(MsgExecuteContract::from_parts(good, other, vec![1], &vec![]).is_err());
    let migrate = MsgMigrateContract::from_parts(good, other, 3, vec![1]).unwrap();
    assert_eq!(migrate.code_id, 3);
    assert!(MsgMigrateContract::from_parts("", other, 3, vec![1]).is_err());
    let update = MsgUpdateAdmin::from_parts(good, other, good).unwrap();
    assert!(update.new_admin.same_as(&AccAddress::from_bech32(other).unwrap()));
    assert!(MsgUpdateAdmin::from_parts(good, other, "x").is_err());
    assert!(MsgClearAdmin::from_parts(good, other).is_ok());
    assert!(MsgClearAdmin::from_parts(bad, other).is_err());
}

#[test]
fn parameters_from_the_wire() {
    let good = "cosmos1syavy2npfyt9tcncdtsdzf7kny9lh777pahuux";
    let p = Params::from_parts(Some((1, vec![good.to_string()])), 4).unwrap();
    assert_eq!(p.code_upload_access.permission, AccessType::Nobody);
    assert_eq!(p.code_upload_access.addresses.len(), 1);
    assert_eq!(p.instantiate_default_permission, AccessType::AnyOfAddresses);
    assert_eq!(p.max_contract_size, 1_000_000);
    assert_eq!(p.query_gas_limit, 3_000_000);
    assert_eq!(p.memory_cache_size, 40);
    let p = Params::from_parts(None, 9).unwrap();
    assert_eq!(p.code_upload_access.permission, AccessType::Unspecified);
    assert_eq!(p.instantiate_default_permission, AccessType::Unspecified);
    assert!(Params::from_parts(Some((1, vec!["x".to_string()])), 4).is_err());
}

#[test]
fn lists_of_addresses_and_funds() {
    let good = "cosmos1syavy2npfyt9tcncdtsdzf7kny9lh777pahuux".to_string();
    let other = "cosmos1z9det0w6aqr35d4pl3z0gp70wh6tt0q37jtv5g".to_string();
    let both = decode_addresses(&vec![good.clone(), other.clone()]).unwrap();
    assert_eq!(both.len(), 2);
    assert_eq!(encode_addresses(&both), Some(vec![good.clone(), other.clone()]));
    assert_eq!(duplicate_addresses(&both), both);
    assert!(decode_addresses(&vec![]).unwrap().is_empty());
    assert_eq!(
        decode_addresses(&vec![good.clone(), "osmo1syavy2npfyt9tcncdtsdzf7kny9lh777fxyv25".into()]),
        Err(AddressError::InvalidPrefix)
    );
    // The first address that is none decides.
    assert_eq!(
        decode_addresses(&vec!["x".into(), "osmo1syavy2npfyt9tcncdtsdzf7kny9lh777fxyv25".into()]),
        Err(AddressError::Decode)
    );
    let funds = decode_funds(&vec![
        ("abc".to_string(), "5".to_string()),
        ("uatom".to_string(), "1".to_string()),
    ])
    .unwrap();
    assert_eq!(funds.len(), 2);
    assert_eq!(
        decode_funds(&vec![("uatom".to_string(), "1".to_string()), ("abc".to_string(), "5".to_string())]),
        Err(CoreError::Coins(CoinsError::Unsorted))
    );
}

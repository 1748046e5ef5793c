use gears_wasm::engine::EngineOptions;
use gears_wasm::message::AccessConfig;
use gears_wasm::params::Params;
use gears_wasm::wasmvm::{
    checksum_from_vec, compile_cost, create_checksum, split_commas, store_code_cost, Analysis,
    WasmvmError, COST_PER_BYTE,
};

#[test]
fn checksum_is_sha256_of_valid_wasm() {
    let wasm = [0x00, 0x61, 0x73, 0x6d, 1, 0, 0, 0];
    let expected: [u8; 32] = [
        147, 164, 75, 187, 150, 199, 81, 33, 142, 76, 0, 212, 121, 228, 193, 67, 88, 18, 42, 56,
        154, 204, 161, 98, 5, 177, 228, 208, 220, 95, 148, 118,
    ];
    assert_eq!(create_checksum(&wasm), Ok(expected));
    assert_ne!(create_checksum(&[0x00, 0x61, 0x73, 0x6d]), Ok(expected));
}

#[test]
fn checksum_refuses_what_is_no_wasm() {
    assert_eq!(create_checksum(&[]), Err(WasmvmError::EmptyWasm));
    assert_eq!(create_checksum(&[0x00]), Err(WasmvmError::TooShort));
    assert_eq!(create_checksum(&[0x00, 0x61, 0x73]), Err(WasmvmError::TooShort));
    assert_eq!(create_checksum(&[0x00, 0x61, 0x73, 0x6e]), Err(WasmvmError::MissingMagic));
    assert_eq!(create_checksum(&[1, 0x61, 0x73, 0x6d, 0]), Err(WasmvmError::MissingMagic));
    assert_eq!(create_checksum(b"hello world"), Err(WasmvmError::MissingMagic));
}

#[test]
fn compile_costs() {
    assert_eq!(COST_PER_BYTE, 3 * 140_000);
    assert_eq!(compile_cost(0), 0);
    assert_eq!(compile_cost(1), 420_000);
    assert_eq!(compile_cost(10), 4_200_000);
    assert_eq!(compile_cost(usize::MAX), u64::MAX);
    assert_eq!(store_code_cost(10, 4_200_000), Ok(4_200_000));
    assert_eq!(store_code_cost(10, 4_199_999), Err(WasmvmError::OutOfGas));
    assert_eq!(store_code_cost(0, 0), Ok(0));
    assert_eq!(store_code_cost(usize::MAX, u64::MAX), Err(WasmvmError::OutOfGas));
}

#[test]
fn checksums_have_32_bytes() {
    assert_eq!(checksum_from_vec(vec![3; 32]), Ok([3u8; 32]));
    let mut counted = vec![0u8; 32];
    for (i, b) in counted.iter_mut().enumerate() {
        *b = i as u8;
    }
    assert_eq!(checksum_from_vec(counted.clone()).unwrap().to_vec(), counted);
    assert_eq!(checksum_from_vec(vec![3; 31]), Err(WasmvmError::InvalidChecksum));
    assert_eq!(checksum_from_vec(vec![3; 33]), Err(WasmvmError::InvalidChecksum));
    assert_eq!(checksum_from_vec(vec![]), Err(WasmvmError::InvalidChecksum));
}

#[test]
fn errors_in_words() {
    assert_eq!(WasmvmError::EmptyWasm.message(), "wasm bytes nil or empty");
    assert_eq!(WasmvmError::TooShort.message(), "wasm bytes shorter than 4 bytes");
    assert_eq!(
        WasmvmError::MissingMagic.message(),
        "wasm bytes do not start with Wasm magic number"
    );
    assert_eq!(WasmvmError::OutOfGas.message(), "out of gas");
    assert_eq!(WasmvmError::InvalidChecksum.message(), "invalid checksum length");
    assert_eq!(WasmvmError::Other.message(), "unimplemented");
}

#[test]
fn comma_lists() {
    assert_eq!(split_commas(""), Vec::<String>::new());
    assert_eq!(split_commas("a"), vec!["a"]);
    assert_eq!(split_commas("instantiate,execute,query"), vec!["instantiate", "execute", "query"]);
    assert_eq!(split_commas(","), vec!["", ""]);
    assert_eq!(split_commas("a,,b,"), vec!["a", "", "b", ""]);
    assert_eq!(split_commas("stäking,ibc"), vec!["stäking", "ibc"]);
}

#[test]
fn analysis_reports() {
    let a = Analysis::from_report(true, "instantiate,ibc_channel_open", "staking", Some(3));
    assert!(a.has_ibc_entry_points);
    assert_eq!(a.entrypoints, vec!["instantiate", "ibc_channel_open"]);
    assert_eq!(a.required_capabilities, vec!["staking"]);
    assert_eq!(a.contract_migrate_version, Some(3));
    let b = Analysis::from_report(false, "", "", None);
    assert!(b.entrypoints.is_empty() && b.required_capabilities.is_empty());
    assert_eq!(b.contract_migrate_version, None);
}

#[test]
fn engine_options() {
    let mut options = EngineOptions::default();
    assert_eq!(options.base_dir, "wasm_cache");
    assert!(options.capabilities.is_empty());
    assert_eq!(options.instance_memory_limit, 32);
    assert_eq!(options.memory_cache_size, 10);
    assert!(!options.debug);
    let params = Params {
        code_upload_access: AccessConfig::default(),
        max_contract_size: (1 << 32) + 5,
        memory_cache_size: 64,
        ..Params::default()
    };
    options.apply_params(&params);
    assert_eq!(options.memory_cache_size, 64);
    assert_eq!(options.instance_memory_limit, 5);
    assert_eq!(options.base_dir, "wasm_cache");
}

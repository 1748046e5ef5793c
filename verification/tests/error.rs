use gears_wasm::error::{TxError, VmErrorKind, WasmError};
use tendermint::abci::Code;

#[test]
fn abci_code_mapping() {
    assert_eq!(
        Code::from(WasmError::NotFound { kind: "contract" }.abci_code()),
        Code::from(5u32)
    );
    assert_eq!(
        Code::from(WasmError::Unauthorized { action: "execute" }.abci_code()),
        Code::from(4u32)
    );
    assert_eq!(
        Code::from(
            WasmError::InvalidRequest {
                reason: "bad".into()
            }
            .abci_code()
        ),
        Code::from(3u32)
    );
    let internal = WasmError::Internal {
        reason: "oops".into(),
    };
    assert_eq!(Code::from(internal.abci_code()), Code::from(1u32));
}

#[test]
fn display_messages() {
    let e = WasmError::Unauthorized { action: "execute" };
    assert!(e.message().contains("unauthorized"));
}

#[test]
fn every_error_has_its_code_and_words() {
    let compile = WasmError::from_vm(VmErrorKind::Compile, "no memory".to_string());
    assert_eq!(compile.abci_code(), 1);
    assert_eq!(compile.message(), "compilation failed for code 0: no memory");
    let checked = WasmError::from_vm(VmErrorKind::StaticValidation, "x".to_string());
    assert!(matches!(checked, WasmError::CompileErr { code_id: 0, .. }));
    let runtime = WasmError::from_vm(VmErrorKind::Other, "trap".to_string());
    assert_eq!(runtime.abci_code(), 1);
    assert_eq!(runtime.message(), "runtime error: trap");
    let numbered = WasmError::CompileErr { source: "bad".to_string(), code_id: 18446744073709551615 };
    assert_eq!(numbered.message(), "compilation failed for code 18446744073709551615: bad");
    assert_eq!(WasmError::NotFound { kind: "code" }.message(), "code not found");
    assert_eq!(WasmError::Unauthorized { action: "migrate" }.message(), "unauthorized: migrate");
    assert_eq!(
        WasmError::invalid_request("eof".to_string()).message(),
        "invalid request: eof"
    );
    assert_eq!(WasmError::internal("oops".to_string()).message(), "internal error: oops");
    assert_eq!(WasmError::internal("oops".to_string()).abci_code(), 1);
}

#[test]
fn errors_become_transaction_failures() {
    let e = WasmError::NotFound { kind: "contract" }.into_tx_error("wasm");
    assert_eq!(e.response_code(), 5);
    assert_eq!(e.response_message(), "contract not found");
    assert_eq!(e.response_codespace(), "wasm");
    let f = TxError::new("denied".to_string(), 4, "bank");
    assert_eq!(f.response_code(), 4);
    assert_eq!(f.response_message(), "denied");
    assert_eq!(f.response_codespace(), "bank");
}

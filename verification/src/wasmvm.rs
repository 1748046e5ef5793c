//! What the module needs to know of wasm byte code before it reaches the
//! virtual machine: its checksum, the cost of compiling it, and the
//! report of its analysis.

use vstd::prelude::*;

verus! {

/// The SHA-256 checksum that identifies stored code.
pub type Checksum = [u8; 32];

/// Raw wasm byte code.
pub type WasmCode = Vec<u8>;

/// The cost of compiling one byte of wasm code, in gas.
pub const COST_PER_BYTE: u64 = 420000;

/// The four bytes that every wasm module starts with: `\0asm`.
pub open spec fn wasm_magic() -> Seq<u8> {
    seq![0x00u8, 0x61u8, 0x73u8, 0x6du8]
}

/// The SHA-256 digest of `data`: 32 bytes.
pub uninterp spec fn sha256_digest(data: Seq<u8>) -> Seq<u8>;

/// Calls `sha2::Sha256::digest` (the `digest` of the trait `sha2::Digest`).
/// The contract gives the 32 bytes that it returns a name and claims
/// nothing else of them.
#[verifier::external_body]
fn sha256(data: &[u8]) -> (r: [u8; 32])
    ensures
        r@ == sha256_digest(data@),
{
    <sha2::Sha256 as sha2::Digest>::digest(data).into()
}

/// The cost of compiling `len` bytes of wasm code, or the largest number
/// where the cost is beyond it.
pub fn compile_cost(len: usize) -> (c: u64)
    ensures
        c == if COST_PER_BYTE * len <= u64::MAX {
            COST_PER_BYTE * len
        } else {
            u64::MAX as int
        },
{
    assert(COST_PER_BYTE * len <= 420000 * 0xffff_ffff_ffff_ffff) by (nonlinear_arith)
        requires
            COST_PER_BYTE == 420000,
            len <= 0xffff_ffff_ffff_ffff,
    ;
    let wide: u128 = COST_PER_BYTE as u128 * len as u128;
    if wide <= u64::MAX as u128 {
        wide as u64
    } else {
        u64::MAX
    }
}

/// Why wasm byte code was refused, or an operation of the virtual
/// machine failed.
#[derive(Clone, Copy, Debug, PartialEq, Eq, Structural)]
pub enum WasmvmError {
    /// There are no bytes.
    EmptyWasm,
    /// There are fewer than four bytes.
    TooShort,
    /// The bytes do not start with the wasm magic number.
    MissingMagic,
    /// The gas limit is below the cost of compiling the code.
    OutOfGas,
    /// A checksum has not 32 bytes.
    InvalidChecksum,
    /// Anything else.
    Other,
}

impl WasmvmError {
    /// The error in words.
    pub fn message(&self) -> (s: String)
        ensures
            s@ == match self {
                WasmvmError::EmptyWasm => "wasm bytes nil or empty"@,
                WasmvmError::TooShort => "wasm bytes shorter than 4 bytes"@,
                WasmvmError::MissingMagic => "wasm bytes do not start with Wasm magic number"@,
                WasmvmError::OutOfGas => "out of gas"@,
                WasmvmError::InvalidChecksum => "invalid checksum length"@,
                WasmvmError::Other => "unimplemented"@,
            },
    {
        match self {
            WasmvmError::EmptyWasm => String::from_str("wasm bytes nil or empty"),
            WasmvmError::TooShort => String::from_str("wasm bytes shorter than 4 bytes"),
            WasmvmError::MissingMagic => String::from_str(
                "wasm bytes do not start with Wasm magic number",
            ),
            WasmvmError::OutOfGas => String::from_str("out of gas"),
            WasmvmError::InvalidChecksum => String::from_str("invalid checksum length"),
            WasmvmError::Other => String::from_str("unimplemented"),
        }
    }
}

/// What [`create_checksum`] finds wrong with `wasm`, if anything.
pub open spec fn checksum_refusal(wasm: Seq<u8>) -> Option<WasmvmError> {
    if wasm.len() == 0 {
        Some(WasmvmError::EmptyWasm)
    } else if wasm.len() < 4 {
        Some(WasmvmError::TooShort)
    } else if wasm.subrange(0, 4) != wasm_magic() {
        Some(WasmvmError::MissingMagic)
    } else {
        None
    }
}

/// The checksum of wasm byte code: the SHA-256 digest of the bytes, which
/// must be there, be at least four, and start with the wasm magic number.
pub fn create_checksum(wasm: &[u8]) -> (r: Result<Checksum, WasmvmError>)
    ensures
        match r {
            Ok(sum) => checksum_refusal(wasm@) is None && sum@ == sha256_digest(wasm@),
            Err(e) => checksum_refusal(wasm@) == Some(e),
        },
{
    if wasm.len() == 0 {
        return Err(WasmvmError::EmptyWasm);
    }
    if wasm.len() < 4 {
        return Err(WasmvmError::TooShort);
    }
    if wasm[0] != 0x00 || wasm[1] != 0x61 || wasm[2] != 0x73 || wasm[3] != 0x6d {
        assert(wasm@.subrange(0, 4)[0] == wasm@[0]);
        assert(wasm@.subrange(0, 4)[1] == wasm@[1]);
        assert(wasm@.subrange(0, 4)[2] == wasm@[2]);
        assert(wasm@.subrange(0, 4)[3] == wasm@[3]);
        return Err(WasmvmError::MissingMagic);
    }
    assert(wasm@.subrange(0, 4) =~= wasm_magic());
    Ok(sha256(wasm))
}

/// The gas that storing `len` bytes of code takes from a budget of
/// `gas_limit`: the cost of compiling them, if the budget covers it.
pub fn store_code_cost(len: usize, gas_limit: u64) -> (r: Result<u64, WasmvmError>)
    ensures
        match r {
            Ok(cost) => cost == COST_PER_BYTE * len && cost <= gas_limit,
            Err(e) => COST_PER_BYTE * len > gas_limit && e is OutOfGas,
        },
{
    assert(COST_PER_BYTE * len <= 420000 * 0xffff_ffff_ffff_ffff) by (nonlinear_arith)
        requires
            COST_PER_BYTE == 420000,
            len <= 0xffff_ffff_ffff_ffff,
    ;
    let wide: u128 = COST_PER_BYTE as u128 * len as u128;
    if wide <= gas_limit as u128 {
        Ok(wide as u64)
    } else {
        Err(WasmvmError::OutOfGas)
    }
}

/// The checksum that the virtual machine handed back as a byte vector:
/// it must have 32 bytes.
pub fn checksum_from_vec(data: Vec<u8>) -> (r: Result<Checksum, WasmvmError>)
    ensures
        match r {
            Ok(sum) => data@.len() == 32 && sum@ == data@,
            Err(e) => data@.len() != 32 && e is InvalidChecksum,
        },
{
    if data.len() != 32 {
        return Err(WasmvmError::InvalidChecksum);
    }
    let mut sum: [u8; 32] = [0u8; 32];
    let mut i: usize = 0;
    while i < 32
        invariant
            0 <= i <= 32,
            data@.len() == 32,
            forall|j: int| 0 <= j < i ==> sum@[j] == data@[j],
        decreases 32 - i,
    {
        sum[i] = data[i];
        i = i + 1;
    }
    assert(sum@ =~= data@);
    Ok(sum)
}

/// The fields of a list that separates them by commas. The empty string
/// has one field, which is empty.
pub open spec fn comma_fields(s: Seq<char>) -> Seq<Seq<char>>
    decreases s.len(),
{
    if s.len() == 0 {
        seq![Seq::<char>::empty()]
    } else if s.last() == ',' {
        comma_fields(s.drop_last()).push(Seq::empty())
    } else {
        let before = comma_fields(s.drop_last());
        before.update(before.len() - 1, before.last().push(s.last()))
    }
}

/// The items of a list that separates them by commas; the empty string
/// lists nothing.
pub open spec fn comma_list(s: Seq<char>) -> Seq<Seq<char>> {
    if s.len() == 0 {
        Seq::empty()
    } else {
        comma_fields(s)
    }
}

/// The strings of a list by their views.
pub open spec fn string_models(s: Seq<String>) -> Seq<Seq<char>> {
    Seq::new(s.len(), |i: int| s[i]@)
}

/// The items of the list `s`, which separates them by commas.
pub fn split_commas(s: &str) -> (r: Vec<String>)
    ensures
        string_models(r@) == comma_list(s@),
{
    let n = s.unicode_len();
    let mut r: Vec<String> = Vec::new();
    if n == 0 {
        assert(string_models(r@) =~= comma_list(s@));
        return r;
    }
    let mut start: usize = 0;
    let mut i: usize = 0;
    proof {
        assert(s@.take(0) =~= Seq::<char>::empty());
        assert(string_models(r@).push(s@.subrange(0, 0)) =~= seq![Seq::<char>::empty()]);
    }
    // The fields before the one under way are in `r`; the one under way
    // starts at `start`.
    while i < n
        invariant
            n == s@.len(),
            0 <= start <= i <= n,
            comma_fields(s@.take(i as int)) == string_models(r@).push(
                s@.subrange(start as int, i as int),
            ),
        decreases n - i,
    {
        let c = s.get_char(i);
        let ghost fields = string_models(r@);
        let ghost current = s@.subrange(start as int, i as int);
        proof {
            assert(s@.take(i + 1).drop_last() =~= s@.take(i as int));
            assert(s@.take(i + 1).last() == c);
        }
        if c == ',' {
            let field = String::from_str(s.substring_char(start, i));
            r.push(field);
            start = i + 1;
            proof {
                assert(string_models(r@) =~= fields.push(current));
                assert(s@.subrange(start as int, i + 1) =~= Seq::<char>::empty());
            }
        } else {
            proof {
                let before = fields.push(current);
                assert(before.update(before.len() - 1, before.last().push(c)) =~= fields.push(
                    s@.subrange(start as int, i + 1),
                )) by {
                    assert(current.push(c) =~= s@.subrange(start as int, i + 1));
                }
            }
        }
        i = i + 1;
    }
    let ghost fields = string_models(r@);
    let field = String::from_str(s.substring_char(start, n));
    r.push(field);
    proof {
        assert(s@.take(n as int) =~= s@);
        assert(string_models(r@) =~= fields.push(s@.subrange(start as int, n as int)));
    }
    r
}

/// What the analysis of stored code reports.
#[derive(Debug, PartialEq, Eq)]
pub struct Analysis {
    /// Whether the contract exports all the entry points that IBC needs.
    pub has_ibc_entry_points: bool,
    /// The entry points that the contract exports.
    pub entrypoints: Vec<String>,
    /// The capabilities that the contract requires.
    pub required_capabilities: Vec<String>,
    /// The migrate version of the contract, where it states one.
    pub contract_migrate_version: Option<u64>,
}

impl Analysis {
    /// The report that the virtual machine gives as two lists separated
    /// by commas, a flag and an optional version.
    pub fn from_report(
        has_ibc_entry_points: bool,
        entrypoints: &str,
        required_capabilities: &str,
        contract_migrate_version: Option<u64>,
    ) -> (a: Analysis)
        ensures
            a.has_ibc_entry_points == has_ibc_entry_points,
            string_models(a.entrypoints@) == comma_list(entrypoints@),
            string_models(a.required_capabilities@) == comma_list(required_capabilities@),
            a.contract_migrate_version == contract_migrate_version,
    {
        Analysis {
            has_ibc_entry_points,
            entrypoints: split_commas(entrypoints),
            required_capabilities: split_commas(required_capabilities),
            contract_migrate_version,
        }
    }
}

} // verus!

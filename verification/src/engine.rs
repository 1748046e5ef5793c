//! The execution engine: the collaborator that holds and runs wasm code.
//! The module knows it by a small contract and by the options it starts
//! with.

use vstd::prelude::*;
use crate::error::WasmError;
use crate::params::Params;
use crate::wasmvm::{Analysis, Checksum};

verus! {

/// What the engine offers to the keeper. What an engine answers is its
/// own; the keeper hands its answers on and says of them what the
/// engine says.
pub trait WasmEngine {
    /// What the engine says of storing code: whether `r` can be its
    /// answer to the byte code `wasm`. An engine that says nothing of its
    /// answers leaves this as it is.
    open spec fn stored(&self, wasm: Seq<u8>, r: Result<Checksum, WasmError>) -> bool {
        true
    }

    /// Stores validated wasm byte code and returns its checksum.
    fn store_code(&self, wasm: &[u8]) -> (r: Result<Checksum, WasmError>)
        ensures
            self.stored(wasm@, r),
    ;

    /// Analyses code that was stored before.
    fn analyze_code(&self, checksum: &Checksum) -> Result<Analysis, WasmError>;

    /// Tells the engine that the module's parameters have changed.
    fn on_params_change(&self, old: &Params, new: &Params) -> Result<(), WasmError>;
}

/// The options that an engine starts with.
#[derive(Debug)]
pub struct EngineOptions {
    /// The directory for compiled modules and caches.
    pub base_dir: String,
    /// The capabilities that contracts may require.
    pub capabilities: Vec<String>,
    /// The memory that one contract instance may use, in MiB.
    pub instance_memory_limit: u32,
    /// The size of the cache of compiled contracts in memory, in MiB.
    pub memory_cache_size: u32,
    /// Whether the debug output of contracts is printed.
    pub debug: bool,
}

impl EngineOptions {
    /// Takes over what new parameters say of the engine: the size of the
    /// cache, and as the memory limit the largest contract size, cut to
    /// 32 bits.
    pub fn apply_params(&mut self, new: &Params)
        ensures
            final(self).memory_cache_size == new.memory_cache_size,
            final(self).instance_memory_limit == new.max_contract_size % 0x1_0000_0000,
            final(self).base_dir == old(self).base_dir,
            final(self).capabilities == old(self).capabilities,
            final(self).debug == old(self).debug,
    {
        self.memory_cache_size = new.memory_cache_size;
        self.instance_memory_limit = (new.max_contract_size % 0x1_0000_0000) as u32;
    }
}

impl Default for EngineOptions {
    fn default() -> (o: EngineOptions)
        ensures
            o.base_dir@ == "wasm_cache"@,
            o.capabilities@.len() == 0,
            o.instance_memory_limit == 32,
            o.memory_cache_size == 10,
            !o.debug,
    {
        EngineOptions {
            base_dir: String::from_str("wasm_cache"),
            capabilities: Vec::new(),
            instance_memory_limit: 32,
            memory_cache_size: 10,
            debug: false,
        }
    }
}

} // verus!

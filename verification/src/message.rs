//! The transaction messages of the wasm module, with the checks that need
//! no state.

use vstd::prelude::*;
use crate::address::{AccAddress, AddressError, address_of, bech32_decoding, bech32_encoding};
use crate::coin::{CoinError, CoinModel, CoinsError, UnsignedCoin, UnsignedCoins, coin_models,
    coin_of, coins_in_order};
use crate::wasmvm::string_models;

verus! {

/// Who may do something with a contract's code.
#[derive(Clone, Copy, Debug, PartialEq, Eq, Structural)]
pub enum AccessType {
    /// No permission was given.
    Unspecified,
    /// No account.
    Nobody,
    /// Any account.
    Everybody,
    /// One of the addresses of a list.
    AnyOfAddresses,
}

impl AccessType {
    /// The number that stands for the access type on the wire and in the
    /// parameter store.
    pub open spec fn number(self) -> i32 {
        match self {
            AccessType::Unspecified => 0,
            AccessType::Nobody => 1,
            AccessType::Everybody => 3,
            AccessType::AnyOfAddresses => 4,
        }
    }

    /// The access type that a number stands for; a number that stands
    /// for none is taken as `Unspecified`.
    pub open spec fn of_number(n: int) -> AccessType {
        if n == 1 {
            AccessType::Nobody
        } else if n == 3 {
            AccessType::Everybody
        } else if n == 4 {
            AccessType::AnyOfAddresses
        } else {
            AccessType::Unspecified
        }
    }

    /// The number that stands for the access type.
    pub fn to_i32(self) -> (n: i32)
        ensures
            n == self.number(),
    {
        match self {
            AccessType::Unspecified => 0,
            AccessType::Nobody => 1,
            AccessType::Everybody => 3,
            AccessType::AnyOfAddresses => 4,
        }
    }

    /// The access type that `n` stands for.
    pub fn from_i32(n: i32) -> (t: AccessType)
        ensures
            t == AccessType::of_number(n as int),
    {
        match n {
            1 => AccessType::Nobody,
            3 => AccessType::Everybody,
            4 => AccessType::AnyOfAddresses,
            _ => AccessType::Unspecified,
        }
    }
}

/// Converting to a number and back gives the access type again.
pub proof fn lemma_access_type_round_trip(t: AccessType)
    ensures
        AccessType::of_number(t.number() as int) == t,
{
}

/// Why a message was refused before it met any state.
#[derive(Clone, Copy, Debug, PartialEq, Eq, Structural)]
pub enum ValidationError {
    /// An access configuration has the type `Unspecified`.
    AccessTypeUnspecified,
    /// An access configuration of the type `AnyOfAddresses` lists no
    /// address.
    AddressesRequired,
    /// There is no wasm byte code.
    EmptyWasm,
    /// The code id is 0.
    CodeIdRequired,
    /// The label is empty or consists of white space.
    EmptyLabel,
    /// The message for the contract is empty.
    EmptyMessage,
    /// The new admin is the sender.
    SameAdmin,
}

impl ValidationError {
    /// The error in words.
    pub fn message(&self) -> (s: String)
        ensures
            s@ == match self {
                ValidationError::AccessTypeUnspecified => "access type unspecified"@,
                ValidationError::AddressesRequired => "addresses required for AnyOfAddresses"@,
                ValidationError::EmptyWasm => "wasm byte code cannot be empty"@,
                ValidationError::CodeIdRequired => "code id is required"@,
                ValidationError::EmptyLabel => "label cannot be empty"@,
                ValidationError::EmptyMessage => "execute message cannot be empty"@,
                ValidationError::SameAdmin => "new admin is the same as current"@,
            },
    {
        match self {
            ValidationError::AccessTypeUnspecified => String::from_str("access type unspecified"),
            ValidationError::AddressesRequired => String::from_str(
                "addresses required for AnyOfAddresses",
            ),
            ValidationError::EmptyWasm => String::from_str("wasm byte code cannot be empty"),
            ValidationError::CodeIdRequired => String::from_str("code id is required"),
            ValidationError::EmptyLabel => String::from_str("label cannot be empty"),
            ValidationError::EmptyMessage => String::from_str("execute message cannot be empty"),
            ValidationError::SameAdmin => String::from_str("new admin is the same as current"),
        }
    }
}

/// The addresses of a list by their bytes.
pub open spec fn address_models(s: Seq<AccAddress>) -> Seq<Seq<u8>> {
    Seq::new(s.len(), |i: int| s[i]@)
}

/// A copy of a list of addresses.
pub fn duplicate_addresses(addresses: &Vec<AccAddress>) -> (r: Vec<AccAddress>)
    ensures
        address_models(r@) == address_models(addresses@),
{
    let mut r: Vec<AccAddress> = Vec::new();
    let mut i: usize = 0;
    while i < addresses.len()
        invariant
            0 <= i <= addresses@.len(),
            r@.len() == i,
            forall|j: int| 0 <= j < i ==> address_models(r@)[j] == address_models(addresses@)[j],
        decreases addresses@.len() - i,
    {
        r.push(addresses[i].duplicate());
        i = i + 1;
    }
    assert(address_models(r@) =~= address_models(addresses@));
    r
}

/// Why what came over the wire is no message.
#[derive(Clone, Copy, Debug, PartialEq, Eq)]
pub enum CoreError {
    /// An address is none.
    DecodeAddress(AddressError),
    /// A coin is none.
    Coin(CoinError),
    /// The coins are not in order.
    Coins(CoinsError),
}

/// The address that a bech32 string stands for, or why it stands for
/// none.
pub open spec fn decoded_address(s: Seq<char>) -> Result<Seq<u8>, AddressError> {
    address_of(bech32_decoding(s))
}

/// The addresses that a list of bech32 strings stands for, or what is
/// wrong with the first that stands for none.
pub open spec fn decoded_addresses(texts: Seq<Seq<char>>) -> Result<Seq<Seq<u8>>, AddressError>
    decreases texts.len(),
{
    if texts.len() == 0 {
        Ok(Seq::empty())
    } else {
        match decoded_addresses(texts.drop_last()) {
            Err(e) => Err(e),
            Ok(done) => match decoded_address(texts.last()) {
                Ok(a) => Ok(done.push(a)),
                Err(e) => Err(e),
            },
        }
    }
}

/// The bech32 strings of a list of addresses, if each has one.
pub open spec fn address_texts(addresses: Seq<Seq<u8>>) -> Option<Seq<Seq<char>>> {
    if forall|i: int|
        0 <= i < addresses.len() ==> bech32_encoding("cosmos"@, #[trigger] addresses[i]) is Some {
        Some(Seq::new(addresses.len(), |i: int| bech32_encoding("cosmos"@, addresses[i])->0))
    } else {
        None
    }
}

/// The addresses that a list of bech32 strings stands for: see
/// [`decoded_addresses`].
pub fn decode_addresses(texts: &Vec<String>) -> (r: Result<Vec<AccAddress>, AddressError>)
    ensures
        match (r, decoded_addresses(string_models(texts@))) {
            (Ok(v), Ok(m)) => address_models(v@) == m,
            (Err(e), Err(f)) => e == f,
            _ => false,
        },
{
    let ghost all = string_models(texts@);
    let mut found: Vec<AccAddress> = Vec::new();
    let mut i: usize = 0;
    assert(all.take(0) =~= Seq::<Seq<char>>::empty());
    assert(address_models(found@) =~= Seq::<Seq<u8>>::empty());
    while i < texts.len()
        invariant
            0 <= i <= texts@.len(),
            all == string_models(texts@),
            decoded_addresses(all.take(i as int)) == Ok::<Seq<Seq<u8>>, AddressError>(
                address_models(found@),
            ),
        decreases texts@.len() - i,
    {
        proof {
            assert(all.take(i + 1).drop_last() =~= all.take(i as int));
            assert(all.take(i + 1).last() == texts@[i as int]@);
        }
        match AccAddress::from_bech32(texts[i].as_str()) {
            Ok(a) => {
                let ghost before = address_models(found@);
                found.push(a);
                assert(address_models(found@) =~= before.push(a@));
            },
            Err(e) => {
                proof {
                    lemma_decoding_stops(all, i + 1);
                }
                return Err(e);
            },
        }
        i = i + 1;
    }
    assert(all.take(i as int) =~= all);
    Ok(found)
}

/// Once an address of a list is none, the list stands for no addresses,
/// and the error is that of the first that is none.
proof fn lemma_decoding_stops(texts: Seq<Seq<char>>, n: int)
    requires
        0 <= n <= texts.len(),
        decoded_addresses(texts.take(n)) is Err,
    ensures
        decoded_addresses(texts) == decoded_addresses(texts.take(n)),
    decreases texts.len() - n,
{
    if n == texts.len() {
        assert(texts.take(n) =~= texts);
    } else {
        assert(texts.take(n + 1).drop_last() =~= texts.take(n));
        lemma_decoding_stops(texts, n + 1);
    }
}

/// The bech32 strings of a list of addresses. Each address has one.
pub fn encode_addresses(addresses: &Vec<AccAddress>) -> (r: Option<Vec<String>>)
    ensures
        r matches Some(v) && address_texts(address_models(addresses@)) == Some(
            string_models(v@),
        ),
{
    let ghost all = address_models(addresses@);
    let mut texts: Vec<String> = Vec::new();
    let mut i: usize = 0;
    while i < addresses.len()
        invariant
            0 <= i <= addresses@.len(),
            all == address_models(addresses@),
            texts@.len() == i,
            forall|j: int|
                0 <= j < i ==> bech32_encoding("cosmos"@, #[trigger] all[j]) == Some(texts@[j]@),
        decreases addresses@.len() - i,
    {
        match addresses[i].to_bech32() {
            Some(s) => {
                texts.push(s);
            },
            None => {
                return None;
            },
        }
        i = i + 1;
    }
    proof {
        assert(string_models(texts@) =~= address_texts(all)->0);
    }
    Some(texts)
}

/// Pairs of strings by their views.
pub open spec fn pair_models(parts: Seq<(String, String)>) -> Seq<(Seq<char>, Seq<char>)> {
    Seq::new(parts.len(), |i: int| (parts[i].0@, parts[i].1@))
}

/// The coins that pairs of a denomination and an amount stand for as
/// they come over the wire, or what is wrong with the first pair that
/// stands for none.
pub open spec fn decoded_coins(parts: Seq<(Seq<char>, Seq<char>)>) -> Result<
    Seq<CoinModel>,
    CoinError,
>
    decreases parts.len(),
{
    if parts.len() == 0 {
        Ok(Seq::empty())
    } else {
        match decoded_coins(parts.drop_last()) {
            Err(e) => Err(e),
            Ok(done) => match coin_of(parts.last().0, parts.last().1) {
                Ok(c) => Ok(done.push(c)),
                Err(e) => Err(e),
            },
        }
    }
}

proof fn lemma_coins_stop(parts: Seq<(Seq<char>, Seq<char>)>, n: int)
    requires
        0 <= n <= parts.len(),
        decoded_coins(parts.take(n)) is Err,
    ensures
        decoded_coins(parts) == decoded_coins(parts.take(n)),
    decreases parts.len() - n,
{
    if n == parts.len() {
        assert(parts.take(n) =~= parts);
    } else {
        assert(parts.take(n + 1).drop_last() =~= parts.take(n));
        lemma_coins_stop(parts, n + 1);
    }
}

/// Whether `r` is what the funds `parts` stand for as they come over
/// the wire: the coins, if each pair is a coin and the coins are in
/// order, and else what is wrong, with the first pair that is no coin or
/// with the order.
pub open spec fn is_decoded_funds(
    parts: Seq<(Seq<char>, Seq<char>)>,
    r: Result<UnsignedCoins, CoreError>,
) -> bool {
    match decoded_coins(parts) {
        Err(e) => r matches Err(CoreError::Coin(f)) && f == e,
        Ok(m) => if coins_in_order(m) {
            r matches Ok(c) && c@ == m
        } else {
            r matches Err(CoreError::Coins(e)) && (e is Empty <==> m.len() == 0)
        },
    }
}

/// The funds that pairs of a denomination and an amount stand for: see
/// [`is_decoded_funds`].
pub fn decode_funds(parts: &Vec<(String, String)>) -> (r: Result<UnsignedCoins, CoreError>)
    ensures
        is_decoded_funds(pair_models(parts@), r),
{
    let ghost all = pair_models(parts@);
    let mut coins: Vec<UnsignedCoin> = Vec::new();
    let mut i: usize = 0;
    assert(all.take(0) =~= Seq::<(Seq<char>, Seq<char>)>::empty());
    assert(coin_models(coins@) =~= Seq::<CoinModel>::empty());
    while i < parts.len()
        invariant
            0 <= i <= parts@.len(),
            all == pair_models(parts@),
            decoded_coins(all.take(i as int)) == Ok::<Seq<CoinModel>, CoinError>(
                coin_models(coins@),
            ),
        decreases parts@.len() - i,
    {
        proof {
            assert(all.take(i + 1).drop_last() =~= all.take(i as int));
            assert(all.take(i + 1).last() == (parts@[i as int].0@, parts@[i as int].1@));
        }
        match UnsignedCoin::from_wire(parts[i].0.as_str(), parts[i].1.as_str()) {
            Ok(c) => {
                let ghost before = coin_models(coins@);
                coins.push(c);
                assert(coin_models(coins@) =~= before.push(c@));
            },
            Err(e) => {
                proof {
                    lemma_coins_stop(all, i + 1);
                }
                return Err(CoreError::Coin(e));
            },
        }
        i = i + 1;
    }
    assert(all.take(i as int) =~= all);
    match UnsignedCoins::new(coins) {
        Ok(c) => Ok(c),
        Err(e) => Err(CoreError::Coins(e)),
    }
}

/// Who may instantiate a contract from some code.
#[derive(Debug, PartialEq)]
pub struct AccessConfig {
    /// The kind of permission.
    pub permission: AccessType,
    /// The addresses that are allowed where the kind is `AnyOfAddresses`.
    pub addresses: Vec<AccAddress>,
}

/// What an access configuration says.
pub struct AccessConfigModel {
    pub permission: AccessType,
    pub addresses: Seq<Seq<u8>>,
}

impl AccessConfigModel {
    /// What [`AccessConfig::validate_basic`] finds.
    pub open spec fn check(self) -> Result<(), ValidationError> {
        match self.permission {
            AccessType::Unspecified => Err(ValidationError::AccessTypeUnspecified),
            AccessType::Nobody | AccessType::Everybody => Ok(()),
            AccessType::AnyOfAddresses => if self.addresses.len() == 0 {
                Err(ValidationError::AddressesRequired)
            } else {
                Ok(())
            },
        }
    }
}

impl AccessConfig {
    /// What the configuration says.
    pub open spec fn view(&self) -> AccessConfigModel {
        AccessConfigModel {
            permission: self.permission,
            addresses: address_models(self.addresses@),
        }
    }

    /// The configuration that nothing was said about: `Unspecified`, with
    /// no addresses.
    pub fn unspecified() -> (c: AccessConfig)
        ensures
            c@ == (AccessConfigModel { permission: AccessType::Unspecified, addresses: Seq::empty() }),
    {
        let c = AccessConfig { permission: AccessType::Unspecified, addresses: Vec::new() };
        assert(address_models(c.addresses@) =~= Seq::empty());
        c
    }

    /// The configuration that a number and bech32 strings stand for as
    /// they come over the wire. Each string must stand for an address;
    /// a number that stands for no access type is taken as
    /// `Unspecified`.
    pub fn from_parts(permission: i32, addresses: &Vec<String>) -> (r: Result<
        AccessConfig,
        CoreError,
    >)
        ensures
            match (r, decoded_addresses(string_models(addresses@))) {
                (Ok(c), Ok(found)) => c@ == (AccessConfigModel {
                    permission: AccessType::of_number(permission as int),
                    addresses: found,
                }),
                (Err(CoreError::DecodeAddress(e)), Err(f)) => e == f,
                _ => false,
            },
    {
        match decode_addresses(addresses) {
            Ok(found) => Ok(
                AccessConfig { permission: AccessType::from_i32(permission), addresses: found },
            ),
            Err(e) => Err(CoreError::DecodeAddress(e)),
        }
    }

    /// The number of the access type and the bech32 strings of the
    /// addresses, as they go over the wire.
    pub fn to_parts(&self) -> (r: Option<(i32, Vec<String>)>)
        ensures
            r matches Some((n, texts)) && n == self.permission.number() && address_texts(
                self@.addresses,
            ) == Some(string_models(texts@)),
    {
        match encode_addresses(&self.addresses) {
            Some(texts) => Some((self.permission.to_i32(), texts)),
            None => None,
        }
    }

    /// Checks the configuration by itself: the type must be given, and
    /// `AnyOfAddresses` must come with an address.
    pub fn validate_basic(&self) -> (r: Result<(), ValidationError>)
        ensures
            r == self@.check(),
    {
        match self.permission {
            AccessType::Unspecified => Err(ValidationError::AccessTypeUnspecified),
            AccessType::Nobody | AccessType::Everybody => Ok(()),
            AccessType::AnyOfAddresses => {
                if self.addresses.len() == 0 {
                    Err(ValidationError::AddressesRequired)
                } else {
                    Ok(())
                }
            },
        }
    }

    /// A copy of the configuration.
    pub fn duplicate(&self) -> (c: AccessConfig)
        ensures
            c@ == self@,
    {
        AccessConfig {
            permission: self.permission,
            addresses: duplicate_addresses(&self.addresses),
        }
    }
}

impl Clone for AccessConfig {
    fn clone(&self) -> (c: AccessConfig)
        ensures
            c@ == self@,
    {
        self.duplicate()
    }
}

impl Default for AccessConfig {
    fn default() -> (c: AccessConfig)
        ensures
            c@ == (AccessConfigModel { permission: AccessType::Unspecified, addresses: Seq::empty() }),
    {
        AccessConfig::unspecified()
    }
}

/// An optional access configuration by what it says.
pub open spec fn permission_model(p: Option<AccessConfig>) -> Option<AccessConfigModel> {
    match p {
        Some(c) => Some(c@),
        None => None,
    }
}

/// Uploads wasm byte code.
#[derive(Debug, PartialEq)]
pub struct MsgStoreCode {
    /// The account that uploads, and signs.
    pub sender: AccAddress,
    /// The wasm byte code, raw or gzip compressed.
    pub wasm_byte_code: Vec<u8>,
    /// Who may instantiate the code, where the sender says so.
    pub instantiate_permission: Option<AccessConfig>,
}

impl MsgStoreCode {
    /// What [`MsgStoreCode::validate_basic`] finds.
    pub open spec fn check(&self) -> Result<(), ValidationError> {
        if self.wasm_byte_code@.len() == 0 {
            Err(ValidationError::EmptyWasm)
        } else {
            match self.instantiate_permission {
                Some(c) => c@.check(),
                None => Ok(()),
            }
        }
    }

    /// The message that the fields stand for as they come over the
    /// wire: the sender must be an address, and so must each address of
    /// a permission that is given.
    pub fn from_parts(
        sender: &str,
        wasm_byte_code: Vec<u8>,
        instantiate_permission: Option<(i32, Vec<String>)>,
    ) -> (r: Result<MsgStoreCode, CoreError>)
        ensures
            match decoded_address(sender@) {
                Err(e) => r matches Err(CoreError::DecodeAddress(f)) && f == e,
                Ok(a) => match instantiate_permission {
                    None => r matches Ok(m) && m.sender@ == a && m.wasm_byte_code
                        == wasm_byte_code && m.instantiate_permission is None,
                    Some((n, texts)) => match decoded_addresses(string_models(texts@)) {
                        Err(e) => r matches Err(CoreError::DecodeAddress(f)) && f == e,
                        Ok(found) => r matches Ok(m) && m.sender@ == a && m.wasm_byte_code
                            == wasm_byte_code && permission_model(m.instantiate_permission)
                            == Some(
                            AccessConfigModel {
                                permission: AccessType::of_number(n as int),
                                addresses: found,
                            },
                        ),
                    },
                },
            },
    {
        let sender = match AccAddress::from_bech32(sender) {
            Ok(a) => a,
            Err(e) => {
                return Err(CoreError::DecodeAddress(e));
            },
        };
        let instantiate_permission = match instantiate_permission {
            Some((n, texts)) => match AccessConfig::from_parts(n, &texts) {
                Ok(c) => Some(c),
                Err(e) => {
                    return Err(e);
                },
            },
            None => None,
        };
        Ok(MsgStoreCode { sender, wasm_byte_code, instantiate_permission })
    }

    /// Checks the message by itself: there must be byte code, and a
    /// permission that is given must be valid.
    pub fn validate_basic(&self) -> (r: Result<(), ValidationError>)
        ensures
            r == self.check(),
    {
        if self.wasm_byte_code.len() == 0 {
            return Err(ValidationError::EmptyWasm);
        }
        match &self.instantiate_permission {
            Some(cfg) => cfg.validate_basic(),
            None => Ok(()),
        }
    }
}

/// Whether a character is white space, as Unicode defines it.
pub open spec fn is_white_space(c: char) -> bool {
    let n = c as u32;
    ||| 0x09 <= n <= 0x0d
    ||| n == 0x20
    ||| n == 0x85
    ||| n == 0xa0
    ||| n == 0x1680
    ||| 0x2000 <= n <= 0x200a
    ||| n == 0x2028
    ||| n == 0x2029
    ||| n == 0x202f
    ||| n == 0x205f
    ||| n == 0x3000
}

/// Whether a string is empty or consists of white space.
pub open spec fn is_blank(s: Seq<char>) -> bool {
    forall|i: int| 0 <= i < s.len() ==> is_white_space(#[trigger] s[i])
}

fn white_space(c: char) -> (r: bool)
    ensures
        r == is_white_space(c),
{
    let n: u32 = c as u32;
    (0x09 <= n && n <= 0x0d) || n == 0x20 || n == 0x85 || n == 0xa0 || n == 0x1680 || (0x2000 <= n
        && n <= 0x200a) || n == 0x2028 || n == 0x2029 || n == 0x202f || n == 0x205f || n == 0x3000
}

/// Whether `s` is empty or consists of white space.
pub fn blank(s: &str) -> (r: bool)
    ensures
        r == is_blank(s@),
{
    let n = s.unicode_len();
    let mut i: usize = 0;
    while i < n
        invariant
            n == s@.len(),
            0 <= i <= n,
            forall|j: int| 0 <= j < i ==> is_white_space(#[trigger] s@[j]),
        decreases n - i,
    {
        if !white_space(s.get_char(i)) {
            return false;
        }
        i = i + 1;
    }
    true
}

/// Instantiates a contract from stored code.
#[derive(Debug, PartialEq)]
pub struct MsgInstantiateContract {
    /// The account that instantiates, and signs.
    pub sender: AccAddress,
    /// The account that may migrate the contract, if any.
    pub admin: Option<AccAddress>,
    /// The code to instantiate.
    pub code_id: u64,
    /// A name for the contract.
    pub label: String,
    /// The message for the contract, as JSON.
    pub msg: Vec<u8>,
    /// The coins that go to the contract.
    pub funds: UnsignedCoins,
}

impl MsgInstantiateContract {
    /// What [`MsgInstantiateContract::validate_basic`] finds.
    pub open spec fn check(&self) -> Result<(), ValidationError> {
        if self.code_id == 0 {
            Err(ValidationError::CodeIdRequired)
        } else if is_blank(self.label@) {
            Err(ValidationError::EmptyLabel)
        } else {
            Ok(())
        }
    }

    /// The message that the fields stand for as they come over the
    /// wire: the sender must be an address, the admin must be one or
    /// empty, which stands for none, and the funds must be coins in
    /// order.
    pub fn from_parts(
        sender: &str,
        admin: &str,
        code_id: u64,
        label: String,
        msg: Vec<u8>,
        funds: &Vec<(String, String)>,
    ) -> (r: Result<MsgInstantiateContract, CoreError>)
        ensures
            match decoded_address(sender@) {
                Err(e) => r matches Err(CoreError::DecodeAddress(f)) && f == e,
                Ok(a) => if admin@.len() > 0 && decoded_address(admin@) is Err {
                    r matches Err(CoreError::DecodeAddress(f)) && Err::<Seq<u8>, AddressError>(f)
                        == decoded_address(admin@)
                } else {
                    match r {
                        Ok(m) => {
                            &&& m.sender@ == a
                            &&& match m.admin {
                                Some(b) => admin@.len() > 0 && decoded_address(admin@) == Ok::<
                                    Seq<u8>,
                                    AddressError,
                                >(b@),
                                None => admin@.len() == 0,
                            }
                            &&& m.code_id == code_id
                            &&& m.label == label
                            &&& m.msg == msg
                            &&& is_decoded_funds(
                                pair_models(funds@),
                                Ok::<UnsignedCoins, CoreError>(m.funds),
                            )
                        },
                        Err(e) => is_decoded_funds(
                            pair_models(funds@),
                            Err::<UnsignedCoins, CoreError>(e),
                        ),
                    }
                },
            },
    {
        let sender = match AccAddress::from_bech32(sender) {
            Ok(a) => a,
            Err(e) => {
                return Err(CoreError::DecodeAddress(e));
            },
        };
        let admin = if admin.unicode_len() == 0 {
            None
        } else {
            match AccAddress::from_bech32(admin) {
                Ok(a) => Some(a),
                Err(e) => {
                    return Err(CoreError::DecodeAddress(e));
                },
            }
        };
        let funds = match decode_funds(funds) {
            Ok(f) => f,
            Err(e) => {
                return Err(e);
            },
        };
        Ok(MsgInstantiateContract { sender, admin, code_id, label, msg, funds })
    }

    /// Checks the message by itself: the code id must not be 0, and the
    /// label must say something.
    pub fn validate_basic(&self) -> (r: Result<(), ValidationError>)
        ensures
            r == self.check(),
    {
        if self.code_id == 0 {
            return Err(ValidationError::CodeIdRequired);
        }
        if blank(self.label.as_str()) {
            return Err(ValidationError::EmptyLabel);
        }
        Ok(())
    }
}

/// Calls a contract.
#[derive(Debug, PartialEq)]
pub struct MsgExecuteContract {
    /// The account that calls, and signs.
    pub sender: AccAddress,
    /// The contract.
    pub contract: AccAddress,
    /// The message for the contract, as JSON.
    pub msg: Vec<u8>,
    /// The coins that go to the contract.
    pub funds: UnsignedCoins,
}

impl MsgExecuteContract {
    /// What [`MsgExecuteContract::validate_basic`] finds.
    pub open spec fn check(&self) -> Result<(), ValidationError> {
        if self.msg@.len() == 0 {
            Err(ValidationError::EmptyMessage)
        } else {
            Ok(())
        }
    }

    /// The message that the fields stand for as they come over the
    /// wire: the sender and the contract must be addresses, and the
    /// funds coins in order.
    pub fn from_parts(sender: &str, contract: &str, msg: Vec<u8>, funds: &Vec<(String, String)>)
        -> (r: Result<MsgExecuteContract, CoreError>)
        ensures
            match (decoded_address(sender@), decoded_address(contract@)) {
                (Err(e), _) => r matches Err(CoreError::DecodeAddress(f)) && f == e,
                (Ok(_), Err(e)) => r matches Err(CoreError::DecodeAddress(f)) && f == e,
                (Ok(a), Ok(b)) => match r {
                    Ok(m) => m.sender@ == a && m.contract@ == b && m.msg == msg
                        && is_decoded_funds(
                        pair_models(funds@),
                        Ok::<UnsignedCoins, CoreError>(m.funds),
                    ),
                    Err(e) => is_decoded_funds(
                        pair_models(funds@),
                        Err::<UnsignedCoins, CoreError>(e),
                    ),
                },
            },
    {
        let sender = match AccAddress::from_bech32(sender) {
            Ok(a) => a,
            Err(e) => {
                return Err(CoreError::DecodeAddress(e));
            },
        };
        let contract = match AccAddress::from_bech32(contract) {
            Ok(a) => a,
            Err(e) => {
                return Err(CoreError::DecodeAddress(e));
            },
        };
        let funds = match decode_funds(funds) {
            Ok(f) => f,
            Err(e) => {
                return Err(e);
            },
        };
        Ok(MsgExecuteContract { sender, contract, msg, funds })
    }

    /// Checks the message by itself: there must be a message for the
    /// contract.
    pub fn validate_basic(&self) -> (r: Result<(), ValidationError>)
        ensures
            r == self.check(),
    {
        if self.msg.len() == 0 {
            return Err(ValidationError::EmptyMessage);
        }
        Ok(())
    }
}

/// Moves a contract to other code.
#[derive(Debug, PartialEq)]
pub struct MsgMigrateContract {
    /// The account that migrates, and signs.
    pub sender: AccAddress,
    /// The contract.
    pub contract: AccAddress,
    /// The code to move to.
    pub code_id: u64,
    /// The message for the contract, as JSON.
    pub msg: Vec<u8>,
}

impl MsgMigrateContract {
    /// What [`MsgMigrateContract::validate_basic`] finds.
    pub open spec fn check(&self) -> Result<(), ValidationError> {
        if self.code_id == 0 {
            Err(ValidationError::CodeIdRequired)
        } else {
            Ok(())
        }
    }

    /// The message that the fields stand for as they come over the
    /// wire: the sender and the contract must be addresses.
    pub fn from_parts(sender: &str, contract: &str, code_id: u64, msg: Vec<u8>) -> (r: Result<
        MsgMigrateContract,
        CoreError,
    >)
        ensures
            match (decoded_address(sender@), decoded_address(contract@)) {
                (Err(e), _) => r matches Err(CoreError::DecodeAddress(f)) && f == e,
                (Ok(_), Err(e)) => r matches Err(CoreError::DecodeAddress(f)) && f == e,
                (Ok(a), Ok(b)) => r matches Ok(m) && m.sender@ == a && m.contract@ == b
                    && m.code_id == code_id && m.msg == msg,
            },
    {
        let sender = match AccAddress::from_bech32(sender) {
            Ok(a) => a,
            Err(e) => {
                return Err(CoreError::DecodeAddress(e));
            },
        };
        let contract = match AccAddress::from_bech32(contract) {
            Ok(a) => a,
            Err(e) => {
                return Err(CoreError::DecodeAddress(e));
            },
        };
        Ok(MsgMigrateContract { sender, contract, code_id, msg })
    }

    /// Checks the message by itself: the code id must not be 0.
    pub fn validate_basic(&self) -> (r: Result<(), ValidationError>)
        ensures
            r == self.check(),
    {
        if self.code_id == 0 {
            return Err(ValidationError::CodeIdRequired);
        }
        Ok(())
    }
}

/// Gives a contract another admin.
#[derive(Debug, PartialEq)]
pub struct MsgUpdateAdmin {
    /// The account that is admin now, and signs.
    pub sender: AccAddress,
    /// The account that is to be admin.
    pub new_admin: AccAddress,
    /// The contract.
    pub contract: AccAddress,
}

impl MsgUpdateAdmin {
    /// What [`MsgUpdateAdmin::validate_basic`] finds.
    pub open spec fn check(&self) -> Result<(), ValidationError> {
        if self.sender@ == self.new_admin@ {
            Err(ValidationError::SameAdmin)
        } else {
            Ok(())
        }
    }

    /// The message that the fields stand for as they come over the
    /// wire: all three must be addresses.
    pub fn from_parts(sender: &str, new_admin: &str, contract: &str) -> (r: Result<
        MsgUpdateAdmin,
        CoreError,
    >)
        ensures
            match (
                decoded_address(sender@),
                decoded_address(new_admin@),
                decoded_address(contract@),
            ) {
                (Err(e), _, _) => r matches Err(CoreError::DecodeAddress(f)) && f == e,
                (Ok(_), Err(e), _) => r matches Err(CoreError::DecodeAddress(f)) && f == e,
                (Ok(_), Ok(_), Err(e)) => r matches Err(CoreError::DecodeAddress(f)) && f == e,
                (Ok(a), Ok(b), Ok(c)) => r matches Ok(m) && m.sender@ == a && m.new_admin@ == b
                    && m.contract@ == c,
            },
    {
        let sender = match AccAddress::from_bech32(sender) {
            Ok(a) => a,
            Err(e) => {
                return Err(CoreError::DecodeAddress(e));
            },
        };
        let new_admin = match AccAddress::from_bech32(new_admin) {
            Ok(a) => a,
            Err(e) => {
                return Err(CoreError::DecodeAddress(e));
            },
        };
        let contract = match AccAddress::from_bech32(contract) {
            Ok(a) => a,
            Err(e) => {
                return Err(CoreError::DecodeAddress(e));
            },
        };
        Ok(MsgUpdateAdmin { sender, new_admin, contract })
    }

    /// Checks the message by itself: the new admin must be another
    /// account than the sender.
    pub fn validate_basic(&self) -> (r: Result<(), ValidationError>)
        ensures
            r == self.check(),
    {
        if self.sender.same_as(&self.new_admin) {
            return Err(ValidationError::SameAdmin);
        }
        Ok(())
    }
}

/// Takes the admin off a contract.
#[derive(Debug, PartialEq)]
pub struct MsgClearAdmin {
    /// The account that is admin now, and signs.
    pub sender: AccAddress,
    /// The contract.
    pub contract: AccAddress,
}

impl MsgClearAdmin {
    /// The message that the fields stand for as they come over the
    /// wire: both must be addresses.
    pub fn from_parts(sender: &str, contract: &str) -> (r: Result<MsgClearAdmin, CoreError>)
        ensures
            match (decoded_address(sender@), decoded_address(contract@)) {
                (Err(e), _) => r matches Err(CoreError::DecodeAddress(f)) && f == e,
                (Ok(_), Err(e)) => r matches Err(CoreError::DecodeAddress(f)) && f == e,
                (Ok(a), Ok(b)) => r matches Ok(m) && m.sender@ == a && m.contract@ == b,
            },
    {
        let sender = match AccAddress::from_bech32(sender) {
            Ok(a) => a,
            Err(e) => {
                return Err(CoreError::DecodeAddress(e));
            },
        };
        let contract = match AccAddress::from_bech32(contract) {
            Ok(a) => a,
            Err(e) => {
                return Err(CoreError::DecodeAddress(e));
            },
        };
        Ok(MsgClearAdmin { sender, contract })
    }

    /// Checks the message by itself: there is nothing that could be wrong.
    pub fn validate_basic(&self) -> (r: Result<(), ValidationError>)
        ensures
            r == Ok::<(), ValidationError>(()),
    {
        Ok(())
    }
}

/// Any message of the wasm module.
#[derive(Debug)]
pub enum Message {
    StoreCode(MsgStoreCode),
    InstantiateContract(MsgInstantiateContract),
    ExecuteContract(MsgExecuteContract),
    MigrateContract(MsgMigrateContract),
    UpdateAdmin(MsgUpdateAdmin),
    ClearAdmin(MsgClearAdmin),
}

impl Message {
    /// What [`Message::validate_basic`] finds.
    pub open spec fn check(&self) -> Result<(), ValidationError> {
        match self {
            Message::StoreCode(m) => m.check(),
            Message::InstantiateContract(m) => m.check(),
            Message::ExecuteContract(m) => m.check(),
            Message::MigrateContract(m) => m.check(),
            Message::UpdateAdmin(m) => m.check(),
            Message::ClearAdmin(_) => Ok(()),
        }
    }

    /// Checks the message by itself, as its kind asks.
    pub fn validate_basic(&self) -> (r: Result<(), ValidationError>)
        ensures
            r == self.check(),
    {
        match self {
            Message::StoreCode(m) => m.validate_basic(),
            Message::InstantiateContract(m) => m.validate_basic(),
            Message::ExecuteContract(m) => m.validate_basic(),
            Message::MigrateContract(m) => m.validate_basic(),
            Message::UpdateAdmin(m) => m.validate_basic(),
            Message::ClearAdmin(m) => m.validate_basic(),
        }
    }

    /// The type URL of the message on the wire.
    pub fn type_url(&self) -> (r: &'static str)
        ensures
            r@ == match self {
                Message::StoreCode(_) => "/cosmwasm.wasm.v1.MsgStoreCode"@,
                Message::InstantiateContract(_) => "/cosmwasm.wasm.v1.MsgInstantiateContract"@,
                Message::ExecuteContract(_) => "/cosmwasm.wasm.v1.MsgExecuteContract"@,
                Message::MigrateContract(_) => "/cosmwasm.wasm.v1.MsgMigrateContract"@,
                Message::UpdateAdmin(_) => "/cosmwasm.wasm.v1.MsgUpdateAdmin"@,
                Message::ClearAdmin(_) => "/cosmwasm.wasm.v1.MsgClearAdmin"@,
            },
    {
        match self {
            Message::StoreCode(_) => "/cosmwasm.wasm.v1.MsgStoreCode",
            Message::InstantiateContract(_) => "/cosmwasm.wasm.v1.MsgInstantiateContract",
            Message::ExecuteContract(_) => "/cosmwasm.wasm.v1.MsgExecuteContract",
            Message::MigrateContract(_) => "/cosmwasm.wasm.v1.MsgMigrateContract",
            Message::UpdateAdmin(_) => "/cosmwasm.wasm.v1.MsgUpdateAdmin",
            Message::ClearAdmin(_) => "/cosmwasm.wasm.v1.MsgClearAdmin",
        }
    }
}

} // verus!

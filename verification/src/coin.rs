//! Coins: an amount of up to 256 bits in a denomination.

use vstd::prelude::*;
use crate::bytes::{bytes_lt, lex_lt};

verus! {

/// The number that the decimal string `s` stands for, as 32 bytes with
/// the most significant first, or `None` where `s` stands for none that
/// fits 256 bits.
pub uninterp spec fn uint256_parsing(s: Seq<char>) -> Option<Seq<u8>>;

/// The decimal string of the number that the 32 bytes `bytes` stand for,
/// most significant first.
pub uninterp spec fn uint256_text(bytes: Seq<u8>) -> Seq<char>;

/// Whether a character is a number in one of Unicode's general
/// categories `Nd`, `Nl` and `No`.
pub uninterp spec fn numeric_char(c: char) -> bool;

/// Calls `cosmwasm_std::Uint256::from_str`, and `Uint256::to_be_bytes` on
/// what it returns. The contract gives the result a name and claims
/// nothing else of it.
#[verifier::external_body]
fn uint256_parse(s: &str) -> (r: Option<[u8; 32]>)
    ensures
        match r {
            Some(bytes) => uint256_parsing(s@) == Some(bytes@),
            None => uint256_parsing(s@) is None,
        },
{
    match <cosmwasm_std::Uint256 as core::str::FromStr>::from_str(s) {
        Ok(n) => Some(n.to_be_bytes()),
        Err(_) => None,
    }
}

/// Calls `to_string` on the `cosmwasm_std::Uint256` that
/// `Uint256::from_be_bytes` makes of `bytes`. The contract gives the
/// result a name and claims nothing else of it.
#[verifier::external_body]
fn uint256_to_text(bytes: &[u8; 32]) -> (r: String)
    ensures
        r@ == uint256_text(bytes@),
{
    cosmwasm_std::Uint256::from_be_bytes(*bytes).to_string()
}

/// Calls `char::is_numeric` of std. The contract gives the result a name
/// and claims nothing else of it.
#[verifier::external_body]
fn is_numeric(c: char) -> (r: bool)
    ensures
        r == numeric_char(c),
{
    c.is_numeric()
}

/// Whether all bytes are 0.
pub open spec fn zero_bytes(s: Seq<u8>) -> bool {
    forall|i: int| 0 <= i < s.len() ==> s[i] == 0
}

/// An unsigned number of 256 bits.
#[derive(Clone, Copy, Debug, PartialEq, Eq)]
pub struct Uint256 {
    bytes: [u8; 32],
}

impl Uint256 {
    /// The 32 bytes of the number, most significant first.
    pub closed spec fn view(&self) -> Seq<u8> {
        self.bytes@
    }

    /// The number with the given bytes, most significant first.
    pub fn from_be_bytes(bytes: [u8; 32]) -> (n: Uint256)
        ensures
            n@ == bytes@,
    {
        Uint256 { bytes }
    }

    /// The bytes of the number, most significant first.
    pub fn to_be_bytes(&self) -> (r: [u8; 32])
        ensures
            r@ == self@,
    {
        self.bytes
    }

    /// The number that the decimal string `s` stands for, if it stands
    /// for one that fits.
    pub fn parse(s: &str) -> (r: Option<Uint256>)
        ensures
            match r {
                Some(n) => uint256_parsing(s@) == Some(n@),
                None => uint256_parsing(s@) is None,
            },
    {
        match uint256_parse(s) {
            Some(bytes) => Some(Uint256 { bytes }),
            None => None,
        }
    }

    /// The number in decimal.
    pub fn to_text(&self) -> (r: String)
        ensures
            r@ == uint256_text(self@),
    {
        uint256_to_text(&self.bytes)
    }

    /// Whether the number is 0.
    pub fn is_zero(&self) -> (r: bool)
        ensures
            r == zero_bytes(self@),
    {
        let mut i: usize = 0;
        while i < 32
            invariant
                0 <= i <= 32,
                forall|j: int| 0 <= j < i ==> self.bytes@[j] == 0,
            decreases 32 - i,
        {
            if self.bytes[i] != 0 {
                assert(self@[i as int] != 0);
                return false;
            }
            i = i + 1;
        }
        true
    }
}

/// A number of 256 bits as it goes over the wire: in decimal.
#[derive(Clone, Copy, Debug, PartialEq, Eq)]
pub struct Uint256Proto {
    pub uint: Uint256,
}

impl Uint256Proto {
    /// The number that the decimal string `text` stands for.
    pub fn from_text(text: &str) -> (r: Result<Uint256Proto, CoinError>)
        ensures
            match r {
                Ok(p) => uint256_parsing(text@) == Some(p.uint@),
                Err(e) => uint256_parsing(text@) is None && e == CoinError::Uint,
            },
    {
        match Uint256::parse(text) {
            Some(uint) => Ok(Uint256Proto { uint }),
            None => Err(CoinError::Uint),
        }
    }

    /// The number in decimal.
    pub fn to_text(&self) -> (r: String)
        ensures
            r@ == uint256_text(self.uint@),
    {
        self.uint.to_text()
    }
}

/// Whether a character may start a denomination: an ASCII letter.
pub open spec fn denom_start(c: char) -> bool {
    ('a' <= c && c <= 'z') || ('A' <= c && c <= 'Z')
}

/// Whether a character may stand inside a denomination: an ASCII letter
/// or digit, or one of `/ : . _ -`.
pub open spec fn denom_char(c: char) -> bool {
    denom_start(c) || ('0' <= c && c <= '9') || c == '/' || c == ':' || c == '.' || c == '_' || c
        == '-'
}

/// Whether a string names a denomination: 3 to 128 characters, a letter
/// first, then letters, digits and the separators `/ : . _ -`.
pub open spec fn valid_denom(s: Seq<char>) -> bool {
    &&& 3 <= s.len() <= 128
    &&& denom_start(s[0])
    &&& forall|i: int| 0 <= i < s.len() ==> denom_char(#[trigger] s[i])
}

/// The characters of a string as bytes; of use where all are ASCII.
pub open spec fn narrow(s: Seq<char>) -> Seq<u8> {
    Seq::new(s.len(), |i: int| s[i] as u8)
}

fn starts_denom(c: char) -> (r: bool)
    ensures
        r == denom_start(c),
{
    ('a' <= c && c <= 'z') || ('A' <= c && c <= 'Z')
}

fn inside_denom(c: char) -> (r: bool)
    ensures
        r == denom_char(c),
{
    starts_denom(c) || ('0' <= c && c <= '9') || c == '/' || c == ':' || c == '.' || c == '_' || c
        == '-'
}

/// Why a string names no denomination.
#[derive(Clone, Copy, Debug, PartialEq, Eq, Structural)]
pub enum DenomError {
    /// It has fewer than 3 or more than 128 characters.
    Length,
    /// A character is not allowed where it stands.
    Character,
}

/// The name of a kind of coin.
#[derive(Debug, PartialEq, Eq)]
pub struct Denom {
    text: String,
}

impl Denom {
    /// The name.
    pub closed spec fn view(&self) -> Seq<char> {
        self.text@
    }

    #[verifier::type_invariant]
    spec fn valid(&self) -> bool {
        valid_denom(self.text@)
    }

    /// The denomination that `s` names.
    pub fn parse(s: &str) -> (r: Result<Denom, DenomError>)
        ensures
            match r {
                Ok(d) => valid_denom(s@) && d@ == s@,
                Err(e) => !valid_denom(s@) && (e is Length <==> !(3 <= s@.len() <= 128)),
            },
    {
        let n = s.unicode_len();
        if n < 3 || n > 128 {
            return Err(DenomError::Length);
        }
        if !starts_denom(s.get_char(0)) {
            return Err(DenomError::Character);
        }
        let mut i: usize = 0;
        while i < n
            invariant
                n == s@.len(),
                3 <= n <= 128,
                0 <= i <= n,
                forall|j: int| 0 <= j < i ==> denom_char(#[trigger] s@[j]),
            decreases n - i,
        {
            if !inside_denom(s.get_char(i)) {
                assert(!denom_char(s@[i as int]));
                return Err(DenomError::Character);
            }
            i = i + 1;
        }
        Ok(Denom { text: String::from_str(s) })
    }

    /// The name.
    pub fn as_str(&self) -> (r: &str)
        ensures
            r@ == self@,
            valid_denom(r@),
    {
        proof {
            use_type_invariant(self);
        }
        self.text.as_str()
    }

    /// The name as bytes.
    pub fn to_bytes(&self) -> (r: Vec<u8>)
        ensures
            r@ == narrow(self@),
    {
        proof {
            use_type_invariant(self);
        }
        let s = self.text.as_str();
        let n = s.unicode_len();
        let mut r: Vec<u8> = Vec::new();
        let mut i: usize = 0;
        while i < n
            invariant
                n == s@.len(),
                0 <= i <= n,
                valid_denom(s@),
                r@ == narrow(s@).take(i as int),
            decreases n - i,
        {
            let c = s.get_char(i);
            assert(denom_char(s@[i as int]));
            r.push(c as u8);
            assert(r@ =~= narrow(s@).take(i + 1));
            i = i + 1;
        }
        assert(narrow(s@).take(n as int) =~= narrow(s@));
        r
    }

    /// A copy of the denomination.
    pub fn duplicate(&self) -> (r: Denom)
        ensures
            r@ == self@,
    {
        proof {
            use_type_invariant(self);
        }
        Denom { text: self.text.clone() }
    }
}

impl Clone for Denom {
    fn clone(&self) -> (r: Denom)
        ensures
            r@ == self@,
    {
        self.duplicate()
    }
}

/// Why a string is no coin.
#[derive(Clone, Copy, Debug, PartialEq, Eq, Structural)]
pub enum CoinError {
    /// The amount is no number that fits 256 bits.
    Uint,
    /// The denomination is not valid.
    Denom(DenomError),
}

/// An amount in a denomination.
#[derive(Debug, PartialEq)]
pub struct UnsignedCoin {
    pub denom: Denom,
    pub amount: Uint256,
}

/// What a coin says: the name of its denomination and the 32 bytes of
/// its amount, most significant first.
pub struct CoinModel {
    pub denom: Seq<char>,
    pub amount: Seq<u8>,
}

/// The coins of a list by what they say.
pub open spec fn coin_models(coins: Seq<UnsignedCoin>) -> Seq<CoinModel> {
    Seq::new(coins.len(), |i: int| coins[i]@)
}

/// What is wrong with a name that is no denomination.
pub open spec fn denom_refusal(s: Seq<char>) -> DenomError {
    if 3 <= s.len() <= 128 {
        DenomError::Character
    } else {
        DenomError::Length
    }
}

/// The coin that a denomination and an amount in decimal stand for as
/// they come over the wire, or what is wrong: with the denomination
/// first, then with the amount.
pub open spec fn coin_of(denom: Seq<char>, amount: Seq<char>) -> Result<CoinModel, CoinError> {
    if !valid_denom(denom) {
        Err(CoinError::Denom(denom_refusal(denom)))
    } else {
        match uint256_parsing(amount) {
            Some(n) => Ok(CoinModel { denom, amount: n }),
            None => Err(CoinError::Uint),
        }
    }
}

/// The place of the first character of `s` that is no number, or the
/// length of `s` if all are.
pub open spec fn amount_end(s: Seq<char>) -> int
    decreases s.len(),
{
    if s.len() == 0 || !numeric_char(s[0]) {
        0
    } else {
        1 + amount_end(s.drop_first())
    }
}

proof fn lemma_amount_end(s: Seq<char>, n: int)
    requires
        0 <= n <= s.len(),
        forall|j: int| 0 <= j < n ==> numeric_char(#[trigger] s[j]),
        n < s.len() ==> !numeric_char(s[n]),
    ensures
        amount_end(s) == n,
    decreases s.len(),
{
    if s.len() == 0 || !numeric_char(s[0]) {
    } else {
        let t = s.drop_first();
        assert forall|j: int| 0 <= j < n - 1 implies numeric_char(#[trigger] t[j]) by {
            assert(t[j] == s[j + 1]);
        }
        lemma_amount_end(t, n - 1);
    }
}

impl UnsignedCoin {
    /// What the coin says.
    pub open spec fn view(&self) -> CoinModel {
        CoinModel { denom: self.denom@, amount: self.amount@ }
    }

    /// The coin that a denomination and an amount in decimal stand for
    /// as they come over the wire: see [`coin_of`].
    pub fn from_wire(denom: &str, amount: &str) -> (r: Result<UnsignedCoin, CoinError>)
        ensures
            match (r, coin_of(denom@, amount@)) {
                (Ok(c), Ok(m)) => c@ == m,
                (Err(e), Err(f)) => e == f,
                _ => false,
            },
    {
        let denom = match Denom::parse(denom) {
            Ok(d) => d,
            Err(e) => {
                return Err(CoinError::Denom(e));
            },
        };
        match Uint256::parse(amount) {
            Some(amount) => Ok(UnsignedCoin { denom, amount }),
            None => Err(CoinError::Uint),
        }
    }

    /// The denomination and the amount in decimal, as they go over the
    /// wire.
    pub fn to_wire(&self) -> (r: (String, String))
        ensures
            r.0@ == self.denom@,
            r.1@ == uint256_text(self.amount@),
    {
        (String::from_str(self.denom.as_str()), self.amount.to_text())
    }

    /// The key by which coins are paged: the bytes of the denomination.
    pub fn iterator_key(&self) -> (r: Vec<u8>)
        ensures
            r@ == narrow(self.denom@),
    {
        self.denom.to_bytes()
    }

    /// A copy of the coin.
    pub fn duplicate(&self) -> (r: UnsignedCoin)
        ensures
            r@ == self@,
    {
        UnsignedCoin { denom: self.denom.duplicate(), amount: self.amount }
    }

    /// The coin that a parsed amount and a parsed denomination make, or
    /// the error of the first of the two that failed.
    pub fn from_parts(amount: Option<Uint256>, denom: Result<Denom, DenomError>) -> (r: Result<
        UnsignedCoin,
        CoinError,
    >)
        ensures
            match r {
                Ok(c) => amount == Some(c.amount) && denom == Ok::<Denom, DenomError>(c.denom),
                Err(e) => match amount {
                    None => e == CoinError::Uint,
                    Some(_) => denom matches Err(d) && e == CoinError::Denom(d),
                },
            },
    {
        match amount {
            None => Err(CoinError::Uint),
            Some(amount) => match denom {
                Ok(denom) => Ok(UnsignedCoin { denom, amount }),
                Err(d) => Err(CoinError::Denom(d)),
            },
        }
    }

    /// The coin that `input` stands for: an amount in decimal, and right
    /// behind it the denomination, as in `1uatom`. The amount ends before
    /// the first character that is no number.
    pub fn from_str(input: &str) -> (r: Result<UnsignedCoin, CoinError>)
        ensures
            ({
                let i = amount_end(input@);
                let amount = uint256_parsing(input@.subrange(0, i));
                let name = input@.subrange(i, input@.len() as int);
                match r {
                    Ok(c) => amount == Some(c.amount@) && valid_denom(name) && c.denom@ == name,
                    Err(e) => match amount {
                        None => e == CoinError::Uint,
                        Some(_) => !valid_denom(name) && e is Denom,
                    },
                }
            }),
    {
        let n = input.unicode_len();
        let mut i: usize = 0;
        while i < n && is_numeric(input.get_char(i))
            invariant
                n == input@.len(),
                0 <= i <= n,
                forall|j: int| 0 <= j < i ==> numeric_char(#[trigger] input@[j]),
            decreases n - i,
        {
            i = i + 1;
        }
        proof {
            lemma_amount_end(input@, i as int);
        }
        let amount = Uint256::parse(input.substring_char(0, i));
        let denom = Denom::parse(input.substring_char(i, n));
        UnsignedCoin::from_parts(amount, denom)
    }

    /// The coin as text: the amount in decimal, and right behind it the
    /// denomination.
    pub fn to_text(&self) -> (r: String)
        ensures
            r@ == uint256_text(self.amount@) + self.denom@,
    {
        self.amount.to_text().concat(self.denom.as_str())
    }
}

impl Clone for UnsignedCoin {
    fn clone(&self) -> (r: UnsignedCoin)
        ensures
            r@ == self@,
    {
        self.duplicate()
    }
}

/// Why a list of coins is not in order.
#[derive(Clone, Copy, Debug, PartialEq, Eq, Structural)]
pub enum CoinsError {
    /// The list is empty.
    Empty,
    /// An amount is 0.
    ZeroAmount,
    /// The denominations do not ascend strictly: one comes twice, or two
    /// are out of order.
    Unsorted,
}

/// Whether a list of coins is in order: not empty, no amount 0, and the
/// denominations in strictly ascending order, so that none comes twice.
pub open spec fn coins_in_order(coins: Seq<CoinModel>) -> bool {
    &&& coins.len() > 0
    &&& forall|i: int| 0 <= i < coins.len() ==> !zero_amount(#[trigger] coins[i])
    &&& forall|i: int|
        0 <= i < coins.len() - 1 ==> lex_lt(
            narrow(#[trigger] coins[i].denom),
            narrow(coins[i + 1].denom),
        )
}

/// Whether the amount of a coin is 0.
pub open spec fn zero_amount(c: CoinModel) -> bool {
    zero_bytes(c.amount)
}

/// A list of coins in order: see [`coins_in_order`].
#[derive(Debug, PartialEq)]
pub struct UnsignedCoins {
    coins: Vec<UnsignedCoin>,
}

impl UnsignedCoins {
    /// The coins.
    pub closed spec fn view(&self) -> Seq<CoinModel> {
        coin_models(self.coins@)
    }

    #[verifier::type_invariant]
    spec fn in_order(&self) -> bool {
        coins_in_order(coin_models(self.coins@))
    }

    /// The list of the given coins, if they are in order.
    pub fn new(coins: Vec<UnsignedCoin>) -> (r: Result<UnsignedCoins, CoinsError>)
        ensures
            match r {
                Ok(c) => coins_in_order(coin_models(coins@)) && c@ == coin_models(coins@),
                Err(e) => !coins_in_order(coin_models(coins@)) && (e is Empty <==> coins@.len()
                    == 0),
            },
    {
        let ghost models = coin_models(coins@);
        if coins.len() == 0 {
            return Err(CoinsError::Empty);
        }
        let mut i: usize = 0;
        while i < coins.len()
            invariant
                0 <= i <= coins@.len(),
                coins@.len() > 0,
                models == coin_models(coins@),
                forall|j: int| 0 <= j < i ==> !zero_amount(#[trigger] models[j]),
                forall|j: int|
                    0 <= j < i - 1 ==> lex_lt(
                        narrow(#[trigger] models[j].denom),
                        narrow(models[j + 1].denom),
                    ),
            decreases coins@.len() - i,
        {
            assert(models[i as int] == coins@[i as int]@);
            if coins[i].amount.is_zero() {
                assert(zero_amount(models[i as int]));
                return Err(CoinsError::ZeroAmount);
            }
            if i > 0 {
                let a = coins[i - 1].denom.to_bytes();
                let b = coins[i].denom.to_bytes();
                if !bytes_lt(a.as_slice(), b.as_slice()) {
                    assert(!lex_lt(
                        narrow(models[i - 1].denom),
                        narrow(models[(i - 1) + 1].denom),
                    ));
                    return Err(CoinsError::Unsorted);
                }
            }
            i = i + 1;
        }
        Ok(UnsignedCoins { coins })
    }

    /// The number of coins.
    pub fn len(&self) -> (n: usize)
        ensures
            n == self@.len(),
            coins_in_order(self@),
    {
        proof {
            use_type_invariant(self);
        }
        self.coins.len()
    }

    /// The coins, in their order.
    pub fn into_vec(self) -> (r: Vec<UnsignedCoin>)
        ensures
            coin_models(r@) == self@,
            coins_in_order(coin_models(r@)),
    {
        proof {
            use_type_invariant(&self);
        }
        self.coins
    }
}

} // verus!

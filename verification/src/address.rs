//! Account addresses: up to 255 bytes, written as bech32 strings with the
//! human-readable part `cosmos`.

use vstd::prelude::*;
use crate::bytes::{bytes_eq, copy_bytes};

verus! {

/// The largest number of bytes that an address can have.
pub const MAX_ADDR_LEN: usize = 255;

/// What the bech32 string `s` decodes to: its human-readable part in
/// lower case and its data as bytes, or `None` where `s` is not a bech32
/// string with a valid checksum.
pub uninterp spec fn bech32_decoding(s: Seq<char>) -> Option<(Seq<char>, Seq<u8>)>;

/// The bech32 string of `data` under the human-readable part `hrp`, or
/// `None` where there is none.
pub uninterp spec fn bech32_encoding(hrp: Seq<char>, data: Seq<u8>) -> Option<Seq<char>>;

/// Calls `bech32::primitives::decode::CheckedHrpstring::new` with the
/// `Bech32` checksum, and takes the human-readable part (`Hrp::to_lowercase`)
/// and the data bytes (`byte_iter`) out of what it returns. The contract
/// gives that result a name and claims nothing else of it.
#[verifier::external_body]
fn bech32_decode(s: &str) -> (r: Option<(String, Vec<u8>)>)
    ensures
        match r {
            Some((hrp, data)) => bech32_decoding(s@) == Some((hrp@, data@)),
            None => bech32_decoding(s@) is None,
        },
{
    match bech32::primitives::decode::CheckedHrpstring::new::<bech32::Bech32>(s) {
        Ok(parsed) => Some((parsed.hrp().to_lowercase(), parsed.byte_iter().collect())),
        Err(_) => None,
    }
}

/// Whether `hrp` is a word of 1 to 83 lower-case letters: one form of a
/// human-readable part that `bech32::Hrp::parse` accepts.
pub open spec fn lower_case_word(hrp: Seq<char>) -> bool {
    &&& 1 <= hrp.len() <= 83
    &&& forall|i: int| 0 <= i < hrp.len() ==> 'a' <= #[trigger] hrp[i] <= 'z'
}

/// The length of the bech32 string of `data` bytes under a
/// human-readable part of `hrp` characters: the part, the separator, the
/// data in groups of five bits, and the six characters of the checksum.
pub open spec fn bech32_length(hrp: nat, data: nat) -> nat {
    hrp + 1 + (data * 8 + 4) / 5 + 6
}

/// Calls `bech32::encode` with the `Bech32` checksum, on the `Hrp` that
/// `bech32::Hrp::parse` makes of `hrp`. The contract gives that result a
/// name, and claims that there is a result where `hrp` is a word of
/// lower-case letters and the string is no longer than the 1023
/// characters that the checksum allows: the parser refuses no such
/// word, and the encoder refuses nothing but the length.
#[verifier::external_body]
fn bech32_encode(hrp: &str, data: &[u8]) -> (r: Option<String>)
    ensures
        match r {
            Some(s) => bech32_encoding(hrp@, data@) == Some(s@),
            None => bech32_encoding(hrp@, data@) is None,
        },
        lower_case_word(hrp@) && bech32_length(hrp@.len(), data@.len()) <= 1023 ==> r is Some,
{
    match bech32::Hrp::parse(hrp) {
        Ok(hrp) => bech32::encode::<bech32::Bech32>(hrp, data).ok(),
        Err(_) => None,
    }
}

/// Why a string or a byte vector is no address.
#[derive(Clone, Copy, Debug, PartialEq, Eq)]
pub enum AddressError {
    /// The string is not bech32 with a valid checksum.
    Decode,
    /// The human-readable part is not `cosmos`.
    InvalidPrefix,
    /// There are more than 255 bytes.
    InvalidLength,
}

/// The address that a decoded bech32 string stands for, or why it stands
/// for none.
pub open spec fn address_of(decoded: Option<(Seq<char>, Seq<u8>)>) -> Result<
    Seq<u8>,
    AddressError,
> {
    match decoded {
        None => Err(AddressError::Decode),
        Some((hrp, data)) => if hrp != "cosmos"@ {
            Err(AddressError::InvalidPrefix)
        } else if data.len() > MAX_ADDR_LEN {
            Err(AddressError::InvalidLength)
        } else {
            Ok(data)
        },
    }
}

/// The address of an account.
#[derive(Debug, PartialEq, Eq)]
pub struct AccAddress {
    bytes: Vec<u8>,
}

impl AccAddress {
    /// The bytes of the address.
    pub closed spec fn view(&self) -> Seq<u8> {
        self.bytes@
    }

    #[verifier::type_invariant]
    spec fn short_enough(&self) -> bool {
        self.bytes@.len() <= MAX_ADDR_LEN
    }

    /// The address with the given bytes. Refused if there are more than
    /// 255 of them.
    pub fn try_from_bytes(bytes: Vec<u8>) -> (r: Result<AccAddress, AddressError>)
        ensures
            match r {
                Ok(a) => bytes@.len() <= MAX_ADDR_LEN && a@ == bytes@,
                Err(e) => bytes@.len() > MAX_ADDR_LEN && e is InvalidLength,
            },
    {
        if bytes.len() > MAX_ADDR_LEN {
            Err(AddressError::InvalidLength)
        } else {
            Ok(AccAddress { bytes })
        }
    }

    /// The address that a decoded bech32 string stands for: see
    /// [`address_of`].
    pub fn from_decoded(decoded: Option<(String, Vec<u8>)>) -> (r: Result<
        AccAddress,
        AddressError,
    >)
        ensures
            match (r, address_of(decoded_model(decoded))) {
                (Ok(a), Ok(bytes)) => a@ == bytes,
                (Err(e), Err(f)) => e == f,
                _ => false,
            },
    {
        match decoded {
            None => Err(AddressError::Decode),
            Some((hrp, data)) => {
                let expected = String::from_str("cosmos");
                if !hrp.eq(&expected) {
                    Err(AddressError::InvalidPrefix)
                } else {
                    AccAddress::try_from_bytes(data)
                }
            },
        }
    }

    /// The address that the bech32 string `s` stands for.
    pub fn from_bech32(s: &str) -> (r: Result<AccAddress, AddressError>)
        ensures
            match (r, address_of(bech32_decoding(s@))) {
                (Ok(a), Ok(bytes)) => a@ == bytes,
                (Err(e), Err(f)) => e == f,
                _ => false,
            },
    {
        AccAddress::from_decoded(bech32_decode(s))
    }

    /// The bytes of the address.
    pub fn as_bytes(&self) -> (r: &[u8])
        ensures
            r@ == self@,
            r@.len() <= MAX_ADDR_LEN,
    {
        proof {
            use_type_invariant(self);
        }
        self.bytes.as_slice()
    }

    /// The number of bytes of the address.
    pub fn len(&self) -> (r: u8)
        ensures
            r == self@.len(),
    {
        proof {
            use_type_invariant(self);
        }
        self.bytes.len() as u8
    }

    /// The address as a bech32 string. There is one for every address.
    pub fn to_bech32(&self) -> (r: Option<String>)
        ensures
            r matches Some(s) && bech32_encoding("cosmos"@, self@) == Some(s@),
    {
        proof {
            use_type_invariant(self);
            reveal_strlit("cosmos");
            assert(lower_case_word("cosmos"@));
            assert(bech32_length(6, self@.len()) <= 1023);
        }
        bech32_encode("cosmos", self.bytes.as_slice())
    }

    /// Whether two addresses have the same bytes.
    pub fn same_as(&self, other: &AccAddress) -> (r: bool)
        ensures
            r == (self@ == other@),
    {
        bytes_eq(self.bytes.as_slice(), other.bytes.as_slice())
    }

    /// A copy of the address.
    pub fn duplicate(&self) -> (r: AccAddress)
        ensures
            r@ == self@,
    {
        proof {
            use_type_invariant(self);
        }
        AccAddress { bytes: copy_bytes(self.bytes.as_slice()) }
    }
}

impl Clone for AccAddress {
    fn clone(&self) -> (r: AccAddress)
        ensures
            r@ == self@,
    {
        self.duplicate()
    }
}

/// A decoded bech32 string by its views.
pub open spec fn decoded_model(decoded: Option<(String, Vec<u8>)>) -> Option<
    (Seq<char>, Seq<u8>),
> {
    match decoded {
        Some((hrp, data)) => Some((hrp@, data@)),
        None => None,
    }
}

} // verus!

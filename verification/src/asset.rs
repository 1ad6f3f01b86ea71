//! Assets, amounts of them, and the decimal places they are counted in.

use vstd::prelude::*;
use vstd::utf8::encode_utf8;
use astroport::asset::validate_native_denom;
use crate::error::ContractError;
use crate::fixed::Dec256;

verus! {

/// The decimal places of the share token.
pub const LP_TOKEN_PRECISION: u8 = 6;

/// The decimal places of every native asset.
pub const NATIVE_PRECISION: u8 = 18;

/// Whether the character is an ASCII letter.
pub open spec fn is_letter(c: char) -> bool {
    (97 <= c as u32 && c as u32 <= 122) || (65 <= c as u32 && c as u32 <= 90)
}

/// Whether the character may stand inside a native denomination: an ASCII
/// letter or digit, or one of `/ : . _ -`.
pub open spec fn is_denom_char(c: char) -> bool {
    is_letter(c) || (48 <= c as u32 && c as u32 <= 57) || c == '/' || c == ':' || c == '.' || c
        == '_' || c == '-'
}

/// Whether the characters spell a native denomination: three to 128 of
/// them, the first a letter.
pub open spec fn valid_denom(s: Seq<char>) -> bool {
    &&& 3 <= s.len() <= 128
    &&& is_letter(s[0])
    &&& forall|i: int| 1 <= i < s.len() ==> is_denom_char(#[trigger] s[i])
}

/// `astroport::asset::validate_native_denom`: a denomination has three to
/// 128 characters, starts with an ASCII letter and goes on with ASCII
/// letters, digits and the separators `/ : . _ -`.
#[verifier::external_body]
fn denom_call(denom: &String) -> (r: bool)
    ensures
        r == valid_denom(denom@),
{
    validate_native_denom(denom.as_str()).is_ok()
}

/// An asset: a token kept by a contract, or a native denomination.
#[derive(Debug)]
pub enum AssetInfo {
    Token { contract_addr: String },
    NativeToken { denom: String },
}

impl AssetInfo {
    /// The address or the denomination.
    pub open spec fn name(&self) -> Seq<char> {
        match self {
            AssetInfo::Token { contract_addr } => contract_addr@,
            AssetInfo::NativeToken { denom } => denom@,
        }
    }

    /// Whether two values name the same asset: the same kind with the same
    /// name.
    pub open spec fn same(&self, other: &AssetInfo) -> bool {
        match (self, other) {
            (AssetInfo::Token { contract_addr: a }, AssetInfo::Token { contract_addr: b }) => a@
                == b@,
            (AssetInfo::NativeToken { denom: a }, AssetInfo::NativeToken { denom: b }) => a@ == b@,
            _ => false,
        }
    }

    /// The bytes of the address or the denomination.
    pub open spec fn bytes(&self) -> Seq<u8> {
        encode_utf8(self.name())
    }

    /// Whether two values name the same asset.
    pub fn equal(&self, other: &AssetInfo) -> (r: bool)
        ensures
            r == self.same(other),
    {
        match self {
            AssetInfo::Token { contract_addr: a } => match other {
                AssetInfo::Token { contract_addr: b } => *a == *b,
                AssetInfo::NativeToken { .. } => false,
            },
            AssetInfo::NativeToken { denom: a } => match other {
                AssetInfo::Token { .. } => false,
                AssetInfo::NativeToken { denom: b } => *a == *b,
            },
        }
    }

    /// A copy of the value.
    pub fn duplicate(&self) -> (r: AssetInfo)
        ensures
            r == *self,
    {
        match self {
            AssetInfo::Token { contract_addr } => AssetInfo::Token {
                contract_addr: contract_addr.clone(),
            },
            AssetInfo::NativeToken { denom } => AssetInfo::NativeToken { denom: denom.clone() },
        }
    }

    /// The address or the denomination as a string.
    pub fn to_string(&self) -> (r: String)
        ensures
            r@ == self.name(),
    {
        match self {
            AssetInfo::Token { contract_addr } => contract_addr.clone(),
            AssetInfo::NativeToken { denom } => denom.clone(),
        }
    }

    /// The address or the denomination as bytes.
    pub fn as_bytes(&self) -> (r: &[u8])
        ensures
            r@ == self.bytes(),
    {
        match self {
            AssetInfo::Token { contract_addr } => contract_addr.as_str().as_bytes(),
            AssetInfo::NativeToken { denom } => denom.as_str().as_bytes(),
        }
    }

    /// Whether the asset is named as its kind asks: a native asset by a
    /// denomination. The address of a token is checked where it enters.
    pub open spec fn well_named(&self) -> bool {
        match self {
            AssetInfo::Token { .. } => true,
            AssetInfo::NativeToken { denom } => valid_denom(denom@),
        }
    }

    /// Checks that the asset is named as its kind asks.
    pub fn check(&self) -> (r: Result<(), ContractError>)
        ensures
            match r {
                Ok(_) => self.well_named(),
                Err(e) => !self.well_named() && e@ == crate::error::ErrorKind::InvalidDenom(
                    self.name(),
                ),
            },
    {
        match self {
            AssetInfo::Token { .. } => Ok(()),
            AssetInfo::NativeToken { denom } => if denom_call(denom) {
                Ok(())
            } else {
                Err(ContractError::InvalidDenom(denom.clone()))
            },
        }
    }

    /// Whether the asset is a native denomination.
    pub fn is_native_token(&self) -> (r: bool)
        ensures
            r == (*self is NativeToken),
    {
        match self {
            AssetInfo::Token { .. } => false,
            AssetInfo::NativeToken { .. } => true,
        }
    }
}

/// An amount of an asset, counted in the asset's smallest unit.
#[derive(Debug)]
pub struct Asset {
    pub info: AssetInfo,
    pub amount: u128,
}

impl Asset {
    /// A copy of the value.
    pub fn duplicate(&self) -> (r: Asset)
        ensures
            r == *self,
    {
        Asset { info: self.info.duplicate(), amount: self.amount }
    }

    /// The same amount as a decimal, for an asset counted in units of
    /// `10^-precision`.
    pub fn to_decimal_asset(&self, precision: u8) -> (r: DecimalAsset)
        ensures
            r.info == self.info,
            r.amount@ == crate::fixed::scaled_value(self.amount as nat, precision as nat),
    {
        DecimalAsset {
            info: self.info.duplicate(),
            amount: Dec256::with_precision(self.amount, precision),
        }
    }
}

/// An amount of an asset as a decimal.
#[derive(Debug)]
pub struct DecimalAsset {
    pub info: AssetInfo,
    pub amount: Dec256,
}

/// The precision recorded for `name`: that of the first entry under this
/// name.
pub open spec fn recorded(entries: Seq<(String, u8)>, name: Seq<char>) -> Option<u8>
    decreases entries.len(),
{
    if entries.len() == 0 {
        None
    } else if entries[0].0@ == name {
        Some(entries[0].1)
    } else {
        recorded(entries.skip(1), name)
    }
}

/// The decimal places of the assets that pools hold, by asset name.
pub struct Precisions(pub Vec<(String, u8)>);

impl Precisions {
    /// The record made of the given entries.
    pub fn new(items: Vec<(String, u8)>) -> (r: Precisions)
        ensures
            r.0 == items,
    {
        Precisions(items)
    }

    /// The decimal places recorded for the asset.
    pub fn get_precision(&self, asset_info: &AssetInfo) -> (r: Result<u8, ContractError>)
        ensures
            match recorded(self.0@, asset_info.name()) {
                Some(p) => r matches Ok(v) && v == p,
                None => r matches Err(ContractError::InvalidAsset(s)) && s@ == asset_info.name(),
            },
    {
        let name = asset_info.to_string();
        let mut i: usize = 0;
        assert(self.0@.skip(0) =~= self.0@);
        while i < self.0.len()
            invariant
                i <= self.0.len(),
                name@ == asset_info.name(),
                recorded(self.0@, name@) == recorded(self.0@.skip(i as int), name@),
            decreases self.0.len() - i,
        {
            if self.0[i].0 == name {
                return Ok(self.0[i].1);
            }
            proof {
                assert(self.0@.skip(i as int).skip(1) =~= self.0@.skip(i + 1));
            }
            i += 1;
        }
        Err(ContractError::InvalidAsset(name))
    }

    /// Records the decimal places of the given assets: eighteen for a native
    /// asset, and for a token what its contract reports, handed in at the
    /// asset's position in `token_decimals`. A precision once recorded
    /// stays, and of two assets with one name the first counts.
    pub fn store_precisions(&mut self, asset_infos: &Vec<AssetInfo>, token_decimals: &Vec<u8>)
        requires
            token_decimals.len() == asset_infos.len(),
        ensures
            forall|name: Seq<char>| #[trigger]
                recorded(final(self).0@, name) == match recorded(old(self).0@, name) {
                    Some(p) => Some(p),
                    None => declared(asset_infos@, token_decimals@, name, asset_infos@.len()),
                },
    {
        let mut i: usize = 0;
        while i < asset_infos.len()
            invariant
                i <= asset_infos.len(),
                token_decimals.len() == asset_infos.len(),
                forall|name: Seq<char>| #[trigger]
                    recorded(self.0@, name) == match recorded(old(self).0@, name) {
                        Some(p) => Some(p),
                        None => declared(asset_infos@, token_decimals@, name, i as nat),
                    },
            decreases asset_infos.len() - i,
        {
            let info = &asset_infos[i];
            let decimals = if info.is_native_token() {
                NATIVE_PRECISION
            } else {
                token_decimals[i]
            };
            let ghost before = self.0@;
            match self.get_precision(info) {
                Ok(_) => {},
                Err(_) => {
                    self.0.push((info.to_string(), decimals));
                    proof {
                        let entry = self.0@.last();
                        assert(self.0@ =~= before.push(entry));
                        assert forall|name: Seq<char>| #[trigger]
                            recorded(self.0@, name) == match recorded(before, name) {
                                Some(p) => Some(p),
                                None => if name == info.name() {
                                    Some(decimals)
                                } else {
                                    None
                                },
                            } by {
                            lemma_recorded_push(before, entry, name);
                        }
                    }
                },
            }
            i += 1;
        }
    }
}

/// The decimal places that an asset is recorded with.
pub open spec fn precision_of(info: AssetInfo, token_decimals: u8) -> u8 {
    if info is NativeToken {
        NATIVE_PRECISION
    } else {
        token_decimals
    }
}

/// The precision that the first `upto` of the given assets declare for
/// `name`: that of the first among them with this name.
pub open spec fn declared(
    infos: Seq<AssetInfo>,
    token_decimals: Seq<u8>,
    name: Seq<char>,
    upto: nat,
) -> Option<u8>
    decreases upto,
{
    if upto == 0 {
        None
    } else {
        match declared(infos, token_decimals, name, (upto - 1) as nat) {
            Some(p) => Some(p),
            None => if infos[upto - 1].name() == name {
                Some(precision_of(infos[upto - 1], token_decimals[upto - 1]))
            } else {
                None
            },
        }
    }
}

/// Looking a name up after one more entry was recorded: what stood under the
/// name before still does, and the new entry is found only under a name
/// that had none.
pub proof fn lemma_recorded_push(entries: Seq<(String, u8)>, entry: (String, u8), name: Seq<char>)
    ensures
        recorded(entries.push(entry), name) == match recorded(entries, name) {
            Some(p) => Some(p),
            None => if name == entry.0@ {
                Some(entry.1)
            } else {
                None
            },
        },
    decreases entries.len(),
{
    let longer = entries.push(entry);
    if entries.len() == 0 {
        assert(longer.skip(1) =~= Seq::<(String, u8)>::empty());
        assert(longer[0] == entry);
        assert(recorded(longer.skip(1), name) is None);
    } else {
        assert(longer.skip(1) =~= entries.skip(1).push(entry));
        assert(longer[0] == entries[0]);
        if entries[0].0@ != name {
            lemma_recorded_push(entries.skip(1), entry, name);
        }
    }
}

} // verus!

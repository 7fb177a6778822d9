//! A fee or balance amount in one currency.

use vstd::prelude::*;
use crate::messages::last_text;
use crate::messages::lemma_after_bytes;
use crate::messages::lemma_text_back;
use crate::messages::push_text;
use crate::messages::text_fits;
use crate::messages::text_in;
use crate::messages::with_text;
use crate::wire::decode;
use crate::wire::decoded;
use crate::wire::encode;
use crate::wire::fields_bytes;
use crate::wire::lemma_decode_encode;
use crate::wire::models;
use crate::wire::valid_fields;
use crate::wire::Field;
use crate::wire::FieldModel;

verus! {

/// An amount of one denomination, both kept as text exactly as the ledger
/// prints them.
#[derive(Eq, PartialEq, Debug, Clone)]
pub struct Coin {
    pub denom: String,
    pub amount: String,
}

pub struct CoinModel {
    pub denom: Seq<char>,
    pub amount: Seq<char>,
}

impl View for Coin {
    type V = CoinModel;

    open spec fn view(&self) -> CoinModel {
        CoinModel { denom: self.denom@, amount: self.amount@ }
    }
}

/// The bytes of a coin: the denomination as field 1, the amount as field 2.
pub open spec fn coin_bytes(coin: CoinModel) -> Seq<u8> {
    fields_bytes(with_text(with_text(Seq::empty(), 1, coin.denom), 2, coin.amount))
}

/// The coin that the bytes hold, where they hold one.
pub open spec fn parsed_coin(bytes: Seq<u8>) -> Option<CoinModel> {
    match decoded(bytes) {
        None => None,
        Some(fs) => match (last_text(fs, 1), last_text(fs, 2)) {
            (Some(denom), Some(amount)) => Some(CoinModel { denom, amount }),
            _ => None,
        },
    }
}

/// Reading the bytes of a coin gives the coin back.
pub proof fn lemma_coin_back(coin: CoinModel)
    requires
        text_fits(coin.denom),
        text_fits(coin.amount),
    ensures
        parsed_coin(coin_bytes(coin)) == Some(coin),
{
    let f0 = Seq::<FieldModel>::empty();
    let f1 = with_text(f0, 1, coin.denom);
    let f2 = with_text(f1, 2, coin.amount);
    lemma_text_back(coin.denom);
    lemma_text_back(coin.amount);
    lemma_after_bytes(f0, 1, vstd::utf8::encode_utf8(coin.denom), 1);
    lemma_after_bytes(f0, 1, vstd::utf8::encode_utf8(coin.denom), 2);
    lemma_after_bytes(f1, 2, vstd::utf8::encode_utf8(coin.amount), 1);
    lemma_after_bytes(f1, 2, vstd::utf8::encode_utf8(coin.amount), 2);
    assert(valid_fields(f2));
    lemma_decode_encode(f2);
}

impl Coin {
    /// Builds a coin from its two parts, unchanged.
    pub fn new(denom: String, amount: String) -> (coin: Self)
        ensures
            coin.denom == denom,
            coin.amount == amount,
    {
        Coin { denom, amount }
    }

    /// The wire bytes of this coin.
    pub fn to_proto_bytes(&self) -> (bytes: Vec<u8>)
        ensures
            bytes@ == coin_bytes(self@),
            parsed_coin(bytes@) == Some(self@),
    {
        let mut fields: Vec<Field> = Vec::new();
        assert(models(fields@) =~= Seq::<FieldModel>::empty());
        push_text(&mut fields, 1, self.denom.as_str());
        push_text(&mut fields, 2, self.amount.as_str());
        let denom_size: usize = self.denom.as_str().as_bytes().len();
        let amount_size: usize = self.amount.as_str().as_bytes().len();
        proof {
            lemma_coin_back(self@);
        }
        encode(&fields)
    }

    /// Reads a coin from its wire bytes; nothing where the bytes hold none.
    pub fn from_proto_bytes(bytes: &[u8]) -> (coin: Option<Coin>)
        ensures
            match coin {
                Some(c) => parsed_coin(bytes@) == Some(c@),
                None => parsed_coin(bytes@).is_none(),
            },
    {
        let fields = match decode(bytes) {
            Some(fields) => fields,
            None => {
                return None;
            },
        };
        match (text_in(&fields, 1), text_in(&fields, 2)) {
            (Some(denom), Some(amount)) => Some(Coin::new(denom, amount)),
            _ => None,
        }
    }
}

} // verus!

//! The provider's response shapes.
//!
//! A response is a JSON object holding a `"Meta Data"` object and one series
//! object keyed by calendar dates.  Field keys carry ordinal prefixes
//! (`"1. open"`); every numeric field is transmitted as a JSON string and is
//! coerced here into [`Decimal`] or `i64`.
//!
//! The provider's objects never repeat a key and its series keys are unique
//! dates.  For documents that break that, the policy here is uniform and
//! deliberate: a repeated field key reads as its first occurrence, and a
//! repeated series date yields one row per occurrence, in document order —
//! nothing is silently collapsed.

use vstd::prelude::*;
use vstd::string::StrSliceExecFns;
use crate::date::Date;
use crate::date::parse_date;
use crate::date::spec_date;
use crate::decimal::Decimal;
use crate::decimal::parse_decimal;
use crate::decimal::parse_int64;
use crate::decimal::spec_decimal;
use crate::decimal::spec_integer;
use crate::error::AlphaVantageError;
use crate::error::DeserializeError;
use crate::json::JsonModel;
use crate::json::JsonValue;
use crate::json::parse_json;
use crate::json::parse_document;
use crate::json::seq_member_models;

verus! {

/// The bytes of an ASCII character sequence.
pub open spec fn ascii_bytes(s: Seq<char>) -> Seq<u8> {
    Seq::new(s.len(), |i: int| s[i] as u8)
}

/// The value under `key` in an object's members: the first occurrence.
pub open spec fn obj_get(ms: Seq<(Seq<u8>, JsonModel)>, key: Seq<u8>) -> Option<JsonModel>
    decreases ms.len(),
{
    if ms.len() == 0 {
        None
    } else if ms.first().0 == key {
        Some(ms.first().1)
    } else {
        obj_get(ms.drop_first(), key)
    }
}

fn bytes_eq(a: &[u8], b: &[u8]) -> (r: bool)
    ensures
        r == (a@ == b@),
{
    if a.len() != b.len() {
        assert(a@ != b@);
        return false;
    }
    let n = a.len();
    let mut i: usize = 0;
    while i < n
        invariant
            i <= n,
            n == a@.len() == b@.len(),
            forall|j: int| 0 <= j < i ==> a@[j] == b@[j],
        decreases n - i,
    {
        if a[i] != b[i] {
            return false;
        }
        i = i + 1;
    }
    assert(a@ =~= b@);
    true
}

/// Looks a key up among an object's members; the first occurrence counts.
fn get_member<'a>(ms: &'a Vec<(Vec<u8>, JsonValue)>, key: &str) -> (r: Option<&'a JsonValue>)
    requires
        key.is_ascii(),
    ensures
        match r {
            Some(v) => obj_get(seq_member_models(ms@), ascii_bytes(key@)) == Some(v@),
            None => obj_get(seq_member_models(ms@), ascii_bytes(key@)) is None,
        },
{
    let kb: &[u8] = key.as_bytes();
    proof {
        broadcast use vstd::string::is_ascii_spec_bytes;

        assert(kb@ =~= ascii_bytes(key@));
    }
    let n = ms.len();
    let mut i: usize = 0;
    assert(seq_member_models(ms@).skip(0) =~= seq_member_models(ms@));
    while i < n
        invariant
            i <= n,
            n == ms@.len(),
            kb@ == ascii_bytes(key@),
            obj_get(seq_member_models(ms@), ascii_bytes(key@)) == obj_get(
                seq_member_models(ms@).skip(i as int),
                ascii_bytes(key@),
            ),
        decreases n - i,
    {
        let pair = &ms[i];
        proof {
            assert(seq_member_models(ms@).skip(i as int).first() == (
                ms@[i as int].0@,
                ms@[i as int].1.model(),
            ));
            assert(seq_member_models(ms@).skip(i as int).drop_first() =~= seq_member_models(
                ms@,
            ).skip(i as int + 1));
        }
        if bytes_eq(pair.0.as_slice(), kb) {
            return Some(&pair.1);
        }
        i = i + 1;
    }
    proof {
        assert(seq_member_models(ms@).skip(n as int) =~= Seq::<(Seq<u8>, JsonModel)>::empty());
    }
    None
}

/// The text under `key`, when the field is there and holds a string.
pub open spec fn text_field(ms: Seq<(Seq<u8>, JsonModel)>, key: Seq<u8>) -> Option<Seq<u8>> {
    match obj_get(ms, key) {
        Some(JsonModel::Text(b)) => Some(b),
        _ => None,
    }
}

/// The decimal number under `key`, when the field is there, holds a string,
/// and that string is a decimal number whose mantissa and scale fit.
pub open spec fn dec_field(ms: Seq<(Seq<u8>, JsonModel)>, key: Seq<u8>) -> Option<Decimal> {
    match obj_get(ms, key) {
        Some(JsonModel::Text(b)) => match spec_decimal(b) {
            Some(t) => if t.1 <= u64::MAX && t.2 <= u32::MAX {
                Some(Decimal { negative: t.0, mantissa: t.1 as u64, scale: t.2 as u32 })
            } else {
                None
            },
            None => None,
        },
        _ => None,
    }
}

/// The integer under `key`, when the field is there, holds a string, and
/// that string is a whole number that fits in `i64`.
pub open spec fn int_field(ms: Seq<(Seq<u8>, JsonModel)>, key: Seq<u8>) -> Option<i64> {
    match obj_get(ms, key) {
        Some(JsonModel::Text(b)) => match spec_integer(b) {
            Some(t) => if t.0 {
                if t.1 <= 0x8000_0000_0000_0000 {
                    Some((-(t.1 as int)) as i64)
                } else {
                    None
                }
            } else {
                if t.1 <= 0x7fff_ffff_ffff_ffff {
                    Some(t.1 as i64)
                } else {
                    None
                }
            },
            None => None,
        },
        _ => None,
    }
}

fn get_text_field(ms: &Vec<(Vec<u8>, JsonValue)>, key: &str) -> (r: Result<
    Vec<u8>,
    DeserializeError,
>)
    requires
        key.is_ascii(),
    ensures
        match r {
            Ok(b) => text_field(seq_member_models(ms@), ascii_bytes(key@)) == Some(b@),
            Err(_) => text_field(seq_member_models(ms@), ascii_bytes(key@)) is None,
        },
{
    match get_member(ms, key) {
        Some(v) => match v {
            JsonValue::Text(b) => Ok(b.clone()),
            _ => Err(DeserializeError::WrongType { field: key.as_bytes_vec() }),
        },
        None => Err(DeserializeError::MissingField { field: key.as_bytes_vec() }),
    }
}

fn get_dec_field(ms: &Vec<(Vec<u8>, JsonValue)>, key: &str) -> (r: Result<
    Decimal,
    DeserializeError,
>)
    requires
        key.is_ascii(),
    ensures
        match r {
            Ok(d) => dec_field(seq_member_models(ms@), ascii_bytes(key@)) == Some(d),
            Err(_) => dec_field(seq_member_models(ms@), ascii_bytes(key@)) is None,
        },
{
    match get_member(ms, key) {
        Some(v) => match v {
            JsonValue::Text(b) => match parse_decimal(b.as_slice()) {
                Some(d) => Ok(d),
                None => Err(
                    DeserializeError::BadNumber { field: key.as_bytes_vec(), raw: b.clone() },
                ),
            },
            _ => Err(DeserializeError::WrongType { field: key.as_bytes_vec() }),
        },
        None => Err(DeserializeError::MissingField { field: key.as_bytes_vec() }),
    }
}

fn get_int_field(ms: &Vec<(Vec<u8>, JsonValue)>, key: &str) -> (r: Result<i64, DeserializeError>)
    requires
        key.is_ascii(),
    ensures
        match r {
            Ok(v) => int_field(seq_member_models(ms@), ascii_bytes(key@)) == Some(v),
            Err(_) => int_field(seq_member_models(ms@), ascii_bytes(key@)) is None,
        },
{
    match get_member(ms, key) {
        Some(v) => match v {
            JsonValue::Text(b) => match parse_int64(b.as_slice()) {
                Some(n) => Ok(n),
                None => Err(
                    DeserializeError::BadNumber { field: key.as_bytes_vec(), raw: b.clone() },
                ),
            },
            _ => Err(DeserializeError::WrongType { field: key.as_bytes_vec() }),
        },
        None => Err(DeserializeError::MissingField { field: key.as_bytes_vec() }),
    }
}

// ===== Price rows =====

/// One trading period's prices and volume.
#[derive(Clone, Copy, Debug, PartialEq, Eq, Structural)]
pub struct PriceInfo {
    pub open: Decimal,
    pub high: Decimal,
    pub low: Decimal,
    pub close: Decimal,
    pub volume: i64,
}

/// One trading period's prices and volume, with adjustment data.  The split
/// coefficient may be absent from the payload; it then defaults to zero.
#[derive(Clone, Copy, Debug, PartialEq, Eq, Structural)]
pub struct AdjustedPriceInfo {
    pub open: Decimal,
    pub high: Decimal,
    pub low: Decimal,
    pub close: Decimal,
    pub adjusted_close: Decimal,
    pub volume: i64,
    pub dividend: Decimal,
    pub split_coefficient: Decimal,
}

/// The price row denoted by an object's members, if every field is there
/// and coerces.
pub open spec fn spec_price_info(ms: Seq<(Seq<u8>, JsonModel)>) -> Option<PriceInfo> {
    let open = dec_field(ms, ascii_bytes("1. open"@));
    let high = dec_field(ms, ascii_bytes("2. high"@));
    let low = dec_field(ms, ascii_bytes("3. low"@));
    let close = dec_field(ms, ascii_bytes("4. close"@));
    let volume = int_field(ms, ascii_bytes("5. volume"@));
    if open is Some && high is Some && low is Some && close is Some && volume is Some {
        Some(
            PriceInfo {
                open: open.unwrap(),
                high: high.unwrap(),
                low: low.unwrap(),
                close: close.unwrap(),
                volume: volume.unwrap(),
            },
        )
    } else {
        None
    }
}

/// The adjusted price row denoted by an object's members.  A missing split
/// coefficient defaults to zero; every other field is required.
pub open spec fn spec_adjusted_price_info(ms: Seq<(Seq<u8>, JsonModel)>) -> Option<
    AdjustedPriceInfo,
> {
    let open = dec_field(ms, ascii_bytes("1. open"@));
    let high = dec_field(ms, ascii_bytes("2. high"@));
    let low = dec_field(ms, ascii_bytes("3. low"@));
    let close = dec_field(ms, ascii_bytes("4. close"@));
    let adjusted_close = dec_field(ms, ascii_bytes("5. adjusted close"@));
    let volume = int_field(ms, ascii_bytes("6. volume"@));
    let dividend = dec_field(ms, ascii_bytes("7. dividend amount"@));
    let split = if obj_get(ms, ascii_bytes("8. split coefficient"@)) is None {
        Some(Decimal { negative: false, mantissa: 0, scale: 0 })
    } else {
        dec_field(ms, ascii_bytes("8. split coefficient"@))
    };
    if open is Some && high is Some && low is Some && close is Some && adjusted_close is Some
        && volume is Some && dividend is Some && split is Some {
        Some(
            AdjustedPriceInfo {
                open: open.unwrap(),
                high: high.unwrap(),
                low: low.unwrap(),
                close: close.unwrap(),
                adjusted_close: adjusted_close.unwrap(),
                volume: volume.unwrap(),
                dividend: dividend.unwrap(),
                split_coefficient: split.unwrap(),
            },
        )
    } else {
        None
    }
}

fn price_info_from_members(ms: &Vec<(Vec<u8>, JsonValue)>) -> (r: Result<
    PriceInfo,
    DeserializeError,
>)
    ensures
        match r {
            Ok(p) => spec_price_info(seq_member_models(ms@)) == Some(p),
            Err(_) => spec_price_info(seq_member_models(ms@)) is None,
        },
{
    proof {
        reveal_strlit("1. open");
        reveal_strlit("2. high");
        reveal_strlit("3. low");
        reveal_strlit("4. close");
        reveal_strlit("5. volume");
    }
    let open = match get_dec_field(ms, "1. open") {
        Ok(d) => d,
        Err(e) => {
            return Err(e);
        },
    };
    let high = match get_dec_field(ms, "2. high") {
        Ok(d) => d,
        Err(e) => {
            return Err(e);
        },
    };
    let low = match get_dec_field(ms, "3. low") {
        Ok(d) => d,
        Err(e) => {
            return Err(e);
        },
    };
    let close = match get_dec_field(ms, "4. close") {
        Ok(d) => d,
        Err(e) => {
            return Err(e);
        },
    };
    let volume = match get_int_field(ms, "5. volume") {
        Ok(v) => v,
        Err(e) => {
            return Err(e);
        },
    };
    Ok(PriceInfo { open, high, low, close, volume })
}

fn adjusted_price_info_from_members(ms: &Vec<(Vec<u8>, JsonValue)>) -> (r: Result<
    AdjustedPriceInfo,
    DeserializeError,
>)
    ensures
        match r {
            Ok(p) => spec_adjusted_price_info(seq_member_models(ms@)) == Some(p),
            Err(_) => spec_adjusted_price_info(seq_member_models(ms@)) is None,
        },
{
    proof {
        reveal_strlit("1. open");
        reveal_strlit("2. high");
        reveal_strlit("3. low");
        reveal_strlit("4. close");
        reveal_strlit("5. adjusted close");
        reveal_strlit("6. volume");
        reveal_strlit("7. dividend amount");
        reveal_strlit("8. split coefficient");
    }
    let open = match get_dec_field(ms, "1. open") {
        Ok(d) => d,
        Err(e) => {
            return Err(e);
        },
    };
    let high = match get_dec_field(ms, "2. high") {
        Ok(d) => d,
        Err(e) => {
            return Err(e);
        },
    };
    let low = match get_dec_field(ms, "3. low") {
        Ok(d) => d,
        Err(e) => {
            return Err(e);
        },
    };
    let close = match get_dec_field(ms, "4. close") {
        Ok(d) => d,
        Err(e) => {
            return Err(e);
        },
    };
    let adjusted_close = match get_dec_field(ms, "5. adjusted close") {
        Ok(d) => d,
        Err(e) => {
            return Err(e);
        },
    };
    let volume = match get_int_field(ms, "6. volume") {
        Ok(v) => v,
        Err(e) => {
            return Err(e);
        },
    };
    let dividend = match get_dec_field(ms, "7. dividend amount") {
        Ok(d) => d,
        Err(e) => {
            return Err(e);
        },
    };
    let split_coefficient = match get_member(ms, "8. split coefficient") {
        Some(_) => match get_dec_field(ms, "8. split coefficient") {
            Ok(d) => d,
            Err(e) => {
                return Err(e);
            },
        },
        None => Decimal::zero(),
    };
    Ok(
        AdjustedPriceInfo {
            open,
            high,
            low,
            close,
            adjusted_close,
            volume,
            dividend,
            split_coefficient,
        },
    )
}

/// Turns a whole document into an object's members, or the error naming
/// what went wrong.
fn members_of_document(body: &[u8]) -> (r: Result<Vec<(Vec<u8>, JsonValue)>, DeserializeError>)
    ensures
        match r {
            Ok(ms) => parse_document(body@) == Some(JsonModel::Object(seq_member_models(ms@))),
            Err(_) => !(parse_document(body@) matches Some(m) && m is Object),
        },
{
    match parse_json(body) {
        Some(v) => match v {
            JsonValue::Object(ms) => Ok(ms),
            _ => Err(DeserializeError::WrongShape),
        },
        None => Err(DeserializeError::Syntax),
    }
}

/// The price row denoted by a whole JSON document.
pub open spec fn spec_price_info_document(s: Seq<u8>) -> Option<PriceInfo> {
    match parse_document(s) {
        Some(JsonModel::Object(ms)) => spec_price_info(ms),
        _ => None,
    }
}

/// The adjusted price row denoted by a whole JSON document.
pub open spec fn spec_adjusted_price_info_document(s: Seq<u8>) -> Option<AdjustedPriceInfo> {
    match parse_document(s) {
        Some(JsonModel::Object(ms)) => spec_adjusted_price_info(ms),
        _ => None,
    }
}

/// Parses one price row from a JSON document.  Succeeds exactly when the
/// document is an object whose five fields are all there and coerce; the
/// result is then pinned field by field.
pub fn parse_price_info(body: &[u8]) -> (r: Result<PriceInfo, AlphaVantageError>)
    ensures
        match r {
            Ok(p) => spec_price_info_document(body@) == Some(p),
            Err(e) => spec_price_info_document(body@) is None && e is DeserializeError,
        },
{
    match members_of_document(body) {
        Ok(ms) => match price_info_from_members(&ms) {
            Ok(p) => Ok(p),
            Err(e) => Err(AlphaVantageError::DeserializeError(e)),
        },
        Err(e) => Err(AlphaVantageError::DeserializeError(e)),
    }
}

/// Parses one adjusted price row from a JSON document; a missing split
/// coefficient defaults to zero.
pub fn parse_adjusted_price_info(body: &[u8]) -> (r: Result<AdjustedPriceInfo, AlphaVantageError>)
    ensures
        match r {
            Ok(p) => spec_adjusted_price_info_document(body@) == Some(p),
            Err(e) => spec_adjusted_price_info_document(body@) is None && e is DeserializeError,
        },
{
    match members_of_document(body) {
        Ok(ms) => match adjusted_price_info_from_members(&ms) {
            Ok(p) => Ok(p),
            Err(e) => Err(AlphaVantageError::DeserializeError(e)),
        },
        Err(e) => Err(AlphaVantageError::DeserializeError(e)),
    }
}

// ===== Laws =====

/// Law: a price field whose string is not a decimal number fails the row
/// parse; no partial row is produced.
pub proof fn lemma_bad_price_field_rejects(ms: Seq<(Seq<u8>, JsonModel)>, key: Seq<char>)
    requires
        key == "1. open"@ || key == "2. high"@ || key == "3. low"@ || key == "4. close"@,
        obj_get(ms, ascii_bytes(key)) matches Some(v) && v matches JsonModel::Text(b)
            && spec_decimal(b) is None,
    ensures
        spec_price_info(ms) is None,
{
}

/// Law: a volume field whose string is not a whole number fails the row
/// parse; no partial row is produced.
pub proof fn lemma_bad_volume_field_rejects(ms: Seq<(Seq<u8>, JsonModel)>)
    requires
        obj_get(ms, ascii_bytes("5. volume"@)) matches Some(v) && v matches JsonModel::Text(b)
            && spec_integer(b) is None,
    ensures
        spec_price_info(ms) is None,
{
}

/// Law: an adjusted row's decimal field whose string is not a decimal
/// number fails the row parse; no partial row is produced.
pub proof fn lemma_bad_adjusted_field_rejects(ms: Seq<(Seq<u8>, JsonModel)>, key: Seq<char>)
    requires
        key == "1. open"@ || key == "2. high"@ || key == "3. low"@ || key == "4. close"@ || key
            == "5. adjusted close"@ || key == "7. dividend amount"@ || key
            == "8. split coefficient"@,
        obj_get(ms, ascii_bytes(key)) matches Some(v) && v matches JsonModel::Text(b)
            && spec_decimal(b) is None,
    ensures
        spec_adjusted_price_info(ms) is None,
{
}

/// Law: when the split coefficient is absent from an adjusted row that
/// otherwise parses, the row parses with a split coefficient of zero.
pub proof fn lemma_missing_split_defaults_to_zero(ms: Seq<(Seq<u8>, JsonModel)>)
    requires
        obj_get(ms, ascii_bytes("8. split coefficient"@)) is None,
        spec_adjusted_price_info(ms) is Some,
    ensures
        spec_adjusted_price_info(ms).unwrap().split_coefficient == (Decimal {
            negative: false,
            mantissa: 0,
            scale: 0,
        }),
{
}

// ===== Metadata =====

/// The response header of the weekly and monthly endpoints.
#[derive(Debug)]
pub struct MetaData {
    pub information: Vec<u8>,
    pub symbol: Vec<u8>,
    pub last_refreshed: Vec<u8>,
    pub tz: Vec<u8>,
}

/// The model of [`MetaData`].
pub struct MetaDataModel {
    pub information: Seq<u8>,
    pub symbol: Seq<u8>,
    pub last_refreshed: Seq<u8>,
    pub tz: Seq<u8>,
}

impl View for MetaData {
    type V = MetaDataModel;

    open spec fn view(&self) -> MetaDataModel {
        MetaDataModel {
            information: self.information@,
            symbol: self.symbol@,
            last_refreshed: self.last_refreshed@,
            tz: self.tz@,
        }
    }
}

/// The response header of the daily endpoints, which adds an output-size
/// field.
#[derive(Debug)]
pub struct MetaDataWithOutputSize {
    pub information: Vec<u8>,
    pub symbol: Vec<u8>,
    pub last_refreshed: Vec<u8>,
    pub size: Vec<u8>,
    pub tz: Vec<u8>,
}

/// The model of [`MetaDataWithOutputSize`].
pub struct MetaDataWithOutputSizeModel {
    pub information: Seq<u8>,
    pub symbol: Seq<u8>,
    pub last_refreshed: Seq<u8>,
    pub size: Seq<u8>,
    pub tz: Seq<u8>,
}

impl View for MetaDataWithOutputSize {
    type V = MetaDataWithOutputSizeModel;

    open spec fn view(&self) -> MetaDataWithOutputSizeModel {
        MetaDataWithOutputSizeModel {
            information: self.information@,
            symbol: self.symbol@,
            last_refreshed: self.last_refreshed@,
            size: self.size@,
            tz: self.tz@,
        }
    }
}

/// The metadata denoted by an object's members, if its four fields are
/// there and hold strings.
pub open spec fn spec_metadata(ms: Seq<(Seq<u8>, JsonModel)>) -> Option<MetaDataModel> {
    let information = text_field(ms, ascii_bytes("1. Information"@));
    let symbol = text_field(ms, ascii_bytes("2. Symbol"@));
    let last_refreshed = text_field(ms, ascii_bytes("3. Last Refreshed"@));
    let tz = text_field(ms, ascii_bytes("4. Time Zone"@));
    if information is Some && symbol is Some && last_refreshed is Some && tz is Some {
        Some(
            MetaDataModel {
                information: information.unwrap(),
                symbol: symbol.unwrap(),
                last_refreshed: last_refreshed.unwrap(),
                tz: tz.unwrap(),
            },
        )
    } else {
        None
    }
}

/// The metadata with output size denoted by an object's members.
pub open spec fn spec_metadata_with_size(ms: Seq<(Seq<u8>, JsonModel)>) -> Option<
    MetaDataWithOutputSizeModel,
> {
    let information = text_field(ms, ascii_bytes("1. Information"@));
    let symbol = text_field(ms, ascii_bytes("2. Symbol"@));
    let last_refreshed = text_field(ms, ascii_bytes("3. Last Refreshed"@));
    let size = text_field(ms, ascii_bytes("4. Output Size"@));
    let tz = text_field(ms, ascii_bytes("5. Time Zone"@));
    if information is Some && symbol is Some && last_refreshed is Some && size is Some
        && tz is Some {
        Some(
            MetaDataWithOutputSizeModel {
                information: information.unwrap(),
                symbol: symbol.unwrap(),
                last_refreshed: last_refreshed.unwrap(),
                size: size.unwrap(),
                tz: tz.unwrap(),
            },
        )
    } else {
        None
    }
}

fn metadata_from_members(ms: &Vec<(Vec<u8>, JsonValue)>) -> (r: Result<MetaData, DeserializeError>)
    ensures
        match r {
            Ok(m) => spec_metadata(seq_member_models(ms@)) == Some(m@),
            Err(_) => spec_metadata(seq_member_models(ms@)) is None,
        },
{
    proof {
        reveal_strlit("1. Information");
        reveal_strlit("2. Symbol");
        reveal_strlit("3. Last Refreshed");
        reveal_strlit("4. Time Zone");
    }
    let information = match get_text_field(ms, "1. Information") {
        Ok(b) => b,
        Err(e) => {
            return Err(e);
        },
    };
    let symbol = match get_text_field(ms, "2. Symbol") {
        Ok(b) => b,
        Err(e) => {
            return Err(e);
        },
    };
    let last_refreshed = match get_text_field(ms, "3. Last Refreshed") {
        Ok(b) => b,
        Err(e) => {
            return Err(e);
        },
    };
    let tz = match get_text_field(ms, "4. Time Zone") {
        Ok(b) => b,
        Err(e) => {
            return Err(e);
        },
    };
    Ok(MetaData { information, symbol, last_refreshed, tz })
}

fn metadata_with_size_from_members(ms: &Vec<(Vec<u8>, JsonValue)>) -> (r: Result<
    MetaDataWithOutputSize,
    DeserializeError,
>)
    ensures
        match r {
            Ok(m) => spec_metadata_with_size(seq_member_models(ms@)) == Some(m@),
            Err(_) => spec_metadata_with_size(seq_member_models(ms@)) is None,
        },
{
    proof {
        reveal_strlit("1. Information");
        reveal_strlit("2. Symbol");
        reveal_strlit("3. Last Refreshed");
        reveal_strlit("4. Output Size");
        reveal_strlit("5. Time Zone");
    }
    let information = match get_text_field(ms, "1. Information") {
        Ok(b) => b,
        Err(e) => {
            return Err(e);
        },
    };
    let symbol = match get_text_field(ms, "2. Symbol") {
        Ok(b) => b,
        Err(e) => {
            return Err(e);
        },
    };
    let last_refreshed = match get_text_field(ms, "3. Last Refreshed") {
        Ok(b) => b,
        Err(e) => {
            return Err(e);
        },
    };
    let size = match get_text_field(ms, "4. Output Size") {
        Ok(b) => b,
        Err(e) => {
            return Err(e);
        },
    };
    let tz = match get_text_field(ms, "5. Time Zone") {
        Ok(b) => b,
        Err(e) => {
            return Err(e);
        },
    };
    Ok(MetaDataWithOutputSize { information, symbol, last_refreshed, size, tz })
}

// ===== Series =====

/// The date-keyed price rows denoted by a series object's members, in
/// document order, appended to `acc`.
pub open spec fn spec_plain_series(
    ms: Seq<(Seq<u8>, JsonModel)>,
    acc: Seq<(Date, PriceInfo)>,
) -> Option<Seq<(Date, PriceInfo)>>
    decreases ms.len(),
{
    if ms.len() == 0 {
        Some(acc)
    } else {
        match spec_date(ms.first().0) {
            Some(d) => match ms.first().1 {
                JsonModel::Object(obj) => match spec_price_info(obj) {
                    Some(p) => spec_plain_series(ms.drop_first(), acc.push((d, p))),
                    None => None,
                },
                _ => None,
            },
            None => None,
        }
    }
}

/// The date-keyed adjusted price rows denoted by a series object's members.
pub open spec fn spec_adjusted_series(
    ms: Seq<(Seq<u8>, JsonModel)>,
    acc: Seq<(Date, AdjustedPriceInfo)>,
) -> Option<Seq<(Date, AdjustedPriceInfo)>>
    decreases ms.len(),
{
    if ms.len() == 0 {
        Some(acc)
    } else {
        match spec_date(ms.first().0) {
            Some(d) => match ms.first().1 {
                JsonModel::Object(obj) => match spec_adjusted_price_info(obj) {
                    Some(p) => spec_adjusted_series(ms.drop_first(), acc.push((d, p))),
                    None => None,
                },
                _ => None,
            },
            None => None,
        }
    }
}

fn plain_series_from_members(ms: &Vec<(Vec<u8>, JsonValue)>) -> (r: Result<
    Vec<(Date, PriceInfo)>,
    DeserializeError,
>)
    ensures
        match r {
            Ok(rows) => spec_plain_series(seq_member_models(ms@), Seq::empty()) == Some(rows@),
            Err(_) => spec_plain_series(seq_member_models(ms@), Seq::empty()) is None,
        },
{
    let n = ms.len();
    let mut i: usize = 0;
    let mut rows: Vec<(Date, PriceInfo)> = Vec::new();
    assert(seq_member_models(ms@).skip(0) =~= seq_member_models(ms@));
    while i < n
        invariant
            i <= n,
            n == ms@.len(),
            spec_plain_series(seq_member_models(ms@), Seq::empty()) == spec_plain_series(
                seq_member_models(ms@).skip(i as int),
                rows@,
            ),
        decreases n - i,
    {
        let pair = &ms[i];
        proof {
            assert(seq_member_models(ms@).skip(i as int).first() == (
                ms@[i as int].0@,
                ms@[i as int].1.model(),
            ));
            assert(seq_member_models(ms@).skip(i as int).drop_first() =~= seq_member_models(
                ms@,
            ).skip(i as int + 1));
        }
        let d = match parse_date(pair.0.as_slice()) {
            Some(d) => d,
            None => {
                return Err(DeserializeError::BadDate { raw: pair.0.clone() });
            },
        };
        match &pair.1 {
            JsonValue::Object(obj) => match price_info_from_members(obj) {
                Ok(p) => {
                    rows.push((d, p));
                },
                Err(e) => {
                    return Err(e);
                },
            },
            _ => {
                return Err(DeserializeError::WrongShape);
            },
        }
        i = i + 1;
    }
    proof {
        assert(seq_member_models(ms@).skip(n as int) =~= Seq::<(Seq<u8>, JsonModel)>::empty());
    }
    Ok(rows)
}

fn adjusted_series_from_members(ms: &Vec<(Vec<u8>, JsonValue)>) -> (r: Result<
    Vec<(Date, AdjustedPriceInfo)>,
    DeserializeError,
>)
    ensures
        match r {
            Ok(rows) => spec_adjusted_series(seq_member_models(ms@), Seq::empty()) == Some(rows@),
            Err(_) => spec_adjusted_series(seq_member_models(ms@), Seq::empty()) is None,
        },
{
    let n = ms.len();
    let mut i: usize = 0;
    let mut rows: Vec<(Date, AdjustedPriceInfo)> = Vec::new();
    assert(seq_member_models(ms@).skip(0) =~= seq_member_models(ms@));
    while i < n
        invariant
            i <= n,
            n == ms@.len(),
            spec_adjusted_series(seq_member_models(ms@), Seq::empty()) == spec_adjusted_series(
                seq_member_models(ms@).skip(i as int),
                rows@,
            ),
        decreases n - i,
    {
        let pair = &ms[i];
        proof {
            assert(seq_member_models(ms@).skip(i as int).first() == (
                ms@[i as int].0@,
                ms@[i as int].1.model(),
            ));
            assert(seq_member_models(ms@).skip(i as int).drop_first() =~= seq_member_models(
                ms@,
            ).skip(i as int + 1));
        }
        let d = match parse_date(pair.0.as_slice()) {
            Some(d) => d,
            None => {
                return Err(DeserializeError::BadDate { raw: pair.0.clone() });
            },
        };
        match &pair.1 {
            JsonValue::Object(obj) => match adjusted_price_info_from_members(obj) {
                Ok(p) => {
                    rows.push((d, p));
                },
                Err(e) => {
                    return Err(e);
                },
            },
            _ => {
                return Err(DeserializeError::WrongShape);
            },
        }
        i = i + 1;
    }
    proof {
        assert(seq_member_models(ms@).skip(n as int) =~= Seq::<(Seq<u8>, JsonModel)>::empty());
    }
    Ok(rows)
}

// ===== Responses =====

/// One endpoint's response: a header and the date-keyed price rows, in
/// document order.
pub struct TimeSeriesResponse<M, P> {
    pub metadata: M,
    pub prices: Vec<(Date, P)>,
}

impl<M: View, P> View for TimeSeriesResponse<M, P> {
    type V = (M::V, Seq<(Date, P)>);

    open spec fn view(&self) -> (M::V, Seq<(Date, P)>) {
        (self.metadata.view(), self.prices@)
    }
}

pub type TimeSeriesDailyResponse = TimeSeriesResponse<MetaDataWithOutputSize, PriceInfo>;

pub type TimeSeriesDailyAdjustedResponse = TimeSeriesResponse<
    MetaDataWithOutputSize,
    AdjustedPriceInfo,
>;

pub type TimeSeriesWeeklyResponse = TimeSeriesResponse<MetaData, PriceInfo>;

pub type TimeSeriesWeeklyAdjustedResponse = TimeSeriesResponse<MetaData, AdjustedPriceInfo>;

pub type TimeSeriesMonthlyResponse = TimeSeriesResponse<MetaData, PriceInfo>;

pub type TimeSeriesMonthlyAdjustedResponse = TimeSeriesResponse<MetaData, AdjustedPriceInfo>;

/// The `"Meta Data"` object of the document, when the document is an
/// object and that member is an object.
pub open spec fn spec_meta_object(s: Seq<u8>) -> Option<Seq<(Seq<u8>, JsonModel)>> {
    match parse_document(s) {
        Some(JsonModel::Object(top)) => match obj_get(top, ascii_bytes("Meta Data"@)) {
            Some(JsonModel::Object(mm)) => Some(mm),
            _ => None,
        },
        _ => None,
    }
}

/// The series object under `skey`, when the document is an object and that
/// member is an object.
pub open spec fn spec_series_object(s: Seq<u8>, skey: Seq<u8>) -> Option<
    Seq<(Seq<u8>, JsonModel)>,
> {
    match parse_document(s) {
        Some(JsonModel::Object(top)) => match obj_get(top, skey) {
            Some(JsonModel::Object(sm)) => Some(sm),
            _ => None,
        },
        _ => None,
    }
}

/// A whole response with output-size metadata and plain rows.
pub open spec fn spec_response_size_plain(s: Seq<u8>, skey: Seq<u8>) -> Option<
    (MetaDataWithOutputSizeModel, Seq<(Date, PriceInfo)>),
> {
    match spec_meta_object(s) {
        Some(mm) => match spec_metadata_with_size(mm) {
            Some(meta) => match spec_series_object(s, skey) {
                Some(sm) => match spec_plain_series(sm, Seq::empty()) {
                    Some(rows) => Some((meta, rows)),
                    None => None,
                },
                None => None,
            },
            None => None,
        },
        None => None,
    }
}

/// A whole response with output-size metadata and adjusted rows.
pub open spec fn spec_response_size_adjusted(s: Seq<u8>, skey: Seq<u8>) -> Option<
    (MetaDataWithOutputSizeModel, Seq<(Date, AdjustedPriceInfo)>),
> {
    match spec_meta_object(s) {
        Some(mm) => match spec_metadata_with_size(mm) {
            Some(meta) => match spec_series_object(s, skey) {
                Some(sm) => match spec_adjusted_series(sm, Seq::empty()) {
                    Some(rows) => Some((meta, rows)),
                    None => None,
                },
                None => None,
            },
            None => None,
        },
        None => None,
    }
}

/// A whole response with plain metadata and plain rows.
pub open spec fn spec_response_plain(s: Seq<u8>, skey: Seq<u8>) -> Option<
    (MetaDataModel, Seq<(Date, PriceInfo)>),
> {
    match spec_meta_object(s) {
        Some(mm) => match spec_metadata(mm) {
            Some(meta) => match spec_series_object(s, skey) {
                Some(sm) => match spec_plain_series(sm, Seq::empty()) {
                    Some(rows) => Some((meta, rows)),
                    None => None,
                },
                None => None,
            },
            None => None,
        },
        None => None,
    }
}

/// A whole response with plain metadata and adjusted rows.
pub open spec fn spec_response_adjusted(s: Seq<u8>, skey: Seq<u8>) -> Option<
    (MetaDataModel, Seq<(Date, AdjustedPriceInfo)>),
> {
    match spec_meta_object(s) {
        Some(mm) => match spec_metadata(mm) {
            Some(meta) => match spec_series_object(s, skey) {
                Some(sm) => match spec_adjusted_series(sm, Seq::empty()) {
                    Some(rows) => Some((meta, rows)),
                    None => None,
                },
                None => None,
            },
            None => None,
        },
        None => None,
    }
}

fn response_size_plain(body: &[u8], skey: &str) -> (r: Result<
    TimeSeriesResponse<MetaDataWithOutputSize, PriceInfo>,
    DeserializeError,
>)
    requires
        skey.is_ascii(),
    ensures
        match r {
            Ok(resp) => spec_response_size_plain(body@, ascii_bytes(skey@)) == Some(resp@),
            Err(_) => spec_response_size_plain(body@, ascii_bytes(skey@)) is None,
        },
{
    proof {
        reveal_strlit("Meta Data");
    }
    let top = match members_of_document(body) {
        Ok(t) => t,
        Err(e) => {
            return Err(e);
        },
    };
    let meta = match get_member(&top, "Meta Data") {
        Some(v) => match v {
            JsonValue::Object(mm) => match metadata_with_size_from_members(mm) {
                Ok(m) => m,
                Err(e) => {
                    return Err(e);
                },
            },
            _ => {
                return Err(DeserializeError::WrongType { field: "Meta Data".as_bytes_vec() });
            },
        },
        None => {
            return Err(DeserializeError::MissingField { field: "Meta Data".as_bytes_vec() });
        },
    };
    let rows = match get_member(&top, skey) {
        Some(v) => match v {
            JsonValue::Object(sm) => match plain_series_from_members(sm) {
                Ok(rs) => rs,
                Err(e) => {
                    return Err(e);
                },
            },
            _ => {
                return Err(DeserializeError::WrongType { field: skey.as_bytes_vec() });
            },
        },
        None => {
            return Err(DeserializeError::MissingField { field: skey.as_bytes_vec() });
        },
    };
    Ok(TimeSeriesResponse { metadata: meta, prices: rows })
}

fn response_size_adjusted(body: &[u8], skey: &str) -> (r: Result<
    TimeSeriesResponse<MetaDataWithOutputSize, AdjustedPriceInfo>,
    DeserializeError,
>)
    requires
        skey.is_ascii(),
    ensures
        match r {
            Ok(resp) => spec_response_size_adjusted(body@, ascii_bytes(skey@)) == Some(resp@),
            Err(_) => spec_response_size_adjusted(body@, ascii_bytes(skey@)) is None,
        },
{
    proof {
        reveal_strlit("Meta Data");
    }
    let top = match members_of_document(body) {
        Ok(t) => t,
        Err(e) => {
            return Err(e);
        },
    };
    let meta = match get_member(&top, "Meta Data") {
        Some(v) => match v {
            JsonValue::Object(mm) => match metadata_with_size_from_members(mm) {
                Ok(m) => m,
                Err(e) => {
                    return Err(e);
                },
            },
            _ => {
                return Err(DeserializeError::WrongType { field: "Meta Data".as_bytes_vec() });
            },
        },
        None => {
            return Err(DeserializeError::MissingField { field: "Meta Data".as_bytes_vec() });
        },
    };
    let rows = match get_member(&top, skey) {
        Some(v) => match v {
            JsonValue::Object(sm) => match adjusted_series_from_members(sm) {
                Ok(rs) => rs,
                Err(e) => {
                    return Err(e);
                },
            },
            _ => {
                return Err(DeserializeError::WrongType { field: skey.as_bytes_vec() });
            },
        },
        None => {
            return Err(DeserializeError::MissingField { field: skey.as_bytes_vec() });
        },
    };
    Ok(TimeSeriesResponse { metadata: meta, prices: rows })
}

fn response_plain(body: &[u8], skey: &str) -> (r: Result<
    TimeSeriesResponse<MetaData, PriceInfo>,
    DeserializeError,
>)
    requires
        skey.is_ascii(),
    ensures
        match r {
            Ok(resp) => spec_response_plain(body@, ascii_bytes(skey@)) == Some(resp@),
            Err(_) => spec_response_plain(body@, ascii_bytes(skey@)) is None,
        },
{
    proof {
        reveal_strlit("Meta Data");
    }
    let top = match members_of_document(body) {
        Ok(t) => t,
        Err(e) => {
            return Err(e);
        },
    };
    let meta = match get_member(&top, "Meta Data") {
        Some(v) => match v {
            JsonValue::Object(mm) => match metadata_from_members(mm) {
                Ok(m) => m,
                Err(e) => {
                    return Err(e);
                },
            },
            _ => {
                return Err(DeserializeError::WrongType { field: "Meta Data".as_bytes_vec() });
            },
        },
        None => {
            return Err(DeserializeError::MissingField { field: "Meta Data".as_bytes_vec() });
        },
    };
    let rows = match get_member(&top, skey) {
        Some(v) => match v {
            JsonValue::Object(sm) => match plain_series_from_members(sm) {
                Ok(rs) => rs,
                Err(e) => {
                    return Err(e);
                },
            },
            _ => {
                return Err(DeserializeError::WrongType { field: skey.as_bytes_vec() });
            },
        },
        None => {
            return Err(DeserializeError::MissingField { field: skey.as_bytes_vec() });
        },
    };
    Ok(TimeSeriesResponse { metadata: meta, prices: rows })
}

fn response_adjusted(body: &[u8], skey: &str) -> (r: Result<
    TimeSeriesResponse<MetaData, AdjustedPriceInfo>,
    DeserializeError,
>)
    requires
        skey.is_ascii(),
    ensures
        match r {
            Ok(resp) => spec_response_adjusted(body@, ascii_bytes(skey@)) == Some(resp@),
            Err(_) => spec_response_adjusted(body@, ascii_bytes(skey@)) is None,
        },
{
    proof {
        reveal_strlit("Meta Data");
    }
    let top = match members_of_document(body) {
        Ok(t) => t,
        Err(e) => {
            return Err(e);
        },
    };
    let meta = match get_member(&top, "Meta Data") {
        Some(v) => match v {
            JsonValue::Object(mm) => match metadata_from_members(mm) {
                Ok(m) => m,
                Err(e) => {
                    return Err(e);
                },
            },
            _ => {
                return Err(DeserializeError::WrongType { field: "Meta Data".as_bytes_vec() });
            },
        },
        None => {
            return Err(DeserializeError::MissingField { field: "Meta Data".as_bytes_vec() });
        },
    };
    let rows = match get_member(&top, skey) {
        Some(v) => match v {
            JsonValue::Object(sm) => match adjusted_series_from_members(sm) {
                Ok(rs) => rs,
                Err(e) => {
                    return Err(e);
                },
            },
            _ => {
                return Err(DeserializeError::WrongType { field: skey.as_bytes_vec() });
            },
        },
        None => {
            return Err(DeserializeError::MissingField { field: skey.as_bytes_vec() });
        },
    };
    Ok(TimeSeriesResponse { metadata: meta, prices: rows })
}

/// The model of the daily endpoint's response body.
pub open spec fn spec_time_series_daily(s: Seq<u8>) -> Option<
    (MetaDataWithOutputSizeModel, Seq<(Date, PriceInfo)>),
> {
    spec_response_size_plain(s, ascii_bytes("Time Series (Daily)"@))
}

/// The model of the daily adjusted endpoint's response body; it reuses the
/// daily series label.
pub open spec fn spec_time_series_daily_adjusted(s: Seq<u8>) -> Option<
    (MetaDataWithOutputSizeModel, Seq<(Date, AdjustedPriceInfo)>),
> {
    spec_response_size_adjusted(s, ascii_bytes("Time Series (Daily)"@))
}

/// The model of the weekly endpoint's response body.
pub open spec fn spec_time_series_weekly(s: Seq<u8>) -> Option<
    (MetaDataModel, Seq<(Date, PriceInfo)>),
> {
    spec_response_plain(s, ascii_bytes("Weekly Time Series"@))
}

/// The model of the weekly adjusted endpoint's response body.
pub open spec fn spec_time_series_weekly_adjusted(s: Seq<u8>) -> Option<
    (MetaDataModel, Seq<(Date, AdjustedPriceInfo)>),
> {
    spec_response_adjusted(s, ascii_bytes("Weekly Adjusted Time Series"@))
}

/// The model of the monthly endpoint's response body.
pub open spec fn spec_time_series_monthly(s: Seq<u8>) -> Option<
    (MetaDataModel, Seq<(Date, PriceInfo)>),
> {
    spec_response_plain(s, ascii_bytes("Monthly Time Series"@))
}

/// The model of the monthly adjusted endpoint's response body.
pub open spec fn spec_time_series_monthly_adjusted(s: Seq<u8>) -> Option<
    (MetaDataModel, Seq<(Date, AdjustedPriceInfo)>),
> {
    spec_response_adjusted(s, ascii_bytes("Monthly Adjusted Time Series"@))
}

/// Parses the daily endpoint's response body.
pub fn parse_time_series_daily(body: &[u8]) -> (r: Result<
    TimeSeriesDailyResponse,
    AlphaVantageError,
>)
    ensures
        match r {
            Ok(resp) => spec_time_series_daily(body@) == Some(resp@),
            Err(e) => spec_time_series_daily(body@) is None && e is DeserializeError,
        },
{
    proof {
        reveal_strlit("Time Series (Daily)");
    }
    match response_size_plain(body, "Time Series (Daily)") {
        Ok(resp) => Ok(resp),
        Err(e) => Err(AlphaVantageError::DeserializeError(e)),
    }
}

/// Parses the daily adjusted endpoint's response body.
pub fn parse_time_series_daily_adjusted(body: &[u8]) -> (r: Result<
    TimeSeriesDailyAdjustedResponse,
    AlphaVantageError,
>)
    ensures
        match r {
            Ok(resp) => spec_time_series_daily_adjusted(body@) == Some(resp@),
            Err(e) => spec_time_series_daily_adjusted(body@) is None && e is DeserializeError,
        },
{
    proof {
        reveal_strlit("Time Series (Daily)");
    }
    match response_size_adjusted(body, "Time Series (Daily)") {
        Ok(resp) => Ok(resp),
        Err(e) => Err(AlphaVantageError::DeserializeError(e)),
    }
}

/// Parses the weekly endpoint's response body.
pub fn parse_time_series_weekly(body: &[u8]) -> (r: Result<
    TimeSeriesWeeklyResponse,
    AlphaVantageError,
>)
    ensures
        match r {
            Ok(resp) => spec_time_series_weekly(body@) == Some(resp@),
            Err(e) => spec_time_series_weekly(body@) is None && e is DeserializeError,
        },
{
    proof {
        reveal_strlit("Weekly Time Series");
    }
    match response_plain(body, "Weekly Time Series") {
        Ok(resp) => Ok(resp),
        Err(e) => Err(AlphaVantageError::DeserializeError(e)),
    }
}

/// Parses the weekly adjusted endpoint's response body.
pub fn parse_time_series_weekly_adjusted(body: &[u8]) -> (r: Result<
    TimeSeriesWeeklyAdjustedResponse,
    AlphaVantageError,
>)
    ensures
        match r {
            Ok(resp) => spec_time_series_weekly_adjusted(body@) == Some(resp@),
            Err(e) => spec_time_series_weekly_adjusted(body@) is None && e is DeserializeError,
        },
{
    proof {
        reveal_strlit("Weekly Adjusted Time Series");
    }
    match response_adjusted(body, "Weekly Adjusted Time Series") {
        Ok(resp) => Ok(resp),
        Err(e) => Err(AlphaVantageError::DeserializeError(e)),
    }
}

/// Parses the monthly endpoint's response body.
pub fn parse_time_series_monthly(body: &[u8]) -> (r: Result<
    TimeSeriesMonthlyResponse,
    AlphaVantageError,
>)
    ensures
        match r {
            Ok(resp) => spec_time_series_monthly(body@) == Some(resp@),
            Err(e) => spec_time_series_monthly(body@) is None && e is DeserializeError,
        },
{
    proof {
        reveal_strlit("Monthly Time Series");
    }
    match response_plain(body, "Monthly Time Series") {
        Ok(resp) => Ok(resp),
        Err(e) => Err(AlphaVantageError::DeserializeError(e)),
    }
}

/// Parses the monthly adjusted endpoint's response body.
pub fn parse_time_series_monthly_adjusted(body: &[u8]) -> (r: Result<
    TimeSeriesMonthlyAdjustedResponse,
    AlphaVantageError,
>)
    ensures
        match r {
            Ok(resp) => spec_time_series_monthly_adjusted(body@) == Some(resp@),
            Err(e) => spec_time_series_monthly_adjusted(body@) is None && e is DeserializeError,
        },
{
    proof {
        reveal_strlit("Monthly Adjusted Time Series");
    }
    match response_adjusted(body, "Monthly Adjusted Time Series") {
        Ok(resp) => Ok(resp),
        Err(e) => Err(AlphaVantageError::DeserializeError(e)),
    }
}

} // verus!

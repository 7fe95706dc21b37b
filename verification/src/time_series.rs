//! The normalized domain model.
//!
//! Converting a provider response yields a [`TimeSeries`]: one
//! [`AssetTradeInfo`] per trading period, in the order the rows stood in the
//! document, each date promoted to its midnight-UTC timestamp.  The open,
//! high, low, close and volume are copied verbatim; the adjustment fields of
//! adjusted sources are deliberately dropped here, since the normalized
//! shape carries plain price action only.  The sampling interval is the
//! caller's choice, so it can follow the endpoint the response came from.

use vstd::prelude::*;
use crate::date::Date;
use crate::decimal::Decimal;
use crate::response::AdjustedPriceInfo;
use crate::response::MetaData;
use crate::response::MetaDataWithOutputSize;
use crate::response::PriceInfo;
use crate::response::TimeSeriesResponse;

verus! {

/// One normalized trading period: a midnight-UTC timestamp in seconds since
/// the epoch, and the period's price action.
#[derive(Clone, Copy, Debug, PartialEq, Eq, Structural)]
pub struct AssetTradeInfo {
    pub timestamp: i64,
    pub open: Decimal,
    pub high: Decimal,
    pub low: Decimal,
    pub close: Decimal,
    pub volume: i64,
}

impl AssetTradeInfo {
    /// Bundles one trading period's fields.
    pub fn new(timestamp: i64, open: Decimal, high: Decimal, low: Decimal, close: Decimal, volume: i64) -> (r:
        AssetTradeInfo)
        ensures
            r == (AssetTradeInfo { timestamp, open, high, low, close, volume }),
    {
        AssetTradeInfo { timestamp, open, high, low, close, volume }
    }
}

/// A normalized series: the records in document order, and the sampling
/// interval between nominal observations, in seconds.  No chronological
/// order is enforced; a consumer that needs one must sort.
#[derive(Debug)]
pub struct TimeSeries {
    pub data: Vec<AssetTradeInfo>,
    pub interval: i64,
}

impl TimeSeries {
    /// Bundles records and an interval.
    pub fn new(data: Vec<AssetTradeInfo>, interval: i64) -> (r: TimeSeries)
        ensures
            r.data@ == data@,
            r.interval == interval,
    {
        TimeSeries { data, interval }
    }
}

/// The normalized records of plain rows, element-wise.
pub open spec fn spec_normalize_plain(prices: Seq<(Date, PriceInfo)>) -> Seq<AssetTradeInfo> {
    Seq::new(
        prices.len(),
        |i: int|
            AssetTradeInfo {
                timestamp: (86400 * prices[i].0.spec_epoch_days()) as i64,
                open: prices[i].1.open,
                high: prices[i].1.high,
                low: prices[i].1.low,
                close: prices[i].1.close,
                volume: prices[i].1.volume,
            },
    )
}

/// The normalized records of adjusted rows, element-wise; the adjustment
/// fields are dropped.
pub open spec fn spec_normalize_adjusted(prices: Seq<(Date, AdjustedPriceInfo)>) -> Seq<
    AssetTradeInfo,
> {
    Seq::new(
        prices.len(),
        |i: int|
            AssetTradeInfo {
                timestamp: (86400 * prices[i].0.spec_epoch_days()) as i64,
                open: prices[i].1.open,
                high: prices[i].1.high,
                low: prices[i].1.low,
                close: prices[i].1.close,
                volume: prices[i].1.volume,
            },
    )
}

impl TimeSeriesResponse<MetaDataWithOutputSize, PriceInfo> {
    /// Converts this response into the normalized series, with the given
    /// sampling interval in seconds.
    pub fn to_time_series(&self, interval_seconds: i64) -> (r: TimeSeries)
        requires
            forall|i: int| 0 <= i < self.prices@.len() ==> (#[trigger] self.prices@[i]).0.valid(),
        ensures
            r.interval == interval_seconds,
            r.data@ == spec_normalize_plain(self.prices@),
    {
        let n = self.prices.len();
        let mut data: Vec<AssetTradeInfo> = Vec::new();
        let mut i: usize = 0;
        while i < n
            invariant
                i <= n,
                n == self.prices@.len(),
                forall|j: int|
                    0 <= j < self.prices@.len() ==> (#[trigger] self.prices@[j]).0.valid(),
                data@.len() == i,
                forall|j: int|
                    0 <= j < i ==> data@[j] == #[trigger] spec_normalize_plain(self.prices@)[j],
            decreases n - i,
        {
            let row = &self.prices[i];
            data.push(
                AssetTradeInfo::new(
                    row.0.epoch_seconds(),
                    row.1.open,
                    row.1.high,
                    row.1.low,
                    row.1.close,
                    row.1.volume,
                ),
            );
            i = i + 1;
        }
        assert(data@ =~= spec_normalize_plain(self.prices@));
        TimeSeries::new(data, interval_seconds)
    }
}

impl TimeSeriesResponse<MetaData, AdjustedPriceInfo> {
    /// Converts this response into the normalized series, with the given
    /// sampling interval in seconds.  The adjusted close, dividend and split
    /// coefficient are dropped: the normalized shape carries plain price
    /// action only.
    pub fn to_time_series(&self, interval_seconds: i64) -> (r: TimeSeries)
        requires
            forall|i: int| 0 <= i < self.prices@.len() ==> (#[trigger] self.prices@[i]).0.valid(),
        ensures
            r.interval == interval_seconds,
            r.data@ == spec_normalize_adjusted(self.prices@),
    {
        let n = self.prices.len();
        let mut data: Vec<AssetTradeInfo> = Vec::new();
        let mut i: usize = 0;
        while i < n
            invariant
                i <= n,
                n == self.prices@.len(),
                forall|j: int|
                    0 <= j < self.prices@.len() ==> (#[trigger] self.prices@[j]).0.valid(),
                data@.len() == i,
                forall|j: int|
                    0 <= j < i ==> data@[j] == #[trigger] spec_normalize_adjusted(self.prices@)[j],
            decreases n - i,
        {
            let row = &self.prices[i];
            data.push(
                AssetTradeInfo::new(
                    row.0.epoch_seconds(),
                    row.1.open,
                    row.1.high,
                    row.1.low,
                    row.1.close,
                    row.1.volume,
                ),
            );
            i = i + 1;
        }
        assert(data@ =~= spec_normalize_adjusted(self.prices@));
        TimeSeries::new(data, interval_seconds)
    }
}

/// Law: normalizing plain rows keeps the number of records, and each
/// record's open, high, low, close and volume, in order.
pub proof fn lemma_normalization_preserves_rows(prices: Seq<(Date, PriceInfo)>)
    ensures
        spec_normalize_plain(prices).len() == prices.len(),
        forall|i: int|
            0 <= i < prices.len() ==> {
                let a = #[trigger] spec_normalize_plain(prices)[i];
                a.open == prices[i].1.open && a.high == prices[i].1.high && a.low
                    == prices[i].1.low && a.close == prices[i].1.close && a.volume
                    == prices[i].1.volume
            },
{
}

/// Law: normalizing adjusted rows keeps the number of records, and each
/// record's open, high, low, close and volume, in order.
pub proof fn lemma_adjusted_normalization_preserves_rows(prices: Seq<(Date, AdjustedPriceInfo)>)
    ensures
        spec_normalize_adjusted(prices).len() == prices.len(),
        forall|i: int|
            0 <= i < prices.len() ==> {
                let a = #[trigger] spec_normalize_adjusted(prices)[i];
                a.open == prices[i].1.open && a.high == prices[i].1.high && a.low
                    == prices[i].1.low && a.close == prices[i].1.close && a.volume
                    == prices[i].1.volume
            },
{
}

} // verus!

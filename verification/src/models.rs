//! Signals about markets.
use crate::base::scalar::Scalar;
use crate::vault::records::text_copy;
use vstd::prelude::*;

verus! {

/// What a signal is about.
#[derive(Debug)]
pub enum SignalType {
    PriceDeviation { market_price: Scalar, fair_value: Scalar, deviation_pct: Scalar },
    MarketExpiryEdge { hours_to_expiry: Scalar, volume_spike: Scalar },
    WhaleFollowing { whale_address: String, position_size: Scalar, confidence_score: Scalar },
    EliteWallet { wallet_address: String },
    InsiderWallet { wallet_address: String },
    WhaleCluster { cluster_count: usize },
    CrossPlatformArbitrage {
        polymarket_price: Scalar,
        kalshi_price: Option<Scalar>,
        spread_pct: Scalar,
    },
    TrackedWalletEntry {
        wallet_address: String,
        wallet_label: String,
        position_value_usd: Scalar,
        order_count: usize,
        token_label: Option<String>,
    },
}

/// What is known of the market of a signal.
#[derive(Debug)]
pub struct SignalDetails {
    pub market_id: String,
    pub market_title: String,
    pub current_price: Scalar,
    pub volume_24h: Scalar,
    pub liquidity: Scalar,
    pub recommended_action: String,
    pub expiry_time: Option<String>,
    pub observed_timestamp: Option<String>,
    pub signal_family: Option<String>,
    pub calibration_version: Option<String>,
    pub guardrail_flags: Option<String>,
    pub recommended_size: Option<Scalar>,
}

/// A signal about a market.
#[derive(Debug)]
pub struct MarketSignal {
    pub id: String,
    pub signal_type: SignalType,
    pub market_slug: String,
    pub confidence: Scalar,
    pub risk_level: String,
    pub details: SignalDetails,
    pub detected_at: String,
    pub source: String,
}

impl SignalType {
    /// The name of the variant.
    pub open spec fn name(self) -> Seq<char> {
        match self {
            SignalType::PriceDeviation { .. } => "PriceDeviation"@,
            SignalType::MarketExpiryEdge { .. } => "MarketExpiryEdge"@,
            SignalType::WhaleFollowing { .. } => "WhaleFollowing"@,
            SignalType::EliteWallet { .. } => "EliteWallet"@,
            SignalType::InsiderWallet { .. } => "InsiderWallet"@,
            SignalType::WhaleCluster { .. } => "WhaleCluster"@,
            SignalType::CrossPlatformArbitrage { .. } => "CrossPlatformArbitrage"@,
            SignalType::TrackedWalletEntry { .. } => "TrackedWalletEntry"@,
        }
    }

    pub fn as_str(&self) -> (r: &'static str)
        ensures
            r@ == self.name(),
    {
        match self {
            SignalType::PriceDeviation { .. } => "PriceDeviation",
            SignalType::MarketExpiryEdge { .. } => "MarketExpiryEdge",
            SignalType::WhaleFollowing { .. } => "WhaleFollowing",
            SignalType::EliteWallet { .. } => "EliteWallet",
            SignalType::InsiderWallet { .. } => "InsiderWallet",
            SignalType::WhaleCluster { .. } => "WhaleCluster",
            SignalType::CrossPlatformArbitrage { .. } => "CrossPlatformArbitrage",
            SignalType::TrackedWalletEntry { .. } => "TrackedWalletEntry",
        }
    }

    pub fn copy(&self) -> (r: SignalType)
        ensures
            r == *self,
    {
        match self {
            SignalType::PriceDeviation { market_price, fair_value, deviation_pct } => SignalType::PriceDeviation {
                market_price: *market_price,
                fair_value: *fair_value,
                deviation_pct: *deviation_pct,
            },
            SignalType::MarketExpiryEdge { hours_to_expiry, volume_spike } => SignalType::MarketExpiryEdge {
                hours_to_expiry: *hours_to_expiry,
                volume_spike: *volume_spike,
            },
            SignalType::WhaleFollowing { whale_address, position_size, confidence_score } => SignalType::WhaleFollowing {
                whale_address: whale_address.clone(),
                position_size: *position_size,
                confidence_score: *confidence_score,
            },
            SignalType::EliteWallet { wallet_address } => SignalType::EliteWallet {
                wallet_address: wallet_address.clone(),
            },
            SignalType::InsiderWallet { wallet_address } => SignalType::InsiderWallet {
                wallet_address: wallet_address.clone(),
            },
            SignalType::WhaleCluster { cluster_count } => SignalType::WhaleCluster {
                cluster_count: *cluster_count,
            },
            SignalType::CrossPlatformArbitrage { polymarket_price, kalshi_price, spread_pct } => SignalType::CrossPlatformArbitrage {
                polymarket_price: *polymarket_price,
                kalshi_price: *kalshi_price,
                spread_pct: *spread_pct,
            },
            SignalType::TrackedWalletEntry {
                wallet_address,
                wallet_label,
                position_value_usd,
                order_count,
                token_label,
            } => SignalType::TrackedWalletEntry {
                wallet_address: wallet_address.clone(),
                wallet_label: wallet_label.clone(),
                position_value_usd: *position_value_usd,
                order_count: *order_count,
                token_label: text_copy(token_label),
            },
        }
    }
}

impl SignalDetails {
    pub fn copy(&self) -> (r: SignalDetails)
        ensures
            r == *self,
    {
        SignalDetails {
            market_id: self.market_id.clone(),
            market_title: self.market_title.clone(),
            current_price: self.current_price,
            volume_24h: self.volume_24h,
            liquidity: self.liquidity,
            recommended_action: self.recommended_action.clone(),
            expiry_time: text_copy(&self.expiry_time),
            observed_timestamp: text_copy(&self.observed_timestamp),
            signal_family: text_copy(&self.signal_family),
            calibration_version: text_copy(&self.calibration_version),
            guardrail_flags: text_copy(&self.guardrail_flags),
            recommended_size: self.recommended_size,
        }
    }
}

impl MarketSignal {
    pub fn copy(&self) -> (r: MarketSignal)
        ensures
            r == *self,
    {
        MarketSignal {
            id: self.id.clone(),
            signal_type: self.signal_type.copy(),
            market_slug: self.market_slug.clone(),
            confidence: self.confidence,
            risk_level: self.risk_level.clone(),
            details: self.details.copy(),
            detected_at: self.detected_at.clone(),
            source: self.source.clone(),
        }
    }
}

/// A signal is called after its kind, and a copy of it is the same.
pub proof fn law_signals_are_called_after_their_kind(t: SignalType, r: &'static str, s: MarketSignal, c: MarketSignal)
    requires
        call_ensures(SignalType::as_str, (&t,), r),
        call_ensures(MarketSignal::copy, (&s,), c),
    ensures
        t is PriceDeviation ==> r@ == "PriceDeviation"@,
        t is MarketExpiryEdge ==> r@ == "MarketExpiryEdge"@,
        t is WhaleFollowing ==> r@ == "WhaleFollowing"@,
        t is EliteWallet ==> r@ == "EliteWallet"@,
        t is InsiderWallet ==> r@ == "InsiderWallet"@,
        t is WhaleCluster ==> r@ == "WhaleCluster"@,
        t is CrossPlatformArbitrage ==> r@ == "CrossPlatformArbitrage"@,
        t is TrackedWalletEntry ==> r@ == "TrackedWalletEntry"@,
        c == s,
{
}

} // verus!

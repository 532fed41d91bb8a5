//! Single-character enumerated codes and their fixed lookup tables.

use vstd::prelude::*;

verus! {

/// System event announced by the feed.
#[derive(Debug, Clone, Copy, PartialEq, Eq)]
pub enum EventCode {
    StartOfMessages,
    StartOfSystemHours,
    StartOfMarketHours,
    EndOfMarketHours,
    EndOfSystemHours,
    EndOfMessages,
}

impl EventCode {
    /// The value that a wire byte stands for, if the table holds it.
    pub open spec fn of_byte(b: u8) -> Option<EventCode> {
        if b == 'O' as u8 {
            Some(EventCode::StartOfMessages)
        } else if b == 'S' as u8 {
            Some(EventCode::StartOfSystemHours)
        } else if b == 'Q' as u8 {
            Some(EventCode::StartOfMarketHours)
        } else if b == 'M' as u8 {
            Some(EventCode::EndOfMarketHours)
        } else if b == 'E' as u8 {
            Some(EventCode::EndOfSystemHours)
        } else if b == 'C' as u8 {
            Some(EventCode::EndOfMessages)
        } else {
            None
        }
    }

    /// Looks a wire byte up in the table.
    pub fn from_byte(b: u8) -> (r: Option<EventCode>)
        ensures
            r == Self::of_byte(b),
    {
        if b == 'O' as u8 {
            Some(EventCode::StartOfMessages)
        } else if b == 'S' as u8 {
            Some(EventCode::StartOfSystemHours)
        } else if b == 'Q' as u8 {
            Some(EventCode::StartOfMarketHours)
        } else if b == 'M' as u8 {
            Some(EventCode::EndOfMarketHours)
        } else if b == 'E' as u8 {
            Some(EventCode::EndOfSystemHours)
        } else if b == 'C' as u8 {
            Some(EventCode::EndOfMessages)
        } else {
            None
        }
    }
}

/// Listing market of a security.
#[derive(Debug, Clone, Copy, PartialEq, Eq)]
pub enum MarketCategory {
    NasdaqGlobalSelect,
    NasdaqGlobalMarket,
    NasdaqCapitalMarket,
    Nyse,
    NyseMkt,
    NyseArca,
    BatsZExchange,
    Unavailable,
}

impl MarketCategory {
    /// The value that a wire byte stands for, if the table holds it.
    pub open spec fn of_byte(b: u8) -> Option<MarketCategory> {
        if b == 'Q' as u8 {
            Some(MarketCategory::NasdaqGlobalSelect)
        } else if b == 'G' as u8 {
            Some(MarketCategory::NasdaqGlobalMarket)
        } else if b == 'S' as u8 {
            Some(MarketCategory::NasdaqCapitalMarket)
        } else if b == 'N' as u8 {
            Some(MarketCategory::Nyse)
        } else if b == 'A' as u8 {
            Some(MarketCategory::NyseMkt)
        } else if b == 'P' as u8 {
            Some(MarketCategory::NyseArca)
        } else if b == 'Z' as u8 {
            Some(MarketCategory::BatsZExchange)
        } else if b == ' ' as u8 {
            Some(MarketCategory::Unavailable)
        } else {
            None
        }
    }

    /// Looks a wire byte up in the table.
    pub fn from_byte(b: u8) -> (r: Option<MarketCategory>)
        ensures
            r == Self::of_byte(b),
    {
        if b == 'Q' as u8 {
            Some(MarketCategory::NasdaqGlobalSelect)
        } else if b == 'G' as u8 {
            Some(MarketCategory::NasdaqGlobalMarket)
        } else if b == 'S' as u8 {
            Some(MarketCategory::NasdaqCapitalMarket)
        } else if b == 'N' as u8 {
            Some(MarketCategory::Nyse)
        } else if b == 'A' as u8 {
            Some(MarketCategory::NyseMkt)
        } else if b == 'P' as u8 {
            Some(MarketCategory::NyseArca)
        } else if b == 'Z' as u8 {
            Some(MarketCategory::BatsZExchange)
        } else if b == ' ' as u8 {
            Some(MarketCategory::Unavailable)
        } else {
            None
        }
    }
}

/// Financial status of an issuer.
#[derive(Debug, Clone, Copy, PartialEq, Eq)]
pub enum FinancialStatus {
    Normal,
    Deficient,
    Delinquent,
    Bankrupt,
    Suspended,
    DeficientBankrupt,
    DeficientDelinquent,
    DelinquentBankrupt,
    DeficientDelinquentBankrupt,
    EtpSuspended,
    Unavailable,
}

impl FinancialStatus {
    /// The value that a wire byte stands for, if the table holds it.
    pub open spec fn of_byte(b: u8) -> Option<FinancialStatus> {
        if b == 'N' as u8 {
            Some(FinancialStatus::Normal)
        } else if b == 'D' as u8 {
            Some(FinancialStatus::Deficient)
        } else if b == 'E' as u8 {
            Some(FinancialStatus::Delinquent)
        } else if b == 'Q' as u8 {
            Some(FinancialStatus::Bankrupt)
        } else if b == 'S' as u8 {
            Some(FinancialStatus::Suspended)
        } else if b == 'G' as u8 {
            Some(FinancialStatus::DeficientBankrupt)
        } else if b == 'H' as u8 {
            Some(FinancialStatus::DeficientDelinquent)
        } else if b == 'J' as u8 {
            Some(FinancialStatus::DelinquentBankrupt)
        } else if b == 'K' as u8 {
            Some(FinancialStatus::DeficientDelinquentBankrupt)
        } else if b == 'C' as u8 {
            Some(FinancialStatus::EtpSuspended)
        } else if b == ' ' as u8 {
            Some(FinancialStatus::Unavailable)
        } else {
            None
        }
    }

    /// Looks a wire byte up in the table.
    pub fn from_byte(b: u8) -> (r: Option<FinancialStatus>)
        ensures
            r == Self::of_byte(b),
    {
        if b == 'N' as u8 {
            Some(FinancialStatus::Normal)
        } else if b == 'D' as u8 {
            Some(FinancialStatus::Deficient)
        } else if b == 'E' as u8 {
            Some(FinancialStatus::Delinquent)
        } else if b == 'Q' as u8 {
            Some(FinancialStatus::Bankrupt)
        } else if b == 'S' as u8 {
            Some(FinancialStatus::Suspended)
        } else if b == 'G' as u8 {
            Some(FinancialStatus::DeficientBankrupt)
        } else if b == 'H' as u8 {
            Some(FinancialStatus::DeficientDelinquent)
        } else if b == 'J' as u8 {
            Some(FinancialStatus::DelinquentBankrupt)
        } else if b == 'K' as u8 {
            Some(FinancialStatus::DeficientDelinquentBankrupt)
        } else if b == 'C' as u8 {
            Some(FinancialStatus::EtpSuspended)
        } else if b == ' ' as u8 {
            Some(FinancialStatus::Unavailable)
        } else {
            None
        }
    }
}

/// Limit-up/limit-down reference price tier.
#[derive(Debug, Clone, Copy, PartialEq, Eq)]
pub enum LuldRefPriceTier {
    Na,
    Tier1,
    Tier2,
}

impl LuldRefPriceTier {
    /// The value that a wire byte stands for, if the table holds it.
    pub open spec fn of_byte(b: u8) -> Option<LuldRefPriceTier> {
        if b == ' ' as u8 {
            Some(LuldRefPriceTier::Na)
        } else if b == '1' as u8 {
            Some(LuldRefPriceTier::Tier1)
        } else if b == '2' as u8 {
            Some(LuldRefPriceTier::Tier2)
        } else {
            None
        }
    }

    /// Looks a wire byte up in the table.
    pub fn from_byte(b: u8) -> (r: Option<LuldRefPriceTier>)
        ensures
            r == Self::of_byte(b),
    {
        if b == ' ' as u8 {
            Some(LuldRefPriceTier::Na)
        } else if b == '1' as u8 {
            Some(LuldRefPriceTier::Tier1)
        } else if b == '2' as u8 {
            Some(LuldRefPriceTier::Tier2)
        } else {
            None
        }
    }
}

/// Quoting mode of a market participant.
#[derive(Debug, Clone, Copy, PartialEq, Eq)]
pub enum MarketMakerMode {
    Normal,
    Passive,
    Syndicate,
    Presyndicate,
    Penalty,
}

impl MarketMakerMode {
    /// The value that a wire byte stands for, if the table holds it.
    pub open spec fn of_byte(b: u8) -> Option<MarketMakerMode> {
        if b == 'N' as u8 {
            Some(MarketMakerMode::Normal)
        } else if b == 'P' as u8 {
            Some(MarketMakerMode::Passive)
        } else if b == 'S' as u8 {
            Some(MarketMakerMode::Syndicate)
        } else if b == 'R' as u8 {
            Some(MarketMakerMode::Presyndicate)
        } else if b == 'L' as u8 {
            Some(MarketMakerMode::Penalty)
        } else {
            None
        }
    }

    /// Looks a wire byte up in the table.
    pub fn from_byte(b: u8) -> (r: Option<MarketMakerMode>)
        ensures
            r == Self::of_byte(b),
    {
        if b == 'N' as u8 {
            Some(MarketMakerMode::Normal)
        } else if b == 'P' as u8 {
            Some(MarketMakerMode::Passive)
        } else if b == 'S' as u8 {
            Some(MarketMakerMode::Syndicate)
        } else if b == 'R' as u8 {
            Some(MarketMakerMode::Presyndicate)
        } else if b == 'L' as u8 {
            Some(MarketMakerMode::Penalty)
        } else {
            None
        }
    }
}

/// Registration state of a market participant.
#[derive(Debug, Clone, Copy, PartialEq, Eq)]
pub enum MarketParticipantState {
    Active,
    Excused,
    Withdrawn,
    Suspended,
    Deleted,
}

impl MarketParticipantState {
    /// The value that a wire byte stands for, if the table holds it.
    pub open spec fn of_byte(b: u8) -> Option<MarketParticipantState> {
        if b == 'A' as u8 {
            Some(MarketParticipantState::Active)
        } else if b == 'E' as u8 {
            Some(MarketParticipantState::Excused)
        } else if b == 'W' as u8 {
            Some(MarketParticipantState::Withdrawn)
        } else if b == 'S' as u8 {
            Some(MarketParticipantState::Suspended)
        } else if b == 'D' as u8 {
            Some(MarketParticipantState::Deleted)
        } else {
            None
        }
    }

    /// Looks a wire byte up in the table.
    pub fn from_byte(b: u8) -> (r: Option<MarketParticipantState>)
        ensures
            r == Self::of_byte(b),
    {
        if b == 'A' as u8 {
            Some(MarketParticipantState::Active)
        } else if b == 'E' as u8 {
            Some(MarketParticipantState::Excused)
        } else if b == 'W' as u8 {
            Some(MarketParticipantState::Withdrawn)
        } else if b == 'S' as u8 {
            Some(MarketParticipantState::Suspended)
        } else if b == 'D' as u8 {
            Some(MarketParticipantState::Deleted)
        } else {
            None
        }
    }
}

/// Short-sale price test restriction in effect.
#[derive(Debug, Clone, Copy, PartialEq, Eq)]
pub enum RegShoAction {
    NoPriceTest,
    Intraday,
    Extant,
}

impl RegShoAction {
    /// The value that a wire byte stands for, if the table holds it.
    pub open spec fn of_byte(b: u8) -> Option<RegShoAction> {
        if b == '0' as u8 {
            Some(RegShoAction::NoPriceTest)
        } else if b == '1' as u8 {
            Some(RegShoAction::Intraday)
        } else if b == '2' as u8 {
            Some(RegShoAction::Extant)
        } else {
            None
        }
    }

    /// Looks a wire byte up in the table.
    pub fn from_byte(b: u8) -> (r: Option<RegShoAction>)
        ensures
            r == Self::of_byte(b),
    {
        if b == '0' as u8 {
            Some(RegShoAction::NoPriceTest)
        } else if b == '1' as u8 {
            Some(RegShoAction::Intraday)
        } else if b == '2' as u8 {
            Some(RegShoAction::Extant)
        } else {
            None
        }
    }
}

/// Trading state of a security.
#[derive(Debug, Clone, Copy, PartialEq, Eq)]
pub enum TradingState {
    Halted,
    Paused,
    QuotationOnly,
    Trading,
}

impl TradingState {
    /// The value that a wire byte stands for, if the table holds it.
    pub open spec fn of_byte(b: u8) -> Option<TradingState> {
        if b == 'H' as u8 {
            Some(TradingState::Halted)
        } else if b == 'P' as u8 {
            Some(TradingState::Paused)
        } else if b == 'Q' as u8 {
            Some(TradingState::QuotationOnly)
        } else if b == 'T' as u8 {
            Some(TradingState::Trading)
        } else {
            None
        }
    }

    /// Looks a wire byte up in the table.
    pub fn from_byte(b: u8) -> (r: Option<TradingState>)
        ensures
            r == Self::of_byte(b),
    {
        if b == 'H' as u8 {
            Some(TradingState::Halted)
        } else if b == 'P' as u8 {
            Some(TradingState::Paused)
        } else if b == 'Q' as u8 {
            Some(TradingState::QuotationOnly)
        } else if b == 'T' as u8 {
            Some(TradingState::Trading)
        } else {
            None
        }
    }
}

/// Side of the book that an order rests on.
#[derive(Debug, Clone, Copy, PartialEq, Eq)]
pub enum Side {
    Buy,
    Sell,
}

impl Side {
    /// The value that a wire byte stands for, if the table holds it.
    pub open spec fn of_byte(b: u8) -> Option<Side> {
        if b == 'B' as u8 {
            Some(Side::Buy)
        } else if b == 'S' as u8 {
            Some(Side::Sell)
        } else {
            None
        }
    }

    /// Looks a wire byte up in the table.
    pub fn from_byte(b: u8) -> (r: Option<Side>)
        ensures
            r == Self::of_byte(b),
    {
        if b == 'B' as u8 {
            Some(Side::Buy)
        } else if b == 'S' as u8 {
            Some(Side::Sell)
        } else {
            None
        }
    }
}

/// Issue classification of a security. The classification byte of a
/// directory record is carried on the wire but not interpreted: every
/// record reports this placeholder.
#[derive(Debug, Clone, Copy, PartialEq, Eq)]
pub enum IssueClassification {
    Unit,
}

/// Issue sub-type of a security. The two sub-type bytes of a directory
/// record are carried on the wire but not interpreted: every record
/// reports this placeholder.
#[derive(Debug, Clone, Copy, PartialEq, Eq)]
pub enum IssueSubType {
    AlphaIndexETNs,
}

} // verus!

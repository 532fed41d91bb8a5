//! Record grammar: one decoder per message tag, and the frame decoder
//! that reads length, tag and header and dispatches on the tag.

use crate::codec::{
    be16_at, be32_at, be48_at, be64_at, be_u16, be_u32, be_u48, be_u64, be_u8, bool_of_byte,
    char2bool, maybe_bool_of_byte, maybe_char2bool, take, Outcome, Parsed,
};
use crate::enums::{
    EventCode, FinancialStatus, IssueClassification, IssueSubType, LuldRefPriceTier, MarketCategory,
    MarketMakerMode, MarketParticipantState, RegShoAction, Side, TradingState,
};
use crate::text::{
    ascii_at, lemma_text_prefix, lemma_text_skip, take_text4, take_text8, text_at, Text4, Text8,
};
use vstd::prelude::*;

verus! {

/// Bytes of a frame that precede the tag-specific fields: two of
/// length, one of tag, ten of header.
pub const FRAME_PREFIX: usize = 13;

/// Bytes that the declared length counts before the tag-specific
/// fields begin: the tag and the header.
pub const TAG_AND_HEADER: u16 = 11;

/// Size of the largest frame with a known tag (a stock directory
/// record).
pub const MAX_FRAME: usize = 41;

/// Fields that every record carries, whatever its tag.
#[derive(Debug, Clone, Copy, PartialEq, Eq)]
pub struct MsgHeader {
    pub stock_locate: u16,
    pub tracking_number: u16,
    /// Nanoseconds since midnight: a 48-bit value.
    pub timestamp: u64,
}

/// One decoded frame.
#[derive(Debug, Clone, PartialEq)]
pub struct Message {
    pub header: MsgHeader,
    pub body: MessageBody,
}

/// The tag-specific part of a record.
#[derive(Debug, Clone, PartialEq)]
pub enum MessageBody {
    AddOrder(AddOrder),
    ReplaceOrder(ReplaceOrder),
    DeleteOrder { reference: u64 },
    SystemEvent { event: EventCode },
    RegShoRestriction { stock: Text8, action: RegShoAction },
    TradingAction { stock: Text8, trading_state: TradingState, reason: Text4 },
    StockDirectory(StockDirectory),
    ParticipantPosition(MarketParticipantPosition),
    /// A frame whose tag is not known, kept as it came.
    Unknown { length: u16, tag: char, content: Vec<u8> },
}

/// Directory entry of a security.
#[derive(Debug, Clone, PartialEq)]
pub struct StockDirectory {
    pub stock: Text8,
    pub market_category: MarketCategory,
    pub financial_status: FinancialStatus,
    pub round_lot_size: u32,
    pub round_lots_only: bool,
    pub issue_classification: IssueClassification,
    pub issue_subtype: IssueSubType,
    pub authenticity: bool,
    pub short_sale_threshold: Option<bool>,
    pub ipo_flag: Option<bool>,
    pub luld_ref_price_tier: LuldRefPriceTier,
    pub etp_flag: Option<bool>,
    pub etp_leverage_factor: u32,
    pub inverse_indicator: bool,
}

/// Position of a market participant in a security.
#[derive(Debug, Clone, PartialEq, Eq)]
pub struct MarketParticipantPosition {
    pub mpid: Text4,
    pub stock: Text8,
    pub primary_market_maker: bool,
    pub market_maker_mode: MarketMakerMode,
    pub market_participant_state: MarketParticipantState,
}

/// A new order on the book.
#[derive(Debug, Clone, PartialEq)]
pub struct AddOrder {
    pub reference: u64,
    pub side: Side,
    pub shares: u32,
    pub stock: Text8,
    /// Fixed point, four implied decimal digits.
    pub price: u32,
}

/// An order replaced by a new one.
#[derive(Debug, Clone, Copy, PartialEq)]
pub struct ReplaceOrder {
    pub old_reference: u64,
    pub new_reference: u64,
    pub shares: u32,
    /// Fixed point, four implied decimal digits.
    pub price: u32,
}

/// A stock directory record with its text as characters.
pub struct StockDirectoryView {
    pub stock: Seq<char>,
    pub market_category: MarketCategory,
    pub financial_status: FinancialStatus,
    pub round_lot_size: u32,
    pub round_lots_only: bool,
    pub issue_classification: IssueClassification,
    pub issue_subtype: IssueSubType,
    pub authenticity: bool,
    pub short_sale_threshold: Option<bool>,
    pub ipo_flag: Option<bool>,
    pub luld_ref_price_tier: LuldRefPriceTier,
    pub etp_flag: Option<bool>,
    pub etp_leverage_factor: u32,
    pub inverse_indicator: bool,
}

/// A participant position record with its text as characters.
pub struct MarketParticipantPositionView {
    pub mpid: Seq<char>,
    pub stock: Seq<char>,
    pub primary_market_maker: bool,
    pub market_maker_mode: MarketMakerMode,
    pub market_participant_state: MarketParticipantState,
}

/// An add order record with its text as characters.
pub struct AddOrderView {
    pub reference: u64,
    pub side: Side,
    pub shares: u32,
    pub stock: Seq<char>,
    pub price: u32,
}

/// A record body with its text as characters and its payload as bytes.
pub enum MessageBodyView {
    AddOrder(AddOrderView),
    ReplaceOrder(ReplaceOrder),
    DeleteOrder { reference: u64 },
    SystemEvent { event: EventCode },
    RegShoRestriction { stock: Seq<char>, action: RegShoAction },
    TradingAction { stock: Seq<char>, trading_state: TradingState, reason: Seq<char> },
    StockDirectory(StockDirectoryView),
    ParticipantPosition(MarketParticipantPositionView),
    Unknown { length: u16, tag: char, content: Seq<u8> },
}

/// A record by its header and the view of its body.
pub struct MessageView {
    pub header: MsgHeader,
    pub body: MessageBodyView,
}

impl View for StockDirectory {
    type V = StockDirectoryView;

    open spec fn view(&self) -> StockDirectoryView {
        StockDirectoryView {
            stock: self.stock@,
            market_category: self.market_category,
            financial_status: self.financial_status,
            round_lot_size: self.round_lot_size,
            round_lots_only: self.round_lots_only,
            issue_classification: self.issue_classification,
            issue_subtype: self.issue_subtype,
            authenticity: self.authenticity,
            short_sale_threshold: self.short_sale_threshold,
            ipo_flag: self.ipo_flag,
            luld_ref_price_tier: self.luld_ref_price_tier,
            etp_flag: self.etp_flag,
            etp_leverage_factor: self.etp_leverage_factor,
            inverse_indicator: self.inverse_indicator,
        }
    }
}

impl View for MarketParticipantPosition {
    type V = MarketParticipantPositionView;

    open spec fn view(&self) -> MarketParticipantPositionView {
        MarketParticipantPositionView {
            mpid: self.mpid@,
            stock: self.stock@,
            primary_market_maker: self.primary_market_maker,
            market_maker_mode: self.market_maker_mode,
            market_participant_state: self.market_participant_state,
        }
    }
}

impl View for AddOrder {
    type V = AddOrderView;

    open spec fn view(&self) -> AddOrderView {
        AddOrderView {
            reference: self.reference,
            side: self.side,
            shares: self.shares,
            stock: self.stock@,
            price: self.price,
        }
    }
}

impl View for MessageBody {
    type V = MessageBodyView;

    open spec fn view(&self) -> MessageBodyView {
        match *self {
            MessageBody::AddOrder(o) => MessageBodyView::AddOrder(o@),
            MessageBody::ReplaceOrder(o) => MessageBodyView::ReplaceOrder(o),
            MessageBody::DeleteOrder { reference } => MessageBodyView::DeleteOrder { reference },
            MessageBody::SystemEvent { event } => MessageBodyView::SystemEvent { event },
            MessageBody::RegShoRestriction { stock, action } => MessageBodyView::RegShoRestriction {
                stock: stock@,
                action,
            },
            MessageBody::TradingAction {
                stock,
                trading_state,
                reason,
            } => MessageBodyView::TradingAction { stock: stock@, trading_state, reason: reason@ },
            MessageBody::StockDirectory(d) => MessageBodyView::StockDirectory(d@),
            MessageBody::ParticipantPosition(p) => MessageBodyView::ParticipantPosition(p@),
            MessageBody::Unknown { length, tag, content } => MessageBodyView::Unknown {
                length,
                tag,
                content: content@,
            },
        }
    }
}

impl View for Message {
    type V = MessageView;

    open spec fn view(&self) -> MessageView {
        MessageView { header: self.header, body: self.body@ }
    }
}

/// The header whose ten bytes start at `at`.
pub open spec fn header_at(s: Seq<u8>, at: int) -> MsgHeader {
    MsgHeader {
        stock_locate: be16_at(s, at) as u16,
        tracking_number: be16_at(s, at + 2) as u16,
        timestamp: be48_at(s, at + 4) as u64,
    }
}

/// What is owed for a header: locate id (2 bytes), tracking number
/// (2 bytes) and timestamp (6 bytes), all big-endian.
pub open spec fn message_header_outcome(s: Seq<u8>) -> Outcome<MsgHeader> {
    if s.len() < 10 {
        Outcome::Incomplete
    } else {
        Outcome::Done(10, header_at(s, 0))
    }
}

/// What is owed for the body of a system event record (tag `S`): one
/// event code.
pub open spec fn system_event_outcome(s: Seq<u8>) -> Outcome<MessageBodyView> {
    if s.len() < 1 {
        Outcome::Incomplete
    } else {
        match EventCode::of_byte(s[0]) {
            Some(event) => Outcome::Done(1, MessageBodyView::SystemEvent { event }),
            None => Outcome::Malformed,
        }
    }
}

/// What is owed for the body of an add order record (tag `A`):
/// reference (8 bytes), side (1), shares (4), stock (8), price (4).
/// The first field that is cut off or malformed decides.
pub open spec fn add_order_outcome(s: Seq<u8>) -> Outcome<AddOrderView> {
    if s.len() < 9 {
        Outcome::Incomplete
    } else if Side::of_byte(s[8]) is None {
        Outcome::Malformed
    } else if s.len() < 21 {
        Outcome::Incomplete
    } else if !ascii_at(s, 13, 8) {
        Outcome::Malformed
    } else if s.len() < 25 {
        Outcome::Incomplete
    } else {
        Outcome::Done(
            25,
            AddOrderView {
                reference: be64_at(s, 0) as u64,
                side: Side::of_byte(s[8])->0,
                shares: be32_at(s, 9) as u32,
                stock: text_at(s, 13, 8),
                price: be32_at(s, 21) as u32,
            },
        )
    }
}

/// What is owed for the body of a replace order record (tag `U`):
/// old reference (8 bytes), new reference (8), shares (4), price (4).
pub open spec fn replace_order_outcome(s: Seq<u8>) -> Outcome<ReplaceOrder> {
    if s.len() < 24 {
        Outcome::Incomplete
    } else {
        Outcome::Done(
            24,
            ReplaceOrder {
                old_reference: be64_at(s, 0) as u64,
                new_reference: be64_at(s, 8) as u64,
                shares: be32_at(s, 16) as u32,
                price: be32_at(s, 20) as u32,
            },
        )
    }
}

/// What is owed for the body of a delete order record (tag `D`): the
/// reference (8 bytes).
pub open spec fn delete_order_outcome(s: Seq<u8>) -> Outcome<MessageBodyView> {
    if s.len() < 8 {
        Outcome::Incomplete
    } else {
        Outcome::Done(8, MessageBodyView::DeleteOrder { reference: be64_at(s, 0) as u64 })
    }
}

/// Header of a record: locate id, tracking number and 48-bit timestamp.
pub fn parse_message_header<'a>(i: &'a [u8]) -> (r: Parsed<'a, MsgHeader>)
    ensures
        r.matches_outcome(i@, message_header_outcome(i@)),
        r matches Parsed::Done(_, h) ==> h.timestamp < 0x1_0000_0000_0000,
{
    let (i1, stock_locate) = match be_u16(i) {
        Parsed::Done(rest, v) => (rest, v),
        Parsed::Incomplete => { return Parsed::Incomplete; },
        Parsed::Malformed => { return Parsed::Malformed; },
    };
    let (i2, tracking_number) = match be_u16(i1) {
        Parsed::Done(rest, v) => (rest, v),
        Parsed::Incomplete => { return Parsed::Incomplete; },
        Parsed::Malformed => { return Parsed::Malformed; },
    };
    let (i3, timestamp) = match be_u48(i2) {
        Parsed::Done(rest, v) => (rest, v),
        Parsed::Incomplete => { return Parsed::Incomplete; },
        Parsed::Malformed => { return Parsed::Malformed; },
    };
    assert(i3@ =~= i@.skip(10));
    Parsed::Done(i3, MsgHeader { stock_locate, tracking_number, timestamp })
}

/// Body of a system event record: one event code.
pub fn parse_system_event<'a>(i: &'a [u8]) -> (r: Parsed<'a, MessageBody>)
    ensures
        r.matches_view(i@, system_event_outcome(i@)),
{
    let (i1, code) = match be_u8(i) {
        Parsed::Done(rest, v) => (rest, v),
        Parsed::Incomplete => { return Parsed::Incomplete; },
        Parsed::Malformed => { return Parsed::Malformed; },
    };
    match EventCode::from_byte(code) {
        Some(event) => Parsed::Done(i1, MessageBody::SystemEvent { event }),
        None => Parsed::Malformed,
    }
}

/// Body of an add order record.
pub fn parse_add_order<'a>(i: &'a [u8]) -> (r: Parsed<'a, AddOrder>)
    ensures
        r.matches_view(i@, add_order_outcome(i@)),
{
    let (i1, reference) = match be_u64(i) {
        Parsed::Done(rest, v) => (rest, v),
        Parsed::Incomplete => { return Parsed::Incomplete; },
        Parsed::Malformed => { return Parsed::Malformed; },
    };
    let (i2, side_code) = match be_u8(i1) {
        Parsed::Done(rest, v) => (rest, v),
        Parsed::Incomplete => { return Parsed::Incomplete; },
        Parsed::Malformed => { return Parsed::Malformed; },
    };
    let side = match Side::from_byte(side_code) {
        Some(v) => v,
        None => { return Parsed::Malformed; },
    };
    let (i3, shares) = match be_u32(i2) {
        Parsed::Done(rest, v) => (rest, v),
        Parsed::Incomplete => { return Parsed::Incomplete; },
        Parsed::Malformed => { return Parsed::Malformed; },
    };
    assert(i3@ =~= i@.skip(13));
    proof {
        if i@.len() >= 21 {
            lemma_text_skip(i@, 13, 8);
        }
    }
    let (i4, stock) = match take_text8(i3) {
        Parsed::Done(rest, v) => (rest, v),
        Parsed::Incomplete => { return Parsed::Incomplete; },
        Parsed::Malformed => { return Parsed::Malformed; },
    };
    let (i5, price) = match be_u32(i4) {
        Parsed::Done(rest, v) => (rest, v),
        Parsed::Incomplete => { return Parsed::Incomplete; },
        Parsed::Malformed => { return Parsed::Malformed; },
    };
    assert(i5@ =~= i@.skip(25));
    Parsed::Done(i5, AddOrder { reference, side, shares, stock, price })
}

/// Body of a replace order record.
pub fn parse_replace_order<'a>(i: &'a [u8]) -> (r: Parsed<'a, ReplaceOrder>)
    ensures
        r.matches_outcome(i@, replace_order_outcome(i@)),
{
    let (i1, old_reference) = match be_u64(i) {
        Parsed::Done(rest, v) => (rest, v),
        Parsed::Incomplete => { return Parsed::Incomplete; },
        Parsed::Malformed => { return Parsed::Malformed; },
    };
    let (i2, new_reference) = match be_u64(i1) {
        Parsed::Done(rest, v) => (rest, v),
        Parsed::Incomplete => { return Parsed::Incomplete; },
        Parsed::Malformed => { return Parsed::Malformed; },
    };
    let (i3, shares) = match be_u32(i2) {
        Parsed::Done(rest, v) => (rest, v),
        Parsed::Incomplete => { return Parsed::Incomplete; },
        Parsed::Malformed => { return Parsed::Malformed; },
    };
    let (i4, price) = match be_u32(i3) {
        Parsed::Done(rest, v) => (rest, v),
        Parsed::Incomplete => { return Parsed::Incomplete; },
        Parsed::Malformed => { return Parsed::Malformed; },
    };
    assert(i4@ =~= i@.skip(24));
    Parsed::Done(i4, ReplaceOrder { old_reference, new_reference, shares, price })
}

/// Body of a delete order record: the reference of the order.
pub fn parse_delete_order<'a>(i: &'a [u8]) -> (r: Parsed<'a, MessageBody>)
    ensures
        r.matches_view(i@, delete_order_outcome(i@)),
{
    match be_u64(i) {
        Parsed::Done(rest, reference) => Parsed::Done(rest, MessageBody::DeleteOrder { reference }),
        Parsed::Incomplete => Parsed::Incomplete,
        Parsed::Malformed => Parsed::Malformed,
    }
}

/// The flag that an authenticity byte stands for: `P` for a live
/// security, `T` for a test security.
pub open spec fn authenticity_of_byte(b: u8) -> Option<bool> {
    if b == 'P' as u8 {
        Some(true)
    } else if b == 'T' as u8 {
        Some(false)
    } else {
        None
    }
}

/// What is owed for the body of a short-sale restriction record (tag
/// `Y`): stock (8 bytes), action (1). The first field that is cut off
/// or malformed decides.
pub open spec fn reg_sho_restriction_outcome(s: Seq<u8>) -> Outcome<MessageBodyView> {
    if s.len() < 8 {
        Outcome::Incomplete
    } else if !ascii_at(s, 0, 8) {
        Outcome::Malformed
    } else if s.len() < 9 {
        Outcome::Incomplete
    } else if RegShoAction::of_byte(s[8]) is None {
        Outcome::Malformed
    } else {
        Outcome::Done(
            9,
            MessageBodyView::RegShoRestriction {
                stock: text_at(s, 0, 8),
                action: RegShoAction::of_byte(s[8])->0,
            },
        )
    }
}

/// What is owed for the body of a trading action record (tag `H`):
/// stock (8 bytes), trading state (1), a reserved byte, reason (4).
/// The first field that is cut off or malformed decides.
pub open spec fn trading_action_outcome(s: Seq<u8>) -> Outcome<MessageBodyView> {
    if s.len() < 8 {
        Outcome::Incomplete
    } else if !ascii_at(s, 0, 8) {
        Outcome::Malformed
    } else if s.len() < 9 {
        Outcome::Incomplete
    } else if TradingState::of_byte(s[8]) is None {
        Outcome::Malformed
    } else if s.len() < 14 {
        Outcome::Incomplete
    } else if !ascii_at(s, 10, 4) {
        Outcome::Malformed
    } else {
        Outcome::Done(
            14,
            MessageBodyView::TradingAction {
                stock: text_at(s, 0, 8),
                trading_state: TradingState::of_byte(s[8])->0,
                reason: text_at(s, 10, 4),
            },
        )
    }
}

/// What is owed for the body of a participant position record (tag
/// `L`): mpid (4 bytes), stock (8), primary market maker flag (1),
/// market maker mode (1), participant state (1). The first field that
/// is cut off or malformed decides.
pub open spec fn participant_position_outcome(s: Seq<u8>) -> Outcome<
    MarketParticipantPositionView,
> {
    if s.len() < 4 {
        Outcome::Incomplete
    } else if !ascii_at(s, 0, 4) {
        Outcome::Malformed
    } else if s.len() < 12 {
        Outcome::Incomplete
    } else if !ascii_at(s, 4, 8) {
        Outcome::Malformed
    } else if s.len() < 13 {
        Outcome::Incomplete
    } else if bool_of_byte(s[12]) is None {
        Outcome::Malformed
    } else if s.len() < 14 {
        Outcome::Incomplete
    } else if MarketMakerMode::of_byte(s[13]) is None {
        Outcome::Malformed
    } else if s.len() < 15 {
        Outcome::Incomplete
    } else if MarketParticipantState::of_byte(s[14]) is None {
        Outcome::Malformed
    } else {
        Outcome::Done(
            15,
            MarketParticipantPositionView {
                mpid: text_at(s, 0, 4),
                stock: text_at(s, 4, 8),
                primary_market_maker: bool_of_byte(s[12])->0,
                market_maker_mode: MarketMakerMode::of_byte(s[13])->0,
                market_participant_state: MarketParticipantState::of_byte(s[14])->0,
            },
        )
    }
}

/// What is owed for the body of a stock directory record (tag `R`):
/// stock (8 bytes), market category (1), financial status (1), round
/// lot size (4), round lots only (1), issue classification (1, not
/// interpreted), issue sub-type (2, not interpreted), authenticity (1),
/// short sale threshold (1), ipo flag (1), price tier (1), etp flag (1),
/// etp leverage factor (4), inverse indicator (1). The first field that
/// is cut off or malformed decides.
pub open spec fn stock_directory_outcome(s: Seq<u8>) -> Outcome<StockDirectoryView> {
    if s.len() < 8 {
        Outcome::Incomplete
    } else if !ascii_at(s, 0, 8) {
        Outcome::Malformed
    } else if s.len() < 9 {
        Outcome::Incomplete
    } else if MarketCategory::of_byte(s[8]) is None {
        Outcome::Malformed
    } else if s.len() < 10 {
        Outcome::Incomplete
    } else if FinancialStatus::of_byte(s[9]) is None {
        Outcome::Malformed
    } else if s.len() < 15 {
        Outcome::Incomplete
    } else if bool_of_byte(s[14]) is None {
        Outcome::Malformed
    } else if s.len() < 19 {
        Outcome::Incomplete
    } else if authenticity_of_byte(s[18]) is None {
        Outcome::Malformed
    } else if s.len() < 20 {
        Outcome::Incomplete
    } else if maybe_bool_of_byte(s[19]) is None {
        Outcome::Malformed
    } else if s.len() < 21 {
        Outcome::Incomplete
    } else if maybe_bool_of_byte(s[20]) is None {
        Outcome::Malformed
    } else if s.len() < 22 {
        Outcome::Incomplete
    } else if LuldRefPriceTier::of_byte(s[21]) is None {
        Outcome::Malformed
    } else if s.len() < 23 {
        Outcome::Incomplete
    } else if maybe_bool_of_byte(s[22]) is None {
        Outcome::Malformed
    } else if s.len() < 28 {
        Outcome::Incomplete
    } else if bool_of_byte(s[27]) is None {
        Outcome::Malformed
    } else {
        Outcome::Done(
            28,
            StockDirectoryView {
                stock: text_at(s, 0, 8),
                market_category: MarketCategory::of_byte(s[8])->0,
                financial_status: FinancialStatus::of_byte(s[9])->0,
                round_lot_size: be32_at(s, 10) as u32,
                round_lots_only: bool_of_byte(s[14])->0,
                issue_classification: IssueClassification::Unit,
                issue_subtype: IssueSubType::AlphaIndexETNs,
                authenticity: authenticity_of_byte(s[18])->0,
                short_sale_threshold: maybe_bool_of_byte(s[19])->0,
                ipo_flag: maybe_bool_of_byte(s[20])->0,
                luld_ref_price_tier: LuldRefPriceTier::of_byte(s[21])->0,
                etp_flag: maybe_bool_of_byte(s[22])->0,
                etp_leverage_factor: be32_at(s, 23) as u32,
                inverse_indicator: bool_of_byte(s[27])->0,
            },
        )
    }
}

/// Body of a short-sale restriction record.
pub fn parse_reg_sho_restriction<'a>(i: &'a [u8]) -> (r: Parsed<'a, MessageBody>)
    ensures
        r.matches_view(i@, reg_sho_restriction_outcome(i@)),
{
    let (i1, stock) = match take_text8(i) {
        Parsed::Done(rest, v) => (rest, v),
        Parsed::Incomplete => { return Parsed::Incomplete; },
        Parsed::Malformed => { return Parsed::Malformed; },
    };
    let (i2, action_code) = match be_u8(i1) {
        Parsed::Done(rest, v) => (rest, v),
        Parsed::Incomplete => { return Parsed::Incomplete; },
        Parsed::Malformed => { return Parsed::Malformed; },
    };
    let action = match RegShoAction::from_byte(action_code) {
        Some(v) => v,
        None => { return Parsed::Malformed; },
    };
    assert(i2@ =~= i@.skip(9));
    Parsed::Done(i2, MessageBody::RegShoRestriction { stock, action })
}

/// Body of a trading action record. The byte after the trading state
/// is reserved and skipped.
pub fn parse_trading_action<'a>(i: &'a [u8]) -> (r: Parsed<'a, MessageBody>)
    ensures
        r.matches_view(i@, trading_action_outcome(i@)),
{
    let (i1, stock) = match take_text8(i) {
        Parsed::Done(rest, v) => (rest, v),
        Parsed::Incomplete => { return Parsed::Incomplete; },
        Parsed::Malformed => { return Parsed::Malformed; },
    };
    let (i2, state_code) = match be_u8(i1) {
        Parsed::Done(rest, v) => (rest, v),
        Parsed::Incomplete => { return Parsed::Incomplete; },
        Parsed::Malformed => { return Parsed::Malformed; },
    };
    let trading_state = match TradingState::from_byte(state_code) {
        Some(v) => v,
        None => { return Parsed::Malformed; },
    };
    let (i3, _reserved) = match be_u8(i2) {
        Parsed::Done(rest, v) => (rest, v),
        Parsed::Incomplete => { return Parsed::Incomplete; },
        Parsed::Malformed => { return Parsed::Malformed; },
    };
    assert(i3@ =~= i@.skip(10));
    proof {
        if i@.len() >= 14 {
            lemma_text_skip(i@, 10, 4);
        }
    }
    let (i4, reason) = match take_text4(i3) {
        Parsed::Done(rest, v) => (rest, v),
        Parsed::Incomplete => { return Parsed::Incomplete; },
        Parsed::Malformed => { return Parsed::Malformed; },
    };
    assert(i4@ =~= i@.skip(14));
    Parsed::Done(i4, MessageBody::TradingAction { stock, trading_state, reason })
}

/// Body of a market participant position record.
pub fn parse_participant_position<'a>(i: &'a [u8]) -> (r: Parsed<
    'a,
    MarketParticipantPosition,
>)
    ensures
        r.matches_view(i@, participant_position_outcome(i@)),
{
    let (i1, mpid) = match take_text4(i) {
        Parsed::Done(rest, v) => (rest, v),
        Parsed::Incomplete => { return Parsed::Incomplete; },
        Parsed::Malformed => { return Parsed::Malformed; },
    };
    assert(i1@ =~= i@.skip(4));
    proof {
        if i@.len() >= 12 {
            lemma_text_skip(i@, 4, 8);
        }
    }
    let (i2, stock) = match take_text8(i1) {
        Parsed::Done(rest, v) => (rest, v),
        Parsed::Incomplete => { return Parsed::Incomplete; },
        Parsed::Malformed => { return Parsed::Malformed; },
    };
    let (i3, primary_market_maker) = match char2bool(i2) {
        Parsed::Done(rest, v) => (rest, v),
        Parsed::Incomplete => { return Parsed::Incomplete; },
        Parsed::Malformed => { return Parsed::Malformed; },
    };
    let (i4, mode_code) = match be_u8(i3) {
        Parsed::Done(rest, v) => (rest, v),
        Parsed::Incomplete => { return Parsed::Incomplete; },
        Parsed::Malformed => { return Parsed::Malformed; },
    };
    let market_maker_mode = match MarketMakerMode::from_byte(mode_code) {
        Some(v) => v,
        None => { return Parsed::Malformed; },
    };
    let (i5, state_code) = match be_u8(i4) {
        Parsed::Done(rest, v) => (rest, v),
        Parsed::Incomplete => { return Parsed::Incomplete; },
        Parsed::Malformed => { return Parsed::Malformed; },
    };
    let market_participant_state = match MarketParticipantState::from_byte(state_code) {
        Some(v) => v,
        None => { return Parsed::Malformed; },
    };
    assert(i5@ =~= i@.skip(15));
    Parsed::Done(
        i5,
        MarketParticipantPosition {
            mpid,
            stock,
            primary_market_maker,
            market_maker_mode,
            market_participant_state,
        },
    )
}

/// An authenticity flag: `P` is true, `T` is false, any other byte is
/// malformed.
fn authenticity_flag<'a>(i: &'a [u8]) -> (r: Parsed<'a, bool>)
    ensures
        r.matches_outcome(
            i@,
            if i@.len() < 1 {
                Outcome::Incomplete
            } else {
                match authenticity_of_byte(i@[0]) {
                    Some(v) => Outcome::Done(1, v),
                    None => Outcome::Malformed,
                }
            },
        ),
{
    match be_u8(i) {
        Parsed::Done(rest, b) => {
            if b == 'P' as u8 {
                Parsed::Done(rest, true)
            } else if b == 'T' as u8 {
                Parsed::Done(rest, false)
            } else {
                Parsed::Malformed
            }
        },
        Parsed::Incomplete => Parsed::Incomplete,
        Parsed::Malformed => Parsed::Malformed,
    }
}

/// Body of a stock directory record. The classification byte and the
/// two sub-type bytes are skipped, and the record reports placeholders
/// for them.
pub fn parse_stock_directory<'a>(i: &'a [u8]) -> (r: Parsed<'a, StockDirectory>)
    ensures
        r.matches_view(i@, stock_directory_outcome(i@)),
{
    let (i1, stock) = match take_text8(i) {
        Parsed::Done(rest, v) => (rest, v),
        Parsed::Incomplete => { return Parsed::Incomplete; },
        Parsed::Malformed => { return Parsed::Malformed; },
    };
    let (i2, category_code) = match be_u8(i1) {
        Parsed::Done(rest, v) => (rest, v),
        Parsed::Incomplete => { return Parsed::Incomplete; },
        Parsed::Malformed => { return Parsed::Malformed; },
    };
    let market_category = match MarketCategory::from_byte(category_code) {
        Some(v) => v,
        None => { return Parsed::Malformed; },
    };
    let (i3, status_code) = match be_u8(i2) {
        Parsed::Done(rest, v) => (rest, v),
        Parsed::Incomplete => { return Parsed::Incomplete; },
        Parsed::Malformed => { return Parsed::Malformed; },
    };
    let financial_status = match FinancialStatus::from_byte(status_code) {
        Some(v) => v,
        None => { return Parsed::Malformed; },
    };
    let (i4, round_lot_size) = match be_u32(i3) {
        Parsed::Done(rest, v) => (rest, v),
        Parsed::Incomplete => { return Parsed::Incomplete; },
        Parsed::Malformed => { return Parsed::Malformed; },
    };
    assert(i4@ =~= i@.skip(14));
    let (i5, round_lots_only) = match char2bool(i4) {
        Parsed::Done(rest, v) => (rest, v),
        Parsed::Incomplete => { return Parsed::Incomplete; },
        Parsed::Malformed => { return Parsed::Malformed; },
    };
    let (i6, _classification) = match take(i5, 1) {
        Parsed::Done(rest, v) => (rest, v),
        Parsed::Incomplete => { return Parsed::Incomplete; },
        Parsed::Malformed => { return Parsed::Malformed; },
    };
    let (i7, _subtype) = match take(i6, 2) {
        Parsed::Done(rest, v) => (rest, v),
        Parsed::Incomplete => { return Parsed::Incomplete; },
        Parsed::Malformed => { return Parsed::Malformed; },
    };
    assert(i7@ =~= i@.skip(18));
    let (i8, authenticity) = match authenticity_flag(i7) {
        Parsed::Done(rest, v) => (rest, v),
        Parsed::Incomplete => { return Parsed::Incomplete; },
        Parsed::Malformed => { return Parsed::Malformed; },
    };
    let (i9, short_sale_threshold) = match maybe_char2bool(i8) {
        Parsed::Done(rest, v) => (rest, v),
        Parsed::Incomplete => { return Parsed::Incomplete; },
        Parsed::Malformed => { return Parsed::Malformed; },
    };
    let (i10, ipo_flag) = match maybe_char2bool(i9) {
        Parsed::Done(rest, v) => (rest, v),
        Parsed::Incomplete => { return Parsed::Incomplete; },
        Parsed::Malformed => { return Parsed::Malformed; },
    };
    let (i11, tier_code) = match be_u8(i10) {
        Parsed::Done(rest, v) => (rest, v),
        Parsed::Incomplete => { return Parsed::Incomplete; },
        Parsed::Malformed => { return Parsed::Malformed; },
    };
    let luld_ref_price_tier = match LuldRefPriceTier::from_byte(tier_code) {
        Some(v) => v,
        None => { return Parsed::Malformed; },
    };
    assert(i11@ =~= i@.skip(22));
    let (i12, etp_flag) = match maybe_char2bool(i11) {
        Parsed::Done(rest, v) => (rest, v),
        Parsed::Incomplete => { return Parsed::Incomplete; },
        Parsed::Malformed => { return Parsed::Malformed; },
    };
    let (i13, etp_leverage_factor) = match be_u32(i12) {
        Parsed::Done(rest, v) => (rest, v),
        Parsed::Incomplete => { return Parsed::Incomplete; },
        Parsed::Malformed => { return Parsed::Malformed; },
    };
    assert(i13@ =~= i@.skip(27));
    let (i14, inverse_indicator) = match char2bool(i13) {
        Parsed::Done(rest, v) => (rest, v),
        Parsed::Incomplete => { return Parsed::Incomplete; },
        Parsed::Malformed => { return Parsed::Malformed; },
    };
    assert(i14@ =~= i@.skip(28));
    Parsed::Done(
        i14,
        StockDirectory {
            stock,
            market_category,
            financial_status,
            round_lot_size,
            round_lots_only,
            issue_classification: IssueClassification::Unit,
            issue_subtype: IssueSubType::AlphaIndexETNs,
            authenticity,
            short_sale_threshold,
            ipo_flag,
            luld_ref_price_tier,
            etp_flag,
            etp_leverage_factor,
            inverse_indicator,
        },
    )
}

/// Whether a tag byte selects one of the record shapes of the grammar.
pub open spec fn is_known_tag(tag: u8) -> bool {
    ||| tag == 'S' as u8
    ||| tag == 'R' as u8
    ||| tag == 'L' as u8
    ||| tag == 'Y' as u8
    ||| tag == 'H' as u8
    ||| tag == 'A' as u8
    ||| tag == 'U' as u8
    ||| tag == 'D' as u8
}

/// What is owed for a frame whose tag is not known: the rest of the
/// frame, as many bytes as the declared length leaves after tag and
/// header. A declared length that does not even cover tag and header
/// is malformed.
pub open spec fn unknown_outcome(length: u16, tag: u8, s: Seq<u8>) -> Outcome<MessageBodyView> {
    if length < TAG_AND_HEADER {
        Outcome::Malformed
    } else if s.len() < length - TAG_AND_HEADER {
        Outcome::Incomplete
    } else {
        Outcome::Done(
            length - TAG_AND_HEADER,
            MessageBodyView::Unknown {
                length,
                tag: tag as char,
                content: s.take(length - TAG_AND_HEADER),
            },
        )
    }
}

/// What is owed for the tag-specific fields `s` of a frame with the
/// given tag and declared length.
pub open spec fn body_outcome(tag: u8, length: u16, s: Seq<u8>) -> Outcome<MessageBodyView> {
    if tag == 'S' as u8 {
        system_event_outcome(s)
    } else if tag == 'R' as u8 {
        match stock_directory_outcome(s) {
            Outcome::Done(n, v) => Outcome::Done(n, MessageBodyView::StockDirectory(v)),
            Outcome::Incomplete => Outcome::Incomplete,
            Outcome::Malformed => Outcome::Malformed,
        }
    } else if tag == 'L' as u8 {
        match participant_position_outcome(s) {
            Outcome::Done(n, v) => Outcome::Done(n, MessageBodyView::ParticipantPosition(v)),
            Outcome::Incomplete => Outcome::Incomplete,
            Outcome::Malformed => Outcome::Malformed,
        }
    } else if tag == 'Y' as u8 {
        reg_sho_restriction_outcome(s)
    } else if tag == 'H' as u8 {
        trading_action_outcome(s)
    } else if tag == 'A' as u8 {
        match add_order_outcome(s) {
            Outcome::Done(n, v) => Outcome::Done(n, MessageBodyView::AddOrder(v)),
            Outcome::Incomplete => Outcome::Incomplete,
            Outcome::Malformed => Outcome::Malformed,
        }
    } else if tag == 'U' as u8 {
        match replace_order_outcome(s) {
            Outcome::Done(n, v) => Outcome::Done(n, MessageBodyView::ReplaceOrder(v)),
            Outcome::Incomplete => Outcome::Incomplete,
            Outcome::Malformed => Outcome::Malformed,
        }
    } else if tag == 'D' as u8 {
        delete_order_outcome(s)
    } else {
        unknown_outcome(length, tag, s)
    }
}

/// What is owed for a byte sequence that starts with a frame: declared
/// length, tag and header first, then the fields that the tag implies.
#[verifier::opaque]
pub open spec fn message_outcome(s: Seq<u8>) -> Outcome<MessageView> {
    if s.len() < FRAME_PREFIX {
        Outcome::Incomplete
    } else {
        match body_outcome(s[2], be16_at(s, 0) as u16, s.skip(FRAME_PREFIX as int)) {
            Outcome::Done(n, body) => Outcome::Done(
                FRAME_PREFIX + n,
                MessageView { header: header_at(s, 3), body },
            ),
            Outcome::Incomplete => Outcome::Incomplete,
            Outcome::Malformed => Outcome::Malformed,
        }
    }
}

/// Body of a frame whose tag is not known: the rest of the frame is
/// kept verbatim.
pub fn parse_unknown<'a>(i: &'a [u8], length: u16, tag: u8) -> (r: Parsed<'a, MessageBody>)
    ensures
        r.matches_view(i@, unknown_outcome(length, tag, i@)),
{
    if length < TAG_AND_HEADER {
        return Parsed::Malformed;
    }
    let size: usize = (length - TAG_AND_HEADER) as usize;
    match take(i, size) {
        Parsed::Done(rest, payload) => {
            let content = vstd::slice::slice_to_vec(payload);
            Parsed::Done(rest, MessageBody::Unknown { length, tag: tag as char, content })
        },
        Parsed::Incomplete => Parsed::Incomplete,
        Parsed::Malformed => Parsed::Malformed,
    }
}

/// Decodes the frame at the front of the slice.
pub fn parse_message<'a>(i: &'a [u8]) -> (r: Parsed<'a, Message>)
    ensures
        r.matches_view(i@, message_outcome(i@)),
{
    proof {
        reveal(message_outcome);
    }
    let (i1, length) = match be_u16(i) {
        Parsed::Done(rest, v) => (rest, v),
        Parsed::Incomplete => { return Parsed::Incomplete; },
        Parsed::Malformed => { return Parsed::Malformed; },
    };
    let (i2, tag) = match be_u8(i1) {
        Parsed::Done(rest, v) => (rest, v),
        Parsed::Incomplete => { return Parsed::Incomplete; },
        Parsed::Malformed => { return Parsed::Malformed; },
    };
    assert(i2@ =~= i@.skip(3));
    let (i3, header) = match parse_message_header(i2) {
        Parsed::Done(rest, v) => (rest, v),
        Parsed::Incomplete => { return Parsed::Incomplete; },
        Parsed::Malformed => { return Parsed::Malformed; },
    };
    assert(i3@ =~= i@.skip(13));
    let parsed_body = if tag == 'S' as u8 {
        parse_system_event(i3)
    } else if tag == 'R' as u8 {
        match parse_stock_directory(i3) {
            Parsed::Done(rest, v) => Parsed::Done(rest, MessageBody::StockDirectory(v)),
            Parsed::Incomplete => Parsed::Incomplete,
            Parsed::Malformed => Parsed::Malformed,
        }
    } else if tag == 'L' as u8 {
        match parse_participant_position(i3) {
            Parsed::Done(rest, v) => Parsed::Done(rest, MessageBody::ParticipantPosition(v)),
            Parsed::Incomplete => Parsed::Incomplete,
            Parsed::Malformed => Parsed::Malformed,
        }
    } else if tag == 'Y' as u8 {
        parse_reg_sho_restriction(i3)
    } else if tag == 'H' as u8 {
        parse_trading_action(i3)
    } else if tag == 'A' as u8 {
        match parse_add_order(i3) {
            Parsed::Done(rest, v) => Parsed::Done(rest, MessageBody::AddOrder(v)),
            Parsed::Incomplete => Parsed::Incomplete,
            Parsed::Malformed => Parsed::Malformed,
        }
    } else if tag == 'U' as u8 {
        match parse_replace_order(i3) {
            Parsed::Done(rest, v) => Parsed::Done(rest, MessageBody::ReplaceOrder(v)),
            Parsed::Incomplete => Parsed::Incomplete,
            Parsed::Malformed => Parsed::Malformed,
        }
    } else if tag == 'D' as u8 {
        parse_delete_order(i3)
    } else {
        parse_unknown(i3, length, tag)
    };
    match parsed_body {
        Parsed::Done(rest, body) => {
            assert(rest@ =~= i@.skip(
                FRAME_PREFIX + (i3@.len() - rest@.len()),
            ));
            Parsed::Done(rest, Message { header, body })
        },
        Parsed::Incomplete => Parsed::Incomplete,
        Parsed::Malformed => Parsed::Malformed,
    }
}

/// The tag byte that a record body answers to.
pub open spec fn tag_of(body: MessageBodyView) -> char {
    match body {
        MessageBodyView::SystemEvent { .. } => 'S',
        MessageBodyView::StockDirectory(_) => 'R',
        MessageBodyView::ParticipantPosition(_) => 'L',
        MessageBodyView::RegShoRestriction { .. } => 'Y',
        MessageBodyView::TradingAction { .. } => 'H',
        MessageBodyView::AddOrder(_) => 'A',
        MessageBodyView::ReplaceOrder(_) => 'U',
        MessageBodyView::DeleteOrder { .. } => 'D',
        MessageBodyView::Unknown { tag, .. } => tag,
    }
}

/// The fields of a body that has been decoded, or found malformed, do
/// not change when more bytes follow.
pub proof fn lemma_body_stable(tag: u8, length: u16, s: Seq<u8>, t: Seq<u8>)
    requires
        !(body_outcome(tag, length, s) is Incomplete),
    ensures
        body_outcome(tag, length, s + t) == body_outcome(tag, length, s),
{
    let u = s + t;
    if s.len() >= 4 {
        lemma_text_prefix(s, t, 0, 4);
    }
    if s.len() >= 8 {
        lemma_text_prefix(s, t, 0, 8);
    }
    if s.len() >= 12 {
        lemma_text_prefix(s, t, 4, 8);
    }
    if s.len() >= 14 {
        lemma_text_prefix(s, t, 10, 4);
    }
    if s.len() >= 21 {
        lemma_text_prefix(s, t, 13, 8);
    }
    if !is_known_tag(tag) && length >= TAG_AND_HEADER {
        assert(u.take(length - TAG_AND_HEADER) =~= s.take(length - TAG_AND_HEADER));
    }
}

/// Prefix stability of the grammar: once a byte sequence decodes to a
/// record, or is found malformed, it does so whatever bytes follow it,
/// with the same record and the same number of bytes consumed.
pub proof fn lemma_message_stable(s: Seq<u8>, t: Seq<u8>)
    requires
        !(message_outcome(s) is Incomplete),
    ensures
        message_outcome(s + t) == message_outcome(s),
{
    reveal(message_outcome);
    let u = s + t;
    assert(u.skip(FRAME_PREFIX as int) =~= s.skip(FRAME_PREFIX as int) + t);
    lemma_body_stable(s[2], be16_at(s, 0) as u16, s.skip(FRAME_PREFIX as int), t);
}

/// A decoded record answers to the tag byte of its frame. Its body is
/// the fallback exactly when the tag is not known, and the fallback
/// reports the declared length and holds that many bytes less tag and
/// header, taken verbatim from the frame.
pub proof fn lemma_body_matches_tag(s: Seq<u8>)
    requires
        message_outcome(s) is Done,
    ensures
        s.len() >= FRAME_PREFIX,
        message_outcome(s) matches Outcome::Done(n, m) && tag_of(m.body) == s[2] as char
            && m.header == header_at(s, 3) && (m.body is Unknown <==> !is_known_tag(s[2])) && (
        m.body matches MessageBodyView::Unknown { length, tag, content } ==> length == be16_at(s, 0)
            && length >= TAG_AND_HEADER && n == length + 2 && content.len() == length
            - TAG_AND_HEADER && content == s.subrange(FRAME_PREFIX as int, n)),
{
    reveal(message_outcome);
    let length = be16_at(s, 0) as u16;
    let u = s.skip(FRAME_PREFIX as int);
    if !is_known_tag(s[2]) {
        assert(u.take(length - TAG_AND_HEADER) =~= s.subrange(FRAME_PREFIX as int, length + 2));
    }
}

/// A frame with an unknown tag, a declared length that covers tag and
/// header, and all of its bytes present decodes to the fallback record:
/// the content is the untouched remainder of the frame.
pub proof fn lemma_unknown_frame(s: Seq<u8>)
    requires
        s.len() >= FRAME_PREFIX,
        !is_known_tag(s[2]),
        be16_at(s, 0) >= TAG_AND_HEADER,
        s.len() >= be16_at(s, 0) + 2,
    ensures
        message_outcome(s) == Outcome::Done(
            be16_at(s, 0) + 2,
            MessageView {
                header: header_at(s, 3),
                body: MessageBodyView::Unknown {
                    length: be16_at(s, 0) as u16,
                    tag: s[2] as char,
                    content: s.subrange(FRAME_PREFIX as int, be16_at(s, 0) + 2),
                },
            },
        ),
        s.subrange(FRAME_PREFIX as int, be16_at(s, 0) + 2).len() == be16_at(s, 0) - TAG_AND_HEADER,
{
    reveal(message_outcome);
    let length = be16_at(s, 0) as u16;
    let u = s.skip(FRAME_PREFIX as int);
    assert(u.take(length - TAG_AND_HEADER) =~= s.subrange(FRAME_PREFIX as int, length + 2));
}

/// Every decoded frame consumes at least its prefix, and a frame with
/// a known tag is never larger than `MAX_FRAME`: neither when it is
/// complete, nor while bytes of it are still missing.
pub proof fn lemma_frame_size(s: Seq<u8>)
    ensures
        message_outcome(s) matches Outcome::Done(n, _) ==> FRAME_PREFIX <= n <= s.len(),
        message_outcome(s) matches Outcome::Done(n, _) ==> (is_known_tag(s[2]) ==> n <= MAX_FRAME),
        message_outcome(s) is Incomplete && s.len() >= 3 && is_known_tag(s[2]) ==> s.len()
            < MAX_FRAME,
        message_outcome(s) is Incomplete && s.len() >= FRAME_PREFIX && !is_known_tag(s[2])
            ==> s.len() < be16_at(s, 0) + 2,
{
    reveal(message_outcome);
}

} // verus!

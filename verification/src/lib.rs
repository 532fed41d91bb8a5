//! Streaming decoder for a binary market-data feed of length-prefixed,
//! tag-dispatched order-book records.
//!
//! The field codec turns byte prefixes into scalars, the record grammar
//! assembles one typed record per frame, and the message stream keeps a
//! bounded window of unconsumed bytes between refills.

pub mod codec;
pub mod enums;
pub mod errors;
pub mod feed;
pub mod message;
pub mod stream;
pub mod text;
pub mod window;

pub use codec::{be_u48, char2bool, maybe_char2bool, Outcome, Parsed};
pub use text::{Text4, Text8};
pub use enums::{
    EventCode, FinancialStatus, IssueClassification, IssueSubType, LuldRefPriceTier, MarketCategory,
    MarketMakerMode, MarketParticipantState, RegShoAction, Side, TradingState,
};
pub use message::{
    parse_add_order, parse_delete_order, parse_message, parse_message_header,
    parse_participant_position, parse_reg_sho_restriction, parse_replace_order,
    parse_stock_directory, parse_system_event, parse_trading_action, parse_unknown, AddOrder,
    MarketParticipantPosition, Message, MessageBody, MsgHeader, ReplaceOrder, StockDirectory,
};
pub use errors::DecodeError;
pub use window::{Window, BUFSIZE};
pub use stream::{parse_reader, MessageStream, Step};
pub use feed::decode_feed;

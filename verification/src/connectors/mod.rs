//! Exchange message decoding (Binance Spot public and user streams).

pub mod binance_spot;
pub mod binance_user_data;

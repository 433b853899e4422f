mod text;

pub mod quote;
pub mod unescape;
pub mod accumulator;
pub mod command;
pub mod listing;
pub mod fsargs;

pub mod date;
pub mod text;
pub mod date_parse;
pub mod month;
pub mod grid;
pub mod workbook;
pub mod groups;
pub mod schedule;
pub mod update;
pub mod bot;

pub mod trades;

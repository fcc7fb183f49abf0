pub mod constants;
pub mod decimal;

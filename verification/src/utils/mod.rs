pub mod conversions;
pub mod decimal;
pub mod text;

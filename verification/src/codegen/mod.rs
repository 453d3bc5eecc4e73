pub mod case;
pub mod context;
pub mod decimal;
pub mod rust;
pub mod templates;

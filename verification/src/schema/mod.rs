pub mod load;
pub mod model;
pub mod names;
pub mod raw;
pub mod sort;

pub use self::load::raw_valid;
pub use self::model::{Attribute, Enum, EnumVal, Field, Object, Schema, Type};
pub use self::names::base_name;
pub use self::raw::{
    from_base_type, try_into_enum, BaseType, RawEnum, RawEnumVal, RawField, RawObject, RawType,
};

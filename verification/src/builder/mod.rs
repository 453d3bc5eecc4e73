pub mod buffer;
pub mod built;
pub mod component;
pub mod emit;
pub mod frame;
pub mod layout;
pub mod lift;
pub mod run;
pub mod settle;
pub mod sharing;
pub mod table;
pub mod tree;
pub mod vtable;

pub use self::buffer::{Builder, BuilderView, VTableBuilder};
pub use self::component::{
    Component, DesignatedComponent, FieldValue, NestedBufferComponent, ReferencesVectorComponent,
    ScalarsVectorComponent, StringComponent, TableComponent, TableField,
};

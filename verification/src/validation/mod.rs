pub mod conformance;
pub mod offsets;
pub mod root;
pub mod soundness;
pub mod string;
pub mod table;

pub use self::offsets::{try_follow_uoffset, try_read_uoffset, Error, MAX_OFFSET_LOC};
pub use self::root::{
    get_root, get_size_prefixed_root, verify_root, verify_size_prefixed_root, TableVerifier,
    VectorVerifier, Verify,
};
pub use self::conformance::conforms;
pub use self::soundness::build_verified;
pub use self::string::StringVerifier;
pub use self::table::{field_location, verifiable};

//! Generation and validation of private (unique local) IPv6 addresses,
//! rendered as four colon-separated lowercase hex groups with a fixed
//! `:/64` prefix-length suffix. The first group always begins with the
//! literal marker `fd` followed by one zero-padded byte.

pub mod hex;
pub mod grammar;
pub mod builder;
pub mod validator;

pub use builder::generate_hex;
pub use builder::generate_private_ipv6;
pub use builder::generate_private_ipv6_with_values;
pub use validator::is_valid_private_ipv6;

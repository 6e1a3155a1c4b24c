//! Acquisition and normalisation of VPN provider configuration bundles, and
//! the credential cache that spares the user a prompt on every sync.

pub mod text;
pub mod provider;
pub mod mullvad;
pub mod pia;
pub mod country_map;
pub mod normalize;
pub mod ivpn;
pub mod archive;

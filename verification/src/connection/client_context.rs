//! What a client is told about the connection that it makes.

use crate::settings::{EncryptionSetting, IPAddressPreference};
use vstd::prelude::*;

verus! {

/// What a client is told about the connection that it makes.
#[derive(Debug)]
pub struct ClientContext {
    pub user_name: String,
    pub password: String,
    /// How many seconds connecting may take; 0 for no limit.
    pub connect_timeout: u32,
    pub multi_subnet_failover: bool,
    /// The other server of a mirrored database; empty where there is none.
    pub failover_partner: String,
    pub encryption: EncryptionSetting,
    pub ipaddress_preference: IPAddressPreference,
    pub keep_alive_in_ms: u32,
    pub keep_alive_interval_in_ms: u32,
}

} // verus!

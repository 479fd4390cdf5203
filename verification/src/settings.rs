//! The settings that a connection is made with.

use vstd::prelude::*;

verus! {

/// Which encryption the client asks for.
#[derive(Clone, Copy, Debug, PartialEq, Eq, Structural)]
pub enum EncryptionSetting {
    PreferOff,
    On,
    Required,
    Strict,
}

/// Which encryption client and server agreed on.
#[derive(Clone, Copy, Debug, PartialEq, Eq, Structural)]
pub enum NegotiatedEncryptionSetting {
    NoEncryption,
    LoginOnly,
    Mandatory,
    Strict,
}

/// The version of the protocol.
#[derive(Clone, Copy, Debug, PartialEq, Eq, Structural)]
pub enum TdsVersion {
    V7_4,
    V8_0,
    Unknown(u32),
}

/// Which addresses of a host are tried first.
#[derive(Clone, Copy, Debug, PartialEq, Eq, Structural)]
pub enum IPAddressPreference {
    UsePlatformDefault,
    IPv4First,
    IPv6First,
}

} // verus!

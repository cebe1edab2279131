//! The records of the Microsoft / Xbox Live / Minecraft sign-in exchange.
use vstd::prelude::*;
use crate::text::{extend_str, string_from_chars};

verus! {

/// The client ID the launcher signs in with.
pub const CLIENT_ID: &'static str = "97b1e314-6463-4a4c-98c9-b4c5dbcc114f";

/// The answer to a device-code request: what the user types where.
pub struct DeviceCodeResponse {
    pub user_code: String,
    pub device_code: String,
    pub verification_uri: String,
    /// Seconds between polls.
    pub interval: u64,
    pub expires_in: u64,
}

pub struct MicrosoftToken {
    pub access_token: String,
    pub refresh_token: Option<String>,
}

pub struct XboxLiveResponse {
    pub token: String,
    pub display_claims: DisplayClaims,
}

pub struct DisplayClaims {
    pub xui: Vec<Xui>,
}

pub struct Xui {
    /// The user hash.
    pub uhs: String,
}

pub struct MinecraftAuthResponse {
    pub access_token: String,
    pub username: String,
    pub _roles: Vec<String>,
    pub expires_in: u32,
}

/// A player's profile: UUID and name.
pub struct MinecraftProfile {
    pub id: String,
    pub name: String,
}

/// The user hash of an Xbox Live answer: that of its first claim.
pub fn user_hash(r: &XboxLiveResponse) -> (h: Option<String>)
    ensures
        match h {
            Some(x) => r.display_claims.xui.len() > 0 && x == r.display_claims.xui@[0].uhs,
            None => r.display_claims.xui.len() == 0,
        },
{
    if r.display_claims.xui.len() > 0 {
        Some(r.display_claims.xui[0].uhs.clone())
    } else {
        None
    }
}

/// The identity token the game services take: `XBL3.0 x=<uhs>;<xsts>`.
pub fn xbox_identity_token(uhs: &str, xsts_token: &str) -> (r: String)
    ensures
        r@ == "XBL3.0 x="@ + uhs@ + seq![';'] + xsts_token@,
{
    let mut m: Vec<char> = Vec::new();
    extend_str(&mut m, "XBL3.0 x=");
    extend_str(&mut m, uhs);
    m.push(';');
    extend_str(&mut m, xsts_token);
    string_from_chars(m.as_slice())
}

} // verus!

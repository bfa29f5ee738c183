use vstd::prelude::*;

verus! {

/// The body of a request to join a Wi-Fi network.
pub struct ConnectWifiReq {
    pub ssid: String,
    pub password: String,
}

} // verus!

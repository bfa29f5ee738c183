use vstd::prelude::*;

verus! {

/// The `code` of a successful response.
pub const SUCCESS_CODE: i32 = 0;

/// The `code` of a response that reports a system error.
pub const ERROR_CODE: i32 = 1;

/// The envelope of every answer of the configuration web server:
/// a status code, a message and an optional payload.
pub struct Res<T> {
    pub code: i32,
    pub msg: String,
    pub data: Option<T>,
}

impl<T> Res<T> {
    /// Whether a response with this code reports success.
    pub open spec fn spec_is_success(self) -> bool {
        self.code == SUCCESS_CODE
    }

    /// A successful response carrying `data` and an empty message.
    pub fn success(data: T) -> (r: Self)
        ensures
            r.code == SUCCESS_CODE,
            r.msg@ == Seq::<char>::empty(),
            r.data == Some(data),
    {
        Res { code: SUCCESS_CODE, msg: String::new(), data: Some(data) }
    }

    /// An error response carrying `msg` and no payload.
    pub fn error(msg: &str) -> (r: Self)
        ensures
            r.code == ERROR_CODE,
            r.msg@ == msg@,
            r.data is None,
    {
        Res { code: ERROR_CODE, msg: String::from_str(msg), data: None }
    }

    /// Whether the response reports success (its code is `0`).
    pub fn is_success(&self) -> (b: bool)
        ensures
            b == self.spec_is_success(),
    {
        self.code == 0
    }
}

/// A response built by `success` reports success, one built by `error`
/// does not, whatever the payload or the message.
pub proof fn success_and_error_are_told_apart<T>(ok: Res<T>, err: Res<T>)
    requires
        ok.code == SUCCESS_CODE,
        err.code == ERROR_CODE,
    ensures
        ok.spec_is_success(),
        !err.spec_is_success(),
{
}

/// One network found by a Wi-Fi scan, as the web page lists it.
pub struct WifiListRes {
    /// The network's name.
    pub ssid: String,
    /// The signal strength (RSSI, dBm).
    pub signal_strength: i8,
    /// The name of the network's authentication method.
    pub auth_method: String,
}

/// The voice settings that the web page shows.
pub struct SettingsRes {
    /// The role prompt.
    pub role_prompt: String,
    /// The synthesis voice.
    pub voice: String,
    /// The speech speed.
    pub speech_speed: u8,
    /// The volume.
    pub volume: u8,
}

} // verus!

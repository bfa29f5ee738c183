use vstd::prelude::*;

use crate::request::ConnectWifiReq;
use crate::response::WifiListRes;

verus! {

/// How a Wi-Fi network authenticates its stations.
#[derive(Clone, Copy, Debug, PartialEq, Eq, Structural)]
pub enum AuthMethod {
    /// No authentication: an open network.
    Open,
    WEP,
    WPA,
    WPA2Personal,
    WPAWPA2Personal,
    WPA2Enterprise,
    WPA3Personal,
    WPA2WPA3Personal,
    WAPIPersonal,
}

/// One access point as a scan reports it.
pub struct AccessPoint {
    pub ssid: String,
    pub signal_strength: i8,
    /// `None` where the scan could not tell the method.
    pub auth_method: Option<AuthMethod>,
}

/// The label that the web page shows for an authentication method.
pub open spec fn auth_label(m: Option<AuthMethod>) -> Seq<char> {
    match m {
        Some(AuthMethod::Open) => "Open"@,
        Some(AuthMethod::WEP) => "WEP"@,
        Some(AuthMethod::WPA) => "WPA"@,
        Some(AuthMethod::WPA2Personal) => "WPA2"@,
        Some(AuthMethod::WPAWPA2Personal) => "WPA/WPA2"@,
        Some(AuthMethod::WPA2Enterprise) => "WPA2-Enterprise"@,
        Some(AuthMethod::WPA3Personal) => "WPA3"@,
        Some(AuthMethod::WPA2WPA3Personal) => "WPA2/WPA3"@,
        Some(AuthMethod::WAPIPersonal) => "WAPI"@,
        None => "Unknown"@,
    }
}

/// The label of an authentication method; `"Unknown"` when there is none.
pub fn auth_method_label(m: Option<AuthMethod>) -> (s: String)
    ensures
        s@ == auth_label(m),
{
    let label = match m {
        Some(AuthMethod::Open) => "Open",
        Some(AuthMethod::WEP) => "WEP",
        Some(AuthMethod::WPA) => "WPA",
        Some(AuthMethod::WPA2Personal) => "WPA2",
        Some(AuthMethod::WPAWPA2Personal) => "WPA/WPA2",
        Some(AuthMethod::WPA2Enterprise) => "WPA2-Enterprise",
        Some(AuthMethod::WPA3Personal) => "WPA3",
        Some(AuthMethod::WPA2WPA3Personal) => "WPA2/WPA3",
        Some(AuthMethod::WAPIPersonal) => "WAPI",
        None => "Unknown",
    };
    String::from_str(label)
}

/// The entry of the network list for one scanned access point.
pub open spec fn list_entry_matches(e: WifiListRes, ap: AccessPoint) -> bool {
    &&& e.ssid@ == ap.ssid@
    &&& e.signal_strength == ap.signal_strength
    &&& e.auth_method@ == auth_label(ap.auth_method)
}

/// The network list shown by the web page, one entry per scanned access
/// point, in scan order.
pub fn list_all_wifi(scanned: Vec<AccessPoint>) -> (list: Vec<WifiListRes>)
    ensures
        list.len() == scanned.len(),
        forall|i: int| 0 <= i < list.len() ==> list_entry_matches(#[trigger] list[i], scanned[i]),
{
    let mut list: Vec<WifiListRes> = Vec::new();
    let n = scanned.len();
    let mut i: usize = 0;
    while i < n
        invariant
            n == scanned.len(),
            i <= n,
            list.len() == i,
            forall|k: int| 0 <= k < i ==> list_entry_matches(#[trigger] list[k], scanned[k]),
        decreases n - i,
    {
        let ap = &scanned[i];
        let mut ssid = String::new();
        ssid.append(ap.ssid.as_str());
        let entry = WifiListRes {
            ssid,
            signal_strength: ap.signal_strength,
            auth_method: auth_method_label(ap.auth_method),
        };
        list.push(entry);
        i = i + 1;
    }
    list
}

/// How many times the link is checked, a second apart, after asking to join.
pub const CONNECT_CHECKS: u8 = 10;

/// Where an attempt to join a network stands.
#[derive(Clone, Copy, Debug, PartialEq, Eq, Structural)]
pub enum ConnectPhase {
    /// Waiting for the previous network to drop.
    Disconnecting,
    /// Joining; `checks` negative link checks have been made so far.
    Connecting { checks: u8 },
    /// The link came up: the credentials are to be stored.
    Connected,
    /// The link did not come up in time.
    Failed,
}

/// What the driver of an attempt does next.
#[derive(Clone, Copy, Debug, PartialEq, Eq, Structural)]
pub enum ConnectAction {
    /// Sleep 100 ms, then report the link state again.
    WaitDisconnect,
    /// Set the new credentials, ask to connect, then report the link state.
    Configure,
    /// Sleep a second, then report the link state again (unless failed).
    WaitConnect,
    /// Store the credentials: the attempt succeeded.
    Persist,
}

/// The phase after one report of the link state, and the action it calls for.
pub open spec fn connect_step(phase: ConnectPhase, connected: bool) -> (ConnectPhase, ConnectAction) {
    match phase {
        ConnectPhase::Disconnecting => if connected {
            (ConnectPhase::Disconnecting, ConnectAction::WaitDisconnect)
        } else {
            (ConnectPhase::Connecting { checks: 0 }, ConnectAction::Configure)
        },
        ConnectPhase::Connecting { checks } => if connected {
            (ConnectPhase::Connected, ConnectAction::Persist)
        } else if checks + 1 >= CONNECT_CHECKS {
            (ConnectPhase::Failed, ConnectAction::WaitConnect)
        } else {
            (ConnectPhase::Connecting { checks: (checks + 1) as u8 }, ConnectAction::WaitConnect)
        },
        ConnectPhase::Connected => (ConnectPhase::Connected, ConnectAction::Persist),
        ConnectPhase::Failed => (ConnectPhase::Failed, ConnectAction::WaitConnect),
    }
}

/// An attempt to join the network named in a request.
pub struct WifiConnect {
    pub ssid: String,
    pub password: String,
    pub phase: ConnectPhase,
}

impl WifiConnect {
    /// The phases an attempt can be in.
    pub open spec fn wf(self) -> bool {
        self.phase matches ConnectPhase::Connecting { checks } ==> checks < CONNECT_CHECKS
    }

    /// Starts an attempt: first the current link has to drop.
    pub fn new(req: ConnectWifiReq) -> (c: Self)
        ensures
            c.ssid@ == req.ssid@,
            c.password@ == req.password@,
            c.phase == ConnectPhase::Disconnecting,
            c.wf(),
    {
        WifiConnect { ssid: req.ssid, password: req.password, phase: ConnectPhase::Disconnecting }
    }

    /// Takes one report of whether the station is connected and says what to do.
    pub fn on_link_state(&mut self, connected: bool) -> (a: ConnectAction)
        ensures
            final(self).wf(),
            (final(self).phase, a) == connect_step(old(self).phase, connected),
            final(self).ssid == old(self).ssid,
            final(self).password == old(self).password,
    {
        let (phase, action) = match self.phase {
            ConnectPhase::Disconnecting => if connected {
                (ConnectPhase::Disconnecting, ConnectAction::WaitDisconnect)
            } else {
                (ConnectPhase::Connecting { checks: 0 }, ConnectAction::Configure)
            },
            ConnectPhase::Connecting { checks } => if connected {
                (ConnectPhase::Connected, ConnectAction::Persist)
            } else if checks >= CONNECT_CHECKS - 1 {
                (ConnectPhase::Failed, ConnectAction::WaitConnect)
            } else {
                (ConnectPhase::Connecting { checks: checks + 1 }, ConnectAction::WaitConnect)
            },
            ConnectPhase::Connected => (ConnectPhase::Connected, ConnectAction::Persist),
            ConnectPhase::Failed => (ConnectPhase::Failed, ConnectAction::WaitConnect),
        };
        self.phase = phase;
        action
    }

    /// Whether the attempt has given up.
    pub fn is_failed(&self) -> (b: bool)
        ensures
            b == (self.phase == ConnectPhase::Failed),
    {
        match self.phase {
            ConnectPhase::Failed => true,
            _ => false,
        }
    }

    /// The message of a failed attempt.
    pub fn failure_message(&self) -> (m: String)
        ensures
            m@ == "无法连接到 "@ + self.ssid@,
    {
        let mut m = String::from_str("无法连接到 ");
        m.append(self.ssid.as_str());
        m
    }
}

/// The phase reached from `phase` after a series of link reports.
pub open spec fn replay_connect(phase: ConnectPhase, reports: Seq<bool>) -> ConnectPhase
    decreases reports.len(),
{
    if reports.len() == 0 {
        phase
    } else {
        replay_connect(connect_step(phase, reports[0]).0, reports.drop_first())
    }
}

/// Once the attempt has asked to join, it succeeds exactly when one of the
/// first ten link checks finds the station connected, and gives up after ten
/// negative checks.
pub proof fn connect_succeeds_iff_link_seen(reports: Seq<bool>, checks: u8)
    requires
        checks < CONNECT_CHECKS,
        reports.len() == CONNECT_CHECKS - checks,
    ensures
        (exists|i: int| 0 <= i < reports.len() && reports[i]) ==> replay_connect(
            ConnectPhase::Connecting { checks },
            reports,
        ) == ConnectPhase::Connected,
        (forall|i: int| 0 <= i < reports.len() ==> !reports[i]) ==> replay_connect(
            ConnectPhase::Connecting { checks },
            reports,
        ) == ConnectPhase::Failed,
    decreases reports.len(),
{
    let start = ConnectPhase::Connecting { checks };
    if reports[0] {
        lemma_terminal_stays(ConnectPhase::Connected, reports.drop_first());
    } else if checks + 1 >= CONNECT_CHECKS {
        lemma_terminal_stays(ConnectPhase::Failed, reports.drop_first());
        assert(reports.drop_first().len() == 0);
    } else {
        let rest = reports.drop_first();
        connect_succeeds_iff_link_seen(rest, (checks + 1) as u8);
        if exists|i: int| 0 <= i < reports.len() && reports[i] {
            let i = choose|i: int| 0 <= i < reports.len() && reports[i];
            assert(rest[i - 1]);
        }
        if forall|i: int| 0 <= i < reports.len() ==> !reports[i] {
            assert forall|i: int| 0 <= i < rest.len() implies !rest[i] by {
                assert(rest[i] == reports[i + 1]);
            }
        }
    }
}

proof fn lemma_terminal_stays(phase: ConnectPhase, reports: Seq<bool>)
    requires
        phase == ConnectPhase::Connected || phase == ConnectPhase::Failed,
    ensures
        replay_connect(phase, reports) == phase,
    decreases reports.len(),
{
    if reports.len() > 0 {
        lemma_terminal_stays(phase, reports.drop_first());
    }
}

} // verus!

verus! {

/// While joining, the first link report that finds the station connected is
/// answered by storing the credentials, however many negative checks came
/// before; once connected, every further report is answered the same way.
/// A report that finds the link down while joining never stores them.
pub proof fn link_up_is_persisted(checks: u8, connected: bool)
    ensures
        connect_step(ConnectPhase::Connecting { checks }, true) == (
            ConnectPhase::Connected,
            ConnectAction::Persist,
        ),
        connect_step(ConnectPhase::Connected, connected) == (
            ConnectPhase::Connected,
            ConnectAction::Persist,
        ),
        connect_step(ConnectPhase::Connecting { checks }, false).1 == ConnectAction::WaitConnect,
        connect_step(ConnectPhase::Disconnecting, false) == (
            ConnectPhase::Connecting { checks: 0 },
            ConnectAction::Configure,
        ),
        connect_step(ConnectPhase::Disconnecting, true) == (
            ConnectPhase::Disconnecting,
            ConnectAction::WaitDisconnect,
        ),
{
}

} // verus!

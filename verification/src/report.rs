//! What a scan reports: one record for each endpoint, and the counts at its end.

use vstd::prelude::*;
use crate::auth::AuthMode;
use crate::config::MIN_PROTOCOL_VERSION;
use crate::error::ProbeError;
use crate::status::PlayerSample;
use crate::status::ServerResponse;
use crate::text::motd_spec;
use crate::text::parse_motd;

verus! {

/// A player in a report.
#[derive(Debug, PartialEq, Eq)]
pub struct Player {
    pub name: String,
    /// The id under which the server listed the player.
    pub uuid: String,
}

/// What one probe reports of one endpoint.
#[derive(Debug, PartialEq, Eq)]
pub struct ScanResult {
    /// The host that was probed.
    pub ip: String,
    /// The port that was probed.
    pub port: u16,
    /// The message of the day, as plain text.
    pub motd: Option<String>,
    /// The name of the version that the server runs.
    pub version: Option<String>,
    /// The number of the protocol that the server speaks.
    pub protocol: Option<i32>,
    pub max_players: Option<i32>,
    pub online_players: Option<i32>,
    /// The players that the server chose to list.
    pub players: Option<Vec<Player>>,
    /// The icon of the server, most often a data URL.
    pub favicon: Option<String>,
    /// The code of the mode that the login probe found.
    pub auth_mode: Option<i32>,
    /// Why the status dialogue failed.
    pub error: Option<String>,
}

/// A player as plain values.
pub struct PlayerView {
    pub name: Seq<char>,
    pub uuid: Seq<char>,
}

/// A report as plain values.
pub struct ScanResultView {
    pub ip: Seq<char>,
    pub port: u16,
    pub motd: Option<Seq<char>>,
    pub version: Option<Seq<char>>,
    pub protocol: Option<i32>,
    pub max_players: Option<i32>,
    pub online_players: Option<i32>,
    pub players: Option<Seq<PlayerView>>,
    pub favicon: Option<Seq<char>>,
    pub auth_mode: Option<i32>,
    pub error: Option<Seq<char>>,
}

/// An optional string as plain values.
pub open spec fn text_view(text: Option<String>) -> Option<Seq<char>> {
    match text {
        Some(s) => Some(s@),
        None => None,
    }
}

impl View for Player {
    type V = PlayerView;

    open spec fn view(&self) -> PlayerView {
        PlayerView { name: self.name@, uuid: self.uuid@ }
    }
}

/// A list of players as plain values.
pub open spec fn players_view(players: Seq<Player>) -> Seq<PlayerView> {
    Seq::new(players.len(), |i: int| players[i]@)
}

impl View for ScanResult {
    type V = ScanResultView;

    open spec fn view(&self) -> ScanResultView {
        ScanResultView {
            ip: self.ip@,
            port: self.port,
            motd: text_view(self.motd),
            version: text_view(self.version),
            protocol: self.protocol,
            max_players: self.max_players,
            online_players: self.online_players,
            players: match self.players {
                Some(list) => Some(players_view(list@)),
                None => None,
            },
            favicon: text_view(self.favicon),
            auth_mode: self.auth_mode,
            error: text_view(self.error),
        }
    }
}

impl ScanResultView {
    /// A report that says nothing of the endpoint yet.
    pub open spec fn blank(ip: Seq<char>, port: u16) -> ScanResultView {
        ScanResultView {
            ip,
            port,
            motd: None,
            version: None,
            protocol: None,
            max_players: None,
            online_players: None,
            players: None,
            favicon: None,
            auth_mode: None,
            error: None,
        }
    }

    /// A report carries a failure or what the server said, never both.
    pub open spec fn well_formed(self) -> bool {
        self.error is Some ==> self == (ScanResultView { error: self.error, ..Self::blank(self.ip, self.port) })
    }
}

/// The players of a sample as they stand in a report: the id of each becomes its uuid.
pub open spec fn sample_view(sample: Seq<PlayerSample>) -> Seq<PlayerView> {
    Seq::new(sample.len(), |i: int| PlayerView { name: sample[i].name@, uuid: sample[i].id@ })
}

/// The report of an endpoint whose status dialogue gave `response`.
pub open spec fn status_view(ip: Seq<char>, port: u16, response: ServerResponse) -> ScanResultView {
    ScanResultView {
        ip,
        port,
        motd: match response.description {
            Some(d) => Some(motd_spec(d)),
            None => None,
        },
        version: match response.version {
            Some(v) => Some(v.name@),
            None => None,
        },
        protocol: match response.version {
            Some(v) => Some(v.protocol),
            None => None,
        },
        max_players: match response.players {
            Some(p) => Some(p.max),
            None => None,
        },
        online_players: match response.players {
            Some(p) => Some(p.online),
            None => None,
        },
        players: match response.players {
            Some(p) => match p.sample {
                Some(list) => Some(sample_view(list@)),
                None => None,
            },
            None => None,
        },
        favicon: text_view(response.favicon),
        auth_mode: None,
        error: None,
    }
}

/// Turns the sample of a status document into the players of a report.
fn players_of(sample: &Vec<PlayerSample>) -> (players: Vec<Player>)
    ensures
        players_view(players@) == sample_view(sample@),
{
    let mut players: Vec<Player> = Vec::new();
    let mut i: usize = 0;
    while i < sample.len()
        invariant
            i <= sample.len(),
            players.len() == i,
            forall|k: int| 0 <= k < i ==> players@[k]@ == (PlayerView { name: sample@[k].name@, uuid: sample@[k].id@ }),
        decreases sample.len() - i,
    {
        players.push(Player { name: sample[i].name.clone(), uuid: sample[i].id.clone() });
        i = i + 1;
    }
    assert(players_view(players@) =~= sample_view(sample@));
    players
}

impl ScanResult {
    /// The report of an endpoint of which nothing is known yet.
    pub fn new(ip: String, port: u16) -> (r: ScanResult)
        ensures
            r@ == ScanResultView::blank(ip@, port),
    {
        ScanResult {
            ip,
            port,
            motd: None,
            version: None,
            protocol: None,
            max_players: None,
            online_players: None,
            players: None,
            favicon: None,
            auth_mode: None,
            error: None,
        }
    }

    /// The report of an endpoint that answered the status dialogue.
    pub fn from_status(ip: String, port: u16, response: &ServerResponse) -> (r: ScanResult)
        ensures
            r@ == status_view(ip@, port, *response),
            r@.well_formed(),
    {
        let mut r = ScanResult::new(ip, port);
        if let Some(version) = &response.version {
            r.version = Some(version.name.clone());
            r.protocol = Some(version.protocol);
        }
        if let Some(players) = &response.players {
            r.max_players = Some(players.max);
            r.online_players = Some(players.online);
            if let Some(sample) = &players.sample {
                r.players = Some(players_of(sample));
            }
        }
        if let Some(description) = &response.description {
            r.motd = Some(parse_motd(description));
        }
        if let Some(favicon) = &response.favicon {
            r.favicon = Some(favicon.clone());
        }
        r
    }

    /// The report of an endpoint whose status dialogue failed for `reason`.
    pub fn failed(ip: String, port: u16, reason: String) -> (r: ScanResult)
        ensures
            r@ == (ScanResultView { error: Some(reason@), ..ScanResultView::blank(ip@, port) }),
            r@.well_formed(),
    {
        let mut r = ScanResult::new(ip, port);
        r.error = Some(reason);
        r
    }

    /// The report of an endpoint whose probe ran out of time.
    pub fn timed_out(ip: String, port: u16) -> (r: ScanResult)
        ensures
            r@ == (ScanResultView { error: Some("Scan timeout"@), ..ScanResultView::blank(ip@, port) }),
            r@.well_formed(),
    {
        ScanResult::failed(ip, port, ProbeError::Timeout.message())
    }

    /// Records what the login probe found. A report of a failure keeps no mode.
    pub fn set_auth_mode(&mut self, mode: AuthMode)
        ensures
            old(self)@.error is None ==> final(self)@ == (ScanResultView {
                auth_mode: Some(mode.code_spec()),
                ..old(self)@
            }),
            old(self)@.error is Some ==> final(self)@ == old(self)@,
            old(self)@.well_formed() ==> final(self)@.well_formed(),
    {
        if self.error.is_none() {
            self.auth_mode = Some(mode.code());
        }
    }
}

/// The counts that close a scan.
#[derive(Clone, Copy, Debug, PartialEq, Eq, Structural)]
pub struct ScanSummary {
    /// How many endpoints were probed.
    pub total: usize,
    /// How many of them answered the status dialogue.
    pub successful: usize,
    /// How many did not.
    pub failed: usize,
    /// How many check logins with the session service.
    pub online_mode: usize,
    /// How many let a login through unchecked.
    pub offline_mode: usize,
    /// How many turned the login away.
    pub whitelist: usize,
}

/// How many of `results` carry no failure.
pub open spec fn count_successful(results: Seq<ScanResult>) -> nat
    decreases results.len(),
{
    if results.len() == 0 {
        0
    } else {
        count_successful(results.drop_last()) + if results.last().error is None {
            1nat
        } else {
            0nat
        }
    }
}

/// How many of `results` carry the mode `mode`.
pub open spec fn count_mode(results: Seq<ScanResult>, mode: AuthMode) -> nat
    decreases results.len(),
{
    if results.len() == 0 {
        0
    } else {
        count_mode(results.drop_last(), mode) + if results.last().auth_mode == Some(mode.code_spec()) {
            1nat
        } else {
            0nat
        }
    }
}

proof fn lemma_counts_bounded(results: Seq<ScanResult>, mode: AuthMode)
    ensures
        count_successful(results) <= results.len(),
        count_mode(results, mode) <= results.len(),
    decreases results.len(),
{
    if results.len() > 0 {
        lemma_counts_bounded(results.drop_last(), mode);
    }
}

fn has_mode(result: &ScanResult, mode: AuthMode) -> (r: bool)
    ensures
        r == (result.auth_mode == Some(mode.code_spec())),
{
    match result.auth_mode {
        Some(code) => code == mode.code(),
        None => false,
    }
}

/// Counts the reports of a scan by how they ended.
pub fn summarize(results: &[ScanResult]) -> (s: ScanSummary)
    ensures
        s.total == results.len(),
        s.successful == count_successful(results@),
        s.failed == results.len() - count_successful(results@),
        s.online_mode == count_mode(results@, AuthMode::Premium),
        s.offline_mode == count_mode(results@, AuthMode::Cracked),
        s.whitelist == count_mode(results@, AuthMode::Whitelisted),
{
    let mut successful: usize = 0;
    let mut online_mode: usize = 0;
    let mut offline_mode: usize = 0;
    let mut whitelist: usize = 0;
    let mut i: usize = 0;
    while i < results.len()
        invariant
            i <= results.len(),
            successful == count_successful(results@.take(i as int)),
            online_mode == count_mode(results@.take(i as int), AuthMode::Premium),
            offline_mode == count_mode(results@.take(i as int), AuthMode::Cracked),
            whitelist == count_mode(results@.take(i as int), AuthMode::Whitelisted),
        decreases results.len() - i,
    {
        proof {
            let next = results@.take(i + 1);
            assert(next.drop_last() =~= results@.take(i as int));
            lemma_counts_bounded(next, AuthMode::Premium);
            lemma_counts_bounded(next, AuthMode::Cracked);
            lemma_counts_bounded(next, AuthMode::Whitelisted);
        }
        if results[i].error.is_none() {
            successful = successful + 1;
        }
        if has_mode(&results[i], AuthMode::Premium) {
            online_mode = online_mode + 1;
        }
        if has_mode(&results[i], AuthMode::Cracked) {
            offline_mode = offline_mode + 1;
        }
        if has_mode(&results[i], AuthMode::Whitelisted) {
            whitelist = whitelist + 1;
        }
        i = i + 1;
    }
    assert(results@.take(i as int) =~= results@);
    proof {
        lemma_counts_bounded(results@, AuthMode::Premium);
    }
    ScanSummary {
        total: results.len(),
        successful,
        failed: results.len() - successful,
        online_mode,
        offline_mode,
        whitelist,
    }
}

/// What to do about the login probe once the status is known.
#[derive(Clone, Copy, Debug, PartialEq, Eq, Structural)]
pub enum AuthPlan {
    /// The caller did not ask for the mode: the report says nothing of it.
    Skip,
    /// The mode cannot be found out: the report says unknown.
    Unknown,
    /// Run the login probe with this protocol.
    Probe(i32),
}

/// The plan for an endpoint: no probe unless the caller asks for the mode,
/// and unknown unless the server has named a protocol that the probe speaks.
pub open spec fn plan_auth_spec(check_auth: bool, protocol: Option<i32>) -> AuthPlan {
    if !check_auth {
        AuthPlan::Skip
    } else {
        match protocol {
            Some(p) => if p >= MIN_PROTOCOL_VERSION {
                AuthPlan::Probe(p)
            } else {
                AuthPlan::Unknown
            },
            None => AuthPlan::Unknown,
        }
    }
}

/// Decides whether the login probe runs: only where the caller asks for it
/// and the server has named a protocol that the probe speaks.
pub fn plan_auth(check_auth: bool, protocol: Option<i32>) -> (plan: AuthPlan)
    ensures
        plan == plan_auth_spec(check_auth, protocol),
{
    if !check_auth {
        AuthPlan::Skip
    } else {
        match protocol {
            Some(p) => if p >= MIN_PROTOCOL_VERSION {
                AuthPlan::Probe(p)
            } else {
                AuthPlan::Unknown
            },
            None => AuthPlan::Unknown,
        }
    }
}

} // verus!

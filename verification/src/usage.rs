//! Quota data for the Usage view, as read from a tg-usage server: plain
//! data, already filtered to accounts with at least one measurable window.
use vstd::prelude::*;

verus! {

/// Where and how to reach the tg-usage server this host was paired with.
#[derive(Clone, Debug)]
pub struct Connection {
    pub origin: String,
    pub device_token: String,
    pub access: Option<(String, String)>,
}

/// The length class of a quota window.
#[derive(Clone, Copy, Debug, PartialEq, Eq, Structural)]
pub enum Horizon {
    Session,
    Weekly,
    Monthly,
    Other,
}

/// One quota window of an account.
#[derive(Clone, Debug)]
pub struct Window {
    pub label: String,
    pub horizon: Horizon,
    /// The share used (0.0..=1.0), as the IEEE-754 bit pattern of the
    /// server's `f64`; the drawing layer reads it back as a float.
    pub used_bits: u64,
    /// Window length; `None` when the server does not report one.
    pub duration_ms: Option<i64>,
    /// Epoch milliseconds of the next reset, if known.
    pub resets_at_ms: Option<i64>,
    /// True for model-restricted windows (e.g. "Weekly Fable").
    pub model_scoped: bool,
}

/// One account and its quota windows.
#[derive(Clone, Debug)]
pub struct Account {
    /// The service the account belongs to, e.g. "glm".
    pub provider: String,
    /// The name shown in the header row.
    pub display_name: String,
    /// False when the account's data is stale or unavailable.
    pub fresh: bool,
    pub windows: Vec<Window>,
}

/// What the server reported at one moment.
#[derive(Clone, Debug)]
pub struct Snapshot {
    /// Server clock at snapshot time (epoch ms); countdowns count from it.
    pub server_now_ms: i64,
    pub accounts: Vec<Account>,
}

} // verus!

//! The operator's settings and what is asked of them.

use vstd::prelude::*;

use crate::double::Double;
use crate::json;
use crate::text;

verus! {

/// The most manager addresses that may be given.
pub const MAX_URLS: usize = 16;

/// The most bytes that a manager address may have.
pub const MAX_URL_BYTES: usize = 2048;

/// All settings.
#[derive(Debug)]
pub struct AppConfig {
    pub manager: ManagerConfig,
    pub appear_x: AppearXConfig,
    pub polling: PollingConfig,
}

/// How to reach the manager.
#[derive(Debug)]
pub struct ManagerConfig {
    /// The manager's WebSocket addresses, in the order in which they are tried.
    pub urls: Vec<String>,
    /// The token for the first registration.
    pub registration_token: Option<String>,
    /// Where the credentials are kept after registration.
    pub credentials_file: String,
    /// Whether certificates that nobody signed are accepted.
    pub accept_self_signed_cert: bool,
    /// The SHA-256 fingerprint that the certificate must have, as hexadecimal bytes between colons.
    pub cert_fingerprint: Option<String>,
}

/// How to reach the unit.
#[derive(Debug)]
pub struct AppearXConfig {
    /// The unit's address or host name.
    pub address: String,
    pub username: String,
    pub password: String,
    /// Whether certificates that nobody signed are accepted.
    pub accept_self_signed_cert: bool,
    /// The SHA-256 fingerprint that the unit's certificate must have.
    pub cert_fingerprint: Option<String>,
    /// How many polls in a row fail before the unit counts as unreachable.
    pub reachability_failure_threshold: u32,
    /// How long the unit must have been unreachable before an event says so, in seconds.
    pub reachability_event_dwell_secs: u64,
}

/// How often to ask for what, and when to warn.
#[derive(Debug)]
pub struct PollingConfig {
    pub alarms_interval_secs: u64,
    pub chassis_interval_secs: u64,
    pub inputs_interval_secs: u64,
    pub outputs_interval_secs: u64,
    /// The interface version for alarms.
    pub alarms_mmi_version: String,
    /// The interface version for the chassis model.
    pub chassis_mmi_version: String,
    /// The interface version for the cards.
    pub cards_mmi_version: String,
    pub cards_interval_secs: u64,
    /// How often to ask for the state of a card.
    pub card_status_interval_secs: u64,
    /// How often to ask for what an operator configured on a card.
    pub xger_config_interval_secs: u64,
    /// The received optical power, in dBm, below which a warning is due.
    pub sfp_low_rx_dbm_threshold: Double,
    /// The cage temperature, in degrees Celsius, above which a warning is due.
    pub sfp_high_temp_c_threshold: Double,
}

/// Where the credentials are kept unless the operator says otherwise.
pub fn default_credentials_file() -> (r: String)
    ensures
        r@ == "credentials.json"@,
{
    "credentials.json".to_owned()
}

/// Certificates of the unit that nobody signed are accepted unless the operator says otherwise.
pub fn default_true() -> (r: bool)
    ensures
        r,
{
    true
}

/// Ten seconds: alarms.
pub fn default_10() -> (r: u64)
    ensures
        r == 10,
{
    10
}

/// Fifteen seconds: inputs and outputs.
pub fn default_15() -> (r: u64)
    ensures
        r == 15,
{
    15
}

/// Thirty seconds: the chassis, the cards and what is configured on a card.
pub fn default_30() -> (r: u64)
    ensures
        r == 30,
{
    30
}

/// Five seconds: the state of a card.
pub fn default_5() -> (r: u64)
    ensures
        r == 5,
{
    5
}

/// The interface version for alarms.
pub fn default_alarms_mmi_version() -> (r: String)
    ensures
        r@ == "2.8"@,
{
    "2.8".to_owned()
}

/// The interface version for the chassis model.
pub fn default_chassis_mmi_version() -> (r: String)
    ensures
        r@ == "4.1"@,
{
    "4.1".to_owned()
}

/// The interface version for the cards.
pub fn default_cards_mmi_version() -> (r: String)
    ensures
        r@ == "2.8"@,
{
    "2.8".to_owned()
}

/// Eighteen dBm below zero.
pub fn default_rx_threshold() -> (r: Double)
    ensures
        r.bits == 0xc032_0000_0000_0000,
{
    Double { bits: 0xc032_0000_0000_0000 }
}

/// Seventy degrees.
pub fn default_temp_threshold() -> (r: Double)
    ensures
        r.bits == 0x4051_8000_0000_0000,
{
    Double { bits: 0x4051_8000_0000_0000 }
}

/// Why settings are refused.
#[derive(Debug)]
pub enum ConfigError {
    /// There is no manager address.
    NoUrls,
    /// There are more manager addresses than [`MAX_URLS`].
    TooManyUrls { count: usize },
    /// A manager address is not one of an encrypted WebSocket.
    NotEncrypted { index: usize, url: String },
    /// A manager address is longer than [`MAX_URL_BYTES`].
    UrlTooLong { index: usize },
    /// A manager address stands there a second time.
    Duplicate { index: usize, url: String },
    /// The unit has no address.
    NoAddress,
}

/// What a [`ConfigError`] holds.
pub enum ConfigFault {
    NoUrls,
    TooManyUrls { count: nat },
    NotEncrypted { index: nat, url: Seq<char> },
    UrlTooLong { index: nat },
    Duplicate { index: nat, url: Seq<char> },
    NoAddress,
}

impl View for ConfigError {
    type V = ConfigFault;

    open spec fn view(&self) -> ConfigFault {
        match *self {
            ConfigError::NoUrls => ConfigFault::NoUrls,
            ConfigError::TooManyUrls { count } => ConfigFault::TooManyUrls { count: count as nat },
            ConfigError::NotEncrypted { index, url } => ConfigFault::NotEncrypted {
                index: index as nat,
                url: url@,
            },
            ConfigError::UrlTooLong { index } => ConfigFault::UrlTooLong { index: index as nat },
            ConfigError::Duplicate { index, url } => ConfigFault::Duplicate {
                index: index as nat,
                url: url@,
            },
            ConfigError::NoAddress => ConfigFault::NoAddress,
        }
    }
}

/// Whether an address is one of an encrypted WebSocket.
pub open spec fn encrypted(url: Seq<char>) -> bool {
    text::has_prefix(url, "wss://"@)
}

/// Whether an address is no longer than allowed.
pub open spec fn short_enough(url: Seq<char>) -> bool {
    vstd::utf8::encode_utf8(url).len() <= MAX_URL_BYTES
}

/// What is wrong with one of the addresses.
pub open spec fn url_fault(urls: Seq<Seq<char>>, i: nat) -> Option<ConfigFault> {
    let url = urls[i as int];
    if !encrypted(url) {
        Some(ConfigFault::NotEncrypted { index: i, url })
    } else if !short_enough(url) {
        Some(ConfigFault::UrlTooLong { index: i })
    } else if urls.take(i as int).contains(url) {
        Some(ConfigFault::Duplicate { index: i, url })
    } else {
        None
    }
}

/// What is wrong with the first of the first `n` addresses with which anything is wrong.
pub open spec fn first_url_fault(urls: Seq<Seq<char>>, n: nat) -> Option<ConfigFault>
    decreases n,
{
    if n == 0 {
        None
    } else {
        match first_url_fault(urls, (n - 1) as nat) {
            Some(f) => Some(f),
            None => url_fault(urls, (n - 1) as nat),
        }
    }
}

/// What is wrong with the list of addresses.
pub open spec fn urls_fault(urls: Seq<Seq<char>>) -> Option<ConfigFault> {
    if urls.len() == 0 {
        Some(ConfigFault::NoUrls)
    } else if urls.len() > MAX_URLS {
        Some(ConfigFault::TooManyUrls { count: urls.len() })
    } else {
        first_url_fault(urls, urls.len())
    }
}

/// Why settings are refused, if they are. The manager's addresses do not matter to a command that
/// does not connect to the manager.
pub open spec fn config_fault(config: AppConfig, skip_manager_validation: bool) -> Option<
    ConfigFault,
> {
    let urls = if skip_manager_validation {
        None
    } else {
        urls_fault(json::strings_view(config.manager.urls@))
    };
    match urls {
        Some(f) => Some(f),
        None => if config.appear_x.address@.len() == 0 {
            Some(ConfigFault::NoAddress)
        } else {
            None
        },
    }
}

/// Whether a list of addresses is as it should be.
pub open spec fn urls_valid(urls: Seq<Seq<char>>) -> bool {
    &&& 1 <= urls.len() <= MAX_URLS
    &&& forall|i: int| 0 <= i < urls.len() ==> encrypted(#[trigger] urls[i]) && short_enough(urls[i])
    &&& urls.no_duplicates()
}

proof fn lemma_first_fault(urls: Seq<Seq<char>>, n: nat)
    requires
        n <= urls.len(),
    ensures
        first_url_fault(urls, n) is None <==> {
            &&& forall|i: int|
                0 <= i < n ==> encrypted(#[trigger] urls[i]) && short_enough(urls[i])
            &&& urls.take(n as int).no_duplicates()
        },
    decreases n,
{
    if n > 0 {
        let m = (n - 1) as nat;
        lemma_first_fault(urls, m);
        let all = urls.take(n as int);
        let but = urls.take(m as int);
        if all.no_duplicates() {
            assert forall|i: int, j: int| 0 <= i < but.len() && 0 <= j < but.len() && i
                != j implies but[i] != but[j] by {
                assert(all[i] != all[j]);
            }
            if but.contains(urls[m as int]) {
                let k = choose|k: int| 0 <= k < but.len() && but[k] == urls[m as int];
                assert(all[k] != all[m as int]);
            }
        }
        if but.no_duplicates() && !but.contains(urls[m as int]) {
            assert forall|i: int, j: int| 0 <= i < all.len() && 0 <= j < all.len() && i
                != j implies all[i] != all[j] by {
                if i < m && j < m {
                    assert(but[i] != but[j]);
                } else if i < m {
                    assert(but[i] != urls[m as int]);
                } else {
                    assert(but[j] != urls[m as int]);
                }
            }
        }
    }
}

/// Settings are accepted exactly if the unit has an address and, unless the manager is not going
/// to be reached, there are one to sixteen manager addresses, each of an encrypted WebSocket, none
/// too long and none twice.
pub proof fn law_accepted_settings(config: AppConfig, skip_manager_validation: bool)
    ensures
        config_fault(config, skip_manager_validation) is None <==> {
            &&& config.appear_x.address@.len() > 0
            &&& skip_manager_validation || urls_valid(json::strings_view(config.manager.urls@))
        },
{
    let urls = json::strings_view(config.manager.urls@);
    lemma_first_fault(urls, urls.len());
    assert(urls.take(urls.len() as int) == urls);
}

fn occurs_before(urls: &Vec<String>, i: usize) -> (r: bool)
    requires
        i < urls@.len(),
    ensures
        r == json::strings_view(urls@).take(i as int).contains(urls@[i as int]@),
{
    let ghost earlier = json::strings_view(urls@).take(i as int);
    for j in 0..i
        invariant
            i < urls@.len(),
            earlier == json::strings_view(urls@).take(i as int),
            forall|k: int| 0 <= k < j ==> (#[trigger] earlier[k]) != urls@[i as int]@,
    {
        if urls[j] == urls[i] {
            assert(earlier[j as int] == urls@[i as int]@);
            return true;
        }
    }
    false
}

fn check_urls(urls: &Vec<String>) -> (r: Result<(), ConfigError>)
    ensures
        match r {
            Ok(_) => urls_fault(json::strings_view(urls@)) is None,
            Err(e) => urls_fault(json::strings_view(urls@)) == Some(e@),
        },
{
    if urls.len() == 0 {
        return Err(ConfigError::NoUrls);
    }
    if urls.len() > MAX_URLS {
        return Err(ConfigError::TooManyUrls { count: urls.len() });
    }
    let ghost all = json::strings_view(urls@);
    let n: usize = urls.len();
    for i in 0..n
        invariant
            n == urls@.len(),
            all == json::strings_view(urls@),
            0 < all.len() <= MAX_URLS,
            first_url_fault(all, i as nat) is None,
        ensures
            first_url_fault(all, n as nat) is None,
    {
        let url = &urls[i];
        assert(all[i as int] == url@);
        let fault = if !text::starts_with(url.as_str(), "wss://") {
            Some(ConfigError::NotEncrypted { index: i, url: url.clone() })
        } else if url.as_str().as_bytes().len() > MAX_URL_BYTES {
            Some(ConfigError::UrlTooLong { index: i })
        } else if occurs_before(urls, i) {
            Some(ConfigError::Duplicate { index: i, url: url.clone() })
        } else {
            None
        };
        if let Some(e) = fault {
            proof {
                lemma_fault_stays(all, (i + 1) as nat, n as nat);
            }
            return Err(e);
        }
    }
    Ok(())
}

proof fn lemma_fault_stays(urls: Seq<Seq<char>>, i: nat, n: nat)
    requires
        i <= n,
        first_url_fault(urls, i) is Some,
    ensures
        first_url_fault(urls, n) == first_url_fault(urls, i),
    decreases n,
{
    if i < n {
        lemma_fault_stays(urls, i, (n - 1) as nat);
    }
}

/// What the `Debug` form of a text is: the text in quotation marks, with escapes.
pub uninterp spec fn quoted(s: Seq<char>) -> Seq<char>;

/// Formats a text with `Debug`. The result is known only by name: which characters are escaped
/// follows the Unicode tables.
#[verifier::external_body]
fn quote(s: &str) -> (r: String)
    ensures
        r@ == quoted(s@),
{
    format!("{:?}", s)
}

impl ConfigFault {
    /// What the operator is told.
    pub open spec fn message(self) -> Seq<char> {
        match self {
            ConfigFault::NoUrls => "Manager urls[] cannot be empty"@,
            ConfigFault::TooManyUrls { count } => "Manager urls[] may contain at most 16 entries (got "@
                + text::decimal(count) + ")"@,
            ConfigFault::NotEncrypted { index, url } => "Manager urls["@ + text::decimal(index)
                + "] = "@ + quoted(url)
                + " must use wss:// (TLS). Plaintext ws:// connections are not allowed."@,
            ConfigFault::UrlTooLong { index } => "Manager urls["@ + text::decimal(index)
                + "] must be at most 2048 characters"@,
            ConfigFault::Duplicate { index, url } => "Manager urls["@ + text::decimal(index)
                + "] = "@ + quoted(url) + " is a duplicate"@,
            ConfigFault::NoAddress => "Appear X address must not be empty"@,
        }
    }
}

impl ConfigError {
    /// What the operator is told.
    pub fn message(&self) -> (r: String)
        ensures
            r@ == self@.message(),
    {
        match self {
            ConfigError::NoUrls => "Manager urls[] cannot be empty".to_owned(),
            ConfigError::TooManyUrls { count } => {
                let mut out = "Manager urls[] may contain at most 16 entries (got ".to_owned();
                out.append(text::decimal_of(*count as u64).as_str());
                out.append(")");
                out
            },
            ConfigError::NotEncrypted { index, url } => {
                let mut out = "Manager urls[".to_owned();
                out.append(text::decimal_of(*index as u64).as_str());
                out.append("] = ");
                out.append(quote(url.as_str()).as_str());
                out.append(
                    " must use wss:// (TLS). Plaintext ws:// connections are not allowed.",
                );
                out
            },
            ConfigError::UrlTooLong { index } => {
                let mut out = "Manager urls[".to_owned();
                out.append(text::decimal_of(*index as u64).as_str());
                out.append("] must be at most 2048 characters");
                out
            },
            ConfigError::Duplicate { index, url } => {
                let mut out = "Manager urls[".to_owned();
                out.append(text::decimal_of(*index as u64).as_str());
                out.append("] = ");
                out.append(quote(url.as_str()).as_str());
                out.append(" is a duplicate");
                out
            },
            ConfigError::NoAddress => "Appear X address must not be empty".to_owned(),
        }
    }
}

impl AppConfig {
    /// Accepts the settings that were read, or says why not.
    pub fn load_for_command(config: AppConfig, skip_manager_validation: bool) -> (r: Result<
        AppConfig,
        ConfigError,
    >)
        ensures
            match r {
                Ok(c) => c == config && config_fault(config, skip_manager_validation) is None,
                Err(e) => config_fault(config, skip_manager_validation) == Some(e@),
            },
    {
        if !skip_manager_validation {
            if let Err(e) = check_urls(&config.manager.urls) {
                return Err(e);
            }
        }
        if config.appear_x.address.as_str().is_empty() {
            return Err(ConfigError::NoAddress);
        }
        Ok(config)
    }
}

} // verus!

//! The configuration of the agent and the versioned store that holds it.
//!
//! A configuration is a plain value. The store pairs the active configuration
//! with a generation token; replacing the configuration supersedes the old
//! generation as a whole and moves the token, so that a reader who kept the
//! token of the generation it works under can tell that it has been replaced.

use vstd::prelude::*;

verus! {

/// Settings of the message-broker sink.
#[derive(Debug)]
pub struct MqttConfig {
    pub enabled: bool,
    pub broker: String,
    pub port: u16,
    pub tls: bool,
    pub topic: String,
    pub client_id: String,
}

/// Mathematical value of a [`MqttConfig`].
pub struct MqttConfigView {
    pub enabled: bool,
    pub broker: Seq<char>,
    pub port: u16,
    pub tls: bool,
    pub topic: Seq<char>,
    pub client_id: Seq<char>,
}

impl View for MqttConfig {
    type V = MqttConfigView;

    open spec fn view(&self) -> MqttConfigView {
        MqttConfigView {
            enabled: self.enabled,
            broker: self.broker@,
            port: self.port,
            tls: self.tls,
            topic: self.topic@,
            client_id: self.client_id@,
        }
    }
}

/// Settings of the HTTP sink.
#[derive(Debug)]
pub struct HttpConfig {
    pub enabled: bool,
    pub url: String,
}

/// Mathematical value of a [`HttpConfig`].
pub struct HttpConfigView {
    pub enabled: bool,
    pub url: Seq<char>,
}

impl View for HttpConfig {
    type V = HttpConfigView;

    open spec fn view(&self) -> HttpConfigView {
        HttpConfigView { enabled: self.enabled, url: self.url@ }
    }
}

/// Settings shared by the sinks.
#[derive(Debug)]
pub struct GeneralConfig {
    /// Seconds between two metrics snapshots.
    pub interval_secs: u64,
}

/// Mathematical value of a [`GeneralConfig`].
pub struct GeneralConfigView {
    pub interval_secs: u64,
}

impl View for GeneralConfig {
    type V = GeneralConfigView;

    open spec fn view(&self) -> GeneralConfigView {
        GeneralConfigView { interval_secs: self.interval_secs }
    }
}

/// Settings of the serial device.
#[derive(Debug)]
pub struct UartConfig {
    pub enabled: bool,
    pub port: String,
    pub baudrate: u32,
}

/// Mathematical value of a [`UartConfig`].
pub struct UartConfigView {
    pub enabled: bool,
    pub port: Seq<char>,
    pub baudrate: u32,
}

impl View for UartConfig {
    type V = UartConfigView;

    open spec fn view(&self) -> UartConfigView {
        UartConfigView { enabled: self.enabled, port: self.port@, baudrate: self.baudrate }
    }
}

/// One generation of the agent's configuration.
#[derive(Debug)]
pub struct Config {
    pub mqtt: MqttConfig,
    pub http: HttpConfig,
    pub general: GeneralConfig,
    pub uart: UartConfig,
}

/// Mathematical value of a [`Config`].
pub struct ConfigView {
    pub mqtt: MqttConfigView,
    pub http: HttpConfigView,
    pub general: GeneralConfigView,
    pub uart: UartConfigView,
}

impl View for Config {
    type V = ConfigView;

    open spec fn view(&self) -> ConfigView {
        ConfigView {
            mqtt: self.mqtt@,
            http: self.http@,
            general: self.general@,
            uart: self.uart@,
        }
    }
}

/// The broker settings of a configuration that was never edited.
pub open spec fn default_mqtt() -> MqttConfigView {
    MqttConfigView {
        enabled: true,
        broker: "broker.emqx.io"@,
        port: 8883,
        tls: true,
        topic: "vienkmt/v3s"@,
        client_id: "v3s-monitor"@,
    }
}

/// The HTTP settings of a configuration that was never edited.
pub open spec fn default_http() -> HttpConfigView {
    HttpConfigView { enabled: false, url: Seq::empty() }
}

/// The shared settings of a configuration that was never edited.
pub open spec fn default_general() -> GeneralConfigView {
    GeneralConfigView { interval_secs: 3 }
}

/// The serial settings of a configuration that was never edited.
pub open spec fn default_uart() -> UartConfigView {
    UartConfigView { enabled: true, port: "/dev/ttyS2"@, baudrate: 115200 }
}

/// The configuration that stands in when none was stored or the stored one
/// cannot be read.
pub open spec fn default_config() -> ConfigView {
    ConfigView {
        mqtt: default_mqtt(),
        http: default_http(),
        general: default_general(),
        uart: default_uart(),
    }
}

impl Default for MqttConfig {
    fn default() -> (r: Self)
        ensures
            r@ == default_mqtt(),
    {
        MqttConfig {
            enabled: true,
            broker: "broker.emqx.io".to_owned(),
            port: 8883,
            tls: true,
            topic: "vienkmt/v3s".to_owned(),
            client_id: "v3s-monitor".to_owned(),
        }
    }
}

impl Default for HttpConfig {
    fn default() -> (r: Self)
        ensures
            r@ == default_http(),
    {
        HttpConfig { enabled: false, url: String::new() }
    }
}

impl Default for GeneralConfig {
    fn default() -> (r: Self)
        ensures
            r@ == default_general(),
    {
        GeneralConfig { interval_secs: 3 }
    }
}

impl Default for UartConfig {
    fn default() -> (r: Self)
        ensures
            r@ == default_uart(),
    {
        UartConfig { enabled: true, port: "/dev/ttyS2".to_owned(), baudrate: 115200 }
    }
}

impl Default for Config {
    fn default() -> (r: Self)
        ensures
            r@ == default_config(),
    {
        Config {
            mqtt: MqttConfig::default(),
            http: HttpConfig::default(),
            general: GeneralConfig::default(),
            uart: UartConfig::default(),
        }
    }
}

impl Clone for MqttConfig {
    fn clone(&self) -> (r: Self)
        ensures
            r@ == self@,
    {
        MqttConfig {
            enabled: self.enabled,
            broker: self.broker.clone(),
            port: self.port,
            tls: self.tls,
            topic: self.topic.clone(),
            client_id: self.client_id.clone(),
        }
    }
}

impl Clone for HttpConfig {
    fn clone(&self) -> (r: Self)
        ensures
            r@ == self@,
    {
        HttpConfig { enabled: self.enabled, url: self.url.clone() }
    }
}

impl Clone for GeneralConfig {
    fn clone(&self) -> (r: Self)
        ensures
            r@ == self@,
    {
        GeneralConfig { interval_secs: self.interval_secs }
    }
}

impl Clone for UartConfig {
    fn clone(&self) -> (r: Self)
        ensures
            r@ == self@,
    {
        UartConfig { enabled: self.enabled, port: self.port.clone(), baudrate: self.baudrate }
    }
}

impl Clone for Config {
    fn clone(&self) -> (r: Self)
        ensures
            r@ == self@,
    {
        Config {
            mqtt: self.mqtt.clone(),
            http: self.http.clone(),
            general: self.general.clone(),
            uart: self.uart.clone(),
        }
    }
}

/// The largest token. A store that has reached it takes no replacement: a
/// token is never handed out twice.
pub const LAST_TOKEN: u32 = 0xffff_ffff;

/// The versioned store: the active configuration and its generation token.
pub struct AppState {
    config: Config,
    version: u32,
}

/// Mathematical value of an [`AppState`].
pub struct AppStateView {
    pub config: ConfigView,
    pub version: u32,
}

impl View for AppState {
    type V = AppStateView;

    closed spec fn view(&self) -> AppStateView {
        AppStateView { config: self.config@, version: self.version }
    }
}

/// The store after `new_config` has replaced the configuration of `s`: it
/// holds `new_config`, and its token is the token of `s` plus one. It is
/// meant for a store below the largest token.
pub open spec fn spec_replace(s: AppStateView, new_config: ConfigView) -> AppStateView
    recommends
        s.version < LAST_TOKEN,
{
    AppStateView { config: new_config, version: (s.version + 1) as u32 }
}

/// The store after the configurations of `configs` have replaced that of `s`
/// one after the other.
pub open spec fn spec_replace_all(s: AppStateView, configs: Seq<ConfigView>) -> AppStateView
    decreases configs.len(),
{
    if configs.len() == 0 {
        s
    } else {
        spec_replace(spec_replace_all(s, configs.drop_last()), configs.last())
    }
}

impl AppState {
    /// A store at token zero. It holds `loaded`, the configuration found in
    /// durable storage, or the defaults where none was found or it could not
    /// be read.
    pub fn new(loaded: Option<Config>) -> (s: Self)
        ensures
            s@.version == 0,
            s@.config == (match loaded {
                Some(c) => c@,
                None => default_config(),
            }),
    {
        let config = match loaded {
            Some(c) => c,
            None => Config::default(),
        };
        AppState { config, version: 0 }
    }

    /// An independent copy of the active configuration.
    pub fn get(&self) -> (c: Config)
        ensures
            c@ == self@.config,
    {
        self.config.clone()
    }

    /// The token of the active generation.
    pub fn version(&self) -> (v: u32)
        ensures
            v == self@.version,
    {
        self.version
    }

    /// Replaces the active configuration by `new_config` and moves the token
    /// on by one. The token must be below the largest, so that the token
    /// after the replacement is greater than every token before it.
    pub fn update(&mut self, new_config: Config)
        requires
            old(self)@.version < LAST_TOKEN,
        ensures
            final(self)@ == spec_replace(old(self)@, new_config@),
            final(self)@.config == new_config@,
            final(self)@.version == old(self)@.version + 1,
    {
        self.config = new_config;
        self.version = self.version + 1;
    }

    /// Replaces the active configuration by `new_config` where the store can
    /// still hand out a token, and hands `new_config` back, leaving the store
    /// as it is, where the token has reached the largest.
    pub fn try_update(&mut self, new_config: Config) -> (r: Result<(), Config>)
        ensures
            r is Ok <==> old(self)@.version < LAST_TOKEN,
            r is Ok ==> final(self)@ == spec_replace(old(self)@, new_config@),
            r is Ok ==> final(self)@.version == old(self)@.version + 1,
            r matches Err(back) ==> back@ == new_config@ && final(self)@ == old(self)@,
    {
        if self.version < LAST_TOKEN {
            self.update(new_config);
            Ok(())
        } else {
            Err(new_config)
        }
    }
}

/// A replacement moves the token on by one: the token after it is greater
/// than the token before, so a reader that compares tokens never mistakes the
/// new generation for the one it captured.
pub proof fn lemma_replace_moves_token(s: AppStateView, new_config: ConfigView)
    requires
        s.version < LAST_TOKEN,
    ensures
        spec_replace(s, new_config).version == s.version + 1,
        spec_replace(s, new_config).version > s.version,
{
}

/// Tokens only grow: after any number of replacements that the store can
/// take, the token is the first token plus that number, and it is greater
/// than the token after any shorter run of them. No token comes twice.
pub proof fn lemma_tokens_strictly_increase(s: AppStateView, configs: Seq<ConfigView>, k: int)
    requires
        s.version + configs.len() <= LAST_TOKEN,
        0 <= k < configs.len(),
    ensures
        spec_replace_all(s, configs).version == s.version + configs.len(),
        spec_replace_all(s, configs.take(k)).version == s.version + k,
        spec_replace_all(s, configs.take(k)).version < spec_replace_all(s, configs).version,
    decreases configs.len(),
{
    lemma_token_after(s, configs);
    lemma_token_after(s, configs.take(k));
}

/// The token after a run of replacements that the store can take.
pub proof fn lemma_token_after(s: AppStateView, configs: Seq<ConfigView>)
    requires
        s.version + configs.len() <= LAST_TOKEN,
    ensures
        spec_replace_all(s, configs).version == s.version + configs.len(),
    decreases configs.len(),
{
    if configs.len() > 0 {
        lemma_token_after(s, configs.drop_last());
    }
}

/// What a reader sees after a replacement is the new generation as a whole:
/// every field of the configuration read is a field of `new_config`, and the
/// token read is greater than the token of the generation before. Until then
/// it sees the old generation as a whole.
pub proof fn lemma_replace_is_whole(s: AppStateView, new_config: ConfigView)
    requires
        s.version < LAST_TOKEN,
    ensures
        spec_replace(s, new_config).config == new_config,
        spec_replace(s, new_config).version > s.version,
        spec_replace(s, new_config) != s,
{
}

} // verus!

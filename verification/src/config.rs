//! The node's settings: listening host and port, store location, listener binary and
//! store buffering. The process keeps one shared `Config`; the functions here compute a
//! `Config` from the raw settings and read or change one.
use vstd::prelude::*;
use crate::text::{first_piece, second_piece, parse_unsigned, split_two, parse_u16, parse_usize};

verus! {

/// The settings of a running node.
pub struct Config {
    host: String,
    port: u16,
    db_path: String,
    resident_listener: String,
    db_buff_size: usize,
}

/// The abstract value of a [`Config`].
pub struct ConfigView {
    pub host: Seq<char>,
    pub port: u16,
    pub db_path: Seq<char>,
    pub resident_listener: Seq<char>,
    pub db_buff_size: usize,
}

impl View for Config {
    type V = ConfigView;

    closed spec fn view(&self) -> ConfigView {
        ConfigView {
            host: self.host@,
            port: self.port,
            db_path: self.db_path@,
            resident_listener: self.resident_listener@,
            db_buff_size: self.db_buff_size,
        }
    }
}

/// Why raw settings do not make a [`Config`].
#[derive(PartialEq, Eq, Debug, Clone, Copy)]
pub enum ConfigError {
    /// The port text is not a number in `0..=65535`.
    PortNum,
    /// The store buffer size text is not a `usize`.
    DbBuffSize,
}

/// The raw settings a node starts from; `None` where a setting is absent.
pub struct RawSettings {
    /// `DB_PATH`
    pub db_path: Option<String>,
    /// `resident_listener`
    pub resident_listener: Option<String>,
    /// `LISTEN_ADDR`, as `host:port`
    pub listen_addr: Option<String>,
    /// `PORT`, used when `LISTEN_ADDR` is absent
    pub port: Option<String>,
    /// The machine's own IP address as text, when it could be found
    pub local_ip: Option<String>,
    /// `db_buff_size`
    pub db_buff_size: Option<String>,
    /// Whether the node runs on Windows (selects the default listener binary path)
    pub windows: bool,
}

/// The text of an optional string, or `default` when it is absent.
pub open spec fn text_or(s: Option<String>, default: Seq<char>) -> Seq<char> {
    match s {
        Some(t) => t@,
        None => default,
    }
}

/// The host a node listens on for the given settings.
pub open spec fn settings_host(r: RawSettings) -> Seq<char> {
    match r.listen_addr {
        Some(a) => first_piece(a@, ':'),
        None => text_or(r.local_ip, "0.0.0.0"@),
    }
}

/// The port text a node listens on for the given settings.
pub open spec fn settings_port_text(r: RawSettings) -> Seq<char> {
    match r.listen_addr {
        Some(a) => match second_piece(a@, ':') {
            Some(p) => p,
            None => "7171"@,
        },
        None => text_or(r.port, "7171"@),
    }
}

/// The listener binary path for the given settings.
pub open spec fn settings_listener(r: RawSettings) -> Seq<char> {
    text_or(
        r.resident_listener,
        if r.windows { "target\\debug\\arrows.exe"@ } else { "target/debug/arrows"@ },
    )
}

/// The configuration that `settings` describe, or why there is none.
pub open spec fn settings_config(r: RawSettings) -> Result<ConfigView, ConfigError> {
    let port = parse_unsigned(settings_port_text(r), 65535);
    let size = parse_unsigned(text_or(r.db_buff_size, "1"@), usize::MAX as nat);
    if port is None {
        Err(ConfigError::PortNum)
    } else if size is None {
        Err(ConfigError::DbBuffSize)
    } else {
        Ok(ConfigView {
            host: settings_host(r),
            port: port.unwrap() as u16,
            db_path: text_or(r.db_path, "/tmp"@),
            resident_listener: settings_listener(r),
            db_buff_size: size.unwrap() as usize,
        })
    }
}

fn text_or_default(s: Option<String>, default: &str) -> (t: String)
    ensures
        t@ == text_or(s, default@),
{
    match s {
        Some(t) => t,
        None => default.to_string(),
    }
}

impl Config {
    /// Builds a configuration from its parts.
    pub fn with_values(
        host: &str,
        port: u16,
        db_path: &str,
        resident_listener: &str,
        db_buff_size: usize,
    ) -> (c: Config)
        ensures
            c@ == (ConfigView {
                host: host@,
                port,
                db_path: db_path@,
                resident_listener: resident_listener@,
                db_buff_size,
            }),
    {
        Config {
            host: host.to_string(),
            port,
            db_path: db_path.to_string(),
            resident_listener: resident_listener.to_string(),
            db_buff_size,
        }
    }

    /// The configuration that the raw settings describe: the store lives in `DB_PATH`
    /// (default `/tmp`); host and port come from `LISTEN_ADDR` (`host:port`, port `7171`
    /// when missing) or else from the machine's IP (default `0.0.0.0`) and `PORT` (default
    /// `7171`); the buffer size comes from `db_buff_size` (default `1`).
    pub fn from_settings(r: RawSettings) -> (c: Result<Config, ConfigError>)
        ensures
            match c {
                Ok(c) => settings_config(r) == Ok::<ConfigView, ConfigError>(c@),
                Err(e) => settings_config(r) == Err::<ConfigView, ConfigError>(e),
            },
    {
        let ghost r0 = r;
        let RawSettings { db_path, resident_listener, listen_addr, port, local_ip, db_buff_size, windows } = r;
        let db_path = text_or_default(db_path, "/tmp");
        let resident_listener = if windows {
            text_or_default(resident_listener, "target\\debug\\arrows.exe")
        } else {
            text_or_default(resident_listener, "target/debug/arrows")
        };
        let (host, port_text) = match listen_addr {
            Some(a) => {
                let (h, p) = split_two(a.as_str(), ':');
                let p = match p {
                    Some(p) => p,
                    None => "7171".to_string(),
                };
                (h, p)
            },
            None => {
                let p = text_or_default(port, "7171");
                let h = text_or_default(local_ip, "0.0.0.0");
                (h, p)
            },
        };
        assert(host@ == settings_host(r0));
        assert(port_text@ == settings_port_text(r0));
        let port = match parse_u16(port_text.as_str()) {
            Some(p) => p,
            None => {
                return Err(ConfigError::PortNum);
            },
        };
        let size_text = text_or_default(db_buff_size, "1");
        let db_buff_size = match parse_usize(size_text.as_str()) {
            Some(s) => s,
            None => {
                return Err(ConfigError::DbBuffSize);
            },
        };
        Ok(Config { host, port, db_path, resident_listener, db_buff_size })
    }

    /// Replaces the shared configuration `current` with `config`.
    pub fn re_init(current: &mut Config, config: Config)
        ensures
            final(current)@ == config@,
    {
        *current = config;
    }

    /// The host ip
    pub fn host(&self) -> (h: &str)
        ensures
            h@ == self@.host,
    {
        self.host.as_str()
    }

    /// Port the listener starts with; `7171` by default.
    pub fn port(&self) -> (p: u16)
        ensures
            p == self@.port,
    {
        self.port
    }

    /// Embedded store path
    pub fn db_path(&self) -> (p: &str)
        ensures
            p@ == self@.db_path,
    {
        self.db_path.as_str()
    }

    /// Location of the listener binary
    pub fn resident_listener(&self) -> (p: &str)
        ensures
            p@ == self@.resident_listener,
    {
        self.resident_listener.as_str()
    }

    /// Sets the host; addresses created afterwards use it.
    pub fn set_host(&mut self, host: &str)
        ensures
            final(self)@ == (ConfigView { host: host@, ..old(self)@ }),
    {
        self.host = host.to_string();
    }

    /// Sets the port; addresses created afterwards use it.
    pub fn set_port(&mut self, port: u16)
        ensures
            final(self)@ == (ConfigView { port, ..old(self)@ }),
    {
        self.port = port;
    }

    /// Sets the store path, to run several nodes on one machine.
    pub fn set_db_path(&mut self, db_path: &str)
        ensures
            final(self)@ == (ConfigView { db_path: db_path@, ..old(self)@ }),
    {
        self.db_path = db_path.to_string();
    }

    /// Sets the listener binary path.
    pub fn set_resident_listener(&mut self, resident_listener: &str)
        ensures
            final(self)@ == (ConfigView { resident_listener: resident_listener@, ..old(self)@ }),
    {
        self.resident_listener = resident_listener.to_string();
    }

    /// How many outcomes the store buffers before writing them out.
    pub fn db_buff_size(&self) -> (s: usize)
        ensures
            s == self@.db_buff_size,
    {
        self.db_buff_size
    }

    /// Sets the store buffer size.
    pub fn set_db_buff_size(&mut self, buff_size: usize)
        ensures
            final(self)@ == (ConfigView { db_buff_size: buff_size, ..old(self)@ }),
    {
        self.db_buff_size = buff_size;
    }
}

} // verus!

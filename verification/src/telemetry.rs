//! Telemetry errors, and the checks made on a trace configuration before an
//! exporter is built for it.
use vstd::prelude::*;

verus! {

/// Errors that can occur in the telemetry module.
#[derive(Debug)]
pub enum TelemetryError {
    /// Invalid log output provided.
    InvalidLogOutput(String),
    /// Invalid log rotation provided.
    InvalidLogRotation(String),
    /// The logger has not been initialized yet.
    NotInitialized,
    /// The logger was initialized more than once.
    AlreadyInitialized,
    /// Invalid log filter expression provided.
    InvalidLogLevel(String),
    /// Failed to reload the log level.
    ReloadFailed(String),
    /// Failed to initialize the logger sink.
    InitFailed(String),
    /// Failed to initialize the trace collector.
    TraceInitFailed(String),
}

/// The message of each telemetry error.
pub open spec fn telemetry_text(e: TelemetryError) -> Seq<char> {
    match e {
        TelemetryError::InvalidLogOutput(s) => "Invalid log output: "@ + s@
            + ". Valid values: terminal, file"@,
        TelemetryError::InvalidLogRotation(s) => "Invalid log rotation: "@ + s@
            + ". Valid values: minutely, hourly, daily, never"@,
        TelemetryError::NotInitialized => "Logger not initialized"@,
        TelemetryError::AlreadyInitialized => "Logger already initialized"@,
        TelemetryError::InvalidLogLevel(s) => "Invalid log level/filter expression: "@ + s@,
        TelemetryError::ReloadFailed(s) => "Failed to reload log level: "@ + s@,
        TelemetryError::InitFailed(s) => "Failed to initialize logger: "@ + s@,
        TelemetryError::TraceInitFailed(s) => "Failed to initialize trace collector: "@ + s@,
    }
}

impl TelemetryError {
    /// The error's message.
    pub fn to_display_string(&self) -> (r: String)
        ensures
            r@ == telemetry_text(*self),
    {
        match self {
            TelemetryError::InvalidLogOutput(s) => {
                let mut r = String::from_str("Invalid log output: ");
                r.append(s.as_str());
                r.append(". Valid values: terminal, file");
                r
            },
            TelemetryError::InvalidLogRotation(s) => {
                let mut r = String::from_str("Invalid log rotation: ");
                r.append(s.as_str());
                r.append(". Valid values: minutely, hourly, daily, never");
                r
            },
            TelemetryError::NotInitialized => String::from_str("Logger not initialized"),
            TelemetryError::AlreadyInitialized => String::from_str("Logger already initialized"),
            TelemetryError::InvalidLogLevel(s) => String::from_str(
                "Invalid log level/filter expression: ",
            ).concat(s.as_str()),
            TelemetryError::ReloadFailed(s) => String::from_str("Failed to reload log level: ").concat(
                s.as_str(),
            ),
            TelemetryError::InitFailed(s) => String::from_str("Failed to initialize logger: ").concat(
                s.as_str(),
            ),
            TelemetryError::TraceInitFailed(s) => String::from_str(
                "Failed to initialize trace collector: ",
            ).concat(s.as_str()),
        }
    }
}

/// Unicode White_Space, the characters `str::trim` removes.
pub open spec fn is_white_space(c: char) -> bool {
    let v = c as u32;
    ||| 9 <= v <= 13
    ||| v == 32
    ||| v == 0x85
    ||| v == 0xA0
    ||| v == 0x1680
    ||| 0x2000 <= v <= 0x200A
    ||| v == 0x2028
    ||| v == 0x2029
    ||| v == 0x202F
    ||| v == 0x205F
    ||| v == 0x3000
}

/// `s` without its leading white space.
pub open spec fn trim_start_spec(s: Seq<char>) -> Seq<char>
    decreases s.len(),
{
    if s.len() > 0 && is_white_space(s[0]) {
        trim_start_spec(s.drop_first())
    } else {
        s
    }
}

/// `s` without its trailing white space.
pub open spec fn trim_end_spec(s: Seq<char>) -> Seq<char>
    decreases s.len(),
{
    if s.len() > 0 && is_white_space(s.last()) {
        trim_end_spec(s.drop_last())
    } else {
        s
    }
}

/// `s` without leading and trailing white space.
pub open spec fn trim_spec(s: Seq<char>) -> Seq<char> {
    trim_end_spec(trim_start_spec(s))
}

/// ASCII lower-casing of one character.
pub open spec fn ascii_lower_char(c: char) -> char {
    if 'A' <= c <= 'Z' {
        ((c as u32) + 32) as char
    } else {
        c
    }
}

/// ASCII lower-casing of a text.
pub open spec fn ascii_lower_text(s: Seq<char>) -> Seq<char> {
    s.map_values(|c: char| ascii_lower_char(c))
}

fn white_space(c: char) -> (r: bool)
    ensures
        r == is_white_space(c),
{
    let v = c as u32;
    (9 <= v && v <= 13) || v == 32 || v == 0x85 || v == 0xA0 || v == 0x1680 || (0x2000 <= v && v
        <= 0x200A) || v == 0x2028 || v == 0x2029 || v == 0x202F || v == 0x205F || v == 0x3000
}

/// `s` without leading and trailing white space.
pub fn trim_text(s: &str) -> (r: &str)
    ensures
        r@ == trim_spec(s@),
{
    let n = s.unicode_len();
    let ghost t = s@;
    let mut i: usize = 0;
    proof {
        assert(t.subrange(0, n as int) =~= t);
    }
    while i < n && white_space(s.get_char(i))
        invariant
            n == t.len(),
            t == s@,
            i <= n,
            trim_start_spec(t) == trim_start_spec(t.subrange(i as int, n as int)),
        decreases n - i,
    {
        proof {
            let sub = t.subrange(i as int, n as int);
            assert(sub[0] == t[i as int]);
            assert(sub.drop_first() =~= t.subrange(i + 1, n as int));
        }
        i = i + 1;
    }
    proof {
        assert(trim_start_spec(t.subrange(i as int, n as int)) == t.subrange(i as int, n as int)) by {
            if i < n {
                assert(t.subrange(i as int, n as int)[0] == t[i as int]);
            }
        }
    }
    let mut j: usize = n;
    while j > i && white_space(s.get_char(j - 1))
        invariant
            n == t.len(),
            t == s@,
            i <= j <= n,
            trim_end_spec(t.subrange(i as int, n as int)) == trim_end_spec(t.subrange(i as int, j as int)),
        decreases j - i,
    {
        proof {
            let sub = t.subrange(i as int, j as int);
            assert(sub.last() == t[j - 1]);
            assert(sub.drop_last() =~= t.subrange(i as int, j - 1));
        }
        j = j - 1;
    }
    proof {
        let sub = t.subrange(i as int, j as int);
        if j > i {
            assert(sub.last() == t[j - 1]);
        }
        assert(trim_end_spec(sub) == sub);
    }
    s.substring_char(i, j)
}

/// `s` with its ASCII letters lower-cased (`str::to_ascii_lowercase`, whose
/// documentation says exactly that: 'A' to 'Z' become 'a' to 'z', every other
/// character stays).
#[verifier::external_body]
fn ascii_lowercase(s: &str) -> (r: String)
    ensures
        r@ == ascii_lower_text(s@),
{
    s.to_ascii_lowercase()
}

/// The wire protocol of the trace exporter.
#[derive(Debug, Clone, Copy, PartialEq, Eq, Structural)]
pub enum TraceProtocol {
    Grpc,
    HttpBinary,
    HttpJson,
}

/// The protocol a normalized name selects.
pub open spec fn protocol_named(name: Seq<char>) -> Option<TraceProtocol> {
    if name == "grpc"@ {
        Some(TraceProtocol::Grpc)
    } else if name == "http_binary"@ {
        Some(TraceProtocol::HttpBinary)
    } else if name == "http_json"@ {
        Some(TraceProtocol::HttpJson)
    } else {
        None
    }
}

/// The name a configured protocol is compared by: trimmed, then lower-cased.
pub open spec fn protocol_key(protocol: Seq<char>) -> Seq<char> {
    ascii_lower_text(trim_spec(protocol))
}

/// The message for an unknown protocol name.
pub open spec fn invalid_protocol_text(name: Seq<char>) -> Seq<char> {
    "invalid trace protocol: "@ + name + ". expected grpc/http_binary/http_json"@
}

/// The exporter protocol that `protocol` names, ignoring surrounding white space
/// and ASCII case.
pub fn parse_trace_protocol(protocol: &str) -> (r: Result<TraceProtocol, TelemetryError>)
    ensures
        match protocol_named(protocol_key(protocol@)) {
            Some(p) => r == Ok::<TraceProtocol, TelemetryError>(p),
            None => r matches Err(TelemetryError::TraceInitFailed(m)) && m@ == invalid_protocol_text(
                protocol_key(protocol@),
            ),
        },
{
    let name = ascii_lowercase(trim_text(protocol));
    let grpc = String::from_str("grpc");
    let http_binary = String::from_str("http_binary");
    let http_json = String::from_str("http_json");
    if name == grpc {
        Ok(TraceProtocol::Grpc)
    } else if name == http_binary {
        Ok(TraceProtocol::HttpBinary)
    } else if name == http_json {
        Ok(TraceProtocol::HttpJson)
    } else {
        let mut m = String::from_str("invalid trace protocol: ");
        m.append(name.as_str());
        m.append(". expected grpc/http_binary/http_json");
        Err(TelemetryError::TraceInitFailed(m))
    }
}

/// The message for an enabled tracer without an endpoint.
pub open spec fn missing_endpoint_text() -> Seq<char> {
    "trace_endpoint must be set when trace collection is enabled"@
}

/// Checks a trace configuration: a disabled tracer needs nothing; an enabled one
/// needs an endpoint and a known protocol, which is returned.
pub fn validate_trace_config(enabled: bool, endpoint: &str, protocol: &str) -> (r: Result<
    Option<TraceProtocol>,
    TelemetryError,
>)
    ensures
        !enabled ==> r == Ok::<Option<TraceProtocol>, TelemetryError>(None),
        enabled && endpoint@.len() == 0 ==> (r matches Err(TelemetryError::TraceInitFailed(m))
            && m@ == missing_endpoint_text()),
        enabled && endpoint@.len() > 0 ==> match protocol_named(protocol_key(protocol@)) {
            Some(p) => r == Ok::<Option<TraceProtocol>, TelemetryError>(Some(p)),
            None => (r matches Err(TelemetryError::TraceInitFailed(m)) && m@ == invalid_protocol_text(
                protocol_key(protocol@),
            )),
        },
{
    if !enabled {
        return Ok(None);
    }
    if endpoint.unicode_len() == 0 {
        return Err(
            TelemetryError::TraceInitFailed(
                String::from_str("trace_endpoint must be set when trace collection is enabled"),
            ),
        );
    }
    match parse_trace_protocol(protocol) {
        Ok(p) => Ok(Some(p)),
        Err(e) => Err(e),
    }
}

/// Flushes the records the trace collector holds (`fastrace::flush`, which
/// returns nothing).
#[verifier::external_body]
fn flush_collector() {
    fastrace::flush();
}

/// Whether trace collection was started.
pub struct Tracer {
    enabled: bool,
}

impl Tracer {
    /// A tracer that collects nothing.
    pub fn disabled() -> (r: Tracer)
        ensures
            !r.is_enabled(),
    {
        Tracer { enabled: false }
    }

    /// A tracer whose collector has been started.
    pub fn started() -> (r: Tracer)
        ensures
            r.is_enabled(),
    {
        Tracer { enabled: true }
    }

    pub closed spec fn is_enabled(&self) -> bool {
        self.enabled
    }

    /// Whether trace collection was started.
    pub fn enabled(&self) -> (r: bool)
        ensures
            r == self.is_enabled(),
    {
        self.enabled
    }

    /// Flushes pending records if collection was started.
    pub fn flush(&self) {
        if self.enabled {
            flush_collector();
        }
    }
}

/// The telemetry of the process: its trace collection.
pub struct TelemetryManager {
    tracer: Tracer,
}

impl TelemetryManager {
    /// Whether trace collection was started for this process.
    pub closed spec fn tracing(&self) -> bool {
        self.tracer.is_enabled()
    }

    /// Telemetry around a started (or disabled) tracer.
    pub fn new(tracer: Tracer) -> (r: TelemetryManager)
        ensures
            r.tracing() == tracer.is_enabled(),
    {
        TelemetryManager { tracer }
    }

    /// Telemetry that collects nothing.
    pub fn disabled() -> (r: TelemetryManager)
        ensures
            !r.tracing(),
    {
        TelemetryManager { tracer: Tracer::disabled() }
    }

    /// Whether trace collection was started for this process.
    pub fn is_tracing(&self) -> (r: bool)
        ensures
            r == self.tracing(),
    {
        self.tracer.enabled()
    }

    /// Flushes pending telemetry records before shutdown.
    pub fn flush(&self) {
        self.tracer.flush();
    }
}

/// The process-wide telemetry, set once: the first installed manager stays.
pub struct GlobalTelemetryManager {
    inner: Option<std::sync::Arc<TelemetryManager>>,
}

impl GlobalTelemetryManager {
    /// The installed manager, if any.
    pub closed spec fn current(&self) -> Option<std::sync::Arc<TelemetryManager>> {
        self.inner
    }

    /// Nothing installed yet.
    pub fn new() -> (r: GlobalTelemetryManager)
        ensures
            r.current() is None,
    {
        GlobalTelemetryManager { inner: None }
    }

    /// Installs `telemetry_manager` unless one is installed already, in which
    /// case the first one stays and this one is dropped.
    pub fn init(&mut self, telemetry_manager: std::sync::Arc<TelemetryManager>)
        ensures
            final(self).current() == (if old(self).current() is None {
                Some(telemetry_manager)
            } else {
                old(self).current()
            }),
    {
        if self.inner.is_none() {
            self.inner = Some(telemetry_manager);
        }
    }

    /// Whether a manager is installed.
    pub fn is_initialized(&self) -> (r: bool)
        ensures
            r == self.current() is Some,
    {
        self.inner.is_some()
    }

    /// The installed manager; one must have been installed.
    pub fn load(&self) -> (r: &std::sync::Arc<TelemetryManager>)
        requires
            self.current() is Some,
        ensures
            *r == self.current().unwrap(),
    {
        self.inner.as_ref().unwrap()
    }
}

impl Default for GlobalTelemetryManager {
    fn default() -> (r: GlobalTelemetryManager)
        ensures
            r.current() is None,
    {
        GlobalTelemetryManager::new()
    }
}

} // verus!

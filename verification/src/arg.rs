//! The process-wide argument surface: the override and dry-run flags, the
//! transport selection, and the decision a run makes before any
//! connection is opened. Opening connections and sending requests is the
//! surrounding program's work.

use vstd::prelude::*;

verus! {

/// The two process-wide flags independent of any schema: the raw override
/// payload and the dry-run switch.
#[derive(Debug, PartialEq, Eq)]
pub struct CommonArgs {
    pub json_data: Option<String>,
    pub dry_run: bool,
}

/// Plain TCP transport: where to connect, the common flags, and the
/// service-and-method command to run.
#[derive(Debug, PartialEq, Eq)]
pub struct TcpArgs<Sub> {
    pub url: String,
    pub common: CommonArgs,
    pub command: Sub,
}

/// Local-socket transport.
#[derive(Debug, PartialEq, Eq)]
pub struct UdsArgs<Sub> {
    pub url: String,
    pub common: CommonArgs,
    pub command: Sub,
}

/// How strictly the TLS peer is verified.
#[derive(Debug, PartialEq, Eq, Clone, Copy, Structural)]
pub enum SslVerifyMode {
    Peer,
    Disabled,
}

/// The lowest TLS protocol version to accept.
#[derive(Debug, PartialEq, Eq, Clone, Copy, Structural)]
pub enum SslVersion {
    Tls12,
    Tls13,
}

/// TLS transport configuration: where to connect, the certificate, key
/// and trust-root file paths, the server name, and the verification
/// posture.
#[derive(Debug, PartialEq, Eq)]
pub struct OpensslArgs {
    pub url: String,
    pub key_file: Option<String>,
    pub cert_file: Option<String>,
    pub ca_file: Option<String>,
    pub domain: String,
    pub verify_mode: SslVerifyMode,
    pub ssl_min_version: SslVersion,
}

/// TLS transport: its configuration, the common flags, and the command.
#[derive(Debug, PartialEq, Eq)]
pub struct SslArgs<Sub> {
    pub ssl: OpensslArgs,
    pub common: CommonArgs,
    pub command: Sub,
}

/// The transport one invocation selects.
#[derive(Debug, PartialEq, Eq)]
pub enum TransportMode<Sub> {
    Tcp(TcpArgs<Sub>),
    TcpSsl(SslArgs<Sub>),
    Uds(UdsArgs<Sub>),
}

impl<Sub> TransportMode<Sub> {
    /// The address the selected transport connects to.
    pub fn url(&self) -> (r: &String)
        ensures
            *r == (match self {
                TransportMode::Tcp(t) => t.url,
                TransportMode::TcpSsl(t) => t.ssl.url,
                TransportMode::Uds(t) => t.url,
            }),
    {
        match self {
            TransportMode::Tcp(t) => &t.url,
            TransportMode::TcpSsl(t) => &t.ssl.url,
            TransportMode::Uds(t) => &t.url,
        }
    }

    /// The common flags of the selected transport.
    pub fn common(&self) -> (r: &CommonArgs)
        ensures
            *r == (match self {
                TransportMode::Tcp(t) => t.common,
                TransportMode::TcpSsl(t) => t.common,
                TransportMode::Uds(t) => t.common,
            }),
    {
        match self {
            TransportMode::Tcp(t) => &t.common,
            TransportMode::TcpSsl(t) => &t.common,
            TransportMode::Uds(t) => &t.common,
        }
    }
}

/// The whole argument surface of a run: an optional transport selection
/// around the command tree.
#[derive(Debug, PartialEq, Eq)]
pub struct DefaultArgs<Sub> {
    pub transport: Option<TransportMode<Sub>>,
}

/// What a run should do, decided before any connection is opened: stop
/// for want of a transport, print and stop under dry-run, or connect and
/// dispatch.
#[derive(Debug, PartialEq, Eq, Clone, Copy, Structural)]
pub enum MainPlan {
    NoTransport,
    DryRunPrint,
    Connect,
}

impl<Sub> DefaultArgs<Sub> {
    /// Decide the run: a missing transport selection stops it, dry-run
    /// prints the parsed command without sending, anything else connects.
    pub fn run_plan(&self) -> (r: MainPlan)
        ensures
            match &self.transport {
                Option::None => r is NoTransport,
                Option::Some(t) => {
                    let c = match t {
                        TransportMode::Tcp(x) => x.common,
                        TransportMode::TcpSsl(x) => x.common,
                        TransportMode::Uds(x) => x.common,
                    };
                    if c.dry_run {
                        r is DryRunPrint
                    } else {
                        r is Connect
                    }
                },
            },
    {
        match &self.transport {
            Option::None => MainPlan::NoTransport,
            Option::Some(t) => {
                if t.common().dry_run {
                    MainPlan::DryRunPrint
                } else {
                    MainPlan::Connect
                }
            }
        }
    }
}

} // verus!

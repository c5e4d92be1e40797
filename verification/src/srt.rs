//! Configuration and validation contracts for SRT/RIST contribution outputs.
//!
//! Transport negotiation is kept separate from this contract. The validated
//! settings feed a GStreamer `srtsink`/`ristsink` without exposing secrets in
//! diagnostics.
use vstd::prelude::*;

use crate::text::{has_prefix, owned, starts_with, utf8_len};
use crate::time::{Duration, NANOS_PER_MILLI, NANOS_PER_SEC};

verus! {

/// Contribution transport.
#[derive(Debug, Clone, Copy, PartialEq, Eq, Structural)]
pub enum ContributionProtocol {
    Srt,
    Rist,
}

impl ContributionProtocol {
    /// URI scheme of the protocol.
    pub open spec fn spec_scheme(self) -> Seq<char> {
        match self {
            ContributionProtocol::Srt => "srt"@,
            ContributionProtocol::Rist => "rist"@,
        }
    }

    /// URI scheme of the protocol.
    pub fn scheme(self) -> (r: &'static str)
        ensures
            r@ == self.spec_scheme(),
    {
        match self {
            ContributionProtocol::Srt => "srt",
            ContributionProtocol::Rist => "rist",
        }
    }

    /// The URI prefix `<scheme>://` that endpoints must carry.
    pub open spec fn spec_prefix(self) -> Seq<char> {
        match self {
            ContributionProtocol::Srt => "srt://"@,
            ContributionProtocol::Rist => "rist://"@,
        }
    }

    /// Name of the GStreamer sink element for this protocol.
    pub open spec fn spec_sink_element(self) -> Seq<char> {
        match self {
            ContributionProtocol::Srt => "srtsink"@,
            ContributionProtocol::Rist => "ristsink"@,
        }
    }
}

/// Error for an endpoint that does not use the selected protocol's scheme.
pub open spec fn err_scheme() -> Seq<char> {
    "contribution endpoint must use the selected protocol scheme"@
}

/// Error for a passphrase outside the accepted length.
pub open spec fn err_passphrase() -> Seq<char> {
    "SRT passphrase must contain 10 to 79 characters"@
}

/// A contribution output (SRT or RIST) with an optional passphrase.
#[derive(Debug, Clone, PartialEq, Eq)]
pub struct ContributionSettings {
    pub protocol: ContributionProtocol,
    pub endpoint: String,
    pub passphrase: Option<String>,
    pub latency: Duration,
}

impl ContributionSettings {
    /// The validation error for these settings, if any.
    pub open spec fn spec_error(&self) -> Option<Seq<char>> {
        let prefix = self.protocol.spec_prefix();
        if !has_prefix(self.endpoint@, prefix) || utf8_len(self.endpoint@) <= utf8_len(prefix) {
            Some(err_scheme())
        } else {
            match self.passphrase {
                Some(p) => if utf8_len(p@) != 0 && !(10 <= utf8_len(p@) <= 79) {
                    Some(err_passphrase())
                } else {
                    None
                },
                None => None,
            }
        }
    }

    /// The sink description `<element> uri="<endpoint>"`.
    pub open spec fn spec_fragment(&self) -> Seq<char> {
        self.protocol.spec_sink_element() + " uri=\""@ + self.endpoint@ + "\""@
    }

    /// Settings for `endpoint` with the default 120 ms latency and no
    /// passphrase.
    pub fn new(protocol: ContributionProtocol, endpoint: &str) -> (r: Self)
        ensures
            r.protocol == protocol,
            r.endpoint@ == endpoint@,
            r.passphrase.is_none(),
            r.latency.spec_nanos() == 120 * NANOS_PER_MILLI,
    {
        ContributionSettings {
            protocol,
            endpoint: owned(endpoint),
            passphrase: None,
            latency: Duration::from_millis(120),
        }
    }

    /// The same settings with a passphrase.
    pub fn with_passphrase(self, passphrase: &str) -> (r: Self)
        ensures
            r.protocol == self.protocol,
            r.endpoint == self.endpoint,
            r.latency == self.latency,
            r.passphrase matches Some(p) && p@ == passphrase@,
    {
        ContributionSettings { passphrase: Some(owned(passphrase)), ..self }
    }

    /// The same settings with the latency clamped to 20 ms ..= 10 s.
    pub fn with_latency(self, latency: Duration) -> (r: Self)
        ensures
            r.protocol == self.protocol,
            r.endpoint == self.endpoint,
            r.passphrase == self.passphrase,
            r.latency.spec_nanos() == if latency.spec_nanos() < 20 * NANOS_PER_MILLI {
                (20 * NANOS_PER_MILLI) as nat
            } else if latency.spec_nanos() > 10 * NANOS_PER_SEC {
                (10 * NANOS_PER_SEC) as nat
            } else {
                latency.spec_nanos()
            },
    {
        let latency = latency.clamp(Duration::from_millis(20), Duration::from_secs(10));
        ContributionSettings { latency, ..self }
    }

    /// Check the endpoint scheme and the passphrase length.
    pub fn validate(&self) -> (r: Result<(), &'static str>)
        ensures
            match self.spec_error() {
                None => r.is_ok(),
                Some(m) => r matches Err(e) && e@ == m,
            },
    {
        let prefix = match self.protocol {
            ContributionProtocol::Srt => "srt://",
            ContributionProtocol::Rist => "rist://",
        };
        proof {
            reveal_strlit("srt://");
            reveal_strlit("rist://");
            reveal_strlit("contribution endpoint must use the selected protocol scheme");
            reveal_strlit("SRT passphrase must contain 10 to 79 characters");
        }
        let endpoint = self.endpoint.as_str();
        if !starts_with(endpoint, prefix) || endpoint.len() <= prefix.len() {
            return Err("contribution endpoint must use the selected protocol scheme");
        }
        match &self.passphrase {
            Some(p) => {
                let len = p.as_str().len();
                if len != 0 && !(10 <= len && len <= 79) {
                    return Err("SRT passphrase must contain 10 to 79 characters");
                }
            },
            None => {},
        }
        Ok(())
    }

    /// The endpoint for diagnostics; the passphrase is never part of it.
    pub fn redacted_endpoint(&self) -> (r: String)
        ensures
            r@ == self.endpoint@,
    {
        self.endpoint.clone()
    }

    /// Whether a non-empty passphrase is configured.
    pub fn has_passphrase(&self) -> (r: bool)
        ensures
            r == (self.passphrase matches Some(p) && p@.len() > 0),
    {
        match &self.passphrase {
            Some(p) => !p.as_str().is_empty(),
            None => false,
        }
    }

    /// Name of the GStreamer sink element this output needs.
    pub fn sink_element_name(&self) -> (r: &'static str)
        ensures
            r@ == self.protocol.spec_sink_element(),
    {
        match self.protocol {
            ContributionProtocol::Srt => "srtsink",
            ContributionProtocol::Rist => "ristsink",
        }
    }

    /// The GStreamer sink description for this output.
    pub fn pipeline_sink_fragment(&self) -> (r: String)
        ensures
            r@ == self.spec_fragment(),
    {
        let mut out = owned(self.sink_element_name());
        out.append(" uri=\"");
        out.append(self.endpoint.as_str());
        out.append("\"");
        out
    }

    /// The sink description, once the settings validate.
    pub fn validated_pipeline_sink_fragment(&self) -> (r: Result<String, &'static str>)
        ensures
            match self.spec_error() {
                None => r matches Ok(f) && f@ == self.spec_fragment(),
                Some(m) => r matches Err(e) && e@ == m,
            },
    {
        match self.validate() {
            Ok(()) => Ok(self.pipeline_sink_fragment()),
            Err(e) => Err(e),
        }
    }
}

} // verus!

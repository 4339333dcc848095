use vstd::prelude::*;

verus! {

/// Probe identifier.
#[derive(Debug, Clone, Copy, PartialEq, Eq, Hash)]
pub struct ProbeId(pub u32);

/// Measurement identifier.
#[derive(Debug, Clone, Copy, PartialEq, Eq, Hash)]
pub struct MeasurementId(pub u64);

/// Unix timestamp in seconds.
#[derive(Debug, Clone, Copy, PartialEq, Eq, PartialOrd, Ord)]
pub struct Timestamp(pub i64);

/// The current Unix time in seconds, as the system clock reports it (0
/// before the epoch).
#[verifier::external_body]
pub(crate) fn unix_seconds() -> (t: u64) {
    std::time::SystemTime::now().duration_since(std::time::UNIX_EPOCH).unwrap_or_default().as_secs()
}

impl Timestamp {
    /// The current time, as the system clock reports it: never before the
    /// epoch (a clock set earlier reads as the epoch), and held at the end
    /// of `i64`. Which time it is is the clock's.
    pub fn now() -> (t: Timestamp)
        ensures
            t.0 >= 0,
    {
        let s = unix_seconds();
        if s > 0x7fff_ffff_ffff_ffff {
            Timestamp(0x7fff_ffff_ffff_ffff)
        } else {
            Timestamp(s as i64)
        }
    }
}

/// The kind of a measurement.
#[derive(Debug, Clone, Copy, PartialEq, Eq, Structural)]
pub enum MeasurementType {
    Ping,
    Traceroute,
    Dns,
    Http,
    Tls,
    Ntp,
}

/// The name of a measurement kind, as results and the store write it.
pub open spec fn measurement_type_name(t: MeasurementType) -> Seq<char> {
    match t {
        MeasurementType::Ping => "ping"@,
        MeasurementType::Traceroute => "traceroute"@,
        MeasurementType::Dns => "dns"@,
        MeasurementType::Http => "http"@,
        MeasurementType::Tls => "tls"@,
        MeasurementType::Ntp => "ntp"@,
    }
}

impl MeasurementType {
    /// The kind's name: `ping`, `traceroute`, `dns`, `http`, `tls`, `ntp`.
    pub fn as_str(&self) -> (r: &'static str)
        ensures
            r@ == measurement_type_name(*self),
    {
        match self {
            MeasurementType::Ping => "ping",
            MeasurementType::Traceroute => "traceroute",
            MeasurementType::Dns => "dns",
            MeasurementType::Http => "http",
            MeasurementType::Tls => "tls",
            MeasurementType::Ntp => "ntp",
        }
    }

    /// The kind named `name`, if any: the inverse of `as_str`.
    pub fn from_name(name: &str) -> (r: Option<MeasurementType>)
        ensures
            match r {
                Some(t) => measurement_type_name(t) == name@,
                None => forall|t: MeasurementType| measurement_type_name(t) != name@,
            },
    {
        if crate::text::str_eq(name, "ping") {
            Some(MeasurementType::Ping)
        } else if crate::text::str_eq(name, "traceroute") {
            Some(MeasurementType::Traceroute)
        } else if crate::text::str_eq(name, "dns") {
            Some(MeasurementType::Dns)
        } else if crate::text::str_eq(name, "http") {
            Some(MeasurementType::Http)
        } else if crate::text::str_eq(name, "tls") {
            Some(MeasurementType::Tls)
        } else if crate::text::str_eq(name, "ntp") {
            Some(MeasurementType::Ntp)
        } else {
            proof {
                assert forall|t: MeasurementType| measurement_type_name(t) != name@ by {
                    match t {
                        MeasurementType::Ping => {},
                        MeasurementType::Traceroute => {},
                        MeasurementType::Dns => {},
                        MeasurementType::Http => {},
                        MeasurementType::Tls => {},
                        MeasurementType::Ntp => {},
                    }
                }
            }
            None
        }
    }
}

/// Each kind has its own name, and reading the name gives the kind back.
pub proof fn lemma_measurement_type_names_distinct(a: MeasurementType, b: MeasurementType)
    ensures
        measurement_type_name(a) == measurement_type_name(b) <==> a == b,
{
    reveal_strlit("ping");
    reveal_strlit("traceroute");
    reveal_strlit("dns");
    reveal_strlit("http");
    reveal_strlit("tls");
    reveal_strlit("ntp");
    if measurement_type_name(a) == measurement_type_name(b) {
        let na = measurement_type_name(a);
        let nb = measurement_type_name(b);
        assert(na.len() == nb.len());
        assert(na[0] == nb[0]);
        if na.len() >= 2 {
            assert(na[1] == nb[1]);
        }
    }
}

/// The errors of probe operations, each with its message.
#[derive(Debug, Clone)]
pub enum Error {
    Config(String),
    Network(String),
    Measurement(String),
    Database(String),
    Ssh(String),
    /// An I/O error, by its message
    Io(String),
    /// A serialization error, by its message
    Serialization(String),
    Unknown(String),
}

/// The message of an error: its kind, then what happened.
pub open spec fn error_message(e: Error) -> Seq<char> {
    match e {
        Error::Config(s) => "Configuration error: "@ + s@,
        Error::Network(s) => "Network error: "@ + s@,
        Error::Measurement(s) => "Measurement error: "@ + s@,
        Error::Database(s) => "Database error: "@ + s@,
        Error::Ssh(s) => "SSH error: "@ + s@,
        Error::Io(s) => "IO error: "@ + s@,
        Error::Serialization(s) => "Serialization error: "@ + s@,
        Error::Unknown(s) => "Unknown error: "@ + s@,
    }
}

impl Error {
    /// The error's message.
    pub fn message(&self) -> (r: String)
        ensures
            r@ == error_message(*self),
    {
        match self {
            Error::Config(s) => crate::text::concat("Configuration error: ", s.as_str()),
            Error::Network(s) => crate::text::concat("Network error: ", s.as_str()),
            Error::Measurement(s) => crate::text::concat("Measurement error: ", s.as_str()),
            Error::Database(s) => crate::text::concat("Database error: ", s.as_str()),
            Error::Ssh(s) => crate::text::concat("SSH error: ", s.as_str()),
            Error::Io(s) => crate::text::concat("IO error: ", s.as_str()),
            Error::Serialization(s) => crate::text::concat("Serialization error: ", s.as_str()),
            Error::Unknown(s) => crate::text::concat("Unknown error: ", s.as_str()),
        }
    }
}

} // verus!

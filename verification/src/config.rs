//! Configuration of a worker subprocess and of the telemetry exporters.

use vstd::prelude::*;

verus! {

/// How a worker subprocess is set up and what it calls.
#[derive(Debug, Clone)]
pub struct PythonConfig {
    /// Interpreter search paths, tried in order.
    pub python_path: Vec<String>,
    /// The module to import.
    pub module_name: String,
    /// The function to call in that module.
    pub function_name: String,
    /// Environment variables for the subprocess.
    pub env_vars: Vec<(String, String)>,
    /// Whether the function is asynchronous, which streaming needs.
    pub is_async: bool,
    /// The file of the module, for error reports.
    pub module_file: String,
}

/// Which telemetry exporters are switched on.
#[derive(Debug, Clone, Copy)]
pub struct TelemetryExportConfig {
    /// Export spans over OTLP.
    pub otlp_enabled: bool,
    /// Export spans to standard output.
    pub stdout_enabled: bool,
    /// Export metrics.
    pub metrics_enabled: bool,
}

impl Default for TelemetryExportConfig {
    /// Every exporter is on by default.
    fn default() -> (config: Self)
        ensures
            config.otlp_enabled,
            config.stdout_enabled,
            config.metrics_enabled,
    {
        TelemetryExportConfig { otlp_enabled: true, stdout_enabled: true, metrics_enabled: true }
    }
}

/// The transport of the OTLP exporter.
#[derive(Debug, Clone, Copy, PartialEq, Eq, Structural)]
pub enum OtlpProtocol {
    Grpc,
    HttpProtobuf,
}

/// Why no exporters could be planned.
#[derive(Debug, Clone, Copy, PartialEq, Eq, Structural)]
pub enum TelemetryError {
    /// The protocol named for the OTLP exporter is none that is known.
    UnknownProtocol,
}

/// The exporters to build.
#[derive(Debug, Clone, Copy, PartialEq, Eq, Structural)]
pub struct ExporterPlan {
    /// The OTLP span exporter and its transport, if it is on.
    pub otlp: Option<OtlpProtocol>,
    /// Whether spans also go to standard output.
    pub stdout: bool,
    /// Whether the metrics pipeline is set up.
    pub metrics: bool,
}

/// The protocol that `name` names, if it names one.
pub open spec fn protocol_named(name: Seq<char>) -> Option<OtlpProtocol> {
    if name == "grpc"@ {
        Some(OtlpProtocol::Grpc)
    } else if name == "http/protobuf"@ {
        Some(OtlpProtocol::HttpProtobuf)
    } else {
        None
    }
}

/// The protocol to use where the environment names `setting`: gRPC where it names none.
pub open spec fn protocol_setting(setting: Option<Seq<char>>) -> Option<OtlpProtocol> {
    match setting {
        Some(name) => protocol_named(name),
        None => Some(OtlpProtocol::Grpc),
    }
}

/// The plan for `config` under the protocol setting `setting`.
///
/// The protocol matters only where the OTLP exporter is on: with it off, an
/// unknown protocol is no error.
pub open spec fn plan_for(config: TelemetryExportConfig, setting: Option<Seq<char>>) -> Result<
    ExporterPlan,
    TelemetryError,
> {
    if config.otlp_enabled && protocol_setting(setting) is None {
        Err(TelemetryError::UnknownProtocol)
    } else {
        Ok(
            ExporterPlan {
                otlp: if config.otlp_enabled {
                    protocol_setting(setting)
                } else {
                    None
                },
                stdout: config.stdout_enabled,
                metrics: config.metrics_enabled,
            },
        )
    }
}

/// A protocol setting as a mathematical value.
pub open spec fn setting_view(setting: Option<&str>) -> Option<Seq<char>> {
    match setting {
        Some(name) => Some(name@),
        None => None,
    }
}

/// Whether two texts are the same.
fn same_text(left: &str, right: &str) -> (same: bool)
    ensures
        same == (left@ == right@),
{
    let left_owned: String = left.to_owned();
    let right_owned: String = right.to_owned();
    left_owned == right_owned
}

/// Reads the name of an OTLP protocol: `grpc` or `http/protobuf`.
pub fn parse_protocol(name: &str) -> (protocol: Option<OtlpProtocol>)
    ensures
        protocol == protocol_named(name@),
{
    if same_text(name, "grpc") {
        Some(OtlpProtocol::Grpc)
    } else if same_text(name, "http/protobuf") {
        Some(OtlpProtocol::HttpProtobuf)
    } else {
        None
    }
}

/// Plans the exporters for `config`, given what the environment names as the
/// OTLP protocol (`None` where it names nothing).
///
/// Fails exactly where the OTLP exporter is on and the protocol named is
/// neither `grpc` nor `http/protobuf`.
pub fn plan_exporters(config: TelemetryExportConfig, setting: Option<&str>) -> (plan: Result<
    ExporterPlan,
    TelemetryError,
>)
    ensures
        plan == plan_for(config, setting_view(setting)),
{
    let otlp: Option<OtlpProtocol> = if config.otlp_enabled {
        let protocol = match setting {
            Some(name) => parse_protocol(name),
            None => Some(OtlpProtocol::Grpc),
        };
        match protocol {
            Some(protocol) => Some(protocol),
            None => {
                return Err(TelemetryError::UnknownProtocol);
            },
        }
    } else {
        None
    };
    Ok(ExporterPlan { otlp, stdout: config.stdout_enabled, metrics: config.metrics_enabled })
}

/// Whether `chosen` is the first candidate that is usable.
pub open spec fn is_first_usable(usable: Seq<bool>, chosen: int) -> bool {
    &&& 0 <= chosen < usable.len()
    &&& usable[chosen]
    &&& forall|i: int| 0 <= i < chosen ==> !#[trigger] usable[i]
}

/// Picks among candidates that are tried in order: the first one that is
/// usable, `None` where none is.
pub fn choose_first_usable(usable: &Vec<bool>) -> (chosen: Option<usize>)
    ensures
        chosen matches Some(i) ==> is_first_usable(usable@, i as int),
        chosen is None ==> forall|i: int| 0 <= i < usable@.len() ==> !#[trigger] usable@[i],
{
    let mut at: usize = 0;
    while at < usable.len()
        invariant
            at <= usable@.len(),
            forall|i: int| 0 <= i < at ==> !#[trigger] usable@[i],
        decreases usable@.len() - at,
    {
        if usable[at] {
            return Some(at);
        }
        at = at + 1;
    }
    None
}

} // verus!

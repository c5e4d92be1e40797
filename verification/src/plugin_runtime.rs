//! The lifecycle rules of WASM plugins.
//!
//! A plugin module is compiled, instantiated and initialized by the host's
//! WASM engine, then activated, fed work, deactivated and unloaded. This
//! module holds what the host decides around every call into a plugin:
//! whether the call may be made in the plugin's state, what the plugin's
//! answer (or failure) does to the state, how failures are classified and
//! reported, and the per-call CPU budget. The engine itself runs the calls.
use vstd::prelude::*;

use crate::assoc::{
    assoc_view, find_key, keys_unique, lemma_assoc_push, lemma_assoc_update, lemma_assoc_view,
    lemma_same_keys_same_view,
};
use crate::plugin_manifest::{manifest_error, ErrorKind, ManifestError, PluginManifest};
use crate::text::{append_decimal, decimal, owned};

verus! {

/// API version this host implements (major.minor packed as `major << 16 | minor`).
pub const HOST_API_VERSION: u32 = 65536;

/// Scratch address where `plugin_process` input is written.
pub const PROCESS_INPUT_PTR: u32 = 0x1000;

/// Scratch address where `plugin_process` output is read.
pub const PROCESS_OUTPUT_PTR: u32 = 0x2000;

/// Capacity of the `plugin_process` output buffer.
pub const PROCESS_OUTPUT_CAP: u32 = 0x1000;

/// Fuel granted per millisecond of the manifest's CPU budget.
pub const FUEL_PER_CPU_MS: u64 = 2_000_000;

/// Lifecycle state of a loaded plugin.
#[derive(Debug, Clone, Copy, PartialEq, Eq, Structural)]
pub enum PluginState {
    /// Compiled and instantiated, `plugin_init` not yet called.
    Loaded,
    /// `plugin_init` succeeded, not yet activated.
    Initialized,
    /// Activated, processing.
    Active,
    /// Deactivated (or demoted after an error); can be activated again.
    Inactive,
    /// Terminated normally or unloaded.
    Unloaded,
    /// Encountered an unrecoverable error.
    Skipped,
}

impl PluginState {
    /// The state's name as it is shown in messages.
    pub open spec fn spec_name(self) -> Seq<char> {
        match self {
            PluginState::Loaded => "Loaded"@,
            PluginState::Initialized => "Initialized"@,
            PluginState::Active => "Active"@,
            PluginState::Inactive => "Inactive"@,
            PluginState::Unloaded => "Unloaded"@,
            PluginState::Skipped => "Skipped"@,
        }
    }

    /// The state's name as it is shown in messages.
    pub fn name(self) -> (r: &'static str)
        ensures
            r@ == self.spec_name(),
    {
        match self {
            PluginState::Loaded => "Loaded",
            PluginState::Initialized => "Initialized",
            PluginState::Active => "Active",
            PluginState::Inactive => "Inactive",
            PluginState::Unloaded => "Unloaded",
            PluginState::Skipped => "Skipped",
        }
    }
}

/// Errors of plugin runtime operations.
#[derive(Debug, Clone, PartialEq, Eq)]
pub enum RuntimeError {
    /// The WASM module failed to compile.
    CompileError(String),
    /// The WASM module failed to instantiate.
    InstantiateError(String),
    /// A plugin export was not found in the WASM module.
    MissingExport(String),
    /// The plugin returned a non-zero error code from a lifecycle function.
    LifecycleError { function: &'static str, code: i32 },
    /// The plugin exceeded its time or CPU limit.
    Timeout(&'static str),
    /// The plugin trapped (crash, unreachable, out-of-bounds).
    Trap(String),
    /// A required host import is missing from the WASM module.
    MissingImport(String),
    /// The plugin was called from an invalid lifecycle state.
    InvalidState(String),
    /// The manifest is invalid.
    Manifest(ManifestError),
    /// The WASM file could not be read.
    IoError(String),
}

/// A signed integer in decimal.
pub open spec fn signed_decimal(n: int) -> Seq<char> {
    if n < 0 { "-"@ + decimal((-n) as nat) } else { decimal(n as nat) }
}

fn append_signed(out: &mut String, n: i32)
    ensures
        final(out)@ == old(out)@ + signed_decimal(n as int),
{
    if n < 0 {
        out.append("-");
        let magnitude: u64 = (0 - (n as i64)) as u64;
        append_decimal(out, magnitude);
    } else {
        append_decimal(out, n as u64);
    }
}

fn prefixed(prefix: &str, rest: &str) -> (r: String)
    ensures
        r@ == prefix@ + rest@,
{
    let mut out = owned(prefix);
    out.append(rest);
    out
}

impl RuntimeError {
    /// The human-readable description of the error.
    pub open spec fn spec_message(&self) -> Seq<char> {
        match self {
            RuntimeError::CompileError(m) => "WASM compile error: "@ + m@,
            RuntimeError::InstantiateError(m) => "WASM instantiate error: "@ + m@,
            RuntimeError::MissingExport(n) => "missing WASM export: "@ + n@,
            RuntimeError::LifecycleError { function, code } => function@ + " returned error code "@
                + signed_decimal(*code as int),
            RuntimeError::Timeout(function) => function@ + " exceeded time limit"@,
            RuntimeError::Trap(m) => "WASM trap: "@ + m@,
            RuntimeError::MissingImport(n) => "missing WASM import: "@ + n@,
            RuntimeError::InvalidState(m) => "invalid plugin state: "@ + m@,
            RuntimeError::Manifest(e) => "manifest error: "@ + e.spec_message(),
            RuntimeError::IoError(m) => "I/O error: "@ + m@,
        }
    }

    /// The human-readable description of the error.
    pub fn message(&self) -> (r: String)
        ensures
            r@ == self.spec_message(),
    {
        match self {
            RuntimeError::CompileError(m) => prefixed("WASM compile error: ", m.as_str()),
            RuntimeError::InstantiateError(m) => prefixed("WASM instantiate error: ", m.as_str()),
            RuntimeError::MissingExport(n) => prefixed("missing WASM export: ", n.as_str()),
            RuntimeError::LifecycleError { function, code } => {
                let mut out = prefixed(function, " returned error code ");
                append_signed(&mut out, *code);
                out
            },
            RuntimeError::Timeout(function) => prefixed(function, " exceeded time limit"),
            RuntimeError::Trap(m) => prefixed("WASM trap: ", m.as_str()),
            RuntimeError::MissingImport(n) => prefixed("missing WASM import: ", n.as_str()),
            RuntimeError::InvalidState(m) => prefixed("invalid plugin state: ", m.as_str()),
            RuntimeError::Manifest(e) => {
                let inner = e.message();
                prefixed("manifest error: ", inner.as_str())
            },
            RuntimeError::IoError(m) => prefixed("I/O error: ", m.as_str()),
        }
    }

    /// A manifest error as a runtime error.
    pub fn from_manifest(e: ManifestError) -> (r: RuntimeError)
        ensures
            r == RuntimeError::Manifest(e),
    {
        RuntimeError::Manifest(e)
    }
}

/// The error for a lifecycle function the module does not export.
pub fn missing_export(name: &str) -> (r: RuntimeError)
    ensures
        r matches RuntimeError::MissingExport(m) && m@ == name@ + " export not found in WASM module"@,
{
    RuntimeError::MissingExport(prefixed(name, " export not found in WASM module"))
}

/// Why a plugin was skipped instead of loaded.
#[derive(Debug, Clone, PartialEq, Eq)]
pub enum SkipReason {
    /// The manifest could not be parsed.
    ManifestParse(String),
    /// The manifest failed validation.
    ManifestValidation(String),
    /// The WASM binary could not be read.
    IoError(String),
    /// WASM compilation failed.
    CompileError(String),
    /// WASM instantiation failed.
    InstantiateError(String),
    /// A required export is missing.
    MissingExport(String),
    /// `plugin_init` returned an error code.
    InitFailed(i32),
    /// `plugin_init` ran out of time or CPU.
    InitTimeout,
    /// The module trapped during `plugin_init`.
    InitTrap(String),
}

impl SkipReason {
    /// The human-readable description of the reason.
    pub open spec fn spec_message(&self) -> Seq<char> {
        match self {
            SkipReason::ManifestParse(m) => "manifest parse: "@ + m@,
            SkipReason::ManifestValidation(m) => "manifest validation: "@ + m@,
            SkipReason::IoError(m) => "I/O: "@ + m@,
            SkipReason::CompileError(m) => "compile: "@ + m@,
            SkipReason::InstantiateError(m) => "instantiate: "@ + m@,
            SkipReason::MissingExport(n) => "missing export: "@ + n@,
            SkipReason::InitFailed(code) => "init failed (code "@ + signed_decimal(*code as int) + ")"@,
            SkipReason::InitTimeout => "init timed out"@,
            SkipReason::InitTrap(m) => "init trap: "@ + m@,
        }
    }

    /// The human-readable description of the reason.
    pub fn message(&self) -> (r: String)
        ensures
            r@ == self.spec_message(),
    {
        match self {
            SkipReason::ManifestParse(m) => prefixed("manifest parse: ", m.as_str()),
            SkipReason::ManifestValidation(m) => prefixed("manifest validation: ", m.as_str()),
            SkipReason::IoError(m) => prefixed("I/O: ", m.as_str()),
            SkipReason::CompileError(m) => prefixed("compile: ", m.as_str()),
            SkipReason::InstantiateError(m) => prefixed("instantiate: ", m.as_str()),
            SkipReason::MissingExport(n) => prefixed("missing export: ", n.as_str()),
            SkipReason::InitFailed(code) => {
                let mut out = owned("init failed (code ");
                append_signed(&mut out, *code);
                out.append(")");
                out
            },
            SkipReason::InitTimeout => owned("init timed out"),
            SkipReason::InitTrap(m) => prefixed("init trap: ", m.as_str()),
        }
    }
}

/// The description of a manifest error given by its variant, field and
/// detail (what [`ManifestError::message`] prints).
pub open spec fn parts_message(p: (ErrorKind, Seq<char>, Seq<char>)) -> Seq<char> {
    match p.0 {
        ErrorKind::Parse => "manifest parse error: "@ + p.2,
        ErrorKind::Missing => "missing required field: "@ + p.1,
        ErrorKind::Invalid => "invalid value for "@ + p.1 + ": "@ + p.2,
        ErrorKind::Sensitive => "sensitive capability requires explicit approval: "@ + p.2,
        ErrorKind::Resource => "resource limit exceeded: "@ + p.2,
    }
}

/// The reason a manifest that fails validation is skipped with, if it
/// fails.
pub fn validation_skip(manifest: &PluginManifest) -> (r: Option<SkipReason>)
    ensures
        match manifest_error(*manifest) {
            None => r.is_none(),
            Some(p) => r matches Some(SkipReason::ManifestValidation(m)) && m@ == parts_message(p),
        },
{
    match manifest.validate() {
        Ok(()) => None,
        Err(e) => {
            let m = e.message();
            assert(e.spec_message() == parts_message(e.spec_parts()));
            Some(SkipReason::ManifestValidation(m))
        },
    }
}

/// How a call into a plugin failed at the engine level.
#[derive(Debug, Clone, PartialEq, Eq)]
pub enum CallFailure {
    /// The wall-clock deadline interrupted the call.
    Interrupted,
    /// The call used up its fuel (CPU budget).
    OutOfFuel,
    /// Any other trap or engine error, with its description.
    Trapped(String),
}

/// The runtime error of a failed call of `function`: running out of time
/// or fuel is a timeout, anything else a trap.
pub fn classify_failure(failure: CallFailure, function: &'static str) -> (r: RuntimeError)
    ensures
        r == match failure {
            CallFailure::Interrupted => RuntimeError::Timeout(function),
            CallFailure::OutOfFuel => RuntimeError::Timeout(function),
            CallFailure::Trapped(m) => RuntimeError::Trap(m),
        },
{
    match failure {
        CallFailure::Interrupted => RuntimeError::Timeout(function),
        CallFailure::OutOfFuel => RuntimeError::Timeout(function),
        CallFailure::Trapped(m) => RuntimeError::Trap(m),
    }
}

/// What the answer of `plugin_init` means for loading, in mathematical
/// form.
pub enum InitVerdict {
    Initialized,
    Failed(i32),
    TimedOut,
    MissingExport(Seq<char>),
    Trapped(Seq<char>),
}

/// What the answer of `plugin_init` means for loading: success on code 0,
/// otherwise the reason to skip the plugin.
pub open spec fn init_spec(outcome: Result<i32, RuntimeError>) -> InitVerdict {
    match outcome {
        Ok(0i32) => InitVerdict::Initialized,
        Ok(code) => InitVerdict::Failed(code),
        Err(RuntimeError::Timeout(_)) => InitVerdict::TimedOut,
        Err(RuntimeError::MissingExport(e)) => InitVerdict::MissingExport(e@),
        Err(e) => InitVerdict::Trapped(e.spec_message()),
    }
}

/// What the answer of `plugin_init` means for loading.
pub fn init_outcome(outcome: Result<i32, RuntimeError>) -> (r: Result<(), SkipReason>)
    ensures
        match init_spec(outcome) {
            InitVerdict::Initialized => r.is_ok(),
            InitVerdict::Failed(code) => r == Err::<(), SkipReason>(SkipReason::InitFailed(code)),
            InitVerdict::TimedOut => r == Err::<(), SkipReason>(SkipReason::InitTimeout),
            InitVerdict::MissingExport(m) => r matches Err(SkipReason::MissingExport(x)) && x@ == m,
            InitVerdict::Trapped(m) => r matches Err(SkipReason::InitTrap(x)) && x@ == m,
        },
{
    match outcome {
        Ok(0) => Ok(()),
        Ok(code) => Err(SkipReason::InitFailed(code)),
        Err(RuntimeError::Timeout(_)) => Err(SkipReason::InitTimeout),
        Err(RuntimeError::MissingExport(e)) => Err(SkipReason::MissingExport(e)),
        Err(e) => Err(SkipReason::InitTrap(e.message())),
    }
}

/// The fuel granted per lifecycle call: the runtime's fixed budget, or
/// the manifest's CPU budget in milliseconds times the fuel per
/// millisecond.
pub fn fuel_budget(fixed: Option<u64>, max_cpu_ms: u32) -> (r: u64)
    ensures
        r == match fixed {
            Some(f) => f as int,
            None => max_cpu_ms * FUEL_PER_CPU_MS,
        },
{
    match fixed {
        Some(f) => f,
        None => max_cpu_ms as u64 * FUEL_PER_CPU_MS,
    }
}

/// The number of output bytes read back after `plugin_process` answered
/// `code` (non-negative): what it reports, at most the buffer's capacity.
pub fn process_output_len(code: i32) -> (r: usize)
    requires
        code >= 0,
    ensures
        r == if code < PROCESS_OUTPUT_CAP { code as int } else { PROCESS_OUTPUT_CAP as int },
{
    if (code as u32) < PROCESS_OUTPUT_CAP {
        code as usize
    } else {
        PROCESS_OUTPUT_CAP as usize
    }
}

/// The load status text of a plugin: loaded, or skipped with the reason
/// (`unknown` for a plugin whose manifest is not known).
pub fn load_status_description(name: Option<&str>, skipped: Option<&SkipReason>) -> (r: String)
    ensures
        r@ == ({
            let shown = match name {
                Some(n) => n@,
                None => "unknown"@,
            };
            match skipped {
                None => shown + " loaded successfully"@,
                Some(reason) => shown + " skipped: "@ + reason.spec_message(),
            }
        }),
{
    let mut out = match name {
        Some(n) => owned(n),
        None => owned("unknown"),
    };
    match skipped {
        None => out.append(" loaded successfully"),
        Some(reason) => {
            out.append(" skipped: ");
            let m = reason.message();
            out.append(m.as_str());
        },
    }
    out
}

// ── the lifecycle ───────────────────────────────────────────────────────────

/// A call into a plugin's lifecycle.
#[derive(Debug, Clone, Copy, PartialEq, Eq, Structural)]
pub enum LifecycleCall {
    Activate,
    Process,
    Deactivate,
    Unload,
}

impl LifecycleCall {
    /// The exported function the call invokes.
    pub open spec fn spec_export(self) -> Seq<char> {
        match self {
            LifecycleCall::Activate => "plugin_activate"@,
            LifecycleCall::Process => "plugin_process"@,
            LifecycleCall::Deactivate => "plugin_deactivate"@,
            LifecycleCall::Unload => "plugin_unload"@,
        }
    }

    /// The exported function the call invokes.
    pub fn export(self) -> (r: &'static str)
        ensures
            r@ == self.spec_export(),
    {
        match self {
            LifecycleCall::Activate => "plugin_activate",
            LifecycleCall::Process => "plugin_process",
            LifecycleCall::Deactivate => "plugin_deactivate",
            LifecycleCall::Unload => "plugin_unload",
        }
    }
}

/// Whether a call goes into the plugin.
#[derive(Debug, Clone, PartialEq, Eq)]
pub enum Entry {
    /// Nothing to do: the plugin is already where the call would take it.
    Settled,
    /// The call is refused in the plugin's state (the state is unchanged).
    Refused(RuntimeError),
    /// Invoke the exported function.
    Invoke,
}

/// Whether `call` goes into a plugin in `state` (`input_len` is the size of
/// the work handed to `plugin_process`, which must fit the scratch buffer).
pub open spec fn entry_spec(call: LifecycleCall, state: PluginState, input_len: nat) -> Option<Option<Seq<char>>> {
    match call {
        LifecycleCall::Activate => if state == PluginState::Active {
            None
        } else if state == PluginState::Initialized || state == PluginState::Inactive {
            Some(None)
        } else {
            Some(Some("plugin_activate called from "@ + state.spec_name()))
        },
        LifecycleCall::Process => if state != PluginState::Active {
            Some(Some("plugin_process called from "@ + state.spec_name()))
        } else if input_len > PROCESS_INPUT_PTR - 1 {
            Some(Some("plugin_process input exceeds scratch buffer"@))
        } else {
            Some(None)
        },
        LifecycleCall::Deactivate => if state == PluginState::Inactive {
            None
        } else if state != PluginState::Active {
            Some(Some("plugin_deactivate called from "@ + state.spec_name()))
        } else {
            Some(None)
        },
        LifecycleCall::Unload => if state == PluginState::Unloaded || state == PluginState::Skipped {
            None
        } else {
            Some(None)
        },
    }
}

/// The state after `call` from `state` ended with `outcome` (the
/// function's return code, or how the call failed).
pub open spec fn settle_state(call: LifecycleCall, state: PluginState, outcome: Result<i32, RuntimeError>) -> PluginState {
    match call {
        LifecycleCall::Unload => PluginState::Unloaded,
        _ => match outcome {
            Err(_) => state,
            Ok(code) => match call {
                LifecycleCall::Activate => if code == 0 { PluginState::Active } else { PluginState::Inactive },
                LifecycleCall::Deactivate => if code == 0 { PluginState::Inactive } else { PluginState::Unloaded },
                _ => if code < 0 { PluginState::Inactive } else { state },
            },
        },
    }
}

/// Whether `call` ending with `outcome` is a success.
pub open spec fn settle_ok(call: LifecycleCall, outcome: Result<i32, RuntimeError>) -> bool {
    match call {
        LifecycleCall::Unload => true,
        LifecycleCall::Process => outcome matches Ok(code) && code >= 0,
        _ => outcome == Ok::<i32, RuntimeError>(0),
    }
}

/// A plugin's lifecycle state and the rules that move it.
#[derive(Debug, Clone, Copy, PartialEq, Eq)]
pub struct PluginLifecycle {
    state: PluginState,
}

impl View for PluginLifecycle {
    type V = PluginState;

    closed spec fn view(&self) -> PluginState {
        self.state
    }
}

impl PluginLifecycle {
    /// A freshly instantiated plugin (`Loaded`).
    pub fn new() -> (r: Self)
        ensures
            r@ == PluginState::Loaded,
    {
        PluginLifecycle { state: PluginState::Loaded }
    }

    /// The current state.
    pub fn state(&self) -> (r: PluginState)
        ensures
            r == self@,
    {
        self.state
    }

    /// Record the end of `plugin_init`: initialized on success, skipped
    /// otherwise.
    pub fn finish_init(&mut self, result: &Result<(), SkipReason>)
        ensures
            final(self)@ == if result.is_ok() { PluginState::Initialized } else { PluginState::Skipped },
    {
        self.state = if result.is_ok() { PluginState::Initialized } else { PluginState::Skipped };
    }

    /// Whether `call` goes into the plugin now.
    pub fn enter(&self, call: LifecycleCall, input_len: usize) -> (r: Entry)
        ensures
            match entry_spec(call, self@, input_len as nat) {
                None => r == Entry::Settled,
                Some(None) => r == Entry::Invoke,
                Some(Some(m)) => r matches Entry::Refused(RuntimeError::InvalidState(x)) && x@ == m,
            },
    {
        let state = self.state;
        match call {
            LifecycleCall::Activate => {
                if matches!(state, PluginState::Active) {
                    Entry::Settled
                } else if matches!(state, PluginState::Initialized) || matches!(state, PluginState::Inactive) {
                    Entry::Invoke
                } else {
                    Entry::Refused(RuntimeError::InvalidState(prefixed("plugin_activate called from ", state.name())))
                }
            },
            LifecycleCall::Process => {
                if !matches!(state, PluginState::Active) {
                    Entry::Refused(RuntimeError::InvalidState(prefixed("plugin_process called from ", state.name())))
                } else if input_len > (PROCESS_INPUT_PTR - 1) as usize {
                    Entry::Refused(RuntimeError::InvalidState(owned("plugin_process input exceeds scratch buffer")))
                } else {
                    Entry::Invoke
                }
            },
            LifecycleCall::Deactivate => {
                if matches!(state, PluginState::Inactive) {
                    Entry::Settled
                } else if !matches!(state, PluginState::Active) {
                    Entry::Refused(RuntimeError::InvalidState(prefixed("plugin_deactivate called from ", state.name())))
                } else {
                    Entry::Invoke
                }
            },
            LifecycleCall::Unload => {
                if matches!(state, PluginState::Unloaded) || matches!(state, PluginState::Skipped) {
                    Entry::Settled
                } else {
                    Entry::Invoke
                }
            },
        }
    }

    /// Record how an invoked `call` ended: the function's return code, or
    /// how the call failed. A non-zero code demotes an activation to
    /// `Inactive`, a negative one a processing call, and unloads on
    /// deactivation; an engine failure leaves the state as it was; unloading
    /// always ends `Unloaded`.
    pub fn finish(&mut self, call: LifecycleCall, outcome: Result<i32, RuntimeError>) -> (r: Result<(), RuntimeError>)
        ensures
            final(self)@ == settle_state(call, old(self)@, outcome),
            r.is_ok() == settle_ok(call, outcome),
            match call {
                LifecycleCall::Unload => true,
                _ => match outcome {
                    Err(e) => r == Err::<(), RuntimeError>(e),
                    Ok(code) => !settle_ok(call, outcome) ==> r == Err::<(), RuntimeError>(
                        RuntimeError::LifecycleError { function: call.spec_export_static(), code },
                    ),
                },
            },
    {
        match call {
            LifecycleCall::Unload => {
                self.state = PluginState::Unloaded;
                Ok(())
            },
            _ => match outcome {
                Err(e) => Err(e),
                Ok(code) => {
                    match call {
                        LifecycleCall::Activate => {
                            if code == 0 {
                                self.state = PluginState::Active;
                                Ok(())
                            } else {
                                self.state = PluginState::Inactive;
                                Err(RuntimeError::LifecycleError { function: "plugin_activate", code })
                            }
                        },
                        LifecycleCall::Deactivate => {
                            if code == 0 {
                                self.state = PluginState::Inactive;
                                Ok(())
                            } else {
                                self.state = PluginState::Unloaded;
                                Err(RuntimeError::LifecycleError { function: "plugin_deactivate", code })
                            }
                        },
                        _ => {
                            if code < 0 {
                                self.state = PluginState::Inactive;
                                Err(RuntimeError::LifecycleError { function: "plugin_process", code })
                            } else {
                                Ok(())
                            }
                        },
                    }
                },
            },
        }
    }
}

impl LifecycleCall {
    /// The exported function's name as the static text errors carry.
    pub open spec fn spec_export_static(self) -> &'static str {
        match self {
            LifecycleCall::Activate => "plugin_activate",
            LifecycleCall::Process => "plugin_process",
            LifecycleCall::Deactivate => "plugin_deactivate",
            LifecycleCall::Unload => "plugin_unload",
        }
    }
}

// ── plugin log messages ─────────────────────────────────────────────────────

/// Severity of a message a plugin logs through the host.
#[derive(Debug, Clone, Copy, PartialEq, Eq, Structural)]
pub enum PluginLogLevel {
    Error,
    Warn,
    Info,
    Debug,
    Trace,
}

/// The severity of plugin log level number `level`: 0 error, 1 warning,
/// 2 info, 3 debug, anything higher trace.
pub fn plugin_log_level(level: u32) -> (r: PluginLogLevel)
    ensures
        r == if level == 0 {
            PluginLogLevel::Error
        } else if level == 1 {
            PluginLogLevel::Warn
        } else if level == 2 {
            PluginLogLevel::Info
        } else if level == 3 {
            PluginLogLevel::Debug
        } else {
            PluginLogLevel::Trace
        },
{
    match level {
        0 => PluginLogLevel::Error,
        1 => PluginLogLevel::Warn,
        2 => PluginLogLevel::Info,
        3 => PluginLogLevel::Debug,
        _ => PluginLogLevel::Trace,
    }
}

// ── per-plugin configuration ────────────────────────────────────────────────

/// A plugin's configuration values, written and read by the plugin through
/// the host (key → value, each key once).
#[derive(Debug)]
pub struct PluginConfig {
    entries: Vec<(String, String)>,
}

impl View for PluginConfig {
    type V = Map<Seq<char>, String>;

    closed spec fn view(&self) -> Map<Seq<char>, String> {
        assoc_view(self.entries@)
    }
}

impl PluginConfig {
    #[verifier::type_invariant]
    spec fn unique_keys(self) -> bool {
        keys_unique(self.entries@)
    }

    /// An empty configuration.
    pub fn new() -> (r: Self)
        ensures
            r@ == Map::<Seq<char>, String>::empty(),
    {
        let r = PluginConfig { entries: Vec::new() };
        assert(r@ =~= Map::<Seq<char>, String>::empty());
        r
    }

    /// The value stored under `key`, if any.
    pub fn read(&self, key: &str) -> (r: Option<&str>)
        ensures
            match r {
                Some(v) => self@.contains_key(key@) && v@ == self@[key@]@,
                None => !self@.contains_key(key@),
            },
    {
        proof {
            use_type_invariant(self);
            lemma_assoc_view(self.entries@);
        }
        match find_key(&self.entries, key) {
            Some(i) => Some(self.entries[i].1.as_str()),
            None => None,
        }
    }

    /// Store `value` under `key`, replacing an earlier value.
    pub fn write(&mut self, key: String, value: String)
        ensures
            final(self)@ == old(self)@.insert(key@, value),
    {
        proof {
            use_type_invariant(&*self);
            lemma_assoc_view(self.entries@);
        }
        match find_key(&self.entries, key.as_str()) {
            Some(i) => {
                proof {
                    lemma_assoc_update(self.entries@, i as int, value);
                }
                let ghost before = self.entries@;
                let mut entries: Vec<(String, String)> = Vec::new();
                std::mem::swap(&mut entries, &mut self.entries);
                entries.set(i, (key, value));
                proof {
                    let a = before.update(i as int, (key, value));
                    let b = before.update(i as int, (before[i as int].0, value));
                    assert(entries@ =~= a);
                    lemma_same_keys_same_view(a, b);
                    assert forall|x: int, y: int| 0 <= x < y < a.len() implies (#[trigger] a[x]).0@ != (#[trigger] a[y]).0@ by {
                        assert(b[x].0@ == a[x].0@ && b[y].0@ == a[y].0@);
                    }
                }
                self.entries = entries;
            },
            None => {
                proof {
                    lemma_assoc_push(self.entries@, key, value);
                }
                let mut entries: Vec<(String, String)> = Vec::new();
                std::mem::swap(&mut entries, &mut self.entries);
                entries.push((key, value));
                self.entries = entries;
            },
        }
    }
}

/// A plugin reads back what it wrote: after writing `value` under `key`,
/// reading `key` gives `value`, and every other key reads as before.
pub proof fn lemma_config_reads_back_writes(
    config: Map<Seq<char>, String>,
    key: Seq<char>,
    value: String,
    other: Seq<char>,
)
    requires
        other != key,
    ensures
        config.insert(key, value).contains_key(key),
        config.insert(key, value)[key] == value,
        config.insert(key, value).contains_key(other) == config.contains_key(other),
        config.contains_key(other) ==> config.insert(key, value)[other] == config[other],
{
}

/// How many bytes of a stored value of `value_len` bytes a plugin's
/// buffer of `buf_len` bytes receives.
pub fn config_copy_len(value_len: usize, buf_len: u32) -> (r: usize)
    ensures
        r == if value_len < buf_len { value_len as int } else { buf_len as int },
{
    if value_len < buf_len as usize {
        value_len
    } else {
        buf_len as usize
    }
}

/// Activation is idempotent and unloading final: an active plugin needs no
/// second activation, and an unloaded plugin is never invoked again (every
/// call is refused or settled, and none moves it out of `Unloaded`).
pub proof fn lemma_activation_idempotent_and_unload_final(call: LifecycleCall, input_len: nat)
    ensures
        entry_spec(LifecycleCall::Activate, PluginState::Active, input_len) is None,
        !(entry_spec(call, PluginState::Unloaded, input_len) == Some(None::<Seq<char>>)),
{
}

/// A plugin that answers with an error code never stays active: a failed
/// activation or processing call leaves it `Inactive` (retryable), a
/// failed deactivation `Unloaded`.
pub proof fn lemma_error_codes_demote(call: LifecycleCall, state: PluginState, code: i32)
    requires
        call != LifecycleCall::Unload,
        !settle_ok(call, Ok(code)),
    ensures
        settle_state(call, state, Ok(code)) != PluginState::Active,
        call == LifecycleCall::Deactivate ==> settle_state(call, state, Ok(code)) == PluginState::Unloaded,
        call != LifecycleCall::Deactivate ==> settle_state(call, state, Ok(code)) == PluginState::Inactive,
{
}

} // verus!

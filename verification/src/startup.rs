//! Runtime configurator: the startup fallback chain and the on-demand
//! project-data query.
//!
//! At startup the embedding application walks footer reader, archive
//! extractor and settings resolver in order and reports what happened; the
//! verified step function here decides the next state, and every failure
//! tier collapses to the built-in defaults so the window always opens.  The
//! query path answers "where is the project data" and is the one place
//! where failure is surfaced, since that question has no safe default.

use vstd::prelude::*;
use vstd::string::StringExecFns;
use crate::archive::{plan_of, plan_view, extract_entries, ExtractAction};
use crate::footer::archive_of;
use crate::manifest::{GameSettings, GameSettingsV, opt_settings_view, opt_str_view, settings_of, read_game_settings};

verus! {

/// Default window width when no setting supplies one.
pub const DEFAULT_WIDTH: u32 = 1280;

/// Default window height when no setting supplies one.
pub const DEFAULT_HEIGHT: u32 = 720;

/// Default window title: the product name.
pub open spec fn default_title() -> Seq<char> {
    "StoryNode Player"@
}

/// The error reported when neither embedded data nor a local manifest is
/// found.
pub open spec fn no_data_error() -> Seq<char> {
    "No game data found"@
}

/// The window configuration applied before the window is shown.
pub struct WindowConfig {
    pub title: String,
    pub width: u32,
    pub height: u32,
}

/// The mathematical value of a window configuration.
pub struct WindowConfigV {
    pub title: Seq<char>,
    pub width: u32,
    pub height: u32,
}

impl View for WindowConfig {
    type V = WindowConfigV;

    open spec fn view(&self) -> WindowConfigV {
        WindowConfigV { title: self.title@, width: self.width, height: self.height }
    }
}

/// The built-in default configuration.
pub open spec fn default_config() -> WindowConfigV {
    WindowConfigV { title: default_title(), width: DEFAULT_WIDTH, height: DEFAULT_HEIGHT }
}

/// The configuration a (possibly absent) settings block resolves to: each
/// field defaults independently of the others.
pub open spec fn resolved_config(s: Option<GameSettingsV>) -> WindowConfigV {
    match s {
        None => default_config(),
        Some(gs) => WindowConfigV {
            title: match gs.title {
                Some(t) => t,
                None => default_title(),
            },
            width: match gs.window_width {
                Some(w) => w,
                None => DEFAULT_WIDTH,
            },
            height: match gs.window_height {
                Some(h) => h,
                None => DEFAULT_HEIGHT,
            },
        },
    }
}

/// Applies the per-field defaulting table to resolved settings.
pub fn resolve_window_config(s: &Option<GameSettings>) -> (r: WindowConfig)
    ensures
        r@ == resolved_config(opt_settings_view(*s)),
{
    match s {
        None => WindowConfig {
            title: String::from_str("StoryNode Player"),
            width: DEFAULT_WIDTH,
            height: DEFAULT_HEIGHT,
        },
        Some(gs) => WindowConfig {
            title: match &gs.title {
                Some(t) => t.clone(),
                None => String::from_str("StoryNode Player"),
            },
            width: match gs.window_width {
                Some(w) => w,
                None => DEFAULT_WIDTH,
            },
            height: match gs.window_height {
                Some(h) => h,
                None => DEFAULT_HEIGHT,
            },
        },
    }
}

/// The whole startup resolution in one step: the manifest text read from a
/// successful extraction, or `None` at any earlier failure tier, becomes
/// the configuration to apply.
pub fn startup_window_config(manifest_text: &Option<String>) -> (r: WindowConfig)
    ensures
        r@ == resolved_config(settings_of(opt_str_view(*manifest_text))),
{
    let settings = read_game_settings(manifest_text);
    resolve_window_config(&settings)
}

/// With no manifest the resolver reports no settings, and the configurator
/// falls back to the built-in defaults.
pub proof fn lemma_absent_manifest_defaults()
    ensures
        settings_of(None) is None,
        resolved_config(settings_of(None)) == default_config(),
{
}

/// Fields default independently: a present width is honoured even while an
/// absent height falls back to its own default.
pub proof fn lemma_fields_default_independently(gs: GameSettingsV)
    requires
        gs.window_width is Some,
        gs.window_height is None,
    ensures
        resolved_config(Some(gs)).width == gs.window_width->0,
        resolved_config(Some(gs)).height == DEFAULT_HEIGHT,
{
}

/// The runtime configurator's startup progress.
pub enum StartupState {
    /// Nothing has been resolved yet.
    Unresolved,
    /// The embedded archive was extracted into the working directory.
    Extracted,
    /// The manifest was read, or found absent, after extraction.
    SettingsLoaded(Option<GameSettings>),
    /// A configuration was fixed; startup resolution is over.
    Configured(WindowConfig),
}

/// What the embedding application reports back to the configurator.
pub enum StartupEvent {
    /// The host binary carries no embedded data.
    ArchiveAbsent,
    /// The extraction plan was applied to the working directory in full.
    ExtractionDone,
    /// Extraction failed; the working directory is not to be trusted.
    ExtractionFailed,
    /// The manifest text found in the working directory, if any.
    ManifestRead(Option<String>),
    /// Resolution is requested from the settings at hand.
    Configure,
}

/// The spec-level startup state.
pub enum StartupStateV {
    Unresolved,
    Extracted,
    SettingsLoaded(Option<GameSettingsV>),
    Configured(WindowConfigV),
}

/// The value a startup state holds.
pub open spec fn startup_state_view(s: StartupState) -> StartupStateV {
    match s {
        StartupState::Unresolved => StartupStateV::Unresolved,
        StartupState::Extracted => StartupStateV::Extracted,
        StartupState::SettingsLoaded(gs) => StartupStateV::SettingsLoaded(opt_settings_view(gs)),
        StartupState::Configured(c) => StartupStateV::Configured(c@),
    }
}

/// The spec-level startup event.
pub enum StartupEventV {
    ArchiveAbsent,
    ExtractionDone,
    ExtractionFailed,
    ManifestRead(Option<Seq<char>>),
    Configure,
}

/// The value a startup event holds.
pub open spec fn startup_event_view(e: StartupEvent) -> StartupEventV {
    match e {
        StartupEvent::ArchiveAbsent => StartupEventV::ArchiveAbsent,
        StartupEvent::ExtractionDone => StartupEventV::ExtractionDone,
        StartupEvent::ExtractionFailed => StartupEventV::ExtractionFailed,
        StartupEvent::ManifestRead(t) => StartupEventV::ManifestRead(opt_str_view(t)),
        StartupEvent::Configure => StartupEventV::Configure,
    }
}

/// The transition rule of the startup state machine: any failure tier
/// short-circuits to the built-in defaults, success walks one stage
/// further, and once configured the state never changes.
pub open spec fn startup_next(s: StartupStateV, e: StartupEventV) -> StartupStateV {
    match (s, e) {
        (StartupStateV::Unresolved, StartupEventV::ArchiveAbsent) => StartupStateV::Configured(
            default_config(),
        ),
        (StartupStateV::Unresolved, StartupEventV::ExtractionFailed) => StartupStateV::Configured(
            default_config(),
        ),
        (StartupStateV::Unresolved, StartupEventV::ExtractionDone) => StartupStateV::Extracted,
        (StartupStateV::Extracted, StartupEventV::ManifestRead(t)) => StartupStateV::SettingsLoaded(
            settings_of(t),
        ),
        (StartupStateV::SettingsLoaded(gs), StartupEventV::Configure) => StartupStateV::Configured(
            resolved_config(gs),
        ),
        (other, _) => other,
    }
}

/// One step of the startup state machine.
pub fn startup_step(state: StartupState, event: StartupEvent) -> (next: StartupState)
    ensures
        startup_state_view(next) == startup_next(startup_state_view(state), startup_event_view(event)),
{
    match (state, event) {
        (StartupState::Unresolved, StartupEvent::ArchiveAbsent) => StartupState::Configured(
            resolve_window_config(&None),
        ),
        (StartupState::Unresolved, StartupEvent::ExtractionFailed) => StartupState::Configured(
            resolve_window_config(&None),
        ),
        (StartupState::Unresolved, StartupEvent::ExtractionDone) => StartupState::Extracted,
        (StartupState::Extracted, StartupEvent::ManifestRead(t)) => StartupState::SettingsLoaded(
            read_game_settings(&t),
        ),
        (StartupState::SettingsLoaded(gs), StartupEvent::Configure) => StartupState::Configured(
            resolve_window_config(&gs),
        ),
        (other, _) => other,
    }
}

/// Startup can only ever end in a configured window: whatever events
/// arrive, a configured state never changes again.
pub proof fn lemma_configured_is_final(c: WindowConfigV, e: StartupEventV)
    ensures
        startup_next(StartupStateV::Configured(c), e) == StartupStateV::Configured(c),
{
}

/// Where the project data lives, as the query path reports it.
#[derive(Debug, PartialEq, Eq)]
pub enum DataSource {
    /// The working directory, once the carried plan has been applied to it.
    WorkingDir(Vec<ExtractAction>),
    /// The current directory, which already holds a manifest.
    CurrentDir,
}

/// The on-demand query for the project root.  Embedded data, when present,
/// must extract — its failure is surfaced here, unlike at startup; without
/// embedded data the current directory serves if it holds a manifest, and
/// otherwise the query fails with the explicit error.
pub fn get_game_data_path(exe_image: &Vec<u8>, cwd_has_manifest: bool) -> (r: Result<
    DataSource,
    String,
>)
    ensures
        match archive_of(exe_image@) {
            Some(ar) => {
                &&& (r is Ok) == (plan_of(ar) is Some)
                &&& (r matches Ok(d) ==> d matches DataSource::WorkingDir(v) && Some(plan_view(v@))
                    == plan_of(ar))
            },
            None => {
                &&& (r is Ok) == cwd_has_manifest
                &&& (r matches Ok(d) ==> d is CurrentDir)
                &&& (r matches Err(e) ==> e@ == no_data_error())
            },
        },
{
    match crate::footer::embedded_archive(exe_image) {
        Some(ar) => match extract_entries(&ar) {
            Ok(plan) => Ok(DataSource::WorkingDir(plan)),
            Err(e) => Err(e),
        },
        None => {
            if cwd_has_manifest {
                Ok(DataSource::CurrentDir)
            } else {
                Err(String::from_str("No game data found"))
            }
        },
    }
}

} // verus!

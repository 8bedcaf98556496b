//! The session state: the clipboard handle, the loaded configuration and
//! the current mode, with the operations the hotkey worker invokes.
//!
//! Reading and writing the config file, the environment and the synthetic
//! paste keystrokes stay outside; the session takes file contents and the
//! credential as plain values and reports what must be done.

use vstd::prelude::*;
use crate::codec::config_spec;
use crate::config::{default_config_model, ConfigModel, PromptsConfig};
use crate::cursor::{next_mode, next_mode_spec};
use crate::engine::{call_openrouter, resolve_instruction};
use crate::error::PipelineError;
use crate::text::{chars_of, is_blank_chars};

verus! {

#[verifier::external_type_specification]
#[verifier::external_body]
pub struct ExClipboard(arboard::Clipboard);

/// Relies on arboard::Clipboard::new: a handle to the system clipboard.
#[verifier::external_body]
fn clipboard_new() -> (r: Result<arboard::Clipboard, ()>)
{
    match arboard::Clipboard::new() {
        Ok(c) => Ok(c),
        Err(_) => Err(()),
    }
}

/// Relies on arboard::Clipboard::get_text: the clipboard's current text,
/// when it holds text at all.
#[verifier::external_body]
fn clipboard_get_text(cb: &mut arboard::Clipboard) -> (r: Result<String, ()>)
{
    match cb.get_text() {
        Ok(t) => Ok(t),
        Err(_) => Err(()),
    }
}

/// Relies on arboard::Clipboard::set_text: replaces the clipboard's
/// content with the given text.
#[verifier::external_body]
fn clipboard_set_text(cb: &mut arboard::Clipboard, text: &str) -> (r: Result<(), ()>)
{
    match cb.set_text(text.to_string()) {
        Ok(()) => Ok(()),
        Err(_) => Err(()),
    }
}

/// What one transform trigger did, for the caller to act on.
#[derive(Debug, Clone, PartialEq, Eq)]
pub enum TransformOutcome {
    /// The clipboard was blank: no API call was made, nothing changed.
    SkippedEmpty,
    /// The clipboard now holds this transformed text; the caller must
    /// simulate exactly one paste keystroke sequence.
    Transformed(String),
}

/// The configuration the session holds after a reload attempt: the prior
/// one when the file is gone, the parsed one when the text parses, and
/// nothing (the reload fails) when it does not.
pub open spec fn reload_result(current: ConfigModel, latest: Option<&String>) -> Option<
    ConfigModel,
> {
    match latest {
        None => Some(current),
        Some(s) => config_spec(s@),
    }
}

/// The long-lived session state, owned by the hotkey worker.
pub struct App {
    pub clipboard: arboard::Clipboard,
    pub config: PromptsConfig,
    pub current_mode: String,
    pub config_path: String,
}

impl App {
    /// Create the session state. `config_path` is where the config lives
    /// on disk; `existing` is that file's content, `None` when the file is
    /// absent. On success, a returned text is the fresh default config
    /// that the caller must persist at `config_path`.
    pub fn new(config_path: String, existing: Option<&String>) -> (r: Result<
        (App, Option<String>),
        PipelineError,
    >)
        ensures
            match r {
                Ok(p) => p.0.current_mode@ == p.0.config@.default_mode && p.0.config_path@
                    == config_path@ && match existing {
                    Some(s) => config_spec(s@) == Some(p.0.config@) && p.1 is None,
                    None => p.0.config@ == default_config_model() && (p.1 matches Some(t) && t@
                        == crate::codec::rendered_config(default_config_model())),
                },
                Err(e) => e == PipelineError::ClipboardAccess || (e == PipelineError::ConfigCorrupt
                    && (existing matches Some(s) && config_spec(s@) is None)),
            },
    {
        let clipboard = match clipboard_new() {
            Ok(c) => c,
            Err(_) => {
                return Err(PipelineError::ClipboardAccess);
            },
        };
        let (config, to_write) = match PromptsConfig::load_or_init(existing) {
            Ok(p) => p,
            Err(e) => {
                return Err(e);
            },
        };
        let current_mode = config.default_mode.clone();
        Ok((App { clipboard, config, current_mode, config_path }, to_write))
    }

    /// Refresh the configuration from the file's current content; a
    /// missing file leaves the prior config untouched (reload is a
    /// best-effort refresh), a file that does not parse fails and changes
    /// nothing.
    pub fn reload_config(&mut self, latest: Option<&String>) -> (r: Result<(), PipelineError>)
        ensures
            final(self).current_mode == old(self).current_mode,
            final(self).config_path == old(self).config_path,
            match reload_result(old(self).config@, latest) {
                Some(m) => r is Ok && final(self).config@ == m,
                None => r == Err::<(), PipelineError>(PipelineError::ConfigCorrupt)
                    && final(self).config == old(self).config,
            },
    {
        match latest {
            None => Ok(()),
            Some(s) => {
                match crate::codec::parse_config(s.as_str()) {
                    Ok(c) => {
                        self.config = c;
                        Ok(())
                    },
                    Err(e) => Err(e),
                }
            },
        }
    }

    /// Reload the config, then advance the current mode to the next
    /// configured one; the config text is the file's current content,
    /// `None` when the file is missing. Fails with `ConfigCorrupt` on a
    /// bad file (nothing changes) and with `NoModesConfigured` on an
    /// empty mode set (the current mode is kept).
    pub fn cycle_mode(&mut self, latest: Option<&String>) -> (r: Result<(), PipelineError>)
        ensures
            final(self).config_path == old(self).config_path,
            match reload_result(old(self).config@, latest) {
                None => r == Err::<(), PipelineError>(PipelineError::ConfigCorrupt)
                    && final(self).config == old(self).config
                    && final(self).current_mode == old(self).current_mode,
                Some(m) => final(self).config@ == m && (if m.modes.len() == 0 {
                    r == Err::<(), PipelineError>(PipelineError::NoModesConfigured)
                        && final(self).current_mode == old(self).current_mode
                } else {
                    r is Ok && final(self).current_mode@ == next_mode_spec(
                        m,
                        old(self).current_mode@,
                    )
                }),
            },
    {
        match self.reload_config(latest) {
            Ok(_) => {},
            Err(e) => {
                return Err(e);
            },
        }
        match next_mode(&self.config, &self.current_mode) {
            Ok(next) => {
                self.current_mode = next;
                Ok(())
            },
            Err(e) => Err(e),
        }
    }

    /// One transform trigger: read the clipboard; a blank clipboard is a
    /// silent no-op. Otherwise resolve the current mode's instruction,
    /// call the text-generation API, put the non-empty trimmed result on
    /// the clipboard and tell the caller to paste it. Performs the
    /// network request and touches the system clipboard.
    ///
    /// The config and the current mode are never changed here; a success
    /// carries a non-empty text; every failure is one of the per-trigger
    /// transform errors, left recoverable for the worker loop.
    pub fn transform_clipboard(&mut self, api_key: Option<&str>) -> (r: Result<
        TransformOutcome,
        PipelineError,
    >)
        ensures
            final(self).config == old(self).config,
            final(self).current_mode == old(self).current_mode,
            final(self).config_path == old(self).config_path,
            r matches Ok(TransformOutcome::Transformed(t)) ==> t@.len() > 0,
            r matches Err(e) ==> (e is CredentialMissing || e is TransportFailure || e
                is ApiStatusFailure || e is MalformedResponse || e is EmptyGeneration || e
                is ClipboardAccess),
    {
        let text = match clipboard_get_text(&mut self.clipboard) {
            Ok(t) => t,
            Err(_) => {
                return Err(PipelineError::ClipboardAccess);
            },
        };
        let tv = chars_of(text.as_str());
        if is_blank_chars(&tv) {
            return Ok(TransformOutcome::SkippedEmpty);
        }
        let prompt = resolve_instruction(&self.config, &self.current_mode);
        match call_openrouter(api_key, text.as_str(), prompt.as_str()) {
            Ok(transformed) => {
                match clipboard_set_text(&mut self.clipboard, transformed.as_str()) {
                    Ok(_) => Ok(TransformOutcome::Transformed(transformed)),
                    Err(_) => Err(PipelineError::ClipboardAccess),
                }
            },
            Err(e) => Err(e),
        }
    }
}

} // verus!

//! The two configuration documents that the application starts from: its
//! own settings and those of the window framework, both JSON.

use vstd::prelude::*;

verus! {

/// `serde_json::Value`, a JSON value, carried through as it is.
#[verifier::external_type_specification]
#[verifier::external_body]
pub struct ExJsonValue(serde_json::Value);

/// `serde_json::Error`, the reason why a text was not read, carried
/// through as it is.
#[verifier::external_type_specification]
#[verifier::external_body]
pub struct ExJsonError(serde_json::Error);

/// What `serde_json::from_str` makes of a text that is read as a
/// `serde_json::Value`: the value, or the reason why there is none.
pub uninterp spec fn json_reading(text: Seq<char>) -> Result<serde_json::Value, serde_json::Error>;

/// Whether a text is read as a JSON value.
pub open spec fn is_json_document(text: Seq<char>) -> bool {
    json_reading(text) is Ok
}

/// Calls `serde_json::from_str` for a `serde_json::Value`. Trusted: the
/// reading depends on the text alone and is named `json_reading`; nothing
/// is claimed of which texts are read nor of what the value holds.
#[verifier::external_body]
pub(crate) fn parse_document(text: &str) -> (r: Result<serde_json::Value, serde_json::Error>)
    ensures
        r == json_reading(text@),
{
    serde_json::from_str::<serde_json::Value>(text)
}

/// The two documents, read.
pub struct ConfigDocuments {
    /// The application's own settings.
    pub pake: serde_json::Value,
    /// The settings of the window framework.
    pub tauri: serde_json::Value,
}

/// The document that could not be read, with the reason.
pub enum ConfigError {
    /// The application's own settings are no JSON.
    PakeConfig(serde_json::Error),
    /// The settings of the window framework are no JSON.
    TauriConfig(serde_json::Error),
}

/// What comes of the two readings: both documents, each in its own place,
/// or the first of the two that failed, the application's own settings
/// before the framework's.
pub open spec fn paired(
    pake: Result<serde_json::Value, serde_json::Error>,
    tauri: Result<serde_json::Value, serde_json::Error>,
) -> Result<ConfigDocuments, ConfigError> {
    match pake {
        Err(e) => Err(ConfigError::PakeConfig(e)),
        Ok(p) => match tauri {
            Err(e) => Err(ConfigError::TauriConfig(e)),
            Ok(t) => Ok(ConfigDocuments { pake: p, tauri: t }),
        },
    }
}

/// Puts the two readings together.
pub fn pair_documents(
    pake: Result<serde_json::Value, serde_json::Error>,
    tauri: Result<serde_json::Value, serde_json::Error>,
) -> (r: Result<ConfigDocuments, ConfigError>)
    ensures
        r == paired(pake, tauri),
{
    match pake {
        Err(e) => Err(ConfigError::PakeConfig(e)),
        Ok(p) => match tauri {
            Err(e) => Err(ConfigError::TauriConfig(e)),
            Ok(t) => Ok(ConfigDocuments { pake: p, tauri: t }),
        },
    }
}

/// Reads the two configuration documents from their texts, which both are
/// JSON: the application's own settings come first, the framework's second,
/// each the reading of its own text. The same texts give the same pair.
pub fn get_pake_config(pake_text: &str, tauri_text: &str) -> (r: ConfigDocuments)
    requires
        is_json_document(pake_text@),
        is_json_document(tauri_text@),
    ensures
        Ok::<ConfigDocuments, ConfigError>(r) == paired(
            json_reading(pake_text@),
            json_reading(tauri_text@),
        ),
        json_reading(pake_text@) == Ok::<serde_json::Value, serde_json::Error>(r.pake),
        json_reading(tauri_text@) == Ok::<serde_json::Value, serde_json::Error>(r.tauri),
{
    let pake = parse_document(pake_text);
    let tauri = parse_document(tauri_text);
    match pair_documents(pake, tauri) {
        Ok(documents) => documents,
        Err(_) => vstd::pervasive::unreached(),
    }
}

/// Reads the two configuration documents from any two texts. Both are read
/// if and only if both are JSON; else the error names the first that is
/// not, with the reason, and no pair is made.
pub fn read_pake_config(pake_text: &str, tauri_text: &str) -> (r: Result<
    ConfigDocuments,
    ConfigError,
>)
    ensures
        r == paired(json_reading(pake_text@), json_reading(tauri_text@)),
        r is Ok <==> is_json_document(pake_text@) && is_json_document(tauri_text@),
        (r matches Err(ConfigError::PakeConfig(_))) <==> !is_json_document(pake_text@),
        (r matches Err(ConfigError::TauriConfig(_))) <==> is_json_document(pake_text@)
            && !is_json_document(tauri_text@),
{
    match parse_document(pake_text) {
        Err(e) => Err(ConfigError::PakeConfig(e)),
        Ok(_) => match parse_document(tauri_text) {
            Err(e) => Err(ConfigError::TauriConfig(e)),
            Ok(_) => Ok(get_pake_config(pake_text, tauri_text)),
        },
    }
}

} // verus!

//! The error kinds that the synthesizer surfaces, and their mapping onto the
//! numeric result codes of the C interface.
//!
//! Every failure is reported to the caller; nothing is retried silently.

use vstd::prelude::*;
use crate::model::{StyleId, VoiceModelId};

verus! {

/// Why loading a voice model failed.
#[derive(Clone, Copy, Debug, PartialEq, Eq, Structural)]
pub enum LoadModelErrorKind {
    /// The model archive could not be opened.
    OpenZipFile,
    /// An entry of the model archive could not be read.
    ReadZipEntry,
    /// A model with the same identifier is already loaded.
    ModelAlreadyLoaded,
    /// A style of the model is already owned by another loaded model.
    StyleAlreadyLoaded,
    /// One of the inference graph payloads failed to parse.
    InvalidModelData,
}

/// An error of the synthesis library.
#[derive(Clone, Copy, Debug, PartialEq, Eq, Structural)]
pub enum Error {
    /// The text analyzer was used before its dictionary was loaded.
    NotLoadedOpenjtalkDict,
    /// GPU inference was requested but no GPU backend is usable.
    GpuSupport,
    /// Loading a voice model failed.
    LoadModel(LoadModelErrorKind),
    /// The device-support probe failed.
    GetSupportedDevices,
    /// The style was never part of a loaded voice model.
    InvalidStyleId(StyleId),
    /// No loaded voice model has this identifier.
    InvalidModelId(VoiceModelId),
    /// The style is known but its owning model was unloaded.
    UnloadedModel(VoiceModelId),
    /// A neural inference run failed or returned ill-shaped output.
    InferenceFailed,
    /// The text analyzer could not produce full-context labels.
    ExtractFullContextLabel,
    /// The kana notation could not be parsed.
    ParseKana,
    /// A user dictionary could not be loaded.
    LoadUserDict,
    /// A user dictionary could not be saved.
    SaveUserDict,
    /// A word was not found in the user dictionary.
    UnknownWord,
    /// The user dictionary could not be applied.
    UseUserDict,
    /// A user dictionary word is invalid.
    InvalidWord,
}

/// The result type of the library's fallible operations.
pub type VvResult<T> = Result<T, Error>;

/// The numeric result codes of the C interface.
#[derive(Clone, Copy, Debug, PartialEq, Eq, Structural)]
pub enum VoicevoxResultCode {
    Succeeded,
    NotLoadedOpenjtalkDictError,
    GpuSupportError,
    OpenZipFileError,
    ReadZipEntryError,
    ModelAlreadyLoadedError,
    StyleAlreadyLoadedError,
    InvalidModelDataError,
    GetSupportedDevicesError,
    InvalidStyleIdError,
    InvalidModelIdError,
    InferenceError,
    ExtractFullContextLabelError,
    UnloadedModelError,
    ParseKanaError,
    LoadUserDictError,
    SaveUserDictError,
    UnknownUserDictWordError,
    UseUserDictError,
    InvalidUserDictWordError,
    InvalidUtf8InputError,
    InvalidAudioQueryError,
    InvalidAccentPhraseError,
    InvalidUuidError,
}

/// The result code that an error maps to.
pub open spec fn spec_result_code_of_error(e: Error) -> VoicevoxResultCode {
    match e {
        Error::NotLoadedOpenjtalkDict => VoicevoxResultCode::NotLoadedOpenjtalkDictError,
        Error::GpuSupport => VoicevoxResultCode::GpuSupportError,
        Error::LoadModel(kind) => match kind {
            LoadModelErrorKind::OpenZipFile => VoicevoxResultCode::OpenZipFileError,
            LoadModelErrorKind::ReadZipEntry => VoicevoxResultCode::ReadZipEntryError,
            LoadModelErrorKind::ModelAlreadyLoaded => VoicevoxResultCode::ModelAlreadyLoadedError,
            LoadModelErrorKind::StyleAlreadyLoaded => VoicevoxResultCode::StyleAlreadyLoadedError,
            LoadModelErrorKind::InvalidModelData => VoicevoxResultCode::InvalidModelDataError,
        },
        Error::GetSupportedDevices => VoicevoxResultCode::GetSupportedDevicesError,
        Error::InvalidStyleId(_) => VoicevoxResultCode::InvalidStyleIdError,
        Error::InvalidModelId(_) => VoicevoxResultCode::InvalidModelIdError,
        Error::UnloadedModel(_) => VoicevoxResultCode::UnloadedModelError,
        Error::InferenceFailed => VoicevoxResultCode::InferenceError,
        Error::ExtractFullContextLabel => VoicevoxResultCode::ExtractFullContextLabelError,
        Error::ParseKana => VoicevoxResultCode::ParseKanaError,
        Error::LoadUserDict => VoicevoxResultCode::LoadUserDictError,
        Error::SaveUserDict => VoicevoxResultCode::SaveUserDictError,
        Error::UnknownWord => VoicevoxResultCode::UnknownUserDictWordError,
        Error::UseUserDict => VoicevoxResultCode::UseUserDictError,
        Error::InvalidWord => VoicevoxResultCode::InvalidUserDictWordError,
    }
}

/// Maps an error to its result code.
pub fn error_result_code(e: &Error) -> (r: VoicevoxResultCode)
    ensures
        r == spec_result_code_of_error(*e),
{
    match e {
        Error::NotLoadedOpenjtalkDict => VoicevoxResultCode::NotLoadedOpenjtalkDictError,
        Error::GpuSupport => VoicevoxResultCode::GpuSupportError,
        Error::LoadModel(kind) => match kind {
            LoadModelErrorKind::OpenZipFile => VoicevoxResultCode::OpenZipFileError,
            LoadModelErrorKind::ReadZipEntry => VoicevoxResultCode::ReadZipEntryError,
            LoadModelErrorKind::ModelAlreadyLoaded => VoicevoxResultCode::ModelAlreadyLoadedError,
            LoadModelErrorKind::StyleAlreadyLoaded => VoicevoxResultCode::StyleAlreadyLoadedError,
            LoadModelErrorKind::InvalidModelData => VoicevoxResultCode::InvalidModelDataError,
        },
        Error::GetSupportedDevices => VoicevoxResultCode::GetSupportedDevicesError,
        Error::InvalidStyleId(_) => VoicevoxResultCode::InvalidStyleIdError,
        Error::InvalidModelId(_) => VoicevoxResultCode::InvalidModelIdError,
        Error::UnloadedModel(_) => VoicevoxResultCode::UnloadedModelError,
        Error::InferenceFailed => VoicevoxResultCode::InferenceError,
        Error::ExtractFullContextLabel => VoicevoxResultCode::ExtractFullContextLabelError,
        Error::ParseKana => VoicevoxResultCode::ParseKanaError,
        Error::LoadUserDict => VoicevoxResultCode::LoadUserDictError,
        Error::SaveUserDict => VoicevoxResultCode::SaveUserDictError,
        Error::UnknownWord => VoicevoxResultCode::UnknownUserDictWordError,
        Error::UseUserDict => VoicevoxResultCode::UseUserDictError,
        Error::InvalidWord => VoicevoxResultCode::InvalidUserDictWordError,
    }
}

/// Maps the outcome of an operation to its result code: success has its own
/// code, an error the code of its kind.
pub fn into_result_code(result: &Result<(), Error>) -> (r: VoicevoxResultCode)
    ensures
        result is Ok ==> r == VoicevoxResultCode::Succeeded,
        result is Err ==> r == spec_result_code_of_error(result->Err_0),
{
    match result {
        Ok(()) => VoicevoxResultCode::Succeeded,
        Err(e) => error_result_code(e),
    }
}

} // verus!

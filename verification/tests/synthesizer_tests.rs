use voicevox_core::error::{Error, LoadModelErrorKind, VoicevoxResultCode};
use voicevox_core::error::{error_result_code, into_result_code};
use voicevox_core::model::{SpeakerMeta, StyleId, StyleMeta, VoiceModel, VoiceModelId};
use voicevox_core::synthesizer::{
    AccelerationMode, AccentPhrasesOptions, AudioQueryOptions, InitializeOptions,
    SupportedDevices, SynthesisOptions, Synthesizer, TtsOptions, VoicevoxAccelerationMode,
};
use voicevox_core::user_dict::{UserDictWordType, VoicevoxUserDictWordType};

fn cpu_options() -> InitializeOptions {
    InitializeOptions {
        acceleration_mode: AccelerationMode::Cpu,
        cpu_num_threads: 0,
        load_all_models: false,
    }
}

fn test_model(model_id: u128, style_ids: &[u32]) -> VoiceModel {
    let styles: Vec<StyleMeta> = style_ids
        .iter()
        .map(|&id| StyleMeta { id: StyleId::new(id), name: format!("style{id}") })
        .collect();
    VoiceModel {
        id: VoiceModelId::new(model_id),
        metas: vec![SpeakerMeta {
            name: "speaker".to_string(),
            speaker_uuid: "00000000-0000-0000-0000-000000000000".to_string(),
            styles,
            version: "0.0.1".to_string(),
        }],
    }
}

fn fresh_synthesizer() -> Synthesizer {
    Synthesizer::new_with_initialize(false, None, false, &cpu_options()).unwrap()
}

#[test]
fn is_use_gpu_works() {
    let synthesizer = fresh_synthesizer();
    assert!(!synthesizer.is_gpu_mode());
}

#[test]
fn fresh_synthesizer_has_no_styles() {
    let synthesizer = fresh_synthesizer();
    assert!(!synthesizer.is_loaded_model_by_style_id(StyleId::new(1)));
}

#[test]
fn load_model_works() {
    let mut synthesizer = fresh_synthesizer();
    let result = synthesizer.load_voice_model(test_model(1, &[1]));
    assert!(result.is_ok(), "got load_model result {result:?}");
}

#[test]
fn is_loaded_model_by_style_id_works() {
    let style_id = StyleId::new(1);
    let mut synthesizer = fresh_synthesizer();
    assert!(
        !synthesizer.is_loaded_model_by_style_id(style_id),
        "expected is_model_loaded to return false, but got true",
    );
    synthesizer.load_voice_model(test_model(1, &[1])).unwrap();
    assert!(synthesizer.is_loaded_model_by_style_id(style_id));
}

#[test]
fn loaded_model_is_visible_and_unload_removes_it() {
    let mut synthesizer = fresh_synthesizer();
    let id = VoiceModelId::new(42);
    synthesizer.load_voice_model(test_model(42, &[3, 7])).unwrap();
    assert!(synthesizer.is_loaded_voice_model(id));
    assert!(synthesizer.is_loaded_model_by_style_id(StyleId::new(3)));
    assert!(synthesizer.is_loaded_model_by_style_id(StyleId::new(7)));

    synthesizer.unload_voice_model(id).unwrap();
    assert!(!synthesizer.is_loaded_voice_model(id));
    assert!(!synthesizer.is_loaded_model_by_style_id(StyleId::new(3)));
    assert!(!synthesizer.is_loaded_model_by_style_id(StyleId::new(7)));
}

#[test]
fn unload_of_absent_model_fails() {
    let mut synthesizer = fresh_synthesizer();
    let id = VoiceModelId::new(9);
    assert_eq!(synthesizer.unload_voice_model(id), Err(Error::InvalidModelId(id)));
}

#[test]
fn duplicate_model_id_is_rejected() {
    let mut synthesizer = fresh_synthesizer();
    synthesizer.load_voice_model(test_model(5, &[1])).unwrap();
    let result = synthesizer.load_voice_model(test_model(5, &[2]));
    assert_eq!(result, Err(Error::LoadModel(LoadModelErrorKind::ModelAlreadyLoaded)));
    assert!(!synthesizer.is_loaded_model_by_style_id(StyleId::new(2)));
}

#[test]
fn duplicate_style_is_rejected() {
    let mut synthesizer = fresh_synthesizer();
    synthesizer.load_voice_model(test_model(5, &[1])).unwrap();
    let result = synthesizer.load_voice_model(test_model(6, &[1]));
    assert_eq!(result, Err(Error::LoadModel(LoadModelErrorKind::StyleAlreadyLoaded)));
    assert!(!synthesizer.is_loaded_voice_model(VoiceModelId::new(6)));
}

#[test]
fn metas_reflect_loaded_models() {
    let mut synthesizer = fresh_synthesizer();
    assert_eq!(synthesizer.metas().len(), 0);
    synthesizer.load_voice_model(test_model(1, &[1, 2])).unwrap();
    synthesizer.load_voice_model(test_model(2, &[3])).unwrap();
    let metas = synthesizer.metas();
    assert_eq!(metas.len(), 2);
    assert_eq!(metas[0].styles.len(), 2);
    assert_eq!(metas[1].styles.len(), 1);
    assert_eq!(metas[1].styles[0].id, StyleId::new(3));
}

#[test]
fn resolve_style_finds_owner_and_index() {
    let mut synthesizer = fresh_synthesizer();
    synthesizer.load_voice_model(test_model(1, &[10, 11])).unwrap();
    synthesizer.load_voice_model(test_model(2, &[20])).unwrap();
    assert_eq!(synthesizer.resolve_style(StyleId::new(11)), Ok((VoiceModelId::new(1), 1)));
    assert_eq!(synthesizer.resolve_style(StyleId::new(20)), Ok((VoiceModelId::new(2), 0)));
    assert_eq!(
        synthesizer.resolve_style(StyleId::new(99)),
        Err(Error::InvalidStyleId(StyleId::new(99)))
    );
}

#[test]
fn unloaded_style_resolves_to_unloaded_model() {
    let mut synthesizer = fresh_synthesizer();
    synthesizer.load_voice_model(test_model(1, &[7])).unwrap();
    assert_eq!(synthesizer.resolve_style(StyleId::new(7)), Ok((VoiceModelId::new(1), 0)));
    synthesizer.unload_voice_model(VoiceModelId::new(1)).unwrap();
    // The style was known, but its owning model was removed.
    assert_eq!(
        synthesizer.resolve_style(StyleId::new(7)),
        Err(Error::UnloadedModel(VoiceModelId::new(1)))
    );
    // A style that was never part of a loaded model is invalid.
    assert_eq!(
        synthesizer.resolve_style(StyleId::new(8)),
        Err(Error::InvalidStyleId(StyleId::new(8)))
    );
    // Another model may adopt the style; resolution succeeds again.
    synthesizer.load_voice_model(test_model(2, &[7])).unwrap();
    assert_eq!(synthesizer.resolve_style(StyleId::new(7)), Ok((VoiceModelId::new(2), 0)));
    // After that model goes too, the most recent owner is named.
    synthesizer.unload_voice_model(VoiceModelId::new(2)).unwrap();
    assert_eq!(
        synthesizer.resolve_style(StyleId::new(7)),
        Err(Error::UnloadedModel(VoiceModelId::new(2)))
    );
}

#[test]
fn gpu_mode_resolution() {
    let devices_cuda = SupportedDevices { cpu: true, cuda: true, dml: false };
    let devices_none = SupportedDevices { cpu: true, cuda: false, dml: false };

    let auto = InitializeOptions {
        acceleration_mode: AccelerationMode::Auto,
        cpu_num_threads: 0,
        load_all_models: false,
    };
    let gpu = InitializeOptions { acceleration_mode: AccelerationMode::Gpu, ..auto };

    let s = Synthesizer::new_with_initialize(false, Some(devices_cuda), false, &auto).unwrap();
    assert!(s.is_gpu_mode());
    let s = Synthesizer::new_with_initialize(false, Some(devices_none), false, &auto).unwrap();
    assert!(!s.is_gpu_mode());
    assert!(matches!(
        Synthesizer::new_with_initialize(false, None, false, &auto),
        Err(Error::GetSupportedDevices)
    ));
    assert!(matches!(
        Synthesizer::new_with_initialize(false, Some(devices_none), false, &gpu),
        Err(Error::GpuSupport)
    ));
    let s = Synthesizer::new_with_initialize(false, Some(devices_cuda), false, &gpu).unwrap();
    assert!(s.is_gpu_mode());
}

#[test]
fn openjtalk_dict_gate() {
    let without = fresh_synthesizer();
    assert_eq!(without.ensure_openjtalk_dict_loaded(), Err(Error::NotLoadedOpenjtalkDict));
    let with = Synthesizer::new_with_initialize(true, None, false, &cpu_options()).unwrap();
    assert!(with.ensure_openjtalk_dict_loaded().is_ok());
}

#[test]
fn option_defaults() {
    let init = InitializeOptions::default();
    assert_eq!(init.acceleration_mode, AccelerationMode::Auto);
    assert_eq!(init.cpu_num_threads, 0);
    assert!(!init.load_all_models);
    assert!(!AudioQueryOptions::default().kana);
    assert!(!AccentPhrasesOptions::default().kana);
    let tts = TtsOptions::default();
    assert!(!tts.kana);
    assert!(tts.enable_interrogative_upspeak);
    let synthesis = SynthesisOptions::from(&tts);
    assert!(synthesis.enable_interrogative_upspeak);
    let query = AudioQueryOptions::from(&tts);
    assert!(!query.kana);
}

#[test]
fn result_codes_cover_every_error() {
    assert_eq!(into_result_code(&Ok(())), VoicevoxResultCode::Succeeded);
    let cases = [
        (Error::NotLoadedOpenjtalkDict, VoicevoxResultCode::NotLoadedOpenjtalkDictError),
        (Error::GpuSupport, VoicevoxResultCode::GpuSupportError),
        (
            Error::LoadModel(LoadModelErrorKind::OpenZipFile),
            VoicevoxResultCode::OpenZipFileError,
        ),
        (
            Error::LoadModel(LoadModelErrorKind::ReadZipEntry),
            VoicevoxResultCode::ReadZipEntryError,
        ),
        (
            Error::LoadModel(LoadModelErrorKind::ModelAlreadyLoaded),
            VoicevoxResultCode::ModelAlreadyLoadedError,
        ),
        (
            Error::LoadModel(LoadModelErrorKind::StyleAlreadyLoaded),
            VoicevoxResultCode::StyleAlreadyLoadedError,
        ),
        (
            Error::LoadModel(LoadModelErrorKind::InvalidModelData),
            VoicevoxResultCode::InvalidModelDataError,
        ),
        (Error::GetSupportedDevices, VoicevoxResultCode::GetSupportedDevicesError),
        (Error::InvalidStyleId(StyleId::new(1)), VoicevoxResultCode::InvalidStyleIdError),
        (Error::InvalidModelId(VoiceModelId::new(1)), VoicevoxResultCode::InvalidModelIdError),
        (Error::UnloadedModel(VoiceModelId::new(1)), VoicevoxResultCode::UnloadedModelError),
        (Error::InferenceFailed, VoicevoxResultCode::InferenceError),
        (Error::ExtractFullContextLabel, VoicevoxResultCode::ExtractFullContextLabelError),
        (Error::ParseKana, VoicevoxResultCode::ParseKanaError),
        (Error::LoadUserDict, VoicevoxResultCode::LoadUserDictError),
        (Error::SaveUserDict, VoicevoxResultCode::SaveUserDictError),
        (Error::UnknownWord, VoicevoxResultCode::UnknownUserDictWordError),
        (Error::UseUserDict, VoicevoxResultCode::UseUserDictError),
        (Error::InvalidWord, VoicevoxResultCode::InvalidUserDictWordError),
    ];
    for (error, code) in cases {
        assert_eq!(error_result_code(&error), code);
        assert_eq!(into_result_code(&Err(error)), code);
    }
}

#[test]
fn acceleration_mode_conversions_round_trip() {
    for mode in [AccelerationMode::Auto, AccelerationMode::Cpu, AccelerationMode::Gpu] {
        let c = VoicevoxAccelerationMode::from(mode);
        assert_eq!(AccelerationMode::from(c), mode);
    }
    assert_eq!(AccelerationMode::default(), AccelerationMode::Auto);
}

#[test]
fn word_type_conversions_round_trip() {
    for word_type in [
        UserDictWordType::ProperNoun,
        UserDictWordType::CommonNoun,
        UserDictWordType::Verb,
        UserDictWordType::Adjective,
        UserDictWordType::Suffix,
    ] {
        let c = VoicevoxUserDictWordType::from(word_type);
        assert_eq!(UserDictWordType::from(c), word_type);
    }
}

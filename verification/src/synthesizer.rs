//! The synthesizer facade: construction with a hardware-acceleration mode,
//! the voice-model lifecycle, and the metadata queries. The neural inference
//! runtime and the text analyzer are external collaborators; the facade holds
//! what the pipeline decides from: the registry, the GPU flag, and whether
//! the analyzer's dictionary is loaded.

use vstd::prelude::*;
use crate::error::Error;
use crate::model::{
    model_style_ids, model_wf, speaker_views, StyleId, VoiceModel, VoiceModelId, VoiceModelMeta,
    VoiceModelView,
};
use crate::registry::{
    all_metas, model_style_id_vec, registry_wf, spec_is_loaded, spec_retire_model,
    spec_style_loaded, spec_style_retired, ModelRegistry, RetiredStyle,
};

verus! {

/// Which inference backends the runtime reports as usable.
#[derive(Clone, Copy, Debug, PartialEq, Eq, Structural)]
pub struct SupportedDevices {
    /// CPU inference is available.
    pub cpu: bool,
    /// CUDA GPU inference is available.
    pub cuda: bool,
    /// DirectML GPU inference is available.
    pub dml: bool,
}

/// The hardware-acceleration mode asked of the synthesizer.
#[derive(Clone, Copy, Debug, PartialEq, Eq, Structural)]
pub enum AccelerationMode {
    /// Pick GPU when the configured backend is available, CPU otherwise.
    Auto,
    /// Force CPU inference.
    Cpu,
    /// Force GPU inference.
    Gpu,
}

impl Default for AccelerationMode {
    fn default() -> (r: Self)
        ensures
            r == AccelerationMode::Auto,
    {
        AccelerationMode::Auto
    }
}

/// The acceleration modes of the C interface.
#[derive(Clone, Copy, Debug, PartialEq, Eq, Structural)]
pub enum VoicevoxAccelerationMode {
    VoicevoxAccelerationModeAuto,
    VoicevoxAccelerationModeCpu,
    VoicevoxAccelerationModeGpu,
}

impl From<VoicevoxAccelerationMode> for AccelerationMode {
    fn from(mode: VoicevoxAccelerationMode) -> (r: Self) {
        match mode {
            VoicevoxAccelerationMode::VoicevoxAccelerationModeAuto => AccelerationMode::Auto,
            VoicevoxAccelerationMode::VoicevoxAccelerationModeCpu => AccelerationMode::Cpu,
            VoicevoxAccelerationMode::VoicevoxAccelerationModeGpu => AccelerationMode::Gpu,
        }
    }
}

impl vstd::std_specs::convert::FromSpecImpl<VoicevoxAccelerationMode> for AccelerationMode {
    open spec fn obeys_from_spec() -> bool {
        true
    }

    open spec fn from_spec(mode: VoicevoxAccelerationMode) -> Self {
        match mode {
            VoicevoxAccelerationMode::VoicevoxAccelerationModeAuto => AccelerationMode::Auto,
            VoicevoxAccelerationMode::VoicevoxAccelerationModeCpu => AccelerationMode::Cpu,
            VoicevoxAccelerationMode::VoicevoxAccelerationModeGpu => AccelerationMode::Gpu,
        }
    }
}

impl From<AccelerationMode> for VoicevoxAccelerationMode {
    fn from(mode: AccelerationMode) -> (r: Self) {
        match mode {
            AccelerationMode::Auto => VoicevoxAccelerationMode::VoicevoxAccelerationModeAuto,
            AccelerationMode::Cpu => VoicevoxAccelerationMode::VoicevoxAccelerationModeCpu,
            AccelerationMode::Gpu => VoicevoxAccelerationMode::VoicevoxAccelerationModeGpu,
        }
    }
}

impl vstd::std_specs::convert::FromSpecImpl<AccelerationMode> for VoicevoxAccelerationMode {
    open spec fn obeys_from_spec() -> bool {
        true
    }

    open spec fn from_spec(mode: AccelerationMode) -> Self {
        match mode {
            AccelerationMode::Auto => VoicevoxAccelerationMode::VoicevoxAccelerationModeAuto,
            AccelerationMode::Cpu => VoicevoxAccelerationMode::VoicevoxAccelerationModeCpu,
            AccelerationMode::Gpu => VoicevoxAccelerationMode::VoicevoxAccelerationModeGpu,
        }
    }
}

/// Options of [`Synthesizer::new_with_initialize`].
#[derive(Clone, Copy, Debug, PartialEq, Eq, Structural)]
pub struct InitializeOptions {
    pub acceleration_mode: AccelerationMode,
    /// Worker threads for CPU inference; zero means the runtime's default.
    pub cpu_num_threads: u16,
    /// Directs the surrounding collaborator to load every model it finds.
    pub load_all_models: bool,
}

impl Default for InitializeOptions {
    fn default() -> (r: Self)
        ensures
            r.acceleration_mode == AccelerationMode::Auto,
            r.cpu_num_threads == 0u16,
            !r.load_all_models,
    {
        InitializeOptions {
            acceleration_mode: AccelerationMode::Auto,
            cpu_num_threads: 0,
            load_all_models: false,
        }
    }
}

/// Options of the synthesis step.
#[derive(Clone, Copy, Debug, PartialEq, Eq, Structural)]
pub struct SynthesisOptions {
    pub enable_interrogative_upspeak: bool,
}

/// Options of accent-phrase creation: whether the text is kana notation.
#[derive(Clone, Copy, Debug, PartialEq, Eq, Structural)]
pub struct AccentPhrasesOptions {
    /// Read the text as AquesTalk-style kana notation.
    pub kana: bool,
}

impl Default for AccentPhrasesOptions {
    fn default() -> (r: Self)
        ensures
            !r.kana,
    {
        AccentPhrasesOptions { kana: false }
    }
}

/// Options of audio-query creation: whether the text is kana notation.
#[derive(Clone, Copy, Debug, PartialEq, Eq, Structural)]
pub struct AudioQueryOptions {
    /// Read the text as AquesTalk-style kana notation.
    pub kana: bool,
}

impl Default for AudioQueryOptions {
    fn default() -> (r: Self)
        ensures
            !r.kana,
    {
        AudioQueryOptions { kana: false }
    }
}

/// Options of full text-to-speech.
#[derive(Clone, Copy, Debug, PartialEq, Eq, Structural)]
pub struct TtsOptions {
    /// Read the text as AquesTalk-style kana notation.
    pub kana: bool,
    pub enable_interrogative_upspeak: bool,
}

impl Default for TtsOptions {
    fn default() -> (r: Self)
        ensures
            !r.kana,
            r.enable_interrogative_upspeak,
    {
        TtsOptions { kana: false, enable_interrogative_upspeak: true }
    }
}

impl From<&TtsOptions> for SynthesisOptions {
    fn from(options: &TtsOptions) -> (r: Self) {
        SynthesisOptions {
            enable_interrogative_upspeak: options.enable_interrogative_upspeak,
        }
    }
}

impl vstd::std_specs::convert::FromSpecImpl<&TtsOptions> for SynthesisOptions {
    open spec fn obeys_from_spec() -> bool {
        true
    }

    open spec fn from_spec(options: &TtsOptions) -> Self {
        SynthesisOptions {
            enable_interrogative_upspeak: options.enable_interrogative_upspeak,
        }
    }
}

impl From<&TtsOptions> for AudioQueryOptions {
    fn from(options: &TtsOptions) -> (r: Self) {
        AudioQueryOptions { kana: options.kana }
    }
}

impl vstd::std_specs::convert::FromSpecImpl<&TtsOptions> for AudioQueryOptions {
    open spec fn obeys_from_spec() -> bool {
        true
    }

    open spec fn from_spec(options: &TtsOptions) -> Self {
        AudioQueryOptions { kana: options.kana }
    }
}

/// The GPU decision taken at construction: `Cpu` never probes; `Auto` asks
/// the probe for the configured backend's flag; `Gpu` demands it.
pub open spec fn spec_resolve_use_gpu(
    mode: AccelerationMode,
    devices: Option<SupportedDevices>,
    dml_backend: bool,
) -> Result<bool, Error> {
    match mode {
        AccelerationMode::Cpu => Ok(false),
        AccelerationMode::Auto => match devices {
            None => Err(Error::GetSupportedDevices),
            Some(d) => Ok(if dml_backend { d.dml } else { d.cuda }),
        },
        AccelerationMode::Gpu => match devices {
            None => Err(Error::GetSupportedDevices),
            Some(d) => if dml_backend && d.dml || !dml_backend && d.cuda {
                Ok(true)
            } else {
                Err(Error::GpuSupport)
            },
        },
    }
}

/// The voice synthesizer: owns the model registry, the GPU flag resolved at
/// construction, and the readiness of the shared text analyzer.
pub struct Synthesizer {
    pub registry: ModelRegistry,
    pub use_gpu: bool,
    pub open_jtalk_dict_loaded: bool,
    pub cpu_num_threads: u16,
}

impl Synthesizer {
    /// The loaded models, as mathematical values.
    pub open spec fn models(&self) -> Seq<VoiceModelView> {
        self.registry@
    }

    /// The styles whose owning models were unloaded, oldest first.
    pub open spec fn retired_styles(&self) -> Seq<RetiredStyle> {
        self.registry.retired@
    }

    /// The synthesizer invariant: its registry is well formed.
    pub open spec fn wf(&self) -> bool {
        registry_wf(self.registry@)
    }

    /// Constructs a synthesizer. `devices` is what the external probe of the
    /// inference runtime reported (`None` when the probe failed), and
    /// `dml_backend` tells whether this build selects DirectML rather than
    /// CUDA as its GPU backend. No model is loaded yet.
    pub fn new_with_initialize(
        open_jtalk_dict_loaded: bool,
        devices: Option<SupportedDevices>,
        dml_backend: bool,
        options: &InitializeOptions,
    ) -> (r: Result<Self, Error>)
        ensures
            spec_resolve_use_gpu(options.acceleration_mode, devices, dml_backend) is Err ==> r
                is Err && r->Err_0 == spec_resolve_use_gpu(
                options.acceleration_mode,
                devices,
                dml_backend,
            )->Err_0,
            spec_resolve_use_gpu(options.acceleration_mode, devices, dml_backend) is Ok ==> r
                is Ok && {
                let s = r->Ok_0;
                &&& s.use_gpu == spec_resolve_use_gpu(
                    options.acceleration_mode,
                    devices,
                    dml_backend,
                )->Ok_0
                &&& s.models() =~= Seq::<VoiceModelView>::empty()
                &&& s.retired_styles() =~= Seq::<RetiredStyle>::empty()
                &&& s.open_jtalk_dict_loaded == open_jtalk_dict_loaded
                &&& s.cpu_num_threads == options.cpu_num_threads
                &&& s.wf()
            },
    {
        let use_gpu: bool = match options.acceleration_mode {
            AccelerationMode::Cpu => false,
            AccelerationMode::Auto => match devices {
                None => {
                    return Err(Error::GetSupportedDevices);
                },
                Some(d) => if dml_backend {
                    d.dml
                } else {
                    d.cuda
                },
            },
            AccelerationMode::Gpu => match devices {
                None => {
                    return Err(Error::GetSupportedDevices);
                },
                Some(d) => {
                    if dml_backend && d.dml || !dml_backend && d.cuda {
                        true
                    } else {
                        return Err(Error::GpuSupport);
                    }
                },
            },
        };
        Ok(
            Synthesizer {
                registry: ModelRegistry::new(),
                use_gpu,
                open_jtalk_dict_loaded,
                cpu_num_threads: options.cpu_num_threads,
            },
        )
    }

    /// Whether hardware acceleration runs in GPU mode.
    pub fn is_gpu_mode(&self) -> (r: bool)
        ensures
            r == self.use_gpu,
    {
        self.use_gpu
    }

    /// Whether the text analyzer has its dictionary loaded.
    pub fn is_openjtalk_dict_loaded(&self) -> (r: bool)
        ensures
            r == self.open_jtalk_dict_loaded,
    {
        self.open_jtalk_dict_loaded
    }

    /// Fails with `NotLoadedOpenjtalkDict` exactly when the text analyzer's
    /// dictionary is missing; text analysis may proceed otherwise.
    pub fn ensure_openjtalk_dict_loaded(&self) -> (r: Result<(), Error>)
        ensures
            self.open_jtalk_dict_loaded ==> r is Ok,
            !self.open_jtalk_dict_loaded ==> r == Err::<(), Error>(Error::NotLoadedOpenjtalkDict),
    {
        if self.open_jtalk_dict_loaded {
            Ok(())
        } else {
            Err(Error::NotLoadedOpenjtalkDict)
        }
    }

    /// Registers a voice model. The external runtime has already parsed its
    /// graphs; here the registry enforces identifier and style uniqueness,
    /// all-or-nothing.
    pub fn load_voice_model(&mut self, model: VoiceModel) -> (r: Result<(), Error>)
        requires
            old(self).wf(),
            model_wf(model@),
        ensures
            final(self).wf(),
            final(self).use_gpu == old(self).use_gpu,
            final(self).open_jtalk_dict_loaded == old(self).open_jtalk_dict_loaded,
            final(self).retired_styles() == old(self).retired_styles(),
            spec_is_loaded(old(self).models(), model@.id) ==> r == Err::<(), Error>(
                Error::LoadModel(crate::error::LoadModelErrorKind::ModelAlreadyLoaded),
            ) && final(self).models() == old(self).models(),
            !spec_is_loaded(old(self).models(), model@.id) && (exists|s: StyleId|
                crate::model::model_has_style(model@, s) && #[trigger] spec_style_loaded(
                    old(self).models(),
                    s,
                )) ==> r == Err::<(), Error>(
                Error::LoadModel(crate::error::LoadModelErrorKind::StyleAlreadyLoaded),
            ) && final(self).models() == old(self).models(),
            !spec_is_loaded(old(self).models(), model@.id) && !(exists|s: StyleId|
                crate::model::model_has_style(model@, s) && #[trigger] spec_style_loaded(
                    old(self).models(),
                    s,
                )) ==> r == Ok::<(), Error>(()) && final(self).models() == old(
                self,
            ).models().push(model@),
    {
        self.registry.load_model(model)
    }

    /// Unloads the voice model with this identifier; fails with
    /// `InvalidModelId` when it is not loaded.
    pub fn unload_voice_model(&mut self, voice_model_id: VoiceModelId) -> (r: Result<(), Error>)
        ensures
            old(self).wf() ==> final(self).wf(),
            final(self).use_gpu == old(self).use_gpu,
            final(self).open_jtalk_dict_loaded == old(self).open_jtalk_dict_loaded,
            !spec_is_loaded(old(self).models(), voice_model_id) ==> r == Err::<(), Error>(
                Error::InvalidModelId(voice_model_id),
            ) && final(self).models() == old(self).models() && final(self).retired_styles()
                == old(self).retired_styles(),
            spec_is_loaded(old(self).models(), voice_model_id) ==> r == Ok::<(), Error>(())
                && exists|i: int|
                0 <= i < old(self).models().len() && (#[trigger] old(self).models()[i]).id
                    == voice_model_id && final(self).models() == old(self).models().remove(i)
                    && final(self).retired_styles() == old(self).retired_styles()
                    + spec_retire_model(old(self).models()[i]),
    {
        self.registry.unload_model(voice_model_id)
    }

    /// Whether the model with this identifier is loaded.
    pub fn is_loaded_voice_model(&self, voice_model_id: VoiceModelId) -> (r: bool)
        ensures
            r == spec_is_loaded(self.models(), voice_model_id),
    {
        self.registry.is_loaded_model(voice_model_id)
    }

    /// Whether some loaded model offers this style.
    pub fn is_loaded_model_by_style_id(&self, style_id: StyleId) -> (r: bool)
        ensures
            r == spec_style_loaded(self.models(), style_id),
    {
        self.registry.is_style_loaded(style_id)
    }

    /// The metadata of every loaded model, in load order.
    pub fn metas(&self) -> (r: VoiceModelMeta)
        ensures
            speaker_views(r@) == all_metas(self.models()),
    {
        self.registry.metas()
    }

    /// Resolves a style to its owning model and the style's position within
    /// that model's flattened style list. Fails with `UnloadedModel` when no
    /// loaded model offers the style but one that did was unloaded (the most
    /// recent such record names the model), and with `InvalidStyleId` when
    /// the style was never part of a loaded model.
    pub fn resolve_style(&self, style_id: StyleId) -> (r: Result<(VoiceModelId, usize), Error>)
        ensures
            !spec_style_loaded(self.models(), style_id) && !spec_style_retired(
                self.retired_styles(),
                style_id,
            ) ==> r == Err::<(VoiceModelId, usize), Error>(Error::InvalidStyleId(style_id)),
            !spec_style_loaded(self.models(), style_id) && spec_style_retired(
                self.retired_styles(),
                style_id,
            ) ==> exists|i: int|
                0 <= i < self.retired_styles().len() && (#[trigger] self.retired_styles()[i]).style_id
                    == style_id && (forall|k: int|
                    i < k < self.retired_styles().len() ==> (
                    #[trigger] self.retired_styles()[k]).style_id != style_id) && r == Err::<
                    (VoiceModelId, usize),
                    Error,
                >(Error::UnloadedModel(self.retired_styles()[i].model_id)),
            spec_style_loaded(self.models(), style_id) ==> r is Ok && exists|m: int|
                0 <= m < self.models().len() && (#[trigger] self.models()[m]).id == r->Ok_0.0
                    && 0 <= r->Ok_0.1 < model_style_ids(self.models()[m]).len() && model_style_ids(
                    self.models()[m],
                )[r->Ok_0.1 as int] == style_id,
    {
        let n = self.registry.loaded.len();
        let mut i: usize = 0;
        while i < n
            invariant
                n == self.registry.loaded.len(),
                i <= n,
                forall|k: int| 0 <= k < i ==> !crate::model::model_has_style(
                    #[trigger] self.models()[k],
                    style_id,
                ),
            decreases n - i,
        {
            let ids = model_style_id_vec(&self.registry.loaded[i]);
            let mut j: usize = 0;
            while j < ids.len()
                invariant
                    n == self.registry.loaded.len(),
                    i < n,
                    j <= ids.len(),
                    ids@ == model_style_ids(self.models()[i as int]),
                    forall|k: int| 0 <= k < j ==> #[trigger] ids@[k] != style_id,
                decreases ids.len() - j,
            {
                if ids[j] == style_id {
                    proof {
                        assert(model_style_ids(self.models()[i as int])[j as int] == style_id);
                        assert(crate::model::model_has_style(self.models()[i as int], style_id));
                    }
                    return Ok((self.registry.loaded[i].id, j));
                }
                j += 1;
            }
            i += 1;
        }
        let m = self.registry.retired.len();
        let mut k: usize = m;
        while k > 0
            invariant
                m == self.registry.retired.len(),
                k <= m,
                !spec_style_loaded(self.models(), style_id),
                forall|t: int|
                    k <= t < m ==> (#[trigger] self.retired_styles()[t]).style_id != style_id,
            decreases k,
        {
            k -= 1;
            if self.registry.retired[k].style_id == style_id {
                proof {
                    assert(self.retired_styles()[k as int].style_id == style_id);
                }
                return Err(Error::UnloadedModel(self.registry.retired[k].model_id));
            }
        }
        Err(Error::InvalidStyleId(style_id))
    }
}

} // verus!

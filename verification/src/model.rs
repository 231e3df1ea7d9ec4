//! Voice models and their metadata: a model is identified by a 128-bit id
//! (the value of its UUID) and carries, per speaker, a list of styles.

use vstd::prelude::*;

verus! {

/// Identifies a voice style; the unit of model selection at inference time.
#[derive(Clone, Copy, Debug, PartialEq, Eq, Hash, Structural)]
pub struct StyleId {
    pub raw: u32,
}

impl StyleId {
    pub fn new(raw: u32) -> (r: Self)
        ensures
            r.raw == raw,
    {
        StyleId { raw }
    }

    pub fn raw_id(&self) -> (r: u32)
        ensures
            r == self.raw,
    {
        self.raw
    }
}

/// Identifies a voice model: the 128-bit value of its UUID.
#[derive(Clone, Copy, Debug, PartialEq, Eq, Hash, Structural)]
pub struct VoiceModelId {
    pub raw: u128,
}

impl VoiceModelId {
    pub fn new(raw: u128) -> (r: Self)
        ensures
            r.raw == raw,
    {
        VoiceModelId { raw }
    }

    pub fn raw_id(&self) -> (r: u128)
        ensures
            r == self.raw,
    {
        self.raw
    }
}

/// One style of a speaker.
pub struct StyleMeta {
    pub id: StyleId,
    pub name: String,
}

/// Mathematical image of a [`StyleMeta`].
pub struct StyleMetaView {
    pub id: StyleId,
    pub name: Seq<char>,
}

impl View for StyleMeta {
    type V = StyleMetaView;

    open spec fn view(&self) -> StyleMetaView {
        StyleMetaView { id: self.id, name: self.name@ }
    }
}

/// A speaker of a voice model, with the styles it offers.
pub struct SpeakerMeta {
    pub name: String,
    pub speaker_uuid: String,
    pub styles: Vec<StyleMeta>,
    pub version: String,
}

/// Mathematical image of a [`SpeakerMeta`].
pub struct SpeakerMetaView {
    pub name: Seq<char>,
    pub speaker_uuid: Seq<char>,
    pub styles: Seq<StyleMetaView>,
    pub version: Seq<char>,
}

impl View for SpeakerMeta {
    type V = SpeakerMetaView;

    open spec fn view(&self) -> SpeakerMetaView {
        SpeakerMetaView {
            name: self.name@,
            speaker_uuid: self.speaker_uuid@,
            styles: self.styles@.map_values(|s: StyleMeta| s@),
            version: self.version@,
        }
    }
}

/// The metadata of a set of loaded models: one entry per speaker.
pub type VoiceModelMeta = Vec<SpeakerMeta>;

/// A voice model ready for loading: its identifier and its speakers. The
/// inference graph payloads themselves belong to the external runtime and
/// are not part of this value.
pub struct VoiceModel {
    pub id: VoiceModelId,
    pub metas: VoiceModelMeta,
}

/// Mathematical image of a [`VoiceModel`].
pub struct VoiceModelView {
    pub id: VoiceModelId,
    pub metas: Seq<SpeakerMetaView>,
}

impl View for VoiceModel {
    type V = VoiceModelView;

    open spec fn view(&self) -> VoiceModelView {
        VoiceModelView { id: self.id, metas: self.metas@.map_values(|m: SpeakerMeta| m@) }
    }
}

/// The style identifiers of one speaker, in order.
pub open spec fn speaker_style_ids(m: SpeakerMetaView) -> Seq<StyleId> {
    m.styles.map_values(|s: StyleMetaView| s.id)
}

/// The style identifiers of a sequence of speakers, flattened in order.
pub open spec fn styles_of_speakers(metas: Seq<SpeakerMetaView>) -> Seq<StyleId>
    decreases metas.len(),
{
    if metas.len() == 0 {
        Seq::empty()
    } else {
        styles_of_speakers(metas.drop_last()) + speaker_style_ids(metas.last())
    }
}

/// The style identifiers a model contributes, flattened across its speakers
/// in order.
pub open spec fn model_style_ids(m: VoiceModelView) -> Seq<StyleId> {
    styles_of_speakers(m.metas)
}

/// Whether a model offers the given style.
pub open spec fn model_has_style(m: VoiceModelView, style_id: StyleId) -> bool {
    model_style_ids(m).contains(style_id)
}

/// A model is well formed when its styles are pairwise distinct.
pub open spec fn model_wf(m: VoiceModelView) -> bool {
    forall|i: int, j: int|
        0 <= i < j < model_style_ids(m).len() ==> model_style_ids(m)[i] != model_style_ids(m)[j]
}

/// The images of a sequence of style entries.
pub open spec fn style_views(s: Seq<StyleMeta>) -> Seq<StyleMetaView> {
    s.map_values(|x: StyleMeta| x@)
}

/// The images of a sequence of speaker entries.
pub open spec fn speaker_views(s: Seq<SpeakerMeta>) -> Seq<SpeakerMetaView> {
    s.map_values(|x: SpeakerMeta| x@)
}

/// Copies a style entry; the copy has the same image.
pub fn clone_style_meta(s: &StyleMeta) -> (r: StyleMeta)
    ensures
        r@ == s@,
{
    StyleMeta { id: s.id, name: s.name.clone() }
}

/// Copies a speaker entry; the copy has the same image.
pub fn clone_speaker_meta(m: &SpeakerMeta) -> (r: SpeakerMeta)
    ensures
        r@ == m@,
{
    let mut styles: Vec<StyleMeta> = Vec::new();
    let mut i: usize = 0;
    while i < m.styles.len()
        invariant
            i <= m.styles.len(),
            styles@.len() == i,
            forall|k: int| 0 <= k < i ==> #[trigger] styles@[k]@ == m.styles@[k]@,
        decreases m.styles.len() - i,
    {
        styles.push(clone_style_meta(&m.styles[i]));
        i += 1;
    }
    proof {
        assert(style_views(styles@) =~= style_views(m.styles@));
    }
    let r = SpeakerMeta {
        name: m.name.clone(),
        speaker_uuid: m.speaker_uuid.clone(),
        styles,
        version: m.version.clone(),
    };
    proof {
        assert(r@.styles =~= m@.styles);
        assert(r@ =~= m@);
    }
    r
}

/// Collects, in order, the style identifiers that one speaker offers.
pub fn speaker_style_id_vec(m: &SpeakerMeta) -> (r: Vec<StyleId>)
    ensures
        r@ == speaker_style_ids(m@),
{
    let mut r: Vec<StyleId> = Vec::new();
    let mut i: usize = 0;
    while i < m.styles.len()
        invariant
            i <= m.styles.len(),
            r@.len() == i,
            forall|k: int| 0 <= k < i ==> #[trigger] r@[k] == m.styles@[k].id,
        decreases m.styles.len() - i,
    {
        r.push(m.styles[i].id);
        i += 1;
    }
    proof {
        assert(r@ =~= speaker_style_ids(m@));
    }
    r
}

} // verus!

//! The model registry: the single source of truth for which voice models and
//! styles are available. Model identifiers are unique across the loaded set,
//! and every style belongs to exactly one loaded model. Load and unload are
//! all-or-nothing: on failure the registry is unchanged. Unloading retires
//! the model's styles: the records let a later lookup tell a style whose
//! model was removed apart from one that was never known.

use vstd::prelude::*;
use crate::error::{Error, LoadModelErrorKind};
use crate::model::{
    clone_speaker_meta, model_has_style, model_style_ids, model_wf, speaker_style_id_vec,
    speaker_views, styles_of_speakers, SpeakerMeta, SpeakerMetaView, StyleId, VoiceModel,
    VoiceModelId, VoiceModelMeta, VoiceModelView,
};

verus! {

/// The images of a sequence of voice models.
pub open spec fn model_views(s: Seq<VoiceModel>) -> Seq<VoiceModelView> {
    s.map_values(|m: VoiceModel| m@)
}

/// Whether a model with this identifier is in the loaded set.
pub open spec fn spec_is_loaded(models: Seq<VoiceModelView>, id: VoiceModelId) -> bool {
    exists|i: int| 0 <= i < models.len() && (#[trigger] models[i]).id == id
}

/// Whether some loaded model offers this style.
pub open spec fn spec_style_loaded(models: Seq<VoiceModelView>, style_id: StyleId) -> bool {
    exists|i: int| 0 <= i < models.len() && model_has_style(#[trigger] models[i], style_id)
}

/// The metadata of the loaded set: the speakers of every model, in load
/// order.
pub open spec fn all_metas(models: Seq<VoiceModelView>) -> Seq<SpeakerMetaView>
    decreases models.len(),
{
    if models.len() == 0 {
        Seq::empty()
    } else {
        all_metas(models.drop_last()) + models.last().metas
    }
}

/// The registry invariant: model identifiers are distinct, styles belong to
/// at most one model, and each model's own styles are distinct.
pub open spec fn registry_wf(models: Seq<VoiceModelView>) -> bool {
    &&& forall|i: int, j: int|
        0 <= i < j < models.len() ==> (#[trigger] models[i]).id != (#[trigger] models[j]).id
    &&& forall|i: int, j: int, s: StyleId|
        0 <= i < models.len() && 0 <= j < models.len() && i != j && #[trigger] model_has_style(
            models[i],
            s,
        ) ==> !#[trigger] model_has_style(models[j], s)
    &&& forall|i: int| 0 <= i < models.len() ==> model_wf(#[trigger] models[i])
}

/// Collects, in order, the style identifiers of every speaker of a model.
pub fn model_style_id_vec(model: &VoiceModel) -> (r: Vec<StyleId>)
    ensures
        r@ == model_style_ids(model@),
{
    let mut r: Vec<StyleId> = Vec::new();
    let mut i: usize = 0;
    while i < model.metas.len()
        invariant
            i <= model.metas.len(),
            r@ =~= styles_of_speakers(model@.metas.take(i as int)),
        decreases model.metas.len() - i,
    {
        let mut ids = speaker_style_id_vec(&model.metas[i]);
        r.append(&mut ids);
        proof {
            let pref = model@.metas.take(i + 1);
            assert(pref.drop_last() =~= model@.metas.take(i as int));
            assert(pref.last() == model@.metas[i as int]);
        }
        i += 1;
    }
    proof {
        assert(model@.metas.take(model.metas@.len() as int) =~= model@.metas);
    }
    r
}

/// Whether a model offers the given style.
pub fn model_contains_style(model: &VoiceModel, style_id: StyleId) -> (r: bool)
    ensures
        r == model_has_style(model@, style_id),
{
    let ids = model_style_id_vec(model);
    let mut i: usize = 0;
    while i < ids.len()
        invariant
            i <= ids.len(),
            ids@ == model_style_ids(model@),
            forall|k: int| 0 <= k < i ==> #[trigger] ids@[k] != style_id,
        decreases ids.len() - i,
    {
        if ids[i] == style_id {
            return true;
        }
        i += 1;
    }
    false
}

/// Copies a list of speaker entries; the copy has the same images.
pub fn clone_speakers(v: &Vec<SpeakerMeta>) -> (r: Vec<SpeakerMeta>)
    ensures
        speaker_views(r@) == speaker_views(v@),
{
    let mut r: Vec<SpeakerMeta> = Vec::new();
    let mut i: usize = 0;
    while i < v.len()
        invariant
            i <= v.len(),
            r@.len() == i,
            forall|k: int| 0 <= k < i ==> #[trigger] r@[k]@ == v@[k]@,
        decreases v.len() - i,
    {
        r.push(clone_speaker_meta(&v[i]));
        i += 1;
    }
    proof {
        assert(speaker_views(r@) =~= speaker_views(v@));
    }
    r
}

/// Mapping to images distributes over concatenation.
pub proof fn lemma_speaker_views_concat(a: Seq<SpeakerMeta>, b: Seq<SpeakerMeta>)
    ensures
        speaker_views(a + b) == speaker_views(a) + speaker_views(b),
{
    assert(speaker_views(a + b) =~= speaker_views(a) + speaker_views(b));
}

/// Decides whether a model is well formed: its styles pairwise distinct.
pub fn check_model(model: &VoiceModel) -> (r: bool)
    ensures
        r == model_wf(model@),
{
    let ids = model_style_id_vec(model);
    let mut i: usize = 0;
    while i < ids.len()
        invariant
            i <= ids.len(),
            ids@ == model_style_ids(model@),
            forall|a: int, b: int|
                0 <= a < b < i ==> #[trigger] ids@[a] != #[trigger] ids@[b],
        decreases ids.len() - i,
    {
        let mut j: usize = 0;
        while j < i
            invariant
                j <= i,
                i < ids@.len(),
                ids@ == model_style_ids(model@),
                forall|t: int| 0 <= t < j ==> #[trigger] ids@[t] != ids@[i as int],
            decreases i - j,
        {
            if ids[j] == ids[i] {
                proof {
                    assert(model_style_ids(model@)[j as int] == model_style_ids(model@)[i as int]);
                }
                return false;
            }
            j += 1;
        }
        i += 1;
    }
    true
}

/// A style whose owning model was unloaded: the registry keeps the record
/// so that resolving such a style can say that the model was removed rather
/// than that the style was never known.
#[derive(Clone, Copy, Debug, PartialEq, Eq, Structural)]
pub struct RetiredStyle {
    pub style_id: StyleId,
    pub model_id: VoiceModelId,
}

/// Whether a style appears among the retirement records.
pub open spec fn spec_style_retired(retired: Seq<RetiredStyle>, style_id: StyleId) -> bool {
    exists|i: int| 0 <= i < retired.len() && (#[trigger] retired[i]).style_id == style_id
}

/// The retirement records an unloaded model leaves behind: one per style it
/// owned, carrying the model's identifier.
pub open spec fn spec_retire_model(m: VoiceModelView) -> Seq<RetiredStyle> {
    model_style_ids(m).map_values(|s: StyleId| RetiredStyle { style_id: s, model_id: m.id })
}

/// The set of loaded voice models, together with the styles whose owning
/// models were unloaded.
pub struct ModelRegistry {
    pub loaded: Vec<VoiceModel>,
    pub retired: Vec<RetiredStyle>,
}

impl View for ModelRegistry {
    type V = Seq<VoiceModelView>;

    open spec fn view(&self) -> Seq<VoiceModelView> {
        model_views(self.loaded@)
    }
}

impl ModelRegistry {
    /// An empty registry: nothing is loaded.
    pub fn new() -> (r: Self)
        ensures
            r@ =~= Seq::<VoiceModelView>::empty(),
            r.retired@ =~= Seq::<RetiredStyle>::empty(),
            registry_wf(r@),
    {
        ModelRegistry { loaded: Vec::new(), retired: Vec::new() }
    }

    /// Whether a model with this identifier is loaded.
    pub fn is_loaded_model(&self, id: VoiceModelId) -> (r: bool)
        ensures
            r == spec_is_loaded(self@, id),
    {
        let mut i: usize = 0;
        while i < self.loaded.len()
            invariant
                i <= self.loaded.len(),
                forall|k: int| 0 <= k < i ==> (#[trigger] self@[k]).id != id,
            decreases self.loaded.len() - i,
        {
            if self.loaded[i].id == id {
                proof {
                    assert(self@[i as int].id == id);
                }
                return true;
            }
            i += 1;
        }
        false
    }

    /// Whether some loaded model offers this style.
    pub fn is_style_loaded(&self, style_id: StyleId) -> (r: bool)
        ensures
            r == spec_style_loaded(self@, style_id),
    {
        let mut i: usize = 0;
        while i < self.loaded.len()
            invariant
                i <= self.loaded.len(),
                forall|k: int| 0 <= k < i ==> !model_has_style(#[trigger] self@[k], style_id),
            decreases self.loaded.len() - i,
        {
            if model_contains_style(&self.loaded[i], style_id) {
                proof {
                    assert(model_has_style(self@[i as int], style_id));
                }
                return true;
            }
            i += 1;
        }
        false
    }

    /// The speakers of every loaded model, in load order.
    pub fn metas(&self) -> (r: VoiceModelMeta)
        ensures
            speaker_views(r@) == all_metas(self@),
    {
        let mut r: Vec<SpeakerMeta> = Vec::new();
        let mut i: usize = 0;
        while i < self.loaded.len()
            invariant
                i <= self.loaded.len(),
                speaker_views(r@) =~= all_metas(self@.take(i as int)),
            decreases self.loaded.len() - i,
        {
            let ghost prev = r@;
            let mut copy = clone_speakers(&self.loaded[i].metas);
            let ghost copied = copy@;
            r.append(&mut copy);
            proof {
                lemma_speaker_views_concat(prev, copied);
                let pref = self@.take(i + 1);
                assert(pref.drop_last() =~= self@.take(i as int));
                assert(pref.last() == self@[i as int]);
                assert(speaker_views(r@) =~= all_metas(self@.take(i + 1)));
            }
            i += 1;
        }
        proof {
            assert(self@.take(self.loaded@.len() as int) =~= self@);
        }
        r
    }

    /// Loads a voice model. Fails with `ModelAlreadyLoaded` when the model's
    /// identifier is already present, and with `StyleAlreadyLoaded` when one
    /// of its styles is already owned by another loaded model; on failure the
    /// registry is unchanged.
    pub fn load_model(&mut self, model: VoiceModel) -> (r: Result<(), Error>)
        ensures
            spec_is_loaded(old(self)@, model@.id) ==> r == Err::<(), Error>(
                Error::LoadModel(LoadModelErrorKind::ModelAlreadyLoaded),
            ) && final(self)@ == old(self)@,
            !spec_is_loaded(old(self)@, model@.id) && (exists|s: StyleId|
                model_has_style(model@, s) && #[trigger] spec_style_loaded(old(self)@, s)) ==> r
                == Err::<(), Error>(Error::LoadModel(LoadModelErrorKind::StyleAlreadyLoaded))
                && final(self)@ == old(self)@,
            !spec_is_loaded(old(self)@, model@.id) && !(exists|s: StyleId|
                model_has_style(model@, s) && #[trigger] spec_style_loaded(old(self)@, s)) ==> r
                == Ok::<(), Error>(()) && final(self)@ == old(self)@.push(model@),
            r is Ok && registry_wf(old(self)@) && model_wf(model@) ==> registry_wf(final(self)@),
            final(self).retired@ == old(self).retired@,
    {
        if self.is_loaded_model(model.id) {
            return Err(Error::LoadModel(LoadModelErrorKind::ModelAlreadyLoaded));
        }
        let ids = model_style_id_vec(&model);
        let mut i: usize = 0;
        while i < ids.len()
            invariant
                i <= ids.len(),
                ids@ == model_style_ids(model@),
                self@ == old(self)@,
                !spec_is_loaded(old(self)@, model@.id),
                forall|k: int|
                    0 <= k < i ==> !spec_style_loaded(self@, #[trigger] ids@[k]),
            decreases ids.len() - i,
        {
            if self.is_style_loaded(ids[i]) {
                proof {
                    assert(model_style_ids(model@)[i as int] == ids@[i as int]);
                    assert(model_style_ids(model@).contains(ids@[i as int]));
                    assert(model_has_style(model@, ids@[i as int]));
                }
                return Err(Error::LoadModel(LoadModelErrorKind::StyleAlreadyLoaded));
            }
            i += 1;
        }
        proof {
            assert forall|s: StyleId|
                model_has_style(model@, s) implies !#[trigger] spec_style_loaded(
                self@,
                s,
            ) by {
                let k = choose|k: int|
                    0 <= k < model_style_ids(model@).len() && model_style_ids(model@)[k] == s;
                assert(!spec_style_loaded(self@, ids@[k]));
            }
        }
        let ghost prior = self@;
        let ghost mv = model@;
        self.loaded.push(model);
        proof {
            assert(self@ =~= prior.push(mv));
            if registry_wf(prior) && model_wf(mv) {
                assert forall|i: int, j: int, s: StyleId|
                    0 <= i < self@.len() && 0 <= j < self@.len() && i != j
                        && #[trigger] model_has_style(self@[i], s) implies !#[trigger] model_has_style(
                    self@[j],
                    s,
                ) by {
                    if i == prior.len() as int {
                        assert(!spec_style_loaded(prior, s));
                        assert(self@[j] == prior[j]);
                    } else if j == prior.len() as int {
                        if model_has_style(self@[j], s) {
                            assert(spec_style_loaded(prior, s));
                        }
                    }
                }
                assert(registry_wf(self@));
            }
        }
        Ok(())
    }

    /// Unloads the voice model with this identifier: the model leaves the
    /// loaded set and each of its styles is recorded as retired under the
    /// model's identifier. Fails with `InvalidModelId` when no such model is
    /// loaded; the registry is then unchanged.
    pub fn unload_model(&mut self, id: VoiceModelId) -> (r: Result<(), Error>)
        ensures
            !spec_is_loaded(old(self)@, id) ==> r == Err::<(), Error>(Error::InvalidModelId(id))
                && final(self)@ == old(self)@ && final(self).retired@ == old(self).retired@,
            spec_is_loaded(old(self)@, id) ==> r == Ok::<(), Error>(()) && exists|i: int|
                0 <= i < old(self)@.len() && (#[trigger] old(self)@[i]).id == id && final(self)@
                    == old(self)@.remove(i) && final(self).retired@ == old(self).retired@
                    + spec_retire_model(old(self)@[i]),
            registry_wf(old(self)@) ==> registry_wf(final(self)@),
    {
        let mut i: usize = 0;
        while i < self.loaded.len()
            invariant
                i <= self.loaded.len(),
                self@ == old(self)@,
                self.retired@ == old(self).retired@,
                forall|k: int| 0 <= k < i ==> (#[trigger] self@[k]).id != id,
            decreases self.loaded.len() - i,
        {
            if self.loaded[i].id == id {
                let ghost prior = self@;
                let ghost prior_retired = self.retired@;
                proof {
                    assert(old(self)@[i as int].id == id);
                }
                let mid = self.loaded[i].id;
                let ids = model_style_id_vec(&self.loaded[i]);
                let mut k: usize = 0;
                while k < ids.len()
                    invariant
                        k <= ids.len(),
                        i < self.loaded@.len(),
                        self@ == prior,
                        prior == old(self)@,
                        prior_retired == old(self).retired@,
                        old(self)@[i as int].id == id,
                        mid == prior[i as int].id,
                        ids@ == model_style_ids(prior[i as int]),
                        self.retired@ =~= prior_retired + spec_retire_model(prior[i as int]).take(
                            k as int,
                        ),
                    decreases ids.len() - k,
                {
                    self.retired.push(RetiredStyle { style_id: ids[k], model_id: mid });
                    proof {
                        let rec = spec_retire_model(prior[i as int]);
                        assert(rec[k as int] == (RetiredStyle {
                            style_id: ids@[k as int],
                            model_id: mid,
                        }));
                        assert(self.retired@ =~= prior_retired + rec.take(k + 1));
                    }
                    k += 1;
                }
                proof {
                    let rec = spec_retire_model(prior[i as int]);
                    assert(rec.take(rec.len() as int) =~= rec);
                    assert(self.retired@ =~= prior_retired + rec);
                }
                self.loaded.remove(i);
                proof {
                    assert(self@ =~= prior.remove(i as int));
                    if registry_wf(prior) {
                        lemma_registry_wf_remove(prior, i as int);
                    }
                }
                return Ok(());
            }
            i += 1;
        }
        Err(Error::InvalidModelId(id))
    }
}

/// Removing a model keeps the registry invariant.
pub proof fn lemma_registry_wf_remove(models: Seq<VoiceModelView>, i: int)
    requires
        registry_wf(models),
        0 <= i < models.len(),
    ensures
        registry_wf(models.remove(i)),
{
    let rest = models.remove(i);
    assert forall|a: int, b: int|
        0 <= a < b < rest.len() implies (#[trigger] rest[a]).id != (#[trigger] rest[b]).id by {
        let a0 = if a < i { a } else { a + 1 };
        let b0 = if b < i { b } else { b + 1 };
        assert(rest[a] == models[a0]);
        assert(rest[b] == models[b0]);
    }
    assert forall|a: int, b: int, s: StyleId|
        0 <= a < rest.len() && 0 <= b < rest.len() && a != b && #[trigger] model_has_style(
            rest[a],
            s,
        ) implies !#[trigger] model_has_style(rest[b], s) by {
        let a0 = if a < i { a } else { a + 1 };
        let b0 = if b < i { b } else { b + 1 };
        assert(rest[a] == models[a0]);
        assert(rest[b] == models[b0]);
    }
    assert forall|a: int| 0 <= a < rest.len() implies model_wf(#[trigger] rest[a]) by {
        let a0 = if a < i { a } else { a + 1 };
        assert(rest[a] == models[a0]);
    }
}

/// Every loaded model is visible through the membership queries: its
/// identifier reports loaded, and so does each of its styles.
pub proof fn lemma_loaded_model_visible(models: Seq<VoiceModelView>, i: int)
    requires
        0 <= i < models.len(),
    ensures
        spec_is_loaded(models, models[i].id),
        forall|s: StyleId|
            model_style_ids(#[trigger] models[i]).contains(s) ==> spec_style_loaded(models, s),
{
    assert forall|s: StyleId|
        model_style_ids(models[i]).contains(s) implies spec_style_loaded(models, s) by {
        assert(model_has_style(models[i], s));
    }
}

/// After a model is unloaded from a well-formed registry, neither its
/// identifier nor any of its styles reports loaded.
pub proof fn lemma_unloaded_model_invisible(models: Seq<VoiceModelView>, i: int)
    requires
        registry_wf(models),
        0 <= i < models.len(),
    ensures
        !spec_is_loaded(models.remove(i), models[i].id),
        forall|s: StyleId|
            model_style_ids(#[trigger] models[i]).contains(s) ==> !spec_style_loaded(
                models.remove(i),
                s,
            ),
{
    let rest = models.remove(i);
    assert forall|k: int| 0 <= k < rest.len() implies (#[trigger] rest[k]).id != models[i].id by {
        let k0 = if k < i { k } else { k + 1 };
        assert(rest[k] == models[k0]);
    }
    assert forall|s: StyleId|
        model_style_ids(models[i]).contains(s) implies !spec_style_loaded(rest, s) by {
        assert(model_has_style(models[i], s));
        assert forall|k: int| 0 <= k < rest.len() implies !model_has_style(
            #[trigger] rest[k],
            s,
        ) by {
            let k0 = if k < i { k } else { k + 1 };
            assert(rest[k] == models[k0]);
        }
    }
}

} // verus!

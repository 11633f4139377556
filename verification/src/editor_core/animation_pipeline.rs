//! Counts over the editor animation pipelines.
use vstd::prelude::*;
use crate::editor_core::counts::{lemma_total_step, list_len, list_sum, nested_totals, seq_sum, sum_counts, total};
use crate::text::{decimal, push_decimal, push_str};

verus! {

/// What the report reads of one animation pipeline: the sizes of its lists,
/// the event count of each frame of each clip, the socket count of each
/// socket profile and the box count of each hitbox profile.
pub struct AnimationPipelineCatalog {
    pub timeline_schemas: usize,
    pub clip_frame_events: Vec<Vec<usize>>,
    pub directional_groups: usize,
    pub socket_profile_sockets: Vec<usize>,
    pub hitbox_profile_boxes: Vec<usize>,
    pub water_preview_profiles: usize,
    pub seasonal_animation_sets: usize,
    pub validation_reports: usize,
}

/// Totals over all animation pipelines.
pub struct EditorAnimationPipelineReport {
    pub pipelines: usize,
    pub timeline_schemas: usize,
    pub animation_clips: usize,
    pub frames: usize,
    pub frame_events: usize,
    pub directional_groups: usize,
    pub socket_profiles: usize,
    pub socket_frames: usize,
    pub hitbox_profiles: usize,
    pub hitbox_frames: usize,
    pub water_preview_profiles: usize,
    pub seasonal_animation_sets: usize,
    pub validation_reports: usize,
}

pub open spec fn schemas_of() -> spec_fn(AnimationPipelineCatalog) -> nat { |c: AnimationPipelineCatalog| c.timeline_schemas as nat }
pub open spec fn clips_of() -> spec_fn(AnimationPipelineCatalog) -> nat { |c: AnimationPipelineCatalog| c.clip_frame_events@.len() }
pub open spec fn frames_of() -> spec_fn(AnimationPipelineCatalog) -> nat { |c: AnimationPipelineCatalog| total(c.clip_frame_events@, list_len()) }
pub open spec fn events_of() -> spec_fn(AnimationPipelineCatalog) -> nat { |c: AnimationPipelineCatalog| total(c.clip_frame_events@, list_sum()) }
pub open spec fn groups_of() -> spec_fn(AnimationPipelineCatalog) -> nat { |c: AnimationPipelineCatalog| c.directional_groups as nat }
pub open spec fn socket_profiles_of() -> spec_fn(AnimationPipelineCatalog) -> nat { |c: AnimationPipelineCatalog| c.socket_profile_sockets@.len() }
pub open spec fn sockets_of() -> spec_fn(AnimationPipelineCatalog) -> nat { |c: AnimationPipelineCatalog| seq_sum(c.socket_profile_sockets@) }
pub open spec fn hitbox_profiles_of() -> spec_fn(AnimationPipelineCatalog) -> nat { |c: AnimationPipelineCatalog| c.hitbox_profile_boxes@.len() }
pub open spec fn boxes_of() -> spec_fn(AnimationPipelineCatalog) -> nat { |c: AnimationPipelineCatalog| seq_sum(c.hitbox_profile_boxes@) }
pub open spec fn water_of() -> spec_fn(AnimationPipelineCatalog) -> nat { |c: AnimationPipelineCatalog| c.water_preview_profiles as nat }
pub open spec fn seasonal_of() -> spec_fn(AnimationPipelineCatalog) -> nat { |c: AnimationPipelineCatalog| c.seasonal_animation_sets as nat }
pub open spec fn reports_of() -> spec_fn(AnimationPipelineCatalog) -> nat { |c: AnimationPipelineCatalog| c.validation_reports as nat }

/// Every total of the report fits in a `usize`.
pub open spec fn animation_totals_fit(cs: Seq<AnimationPipelineCatalog>) -> bool {
    &&& total(cs, schemas_of()) <= usize::MAX
    &&& total(cs, clips_of()) <= usize::MAX
    &&& total(cs, frames_of()) <= usize::MAX
    &&& total(cs, events_of()) <= usize::MAX
    &&& total(cs, groups_of()) <= usize::MAX
    &&& total(cs, socket_profiles_of()) <= usize::MAX
    &&& total(cs, sockets_of()) <= usize::MAX
    &&& total(cs, hitbox_profiles_of()) <= usize::MAX
    &&& total(cs, boxes_of()) <= usize::MAX
    &&& total(cs, water_of()) <= usize::MAX
    &&& total(cs, seasonal_of()) <= usize::MAX
    &&& total(cs, reports_of()) <= usize::MAX
}

impl EditorAnimationPipelineReport {
    /// Counts the pipelines and totals their lists, clip frames and frame
    /// events, sockets and hitbox boxes.
    pub fn from_registry(catalogs: &Vec<AnimationPipelineCatalog>) -> (r: Self)
        requires
            animation_totals_fit(catalogs@),
        ensures
            r.pipelines == catalogs@.len(),
            r.timeline_schemas == total(catalogs@, schemas_of()),
            r.animation_clips == total(catalogs@, clips_of()),
            r.frames == total(catalogs@, frames_of()),
            r.frame_events == total(catalogs@, events_of()),
            r.directional_groups == total(catalogs@, groups_of()),
            r.socket_profiles == total(catalogs@, socket_profiles_of()),
            r.socket_frames == total(catalogs@, sockets_of()),
            r.hitbox_profiles == total(catalogs@, hitbox_profiles_of()),
            r.hitbox_frames == total(catalogs@, boxes_of()),
            r.water_preview_profiles == total(catalogs@, water_of()),
            r.seasonal_animation_sets == total(catalogs@, seasonal_of()),
            r.validation_reports == total(catalogs@, reports_of()),
    {
        let mut r = Self {
            pipelines: catalogs.len(),
            timeline_schemas: 0,
            animation_clips: 0,
            frames: 0,
            frame_events: 0,
            directional_groups: 0,
            socket_profiles: 0,
            socket_frames: 0,
            hitbox_profiles: 0,
            hitbox_frames: 0,
            water_preview_profiles: 0,
            seasonal_animation_sets: 0,
            validation_reports: 0,
        };
        let mut i: usize = 0;
        while i < catalogs.len()
            invariant
                i <= catalogs.len(),
                animation_totals_fit(catalogs@),
                r.pipelines == catalogs@.len(),
                r.timeline_schemas == total(catalogs@.subrange(0, i as int), schemas_of()),
                r.animation_clips == total(catalogs@.subrange(0, i as int), clips_of()),
                r.frames == total(catalogs@.subrange(0, i as int), frames_of()),
                r.frame_events == total(catalogs@.subrange(0, i as int), events_of()),
                r.directional_groups == total(catalogs@.subrange(0, i as int), groups_of()),
                r.socket_profiles == total(catalogs@.subrange(0, i as int), socket_profiles_of()),
                r.socket_frames == total(catalogs@.subrange(0, i as int), sockets_of()),
                r.hitbox_profiles == total(catalogs@.subrange(0, i as int), hitbox_profiles_of()),
                r.hitbox_frames == total(catalogs@.subrange(0, i as int), boxes_of()),
                r.water_preview_profiles == total(catalogs@.subrange(0, i as int), water_of()),
                r.seasonal_animation_sets == total(catalogs@.subrange(0, i as int), seasonal_of()),
                r.validation_reports == total(catalogs@.subrange(0, i as int), reports_of()),
            decreases catalogs.len() - i,
        {
            let c = &catalogs[i];
            proof {
                lemma_total_step(catalogs@, schemas_of(), i as int);
                lemma_total_step(catalogs@, clips_of(), i as int);
                lemma_total_step(catalogs@, frames_of(), i as int);
                lemma_total_step(catalogs@, events_of(), i as int);
                lemma_total_step(catalogs@, groups_of(), i as int);
                lemma_total_step(catalogs@, socket_profiles_of(), i as int);
                lemma_total_step(catalogs@, sockets_of(), i as int);
                lemma_total_step(catalogs@, hitbox_profiles_of(), i as int);
                lemma_total_step(catalogs@, boxes_of(), i as int);
                lemma_total_step(catalogs@, water_of(), i as int);
                lemma_total_step(catalogs@, seasonal_of(), i as int);
                lemma_total_step(catalogs@, reports_of(), i as int);
            }
            let (frames, events) = nested_totals(&c.clip_frame_events);
            let sockets = sum_counts(&c.socket_profile_sockets);
            let boxes = sum_counts(&c.hitbox_profile_boxes);
            r.timeline_schemas = r.timeline_schemas + c.timeline_schemas;
            r.animation_clips = r.animation_clips + c.clip_frame_events.len();
            r.frames = r.frames + frames;
            r.frame_events = r.frame_events + events;
            r.directional_groups = r.directional_groups + c.directional_groups;
            r.socket_profiles = r.socket_profiles + c.socket_profile_sockets.len();
            r.socket_frames = r.socket_frames + sockets;
            r.hitbox_profiles = r.hitbox_profiles + c.hitbox_profile_boxes.len();
            r.hitbox_frames = r.hitbox_frames + boxes;
            r.water_preview_profiles = r.water_preview_profiles + c.water_preview_profiles;
            r.seasonal_animation_sets = r.seasonal_animation_sets + c.seasonal_animation_sets;
            r.validation_reports = r.validation_reports + c.validation_reports;
            i = i + 1;
        }
        assert(catalogs@.subrange(0, i as int) =~= catalogs@);
        r
    }

    /// The report as `key=value` pairs.
    pub open spec fn spec_summary(self) -> Seq<char> {
        "pipelines="@ + decimal(self.pipelines as nat) + " timeline_schemas="@ + decimal(self.timeline_schemas as nat)
            + " clips="@ + decimal(self.animation_clips as nat) + " frames="@ + decimal(self.frames as nat)
            + " events="@ + decimal(self.frame_events as nat) + " directional_groups="@
            + decimal(self.directional_groups as nat) + " socket_profiles="@ + decimal(self.socket_profiles as nat)
            + " socket_frames="@ + decimal(self.socket_frames as nat) + " hitbox_profiles="@
            + decimal(self.hitbox_profiles as nat) + " hitbox_frames="@ + decimal(self.hitbox_frames as nat)
            + " water_previews="@ + decimal(self.water_preview_profiles as nat) + " seasonal_sets="@
            + decimal(self.seasonal_animation_sets as nat) + " validation_reports="@
            + decimal(self.validation_reports as nat)
    }

    /// The report as `key=value` pairs.
    pub fn summary(&self) -> (r: String)
        ensures
            r@ == self.spec_summary(),
    {
        let mut s = String::new();
        push_str(&mut s, "pipelines=");
        push_decimal(&mut s, self.pipelines as u64);
        push_str(&mut s, " timeline_schemas=");
        push_decimal(&mut s, self.timeline_schemas as u64);
        push_str(&mut s, " clips=");
        push_decimal(&mut s, self.animation_clips as u64);
        push_str(&mut s, " frames=");
        push_decimal(&mut s, self.frames as u64);
        push_str(&mut s, " events=");
        push_decimal(&mut s, self.frame_events as u64);
        push_str(&mut s, " directional_groups=");
        push_decimal(&mut s, self.directional_groups as u64);
        push_str(&mut s, " socket_profiles=");
        push_decimal(&mut s, self.socket_profiles as u64);
        push_str(&mut s, " socket_frames=");
        push_decimal(&mut s, self.socket_frames as u64);
        push_str(&mut s, " hitbox_profiles=");
        push_decimal(&mut s, self.hitbox_profiles as u64);
        push_str(&mut s, " hitbox_frames=");
        push_decimal(&mut s, self.hitbox_frames as u64);
        push_str(&mut s, " water_previews=");
        push_decimal(&mut s, self.water_preview_profiles as u64);
        push_str(&mut s, " seasonal_sets=");
        push_decimal(&mut s, self.seasonal_animation_sets as u64);
        push_str(&mut s, " validation_reports=");
        push_decimal(&mut s, self.validation_reports as u64);
        assert(s@ =~= self.spec_summary());
        s
    }
}

} // verus!

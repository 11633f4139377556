//! Counts over the editor export/validation pipelines.
use vstd::prelude::*;
use crate::editor_core::counts::{lemma_total_step, seq_sum, sum_counts, total};
use crate::text::{decimal, push_decimal, push_str};

verus! {

/// What the report reads of one validation panel: the sizes of its issue
/// filter and jump target lists.
pub struct ValidationPanelCounts {
    pub issue_filters: usize,
    pub jump_targets: usize,
}

/// What the report reads of one export pipeline: the sizes of its lists,
/// its validation panels, the rule count of each autotile rule set and the
/// preview pair count of each transition rule editor.
pub struct ExportPipelineCatalog {
    pub export_profiles: usize,
    pub validation_panels: Vec<ValidationPanelCounts>,
    pub autotile_rule_counts: Vec<usize>,
    pub transition_preview_pair_counts: Vec<usize>,
    pub collision_interaction_profiles: usize,
    pub atlas_cleanup_manifests: usize,
}

/// Totals over all export pipelines.
pub struct EditorExportPipelineReport {
    pub pipelines: usize,
    pub export_profiles: usize,
    pub validation_panels: usize,
    pub validation_filters: usize,
    pub validation_jump_targets: usize,
    pub autotile_rule_sets: usize,
    pub autotile_rules: usize,
    pub transition_rule_editors: usize,
    pub transition_preview_pairs: usize,
    pub collision_interaction_profiles: usize,
    pub atlas_cleanup_manifests: usize,
}

pub open spec fn panel_filters() -> spec_fn(ValidationPanelCounts) -> nat { |p: ValidationPanelCounts| p.issue_filters as nat }
pub open spec fn panel_jumps() -> spec_fn(ValidationPanelCounts) -> nat { |p: ValidationPanelCounts| p.jump_targets as nat }

pub open spec fn profiles_of() -> spec_fn(ExportPipelineCatalog) -> nat { |c: ExportPipelineCatalog| c.export_profiles as nat }
pub open spec fn panels_of() -> spec_fn(ExportPipelineCatalog) -> nat { |c: ExportPipelineCatalog| c.validation_panels@.len() }
pub open spec fn filters_of() -> spec_fn(ExportPipelineCatalog) -> nat { |c: ExportPipelineCatalog| total(c.validation_panels@, panel_filters()) }
pub open spec fn jumps_of() -> spec_fn(ExportPipelineCatalog) -> nat { |c: ExportPipelineCatalog| total(c.validation_panels@, panel_jumps()) }
pub open spec fn rule_sets_of() -> spec_fn(ExportPipelineCatalog) -> nat { |c: ExportPipelineCatalog| c.autotile_rule_counts@.len() }
pub open spec fn rules_of() -> spec_fn(ExportPipelineCatalog) -> nat { |c: ExportPipelineCatalog| seq_sum(c.autotile_rule_counts@) }
pub open spec fn editors_of() -> spec_fn(ExportPipelineCatalog) -> nat { |c: ExportPipelineCatalog| c.transition_preview_pair_counts@.len() }
pub open spec fn pairs_of() -> spec_fn(ExportPipelineCatalog) -> nat { |c: ExportPipelineCatalog| seq_sum(c.transition_preview_pair_counts@) }
pub open spec fn collisions_of() -> spec_fn(ExportPipelineCatalog) -> nat { |c: ExportPipelineCatalog| c.collision_interaction_profiles as nat }
pub open spec fn cleanups_of() -> spec_fn(ExportPipelineCatalog) -> nat { |c: ExportPipelineCatalog| c.atlas_cleanup_manifests as nat }

/// Every total of the report fits in a `usize`.
pub open spec fn export_totals_fit(cs: Seq<ExportPipelineCatalog>) -> bool {
    &&& total(cs, profiles_of()) <= usize::MAX
    &&& total(cs, panels_of()) <= usize::MAX
    &&& total(cs, filters_of()) <= usize::MAX
    &&& total(cs, jumps_of()) <= usize::MAX
    &&& total(cs, rule_sets_of()) <= usize::MAX
    &&& total(cs, rules_of()) <= usize::MAX
    &&& total(cs, editors_of()) <= usize::MAX
    &&& total(cs, pairs_of()) <= usize::MAX
    &&& total(cs, collisions_of()) <= usize::MAX
    &&& total(cs, cleanups_of()) <= usize::MAX
}

fn panel_totals(panels: &Vec<ValidationPanelCounts>) -> (r: (usize, usize))
    requires
        total(panels@, panel_filters()) <= usize::MAX,
        total(panels@, panel_jumps()) <= usize::MAX,
    ensures
        r.0 == total(panels@, panel_filters()),
        r.1 == total(panels@, panel_jumps()),
{
    let mut filters: usize = 0;
    let mut jumps: usize = 0;
    let mut i: usize = 0;
    while i < panels.len()
        invariant
            i <= panels.len(),
            total(panels@, panel_filters()) <= usize::MAX,
            total(panels@, panel_jumps()) <= usize::MAX,
            filters == total(panels@.subrange(0, i as int), panel_filters()),
            jumps == total(panels@.subrange(0, i as int), panel_jumps()),
        decreases panels.len() - i,
    {
        proof {
            lemma_total_step(panels@, panel_filters(), i as int);
            lemma_total_step(panels@, panel_jumps(), i as int);
        }
        filters = filters + panels[i].issue_filters;
        jumps = jumps + panels[i].jump_targets;
        i = i + 1;
    }
    assert(panels@.subrange(0, i as int) =~= panels@);
    (filters, jumps)
}

impl EditorExportPipelineReport {
    /// Counts the pipelines and totals their lists, panel filters and jump
    /// targets, autotile rules and transition preview pairs.
    pub fn from_registry(catalogs: &Vec<ExportPipelineCatalog>) -> (r: Self)
        requires
            export_totals_fit(catalogs@),
        ensures
            r.pipelines == catalogs@.len(),
            r.export_profiles == total(catalogs@, profiles_of()),
            r.validation_panels == total(catalogs@, panels_of()),
            r.validation_filters == total(catalogs@, filters_of()),
            r.validation_jump_targets == total(catalogs@, jumps_of()),
            r.autotile_rule_sets == total(catalogs@, rule_sets_of()),
            r.autotile_rules == total(catalogs@, rules_of()),
            r.transition_rule_editors == total(catalogs@, editors_of()),
            r.transition_preview_pairs == total(catalogs@, pairs_of()),
            r.collision_interaction_profiles == total(catalogs@, collisions_of()),
            r.atlas_cleanup_manifests == total(catalogs@, cleanups_of()),
    {
        let mut r = Self {
            pipelines: catalogs.len(),
            export_profiles: 0,
            validation_panels: 0,
            validation_filters: 0,
            validation_jump_targets: 0,
            autotile_rule_sets: 0,
            autotile_rules: 0,
            transition_rule_editors: 0,
            transition_preview_pairs: 0,
            collision_interaction_profiles: 0,
            atlas_cleanup_manifests: 0,
        };
        let mut i: usize = 0;
        while i < catalogs.len()
            invariant
                i <= catalogs.len(),
                export_totals_fit(catalogs@),
                r.pipelines == catalogs@.len(),
                r.export_profiles == total(catalogs@.subrange(0, i as int), profiles_of()),
                r.validation_panels == total(catalogs@.subrange(0, i as int), panels_of()),
                r.validation_filters == total(catalogs@.subrange(0, i as int), filters_of()),
                r.validation_jump_targets == total(catalogs@.subrange(0, i as int), jumps_of()),
                r.autotile_rule_sets == total(catalogs@.subrange(0, i as int), rule_sets_of()),
                r.autotile_rules == total(catalogs@.subrange(0, i as int), rules_of()),
                r.transition_rule_editors == total(catalogs@.subrange(0, i as int), editors_of()),
                r.transition_preview_pairs == total(catalogs@.subrange(0, i as int), pairs_of()),
                r.collision_interaction_profiles == total(catalogs@.subrange(0, i as int), collisions_of()),
                r.atlas_cleanup_manifests == total(catalogs@.subrange(0, i as int), cleanups_of()),
            decreases catalogs.len() - i,
        {
            let c = &catalogs[i];
            proof {
                lemma_total_step(catalogs@, profiles_of(), i as int);
                lemma_total_step(catalogs@, panels_of(), i as int);
                lemma_total_step(catalogs@, filters_of(), i as int);
                lemma_total_step(catalogs@, jumps_of(), i as int);
                lemma_total_step(catalogs@, rule_sets_of(), i as int);
                lemma_total_step(catalogs@, rules_of(), i as int);
                lemma_total_step(catalogs@, editors_of(), i as int);
                lemma_total_step(catalogs@, pairs_of(), i as int);
                lemma_total_step(catalogs@, collisions_of(), i as int);
                lemma_total_step(catalogs@, cleanups_of(), i as int);
            }
            let (filters, jumps) = panel_totals(&c.validation_panels);
            let rules = sum_counts(&c.autotile_rule_counts);
            let pairs = sum_counts(&c.transition_preview_pair_counts);
            r.export_profiles = r.export_profiles + c.export_profiles;
            r.validation_panels = r.validation_panels + c.validation_panels.len();
            r.validation_filters = r.validation_filters + filters;
            r.validation_jump_targets = r.validation_jump_targets + jumps;
            r.autotile_rule_sets = r.autotile_rule_sets + c.autotile_rule_counts.len();
            r.autotile_rules = r.autotile_rules + rules;
            r.transition_rule_editors = r.transition_rule_editors + c.transition_preview_pair_counts.len();
            r.transition_preview_pairs = r.transition_preview_pairs + pairs;
            r.collision_interaction_profiles = r.collision_interaction_profiles + c.collision_interaction_profiles;
            r.atlas_cleanup_manifests = r.atlas_cleanup_manifests + c.atlas_cleanup_manifests;
            i = i + 1;
        }
        assert(catalogs@.subrange(0, i as int) =~= catalogs@);
        r
    }

    /// The report as `key=value` pairs.
    pub open spec fn spec_summary(self) -> Seq<char> {
        "pipelines="@ + decimal(self.pipelines as nat) + " export_profiles="@ + decimal(self.export_profiles as nat)
            + " validation_panels="@ + decimal(self.validation_panels as nat) + " filters="@
            + decimal(self.validation_filters as nat) + " jump_targets="@ + decimal(self.validation_jump_targets as nat)
            + " autotile_rule_sets="@ + decimal(self.autotile_rule_sets as nat) + " autotile_rules="@
            + decimal(self.autotile_rules as nat) + " transition_editors="@ + decimal(self.transition_rule_editors as nat)
            + " transition_preview_pairs="@ + decimal(self.transition_preview_pairs as nat) + " collision_profiles="@
            + decimal(self.collision_interaction_profiles as nat) + " cleanup_manifests="@
            + decimal(self.atlas_cleanup_manifests as nat)
    }

    /// The report as `key=value` pairs.
    pub fn summary(&self) -> (r: String)
        ensures
            r@ == self.spec_summary(),
    {
        let mut s = String::new();
        push_str(&mut s, "pipelines=");
        push_decimal(&mut s, self.pipelines as u64);
        push_str(&mut s, " export_profiles=");
        push_decimal(&mut s, self.export_profiles as u64);
        push_str(&mut s, " validation_panels=");
        push_decimal(&mut s, self.validation_panels as u64);
        push_str(&mut s, " filters=");
        push_decimal(&mut s, self.validation_filters as u64);
        push_str(&mut s, " jump_targets=");
        push_decimal(&mut s, self.validation_jump_targets as u64);
        push_str(&mut s, " autotile_rule_sets=");
        push_decimal(&mut s, self.autotile_rule_sets as u64);
        push_str(&mut s, " autotile_rules=");
        push_decimal(&mut s, self.autotile_rules as u64);
        push_str(&mut s, " transition_editors=");
        push_decimal(&mut s, self.transition_rule_editors as u64);
        push_str(&mut s, " transition_preview_pairs=");
        push_decimal(&mut s, self.transition_preview_pairs as u64);
        push_str(&mut s, " collision_profiles=");
        push_decimal(&mut s, self.collision_interaction_profiles as u64);
        push_str(&mut s, " cleanup_manifests=");
        push_decimal(&mut s, self.atlas_cleanup_manifests as u64);
        assert(s@ =~= self.spec_summary());
        s
    }
}

} // verus!

//! Counts over the editor atlas pipeline catalogs.
use vstd::prelude::*;
use crate::editor_core::counts::{count_flags, count_true, lemma_total_step, total};
use crate::text::{decimal, push_decimal, push_str};

verus! {

/// What the report reads of one atlas pipeline catalog: the editable flag
/// of each atlas and the sizes of its other lists.
pub struct AtlasPipelineCatalog {
    pub atlas_editable: Vec<bool>,
    pub season_sets: usize,
    pub water_animations: usize,
    pub clipboard_tools: usize,
    pub validation_checks: usize,
    pub game_preview_profiles: usize,
}

/// Totals over all atlas pipeline catalogs.
pub struct EditorAtlasPipelineReport {
    pub catalogs: usize,
    pub atlases: usize,
    pub editable_atlases: usize,
    pub season_sets: usize,
    pub water_animations: usize,
    pub clipboard_tools: usize,
    pub validation_checks: usize,
    pub game_preview_profiles: usize,
}

pub open spec fn atlas_count() -> spec_fn(AtlasPipelineCatalog) -> nat { |c: AtlasPipelineCatalog| c.atlas_editable@.len() }
pub open spec fn editable_count() -> spec_fn(AtlasPipelineCatalog) -> nat { |c: AtlasPipelineCatalog| count_true(c.atlas_editable@) }
pub open spec fn season_count() -> spec_fn(AtlasPipelineCatalog) -> nat { |c: AtlasPipelineCatalog| c.season_sets as nat }
pub open spec fn water_count() -> spec_fn(AtlasPipelineCatalog) -> nat { |c: AtlasPipelineCatalog| c.water_animations as nat }
pub open spec fn clipboard_count() -> spec_fn(AtlasPipelineCatalog) -> nat { |c: AtlasPipelineCatalog| c.clipboard_tools as nat }
pub open spec fn check_count() -> spec_fn(AtlasPipelineCatalog) -> nat { |c: AtlasPipelineCatalog| c.validation_checks as nat }
pub open spec fn preview_count() -> spec_fn(AtlasPipelineCatalog) -> nat { |c: AtlasPipelineCatalog| c.game_preview_profiles as nat }

/// Every total of the report fits in a `usize`.
pub open spec fn atlas_totals_fit(cs: Seq<AtlasPipelineCatalog>) -> bool {
    &&& total(cs, atlas_count()) <= usize::MAX
    &&& total(cs, season_count()) <= usize::MAX
    &&& total(cs, water_count()) <= usize::MAX
    &&& total(cs, clipboard_count()) <= usize::MAX
    &&& total(cs, check_count()) <= usize::MAX
    &&& total(cs, preview_count()) <= usize::MAX
}

impl Default for EditorAtlasPipelineReport {
    fn default() -> (r: Self)
        ensures
            r.catalogs == 0 && r.atlases == 0 && r.editable_atlases == 0 && r.season_sets == 0
                && r.water_animations == 0 && r.clipboard_tools == 0 && r.validation_checks == 0
                && r.game_preview_profiles == 0,
    {
        Self {
            catalogs: 0,
            atlases: 0,
            editable_atlases: 0,
            season_sets: 0,
            water_animations: 0,
            clipboard_tools: 0,
            validation_checks: 0,
            game_preview_profiles: 0,
        }
    }
}

impl EditorAtlasPipelineReport {
    /// Counts the catalogs and totals their atlases, editable atlases and
    /// other lists.
    pub fn from_registry(catalogs: &Vec<AtlasPipelineCatalog>) -> (r: Self)
        requires
            atlas_totals_fit(catalogs@),
        ensures
            r.catalogs == catalogs@.len(),
            r.atlases == total(catalogs@, atlas_count()),
            r.editable_atlases == total(catalogs@, editable_count()),
            r.season_sets == total(catalogs@, season_count()),
            r.water_animations == total(catalogs@, water_count()),
            r.clipboard_tools == total(catalogs@, clipboard_count()),
            r.validation_checks == total(catalogs@, check_count()),
            r.game_preview_profiles == total(catalogs@, preview_count()),
    {
        let mut report = Self::default();
        report.catalogs = catalogs.len();
        let mut i: usize = 0;
        while i < catalogs.len()
            invariant
                i <= catalogs.len(),
                atlas_totals_fit(catalogs@),
                report.catalogs == catalogs@.len(),
                report.atlases == total(catalogs@.subrange(0, i as int), atlas_count()),
                report.editable_atlases == total(catalogs@.subrange(0, i as int), editable_count()),
                report.editable_atlases <= report.atlases,
                report.season_sets == total(catalogs@.subrange(0, i as int), season_count()),
                report.water_animations == total(catalogs@.subrange(0, i as int), water_count()),
                report.clipboard_tools == total(catalogs@.subrange(0, i as int), clipboard_count()),
                report.validation_checks == total(catalogs@.subrange(0, i as int), check_count()),
                report.game_preview_profiles == total(catalogs@.subrange(0, i as int), preview_count()),
            decreases catalogs.len() - i,
        {
            let c = &catalogs[i];
            proof {
                lemma_total_step(catalogs@, atlas_count(), i as int);
                lemma_total_step(catalogs@, editable_count(), i as int);
                lemma_total_step(catalogs@, season_count(), i as int);
                lemma_total_step(catalogs@, water_count(), i as int);
                lemma_total_step(catalogs@, clipboard_count(), i as int);
                lemma_total_step(catalogs@, check_count(), i as int);
                lemma_total_step(catalogs@, preview_count(), i as int);
                crate::editor_core::counts::lemma_count_true_le(c.atlas_editable@);
                assert(atlas_count()(catalogs@[i as int]) == c.atlas_editable@.len());
                assert(total(catalogs@, atlas_count()) <= usize::MAX);
            }
            let editable = count_flags(&c.atlas_editable);
            report.atlases = report.atlases + c.atlas_editable.len();
            report.editable_atlases = report.editable_atlases + editable;
            report.season_sets = report.season_sets + c.season_sets;
            report.water_animations = report.water_animations + c.water_animations;
            report.clipboard_tools = report.clipboard_tools + c.clipboard_tools;
            report.validation_checks = report.validation_checks + c.validation_checks;
            report.game_preview_profiles = report.game_preview_profiles + c.game_preview_profiles;
            i = i + 1;
        }
        assert(catalogs@.subrange(0, i as int) =~= catalogs@);
        report
    }

    /// The report as `key=value` pairs.
    pub open spec fn spec_summary(self) -> Seq<char> {
        "catalogs="@ + decimal(self.catalogs as nat) + " atlases="@ + decimal(self.atlases as nat)
            + " editable_atlases="@ + decimal(self.editable_atlases as nat) + " season_sets="@
            + decimal(self.season_sets as nat) + " water_animations="@ + decimal(
            self.water_animations as nat,
        ) + " clipboard_tools="@ + decimal(self.clipboard_tools as nat) + " validation_checks="@
            + decimal(self.validation_checks as nat) + " game_preview_profiles="@ + decimal(
            self.game_preview_profiles as nat,
        )
    }

    /// The report as `key=value` pairs.
    pub fn summary(&self) -> (r: String)
        ensures
            r@ == self.spec_summary(),
    {
        let mut s = String::new();
        push_str(&mut s, "catalogs=");
        push_decimal(&mut s, self.catalogs as u64);
        push_str(&mut s, " atlases=");
        push_decimal(&mut s, self.atlases as u64);
        push_str(&mut s, " editable_atlases=");
        push_decimal(&mut s, self.editable_atlases as u64);
        push_str(&mut s, " season_sets=");
        push_decimal(&mut s, self.season_sets as u64);
        push_str(&mut s, " water_animations=");
        push_decimal(&mut s, self.water_animations as u64);
        push_str(&mut s, " clipboard_tools=");
        push_decimal(&mut s, self.clipboard_tools as u64);
        push_str(&mut s, " validation_checks=");
        push_decimal(&mut s, self.validation_checks as u64);
        push_str(&mut s, " game_preview_profiles=");
        push_decimal(&mut s, self.game_preview_profiles as u64);
        assert(s@ =~= self.spec_summary());
        s
    }
}

} // verus!

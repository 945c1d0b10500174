//! Asset pipeline reporting: bundle results and the build report.
use vstd::prelude::*;
use crate::build::cache_bust::AssetManifest;
use crate::reedstream::ReedError;
use crate::text::{decimal, push_str, push_usize, str_to_string};

verus! {

/// Result of bundling one CSS file.
#[derive(Debug, Clone)]
pub struct CssBundleResult {
    pub output_path: String,
    pub original_size: usize,
    pub minified_size: usize,
    pub reduction_percent: u32,
}

/// Result of bundling one JS file.
#[derive(Debug, Clone)]
pub struct JsBundleResult {
    pub output_path: String,
    pub original_size: usize,
    pub shaken_size: usize,
    pub minified_size: usize,
    pub reduction_percent: u32,
}

/// Build mode.
#[derive(Debug, Clone, Copy, PartialEq, Eq, Structural)]
pub enum BuildMode {
    /// Clean + full rebuild.
    Full,
    /// Only changed files.
    Incremental,
}

/// Build report.
#[derive(Debug, Clone)]
pub struct BuildReport {
    pub css_bundles: Vec<CssBundleResult>,
    pub js_bundles: Vec<JsBundleResult>,
    pub compressed_files: usize,
    pub manifest: AssetManifest,
    pub build_duration_secs: u64,
    pub total_files: usize,
    pub original_size: usize,
    pub total_size: usize,
    pub size_reduction_percent: u32,
}

pub open spec fn css_original(s: Seq<CssBundleResult>) -> int
    decreases s.len(),
{
    if s.len() == 0 { 0 } else { css_original(s.drop_last()) + s.last().original_size }
}

pub open spec fn css_minified(s: Seq<CssBundleResult>) -> int
    decreases s.len(),
{
    if s.len() == 0 { 0 } else { css_minified(s.drop_last()) + s.last().minified_size }
}

pub open spec fn js_original(s: Seq<JsBundleResult>) -> int
    decreases s.len(),
{
    if s.len() == 0 { 0 } else { js_original(s.drop_last()) + s.last().original_size }
}

pub open spec fn js_minified(s: Seq<JsBundleResult>) -> int
    decreases s.len(),
{
    if s.len() == 0 { 0 } else { js_minified(s.drop_last()) + s.last().minified_size }
}

impl BuildReport {
    /// Creates a new empty build report.
    pub fn new() -> (r: BuildReport)
        ensures
            r.css_bundles@.len() == 0,
            r.js_bundles@.len() == 0,
            r.compressed_files == 0,
            r.manifest.entries.wf(),
            r.manifest.entries.entries().len() == 0,
            r.build_duration_secs == 0,
            r.total_files == 0,
            r.original_size == 0,
            r.total_size == 0,
            r.size_reduction_percent == 0,
    {
        BuildReport {
            css_bundles: Vec::new(),
            js_bundles: Vec::new(),
            compressed_files: 0,
            manifest: AssetManifest::new(),
            build_duration_secs: 0,
            total_files: 0,
            original_size: 0,
            total_size: 0,
            size_reduction_percent: 0,
        }
    }

    /// The original size the totals are computed from: the bundles' sum,
    /// or the recorded size when there are no bundles.
    pub open spec fn original_total(&self) -> int {
        if self.css_bundles@.len() + self.js_bundles@.len() == 0 {
            self.original_size as int
        } else {
            css_original(self.css_bundles@) + js_original(self.js_bundles@)
        }
    }

    /// The minified size the totals are computed from.
    pub open spec fn minified_total(&self) -> int {
        if self.css_bundles@.len() + self.js_bundles@.len() == 0 {
            self.total_size as int
        } else {
            css_minified(self.css_bundles@) + js_minified(self.js_bundles@)
        }
    }

    /// Totals that fit their types and a minified size not above the
    /// original size.
    pub open spec fn totals_in_range(&self) -> bool {
        &&& self.css_bundles@.len() + self.js_bundles@.len() <= usize::MAX
        &&& self.original_total() <= usize::MAX
        &&& self.minified_total() * 100 <= usize::MAX
        &&& self.minified_total() <= self.original_total()
    }

    /// Calculates totals from the bundle data.
    ///
    /// The file count is the number of bundles; the sizes are the bundles'
    /// sums (left as recorded when there are no bundles); the reduction is
    /// `100 - minified * 100 / original` when the original size is not zero.
    pub fn calculate_totals(&mut self)
        requires
            old(self).totals_in_range(),
        ensures
            final(self).total_files == old(self).css_bundles@.len() + old(self).js_bundles@.len(),
            final(self).original_size == old(self).original_total(),
            final(self).total_size == old(self).minified_total(),
            final(self).size_reduction_percent == if old(self).original_total() > 0 {
                (100 - old(self).minified_total() * 100 / old(self).original_total()) as u32
            } else {
                old(self).size_reduction_percent
            },
            final(self).css_bundles@ == old(self).css_bundles@,
            final(self).js_bundles@ == old(self).js_bundles@,
            final(self).compressed_files == old(self).compressed_files,
            final(self).build_duration_secs == old(self).build_duration_secs,
            final(self).manifest == old(self).manifest,
    {
        self.total_files = self.css_bundles.len() + self.js_bundles.len();
        if self.css_bundles.len() + self.js_bundles.len() > 0 {
            let ghost orig_total = self.original_total();
            let ghost min_total = self.minified_total();
            let mut orig: usize = 0;
            let mut min: usize = 0;
            let mut i: usize = 0;
            while i < self.css_bundles.len()
                invariant
                    i <= self.css_bundles@.len(),
                    orig == css_original(self.css_bundles@.take(i as int)),
                    min == css_minified(self.css_bundles@.take(i as int)),
                    orig_total == css_original(self.css_bundles@) + js_original(self.js_bundles@),
                    min_total == css_minified(self.css_bundles@) + js_minified(self.js_bundles@),
                    orig_total <= usize::MAX,
                    min_total <= usize::MAX,
                decreases self.css_bundles.len() - i,
            {
                proof {
                    lemma_css_prefix(self.css_bundles@, i as int + 1);
                    lemma_js_nonneg(self.js_bundles@);
                    assert(self.css_bundles@.take(i + 1).drop_last() =~= self.css_bundles@.take(i as int));
                }
                orig = orig + self.css_bundles[i].original_size;
                min = min + self.css_bundles[i].minified_size;
                i += 1;
            }
            assert(self.css_bundles@.take(i as int) =~= self.css_bundles@);
            let mut j: usize = 0;
            while j < self.js_bundles.len()
                invariant
                    j <= self.js_bundles@.len(),
                    orig == css_original(self.css_bundles@) + js_original(self.js_bundles@.take(j as int)),
                    min == css_minified(self.css_bundles@) + js_minified(self.js_bundles@.take(j as int)),
                    orig_total == css_original(self.css_bundles@) + js_original(self.js_bundles@),
                    min_total == css_minified(self.css_bundles@) + js_minified(self.js_bundles@),
                    orig_total <= usize::MAX,
                    min_total <= usize::MAX,
                decreases self.js_bundles.len() - j,
            {
                proof {
                    lemma_js_prefix(self.js_bundles@, j as int + 1);
                    assert(self.js_bundles@.take(j + 1).drop_last() =~= self.js_bundles@.take(j as int));
                }
                orig = orig + self.js_bundles[j].original_size;
                min = min + self.js_bundles[j].minified_size;
                j += 1;
            }
            assert(self.js_bundles@.take(j as int) =~= self.js_bundles@);
            self.original_size = orig;
            self.total_size = min;
        }
        if self.original_size > 0 {
            let ratio = (self.total_size * 100) / self.original_size;
            proof {
                let t: int = self.total_size as int;
                let o: int = self.original_size as int;
                assert(t * 100 / o <= 100) by (nonlinear_arith)
                    requires
                        0 <= t <= o,
                        o > 0,
                ;
            }
            self.size_reduction_percent = 100 - ratio as u32;
        }
    }
}

proof fn lemma_css_prefix(s: Seq<CssBundleResult>, n: int)
    requires
        0 <= n <= s.len(),
    ensures
        0 <= css_original(s.take(n)) <= css_original(s),
        0 <= css_minified(s.take(n)) <= css_minified(s),
    decreases s.len() - n,
{
    if n < s.len() {
        lemma_css_prefix(s, n + 1);
        lemma_css_nonneg(s.take(n));
        assert(s.take(n + 1).drop_last() =~= s.take(n));
    } else {
        assert(s.take(n) =~= s);
        lemma_css_nonneg(s);
    }
}

proof fn lemma_css_nonneg(s: Seq<CssBundleResult>)
    ensures
        css_original(s) >= 0,
        css_minified(s) >= 0,
    decreases s.len(),
{
    if s.len() > 0 {
        lemma_css_nonneg(s.drop_last());
    }
}

proof fn lemma_js_prefix(s: Seq<JsBundleResult>, n: int)
    requires
        0 <= n <= s.len(),
    ensures
        0 <= js_original(s.take(n)) <= js_original(s),
        0 <= js_minified(s.take(n)) <= js_minified(s),
    decreases s.len() - n,
{
    if n < s.len() {
        lemma_js_prefix(s, n + 1);
        lemma_js_nonneg(s.take(n));
        assert(s.take(n + 1).drop_last() =~= s.take(n));
    } else {
        assert(s.take(n) =~= s);
        lemma_js_nonneg(s);
    }
}

proof fn lemma_js_nonneg(s: Seq<JsBundleResult>)
    ensures
        js_original(s) >= 0,
        js_minified(s) >= 0,
    decreases s.len(),
{
    if s.len() > 0 {
        lemma_js_nonneg(s.drop_last());
    }
}

// ---------------------------------------------------------------------------
// Stages of a pipeline run
// ---------------------------------------------------------------------------

/// A stage of a pipeline run, in order: clean (full builds only), CSS
/// bundles, JS bundles, pre-compression, cache busting.
#[derive(Debug, Clone, Copy, PartialEq, Eq, Structural)]
pub enum PipelineStage {
    Clean,
    Css,
    Js,
    Compress,
    CacheBust,
    Finished,
}

/// The first stage of a run: a full build cleans first.
pub fn first_stage(mode: BuildMode) -> (s: PipelineStage)
    ensures
        s == (if mode == BuildMode::Full { PipelineStage::Clean } else { PipelineStage::Css }),
{
    match mode {
        BuildMode::Full => PipelineStage::Clean,
        BuildMode::Incremental => PipelineStage::Css,
    }
}

pub open spec fn next_stage_spec(s: PipelineStage) -> PipelineStage {
    match s {
        PipelineStage::Clean => PipelineStage::Css,
        PipelineStage::Css => PipelineStage::Js,
        PipelineStage::Js => PipelineStage::Compress,
        PipelineStage::Compress => PipelineStage::CacheBust,
        _ => PipelineStage::Finished,
    }
}

/// The stage after one that succeeded.
pub fn next_stage(s: PipelineStage) -> (r: PipelineStage)
    ensures
        r == next_stage_spec(s),
{
    match s {
        PipelineStage::Clean => PipelineStage::Css,
        PipelineStage::Css => PipelineStage::Js,
        PipelineStage::Js => PipelineStage::Compress,
        PipelineStage::Compress => PipelineStage::CacheBust,
        _ => PipelineStage::Finished,
    }
}

pub open spec fn stage_heading_spec(s: PipelineStage) -> Seq<char> {
    match s {
        PipelineStage::Clean => "[1/5] Cleaning previous build..."@,
        PipelineStage::Css => "[2/5] Building CSS bundles..."@,
        PipelineStage::Js => "[3/5] Building JS bundles..."@,
        PipelineStage::Compress => "[4/5] Pre-compressing assets..."@,
        PipelineStage::CacheBust => "[5/5] Generating cache-busted filenames..."@,
        PipelineStage::Finished => "✓ Build complete"@,
    }
}

/// The line printed when a stage starts.
pub fn stage_heading(s: PipelineStage) -> (r: &'static str)
    ensures
        r@ == stage_heading_spec(s),
{
    match s {
        PipelineStage::Clean => "[1/5] Cleaning previous build...",
        PipelineStage::Css => "[2/5] Building CSS bundles...",
        PipelineStage::Js => "[3/5] Building JS bundles...",
        PipelineStage::Compress => "[4/5] Pre-compressing assets...",
        PipelineStage::CacheBust => "[5/5] Generating cache-busted filenames...",
        PipelineStage::Finished => "✓ Build complete",
    }
}

/// The component and the reason prefix of a stage's failure; cleaning
/// fails with its own I/O error.
pub open spec fn stage_failure_parts(s: PipelineStage) -> Option<(Seq<char>, Seq<char>)> {
    match s {
        PipelineStage::Css => Some(("css_bundler"@, "CSS bundling failed: "@)),
        PipelineStage::Js => Some(("js_bundler"@, "JS bundling failed: "@)),
        PipelineStage::Compress => Some(("precompress"@, "Pre-compression failed: "@)),
        PipelineStage::CacheBust => Some(("cache_bust"@, "Cache busting failed: "@)),
        _ => None,
    }
}

/// The error that ends a run whose stage failed for `cause` (the failing
/// step's error, written out); `None` for the stages whose error is
/// passed on as it is.
pub fn stage_failure(s: PipelineStage, cause: &str) -> (r: Option<ReedError>)
    ensures
        match stage_failure_parts(s) {
            Some((component, prefix)) => r matches Some(ReedError::BuildError { component: c, reason })
                && c@ == component && reason@ == prefix + cause@,
            None => r is None,
        },
{
    let (component, prefix) = match s {
        PipelineStage::Css => ("css_bundler", "CSS bundling failed: "),
        PipelineStage::Js => ("js_bundler", "JS bundling failed: "),
        PipelineStage::Compress => ("precompress", "Pre-compression failed: "),
        PipelineStage::CacheBust => ("cache_bust", "Cache busting failed: "),
        _ => {
            return None;
        },
    };
    let mut reason = str_to_string(prefix);
    push_str(&mut reason, cause);
    Some(ReedError::BuildError { component: str_to_string(component), reason })
}

/// The line printed when cleaning, pre-compression or cache busting is
/// done; `count` is the number of files compressed or renamed.
pub fn stage_done_line(s: PipelineStage, count: usize) -> (r: Option<String>)
    ensures
        match s {
            PipelineStage::Clean => r matches Some(t) && t@ == "✓ Cleaned public/ directory\n"@,
            PipelineStage::Compress => r matches Some(t) && t@ == "✓ "@ + decimal(count as nat)
                + " files compressed (gzip + brotli)\n"@,
            PipelineStage::CacheBust => r matches Some(t) && t@ == "✓ "@ + decimal(count as nat)
                + " files renamed with content hashes\n"@,
            _ => r is None,
        },
{
    match s {
        PipelineStage::Clean => Some(str_to_string("✓ Cleaned public/ directory\n")),
        PipelineStage::Compress => {
            let mut t = str_to_string("✓ ");
            push_usize(&mut t, count);
            push_str(&mut t, " files compressed (gzip + brotli)\n");
            Some(t)
        },
        PipelineStage::CacheBust => {
            let mut t = str_to_string("✓ ");
            push_usize(&mut t, count);
            push_str(&mut t, " files renamed with content hashes\n");
            Some(t)
        },
        _ => None,
    }
}

/// A run visits the stages in order and ends: from any stage, at most
/// five steps reach `Finished`, which stays.
pub proof fn lemma_pipeline_ends(s: PipelineStage)
    ensures
        next_stage_spec(next_stage_spec(next_stage_spec(next_stage_spec(next_stage_spec(s)))))
            == PipelineStage::Finished,
        next_stage_spec(PipelineStage::Finished) == PipelineStage::Finished,
{
}

} // verus!

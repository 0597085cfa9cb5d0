//! Data model: note formats, bundle modes, candidates, warnings, notes and
//! the configuration the pipeline reads.

use vstd::prelude::*;
use crate::text::str_eq;

verus! {

/// The declared input dialect; it fixes the section labels recognised.
#[derive(Clone, Copy, Debug, PartialEq, Eq, Structural)]
pub enum NoteFormat {
    /// Subjective, Objective, Assessment, Plan: all mandatory.
    Soap,
    /// Chief Complaint and Plan mandatory; History, Exam, Assessment optional.
    Progress,
}

/// How one document is split into notes.
#[derive(Clone, Copy, Debug, PartialEq, Eq, Structural)]
pub enum BundleMode {
    Single,
    Delimiter,
    /// Split where the format's leading section label recurs.
    Marker,
}

/// The pipeline stage that raised a warning.
#[derive(Clone, Copy, Debug, PartialEq, Eq, Structural)]
pub enum Stage {
    BundleSplit,
    Extraction,
    Assembly,
}

/// How a candidate was found.
#[derive(Clone, Copy, Debug, PartialEq, Eq, Structural)]
pub enum Origin {
    Rule,
    Heuristic,
    Unclassified,
}

pub struct WarningView {
    pub stage: Stage,
    pub message: Seq<char>,
}

#[derive(Clone, Debug)]
pub struct Warning {
    pub stage: Stage,
    pub message: String,
}

impl View for Warning {
    type V = WarningView;

    open spec fn view(&self) -> WarningView {
        WarningView { stage: self.stage, message: self.message@ }
    }
}

pub struct CandidateView {
    pub label: Seq<char>,
    pub content: Seq<char>,
    pub origin: Origin,
}

/// One recognised section of a note, before assembly.
#[derive(Clone, Debug)]
pub struct ExtractionCandidate {
    pub label: String,
    pub content: String,
    pub origin: Origin,
}

impl View for ExtractionCandidate {
    type V = CandidateView;

    open spec fn view(&self) -> CandidateView {
        CandidateView { label: self.label@, content: self.content@, origin: self.origin }
    }
}

pub struct SectionView {
    pub label: Seq<char>,
    pub content: Seq<char>,
}

#[derive(Clone, Debug)]
pub struct Section {
    pub label: String,
    pub content: String,
}

impl View for Section {
    type V = SectionView;

    open spec fn view(&self) -> SectionView {
        SectionView { label: self.label@, content: self.content@ }
    }
}

/// The assembled record of one note.
#[derive(Clone, Debug)]
pub struct StructuredNote {
    pub format: NoteFormat,
    /// Section label to content, labels unique, in order of first appearance.
    pub sections: Vec<Section>,
    /// 1-based position of the note within its bundle.
    pub ordinal: usize,
    pub source: Option<String>,
    pub warnings: Vec<Warning>,
}

pub open spec fn warning_views(ws: Seq<Warning>) -> Seq<WarningView> {
    ws.map_values(|w: Warning| w@)
}

pub open spec fn candidate_views(cs: Seq<ExtractionCandidate>) -> Seq<CandidateView> {
    cs.map_values(|c: ExtractionCandidate| c@)
}

pub open spec fn section_views(ss: Seq<Section>) -> Seq<SectionView> {
    ss.map_values(|s: Section| s@)
}

pub proof fn lemma_warning_views_push(ws: Seq<Warning>, w: Warning)
    ensures
        warning_views(ws.push(w)) == warning_views(ws).push(w@),
{
    assert(warning_views(ws.push(w)) =~= warning_views(ws).push(w@));
}

pub proof fn lemma_warning_views_concat(a: Seq<Warning>, b: Seq<Warning>)
    ensures
        warning_views(a + b) == warning_views(a) + warning_views(b),
{
    assert(warning_views(a + b) =~= warning_views(a) + warning_views(b));
}

pub proof fn lemma_candidate_views_push(cs: Seq<ExtractionCandidate>, c: ExtractionCandidate)
    ensures
        candidate_views(cs.push(c)) == candidate_views(cs).push(c@),
{
    assert(candidate_views(cs.push(c)) =~= candidate_views(cs).push(c@));
}

pub proof fn lemma_section_views_push(ss: Seq<Section>, s: Section)
    ensures
        section_views(ss.push(s)) == section_views(ss).push(s@),
{
    assert(section_views(ss.push(s)) =~= section_views(ss).push(s@));
}

pub open spec fn setting_ok(key: Seq<char>, value: Seq<char>) -> bool {
    (key == "bundle.mode_default"@ && (value == "single"@ || value == "delimiter"@ || value
        == "marker"@)) || key == "bundle.delimiter"@ || (key == "enable_fallback_heuristics"@ && (
    value == "true"@ || value == "false"@)) || key == "glob_default"@
}

pub open spec fn mode_named(value: Seq<char>) -> BundleMode {
    if value == "single"@ {
        BundleMode::Single
    } else if value == "delimiter"@ {
        BundleMode::Delimiter
    } else {
        BundleMode::Marker
    }
}

/// Bundle settings of the configuration.
#[derive(Clone, Debug)]
pub struct BundleConfig {
    pub mode_default: BundleMode,
    /// A line equal to this text separates notes in delimiter mode.
    pub delimiter: String,
}

/// Extraction parameters supplied by the configuration.
#[derive(Clone, Debug)]
pub struct Config {
    pub bundle: BundleConfig,
    pub enable_fallback_heuristics: bool,
    pub glob_default: String,
}

impl Config {
    /// Single-note bundles, `---` delimiter, heuristics off, `*.txt` files.
    pub fn default_config() -> (r: Config)
        ensures
            r.bundle.mode_default == BundleMode::Single,
            r.bundle.delimiter@ == "---"@,
            !r.enable_fallback_heuristics,
            r.glob_default@ == "*.txt"@,
    {
        Config {
            bundle: BundleConfig {
                mode_default: BundleMode::Single,
                delimiter: String::from_str("---"),
            },
            enable_fallback_heuristics: false,
            glob_default: String::from_str("*.txt"),
        }
    }

    /// Sets one setting by name. Known names: `bundle.mode_default`
    /// (`single`, `delimiter` or `marker`), `bundle.delimiter`,
    /// `enable_fallback_heuristics` (`true` or `false`) and `glob_default`.
    /// Returns false, changing nothing, for another name or value.
    pub fn apply_setting(&mut self, key: &str, value: &str) -> (r: bool)
        ensures
            r == setting_ok(key@, value@),
            !r ==> *final(self) == *old(self),
            r ==> final(self).bundle.mode_default == if key@ == "bundle.mode_default"@ {
                mode_named(value@)
            } else {
                old(self).bundle.mode_default
            },
            r ==> final(self).bundle.delimiter@ == if key@ == "bundle.delimiter"@ {
                value@
            } else {
                old(self).bundle.delimiter@
            },
            r ==> final(self).enable_fallback_heuristics == if key@
                == "enable_fallback_heuristics"@ {
                value@ == "true"@
            } else {
                old(self).enable_fallback_heuristics
            },
            r ==> final(self).glob_default@ == if key@ == "glob_default"@ {
                value@
            } else {
                old(self).glob_default@
            },
    {
        proof {
            reveal_strlit("bundle.mode_default");
            reveal_strlit("bundle.delimiter");
            reveal_strlit("enable_fallback_heuristics");
            reveal_strlit("glob_default");
            reveal_strlit("true");
            reveal_strlit("false");
            assert("bundle.mode_default"@.len() == 19);
            assert("bundle.delimiter"@.len() == 16);
            assert("enable_fallback_heuristics"@.len() == 26);
            assert("glob_default"@.len() == 12);
            assert("true"@.len() == 4);
            assert("false"@.len() == 5);
        }
        if str_eq(key, "bundle.mode_default") {
            if str_eq(value, "single") {
                self.bundle.mode_default = BundleMode::Single;
                true
            } else if str_eq(value, "delimiter") {
                self.bundle.mode_default = BundleMode::Delimiter;
                true
            } else if str_eq(value, "marker") {
                self.bundle.mode_default = BundleMode::Marker;
                true
            } else {
                false
            }
        } else if str_eq(key, "bundle.delimiter") {
            self.bundle.delimiter = String::from_str(value);
            true
        } else if str_eq(key, "enable_fallback_heuristics") {
            if str_eq(value, "true") {
                self.enable_fallback_heuristics = true;
                true
            } else if str_eq(value, "false") {
                self.enable_fallback_heuristics = false;
                true
            } else {
                false
            }
        } else if str_eq(key, "glob_default") {
            self.glob_default = String::from_str(value);
            true
        } else {
            false
        }
    }
}

} // verus!

//! Command model and the per-document pipeline: split, extract, assemble.

use vstd::prelude::*;
use crate::assembler::{assemble_spec, build_note};
use crate::extractor::{
    extract_candidates, extract_candidates_spec, extract_warnings_spec, ParseOptions,
};
use crate::models::{
    candidate_views, lemma_warning_views_push, warning_views, BundleMode, Config, NoteFormat,
    StructuredNote, Warning, WarningView,
};
use crate::splitter::{split_bundle, split_spec};
use crate::text::views;

verus! {

/// The serialisation the renderer is asked for.
#[derive(Clone, Copy, Debug, PartialEq, Eq, Structural)]
pub enum OutputFormat {
    Json,
    Csv,
    Text,
}

impl OutputFormat {
    pub open spec fn extension_spec(self) -> Seq<char> {
        match self {
            OutputFormat::Json => "json"@,
            OutputFormat::Csv => "csv"@,
            OutputFormat::Text => "txt"@,
        }
    }

    /// File extension of the format.
    pub fn extension(self) -> (r: &'static str)
        ensures
            r@ == self.extension_spec(),
    {
        match self {
            OutputFormat::Json => "json",
            OutputFormat::Csv => "csv",
            OutputFormat::Text => "txt",
        }
    }
}

/// Arguments of a single-document run.
#[derive(Clone, Debug)]
pub struct ParseArgs {
    pub input: String,
    pub format: NoteFormat,
    pub out: String,
    pub out_format: OutputFormat,
    pub config: Option<String>,
    pub bundle: Option<BundleMode>,
    pub interactive: bool,
}

/// Arguments of a batch run over the files a pattern selects.
#[derive(Clone, Debug)]
pub struct BatchArgs {
    pub input_dir: String,
    pub glob: Option<String>,
    pub format: NoteFormat,
    pub out_dir: String,
    pub out_format: OutputFormat,
    pub config: Option<String>,
    pub bundle: Option<BundleMode>,
}

/// Arguments of sample generation.
#[derive(Clone, Debug)]
pub struct SampleArgs {
    pub out_dir: String,
    pub n: usize,
    pub bundles: Option<usize>,
}

/// Arguments of configuration validation.
#[derive(Clone, Debug)]
pub struct ValidateArgs {
    pub config: String,
}

#[derive(Clone, Debug)]
pub enum Commands {
    Parse(ParseArgs),
    Batch(BatchArgs),
    Sample(SampleArgs),
    Validate(ValidateArgs),
}

#[derive(Clone, Debug)]
pub struct Cli {
    pub command: Commands,
}

/// What a command asks to be done, with every default resolved.
#[derive(Clone, Debug)]
pub enum Job {
    Parse {
        input: String,
        out: String,
        format: NoteFormat,
        out_format: OutputFormat,
        bundle: BundleMode,
        interactive: bool,
        apply_heuristics: bool,
    },
    Batch {
        pattern: String,
        out_dir: String,
        format: NoteFormat,
        out_format: OutputFormat,
        bundle: BundleMode,
        apply_heuristics: bool,
    },
    Sample { out_dir: String, n: usize, bundles: usize },
    Validate { config: String },
}

/// `dir` and `p` joined by one `/`; an absolute `p` (starting with `/`)
/// stands alone.
pub open spec fn join_path(dir: Seq<char>, p: Seq<char>) -> Seq<char> {
    if dir.len() == 0 || (p.len() > 0 && p[0] == '/') {
        p
    } else if dir.last() == '/' {
        dir + p
    } else {
        dir + "/"@ + p
    }
}

pub fn join_path_exec(dir: &str, p: &str) -> (r: String)
    ensures
        r@ == join_path(dir@, p@),
{
    let n = dir.unicode_len();
    if n == 0 || (p.unicode_len() > 0 && p.get_char(0) == '/') {
        return String::from_str(p);
    }
    let mut r = String::from_str(dir);
    if dir.get_char(n - 1) != '/' {
        r.append("/");
    }
    r.append(p);
    r
}

pub open spec fn bundle_or(b: Option<BundleMode>, config: Config) -> BundleMode {
    match b {
        Some(m) => m,
        None => config.bundle.mode_default,
    }
}

fn bundle_or_exec(b: Option<BundleMode>, config: &Config) -> (r: BundleMode)
    ensures
        r == bundle_or(b, *config),
{
    match b {
        Some(m) => m,
        None => config.bundle.mode_default,
    }
}

impl Commands {
    /// The configuration file a command names, if any.
    pub fn config_path(&self) -> (r: Option<String>)
        ensures
            match self {
                Commands::Parse(a) => r == a.config,
                Commands::Batch(a) => r == a.config,
                Commands::Sample(_) => r is None,
                Commands::Validate(a) => r == Some(a.config),
            },
    {
        match self {
            Commands::Parse(a) => match &a.config {
                Some(c) => Some(c.clone()),
                None => None,
            },
            Commands::Batch(a) => match &a.config {
                Some(c) => Some(c.clone()),
                None => None,
            },
            Commands::Sample(_) => None,
            Commands::Validate(a) => Some(a.config.clone()),
        }
    }
}

/// Resolves the command against the configuration: the bundle mode defaults
/// to the configured one, the heuristic toggle comes from the configuration,
/// the batch pattern is the input directory joined with the given or the
/// configured glob, and the sample bundle count defaults to zero.
pub fn run(cli: &Cli, config: &Config) -> (r: Job)
    ensures
        match (cli.command, r) {
            (
                Commands::Parse(a),
                Job::Parse { input, out, format, out_format, bundle, interactive, apply_heuristics },
            ) => input == a.input && out == a.out && format == a.format && out_format
                == a.out_format && bundle == bundle_or(a.bundle, *config) && interactive
                == a.interactive && apply_heuristics == config.enable_fallback_heuristics,
            (
                Commands::Batch(a),
                Job::Batch { pattern, out_dir, format, out_format, bundle, apply_heuristics },
            ) => pattern@ == join_path(
                a.input_dir@,
                match a.glob {
                    Some(g) => g@,
                    None => config.glob_default@,
                },
            ) && out_dir == a.out_dir && format == a.format && out_format == a.out_format
                && bundle == bundle_or(a.bundle, *config) && apply_heuristics
                == config.enable_fallback_heuristics,
            (Commands::Sample(a), Job::Sample { out_dir, n, bundles }) => out_dir == a.out_dir && n
                == a.n && bundles == match a.bundles {
                Some(b) => b,
                None => 0,
            },
            (Commands::Validate(a), Job::Validate { config: c }) => c == a.config,
            _ => false,
        },
{
    match &cli.command {
        Commands::Parse(a) => Job::Parse {
            input: a.input.clone(),
            out: a.out.clone(),
            format: a.format,
            out_format: a.out_format,
            bundle: bundle_or_exec(a.bundle, config),
            interactive: a.interactive,
            apply_heuristics: config.enable_fallback_heuristics,
        },
        Commands::Batch(a) => {
            let pattern = match &a.glob {
                Some(g) => join_path_exec(a.input_dir.as_str(), g.as_str()),
                None => join_path_exec(a.input_dir.as_str(), config.glob_default.as_str()),
            };
            Job::Batch {
                pattern,
                out_dir: a.out_dir.clone(),
                format: a.format,
                out_format: a.out_format,
                bundle: bundle_or_exec(a.bundle, config),
                apply_heuristics: config.enable_fallback_heuristics,
            }
        },
        Commands::Sample(a) => Job::Sample {
            out_dir: a.out_dir.clone(),
            n: a.n,
            bundles: match a.bundles {
                Some(b) => b,
                None => 0,
            },
        },
        Commands::Validate(a) => Job::Validate { config: a.config.clone() },
    }
}

/// The sections of the note assembled from `text`.
pub open spec fn note_sections(f: NoteFormat, text: Seq<char>, apply: bool) -> Seq<
    crate::models::SectionView,
> {
    assemble_spec(extract_candidates_spec(f, text, apply)).0
}

/// The warnings of the note assembled from `text`: extraction, then
/// document-level, then assembly warnings.
pub open spec fn note_warnings_spec(
    f: NoteFormat,
    text: Seq<char>,
    apply: bool,
    bundle_ws: Seq<WarningView>,
) -> Seq<WarningView> {
    extract_warnings_spec(f, text, apply) + bundle_ws + assemble_spec(
        extract_candidates_spec(f, text, apply),
    ).1
}

/// Whether `notes` is what the pipeline makes of `text`: one note per split
/// note text, in document order, with ordinals `1..=N`.
pub open spec fn pipeline_result(
    notes: Seq<StructuredNote>,
    text: Seq<char>,
    f: NoteFormat,
    mode: BundleMode,
    config: Config,
    apply: bool,
    source: Option<String>,
) -> bool {
    let (texts, bws) = split_spec(text, mode, f, config.bundle.delimiter@);
    &&& notes.len() == texts.len()
    &&& forall|i: int|
        0 <= i < notes.len() ==> {
            &&& (#[trigger] notes[i]).ordinal == i + 1
            &&& notes[i].format == f
            &&& notes[i].source == source
            &&& crate::models::section_views(notes[i].sections@) == note_sections(f, texts[i], apply)
            &&& warning_views(notes[i].warnings@) == note_warnings_spec(f, texts[i], apply, bws)
        }
}

/// Two runs of the pipeline on the same document, format, bundle mode,
/// configuration and options give the same notes: the same number, and for
/// each the same ordinal, sections and warnings.
pub proof fn lemma_deterministic(
    r1: Seq<StructuredNote>,
    r2: Seq<StructuredNote>,
    text: Seq<char>,
    f: NoteFormat,
    mode: BundleMode,
    config: Config,
    apply: bool,
    source: Option<String>,
)
    requires
        pipeline_result(r1, text, f, mode, config, apply, source),
        pipeline_result(r2, text, f, mode, config, apply, source),
    ensures
        r1.len() == r2.len(),
        forall|i: int|
            0 <= i < r1.len() ==> {
                &&& (#[trigger] r1[i]).ordinal == r2[i].ordinal
                &&& r1[i].source == r2[i].source
                &&& crate::models::section_views(r1[i].sections@)
                    == crate::models::section_views(r2[i].sections@)
                &&& warning_views(r1[i].warnings@) == warning_views(r2[i].warnings@)
            },
{
    assert forall|i: int| 0 <= i < r1.len() implies {
        &&& (#[trigger] r1[i]).ordinal == r2[i].ordinal
        &&& r1[i].source == r2[i].source
        &&& crate::models::section_views(r1[i].sections@) == crate::models::section_views(
            r2[i].sections@,
        )
        &&& warning_views(r1[i].warnings@) == warning_views(r2[i].warnings@)
    } by {
        assert(r2[i].ordinal == i + 1);
    }
}

fn copy_warnings(into: &mut Vec<Warning>, ws: &Vec<Warning>)
    ensures
        warning_views(final(into)@) == warning_views(old(into)@) + warning_views(ws@),
{
    let ghost start = into@;
    let mut i: usize = 0;
    assert(warning_views(ws@.take(0)) =~= Seq::<WarningView>::empty());
    assert(warning_views(into@) =~= warning_views(start) + warning_views(ws@.take(0)));
    while i < ws.len()
        invariant
            i <= ws@.len(),
            warning_views(into@) == warning_views(start) + warning_views(ws@.take(i as int)),
        decreases ws@.len() - i,
    {
        let w = Warning { stage: ws[i].stage, message: ws[i].message.clone() };
        let ghost before = into@;
        into.push(w);
        proof {
            lemma_warning_views_push(before, w);
            assert(warning_views(ws@.take(i + 1)) =~= warning_views(ws@.take(i as int)).push(
                ws@[i as int]@,
            ));
        }
        i = i + 1;
    }
    assert(ws@.take(ws@.len() as int) =~= ws@);
}
/// Assembles one note of a bundle from its candidates, as extracted or as
/// edited by hand: its warnings are the extraction warnings, then the
/// document-level ones, then those of assembly.
pub fn assemble_note(
    candidates: Vec<crate::models::ExtractionCandidate>,
    extraction_warnings: Vec<Warning>,
    bundle_warnings: &Vec<Warning>,
    format: NoteFormat,
    source: Option<String>,
    ordinal: usize,
) -> (r: StructuredNote)
    ensures
        crate::models::section_views(r.sections@) == assemble_spec(candidate_views(candidates@)).0,
        warning_views(r.warnings@) == warning_views(extraction_warnings@) + warning_views(
            bundle_warnings@,
        ) + assemble_spec(candidate_views(candidates@)).1,
        crate::assembler::labels_unique(crate::models::section_views(r.sections@)),
        r.format == format,
        r.source == source,
        r.ordinal == ordinal,
{
    let mut warnings = extraction_warnings;
    copy_warnings(&mut warnings, bundle_warnings);
    build_note(candidates, format, source, ordinal, warnings)
}

/// Splits `text`, extracts and assembles each note; the i-th note gets
/// ordinal i + 1 and the document-level warnings after its own.
pub fn structure_document(
    text: &str,
    format: NoteFormat,
    mode: BundleMode,
    config: &Config,
    apply_heuristics: bool,
    source: Option<String>,
) -> (r: Vec<StructuredNote>)
    ensures
        pipeline_result(r@, text@, format, mode, *config, apply_heuristics, source),
{
    let (texts, bundle_warnings) = split_bundle(text, mode, format, config);
    let ghost tv = views(texts@);
    let mut notes: Vec<StructuredNote> = Vec::new();
    let mut i: usize = 0;
    while i < texts.len()
        invariant
            i <= texts@.len(),
            tv == views(texts@),
            (tv, warning_views(bundle_warnings@)) == split_spec(
                text@,
                mode,
                format,
                config.bundle.delimiter@,
            ),
            notes@.len() == i,
            forall|k: int|
                0 <= k < i ==> {
                    &&& (#[trigger] notes@[k]).ordinal == k + 1
                    &&& notes@[k].format == format
                    &&& notes@[k].source == source
                    &&& crate::models::section_views(notes@[k].sections@) == note_sections(
                        format,
                        tv[k],
                        apply_heuristics,
                    )
                    &&& warning_views(notes@[k].warnings@) == note_warnings_spec(
                        format,
                        tv[k],
                        apply_heuristics,
                        warning_views(bundle_warnings@),
                    )
                },
        decreases texts@.len() - i,
    {
        let (candidates, warnings) = extract_candidates(
            texts[i].as_str(),
            format,
            ParseOptions { apply_heuristics },
        );
        let src = match &source {
            Some(s) => Some(s.clone()),
            None => None,
        };
        let note = assemble_note(candidates, warnings, &bundle_warnings, format, src, i + 1);
        notes.push(note);
        i = i + 1;
    }
    notes
}

/// The notes of one document for a single-document run: bundle mode from
/// the arguments or the configuration, the input path as source.
pub fn run_parse(input: &str, args: &ParseArgs, config: &Config, apply_heuristics: bool) -> (r: Vec<
    StructuredNote,
>)
    ensures
        pipeline_result(
            r@,
            input@,
            args.format,
            bundle_or(args.bundle, *config),
            *config,
            apply_heuristics,
            Some(args.input),
        ),
{
    let mode = bundle_or_exec(args.bundle, config);
    structure_document(input, args.format, mode, config, apply_heuristics, Some(args.input.clone()))
}

/// The notes of one file of a batch, with the configured heuristic toggle.
pub fn process_file(
    path: &String,
    content: &str,
    args: &BatchArgs,
    config: &Config,
    bundle_mode: BundleMode,
) -> (r: Vec<StructuredNote>)
    ensures
        pipeline_result(
            r@,
            content@,
            args.format,
            bundle_mode,
            *config,
            config.enable_fallback_heuristics,
            Some(*path),
        ),
{
    structure_document(
        content,
        args.format,
        bundle_mode,
        config,
        config.enable_fallback_heuristics,
        Some(path.clone()),
    )
}

} // verus!

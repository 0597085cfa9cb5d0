use clinote::assembler::build_note;
use clinote::cli::{
    join_path_exec, process_file, run, run_parse, structure_document, BatchArgs, Cli, Commands,
    Job, OutputFormat, ParseArgs, SampleArgs, ValidateArgs,
};
use clinote::extractor::{extract_candidates, ParseOptions};
use clinote::models::{
    BundleMode, Config, ExtractionCandidate, NoteFormat, Origin, Stage, StructuredNote, Warning,
};
use clinote::report::{BatchReport, FileOutcome};
use clinote::splitter::split_bundle;
use clinote::text::{split_lines, str_eq, trim_text};

fn section<'a>(note: &'a StructuredNote, label: &str) -> Option<&'a str> {
    note.sections.iter().find(|s| s.label == label).map(|s| s.content.as_str())
}

fn messages(ws: &[Warning]) -> Vec<String> {
    ws.iter().map(|w| w.message.clone()).collect()
}

fn heuristics_config(on: bool) -> Config {
    let mut c = Config::default_config();
    c.enable_fallback_heuristics = on;
    c
}

#[test]
fn plan_only_without_heuristics_warns_once() {
    let cfg = heuristics_config(false);
    let notes = structure_document(
        "Plan: rest and fluids.",
        NoteFormat::Progress,
        BundleMode::Single,
        &cfg,
        false,
        None,
    );
    assert_eq!(notes.len(), 1);
    assert_eq!(section(&notes[0], "Plan"), Some("rest and fluids."));
    assert_eq!(section(&notes[0], "Chief Complaint"), None);
    assert_eq!(notes[0].warnings.len(), 1);
    assert_eq!(notes[0].warnings[0].stage, Stage::Extraction);
    assert_eq!(notes[0].warnings[0].message, "missing mandatory section: Chief Complaint");
}

#[test]
fn heuristic_fallback_fills_chief_complaint() {
    let text = "Patient reports headache.\nPlan: rest and fluids.";
    let (cands, warnings) =
        extract_candidates(text, NoteFormat::Progress, ParseOptions { apply_heuristics: true });
    assert_eq!(cands.len(), 2);
    assert_eq!(cands[0].label, "Chief Complaint");
    assert_eq!(cands[0].content, "Patient reports headache.");
    assert_eq!(cands[0].origin, Origin::Heuristic);
    assert_eq!(cands[1].origin, Origin::Rule);
    assert_eq!(
        messages(&warnings),
        vec!["heuristic fallback used for section: Chief Complaint".to_string()]
    );
    let cfg = heuristics_config(true);
    let notes = structure_document(text, NoteFormat::Progress, BundleMode::Single, &cfg, true, None);
    assert_eq!(section(&notes[0], "Chief Complaint"), Some("Patient reports headache."));
    assert_eq!(section(&notes[0], "Plan"), Some("rest and fluids."));
}

#[test]
fn delimiter_document_gives_two_notes() {
    let cfg = Config::default_config();
    let doc = "---\nNote A\n---\nNote B";
    let (texts, warnings) = split_bundle(doc, BundleMode::Delimiter, NoteFormat::Soap, &cfg);
    assert_eq!(texts, vec!["Note A".to_string(), "Note B".to_string()]);
    assert!(warnings.is_empty());
    let notes = structure_document(doc, NoteFormat::Soap, BundleMode::Delimiter, &cfg, false, None);
    assert_eq!(notes.len(), 2);
    assert_eq!(notes[0].ordinal, 1);
    assert_eq!(notes[1].ordinal, 2);
    for n in &notes {
        assert!(n.warnings.iter().all(|w| w.stage != Stage::BundleSplit));
    }
}

#[test]
fn missing_delimiter_keeps_one_note_with_warning() {
    let cfg = Config::default_config();
    let (texts, warnings) =
        split_bundle("Plan: x\nmore", BundleMode::Delimiter, NoteFormat::Soap, &cfg);
    assert_eq!(texts, vec!["Plan: x\nmore".to_string()]);
    assert_eq!(warnings.len(), 1);
    assert_eq!(warnings[0].stage, Stage::BundleSplit);
    assert_eq!(
        warnings[0].message,
        "expected bundle delimiter not found, treating as single note"
    );
}

#[test]
fn single_mode_never_warns() {
    let cfg = Config::default_config();
    let (texts, warnings) = split_bundle("a\n---\nb", BundleMode::Single, NoteFormat::Soap, &cfg);
    assert_eq!(texts, vec!["a\n---\nb".to_string()]);
    assert!(warnings.is_empty());
}

#[test]
fn marker_mode_splits_on_recurring_label() {
    let cfg = Config::default_config();
    let doc = "Header\nChief Complaint: cough\nPlan: rest\nChief Complaint: fever\nPlan: fluids";
    let (texts, warnings) = split_bundle(doc, BundleMode::Marker, NoteFormat::Progress, &cfg);
    assert_eq!(
        texts,
        vec![
            "Header\nChief Complaint: cough\nPlan: rest".to_string(),
            "Chief Complaint: fever\nPlan: fluids".to_string(),
        ]
    );
    assert!(warnings.is_empty());
}

#[test]
fn marker_mode_without_marker_warns() {
    let cfg = Config::default_config();
    let (texts, warnings) = split_bundle("Plan: rest", BundleMode::Marker, NoteFormat::Progress, &cfg);
    assert_eq!(texts, vec!["Plan: rest".to_string()]);
    assert_eq!(warnings.len(), 1);
    assert_eq!(warnings[0].message, "no note marker found, treating as single note");
}

#[test]
fn resplitting_rejoined_notes_is_stable() {
    let cfg = Config::default_config();
    let doc = "Note A\nline two\n---\n\n---\nNote B\n---\nNote C";
    let (first, _) = split_bundle(doc, BundleMode::Delimiter, NoteFormat::Soap, &cfg);
    assert_eq!(first.len(), 3);
    let rejoined = first.join("\n---\n");
    let (second, _) = split_bundle(&rejoined, BundleMode::Delimiter, NoteFormat::Soap, &cfg);
    assert_eq!(first, second);
}

#[test]
fn repeated_runs_are_identical() {
    let cfg = heuristics_config(true);
    let doc = "intro words\nSubjective: s\nPlan: p\n---\nObjective: o";
    let a = structure_document(doc, NoteFormat::Soap, BundleMode::Delimiter, &cfg, true, None);
    let b = structure_document(doc, NoteFormat::Soap, BundleMode::Delimiter, &cfg, true, None);
    assert_eq!(a.len(), b.len());
    for (x, y) in a.iter().zip(b.iter()) {
        assert_eq!(x.ordinal, y.ordinal);
        assert_eq!(messages(&x.warnings), messages(&y.warnings));
        let xs: Vec<_> = x.sections.iter().map(|s| (s.label.clone(), s.content.clone())).collect();
        let ys: Vec<_> = y.sections.iter().map(|s| (s.label.clone(), s.content.clone())).collect();
        assert_eq!(xs, ys);
    }
}

#[test]
fn every_section_and_preamble_is_kept() {
    let text = "stray words\nSubjective: tired\nObjective: ok\nAssessment: fine\nPlan: sleep";
    let (cands, warnings) =
        extract_candidates(text, NoteFormat::Soap, ParseOptions { apply_heuristics: true });
    let got: Vec<_> = cands.iter().map(|c| (c.label.as_str(), c.content.as_str())).collect();
    assert_eq!(
        got,
        vec![
            ("Unclassified", "stray words"),
            ("Subjective", "tired"),
            ("Objective", "ok"),
            ("Assessment", "fine"),
            ("Plan", "sleep"),
        ]
    );
    assert_eq!(cands[0].origin, Origin::Unclassified);
    assert_eq!(messages(&warnings), vec!["unclassified text retained".to_string()]);
}

#[test]
fn preamble_without_heuristics_is_ignored_with_warning() {
    let text = "stray words\nSubjective: tired\nObjective: ok\nAssessment: fine\nPlan: sleep";
    let (cands, warnings) =
        extract_candidates(text, NoteFormat::Soap, ParseOptions { apply_heuristics: false });
    let got: Vec<_> = cands.iter().map(|c| (c.label.as_str(), c.content.as_str())).collect();
    assert_eq!(
        got,
        vec![("Subjective", "tired"), ("Objective", "ok"), ("Assessment", "fine"), ("Plan", "sleep")]
    );
    assert!(cands.iter().all(|c| c.origin == Origin::Rule));
    assert_eq!(
        messages(&warnings),
        vec!["unlabelled text ignored: heuristics disabled".to_string()]
    );
    let cfg = heuristics_config(false);
    let notes = structure_document("x", NoteFormat::Soap, BundleMode::Single, &cfg, false, None);
    assert!(notes[0].sections.is_empty());
}

#[test]
fn delimiter_only_document_stays_one_note_with_warning() {
    let cfg = Config::default_config();
    let (texts, warnings) = split_bundle("---", BundleMode::Delimiter, NoteFormat::Soap, &cfg);
    assert_eq!(texts, vec!["---".to_string()]);
    assert_eq!(warnings.len(), 1);
    assert_eq!(warnings[0].stage, Stage::BundleSplit);
    assert_eq!(
        warnings[0].message,
        "no note text between bundle delimiters, treating as single note"
    );
    let rejoined = texts.join("\n---\n");
    let (again, _) = split_bundle(&rejoined, BundleMode::Delimiter, NoteFormat::Soap, &cfg);
    assert_eq!(texts, again);
}

#[test]
fn recording_keeps_summary_until_finalize() {
    let mut report = BatchReport::new("clinote");
    report.record_failure("a.txt", "bad".to_string());
    report.finalize();
    assert_eq!(report.failures, 1);
    report.record_ok("b.txt", &Vec::new());
    assert_eq!(report.failures, 1);
    assert_eq!(report.files_processed, 1);
    assert_eq!(report.files_ok, 0);
    report.finalize();
    assert_eq!(report.files_processed, 2);
    assert_eq!(report.files_ok, 1);
}

#[test]
fn multiline_section_content_is_trimmed() {
    let (cands, _) = extract_candidates(
        "Plan:   rest\n  and fluids\n\n",
        NoteFormat::Progress,
        ParseOptions { apply_heuristics: false },
    );
    assert_eq!(cands.len(), 1);
    assert_eq!(cands[0].content, "rest\n  and fluids");
}

#[test]
fn later_candidate_overwrites_with_warning() {
    let cands = vec![
        ExtractionCandidate {
            label: "Plan".to_string(),
            content: "a".to_string(),
            origin: Origin::Rule,
        },
        ExtractionCandidate {
            label: "Plan".to_string(),
            content: "b".to_string(),
            origin: Origin::Rule,
        },
    ];
    let note = build_note(cands, NoteFormat::Soap, Some("f.txt".to_string()), 3, Vec::new());
    assert_eq!(note.sections.len(), 1);
    assert_eq!(section(&note, "Plan"), Some("b"));
    assert_eq!(note.ordinal, 3);
    assert_eq!(note.source.as_deref(), Some("f.txt"));
    assert_eq!(
        messages(&note.warnings),
        vec!["section overwritten by later candidate: Plan".to_string()]
    );
    assert_eq!(note.warnings[0].stage, Stage::Assembly);
}

#[test]
fn empty_note_warns_for_every_mandatory_section() {
    let (cands, warnings) =
        extract_candidates("", NoteFormat::Soap, ParseOptions { apply_heuristics: true });
    assert!(cands.is_empty());
    assert_eq!(
        messages(&warnings),
        vec![
            "missing mandatory section: Subjective".to_string(),
            "missing mandatory section: Objective".to_string(),
            "missing mandatory section: Assessment".to_string(),
            "missing mandatory section: Plan".to_string(),
        ]
    );
}

#[test]
fn batch_with_one_failure_is_isolated() {
    let cfg = Config::default_config();
    let args = BatchArgs {
        input_dir: "in".to_string(),
        glob: None,
        format: NoteFormat::Progress,
        out_dir: "out".to_string(),
        out_format: OutputFormat::Json,
        config: None,
        bundle: None,
    };
    let mut report = BatchReport::new("clinote");
    let a = process_file(&"a.txt".to_string(), "Plan: x", &args, &cfg, BundleMode::Single);
    report.record_ok("a.txt", &a);
    report.record_failure("b.txt", "unreadable".to_string());
    let c = process_file(
        &"c.txt".to_string(),
        "Chief Complaint: y\nPlan: z\n---\nPlan: w",
        &args,
        &cfg,
        BundleMode::Delimiter,
    );
    report.record_ok("c.txt", &c);
    report.finalize();
    assert_eq!(report.files_processed, 3);
    assert_eq!(report.files_ok, 2);
    assert_eq!(report.failures, 1);
    assert_eq!(report.notes_produced, 3);
    assert_eq!(report.total_warnings, 2);
    assert_eq!(report.tool, "clinote");
    match &report.outcomes[1] {
        FileOutcome::Failure { path, message } => {
            assert_eq!(path, "b.txt");
            assert_eq!(message, "unreadable");
        }
        FileOutcome::Success { .. } => panic!("expected a failure"),
    }
}

#[test]
fn run_resolves_defaults() {
    let cfg = Config::default_config();
    let cli = Cli {
        command: Commands::Batch(BatchArgs {
            input_dir: "notes".to_string(),
            glob: None,
            format: NoteFormat::Soap,
            out_dir: "out".to_string(),
            out_format: OutputFormat::Csv,
            config: None,
            bundle: None,
        }),
    };
    match run(&cli, &cfg) {
        Job::Batch { pattern, bundle, apply_heuristics, .. } => {
            assert_eq!(pattern, "notes/*.txt");
            assert_eq!(bundle, BundleMode::Single);
            assert!(!apply_heuristics);
        }
        _ => panic!("expected a batch job"),
    }
    let cli = Cli {
        command: Commands::Sample(SampleArgs { out_dir: "s".to_string(), n: 4, bundles: None }),
    };
    match run(&cli, &cfg) {
        Job::Sample { out_dir, n, bundles } => {
            assert_eq!(out_dir, "s");
            assert_eq!(n, 4);
            assert_eq!(bundles, 0);
        }
        _ => panic!("expected a sample job"),
    }
    let cli = Cli { command: Commands::Validate(ValidateArgs { config: "c.cfg".to_string() }) };
    assert_eq!(cli.command.config_path(), Some("c.cfg".to_string()));
}

#[test]
fn run_parse_uses_argument_bundle_mode() {
    let cfg = Config::default_config();
    let args = ParseArgs {
        input: "doc.txt".to_string(),
        format: NoteFormat::Progress,
        out: "o.json".to_string(),
        out_format: OutputFormat::Json,
        config: None,
        bundle: Some(BundleMode::Delimiter),
        interactive: false,
    };
    let notes = run_parse("Plan: a\n---\nPlan: b", &args, &cfg, false);
    assert_eq!(notes.len(), 2);
    assert_eq!(notes[1].ordinal, 2);
    assert_eq!(notes[1].source.as_deref(), Some("doc.txt"));
    assert_eq!(section(&notes[1], "Plan"), Some("b"));
}

#[test]
fn settings_apply_by_name() {
    let mut c = Config::default_config();
    assert!(c.apply_setting("bundle.mode_default", "marker"));
    assert_eq!(c.bundle.mode_default, BundleMode::Marker);
    assert!(c.apply_setting("bundle.delimiter", "==="));
    assert_eq!(c.bundle.delimiter, "===");
    assert!(c.apply_setting("enable_fallback_heuristics", "true"));
    assert!(c.enable_fallback_heuristics);
    assert!(!c.apply_setting("enable_fallback_heuristics", "yes"));
    assert!(c.enable_fallback_heuristics);
    assert!(!c.apply_setting("colour", "red"));
}

#[test]
fn text_helpers() {
    assert_eq!(split_lines("a\n\nb"), vec!["a".to_string(), String::new(), "b".to_string()]);
    assert_eq!(split_lines(""), vec![String::new()]);
    assert_eq!(trim_text(" \t x y \n"), "x y");
    assert!(str_eq("abc", "abc"));
    assert!(!str_eq("abc", "abd"));
    assert_eq!(join_path_exec("dir/", "*.txt"), "dir/*.txt");
    assert_eq!(join_path_exec("", "*.txt"), "*.txt");
    assert_eq!(join_path_exec("dir", "/abs/*.txt"), "/abs/*.txt");
    assert_eq!(join_path_exec("dir", "*.txt"), "dir/*.txt");
    assert_eq!(OutputFormat::Csv.extension(), "csv");
}

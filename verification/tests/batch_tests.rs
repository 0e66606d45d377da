use tunetagger::batch::{
    brief_reason, failure_category, indent_continuation, parse_existing_choice,
    prompt_for_existing_with_io, render_report, BatchFailure, BatchRun, BatchSkipped,
    ExistingDecision, ExistingPolicy, TagOutcome,
};
use tunetagger::batch::{existing_answer, existing_input_ended, mp3_file, sort_by_path};

#[test]
fn categorizes_recognition_failures() {
    let error = "recognition failed: no fingerprint match";
    assert_eq!(failure_category(error, false), "recognition");
}

#[test]
fn categorizes_io_failures_from_error_chain() {
    // An I/O error whose message is "permission denied".
    let error = "permission denied";
    assert_eq!(failure_category(error, true), "I/O");
}

#[test]
fn renders_successes_failures_and_reasons() {
    let succeeded = vec![String::from("input/good.mp3")];
    let skipped = vec![BatchSkipped {
        source: String::from("input/existing.mp3"),
        destination: String::from("output/existing.mp3"),
        reason: "matching destination filename already exists".to_owned(),
    }];
    let failed = vec![BatchFailure {
        path: String::from("input/bad.mp3"),
        category: "recognition".to_owned(),
        reason: "recognition failed: no match".to_owned(),
    }];

    let report = render_report("input", &succeeded, &skipped, &failed);

    assert!(report.contains("Successful: 1"));
    assert!(report.contains("Skipped: 1"));
    assert!(report.contains("Failed: 1"));
    assert!(report.contains("[OK] input/good.mp3"));
    assert!(report.contains("[SKIPPED] input/existing.mp3"));
    assert!(report.contains("Destination: output/existing.mp3"));
    assert!(report.contains("[RECOGNITION] input/bad.mp3"));
    assert!(report.contains("Reason: recognition failed: no match"));
}

#[test]
fn shortens_console_reasons() {
    let reason = "x".repeat(200);
    let shortened = brief_reason(&reason);
    assert_eq!(shortened.chars().count(), 160);
    assert!(shortened.ends_with("..."));
}

#[test]
fn parses_each_existing_file_decision() {
    assert_eq!(parse_existing_choice("skip"), Some(ExistingDecision::Skip));
    assert_eq!(
        parse_existing_choice("skip-all"),
        Some(ExistingDecision::SkipAll)
    );
    assert_eq!(
        parse_existing_choice("process"),
        Some(ExistingDecision::Process)
    );
    assert_eq!(parse_existing_choice("unknown"), None);
}

#[test]
fn prompts_again_after_an_invalid_existing_file_choice() {
    let input = vec![String::from("nope\n"), String::from("p\n")];
    let mut output = String::new();

    let decision = prompt_for_existing_with_io(
        "input/song.mp3",
        "output/song.mp3",
        &input,
        &mut output,
    )
    .unwrap();

    assert_eq!(decision, ExistingDecision::Process);
    assert!(output.contains("Please enter 's', 'a', or 'p'."));
}

#[test]
fn existing_choice_accepts_short_forms_case_and_spaces() {
    assert_eq!(parse_existing_choice("  S \n"), Some(ExistingDecision::Skip));
    assert_eq!(parse_existing_choice("A"), Some(ExistingDecision::SkipAll));
    assert_eq!(parse_existing_choice("all"), Some(ExistingDecision::SkipAll));
    assert_eq!(parse_existing_choice("Continue"), Some(ExistingDecision::Process));
    assert_eq!(parse_existing_choice(""), None);
    assert_eq!(parse_existing_choice("skip all"), None);
}

#[test]
fn existing_prompt_reports_end_of_input() {
    let input = vec![String::from("maybe\n")];
    let mut output = String::new();
    let result = prompt_for_existing_with_io("a.mp3", "out/a.mp3", &input, &mut output);
    assert_eq!(
        result,
        Err(String::from("input ended before an existing-file choice was made"))
    );
    assert_eq!(
        output,
        "\nDestination match found:\n  Source:      a.mp3\n  Destination: out/a.mp3\n\
         Skip this file, skip all matches, or process it? [s/a/p]: \
         Please enter 's', 'a', or 'p'.\n\
         \nDestination match found:\n  Source:      a.mp3\n  Destination: out/a.mp3\n\
         Skip this file, skip all matches, or process it? [s/a/p]: "
    );
}

#[test]
fn failure_categories_follow_their_order() {
    assert_eq!(failure_category("Metadata lookup failed: no candidates found", false), "metadata");
    assert_eq!(failure_category("tagging failed: bad frame", true), "tagging");
    assert_eq!(failure_category("ID3 header broken", false), "tagging");
    assert_eq!(failure_category("config parse error: x", false), "configuration");
    assert_eq!(failure_category("HTTP status 503", false), "network");
    assert_eq!(failure_category("Connection reset", true), "network");
    assert_eq!(failure_category("disk full", true), "I/O");
    assert_eq!(failure_category("something odd", false), "processing");
    assert_eq!(
        failure_category("recognition / no match: the metadata", false),
        "recognition / no match"
    );
    assert_eq!(
        failure_category("Recognition / audio decoding failed: bad stream", true),
        "audio decoding"
    );
    assert_eq!(
        failure_category("recognition / fingerprinting failed: too short", false),
        "fingerprinting"
    );
    assert_eq!(
        failure_category("recognition / invalid service response: x", false),
        "invalid service response"
    );
    assert_eq!(failure_category("validation failed: bad path", false), "validation");
    assert_eq!(failure_category("network error: connection timed out", false), "network");
}

#[test]
fn brief_reason_joins_lines_and_keeps_short_reasons() {
    assert_eq!(brief_reason("  a\n\tb   c  "), "a b c");
    let exact = "y".repeat(160);
    assert_eq!(brief_reason(&exact), exact);
    let long = format!("{}\n{}", "w".repeat(100), "v".repeat(100));
    let short = brief_reason(&long);
    assert_eq!(short.chars().count(), 160);
    assert_eq!(&short[..100], "w".repeat(100));
    assert!(short.starts_with(&format!("{} v", "w".repeat(100))));
}

#[test]
fn indents_continuation_lines() {
    assert_eq!(indent_continuation("one\ntwo"), "one\n          two");
    assert_eq!(indent_continuation("single"), "single");
}

#[test]
fn report_marks_empty_sections() {
    let report = render_report("in", &vec![], &vec![], &vec![]);
    assert_eq!(
        report,
        "TuneTagger Batch Report\nInput: in\nFailed: 0\nSkipped: 0\nSuccessful: 0\n\
         \nFAILED\n(none)\n\nSKIPPED\n(none)\n\nSUCCEEDED\n(none)\n"
    );
}

#[test]
fn report_lists_failures_first_numbered_and_relative() {
    let skip = |name: &str, reason: &str| BatchSkipped {
        source: format!("/home/me/Music/in/{name}"),
        destination: format!("/home/me/Music/in/out/{name}"),
        reason: reason.to_owned(),
    };
    let report = render_report(
        "/home/me/Music/in",
        &vec![String::from("/home/me/Music/in/a.mp3"), String::from("/elsewhere/b.mp3")],
        &vec![skip("c.mp3", "exists"), skip("d.mp3", "exists"), skip("e.mp3", "other")],
        &vec![BatchFailure {
            path: String::from("/home/me/Music/in/sub/f.mp3"),
            category: String::from("network"),
            reason: String::from("timed out\nretry later"),
        }],
    );
    assert_eq!(
        report,
        "TuneTagger Batch Report\nInput: /home/me/Music/in\nFailed: 1\nSkipped: 3\nSuccessful: 2\n\
         \nFAILED\n\
         1. [NETWORK] in/sub/f.mp3\n  Reason: timed out\n          retry later\n\
         \nSKIPPED\n\
         1. [SKIPPED] in/c.mp3\n  Destination: in/out/c.mp3\n  Reason: exists\n\
         2. [SKIPPED] in/d.mp3\n  Destination: in/out/d.mp3\n\
         3. [SKIPPED] in/e.mp3\n  Destination: in/out/e.mp3\n  Reason: other\n\
         \nSUCCEEDED\n1. [OK] in/a.mp3\n2. [OK] /elsewhere/b.mp3\n"
    );
}

#[test]
fn skip_all_skips_every_later_match() {
    let mut run = BatchRun::new(ExistingPolicy::Ask);
    assert_eq!(run.planned_decision(), None);
    let process = run.settle_existing(
        String::from("a.mp3"),
        String::from("out/a.mp3"),
        ExistingDecision::SkipAll,
    );
    assert!(!process);
    assert_eq!(run.planned_decision(), Some(ExistingDecision::Skip));
    assert_eq!(run.skipped.len(), 1);
    assert_eq!(run.skipped[0].reason, "matching destination filename already exists");
}

#[test]
fn policies_decide_without_asking() {
    assert_eq!(
        BatchRun::new(ExistingPolicy::Skip).planned_decision(),
        Some(ExistingDecision::Skip)
    );
    assert_eq!(
        BatchRun::new(ExistingPolicy::Process).planned_decision(),
        Some(ExistingDecision::Process)
    );
}

#[test]
fn missing_candidates_count_as_metadata_failures() {
    let mut run = BatchRun::new(ExistingPolicy::Skip);
    run.record_outcome(String::from("ok.mp3"), TagOutcome::Completed);
    run.record_outcome(String::from("none.mp3"), TagOutcome::NoMetadataCandidates);
    run.record_outcome(
        String::from("bad.mp3"),
        TagOutcome::Failed { message: String::from("permission denied"), caused_by_io: true },
    );
    assert_eq!(run.succeeded, vec![String::from("ok.mp3")]);
    assert_eq!(run.failed.len(), 2);
    assert_eq!(run.failed[0].category, "metadata");
    assert_eq!(run.failed[0].reason, "metadata lookup failed: no candidates found");
    assert_eq!(run.failed[1].category, "I/O");
    let summary = run.summary("batch-report.txt");
    assert_eq!(
        summary,
        "\nBatch complete.\n  Successful: 1\n  Skipped:    0\n  Failed:     2\n\
         \x20 Failure diagnostics:\n\
         \x20   [metadata] none.mp3: metadata lookup failed: no candidates found\n\
         \x20   [I/O] bad.mp3: permission denied\n\
         \x20 Report:     batch-report.txt\n"
    );
}

#[test]
fn every_file_is_accounted_for_once() {
    let mut run = BatchRun::new(ExistingPolicy::Ask);
    assert!(run.settle_existing(String::from("p.mp3"), String::from("out/p.mp3"), ExistingDecision::Process));
    run.record_outcome(String::from("p.mp3"), TagOutcome::Completed);
    assert!(!run.settle_existing(String::from("s.mp3"), String::from("out/s.mp3"), ExistingDecision::Skip));
    run.record_outcome(
        String::from("f.mp3"),
        TagOutcome::Failed { message: String::from("tagging failed: bad frame"), caused_by_io: false },
    );
    assert_eq!(run.succeeded.len() + run.skipped.len() + run.failed.len(), 3);
    assert_eq!(run.failed[0].category, "tagging");
    assert_eq!(run.skipped[0].destination, "out/s.mp3");
}

#[test]
fn brief_reasons_are_stable() {
    let long = format!("{}\n\t{}", "word ".repeat(40), "y".repeat(50));
    let once = brief_reason(&long);
    assert_eq!(once.chars().count(), 160);
    assert!(!once.contains('\n') && !once.contains("  "));
    assert_eq!(brief_reason(&once), once);
    let short = brief_reason("a\n  b");
    assert_eq!(short, "a b");
    assert_eq!(brief_reason(&short), short);
}

#[test]
fn indentation_can_be_taken_out_again() {
    let reason = "first\n  second\n\nthird";
    let indented = indent_continuation(reason);
    assert_eq!(indented.matches('\n').count(), reason.matches('\n').count());
    assert_eq!(indented.replace("\n          ", "\n"), reason);
}

#[test]
fn existing_answers_one_at_a_time() {
    assert_eq!(existing_answer(" P \n"), Ok(ExistingDecision::Process));
    assert_eq!(existing_answer("all"), Ok(ExistingDecision::SkipAll));
    assert_eq!(existing_answer("maybe"), Err("Please enter 's', 'a', or 'p'.\n"));
    assert_eq!(existing_input_ended(), "input ended before an existing-file choice was made");
}

#[test]
fn scanned_files_are_put_in_path_order() {
    let files = vec![
        mp3_file("b/a.mp3".into(), 1),
        mp3_file("a/z.mp3".into(), 2),
        mp3_file("a b.mp3".into(), 3),
        mp3_file("a/b.mp3".into(), 4),
        mp3_file("a/z.mp3".into(), 5),
    ];
    let sorted = sort_by_path(files);
    let order: Vec<(&str, u64)> = sorted.iter().map(|f| (f.path.as_str(), f.size_bytes)).collect();
    assert_eq!(
        order,
        vec![("a/b.mp3", 4), ("a/z.mp3", 2), ("a/z.mp3", 5), ("a b.mp3", 3), ("b/a.mp3", 1)]
    );
}

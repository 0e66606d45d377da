use std::path::{Path, PathBuf};
use tunetagger::batch::{BatchArgs, ExistingPolicy};
use tunetagger::interactive::{
    parse_existing_policy, parse_run_mode, parse_yes_no, policy_name, GuidedSetup, SetupAction,
};
use tunetagger::paths::expand_tilde;

/// Drives the guided setup with scripted answer lines; the folders in
/// `dirs` are the ones that exist. Returns the settings and everything shown.
fn collect_batch_args(
    lines: &[String],
    dirs: &[PathBuf],
) -> Result<(Option<BatchArgs>, String), String> {
    let home = Some(String::from("/home/tester"));
    let (mut setup, step) = GuidedSetup::start(home);
    let mut output = step.output;
    let mut action = step.action;
    let mut next = lines.iter();
    loop {
        match action {
            SetupAction::Ask => {
                let line = match next.next() {
                    Some(line) => line,
                    None => {
                        return Err(String::from(
                            "input ended before interactive setup was complete",
                        ))
                    }
                };
                let step = setup.answer(line);
                output.push_str(&step.output);
                action = step.action;
            }
            SetupAction::CheckDirectory(path) => {
                let is_dir = dirs.iter().any(|d| d.as_path() == Path::new(&path));
                let step = setup.directory_checked(is_dir);
                output.push_str(&step.output);
                action = step.action;
            }
            SetupAction::Finished(args) => return Ok((args, output)),
        }
    }
}

fn lines(text: &str) -> Vec<String> {
    text.split_inclusive('\n').map(String::from).collect()
}

#[test]
fn collects_safe_guided_batch_settings() {
    let test_root = PathBuf::from("/tmp/tunetagger-interactive-collect");
    let destination = test_root.join("tagged output");
    let input_text = format!(
        "1\n{}\n{}\nn\nd\ns\nreport file.txt\ny\n",
        test_root.display(),
        destination.display()
    );

    let (args, _output) =
        collect_batch_args(&lines(&input_text), &[test_root.clone()]).unwrap();
    let args = args.expect("settings should be confirmed");

    assert_eq!(PathBuf::from(&args.path), test_root);
    assert_eq!(PathBuf::from(&args.output), destination);
    assert!(!args.recursive);
    assert!(args.dry_run);
    assert!(!args.write);
    assert_eq!(args.existing, ExistingPolicy::Skip);
    assert_eq!(PathBuf::from(&args.report), PathBuf::from("report file.txt"));
}

#[test]
fn cancellation_returns_no_batch_settings() {
    let (args, output) = collect_batch_args(&lines("q\n"), &[]).unwrap();

    assert!(args.is_none());
    assert!(output.contains("No files were changed"));
}

#[test]
fn expands_home_directory_paths() {
    let home = String::from("/home/tester");
    assert_eq!(
        PathBuf::from(expand_tilde("~/Music", &Some(home.clone()))),
        PathBuf::from(home).join("Music")
    );
}

#[test]
fn tilde_expansion_leaves_other_paths() {
    let home = Some(String::from("/home/u"));
    assert_eq!(expand_tilde("~", &home), "/home/u");
    assert_eq!(expand_tilde("~user/x", &home), "~user/x");
    assert_eq!(expand_tilde("music/~", &home), "music/~");
    assert_eq!(expand_tilde("~/x", &None), "~/x");
}

#[test]
fn defaults_and_retries_in_the_guided_setup() {
    let root = PathBuf::from("/srv/music/to-tag");
    let missing = root.join("missing");
    let script = format!(
        "9\n\n\n{}\n{}\n\nmaybe\n\nx\nw\n\n\nperhaps\nn\n",
        missing.display(),
        root.display()
    );
    let (args, output) = collect_batch_args(&lines(&script), &[root.clone()]).unwrap();
    assert!(args.is_none());
    assert!(output.contains("Please enter '1' or 'q'."));
    assert!(output.contains("A path is required."));
    assert!(output.contains("That source folder does not exist or is not a directory."));
    assert!(output.contains("Please enter 'y' or 'n'."));
    assert!(output.contains("Please enter 'd' for dry run or 'w' for write."));
    assert!(output.contains(&format!("Destination:        {}", root.join("batch_tagged").display())));
    assert!(output.contains("Include subfolders: no"));
    assert!(output.contains("Mode:               write tagged copies"));
    assert!(output.contains("Existing files:     ask case by case"));
    assert!(output.contains("Report:             batch-report.txt"));
    assert!(output.contains("Warning: source and destination are the same folder") == false);
    assert!(output.contains("Note: the destination is inside the source."));
    assert!(output.ends_with("Canceled. No files were changed.\n"));
}

#[test]
fn same_folder_destination_is_warned_about() {
    let root = PathBuf::from("/srv/music/same");
    let script = format!("batch\n{}\n{}\ny\nwrite\np\nr.txt\nyes\n", root.display(), root.display());
    let (args, output) = collect_batch_args(&lines(&script), &[root.clone()]).unwrap();
    let args = args.unwrap();
    assert!(output.contains("Warning: source and destination are the same folder"));
    assert!(args.recursive);
    assert!(args.write && !args.dry_run);
    assert_eq!(args.existing, ExistingPolicy::Process);
    assert_eq!(args.report, "r.txt");
}

#[test]
fn setup_input_can_end_early() {
    assert!(collect_batch_args(&lines("1\n"), &[]).is_err());
}

#[test]
fn answer_parsers() {
    assert_eq!(parse_yes_no("", true), Some(true));
    assert_eq!(parse_yes_no(" YES ", false), Some(true));
    assert_eq!(parse_yes_no("n", true), Some(false));
    assert_eq!(parse_yes_no("ja", true), None);
    assert_eq!(parse_run_mode(""), Some((true, false)));
    assert_eq!(parse_run_mode("dry-run"), Some((true, false)));
    assert_eq!(parse_run_mode("W"), Some((false, true)));
    assert_eq!(parse_run_mode("wet"), None);
    assert_eq!(parse_existing_policy(""), Some(ExistingPolicy::Ask));
    assert_eq!(parse_existing_policy("Skip"), Some(ExistingPolicy::Skip));
    assert_eq!(parse_existing_policy("process"), Some(ExistingPolicy::Process));
    assert_eq!(parse_existing_policy("skip-all"), None);
    assert_eq!(policy_name(ExistingPolicy::Ask), "ask case by case");
    assert_eq!(policy_name(ExistingPolicy::Skip), "skip");
    assert_eq!(policy_name(ExistingPolicy::Process), "process");
}

#[test]
fn home_folder_answers_are_expanded() {
    let script = "1\n~/Music\n\nn\nd\na\n\ny\n";
    let (args, _output) =
        collect_batch_args(&lines(script), &[PathBuf::from("/home/tester/Music")]).unwrap();
    let args = args.unwrap();
    assert_eq!(args.path, "/home/tester/Music");
    assert_eq!(args.output, "/home/tester/Music/batch_tagged");
    assert_eq!(args.report, "batch-report.txt");
    assert_eq!(args.existing, ExistingPolicy::Ask);
}

#[test]
fn blank_answers_take_the_safe_defaults() {
    let root = PathBuf::from("/srv/music/in");
    let script = format!("\n{}\n\n\n\n\n\n\n", root.display());
    let (args, output) = collect_batch_args(&lines(&script), &[root.clone()]).unwrap();
    assert!(args.is_none());
    assert!(output.contains(&format!("Destination:        {}", root.join("batch_tagged").display())));
    assert!(output.contains("Include subfolders: no"));
    assert!(output.contains("Mode:               dry run"));
    assert!(output.contains("Existing files:     ask case by case"));
    assert!(output.contains("Report:             batch-report.txt"));
    assert!(output.ends_with("Canceled. No files were changed.\n"));
}

#[test]
fn the_dialog_says_what_it_waits_for() {
    let (mut setup, step) = GuidedSetup::start(None);
    assert!(matches!(step.action, SetupAction::Ask));
    assert!(setup.awaits_line() && !setup.awaits_directory_check());
    let step = setup.answer("1\n");
    assert!(matches!(step.action, SetupAction::Ask));
    let step = setup.answer("/srv/in\n");
    assert!(matches!(step.action, SetupAction::CheckDirectory(_)));
    assert!(!setup.awaits_line() && setup.awaits_directory_check());
    let step = setup.directory_checked(true);
    assert!(matches!(step.action, SetupAction::Ask));
    assert!(setup.awaits_line());
}

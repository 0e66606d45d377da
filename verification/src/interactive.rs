//! The guided batch setup: a dialog that walks the user through source,
//! destination, recursion, run mode, existing-file policy and report path,
//! and ends with an explicit confirmation. It is a state machine: the
//! caller shows each step's output, reads a line (or checks a directory)
//! and feeds the result back.

use vstd::prelude::*;
use crate::batch::{answer_key, answer_key_of, BatchArgs, BatchArgsView, ExistingPolicy};
use crate::paths::{
    expand_tilde, expand_tilde_of, joined_path, path_has_prefix, path_join, path_starts_with,
    paths_equal, same_path,
};
use crate::text::{chars_eq_str, chars_of, opt_text, trim, trim_chars};

verus! {

/// Where the guided setup stands.
#[derive(Clone, Copy, Debug, PartialEq, Eq, Structural)]
pub enum SetupStage {
    Operation,
    Source,
    CheckingSource,
    Destination,
    Recursive,
    RunMode,
    Existing,
    Report,
    Confirm,
    Done,
}

/// The guided setup's state as plain values.
pub struct SetupView {
    pub stage: SetupStage,
    pub home: Option<Seq<char>>,
    pub source: Seq<char>,
    pub destination: Seq<char>,
    pub recursive: bool,
    pub dry_run: bool,
    pub write: bool,
    pub existing: ExistingPolicy,
    pub report: Seq<char>,
}

/// The guided setup's state.
#[derive(Clone, Debug)]
pub struct GuidedSetup {
    pub stage: SetupStage,
    /// The home directory `~` stands for, when known.
    pub home: Option<String>,
    pub source: String,
    pub destination: String,
    pub recursive: bool,
    pub dry_run: bool,
    pub write: bool,
    pub existing: ExistingPolicy,
    pub report: String,
}

impl View for GuidedSetup {
    type V = SetupView;

    open spec fn view(&self) -> SetupView {
        SetupView {
            stage: self.stage,
            home: opt_text(self.home),
            source: self.source@,
            destination: self.destination@,
            recursive: self.recursive,
            dry_run: self.dry_run,
            write: self.write,
            existing: self.existing,
            report: self.report@,
        }
    }
}

/// What the caller does after showing a step's output.
#[derive(Clone, Debug)]
pub enum SetupAction {
    /// Read the next line and pass it to `answer`.
    Ask,
    /// Check whether this path is a directory and pass the result to
    /// `directory_checked`.
    CheckDirectory(String),
    /// The dialog is over: the confirmed settings, or `None` when canceled.
    Finished(Option<BatchArgs>),
}

/// A setup action as plain values.
pub enum SetupActionView {
    Ask,
    CheckDirectory(Seq<char>),
    Finished(Option<BatchArgsView>),
}

impl View for SetupAction {
    type V = SetupActionView;

    open spec fn view(&self) -> SetupActionView {
        match self {
            SetupAction::Ask => SetupActionView::Ask,
            SetupAction::CheckDirectory(p) => SetupActionView::CheckDirectory(p@),
            SetupAction::Finished(Some(a)) => SetupActionView::Finished(Some(a@)),
            SetupAction::Finished(None) => SetupActionView::Finished(None),
        }
    }
}

/// One step of the dialog: text to show, then what to do.
#[derive(Clone, Debug)]
pub struct SetupStep {
    pub output: String,
    pub action: SetupAction,
}

pub open spec fn header_text() -> Seq<char> {
    "TuneTagger guided setup\n=======================\n1. Batch-tag an MP3 folder\nq. Quit\n"@
}

pub open spec fn operation_prompt() -> Seq<char> {
    "Choose an operation [1]: "@
}

pub open spec fn operation_retry() -> Seq<char> {
    "Please enter '1' or 'q'.\n"@
}

pub open spec fn cancel_text() -> Seq<char> {
    "Canceled. No files were changed.\n"@
}

pub open spec fn source_prompt() -> Seq<char> {
    "Source folder: "@
}

pub open spec fn path_required_text() -> Seq<char> {
    "A path is required.\n"@
}

pub open spec fn not_a_directory_text() -> Seq<char> {
    "That source folder does not exist or is not a directory.\n"@
}

/// The destination offered when none is typed: `batch_tagged` inside the
/// source folder.
pub open spec fn default_destination(source: Seq<char>) -> Seq<char> {
    joined_path(source, "batch_tagged"@)
}

pub open spec fn destination_prompt(default: Seq<char>) -> Seq<char> {
    "Destination folder ["@ + default + "]: "@
}

pub open spec fn recursive_prompt() -> Seq<char> {
    "Include MP3 files from subfolders? [y/N]: "@
}

pub open spec fn yes_no_retry() -> Seq<char> {
    "Please enter 'y' or 'n'.\n"@
}

pub open spec fn run_mode_prompt() -> Seq<char> {
    "Run mode: dry run or write tagged copies? [d/w, default d]: "@
}

pub open spec fn run_mode_retry() -> Seq<char> {
    "Please enter 'd' for dry run or 'w' for write.\n"@
}

pub open spec fn policy_prompt() -> Seq<char> {
    "When a destination file exists: ask, skip, or process? [a/s/p, default a]: "@
}

pub open spec fn policy_retry() -> Seq<char> {
    "Please enter 'a', 's', or 'p'.\n"@
}

pub open spec fn report_prompt() -> Seq<char> {
    "Report file [batch-report.txt]: "@
}

/// The report file used when none is typed.
pub open spec fn default_report() -> Seq<char> {
    "batch-report.txt"@
}

pub open spec fn confirm_prompt() -> Seq<char> {
    "Start with these settings? [y/N]: "@
}

/// The message when the input ends before the dialog is complete.
pub open spec fn setup_input_ended_text() -> Seq<char> {
    "input ended before interactive setup was complete"@
}

/// What an answer to the operation question chooses: `Some(true)` for a
/// batch run (also the default), `Some(false)` to quit.
pub open spec fn operation_answer(key: Seq<char>) -> Option<bool> {
    if key == ""@ || key == "1"@ || key == "batch"@ {
        Some(true)
    } else if key == "q"@ || key == "quit"@ {
        Some(false)
    } else {
        None
    }
}

/// A yes/no answer; an empty answer takes the default.
pub open spec fn yes_no_answer(key: Seq<char>, default: bool) -> Option<bool> {
    if key == ""@ {
        Some(default)
    } else if key == "y"@ || key == "yes"@ {
        Some(true)
    } else if key == "n"@ || key == "no"@ {
        Some(false)
    } else {
        None
    }
}

/// The run mode an answer chooses, as `(dry_run, write)`; dry run is the
/// default.
pub open spec fn run_mode_answer(key: Seq<char>) -> Option<(bool, bool)> {
    if key == ""@ || key == "d"@ || key == "dry"@ || key == "dry-run"@ {
        Some((true, false))
    } else if key == "w"@ || key == "write"@ {
        Some((false, true))
    } else {
        None
    }
}

/// The existing-file policy an answer chooses; asking is the default.
pub open spec fn policy_answer(key: Seq<char>) -> Option<ExistingPolicy> {
    if key == ""@ || key == "a"@ || key == "ask"@ {
        Some(ExistingPolicy::Ask)
    } else if key == "s"@ || key == "skip"@ {
        Some(ExistingPolicy::Skip)
    } else if key == "p"@ || key == "process"@ {
        Some(ExistingPolicy::Process)
    } else {
        None
    }
}

/// How a policy is named in the settings review.
pub open spec fn policy_name_of(policy: ExistingPolicy) -> Seq<char> {
    match policy {
        ExistingPolicy::Ask => "ask case by case"@,
        ExistingPolicy::Skip => "skip"@,
        ExistingPolicy::Process => "process"@,
    }
}

/// The warning shown once source and destination are known: writing into
/// the source folder itself may replace files; a destination inside the
/// source is left out of recursive scans.
pub open spec fn path_warning_text(source: Seq<char>, destination: Seq<char>) -> Seq<char> {
    if same_path(source, destination) {
        "Warning: source and destination are the same folder; write mode may replace files.\n"@
    } else if path_has_prefix(destination, source) {
        "Note: the destination is inside the source. TuneTagger will exclude it from recursive scans.\n"@
    } else {
        Seq::<char>::empty()
    }
}

/// The settings review shown before the confirmation.
pub open spec fn review_text(s: SetupView) -> Seq<char> {
    "\nReview settings\n"@ + "---------------\n"@ + "Source:             "@ + s.source + "\n"@
        + "Destination:        "@ + s.destination + "\n"@ + "Include subfolders: "@ + (if s.recursive {
        "yes"@
    } else {
        "no"@
    }) + "\n"@ + "Mode:               "@ + (if s.write {
        "write tagged copies"@
    } else {
        "dry run"@
    }) + "\n"@ + "Existing files:     "@ + policy_name_of(s.existing) + "\n"@
        + "Report:             "@ + s.report + "\n"@
}

/// The settings a confirmed dialog hands to the batch run.
pub open spec fn settings_of(s: SetupView) -> BatchArgsView {
    BatchArgsView {
        path: s.source,
        output: s.destination,
        recursive: s.recursive,
        write: s.write,
        dry_run: s.dry_run,
        report: s.report,
        existing: s.existing,
    }
}

/// A typed path: `None` when only white space was typed, otherwise the
/// trimmed text with `~` expanded.
pub open spec fn typed_path(line: Seq<char>, home: Option<Seq<char>>) -> Option<Seq<char>> {
    if trim(line).len() == 0 {
        None
    } else {
        Some(expand_tilde_of(trim(line), home))
    }
}

/// The state the dialog starts in.
pub open spec fn initial_setup(home: Option<Seq<char>>) -> SetupView {
    SetupView {
        stage: SetupStage::Operation,
        home,
        source: Seq::<char>::empty(),
        destination: Seq::<char>::empty(),
        recursive: false,
        dry_run: true,
        write: false,
        existing: ExistingPolicy::Ask,
        report: Seq::<char>::empty(),
    }
}

/// The dialog reads a line in this stage.
pub open spec fn reads_line(stage: SetupStage) -> bool {
    stage != SetupStage::CheckingSource && stage != SetupStage::Done
}

/// The effect of one answer line: the next state, the text to show, and
/// what to do next.
pub open spec fn answer_step(s: SetupView, line: Seq<char>) -> (SetupView, Seq<char>, SetupActionView) {
    let key = answer_key(line);
    match s.stage {
        SetupStage::Operation => match operation_answer(key) {
            Some(true) => (
                SetupView { stage: SetupStage::Source, ..s },
                source_prompt(),
                SetupActionView::Ask,
            ),
            Some(false) => (
                SetupView { stage: SetupStage::Done, ..s },
                cancel_text(),
                SetupActionView::Finished(None),
            ),
            None => (s, operation_retry() + operation_prompt(), SetupActionView::Ask),
        },
        SetupStage::Source => match typed_path(line, s.home) {
            Some(p) => (
                SetupView { stage: SetupStage::CheckingSource, source: p, ..s },
                Seq::<char>::empty(),
                SetupActionView::CheckDirectory(p),
            ),
            None => (s, path_required_text() + source_prompt(), SetupActionView::Ask),
        },
        SetupStage::Destination => {
            let d = match typed_path(line, s.home) {
                Some(p) => p,
                None => default_destination(s.source),
            };
            (
                SetupView { stage: SetupStage::Recursive, destination: d, ..s },
                path_warning_text(s.source, d) + recursive_prompt(),
                SetupActionView::Ask,
            )
        },
        SetupStage::Recursive => match yes_no_answer(key, false) {
            Some(b) => (
                SetupView { stage: SetupStage::RunMode, recursive: b, ..s },
                run_mode_prompt(),
                SetupActionView::Ask,
            ),
            None => (s, yes_no_retry() + recursive_prompt(), SetupActionView::Ask),
        },
        SetupStage::RunMode => match run_mode_answer(key) {
            Some((dry, write)) => (
                SetupView { stage: SetupStage::Existing, dry_run: dry, write, ..s },
                policy_prompt(),
                SetupActionView::Ask,
            ),
            None => (s, run_mode_retry() + run_mode_prompt(), SetupActionView::Ask),
        },
        SetupStage::Existing => match policy_answer(key) {
            Some(p) => (
                SetupView { stage: SetupStage::Report, existing: p, ..s },
                report_prompt(),
                SetupActionView::Ask,
            ),
            None => (s, policy_retry() + policy_prompt(), SetupActionView::Ask),
        },
        SetupStage::Report => {
            let r = match typed_path(line, s.home) {
                Some(p) => p,
                None => default_report(),
            };
            let next = SetupView { stage: SetupStage::Confirm, report: r, ..s };
            (next, review_text(next) + confirm_prompt(), SetupActionView::Ask)
        },
        SetupStage::Confirm => match yes_no_answer(key, false) {
            Some(true) => (
                SetupView { stage: SetupStage::Done, ..s },
                Seq::<char>::empty(),
                SetupActionView::Finished(Some(settings_of(s))),
            ),
            Some(false) => (
                SetupView { stage: SetupStage::Done, ..s },
                cancel_text(),
                SetupActionView::Finished(None),
            ),
            None => (s, yes_no_retry() + confirm_prompt(), SetupActionView::Ask),
        },
        _ => (s, Seq::<char>::empty(), SetupActionView::Ask),
    }
}

/// The effect of learning whether the typed source folder is a directory.
pub open spec fn directory_step(s: SetupView, is_dir: bool) -> (SetupView, Seq<char>, SetupActionView) {
    if is_dir {
        (
            SetupView { stage: SetupStage::Destination, ..s },
            destination_prompt(default_destination(s.source)),
            SetupActionView::Ask,
        )
    } else {
        (
            SetupView { stage: SetupStage::Source, ..s },
            not_a_directory_text() + source_prompt(),
            SetupActionView::Ask,
        )
    }
}


/// Reads an answer to the operation question.
pub fn parse_operation(answer: &str) -> (r: Option<bool>)
    ensures
        r == operation_answer(answer_key(answer@)),
{
    let k = answer_key_of(answer);
    if chars_eq_str(&k, "") || chars_eq_str(&k, "1") || chars_eq_str(&k, "batch") {
        Some(true)
    } else if chars_eq_str(&k, "q") || chars_eq_str(&k, "quit") {
        Some(false)
    } else {
        None
    }
}

/// Reads a yes/no answer; an empty answer takes `default`.
pub fn parse_yes_no(answer: &str, default: bool) -> (r: Option<bool>)
    ensures
        r == yes_no_answer(answer_key(answer@), default),
{
    let k = answer_key_of(answer);
    if chars_eq_str(&k, "") {
        Some(default)
    } else if chars_eq_str(&k, "y") || chars_eq_str(&k, "yes") {
        Some(true)
    } else if chars_eq_str(&k, "n") || chars_eq_str(&k, "no") {
        Some(false)
    } else {
        None
    }
}

/// Reads the run mode, as `(dry_run, write)`.
pub fn parse_run_mode(answer: &str) -> (r: Option<(bool, bool)>)
    ensures
        r == run_mode_answer(answer_key(answer@)),
{
    let k = answer_key_of(answer);
    if chars_eq_str(&k, "") || chars_eq_str(&k, "d") || chars_eq_str(&k, "dry") || chars_eq_str(
        &k,
        "dry-run",
    ) {
        Some((true, false))
    } else if chars_eq_str(&k, "w") || chars_eq_str(&k, "write") {
        Some((false, true))
    } else {
        None
    }
}

/// Reads the existing-file policy.
pub fn parse_existing_policy(answer: &str) -> (r: Option<ExistingPolicy>)
    ensures
        r == policy_answer(answer_key(answer@)),
{
    let k = answer_key_of(answer);
    if chars_eq_str(&k, "") || chars_eq_str(&k, "a") || chars_eq_str(&k, "ask") {
        Some(ExistingPolicy::Ask)
    } else if chars_eq_str(&k, "s") || chars_eq_str(&k, "skip") {
        Some(ExistingPolicy::Skip)
    } else if chars_eq_str(&k, "p") || chars_eq_str(&k, "process") {
        Some(ExistingPolicy::Process)
    } else {
        None
    }
}

/// How a policy is named in the settings review.
pub fn policy_name(policy: ExistingPolicy) -> (r: &'static str)
    ensures
        r@ == policy_name_of(policy),
{
    match policy {
        ExistingPolicy::Ask => "ask case by case",
        ExistingPolicy::Skip => "skip",
        ExistingPolicy::Process => "process",
    }
}

/// The warning about where the destination lies relative to the source.
pub fn show_path_warning(source: &str, destination: &str) -> (r: String)
    ensures
        r@ == path_warning_text(source@, destination@),
{
    let mut out = String::new();
    if paths_equal(source, destination) {
        out.append(
            "Warning: source and destination are the same folder; write mode may replace files.\n",
        );
    } else if path_starts_with(destination, source) {
        out.append(
            "Note: the destination is inside the source. TuneTagger will exclude it from recursive scans.\n",
        );
    }
    out
}

/// A typed path: `None` for a blank line, else the trimmed, `~`-expanded text.
pub fn read_typed_path(line: &str, home: &Option<String>) -> (r: Option<String>)
    ensures
        opt_text(r) == typed_path(line@, opt_text(*home)),
{
    let c = chars_of(line);
    let t = trim_chars(&c);
    if t.len() == 0 {
        None
    } else {
        let ts = crate::text::string_of(&t);
        Some(expand_tilde(ts.as_str(), home))
    }
}

fn text(s: &str) -> (r: String)
    ensures
        r@ == s@,
{
    let mut out = String::new();
    out.append(s);
    out
}

impl GuidedSetup {
    /// Starts the dialog: the header and the operation question.
    pub fn start(home: Option<String>) -> (r: (GuidedSetup, SetupStep))
        ensures
            r.0@ == initial_setup(opt_text(home)),
            r.1.output@ == header_text() + operation_prompt(),
            r.1.action@ == SetupActionView::Ask,
    {
        let setup = GuidedSetup {
            stage: SetupStage::Operation,
            home,
            source: String::new(),
            destination: String::new(),
            recursive: false,
            dry_run: true,
            write: false,
            existing: ExistingPolicy::Ask,
            report: String::new(),
        };
        let mut out = String::new();
        out.append("TuneTagger guided setup\n=======================\n1. Batch-tag an MP3 folder\nq. Quit\n");
        out.append("Choose an operation [1]: ");
        (setup, SetupStep { output: out, action: SetupAction::Ask })
    }

    fn settings(&self) -> (r: BatchArgs)
        ensures
            r@ == settings_of(self@),
    {
        BatchArgs {
            path: self.source.clone(),
            output: self.destination.clone(),
            recursive: self.recursive,
            write: self.write,
            dry_run: self.dry_run,
            report: self.report.clone(),
            existing: self.existing,
        }
    }

    fn review(&self) -> (r: String)
        ensures
            r@ == review_text(self@),
    {
        let mut out = String::new();
        out.append("\nReview settings\n");
        out.append("---------------\n");
        out.append("Source:             ");
        out.append(self.source.as_str());
        out.append("\n");
        out.append("Destination:        ");
        out.append(self.destination.as_str());
        out.append("\n");
        out.append("Include subfolders: ");
        out.append(if self.recursive { "yes" } else { "no" });
        out.append("\n");
        out.append("Mode:               ");
        out.append(if self.write { "write tagged copies" } else { "dry run" });
        out.append("\n");
        out.append("Existing files:     ");
        out.append(policy_name(self.existing));
        out.append("\n");
        out.append("Report:             ");
        out.append(self.report.as_str());
        out.append("\n");
        out
    }

    /// Feeds one answer line to the dialog.
    pub fn answer(&mut self, line: &str) -> (r: SetupStep)
        requires
            reads_line(old(self).stage),
        ensures
            final(self)@ == answer_step(old(self)@, line@).0,
            r.output@ == answer_step(old(self)@, line@).1,
            r.action@ == answer_step(old(self)@, line@).2,
    {
        match self.stage {
            SetupStage::Operation => match parse_operation(line) {
                Some(true) => {
                    self.stage = SetupStage::Source;
                    SetupStep { output: text("Source folder: "), action: SetupAction::Ask }
                },
                Some(false) => {
                    self.stage = SetupStage::Done;
                    SetupStep {
                        output: text("Canceled. No files were changed.\n"),
                        action: SetupAction::Finished(None),
                    }
                },
                None => {
                    let mut out = text("Please enter '1' or 'q'.\n");
                    out.append("Choose an operation [1]: ");
                    SetupStep { output: out, action: SetupAction::Ask }
                },
            },
            SetupStage::Source => match read_typed_path(line, &self.home) {
                Some(p) => {
                    self.stage = SetupStage::CheckingSource;
                    self.source = p.clone();
                    proof {
                        reveal_strlit("");
                    }
                    SetupStep { output: text(""), action: SetupAction::CheckDirectory(p) }
                },
                None => {
                    let mut out = text("A path is required.\n");
                    out.append("Source folder: ");
                    SetupStep { output: out, action: SetupAction::Ask }
                },
            },
            SetupStage::Destination => {
                let d = match read_typed_path(line, &self.home) {
                    Some(p) => p,
                    None => path_join(self.source.as_str(), "batch_tagged"),
                };
                let mut out = show_path_warning(self.source.as_str(), d.as_str());
                out.append("Include MP3 files from subfolders? [y/N]: ");
                self.stage = SetupStage::Recursive;
                self.destination = d;
                SetupStep { output: out, action: SetupAction::Ask }
            },
            SetupStage::Recursive => match parse_yes_no(line, false) {
                Some(b) => {
                    self.stage = SetupStage::RunMode;
                    self.recursive = b;
                    SetupStep {
                        output: text("Run mode: dry run or write tagged copies? [d/w, default d]: "),
                        action: SetupAction::Ask,
                    }
                },
                None => {
                    let mut out = text("Please enter 'y' or 'n'.\n");
                    out.append("Include MP3 files from subfolders? [y/N]: ");
                    SetupStep { output: out, action: SetupAction::Ask }
                },
            },
            SetupStage::RunMode => match parse_run_mode(line) {
                Some((dry, write)) => {
                    self.stage = SetupStage::Existing;
                    self.dry_run = dry;
                    self.write = write;
                    SetupStep {
                        output: text(
                            "When a destination file exists: ask, skip, or process? [a/s/p, default a]: ",
                        ),
                        action: SetupAction::Ask,
                    }
                },
                None => {
                    let mut out = text("Please enter 'd' for dry run or 'w' for write.\n");
                    out.append("Run mode: dry run or write tagged copies? [d/w, default d]: ");
                    SetupStep { output: out, action: SetupAction::Ask }
                },
            },
            SetupStage::Existing => match parse_existing_policy(line) {
                Some(p) => {
                    self.stage = SetupStage::Report;
                    self.existing = p;
                    SetupStep {
                        output: text("Report file [batch-report.txt]: "),
                        action: SetupAction::Ask,
                    }
                },
                None => {
                    let mut out = text("Please enter 'a', 's', or 'p'.\n");
                    out.append(
                        "When a destination file exists: ask, skip, or process? [a/s/p, default a]: ",
                    );
                    SetupStep { output: out, action: SetupAction::Ask }
                },
            },
            SetupStage::Report => {
                let r = match read_typed_path(line, &self.home) {
                    Some(p) => p,
                    None => text("batch-report.txt"),
                };
                self.stage = SetupStage::Confirm;
                self.report = r;
                let mut out = self.review();
                out.append("Start with these settings? [y/N]: ");
                SetupStep { output: out, action: SetupAction::Ask }
            },
            SetupStage::Confirm => match parse_yes_no(line, false) {
                Some(true) => {
                    let args = self.settings();
                    self.stage = SetupStage::Done;
                    proof {
                        reveal_strlit("");
                    }
                    SetupStep { output: text(""), action: SetupAction::Finished(Some(args)) }
                },
                Some(false) => {
                    self.stage = SetupStage::Done;
                    SetupStep {
                        output: text("Canceled. No files were changed.\n"),
                        action: SetupAction::Finished(None),
                    }
                },
                None => {
                    let mut out = text("Please enter 'y' or 'n'.\n");
                    out.append("Start with these settings? [y/N]: ");
                    SetupStep { output: out, action: SetupAction::Ask }
                },
            },
            _ => {
                proof {
                    reveal_strlit("");
                }
                SetupStep { output: text(""), action: SetupAction::Ask }
            },
        }
    }

    /// Tells the dialog whether the typed source folder is a directory.
    pub fn directory_checked(&mut self, is_dir: bool) -> (r: SetupStep)
        requires
            old(self).stage == SetupStage::CheckingSource,
        ensures
            final(self)@ == directory_step(old(self)@, is_dir).0,
            r.output@ == directory_step(old(self)@, is_dir).1,
            r.action@ == directory_step(old(self)@, is_dir).2,
    {
        if is_dir {
            let default = path_join(self.source.as_str(), "batch_tagged");
            let mut out = text("Destination folder [");
            out.append(default.as_str());
            out.append("]: ");
            self.stage = SetupStage::Destination;
            SetupStep { output: out, action: SetupAction::Ask }
        } else {
            let mut out = text("That source folder does not exist or is not a directory.\n");
            out.append("Source folder: ");
            self.stage = SetupStage::Source;
            SetupStep { output: out, action: SetupAction::Ask }
        }
    }
}

/// The message when the input ends before the dialog is complete.
pub fn setup_input_ended() -> (r: &'static str)
    ensures
        r@ == setup_input_ended_text(),
{
    "input ended before interactive setup was complete"
}


/// A dialog state never selects dry run and write together, nor neither.
pub open spec fn mode_is_exclusive(s: SetupView) -> bool {
    s.dry_run != s.write
}

/// Every step keeps dry run and write mutually exclusive, so confirmed
/// settings are either a dry run or a write run, never both.
pub proof fn lemma_modes_stay_exclusive(s: SetupView, line: Seq<char>, is_dir: bool)
    requires
        mode_is_exclusive(s),
    ensures
        mode_is_exclusive(initial_setup(s.home)),
        mode_is_exclusive(answer_step(s, line).0),
        mode_is_exclusive(directory_step(s, is_dir).0),
        answer_step(s, line).2 matches SetupActionView::Finished(Some(a)) ==> a.dry_run != a.write,
{
}

/// Settings come out of the dialog only from the confirmation question,
/// answered yes, and they are exactly what was chosen before it.
pub proof fn lemma_settings_need_confirmation(s: SetupView, line: Seq<char>)
    ensures
        answer_step(s, line).2 matches SetupActionView::Finished(Some(a)) ==> {
            &&& s.stage == SetupStage::Confirm
            &&& yes_no_answer(answer_key(line), false) == Some(true)
            &&& a == settings_of(s)
        },
{
}

/// The dialog ends without settings only when the user quits at the first
/// question or declines the confirmation.
pub proof fn lemma_cancel_only_when_asked(s: SetupView, line: Seq<char>)
    ensures
        answer_step(s, line).2 matches SetupActionView::Finished(None) ==> {
            ||| s.stage == SetupStage::Operation && operation_answer(answer_key(line)) == Some(
                false,
            )
            ||| s.stage == SetupStage::Confirm && yes_no_answer(answer_key(line), false) == Some(
                false,
            )
        },
{
}

/// An answer that is not understood leaves the dialog where it was.
pub proof fn lemma_unclear_answer_repeats(s: SetupView, line: Seq<char>)
    requires
        s.stage == SetupStage::Recursive && yes_no_answer(answer_key(line), false) is None
            || s.stage == SetupStage::RunMode && run_mode_answer(answer_key(line)) is None
            || s.stage == SetupStage::Existing && policy_answer(answer_key(line)) is None
            || s.stage == SetupStage::Confirm && yes_no_answer(answer_key(line), false) is None
            || s.stage == SetupStage::Operation && operation_answer(answer_key(line)) is None,
    ensures
        answer_step(s, line).0 == s,
        answer_step(s, line).2 == SetupActionView::Ask,
{
}


/// A blank answer takes the safe default at every question: batch tagging
/// at the first question, `<source>/batch_tagged` as the destination, no
/// subfolders, a dry run, asking about existing files and
/// `batch-report.txt` as the report; a blank source folder is asked for
/// again, and a blank confirmation cancels.
pub proof fn lemma_blank_answers_take_safe_defaults(s: SetupView, line: Seq<char>)
    requires
        trim(line).len() == 0,
    ensures
        s.stage == SetupStage::Operation ==> answer_step(s, line).0.stage == SetupStage::Source,
        s.stage == SetupStage::Source ==> answer_step(s, line).0 == s && answer_step(s, line).2
            == SetupActionView::Ask,
        s.stage == SetupStage::Destination ==> answer_step(s, line).0.destination
            == default_destination(s.source),
        s.stage == SetupStage::Recursive ==> !answer_step(s, line).0.recursive,
        s.stage == SetupStage::RunMode ==> answer_step(s, line).0.dry_run && !answer_step(
            s,
            line,
        ).0.write,
        s.stage == SetupStage::Existing ==> answer_step(s, line).0.existing == ExistingPolicy::Ask,
        s.stage == SetupStage::Report ==> answer_step(s, line).0.report == default_report(),
        s.stage == SetupStage::Confirm ==> answer_step(s, line).2 == SetupActionView::Finished(
            None,
        ),
{
    reveal_strlit("");
    assert(answer_key(line).len() == 0);
    assert(answer_key(line) =~= ""@);
}


/// The dialog's actions are always possible: it starts at a question; after
/// an answer, "ask" leaves it at a question and "check a directory" leaves
/// it waiting for that check; after the check it is at a question again.
pub proof fn lemma_actions_fit_the_stage(s: SetupView, line: Seq<char>, is_dir: bool)
    ensures
        reads_line(initial_setup(s.home).stage),
        reads_line(s.stage) && answer_step(s, line).2 == SetupActionView::Ask ==> reads_line(
            answer_step(s, line).0.stage,
        ),
        reads_line(s.stage) && answer_step(s, line).2 is CheckDirectory ==> answer_step(
            s,
            line,
        ).0.stage == SetupStage::CheckingSource,
        s.stage == SetupStage::CheckingSource ==> directory_step(s, is_dir).2
            == SetupActionView::Ask && reads_line(directory_step(s, is_dir).0.stage),
{
}

impl GuidedSetup {
    /// Whether the dialog is waiting for an answer line.
    pub fn awaits_line(&self) -> (r: bool)
        ensures
            r == reads_line(self.stage),
    {
        self.stage != SetupStage::CheckingSource && self.stage != SetupStage::Done
    }

    /// Whether the dialog is waiting for the source folder check.
    pub fn awaits_directory_check(&self) -> (r: bool)
        ensures
            r == (self.stage == SetupStage::CheckingSource),
    {
        self.stage == SetupStage::CheckingSource
    }
}

} // verus!

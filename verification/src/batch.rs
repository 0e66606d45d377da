//! Batch tagging: what to do with files whose destination already exists,
//! how failures are classified, and the plain-text batch report.

use vstd::prelude::*;
use crate::text::{
    push_decimal, decimal, ascii_lowercase, ascii_lowercase_chars, chars_eq, chars_eq_str, chars_of,
    collapse_whitespace, is_white_space, lemma_collapse_is_single_spaced,
    lemma_single_spaced_collapse_fixed, opt_text, single_spaced, starts_with,
    collapse_whitespace_chars, contains, contains_chars, replace_all, replace_chars, string_of,
    trim, trim_chars,
};
use crate::unicode::{to_uppercase, unicode_uppercase};
use crate::model::AudioFile;
use crate::paths::{
    parent_of, path_has_prefix, path_lt, path_precedes, path_starts_with, paths_equal, report_base, same_path, show_path,
    shown_path,
};

verus! {

/// How a batch run treats a source file whose destination already exists.
#[derive(Clone, Copy, Debug, PartialEq, Eq, Structural)]
pub enum ExistingPolicy {
    /// Ask what to do for each existing destination match.
    Ask,
    /// Skip every source file with an existing destination match.
    Skip,
    /// Process every source file even when a destination match exists.
    Process,
}

/// The answer given for one existing destination match.
#[derive(Clone, Copy, Debug, PartialEq, Eq, Structural)]
pub enum ExistingDecision {
    Skip,
    SkipAll,
    Process,
}

/// The settings of one batch run.
#[derive(Clone, Debug)]
pub struct BatchArgs {
    pub path: String,
    pub output: String,
    pub recursive: bool,
    pub write: bool,
    pub dry_run: bool,
    /// Path for the detailed plain-text batch report.
    pub report: String,
    /// How to handle files already present in the destination.
    pub existing: ExistingPolicy,
}

/// The settings of a batch run as plain values.
pub struct BatchArgsView {
    pub path: Seq<char>,
    pub output: Seq<char>,
    pub recursive: bool,
    pub write: bool,
    pub dry_run: bool,
    pub report: Seq<char>,
    pub existing: ExistingPolicy,
}

impl View for BatchArgs {
    type V = BatchArgsView;

    open spec fn view(&self) -> BatchArgsView {
        BatchArgsView {
            path: self.path@,
            output: self.output@,
            recursive: self.recursive,
            write: self.write,
            dry_run: self.dry_run,
            report: self.report@,
            existing: self.existing,
        }
    }
}

/// A source file left alone because its destination already exists.
#[derive(Clone, Debug)]
pub struct BatchSkipped {
    pub source: String,
    pub destination: String,
    pub reason: String,
}

/// A source file whose processing failed.
#[derive(Clone, Debug)]
pub struct BatchFailure {
    pub path: String,
    pub category: String,
    pub reason: String,
}

/// An answer with surrounding white space removed and ASCII folded to
/// lower case: the form in which answers are compared.
pub open spec fn answer_key(answer: Seq<char>) -> Seq<char> {
    ascii_lowercase(trim(answer))
}

/// The decision an answer to the existing-file question stands for.
pub open spec fn existing_choice(answer: Seq<char>) -> Option<ExistingDecision> {
    let k = answer_key(answer);
    if k == "s"@ || k == "skip"@ {
        Some(ExistingDecision::Skip)
    } else if k == "a"@ || k == "all"@ || k == "skip-all"@ {
        Some(ExistingDecision::SkipAll)
    } else if k == "p"@ || k == "process"@ || k == "continue"@ {
        Some(ExistingDecision::Process)
    } else {
        None
    }
}

/// The trimmed, ASCII-lowercased characters of an answer.
pub fn answer_key_of(answer: &str) -> (r: Vec<char>)
    ensures
        r@ == answer_key(answer@),
{
    let chars = chars_of(answer);
    let trimmed = trim_chars(&chars);
    ascii_lowercase_chars(&trimmed)
}

/// Reads one answer to the existing-file question.
pub fn parse_existing_choice(answer: &str) -> (r: Option<ExistingDecision>)
    ensures
        r == existing_choice(answer@),
{
    let k = answer_key_of(answer);
    if chars_eq_str(&k, "s") || chars_eq_str(&k, "skip") {
        Some(ExistingDecision::Skip)
    } else if chars_eq_str(&k, "a") || chars_eq_str(&k, "all") || chars_eq_str(&k, "skip-all") {
        Some(ExistingDecision::SkipAll)
    } else if chars_eq_str(&k, "p") || chars_eq_str(&k, "process") || chars_eq_str(
        &k,
        "continue",
    ) {
        Some(ExistingDecision::Process)
    } else {
        None
    }
}

/// The category a failure message falls in, checked in this order: the
/// recognition failures the error messages name (no match, audio
/// decoding, fingerprinting, invalid service response) and validation;
/// then recognition, metadata, tagging, configuration, network, then I/O
/// when an I/O error caused the failure, and processing otherwise.
pub open spec fn failure_category_of(message: Seq<char>, caused_by_io: bool) -> Seq<char> {
    let m = ascii_lowercase(message);
    if contains(m, "recognition / no match"@) {
        "recognition / no match"@
    } else if contains(m, "audio decoding failed"@) {
        "audio decoding"@
    } else if contains(m, "fingerprinting failed"@) {
        "fingerprinting"@
    } else if contains(m, "invalid service response"@) {
        "invalid service response"@
    } else if contains(m, "validation failed"@) {
        "validation"@
    } else if contains(m, "recognition"@) || contains(m, "fingerprint"@) {
        "recognition"@
    } else if contains(m, "metadata"@) || contains(m, "candidate"@) {
        "metadata"@
    } else if contains(m, "tagging"@) || contains(m, "id3"@) {
        "tagging"@
    } else if contains(m, "config"@) {
        "configuration"@
    } else if contains(m, "network"@) || contains(m, "http"@) || contains(m, "request"@)
        || contains(m, "connection"@) {
        "network"@
    } else if caused_by_io {
        "I/O"@
    } else {
        "processing"@
    }
}

fn mentions(m: &Vec<char>, word: &str) -> (r: bool)
    ensures
        r == contains(m@, word@),
{
    let w = chars_of(word);
    contains_chars(m, &w)
}

/// Classifies a failure from its full message (the error and its causes)
/// and whether an I/O error is among the causes.
pub fn failure_category(message: &str, caused_by_io: bool) -> (r: &'static str)
    ensures
        r@ == failure_category_of(message@, caused_by_io),
{
    let mc = chars_of(message);
    let m = ascii_lowercase_chars(&mc);
    if mentions(&m, "recognition / no match") {
        "recognition / no match"
    } else if mentions(&m, "audio decoding failed") {
        "audio decoding"
    } else if mentions(&m, "fingerprinting failed") {
        "fingerprinting"
    } else if mentions(&m, "invalid service response") {
        "invalid service response"
    } else if mentions(&m, "validation failed") {
        "validation"
    } else if mentions(&m, "recognition") || mentions(&m, "fingerprint") {
        "recognition"
    } else if mentions(&m, "metadata") || mentions(&m, "candidate") {
        "metadata"
    } else if mentions(&m, "tagging") || mentions(&m, "id3") {
        "tagging"
    } else if mentions(&m, "config") {
        "configuration"
    } else if mentions(&m, "network") || mentions(&m, "http") || mentions(&m, "request")
        || mentions(&m, "connection") {
        "network"
    } else if caused_by_io {
        "I/O"
    } else {
        "processing"
    }
}

/// The longest console reason, in characters.
pub const MAX_REASON_CHARS: usize = 160;

/// A reason shortened for the console: its words on one line, and when
/// that is longer than the limit, its first characters followed by "...",
/// the limit in all.
pub open spec fn brief_reason_of(reason: Seq<char>) -> Seq<char> {
    let one_line = collapse_whitespace(reason);
    if one_line.len() <= MAX_REASON_CHARS {
        one_line
    } else {
        one_line.take(MAX_REASON_CHARS - 3) + "..."@
    }
}

/// Shortens a failure reason for the console summary.
pub fn brief_reason(reason: &str) -> (r: String)
    ensures
        r@ == brief_reason_of(reason@),
        r@.len() <= MAX_REASON_CHARS,
{
    let chars = chars_of(reason);
    let one_line = collapse_whitespace_chars(&chars);
    if one_line.len() <= MAX_REASON_CHARS {
        return string_of(&one_line);
    }
    let mut kept: Vec<char> = Vec::new();
    let mut i: usize = 0;
    while i < MAX_REASON_CHARS - 3
        invariant
            one_line.len() > MAX_REASON_CHARS,
            i <= MAX_REASON_CHARS - 3,
            kept@ == one_line@.take(i as int),
        decreases MAX_REASON_CHARS - 3 - i,
    {
        kept.push(one_line[i]);
        assert(one_line@.take((i + 1) as int) =~= one_line@.take(i as int).push(
            one_line@[i as int],
        ));
        i = i + 1;
    }
    let mut r = string_of(&kept);
    r.append("...");
    proof {
        reveal_strlit("...");
    }
    r
}

/// A console reason is one clean line: words separated by single spaces
/// (so no line break), at most the limit long, and shortening it again
/// changes nothing.
pub proof fn lemma_brief_reason_is_one_clean_line(reason: Seq<char>)
    ensures
        single_spaced(brief_reason_of(reason)),
        brief_reason_of(reason).len() <= MAX_REASON_CHARS,
        forall|i: int|
            0 <= i < brief_reason_of(reason).len() ==> #[trigger] brief_reason_of(reason)[i]
                != '\n',
        brief_reason_of(brief_reason_of(reason)) == brief_reason_of(reason),
{
    let w = collapse_whitespace(reason);
    lemma_collapse_is_single_spaced(reason);
    reveal_strlit("...");
    let b = brief_reason_of(reason);
    if w.len() > MAX_REASON_CHARS {
        assert forall|i: int| 0 <= i < b.len() && is_white_space(#[trigger] b[i]) implies b[i]
            == ' ' && 0 < i && i + 1 < b.len() && !is_white_space(b[i + 1]) by {
            assert(i < 157);
            assert(b[i] == w[i]);
            if i + 1 < 157 {
                assert(b[i + 1] == w[i + 1]);
            } else {
                assert(b[i + 1] == '.');
            }
        }
    }
    lemma_single_spaced_collapse_fixed(b);
    assert forall|i: int| 0 <= i < b.len() implies #[trigger] b[i] != '\n' by {
        if b[i] == '\n' {
            assert(is_white_space(b[i]));
        }
    }
}

/// A multi-line reason with its continuation lines indented under the
/// report's "  Reason: " label.
pub open spec fn indent_continuation_of(reason: Seq<char>) -> Seq<char> {
    replace_all(reason, "\n"@, "\n          "@)
}

/// Indents the continuation lines of a reason for the report.
pub fn indent_continuation(reason: &str) -> (r: String)
    ensures
        r@ == indent_continuation_of(reason@),
{
    let chars = chars_of(reason);
    let pat = chars_of("\n");
    let rep = chars_of("\n          ");
    proof {
        reveal_strlit("\n");
    }
    let out = replace_chars(&chars, &pat, &rep);
    string_of(&out)
}


/// How often `c` occurs in `s`.
pub open spec fn occurrences(s: Seq<char>, c: char) -> nat
    decreases s.len(),
{
    if s.len() == 0 {
        0
    } else {
        (if s[0] == c {
            1nat
        } else {
            0nat
        }) + occurrences(s.drop_first(), c)
    }
}

proof fn lemma_occurrences_concat(a: Seq<char>, b: Seq<char>, c: char)
    ensures
        occurrences(a + b, c) == occurrences(a, c) + occurrences(b, c),
    decreases a.len(),
{
    if a.len() > 0 {
        lemma_occurrences_concat(a.drop_first(), b, c);
        assert((a + b).drop_first() =~= a.drop_first() + b);
    } else {
        assert(a + b =~= b);
    }
}

/// A reason with the report's continuation indent taken out again.
pub open spec fn unindented_of(text: Seq<char>) -> Seq<char> {
    replace_all(text, "\n          "@, "\n"@)
}

/// Indenting a reason keeps its line breaks, and taking the indent out
/// again gives the reason back.
pub proof fn lemma_indent_round_trip(reason: Seq<char>)
    ensures
        occurrences(indent_continuation_of(reason), '\n') == occurrences(reason, '\n'),
        unindented_of(indent_continuation_of(reason)) == reason,
    decreases reason.len(),
{
    reveal_strlit("\n");
    reveal_strlit("\n          ");
    let rep = "\n          "@;
    if reason.len() > 0 {
        let rest = reason.drop_first();
        lemma_indent_round_trip(rest);
        let y = indent_continuation_of(rest);
        let x = indent_continuation_of(reason);
        if reason[0] == '\n' {
            assert(reason.subrange(0, 1) =~= "\n"@);
            assert(starts_with(reason, "\n"@));
            assert(reason.skip(1) =~= rest);
            assert(x == rep + y);
            assert(starts_with(x, rep)) by {
                assert(x.subrange(0, rep.len() as int) =~= rep);
            }
            assert(x.skip(rep.len() as int) =~= y);
            lemma_occurrences_concat(rep, y, '\n');
            assert(occurrences(rep, '\n') == 1) by {
                reveal_with_fuel(occurrences, 12);
            }
            assert(seq!['\n'] + rest =~= reason);
        } else {
            assert(reason.subrange(0, 1)[0] != "\n"@[0]);
            assert(!starts_with(reason, "\n"@));
            assert(x == seq![reason[0]] + y);
            assert(!starts_with(x, rep));
            assert(x.drop_first() =~= y);
            assert(seq![reason[0]] + rest =~= reason);
        }
    } else {
        assert(indent_continuation_of(reason) =~= reason);
    }
}

/// The report lines for the files that succeeded, numbered from 1.
pub open spec fn succeeded_lines(paths: Seq<String>, input: Seq<char>) -> Seq<char>
    decreases paths.len(),
{
    if paths.len() == 0 {
        Seq::<char>::empty()
    } else {
        succeeded_lines(paths.drop_last(), input) + decimal(paths.len()) + ". [OK] "@
            + shown_path(paths.last()@, input) + "\n"@
    }
}

/// The reason line of the skipped file at the end of `items`: shown only
/// when it differs from the reason of the file before it.
pub open spec fn skip_reason_line(items: Seq<BatchSkipped>) -> Seq<char> {
    let it = items.last();
    if items.len() > 1 && items[items.len() - 2].reason@ == it.reason@ {
        Seq::<char>::empty()
    } else {
        "  Reason: "@ + it.reason@ + "\n"@
    }
}

/// The report lines for the files that were skipped, numbered from 1; a
/// reason is not repeated for consecutive files skipped for the same one.
pub open spec fn skipped_lines(items: Seq<BatchSkipped>, input: Seq<char>) -> Seq<char>
    decreases items.len(),
{
    if items.len() == 0 {
        Seq::<char>::empty()
    } else {
        let it = items.last();
        skipped_lines(items.drop_last(), input) + decimal(items.len()) + ". [SKIPPED] "@
            + shown_path(it.source@, input) + "\n"@ + "  Destination: "@ + shown_path(
            it.destination@,
            input,
        ) + "\n"@ + skip_reason_line(items)
    }
}

/// The report lines for the files that failed, numbered from 1.
pub open spec fn failed_lines(items: Seq<BatchFailure>, input: Seq<char>) -> Seq<char>
    decreases items.len(),
{
    if items.len() == 0 {
        Seq::<char>::empty()
    } else {
        let it = items.last();
        failed_lines(items.drop_last(), input) + decimal(items.len()) + ". ["@ + unicode_uppercase(
            it.category@,
        ) + "] "@ + shown_path(it.path@, input) + "\n"@ + "  Reason: "@ + indent_continuation_of(
            it.reason@,
        ) + "\n"@
    }
}

/// A report section: its lines, or "(none)" when it lists nothing.
pub open spec fn section_or_none(count: nat, lines: Seq<char>) -> Seq<char> {
    if count == 0 {
        "(none)\n"@
    } else {
        lines
    }
}

/// The whole plain-text batch report: the counts, failures first, then the
/// failed, skipped and succeeded files, each list numbered, with paths
/// shown relative to the folder that contains the input folder.
pub open spec fn report_text(
    input: Seq<char>,
    succeeded: Seq<String>,
    skipped: Seq<BatchSkipped>,
    failed: Seq<BatchFailure>,
) -> Seq<char> {
    "TuneTagger Batch Report\n"@ + "Input: "@ + input + "\n"@ + "Failed: "@ + decimal(failed.len())
        + "\n"@ + "Skipped: "@ + decimal(skipped.len()) + "\n"@ + "Successful: "@ + decimal(
        succeeded.len(),
    ) + "\n"@ + "\nFAILED\n"@ + section_or_none(failed.len(), failed_lines(failed, input))
        + "\nSKIPPED\n"@ + section_or_none(skipped.len(), skipped_lines(skipped, input))
        + "\nSUCCEEDED\n"@ + section_or_none(succeeded.len(), succeeded_lines(succeeded, input))
}

#[verifier::rlimit(40)]
fn append_failed(out: &mut String, input: &str, base: &Option<String>, failed: &Vec<BatchFailure>)
    requires
        opt_text(*base) == parent_of(input@),
    ensures
        final(out)@ == old(out)@ + section_or_none(failed@.len(), failed_lines(failed@, input@)),
{
    if failed.len() == 0 {
        out.append("(none)\n");
        return;
    }
    let ghost head = old(out)@;
    let mut i: usize = 0;
    while i < failed.len()
        invariant
            i <= failed.len(),
            opt_text(*base) == parent_of(input@),
            out@ == head + failed_lines(failed@.take(i as int), input@),
        decreases failed.len() - i,
    {
        let item = &failed[i];
        let upper = to_uppercase(item.category.as_str());
        let indented = indent_continuation(item.reason.as_str());
        let shown = show_path(item.path.as_str(), base);
        push_decimal(out, i + 1);
        out.append(". [");
        out.append(upper.as_str());
        out.append("] ");
        out.append(shown.as_str());
        out.append("\n");
        out.append("  Reason: ");
        out.append(indented.as_str());
        out.append("\n");
        assert(shown@ == shown_path(item.path@, input@));
        assert(failed@.take((i + 1) as int).drop_last() =~= failed@.take(i as int));
        i = i + 1;
    }
    assert(failed@.take(failed.len() as int) =~= failed@);
}

#[verifier::rlimit(40)]
fn append_skipped(
    out: &mut String,
    input: &str,
    base: &Option<String>,
    skipped: &Vec<BatchSkipped>,
)
    requires
        opt_text(*base) == parent_of(input@),
    ensures
        final(out)@ == old(out)@ + section_or_none(
            skipped@.len(),
            skipped_lines(skipped@, input@),
        ),
{
    if skipped.len() == 0 {
        out.append("(none)\n");
        return;
    }
    let ghost head = old(out)@;
    let mut i: usize = 0;
    while i < skipped.len()
        invariant
            i <= skipped.len(),
            opt_text(*base) == parent_of(input@),
            out@ == head + skipped_lines(skipped@.take(i as int), input@),
        decreases skipped.len() - i,
    {
        let item = &skipped[i];
        let source = show_path(item.source.as_str(), base);
        let destination = show_path(item.destination.as_str(), base);
        push_decimal(out, i + 1);
        out.append(". [SKIPPED] ");
        out.append(source.as_str());
        out.append("\n");
        out.append("  Destination: ");
        out.append(destination.as_str());
        out.append("\n");
        let ghost taken = skipped@.take((i + 1) as int);
        let repeated = if i > 0 {
            let prev = chars_of(skipped[i - 1].reason.as_str());
            let this = chars_of(item.reason.as_str());
            chars_eq(&prev, &this)
        } else {
            false
        };
        if !repeated {
            out.append("  Reason: ");
            out.append(item.reason.as_str());
            out.append("\n");
        }
        assert(source@ == shown_path(item.source@, input@));
        assert(destination@ == shown_path(item.destination@, input@));
        assert(taken.last() == skipped@[i as int]);
        assert(i > 0 ==> taken[taken.len() - 2] == skipped@[i - 1]);
        assert(taken.drop_last() =~= skipped@.take(i as int));
        i = i + 1;
    }
    assert(skipped@.take(skipped.len() as int) =~= skipped@);
}

fn append_succeeded(out: &mut String, input: &str, base: &Option<String>, succeeded: &Vec<String>)
    requires
        opt_text(*base) == parent_of(input@),
    ensures
        final(out)@ == old(out)@ + section_or_none(
            succeeded@.len(),
            succeeded_lines(succeeded@, input@),
        ),
{
    if succeeded.len() == 0 {
        out.append("(none)\n");
        return;
    }
    let ghost head = old(out)@;
    let mut i: usize = 0;
    while i < succeeded.len()
        invariant
            i <= succeeded.len(),
            opt_text(*base) == parent_of(input@),
            out@ == head + succeeded_lines(succeeded@.take(i as int), input@),
        decreases succeeded.len() - i,
    {
        let shown = show_path(succeeded[i].as_str(), base);
        push_decimal(out, i + 1);
        out.append(". [OK] ");
        out.append(shown.as_str());
        out.append("\n");
        assert(shown@ == shown_path(succeeded@[i as int]@, input@));
        assert(succeeded@.take((i + 1) as int).drop_last() =~= succeeded@.take(i as int));
        i = i + 1;
    }
    assert(succeeded@.take(succeeded.len() as int) =~= succeeded@);
}

/// Renders the batch report: counts first, then every failed, skipped and
/// succeeded file with its category, destination and reason.
pub fn render_report(
    input_path: &str,
    succeeded: &Vec<String>,
    skipped: &Vec<BatchSkipped>,
    failed: &Vec<BatchFailure>,
) -> (r: String)
    ensures
        r@ == report_text(input_path@, succeeded@, skipped@, failed@),
{
    let base = report_base(input_path);
    let mut out = String::new();
    out.append("TuneTagger Batch Report\n");
    out.append("Input: ");
    out.append(input_path);
    out.append("\n");
    out.append("Failed: ");
    push_decimal(&mut out, failed.len());
    out.append("\n");
    out.append("Skipped: ");
    push_decimal(&mut out, skipped.len());
    out.append("\n");
    out.append("Successful: ");
    push_decimal(&mut out, succeeded.len());
    out.append("\n");
    out.append("\nFAILED\n");
    append_failed(&mut out, input_path, &base, failed);
    out.append("\nSKIPPED\n");
    append_skipped(&mut out, input_path, &base, skipped);
    out.append("\nSUCCEEDED\n");
    append_succeeded(&mut out, input_path, &base, succeeded);
    out
}


/// The question shown for one existing destination match.
pub open spec fn existing_prompt_text(source: Seq<char>, destination: Seq<char>) -> Seq<char> {
    "\nDestination match found:\n"@ + "  Source:      "@ + source + "\n"@ + "  Destination: "@
        + destination + "\n"@ + "Skip this file, skip all matches, or process it? [s/a/p]: "@
}

/// What is shown after an answer that is not understood.
pub open spec fn existing_retry_text() -> Seq<char> {
    "Please enter 's', 'a', or 'p'.\n"@
}

/// The question shown for one existing destination match.
pub fn existing_prompt(source: &str, destination: &str) -> (r: String)
    ensures
        r@ == existing_prompt_text(source@, destination@),
{
    let mut out = String::new();
    out.append("\nDestination match found:\n");
    out.append("  Source:      ");
    out.append(source);
    out.append("\n");
    out.append("  Destination: ");
    out.append(destination);
    out.append("\n");
    out.append("Skip this file, skip all matches, or process it? [s/a/p]: ");
    out
}

/// What is shown after an answer that is not understood.
pub fn existing_retry() -> (r: &'static str)
    ensures
        r@ == existing_retry_text(),
{
    "Please enter 's', 'a', or 'p'.\n"
}

/// The message when the input ends before a choice was made.
pub open spec fn existing_input_ended_text() -> Seq<char> {
    "input ended before an existing-file choice was made"@
}

/// The existing-file dialog over the answer lines `lines`: the text it
/// shows, and the first understood decision (`None` when the lines run out
/// first). The question is asked before each line is read, and each answer
/// that is not understood is followed by the retry hint.
pub open spec fn existing_dialog(prompt: Seq<char>, lines: Seq<String>) -> (
    Seq<char>,
    Option<ExistingDecision>,
)
    decreases lines.len(),
{
    if lines.len() == 0 {
        (prompt, None)
    } else {
        match existing_choice(lines[0]@) {
            Some(d) => (prompt, Some(d)),
            None => {
                let (rest, d) = existing_dialog(prompt, lines.drop_first());
                (prompt + existing_retry_text() + rest, d)
            },
        }
    }
}

/// Asks about one existing destination match, reading answers from
/// `input` (one line each) and writing to `output`, until an answer is
/// understood.
pub fn prompt_for_existing_with_io(
    source: &str,
    destination: &str,
    input: &Vec<String>,
    output: &mut String,
) -> (r: Result<ExistingDecision, String>)
    ensures
        final(output)@ == old(output)@ + existing_dialog(
            existing_prompt_text(source@, destination@),
            input@,
        ).0,
        match existing_dialog(existing_prompt_text(source@, destination@), input@).1 {
            Some(d) => r == Ok::<ExistingDecision, String>(d),
            None => r matches Err(e) && e@ == existing_input_ended_text(),
        },
{
    let ghost prompt = existing_prompt_text(source@, destination@);
    let ghost start = old(output)@;
    let mut i: usize = 0;
    assert(input@.skip(0) =~= input@);
    while i < input.len()
        invariant
            i <= input.len(),
            prompt == existing_prompt_text(source@, destination@),
            start == old(output)@,
            existing_dialog(prompt, input@.skip(i as int)).1 == existing_dialog(prompt, input@).1,
            start + existing_dialog(prompt, input@).0 == output@ + existing_dialog(
                prompt,
                input@.skip(i as int),
            ).0,
        decreases input.len() - i,
    {
        let text = existing_prompt(source, destination);
        output.append(text.as_str());
        let ghost rest = input@.skip(i as int);
        assert(rest[0] == input@[i as int]);
        match existing_answer(input[i].as_str()) {
            Ok(d) => {
                assert(existing_dialog(prompt, rest).0 == prompt);
                assert(start + existing_dialog(prompt, input@).0 == output@);
                return Ok(d);
            },
            Err(retry) => {
                output.append(retry);
                assert(rest.drop_first() =~= input@.skip(i + 1));
                let ghost (tail, _d) = existing_dialog(prompt, rest.drop_first());
                assert(prompt + existing_retry_text() + tail =~= prompt + (existing_retry_text()
                    + tail));
            },
        }
        i = i + 1;
    }
    let text = existing_prompt(source, destination);
    output.append(text.as_str());
    let mut e = String::new();
    e.append(existing_input_ended());
    Err(e)
}

/// One turn of the existing-file dialog, for a caller that reads answers
/// as they arrive: the decision the answer stands for, or the hint to show
/// before the question is asked again. `prompt_for_existing_with_io` is
/// these turns run over a list of answers.
pub fn existing_answer(answer: &str) -> (r: Result<ExistingDecision, &'static str>)
    ensures
        match existing_choice(answer@) {
            Some(d) => r == Ok::<ExistingDecision, &'static str>(d),
            None => r matches Err(t) && t@ == existing_retry_text(),
        },
{
    match parse_existing_choice(answer) {
        Some(d) => Ok(d),
        None => Err(existing_retry()),
    }
}

/// The error when the answers end before a decision was made.
pub fn existing_input_ended() -> (r: &'static str)
    ensures
        r@ == existing_input_ended_text(),
{
    "input ended before an existing-file choice was made"
}

/// The reason recorded for a file skipped because its destination exists.
pub open spec fn existing_skip_reason() -> Seq<char> {
    "matching destination filename already exists"@
}

/// The message recorded when the metadata lookup found no candidates.
pub open spec fn no_candidates_message() -> Seq<char> {
    "metadata lookup failed: no candidates found"@
}

/// The decision a batch run takes by itself for an existing destination
/// match, or `None` when it has to ask.
pub open spec fn planned_decision_of(policy: ExistingPolicy, skip_all: bool) -> Option<
    ExistingDecision,
> {
    if skip_all {
        Some(ExistingDecision::Skip)
    } else {
        match policy {
            ExistingPolicy::Ask => None,
            ExistingPolicy::Skip => Some(ExistingDecision::Skip),
            ExistingPolicy::Process => Some(ExistingDecision::Process),
        }
    }
}

/// How tagging one file ended.
#[derive(Clone, Debug)]
pub enum TagOutcome {
    /// Tags were proposed (and written, outside a dry run).
    Completed,
    /// The metadata lookup returned no candidates.
    NoMetadataCandidates,
    /// Processing failed with this full message; `caused_by_io` tells
    /// whether an I/O error is among its causes.
    Failed { message: String, caused_by_io: bool },
}

/// The running account of a batch: every file ends in exactly one of the
/// succeeded, skipped or failed lists.
#[derive(Clone, Debug)]
pub struct BatchRun {
    pub policy: ExistingPolicy,
    pub skip_all_existing: bool,
    pub succeeded: Vec<String>,
    pub skipped: Vec<BatchSkipped>,
    pub failed: Vec<BatchFailure>,
}

/// The number of files a batch run has accounted for.
pub open spec fn accounted(run: BatchRun) -> nat {
    run.succeeded@.len() + run.skipped@.len() + run.failed@.len()
}

impl BatchRun {
    /// A run that has handled no file yet.
    pub fn new(policy: ExistingPolicy) -> (r: BatchRun)
        ensures
            r.policy == policy,
            !r.skip_all_existing,
            r.succeeded@.len() == 0,
            r.skipped@.len() == 0,
            r.failed@.len() == 0,
    {
        BatchRun {
            policy,
            skip_all_existing: false,
            succeeded: Vec::new(),
            skipped: Vec::new(),
            failed: Vec::new(),
        }
    }

    /// What to do with a file whose destination exists, or `None` when the
    /// user has to be asked.
    pub fn planned_decision(&self) -> (r: Option<ExistingDecision>)
        ensures
            r == planned_decision_of(self.policy, self.skip_all_existing),
    {
        if self.skip_all_existing {
            Some(ExistingDecision::Skip)
        } else {
            match self.policy {
                ExistingPolicy::Ask => None,
                ExistingPolicy::Skip => Some(ExistingDecision::Skip),
                ExistingPolicy::Process => Some(ExistingDecision::Process),
            }
        }
    }

    /// Applies the decision for a file whose destination exists, and tells
    /// whether the file is to be processed. A skipped file is recorded with
    /// its destination; "skip all" also skips every later match.
    pub fn settle_existing(
        &mut self,
        source: String,
        destination: String,
        decision: ExistingDecision,
    ) -> (process: bool)
        ensures
            process == (decision == ExistingDecision::Process),
            final(self).policy == old(self).policy,
            final(self).skip_all_existing == (old(self).skip_all_existing || decision
                == ExistingDecision::SkipAll),
            final(self).succeeded@ == old(self).succeeded@,
            final(self).failed@ == old(self).failed@,
            accounted(*final(self)) == accounted(*old(self)) + (if process {
                0int
            } else {
                1int
            }),
            process ==> final(self).skipped@ == old(self).skipped@,
            !process ==> final(self).skipped@.len() == old(self).skipped@.len() + 1 && final(self).skipped@.drop_last() == old(self).skipped@ && final(self).skipped@.last().source
                == source && final(self).skipped@.last().destination == destination && final(self).skipped@.last().reason@ == existing_skip_reason(),
    {
        match decision {
            ExistingDecision::Process => true,
            _ => {
                if decision == ExistingDecision::SkipAll {
                    self.skip_all_existing = true;
                }
                let mut reason = String::new();
                reason.append("matching destination filename already exists");
                self.skipped.push(BatchSkipped { source, destination, reason });
                assert(self.skipped@.drop_last() =~= old(self).skipped@);
                false
            },
        }
    }

    /// Records how tagging a file ended: a completed file succeeded; a file
    /// without metadata candidates, or whose processing failed, is recorded
    /// as failed with its category and reason.
    pub fn record_outcome(&mut self, path: String, outcome: TagOutcome)
        ensures
            final(self).policy == old(self).policy,
            final(self).skip_all_existing == old(self).skip_all_existing,
            final(self).skipped@ == old(self).skipped@,
            accounted(*final(self)) == accounted(*old(self)) + 1,
            match outcome {
                TagOutcome::Completed => {
                    &&& final(self).succeeded@ == old(self).succeeded@.push(path)
                    &&& final(self).failed@ == old(self).failed@
                },
                TagOutcome::NoMetadataCandidates => {
                    &&& final(self).succeeded@ == old(self).succeeded@
                    &&& final(self).failed@.drop_last() == old(self).failed@
                    &&& final(self).failed@.len() == old(self).failed@.len() + 1
                    &&& final(self).failed@.last().path == path
                    &&& final(self).failed@.last().category@ == failure_category_of(
                        no_candidates_message(),
                        false,
                    )
                    &&& final(self).failed@.last().reason@ == no_candidates_message()
                },
                TagOutcome::Failed { message, caused_by_io } => {
                    &&& final(self).succeeded@ == old(self).succeeded@
                    &&& final(self).failed@.drop_last() == old(self).failed@
                    &&& final(self).failed@.len() == old(self).failed@.len() + 1
                    &&& final(self).failed@.last().path == path
                    &&& final(self).failed@.last().category@ == failure_category_of(
                        message@,
                        caused_by_io,
                    )
                    &&& final(self).failed@.last().reason == message
                },
            },
    {
        match outcome {
            TagOutcome::Completed => {
                self.succeeded.push(path);
            },
            TagOutcome::NoMetadataCandidates => {
                let mut message = String::new();
                message.append("metadata lookup failed: no candidates found");
                let mut category = String::new();
                category.append(failure_category(message.as_str(), false));
                self.failed.push(BatchFailure { path, category, reason: message });
                assert(self.failed@.drop_last() =~= old(self).failed@);
            },
            TagOutcome::Failed { message, caused_by_io } => {
                let mut category = String::new();
                category.append(failure_category(message.as_str(), caused_by_io));
                self.failed.push(BatchFailure { path, category, reason: message });
                assert(self.failed@.drop_last() =~= old(self).failed@);
            },
        }
    }
}

/// Once "skip all" has been chosen, every later file whose destination
/// exists is skipped without asking, whatever the policy.
pub proof fn lemma_skip_all_is_final(policy: ExistingPolicy)
    ensures
        planned_decision_of(policy, true) == Some(ExistingDecision::Skip),
{
}

/// The "skip" policy never processes a file whose destination exists, and
/// the "process" policy never skips one; only "ask" consults the user.
pub proof fn lemma_policies_decide(policy: ExistingPolicy)
    ensures
        policy == ExistingPolicy::Skip ==> planned_decision_of(policy, false) == Some(
            ExistingDecision::Skip,
        ),
        policy == ExistingPolicy::Process ==> planned_decision_of(policy, false) == Some(
            ExistingDecision::Process,
        ),
        (planned_decision_of(policy, false) is None) <==> policy == ExistingPolicy::Ask,
{
}


/// The console lines that explain each failure briefly.
pub open spec fn diagnostic_lines(failed: Seq<BatchFailure>) -> Seq<char>
    decreases failed.len(),
{
    if failed.len() == 0 {
        Seq::<char>::empty()
    } else {
        let f = failed.last();
        diagnostic_lines(failed.drop_last()) + "    ["@ + f.category@ + "] "@ + f.path@ + ": "@
            + brief_reason_of(f.reason@) + "\n"@
    }
}

/// The console summary printed when a batch run ends.
pub open spec fn summary_text(run: BatchRun, report: Seq<char>) -> Seq<char> {
    "\nBatch complete.\n"@ + "  Successful: "@ + decimal(run.succeeded@.len()) + "\n"@
        + "  Skipped:    "@ + decimal(run.skipped@.len()) + "\n"@ + "  Failed:     "@ + decimal(
        run.failed@.len(),
    ) + "\n"@ + (if run.failed@.len() > 0 {
        "  Failure diagnostics:\n"@ + diagnostic_lines(run.failed@)
    } else {
        Seq::<char>::empty()
    }) + "  Report:     "@ + report + "\n"@
}

impl BatchRun {
    /// The console summary: counts, a brief line per failure, and where the
    /// report is.
    pub fn summary(&self, report_path: &str) -> (r: String)
        ensures
            r@ == summary_text(*self, report_path@),
    {
        let mut out = String::new();
        out.append("\nBatch complete.\n");
        out.append("  Successful: ");
        push_decimal(&mut out, self.succeeded.len());
        out.append("\n");
        out.append("  Skipped:    ");
        push_decimal(&mut out, self.skipped.len());
        out.append("\n");
        out.append("  Failed:     ");
        push_decimal(&mut out, self.failed.len());
        out.append("\n");
        if self.failed.len() > 0 {
            out.append("  Failure diagnostics:\n");
            let ghost head = out@;
            let mut i: usize = 0;
            while i < self.failed.len()
                invariant
                    i <= self.failed@.len(),
                    out@ == head + diagnostic_lines(self.failed@.take(i as int)),
                decreases self.failed@.len() - i,
            {
                let f = &self.failed[i];
                let brief = brief_reason(f.reason.as_str());
                out.append("    [");
                out.append(f.category.as_str());
                out.append("] ");
                out.append(f.path.as_str());
                out.append(": ");
                out.append(brief.as_str());
                out.append("\n");
                assert(self.failed@.take((i + 1) as int).drop_last() =~= self.failed@.take(i as int));
                i = i + 1;
            }
            assert(self.failed@.take(self.failed@.len() as int) =~= self.failed@);
        }
        out.append("  Report:     ");
        out.append(report_path);
        out.append("\n");
        out
    }
}

/// A scanned file is left out of a batch when it lies inside a destination
/// folder nested inside the source folder (and not the source folder
/// itself): tagged output is not processed again.
pub open spec fn inside_destination(path: Seq<char>, source: Seq<char>, output: Seq<char>) -> bool {
    path_has_prefix(path, output) && path_has_prefix(output, source) && !same_path(output, source)
}

/// The scanned files that are not inside the destination, in order.
pub open spec fn batch_files(
    files: Seq<AudioFile>,
    source: Seq<char>,
    output: Seq<char>,
) -> Seq<AudioFile>
    decreases files.len(),
{
    if files.len() == 0 {
        Seq::<AudioFile>::empty()
    } else {
        let prev = batch_files(files.drop_last(), source, output);
        if inside_destination(files.last().path@, source, output) {
            prev
        } else {
            prev.push(files.last())
        }
    }
}

/// No file inside the destination folder is processed again, and every
/// other scanned file is processed.
pub proof fn lemma_batch_skips_only_destination(
    files: Seq<AudioFile>,
    source: Seq<char>,
    output: Seq<char>,
)
    ensures
        forall|i: int|
            0 <= i < batch_files(files, source, output).len() ==> !inside_destination(
                (#[trigger] batch_files(files, source, output)[i]).path@,
                source,
                output,
            ) && files.contains(batch_files(files, source, output)[i]),
        forall|j: int|
            0 <= j < files.len() && !inside_destination((#[trigger] files[j]).path@, source, output)
                ==> batch_files(files, source, output).contains(files[j]),
    decreases files.len(),
{
    if files.len() > 0 {
        let init = files.drop_last();
        lemma_batch_skips_only_destination(init, source, output);
        let prev = batch_files(init, source, output);
        let all = batch_files(files, source, output);
        assert forall|i: int| 0 <= i < all.len() implies !inside_destination(
            (#[trigger] all[i]).path@,
            source,
            output,
        ) && files.contains(all[i]) by {
            if i < prev.len() {
                assert(all[i] == prev[i]);
                let k = choose|k: int| 0 <= k < init.len() && init[k] == prev[i];
                assert(files[k] == init[k]);
            } else {
                assert(files[files.len() - 1] == all[i]);
            }
        }
        assert forall|j: int|
            0 <= j < files.len() && !inside_destination(
                (#[trigger] files[j]).path@,
                source,
                output,
            ) implies all.contains(files[j]) by {
            if j < files.len() - 1 {
                assert(init[j] == files[j]);
                assert(prev.contains(init[j]));
                let k = choose|k: int| 0 <= k < prev.len() && prev[k] == init[j];
                assert(all[k] == prev[k]);
            } else {
                assert(all[all.len() - 1] == files[j]);
            }
        }
    }
}

/// Leaves out the scanned files that lie inside the destination folder.
pub fn exclude_destination(files: Vec<AudioFile>, source: &str, output: &str) -> (r: Vec<
    AudioFile,
>)
    ensures
        r@ == batch_files(files@, source@, output@),
{
    let ghost all = files@;
    let mut rest = files;
    let mut out: Vec<AudioFile> = Vec::new();
    let mut done: usize = 0;
    let n = rest.len();
    let nested = path_starts_with(output, source) && !paths_equal(output, source);
    while rest.len() > 0
        invariant
            all.len() == n,
            done + rest@.len() == all.len(),
            rest@ == all.skip(done as int),
            out@ == batch_files(all.take(done as int), source@, output@),
            nested == (path_has_prefix(output@, source@) && !same_path(output@, source@)),
        decreases rest@.len(),
    {
        let f = rest.remove(0);
        assert(f == all[done as int]);
        assert(rest@ =~= all.skip(done + 1));
        assert(all.take(done + 1).drop_last() =~= all.take(done as int));
        let inside = path_starts_with(f.path.as_str(), output) && nested;
        if !inside {
            out.push(f);
        }
        done = done + 1;
    }
    assert(all.take(all.len() as int) =~= all);
    out
}

/// No file of `files` comes after one that it precedes in path order.
pub open spec fn in_path_order(files: Seq<AudioFile>) -> bool {
    forall|k: int|
        1 <= k < files.len() ==> !path_precedes(
            (#[trigger] files[k]).path@,
            files[k - 1].path@,
        )
}

/// Puts scanned files in path order, keeping files that compare equal in
/// the order they came.
pub fn sort_by_path(files: Vec<AudioFile>) -> (r: Vec<AudioFile>)
    ensures
        r@.to_multiset() == files@.to_multiset(),
        in_path_order(r@),
{
    let ghost all = files@;
    let mut rest = files;
    let mut out: Vec<AudioFile> = Vec::new();
    proof {
        vstd::seq_lib::to_multiset_len(out@);
        vstd::multiset::lemma_multiset_empty_len(out@.to_multiset());
        assert(out@.to_multiset().add(rest@.to_multiset()) =~= all.to_multiset()) by {
            broadcast use vstd::multiset::group_multiset_axioms;
        }
    }
    while rest.len() > 0
        invariant
            out@.to_multiset().add(rest@.to_multiset()) == all.to_multiset(),
            in_path_order(out@),
        decreases rest@.len(),
    {
        let ghost before = rest@;
        let c = rest.remove(0);
        proof {
            vstd::seq_lib::to_multiset_remove(before, 0);
            vstd::seq_lib::to_multiset_contains(before, c);
            assert(before.contains(c)) by {
                assert(before[0] == c);
            }
        }
        let mut p = out.len();
        while p > 0 && path_lt(c.path.as_str(), out[p - 1].path.as_str())
            invariant
                p <= out.len(),
                forall|k: int|
                    p <= k < out.len() ==> path_precedes(c.path@, (#[trigger] out@[k]).path@)
                        && !path_precedes(out@[k].path@, c.path@),
            decreases p,
        {
            p = p - 1;
        }
        let ghost old_out = out@;
        proof {
            if p < out.len() {
                assert(path_precedes(c.path@, old_out[p as int].path@));
            }
        }
        out.insert(p, c);
        proof {
            assert forall|k: int| 1 <= k < out@.len() implies !path_precedes(
                (#[trigger] out@[k]).path@,
                out@[k - 1].path@,
            ) by {
                if k < p {
                    assert(out@[k] == old_out[k] && out@[k - 1] == old_out[k - 1]);
                } else if k == p {
                    assert(out@[k] == c && out@[k - 1] == old_out[k - 1]);
                } else if k == p + 1 {
                    assert(out@[k - 1] == c && out@[k] == old_out[k - 1]);
                } else {
                    assert(out@[k] == old_out[k - 1] && out@[k - 1] == old_out[k - 2]);
                }
            }
            vstd::seq_lib::to_multiset_insert(old_out, p as int, c);
            assert(out@.to_multiset().add(rest@.to_multiset()) =~= all.to_multiset()) by {
                broadcast use vstd::multiset::group_multiset_axioms;
            }
        }
    }
    proof {
        vstd::seq_lib::to_multiset_len(rest@);
        vstd::multiset::lemma_multiset_empty_len(rest@.to_multiset());
        assert(out@.to_multiset().add(rest@.to_multiset()) =~= out@.to_multiset()) by {
            broadcast use vstd::multiset::group_multiset_axioms;
        }
    }
    out
}

/// The record of a scanned MP3 file.
pub fn mp3_file(path: String, size_bytes: u64) -> (r: AudioFile)
    ensures
        r.path == path,
        r.size_bytes == size_bytes,
        r.extension@ == "mp3"@,
{
    let mut extension = String::new();
    extension.append("mp3");
    AudioFile { path, size_bytes, extension }
}

} // verus!

//! The step log: validation of a logged step (its arguments, vision
//! prompt, run id, vision response and OCR provenance), run-id neutrality,
//! and text normalisation for matching OCR output against the vision
//! response.

use vstd::prelude::*;
use vstd::string::StringSliceAdditionalSpecFns;
use crate::json::{
    json_document, members_get, parse_json_document, spec_as_array, spec_as_bool, spec_as_str, spec_as_u64, spec_field, spec_get, JsonValue,
};
use crate::text::{
    all_ascii, alphanumeric, ascii_lower, ascii_lower_char, chars_of, is_ascii_alnum,
    is_ascii_char, contains, contains_in, is_alphanumeric, is_white_space,
    is_whitespace, lines, lowercase, next_line, push_char, push_seq, str_contains, str_equal,
    string_from_range, to_lowercase, trim, trim_range, trim_str,
};

verus! {

/// A command-line argument that logging a step needs.
#[derive(Debug, Clone, Copy, PartialEq, Eq, Structural)]
pub enum StepArg {
    RunId,
    Step,
    Screenshot,
    PromptFile,
    ResponseFile,
    Assessment,
    Decision,
    Plan,
    OcrFile,
    AnalysisSource,
}

/// A required field of the vision response.
#[derive(Debug, Clone, Copy, PartialEq, Eq, Structural)]
pub enum ResponseField {
    AllText,
    ScreenTitle,
    Layout,
    LayoutDescription,
    Options,
    Selected,
    ButtonHints,
    Gameplay,
    Confidence,
}

/// A required field of a region of the vision response.
#[derive(Debug, Clone, Copy, PartialEq, Eq, Structural)]
pub enum RegionField {
    Name,
    Options,
    Selected,
}

/// A field of the provenance record in an OCR sidecar.
#[derive(Debug, Clone, Copy, PartialEq, Eq, Structural)]
pub enum ProvenanceField {
    ScreenshotPath,
    ScreenshotSize,
    ScreenshotModified,
}

/// Where the analysis of a step came from.
#[derive(Debug, Clone, Copy, PartialEq, Eq, Structural)]
pub enum AnalysisSource {
    /// OCR text was enough.
    Ocr,
    /// OCR was tried and the vision model was used.
    VisionFallback,
}

/// Why a step cannot be logged.
#[derive(Debug)]
pub enum StepError {
    MissingArgument(StepArg),
    InvalidAnalysisSource,
    InvalidAssessment,
    InvalidDecision,
    /// The prompt holds the banned pattern with this index.
    BannedPattern(usize),
    /// The `Screenshot:` header line (given) names no file.
    HeaderWithoutFilename(String),
    /// The `Screenshot:` header names a path (given), not a bare file name.
    HeaderWithPath(String),
    InvalidRunId(String),
    MissingField(ResponseField),
    NotAnArray(ResponseField),
    ElementNotString(ResponseField, usize),
    NotAString(ResponseField),
    InvalidLayout(String),
    NotABoolean(ResponseField),
    InvalidConfidence(String),
    BreadcrumbsNotString,
    RegionsNotArray,
    RegionNotObject(usize),
    RegionMissingField(usize, RegionField),
    RegionNameNotString(usize),
    RegionOptionsNotArray(usize),
    RegionSelectedNotString(usize),
    RegionOptionNotString(usize, usize),
    ProvenanceMissing,
    ProvenanceFieldMissing(ProvenanceField),
    /// The sidecar's screenshot path, and the screenshot given.
    PathMismatch(String, String),
    /// The sidecar's screenshot size, and the actual size.
    SizeMismatch(u64, u64),
    /// The sidecar's modification time, and the actual one.
    ModifiedMismatch(String, String),
    SucceededMissing,
    OcrNotSucceeded,
    OcrSourceMissing,
    OcrTextEmpty,
    VisionHasOcrSource,
    /// OCR found the screen title and at least half the options: the
    /// normalised title, whether it was found, options found, options.
    OcrSufficient(String, bool, usize, usize),
    /// The vision response file is not JSON: the parser's message.
    ResponseNotJson(String),
    /// The OCR sidecar file is not JSON: the parser's message.
    SidecarNotJson(String),
}

/// A `StepError` as a mathematical value.
pub enum StepFailure {
    MissingArgument(StepArg),
    InvalidAnalysisSource,
    InvalidAssessment,
    InvalidDecision,
    BannedPattern(nat),
    HeaderWithoutFilename(Seq<char>),
    HeaderWithPath(Seq<char>),
    InvalidRunId(Seq<char>),
    MissingField(ResponseField),
    NotAnArray(ResponseField),
    ElementNotString(ResponseField, nat),
    NotAString(ResponseField),
    InvalidLayout(Seq<char>),
    NotABoolean(ResponseField),
    InvalidConfidence(Seq<char>),
    BreadcrumbsNotString,
    RegionsNotArray,
    RegionNotObject(nat),
    RegionMissingField(nat, RegionField),
    RegionNameNotString(nat),
    RegionOptionsNotArray(nat),
    RegionSelectedNotString(nat),
    RegionOptionNotString(nat, nat),
    ProvenanceMissing,
    ProvenanceFieldMissing(ProvenanceField),
    PathMismatch(Seq<char>, Seq<char>),
    SizeMismatch(u64, u64),
    ModifiedMismatch(Seq<char>, Seq<char>),
    SucceededMissing,
    OcrNotSucceeded,
    OcrSourceMissing,
    OcrTextEmpty,
    VisionHasOcrSource,
    OcrSufficient(Seq<char>, bool, nat, nat),
    ResponseNotJson(Seq<char>),
    SidecarNotJson(Seq<char>),
}

impl View for StepError {
    type V = StepFailure;

    open spec fn view(&self) -> StepFailure {
        match self {
            StepError::MissingArgument(a) => StepFailure::MissingArgument(*a),
            StepError::InvalidAnalysisSource => StepFailure::InvalidAnalysisSource,
            StepError::InvalidAssessment => StepFailure::InvalidAssessment,
            StepError::InvalidDecision => StepFailure::InvalidDecision,
            StepError::BannedPattern(i) => StepFailure::BannedPattern(*i as nat),
            StepError::HeaderWithoutFilename(s) => StepFailure::HeaderWithoutFilename(s@),
            StepError::HeaderWithPath(s) => StepFailure::HeaderWithPath(s@),
            StepError::InvalidRunId(s) => StepFailure::InvalidRunId(s@),
            StepError::MissingField(f) => StepFailure::MissingField(*f),
            StepError::NotAnArray(f) => StepFailure::NotAnArray(*f),
            StepError::ElementNotString(f, i) => StepFailure::ElementNotString(*f, *i as nat),
            StepError::NotAString(f) => StepFailure::NotAString(*f),
            StepError::InvalidLayout(s) => StepFailure::InvalidLayout(s@),
            StepError::NotABoolean(f) => StepFailure::NotABoolean(*f),
            StepError::InvalidConfidence(s) => StepFailure::InvalidConfidence(s@),
            StepError::BreadcrumbsNotString => StepFailure::BreadcrumbsNotString,
            StepError::RegionsNotArray => StepFailure::RegionsNotArray,
            StepError::RegionNotObject(i) => StepFailure::RegionNotObject(*i as nat),
            StepError::RegionMissingField(i, f) => StepFailure::RegionMissingField(*i as nat, *f),
            StepError::RegionNameNotString(i) => StepFailure::RegionNameNotString(*i as nat),
            StepError::RegionOptionsNotArray(i) => StepFailure::RegionOptionsNotArray(*i as nat),
            StepError::RegionSelectedNotString(i) => StepFailure::RegionSelectedNotString(
                *i as nat,
            ),
            StepError::RegionOptionNotString(i, j) => StepFailure::RegionOptionNotString(
                *i as nat,
                *j as nat,
            ),
            StepError::ProvenanceMissing => StepFailure::ProvenanceMissing,
            StepError::ProvenanceFieldMissing(f) => StepFailure::ProvenanceFieldMissing(*f),
            StepError::PathMismatch(a, b) => StepFailure::PathMismatch(a@, b@),
            StepError::SizeMismatch(a, b) => StepFailure::SizeMismatch(*a, *b),
            StepError::ModifiedMismatch(a, b) => StepFailure::ModifiedMismatch(a@, b@),
            StepError::SucceededMissing => StepFailure::SucceededMissing,
            StepError::OcrNotSucceeded => StepFailure::OcrNotSucceeded,
            StepError::OcrSourceMissing => StepFailure::OcrSourceMissing,
            StepError::OcrTextEmpty => StepFailure::OcrTextEmpty,
            StepError::VisionHasOcrSource => StepFailure::VisionHasOcrSource,
            StepError::OcrSufficient(t, m, f, n) => StepFailure::OcrSufficient(
                t@,
                *m,
                *f as nat,
                *n as nat,
            ),
            StepError::ResponseNotJson(m) => StepFailure::ResponseNotJson(m@),
            StepError::SidecarNotJson(m) => StepFailure::SidecarNotJson(m@),
        }
    }
}

/// The arguments of a step as given on the command line.
#[derive(Debug)]
pub struct StepArgs {
    pub run_id: Option<String>,
    pub step: Option<u32>,
    pub screenshot: Option<String>,
    pub prompt_file: Option<String>,
    pub response_file: Option<String>,
    pub assessment: Option<String>,
    pub decision: Option<String>,
    pub plan: Option<String>,
    pub ocr_file: Option<String>,
    pub analysis_source: Option<String>,
}

/// The arguments of a step, all present.
#[derive(Debug)]
pub struct StepInputs {
    pub run_id: String,
    pub step: u32,
    pub screenshot: String,
    pub prompt_file: String,
    pub response_file: String,
    pub assessment: String,
    pub decision: String,
    pub plan: String,
    pub ocr_file: String,
    pub analysis_source: String,
}

/// The first argument that is missing, in the order the arguments are
/// checked.
pub open spec fn first_missing(args: StepArgs) -> Option<StepArg> {
    if args.run_id is None {
        Some(StepArg::RunId)
    } else if args.step is None {
        Some(StepArg::Step)
    } else if args.screenshot is None {
        Some(StepArg::Screenshot)
    } else if args.prompt_file is None {
        Some(StepArg::PromptFile)
    } else if args.response_file is None {
        Some(StepArg::ResponseFile)
    } else if args.assessment is None {
        Some(StepArg::Assessment)
    } else if args.decision is None {
        Some(StepArg::Decision)
    } else if args.plan is None {
        Some(StepArg::Plan)
    } else if args.ocr_file is None {
        Some(StepArg::OcrFile)
    } else if args.analysis_source is None {
        Some(StepArg::AnalysisSource)
    } else {
        None
    }
}

/// Takes the step's arguments, failing on the first one missing.
pub fn require_step_args(args: StepArgs) -> (r: Result<StepInputs, StepError>)
    ensures
        match first_missing(args) {
            Some(a) => r matches Err(e) && e@ == StepFailure::MissingArgument(a),
            None => r matches Ok(i) && Some(i.run_id) == args.run_id && Some(i.step) == args.step
                && Some(i.screenshot) == args.screenshot && Some(i.prompt_file) == args.prompt_file
                && Some(i.response_file) == args.response_file && Some(i.assessment)
                == args.assessment && Some(i.decision) == args.decision && Some(i.plan)
                == args.plan && Some(i.ocr_file) == args.ocr_file && Some(i.analysis_source)
                == args.analysis_source,
        },
{
    let StepArgs {
        run_id,
        step,
        screenshot,
        prompt_file,
        response_file,
        assessment,
        decision,
        plan,
        ocr_file,
        analysis_source,
    } = args;
    let run_id = match run_id {
        Some(x) => x,
        None => return Err(StepError::MissingArgument(StepArg::RunId)),
    };
    let step = match step {
        Some(x) => x,
        None => return Err(StepError::MissingArgument(StepArg::Step)),
    };
    let screenshot = match screenshot {
        Some(x) => x,
        None => return Err(StepError::MissingArgument(StepArg::Screenshot)),
    };
    let prompt_file = match prompt_file {
        Some(x) => x,
        None => return Err(StepError::MissingArgument(StepArg::PromptFile)),
    };
    let response_file = match response_file {
        Some(x) => x,
        None => return Err(StepError::MissingArgument(StepArg::ResponseFile)),
    };
    let assessment = match assessment {
        Some(x) => x,
        None => return Err(StepError::MissingArgument(StepArg::Assessment)),
    };
    let decision = match decision {
        Some(x) => x,
        None => return Err(StepError::MissingArgument(StepArg::Decision)),
    };
    let plan = match plan {
        Some(x) => x,
        None => return Err(StepError::MissingArgument(StepArg::Plan)),
    };
    let ocr_file = match ocr_file {
        Some(x) => x,
        None => return Err(StepError::MissingArgument(StepArg::OcrFile)),
    };
    let analysis_source = match analysis_source {
        Some(x) => x,
        None => return Err(StepError::MissingArgument(StepArg::AnalysisSource)),
    };
    Ok(
        StepInputs {
            run_id,
            step,
            screenshot,
            prompt_file,
            response_file,
            assessment,
            decision,
            plan,
            ocr_file,
            analysis_source,
        },
    )
}

/// The analysis source a name stands for: `ocr` or `vision_fallback`.
pub open spec fn spec_analysis_source(name: Seq<char>) -> Option<AnalysisSource> {
    if name == "ocr"@ {
        Some(AnalysisSource::Ocr)
    } else if name == "vision_fallback"@ {
        Some(AnalysisSource::VisionFallback)
    } else {
        None
    }
}

/// The assessments a step may record, as the `--assessment` help lists
/// them.
pub open spec fn valid_assessment(name: Seq<char>) -> bool {
    name == "match_confirmed"@ || name == "mismatch"@ || name == "recovery"@ || name == "halt"@
}

/// The decisions a step may record.
pub open spec fn valid_decision(name: Seq<char>) -> bool {
    name == "navigate"@ || name == "recover"@ || name == "halt"@
}

/// Checks the analysis source, assessment and decision, in this order.
pub fn check_step_choices(analysis_source: &str, assessment: &str, decision: &str) -> (r: Result<
    AnalysisSource,
    StepError,
>)
    ensures
        match spec_analysis_source(analysis_source@) {
            None => r matches Err(e) && e@ == StepFailure::InvalidAnalysisSource,
            Some(s) => if !valid_assessment(assessment@) {
                r matches Err(e) && e@ == StepFailure::InvalidAssessment
            } else if !valid_decision(decision@) {
                r matches Err(e) && e@ == StepFailure::InvalidDecision
            } else {
                r == Ok::<AnalysisSource, StepError>(s)
            },
        },
{
    let source = if str_equal(analysis_source, "ocr") {
        AnalysisSource::Ocr
    } else if str_equal(analysis_source, "vision_fallback") {
        AnalysisSource::VisionFallback
    } else {
        return Err(StepError::InvalidAnalysisSource);
    };
    if !(str_equal(assessment, "match_confirmed") || str_equal(assessment, "mismatch")
        || str_equal(assessment, "recovery") || str_equal(assessment, "halt")) {
        return Err(StepError::InvalidAssessment);
    }
    if !(str_equal(decision, "navigate") || str_equal(decision, "recover") || str_equal(
        decision,
        "halt",
    )) {
        return Err(StepError::InvalidDecision);
    }
    Ok(source)
}

/// The patterns that a vision prompt must not hold: they carry task
/// context to the vision model.
pub open spec fn banned_patterns() -> Seq<Seq<char>> {
    seq![
        "Look at this screenshot file"@,
        "You are navigating the menu system"@,
        "I am executing a task in"@,
        "EXPECTS this screenshot to show"@,
        "MATCH question"@,
        "actual_screen_title"@,
        "{\"match\":"@,
        "\"match\": true|false"@,
    ]
}

/// The banned pattern with index `i`.
pub fn banned_pattern(i: usize) -> (p: &'static str)
    requires
        i < 8,
    ensures
        p@ == banned_patterns()[i as int],
{
    if i == 0 {
        "Look at this screenshot file"
    } else if i == 1 {
        "You are navigating the menu system"
    } else if i == 2 {
        "I am executing a task in"
    } else if i == 3 {
        "EXPECTS this screenshot to show"
    } else if i == 4 {
        "MATCH question"
    } else if i == 5 {
        "actual_screen_title"
    } else if i == 6 {
        "{\"match\":"
    } else {
        "\"match\": true|false"
    }
}

/// The index of the first banned pattern in `prompt`, from `from` on.
pub open spec fn first_banned_from(prompt: Seq<char>, from: int) -> Option<nat>
    decreases 8 - from,
{
    if from < 0 || from >= 8 {
        None
    } else if contains(prompt, banned_patterns()[from]) {
        Some(from as nat)
    } else {
        first_banned_from(prompt, from + 1)
    }
}

/// The prefix of the header line that names the screenshot.
pub open spec fn header_prefix() -> Seq<char> {
    "Screenshot: "@
}

/// The first line of `ls`, from `from` on, that starts with the header
/// prefix: its index.
pub open spec fn first_header_from(ls: Seq<Seq<char>>, from: int) -> Option<int>
    decreases ls.len() - from,
{
    if from < 0 || from >= ls.len() {
        None
    } else if ls[from].len() >= header_prefix().len() && ls[from].take(
        header_prefix().len() as int,
    ) == header_prefix() {
        Some(from)
    } else {
        first_header_from(ls, from + 1)
    }
}

/// What checking a prompt gives: the first banned pattern it holds; else,
/// on its first `Screenshot:` header line, a file name that is empty or
/// holds a `/`.
pub open spec fn spec_check_prompt(prompt: Seq<char>) -> Option<StepFailure> {
    match first_banned_from(prompt, 0) {
        Some(i) => Some(StepFailure::BannedPattern(i)),
        None => {
            let ls = lines(prompt);
            match first_header_from(ls, 0) {
                None => None,
                Some(k) => {
                    let line = ls[k];
                    let filename = trim(line.skip(header_prefix().len() as int));
                    if filename.len() == 0 {
                        Some(StepFailure::HeaderWithoutFilename(line))
                    } else if contains(filename, seq!['/']) {
                        Some(StepFailure::HeaderWithPath(filename))
                    } else {
                        None
                    }
                },
            }
        },
    }
}

/// Checks a vision prompt: no banned pattern, and a bare file name on its
/// `Screenshot:` header line, if it has one.
pub fn check_prompt(prompt: &str) -> (r: Result<(), StepError>)
    ensures
        match spec_check_prompt(prompt@) {
            None => r is Ok,
            Some(f) => r matches Err(e) && e@ == f,
        },
{
    let mut i: usize = 0;
    while i < 8
        invariant
            0 <= i <= 8,
            first_banned_from(prompt@, 0) == first_banned_from(prompt@, i as int),
        decreases 8 - i,
    {
        if str_contains(prompt, banned_pattern(i)) {
            return Err(StepError::BannedPattern(i));
        }
        i = i + 1;
    }
    assert(first_banned_from(prompt@, 8) is None);
    let v = chars_of(prompt);
    let len = v.len();
    let prefix = chars_of("Screenshot: ");
    let plen = prefix.len();
    let ghost ls = lines(v@);
    let mut pos: usize = 0;
    let ghost mut seen: Seq<Seq<char>> = Seq::empty();
    assert(v@.skip(0) == v@);
    while pos < len
        invariant
            pos <= len == v@.len(),
            v@ == prompt@,
            prefix@ == header_prefix(),
            plen == prefix@.len(),
            ls == lines(v@),
            ls == seen + lines(v@.skip(pos as int)),
            first_header_from(ls, 0) == first_header_from(ls, seen.len() as int),
            first_banned_from(prompt@, 0) is None,
        decreases len - pos,
    {
        let (a, b, next) = next_line(&v, pos);
        let ghost line = v@.subrange(a as int, b as int);
        assert(ls == seen.push(line) + lines(v@.skip(next as int)));
        assert(ls[seen.len() as int] == line);
        let is_header = b - a >= plen && {
            let mut k: usize = 0;
            while k < plen && v[a + k] == prefix[k]
                invariant
                    0 <= k <= plen,
                    a + plen <= b <= v@.len(),
                    plen == prefix@.len(),
                    forall|t: int| 0 <= t < k ==> v@[a + t] == prefix@[t],
                decreases plen - k,
            {
                k = k + 1;
            }
            if k == plen {
                assert(line.take(plen as int) == prefix@);
            } else {
                assert(line.take(plen as int)[k as int] != prefix@[k as int]);
            }
            k == plen
        };
        if is_header {
            assert(first_header_from(ls, seen.len() as int) == Some(seen.len() as int));
            let (fa, fb) = trim_range(&v, a + plen, b);
            assert(v@.subrange(a + plen, b as int) == line.skip(plen as int));
            if fa == fb {
                return Err(StepError::HeaderWithoutFilename(string_from_range(&v, a, b)));
            }
            let slash = vec!['/'];
            assert(slash@ == seq!['/']);
            if contains_in(&v, fa, fb, &slash) {
                return Err(StepError::HeaderWithPath(string_from_range(&v, fa, fb)));
            }
            return Ok(());
        }
        proof {
            seen = seen.push(line);
        }
        pos = next;
    }
    assert(v@.skip(len as int).len() == 0);
    assert(lines(v@.skip(len as int)) == Seq::<Seq<char>>::empty());
    assert(ls == seen);
    Ok(())
}

/// A UTF-8 continuation byte: no character starts there.
pub open spec fn is_continuation(b: u8) -> bool {
    0x80 <= b < 0xc0
}

/// Bytes `lo..hi` of `bs` are ASCII digits.
pub open spec fn ascii_digits(bs: Seq<u8>, lo: int, hi: int) -> bool {
    forall|i: int| lo <= i < hi ==> 0x30 <= #[trigger] bs[i] <= 0x39
}

/// Whether checking the run id `bs` (its UTF-8 bytes) slices it inside a
/// character, which `str` indexing refuses with a panic.
pub open spec fn run_id_slicing_fails(bs: Seq<u8>) -> bool {
    &&& (bs.len() == 19 || bs.len() == 23)
    &&& {
        ||| is_continuation(bs[8])
        ||| ascii_digits(bs, 0, 8) && is_continuation(bs[9])
        ||| ascii_digits(bs, 0, 8) && bs[8] == 0x5f && is_continuation(bs[15])
    }
}

/// The neutral run id pattern `YYYYMMDD_HHMMSS_run` or
/// `YYYYMMDD_HHMMSS_explore`, on the UTF-8 bytes of the id.
pub open spec fn run_id_neutral(bs: Seq<u8>) -> bool {
    &&& (bs.len() == 19 || bs.len() == 23)
    &&& ascii_digits(bs, 0, 8)
    &&& bs[8] == 0x5f
    &&& ascii_digits(bs, 9, 15)
    &&& (bs.skip(15) == seq![0x5fu8, 0x72, 0x75, 0x6e] || bs.skip(15) == seq![
        0x5fu8,
        0x65,
        0x78,
        0x70,
        0x6c,
        0x6f,
        0x72,
        0x65,
    ])
}

fn digits_at(bs: &[u8], lo: usize, hi: usize) -> (b: bool)
    requires
        lo <= hi <= bs@.len(),
    ensures
        b == ascii_digits(bs@, lo as int, hi as int),
{
    let mut i = lo;
    while i < hi
        invariant
            lo <= i <= hi <= bs@.len(),
            ascii_digits(bs@, lo as int, i as int),
        decreases hi - i,
    {
        if !(0x30 <= bs[i] && bs[i] <= 0x39) {
            return false;
        }
        i = i + 1;
    }
    true
}

/// Whether checking `run_id` stays on character boundaries, as
/// `validate_run_id_neutral` needs.
pub fn run_id_slicing_ok(run_id: &str) -> (b: bool)
    ensures
        b == !run_id_slicing_fails(run_id.spec_bytes()),
{
    let bs = run_id.as_bytes();
    let n = bs.len();
    if n != 19 && n != 23 {
        return true;
    }
    let cont = |b: u8| -> (r: bool)
        ensures
            r == is_continuation(b),
        { 0x80 <= b && b < 0xc0 };
    let d = digits_at(bs, 0, 8);
    !(cont(bs[8]) || (d && cont(bs[9])) || (d && bs[8] == 0x5f && cont(bs[15])))
}

/// Checks that a run id follows the neutral pattern `YYYYMMDD_HHMMSS_run`
/// or `YYYYMMDD_HHMMSS_explore`: descriptive suffixes leak task context to
/// the vision model.
pub fn validate_run_id_neutral(run_id: &str) -> (r: Result<(), StepError>)
    requires
        !run_id_slicing_fails(run_id.spec_bytes()),
    ensures
        run_id_neutral(run_id.spec_bytes()) ==> r is Ok,
        !run_id_neutral(run_id.spec_bytes()) ==> (r matches Err(e) && e@
            == StepFailure::InvalidRunId(run_id@)),
{
    let bs = run_id.as_bytes();
    let n = bs.len();
    let valid = (n == 19 || n == 23) && digits_at(bs, 0, 8) && bs[8] == 0x5f && digits_at(
        bs,
        9,
        15,
    ) && {
        let run = n == 19 && bs[15] == 0x5f && bs[16] == 0x72 && bs[17] == 0x75 && bs[18] == 0x6e;
        let explore = n == 23 && bs[15] == 0x5f && bs[16] == 0x65 && bs[17] == 0x78 && bs[18]
            == 0x70 && bs[19] == 0x6c && bs[20] == 0x6f && bs[21] == 0x72 && bs[22] == 0x65;
        proof {
            let t = bs@.skip(15);
            if run {
                assert(t == seq![0x5fu8, 0x72, 0x75, 0x6e]);
            }
            if explore {
                assert(t == seq![0x5fu8, 0x65, 0x78, 0x70, 0x6c, 0x6f, 0x72, 0x65]);
            }
            if t == seq![0x5fu8, 0x72, 0x75, 0x6e] {
                assert(t.len() == 4);
                assert(t[0] == bs@[15] && t[1] == bs@[16] && t[2] == bs@[17] && t[3] == bs@[18]);
            }
            if t == seq![0x5fu8, 0x65, 0x78, 0x70, 0x6c, 0x6f, 0x72, 0x65] {
                assert(t.len() == 8);
                assert(t[0] == bs@[15] && t[1] == bs@[16] && t[2] == bs@[17] && t[3] == bs@[18]);
                assert(t[4] == bs@[19] && t[5] == bs@[20] && t[6] == bs@[21] && t[7] == bs@[22]);
            }
        }
        run || explore
    };
    if valid {
        Ok(())
    } else {
        let mut s = String::new();
        push_seq(&mut s, run_id);
        Err(StepError::InvalidRunId(s))
    }
}

/// Keeps the alphanumeric and white-space characters of `s`.
pub open spec fn keep_for_match(s: Seq<char>) -> Seq<char>
    decreases s.len(),
{
    if s.len() == 0 {
        s
    } else {
        let rest = keep_for_match(s.drop_last());
        if alphanumeric(s.last()) || is_white_space(s.last()) {
            rest.push(s.last())
        } else {
            rest
        }
    }
}

/// Text reduced for matching OCR output against a vision response: only
/// letters, digits and white space, in lower case.
pub open spec fn spec_normalize_for_match(s: Seq<char>) -> Seq<char> {
    lowercase(keep_for_match(s))
}

/// The characters of `s` that matching keeps, on ASCII text: letters,
/// digits and white space.
pub open spec fn ascii_keep(s: Seq<char>) -> Seq<char>
    decreases s.len(),
{
    if s.len() == 0 {
        s
    } else {
        let rest = ascii_keep(s.drop_last());
        if is_ascii_alnum(s.last()) || is_white_space(s.last()) {
            rest.push(s.last())
        } else {
            rest
        }
    }
}

/// The reduction for matching on ASCII text: the letters, digits and white
/// space of `s`, with capitals mapped to small letters.
pub open spec fn ascii_normal(s: Seq<char>) -> Seq<char> {
    ascii_lower(ascii_keep(s))
}

/// Every character that `ascii_keep` gives back is a letter, a digit or
/// white space.
proof fn ascii_keep_kept(s: Seq<char>)
    ensures
        forall|i: int|
            0 <= i < ascii_keep(s).len() ==> is_ascii_alnum(#[trigger] ascii_keep(s)[i])
                || is_white_space(ascii_keep(s)[i]),
        ascii_keep(s).len() <= s.len(),
    decreases s.len(),
{
    if s.len() > 0 {
        ascii_keep_kept(s.drop_last());
    }
}

/// `ascii_keep` leaves text that holds only kept characters as it is.
proof fn ascii_keep_of_kept(t: Seq<char>)
    requires
        forall|i: int| 0 <= i < t.len() ==> is_ascii_alnum(#[trigger] t[i]) || is_white_space(t[i]),
    ensures
        ascii_keep(t) == t,
    decreases t.len(),
{
    if t.len() > 0 {
        let u = t.drop_last();
        assert forall|i: int| 0 <= i < u.len() implies is_ascii_alnum(#[trigger] u[i])
            || is_white_space(u[i]) by {
            assert(u[i] == t[i]);
        }
        ascii_keep_of_kept(u);
        assert(is_ascii_alnum(t[t.len() - 1]) || is_white_space(t[t.len() - 1]));
        assert(u.push(t.last()) =~= t);
    }
}

/// Reducing ASCII text for matching a second time changes nothing: the
/// reduction keeps only letters, digits and white space, in small letters,
/// and such text passes through it unchanged.
pub proof fn ascii_normal_is_idempotent(s: Seq<char>)
    ensures
        ascii_normal(ascii_normal(s)) == ascii_normal(s),
{
    let k = ascii_keep(s);
    let n = ascii_lower(k);
    ascii_keep_kept(s);
    assert forall|i: int| 0 <= i < n.len() implies is_ascii_alnum(#[trigger] n[i])
        || is_white_space(n[i]) by {
        assert(n[i] == ascii_lower_char(k[i]));
    }
    ascii_keep_of_kept(n);
    assert(ascii_lower(n) =~= n) by {
        assert forall|i: int| 0 <= i < n.len() implies #[trigger] ascii_lower(n)[i] == n[i] by {
            assert(n[i] == ascii_lower_char(k[i]));
        }
    }
}

/// Reduces text for matching: keeps letters, digits and white space, and
/// maps it to lower case. On ASCII text this is `ascii_normal`, and the
/// result is ASCII again.
pub fn normalize_for_match(s: &str) -> (r: String)
    ensures
        r@ == spec_normalize_for_match(s@),
        all_ascii(s@) ==> r@ == ascii_normal(s@) && all_ascii(r@),
{
    let v = chars_of(s);
    let mut kept = String::new();
    let n = v.len();
    let mut i: usize = 0;
    while i < n
        invariant
            0 <= i <= n == v@.len(),
            v@ == s@,
            kept@ == keep_for_match(v@.take(i as int)),
            all_ascii(s@) ==> kept@ == ascii_keep(v@.take(i as int)) && all_ascii(kept@),
        decreases n - i,
    {
        assert(v@.take(i + 1).drop_last() == v@.take(i as int));
        assert(v@.take(i + 1).last() == v@[i as int]);
        let c = v[i];
        let ghost before = kept@;
        if is_alphanumeric(c) || is_whitespace(c) {
            push_char(&mut kept, c);
        }
        proof {
            if all_ascii(s@) {
                assert(is_ascii_char(v@[i as int]));
                assert forall|j: int| 0 <= j < kept@.len() implies is_ascii_char(
                    #[trigger] kept@[j],
                ) by {
                    if j < before.len() {
                        assert(kept@[j] == before[j]);
                    }
                }
            }
        }
        i = i + 1;
    }
    assert(v@.take(n as int) == v@);
    to_lowercase(kept.as_str())
}

/// The same reduction, under the name the vision checks use.
pub fn match_normalize(s: &str) -> (r: String)
    ensures
        r@ == spec_normalize_for_match(s@),
{
    normalize_for_match(s)
}

/// The name of a response field in the JSON.
pub open spec fn response_field_name(f: ResponseField) -> Seq<char> {
    match f {
        ResponseField::AllText => "all_text"@,
        ResponseField::ScreenTitle => "screen_title"@,
        ResponseField::Layout => "layout"@,
        ResponseField::LayoutDescription => "layout_description"@,
        ResponseField::Options => "options"@,
        ResponseField::Selected => "selected"@,
        ResponseField::ButtonHints => "button_hints"@,
        ResponseField::Gameplay => "gameplay"@,
        ResponseField::Confidence => "confidence"@,
    }
}

/// The name of a response field.
pub fn response_field_str(f: ResponseField) -> (s: &'static str)
    ensures
        s@ == response_field_name(f),
{
    match f {
        ResponseField::AllText => "all_text",
        ResponseField::ScreenTitle => "screen_title",
        ResponseField::Layout => "layout",
        ResponseField::LayoutDescription => "layout_description",
        ResponseField::Options => "options",
        ResponseField::Selected => "selected",
        ResponseField::ButtonHints => "button_hints",
        ResponseField::Gameplay => "gameplay",
        ResponseField::Confidence => "confidence",
    }
}

/// The fields that a vision response must have, in the order checked.
pub open spec fn required_fields() -> Seq<ResponseField> {
    seq![
        ResponseField::AllText,
        ResponseField::ScreenTitle,
        ResponseField::Layout,
        ResponseField::LayoutDescription,
        ResponseField::Options,
        ResponseField::Selected,
        ResponseField::ButtonHints,
        ResponseField::Gameplay,
        ResponseField::Confidence,
    ]
}

fn required_field(i: usize) -> (f: ResponseField)
    requires
        i < 9,
    ensures
        f == required_fields()[i as int],
{
    if i == 0 {
        ResponseField::AllText
    } else if i == 1 {
        ResponseField::ScreenTitle
    } else if i == 2 {
        ResponseField::Layout
    } else if i == 3 {
        ResponseField::LayoutDescription
    } else if i == 4 {
        ResponseField::Options
    } else if i == 5 {
        ResponseField::Selected
    } else if i == 6 {
        ResponseField::ButtonHints
    } else if i == 7 {
        ResponseField::Gameplay
    } else {
        ResponseField::Confidence
    }
}

/// The first required field, from index `from` on, that `v` lacks.
pub open spec fn first_absent_field(v: JsonValue, from: int) -> Option<ResponseField>
    decreases 9 - from,
{
    if from < 0 || from >= 9 {
        None
    } else if spec_get(v, response_field_name(required_fields()[from])) is None {
        Some(required_fields()[from])
    } else {
        first_absent_field(v, from + 1)
    }
}

/// The index of the first element, from `from` on, that is not a string.
pub open spec fn first_non_string(elems: Seq<JsonValue>, from: int) -> Option<nat>
    decreases elems.len() - from,
{
    if from < 0 || from >= elems.len() {
        None
    } else if !(elems[from] is String) {
        Some(from as nat)
    } else {
        first_non_string(elems, from + 1)
    }
}

/// The first of two outcomes that is a failure.
pub open spec fn or_else(a: Option<StepFailure>, b: Option<StepFailure>) -> Option<StepFailure> {
    if a is Some {
        a
    } else {
        b
    }
}

/// Field `f` of `v` must be an array of strings.
pub open spec fn string_array_failure(v: JsonValue, f: ResponseField) -> Option<StepFailure> {
    match spec_as_array(spec_field(v, response_field_name(f))) {
        None => Some(StepFailure::NotAnArray(f)),
        Some(a) => match first_non_string(a, 0) {
            Some(i) => Some(StepFailure::ElementNotString(f, i)),
            None => None,
        },
    }
}

/// Field `f` of `v` must be a string.
pub open spec fn string_failure(v: JsonValue, f: ResponseField) -> Option<StepFailure> {
    if spec_field(v, response_field_name(f)) is String {
        None
    } else {
        Some(StepFailure::NotAString(f))
    }
}

/// The text of field `f` of `v`, or the empty text when it is no string.
pub open spec fn str_or_empty(v: JsonValue, key: Seq<char>) -> Seq<char> {
    match spec_as_str(spec_field(v, key)) {
        Some(s) => s,
        None => Seq::empty(),
    }
}

/// The layouts a vision response may name.
pub open spec fn valid_layout(s: Seq<char>) -> bool {
    s == "list"@ || s == "two_column"@ || s == "tabs"@ || s == "grid"@ || s == "custom"@
}

/// The confidence levels a vision response may give.
pub open spec fn valid_confidence(s: Seq<char>) -> bool {
    s == "high"@ || s == "medium"@ || s == "low"@
}

/// What is wrong with region `i`, if anything: it must be an object with a
/// string `name`, an array of strings `options` and a string `selected`.
pub open spec fn region_failure(r: JsonValue, i: nat) -> Option<StepFailure> {
    if !(r is Object) {
        Some(StepFailure::RegionNotObject(i))
    } else if spec_get(r, "name"@) is None {
        Some(StepFailure::RegionMissingField(i, RegionField::Name))
    } else if spec_get(r, "options"@) is None {
        Some(StepFailure::RegionMissingField(i, RegionField::Options))
    } else if spec_get(r, "selected"@) is None {
        Some(StepFailure::RegionMissingField(i, RegionField::Selected))
    } else if !(spec_field(r, "name"@) is String) {
        Some(StepFailure::RegionNameNotString(i))
    } else if !(spec_field(r, "options"@) is Array) {
        Some(StepFailure::RegionOptionsNotArray(i))
    } else if !(spec_field(r, "selected"@) is String) {
        Some(StepFailure::RegionSelectedNotString(i))
    } else {
        match first_non_string(spec_as_array(spec_field(r, "options"@)).unwrap(), 0) {
            Some(j) => Some(StepFailure::RegionOptionNotString(i, j)),
            None => None,
        }
    }
}

/// The first failing region from index `from` on.
pub open spec fn first_region_failure(rs: Seq<JsonValue>, from: int) -> Option<StepFailure>
    decreases rs.len() - from,
{
    if from < 0 || from >= rs.len() {
        None
    } else if region_failure(rs[from], from as nat) is Some {
        region_failure(rs[from], from as nat)
    } else {
        first_region_failure(rs, from + 1)
    }
}

/// The optional fields: `breadcrumbs` must be a string and `regions` an
/// array of well-formed regions, when present.
pub open spec fn optional_fields_failure(v: JsonValue) -> Option<StepFailure> {
    let crumbs = match spec_get(v, "breadcrumbs"@) {
        Some(b) => if b is String {
            None
        } else {
            Some(StepFailure::BreadcrumbsNotString)
        },
        None => None,
    };
    let regions = match spec_get(v, "regions"@) {
        Some(r) => match spec_as_array(r) {
            None => Some(StepFailure::RegionsNotArray),
            Some(rs) => first_region_failure(rs, 0),
        },
        None => None,
    };
    or_else(crumbs, regions)
}

/// What checking a vision response gives: the first missing required
/// field, else the first field of the wrong type or value, in the order
/// all_text, screen_title, layout_description, layout, options, selected,
/// button_hints, gameplay, confidence, then the optional fields.
pub open spec fn spec_check_vision_response(v: JsonValue) -> Option<StepFailure> {
    match first_absent_field(v, 0) {
        Some(f) => Some(StepFailure::MissingField(f)),
        None => {
            let layout = str_or_empty(v, "layout"@);
            let confidence = str_or_empty(v, "confidence"@);
            or_else(
                string_array_failure(v, ResponseField::AllText),
                or_else(
                    string_failure(v, ResponseField::ScreenTitle),
                    or_else(
                        string_failure(v, ResponseField::LayoutDescription),
                        or_else(
                            if valid_layout(layout) {
                                None
                            } else {
                                Some(StepFailure::InvalidLayout(layout))
                            },
                            or_else(
                                string_array_failure(v, ResponseField::Options),
                                or_else(
                                    string_failure(v, ResponseField::Selected),
                                    or_else(
                                        string_array_failure(v, ResponseField::ButtonHints),
                                        or_else(
                                            if spec_field(v, "gameplay"@) is Bool {
                                                None
                                            } else {
                                                Some(
                                                    StepFailure::NotABoolean(
                                                        ResponseField::Gameplay,
                                                    ),
                                                )
                                            },
                                            or_else(
                                                if valid_confidence(confidence) {
                                                    None
                                                } else {
                                                    Some(StepFailure::InvalidConfidence(confidence))
                                                },
                                                optional_fields_failure(v),
                                            ),
                                        ),
                                    ),
                                ),
                            ),
                        ),
                    ),
                ),
            )
        },
    }
}

/// The index of the first element that is not a string.
fn find_non_string(elems: &Vec<JsonValue>) -> (r: Option<usize>)
    ensures
        match r {
            Some(i) => first_non_string(elems@, 0) == Some(i as nat),
            None => first_non_string(elems@, 0) is None,
        },
{
    let n = elems.len();
    let mut i: usize = 0;
    while i < n
        invariant
            0 <= i <= n == elems@.len(),
            first_non_string(elems@, 0) == first_non_string(elems@, i as int),
        decreases n - i,
    {
        if !elems[i].is_string() {
            return Some(i);
        }
        i = i + 1;
    }
    None
}

fn check_string_array(v: &JsonValue, f: ResponseField) -> (r: Result<(), StepError>)
    ensures
        match string_array_failure(*v, f) {
            None => r is Ok,
            Some(x) => r matches Err(e) && e@ == x,
        },
{
    match v.get(response_field_str(f)) {
        Some(x) => match x.as_array() {
            Some(a) => match find_non_string(a) {
                Some(i) => Err(StepError::ElementNotString(f, i)),
                None => Ok(()),
            },
            None => Err(StepError::NotAnArray(f)),
        },
        None => Err(StepError::NotAnArray(f)),
    }
}

fn check_string(v: &JsonValue, f: ResponseField) -> (r: Result<(), StepError>)
    ensures
        match string_failure(*v, f) {
            None => r is Ok,
            Some(x) => r matches Err(e) && e@ == x,
        },
{
    match v.get(response_field_str(f)) {
        Some(x) => if x.is_string() {
            Ok(())
        } else {
            Err(StepError::NotAString(f))
        },
        None => Err(StepError::NotAString(f)),
    }
}

fn text_or_empty(v: &JsonValue, key: &str) -> (s: String)
    ensures
        s@ == str_or_empty(*v, key@),
{
    let mut s = String::new();
    match v.get(key) {
        Some(x) => match x.as_str() {
            Some(t) => push_seq(&mut s, t),
            None => {},
        },
        None => {},
    }
    s
}

fn check_region(r: &JsonValue, i: usize) -> (res: Result<(), StepError>)
    ensures
        match region_failure(*r, i as nat) {
            None => res is Ok,
            Some(x) => res matches Err(e) && e@ == x,
        },
{
    if !r.is_object() {
        return Err(StepError::RegionNotObject(i));
    }
    let name = match r.get("name") {
        Some(x) => x,
        None => return Err(StepError::RegionMissingField(i, RegionField::Name)),
    };
    let options = match r.get("options") {
        Some(x) => x,
        None => return Err(StepError::RegionMissingField(i, RegionField::Options)),
    };
    let selected = match r.get("selected") {
        Some(x) => x,
        None => return Err(StepError::RegionMissingField(i, RegionField::Selected)),
    };
    if !name.is_string() {
        return Err(StepError::RegionNameNotString(i));
    }
    let opts = match options.as_array() {
        Some(a) => a,
        None => return Err(StepError::RegionOptionsNotArray(i)),
    };
    if !selected.is_string() {
        return Err(StepError::RegionSelectedNotString(i));
    }
    match find_non_string(opts) {
        Some(j) => Err(StepError::RegionOptionNotString(i, j)),
        None => Ok(()),
    }
}

fn check_optional_fields(v: &JsonValue) -> (r: Result<(), StepError>)
    ensures
        match optional_fields_failure(*v) {
            None => r is Ok,
            Some(x) => r matches Err(e) && e@ == x,
        },
{
    match v.get("breadcrumbs") {
        Some(b) => if !b.is_string() {
            return Err(StepError::BreadcrumbsNotString);
        },
        None => {},
    }
    match v.get("regions") {
        Some(x) => match x.as_array() {
            None => Err(StepError::RegionsNotArray),
            Some(rs) => {
                let n = rs.len();
                let mut i: usize = 0;
                assert(optional_fields_failure(*v) == first_region_failure(rs@, 0));
                while i < n
                    invariant
                        0 <= i <= n == rs@.len(),
                        first_region_failure(rs@, 0) == first_region_failure(rs@, i as int),
                        optional_fields_failure(*v) == first_region_failure(rs@, 0),
                    decreases n - i,
                {
                    match check_region(&rs[i], i) {
                        Err(e) => {
                            return Err(e);
                        },
                        Ok(()) => {},
                    }
                    i = i + 1;
                }
                Ok(())
            },
        },
        None => Ok(()),
    }
}

/// Checks a vision response: all required fields present, with the types
/// and values that the step log allows.
pub fn check_vision_response(v: &JsonValue) -> (r: Result<(), StepError>)
    ensures
        match spec_check_vision_response(*v) {
            None => r is Ok,
            Some(x) => r matches Err(e) && e@ == x,
        },
{
    let mut i: usize = 0;
    while i < 9
        invariant
            0 <= i <= 9,
            first_absent_field(*v, 0) == first_absent_field(*v, i as int),
        decreases 9 - i,
    {
        let f = required_field(i);
        if v.get(response_field_str(f)).is_none() {
            return Err(StepError::MissingField(f));
        }
        i = i + 1;
    }
    assert(first_absent_field(*v, 9) is None);
    check_string_array(v, ResponseField::AllText)?;
    check_string(v, ResponseField::ScreenTitle)?;
    check_string(v, ResponseField::LayoutDescription)?;
    let layout = text_or_empty(v, "layout");
    let l = layout.as_str();
    if !(str_equal(l, "list") || str_equal(l, "two_column") || str_equal(l, "tabs") || str_equal(
        l,
        "grid",
    ) || str_equal(l, "custom")) {
        return Err(StepError::InvalidLayout(layout));
    }
    check_string_array(v, ResponseField::Options)?;
    check_string(v, ResponseField::Selected)?;
    check_string_array(v, ResponseField::ButtonHints)?;
    let gameplay_ok = match v.get("gameplay") {
        Some(g) => g.is_boolean(),
        None => false,
    };
    if !gameplay_ok {
        return Err(StepError::NotABoolean(ResponseField::Gameplay));
    }
    let confidence = text_or_empty(v, "confidence");
    let c = confidence.as_str();
    if !(str_equal(c, "high") || str_equal(c, "medium") || str_equal(c, "low")) {
        return Err(StepError::InvalidConfidence(confidence));
    }
    check_optional_fields(v)
}

/// Reads the text of a vision response file as JSON and checks it as a
/// vision response: text that is not JSON is refused with the parser's
/// message; a document is then held to `check_vision_response`.
pub fn check_response_document(text: &str) -> (r: Result<JsonValue, StepError>)
    ensures
        match json_document(text@) {
            Err(m) => r matches Err(e) && e@ == StepFailure::ResponseNotJson(m),
            Ok(v) => match spec_check_vision_response(v) {
                None => r == Ok::<JsonValue, StepError>(v),
                Some(x) => r matches Err(e) && e@ == x,
            },
        },
{
    match parse_json_document(text) {
        Err(m) => Err(StepError::ResponseNotJson(m)),
        Ok(v) => match check_vision_response(&v) {
            Ok(()) => Ok(v),
            Err(e) => Err(e),
        },
    }
}

/// What an OCR sidecar records of the screenshot it was made from.
#[derive(Debug)]
pub struct Provenance {
    pub screenshot_size: u64,
    pub screenshot_modified: String,
}

/// The member `key` of `v` as a boolean.
pub open spec fn get_bool(v: JsonValue, key: Seq<char>) -> Option<bool> {
    match spec_get(v, key) {
        Some(x) => spec_as_bool(x),
        None => None,
    }
}

/// The member `key` of `v` as text.
pub open spec fn get_str(v: JsonValue, key: Seq<char>) -> Option<Seq<char>> {
    match spec_get(v, key) {
        Some(x) => spec_as_str(x),
        None => None,
    }
}

/// The member `key` of `v` as a `u64`.
pub open spec fn get_u64(v: JsonValue, key: Seq<char>) -> Option<u64> {
    match spec_get(v, key) {
        Some(x) => spec_as_u64(x),
        None => None,
    }
}

/// What reading the provenance of a sidecar gives: its screenshot's size
/// and modification time, when the record is complete and names the
/// screenshot given.
pub open spec fn spec_check_provenance(sidecar: JsonValue, screenshot: Seq<char>) -> Result<
    (u64, Seq<char>),
    StepFailure,
> {
    match spec_get(sidecar, "provenance"@) {
        None => Err(StepFailure::ProvenanceMissing),
        Some(p) => match get_str(p, "screenshot_path"@) {
            None => Err(StepFailure::ProvenanceFieldMissing(ProvenanceField::ScreenshotPath)),
            Some(path) => match get_u64(p, "screenshot_size"@) {
                None => Err(StepFailure::ProvenanceFieldMissing(ProvenanceField::ScreenshotSize)),
                Some(size) => match get_str(p, "screenshot_modified"@) {
                    None => Err(
                        StepFailure::ProvenanceFieldMissing(ProvenanceField::ScreenshotModified),
                    ),
                    Some(modified) => if path != screenshot {
                        Err(StepFailure::PathMismatch(path, screenshot))
                    } else {
                        Ok((size, modified))
                    },
                },
            },
        },
    }
}

/// Reads the provenance record of an OCR sidecar and checks that it was
/// made from `screenshot`.
pub fn check_provenance(sidecar: &JsonValue, screenshot: &str) -> (r: Result<Provenance, StepError>)
    ensures
        match spec_check_provenance(*sidecar, screenshot@) {
            Ok((size, modified)) => r matches Ok(p) && p.screenshot_size == size
                && p.screenshot_modified@ == modified,
            Err(f) => r matches Err(e) && e@ == f,
        },
{
    let p = match sidecar.get("provenance") {
        Some(p) => p,
        None => return Err(StepError::ProvenanceMissing),
    };
    let path = match p.get("screenshot_path") {
        Some(x) => match x.as_str() {
            Some(s) => s,
            None => return Err(StepError::ProvenanceFieldMissing(ProvenanceField::ScreenshotPath)),
        },
        None => return Err(StepError::ProvenanceFieldMissing(ProvenanceField::ScreenshotPath)),
    };
    let size = match p.get("screenshot_size") {
        Some(x) => match x.as_u64() {
            Some(n) => n,
            None => return Err(StepError::ProvenanceFieldMissing(ProvenanceField::ScreenshotSize)),
        },
        None => return Err(StepError::ProvenanceFieldMissing(ProvenanceField::ScreenshotSize)),
    };
    let modified = match p.get("screenshot_modified") {
        Some(x) => match x.as_str() {
            Some(s) => s,
            None => return Err(
                StepError::ProvenanceFieldMissing(ProvenanceField::ScreenshotModified),
            ),
        },
        None => return Err(StepError::ProvenanceFieldMissing(ProvenanceField::ScreenshotModified)),
    };
    if !str_equal(path, screenshot) {
        let mut a = String::new();
        push_seq(&mut a, path);
        let mut b = String::new();
        push_seq(&mut b, screenshot);
        return Err(StepError::PathMismatch(a, b));
    }
    let mut m = String::new();
    push_seq(&mut m, modified);
    Ok(Provenance { screenshot_size: size, screenshot_modified: m })
}

/// Reads the text of an OCR sidecar file as JSON and reads its provenance
/// record for `screenshot`: text that is not JSON is refused with the
/// parser's message; a document is then held to `check_provenance`, and
/// given back with the record.
pub fn check_sidecar_document(text: &str, screenshot: &str) -> (r: Result<
    (JsonValue, Provenance),
    StepError,
>)
    ensures
        match json_document(text@) {
            Err(m) => r matches Err(e) && e@ == StepFailure::SidecarNotJson(m),
            Ok(v) => match spec_check_provenance(v, screenshot@) {
                Ok((size, modified)) => r matches Ok((w, p)) && w == v && p.screenshot_size
                    == size && p.screenshot_modified@ == modified,
                Err(f) => r matches Err(e) && e@ == f,
            },
        },
{
    match parse_json_document(text) {
        Err(m) => Err(StepError::SidecarNotJson(m)),
        Ok(v) => match check_provenance(&v, screenshot) {
            Ok(p) => Ok((v, p)),
            Err(e) => Err(e),
        },
    }
}

/// What `chrono` writes for a time given in whole seconds since the Unix
/// epoch: RFC 3339 in UTC with milliseconds and a `Z`, or nothing when the
/// time is out of its range.
pub uninterp spec fn rfc3339_utc_millis(secs: int) -> Option<Seq<char>>;

/// `chrono::DateTime::from_timestamp(secs, 0)` then
/// `to_rfc3339_opts(SecondsFormat::Millis, true)`: the outcome is named
/// `rfc3339_utc_millis` of the seconds; the calendar arithmetic and the
/// range that `chrono` accepts are not stated here.
#[verifier::external_body]
pub(crate) fn format_rfc3339_utc_millis(secs: i64) -> (r: Option<String>)
    ensures
        match r {
            Some(t) => rfc3339_utc_millis(secs as int) == Some(t@),
            None => rfc3339_utc_millis(secs as int) is None,
        },
{
    chrono::DateTime::from_timestamp(secs, 0).map(
        |dt| dt.to_rfc3339_opts(chrono::SecondsFormat::Millis, true),
    )
}

/// The modification stamp of a file whose modification time lies
/// `mtime_secs` whole seconds after the Unix epoch (none when it is
/// unknown or before the epoch): the time in RFC 3339, or `unknown`. The
/// seconds are taken as `i64` with wrap-around, as a cast does.
pub open spec fn spec_modified_stamp(mtime_secs: Option<u64>) -> Seq<char> {
    match mtime_secs {
        None => "unknown"@,
        Some(secs) => match rfc3339_utc_millis((secs as i64) as int) {
            Some(t) => t,
            None => "unknown"@,
        },
    }
}

/// The modification stamp that a sidecar records and a step is checked
/// against.
pub fn modified_stamp(mtime_secs: Option<u64>) -> (s: String)
    ensures
        s@ == spec_modified_stamp(mtime_secs),
{
    match mtime_secs {
        None => unknown_stamp(),
        Some(secs) => match format_rfc3339_utc_millis(secs as i64) {
            Some(t) => t,
            None => unknown_stamp(),
        },
    }
}

fn unknown_stamp() -> (u: String)
    ensures
        u@ == "unknown"@,
{
    let mut u = String::new();
    push_seq(&mut u, "unknown");
    u
}

/// The provenance record that an OCR sidecar keeps of its screenshot: an
/// object with `screenshot_path`, `screenshot_size` and
/// `screenshot_modified`. Any sidecar whose `provenance` member is this
/// record passes `check_provenance` for the same path, with the same size
/// and stamp.
pub fn sidecar_provenance(path: &str, size: u64, modified: &str) -> (v: JsonValue)
    ensures
        get_str(v, "screenshot_path"@) == Some(path@),
        get_u64(v, "screenshot_size"@) == Some(size),
        get_str(v, "screenshot_modified"@) == Some(modified@),
        v matches JsonValue::Object(ms) && ms@.len() == 3,
        forall|sidecar: JsonValue|
            spec_get(sidecar, "provenance"@) == Some(v) ==> #[trigger] spec_check_provenance(
                sidecar,
                path@,
            ) == Ok::<(u64, Seq<char>), StepFailure>((size, modified@)),
{
    let mut k1 = String::new();
    push_seq(&mut k1, "screenshot_path");
    let mut p = String::new();
    push_seq(&mut p, path);
    let mut k2 = String::new();
    push_seq(&mut k2, "screenshot_size");
    let mut k3 = String::new();
    push_seq(&mut k3, "screenshot_modified");
    let mut m = String::new();
    push_seq(&mut m, modified);
    let mut members: Vec<(String, JsonValue)> = Vec::new();
    members.push((k1, JsonValue::String(p)));
    members.push((k2, JsonValue::Number(Some(size))));
    members.push((k3, JsonValue::String(m)));
    proof {
        reveal_strlit("screenshot_path");
        reveal_strlit("screenshot_size");
        reveal_strlit("screenshot_modified");
        let ms = members@;
        assert(ms[1].0@[11] != "screenshot_path"@[11]);
        assert(ms[0].0@.len() != "screenshot_modified"@.len());
        assert(ms[1].0@.len() != "screenshot_modified"@.len());
        assert(ms[2].0@.len() != "screenshot_path"@.len());
        assert(ms[2].0@.len() != "screenshot_size"@.len());
        assert(ms.drop_first()[0] == ms[1]);
        assert(ms.drop_first().drop_first()[0] == ms[2]);
        assert(members_get(ms, "screenshot_size"@) == members_get(ms.drop_first(), "screenshot_size"@));
        assert(members_get(ms, "screenshot_modified"@) == members_get(
            ms.drop_first(),
            "screenshot_modified"@,
        ));
        assert(members_get(ms.drop_first(), "screenshot_modified"@) == members_get(
            ms.drop_first().drop_first(),
            "screenshot_modified"@,
        ));
    }
    JsonValue::Object(members)
}

/// Checks the recorded size and modification time against the
/// screenshot's actual ones, size first.
pub fn check_provenance_metadata(prov: &Provenance, actual_size: u64, actual_modified: &str) -> (r:
    Result<(), StepError>)
    ensures
        prov.screenshot_size != actual_size ==> (r matches Err(e) && e@
            == StepFailure::SizeMismatch(prov.screenshot_size, actual_size)),
        prov.screenshot_size == actual_size && prov.screenshot_modified@ != actual_modified@ ==> (
        r matches Err(e) && e@ == StepFailure::ModifiedMismatch(
            prov.screenshot_modified@,
            actual_modified@,
        )),
        prov.screenshot_size == actual_size && prov.screenshot_modified@ == actual_modified@
            ==> r is Ok,
{
    if prov.screenshot_size != actual_size {
        return Err(StepError::SizeMismatch(prov.screenshot_size, actual_size));
    }
    if !str_equal(prov.screenshot_modified.as_str(), actual_modified) {
        let mut a = String::new();
        push_seq(&mut a, prov.screenshot_modified.as_str());
        let mut b = String::new();
        push_seq(&mut b, actual_modified);
        return Err(StepError::ModifiedMismatch(a, b));
    }
    Ok(())
}

/// Whether the vision response says its analysis came from OCR.
pub open spec fn has_ocr_source(response: JsonValue) -> bool {
    match get_bool(response, "ocr_source"@) {
        Some(b) => b,
        None => false,
    }
}

/// The normalised texts of the string elements of `elems`, in order.
pub open spec fn normalized_strings(elems: Seq<JsonValue>) -> Seq<Seq<char>>
    decreases elems.len(),
{
    if elems.len() == 0 {
        Seq::empty()
    } else {
        let rest = normalized_strings(elems.drop_last());
        match spec_as_str(elems.last()) {
            Some(s) => rest.push(spec_normalize_for_match(s)),
            None => rest,
        }
    }
}

/// The normalised options of a vision response.
pub open spec fn vision_options(response: JsonValue) -> Seq<Seq<char>> {
    match spec_as_array(spec_field(response, "options"@)) {
        Some(a) => normalized_strings(a),
        None => Seq::empty(),
    }
}

/// How many of `opts` are non-empty and occur in `text`.
pub open spec fn count_found(opts: Seq<Seq<char>>, text: Seq<char>) -> nat
    decreases opts.len(),
{
    if opts.len() == 0 {
        0
    } else {
        count_found(opts.drop_last(), text) + if opts.last().len() > 0 && contains(
            text,
            opts.last(),
        ) {
            1nat
        } else {
            0nat
        }
    }
}

/// What checking the analysis source gives. `ocr` needs a successful OCR
/// sidecar that produced text, and a response marked as from OCR.
/// `vision_fallback` needs a response not so marked, and refuses a screen
/// where OCR found the title and at least half of the options.
pub open spec fn spec_check_analysis_source(
    source: AnalysisSource,
    sidecar: JsonValue,
    response: JsonValue,
) -> Option<StepFailure> {
    match source {
        AnalysisSource::Ocr => match get_bool(sidecar, "succeeded"@) {
            None => Some(StepFailure::SucceededMissing),
            Some(false) => Some(StepFailure::OcrNotSucceeded),
            Some(true) => if !has_ocr_source(response) {
                Some(StepFailure::OcrSourceMissing)
            } else {
                match spec_get(sidecar, "result"@) {
                    None => None,
                    Some(res) => {
                        let all = str_or_empty(res, "all_text"@);
                        let count = match spec_get(res, "lines"@) {
                            Some(l) => match spec_as_array(l) {
                                Some(a) => a.len(),
                                None => 0,
                            },
                            None => 0,
                        };
                        if trim(all).len() == 0 && count == 0 {
                            Some(StepFailure::OcrTextEmpty)
                        } else {
                            None
                        }
                    },
                }
            },
        },
        AnalysisSource::VisionFallback => if has_ocr_source(response) {
            Some(StepFailure::VisionHasOcrSource)
        } else if get_bool(sidecar, "succeeded"@) != Some(true) {
            None
        } else {
            match spec_get(sidecar, "result"@) {
                None => None,
                Some(res) => {
                    let ocr = spec_normalize_for_match(str_or_empty(res, "all_text"@));
                    let title = spec_normalize_for_match(str_or_empty(response, "screen_title"@));
                    let opts = vision_options(response);
                    let title_match = title.len() > 0 && contains(ocr, title);
                    let found = count_found(opts, ocr);
                    if title_match && opts.len() > 0 && 2 * found >= opts.len() {
                        Some(StepFailure::OcrSufficient(title, title_match, found, opts.len()))
                    } else {
                        None
                    }
                },
            }
        },
    }
}

fn member_bool(v: &JsonValue, key: &str) -> (r: Option<bool>)
    ensures
        r == get_bool(*v, key@),
{
    match v.get(key) {
        Some(x) => x.as_bool(),
        None => None,
    }
}

/// The normalised options of a response, in order.
fn normalized_options(response: &JsonValue) -> (r: Vec<String>)
    ensures
        r@.map_values(|s: String| s@) == vision_options(*response),
{
    let mut out: Vec<String> = Vec::new();
    match response.get("options") {
        Some(x) => match x.as_array() {
            Some(a) => {
                let n = a.len();
                let mut i: usize = 0;
                while i < n
                    invariant
                        0 <= i <= n == a@.len(),
                        out@.map_values(|s: String| s@) == normalized_strings(a@.take(i as int)),
                    decreases n - i,
                {
                    assert(a@.take(i + 1).drop_last() == a@.take(i as int));
                    assert(a@.take(i + 1).last() == a@[i as int]);
                    match a[i].as_str() {
                        Some(t) => {
                            let ghost before = out@;
                            out.push(normalize_for_match(t));
                            assert(out@.map_values(|s: String| s@) == before.map_values(
                                |s: String| s@,
                            ).push(spec_normalize_for_match(t@)));
                        },
                        None => {},
                    }
                    i = i + 1;
                }
                assert(a@.take(n as int) == a@);
            },
            None => {},
        },
        None => {},
    }
    out
}

/// Checks that the analysis source agrees with the OCR sidecar and the
/// vision response.
pub fn check_analysis_source(source: AnalysisSource, sidecar: &JsonValue, response: &JsonValue) -> (r:
    Result<(), StepError>)
    ensures
        match spec_check_analysis_source(source, *sidecar, *response) {
            None => r is Ok,
            Some(x) => r matches Err(e) && e@ == x,
        },
{
    let ocr_source = match member_bool(response, "ocr_source") {
        Some(b) => b,
        None => false,
    };
    match source {
        AnalysisSource::Ocr => {
            let succeeded = match member_bool(sidecar, "succeeded") {
                Some(b) => b,
                None => return Err(StepError::SucceededMissing),
            };
            if !succeeded {
                return Err(StepError::OcrNotSucceeded);
            }
            if !ocr_source {
                return Err(StepError::OcrSourceMissing);
            }
            match sidecar.get("result") {
                Some(res) => {
                    let all = text_or_empty(res, "all_text");
                    let count = match res.get("lines") {
                        Some(l) => match l.as_array() {
                            Some(a) => a.len(),
                            None => 0,
                        },
                        None => 0,
                    };
                    let t = trim_str(all.as_str());
                    if t.as_str().is_empty() && count == 0 {
                        return Err(StepError::OcrTextEmpty);
                    }
                    Ok(())
                },
                None => Ok(()),
            }
        },
        AnalysisSource::VisionFallback => {
            if ocr_source {
                return Err(StepError::VisionHasOcrSource);
            }
            let succeeded = match member_bool(sidecar, "succeeded") {
                Some(b) => b,
                None => false,
            };
            if !succeeded {
                return Ok(());
            }
            match sidecar.get("result") {
                Some(res) => {
                    let ocr_raw = text_or_empty(res, "all_text");
                    let ocr = normalize_for_match(ocr_raw.as_str());
                    let title_raw = text_or_empty(response, "screen_title");
                    let title = normalize_for_match(title_raw.as_str());
                    let opts = normalized_options(response);
                    let ghost ov = opts@.map_values(|s: String| s@);
                    let title_match = !title.as_str().is_empty() && str_contains(
                        ocr.as_str(),
                        title.as_str(),
                    );
                    let n = opts.len();
                    let mut found: usize = 0;
                    let mut i: usize = 0;
                    while i < n
                        invariant
                            0 <= i <= n == opts@.len() == ov.len(),
                            ov == opts@.map_values(|s: String| s@),
                            found == count_found(ov.take(i as int), ocr@),
                            found <= i,
                        decreases n - i,
                    {
                        assert(ov.take(i + 1).drop_last() == ov.take(i as int));
                        assert(ov.take(i + 1).last() == opts@[i as int]@);
                        let o = opts[i].as_str();
                        if !o.is_empty() && str_contains(ocr.as_str(), o) {
                            found = found + 1;
                        }
                        i = i + 1;
                    }
                    assert(ov.take(n as int) == ov);
                    if title_match && n > 0 && found >= n - found {
                        return Err(StepError::OcrSufficient(title, title_match, found, n));
                    }
                    Ok(())
                },
                None => Ok(()),
            }
        },
    }
}

/// Validation never refuses a neutral run id for slicing: every neutral id
/// is accepted.
pub proof fn neutral_run_ids_are_checkable(bs: Seq<u8>)
    requires
        run_id_neutral(bs),
    ensures
        !run_id_slicing_fails(bs),
        bs.len() == 19 <==> bs.skip(15) == seq![0x5fu8, 0x72, 0x75, 0x6e],
{
    assert(0x30 <= bs[9] <= 0x39);
    assert(bs.skip(15)[0] == bs[15]);
    assert(seq![0x5fu8, 0x72, 0x75, 0x6e].len() == 4);
    assert(seq![0x5fu8, 0x65, 0x78, 0x70, 0x6c, 0x6f, 0x72, 0x65].len() == 8);
}

/// The layouts that the `--response-file` documentation allows, written
/// out: `list`, `two_column`, `tabs`, `grid`, `custom`.
pub open spec fn documented_layout(s: Seq<char>) -> bool {
    ||| s == "list"@
    ||| s == "two_column"@
    ||| s == "tabs"@
    ||| s == "grid"@
    ||| s == "custom"@
}

/// No region check fails for a layout.
proof fn region_failures_are_not_layouts(rs: Seq<JsonValue>, from: int)
    ensures
        !(first_region_failure(rs, from) matches Some(StepFailure::InvalidLayout(_))),
    decreases rs.len() - from,
{
    if 0 <= from < rs.len() && region_failure(rs[from], from as nat) is None {
        region_failures_are_not_layouts(rs, from + 1);
    }
}

/// A vision response is refused for its layout exactly when the layout it
/// names (as text) is none of the documented five, and every check before
/// the layout passed: a documented layout is never the reason for a
/// refusal, and an undocumented one always is, once the required fields are
/// there and all_text, screen_title and layout_description are well formed.
pub proof fn layout_refused_iff_undocumented(v: JsonValue)
    ensures
        spec_check_vision_response(v) matches Some(StepFailure::InvalidLayout(l)) ==> l
            == str_or_empty(v, "layout"@) && !documented_layout(l),
        documented_layout(str_or_empty(v, "layout"@)) ==> !(spec_check_vision_response(
            v,
        ) matches Some(StepFailure::InvalidLayout(_))),
        ({
            &&& first_absent_field(v, 0) is None
            &&& string_array_failure(v, ResponseField::AllText) is None
            &&& string_failure(v, ResponseField::ScreenTitle) is None
            &&& string_failure(v, ResponseField::LayoutDescription) is None
            &&& !documented_layout(str_or_empty(v, "layout"@))
        }) ==> spec_check_vision_response(v) == Some(
            StepFailure::InvalidLayout(str_or_empty(v, "layout"@)),
        ),
{
    match spec_get(v, "regions"@) {
        Some(r) => match spec_as_array(r) {
            Some(rs) => region_failures_are_not_layouts(rs, 0),
            None => {},
        },
        None => {},
    }
}

/// No region check fails for a confidence level.
proof fn region_failures_are_not_confidences(rs: Seq<JsonValue>, from: int)
    ensures
        !(first_region_failure(rs, from) matches Some(StepFailure::InvalidConfidence(_))),
    decreases rs.len() - from,
{
    if 0 <= from < rs.len() && region_failure(rs[from], from as nat) is None {
        region_failures_are_not_confidences(rs, from + 1);
    }
}

/// A vision response is refused for its confidence only when the level it
/// names (as text) is none of `high`, `medium`, `low`; a response that
/// names one of them is never refused for its confidence.
pub proof fn confidence_refused_only_if_undocumented(v: JsonValue)
    ensures
        spec_check_vision_response(v) matches Some(StepFailure::InvalidConfidence(c)) ==> c
            == str_or_empty(v, "confidence"@) && !(c == "high"@ || c == "medium"@ || c
            == "low"@),
        ({
            let c = str_or_empty(v, "confidence"@);
            c == "high"@ || c == "medium"@ || c == "low"@
        }) ==> !(spec_check_vision_response(v) matches Some(StepFailure::InvalidConfidence(_))),
{
    match spec_get(v, "regions"@) {
        Some(r) => match spec_as_array(r) {
            Some(rs) => region_failures_are_not_confidences(rs, 0),
            None => {},
        },
        None => {},
    }
}

/// `first_banned_from` from any index up to `i` finds pattern `i` when it
/// is the first one the prompt holds.
proof fn first_banned_reaches(prompt: Seq<char>, from: int, i: int)
    requires
        0 <= from <= i < 8,
        contains(prompt, banned_patterns()[i]),
        forall|j: int| from <= j < i ==> !contains(prompt, #[trigger] banned_patterns()[j]),
    ensures
        first_banned_from(prompt, from) == Some(i as nat),
    decreases i - from,
{
    if from < i {
        first_banned_reaches(prompt, from + 1, i);
    }
}

/// No pattern is found from any index on when the prompt holds none.
proof fn first_banned_none(prompt: Seq<char>, from: int)
    requires
        0 <= from <= 8,
        forall|j: int| from <= j < 8 ==> !contains(prompt, #[trigger] banned_patterns()[j]),
    ensures
        first_banned_from(prompt, from) is None,
    decreases 8 - from,
{
    if from < 8 {
        first_banned_none(prompt, from + 1);
    }
}

/// Every banned pattern is looked for, in order from the first: a prompt
/// that holds pattern `i` and none before it is refused for pattern `i`;
/// a prompt that holds none of them is never refused for a pattern.
pub proof fn banned_patterns_refused_in_order(prompt: Seq<char>, i: int)
    ensures
        (0 <= i < 8 && contains(prompt, banned_patterns()[i]) && forall|j: int|
            0 <= j < i ==> !contains(prompt, #[trigger] banned_patterns()[j])) ==> spec_check_prompt(
            prompt,
        ) == Some(StepFailure::BannedPattern(i as nat)),
        (forall|j: int| 0 <= j < 8 ==> !contains(prompt, #[trigger] banned_patterns()[j]))
            ==> !(spec_check_prompt(prompt) matches Some(StepFailure::BannedPattern(_))),
{
    if 0 <= i < 8 && contains(prompt, banned_patterns()[i]) && forall|j: int|
        0 <= j < i ==> !contains(prompt, #[trigger] banned_patterns()[j]) {
        first_banned_reaches(prompt, 0, i);
    }
    if forall|j: int| 0 <= j < 8 ==> !contains(prompt, #[trigger] banned_patterns()[j]) {
        first_banned_none(prompt, 0);
    }
}

} // verus!

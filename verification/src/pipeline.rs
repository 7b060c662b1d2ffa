//! The request pipeline as a machine: it settles the response step by
//! step, and where it needs to know something of the file system it says
//! so and waits for the answer. Whoever drives it looks things up and
//! hands the answers back; the order of the steps is the machine's.

use crate::config::Config;
use crate::handler::log_view;
use crate::handler::screen;
use crate::handler::screened;
use crate::handler::Admission;
use crate::handler::AdmissionModel;
use crate::handler::LogLine;
use crate::handler::Request;
use crate::http1::handle_error;
use crate::http1::text_response;
use crate::http1::ResponseDescriptor;
use crate::http1::ResponseModel;
use crate::paths::guessed_mime;
use crate::paths::joined_path;
use crate::serve::brotli_sibling;
use crate::serve::buffered_model;
use crate::serve::buffered_response;
use crate::serve::choose_target;
use crate::serve::contents_view;
use crate::serve::fallback_path;
use crate::serve::gzip_sibling;
use crate::serve::index_path;
use crate::serve::is_streamed;
use crate::serve::listing_model;
use crate::serve::listing_response;
use crate::serve::locate;
use crate::serve::located;
use crate::serve::mime_of;
use crate::serve::served_line;
use crate::serve::shape;
use crate::serve::shaped;
use crate::serve::stream_model;
use crate::serve::stream_response;
use crate::serve::streams;
use crate::serve::target_of;
use crate::serve::Located;
use crate::serve::LocatedModel;
use crate::serve::Shaped;
use crate::serve::ShapedModel;
use crate::serve::Target;
use crate::serve::TargetModel;
use crate::serve::TargetProbe;
use vstd::prelude::*;

verus! {

/// Where the pipeline stands: at the response, or at a question.
pub enum Step {
    /// The response is settled, with the line to log, if any.
    Respond { response: ResponseDescriptor, log: Option<LogLine> },
    /// Is `file_path` a directory, and what stands at `index`?
    ProbeTarget { req_path: String, file_path: String, index: String },
    /// What is the markup of the listing of `dir`?
    Render { req_path: String, dir: String },
    /// Does `path` exist, and if not, does `fallback`?
    ProbeFile { path: String, fallback: String },
    /// Do the compressed siblings of `path` exist?
    ProbeSiblings { path: String, brotli: String, gzip: String },
    /// How long is the file to read?
    Measure { shaped: Shaped },
    /// What does the file to read hold?
    Read { shaped: Shaped },
}

/// What a step is, mathematically.
pub enum StepModel {
    Respond { response: ResponseModel, log: Option<(u16, Seq<char>)> },
    ProbeTarget { req_path: Seq<char>, file_path: Seq<char>, index: Seq<char> },
    Render { req_path: Seq<char>, dir: Seq<char> },
    ProbeFile { path: Seq<char>, fallback: Seq<char> },
    ProbeSiblings { path: Seq<char>, brotli: Seq<char>, gzip: Seq<char> },
    Measure { shaped: ShapedModel },
    Read { shaped: ShapedModel },
}

impl View for Step {
    type V = StepModel;

    open spec fn view(&self) -> StepModel {
        match self {
            Step::Respond { response, log } => StepModel::Respond {
                response: response@,
                log: log_view(*log),
            },
            Step::ProbeTarget { req_path, file_path, index } => StepModel::ProbeTarget {
                req_path: req_path@,
                file_path: file_path@,
                index: index@,
            },
            Step::Render { req_path, dir } => StepModel::Render { req_path: req_path@, dir: dir@ },
            Step::ProbeFile { path, fallback } => StepModel::ProbeFile {
                path: path@,
                fallback: fallback@,
            },
            Step::ProbeSiblings { path, brotli, gzip } => StepModel::ProbeSiblings {
                path: path@,
                brotli: brotli@,
                gzip: gzip@,
            },
            Step::Measure { shaped } => StepModel::Measure { shaped: shaped@ },
            Step::Read { shaped } => StepModel::Read { shaped: shaped@ },
        }
    }
}

/// What the driver found out.
pub enum Answer {
    /// What stands at the resolved path and at its index file.
    Target(TargetProbe),
    /// The markup of a listing.
    Markup(String),
    /// Whether the file exists, and whether its stand-in does.
    Existence { exists: bool, fallback_exists: bool },
    /// Whether the compressed siblings exist.
    Siblings { brotli: bool, gzip: bool },
    /// The length of the file, or why it could not be opened.
    Length(Result<u64, String>),
    /// What the file holds, unless it could not be read.
    Contents(Option<Vec<u8>>),
}

/// What an answer is, mathematically.
pub enum AnswerModel {
    Target(TargetProbe),
    Markup(Seq<char>),
    Existence { exists: bool, fallback_exists: bool },
    Siblings { brotli: bool, gzip: bool },
    Length(Result<u64, Seq<char>>),
    Contents(Option<Seq<u8>>),
}

impl View for Answer {
    type V = AnswerModel;

    open spec fn view(&self) -> AnswerModel {
        match self {
            Answer::Target(probe) => AnswerModel::Target(*probe),
            Answer::Markup(markup) => AnswerModel::Markup(markup@),
            Answer::Existence { exists, fallback_exists } => AnswerModel::Existence {
                exists: *exists,
                fallback_exists: *fallback_exists,
            },
            Answer::Siblings { brotli, gzip } => AnswerModel::Siblings {
                brotli: *brotli,
                gzip: *gzip,
            },
            Answer::Length(Ok(length)) => AnswerModel::Length(Ok(*length)),
            Answer::Length(Err(why)) => AnswerModel::Length(Err(why@)),
            Answer::Contents(contents) => AnswerModel::Contents(contents_view(*contents)),
        }
    }
}

/// The first step for a request: the response, where the first part of
/// the pipeline settles it, else the question what the request resolves to.
pub open spec fn begun(
    config: &Config,
    uri: Seq<char>,
    path: Seq<char>,
    authorization: Option<Seq<char>>,
) -> StepModel {
    match screened(config, uri, path, authorization) {
        AdmissionModel::Respond { response, log } => StepModel::Respond { response, log },
        AdmissionModel::Resolve { req_path, file_path } => StepModel::ProbeTarget {
            req_path,
            file_path,
            index: joined_path(file_path, "index.html"@),
        },
    }
}

/// The stand-in for a missing file.
pub open spec fn fallback_of(config: &Config) -> Seq<char> {
    joined_path(
        config.serve_dir_abs@,
        if config.spa {
            "index.html"@
        } else {
            "404.html"@
        },
    )
}

/// The step that follows `step` once `answer` is known. A directory is
/// listed unless its index file stands for it; a file that is missing is
/// replaced by its stand-in or ends in status 404; a file that is found is
/// shaped, measured, and then either streamed or read and sent whole. An
/// answer to a question that was not asked changes nothing.
pub open spec fn advanced(config: &Config, uri: Seq<char>, step: StepModel, answer: AnswerModel) -> StepModel {
    match (step, answer) {
        (StepModel::ProbeTarget { req_path, file_path, index }, AnswerModel::Target(probe)) => {
            match target_of(file_path, probe) {
                TargetModel::Listing(dir) => StepModel::Render { req_path, dir },
                TargetModel::File(path) => StepModel::ProbeFile {
                    path,
                    fallback: fallback_of(config),
                },
            }
        },
        (StepModel::Render { req_path, dir }, AnswerModel::Markup(markup)) => StepModel::Respond {
            response: listing_model(config, markup),
            log: None,
        },
        (
            StepModel::ProbeFile { path, fallback },
            AnswerModel::Existence { exists, fallback_exists },
        ) => {
            match located(config, uri, path, exists, fallback, fallback_exists) {
                LocatedModel::Found(found) => StepModel::ProbeSiblings {
                    path: found,
                    brotli: found + ".br"@,
                    gzip: found + ".gz"@,
                },
                LocatedModel::Missing { response, log } => StepModel::Respond {
                    response,
                    log: Some(log),
                },
            }
        },
        (
            StepModel::ProbeSiblings { path, brotli, gzip },
            AnswerModel::Siblings { brotli: br_exists, gzip: gz_exists },
        ) => StepModel::Measure {
            shaped: shaped(config, path, mime_of(guessed_mime(path)), br_exists, gz_exists),
        },
        (StepModel::Measure { shaped }, AnswerModel::Length(Ok(length))) => {
            if is_streamed(shaped.mime, length) {
                StepModel::Respond {
                    response: stream_model(shaped, length),
                    log: Some((200u16, uri)),
                }
            } else {
                StepModel::Read { shaped }
            }
        },
        (StepModel::Measure { shaped }, AnswerModel::Length(Err(why))) => StepModel::Respond {
            response: text_response(500, Seq::empty(), why),
            log: None,
        },
        (StepModel::Read { shaped }, AnswerModel::Contents(contents)) => StepModel::Respond {
            response: buffered_model(config, shaped, contents),
            log: Some((200u16, uri)),
        },
        _ => step,
    }
}

/// Whether `answer` answers the question that `step` asks.
pub open spec fn awaits(step: StepModel, answer: AnswerModel) -> bool {
    match step {
        StepModel::Respond { .. } => false,
        StepModel::ProbeTarget { .. } => answer is Target,
        StepModel::Render { .. } => answer is Markup,
        StepModel::ProbeFile { .. } => answer is Existence,
        StepModel::ProbeSiblings { .. } => answer is Siblings,
        StepModel::Measure { .. } => answer is Length,
        StepModel::Read { .. } => answer is Contents,
    }
}

/// How many answers a step may still need before the response is settled.
pub open spec fn distance(step: StepModel) -> nat {
    match step {
        StepModel::Respond { .. } => 0,
        StepModel::Read { .. } => 1,
        StepModel::Render { .. } => 1,
        StepModel::Measure { .. } => 2,
        StepModel::ProbeSiblings { .. } => 3,
        StepModel::ProbeFile { .. } => 4,
        StepModel::ProbeTarget { .. } => 5,
    }
}

/// Every awaited answer brings the response nearer, so five answers settle
/// any request; an answer that was not awaited leaves the step as it is.
pub proof fn lemma_advance_settles(
    config: &Config,
    uri: Seq<char>,
    step: StepModel,
    answer: AnswerModel,
)
    ensures
        awaits(step, answer) ==> distance(advanced(config, uri, step, answer)) < distance(step),
        !awaits(step, answer) ==> advanced(config, uri, step, answer) == step,
        distance(step) <= 5,
{
}

/// Takes the first step for a request.
pub fn begin(config: &Config, request: &Request) -> (step: Step)
    ensures
        step@ == begun(
            config,
            request.uri@,
            request.path@,
            match request.authorization {
                Some(header) => Some(header@),
                None => None,
            },
        ),
{
    match screen(config, request) {
        Admission::Respond { response, log } => Step::Respond { response, log },
        Admission::Resolve { req_path, file_path } => {
            let index = index_path(file_path.as_str());
            Step::ProbeTarget { req_path, file_path, index }
        },
    }
}

/// Takes the step that follows `step` once `answer` is known, for the
/// request whose target is `uri`.
pub fn advance(config: &Config, uri: &str, step: Step, answer: Answer) -> (next: Step)
    ensures
        next@ == advanced(config, uri@, step@, answer@),
{
    match step {
        Step::Respond { response, log } => Step::Respond { response, log },
        Step::ProbeTarget { req_path, file_path, index } => match answer {
            Answer::Target(probe) => match choose_target(file_path, &probe) {
                Target::Listing(dir) => Step::Render { req_path, dir },
                Target::File(path) => Step::ProbeFile { path, fallback: fallback_path(config) },
            },
            _ => Step::ProbeTarget { req_path, file_path, index },
        },
        Step::Render { req_path, dir } => match answer {
            Answer::Markup(markup) => Step::Respond {
                response: listing_response(config, markup.as_str()),
                log: None,
            },
            _ => Step::Render { req_path, dir },
        },
        Step::ProbeFile { path, fallback } => match answer {
            Answer::Existence { exists, fallback_exists } => {
                match locate(config, uri, path, exists, fallback, fallback_exists) {
                    Located::Found(found) => {
                        let brotli = brotli_sibling(found.as_str());
                        let gzip = gzip_sibling(found.as_str());
                        Step::ProbeSiblings { path: found, brotli, gzip }
                    },
                    Located::Missing { response, log } => Step::Respond {
                        response,
                        log: Some(log),
                    },
                }
            },
            _ => Step::ProbeFile { path, fallback },
        },
        Step::ProbeSiblings { path, brotli, gzip } => match answer {
            Answer::Siblings { brotli: br_exists, gzip: gz_exists } => Step::Measure {
                shaped: shape(config, path, br_exists, gz_exists),
            },
            _ => Step::ProbeSiblings { path, brotli, gzip },
        },
        Step::Measure { shaped } => match answer {
            Answer::Length(Ok(length)) => {
                if streams(shaped.mime.as_str(), length) {
                    Step::Respond {
                        response: stream_response(shaped, length),
                        log: Some(served_line(uri)),
                    }
                } else {
                    Step::Read { shaped }
                }
            },
            Answer::Length(Err(why)) => Step::Respond {
                response: handle_error(why.as_str()),
                log: None,
            },
            _ => Step::Measure { shaped },
        },
        Step::Read { shaped } => match answer {
            Answer::Contents(contents) => Step::Respond {
                response: buffered_response(config, shaped, contents),
                log: Some(served_line(uri)),
            },
            _ => Step::Read { shaped },
        },
    }
}

} // verus!

//! The request pipeline: an ordered run of decisions of which the first
//! that matches settles the response. The pipeline touches neither disk nor
//! network; whoever drives it answers its questions about the file system
//! and carries out the response it settles on.

use crate::auth::authorize;
use crate::auth::verdict;
use crate::auth::Verdict;
use crate::config::Config;
use crate::explorer::reload_script;
use crate::explorer::RELOAD_SCRIPT;
use crate::http1::handle_error;
use crate::http1::header_lines;
use crate::http1::text_response;
use crate::http1::Body;
use crate::http1::BodyModel;
use crate::http1::Header;
use crate::http1::ResponseDescriptor;
use crate::http1::ResponseModel;
use crate::http1::Source;
use crate::paths::resolve;
use crate::paths::resolved;
use crate::paths::within_root;
use crate::text::same_text;
use crate::text::strip_leading;
use crate::text::without_leading;
use vstd::prelude::*;

verus! {

/// What the pipeline reads of a request.
pub struct Request {
    /// The target as the client sent it, for the log.
    pub uri: String,
    /// The path of the target, still percent-encoded.
    pub path: String,
    /// The value of the `Authorization` header, if the request has one.
    pub authorization: Option<String>,
}

/// One line for the log: the status of a terminal outcome and the target.
pub struct LogLine {
    pub status: u16,
    pub uri: String,
}

impl View for LogLine {
    type V = (u16, Seq<char>);

    open spec fn view(&self) -> (u16, Seq<char>) {
        (self.status, self.uri@)
    }
}

/// The log line behind an optional one.
pub open spec fn log_view(log: Option<LogLine>) -> Option<(u16, Seq<char>)> {
    match log {
        Some(line) => Some(line@),
        None => None,
    }
}

/// How the first part of the pipeline ends.
pub enum Admission {
    /// The response is settled.
    Respond { response: ResponseDescriptor, log: Option<LogLine> },
    /// The request asks for `req_path`, which resolves to `file_path`
    /// inside the served directory.
    Resolve { req_path: String, file_path: String },
}

/// What an admission is, mathematically.
pub enum AdmissionModel {
    Respond { response: ResponseModel, log: Option<(u16, Seq<char>)> },
    Resolve { req_path: Seq<char>, file_path: Seq<char> },
}

impl View for Admission {
    type V = AdmissionModel;

    open spec fn view(&self) -> AdmissionModel {
        match self {
            Admission::Respond { response, log } => AdmissionModel::Respond {
                response: response@,
                log: log_view(*log),
            },
            Admission::Resolve { req_path, file_path } => AdmissionModel::Resolve {
                req_path: req_path@,
                file_path: file_path@,
            },
        }
    }
}

/// What `urlencoding::decode` makes of `raw`: the decoded text, or the
/// description of why the decoded bytes are no text.
pub uninterp spec fn percent_decoded(raw: Seq<char>) -> Result<Seq<char>, Seq<char>>;

/// Calls `decode` of the urlencoding crate, which replaces each `%XX` by
/// the byte it stands for and fails where the bytes are not UTF-8; the
/// failure is kept as its description. The result is named, not described.
#[verifier::external_body]
fn percent_decode(raw: &str) -> (decoded: Result<String, String>)
    ensures
        match decoded {
            Ok(text) => percent_decoded(raw@) == Ok::<_, Seq<char>>(text@),
            Err(why) => percent_decoded(raw@) == Err::<Seq<char>, _>(why@),
        },
{
    match urlencoding::decode(raw) {
        Ok(text) => Ok(text.into_owned()),
        Err(why) => Err(why.to_string()),
    }
}

/// The headers of the event stream.
pub open spec fn event_stream_headers() -> Seq<(Seq<char>, Seq<char>)> {
    seq![
        ("X-Accel-Buffering"@, "no"@),
        ("Content-Type"@, "text/event-stream; charset=UTF-8"@),
        ("Cache-Control"@, "no-cache"@),
        ("Connection"@, "keep-alive"@),
    ]
}

/// Where a request for the decoded path `req_path` goes: to one of the two
/// reserved endpoints, else into the served directory if it stays inside,
/// else nowhere.
pub open spec fn routed(config: &Config, uri: Seq<char>, req_path: Seq<char>) -> AdmissionModel {
    if req_path == ".http-server-rs/reload.js"@ {
        if config.watch {
            AdmissionModel::Respond {
                response: text_response(
                    200,
                    seq![("Content-Type"@, "application/javascript; charset=UTF-8"@)],
                    RELOAD_SCRIPT@,
                ),
                log: None,
            }
        } else {
            AdmissionModel::Respond {
                response: text_response(404, Seq::empty(), "Watcher not running"@),
                log: None,
            }
        }
    } else if req_path == ".http-server-rs/reload"@ {
        if config.watch {
            AdmissionModel::Respond {
                response: ResponseModel {
                    status: 200,
                    headers: event_stream_headers(),
                    body: BodyModel::ChangeEvents,
                },
                log: None,
            }
        } else {
            AdmissionModel::Respond {
                response: text_response(404, Seq::empty(), "Watcher not running"@),
                log: None,
            }
        }
    } else if within_root(config.serve_dir_abs@, resolved(config.serve_dir_abs@, req_path)) {
        AdmissionModel::Resolve {
            req_path,
            file_path: resolved(config.serve_dir_abs@, req_path),
        }
    } else {
        AdmissionModel::Respond {
            response: text_response(403, Seq::empty(), "Not allowed"@),
            log: Some((403u16, uri)),
        }
    }
}

/// What the pipeline does with a granted request, for each outcome of
/// decoding its path.
pub open spec fn decoded_route(
    config: &Config,
    uri: Seq<char>,
    decoded: Result<Seq<char>, Seq<char>>,
) -> AdmissionModel {
    match decoded {
        Ok(text) => routed(config, uri, without_leading(text, '/')),
        Err(why) => AdmissionModel::Respond {
            response: text_response(500, Seq::empty(), why),
            log: None,
        },
    }
}

/// How the first part of the pipeline ends for a request.
pub open spec fn screened(
    config: &Config,
    uri: Seq<char>,
    path: Seq<char>,
    authorization: Option<Seq<char>>,
) -> AdmissionModel {
    match verdict(config.basic_auth@, authorization) {
        Verdict::Challenge => AdmissionModel::Respond {
            response: text_response(
                401,
                seq![("WWW-Authenticate"@, "Basic realm=\"http-server-rs\""@)],
                ""@,
            ),
            log: None,
        },
        Verdict::Denied => AdmissionModel::Respond {
            response: text_response(403, Seq::empty(), ""@),
            log: None,
        },
        Verdict::Granted => decoded_route(config, uri, percent_decoded(path)),
    }
}

/// A response with a body of text and no headers.
fn plain(status: u16, body: &str) -> (response: ResponseDescriptor)
    ensures
        response@ == text_response(status, Seq::empty(), body@),
{
    let response = ResponseDescriptor::text(status, Vec::new(), body);
    assert(header_lines(Seq::<Header>::empty()) =~= Seq::empty());
    response
}

/// A response with a body of text and one header.
fn plain_with(status: u16, name: &str, value: &str, body: &str) -> (response: ResponseDescriptor)
    ensures
        response@ == text_response(status, seq![(name@, value@)], body@),
{
    let mut headers: Vec<Header> = Vec::new();
    headers.push(Header::new(name, value));
    assert(header_lines(headers@) =~= seq![(name@, value@)]);
    ResponseDescriptor::text(status, headers, body)
}

/// Routes a request whose path is decoded and stripped of its leading
/// separator. The two reserved paths are answered at once: the reload
/// script, and the event stream, both only while the watcher runs. Any
/// other path is resolved against the served directory and turned away
/// with status 403 if it leaves it.
pub fn route(config: &Config, uri: &str, req_path: &str) -> (admission: Admission)
    ensures
        admission@ == routed(config, uri@, req_path@),
{
    if same_text(req_path, ".http-server-rs/reload.js") {
        if !config.watch {
            return Admission::Respond { response: plain(404, "Watcher not running"), log: None };
        }
        return Admission::Respond {
            response: plain_with(
                200,
                "Content-Type",
                "application/javascript; charset=UTF-8",
                reload_script(),
            ),
            log: None,
        };
    }
    if same_text(req_path, ".http-server-rs/reload") {
        if !config.watch {
            return Admission::Respond { response: plain(404, "Watcher not running"), log: None };
        }
        let mut headers: Vec<Header> = Vec::new();
        headers.push(Header::new("X-Accel-Buffering", "no"));
        headers.push(Header::new("Content-Type", "text/event-stream; charset=UTF-8"));
        headers.push(Header::new("Cache-Control", "no-cache"));
        headers.push(Header::new("Connection", "keep-alive"));
        assert(header_lines(headers@) =~= event_stream_headers());
        return Admission::Respond {
            response: ResponseDescriptor {
                status: 200,
                headers,
                body: Body::Streamed(Source::ChangeEvents),
            },
            log: None,
        };
    }
    match resolve(config.serve_dir_abs.as_str(), req_path) {
        Some(file_path) => Admission::Resolve { req_path: req_path.to_owned(), file_path },
        None => Admission::Respond {
            response: plain(403, "Not allowed"),
            log: Some(LogLine { status: 403, uri: uri.to_owned() }),
        },
    }
}

/// Goes on with a granted request once its path went through the decoder:
/// a path that does not decode ends in status 500 with the decoder's
/// words, any other is stripped of one leading separator and routed.
pub fn route_decoded(config: &Config, uri: &str, decoded: Result<String, String>) -> (admission:
    Admission)
    ensures
        admission@ == decoded_route(
            config,
            uri@,
            match decoded {
                Ok(text) => Ok(text@),
                Err(why) => Err(why@),
            },
        ),
{
    match decoded {
        Ok(text) => {
            let req_path = strip_leading(text.as_str(), '/');
            route(config, uri, req_path.as_str())
        },
        Err(why) => Admission::Respond { response: handle_error(why.as_str()), log: None },
    }
}

/// The first part of the pipeline: authentication, decoding of the path,
/// the reserved endpoints and the security boundary, in this order.
pub fn screen(config: &Config, request: &Request) -> (admission: Admission)
    ensures
        admission@ == screened(
            config,
            request.uri@,
            request.path@,
            match request.authorization {
                Some(header) => Some(header@),
                None => None,
            },
        ),
{
    let authorization: Option<&str> = match &request.authorization {
        Some(header) => Some(header.as_str()),
        None => None,
    };
    match authorize(&config.basic_auth, authorization) {
        Verdict::Challenge => Admission::Respond {
            response: plain_with(401, "WWW-Authenticate", "Basic realm=\"http-server-rs\"", ""),
            log: None,
        },
        Verdict::Denied => Admission::Respond { response: plain(403, ""), log: None },
        Verdict::Granted => route_decoded(
            config,
            request.uri.as_str(),
            percent_decode(request.path.as_str()),
        ),
    }
}

/// The security boundary: whatever the request, the first part of the
/// pipeline passes a path on to the file system only if that path, once
/// normalized, lies at or below the served directory; and a path that is
/// not reserved and leaves the directory is answered with status 403.
pub proof fn lemma_resolved_paths_stay_inside(
    config: &Config,
    uri: Seq<char>,
    path: Seq<char>,
    authorization: Option<Seq<char>>,
    req_path: Seq<char>,
)
    ensures
        screened(config, uri, path, authorization) matches AdmissionModel::Resolve {
            file_path,
            ..
        } ==> within_root(config.serve_dir_abs@, file_path),
        routed(config, uri, req_path) matches AdmissionModel::Resolve { file_path, .. }
            ==> within_root(config.serve_dir_abs@, file_path),
        req_path != ".http-server-rs/reload.js"@ && req_path != ".http-server-rs/reload"@
            && !within_root(config.serve_dir_abs@, resolved(config.serve_dir_abs@, req_path))
            ==> routed(config, uri, req_path) == (AdmissionModel::Respond {
            response: text_response(403, Seq::empty(), "Not allowed"@),
            log: Some((403u16, uri)),
        }),
{
}

} // verus!

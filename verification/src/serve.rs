//! The second part of the request pipeline: from a path inside the served
//! directory to the response, by way of the answers that the file system
//! gave to whoever drives the pipeline.

use crate::compress::brotli;
use crate::compress::brotli_stream;
use crate::config::configured_lines;
use crate::config::Config;
use crate::explorer::inject;
use crate::explorer::injected;
use crate::explorer::reload_script;
use crate::explorer::RELOAD_SCRIPT;
use crate::handler::LogLine;
use crate::http1::header_lines;
use crate::http1::text_response;
use crate::http1::Body;
use crate::http1::BodyModel;
use crate::http1::Header;
use crate::http1::ResponseDescriptor;
use crate::http1::ResponseModel;
use crate::http1::Source;
use crate::paths::guess_mime;
use crate::paths::guessed_mime;
use crate::paths::join;
use crate::paths::joined_path;
use crate::text::chars_of;
use crate::text::catenate;
use crate::text::decimal;
use crate::text::decimal_text;
use crate::text::has_prefix;
use crate::text::same_but_case;
use crate::text::same_text_ignoring_case;
use crate::text::starts_with;
use crate::text::text_from_utf8;
use crate::text::utf8_refusal;
use crate::http1::handle_error;
use vstd::prelude::*;
use vstd::utf8::valid_utf8;

verus! {

/// Files above this many bytes are streamed.
pub const STREAM_THRESHOLD: u64 = 500_000;

/// What the request resolves to.
pub enum Target {
    /// A directory, to be listed.
    Listing(String),
    /// A file, to be served if it exists.
    File(String),
}

/// What a target is, mathematically.
pub enum TargetModel {
    Listing(Seq<char>),
    File(Seq<char>),
}

impl View for Target {
    type V = TargetModel;

    open spec fn view(&self) -> TargetModel {
        match self {
            Target::Listing(path) => TargetModel::Listing(path@),
            Target::File(path) => TargetModel::File(path@),
        }
    }
}

/// What the file system says of a resolved path and of the index file that
/// may stand in it.
pub struct TargetProbe {
    /// The path is a directory.
    pub is_dir: bool,
    /// The index file exists.
    pub index_exists: bool,
    /// What stands at the index file's place is itself a directory.
    pub index_is_dir: bool,
}

/// The place of the index file of the directory `dir`.
pub fn index_path(dir: &str) -> (path: String)
    ensures
        path@ == joined_path(dir@, "index.html"@),
{
    join(dir, "index.html")
}

/// The target of a request: a directory with an index file stands for that
/// file; what is then still a directory is listed.
pub open spec fn target_of(file_path: Seq<char>, probe: TargetProbe) -> TargetModel {
    if probe.is_dir && probe.index_exists {
        if probe.index_is_dir {
            TargetModel::Listing(joined_path(file_path, "index.html"@))
        } else {
            TargetModel::File(joined_path(file_path, "index.html"@))
        }
    } else if probe.is_dir {
        TargetModel::Listing(file_path)
    } else {
        TargetModel::File(file_path)
    }
}

/// Settles the target of a request from what the file system said.
pub fn choose_target(file_path: String, probe: &TargetProbe) -> (target: Target)
    ensures
        target@ == target_of(file_path@, *probe),
{
    if probe.is_dir && probe.index_exists {
        let index = index_path(file_path.as_str());
        if probe.index_is_dir {
            Target::Listing(index)
        } else {
            Target::File(index)
        }
    } else if probe.is_dir {
        Target::Listing(file_path)
    } else {
        Target::File(file_path)
    }
}

/// The body of a listing: the markup, followed by the reload script on a
/// line of its own while the watcher runs.
pub open spec fn listing_body(config: &Config, markup: Seq<char>) -> Seq<char> {
    if config.watch {
        markup + "\n<script>"@ + RELOAD_SCRIPT@ + "</script>"@
    } else {
        markup
    }
}

/// The response that carries a directory listing.
pub open spec fn listing_model(config: &Config, markup: Seq<char>) -> ResponseModel {
    text_response(
        200,
        configured_lines(config.headers@).push(("Content-Type"@, "text/html;charset=UTF-8"@)),
        listing_body(config, markup),
    )
}

/// Wraps the markup of a directory listing into a response: the configured
/// headers, the HTML content type, and the reload script behind the markup
/// while the watcher runs.
pub fn listing_response(config: &Config, markup: &str) -> (response: ResponseDescriptor)
    ensures
        response@ == listing_model(config, markup@),
{
    let mut headers: Vec<Header> = Vec::new();
    assert(header_lines(headers@) =~= Seq::empty());
    config.merge_headers(&mut headers);
    let ghost merged = header_lines(headers@);
    headers.push(Header::new("Content-Type", "text/html;charset=UTF-8"));
    assert(header_lines(headers@) =~= merged.push(
        ("Content-Type"@, "text/html;charset=UTF-8"@),
    ));
    assert(merged =~= configured_lines(config.headers@));
    if config.watch {
        let mut body = catenate(markup, "\n<script>");
        body.append(reload_script());
        body.append("</script>");
        ResponseDescriptor::text(200, headers, body.as_str())
    } else {
        ResponseDescriptor::text(200, headers, markup)
    }
}

/// The place of the document that stands in for a missing file: the root
/// index in single-page mode, else the root's `404.html`.
pub fn fallback_path(config: &Config) -> (path: String)
    ensures
        path@ == joined_path(
            config.serve_dir_abs@,
            if config.spa {
                "index.html"@
            } else {
                "404.html"@
            },
        ),
{
    if config.spa {
        join(config.serve_dir_abs.as_str(), "index.html")
    } else {
        join(config.serve_dir_abs.as_str(), "404.html")
    }
}

/// How the search for the file to serve ends.
pub enum Located {
    /// The file to serve.
    Found(String),
    /// Neither the file nor its stand-in exists.
    Missing { response: ResponseDescriptor, log: LogLine },
}

/// What the end of the search is, mathematically.
pub enum LocatedModel {
    Found(Seq<char>),
    Missing { response: ResponseModel, log: (u16, Seq<char>) },
}

impl View for Located {
    type V = LocatedModel;

    open spec fn view(&self) -> LocatedModel {
        match self {
            Located::Found(path) => LocatedModel::Found(path@),
            Located::Missing { response, log } => LocatedModel::Missing {
                response: response@,
                log: log@,
            },
        }
    }
}

/// The file to serve: the one asked for if it exists, else the stand-in if
/// that exists, else none, which ends in status 404.
pub open spec fn located(
    config: &Config,
    uri: Seq<char>,
    file_path: Seq<char>,
    exists: bool,
    fallback: Seq<char>,
    fallback_exists: bool,
) -> LocatedModel {
    if exists {
        LocatedModel::Found(file_path)
    } else if fallback_exists {
        LocatedModel::Found(fallback)
    } else {
        LocatedModel::Missing {
            response: text_response(404, configured_lines(config.headers@), "File not found"@),
            log: (404u16, uri),
        }
    }
}

/// Settles the file to serve from what the file system said of the file
/// asked for and of `fallback`, its stand-in.
pub fn locate(
    config: &Config,
    uri: &str,
    file_path: String,
    exists: bool,
    fallback: String,
    fallback_exists: bool,
) -> (found: Located)
    ensures
        found@ == located(config, uri@, file_path@, exists, fallback@, fallback_exists),
{
    if exists {
        Located::Found(file_path)
    } else if fallback_exists {
        Located::Found(fallback)
    } else {
        let mut headers: Vec<Header> = Vec::new();
        assert(header_lines(headers@) =~= Seq::empty());
        config.merge_headers(&mut headers);
        assert(header_lines(headers@) =~= configured_lines(config.headers@));
        Located::Missing {
            response: ResponseDescriptor::text(404, headers, "File not found"),
            log: LogLine { status: 404, uri: uri.to_owned() },
        }
    }
}

/// What the pipeline knows of the file it is about to serve.
pub struct Shaped {
    /// The file to read: the one located, or its compressed sibling.
    pub path: String,
    /// The media type of the file located, empty if unknown.
    pub mime: String,
    /// The headers settled so far.
    pub headers: Vec<Header>,
}

/// What the shaping yields, mathematically.
pub struct ShapedModel {
    pub path: Seq<char>,
    pub mime: Seq<char>,
    pub headers: Seq<(Seq<char>, Seq<char>)>,
}

impl View for Shaped {
    type V = ShapedModel;

    open spec fn view(&self) -> ShapedModel {
        ShapedModel { path: self.path@, mime: self.mime@, headers: header_lines(self.headers@) }
    }
}

/// Whether a media type is text whose character set the server declares.
pub open spec fn declares_charset(mime: Seq<char>) -> bool {
    has_prefix(mime, "text/"@) || has_prefix(mime, "application/javascript"@) || has_prefix(
        mime,
        "application/json"@,
    )
}

/// The content type sent for a media type.
pub open spec fn content_type(mime: Seq<char>) -> Seq<char> {
    if declares_charset(mime) {
        mime + "; charset=UTF-8"@
    } else {
        mime
    }
}

/// The headers of a file response before its body is chosen: those
/// configured, the content type if the media type is known, and the
/// encoding of a compressed sibling that is served in the file's place.
pub open spec fn shaped_headers(config: &Config, mime: Seq<char>, br_exists: bool, gz_exists: bool) -> Seq<
    (Seq<char>, Seq<char>),
> {
    let typed = if mime.len() == 0 {
        configured_lines(config.headers@)
    } else {
        configured_lines(config.headers@).push(("Content-Type"@, content_type(mime)))
    };
    if !config.compress && br_exists {
        typed.push(("Content-Encoding"@, "br"@))
    } else if !config.compress && gz_exists {
        typed.push(("Content-Encoding"@, "gzip"@))
    } else {
        typed
    }
}

/// What the shaping yields for a file with the given media type: unless
/// the server compresses by itself, a brotli sibling is served in the
/// file's place, else a gzip sibling.
pub open spec fn shaped(
    config: &Config,
    path: Seq<char>,
    mime: Seq<char>,
    br_exists: bool,
    gz_exists: bool,
) -> ShapedModel {
    ShapedModel {
        path: if !config.compress && br_exists {
            path + ".br"@
        } else if !config.compress && gz_exists {
            path + ".gz"@
        } else {
            path
        },
        mime,
        headers: shaped_headers(config, mime, br_exists, gz_exists),
    }
}

/// The place of the brotli sibling of the file at `path`.
pub fn brotli_sibling(path: &str) -> (sibling: String)
    ensures
        sibling@ == path@ + ".br"@,
{
    catenate(path, ".br")
}

/// The place of the gzip sibling of the file at `path`.
pub fn gzip_sibling(path: &str) -> (sibling: String)
    ensures
        sibling@ == path@ + ".gz"@,
{
    catenate(path, ".gz")
}

/// The content type sent for a media type.
fn content_type_of(mime: &str) -> (value: String)
    ensures
        value@ == content_type(mime@),
{
    let chars = chars_of(mime);
    let text = chars_of("text/");
    let script = chars_of("application/javascript");
    let json = chars_of("application/json");
    if starts_with(&chars, &text) || starts_with(&chars, &script) || starts_with(&chars, &json) {
        catenate(mime, "; charset=UTF-8")
    } else {
        mime.to_owned()
    }
}

/// Shapes the response for the file at `path`, whose media type is `mime`
/// (empty if unknown), given whether its compressed siblings exist.
pub fn shape_with(config: &Config, path: String, mime: String, br_exists: bool, gz_exists: bool) -> (out:
    Shaped)
    ensures
        out@ == shaped(config, path@, mime@, br_exists, gz_exists),
{
    let mut headers: Vec<Header> = Vec::new();
    assert(header_lines(headers@) =~= Seq::empty());
    config.merge_headers(&mut headers);
    assert(header_lines(headers@) =~= configured_lines(config.headers@));
    if mime.as_str().unicode_len() != 0 {
        let ghost before = header_lines(headers@);
        let value = content_type_of(mime.as_str());
        headers.push(Header::new("Content-Type", value.as_str()));
        assert(header_lines(headers@) =~= before.push(("Content-Type"@, content_type(mime@))));
    }
    let ghost typed = header_lines(headers@);
    if !config.compress && br_exists {
        headers.push(Header::new("Content-Encoding", "br"));
        assert(header_lines(headers@) =~= typed.push(("Content-Encoding"@, "br"@)));
        Shaped { path: brotli_sibling(path.as_str()), mime, headers }
    } else if !config.compress && gz_exists {
        headers.push(Header::new("Content-Encoding", "gzip"));
        assert(header_lines(headers@) =~= typed.push(("Content-Encoding"@, "gzip"@)));
        Shaped { path: gzip_sibling(path.as_str()), mime, headers }
    } else {
        Shaped { path, mime, headers }
    }
}

/// The media type behind a guess: the empty text where there is none.
pub open spec fn mime_of(guess: Option<Seq<char>>) -> Seq<char> {
    match guess {
        Some(mime) => mime,
        None => Seq::empty(),
    }
}

/// Shapes the response for the file at `path`: infers its media type from
/// its name and goes on as `shape_with` does.
pub fn shape(config: &Config, path: String, br_exists: bool, gz_exists: bool) -> (out: Shaped)
    ensures
        out@ == shaped(config, path@, mime_of(guessed_mime(path@)), br_exists, gz_exists),
{
    let mime = match guess_mime(path.as_str()) {
        Some(mime) => mime,
        None => String::new(),
    };
    shape_with(config, path, mime, br_exists, gz_exists)
}

/// Whether a file of the given media type and length is streamed: any but
/// an HTML document, once it is longer than the threshold.
pub open spec fn is_streamed(mime: Seq<char>, length: u64) -> bool {
    !has_prefix(mime, "text/html"@) && length > STREAM_THRESHOLD
}

/// Decides between a streamed and a complete body.
pub fn streams(mime: &str, length: u64) -> (streamed: bool)
    ensures
        streamed == is_streamed(mime@, length),
{
    let chars = chars_of(mime);
    let html = chars_of("text/html");
    !starts_with(&chars, &html) && length > STREAM_THRESHOLD
}

/// The log line of a file that is served.
pub fn served_line(uri: &str) -> (line: LogLine)
    ensures
        line@ == (200u16, uri@),
{
    LogLine { status: 200, uri: uri.to_owned() }
}

/// The response that streams a file of `length` bytes.
pub open spec fn stream_model(shaped: ShapedModel, length: u64) -> ResponseModel {
    ResponseModel {
        status: 200,
        headers: shaped.headers.push(("Connection"@, "keep-alive"@)).push(
            ("Content-Length"@, decimal_text(length as nat)),
        ),
        body: BodyModel::File { path: shaped.path, length },
    }
}

/// Settles on a streamed response for a file of `length` bytes: the
/// headers so far, `Connection` and `Content-Length`, and the file as the
/// source of the body, which is copied as it is.
pub fn stream_response(shaped: Shaped, length: u64) -> (response: ResponseDescriptor)
    ensures
        response@ == stream_model(shaped@, length),
{
    let Shaped { path, mime: _, headers } = shaped;
    let mut headers = headers;
    let ghost before = header_lines(headers@);
    headers.push(Header::new("Connection", "keep-alive"));
    let digits = decimal(length);
    headers.push(Header::new("Content-Length", digits.as_str()));
    assert(header_lines(headers@) =~= before.push(("Connection"@, "keep-alive"@)).push(
        ("Content-Length"@, decimal_text(length as nat)),
    ));
    ResponseDescriptor { status: 200, headers, body: Body::Streamed(Source::File { path, length }) }
}

/// The value of the first header at or after place `from` whose name is
/// `name` but for the case of its letters.
pub open spec fn header_value_from(
    headers: Seq<(Seq<char>, Seq<char>)>,
    name: Seq<char>,
    from: int,
) -> Option<Seq<char>>
    decreases headers.len() - from,
{
    if from < 0 || from >= headers.len() {
        None
    } else if same_but_case(headers[from].0, name) {
        Some(headers[from].1)
    } else {
        header_value_from(headers, name, from + 1)
    }
}

/// Whether the headers declare an HTML document.
pub open spec fn declares_html(headers: Seq<(Seq<char>, Seq<char>)>) -> bool {
    match header_value_from(headers, "Content-Type"@, 0) {
        Some(value) => has_prefix(value, "text/html"@),
        None => false,
    }
}

/// Whether the headers declare an HTML document.
fn is_html(headers: &Vec<Header>) -> (yes: bool)
    ensures
        yes == declares_html(header_lines(headers@)),
{
    let ghost lines = header_lines(headers@);
    let mut i: usize = 0;
    while i < headers.len()
        invariant
            i <= headers@.len(),
            lines == header_lines(headers@),
            header_value_from(lines, "Content-Type"@, 0) == header_value_from(
                lines,
                "Content-Type"@,
                i as int,
            ),
        decreases headers@.len() - i,
    {
        if same_text_ignoring_case(headers[i].name.as_str(), "Content-Type") {
            let value = chars_of(headers[i].value.as_str());
            let html = chars_of("text/html");
            assert(lines[i as int] == headers@[i as int]@);
            return starts_with(&value, &html);
        }
        assert(lines[i as int] == headers@[i as int]@);
        i = i + 1;
    }
    false
}

/// Whether the reload script goes into the body: the watcher runs,
/// injection is not switched off, and the headers declare HTML.
pub open spec fn injects(config: &Config, headers: Seq<(Seq<char>, Seq<char>)>) -> bool {
    config.watch && !config.no_watch_inject && declares_html(headers)
}

/// The response with a complete body, for each outcome of reading the
/// file. A file that cannot be read ends in status 500. The reload script
/// goes into HTML documents, which must then be UTF-8. A server that
/// compresses by itself sends the body as brotli and says so.
pub open spec fn buffered_model(config: &Config, shaped: ShapedModel, contents: Option<Seq<u8>>) -> ResponseModel {
    match contents {
        None => text_response(500, shaped.headers, "Unable to open file"@),
        Some(bytes) => if injects(config, shaped.headers) && !valid_utf8(bytes) {
            text_response(500, Seq::empty(), utf8_refusal(bytes))
        } else {
            let body = if injects(config, shaped.headers) {
                injected(bytes, RELOAD_SCRIPT@)
            } else {
                bytes
            };
            if config.compress {
                ResponseModel {
                    status: 200,
                    headers: shaped.headers.push(("Content-Encoding"@, "br"@)),
                    body: BodyModel::Buffered(brotli_stream(body)),
                }
            } else {
                ResponseModel { status: 200, headers: shaped.headers, body: BodyModel::Buffered(body) }
            }
        },
    }
}

/// The bytes behind what was read.
pub open spec fn contents_view(contents: Option<Vec<u8>>) -> Option<Seq<u8>> {
    match contents {
        Some(bytes) => Some(bytes@),
        None => None,
    }
}

/// Settles on a response with a complete body from what reading the file
/// gave: `None` where it could not be read.
pub fn buffered_response(config: &Config, shaped: Shaped, contents: Option<Vec<u8>>) -> (response:
    ResponseDescriptor)
    ensures
        response@ == buffered_model(config, shaped@, contents_view(contents)),
{
    let Shaped { path: _, mime: _, headers } = shaped;
    let mut headers = headers;
    let bytes = match contents {
        None => {
            return ResponseDescriptor::text(500, headers, "Unable to open file");
        },
        Some(bytes) => bytes,
    };
    let body = if config.watch && !config.no_watch_inject && is_html(&headers) {
        match text_from_utf8(vstd::slice::slice_to_vec(bytes.as_slice())) {
            Ok(_) => inject(bytes.as_slice(), reload_script()),
            Err(why) => {
                return handle_error(why.as_str());
            },
        }
    } else {
        bytes
    };
    if config.compress {
        let ghost before = header_lines(headers@);
        headers.push(Header::new("Content-Encoding", "br"));
        assert(header_lines(headers@) =~= before.push(("Content-Encoding"@, "br"@)));
        ResponseDescriptor::buffered(200, headers, brotli(body.as_slice()))
    } else {
        ResponseDescriptor::buffered(200, headers, body)
    }
}

} // verus!

use vstd::prelude::*;
use crate::charset::{body_label, decode_body, decoded};
use crate::content::{declared_type, get_content_type, ContentType};
use crate::headers::{headers_text, headers_to_string, views};
use crate::message::{
    request_headers, request_line, request_line_bytes, status_line, status_line_bytes,
    synthesize_headers, Request, Response,
};
use crate::text::{append_bytes, contains_nul, has_nul};

verus! {

/// Which of formatting and coloring is on.
#[derive(Clone, Copy, PartialEq, Eq, Structural, Debug)]
pub enum Pretty {
    All,
    Colors,
    Format,
    Off,
}

impl Pretty {
    pub open spec fn spec_color(self) -> bool {
        self == Pretty::All || self == Pretty::Colors
    }

    pub open spec fn spec_format(self) -> bool {
        self == Pretty::All || self == Pretty::Format
    }

    /// Whether output is colored.
    #[verifier::when_used_as_spec(spec_color)]
    pub fn color(self) -> (r: bool)
        ensures
            r == self.spec_color(),
    {
        match self {
            Pretty::All | Pretty::Colors => true,
            _ => false,
        }
    }

    /// Whether JSON is reindented and headers are sorted.
    #[verifier::when_used_as_spec(spec_format)]
    pub fn format(self) -> (r: bool)
        ensures
            r == self.spec_format(),
    {
        match self {
            Pretty::All | Pretty::Format => true,
            _ => false,
        }
    }
}

/// The color theme of the highlighter.
#[derive(Clone, Copy, PartialEq, Eq, Structural, Debug)]
pub enum Theme {
    Auto,
    Solarized,
    Monokai,
}

/// Where output goes.
#[derive(Clone, Copy, PartialEq, Eq, Structural, Debug)]
pub enum BufferKind {
    Stdout,
    Stderr,
    File,
    Redirect,
}

/// The syntaxes that the highlighter is asked for.
#[derive(Clone, Copy, PartialEq, Eq, Structural, Debug)]
pub enum Syntax {
    Json,
    Xml,
    Html,
    Http,
}

/// How a piece of output reaches the sink.
#[derive(Clone, Copy, PartialEq, Eq, Structural, Debug)]
pub enum Render {
    /// Written as it is.
    Plain,
    /// Through one highlighting session for the syntax, finished after the text.
    Highlight(Syntax),
    /// Through the JSON reformatter, straight to the sink.
    Reformat,
    /// Through the JSON reformatter, then highlighted as JSON.
    ReformatHighlight,
}

/// One piece of output: its text and how it is rendered.
pub struct Piece {
    pub render: Render,
    pub text: Vec<u8>,
}

impl View for Piece {
    type V = (Render, Seq<u8>);

    open spec fn view(&self) -> (Render, Seq<u8>) {
        (self.render, self.text@)
    }
}

/// The output sink: its kind, and the pieces written to it that the caller has
/// not taken yet.
pub struct Buffer {
    kind: BufferKind,
    pieces: Vec<Piece>,
}

/// The view of a list of pieces.
pub open spec fn pieces_view(s: Seq<Piece>) -> Seq<(Render, Seq<u8>)> {
    s.map_values(|p: Piece| p@)
}

/// The kind of sink chosen for a download flag, an output file and whether
/// standard output is a terminal.
pub open spec fn buffer_kind(download: bool, to_file: bool, is_stdout_tty: bool) -> BufferKind {
    if download {
        BufferKind::Stderr
    } else if to_file {
        BufferKind::File
    } else if is_stdout_tty {
        BufferKind::Stdout
    } else {
        BufferKind::Redirect
    }
}

impl Buffer {
    /// The pieces written and not taken yet.
    pub closed spec fn output(&self) -> Seq<(Render, Seq<u8>)> {
        pieces_view(self.pieces@)
    }

    pub closed spec fn spec_kind(&self) -> BufferKind {
        self.kind
    }

    pub open spec fn spec_is_terminal(&self) -> bool {
        kind_is_terminal(self.spec_kind())
    }

    /// Where output goes.
    pub fn kind(&self) -> (r: BufferKind)
        ensures
            r == self.spec_kind(),
    {
        self.kind
    }

    /// A sink: standard error when downloading, else the output file if one
    /// is given, else standard output, which counts as redirected when it is
    /// not a terminal.
    pub fn new(download: bool, output: &Option<String>, is_stdout_tty: bool) -> (r: Buffer)
        ensures
            r.spec_kind() == buffer_kind(download, output is Some, is_stdout_tty),
            r.output() == Seq::<(Render, Seq<u8>)>::empty(),
    {
        let kind = if download {
            BufferKind::Stderr
        } else if output.is_some() {
            BufferKind::File
        } else if is_stdout_tty {
            BufferKind::Stdout
        } else {
            BufferKind::Redirect
        };
        let r = Buffer { kind, pieces: Vec::new() };
        assert(r.output() =~= Seq::<(Render, Seq<u8>)>::empty());
        r
    }

    /// Whether the sink is a terminal: standard output or standard error.
    #[verifier::when_used_as_spec(spec_is_terminal)]
    pub fn is_terminal(&self) -> (r: bool)
        ensures
            r == self.spec_is_terminal(),
    {
        match self.kind {
            BufferKind::Stdout | BufferKind::Stderr => true,
            _ => false,
        }
    }

    /// Writes one piece.
    pub fn push(&mut self, render: Render, text: &[u8])
        ensures
            final(self).spec_kind() == old(self).spec_kind(),
            final(self).output() == old(self).output().push((render, text@)),
    {
        let mut t: Vec<u8> = Vec::new();
        append_bytes(&mut t, text);
        let ghost before = self.pieces@;
        let p = Piece { render, text: t };
        self.pieces.push(p);
        assert(pieces_view(self.pieces@) =~= pieces_view(before).push((render, text@)));
    }

    /// Writes text as it is.
    pub fn print(&mut self, text: &[u8])
        ensures
            final(self).spec_kind() == old(self).spec_kind(),
            final(self).output() == old(self).output().push((Render::Plain, text@)),
    {
        self.push(Render::Plain, text)
    }

    /// Hands over the pieces written so far, in order, and forgets them.
    pub fn take_pieces(&mut self) -> (r: Vec<Piece>)
        ensures
            pieces_view(r@) == old(self).output(),
            final(self).spec_kind() == old(self).spec_kind(),
            final(self).output() == Seq::<(Render, Seq<u8>)>::empty(),
    {
        let mut r: Vec<Piece> = Vec::new();
        std::mem::swap(&mut r, &mut self.pieces);
        assert(pieces_view(self.pieces@) =~= Seq::<(Render, Seq<u8>)>::empty());
        r
    }
}

/// Whether a sink of this kind is a terminal.
pub open spec fn kind_is_terminal(k: BufferKind) -> bool {
    k == BufferKind::Stdout || k == BufferKind::Stderr
}

/// Formatting and colors when none are asked for: both on a terminal, else neither.
pub open spec fn default_pretty(terminal: bool) -> Pretty {
    if terminal {
        Pretty::All
    } else {
        Pretty::Off
    }
}

/// The banner written in place of a multipart request body.
pub open spec fn multipart_banner() -> Seq<u8> {
    seq![43u8, 45, 45, 45, 45, 45, 45, 45, 45, 45, 45, 45, 45, 45, 45, 45, 45, 45, 45, 45, 45, 45, 45, 45, 45, 45, 45, 45, 45, 45, 45, 45, 45, 45, 45, 45, 45, 45, 45, 45, 45, 45, 45, 45, 45, 43, 10, 124, 32, 78, 79, 84, 69, 58, 32, 109, 117, 108, 116, 105, 112, 97, 114, 116, 32, 100, 97, 116, 97, 32, 110, 111, 116, 32, 115, 104, 111, 119, 110, 32, 105, 110, 32, 116, 101, 114, 109, 105, 110, 97, 108, 32, 124, 10, 43, 45, 45, 45, 45, 45, 45, 45, 45, 45, 45, 45, 45, 45, 45, 45, 45, 45, 45, 45, 45, 45, 45, 45, 45, 45, 45, 45, 45, 45, 45, 45, 45, 45, 45, 45, 45, 45, 45, 45, 45, 45, 45, 45, 45, 43, 10, 10]
}

/// The banner written in place of a binary response body.
pub open spec fn binary_banner() -> Seq<u8> {
    seq![43u8, 45, 45, 45, 45, 45, 45, 45, 45, 45, 45, 45, 45, 45, 45, 45, 45, 45, 45, 45, 45, 45, 45, 45, 45, 45, 45, 45, 45, 45, 45, 45, 45, 45, 45, 45, 45, 45, 45, 45, 45, 45, 43, 10, 124, 32, 78, 79, 84, 69, 58, 32, 98, 105, 110, 97, 114, 121, 32, 100, 97, 116, 97, 32, 110, 111, 116, 32, 115, 104, 111, 119, 110, 32, 105, 110, 32, 116, 101, 114, 109, 105, 110, 97, 108, 32, 124, 10, 43, 45, 45, 45, 45, 45, 45, 45, 45, 45, 45, 45, 45, 45, 45, 45, 45, 45, 45, 45, 45, 45, 45, 45, 45, 45, 45, 45, 45, 45, 45, 45, 45, 45, 45, 45, 45, 45, 45, 45, 45, 45, 43, 10, 10]
}

fn multipart_suppressor() -> (r: Vec<u8>)
    ensures
        r@ == multipart_banner(),
{
    let r: Vec<u8> = vec![43u8, 45, 45, 45, 45, 45, 45, 45, 45, 45, 45, 45, 45, 45, 45, 45, 45, 45, 45, 45, 45, 45, 45, 45, 45, 45, 45, 45, 45, 45, 45, 45, 45, 45, 45, 45, 45, 45, 45, 45, 45, 45, 45, 45, 45, 43, 10, 124, 32, 78, 79, 84, 69, 58, 32, 109, 117, 108, 116, 105, 112, 97, 114, 116, 32, 100, 97, 116, 97, 32, 110, 111, 116, 32, 115, 104, 111, 119, 110, 32, 105, 110, 32, 116, 101, 114, 109, 105, 110, 97, 108, 32, 124, 10, 43, 45, 45, 45, 45, 45, 45, 45, 45, 45, 45, 45, 45, 45, 45, 45, 45, 45, 45, 45, 45, 45, 45, 45, 45, 45, 45, 45, 45, 45, 45, 45, 45, 45, 45, 45, 45, 45, 45, 45, 45, 45, 45, 45, 45, 43, 10, 10];
    assert(r@ =~= multipart_banner());
    r
}

fn binary_suppressor() -> (r: Vec<u8>)
    ensures
        r@ == binary_banner(),
{
    let r: Vec<u8> = vec![43u8, 45, 45, 45, 45, 45, 45, 45, 45, 45, 45, 45, 45, 45, 45, 45, 45, 45, 45, 45, 45, 45, 45, 45, 45, 45, 45, 45, 45, 45, 45, 45, 45, 45, 45, 45, 45, 45, 45, 45, 45, 45, 43, 10, 124, 32, 78, 79, 84, 69, 58, 32, 98, 105, 110, 97, 114, 121, 32, 100, 97, 116, 97, 32, 110, 111, 116, 32, 115, 104, 111, 119, 110, 32, 105, 110, 32, 116, 101, 114, 109, 105, 110, 97, 108, 32, 124, 10, 43, 45, 45, 45, 45, 45, 45, 45, 45, 45, 45, 45, 45, 45, 45, 45, 45, 45, 45, 45, 45, 45, 45, 45, 45, 45, 45, 45, 45, 45, 45, 45, 45, 45, 45, 45, 45, 45, 45, 45, 45, 45, 43, 10, 10];
    assert(r@ =~= binary_banner());
    r
}

/// Whether the bytes are valid UTF-8.
pub uninterp spec fn is_utf8(b: Seq<u8>) -> bool;

/// Relies on std's `str::from_utf8`: whether the bytes are well-formed UTF-8.
#[verifier::external_body]
fn utf8_valid(b: &[u8]) -> (r: bool)
    ensures
        r == is_utf8(b@),
{
    std::str::from_utf8(b).is_ok()
}

/// How text of a syntax is rendered: highlighted when colors are on.
pub open spec fn syntax_render(color: bool, syntax: Syntax) -> Render {
    if color {
        Render::Highlight(syntax)
    } else {
        Render::Plain
    }
}

/// How JSON is rendered: without formatting as any syntax; with formatting,
/// reformatted, and highlighted after when colors are on.
pub open spec fn json_render(indent_json: bool, color: bool) -> Render {
    if !indent_json {
        syntax_render(color, Syntax::Json)
    } else if color {
        Render::ReformatHighlight
    } else {
        Render::Reformat
    }
}

/// How a body of a kind is rendered, buffered or streamed alike.
pub open spec fn body_render(indent_json: bool, color: bool, ct: Option<ContentType>) -> Render {
    match ct {
        Some(ContentType::Json) => json_render(indent_json, color),
        Some(ContentType::Xml) => syntax_render(color, Syntax::Xml),
        Some(ContentType::Html) => syntax_render(color, Syntax::Html),
        _ => Render::Plain,
    }
}

/// `\n`
pub open spec fn newline() -> Seq<u8> {
    seq![10u8]
}

/// `\n\n`
pub open spec fn blank_line() -> Seq<u8> {
    seq![10u8, 10u8]
}

/// What a response body needs from the caller, who holds the stream.
#[derive(PartialEq, Eq, Structural, Debug)]
pub enum BodyPlan {
    /// Copy the raw stream through the render, and add nothing after it.
    PassThrough(Render),
    /// Decode the stream by the encoding of the label, lossily, copy it through
    /// the render, then write one newline.
    Decode(Render),
    /// Read the whole body and hand it to `print_response_text`.
    Buffered,
}

/// Renders HTTP messages to its sink.
pub struct Printer {
    indent_json: bool,
    color: bool,
    theme: Theme,
    sort_headers: bool,
    stream: bool,
    test_mode: bool,
    buffer: Buffer,
}

impl Printer {
    /// JSON is reindented and headers are sorted together, by one flag.
    pub open spec fn wf(&self) -> bool {
        self.spec_indent_json() == self.spec_sort_headers()
    }

    pub closed spec fn spec_buffer(&self) -> Buffer {
        self.buffer
    }

    pub closed spec fn spec_indent_json(&self) -> bool {
        self.indent_json
    }

    pub closed spec fn spec_color(&self) -> bool {
        self.color
    }

    pub closed spec fn spec_sort_headers(&self) -> bool {
        self.sort_headers
    }

    pub closed spec fn spec_stream(&self) -> bool {
        self.stream
    }

    pub closed spec fn spec_theme(&self) -> Theme {
        self.theme
    }

    pub closed spec fn spec_test_mode(&self) -> bool {
        self.test_mode
    }

    /// The configuration is that of `other`: only the sink's pieces may differ.
    pub open spec fn same_config(&self, other: &Printer) -> bool {
        &&& self.spec_indent_json() == other.spec_indent_json()
        &&& self.spec_color() == other.spec_color()
        &&& self.spec_sort_headers() == other.spec_sort_headers()
        &&& self.spec_stream() == other.spec_stream()
        &&& self.spec_theme() == other.spec_theme()
        &&& self.spec_test_mode() == other.spec_test_mode()
        &&& self.spec_buffer().spec_kind() == other.spec_buffer().spec_kind()
    }

    /// A printer for a sink. Without an explicit choice, formatting and colors
    /// are both on for a terminal and both off otherwise; the theme defaults
    /// to `Auto`.
    pub fn new(pretty: Option<Pretty>, theme: Option<Theme>, stream: bool, buffer: Buffer) -> (r: Printer)
        ensures
            r.wf(),
            ({
                let p = match pretty {
                    Some(p) => p,
                    None => default_pretty(buffer.spec_is_terminal()),
                };
                &&& r.spec_indent_json() == p.spec_format()
                &&& r.spec_sort_headers() == p.spec_format()
                &&& r.spec_color() == (p.spec_color() && buffer.spec_is_terminal())
            }),
            r.spec_theme() == (match theme {
                Some(t) => t,
                None => Theme::Auto,
            }),
            r.spec_stream() == stream,
            !r.spec_test_mode(),
            r.spec_buffer() == buffer,
    {
        let pretty = match pretty {
            Some(p) => p,
            None => if buffer.is_terminal() {
                Pretty::All
            } else {
                Pretty::Off
            },
        };
        let theme = match theme {
            Some(t) => t,
            None => Theme::Auto,
        };
        Printer {
            indent_json: pretty.format(),
            sort_headers: pretty.format(),
            color: pretty.color() && buffer.is_terminal(),
            stream,
            theme,
            test_mode: false,
            buffer,
        }
    }

    /// The same printer, writing a fixed host name in place of the target's
    /// when it adds a `host` header, so that output does not depend on it.
    pub fn with_test_mode(self, test_mode: bool) -> (r: Printer)
        ensures
            r.spec_test_mode() == test_mode,
            r.spec_indent_json() == self.spec_indent_json(),
            r.spec_color() == self.spec_color(),
            r.spec_sort_headers() == self.spec_sort_headers(),
            r.spec_stream() == self.spec_stream(),
            r.spec_theme() == self.spec_theme(),
            r.spec_buffer() == self.spec_buffer(),
    {
        Printer { test_mode, ..self }
    }

    /// The sink.
    pub fn buffer(&self) -> (r: &Buffer)
        ensures
            *r == self.spec_buffer(),
    {
        &self.buffer
    }

    /// Hands over the pieces written so far, in order, and forgets them.
    pub fn take_pieces(&mut self) -> (r: Vec<Piece>)
        ensures
            pieces_view(r@) == old(self).spec_buffer().output(),
            final(self).same_config(old(self)),
            final(self).spec_buffer().output() == Seq::<(Render, Seq<u8>)>::empty(),
    {
        self.buffer.take_pieces()
    }

    /// Whether JSON bodies are reindented.
    pub fn indent_json(&self) -> (r: bool)
        ensures
            r == self.spec_indent_json(),
    {
        self.indent_json
    }

    /// Whether output is colored.
    pub fn color(&self) -> (r: bool)
        ensures
            r == self.spec_color(),
    {
        self.color
    }

    /// Whether headers are sorted by name.
    pub fn sort_headers(&self) -> (r: bool)
        ensures
            r == self.spec_sort_headers(),
    {
        self.sort_headers
    }

    /// Whether response bodies are streamed to a terminal.
    pub fn stream(&self) -> (r: bool)
        ensures
            r == self.spec_stream(),
    {
        self.stream
    }

    /// The highlighter's theme.
    pub fn theme(&self) -> (r: Theme)
        ensures
            r == self.spec_theme(),
    {
        self.theme
    }

    /// How text of a syntax is rendered.
    fn syntax_render_for(&self, syntax: Syntax) -> (r: Render)
        ensures
            r == syntax_render(self.color, syntax),
    {
        if self.color {
            Render::Highlight(syntax)
        } else {
            Render::Plain
        }
    }

    /// How JSON is rendered.
    fn json_render_for(&self) -> (r: Render)
        ensures
            r == json_render(self.indent_json, self.color),
    {
        if !self.indent_json {
            self.syntax_render_for(Syntax::Json)
        } else if self.color {
            Render::ReformatHighlight
        } else {
            Render::Reformat
        }
    }

    /// How a body of the kind is rendered, whether it is held whole or streamed.
    pub fn body_render_for(&self, content_type: Option<ContentType>) -> (r: Render)
        ensures
            r == body_render(self.spec_indent_json(), self.spec_color(), content_type),
    {
        match content_type {
            Some(ContentType::Json) => self.json_render_for(),
            Some(ContentType::Xml) => self.syntax_render_for(Syntax::Xml),
            Some(ContentType::Html) => self.syntax_render_for(Syntax::Html),
            _ => Render::Plain,
        }
    }

    /// Writes a body held whole, rendered by its kind.
    pub fn print_body_text(&mut self, content_type: Option<ContentType>, body: &[u8])
        ensures
            final(self).same_config(old(self)),
            final(self).spec_buffer().output() == old(self).spec_buffer().output().push(
                (body_render(old(self).spec_indent_json(), old(self).spec_color(), content_type), body@),
            ),
    {
        let render = self.body_render_for(content_type);
        self.buffer.push(render, body)
    }

    /// Writes a header block, highlighted as HTTP when colors are on.
    fn print_headers(&mut self, text: &[u8])
        ensures
            final(self).same_config(old(self)),
            final(self).spec_buffer().output() == old(self).spec_buffer().output().push(
                (syntax_render(old(self).spec_color(), Syntax::Http), text@),
            ),
    {
        let render = self.syntax_render_for(Syntax::Http);
        self.buffer.push(render, text)
    }

    /// Writes the request line and the headers, with `content-length` and
    /// `host` added where the client adds them on sending, sorted when headers
    /// are sorted, then a blank line.
    pub fn print_request_headers(&mut self, request: &Request)
        requires
            request.wf(),
        ensures
            final(self).same_config(old(self)),
            final(self).spec_buffer().output() == old(self).spec_buffer().output()
                .push((
                    syntax_render(old(self).spec_color(), Syntax::Http),
                    request_line(request) + newline() + headers_text(
                        request_headers(request, old(self).spec_test_mode()),
                        old(self).spec_sort_headers(),
                    ),
                ))
                .push((Render::Plain, blank_line())),
    {
        let headers = synthesize_headers(request, self.test_mode);
        let mut block = request_line_bytes(request);
        block.push(10u8);
        let text = headers_to_string(&headers, self.sort_headers);
        append_bytes(&mut block, text.as_slice());
        assert(block@ =~= request_line(request) + newline() + headers_text(
            request_headers(request, self.test_mode),
            self.sort_headers,
        ));
        self.print_headers(block.as_slice());
        let end: Vec<u8> = vec![10u8, 10u8];
        assert(end@ =~= blank_line());
        self.buffer.print(end.as_slice());
    }

    /// Writes the status line and the headers, sorted when headers are sorted,
    /// then a blank line.
    pub fn print_response_headers(&mut self, response: &Response)
        requires
            response.wf(),
        ensures
            final(self).same_config(old(self)),
            final(self).spec_buffer().output() == old(self).spec_buffer().output()
                .push((
                    syntax_render(old(self).spec_color(), Syntax::Http),
                    status_line(response) + newline() + headers_text(
                        views(response.headers@),
                        old(self).spec_sort_headers(),
                    ),
                ))
                .push((Render::Plain, blank_line())),
    {
        let mut block = status_line_bytes(response);
        block.push(10u8);
        let text = headers_to_string(&response.headers, self.sort_headers);
        append_bytes(&mut block, text.as_slice());
        assert(block@ =~= status_line(response) + newline() + headers_text(
            views(response.headers@),
            self.sort_headers,
        ));
        self.print_headers(block.as_slice());
        let end: Vec<u8> = vec![10u8, 10u8];
        assert(end@ =~= blank_line());
        self.buffer.print(end.as_slice());
    }

    /// Writes a request body. A multipart body is replaced by its banner,
    /// whatever it holds. Otherwise a body held as bytes, without NUL and valid
    /// UTF-8, is rendered by its kind and followed by a newline; any other body
    /// writes nothing.
    pub fn print_request_body(&mut self, request: &Request)
        ensures
            final(self).same_config(old(self)),
            final(self).spec_buffer().output() == ({
                let ct = declared_type(views(request.headers@));
                let out = old(self).spec_buffer().output();
                if ct == Some(ContentType::Multipart) {
                    out.push((Render::Plain, multipart_banner()))
                } else if request.body is Some && !has_nul(request.body->0@)
                    && is_utf8(request.body->0@) {
                    out.push((
                        body_render(old(self).spec_indent_json(), old(self).spec_color(), ct),
                        request.body->0@,
                    )).push((Render::Plain, newline()))
                } else {
                    out
                }
            }),
    {
        let content_type = get_content_type(&request.headers);
        match content_type {
            Some(ContentType::Multipart) => {
                let banner = multipart_suppressor();
                self.buffer.print(banner.as_slice());
            },
            _ => {
                match &request.body {
                    Some(body) => {
                        if !contains_nul(body.as_slice()) && utf8_valid(body.as_slice()) {
                            self.print_body_text(content_type, body.as_slice());
                            let nl: Vec<u8> = vec![10u8];
                            assert(nl@ =~= newline());
                            self.buffer.print(nl.as_slice());
                        }
                    },
                    None => {},
                }
            },
        }
    }

    /// What to do with a response body: a sink that is no terminal takes the
    /// raw stream through the render of its kind, unchecked and with nothing
    /// after it; a terminal in streaming mode takes it decoded by its charset
    /// and followed by a newline; else the body is read whole.
    pub fn print_response_body(&self, response: &Response) -> (r: BodyPlan)
        ensures
            r == (if !self.spec_buffer().spec_is_terminal() {
                BodyPlan::PassThrough(body_render(
                    self.spec_indent_json(),
                    self.spec_color(),
                    declared_type(views(response.headers@)),
                ))
            } else if self.spec_stream() {
                BodyPlan::Decode(body_render(
                    self.spec_indent_json(),
                    self.spec_color(),
                    declared_type(views(response.headers@)),
                ))
            } else {
                BodyPlan::Buffered
            }),
    {
        let content_type = get_content_type(&response.headers);
        if !self.buffer.is_terminal() {
            BodyPlan::PassThrough(self.body_render_for(content_type))
        } else if self.stream {
            BodyPlan::Decode(self.body_render_for(content_type))
        } else {
            BodyPlan::Buffered
        }
    }

    /// Writes a response body read whole: decoded by its charset, lossily; text
    /// with a NUL becomes the binary banner alone, any other is rendered by its
    /// kind and followed by a newline.
    pub fn print_response_text(&mut self, response: &Response, body: &[u8])
        ensures
            final(self).same_config(old(self)),
            final(self).spec_buffer().output() == ({
                let text = decoded(body_label(views(response.headers@)), body@);
                let out = old(self).spec_buffer().output();
                if has_nul(text) {
                    out.push((Render::Plain, binary_banner()))
                } else {
                    out.push((
                        body_render(
                            old(self).spec_indent_json(),
                            old(self).spec_color(),
                            declared_type(views(response.headers@)),
                        ),
                        text,
                    )).push((Render::Plain, newline()))
                }
            }),
    {
        let content_type = get_content_type(&response.headers);
        let text = decode_body(&response.headers, body);
        if contains_nul(text.as_slice()) {
            let banner = binary_suppressor();
            self.buffer.print(banner.as_slice());
            return;
        }
        self.print_body_text(content_type, text.as_slice());
        let nl: Vec<u8> = vec![10u8];
        assert(nl@ =~= newline());
        self.buffer.print(nl.as_slice());
    }
}

} // verus!

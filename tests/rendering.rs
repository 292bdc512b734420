use std::io::Read;

use xh_printer::charset::{decode_body, response_charset};
use xh_printer::content::get_content_type;
use xh_printer::headers::headers_to_string;
use xh_printer::message::synthesize_headers;
use xh_printer::{
    BodyPlan, Buffer, ContentType, Header, HttpVersion, Piece, Pretty, Printer, Render, Request,
    Response, Syntax,
};

const MULTIPART_BANNER: &str = "+--------------------------------------------+\n\
| NOTE: multipart data not shown in terminal |\n\
+--------------------------------------------+\n\n";

const BINARY_BANNER: &str = "+-----------------------------------------+\n\
| NOTE: binary data not shown in terminal |\n\
+-----------------------------------------+\n\n";

fn header(name: &str, value: &str) -> Header {
    Header::new(name.as_bytes(), value.as_bytes())
}

fn printer(pretty: Pretty, stream: bool, tty: bool) -> Printer {
    Printer::new(Some(pretty), None, stream, Buffer::new(false, &None, tty))
}

fn pieces(p: &mut Printer) -> Vec<(Render, String)> {
    p.take_pieces()
        .into_iter()
        .map(|Piece { render, text }| (render, String::from_utf8(text).unwrap()))
        .collect()
}

fn request(headers: Vec<Header>, body: Option<&[u8]>) -> Request {
    Request {
        method: b"POST".to_vec(),
        path: b"/post".to_vec(),
        query: Some(b"a=1".to_vec()),
        host: Some(b"example.org".to_vec()),
        port: Some(8080),
        headers,
        body: body.map(|b| b.to_vec()),
    }
}

fn response(headers: Vec<Header>) -> Response {
    Response { version: HttpVersion::Http11, status: 200, headers }
}

#[test]
fn headers_sorted_by_name() {
    let hs = vec![header("Zeta", "1"), header("Alpha", "2")];
    assert_eq!(headers_to_string(&hs, true), b"Alpha: 2\nZeta: 1".to_vec());
}

#[test]
fn headers_keep_insertion_order_unsorted() {
    let hs = vec![header("Zeta", "1"), header("Alpha", "2")];
    assert_eq!(headers_to_string(&hs, false), b"Zeta: 1\nAlpha: 2".to_vec());
}

#[test]
fn sorting_is_stable_for_equal_names() {
    let hs = vec![header("b", "1"), header("a", "x"), header("b", "2"), header("a", "y")];
    assert_eq!(headers_to_string(&hs, true), b"a: x\na: y\nb: 1\nb: 2".to_vec());
}

#[test]
fn empty_header_list_gives_empty_text() {
    assert_eq!(headers_to_string(&Vec::new(), true), Vec::<u8>::new());
}

#[test]
fn non_text_value_is_escaped() {
    let hs = vec![Header::new(b"x-bin", &[0x66, 0x80, 0x22])];
    assert_eq!(headers_to_string(&hs, false), b"x-bin: \"f\\x80\\\"\"".to_vec());
}

#[test]
fn missing_headers_are_synthesized() {
    let req = request(vec![header("accept", "*/*")], Some(b"hello"));
    let hs = synthesize_headers(&req, false);
    assert_eq!(headers_to_string(&hs, false), b"accept: */*\ncontent-length: 5\nhost: example.org:8080".to_vec());
}

#[test]
fn declared_headers_are_not_overwritten() {
    let req = request(vec![header("Host", "other"), header("Content-Length", "99")], Some(b"hello"));
    let hs = synthesize_headers(&req, false);
    assert_eq!(headers_to_string(&hs, false), b"Host: other\nContent-Length: 99".to_vec());
}

#[test]
fn test_mode_uses_fixed_host() {
    let req = request(Vec::new(), None);
    let hs = synthesize_headers(&req, true);
    assert_eq!(headers_to_string(&hs, false), b"host: http.mock".to_vec());
}

#[test]
fn request_header_block() {
    let mut p = printer(Pretty::Format, false, true);
    let req = request(vec![header("b", "2")], Some(b"{}"));
    p.print_request_headers(&req);
    assert_eq!(
        pieces(&mut p),
        vec![
            (Render::Plain, "POST /post?a=1 HTTP/1.1\nb: 2\ncontent-length: 2\nhost: example.org:8080".to_string()),
            (Render::Plain, "\n\n".to_string()),
        ]
    );
}

#[test]
fn response_header_block_is_highlighted_with_colors() {
    let mut p = printer(Pretty::All, false, true);
    p.print_response_headers(&response(vec![header("z", "1"), header("a", "2")]));
    assert_eq!(
        pieces(&mut p),
        vec![
            (Render::Highlight(Syntax::Http), "HTTP/1.1 200 OK\na: 2\nz: 1".to_string()),
            (Render::Plain, "\n\n".to_string()),
        ]
    );
}

#[test]
fn unknown_status_has_placeholder_reason() {
    let mut p = printer(Pretty::Off, false, true);
    let resp = Response { version: HttpVersion::H2, status: 599, headers: Vec::new() };
    p.print_response_headers(&resp);
    assert_eq!(pieces(&mut p)[0].1, "HTTP/2.0 599 <unknown status code>\n");
}

#[test]
fn multipart_request_body_is_replaced() {
    let mut p = printer(Pretty::All, false, true);
    let req = request(vec![header("content-type", "multipart/form-data; boundary=x")], Some(b"abc\0"));
    p.print_request_body(&req);
    assert_eq!(pieces(&mut p), vec![(Render::Plain, MULTIPART_BANNER.to_string())]);
}

#[test]
fn multipart_request_without_body_is_replaced() {
    let mut p = printer(Pretty::Off, false, false);
    let req = request(vec![header("Content-Type", "multipart/form-data")], None);
    p.print_request_body(&req);
    assert_eq!(pieces(&mut p), vec![(Render::Plain, MULTIPART_BANNER.to_string())]);
}

#[test]
fn binary_request_body_writes_nothing() {
    let mut p = printer(Pretty::All, false, true);
    p.print_request_body(&request(Vec::new(), Some(b"a\0b")));
    p.print_request_body(&request(Vec::new(), Some(&[0xff, 0xfe])));
    assert!(pieces(&mut p).is_empty());
}

#[test]
fn json_request_body_is_reformatted() {
    let mut p = printer(Pretty::Format, false, true);
    let req = request(vec![header("content-type", "application/json")], Some(b"{\"a\":1}"));
    p.print_request_body(&req);
    assert_eq!(
        pieces(&mut p),
        vec![(Render::Reformat, "{\"a\":1}".to_string()), (Render::Plain, "\n".to_string())]
    );
}

#[test]
fn uncolored_text_is_unchanged() {
    let mut p = printer(Pretty::Off, false, true);
    p.print_body_text(Some(ContentType::Html), b"<p>hi</p>");
    p.print_body_text(Some(ContentType::Json), b"{\"a\": 1}");
    assert_eq!(
        pieces(&mut p),
        vec![(Render::Plain, "<p>hi</p>".to_string()), (Render::Plain, "{\"a\": 1}".to_string())]
    );
}

#[test]
fn colored_json_is_reformatted_then_highlighted() {
    let mut p = printer(Pretty::All, false, true);
    p.print_body_text(Some(ContentType::Json), b"[1]");
    p.print_body_text(Some(ContentType::Xml), b"<a/>");
    p.print_body_text(None, b"plain");
    assert_eq!(
        pieces(&mut p),
        vec![
            (Render::ReformatHighlight, "[1]".to_string()),
            (Render::Highlight(Syntax::Xml), "<a/>".to_string()),
            (Render::Plain, "plain".to_string()),
        ]
    );
}

#[test]
fn colors_without_format_highlight_json() {
    let mut p = printer(Pretty::Colors, false, true);
    p.print_body_text(Some(ContentType::Json), b"[1]");
    assert_eq!(pieces(&mut p), vec![(Render::Highlight(Syntax::Json), "[1]".to_string())]);
}

#[test]
fn content_type_detection() {
    let kind = |v: &str| get_content_type(&vec![header("Content-Type", v)]);
    assert_eq!(kind("application/vnd.api+json"), Some(ContentType::Json));
    assert_eq!(kind("text/html; charset=utf-8"), Some(ContentType::Html));
    assert_eq!(kind("application/xml"), Some(ContentType::Xml));
    assert_eq!(kind("multipart/form-data"), Some(ContentType::Multipart));
    assert_eq!(kind("application/x-www-form-urlencoded"), Some(ContentType::UrlencodedForm));
    assert_eq!(kind("text/plain"), None);
    assert_eq!(get_content_type(&Vec::new()), None);
}

#[test]
fn binary_response_body_gives_banner_alone() {
    let mut p = printer(Pretty::All, false, true);
    let resp = response(vec![header("content-type", "application/json")]);
    assert_eq!(p.print_response_body(&resp), BodyPlan::Buffered);
    p.print_response_text(&resp, b"{\"a\":\0}");
    assert_eq!(pieces(&mut p), vec![(Render::Plain, BINARY_BANNER.to_string())]);
}

#[test]
fn text_response_body_is_rendered_with_newline() {
    let mut p = printer(Pretty::Off, false, true);
    let resp = response(vec![header("content-type", "text/plain; charset=latin1")]);
    p.print_response_text(&resp, &[0x63, 0x61, 0x66, 0xe9]);
    assert_eq!(
        pieces(&mut p),
        vec![(Render::Plain, "café".to_string()), (Render::Plain, "\n".to_string())]
    );
}

#[test]
fn redirected_and_streamed_bodies_skip_binary_check() {
    let resp = response(vec![header("content-type", "application/json")]);
    let p = printer(Pretty::Format, false, false);
    assert_eq!(p.print_response_body(&resp), BodyPlan::PassThrough(Render::Reformat));
    let p = printer(Pretty::All, true, true);
    assert_eq!(p.print_response_body(&resp), BodyPlan::Decode(Render::ReformatHighlight));
}

#[test]
fn charset_defaults_to_utf8() {
    assert_eq!(response_charset(&Vec::new()), b"utf-8".to_vec());
    let hs = vec![header("content-type", "text/plain; charset=no-such-thing")];
    assert_eq!(response_charset(&hs), b"utf-8".to_vec());
    let hs = vec![header("content-type", "text/plain; charset=windows-1252")];
    assert_eq!(response_charset(&hs), b"windows-1252".to_vec());
}

#[test]
fn invalid_utf8_is_replaced() {
    let text = decode_body(&Vec::new(), &[0x61, 0xff, 0x62]);
    assert_eq!(text, "a\u{fffd}b".as_bytes().to_vec());
}

fn stream_decode(label: &[u8], body: &[u8], chunk: usize) -> Vec<u8> {
    struct Chunks<'a>(&'a [u8], usize);
    impl Read for Chunks<'_> {
        fn read(&mut self, buf: &mut [u8]) -> std::io::Result<usize> {
            let n = self.1.min(self.0.len()).min(buf.len());
            buf[..n].copy_from_slice(&self.0[..n]);
            self.0 = &self.0[n..];
            Ok(n)
        }
    }
    let encoding = encoding_rs::Encoding::for_label(label).unwrap();
    let mut out = Vec::new();
    encoding_rs_io::DecodeReaderBytesBuilder::new()
        .encoding(Some(encoding))
        .build(Chunks(body, chunk))
        .read_to_end(&mut out)
        .unwrap();
    out
}

#[test]
fn streamed_decode_matches_buffered() {
    let cases: Vec<(&str, Vec<u8>)> = vec![
        ("text/plain", "héllo wörld €".as_bytes().to_vec()),
        ("text/plain", vec![0x61, 0xe2, 0x82, 0xff, 0x62, 0xc3]),
        ("text/plain; charset=latin1", vec![0x63, 0x61, 0x66, 0xe9]),
        ("text/plain; charset=shift_jis", vec![0x82, 0xa0, 0x82, 0xa2]),
    ];
    for (ct, body) in cases {
        let hs = vec![header("content-type", ct)];
        let buffered = decode_body(&hs, &body);
        let label = response_charset(&hs);
        for chunk in 1..4 {
            assert_eq!(stream_decode(&label, &body, chunk), buffered);
        }
    }
}

#[test]
fn pretty_flags_follow_one_choice() {
    for pretty in [Pretty::All, Pretty::Colors, Pretty::Format, Pretty::Off] {
        let p = printer(pretty, false, true);
        assert_eq!(p.indent_json(), p.sort_headers());
        assert_eq!(p.indent_json(), pretty.format());
        assert_eq!(p.color(), pretty.color());
    }
}

#[test]
fn requested_color_is_off_for_file_and_pipe() {
    let p = Printer::new(Some(Pretty::All), None, false, Buffer::new(false, &Some("out.txt".to_string()), true));
    assert!(!p.color());
    assert!(p.indent_json());
    let p = Printer::new(Some(Pretty::Colors), None, false, Buffer::new(false, &None, false));
    assert!(!p.color());
    let p = Printer::new(Some(Pretty::Colors), None, false, Buffer::new(true, &Some("out.txt".to_string()), false));
    assert!(p.color());
}

#[test]
fn well_formedness_checks() {
    assert!(request(vec![header("a", "1"), header("a", "2"), header("b", "3")], None).is_wf());
    assert!(!request(vec![header("a", "1"), header("b", "2"), header("A", "3")], None).is_wf());
    assert!(!request(vec![Header::new(b"a", b"x\ny")], None).is_wf());
    assert!(response(vec![header("x", "\t tab")]).is_wf());
    let bad = Response { version: HttpVersion::Http11, status: 42, headers: Vec::new() };
    assert!(!bad.is_wf());
}

#[test]
fn escaped_value_keeps_tabs() {
    let hs = vec![Header::new(b"x", &[0xff, 0x09, 0x41])];
    assert_eq!(headers_to_string(&hs, false), b"x: \"\\xff\tA\"".to_vec());
}

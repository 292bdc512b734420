use vstd::prelude::*;
use crate::content::ContentType;
use crate::headers::{lemma_sort_ordered, ordered_by_name, sort_by_name, views};
use crate::message::{
    content_length_name, has_header, host_name, host_value, request_headers, Request,
};
use crate::printer::{
    body_render, buffer_kind, default_pretty, kind_is_terminal, Pretty, Render,
};
use crate::text::{decimal, eq_ignore_case};

verus! {

/// Without an explicit choice, formatting (JSON indentation and header sorting
/// alike) and colors are on exactly when output goes to a terminal: standard
/// error when downloading, whatever standard output is, or standard output
/// when it is a terminal and no output file is given. An output file turns
/// both off unless the download goes to standard error.
pub proof fn default_pretty_follows_sink(download: bool, to_file: bool, is_stdout_tty: bool)
    ensures
        ({
            let p = default_pretty(kind_is_terminal(buffer_kind(download, to_file, is_stdout_tty)));
            &&& p.spec_color() == (download || (!to_file && is_stdout_tty))
            &&& p.spec_format() == p.spec_color()
        }),
{
}

/// Sorted headers come in order of name, and none is lost or added.
pub proof fn sorted_headers_are_ordered(hs: Seq<(Seq<u8>, Seq<u8>)>)
    ensures
        ordered_by_name(sort_by_name(hs)),
        sort_by_name(hs).to_multiset() == hs.to_multiset(),
{
    lemma_sort_ordered(hs);
}

/// Whatever formatting and colors are asked for, colors stay on only where
/// output goes to a terminal: never into an output file or a pipe, always
/// onto standard error when downloading.
pub proof fn color_needs_terminal(pretty: Pretty, download: bool, to_file: bool, is_stdout_tty: bool)
    ensures
        (pretty.spec_color() && kind_is_terminal(buffer_kind(download, to_file, is_stdout_tty)))
            == (pretty.spec_color() && (download || (!to_file && is_stdout_tty))),
{
}

/// Render without the highlighting step.
pub open spec fn without_color(r: Render) -> Render {
    match r {
        Render::Highlight(_) => Render::Plain,
        Render::ReformatHighlight => Render::Reformat,
        _ => r,
    }
}

/// Turning colors on changes only whether a body is highlighted: the text
/// handed over is the same, and with the highlighting step taken away the
/// render is the one without colors.
pub proof fn color_only_adds_highlighting(indent_json: bool, ct: Option<ContentType>)
    ensures
        without_color(body_render(indent_json, true, ct)) == body_render(indent_json, false, ct),
{
}

/// Without colors, and unless JSON is reformatted, a body is written as it is.
pub proof fn uncolored_body_is_verbatim(indent_json: bool, ct: Option<ContentType>)
    requires
        !(indent_json && ct == Some(ContentType::Json)),
    ensures
        body_render(indent_json, false, ct) == Render::Plain,
{
}

/// Synthesizing request headers keeps the given ones as they are, in order,
/// and adds at most two after them: `content-length` with the body's length
/// when a body is held as bytes and no header has that name, then `host` for
/// a target with a host when none has that name. A name already present gets
/// no second header.
pub proof fn synthesis_adds_only_missing(req: &Request, test_mode: bool)
    ensures
        ({
            let hs = views(req.headers@);
            let r = request_headers(req, test_mode);
            let add_length = req.body is Some && !has_header(hs, content_length_name());
            let add_host = req.host is Some && !has_header(hs, host_name());
            let n = hs.len() as int;
            &&& r.subrange(0, n) == hs
            &&& r.len() == n + (if add_length { 1int } else { 0int }) + (if add_host { 1int } else { 0int })
            &&& add_length ==> r[n] == (content_length_name(), decimal(req.body->0@.len()))
            &&& add_host ==> r.last() == (host_name(), host_value(req.host->0@, req.port, test_mode))
            &&& forall|k: int| n <= k < r.len() && has_header(hs, content_length_name())
                ==> !eq_ignore_case(#[trigger] r[k].0, content_length_name())
            &&& forall|k: int| n <= k < r.len() && has_header(hs, host_name())
                ==> !eq_ignore_case(#[trigger] r[k].0, host_name())
        }),
{
    let hs = views(req.headers@);
    let n = hs.len() as int;
    let add_length = req.body is Some && !has_header(hs, content_length_name());
    let with_length = if add_length {
        hs.push((content_length_name(), decimal(req.body->0@.len())))
    } else {
        hs
    };
    let r = request_headers(req, test_mode);
    assert(!eq_ignore_case(host_name(), content_length_name()));
    assert(!eq_ignore_case(content_length_name(), host_name()));
    if req.host is Some && has_header(hs, host_name()) {
        let i = choose|i: int| 0 <= i < hs.len() && eq_ignore_case(#[trigger] hs[i].0, host_name());
        assert(with_length[i] == hs[i]);
        assert(has_header(with_length, host_name()));
    }
    if req.host is Some && !has_header(hs, host_name()) {
        if has_header(with_length, host_name()) {
            let i = choose|i: int| 0 <= i < with_length.len() && eq_ignore_case(#[trigger] with_length[i].0, host_name());
            if i < n {
                assert(with_length[i] == hs[i]);
            }
        }
    }
    assert(r.subrange(0, n) =~= hs);
}

} // verus!

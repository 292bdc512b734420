use vstd::prelude::*;
use crate::headers::{views, Header};
use crate::text::{bytes_eq_ignore_case, eq_ignore_case, visible};

verus! {

/// The `charset` parameter of a media type, where the text parses as one.
pub uninterp spec fn media_charset(content_type: Seq<u8>) -> Option<Seq<u8>>;

/// Relies on mime: parsing a `Mime` and reading its `charset` parameter
/// (`Mime::get_param`). The result depends on the text alone.
#[verifier::external_body]
fn charset_param(content_type: &[u8]) -> (r: Option<Vec<u8>>)
    requires
        visible(content_type@),
    ensures
        r matches Some(v) ==> media_charset(content_type@) == Some(v@),
        r is None ==> media_charset(content_type@) is None,
{
    let text = std::str::from_utf8(content_type).expect("visible ASCII checked by the caller");
    let mime = text.parse::<mime::Mime>().ok()?;
    mime.get_param("charset").map(|c| c.as_str().as_bytes().to_vec())
}

/// Whether encoding_rs knows this label.
pub uninterp spec fn label_known(label: Seq<u8>) -> bool;

/// `utf-8`
pub open spec fn utf8_label() -> Seq<u8> {
    seq![117u8, 116, 102, 45, 56]
}

/// Relies on encoding_rs's `Encoding::for_label`: whether the label names an
/// encoding of the WHATWG standard, among which `utf-8` is one.
#[verifier::external_body]
fn is_known_label(label: &[u8]) -> (r: bool)
    ensures
        r == label_known(label@),
        label@ == utf8_label() ==> r,
{
    encoding_rs::Encoding::for_label(label).is_some()
}

/// The text that the encoding of `label` makes of `body`, with BOM sniffing and
/// malformed sequences replaced by U+FFFD, as UTF-8 bytes.
pub uninterp spec fn decoded(label: Seq<u8>, body: Seq<u8>) -> Seq<u8>;

/// Relies on encoding_rs's `Encoding::decode`: lossy decoding of a complete
/// input, a function of the encoding and the bytes alone.
#[verifier::external_body]
fn decode_with(label: &[u8], body: &[u8]) -> (r: Vec<u8>)
    requires
        label_known(label@),
    ensures
        r@ == decoded(label@, body@),
{
    let encoding = encoding_rs::Encoding::for_label(label).expect("label checked by the caller");
    encoding.decode(body).0.into_owned().into_bytes()
}

/// `content-type`
pub open spec fn content_type_name() -> Seq<u8> {
    seq![99u8, 111, 110, 116, 101, 110, 116, 45, 116, 121, 112, 101]
}

/// The index of the first header with this name, compared without case.
pub open spec fn first_with_name(hs: Seq<(Seq<u8>, Seq<u8>)>, name: Seq<u8>) -> Option<int> {
    if exists|i: int| 0 <= i < hs.len() && eq_ignore_case(#[trigger] hs[i].0, name) {
        Some(choose|i: int| 0 <= i < hs.len() && eq_ignore_case(#[trigger] hs[i].0, name)
            && forall|k: int| 0 <= k < i ==> !eq_ignore_case(#[trigger] hs[k].0, name))
    } else {
        None
    }
}

/// The value of the first `content-type` header, where it is visible text.
pub open spec fn content_type_text(hs: Seq<(Seq<u8>, Seq<u8>)>) -> Option<Seq<u8>> {
    match first_with_name(hs, content_type_name()) {
        Some(i) => if visible(hs[i].1) {
            Some(hs[i].1)
        } else {
            None
        },
        None => None,
    }
}

/// The label that decodes a body with these headers: the `charset` parameter of
/// its content type where encoding_rs knows it, else `utf-8`.
pub open spec fn body_label(hs: Seq<(Seq<u8>, Seq<u8>)>) -> Seq<u8> {
    let declared = match content_type_text(hs) {
        Some(t) => match media_charset(t) {
            Some(c) => c,
            None => utf8_label(),
        },
        None => utf8_label(),
    };
    if label_known(declared) {
        declared
    } else {
        utf8_label()
    }
}

/// The value of the first header with this name, compared without case.
pub fn first_header<'a>(headers: &'a Vec<Header>, name: &[u8]) -> (r: Option<&'a Vec<u8>>)
    ensures
        match first_with_name(views(headers@), name@) {
            Some(i) => r matches Some(v) && v@ == views(headers@)[i].1,
            None => r is None,
        },
{
    let ghost hs = views(headers@);
    let mut i: usize = 0;
    while i < headers.len()
        invariant
            i <= headers@.len(),
            hs == views(headers@),
            forall|k: int| 0 <= k < i ==> !eq_ignore_case(#[trigger] hs[k].0, name@),
        decreases headers@.len() - i,
    {
        assert(hs[i as int] == headers@[i as int]@);
        if bytes_eq_ignore_case(headers[i].name.as_slice(), name) {
            proof {
                let c = choose|j: int| 0 <= j < hs.len() && eq_ignore_case(#[trigger] hs[j].0, name@)
                    && forall|k: int| 0 <= k < j ==> !eq_ignore_case(#[trigger] hs[k].0, name@);
                assert(c == i) by {
                    if c < i {
                    } else if c > i {
                        assert(!eq_ignore_case(hs[i as int].0, name@));
                    }
                }
            }
            return Some(&headers[i].value);
        }
        i = i + 1;
    }
    None
}

/// The label to decode a body with these headers by: the `charset` parameter
/// of the first `content-type` header where encoding_rs knows it, else `utf-8`.
pub fn response_charset(headers: &Vec<Header>) -> (r: Vec<u8>)
    ensures
        r@ == body_label(views(headers@)),
        label_known(r@),
{
    let content_type: Vec<u8> = vec![99u8, 111, 110, 116, 101, 110, 116, 45, 116, 121, 112, 101];
    assert(content_type@ =~= content_type_name());
    let utf8: Vec<u8> = vec![117u8, 116, 102, 45, 56];
    assert(utf8@ =~= utf8_label());
    let declared: Vec<u8> = match first_header(headers, content_type.as_slice()) {
        Some(value) => {
            if crate::text::all_visible_ascii(value.as_slice()) {
                match charset_param(value.as_slice()) {
                    Some(c) => c,
                    None => utf8,
                }
            } else {
                utf8
            }
        },
        None => utf8,
    };
    if is_known_label(declared.as_slice()) {
        declared
    } else {
        let fallback: Vec<u8> = vec![117u8, 116, 102, 45, 56];
        assert(fallback@ =~= utf8_label());
        let _ = is_known_label(fallback.as_slice());
        fallback
    }
}

/// The body decoded as text by the encoding of its headers, lossily.
pub fn decode_body(headers: &Vec<Header>, body: &[u8]) -> (r: Vec<u8>)
    ensures
        r@ == decoded(body_label(views(headers@)), body@),
{
    let label = response_charset(headers);
    decode_with(label.as_slice(), body)
}

} // verus!

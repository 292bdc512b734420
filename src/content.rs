use vstd::prelude::*;
use crate::charset::{content_type_text, first_header};
use crate::headers::{views, Header};

verus! {

/// The kinds of body that rendering tells apart.
#[derive(Clone, Copy, PartialEq, Eq, Structural, Debug)]
pub enum ContentType {
    Json,
    Html,
    Xml,
    Multipart,
    UrlencodedForm,
}

/// `needle` occurs in `hay` at `i`.
pub open spec fn occurs_at(hay: Seq<u8>, needle: Seq<u8>, i: int) -> bool {
    0 <= i && i + needle.len() <= hay.len() && hay.subrange(i, i + needle.len()) == needle
}

/// `needle` occurs somewhere in `hay`.
pub open spec fn contains(hay: Seq<u8>, needle: Seq<u8>) -> bool {
    exists|i: int| occurs_at(hay, needle, i)
}

pub open spec fn json_word() -> Seq<u8> {
    seq![106u8, 115, 111, 110]
}

pub open spec fn html_word() -> Seq<u8> {
    seq![104u8, 116, 109, 108]
}

pub open spec fn xml_word() -> Seq<u8> {
    seq![120u8, 109, 108]
}

pub open spec fn multipart_word() -> Seq<u8> {
    seq![109u8, 117, 108, 116, 105, 112, 97, 114, 116]
}

pub open spec fn form_word() -> Seq<u8> {
    seq![120u8, 45, 119, 119, 119, 45, 102, 111, 114, 109, 45, 117, 114, 108, 101, 110, 99, 111, 100, 101, 100]
}

/// The kind that a content type names: the first of `json`, `html`, `xml`,
/// `multipart` and `x-www-form-urlencoded` that occurs in it.
pub open spec fn kind_of(t: Seq<u8>) -> Option<ContentType> {
    if contains(t, json_word()) {
        Some(ContentType::Json)
    } else if contains(t, html_word()) {
        Some(ContentType::Html)
    } else if contains(t, xml_word()) {
        Some(ContentType::Xml)
    } else if contains(t, multipart_word()) {
        Some(ContentType::Multipart)
    } else if contains(t, form_word()) {
        Some(ContentType::UrlencodedForm)
    } else {
        None
    }
}

/// The kind of body that the headers declare: that of the first `content-type`
/// header, where its value is visible text.
pub open spec fn declared_type(hs: Seq<(Seq<u8>, Seq<u8>)>) -> Option<ContentType> {
    match content_type_text(hs) {
        Some(t) => kind_of(t),
        None => None,
    }
}

/// Whether `needle` occurs in `hay`.
pub fn find_bytes(hay: &[u8], needle: &[u8]) -> (r: bool)
    ensures
        r == contains(hay@, needle@),
{
    if needle.len() > hay.len() {
        assert forall|i: int| !occurs_at(hay@, needle@, i) by {}
        return false;
    }
    let n: usize = hay.len();
    let last: usize = n - needle.len();
    let mut i: usize = 0;
    while i <= last
        invariant
            last == hay@.len() - needle@.len(),
            needle@.len() <= hay@.len(),
            n == hay@.len(),
            i <= last + 1,
            forall|k: int| 0 <= k < i ==> !occurs_at(hay@, needle@, k),
        decreases last + 1 - i,
    {
        let mut j: usize = 0;
        while j < needle.len() && hay[i + j] == needle[j]
            invariant
                i <= last,
                last == hay@.len() - needle@.len(),
                needle@.len() <= hay@.len(),
                n == hay@.len(),
                j <= needle@.len(),
                hay@.subrange(i as int, i + j) == needle@.subrange(0, j as int),
            decreases needle@.len() - j,
        {
            assert(hay@.subrange(i as int, i + j + 1) =~= needle@.subrange(0, j + 1));
            j = j + 1;
        }
        if j == needle.len() {
            assert(needle@.subrange(0, j as int) =~= needle@);
            assert(occurs_at(hay@, needle@, i as int));
            return true;
        }
        assert(hay@.subrange(i as int, i + needle@.len())[j as int] != needle@[j as int]);
        i = i + 1;
    }
    assert forall|k: int| !occurs_at(hay@, needle@, k) by {
        if 0 <= k && k < i {
        }
    }
    false
}

/// The kind that a content type names.
pub fn kind_of_text(t: &[u8]) -> (r: Option<ContentType>)
    ensures
        r == kind_of(t@),
{
    let json: Vec<u8> = vec![106u8, 115, 111, 110];
    let html: Vec<u8> = vec![104u8, 116, 109, 108];
    let xml: Vec<u8> = vec![120u8, 109, 108];
    let multipart: Vec<u8> = vec![109u8, 117, 108, 116, 105, 112, 97, 114, 116];
    let form: Vec<u8> = vec![120u8, 45, 119, 119, 119, 45, 102, 111, 114, 109, 45, 117, 114, 108, 101, 110, 99, 111, 100, 101, 100];
    assert(json@ =~= json_word());
    assert(html@ =~= html_word());
    assert(xml@ =~= xml_word());
    assert(multipart@ =~= multipart_word());
    assert(form@ =~= form_word());
    if find_bytes(t, json.as_slice()) {
        Some(ContentType::Json)
    } else if find_bytes(t, html.as_slice()) {
        Some(ContentType::Html)
    } else if find_bytes(t, xml.as_slice()) {
        Some(ContentType::Xml)
    } else if find_bytes(t, multipart.as_slice()) {
        Some(ContentType::Multipart)
    } else if find_bytes(t, form.as_slice()) {
        Some(ContentType::UrlencodedForm)
    } else {
        None
    }
}

/// The kind of body that the headers declare.
pub fn get_content_type(headers: &Vec<Header>) -> (r: Option<ContentType>)
    ensures
        r == declared_type(views(headers@)),
{
    let name: Vec<u8> = vec![99u8, 111, 110, 116, 101, 110, 116, 45, 116, 121, 112, 101];
    assert(name@ =~= crate::charset::content_type_name());
    match first_header(headers, name.as_slice()) {
        Some(value) => {
            if crate::text::all_visible_ascii(value.as_slice()) {
                kind_of_text(value.as_slice())
            } else {
                None
            }
        },
        None => None,
    }
}

} // verus!

use vstd::prelude::*;
use crate::text::{append_bytes, bytes_eq_ignore_case, eq_ignore_case, is_visible_ascii, visible};

verus! {

/// A byte that a header value may hold at all: no control byte but the tab, no DEL.
pub open spec fn is_value_byte(b: u8) -> bool {
    (b >= 32 && b != 127) || b == 9
}

/// Every byte of `s` may stand in a header value.
pub open spec fn valid_value(s: Seq<u8>) -> bool {
    forall|i: int| 0 <= i < s.len() ==> is_value_byte(#[trigger] s[i])
}

/// A lowercase hexadecimal digit.
pub open spec fn hex_digit(d: u8) -> u8 {
    if d < 10 {
        (48 + d) as u8
    } else {
        (87 + d) as u8
    }
}

/// A byte in lowercase hexadecimal, without padding.
pub open spec fn byte_hex(b: u8) -> Seq<u8> {
    if b < 16 {
        seq![hex_digit(b)]
    } else {
        seq![hex_digit(b / 16), hex_digit(b % 16)]
    }
}

/// One byte of a quoted value: `"` as `\"`, visible ASCII and tabs as they are,
/// any other byte as `\x` and its hexadecimal digits.
pub open spec fn escape_byte(b: u8) -> Seq<u8> {
    if b == 34 {
        seq![92u8, 34u8]
    } else if is_visible_ascii(b) {
        seq![b]
    } else {
        seq![92u8, 120u8] + byte_hex(b)
    }
}

/// The bytes of a value, each escaped.
pub open spec fn escaped(v: Seq<u8>) -> Seq<u8>
    decreases v.len(),
{
    if v.len() == 0 {
        Seq::empty()
    } else {
        escaped(v.drop_last()) + escape_byte(v.last())
    }
}

/// The quoted, escaped form of a value.
pub open spec fn value_debug(v: Seq<u8>) -> Seq<u8> {
    seq![34u8] + escaped(v) + seq![34u8]
}

/// Relies on http's `Debug` for `HeaderValue` (of a value that is not marked
/// sensitive, as `from_bytes` makes it): the value in double quotes, `"`
/// escaped, and every byte that is not visible ASCII or a tab as `\x` and
/// lowercase hex digits.
#[verifier::external_body]
fn debug_value(v: &[u8]) -> (r: Vec<u8>)
    requires
        valid_value(v@),
    ensures
        r@ == value_debug(v@),
{
    let value = reqwest::header::HeaderValue::from_bytes(v).expect("bytes checked by the caller");
    format!("{:?}", value).into_bytes()
}

/// One header: a name and the raw bytes of its value.
pub struct Header {
    pub name: Vec<u8>,
    pub value: Vec<u8>,
}

impl View for Header {
    type V = (Seq<u8>, Seq<u8>);

    open spec fn view(&self) -> (Seq<u8>, Seq<u8>) {
        (self.name@, self.value@)
    }
}

impl Header {
    /// A header from its name and value.
    pub fn new(name: &[u8], value: &[u8]) -> (r: Header)
        ensures
            r@ == (name@, value@),
    {
        let mut n: Vec<u8> = Vec::new();
        append_bytes(&mut n, name);
        let mut v: Vec<u8> = Vec::new();
        append_bytes(&mut v, value);
        Header { name: n, value: v }
    }

    /// A copy with the same name and value.
    pub fn copy(&self) -> (r: Header)
        ensures
            r@ == self@,
    {
        Header::new(self.name.as_slice(), self.value.as_slice())
    }
}

/// The views of a list of headers.
pub open spec fn views(hs: Seq<Header>) -> Seq<(Seq<u8>, Seq<u8>)> {
    hs.map_values(|h: Header| h@)
}

/// Every value of the list may stand in a header.
pub open spec fn valid_headers(hs: Seq<(Seq<u8>, Seq<u8>)>) -> bool {
    forall|i: int| 0 <= i < hs.len() ==> valid_value(#[trigger] hs[i].1)
}

/// Headers of one name stand together, as a header map yields them: a header
/// whose name occurred before directly follows one of that name.
pub open spec fn grouped(hs: Seq<(Seq<u8>, Seq<u8>)>) -> bool {
    forall|i: int, j: int|
        0 <= i < j < hs.len() && eq_ignore_case(#[trigger] hs[i].0, #[trigger] hs[j].0)
            ==> eq_ignore_case(hs[j - 1].0, hs[j].0)
}

/// Whether every byte may stand in a header value.
pub fn valid_value_bytes(v: &[u8]) -> (r: bool)
    ensures
        r == valid_value(v@),
{
    let mut i: usize = 0;
    while i < v.len()
        invariant
            i <= v@.len(),
            forall|k: int| 0 <= k < i ==> is_value_byte(#[trigger] v@[k]),
        decreases v@.len() - i,
    {
        let b = v[i];
        if !((b >= 32 && b != 127) || b == 9) {
            assert(!is_value_byte(v@[i as int]));
            return false;
        }
        i = i + 1;
    }
    true
}

/// Whether the header values are valid and headers of one name stand together.
pub fn headers_well_formed(headers: &Vec<Header>) -> (r: bool)
    ensures
        r == (valid_headers(views(headers@)) && grouped(views(headers@))),
{
    let ghost hs = views(headers@);
    let mut j: usize = 0;
    while j < headers.len()
        invariant
            j <= headers@.len(),
            hs == views(headers@),
            forall|k: int| 0 <= k < j ==> valid_value(#[trigger] hs[k].1),
            forall|i: int, k: int|
                0 <= i < k < j && eq_ignore_case(#[trigger] hs[i].0, #[trigger] hs[k].0)
                    ==> eq_ignore_case(hs[k - 1].0, hs[k].0),
        decreases headers@.len() - j,
    {
        assert(hs[j as int] == headers@[j as int]@);
        if !valid_value_bytes(headers[j].value.as_slice()) {
            assert(!valid_value(hs[j as int].1));
            return false;
        }
        let follows = j > 0 && bytes_eq_ignore_case(headers[j - 1].name.as_slice(), headers[j].name.as_slice());
        if j > 0 {
            assert(hs[j - 1] == headers@[j - 1]@);
        }
        if !follows {
            assert(j > 0 ==> !eq_ignore_case(hs[j - 1].0, hs[j as int].0));
            let mut i: usize = 0;
            while i < j
                invariant
                    i <= j,
                    j < headers@.len(),
                    hs == views(headers@),
                    j > 0 ==> !eq_ignore_case(hs[j - 1].0, hs[j as int].0),
                    forall|k: int| 0 <= k < i ==> !eq_ignore_case(#[trigger] hs[k].0, hs[j as int].0),
                decreases j - i,
            {
                assert(hs[i as int] == headers@[i as int]@);
                if bytes_eq_ignore_case(headers[i].name.as_slice(), headers[j].name.as_slice()) {
                    assert(eq_ignore_case(hs[i as int].0, hs[j as int].0));
                    assert(!eq_ignore_case(hs[j - 1].0, hs[j as int].0));
                    assert(!grouped(hs));
                    return false;
                }
                i = i + 1;
            }
        }
        j = j + 1;
    }
    true
}

/// How a value is shown: verbatim when it is visible text, else its escaped form.
pub open spec fn value_text(v: Seq<u8>) -> Seq<u8> {
    if visible(v) {
        v
    } else {
        value_debug(v)
    }
}

/// The line `name: value` of one header.
pub open spec fn header_line(h: (Seq<u8>, Seq<u8>)) -> Seq<u8> {
    h.0 + seq![58u8, 32u8] + value_text(h.1)
}

/// The lines of the headers, joined by newlines, with none at the end.
pub open spec fn header_lines(hs: Seq<(Seq<u8>, Seq<u8>)>) -> Seq<u8>
    decreases hs.len(),
{
    if hs.len() == 0 {
        Seq::empty()
    } else if hs.len() == 1 {
        header_line(hs[0])
    } else {
        header_lines(hs.drop_last()) + seq![10u8] + header_line(hs.last())
    }
}

/// `s` holds no newline byte.
pub open spec fn no_newline(s: Seq<u8>) -> bool {
    forall|i: int| 0 <= i < s.len() ==> #[trigger] s[i] != 10
}

proof fn lemma_escaped_no_newline(v: Seq<u8>)
    ensures
        no_newline(escaped(v)),
    decreases v.len(),
{
    if v.len() > 0 {
        lemma_escaped_no_newline(v.drop_last());
        let e = escape_byte(v.last());
        assert(no_newline(e)) by {
            let b = v.last();
            if b != 34 && !is_visible_ascii(b) {
                let h = byte_hex(b);
                assert(no_newline(h));
                assert forall|i: int| 0 <= i < e.len() implies #[trigger] e[i] != 10 by {
                    if i >= 2 {
                        assert(e[i] == h[i - 2]);
                    }
                }
            }
        }
        let a = escaped(v.drop_last());
        assert forall|i: int| 0 <= i < escaped(v).len() implies #[trigger] escaped(v)[i] != 10 by {
            if i < a.len() {
                assert(escaped(v)[i] == a[i]);
            } else {
                assert(escaped(v)[i] == e[i - a.len()]);
            }
        }
    }
}

/// A header whose name holds no newline and whose value is valid takes one
/// line: its shown value holds no newline either.
pub proof fn lemma_header_line_single(h: (Seq<u8>, Seq<u8>))
    requires
        no_newline(h.0),
        valid_value(h.1),
    ensures
        no_newline(header_line(h)),
{
    let t = value_text(h.1);
    if visible(h.1) {
        assert forall|i: int| 0 <= i < t.len() implies #[trigger] t[i] != 10 by {
            assert(is_visible_ascii(h.1[i]));
        }
    } else {
        lemma_escaped_no_newline(h.1);
        let e = escaped(h.1);
        assert forall|i: int| 0 <= i < t.len() implies #[trigger] t[i] != 10 by {
            if i > 0 && i <= e.len() {
                assert(t[i] == e[i - 1]);
            }
        }
    }
    let l = header_line(h);
    assert forall|i: int| 0 <= i < l.len() implies #[trigger] l[i] != 10 by {
        if i < h.0.len() {
            assert(l[i] == h.0[i]);
        } else if i >= h.0.len() + 2 {
            assert(l[i] == t[i - h.0.len() - 2]);
        }
    }
}

/// Lexicographic order on byte strings (the order of `str`'s `Ord`).
pub open spec fn bytes_lt(a: Seq<u8>, b: Seq<u8>) -> bool
    decreases a.len(),
{
    if b.len() == 0 {
        false
    } else if a.len() == 0 {
        true
    } else if a[0] != b[0] {
        a[0] < b[0]
    } else {
        bytes_lt(a.drop_first(), b.drop_first())
    }
}

/// Where a stable insertion puts `h` into `s`: after every entry whose name is
/// not greater than its own, scanning from the end.
pub open spec fn insert_pos(s: Seq<(Seq<u8>, Seq<u8>)>, h: (Seq<u8>, Seq<u8>)) -> nat
    decreases s.len(),
{
    if s.len() == 0 {
        0
    } else if bytes_lt(h.0, s.last().0) {
        insert_pos(s.drop_last(), h)
    } else {
        s.len()
    }
}

/// The headers stably sorted by name: entries with equal names keep their order.
pub open spec fn sort_by_name(s: Seq<(Seq<u8>, Seq<u8>)>) -> Seq<(Seq<u8>, Seq<u8>)>
    decreases s.len(),
{
    if s.len() == 0 {
        s
    } else {
        let rest = sort_by_name(s.drop_last());
        rest.insert(insert_pos(rest, s.last()) as int, s.last())
    }
}

/// The text of a header block, sorted or in the given order.
pub open spec fn headers_text(hs: Seq<(Seq<u8>, Seq<u8>)>, sort: bool) -> Seq<u8> {
    if sort {
        header_lines(sort_by_name(hs))
    } else {
        header_lines(hs)
    }
}

proof fn lemma_insert_pos_le(s: Seq<(Seq<u8>, Seq<u8>)>, h: (Seq<u8>, Seq<u8>))
    ensures
        insert_pos(s, h) <= s.len(),
    decreases s.len(),
{
    if s.len() > 0 && bytes_lt(h.0, s.last().0) {
        lemma_insert_pos_le(s.drop_last(), h);
    }
}

/// No entry's name comes before that of an earlier entry.
pub open spec fn ordered_by_name(s: Seq<(Seq<u8>, Seq<u8>)>) -> bool {
    forall|i: int, j: int| 0 <= i < j < s.len() ==> !bytes_lt(#[trigger] s[j].0, #[trigger] s[i].0)
}

proof fn lemma_lt_irreflexive(a: Seq<u8>)
    ensures
        !bytes_lt(a, a),
    decreases a.len(),
{
    if a.len() > 0 {
        lemma_lt_irreflexive(a.drop_first());
    }
}

proof fn lemma_lt_transitive(a: Seq<u8>, b: Seq<u8>, c: Seq<u8>)
    requires
        bytes_lt(a, b),
        bytes_lt(b, c),
    ensures
        bytes_lt(a, c),
    decreases a.len(),
{
    if a.len() > 0 && b.len() > 0 && c.len() > 0 && a[0] == b[0] && b[0] == c[0] {
        lemma_lt_transitive(a.drop_first(), b.drop_first(), c.drop_first());
    }
}

proof fn lemma_lt_total(a: Seq<u8>, b: Seq<u8>)
    requires
        a != b,
    ensures
        bytes_lt(a, b) || bytes_lt(b, a),
    decreases a.len(),
{
    if a.len() > 0 && b.len() > 0 && a[0] == b[0] {
        if a.drop_first() == b.drop_first() {
            assert(a =~= seq![a[0]] + a.drop_first());
            assert(b =~= seq![b[0]] + b.drop_first());
        }
        lemma_lt_total(a.drop_first(), b.drop_first());
    } else if a.len() == 0 && b.len() == 0 {
        assert(a =~= b);
    }
}

proof fn lemma_not_lt_transitive(a: Seq<u8>, b: Seq<u8>, c: Seq<u8>)
    requires
        !bytes_lt(b, a),
        !bytes_lt(c, b),
    ensures
        !bytes_lt(c, a),
{
    if bytes_lt(c, a) {
        if a == b {
        } else {
            lemma_lt_total(a, b);
            if bytes_lt(a, b) {
                lemma_lt_transitive(c, a, b);
            }
        }
    }
}

proof fn lemma_insert_pos_facts(s: Seq<(Seq<u8>, Seq<u8>)>, h: (Seq<u8>, Seq<u8>))
    ensures
        insert_pos(s, h) <= s.len(),
        forall|k: int| insert_pos(s, h) <= k < s.len() ==> bytes_lt(h.0, #[trigger] s[k].0),
        insert_pos(s, h) > 0 ==> !bytes_lt(h.0, s[insert_pos(s, h) - 1].0),
    decreases s.len(),
{
    if s.len() > 0 && bytes_lt(h.0, s.last().0) {
        let t = s.drop_last();
        lemma_insert_pos_facts(t, h);
        assert forall|k: int| insert_pos(s, h) <= k < s.len() implies bytes_lt(h.0, #[trigger] s[k].0) by {
            if k < t.len() {
                assert(s[k] == t[k]);
            }
        }
        if insert_pos(s, h) > 0 {
            assert(s[insert_pos(s, h) - 1] == t[insert_pos(t, h) - 1]);
        }
    }
}

proof fn lemma_insert_ordered(s: Seq<(Seq<u8>, Seq<u8>)>, h: (Seq<u8>, Seq<u8>))
    requires
        ordered_by_name(s),
    ensures
        ordered_by_name(s.insert(insert_pos(s, h) as int, h)),
{
    lemma_insert_pos_facts(s, h);
    let p = insert_pos(s, h) as int;
    let r = s.insert(p, h);
    assert forall|i: int, j: int| 0 <= i < j < r.len() implies !bytes_lt(#[trigger] r[j].0, #[trigger] r[i].0) by {
        if i == p {
            assert(r[j] == s[j - 1]);
            assert(bytes_lt(h.0, s[j - 1].0));
            if bytes_lt(s[j - 1].0, h.0) {
                lemma_lt_transitive(h.0, s[j - 1].0, h.0);
                lemma_lt_irreflexive(h.0);
            }
        } else if j == p {
            assert(r[i] == s[i]);
            if i < p - 1 {
                assert(!bytes_lt(s[p - 1].0, s[i].0));
                lemma_not_lt_transitive(s[i].0, s[p - 1].0, h.0);
            }
        } else {
            let si = if i < p { i } else { i - 1 };
            let sj = if j < p { j } else { j - 1 };
            assert(r[i] == s[si]);
            assert(r[j] == s[sj]);
            assert(!bytes_lt(s[sj].0, s[si].0));
        }
    }
}

/// Sorting yields an order in which no name comes before an earlier one, and
/// holds the same entries as often as before.
pub proof fn lemma_sort_ordered(s: Seq<(Seq<u8>, Seq<u8>)>)
    ensures
        ordered_by_name(sort_by_name(s)),
        sort_by_name(s).len() == s.len(),
        sort_by_name(s).to_multiset() == s.to_multiset(),
    decreases s.len(),
{
    if s.len() > 0 {
        lemma_sort_ordered(s.drop_last());
        let rest = sort_by_name(s.drop_last());
        lemma_insert_ordered(rest, s.last());
        lemma_insert_pos_le(rest, s.last());
        vstd::seq_lib::to_multiset_insert(rest, insert_pos(rest, s.last()) as int, s.last());
        vstd::seq_lib::to_multiset_build(s.drop_last(), s.last());
        assert(s.drop_last().push(s.last()) =~= s);
    }
}

/// Whether `a` comes strictly before `b`.
pub fn name_lt(a: &[u8], b: &[u8]) -> (r: bool)
    ensures
        r == bytes_lt(a@, b@),
{
    let mut i: usize = 0;
    assert(a@.subrange(0, a@.len() as int) =~= a@);
    assert(b@.subrange(0, b@.len() as int) =~= b@);
    assert(a@.subrange(0, 0) =~= b@.subrange(0, 0));
    while i < a.len() && i < b.len() && a[i] == b[i]
        invariant
            i <= a@.len(),
            i <= b@.len(),
            a@.subrange(0, i as int) == b@.subrange(0, i as int),
            bytes_lt(a@, b@) == bytes_lt(a@.subrange(i as int, a@.len() as int), b@.subrange(i as int, b@.len() as int)),
        decreases a@.len() - i,
    {
        let ghost sa = a@.subrange(i as int, a@.len() as int);
        let ghost sb = b@.subrange(i as int, b@.len() as int);
        assert(sa.drop_first() =~= a@.subrange(i + 1, a@.len() as int));
        assert(sb.drop_first() =~= b@.subrange(i + 1, b@.len() as int));
        assert(a@.subrange(0, i + 1) =~= b@.subrange(0, i + 1));
        i = i + 1;
    }
    if i >= b.len() {
        false
    } else if i >= a.len() {
        true
    } else {
        a[i] < b[i]
    }
}

/// Inserts `h` into `out` where a stable insertion by name puts it.
fn insert_by_name(out: &mut Vec<Header>, h: Header)
    ensures
        views(final(out)@) == views(old(out)@).insert(insert_pos(views(old(out)@), h@) as int, h@),
{
    let ghost s = views(out@);
    let mut j: usize = out.len();
    assert(s.subrange(0, j as int) =~= s);
    while j > 0 && name_lt(h.name.as_slice(), out[j - 1].name.as_slice())
        invariant
            j <= out@.len(),
            out@ == old(out)@,
            s == views(out@),
            insert_pos(s, h@) == insert_pos(s.subrange(0, j as int), h@),
        decreases j,
    {
        let ghost t = s.subrange(0, j as int);
        assert(t.drop_last() =~= s.subrange(0, j - 1));
        j = j - 1;
    }
    proof {
        let t = s.subrange(0, j as int);
        if j > 0 {
            assert(t.last() == s[j - 1]);
        }
        assert(insert_pos(t, h@) == j);
    }
    let ghost hv = h@;
    out.insert(j, h);
    assert(views(out@) =~= s.insert(j as int, hv));
}

/// The headers stably sorted by name.
pub fn sorted_by_name(headers: &Vec<Header>) -> (r: Vec<Header>)
    ensures
        views(r@) == sort_by_name(views(headers@)),
{
    let mut out: Vec<Header> = Vec::new();
    let mut i: usize = 0;
    while i < headers.len()
        invariant
            i <= headers@.len(),
            views(out@) == sort_by_name(views(headers@).subrange(0, i as int)),
        decreases headers@.len() - i,
    {
        let ghost pre = views(headers@).subrange(0, i as int);
        let ghost next = views(headers@).subrange(0, i + 1);
        assert(next.drop_last() =~= pre);
        assert(next.last() == headers@[i as int]@);
        insert_by_name(&mut out, headers[i].copy());
        i = i + 1;
    }
    assert(views(headers@).subrange(0, i as int) =~= views(headers@));
    out
}

/// Appends the line of one header to `out`.
fn push_header_line(out: &mut Vec<u8>, h: &Header)
    requires
        valid_value(h.value@),
    ensures
        final(out)@ == old(out)@ + header_line(h@),
{
    let shown: Vec<u8> = if crate::text::all_visible_ascii(h.value.as_slice()) {
        let mut v: Vec<u8> = Vec::new();
        append_bytes(&mut v, h.value.as_slice());
        assert(v@ =~= h.value@);
        v
    } else {
        debug_value(h.value.as_slice())
    };
    assert(shown@ == value_text(h.value@));
    let mut line: Vec<u8> = Vec::new();
    append_bytes(&mut line, h.name.as_slice());
    line.push(58u8);
    line.push(32u8);
    append_bytes(&mut line, shown.as_slice());
    assert(line@ =~= header_line(h@));
    append_bytes(out, line.as_slice());
}

/// The lines of the headers in the order given, joined by newlines.
fn join_lines(headers: &Vec<Header>) -> (r: Vec<u8>)
    requires
        valid_headers(views(headers@)),
    ensures
        r@ == header_lines(views(headers@)),
{
    let mut out: Vec<u8> = Vec::new();
    let mut i: usize = 0;
    while i < headers.len()
        invariant
            i <= headers@.len(),
            valid_headers(views(headers@)),
            out@ == header_lines(views(headers@).subrange(0, i as int)),
        decreases headers@.len() - i,
    {
        let ghost pre = views(headers@).subrange(0, i as int);
        let ghost next = views(headers@).subrange(0, i + 1);
        assert(next.drop_last() =~= pre);
        assert(views(headers@)[i as int] == headers@[i as int]@);
        assert(valid_value(views(headers@)[i as int].1));
        assert(valid_value(headers@[i as int].value@));
        if i > 0 {
            out.push(10u8);
        }
        push_header_line(&mut out, &headers[i]);
        i = i + 1;
    }
    assert(views(headers@).subrange(0, i as int) =~= views(headers@));
    out
}

proof fn lemma_sort_valid(s: Seq<(Seq<u8>, Seq<u8>)>)
    requires
        valid_headers(s),
    ensures
        valid_headers(sort_by_name(s)),
    decreases s.len(),
{
    if s.len() > 0 {
        let rest = sort_by_name(s.drop_last());
        assert(valid_headers(s.drop_last()));
        lemma_sort_valid(s.drop_last());
        lemma_insert_pos_le(rest, s.last());
        let r = rest.insert(insert_pos(rest, s.last()) as int, s.last());
        assert forall|i: int| 0 <= i < r.len() implies valid_value(#[trigger] r[i].1) by {
            let p = insert_pos(rest, s.last()) as int;
            if i < p {
                assert(r[i] == rest[i]);
            } else if i > p {
                assert(r[i] == rest[i - 1]);
            }
        }
    }
}

/// The header block: one `name: value` line per header, joined by newlines,
/// sorted stably by name when `sort` is set.
pub fn headers_to_string(headers: &Vec<Header>, sort: bool) -> (r: Vec<u8>)
    requires
        valid_headers(views(headers@)),
    ensures
        r@ == headers_text(views(headers@), sort),
{
    if sort {
        let sorted = sorted_by_name(headers);
        proof {
            lemma_sort_valid(views(headers@));
        }
        join_lines(&sorted)
    } else {
        join_lines(headers)
    }
}

} // verus!

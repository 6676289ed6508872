use vstd::prelude::*;
use vstd::utf8::*;

use crate::text::append_bytes;
use crate::typed::TypedHeader;

verus! {

broadcast use encode_utf8_valid_utf8;

#[verifier::external_type_specification]
#[verifier::external_body]
pub struct ExHyperHeaders(hyper::header::Headers);

/// The fields of a hyper header map in the order they were first set: each
/// name as it was last set, with its raw lines.
pub uninterp spec fn raw_fields(h: hyper::header::Headers) -> Seq<(Seq<char>, Seq<Seq<u8>>)>;

/// An ASCII capital letter.
pub open spec fn is_ascii_upper(c: char) -> bool {
    'A' <= c && c <= 'Z'
}

/// Two characters that are equal once ASCII letters are lowered.
pub open spec fn chars_match(a: char, b: char) -> bool {
    a == b || (is_ascii_upper(a) && a as u32 + 32 == b as u32) || (is_ascii_upper(b) && b as u32
        + 32 == a as u32)
}

/// Two header names that are equal without regard to ASCII case.
pub open spec fn names_match(a: Seq<char>, b: Seq<char>) -> bool {
    a.len() == b.len() && forall|i: int| 0 <= i < a.len() ==> chars_match(#[trigger] a[i], b[i])
}

/// The index of the first field whose name matches `name`, or -1.
pub open spec fn find_field(fields: Seq<(Seq<char>, Seq<Seq<u8>>)>, name: Seq<char>) -> int
    decreases fields.len(),
{
    if fields.len() == 0 {
        -1
    } else {
        let k = find_field(fields.drop_last(), name);
        if k >= 0 {
            k
        } else if names_match(fields.last().0, name) {
            fields.len() - 1
        } else {
            -1
        }
    }
}

/// The fields after setting `name` to `lines`: a matching field is replaced
/// where it stands, else the new field goes last.
pub open spec fn with_field(
    fields: Seq<(Seq<char>, Seq<Seq<u8>>)>,
    name: Seq<char>,
    lines: Seq<Seq<u8>>,
) -> Seq<(Seq<char>, Seq<Seq<u8>>)> {
    let k = find_field(fields, name);
    if k >= 0 {
        fields.update(k, (name, lines))
    } else {
        fields.push((name, lines))
    }
}

/// Every raw line of every field is valid UTF-8.
pub open spec fn all_lines_utf8(fields: Seq<(Seq<char>, Seq<Seq<u8>>)>) -> bool {
    forall|i: int, j: int|
        0 <= i < fields.len() && 0 <= j < fields[i].1.len() ==> valid_utf8(
            #[trigger] fields[i].1[j],
        )
}

/// A value as it is written on the wire: CR and LF become spaces.
pub open spec fn unfold_line_breaks(s: Seq<char>) -> Seq<char> {
    s.map_values(|c: char| if c == '\r' || c == '\n' { ' ' } else { c })
}

/// One header line: `name: value\r\n`.
pub open spec fn header_line(name: Seq<char>, value: Seq<char>) -> Seq<char> {
    name + seq![':', ' '] + unfold_line_breaks(value) + seq!['\r', '\n']
}

/// The lines of one field, one per raw line.
pub open spec fn render_lines(name: Seq<char>, lines: Seq<Seq<u8>>) -> Seq<char>
    decreases lines.len(),
{
    if lines.len() == 0 {
        Seq::empty()
    } else {
        render_lines(name, lines.drop_last()) + header_line(name, decode_utf8(lines.last()))
    }
}

/// The header block: the lines of each field, fields in order.
pub open spec fn render_fields(fields: Seq<(Seq<char>, Seq<Seq<u8>>)>) -> Seq<char>
    decreases fields.len(),
{
    if fields.len() == 0 {
        Seq::empty()
    } else {
        render_fields(fields.drop_last()) + render_lines(fields.last().0, fields.last().1)
    }
}

/// `find_field` gives -1 or an index of `fields`.
pub proof fn lemma_find_field_range(fields: Seq<(Seq<char>, Seq<Seq<u8>>)>, name: Seq<char>)
    ensures
        -1 <= find_field(fields, name) < fields.len(),
    decreases fields.len(),
{
    if fields.len() > 0 {
        lemma_find_field_range(fields.drop_last(), name);
    }
}

proof fn lemma_with_field_utf8(
    fields: Seq<(Seq<char>, Seq<Seq<u8>>)>,
    name: Seq<char>,
    lines: Seq<Seq<u8>>,
)
    requires
        all_lines_utf8(fields),
        forall|j: int| 0 <= j < lines.len() ==> valid_utf8(#[trigger] lines[j]),
    ensures
        all_lines_utf8(with_field(fields, name, lines)),
{
    lemma_find_field_range(fields, name);
    let r = with_field(fields, name, lines);
    assert forall|i: int, j: int| 0 <= i < r.len() && 0 <= j < r[i].1.len() implies valid_utf8(
        #[trigger] r[i].1[j],
    ) by {
        if i < fields.len() && r[i] == fields[i] {
            assert(valid_utf8(fields[i].1[j]));
        } else {
            assert(r[i].1 == lines);
        }
    }
}

/// Relies on hyper's `Headers::new`: the map starts with no field.
#[verifier::external_body]
fn hyper_headers_new() -> (r: hyper::header::Headers)
    ensures
        raw_fields(r) == Seq::<(Seq<char>, Seq<Seq<u8>>)>::empty(),
{
    hyper::header::Headers::new()
}

/// Relies on hyper's `Headers::set_raw`: the field whose name matches without
/// regard to ASCII case gets the new name and lines where it stands, else the
/// field is appended.
#[verifier::external_body]
fn hyper_headers_set_raw(h: &mut hyper::header::Headers, name: &'static str, lines: Vec<Vec<u8>>)
    ensures
        raw_fields(*final(h)) == with_field(raw_fields(*old(h)), name@, lines.deep_view()),
{
    h.set_raw(name, lines)
}

/// Relies on hyper's `Display` for `Headers`: for each field in order, one
/// line `name: value\r\n` per raw line, CR and LF in a value written as a
/// space. It fails, and `to_string` panics, only on a line that is not UTF-8.
#[verifier::external_body]
fn hyper_headers_render(h: &hyper::header::Headers) -> (r: String)
    requires
        all_lines_utf8(raw_fields(*h)),
    ensures
        r@ == render_fields(raw_fields(*h)),
{
    h.to_string()
}

/// An ordered collection of typed headers, one field per name, rendered as a
/// header block on demand.
pub struct HeaderCollection {
    inner: hyper::header::Headers,
}

impl HeaderCollection {
    /// The fields held, in order, each with its raw lines.
    pub closed spec fn fields(&self) -> Seq<(Seq<char>, Seq<Seq<u8>>)> {
        raw_fields(self.inner)
    }

    #[verifier::type_invariant]
    spec fn inv(&self) -> bool {
        all_lines_utf8(raw_fields(self.inner))
    }

    /// An empty collection.
    pub fn new() -> (r: HeaderCollection)
        ensures
            r.fields() == Seq::<(Seq<char>, Seq<Seq<u8>>)>::empty(),
    {
        HeaderCollection { inner: hyper_headers_new() }
    }

    /// Stores a typed header under its name, replacing a field of the same
    /// name (without regard to ASCII case) or appending a new one.
    pub fn set<H: TypedHeader>(&mut self, value: H)
        ensures
            final(self).fields() == with_field(
                old(self).fields(),
                H::spec_name(),
                seq![encode_utf8(value.spec_format())],
            ),
    {
        proof {
            use_type_invariant(&*self);
        }
        let text = value.fmt_header();
        let mut bytes: Vec<u8> = Vec::new();
        append_bytes(&mut bytes, text.as_str().as_bytes());
        let mut lines: Vec<Vec<u8>> = Vec::new();
        lines.push(bytes);
        assert(lines.deep_view()[0] == bytes@);
        assert(lines.deep_view() =~= seq![encode_utf8(value.spec_format())]);
        proof {
            lemma_with_field_utf8(self.fields(), H::spec_name(), lines.deep_view());
        }
        let mut held = HeaderCollection { inner: hyper_headers_new() };
        std::mem::swap(self, &mut held);
        let HeaderCollection { mut inner } = held;
        hyper_headers_set_raw(&mut inner, H::header_name(), lines);
        *self = HeaderCollection { inner };
    }

    /// The header block: one `name: value\r\n` line per raw line.
    pub fn to_string(&self) -> (r: String)
        ensures
            r@ == render_fields(self.fields()),
    {
        proof {
            use_type_invariant(self);
        }
        hyper_headers_render(&self.inner)
    }
}

} // verus!

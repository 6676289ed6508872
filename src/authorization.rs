use vstd::prelude::*;

use vstd::std_specs::cmp::PartialEqSpec;
use vstd::utf8::*;

use crate::headers::{header_line, render_fields, render_lines, unfold_line_breaks, with_field};
use crate::text::{decode_lossy, join_fragments, join_fragments_exec, lossy_decode};
use crate::typed::{ParseError, TypedHeader};

verus! {

/// The wire name of the `Authorization` header.
pub open spec fn authorization_name() -> Seq<char> {
    seq!['A', 'u', 't', 'h', 'o', 'r', 'i', 'z', 'a', 't', 'i', 'o', 'n']
}

/// The payload that parsing the raw fragments of a header yields: nothing
/// when there is no fragment, else the fragments joined by `", "` and
/// decoded lossily.
pub open spec fn parse_value(raw: Seq<Seq<u8>>) -> Option<Seq<char>> {
    if raw.len() == 0 {
        None
    } else {
        Some(lossy_decode(join_fragments(raw)))
    }
}

/// An `Authorization` header: an opaque text payload, such as
/// `Bearer <token>`, that is never interpreted.
#[derive(Clone, Debug)]
pub struct Authorization(pub String);

impl View for Authorization {
    type V = Seq<char>;

    open spec fn view(&self) -> Seq<char> {
        self.0@
    }
}

impl Authorization {
    /// Builds the header from a payload, as it is.
    pub fn new(s: &str) -> (r: Authorization)
        ensures
            r@ == s@,
    {
        Authorization(s.to_owned())
    }

    /// The payload, borrowed.
    pub fn as_string(&self) -> (r: &String)
        ensures
            r@ == self@,
    {
        &self.0
    }

    /// The payload as text, with no framing around it.
    pub fn to_string(&self) -> (r: String)
        ensures
            r@ == self@,
    {
        self.0.clone()
    }
}

impl std::ops::Deref for Authorization {
    type Target = String;

    fn deref(&self) -> (r: &String)
        ensures
            r@ == self@,
    {
        &self.0
    }
}

impl std::str::FromStr for Authorization {
    type Err = ParseError;

    fn from_str(s: &str) -> (r: Result<Authorization, ParseError>)
        ensures
            r matches Ok(a) && a@ == s@,
    {
        Ok(Authorization::new(s))
    }
}

impl PartialEq for Authorization {
    fn eq(&self, other: &Authorization) -> (r: bool) {
        self.0 == other.0
    }
}

impl vstd::std_specs::cmp::PartialEqSpecImpl for Authorization {
    open spec fn obeys_eq_spec() -> bool {
        true
    }

    open spec fn eq_spec(&self, other: &Authorization) -> bool {
        self@ == other@
    }
}

impl TypedHeader for Authorization {
    open spec fn spec_name() -> Seq<char> {
        authorization_name()
    }

    open spec fn spec_format(&self) -> Seq<char> {
        self@
    }

    open spec fn is_parsed_from(&self, raw: Seq<Seq<u8>>) -> bool {
        parse_value(raw) == Some(self@)
    }

    fn header_name() -> (r: &'static str) {
        let r = "Authorization";
        proof {
            reveal_strlit("Authorization");
        }
        r
    }

    fn parse_header(raw: &[Vec<u8>]) -> (r: Result<Authorization, ParseError>)
        ensures
            r is Err <==> raw@.len() == 0,
            r matches Ok(a) ==> parse_value(raw.deep_view()) == Some(a@),
            r matches Err(e) ==> e == ParseError::Absent,
    {
        if raw.len() == 0 {
            return Err(ParseError::Absent);
        }
        let joined = join_fragments_exec(raw);
        Ok(Authorization(decode_lossy(joined.as_slice())))
    }

    fn fmt_header(&self) -> (r: String) {
        self.0.clone()
    }
}

/// Text that holds no CR and no LF.
pub open spec fn no_line_breaks(s: Seq<char>) -> bool {
    forall|i: int| 0 <= i < s.len() ==> #[trigger] s[i] != '\r' && s[i] != '\n'
}

/// A header built from text formats as that text; parsing its encoded form
/// as a single fragment gives the text back; and where the text holds no CR
/// or LF, an empty collection that receives it renders exactly the line
/// `Authorization: <text>\r\n`.
pub proof fn lemma_round_trip(a: Authorization, s: Seq<char>)
    requires
        a@ == s,
    ensures
        a.spec_format() == s,
        parse_value(seq![encode_utf8(s)]) == Some(s),
        no_line_breaks(s) ==> render_fields(
            with_field(Seq::empty(), authorization_name(), seq![encode_utf8(s)]),
        ) == authorization_name() + seq![':', ' '] + s + seq!['\r', '\n'],
{
    encode_utf8_valid_utf8(s);
    encode_utf8_decode_utf8(s);
    let lines = seq![encode_utf8(s)];
    assert(join_fragments(lines) == encode_utf8(s));
    if no_line_breaks(s) {
        assert(unfold_line_breaks(s) =~= s);
        let fields = with_field(Seq::empty(), authorization_name(), lines);
        assert(fields =~= seq![(authorization_name(), lines)]);
        assert(fields.drop_last() =~= Seq::empty());
        assert(lines.drop_last() =~= Seq::<Seq<u8>>::empty());
        assert(lines.last() == encode_utf8(s));
        assert(render_lines(authorization_name(), lines.drop_last()) == Seq::<char>::empty());
        assert(render_lines(authorization_name(), lines) =~= header_line(
            authorization_name(),
            s,
        ));
        assert(render_fields(fields.drop_last()) == Seq::<char>::empty());
        assert(render_fields(fields) =~= header_line(authorization_name(), s));
    }
}

/// Equality of headers is equality of their payloads.
pub proof fn lemma_equality(a: Authorization, b: Authorization, s: Seq<char>, t: Seq<char>)
    requires
        a@ == s,
        b@ == t,
    ensures
        a.eq_spec(&b) <==> s == t,
{
}

} // verus!

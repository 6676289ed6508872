use vstd::prelude::*;

verus! {

/// Why a typed header could not be built from its raw fragments.
#[derive(Clone, Copy, Debug, PartialEq, Eq, Structural)]
pub enum ParseError {
    /// No fragment of the header was present.
    Absent,
}

/// A header with a fixed wire name that can be parsed from raw fragments and
/// formatted back to the text that follows `name: ` on the wire.
pub trait TypedHeader: Sized {
    /// The wire name shared by every value of the type.
    spec fn spec_name() -> Seq<char>;

    /// The text that formatting the value yields.
    spec fn spec_format(&self) -> Seq<char>;

    /// Whether the value is one that parsing could have produced.
    spec fn is_parsed_from(&self, raw: Seq<Seq<u8>>) -> bool;

    /// The wire name, the same for every value.
    fn header_name() -> (r: &'static str)
        ensures
            r@ == Self::spec_name(),
    ;

    /// Builds a value from the raw fragments of the header, in wire order.
    fn parse_header(raw: &[Vec<u8>]) -> (r: Result<Self, ParseError>)
        ensures
            r matches Ok(h) ==> h.is_parsed_from(raw.deep_view()),
    ;

    /// The text that follows `name: ` on the wire.
    fn fmt_header(&self) -> (r: String)
        ensures
            r@ == self.spec_format(),
    ;
}

} // verus!

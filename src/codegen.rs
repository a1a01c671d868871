//! Turning a GUID literal, known when a program is built, into Rust source for
//! the constant it stands for, so that the value is fixed before the program
//! runs and a bad literal stops the build.
use crate::error::ParseGuidError;
use crate::guid::Guid;
use crate::layout::GuidLayout;
use crate::text::{accepts, digit_bytes, hex_text, parses_to, push_hex, refused_with, significant};
use vstd::prelude::*;

verus! {

/// The Rust hexadecimal literal that writes the bytes `b` as one integer, with
/// two digits for each byte.
pub open spec fn hex_literal(b: Seq<u8>) -> Seq<char> {
    "0x"@ + hex_text(b)
}

/// The bytes of `b` as hexadecimal literals separated by `, `.
pub open spec fn byte_list(b: Seq<u8>) -> Seq<char>
    decreases b.len(),
{
    if b.len() == 0 {
        seq![]
    } else if b.len() == 1 {
        hex_literal(b)
    } else {
        byte_list(b.drop_last()) + ", "@ + hex_literal(seq![b.last()])
    }
}

/// The Rust expression that builds the GUID whose 16-byte big-endian form is
/// `b`.
pub open spec fn constant_text(b: Seq<u8>) -> Seq<char> {
    "Guid { data1: "@ + hex_literal(b.subrange(0, 4)) + ", data2: "@ + hex_literal(
        b.subrange(4, 6),
    ) + ", data3: "@ + hex_literal(b.subrange(6, 8)) + ", data4: ["@ + byte_list(
        b.subrange(8, 16),
    ) + "] }"@
}

/// The Rust item that gives the type `name` an accessor `guid()` returning the
/// GUID whose 16-byte big-endian form is `b`.
pub open spec fn accessor_text(name: Seq<char>, b: Seq<u8>) -> Seq<char> {
    "impl "@ + name + " {\n    pub fn guid() -> Guid {\n        "@ + constant_text(b)
        + "\n    }\n}\n"@
}

/// Appends to `out` the literals of `bytes[from..to]`, separated by `, `.
fn push_byte_list(out: &mut String, bytes: &[u8; 16], from: usize, to: usize)
    requires
        from <= to <= 16,
    ensures
        final(out)@ == old(out)@ + byte_list(bytes@.subrange(from as int, to as int)),
{
    let ghost start = out@;
    let mut i: usize = from;
    while i < to
        invariant
            from <= i <= to <= 16,
            out@ == start + byte_list(bytes@.subrange(from as int, i as int)),
        decreases to - i,
    {
        let ghost before = out@;
        let ghost done = bytes@.subrange(from as int, i + 1);
        if i > from {
            out.append(", ");
        }
        out.append("0x");
        push_hex(out, bytes, i, i + 1);
        proof {
            assert(done.drop_last() =~= bytes@.subrange(from as int, i as int));
            assert(bytes@.subrange(i as int, i + 1) =~= seq![done.last()]);
            if i == from {
                assert(done =~= bytes@.subrange(i as int, i + 1));
            }
            assert(out@ =~= start + byte_list(done));
        }
        i = i + 1;
    }
}

impl Guid {
    /// The Rust expression that builds this GUID, each field written in
    /// hexadecimal: `Guid { data1: 0x01020304, data2: 0x0506, data3: 0x0708,
    /// data4: [0x09, 0x0a, 0x0b, 0x0d, 0x0e, 0x0f, 0x10, 0x11] }`.
    pub fn constant_expression(&self) -> (r: String)
        ensures
            r@ == constant_text(self@),
    {
        let bytes = self.to_be_bytes();
        let r1 = GuidLayout::data1();
        let r2 = GuidLayout::data2();
        let r3 = GuidLayout::data3();
        let r4 = GuidLayout::data4();
        let mut out = String::from_str("Guid { data1: ");
        out.append("0x");
        push_hex(&mut out, &bytes, r1.start, r1.end);
        out.append(", data2: ");
        out.append("0x");
        push_hex(&mut out, &bytes, r2.start, r2.end);
        out.append(", data3: ");
        out.append("0x");
        push_hex(&mut out, &bytes, r3.start, r3.end);
        out.append(", data4: [");
        push_byte_list(&mut out, &bytes, r4.start, r4.end);
        out.append("] }");
        assert(out@ =~= constant_text(self@));
        out
    }
}

/// Reads `literal` as the parser does and, where it is accepted, gives the
/// Rust expression for the GUID it stands for; where it is refused, gives the
/// parser's error, for the build to stop on.
pub fn literal_constant(literal: &str) -> (r: Result<String, ParseGuidError>)
    ensures
        r is Ok <==> accepts(literal@),
        r matches Ok(t) ==> t@ == constant_text(digit_bytes(significant(literal@))),
        r matches Err(e) ==> refused_with(literal@, e.spec_kind()),
{
    match Guid::parse(literal) {
        Ok(g) => Ok(g.constant_expression()),
        Err(e) => Err(e),
    }
}

/// Reads `literal` as the parser does and, where it is accepted, gives the
/// Rust item that lets the type named `owner` report that GUID through an
/// accessor `guid()`; where it is refused, gives the parser's error.
pub fn literal_accessor(owner: &str, literal: &str) -> (r: Result<String, ParseGuidError>)
    ensures
        r is Ok <==> accepts(literal@),
        r matches Ok(t) ==> t@ == accessor_text(
            owner@,
            digit_bytes(significant(literal@)),
        ),
        r matches Err(e) ==> refused_with(literal@, e.spec_kind()),
{
    match literal_constant(literal) {
        Ok(expression) => {
            let mut out = String::from_str("impl ");
            out.append(owner);
            out.append(" {\n    pub fn guid() -> Guid {\n        ");
            out.append(expression.as_str());
            out.append("\n    }\n}\n");
            assert(out@ =~= accessor_text(owner@, digit_bytes(significant(literal@))));
            Ok(out)
        },
        Err(e) => Err(e),
    }
}

/// What is emitted for an accepted literal is the expression of the very GUID
/// that parsing the same literal gives when the program runs.
pub proof fn lemma_literal_constant_matches_parse(s: Seq<char>, g: Guid)
    requires
        parses_to(s, g),
    ensures
        accepts(s),
        constant_text(digit_bytes(significant(s))) == constant_text(g@),
{
}

} // verus!

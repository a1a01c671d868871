//! The text form of a GUID: the grammar the parser accepts and the canonical
//! form the formatter writes.
use crate::error::{ParseGuidError, ParseGuidErrorKind};
use crate::guid::{lemma_view_injective, Guid};
use crate::hex::{
    hex_char, hex_digit_text, hex_digit_value, hex_value, is_hex, is_hex_digit,
    lemma_hex_char_value,
};
use crate::layout::GuidLayout;
use vstd::prelude::*;

verus! {

/// White space in the sense of Unicode's `White_Space` property: tab, line
/// feed, vertical tab, form feed, carriage return, space, next line, no-break
/// space, ogham space mark, the spaces from en quad to hair space, line and
/// paragraph separators, narrow no-break space, medium mathematical space and
/// ideographic space.
pub open spec fn is_white_space(c: char) -> bool {
    ('\t' <= c && c <= '\r') || c == ' ' || c == '\u{85}' || c == '\u{A0}' || c == '\u{1680}'
        || ('\u{2000}' <= c && c <= '\u{200A}') || c == '\u{2028}' || c == '\u{2029}' || c
        == '\u{202F}' || c == '\u{205F}' || c == '\u{3000}'
}

/// The characters the parser passes over: white space, double quotes and
/// hyphens.
pub open spec fn is_ignored(c: char) -> bool {
    is_white_space(c) || c == '"' || c == '-'
}

/// The characters of `s` that the parser does not pass over, in order.
pub open spec fn significant(s: Seq<char>) -> Seq<char>
    decreases s.len(),
{
    if s.len() == 0 {
        seq![]
    } else if is_ignored(s.last()) {
        significant(s.drop_last())
    } else {
        significant(s.drop_last()).push(s.last())
    }
}

/// Every character of `t` is a hexadecimal digit.
pub open spec fn all_hex(t: Seq<char>) -> bool {
    forall|i: int| 0 <= i < t.len() ==> is_hex_digit(#[trigger] t[i])
}

/// The parser accepts `s`: it holds 32 significant characters, all of them
/// hexadecimal digits.
pub open spec fn accepts(s: Seq<char>) -> bool {
    significant(s).len() == 32 && all_hex(significant(s))
}

/// The byte that the digits `t[2 * i]` and `t[2 * i + 1]` write, the first
/// one the more significant.
pub open spec fn digit_pair(t: Seq<char>, i: int) -> u8 {
    (hex_value(t[2 * i]) * 16 + hex_value(t[2 * i + 1])) as u8
}

/// The 16 bytes that 32 hexadecimal digits write, two digits to a byte, most
/// significant first: the digits read as one 128-bit integer, in big-endian
/// order.
pub open spec fn digit_bytes(t: Seq<char>) -> Seq<u8> {
    Seq::new(16, |i: int| digit_pair(t, i))
}

/// `g` is what the parser reads from `s`.
pub open spec fn parses_to(s: Seq<char>, g: Guid) -> bool {
    accepts(s) && g@ == digit_bytes(significant(s))
}

/// `p` is the index in `s` of the first character that is neither passed
/// over nor a hexadecimal digit.
pub open spec fn first_invalid(s: Seq<char>, p: int) -> bool {
    &&& 0 <= p < s.len()
    &&& !is_ignored(s[p])
    &&& !is_hex_digit(s[p])
    &&& forall|j: int| 0 <= j < p ==> is_ignored(#[trigger] s[j]) || is_hex_digit(s[j])
}

/// `kind` is the reason the parser gives for refusing `s`: the length when
/// the count of significant characters is not 32, else the first character
/// that is not a hexadecimal digit.
pub open spec fn refused_with(s: Seq<char>, kind: ParseGuidErrorKind) -> bool {
    if significant(s).len() != 32 {
        kind == ParseGuidErrorKind::InvalidLenError
    } else {
        kind matches ParseGuidErrorKind::InvalidHexDigit(p) && first_invalid(s, p as int)
    }
}

/// The two lower-case digits that write `b`.
pub open spec fn byte_text(b: u8) -> Seq<char> {
    seq![hex_char(b as int / 16), hex_char(b as int % 16)]
}

/// The digits that write the bytes `b`, two to a byte, in order.
pub open spec fn hex_text(b: Seq<u8>) -> Seq<char>
    decreases b.len(),
{
    if b.len() == 0 {
        seq![]
    } else {
        hex_text(b.drop_last()) + byte_text(b.last())
    }
}

/// The canonical text of the 16 bytes `b`: groups of 8, 4, 4, 4 and 12
/// lower-case digits joined by hyphens.
pub open spec fn canonical_text(b: Seq<u8>) -> Seq<char> {
    hex_text(b.subrange(0, 4)) + seq!['-'] + hex_text(b.subrange(4, 6)) + seq!['-'] + hex_text(
        b.subrange(6, 8),
    ) + seq!['-'] + hex_text(b.subrange(8, 10)) + seq!['-'] + hex_text(b.subrange(10, 16))
}

/// A lower-case hexadecimal digit.
pub open spec fn is_lower_hex_digit(c: char) -> bool {
    ('0' <= c && c <= '9') || ('a' <= c && c <= 'f')
}

/// The digits of `b` come two to a byte: the high half of `b[i]` at `2 * i`,
/// the low half at `2 * i + 1`.
pub proof fn lemma_hex_text_index(b: Seq<u8>)
    ensures
        hex_text(b).len() == 2 * b.len(),
        forall|i: int|
            0 <= i < b.len() ==> hex_text(b)[2 * i] == hex_char(#[trigger] b[i] as int / 16)
                && hex_text(b)[2 * i + 1] == hex_char(b[i] as int % 16),
    decreases b.len(),
{
    if b.len() > 0 {
        lemma_hex_text_index(b.drop_last());
        assert forall|i: int| 0 <= i < b.len() implies hex_text(b)[2 * i] == hex_char(
            #[trigger] b[i] as int / 16,
        ) && hex_text(b)[2 * i + 1] == hex_char(b[i] as int % 16) by {
            if i < b.len() - 1 {
                assert(b.drop_last()[i] == b[i]);
            }
        }
    }
}

/// Every digit written for `b` is a lower-case hexadecimal digit.
pub proof fn lemma_hex_text_lower(b: Seq<u8>)
    ensures
        forall|i: int|
            0 <= i < hex_text(b).len() ==> is_lower_hex_digit(#[trigger] hex_text(b)[i]),
    decreases b.len(),
{
    if b.len() > 0 {
        let front = hex_text(b.drop_last());
        lemma_hex_text_lower(b.drop_last());
        lemma_hex_char_value(b.last() as int / 16);
        lemma_hex_char_value(b.last() as int % 16);
        assert forall|i: int| 0 <= i < hex_text(b).len() implies is_lower_hex_digit(
            #[trigger] hex_text(b)[i],
        ) by {
            if i < front.len() {
                assert(hex_text(b)[i] == front[i]);
            }
        }
    }
}

/// The digits of two runs of bytes, one after the other, are the digits of
/// the joined run.
pub proof fn lemma_hex_text_add(a: Seq<u8>, b: Seq<u8>)
    ensures
        hex_text(a + b) == hex_text(a) + hex_text(b),
    decreases b.len(),
{
    if b.len() > 0 {
        lemma_hex_text_add(a, b.drop_last());
        assert((a + b).drop_last() =~= a + b.drop_last());
        assert(hex_text(a + b) =~= hex_text(a) + hex_text(b));
    } else {
        assert(a + b =~= a);
        assert(hex_text(a) + hex_text(b) =~= hex_text(a));
    }
}

/// The parser keeps from two texts, one after the other, what it keeps from
/// each.
pub proof fn lemma_significant_add(a: Seq<char>, b: Seq<char>)
    ensures
        significant(a + b) == significant(a) + significant(b),
    decreases b.len(),
{
    if b.len() > 0 {
        lemma_significant_add(a, b.drop_last());
        assert((a + b).drop_last() =~= a + b.drop_last());
        assert((a + b).last() == b.last());
        assert(significant(a + b) =~= significant(a) + significant(b));
    } else {
        assert(a + b =~= a);
        assert(significant(a) + significant(b) =~= significant(a));
    }
}

/// A text of hexadecimal digits is kept whole.
pub proof fn lemma_significant_all_hex(t: Seq<char>)
    requires
        all_hex(t),
    ensures
        significant(t) == t,
    decreases t.len(),
{
    if t.len() > 0 {
        assert(all_hex(t.drop_last()));
        lemma_significant_all_hex(t.drop_last());
        assert(is_hex_digit(t[t.len() - 1]));
        assert(significant(t) =~= t);
    }
}

/// Every digit written for `b` is a hexadecimal digit.
proof fn lemma_hex_text_all_hex(b: Seq<u8>)
    ensures
        all_hex(hex_text(b)),
{
    lemma_hex_text_lower(b);
}

/// Parsing the canonical text of a GUID succeeds, and what it gives is that
/// GUID and no other.
pub proof fn lemma_parse_to_string(g: Guid, h: Guid)
    ensures
        accepts(canonical_text(g@)),
        parses_to(canonical_text(g@), h) <==> h == g,
{
    let b = g@;
    assert(b.len() == 16);
    let group1 = b.subrange(0, 4);
    let group2 = b.subrange(4, 6);
    let group3 = b.subrange(6, 8);
    let group4 = b.subrange(8, 10);
    let group5 = b.subrange(10, 16);
    let dash = seq!['-'];
    assert(significant(dash) == Seq::<char>::empty()) by {
        assert(dash.drop_last() == Seq::<char>::empty());
        assert(dash.last() == '-');
        assert(significant(Seq::<char>::empty()) == Seq::<char>::empty());
    }
    lemma_hex_text_all_hex(group1);
    lemma_hex_text_all_hex(group2);
    lemma_hex_text_all_hex(group3);
    lemma_hex_text_all_hex(group4);
    lemma_hex_text_all_hex(group5);
    lemma_significant_all_hex(hex_text(group1));
    lemma_significant_all_hex(hex_text(group2));
    lemma_significant_all_hex(hex_text(group3));
    lemma_significant_all_hex(hex_text(group4));
    lemma_significant_all_hex(hex_text(group5));
    let t1 = hex_text(group1) + dash;
    let t2 = t1 + hex_text(group2);
    let t3 = t2 + dash;
    let t4 = t3 + hex_text(group3);
    let t5 = t4 + dash;
    let t6 = t5 + hex_text(group4);
    let t7 = t6 + dash;
    let t8 = t7 + hex_text(group5);
    assert(t8 == canonical_text(b));
    lemma_significant_add(hex_text(group1), dash);
    lemma_significant_add(t1, hex_text(group2));
    lemma_significant_add(t2, dash);
    lemma_significant_add(t3, hex_text(group3));
    lemma_significant_add(t4, dash);
    lemma_significant_add(t5, hex_text(group4));
    lemma_significant_add(t6, dash);
    lemma_significant_add(t7, hex_text(group5));
    lemma_hex_text_add(group1, group2);
    lemma_hex_text_add(group1 + group2, group3);
    lemma_hex_text_add(group1 + group2 + group3, group4);
    lemma_hex_text_add(group1 + group2 + group3 + group4, group5);
    assert(group1 + group2 + group3 + group4 + group5 =~= b);
    let digits = hex_text(b);
    assert(significant(canonical_text(b)) =~= digits);
    lemma_hex_text_all_hex(b);
    lemma_hex_text_index(b);
    assert forall|i: int| 0 <= i < 16 implies #[trigger] digit_pair(digits, i) == b[i] by {
        lemma_hex_char_value(b[i] as int / 16);
        lemma_hex_char_value(b[i] as int % 16);
    }
    assert(digit_bytes(digits) =~= b);
    if parses_to(canonical_text(g@), h) {
        lemma_view_injective(g, h);
    }
}

/// The canonical text of a GUID has 36 characters: hyphens at indices 8, 13,
/// 18 and 23 and lower-case hexadecimal digits everywhere else, so no
/// upper-case letter and no brace.
pub proof fn lemma_to_string_shape(g: Guid)
    ensures
        canonical_text(g@).len() == 36,
        forall|i: int|
            0 <= i < 36 ==> (#[trigger] canonical_text(g@)[i] == '-' <==> (i == 8 || i == 13
                || i == 18 || i == 23)),
        forall|i: int|
            0 <= i < 36 && i != 8 && i != 13 && i != 18 && i != 23 ==> is_lower_hex_digit(
                #[trigger] canonical_text(g@)[i],
            ),
        forall|i: int|
            0 <= i < 36 ==> {
                let c = #[trigger] canonical_text(g@)[i];
                !('A' <= c && c <= 'Z') && c != '{' && c != '}'
            },
{
    let b = g@;
    lemma_hex_text_index(b.subrange(0, 4));
    lemma_hex_text_index(b.subrange(4, 6));
    lemma_hex_text_index(b.subrange(6, 8));
    lemma_hex_text_index(b.subrange(8, 10));
    lemma_hex_text_index(b.subrange(10, 16));
    lemma_hex_text_lower(b.subrange(0, 4));
    lemma_hex_text_lower(b.subrange(4, 6));
    lemma_hex_text_lower(b.subrange(6, 8));
    lemma_hex_text_lower(b.subrange(8, 10));
    lemma_hex_text_lower(b.subrange(10, 16));
}

/// Whether the parser passes over `c`.
pub fn is_ignored_char(c: char) -> (r: bool)
    ensures
        r == is_ignored(c),
{
    let white = ('\t' <= c && c <= '\r') || c == ' ' || c == '\u{85}' || c == '\u{A0}' || c
        == '\u{1680}' || ('\u{2000}' <= c && c <= '\u{200A}') || c == '\u{2028}' || c
        == '\u{2029}' || c == '\u{202F}' || c == '\u{205F}' || c == '\u{3000}';
    white || c == '"' || c == '-'
}

impl Guid {
    /// Reads a GUID from text. Double quotes, white space and hyphens
    /// are passed over wherever they stand; what is left must be exactly 32
    /// hexadecimal digits of either case, which write the 16 big-endian bytes
    /// of the GUID. A text of another length is refused with
    /// `InvalidLenError`, checked first; one of the right length with another
    /// character is refused with `InvalidHexDigit`, at the first such
    /// character.
    pub fn parse(s: &str) -> (r: Result<Guid, ParseGuidError>)
        ensures
            r is Ok <==> accepts(s@),
            r matches Ok(g) ==> parses_to(s@, g),
            r matches Err(e) ==> refused_with(s@, e.spec_kind()),
    {
        let n = s.unicode_len();
        let mut digits: Vec<char> = Vec::new();
        let mut invalid: Option<usize> = None;
        let ghost mut witness: int = 0;
        let mut i: usize = 0;
        while i < n
            invariant
                n == s@.len(),
                i <= n,
                digits@ == significant(s@.subrange(0, i as int)),
                invalid is None ==> all_hex(digits@),
                invalid is None ==> forall|j: int|
                    0 <= j < i ==> is_ignored(#[trigger] s@[j]) || is_hex_digit(s@[j]),
                invalid matches Some(p) ==> first_invalid(s@, p as int),
                invalid is Some ==> 0 <= witness < digits@.len() && !is_hex_digit(
                    digits@[witness],
                ),
            decreases n - i,
        {
            let c = s.get_char(i);
            proof {
                assert(s@.subrange(0, i + 1).drop_last() =~= s@.subrange(0, i as int));
            }
            if !is_ignored_char(c) {
                if invalid.is_none() && !is_hex(c) {
                    invalid = Some(i);
                    proof {
                        witness = digits@.len() as int;
                    }
                }
                digits.push(c);
            }
            i = i + 1;
        }
        proof {
            assert(s@.subrange(0, n as int) =~= s@);
        }
        if digits.len() != 32 {
            return Err(ParseGuidError::new(ParseGuidErrorKind::InvalidLenError));
        }
        if let Some(p) = invalid {
            return Err(ParseGuidError::new(ParseGuidErrorKind::InvalidHexDigit(p)));
        }
        let mut bytes: [u8; 16] = [0u8; 16];
        let mut k: usize = 0;
        while k < 16
            invariant
                k <= 16,
                digits@.len() == 32,
                all_hex(digits@),
                forall|j: int| 0 <= j < k ==> bytes[j] == digit_pair(digits@, j),
            decreases 16 - k,
        {
            let high = hex_digit_value(digits[2 * k]);
            let low = hex_digit_value(digits[2 * k + 1]);
            bytes[k] = high * 16 + low;
            k = k + 1;
        }
        proof {
            assert(bytes@ =~= digit_bytes(digits@));
        }
        Ok(Guid::from_be_bytes(&bytes))
    }
}

impl core::str::FromStr for Guid {
    type Err = ParseGuidError;

    /// Reads a GUID from text, as `Guid::parse` does.
    fn from_str(s: &str) -> (r: Result<Guid, ParseGuidError>)
        ensures
            r is Ok <==> accepts(s@),
            r matches Ok(g) ==> parses_to(s@, g),
            r matches Err(e) ==> refused_with(s@, e.spec_kind()),
    {
        Guid::parse(s)
    }
}

/// Appends to `out` the digits that write `bytes[from..to]`.
pub(crate) fn push_hex(out: &mut String, bytes: &[u8; 16], from: usize, to: usize)
    requires
        from <= to <= 16,
    ensures
        final(out)@ == old(out)@ + hex_text(bytes@.subrange(from as int, to as int)),
{
    let ghost start = out@;
    let mut i: usize = from;
    while i < to
        invariant
            from <= i <= to <= 16,
            out@ == start + hex_text(bytes@.subrange(from as int, i as int)),
        decreases to - i,
    {
        let b = bytes[i];
        out.append(hex_digit_text(b / 16));
        out.append(hex_digit_text(b % 16));
        proof {
            let done = bytes@.subrange(from as int, i + 1);
            assert(done.drop_last() =~= bytes@.subrange(from as int, i as int));
            assert(done.last() == b);
            assert(out@ =~= start + hex_text(done));
        }
        i = i + 1;
    }
}

impl Guid {
    /// The canonical text of this GUID, `xxxxxxxx-xxxx-xxxx-xxxx-xxxxxxxxxxxx`
    /// in lower-case digits: each integer field written most significant digit
    /// first, then the bytes of `data4` in order.
    pub fn to_string(&self) -> (r: String)
        ensures
            r@ == canonical_text(self@),
    {
        let bytes = self.to_be_bytes();
        let r1 = GuidLayout::data1();
        let r2 = GuidLayout::data2();
        let r3 = GuidLayout::data3();
        let r4 = GuidLayout::data4();
        proof {
            reveal_strlit("-");
        }
        let mut out = String::new();
        push_hex(&mut out, &bytes, r1.start, r1.end);
        out.append("-");
        push_hex(&mut out, &bytes, r2.start, r2.end);
        out.append("-");
        push_hex(&mut out, &bytes, r3.start, r3.end);
        out.append("-");
        push_hex(&mut out, &bytes, r4.start, r4.start + 2);
        out.append("-");
        push_hex(&mut out, &bytes, r4.start + 2, r4.end);
        assert(out@ =~= canonical_text(self@));
        out
    }
}

} // verus!

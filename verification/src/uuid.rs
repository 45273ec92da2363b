//! The GUID codec: a fixed 16-byte wire value together with the
//! canonical mixed-endian hyphenated text form.
//!
//! The wire form stores the bytes unchanged; the text form reorders
//! the first three sub-groups (4, 2 and 2 bytes) to little-endian
//! within the group before hex-formatting, and joins the groups with
//! hyphens in the pattern `XXXXXXXX-XXXX-XXXX-XXXX-XXXXXXXXXXXX`.
//! Construction succeeds only when every raw byte is ASCII alphabetic.

use vstd::prelude::*;
use vstd::string::StrSliceExecFns;
use vstd::string::StringExecFns;

use crate::err::GptError;

verus! {

/// The size in bytes of a GUID on the wire.
pub const UUID_SIZE: usize = 16;

/// A 16-byte GUID, stored as raw wire bytes with no reordering.
#[derive(Debug, Clone, Copy, PartialEq, Eq, Default)]
pub struct PartUUID(pub [u8; UUID_SIZE]);

/// True of a byte in the ASCII ranges `A`..`Z` or `a`..`z`.
pub open spec fn is_guid_byte(b: u8) -> bool {
    (0x41 <= b && b <= 0x5a) || (0x61 <= b && b <= 0x7a)
}

/// True of a well-formed raw GUID: 16 bytes, all ASCII alphabetic.
pub open spec fn guid_bytes_ok(s: Seq<u8>) -> bool {
    &&& s.len() == 16
    &&& forall|i: int| 0 <= i < 16 ==> is_guid_byte(#[trigger] s[i])
}

/// The display order of the 16 wire bytes: the first three sub-groups
/// of 4, 2 and 2 bytes are each reversed, the last 8 bytes stay put.
/// Applying it twice gives back the original sequence.
pub open spec fn guid_reorder(s: Seq<u8>) -> Seq<u8>
    recommends
        s.len() == 16,
{
    seq![
        s[3], s[2], s[1], s[0],
        s[5], s[4],
        s[7], s[6],
        s[8], s[9], s[10], s[11], s[12], s[13], s[14], s[15],
    ]
}

/// The lowercase hex digit for a nibble.
pub open spec fn hex_digit_char(n: u8) -> char
    recommends
        n < 16,
{
    if n < 10 {
        ((n + 0x30) as char)
    } else {
        ((n + 0x57) as char)
    }
}

/// The two hex digits of one byte, high nibble first.
pub open spec fn hex_pair(b: u8) -> Seq<char> {
    seq![hex_digit_char(b / 16), hex_digit_char(b % 16)]
}

/// The 36-character hyphenated text form of a raw 16-byte GUID.
pub open spec fn spec_guid_text(s: Seq<u8>) -> Seq<char> {
    let d = guid_reorder(s);
    hex_pair(d[0]) + hex_pair(d[1]) + hex_pair(d[2]) + hex_pair(d[3]) + seq!['-'] + hex_pair(d[4])
        + hex_pair(d[5]) + seq!['-'] + hex_pair(d[6]) + hex_pair(d[7]) + seq!['-'] + hex_pair(d[8])
        + hex_pair(d[9]) + seq!['-'] + hex_pair(d[10]) + hex_pair(d[11]) + hex_pair(d[12])
        + hex_pair(d[13]) + hex_pair(d[14]) + hex_pair(d[15])
}

/// The numeric value of a hex digit character, if it is one.
/// Both lowercase and uppercase digits are accepted.
pub open spec fn hex_val(c: char) -> Option<u8> {
    let v = c as u32;
    if 0x30 <= v && v <= 0x39 {
        Some(((v - 0x30) as u8))
    } else if 0x61 <= v && v <= 0x66 {
        Some(((v - 0x61 + 10) as u8))
    } else if 0x41 <= v && v <= 0x46 {
        Some(((v - 0x41 + 10) as u8))
    } else {
        None
    }
}

/// True of a character that is a hex digit.
pub open spec fn is_hex_digit(c: char) -> bool {
    hex_val(c) is Some
}

/// The byte spelled by two hex digit characters, high nibble first.
pub open spec fn pair_val(hi: char, lo: char) -> u8
    recommends
        is_hex_digit(hi),
        is_hex_digit(lo),
{
    (hex_val(hi)->Some_0 * 16 + hex_val(lo)->Some_0) as u8
}

/// The text with every hyphen removed, other characters kept in order.
pub open spec fn strip_dashes(t: Seq<char>) -> Seq<char> {
    t.filter(|c: char| c != '-')
}

/// What parsing a GUID text form yields: strip hyphens, require
/// exactly 32 hex digits, undo the mixed-endian display order, and
/// require every reconstructed wire byte to be ASCII alphabetic.
pub open spec fn spec_guid_parse(t: Seq<char>) -> Option<Seq<u8>> {
    let u = strip_dashes(t);
    if u.len() == 32 && (forall|i: int| 0 <= i < 32 ==> is_hex_digit(#[trigger] u[i])) {
        let raw = Seq::new(16, |k: int| pair_val(u[2 * k], u[2 * k + 1]));
        let wire = guid_reorder(raw);
        if guid_bytes_ok(wire) {
            Some(wire)
        } else {
            None
        }
    } else {
        None
    }
}

impl View for PartUUID {
    type V = Seq<u8>;

    open spec fn view(&self) -> Seq<u8> {
        self.0@
    }
}

impl PartUUID {
    /// True of a value whose bytes could have come from `try_from`.
    pub open spec fn wf(&self) -> bool {
        guid_bytes_ok(self@)
    }

    /// Builds a GUID from its raw wire bytes. Succeeds exactly when
    /// the input is 16 bytes long and every byte is ASCII alphabetic;
    /// the bytes are stored unchanged.
    ///
    /// Note that the alphabetic check runs on the raw wire bytes, not
    /// on a hex text form, so most arbitrary binary GUIDs are
    /// rejected; only values within this alphabet round-trip through
    /// the text form.
    pub fn try_from(value: &[u8]) -> (r: Result<Self, GptError>)
        ensures
            match r {
                Ok(u) => guid_bytes_ok(value@) && u@ == value@,
                Err(e) => !guid_bytes_ok(value@) && e == GptError::PartUUID,
            },
    {
        if value.len() != 16 {
            return Err(GptError::PartUUID);
        }
        let mut uuid: [u8; 16] = [0u8; 16];
        let mut i: usize = 0;
        while i < 16
            invariant
                i <= 16,
                value@.len() == 16,
                uuid@.len() == 16,
                forall|j: int| 0 <= j < i ==> is_guid_byte(#[trigger] value@[j]),
                forall|j: int| 0 <= j < i ==> uuid@[j] == value@[j],
            decreases 16 - i,
        {
            let b = value[i];
            if !((0x41 <= b && b <= 0x5a) || (0x61 <= b && b <= 0x7a)) {
                return Err(GptError::PartUUID);
            }
            uuid[i] = b;
            i = i + 1;
        }
        proof {
            assert(uuid@ =~= value@);
        }
        Ok(PartUUID(uuid))
    }

    /// The raw wire bytes.
    pub fn as_bytes(&self) -> (r: &[u8])
        ensures
            r@ == self@,
    {
        self.0.as_slice()
    }

    /// Formats the GUID in its hyphenated mixed-endian hex form.
    pub fn to_text(&self) -> (r: String)
        ensures
            r@ == spec_guid_text(self@),
    {
        let b = &self.0;
        let mut s = String::new();
        push_hex_pair(&mut s, b[3]);
        push_hex_pair(&mut s, b[2]);
        push_hex_pair(&mut s, b[1]);
        push_hex_pair(&mut s, b[0]);
        push_dash(&mut s);
        push_hex_pair(&mut s, b[5]);
        push_hex_pair(&mut s, b[4]);
        push_dash(&mut s);
        push_hex_pair(&mut s, b[7]);
        push_hex_pair(&mut s, b[6]);
        push_dash(&mut s);
        push_hex_pair(&mut s, b[8]);
        push_hex_pair(&mut s, b[9]);
        push_dash(&mut s);
        push_hex_pair(&mut s, b[10]);
        push_hex_pair(&mut s, b[11]);
        push_hex_pair(&mut s, b[12]);
        push_hex_pair(&mut s, b[13]);
        push_hex_pair(&mut s, b[14]);
        push_hex_pair(&mut s, b[15]);
        proof {
            assert(s@ =~= spec_guid_text(self@));
        }
        s
    }

    /// Parses the hyphenated text form back into raw wire bytes:
    /// hyphens are stripped wherever they stand, exactly 32 hex digits
    /// must remain, the display reordering is undone, and every
    /// reconstructed byte must be ASCII alphabetic.
    #[verifier::rlimit(50)]
    pub fn from_text(t: &str) -> (r: Result<Self, GptError>)
        ensures
            match r {
                Ok(u) => spec_guid_parse(t@) == Some(u@) && u.wf(),
                Err(e) => spec_guid_parse(t@) is None && e == GptError::PartUUID,
            },
    {
        let n = t.unicode_len();
        let mut digits: Vec<char> = Vec::new();
        let mut i: usize = 0;
        while i < n
            invariant
                i <= n,
                n == t@.len(),
                digits@ == strip_dashes(t@.subrange(0, i as int)),
            decreases n - i,
        {
            let c = t.get_char(i);
            proof {
                broadcast use vstd::prelude::Seq::lemma_filter_push;

                assert(t@.subrange(0, i + 1) =~= t@.subrange(0, i as int).push(t@[i as int]));
            }
            if c != '-' {
                digits.push(c);
            }
            i = i + 1;
        }
        proof {
            assert(t@.subrange(0, n as int) =~= t@);
        }
        let ghost u = strip_dashes(t@);
        if digits.len() != 32 {
            return Err(GptError::PartUUID);
        }
        let raw = match decode_pairs(&digits) {
            Some(raw) => raw,
            None => {
                return Err(GptError::PartUUID);
            },
        };
        let wire: [u8; 16] = [
            raw[3], raw[2], raw[1], raw[0],
            raw[5], raw[4],
            raw[7], raw[6],
            raw[8], raw[9], raw[10], raw[11], raw[12], raw[13], raw[14], raw[15],
        ];
        proof {
            assert(wire@ =~= guid_reorder(raw@));
        }
        if !all_guid_bytes(&wire) {
            return Err(GptError::PartUUID);
        }
        Ok(PartUUID(wire))
    }
}

/// Decodes 32 hex digit characters into 16 bytes, high nibble first,
/// or reports that some character is not a hex digit.
fn decode_pairs(digits: &Vec<char>) -> (r: Option<[u8; 16]>)
    requires
        digits@.len() == 32,
    ensures
        match r {
            Some(raw) => {
                &&& forall|i: int| 0 <= i < 32 ==> is_hex_digit(#[trigger] digits@[i])
                &&& raw@ == Seq::new(
                    16,
                    |k: int| pair_val(digits@[2 * k], digits@[2 * k + 1]),
                )
            },
            None => !(forall|i: int| 0 <= i < 32 ==> is_hex_digit(#[trigger] digits@[i])),
        },
{
    let mut raw: [u8; 16] = [0u8; 16];
    let mut k: usize = 0;
    while k < 16
        invariant
            k <= 16,
            digits@.len() == 32,
            raw@.len() == 16,
            forall|j: int|
                0 <= j < k ==> is_hex_digit(#[trigger] digits@[2 * j]) && is_hex_digit(
                    digits@[2 * j + 1],
                ),
            forall|j: int| 0 <= j < k ==> raw@[j] == pair_val(digits@[2 * j], digits@[2 * j + 1]),
        decreases 16 - k,
    {
        let hi = hex_val_exec(digits[2 * k]);
        let lo = hex_val_exec(digits[2 * k + 1]);
        match (hi, lo) {
            (Some(h), Some(l)) => {
                raw[k] = h * 16 + l;
            },
            _ => {
                return None;
            },
        }
        k = k + 1;
    }
    proof {
        assert forall|i2: int| 0 <= i2 < 32 implies is_hex_digit(#[trigger] digits@[i2]) by {
            let j = i2 / 2;
            assert(i2 == 2 * j || i2 == 2 * j + 1);
            assert(is_hex_digit(digits@[2 * j]) && is_hex_digit(digits@[2 * j + 1]));
        }
        assert(raw@ =~= Seq::new(
            16,
            |k2: int| pair_val(digits@[2 * k2], digits@[2 * k2 + 1]),
        ));
    }
    Some(raw)
}

/// True exactly when all 16 bytes are ASCII alphabetic.
fn all_guid_bytes(bytes: &[u8; 16]) -> (r: bool)
    ensures
        r == guid_bytes_ok(bytes@),
{
    let mut j: usize = 0;
    while j < 16
        invariant
            j <= 16,
            forall|m: int| 0 <= m < j ==> is_guid_byte(#[trigger] bytes@[m]),
        decreases 16 - j,
    {
        let b = bytes[j];
        if !((0x41 <= b && b <= 0x5a) || (0x61 <= b && b <= 0x7a)) {
            return false;
        }
        j = j + 1;
    }
    true
}

/// Appends the two hex digits of one byte, high nibble first.
fn push_hex_pair(s: &mut String, b: u8)
    ensures
        final(s)@ == old(s)@ + hex_pair(b),
{
    push_hex_digit(s, b / 16);
    push_hex_digit(s, b % 16);
    proof {
        assert(s@ =~= old(s)@ + hex_pair(b));
    }
}

/// Appends a single hyphen.
fn push_dash(s: &mut String)
    ensures
        final(s)@ == old(s)@ + seq!['-'],
{
    proof {
        reveal_strlit("-");
    }
    s.append("-");
    proof {
        assert(s@ =~= old(s)@ + seq!['-']);
    }
}

/// Appends the lowercase hex digit of a nibble.
fn push_hex_digit(s: &mut String, n: u8)
    requires
        n < 16,
    ensures
        final(s)@ == old(s)@ + seq![hex_digit_char(n)],
{
    proof {
        reveal_strlit("0");
        reveal_strlit("1");
        reveal_strlit("2");
        reveal_strlit("3");
        reveal_strlit("4");
        reveal_strlit("5");
        reveal_strlit("6");
        reveal_strlit("7");
        reveal_strlit("8");
        reveal_strlit("9");
        reveal_strlit("a");
        reveal_strlit("b");
        reveal_strlit("c");
        reveal_strlit("d");
        reveal_strlit("e");
        reveal_strlit("f");
    }
    if n == 0 {
        s.append("0");
    } else if n == 1 {
        s.append("1");
    } else if n == 2 {
        s.append("2");
    } else if n == 3 {
        s.append("3");
    } else if n == 4 {
        s.append("4");
    } else if n == 5 {
        s.append("5");
    } else if n == 6 {
        s.append("6");
    } else if n == 7 {
        s.append("7");
    } else if n == 8 {
        s.append("8");
    } else if n == 9 {
        s.append("9");
    } else if n == 10 {
        s.append("a");
    } else if n == 11 {
        s.append("b");
    } else if n == 12 {
        s.append("c");
    } else if n == 13 {
        s.append("d");
    } else if n == 14 {
        s.append("e");
    } else {
        s.append("f");
    }
    proof {
        assert(s@ =~= old(s)@ + seq![hex_digit_char(n)]);
    }
}

/// Stripping hyphens from a text that holds none leaves it unchanged.
proof fn lemma_strip_no_dash(t: Seq<char>)
    requires
        forall|i: int| 0 <= i < t.len() ==> t[i] != '-',
    ensures
        strip_dashes(t) == t,
    decreases t.len(),
{
    reveal(Seq::filter);
    if t.len() == 0 {
        assert(strip_dashes(t) =~= t);
    } else {
        lemma_strip_no_dash(t.drop_last());
        assert(t.last() != '-');
        assert(strip_dashes(t) =~= t);
    }
}

/// Stripping hyphens from a single hyphen leaves nothing.
proof fn lemma_strip_dash_only()
    ensures
        strip_dashes(seq!['-']) == Seq::<char>::empty(),
{
    reveal_with_fuel(Seq::filter, 2);
    assert(seq!['-'].drop_last() =~= Seq::<char>::empty());
    assert(strip_dashes(seq!['-']) =~= Seq::<char>::empty());
}

/// A hex digit character is never a hyphen.
proof fn lemma_hex_digit_char_not_dash(n: u8)
    requires
        n < 16,
    ensures
        hex_digit_char(n) != '-',
{
}

/// Hex digits read back as the nibble they were written from.
proof fn lemma_hex_val_digit(n: u8)
    requires
        n < 16,
    ensures
        hex_val(hex_digit_char(n)) == Some(n),
{
}

/// A hex pair survives hyphen stripping unchanged.
proof fn lemma_strip_hex_pair(b: u8)
    ensures
        strip_dashes(hex_pair(b)) == hex_pair(b),
{
    lemma_hex_digit_char_not_dash(b / 16);
    lemma_hex_digit_char_not_dash(b % 16);
    lemma_strip_no_dash(hex_pair(b));
}

/// Hyphen stripping distributes over concatenation.
proof fn lemma_strip_concat(a: Seq<char>, b: Seq<char>)
    ensures
        strip_dashes(a + b) == strip_dashes(a) + strip_dashes(b),
{
    broadcast use vstd::prelude::Seq::filter_distributes_over_add;

}

/// The display reordering is an involution: applying it twice gives
/// back the original 16 bytes.
pub proof fn lemma_reorder_involution(s: Seq<u8>)
    requires
        s.len() == 16,
    ensures
        guid_reorder(guid_reorder(s)) == s,
{
    assert(guid_reorder(guid_reorder(s)) =~= s);
}

/// The GUID round-trip law: for every raw 16-byte value whose bytes
/// are all ASCII alphabetic, parsing the display form gives back
/// exactly the original bytes.
#[verifier::rlimit(100)]
pub proof fn lemma_guid_round_trip(s: Seq<u8>)
    requires
        guid_bytes_ok(s),
    ensures
        spec_guid_parse(spec_guid_text(s)) == Some(s),
{
    let d = guid_reorder(s);
    let t = spec_guid_text(s);
    lemma_strip_dash_only();
    assert forall|k: int| 0 <= k < 16 implies #[trigger] strip_dashes(hex_pair(d[k])) == hex_pair(
        d[k],
    ) by {
        lemma_strip_hex_pair(d[k]);
    }
    let u = strip_dashes(t);
    lemma_strip_concat(hex_pair(d[0]), hex_pair(d[1]));
    lemma_strip_concat(hex_pair(d[0]) + hex_pair(d[1]), hex_pair(d[2]));
    lemma_strip_concat(hex_pair(d[0]) + hex_pair(d[1]) + hex_pair(d[2]), hex_pair(d[3]));
    lemma_strip_concat(hex_pair(d[0]) + hex_pair(d[1]) + hex_pair(d[2]) + hex_pair(d[3]), seq!['-']);
    lemma_strip_concat(hex_pair(d[0]) + hex_pair(d[1]) + hex_pair(d[2]) + hex_pair(d[3]) + seq!['-'], hex_pair(d[4]));
    lemma_strip_concat(hex_pair(d[0]) + hex_pair(d[1]) + hex_pair(d[2]) + hex_pair(d[3]) + seq!['-'] + hex_pair(d[4]), hex_pair(d[5]));
    lemma_strip_concat(hex_pair(d[0]) + hex_pair(d[1]) + hex_pair(d[2]) + hex_pair(d[3]) + seq!['-'] + hex_pair(d[4]) + hex_pair(d[5]), seq!['-']);
    lemma_strip_concat(hex_pair(d[0]) + hex_pair(d[1]) + hex_pair(d[2]) + hex_pair(d[3]) + seq!['-'] + hex_pair(d[4]) + hex_pair(d[5]) + seq!['-'], hex_pair(d[6]));
    lemma_strip_concat(hex_pair(d[0]) + hex_pair(d[1]) + hex_pair(d[2]) + hex_pair(d[3]) + seq!['-'] + hex_pair(d[4]) + hex_pair(d[5]) + seq!['-'] + hex_pair(d[6]), hex_pair(d[7]));
    lemma_strip_concat(hex_pair(d[0]) + hex_pair(d[1]) + hex_pair(d[2]) + hex_pair(d[3]) + seq!['-'] + hex_pair(d[4]) + hex_pair(d[5]) + seq!['-'] + hex_pair(d[6]) + hex_pair(d[7]), seq!['-']);
    lemma_strip_concat(hex_pair(d[0]) + hex_pair(d[1]) + hex_pair(d[2]) + hex_pair(d[3]) + seq!['-'] + hex_pair(d[4]) + hex_pair(d[5]) + seq!['-'] + hex_pair(d[6]) + hex_pair(d[7]) + seq!['-'], hex_pair(d[8]));
    lemma_strip_concat(hex_pair(d[0]) + hex_pair(d[1]) + hex_pair(d[2]) + hex_pair(d[3]) + seq!['-'] + hex_pair(d[4]) + hex_pair(d[5]) + seq!['-'] + hex_pair(d[6]) + hex_pair(d[7]) + seq!['-'] + hex_pair(d[8]), hex_pair(d[9]));
    lemma_strip_concat(hex_pair(d[0]) + hex_pair(d[1]) + hex_pair(d[2]) + hex_pair(d[3]) + seq!['-'] + hex_pair(d[4]) + hex_pair(d[5]) + seq!['-'] + hex_pair(d[6]) + hex_pair(d[7]) + seq!['-'] + hex_pair(d[8]) + hex_pair(d[9]), seq!['-']);
    lemma_strip_concat(hex_pair(d[0]) + hex_pair(d[1]) + hex_pair(d[2]) + hex_pair(d[3]) + seq!['-'] + hex_pair(d[4]) + hex_pair(d[5]) + seq!['-'] + hex_pair(d[6]) + hex_pair(d[7]) + seq!['-'] + hex_pair(d[8]) + hex_pair(d[9]) + seq!['-'], hex_pair(d[10]));
    lemma_strip_concat(hex_pair(d[0]) + hex_pair(d[1]) + hex_pair(d[2]) + hex_pair(d[3]) + seq!['-'] + hex_pair(d[4]) + hex_pair(d[5]) + seq!['-'] + hex_pair(d[6]) + hex_pair(d[7]) + seq!['-'] + hex_pair(d[8]) + hex_pair(d[9]) + seq!['-'] + hex_pair(d[10]), hex_pair(d[11]));
    lemma_strip_concat(hex_pair(d[0]) + hex_pair(d[1]) + hex_pair(d[2]) + hex_pair(d[3]) + seq!['-'] + hex_pair(d[4]) + hex_pair(d[5]) + seq!['-'] + hex_pair(d[6]) + hex_pair(d[7]) + seq!['-'] + hex_pair(d[8]) + hex_pair(d[9]) + seq!['-'] + hex_pair(d[10]) + hex_pair(d[11]), hex_pair(d[12]));
    lemma_strip_concat(hex_pair(d[0]) + hex_pair(d[1]) + hex_pair(d[2]) + hex_pair(d[3]) + seq!['-'] + hex_pair(d[4]) + hex_pair(d[5]) + seq!['-'] + hex_pair(d[6]) + hex_pair(d[7]) + seq!['-'] + hex_pair(d[8]) + hex_pair(d[9]) + seq!['-'] + hex_pair(d[10]) + hex_pair(d[11]) + hex_pair(d[12]), hex_pair(d[13]));
    lemma_strip_concat(hex_pair(d[0]) + hex_pair(d[1]) + hex_pair(d[2]) + hex_pair(d[3]) + seq!['-'] + hex_pair(d[4]) + hex_pair(d[5]) + seq!['-'] + hex_pair(d[6]) + hex_pair(d[7]) + seq!['-'] + hex_pair(d[8]) + hex_pair(d[9]) + seq!['-'] + hex_pair(d[10]) + hex_pair(d[11]) + hex_pair(d[12]) + hex_pair(d[13]), hex_pair(d[14]));
    lemma_strip_concat(hex_pair(d[0]) + hex_pair(d[1]) + hex_pair(d[2]) + hex_pair(d[3]) + seq!['-'] + hex_pair(d[4]) + hex_pair(d[5]) + seq!['-'] + hex_pair(d[6]) + hex_pair(d[7]) + seq!['-'] + hex_pair(d[8]) + hex_pair(d[9]) + seq!['-'] + hex_pair(d[10]) + hex_pair(d[11]) + hex_pair(d[12]) + hex_pair(d[13]) + hex_pair(d[14]), hex_pair(d[15]));
    let p = hex_pair(d[0]) + hex_pair(d[1]) + hex_pair(d[2]) + hex_pair(d[3]) + hex_pair(d[4])
        + hex_pair(d[5]) + hex_pair(d[6]) + hex_pair(d[7]) + hex_pair(d[8]) + hex_pair(d[9])
        + hex_pair(d[10]) + hex_pair(d[11]) + hex_pair(d[12]) + hex_pair(d[13]) + hex_pair(d[14])
        + hex_pair(d[15]);
    assert(u =~= p);
    assert(u.len() == 32);
    assert forall|k: int| 0 <= k < 16 implies u[2 * k] == hex_digit_char(d[k] / 16) && u[2 * k + 1]
        == hex_digit_char(d[k] % 16) by {
        assert(p[2 * k] == hex_digit_char(d[k] / 16) && p[2 * k + 1] == hex_digit_char(
            d[k] % 16,
        ));
    }
    assert forall|i: int| 0 <= i < 32 implies is_hex_digit(#[trigger] u[i]) by {
        let k = i / 2;
        assert(i == 2 * k || i == 2 * k + 1);
        lemma_hex_val_digit(d[k] / 16);
        lemma_hex_val_digit(d[k] % 16);
    }
    let raw = Seq::new(16, |k: int| pair_val(u[2 * k], u[2 * k + 1]));
    assert forall|k: int| 0 <= k < 16 implies #[trigger] raw[k] == d[k] by {
        lemma_hex_val_digit(d[k] / 16);
        lemma_hex_val_digit(d[k] % 16);
        assert(d[k] / 16 * 16 + d[k] % 16 == d[k]);
    }
    assert(raw =~= d);
    lemma_reorder_involution(s);
    assert(guid_reorder(raw) == s);
}

/// The numeric value of a hex digit character, if it is one.
fn hex_val_exec(c: char) -> (r: Option<u8>)
    ensures
        r == hex_val(c),
{
    let v = c as u32;
    if 0x30 <= v && v <= 0x39 {
        Some((v - 0x30) as u8)
    } else if 0x61 <= v && v <= 0x66 {
        Some((v - 0x61 + 10) as u8)
    } else if 0x41 <= v && v <= 0x46 {
        Some((v - 0x41 + 10) as u8)
    } else {
        None
    }
}

} // verus!

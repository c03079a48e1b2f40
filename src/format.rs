//! The canonical text of an identifier: 36 ASCII bytes, lowercase hex digits
//! grouped 8-4-4-4-12 and joined by hyphens.
use vstd::arithmetic::div_mod::{lemma_div_denominator, lemma_div_is_ordered, lemma_fundamental_div_mod};
use vstd::arithmetic::power2::{lemma2_to64, lemma_pow2_adds, lemma_pow2_pos, pow2};
use vstd::bits::lemma_u128_shr_is_div;
use vstd::prelude::*;

verus! {

/// Hex digit `k` of `id`, counting from the most significant one (0 to 31).
pub open spec fn nibble(id: u128, k: int) -> int {
    (id as int / pow2((124 - 4 * k) as nat) as int) % 16
}

/// The lowercase ASCII hex digit of a value below 16.
pub open spec fn hex_char(d: int) -> u8 {
    if d < 10 {
        (48 + d) as u8
    } else {
        (87 + d) as u8
    }
}

/// Whether text position `j` holds a hyphen.
pub open spec fn is_hyphen_pos(j: int) -> bool {
    j == 8 || j == 13 || j == 18 || j == 23
}

/// The hex digit shown at a text position that holds no hyphen.
pub open spec fn digit_index(j: int) -> int {
    j - (if j > 8 { 1int } else { 0 }) - (if j > 13 { 1int } else { 0 }) - (if j > 18 {
        1int
    } else {
        0
    }) - (if j > 23 { 1int } else { 0 })
}

/// The text position of hex digit `k`.
pub open spec fn digit_pos(k: int) -> int {
    k + (if k >= 8 { 1int } else { 0 }) + (if k >= 12 { 1int } else { 0 }) + (if k >= 16 {
        1int
    } else {
        0
    }) + (if k >= 20 { 1int } else { 0 })
}

/// The canonical text of `id`.
pub open spec fn uuid_text(id: u128) -> Seq<u8> {
    Seq::new(
        36,
        |j: int|
            if is_hyphen_pos(j) {
                45u8
            } else {
                hex_char(nibble(id, digit_index(j)))
            },
    )
}

/// The characters of a sequence of ASCII bytes.
pub open spec fn ascii_chars(b: Seq<u8>) -> Seq<char> {
    b.map_values(|c: u8| c as char)
}

/// An identifier's text, held inline without a heap allocation.
#[derive(Clone, Copy, Debug, PartialEq, Eq, Hash, PartialOrd, Ord)]
pub struct UuidString([u8; 36]);

impl View for UuidString {
    type V = Seq<u8>;

    closed spec fn view(&self) -> Seq<u8> {
        self.0@
    }
}

fn hex_digit(d: u8) -> (c: u8)
    requires
        d < 16,
    ensures
        c == hex_char(d as int),
{
    if d < 10 {
        48 + d
    } else {
        87 + d
    }
}

/// Relies on std::str::from_utf8: a byte string that is all ASCII is valid
/// UTF-8, and each byte reads as the character of the same code.
#[verifier::external_body]
fn ascii_as_str(bytes: &[u8; 36]) -> (s: &str)
    requires
        forall|j: int| 0 <= j < 36 ==> bytes@[j] < 128,
    ensures
        s@ == ascii_chars(bytes@),
{
    match std::str::from_utf8(bytes) {
        Ok(s) => s,
        Err(_) => "",
    }
}

impl UuidString {
    /// Every byte is ASCII, as in every formatted text.
    #[verifier::type_invariant]
    spec fn wf(&self) -> bool {
        forall|j: int| 0 <= j < 36 ==> self.0@[j] < 128
    }

    /// The text as a string slice.
    pub fn as_str(&self) -> (s: &str)
        ensures
            s@ == ascii_chars(self@),
    {
        proof {
            use_type_invariant(self);
        }
        ascii_as_str(&self.0)
    }
}

impl std::ops::Deref for UuidString {
    type Target = str;

    fn deref(&self) -> (s: &str)
        ensures
            s@ == ascii_chars(self@),
    {
        self.as_str()
    }
}

impl AsRef<str> for UuidString {
    fn as_ref(&self) -> (s: &str)
        ensures
            s@ == ascii_chars(self@),
    {
        self.as_str()
    }
}

/// Formats an identifier as `xxxxxxxx-xxxx-xxxx-xxxx-xxxxxxxxxxxx`.
pub fn format_uuid(id: u128) -> (out: UuidString)
    ensures
        out@ == uuid_text(id),
        out@.len() == 36,
{
    let mut buf: [u8; 36] = [45u8; 36];
    let mut k: usize = 0;
    while k < 32
        invariant
            k <= 32,
            forall|j: int|
                0 <= j < 36 ==> #[trigger] buf@[j] == (if !is_hyphen_pos(j) && digit_index(j)
                    < k {
                    hex_char(nibble(id, digit_index(j)))
                } else {
                    45u8
                }),
        decreases 32 - k,
    {
        let shift: u128 = (124 - 4 * k) as u128;
        let shifted = id >> shift;
        let d = (shifted & 0xF) as u8;
        proof {
            lemma_u128_shr_is_div(id, shift);
            assert(shifted & 0xF == shifted % 16) by (bit_vector);
            assert(d == nibble(id, k as int));
        }
        let pos: usize = k + (if k >= 8 { 1usize } else { 0 }) + (if k >= 12 { 1usize } else { 0 })
            + (if k >= 16 { 1usize } else { 0 }) + (if k >= 20 { 1usize } else { 0 });
        assert(pos == digit_pos(k as int));
        buf[pos] = hex_digit(d);
        k = k + 1;
    }
    assert(buf@ =~= uuid_text(id));
    assert forall|j: int| 0 <= j < 36 implies buf@[j] < 128 by {
        if !is_hyphen_pos(j) {
            lemma_prefix_step(id, digit_index(j));
        }
    }
    UuidString(buf)
}

/// The value of an ASCII hex digit, either case.
pub open spec fn hex_value(c: u8) -> int {
    if 48 <= c <= 57 {
        c - 48
    } else if 97 <= c <= 102 {
        c - 87
    } else if 65 <= c <= 70 {
        c - 55
    } else {
        0
    }
}

/// Whether `c` is an ASCII hex digit.
pub open spec fn is_hex_char(c: u8) -> bool {
    (48 <= c <= 57) || (97 <= c <= 102) || (65 <= c <= 70)
}

/// The value of a string of hex digits, most significant first.
pub open spec fn digits_value(d: Seq<u8>) -> int
    decreases d.len(),
{
    if d.len() == 0 {
        0
    } else {
        digits_value(d.drop_last()) * 16 + hex_value(d.last())
    }
}

/// Whether `s` has the hyphenated 8-4-4-4-12 shape of an identifier's text.
pub open spec fn is_hyphenated_text(s: Seq<u8>) -> bool {
    &&& s.len() == 36
    &&& forall|j: int| 0 <= j < 36 ==> (if is_hyphen_pos(j) { s[j] == 45u8 } else { is_hex_char(s[j]) })
}

/// The 32 hex digits of a hyphenated text.
pub open spec fn text_digits(s: Seq<u8>) -> Seq<u8> {
    s.subrange(0, 8) + s.subrange(9, 13) + s.subrange(14, 18) + s.subrange(19, 23) + s.subrange(
        24,
        36,
    )
}

/// The value that a hyphenated text reads as.
pub open spec fn parse_text(s: Seq<u8>) -> int {
    digits_value(text_digits(s))
}

/// `s` comes before `t` in lexicographic byte order.
pub open spec fn lex_less(s: Seq<u8>, t: Seq<u8>) -> bool {
    exists|i: int|
        0 <= i < s.len() && i < t.len() && s.subrange(0, i) == t.subrange(0, i) && s[i] < t[i]
}

/// The value of the leading `n` hex digits of `id`.
pub open spec fn digit_prefix(id: u128, n: int) -> int {
    id as int / pow2((128 - 4 * n) as nat) as int
}

proof fn lemma_prefix_step(id: u128, n: int)
    requires
        0 <= n < 32,
    ensures
        digit_prefix(id, n + 1) == digit_prefix(id, n) * 16 + nibble(id, n),
        0 <= nibble(id, n) < 16,
{
    let low = (124 - 4 * n) as nat;
    let q = id as int / pow2(low) as int;
    lemma_pow2_pos(low);
    lemma2_to64();
    lemma_pow2_adds(low, 4);
    assert((128 - 4 * n) as nat == low + 4);
    lemma_div_denominator(id as int, pow2(low) as int, 16);
    lemma_fundamental_div_mod(q, 16);
}

proof fn lemma_prefix_ends(id: u128)
    ensures
        digit_prefix(id, 0) == 0,
        digit_prefix(id, 32) == id as int,
{
    lemma2_to64();
    lemma_pow2_adds(64, 64);
    assert(pow2(128) == 0x1_0000_0000_0000_0000_0000_0000_0000_0000);
    assert((128 - 4 * 0int) as nat == 128);
    assert((128 - 4 * 32int) as nat == 0);
    assert(id as int / 0x1_0000_0000_0000_0000_0000_0000_0000_0000int == 0);
    assert(id as int / 1int == id as int);
}

proof fn lemma_digits_value_prefix(id: u128, n: int)
    requires
        0 <= n <= 32,
    ensures
        digits_value(Seq::new(n as nat, |k: int| hex_char(nibble(id, k)))) == digit_prefix(id, n),
    decreases n,
{
    let s = Seq::new(n as nat, |k: int| hex_char(nibble(id, k)));
    if n == 0 {
        lemma_prefix_ends(id);
    } else {
        lemma_digits_value_prefix(id, n - 1);
        assert(s.drop_last() =~= Seq::new((n - 1) as nat, |k: int| hex_char(nibble(id, k))));
        lemma_prefix_step(id, n - 1);
        assert(hex_value(hex_char(nibble(id, n - 1))) == nibble(id, n - 1));
    }
}

/// The text of an identifier is 36 bytes in the hyphenated hex shape, and
/// reading its hex digits back gives the identifier itself.
pub proof fn lemma_format_round_trip(id: u128)
    ensures
        uuid_text(id).len() == 36,
        is_hyphenated_text(uuid_text(id)),
        parse_text(uuid_text(id)) == id as int,
{
    let t = uuid_text(id);
    assert forall|j: int| 0 <= j < 36 implies (if is_hyphen_pos(j) {
        t[j] == 45u8
    } else {
        is_hex_char(t[j])
    }) by {
        if !is_hyphen_pos(j) {
            lemma_prefix_step(id, digit_index(j));
        }
    }
    assert(text_digits(t) =~= Seq::new(32, |k: int| hex_char(nibble(id, k))));
    lemma_digits_value_prefix(id, 32);
    lemma_prefix_ends(id);
}

proof fn lemma_first_difference(a: u128, b: u128, n: int) -> (m: int)
    requires
        a < b,
        0 <= n <= 32,
        digit_prefix(a, n) == digit_prefix(b, n),
    ensures
        n <= m < 32,
        forall|k: int| n <= k < m ==> nibble(a, k) == nibble(b, k),
        nibble(a, m) < nibble(b, m),
    decreases 32 - n,
{
    lemma_prefix_ends(a);
    lemma_prefix_ends(b);
    lemma_prefix_step(a, n);
    lemma_prefix_step(b, n);
    lemma_pow2_pos((128 - 4 * (n + 1)) as nat);
    lemma_div_is_ordered(a as int, b as int, pow2((128 - 4 * (n + 1)) as nat) as int);
    if nibble(a, n) < nibble(b, n) {
        n
    } else {
        lemma_first_difference(a, b, n + 1)
    }
}

/// Numeric order of identifiers is the lexicographic order of their texts.
pub proof fn lemma_format_preserves_order(a: u128, b: u128)
    requires
        a < b,
    ensures
        lex_less(uuid_text(a), uuid_text(b)),
{
    lemma_prefix_ends(a);
    lemma_prefix_ends(b);
    let m = lemma_first_difference(a, b, 0);
    let i = digit_pos(m);
    let (s, t) = (uuid_text(a), uuid_text(b));
    lemma_prefix_step(a, m);
    lemma_prefix_step(b, m);
    assert(s.subrange(0, i) =~= t.subrange(0, i));
    assert(s[i] < t[i]);
}

} // verus!

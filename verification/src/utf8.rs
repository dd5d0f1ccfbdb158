//! Text as bytes: UTF-8, what cutting it does, and where its newlines stand.

use vstd::prelude::*;

verus! {

/// The bytes of a string in UTF-8.
pub open spec fn encoded(s: Seq<char>) -> Seq<u8> {
    vstd::utf8::encode_utf8(s)
}

/// `String::from_utf8_lossy` of some bytes.
pub uninterp spec fn lossy_text(bytes: Seq<u8>) -> Seq<char>;

/// The text of some bytes: of valid UTF-8 the characters it encodes; other
/// bytes are decoded with replacement characters.
pub open spec fn decoded(bytes: Seq<u8>) -> Seq<char> {
    if vstd::utf8::valid_utf8(bytes) {
        vstd::utf8::decode_utf8(bytes)
    } else {
        lossy_text(bytes)
    }
}

/// Calls `String::from_utf8_lossy`. The result is a function of the bytes;
/// valid UTF-8 is decoded as it stands.
#[verifier::external_body]
fn from_utf8_lossy(bytes: &[u8]) -> (r: String)
    ensures
        r@ == lossy_text(bytes@),
        vstd::utf8::valid_utf8(bytes@) ==> r@ == vstd::utf8::decode_utf8(bytes@),
{
    String::from_utf8_lossy(bytes).into_owned()
}

/// The text of some bytes.
pub fn decode(bytes: &[u8]) -> (r: String)
    ensures
        r@ == decoded(bytes@),
{
    from_utf8_lossy(bytes)
}

/// Bytes that are not UTF-8 are decoded with replacement characters.
pub proof fn law_other_bytes_are_decoded_lossily(bytes: Seq<u8>)
    ensures
        !vstd::utf8::valid_utf8(bytes) ==> decoded(bytes) == lossy_text(bytes),
        vstd::utf8::valid_utf8(bytes) ==> encoded(decoded(bytes)) == bytes,
{
    if vstd::utf8::valid_utf8(bytes) {
        vstd::utf8::decode_utf8_encode_utf8(bytes);
    }
}

/// Text comes back from its bytes.
pub proof fn law_text_is_decoded_back(s: Seq<char>)
    ensures
        decoded(encoded(s)) == s,
{
    vstd::utf8::encode_utf8_valid_utf8(s);
    vstd::utf8::encode_utf8_decode_utf8(s);
}

/// A character has one byte at least and four at most.
pub proof fn lemma_char_bytes(c: char)
    ensures
        1 <= vstd::utf8::encode_scalar(c as u32).len() <= 4,
{
}

/// The bytes of two texts are those of the first and then those of the second.
pub proof fn lemma_encoded_concat(a: Seq<char>, b: Seq<char>)
    ensures
        encoded(a + b) == encoded(a) + encoded(b),
    decreases a.len(),
{
    if a.len() == 0 {
        assert(a + b =~= b);
        assert(encoded(a) + encoded(b) =~= encoded(b));
    } else {
        assert((a + b).drop_first() =~= a.drop_first() + b);
        assert((a + b)[0] == a[0]);
        lemma_encoded_concat(a.drop_first(), b);
        let first = vstd::utf8::encode_scalar(a[0] as u32);
        assert(first + (encoded(a.drop_first()) + encoded(b)) =~= first + encoded(a.drop_first())
            + encoded(b));
    }
}

/// A text has no more characters than bytes.
pub proof fn lemma_no_more_chars_than_bytes(s: Seq<char>)
    ensures
        s.len() <= encoded(s).len(),
    decreases s.len(),
{
    if s.len() > 0 {
        lemma_char_bytes(s[0]);
        lemma_no_more_chars_than_bytes(s.drop_first());
    }
}

/// A longer start of a text has more bytes, and one that is longer by a
/// character has four more at most.
proof fn lemma_starts_grow(s: Seq<char>, m: int, n: int)
    requires
        0 <= m <= n <= s.len(),
    ensures
        m < n ==> encoded(s.take(m)).len() < encoded(s.take(n)).len(),
        n <= m + 1 ==> encoded(s.take(n)).len() <= encoded(s.take(m)).len() + 4,
{
    let between = s.subrange(m, n);
    assert(s.take(n) =~= s.take(m) + between);
    lemma_encoded_concat(s.take(m), between);
    lemma_no_more_chars_than_bytes(between);
    if n == m + 1 {
        lemma_char_bytes(between[0]);
        assert(between.drop_first() =~= Seq::empty());
        reveal_with_fuel(vstd::utf8::encode_utf8, 2);
    } else if n == m {
        assert(between =~= Seq::empty());
    }
}

/// Between two texts a character begins.
proof fn lemma_boundary_between(a: Seq<char>, b: Seq<char>)
    ensures
        vstd::utf8::is_char_boundary(encoded(a + b), encoded(a).len() as int),
    decreases a.len(),
{
    let bytes = encoded(a + b);
    vstd::utf8::encode_utf8_valid_utf8(a + b);
    if a.len() > 0 {
        vstd::utf8::encode_utf8_first_scalar(a + b);
        lemma_encoded_concat(a, b);
        assert((a + b)[0] == a[0]);
        assert((a + b).drop_first() =~= a.drop_first() + b);
        assert(vstd::utf8::pop_first_scalar(bytes) =~= encoded(a.drop_first() + b));
        lemma_boundary_between(a.drop_first(), b);
    }
}

/// The longest start of `s` that has at most `max` bytes.
pub open spec fn fitting(s: Seq<char>, max: nat) -> Seq<char>
    decreases s.len(),
{
    if s.len() == 0 || encoded(s).len() <= max {
        s
    } else {
        fitting(s.drop_last(), max)
    }
}

/// What fits is a start of the text, and no longer start fits.
pub proof fn lemma_fitting(s: Seq<char>, max: nat)
    ensures
        fitting(s, max).len() <= s.len(),
        fitting(s, max) == s.take(fitting(s, max).len() as int),
        encoded(fitting(s, max)).len() <= max,
        forall|n: int|
            fitting(s, max).len() < n <= s.len() ==> encoded(#[trigger] s.take(n)).len() > max,
    decreases s.len(),
{
    assert(s.take(s.len() as int) =~= s);
    if !(s.len() == 0 || encoded(s).len() <= max) {
        let t = s.drop_last();
        lemma_fitting(t, max);
        let head = fitting(t, max);
        assert(t.take(head.len() as int) =~= s.take(head.len() as int));
        assert forall|n: int| head.len() < n <= s.len() implies encoded(#[trigger] s.take(n)).len()
            > max by {
            if n < s.len() {
                assert(t.take(n) =~= s.take(n));
            }
        }
    }
}

/// A start that fits, where no longer one does, is the longest.
proof fn lemma_fitting_is(s: Seq<char>, max: nat, n: int)
    requires
        0 <= n <= s.len(),
        encoded(s.take(n)).len() <= max,
        n < s.len() ==> encoded(s.take(n + 1)).len() > max,
    ensures
        fitting(s, max) == s.take(n),
{
    lemma_fitting(s, max);
    let k = fitting(s, max).len() as int;
    if n < k {
        lemma_starts_grow(s, n + 1, k);
    } else if k < n {
        assert(encoded(s.take(n)).len() > max);
    }
}

/// The longest start that fits falls short of the limit by less than a
/// character; where a character begins at the limit, it ends there.
pub proof fn lemma_fitting_is_close(s: Seq<char>, max: nat)
    requires
        encoded(s).len() > max,
    ensures
        max < encoded(fitting(s, max)).len() + 4,
        vstd::utf8::is_char_boundary(encoded(s), max as int) ==> encoded(fitting(s, max))
            == encoded(s).take(max as int),
{
    lemma_fitting(s, max);
    let k = fitting(s, max).len() as int;
    assert(s.take(s.len() as int) =~= s);
    assert(k < s.len());
    lemma_starts_grow(s, k, k + 1);
    assert(encoded(s.take(k + 1)).len() > max);
    if vstd::utf8::is_char_boundary(encoded(s), max as int) {
        let bytes = encoded(s);
        let first = bytes.subrange(0, max as int);
        let rest = bytes.subrange(max as int, bytes.len() as int);
        vstd::utf8::encode_utf8_valid_utf8(s);
        vstd::utf8::encode_utf8_decode_utf8(s);
        vstd::utf8::valid_utf8_split(bytes, max as int);
        vstd::utf8::decode_utf8_split(bytes, max as int);
        vstd::utf8::decode_utf8_encode_utf8(first);
        let head = vstd::utf8::decode_utf8(first);
        assert(s == head + vstd::utf8::decode_utf8(rest));
        assert(head =~= s.take(head.len() as int));
        if head.len() < s.len() {
            lemma_starts_grow(s, head.len() as int, head.len() as int + 1);
        }
        lemma_fitting_is(s, max, head.len() as int);
    }
}

/// Cuts a string down to the longest start of it that has at most `max` bytes.
pub fn cut(s: &str, max: usize) -> (r: &str)
    ensures
        r@ == fitting(s@, max as nat),
{
    if s.as_bytes().len() <= max {
        return s;
    }
    let ghost bytes = encoded(s@);
    proof {
        vstd::utf8::encode_utf8_valid_utf8(s@);
        vstd::utf8::is_char_boundary_start_end_of_seq(bytes);
    }
    let mut at: usize = max;
    while !s.is_char_boundary(at)
        invariant
            bytes == encoded(s@),
            at <= max < bytes.len(),
            vstd::utf8::is_char_boundary(bytes, 0),
            forall|k: int| at < k <= max ==> !vstd::utf8::is_char_boundary(bytes, k),
        decreases at,
    {
        at = at - 1;
    }
    let (head, rest) = s.split_at(at);
    proof {
        vstd::utf8::decode_utf8_split(bytes, at as int);
        vstd::utf8::encode_utf8_decode_utf8(s@);
        vstd::utf8::encode_utf8_decode_utf8(head@);
        vstd::utf8::encode_utf8_decode_utf8(rest@);
        assert(s@ == head@ + rest@);
        let n = head@.len() as int;
        assert(s@.take(n) =~= head@);
        if n < s@.len() {
            let more = s@.take(n + 1);
            lemma_starts_grow(s@, n, n + 1);
            lemma_boundary_between(more, s@.skip(n + 1));
            assert(more + s@.skip(n + 1) =~= s@);
        }
        lemma_fitting_is(s@, max as nat, n);
    }
    head
}

/// The bytes of a character hold a newline only where it is one.
pub proof fn lemma_newline_in_char(c: char)
    ensures
        c == '\n' ==> vstd::utf8::encode_scalar(c as u32) =~= seq![0x0au8],
        c != '\n' ==> forall|i: int|
            0 <= i < vstd::utf8::encode_scalar(c as u32).len() ==> #[trigger] vstd::utf8::encode_scalar(
                c as u32,
            )[i] != 0x0a,
{
    let n = c as u32;
    if n <= 0x7f {
        assert((n & 0x7f) as u8 == 0x0a <==> n == 0x0a) by (bit_vector)
            requires
                n <= 0x7f,
        ;
    }
    assert(forall|b: u8| #[trigger] (0xc0u8 | b) != 0x0a) by (bit_vector);
    assert(forall|b: u8| #[trigger] (0xe0u8 | b) != 0x0a) by (bit_vector);
    assert(forall|b: u8| #[trigger] (0xf0u8 | b) != 0x0a) by (bit_vector);
    assert(forall|b: u8| #[trigger] (0x80u8 | b) != 0x0a) by (bit_vector);
}

} // verus!

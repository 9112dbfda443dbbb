use vstd::prelude::*;
use vstd::string::StrSliceExecFns;
use vstd::string::StringExecFns;
use vstd::string::StringSliceAdditionalSpecFns;

verus! {

/// The ASCII code of one hexadecimal digit, upper case.
pub open spec fn hex_digit(d: u8) -> u8
    recommends
        d < 16,
{
    if d < 10 {
        (d + 48) as u8
    } else {
        (d + 55) as u8
    }
}

/// One byte, percent-encoded: `%` and two hexadecimal digits.
pub open spec fn percent_byte(b: u8) -> Seq<u8> {
    seq![37u8, hex_digit(b / 16), hex_digit(b % 16)]
}

/// A byte string with every byte percent-encoded. Encoding every byte
/// keeps the text opaque and URL-safe without a character table.
pub open spec fn percent_encode_seq(s: Seq<u8>) -> Seq<u8>
    decreases s.len(),
{
    if s.len() == 0 {
        Seq::empty()
    } else {
        percent_byte(s.first()) + percent_encode_seq(s.drop_first())
    }
}

proof fn lemma_percent_encode_push(s: Seq<u8>, x: u8)
    ensures
        percent_encode_seq(s.push(x)) == percent_encode_seq(s) + percent_byte(x),
    decreases s.len(),
{
    if s.len() == 0 {
        assert(s.push(x).drop_first() =~= s);
        assert(percent_encode_seq(s.push(x)) =~= percent_encode_seq(s) + percent_byte(x));
    } else {
        assert(s.push(x).first() == s.first());
        assert(s.push(x).drop_first() =~= s.drop_first().push(x));
        lemma_percent_encode_push(s.drop_first(), x);
        assert(percent_byte(s.first()) + (percent_encode_seq(s.drop_first()) + percent_byte(x))
            =~= (percent_byte(s.first()) + percent_encode_seq(s.drop_first())) + percent_byte(x));
    }
}

proof fn lemma_percent_encode_ascii(s: Seq<u8>)
    ensures
        forall|i: int| 0 <= i < percent_encode_seq(s).len() ==> #[trigger] percent_encode_seq(
            s,
        )[i] < 128,
    decreases s.len(),
{
    if s.len() > 0 {
        lemma_percent_encode_ascii(s.drop_first());
        assert forall|i: int| 0 <= i < percent_encode_seq(s).len() implies #[trigger] percent_encode_seq(
            s,
        )[i] < 128 by {
            assert(percent_encode_seq(s) == percent_byte(s.first()) + percent_encode_seq(
                s.drop_first(),
            ));
            if i < 3 {
                assert(percent_encode_seq(s)[i] == percent_byte(s.first())[i]);
            } else {
                assert(percent_encode_seq(s)[i] == percent_encode_seq(s.drop_first())[i - 3]);
            }
        }
    }
}

/// Percent-encodes every byte.
pub fn percent_encode(bytes: &Vec<u8>) -> (r: Vec<u8>)
    ensures
        r@ == percent_encode_seq(bytes@),
{
    let n = bytes.len();
    let mut out: Vec<u8> = Vec::new();
    let mut i: usize = 0;
    proof {
        assert(out@ =~= percent_encode_seq(bytes@.take(0)));
    }
    while i < n
        invariant
            n == bytes@.len(),
            i <= n,
            out@ == percent_encode_seq(bytes@.take(i as int)),
        decreases n - i,
    {
        let b = bytes[i];
        out.push(37);
        let hi = b / 16;
        let lo = b % 16;
        out.push(if hi < 10 { hi + 48 } else { hi + 55 });
        out.push(if lo < 10 { lo + 48 } else { lo + 55 });
        proof {
            lemma_percent_encode_push(bytes@.take(i as int), bytes@[i as int]);
            assert(bytes@.take(i + 1 as int) =~= bytes@.take(i as int).push(bytes@[i as int]));
            assert(out@ =~= percent_encode_seq(bytes@.take(i as int)) + percent_byte(
                bytes@[i as int],
            ));
        }
        i += 1;
    }
    proof {
        assert(bytes@.take(n as int) =~= bytes@);
    }
    out
}

/// Relies on String::from_utf8: bytes below 128 decode to exactly the
/// characters with those code points.
#[verifier::external_body]
fn ascii_bytes_to_string(b: Vec<u8>) -> (r: String)
    requires
        forall|i: int| 0 <= i < b@.len() ==> b@[i] < 128,
    ensures
        r@.len() == b@.len(),
        forall|i: int| 0 <= i < b@.len() ==> r@[i] == #[trigger] b@[i] as char,
{
    String::from_utf8(b).unwrap_or_default()
}

/// The bytes read as characters, one for one.
pub open spec fn chars_of_bytes(b: Seq<u8>) -> Seq<char> {
    b.map_values(|x: u8| x as char)
}

/// The autocomplete query for a prefix. The prefix travels
/// percent-encoded, byte for byte: it is opaque text and must stay
/// URL-safe.
pub fn suggestion_url(prefix: &str) -> (r: String)
    ensures
        r@ == "http://suggestqueries.google.com/complete/search?client=firefox&ds=yt&q="@
            + chars_of_bytes(percent_encode_seq(prefix.spec_bytes())),
{
    let bytes = prefix.as_bytes_vec();
    let encoded = percent_encode(&bytes);
    proof {
        lemma_percent_encode_ascii(bytes@);
    }
    let tail = ascii_bytes_to_string(encoded);
    proof {
        assert(tail@ =~= chars_of_bytes(percent_encode_seq(prefix.spec_bytes())));
    }
    let mut url = "http://suggestqueries.google.com/complete/search?client=firefox&ds=yt&q=".to_owned();
    url.append(tail.as_str());
    url
}

} // verus!

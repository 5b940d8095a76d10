//! The reformatter: a hexadecimal string becomes either a
//! brace-delimited, comma-separated list of uppercase `0xHH` byte
//! tokens, or a string of 8-digit binary groups, one per byte of the
//! input's UTF-8 encoding.

use vstd::prelude::*;
use vstd::string::StringExecFns;
use vstd::utf8::encode_utf8;

use crate::norm::normalize;
use crate::norm::normalize_exec;
use crate::norm::trim;
use crate::norm::trim_exec;
use crate::text::push_char;
use crate::text::str_eq;
use crate::text::to_upper;
use crate::text::upper_char;

verus! {

/// Why a reformatting request was rejected.
#[derive(Clone, Copy, Debug, PartialEq, Eq, Structural)]
pub enum ReformatError {
    /// The normalized input has an odd number of characters, so it
    /// cannot be split into byte pairs.
    OddLength,
    /// The output-format selector is neither empty nor `bin`.
    InvalidFormat,
}

impl ReformatError {
    /// The text that describes this error to the user.
    pub open spec fn message_spec(self) -> Seq<char> {
        match self {
            ReformatError::OddLength => "Invalid input: Length of input string is not even."@,
            ReformatError::InvalidFormat => "Invalid output format"@,
        }
    }

    /// Renders [`Self::message_spec`] at run time.
    pub fn message(&self) -> (s: String)
        ensures
            s@ == self.message_spec(),
    {
        match self {
            ReformatError::OddLength => (
            "Invalid input: Length of input string is not even.").to_owned(),
            ReformatError::InvalidFormat => ("Invalid output format").to_owned(),
        }
    }
}

/// One formatted byte token: `0x` followed by the two characters of a
/// chunk, upper-cased.
pub open spec fn token_of(c1: char, c2: char) -> Seq<char> {
    "0x"@ + seq![upper_char(c1), upper_char(c2)]
}

/// The tokens of the consecutive two-character chunks of `s`, left to
/// right.
pub open spec fn chunk_tokens(s: Seq<char>) -> Seq<Seq<char>>
    decreases s.len(),
{
    if s.len() < 2 {
        Seq::empty()
    } else {
        chunk_tokens(s.take(s.len() - 2)).push(token_of(s[s.len() - 2], s[s.len() - 1]))
    }
}

/// The tokens joined with `", "`.
pub open spec fn join_tokens(ts: Seq<Seq<char>>) -> Seq<char>
    decreases ts.len(),
{
    if ts.len() == 0 {
        Seq::empty()
    } else if ts.len() == 1 {
        ts[0]
    } else {
        join_tokens(ts.drop_last()) + ", "@ + ts.last()
    }
}

/// The joined tokens of `s` wrapped in `{ ` and ` }`. An empty `s`
/// keeps the template's two interior spaces: `{  }`.
pub open spec fn hex_array_format(s: Seq<char>) -> Seq<char> {
    "{ "@ + join_tokens(chunk_tokens(s)) + " }"@
}

/// What the hex-to-array transform yields on `s`: the formatted
/// normalization of `s`, or `OddLength` when the normalization cannot
/// be split into byte pairs.
pub open spec fn hex_array_spec(s: Seq<char>) -> Result<Seq<char>, ReformatError> {
    if normalize(s).len() % 2 == 0 {
        Ok(hex_array_format(normalize(s)))
    } else {
        Err(ReformatError::OddLength)
    }
}

/// The 8 binary digits of a byte, most significant first.
pub open spec fn bits_of_byte(b: u8) -> Seq<char> {
    Seq::new(
        8,
        |i: int|
            if (b >> ((7 - i) as u8)) & 1 == 1 {
                '1'
            } else {
                '0'
            },
    )
}

/// The binary digit groups of the bytes, concatenated without a
/// separator.
pub open spec fn binary_groups(bs: Seq<u8>) -> Seq<char>
    decreases bs.len(),
{
    if bs.len() == 0 {
        Seq::empty()
    } else {
        binary_groups(bs.drop_last()) + bits_of_byte(bs.last())
    }
}

/// The binary digit groups behind the `Binary: ` prefix.
pub open spec fn binary_format(bs: Seq<u8>) -> Seq<char> {
    "Binary: "@ + binary_groups(bs)
}

/// What reformatting yields: the empty selector trims the input and
/// applies the hex-to-array transform; `bin` renders the input's UTF-8
/// bytes as binary digit groups; any other selector is rejected.
pub open spec fn reformat_spec(input: Seq<char>, selector: Seq<char>) -> Result<
    Seq<char>,
    ReformatError,
> {
    if selector.len() == 0 {
        hex_array_spec(trim(input))
    } else if selector == "bin"@ {
        Ok(binary_format(encode_utf8(input)))
    } else {
        Err(ReformatError::InvalidFormat)
    }
}

proof fn lemma_join_tokens_push(ts: Seq<Seq<char>>, t: Seq<char>)
    ensures
        ts.len() == 0 ==> join_tokens(ts.push(t)) == t,
        ts.len() > 0 ==> join_tokens(ts.push(t)) == join_tokens(ts) + ", "@ + t,
{
    let p = ts.push(t);
    assert(p.drop_last() =~= ts);
    if ts.len() == 0 {
        assert(join_tokens(p) == p[0]);
    } else {
        assert(join_tokens(p) == join_tokens(p.drop_last()) + ", "@ + p.last());
    }
}

/// Law: an even-length sequence yields one token per two-character
/// chunk, left to right, and the i-th token is `0x` followed by the
/// chunk's two characters upper-cased.
pub proof fn lemma_chunk_tokens_shape(s: Seq<char>)
    requires
        s.len() % 2 == 0,
    ensures
        chunk_tokens(s).len() == s.len() / 2,
        forall|i: int|
            0 <= i < s.len() / 2 ==> chunk_tokens(s)[i] == token_of(s[2 * i], s[2 * i + 1]),
    decreases s.len(),
{
    if s.len() < 2 {
    } else {
        let pre = s.take(s.len() - 2);
        lemma_chunk_tokens_shape(pre);
        assert(forall|i: int|
            0 <= i < pre.len() / 2 ==> (#[trigger] pre[2 * i]) == s[2 * i] && pre[2 * i + 1] == s[2
                * i + 1]);
    }
}

/// Law: for an even-length input without white space and without any
/// `0x` substring, normalization is the identity, and the default
/// (hex-to-array) transform succeeds with one `0xHH` token for each
/// two-character chunk of the input.
pub proof fn lemma_hex_array_shape(s: Seq<char>)
    requires
        s.len() % 2 == 0,
        forall|i: int| 0 <= i < s.len() ==> !crate::text::is_space_char(s[i]),
        forall|i: int| 0 <= i < s.len() - 1 ==> !((#[trigger] s[i]) == '0' && s[i + 1] == 'x'),
    ensures
        trim(s) == s,
        normalize(s) == s,
        reformat_spec(s, Seq::<char>::empty()) == Ok::<Seq<char>, ReformatError>(
            hex_array_format(s),
        ),
        chunk_tokens(s).len() == s.len() / 2,
        forall|i: int|
            0 <= i < s.len() / 2 ==> chunk_tokens(s)[i] == token_of(s[2 * i], s[2 * i + 1]),
{
    crate::norm::lemma_trim_id(s);
    assert(forall|i: int| 0 <= i < s.len() ==> s[i] != ' ') by {
        assert((' ' as u32) == 0x20);
    }
    crate::norm::lemma_strip_spaces_id(s);
    crate::norm::lemma_strip_0x_id(s);
    lemma_chunk_tokens_shape(s);
}

/// Law: reformatting is deterministic. The result is a function of
/// the raw input and the selector alone; two calls on identical
/// arguments are specified to yield identical results.
pub proof fn lemma_reformat_deterministic(
    input1: Seq<char>,
    selector1: Seq<char>,
    input2: Seq<char>,
    selector2: Seq<char>,
)
    requires
        input1 == input2,
        selector1 == selector2,
    ensures
        reformat_spec(input1, selector1) == reformat_spec(input2, selector2),
{
}

/// Converts a string of hexadecimal digit pairs into a C-style array
/// literal: the input is normalized, split into two-character chunks,
/// and each chunk becomes an uppercase `0xHH` token.
pub fn hex_string_to_c_array(input: &str) -> (r: Result<String, ReformatError>)
    ensures
        match r {
            Ok(out) => normalize(input@).len() % 2 == 0 && out@ == hex_array_format(
                normalize(input@),
            ),
            Err(e) => normalize(input@).len() % 2 != 0 && e == ReformatError::OddLength,
        },
{
    let norm: Vec<char> = normalize_exec(input);
    let n: usize = norm.len();
    if n % 2 != 0 {
        return Err(ReformatError::OddLength);
    }
    let mut out: String = String::new();
    out.append("{ ");
    let mut i: usize = 0;
    proof {
        assert(norm@.take(0) =~= Seq::<char>::empty());
        assert(out@ =~= "{ "@ + join_tokens(chunk_tokens(norm@.take(0))));
    }
    while i < n
        invariant
            i <= n,
            i % 2 == 0,
            n % 2 == 0,
            n == norm@.len(),
            norm@ == normalize(input@),
            out@ == "{ "@ + join_tokens(chunk_tokens(norm@.take(i as int))),
        decreases n - i,
    {
        assert(i + 1 < n);
        let c1 = norm[i];
        let c2 = norm[i + 1];
        if i > 0 {
            out.append(", ");
        }
        out.append("0x");
        let u1 = to_upper(c1);
        let u2 = to_upper(c2);
        push_char(&mut out, u1);
        push_char(&mut out, u2);
        proof {
            let full = norm@;
            let pre = full.take(i as int);
            let post = full.take(i as int + 2);
            assert(post.take(i as int) =~= pre);
            assert(chunk_tokens(post) == chunk_tokens(pre).push(
                token_of(full[i as int], full[i as int + 1]),
            ));
            lemma_join_tokens_push(chunk_tokens(pre), token_of(full[i as int], full[i as int + 1]));
            assert(out@ =~= "{ "@ + join_tokens(chunk_tokens(post)));
        }
        i += 2;
    }
    out.append(" }");
    proof {
        assert(norm@.take(n as int) =~= norm@);
    }
    Ok(out)
}

/// Renders each byte of the input's UTF-8 encoding as its 8-digit
/// zero-padded binary representation, behind the `Binary: ` prefix.
pub fn bytes_to_binary(input: &str) -> (out: String)
    ensures
        out@ == binary_format(encode_utf8(input@)),
{
    let bytes: &[u8] = input.as_bytes();
    let n: usize = bytes.len();
    let mut out: String = String::new();
    out.append("Binary: ");
    let mut i: usize = 0;
    proof {
        assert(bytes@.take(0) =~= Seq::<u8>::empty());
        assert(out@ =~= "Binary: "@ + binary_groups(bytes@.take(0)));
    }
    while i < n
        invariant
            i <= n,
            n == bytes@.len(),
            bytes@ == encode_utf8(input@),
            out@ == "Binary: "@ + binary_groups(bytes@.take(i as int)),
        decreases n - i,
    {
        let b: u8 = bytes[i];
        let mut j: u8 = 0;
        while j < 8
            invariant
                j <= 8,
                i < n,
                n == bytes@.len(),
                b == bytes@[i as int],
                bytes@ == encode_utf8(input@),
                out@ == "Binary: "@ + binary_groups(bytes@.take(i as int)) + bits_of_byte(
                    b,
                ).take(j as int),
            decreases 8 - j,
        {
            let sh: u8 = 7 - j;
            let bit: u8 = (b >> sh) & 1;
            if bit == 1 {
                push_char(&mut out, '1');
            } else {
                push_char(&mut out, '0');
            }
            proof {
                assert(bits_of_byte(b)[j as int] == (if bit == 1 {
                    '1'
                } else {
                    '0'
                }));
                assert(bits_of_byte(b).take(j as int + 1) =~= bits_of_byte(b).take(
                    j as int,
                ).push(bits_of_byte(b)[j as int]));
                assert(out@ =~= "Binary: "@ + binary_groups(bytes@.take(i as int)) + bits_of_byte(
                    b,
                ).take(j as int + 1));
            }
            j += 1;
        }
        proof {
            assert(bits_of_byte(b).take(8) =~= bits_of_byte(b));
            assert(bytes@.take(i as int + 1).drop_last() =~= bytes@.take(i as int));
            assert(bytes@.take(i as int + 1).last() == bytes@[i as int]);
            assert(out@ =~= "Binary: "@ + binary_groups(bytes@.take(i as int + 1)));
        }
        i += 1;
    }
    proof {
        assert(bytes@.take(n as int) =~= bytes@);
    }
    out
}

/// Reformats `raw_input` as the selector asks: the empty selector
/// yields the C-style hex array, `bin` the binary rendering, and any
/// other selector fails with `InvalidFormat`.
pub fn reformat(raw_input: &str, output_format: &str) -> (r: Result<String, ReformatError>)
    ensures
        match (r, reformat_spec(raw_input@, output_format@)) {
            (Ok(out), Ok(v)) => out@ == v,
            (Err(e), Err(f)) => e == f,
            _ => false,
        },
{
    if output_format.is_empty() {
        let trimmed = trim_exec(raw_input);
        hex_string_to_c_array(trimmed)
    } else if str_eq(output_format, "bin") {
        Ok(bytes_to_binary(raw_input))
    } else {
        Err(ReformatError::InvalidFormat)
    }
}

} // verus!

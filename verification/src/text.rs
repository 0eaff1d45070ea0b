//! Text building blocks: decimal numerals and quoted string literals.
use vstd::prelude::*;
use vstd::string::*;

verus! {

/// The character for one decimal digit.
pub open spec fn digit_char(d: nat) -> char
    recommends
        d < 10,
{
    if d == 0 {
        '0'
    } else if d == 1 {
        '1'
    } else if d == 2 {
        '2'
    } else if d == 3 {
        '3'
    } else if d == 4 {
        '4'
    } else if d == 5 {
        '5'
    } else if d == 6 {
        '6'
    } else if d == 7 {
        '7'
    } else if d == 8 {
        '8'
    } else {
        '9'
    }
}

/// The decimal numeral of `n`, most significant digit first, without
/// leading zeros.
pub open spec fn decimal(n: nat) -> Seq<char>
    decreases n,
{
    if n < 10 {
        seq![digit_char(n)]
    } else {
        decimal(n / 10).push(digit_char(n % 10))
    }
}

/// The decimal numeral of a possibly negative integer, with a leading `-`
/// for negative values.
pub open spec fn signed_decimal(n: int) -> Seq<char> {
    if n < 0 {
        seq!['-'] + decimal((-n) as nat)
    } else {
        decimal(n as nat)
    }
}

fn digit_str(d: u8) -> (r: &'static str)
    requires
        d < 10,
    ensures
        r@ == seq![digit_char(d as nat)],
{
    proof {
        reveal_strlit("0");
        reveal_strlit("1");
        reveal_strlit("2");
        reveal_strlit("3");
        reveal_strlit("4");
        reveal_strlit("5");
        reveal_strlit("6");
        reveal_strlit("7");
        reveal_strlit("8");
        reveal_strlit("9");
    }
    let r = if d == 0 {
        "0"
    } else if d == 1 {
        "1"
    } else if d == 2 {
        "2"
    } else if d == 3 {
        "3"
    } else if d == 4 {
        "4"
    } else if d == 5 {
        "5"
    } else if d == 6 {
        "6"
    } else if d == 7 {
        "7"
    } else if d == 8 {
        "8"
    } else {
        "9"
    };
    assert(r@ =~= seq![digit_char(d as nat)]);
    r
}

/// Writes `n` in decimal.
pub fn format_u128(n: u128) -> (r: String)
    ensures
        r@ == decimal(n as nat),
    decreases n,
{
    if n < 10 {
        String::from_str(digit_str(n as u8))
    } else {
        let mut r = format_u128(n / 10);
        r.append(digit_str((n % 10) as u8));
        assert(r@ =~= decimal(n as nat));
        r
    }
}

/// Writes `n` in decimal.
pub fn format_u64(n: u64) -> (r: String)
    ensures
        r@ == decimal(n as nat),
{
    format_u128(n as u128)
}

/// Writes `n` in decimal.
pub fn format_u32(n: u32) -> (r: String)
    ensures
        r@ == decimal(n as nat),
{
    format_u128(n as u128)
}

/// Writes `n` in decimal.
pub fn format_usize(n: usize) -> (r: String)
    ensures
        r@ == decimal(n as nat),
{
    format_u128(n as u128)
}

/// Writes `n` in decimal, with a leading `-` if it is negative.
pub fn format_i128(n: i128) -> (r: String)
    ensures
        r@ == signed_decimal(n as int),
{
    if n < 0 {
        let magnitude: u128 = if n == i128::MIN {
            170141183460469231731687303715884105728u128
        } else {
            (-n) as u128
        };
        let mut r = String::from_str("-");
        let digits = format_u128(magnitude);
        r.append(digits.as_str());
        proof {
            reveal_strlit("-");
            assert(r@ =~= signed_decimal(n as int));
        }
        r
    } else {
        format_u128(n as u128)
    }
}

/// What `{:?}` formatting writes for a string: the text in double quotes
/// with the characters escaped that Rust escapes in string literals.
pub uninterp spec fn debug_quoted(s: Seq<char>) -> Seq<char>;

/// Quotes and escapes `s` through the standard library's `Debug`
/// formatting of `str`; the result is named by [`debug_quoted`], nothing
/// more is claimed of it.
#[verifier::external_body]
pub(crate) fn debug_quote(s: &str) -> (r: String)
    ensures
        r@ == debug_quoted(s@),
{
    format!("{:?}", s)
}

/// Whether every character is a visible ASCII character other than `:`.
pub open spec fn is_plain_path(s: Seq<char>) -> bool {
    forall|i: int| 0 <= i < s.len() ==> is_plain_path_char(#[trigger] s[i])
}

/// Whether `c` is a visible ASCII character (`!` to `~`) other than `:`.
pub open spec fn is_plain_path_char(c: char) -> bool {
    '!' <= c && c <= '~' && c != ':'
}

/// Decides [`is_plain_path`].
pub fn check_plain_path(s: &str) -> (r: bool)
    ensures
        r == is_plain_path(s@),
{
    let chars = chars_of(s);
    let mut i: usize = 0;
    while i < chars.len()
        invariant
            chars@ == s@,
            0 <= i <= chars.len(),
            forall|j: int| 0 <= j < i ==> is_plain_path_char(#[trigger] s@[j]),
        decreases chars.len() - i,
    {
        let c = chars[i];
        if !('!' <= c && c <= '~' && c != ':') {
            return false;
        }
        i += 1;
    }
    true
}

/// Concatenates two strings.
pub fn concat2(a: &str, b: &str) -> (r: String)
    ensures
        r@ == a@ + b@,
{
    let mut r = String::from_str(a);
    r.append(b);
    r
}

/// Concatenates three strings.
pub fn concat3(a: &str, b: &str, c: &str) -> (r: String)
    ensures
        r@ == a@ + b@ + c@,
{
    let mut r = String::from_str(a);
    r.append(b);
    r.append(c);
    r
}

/// The characters of a string, through `str::chars`.
#[verifier::external_body]
pub(crate) fn chars_of(s: &str) -> (r: Vec<char>)
    ensures
        r@ == s@,
{
    s.chars().collect()
}

/// The string of some characters, through `String::from_iter`.
#[verifier::external_body]
pub(crate) fn string_of(chars: &Vec<char>) -> (r: String)
    ensures
        r@ == chars@,
{
    chars.iter().collect()
}

/// What stands for a character in HTML text and attribute values.
pub open spec fn html_escaped_char(c: char) -> Seq<char> {
    if c == '&' {
        "&amp;"@
    } else if c == '<' {
        "&lt;"@
    } else if c == '>' {
        "&gt;"@
    } else if c == '"' {
        "&quot;"@
    } else {
        seq![c]
    }
}

/// The first `count` characters of `s`, escaped for HTML.
pub open spec fn html_escaped_prefix(s: Seq<char>, count: nat) -> Seq<char>
    decreases count,
{
    if count == 0 || count > s.len() {
        Seq::empty()
    } else {
        html_escaped_prefix(s, (count - 1) as nat) + html_escaped_char(s[count - 1])
    }
}

/// `s` with `&`, `<`, `>` and `"` replaced by their entities.
pub open spec fn html_escaped(s: Seq<char>) -> Seq<char> {
    html_escaped_prefix(s, s.len())
}

/// Computes [`html_escaped`].
pub fn html_escape(s: &str) -> (r: String)
    ensures
        r@ == html_escaped(s@),
{
    let chars = chars_of(s);
    let mut out = String::new();
    let mut plain: Vec<char> = Vec::new();
    let mut i: usize = 0;
    while i < chars.len()
        invariant
            0 <= i <= chars.len(),
            chars@ == s@,
            out@ + plain@ == html_escaped_prefix(s@, i as nat),
        decreases chars.len() - i,
    {
        let c = chars[i];
        let ghost before = out@ + plain@;
        if c == '&' || c == '<' || c == '>' || c == '"' {
            out.append(string_of(&plain).as_str());
            plain = Vec::new();
            if c == '&' {
                out.append("&amp;");
            } else if c == '<' {
                out.append("&lt;");
            } else if c == '>' {
                out.append("&gt;");
            } else {
                out.append("&quot;");
            }
            assert(out@ + plain@ =~= before + html_escaped_char(c));
        } else {
            plain.push(c);
            assert(out@ + plain@ =~= before + html_escaped_char(c));
        }
        i += 1;
    }
    let ghost before = out@ + plain@;
    out.append(string_of(&plain).as_str());
    assert(out@ =~= before);
    out
}

/// The character for one hexadecimal digit.
pub open spec fn hex_digit_char(d: nat) -> char
    recommends
        d < 16,
{
    if d < 10 {
        digit_char(d)
    } else if d == 10 {
        'a'
    } else if d == 11 {
        'b'
    } else if d == 12 {
        'c'
    } else if d == 13 {
        'd'
    } else if d == 14 {
        'e'
    } else {
        'f'
    }
}

/// A byte as two hexadecimal digits.
pub open spec fn hex_byte(b: u8) -> Seq<char> {
    seq![hex_digit_char((b / 16) as nat), hex_digit_char((b % 16) as nat)]
}

fn hex_digit_str(d: u8) -> (r: &'static str)
    requires
        d < 16,
    ensures
        r@ == seq![hex_digit_char(d as nat)],
{
    if d < 10 {
        digit_str(d)
    } else {
        proof {
            reveal_strlit("a");
            reveal_strlit("b");
            reveal_strlit("c");
            reveal_strlit("d");
            reveal_strlit("e");
            reveal_strlit("f");
        }
        let r = if d == 10 {
            "a"
        } else if d == 11 {
            "b"
        } else if d == 12 {
            "c"
        } else if d == 13 {
            "d"
        } else if d == 14 {
            "e"
        } else {
            "f"
        };
        assert(r@ =~= seq![hex_digit_char(d as nat)]);
        r
    }
}

/// Writes a byte as two hexadecimal digits.
pub fn format_hex_byte(b: u8) -> (r: String)
    ensures
        r@ == hex_byte(b),
{
    let mut r = String::from_str(hex_digit_str(b / 16));
    r.append(hex_digit_str(b % 16));
    assert(r@ =~= hex_byte(b));
    r
}

} // verus!

//! Text that the picker writes into headers and messages, and reads out of
//! addresses, request bodies and the environment.
use vstd::prelude::*;
use vstd::string::*;
use vstd::utf8::*;

verus! {

/// The decimal digit that stands for `d`, for `d` below ten.
pub open spec fn digit_char(d: nat) -> char {
    if d == 0 {
        '0'
    } else if d == 1 {
        '1'
    } else if d == 2 {
        '2'
    } else if d == 3 {
        '3'
    } else if d == 4 {
        '4'
    } else if d == 5 {
        '5'
    } else if d == 6 {
        '6'
    } else if d == 7 {
        '7'
    } else if d == 8 {
        '8'
    } else {
        '9'
    }
}

/// `n` in decimal, most significant digit first and without leading zeros.
pub open spec fn decimal_text(n: nat) -> Seq<char>
    decreases n,
{
    if n < 10 {
        seq![digit_char(n)]
    } else {
        decimal_text(n / 10).push(digit_char(n % 10))
    }
}

/// The number that a run of decimal digits denotes.
pub open spec fn decimal_value(s: Seq<char>) -> nat
    decreases s.len(),
{
    if s.len() == 0 {
        0
    } else {
        decimal_value(s.drop_last()) * 10 + (s.last() as nat - '0' as nat) as nat
    }
}

/// Reading a number back from its decimal text gives the number, so two
/// different numbers never share a text.
pub proof fn law_decimal_reads_back(n: nat)
    ensures
        decimal_value(decimal_text(n)) == n,
    decreases n,
{
    let text = decimal_text(n);
    if n < 10 {
        assert(text.drop_last() =~= Seq::<char>::empty());
        assert(decimal_value(text.drop_last()) == 0);
    } else {
        law_decimal_reads_back(n / 10);
        assert(text.drop_last() =~= decimal_text(n / 10));
    }
}

fn digit(d: u64) -> (r: &'static str)
    requires
        d < 10,
    ensures
        r@ == seq![digit_char(d as nat)],
{
    proof {
        reveal_strlit("0");
        reveal_strlit("1");
        reveal_strlit("2");
        reveal_strlit("3");
        reveal_strlit("4");
        reveal_strlit("5");
        reveal_strlit("6");
        reveal_strlit("7");
        reveal_strlit("8");
        reveal_strlit("9");
    }
    match d {
        0 => "0",
        1 => "1",
        2 => "2",
        3 => "3",
        4 => "4",
        5 => "5",
        6 => "6",
        7 => "7",
        8 => "8",
        _ => "9",
    }
}

/// Writes `n` in decimal.
pub fn decimal(n: u64) -> (r: String)
    ensures
        r@ == decimal_text(n as nat),
    decreases n,
{
    if n < 10 {
        digit(n).to_owned()
    } else {
        let mut text = decimal(n / 10);
        text.append(digit(n % 10));
        assert(text@ =~= decimal_text(n as nat));
        text
    }
}

/// `prefix` followed by `detail`.
pub fn prefixed(prefix: &str, detail: &str) -> (r: String)
    ensures
        r@ == prefix@ + detail@,
{
    let mut text = prefix.to_owned();
    text.append(detail);
    text
}

/// What is left of an address once its `http://` or `https://` is taken off.
pub open spec fn without_scheme(endpoint: Seq<char>) -> Seq<char> {
    if "http://"@.is_prefix_of(endpoint) {
        endpoint.skip("http://"@.len() as int)
    } else if "https://"@.is_prefix_of(endpoint) {
        endpoint.skip("https://"@.len() as int)
    } else {
        endpoint
    }
}

/// Calls `str::strip_prefix` with a string pattern: what follows `prefix` where
/// `s` starts with it, and `None` where it does not.
#[verifier::external_body]
fn after_prefix<'a>(s: &'a str, prefix: &str) -> (r: Option<&'a str>)
    ensures
        r is Some <==> prefix@.is_prefix_of(s@),
        r matches Some(rest) ==> rest@ == s@.skip(prefix@.len() as int),
{
    s.strip_prefix(prefix)
}

/// Takes the URL scheme off an address, so that only host and port are left.
pub fn strip_scheme(endpoint: &str) -> (r: &str)
    ensures
        r@ == without_scheme(endpoint@),
{
    match after_prefix(endpoint, "http://") {
        Some(rest) => rest,
        None => match after_prefix(endpoint, "https://") {
            Some(rest) => rest,
            None => endpoint,
        },
    }
}

/// A host and port, written behind either scheme or behind none, comes out as
/// it is.
pub proof fn law_scheme_is_stripped(host: Seq<char>)
    ensures
        without_scheme("http://"@ + host) == host,
        without_scheme("https://"@ + host) == host,
        !"http://"@.is_prefix_of(host) && !"https://"@.is_prefix_of(host) ==> without_scheme(host)
            == host,
{
    reveal_strlit("http://");
    reveal_strlit("https://");
    let plain = "http://"@ + host;
    let secure = "https://"@ + host;
    assert(plain.subrange(0, 7) =~= "http://"@);
    assert(plain.skip(7) =~= host);
    assert(secure[4] == 's');
    assert("http://"@[4] == ':');
    assert(secure.subrange(0, 8) =~= "https://"@);
    assert(secure.skip(8) =~= host);
}

/// Unicode's `White_Space` property.
pub open spec fn white_space(c: char) -> bool {
    ||| '\u{9}' <= c <= '\u{d}'
    ||| c == '\u{20}'
    ||| c == '\u{85}'
    ||| c == '\u{a0}'
    ||| c == '\u{1680}'
    ||| '\u{2000}' <= c <= '\u{200a}'
    ||| c == '\u{2028}'
    ||| c == '\u{2029}'
    ||| c == '\u{202f}'
    ||| c == '\u{205f}'
    ||| c == '\u{3000}'
}

/// Whether `c` is white space.
pub fn is_white_space(c: char) -> (r: bool)
    ensures
        r == white_space(c),
{
    ('\u{9}' <= c && c <= '\u{d}') || c == '\u{20}' || c == '\u{85}' || c == '\u{a0}' || c
        == '\u{1680}' || ('\u{2000}' <= c && c <= '\u{200a}') || c == '\u{2028}' || c == '\u{2029}'
        || c == '\u{202f}' || c == '\u{205f}' || c == '\u{3000}'
}

/// `s` without the white space it starts with.
pub open spec fn trimmed_start(s: Seq<char>) -> Seq<char>
    decreases s.len(),
{
    if s.len() > 0 && white_space(s[0]) {
        trimmed_start(s.drop_first())
    } else {
        s
    }
}

/// `s` without the white space it ends with.
pub open spec fn trimmed_end(s: Seq<char>) -> Seq<char>
    decreases s.len(),
{
    if s.len() > 0 && white_space(s.last()) {
        trimmed_end(s.drop_last())
    } else {
        s
    }
}

/// `s` without the white space around it.
pub open spec fn trimmed(s: Seq<char>) -> Seq<char> {
    trimmed_end(trimmed_start(s))
}

/// Takes the white space off both ends of `s`.
pub fn trim(s: &str) -> (r: &str)
    ensures
        r@ == trimmed(s@),
{
    let len: usize = s.unicode_len();
    let mut from: usize = 0;
    assert(s@.skip(0) =~= s@);
    while from < len && is_white_space(s.get_char(from))
        invariant
            from <= len,
            len == s@.len(),
            trimmed_start(s@) == trimmed_start(s@.skip(from as int)),
        decreases len - from,
    {
        assert(s@.skip(from as int).drop_first() =~= s@.skip(from + 1));
        from = from + 1;
    }
    let ghost rest = s@.skip(from as int);
    assert(trimmed_start(s@) == rest);
    let mut to: usize = len;
    assert(s@.subrange(from as int, to as int) =~= rest);
    while from < to && is_white_space(s.get_char(to - 1))
        invariant
            from <= to <= len,
            len == s@.len(),
            trimmed_end(rest) == trimmed_end(s@.subrange(from as int, to as int)),
        decreases to,
    {
        assert(s@.subrange(from as int, to as int).drop_last() =~= s@.subrange(
            from as int,
            to - 1,
        ));
        to = to - 1;
    }
    s.substring_char(from, to)
}

/// How the error of `std::str::from_utf8` on these bytes reads.
pub uninterp spec fn utf8_error_text(bytes: Seq<u8>) -> Seq<char>;

/// Calls `std::str::from_utf8`: the text that the bytes encode where they are
/// UTF-8, and the text of its error where they are not. That text is a function
/// of the bytes; what it says is left open.
#[verifier::external_body]
fn from_utf8(bytes: &[u8]) -> (r: Result<&str, String>)
    ensures
        r is Ok <==> valid_utf8(bytes@),
        r matches Ok(text) ==> text.spec_bytes() == bytes@,
        r matches Err(error) ==> error@ == utf8_error_text(bytes@),
{
    std::str::from_utf8(bytes).map_err(|e| format!("{e}"))
}

/// Reads bytes as UTF-8, or says in text why they are not.
pub fn utf8_text(bytes: &[u8]) -> (r: Result<String, String>)
    ensures
        r is Ok <==> valid_utf8(bytes@),
        r matches Ok(text) ==> text@ == decode_utf8(bytes@),
        r matches Err(error) ==> error@ == utf8_error_text(bytes@),
{
    match from_utf8(bytes) {
        Ok(text) => {
            proof {
                encode_utf8_decode_utf8(text@);
            }
            Ok(text.to_owned())
        },
        Err(error) => Err(error),
    }
}

proof fn lemma_decimal_text(n: nat)
    ensures
        decimal_text(n).len() > 0,
        forall|i: int| 0 <= i < decimal_text(n).len() ==> '0' <= #[trigger] decimal_text(n)[i] <= '9',
        decimal_text(n).len() > 1 ==> n >= 10,
        n > 0 ==> decimal_text(n)[0] != '0',
    decreases n,
{
    if n >= 10 {
        lemma_decimal_text(n / 10);
    }
}

/// What is written for a number is decimal digits only, reads back as that
/// number, and has no leading zero.
pub proof fn law_decimal_is_canonical(n: u64, written: String)
    requires
        call_ensures(decimal, (n,), written),
    ensures
        written@.len() > 0,
        forall|i: int| 0 <= i < written@.len() ==> '0' <= #[trigger] written@[i] <= '9',
        decimal_value(written@) == n,
        written@[0] == '0' ==> n == 0 && written@.len() == 1,
{
    lemma_decimal_text(n as nat);
    law_decimal_reads_back(n as nat);
}

/// A prefixed text starts with its prefix, and all that follows is the detail.
pub proof fn law_prefix_comes_first(prefix: &str, detail: &str, text: String)
    requires
        call_ensures(prefixed, (prefix, detail), text),
    ensures
        prefix@.is_prefix_of(text@),
        text@.skip(prefix@.len() as int) == detail@,
{
    assert(text@.subrange(0, prefix@.len() as int) =~= prefix@);
    assert(text@.skip(prefix@.len() as int) =~= detail@);
}

/// Of an address behind either scheme the rest is left, whatever it is; an
/// address behind neither stays as it is.
pub proof fn law_strip_scheme(endpoint: &str, host: Seq<char>, stripped: &str)
    requires
        call_ensures(strip_scheme, (endpoint,), stripped),
    ensures
        endpoint@ == "http://"@ + host ==> stripped@ == host,
        endpoint@ == "https://"@ + host ==> stripped@ == host,
        !"http://"@.is_prefix_of(endpoint@) && !"https://"@.is_prefix_of(endpoint@) ==> stripped@
            == endpoint@,
{
    law_scheme_is_stripped(host);
}

proof fn lemma_trimmed_start(s: Seq<char>) -> (from: int)
    ensures
        0 <= from <= s.len(),
        trimmed_start(s) == s.skip(from),
        forall|k: int| 0 <= k < from ==> white_space(#[trigger] s[k]),
        from < s.len() ==> !white_space(s[from]),
    decreases s.len(),
{
    if s.len() > 0 && white_space(s[0]) {
        let from = lemma_trimmed_start(s.drop_first());
        assert(s.drop_first().skip(from) =~= s.skip(from + 1));
        assert forall|k: int| 0 <= k < from + 1 implies white_space(#[trigger] s[k]) by {
            if k > 0 {
                assert(white_space(s.drop_first()[k - 1]));
            }
        }
        from + 1
    } else {
        assert(s.skip(0) =~= s);
        0
    }
}

proof fn lemma_trimmed_end(s: Seq<char>) -> (to: int)
    ensures
        0 <= to <= s.len(),
        trimmed_end(s) == s.take(to),
        forall|k: int| to <= k < s.len() ==> white_space(#[trigger] s[k]),
        to > 0 ==> !white_space(s[to - 1]),
    decreases s.len(),
{
    if s.len() > 0 && white_space(s.last()) {
        let to = lemma_trimmed_end(s.drop_last());
        assert(s.drop_last().take(to) =~= s.take(to));
        assert forall|k: int| to <= k < s.len() implies white_space(#[trigger] s[k]) by {
            if k < s.len() - 1 {
                assert(white_space(s.drop_last()[k]));
            }
        }
        to
    } else {
        assert(s.take(s.len() as int) =~= s);
        s.len() as int
    }
}

/// The text is `left`, then `core`, then `right`, with white space only on both
/// sides and none at either end of the core.
pub open spec fn trims_to(
    text: Seq<char>,
    left: Seq<char>,
    core: Seq<char>,
    right: Seq<char>,
) -> bool {
    &&& text == left + core + right
    &&& forall|i: int| 0 <= i < left.len() ==> white_space(#[trigger] left[i])
    &&& forall|i: int| 0 <= i < right.len() ==> white_space(#[trigger] right[i])
    &&& core.len() > 0 ==> !white_space(core[0]) && !white_space(core.last())
}

/// Trimming takes off white space only, and all of it at either end.
pub proof fn law_trim(s: &str, r: &str)
    requires
        call_ensures(trim, (s,), r),
    ensures
        exists|left: Seq<char>, right: Seq<char>| trims_to(s@, left, r@, right),
{
    law_trimmed_is_core(s@);
}

/// What trimming leaves of a text is its core.
pub proof fn law_trimmed_is_core(s: Seq<char>)
    ensures
        exists|left: Seq<char>, right: Seq<char>| trims_to(s, left, trimmed(s), right),
{
    let from = lemma_trimmed_start(s);
    let rest = s.skip(from);
    let to = lemma_trimmed_end(rest);
    let left = s.take(from);
    let right = rest.skip(to);
    let core = trimmed(s);
    assert(core == rest.take(to));
    assert(s =~= left + core + right);
    assert forall|i: int| 0 <= i < right.len() implies white_space(#[trigger] right[i]) by {
        assert(white_space(rest[to + i]));
    }
    if core.len() > 0 {
        assert(core.last() == rest[to - 1]);
        assert(core[0] == s[from]);
    }
    assert(trims_to(s, left, core, right));
}

/// Text that was read encodes to the very bytes it was read from, and bytes are
/// refused only where no text encodes to them. The same bytes are refused in
/// the same words.
pub proof fn law_utf8_text(bytes: &[u8], read: Result<String, String>, again: Result<String, String>)
    requires
        call_ensures(utf8_text, (bytes,), read),
        call_ensures(utf8_text, (bytes,), again),
    ensures
        read matches Ok(text) ==> encode_utf8(text@) == bytes@,
        read is Err ==> forall|text: Seq<char>| #[trigger] encode_utf8(text) != bytes@,
        read matches Err(words) ==> again is Err && again->Err_0@ == words@,
{
    if read is Ok {
        decode_utf8_encode_utf8(bytes@);
    } else {
        assert forall|text: Seq<char>| #[trigger] encode_utf8(text) != bytes@ by {
            encode_utf8_valid_utf8(text);
        }
    }
}

} // verus!

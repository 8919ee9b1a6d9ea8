//! Window titles and the status payload broadcast to the bar.
use vstd::prelude::*;
use vstd::utf8::encode_utf8;

verus! {

/// A UTF-16 code unit that opens a surrogate pair.
pub open spec fn is_high_surrogate(u: u16) -> bool {
    0xD800 <= u <= 0xDBFF
}

/// A UTF-16 code unit that closes a surrogate pair.
pub open spec fn is_low_surrogate(u: u16) -> bool {
    0xDC00 <= u <= 0xDFFF
}

/// UTF-16 decoding with replacement: a unit that is not a surrogate is its
/// own character; a high surrogate followed by a low one is the character
/// `0x10000 + (high - 0xD800) * 0x400 + (low - 0xDC00)`; any other surrogate
/// becomes U+FFFD.
pub open spec fn utf16_lossy(units: Seq<u16>) -> Seq<char>
    decreases units.len(),
{
    if units.len() == 0 {
        Seq::empty()
    } else if !is_high_surrogate(units[0]) && !is_low_surrogate(units[0]) {
        seq![units[0] as char] + utf16_lossy(units.drop_first())
    } else if is_high_surrogate(units[0]) && units.len() >= 2 && is_low_surrogate(units[1]) {
        let cp = 0x10000 + (units[0] - 0xD800) * 0x400 + (units[1] - 0xDC00);
        seq![cp as char] + utf16_lossy(units.subrange(2, units.len() as int))
    } else {
        seq!['\u{FFFD}'] + utf16_lossy(units.drop_first())
    }
}

/// Decodes UTF-16 code units with `String::from_utf16_lossy`. Trusted: std
/// documents that it decodes UTF-16, replacing invalid data with U+FFFD;
/// by the UTF-16 encoding that is `utf16_lossy`.
#[verifier::external_body]
fn decode_utf16_lossy(units: &[u16]) -> (text: String)
    ensures
        text@ == utf16_lossy(units@),
{
    String::from_utf16_lossy(units)
}

/// `s` without the run of `c` at its end.
pub open spec fn trim_end_char(s: Seq<char>, c: char) -> Seq<char>
    decreases s.len(),
{
    if s.len() > 0 && s.last() == c {
        trim_end_char(s.drop_last(), c)
    } else {
        s
    }
}

/// Removes every trailing `c` with `str::trim_end_matches`. Trusted: std
/// documents that it removes all suffixes matching the pattern, repeatedly,
/// which for a single character is the run of it at the end.
#[verifier::external_body]
fn trim_end_matching(s: &str, c: char) -> (r: &str)
    ensures
        r@ == trim_end_char(s@, c),
{
    s.trim_end_matches(c)
}

/// The title of a window from the buffer the window system filled: the whole
/// buffer decoded, less the NUL characters at its end.
pub fn window_title(buf: &[u16]) -> (title: String)
    ensures
        title@ == trim_end_char(utf16_lossy(buf@), '\0'),
{
    let decoded = decode_utf16_lossy(buf);
    let trimmed = trim_end_matching(decoded.as_str(), '\0');
    trimmed.to_owned()
}

/// The title held in the first `len` units of a buffer: empty when `len` is
/// not positive, else those units decoded.
pub fn title_prefix(buf: &[u16], len: i32) -> (title: String)
    requires
        len <= buf@.len(),
    ensures
        len <= 0 ==> title@ == Seq::<char>::empty(),
        len > 0 ==> title@ == utf16_lossy(buf@.subrange(0, len as int)),
{
    if len > 0 {
        let units = vstd::slice::slice_subrange(buf, 0, len as usize);
        decode_utf16_lossy(units)
    } else {
        String::new()
    }
}

/// The title of the status bar's own window.
pub open spec fn bar_title() -> Seq<char> {
    "OrbitBar"@
}

/// Whether a window title is the status bar's.
pub fn is_bar_title(title: &String) -> (r: bool)
    ensures
        r == (title@ == bar_title()),
{
    let bar = String::from_str("OrbitBar");
    *title == bar
}

/// The ASCII decimal digits of `n`, without leading zeros.
pub open spec fn decimal(n: nat) -> Seq<u8>
    decreases n,
{
    if n < 10 {
        seq![(48 + n) as u8]
    } else {
        decimal(n / 10) + seq![(48 + n % 10) as u8]
    }
}

fn push_decimal(out: &mut Vec<u8>, n: usize)
    ensures
        final(out)@ == old(out)@ + decimal(n as nat),
    decreases n,
{
    if n >= 10 {
        push_decimal(out, n / 10);
    }
    let digit = (n % 10) as u8;
    out.push(48 + digit);
    assert(final(out)@ =~= old(out)@ + decimal(n as nat)) by {
        if n >= 10 {
            assert(decimal(n as nat) == decimal((n / 10) as nat) + seq![(48 + n % 10) as u8]);
        }
    }
}

/// The status payload sent to the bar: the number of tiled windows in
/// decimal, a `|`, then the title of the active window in UTF-8.
pub fn telemetry_payload(count: usize, title: &str) -> (payload: Vec<u8>)
    ensures
        payload@ == decimal(count as nat) + seq![124u8] + encode_utf8(title@),
{
    let mut out: Vec<u8> = Vec::new();
    push_decimal(&mut out, count);
    out.push(124u8);
    let bytes = title.as_bytes();
    let ghost head = out@;
    let mut i: usize = 0;
    while i < bytes.len()
        invariant
            0 <= i <= bytes@.len(),
            bytes@ == encode_utf8(title@),
            head == decimal(count as nat) + seq![124u8],
            out@ == head + bytes@.subrange(0, i as int),
        decreases bytes@.len() - i,
    {
        out.push(bytes[i]);
        assert(bytes@.subrange(0, i + 1) =~= bytes@.subrange(0, i as int).push(bytes@[i as int]));
        i = i + 1;
    }
    assert(bytes@.subrange(0, bytes@.len() as int) =~= bytes@);
    out
}

/// The number that a string of ASCII decimal digits spells.
pub open spec fn digits_value(s: Seq<u8>) -> int
    decreases s.len(),
{
    if s.len() == 0 {
        0
    } else {
        10 * digits_value(s.drop_last()) + (s.last() - 48)
    }
}

/// Law: `decimal(n)` is the usual decimal writing of `n`: one or more ASCII
/// digits, with no leading zero unless `n` is 0, spelling `n`.
pub proof fn law_decimal_spells(n: nat)
    ensures
        decimal(n).len() >= 1,
        forall|i: int| 0 <= i < decimal(n).len() ==> 48 <= #[trigger] decimal(n)[i] <= 57,
        decimal(n)[0] == 48 ==> n == 0,
        digits_value(decimal(n)) == n,
    decreases n,
{
    if n >= 10 {
        law_decimal_spells(n / 10);
        let d = decimal(n / 10);
        let s = decimal(n);
        assert(s == d + seq![(48 + n % 10) as u8]);
        assert(s.drop_last() =~= d);
        assert forall|i: int| 0 <= i < s.len() implies 48 <= #[trigger] s[i] <= 57 by {
            if i < d.len() {
                assert(s[i] == d[i]);
            }
        }
        assert(s[0] == d[0]);
        assert(s.last() == 48 + n % 10);
        assert(10 * (n / 10) + n % 10 == n);
    } else {
        assert(decimal(n).drop_last() =~= Seq::<u8>::empty());
        assert(decimal(n).last() == 48 + n);
        assert(digits_value(Seq::<u8>::empty()) == 0);
    }
}

/// Law: trimming the run of `c` at the end leaves a prefix of `s` that does
/// not end in `c`, and everything cut off is `c`.
pub proof fn law_trim_end_char(s: Seq<char>, c: char)
    ensures
        ({
            let r = trim_end_char(s, c);
            &&& r.len() <= s.len()
            &&& r == s.subrange(0, r.len() as int)
            &&& forall|i: int| r.len() <= i < s.len() ==> s[i] == c
            &&& r.len() == 0 || r.last() != c
        }),
    decreases s.len(),
{
    if s.len() > 0 && s.last() == c {
        law_trim_end_char(s.drop_last(), c);
        let r = trim_end_char(s, c);
        assert(s.drop_last().subrange(0, r.len() as int) =~= s.subrange(0, r.len() as int));
        assert forall|i: int| r.len() <= i < s.len() implies s[i] == c by {
            if i < s.len() - 1 {
                assert(s.drop_last()[i] == s[i]);
            }
        }
    } else {
        assert(s.subrange(0, s.len() as int) =~= s);
    }
}

/// Law: UTF-16 units without surrogates (`0xD800..=0xDFFF`) decode one
/// character per unit, each the character with the unit's code.
pub proof fn law_utf16_without_surrogates(units: Seq<u16>)
    requires
        forall|i: int| 0 <= i < units.len() ==> !(0xD800 <= #[trigger] units[i] <= 0xDFFF),
    ensures
        utf16_lossy(units).len() == units.len(),
        forall|i: int| 0 <= i < units.len() ==> #[trigger] utf16_lossy(units)[i] == units[i] as char,
    decreases units.len(),
{
    if units.len() > 0 {
        let rest = units.drop_first();
        assert forall|i: int| 0 <= i < rest.len() implies !(0xD800 <= #[trigger] rest[i] <= 0xDFFF) by {
            assert(rest[i] == units[i + 1]);
        }
        law_utf16_without_surrogates(rest);
        assert(!(0xD800 <= units[0] <= 0xDFFF));
        let d = utf16_lossy(units);
        assert(d == seq![units[0] as char] + utf16_lossy(rest));
        assert forall|i: int| 0 <= i < units.len() implies #[trigger] d[i] == units[i] as char by {
            if i > 0 {
                assert(d[i] == utf16_lossy(rest)[i - 1]);
                assert(rest[i - 1] == units[i]);
            }
        }
    }
}

/// Law: a surrogate pair decodes to the one character it encodes, and a
/// surrogate that is not part of a pair to U+FFFD; the decoding of what
/// follows is unaffected.
pub proof fn law_utf16_surrogates(hi: u16, lo: u16, rest: Seq<u16>)
    requires
        0xD800 <= hi <= 0xDBFF,
        0xDC00 <= lo <= 0xDFFF,
    ensures
        utf16_lossy(seq![hi, lo] + rest) == seq![(0x10000 + (hi - 0xD800) * 0x400 + (lo - 0xDC00)) as char] + utf16_lossy(
            rest,
        ),
        utf16_lossy(seq![lo] + rest) == seq!['\u{FFFD}'] + utf16_lossy(rest),
        rest.len() == 0 || !(0xDC00 <= rest[0] <= 0xDFFF) ==> utf16_lossy(seq![hi] + rest) == seq!['\u{FFFD}']
            + utf16_lossy(rest),
{
    let a = seq![hi, lo] + rest;
    assert(a.subrange(2, a.len() as int) =~= rest);
    assert((seq![lo] + rest).drop_first() =~= rest);
    assert((seq![hi] + rest).drop_first() =~= rest);
    if rest.len() > 0 {
        assert((seq![hi] + rest)[1] == rest[0]);
    }
}

/// Law: the status bar's title is `"OrbitBar"`.
pub proof fn law_bar_title()
    ensures
        bar_title() == "OrbitBar"@,
{
}

} // verus!

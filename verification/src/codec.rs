//! The byte format of a recording, and the functions that write and read it.
//!
//! A recording is a status line, one line for each header, an empty line, and
//! then the body as it came. Every line of the head ends in CR LF. The first
//! CR LF CR LF of a recording is where its head ends; the body is whatever
//! follows, byte for byte.

use vstd::prelude::*;
use vstd::slice::slice_to_vec;
use crate::roundtrip::lemma_decoded_headers_fit;
use crate::scan::{
    boundary, boundary_bytes, contains, crlf, crlf_bytes, lemma_first_occurrence, single_line,
    spec_split_once, split_once, CR, LF,
};

verus! {

/// The byte between the parts of a status line.
pub const SP: u8 = 32;

/// The byte between a header's name and its value.
pub const COLON: u8 = 58;

/// The HTTP version that a response came with.
#[derive(Clone, Copy, Debug, PartialEq, Eq)]
pub enum Version {
    Http09,
    Http10,
    Http11,
    H2,
    H3,
}

impl Version {
    /// The token that opens the status line: `HTTP/1.1` and its kin.
    pub open spec fn token(self) -> Seq<u8> {
        match self {
            Version::Http09 => seq![72u8, 84u8, 84u8, 80u8, 47u8, 48u8, 46u8, 57u8],
            Version::Http10 => seq![72u8, 84u8, 84u8, 80u8, 47u8, 49u8, 46u8, 48u8],
            Version::Http11 => seq![72u8, 84u8, 84u8, 80u8, 47u8, 49u8, 46u8, 49u8],
            Version::H2 => seq![72u8, 84u8, 84u8, 80u8, 47u8, 50u8, 46u8, 48u8],
            Version::H3 => seq![72u8, 84u8, 84u8, 80u8, 47u8, 51u8, 46u8, 48u8],
        }
    }

    /// The digits of the version: major, then minor.
    fn digits(self) -> (d: (u8, u8))
        ensures
            self.token() == seq![72u8, 84u8, 84u8, 80u8, 47u8, d.0, 46u8, d.1],
    {
        match self {
            Version::Http09 => (48, 57),
            Version::Http10 => (49, 48),
            Version::Http11 => (49, 49),
            Version::H2 => (50, 48),
            Version::H3 => (51, 48),
        }
    }

    /// Appends the version's token to `out`.
    pub fn write_token(self, out: &mut Vec<u8>)
        ensures
            final(out)@ == old(out)@ + self.token(),
    {
        let d = self.digits();
        out.push(72);
        out.push(84);
        out.push(84);
        out.push(80);
        out.push(47);
        out.push(d.0);
        out.push(46);
        out.push(d.1);
        assert(out@ =~= old(out)@ + self.token());
    }
}

/// One header of a request or a response. Name and value are kept as the
/// bytes that came, in the order in which they came.
#[derive(Clone, Debug, PartialEq, Eq)]
pub struct Header {
    pub name: Vec<u8>,
    pub value: Vec<u8>,
}

/// What a header is: its name and its value.
pub struct HeaderView {
    pub name: Seq<u8>,
    pub value: Seq<u8>,
}

impl View for Header {
    type V = HeaderView;

    open spec fn view(&self) -> HeaderView {
        HeaderView { name: self.name@, value: self.value@ }
    }
}

impl DeepView for Header {
    type V = HeaderView;

    open spec fn deep_view(&self) -> HeaderView {
        self@
    }
}

impl HeaderView {
    /// The header fits on a line of its own and is found again there:
    /// neither name nor value holds a CR LF, and the name holds no colon.
    pub open spec fn fits_a_line(self) -> bool {
        &&& single_line(self.name)
        &&& single_line(self.value)
        &&& !contains(self.name, seq![COLON])
    }
}

/// Every header fits on a line of its own.
pub open spec fn headers_fit(headers: Seq<HeaderView>) -> bool {
    forall|i: int| 0 <= i < headers.len() ==> (#[trigger] headers[i]).fits_a_line()
}

/// The digits of `n` in base ten, without leading zeros.
pub open spec fn decimal(n: nat) -> Seq<u8>
    decreases n,
{
    if n < 10 {
        seq![(48 + n) as u8]
    } else {
        decimal(n / 10).push((48 + n % 10) as u8)
    }
}

/// The status line without its terminator: version, code and reason.
pub open spec fn status_line(version: Version, code: u16, reason: Seq<u8>) -> Seq<u8> {
    version.token() + seq![SP] + decimal(code as nat) + seq![SP] + reason
}

/// A header's line without its terminator: name, colon, value.
pub open spec fn header_line(h: HeaderView) -> Seq<u8> {
    h.name + seq![COLON] + h.value
}

/// The lines of a head: the status line, then the headers in their order.
pub open spec fn head_lines(
    version: Version,
    code: u16,
    reason: Seq<u8>,
    headers: Seq<HeaderView>,
) -> Seq<Seq<u8>> {
    seq![status_line(version, code, reason)] + headers.map_values(|h: HeaderView| header_line(h))
}

/// The lines one after another, each followed by CR LF.
pub open spec fn write_lines(lines: Seq<Seq<u8>>) -> Seq<u8>
    decreases lines.len(),
{
    if lines.len() == 0 {
        Seq::empty()
    } else {
        write_lines(lines.drop_last()) + lines.last() + crlf()
    }
}

/// The bytes of a recording: the head's lines, an empty line, the body.
pub open spec fn spec_encode(
    version: Version,
    code: u16,
    reason: Seq<u8>,
    headers: Seq<HeaderView>,
    body: Seq<u8>,
) -> Seq<u8> {
    write_lines(head_lines(version, code, reason, headers)) + crlf() + body
}

/// Appends `src` to `out`.
pub fn push_bytes(out: &mut Vec<u8>, src: &[u8])
    ensures
        final(out)@ == old(out)@ + src@,
{
    let n: usize = src.len();
    let mut i: usize = 0;
    while i < n
        invariant
            n == src@.len(),
            i <= n,
            out@ == old(out)@ + src@.take(i as int),
        decreases n - i,
    {
        out.push(src[i]);
        i = i + 1;
        assert(out@ =~= old(out)@ + src@.take(i as int));
    }
    assert(src@.take(n as int) =~= src@);
}

/// Appends the digits of `n` in base ten to `out`.
pub fn push_decimal(out: &mut Vec<u8>, n: u16)
    ensures
        final(out)@ == old(out)@ + decimal(n as nat),
    decreases n,
{
    if n >= 10 {
        push_decimal(out, n / 10);
    }
    let digit: u8 = 48 + (n % 10) as u8;
    out.push(digit);
    assert(out@ =~= old(out)@ + decimal(n as nat));
}

/// Appends a line terminator to `out`.
fn push_crlf(out: &mut Vec<u8>)
    ensures
        final(out)@ == old(out)@ + crlf(),
{
    out.push(CR);
    out.push(LF);
    assert(out@ =~= old(out)@ + crlf());
}

/// Writes a recording.
///
/// The status line is `<version> <code> <reason>`; each header becomes
/// `<name>:<value>`, in the order given and with nothing changed; an empty
/// line follows, then the body as it is.
pub fn encode(version: Version, code: u16, reason: &[u8], headers: &[Header], body: &[u8]) -> (out:
    Vec<u8>)
    ensures
        out@ == spec_encode(version, code, reason@, headers.deep_view(), body@),
{
    let ghost hs = headers.deep_view();
    let mut out: Vec<u8> = Vec::new();
    version.write_token(&mut out);
    out.push(SP);
    push_decimal(&mut out, code);
    out.push(SP);
    push_bytes(&mut out, reason);
    proof {
        assert(out@ =~= status_line(version, code, reason@));
    }
    push_crlf(&mut out);
    proof {
        let first = head_lines(version, code, reason@, hs.take(0));
        assert(first =~= seq![status_line(version, code, reason@)]);
        assert(first.drop_last() =~= Seq::<Seq<u8>>::empty());
        assert(write_lines(first.drop_last()) =~= Seq::<u8>::empty());
        assert(first.last() == status_line(version, code, reason@));
        assert(out@ =~= write_lines(first));
    }
    let n: usize = headers.len();
    let mut i: usize = 0;
    while i < n
        invariant
            n == headers@.len(),
            hs == headers.deep_view(),
            i <= n,
            out@ == write_lines(head_lines(version, code, reason@, hs.take(i as int))),
        decreases n - i,
    {
        let ghost before = out@;
        let h = &headers[i];
        push_bytes(&mut out, h.name.as_slice());
        out.push(COLON);
        push_bytes(&mut out, h.value.as_slice());
        push_crlf(&mut out);
        proof {
            let shorter = head_lines(version, code, reason@, hs.take(i as int));
            let longer = head_lines(version, code, reason@, hs.take(i + 1));
            assert(hs[i as int] == headers@[i as int]@);
            assert(longer =~= shorter.push(header_line(hs[i as int])));
            assert(longer.drop_last() =~= shorter);
            assert(out@ =~= before + header_line(hs[i as int]) + crlf());
        }
        i = i + 1;
    }
    proof {
        assert(hs.take(n as int) =~= hs);
    }
    push_crlf(&mut out);
    push_bytes(&mut out, body);
    out
}

/// Why a recording cannot be read.
#[derive(Clone, Copy, Debug, PartialEq, Eq)]
pub enum MalformedRecording {
    /// No CR LF CR LF ends the head.
    NoBoundary,
    /// The first line holds no code: no space, or no number behind the first
    /// space that fits in sixteen bits.
    StatusLine,
    /// A line of the head after the first holds no colon.
    HeaderLine,
}

/// What reading a recording gives: the code, the headers, the body.
#[derive(Clone, Debug, PartialEq, Eq)]
pub struct Decoded {
    pub code: u16,
    pub headers: Vec<Header>,
    pub body: Vec<u8>,
}

/// What was read from a recording.
pub struct DecodedView {
    pub code: u16,
    pub headers: Seq<HeaderView>,
    pub body: Seq<u8>,
}

impl View for Decoded {
    type V = DecodedView;

    open spec fn view(&self) -> DecodedView {
        DecodedView { code: self.code, headers: self.headers.deep_view(), body: self.body@ }
    }
}

/// The lines of `s`: what stands between one CR LF and the next. There is
/// always at least one line; it is all of `s` where `s` holds no CR LF.
pub open spec fn split_lines(s: Seq<u8>) -> Seq<Seq<u8>>
    decreases s.len(),
    via split_lines_ends
{
    match spec_split_once(s, crlf()) {
        Some((line, rest)) => seq![line] + split_lines(rest),
        None => seq![s],
    }
}

/// What follows a CR LF is shorter than the whole.
#[via_fn]
proof fn split_lines_ends(s: Seq<u8>) {
    lemma_first_occurrence(s, crlf());
}

/// A decimal digit.
pub open spec fn is_digit(b: u8) -> bool {
    48 <= b <= 57
}

/// The number that a run of digits writes in base ten.
pub open spec fn decimal_value(digits: Seq<u8>) -> nat
    decreases digits.len(),
{
    if digits.len() == 0 {
        0
    } else {
        decimal_value(digits.drop_last()) * 10 + (digits.last() - 48) as nat
    }
}

/// The code that `token` writes: it is one or more digits, and their number
/// fits in sixteen bits.
pub open spec fn spec_parse_decimal(token: Seq<u8>) -> Option<u16> {
    if token.len() > 0 && (forall|i: int| 0 <= i < token.len() ==> is_digit(#[trigger] token[i]))
        && decimal_value(token) <= u16::MAX {
        Some(decimal_value(token) as u16)
    } else {
        None
    }
}

/// The part of a status line that holds the code: what follows the first
/// space, up to the next space or to the end of the line.
pub open spec fn spec_code_token(line: Seq<u8>) -> Option<Seq<u8>> {
    match spec_split_once(line, seq![SP]) {
        Some((_, rest)) => match spec_split_once(rest, seq![SP]) {
            Some((token, _)) => Some(token),
            None => Some(rest),
        },
        None => None,
    }
}

/// The code of a status line.
pub open spec fn spec_parse_status_line(line: Seq<u8>) -> Option<u16> {
    match spec_code_token(line) {
        Some(token) => spec_parse_decimal(token),
        None => None,
    }
}

/// The header that a line holds: the name is what stands before the first
/// colon, the value is all that follows it.
pub open spec fn spec_parse_header_line(line: Seq<u8>) -> Option<HeaderView> {
    match spec_split_once(line, seq![COLON]) {
        Some((name, value)) => Some(HeaderView { name, value }),
        None => None,
    }
}

/// The headers that the lines hold, if every line holds one.
pub open spec fn spec_parse_header_lines(lines: Seq<Seq<u8>>) -> Option<Seq<HeaderView>> {
    if forall|i: int| 0 <= i < lines.len() ==> (#[trigger] spec_parse_header_line(lines[i])) is Some {
        Some(lines.map_values(|line: Seq<u8>| spec_parse_header_line(line).unwrap()))
    } else {
        None
    }
}

/// What reading a recording gives.
///
/// The head is what stands before the first CR LF CR LF, the body all that
/// follows it. The head's first line gives the code, each further line a
/// header.
pub open spec fn spec_decode(bytes: Seq<u8>) -> Result<DecodedView, MalformedRecording> {
    match spec_split_once(bytes, boundary()) {
        None => Err(MalformedRecording::NoBoundary),
        Some((head, body)) => {
            let lines = split_lines(head);
            match spec_parse_status_line(lines[0]) {
                None => Err(MalformedRecording::StatusLine),
                Some(code) => match spec_parse_header_lines(lines.skip(1)) {
                    None => Err(MalformedRecording::HeaderLine),
                    Some(headers) => Ok(DecodedView { code, headers, body }),
                },
            }
        },
    }
}

/// Among digits, a longer run writes no smaller number than its beginning.
proof fn lemma_decimal_value_grows(digits: Seq<u8>, k: int)
    requires
        0 <= k <= digits.len(),
        forall|i: int| 0 <= i < digits.len() ==> is_digit(#[trigger] digits[i]),
    ensures
        decimal_value(digits.take(k)) <= decimal_value(digits),
    decreases digits.len() - k,
{
    if k == digits.len() {
        assert(digits.take(k) =~= digits);
    } else {
        lemma_decimal_value_grows(digits, k + 1);
        let longer = digits.take(k + 1);
        assert(longer.drop_last() =~= digits.take(k));
        assert(is_digit(digits[k]));
        assert(longer.last() == digits[k]);
    }
}

/// Reads a code from its digits.
pub fn parse_decimal(token: &[u8]) -> (code: Option<u16>)
    ensures
        code == spec_parse_decimal(token@),
{
    let n: usize = token.len();
    if n == 0 {
        return None;
    }
    let mut acc: u32 = 0;
    let mut i: usize = 0;
    while i < n
        invariant
            n == token@.len(),
            i <= n,
            forall|k: int| 0 <= k < i ==> is_digit(#[trigger] token@[k]),
            acc == decimal_value(token@.take(i as int)),
            acc <= u16::MAX,
        decreases n - i,
    {
        let b: u8 = token[i];
        if b < 48 || b > 57 {
            assert(!is_digit(token@[i as int]));
            return None;
        }
        proof {
            let longer = token@.take(i + 1);
            assert(longer.drop_last() =~= token@.take(i as int));
            assert(longer.last() == b);
        }
        acc = acc * 10 + (b - 48) as u32;
        if acc > 65535 {
            proof {
                if forall|k: int| 0 <= k < n ==> is_digit(#[trigger] token@[k]) {
                    lemma_decimal_value_grows(token@, i + 1);
                }
            }
            return None;
        }
        i = i + 1;
    }
    proof {
        assert(token@.take(n as int) =~= token@);
    }
    Some(acc as u16)
}

/// A space as a pattern.
fn space_bytes() -> (pat: [u8; 1])
    ensures
        pat@ == seq![SP],
{
    let pat: [u8; 1] = [SP];
    assert(pat@ =~= seq![SP]);
    pat
}

/// A colon as a pattern.
fn colon_bytes() -> (pat: [u8; 1])
    ensures
        pat@ == seq![COLON],
{
    let pat: [u8; 1] = [COLON];
    assert(pat@ =~= seq![COLON]);
    pat
}

/// Reads the code from a status line.
pub fn parse_status_line(line: &[u8]) -> (code: Option<u16>)
    ensures
        code == spec_parse_status_line(line@),
{
    let space = space_bytes();
    match split_once(line, space.as_slice()) {
        Some((_, rest)) => match split_once(rest, space.as_slice()) {
            Some((token, _)) => parse_decimal(token),
            None => parse_decimal(rest),
        },
        None => None,
    }
}

/// Reads a header from its line.
pub fn parse_header_line(line: &[u8]) -> (header: Option<Header>)
    ensures
        match header {
            Some(h) => spec_parse_header_line(line@) == Some(h@),
            None => spec_parse_header_line(line@) is None,
        },
{
    let colon = colon_bytes();
    match split_once(line, colon.as_slice()) {
        Some((name, value)) => Some(Header { name: slice_to_vec(name), value: slice_to_vec(value) }),
        None => None,
    }
}

/// The first line of `s`, and what follows its terminator if it has one.
fn next_line<'a>(s: &'a [u8]) -> (parts: (&'a [u8], Option<&'a [u8]>))
    ensures
        match parts.1 {
            Some(rest) => split_lines(s@) == seq![parts.0@] + split_lines(rest@) && rest@.len()
                < s@.len(),
            None => split_lines(s@) == seq![parts.0@],
        },
{
    let terminator = crlf_bytes();
    proof {
        lemma_first_occurrence(s@, crlf());
    }
    match split_once(s, terminator.as_slice()) {
        Some((line, rest)) => (line, Some(rest)),
        None => (s, None),
    }
}

/// Reads a recording.
///
/// The head ends at the first CR LF CR LF; the body is all that follows it,
/// unchanged. The first line of the head gives the code: the number that
/// follows the line's first space. Every further line gives a header, cut at
/// the line's first colon, the value taken as it stands.
///
/// Fails with `NoBoundary` where no CR LF CR LF occurs, else with
/// `StatusLine` where the first line gives no code, else with `HeaderLine`
/// where a further line holds no colon.
///
/// The headers that come out each fit on a line, so that the recording can
/// be written again and read back as it is.
pub fn decode(bytes: &[u8]) -> (result: Result<Decoded, MalformedRecording>)
    ensures
        match result {
            Ok(decoded) => spec_decode(bytes@) == Ok::<DecodedView, MalformedRecording>(decoded@)
                && headers_fit(decoded@.headers),
            Err(e) => spec_decode(bytes@) == Err::<DecodedView, MalformedRecording>(e),
        },
{
    let blank = boundary_bytes();
    let (head, body) = match split_once(bytes, blank.as_slice()) {
        Some(parts) => parts,
        None => {
            return Err(MalformedRecording::NoBoundary);
        },
    };
    let ghost lines = split_lines(head@);
    let (first, after_first) = next_line(head);
    assert(lines[0] == first@);
    let code: u16 = match parse_status_line(first) {
        Some(code) => code,
        None => {
            return Err(MalformedRecording::StatusLine);
        },
    };
    let mut headers: Vec<Header> = Vec::new();
    let mut rest: Option<&[u8]> = after_first;
    let ghost mut done: Seq<Seq<u8>> = Seq::empty();
    while rest.is_some()
        invariant
            spec_split_once(bytes@, boundary()) == Some((head@, body@)),
            lines == split_lines(head@),
            spec_parse_status_line(lines[0]) == Some(code),
            lines == seq![first@] + done + (match rest {
                Some(r) => split_lines(r@),
                None => Seq::<Seq<u8>>::empty(),
            }),
            headers@.len() == done.len(),
            forall|k: int|
                0 <= k < done.len() ==> spec_parse_header_line(#[trigger] done[k]) == Some(
                    headers@[k]@,
                ),
        decreases
            match rest {
                Some(r) => r@.len() + 1,
                None => 0,
            },
    {
        let (line, after) = next_line(rest.unwrap());
        proof {
            let tail = match after {
                Some(a) => split_lines(a@),
                None => Seq::<Seq<u8>>::empty(),
            };
            assert(lines =~= seq![first@] + done.push(line@) + tail);
            assert(lines.skip(1)[done.len() as int] == line@);
        }
        match parse_header_line(line) {
            Some(h) => {
                headers.push(h);
            },
            None => {
                assert(spec_parse_header_line(lines.skip(1)[done.len() as int]) is None);
                return Err(MalformedRecording::HeaderLine);
            },
        }
        proof {
            done = done.push(line@);
        }
        rest = after;
    }
    proof {
        assert(lines.skip(1) =~= done);
        assert(headers.deep_view() =~= done.map_values(
            |line: Seq<u8>| spec_parse_header_line(line).unwrap(),
        ));
        lemma_decoded_headers_fit(bytes@);
    }
    Ok(Decoded { code, headers, body: slice_to_vec(body) })
}

} // verus!

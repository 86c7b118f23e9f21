//! Reading a recording gives back what was written.

use vstd::prelude::*;
use crate::codec::{
    decimal, decimal_value, head_lines, header_line, headers_fit, is_digit, spec_decode,
    spec_encode, spec_parse_decimal, spec_parse_header_line, spec_parse_header_lines,
    spec_parse_status_line, split_lines, status_line, DecodedView, HeaderView,
    MalformedRecording, Version, COLON, SP,
};
use crate::framing::{
    lemma_head_is_framed, lemma_single_line_part, lemma_split_lines_are_single, plain_lines,
};
use crate::scan::{
    boundary, contains, crlf, first_at, first_occurrence, lemma_first_occurrence,
    lemma_first_occurrence_is, lemma_occurs_byte, lemma_occurs_crlf, occurs_at, single_line,
    spec_split_once, CR, LF,
};

verus! {

/// No byte of `s` is a CR, an LF or a space.
pub open spec fn is_token(s: Seq<u8>) -> bool {
    forall|i: int| 0 <= i < s.len() ==> (#[trigger] s[i]) != CR && s[i] != LF && s[i] != SP
}

/// The digits of a number are digits, and there is at least one.
pub proof fn lemma_decimal_is_digits(n: nat)
    ensures
        decimal(n).len() > 0,
        forall|i: int| 0 <= i < decimal(n).len() ==> is_digit(#[trigger] decimal(n)[i]),
    decreases n,
{
    if n >= 10 {
        lemma_decimal_is_digits(n / 10);
    }
}

/// The digits of a number write that number.
pub proof fn lemma_decimal_value_of_decimal(n: nat)
    ensures
        decimal_value(decimal(n)) == n,
    decreases n,
{
    if n < 10 {
        let d = decimal(n);
        assert(d.drop_last() =~= Seq::<u8>::empty());
        assert(decimal_value(d.drop_last()) == 0);
    } else {
        lemma_decimal_value_of_decimal(n / 10);
        let d = decimal(n);
        assert(d.drop_last() =~= decimal(n / 10));
    }
}

/// A code is read back from its digits.
pub proof fn lemma_parse_decimal_of_decimal(code: u16)
    ensures
        spec_parse_decimal(decimal(code as nat)) == Some(code),
{
    lemma_decimal_is_digits(code as nat);
    lemma_decimal_value_of_decimal(code as nat);
}

/// The version's token holds no CR, LF or space.
pub proof fn lemma_version_is_token(version: Version)
    ensures
        is_token(version.token()),
        version.token().len() == 8,
{
}

/// Two sequences without CR LF make one without it, unless the first ends
/// in CR and the second begins with LF.
pub proof fn lemma_single_line_concat(a: Seq<u8>, b: Seq<u8>)
    requires
        single_line(a),
        single_line(b),
        a.len() == 0 || b.len() == 0 || a.last() != CR || b[0] != LF,
    ensures
        single_line(a + b),
{
    assert forall|j: int| !occurs_at(a + b, crlf(), j) by {
        lemma_occurs_crlf(a + b, j);
        lemma_occurs_crlf(a, j);
        lemma_occurs_crlf(b, j - a.len());
    }
}

/// A sequence without CR and without LF holds no CR LF.
pub proof fn lemma_token_is_single_line(s: Seq<u8>)
    requires
        forall|i: int| 0 <= i < s.len() ==> (#[trigger] s[i]) != CR && s[i] != LF,
    ensures
        single_line(s),
{
    assert forall|j: int| !occurs_at(s, crlf(), j) by {
        lemma_occurs_crlf(s, j);
    }
}

/// The status line is one line when its reason is.
pub proof fn lemma_status_line_is_plain(version: Version, code: u16, reason: Seq<u8>)
    requires
        single_line(reason),
    ensures
        status_line(version, code, reason).len() > 0,
        single_line(status_line(version, code, reason)),
{
    lemma_version_is_token(version);
    lemma_decimal_is_digits(code as nat);
    let front = version.token() + seq![SP] + decimal(code as nat) + seq![SP];
    lemma_token_is_single_line(front);
    lemma_single_line_concat(front, reason);
}

/// A sequence is cut at a separator byte that its front part does not
/// hold: the parts are the front and the back.
pub proof fn lemma_split_at_separator(front: Seq<u8>, separator: u8, back: Seq<u8>)
    requires
        forall|i: int| 0 <= i < front.len() ==> (#[trigger] front[i]) != separator,
    ensures
        spec_split_once(front + seq![separator] + back, seq![separator]) == Some((front, back)),
{
    let pat = seq![separator];
    let whole = front + pat + back;
    let n = front.len() as int;
    assert forall|j: int| 0 <= j < n implies !occurs_at(whole, pat, j) by {
        lemma_occurs_byte(whole, separator, j);
        assert(whole[j] == front[j]);
    }
    lemma_occurs_byte(whole, separator, n);
    lemma_first_occurrence_is(whole, pat, n);
    assert(whole.take(n) =~= front);
    assert(whole.skip(n + 1) =~= back);
}

/// The code is read back from the status line.
pub proof fn lemma_parse_status_line(version: Version, code: u16, reason: Seq<u8>)
    ensures
        spec_parse_status_line(status_line(version, code, reason)) == Some(code),
{
    let token = version.token();
    let digits = decimal(code as nat);
    let rest = digits + seq![SP] + reason;
    assert(status_line(version, code, reason) =~= token + seq![SP] + rest);
    assert forall|i: int| 0 <= i < token.len() implies (#[trigger] token[i]) != SP by {
        lemma_version_is_token(version);
    }
    lemma_split_at_separator(token, SP, rest);
    assert forall|i: int| 0 <= i < digits.len() implies (#[trigger] digits[i]) != SP by {
        lemma_decimal_is_digits(code as nat);
        assert(is_digit(digits[i]));
    }
    lemma_split_at_separator(digits, SP, reason);
    lemma_parse_decimal_of_decimal(code);
}

/// A header that fits a line makes a plain line.
pub proof fn lemma_header_line_is_plain(h: HeaderView)
    requires
        h.fits_a_line(),
    ensures
        header_line(h).len() > 0,
        single_line(header_line(h)),
{
    let colon = seq![COLON];
    lemma_token_is_single_line(colon);
    lemma_single_line_concat(h.name, colon);
    lemma_single_line_concat(h.name + colon, h.value);
}

/// A header whose name holds no colon is read back from its line.
pub proof fn lemma_parse_header_line(h: HeaderView)
    requires
        !contains(h.name, seq![COLON]),
    ensures
        spec_parse_header_line(header_line(h)) == Some(h),
{
    assert forall|i: int| 0 <= i < h.name.len() implies (#[trigger] h.name[i]) != COLON by {
        lemma_occurs_byte(h.name, COLON, i);
        assert(!occurs_at(h.name, seq![COLON], i));
    }
    lemma_split_at_separator(h.name, COLON, h.value);
}

/// A header that was read from a line without CR LF fits on a line.
pub proof fn lemma_parsed_header_fits(line: Seq<u8>)
    requires
        single_line(line),
        spec_parse_header_line(line) is Some,
    ensures
        spec_parse_header_line(line)->Some_0.fits_a_line(),
{
    let colon = seq![COLON];
    lemma_first_occurrence(line, colon);
    let i = first_occurrence(line, colon)->Some_0;
    let name = line.take(i);
    lemma_single_line_part(line, 0, i);
    lemma_single_line_part(line, i + 1, line.len() as int);
    assert forall|j: int| !occurs_at(name, colon, j) by {
        lemma_occurs_byte(name, COLON, j);
        lemma_occurs_byte(line, COLON, j);
        if 0 <= j < i {
            assert(!occurs_at(line, colon, j));
        }
    }
}

/// The headers of a recording that was read each fit on a line: what
/// `spec_decode` gives can be written again and read back as it is.
pub proof fn lemma_decoded_headers_fit(bytes: Seq<u8>)
    requires
        spec_decode(bytes) is Ok,
    ensures
        headers_fit(spec_decode(bytes)->Ok_0.headers),
{
    let head = spec_split_once(bytes, boundary())->Some_0.0;
    let lines = split_lines(head);
    let header_lines = lines.skip(1);
    let headers = spec_decode(bytes)->Ok_0.headers;
    assert(spec_parse_header_lines(header_lines) == Some(headers));
    assert forall|i: int| 0 <= i < headers.len() implies (#[trigger] headers[i]).fits_a_line() by {
        assert(spec_parse_header_line(header_lines[i]) is Some);
        lemma_split_lines_are_single(head, i + 1);
        lemma_parsed_header_fits(header_lines[i]);
    }
}

/// The body is what follows the first CR LF CR LF, whatever it holds: a
/// later CR LF CR LF is part of the body like any other bytes.
pub proof fn lemma_body_follows_first_boundary(bytes: Seq<u8>)
    requires
        spec_decode(bytes) is Ok,
    ensures
        first_occurrence(bytes, boundary()) is Some,
        first_at(bytes, boundary(), first_occurrence(bytes, boundary())->Some_0),
        spec_decode(bytes)->Ok_0.body == bytes.skip(
            first_occurrence(bytes, boundary())->Some_0 + 4,
        ),
{
    lemma_first_occurrence(bytes, boundary());
}

/// The round trip: a recording that is written and read again gives the
/// code, the headers with their names and values in their order, and the
/// body, each as it was, whatever the body holds. The reason must hold no
/// CR LF, and every header must fit on a line: neither its name nor its
/// value holds a CR LF, and its name holds no colon.
pub proof fn lemma_decode_encode(
    version: Version,
    code: u16,
    reason: Seq<u8>,
    headers: Seq<HeaderView>,
    body: Seq<u8>,
)
    requires
        single_line(reason),
        headers_fit(headers),
    ensures
        spec_decode(spec_encode(version, code, reason, headers, body)) == Ok::<
            DecodedView,
            MalformedRecording,
        >(DecodedView { code, headers, body }),
{
    let lines = head_lines(version, code, reason, headers);
    let header_lines = headers.map_values(|h: HeaderView| header_line(h));
    lemma_status_line_is_plain(version, code, reason);
    assert(plain_lines(lines)) by {
        assert forall|i: int| 0 <= i < lines.len() implies (#[trigger] lines[i]).len() > 0
            && single_line(lines[i]) by {
            if i > 0 {
                assert(lines[i] == header_line(headers[i - 1]));
                lemma_header_line_is_plain(headers[i - 1]);
            }
        }
    }
    lemma_head_is_framed(lines, body);
    lemma_parse_status_line(version, code, reason);
    assert(lines.skip(1) =~= header_lines);
    assert forall|i: int| 0 <= i < header_lines.len() implies (#[trigger] spec_parse_header_line(
        header_lines[i],
    )) == Some(headers[i]) by {
        lemma_parse_header_line(headers[i]);
    }
    assert(header_lines.map_values(|line: Seq<u8>| spec_parse_header_line(line).unwrap())
        =~= headers);
    assert(spec_parse_header_lines(header_lines) == Some(headers));
}

} // verus!

//! What is logged of requests.

use crate::laws::addressing::is_white;
use crate::text::{
    all_digits, blank, decimal, digit, digit_value, is_blank, numeral_value, parse_u64,
    push_decimal, starts_with, white_space,
};
use crate::web_server::{
    choose_host, choose_scheme, content_length, finish_trace, first_values, header_str,
    header_value, host, lower_hex, lower_name, protocol, query_string, read_content_length,
    request_trace_id, scheme, trace_id_from_context, visible, visible_text, HttpRequestLogInfo,
    HttpResponseLogInfo, HttpVersion, RequestHead, SpanIds, TraceEnd,
};
use axum::http::header::{HeaderMap, HeaderValue};
use vstd::arithmetic::power::pow;
use vstd::prelude::*;

verus! {

/// Whether `c` is the decimal digit with this value.
pub open spec fn is_decimal(c: char, value: int) -> bool {
    0 <= value < 10 && c as int == 48 + value
}

/// Whether a text is one or more decimal digits, with or without a plus sign before them.
pub open spec fn is_numeral(text: Seq<char>) -> bool {
    let start = if text.len() > 0 && text[0] == '+' {
        1int
    } else {
        0int
    };
    &&& start < text.len()
    &&& forall|i: int| start <= i < text.len() ==> 48 <= (#[trigger] text[i]) as int <= 57
}

spec fn digits_of(text: Seq<char>) -> Seq<char> {
    if text.len() > 0 && text[0] == '+' {
        text.skip(1)
    } else {
        text
    }
}

proof fn lemma_numeral(text: Seq<char>)
    ensures
        is_numeral(text) <==> digits_of(text).len() > 0 && all_digits(digits_of(text)),
{
    let digits = digits_of(text);
    let start = text.len() - digits.len();
    assert forall|i: int| 0 <= i < digits.len() implies digits[i] == #[trigger] text[i
        + start] by {}
    if is_numeral(text) {
        assert forall|i: int| 0 <= i < digits.len() implies digit_value(
            #[trigger] digits[i],
        ) is Some by {
            assert(digits[i] == text[i + start]);
        }
    }
    if digits.len() > 0 && all_digits(digits) {
        assert forall|i: int| start <= i < text.len() implies 48 <= (#[trigger] text[i]) as int
            <= 57 by {
            assert(digit_value(digits[i - start]) is Some);
        }
    }
}

/// A number is read digit by digit: one more digit makes it ten times as large and adds the
/// digit, unless it gets too large to hold; a plus sign at the start changes nothing; anything
/// else in a text makes it no number, and so does the lack of digits.
pub proof fn law_numbers_are_read(
    text: &str,
    more: &str,
    c: char,
    value: int,
    number: Option<u64>,
    next: Option<u64>,
)
    requires
        call_ensures(parse_u64, (text,), number),
        call_ensures(parse_u64, (more,), next),
        more@ == text@.push(c),
    ensures
        text@.len() == 0 ==> number is None,
        number is Some ==> is_numeral(text@),
        (text@.len() == 0 || text@ == seq!['+']) && is_decimal(c, value) ==> next == Some(
            value as u64,
        ),
        number is Some && is_decimal(c, value) && 10 * number->0 + value
            <= 18_446_744_073_709_551_615 ==> next == Some((10 * number->0 + value) as u64),
        number is Some && is_decimal(c, value) && 10 * number->0 + value
            > 18_446_744_073_709_551_615 ==> next is None,
        is_numeral(text@) && number is None ==> next is None,
        !(48 <= c as int <= 57) ==> next is None,
        text@.len() > 0 && text@ != seq!['+'] && !is_numeral(text@) ==> next is None,
{
    let t = text@;
    let m = more@;
    lemma_numeral(t);
    lemma_numeral(m);
    let a = digits_of(t);
    let b = digits_of(m);
    if t.len() > 0 {
        assert(b =~= a.push(c));
    } else {
        assert(m =~= seq![c]);
    }
    if t == seq!['+'] {
        assert(a.len() == 0);
        assert(b =~= seq![c]);
    }
    if t.len() > 0 && a.len() == 0 {
        assert(t =~= seq!['+']);
    }
    if b.len() > 0 {
        assert(b.last() == c || t.len() == 0);
        if all_digits(b) && t.len() > 0 {
            assert(all_digits(a)) by {
                assert forall|i: int| 0 <= i < a.len() implies digit_value(
                    #[trigger] a[i],
                ) is Some by {
                    assert(b[i] == a[i]);
                }
            }
        }
        if !(48 <= c as int <= 57) {
            if t.len() > 0 {
                assert(digit_value(b[b.len() - 1]) is None);
            } else if c != '+' {
                assert(digit_value(b[0]) is None);
            }
        }
        if t.len() > 0 && all_digits(a) && 48 <= c as int <= 57 {
            assert(all_digits(b)) by {
                assert forall|i: int| 0 <= i < b.len() implies digit_value(
                    #[trigger] b[i],
                ) is Some by {
                    if i < a.len() {
                        assert(b[i] == a[i]);
                    }
                }
            }
            assert(b.drop_last() =~= a);
            assert(numeral_value(b) == 10 * numeral_value(a) + digit_value(c)->0);
        }
        if t.len() == 0 && 48 <= c as int <= 57 {
            assert(b =~= seq![c]);
            assert(b.drop_last() =~= Seq::<char>::empty());
            assert(numeral_value(b.drop_last()) == 0);
            assert(all_digits(b));
        }
        if a.len() == 0 && t.len() > 0 && 48 <= c as int <= 57 {
            assert(numeral_value(a) == 0);
        }
    }
}

/// A number is printed digit by digit, after what is there already and without zeros before it.
pub proof fn law_numbers_are_printed(
    out: &mut String,
    number: u128,
    shorter: &mut String,
)
    requires
        call_ensures(push_decimal, (out, number), ()),
        call_ensures(push_decimal, (shorter, (number / 10) as u128), ()),
        old(shorter)@ == old(out)@,
    ensures
        number < 10 ==> final(out)@ == old(out)@.push((48 + number) as char),
        number >= 10 ==> final(out)@ == final(shorter)@.push((48 + number % 10) as char),
{
    lemma_digit_char((number % 10) as nat);
    if number < 10 {
        assert(final(out)@ =~= old(out)@.push((48 + number) as char));
    } else {
        let n = number as nat;
        assert(decimal(n) == decimal(n / 10).push(digit(n % 10)));
        assert(final(out)@ =~= final(shorter)@.push((48 + number % 10) as char));
    }
}

proof fn lemma_digit_char(d: nat)
    requires
        d < 10,
    ensures
        digit(d) == (48 + d) as char,
{
}

/// A text is blank if, and only if, all of it is white space.
pub proof fn law_blank_texts(text: &str, found: bool)
    requires
        call_ensures(is_blank, (text,), found),
    ensures
        found <==> forall|i: int| 0 <= i < text@.len() ==> is_white(#[trigger] text@[i]),
{
    assert forall|i: int| 0 <= i < text@.len() implies is_white(#[trigger] text@[i])
        == white_space(text@[i]) by {}
    if found {
        assert(blank(text@));
    } else if forall|i: int| 0 <= i < text@.len() ==> is_white(#[trigger] text@[i]) {
        assert(blank(text@));
    }
}

/// A text starts with another if, and only if, it goes on from it.
pub proof fn law_prefixes(text: &str, prefix: &str, found: bool, rest: Seq<char>)
    requires
        call_ensures(starts_with, (text, prefix), found),
    ensures
        text@ == prefix@ + rest ==> found,
        found ==> text@ == prefix@ + text@.skip(prefix@.len() as int),
{
    if text@ == prefix@ + rest {
        assert(text@.subrange(0, prefix@.len() as int) =~= prefix@);
    }
    if found {
        assert(text@.subrange(0, prefix@.len() as int) =~= prefix@);
        assert(text@ =~= prefix@ + text@.skip(prefix@.len() as int));
    }
}

/// Whether `key` is `name` with its capital letters made small.
pub open spec fn is_small(name: Seq<char>, key: Seq<char>) -> bool {
    &&& key.len() == name.len()
    &&& forall|i: int|
        0 <= i < name.len() ==> (#[trigger] key[i]) as int == (if 65 <= name[i] as int <= 90 {
            name[i] as int + 32
        } else {
            name[i] as int
        })
}

/// Whether a byte of a header can be shown: a tab, or any ASCII character from the space to the
/// tilde.
pub open spec fn can_be_shown(byte: u8) -> bool {
    byte == 9 || 32 <= byte <= 126
}

/// A header is found by its name, in small letters or in capitals, and read as text where all of
/// it can be shown.
pub proof fn law_headers_are_read(
    headers: &HeaderMap<HeaderValue>,
    name: &str,
    key: Seq<char>,
    text: Option<&str>,
)
    requires
        call_ensures(header_str, (headers, name), text),
        is_small(name@, key),
    ensures
        !first_values(*headers).contains_key(key) ==> text is None,
        first_values(*headers).contains_key(key) ==> {
            let bytes = first_values(*headers)[key];
            if forall|i: int| 0 <= i < bytes.len() ==> can_be_shown(#[trigger] bytes[i]) {
                &&& text is Some
                &&& text->0@.len() == bytes.len()
                &&& forall|i: int|
                    0 <= i < bytes.len() ==> (#[trigger] text->0@[i]) as int == bytes[i]
            } else {
                text is None
            }
        },
{
    assert(lower_name(name@) =~= key) by {
        assert forall|i: int| 0 <= i < key.len() implies lower_name(name@)[i] == key[i] by {
            assert(key[i] as int == lower_name(name@)[i] as int);
        }
    }
    if first_values(*headers).contains_key(key) {
        let bytes = first_values(*headers)[key];
        assert forall|i: int| 0 <= i < bytes.len() implies can_be_shown(#[trigger] bytes[i])
            == visible(bytes[i]) by {}
        if forall|i: int| 0 <= i < bytes.len() ==> can_be_shown(#[trigger] bytes[i]) {
            assert(visible_text(bytes) is Some);
        } else {
            let i = choose|i: int| 0 <= i < bytes.len() && !can_be_shown(#[trigger] bytes[i]);
            assert(!visible(bytes[i]));
            assert(visible_text(bytes) is None);
        }
    }
}

/// The value of a header is its text, or nothing.
pub proof fn law_header_values(
    headers: &HeaderMap<HeaderValue>,
    name: &str,
    text: Option<&str>,
    value: String,
)
    requires
        call_ensures(header_str, (headers, name), text),
        call_ensures(header_value, (headers, name), value),
    ensures
        text is Some ==> value@ == text->0@,
        text is None ==> value@.len() == 0,
{
}

/// Where something is taken from the first source that has it, a source that has none counts for
/// nothing and one that has it hides those after it. The scheme is that of the URI, of the
/// forwarding header, of the scheme header, or `http`; the host that of the URI, of the header, or
/// nothing.
pub proof fn law_sources_are_asked_in_order(
    uri: Option<&str>,
    forwarded: Option<&str>,
    reported: Option<&str>,
    chosen: String,
    address: String,
)
    requires
        call_ensures(choose_scheme, (uri, forwarded, reported), chosen),
        call_ensures(choose_host, (uri, forwarded), address),
    ensures
        uri is Some ==> chosen@ == uri->0@ && address@ == uri->0@,
        uri is None && forwarded is Some ==> chosen@ == forwarded->0@ && address@ == forwarded->0@,
        uri is None && forwarded is None && reported is Some ==> chosen@ == reported->0@,
        uri is None && forwarded is None && reported is None ==> chosen@ == "http"@,
        uri is None && forwarded is None ==> address@.len() == 0,
{
}

/// Scheme, host and length are read from the headers that are for them.
pub proof fn law_headers_for_each_purpose(
    uri_scheme: Option<&str>,
    uri_authority: Option<&str>,
    headers: &HeaderMap<HeaderValue>,
    forwarded: Option<&str>,
    reported: Option<&str>,
    named: Option<&str>,
    measured: Option<&str>,
    found: (String, String, u64),
    wanted: (String, String, u64),
)
    requires
        call_ensures(header_str, (headers, "x-forwarded-proto"), forwarded),
        call_ensures(header_str, (headers, "x-scheme"), reported),
        call_ensures(header_str, (headers, "host"), named),
        call_ensures(header_str, (headers, "content-length"), measured),
        call_ensures(choose_scheme, (uri_scheme, forwarded, reported), wanted.0),
        call_ensures(choose_host, (uri_authority, named), wanted.1),
        call_ensures(read_content_length, (measured,), wanted.2),
        call_ensures(scheme, (uri_scheme, headers), found.0),
        call_ensures(host, (uri_authority, headers), found.1),
        call_ensures(content_length, (headers,), found.2),
    ensures
        found.0@ == wanted.0@,
        found.1@ == wanted.1@,
        found.2 == wanted.2,
{
}

/// A length is the number that the header holds; without a header, or with one that holds no
/// number, it is zero.
pub proof fn law_length_is_the_number_of_the_header(
    header: Option<&str>,
    length: u64,
    text: &str,
    number: Option<u64>,
)
    requires
        call_ensures(read_content_length, (header,), length),
        call_ensures(parse_u64, (text,), number),
        header is Some ==> header->0@ == text@,
    ensures
        header is None ==> length == 0,
        header is Some && number is Some ==> length == number->0,
        header is Some && number is None ==> length == 0,
{
}

/// A query is shown with its question mark, also where it is empty; without one there is nothing.
pub proof fn law_queries_are_shown(query: Option<&str>, text: String)
    requires
        call_ensures(query_string, (query,), text),
    ensures
        query is None ==> text@.len() == 0,
        query matches Some(query) ==> text@ == seq!['?'] + query@,
{
    reveal_strlit("?");
    assert("?"@ =~= seq!['?']);
}

/// A version is named by `HTTP/` and its two numbers.
pub proof fn law_versions_are_named(version: HttpVersion, name: String)
    requires
        call_ensures(protocol, (version,), name),
    ensures
        name@.len() == 8,
        name@.take(5) == seq!['H', 'T', 'T', 'P', '/'],
        name@[6] == '.',
        name@[5] == (match version {
            HttpVersion::Http09 => '0',
            HttpVersion::Http10 => '1',
            HttpVersion::Http11 => '1',
            HttpVersion::Http2 => '2',
            HttpVersion::Http3 => '3',
        }),
        name@[7] == (match version {
            HttpVersion::Http09 => '9',
            HttpVersion::Http10 => '0',
            HttpVersion::Http11 => '1',
            HttpVersion::Http2 => '0',
            HttpVersion::Http3 => '0',
        }),
{
    reveal_strlit("HTTP/0.9");
    reveal_strlit("HTTP/1.0");
    reveal_strlit("HTTP/1.1");
    reveal_strlit("HTTP/2.0");
    reveal_strlit("HTTP/3.0");
    assert(name@.take(5) =~= seq!['H', 'T', 'T', 'P', '/']);
}

/// Whether two texts that may be missing are the same.
pub open spec fn same_text(owned: Option<String>, text: Option<&str>) -> bool {
    &&& owned is Some <==> text is Some
    &&& owned is Some ==> owned->0@ == text->0@
}

/// What is logged of a request is what the request says: version, method, path and query as they
/// are, and scheme, host, type and length as they are found.
pub proof fn law_request_is_logged_as_it_is(
    request: RequestHead,
    info: HttpRequestLogInfo,
    uri: (Option<&str>, Option<&str>, Option<&str>),
    texts: (String, String, String, String, String),
    length: u64,
)
    requires
        call_ensures(HttpRequestLogInfo::from_request, (&request,), info),
        same_text(request.uri_scheme, uri.0),
        same_text(request.uri_authority, uri.1),
        same_text(request.uri_query, uri.2),
        call_ensures(protocol, (request.version,), texts.0),
        call_ensures(scheme, (uri.0, &request.headers), texts.1),
        call_ensures(host, (uri.1, &request.headers), texts.2),
        call_ensures(query_string, (uri.2,), texts.3),
        call_ensures(header_value, (&request.headers, "content-type"), texts.4),
        call_ensures(content_length, (&request.headers,), length),
    ensures
        info.protocol@ == texts.0@,
        info.method@ == request.method@,
        info.scheme@ == texts.1@,
        info.host@ == texts.2@,
        info.path@ == request.uri_path@,
        info.query_string@ == texts.3@,
        info.content_type@ == texts.4@,
        info.content_length == length,
{
}

/// What is logged at the start and at the end of a request tells all that is known of it, in
/// order.
pub proof fn law_messages_tell_all(
    request: HttpRequestLogInfo,
    response: HttpResponseLogInfo,
    status_code: u16,
    numbers: (&mut String, &mut String, &mut String, &mut String),
    start: String,
    end: String,
)
    requires
        call_ensures(HttpRequestLogInfo::start_message, (&request,), start),
        call_ensures(HttpResponseLogInfo::finish_message, (&response, &request, status_code), end),
        call_ensures(push_decimal, (numbers.0, request.content_length as u128), ()),
        call_ensures(push_decimal, (numbers.1, status_code as u128), ()),
        call_ensures(push_decimal, (numbers.2, response.content_length as u128), ()),
        call_ensures(push_decimal, (numbers.3, response.elapsed_ms), ()),
        numbers.0@.len() == 0,
        numbers.1@.len() == 0,
        numbers.2@.len() == 0,
        numbers.3@.len() == 0,
    ensures
        start@ == "Request starting "@ + request.protocol@ + " "@ + request.method@ + " "@
            + request.scheme@ + "://"@ + request.host@ + request.path@ + request.query_string@
            + " - "@ + request.content_type@ + " "@ + final(numbers.0)@,
        end@ == "Request finished "@ + request.protocol@ + " "@ + request.method@ + " "@
            + request.scheme@ + "://"@ + request.host@ + request.path@ + request.query_string@
            + " - "@ + final(numbers.1)@ + " "@ + final(numbers.2)@ + " "@ + response.content_type@
            + " "@ + final(numbers.3)@ + "ms"@,
{
    assert(final(numbers.0)@ =~= decimal(request.content_length as nat));
    assert(final(numbers.1)@ =~= decimal(status_code as nat));
    assert(final(numbers.2)@ =~= decimal(response.content_length as nat));
    assert(final(numbers.3)@ =~= decimal(response.elapsed_ms as nat));
    assert(start@ =~= "Request starting "@ + request.protocol@ + " "@ + request.method@ + " "@
        + request.scheme@ + "://"@ + request.host@ + request.path@ + request.query_string@ + " - "@
        + request.content_type@ + " "@ + final(numbers.0)@);
    assert(end@ =~= "Request finished "@ + request.protocol@ + " "@ + request.method@ + " "@
        + request.scheme@ + "://"@ + request.host@ + request.path@ + request.query_string@ + " - "@
        + final(numbers.1)@ + " "@ + final(numbers.2)@ + " "@ + response.content_type@ + " "@
        + final(numbers.3)@ + "ms"@);
}

/// Whether `c` is the hexadecimal digit with this value, in small letters.
pub open spec fn is_small_digit(c: char, value: int) -> bool {
    ||| 0 <= value < 10 && c as int == 48 + value
    ||| 10 <= value < 16 && c as int == 87 + value
}

proof fn lemma_lower_hex(n: nat, width: nat, i: int)
    requires
        0 <= i < width,
    ensures
        lower_hex(n, width).len() == width,
        is_small_digit(
            lower_hex(n, width)[i],
            (n as int / pow(16, (width - 1 - i) as nat)) % 16,
        ),
    decreases width,
{
    reveal(pow);
    lemma_lower_hex_size(n, width);
    if i == width - 1 {
        assert(pow(16, 0) == 1);
        assert(is_small_digit(lower_hex(n, width)[i], (n % 16) as int));
    } else {
        let rest = (width - 1) as nat;
        let power = (rest - 1 - i) as nat;
        lemma_lower_hex(n / 16, rest, i);
        assert(lower_hex(n, width)[i] == lower_hex(n / 16, rest)[i]);
        vstd::arithmetic::power::lemma_pow_positive(16, power);
        assert(pow(16, power + 1) == 16 * pow(16, power));
        vstd::arithmetic::div_mod::lemma_div_denominator(n as int, 16, pow(16, power));
    }
}

proof fn lemma_lower_hex_size(n: nat, width: nat)
    ensures
        lower_hex(n, width).len() == width,
    decreases width,
{
    if width > 0 {
        lemma_lower_hex_size(n / 16, (width - 1) as nat);
    }
}

/// A span has a trace id if, and only if, neither of its ids is zero. The trace id is shown as its
/// thirty-two hexadecimal digits, in small letters, the first one first.
pub proof fn law_trace_ids_are_shown(context: SpanIds, text: Option<String>, i: int)
    requires
        call_ensures(trace_id_from_context, (&context,), text),
    ensures
        text is Some <==> context.trace_id != 0 && context.span_id != 0,
        text is Some ==> text->0@.len() == 32,
        text is Some && 0 <= i < 32 ==> is_small_digit(
            text->0@[i],
            (context.trace_id as int / pow(16, (31 - i) as nat)) % 16,
        ),
{
    lemma_lower_hex_size(context.trace_id as nat, 32);
    if 0 <= i < 32 {
        lemma_lower_hex(context.trace_id as nat, 32, i);
    }
}

/// The trace id of a request is that of the caller, else its own, else `unknown`.
pub proof fn law_trace_id_of_a_request(
    parent: SpanIds,
    own: SpanIds,
    text: String,
    of_parent: Option<String>,
    of_own: Option<String>,
)
    requires
        call_ensures(request_trace_id, (&parent, &own), text),
        call_ensures(trace_id_from_context, (&parent,), of_parent),
        call_ensures(trace_id_from_context, (&own,), of_own),
    ensures
        of_parent is Some ==> text@ == of_parent->0@,
        of_parent is None && of_own is Some ==> text@ == of_own->0@,
        of_parent is None && of_own is None ==> text@ == "unknown"@,
{
}

/// A response whose body could be read goes on as it is, and is logged with its type, the length
/// of its body and the time it took; one whose body could not be read is replaced by a failure.
pub proof fn law_responses_go_on<P>(
    request: HttpRequestLogInfo,
    status_code: u16,
    headers: HeaderMap<HeaderValue>,
    body: Option<Vec<u8>>,
    rest: P,
    elapsed_ms: u128,
    end: TraceEnd<P>,
    kind: String,
    response: HttpResponseLogInfo,
    text: String,
)
    requires
        call_ensures(
            finish_trace::<P>,
            (&request, status_code, headers, body, rest, elapsed_ms),
            end,
        ),
        call_ensures(header_value, (&headers, "content-type"), kind),
        end matches TraceEnd::Log { info, .. } ==> info == response,
        call_ensures(HttpResponseLogInfo::finish_message, (&response, &request, status_code), text),
    ensures
        body matches Some(bytes) ==> {
            &&& end matches TraceEnd::Log { info, message, response: passed }
            &&& passed.status == status_code
            &&& passed.headers == headers
            &&& passed.body == bytes
            &&& passed.rest == rest
            &&& info.content_type@ == kind@
            &&& info.content_length == bytes@.len()
            &&& info.elapsed_ms == elapsed_ms
            &&& message@ == text@
        },
        body is None ==> {
            &&& end matches TraceEnd::Replace { status, body }
            &&& status == 500
            &&& !body.success
            &&& body.data is None
            &&& body.message@ == "failed to read http response body"@
        },
{
}

/// What is to be logged of a response is kept as it is.
pub proof fn law_response_is_logged_as_it_is(
    content_type: String,
    content_length: u64,
    elapsed_ms: u128,
    info: HttpResponseLogInfo,
)
    requires
        call_ensures(HttpResponseLogInfo::new, (content_type, content_length, elapsed_ms), info),
    ensures
        info.content_type@ == content_type@,
        info.content_length == content_length,
        info.elapsed_ms == elapsed_ms,
{
}

} // verus!

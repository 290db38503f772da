use vstd::prelude::*;

use crate::common::CubIpRelayAction;
use crate::config::Config;
use crate::text::{
    decimal_chars, has_infix, has_infix_exec, has_prefix, lemma_decimal_text_reads_back,
    lemma_split_in_two, occurs_at, only_piece_with_prefix, parsed_usize, pieces_with_prefix,
    push_decimal, str_chars,
};
use vstd::string::StringSliceAdditionalSpecFns;
use vstd::utf8::{
    decode_utf8, encode_utf8, encode_utf8_decode_utf8, encode_utf8_valid_utf8, valid_utf8,
};

verus! {

// ---------------------------------------------------------------------------
// Calls out of the library
// ---------------------------------------------------------------------------

/// The digit of the standard base64 alphabet for `v` in `0..64`:
/// `A`..`Z`, `a`..`z`, `0`..`9`, `+`, `/`.
pub open spec fn base64_digit(v: int) -> char {
    if v < 26 {
        (65 + v) as char
    } else if v < 52 {
        (71 + v) as char
    } else if v < 62 {
        (v - 4) as char
    } else if v == 62 {
        '+'
    } else {
        '/'
    }
}

/// Standard base64 of `data`, with padding: each group of three bytes, read as
/// a 24-bit number, gives four digits of six bits each, highest first; a last
/// group of one or two bytes is filled with zero bits and ends in `==` or `=`.
pub open spec fn base64_standard(data: Seq<u8>) -> Seq<char>
    decreases data.len(),
{
    if data.len() == 0 {
        seq![]
    } else if data.len() == 1 {
        let n = data[0] as int * 65536;
        seq![base64_digit(n / 262144), base64_digit((n / 4096) % 64), '=', '=']
    } else if data.len() == 2 {
        let n = data[0] as int * 65536 + data[1] as int * 256;
        seq![
            base64_digit(n / 262144),
            base64_digit((n / 4096) % 64),
            base64_digit((n / 64) % 64),
            '=',
        ]
    } else {
        let n = data[0] as int * 65536 + data[1] as int * 256 + data[2] as int;
        seq![
            base64_digit(n / 262144),
            base64_digit((n / 4096) % 64),
            base64_digit((n / 64) % 64),
            base64_digit(n % 64),
        ] + base64_standard(data.subrange(3, data.len() as int))
    }
}

/// Encodes `data` with `base64::encode` (standard alphabet, with padding).
///
/// The contract claims that the text is the standard padded base64 of the
/// bytes, `base64_standard`, as the crate's `STANDARD` configuration and its
/// encoding table give it. The crate panics where the length of that text does
/// not fit in a `usize`; `requires` leaves those inputs out.
#[verifier::external_body]
fn base64_encode(data: &[u8]) -> (r: String)
    requires
        4 * ((data@.len() + 2) / 3) <= usize::MAX,
    ensures
        r@ == base64_standard(data@),
{
    base64::encode(data)
}

/// Reads `bytes` as UTF-8 text with `std::str::from_utf8`.
///
/// The contract claims what the function documents: it succeeds exactly on
/// valid UTF-8, and the text it gives has those very bytes.
#[verifier::external_body]
fn utf8_text<'a>(bytes: &'a [u8]) -> (r: Option<&'a str>)
    ensures
        r is Some <==> valid_utf8(bytes@),
        r matches Some(s) ==> s.spec_bytes() == bytes@,
{
    std::str::from_utf8(bytes).ok()
}

/// The text that `utf8_text` gives, as characters.
fn utf8_chars<'a>(bytes: &'a [u8]) -> (r: Option<&'a str>)
    ensures
        r is Some <==> valid_utf8(bytes@),
        r matches Some(s) ==> s@ == decode_utf8(bytes@),
{
    let r = utf8_text(bytes);
    proof {
        if let Some(s) = r {
            encode_utf8_decode_utf8(s@);
        }
    }
    r
}

// ---------------------------------------------------------------------------
// Requests
// ---------------------------------------------------------------------------

/// The HTTP request for `path` on `host`, with basic authorization `credentials`.
pub open spec fn request_for(path: Seq<char>, host: Seq<char>, credentials: Seq<char>) -> Seq<
    char,
> {
    "GET "@ + path + " HTTP/1.1\r\nHost: "@ + host
        + "\r\nUser-Agent: cub-ip-app\r\nAccept: */*\r\nAuthorization: Basic "@ + credentials
        + "\r\n\r\n"@
}

/// The request is made of these lines, each ended by `\r\n`, and a blank line
/// after them: `GET {path} HTTP/1.1`, `Host: {host}`, `User-Agent: cub-ip-app`,
/// `Accept: */*` and `Authorization: Basic {credentials}`.
pub proof fn lemma_request_lines(path: Seq<char>, host: Seq<char>, credentials: Seq<char>)
    ensures
        request_for(path, host, credentials) == "GET "@ + path + " HTTP/1.1"@ + "\r\n"@
            + "Host: "@ + host + "\r\n"@ + "User-Agent: cub-ip-app"@ + "\r\n"@ + "Accept: */*"@
            + "\r\n"@ + "Authorization: Basic "@ + credentials + "\r\n"@ + "\r\n"@,
{
    reveal_strlit("GET ");
    reveal_strlit(" HTTP/1.1\r\nHost: ");
    reveal_strlit("\r\nUser-Agent: cub-ip-app\r\nAccept: */*\r\nAuthorization: Basic ");
    reveal_strlit("\r\n\r\n");
    reveal_strlit(" HTTP/1.1");
    reveal_strlit("\r\n");
    reveal_strlit("Host: ");
    reveal_strlit("User-Agent: cub-ip-app");
    reveal_strlit("Accept: */*");
    reveal_strlit("Authorization: Basic ");
    assert(request_for(path, host, credentials) =~= "GET "@ + path + " HTTP/1.1"@ + "\r\n"@
        + "Host: "@ + host + "\r\n"@ + "User-Agent: cub-ip-app"@ + "\r\n"@ + "Accept: */*"@
        + "\r\n"@ + "Authorization: Basic "@ + credentials + "\r\n"@ + "\r\n"@);
}

/// The basic authorization credentials of `login` and `password`: the base64
/// text of the bytes of `login:password`.
pub open spec fn basic_credentials(login: Seq<char>, password: Seq<char>) -> Seq<char> {
    base64_standard(encode_utf8(login + ":"@ + password))
}

/// The byte length of `login:password` leaves room for its base64 text.
pub open spec fn credentials_fit(login: Seq<char>, password: Seq<char>) -> bool {
    4 * ((encode_utf8(login + ":"@ + password).len() + 2) / 3) <= usize::MAX
}

/// Whether the byte length of `login:password` leaves room for its base64 text.
pub fn credentials_fit_check(login: &str, password: &str) -> (r: bool)
    ensures
        r == credentials_fit(login@, password@),
{
    let mut credentials = login.to_owned();
    credentials.append(":");
    credentials.append(password);
    let n = credentials.as_str().as_bytes().len();
    let chunks = if n % 3 == 0 {
        n / 3
    } else {
        n / 3 + 1
    };
    assert(chunks == (n + 2) / 3);
    chunks <= usize::MAX / 4
}

/// Writes the HTTP request for `path` on `host`, with basic authorization
/// `credentials`.
pub fn http_request(path: &str, host: &str, credentials: &str) -> (r: String)
    ensures
        r@ == request_for(path@, host@, credentials@),
{
    let mut r = String::from_str("GET ");
    r.append(path);
    r.append(" HTTP/1.1\r\nHost: ");
    r.append(host);
    r.append("\r\nUser-Agent: cub-ip-app\r\nAccept: */*\r\nAuthorization: Basic ");
    r.append(credentials);
    r.append("\r\n\r\n");
    r
}

/// Writes the request for `path` that goes to the device of `config`, with its
/// login and password.
pub fn cub_ip_request(config: &Config, path: &str) -> (r: String)
    requires
        credentials_fit(config.cub_ip_login@, config.cub_ip_password@),
    ensures
        r@ == request_for(
            path@,
            config.cub_ip_address@,
            basic_credentials(config.cub_ip_login@, config.cub_ip_password@),
        ),
{
    let mut credentials = config.cub_ip_login.clone();
    credentials.append(":");
    credentials.append(config.cub_ip_password.as_str());
    let encoded = base64_encode(credentials.as_str().as_bytes());
    http_request(path, config.cub_ip_address.as_str(), encoded.as_str())
}

// ---------------------------------------------------------------------------
// Relay actions
// ---------------------------------------------------------------------------

/// The relay code and the delay that the device is sent for an action: `1` on,
/// `0` off, `3` on by the time relay, `2` off by the time relay.
pub open spec fn relay_parameters(action: CubIpRelayAction) -> (nat, nat) {
    match action {
        CubIpRelayAction::RelayTurnOn => (1, 0),
        CubIpRelayAction::RelayTurnOff => (0, 0),
        CubIpRelayAction::TimeRelayTurnOn(time) => (3, time as nat),
        CubIpRelayAction::TimeRelayTurnOff(time) => (2, time as nat),
    }
}

/// The path of the request for an action.
pub open spec fn relay_action_path_of(action: CubIpRelayAction) -> Seq<char> {
    "/sw.cgi?r=r"@ + decimal_chars(relay_parameters(action).0) + "&val="@ + decimal_chars(
        relay_parameters(action).1,
    )
}

/// The relay code and the delay that the device is sent for an action.
pub fn relay_code_and_delay(action: CubIpRelayAction) -> (r: (usize, usize))
    ensures
        (r.0 as nat, r.1 as nat) == relay_parameters(action),
{
    match action {
        CubIpRelayAction::RelayTurnOn => (1, 0),
        CubIpRelayAction::RelayTurnOff => (0, 0),
        CubIpRelayAction::TimeRelayTurnOn(time) => (3, time),
        CubIpRelayAction::TimeRelayTurnOff(time) => (2, time),
    }
}

/// Writes the path of the request for an action.
pub fn relay_action_path(action: CubIpRelayAction) -> (r: String)
    ensures
        r@ == relay_action_path_of(action),
{
    let (code, delay) = relay_code_and_delay(action);
    let mut r = String::from_str("/sw.cgi?r=r");
    push_decimal(&mut r, code);
    r.append("&val=");
    push_decimal(&mut r, delay);
    r
}

/// The device is sent the delay that was asked for, in seconds and whatever
/// its size, with relay code `3` to turn the relay on by the timer and `2` to
/// turn it off; a plain switch is sent code `1` or `0` and a delay of `0`. The
/// number after `&val=` reads back as the delay.
pub proof fn lemma_relay_path_carries_delay(delay: usize)
    ensures
        relay_parameters(CubIpRelayAction::TimeRelayTurnOn(delay)) == (3nat, delay as nat),
        relay_parameters(CubIpRelayAction::TimeRelayTurnOff(delay)) == (2nat, delay as nat),
        relay_parameters(CubIpRelayAction::RelayTurnOn) == (1nat, 0nat),
        relay_parameters(CubIpRelayAction::RelayTurnOff) == (0nat, 0nat),
        relay_action_path_of(CubIpRelayAction::TimeRelayTurnOn(delay)) == "/sw.cgi?r=r3&val="@
            + decimal_chars(delay as nat),
        relay_action_path_of(CubIpRelayAction::TimeRelayTurnOff(delay)) == "/sw.cgi?r=r2&val="@
            + decimal_chars(delay as nat),
        relay_action_path_of(CubIpRelayAction::RelayTurnOn) == "/sw.cgi?r=r1&val=0"@,
        relay_action_path_of(CubIpRelayAction::RelayTurnOff) == "/sw.cgi?r=r0&val=0"@,
        parsed_usize(encode_utf8(decimal_chars(delay as nat))) == Some(delay),
{
    reveal_strlit("/sw.cgi?r=r");
    reveal_strlit("&val=");
    reveal_strlit("/sw.cgi?r=r3&val=");
    reveal_strlit("/sw.cgi?r=r2&val=");
    reveal_strlit("/sw.cgi?r=r1&val=0");
    reveal_strlit("/sw.cgi?r=r0&val=0");
    assert(decimal_chars(0) == seq!['0']);
    assert(decimal_chars(1) == seq!['1']);
    assert(decimal_chars(2) == seq!['2']);
    assert(decimal_chars(3) == seq!['3']);
    assert("/sw.cgi?r=r"@ + seq!['3'] + "&val="@ =~= "/sw.cgi?r=r3&val="@);
    assert("/sw.cgi?r=r"@ + seq!['2'] + "&val="@ =~= "/sw.cgi?r=r2&val="@);
    assert("/sw.cgi?r=r"@ + seq!['1'] + "&val="@ + seq!['0'] =~= "/sw.cgi?r=r1&val=0"@);
    assert("/sw.cgi?r=r"@ + seq!['0'] + "&val="@ + seq!['0'] =~= "/sw.cgi?r=r0&val=0"@);
    lemma_decimal_text_reads_back(delay);
}

/// A response counts as accepted exactly when it is UTF-8 and the fifteen
/// characters `HTTP/1.1 200 OK` stand somewhere in its text: any other status
/// line (`404 Not Found`, `500 Internal Server Error`, ...) is refused.
pub proof fn lemma_response_ok_iff_status_200(response: Seq<u8>)
    ensures
        response_ok(response) <==> (valid_utf8(response) && exists|i: int|
            0 <= i && i + 15 <= decode_utf8(response).len() && #[trigger] decode_utf8(
                response,
            ).subrange(i, i + 15) == "HTTP/1.1 200 OK"@),
{
    reveal_strlit("HTTP/1.1 200 OK");
    let text = decode_utf8(response);
    lemma_text_holds_status_200(text);
}

/// `HTTP/1.1 200 OK` occurs in `text` exactly where its fifteen characters
/// stand in it.
proof fn lemma_text_holds_status_200(text: Seq<char>)
    ensures
        has_infix(text, "HTTP/1.1 200 OK"@) <==> exists|i: int|
            0 <= i && i + 15 <= text.len() && #[trigger] text.subrange(i, i + 15)
                == "HTTP/1.1 200 OK"@,
{
    reveal_strlit("HTTP/1.1 200 OK");
    let status = "HTTP/1.1 200 OK"@;
    assert(status.len() == 15);
    if has_infix(text, status) {
        let i = choose|i: int| occurs_at(text, status, i);
        assert(text.subrange(i, i + 15) == status);
    }
    if exists|i: int| 0 <= i && i + 15 <= text.len() && #[trigger] text.subrange(i, i + 15)
        == status {
        let i = choose|i: int|
            0 <= i && i + 15 <= text.len() && #[trigger] text.subrange(i, i + 15) == status;
        assert(occurs_at(text, status, i));
    }
}

/// Text that holds `HTTP/1.1 200 OK` is an accepted response, whatever stands
/// around it; text that does not hold it is refused.
pub proof fn lemma_status_200_text_is_ok(head: Seq<char>, tail: Seq<char>, text: Seq<char>)
    ensures
        response_ok(encode_utf8(head + "HTTP/1.1 200 OK"@ + tail)),
        response_ok(encode_utf8(text)) <==> exists|i: int|
            0 <= i && i + 15 <= text.len() && #[trigger] text.subrange(i, i + 15)
                == "HTTP/1.1 200 OK"@,
{
    reveal_strlit("HTTP/1.1 200 OK");
    let whole = head + "HTTP/1.1 200 OK"@ + tail;
    encode_utf8_valid_utf8(whole);
    encode_utf8_decode_utf8(whole);
    assert(whole.subrange(head.len() as int, head.len() + 15int) =~= "HTTP/1.1 200 OK"@);
    assert(occurs_at(whole, "HTTP/1.1 200 OK"@, head.len() as int));
    encode_utf8_valid_utf8(text);
    encode_utf8_decode_utf8(text);
    lemma_text_holds_status_200(text);
}

/// The response is UTF-8 text that holds `HTTP/1.1 200 OK`.
pub open spec fn response_ok(response: Seq<u8>) -> bool {
    valid_utf8(response) && has_infix(decode_utf8(response), "HTTP/1.1 200 OK"@)
}

/// Whether the response is UTF-8 text that holds `HTTP/1.1 200 OK`.
pub fn is_response_ok(response: &[u8]) -> (r: bool)
    ensures
        r == response_ok(response@),
{
    match utf8_chars(response) {
        Some(text) => has_infix_exec(&str_chars(text), &str_chars("HTTP/1.1 200 OK")),
        None => false,
    }
}

// ---------------------------------------------------------------------------
// Status document
// ---------------------------------------------------------------------------

/// The parts of a response, cut at each blank line (`\r\n\r\n`), that begin
/// with `<?xml version=`.
pub open spec fn status_documents(text: Seq<char>) -> Seq<Seq<char>> {
    pieces_with_prefix(text, "\r\n\r\n"@, "<?xml version="@)
}

/// The status document in a response: the one part of its text that begins
/// with `<?xml version=`, where the response is UTF-8 and exactly one part does.
pub open spec fn status_xml_of(response: Seq<u8>) -> Option<Seq<char>> {
    if valid_utf8(response) && status_documents(decode_utf8(response)).len() == 1 {
        Some(status_documents(decode_utf8(response))[0])
    } else {
        None
    }
}

/// Takes the status document out of a response.
pub fn status_xml(response: &[u8]) -> (r: Option<String>)
    ensures
        match r {
            Some(xml) => status_xml_of(response@) == Some(xml@),
            None => status_xml_of(response@) is None,
        },
{
    let text = match utf8_chars(response) {
        Some(text) => text,
        None => return None,
    };
    let chars = str_chars(text);
    proof {
        reveal_strlit("\r\n\r\n");
    }
    match only_piece_with_prefix(&chars, &str_chars("\r\n\r\n"), &str_chars("<?xml version=")) {
        Some((start, end)) => Some(text.substring_char(start, end).to_owned()),
        None => None,
    }
}

/// A response made of a head, a blank line and a status document gives that
/// document back: where the head holds no blank line and does not itself begin
/// like a document, and the document holds no blank line.
pub proof fn lemma_status_document_reads_back(head: Seq<char>, document: Seq<char>)
    requires
        forall|j: int|
            0 <= j < head.len() ==> !occurs_at(head + "\r\n\r\n"@ + document, "\r\n\r\n"@, j),
        forall|j: int| !occurs_at(document, "\r\n\r\n"@, j),
        has_prefix(document, "<?xml version="@),
        !has_prefix(head, "<?xml version="@),
    ensures
        status_xml_of(encode_utf8(head + "\r\n\r\n"@ + document)) == Some(document),
{
    let text = head + "\r\n\r\n"@ + document;
    reveal_strlit("\r\n\r\n");
    encode_utf8_valid_utf8(text);
    encode_utf8_decode_utf8(text);
    lemma_split_in_two(head, "\r\n\r\n"@, document);
    let pred = |p: Seq<char>| has_prefix(p, "<?xml version="@);
    Seq::<Seq<char>>::empty().lemma_filter_prepend(document, pred);
    seq![document].lemma_filter_prepend(head, pred);
    assert(seq![document] + Seq::<Seq<char>>::empty() =~= seq![document]);
    assert(seq![head] + seq![document] =~= seq![head, document]);
    assert(Seq::<Seq<char>>::empty().filter(pred) =~= Seq::<Seq<char>>::empty()) by {
        reveal(Seq::filter);
    }
    assert(status_documents(text) =~= seq![document]);
}

} // verus!

//! The way to an exchange through an HTTP proxy: where the proxy is, what it is asked,
//! and what it answers.
use crate::text::{
    decimal, decimal_text, decode, first_line, law_first_line_ends_at_the_line_end,
    law_occurrence_splits_the_text, line_one, occurs_at, starts_with,
};
use vstd::prelude::*;
use vstd::string::*;
use vstd::utf8::*;

verus! {

/// The port of an exchange whose address does not tell.
pub const DEFAULT_PORT: u16 = 443;

/// How long the answer of a proxy may get.
pub const MAX_ANSWER: usize = 8192;

/// `url::ParseError`, why a text is no URL.
#[verifier::external_type_specification]
#[verifier::external_body]
pub struct ExParseError(url::ParseError);

/// The parts of a URL that a connection needs.
#[derive(Debug)]
pub struct UrlParts {
    pub host: Option<String>,
    pub port: Option<u16>,
    /// The port, or the usual port of the scheme where there is one.
    pub port_or_default: Option<u16>,
    pub username: String,
    pub password: Option<String>,
}

/// What the parts say.
pub struct UrlView {
    pub host: Option<Seq<char>>,
    pub port: Option<u16>,
    pub port_or_default: Option<u16>,
    pub username: Seq<char>,
    pub password: Option<Seq<char>>,
}

/// What an optional text says.
pub open spec fn text_in(s: Option<String>) -> Option<Seq<char>> {
    match s {
        Some(s) => Some(s@),
        None => None,
    }
}

impl View for UrlParts {
    type V = UrlView;

    open spec fn view(&self) -> UrlView {
        UrlView {
            host: text_in(self.host),
            port: self.port,
            port_or_default: self.port_or_default,
            username: self.username@,
            password: text_in(self.password),
        }
    }
}

/// What `url::Url::parse` makes of a text: nothing where it is no URL, else its parts.
pub uninterp spec fn url_parts(text: Seq<char>) -> Option<UrlView>;

/// `url::Url::parse`, and of the URL `host_str`, `port`, `port_or_known_default`,
/// `username` and `password`. Whether the text is a URL, and what its parts are, is
/// determined by the text.
#[verifier::external_body]
fn parse_url(text: &str) -> (r: Result<UrlParts, url::ParseError>)
    ensures
        r is Ok <==> url_parts(text@) is Some,
        r matches Ok(p) ==> p@ == url_parts(text@)->0,
{
    let u = url::Url::parse(text)?;
    Ok(
        UrlParts {
            host: u.host_str().map(|h| h.to_string()),
            port: u.port(),
            port_or_default: u.port_or_known_default(),
            username: u.username().to_string(),
            password: u.password().map(|p| p.to_string()),
        },
    )
}

/// Why there is no way through the proxy.
#[derive(Debug)]
pub enum ProxyError {
    /// The address of the exchange is no URL.
    BadUrl(url::ParseError),
    /// The address of the exchange names no host.
    NoHost,
    /// The address of the proxy is no URL.
    BadProxyUrl(url::ParseError),
    /// The address of the proxy names no host.
    NoProxyHost,
    /// The address of the proxy names no port.
    NoProxyPort,
}

/// A host and a port.
#[derive(Debug)]
pub struct Target {
    pub host: String,
    pub port: u16,
}

/// A proxy and the account there.
#[derive(Debug)]
pub struct Proxy {
    pub host: String,
    pub port: u16,
    pub username: String,
    pub password: String,
}

/// The port of an exchange: the one of its address, or the default.
pub open spec fn target_port(parts: UrlView) -> u16 {
    match parts.port_or_default {
        Some(p) => p,
        None => DEFAULT_PORT,
    }
}

/// The password at a proxy; a missing one is empty.
pub open spec fn proxy_password(parts: UrlView) -> Seq<char> {
    match parts.password {
        Some(w) => w,
        None => Seq::empty(),
    }
}

/// The parts name an exchange.
pub open spec fn names_target(parts: Option<UrlView>) -> bool {
    parts is Some && parts->0.host is Some
}

/// The parts name a proxy: unlike for an exchange the port has to be given.
pub open spec fn names_proxy(parts: Option<UrlView>) -> bool {
    parts is Some && parts->0.host is Some && parts->0.port is Some
}

/// The host and port of an exchange, from the parts of its address.
pub fn target_in(parts: UrlParts) -> (r: Result<Target, ProxyError>)
    ensures
        r is Ok <==> parts.host is Some,
        r matches Err(e) ==> e is NoHost,
        r matches Ok(t) ==> t.host@ == parts@.host->0 && t.port == target_port(parts@),
{
    match parts.host {
        Some(host) => {
            let port: u16 = match parts.port_or_default {
                Some(p) => p,
                None => DEFAULT_PORT,
            };
            Ok(Target { host, port })
        },
        None => Err(ProxyError::NoHost),
    }
}

/// The host and port of an exchange.
pub fn target(address: &str) -> (r: Result<Target, ProxyError>)
    ensures
        r is Ok <==> names_target(url_parts(address@)),
        r matches Err(e) ==> {
            &&& e is BadUrl <==> url_parts(address@) is None
            &&& e is NoHost <==> url_parts(address@) is Some
        },
        r matches Ok(t) ==> {
            let parts = url_parts(address@)->0;
            t.host@ == parts.host->0 && t.port == target_port(parts)
        },
{
    match parse_url(address) {
        Ok(parts) => target_in(parts),
        Err(e) => Err(ProxyError::BadUrl(e)),
    }
}

/// The proxy, from the parts of its address. The host is looked for first.
pub fn proxy_in(parts: UrlParts) -> (r: Result<Proxy, ProxyError>)
    ensures
        r is Ok <==> parts.host is Some && parts.port is Some,
        r matches Err(e) ==> {
            &&& e is NoProxyHost <==> parts.host is None
            &&& e is NoProxyPort <==> parts.host is Some
        },
        r matches Ok(p) ==> {
            &&& p.host@ == parts@.host->0
            &&& p.port == parts.port->0
            &&& p.username@ == parts.username@
            &&& p.password@ == proxy_password(parts@)
        },
{
    let host = match parts.host {
        Some(h) => h,
        None => {
            return Err(ProxyError::NoProxyHost);
        },
    };
    let port: u16 = match parts.port {
        Some(p) => p,
        None => {
            return Err(ProxyError::NoProxyPort);
        },
    };
    let password = match parts.password {
        Some(w) => w,
        None => String::new(),
    };
    Ok(Proxy { host, port, username: parts.username, password })
}

/// The proxy that an address names.
pub fn proxy(address: &str) -> (r: Result<Proxy, ProxyError>)
    ensures
        r is Ok <==> names_proxy(url_parts(address@)),
        r matches Err(e) ==> {
            let parts = url_parts(address@);
            &&& e is BadProxyUrl <==> parts is None
            &&& e is NoProxyHost <==> parts is Some && parts->0.host is None
            &&& e is NoProxyPort <==> parts is Some && parts->0.host is Some
        },
        r matches Ok(p) ==> {
            let parts = url_parts(address@)->0;
            &&& p.host@ == parts.host->0
            &&& p.port == parts.port->0
            &&& p.username@ == parts.username
            &&& p.password@ == proxy_password(parts)
        },
{
    match parse_url(address) {
        Ok(parts) => proxy_in(parts),
        Err(e) => Err(ProxyError::BadProxyUrl(e)),
    }
}

/// The character that stands for six bits in base64.
pub open spec fn sextet(n: int) -> char {
    if n < 26 {
        ('A' as int + n) as char
    } else if n < 52 {
        ('a' as int + n - 26) as char
    } else if n < 62 {
        ('0' as int + n - 52) as char
    } else if n == 62 {
        '+'
    } else {
        '/'
    }
}

/// Bytes in base64 with the standard alphabet: four characters for each three bytes,
/// with padding at the end.
pub open spec fn base64(bytes: Seq<u8>) -> Seq<char>
    decreases bytes.len(),
{
    if bytes.len() == 0 {
        Seq::empty()
    } else if bytes.len() == 1 {
        let n = bytes[0] * 16;
        seq![sextet(n / 64), sextet(n % 64), '=', '=']
    } else if bytes.len() == 2 {
        let n = bytes[0] * 1024 + bytes[1] * 4;
        seq![sextet(n / 4096), sextet(n / 64 % 64), sextet(n % 64), '=']
    } else {
        let n = bytes[0] * 65536 + bytes[1] * 256 + bytes[2];
        seq![sextet(n / 262144), sextet(n / 4096 % 64), sextet(n / 64 % 64), sextet(n % 64)]
            + base64(bytes.skip(3))
    }
}

/// `Engine::encode` of `base64::engine::general_purpose::STANDARD`: the standard
/// alphabet, padded.
#[verifier::external_body]
fn encode_base64(bytes: &[u8]) -> (r: String)
    ensures
        r@ == base64(bytes@),
{
    base64::Engine::encode(&base64::engine::general_purpose::STANDARD, bytes)
}

/// The request for a connection to `host`, with the account at the proxy.
pub open spec fn connect_text(
    host: Seq<char>,
    port: u16,
    username: Seq<char>,
    password: Seq<char>,
) -> Seq<char> {
    let to = host + ":"@ + decimal(port as nat);
    let account = base64(encode_utf8(username + ":"@ + password));
    "CONNECT "@ + to + " HTTP/1.1\r\nHost: "@ + to + "\r\nProxy-Authorization: Basic "@ + account
        + "\r\n\r\n"@
}

/// The request to a proxy for a connection.
pub fn connect_request(to: &Target, through: &Proxy) -> (r: String)
    ensures
        r@ == connect_text(to.host@, to.port, through.username@, through.password@),
{
    let mut account = String::new();
    account.append(through.username.as_str());
    account.append(":");
    account.append(through.password.as_str());
    assert(account@ =~= through.username@ + ":"@ + through.password@);
    let auth = encode_base64(account.as_str().as_bytes());
    let mut place = String::new();
    place.append(to.host.as_str());
    place.append(":");
    place.append(decimal_text(to.port as u64).as_str());
    assert(place@ =~= to.host@ + ":"@ + decimal(to.port as nat));
    let mut out = String::new();
    out.append("CONNECT ");
    out.append(place.as_str());
    out.append(" HTTP/1.1\r\nHost: ");
    out.append(place.as_str());
    out.append("\r\nProxy-Authorization: Basic ");
    out.append(auth.as_str());
    out.append("\r\n\r\n");
    assert(out@ =~= connect_text(to.host@, to.port, through.username@, through.password@));
    out
}

/// How a connection is begun: where to connect to, and what to ask there.
#[derive(Debug)]
pub struct Plan {
    pub host: String,
    pub port: u16,
    pub request: String,
}

/// Plans a connection to an exchange through a proxy. The address of the exchange is
/// looked at first.
pub fn plan(address: &str, proxy_address: &str) -> (r: Result<Plan, ProxyError>)
    ensures
        r is Ok <==> names_target(url_parts(address@)) && names_proxy(url_parts(proxy_address@)),
        r matches Err(e) ==> {
            let to = url_parts(address@);
            let through = url_parts(proxy_address@);
            &&& e is BadUrl <==> to is None
            &&& e is NoHost <==> to is Some && to->0.host is None
            &&& e is BadProxyUrl <==> names_target(to) && through is None
            &&& e is NoProxyHost <==> names_target(to) && through is Some && through->0.host is None
            &&& e is NoProxyPort <==> names_target(to) && through is Some && through->0.host is Some
        },
        r matches Ok(p) ==> {
            let to = url_parts(address@)->0;
            let through = url_parts(proxy_address@)->0;
            &&& p.host@ == through.host->0
            &&& p.port == through.port->0
            &&& p.request@ == connect_text(
                to.host->0,
                target_port(to),
                through.username,
                proxy_password(through),
            )
        },
{
    let to = match target(address) {
        Ok(t) => t,
        Err(e) => {
            return Err(e);
        },
    };
    let through = match proxy(proxy_address) {
        Ok(p) => p,
        Err(e) => {
            return Err(e);
        },
    };
    let request = connect_request(&to, &through);
    Ok(Plan { host: through.host, port: through.port, request })
}

/// An account in base64 never breaks its line, and is four characters for each three
/// bytes that were begun.
pub proof fn law_account_stays_on_its_line(bytes: Seq<u8>)
    ensures
        base64(bytes).len() == 4 * ((bytes.len() + 2) / 3),
        forall|i: int|
            0 <= i < base64(bytes).len() ==> #[trigger] base64(bytes)[i] != '\r' && base64(bytes)[i]
                != '\n',
    decreases bytes.len(),
{
    if bytes.len() >= 3 {
        let rest = bytes.skip(3);
        law_account_stays_on_its_line(rest);
        let n = bytes[0] * 65536 + bytes[1] * 256 + bytes[2];
        let head = seq![
            sextet(n / 262144),
            sextet(n / 4096 % 64),
            sextet(n / 64 % 64),
            sextet(n % 64),
        ];
        assert forall|i: int| 0 <= i < base64(bytes).len() implies #[trigger] base64(bytes)[i]
            != '\r' && base64(bytes)[i] != '\n' by {
            if i >= 4 {
                assert(base64(bytes)[i] == base64(rest)[i - 4]);
            } else {
                assert(base64(bytes)[i] == head[i]);
            }
        }
    }
}

/// An empty line starts at byte `i`: two line ends in a row.
pub open spec fn blank_at(bytes: Seq<u8>, i: int) -> bool {
    &&& 0 <= i
    &&& i + 4 <= bytes.len()
    &&& bytes[i] == 13
    &&& bytes[i + 1] == 10
    &&& bytes[i + 2] == 13
    &&& bytes[i + 3] == 10
}

/// The bytes hold a whole answer: there is an empty line.
pub open spec fn is_complete(bytes: Seq<u8>) -> bool {
    exists|i: int| blank_at(bytes, i)
}

fn has_blank(bytes: &Vec<u8>) -> (r: bool)
    ensures
        r == is_complete(bytes@),
{
    let mut i: usize = 0;
    while i < bytes.len()
        invariant
            i <= bytes.len(),
            forall|j: int| 0 <= j < i ==> !blank_at(bytes@, j),
        decreases bytes.len() - i,
    {
        if bytes.len() - i >= 4 && bytes[i] == 13 && bytes[i + 1] == 10 && bytes[i + 2] == 13
            && bytes[i + 3] == 10 {
            assert(blank_at(bytes@, i as int));
            return true;
        }
        i = i + 1;
    }
    false
}

/// What to do after some bytes of an answer.
#[derive(Clone, Copy, Debug, PartialEq, Eq, Structural)]
pub enum Step {
    /// Read on.
    More,
    /// The answer is there.
    Done,
    /// The proxy has hung up.
    Closed,
    /// The answer is too long.
    TooLarge,
}

/// The answer of a proxy, as far as it was read.
#[derive(Debug)]
pub struct Answer {
    pub bytes: Vec<u8>,
}

/// What to do after a chunk of an answer: no bytes are the end, and an answer that
/// is there is never too long.
pub open spec fn step(bytes: Seq<u8>, chunk: Seq<u8>) -> Step {
    if chunk.len() == 0 {
        Step::Closed
    } else if is_complete(bytes + chunk) {
        Step::Done
    } else if (bytes + chunk).len() > MAX_ANSWER {
        Step::TooLarge
    } else {
        Step::More
    }
}

impl Answer {
    pub fn new() -> (a: Answer)
        ensures
            a.bytes@ == Seq::<u8>::empty(),
    {
        Answer { bytes: Vec::with_capacity(512) }
    }

    /// Takes in a chunk that was read.
    pub fn feed(&mut self, chunk: &[u8]) -> (r: Step)
        ensures
            final(self).bytes@ == old(self).bytes@ + chunk@,
            r == step(old(self).bytes@, chunk@),
    {
        if chunk.len() == 0 {
            assert(self.bytes@ =~= old(self).bytes@ + chunk@);
            return Step::Closed;
        }
        self.bytes.extend_from_slice(chunk);
        assert(self.bytes@ =~= old(self).bytes@ + chunk@);
        if has_blank(&self.bytes) {
            Step::Done
        } else if self.bytes.len() > MAX_ANSWER {
            Step::TooLarge
        } else {
            Step::More
        }
    }

    /// Whether the proxy agrees; where it does not, its first line.
    pub fn verdict(&self) -> (r: Result<(), String>)
        ensures
            r is Ok <==> agrees(opening(self.bytes@)),
            r matches Err(line) ==> line@ == opening(self.bytes@),
    {
        let text = match decode(self.bytes.as_slice()) {
            Some(t) => t,
            None => String::new(),
        };
        let line = first_line(text.as_str());
        if starts_with(line.as_str(), "HTTP/1.1 200") || starts_with(
            line.as_str(),
            "HTTP/1.0 200",
        ) {
            Ok(())
        } else {
            Err(line)
        }
    }
}

/// Some chunks one after the other.
pub open spec fn gathered(chunks: Seq<Seq<u8>>) -> Seq<u8>
    decreases chunks.len(),
{
    if chunks.len() == 0 {
        Seq::empty()
    } else {
        gathered(chunks.drop_last()) + chunks.last()
    }
}

/// An answer is not read on for ever: as long as each chunk asks for more there are
/// only so many bytes, and so many chunks.
pub proof fn law_reading_comes_to_an_end(chunks: Seq<Seq<u8>>)
    requires
        forall|i: int|
            0 <= i < chunks.len() ==> step(gathered(chunks.take(i)), #[trigger] chunks[i])
                == Step::More,
    ensures
        chunks.len() <= gathered(chunks).len() <= MAX_ANSWER,
    decreases chunks.len(),
{
    if chunks.len() > 0 {
        let rest = chunks.drop_last();
        let last = chunks.len() - 1;
        assert forall|i: int| 0 <= i < rest.len() implies step(
            gathered(rest.take(i)),
            #[trigger] rest[i],
        ) == Step::More by {
            assert(rest[i] == chunks[i]);
            assert(rest.take(i) =~= chunks.take(i));
        }
        law_reading_comes_to_an_end(rest);
        assert(chunks.take(last) =~= rest);
        assert(chunks[last] == chunks.last());
    }
}

/// The first line of an answer; empty where the answer is not UTF-8.
pub open spec fn opening(bytes: Seq<u8>) -> Seq<char> {
    line_one(
        if valid_utf8(bytes) {
            decode_utf8(bytes)
        } else {
            Seq::empty()
        },
    )
}

/// A first line that grants the connection.
pub open spec fn agrees(line: Seq<char>) -> bool {
    occurs_at(line, "HTTP/1.1 200"@, 0) || occurs_at(line, "HTTP/1.0 200"@, 0)
}

/// An address names an exchange as soon as it has a host, and then the port is the one
/// of the address or 443; it names a proxy only with a port of its own, and a missing
/// password is empty.
pub proof fn law_addresses_name_what_they_hold(parts: UrlView)
    ensures
        names_target(Some(parts)) <==> parts.host is Some,
        names_proxy(Some(parts)) <==> parts.host is Some && parts.port is Some,
        !names_target(None) && !names_proxy(None),
        parts.port_or_default matches Some(p) ==> target_port(parts) == p,
        parts.port_or_default is None ==> target_port(parts) == 443,
        parts.password matches Some(w) ==> proxy_password(parts) == w,
        parts.password is None ==> proxy_password(parts).len() == 0,
{
}

/// What the parts of an address say is what they hold.
pub proof fn law_parts_say_what_they_hold(parts: UrlParts)
    ensures
        parts@.host is Some <==> parts.host is Some,
        parts.host matches Some(h) ==> parts@.host == Some(h@),
        parts@.port == parts.port,
        parts@.port_or_default == parts.port_or_default,
        parts@.username == parts.username@,
        parts@.password is Some <==> parts.password is Some,
        parts.password matches Some(w) ==> parts@.password == Some(w@),
{
}

/// The request names the exchange twice, the account once, and ends with an empty line.
pub proof fn law_request_has_three_lines(
    host: Seq<char>,
    port: u16,
    username: Seq<char>,
    password: Seq<char>,
)
    ensures
        connect_text(host, port, username, password) == "CONNECT "@ + host + ":"@ + decimal(
            port as nat,
        ) + " HTTP/1.1\r\n"@ + "Host: "@ + host + ":"@ + decimal(port as nat) + "\r\n"@
            + "Proxy-Authorization: Basic "@ + base64(encode_utf8(username + ":"@ + password))
            + "\r\n"@ + "\r\n"@,
{
    reveal_strlit(" HTTP/1.1\r\nHost: ");
    reveal_strlit(" HTTP/1.1\r\n");
    reveal_strlit("Host: ");
    reveal_strlit("\r\nProxy-Authorization: Basic ");
    reveal_strlit("\r\n");
    reveal_strlit("Proxy-Authorization: Basic ");
    reveal_strlit("\r\n\r\n");
    assert(" HTTP/1.1\r\nHost: "@ =~= " HTTP/1.1\r\n"@ + "Host: "@);
    assert("\r\nProxy-Authorization: Basic "@ =~= "\r\n"@ + "Proxy-Authorization: Basic "@);
    assert("\r\n\r\n"@ =~= "\r\n"@ + "\r\n"@);
    assert(connect_text(host, port, username, password) =~= "CONNECT "@ + host + ":"@ + decimal(
        port as nat,
    ) + " HTTP/1.1\r\n"@ + "Host: "@ + host + ":"@ + decimal(port as nat) + "\r\n"@
        + "Proxy-Authorization: Basic "@ + base64(encode_utf8(username + ":"@ + password))
        + "\r\n"@ + "\r\n"@);
}

/// An answer is there exactly if two line ends stand in it one behind the other,
/// wherever they do.
pub proof fn law_answer_ends_with_an_empty_line(bytes: Seq<u8>, a: Seq<u8>, b: Seq<u8>)
    ensures
        is_complete(a + seq![13u8, 10u8, 13u8, 10u8] + b),
        is_complete(bytes) ==> exists|i: int|
            {
                &&& 0 <= i <= bytes.len() - 4
                &&& #[trigger] bytes[i] == 13
                &&& bytes[i + 1] == 10
                &&& bytes[i + 2] == 13
                &&& bytes[i + 3] == 10
            },
{
    let blank = seq![13u8, 10u8, 13u8, 10u8];
    assert(blank_at(a + blank + b, a.len() as int));
    if is_complete(bytes) {
        let i = choose|i: int| blank_at(bytes, i);
        assert(bytes[i] == 13);
    }
}

/// Reading stops when the proxy hangs up, when the answer is there, however long it is,
/// and when more than 8192 bytes are there without one; else it goes on.
pub proof fn law_reading_stops_in_three_cases(bytes: Seq<u8>, chunk: Seq<u8>)
    ensures
        chunk.len() == 0 <==> step(bytes, chunk) == Step::Closed,
        chunk.len() > 0 && is_complete(bytes + chunk) <==> step(bytes, chunk) == Step::Done,
        chunk.len() > 0 && !is_complete(bytes + chunk) && bytes.len() + chunk.len() > 8192 <==> step(
            bytes,
            chunk,
        ) == Step::TooLarge,
        chunk.len() > 0 && !is_complete(bytes + chunk) && bytes.len() + chunk.len() <= 8192 <==> step(
            bytes,
            chunk,
        ) == Step::More,
{
}

/// The proxy agrees with a first line that begins with success in either version of the
/// protocol, whatever follows, and with no other. An answer that is no text has none.
pub proof fn law_only_success_is_agreement(line: Seq<char>, rest: Seq<char>, bytes: Seq<u8>)
    ensures
        agrees("HTTP/1.1 200"@ + rest),
        agrees("HTTP/1.0 200"@ + rest),
        agrees(line) ==> (exists|x: Seq<char>| line == #[trigger] ("HTTP/1.1 200"@ + x)) || (exists|
            x: Seq<char>,
        | line == #[trigger] ("HTTP/1.0 200"@ + x)),
        valid_utf8(bytes) ==> opening(bytes) == line_one(decode_utf8(bytes)),
        !valid_utf8(bytes) ==> opening(bytes).len() == 0,
{
    law_occurrence_splits_the_text(line, "HTTP/1.1 200"@, Seq::empty(), rest);
    law_occurrence_splits_the_text(line, "HTTP/1.0 200"@, Seq::empty(), rest);
    law_first_line_ends_at_the_line_end(Seq::empty(), Seq::empty());
    if agrees(line) {
        let n = "HTTP/1.1 200"@.len() as int;
        let m = "HTTP/1.0 200"@.len() as int;
        if occurs_at(line, "HTTP/1.1 200"@, 0) {
            assert(line =~= "HTTP/1.1 200"@ + line.skip(0int + n));
        } else {
            assert(line =~= "HTTP/1.0 200"@ + line.skip(0int + m));
        }
    }
}

/// Chunks are gathered one behind the other.
pub proof fn law_chunks_are_gathered_in_order(chunks: Seq<Seq<u8>>, chunk: Seq<u8>)
    ensures
        gathered(Seq::empty()) == Seq::<u8>::empty(),
        gathered(chunks.push(chunk)) == gathered(chunks) + chunk,
{
    assert(chunks.push(chunk).drop_last() =~= chunks);
}

} // verus!

use arb::proxy::{connect_request, plan, proxy, proxy_in, target, target_in};
use arb::proxy::{Answer, Proxy, ProxyError, Step, Target, UrlParts};
use base64::Engine;

fn parts(host: Option<&str>, port: Option<u16>, known: Option<u16>) -> UrlParts {
    UrlParts {
        host: host.map(|h| h.to_string()),
        port,
        port_or_default: known,
        username: "u".to_string(),
        password: None,
    }
}

#[test]
fn parts_of_an_exchange_address() {
    let t = target_in(parts(Some("h"), None, Some(80))).unwrap();
    assert_eq!((t.host.as_str(), t.port), ("h", 80));
    let t = target_in(parts(Some("h"), None, None)).unwrap();
    assert_eq!(t.port, 443);
    assert!(matches!(target_in(parts(None, Some(1), Some(1))), Err(ProxyError::NoHost)));
}

#[test]
fn parts_of_a_proxy_address() {
    let p = proxy_in(parts(Some("h"), Some(8080), None)).unwrap();
    assert_eq!((p.host.as_str(), p.port, p.username.as_str(), p.password.as_str()), ("h", 8080, "u", ""));
    assert!(matches!(proxy_in(parts(None, Some(1), None)), Err(ProxyError::NoProxyHost)));
    assert!(matches!(proxy_in(parts(None, None, None)), Err(ProxyError::NoProxyHost)));
    assert!(matches!(proxy_in(parts(Some("h"), None, Some(80))), Err(ProxyError::NoProxyPort)));
}

#[test]
fn address_of_the_exchange() {
    let t = target("wss://contract.mexc.com/edge").unwrap();
    assert_eq!((t.host.as_str(), t.port), ("contract.mexc.com", 443));
    let t = target("ws://contract.mexc.com:8443/edge").unwrap();
    assert_eq!(t.port, 8443);
    assert!(matches!(target("no url"), Err(ProxyError::BadUrl(_))));
    assert!(matches!(target("data:text"), Err(ProxyError::NoHost)));
}

#[test]
fn address_of_the_proxy() {
    let p = proxy("http://user:pw@127.0.0.1:3128").unwrap();
    assert_eq!(p.host, "127.0.0.1");
    assert_eq!(p.port, 3128);
    assert_eq!(p.username, "user");
    assert_eq!(p.password, "pw");
    let p = proxy("http://127.0.0.1:3128").unwrap();
    assert_eq!((p.username.as_str(), p.password.as_str()), ("", ""));
    assert!(matches!(proxy(""), Err(ProxyError::BadProxyUrl(_))));
    assert!(matches!(proxy("mailto:a@b"), Err(ProxyError::NoProxyHost)));
    assert!(matches!(proxy("http://host"), Err(ProxyError::NoProxyPort)));
    assert!(matches!(proxy("http://host:80"), Err(ProxyError::NoProxyPort)));
}

#[test]
fn request_to_a_proxy() {
    let to = Target { host: "contract.mexc.com".to_string(), port: 443 };
    let through = Proxy {
        host: "h".to_string(),
        port: 1,
        username: "user".to_string(),
        password: "pw".to_string(),
    };
    assert_eq!(
        connect_request(&to, &through),
        "CONNECT contract.mexc.com:443 HTTP/1.1\r\nHost: contract.mexc.com:443\r\n\
         Proxy-Authorization: Basic dXNlcjpwdw==\r\n\r\n"
    );
}

#[test]
fn accounts_in_base64() {
    let engine = &base64::engine::general_purpose::STANDARD;
    let to = Target { host: "x".to_string(), port: 9 };
    for name in ["", "a", "ab", "abc", "abcd", "\u{e9}\u{1f600}", "zzz???>>>"] {
        for pw in ["", "1", "~~", "\u{ff}"] {
            let through = Proxy {
                host: "h".to_string(),
                port: 1,
                username: name.to_string(),
                password: pw.to_string(),
            };
            let auth = engine.encode(format!("{}:{}", name, pw));
            assert_eq!(auth.len(), 4 * ((name.len() + 1 + pw.len() + 2) / 3));
            assert!(!auth.contains('\n') && !auth.contains('\r'));
            let want = format!(
                "CONNECT x:9 HTTP/1.1\r\nHost: x:9\r\nProxy-Authorization: Basic {}\r\n\r\n",
                auth
            );
            assert_eq!(connect_request(&to, &through), want);
        }
    }
}

#[test]
fn plan_of_a_connection() {
    let p = plan("wss://contract.mexc.com/edge", "http://user:pw@10.0.0.1:3128").unwrap();
    assert_eq!((p.host.as_str(), p.port), ("10.0.0.1", 3128));
    assert!(p.request.starts_with("CONNECT contract.mexc.com:443 HTTP/1.1\r\n"));
    assert!(p.request.ends_with("Basic dXNlcjpwdw==\r\n\r\n"));
    assert!(matches!(plan("x", "y"), Err(ProxyError::BadUrl(_))));
    assert!(matches!(plan("data:x", "y"), Err(ProxyError::NoHost)));
    assert!(matches!(plan("wss://a", "y"), Err(ProxyError::BadProxyUrl(_))));
    assert!(matches!(plan("wss://a", "data:y"), Err(ProxyError::NoProxyHost)));
    assert!(matches!(plan("wss://a", "http://y"), Err(ProxyError::NoProxyPort)));
}

#[test]
fn answer_in_pieces() {
    let mut a = Answer::new();
    assert_eq!(a.feed(b"HTTP/1.1 200 Connection established\r\n"), Step::More);
    assert_eq!(a.feed(b"\r"), Step::More);
    assert_eq!(a.feed(b"\n"), Step::Done);
    assert!(a.verdict().is_ok());
}

#[test]
fn answer_that_stops() {
    let mut a = Answer::new();
    assert_eq!(a.feed(b"HTTP/1.1 200"), Step::More);
    assert_eq!(a.feed(b""), Step::Closed);
}

#[test]
fn answer_that_is_too_long() {
    let mut a = Answer::new();
    assert_eq!(a.feed(&[b'x'; 8192]), Step::More);
    assert_eq!(a.feed(b"x"), Step::TooLarge);
    let mut a = Answer::new();
    assert_eq!(a.feed(&[b'x'; 8192]), Step::More);
    assert_eq!(a.feed(b"\r\n\r\n"), Step::Done);
}

#[test]
fn verdicts() {
    let say = |bytes: &[u8]| {
        let mut a = Answer::new();
        a.feed(bytes);
        a.verdict()
    };
    assert_eq!(say(b"HTTP/1.0 200 OK\r\n\r\n"), Ok(()));
    assert_eq!(say(b"HTTP/1.1 200\r\n\r\n"), Ok(()));
    assert_eq!(
        say(b"HTTP/1.1 407 Proxy Authentication Required\r\nX: y\r\n\r\n"),
        Err("HTTP/1.1 407 Proxy Authentication Required".to_string())
    );
    assert_eq!(say(b"HTTP/2 200\r\n\r\n"), Err("HTTP/2 200".to_string()));
    assert_eq!(say(b"HTTP/1.1 200 OK\xff\r\n\r\n"), Err("".to_string()));
    assert_eq!(say(b"\r\n\r\n"), Err("".to_string()));
}

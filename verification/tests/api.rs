use zappaw::client::api::{
    base_url, endpoint_url, history_url, resolve_response, transport_error, urlencoding,
    DEFAULT_SERVER,
};

#[test]
fn base_url_strips_slashes_or_defaults() {
    assert_eq!(base_url("http://h:1//"), "http://h:1");
    assert_eq!(base_url("http://h:1"), "http://h:1");
    assert_eq!(base_url(""), DEFAULT_SERVER);
    assert_eq!(base_url("///"), "http://localhost:3000");
}

#[test]
fn endpoints() {
    assert_eq!(endpoint_url("http://h/", "/api/login"), "http://h/api/login");
    assert_eq!(endpoint_url("", "/api/register"), "http://localhost:3000/api/register");
}

#[test]
fn url_encoding_of_reserved_characters() {
    assert_eq!(urlencoding("a b&c=d+e%f"), "a%20b%26c%3Dd%2Be%25f");
    assert_eq!(urlencoding("plain"), "plain");
    assert_eq!(urlencoding(""), "");
    let enc = urlencoding("x y&z=w+v");
    assert!(!enc.contains(' ') && !enc.contains('&') && !enc.contains('=') && !enc.contains('+'));
}

#[test]
fn history_urls() {
    assert_eq!(history_url("http://h", None, None), "http://h/api/messages");
    assert_eq!(history_url("http://h", None, Some(50)), "http://h/api/messages?limit=50");
    assert_eq!(
        history_url("http://h", Some("2024-01-01 10:00"), Some(100)),
        "http://h/api/messages?before=2024-01-01%2010:00&limit=100"
    );
    assert_eq!(history_url("http://h", Some("x"), None), "http://h/api/messages?before=x");
    assert_eq!(history_url("http://h", None, Some(-3)), "http://h/api/messages?limit=-3");
    assert_eq!(history_url("http://h", None, Some(i64::MIN)), "http://h/api/messages?limit=-9223372036854775808");
}

#[test]
fn response_resolution() {
    let ok: Result<u8, String> = resolve_response(true, Ok(5u8), None);
    assert_eq!(ok, Ok(5));
    let bad: Result<u8, String> = resolve_response(true, Err("eof".to_string()), None);
    assert_eq!(bad, Err("bad response: eof".to_string()));
    let refused: Result<u8, String> = resolve_response(false, Ok(1u8), Some("taken".to_string()));
    assert_eq!(refused, Err("taken".to_string()));
    let unknown: Result<u8, String> = resolve_response(false, Err("x".to_string()), None);
    assert_eq!(unknown, Err("unknown error".to_string()));
}

#[test]
fn transport_errors() {
    assert_eq!(transport_error("connection failed", "refused"), "connection failed: refused");
}

fn percent_decode(s: &str) -> String {
    let cs: Vec<char> = s.chars().collect();
    let mut out = String::new();
    let mut i: usize = 0;
    while i < cs.len() {
        if cs[i] == '%' && i + 2 < cs.len() {
            if let (Some(a), Some(b)) = (cs[i + 1].to_digit(16), cs[i + 2].to_digit(16)) {
                if a < 8 {
                    out.push(char::from_u32(16 * a + b).unwrap());
                    i += 3;
                    continue;
                }
            }
        }
        out.push(cs[i]);
        i += 1;
    }
    out
}

#[test]
fn escaping_round_trips_through_percent_decoding() {
    let enc = urlencoding("100% a+b=c&d");
    assert_eq!(enc, "100%25%20a%2Bb%3Dc%26d");
    assert_eq!(percent_decode(&enc), "100% a+b=c&d");
    assert_eq!(percent_decode(&urlencoding("%25 ünï")), "%25 ünï");
}

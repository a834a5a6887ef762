use star_cloudburst::bencode::value::Value;
use star_cloudburst::error::Field;
use star_cloudburst::error::ParseTorrentError;
use star_cloudburst::error::UriError;
use star_cloudburst::error::ValueKind;
use star_cloudburst::uri::node::port_suffix;
use star_cloudburst::uri::node::rfind;
use star_cloudburst::uri::uriwrapper::compose;
use star_cloudburst::uri::uriwrapper::is_sanctioned;
use star_cloudburst::uri::uriwrapper::lower;
use star_cloudburst::uri::uriwrapper::sanctioned_schemes;
use star_cloudburst::uri::Node;
use star_cloudburst::uri::UriWrapper;
use star_cloudburst::uri::UrlWrapper;

const EXAMPLE_OK: &str = "https://example.com/";
const EXAMPLE_BAD: &str = "/etc/shadow";
const EXAMPLE_TRACKER: &str = "udp://somefakesitemeow.faketld:666/announce";
const EXAMPLE_FILE: &str = "file://home/joshua/Documents/Essays/why_i_like_mudkips.tex";
const LOCALHOST_IP: &str = "127.0.0.1:6881";

#[test]
fn uriwrapper_uriwrapper_okay() {
    let uri = UriWrapper::from_str(EXAMPLE_OK).unwrap();
    assert_eq!(uri.to_string(), EXAMPLE_OK);
}

#[test]
fn uriwrapper_uriwrapper_tracker_okay() {
    let uri = UriWrapper::from_str(EXAMPLE_TRACKER).unwrap();
    assert_eq!(uri.to_string(), EXAMPLE_TRACKER);
}

#[test]
fn uriwrapper_uriwrapper_oops() {
    // relative URL without a base
    assert_eq!(UriWrapper::from_str(EXAMPLE_BAD).unwrap_err(), UriError::Relative);
}

#[test]
fn uriwrapper_mudkips() {
    // invalid scheme: `file`
    assert_eq!(UriWrapper::from_str(EXAMPLE_FILE).unwrap_err(), UriError::InvalidScheme);
}

#[test]
fn urlwrapper_okay() {
    let url = UrlWrapper::from_str(EXAMPLE_OK).unwrap();
    assert_eq!(url.to_string(), EXAMPLE_OK);
}

#[test]
fn urlwrapper_oops() {
    // relative URL without a base
    assert_eq!(UrlWrapper::from_str(EXAMPLE_BAD).unwrap_err(), UriError::Relative);
}

#[test]
fn localhost_ip() {
    let wrapper = UriWrapper::from_str(LOCALHOST_IP).expect("URI is valid.");
    let node = Node::from_uri(wrapper).unwrap();
    assert_eq!(node.as_uri().to_string(), LOCALHOST_IP);
    assert_eq!(node.serialize(), (b"127.0.0.1".to_vec(), 6881));
}

#[test]
fn uri_parts_are_those_of_the_text() {
    let uri = UriWrapper::from_str("udp://host:666/announce").unwrap();
    assert_eq!(uri.scheme(), Some(&b"udp"[..]));
    assert_eq!(uri.authority(), b"host:666");
    assert_eq!(uri.port(), Some(666));
    assert_eq!(uri.path_and_query(), Some(&b"/announce"[..]));
    assert_eq!(uri.as_str(), "udp://host:666/announce");
    let parts = uri.parts();
    assert_eq!(parts.port, Some(666));
    assert_eq!(parts.display, "udp://host:666/announce");

    let uri = UriWrapper::from_bytes(b"https://example.com/a/b?c=d").unwrap();
    assert_eq!(uri.port(), None);
    assert_eq!(uri.path_and_query(), Some(&b"/a/b?c=d"[..]));

    // without a scheme only an authority can stand
    let uri = UriWrapper::from_str("example.com").unwrap();
    assert_eq!(uri.scheme(), None);
    assert_eq!(uri.authority(), b"example.com");
    assert_eq!(uri.path_and_query(), None);
}

#[test]
fn uri_scheme_is_put_in_lower_case() {
    let uri = UriWrapper::from_str("UDP://Tracker.Example:80/Announce").unwrap();
    assert_eq!(uri.scheme(), Some(&b"udp"[..]));
    assert_eq!(uri.to_string(), "udp://Tracker.Example:80/Announce");
    let uri = UriWrapper::from_str("HTTPS://example.com/").unwrap();
    assert_eq!(uri.to_string(), "https://example.com/");
    assert_eq!(UriWrapper::from_str("FILE://host/path").unwrap_err(), UriError::InvalidScheme);
}

#[test]
fn uri_schemes_on_the_list_and_off_it() {
    for scheme in sanctioned_schemes() {
        assert!(is_sanctioned(scheme.as_bytes()));
        let text = format!("{scheme}://host.example/x");
        assert_eq!(UriWrapper::from_str(&text).unwrap().to_string(), text, "{scheme}");
    }
    assert_eq!(sanctioned_schemes().len(), 12);
    for scheme in ["file", "javascript", "data", "ssh", "htt", "httpss"] {
        assert!(!is_sanctioned(scheme.as_bytes()));
        let text = format!("{scheme}://host.example/x");
        assert_eq!(UriWrapper::from_str(&text).unwrap_err(), UriError::InvalidScheme);
    }
    assert_eq!(UriWrapper::from_str("file://host/path").unwrap_err(), UriError::InvalidScheme);
}

#[test]
fn uri_that_is_none() {
    assert_eq!(UriWrapper::from_str("").unwrap_err(), UriError::Invalid);
    assert_eq!(UriWrapper::from_str("http://").unwrap_err(), UriError::Invalid);
    assert_eq!(UriWrapper::from_str("http://exa mple.com/").unwrap_err(), UriError::Invalid);
    assert_eq!(UriWrapper::from_bytes(b"\xff\xfe").unwrap_err(), UriError::Invalid);
    assert_eq!(UriWrapper::from_str("/").unwrap_err(), UriError::Relative);
    assert_eq!(UriWrapper::from_str("../../etc/passwd").unwrap_err(), UriError::Invalid);
}

#[test]
fn uri_text_helpers() {
    assert_eq!(lower(b"HtTp-1"), b"http-1".to_vec());
    assert_eq!(
        compose(&Some(b"udp".to_vec()), b"host:1", &Some(b"/a".to_vec())),
        b"udp://host:1/a".to_vec()
    );
    assert_eq!(compose(&None, b"host", &None), b"host".to_vec());
    assert_eq!(port_suffix(6881), b":6881".to_vec());
    assert_eq!(port_suffix(0), b":0".to_vec());
    assert_eq!(rfind(b"a:80:80", b":80"), Some(4));
    assert_eq!(rfind(b"a:80:8", b":80"), Some(1));
    assert_eq!(rfind(b"a", b":80"), None);
    assert_eq!(rfind(b"abc", b""), Some(3));
    assert_eq!(rfind(b"", b""), Some(0));
}

#[test]
fn node_takes_the_port_in_and_gives_it_out() {
    for (host, port) in [
        ("127.0.0.1", 6881u16),
        ("router.example.org", 4804),
        ("udp://dht.example/", 65535),
        ("[::1]", 80),
        ("http://example.com/80", 80),
        ("ws://a80.example/x:80", 80),
    ] {
        let node = Node::deserialize(host.as_bytes(), port as i64).unwrap();
        assert_eq!(node.as_uri().port(), Some(port), "{host}");
        let (back, found) = node.serialize();
        assert_eq!(found, port);
        let bare = UriWrapper::from_str(host).unwrap();
        assert_eq!(String::from_utf8(back).unwrap(), bare.to_string(), "{host}");
    }
    let node = Node::deserialize(b"udp://dht.example/x?y", 6881).unwrap();
    assert_eq!(node.as_uri().to_string(), "udp://dht.example:6881/x?y");
    assert_eq!(node.serialize(), (b"udp://dht.example/x?y".to_vec(), 6881));
}

#[test]
fn node_that_is_none() {
    assert_eq!(
        Node::deserialize(b"/etc/shadow", 1).unwrap_err(),
        ParseTorrentError::Uri { field: Field::Nodes, error: UriError::Relative }
    );
    assert_eq!(
        Node::deserialize(b"file://x/", 1).unwrap_err(),
        ParseTorrentError::Uri { field: Field::Nodes, error: UriError::InvalidScheme }
    );
    assert_eq!(
        Node::deserialize(b"127.0.0.1", 65536).unwrap_err(),
        ParseTorrentError::InvalidValue { field: Field::Nodes }
    );
    assert_eq!(
        Node::deserialize(b"127.0.0.1", -1).unwrap_err(),
        ParseTorrentError::InvalidValue { field: Field::Nodes }
    );
    // a host that names a port already takes no second one
    assert!(Node::deserialize(b"127.0.0.1:6881", 6881).is_err());
    assert_eq!(
        Node::from_uri(UriWrapper::from_str("http://example.com/").unwrap()).unwrap_err(),
        ParseTorrentError::Uri { field: Field::Nodes, error: UriError::MissingPort }
    );
}

#[test]
fn node_as_a_value() {
    let value = Value::List(vec![Value::Bytes(b"127.0.0.1".to_vec()), Value::Int(6881)]);
    let node = Node::from_value(&value).unwrap();
    assert_eq!(node.to_value(), value);
    assert_eq!(
        Node::from_value(&Value::Int(1)).unwrap_err(),
        ParseTorrentError::InvalidType { field: Field::Nodes, expected: ValueKind::List }
    );
    assert_eq!(
        Node::from_value(&Value::List(vec![Value::Int(1)])).unwrap_err(),
        ParseTorrentError::InvalidLength { field: Field::Nodes, actual: 1 }
    );
    assert_eq!(
        Node::from_value(&Value::List(vec![Value::Int(1), Value::Int(1)])).unwrap_err(),
        ParseTorrentError::InvalidType { field: Field::Nodes, expected: ValueKind::Bytes }
    );
    assert_eq!(
        Node::from_value(&Value::List(vec![Value::Bytes(b"h".to_vec()), Value::Bytes(vec![])]))
            .unwrap_err(),
        ParseTorrentError::InvalidType { field: Field::Nodes, expected: ValueKind::Int }
    );
}

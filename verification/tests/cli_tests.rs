use kv::cli::{parse_address, parse_id, parse_peer};

#[test]
fn addresses() {
    assert_eq!(parse_address(&"127.0.0.1:5000".to_string()), Some(("127.0.0.1".to_string(), 5000)));
    assert_eq!(parse_address(&"h:+80:extra".to_string()), Some(("h".to_string(), 80)));
    assert_eq!(parse_address(&":1".to_string()), Some((String::new(), 1)));
    assert_eq!(parse_address(&"localhost".to_string()), None);
    assert_eq!(parse_address(&"h:65536".to_string()), None);
    assert_eq!(parse_address(&"h:".to_string()), None);
    assert_eq!(parse_address(&"hôte:7".to_string()), Some(("hôte".to_string(), 7)));
}

#[test]
fn addresses_agree_with_split() {
    for a in ["1.2.3.4:20160", "a:b", "x:65535", "::", "p:1:2"] {
        let mut parts = a.split(':');
        let host = parts.next().unwrap().to_string();
        let port = parts.next().and_then(|p| p.parse::<u16>().ok());
        let expected = port.map(|p| (host, p));
        assert_eq!(parse_address(&a.to_string()), expected, "on {:?}", a);
    }
}

#[test]
fn peers() {
    assert_eq!(parse_peer(&"2=10.0.0.2:5000".to_string()), Some((2, "10.0.0.2:5000".to_string())));
    assert_eq!(parse_peer(&"3=a=b".to_string()), Some((3, "a".to_string())));
    assert_eq!(parse_peer(&"x=10.0.0.2:5000".to_string()), None);
    assert_eq!(parse_peer(&"4".to_string()), None);
    assert_eq!(parse_peer(&"5=".to_string()), Some((5, String::new())));
}

#[test]
fn ids() {
    assert_eq!(parse_id(&"1".to_string()), Some(1));
    assert_eq!(parse_id(&"+2".to_string()), Some(2));
    assert_eq!(parse_id(&"".to_string()), None);
    assert_eq!(parse_id(&"one".to_string()), None);
}

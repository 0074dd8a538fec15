use xrs::display::DisplayName;
use xrs::display::DisplayNameParseError;
use xrs::display::Hostname;
use xrs::display::Protocol;

#[test]
fn parse_unix_protocol() {
    let d = DisplayName::parse("unix/:1").unwrap();
    assert_eq!(d.protocol, Some(Protocol::Unix));
    assert!(d.hostname.is_none());
    assert_eq!(d.display, 1);
    assert_eq!(d.screen, None);
}

#[test]
fn parse_inet6_bracketed() {
    let d = DisplayName::parse("inet6/[::1]:0.2").unwrap();
    assert_eq!(d.protocol, Some(Protocol::Inet6));
    assert_eq!(d.hostname, Some(Hostname::Inet6(String::from("::1"))));
    assert_eq!(d.display, 0);
    assert_eq!(d.screen, Some(2));
}

#[test]
fn parse_decnet_host() {
    let d = DisplayName::parse("hostname::1").unwrap();
    assert_eq!(d.protocol, None);
    assert_eq!(d.hostname, Some(Hostname::DecNet(String::from("hostname"))));
    assert_eq!(d.display, 1);
    assert_eq!(d.screen, None);
}

#[test]
fn parse_bare_display() {
    let d = DisplayName::parse(":0").unwrap();
    assert_eq!(d.protocol, None);
    assert!(d.hostname.is_none());
    assert_eq!(d.display, 0);
    assert_eq!(d.screen, None);

    let d = DisplayName::parse("1").unwrap();
    assert_eq!(d.display, 1);
    assert!(d.hostname.is_none());
}

#[test]
fn parse_full_specifier() {
    let d = DisplayName::parse("inet6/example.com:1.0").unwrap();
    assert_eq!(d.protocol, Some(Protocol::Inet6));
    assert_eq!(d.hostname, Some(Hostname::Other(String::from("example.com"))));
    assert_eq!(d.display, 1);
    assert_eq!(d.screen, Some(0));
}

#[test]
fn parse_unix_marker_host() {
    let d = DisplayName::parse("unix:2").unwrap();
    assert_eq!(d.protocol, None);
    assert_eq!(d.hostname, Some(Hostname::Unix));
    assert_eq!(d.display, 2);
}

#[test]
fn parse_host_with_interior_colon() {
    // The host field runs to the last colon.
    let d = DisplayName::parse("a:b:1").unwrap();
    assert_eq!(d.hostname, Some(Hostname::Other(String::from("a:b"))));
    assert_eq!(d.display, 1);
}

#[test]
fn parse_unrecognized_protocol() {
    assert_eq!(
        DisplayName::parse("foo/:1"),
        Err(DisplayNameParseError::UnrecognizedProtocol)
    );
}

#[test]
fn parse_ill_formatted() {
    assert_eq!(DisplayName::parse(""), Err(DisplayNameParseError::IllFormatted));
    assert_eq!(DisplayName::parse(":abc"), Err(DisplayNameParseError::IllFormatted));
    assert_eq!(DisplayName::parse("host:1.x"), Err(DisplayNameParseError::IllFormatted));
    assert_eq!(DisplayName::parse("host:"), Err(DisplayNameParseError::IllFormatted));
}

#[test]
fn parse_display_bounds() {
    assert_eq!(DisplayName::parse("32767").unwrap().display, 32767);
    assert_eq!(DisplayName::parse("-32768").unwrap().display, -32768);
    assert_eq!(DisplayName::parse("32768"), Err(DisplayNameParseError::IllFormatted));
    assert_eq!(DisplayName::parse("-32769"), Err(DisplayNameParseError::IllFormatted));
}

#[test]
fn parse_negative_display_and_screen() {
    let d = DisplayName::parse("-5.-3").unwrap();
    assert_eq!(d.display, -5);
    assert_eq!(d.screen, Some(-3));
}

#[test]
fn render_canonical_forms() {
    let d = DisplayName {
        protocol: Some(Protocol::Tcp),
        hostname: Some(Hostname::Other(String::from("host"))),
        display: 5,
        screen: Some(2),
    };
    assert_eq!(d.render(), "tcp/host:5.2");

    let d = DisplayName {
        protocol: None,
        hostname: Some(Hostname::DecNet(String::from("node"))),
        display: 1,
        screen: None,
    };
    assert_eq!(d.render(), "node::1");

    let d = DisplayName {
        protocol: Some(Protocol::Inet6),
        hostname: Some(Hostname::Inet6(String::from("::1"))),
        display: 0,
        screen: None,
    };
    assert_eq!(d.render(), "inet6/[::1]:0");

    let d = DisplayName::new(0);
    assert_eq!(d.render(), "0");
}

#[test]
fn render_decnet_protocol_has_no_token() {
    let d = DisplayName {
        protocol: Some(Protocol::DecNet),
        hostname: None,
        display: 7,
        screen: None,
    };
    assert_eq!(d.render(), "7");
}

#[test]
fn render_then_parse_round_trips() {
    let originals = vec![
        DisplayName {
            protocol: Some(Protocol::Tcp),
            hostname: Some(Hostname::Other(String::from("example.com"))),
            display: 5,
            screen: Some(2),
        },
        DisplayName {
            protocol: None,
            hostname: Some(Hostname::DecNet(String::from("node"))),
            display: -1,
            screen: None,
        },
        DisplayName {
            protocol: Some(Protocol::Unix),
            hostname: None,
            display: 1,
            screen: None,
        },
        DisplayName {
            protocol: Some(Protocol::Inet6),
            hostname: Some(Hostname::Inet6(String::from("fe80::1"))),
            display: 0,
            screen: Some(0),
        },
        DisplayName {
            protocol: None,
            hostname: Some(Hostname::Unix),
            display: 32767,
            screen: Some(-32768),
        },
        DisplayName {
            protocol: None,
            hostname: Some(Hostname::Other(String::from("a:b"))),
            display: 1,
            screen: None,
        },
    ];
    for d in originals {
        let rendered = d.render();
        let reparsed = DisplayName::parse(&rendered).unwrap();
        assert_eq!(reparsed, d);
    }
}

#[test]
fn builders_set_fields() {
    let mut d = DisplayName::new(3);
    assert_eq!(d.display, 3);
    assert!(d.protocol.is_none());
    assert!(d.hostname.is_none());
    assert!(d.screen.is_none());
    d.protocol(Protocol::Tcp);
    d.hostname(Hostname::Other(String::from("h")));
    d.screen(1);
    assert_eq!(d.protocol, Some(Protocol::Tcp));
    assert_eq!(d.hostname, Some(Hostname::Other(String::from("h"))));
    assert_eq!(d.screen, Some(1));
}

#[test]
fn protocol_tokens() {
    assert_eq!(Protocol::Tcp.token(), Some("tcp"));
    assert_eq!(Protocol::Inet.token(), Some("inet"));
    assert_eq!(Protocol::Inet6.token(), Some("inet6"));
    assert_eq!(Protocol::Unix.token(), Some("unix"));
    assert_eq!(Protocol::DecNet.token(), None);
}

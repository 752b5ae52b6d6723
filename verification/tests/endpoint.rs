use mc_probe::endpoint::parse_endpoint_line;
use mc_probe::endpoint::parse_endpoints;
use mc_probe::endpoint::Endpoint;

fn endpoint(host: &str, port: u16) -> Option<Endpoint> {
    Some(Endpoint { host: host.to_string(), port })
}

#[test]
fn host_alone_gets_the_default_port() {
    assert_eq!(parse_endpoint_line("mc.example.org"), endpoint("mc.example.org", 25565));
    assert_eq!(parse_endpoint_line("192.168.1.10"), endpoint("192.168.1.10", 25565));
}

#[test]
fn host_and_port() {
    assert_eq!(parse_endpoint_line("mc.example.org:25566"), endpoint("mc.example.org", 25566));
    assert_eq!(parse_endpoint_line("10.0.0.1:1"), endpoint("10.0.0.1", 1));
    assert_eq!(parse_endpoint_line("h:0"), endpoint("h", 0));
    assert_eq!(parse_endpoint_line("h:65535"), endpoint("h", 65535));
    assert_eq!(parse_endpoint_line("h:00080"), endpoint("h", 80));
    assert_eq!(parse_endpoint_line("h:+8080"), endpoint("h", 8080));
}

#[test]
fn a_port_that_cannot_be_read_is_the_default_port() {
    assert_eq!(parse_endpoint_line("h:"), endpoint("h", 25565));
    assert_eq!(parse_endpoint_line("h:abc"), endpoint("h", 25565));
    assert_eq!(parse_endpoint_line("h:65536"), endpoint("h", 25565));
    assert_eq!(parse_endpoint_line("h:99999999999999999999"), endpoint("h", 25565));
    assert_eq!(parse_endpoint_line("h:-1"), endpoint("h", 25565));
    assert_eq!(parse_endpoint_line("h:+"), endpoint("h", 25565));
    assert_eq!(parse_endpoint_line("h:++1"), endpoint("h", 25565));
    assert_eq!(parse_endpoint_line("h: 80"), endpoint("h", 25565));
    assert_eq!(parse_endpoint_line("h:80x"), endpoint("h", 25565));
    assert_eq!(parse_endpoint_line("h:8 0"), endpoint("h", 25565));
    assert_eq!(parse_endpoint_line("h:\u{661}"), endpoint("h", 25565));
}

#[test]
fn the_first_colon_splits_the_line() {
    assert_eq!(parse_endpoint_line("a:1:2"), endpoint("a", 25565));
    assert_eq!(parse_endpoint_line("::1"), endpoint("", 25565));
    assert_eq!(parse_endpoint_line(":25570"), endpoint("", 25570));
}

#[test]
fn white_space_round_the_line_is_dropped() {
    assert_eq!(parse_endpoint_line("  mc.example.org:25566 \t"), endpoint("mc.example.org", 25566));
    assert_eq!(parse_endpoint_line("\u{a0}h\u{3000}\r"), endpoint("h", 25565));
    assert_eq!(parse_endpoint_line("\u{2003}h:7\u{2028}"), endpoint("h", 7));
    assert_eq!(parse_endpoint_line("a b"), endpoint("a b", 25565));
    assert_eq!(parse_endpoint_line("h :80"), endpoint("h ", 80));
    assert_eq!(parse_endpoint_line("\u{200b}h"), endpoint("\u{200b}h", 25565));
}

#[test]
fn blank_lines_and_comments_name_nothing() {
    assert_eq!(parse_endpoint_line(""), None);
    assert_eq!(parse_endpoint_line("   "), None);
    assert_eq!(parse_endpoint_line("\t\r"), None);
    assert_eq!(parse_endpoint_line("# a comment"), None);
    assert_eq!(parse_endpoint_line("   #mc.example.org:25565"), None);
    assert_eq!(parse_endpoint_line("#"), None);
}

#[test]
fn a_number_sign_inside_a_line_is_no_comment() {
    assert_eq!(parse_endpoint_line("h#x"), endpoint("h#x", 25565));
    assert_eq!(parse_endpoint_line("h:80#x"), endpoint("h", 25565));
}

#[test]
fn host_may_hold_any_characters() {
    assert_eq!(parse_endpoint_line("b\u{fc}cher.example:25565"), endpoint("b\u{fc}cher.example", 25565));
    assert_eq!(parse_endpoint_line("\u{1f600}"), endpoint("\u{1f600}", 25565));
}

#[test]
fn list_of_endpoints() {
    let input = "# servers\nmc.example.org\n\n  10.0.0.1:25570  \r\nbad:port\n#skip:1\nlast:1";
    let list = parse_endpoints(input);
    assert_eq!(
        list,
        vec![
            Endpoint { host: "mc.example.org".to_string(), port: 25565 },
            Endpoint { host: "10.0.0.1".to_string(), port: 25570 },
            Endpoint { host: "bad".to_string(), port: 25565 },
            Endpoint { host: "last".to_string(), port: 1 },
        ]
    );
}

#[test]
fn list_ends_with_or_without_a_line_break() {
    assert_eq!(parse_endpoints("a\nb\n"), parse_endpoints("a\nb"));
    assert_eq!(parse_endpoints("a\nb\n").len(), 2);
    assert_eq!(parse_endpoints(""), Vec::<Endpoint>::new());
    assert_eq!(parse_endpoints("\n\n\n"), Vec::<Endpoint>::new());
    assert_eq!(parse_endpoints("a"), vec![Endpoint { host: "a".to_string(), port: 25565 }]);
}

#[test]
fn list_agrees_with_reading_line_by_line() {
    let input = " a:1 \r\n#c\n\nb\n c : 9\nd:+07\n";
    let by_line: Vec<Endpoint> = input.lines().filter_map(parse_endpoint_line).collect();
    assert_eq!(parse_endpoints(input), by_line);
    assert_eq!(by_line.len(), 4);
}

use hammerload::params::{
    parse_request_params, Command, GrpcParams, HttpMethod, RequestParams, WebsocketParams,
};

fn lines(v: &[&str]) -> Vec<String> {
    v.iter().map(|s| s.to_string()).collect()
}

#[test]
fn header_and_form_lines_are_read_and_bad_ones_reported() {
    let command = Command::Http {
        method: HttpMethod::Get,
        url: "http://localhost/".to_string(),
        body: None,
        headers: lines(&["X-A: 1", "bad"]),
        form: lines(&["k=v", "bad"]),
    };
    let (params, complaints) = parse_request_params(command);
    assert_eq!(complaints, vec![
        "Invalid header: bad".to_string(),
        "Invalid form parameter: bad".to_string()
    ]);
    match params {
        RequestParams::Http(p) => {
            assert_eq!(p.url, "http://localhost/");
            assert_eq!(p.method, HttpMethod::Get);
            assert_eq!(p.body, None);
            assert_eq!(p.headers.len(), 1);
            assert_eq!(p.headers.get("x-a"), Some("1".to_string()));
            assert_eq!(p.form.len(), 1);
            assert_eq!(p.form.get("k"), Some("v"));
        }
        _ => panic!("not the parameters of an HTTP run"),
    }
}

#[test]
fn a_later_line_replaces_an_earlier_one_of_the_same_name() {
    let command = Command::Http {
        method: HttpMethod::Post,
        url: "http://localhost/".to_string(),
        body: Some("payload".to_string()),
        headers: lines(&["Accept: a", "X-B: 2", "ACCEPT: b"]),
        form: lines(&["k=1", "j=2", " k = 3 "]),
    };
    let (params, complaints) = parse_request_params(command);
    assert!(complaints.is_empty());
    match params {
        RequestParams::Http(p) => {
            assert_eq!(p.body, Some("payload".to_string()));
            assert_eq!(p.headers.len(), 2);
            assert_eq!(
                p.headers.entries(),
                vec![("accept".to_string(), "b".to_string()), ("x-b".to_string(), "2".to_string())]
            );
            assert_eq!(p.headers.get("x-b"), Some("2".to_string()));
            assert_eq!(p.form.len(), 2);
            assert_eq!(p.form.get("k"), Some("3"));
            assert_eq!(p.form.get("j"), Some("2"));
        }
        _ => panic!("not the parameters of an HTTP run"),
    }
}

#[test]
fn grpc_and_websocket_commands_carry_over() {
    let (params, complaints) = parse_request_params(Command::Grpc {
        address: "http://localhost:50051".to_string(),
        proto: "user.proto".to_string(),
        method: "UserService.GetUser".to_string(),
        data: Some("{}".to_string()),
    });
    assert!(complaints.is_empty());
    match params {
        RequestParams::Grpc(p) => {
            assert_eq!(p.address, "http://localhost:50051");
            assert_eq!(p.proto, "user.proto");
            assert_eq!(p.method, "UserService.GetUser");
            assert_eq!(p.data, Some("{}".to_string()));
        }
        _ => panic!("not the parameters of a gRPC run"),
    }
    let (params, complaints) = parse_request_params(Command::Websocket {
        url: "ws://localhost/".to_string(),
        data: "ping".to_string(),
    });
    assert!(complaints.is_empty());
    match params {
        RequestParams::Websocket(p) => {
            assert_eq!(p.url, "ws://localhost/");
            assert_eq!(p.data, "ping");
        }
        _ => panic!("not the parameters of a WebSocket run"),
    }
}

#[test]
fn parameters_are_copied_in_full() {
    let first = RequestParams::Grpc(GrpcParams {
        address: "a".to_string(),
        proto: "p".to_string(),
        method: "S.M".to_string(),
        data: None,
    });
    match first.clone() {
        RequestParams::Grpc(p) => {
            assert_eq!(p.address, "a");
            assert_eq!(p.proto, "p");
            assert_eq!(p.method, "S.M");
            assert_eq!(p.data, None);
        }
        _ => panic!("the copy changed its protocol"),
    }
    let ws = WebsocketParams { url: "u".to_string(), data: "d".to_string() };
    let copy = ws.clone();
    assert_eq!(copy.url, "u");
    assert_eq!(copy.data, "d");
}

#[test]
fn verbs_are_read_and_written() {
    let all = [
        (HttpMethod::Get, "GET"),
        (HttpMethod::Post, "POST"),
        (HttpMethod::Put, "PUT"),
        (HttpMethod::Delete, "DELETE"),
        (HttpMethod::Head, "HEAD"),
        (HttpMethod::Options, "OPTIONS"),
        (HttpMethod::Connect, "CONNECT"),
        (HttpMethod::Patch, "PATCH"),
        (HttpMethod::Trace, "TRACE"),
    ];
    for (m, text) in all {
        assert_eq!(m.as_str(), text);
        assert_eq!(HttpMethod::parse(text), Some(m));
    }
    assert_eq!(HttpMethod::parse("get"), None);
    assert_eq!(HttpMethod::parse(""), None);
    assert_eq!(HttpMethod::parse("PURGE"), None);
}

#[test]
fn padded_header_line_is_found_by_its_name() {
    let command = Command::Http {
        url: "http://h/".to_string(),
        method: HttpMethod::Get,
        body: None,
        headers: lines(&["  Name  :  value  "]),
        form: lines(&[]),
    };
    let (params, complaints) = parse_request_params(command);
    assert!(complaints.is_empty());
    match params {
        RequestParams::Http(p) => {
            assert_eq!(p.headers.len(), 1);
            assert_eq!(p.header("Name").unwrap(), "value");
            assert_eq!(p.header("name"), Some("value".to_string()));
            assert_eq!(p.header("Other"), None);
        }
        _ => panic!("not the parameters of an HTTP run"),
    }
}

#[test]
fn padding_changes_no_parameters() {
    let read = |header: &str, form: &str| {
        let command = Command::Http {
            url: "http://h/".to_string(),
            method: HttpMethod::Get,
            body: None,
            headers: lines(&[header]),
            form: lines(&[form]),
        };
        match parse_request_params(command) {
            (RequestParams::Http(p), complaints) => {
                assert!(complaints.is_empty());
                (
                    p.headers.entries()[0].0.clone(),
                    p.headers.entries()[0].1.clone(),
                    p.form.name_at(0).to_string(),
                    p.form.value_at(0).to_string(),
                    p.headers.len(),
                    p.form.len(),
                )
            }
            _ => panic!("not the parameters of an HTTP run"),
        }
    };
    assert_eq!(read(" \t X-Token  :   a b  ", "  k \u{a0}=  v w "), read("X-Token:a b", "k=v w"));
    assert_eq!(
        read("X-Token:a b", "k=v w"),
        ("x-token".to_string(), "a b".to_string(), "k".to_string(), "v w".to_string(), 1, 1)
    );
}

#[test]
fn very_many_header_lines_are_all_read() {
    let many: Vec<String> = (0..4_096).map(|i| format!("X-{}: {}", i, i)).collect();
    let command = Command::Http {
        url: "http://h/".to_string(),
        method: HttpMethod::Get,
        body: None,
        headers: many,
        form: lines(&[]),
    };
    let (params, complaints) = parse_request_params(command);
    assert!(complaints.is_empty());
    match params {
        RequestParams::Http(p) => {
            assert_eq!(p.headers.len(), 4_096);
            assert_eq!(p.header("x-0"), Some("0".to_string()));
            assert_eq!(p.header("X-4095"), Some("4095".to_string()));
            assert_eq!(p.headers.entries()[17], ("x-17".to_string(), "17".to_string()));
        }
        _ => panic!("not the parameters of an HTTP run"),
    }
}

use qwest::config::{Api, ProjectConfig, Request, Scenario, Script};
use qwest::protocol::{Action, Event, HttpCall, Notice, RunError};
use qwest::request::{prepare_call, record_response};
use qwest::runner::{run_route, Runner};
use qwest::storage::{load_variables, set_variable, VariableStore};
use qwest::vars::Vars;

/// A server that answers from a table of (method, url, status, body) and
/// records the calls it gets.
struct Server {
    routes: Vec<(String, String, u16, String)>,
    calls: Vec<HttpCall>,
}

impl Server {
    fn new(base: &str, routes: &[(&str, &str, u16, &str)]) -> Server {
        Server {
            routes: routes
                .iter()
                .map(|(m, p, s, b)| (m.to_string(), format!("{}{}", base, p), *s, b.to_string()))
                .collect(),
            calls: Vec::new(),
        }
    }

    fn answer(&mut self, call: HttpCall) -> Event {
        let found = self
            .routes
            .iter()
            .find(|(m, u, _, _)| *m == call.method && *u == call.url)
            .map(|(_, _, s, b)| (*s, b.clone()));
        self.calls.push(call);
        match found {
            Some((status, body)) => Event::Response { status, body },
            None => Event::Failed("connection refused".to_string()),
        }
    }

    fn hits(&self, url: &str) -> usize {
        self.calls.iter().filter(|c| c.url == url).count()
    }
}

/// Runs to the end: calls go to `server`, variables to `store`, notices are
/// collected.
fn drive(
    runner: &mut Runner,
    server: &mut Server,
    store: &mut VariableStore,
) -> (Vec<String>, Result<(), RunError>) {
    let mut notices = Vec::new();
    let mut action = runner.advance(Event::Resume);
    loop {
        let event = match action {
            Action::Announce(Notice::Request(name)) => {
                notices.push(format!("==> {}", name));
                Event::Resume
            }
            Action::Announce(Notice::Script(text)) => {
                notices.push(format!(">> {}", text));
                Event::Resume
            }
            Action::Persist(v) => {
                set_variable(store, &v.label, &v.value, v.project.as_deref());
                Event::Resume
            }
            Action::Send(call) => server.answer(call),
            Action::Finish => return (notices, Ok(())),
            Action::Fail(error) => return (notices, Err(error)),
            Action::Evaluate { .. } => unreachable!(),
        };
        action = runner.advance(event);
    }
}

fn request(name: &str, method: &str, path: &str) -> Request {
    Request {
        name: name.into(),
        method: method.into(),
        path: path.into(),
        headers: None,
        body: None,
        scripts: vec![],
    }
}

const BASE: &str = "http://127.0.0.1:5000";

#[test]
fn run_single_request_get() {
    let mut server = Server::new(BASE, &[("GET", "/docs", 200, r#"{"message":"ok"}"#)]);

    let api = Api {
        name: "test".into(),
        base_url: BASE.into(),
        scenarios: vec![],
    };

    let req = Request {
        name: "docs".into(),
        method: "GET".into(),
        path: "/docs".into(),
        headers: None,
        body: None,
        scripts: vec![],
    };

    let cfg = ProjectConfig {
        api,
        requests: vec![req],
    };

    let mut store = VariableStore::new();

    let vars = Vars::new();
    let mut runner = run_route(&cfg, "docs", vars);
    let (_, outcome) = drive(&mut runner, &mut server, &mut store);
    outcome.unwrap();

    // ensure it was called
    assert_eq!(server.hits("http://127.0.0.1:5000/docs"), 1);
}

#[test]
fn run_scenario_multiple_requests() {
    let mut server = Server::new(BASE, &[("GET", "/a", 200, "A"), ("GET", "/b", 200, "B")]);

    let scenarios = vec![Scenario {
        name: "scenario1".into(),
        requests: vec!["first".into(), "second".into()],
    }];

    let api = Api {
        name: "test".into(),
        base_url: BASE.into(),
        scenarios,
    };

    let r1 = Request {
        name: "first".into(),
        method: "GET".into(),
        path: "/a".into(),
        headers: None,
        body: None,
        scripts: vec![],
    };

    let r2 = Request {
        name: "second".into(),
        method: "GET".into(),
        path: "/b".into(),
        headers: None,
        body: None,
        scripts: vec![],
    };

    let cfg = ProjectConfig {
        api,
        requests: vec![r1, r2],
    };

    let mut store = VariableStore::new();

    let vars = Vars::new();
    let mut runner = run_route(&cfg, "scenario1", vars);
    let (_, outcome) = drive(&mut runner, &mut server, &mut store);
    outcome.unwrap();

    assert_eq!(server.hits("http://127.0.0.1:5000/a"), 1);
    assert_eq!(server.hits("http://127.0.0.1:5000/b"), 1);
}

#[test]
fn a_flow_calls_its_requests_in_order_and_keeps_the_last_response() {
    let mut server = Server::new(BASE, &[("GET", "/a", 200, "A"), ("GET", "/b", 200, "B")]);
    let cfg = ProjectConfig {
        api: Api {
            name: "test".into(),
            base_url: BASE.into(),
            scenarios: vec![Scenario {
                name: "flow".into(),
                requests: vec!["first".into(), "second".into()],
            }],
        },
        requests: vec![request("first", "GET", "/a"), request("second", "GET", "/b")],
    };
    let mut store = VariableStore::new();
    let mut runner = run_route(&cfg, "flow", Vars::new());
    let (notices, outcome) = drive(&mut runner, &mut server, &mut store);
    outcome.unwrap();

    assert!(runner.is_done());
    assert_eq!(notices, vec!["==> first", "==> second"]);
    let urls: Vec<&str> = server.calls.iter().map(|c| c.url.as_str()).collect();
    assert_eq!(urls, vec!["http://127.0.0.1:5000/a", "http://127.0.0.1:5000/b"]);
    assert_eq!(runner.vars().get("response_body").unwrap(), "B");
    assert_eq!(runner.vars().get("response_status").unwrap(), "200");
    assert_eq!(runner.vars().len(), 2);
}

#[test]
fn a_request_wins_over_a_scenario_of_the_same_name() {
    let mut server = Server::new(BASE, &[("GET", "/a", 200, "A"), ("GET", "/b", 200, "B")]);
    let cfg = ProjectConfig {
        api: Api {
            name: "test".into(),
            base_url: BASE.into(),
            scenarios: vec![Scenario {
                name: "first".into(),
                requests: vec!["second".into(), "second".into()],
            }],
        },
        requests: vec![request("first", "GET", "/a"), request("second", "GET", "/b")],
    };
    let mut store = VariableStore::new();
    let mut runner = run_route(&cfg, "first", Vars::new());
    let (_, outcome) = drive(&mut runner, &mut server, &mut store);
    outcome.unwrap();
    assert_eq!(server.calls.len(), 1);
    assert_eq!(server.calls[0].url, "http://127.0.0.1:5000/a");
}

#[test]
fn an_unknown_route_fails_at_once() {
    let mut server = Server::new(BASE, &[]);
    let cfg = ProjectConfig {
        api: Api { name: "test".into(), base_url: BASE.into(), scenarios: vec![] },
        requests: vec![request("first", "GET", "/a")],
    };
    let mut store = VariableStore::new();
    let mut runner = run_route(&cfg, "nowhere", Vars::new());
    let (notices, outcome) = drive(&mut runner, &mut server, &mut store);
    match outcome {
        Err(RunError::UnknownRoute { route }) => assert_eq!(route, "nowhere"),
        other => panic!("expected an unknown route, got {:?}", other),
    }
    assert!(notices.is_empty());
    assert!(server.calls.is_empty());
    assert!(!runner.is_done());
    assert!(matches!(runner.step(Event::Resume), Action::Fail(RunError::OutOfTurn)));
}

#[test]
fn a_missing_first_request_fails_before_any_call() {
    let mut server = Server::new(BASE, &[("GET", "/a", 200, "A")]);
    let cfg = ProjectConfig {
        api: Api {
            name: "test".into(),
            base_url: BASE.into(),
            scenarios: vec![Scenario {
                name: "flow".into(),
                requests: vec!["ghost".into(), "first".into()],
            }],
        },
        requests: vec![request("first", "GET", "/a")],
    };
    let mut store = VariableStore::new();
    let mut runner = run_route(&cfg, "flow", Vars::new());
    let (_, outcome) = drive(&mut runner, &mut server, &mut store);
    match outcome {
        Err(RunError::MissingRequest { name }) => assert_eq!(name, "ghost"),
        other => panic!("expected a missing request, got {:?}", other),
    }
    assert!(server.calls.is_empty());
}

#[test]
fn a_missing_later_request_fails_after_the_earlier_calls() {
    let mut server = Server::new(BASE, &[("GET", "/a", 200, "A")]);
    let cfg = ProjectConfig {
        api: Api {
            name: "test".into(),
            base_url: BASE.into(),
            scenarios: vec![Scenario {
                name: "flow".into(),
                requests: vec!["first".into(), "ghost".into(), "first".into()],
            }],
        },
        requests: vec![request("first", "GET", "/a")],
    };
    let mut store = VariableStore::new();
    let mut runner = run_route(&cfg, "flow", Vars::new());
    let (_, outcome) = drive(&mut runner, &mut server, &mut store);
    match outcome {
        Err(RunError::MissingRequest { name }) => assert_eq!(name, "ghost"),
        other => panic!("expected a missing request, got {:?}", other),
    }
    assert_eq!(server.calls.len(), 1);
}

#[test]
fn an_empty_scenario_is_done_at_once() {
    let mut server = Server::new(BASE, &[]);
    let cfg = ProjectConfig {
        api: Api {
            name: "test".into(),
            base_url: BASE.into(),
            scenarios: vec![Scenario { name: "nothing".into(), requests: vec![] }],
        },
        requests: vec![],
    };
    let mut store = VariableStore::new();
    let mut runner = run_route(&cfg, "nothing", Vars::new());
    let (notices, outcome) = drive(&mut runner, &mut server, &mut store);
    outcome.unwrap();
    assert!(notices.is_empty());
    assert!(runner.is_done());
    assert!(matches!(runner.step(Event::Resume), Action::Finish));
}

#[test]
fn what_one_request_sets_the_next_one_sees() {
    let mut server = Server::new(
        BASE,
        &[("POST", "/login", 201, "tok-1"), ("GET", "/items/tok-1/201", 200, "[]")],
    );
    let login = Request {
        name: "login".into(),
        method: "POST".into(),
        path: "/login".into(),
        headers: Some(r#"{"X-User": "${user}", "X-Try": 1}"#.into()),
        body: Some(r#"{"user":"${user}","pass":"${pass}"}"#.into()),
        scripts: vec![
            Script {
                before: true,
                script: r#"#{ pass: user + "-secret" }"#.into(),
                description: Some("Derive the password".into()),
            },
            Script {
                before: false,
                script: "#{ token: response_body, code: response_status }".into(),
                description: None,
            },
        ],
    };
    let items = Request {
        name: "items".into(),
        method: "GET".into(),
        path: "/items/${token}/${code}".into(),
        headers: Some(r#"{"Authorization": "Bearer ${token}"}"#.into()),
        body: None,
        scripts: vec![Script {
            before: true,
            script: r#"#{ seen: token + "/" + pass }"#.into(),
            description: None,
        }],
    };
    let cfg = ProjectConfig {
        api: Api {
            name: "shop".into(),
            base_url: BASE.into(),
            scenarios: vec![Scenario {
                name: "browse".into(),
                requests: vec!["login".into(), "items".into()],
            }],
        },
        requests: vec![items, login],
    };
    let mut vars = Vars::new();
    vars.insert("user".into(), "enzo".into());
    let mut store = VariableStore::new();
    let mut runner = run_route(&cfg, "browse", vars);
    let (notices, outcome) = drive(&mut runner, &mut server, &mut store);
    outcome.unwrap();

    assert_eq!(notices, vec!["==> login", ">> Derive the password", "==> items"]);
    assert_eq!(server.calls.len(), 2);

    let first = &server.calls[0];
    assert_eq!(first.method, "POST");
    assert_eq!(first.url, "http://127.0.0.1:5000/login");
    assert_eq!(
        first.headers,
        vec![("X-Try".to_string(), "1".to_string()), ("X-User".to_string(), "enzo".to_string())]
    );
    assert_eq!(first.body.as_deref(), Some(r#"{"user":"enzo","pass":"enzo-secret"}"#));

    let second = &server.calls[1];
    assert_eq!(second.url, "http://127.0.0.1:5000/items/tok-1/201");
    assert_eq!(second.headers, vec![("Authorization".to_string(), "Bearer tok-1".to_string())]);
    assert_eq!(second.body, None);

    assert_eq!(runner.vars().get("seen").unwrap(), "tok-1/enzo-secret");
    assert_eq!(runner.vars().get("response_body").unwrap(), "[]");
    assert_eq!(runner.vars().get("response_status").unwrap(), "200");

    let (global, shop) = load_variables(&store, "shop");
    assert!(global.is_empty());
    let labels: Vec<&str> = shop.iter().map(|v| v.label.as_str()).collect();
    assert_eq!(labels, vec!["pass", "code", "token", "seen"]);
    assert_eq!(shop[2].value, "tok-1");
}

#[test]
fn a_response_is_recorded_whatever_its_status() {
    let mut server = Server::new(BASE, &[("GET", "/a", 503, "down")]);
    let cfg = ProjectConfig {
        api: Api { name: "test".into(), base_url: BASE.into(), scenarios: vec![] },
        requests: vec![request("first", "GET", "/a")],
    };
    let mut store = VariableStore::new();
    let mut runner = run_route(&cfg, "first", Vars::new());
    let (_, outcome) = drive(&mut runner, &mut server, &mut store);
    outcome.unwrap();
    assert_eq!(runner.vars().get("response_body").unwrap(), "down");
    assert_eq!(runner.vars().get("response_status").unwrap(), "503");
}

#[test]
fn a_failed_call_aborts_the_run() {
    let mut server = Server::new(BASE, &[("GET", "/a", 200, "A")]);
    let cfg = ProjectConfig {
        api: Api {
            name: "test".into(),
            base_url: BASE.into(),
            scenarios: vec![Scenario {
                name: "flow".into(),
                requests: vec!["first".into(), "second".into(), "first".into()],
            }],
        },
        requests: vec![request("first", "GET", "/a"), request("second", "GET", "/nowhere")],
    };
    let mut store = VariableStore::new();
    let mut runner = run_route(&cfg, "flow", Vars::new());
    let (_, outcome) = drive(&mut runner, &mut server, &mut store);
    match outcome {
        Err(RunError::Transport { request, message }) => {
            assert_eq!(request, "second");
            assert_eq!(message, "connection refused");
        }
        other => panic!("expected a transport failure, got {:?}", other),
    }
    assert_eq!(server.calls.len(), 2);
    assert_eq!(runner.vars().get("response_body").unwrap(), "A");
}

#[test]
fn a_failing_script_aborts_before_the_call() {
    let mut server = Server::new(BASE, &[("GET", "/a", 200, "A")]);
    let mut first = request("first", "GET", "/a");
    first.scripts = vec![
        Script { before: true, script: "#{ kept: 1 }".into(), description: None },
        Script { before: true, script: "nothing + 1".into(), description: Some("Add".into()) },
    ];
    let cfg = ProjectConfig {
        api: Api { name: "test".into(), base_url: BASE.into(), scenarios: vec![] },
        requests: vec![first],
    };
    let mut store = VariableStore::new();
    let mut runner = run_route(&cfg, "first", Vars::new());
    let (_, outcome) = drive(&mut runner, &mut server, &mut store);
    match outcome {
        Err(RunError::Script { description, .. }) => assert_eq!(description.as_deref(), Some("Add")),
        other => panic!("expected a script failure, got {:?}", other),
    }
    assert!(server.calls.is_empty());
    // what was persisted before the failure stays
    assert_eq!(store.len(), 1);
}

#[test]
fn prepare_call_renders_every_part() {
    let api = Api { name: "n".into(), base_url: "http://h/${v}".into(), scenarios: vec![] };
    let req = Request {
        name: "r".into(),
        method: "PATCH".into(),
        path: "/p/${id}?q=${missing}".into(),
        headers: Some(r#"{"b": "${id}", "a": [1, "x"], "c": null, "d": true, "e": 1.5}"#.into()),
        body: Some("id=${id}".into()),
        scripts: vec![],
    };
    let mut vars = Vars::new();
    vars.insert("v".into(), "1".into());
    vars.insert("id".into(), "42".into());
    let call = prepare_call(&api, &req, &vars).unwrap();
    assert_eq!(call.method, "PATCH");
    assert_eq!(call.url, "http://h/1/p/42?q=${missing}");
    let expected: Vec<(String, String)> =
        [("a", r#"[1,"x"]"#), ("b", "42"), ("c", "null"), ("d", "true"), ("e", "1.5")]
            .iter()
            .map(|(k, v)| (k.to_string(), v.to_string()))
            .collect();
    assert_eq!(call.headers, expected);
    assert_eq!(call.body.as_deref(), Some("id=42"));
}

#[test]
fn prepare_call_refuses_bad_methods_and_headers() {
    let api = Api { name: "n".into(), base_url: "http://h".into(), scenarios: vec![] };
    let vars = Vars::new();

    for bad in ["", "GE T", "GET\n", "G(T", "GÉT"] {
        let req = request("r", bad, "/");
        match prepare_call(&api, &req, &vars) {
            Err(RunError::Method { request, method }) => {
                assert_eq!(request, "r");
                assert_eq!(method, bad);
            }
            other => panic!("expected a method error for {:?}, got {:?}", bad, other),
        }
    }
    for good in ["GET", "get", "PURGE", "M-SEARCH", "a!#$%&'*+-.^_`|~9", "AVERYLONGMETHODNAMEINDEED"] {
        let req = request("r", good, "/");
        assert_eq!(prepare_call(&api, &req, &vars).unwrap().method, good);
    }

    for bad in ["", "not json", "[1, 2]", "\"text\"", "{\"a\": }", "{\"a\": 1} x", "7"] {
        let mut req = request("r", "GET", "/");
        req.headers = Some(bad.into());
        match prepare_call(&api, &req, &vars) {
            Err(RunError::HeaderFormat { request }) => assert_eq!(request, "r"),
            other => panic!("expected a header error for {:?}, got {:?}", bad, other),
        }
    }
    let mut req = request("r", "GET", "/");
    req.headers = Some(" { } ".into());
    assert!(prepare_call(&api, &req, &vars).unwrap().headers.is_empty());

    // the method is looked at before the headers
    let mut req = request("r", "", "/");
    req.headers = Some("nope".into());
    assert!(matches!(prepare_call(&api, &req, &vars), Err(RunError::Method { .. })));
}

#[test]
fn record_response_writes_the_reserved_names() {
    let mut vars = Vars::new();
    vars.insert("response_body".into(), "old".into());
    vars.insert("other".into(), "kept".into());
    record_response(&mut vars, 0, "".into());
    assert_eq!(vars.get("response_status").unwrap(), "0");
    assert_eq!(vars.get("response_body").unwrap(), "");
    for (status, text) in [(7u16, "7"), (10, "10"), (404, "404"), (1000, "1000"), (65535, "65535")] {
        record_response(&mut vars, status, "body".into());
        assert_eq!(vars.get("response_status").unwrap(), text);
    }
    assert_eq!(vars.get("response_body").unwrap(), "body");
    assert_eq!(vars.get("other").unwrap(), "kept");
    assert_eq!(vars.len(), 3);
}

#[test]
fn step_asks_the_driver_to_evaluate() {
    let mut first = request("first", "GET", "/a");
    first.scripts =
        vec![Script { before: true, script: "#{ a: 1 }".into(), description: None }];
    let cfg = ProjectConfig {
        api: Api { name: "test".into(), base_url: BASE.into(), scenarios: vec![] },
        requests: vec![first],
    };
    let mut vars = Vars::new();
    vars.insert("x".into(), "y".into());
    let mut runner = run_route(&cfg, "first", vars);
    assert!(matches!(
        runner.step(Event::Resume),
        Action::Announce(Notice::Request(name)) if name == "first"
    ));
    match runner.step(Event::Resume) {
        Action::Evaluate { source, bindings } => {
            assert_eq!(source, "#{ a: 1 }");
            assert_eq!(bindings.get("x").unwrap(), "y");
        }
        other => panic!("expected an evaluation, got {:?}", other),
    }
    // a call is not what was asked for
    assert!(matches!(
        runner.step(Event::Response { status: 200, body: "".into() }),
        Action::Fail(RunError::OutOfTurn)
    ));
}

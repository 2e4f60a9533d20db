use cgi_server::env_map::EnvMap;
use cgi_server::server::{
    build_env, effective_root, get_host_port, path_info, rejects_chunked, working_dir,
    chunked_rejection, spawn_error_response, HeaderField, RequestInfo, Script,
};

fn script(root: &str) -> Script {
    Script {
        path: "/usr/lib/cgi-bin/test-cgi".to_string(),
        root: root.to_string(),
        dir: None,
        env: Vec::new(),
        args: Vec::new(),
        inherited_env: Vec::new(),
    }
}

fn header(name: &str, values: &[&str]) -> HeaderField {
    HeaderField {
        name: name.to_string(),
        values: values.iter().map(|v| Some(v.to_string())).collect(),
    }
}

fn request(headers: Vec<HeaderField>) -> RequestInfo {
    RequestInfo {
        method: "GET".to_string(),
        path: "/".to_string(),
        query: None,
        request_uri: Some("/".to_string()),
        headers,
        remote_addr: "127.0.0.1".to_string(),
        remote_port: 4321,
    }
}

fn value(env: &EnvMap, key: &str) -> Option<String> {
    env.get(&key.to_string()).cloned()
}

fn build(script: &Script, req: &RequestInfo) -> EnvMap {
    build_env(script, req, &Vec::new(), &Vec::new())
}

#[test]
fn env_fixed_metadata() {
    let env = build(&script(""), &request(Vec::new()));
    assert_eq!(value(&env, "SERVER_SOFTWARE").unwrap(), "cgi-server-rs");
    assert_eq!(value(&env, "SERVER_PROTOCOL").unwrap(), "HTTP/1.1");
    assert_eq!(value(&env, "GATEWAY_INTERFACE").unwrap(), "CGI/1.1");
    assert_eq!(value(&env, "REQUEST_METHOD").unwrap(), "GET");
    assert_eq!(value(&env, "SCRIPT_NAME").unwrap(), "/");
    assert_eq!(value(&env, "PATH_INFO").unwrap(), "/");
    assert_eq!(value(&env, "SCRIPT_FILENAME").unwrap(), "/usr/lib/cgi-bin/test-cgi");
    assert_eq!(value(&env, "REMOTE_ADDR").unwrap(), "127.0.0.1");
    assert_eq!(value(&env, "REMOTE_HOST").unwrap(), "127.0.0.1");
    assert_eq!(value(&env, "REMOTE_PORT").unwrap(), "4321");
}

#[test]
fn env_host_with_port() {
    let env = build(&script(""), &request(vec![header("host", &["example:8080"])]));
    assert_eq!(value(&env, "HTTP_HOST").unwrap(), "example:8080");
    assert_eq!(value(&env, "SERVER_NAME").unwrap(), "example");
    assert_eq!(value(&env, "SERVER_PORT").unwrap(), "8080");
}

#[test]
fn env_host_without_port() {
    let env = build(&script(""), &request(vec![header("host", &["example"])]));
    assert_eq!(value(&env, "SERVER_NAME").unwrap(), "example");
    assert_eq!(value(&env, "SERVER_PORT").unwrap(), "80");
}

#[test]
fn env_host_bad_port_falls_back() {
    let env = build(&script(""), &request(vec![header("host", &["example:x"])]));
    assert_eq!(value(&env, "SERVER_NAME").unwrap(), "example:x");
    assert_eq!(value(&env, "SERVER_PORT").unwrap(), "80");
}

#[test]
fn get_host_port_shapes() {
    assert_eq!(get_host_port("example:8080"), Some(("example".to_string(), 8080)));
    assert_eq!(get_host_port("a:b:c"), None);
    assert_eq!(get_host_port("example"), None);
    assert_eq!(get_host_port("x:70000"), None);
    assert_eq!(get_host_port("x:"), None);
    assert_eq!(get_host_port(":80"), Some(("".to_string(), 80)));
}

#[test]
fn env_proxy_header_dropped() {
    let env = build(&script(""), &request(vec![header("proxy", &["evil"])]));
    assert!(value(&env, "HTTP_PROXY").is_none());
}

#[test]
fn env_cookie_joined_with_semicolon() {
    let env = build(
        &script(""),
        &request(vec![header("cookie", &["a=1", "b=2"]), header("accept", &["text/html", "text/plain"])]),
    );
    assert_eq!(value(&env, "HTTP_COOKIE").unwrap(), "a=1;b=2");
    assert_eq!(value(&env, "HTTP_ACCEPT").unwrap(), "text/html,text/plain");
}

#[test]
fn env_content_length_canonical() {
    let env = build(&script(""), &request(vec![header("content-length", &["+007"])]));
    assert_eq!(value(&env, "CONTENT_LENGTH").unwrap(), "7");
    let env = build(&script(""), &request(vec![header("content-length", &["abc"])]));
    assert!(value(&env, "CONTENT_LENGTH").is_none());
    let env = build(&script(""), &request(vec![header("content-length", &["5"])]));
    assert_eq!(value(&env, "CONTENT_LENGTH").unwrap(), "5");
}

#[test]
fn env_content_type_nonempty_only() {
    let env = build(&script(""), &request(vec![header("content-type", &[""])]));
    assert!(value(&env, "CONTENT_TYPE").is_none());
    let env = build(&script(""), &request(vec![header("content-type", &["text/plain"])]));
    assert_eq!(value(&env, "CONTENT_TYPE").unwrap(), "text/plain");
}

#[test]
fn env_path_fallback_and_host_path() {
    let env = build(&script(""), &request(Vec::new()));
    assert_eq!(
        value(&env, "PATH").unwrap(),
        "/bin:/usr/bin:/usr/ucb:/usr/bsd:/usr/local/bin"
    );
    let host_env = vec![("PATH".to_string(), "/opt/bin".to_string())];
    let env = build_env(&script(""), &request(Vec::new()), &host_env, &Vec::new());
    assert_eq!(value(&env, "PATH").unwrap(), "/opt/bin");
    let host_env = vec![("PATH".to_string(), "".to_string())];
    let env = build_env(&script(""), &request(Vec::new()), &host_env, &Vec::new());
    assert_eq!(
        value(&env, "PATH").unwrap(),
        "/bin:/usr/bin:/usr/ucb:/usr/bsd:/usr/local/bin"
    );
}

#[test]
fn env_inherited_and_loader_vars() {
    let mut s = script("");
    s.inherited_env = vec!["HOME".to_string(), "EMPTY".to_string(), "MISSING".to_string()];
    let host_env = vec![
        ("HOME".to_string(), "/root".to_string()),
        ("EMPTY".to_string(), "".to_string()),
        ("LD_LIBRARY_PATH".to_string(), "/lib64".to_string()),
    ];
    let loader = vec!["LD_LIBRARY_PATH".to_string()];
    let env = build_env(&s, &request(Vec::new()), &host_env, &loader);
    assert_eq!(value(&env, "HOME").unwrap(), "/root");
    assert!(value(&env, "EMPTY").is_none());
    assert!(value(&env, "MISSING").is_none());
    assert_eq!(value(&env, "LD_LIBRARY_PATH").unwrap(), "/lib64");
}

#[test]
fn env_script_pairs_override_everything() {
    let mut s = script("");
    s.env = vec![("SERVER_SOFTWARE".to_string(), "custom".to_string())];
    let env = build(&s, &request(Vec::new()));
    assert_eq!(value(&env, "SERVER_SOFTWARE").unwrap(), "custom");
}

#[test]
fn env_keys_are_unique() {
    let env = build(
        &script(""),
        &request(vec![header("host", &["example:8080"]), header("cookie", &["a=1"])]),
    );
    let entries = env.entries();
    for i in 0..entries.len() {
        for j in 0..entries.len() {
            if i != j {
                assert_ne!(entries[i].0, entries[j].0);
            }
        }
    }
}

#[test]
fn path_info_strips_root() {
    assert_eq!(effective_root(&"".to_string()), "/");
    assert_eq!(effective_root(&"/app".to_string()), "/app");
    assert_eq!(path_info(&"/app".to_string(), &"/app/foo".to_string()), "/foo");
    assert_eq!(path_info(&"/".to_string(), &"/foo".to_string()), "/foo");
    assert_eq!(path_info(&"/app".to_string(), &"/other".to_string()), "/other");
}

#[test]
fn env_root_prefix() {
    let mut s = script("/app");
    s.root = "/app".to_string();
    let mut req = request(Vec::new());
    req.path = "/app/run".to_string();
    let env = build(&s, &req);
    assert_eq!(value(&env, "SCRIPT_NAME").unwrap(), "/app");
    assert_eq!(value(&env, "PATH_INFO").unwrap(), "/run");
}

#[test]
fn env_query_and_request_uri() {
    let mut req = request(Vec::new());
    req.query = Some("a=1&b=2".to_string());
    req.request_uri = Some("/x?a=1&b=2".to_string());
    let env = build(&script(""), &req);
    assert_eq!(value(&env, "QUERY_STRING").unwrap(), "a=1&b=2");
    assert_eq!(value(&env, "REQUEST_URI").unwrap(), "/x?a=1&b=2");
}

#[test]
fn working_dir_choice() {
    let mut s = script("");
    s.dir = Some("/srv/run".to_string());
    assert_eq!(working_dir(&s), "/srv/run");
    let mut s = script("");
    s.path = "/usr/bin/tool".to_string();
    assert_eq!(working_dir(&s), "/usr/bin");
    s.path = "tool".to_string();
    assert_eq!(working_dir(&s), ".");
}

#[test]
fn chunked_requests_are_refused() {
    assert!(rejects_chunked(&vec![header("transfer-encoding", &["chunked"])]));
    assert!(!rejects_chunked(&vec![header("transfer-encoding", &["gzip"])]));
    assert!(!rejects_chunked(&Vec::new()));
    let (code, body) = chunked_rejection();
    assert_eq!(code, 400);
    assert_eq!(body, "Chunked encoding is not supported by CGI.");
}

#[test]
fn spawn_error_names_path_and_cause() {
    let (code, body) = spawn_error_response(&"/srv/x".to_string(), &"denied".to_string());
    assert_eq!(code, 500);
    assert_eq!(body, "Cannot run cgi executable /srv/x with error: denied");
}

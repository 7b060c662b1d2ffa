use http_server_rs::auth::authorize;
use http_server_rs::auth::judge;
use http_server_rs::auth::Verdict;
use http_server_rs::b64::decode_bytes;
use http_server_rs::b64::decode_string;
use http_server_rs::b64::encode;
use http_server_rs::b64::text_of_decoded;
use http_server_rs::b64::DecodeError;
use http_server_rs::broadcast::BroadcastChannel;
use http_server_rs::compress::brotli;
use http_server_rs::config::add_header;
use http_server_rs::config::add_header_lines;
use http_server_rs::config::parse_credentials;
use http_server_rs::config::CliCommand;
use http_server_rs::config::Config;
use http_server_rs::config::ConfigError;
use http_server_rs::config::Credential;
use http_server_rs::config::HeaderRule;
use http_server_rs::explorer::find;
use http_server_rs::explorer::get_meta_mode;
use http_server_rs::explorer::get_meta_size;
use http_server_rs::explorer::inject;
use http_server_rs::explorer::precedes;
use http_server_rs::explorer::reload_script;
use http_server_rs::explorer::sort_entries;
use http_server_rs::explorer::ListingEntry;
use http_server_rs::handler::LogLine;
use http_server_rs::http1::Header;
use http_server_rs::logger::Logger;
use http_server_rs::logger::LoggerDefault;
use http_server_rs::logger::LoggerNoop;
use http_server_rs::paths::resolve;
use http_server_rs::sse::frame;
use http_server_rs::sse::join_with;
use http_server_rs::text::chars_of;
use http_server_rs::text::catenate;
use http_server_rs::text::decimal;
use http_server_rs::text::find_char;
use http_server_rs::text::same_text;
use http_server_rs::text::same_text_ignoring_case;
use http_server_rs::text::split_once;
use http_server_rs::text::starts_with;
use http_server_rs::text::strip_leading;
use http_server_rs::watcher::coalesce;
use http_server_rs::watcher::ChangeEvent;
use http_server_rs::watcher::EventKind;
use http_server_rs::watcher::RawEvent;
use http_server_rs::watcher::WatcherOptions;
use http_server_rs::watcher::DEBOUNCE_MILLIS;
use std::io::Read;

fn credentials() -> Vec<Credential> {
    vec![
        Credential { username: "user".to_string(), password: "pass".to_string() },
        Credential { username: "admin".to_string(), password: "a:b".to_string() },
    ]
}

fn event(kind: EventKind, paths: &[&str]) -> RawEvent {
    RawEvent { kind, paths: paths.iter().map(|p| p.to_string()).collect() }
}

fn entry(rel_path: &str) -> ListingEntry {
    ListingEntry {
        is_dir: rel_path.ends_with('/'),
        extension: String::new(),
        mode: String::new(),
        modified: String::new(),
        size: String::new(),
        abs_path: format!("/{}", rel_path),
        rel_path: rel_path.to_string(),
    }
}

fn names(entries: Vec<ListingEntry>) -> Vec<String> {
    entries.into_iter().map(|e| e.rel_path).collect()
}

fn command() -> CliCommand {
    CliCommand {
        serve_dir: "./dist".to_string(),
        address: "0.0.0.0".to_string(),
        port: 8080,
        spa: false,
        cache_time: 0,
        compress: false,
        headers: Vec::new(),
        cors: false,
        sab: false,
        quiet: false,
        watch: false,
        watch_dir: None,
        no_watch_inject: false,
        stream_buffer_size: 4000,
        basic_auth: Vec::new(),
    }
}

fn table(config: &Config) -> Vec<(String, Vec<String>)> {
    config.headers.iter().map(|r| (r.name.clone(), r.values.clone())).collect()
}

fn rule(name: &str, values: &[&str]) -> (String, Vec<String>) {
    (name.to_string(), values.iter().map(|v| v.to_string()).collect())
}

#[test]
fn split_once_splits_at_the_first_mark() {
    assert_eq!(split_once("key:value", ':'), Some(("key".to_string(), "value".to_string())));
    assert_eq!(split_once("a:b:c", ':'), Some(("a".to_string(), "b:c".to_string())));
    assert_eq!(split_once(":x", ':'), Some((String::new(), "x".to_string())));
    assert_eq!(split_once("x:", ':'), Some(("x".to_string(), String::new())));
    assert_eq!(split_once("none", ':'), None);
    assert_eq!(split_once("", ':'), None);
    assert_eq!(split_once("é:ü", ':'), Some(("é".to_string(), "ü".to_string())));
}

#[test]
fn text_helpers_agree_with_std() {
    assert_eq!(chars_of("aé"), vec!['a', 'é']);
    assert_eq!(find_char(&vec!['a', 'b', 'a'], 'a'), Some(0));
    assert_eq!(find_char(&vec!['a', 'b', 'a'], 'b'), Some(1));
    assert_eq!(find_char(&vec!['a'], 'z'), None);
    assert!(starts_with(&chars_of("text/html"), &chars_of("text/")));
    assert!(!starts_with(&chars_of("tex"), &chars_of("text/")));
    assert!(starts_with(&chars_of("x"), &chars_of("")));
    assert_eq!(strip_leading("/a/b", '/'), "a/b");
    assert_eq!(strip_leading("//a", '/'), "/a");
    assert_eq!(strip_leading("a/b", '/'), "a/b");
    assert_eq!(strip_leading("", '/'), "");
    assert!(same_text("abc", "abc"));
    assert!(!same_text("abc", "abd"));
    assert!(!same_text("abc", "ab"));
    assert!(same_text_ignoring_case("Content-Type", "content-type"));
    assert!(same_text_ignoring_case("CONTENT-TYPE", "Content-Type"));
    assert!(!same_text_ignoring_case("Content-Type", "Content_Type"));
    assert!(!same_text_ignoring_case("@", "`"));
    assert_eq!(catenate("ab", "cd"), "abcd");
}

#[test]
fn decimal_writes_numerals() {
    assert_eq!(decimal(0), "0");
    assert_eq!(decimal(7), "7");
    assert_eq!(decimal(10), "10");
    assert_eq!(decimal(500_000), "500000");
    assert_eq!(decimal(u64::MAX), "18446744073709551615");
}

#[test]
fn base64_round_trip() {
    assert_eq!(encode("user:pass"), "dXNlcjpwYXNz");
    assert_eq!(encode(""), "");
    assert_eq!(encode("a"), "YQ==");
    assert_eq!(decode_bytes("dXNlcjpwYXNz"), Ok(b"user:pass".to_vec()));
    assert_eq!(decode_bytes("not base64!"), Err(DecodeError::NotBase64));
    assert_eq!(decode_string("dXNlcjpwYXNz"), Ok("user:pass".to_string()));
    assert_eq!(decode_string("YQ"), Err(DecodeError::NotBase64));
    assert_eq!(decode_string("/w=="), Err(DecodeError::NotUtf8));
    assert_eq!(text_of_decoded(None), Err(DecodeError::NotBase64));
    assert_eq!(text_of_decoded(Some(vec![0xff])), Err(DecodeError::NotUtf8));
    assert_eq!(text_of_decoded(Some(b"ok".to_vec())), Ok("ok".to_string()));
}

#[test]
fn verdicts_on_authorization_headers() {
    let none: Vec<Credential> = Vec::new();
    assert_eq!(authorize(&none, None), Verdict::Granted);
    assert_eq!(authorize(&none, Some("garbage")), Verdict::Granted);
    let list = credentials();
    assert_eq!(authorize(&list, None), Verdict::Challenge);
    assert_eq!(authorize(&list, Some("Basic")), Verdict::Challenge);
    assert_eq!(authorize(&list, Some("Basic ???")), Verdict::Challenge);
    assert_eq!(authorize(&list, Some("Basic /w==")), Verdict::Challenge);
    assert_eq!(authorize(&list, Some("Basic bm9jb2xvbg==")), Verdict::Challenge);
    assert_eq!(authorize(&list, Some("Basic dXNlcjpwYXNz")), Verdict::Granted);
    assert_eq!(authorize(&list, Some("Basic dXNlcjp3cm9uZw==")), Verdict::Denied);
    assert_eq!(authorize(&list, Some("Basic bm9ib2R5OnBhc3M=")), Verdict::Denied);
    assert_eq!(authorize(&list, Some("Basic YWRtaW46YTpi")), Verdict::Granted);
}

#[test]
fn verdicts_on_decoded_text() {
    let list = credentials();
    assert_eq!(judge(&list, None), Verdict::Challenge);
    assert_eq!(judge(&list, Some("nocolon")), Verdict::Challenge);
    assert_eq!(judge(&list, Some("user:pass")), Verdict::Granted);
    assert_eq!(judge(&list, Some("user:")), Verdict::Denied);
    assert_eq!(judge(&list, Some(":pass")), Verdict::Denied);
    assert_eq!(judge(&list, Some("admin:a:b")), Verdict::Granted);
    assert_eq!(judge(&list, Some("admin:a")), Verdict::Denied);
    let twice = vec![
        Credential { username: "u".to_string(), password: "first".to_string() },
        Credential { username: "u".to_string(), password: "second".to_string() },
    ];
    assert_eq!(judge(&twice, Some("u:first")), Verdict::Granted);
    assert_eq!(judge(&twice, Some("u:second")), Verdict::Denied);
}

#[test]
fn brotli_output_decompresses_to_the_input() {
    let input = b"hello hello hello hello hello".to_vec();
    let packed = brotli(&input);
    assert_ne!(packed, input);
    let mut unpacked = Vec::new();
    brotli::Decompressor::new(packed.as_slice(), 4096).read_to_end(&mut unpacked).unwrap();
    assert_eq!(unpacked, input);
    let empty = brotli(&[]);
    assert!(!empty.is_empty());
}

#[test]
fn resolve_keeps_paths_inside_the_root() {
    assert_eq!(resolve("/srv/www", "a/b.txt"), Some("/srv/www/a/b.txt".to_string()));
    assert_eq!(resolve("/srv/www", "a/../b.txt"), Some("/srv/www/a/../b.txt".to_string()));
    assert_eq!(resolve("/srv/www", "./a"), Some("/srv/www/./a".to_string()));
    assert_eq!(resolve("/srv/www", "../../etc/passwd"), None);
    assert_eq!(resolve("/srv/www", ".."), None);
    assert_eq!(resolve("/srv/www", "/etc/passwd"), None);
    assert_eq!(resolve("/srv/www", "../www2/x"), None);
    assert_eq!(resolve("/srv/www", "a/../../www/x"), Some("/srv/www/a/../../www/x".to_string()));
}

#[test]
fn find_gives_the_first_place() {
    assert_eq!(find(b"abcabc", b"bc"), Some(1));
    assert_eq!(find(b"abcabc", b"abc"), Some(0));
    assert_eq!(find(b"abcabc", b"cab"), Some(2));
    assert_eq!(find(b"abc", b"abcd"), None);
    assert_eq!(find(b"abc", b"x"), None);
    assert_eq!(find(b"abc", b""), Some(0));
    assert_eq!(find(b"", b""), Some(0));
    assert_eq!(find(b"aab", b"ab"), Some(1));
}

#[test]
fn inject_prefers_head_then_body_then_end() {
    let script = "go()";
    assert_eq!(
        inject(b"<html><head></head><body></body></html>", script),
        b"<html><head>\n<script>go()</script>\n</head><body></body></html>".to_vec()
    );
    assert_eq!(
        inject(b"<body><p>x</p></body>", script),
        b"<body>\n<script>go()</script>\n<p>x</p></body>".to_vec()
    );
    assert_eq!(inject(b"<p>x</p>", script), b"<p>x</p><script>go()</script>".to_vec());
    assert_eq!(inject(b"", script), b"<script>go()</script>".to_vec());
    assert_eq!(
        inject(b"<head><head>", script),
        b"<head>\n<script>go()</script>\n<head>".to_vec()
    );
    assert_eq!(
        inject(b"<body><head>", script),
        b"<body><head>\n<script>go()</script>\n".to_vec()
    );
    assert_eq!(
        inject(b"<head lang=\"en\">", script),
        b"<head lang=\"en\"><script>go()</script>".to_vec()
    );
}

#[test]
fn reload_script_listens_to_the_event_stream() {
    assert!(reload_script().contains("/.http-server-rs/reload"));
    assert!(reload_script().contains("EventSource"));
}

#[test]
fn listing_is_ordered_without_regard_to_case() {
    let sorted = sort_entries(vec![entry("b.txt"), entry("A.txt"), entry("sub/")]);
    assert_eq!(names(sorted), vec!["A.txt", "b.txt", "sub/"]);
}

#[test]
fn listing_order_is_stable_and_complete() {
    assert_eq!(names(sort_entries(Vec::new())), Vec::<String>::new());
    assert_eq!(names(sort_entries(vec![entry("a"), entry("A")])), vec!["a", "A"]);
    assert_eq!(names(sort_entries(vec![entry("A"), entry("a")])), vec!["A", "a"]);
    assert_eq!(
        names(sort_entries(vec![entry("c"), entry("B"), entry("a"), entry("b"), entry("C")])),
        vec!["a", "B", "b", "c", "C"]
    );
    assert_eq!(
        names(sort_entries(vec![entry("ab"), entry("a"), entry("abc"), entry("")])),
        vec!["", "a", "ab", "abc"]
    );
    assert!(precedes(&chars_of("a"), &chars_of("b")));
    assert!(precedes(&chars_of("a"), &chars_of("ab")));
    assert!(!precedes(&chars_of("a"), &chars_of("a")));
    assert!(!precedes(&chars_of("b"), &chars_of("a")));
    assert!(precedes(&chars_of("z"), &chars_of("é")));
}

#[test]
fn sizes_and_modes_as_a_listing_shows_them() {
    assert_eq!(get_meta_size(0), "0 b ");
    assert_eq!(get_meta_size(999), "999 b ");
    assert_eq!(get_meta_size(1000), "1 kb");
    assert_eq!(get_meta_size(1999), "1 kb");
    assert_eq!(get_meta_size(1_500_000), "1500 kb");
    assert_eq!(get_meta_mode(0o100644), "-rw-r--r--");
    assert_eq!(get_meta_mode(0o040755), "drwxr-xr-x");
}

#[test]
fn burst_of_raw_events_becomes_one_batch() {
    let events = vec![
        event(EventKind::Modify, &["a.txt"]),
        event(EventKind::Modify, &["b.txt"]),
        event(EventKind::Modify, &["a.txt"]),
    ];
    let change = coalesce(&events).unwrap();
    assert_eq!(change.len(), 2);
    let mut paths = change.paths().clone();
    assert_eq!(paths, vec!["a.txt".to_string(), "b.txt".to_string()]);
    paths.sort();
    paths.dedup();
    assert_eq!(paths.len(), 2);
    assert_eq!(DEBOUNCE_MILLIS, 1000);
}

#[test]
fn only_changes_count() {
    let events = vec![
        event(EventKind::Create, &["x"]),
        event(EventKind::Access, &["y"]),
        event(EventKind::Remove, &["z", "x"]),
        event(EventKind::Any, &["w"]),
        event(EventKind::Other, &["v"]),
    ];
    let change = coalesce(&events).unwrap();
    assert_eq!(change.paths(), &vec!["z".to_string(), "x".to_string()]);
    assert!(coalesce(&Vec::new()).is_none());
    assert!(coalesce(&vec![event(EventKind::Access, &["y"])]).is_none());
    assert!(coalesce(&vec![event(EventKind::Modify, &[])]).is_none());
    let copy: ChangeEvent = change.clone();
    assert_eq!(copy.paths(), change.paths());
}

#[test]
fn frame_joins_paths_with_commas() {
    let one = coalesce(&vec![event(EventKind::Modify, &["/srv/www/a.txt"])]).unwrap();
    assert_eq!(frame(&one), "data:/srv/www/a.txt\n\n");
    let two = coalesce(&vec![event(EventKind::Modify, &["/b", "/a"])]).unwrap();
    assert_eq!(frame(&two), "data:/b,/a\n\n");
    assert_eq!(join_with(&Vec::new(), ","), "");
    assert_eq!(join_with(&vec!["a".to_string(), "".to_string(), "c".to_string()], ", "), "a, , c");
}

#[test]
fn two_clients_then_one() {
    let mut bus: BroadcastChannel<ChangeEvent> = BroadcastChannel::new();
    let mut first = bus.subscribe().unwrap().into_receiver();
    let mut second = bus.subscribe().unwrap().into_receiver();
    let edit = coalesce(&vec![event(EventKind::Modify, &["/srv/www/index.html"])]).unwrap();
    assert_eq!(bus.send(&edit), vec![true, true]);
    let seen = first.try_recv().unwrap();
    assert_eq!(frame(&seen), "data:/srv/www/index.html\n\n");
    let seen = second.try_recv().unwrap();
    assert_eq!(frame(&seen), "data:/srv/www/index.html\n\n");
    drop(second);
    let edit = coalesce(&vec![event(EventKind::Modify, &["/srv/www/app.js"])]).unwrap();
    assert_eq!(bus.send(&edit), vec![true, false]);
    assert_eq!(bus.subscriber_count(), 1);
    let seen = first.try_recv().unwrap();
    assert_eq!(frame(&seen), "data:/srv/www/app.js\n\n");
    assert!(first.try_recv().is_err());
}

#[test]
fn configuration_from_defaults() {
    let config = Config::from_cli(command(), "/home/u/project").unwrap();
    assert_eq!(config.serve_dir_abs, "/home/u/project/dist");
    assert_eq!(config.serve_dir_fmt, "./dist");
    assert_eq!(config.watch_dir, "/home/u/project/dist");
    assert_eq!(config.domain, "0.0.0.0:8080");
    assert_eq!(config.domain_pretty, "127.0.0.1:8080");
    assert_eq!(config.port, 8080);
    assert_eq!(config.stream_buffer_size, 4000);
    assert!(config.basic_auth.is_empty());
    assert_eq!(
        table(&config),
        vec![
            rule("Cross-Origin-Opener-Policy", &["unsafe-none"]),
            rule("Cross-Origin-Embedder-Policy", &["unsafe-none"]),
            rule("Access-Control-Allow-Origin", &["null"]),
            rule("Cache-Control", &["no-cache, no-store, must-revalidate"]),
        ]
    );
}

#[test]
fn configuration_from_options() {
    let mut command = command();
    command.serve_dir = "/var/www/../site".to_string();
    command.address = "localhost".to_string();
    command.port = 3000;
    command.sab = true;
    command.cors = true;
    command.cache_time = 60;
    command.watch_dir = Some("/var/src".to_string());
    command.headers = vec![
        "X-A:1".to_string(),
        "Cache-Control:public".to_string(),
        "X-A:2:3".to_string(),
    ];
    command.basic_auth = vec!["user:pass".to_string()];
    let config = Config::from_cli(command, "/var").unwrap();
    assert_eq!(config.serve_dir_abs, "/var/site");
    assert_eq!(config.serve_dir_fmt, "./site");
    assert_eq!(config.watch_dir, "/var/src");
    assert_eq!(config.domain, "localhost:3000");
    assert_eq!(config.domain_pretty, "localhost:3000");
    assert_eq!(config.basic_auth.len(), 1);
    assert_eq!(config.basic_auth[0].username, "user");
    assert_eq!(config.basic_auth[0].password, "pass");
    assert_eq!(
        table(&config),
        vec![
            rule("Cross-Origin-Opener-Policy", &["same-origin"]),
            rule("Cross-Origin-Embedder-Policy", &["require-corp"]),
            rule("Access-Control-Allow-Origin", &["*"]),
            rule("Cache-Control", &["max-age=60", "public"]),
            rule("X-A", &["1", "2:3"]),
        ]
    );
    let mut headers: Vec<Header> = Vec::new();
    config.merge_headers(&mut headers);
    let lines: Vec<(String, String)> =
        headers.into_iter().map(|h| (h.name, h.value)).collect();
    assert_eq!(lines.len(), 7);
    assert_eq!(lines[3], ("Cache-Control".to_string(), "max-age=60".to_string()));
    assert_eq!(lines[4], ("Cache-Control".to_string(), "public".to_string()));
    assert_eq!(lines[6], ("X-A".to_string(), "2:3".to_string()));
}

#[test]
fn configuration_errors() {
    let mut bad_header = command();
    bad_header.headers = vec!["X-A:1".to_string(), "no colon".to_string()];
    assert_eq!(
        Config::from_cli(bad_header, "/home/u").err(),
        Some(ConfigError::MalformedHeader)
    );
    let mut bad_credential = command();
    bad_credential.basic_auth = vec!["userpass".to_string()];
    assert_eq!(
        Config::from_cli(bad_credential, "/home/u").err(),
        Some(ConfigError::MalformedCredential)
    );
    let mut unrelated = command();
    unrelated.serve_dir = "dist".to_string();
    assert_eq!(
        Config::from_cli(unrelated, "..").err(),
        Some(ConfigError::UnrelatedDirectory)
    );
    let mut ipv6 = command();
    ipv6.address = "::".to_string();
    assert_eq!(Config::from_cli(ipv6, "/home/u").unwrap().domain_pretty, "127.0.0.1:8080");
}

#[test]
fn header_table_keeps_each_name_once() {
    let mut rules: Vec<HeaderRule> = Vec::new();
    add_header(&mut rules, "A".to_string(), "1".to_string());
    add_header(&mut rules, "B".to_string(), "2".to_string());
    add_header(&mut rules, "A".to_string(), "3".to_string());
    assert_eq!(rules.len(), 2);
    assert_eq!(rules[0].values, vec!["1".to_string(), "3".to_string()]);
    assert_eq!(rules[1].values, vec!["2".to_string()]);
    assert!(add_header_lines(&mut rules, &vec!["B:4".to_string(), "C:5".to_string()]));
    assert_eq!(rules.len(), 3);
    assert_eq!(rules[1].values, vec!["2".to_string(), "4".to_string()]);
    assert!(!add_header_lines(&mut rules, &vec!["D".to_string()]));
    assert!(parse_credentials(&vec!["a:b".to_string(), "c".to_string()]).is_none());
    assert_eq!(parse_credentials(&Vec::new()).unwrap().len(), 0);
}

#[test]
fn logger_prints_or_swallows() {
    let mut config = Config::from_cli(command(), "/home/u").unwrap();
    assert_eq!(Logger::new(&config), Logger::Default);
    config.quiet = true;
    assert_eq!(Logger::new(&config), Logger::Quiet);
    let line = LogLine { status: 404, uri: "/missing".to_string() };
    assert_eq!(Logger::Default.print_outcome(&line), Some("[404] /missing".to_string()));
    assert_eq!(Logger::Quiet.print_outcome(&line), None);
    assert_eq!(Logger::Default.println("hello"), Some("hello".to_string()));
    assert_eq!(Logger::Quiet.println("hello"), None);
    assert_eq!(Logger::Default.print_config("SPA", true), Some("SPA: Enabled".to_string()));
    assert_eq!(Logger::Default.print_config("CORS", false), Some("CORS: Disabled".to_string()));
    assert_eq!(Logger::Quiet.print_config("CORS", false), None);
    let options = WatcherOptions { target_dir: "/srv".to_string(), logger: Logger::Quiet };
    assert_eq!(options.logger, Logger::Quiet);
    assert_eq!(Logger::default(), Logger::Default);
    assert_eq!(Logger::Default.br(), Some(String::new()));
    assert_eq!(Logger::Quiet.br(), None);
    assert_eq!(
        Logger::Default.print_config_str("Directory", "./dist"),
        Some("Directory: ./dist".to_string())
    );
    assert_eq!(Logger::Quiet.print_config_str("Directory", "./dist"), None);
}

#[test]
fn the_two_sinks() {
    let loud = LoggerDefault::default();
    assert_eq!(loud.println("x"), Some("x".to_string()));
    assert_eq!(loud.br(), Some(String::new()));
    assert_eq!(loud.print_config("Watch", true), Some("Watch: Enabled".to_string()));
    assert_eq!(loud.print_config_str("Port", "8080"), Some("Port: 8080".to_string()));
    let mute = LoggerNoop::default();
    assert_eq!(mute.println("x"), None);
    assert_eq!(mute.br(), None);
    assert_eq!(mute.print_config("Watch", true), None);
    assert_eq!(mute.print_config_str("Port", "8080"), None);
}

#[test]
fn default_configuration_is_empty() {
    let config = Config::default();
    assert_eq!(config.serve_dir_abs, "");
    assert_eq!(config.port, 0);
    assert!(!config.watch);
    assert!(config.headers.is_empty());
    assert!(config.basic_auth.is_empty());
}

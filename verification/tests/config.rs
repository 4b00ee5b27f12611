use cblt::config::{build_config, read_block, read_line, Argument, Block, Line};
use cblt::directive::Directive;
use cblt::error::ConfigError;
use cblt::hosts::HostTable;

/// Parses `text` as a KDL document and hands its blocks to the library.
fn load_config(text: &str) -> Result<HostTable, ConfigError> {
    let document: kdl::KdlDocument = text.parse().expect("the text is a KDL document");
    let blocks: Vec<Block> = document
        .nodes()
        .iter()
        .map(|host| Block {
            name: host.name().value().to_owned(),
            lines: host
                .children()
                .map(|body| body.nodes())
                .unwrap_or_default()
                .iter()
                .map(|node| Line {
                    keyword: node.name().value().to_owned(),
                    arguments: node
                        .entries()
                        .iter()
                        .map(|entry| Argument {
                            name: entry.name().map(|name| name.value().to_owned()),
                            text: entry.value().as_string().map(str::to_owned),
                        })
                        .collect(),
                })
                .collect(),
        })
        .collect();
    build_config(&blocks)
}

fn text(value: &str) -> Argument {
    Argument { name: None, text: Some(value.to_string()) }
}

fn line(keyword: &str, values: &[&str]) -> Line {
    Line { keyword: keyword.to_string(), arguments: values.iter().map(|v| text(v)).collect() }
}

fn block(name: &str, lines: Vec<Line>) -> Block {
    Block { name: name.to_string(), lines }
}

fn root(pattern: &str, path: &str) -> Directive {
    Directive::Root { pattern: pattern.to_string(), path: path.to_string() }
}

#[test]
fn each_keyword_writes_its_directive() {
    assert_eq!(read_line(&line("root", &["*", "/www"])), Some(root("*", "/www")));
    assert_eq!(read_line(&line("file_server", &[])), Some(Directive::FileServer));
    assert_eq!(
        read_line(&line("reverse_proxy", &["/api*", "http://b"])),
        Some(Directive::ReverseProxy {
            pattern: "/api*".to_string(),
            destination: "http://b".to_string()
        })
    );
    assert_eq!(
        read_line(&line("redir", &["https://x{uri}"])),
        Some(Directive::Redir { destination: "https://x{uri}".to_string() })
    );
    assert_eq!(
        read_line(&line("tls", &["c.pem", "k.pem"])),
        Some(Directive::Tls { cert: "c.pem".to_string(), key: "k.pem".to_string() })
    );
}

#[test]
fn unknown_keyword_writes_nothing() {
    assert_eq!(read_line(&line("rooted", &["*", "/www"])), None);
    assert_eq!(read_line(&line("Root", &["*", "/www"])), None);
    assert_eq!(read_line(&line("", &[])), None);
}

#[test]
fn too_few_texts_write_nothing() {
    assert_eq!(read_line(&line("root", &["*"])), None);
    assert_eq!(read_line(&line("root", &[])), None);
    assert_eq!(read_line(&line("reverse_proxy", &["*"])), None);
    assert_eq!(read_line(&line("redir", &[])), None);
    assert_eq!(read_line(&line("tls", &["c.pem"])), None);
}

#[test]
fn texts_beyond_those_needed_are_not_read() {
    assert_eq!(read_line(&line("root", &["*", "/www", "more"])), Some(root("*", "/www")));
    assert_eq!(read_line(&line("file_server", &["x"])), Some(Directive::FileServer));
}

#[test]
fn only_unnamed_texts_count() {
    let line = Line {
        keyword: "root".to_string(),
        arguments: vec![
            Argument { name: None, text: None },
            Argument { name: Some("pattern".to_string()), text: Some("named".to_string()) },
            text("*"),
            Argument { name: None, text: None },
            text("/www"),
        ],
    };
    assert_eq!(read_line(&line), Some(root("*", "/www")));
    let line = Line {
        keyword: "redir".to_string(),
        arguments: vec![Argument { name: Some("to".to_string()), text: Some("/x".to_string()) }],
    };
    assert_eq!(read_line(&line), None);
}

#[test]
fn block_gives_directives_in_order() {
    let b = block("a.test", vec![line("root", &["*", "/www"]), line("file_server", &[])]);
    assert_eq!(read_block(&b), Ok(vec![root("*", "/www"), Directive::FileServer]));
    assert_eq!(read_block(&block("a.test", Vec::new())), Ok(Vec::new()));
}

#[test]
fn first_faulty_line_is_reported() {
    let b = block(
        "a.test",
        vec![line("file_server", &[]), line("root", &["*"]), line("bogus", &[])],
    );
    assert_eq!(
        read_block(&b),
        Err(ConfigError::MissingArgument { host: "a.test".to_string(), keyword: "root".to_string() })
    );
    let b = block("a.test", vec![line("bogus", &[]), line("root", &["*"])]);
    assert_eq!(
        read_block(&b),
        Err(ConfigError::UnknownDirective {
            host: "a.test".to_string(),
            keyword: "bogus".to_string()
        })
    );
}

#[test]
fn blocks_become_hosts_in_order() {
    let blocks = vec![
        block("b.test", vec![line("file_server", &[])]),
        block("a.test:8080", vec![line("redir", &["/x"])]),
    ];
    let table = build_config(&blocks).unwrap();
    assert_eq!(table.len(), 2);
    assert_eq!(table.entry(0).unwrap().name, "b.test");
    assert_eq!(table.entry(0).unwrap().directives, vec![Directive::FileServer]);
    assert_eq!(table.entry(1).unwrap().name, "a.test:8080");
}

#[test]
fn later_block_of_the_same_name_replaces_the_earlier() {
    let blocks = vec![
        block("a.test", vec![line("file_server", &[])]),
        block("b.test", vec![]),
        block("a.test", vec![line("redir", &["/x"])]),
    ];
    let table = build_config(&blocks).unwrap();
    assert_eq!(table.len(), 2);
    assert_eq!(
        table.entry(0).unwrap().directives,
        vec![Directive::Redir { destination: "/x".to_string() }]
    );
}

#[test]
fn fault_in_any_block_refuses_the_configuration() {
    let blocks = vec![
        block("a.test", vec![line("file_server", &[])]),
        block("b.test", vec![line("tls", &[])]),
        block("c.test", vec![line("nope", &[])]),
    ];
    assert_eq!(
        build_config(&blocks),
        Err(ConfigError::MissingArgument { host: "b.test".to_string(), keyword: "tls".to_string() })
    );
}

#[test]
fn document_is_read_from_text() {
    let text = r#"
"example.com" {
    root "*" "/var/www"
    file_server
}
"api.example.com:8080" {
    reverse_proxy "/v1*" "http://127.0.0.1:3000"
    redir "https://example.com{uri}"
}
"secure.example.com" {
    tls "cert.pem" "key.pem"
    root "*" r"C:\www"
    file_server
}
"#;
    let table = load_config(text).unwrap();
    assert_eq!(table.len(), 3);
    assert_eq!(table.entry(0).unwrap().name, "example.com");
    assert_eq!(
        table.entry(0).unwrap().directives,
        vec![root("*", "/var/www"), Directive::FileServer]
    );
    assert_eq!(table.entry(1).unwrap().name, "api.example.com:8080");
    assert_eq!(
        table.entry(1).unwrap().directives,
        vec![
            Directive::ReverseProxy {
                pattern: "/v1*".to_string(),
                destination: "http://127.0.0.1:3000".to_string()
            },
            Directive::Redir { destination: "https://example.com{uri}".to_string() },
        ]
    );
    assert_eq!(
        table.entry(2).unwrap().directives,
        vec![
            Directive::Tls { cert: "cert.pem".to_string(), key: "key.pem".to_string() },
            root("*", r"C:\www"),
            Directive::FileServer
        ]
    );
}

#[test]
fn values_that_are_no_text_are_passed_over() {
    let table = load_config("host {\n    root 1 \"*\" true \"/www\" key=\"v\"\n}\n").unwrap();
    assert_eq!(table.entry(0).unwrap().name, "host");
    assert_eq!(table.entry(0).unwrap().directives, vec![root("*", "/www")]);
}

#[test]
fn host_without_a_block_has_no_directive() {
    let table = load_config("\"a.test\"\n").unwrap();
    assert_eq!(table.len(), 1);
    assert_eq!(table.entry(0).unwrap().directives, Vec::new());
    assert_eq!(load_config("").unwrap().len(), 0);
}

#[test]
fn faults_in_the_document_are_reported() {
    assert_eq!(
        load_config("\"a.test\" {\n    serve_files\n}\n"),
        Err(ConfigError::UnknownDirective {
            host: "a.test".to_string(),
            keyword: "serve_files".to_string()
        })
    );
    assert_eq!(
        load_config("\"a.test\" {\n    root \"*\"\n}\n"),
        Err(ConfigError::MissingArgument { host: "a.test".to_string(), keyword: "root".to_string() })
    );
}

#[test]
fn errors_are_described_in_words() {
    assert_eq!(
        ConfigError::UnknownDirective { host: "a.test".to_string(), keyword: "nope".to_string() }
            .describe(),
        "host a.test: unknown directive nope"
    );
    assert_eq!(
        ConfigError::MissingArgument { host: "a.test".to_string(), keyword: "root".to_string() }
            .describe(),
        "host a.test: too few arguments for root"
    );
    assert_eq!(
        ConfigError::InvalidPort { host: "a.test:x".to_string() }.describe(),
        "host a.test:x: what follows the colon is no port number"
    );
}

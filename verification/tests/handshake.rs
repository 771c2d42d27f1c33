use mdbook_rfc::codec::{decode_payload, encode_book, encode_payload};
use mdbook_rfc::command::{delegated_command, supports_exit_code, CmdQuery};
use mdbook_rfc::config::{fetch_rfcbook_config, install_args, scaffold_folders, RFCBookConfig};
use mdbook_rfc::error::MdBookRFCError;
use mdbook_rfc::json::Json;
use mdbook_rfc::preprocessor::{json_get, preprocess, RFCPreprocessor};
use mdbook_rfc::version::check_compatibility;

fn s(t: &str) -> String {
    t.to_owned()
}

fn jstr(t: &str) -> Json {
    Json::Str(s(t))
}

/// An injective rendering of a `Json` value into a `serde_json::Value`, used
/// only to compare two `Json` trees for structural equality in tests.
fn to_value(j: &Json) -> serde_json::Value {
    match j {
        Json::Null => serde_json::Value::String(s("null")),
        Json::Bool(b) => serde_json::Value::Array(vec![
            serde_json::Value::String(s("bool")),
            serde_json::Value::Bool(*b),
        ]),
        Json::Int(n) => serde_json::Value::Array(vec![
            serde_json::Value::String(s("int")),
            serde_json::Value::from(*n),
        ]),
        Json::Num(t) => serde_json::Value::Array(vec![
            serde_json::Value::String(s("num")),
            serde_json::Value::String(t.clone()),
        ]),
        Json::Str(t) => serde_json::Value::Array(vec![
            serde_json::Value::String(s("str")),
            serde_json::Value::String(t.clone()),
        ]),
        Json::Arr(v) => serde_json::Value::Array(vec![
            serde_json::Value::String(s("arr")),
            serde_json::Value::Array(v.iter().map(to_value).collect()),
        ]),
        Json::Obj(v) => serde_json::Value::Array(vec![
            serde_json::Value::String(s("obj")),
            serde_json::Value::Array(
                v.iter()
                    .map(|(k, x)| {
                        serde_json::Value::Array(vec![
                            serde_json::Value::String(k.clone()),
                            to_value(x),
                        ])
                    })
                    .collect(),
            ),
        ]),
    }
}

fn sample_context() -> Json {
    Json::Obj(vec![
        (s("root"), jstr("/path/to/book")),
        (
            s("config"),
            Json::Obj(vec![
                (
                    s("book"),
                    Json::Obj(vec![
                        (s("authors"), Json::Arr(vec![jstr("AUTHOR")])),
                        (s("language"), jstr("en")),
                        (s("multilingual"), Json::Bool(false)),
                        (s("src"), jstr("src")),
                        (s("title"), jstr("TITLE")),
                    ]),
                ),
                (
                    s("preprocessor"),
                    Json::Obj(vec![(s("rfc"), Json::Obj(vec![]))]),
                ),
            ]),
        ),
        (s("renderer"), jstr("html")),
        (s("mdbook_version"), jstr("0.4.21")),
    ])
}

fn sample_book() -> Json {
    Json::Obj(vec![
        (
            s("sections"),
            Json::Arr(vec![Json::Obj(vec![(
                s("Chapter"),
                Json::Obj(vec![
                    (s("name"), jstr("Chapter 1")),
                    (s("content"), jstr("# Chapter 1\n")),
                    (s("number"), Json::Arr(vec![Json::Int(1)])),
                    (s("sub_items"), Json::Arr(vec![])),
                    (s("path"), jstr("chapter_1.md")),
                    (s("source_path"), jstr("chapter_1.md")),
                    (s("parent_names"), Json::Arr(vec![])),
                ]),
            )])]),
        ),
        (s("__non_exhaustive"), Json::Null),
    ])
}

fn sample_payload() -> Json {
    Json::Arr(vec![sample_context(), sample_book()])
}

#[test]
fn rfc_preprocessor_run() {
    let payload = sample_payload();
    let (ctx, book) = decode_payload(&payload).unwrap();
    let (_, expected_book) = decode_payload(&payload).unwrap();
    let result = RFCPreprocessor::new().run(&ctx, book);
    assert!(result.is_ok());

    // The rfc-preprocessor should not have made any changes to the book content.
    let actual_book = result.unwrap();
    assert_eq!(
        to_value(&encode_book(&actual_book)),
        to_value(&encode_book(&expected_book))
    );
}

#[test]
fn payload_round_trip() {
    let payload = sample_payload();
    let (ctx, book) = decode_payload(&payload).unwrap();
    let encoded = encode_payload(&ctx, &book);
    assert_eq!(to_value(&encoded), to_value(&payload));
}

#[test]
fn book_round_trip_through_writer() {
    let payload = sample_payload();
    let (_, book) = decode_payload(&payload).unwrap();
    let encoded = encode_book(&book);
    assert_eq!(to_value(&encoded), to_value(&sample_book()));
}

#[test]
fn decode_missing_second_element() {
    let payload = Json::Arr(vec![sample_context()]);
    let r = decode_payload(&payload);
    assert!(matches!(r, Err(MdBookRFCError::Decode)));
}

#[test]
fn decode_missing_mdbook_version() {
    let ctx = Json::Obj(vec![
        (s("root"), jstr("/path/to/book")),
        (s("config"), Json::Obj(vec![])),
        (s("renderer"), jstr("html")),
    ]);
    let payload = Json::Arr(vec![ctx, sample_book()]);
    let r = decode_payload(&payload);
    assert!(matches!(r, Err(MdBookRFCError::Decode)));
}

#[test]
fn decode_rejects_wrong_field_type() {
    let ctx = Json::Obj(vec![
        (s("root"), jstr("/path/to/book")),
        (s("config"), Json::Obj(vec![])),
        (s("renderer"), Json::Int(3)),
        (s("mdbook_version"), jstr("0.4.21")),
    ]);
    let payload = Json::Arr(vec![ctx, sample_book()]);
    assert!(matches!(decode_payload(&payload), Err(MdBookRFCError::Decode)));
}

#[test]
fn decode_rejects_section_number_out_of_range() {
    let mut book = sample_book();
    if let Json::Obj(fields) = &mut book {
        if let Json::Arr(secs) = &mut fields[0].1 {
            if let Json::Obj(ch) = &mut secs[0] {
                if let Json::Obj(cf) = &mut ch[0].1 {
                    cf[2].1 = Json::Arr(vec![Json::Int(-1)]);
                }
            }
        }
    }
    let payload = Json::Arr(vec![sample_context(), book]);
    assert!(matches!(decode_payload(&payload), Err(MdBookRFCError::Decode)));
}

#[test]
fn decode_separator_and_empty_sections() {
    let book = Json::Obj(vec![
        (s("sections"), Json::Arr(vec![jstr("Separator")])),
        (s("__non_exhaustive"), Json::Null),
    ]);
    let payload = Json::Arr(vec![sample_context(), book.clone()]);
    let (ctx, decoded) = decode_payload(&payload).unwrap();
    assert_eq!(decoded.sections.len(), 1);
    assert_eq!(ctx.renderer, "html");
    assert_eq!(to_value(&encode_book(&decoded)), to_value(&book));

    let empty = Json::Obj(vec![
        (s("sections"), Json::Arr(vec![])),
        (s("__non_exhaustive"), Json::Null),
    ]);
    let payload = Json::Arr(vec![sample_context(), empty]);
    let (_, decoded) = decode_payload(&payload).unwrap();
    assert_eq!(decoded.sections.len(), 0);
}

#[test]
fn supports_renderer_allowlist() {
    let pre = RFCPreprocessor::new();
    assert!(pre.supports_renderer("rfc"));
    assert!(!pre.supports_renderer("RFC"));
    assert!(!pre.supports_renderer("html"));
    assert!(!pre.supports_renderer(""));
}

#[test]
fn supports_exit_codes() {
    let pre = RFCPreprocessor::new();
    assert_eq!(supports_exit_code(&pre, "rfc"), 0);
    assert_eq!(supports_exit_code(&pre, "pdf"), 1);
}

#[test]
fn version_compatibility_examples() {
    assert_eq!(check_compatibility("0.4.0", "0.4.21"), Ok(true));
    assert_eq!(check_compatibility("0.4.0", "0.5.0"), Ok(false));
    assert_eq!(check_compatibility("0.4.21", "0.4.21"), Ok(true));
    assert_eq!(check_compatibility("1.2.3", "1.9.0"), Ok(true));
    assert_eq!(check_compatibility("1.2.3", "2.0.0"), Ok(false));
    assert_eq!(check_compatibility("0.0.3", "0.0.4"), Ok(false));
}

#[test]
fn version_prerelease_precedence() {
    assert_eq!(check_compatibility("1.2.3-alpha.2", "1.2.3-alpha.10"), Ok(true));
    assert_eq!(check_compatibility("1.2.3-alpha.2", "1.2.3-alpha.1"), Ok(false));
    assert_eq!(check_compatibility("1.2.3-alpha", "1.2.3-alpha.1"), Ok(true));
    assert_eq!(check_compatibility("1.2.3-alpha.1", "1.2.3-alpha"), Ok(false));
    assert_eq!(check_compatibility("1.2.3-alpha", "1.2.3"), Ok(true));
    assert_eq!(check_compatibility("1.2.3", "1.2.3-alpha"), Ok(false));
    assert_eq!(check_compatibility("1.2.3-1", "1.2.3-alpha"), Ok(true));
    assert_eq!(check_compatibility("1.2.4-alpha", "1.2.5"), Ok(true));
}

#[test]
fn version_parse_failure() {
    assert_eq!(
        check_compatibility("not a version", "0.4.21"),
        Err(MdBookRFCError::VersionParse)
    );
    assert_eq!(
        check_compatibility("0.4.21", "0.4"),
        Err(MdBookRFCError::VersionParse)
    );
}

#[test]
fn preprocess_identity_and_warning() {
    let pre = RFCPreprocessor::new();

    let r = preprocess(&pre, &sample_payload(), "0.4.21");
    let (out, warn) = r.unwrap();
    assert!(!warn);
    assert_eq!(to_value(&out), to_value(&sample_book()));

    // A version mismatch is a warning, never a failure.
    let r = preprocess(&pre, &sample_payload(), "0.3.0");
    let (out, warn) = r.unwrap();
    assert!(warn);
    assert_eq!(to_value(&out), to_value(&sample_book()));

    let r = preprocess(&pre, &sample_payload(), "not a version");
    assert!(matches!(r, Err(MdBookRFCError::VersionParse)));

    let r = preprocess(&pre, &Json::Null, "0.4.21");
    assert!(matches!(r, Err(MdBookRFCError::Decode)));
}

#[test]
fn preprocessor_name_is_fixed() {
    assert_eq!(RFCPreprocessor::new().name(), "rfc-preprocessor");
}

#[test]
fn json_lookup_finds_first_member() {
    let ctx = sample_context();
    let config = json_get(&ctx, "config").unwrap();
    assert!(json_get(config, "preprocessor").is_some());
    assert!(json_get(config, "missing").is_none());
    assert!(json_get(&Json::Null, "anything").is_none());
}

#[test]
fn rfcbook_config_from_entries() {
    let entries = vec![
        (s("rfc"), None),
        (s("other"), Some(s("mdbook-other"))),
    ];
    let cfg = fetch_rfcbook_config(&entries);
    assert_eq!(cfg.preprocessors, vec![s("rfc"), s("other")]);
    assert_eq!(cfg.packages, vec![s("rfc"), s("mdbook-other")]);
    assert_eq!(cfg.textFolder, "text");
    assert_eq!(cfg.vendorFolder, "public");
    assert_eq!(cfg.templateFolder, "template");

    let args = install_args(&cfg);
    assert_eq!(
        args,
        vec![s("install"), s("mdbook"), s("rfc"), s("mdbook-other")]
    );

    let folders = scaffold_folders(&cfg);
    assert_eq!(folders, vec![s("template"), s("text"), s("public")]);
}

#[test]
fn rfcbook_config_default_is_empty() {
    let cfg = RFCBookConfig::default();
    assert!(cfg.preprocessors.is_empty());
    assert!(cfg.packages.is_empty());
    assert_eq!(install_args(&cfg), vec![s("install"), s("mdbook")]);
}

#[test]
fn delegated_commands_table() {
    assert_eq!(
        delegated_command(&CmdQuery::Init),
        Some((s("mdbook"), s("init")))
    );
    assert_eq!(
        delegated_command(&CmdQuery::Build),
        Some((s("mdbook"), s("build")))
    );
    assert_eq!(
        delegated_command(&CmdQuery::Clean),
        Some((s("mdbook"), s("clean")))
    );
    assert_eq!(
        delegated_command(&CmdQuery::Watch),
        Some((s("mdbook"), s("watch")))
    );
    assert_eq!(
        delegated_command(&CmdQuery::Serve),
        Some((s("mdbook"), s("serve")))
    );
    assert_eq!(
        delegated_command(&CmdQuery::Add),
        Some((s("cargo"), s("build")))
    );
    assert_eq!(delegated_command(&CmdQuery::Install), None);
    assert_eq!(delegated_command(&CmdQuery::Populate), None);
    assert_eq!(delegated_command(&CmdQuery::New), None);
}

#[test]
fn error_messages_name_the_failure() {
    assert!(MdBookRFCError::Decode.message().contains("decode"));
    assert!(MdBookRFCError::VersionParse.message().contains("version"));
    assert!(MdBookRFCError::Encode.message().contains("encode"));
    assert!(MdBookRFCError::DelegatedProcess.message().contains("command"));
    assert!(MdBookRFCError::Filesystem.message().contains("directory"));
}

//! Tests of the shared engines: the Markdown transcoders, the JSON
//! codec, the title heuristic, the registry, and the generated-id
//! shape.

use webhook_router::http::HttpAdapter;
use webhook_router::json::Json;
use webhook_router::json_read::{parse_i64_str, parse_json};
use webhook_router::lark::markdown_to_lark;
use webhook_router::registry::{egress_adapter, ingress_adapter};
use webhook_router::slack::markdown_to_slack;
use webhook_router::title::extract_title_from_markdown;

fn jstr(x: &str) -> Json {
    Json::Str(x.to_string())
}

fn jobj(pairs: Vec<(&str, Json)>) -> Json {
    let mut ms: Vec<(String, Json)> = Vec::new();
    for (k, v) in pairs {
        ms.push((k.to_string(), v));
    }
    Json::Obj(ms)
}

#[test]
fn test_slack_conversion() {
    let md = "**Bold** and *Italic* and [Link](http://example.com)";
    let slack = markdown_to_slack(md);
    assert_eq!(slack, "*Bold* and _Italic_ and <http://example.com|Link>");
}

#[test]
fn test_slack_headers() {
    let md = "# Heading 1";
    let slack = markdown_to_slack(md);
    assert_eq!(slack, "*Heading 1*");
}

#[test]
fn test_lark_structure() {
    let md = "Hello [World](http://example.com)";
    let lark = markdown_to_lark(None, md);
    assert_eq!(
        lark.to_json_string(),
        "{\"zh_cn\":{\"content\":[[{\"tag\":\"text\",\"text\":\"Hello \"},{\"href\":\"http://example.com\",\"tag\":\"a\",\"text\":\"World\"}]]}}"
    );
}

#[test]
fn lark_fallback_on_empty_markdown() {
    let lark = markdown_to_lark(None, "");
    assert_eq!(
        lark.to_json_string(),
        "{\"zh_cn\":{\"content\":[[{\"tag\":\"text\",\"text\":\"\"}]]}}"
    );
}

#[test]
fn slack_conversion_block_constructs() {
    assert_eq!(markdown_to_slack("> quoted"), "> quoted");
    assert_eq!(markdown_to_slack("- one\n- two"), "\u{2022} one\n\u{2022} two");
    assert_eq!(markdown_to_slack("1. one\n2. two"), "\u{2022} one\n\u{2022} two");
    assert_eq!(markdown_to_slack("---"), "---");
    assert_eq!(markdown_to_slack("~~gone~~"), "~gone~");
    assert_eq!(markdown_to_slack("`code`"), "`code`");
    assert_eq!(markdown_to_slack("```\nlet x = 1;\n```"), "```\nlet x = 1;\n```");
    assert_eq!(
        markdown_to_slack("![alt](http://example.com/a.png)"),
        "<http://example.com/a.png|altimage>"
    );
    assert_eq!(markdown_to_slack("a\n\nb"), "a\nb");
}

#[test]
fn slack_conversion_unmatched_delimiters_stay_literal() {
    assert_eq!(markdown_to_slack("2 * 3 = 6 total"), "2 * 3 = 6 total");
    assert_eq!(markdown_to_slack("just ~ one tilde"), "just ~ one tilde");
    assert_eq!(markdown_to_slack("open ** only"), "open ** only");
}

#[test]
fn title_heuristic_basics() {
    assert_eq!(extract_title_from_markdown("# Hello\n\nbody"), Some("Hello".to_string()));
    assert_eq!(extract_title_from_markdown("\n\n  ## Spaced  \nrest"), Some("Spaced".to_string()));
    assert_eq!(extract_title_from_markdown("plain line"), Some("plain line".to_string()));
    assert_eq!(extract_title_from_markdown("   \n\t\n"), None);
    assert_eq!(extract_title_from_markdown(""), None);
}

#[test]
fn title_heuristic_truncates_at_100_characters() {
    let long = "x".repeat(150);
    let got = extract_title_from_markdown(&long).expect("title");
    let mut expected = "x".repeat(100);
    expected.push_str("...");
    assert_eq!(got, expected);
    assert_eq!(got.chars().count(), 103);
}

#[test]
fn dingtalk_action_card_order() {
    let adapter = webhook_router::dingtalk::DingTalkAdapter;
    let payload = jobj(vec![
        (
            "actionCard",
            jobj(vec![
                ("singleTitle", jstr("Read")),
                ("singleURL", jstr("http://x")),
                ("text", jstr("B")),
                ("title", jstr("T")),
            ]),
        ),
        ("msgtype", jstr("actionCard")),
    ]);
    let event = adapter.ingress_to_uem(&payload).ok().expect("uem");
    assert_eq!(event.markdown, "## T\n\nB\n\n[Read](http://x)");
}

#[test]
fn generic_adapter_markdown_passthrough() {
    let adapter = HttpAdapter;
    let payload = jobj(vec![("markdown", jstr("kept as it is"))]);
    let event = adapter.ingress_to_uem(&payload).ok().expect("uem");
    assert_eq!(event.markdown, "kept as it is");
}

#[test]
fn omitted_id_yields_fresh_valid_ids() {
    let adapter = HttpAdapter;
    let payload = jobj(vec![("markdown", jstr("x"))]);
    let a = adapter.ingress_to_uem(&payload).ok().expect("uem");
    let b = adapter.ingress_to_uem(&payload).ok().expect("uem");
    for id in [&a.id, &b.id] {
        assert_eq!(id.len(), 36);
        let cs: Vec<char> = id.chars().collect();
        assert_eq!(cs[8], '-');
        assert_eq!(cs[13], '-');
        assert_eq!(cs[18], '-');
        assert_eq!(cs[23], '-');
        assert_eq!(cs[14], '4');
        for (i, c) in cs.iter().enumerate() {
            if i != 8 && i != 13 && i != 18 && i != 23 {
                assert!(c.is_ascii_hexdigit() && !c.is_ascii_uppercase());
            }
        }
    }
    assert_ne!(a.id, b.id);
}

#[test]
fn unknown_platform_has_no_adapter() {
    assert!(ingress_adapter("unknown_platform").is_none());
    assert!(egress_adapter("unknown_platform").is_none());
}

#[test]
fn registry_synonyms_resolve() {
    let payload = jobj(vec![("markdown", jstr("x"))]);
    for name in ["lark", "feishu"] {
        let a = ingress_adapter(name).expect("adapter");
        let ev = a.ingress_to_uem(&payload).ok().expect("uem");
        assert_eq!(ev.source, "lark");
    }
    for name in ["dingtalk", "ding"] {
        let a = ingress_adapter(name).expect("adapter");
        let ev = a.ingress_to_uem(&payload).ok().expect("uem");
        assert_eq!(ev.source, "dingtalk");
    }
    for name in ["wecom", "wechat_work"] {
        let a = ingress_adapter(name).expect("adapter");
        let ev = a.ingress_to_uem(&payload).ok().expect("uem");
        assert_eq!(ev.source, "wecom");
    }
    for name in ["http", "custom"] {
        let a = egress_adapter(name).expect("adapter");
        let ev = a.ingress_to_uem(&payload).ok().expect("uem");
        assert_eq!(ev.source, "custom");
    }
    let a = ingress_adapter("slack").expect("adapter");
    let ev = a.ingress_to_uem(&payload).ok().expect("uem");
    assert_eq!(ev.source, "slack");
}

#[test]
fn json_reader_and_writer_round_trip() {
    let doc = parse_json("{\"a\":1,\"b\":[true,null,\"x\"],\"c\":{\"d\":-2}}").expect("json");
    assert_eq!(doc.to_json_string(), "{\"a\":1,\"b\":[true,null,\"x\"],\"c\":{\"d\":-2}}");
}

#[test]
fn json_reader_handles_escapes_and_numbers() {
    let doc = parse_json(" {\"t\" : \"a\\nb\\u0041\\u00e9\" , \"n\": 12.5e3 } ").expect("json");
    let t = doc.get("t").expect("t").as_str().expect("str").to_string();
    assert_eq!(t, "a\nbA\u{e9}");
    assert_eq!(doc.to_json_string(), "{\"t\":\"a\\nbAé\",\"n\":12.5e3}");
    assert!(parse_json("{\"x\":01}").is_none());
    assert!(parse_json("[1,]").is_none());
    assert!(parse_json("").is_none());
}

#[test]
fn i64_parsing_matches_range() {
    assert_eq!(parse_i64_str("1700000000000"), Some(1700000000000));
    assert_eq!(parse_i64_str("-42"), Some(-42));
    assert_eq!(parse_i64_str("+7"), Some(7));
    assert_eq!(parse_i64_str("9223372036854775807"), Some(i64::MAX));
    assert_eq!(parse_i64_str("-9223372036854775808"), Some(i64::MIN));
    assert_eq!(parse_i64_str("9223372036854775808"), None);
    assert_eq!(parse_i64_str(""), None);
    assert_eq!(parse_i64_str("12a"), None);
}

#[test]
fn ingress_fallback_stringifies_payload() {
    let adapter = HttpAdapter;
    let payload = jobj(vec![("other", Json::Int(5))]);
    let event = adapter.ingress_to_uem(&payload).ok().expect("uem");
    assert_eq!(event.markdown, "{\"other\":5}");
    assert!(event.timestamp >= 0);
}

#[test]
fn slack_link_keeps_flat_delimiters_around_nested_emphasis() {
    assert_eq!(
        markdown_to_slack("[**B** x](http://u)"),
        "<http://u|*B* x>"
    );
}

#[test]
fn slack_image_without_alt_degrades_to_image_label() {
    assert_eq!(markdown_to_slack("![](http://u/p.png)"), "<http://u/p.png|image>");
}

#[test]
fn slack_ingress_walks_block_kit_blocks() {
    let adapter = webhook_router::slack::SlackAdapter;
    let payload = jobj(vec![
        (
            "event",
            jobj(vec![(
                "blocks",
                Json::Arr(vec![
                    jobj(vec![("text", jobj(vec![("text", jstr("Deploy"))])), ("type", jstr("header"))]),
                    jobj(vec![
                        ("fields", Json::Arr(vec![
                            jobj(vec![("text", jstr("F1"))]),
                            jobj(vec![("text", jstr("F2"))]),
                        ])),
                        ("text", jobj(vec![("text", jstr("All good"))])),
                        ("type", jstr("section")),
                    ]),
                    jobj(vec![("type", jstr("divider"))]),
                    jobj(vec![("image_url", jstr("http://i")), ("type", jstr("image"))]),
                    jobj(vec![
                        ("elements", Json::Arr(vec![
                            jobj(vec![("text", jstr("ctx"))]),
                            jobj(vec![("image_url", jstr("http://c"))]),
                        ])),
                        ("type", jstr("context")),
                    ]),
                    jobj(vec![
                        ("elements", Json::Arr(vec![jobj(vec![
                            ("text", jobj(vec![("text", jstr("Go"))])),
                            ("type", jstr("button")),
                            ("url", jstr("http://g")),
                        ])])),
                        ("type", jstr("actions")),
                    ]),
                    jobj(vec![
                        ("elements", Json::Arr(vec![jobj(vec![
                            ("elements", Json::Arr(vec![
                                jobj(vec![("text", jstr("hi ")), ("type", jstr("text"))]),
                                jobj(vec![("text", jstr("L")), ("type", jstr("link")), ("url", jstr("http://l"))]),
                                jobj(vec![("name", jstr("tada")), ("type", jstr("emoji"))]),
                            ])),
                            ("type", jstr("rich_text_section")),
                        ])])),
                        ("type", jstr("rich_text")),
                    ]),
                ]),
            )]),
        ),
        ("event_id", jstr("evt-blocks-1")),
        ("event_time", Json::Int(1700000000)),
    ]);
    let event = adapter.ingress_to_uem(&payload).ok().expect("uem");
    assert_eq!(
        event.markdown,
        "**Deploy**\n\nAll good\n- F1\n- F2\n\n---\n\n![image](http://i)\n\nctx ![image](http://c)\n\n- [Go](http://g)\n\nhi [L](http://l):tada:"
    );
}

#[test]
fn dingtalk_link_without_title_uses_fixed_label() {
    let adapter = webhook_router::dingtalk::DingTalkAdapter;
    let payload = jobj(vec![
        ("link", jobj(vec![("messageUrl", jstr("http://m"))])),
        ("msgtype", jstr("link")),
    ]);
    let event = adapter.ingress_to_uem(&payload).ok().expect("uem");
    assert_eq!(event.markdown, "[Link](http://m)");
}

#[test]
fn wecom_markdown_v2_content_is_read() {
    let adapter = webhook_router::wecom::WecomAdapter;
    let payload = jobj(vec![
        ("markdown_v2", jobj(vec![("content", jstr("v2 body"))])),
        ("msgtype", jstr("markdown_v2")),
    ]);
    let event = adapter.ingress_to_uem(&payload).ok().expect("uem");
    assert_eq!(event.markdown, "v2 body");
    assert_eq!(event.title, Some("markdown_v2".to_string()));
}

#[test]
fn lark_ingress_without_content_stringifies_payload() {
    let adapter = webhook_router::lark::LarkAdapter;
    let payload = jobj(vec![("kind", jstr("ping"))]);
    let event = adapter.ingress_to_uem(&payload).ok().expect("uem");
    assert_eq!(event.markdown, "{\"kind\":\"ping\"}");
}

#[test]
fn slack_block_quote_keeps_paragraph_boundary() {
    assert_eq!(markdown_to_slack("> quoted\n\n---"), "> quoted\n\n---");
}

#[test]
fn slack_ingress_fallback_stringifies_whole_payload() {
    let adapter = webhook_router::slack::SlackAdapter;
    let payload = jobj(vec![
        ("event", jobj(vec![("channel", jstr("C1"))])),
        ("event_id", jstr("evt-empty-1")),
    ]);
    let event = adapter.ingress_to_uem(&payload).ok().expect("uem");
    assert_eq!(
        event.markdown,
        "{\"event\":{\"channel\":\"C1\"},\"event_id\":\"evt-empty-1\"}"
    );
}

#[test]
fn lark_message_falls_back_to_event_object() {
    let adapter = webhook_router::lark::LarkAdapter;
    let payload = jobj(vec![(
        "event",
        jobj(vec![
            ("content", jstr("{\"text\":\"direct\"}")),
            ("message_type", jstr("text")),
        ]),
    )]);
    let event = adapter.ingress_to_uem(&payload).ok().expect("uem");
    assert_eq!(event.markdown, "direct");
    assert_eq!(event.title, Some("text".to_string()));
}

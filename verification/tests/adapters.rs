//! The per-platform adapter tests: each inbound shape through its
//! ingress, and each egress builder's wire shape.

use webhook_router::dingtalk::DingTalkAdapter;
use webhook_router::http::HttpAdapter;
use webhook_router::json::Json;
use webhook_router::lark::LarkAdapter;
use webhook_router::models::UemEvent;
use webhook_router::slack::SlackAdapter;
use webhook_router::wecom::WecomAdapter;

fn s(x: &str) -> String {
    x.to_string()
}

fn jstr(x: &str) -> Json {
    Json::Str(x.to_string())
}

fn jobj(pairs: Vec<(&str, Json)>) -> Json {
    let mut ms: Vec<(String, Json)> = Vec::new();
    for (k, v) in pairs {
        ms.push((k.to_string(), v));
    }
    Json::Obj(ms)
}

fn jarr(items: Vec<Json>) -> Json {
    Json::Arr(items)
}

fn event(title: Option<&str>, markdown: &str, source: &str) -> UemEvent {
    UemEvent {
        id: s("evt-1"),
        source: s(source),
        timestamp: 1,
        title: title.map(s),
        markdown: s(markdown),
        raw: jobj(vec![]),
        meta: jobj(vec![]),
    }
}

#[test]
fn dingtalk_ingress_to_uem() {
    let adapter = DingTalkAdapter;
    let payload = jobj(vec![
        ("createAt", Json::Int(1700000000000)),
        ("markdown", jobj(vec![("text", jstr("hi")), ("title", jstr("notice"))])),
        ("msgId", jstr("ding-1")),
        ("msgtype", jstr("markdown")),
    ]);
    let event = adapter.ingress_to_uem(&payload).ok().expect("uem");
    assert_eq!(event.id, "ding-1");
    assert_eq!(event.source, "dingtalk");
    assert_eq!(event.timestamp, 1700000000);
    assert_eq!(event.title, Some(s("notice")));
    assert_eq!(event.markdown, "hi");
    assert_eq!(event.meta.to_json_string(), "{\"at\":null,\"msgtype\":\"markdown\"}");
    assert_eq!(event.raw.to_json_string(), payload.to_json_string());
}

#[test]
fn dingtalk_ingress_text() {
    let adapter = DingTalkAdapter;
    let payload = jobj(vec![
        (
            "at",
            jobj(vec![
                ("atMobiles", jarr(vec![jstr("180xxxxxx")])),
                ("isAtAll", Json::Bool(false)),
            ]),
        ),
        ("createAt", Json::Int(1700000000000)),
        ("msgId", jstr("ding-text-1")),
        ("msgtype", jstr("text")),
        ("text", jobj(vec![("content", jstr("我就是我, @180xxxxxx 是不一样的烟火"))])),
    ]);
    let event = adapter.ingress_to_uem(&payload).ok().expect("uem");
    assert_eq!(event.id, "ding-text-1");
    assert_eq!(event.timestamp, 1700000000);
    assert_eq!(event.title, None);
    assert_eq!(event.markdown, "我就是我, @180xxxxxx 是不一样的烟火");
    assert_eq!(
        event.meta.to_json_string(),
        "{\"at\":{\"atMobiles\":[\"180xxxxxx\"],\"isAtAll\":false},\"msgtype\":\"text\"}"
    );
}

#[test]
fn dingtalk_ingress_link() {
    let adapter = DingTalkAdapter;
    let payload = jobj(vec![
        ("createAt", Json::Int(1700000000000)),
        (
            "link",
            jobj(vec![
                ("messageUrl", jstr("https://open.dingtalk.com/document/")),
                ("picUrl", jstr("https://img.alicdn.com/tfs/TB1NwmBEL9TBuNjy1zbXXXpepXa-2400-1218.png")),
                ("text", jstr("这是Link消息")),
                ("title", jstr("这是一个Link消息")),
            ]),
        ),
        ("msgId", jstr("ding-link-1")),
        ("msgtype", jstr("link")),
    ]);
    let event = adapter.ingress_to_uem(&payload).ok().expect("uem");
    assert_eq!(event.title, Some(s("这是一个Link消息")));
    assert_eq!(
        event.markdown,
        "**这是一个Link消息**\n\n这是Link消息\n\n[这是一个Link消息](https://open.dingtalk.com/document/)\n\n![image](https://img.alicdn.com/tfs/TB1NwmBEL9TBuNjy1zbXXXpepXa-2400-1218.png)"
    );
}

#[test]
fn dingtalk_ingress_action_card() {
    let adapter = DingTalkAdapter;
    let payload = jobj(vec![
        (
            "actionCard",
            jobj(vec![
                ("singleTitle", jstr("阅读全文")),
                ("singleURL", jstr("https://open.dingtalk.com/document/")),
                ("text", jstr("这是一个整体跳转actionCard消息")),
                ("title", jstr("整体跳转actionCard消息")),
            ]),
        ),
        ("createAt", Json::Int(1700000000000)),
        ("msgId", jstr("ding-action-1")),
        ("msgtype", jstr("actionCard")),
    ]);
    let event = adapter.ingress_to_uem(&payload).ok().expect("uem");
    assert_eq!(event.title, Some(s("整体跳转actionCard消息")));
    assert_eq!(
        event.markdown,
        "## 整体跳转actionCard消息\n\n这是一个整体跳转actionCard消息\n\n[阅读全文](https://open.dingtalk.com/document/)"
    );
}

#[test]
fn dingtalk_ingress_feed_card() {
    let adapter = DingTalkAdapter;
    let payload = jobj(vec![
        ("createAt", Json::Int(1700000000000)),
        (
            "feedCard",
            jobj(vec![(
                "links",
                jarr(vec![jobj(vec![
                    ("messageURL", jstr("https://open.dingtalk.com/document/")),
                    ("picURL", jstr("https://img.alicdn.com/tfs/TB1NwmBEL9TBuNjy1zbXXXpepXa-2400-1218.png")),
                    ("title", jstr("这是feedcard消息1")),
                ])]),
            )]),
        ),
        ("msgId", jstr("ding-feed-1")),
        ("msgtype", jstr("feedCard")),
    ]);
    let event = adapter.ingress_to_uem(&payload).ok().expect("uem");
    assert_eq!(event.title, Some(s("这是feedcard消息1")));
    assert_eq!(
        event.markdown,
        "- [这是feedcard消息1](https://open.dingtalk.com/document/)\n  ![image](https://img.alicdn.com/tfs/TB1NwmBEL9TBuNjy1zbXXXpepXa-2400-1218.png)"
    );
}

#[test]
fn dingtalk_uem_to_egress() {
    let adapter = DingTalkAdapter;
    let ev = event(None, "hello", "dingtalk");
    let payload = adapter.uem_to_egress(&ev).ok().expect("payload");
    assert_eq!(payload.content_type, "application/json");
    assert_eq!(
        payload.body.to_json_string(),
        "{\"markdown\":{\"text\":\"hello\",\"title\":\"hello\"},\"msgtype\":\"markdown\"}"
    );
}

#[test]
fn dingtalk_uem_to_egress_with_title() {
    let adapter = DingTalkAdapter;
    let ev = event(Some("My Title"), "hello", "dingtalk");
    let payload = adapter.uem_to_egress(&ev).ok().expect("payload");
    assert_eq!(
        payload.body.to_json_string(),
        "{\"markdown\":{\"text\":\"hello\",\"title\":\"My Title\"},\"msgtype\":\"markdown\"}"
    );
}

#[test]
fn http_ingress_to_uem() {
    let adapter = HttpAdapter;
    let payload = jobj(vec![
        ("id", jstr("evt-1")),
        ("markdown", jstr("hello")),
        ("timestamp", Json::Int(123)),
    ]);
    let event = adapter.ingress_to_uem(&payload).ok().expect("uem");
    assert_eq!(event.id, "evt-1");
    assert_eq!(event.source, "custom");
    assert_eq!(event.timestamp, 123);
    assert_eq!(event.title, None);
    assert_eq!(event.markdown, "hello");
    assert_eq!(event.meta.to_json_string(), "{}");
    assert_eq!(event.raw.to_json_string(), payload.to_json_string());
}

#[test]
fn http_uem_to_egress() {
    let adapter = HttpAdapter;
    let ev = event(None, "hello", "custom");
    let payload = adapter.uem_to_egress(&ev).ok().expect("payload");
    assert_eq!(payload.content_type, "application/json");
    assert_eq!(
        payload.body.to_json_string(),
        "{\"id\":\"evt-1\",\"markdown\":\"hello\",\"meta\":{},\"raw\":{},\"source\":\"custom\",\"timestamp\":1,\"title\":null}"
    );
}

#[test]
fn lark_ingress_to_uem() {
    let adapter = LarkAdapter;
    let payload = jobj(vec![
        (
            "event",
            jobj(vec![(
                "message",
                jobj(vec![
                    ("content", jstr("{\"text\":\"hi\"}")),
                    ("message_type", jstr("text")),
                ]),
            )]),
        ),
        (
            "header",
            jobj(vec![("event_id", jstr("evt-1")), ("event_time", jstr("1700000000000"))]),
        ),
    ]);
    let event = adapter.ingress_to_uem(&payload).ok().expect("uem");
    assert_eq!(event.id, "evt-1");
    assert_eq!(event.source, "lark");
    assert_eq!(event.timestamp, 1700000000);
    assert_eq!(event.title, Some(s("text")));
    assert_eq!(event.markdown, "hi");
    assert_eq!(
        event.meta.to_json_string(),
        "{\"chat_id\":null,\"message_type\":\"text\",\"sender\":null}"
    );
}

#[test]
fn lark_uem_to_egress() {
    let adapter = LarkAdapter;
    let ev = event(None, "hello", "lark");
    let payload = adapter.uem_to_egress(&ev).ok().expect("payload");
    assert_eq!(payload.content_type, "application/json");
    assert_eq!(
        payload.body.to_json_string(),
        "{\"content\":{\"post\":{\"zh_cn\":{\"content\":[[{\"tag\":\"text\",\"text\":\"hello\"}]],\"title\":\"hello\"}}},\"msg_type\":\"post\"}"
    );
}

#[test]
fn lark_uem_to_egress_with_title() {
    let adapter = LarkAdapter;
    let ev = event(Some("Lark Title"), "hello", "lark");
    let payload = adapter.uem_to_egress(&ev).ok().expect("payload");
    assert_eq!(
        payload.body.to_json_string(),
        "{\"content\":{\"post\":{\"zh_cn\":{\"content\":[[{\"tag\":\"text\",\"text\":\"hello\"}]],\"title\":\"Lark Title\"}}},\"msg_type\":\"post\"}"
    );
}

#[test]
fn slack_ingress_to_uem() {
    let adapter = SlackAdapter;
    let payload = jobj(vec![
        (
            "event",
            jobj(vec![
                ("channel", jstr("C1")),
                ("text", jstr("hello")),
                ("type", jstr("message")),
            ]),
        ),
        ("event_id", jstr("evt-123")),
        ("event_time", Json::Int(1700000000)),
    ]);
    let event = adapter.ingress_to_uem(&payload).ok().expect("uem");
    assert_eq!(event.id, "evt-123");
    assert_eq!(event.source, "slack");
    assert_eq!(event.timestamp, 1700000000);
    assert_eq!(event.title, None);
    assert_eq!(event.markdown, "hello");
    assert_eq!(
        event.meta.to_json_string(),
        "{\"channel\":\"C1\",\"thread_ts\":null,\"type\":\"message\",\"user\":null}"
    );
}

#[test]
fn slack_uem_to_egress() {
    let adapter = SlackAdapter;
    let ev = event(None, "**bold**", "slack");
    let payload = adapter.uem_to_egress(&ev).ok().expect("payload");
    assert_eq!(payload.content_type, "application/json");
    assert_eq!(payload.body.to_json_string(), "{\"text\":\"*bold*\"}");
}

#[test]
fn slack_uem_to_egress_with_title() {
    let adapter = SlackAdapter;
    let ev = event(Some("My Header"), "hello", "slack");
    let payload = adapter.uem_to_egress(&ev).ok().expect("payload");
    assert_eq!(payload.body.to_json_string(), "{\"text\":\"*My Header*\\nhello\"}");
}

#[test]
fn slack_ingress_with_attachments() {
    let adapter = SlackAdapter;
    let payload = jobj(vec![
        ("alias", jstr("GlitchTip")),
        (
            "attachments",
            jarr(vec![jobj(vec![
                ("color", jstr("#e52b50")),
                (
                    "fields",
                    jarr(vec![
                        jobj(vec![
                            ("short", Json::Bool(true)),
                            ("title", jstr("Project")),
                            ("value", jstr("platform-fe")),
                        ]),
                        jobj(vec![
                            ("short", Json::Bool(true)),
                            ("title", jstr("Environment")),
                            ("value", jstr("production")),
                        ]),
                        jobj(vec![
                            ("short", Json::Bool(false)),
                            ("title", jstr("Release")),
                            ("value", jstr("platform-fe@production-1add165")),
                        ]),
                    ]),
                ),
                ("image_url", Json::Null),
                ("mrkdown_in", jarr(vec![jstr("text")])),
                ("text", Json::Null),
                ("title", jstr("Error: test")),
                ("title_link", jstr("https://example.com")),
            ])]),
        ),
        ("event_id", jstr("evt-attach-1")),
        ("event_time", Json::Int(1700000000)),
        (
            "sections",
            jarr(vec![jobj(vec![
                ("activitySubtitle", jstr("[View Issue PLATFORM-FE-17](https://example.com)")),
                ("activityTitle", jstr("Error: test")),
            ])]),
        ),
        ("text", jstr("GlitchTip Alert")),
    ]);
    let event = adapter.ingress_to_uem(&payload).ok().expect("uem");
    assert_eq!(event.id, "evt-attach-1");
    assert_eq!(
        event.markdown,
        "GlitchTip Alert\n\n[Error: test](https://example.com)\n\n- **Project**: platform-fe\n- **Environment**: production\n- **Release**: platform-fe@production-1add165\n\n**Error: test**\n[View Issue PLATFORM-FE-17](https://example.com)"
    );
}

#[test]
fn wecom_ingress_to_uem() {
    let adapter = WecomAdapter;
    let payload = jobj(vec![
        ("create_time", Json::Int(1700000000)),
        ("markdown", jobj(vec![("content", jstr("hi"))])),
        ("msgid", jstr("wx-1")),
        ("msgtype", jstr("markdown")),
    ]);
    let event = adapter.ingress_to_uem(&payload).ok().expect("uem");
    assert_eq!(event.id, "wx-1");
    assert_eq!(event.source, "wecom");
    assert_eq!(event.timestamp, 1700000000);
    assert_eq!(event.title, Some(s("markdown")));
    assert_eq!(event.markdown, "hi");
    assert_eq!(
        event.meta.to_json_string(),
        "{\"mentioned_list\":null,\"msgtype\":\"markdown\"}"
    );
}

#[test]
fn wecom_uem_to_egress() {
    let adapter = WecomAdapter;
    let ev = event(None, "hello", "wecom");
    let payload = adapter.uem_to_egress(&ev).ok().expect("payload");
    assert_eq!(payload.content_type, "application/json");
    assert_eq!(
        payload.body.to_json_string(),
        "{\"markdown\":{\"content\":\"hello\"},\"msgtype\":\"markdown\"}"
    );
}

#[test]
fn wecom_uem_to_egress_with_title() {
    let adapter = WecomAdapter;
    let ev = event(Some("My Title"), "hello", "wecom");
    let payload = adapter.uem_to_egress(&ev).ok().expect("payload");
    assert_eq!(
        payload.body.to_json_string(),
        "{\"markdown\":{\"content\":\"# My Title\\n\\nhello\"},\"msgtype\":\"markdown\"}"
    );
}

#[test]
fn wecom_ingress_text() {
    let adapter = WecomAdapter;
    let payload = jobj(vec![
        ("create_time", Json::Int(1700000000)),
        ("msgid", jstr("wx-text-1")),
        ("msgtype", jstr("text")),
        ("text", jobj(vec![("content", jstr("hello world"))])),
    ]);
    let event = adapter.ingress_to_uem(&payload).ok().expect("uem");
    assert_eq!(event.id, "wx-text-1");
    assert_eq!(event.title, Some(s("text")));
    assert_eq!(event.markdown, "hello world");
    assert_eq!(
        event.meta.to_json_string(),
        "{\"mentioned_list\":null,\"msgtype\":\"text\"}"
    );
}

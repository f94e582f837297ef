//! The DingTalk adapter: ingress dispatches on `msgtype` over `text`,
//! `markdown`, `link`, `actionCard` and `feedCard` shapes; egress
//! always emits a `markdown` message whose title falls back to the
//! title heuristic.

use vstd::prelude::*;

use crate::json::{
    json_text, or_null, spec_as_str, spec_get, spec_get2, wf_num, Json, JsonSpec,
};
use crate::models::{view_opt, AdapterError, OutgoingPayload, UemEvent};
use crate::text::{spec_join, strs_view};
use crate::title::spec_title;
use crate::util::{
    is_uuid_string, md_bold, md_image, md_link, spec_millis_to_secs, str_or_empty,
    spec_value_to_i64,
};

verus! {

broadcast use vstd::std_specs::vec::group_vec_axioms, vstd::seq::group_seq_axioms;

/// The adapter for DingTalk.
pub struct DingTalkAdapter;

/// The blank-line-separated parts a `link` message renders to.
pub open spec fn dingtalk_link_parts(l: JsonSpec) -> Seq<Seq<char>> {
    let title = str_or_empty(spec_as_str(spec_get(l, "title"@)));
    let text = str_or_empty(spec_as_str(spec_get(l, "text"@)));
    let url = str_or_empty(spec_as_str(spec_get(l, "messageUrl"@)));
    let pic = str_or_empty(spec_as_str(spec_get(l, "picUrl"@)));
    (if title.len() > 0 {
        seq![md_bold(title)]
    } else {
        Seq::empty()
    }) + (if text.len() > 0 {
        seq![text]
    } else {
        Seq::empty()
    }) + (if url.len() > 0 {
        seq![
            md_link(
                if title.len() == 0 {
                    "Link"@
                } else {
                    title
                },
                url,
            ),
        ]
    } else {
        Seq::empty()
    }) + (if pic.len() > 0 {
        seq![md_image("image"@, pic)]
    } else {
        Seq::empty()
    })
}

/// The button lines of an `actionCard`, from index `i` on.
pub open spec fn dingtalk_btn_items(bs: Seq<JsonSpec>, i: int) -> Seq<Seq<char>>
    decreases bs.len() - i,
{
    if i < 0 || i >= bs.len() {
        Seq::empty()
    } else {
        let label = str_or_empty(spec_as_str(spec_get(bs[i], "title"@)));
        let url = str_or_empty(spec_as_str(spec_get(bs[i], "actionURL"@)));
        (if label.len() > 0 && url.len() > 0 {
            seq![seq!['-', ' '] + md_link(label, url)]
        } else {
            Seq::empty()
        }) + dingtalk_btn_items(bs, i + 1)
    }
}

/// The blank-line-separated parts an `actionCard` message renders to.
pub open spec fn dingtalk_action_parts(a: JsonSpec) -> Seq<Seq<char>> {
    let title = str_or_empty(spec_as_str(spec_get(a, "title"@)));
    let text = str_or_empty(spec_as_str(spec_get(a, "text"@)));
    let st = str_or_empty(spec_as_str(spec_get(a, "singleTitle"@)));
    let su = str_or_empty(spec_as_str(spec_get(a, "singleURL"@)));
    let btn_lines: Seq<Seq<char>> = match spec_get(a, "btns"@) {
        Some(JsonSpec::Arr(bs)) => dingtalk_btn_items(bs, 0),
        _ => Seq::empty(),
    };
    (if title.len() > 0 {
        seq![seq!['#', '#', ' '] + title]
    } else {
        Seq::empty()
    }) + (if text.len() > 0 {
        seq![text]
    } else {
        Seq::empty()
    }) + (if st.len() > 0 && su.len() > 0 {
        seq![md_link(st, su)]
    } else {
        Seq::empty()
    }) + (if btn_lines.len() > 0 {
        seq![spec_join(btn_lines, seq!['\n'])]
    } else {
        Seq::empty()
    })
}

/// The lines of a `feedCard`, from index `i` of its links on.
pub open spec fn dingtalk_feed_items(ls: Seq<JsonSpec>, i: int) -> Seq<Seq<char>>
    decreases ls.len() - i,
{
    if i < 0 || i >= ls.len() {
        Seq::empty()
    } else {
        let title = str_or_empty(spec_as_str(spec_get(ls[i], "title"@)));
        let url = str_or_empty(spec_as_str(spec_get(ls[i], "messageURL"@)));
        let pic = str_or_empty(spec_as_str(spec_get(ls[i], "picURL"@)));
        (if title.len() > 0 && url.len() > 0 {
            seq![seq!['-', ' '] + md_link(title, url)]
        } else {
            Seq::empty()
        }) + (if pic.len() > 0 {
            seq![seq![' ', ' '] + md_image("image"@, pic)]
        } else {
            Seq::empty()
        }) + dingtalk_feed_items(ls, i + 1)
    }
}

/// What a `feedCard` message renders to.
pub open spec fn dingtalk_feed_markdown(p: JsonSpec) -> Seq<char> {
    match spec_get2(p, "feedCard"@, "links"@) {
        Some(JsonSpec::Arr(ls)) => spec_join(dingtalk_feed_items(ls, 0), seq!['\n']),
        _ => Seq::empty(),
    }
}

/// The body a DingTalk payload renders to, before the fallback.
pub open spec fn dingtalk_markdown_core(p: JsonSpec) -> Seq<char> {
    match spec_as_str(spec_get(p, "msgtype"@)) {
        Some(t) => {
            if t == "text"@ {
                str_or_empty(spec_as_str(spec_get2(p, "text"@, "content"@)))
            } else if t == "markdown"@ {
                str_or_empty(spec_as_str(spec_get2(p, "markdown"@, "text"@)))
            } else if t == "link"@ {
                spec_join(dingtalk_link_parts(or_null(spec_get(p, "link"@))), seq!['\n', '\n'])
            } else if t == "actionCard"@ {
                spec_join(dingtalk_action_parts(or_null(spec_get(p, "actionCard"@))), seq!['\n', '\n'])
            } else if t == "feedCard"@ {
                dingtalk_feed_markdown(p)
            } else {
                str_or_empty(spec_as_str(spec_get2(p, "text"@, "content"@)))
            }
        },
        None => str_or_empty(spec_as_str(spec_get2(p, "text"@, "content"@))),
    }
}

/// The body the DingTalk ingress extracts: the rendered message when
/// non-empty, else the whole payload's JSON text.
pub open spec fn dingtalk_markdown(p: JsonSpec) -> Seq<char> {
    if dingtalk_markdown_core(p).len() == 0 {
        json_text(p)
    } else {
        dingtalk_markdown_core(p)
    }
}

/// The title the DingTalk ingress extracts, mirroring the `msgtype`
/// discriminator.
pub open spec fn dingtalk_title(p: JsonSpec) -> Option<Seq<char>> {
    match spec_as_str(spec_get(p, "msgtype"@)) {
        Some(t) => {
            if t == "markdown"@ {
                spec_as_str(spec_get2(p, "markdown"@, "title"@))
            } else if t == "link"@ {
                spec_as_str(spec_get2(p, "link"@, "title"@))
            } else if t == "actionCard"@ {
                spec_as_str(spec_get2(p, "actionCard"@, "title"@))
            } else if t == "feedCard"@ {
                match spec_get2(p, "feedCard"@, "links"@) {
                    Some(JsonSpec::Arr(ls)) => {
                        if ls.len() > 0 {
                            spec_as_str(spec_get(ls[0], "title"@))
                        } else {
                            None
                        }
                    },
                    _ => None,
                }
            } else {
                None
            }
        },
        None => None,
    }
}

/// The metadata the DingTalk ingress retains.
pub open spec fn dingtalk_meta(p: JsonSpec) -> JsonSpec {
    JsonSpec::Obj(
        seq![
            ("at"@, or_null(spec_get(p, "at"@))),
            ("msgtype"@, or_null(spec_get(p, "msgtype"@))),
        ],
    )
}

/// The title the DingTalk egress uses: the event's own, else the title
/// heuristic on the body, else a fixed fallback.
pub open spec fn dingtalk_egress_title(title: Option<Seq<char>>, md: Seq<char>) -> Seq<char> {
    match title {
        Some(t) => t,
        None => match spec_title(md) {
            Some(t) => t,
            None => "Webhook Router"@,
        },
    }
}

/// The body the DingTalk egress emits: the canonical body passed
/// through unchanged, with the title in its native slot.
pub open spec fn dingtalk_body(title: Option<Seq<char>>, md: Seq<char>) -> JsonSpec {
    JsonSpec::Obj(
        seq![
            (
                "markdown"@,
                JsonSpec::Obj(
                    seq![
                        ("text"@, JsonSpec::Str(md)),
                        ("title"@, JsonSpec::Str(dingtalk_egress_title(title, md))),
                    ],
                ),
            ),
            ("msgtype"@, JsonSpec::Str("markdown"@)),
        ],
    )
}

/// A field's string content as a fresh `String`, or empty.
fn field_str(j: &Json, key: &str) -> (r: String)
    ensures
        r@ == str_or_empty(spec_as_str(spec_get(j@, key@))),
{
    proof {
        reveal_strlit("");
        assert(""@ =~= Seq::<char>::empty());
    }
    match j.get_str(key) {
        Some(s) => crate::text::string_of(s),
        None => crate::text::string_of(""),
    }
}

/// Renders the parts of a `link` message.
fn link_parts_exec(l: &Json) -> (r: Vec<String>)
    ensures
        strs_view(r@) == dingtalk_link_parts(l@),
{
    let title = field_str(l, "title");
    let text = field_str(l, "text");
    let url = field_str(l, "messageUrl");
    let pic = field_str(l, "picUrl");
    let mut parts: Vec<String> = Vec::new();
    if title.as_str().unicode_len() > 0 {
        parts.push(crate::util::md_bold_exec(title.as_str()));
    }
    if text.as_str().unicode_len() > 0 {
        parts.push(text.clone());
    }
    if url.as_str().unicode_len() > 0 {
        let label: &str = if title.as_str().unicode_len() == 0 {
            "Link"
        } else {
            title.as_str()
        };
        parts.push(crate::util::md_link_exec(label, url.as_str()));
    }
    if pic.as_str().unicode_len() > 0 {
        parts.push(crate::util::md_image_exec("image", pic.as_str()));
    }
    proof {
        assert(strs_view(parts@) =~= dingtalk_link_parts(l@));
    }
    parts
}

/// Renders the button lines of an `actionCard`.
fn btn_items_exec(bs: &Vec<Json>) -> (r: Vec<String>)
    ensures
        strs_view(r@) == dingtalk_btn_items(crate::json::jview_arr(bs@), 0),
{
    let ghost bsv = crate::json::jview_arr(bs@);
    proof {
        crate::json::lemma_jview_arr(bs@);
    }
    let n = bs.len();
    let mut lines: Vec<String> = Vec::new();
    let mut i: usize = 0;
    while i < n
        invariant
            i <= n,
            n == bs@.len(),
            bsv == crate::json::jview_arr(bs@),
            bsv.len() == n,
            forall|k: int| 0 <= k < n ==> bsv[k] == crate::json::jview(bs@[k]),
            strs_view(lines@) + dingtalk_btn_items(bsv, i as int) == dingtalk_btn_items(bsv, 0),
        decreases n - i,
    {
        let ghost pre = strs_view(lines@);
        let label = field_str(&bs[i], "title");
        let url = field_str(&bs[i], "actionURL");
        if label.as_str().unicode_len() > 0 && url.as_str().unicode_len() > 0 {
            let mut out: Vec<char> = Vec::new();
            out.push('-');
            out.push(' ');
            crate::text::push_str_chars(
                &mut out,
                crate::util::md_link_exec(label.as_str(), url.as_str()).as_str(),
            );
            proof {
                assert(out@ =~= seq!['-', ' '] + md_link(label@, url@));
            }
            lines.push(crate::text::string_from_chars(&out));
            proof {
                assert(strs_view(lines@) =~= pre.push(seq!['-', ' '] + md_link(label@, url@)));
                assert(strs_view(lines@) + dingtalk_btn_items(bsv, i + 1) =~= pre + (seq![
                    seq!['-', ' '] + md_link(label@, url@),
                ] + dingtalk_btn_items(bsv, i + 1)));
            }
        } else {
            proof {
                assert(dingtalk_btn_items(bsv, i as int) =~= dingtalk_btn_items(bsv, i + 1));
            }
        }
        i = i + 1;
    }
    proof {
        assert(dingtalk_btn_items(bsv, n as int) =~= Seq::<Seq<char>>::empty());
        assert(strs_view(lines@) =~= strs_view(lines@) + dingtalk_btn_items(bsv, n as int));
    }
    lines
}

/// Renders the parts of an `actionCard` message.
fn action_parts_exec(a: &Json) -> (r: Vec<String>)
    ensures
        strs_view(r@) == dingtalk_action_parts(a@),
{
    let title = field_str(a, "title");
    let text = field_str(a, "text");
    let st = field_str(a, "singleTitle");
    let su = field_str(a, "singleURL");
    let mut parts: Vec<String> = Vec::new();
    if title.as_str().unicode_len() > 0 {
        let mut out: Vec<char> = Vec::new();
        out.push('#');
        out.push('#');
        out.push(' ');
        crate::text::push_str_chars(&mut out, title.as_str());
        proof {
            assert(out@ =~= seq!['#', '#', ' '] + title@);
        }
        parts.push(crate::text::string_from_chars(&out));
    }
    if text.as_str().unicode_len() > 0 {
        parts.push(text.clone());
    }
    if st.as_str().unicode_len() > 0 && su.as_str().unicode_len() > 0 {
        parts.push(crate::util::md_link_exec(st.as_str(), su.as_str()));
    }
    match a.get("btns") {
        Some(b) => {
            match b {
                Json::Arr(bs) => {
                    let lines = btn_items_exec(bs);
                    if lines.len() > 0 {
                        parts.push(crate::text::join_strings(&lines, "\n"));
                    }
                    proof {
                        assert(crate::json::jview(*b) == JsonSpec::Arr(crate::json::jview_arr(bs@)));
                    }
                },
                _ => {},
            }
        },
        None => {},
    }
    proof {
        reveal_strlit("\n");
        assert("\n"@ =~= seq!['\n']);
        assert(strs_view(parts@) =~= dingtalk_action_parts(a@));
    }
    parts
}

/// Renders the lines of a `feedCard`'s links.
fn feed_items_exec(ls: &Vec<Json>) -> (r: Vec<String>)
    ensures
        strs_view(r@) == dingtalk_feed_items(crate::json::jview_arr(ls@), 0),
{
    let ghost lsv = crate::json::jview_arr(ls@);
    proof {
        crate::json::lemma_jview_arr(ls@);
    }
    let n = ls.len();
    let mut items: Vec<String> = Vec::new();
    let mut i: usize = 0;
    while i < n
        invariant
            i <= n,
            n == ls@.len(),
            lsv == crate::json::jview_arr(ls@),
            lsv.len() == n,
            forall|k: int| 0 <= k < n ==> lsv[k] == crate::json::jview(ls@[k]),
            strs_view(items@) + dingtalk_feed_items(lsv, i as int) == dingtalk_feed_items(lsv, 0),
        decreases n - i,
    {
        let ghost pre0 = strs_view(items@);
        let title = field_str(&ls[i], "title");
        let url = field_str(&ls[i], "messageURL");
        let pic = field_str(&ls[i], "picURL");
        let ghost head1: Seq<Seq<char>> = if title@.len() > 0 && url@.len() > 0 {
            seq![seq!['-', ' '] + md_link(title@, url@)]
        } else {
            Seq::empty()
        };
        let ghost head2: Seq<Seq<char>> = if pic@.len() > 0 {
            seq![seq![' ', ' '] + md_image("image"@, pic@)]
        } else {
            Seq::empty()
        };
        if title.as_str().unicode_len() > 0 && url.as_str().unicode_len() > 0 {
            let mut out: Vec<char> = Vec::new();
            out.push('-');
            out.push(' ');
            crate::text::push_str_chars(
                &mut out,
                crate::util::md_link_exec(title.as_str(), url.as_str()).as_str(),
            );
            proof {
                assert(out@ =~= seq!['-', ' '] + md_link(title@, url@));
            }
            items.push(crate::text::string_from_chars(&out));
        }
        if pic.as_str().unicode_len() > 0 {
            let mut out: Vec<char> = Vec::new();
            out.push(' ');
            out.push(' ');
            crate::text::push_str_chars(
                &mut out,
                crate::util::md_image_exec("image", pic.as_str()).as_str(),
            );
            proof {
                assert(out@ =~= seq![' ', ' '] + md_image("image"@, pic@));
            }
            items.push(crate::text::string_from_chars(&out));
        }
        proof {
            assert(strs_view(items@) =~= pre0 + head1 + head2);
            assert(dingtalk_feed_items(lsv, i as int) =~= head1 + head2 + dingtalk_feed_items(
                lsv,
                i + 1,
            ));
            assert(strs_view(items@) + dingtalk_feed_items(lsv, i + 1) =~= pre0
                + dingtalk_feed_items(lsv, i as int));
        }
        i = i + 1;
    }
    proof {
        assert(dingtalk_feed_items(lsv, n as int) =~= Seq::<Seq<char>>::empty());
        assert(strs_view(items@) =~= strs_view(items@) + dingtalk_feed_items(lsv, n as int));
    }
    items
}

/// Renders a DingTalk payload's body; executable twin of
/// `dingtalk_markdown_core`.
fn dingtalk_markdown_exec(payload: &Json) -> (r: String)
    ensures
        r@ == dingtalk_markdown_core(payload@),
{
    proof {
        reveal_strlit("");
        reveal_strlit("\n");
        reveal_strlit("\n\n");
        assert(""@ =~= Seq::<char>::empty());
        assert("\n"@ =~= seq!['\n']);
        assert("\n\n"@ =~= seq!['\n', '\n']);
    }
    let msgtype = payload.get_str("msgtype");
    match msgtype {
        Some(t) => {
            if crate::text::str_eq(t, "text") {
                match payload.get2_str("text", "content") {
                    Some(s) => crate::text::string_of(s),
                    None => crate::text::string_of(""),
                }
            } else if crate::text::str_eq(t, "markdown") {
                match payload.get2_str("markdown", "text") {
                    Some(s) => crate::text::string_of(s),
                    None => crate::text::string_of(""),
                }
            } else if crate::text::str_eq(t, "link") {
                let l = payload.get_or_null("link");
                let parts = link_parts_exec(&l);
                crate::text::join_strings(&parts, "\n\n")
            } else if crate::text::str_eq(t, "actionCard") {
                let a = payload.get_or_null("actionCard");
                let parts = action_parts_exec(&a);
                crate::text::join_strings(&parts, "\n\n")
            } else if crate::text::str_eq(t, "feedCard") {
                match payload.get2("feedCard", "links") {
                    Some(v) => {
                        match v {
                            Json::Arr(ls) => {
                                let items = feed_items_exec(ls);
                                proof {
                                    assert(crate::json::jview(*v) == JsonSpec::Arr(
                                        crate::json::jview_arr(ls@),
                                    ));
                                }
                                crate::text::join_strings(&items, "\n")
                            },
                            _ => crate::text::string_of(""),
                        }
                    },
                    None => crate::text::string_of(""),
                }
            } else {
                match payload.get2_str("text", "content") {
                    Some(s) => crate::text::string_of(s),
                    None => crate::text::string_of(""),
                }
            }
        },
        None => {
            match payload.get2_str("text", "content") {
                Some(s) => crate::text::string_of(s),
                None => crate::text::string_of(""),
            }
        },
    }
}

/// Reads a DingTalk payload's title; executable twin of
/// `dingtalk_title`.
fn dingtalk_title_exec(payload: &Json) -> (r: Option<String>)
    ensures
        view_opt(r) == dingtalk_title(payload@),
{
    let msgtype = payload.get_str("msgtype");
    match msgtype {
        Some(t) => {
            if crate::text::str_eq(t, "markdown") {
                match payload.get2_str("markdown", "title") {
                    Some(s) => Some(crate::text::string_of(s)),
                    None => None,
                }
            } else if crate::text::str_eq(t, "link") {
                match payload.get2_str("link", "title") {
                    Some(s) => Some(crate::text::string_of(s)),
                    None => None,
                }
            } else if crate::text::str_eq(t, "actionCard") {
                match payload.get2_str("actionCard", "title") {
                    Some(s) => Some(crate::text::string_of(s)),
                    None => None,
                }
            } else if crate::text::str_eq(t, "feedCard") {
                match payload.get2("feedCard", "links") {
                    Some(v) => {
                        match v {
                            Json::Arr(ls) => {
                                proof {
                                    crate::json::lemma_jview_arr(ls@);
                                    assert(crate::json::jview(*v) == JsonSpec::Arr(
                                        crate::json::jview_arr(ls@),
                                    ));
                                }
                                if ls.len() > 0 {
                                    match ls[0].get_str("title") {
                                        Some(s) => Some(crate::text::string_of(s)),
                                        None => None,
                                    }
                                } else {
                                    None
                                }
                            },
                            _ => None,
                        }
                    },
                    None => None,
                }
            } else {
                None
            }
        },
        None => None,
    }
}

/// Everything the ingress promises of the event it builds from
/// payload `p`.
pub open spec fn dingtalk_ingress_ok(p: JsonSpec, ev: UemEvent) -> bool {
    &&& ev.source@ == "dingtalk"@
    &&& ev.markdown@ == dingtalk_markdown(p)
    &&& wf_num(p) ==> ev.markdown@.len() > 0
    &&& match spec_as_str(spec_get(p, "msgId"@)) {
        Some(s) => ev.id@ == s,
        None => is_uuid_string(ev.id@),
    }
    &&& match spec_value_to_i64(spec_get(p, "createAt"@)) {
        Some(v) => ev.timestamp as int == spec_millis_to_secs(v as int),
        None => ev.timestamp >= 0,
    }
    &&& view_opt(ev.title) == dingtalk_title(p)
    &&& ev.raw@ == p
    &&& ev.meta@ == dingtalk_meta(p)
}

/// Everything the egress promises of the payload it builds from event
/// `ev`.
pub open spec fn dingtalk_egress_ok(ev: &UemEvent, pl: OutgoingPayload) -> bool {
    &&& pl.body@ == dingtalk_body(view_opt(ev.title), ev.markdown@)
    &&& pl.content_type@ == "application/json"@
}

impl DingTalkAdapter {
    /// Normalizes a DingTalk payload.  Never fails: every missing
    /// field degrades to a default.
    pub fn ingress_to_uem(&self, payload: &Json) -> (r: Result<UemEvent, AdapterError>)
        ensures
            match r {
                Ok(ev) => dingtalk_ingress_ok(payload@, ev),
                Err(_) => false,
            },
    {
        let text = dingtalk_markdown_exec(payload);
        let title = dingtalk_title_exec(payload);
        let id: String = match payload.get_str("msgId") {
            Some(s) => crate::text::string_of(s),
            None => crate::util::new_event_id(),
        };
        let timestamp: i64 = {
            let mut ts: Option<i64> = None;
            match payload.get("createAt") {
                Some(v) => {
                    ts = crate::util::value_to_i64(v);
                },
                None => {},
            }
            match ts {
                Some(v) => crate::util::millis_to_secs(v),
                None => crate::util::now_timestamp(),
            }
        };
        let markdown: String = if text.as_str().unicode_len() == 0 {
            proof {
                if wf_num(payload@) {
                    crate::json::lemma_json_text_nonempty(payload@);
                }
            }
            payload.to_json_string()
        } else {
            text
        };
        let mut meta_ms: Vec<(String, Json)> = Vec::new();
        meta_ms.push((crate::text::string_of("at"), payload.get_or_null("at")));
        meta_ms.push((crate::text::string_of("msgtype"), payload.get_or_null("msgtype")));
        let ghost metav = meta_ms@;
        let meta = Json::Obj(meta_ms);
        proof {
            crate::json::lemma_jview_obj(metav);
            assert(crate::json::jview_obj(metav) =~= dingtalk_meta(payload@)->Obj_0);
            assert(meta@ =~~= dingtalk_meta(payload@));
        }
        Ok(
            UemEvent {
                id,
                source: crate::text::string_of("dingtalk"),
                timestamp,
                title,
                markdown,
                raw: payload.duplicate(),
                meta,
            },
        )
    }

    /// Re-encodes a canonical event as a DingTalk `markdown` message.
    /// The body passes through unchanged; the title stands in its
    /// native slot, falling back to the heuristic, then to a fixed
    /// name.  Always succeeds.
    pub fn uem_to_egress(&self, event: &UemEvent) -> (r: Result<OutgoingPayload, AdapterError>)
        ensures
            match r {
                Ok(pl) => dingtalk_egress_ok(event, pl),
                Err(_) => false,
            },
    {
        let title: String = match &event.title {
            Some(t) => t.clone(),
            None => {
                match crate::title::extract_title_from_markdown(event.markdown.as_str()) {
                    Some(t) => t,
                    None => crate::text::string_of("Webhook Router"),
                }
            },
        };
        let mut inner_ms: Vec<(String, Json)> = Vec::new();
        inner_ms.push((crate::text::string_of("text"), Json::Str(event.markdown.clone())));
        inner_ms.push((crate::text::string_of("title"), Json::Str(title)));
        let ghost innerv = inner_ms@;
        let inner = Json::Obj(inner_ms);
        let mut ms: Vec<(String, Json)> = Vec::new();
        ms.push((crate::text::string_of("markdown"), inner));
        ms.push((crate::text::string_of("msgtype"), Json::Str(crate::text::string_of("markdown"))));
        let ghost msv = ms@;
        let body = Json::Obj(ms);
        proof {
            crate::json::lemma_jview_obj(innerv);
            crate::json::lemma_jview_obj(msv);
            let target = dingtalk_body(view_opt(event.title), event.markdown@);
            assert(crate::json::jview_obj(innerv) =~= target->Obj_0[0].1->Obj_0);
            assert(crate::json::jview_obj(msv) =~~= target->Obj_0);
            assert(body@ =~~= target);
        }
        Ok(OutgoingPayload { body, content_type: "application/json" })
    }
}

} // verus!

//! The Lark/Feishu adapter: ingress digs through nested
//! `header`/`event`/`message` objects and re-parses the JSON-encoded
//! `content` string; egress folds the shared Markdown event stream
//! into Lark's rich-post JSON shape.

use vstd::prelude::*;

use crate::json::{
    json_text, or_null, spec_as_str, spec_get, wf_num, Json, JsonSpec,
};
use crate::json_read::spec_parse_json;
use crate::markdown::{md_events, rng, MdEvent};
use crate::models::{view_opt, AdapterError, OutgoingPayload, UemEvent};
use crate::title::spec_title;
use crate::util::{is_uuid_string, spec_millis_to_secs, str_or_empty, spec_value_to_i64};

verus! {

broadcast use vstd::std_specs::vec::group_vec_axioms, vstd::seq::group_seq_axioms;

/// The adapter for Lark (Feishu).
pub struct LarkAdapter;

/// One inline run of a rich-post paragraph.  Ranges index the source
/// Markdown text.
#[derive(Clone, Copy, PartialEq, Eq, Structural, Debug)]
pub enum LarkRun {
    Text { from: usize, to: usize },
    Link { text_from: usize, text_to: usize, url_from: usize, url_to: usize },
}

/// Folds the Markdown events from `i` on into rich-post paragraphs.
/// Block boundaries flush the open paragraph; an empty paragraph is
/// never flushed; link runs are active between link-start and
/// link-end.
pub open spec fn lark_fold(
    evs: Seq<MdEvent>,
    i: int,
    paras: Seq<Seq<LarkRun>>,
    cur: Seq<LarkRun>,
    link: Option<(usize, usize)>,
) -> Seq<Seq<LarkRun>>
    decreases evs.len() - i,
{
    if i < 0 || i >= evs.len() {
        if cur.len() > 0 {
            paras.push(cur)
        } else {
            paras
        }
    } else {
        let flushed: Seq<Seq<LarkRun>> = if cur.len() > 0 {
            paras.push(cur)
        } else {
            paras
        };
        match evs[i] {
            MdEvent::ParaEnd => lark_fold(evs, i + 1, flushed, Seq::empty(), link),
            MdEvent::HeadingStart => lark_fold(evs, i + 1, flushed, Seq::empty(), link),
            MdEvent::HeadingEnd => lark_fold(evs, i + 1, flushed, Seq::empty(), link),
            MdEvent::QuoteEnd => lark_fold(evs, i + 1, flushed, Seq::empty(), link),
            MdEvent::CodeStart => lark_fold(evs, i + 1, flushed, Seq::empty(), link),
            MdEvent::CodeEnd => lark_fold(evs, i + 1, flushed, Seq::empty(), link),
            MdEvent::ListStart { .. } => lark_fold(evs, i + 1, flushed, Seq::empty(), link),
            MdEvent::ListEnd => lark_fold(evs, i + 1, flushed, Seq::empty(), link),
            MdEvent::ItemEnd => lark_fold(evs, i + 1, flushed, Seq::empty(), link),
            MdEvent::LinkStart { url_from, url_to } => lark_fold(
                evs,
                i + 1,
                paras,
                cur,
                Some((url_from, url_to)),
            ),
            MdEvent::LinkEnd => lark_fold(evs, i + 1, paras, cur, None),
            MdEvent::Text { from, to } => {
                let run = match link {
                    Some((uf, ut)) => LarkRun::Link {
                        text_from: from,
                        text_to: to,
                        url_from: uf,
                        url_to: ut,
                    },
                    None => LarkRun::Text { from, to },
                };
                lark_fold(evs, i + 1, paras, cur.push(run), link)
            },
            MdEvent::InlineCode { from, to } => lark_fold(
                evs,
                i + 1,
                paras,
                cur.push(LarkRun::Text { from, to }),
                link,
            ),
            _ => lark_fold(evs, i + 1, paras, cur, link),
        }
    }
}

/// The rich-post paragraphs of a Markdown text.
pub open spec fn lark_paras(md: Seq<char>) -> Seq<Seq<LarkRun>> {
    lark_fold(md_events(md), 0, Seq::empty(), Seq::empty(), None)
}

/// The JSON shape of one run: a `text` run, or an `a` run with its
/// `href`.
pub open spec fn run_json(s: Seq<char>, r: LarkRun) -> JsonSpec {
    match r {
        LarkRun::Text { from, to } => JsonSpec::Obj(
            seq![
                ("tag"@, JsonSpec::Str("text"@)),
                ("text"@, JsonSpec::Str(rng(s, from as int, to as int))),
            ],
        ),
        LarkRun::Link { text_from, text_to, url_from, url_to } => JsonSpec::Obj(
            seq![
                ("href"@, JsonSpec::Str(rng(s, url_from as int, url_to as int))),
                ("tag"@, JsonSpec::Str("a"@)),
                ("text"@, JsonSpec::Str(rng(s, text_from as int, text_to as int))),
            ],
        ),
    }
}

/// The JSON shapes of a paragraph's runs.
pub open spec fn runs_json(s: Seq<char>, rs: Seq<LarkRun>) -> Seq<JsonSpec> {
    Seq::new(rs.len(), |k: int| run_json(s, rs[k]))
}

/// The JSON shapes of the paragraphs.
pub open spec fn paras_json(s: Seq<char>, ps: Seq<Seq<LarkRun>>) -> Seq<JsonSpec> {
    Seq::new(ps.len(), |i: int| JsonSpec::Arr(runs_json(s, ps[i])))
}

/// The fallback paragraph: the raw Markdown as one text run.
pub open spec fn lark_fallback(md: Seq<char>) -> Seq<JsonSpec> {
    seq![
        JsonSpec::Arr(
            seq![
                JsonSpec::Obj(
                    seq![("tag"@, JsonSpec::Str("text"@)), ("text"@, JsonSpec::Str(md))],
                ),
            ],
        ),
    ]
}

/// The `content` array of the rich post: the folded paragraphs, or the
/// fallback when the fold yields none.
pub open spec fn lark_content(md: Seq<char>) -> Seq<JsonSpec> {
    let ps = lark_paras(md);
    if ps.len() == 0 {
        lark_fallback(md)
    } else {
        paras_json(md, ps)
    }
}

/// The rich post: `zh_cn` with its `content`, and a `title` member
/// when there is a title.
pub open spec fn lark_post(title: Option<Seq<char>>, md: Seq<char>) -> JsonSpec {
    JsonSpec::Obj(
        seq![
            (
                "zh_cn"@,
                JsonSpec::Obj(
                    seq![("content"@, JsonSpec::Arr(lark_content(md)))] + (match title {
                        Some(t) => seq![("title"@, JsonSpec::Str(t))],
                        None => Seq::empty(),
                    }),
                ),
            ),
        ],
    )
}

/// The title the Lark egress uses: the event's own, else the title
/// heuristic, else none.
pub open spec fn lark_egress_title(title: Option<Seq<char>>, md: Seq<char>) -> Option<Seq<char>> {
    match title {
        Some(t) => Some(t),
        None => spec_title(md),
    }
}

/// The body the Lark egress emits.
pub open spec fn lark_body(title: Option<Seq<char>>, md: Seq<char>) -> JsonSpec {
    JsonSpec::Obj(
        seq![
            (
                "content"@,
                JsonSpec::Obj(seq![("post"@, lark_post(lark_egress_title(title, md), md))]),
            ),
            ("msg_type"@, JsonSpec::Str("post"@)),
        ],
    )
}

/// The JSON of one run; executable twin of `run_json`.
fn run_json_exec(s: &Vec<char>, r: &LarkRun) -> (j: Json)
    ensures
        j@ == run_json(s@, *r),
{
    match r {
        LarkRun::Text { from, to } => {
            let mut text: Vec<char> = Vec::new();
            crate::markdown::push_rng(s, *from, *to, &mut text);
            let mut ms: Vec<(String, Json)> = Vec::new();
            ms.push((crate::text::string_of("tag"), Json::Str(crate::text::string_of("text"))));
            ms.push((crate::text::string_of("text"), Json::Str(
                crate::text::string_from_chars(&text),
            )));
            let ghost msv = ms@;
            let j = Json::Obj(ms);
            proof {
                crate::json::lemma_jview_obj(msv);
                assert(crate::json::jview_obj(msv) =~= run_json(s@, *r)->Obj_0);
                assert(j@ =~~= run_json(s@, *r));
            }
            j
        },
        LarkRun::Link { text_from, text_to, url_from, url_to } => {
            let mut text: Vec<char> = Vec::new();
            crate::markdown::push_rng(s, *text_from, *text_to, &mut text);
            let mut url: Vec<char> = Vec::new();
            crate::markdown::push_rng(s, *url_from, *url_to, &mut url);
            let mut ms: Vec<(String, Json)> = Vec::new();
            ms.push((crate::text::string_of("href"), Json::Str(
                crate::text::string_from_chars(&url),
            )));
            ms.push((crate::text::string_of("tag"), Json::Str(crate::text::string_of("a"))));
            ms.push((crate::text::string_of("text"), Json::Str(
                crate::text::string_from_chars(&text),
            )));
            let ghost msv = ms@;
            let j = Json::Obj(ms);
            proof {
                crate::json::lemma_jview_obj(msv);
                assert(crate::json::jview_obj(msv) =~= run_json(s@, *r)->Obj_0);
                assert(j@ =~~= run_json(s@, *r));
            }
            j
        },
    }
}

/// Converts a Markdown body (and an optional title) to the rich-post
/// JSON; executable twin of `lark_post`.
pub fn markdown_to_lark(title: Option<&str>, markdown: &str) -> (r: Json)
    ensures
        r@ == lark_post(
            match title {
                Some(t) => Some(t@),
                None => None,
            },
            markdown@,
        ),
{
    let cs = crate::text::chars_of(markdown);
    let evs = crate::markdown::parse_markdown_chars(&cs);
    let n = evs.len();
    let mut paras: Vec<Vec<LarkRun>> = Vec::new();
    let mut cur: Vec<LarkRun> = Vec::new();
    let mut link: Option<(usize, usize)> = None;
    let ghost target = lark_fold(evs@, 0, Seq::empty(), Seq::empty(), None);
    proof {
        assert(paras_view(paras@) =~= Seq::<Seq<LarkRun>>::empty());
        assert(cur@ =~= Seq::<LarkRun>::empty());
    }
    let mut i: usize = 0;
    while i < n
        invariant
            i <= n,
            n == evs@.len(),
            cs@ == markdown@,
            evs@ == md_events(markdown@),
            target == lark_fold(evs@, 0, Seq::empty(), Seq::empty(), None),
            lark_fold(evs@, i as int, paras_view(paras@), cur@, link) == target,
        decreases n - i,
    {
        let ghost pview = paras_view(paras@);
        let ev = evs[i];
        match ev {
            MdEvent::ParaEnd | MdEvent::HeadingStart | MdEvent::HeadingEnd | MdEvent::QuoteEnd
                | MdEvent::CodeStart | MdEvent::CodeEnd | MdEvent::ListStart { .. }
                | MdEvent::ListEnd | MdEvent::ItemEnd => {
                let ghost oldcur = cur@;
                if cur.len() > 0 {
                    paras.push(cur);
                    cur = Vec::new();
                    proof {
                        assert(paras_view(paras@) =~= pview.push(oldcur));
                        assert(cur@ =~= Seq::<LarkRun>::empty());
                    }
                }
                proof {
                    assert(oldcur.len() == 0 ==> cur@ =~= Seq::<LarkRun>::empty());
                    assert(paras_view(paras@) =~= (if oldcur.len() > 0 {
                        pview.push(oldcur)
                    } else {
                        pview
                    }));
                }
            },
            MdEvent::LinkStart { url_from, url_to } => {
                link = Some((url_from, url_to));
            },
            MdEvent::LinkEnd => {
                link = None;
            },
            MdEvent::Text { from, to } => {
                let run = match link {
                    Some((uf, ut)) => LarkRun::Link {
                        text_from: from,
                        text_to: to,
                        url_from: uf,
                        url_to: ut,
                    },
                    None => LarkRun::Text { from, to },
                };
                cur.push(run);
            },
            MdEvent::InlineCode { from, to } => {
                cur.push(LarkRun::Text { from, to });
            },
            _ => {},
        }
        i = i + 1;
    }
    let ghost pview = paras_view(paras@);
    if cur.len() > 0 {
        paras.push(cur);
        proof {
            assert(paras_view(paras@) =~= pview.push(cur@));
        }
    }
    proof {
        assert(paras_view(paras@) == target);
        assert(lark_paras(markdown@) == target);
    }
    // the content array
    let mut content: Vec<Json> = Vec::new();
    if paras.len() == 0 {
        let mut ms: Vec<(String, Json)> = Vec::new();
        ms.push((crate::text::string_of("tag"), Json::Str(crate::text::string_of("text"))));
        ms.push((crate::text::string_of("text"), Json::Str(crate::text::string_of(markdown))));
        let ghost msv = ms@;
        let run = Json::Obj(ms);
        let mut para: Vec<Json> = Vec::new();
        para.push(run);
        let ghost parav = para@;
        content.push(Json::Arr(para));
        proof {
            crate::json::lemma_jview_obj(msv);
            crate::json::lemma_jview_arr(parav);
            crate::json::lemma_jview_arr(content@);
            assert(crate::json::jview_obj(msv) =~= lark_fallback(markdown@)[0]->Arr_0[0]->Obj_0);
            assert(crate::json::jview_arr(parav) =~~= lark_fallback(markdown@)[0]->Arr_0);
            assert(crate::json::jview_arr(content@) =~~= lark_fallback(markdown@));
            assert(crate::json::jview_arr(content@) =~~= lark_content(markdown@));
        }
    } else {
        let np = paras.len();
        let mut pi: usize = 0;
        while pi < np
            invariant
                pi <= np,
                np == paras@.len(),
                cs@ == markdown@,
                paras_view(paras@) == lark_paras(markdown@),
                np > 0,
                crate::json::jview_arr(content@) =~~= paras_json(
                    markdown@,
                    paras_view(paras@),
                ).take(pi as int),
            decreases np - pi,
        {
            let runs = &paras[pi];
            let nr = runs.len();
            let mut para: Vec<Json> = Vec::new();
            let mut ri: usize = 0;
            while ri < nr
                invariant
                    ri <= nr,
                    nr == runs@.len(),
                    cs@ == markdown@,
                    crate::json::jview_arr(para@) =~~= runs_json(markdown@, runs@).take(ri as int),
                decreases nr - ri,
            {
                let j = run_json_exec(&cs, &runs[ri]);
                let ghost prevv = para@;
                para.push(j);
                proof {
                    crate::json::lemma_jview_arr(para@);
                    crate::json::lemma_jview_arr(prevv);
                    assert(crate::json::jview(j) == run_json(markdown@, runs@[ri as int]));
                    assert(runs_json(markdown@, runs@).take(ri + 1) =~= runs_json(
                        markdown@,
                        runs@,
                    ).take(ri as int).push(runs_json(markdown@, runs@)[ri as int]));
                    assert(crate::json::jview_arr(para@) =~~= runs_json(markdown@, runs@).take(
                        ri + 1,
                    ));
                }
                ri = ri + 1;
            }
            proof {
                assert(runs_json(markdown@, runs@).take(nr as int) =~= runs_json(
                    markdown@,
                    runs@,
                ));
            }
            let ghost prevcv = content@;
            let ghost parav = para@;
            content.push(Json::Arr(para));
            proof {
                crate::json::lemma_jview_arr(content@);
                crate::json::lemma_jview_arr(prevcv);
                crate::json::lemma_jview_arr(parav);
                assert(paras_view(paras@)[pi as int] == paras@[pi as int]@);
                assert(crate::json::jview(content@.last()) == JsonSpec::Arr(
                    crate::json::jview_arr(parav),
                ));
                assert(paras_json(markdown@, paras_view(paras@)).take(pi + 1) =~= paras_json(
                    markdown@,
                    paras_view(paras@),
                ).take(pi as int).push(paras_json(markdown@, paras_view(paras@))[pi as int]));
                assert(crate::json::jview_arr(content@) =~~= paras_json(
                    markdown@,
                    paras_view(paras@),
                ).take(pi + 1));
            }
            pi = pi + 1;
        }
        proof {
            assert(paras_json(markdown@, paras_view(paras@)).take(np as int) =~= paras_json(
                markdown@,
                paras_view(paras@),
            ));
            assert(crate::json::jview_arr(content@) =~~= lark_content(markdown@));
        }
    }
    // the zh_cn object
    let mut zh: Vec<(String, Json)> = Vec::new();
    zh.push((crate::text::string_of("content"), Json::Arr(content)));
    match title {
        Some(t) => {
            zh.push((crate::text::string_of("title"), Json::Str(crate::text::string_of(t))));
        },
        None => {},
    }
    let ghost zhv = zh@;
    let zh_obj = Json::Obj(zh);
    let mut ms: Vec<(String, Json)> = Vec::new();
    ms.push((crate::text::string_of("zh_cn"), zh_obj));
    let ghost msv = ms@;
    let post = Json::Obj(ms);
    proof {
        crate::json::lemma_jview_obj(zhv);
        crate::json::lemma_jview_obj(msv);
        let spec_t: Option<Seq<char>> = match title {
            Some(t) => Some(t@),
            None => None,
        };
        let target_post = lark_post(spec_t, markdown@);
        assert(crate::json::jview_obj(zhv) =~~= target_post->Obj_0[0].1->Obj_0);
        assert(crate::json::jview_obj(msv) =~~= target_post->Obj_0);
        assert(post@ =~~= target_post);
    }
    post
}

/// The paragraphs of an executable fold state, as sequences.
pub open spec fn paras_view(v: Seq<Vec<LarkRun>>) -> Seq<Seq<LarkRun>> {
    Seq::new(v.len(), |i: int| v[i]@)
}

} // verus!

verus! {

/// The nested object at `key`, or the fallback document itself.
pub open spec fn obj_or(p: JsonSpec, key: Seq<char>, fallback: JsonSpec) -> JsonSpec {
    match spec_get(p, key) {
        Some(v) => v,
        None => fallback,
    }
}

/// The `text` field of the re-parsed `content` string of a Lark
/// message object, or nothing.
pub open spec fn lark_content_text(msg: JsonSpec) -> Seq<char> {
    match spec_as_str(spec_get(msg, "content"@)) {
        Some(raw) => match spec_parse_json(raw) {
            Some(doc) => str_or_empty(spec_as_str(spec_get(doc, "text"@))),
            None => Seq::empty(),
        },
        None => Seq::empty(),
    }
}

/// The message object of a Lark payload: `event.message`, each level
/// falling back to its parent when absent.
pub open spec fn lark_message(p: JsonSpec) -> JsonSpec {
    let event = obj_or(p, "event"@, p);
    obj_or(event, "message"@, event)
}

/// The body the Lark ingress extracts: the re-parsed content text when
/// non-empty, else the whole payload's JSON text.
pub open spec fn lark_markdown(p: JsonSpec) -> Seq<char> {
    if lark_content_text(lark_message(p)).len() == 0 {
        json_text(p)
    } else {
        lark_content_text(lark_message(p))
    }
}

/// The metadata the Lark ingress retains.
pub open spec fn lark_meta(p: JsonSpec) -> JsonSpec {
    let event = obj_or(p, "event"@, p);
    let message = lark_message(p);
    JsonSpec::Obj(
        seq![
            ("chat_id"@, or_null(spec_get(message, "chat_id"@))),
            ("message_type"@, or_null(spec_get(message, "message_type"@))),
            ("sender"@, or_null(spec_get(event, "sender"@))),
        ],
    )
}

/// Everything the ingress promises of the event it builds from
/// payload `p`.
pub open spec fn lark_ingress_ok(p: JsonSpec, ev: UemEvent) -> bool {
    &&& ev.source@ == "lark"@
    &&& ev.markdown@ == lark_markdown(p)
    &&& wf_num(p) ==> ev.markdown@.len() > 0
    &&& match spec_as_str(spec_get(obj_or(p, "header"@, p), "event_id"@)) {
        Some(s) => ev.id@ == s,
        None => is_uuid_string(ev.id@),
    }
    &&& match spec_value_to_i64(spec_get(obj_or(p, "header"@, p), "event_time"@)) {
        Some(v) => ev.timestamp as int == spec_millis_to_secs(v as int),
        None => ev.timestamp >= 0,
    }
    &&& view_opt(ev.title) == spec_as_str(spec_get(lark_message(p), "message_type"@))
    &&& ev.raw@ == p
    &&& ev.meta@ == lark_meta(p)
}

/// Everything the egress promises of the payload it builds from event
/// `ev`.
pub open spec fn lark_egress_ok(ev: &UemEvent, pl: OutgoingPayload) -> bool {
    &&& pl.body@ == lark_body(view_opt(ev.title), ev.markdown@)
    &&& pl.content_type@ == "application/json"@
}

impl LarkAdapter {
    /// Normalizes a Lark payload.  The title defaults to the message's
    /// `message_type` tag.  Never fails: every missing field degrades
    /// to a default.
    pub fn ingress_to_uem(&self, payload: &Json) -> (r: Result<UemEvent, AdapterError>)
        ensures
            match r {
                Ok(ev) => lark_ingress_ok(payload@, ev),
                Err(_) => false,
            },
    {
        let header: &Json = match payload.get("header") {
            Some(h) => h,
            None => payload,
        };
        let event: &Json = match payload.get("event") {
            Some(e) => e,
            None => payload,
        };
        let message: &Json = match event.get("message") {
            Some(m) => m,
            None => event,
        };
        let content_text: String = match message.get_str("content") {
            Some(raw) => {
                match crate::json_read::parse_json(raw) {
                    Some(doc) => {
                        match doc.get_str("text") {
                            Some(t) => crate::text::string_of(t),
                            None => crate::text::string_of(""),
                        }
                    },
                    None => crate::text::string_of(""),
                }
            },
            None => crate::text::string_of(""),
        };
        proof {
            reveal_strlit("");
            assert(""@ =~= Seq::<char>::empty());
            assert(content_text@ == lark_content_text(message@));
        }
        let markdown: String = if content_text.as_str().unicode_len() == 0 {
            proof {
                if wf_num(payload@) {
                    crate::json::lemma_json_text_nonempty(payload@);
                }
            }
            payload.to_json_string()
        } else {
            content_text
        };
        let id: String = match header.get_str("event_id") {
            Some(s) => crate::text::string_of(s),
            None => crate::util::new_event_id(),
        };
        let timestamp: i64 = {
            let mut ts: Option<i64> = None;
            match header.get("event_time") {
                Some(v) => {
                    ts = crate::util::value_to_i64(v);
                },
                None => {},
            }
            match ts {
                Some(v) => crate::util::millis_to_secs(v),
                None => crate::util::now_timestamp(),
            }
        };
        let title: Option<String> = match message.get_str("message_type") {
            Some(t) => Some(crate::text::string_of(t)),
            None => None,
        };
        let mut meta_ms: Vec<(String, Json)> = Vec::new();
        meta_ms.push((crate::text::string_of("chat_id"), message.get_or_null("chat_id")));
        meta_ms.push((crate::text::string_of("message_type"), message.get_or_null("message_type")));
        meta_ms.push((crate::text::string_of("sender"), event.get_or_null("sender")));
        let ghost metav = meta_ms@;
        let meta = Json::Obj(meta_ms);
        proof {
            crate::json::lemma_jview_obj(metav);
            assert(crate::json::jview_obj(metav) =~= lark_meta(payload@)->Obj_0);
            assert(meta@ =~~= lark_meta(payload@));
        }
        Ok(
            UemEvent {
                id,
                source: crate::text::string_of("lark"),
                timestamp,
                title,
                markdown,
                raw: payload.duplicate(),
                meta,
            },
        )
    }

    /// Re-encodes a canonical event as a Lark rich post.  The title
    /// comes from the event, else from the title heuristic, else it is
    /// omitted.  Always succeeds.
    pub fn uem_to_egress(&self, event: &UemEvent) -> (r: Result<OutgoingPayload, AdapterError>)
        ensures
            match r {
                Ok(pl) => lark_egress_ok(event, pl),
                Err(_) => false,
            },
    {
        let title: Option<String> = match &event.title {
            Some(t) => Some(t.clone()),
            None => crate::title::extract_title_from_markdown(event.markdown.as_str()),
        };
        let title_ref: Option<&str> = match &title {
            Some(t) => Some(t.as_str()),
            None => None,
        };
        let post = markdown_to_lark(title_ref, event.markdown.as_str());
        let mut inner_ms: Vec<(String, Json)> = Vec::new();
        inner_ms.push((crate::text::string_of("post"), post));
        let ghost innerv = inner_ms@;
        let inner = Json::Obj(inner_ms);
        let mut ms: Vec<(String, Json)> = Vec::new();
        ms.push((crate::text::string_of("content"), inner));
        ms.push((crate::text::string_of("msg_type"), Json::Str(crate::text::string_of("post"))));
        let ghost msv = ms@;
        let body = Json::Obj(ms);
        proof {
            crate::json::lemma_jview_obj(innerv);
            crate::json::lemma_jview_obj(msv);
            let target = lark_body(view_opt(event.title), event.markdown@);
            assert(crate::json::jview_obj(innerv) =~~= target->Obj_0[0].1->Obj_0);
            assert(crate::json::jview_obj(msv) =~~= target->Obj_0);
            assert(body@ =~~= target);
        }
        Ok(OutgoingPayload { body, content_type: "application/json" })
    }
}

} // verus!

verus! {

/// When the fold yields zero paragraphs, the rich post's content is
/// exactly one paragraph holding the raw Markdown as a single text
/// run.
pub proof fn lemma_lark_fallback_paragraph(md: Seq<char>)
    requires
        lark_paras(md).len() == 0,
    ensures
        lark_content(md) == seq![
            JsonSpec::Arr(
                seq![
                    JsonSpec::Obj(
                        seq![("tag"@, JsonSpec::Str("text"@)), ("text"@, JsonSpec::Str(md))],
                    ),
                ],
            ),
        ],
{
}

} // verus!

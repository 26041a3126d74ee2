//! The provisioning worker's IPC protocol: the job description handed to the
//! worker process and the events it reports back, one JSON object per line.
//! The codec is canonical: `encode_event` emits exactly one line form per
//! event, and `decode_event` accepts exactly those forms, so a decoded line
//! always re-encodes to itself and an encoded event always decodes back to an
//! event with the same content.
use vstd::prelude::*;

use crate::codec::{
    dec_chars, dec_token_at, enc_bool, expect_lit, i64_chars, i64_token_at, is_digit,
    parse_dec_i64, parse_dec_u8, parse_quoted, push_dec_i64, push_dec_u64, push_lit, push_quoted,
    quoted,
};
use crate::text::{chars_to_string, lemma_occurs_split, occurs_at, string_to_chars};

verus! {

/// Parameters of one provisioning run, serialized to a file and handed to
/// the worker process by path.
#[derive(Debug, Clone, PartialEq)]
pub struct WorkerJob {
    pub local_model: String,
    pub service_url: String,
    pub model_id: String,
    pub device: String,
    pub runtime_dir: String,
    pub models_dir: String,
    pub state_file: String,
    pub image_tag: String,
    pub container_name: String,
}

/// One event of the worker's line protocol.
#[derive(Debug, Clone, PartialEq)]
pub enum WorkerEvent {
    Progress { stage: String, message: String, percent: Option<u8>, detail: Option<String> },
    RuntimeLog { stream: String, line: String, ts: i64 },
    State {
        download_state: String,
        last_error: String,
        installed: Option<bool>,
        enabled: Option<bool>,
    },
    Done { message: String },
    Error { message: String },
}

/// The mathematical content of a `WorkerEvent`: the same shape over
/// character sequences.
pub enum EventModel {
    Progress {
        stage: Seq<char>,
        message: Seq<char>,
        percent: Option<u8>,
        detail: Option<Seq<char>>,
    },
    RuntimeLog { stream: Seq<char>, line: Seq<char>, ts: i64 },
    State {
        download_state: Seq<char>,
        last_error: Seq<char>,
        installed: Option<bool>,
        enabled: Option<bool>,
    },
    Done { message: Seq<char> },
    Error { message: Seq<char> },
}

pub open spec fn event_model(e: WorkerEvent) -> EventModel {
    match e {
        WorkerEvent::Progress { stage, message, percent, detail } => EventModel::Progress {
            stage: stage@,
            message: message@,
            percent,
            detail: match detail {
                Some(d) => Some(d@),
                None => None,
            },
        },
        WorkerEvent::RuntimeLog { stream, line, ts } => EventModel::RuntimeLog {
            stream: stream@,
            line: line@,
            ts,
        },
        WorkerEvent::State { download_state, last_error, installed, enabled } => EventModel::State {
            download_state: download_state@,
            last_error: last_error@,
            installed,
            enabled,
        },
        WorkerEvent::Done { message } => EventModel::Done { message: message@ },
        WorkerEvent::Error { message } => EventModel::Error { message: message@ },
    }
}

pub open spec fn head_progress() -> Seq<char> {
    "{\"kind\":\"progress\",\"stage\":"@
}

pub open spec fn head_runtime_log() -> Seq<char> {
    "{\"kind\":\"runtimeLog\",\"stream\":"@
}

pub open spec fn head_state() -> Seq<char> {
    "{\"kind\":\"state\",\"download_state\":"@
}

pub open spec fn head_done() -> Seq<char> {
    "{\"kind\":\"done\",\"message\":"@
}

pub open spec fn head_error() -> Seq<char> {
    "{\"kind\":\"error\",\"message\":"@
}

pub open spec fn lit_message() -> Seq<char> {
    ",\"message\":"@
}

pub open spec fn lit_percent() -> Seq<char> {
    ",\"percent\":"@
}

pub open spec fn lit_detail() -> Seq<char> {
    ",\"detail\":"@
}

pub open spec fn lit_line() -> Seq<char> {
    ",\"line\":"@
}

pub open spec fn lit_ts() -> Seq<char> {
    ",\"ts\":"@
}

pub open spec fn lit_last_error() -> Seq<char> {
    ",\"last_error\":"@
}

pub open spec fn lit_installed() -> Seq<char> {
    ",\"installed\":"@
}

pub open spec fn lit_enabled() -> Seq<char> {
    ",\"enabled\":"@
}

pub open spec fn lit_rbrace() -> Seq<char> {
    "}"@
}

/// The canonical line of one event, without the newline.
pub open spec fn enc_event(m: EventModel) -> Seq<char> {
    match m {
        EventModel::Progress { stage, message, percent, detail } => head_progress() + quoted(stage)
            + lit_message() + quoted(message) + (match percent {
            Some(p) => lit_percent() + dec_chars(p as nat),
            None => Seq::empty(),
        }) + (match detail {
            Some(d) => lit_detail() + quoted(d),
            None => Seq::empty(),
        }) + lit_rbrace(),
        EventModel::RuntimeLog { stream, line, ts } => head_runtime_log() + quoted(stream)
            + lit_line() + quoted(line) + lit_ts() + i64_chars(ts as int) + lit_rbrace(),
        EventModel::State { download_state, last_error, installed, enabled } => head_state()
            + quoted(download_state) + lit_last_error() + quoted(last_error) + (match installed {
            Some(b) => lit_installed() + enc_bool(b),
            None => Seq::empty(),
        }) + (match enabled {
            Some(b) => lit_enabled() + enc_bool(b),
            None => Seq::empty(),
        }) + lit_rbrace(),
        EventModel::Done { message } => head_done() + quoted(message) + lit_rbrace(),
        EventModel::Error { message } => head_error() + quoted(message) + lit_rbrace(),
    }
}

/// Encodes one event as its canonical protocol line.
#[verifier::rlimit(100)]
pub fn encode_event(e: &WorkerEvent) -> (r: String)
    ensures
        r@ == enc_event(event_model(*e)),
{
    let mut out: Vec<char> = Vec::new();
    match e {
        WorkerEvent::Progress { stage, message, percent, detail } => {
            push_lit(&mut out, "{\"kind\":\"progress\",\"stage\":");
            push_quoted(&mut out, stage.as_str());
            push_lit(&mut out, ",\"message\":");
            push_quoted(&mut out, message.as_str());
            if let Some(p) = percent {
                push_lit(&mut out, ",\"percent\":");
                push_dec_u64(&mut out, *p as u64);
            }
            if let Some(d) = detail {
                push_lit(&mut out, ",\"detail\":");
                push_quoted(&mut out, d.as_str());
            }
            push_lit(&mut out, "}");
            proof {
                assert(out@ =~= enc_event(event_model(*e)));
            }
        },
        WorkerEvent::RuntimeLog { stream, line, ts } => {
            push_lit(&mut out, "{\"kind\":\"runtimeLog\",\"stream\":");
            push_quoted(&mut out, stream.as_str());
            push_lit(&mut out, ",\"line\":");
            push_quoted(&mut out, line.as_str());
            push_lit(&mut out, ",\"ts\":");
            push_dec_i64(&mut out, *ts);
            push_lit(&mut out, "}");
            proof {
                assert(out@ =~= enc_event(event_model(*e)));
            }
        },
        WorkerEvent::State { download_state, last_error, installed, enabled } => {
            push_lit(&mut out, "{\"kind\":\"state\",\"download_state\":");
            push_quoted(&mut out, download_state.as_str());
            push_lit(&mut out, ",\"last_error\":");
            push_quoted(&mut out, last_error.as_str());
            if let Some(b) = installed {
                push_lit(&mut out, ",\"installed\":");
                push_bool(&mut out, *b);
            }
            if let Some(b) = enabled {
                push_lit(&mut out, ",\"enabled\":");
                push_bool(&mut out, *b);
            }
            push_lit(&mut out, "}");
            proof {
                assert(out@ =~= enc_event(event_model(*e)));
            }
        },
        WorkerEvent::Done { message } => {
            push_lit(&mut out, "{\"kind\":\"done\",\"message\":");
            push_quoted(&mut out, message.as_str());
            push_lit(&mut out, "}");
            proof {
                assert(out@ =~= enc_event(event_model(*e)));
            }
        },
        WorkerEvent::Error { message } => {
            push_lit(&mut out, "{\"kind\":\"error\",\"message\":");
            push_quoted(&mut out, message.as_str());
            push_lit(&mut out, "}");
            proof {
                assert(out@ =~= enc_event(event_model(*e)));
            }
        },
    }
    chars_to_string(&out)
}

fn push_bool(out: &mut Vec<char>, b: bool)
    ensures
        final(out)@ == old(out)@ + enc_bool(b),
{
    if b {
        push_lit(out, "true");
    } else {
        push_lit(out, "false");
    }
}

/// Parses an optional `,"percent":<n>` section: absent sections consume
/// nothing, and a canonical section is always accepted.
fn parse_opt_percent(v: &Vec<char>, from: usize) -> (r: Option<(Option<u8>, usize)>)
    ensures
        match r {
            Some((Some(n), j)) => from <= j <= v@.len() && v@.subrange(from as int, j as int)
                == lit_percent() + dec_chars(n as nat) && (j == v@.len() || !is_digit(
                v@[j as int],
            )),
            Some((None, j)) => j == from && !occurs_at(v@, lit_percent(), from as int),
            None => true,
        },
        forall|n: u8|
            occurs_at(v@, lit_percent(), from as int) && #[trigger] dec_token_at(
                v@,
                from + lit_percent().len(),
                n as nat,
            ) ==> r == Some(
                (Some(n), (from + lit_percent().len() + dec_chars(n as nat).len()) as usize),
            ),
        !occurs_at(v@, lit_percent(), from as int) ==> r == Some((None::<u8>, from)),
{
    let Some(q) = expect_lit(v, from, ",\"percent\":") else {
        return Some((None, from));
    };
    let Some((n, j)) = parse_dec_u8(v, q) else {
        return None;
    };
    proof {
        assert(v@.subrange(from as int, j as int) =~= lit_percent() + dec_chars(n as nat));
    }
    Some((Some(n), j))
}

/// Parses an optional `<lit>"<text>"` section (a quoted field with its
/// leading label): absent sections consume nothing.
fn parse_opt_str_field(v: &Vec<char>, from: usize, lit: &str) -> (r: Option<
    (Option<String>, usize),
>)
    ensures
        match r {
            Some((Some(s), j)) => from <= j <= v@.len() && v@.subrange(from as int, j as int)
                == lit@ + quoted(s@),
            Some((None, j)) => j == from && !occurs_at(v@, lit@, from as int),
            None => true,
        },
        forall|x: Seq<char>|
            occurs_at(v@, lit@, from as int) && #[trigger] occurs_at(
                v@,
                quoted(x),
                from + lit@.len(),
            ) ==> r is Some && r->Some_0.0 is Some && r->Some_0.0->Some_0@ == x && r->Some_0.1
                == from + lit@.len() + quoted(x).len(),
        !occurs_at(v@, lit@, from as int) ==> r == Some((None::<String>, from)),
{
    let Some(q) = expect_lit(v, from, lit) else {
        return Some((None, from));
    };
    let Some((s, j)) = parse_quoted(v, q) else {
        return None;
    };
    proof {
        assert(v@.subrange(from as int, j as int) =~= lit@ + quoted(s@));
    }
    Some((Some(s), j))
}

/// Parses an optional `<lit>true|false` section: absent sections consume
/// nothing.
fn parse_opt_bool_field(v: &Vec<char>, from: usize, lit: &str) -> (r: Option<
    (Option<bool>, usize),
>)
    ensures
        match r {
            Some((Some(b), j)) => from <= j <= v@.len() && v@.subrange(from as int, j as int)
                == lit@ + enc_bool(b),
            Some((None, j)) => j == from && !occurs_at(v@, lit@, from as int),
            None => true,
        },
        forall|b: bool|
            occurs_at(v@, lit@, from as int) && #[trigger] occurs_at(
                v@,
                enc_bool(b),
                from + lit@.len(),
            ) ==> r is Some && r->Some_0.0 == Some(b) && r->Some_0.1 == from + lit@.len()
                + enc_bool(b).len(),
        !occurs_at(v@, lit@, from as int) ==> r == Some((None::<bool>, from)),
{
    proof {
        reveal_strlit("true");
        reveal_strlit("false");
    }
    let Some(q) = expect_lit(v, from, lit) else {
        return Some((None, from));
    };
    if let Some(j) = expect_lit(v, q, "true") {
        proof {
            assert(v@.subrange(from as int, j as int) =~= lit@ + enc_bool(true));
            assert forall|b: bool|
                occurs_at(v@, lit@, from as int) && #[trigger] occurs_at(
                    v@,
                    enc_bool(b),
                    from + lit@.len(),
                ) implies b == true by {
                if !b {
                    assert(v@[q as int] == enc_bool(b)[0]) by {
                        assert(v@.subrange(q as int, q + enc_bool(b).len())[0] == v@[q as int]);
                    }
                    assert(v@[q as int] == "true"@[0]) by {
                        assert(v@.subrange(q as int, q + "true"@.len())[0] == v@[q as int]);
                    }
                }
            }
        }
        return Some((Some(true), j));
    }
    if let Some(j) = expect_lit(v, q, "false") {
        proof {
            assert(v@.subrange(from as int, j as int) =~= lit@ + enc_bool(false));
            assert forall|b: bool|
                occurs_at(v@, lit@, from as int) && #[trigger] occurs_at(
                    v@,
                    enc_bool(b),
                    from + lit@.len(),
                ) implies b == false by {}
        }
        return Some((Some(false), j));
    }
    proof {
        assert forall|b: bool|
            !(occurs_at(v@, lit@, from as int) && #[trigger] occurs_at(
                v@,
                enc_bool(b),
                from + lit@.len(),
            )) by {}
    }
    None
}

/// Where each piece of a canonical progress line sits.
proof fn lemma_progress_pieces(v: Seq<char>, m: EventModel)
    requires
        m is Progress,
        v == enc_event(m),
    ensures
        match m {
            EventModel::Progress { stage, message, percent, detail } => {
                let p0 = head_progress().len() as int;
                let p1 = p0 + quoted(stage).len();
                let p2 = p1 + lit_message().len();
                let p3 = p2 + quoted(message).len();
                let p4 = p3 + (match percent {
                    Some(p) => lit_percent().len() + dec_chars(p as nat).len(),
                    None => 0,
                });
                let p5 = p4 + (match detail {
                    Some(d) => lit_detail().len() + quoted(d).len(),
                    None => 0,
                });
                &&& occurs_at(v, head_progress(), 0)
                &&& occurs_at(v, quoted(stage), p0)
                &&& occurs_at(v, lit_message(), p1)
                &&& occurs_at(v, quoted(message), p2)
                &&& match percent {
                    Some(p) => occurs_at(v, lit_percent(), p3) && dec_token_at(
                        v,
                        p3 + lit_percent().len(),
                        p as nat,
                    ),
                    None => !occurs_at(v, lit_percent(), p3),
                }
                &&& match detail {
                    Some(d) => occurs_at(v, lit_detail(), p4) && occurs_at(
                        v,
                        quoted(d),
                        p4 + lit_detail().len(),
                    ),
                    None => !occurs_at(v, lit_detail(), p4),
                }
                &&& occurs_at(v, lit_rbrace(), p5)
                &&& v.len() == p5 + 1
            },
            _ => true,
        },
{
    reveal_strlit("{\"kind\":\"progress\",\"stage\":");
    reveal_strlit(",\"message\":");
    reveal_strlit(",\"percent\":");
    reveal_strlit(",\"detail\":");
    reveal_strlit("}");
    match m {
        EventModel::Progress { stage, message, percent, detail } => {
            let ppart: Seq<char> = match percent {
                Some(p) => lit_percent() + dec_chars(p as nat),
                None => Seq::empty(),
            };
            let dpart: Seq<char> = match detail {
                Some(d) => lit_detail() + quoted(d),
                None => Seq::empty(),
            };
            let a1 = head_progress() + quoted(stage);
            let a2 = a1 + lit_message();
            let a3 = a2 + quoted(message);
            let a4 = a3 + ppart;
            let a5 = a4 + dpart;
            assert(v == a5 + lit_rbrace());
            assert(occurs_at(v, a5 + lit_rbrace(), 0)) by {
                assert(v.subrange(0, v.len() as int) =~= v);
            }
            lemma_occurs_split(v, a5, lit_rbrace(), 0);
            lemma_occurs_split(v, a4, dpart, 0);
            lemma_occurs_split(v, a3, ppart, 0);
            lemma_occurs_split(v, a2, quoted(message), 0);
            lemma_occurs_split(v, a1, lit_message(), 0);
            lemma_occurs_split(v, head_progress(), quoted(stage), 0);
            let p3 = a3.len() as int;
            let p4 = a4.len() as int;
            if percent is Some {
                lemma_occurs_split(v, lit_percent(), dec_chars(percent->Some_0 as nat), p3);
                // The numeral is followed by `,` or `}`, neither a digit.
                if detail is Some {
                    lemma_occurs_split(v, lit_detail(), quoted(detail->Some_0), p4);
                    assert(v[p4] == lit_detail()[0]) by {
                        assert(v.subrange(p4, p4 + lit_detail().len())[0] == v[p4]);
                    }
                } else {
                    assert(v[p4] == lit_rbrace()[0]) by {
                        assert(v.subrange(p4, p4 + lit_rbrace().len())[0] == v[p4]);
                    }
                }
            } else {
                if detail is Some {
                    lemma_occurs_split(v, lit_detail(), quoted(detail->Some_0), p4);
                    assert(!occurs_at(v, lit_percent(), p3)) by {
                        if occurs_at(v, lit_percent(), p3) {
                            assert(v[p3 + 2] == lit_percent()[2]) by {
                                assert(v.subrange(p3, p3 + lit_percent().len())[2] == v[p3 + 2]);
                            }
                            assert(v[p4 + 2] == lit_detail()[2]) by {
                                assert(v.subrange(p4, p4 + lit_detail().len())[2] == v[p4 + 2]);
                            }
                        }
                    }
                } else {
                    assert(!occurs_at(v, lit_percent(), p3));
                }
            }
            if detail is None {
                assert(!occurs_at(v, lit_detail(), p4));
            }
        },
        _ => {},
    }
}

/// Decodes the fields of a progress line after its head.
#[verifier::rlimit(100)]
fn decode_progress(v: &Vec<char>, p: usize) -> (r: Option<WorkerEvent>)
    requires
        occurs_at(v@, head_progress(), 0),
        p == head_progress().len(),
    ensures
        r is Some ==> v@ == enc_event(event_model(r->Some_0)),
        forall|m: EventModel| v@ == enc_event(m) && m is Progress ==> r is Some && event_model(
            r->Some_0,
        ) == m,
{
    let Some((stage, q1)) = parse_quoted(v, p) else {
        proof {
            assert forall|m: EventModel| !(v@ == enc_event(m) && m is Progress) by {
                if v@ == enc_event(m) && m is Progress {
                    lemma_progress_pieces(v@, m);
                    match m {
                        EventModel::Progress { stage, .. } => {
                            assert(occurs_at(v@, quoted(stage), p as int));
                        },
                        _ => {},
                    }
                }
            }
        }
        return None;
    };
    let Some(q2) = expect_lit(v, q1, ",\"message\":") else {
        proof {
            assert forall|m: EventModel| !(v@ == enc_event(m) && m is Progress) by {
                if v@ == enc_event(m) && m is Progress {
                    lemma_progress_pieces(v@, m);
                    match m {
                        EventModel::Progress { stage, .. } => {
                            assert(occurs_at(v@, quoted(stage), p as int));
                            assert(occurs_at(v@, lit_message(), q1 as int));
                        },
                        _ => {},
                    }
                }
            }
        }
        return None;
    };
    let Some((message, q3)) = parse_quoted(v, q2) else {
        proof {
            assert forall|m: EventModel| !(v@ == enc_event(m) && m is Progress) by {
                if v@ == enc_event(m) && m is Progress {
                    lemma_progress_pieces(v@, m);
                    match m {
                        EventModel::Progress { stage, message, .. } => {
                            assert(occurs_at(v@, quoted(stage), p as int));
                            assert(occurs_at(v@, quoted(message), q2 as int));
                        },
                        _ => {},
                    }
                }
            }
        }
        return None;
    };
    proof {
        assert(occurs_at(v@, quoted(stage@), p as int));
        assert(occurs_at(v@, lit_message(), p + quoted(stage@).len()));
        assert(occurs_at(v@, quoted(message@), p + quoted(stage@).len() + lit_message().len()));
    }
    decode_progress_rest(v, p, stage, message, q3)
}

/// Decodes the optional and closing sections of a progress line, the fixed
/// fields having been consumed.
#[verifier::rlimit(100)]
fn decode_progress_rest(v: &Vec<char>, p: usize, stage: String, message: String, q3: usize) -> (r:
    Option<WorkerEvent>)
    requires
        p == head_progress().len(),
        occurs_at(v@, head_progress(), 0),
        occurs_at(v@, quoted(stage@), p as int),
        occurs_at(v@, lit_message(), p + quoted(stage@).len()),
        occurs_at(v@, quoted(message@), p + quoted(stage@).len() + lit_message().len()),
        q3 == p + quoted(stage@).len() + lit_message().len() + quoted(message@).len(),
        q3 <= v@.len(),
    ensures
        r is Some ==> v@ == enc_event(event_model(r->Some_0)),
        forall|m: EventModel| v@ == enc_event(m) && m is Progress ==> r is Some && event_model(
            r->Some_0,
        ) == m,
{
    let Some((percent, q4)) = parse_opt_percent(v, q3) else {
        proof {
            assert forall|m: EventModel| !(v@ == enc_event(m) && m is Progress) by {
                if v@ == enc_event(m) && m is Progress {
                    lemma_progress_pieces(v@, m);
                    match m {
                        EventModel::Progress { stage: sm, message: mm, percent: pm, .. } => {
                            crate::codec::lemma_quoted_unique(v@, p as int, stage@, sm);
                            crate::codec::lemma_quoted_unique(
                                v@,
                                p + quoted(sm).len() + lit_message().len(),
                                message@,
                                mm,
                            );
                            if pm is Some {
                                assert(occurs_at(v@, lit_percent(), q3 as int));
                                assert(dec_token_at(
                                    v@,
                                    q3 + lit_percent().len(),
                                    pm->Some_0 as nat,
                                ));
                            } else {
                                assert(!occurs_at(v@, lit_percent(), q3 as int));
                            }
                        },
                        _ => {},
                    }
                }
            }
        }
        return None;
    };
    proof {
        if percent is Some {
            assert(v@.subrange(q3 as int, q4 as int).len() == (lit_percent() + dec_chars(
                percent->Some_0 as nat,
            )).len());
        }
    }
    let Some((detail, q5)) = parse_opt_str_field(v, q4, ",\"detail\":") else {
        proof {
            assert forall|m: EventModel| !(v@ == enc_event(m) && m is Progress) by {
                if v@ == enc_event(m) && m is Progress {
                    lemma_progress_pieces(v@, m);
                    match m {
                        EventModel::Progress { stage: sm, message: mm, percent: pm, detail: dm } => {
                            crate::codec::lemma_quoted_unique(v@, p as int, stage@, sm);
                            crate::codec::lemma_quoted_unique(
                                v@,
                                p + quoted(sm).len() + lit_message().len(),
                                message@,
                                mm,
                            );
                            if pm is Some {
                                assert(occurs_at(v@, lit_percent(), q3 as int));
                                assert(dec_token_at(
                                    v@,
                                    q3 + lit_percent().len(),
                                    pm->Some_0 as nat,
                                ));
                            } else {
                                assert(!occurs_at(v@, lit_percent(), q3 as int));
                            }
                            assert(lit_detail() == ",\"detail\":"@);
                            if dm is Some {
                                assert(occurs_at(v@, lit_detail(), q4 as int));
                                assert(occurs_at(v@, quoted(dm->Some_0), q4 + lit_detail().len()));
                            } else {
                                assert(!occurs_at(v@, lit_detail(), q4 as int));
                            }
                        },
                        _ => {},
                    }
                }
            }
        }
        return None;
    };
    proof {
        if detail is Some {
            assert(v@.subrange(q4 as int, q5 as int).len() == (lit_detail() + quoted(
                detail->Some_0@,
            )).len());
        }
    }
    let q6 = match expect_lit(v, q5, "}") {
        Some(q6) => q6,
        None => {
            proof {
                assert forall|m: EventModel| !(v@ == enc_event(m) && m is Progress) by {
                    if v@ == enc_event(m) && m is Progress {
                        lemma_progress_agrees(
                            v@,
                            m,
                            stage@,
                            message@,
                            percent,
                            opt_view(&detail),
                            p as int,
                            q4 as int,
                            q5 as int,
                        );
                        assert(occurs_at(v@, lit_rbrace(), q5 as int));
                    }
                }
            }
            return None;
        },
    };
    if q6 != v.len() {
        proof {
            assert forall|m: EventModel| !(v@ == enc_event(m) && m is Progress) by {
                if v@ == enc_event(m) && m is Progress {
                    lemma_progress_agrees(
                        v@,
                        m,
                        stage@,
                        message@,
                        percent,
                        opt_view(&detail),
                        p as int,
                        q4 as int,
                        q5 as int,
                    );
                }
            }
        }
        return None;
    }
    let result = WorkerEvent::Progress { stage, message, percent, detail };
    proof {
        let rm = event_model(result);
        assert(v@ =~= v@.subrange(0, p as int) + v@.subrange(p as int, q3 as int) + v@.subrange(
            q3 as int,
            q4 as int,
        ) + v@.subrange(q4 as int, q5 as int) + v@.subrange(q5 as int, q6 as int));
        assert(v@.subrange(0, p as int) == head_progress());
        assert(v@.subrange(p as int, q3 as int) =~= quoted(stage@) + lit_message() + quoted(
            message@,
        )) by {
            let q1 = p + quoted(stage@).len();
            let q2 = q1 + lit_message().len();
            assert(v@.subrange(p as int, q3 as int) =~= v@.subrange(p as int, q1) + v@.subrange(
                q1,
                q2,
            ) + v@.subrange(q2, q3 as int));
        }
        assert(v@.subrange(q5 as int, q6 as int) == lit_rbrace());
        assert(v@ =~= enc_event(rm));
        assert forall|m: EventModel| v@ == enc_event(m) && m is Progress implies event_model(
            result,
        ) == m by {
            lemma_progress_agrees(
                v@,
                m,
                stage@,
                message@,
                percent,
                opt_view(&detail),
                p as int,
                q4 as int,
                q5 as int,
            );
        }
    }
    Some(result)
}

/// The view of an optional string.
pub open spec fn opt_view(d: &Option<String>) -> Option<Seq<char>> {
    match d {
        Some(s) => Some(s@),
        None => None,
    }
}

/// If a canonical progress line both encodes `m` and was consumed by the
/// decoder into the given pieces, the pieces agree with `m` field by field.
proof fn lemma_progress_agrees(
    v: Seq<char>,
    m: EventModel,
    stage: Seq<char>,
    message: Seq<char>,
    percent: Option<u8>,
    detail: Option<Seq<char>>,
    p: int,
    q4: int,
    q5: int,
)
    requires
        m is Progress,
        v == enc_event(m),
        p == head_progress().len(),
        occurs_at(v, quoted(stage), p),
        occurs_at(v, lit_message(), p + quoted(stage).len()),
        occurs_at(v, quoted(message), p + quoted(stage).len() + lit_message().len()),
        q4 == p + quoted(stage).len() + lit_message().len() + quoted(message).len() + (
        match percent {
            Some(n) => lit_percent().len() + dec_chars(n as nat).len() as int,
            None => 0,
        }),
        match percent {
            Some(n) => occurs_at(
                v,
                lit_percent() + dec_chars(n as nat),
                p + quoted(stage).len() + lit_message().len() + quoted(message).len(),
            ) && (q4 == v.len() || !is_digit(v[q4])),
            None => !occurs_at(
                v,
                lit_percent(),
                p + quoted(stage).len() + lit_message().len() + quoted(message).len(),
            ),
        },
        q5 == q4 + (match detail {
            Some(d) => lit_detail().len() + quoted(d).len() as int,
            None => 0,
        }),
        match detail {
            Some(d) => occurs_at(v, lit_detail() + quoted(d), q4),
            None => !occurs_at(v, lit_detail(), q4),
        },
    ensures
        match m {
            EventModel::Progress { stage: sm, message: mm, percent: pm, detail: dm } => sm == stage
                && mm == message && pm == percent && dm == detail && q5 == enc_event(m).len() - 1
                && occurs_at(v, lit_rbrace(), q5),
            _ => true,
        },
{
    lemma_progress_pieces(v, m);
    match m {
        EventModel::Progress { stage: sm, message: mm, percent: pm, detail: dm } => {
            let p0 = head_progress().len() as int;
            crate::codec::lemma_quoted_unique(v, p0, stage, sm);
            assert(stage == sm);
            let p2 = p0 + quoted(sm).len() + lit_message().len();
            crate::codec::lemma_quoted_unique(v, p2, message, mm);
            assert(message == mm);
            let p3 = p2 + quoted(mm).len();
            match (percent, pm) {
                (Some(n), Some(nm)) => {
                    lemma_occurs_split(
                        v,
                        lit_percent(),
                        dec_chars(n as nat),
                        p3,
                    );
                    crate::codec::lemma_dec_token_unique(
                        v,
                        p3 + lit_percent().len(),
                        n as nat,
                        nm as nat,
                    );
                },
                (Some(n), None) => {
                    lemma_occurs_split(v, lit_percent(), dec_chars(n as nat), p3);
                    assert(false);
                },
                (None, Some(nm)) => {
                    assert(false);
                },
                (None, None) => {},
            }
            let q4b = p3 + (match pm {
                Some(n) => lit_percent().len() + dec_chars(n as nat).len() as int,
                None => 0,
            });
            assert(q4 == q4b);
            match (detail, dm) {
                (Some(d), Some(dmm)) => {
                    lemma_occurs_split(v, lit_detail(), quoted(d), q4);
                    crate::codec::lemma_quoted_unique(
                        v,
                        q4 + lit_detail().len(),
                        d,
                        dmm,
                    );
                },
                (Some(d), None) => {
                    lemma_occurs_split(v, lit_detail(), quoted(d), q4);
                    assert(false);
                },
                (None, Some(dmm)) => {
                    assert(false);
                },
                (None, None) => {},
            }
        },
        _ => {},
    }
}


/// Where each piece of a canonical runtime-log line sits.
proof fn lemma_runtime_log_pieces(v: Seq<char>, m: EventModel)
    requires
        m is RuntimeLog,
        v == enc_event(m),
    ensures
        match m {
            EventModel::RuntimeLog { stream, line, ts } => {
                let p0 = head_runtime_log().len() as int;
                let p1 = p0 + quoted(stream).len();
                let p2 = p1 + lit_line().len();
                let p3 = p2 + quoted(line).len();
                let p4 = p3 + lit_ts().len();
                let p5 = p4 + i64_chars(ts as int).len();
                &&& occurs_at(v, head_runtime_log(), 0)
                &&& occurs_at(v, quoted(stream), p0)
                &&& occurs_at(v, lit_line(), p1)
                &&& occurs_at(v, quoted(line), p2)
                &&& occurs_at(v, lit_ts(), p3)
                &&& i64_token_at(v, p4, ts)
                &&& occurs_at(v, lit_rbrace(), p5)
                &&& v.len() == p5 + 1
            },
            _ => true,
        },
{
    reveal_strlit("{\"kind\":\"runtimeLog\",\"stream\":");
    reveal_strlit(",\"line\":");
    reveal_strlit(",\"ts\":");
    reveal_strlit("}");
    match m {
        EventModel::RuntimeLog { stream, line, ts } => {
            let a1 = head_runtime_log() + quoted(stream);
            let a2 = a1 + lit_line();
            let a3 = a2 + quoted(line);
            let a4 = a3 + lit_ts();
            let a5 = a4 + i64_chars(ts as int);
            assert(v == a5 + lit_rbrace());
            assert(occurs_at(v, a5 + lit_rbrace(), 0)) by {
                assert(v.subrange(0, v.len() as int) =~= v);
            }
            lemma_occurs_split(v, a5, lit_rbrace(), 0);
            lemma_occurs_split(v, a4, i64_chars(ts as int), 0);
            lemma_occurs_split(v, a3, lit_ts(), 0);
            lemma_occurs_split(v, a2, quoted(line), 0);
            lemma_occurs_split(v, a1, lit_line(), 0);
            lemma_occurs_split(v, head_runtime_log(), quoted(stream), 0);
            let p5 = a5.len() as int;
            assert(v[p5] == lit_rbrace()[0]) by {
                assert(v.subrange(p5, p5 + lit_rbrace().len())[0] == v[p5]);
            }
        },
        _ => {},
    }
}

/// Decodes the fields of a runtime-log line after its head.
#[verifier::rlimit(100)]
fn decode_runtime_log(v: &Vec<char>, p: usize) -> (r: Option<WorkerEvent>)
    requires
        occurs_at(v@, head_runtime_log(), 0),
        p == head_runtime_log().len(),
    ensures
        r is Some ==> v@ == enc_event(event_model(r->Some_0)),
        forall|m: EventModel| v@ == enc_event(m) && m is RuntimeLog ==> r is Some && event_model(
            r->Some_0,
        ) == m,
{
    let Some((stream, q1)) = parse_quoted(v, p) else {
        proof {
            assert forall|m: EventModel| !(v@ == enc_event(m) && m is RuntimeLog) by {
                if v@ == enc_event(m) && m is RuntimeLog {
                    lemma_runtime_log_pieces(v@, m);
                    match m {
                        EventModel::RuntimeLog { stream: sm, .. } => {
                            assert(occurs_at(v@, quoted(sm), p as int));
                        },
                        _ => {},
                    }
                }
            }
        }
        return None;
    };
    let Some(q2) = expect_lit(v, q1, ",\"line\":") else {
        proof {
            assert forall|m: EventModel| !(v@ == enc_event(m) && m is RuntimeLog) by {
                if v@ == enc_event(m) && m is RuntimeLog {
                    lemma_runtime_log_pieces(v@, m);
                    match m {
                        EventModel::RuntimeLog { stream: sm, .. } => {
                            assert(occurs_at(v@, quoted(sm), p as int));
                            assert(occurs_at(v@, lit_line(), q1 as int));
                        },
                        _ => {},
                    }
                }
            }
        }
        return None;
    };
    let Some((line, q3)) = parse_quoted(v, q2) else {
        proof {
            assert forall|m: EventModel| !(v@ == enc_event(m) && m is RuntimeLog) by {
                if v@ == enc_event(m) && m is RuntimeLog {
                    lemma_runtime_log_pieces(v@, m);
                    match m {
                        EventModel::RuntimeLog { stream: sm, line: lm, .. } => {
                            assert(occurs_at(v@, quoted(sm), p as int));
                            assert(occurs_at(v@, quoted(lm), q2 as int));
                        },
                        _ => {},
                    }
                }
            }
        }
        return None;
    };
    let Some(q4) = expect_lit(v, q3, ",\"ts\":") else {
        proof {
            assert forall|m: EventModel| !(v@ == enc_event(m) && m is RuntimeLog) by {
                if v@ == enc_event(m) && m is RuntimeLog {
                    lemma_runtime_log_pieces(v@, m);
                    match m {
                        EventModel::RuntimeLog { stream: sm, line: lm, .. } => {
                            assert(occurs_at(v@, quoted(sm), p as int));
                            assert(occurs_at(v@, quoted(lm), q2 as int));
                            assert(occurs_at(v@, lit_ts(), q3 as int));
                        },
                        _ => {},
                    }
                }
            }
        }
        return None;
    };
    let Some((ts, q5)) = parse_dec_i64(v, q4) else {
        proof {
            assert forall|m: EventModel| !(v@ == enc_event(m) && m is RuntimeLog) by {
                if v@ == enc_event(m) && m is RuntimeLog {
                    lemma_runtime_log_pieces(v@, m);
                    match m {
                        EventModel::RuntimeLog { stream: sm, line: lm, ts: tm } => {
                            assert(occurs_at(v@, quoted(sm), p as int));
                            assert(occurs_at(v@, quoted(lm), q2 as int));
                            assert(i64_token_at(v@, q4 as int, tm));
                        },
                        _ => {},
                    }
                }
            }
        }
        return None;
    };
    let q6 = match expect_lit(v, q5, "}") {
        Some(q6) => q6,
        None => {
            proof {
                assert forall|m: EventModel| !(v@ == enc_event(m) && m is RuntimeLog) by {
                    if v@ == enc_event(m) && m is RuntimeLog {
                        lemma_runtime_log_pieces(v@, m);
                        match m {
                            EventModel::RuntimeLog { stream: sm, line: lm, ts: tm } => {
                                assert(occurs_at(v@, quoted(sm), p as int));
                                assert(occurs_at(v@, quoted(lm), q2 as int));
                                assert(i64_token_at(v@, q4 as int, tm));
                                crate::codec::lemma_i64_token_unique(v@, q4 as int, ts, tm);
                                assert(occurs_at(v@, lit_rbrace(), q5 as int));
                            },
                            _ => {},
                        }
                    }
                }
            }
            return None;
        },
    };
    if q6 != v.len() {
        proof {
            assert forall|m: EventModel| !(v@ == enc_event(m) && m is RuntimeLog) by {
                if v@ == enc_event(m) && m is RuntimeLog {
                    lemma_runtime_log_pieces(v@, m);
                    match m {
                        EventModel::RuntimeLog { stream: sm, line: lm, ts: tm } => {
                            assert(occurs_at(v@, quoted(sm), p as int));
                            assert(occurs_at(v@, quoted(lm), q2 as int));
                            assert(i64_token_at(v@, q4 as int, tm));
                            crate::codec::lemma_i64_token_unique(v@, q4 as int, ts, tm);
                        },
                        _ => {},
                    }
                }
            }
        }
        return None;
    }
    let result = WorkerEvent::RuntimeLog { stream, line, ts };
    proof {
        let rm = event_model(result);
        assert(v@ =~= v@.subrange(0, p as int) + v@.subrange(p as int, q1 as int) + v@.subrange(
            q1 as int,
            q2 as int,
        ) + v@.subrange(q2 as int, q3 as int) + v@.subrange(q3 as int, q4 as int) + v@.subrange(
            q4 as int,
            q5 as int,
        ) + v@.subrange(q5 as int, q6 as int));
        assert(v@.subrange(0, p as int) == head_runtime_log());
        assert(v@.subrange(q5 as int, q6 as int) == lit_rbrace());
        assert(v@ =~= enc_event(rm));
        assert forall|m: EventModel| v@ == enc_event(m) && m is RuntimeLog implies event_model(
            result,
        ) == m by {
            lemma_runtime_log_pieces(v@, m);
            match m {
                EventModel::RuntimeLog { stream: sm, line: lm, ts: tm } => {
                    crate::codec::lemma_quoted_unique(v@, p as int, stream@, sm);
                    crate::codec::lemma_quoted_unique(
                        v@,
                        p + quoted(sm).len() + lit_line().len(),
                        line@,
                        lm,
                    );
                    assert(i64_token_at(v@, q4 as int, tm));
                    crate::codec::lemma_i64_token_unique(v@, q4 as int, ts, tm);
                },
                _ => {},
            }
        }
    }
    Some(result)
}

/// Where each piece of a canonical state line sits.
proof fn lemma_state_pieces(v: Seq<char>, m: EventModel)
    requires
        m is State,
        v == enc_event(m),
    ensures
        match m {
            EventModel::State { download_state, last_error, installed, enabled } => {
                let p0 = head_state().len() as int;
                let p1 = p0 + quoted(download_state).len();
                let p2 = p1 + lit_last_error().len();
                let p3 = p2 + quoted(last_error).len();
                let p4 = p3 + (match installed {
                    Some(b) => lit_installed().len() + enc_bool(b).len() as int,
                    None => 0,
                });
                let p5 = p4 + (match enabled {
                    Some(b) => lit_enabled().len() + enc_bool(b).len() as int,
                    None => 0,
                });
                &&& occurs_at(v, head_state(), 0)
                &&& occurs_at(v, quoted(download_state), p0)
                &&& occurs_at(v, lit_last_error(), p1)
                &&& occurs_at(v, quoted(last_error), p2)
                &&& match installed {
                    Some(b) => occurs_at(v, lit_installed(), p3) && occurs_at(
                        v,
                        enc_bool(b),
                        p3 + lit_installed().len(),
                    ),
                    None => !occurs_at(v, lit_installed(), p3),
                }
                &&& match enabled {
                    Some(b) => occurs_at(v, lit_enabled(), p4) && occurs_at(
                        v,
                        enc_bool(b),
                        p4 + lit_enabled().len(),
                    ),
                    None => !occurs_at(v, lit_enabled(), p4),
                }
                &&& occurs_at(v, lit_rbrace(), p5)
                &&& v.len() == p5 + 1
            },
            _ => true,
        },
{
    reveal_strlit("{\"kind\":\"state\",\"download_state\":");
    reveal_strlit(",\"last_error\":");
    reveal_strlit(",\"installed\":");
    reveal_strlit(",\"enabled\":");
    reveal_strlit("true");
    reveal_strlit("false");
    reveal_strlit("}");
    match m {
        EventModel::State { download_state, last_error, installed, enabled } => {
            let ipart: Seq<char> = match installed {
                Some(b) => lit_installed() + enc_bool(b),
                None => Seq::empty(),
            };
            let epart: Seq<char> = match enabled {
                Some(b) => lit_enabled() + enc_bool(b),
                None => Seq::empty(),
            };
            let a1 = head_state() + quoted(download_state);
            let a2 = a1 + lit_last_error();
            let a3 = a2 + quoted(last_error);
            let a4 = a3 + ipart;
            let a5 = a4 + epart;
            assert(v == a5 + lit_rbrace());
            assert(occurs_at(v, a5 + lit_rbrace(), 0)) by {
                assert(v.subrange(0, v.len() as int) =~= v);
            }
            lemma_occurs_split(v, a5, lit_rbrace(), 0);
            lemma_occurs_split(v, a4, epart, 0);
            lemma_occurs_split(v, a3, ipart, 0);
            lemma_occurs_split(v, a2, quoted(last_error), 0);
            lemma_occurs_split(v, a1, lit_last_error(), 0);
            lemma_occurs_split(v, head_state(), quoted(download_state), 0);
            let p3 = a3.len() as int;
            let p4 = a4.len() as int;
            if installed is Some {
                lemma_occurs_split(v, lit_installed(), enc_bool(installed->Some_0), p3);
            } else {
                if enabled is Some {
                    lemma_occurs_split(v, lit_enabled(), enc_bool(enabled->Some_0), p4);
                    assert(!occurs_at(v, lit_installed(), p3)) by {
                        if occurs_at(v, lit_installed(), p3) {
                            assert(v[p3 + 2] == lit_installed()[2]) by {
                                assert(v.subrange(p3, p3 + lit_installed().len())[2] == v[p3 + 2]);
                            }
                            assert(v[p4 + 2] == lit_enabled()[2]) by {
                                assert(v.subrange(p4, p4 + lit_enabled().len())[2] == v[p4 + 2]);
                            }
                        }
                    }
                } else {
                    assert(!occurs_at(v, lit_installed(), p3));
                }
            }
            if enabled is Some {
                lemma_occurs_split(v, lit_enabled(), enc_bool(enabled->Some_0), p4);
            } else {
                assert(!occurs_at(v, lit_enabled(), p4));
            }
        },
        _ => {},
    }
}

/// The view of an optional boolean: itself.
pub open spec fn opt_bool(d: &Option<bool>) -> Option<bool> {
    *d
}

/// If a canonical state line both encodes `m` and was consumed by the
/// decoder into the given pieces, the pieces agree with `m` field by field.
proof fn lemma_state_agrees(
    v: Seq<char>,
    m: EventModel,
    download_state: Seq<char>,
    last_error: Seq<char>,
    installed: Option<bool>,
    enabled: Option<bool>,
    p: int,
    q4: int,
    q5: int,
)
    requires
        m is State,
        v == enc_event(m),
        p == head_state().len(),
        occurs_at(v, quoted(download_state), p),
        occurs_at(v, lit_last_error(), p + quoted(download_state).len()),
        occurs_at(
            v,
            quoted(last_error),
            p + quoted(download_state).len() + lit_last_error().len(),
        ),
        q4 == p + quoted(download_state).len() + lit_last_error().len() + quoted(
            last_error,
        ).len() + (match installed {
            Some(b) => lit_installed().len() + enc_bool(b).len() as int,
            None => 0,
        }),
        match installed {
            Some(b) => occurs_at(
                v,
                lit_installed() + enc_bool(b),
                p + quoted(download_state).len() + lit_last_error().len() + quoted(
                    last_error,
                ).len(),
            ),
            None => !occurs_at(
                v,
                lit_installed(),
                p + quoted(download_state).len() + lit_last_error().len() + quoted(
                    last_error,
                ).len(),
            ),
        },
        q5 == q4 + (match enabled {
            Some(b) => lit_enabled().len() + enc_bool(b).len() as int,
            None => 0,
        }),
        match enabled {
            Some(b) => occurs_at(v, lit_enabled() + enc_bool(b), q4),
            None => !occurs_at(v, lit_enabled(), q4),
        },
    ensures
        match m {
            EventModel::State { download_state: sm, last_error: em, installed: im, enabled: nm } =>
                sm == download_state && em == last_error && im == installed && nm == enabled && q5
                == enc_event(m).len() - 1 && occurs_at(v, lit_rbrace(), q5),
            _ => true,
        },
{
    reveal_strlit("true");
    reveal_strlit("false");
    lemma_state_pieces(v, m);
    match m {
        EventModel::State { download_state: sm, last_error: em, installed: im, enabled: nm } => {
            let p0 = head_state().len() as int;
            crate::codec::lemma_quoted_unique(v, p0, download_state, sm);
            let p2 = p0 + quoted(sm).len() + lit_last_error().len();
            crate::codec::lemma_quoted_unique(v, p2, last_error, em);
            let p3 = p2 + quoted(em).len();
            match (installed, im) {
                (Some(b), Some(bm)) => {
                    lemma_occurs_split(v, lit_installed(), enc_bool(b), p3);
                    lemma_bool_unique(v, p3 + lit_installed().len(), b, bm);
                },
                (Some(b), None) => {
                    lemma_occurs_split(v, lit_installed(), enc_bool(b), p3);
                    assert(false);
                },
                (None, Some(bm)) => {
                    assert(false);
                },
                (None, None) => {},
            }
            let q4b = p3 + (match im {
                Some(b) => lit_installed().len() + enc_bool(b).len() as int,
                None => 0,
            });
            assert(q4 == q4b);
            match (enabled, nm) {
                (Some(b), Some(bm)) => {
                    lemma_occurs_split(v, lit_enabled(), enc_bool(b), q4);
                    lemma_bool_unique(v, q4 + lit_enabled().len(), b, bm);
                },
                (Some(b), None) => {
                    lemma_occurs_split(v, lit_enabled(), enc_bool(b), q4);
                    assert(false);
                },
                (None, Some(bm)) => {
                    assert(false);
                },
                (None, None) => {},
            }
        },
        _ => {},
    }
}

/// Two boolean field values occurring at the same position are equal.
proof fn lemma_bool_unique(v: Seq<char>, i: int, a: bool, b: bool)
    requires
        occurs_at(v, enc_bool(a), i),
        occurs_at(v, enc_bool(b), i),
    ensures
        a == b,
{
    reveal_strlit("true");
    reveal_strlit("false");
    if a != b {
        assert(v[i] == enc_bool(a)[0]) by {
            assert(v.subrange(i, i + enc_bool(a).len())[0] == v[i]);
        }
        assert(v[i] == enc_bool(b)[0]) by {
            assert(v.subrange(i, i + enc_bool(b).len())[0] == v[i]);
        }
    }
}

/// Decodes the fields of a state line after its head.
#[verifier::rlimit(100)]
fn decode_state(v: &Vec<char>, p: usize) -> (r: Option<WorkerEvent>)
    requires
        occurs_at(v@, head_state(), 0),
        p == head_state().len(),
    ensures
        r is Some ==> v@ == enc_event(event_model(r->Some_0)),
        forall|m: EventModel| v@ == enc_event(m) && m is State ==> r is Some && event_model(
            r->Some_0,
        ) == m,
{
    let Some((download_state, q1)) = parse_quoted(v, p) else {
        proof {
            assert forall|m: EventModel| !(v@ == enc_event(m) && m is State) by {
                if v@ == enc_event(m) && m is State {
                    lemma_state_pieces(v@, m);
                    match m {
                        EventModel::State { download_state: sm, .. } => {
                            assert(occurs_at(v@, quoted(sm), p as int));
                        },
                        _ => {},
                    }
                }
            }
        }
        return None;
    };
    let Some(q2) = expect_lit(v, q1, ",\"last_error\":") else {
        proof {
            assert forall|m: EventModel| !(v@ == enc_event(m) && m is State) by {
                if v@ == enc_event(m) && m is State {
                    lemma_state_pieces(v@, m);
                    match m {
                        EventModel::State { download_state: sm, .. } => {
                            assert(occurs_at(v@, quoted(sm), p as int));
                            assert(occurs_at(v@, lit_last_error(), q1 as int));
                        },
                        _ => {},
                    }
                }
            }
        }
        return None;
    };
    let Some((last_error, q3)) = parse_quoted(v, q2) else {
        proof {
            assert forall|m: EventModel| !(v@ == enc_event(m) && m is State) by {
                if v@ == enc_event(m) && m is State {
                    lemma_state_pieces(v@, m);
                    match m {
                        EventModel::State { download_state: sm, last_error: em, .. } => {
                            assert(occurs_at(v@, quoted(sm), p as int));
                            assert(occurs_at(v@, quoted(em), q2 as int));
                        },
                        _ => {},
                    }
                }
            }
        }
        return None;
    };
    proof {
        assert(occurs_at(v@, quoted(download_state@), p as int));
        assert(occurs_at(v@, lit_last_error(), p + quoted(download_state@).len()));
        assert(occurs_at(
            v@,
            quoted(last_error@),
            p + quoted(download_state@).len() + lit_last_error().len(),
        ));
    }
    decode_state_rest(v, p, download_state, last_error, q3)
}

/// Decodes the optional and closing sections of a state line.
#[verifier::rlimit(100)]
fn decode_state_rest(
    v: &Vec<char>,
    p: usize,
    download_state: String,
    last_error: String,
    q3: usize,
) -> (r: Option<WorkerEvent>)
    requires
        p == head_state().len(),
        occurs_at(v@, head_state(), 0),
        occurs_at(v@, quoted(download_state@), p as int),
        occurs_at(v@, lit_last_error(), p + quoted(download_state@).len()),
        occurs_at(
            v@,
            quoted(last_error@),
            p + quoted(download_state@).len() + lit_last_error().len(),
        ),
        q3 == p + quoted(download_state@).len() + lit_last_error().len() + quoted(
            last_error@,
        ).len(),
        q3 <= v@.len(),
    ensures
        r is Some ==> v@ == enc_event(event_model(r->Some_0)),
        forall|m: EventModel| v@ == enc_event(m) && m is State ==> r is Some && event_model(
            r->Some_0,
        ) == m,
{
    let Some((installed, q4)) = parse_opt_bool_field(v, q3, ",\"installed\":") else {
        proof {
            assert forall|m: EventModel| !(v@ == enc_event(m) && m is State) by {
                if v@ == enc_event(m) && m is State {
                    lemma_state_pieces(v@, m);
                    match m {
                        EventModel::State { download_state: sm, last_error: em, installed: im, .. } => {
                            crate::codec::lemma_quoted_unique(v@, p as int, download_state@, sm);
                            crate::codec::lemma_quoted_unique(
                                v@,
                                p + quoted(sm).len() + lit_last_error().len(),
                                last_error@,
                                em,
                            );
                            assert(lit_installed() == ",\"installed\":"@);
                            if im is Some {
                                assert(occurs_at(v@, lit_installed(), q3 as int));
                                assert(occurs_at(
                                    v@,
                                    enc_bool(im->Some_0),
                                    q3 + lit_installed().len(),
                                ));
                            } else {
                                assert(!occurs_at(v@, lit_installed(), q3 as int));
                            }
                        },
                        _ => {},
                    }
                }
            }
        }
        return None;
    };
    proof {
        if installed is Some {
            assert(v@.subrange(q3 as int, q4 as int).len() == (",\"installed\":"@ + enc_bool(
                installed->Some_0,
            )).len());
            assert(occurs_at(v@, lit_installed() + enc_bool(installed->Some_0), q3 as int));
        } else {
            assert(!occurs_at(v@, lit_installed(), q3 as int));
        }
    }
    let Some((enabled, q5)) = parse_opt_bool_field(v, q4, ",\"enabled\":") else {
        proof {
            assert forall|m: EventModel| !(v@ == enc_event(m) && m is State) by {
                if v@ == enc_event(m) && m is State {
                    lemma_state_pieces(v@, m);
                    match m {
                        EventModel::State { download_state: sm, last_error: em, installed: im, enabled: nm } => {
                            crate::codec::lemma_quoted_unique(v@, p as int, download_state@, sm);
                            crate::codec::lemma_quoted_unique(
                                v@,
                                p + quoted(sm).len() + lit_last_error().len(),
                                last_error@,
                                em,
                            );
                            assert(lit_installed() == ",\"installed\":"@);
                            if im is Some {
                                assert(occurs_at(v@, lit_installed(), q3 as int));
                                assert(occurs_at(
                                    v@,
                                    enc_bool(im->Some_0),
                                    q3 + lit_installed().len(),
                                ));
                            } else {
                                assert(!occurs_at(v@, lit_installed(), q3 as int));
                            }
                            assert(installed == im && q4 == q3 + (match im {
                                Some(b) => lit_installed().len() + enc_bool(b).len() as int,
                                None => 0,
                            })) by {
                                if im is Some && installed is Some {
                                    lemma_bool_unique(
                                        v@,
                                        q3 + lit_installed().len(),
                                        installed->Some_0,
                                        im->Some_0,
                                    );
                                }
                            }
                            assert(lit_enabled() == ",\"enabled\":"@);
                            if nm is Some {
                                assert(occurs_at(v@, lit_enabled(), q4 as int));
                                assert(occurs_at(v@, enc_bool(nm->Some_0), q4 + lit_enabled().len()));
                            } else {
                                assert(!occurs_at(v@, lit_enabled(), q4 as int));
                            }
                        },
                        _ => {},
                    }
                }
            }
        }
        return None;
    };
    proof {
        if enabled is Some {
            assert(v@.subrange(q4 as int, q5 as int).len() == (",\"enabled\":"@ + enc_bool(
                enabled->Some_0,
            )).len());
            assert(occurs_at(v@, lit_enabled() + enc_bool(enabled->Some_0), q4 as int));
        } else {
            assert(!occurs_at(v@, lit_enabled(), q4 as int));
        }
    }
    let q6 = match expect_lit(v, q5, "}") {
        Some(q6) => q6,
        None => {
            proof {
                assert forall|m: EventModel| !(v@ == enc_event(m) && m is State) by {
                    if v@ == enc_event(m) && m is State {
                        lemma_state_agrees(
                            v@,
                            m,
                            download_state@,
                            last_error@,
                            installed,
                            enabled,
                            p as int,
                            q4 as int,
                            q5 as int,
                        );
                        assert(occurs_at(v@, lit_rbrace(), q5 as int));
                    }
                }
            }
            return None;
        },
    };
    if q6 != v.len() {
        proof {
            assert forall|m: EventModel| !(v@ == enc_event(m) && m is State) by {
                if v@ == enc_event(m) && m is State {
                    lemma_state_agrees(
                        v@,
                        m,
                        download_state@,
                        last_error@,
                        installed,
                        enabled,
                        p as int,
                        q4 as int,
                        q5 as int,
                    );
                }
            }
        }
        return None;
    }
    let result = WorkerEvent::State { download_state, last_error, installed, enabled };
    proof {
        let rm = event_model(result);
        assert(v@ =~= v@.subrange(0, p as int) + v@.subrange(p as int, q3 as int) + v@.subrange(
            q3 as int,
            q4 as int,
        ) + v@.subrange(q4 as int, q5 as int) + v@.subrange(q5 as int, q6 as int));
        assert(v@.subrange(0, p as int) == head_state());
        assert(v@.subrange(p as int, q3 as int) =~= quoted(download_state@) + lit_last_error()
            + quoted(last_error@)) by {
            let q1 = p + quoted(download_state@).len();
            let q2 = q1 + lit_last_error().len();
            assert(v@.subrange(p as int, q3 as int) =~= v@.subrange(p as int, q1) + v@.subrange(
                q1,
                q2,
            ) + v@.subrange(q2, q3 as int));
        }
        assert(v@.subrange(q5 as int, q6 as int) == lit_rbrace());
        assert(v@ =~= enc_event(rm));
        assert forall|m: EventModel| v@ == enc_event(m) && m is State implies event_model(
            result,
        ) == m by {
            lemma_state_agrees(
                v@,
                m,
                download_state@,
                last_error@,
                installed,
                enabled,
                p as int,
                q4 as int,
                q5 as int,
            );
        }
    }
    Some(result)
}

/// Where each piece of a canonical done or error line sits: both have a
/// single message field.
proof fn lemma_message_pieces(v: Seq<char>, m: EventModel)
    requires
        m is Done || m is Error,
        v == enc_event(m),
    ensures
        match m {
            EventModel::Done { message } => {
                let p0 = head_done().len() as int;
                let p1 = p0 + quoted(message).len();
                &&& occurs_at(v, head_done(), 0)
                &&& occurs_at(v, quoted(message), p0)
                &&& occurs_at(v, lit_rbrace(), p1)
                &&& v.len() == p1 + 1
            },
            EventModel::Error { message } => {
                let p0 = head_error().len() as int;
                let p1 = p0 + quoted(message).len();
                &&& occurs_at(v, head_error(), 0)
                &&& occurs_at(v, quoted(message), p0)
                &&& occurs_at(v, lit_rbrace(), p1)
                &&& v.len() == p1 + 1
            },
            _ => true,
        },
{
    reveal_strlit("{\"kind\":\"done\",\"message\":");
    reveal_strlit("{\"kind\":\"error\",\"message\":");
    reveal_strlit("}");
    match m {
        EventModel::Done { message } => {
            let a1 = head_done() + quoted(message);
            assert(v == a1 + lit_rbrace());
            assert(occurs_at(v, a1 + lit_rbrace(), 0)) by {
                assert(v.subrange(0, v.len() as int) =~= v);
            }
            lemma_occurs_split(v, a1, lit_rbrace(), 0);
            lemma_occurs_split(v, head_done(), quoted(message), 0);
        },
        EventModel::Error { message } => {
            let a1 = head_error() + quoted(message);
            assert(v == a1 + lit_rbrace());
            assert(occurs_at(v, a1 + lit_rbrace(), 0)) by {
                assert(v.subrange(0, v.len() as int) =~= v);
            }
            lemma_occurs_split(v, a1, lit_rbrace(), 0);
            lemma_occurs_split(v, head_error(), quoted(message), 0);
        },
        _ => {},
    }
}

/// Decodes the message field of a done line after its head.
fn decode_done(v: &Vec<char>, p: usize) -> (r: Option<WorkerEvent>)
    requires
        occurs_at(v@, head_done(), 0),
        p == head_done().len(),
    ensures
        r is Some ==> v@ == enc_event(event_model(r->Some_0)),
        forall|m: EventModel| v@ == enc_event(m) && m is Done ==> r is Some && event_model(
            r->Some_0,
        ) == m,
{
    let Some((message, q1)) = parse_quoted(v, p) else {
        proof {
            assert forall|m: EventModel| !(v@ == enc_event(m) && m is Done) by {
                if v@ == enc_event(m) && m is Done {
                    lemma_message_pieces(v@, m);
                    match m {
                        EventModel::Done { message: mm } => {
                            assert(occurs_at(v@, quoted(mm), p as int));
                        },
                        _ => {},
                    }
                }
            }
        }
        return None;
    };
    let Some(q2) = expect_lit(v, q1, "}") else {
        proof {
            assert forall|m: EventModel| !(v@ == enc_event(m) && m is Done) by {
                if v@ == enc_event(m) && m is Done {
                    lemma_message_pieces(v@, m);
                    match m {
                        EventModel::Done { message: mm } => {
                            assert(occurs_at(v@, quoted(mm), p as int));
                            assert(occurs_at(v@, lit_rbrace(), q1 as int));
                        },
                        _ => {},
                    }
                }
            }
        }
        return None;
    };
    if q2 != v.len() {
        proof {
            assert forall|m: EventModel| !(v@ == enc_event(m) && m is Done) by {
                if v@ == enc_event(m) && m is Done {
                    lemma_message_pieces(v@, m);
                    match m {
                        EventModel::Done { message: mm } => {
                            crate::codec::lemma_quoted_unique(v@, p as int, message@, mm);
                        },
                        _ => {},
                    }
                }
            }
        }
        return None;
    }
    let result = WorkerEvent::Done { message };
    proof {
        assert(v@ =~= v@.subrange(0, p as int) + v@.subrange(p as int, q1 as int) + v@.subrange(
            q1 as int,
            q2 as int,
        ));
        assert(v@.subrange(0, p as int) == head_done());
        assert(v@.subrange(q1 as int, q2 as int) == lit_rbrace());
        assert(v@ =~= enc_event(event_model(result)));
        assert forall|m: EventModel| v@ == enc_event(m) && m is Done implies event_model(result)
            == m by {
            lemma_message_pieces(v@, m);
            match m {
                EventModel::Done { message: mm } => {
                    crate::codec::lemma_quoted_unique(v@, p as int, message@, mm);
                },
                _ => {},
            }
        }
    }
    Some(result)
}

/// Decodes the message field of an error line after its head.
fn decode_error(v: &Vec<char>, p: usize) -> (r: Option<WorkerEvent>)
    requires
        occurs_at(v@, head_error(), 0),
        p == head_error().len(),
    ensures
        r is Some ==> v@ == enc_event(event_model(r->Some_0)),
        forall|m: EventModel| v@ == enc_event(m) && m is Error ==> r is Some && event_model(
            r->Some_0,
        ) == m,
{
    let Some((message, q1)) = parse_quoted(v, p) else {
        proof {
            assert forall|m: EventModel| !(v@ == enc_event(m) && m is Error) by {
                if v@ == enc_event(m) && m is Error {
                    lemma_message_pieces(v@, m);
                    match m {
                        EventModel::Error { message: mm } => {
                            assert(occurs_at(v@, quoted(mm), p as int));
                        },
                        _ => {},
                    }
                }
            }
        }
        return None;
    };
    let Some(q2) = expect_lit(v, q1, "}") else {
        proof {
            assert forall|m: EventModel| !(v@ == enc_event(m) && m is Error) by {
                if v@ == enc_event(m) && m is Error {
                    lemma_message_pieces(v@, m);
                    match m {
                        EventModel::Error { message: mm } => {
                            assert(occurs_at(v@, quoted(mm), p as int));
                            assert(occurs_at(v@, lit_rbrace(), q1 as int));
                        },
                        _ => {},
                    }
                }
            }
        }
        return None;
    };
    if q2 != v.len() {
        proof {
            assert forall|m: EventModel| !(v@ == enc_event(m) && m is Error) by {
                if v@ == enc_event(m) && m is Error {
                    lemma_message_pieces(v@, m);
                    match m {
                        EventModel::Error { message: mm } => {
                            crate::codec::lemma_quoted_unique(v@, p as int, message@, mm);
                        },
                        _ => {},
                    }
                }
            }
        }
        return None;
    }
    let result = WorkerEvent::Error { message };
    proof {
        assert(v@ =~= v@.subrange(0, p as int) + v@.subrange(p as int, q1 as int) + v@.subrange(
            q1 as int,
            q2 as int,
        ));
        assert(v@.subrange(0, p as int) == head_error());
        assert(v@.subrange(q1 as int, q2 as int) == lit_rbrace());
        assert(v@ =~= enc_event(event_model(result)));
        assert forall|m: EventModel| v@ == enc_event(m) && m is Error implies event_model(result)
            == m by {
            lemma_message_pieces(v@, m);
            match m {
                EventModel::Error { message: mm } => {
                    crate::codec::lemma_quoted_unique(v@, p as int, message@, mm);
                },
                _ => {},
            }
        }
    }
    Some(result)
}

/// Every canonical line starts with the head of its own variant, and the
/// heads tell the variants apart at the character after `{"kind":"`.
proof fn lemma_heads(v: Seq<char>, m: EventModel)
    requires
        v == enc_event(m),
    ensures
        m is Progress ==> occurs_at(v, head_progress(), 0),
        m is RuntimeLog ==> occurs_at(v, head_runtime_log(), 0),
        m is State ==> occurs_at(v, head_state(), 0),
        m is Done ==> occurs_at(v, head_done(), 0),
        m is Error ==> occurs_at(v, head_error(), 0),
        occurs_at(v, head_progress(), 0) ==> m is Progress,
        occurs_at(v, head_runtime_log(), 0) ==> m is RuntimeLog,
        occurs_at(v, head_state(), 0) ==> m is State,
        occurs_at(v, head_done(), 0) ==> m is Done,
        occurs_at(v, head_error(), 0) ==> m is Error,
{
    reveal_strlit("{\"kind\":\"progress\",\"stage\":");
    reveal_strlit("{\"kind\":\"runtimeLog\",\"stream\":");
    reveal_strlit("{\"kind\":\"state\",\"download_state\":");
    reveal_strlit("{\"kind\":\"done\",\"message\":");
    reveal_strlit("{\"kind\":\"error\",\"message\":");
    match m {
        EventModel::Progress { .. } => {
            lemma_progress_pieces(v, m);
        },
        EventModel::RuntimeLog { .. } => {
            lemma_runtime_log_pieces(v, m);
        },
        EventModel::State { .. } => {
            lemma_state_pieces(v, m);
        },
        EventModel::Done { .. } => {
            lemma_message_pieces(v, m);
        },
        EventModel::Error { .. } => {
            lemma_message_pieces(v, m);
        },
    }
    let own: Seq<char> = match m {
        EventModel::Progress { .. } => head_progress(),
        EventModel::RuntimeLog { .. } => head_runtime_log(),
        EventModel::State { .. } => head_state(),
        EventModel::Done { .. } => head_done(),
        EventModel::Error { .. } => head_error(),
    };
    assert(v[9] == own[9]) by {
        assert(v.subrange(0, own.len() as int)[9] == v[9]);
    }
    assert forall|h: Seq<char>|
        (h == head_progress() || h == head_runtime_log() || h == head_state() || h == head_done()
            || h == head_error()) && #[trigger] occurs_at(v, h, 0) && h != own implies false by {
        assert(v[9] == h[9]) by {
            assert(v.subrange(0, h.len() as int)[9] == v[9]);
        }
    }
}

/// Decodes one protocol line. Exactly the canonical encodings are accepted:
/// a successful decode re-encodes to the same line, and every encoded event
/// decodes back to an event with the same content (the round trip of the
/// protocol, stated by the two `ensures` clauses together with those of
/// `encode_event`).
pub fn decode_event(line: &str) -> (r: Option<WorkerEvent>)
    ensures
        r is Some ==> line@ == enc_event(event_model(r->Some_0)),
        forall|m: EventModel| line@ == enc_event(m) ==> r is Some && event_model(r->Some_0) == m,
{
    let v = string_to_chars(line);
    if let Some(p) = expect_lit(&v, 0, "{\"kind\":\"progress\",\"stage\":") {
        let r = decode_progress(&v, p);
        proof {
            assert forall|m: EventModel| line@ == enc_event(m) implies m is Progress by {
                lemma_heads(v@, m);
            }
        }
        return r;
    }
    if let Some(p) = expect_lit(&v, 0, "{\"kind\":\"runtimeLog\",\"stream\":") {
        let r = decode_runtime_log(&v, p);
        proof {
            assert forall|m: EventModel| line@ == enc_event(m) implies m is RuntimeLog by {
                lemma_heads(v@, m);
            }
        }
        return r;
    }
    if let Some(p) = expect_lit(&v, 0, "{\"kind\":\"state\",\"download_state\":") {
        let r = decode_state(&v, p);
        proof {
            assert forall|m: EventModel| line@ == enc_event(m) implies m is State by {
                lemma_heads(v@, m);
            }
        }
        return r;
    }
    if let Some(p) = expect_lit(&v, 0, "{\"kind\":\"done\",\"message\":") {
        let r = decode_done(&v, p);
        proof {
            assert forall|m: EventModel| line@ == enc_event(m) implies m is Done by {
                lemma_heads(v@, m);
            }
        }
        return r;
    }
    if let Some(p) = expect_lit(&v, 0, "{\"kind\":\"error\",\"message\":") {
        let r = decode_error(&v, p);
        proof {
            assert forall|m: EventModel| line@ == enc_event(m) implies m is Error by {
                lemma_heads(v@, m);
            }
        }
        return r;
    }
    proof {
        assert forall|m: EventModel| line@ != enc_event(m) by {
            if line@ == enc_event(m) {
                lemma_heads(v@, m);
            }
        }
    }
    None
}



/// Scans a process argument list for `--job-file` and hands back the value
/// that follows the first occurrence, as the worker entry point does.
pub fn parse_job_file_arg(args: &[String]) -> (r: Option<String>)
    ensures
        r is Some ==> (exists|i: int|
            0 <= i && i + 1 < args@.len() && #[trigger] args@[i]@ == "--job-file"@ && r->Some_0@
                == args@[i + 1]@),
        r is None ==> (forall|i: int| 0 <= i < args@.len() ==> #[trigger] args@[i]@
            != "--job-file"@) || (args@.len() >= 1 && args@[args@.len() - 1]@ == "--job-file"@),
{
    let mut index: usize = 0;
    let n = args.len();
    while index < n
        invariant
            index <= n,
            n == args@.len(),
            forall|j: int| 0 <= j < index ==> #[trigger] args@[j]@ != "--job-file"@,
        decreases n - index,
    {
        if crate::model::str_eq(args[index].as_str(), "--job-file") {
            if index + 1 < n {
                return Some(args[index + 1].clone());
            }
            return None;
        }
        index += 1;
    }
    None
}


pub open spec fn job_head() -> Seq<char> {
    "{\"localModel\":"@
}

pub open spec fn lit_service_url() -> Seq<char> {
    ",\"serviceUrl\":"@
}

pub open spec fn lit_model_id() -> Seq<char> {
    ",\"modelId\":"@
}

pub open spec fn lit_device() -> Seq<char> {
    ",\"device\":"@
}

pub open spec fn lit_runtime_dir() -> Seq<char> {
    ",\"runtimeDir\":"@
}

pub open spec fn lit_models_dir() -> Seq<char> {
    ",\"modelsDir\":"@
}

pub open spec fn lit_state_file() -> Seq<char> {
    ",\"stateFile\":"@
}

pub open spec fn lit_image_tag() -> Seq<char> {
    ",\"imageTag\":"@
}

pub open spec fn lit_container_name() -> Seq<char> {
    ",\"containerName\":"@
}

/// The canonical serialized form of a provisioning job.
pub open spec fn enc_job(j: WorkerJob) -> Seq<char> {
    job_head() + quoted(j.local_model@) + lit_service_url() + quoted(j.service_url@)
        + lit_model_id() + quoted(j.model_id@) + lit_device() + quoted(j.device@)
        + lit_runtime_dir() + quoted(j.runtime_dir@) + lit_models_dir() + quoted(j.models_dir@)
        + lit_state_file() + quoted(j.state_file@) + lit_image_tag() + quoted(j.image_tag@)
        + lit_container_name() + quoted(j.container_name@) + lit_rbrace()
}

/// Two jobs with the same field texts.
pub open spec fn job_eq(a: WorkerJob, b: WorkerJob) -> bool {
    &&& a.local_model@ == b.local_model@
    &&& a.service_url@ == b.service_url@
    &&& a.model_id@ == b.model_id@
    &&& a.device@ == b.device@
    &&& a.runtime_dir@ == b.runtime_dir@
    &&& a.models_dir@ == b.models_dir@
    &&& a.state_file@ == b.state_file@
    &&& a.image_tag@ == b.image_tag@
    &&& a.container_name@ == b.container_name@
}

/// Serializes a provisioning job for its file.
#[verifier::rlimit(100)]
pub fn encode_job(j: &WorkerJob) -> (r: String)
    ensures
        r@ == enc_job(*j),
{
    let mut out: Vec<char> = Vec::new();
    push_lit(&mut out, "{\"localModel\":");
    push_quoted(&mut out, j.local_model.as_str());
    push_lit(&mut out, ",\"serviceUrl\":");
    push_quoted(&mut out, j.service_url.as_str());
    push_lit(&mut out, ",\"modelId\":");
    push_quoted(&mut out, j.model_id.as_str());
    push_lit(&mut out, ",\"device\":");
    push_quoted(&mut out, j.device.as_str());
    push_lit(&mut out, ",\"runtimeDir\":");
    push_quoted(&mut out, j.runtime_dir.as_str());
    push_lit(&mut out, ",\"modelsDir\":");
    push_quoted(&mut out, j.models_dir.as_str());
    push_lit(&mut out, ",\"stateFile\":");
    push_quoted(&mut out, j.state_file.as_str());
    push_lit(&mut out, ",\"imageTag\":");
    push_quoted(&mut out, j.image_tag.as_str());
    push_lit(&mut out, ",\"containerName\":");
    push_quoted(&mut out, j.container_name.as_str());
    push_lit(&mut out, "}");
    proof {
        assert(out@ =~= enc_job(*j));
    }
    chars_to_string(&out)
}

/// Where each piece of a canonical job file sits.
#[verifier::rlimit(100)]
proof fn lemma_job_pieces(v: Seq<char>, j: WorkerJob)
    requires
        v == enc_job(j),
    ensures
        ({
            let p0 = job_head().len() as int;
            let p1 = p0 + quoted(j.local_model@).len() + lit_service_url().len();
            let p2 = p1 + quoted(j.service_url@).len() + lit_model_id().len();
            let p3 = p2 + quoted(j.model_id@).len() + lit_device().len();
            let p4 = p3 + quoted(j.device@).len() + lit_runtime_dir().len();
            let p5 = p4 + quoted(j.runtime_dir@).len() + lit_models_dir().len();
            let p6 = p5 + quoted(j.models_dir@).len() + lit_state_file().len();
            let p7 = p6 + quoted(j.state_file@).len() + lit_image_tag().len();
            let p8 = p7 + quoted(j.image_tag@).len() + lit_container_name().len();
            &&& occurs_at(v, job_head(), 0)
            &&& occurs_at(v, quoted(j.local_model@), p0)
            &&& occurs_at(v, lit_service_url(), p0 + quoted(j.local_model@).len())
            &&& occurs_at(v, quoted(j.service_url@), p1)
            &&& occurs_at(v, lit_model_id(), p1 + quoted(j.service_url@).len())
            &&& occurs_at(v, quoted(j.model_id@), p2)
            &&& occurs_at(v, lit_device(), p2 + quoted(j.model_id@).len())
            &&& occurs_at(v, quoted(j.device@), p3)
            &&& occurs_at(v, lit_runtime_dir(), p3 + quoted(j.device@).len())
            &&& occurs_at(v, quoted(j.runtime_dir@), p4)
            &&& occurs_at(v, lit_models_dir(), p4 + quoted(j.runtime_dir@).len())
            &&& occurs_at(v, quoted(j.models_dir@), p5)
            &&& occurs_at(v, lit_state_file(), p5 + quoted(j.models_dir@).len())
            &&& occurs_at(v, quoted(j.state_file@), p6)
            &&& occurs_at(v, lit_image_tag(), p6 + quoted(j.state_file@).len())
            &&& occurs_at(v, quoted(j.image_tag@), p7)
            &&& occurs_at(v, lit_container_name(), p7 + quoted(j.image_tag@).len())
            &&& occurs_at(v, quoted(j.container_name@), p8)
            &&& occurs_at(v, lit_rbrace(), p8 + quoted(j.container_name@).len())
            &&& v.len() == p8 + quoted(j.container_name@).len() + 1
        }),
{
    reveal_strlit("}");
    let a1 = job_head() + quoted(j.local_model@);
    let a2 = a1 + lit_service_url();
    let a3 = a2 + quoted(j.service_url@);
    let a4 = a3 + lit_model_id();
    let a5 = a4 + quoted(j.model_id@);
    let a6 = a5 + lit_device();
    let a7 = a6 + quoted(j.device@);
    let a8 = a7 + lit_runtime_dir();
    let a9 = a8 + quoted(j.runtime_dir@);
    let a10 = a9 + lit_models_dir();
    let a11 = a10 + quoted(j.models_dir@);
    let a12 = a11 + lit_state_file();
    let a13 = a12 + quoted(j.state_file@);
    let a14 = a13 + lit_image_tag();
    let a15 = a14 + quoted(j.image_tag@);
    let a16 = a15 + lit_container_name();
    let a17 = a16 + quoted(j.container_name@);
    assert(v == a17 + lit_rbrace());
    assert(occurs_at(v, a17 + lit_rbrace(), 0)) by {
        assert(v.subrange(0, v.len() as int) =~= v);
    }
    lemma_occurs_split(v, a17, lit_rbrace(), 0);
    lemma_occurs_split(v, a16, quoted(j.container_name@), 0);
    lemma_occurs_split(v, a15, lit_container_name(), 0);
    lemma_occurs_split(v, a14, quoted(j.image_tag@), 0);
    lemma_occurs_split(v, a13, lit_image_tag(), 0);
    lemma_occurs_split(v, a12, quoted(j.state_file@), 0);
    lemma_occurs_split(v, a11, lit_state_file(), 0);
    lemma_occurs_split(v, a10, quoted(j.models_dir@), 0);
    lemma_occurs_split(v, a9, lit_models_dir(), 0);
    lemma_occurs_split(v, a8, quoted(j.runtime_dir@), 0);
    lemma_occurs_split(v, a7, lit_runtime_dir(), 0);
    lemma_occurs_split(v, a6, quoted(j.device@), 0);
    lemma_occurs_split(v, a5, lit_device(), 0);
    lemma_occurs_split(v, a4, quoted(j.model_id@), 0);
    lemma_occurs_split(v, a3, lit_model_id(), 0);
    lemma_occurs_split(v, a2, quoted(j.service_url@), 0);
    lemma_occurs_split(v, a1, lit_service_url(), 0);
    lemma_occurs_split(v, job_head(), quoted(j.local_model@), 0);
}

/// One labeled field: the label literal, then a quoted string.
fn parse_field(v: &Vec<char>, from: usize, lit: &str) -> (r: Option<(String, usize)>)
    ensures
        match r {
            Some((s, jj)) => from <= jj <= v@.len() && v@.subrange(from as int, jj as int) == lit@
                + quoted(s@),
            None => true,
        },
        forall|x: Seq<char>|
            occurs_at(v@, lit@, from as int) && #[trigger] occurs_at(
                v@,
                quoted(x),
                from + lit@.len(),
            ) ==> r is Some && r->Some_0.0@ == x && r->Some_0.1 == from + lit@.len() + quoted(
                x,
            ).len(),
{
    let Some(q) = expect_lit(v, from, lit) else {
        return None;
    };
    let Some((s, jj)) = parse_quoted(v, q) else {
        return None;
    };
    proof {
        assert(v@.subrange(from as int, jj as int) =~= lit@ + quoted(s@));
    }
    Some((s, jj))
}

/// Parses the serialized form of a provisioning job: an encoded job parses
/// back with all its fields intact (the job file's round trip, stated by
/// this `ensures` together with `encode_job`'s).
#[verifier::rlimit(100)]
pub fn decode_job(text: &str) -> (r: Option<WorkerJob>)
    ensures
        forall|j: WorkerJob| text@ == enc_job(j) ==> r is Some && job_eq(r->Some_0, j),
{
    let v = string_to_chars(text);
    let r1 = parse_field(&v, 0, "{\"localModel\":");
    proof {
        assert forall|j: WorkerJob| text@ == enc_job(j) implies occurs_at(v@, "{\"localModel\":"@, 0)
            && occurs_at(v@, quoted(j.local_model@), "{\"localModel\":"@.len() as int) by {
            lemma_job_pieces(v@, j);
        }
    }
    let Some((local_model, q1)) = r1 else { return None };
    let r2 = parse_field(&v, q1, ",\"serviceUrl\":");
    proof {
        assert forall|j: WorkerJob| text@ == enc_job(j) implies occurs_at(
            v@,
            ",\"serviceUrl\":"@,
            q1 as int,
        ) && occurs_at(v@, quoted(j.service_url@), q1 + ",\"serviceUrl\":"@.len()) by {
            lemma_job_pieces(v@, j);
        }
    }
    let Some((service_url, q2)) = r2 else { return None };
    let r3 = parse_field(&v, q2, ",\"modelId\":");
    proof {
        assert forall|j: WorkerJob| text@ == enc_job(j) implies occurs_at(
            v@,
            ",\"modelId\":"@,
            q2 as int,
        ) && occurs_at(v@, quoted(j.model_id@), q2 + ",\"modelId\":"@.len()) by {
            lemma_job_pieces(v@, j);
        }
    }
    let Some((model_id, q3)) = r3 else { return None };
    let r4 = parse_field(&v, q3, ",\"device\":");
    proof {
        assert forall|j: WorkerJob| text@ == enc_job(j) implies occurs_at(
            v@,
            ",\"device\":"@,
            q3 as int,
        ) && occurs_at(v@, quoted(j.device@), q3 + ",\"device\":"@.len()) by {
            lemma_job_pieces(v@, j);
        }
    }
    let Some((device, q4)) = r4 else { return None };
    proof {
        assert(occurs_at(v@, "{\"localModel\":"@ + quoted(local_model@), 0));
        lemma_occurs_split(v@, "{\"localModel\":"@, quoted(local_model@), 0);
        assert(occurs_at(v@, ",\"serviceUrl\":"@ + quoted(service_url@), q1 as int));
        lemma_occurs_split(v@, ",\"serviceUrl\":"@, quoted(service_url@), q1 as int);
        assert(occurs_at(v@, ",\"modelId\":"@ + quoted(model_id@), q2 as int));
        lemma_occurs_split(v@, ",\"modelId\":"@, quoted(model_id@), q2 as int);
        assert(occurs_at(v@, ",\"device\":"@ + quoted(device@), q3 as int));
        lemma_occurs_split(v@, ",\"device\":"@, quoted(device@), q3 as int);
    }
    decode_job_rest(&v, local_model, service_url, model_id, device, q4)
}

/// Parses the back half of a serialized job, the first four fields having
/// been consumed.
#[verifier::spinoff_prover]
#[verifier::rlimit(100)]
fn decode_job_rest(
    v: &Vec<char>,
    local_model: String,
    service_url: String,
    model_id: String,
    device: String,
    q4: usize,
) -> (r: Option<WorkerJob>)
    requires
        occurs_at(v@, job_head(), 0),
        occurs_at(v@, quoted(local_model@), job_head().len() as int),
        occurs_at(v@, lit_service_url(), job_head().len() as int + quoted(local_model@).len()),
        occurs_at(
            v@,
            quoted(service_url@),
            job_head().len() as int + quoted(local_model@).len() + lit_service_url().len(),
        ),
        occurs_at(
            v@,
            lit_model_id(),
            job_head().len() as int + quoted(local_model@).len() + lit_service_url().len() + quoted(
                service_url@,
            ).len(),
        ),
        occurs_at(
            v@,
            quoted(model_id@),
            job_head().len() as int + quoted(local_model@).len() + lit_service_url().len() + quoted(
                service_url@,
            ).len() + lit_model_id().len(),
        ),
        occurs_at(
            v@,
            lit_device(),
            job_head().len() as int + quoted(local_model@).len() + lit_service_url().len() + quoted(
                service_url@,
            ).len() + lit_model_id().len() + quoted(model_id@).len(),
        ),
        occurs_at(
            v@,
            quoted(device@),
            job_head().len() as int + quoted(local_model@).len() + lit_service_url().len() + quoted(
                service_url@,
            ).len() + lit_model_id().len() + quoted(model_id@).len() + lit_device().len(),
        ),
        q4 == job_head().len() as int + quoted(local_model@).len() + lit_service_url().len() + quoted(
            service_url@,
        ).len() + lit_model_id().len() + quoted(model_id@).len() + lit_device().len() + quoted(
            device@,
        ).len(),
        q4 <= v@.len(),
    ensures
        forall|j: WorkerJob| v@ == enc_job(j) ==> r is Some && job_eq(r->Some_0, j),
{
    proof {
        assert forall|j: WorkerJob| v@ == enc_job(j) implies agreed_prefix(
            v@,
            j,
            local_model@,
            service_url@,
            model_id@,
            device@,
            q4 as int,
        ) by {
            lemma_job_prefix_agrees(
                v@,
                j,
                local_model@,
                service_url@,
                model_id@,
                device@,
                q4 as int,
            );
        }
    }
    let r5 = parse_field(&v, q4, ",\"runtimeDir\":");
    proof {
        assert forall|j: WorkerJob| v@ == enc_job(j) implies occurs_at(
            v@,
            ",\"runtimeDir\":"@,
            q4 as int,
        ) && occurs_at(v@, quoted(j.runtime_dir@), q4 + ",\"runtimeDir\":"@.len()) by {
            lemma_job_pieces(v@, j);
        }
    }
    let Some((runtime_dir, q5)) = r5 else { return None };
    let r6 = parse_field(&v, q5, ",\"modelsDir\":");
    proof {
        assert forall|j: WorkerJob| v@ == enc_job(j) implies occurs_at(
            v@,
            ",\"modelsDir\":"@,
            q5 as int,
        ) && occurs_at(v@, quoted(j.models_dir@), q5 + ",\"modelsDir\":"@.len()) by {
            lemma_job_pieces(v@, j);
        }
    }
    let Some((models_dir, q6)) = r6 else { return None };
    let r7 = parse_field(&v, q6, ",\"stateFile\":");
    proof {
        assert forall|j: WorkerJob| v@ == enc_job(j) implies occurs_at(
            v@,
            ",\"stateFile\":"@,
            q6 as int,
        ) && occurs_at(v@, quoted(j.state_file@), q6 + ",\"stateFile\":"@.len()) by {
            lemma_job_pieces(v@, j);
        }
    }
    let Some((state_file, q7)) = r7 else { return None };
    let r8 = parse_field(&v, q7, ",\"imageTag\":");
    proof {
        assert forall|j: WorkerJob| v@ == enc_job(j) implies occurs_at(
            v@,
            ",\"imageTag\":"@,
            q7 as int,
        ) && occurs_at(v@, quoted(j.image_tag@), q7 + ",\"imageTag\":"@.len()) by {
            lemma_job_pieces(v@, j);
        }
    }
    let Some((image_tag, q8)) = r8 else { return None };
    let r9 = parse_field(&v, q8, ",\"containerName\":");
    proof {
        assert forall|j: WorkerJob| v@ == enc_job(j) implies occurs_at(
            v@,
            ",\"containerName\":"@,
            q8 as int,
        ) && occurs_at(v@, quoted(j.container_name@), q8 + ",\"containerName\":"@.len()) by {
            lemma_job_pieces(v@, j);
        }
    }
    let Some((container_name, q9)) = r9 else { return None };
    let r10 = expect_lit(&v, q9, "}");
    proof {
        assert forall|j: WorkerJob| v@ == enc_job(j) implies occurs_at(
            v@,
            "}"@,
            q9 as int,
        ) by {
            lemma_job_pieces(v@, j);
        }
    }
    let Some(q10) = r10 else { return None };
    if q10 != v.len() {
        proof {
            assert forall|j: WorkerJob| v@ != enc_job(j) by {
                if v@ == enc_job(j) {
                    lemma_job_pieces(v@, j);
                }
            }
        }
        return None;
    }
    let result = WorkerJob {
        local_model,
        service_url,
        model_id,
        device,
        runtime_dir,
        models_dir,
        state_file,
        image_tag,
        container_name,
    };
    proof {
        assert forall|j: WorkerJob| v@ == enc_job(j) implies job_eq(result, j) by {
            lemma_job_pieces(v@, j);
        }
    }
    Some(result)
}

/// The decoder's first four fields agree with any job the whole text
/// encodes, and the cursor sits at that job's fifth label.
pub open spec fn agreed_prefix(
    v: Seq<char>,
    j: WorkerJob,
    local_model: Seq<char>,
    service_url: Seq<char>,
    model_id: Seq<char>,
    device: Seq<char>,
    q4: int,
) -> bool {
    &&& local_model == j.local_model@
    &&& service_url == j.service_url@
    &&& model_id == j.model_id@
    &&& device == j.device@
    &&& q4 == job_head().len() as int + quoted(j.local_model@).len() + lit_service_url().len() + quoted(
        j.service_url@,
    ).len() + lit_model_id().len() + quoted(j.model_id@).len() + lit_device().len() + quoted(
        j.device@,
    ).len()
}

proof fn lemma_job_prefix_agrees(
    v: Seq<char>,
    j: WorkerJob,
    local_model: Seq<char>,
    service_url: Seq<char>,
    model_id: Seq<char>,
    device: Seq<char>,
    q4: int,
)
    requires
        v == enc_job(j),
        occurs_at(v, quoted(local_model), job_head().len() as int),
        occurs_at(
            v,
            quoted(service_url),
            job_head().len() as int + quoted(local_model).len() + lit_service_url().len(),
        ),
        occurs_at(
            v,
            quoted(model_id),
            job_head().len() as int + quoted(local_model).len() + lit_service_url().len() + quoted(
                service_url,
            ).len() + lit_model_id().len(),
        ),
        occurs_at(
            v,
            quoted(device),
            job_head().len() as int + quoted(local_model).len() + lit_service_url().len() + quoted(
                service_url,
            ).len() + lit_model_id().len() + quoted(model_id).len() + lit_device().len(),
        ),
        q4 == job_head().len() as int + quoted(local_model).len() + lit_service_url().len() + quoted(
            service_url,
        ).len() + lit_model_id().len() + quoted(model_id).len() + lit_device().len() + quoted(
            device,
        ).len(),
    ensures
        agreed_prefix(v, j, local_model, service_url, model_id, device, q4),
{
    lemma_job_pieces(v, j);
    crate::codec::lemma_quoted_unique(v, job_head().len() as int, local_model, j.local_model@);
    crate::codec::lemma_quoted_unique(
        v,
        job_head().len() as int + quoted(j.local_model@).len() + lit_service_url().len(),
        service_url,
        j.service_url@,
    );
    crate::codec::lemma_quoted_unique(
        v,
        job_head().len() as int + quoted(j.local_model@).len() + lit_service_url().len() + quoted(
            j.service_url@,
        ).len() + lit_model_id().len(),
        model_id,
        j.model_id@,
    );
    crate::codec::lemma_quoted_unique(
        v,
        job_head().len() as int + quoted(j.local_model@).len() + lit_service_url().len() + quoted(
            j.service_url@,
        ).len() + lit_model_id().len() + quoted(j.model_id@).len() + lit_device().len(),
        device,
        j.device@,
    );
}


/// No event encodes to an empty line: every canonical line starts with its
/// variant's head.
pub proof fn lemma_enc_event_nonempty(m: EventModel)
    ensures
        enc_event(m).len() > 0,
{
    reveal_strlit("{\"kind\":\"progress\",\"stage\":");
    reveal_strlit("{\"kind\":\"runtimeLog\",\"stream\":");
    reveal_strlit("{\"kind\":\"state\",\"download_state\":");
    reveal_strlit("{\"kind\":\"done\",\"message\":");
    reveal_strlit("{\"kind\":\"error\",\"message\":");
}

} // verus!

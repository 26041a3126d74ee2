//! The log aggregator's pure core: the bounded ring of recent output lines,
//! the diagnostic tail built from it (or from the persisted log file when the
//! ring is empty), and the line predicates the reader threads apply.
use vstd::prelude::*;

use vstd::string::StringExecFns;

use crate::text::{chars_to_string, contains_seq, string_to_chars, trim_chars, trim_spec};

verus! {

/// How many recent lines the ring keeps.
pub const RUNTIME_TAIL_CAPACITY: usize = 200;

/// The placeholder tail when no output was captured at all.
pub const NO_LOGS_PLACEHOLDER: &'static str = "（无日志）";

/// Appends one line to the ring, dropping the oldest line once `max_lines`
/// are held.
pub fn push_runtime_tail(lines: &mut Vec<String>, value: String, max_lines: usize)
    ensures
        old(lines)@.len() >= max_lines && old(lines)@.len() > 0 ==> final(lines)@ == old(
            lines,
        )@.skip(1).push(value),
        old(lines)@.len() < max_lines || old(lines)@.len() == 0 ==> final(lines)@ == old(
            lines,
        )@.push(value),
{
    if lines.len() >= max_lines && lines.len() > 0 {
        lines.remove(0);
        proof {
            assert(lines@ =~= old(lines)@.skip(1));
        }
    }
    lines.push(value);
}

/// The views of a sequence of strings.
pub open spec fn views_of(lines: Seq<String>) -> Seq<Seq<char>> {
    lines.map_values(|s: String| s@)
}

/// Lines joined with a separator.
pub open spec fn join_sep(parts: Seq<Seq<char>>, sep: Seq<char>) -> Seq<char>
    decreases parts.len(),
{
    if parts.len() == 0 {
        Seq::empty()
    } else if parts.len() == 1 {
        parts[0]
    } else {
        parts[0] + sep + join_sep(parts.skip(1), sep)
    }
}

/// Joins strings with a separator.
pub fn join_strings(parts: &Vec<String>, sep: &str) -> (r: String)
    ensures
        r@ == join_sep(views_of(parts@), sep@),
{
    let mut out = String::new();
    let n = parts.len();
    if n == 0 {
        return out;
    }
    let mut i: usize = 0;
    while i < n
        invariant
            0 < n == parts@.len(),
            i <= n,
            i == 0 ==> out@ == Seq::<char>::empty(),
            i > 0 ==> out@ == join_sep(views_of(parts@.take(i as int)), sep@),
        decreases n - i,
    {
        if i > 0 {
            out.append(sep);
        }
        out.append(parts[i].as_str());
        proof {
            lemma_join_take_succ(views_of(parts@), sep@, i as int);
            assert(views_of(parts@.take(i + 1)) =~= views_of(parts@).take(i + 1));
            assert(views_of(parts@.take(i as int)) =~= views_of(parts@).take(i as int));
            assert(views_of(parts@)[i as int] == parts@[i as int]@);
        }
        i += 1;
    }
    proof {
        assert(views_of(parts@.take(n as int)) =~= views_of(parts@));
    }
    out
}

/// Joining one more line appends a separator and the line.
proof fn lemma_join_take_succ(parts: Seq<Seq<char>>, sep: Seq<char>, i: int)
    requires
        0 <= i < parts.len(),
    ensures
        i == 0 ==> join_sep(parts.take(1), sep) == parts[0],
        i > 0 ==> join_sep(parts.take(i + 1), sep) == join_sep(parts.take(i), sep) + sep
            + parts[i],
    decreases i,
{
    if i == 0 {
        assert(parts.take(1).len() == 1);
        assert(parts.take(1)[0] == parts[0]);
    } else {
        lemma_join_take_succ(parts.skip(1), sep, i - 1);
        assert(parts.take(i + 1).skip(1) =~= parts.skip(1).take(i));
        assert(parts.take(i).skip(1) =~= parts.skip(1).take(i - 1));
        assert(parts.take(i + 1)[0] == parts[0]);
        assert(parts.take(i)[0] == parts[0]);
        assert(parts.skip(1)[i - 1] == parts[i]);
        if i == 1 {
            assert(join_sep(parts.take(2), sep) == parts[0] + sep + join_sep(
                parts.skip(1).take(1),
                sep,
            ));
            assert(join_sep(parts.take(1), sep) == parts[0]);
        } else {
            assert(join_sep(parts.take(i + 1), sep) == parts[0] + sep + join_sep(
                parts.skip(1).take(i),
                sep,
            ));
            assert(join_sep(parts.take(i), sep) == parts[0] + sep + join_sep(
                parts.skip(1).take(i - 1),
                sep,
            ));
            assert(parts[0] + sep + (join_sep(parts.skip(1).take(i - 1), sep) + sep + parts.skip(
                1,
            )[i - 1]) =~= (parts[0] + sep + join_sep(parts.skip(1).take(i - 1), sep)) + sep
                + parts[i]);
        }
    }
}

/// The running line scan of a text: the finished lines and the line still
/// being read, folding the characters left to right.
pub open spec fn lines_state(t: Seq<char>) -> (Seq<Seq<char>>, Seq<char>)
    decreases t.len(),
{
    if t.len() == 0 {
        (Seq::empty(), Seq::empty())
    } else {
        let prev = lines_state(t.drop_last());
        if t.last() == '\n' {
            (prev.0.push(prev.1), Seq::empty())
        } else {
            (prev.0, prev.1.push(t.last()))
        }
    }
}

/// The lines of a text, split on newlines.
pub open spec fn split_lines_spec(s: Seq<char>) -> Seq<Seq<char>> {
    lines_state(s).0.push(lines_state(s).1)
}

/// The views of a pushed vector of strings.
proof fn lemma_views_push(v: Seq<String>, x: String)
    ensures
        views_of(v.push(x)) == views_of(v).push(x@),
{
    assert(views_of(v.push(x)) =~= views_of(v).push(x@));
}

/// Splits a text on newlines.
pub fn split_lines(text: &str) -> (r: Vec<String>)
    ensures
        views_of(r@) == split_lines_spec(text@),
{
    let chars = string_to_chars(text);
    let n = chars.len();
    let mut out: Vec<String> = Vec::new();
    let mut current: Vec<char> = Vec::new();
    let mut i: usize = 0;
    proof {
        assert(text@.take(0) =~= Seq::<char>::empty());
    }
    while i < n
        invariant
            i <= n,
            n == chars@.len(),
            chars@ == text@,
            views_of(out@) == lines_state(text@.take(i as int)).0,
            current@ == lines_state(text@.take(i as int)).1,
        decreases n - i,
    {
        let c = chars[i];
        proof {
            assert(text@.take(i + 1).drop_last() =~= text@.take(i as int));
            assert(text@.take(i + 1).last() == text@[i as int]);
        }
        if c == '\n' {
            let line = chars_to_string(&current);
            proof {
                lemma_views_push(out@, line);
            }
            out.push(line);
            current = Vec::new();
            proof {
                assert(current@ =~= Seq::<char>::empty());
            }
        } else {
            current.push(c);
        }
        i += 1;
    }
    let last = chars_to_string(&current);
    proof {
        lemma_views_push(out@, last);
        assert(text@.take(n as int) =~= text@);
    }
    out.push(last);
    out
}

/// The trimmed, non-empty lines of a text.
pub open spec fn clean_lines_spec(s: Seq<char>) -> Seq<Seq<char>> {
    split_lines_spec(s).map_values(|line: Seq<char>| trim_spec(line)).filter(
        |line: Seq<char>| line.len() > 0,
    )
}

/// The last `max_lines` trimmed, non-empty lines of a persisted log file,
/// joined with ` || `; a placeholder when there is nothing to show.
pub open spec fn read_log_tail_spec(s: Seq<char>, max_lines: int) -> Seq<char> {
    let kept = clean_lines_spec(s);
    if kept.len() == 0 {
        "（无日志）"@
    } else if kept.len() <= max_lines {
        join_sep(kept, " || "@)
    } else {
        join_sep(kept.skip(kept.len() - max_lines), " || "@)
    }
}

/// Builds the diagnostic tail from the text of the persisted log file.
pub fn read_log_tail(text: &str, max_lines: usize) -> (r: String)
    requires
        max_lines >= 1,
    ensures
        r@ == read_log_tail_spec(text@, max_lines as int),
        r@.len() > 0,
{
    let raw = split_lines(text);
    let mut kept: Vec<String> = Vec::new();
    let mut i: usize = 0;
    while i < raw.len()
        invariant
            i <= raw@.len(),
            views_of(raw@) == split_lines_spec(text@),
            views_of(kept@) =~= views_of(raw@).take(i as int).map_values(
                |line: Seq<char>| trim_spec(line),
            ).filter(|line: Seq<char>| line.len() > 0),
        decreases raw@.len() - i,
    {
        let trimmed_chars = trim_chars(&string_to_chars(raw[i].as_str()));
        proof {
            reveal_with_fuel(Seq::filter, 2);
            let mapped = views_of(raw@).take(i + 1).map_values(|line: Seq<char>| trim_spec(line));
            assert(mapped.drop_last() =~= views_of(raw@).take(i as int).map_values(
                |line: Seq<char>| trim_spec(line),
            ));
            assert(mapped.last() == trim_spec(views_of(raw@)[i as int]));
            assert(views_of(raw@)[i as int] == raw@[i as int]@);
        }
        if trimmed_chars.len() > 0 {
            let trimmed = chars_to_string(&trimmed_chars);
            proof {
                lemma_views_push(kept@, trimmed);
            }
            kept.push(trimmed);
        }
        i += 1;
    }
    proof {
        assert(views_of(raw@).take(raw@.len() as int) =~= views_of(raw@));
        assert(views_of(kept@) =~= clean_lines_spec(text@));
    }
    if kept.len() == 0 {
        let r = String::from_str(NO_LOGS_PLACEHOLDER);
        proof {
            reveal_strlit("（无日志）");
        }
        return r;
    }
    let n = kept.len();
    let start: usize = if n > max_lines {
        n - max_lines
    } else {
        0
    };
    let mut window: Vec<String> = Vec::new();
    let mut j: usize = start;
    while j < n
        invariant
            start <= j <= n,
            n == kept@.len(),
            views_of(window@) =~= views_of(kept@).subrange(start as int, j as int),
        decreases n - j,
    {
        let item = kept[j].clone();
        proof {
            lemma_views_push(window@, item);
            assert(views_of(kept@).subrange(start as int, j + 1) =~= views_of(kept@).subrange(
                start as int,
                j as int,
            ).push(views_of(kept@)[j as int]));
        }
        window.push(item);
        j += 1;
    }
    let joined = join_strings(&window, " || ");
    proof {
        let kv = clean_lines_spec(text@);
        if n > max_lines {
            assert(views_of(window@) =~= kv.skip(kv.len() - max_lines));
        } else {
            assert(views_of(window@) =~= kv);
        }
        lemma_join_nonempty_lines(views_of(window@), " || "@);
        assert forall|q: int| 0 <= q < views_of(window@).len() implies #[trigger] views_of(
            window@,
        )[q].len() > 0 by {
            if n > max_lines {
                assert(views_of(window@)[q] == kv[kv.len() - max_lines + q]);
            }
            lemma_filter_members(
                split_lines_spec(text@).map_values(|line: Seq<char>| trim_spec(line)),
                |line: Seq<char>| line.len() > 0,
            );
        }
    }
    joined
}

/// Every member of a filtered sequence satisfies the filter.
proof fn lemma_filter_members<A>(s: Seq<A>, pred: spec_fn(A) -> bool)
    ensures
        forall|q: int| 0 <= q < s.filter(pred).len() ==> pred(#[trigger] s.filter(pred)[q]),
    decreases s.len(),
{
    reveal_with_fuel(Seq::filter, 2);
    if s.len() > 0 {
        lemma_filter_members(s.drop_last(), pred);
        assert forall|q: int| 0 <= q < s.filter(pred).len() implies pred(
            #[trigger] s.filter(pred)[q],
        ) by {
            if q < s.drop_last().filter(pred).len() {
                assert(s.filter(pred)[q] == s.drop_last().filter(pred)[q]);
            }
        }
    }
}

/// Joining non-empty lines gives a non-empty text.
proof fn lemma_join_nonempty_lines(parts: Seq<Seq<char>>, sep: Seq<char>)
    requires
        parts.len() > 0,
        parts[0].len() > 0,
    ensures
        join_sep(parts, sep).len() > 0,
{
}

/// Builds the diagnostic tail: the ring's most recent lines when it holds
/// any, else the tail of the persisted log file.
pub fn collect_runtime_tail(lines: &Vec<String>, max_lines: usize, log_text: &str) -> (r: String)
    requires
        max_lines >= 1,
    ensures
        lines@.len() == 0 ==> r@ == read_log_tail_spec(log_text@, max_lines as int) && r@.len()
            > 0,
        lines@.len() > 0 ==> ({
            let start = if lines@.len() > max_lines {
                lines@.len() - max_lines
            } else {
                0int
            };
            r@ == join_sep(views_of(lines@).skip(start), " || "@)
        }),
{
    if lines.len() == 0 {
        return read_log_tail(log_text, max_lines);
    }
    let n = lines.len();
    let start: usize = if n > max_lines {
        n - max_lines
    } else {
        0
    };
    let mut window: Vec<String> = Vec::new();
    let mut j: usize = start;
    while j < n
        invariant
            start <= j <= n,
            n == lines@.len(),
            views_of(window@) =~= views_of(lines@).subrange(start as int, j as int),
        decreases n - j,
    {
        let item = lines[j].clone();
        proof {
            lemma_views_push(window@, item);
            assert(views_of(lines@).subrange(start as int, j + 1) =~= views_of(lines@).subrange(
                start as int,
                j as int,
            ).push(views_of(lines@)[j as int]));
        }
        window.push(item);
        j += 1;
    }
    proof {
        assert(views_of(window@) =~= views_of(lines@).skip(start as int));
    }
    join_strings(&window, " || ")
}

/// The name a wrapper gives to `str::to_lowercase`: the result depends on
/// the characters alone.
pub uninterp spec fn lowercase_of(s: Seq<char>) -> Seq<char>;

/// Relies on `str::to_lowercase`: Unicode lower-casing of the line, a
/// function of its characters alone.
#[verifier::external_body]
pub(crate) fn lowercase(s: &str) -> (r: String)
    ensures
        r@ == lowercase_of(s@),
{
    s.to_lowercase()
}

/// Whether a lowered log line announces that the server finished starting.
pub open spec fn startup_complete_spec(line: Seq<char>) -> bool {
    contains_seq(lowercase_of(line), "application startup complete"@) || contains_seq(
        lowercase_of(line),
        "started server process"@,
    ) || contains_seq(lowercase_of(line), "uvicorn running on"@)
}

/// Whether a log line announces that the server finished starting.
pub fn is_startup_complete_line(line: &str) -> (r: bool)
    ensures
        r == startup_complete_spec(line@),
{
    let lowered = lowercase(line);
    let hay = string_to_chars(lowered.as_str());
    let n1 = string_to_chars("application startup complete");
    let n2 = string_to_chars("started server process");
    let n3 = string_to_chars("uvicorn running on");
    crate::text::contains_chars(&hay, &n1) || crate::text::contains_chars(&hay, &n2)
        || crate::text::contains_chars(&hay, &n3)
}

/// Whether the buffered lines should be flushed to the user interface:
/// batches go out at most once per interval.
pub fn should_flush_logs(pending_count: usize, since_last_emit_ms: u64) -> (r: bool)
    ensures
        r == (pending_count > 0 && since_last_emit_ms >= 150),
{
    pending_count > 0 && since_last_emit_ms >= 150
}

/// One batched log event: the pending lines joined by newlines.
pub fn flush_pending_logs(pending: &Vec<String>) -> (r: String)
    ensures
        r@ == join_sep(views_of(pending@), "\n"@),
{
    join_strings(pending, "\n")
}


/// How many times a freshly crashed instance's tail is re-read before the
/// placeholder is accepted: buffered output may not have flushed yet.
pub const TAIL_RETRY_ATTEMPTS: u32 = 5;

/// Whether the diagnostic tail should be collected again after a short
/// backoff: only while it is still the placeholder and attempts remain.
pub fn should_retry_tail(attempts_done: u32, tail: &str) -> (r: bool)
    ensures
        r == (attempts_done < 5 && tail@ == "（无日志）"@),
{
    proof {
        reveal_strlit("（无日志）");
    }
    attempts_done < TAIL_RETRY_ATTEMPTS && crate::model::str_eq(tail, NO_LOGS_PLACEHOLDER)
}

} // verus!

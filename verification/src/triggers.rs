//! The trigger-card rules: how dictated text is split into sentences, how a
//! card's keyword and variables are matched against them, and how the
//! matched phrase is cut out before the text is rewritten. The pattern
//! matching itself runs on the `regex` crate; the patterns are built and the
//! results interpreted here.
use vstd::prelude::*;

use vstd::string::StringExecFns;

use crate::settings::{TriggerCard, TriggerMatch};
use crate::text::{chars_to_string, contains_seq, find_chars, occurs_at, string_to_chars,
    trim_chars, trim_spec};

verus! {

/// The outcome of running the trigger cards over a transcription.
#[derive(Debug, Clone, PartialEq)]
pub struct TriggerResult {
    pub output: String,
    pub triggered: bool,
    pub triggered_by_keyword: bool,
    pub trigger_matches: Vec<TriggerMatch>,
}

/// The placeholder a keyword may carry for its variable.
pub const VALUE_PLACEHOLDER: &'static str = "{value}";

/// The sentence delimiters, full-width and half-width.
pub open spec fn is_sentence_delimiter(c: char) -> bool {
    c == ',' || c == '，' || c == '。' || c == '.' || c == '!' || c == '！' || c == '?' || c == '？'
        || c == ';' || c == '；' || c == ':' || c == '：'
}

fn sentence_delimiter(c: char) -> (r: bool)
    ensures
        r == is_sentence_delimiter(c),
{
    c == ',' || c == '，' || c == '。' || c == '.' || c == '!' || c == '！' || c == '?' || c == '？'
        || c == ';' || c == '；' || c == ':' || c == '：'
}

/// The running sentence scan: finished raw pieces and the piece being read.
pub open spec fn sentences_state(t: Seq<char>) -> (Seq<Seq<char>>, Seq<char>)
    decreases t.len(),
{
    if t.len() == 0 {
        (Seq::empty(), Seq::empty())
    } else {
        let prev = sentences_state(t.drop_last());
        if is_sentence_delimiter(t.last()) {
            (prev.0.push(prev.1), Seq::empty())
        } else {
            (prev.0, prev.1.push(t.last()))
        }
    }
}

/// The sentences of a text: the pieces between delimiters, trimmed, with the
/// empty ones dropped.
pub open spec fn split_sentences_spec(s: Seq<char>) -> Seq<Seq<char>> {
    (sentences_state(s).0.push(sentences_state(s).1)).map_values(
        |piece: Seq<char>| trim_spec(piece),
    ).filter(|piece: Seq<char>| piece.len() > 0)
}

/// Splits a text at the sentence delimiters, trimming each piece and keeping
/// the non-empty ones.
pub fn split_sentences(input: &str) -> (r: Vec<String>)
    ensures
        views(r@) == split_sentences_spec(input@),
{
    let chars = string_to_chars(input);
    let n = chars.len();
    let mut pieces: Vec<Vec<char>> = Vec::new();
    let mut current: Vec<char> = Vec::new();
    let mut i: usize = 0;
    proof {
        assert(input@.take(0) =~= Seq::<char>::empty());
    }
    while i < n
        invariant
            i <= n,
            n == chars@.len(),
            chars@ == input@,
            views_chars(pieces@) == sentences_state(input@.take(i as int)).0,
            current@ == sentences_state(input@.take(i as int)).1,
        decreases n - i,
    {
        let c = chars[i];
        proof {
            assert(input@.take(i + 1).drop_last() =~= input@.take(i as int));
            assert(input@.take(i + 1).last() == input@[i as int]);
        }
        if sentence_delimiter(c) {
            proof {
                assert(views_chars(pieces@.push(current)) =~= views_chars(pieces@).push(current@));
            }
            pieces.push(current);
            current = Vec::new();
            proof {
                assert(current@ =~= Seq::<char>::empty());
            }
        } else {
            current.push(c);
        }
        i += 1;
    }
    proof {
        assert(views_chars(pieces@.push(current)) =~= views_chars(pieces@).push(current@));
        assert(input@.take(n as int) =~= input@);
    }
    pieces.push(current);
    let mut out: Vec<String> = Vec::new();
    let mut j: usize = 0;
    while j < pieces.len()
        invariant
            j <= pieces@.len(),
            views_chars(pieces@) == sentences_state(input@).0.push(sentences_state(input@).1),
            views(out@) =~= views_chars(pieces@).take(j as int).map_values(
                |piece: Seq<char>| trim_spec(piece),
            ).filter(|piece: Seq<char>| piece.len() > 0),
        decreases pieces@.len() - j,
    {
        let trimmed = trim_chars(&pieces[j]);
        proof {
            reveal_with_fuel(Seq::filter, 2);
            let mapped = views_chars(pieces@).take(j + 1).map_values(
                |piece: Seq<char>| trim_spec(piece),
            );
            assert(mapped.drop_last() =~= views_chars(pieces@).take(j as int).map_values(
                |piece: Seq<char>| trim_spec(piece),
            ));
            assert(mapped.last() == trim_spec(views_chars(pieces@)[j as int]));
            assert(views_chars(pieces@)[j as int] == pieces@[j as int]@);
        }
        if trimmed.len() > 0 {
            let s = chars_to_string(&trimmed);
            proof {
                assert(views(out@.push(s)) =~= views(out@).push(s@));
            }
            out.push(s);
        }
        j += 1;
    }
    proof {
        assert(views_chars(pieces@).take(pieces@.len() as int) =~= views_chars(pieces@));
    }
    out
}

/// The views of a vector of strings.
pub open spec fn views(v: Seq<String>) -> Seq<Seq<char>> {
    v.map_values(|s: String| s@)
}

/// The views of a vector of character vectors.
pub open spec fn views_chars(v: Seq<Vec<char>>) -> Seq<Seq<char>> {
    v.map_values(|s: Vec<char>| s@)
}

/// Unicode whitespace, as Rust's character classifier documents it: the
/// characters with the White_Space property.
pub open spec fn is_unicode_space(c: char) -> bool {
    c == ' ' || c == '\t' || c == '\n' || (c as u32) == 0x0B || (c as u32) == 0x0C || c == '\r' || (
    c as u32) == 0x85 || (c as u32) == 0xA0 || (c as u32) == 0x1680 || (0x2000 <= (c as u32) && (
    c as u32) <= 0x200A) || (c as u32) == 0x2028 || (c as u32) == 0x2029 || (c as u32) == 0x202F
        || (c as u32) == 0x205F || (c as u32) == 0x3000
}

/// How one character is normalized for matching: the ideographic space
/// becomes a plain space, full-width forms become their ASCII counterparts,
/// whitespace is dropped, letters are lowered.
pub open spec fn normalize_match_char_spec(c: char) -> Option<char> {
    let mapped = if (c as u32) == 0x3000 {
        ' '
    } else if 0xFF01 <= (c as u32) && (c as u32) <= 0xFF5E {
        (((c as u32) - 0xFEE0) as u8) as char
    } else {
        c
    };
    if is_unicode_space(mapped) {
        None
    } else {
        Some(crate::model::ascii_lower(mapped))
    }
}

/// Normalizes one character for matching.
pub fn normalize_match_char(ch: char) -> (r: Option<char>)
    ensures
        r == normalize_match_char_spec(ch),
{
    let code = ch as u32;
    let mapped: char = if code == 0x3000 {
        ' '
    } else if 0xFF01 <= code && code <= 0xFF5E {
        ((code - 0xFEE0) as u8) as char
    } else {
        ch
    };
    let mcode = mapped as u32;
    let ws = mapped == ' ' || mapped == '\t' || mapped == '\n' || mcode == 0x0B || mcode == 0x0C
        || mapped == '\r' || mcode == 0x85 || mcode == 0xA0 || mcode == 0x1680 || (0x2000 <= mcode
        && mcode <= 0x200A) || mcode == 0x2028 || mcode == 0x2029 || mcode == 0x202F || mcode
        == 0x205F || mcode == 0x3000;
    if ws {
        None
    } else if 'A' <= mapped && mapped <= 'Z' {
        Some((((mapped as u8) + 32) as u8) as char)
    } else {
        Some(mapped)
    }
}

/// A text normalized for matching, character by character.
pub open spec fn normalize_compare_spec(s: Seq<char>) -> Seq<char>
    decreases s.len(),
{
    if s.len() == 0 {
        Seq::empty()
    } else {
        normalize_compare_spec(s.drop_last()) + (match normalize_match_char_spec(s.last()) {
            Some(c) => seq![c],
            None => Seq::empty(),
        })
    }
}

/// Normalizes a text for matching.
pub fn normalize_for_compare(text: &str) -> (r: Vec<char>)
    ensures
        r@ == normalize_compare_spec(text@),
{
    let chars = string_to_chars(text);
    let n = chars.len();
    let mut out: Vec<char> = Vec::new();
    let mut i: usize = 0;
    proof {
        assert(text@.take(0) =~= Seq::<char>::empty());
    }
    while i < n
        invariant
            i <= n,
            n == chars@.len(),
            chars@ == text@,
            out@ == normalize_compare_spec(text@.take(i as int)),
        decreases n - i,
    {
        proof {
            assert(text@.take(i + 1).drop_last() =~= text@.take(i as int));
            assert(text@.take(i + 1).last() == text@[i as int]);
        }
        if let Some(c) = normalize_match_char(chars[i]) {
            out.push(c);
            proof {
                assert(out@ =~= normalize_compare_spec(text@.take(i + 1)));
            }
        } else {
            proof {
                assert(out@ + Seq::<char>::empty() =~= out@);
            }
        }
        i += 1;
    }
    proof {
        assert(text@.take(n as int) =~= text@);
    }
    out
}

/// The first variable of a card whose trimmed form is non-empty, trimmed.
pub open spec fn first_non_empty_variable_spec(vars: Seq<String>) -> Option<Seq<char>>
    decreases vars.len(),
{
    if vars.len() == 0 {
        None
    } else if trim_spec(vars[0]@).len() > 0 {
        Some(trim_spec(vars[0]@))
    } else {
        first_non_empty_variable_spec(vars.skip(1))
    }
}

/// The first variable of a card with any content, trimmed.
pub fn first_non_empty_variable(card: &TriggerCard) -> (r: Option<String>)
    ensures
        match r {
            Some(s) => first_non_empty_variable_spec(card.variables@) == Some(s@),
            None => first_non_empty_variable_spec(card.variables@) is None,
        },
{
    let n = card.variables.len();
    let mut i: usize = 0;
    proof {
        assert(card.variables@.skip(0) =~= card.variables@);
    }
    while i < n
        invariant
            i <= n,
            n == card.variables@.len(),
            first_non_empty_variable_spec(card.variables@) == first_non_empty_variable_spec(
                card.variables@.skip(i as int),
            ),
        decreases n - i,
    {
        let trimmed = trim_chars(&string_to_chars(card.variables[i].as_str()));
        proof {
            assert(card.variables@.skip(i as int)[0] == card.variables@[i as int]);
            assert(card.variables@.skip(i as int).skip(1) =~= card.variables@.skip(i + 1));
        }
        if trimmed.len() > 0 {
            return Some(chars_to_string(&trimmed));
        }
        i += 1;
    }
    proof {
        assert(card.variables@.skip(n as int) =~= Seq::<String>::empty());
    }
    None
}

/// The best variable match in a normalized sentence after considering the
/// first `k` variables: its position, its normalized length, and the trimmed
/// variable text. An earlier position wins; at equal positions a longer
/// match wins.
pub open spec fn best_variable_match(
    sentence_norm: Seq<char>,
    vars: Seq<String>,
    k: int,
) -> Option<(int, int, Seq<char>)>
    decreases k,
{
    if k <= 0 {
        None
    } else {
        let prev = best_variable_match(sentence_norm, vars, k - 1);
        let cand = variable_candidate(sentence_norm, vars[k - 1]@);
        match (prev, cand) {
            (None, c) => c,
            (p, None) => p,
            (Some((ps, pl, pv)), Some((cs, cl, cv))) => if cs < ps || (cs == ps && cl > pl) {
                Some((cs, cl, cv))
            } else {
                Some((ps, pl, pv))
            },
        }
    }
}

/// One variable's candidate match: where its normalized form first occurs in
/// the normalized sentence, if it occurs and neither form is empty.
pub open spec fn variable_candidate(sentence_norm: Seq<char>, var: Seq<char>) -> Option<
    (int, int, Seq<char>),
> {
    let trimmed = trim_spec(var);
    let norm = normalize_compare_spec(trimmed);
    if trimmed.len() == 0 || norm.len() == 0 || !contains_seq(sentence_norm, norm) {
        None
    } else {
        Some((first_occurrence(sentence_norm, norm), norm.len() as int, trimmed))
    }
}

/// The first position where a piece occurs in a text.
pub open spec fn first_occurrence(hay: Seq<char>, needle: Seq<char>) -> int {
    choose|at: int|
        occurs_at(hay, needle, at) && (forall|j: int| 0 <= j < at ==> !occurs_at(hay, needle, j))
}

/// Finds the variable whose normalized form occurs earliest in the
/// normalized sentence; at equal positions the longer match wins. The
/// trimmed original variable text is returned.
#[verifier::rlimit(100)]
pub fn match_variable_in_sentence(sentence: &str, variables: &Vec<String>) -> (r: Option<String>)
    ensures
        normalize_compare_spec(sentence@).len() == 0 ==> r is None,
        normalize_compare_spec(sentence@).len() > 0 ==> (match best_variable_match(
            normalize_compare_spec(sentence@),
            variables@,
            variables@.len() as int,
        ) {
            Some((_, _, v)) => r matches Some(s) && s@ == v,
            None => r is None,
        }),
{
    let sentence_norm = normalize_for_compare(sentence);
    if sentence_norm.len() == 0 {
        return None;
    }
    let n = variables.len();
    let mut matched: Option<(usize, usize, String)> = None;
    let mut i: usize = 0;
    while i < n
        invariant
            i <= n,
            n == variables@.len(),
            sentence_norm@ == normalize_compare_spec(sentence@),
            match matched {
                Some((ms, ml, ref mv)) => best_variable_match(
                    sentence_norm@,
                    variables@,
                    i as int,
                ) == Some((ms as int, ml as int, mv@)),
                None => best_variable_match(sentence_norm@, variables@, i as int) is None,
            },
        decreases n - i,
    {
        let trimmed = trim_chars(&string_to_chars(variables[i].as_str()));
        let mut skip_var = trimmed.len() == 0;
        let trimmed_s = chars_to_string(&trimmed);
        let norm = normalize_for_compare(trimmed_s.as_str());
        if norm.len() == 0 {
            skip_var = true;
        }
        if !skip_var {
            if let Some(start) = find_chars(&sentence_norm, &norm) {
                proof {
                    assert(variable_candidate(sentence_norm@, variables@[i as int]@) == Some(
                        (start as int, norm@.len() as int, trimmed@),
                    )) by {
                        let at = first_occurrence(sentence_norm@, norm@);
                        assert(occurs_at(sentence_norm@, norm@, start as int) && (forall|j: int|
                            0 <= j < start ==> !occurs_at(sentence_norm@, norm@, j)));
                        assert(occurs_at(sentence_norm@, norm@, at) && (forall|j: int|
                            0 <= j < at ==> !occurs_at(sentence_norm@, norm@, j)));
                        assert(at == start);
                    }
                }
                let length = norm.len();
                let should_replace = match &matched {
                    Some((best_start, best_len, _)) => start < *best_start || (start == *best_start
                        && length > *best_len),
                    None => true,
                };
                if should_replace {
                    matched = Some((start, length, trimmed_s));
                }
            } else {
                proof {
                    assert(variable_candidate(sentence_norm@, variables@[i as int]@) is None);
                }
            }
        } else {
            proof {
                assert(variable_candidate(sentence_norm@, variables@[i as int]@) is None);
            }
        }
        i += 1;
    }
    match matched {
        Some((_, _, value)) => Some(value),
        None => None,
    }
}

/// The keyword split at its placeholder: the prefix and the suffix, when the
/// placeholder occurs exactly once.
pub fn split_keyword(keyword: &str) -> (r: Option<(String, String)>)
    ensures
        match r {
            Some((prefix, suffix)) => occurs_at(keyword@, "{value}"@, prefix@.len() as int)
                && keyword@ == prefix@ + "{value}"@ + suffix@ && !contains_seq(
                suffix@,
                "{value}"@,
            ) && (forall|j: int| 0 <= j < prefix@.len() ==> !occurs_at(keyword@, "{value}"@, j)),
            None => !contains_seq(keyword@, "{value}"@) || (exists|a: int, b: int|
                a < b && #[trigger] occurs_at(keyword@, "{value}"@, a) && #[trigger] occurs_at(
                    keyword@,
                    "{value}"@,
                    b,
                )),
        },
{
    let chars = string_to_chars(keyword);
    let placeholder = string_to_chars(VALUE_PLACEHOLDER);
    proof {
        reveal_strlit("{value}");
    }
    let Some(at) = find_chars(&chars, &placeholder) else {
        return None;
    };
    let plen = placeholder.len();
    let clen = chars.len();
    proof {
        assert(plen == 7);
        assert(at + plen <= clen);
    }
    let mut prefix: Vec<char> = Vec::new();
    let mut i: usize = 0;
    while i < at
        invariant
            i <= at,
            at + plen <= chars@.len(),
            chars@ == keyword@,
            prefix@ == chars@.take(i as int),
        decreases at - i,
    {
        prefix.push(chars[i]);
        proof {
            assert(prefix@ =~= chars@.take(i + 1));
        }
        i += 1;
    }
    let mut suffix: Vec<char> = Vec::new();
    let mut j: usize = at + plen;
    while j < chars.len()
        invariant
            at + plen <= j <= chars@.len(),
            chars@ == keyword@,
            suffix@ == chars@.subrange(at + plen, j as int),
        decreases chars@.len() - j,
    {
        suffix.push(chars[j]);
        proof {
            assert(suffix@ =~= chars@.subrange(at + plen, j + 1));
        }
        j += 1;
    }
    // A second placeholder anywhere after the first makes the keyword
    // ambiguous and unsupported.
    if let Some(extra) = find_chars(&suffix, &placeholder) {
        proof {
            assert(occurs_at(keyword@, "{value}"@, at + plen + extra)) by {
                assert(keyword@.subrange(at + plen + extra, at + plen + extra + plen)
                    =~= suffix@.subrange(extra as int, extra + plen));
            }
            assert(occurs_at(keyword@, "{value}"@, at as int));
            let a = at as int;
            let b = at + plen + extra;
            assert(a < b && occurs_at(keyword@, "{value}"@, a) && occurs_at(
                keyword@,
                "{value}"@,
                b,
            ));
        }
        return None;
    }
    proof {
        assert(prefix@ =~= chars@.take(at as int));
        assert(suffix@ =~= chars@.subrange(at + plen, chars@.len() as int));
        assert(keyword@ =~= prefix@ + "{value}"@ + suffix@) by {
            assert(keyword@.subrange(at as int, at + plen) == "{value}"@);
        }
        assert forall|e: int| 0 <= e < suffix@.len() && occurs_at(
            suffix@,
            "{value}"@,
            e,
        ) implies false by {
            assert(!contains_seq(suffix@, "{value}"@));
        }
    }
    Some((chars_to_string(&prefix), chars_to_string(&suffix)))
}

/// The trimmed instructions merged: whichever side is blank yields the
/// other; otherwise the trimmed base, a newline, and the trimmed extra.
pub fn merge_instructions(base: &str, extra: &str) -> (r: String)
    ensures
        trim_spec(base@).len() == 0 ==> r@ == extra@,
        trim_spec(base@).len() > 0 && trim_spec(extra@).len() == 0 ==> r@ == base@,
        trim_spec(base@).len() > 0 && trim_spec(extra@).len() > 0 ==> r@ == trim_spec(base@)
            + "\n"@ + trim_spec(extra@),
{
    let base_t = trim_chars(&string_to_chars(base));
    if base_t.len() == 0 {
        return String::from_str(extra);
    }
    let extra_t = trim_chars(&string_to_chars(extra));
    if extra_t.len() == 0 {
        return String::from_str(base);
    }
    let mut out = chars_to_string(&base_t);
    out.append("\n");
    let extra_s = chars_to_string(&extra_t);
    out.append(extra_s.as_str());
    out
}


/// The name a wrapper gives to `regex::escape` on one character: its escaped
/// form, a function of the character alone.
pub uninterp spec fn regex_escaped_of(c: char) -> Seq<char>;

/// Relies on regex::escape, applied to a one-character text. The escaped
/// form keeps the character, so it is never empty.
#[verifier::external_body]
fn regex_escape_char(c: char) -> (r: String)
    ensures
        r@ == regex_escaped_of(c),
        r@.len() >= 1,
{
    regex::escape(c.to_string().as_str())
}

/// The name a wrapper gives to a pattern's `value` capture in a text: what
/// the first match binds to the `value` group, or nothing when the pattern
/// does not compile, does not match, or has no such group. A function of the
/// pattern and the text alone.
pub uninterp spec fn value_capture_of(pattern: Seq<char>, text: Seq<char>) -> Option<Seq<char>>;

/// Relies on regex::Regex: `new`, `captures` and `Captures::name`.
#[verifier::external_body]
fn regex_capture_value(pattern: &str, text: &str) -> (r: Option<String>)
    ensures
        match r {
            Some(s) => value_capture_of(pattern@, text@) == Some(s@),
            None => value_capture_of(pattern@, text@) is None,
        },
{
    let re = regex::Regex::new(pattern).ok()?;
    let caps = re.captures(text)?;
    caps.name("value").map(|m| m.as_str().to_string())
}

/// The name a wrapper gives to a text with a pattern's first match removed,
/// or nothing when the pattern does not compile. A function of the pattern
/// and the text alone.
pub uninterp spec fn removed_first_of(pattern: Seq<char>, text: Seq<char>) -> Option<Seq<char>>;

/// Relies on regex::Regex: `new` and `replace` with an empty replacement.
#[verifier::external_body]
fn regex_remove_first(pattern: &str, text: &str) -> (r: Option<String>)
    ensures
        match r {
            Some(s) => removed_first_of(pattern@, text@) == Some(s@),
            None => removed_first_of(pattern@, text@) is None,
        },
{
    match regex::Regex::new(pattern) {
        Ok(re) => Some(re.replace(text, "").into_owned()),
        Err(_) => None,
    }
}

/// Normalized characters, each escaped for a pattern, joined by optional
/// whitespace.
pub open spec fn escaped_join(cs: Seq<char>) -> Seq<char>
    decreases cs.len(),
{
    if cs.len() == 0 {
        Seq::empty()
    } else if cs.len() == 1 {
        regex_escaped_of(cs[0])
    } else {
        escaped_join(cs.drop_last()) + "\\s*"@ + regex_escaped_of(cs.last())
    }
}

/// The pattern fragment of a text: its normalized characters, escaped, with
/// optional whitespace allowed between them.
pub fn normalize_for_pattern(text: &str) -> (r: String)
    ensures
        r@ == escaped_join(normalize_compare_spec(text@)),
        r@.len() == 0 <==> normalize_compare_spec(text@).len() == 0,
{
    let norm = normalize_for_compare(text);
    let n = norm.len();
    let mut out = String::new();
    let mut i: usize = 0;
    while i < n
        invariant
            i <= n,
            n == norm@.len(),
            norm@ == normalize_compare_spec(text@),
            out@ == escaped_join(norm@.take(i as int)),
            out@.len() == 0 <==> i == 0,
        decreases n - i,
    {
        if i > 0 {
            out.append("\\s*");
        }
        let escaped = regex_escape_char(norm[i]);
        out.append(escaped.as_str());
        proof {
            assert(norm@.take(i + 1).drop_last() =~= norm@.take(i as int));
            assert(norm@.take(i + 1).last() == norm@[i as int]);
            if i == 0 {
                assert(norm@.take(1).len() == 1);
                assert(norm@.take(1)[0] == norm@[0]);
                assert(Seq::<char>::empty() + escaped@ =~= escaped@);
                assert(out@ =~= escaped_join(norm@.take(1)));
            }
        }
        i += 1;
    }
    proof {
        assert(norm@.take(n as int) =~= norm@);
    }
    out
}

/// The pattern a keyword with a placeholder compiles to: case-insensitive,
/// the escaped prefix, optional whitespace, a `value` group that runs up to
/// the next sentence delimiter (lazily when a suffix follows), optional
/// whitespace, and the escaped suffix.
pub open spec fn trigger_pattern_of(prefix: Seq<char>, suffix: Seq<char>) -> Seq<char> {
    "(?i)"@ + escaped_join(normalize_compare_spec(prefix)) + "\\s*(?P<value>"@ + (if
    normalize_compare_spec(suffix).len() == 0 {
        "[^,，。！？!?.;；:：]+"@
    } else {
        "[^,，。！？!?.;；:：]+?"@
    }) + ")\\s*"@ + escaped_join(normalize_compare_spec(suffix))
}

/// Builds the pattern for a split keyword.
pub fn build_trigger_pattern(prefix: &str, suffix: &str) -> (r: String)
    ensures
        r@ == trigger_pattern_of(prefix@, suffix@),
{
    let prefix_pattern = normalize_for_pattern(prefix);
    let suffix_pattern = normalize_for_pattern(suffix);
    let mut out = String::from_str("(?i)");
    out.append(prefix_pattern.as_str());
    out.append("\\s*(?P<value>");
    if suffix_pattern.as_str().unicode_len() == 0 {
        out.append("[^,，。！？!?.;；:：]+");
    } else {
        out.append("[^,，。！？!?.;；:：]+?");
    }
    out.append(")\\s*");
    out.append(suffix_pattern.as_str());
    out
}

/// A punctuation mark stripped from the ends of a captured value.
pub open spec fn is_value_mark(c: char) -> bool {
    c == '-' || c == '_' || c == '.' || c == ','
}

/// The number of leading marks of a trimmed value.
pub open spec fn leading_marks(s: Seq<char>) -> int
    decreases s.len(),
{
    if s.len() == 0 || !is_value_mark(s[0]) {
        0
    } else {
        1 + leading_marks(s.skip(1))
    }
}

/// The number of trailing marks of a trimmed value.
pub open spec fn trailing_marks(s: Seq<char>) -> int
    decreases s.len(),
{
    if s.len() == 0 || !is_value_mark(s[s.len() - 1]) {
        0
    } else {
        1 + trailing_marks(s.take(s.len() - 1))
    }
}

/// A value with leading and trailing marks removed.
pub open spec fn trim_marks_spec(s: Seq<char>) -> Seq<char> {
    if leading_marks(s) == s.len() {
        Seq::empty()
    } else {
        s.subrange(leading_marks(s), s.len() - trailing_marks(s))
    }
}

proof fn lemma_leading_marks_bound(s: Seq<char>)
    ensures
        0 <= leading_marks(s) <= s.len(),
        forall|j: int| 0 <= j < leading_marks(s) ==> is_value_mark(s[j]),
        leading_marks(s) < s.len() ==> !is_value_mark(s[leading_marks(s)]),
    decreases s.len(),
{
    if s.len() != 0 && is_value_mark(s[0]) {
        lemma_leading_marks_bound(s.skip(1));
        assert forall|j: int| 0 <= j < leading_marks(s) implies is_value_mark(s[j]) by {
            if j > 0 {
                assert(s.skip(1)[j - 1] == s[j]);
            }
        }
        if leading_marks(s) < s.len() {
            assert(s.skip(1)[leading_marks(s) - 1] == s[leading_marks(s)]);
        }
    }
}

proof fn lemma_trailing_marks_bound(s: Seq<char>)
    ensures
        0 <= trailing_marks(s) <= s.len(),
        forall|j: int| s.len() - trailing_marks(s) <= j < s.len() ==> is_value_mark(s[j]),
        trailing_marks(s) < s.len() ==> !is_value_mark(s[s.len() - trailing_marks(s) - 1]),
    decreases s.len(),
{
    if s.len() != 0 && is_value_mark(s[s.len() - 1]) {
        lemma_trailing_marks_bound(s.take(s.len() - 1));
        assert forall|j: int| s.len() - trailing_marks(s) <= j < s.len() implies is_value_mark(
            s[j],
        ) by {
            if j < s.len() - 1 {
                assert(s.take(s.len() - 1)[j] == s[j]);
            }
        }
        if trailing_marks(s) < s.len() {
            assert(s.take(s.len() - 1)[s.len() - trailing_marks(s) - 1] == s[s.len()
                - trailing_marks(s) - 1]);
        }
    }
}

fn mark_char(c: char) -> (r: bool)
    ensures
        r == is_value_mark(c),
{
    c == '-' || c == '_' || c == '.' || c == ','
}

fn trim_marks(s: &Vec<char>) -> (r: Vec<char>)
    ensures
        r@ == trim_marks_spec(s@),
{
    let n = s.len();
    proof {
        assert(s@.skip(0) =~= s@);
    }
    let mut start: usize = 0;
    while start < n && mark_char(s[start])
        invariant
            start <= n,
            n == s@.len(),
            leading_marks(s@.skip(start as int)) + start == leading_marks(s@),
        decreases n - start,
    {
        proof {
            assert(s@.skip(start as int).skip(1) =~= s@.skip(start + 1));
            assert(s@.skip(start as int)[0] == s@[start as int]);
        }
        start += 1;
    }
    proof {
        lemma_leading_marks_bound(s@.skip(start as int));
        if start < n {
            assert(s@.skip(start as int)[0] == s@[start as int]);
        }
        assert(leading_marks(s@) == start);
    }
    if start == n {
        let r: Vec<char> = Vec::new();
        proof {
            assert(r@ =~= trim_marks_spec(s@));
        }
        return r;
    }
    let mut end: usize = n;
    proof {
        assert(s@.take(n as int) =~= s@);
        lemma_leading_marks_bound(s@);
    }
    while end > start && mark_char(s[end - 1])
        invariant
            start < end <= n,
            n == s@.len(),
            start < n,
            start == leading_marks(s@),
            !is_value_mark(s@[start as int]),
            trailing_marks(s@.take(end as int)) + (n - end) == trailing_marks(s@),
        decreases end,
    {
        proof {
            assert(s@.take(end as int).take(end - 1) =~= s@.take(end - 1));
            assert(is_value_mark(s@.take(end as int)[end - 1]));
            // The character at `start` is no mark, so the scan never crosses
            // it.
            assert(end - 1 > start) by {
                if end - 1 == start {
                    assert(is_value_mark(s@[start as int]));
                }
            }
        }
        end -= 1;
    }
    proof {
        lemma_trailing_marks_bound(s@.take(end as int));
        assert(s@.take(end as int)[end - 1] == s@[end - 1]);
        assert(trailing_marks(s@.take(end as int)) == 0);
        assert(trailing_marks(s@) == n - end);
    }
    let mut r: Vec<char> = Vec::new();
    let mut i: usize = start;
    while i < end
        invariant
            start <= i <= end <= n,
            n == s@.len(),
            r@ == s@.subrange(start as int, i as int),
        decreases end - i,
    {
        r.push(s[i]);
        proof {
            assert(r@ =~= s@.subrange(start as int, i + 1));
        }
        i += 1;
    }
    proof {
        assert(r@ =~= trim_marks_spec(s@));
    }
    r
}

/// How a captured value is cleaned: trimmed, stripped of edge punctuation,
/// and trimmed again.
pub open spec fn normalize_value_spec(s: Seq<char>) -> Seq<char> {
    trim_spec(trim_marks_spec(trim_spec(s)))
}

/// Cleans a captured value.
pub fn normalize_for_value(value: &str) -> (r: String)
    ensures
        r@ == normalize_value_spec(value@),
{
    let t1 = trim_chars(&string_to_chars(value));
    let t2 = trim_marks(&t1);
    let t3 = trim_chars(&t2);
    chars_to_string(&t3)
}

/// The first position of a piece in a text, or nothing.
pub open spec fn first_occ_opt(hay: Seq<char>, needle: Seq<char>) -> Option<int> {
    if contains_seq(hay, needle) {
        Some(first_occurrence(hay, needle))
    } else {
        None
    }
}

/// The split of a trimmed keyword at its placeholder, when the placeholder
/// occurs exactly once.
pub open spec fn keyword_split_spec(k: Seq<char>) -> Option<(Seq<char>, Seq<char>)> {
    match first_occ_opt(k, "{value}"@) {
        None => None,
        Some(at) => {
            let p = k.take(at);
            let s = k.skip(at + 7);
            if contains_seq(s, "{value}"@) {
                None
            } else {
                Some((p, s))
            }
        },
    }
}

/// Captures the placeholder's value in one sentence and cleans it.
pub fn match_sentence(sentence: &str, prefix: &str, suffix: &str) -> (r: Option<String>)
    ensures
        match value_capture_of(trigger_pattern_of(prefix@, suffix@), sentence@) {
            Some(v) => r matches Some(s) && s@ == normalize_value_spec(v),
            None => r is None,
        },
{
    let pattern = build_trigger_pattern(prefix, suffix);
    let Some(captured) = regex_capture_value(pattern.as_str(), sentence) else {
        return None;
    };
    Some(normalize_for_value(captured.as_str()))
}

/// The first sentence where a split keyword's pattern captures a value.
pub open spec fn first_pattern_hit(p: Seq<char>, s: Seq<char>, sentences: Seq<Seq<char>>) -> Option<
    int,
>
    decreases sentences.len(),
{
    if sentences.len() == 0 {
        None
    } else if value_capture_of(trigger_pattern_of(p, s), sentences[0]) is Some {
        Some(0)
    } else {
        match first_pattern_hit(p, s, sentences.skip(1)) {
            Some(i) => Some(i + 1),
            None => None,
        }
    }
}

/// The first sentence whose normalized form contains a normalized keyword.
pub open spec fn first_contains_hit(nk: Seq<char>, sentences: Seq<Seq<char>>) -> Option<int>
    decreases sentences.len(),
{
    if sentences.len() == 0 {
        None
    } else if contains_seq(normalize_compare_spec(sentences[0]), nk) {
        Some(0)
    } else {
        match first_contains_hit(nk, sentences.skip(1)) {
            Some(i) => Some(i + 1),
            None => None,
        }
    }
}

/// Which sentence a keyword selects: through its placeholder pattern when it
/// has one, by normalized containment otherwise.
pub open spec fn find_keyword_sentence_spec(keyword: Seq<char>, sentences: Seq<Seq<char>>) -> Option<
    int,
> {
    let k = trim_spec(keyword);
    if k.len() == 0 {
        None
    } else {
        match keyword_split_spec(k) {
            Some((p, s)) => first_pattern_hit(p, s, sentences),
            None => {
                let nk = normalize_compare_spec(k);
                if nk.len() == 0 {
                    None
                } else {
                    first_contains_hit(nk, sentences)
                }
            },
        }
    }
}

/// Finds the sentence a card's keyword selects.
#[verifier::rlimit(100)]
pub fn find_keyword_sentence(card: &TriggerCard, sentences: &Vec<String>) -> (r: Option<String>)
    ensures
        match find_keyword_sentence_spec(card.keyword@, views(sentences@)) {
            Some(i) => r matches Some(s) && s@ == views(sentences@)[i],
            None => r is None,
        },
{
    let keyword_t = trim_chars(&string_to_chars(card.keyword.as_str()));
    if keyword_t.len() == 0 {
        return None;
    }
    let keyword = chars_to_string(&keyword_t);
    if let Some((prefix, suffix)) = split_keyword(keyword.as_str()) {
        proof {
            reveal_strlit("{value}");
            lemma_split_agrees(keyword@, prefix@, suffix@);
        }
        let n = sentences.len();
        let mut i: usize = 0;
        proof {
            assert(views(sentences@).skip(0) =~= views(sentences@));
        }
        while i < n
            invariant
                i <= n,
                n == sentences@.len(),
                keyword_split_spec(trim_spec(card.keyword@)) == Some((prefix@, suffix@)),
                trim_spec(card.keyword@).len() > 0,
                first_pattern_hit(prefix@, suffix@, views(sentences@)) == (match first_pattern_hit(
                    prefix@,
                    suffix@,
                    views(sentences@).skip(i as int),
                ) {
                    Some(k) => Some(k + i),
                    None => None::<int>,
                }),
            decreases n - i,
        {
            proof {
                assert(views(sentences@).skip(i as int)[0] == views(sentences@)[i as int]);
                assert(views(sentences@).skip(i as int).skip(1) =~= views(sentences@).skip(i + 1));
            }
            if match_sentence(sentences[i].as_str(), prefix.as_str(), suffix.as_str()).is_some() {
                return Some(sentences[i].clone());
            }
            i += 1;
        }
        proof {
            assert(views(sentences@).skip(n as int) =~= Seq::<Seq<char>>::empty());
        }
        return None;
    }
    let normalized_keyword = normalize_for_compare(keyword.as_str());
    proof {
        reveal_strlit("{value}");
        lemma_no_split_agrees(keyword@);
    }
    if normalized_keyword.len() == 0 {
        return None;
    }
    let n = sentences.len();
    let mut i: usize = 0;
    proof {
        assert(views(sentences@).skip(0) =~= views(sentences@));
    }
    while i < n
        invariant
            i <= n,
            n == sentences@.len(),
            keyword_split_spec(trim_spec(card.keyword@)) is None,
            trim_spec(card.keyword@).len() > 0,
            normalized_keyword@ == normalize_compare_spec(trim_spec(card.keyword@)),
            normalized_keyword@.len() > 0,
            first_contains_hit(normalized_keyword@, views(sentences@)) == (
            match first_contains_hit(normalized_keyword@, views(sentences@).skip(i as int)) {
                Some(k) => Some(k + i),
                None => None::<int>,
            }),
        decreases n - i,
    {
        proof {
            assert(views(sentences@).skip(i as int)[0] == views(sentences@)[i as int]);
            assert(views(sentences@).skip(i as int).skip(1) =~= views(sentences@).skip(i + 1));
        }
        let sentence_norm = normalize_for_compare(sentences[i].as_str());
        if crate::text::contains_chars(&sentence_norm, &normalized_keyword) {
            return Some(sentences[i].clone());
        }
        i += 1;
    }
    proof {
        assert(views(sentences@).skip(n as int) =~= Seq::<Seq<char>>::empty());
    }
    None
}

/// A successful keyword split is the split of the specification.
proof fn lemma_split_agrees(k: Seq<char>, p: Seq<char>, s: Seq<char>)
    requires
        occurs_at(k, "{value}"@, p.len() as int),
        k == p + "{value}"@ + s,
        !contains_seq(s, "{value}"@),
        forall|j: int| 0 <= j < p.len() ==> !occurs_at(k, "{value}"@, j),
        "{value}"@.len() == 7,
    ensures
        keyword_split_spec(k) == Some((p, s)),
{
    lemma_min_occurrence(k, "{value}"@, p.len() as int);
    let at = first_occurrence(k, "{value}"@);
    assert(occurs_at(k, "{value}"@, p.len() as int));
    assert(contains_seq(k, "{value}"@));
    assert(at == p.len()) by {
        if at < p.len() {
            assert(!occurs_at(k, "{value}"@, at));
        }
        if at > p.len() {
            assert(!occurs_at(k, "{value}"@, p.len() as int));
        }
    }
    assert(k.take(at) =~= p);
    assert(k.skip(at + 7) =~= s);
}

/// Every occurrence has a first occurrence at or before it.
proof fn lemma_min_occurrence(hay: Seq<char>, needle: Seq<char>, at: int)
    requires
        occurs_at(hay, needle, at),
    ensures
        occurs_at(hay, needle, first_occurrence(hay, needle)),
        forall|j: int| 0 <= j < first_occurrence(hay, needle) ==> !occurs_at(hay, needle, j),
        first_occurrence(hay, needle) <= at,
    decreases at,
{
    if exists|j: int| 0 <= j < at && occurs_at(hay, needle, j) {
        let j = choose|j: int| 0 <= j < at && occurs_at(hay, needle, j);
        lemma_min_occurrence(hay, needle, j);
    } else {
        assert(occurs_at(hay, needle, at) && (forall|j: int|
            0 <= j < at ==> !occurs_at(hay, needle, j)));
        let m = first_occurrence(hay, needle);
        assert(occurs_at(hay, needle, m) && (forall|j: int|
            0 <= j < m ==> !occurs_at(hay, needle, j)));
        assert(m <= at) by {
            if m > at {
                assert(!occurs_at(hay, needle, at));
            }
        }
    }
}

/// A failed keyword split means the specification splits nothing either.
#[verifier::rlimit(100)]
proof fn lemma_no_split_agrees(k: Seq<char>)
    requires
        !contains_seq(k, "{value}"@) || (exists|a: int, b: int|
            a < b && #[trigger] occurs_at(k, "{value}"@, a) && #[trigger] occurs_at(
                k,
                "{value}"@,
                b,
            )),
        "{value}"@.len() == 7,
    ensures
        keyword_split_spec(k) is None,
{
    reveal_strlit("{value}");
    if contains_seq(k, "{value}"@) {
        let (a, b) = choose|a: int, b: int|
            a < b && #[trigger] occurs_at(k, "{value}"@, a) && #[trigger] occurs_at(
                k,
                "{value}"@,
                b,
            );
        lemma_min_occurrence(k, "{value}"@, a);
        let at = first_occurrence(k, "{value}"@);
        assert(at <= a);
        let s = k.skip(at + 7);
        // The later occurrence lies wholly inside the suffix.
        assert(b >= at + 7) by {
            if b < at + 7 {
                // Two overlapping placeholder occurrences: the earlier one
                // would start before `at`.
                if b < at {
                    assert(!occurs_at(k, "{value}"@, b));
                } else {
                    assert(a < b);
                    if a < at {
                        assert(!occurs_at(k, "{value}"@, a));
                    }
                    // Two overlapping occurrences of the placeholder clash:
                    // its first character reappears mid-way, which the
                    // placeholder's own characters rule out.
                    let ph = "{value}"@;
                    assert(k[b] == ph[0]) by {
                        assert(k.subrange(b, b + 7)[0] == k[b]);
                    }
                    assert(k[b] == ph[b - a]) by {
                        assert(k.subrange(a, a + 7)[b - a] == k[b]);
                    }
                    assert(false);
                }
            }
        }
        assert(occurs_at(s, "{value}"@, b - at - 7)) by {
            assert(s.subrange(b - at - 7, b - at) =~= k.subrange(b, b + 7));
        }
    }
}

/// What a card yields on a list of sentences: the value its keyword and
/// variables select, matched by keyword.
pub fn match_card(card: &TriggerCard, sentences: &Vec<String>) -> (r: Option<(String, bool)>)
    ensures
        match find_keyword_sentence_spec(card.keyword@, views(sentences@)) {
            None => r is None,
            Some(i) => {
                let sent = views(sentences@)[i];
                let vm = if normalize_compare_spec(sent).len() == 0 {
                    None
                } else {
                    match best_variable_match(
                        normalize_compare_spec(sent),
                        card.variables@,
                        card.variables@.len() as int,
                    ) {
                        Some((_, _, v)) => Some(v),
                        None => None,
                    }
                };
                match vm {
                    Some(v) => r matches Some((s, by_kw)) && s@ == v && by_kw == true,
                    None => match first_non_empty_variable_spec(card.variables@) {
                        Some(v) => r matches Some((s, by_kw)) && s@ == v && by_kw == true,
                        None => r is None,
                    },
                }
            },
        },
{
    let Some(sentence) = find_keyword_sentence(card, sentences) else {
        return None;
    };
    let value = match match_variable_in_sentence(sentence.as_str(), &card.variables) {
        Some(v) => v,
        None => {
            let Some(v) = first_non_empty_variable(card) else {
                return None;
            };
            v
        },
    };
    Some((value, true))
}

/// Removes the matched trigger phrase from the text: through the keyword's
/// pattern when one can be built, and trimming the result; a keyword that
/// yields no pattern, or a pattern the engine rejects, leaves the text
/// trimmed and otherwise unchanged.
pub fn remove_trigger_phrase(input: &str, keyword: &str) -> (r: String)
    ensures
        ({
            let k = trim_spec(keyword@);
            let pattern = match keyword_split_spec(k) {
                Some((p, s)) => Some(trigger_pattern_of(p, s)),
                None => if normalize_compare_spec(k).len() == 0 {
                    None
                } else {
                    Some("(?i)"@ + escaped_join(normalize_compare_spec(k)))
                },
            };
            match pattern {
                None => r@ == trim_spec(input@),
                Some(pat) => match removed_first_of(pat, input@) {
                    Some(cleaned) => r@ == trim_spec(cleaned),
                    None => r@ == trim_spec(input@),
                },
            }
        }),
{
    let keyword_t = trim_chars(&string_to_chars(keyword));
    let trimmed_input = trim_chars(&string_to_chars(input));
    if keyword_t.len() == 0 {
        proof {
            reveal_strlit("{value}");
            assert(!contains_seq(trim_spec(keyword@), "{value}"@));
            assert(keyword_t@ =~= Seq::<char>::empty());
            assert(normalize_compare_spec(trim_spec(keyword@)).len() == 0);
        }
        return chars_to_string(&trimmed_input);
    }
    let keyword_s = chars_to_string(&keyword_t);
    let pattern: String;
    if let Some((prefix, suffix)) = split_keyword(keyword_s.as_str()) {
        proof {
            reveal_strlit("{value}");
            lemma_split_agrees(keyword_s@, prefix@, suffix@);
        }
        pattern = build_trigger_pattern(prefix.as_str(), suffix.as_str());
    } else {
        proof {
            reveal_strlit("{value}");
            lemma_no_split_agrees(keyword_s@);
        }
        let keyword_pattern = normalize_for_pattern(keyword_s.as_str());
        if keyword_pattern.as_str().unicode_len() == 0 {
            return chars_to_string(&trimmed_input);
        }
        let mut p = String::from_str("(?i)");
        p.append(keyword_pattern.as_str());
        pattern = p;
    }
    let Some(cleaned) = regex_remove_first(pattern.as_str(), input) else {
        return chars_to_string(&trimmed_input);
    };
    let cleaned_t = trim_chars(&string_to_chars(cleaned.as_str()));
    chars_to_string(&cleaned_t)
}

} // verus!

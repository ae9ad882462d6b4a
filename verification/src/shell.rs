//! Splitting a command string into words the way a POSIX shell does for
//! simple quoting, and `${VAR}` interpolation in compose values.
use vstd::prelude::*;
use crate::text::{
    append_chars, chars_of, char_is_ws, find, find_char, find_char_from, find_chars, is_ws, lookup,
    lookup_entry, slice_chars, string_of, views,
};

verus! {

/// The quote the splitter is inside of, if any.
pub open spec fn close_word(cur: Seq<char>, quote: Option<char>) -> Seq<Seq<char>> {
    let w = match quote {
        Some(q) => seq![q] + cur,
        None => cur,
    };
    if w.len() > 0 {
        seq![w]
    } else {
        Seq::empty()
    }
}

/// The words from position `i` on, `cur` holding the word being read: single
/// quotes keep everything up to the closing quote, double quotes allow `\`
/// escapes, outside quotes `\` escapes the next character and white space
/// separates words; an unclosed quote stays at the front of the last word.
pub open spec fn words_from(s: Seq<char>, i: int, quote: Option<char>, cur: Seq<char>) -> Seq<Seq<char>>
    decreases s.len() - i,
{
    if i < 0 || i >= s.len() {
        close_word(cur, quote)
    } else {
        let c = s[i];
        let has_next = i + 1 < s.len();
        if quote == Some('\'') {
            if c == '\'' {
                words_from(s, i + 1, None, cur)
            } else {
                words_from(s, i + 1, quote, cur.push(c))
            }
        } else if quote == Some('"') {
            if c == '"' {
                words_from(s, i + 1, None, cur)
            } else if c == '\\' {
                if has_next {
                    words_from(s, i + 2, quote, cur.push(s[i + 1]))
                } else {
                    words_from(s, i + 1, quote, cur)
                }
            } else {
                words_from(s, i + 1, quote, cur.push(c))
            }
        } else if is_ws(c) {
            if cur.len() > 0 {
                seq![cur] + words_from(s, i + 1, quote, Seq::empty())
            } else {
                words_from(s, i + 1, quote, cur)
            }
        } else if c == '\'' || c == '"' {
            words_from(s, i + 1, Some(c), cur)
        } else if c == '\\' {
            if has_next {
                words_from(s, i + 2, quote, cur.push(s[i + 1]))
            } else {
                words_from(s, i + 1, quote, cur)
            }
        } else {
            words_from(s, i + 1, quote, cur.push(c))
        }
    }
}

/// The words of a command string.
pub open spec fn shell_words(s: Seq<char>) -> Seq<Seq<char>> {
    words_from(s, 0, None, Seq::empty())
}

/// Splits a command string into words.
pub fn split_shell_words(value: &str) -> (r: Vec<String>)
    ensures
        views(r@) == shell_words(value@),
{
    let s = chars_of(value);
    let mut words: Vec<String> = Vec::new();
    let mut current: Vec<char> = Vec::new();
    let mut quote: Option<char> = None;
    let mut i: usize = 0;
    while i < s.len()
        invariant
            i <= s.len(),
            quote is None || quote == Some('\'') || quote == Some('"'),
            shell_words(s@) == views(words@) + words_from(s@, i as int, quote, current@),
        decreases s.len() - i,
    {
        let c = s[i];
        let has_next = i + 1 < s.len();
        if quote == Some('\'') {
            if c == '\'' {
                quote = None;
            } else {
                current.push(c);
            }
            i = i + 1;
        } else if quote == Some('"') {
            if c == '"' {
                quote = None;
                i = i + 1;
            } else if c == '\\' {
                if has_next {
                    current.push(s[i + 1]);
                    i = i + 2;
                } else {
                    i = i + 1;
                }
            } else {
                current.push(c);
                i = i + 1;
            }
        } else if char_is_ws(c) {
            if current.len() > 0 {
                let w = string_of(&current);
                let ghost old_words = words@;
                words.push(w);
                proof {
                    assert(views(words@) =~= views(old_words).push(w@));
                    assert(views(words@) + words_from(s@, i + 1, quote, Seq::empty()) =~= views(old_words)
                        + (seq![w@] + words_from(s@, i + 1, quote, Seq::empty())));
                }
                current = Vec::new();
            }
            i = i + 1;
        } else if c == '\'' || c == '"' {
            quote = Some(c);
            i = i + 1;
        } else if c == '\\' {
            if has_next {
                current.push(s[i + 1]);
                i = i + 2;
            } else {
                i = i + 1;
            }
        } else {
            current.push(c);
            i = i + 1;
        }
    }
    let mut last: Vec<char> = Vec::new();
    match quote {
        Some(q) => last.push(q),
        None => {},
    }
    append_chars(&mut last, &current);
    if last.len() > 0 {
        let w = string_of(&last);
        let ghost old_words = words@;
        words.push(w);
        proof {
            assert(views(words@) =~= views(old_words).push(w@));
        }
    }
    proof {
        assert(close_word(current@, quote) =~= if last@.len() > 0 { seq![last@] } else { Seq::<Seq<char>>::empty() });
        assert(shell_words(s@) =~= views(words@));
    }
    words
}

/// `s` without leading and trailing `c`.
pub open spec fn strip_char(s: Seq<char>, c: char) -> Seq<char>
    decreases s.len(),
{
    if s.len() > 0 && s[0] == c {
        strip_char(s.drop_first(), c)
    } else if s.len() > 0 && s.last() == c {
        strip_char(s.drop_last(), c)
    } else {
        s
    }
}

/// Stripping a character never lengthens a sequence.
pub proof fn lemma_strip_char_len(s: Seq<char>, c: char)
    ensures
        strip_char(s, c).len() <= s.len(),
    decreases s.len(),
{
    if s.len() > 0 && s[0] == c {
        lemma_strip_char_len(s.drop_first(), c);
    } else if s.len() > 0 && s.last() == c {
        lemma_strip_char_len(s.drop_last(), c);
    }
}

fn strip_char_exec(v: &Vec<char>, c: char) -> (r: Vec<char>)
    ensures
        r@ == strip_char(v@, c),
{
    let mut lo: usize = 0;
    let mut hi: usize = v.len();
    proof {
        assert(v@.subrange(0, v.len() as int) =~= v@);
    }
    while lo < hi && (v[lo] == c || v[hi - 1] == c)
        invariant
            lo <= hi <= v.len(),
            strip_char(v@, c) == strip_char(v@.subrange(lo as int, hi as int), c),
        decreases hi - lo,
    {
        if v[lo] == c {
            proof {
                assert(v@.subrange(lo as int, hi as int).drop_first() =~= v@.subrange(lo + 1, hi as int));
            }
            lo = lo + 1;
        } else {
            proof {
                assert(v@.subrange(lo as int, hi as int).drop_last() =~= v@.subrange(lo as int, hi - 1));
            }
            hi = hi - 1;
        }
    }
    slice_chars(v, lo, hi)
}

/// A compose value with its quotes removed (double, then single) and its
/// `${...}` references expanded from `env`.
pub open spec fn compose_subst(value: Seq<char>, env: Seq<(String, String)>) -> Seq<char>
    decreases value.len(), 2int,
{
    let t = strip_char(strip_char(value, '"'), '\'');
    proof {
        lemma_strip_char_len(value, '"');
        lemma_strip_char_len(strip_char(value, '"'), '\'');
    }
    compose_subst_body(t, env)
}

/// The `${...}` references of `t` expanded; an unclosed `${` stays as written.
pub open spec fn compose_subst_body(t: Seq<char>, env: Seq<(String, String)>) -> Seq<char>
    decreases t.len(), 1int,
{
    match find(t, "${"@) {
        None => t,
        Some(start) => {
            let after = t.skip(start + 2);
            match find_char_from(after, '}', 0) {
                None => t,
                Some(e) => {
                    proof {
                        crate::text::lemma_find_from_bounds(t, "${"@, 0);
                        crate::text::lemma_find_char_from_bounds(after, '}', 0);
                        reveal_strlit("${");
                    }
                    t.take(start) + expand_compose(after.take(e), env) + compose_subst_body(
                        after.skip(e + 1),
                        env,
                    )
                },
            }
        },
    }
}

/// One reference: `NAME:-default` uses the default when the variable is
/// unset or empty, `NAME-default` only when it is unset, a bare name gives
/// the variable or nothing.
pub open spec fn expand_compose(expr: Seq<char>, env: Seq<(String, String)>) -> Seq<char>
    decreases expr.len(), 0int,
{
    match find(expr, ":-"@) {
        Some(i) => {
            proof {
                crate::text::lemma_find_from_bounds(expr, ":-"@, 0);
                reveal_strlit(":-");
            }
            match lookup(env, expr.take(i)) {
                Some(v) => if v.len() > 0 {
                    v
                } else {
                    compose_subst(expr.skip(i + 2), env)
                },
                None => compose_subst(expr.skip(i + 2), env),
            }
        },
        None => match find_char_from(expr, '-', 0) {
            Some(i) => {
                proof {
                    crate::text::lemma_find_char_from_bounds(expr, '-', 0);
                }
                match lookup(env, expr.take(i)) {
                    Some(v) => v,
                    None => compose_subst(expr.skip(i + 1), env),
                }
            },
            None => match lookup(env, expr) {
                Some(v) => v,
                None => Seq::empty(),
            },
        },
    }
}

/// Expands a compose value from `env`.
pub fn substitute_compose_env(value: &str, env: &Vec<(String, String)>) -> (r: String)
    ensures
        r@ == compose_subst(value@, env@),
    decreases value@.len(), 2int,
{
    let v = chars_of(value);
    let a = strip_char_exec(&v, '"');
    let t = strip_char_exec(&a, '\'');
    proof {
        lemma_strip_char_len(value@, '"');
        lemma_strip_char_len(strip_char(value@, '"'), '\'');
    }
    let out = compose_subst_body_exec(&t, env);
    string_of(&out)
}

fn compose_subst_body_exec(t: &Vec<char>, env: &Vec<(String, String)>) -> (r: Vec<char>)
    ensures
        r@ == compose_subst_body(t@, env@),
    decreases t@.len(), 1int,
{
    let opener = chars_of("${");
    proof {
        reveal_strlit("${");
    }
    match find_chars(t, &opener, 0) {
        None => slice_chars(t, 0, t.len()),
        Some(start) => {
            proof {
                crate::text::lemma_find_from_bounds(t@, "${"@, 0);
                assert(t@.subrange(0, t.len() as int) =~= t@);
            }
            let after = slice_chars(t, start + 2, t.len());
            proof {
                assert(after@ =~= t@.skip(start + 2));
            }
            match find_char(&after, '}', 0) {
                None => slice_chars(t, 0, t.len()),
                Some(e) => {
                    proof {
                        crate::text::lemma_find_char_from_bounds(after@, '}', 0);
                    }
                    let mut out = slice_chars(t, 0, start);
                    let expr = slice_chars(&after, 0, e);
                    let expr_text = string_of(&expr);
                    let expanded = expand_compose_variable(expr_text.as_str(), env);
                    let ev = chars_of(expanded.as_str());
                    append_chars(&mut out, &ev);
                    let rest = slice_chars(&after, e + 1, after.len());
                    let tail = compose_subst_body_exec(&rest, env);
                    append_chars(&mut out, &tail);
                    proof {
                        assert(expr@ =~= after@.take(e as int));
                        assert(rest@ =~= after@.skip(e + 1));
                        assert(out@ =~= compose_subst_body(t@, env@));
                    }
                    out
                },
            }
        },
    }
}

/// Expands one compose reference from `env`.
pub fn expand_compose_variable(expression: &str, env: &Vec<(String, String)>) -> (r: String)
    ensures
        r@ == expand_compose(expression@, env@),
    decreases expression@.len(), 0int,
{
    let v = chars_of(expression);
    let sep = chars_of(":-");
    proof {
        reveal_strlit(":-");
    }
    match find_chars(&v, &sep, 0) {
        Some(i) => {
            proof {
                crate::text::lemma_find_from_bounds(v@, ":-"@, 0);
            }
            let name = slice_chars(&v, 0, i);
            let default = slice_chars(&v, i + 2, v.len());
            proof {
                assert(name@ =~= expression@.take(i as int));
                assert(default@ =~= expression@.skip(i + 2));
            }
            let name_text = string_of(&name);
            let default_text = string_of(&default);
            match lookup_entry(env, name_text.as_str()) {
                Some(value) => if !value.as_str().is_empty() {
                    value
                } else {
                    substitute_compose_env(default_text.as_str(), env)
                },
                None => substitute_compose_env(default_text.as_str(), env),
            }
        },
        None => match find_char(&v, '-', 0) {
            Some(i) => {
                proof {
                    crate::text::lemma_find_char_from_bounds(v@, '-', 0);
                }
                let name = slice_chars(&v, 0, i);
                let default = slice_chars(&v, i + 1, v.len());
                proof {
                    assert(name@ =~= expression@.take(i as int));
                    assert(default@ =~= expression@.skip(i + 1));
                }
                let name_text = string_of(&name);
                let default_text = string_of(&default);
                match lookup_entry(env, name_text.as_str()) {
                    Some(value) => value,
                    None => substitute_compose_env(default_text.as_str(), env),
                }
            },
            None => match lookup_entry(env, expression) {
                Some(value) => value,
                None => String::new(),
            },
        },
    }
}

} // verus!

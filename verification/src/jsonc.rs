//! Reduction of JSON-with-comments text to plain JSON text: comments are
//! removed and commas before a closing bracket are dropped, string literals
//! being left as they are.
use vstd::prelude::*;
use crate::text::{chars_of, char_is_ws, is_ws, string_of};

verus! {

/// Where the comment scanner stands.
#[derive(Clone, Copy, PartialEq, Eq, Structural)]
pub enum CommentState {
    Code,
    Str { escaped: bool },
    LineComment,
    BlockComment,
}

/// The state inside a string literal after reading `c`.
pub open spec fn string_step(escaped: bool, c: char) -> CommentState {
    if escaped {
        CommentState::Str { escaped: false }
    } else if c == '\\' {
        CommentState::Str { escaped: true }
    } else if c == '"' {
        CommentState::Code
    } else {
        CommentState::Str { escaped: false }
    }
}

/// The text kept from position `i` on, scanning in state `st`: `//` comments
/// run to the end of the line (the line break is kept), `/* */` comments are
/// dropped whole, and string literals are copied with their escapes.
pub open spec fn strip_comments_from(s: Seq<char>, i: int, st: CommentState) -> Seq<char>
    decreases s.len() - i,
{
    if i < 0 || i >= s.len() {
        Seq::empty()
    } else {
        let c = s[i];
        let has_next = i + 1 < s.len();
        match st {
            CommentState::LineComment => if c == '\n' {
                seq![c] + strip_comments_from(s, i + 1, CommentState::Code)
            } else {
                strip_comments_from(s, i + 1, CommentState::LineComment)
            },
            CommentState::BlockComment => if c == '*' && has_next && s[i + 1] == '/' {
                strip_comments_from(s, i + 2, CommentState::Code)
            } else {
                strip_comments_from(s, i + 1, CommentState::BlockComment)
            },
            CommentState::Str { escaped } => seq![c] + strip_comments_from(
                s,
                i + 1,
                string_step(escaped, c),
            ),
            CommentState::Code => if c == '"' {
                seq![c] + strip_comments_from(s, i + 1, CommentState::Str { escaped: false })
            } else if c == '/' && has_next && s[i + 1] == '/' {
                strip_comments_from(s, i + 2, CommentState::LineComment)
            } else if c == '/' && has_next && s[i + 1] == '*' {
                strip_comments_from(s, i + 2, CommentState::BlockComment)
            } else {
                seq![c] + strip_comments_from(s, i + 1, CommentState::Code)
            },
        }
    }
}

/// `s` with its comments removed.
pub open spec fn strip_comments(s: Seq<char>) -> Seq<char> {
    strip_comments_from(s, 0, CommentState::Code)
}

/// Removes `//` and `/* */` comments outside string literals.
pub fn strip_jsonc_comments(text: &str) -> (r: String)
    ensures
        r@ == strip_comments(text@),
{
    let s = chars_of(text);
    let mut out: Vec<char> = Vec::new();
    let mut st = CommentState::Code;
    let mut i: usize = 0;
    while i < s.len()
        invariant
            i <= s.len() + 1,
            strip_comments(s@) == out@ + strip_comments_from(s@, i as int, st),
        decreases s.len() + 1 - i,
    {
        let c = s[i];
        let has_next = i + 1 < s.len();
        let ghost before = out@;
        match st {
            CommentState::LineComment => {
                if c == '\n' {
                    out.push(c);
                    st = CommentState::Code;
                }
                i = i + 1;
            },
            CommentState::BlockComment => {
                if c == '*' && has_next && s[i + 1] == '/' {
                    st = CommentState::Code;
                    i = i + 2;
                } else {
                    i = i + 1;
                }
            },
            CommentState::Str { escaped } => {
                out.push(c);
                st =
                if escaped {
                    CommentState::Str { escaped: false }
                } else if c == '\\' {
                    CommentState::Str { escaped: true }
                } else if c == '"' {
                    CommentState::Code
                } else {
                    CommentState::Str { escaped: false }
                };
                i = i + 1;
            },
            CommentState::Code => {
                if c == '"' {
                    out.push(c);
                    st = CommentState::Str { escaped: false };
                    i = i + 1;
                } else if c == '/' && has_next && s[i + 1] == '/' {
                    st = CommentState::LineComment;
                    i = i + 2;
                } else if c == '/' && has_next && s[i + 1] == '*' {
                    st = CommentState::BlockComment;
                    i = i + 2;
                } else {
                    out.push(c);
                    i = i + 1;
                }
            },
        }
        proof {
            assert(before + seq![c] =~= before.push(c));
        }
    }
    proof {
        assert(out@ + strip_comments_from(s@, i as int, st) =~= out@);
    }
    string_of(&out)
}

/// The first index at or after `k` that does not hold white space.
pub open spec fn next_non_ws(s: Seq<char>, k: int) -> Option<int>
    decreases s.len() - k,
{
    if k < 0 || k >= s.len() {
        None
    } else if !is_ws(s[k]) {
        Some(k)
    } else {
        next_non_ws(s, k + 1)
    }
}

/// A comma at `i` that only white space separates from a closing `}` or `]`.
pub open spec fn trailing_comma_at(s: Seq<char>, i: int) -> bool {
    0 <= i < s.len() && s[i] == ',' && match next_non_ws(s, i + 1) {
        Some(j) => s[j] == '}' || s[j] == ']',
        None => false,
    }
}

/// The text kept from position `i` on: string literals are copied as they are,
/// trailing commas outside them are dropped.
pub open spec fn strip_commas_from(s: Seq<char>, i: int, in_string: bool, escaped: bool) -> Seq<
    char,
>
    decreases s.len() - i,
{
    if i < 0 || i >= s.len() {
        Seq::empty()
    } else {
        let c = s[i];
        if in_string {
            if escaped {
                seq![c] + strip_commas_from(s, i + 1, true, false)
            } else if c == '\\' {
                seq![c] + strip_commas_from(s, i + 1, true, true)
            } else if c == '"' {
                seq![c] + strip_commas_from(s, i + 1, false, false)
            } else {
                seq![c] + strip_commas_from(s, i + 1, true, false)
            }
        } else if c == '"' {
            seq![c] + strip_commas_from(s, i + 1, true, false)
        } else if trailing_comma_at(s, i) {
            strip_commas_from(s, i + 1, false, false)
        } else {
            seq![c] + strip_commas_from(s, i + 1, false, false)
        }
    }
}

/// `s` with its trailing commas removed.
pub open spec fn strip_commas(s: Seq<char>) -> Seq<char> {
    strip_commas_from(s, 0, false, false)
}

/// Removes commas that directly (up to white space) precede `}` or `]`,
/// outside string literals.
pub fn strip_trailing_commas(text: &str) -> (r: String)
    ensures
        r@ == strip_commas(text@),
{
    let s = chars_of(text);
    let mut out: Vec<char> = Vec::new();
    let mut index: usize = 0;
    let mut in_string = false;
    let mut escaped = false;
    while index < s.len()
        invariant
            index <= s.len(),
            !in_string ==> !escaped,
            strip_commas(s@) == out@ + strip_commas_from(s@, index as int, in_string, escaped),
        decreases s.len() - index,
    {
        let current = s[index];
        let ghost before = out@;
        if in_string {
            out.push(current);
            if escaped {
                escaped = false;
            } else if current == '\\' {
                escaped = true;
            } else if current == '"' {
                in_string = false;
            }
            index = index + 1;
        } else if current == '"' {
            in_string = true;
            out.push(current);
            index = index + 1;
        } else {
            let mut drop = false;
            if current == ',' {
                let mut lookahead = index + 1;
                while lookahead < s.len() && char_is_ws(s[lookahead])
                    invariant
                        index < lookahead <= s.len(),
                        s@[index as int] == ',',
                        next_non_ws(s@, index + 1) == next_non_ws(s@, lookahead as int),
                    decreases s.len() - lookahead,
                {
                    lookahead = lookahead + 1;
                }
                if lookahead < s.len() && (s[lookahead] == '}' || s[lookahead] == ']') {
                    drop = true;
                }
                proof {
                    assert(drop == trailing_comma_at(s@, index as int));
                }
            }
            if !drop {
                out.push(current);
            }
            index = index + 1;
        }
        proof {
            assert(before + seq![current] =~= before.push(current));
        }
    }
    proof {
        assert(out@ + strip_commas_from(s@, index as int, in_string, escaped) =~= out@);
    }
    string_of(&out)
}


proof fn lemma_no_slash_from(s: Seq<char>, i: int, st: CommentState)
    requires
        0 <= i <= s.len(),
        st is Code || st is Str,
        forall|k: int| i <= k < s.len() ==> s[k] != '/',
    ensures
        strip_comments_from(s, i, st) == s.subrange(i, s.len() as int),
    decreases s.len() - i,
{
    if i < s.len() {
        let c = s[i];
        match st {
            CommentState::Str { escaped } => {
                lemma_no_slash_from(s, i + 1, string_step(escaped, c));
            },
            _ => {
                if c == '"' {
                    lemma_no_slash_from(s, i + 1, CommentState::Str { escaped: false });
                } else {
                    lemma_no_slash_from(s, i + 1, CommentState::Code);
                }
            },
        }
        assert(seq![c] + s.subrange(i + 1, s.len() as int) =~= s.subrange(i, s.len() as int));
    } else {
        assert(s.subrange(i, s.len() as int) =~= Seq::<char>::empty());
    }
}

/// Text without a `/` holds no comment: stripping comments leaves it as it is.
pub proof fn lemma_strip_comments_without_slash(s: Seq<char>)
    requires
        !s.contains('/'),
    ensures
        strip_comments(s) == s,
{
    assert forall|k: int| 0 <= k < s.len() implies s[k] != '/' by {
        if s[k] == '/' {
            assert(s.contains('/'));
        }
    }
    lemma_no_slash_from(s, 0, CommentState::Code);
    assert(s.subrange(0, s.len() as int) =~= s);
}

proof fn lemma_no_comma_from(s: Seq<char>, i: int, in_string: bool, escaped: bool)
    requires
        0 <= i <= s.len(),
        forall|k: int| i <= k < s.len() ==> s[k] != ',',
    ensures
        strip_commas_from(s, i, in_string, escaped) == s.subrange(i, s.len() as int),
    decreases s.len() - i,
{
    if i < s.len() {
        let c = s[i];
        if in_string {
            if escaped {
                lemma_no_comma_from(s, i + 1, true, false);
            } else if c == '\\' {
                lemma_no_comma_from(s, i + 1, true, true);
            } else if c == '"' {
                lemma_no_comma_from(s, i + 1, false, false);
            } else {
                lemma_no_comma_from(s, i + 1, true, false);
            }
        } else if c == '"' {
            lemma_no_comma_from(s, i + 1, true, false);
        } else {
            lemma_no_comma_from(s, i + 1, false, false);
        }
        assert(seq![c] + s.subrange(i + 1, s.len() as int) =~= s.subrange(i, s.len() as int));
    } else {
        assert(s.subrange(i, s.len() as int) =~= Seq::<char>::empty());
    }
}

/// Text without a comma has no trailing comma: stripping commas leaves it as it is.
pub proof fn lemma_strip_commas_without_comma(s: Seq<char>)
    requires
        !s.contains(','),
    ensures
        strip_commas(s) == s,
{
    assert forall|k: int| 0 <= k < s.len() implies s[k] != ',' by {
        if s[k] == ',' {
            assert(s.contains(','));
        }
    }
    lemma_no_comma_from(s, 0, false, false);
    assert(s.subrange(0, s.len() as int) =~= s);
}

} // verus!

//! The path resolver: turns the optional trailing path argument and
//! the current directory into one absolute, shell-safe path string.
//!
//! Separator handling is a single pass of literal character
//! substitution, and joining is plain concatenation — deliberately
//! simpler than true path joining, so an already-absolute argument is
//! still prefixed by the current directory.

use vstd::prelude::*;

use crate::args::{last_plain_token, view_opt, find_path_argument};
use crate::text::{is_space_char, is_space, push_char};

verus! {

/// The platform's directory separator.
pub open spec fn sep_char(windows: bool) -> char {
    if windows {
        '\\'
    } else {
        '/'
    }
}

/// One character after separator normalization: on a Windows-style
/// target a forward slash becomes a backslash, elsewhere a backslash
/// becomes a forward slash; every other character is kept.
pub open spec fn flip_sep(c: char, windows: bool) -> char {
    if windows {
        if c == '/' {
            '\\'
        } else {
            c
        }
    } else {
        if c == '\\' {
            '/'
        } else {
            c
        }
    }
}

/// The whole path after separator normalization.
pub open spec fn normalized(s: Seq<char>, windows: bool) -> Seq<char> {
    s.map_values(|c: char| flip_sep(c, windows))
}

/// Replaces the foreign separator characters with the platform's own.
pub fn normalize_separators(s: &String, windows: bool) -> (r: String)
    ensures
        r@ == normalized(s@, windows),
{
    let st = s.as_str();
    let n = st.unicode_len();
    let mut out = String::new();
    let mut i: usize = 0;
    proof {
        assert(normalized(s@.take(0), windows) =~= Seq::<char>::empty());
    }
    while i < n
        invariant
            i <= n,
            n == s@.len(),
            st@ == s@,
            out@ == normalized(s@.take(i as int), windows),
        decreases n - i,
    {
        let c = st.get_char(i);
        let c2 = if windows {
            if c == '/' {
                '\\'
            } else {
                c
            }
        } else {
            if c == '\\' {
                '/'
            } else {
                c
            }
        };
        push_char(&mut out, c2);
        proof {
            assert(normalized(s@.take(i as int + 1), windows) =~= normalized(
                s@.take(i as int),
                windows,
            ).push(flip_sep(s@[i as int], windows)));
        }
        i = i + 1;
    }
    proof {
        assert(s@.take(n as int) =~= s@);
    }
    out
}

/// The concatenation rule: when the (normalized) argument already
/// begins with the separator, the directory and the argument are
/// concatenated directly; otherwise one separator is put between them.
pub open spec fn joined(dir: Seq<char>, p: Seq<char>, windows: bool) -> Seq<char> {
    if p.len() > 0 && p[0] == sep_char(windows) {
        dir + p
    } else {
        dir + seq![sep_char(windows)] + p
    }
}

/// Joins the current directory and the normalized path argument.
pub fn join_path(dir: &String, p: &String, windows: bool) -> (r: String)
    ensures
        r@ == joined(dir@, p@, windows),
{
    let sep = if windows {
        '\\'
    } else {
        '/'
    };
    let ps = p.as_str();
    let starts_with_sep = ps.unicode_len() > 0 && ps.get_char(0) == sep;
    let mut out = dir.clone();
    if !starts_with_sep {
        push_char(&mut out, sep);
        proof {
            assert(dir@.push(sep_char(windows)) =~= dir@ + seq![sep_char(windows)]);
        }
    }
    out.append(ps);
    proof {
        if !(p@.len() > 0 && p@[0] == sep_char(windows)) {
            assert((dir@ + seq![sep_char(windows)]) + p@ =~= dir@ + seq![sep_char(windows)] + p@);
        }
    }
    out
}

/// Whether the string holds any whitespace character.
pub open spec fn has_whitespace(s: Seq<char>) -> bool {
    exists|i: int| 0 <= i < s.len() && is_space_char(#[trigger] s[i])
}

/// A string with whitespace in it is wrapped in one pair of double
/// quotes; any other string is kept as it is.
pub open spec fn quoted(s: Seq<char>) -> Seq<char> {
    if has_whitespace(s) {
        seq!['"'] + s + seq!['"']
    } else {
        s
    }
}

/// A string without whitespace is returned unchanged by the quoting
/// rule.
pub proof fn lemma_no_whitespace_unquoted(s: Seq<char>)
    requires
        !has_whitespace(s),
    ensures
        quoted(s) == s,
{
}

/// Wraps the string in double quotes when it holds whitespace.
pub fn quote_if_spaced(s: String) -> (r: String)
    ensures
        r@ == quoted(s@),
{
    let st = s.as_str();
    let n = st.unicode_len();
    let mut spaced = false;
    let mut i: usize = 0;
    while i < n
        invariant
            i <= n,
            n == s@.len(),
            st@ == s@,
            spaced == exists|j: int| 0 <= j < i && is_space_char(#[trigger] s@[j]),
        decreases n - i,
    {
        if is_space(st.get_char(i)) {
            spaced = true;
            proof {
                assert(is_space_char(s@[i as int]));
            }
        }
        i = i + 1;
    }
    if spaced {
        let mut out = String::new();
        push_char(&mut out, '"');
        out.append(s.as_str());
        push_char(&mut out, '"');
        proof {
            assert(out@ =~= seq!['"'] + s@ + seq!['"']);
        }
        out
    } else {
        s
    }
}

/// The resolved path for a token sequence: the path argument, if one
/// exists, normalized, joined onto the current directory, and quoted
/// when the result holds whitespace.
pub open spec fn resolved_path(args: Seq<String>, dir: Seq<char>, windows: bool) -> Option<
    Seq<char>,
> {
    match last_plain_token(args) {
        None => None,
        Some(p) => Some(quoted(joined(dir, normalized(p, windows), windows))),
    }
}

/// Resolves the path argument among the raw tokens against the current
/// directory; `None` when every token is dash-prefixed or there are no
/// tokens.
pub fn resolve(args: &Vec<String>, current_dir: &String, windows: bool) -> (r: Option<String>)
    ensures
        view_opt(r) == resolved_path(args@, current_dir@, windows),
{
    match find_path_argument(args) {
        None => None,
        Some(p) => {
            let normalized_arg = normalize_separators(&p, windows);
            let joined_path = join_path(current_dir, &normalized_arg, windows);
            Some(quote_if_spaced(joined_path))
        },
    }
}

} // verus!

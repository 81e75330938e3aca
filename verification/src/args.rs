//! Interpretation of the raw command-line tokens: the four recognised
//! flags, and the trailing path argument (the last token that does not
//! begin with a dash).

use vstd::prelude::*;

verus! {

/// A token counts as flag-like when its first character is a dash.
pub open spec fn is_dash_token(s: Seq<char>) -> bool {
    s.len() > 0 && s[0] == '-'
}

/// Some token in `args` reads exactly `tok`.
pub open spec fn has_token(args: Seq<String>, tok: Seq<char>) -> bool {
    exists|i: int| 0 <= i < args.len() && args[i]@ == tok
}

/// The help flag is requested: `-h` or `--help` occurs anywhere.
pub open spec fn help_requested(args: Seq<String>) -> bool {
    has_token(args, "-h"@) || has_token(args, "--help"@)
}

/// The flags recognised on the command line. Each is presence-only:
/// repeating one has no further effect.
pub struct Flags {
    /// `-x`: drop loopback addresses from interface listings.
    pub filter_loopback: bool,
    /// `-4`: list the IPv4 interface addresses.
    pub show_ipv4: bool,
    /// `-6`: list the IPv6 interface addresses.
    pub show_ipv6: bool,
    /// `-h` or `--help`: print the usage text and do nothing else.
    pub help: bool,
}

/// Scans the tokens for the exact flag strings; unrecognised tokens are
/// ignored, and a flag given several times counts once.
pub fn parse_flags(args: &Vec<String>) -> (r: Flags)
    ensures
        r.filter_loopback == has_token(args@, "-x"@),
        r.show_ipv4 == has_token(args@, "-4"@),
        r.show_ipv6 == has_token(args@, "-6"@),
        r.help == help_requested(args@),
{
    let tok_x = String::from_str("-x");
    let tok_4 = String::from_str("-4");
    let tok_6 = String::from_str("-6");
    let tok_h = String::from_str("-h");
    let tok_help = String::from_str("--help");
    let mut filter_loopback = false;
    let mut show_ipv4 = false;
    let mut show_ipv6 = false;
    let mut help = false;
    let mut i: usize = 0;
    while i < args.len()
        invariant
            i <= args.len(),
            tok_x@ == "-x"@,
            tok_4@ == "-4"@,
            tok_6@ == "-6"@,
            tok_h@ == "-h"@,
            tok_help@ == "--help"@,
            filter_loopback == has_token(args@.take(i as int), "-x"@),
            show_ipv4 == has_token(args@.take(i as int), "-4"@),
            show_ipv6 == has_token(args@.take(i as int), "-6"@),
            help == help_requested(args@.take(i as int)),
        decreases args.len() - i,
    {
        let tok = &args[i];
        if tok.eq(&tok_x) {
            filter_loopback = true;
        }
        if tok.eq(&tok_4) {
            show_ipv4 = true;
        }
        if tok.eq(&tok_6) {
            show_ipv6 = true;
        }
        if tok.eq(&tok_h) || tok.eq(&tok_help) {
            help = true;
        }
        proof {
            let pre = args@.take(i as int);
            let post = args@.take(i as int + 1);
            assert(post.len() == i + 1);
            assert forall|t: Seq<char>| #[trigger] has_token(pre, t) implies has_token(
                post,
                t,
            ) by {
                let j = choose|j: int| 0 <= j < pre.len() && pre[j]@ == t;
                assert(post[j]@ == t);
            }
            assert forall|t: Seq<char>|
                #[trigger] has_token(post, t) && args@[i as int]@ != t implies has_token(
                pre,
                t,
            ) by {
                let j = choose|j: int| 0 <= j < post.len() && post[j]@ == t;
                if j == i as int {
                    assert(post[j] == args@[i as int]);
                } else {
                    assert(pre[j]@ == t);
                }
            }
            if args@[i as int]@ == "-x"@ {
                assert(post[i as int]@ == "-x"@);
                assert(has_token(post, "-x"@));
            }
            if args@[i as int]@ == "-4"@ {
                assert(post[i as int]@ == "-4"@);
                assert(has_token(post, "-4"@));
            }
            if args@[i as int]@ == "-6"@ {
                assert(post[i as int]@ == "-6"@);
                assert(has_token(post, "-6"@));
            }
            if args@[i as int]@ == "-h"@ {
                assert(post[i as int]@ == "-h"@);
                assert(has_token(post, "-h"@));
            }
            if args@[i as int]@ == "--help"@ {
                assert(post[i as int]@ == "--help"@);
                assert(has_token(post, "--help"@));
            }
        }
        i = i + 1;
    }
    proof {
        assert(args@.take(args@.len() as int) =~= args@);
    }
    Flags { filter_loopback, show_ipv4, show_ipv6, help }
}

/// The path argument: the last token, scanning from the end, that does
/// not begin with a dash; absent when every token is dash-prefixed or
/// the sequence is empty.
pub open spec fn last_plain_token(args: Seq<String>) -> Option<Seq<char>>
    decreases args.len(),
{
    if args.len() == 0 {
        None
    } else if !is_dash_token(args.last()@) {
        Some(args.last()@)
    } else {
        last_plain_token(args.drop_last())
    }
}

/// The view of an optional string.
pub open spec fn view_opt(o: Option<String>) -> Option<Seq<char>> {
    match o {
        Option::None => None,
        Option::Some(s) => Some(s@),
    }
}

/// Decides whether the token begins with a dash.
pub fn starts_with_dash(s: &String) -> (r: bool)
    ensures
        r == is_dash_token(s@),
{
    let st = s.as_str();
    if st.unicode_len() == 0 {
        false
    } else {
        st.get_char(0) == '-'
    }
}

/// Finds the path argument among the tokens, if any.
pub fn find_path_argument(args: &Vec<String>) -> (r: Option<String>)
    ensures
        view_opt(r) == last_plain_token(args@),
{
    let mut i: usize = args.len();
    proof {
        assert(args@.take(args@.len() as int) =~= args@);
    }
    while i > 0
        invariant
            i <= args.len(),
            last_plain_token(args@) == last_plain_token(args@.take(i as int)),
        decreases i,
    {
        let tok = &args[i - 1];
        proof {
            assert(args@.take(i as int).last() == args@[i as int - 1]);
            assert(args@.take(i as int).drop_last() =~= args@.take(i as int - 1));
        }
        if !starts_with_dash(tok) {
            return Some(tok.clone());
        }
        i = i - 1;
    }
    proof {
        assert(args@.take(0) =~= Seq::<String>::empty());
    }
    None
}

/// Whenever some token is not dash-prefixed, the path argument is
/// present, and it is the last such token: every later token is
/// dash-prefixed.
pub proof fn lemma_path_argument_is_last_plain(args: Seq<String>, k: int)
    requires
        0 <= k < args.len(),
        !is_dash_token(args[k]@),
        forall|j: int| k < j < args.len() ==> #[trigger] is_dash_token(args[j]@),
    ensures
        last_plain_token(args) == Some(args[k]@),
    decreases args.len(),
{
    if k == args.len() - 1 {
        assert(args.last() == args[k]);
    } else {
        assert(is_dash_token(args.last()@));
        let rest = args.drop_last();
        assert(rest[k] == args[k]);
        assert forall|j: int| k < j < rest.len() implies #[trigger] is_dash_token(rest[j]@) by {
            assert(rest[j] == args[j]);
            assert(is_dash_token(args[j]@));
        }
        lemma_path_argument_is_last_plain(rest, k);
    }
}

/// When every token is dash-prefixed, or there are no tokens at all,
/// there is no path argument.
pub proof fn lemma_no_plain_token_no_path(args: Seq<String>)
    requires
        forall|j: int| 0 <= j < args.len() ==> #[trigger] is_dash_token(args[j]@),
    ensures
        last_plain_token(args) is None,
    decreases args.len(),
{
    if args.len() > 0 {
        assert(is_dash_token(args.last()@));
        let rest = args.drop_last();
        assert forall|j: int| 0 <= j < rest.len() implies #[trigger] is_dash_token(rest[j]@) by {
            assert(rest[j] == args[j]);
            assert(is_dash_token(args[j]@));
        }
        lemma_no_plain_token_no_path(rest);
    }
}

} // verus!

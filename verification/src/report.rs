//! Assembly of everything the program prints: the `host:path` line
//! shape, the per-family interface report, the fixed usage text, and
//! the full ordered list of output lines for one run.

use vstd::prelude::*;

use crate::args::{has_token, help_requested, view_opt, parse_flags};
use crate::ifaces::{
    IfaceRecord, IpFamily, EnumError, selected, record_passes, lemma_selected_push,
};
use crate::path::{resolved_path, resolve};
use crate::text::push_char;

verus! {

/// One printed line: the address (or host) part, a colon, the path
/// (or directory) part.
pub open spec fn line_of(addr: Seq<char>, path: Seq<char>) -> Seq<char> {
    addr + seq![':'] + path
}

/// Renders `addr:path`.
pub fn format_line(addr: &String, path: &String) -> (r: String)
    ensures
        r@ == line_of(addr@, path@),
{
    let mut out = addr.clone();
    push_char(&mut out, ':');
    out.append(path.as_str());
    proof {
        assert(addr@.push(':') + path@ =~= addr@ + seq![':'] + path@);
    }
    out
}

/// The path text an interface line carries: the resolved path when one
/// exists, else the literal `.`.
pub open spec fn shown_path(resolved: Option<Seq<char>>) -> Seq<char> {
    match resolved {
        Some(p) => p,
        None => "."@,
    }
}

/// Returns the resolved path, or `.` when there is none.
pub fn display_path(resolved: &Option<String>) -> (r: String)
    ensures
        r@ == shown_path(view_opt(*resolved)),
{
    match resolved {
        Some(p) => p.clone(),
        None => String::from_str("."),
    }
}

/// Collapses an optional value to the fallback text `unknown`, the
/// degrade-gracefully rule shared by the directory and hostname
/// lookups.
pub fn unwrap_or_unknown(value: Option<String>) -> (r: String)
    ensures
        r@ == (match value {
            Some(s) => s@,
            None => "unknown"@,
        }),
{
    match value {
        Some(s) => s,
        None => String::from_str("unknown"),
    }
}

/// The report for a sequence of records: one `addr:path` line per
/// record, in the order the records stand.
pub open spec fn report_of(rs: Seq<IfaceRecord>, path: Seq<char>) -> Seq<Seq<char>>
    decreases rs.len(),
{
    if rs.len() == 0 {
        Seq::empty()
    } else {
        report_of(rs.drop_last(), path).push(line_of(rs.last().addr@, path))
    }
}

/// The lines printed for one address family: none at all on an
/// enumeration failure, else one line per surviving record.
pub open spec fn family_report(
    interfaces: Result<Seq<IfaceRecord>, EnumError>,
    family: IpFamily,
    filter_loopback: bool,
    path: Seq<char>,
) -> Seq<Seq<char>> {
    match interfaces {
        Err(_) => Seq::empty(),
        Ok(rs) => report_of(selected(rs, family, filter_loopback), path),
    }
}

/// An enumeration failure yields zero lines for the family, whatever
/// the flags say.
pub proof fn lemma_enumeration_failure_zero_lines(
    e: EnumError,
    family: IpFamily,
    filter_loopback: bool,
    path: Seq<char>,
)
    ensures
        family_report(Err(e), family, filter_loopback, path) == Seq::<Seq<char>>::empty(),
{
}

/// The view of an interface enumeration result.
pub open spec fn view_ifaces(r: Result<Vec<IfaceRecord>, EnumError>) -> Result<
    Seq<IfaceRecord>,
    EnumError,
> {
    match r {
        Ok(v) => Ok(v@),
        Err(e) => Err(e),
    }
}

/// Builds the lines for one address family from the enumeration
/// result: nothing on failure, else the filtered records' lines in
/// arrival order.
pub fn family_report_lines(
    interfaces: &Result<Vec<IfaceRecord>, EnumError>,
    family: IpFamily,
    filter_loopback: bool,
    path: &String,
) -> (r: Vec<String>)
    ensures
        r.deep_view() == family_report(view_ifaces(*interfaces), family, filter_loopback, path@),
{
    match interfaces {
        Err(_) => {
            let out: Vec<String> = Vec::new();
            proof {
                assert(out.deep_view() =~= Seq::<Seq<char>>::empty());
            }
            out
        },
        Ok(recs) => {
            let mut out: Vec<String> = Vec::new();
            let mut i: usize = 0;
            proof {
                assert(recs@.take(0) =~= Seq::<IfaceRecord>::empty());
            }
            while i < recs.len()
                invariant
                    i <= recs.len(),
                    out.deep_view() == report_of(
                        selected(recs@.take(i as int), family, filter_loopback),
                        path@,
                    ),
                decreases recs.len() - i,
            {
                let ghost pre = out.deep_view();
                let ghost sel_pre = selected(recs@.take(i as int), family, filter_loopback);
                proof {
                    assert(recs@.take(i as int + 1) =~= recs@.take(i as int).push(
                        recs@[i as int],
                    ));
                    lemma_selected_push(
                        recs@.take(i as int),
                        recs@[i as int],
                        family,
                        filter_loopback,
                    );
                }
                if record_passes(&recs[i], family, filter_loopback) {
                    let line = format_line(&recs[i].addr, path);
                    let ghost lv = line@;
                    out.push(line);
                    proof {
                        assert(out.deep_view() =~= pre.push(lv));
                        assert(sel_pre + seq![recs@[i as int]] =~= sel_pre.push(recs@[i as int]));
                        assert(sel_pre.push(recs@[i as int]).drop_last() =~= sel_pre);
                        assert(report_of(
                            selected(recs@.take(i as int + 1), family, filter_loopback),
                            path@,
                        ) == pre.push(lv));
                    }
                } else {
                    proof {
                        assert(sel_pre + Seq::<IfaceRecord>::empty() =~= sel_pre);
                    }
                }
                i = i + 1;
            }
            proof {
                assert(recs@.take(recs@.len() as int) =~= recs@);
            }
            out
        },
    }
}

/// The fixed usage text, one line per entry.
pub open spec fn usage_text() -> Seq<Seq<char>> {
    seq![
        "Usage: printscp [options] [file_path]"@,
        "Options:"@,
        "  -x  Filter out loopback addresses."@,
        "  -4  Print all ipv4 addresses."@,
        "  -6  Print all ipv6 addresses."@,
        "  -h  --help Print this help."@,
    ]
}

/// Builds the usage text.
pub fn usage_lines() -> (r: Vec<String>)
    ensures
        r.deep_view() == usage_text(),
{
    let mut out: Vec<String> = Vec::new();
    out.push(String::from_str("Usage: printscp [options] [file_path]"));
    out.push(String::from_str("Options:"));
    out.push(String::from_str("  -x  Filter out loopback addresses."));
    out.push(String::from_str("  -4  Print all ipv4 addresses."));
    out.push(String::from_str("  -6  Print all ipv6 addresses."));
    out.push(String::from_str("  -h  --help Print this help."));
    proof {
        assert(out.deep_view() =~= usage_text());
    }
    out
}

/// Everything one run prints, in order. With the help flag the usage
/// text stands alone. Otherwise the `host:dir` header comes first;
/// then, per requested family, the interface report; and when neither
/// family was requested, the primary-address line — suffixed with the
/// current directory, not the resolved path — if a primary address
/// could be found.
pub open spec fn output(
    args: Seq<String>,
    dir: Seq<char>,
    host: Seq<char>,
    windows: bool,
    interfaces: Result<Seq<IfaceRecord>, EnumError>,
    primary: Option<Seq<char>>,
) -> Seq<Seq<char>> {
    if help_requested(args) {
        usage_text()
    } else {
        let path = shown_path(resolved_path(args, dir, windows));
        let show4 = has_token(args, "-4"@);
        let show6 = has_token(args, "-6"@);
        let fl = has_token(args, "-x"@);
        let head = seq![line_of(host, dir)];
        let r4 = if show4 {
            family_report(interfaces, IpFamily::V4, fl, path)
        } else {
            Seq::<Seq<char>>::empty()
        };
        let r6 = if show6 {
            family_report(interfaces, IpFamily::V6, fl, path)
        } else {
            Seq::<Seq<char>>::empty()
        };
        let prim = if !show4 && !show6 {
            match primary {
                Some(p) => seq![line_of(p, dir)],
                None => Seq::<Seq<char>>::empty(),
            }
        } else {
            Seq::<Seq<char>>::empty()
        };
        head + r4 + r6 + prim
    }
}

/// Builds every line one run prints, in order.
pub fn output_lines(
    args: &Vec<String>,
    current_dir: &String,
    hostname: &String,
    windows: bool,
    interfaces: &Result<Vec<IfaceRecord>, EnumError>,
    primary: &Option<String>,
) -> (r: Vec<String>)
    ensures
        r.deep_view() == output(
            args@,
            current_dir@,
            hostname@,
            windows,
            view_ifaces(*interfaces),
            view_opt(*primary),
        ),
{
    let flags = parse_flags(args);
    if flags.help {
        return usage_lines();
    }
    let resolved = resolve(args, current_dir, windows);
    let path = display_path(&resolved);
    let mut out: Vec<String> = Vec::new();
    out.push(format_line(hostname, current_dir));
    let ghost head = seq![line_of(hostname@, current_dir@)];
    proof {
        assert(out.deep_view() =~= head);
    }
    let ghost r4 = if flags.show_ipv4 {
        family_report(
            view_ifaces(*interfaces),
            IpFamily::V4,
            flags.filter_loopback,
            shown_path(resolved_path(args@, current_dir@, windows)),
        )
    } else {
        Seq::<Seq<char>>::empty()
    };
    if flags.show_ipv4 {
        let lines4 = family_report_lines(interfaces, IpFamily::V4, flags.filter_loopback, &path);
        let ghost pre = out.deep_view();
        let ghost l4 = lines4.deep_view();
        append_lines(&mut out, lines4);
        proof {
            assert(out.deep_view() == pre + l4);
        }
    } else {
        proof {
            assert(out.deep_view() + r4 =~= out.deep_view());
        }
    }
    proof {
        assert(out.deep_view() == head + r4);
    }
    let ghost r6 = if flags.show_ipv6 {
        family_report(
            view_ifaces(*interfaces),
            IpFamily::V6,
            flags.filter_loopback,
            shown_path(resolved_path(args@, current_dir@, windows)),
        )
    } else {
        Seq::<Seq<char>>::empty()
    };
    if flags.show_ipv6 {
        let lines6 = family_report_lines(interfaces, IpFamily::V6, flags.filter_loopback, &path);
        let ghost pre = out.deep_view();
        let ghost l6 = lines6.deep_view();
        append_lines(&mut out, lines6);
        proof {
            assert(out.deep_view() == pre + l6);
        }
    } else {
        proof {
            assert((head + r4) + r6 =~= head + r4);
        }
    }
    proof {
        assert(out.deep_view() == (head + r4) + r6);
    }
    let ghost prim = if !flags.show_ipv4 && !flags.show_ipv6 {
        match view_opt(*primary) {
            Some(p) => seq![line_of(p, current_dir@)],
            None => Seq::<Seq<char>>::empty(),
        }
    } else {
        Seq::<Seq<char>>::empty()
    };
    if !flags.show_ipv4 && !flags.show_ipv6 {
        match primary {
            Some(p) => {
                let ghost pre = out.deep_view();
                let line = format_line(p, current_dir);
                let ghost lv = line@;
                out.push(line);
                proof {
                    assert(out.deep_view() =~= pre.push(lv));
                    assert(pre.push(lv) =~= pre + prim);
                }
            },
            None => {
                proof {
                    assert(((head + r4) + r6) + prim =~= (head + r4) + r6);
                }
            },
        }
    } else {
        proof {
            assert(((head + r4) + r6) + prim =~= (head + r4) + r6);
        }
    }
    proof {
        assert(out.deep_view() == ((head + r4) + r6) + prim);
        assert(((head + r4) + r6) + prim =~= head + r4 + r6 + prim);
    }
    out
}

/// Moves every line of `tail` onto the end of `lines`, in order.
fn append_lines(lines: &mut Vec<String>, tail: Vec<String>)
    ensures
        final(lines).deep_view() == old(lines).deep_view() + tail.deep_view(),
{
    let mut rest = tail;
    let ghost tv = rest.deep_view();
    let ghost mut taken: int = 0;
    proof {
        assert(lines.deep_view() + tv.take(0) =~= lines.deep_view());
        assert(rest.deep_view() =~= tv.skip(0));
    }
    while rest.len() > 0
        invariant
            0 <= taken <= tv.len(),
            rest.deep_view() == tv.skip(taken),
            lines.deep_view() == old(lines).deep_view() + tv.take(taken),
        decreases rest.len(),
    {
        let ghost pre = lines.deep_view();
        let ghost rv = rest.deep_view();
        let x = rest.remove(0);
        let ghost xv = x@;
        lines.push(x);
        proof {
            assert(rv[0] == xv);
            assert(rest.deep_view() =~= rv.skip(1));
            assert(rv.skip(1) =~= tv.skip(taken + 1));
            assert(lines.deep_view() =~= pre.push(xv));
            assert(xv == tv[taken]);
            assert(pre.push(xv) =~= old(lines).deep_view() + tv.take(taken + 1));
            taken = taken + 1;
        }
    }
    proof {
        assert(rest.deep_view() =~= Seq::<Seq<char>>::empty());
        assert(taken == tv.len());
        assert(tv.take(taken) =~= tv);
    }
}

/// Without the help flag, the `host:dir` header is printed
/// unconditionally as the first line, whatever the other flags, the
/// interface records or the primary address say.
pub proof fn lemma_header_always_first(
    args: Seq<String>,
    dir: Seq<char>,
    host: Seq<char>,
    windows: bool,
    interfaces: Result<Seq<IfaceRecord>, EnumError>,
    primary: Option<Seq<char>>,
)
    requires
        !help_requested(args),
    ensures
        output(args, dir, host, windows, interfaces, primary).len() >= 1,
        output(args, dir, host, windows, interfaces, primary)[0] == line_of(host, dir),
{
}

/// With the help flag present anywhere among the tokens, the output is
/// the fixed usage text and nothing else, whatever the other tokens,
/// the interface records or the primary address say.
pub proof fn lemma_help_prints_usage_only(
    args: Seq<String>,
    dir: Seq<char>,
    host: Seq<char>,
    windows: bool,
    interfaces: Result<Seq<IfaceRecord>, EnumError>,
    primary: Option<Seq<char>>,
)
    requires
        help_requested(args),
    ensures
        output(args, dir, host, windows, interfaces, primary) == usage_text(),
{
}

/// When neither `-4` nor `-6` is requested (and help is not), the
/// output is the header plus exactly one interface-derived line — the
/// primary-address line, suffixed with the current directory, not the
/// resolved path — or the header alone when no primary address was
/// found.
pub proof fn lemma_default_run_prints_primary(
    args: Seq<String>,
    dir: Seq<char>,
    host: Seq<char>,
    windows: bool,
    interfaces: Result<Seq<IfaceRecord>, EnumError>,
    primary: Option<Seq<char>>,
)
    requires
        !help_requested(args),
        !has_token(args, "-4"@),
        !has_token(args, "-6"@),
    ensures
        primary matches Some(p) ==> output(args, dir, host, windows, interfaces, primary) =~= seq![
            line_of(host, dir),
            line_of(p, dir),
        ],
        primary is None ==> output(args, dir, host, windows, interfaces, primary) =~= seq![
            line_of(host, dir),
        ],
{
}

/// An enumeration failure leaves the header line untouched and
/// contributes no interface line to either family's report: the
/// output is the header, followed only by the primary-address line
/// when no family was requested.
pub proof fn lemma_enumeration_failure_output(
    args: Seq<String>,
    dir: Seq<char>,
    host: Seq<char>,
    windows: bool,
    e: EnumError,
    primary: Option<Seq<char>>,
)
    requires
        !help_requested(args),
    ensures
        output(args, dir, host, windows, Err(e), primary)[0] == line_of(host, dir),
        (has_token(args, "-4"@) || has_token(args, "-6"@)) ==> output(
            args,
            dir,
            host,
            windows,
            Err(e),
            primary,
        ) =~= seq![line_of(host, dir)],
{
}

} // verus!

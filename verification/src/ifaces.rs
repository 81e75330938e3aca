//! The interface selector: filters the interface records the
//! operating system reported by address family and, on request, by
//! loopback status. The filter is stable — survivors keep the order in
//! which they arrived — and an enumeration failure is propagated
//! untouched.

use vstd::prelude::*;

verus! {

/// The address family an interface address belongs to.
#[derive(Clone, Copy, PartialEq, Eq, Structural, Debug)]
pub enum IpFamily {
    V4,
    V6,
}

/// One interface record as the operating-system collaborator reports
/// it: an interface name, one of its addresses already rendered as
/// text, and that address's classification.
pub struct IfaceRecord {
    /// The interface's name, e.g. `eth0`.
    pub name: String,
    /// The address, rendered as text.
    pub addr: String,
    /// The family of the address.
    pub family: IpFamily,
    /// Whether the address is a loopback address.
    pub is_loopback: bool,
}

/// The collaborator failed to enumerate the interfaces; no detail is
/// carried, since the caller's only reaction is to print nothing.
#[derive(Clone, Copy, PartialEq, Eq, Structural, Debug)]
pub struct EnumError;

/// Whether a record survives the filter: its family matches, and a
/// loopback record is dropped when loopback filtering is on.
pub open spec fn keeps_record(r: IfaceRecord, family: IpFamily, filter_loopback: bool) -> bool {
    r.family == family && !(filter_loopback && r.is_loopback)
}

/// The surviving records, in the order they arrived.
pub open spec fn selected(rs: Seq<IfaceRecord>, family: IpFamily, filter_loopback: bool) -> Seq<
    IfaceRecord,
>
    decreases rs.len(),
{
    if rs.len() == 0 {
        Seq::empty()
    } else if keeps_record(rs.first(), family, filter_loopback) {
        seq![rs.first()] + selected(rs.drop_first(), family, filter_loopback)
    } else {
        selected(rs.drop_first(), family, filter_loopback)
    }
}

/// Appending a record at the end extends the selection by that record
/// exactly when it passes the filter.
pub proof fn lemma_selected_push(
    rs: Seq<IfaceRecord>,
    x: IfaceRecord,
    family: IpFamily,
    filter_loopback: bool,
)
    ensures
        selected(rs.push(x), family, filter_loopback) == selected(rs, family, filter_loopback) + (
        if keeps_record(x, family, filter_loopback) {
            seq![x]
        } else {
            Seq::<IfaceRecord>::empty()
        }),
    decreases rs.len(),
{
    let tail = if keeps_record(x, family, filter_loopback) {
        seq![x]
    } else {
        Seq::<IfaceRecord>::empty()
    };
    if rs.len() == 0 {
        assert(rs.push(x).drop_first() =~= Seq::<IfaceRecord>::empty());
        assert(rs.push(x).first() == x);
        assert(selected(Seq::<IfaceRecord>::empty(), family, filter_loopback)
            == Seq::<IfaceRecord>::empty());
        assert(rs =~= Seq::<IfaceRecord>::empty());
        assert(selected(rs.push(x), family, filter_loopback) =~= selected(
            rs,
            family,
            filter_loopback,
        ) + tail);
    } else {
        assert(rs.push(x).first() == rs.first());
        assert(rs.push(x).drop_first() =~= rs.drop_first().push(x));
        lemma_selected_push(rs.drop_first(), x, family, filter_loopback);
        if keeps_record(rs.first(), family, filter_loopback) {
            assert(seq![rs.first()] + (selected(rs.drop_first(), family, filter_loopback) + tail)
                =~= (seq![rs.first()] + selected(rs.drop_first(), family, filter_loopback)) + tail);
        }
    }
}

/// Decides whether a record survives the filter.
pub fn record_passes(rec: &IfaceRecord, family: IpFamily, filter_loopback: bool) -> (r: bool)
    ensures
        r == keeps_record(*rec, family, filter_loopback),
{
    let matching_family = match (rec.family, family) {
        (IpFamily::V4, IpFamily::V4) => true,
        (IpFamily::V6, IpFamily::V6) => true,
        _ => false,
    };
    matching_family && !(filter_loopback && rec.is_loopback)
}

/// Filters the records to the requested family, dropping loopback
/// records when asked to; an enumeration failure is handed back as it
/// came, so that the caller prints nothing for this family.
pub fn select(
    interfaces: Result<Vec<IfaceRecord>, EnumError>,
    family: IpFamily,
    filter_loopback: bool,
) -> (r: Result<Vec<IfaceRecord>, EnumError>)
    ensures
        match interfaces {
            Err(e) => r == Result::<Vec<IfaceRecord>, EnumError>::Err(e),
            Ok(recs) => match r {
                Ok(out) => out@ == selected(recs@, family, filter_loopback),
                Err(_) => false,
            },
        },
{
    match interfaces {
        Err(e) => Err(e),
        Ok(mut v) => {
            let ghost orig = v@;
            let mut out: Vec<IfaceRecord> = Vec::new();
            proof {
                assert(out@ + selected(v@, family, filter_loopback) =~= selected(
                    orig,
                    family,
                    filter_loopback,
                ));
            }
            while v.len() > 0
                invariant
                    out@ + selected(v@, family, filter_loopback) == selected(
                        orig,
                        family,
                        filter_loopback,
                    ),
                decreases v.len(),
            {
                let ghost before = v@;
                let rec = v.remove(0);
                proof {
                    assert(before.remove(0) =~= before.drop_first());
                    assert(rec == before.first());
                }
                if record_passes(&rec, family, filter_loopback) {
                    proof {
                        assert(selected(before, family, filter_loopback) =~= seq![rec] + selected(
                            v@,
                            family,
                            filter_loopback,
                        ));
                        assert((out@ + seq![rec]) + selected(v@, family, filter_loopback) =~= out@
                            + (seq![rec] + selected(v@, family, filter_loopback)));
                        assert(out@.push(rec) =~= out@ + seq![rec]);
                    }
                    out.push(rec);
                } else {
                    proof {
                        assert(selected(before, family, filter_loopback) == selected(
                            v@,
                            family,
                            filter_loopback,
                        ));
                    }
                }
            }
            proof {
                assert(selected(v@, family, filter_loopback) =~= Seq::<IfaceRecord>::empty());
                assert(out@ + selected(v@, family, filter_loopback) =~= out@);
            }
            Ok(out)
        },
    }
}

} // verus!

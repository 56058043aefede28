//! Rendering of one cycle's report: a throughput section with one block
//! per interface, and an address section listing each interface's IP
//! addresses — the latter omitted when address enumeration failed.

use crate::format::{format_bytes, format_hms, spec_format_bytes, spec_hms};
use crate::store::{views_of, IfaceCounters};
use vstd::prelude::*;

verus! {

/// One interface's name together with one of its assigned IP addresses, in
/// textual form, as enumerated by the operating system.
pub struct AddrBinding {
    /// Interface name.
    pub name: String,
    /// One IP address bound to the interface.
    pub addr: String,
}

impl View for AddrBinding {
    type V = (Seq<char>, Seq<char>);

    open spec fn view(&self) -> (Seq<char>, Seq<char>) {
        (self.name@, self.addr@)
    }
}

/// The views of an address-binding list, in list order.
pub open spec fn addr_views_of(s: Seq<AddrBinding>) -> Seq<(Seq<char>, Seq<char>)> {
    s.map_values(|a: AddrBinding| a@)
}

/// The views of the address-binding list of a cycle, `None` when address
/// enumeration failed that cycle.
pub open spec fn opt_addr_views(addrs: Option<Vec<AddrBinding>>) -> Option<
    Seq<(Seq<char>, Seq<char>)>,
> {
    match addrs {
        Some(a) => Some(addr_views_of(a@)),
        None => None,
    }
}

/// One interface block of the throughput section.
pub open spec fn spec_iface_block(d: (Seq<char>, u64, u64)) -> Seq<char> {
    "\nInterface: "@ + d.0 + "\n  Received:  "@ + spec_format_bytes(d.1) + "/s\n  Transmitted: "@
        + spec_format_bytes(d.2) + "/s\n"@
}

/// The throughput blocks of a whole delta mapping, in sample order.
pub open spec fn spec_iface_blocks(ds: Seq<(Seq<char>, u64, u64)>) -> Seq<char>
    decreases ds.len(),
{
    if ds.len() == 0 {
        Seq::empty()
    } else {
        spec_iface_blocks(ds.drop_last()) + spec_iface_block(ds.last())
    }
}

/// One block of the address section.
pub open spec fn spec_addr_block(a: (Seq<char>, Seq<char>)) -> Seq<char> {
    "\nInterface: "@ + a.0 + "\n  IP Address: "@ + a.1 + "\n"@
}

/// The blocks of the address section, in enumeration order.
pub open spec fn spec_addr_blocks(addrs: Seq<(Seq<char>, Seq<char>)>) -> Seq<char>
    decreases addrs.len(),
{
    if addrs.len() == 0 {
        Seq::empty()
    } else {
        spec_addr_blocks(addrs.drop_last()) + spec_addr_block(addrs.last())
    }
}

/// The whole plain report of one cycle: header with the wall-clock time,
/// throughput blocks, and — when address enumeration succeeded — the
/// address section.
pub open spec fn spec_report(
    ds: Seq<(Seq<char>, u64, u64)>,
    addrs: Option<Seq<(Seq<char>, Seq<char>)>>,
    h: u8,
    m: u8,
    s: u8,
) -> Seq<char> {
    "=== Network Interfaces ===\nUpdated at: "@ + spec_hms(h, m, s) + "\n"@ + spec_iface_blocks(ds)
        + match addrs {
        Some(a) => "\n=== Interface Details ===\n"@ + spec_addr_blocks(a),
        None => Seq::empty(),
    }
}

pub(crate) proof fn lemma_iface_blocks_step(ds: Seq<(Seq<char>, u64, u64)>, i: int)
    requires
        0 <= i < ds.len(),
    ensures
        spec_iface_blocks(ds.take(i + 1)) == spec_iface_blocks(ds.take(i)) + spec_iface_block(
            ds[i],
        ),
{
    assert(ds.take(i + 1).drop_last() =~= ds.take(i));
    assert(ds.take(i + 1).last() == ds[i]);
}

pub(crate) proof fn lemma_addr_blocks_step(addrs: Seq<(Seq<char>, Seq<char>)>, i: int)
    requires
        0 <= i < addrs.len(),
    ensures
        spec_addr_blocks(addrs.take(i + 1)) == spec_addr_blocks(addrs.take(i)) + spec_addr_block(
            addrs[i],
        ),
{
    assert(addrs.take(i + 1).drop_last() =~= addrs.take(i));
    assert(addrs.take(i + 1).last() == addrs[i]);
}

/// Render one cycle's report as plain text, exactly as [`spec_report`]
/// states it.
pub fn render_report(
    deltas: &Vec<IfaceCounters>,
    addrs: &Option<Vec<AddrBinding>>,
    h: u8,
    m: u8,
    s: u8,
) -> (r: String)
    requires
        h < 24,
        m < 60,
        s < 60,
    ensures
        r@ == spec_report(views_of(deltas@), opt_addr_views(*addrs), h, m, s),
{
    let ghost dv = views_of(deltas@);
    let mut out = String::new();
    out.append("=== Network Interfaces ===\nUpdated at: ");
    let t = format_hms(h, m, s);
    out.append(t.as_str());
    out.append("\n");
    let ghost head = out@;
    proof {
        assert(dv.take(0) =~= Seq::<(Seq<char>, u64, u64)>::empty());
    }
    let mut i: usize = 0;
    while i < deltas.len()
        invariant
            i <= deltas@.len(),
            dv == views_of(deltas@),
            out@ == head + spec_iface_blocks(dv.take(i as int)),
        decreases deltas@.len() - i,
    {
        let d = &deltas[i];
        out.append("\nInterface: ");
        out.append(d.name.as_str());
        out.append("\n  Received:  ");
        let rx = format_bytes(d.received);
        out.append(rx.as_str());
        out.append("/s\n  Transmitted: ");
        let tx = format_bytes(d.transmitted);
        out.append(tx.as_str());
        out.append("/s\n");
        proof {
            lemma_iface_blocks_step(dv, i as int);
            assert(out@ =~= head + spec_iface_blocks(dv.take(i + 1)));
        }
        i += 1;
    }
    proof {
        assert(dv.take(deltas@.len() as int) =~= dv);
    }
    match addrs {
        Some(list) => {
            let ghost av = addr_views_of(list@);
            out.append("\n=== Interface Details ===\n");
            let ghost mid = out@;
            proof {
                assert(av.take(0) =~= Seq::<(Seq<char>, Seq<char>)>::empty());
                assert(mid =~= mid + spec_addr_blocks(av.take(0)));
            }
            let mut k: usize = 0;
            while k < list.len()
                invariant
                    k <= list@.len(),
                    av == addr_views_of(list@),
                    out@ == mid + spec_addr_blocks(av.take(k as int)),
                decreases list@.len() - k,
            {
                let a = &list[k];
                out.append("\nInterface: ");
                out.append(a.name.as_str());
                out.append("\n  IP Address: ");
                out.append(a.addr.as_str());
                out.append("\n");
                proof {
                    lemma_addr_blocks_step(av, k as int);
                    assert(out@ =~= mid + spec_addr_blocks(av.take(k + 1)));
                }
                k += 1;
            }
            proof {
                assert(av.take(list@.len() as int) =~= av);
                assert(out@ =~= spec_report(views_of(deltas@), opt_addr_views(*addrs), h, m, s));
            }
        },
        None => {
            proof {
                assert(out@ =~= spec_report(views_of(deltas@), opt_addr_views(*addrs), h, m, s));
            }
        },
    }
    out
}

} // verus!

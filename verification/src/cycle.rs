//! The sampling cycle: one iteration of fetch-compute-render that makes up
//! the monitor's steady state, together with the terminal decoration and
//! the fixed messages of the monitor's lifecycle.
//!
//! The monitor starts by seeding a [`CounterStore`] from a first sample
//! (see [`CounterStore::initialize`]), waits one interval, and then repeats
//! one cycle per interval until the operator interrupts it. The caller
//! owns the loop, the waiting, the sampling of the operating system and
//! the terminal; each cycle's computation and rendering happen here,
//! against plain values.
//!
//! Colouring is an outside collaborator whose exact output depends on the
//! environment (whether a terminal is attached, colour overrides), so the
//! coloured functions cannot promise their text exactly. What holds of
//! every outcome — decoration inserts escape sequences, it never deletes
//! or alters the text — they do promise: the plain text is a subsequence
//! (see [`is_subseq`]) of the decorated result.

use crate::format::{format_bytes, format_hms, spec_format_bytes, spec_hms};
use crate::report::{
    addr_views_of, lemma_addr_blocks_step, lemma_iface_blocks_step, opt_addr_views, render_report,
    spec_addr_block, spec_addr_blocks, spec_iface_block, spec_iface_blocks, spec_report,
    AddrBinding,
};
use crate::store::{counters_map, names_unique, spec_deltas, views_of, CounterStore, IfaceCounters};
use crate::subseq::{is_subseq, lemma_subseq_concat, lemma_subseq_refl};
use chrono::Timelike;
use colored::Colorize;
use vstd::prelude::*;

verus! {

/// One cycle against plain inputs: compute each sampled interface's delta,
/// overwrite the stored counters with the sample, and render the plain
/// report for wall-clock time `h:m:s`. Passing `None` for `addrs` renders
/// the report without its address section, as after a failed address
/// enumeration.
pub fn run_cycle(
    store: &mut CounterStore,
    sample: &Vec<IfaceCounters>,
    addrs: &Option<Vec<AddrBinding>>,
    h: u8,
    m: u8,
    s: u8,
) -> (report: String)
    requires
        old(store).wf(),
        names_unique(views_of(sample@)),
        h < 24,
        m < 60,
        s < 60,
    ensures
        final(store).wf(),
        final(store)@ == old(store)@.union_prefer_right(counters_map(views_of(sample@))),
        report@ == spec_report(
            spec_deltas(old(store)@, views_of(sample@)),
            opt_addr_views(*addrs),
            h,
            m,
            s,
        ),
{
    let deltas = store.compute_delta_and_update(sample);
    render_report(&deltas, addrs, h, m, s)
}

/// Relies on chrono::Local::now and chrono::Timelike: the hour number is
/// 0 to 23, the minute and second numbers 0 to 59. Which time comes back
/// depends on the clock, so only those ranges are stated.
#[verifier::external_body]
fn local_hms() -> (t: (u8, u8, u8))
    ensures
        t.0 < 24,
        t.1 < 60,
        t.2 < 60,
{
    let now = chrono::Local::now();
    (now.hour() as u8, now.minute() as u8, now.second() as u8)
}

/// Relies on colored::Colorize::green and colored::Colorize::bold:
/// decorates a section heading for terminal display. Whether colour codes
/// are added depends on the environment; either the text comes back
/// verbatim, or a style prefix, a reset suffix and re-styling after any
/// embedded reset are inserted around and into it — insertions only, so
/// the input is a subsequence of the result.
#[verifier::external_body]
fn green_bold(s: &str) -> (r: String)
    ensures
        is_subseq(s@, r@),
{
    s.green().bold().to_string()
}

/// Relies on colored::Colorize::blue: decorates the time line. As with the
/// other decorations, colouring only inserts escape sequences, so the
/// input is a subsequence of the result.
#[verifier::external_body]
fn blue(s: &str) -> (r: String)
    ensures
        is_subseq(s@, r@),
{
    s.blue().to_string()
}

/// Relies on colored::Colorize::cyan: decorates an interface name line.
/// As with the other decorations, colouring only inserts escape sequences,
/// so the input is a subsequence of the result.
#[verifier::external_body]
fn cyan(s: &str) -> (r: String)
    ensures
        is_subseq(s@, r@),
{
    s.cyan().to_string()
}

/// Relies on colored::Colorize::yellow: decorates a value. As with the
/// other decorations, colouring only inserts escape sequences, so the
/// input is a subsequence of the result.
#[verifier::external_body]
fn yellow(s: &str) -> (r: String)
    ensures
        is_subseq(s@, r@),
{
    s.yellow().to_string()
}

/// Relies on colored::Colorize::red and colored::Colorize::bold: decorates
/// an error label. As with the other decorations, colouring only inserts
/// escape sequences, so the input is a subsequence of the result.
#[verifier::external_body]
fn red_bold(s: &str) -> (r: String)
    ensures
        is_subseq(s@, r@),
{
    s.red().bold().to_string()
}

fn format_bytes_colored(bytes: u64) -> (r: String)
    ensures
        is_subseq(spec_format_bytes(bytes), r@),
{
    let plain = format_bytes(bytes);
    yellow(plain.as_str())
}

/// Render one cycle's report with terminal colouring. The decoration may
/// insert escape sequences anywhere but deletes and alters nothing, so the
/// plain report of [`render_report`] is a subsequence of the result.
pub fn render_report_colored(
    deltas: &Vec<IfaceCounters>,
    addrs: &Option<Vec<AddrBinding>>,
    h: u8,
    m: u8,
    s: u8,
) -> (report: String)
    requires
        h < 24,
        m < 60,
        s < 60,
    ensures
        is_subseq(spec_report(views_of(deltas@), opt_addr_views(*addrs), h, m, s), report@),
{
    let ghost dv = views_of(deltas@);
    let mut out = String::new();
    let head = green_bold("=== Network Interfaces ===");
    out.append(head.as_str());
    out.append("\n");
    let mut time_line = String::new();
    time_line.append("Updated at: ");
    let t = format_hms(h, m, s);
    time_line.append(t.as_str());
    let time_colored = blue(time_line.as_str());
    out.append(time_colored.as_str());
    out.append("\n");
    let ghost spec_head = "=== Network Interfaces ===\nUpdated at: "@ + spec_hms(h, m, s) + "\n"@;
    proof {
        reveal_strlit("=== Network Interfaces ===\nUpdated at: ");
        reveal_strlit("=== Network Interfaces ===");
        reveal_strlit("Updated at: ");
        reveal_strlit("\n");
        lemma_subseq_refl("\n"@);
        lemma_subseq_concat("=== Network Interfaces ==="@, "\n"@, head@, "\n"@);
        lemma_subseq_concat(
            "=== Network Interfaces ==="@ + "\n"@,
            time_line@,
            head@ + "\n"@,
            time_colored@,
        );
        lemma_subseq_concat(
            "=== Network Interfaces ==="@ + "\n"@ + time_line@,
            "\n"@,
            head@ + "\n"@ + time_colored@,
            "\n"@,
        );
        assert(spec_head =~= "=== Network Interfaces ==="@ + "\n"@ + time_line@ + "\n"@);
        assert(out@ =~= head@ + "\n"@ + time_colored@ + "\n"@);
        assert(dv.take(0) =~= Seq::<(Seq<char>, u64, u64)>::empty());
        assert(spec_head + spec_iface_blocks(dv.take(0)) =~= spec_head);
    }
    let mut i: usize = 0;
    while i < deltas.len()
        invariant
            i <= deltas@.len(),
            dv == views_of(deltas@),
            is_subseq(spec_head + spec_iface_blocks(dv.take(i as int)), out@),
        decreases deltas@.len() - i,
    {
        let ghost o0 = out@;
        let ghost sp0 = spec_head + spec_iface_blocks(dv.take(i as int));
        let d = &deltas[i];
        let mut name_line = String::new();
        name_line.append("Interface: ");
        name_line.append(d.name.as_str());
        let name_colored = cyan(name_line.as_str());
        out.append("\n");
        out.append(name_colored.as_str());
        out.append("\n  Received:  ");
        let rx = format_bytes_colored(d.received);
        out.append(rx.as_str());
        out.append("/s\n  Transmitted: ");
        let tx = format_bytes_colored(d.transmitted);
        out.append(tx.as_str());
        out.append("/s\n");
        proof {
            reveal_strlit("\nInterface: ");
            reveal_strlit("Interface: ");
            reveal_strlit("\n");
            lemma_subseq_refl("\n"@);
            lemma_subseq_refl("\n  Received:  "@);
            lemma_subseq_refl("/s\n  Transmitted: "@);
            lemma_subseq_refl("/s\n"@);
            lemma_subseq_concat("\n"@, name_line@, "\n"@, name_colored@);
            lemma_subseq_concat(
                "\n"@ + name_line@,
                "\n  Received:  "@,
                "\n"@ + name_colored@,
                "\n  Received:  "@,
            );
            lemma_subseq_concat(
                "\n"@ + name_line@ + "\n  Received:  "@,
                spec_format_bytes(d.received),
                "\n"@ + name_colored@ + "\n  Received:  "@,
                rx@,
            );
            lemma_subseq_concat(
                "\n"@ + name_line@ + "\n  Received:  "@ + spec_format_bytes(d.received),
                "/s\n  Transmitted: "@,
                "\n"@ + name_colored@ + "\n  Received:  "@ + rx@,
                "/s\n  Transmitted: "@,
            );
            lemma_subseq_concat(
                "\n"@ + name_line@ + "\n  Received:  "@ + spec_format_bytes(d.received)
                    + "/s\n  Transmitted: "@,
                spec_format_bytes(d.transmitted),
                "\n"@ + name_colored@ + "\n  Received:  "@ + rx@ + "/s\n  Transmitted: "@,
                tx@,
            );
            lemma_subseq_concat(
                "\n"@ + name_line@ + "\n  Received:  "@ + spec_format_bytes(d.received)
                    + "/s\n  Transmitted: "@ + spec_format_bytes(d.transmitted),
                "/s\n"@,
                "\n"@ + name_colored@ + "\n  Received:  "@ + rx@ + "/s\n  Transmitted: "@ + tx@,
                "/s\n"@,
            );
            let spec_piece = spec_iface_block(dv[i as int]);
            let piece = "\n"@ + name_colored@ + "\n  Received:  "@ + rx@ + "/s\n  Transmitted: "@
                + tx@ + "/s\n"@;
            assert(spec_piece =~= "\n"@ + name_line@ + "\n  Received:  "@ + spec_format_bytes(
                d.received,
            ) + "/s\n  Transmitted: "@ + spec_format_bytes(d.transmitted) + "/s\n"@);
            assert(out@ =~= o0 + piece);
            lemma_subseq_concat(sp0, spec_piece, o0, piece);
            lemma_iface_blocks_step(dv, i as int);
            assert(sp0 + spec_piece =~= spec_head + spec_iface_blocks(dv.take(i as int + 1)));
        }
        i += 1;
    }
    proof {
        assert(dv.take(deltas@.len() as int) =~= dv);
    }
    match addrs {
        Some(list) => {
            let ghost av = addr_views_of(list@);
            let ghost o1 = out@;
            let ghost sp1 = spec_head + spec_iface_blocks(dv);
            out.append("\n");
            let details = green_bold("=== Interface Details ===");
            out.append(details.as_str());
            out.append("\n");
            let ghost spec_mid = sp1 + "\n=== Interface Details ===\n"@;
            proof {
                reveal_strlit("\n=== Interface Details ===\n");
                reveal_strlit("=== Interface Details ===");
                reveal_strlit("\n");
                lemma_subseq_refl("\n"@);
                lemma_subseq_concat(sp1, "\n"@, o1, "\n"@);
                lemma_subseq_concat(
                    sp1 + "\n"@,
                    "=== Interface Details ==="@,
                    o1 + "\n"@,
                    details@,
                );
                lemma_subseq_concat(
                    sp1 + "\n"@ + "=== Interface Details ==="@,
                    "\n"@,
                    o1 + "\n"@ + details@,
                    "\n"@,
                );
                assert(spec_mid =~= sp1 + "\n"@ + "=== Interface Details ==="@ + "\n"@);
                assert(out@ =~= o1 + "\n"@ + details@ + "\n"@);
                assert(av.take(0) =~= Seq::<(Seq<char>, Seq<char>)>::empty());
                assert(spec_mid + spec_addr_blocks(av.take(0)) =~= spec_mid);
            }
            let mut k: usize = 0;
            while k < list.len()
                invariant
                    k <= list@.len(),
                    av == addr_views_of(list@),
                    is_subseq(spec_mid + spec_addr_blocks(av.take(k as int)), out@),
                decreases list@.len() - k,
            {
                let ghost o2 = out@;
                let ghost sp2 = spec_mid + spec_addr_blocks(av.take(k as int));
                let a = &list[k];
                let mut name_line = String::new();
                name_line.append("Interface: ");
                name_line.append(a.name.as_str());
                let name_colored = cyan(name_line.as_str());
                out.append("\n");
                out.append(name_colored.as_str());
                out.append("\n  IP Address: ");
                let addr_colored = yellow(a.addr.as_str());
                out.append(addr_colored.as_str());
                out.append("\n");
                proof {
                    reveal_strlit("\nInterface: ");
                    reveal_strlit("Interface: ");
                    reveal_strlit("\n");
                    lemma_subseq_refl("\n"@);
                    lemma_subseq_refl("\n  IP Address: "@);
                    lemma_subseq_concat("\n"@, name_line@, "\n"@, name_colored@);
                    lemma_subseq_concat(
                        "\n"@ + name_line@,
                        "\n  IP Address: "@,
                        "\n"@ + name_colored@,
                        "\n  IP Address: "@,
                    );
                    lemma_subseq_concat(
                        "\n"@ + name_line@ + "\n  IP Address: "@,
                        a.addr@,
                        "\n"@ + name_colored@ + "\n  IP Address: "@,
                        addr_colored@,
                    );
                    lemma_subseq_concat(
                        "\n"@ + name_line@ + "\n  IP Address: "@ + a.addr@,
                        "\n"@,
                        "\n"@ + name_colored@ + "\n  IP Address: "@ + addr_colored@,
                        "\n"@,
                    );
                    let spec_piece = spec_addr_block(av[k as int]);
                    let piece = "\n"@ + name_colored@ + "\n  IP Address: "@ + addr_colored@
                        + "\n"@;
                    assert(spec_piece =~= "\n"@ + name_line@ + "\n  IP Address: "@ + a.addr@
                        + "\n"@);
                    assert(out@ =~= o2 + piece);
                    lemma_subseq_concat(sp2, spec_piece, o2, piece);
                    lemma_addr_blocks_step(av, k as int);
                    assert(sp2 + spec_piece =~= spec_mid + spec_addr_blocks(
                        av.take(k as int + 1),
                    ));
                }
                k += 1;
            }
            proof {
                assert(av.take(list@.len() as int) =~= av);
                assert(spec_mid + spec_addr_blocks(av) =~= spec_report(
                    views_of(deltas@),
                    opt_addr_views(*addrs),
                    h,
                    m,
                    s,
                ));
            }
        },
        None => {
            proof {
                assert(spec_head + spec_iface_blocks(dv) =~= spec_report(
                    views_of(deltas@),
                    opt_addr_views(*addrs),
                    h,
                    m,
                    s,
                ));
            }
        },
    }
    out
}

/// One cycle as the terminal monitor shows it: compute the deltas against
/// the stored counters, overwrite them with the sample, and render the
/// coloured report under the current local time. The store is updated
/// exactly as in [`run_cycle`]; the report carries, for the time the clock
/// gave, the plain report of that cycle as a subsequence — colouring only
/// inserts, it deletes and alters nothing.
pub fn run_cycle_colored(
    store: &mut CounterStore,
    sample: &Vec<IfaceCounters>,
    addrs: &Option<Vec<AddrBinding>>,
) -> (report: String)
    requires
        old(store).wf(),
        names_unique(views_of(sample@)),
    ensures
        final(store).wf(),
        final(store)@ == old(store)@.union_prefer_right(counters_map(views_of(sample@))),
        exists|hh: u8, mm: u8, ss: u8|
            hh < 24 && mm < 60 && ss < 60 && is_subseq(
                spec_report(
                    spec_deltas(old(store)@, views_of(sample@)),
                    opt_addr_views(*addrs),
                    hh,
                    mm,
                    ss,
                ),
                report@,
            ),
{
    let deltas = store.compute_delta_and_update(sample);
    let t = local_hms();
    let report = render_report_colored(&deltas, addrs, t.0, t.1, t.2);
    proof {
        assert(t.0 < 24 && t.1 < 60 && t.2 < 60 && is_subseq(
            spec_report(
                spec_deltas(old(store)@, views_of(sample@)),
                opt_addr_views(*addrs),
                t.0,
                t.1,
                t.2,
            ),
            report@,
        ));
    }
    report
}

/// The farewell line printed when the operator interrupts the monitor.
pub fn farewell_message() -> (r: String)
    ensures
        r@ == "Exiting network monitor..."@,
{
    let mut out = String::new();
    out.append("Exiting network monitor...");
    proof {
        assert(out@ =~= "Exiting network monitor..."@);
    }
    out
}

/// The farewell line with its terminal colouring, as the interrupt handler
/// prints it: the farewell text with only escape sequences inserted.
pub fn farewell_message_colored() -> (r: String)
    ensures
        is_subseq("Exiting network monitor..."@, r@),
{
    let plain = farewell_message();
    yellow(plain.as_str())
}

/// The label that prefixes an address-enumeration failure on the error
/// stream.
pub fn address_error_label() -> (r: String)
    ensures
        r@ == "Error getting interface details"@,
{
    let mut out = String::new();
    out.append("Error getting interface details");
    proof {
        assert(out@ =~= "Error getting interface details"@);
    }
    out
}

/// The address-enumeration failure label with its terminal colouring: the
/// label text with only escape sequences inserted.
pub fn address_error_label_colored() -> (r: String)
    ensures
        is_subseq("Error getting interface details"@, r@),
{
    let plain = address_error_label();
    red_bold(plain.as_str())
}

/// The control sequence that clears the display, printed before each
/// cycle's report so that it fully replaces the previous one.
pub fn clear_screen_sequence() -> (r: String)
    ensures
        r@ == "\x1B[2J\x1B[1;1H"@,
{
    let mut out = String::new();
    out.append("\x1B[2J\x1B[1;1H");
    proof {
        assert(out@ =~= "\x1B[2J\x1B[1;1H"@);
    }
    out
}

} // verus!

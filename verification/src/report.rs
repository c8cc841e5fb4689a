//! Reporter: renders one completed sample as a line of output bytes — a pure
//! function of the run context and the sample. Two shapes exist: a
//! human-readable line, and a structured comma-separated record whose fields
//! are runtime label, transport, test label, sequence number, configured
//! interval, payload size, background-load count, elapsed value and unit
//! label. Times and intervals are rendered as whole nanoseconds, the one
//! canonical unit of this crate. The driver writes the bytes out and appends
//! the line terminator; a failed write is fatal, like every other error.

use vstd::prelude::*;

verus! {

use crate::config::Transport;
use crate::engine::Sample;

/// Decimal digits of `n`, most significant first, as ASCII bytes.
pub open spec fn spec_decimal(n: nat) -> Seq<u8>
    decreases n,
{
    if n < 10 {
        seq![(48 + n) as u8]
    } else {
        spec_decimal(n / 10).push((48 + n % 10) as u8)
    }
}

/// Render `n` in decimal ASCII.
pub fn decimal(n: u64) -> (r: Vec<u8>)
    ensures
        r@ == spec_decimal(n as nat),
    decreases n,
{
    if n < 10 {
        let mut v: Vec<u8> = Vec::new();
        v.push(48 + n as u8);
        proof {
            assert(v@ =~= spec_decimal(n as nat));
        }
        v
    } else {
        let mut v = decimal(n / 10);
        v.push(48 + (n % 10) as u8);
        v
    }
}

/// ASCII name of a transport, as it appears in the structured record.
pub open spec fn spec_transport_label(t: Transport) -> Seq<u8> {
    match t {
        Transport::Tcp => seq![116u8, 99u8, 112u8],
        Transport::Udp => seq![117u8, 100u8, 112u8],
    }
}

/// Render a transport's name ("tcp" or "udp").
pub fn transport_label(t: Transport) -> (r: Vec<u8>)
    ensures
        r@ == spec_transport_label(t),
{
    let mut v: Vec<u8> = Vec::new();
    match t {
        Transport::Tcp => {
            v.push(116);
            v.push(99);
            v.push(112);
        },
        Transport::Udp => {
            v.push(117);
            v.push(100);
            v.push(112);
        },
    }
    proof {
        assert(v@ =~= spec_transport_label(t));
    }
    v
}

/// The structured record for one sample: comma-separated fields in fixed
/// order — runtime label, transport, test label "rtt", sequence number,
/// configured interval (ns), payload size, background-load count, elapsed
/// value (ns), unit label "ns".
pub open spec fn spec_csv_record(
    runtime: Seq<u8>,
    transport: Transport,
    seq: u64,
    interval_ns: u64,
    payload_len: nat,
    load_tasks: nat,
    elapsed_ns: u64,
) -> Seq<u8> {
    runtime + seq![44u8] + spec_transport_label(transport) + seq![44u8] + seq![114u8, 116u8, 116u8]
        + seq![44u8] + spec_decimal(seq as nat) + seq![44u8] + spec_decimal(interval_ns as nat)
        + seq![44u8] + spec_decimal(payload_len) + seq![44u8] + spec_decimal(load_tasks)
        + seq![44u8] + spec_decimal(elapsed_ns as nat) + seq![44u8] + seq![110u8, 115u8]
}

/// The human-readable record for one sample:
/// `<payload_len> bytes: seq=<seq> time=<elapsed>ns`.
pub open spec fn spec_human_record(payload_len: nat, seq: u64, elapsed_ns: u64) -> Seq<u8> {
    spec_decimal(payload_len) + seq![32u8, 98u8, 121u8, 116u8, 101u8, 115u8, 58u8, 32u8]
        + seq![115u8, 101u8, 113u8, 61u8] + spec_decimal(seq as nat)
        + seq![32u8, 116u8, 105u8, 109u8, 101u8, 61u8] + spec_decimal(elapsed_ns as nat)
        + seq![110u8, 115u8]
}

/// Context carried by every report line: runtime label, transport, configured
/// interval, payload size, background-load count, and the output-shape flag.
pub struct ReportContext {
    pub runtime: Vec<u8>,
    pub transport: Transport,
    pub interval_ns: u64,
    pub payload_len: usize,
    pub load_tasks: usize,
    pub structured: bool,
}

fn push_bytes(dst: &mut Vec<u8>, src: &Vec<u8>)
    ensures
        final(dst)@ == old(dst)@ + src@,
{
    let mut i: usize = 0;
    while i < src.len()
        invariant
            i <= src@.len(),
            dst@ == old(dst)@ + src@.subrange(0, i as int),
        decreases src@.len() - i,
    {
        let b = src[i];
        dst.push(b);
        proof {
            assert(dst@ =~= old(dst)@ + src@.subrange(0, i + 1));
        }
        i = i + 1;
    }
    proof {
        assert(src@.subrange(0, src@.len() as int) =~= src@);
    }
}

/// Render the record for sample `s` under context `ctx`: the structured
/// comma-separated shape when the flag is set, the human-readable line
/// otherwise.
pub fn format_sample(ctx: &ReportContext, s: Sample) -> (r: Vec<u8>)
    ensures
        ctx.structured ==> r@ == spec_csv_record(
            ctx.runtime@,
            ctx.transport,
            s.seq,
            ctx.interval_ns,
            ctx.payload_len as nat,
            ctx.load_tasks as nat,
            s.elapsed_ns,
        ),
        !ctx.structured ==> r@ == spec_human_record(ctx.payload_len as nat, s.seq, s.elapsed_ns),
{
    let mut out: Vec<u8> = Vec::new();
    if ctx.structured {
        push_bytes(&mut out, &ctx.runtime);
        out.push(44);
        let label = transport_label(ctx.transport);
        push_bytes(&mut out, &label);
        out.push(44);
        out.push(114);
        out.push(116);
        out.push(116);
        out.push(44);
        let field = decimal(s.seq);
        push_bytes(&mut out, &field);
        out.push(44);
        let field = decimal(ctx.interval_ns);
        push_bytes(&mut out, &field);
        out.push(44);
        let field = decimal(ctx.payload_len as u64);
        push_bytes(&mut out, &field);
        out.push(44);
        let field = decimal(ctx.load_tasks as u64);
        push_bytes(&mut out, &field);
        out.push(44);
        let field = decimal(s.elapsed_ns);
        push_bytes(&mut out, &field);
        out.push(44);
        out.push(110);
        out.push(115);
        proof {
            assert(out@ =~= spec_csv_record(
                ctx.runtime@,
                ctx.transport,
                s.seq,
                ctx.interval_ns,
                ctx.payload_len as nat,
                ctx.load_tasks as nat,
                s.elapsed_ns,
            ));
        }
    } else {
        let field = decimal(ctx.payload_len as u64);
        push_bytes(&mut out, &field);
        out.push(32);
        out.push(98);
        out.push(121);
        out.push(116);
        out.push(101);
        out.push(115);
        out.push(58);
        out.push(32);
        out.push(115);
        out.push(101);
        out.push(113);
        out.push(61);
        let field = decimal(s.seq);
        push_bytes(&mut out, &field);
        out.push(32);
        out.push(116);
        out.push(105);
        out.push(109);
        out.push(101);
        out.push(61);
        let field = decimal(s.elapsed_ns);
        push_bytes(&mut out, &field);
        out.push(110);
        out.push(115);
        proof {
            assert(out@ =~= spec_human_record(ctx.payload_len as nat, s.seq, s.elapsed_ns));
        }
    }
    out
}

} // verus!

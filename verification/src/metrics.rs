//! Metrics for a dispatcher batch: throughput computation and the
//! column-aligned report.
//!
//! Throughput is computed over the batch's full task count, not the number
//! that actually completed, divided by the elapsed wall-clock time.  To
//! stay in integers it is carried as attempts-per-second scaled by one
//! thousand (`milli`): a value of 100_000 reads as 100.000 attempts/s.

use vstd::prelude::*;
use vstd::string::StringSliceAdditionalSpecFns;
use crate::byteseq::append_bytes;

verus! {

/// Throughput in milli-attempts per second: `total * 1000 / seconds`,
/// carried as `total * 1_000_000 / elapsed_ms`.
pub fn throughput_milli_per_sec(total: u64, elapsed_ms: u64) -> (r: u64)
    requires
        elapsed_ms >= 1,
        total <= u32::MAX as u64,
    ensures
        r == total * 1_000_000 / elapsed_ms as int,
{
    (total * 1_000_000) / elapsed_ms
}

/// Decimal digits of `n`, most significant first.
pub open spec fn spec_decimal(n: nat) -> Seq<u8>
    decreases n,
{
    if n < 10 {
        seq![(48 + n) as u8]
    } else {
        spec_decimal(n / 10).push((48 + n % 10) as u8)
    }
}

/// Renders `n` in decimal.
pub fn format_u64(n: u64) -> (r: Vec<u8>)
    ensures
        r@ == spec_decimal(n as nat),
    decreases n,
{
    let mut r: Vec<u8> = if n >= 10 {
        format_u64(n / 10)
    } else {
        Vec::new()
    };
    r.push(48 + (n % 10) as u8);
    proof {
        if n < 10 {
            assert(r@ =~= spec_decimal(n as nat));
        } else {
            assert(r@ =~= spec_decimal((n / 10) as nat).push((48 + n as nat % 10) as u8));
        }
    }
    r
}

/// Exactly three decimal digits: the fractional part of a milli-scaled
/// value, leading zeroes kept.
pub open spec fn spec_frac3(f: nat) -> Seq<u8> {
    seq![(48 + f / 100 % 10) as u8, (48 + f / 10 % 10) as u8, (48 + f % 10) as u8]
}

fn format_frac3(f: u64) -> (r: Vec<u8>)
    requires
        f < 1000,
    ensures
        r@ == spec_frac3(f as nat),
{
    let mut r: Vec<u8> = Vec::new();
    r.push(48 + (f / 100 % 10) as u8);
    r.push(48 + (f / 10 % 10) as u8);
    r.push(48 + (f % 10) as u8);
    proof {
        assert(r@ =~= spec_frac3(f as nat));
    }
    r
}

/// The report: four tab-separated rows, one value each — task count,
/// concurrency ceiling, throughput (attempts/s, three decimals), elapsed
/// time in milliseconds.
pub open spec fn spec_report(
    total: nat,
    concurrency: nat,
    throughput_milli: nat,
    elapsed_ms: nat,
) -> Seq<u8> {
    "max fall to evil:\t".spec_bytes() + spec_decimal(total) + "\n".spec_bytes()
        + "concurrent fall to evil:\t".spec_bytes() + spec_decimal(concurrency)
        + "\n".spec_bytes() + "feps(fall to evil per second):\t".spec_bytes() + spec_decimal(
        throughput_milli / 1000,
    ) + ".".spec_bytes() + spec_frac3(throughput_milli % 1000) + "\n".spec_bytes()
        + "use time:\t".spec_bytes() + spec_decimal(elapsed_ms) + "ms\n".spec_bytes()
}

/// Renders the batch report.
pub fn render_report(total: u64, concurrency: u64, throughput_milli: u64, elapsed_ms: u64) -> (r:
    Vec<u8>)
    ensures
        r@ == spec_report(total as nat, concurrency as nat, throughput_milli as nat,
            elapsed_ms as nat),
{
    let mut out: Vec<u8> = Vec::new();
    append_bytes(&mut out, "max fall to evil:\t".as_bytes());
    let total_text = format_u64(total);
    append_bytes(&mut out, total_text.as_slice());
    append_bytes(&mut out, "\n".as_bytes());
    append_bytes(&mut out, "concurrent fall to evil:\t".as_bytes());
    let concurrency_text = format_u64(concurrency);
    append_bytes(&mut out, concurrency_text.as_slice());
    append_bytes(&mut out, "\n".as_bytes());
    append_bytes(&mut out, "feps(fall to evil per second):\t".as_bytes());
    let whole_text = format_u64(throughput_milli / 1000);
    append_bytes(&mut out, whole_text.as_slice());
    append_bytes(&mut out, ".".as_bytes());
    let frac_text = format_frac3(throughput_milli % 1000);
    append_bytes(&mut out, frac_text.as_slice());
    append_bytes(&mut out, "\n".as_bytes());
    append_bytes(&mut out, "use time:\t".as_bytes());
    let elapsed_text = format_u64(elapsed_ms);
    append_bytes(&mut out, elapsed_text.as_slice());
    append_bytes(&mut out, "ms\n".as_bytes());
    proof {
        assert(out@ =~= spec_report(total as nat, concurrency as nat, throughput_milli as nat,
            elapsed_ms as nat));
    }
    out
}

} // verus!

//! The summary line of one interval.
use vstd::prelude::*;
use vstd::string::StringExecFns;

verus! {

pub open spec fn digit_char(d: nat) -> char {
    if d == 0 {
        '0'
    } else if d == 1 {
        '1'
    } else if d == 2 {
        '2'
    } else if d == 3 {
        '3'
    } else if d == 4 {
        '4'
    } else if d == 5 {
        '5'
    } else if d == 6 {
        '6'
    } else if d == 7 {
        '7'
    } else if d == 8 {
        '8'
    } else {
        '9'
    }
}

/// The decimal digits of `n`, without leading zeros.
pub open spec fn decimal(n: nat) -> Seq<char>
    decreases n,
{
    if n < 10 {
        seq![digit_char(n)]
    } else {
        decimal(n / 10).push(digit_char(n % 10))
    }
}

/// The decimal text of `n`, with a `-` before a negative one.
pub open spec fn signed_decimal(n: int) -> Seq<char> {
    if n < 0 {
        seq!['-'] + decimal((-n) as nat)
    } else {
        decimal(n as nat)
    }
}

/// `h` hundredths written with two decimals, as `{:.2}` writes it.
pub open spec fn two_decimals(h: nat) -> Seq<char> {
    decimal(h / 100) + seq!['.', digit_char((h % 100) / 10), digit_char(h % 10)]
}

/// The report line: `Total PID: <pid>,  Memory: <mem> KB CPU <pct>`.
pub open spec fn report_text(pid: int, mem_kb: nat, cpu_hundredths: nat) -> Seq<char> {
    "Total PID: "@ + signed_decimal(pid) + ",  Memory: "@ + decimal(mem_kb) + " KB CPU "@
        + two_decimals(cpu_hundredths)
}

fn digit_str(d: u128) -> (r: &'static str)
    requires
        d < 10,
    ensures
        r@ == seq![digit_char(d as nat)],
{
    proof {
        reveal_strlit("0");
        reveal_strlit("1");
        reveal_strlit("2");
        reveal_strlit("3");
        reveal_strlit("4");
        reveal_strlit("5");
        reveal_strlit("6");
        reveal_strlit("7");
        reveal_strlit("8");
        reveal_strlit("9");
    }
    if d == 0 {
        "0"
    } else if d == 1 {
        "1"
    } else if d == 2 {
        "2"
    } else if d == 3 {
        "3"
    } else if d == 4 {
        "4"
    } else if d == 5 {
        "5"
    } else if d == 6 {
        "6"
    } else if d == 7 {
        "7"
    } else if d == 8 {
        "8"
    } else {
        "9"
    }
}

/// Appends the decimal digits of `n` to `out`.
fn push_decimal(out: &mut String, n: u128)
    ensures
        final(out)@ == old(out)@ + decimal(n as nat),
    decreases n,
{
    if n < 10 {
        out.append(digit_str(n));
    } else {
        push_decimal(out, n / 10);
        out.append(digit_str(n % 10));
        assert(decimal(n as nat) == decimal((n / 10) as nat).push(digit_char((n % 10) as nat)));
        assert(final(out)@ =~= old(out)@ + decimal(n as nat));
    }
}

/// The summary line of one interval: root pid, aggregate memory in kilobytes, and CPU
/// share given in hundredths of a percent, written with two decimals.
pub fn report_line(pid: i32, mem_kb: u64, cpu_hundredths: u128) -> (r: String)
    ensures
        r@ == report_text(pid as int, mem_kb as nat, cpu_hundredths as nat),
{
    let mut out = String::from_str("Total PID: ");
    if pid < 0 {
        out.append("-");
        proof {
            reveal_strlit("-");
        }
        push_decimal(&mut out, (0 - pid as i64) as u128);
    } else {
        push_decimal(&mut out, pid as u128);
    }
    out.append(",  Memory: ");
    push_decimal(&mut out, mem_kb as u128);
    out.append(" KB CPU ");
    push_decimal(&mut out, cpu_hundredths / 100);
    out.append(".");
    out.append(digit_str((cpu_hundredths % 100) / 10));
    out.append(digit_str(cpu_hundredths % 10));
    proof {
        reveal_strlit(".");
        assert(out@ =~= report_text(pid as int, mem_kb as nat, cpu_hundredths as nat));
    }
    out
}

/// The message that names the arguments, for a command line that lacks them.
pub fn usage_line(program: &str) -> (r: String)
    ensures
        r@ == "Usage: "@ + program@ + " <parent_pid> <interval>"@,
{
    let mut out = String::from_str("Usage: ");
    out.append(program);
    out.append(" <parent_pid> <interval>");
    out
}

} // verus!

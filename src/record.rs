//! One process's accounting record, and the system-wide CPU counter line.
use vstd::prelude::*;

use crate::text::{
    first_line, first_line_of, parse_u64, parse_u64_spec, split_words, views, words,
};

verus! {

/// Field of a process record that holds its user-mode CPU ticks (a platform assumption).
pub const USER_TICKS_FIELD: usize = 13;

/// Field of a process record that holds its kernel-mode CPU ticks (a platform assumption).
pub const KERNEL_TICKS_FIELD: usize = 14;

/// Field of a process record that holds its resident set size in pages (a platform
/// assumption).
pub const RSS_PAGES_FIELD: usize = 23;

/// Kilobytes in one memory page (a platform assumption: the native size is not queried).
pub const PAGE_SIZE_KB: u64 = 4;

/// The number that field `i` of `fields` holds: 0 where the field is missing or is no
/// non-negative integer.
pub open spec fn field_number(fields: Seq<Seq<char>>, i: int) -> u64 {
    if 0 <= i < fields.len() {
        match parse_u64_spec(fields[i]) {
            Some(v) => v,
            None => 0,
        }
    } else {
        0
    }
}

/// `a + b`, held at `u64::MAX`.
pub open spec fn sat_add(a: nat, b: nat) -> u64 {
    if a + b > u64::MAX {
        u64::MAX
    } else {
        (a + b) as u64
    }
}

/// `a * b`, held at `u64::MAX`.
pub open spec fn sat_mul(a: nat, b: nat) -> u64 {
    if a * b > u64::MAX {
        u64::MAX
    } else {
        (a * b) as u64
    }
}

/// The parsed fields of a process's accounting record that this library reads.
#[derive(Clone, Copy, Debug, PartialEq, Eq, Structural)]
pub struct ProcessRecord {
    pub user_ticks: u64,
    pub kernel_ticks: u64,
    pub rss_pages: u64,
}

impl ProcessRecord {
    /// The record that the whitespace-separated fields `fields` describe.
    pub open spec fn of_fields(fields: Seq<Seq<char>>) -> ProcessRecord {
        ProcessRecord {
            user_ticks: field_number(fields, USER_TICKS_FIELD as int),
            kernel_ticks: field_number(fields, KERNEL_TICKS_FIELD as int),
            rss_pages: field_number(fields, RSS_PAGES_FIELD as int),
        }
    }

    /// The record that the text of a process's accounting entry describes.
    pub open spec fn of_text(text: Seq<char>) -> ProcessRecord {
        ProcessRecord::of_fields(words(text))
    }

    /// Resident memory in kilobytes, held at `u64::MAX`.
    pub open spec fn memory_kb(self) -> u64 {
        sat_mul(self.rss_pages as nat, PAGE_SIZE_KB as nat)
    }

    /// User plus kernel CPU ticks, held at `u64::MAX`.
    pub open spec fn ticks(self) -> u64 {
        sat_add(self.user_ticks as nat, self.kernel_ticks as nat)
    }

    /// Reads the record from the fields of a process's accounting entry; a field that is
    /// missing or is no non-negative integer counts as 0.
    pub fn from_fields(fields: &Vec<String>) -> (r: ProcessRecord)
        ensures
            r == ProcessRecord::of_fields(views(fields@)),
    {
        ProcessRecord {
            user_ticks: field_u64(fields, USER_TICKS_FIELD),
            kernel_ticks: field_u64(fields, KERNEL_TICKS_FIELD),
            rss_pages: field_u64(fields, RSS_PAGES_FIELD),
        }
    }

    /// Reads the record from the text of a process's accounting entry.
    pub fn parse(text: &str) -> (r: ProcessRecord)
        ensures
            r == ProcessRecord::of_text(text@),
    {
        let fields = split_words(text);
        ProcessRecord::from_fields(&fields)
    }

    /// Resident memory in kilobytes: resident pages times the page size.
    pub fn memory_usage_kb(&self) -> (r: u64)
        ensures
            r == self.memory_kb(),
            self.rss_pages <= u64::MAX / PAGE_SIZE_KB ==> r == self.rss_pages * PAGE_SIZE_KB,
    {
        if self.rss_pages <= u64::MAX / PAGE_SIZE_KB {
            self.rss_pages * PAGE_SIZE_KB
        } else {
            u64::MAX
        }
    }

    /// CPU ticks spent by the process: user ticks plus kernel ticks.
    pub fn cpu_ticks(&self) -> (r: u64)
        ensures
            r == self.ticks(),
            self.user_ticks + self.kernel_ticks <= u64::MAX ==> r == self.user_ticks
                + self.kernel_ticks,
    {
        self.user_ticks.saturating_add(self.kernel_ticks)
    }
}

/// The number in field `i` of `fields`, or 0.
fn field_u64(fields: &Vec<String>, i: usize) -> (r: u64)
    ensures
        r == field_number(views(fields@), i as int),
{
    if i < fields.len() {
        match parse_u64(fields[i].as_str()) {
            Some(v) => v,
            None => 0,
        }
    } else {
        0
    }
}

/// Resident memory in kilobytes that the fields of an accounting record give.
pub fn get_memory_usage(fields: &Vec<String>) -> (r: u64)
    ensures
        r == ProcessRecord::of_fields(views(fields@)).memory_kb(),
{
    ProcessRecord::from_fields(fields).memory_usage_kb()
}

/// CPU ticks (user plus kernel) that the fields of an accounting record give.
pub fn get_cpu_usage(fields: &Vec<String>) -> (r: u64)
    ensures
        r == ProcessRecord::of_fields(views(fields@)).ticks(),
{
    ProcessRecord::from_fields(fields).cpu_ticks()
}

/// The sum of the numbers among `ws`; words that are no non-negative integer are passed
/// over.
pub open spec fn sum_numbers(ws: Seq<Seq<char>>) -> nat
    decreases ws.len(),
{
    if ws.len() == 0 {
        0
    } else {
        sum_numbers(ws.drop_last()) + match parse_u64_spec(ws.last()) {
            Some(v) => v as nat,
            None => 0,
        }
    }
}

/// The system-wide CPU total that the text of the global accounting file gives: the sum
/// of the numbers on its first line after the label, held at `u64::MAX`; none when the
/// text has no line.
pub open spec fn system_cpu_total(text: Seq<char>) -> Option<u64> {
    match first_line(text) {
        None => None,
        Some(line) => {
            let ws = words(line);
            if ws.len() == 0 {
                Some(0)
            } else {
                Some(sat_add(sum_numbers(ws.drop_first()), 0))
            }
        },
    }
}

/// Sums the CPU time counters on the first line of the global accounting file.
pub fn get_system_cpu_usage(text: &str) -> (r: Option<u64>)
    ensures
        r == system_cpu_total(text@),
{
    let line = match first_line_of(text) {
        None => return None,
        Some(l) => l,
    };
    let ws = split_words(line.as_str());
    if ws.len() == 0 {
        return Some(0);
    }
    let ghost rest = views(ws@).drop_first();
    let mut total: u64 = 0;
    let mut i: usize = 1;
    while i < ws.len()
        invariant
            1 <= i <= ws.len(),
            rest == views(ws@).drop_first(),
            total == sat_add(sum_numbers(rest.take(i - 1)), 0),
        decreases ws.len() - i,
    {
        assert(rest.take(i as int).drop_last() =~= rest.take(i - 1));
        assert(rest.take(i as int).last() == ws@[i as int]@);
        match parse_u64(ws[i].as_str()) {
            Some(v) => {
                total = total.saturating_add(v);
            },
            None => {},
        }
        i = i + 1;
    }
    assert(rest.take(i - 1) =~= rest);
    Some(total)
}

/// Memory of a record is its resident page count times four kilobytes, wherever that
/// product fits in `u64`.
pub proof fn lemma_memory_is_pages_times_four(r: ProcessRecord)
    requires
        r.rss_pages * 4 <= u64::MAX,
    ensures
        r.memory_kb() == r.rss_pages * 4,
{
}

/// CPU ticks of a record are its user ticks plus its kernel ticks (where the sum fits in
/// `u64`), and a field that is missing or is no number counts as 0.
pub proof fn lemma_cpu_ticks_sum(fields: Seq<Seq<char>>)
    requires
        field_number(fields, USER_TICKS_FIELD as int) + field_number(
            fields,
            KERNEL_TICKS_FIELD as int,
        ) <= u64::MAX,
    ensures
        ProcessRecord::of_fields(fields).ticks() == field_number(fields, USER_TICKS_FIELD as int)
            + field_number(fields, KERNEL_TICKS_FIELD as int),
        fields.len() <= USER_TICKS_FIELD ==> ProcessRecord::of_fields(fields).ticks() == 0,
        fields.len() > KERNEL_TICKS_FIELD && parse_u64_spec(fields[USER_TICKS_FIELD as int]).is_none()
            ==> ProcessRecord::of_fields(fields).ticks() == field_number(
            fields,
            KERNEL_TICKS_FIELD as int,
        ),
        fields.len() > KERNEL_TICKS_FIELD && parse_u64_spec(
            fields[KERNEL_TICKS_FIELD as int],
        ).is_none() ==> ProcessRecord::of_fields(fields).ticks() == field_number(
            fields,
            USER_TICKS_FIELD as int,
        ),
{
}

} // verus!

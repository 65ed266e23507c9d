//! Process memory figures: reading them from the text of the kernel's
//! status report, and printing them in megabytes.
use vstd::prelude::*;
use crate::lines::{lines, words, split_lines, split_whitespace};
use crate::text::{
    chars_of, char_of_digit, decimal, decimal_string, digit_char, parse_unsigned, parse_unsigned_chars,
    push_char, push_str, starts_with, starts_with_str, views,
};

verus! {

/// Resident and peak resident memory of the process, in kilobytes.
#[derive(Debug, Clone, Copy)]
pub struct MemorySnapshot {
    pub rss_kb: u64,
    pub hwm_kb: u64,
}

/// The largest kilobyte figure that converts to a float exactly.
pub open spec fn exact_kb_limit() -> nat {
    0x20_0000_0000_0000
}

/// `kb / 1024` in tenths, rounded to the nearest tenth, ties to an even
/// tenth (the rounding of `{:.1}` on the exact value).
pub open spec fn megabyte_tenths(kb: nat) -> nat {
    let q = (kb * 5) / 512;
    let r = (kb * 5) % 512;
    if r > 256 || (r == 256 && q % 2 == 1) {
        q + 1
    } else {
        q
    }
}

/// `kb / 1024` with one decimal, as `{:.1}` prints it.
pub open spec fn megabytes_text(kb: nat) -> Seq<char> {
    let t = megabyte_tenths(kb);
    decimal(t / 10) + seq!['.', digit_char(t % 10)]
}

/// The text of a snapshot in megabytes.
pub open spec fn snapshot_text(rss_kb: nat, hwm_kb: nat) -> Seq<char> {
    "rss="@ + megabytes_text(rss_kb) + "MB peak="@ + megabytes_text(hwm_kb) + "MB"@
}

/// Writes `kb / 1024` with one decimal.
fn push_megabytes(s: &mut String, kb: u64)
    requires
        kb <= exact_kb_limit(),
    ensures
        final(s)@ == old(s)@ + megabytes_text(kb as nat),
{
    let scaled = kb * 5;
    let q = scaled / 512;
    let r = scaled % 512;
    let t = if r > 256 || (r == 256 && q % 2 == 1) { q + 1 } else { q };
    let whole = decimal_string(t / 10);
    push_str(s, whole.as_str());
    push_char(s, '.');
    push_char(s, char_of_digit(t % 10));
    assert(s@ =~= old(s)@ + megabytes_text(kb as nat));
}

impl MemorySnapshot {
    /// Formats the snapshot as `rss=<MB>MB peak=<MB>MB`, each figure in
    /// megabytes with one decimal.
    pub fn format_megabytes(self) -> (r: String)
        requires
            self.rss_kb <= exact_kb_limit(),
            self.hwm_kb <= exact_kb_limit(),
        ensures
            r@ == snapshot_text(self.rss_kb as nat, self.hwm_kb as nat),
    {
        let mut s = String::new();
        push_str(&mut s, "rss=");
        push_megabytes(&mut s, self.rss_kb);
        push_str(&mut s, "MB peak=");
        push_megabytes(&mut s, self.hwm_kb);
        push_str(&mut s, "MB");
        assert(s@ =~= snapshot_text(self.rss_kb as nat, self.hwm_kb as nat));
        s
    }
}

/// The first line of `ls` that starts with `key`.
pub open spec fn first_starting_with(ls: Seq<Seq<char>>, key: Seq<char>) -> Option<Seq<char>>
    decreases ls.len(),
{
    if ls.len() == 0 {
        None
    } else if starts_with(ls[0], key) {
        Some(ls[0])
    } else {
        first_starting_with(ls.drop_first(), key)
    }
}

/// The value of a status field: the first line that starts with `key`,
/// its second word, parsed as a `u64`.
pub open spec fn status_value(contents: Seq<char>, key: Seq<char>) -> Option<nat> {
    match first_starting_with(lines(contents), key) {
        Some(line) => {
            let w = words(line);
            if w.len() > 1 {
                parse_unsigned(w[1], u64::MAX as nat)
            } else {
                None
            }
        },
        None => None,
    }
}

/// Reads a field of the kernel's process status text, such as
/// `VmRSS:   1234 kB`: the number after the key on the first line that
/// starts with it.
pub fn parse_status_value_kb(contents: &str, key: &str) -> (r: Option<u64>)
    ensures
        match r {
            Some(n) => status_value(contents@, key@) == Some(n as nat),
            None => status_value(contents@, key@) is None,
        },
{
    let ls = split_lines(contents);
    let ghost all = views(ls@);
    let mut i: usize = 0;
    assert(all.skip(0) =~= all);
    while i < ls.len()
        invariant
            i <= ls.len(),
            all == views(ls@),
            all == lines(contents@),
            first_starting_with(all, key@) == first_starting_with(all.skip(i as int), key@),
        decreases ls.len() - i,
    {
        assert(all.skip(i as int)[0] == ls@[i as int]@);
        if starts_with_str(ls[i].as_str(), key) {
            let w = split_whitespace(ls[i].as_str());
            if w.len() > 1 {
                assert(views(w@)[1] == w@[1]@);
                let v = chars_of(w[1].as_str());
                assert(v@.subrange(0, v@.len() as int) =~= v@);
                return parse_unsigned_chars(&v, 0, v.len(), u64::MAX);
            }
            return None;
        }
        assert(all.skip(i as int).drop_first() =~= all.skip(i + 1));
        i = i + 1;
    }
    None
}

/// The values of the memory-logging switch that turn it on.
pub open spec fn logging_switch_on(value: Seq<char>) -> bool {
    value == "1"@ || value == "true"@ || value == "TRUE"@ || value == "yes"@ || value == "YES"@
}

/// Whether the memory-logging switch, when set, turns logging on.
pub fn logging_flag(value: Option<&str>) -> (r: bool)
    ensures
        r == match value {
            Some(v) => logging_switch_on(v@),
            None => false,
        },
{
    match value {
        Some(v) => crate::text::str_eq(v, "1") || crate::text::str_eq(v, "true") || crate::text::str_eq(v, "TRUE")
            || crate::text::str_eq(v, "yes") || crate::text::str_eq(v, "YES"),
        None => false,
    }
}

/// Every how many items memory is logged: the configured positive number,
/// else the default.
pub open spec fn log_interval_spec(value: Option<Seq<char>>, default_value: usize) -> usize {
    match value {
        Some(v) => match parse_unsigned(v, usize::MAX as nat) {
            Some(n) => if n > 0 { n as usize } else { default_value },
            None => default_value,
        },
        None => default_value,
    }
}

/// Reads the memory-logging interval from its setting.
pub fn log_interval(value: Option<&str>, default_value: usize) -> (r: usize)
    ensures
        r == log_interval_spec(
            match value {
                Some(v) => Some(v@),
                None => None,
            },
            default_value,
        ),
{
    match value {
        Some(v) => {
            let c = chars_of(v);
            assert(c@.subrange(0, c@.len() as int) =~= c@);
            match parse_unsigned_chars(&c, 0, c.len(), usize::MAX as u64) {
                Some(n) => if n > 0 { n as usize } else { default_value },
                None => default_value,
            }
        },
        None => default_value,
    }
}

} // verus!

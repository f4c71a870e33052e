//! Lines that are shown during a run.
use vstd::prelude::*;
use crate::srt::{EntryModel, SrtEntry};
use crate::text::{chars_of, decimal, fixed3, push_decimal, push_fixed3, trim, trimmed};

verus! {

/// How wide a progress bar is.
pub const BAR_WIDTH: usize = 40;

/// The same character, many times.
pub open spec fn repeated(c: char, n: int) -> Seq<char> {
    Seq::new(if n > 0 {
        n as nat
    } else {
        0
    }, |i: int| c)
}

fn push_repeated(s: &mut String, c: char, n: usize)
    ensures
        final(s)@ == old(s)@ + repeated(c, n as int),
{
    let ghost before = s@;
    let mut i: usize = 0;
    assert(s@ =~= before + repeated(c, 0));
    while i < n
        invariant
            i <= n,
            s@ == before + repeated(c, i as int),
        decreases n - i,
    {
        s.push(c);
        i += 1;
        assert(s@ =~= before + repeated(c, i as int));
    }
}

/// A progress bar with so many places filled, and the numbers behind it.
pub open spec fn bar(filled: int, completed: int, total: int) -> Seq<char> {
    seq!['['] + repeated('=', filled) + repeated(' ', BAR_WIDTH - filled) + "] "@ + decimal(
        completed as nat,
    ) + "/"@ + decimal(total as nat)
}

/// A progress bar. More places may be filled than it is wide.
pub fn progress_bar(filled: usize, completed: u64, total: usize) -> (r: String)
    ensures
        r@ == bar(filled as int, completed as int, total as int),
{
    let mut r = String::new();
    r.push('[');
    push_repeated(&mut r, '=', filled);
    if filled < BAR_WIDTH {
        push_repeated(&mut r, ' ', BAR_WIDTH - filled);
    } else {
        assert(repeated(' ', BAR_WIDTH - filled) =~= Seq::<char>::empty());
    }
    r.append("] ");
    push_decimal(&mut r, completed);
    r.append("/");
    push_decimal(&mut r, total as u64);
    assert(r@ =~= bar(filled as int, completed as int, total as int));
    r
}

/// How many places are filled when clips are fitted into their times: one at least.
pub open spec fn fitted_places(current: int, total: int) -> int {
    let n = current * 40 / total;
    if n > 1 {
        n
    } else {
        1
    }
}

/// The line shown when clips are fitted into their times.
pub open spec fn fitting_text(current: int, total: int, msg: Seq<char>) -> Seq<char> {
    "\r变速处理: ["@ + repeated('=', fitted_places(current, total)) + repeated(
        ' ',
        BAR_WIDTH - fitted_places(current, total),
    ) + "] "@ + decimal(current as nat) + "/"@ + decimal(total as nat) + " - "@ + msg
}

/// The line shown when clips are fitted into their times.
pub fn fitting_line(current: usize, total: usize, msg: &str) -> (r: String)
    requires
        current <= total,
        total > 0,
        40 * current <= usize::MAX,
    ensures
        r@ == fitting_text(current as int, total as int, msg@),
{
    assert(0 <= current * 40 / (total as int) <= 40) by (nonlinear_arith)
        requires
            0 <= current <= total,
            total > 0,
    ;
    let part: usize = current * 40 / total;
    let places: usize = if part > 1 {
        part
    } else {
        1
    };
    let mut r = "\r变速处理: [".to_string();
    push_repeated(&mut r, '=', places);
    push_repeated(&mut r, ' ', BAR_WIDTH - places);
    r.append("] ");
    push_decimal(&mut r, current as u64);
    r.append("/");
    push_decimal(&mut r, total as u64);
    r.append(" - ");
    r.append(msg);
    assert(r@ =~= fitting_text(current as int, total as int, msg@));
    r
}

/// The first characters of a text.
pub open spec fn clipped(s: Seq<char>, most: int) -> Seq<char> {
    if s.len() <= most {
        s
    } else {
        s.subrange(0, most)
    }
}

/// The line that shows a subtitle: its times and the beginning of what it says.
pub open spec fn entry_text(e: EntryModel) -> Seq<char> {
    "  条目 "@ + decimal(e.index as nat) + ": 开始="@ + signed(e.start) + "ms ("@ + fixed3(e.start)
        + "s), 结束="@ + signed(e.end) + "ms ("@ + fixed3(e.end) + "s), 时长="@ + signed(
        e.end - e.start,
    ) + "ms ("@ + fixed3(e.end - e.start) + "s), 文本=\""@ + clipped(trimmed(e.text), 30) + "\""@
}

/// A number in decimal digits, with its sign if it is negative.
pub open spec fn signed(n: int) -> Seq<char> {
    if n < 0 {
        seq!['-'] + decimal((-n) as nat)
    } else {
        decimal(n as nat)
    }
}

fn push_signed(s: &mut String, n: i64)
    ensures
        final(s)@ == old(s)@ + signed(n as int),
{
    let ghost before = s@;
    if n < 0 {
        s.push('-');
        let magnitude: u64 = if n == i64::MIN {
            0x8000_0000_0000_0000
        } else {
            (-n) as u64
        };
        push_decimal(s, magnitude);
    } else {
        push_decimal(s, n as u64);
    }
    assert(s@ =~= before + signed(n as int));
}

fn push_clipped(s: &mut String, t: &str, most: usize)
    ensures
        final(s)@ == old(s)@ + clipped(t@, most as int),
{
    let ghost before = s@;
    let v = chars_of(t);
    let mut i: usize = 0;
    assert(s@ =~= before + t@.subrange(0, 0));
    while i < v.len() && i < most
        invariant
            v@ == t@,
            i <= v@.len(),
            i <= most,
            s@ == before + t@.subrange(0, i as int),
        decreases v@.len() - i,
    {
        s.push(v[i]);
        i += 1;
        assert(s@ =~= before + t@.subrange(0, i as int));
    }
    assert(t@.subrange(0, i as int) =~= clipped(t@, most as int));
}

/// The line that shows a subtitle.
pub fn entry_line(entry: &SrtEntry) -> (r: String)
    requires
        i64::MIN <= entry.end_time - entry.start_time <= i64::MAX,
    ensures
        r@ == entry_text(entry@),
{
    let length: i64 = entry.end_time - entry.start_time;
    let mut r = "  条目 ".to_string();
    push_decimal(&mut r, entry.index as u64);
    r.append(": 开始=");
    push_signed(&mut r, entry.start_time);
    r.append("ms (");
    push_fixed3(&mut r, entry.start_time);
    r.append("s), 结束=");
    push_signed(&mut r, entry.end_time);
    r.append("ms (");
    push_fixed3(&mut r, entry.end_time);
    r.append("s), 时长=");
    push_signed(&mut r, length);
    r.append("ms (");
    push_fixed3(&mut r, length);
    r.append("s), 文本=\"");
    push_clipped(&mut r, trim(entry.text.as_str()), 30);
    r.append("\"");
    assert(r@ =~= entry_text(entry@));
    r
}

} // verus!

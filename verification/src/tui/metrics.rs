//! Parsers for the process statistics shown on the dashboard, and the text
//! of chunk lists.
use crate::text::{
    append_decimal, chars_of, decimal, decimal_string, joined, lemma_decimal_reads_back,
    lemma_digits_spaceless, lemma_two_words, all_digits, digits_value, lemma_words_hold_no_space, lines, parse_unsigned,
    parse_unsigned_exec, split_lines, split_words, words,
};
use vstd::prelude::*;
use vstd::string::*;

verus! {

broadcast use vstd::string::group_string_axioms;

/// The position of the last `c` in `s`, if any.
pub open spec fn last_index_of(s: Seq<char>, c: char) -> Option<int>
    decreases s.len(),
{
    if s.len() == 0 {
        None
    } else if s.last() == c {
        Some(s.len() - 1)
    } else {
        last_index_of(s.drop_last(), c)
    }
}

/// The user and system CPU ticks of a `/proc/<pid>/stat` line: the 12th and
/// 13th words after the closing parenthesis of the command name.
pub open spec fn cpu_tick_fields(stat: Seq<char>) -> Option<(nat, nat)> {
    match last_index_of(stat, ')') {
        None => None,
        Some(k) => {
            let fields = words(stat.skip(k + 1));
            if fields.len() > 12 {
                match (parse_unsigned(fields[11], u64::MAX as nat), parse_unsigned(fields[12], u64::MAX as nat)) {
                    (Some(user), Some(system)) => Some((user, system)),
                    _ => None,
                }
            } else {
                None
            }
        },
    }
}

/// The CPU ticks a process used, from its `/proc/<pid>/stat` line.
pub open spec fn cpu_ticks(stat: Seq<char>) -> Option<nat> {
    match cpu_tick_fields(stat) {
        Some((user, system)) => Some(user + system),
        None => None,
    }
}

fn last_paren(chars: &Vec<char>) -> (r: Option<usize>)
    ensures
        match r {
            Some(k) => last_index_of(chars@, ')') == Some(k as int) && k < chars@.len(),
            None => last_index_of(chars@, ')') is None,
        },
{
    let mut i = chars.len();
    assert(chars@.take(i as int) =~= chars@);
    while i > 0
        invariant
            i <= chars@.len(),
            last_index_of(chars@, ')') == last_index_of(chars@.take(i as int), ')'),
        decreases i,
    {
        assert(chars@.take(i as int).drop_last() =~= chars@.take(i - 1));
        if chars[i - 1] == ')' {
            return Some(i - 1);
        }
        i = i - 1;
    }
    None
}

/// The user and system CPU ticks in a `/proc/<pid>/stat` line.
pub fn process_cpu_tick_fields(stat: &str) -> (r: Option<(u64, u64)>)
    ensures
        match cpu_tick_fields(stat@) {
            Some((user, system)) => r == Some((user as u64, system as u64)),
            None => r is None,
        },
{
    let chars = chars_of(stat);
    assert(chars@.take(chars@.len() as int) =~= chars@);
    let k = match last_paren(&chars) {
        Some(k) => k,
        None => return None,
    };
    assert(chars@.len() == chars.len());
    let fields = split_words(&chars, k + 1);
    let ghost ws = words(stat@.skip(k + 1));
    assert(ws == fields@.map_values(|w: Vec<char>| w@));
    assert(last_index_of(stat@, ')') == Some(k as int));
    assert(ws.len() == fields@.len());
    if fields.len() <= 12 {
        return None;
    }
    assert(ws[11] == fields@[11]@ && ws[12] == fields@[12]@);
    let user = match parse_unsigned_exec(&fields[11], u64::MAX) {
        Some(v) => v,
        None => return None,
    };
    let system = match parse_unsigned_exec(&fields[12], u64::MAX) {
        Some(v) => v,
        None => return None,
    };
    Some((user, system))
}

/// The CPU ticks (user plus system) in a `/proc/<pid>/stat` line.
pub fn parse_process_cpu_ticks(stat: &str) -> (r: Option<u64>)
    requires
        cpu_tick_fields(stat@) matches Some((user, system)) ==> user + system <= u64::MAX,
    ensures
        match cpu_ticks(stat@) {
            Some(t) => r == Some(t as u64),
            None => r is None,
        },
{
    match process_cpu_tick_fields(stat) {
        Some((user, system)) => Some(user + system),
        None => None,
    }
}

/// `line` begins with `prefix`.
pub open spec fn starts_with(line: Seq<char>, prefix: Seq<char>) -> bool {
    line.len() >= prefix.len() && line.take(prefix.len() as int) == prefix
}

/// The first of `ls` that begins with `prefix`.
pub open spec fn first_line_starting(ls: Seq<Seq<char>>, prefix: Seq<char>) -> Option<Seq<char>>
    decreases ls.len(),
{
    if ls.len() == 0 {
        None
    } else if starts_with(ls[0], prefix) {
        Some(ls[0])
    } else {
        first_line_starting(ls.drop_first(), prefix)
    }
}

/// The resident memory, in bytes, of a `/proc/<pid>/status` text: the
/// second word of its first `VmRSS:` line, in KiB, times 1024 (saturating).
pub open spec fn resident_memory(status: Seq<char>) -> Option<nat> {
    match first_line_starting(lines(status), "VmRSS:"@) {
        None => None,
        Some(line) => {
            let fields = words(line);
            if fields.len() > 1 {
                match parse_unsigned(fields[1], usize::MAX as nat) {
                    Some(kib) => Some(
                        if kib * 1024 <= usize::MAX {
                            kib * 1024
                        } else {
                            usize::MAX as nat
                        },
                    ),
                    None => None,
                }
            } else {
                None
            }
        },
    }
}

fn begins_with(line: &Vec<char>, prefix: &Vec<char>) -> (r: bool)
    ensures
        r == starts_with(line@, prefix@),
{
    if line.len() < prefix.len() {
        return false;
    }
    let mut i: usize = 0;
    while i < prefix.len()
        invariant
            prefix@.len() <= line@.len(),
            i <= prefix@.len(),
            forall|j: int| 0 <= j < i ==> line@[j] == prefix@[j],
        decreases prefix@.len() - i,
    {
        if line[i] != prefix[i] {
            assert(line@.take(prefix@.len() as int)[i as int] != prefix@[i as int]);
            return false;
        }
        i = i + 1;
    }
    assert(line@.take(prefix@.len() as int) =~= prefix@);
    true
}

/// The resident memory, in bytes, in a `/proc/<pid>/status` text.
pub fn parse_resident_memory(status: &str) -> (r: Option<usize>)
    ensures
        match resident_memory(status@) {
            Some(m) => r == Some(m as usize),
            None => r is None,
        },
{
    let chars = chars_of(status);
    let all = split_lines(&chars);
    let prefix = chars_of("VmRSS:");
    let ghost ls = all@.map_values(|l: Vec<char>| l@);
    let mut i: usize = 0;
    assert(ls.skip(0) =~= ls);
    while i < all.len()
        invariant
            ls == all@.map_values(|l: Vec<char>| l@),
            ls == lines(status@),
            prefix@ == "VmRSS:"@,
            i <= all@.len(),
            first_line_starting(ls, "VmRSS:"@) == first_line_starting(ls.skip(i as int), "VmRSS:"@),
        decreases all@.len() - i,
    {
        assert(ls.skip(i as int).drop_first() =~= ls.skip(i + 1));
        assert(ls.skip(i as int)[0] == all@[i as int]@);
        if begins_with(&all[i], &prefix) {
            let fields = split_words(&all[i], 0);
            assert(all@[i as int]@.skip(0) =~= all@[i as int]@);
            assert(fields@.map_values(|w: Vec<char>| w@).len() == fields@.len());
            if fields.len() <= 1 {
                return None;
            }
            assert(fields@.map_values(|w: Vec<char>| w@)[1] == fields@[1]@);
            let kib = match parse_unsigned_exec(&fields[1], usize::MAX as u64) {
                Some(v) => v as usize,
                None => return None,
            };
            if kib <= usize::MAX / 1024 {
                return Some(kib * 1024);
            }
            return Some(usize::MAX);
        }
        i = i + 1;
    }
    assert(ls.skip(i as int) =~= Seq::<Seq<char>>::empty());
    None
}

/// How a chunk is listed: `#` and its number counted from one.
pub open spec fn slot_text(seq_num: u64) -> Seq<char> {
    "#"@ + decimal((seq_num + 1) as nat)
}

/// The text of a chunk list: "--" when empty; otherwise the first `visible`
/// chunks, and `+` with the number of the others when some are left out,
/// separated by spaces.
pub open spec fn chunk_slots_text(chunks: Seq<u64>, visible: nat) -> Seq<char> {
    if chunks.len() == 0 {
        "--"@
    } else {
        let shown = if visible <= chunks.len() { visible } else { chunks.len() };
        let parts = Seq::new(shown, |i: int| slot_text(chunks[i]));
        joined(
            if chunks.len() > visible {
                parts.push("+"@ + decimal((chunks.len() - visible) as nat))
            } else {
                parts
            },
            " "@,
        )
    }
}

/// Lists `chunks` for the dashboard, at most `visible` of them by number.
pub fn format_chunk_slots(chunks: &[u64], visible: usize) -> (r: String)
    requires
        forall|i: int| 0 <= i < chunks@.len() ==> chunks@[i] < u64::MAX,
    ensures
        r@ == chunk_slots_text(chunks@, visible as nat),
{
    if chunks.len() == 0 {
        return String::from_str("--");
    }
    let shown = if visible <= chunks.len() { visible } else { chunks.len() };
    let ghost parts = Seq::new(shown as nat, |i: int| slot_text(chunks@[i]));
    let mut out = String::new();
    let mut i: usize = 0;
    while i < shown
        invariant
            shown <= chunks@.len(),
            i <= shown,
            parts == Seq::new(shown as nat, |i: int| slot_text(chunks@[i])),
            forall|j: int| 0 <= j < chunks@.len() ==> chunks@[j] < u64::MAX,
            out@ == joined(parts.take(i as int), " "@),
        decreases shown - i,
    {
        let ghost before = out@;
        if i > 0 {
            out.append(" ");
        }
        out.append("#");
        append_decimal(&mut out, chunks[i] + 1);
        proof {
            let taken = parts.take(i + 1);
            assert(taken.drop_last() =~= parts.take(i as int));
            if i == 0 {
                assert(out@ =~= taken[0]);
            } else {
                assert(out@ =~= joined(taken.drop_last(), " "@) + " "@ + taken.last());
            }
        }
        i = i + 1;
    }
    assert(parts.take(shown as int) =~= parts);
    if chunks.len() > visible {
        let ghost before = out@;
        let ghost all = parts.push("+"@ + decimal((chunks@.len() - visible) as nat));
        assert(all.drop_last() =~= parts);
        if shown > 0 {
            out.append(" ");
        }
        out.append("+");
        append_decimal(&mut out, (chunks.len() - visible) as u64);
        proof {
            if shown == 0 {
                assert(parts =~= Seq::<Seq<char>>::empty());
                assert(out@ =~= all[0]);
            } else {
                assert(out@ =~= joined(all.drop_last(), " "@) + " "@ + all.last());
            }
        }
    }
    out
}

} // verus!

verus! {

/// A terminal size read from two numbers, columns first.
pub open spec fn size_pair(cols: Option<nat>, rows: Option<nat>) -> Option<(u16, u16)> {
    match (cols, rows) {
        (Some(c), Some(r)) => Some((c as u16, r as u16)),
        _ => None,
    }
}

/// The size that `COLUMNS` and `LINES` give.
pub open spec fn size_from_env(cols: Seq<char>, rows: Seq<char>) -> Option<(u16, u16)> {
    size_pair(parse_unsigned(cols, u16::MAX as nat), parse_unsigned(rows, u16::MAX as nat))
}

/// The size that `stty size` prints: exactly two words, rows then columns,
/// both positive.
pub open spec fn size_from_stty(output: Seq<char>) -> Option<(u16, u16)> {
    let parts = words(output);
    if parts.len() == 2 {
        match (parse_unsigned(parts[0], u16::MAX as nat), parse_unsigned(parts[1], u16::MAX as nat)) {
            (Some(rows), Some(cols)) => if cols > 0 && rows > 0 {
                Some((cols as u16, rows as u16))
            } else {
                None
            },
            _ => None,
        }
    } else {
        None
    }
}

/// The number in a text that is one word once surrounding white space is
/// trimmed.
pub open spec fn trimmed_number(text: Seq<char>) -> Option<nat> {
    let parts = words(text);
    if parts.len() == 1 {
        parse_unsigned(parts[0], u16::MAX as nat)
    } else {
        None
    }
}

/// The size that `tput cols` and `tput lines` print, both positive.
pub open spec fn size_from_tput(cols: Seq<char>, lines: Seq<char>) -> Option<(u16, u16)> {
    match (trimmed_number(cols), trimmed_number(lines)) {
        (Some(c), Some(r)) => if c > 0 && r > 0 {
            Some((c as u16, r as u16))
        } else {
            None
        },
        _ => None,
    }
}

/// The size readers read back what the terminal tools print: `stty size`
/// prints the rows, a space and the columns, with or without a newline;
/// `tput cols` and `tput lines` print one number each; `COLUMNS` and
/// `LINES` hold one number each. Each gives the columns first and the rows
/// second, as printed.
pub proof fn lemma_terminal_size_reads_back(cols: nat, rows: nat)
    requires
        cols <= u16::MAX,
        rows <= u16::MAX,
    ensures
        cols > 0 && rows > 0 ==> size_from_stty(decimal(rows).push(' ') + decimal(cols)) == Some(
            (cols as u16, rows as u16),
        ),
        cols > 0 && rows > 0 ==> size_from_stty((decimal(rows).push(' ') + decimal(cols)).push(
            '\n',
        )) == Some((cols as u16, rows as u16)),
        cols > 0 && rows > 0 ==> size_from_tput(decimal(cols), decimal(rows)) == Some(
            (cols as u16, rows as u16),
        ),
        cols > 0 && rows > 0 ==> size_from_tput(decimal(cols).push('\n'), decimal(rows).push('\n'))
            == Some((cols as u16, rows as u16)),
        size_from_env(decimal(cols), decimal(rows)) == Some((cols as u16, rows as u16)),
{
    let c = decimal(cols);
    let r = decimal(rows);
    lemma_decimal_reads_back(cols, u16::MAX as nat);
    lemma_decimal_reads_back(rows, u16::MAX as nat);
    lemma_digits_spaceless(c);
    lemma_digits_spaceless(r);
    assert(crate::text::is_space(' '));
    assert(crate::text::is_space('\n'));
    lemma_two_words(r, c, ' ', '\n');
    lemma_words_hold_no_space(c);
    lemma_words_hold_no_space(r);
    lemma_one_word_line(c);
    lemma_one_word_line(r);
}

/// A word followed by a newline reads as that word.
proof fn lemma_one_word_line(d: Seq<char>)
    requires
        crate::text::spaceless(d),
        d.len() > 0,
    ensures
        words(d.push('\n')) == seq![d],
{
    lemma_words_hold_no_space(d);
    assert(d.push('\n').drop_last() =~= d);
    assert(crate::text::is_space('\n'));
    assert(crate::text::scan_words(d) == (Seq::<Seq<char>>::empty(), d)) by {
        crate::text::lemma_scan_of_spaceless(d);
    }
    assert(Seq::<Seq<char>>::empty().push(d) =~= seq![d]);
}

fn parse_u16(w: &Vec<char>) -> (r: Option<u16>)
    ensures
        match parse_unsigned(w@, u16::MAX as nat) {
            Some(v) => r == Some(v as u16),
            None => r is None,
        },
{
    match parse_unsigned_exec(w, u16::MAX as u64) {
        Some(v) => Some(v as u16),
        None => None,
    }
}

/// Reads the terminal size from the values of `COLUMNS` and `LINES`.
pub fn parse_env_size(cols: &str, rows: &str) -> (r: Option<(u16, u16)>)
    ensures
        r == size_from_env(cols@, rows@),
{
    let c = parse_u16(&chars_of(cols));
    let r = parse_u16(&chars_of(rows));
    match (c, r) {
        (Some(c), Some(r)) => Some((c, r)),
        _ => None,
    }
}

/// Reads the terminal size from what `stty size` printed.
pub fn parse_stty_size(output: &str) -> (r: Option<(u16, u16)>)
    ensures
        r == size_from_stty(output@),
{
    let chars = chars_of(output);
    let parts = split_words(&chars, 0);
    assert(chars@.skip(0) =~= chars@);
    let ghost ws = words(output@);
    assert(ws.len() == parts@.len());
    if parts.len() != 2 {
        return None;
    }
    assert(ws[0] == parts@[0]@ && ws[1] == parts@[1]@);
    match (parse_u16(&parts[0]), parse_u16(&parts[1])) {
        (Some(rows), Some(cols)) => if cols > 0 && rows > 0 {
            Some((cols, rows))
        } else {
            None
        },
        _ => None,
    }
}

fn trimmed_u16(text: &str) -> (r: Option<u16>)
    ensures
        match trimmed_number(text@) {
            Some(v) => r == Some(v as u16) && v <= u16::MAX,
            None => r is None,
        },
{
    let chars = chars_of(text);
    let parts = split_words(&chars, 0);
    assert(chars@.skip(0) =~= chars@);
    let ghost ws = words(text@);
    assert(ws.len() == parts@.len());
    if parts.len() != 1 {
        return None;
    }
    assert(ws[0] == parts@[0]@);
    parse_u16(&parts[0])
}

/// Reads the terminal size from what `tput cols` and `tput lines` printed.
pub fn parse_tput_size(cols: &str, lines: &str) -> (r: Option<(u16, u16)>)
    ensures
        r == size_from_tput(cols@, lines@),
{
    match (trimmed_u16(cols), trimmed_u16(lines)) {
        (Some(c), Some(r)) => if c > 0 && r > 0 {
            Some((c, r))
        } else {
            None
        },
        _ => None,
    }
}

} // verus!

verus! {

/// The job's status as the dashboard header names it.
pub open spec fn status_text(is_paused: bool, is_complete: bool) -> Seq<char> {
    if is_paused {
        "PAUSED"@
    } else if is_complete {
        "COMPLETE"@
    } else {
        "RUNNING"@
    }
}

/// The job's status: paused wins over complete, otherwise running.
pub fn status_label(is_paused: bool, is_complete: bool) -> (r: &'static str)
    ensures
        r@ == status_text(is_paused, is_complete),
{
    if is_paused {
        "PAUSED"
    } else if is_complete {
        "COMPLETE"
    } else {
        "RUNNING"
    }
}

/// `digits` with zeros in front up to `width` characters.
pub open spec fn zero_padded(digits: Seq<char>, width: nat) -> Seq<char> {
    if digits.len() >= width {
        digits
    } else {
        Seq::new((width - digits.len()) as nat, |i: int| '0') + digits
    }
}

/// How a worker card names its chunk: `C` and the chunk's number counted
/// from one, at least three digits; `C---` when it has none.
pub open spec fn chunk_label_text(chunk: Option<u64>) -> Seq<char> {
    match chunk {
        Some(seq_num) => "C"@ + zero_padded(decimal((seq_num + 1) as nat), 3),
        None => "C---"@,
    }
}

pub fn chunk_label(chunk: Option<u64>) -> (r: String)
    requires
        chunk matches Some(seq_num) ==> seq_num < u64::MAX,
    ensures
        r@ == chunk_label_text(chunk),
{
    match chunk {
        None => String::from_str("C---"),
        Some(seq_num) => {
            let digits = decimal_string(seq_num + 1);
            let mut r = String::from_str("C");
            let ghost d = digits@;
            let mut pad: usize = digits.unicode_len();
            let ghost mut zeros: Seq<char> = Seq::empty();
            while pad < 3
                invariant
                    r@ == "C"@ + zeros,
                    zeros == Seq::new(zeros.len(), |i: int| '0'),
                    pad == d.len() + zeros.len(),
                    pad <= 3 || zeros.len() == 0,
                decreases 3 - pad,
            {
                r.append("0");
                proof {
                    reveal_strlit("0");
                    assert(r@ == "C"@ + zeros + seq!['0']);
                    zeros = zeros.push('0');
                    assert(r@ =~= "C"@ + zeros);
                    assert(zeros =~= Seq::new(zeros.len(), |i: int| '0'));
                }
                pad = pad + 1;
            }
            r.append(digits.as_str());
            proof {
                if d.len() < 3 {
                    assert(zeros =~= Seq::new((3 - d.len()) as nat, |i: int| '0'));
                } else {
                    assert(zeros.len() == 0);
                    assert(zeros + d =~= d);
                }
            }
            r
        },
    }
}

/// Zeros in front of digits change neither that they are digits nor their
/// value.
proof fn lemma_leading_zeros(d: Seq<char>, zeros: nat)
    requires
        all_digits(d),
    ensures
        all_digits(zero_padded(d, zeros)),
        digits_value(zero_padded(d, zeros)) == digits_value(d),
        zero_padded(d, zeros).len() >= zeros,
        zero_padded(d, zeros).len() >= d.len(),
{
    if d.len() < zeros {
        let z = Seq::new((zeros - d.len()) as nat, |i: int| '0');
        lemma_zeros_then_digits(z, d);
    }
}

proof fn lemma_zeros_then_digits(z: Seq<char>, d: Seq<char>)
    requires
        forall|i: int| 0 <= i < z.len() ==> #[trigger] z[i] == '0',
        all_digits(d),
    ensures
        all_digits(z + d),
        digits_value(z + d) == digits_value(d),
    decreases d.len(),
{
    assert forall|i: int| 0 <= i < (z + d).len() implies crate::text::is_digit(#[trigger] (z + d)[i]) by {
        if i < z.len() {
            assert((z + d)[i] == '0');
        } else {
            assert((z + d)[i] == d[i - z.len()]);
        }
    }
    if d.len() == 0 {
        assert(z + d =~= z);
        lemma_zeros_value(z);
    } else {
        let rest = d.drop_last();
        assert(all_digits(rest)) by {
            assert forall|i: int| 0 <= i < rest.len() implies crate::text::is_digit(#[trigger] rest[i]) by {
                assert(rest[i] == d[i]);
            }
        }
        lemma_zeros_then_digits(z, rest);
        assert((z + d).drop_last() =~= z + rest);
        assert((z + d).last() == d.last());
    }
}

proof fn lemma_zeros_value(z: Seq<char>)
    requires
        forall|i: int| 0 <= i < z.len() ==> #[trigger] z[i] == '0',
    ensures
        digits_value(z) == 0,
    decreases z.len(),
{
    if z.len() > 0 {
        let rest = z.drop_last();
        assert forall|i: int| 0 <= i < rest.len() implies #[trigger] rest[i] == '0' by {
            assert(rest[i] == z[i]);
        }
        lemma_zeros_value(rest);
        assert(z.last() == '0');
        assert(('0' as u32) == 48);
    }
}

/// The dashboard counts chunks from one: the digits of a worker's chunk
/// label (after `C`, at least three), of a listed chunk (after `#`) and of
/// the chunk the writer waits for (after `  N #`) read as the chunk's
/// number plus one.
pub proof fn lemma_labels_count_from_one(seq_num: u64)
    requires
        seq_num < u64::MAX,
    ensures
        ({
            let label = chunk_label_text(Some(seq_num));
            &&& label.len() >= 4 && label[0] == 'C'
            &&& all_digits(label.skip(1)) && digits_value(label.skip(1)) == seq_num + 1
        }),
        ({
            let slot = slot_text(seq_num);
            &&& slot[0] == '#' && all_digits(slot.skip(1)) && digits_value(slot.skip(1)) == seq_num
                + 1
        }),
        ({
            let next = next_chunk_text(seq_num);
            &&& next.take(5) == "  N #"@ && all_digits(next.skip(5)) && digits_value(next.skip(5))
                == seq_num + 1
        }),
{
    reveal_strlit("C");
    reveal_strlit("#");
    reveal_strlit("  N #");
    let n = (seq_num + 1) as nat;
    let d = decimal(n);
    lemma_decimal_reads_back(n, 0);
    lemma_leading_zeros(d, 3);
    assert(chunk_label_text(Some(seq_num)).skip(1) =~= zero_padded(d, 3));
    assert(slot_text(seq_num).skip(1) =~= d);
    assert(next_chunk_text(seq_num).skip(5) =~= d);
    assert(next_chunk_text(seq_num).take(5) =~= "  N #"@);
}

/// The input queue's fill as the stream panel shows it: ` (depth/capacity)`.
pub open spec fn queue_fill_text(depth: usize, capacity: usize) -> Seq<char> {
    " ("@ + decimal(depth as nat) + "/"@ + decimal(capacity as nat) + ")"@
}

pub fn queue_fill_label(depth: usize, capacity: usize) -> (r: String)
    ensures
        r@ == queue_fill_text(depth, capacity),
{
    let mut r = String::from_str(" (");
    append_decimal(&mut r, depth as u64);
    r.append("/");
    append_decimal(&mut r, capacity as u64);
    r.append(")");
    r
}

/// The chunk the writer waits for, counted from one: `  N #n`.
pub open spec fn next_chunk_text(next_expected_seq: u64) -> Seq<char> {
    "  N #"@ + decimal((next_expected_seq + 1) as nat)
}

pub fn next_chunk_label(next_expected_seq: u64) -> (r: String)
    requires
        next_expected_seq < u64::MAX,
    ensures
        r@ == next_chunk_text(next_expected_seq),
{
    let mut r = String::from_str("  N #");
    append_decimal(&mut r, next_expected_seq + 1);
    r
}

} // verus!

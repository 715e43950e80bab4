//! Small pieces of text handling: decimal numbers, words and lines.
use vstd::prelude::*;
use vstd::string::*;

verus! {

broadcast use vstd::string::group_string_axioms;

/// The characters of `s`, in order.
pub fn chars_of(s: &str) -> (r: Vec<char>)
    ensures
        r@ == s@,
{
    let mut v: Vec<char> = Vec::new();
    for c in it: s.chars()
        invariant
            v@ == it.seq().take(it.index() as int),
            it.seq() == s@,
    {
        v.push(c);
    }
    v
}

/// The character of the decimal digit `d` (0 to 9).
pub open spec fn digit_char(d: nat) -> char {
    (48 + d) as char
}

/// The decimal notation of `n`, without leading zeros.
pub open spec fn decimal(n: nat) -> Seq<char>
    decreases n,
{
    if n < 10 {
        seq![digit_char(n)]
    } else {
        decimal(n / 10).push(digit_char(n % 10))
    }
}

fn digit_text(d: u64) -> (r: &'static str)
    requires
        d < 10,
    ensures
        r@ == seq![digit_char(d as nat)],
{
    proof {
        reveal_strlit("0");
        reveal_strlit("1");
        reveal_strlit("2");
        reveal_strlit("3");
        reveal_strlit("4");
        reveal_strlit("5");
        reveal_strlit("6");
        reveal_strlit("7");
        reveal_strlit("8");
        reveal_strlit("9");
    }
    match d {
        0 => "0",
        1 => "1",
        2 => "2",
        3 => "3",
        4 => "4",
        5 => "5",
        6 => "6",
        7 => "7",
        8 => "8",
        _ => "9",
    }
}

/// Appends the decimal notation of `n` to `s`.
pub fn append_decimal(s: &mut String, n: u64)
    ensures
        final(s)@ == old(s)@ + decimal(n as nat),
    decreases n,
{
    if n >= 10 {
        append_decimal(s, n / 10);
    }
    s.append(digit_text(n % 10));
    proof {
        if n >= 10 {
            assert(decimal(n as nat) == decimal((n / 10) as nat).push(digit_char((n % 10) as nat)));
        }
    }
}

/// The decimal notation of `n`.
pub fn decimal_string(n: u64) -> (r: String)
    ensures
        r@ == decimal(n as nat),
{
    let mut s = String::new();
    append_decimal(&mut s, n);
    assert(s@ =~= decimal(n as nat));
    s
}

/// `parts` joined with `separator` between each two.
pub open spec fn joined(parts: Seq<Seq<char>>, separator: Seq<char>) -> Seq<char>
    decreases parts.len(),
{
    if parts.len() == 0 {
        Seq::empty()
    } else if parts.len() == 1 {
        parts[0]
    } else {
        joined(parts.drop_last(), separator) + separator + parts.last()
    }
}

/// A white-space character in Unicode's sense, as `char::is_whitespace`
/// documents it.
pub open spec fn is_space(c: char) -> bool {
    let u = c as u32;
    ||| 9 <= u <= 13
    ||| u == 32
    ||| u == 0x85
    ||| u == 0xA0
    ||| u == 0x1680
    ||| 0x2000 <= u <= 0x200A
    ||| u == 0x2028
    ||| u == 0x2029
    ||| u == 0x202F
    ||| u == 0x205F
    ||| u == 0x3000
}

pub fn is_space_char(c: char) -> (r: bool)
    ensures
        r == is_space(c),
{
    let u = c as u32;
    (9 <= u && u <= 13) || u == 32 || u == 0x85 || u == 0xA0 || u == 0x1680 || (0x2000 <= u && u
        <= 0x200A) || u == 0x2028 || u == 0x2029 || u == 0x202F || u == 0x205F || u == 0x3000
}

/// Words finished so far, and the word being read, after reading `s`.
pub open spec fn scan_words(s: Seq<char>) -> (Seq<Seq<char>>, Seq<char>)
    decreases s.len(),
{
    if s.len() == 0 {
        (Seq::empty(), Seq::empty())
    } else {
        let (done, current) = scan_words(s.drop_last());
        let c = s.last();
        if is_space(c) {
            if current.len() > 0 {
                (done.push(current), Seq::empty())
            } else {
                (done, current)
            }
        } else {
            (done, current.push(c))
        }
    }
}

/// The maximal runs of non-white-space characters of `s`, in order, as
/// `str::split_whitespace` gives them.
pub open spec fn words(s: Seq<char>) -> Seq<Seq<char>> {
    let (done, current) = scan_words(s);
    if current.len() > 0 {
        done.push(current)
    } else {
        done
    }
}

/// No white space in `w`.
pub open spec fn spaceless(w: Seq<char>) -> bool {
    forall|j: int| 0 <= j < w.len() ==> !is_space(#[trigger] w[j])
}

proof fn lemma_scan_words_spaceless(s: Seq<char>)
    ensures
        forall|i: int|
            0 <= i < scan_words(s).0.len() ==> (#[trigger] scan_words(s).0[i]).len() > 0
                && spaceless(scan_words(s).0[i]),
        spaceless(scan_words(s).1),
    decreases s.len(),
{
    if s.len() > 0 {
        lemma_scan_words_spaceless(s.drop_last());
        let (done, current) = scan_words(s.drop_last());
        let c = s.last();
        if !is_space(c) {
            let grown = current.push(c);
            assert forall|j: int| 0 <= j < grown.len() implies !is_space(#[trigger] grown[j]) by {
                if j < current.len() {
                    assert(grown[j] == current[j]);
                }
            }
        }
    }
}

/// Words are what white space separates: every word is non-empty and holds
/// no white space, and a text without white space is a single word (or no
/// word when it is empty).
pub proof fn lemma_words_hold_no_space(s: Seq<char>)
    ensures
        forall|i: int|
            0 <= i < words(s).len() ==> (#[trigger] words(s)[i]).len() > 0 && spaceless(
                words(s)[i],
            ),
        spaceless(s) && s.len() > 0 ==> words(s) == seq![s],
        spaceless(s) && s.len() == 0 ==> words(s).len() == 0,
{
    lemma_scan_words_spaceless(s);
    if spaceless(s) {
        lemma_scan_of_spaceless(s);
    }
}

/// A text without white space is read as one word still being read.
pub proof fn lemma_scan_of_spaceless(s: Seq<char>)
    requires
        spaceless(s),
    ensures
        scan_words(s) == (Seq::<Seq<char>>::empty(), s),
    decreases s.len(),
{
    if s.len() > 0 {
        let rest = s.drop_last();
        assert(spaceless(rest)) by {
            assert forall|j: int| 0 <= j < rest.len() implies !is_space(#[trigger] rest[j]) by {
                assert(rest[j] == s[j]);
            }
        }
        lemma_scan_of_spaceless(rest);
        assert(!is_space(s[s.len() - 1]));
        assert(rest.push(s.last()) =~= s);
    }
}

/// Decimal digits are no white space.
pub proof fn lemma_digits_spaceless(d: Seq<char>)
    requires
        all_digits(d),
    ensures
        spaceless(d),
{
    assert forall|j: int| 0 <= j < d.len() implies !is_space(#[trigger] d[j]) by {
        assert(is_digit(d[j]));
    }
}

/// Reading on through characters that are no white space only extends the
/// word being read.
proof fn lemma_scan_words_extend(p: Seq<char>, q: Seq<char>)
    requires
        spaceless(q),
    ensures
        scan_words(p + q) == (scan_words(p).0, scan_words(p).1 + q),
    decreases q.len(),
{
    if q.len() == 0 {
        assert(p + q =~= p);
        assert(scan_words(p).1 + q =~= scan_words(p).1);
    } else {
        let rest = q.drop_last();
        assert(spaceless(rest)) by {
            assert forall|j: int| 0 <= j < rest.len() implies !is_space(#[trigger] rest[j]) by {
                assert(rest[j] == q[j]);
            }
        }
        lemma_scan_words_extend(p, rest);
        assert((p + q).drop_last() =~= p + rest);
        assert((p + q).last() == q[q.len() - 1]);
        assert(!is_space(q[q.len() - 1]));
        assert((scan_words(p).1 + rest).push(q.last()) =~= scan_words(p).1 + q);
    }
}

/// Two words with a space between them, and white space after, read as
/// those two words.
pub proof fn lemma_two_words(a: Seq<char>, b: Seq<char>, gap: char, end: char)
    requires
        spaceless(a),
        spaceless(b),
        a.len() > 0,
        b.len() > 0,
        is_space(gap),
        is_space(end),
    ensures
        words(a.push(gap) + b) == seq![a, b],
        words((a.push(gap) + b).push(end)) == seq![a, b],
{
    lemma_scan_of_spaceless(a);
    assert(a.push(gap).drop_last() =~= a);
    assert(scan_words(a.push(gap)) == (seq![a], Seq::<char>::empty()));
    lemma_scan_words_extend(a.push(gap), b);
    assert(Seq::<char>::empty() + b =~= b);
    let t = a.push(gap) + b;
    assert(scan_words(t) == (seq![a], b));
    assert(seq![a].push(b) =~= seq![a, b]);
    assert(t.push(end).drop_last() =~= t);
    assert(scan_words(t.push(end)) == (seq![a].push(b), Seq::<char>::empty()));
}

/// The words of `chars` from index `from` on.
pub fn split_words(chars: &Vec<char>, from: usize) -> (r: Vec<Vec<char>>)
    requires
        from <= chars@.len(),
    ensures
        r@.map_values(|w: Vec<char>| w@) == words(chars@.skip(from as int)),
{
    let ghost text = chars@.skip(from as int);
    let mut done: Vec<Vec<char>> = Vec::new();
    let mut current: Vec<char> = Vec::new();
    let mut i = from;
    while i < chars.len()
        invariant
            from <= i <= chars@.len(),
            text == chars@.skip(from as int),
            (done@.map_values(|w: Vec<char>| w@), current@) == scan_words(
                text.take((i - from) as int),
            ),
        decreases chars@.len() - i,
    {
        let c = chars[i];
        let ghost before = text.take((i - from) as int);
        assert(text.take((i + 1 - from) as int).drop_last() =~= before);
        assert(text.take((i + 1 - from) as int).last() == c);
        if is_space_char(c) {
            if current.len() > 0 {
                let ghost finished = current@;
                let word = current;
                done.push(word);
                current = Vec::new();
                assert(done@.map_values(|w: Vec<char>| w@) =~= scan_words(before).0.push(finished));
                assert(current@ =~= Seq::<char>::empty());
            }
        } else {
            current.push(c);
        }
        i = i + 1;
    }
    assert(text.take((i - from) as int) =~= text);
    if current.len() > 0 {
        let ghost last = current@;
        let ghost before = done@.map_values(|w: Vec<char>| w@);
        done.push(current);
        assert(done@.map_values(|w: Vec<char>| w@) =~= before.push(last));
    }
    done
}

/// The value of a run of decimal digits.
pub open spec fn digits_value(d: Seq<char>) -> nat
    decreases d.len(),
{
    if d.len() == 0 {
        0
    } else {
        digits_value(d.drop_last()) * 10 + ((d.last() as u32) - 48) as nat
    }
}

pub open spec fn is_digit(c: char) -> bool {
    48 <= (c as u32) <= 57
}

/// `w` without one leading `+`.
pub open spec fn unsigned_digits(w: Seq<char>) -> Seq<char> {
    if w.len() > 0 && w[0] == '+' {
        w.drop_first()
    } else {
        w
    }
}

pub open spec fn all_digits(d: Seq<char>) -> bool {
    forall|i: int| 0 <= i < d.len() ==> is_digit(#[trigger] d[i])
}

/// What an unsigned integer type's `from_str` reads from `w`: an optional
/// `+` and at least one decimal digit, whose value must not exceed `max`.
pub open spec fn parse_unsigned(w: Seq<char>, max: nat) -> Option<nat> {
    let d = unsigned_digits(w);
    if d.len() > 0 && all_digits(d) && digits_value(d) <= max {
        Some(digits_value(d))
    } else {
        None
    }
}

/// Reads an unsigned decimal number not above `max` from `w`.
pub fn parse_unsigned_exec(w: &Vec<char>, max: u64) -> (r: Option<u64>)
    ensures
        match parse_unsigned(w@, max as nat) {
            Some(v) => r == Some(v as u64),
            None => r is None,
        },
{
    let start: usize = if w.len() > 0 && w[0] == '+' { 1 } else { 0 };
    let ghost d = unsigned_digits(w@);
    assert(d =~= w@.skip(start as int));
    if start >= w.len() {
        return None;
    }
    let cap: u128 = max as u128 + 1;
    let mut value: u128 = 0;
    let mut i = start;
    while i < w.len()
        invariant
            start <= i <= w@.len(),
            d == w@.skip(start as int),
            d == unsigned_digits(w@),
            cap == max + 1,
            forall|j: int| 0 <= j < i - start ==> is_digit(#[trigger] d[j]),
            value == if digits_value(d.take(i - start)) < cap {
                digits_value(d.take(i - start))
            } else {
                cap as nat
            },
        decreases w@.len() - i,
    {
        let c = w[i];
        if !(48 <= (c as u32) && (c as u32) <= 57) {
            assert(d[i - start] == c);
            assert(!is_digit(d[i - start]));
            assert(!all_digits(d));
            return None;
        }
        let ghost prefix = d.take(i - start);
        assert(d.take(i + 1 - start).drop_last() =~= prefix);
        assert(d.take(i + 1 - start).last() == c);
        let digit = (c as u32 - 48) as u128;
        let next = value * 10 + digit;
        value = if next < cap { next } else { cap };
        i = i + 1;
    }
    assert(d.take(i - start) =~= d);
    if value < cap {
        Some(value as u64)
    } else {
        None
    }
}

/// Lines finished so far, and the line being read, after reading `s`: a
/// line ends at a newline, which is dropped together with a carriage
/// return just before it.
pub open spec fn scan_lines(s: Seq<char>) -> (Seq<Seq<char>>, Seq<char>)
    decreases s.len(),
{
    if s.len() == 0 {
        (Seq::empty(), Seq::empty())
    } else {
        let (done, current) = scan_lines(s.drop_last());
        if s.last() == '\n' {
            (done.push(without_carriage_return(current)), Seq::empty())
        } else {
            (done, current.push(s.last()))
        }
    }
}

pub open spec fn without_carriage_return(line: Seq<char>) -> Seq<char> {
    if line.len() > 0 && line.last() == '\r' {
        line.drop_last()
    } else {
        line
    }
}

/// The lines of `s` as `str::lines` gives them: the last one need not end
/// with a newline, and no empty line follows a final newline.
pub open spec fn lines(s: Seq<char>) -> Seq<Seq<char>> {
    let (done, current) = scan_lines(s);
    if current.len() > 0 {
        done.push(current)
    } else {
        done
    }
}

/// No newline in `l`.
pub open spec fn single_line(l: Seq<char>) -> bool {
    forall|j: int| 0 <= j < l.len() ==> #[trigger] l[j] != '\n'
}

proof fn lemma_scan_lines_single(s: Seq<char>)
    ensures
        forall|i: int| 0 <= i < scan_lines(s).0.len() ==> single_line(#[trigger] scan_lines(s).0[i]),
        single_line(scan_lines(s).1),
    decreases s.len(),
{
    if s.len() > 0 {
        lemma_scan_lines_single(s.drop_last());
        let (done, current) = scan_lines(s.drop_last());
        let c = s.last();
        if c == '\n' {
            let l = without_carriage_return(current);
            assert forall|j: int| 0 <= j < l.len() implies #[trigger] l[j] != '\n' by {
                assert(l[j] == current[j]);
            }
        } else {
            let grown = current.push(c);
            assert forall|j: int| 0 <= j < grown.len() implies #[trigger] grown[j] != '\n' by {
                if j < current.len() {
                    assert(grown[j] == current[j]);
                }
            }
        }
    }
}

/// Lines are what newlines separate: no line holds a newline.
pub proof fn lemma_lines_hold_no_newline(s: Seq<char>)
    ensures
        forall|i: int| 0 <= i < lines(s).len() ==> single_line(#[trigger] lines(s)[i]),
{
    lemma_scan_lines_single(s);
}

/// The lines of `chars`.
pub fn split_lines(chars: &Vec<char>) -> (r: Vec<Vec<char>>)
    ensures
        r@.map_values(|l: Vec<char>| l@) == lines(chars@),
{
    let mut done: Vec<Vec<char>> = Vec::new();
    let mut current: Vec<char> = Vec::new();
    let mut i: usize = 0;
    while i < chars.len()
        invariant
            i <= chars@.len(),
            (done@.map_values(|l: Vec<char>| l@), current@) == scan_lines(chars@.take(i as int)),
        decreases chars@.len() - i,
    {
        let c = chars[i];
        let ghost before = chars@.take(i as int);
        assert(chars@.take(i + 1).drop_last() =~= before);
        assert(chars@.take(i + 1).last() == c);
        if c == '\n' {
            let ghost finished = without_carriage_return(current@);
            if current.len() > 0 && current[current.len() - 1] == '\r' {
                current.pop();
            }
            assert(current@ == finished);
            let line = current;
            done.push(line);
            current = Vec::new();
            assert(done@.map_values(|l: Vec<char>| l@) =~= scan_lines(before).0.push(finished));
            assert(current@ =~= Seq::<char>::empty());
        } else {
            current.push(c);
        }
        i = i + 1;
    }
    assert(chars@.take(i as int) =~= chars@);
    if current.len() > 0 {
        let ghost last = current@;
        let ghost before = done@.map_values(|l: Vec<char>| l@);
        done.push(current);
        assert(done@.map_values(|l: Vec<char>| l@) =~= before.push(last));
    }
    done
}

/// Reading back a number written in decimal gives the number: the notation
/// is a non-empty run of digits with no leading `+`, its value is the
/// number, and so the unsigned reader returns it for any bound it does not
/// exceed and refuses it for a smaller bound.
pub proof fn lemma_decimal_reads_back(n: nat, max: nat)
    ensures
        decimal(n).len() > 0,
        all_digits(decimal(n)),
        digits_value(decimal(n)) == n,
        parse_unsigned(decimal(n), max) == (if n <= max {
            Some(n)
        } else {
            None::<nat>
        }),
    decreases n,
{
    let d = decimal(n);
    if n < 10 {
        assert(d.drop_last() =~= Seq::<char>::empty());
        assert(d.last() == digit_char(n));
        assert((digit_char(n) as u32) == 48 + n);
        assert(d.len() == 1);
        assert(digits_value(d.drop_last()) == 0);
        assert(digits_value(d) == digits_value(d.drop_last()) * 10 + ((d.last() as u32) - 48) as nat);
    } else {
        lemma_decimal_reads_back(n / 10, max);
        assert(d.drop_last() =~= decimal(n / 10));
        assert(d.last() == digit_char(n % 10));
        assert((digit_char(n % 10) as u32) == 48 + n % 10);
        assert((n / 10) * 10 + n % 10 == n);
        assert(digits_value(d) == digits_value(d.drop_last()) * 10 + ((d.last() as u32) - 48) as nat);
        assert(digits_value(d.drop_last()) == n / 10);
    }
    assert(decimal(n)[0] != '+');
    assert(unsigned_digits(decimal(n)) == decimal(n));
}

} // verus!

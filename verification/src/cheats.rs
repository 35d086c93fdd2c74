use vstd::prelude::*;

verus! {

/// A cheat: its name, its Action Replay DS code (pairs of words per code line)
/// and whether it runs.
pub struct Cheat {
    pub name: String,
    pub code: Vec<u32>,
    pub enabled: bool,
}

/// A cheat as plain values.
pub ghost struct CheatView {
    pub name: Seq<char>,
    pub code: Seq<u32>,
    pub enabled: bool,
}

impl Cheat {
    pub open spec fn view(&self) -> CheatView {
        CheatView { name: self.name@, code: self.code@, enabled: self.enabled }
    }
}

/// The cheats of a list as plain values.
pub open spec fn cheats_view(cs: Seq<Cheat>) -> Seq<CheatView> {
    Seq::new(cs.len(), |i: int| cs[i].view())
}

/// Unicode white space, as `char::is_whitespace` decides it.
pub open spec fn is_white(c: char) -> bool {
    let x = c as u32;
    ||| 0x09 <= x <= 0x0D
    ||| x == 0x20 || x == 0x85 || x == 0xA0 || x == 0x1680
    ||| 0x2000 <= x <= 0x200A
    ||| x == 0x2028 || x == 0x2029 || x == 0x202F || x == 0x205F || x == 0x3000
}

/// The text without its trailing white space.
pub open spec fn trim_end(s: Seq<char>) -> Seq<char>
    decreases s.len(),
{
    if s.len() > 0 && is_white(s.last()) {
        trim_end(s.drop_last())
    } else {
        s
    }
}

/// Index of the last occurrence of `c`, or -1.
pub open spec fn last_index_of(s: Seq<char>, c: char) -> int
    decreases s.len(),
{
    if s.len() == 0 {
        -1
    } else if s.last() == c {
        s.len() - 1
    } else {
        last_index_of(s.drop_last(), c)
    }
}

/// The text with its NUL characters taken out.
pub open spec fn remove_nul(s: Seq<char>) -> Seq<char>
    decreases s.len(),
{
    if s.len() == 0 {
        s
    } else if s.last() == '\0' {
        remove_nul(s.drop_last())
    } else {
        remove_nul(s.drop_last()).push(s.last())
    }
}

/// Whether `c` is a hexadecimal digit, either case.
pub open spec fn is_hex_digit(c: char) -> bool {
    ('0' <= c <= '9') || ('a' <= c <= 'f') || ('A' <= c <= 'F')
}

/// The value of a hexadecimal digit.
pub open spec fn hex_digit_value(c: char) -> int {
    if '0' <= c <= '9' {
        (c as u32) - ('0' as u32)
    } else if 'a' <= c <= 'f' {
        (c as u32) - ('a' as u32) + 10
    } else {
        (c as u32) - ('A' as u32) + 10
    }
}

/// The value of a string of hexadecimal digits, most significant first.
pub open spec fn hex_value(d: Seq<char>) -> int
    decreases d.len(),
{
    if d.len() == 0 {
        0
    } else {
        hex_value(d.drop_last()) * 16 + hex_digit_value(d.last())
    }
}

/// The digits of a number: the text without a leading `+`.
pub open spec fn hex_digits_of(w: Seq<char>) -> Seq<char> {
    if w.len() > 0 && w[0] == '+' { w.drop_first() } else { w }
}

/// Whether every character is a hexadecimal digit.
pub open spec fn all_hex(d: Seq<char>) -> bool {
    forall|i: int| 0 <= i < d.len() ==> is_hex_digit(#[trigger] d[i])
}

/// `u32::from_str_radix(w, 16)`: an optional `+`, then at least one hexadecimal
/// digit, with a value that fits.
pub open spec fn parse_hex(w: Seq<char>) -> Option<u32> {
    let d = hex_digits_of(w);
    if d.len() > 0 && all_hex(d) && hex_value(d) <= u32::MAX {
        Some(hex_value(d) as u32)
    } else {
        None
    }
}

/// Adds the value of a finished word, when it parses.
pub open spec fn flush_word(vals: Seq<u32>, word: Seq<char>) -> Seq<u32> {
    if word.len() > 0 {
        match parse_hex(word) {
            Some(v) => vals.push(v),
            None => vals,
        }
    } else {
        vals
    }
}

/// Splits a text at white space: the values of the words read so far and the
/// word being read.
pub open spec fn scan_words(s: Seq<char>) -> (Seq<u32>, Seq<char>)
    decreases s.len(),
{
    if s.len() == 0 {
        (Seq::empty(), Seq::empty())
    } else {
        let (vals, word) = scan_words(s.drop_last());
        if is_white(s.last()) {
            (flush_word(vals, word), Seq::empty())
        } else {
            (vals, word.push(s.last()))
        }
    }
}

/// The values of the white-space separated words of a line that parse as
/// hexadecimal numbers, in order.
pub open spec fn parse_words(s: Seq<char>) -> Seq<u32> {
    flush_word(scan_words(s).0, scan_words(s).1)
}

/// Takes one line: `[name]` starts a cheat (enabled when the line ends with
/// `+`; NUL characters are dropped from the name), any other line adds its hex
/// words to the last cheat, and lines before the first cheat are ignored.
pub open spec fn process_line(cs: Seq<CheatView>, raw: Seq<char>) -> Seq<CheatView> {
    let line = trim_end(raw);
    if line.len() > 0 && line[0] == '[' {
        let end = last_index_of(line, ']');
        if end < 0 {
            cs
        } else {
            cs.push(CheatView { name: remove_nul(line.subrange(1, end)), code: Seq::empty(), enabled: line.last() == '+' })
        }
    } else if cs.len() > 0 {
        let last = cs.last();
        cs.update(cs.len() - 1, CheatView { code: last.code + parse_words(line), ..last })
    } else {
        cs
    }
}

/// Reads a text line by line: the cheats so far and the line being read.
pub open spec fn scan_lines(s: Seq<char>) -> (Seq<CheatView>, Seq<char>)
    decreases s.len(),
{
    if s.len() == 0 {
        (Seq::empty(), Seq::empty())
    } else {
        let (cs, cur) = scan_lines(s.drop_last());
        if s.last() == '\n' {
            (process_line(cs, cur), Seq::empty())
        } else {
            (cs, cur.push(s.last()))
        }
    }
}

/// The cheats a `.cht` text describes.
pub open spec fn parse_cheats(s: Seq<char>) -> Seq<CheatView> {
    process_line(scan_lines(s).0, scan_lines(s).1)
}


/// The characters of a text.
fn to_chars(s: &str) -> (r: Vec<char>)
    ensures
        r@ == s@,
{
    let mut v: Vec<char> = Vec::new();
    for c in it: s.chars()
        invariant
            v@ == it.seq().take(it.index() as int),
    {
        v.push(c);
    }
    v
}

/// `char::is_whitespace`.
fn is_whitespace(c: char) -> (r: bool)
    ensures
        r == is_white(c),
{
    let x = c as u32;
    (0x09 <= x && x <= 0x0D) || x == 0x20 || x == 0x85 || x == 0xA0 || x == 0x1680 || (0x2000 <= x && x <= 0x200A)
        || x == 0x2028 || x == 0x2029 || x == 0x202F || x == 0x205F || x == 0x3000
}

/// End of the range once its trailing white space is trimmed.
fn trim_end_range(chars: &Vec<char>, start: usize, end: usize) -> (r: usize)
    requires
        start <= end <= chars@.len(),
    ensures
        start <= r <= end,
        chars@.subrange(start as int, r as int) == trim_end(chars@.subrange(start as int, end as int)),
{
    let mut e: usize = end;
    while e > start && is_whitespace(chars[e - 1])
        invariant
            start <= e <= end <= chars@.len(),
            trim_end(chars@.subrange(start as int, e as int)) == trim_end(chars@.subrange(start as int, end as int)),
        decreases e,
    {
        assert(chars@.subrange(start as int, e as int).drop_last() =~= chars@.subrange(start as int, e - 1));
        e = e - 1;
    }
    e
}

/// Index of the last `c` in the range.
fn rfind_range(chars: &Vec<char>, start: usize, end: usize, c: char) -> (r: Option<usize>)
    requires
        start <= end <= chars@.len(),
    ensures
        match r {
            None => last_index_of(chars@.subrange(start as int, end as int), c) == -1,
            Some(k) => start <= k < end && chars@[k as int] == c && last_index_of(
                chars@.subrange(start as int, end as int),
                c,
            ) == k - start,
        },
{
    let mut e: usize = end;
    while e > start
        invariant
            start <= e <= end <= chars@.len(),
            last_index_of(chars@.subrange(start as int, e as int), c) == last_index_of(
                chars@.subrange(start as int, end as int),
                c,
            ),
        decreases e,
    {
        if chars[e - 1] == c {
            return Some(e - 1);
        }
        assert(chars@.subrange(start as int, e as int).drop_last() =~= chars@.subrange(start as int, e - 1));
        e = e - 1;
    }
    None
}

/// The value of a hexadecimal digit.
fn digit_value(c: char) -> (r: u32)
    requires
        is_hex_digit(c),
    ensures
        r == hex_digit_value(c),
        r < 16,
{
    if '0' <= c && c <= '9' {
        c as u32 - '0' as u32
    } else if 'a' <= c && c <= 'f' {
        c as u32 - 'a' as u32 + 10
    } else {
        c as u32 - 'A' as u32 + 10
    }
}

proof fn lemma_hex_value_grows(d: Seq<char>, k: int)
    requires
        0 <= k <= d.len(),
        forall|i: int| 0 <= i < d.len() ==> is_hex_digit(#[trigger] d[i]),
    ensures
        hex_value(d) >= hex_value(d.subrange(0, k)),
        hex_value(d.subrange(0, k)) >= 0,
    decreases d.len(),
{
    if d.len() > 0 {
        assert(d.drop_last() =~= d.subrange(0, d.len() - 1));
        if k < d.len() {
            lemma_hex_value_grows(d.drop_last(), k);
            assert(d.drop_last().subrange(0, k) =~= d.subrange(0, k));
        } else {
            assert(d.subrange(0, k) =~= d);
            lemma_hex_value_grows(d.drop_last(), d.len() - 1);
            assert(d.drop_last().subrange(0, d.len() - 1) =~= d.drop_last());
        }
    } else {
        assert(d.subrange(0, k) =~= d);
    }
}

/// `u32::from_str_radix` with radix 16 on the characters of the range.
fn parse_hex_range(chars: &Vec<char>, start: usize, end: usize) -> (r: Option<u32>)
    requires
        start <= end <= chars@.len(),
    ensures
        r == parse_hex(chars@.subrange(start as int, end as int)),
{
    let ghost w = chars@.subrange(start as int, end as int);
    let mut i: usize = start;
    if i < end && chars[i] == '+' {
        i = i + 1;
    }
    let ghost d = chars@.subrange(i as int, end as int);
    assert(d == hex_digits_of(w));
    if i == end {
        return None;
    }
    let mut acc: u64 = 0;
    let mut k: usize = i;
    while k < end
        invariant
            i <= k <= end <= chars@.len(),
            start <= i,
            w == chars@.subrange(start as int, end as int),
            d == chars@.subrange(i as int, end as int),
            d == hex_digits_of(w),
            d.len() > 0,
            forall|j: int| i <= j < k ==> is_hex_digit(#[trigger] chars@[j]),
            acc == hex_value(chars@.subrange(i as int, k as int)),
            acc <= u32::MAX,
        decreases end - k,
    {
        let c = chars[k];
        assert(d[k - i] == c);
        if !(('0' <= c && c <= '9') || ('a' <= c && c <= 'f') || ('A' <= c && c <= 'F')) {
            assert(!is_hex_digit(d[k - i]));
            assert(!all_hex(d));
            assert(parse_hex(w).is_none());
            return None;
        }
        let v = digit_value(c);
        assert(chars@.subrange(i as int, k + 1).drop_last() =~= chars@.subrange(i as int, k as int));
        assert(chars@.subrange(i as int, k + 1).last() == c);
        acc = acc * 16 + v as u64;
        if acc > u32::MAX as u64 {
            proof {
                if all_hex(d) {
                    lemma_hex_value_grows(d, k + 1 - i);
                    assert(d.subrange(0, k + 1 - i) =~= chars@.subrange(i as int, k + 1));
                    assert(hex_value(d) > u32::MAX);
                }
                assert(parse_hex(w).is_none());
            }
            return None;
        }
        k = k + 1;
    }
    assert(chars@.subrange(i as int, k as int) =~= d);
    assert forall|j: int| 0 <= j < d.len() implies is_hex_digit(#[trigger] d[j]) by {
        assert(d[j] == chars@[i + j]);
    }
    Some(acc as u32)
}

/// The values of the hexadecimal words of the range.
fn parse_words_range(chars: &Vec<char>, start: usize, end: usize) -> (r: Vec<u32>)
    requires
        start <= end <= chars@.len(),
    ensures
        r@ == parse_words(chars@.subrange(start as int, end as int)),
{
    let mut vals: Vec<u32> = Vec::new();
    let mut word_start: usize = start;
    let mut i: usize = start;
    while i < end
        invariant
            start <= word_start <= i <= end <= chars@.len(),
            scan_words(chars@.subrange(start as int, i as int)) == (vals@, chars@.subrange(word_start as int, i as int)),
        decreases end - i,
    {
        let c = chars[i];
        assert(chars@.subrange(start as int, i + 1).drop_last() =~= chars@.subrange(start as int, i as int));
        assert(chars@.subrange(start as int, i + 1).last() == c);
        if is_whitespace(c) {
            if word_start < i {
                let parsed = parse_hex_range(chars, word_start, i);
                match parsed {
                    Some(v) => vals.push(v),
                    None => {},
                }
            }
            word_start = i + 1;
            assert(chars@.subrange(word_start as int, i + 1) =~= Seq::<char>::empty());
        } else {
            assert(chars@.subrange(word_start as int, i + 1) =~= chars@.subrange(word_start as int, i as int).push(c));
        }
        i = i + 1;
    }
    if word_start < end {
        let parsed = parse_hex_range(chars, word_start, end);
        match parsed {
            Some(v) => vals.push(v),
            None => {},
        }
    }
    vals
}

/// Appends the characters of the range, NUL characters left out.
fn append_without_nul(out: &mut String, content: &str, chars: &Vec<char>, start: usize, end: usize)
    requires
        chars@ == content@,
        start <= end <= chars@.len(),
    ensures
        final(out)@ == old(out)@ + remove_nul(chars@.subrange(start as int, end as int)),
{
    let mut seg: usize = start;
    let mut i: usize = start;
    while i < end
        invariant
            chars@ == content@,
            start <= seg <= i <= end <= chars@.len(),
            old(out)@ + remove_nul(chars@.subrange(start as int, i as int)) == out@ + chars@.subrange(seg as int, i as int),
        decreases end - i,
    {
        assert(chars@.subrange(start as int, i + 1).drop_last() =~= chars@.subrange(start as int, i as int));
        assert(chars@.subrange(start as int, i + 1).last() == chars@[i as int]);
        if chars[i] == '\0' {
            let part = content.substring_char(seg, i);
            out.append(part);
            seg = i + 1;
            assert(chars@.subrange(seg as int, i + 1) =~= Seq::<char>::empty());
            assert(out@ =~= old(out)@ + remove_nul(chars@.subrange(start as int, i + 1)));
        } else {
            assert(chars@.subrange(seg as int, i + 1) =~= chars@.subrange(seg as int, i as int).push(chars@[i as int]));
            let ghost r0 = remove_nul(chars@.subrange(start as int, i as int));
            assert(remove_nul(chars@.subrange(start as int, i + 1)) == r0.push(chars@[i as int]));
            assert(old(out)@ + r0.push(chars@[i as int]) =~= (old(out)@ + r0).push(chars@[i as int]));
            assert(out@ + chars@.subrange(seg as int, i as int).push(chars@[i as int]) =~= (out@ + chars@.subrange(seg as int, i as int)).push(chars@[i as int]));
            assert(old(out)@ + remove_nul(chars@.subrange(start as int, i + 1)) =~= out@ + chars@.subrange(seg as int, i + 1));
        }
        i = i + 1;
    }
    let part = content.substring_char(seg, end);
    out.append(part);
    assert(out@ =~= old(out)@ + remove_nul(chars@.subrange(start as int, end as int)));
}

/// Takes the line in the range into the list.
fn process_line_range(cheats: &mut Vec<Cheat>, content: &str, chars: &Vec<char>, start: usize, end: usize)
    requires
        chars@ == content@,
        start <= end <= chars@.len(),
    ensures
        cheats_view(final(cheats)@) == process_line(cheats_view(old(cheats)@), chars@.subrange(start as int, end as int)),
{
    let ghost raw = chars@.subrange(start as int, end as int);
    let e = trim_end_range(chars, start, end);
    let ghost line = chars@.subrange(start as int, e as int);
    if e > start && chars[start] == '[' {
        match rfind_range(chars, start, e, ']') {
            None => {},
            Some(k) => {
                let mut name = String::new();
                append_without_nul(&mut name, content, chars, start + 1, k);
                assert(line.subrange(1, k - start) =~= chars@.subrange(start + 1, k as int));
                let enabled = chars[e - 1] == '+';
                cheats.push(Cheat { name, code: Vec::new(), enabled });
                assert(cheats_view(cheats@) =~= process_line(cheats_view(old(cheats)@), raw));
            },
        }
    } else if cheats.len() > 0 {
        assert(!(line.len() > 0 && line[0] == '['));
        let words = parse_words_range(chars, start, e);
        let mut last = cheats.pop().unwrap();
        let mut j: usize = 0;
        let ghost code0 = last.code@;
        let ghost last0 = last;
        while j < words.len()
            invariant
                0 <= j <= words@.len(),
                last.name == last0.name,
                last.enabled == last0.enabled,
                last.code@ == code0 + words@.subrange(0, j as int),
            decreases words@.len() - j,
        {
            last.code.push(words[j]);
            assert(words@.subrange(0, j + 1) =~= words@.subrange(0, j as int).push(words@[j as int]));
            j = j + 1;
        }
        assert(words@.subrange(0, j as int) =~= words@);
        let ghost popped = cheats@;
        assert(popped =~= old(cheats)@.drop_last());
        cheats.push(last);
        assert(cheats@ =~= old(cheats)@.update(old(cheats)@.len() - 1, last));
        let ghost ov = cheats_view(old(cheats)@);
        assert(code0 == old(cheats)@.last().code@);
        assert(words@ == parse_words(line));
        assert(last.code@ == ov.last().code + parse_words(line));
        assert(last.name@ == ov.last().name);
        assert(last.enabled == ov.last().enabled);
        assert(ov.last() == old(cheats)@.last().view());
        assert(last.view() == (CheatView { code: ov.last().code + parse_words(line), ..ov.last() }));
        assert(cheats_view(cheats@) =~= process_line(cheats_view(old(cheats)@), raw));
    }
}

/// Reads the cheat list of a NooDS-compatible `.cht` text: `[name]+` (enabled)
/// or `[name]-` starts a cheat, followed by `XXXXXXXX XXXXXXXX` code lines;
/// anything that does not parse is skipped.
pub fn parse(content: &str) -> (r: Vec<Cheat>)
    ensures
        cheats_view(r@) == parse_cheats(content@),
{
    let chars = to_chars(content);
    let mut cheats: Vec<Cheat> = Vec::new();
    let mut line_start: usize = 0;
    let mut i: usize = 0;
    assert(cheats_view(cheats@) =~= Seq::<CheatView>::empty());
    while i < chars.len()
        invariant
            chars@ == content@,
            line_start <= i <= chars@.len(),
            scan_lines(chars@.subrange(0, i as int)) == (cheats_view(cheats@), chars@.subrange(line_start as int, i as int)),
        decreases chars@.len() - i,
    {
        assert(chars@.subrange(0, i + 1).drop_last() =~= chars@.subrange(0, i as int));
        if chars[i] == '\n' {
            process_line_range(&mut cheats, content, &chars, line_start, i);
            line_start = i + 1;
            assert(chars@.subrange(line_start as int, i + 1) =~= Seq::<char>::empty());
        } else {
            assert(chars@.subrange(line_start as int, i + 1) =~= chars@.subrange(line_start as int, i as int).push(chars@[i as int]));
        }
        i = i + 1;
    }
    assert(chars@.subrange(0, i as int) =~= content@);
    process_line_range(&mut cheats, content, &chars, line_start, i);
    cheats
}


/// The upper-case hexadecimal digit of a value below 16.
pub open spec fn hex_char(d: int) -> char {
    if d < 10 {
        (('0' as u32) + d) as char
    } else {
        (('A' as u32) + d - 10) as char
    }
}

/// The `n` lowest hexadecimal digits of `v`, most significant first.
pub open spec fn hex_digits(v: nat, n: nat) -> Seq<char>
    decreases n,
{
    if n == 0 {
        Seq::empty()
    } else {
        hex_digits(v / 16, (n - 1) as nat).push(hex_char((v % 16) as int))
    }
}

/// A word as eight upper-case hexadecimal digits (`{:08X}`).
pub open spec fn hex8(v: u32) -> Seq<char> {
    hex_digits(v as nat, 8)
}

/// The code lines of a cheat: the words two by two, a missing second word
/// written as 0.
pub open spec fn code_text(code: Seq<u32>) -> Seq<char>
    decreases code.len(),
{
    if code.len() == 0 {
        Seq::empty()
    } else {
        let second: u32 = if code.len() > 1 { code[1] } else { 0 };
        let rest = if code.len() > 1 { code.subrange(2, code.len() as int) } else { Seq::empty() };
        hex8(code[0]) + seq![' '] + hex8(second) + seq!['\n'] + code_text(rest)
    }
}

/// The header line of a cheat, without its line break.
pub open spec fn header_line(c: CheatView) -> Seq<char> {
    seq!['['] + c.name + seq![']', if c.enabled { '+' } else { '-' }]
}

/// A cheat written out: its header, its code lines and an empty line.
pub open spec fn cheat_text(c: CheatView) -> Seq<char> {
    header_line(c) + seq!['\n'] + code_text(c.code) + seq!['\n']
}

/// The text of a cheat list.
pub open spec fn serialize_cheats(cs: Seq<CheatView>) -> Seq<char>
    decreases cs.len(),
{
    if cs.len() == 0 {
        Seq::empty()
    } else {
        serialize_cheats(cs.drop_last()) + cheat_text(cs.last())
    }
}

/// Appends one of the punctuation characters the format uses.
fn append_punct(out: &mut String, c: char)
    requires
        c == '[' || c == ']' || c == '+' || c == '-' || c == '\n' || c == ' ',
    ensures
        final(out)@ == old(out)@.push(c),
{
    let lit = if c == '[' {
        proof {
            reveal_strlit("[");
        }
        "["
    } else if c == ']' {
        proof {
            reveal_strlit("]");
        }
        "]"
    } else if c == '+' {
        proof {
            reveal_strlit("+");
        }
        "+"
    } else if c == '-' {
        proof {
            reveal_strlit("-");
        }
        "-"
    } else if c == '\n' {
        proof {
            reveal_strlit("\n");
        }
        "\n"
    } else {
        proof {
            reveal_strlit(" ");
        }
        " "
    };
    assert(lit@ =~= seq![c]);
    out.append(lit);
    assert(final(out)@ =~= old(out)@.push(c));
}

/// Appends the `n` lowest hexadecimal digits of `v`.
fn append_hex_digits(out: &mut String, v: u32, n: u32)
    requires
        n <= 8,
    ensures
        final(out)@ == old(out)@ + hex_digits(v as nat, n as nat),
    decreases n,
{
    if n == 0 {
        assert(final(out)@ =~= old(out)@ + hex_digits(v as nat, 0));
        return;
    }
    append_hex_digits(out, v / 16, n - 1);
    let d = (v % 16) as usize;
    let digits = "0123456789ABCDEF";
    proof {
        reveal_strlit("0123456789ABCDEF");
        assert(digits@.len() == 16);
        assert(digits@[d as int] == hex_char(d as int));
    }
    let one = digits.substring_char(d, d + 1);
    out.append(one);
    assert(one@ =~= seq![hex_char(d as int)]);
    assert(final(out)@ =~= old(out)@ + hex_digits(v as nat, n as nat));
}

/// Writes a cheat list in the format `parse` reads.
pub fn serialize(cheats: &[Cheat]) -> (r: String)
    ensures
        r@ == serialize_cheats(cheats_view(cheats@)),
{
    let mut out = String::new();
    let mut i: usize = 0;
    proof {
        assert(cheats_view(cheats@.subrange(0, 0)) =~= Seq::<CheatView>::empty());
    }
    while i < cheats.len()
        invariant
            0 <= i <= cheats@.len(),
            out@ == serialize_cheats(cheats_view(cheats@.subrange(0, i as int))),
        decreases cheats@.len() - i,
    {
        let cheat = &cheats[i];
        let ghost before = out@;
        append_punct(&mut out, '[');
        out.append(cheat.name.as_str());
        append_punct(&mut out, ']');
        if cheat.enabled {
            append_punct(&mut out, '+');
        } else {
            append_punct(&mut out, '-');
        }
        append_punct(&mut out, '\n');
        assert(out@ =~= before + header_line(cheat.view()) + seq!['\n']);
        let mut k: usize = 0;
        let ghost code = cheat.code@;
        assert(code.subrange(0, code.len() as int) =~= code);
        while k < cheat.code.len()
            invariant
                code == cheat.code@,
                k <= code.len(),
                k % 2 == 0 || k == code.len(),
                out@ + code_text(code.subrange(k as int, code.len() as int)) == before + header_line(cheat.view()) + seq!['\n'] + code_text(code),
            decreases code.len() - k,
        {
            let ghost rest = code.subrange(k as int, code.len() as int);
            let first = cheat.code[k];
            let second = if k + 1 < cheat.code.len() { cheat.code[k + 1] } else { 0 };
            let ghost mark = out@;
            append_hex_digits(&mut out, first, 8);
            append_punct(&mut out, ' ');
            append_hex_digits(&mut out, second, 8);
            append_punct(&mut out, '\n');
            let ghost next = if k + 1 < code.len() { (k + 2) as int } else { code.len() as int };
            assert(rest[0] == first);
            assert(rest.len() > 1 ==> rest[1] == second);
            assert((if rest.len() > 1 { rest.subrange(2, rest.len() as int) } else { Seq::empty() }) =~= code.subrange(next, code.len() as int));
            assert(out@ =~= mark + hex8(first) + seq![' '] + hex8(second) + seq!['\n']);
            assert(code_text(rest) == hex8(first) + seq![' '] + hex8(second) + seq!['\n'] + code_text(code.subrange(next, code.len() as int)));
            assert(out@ + code_text(code.subrange(next, code.len() as int)) =~= mark + code_text(rest));
            k = if k + 1 < cheat.code.len() { k + 2 } else { cheat.code.len() };
        }
        assert(code.subrange(k as int, code.len() as int) =~= Seq::<u32>::empty());
        append_punct(&mut out, '\n');
        proof {
            let cv = cheats_view(cheats@.subrange(0, i + 1));
            assert(cv.drop_last() =~= cheats_view(cheats@.subrange(0, i as int)));
            assert(cv.last() == cheat.view());
            assert(out@ =~= before + cheat_text(cheat.view()));
        }
        i = i + 1;
    }
    assert(cheats@.subrange(0, i as int) =~= cheats@);
    out
}

} // verus!

verus! {

/// One character read by `scan_lines`.
pub open spec fn scan_step(st: (Seq<CheatView>, Seq<char>), c: char) -> (Seq<CheatView>, Seq<char>) {
    if c == '\n' {
        (process_line(st.0, st.1), Seq::empty())
    } else {
        (st.0, st.1.push(c))
    }
}

/// `scan_lines` started from a given state.
pub open spec fn scan_from(st: (Seq<CheatView>, Seq<char>), s: Seq<char>) -> (Seq<CheatView>, Seq<char>)
    decreases s.len(),
{
    if s.len() == 0 {
        st
    } else {
        scan_step(scan_from(st, s.drop_last()), s.last())
    }
}

/// One character read by `scan_words`.
pub open spec fn words_step(st: (Seq<u32>, Seq<char>), c: char) -> (Seq<u32>, Seq<char>) {
    if is_white(c) {
        (flush_word(st.0, st.1), Seq::empty())
    } else {
        (st.0, st.1.push(c))
    }
}

/// `scan_words` started from a given state.
pub open spec fn words_from(st: (Seq<u32>, Seq<char>), s: Seq<char>) -> (Seq<u32>, Seq<char>)
    decreases s.len(),
{
    if s.len() == 0 {
        st
    } else {
        words_step(words_from(st, s.drop_last()), s.last())
    }
}

/// 16 to the power `n`.
pub open spec fn pow16(n: nat) -> nat
    decreases n,
{
    if n == 0 { 1 } else { 16 * pow16((n - 1) as nat) }
}

/// A cheat that the text format carries unchanged: a name without line breaks
/// and NUL characters, and code lines of two words each.
pub open spec fn round_trips(c: CheatView) -> bool {
    &&& forall|i: int| 0 <= i < c.name.len() ==> #[trigger] c.name[i] != '\n' && c.name[i] != '\0'
    &&& c.code.len() % 2 == 0
}

proof fn lemma_scan_lines_from(s: Seq<char>)
    ensures
        scan_lines(s) == scan_from((Seq::empty(), Seq::empty()), s),
    decreases s.len(),
{
    if s.len() > 0 {
        lemma_scan_lines_from(s.drop_last());
    }
}

proof fn lemma_scan_concat(st: (Seq<CheatView>, Seq<char>), a: Seq<char>, b: Seq<char>)
    ensures
        scan_from(st, a + b) == scan_from(scan_from(st, a), b),
    decreases b.len(),
{
    if b.len() == 0 {
        assert(a + b =~= a);
    } else {
        assert((a + b).drop_last() =~= a + b.drop_last());
        assert((a + b).last() == b.last());
        lemma_scan_concat(st, a, b.drop_last());
    }
}

proof fn lemma_scan_no_newline(cs: Seq<CheatView>, cur: Seq<char>, w: Seq<char>)
    requires
        forall|i: int| 0 <= i < w.len() ==> #[trigger] w[i] != '\n',
    ensures
        scan_from((cs, cur), w) == (cs, cur + w),
    decreases w.len(),
{
    if w.len() == 0 {
        assert(cur + w =~= cur);
    } else {
        lemma_scan_no_newline(cs, cur, w.drop_last());
        assert(cur + w =~= (cur + w.drop_last()).push(w.last()));
    }
}

proof fn lemma_scan_line(cs: Seq<CheatView>, line: Seq<char>)
    requires
        forall|i: int| 0 <= i < line.len() ==> #[trigger] line[i] != '\n',
    ensures
        scan_from((cs, Seq::empty()), line.push('\n')) == (process_line(cs, line), Seq::<char>::empty()),
{
    lemma_scan_no_newline(cs, Seq::empty(), line);
    assert(line.push('\n').drop_last() =~= line);
    assert(Seq::<char>::empty() + line =~= line);
}

proof fn lemma_scan_words_from(s: Seq<char>)
    ensures
        scan_words(s) == words_from((Seq::empty(), Seq::empty()), s),
    decreases s.len(),
{
    if s.len() > 0 {
        lemma_scan_words_from(s.drop_last());
    }
}

proof fn lemma_words_concat(st: (Seq<u32>, Seq<char>), a: Seq<char>, b: Seq<char>)
    ensures
        words_from(st, a + b) == words_from(words_from(st, a), b),
    decreases b.len(),
{
    if b.len() == 0 {
        assert(a + b =~= a);
    } else {
        assert((a + b).drop_last() =~= a + b.drop_last());
        assert((a + b).last() == b.last());
        lemma_words_concat(st, a, b.drop_last());
    }
}

proof fn lemma_words_no_white(vals: Seq<u32>, cur: Seq<char>, w: Seq<char>)
    requires
        forall|i: int| 0 <= i < w.len() ==> !is_white(#[trigger] w[i]),
    ensures
        words_from((vals, cur), w) == (vals, cur + w),
    decreases w.len(),
{
    if w.len() == 0 {
        assert(cur + w =~= cur);
    } else {
        lemma_words_no_white(vals, cur, w.drop_last());
        assert(cur + w =~= (cur + w.drop_last()).push(w.last()));
    }
}

proof fn lemma_hex_char(d: int)
    requires
        0 <= d < 16,
    ensures
        is_hex_digit(hex_char(d)),
        hex_digit_value(hex_char(d)) == d,
        !is_white(hex_char(d)),
        hex_char(d) != '\n' && hex_char(d) != '+' && hex_char(d) != '[' && hex_char(d) != ']',
{
}

proof fn lemma_mod_step(v: nat, m: nat)
    requires
        m > 0,
    ensures
        ((v / 16) % m) * 16 + v % 16 == v % (16 * m),
{
    let q = v / 16;
    let r = v % 16;
    let t = q / m;
    let u = q % m;
    assert(v == 16 * q + r && 0 <= r < 16) by (nonlinear_arith)
        requires
            q == v / 16,
            r == v % 16,
    ;
    assert(q == m * t + u && 0 <= u < m) by (nonlinear_arith)
        requires
            t == q / m,
            u == q % m,
            m > 0,
    ;
    assert(v == (16 * m) * t + (16 * u + r)) by (nonlinear_arith)
        requires
            v == 16 * q + r,
            q == m * t + u,
    ;
    assert(0 <= 16 * u + r < 16 * m) by (nonlinear_arith)
        requires
            0 <= u < m,
            0 <= r < 16,
    ;
    assert(v % (16 * m) == 16 * u + r) by (nonlinear_arith)
        requires
            v == (16 * m) * t + (16 * u + r),
            0 <= 16 * u + r < 16 * m,
            t >= 0,
    ;
}

proof fn lemma_hex_digits(v: nat, n: nat)
    ensures
        hex_digits(v, n).len() == n,
        forall|i: int| 0 <= i < n ==> is_hex_digit(#[trigger] hex_digits(v, n)[i]) && !is_white(hex_digits(v, n)[i])
            && hex_digits(v, n)[i] != '\n' && hex_digits(v, n)[i] != '+' && hex_digits(v, n)[i] != '['
            && hex_digits(v, n)[i] != ']',
        hex_value(hex_digits(v, n)) == v % pow16(n),
        pow16(n) > 0,
    decreases n,
{
    if n == 0 {
        assert(v % 1 == 0) by (nonlinear_arith);
    } else {
        lemma_hex_digits(v / 16, (n - 1) as nat);
        lemma_hex_char((v % 16) as int);
        let hd = hex_digits(v, n);
        assert(hd.drop_last() =~= hex_digits(v / 16, (n - 1) as nat));
        lemma_mod_step(v, pow16((n - 1) as nat));
        assert forall|i: int| 0 <= i < n implies is_hex_digit(#[trigger] hd[i]) && !is_white(hd[i]) && hd[i] != '\n'
            && hd[i] != '+' && hd[i] != '[' && hd[i] != ']' by {
            if i < n - 1 {
                assert(hd[i] == hex_digits(v / 16, (n - 1) as nat)[i]);
            }
        }
    }
}

proof fn lemma_hex8(v: u32)
    ensures
        hex8(v).len() == 8,
        forall|i: int| 0 <= i < 8 ==> is_hex_digit(#[trigger] hex8(v)[i]) && !is_white(hex8(v)[i]) && hex8(v)[i] != '\n'
            && hex8(v)[i] != '+' && hex8(v)[i] != '[' && hex8(v)[i] != ']',
        parse_hex(hex8(v)) == Some(v),
{
    lemma_hex_digits(v as nat, 8);
    assert(pow16(8) == 0x1_0000_0000) by {
        reveal_with_fuel(pow16, 9);
    }
    assert((v as nat) % 0x1_0000_0000 == v as nat) by (nonlinear_arith)
        requires
            v <= u32::MAX,
    ;
    assert(hex_digits_of(hex8(v)) == hex8(v));
    assert(all_hex(hex8(v)));
}

proof fn lemma_remove_nul_id(s: Seq<char>)
    requires
        forall|i: int| 0 <= i < s.len() ==> #[trigger] s[i] != '\0',
    ensures
        remove_nul(s) == s,
    decreases s.len(),
{
    if s.len() > 0 {
        lemma_remove_nul_id(s.drop_last());
        assert(s.drop_last().push(s.last()) =~= s);
    }
}

proof fn lemma_header(cs: Seq<CheatView>, c: CheatView)
    requires
        round_trips(c),
    ensures
        process_line(cs, header_line(c)) == cs.push(CheatView { name: c.name, code: Seq::empty(), enabled: c.enabled }),
{
    let h = header_line(c);
    let n = c.name.len() as int;
    assert(h.len() == n + 3);
    assert(h.last() == if c.enabled { '+' } else { '-' });
    assert(trim_end(h) == h);
    assert(h[0] == '[');
    assert(h.drop_last()[n + 1] == ']');
    assert(last_index_of(h.drop_last(), ']') == n + 1);
    assert(last_index_of(h, ']') == n + 1);
    assert(h.subrange(1, n + 1) =~= c.name);
    assert forall|i: int| 0 <= i < c.name.len() implies #[trigger] c.name[i] != '\0' by {
        assert(c.name[i] != '\n' && c.name[i] != '\0');
    }
    lemma_remove_nul_id(c.name);
}

/// The line of two code words, without its line break.
pub open spec fn code_line(a: u32, b: u32) -> Seq<char> {
    hex8(a) + seq![' '] + hex8(b)
}

proof fn lemma_code_line(cs: Seq<CheatView>, a: u32, b: u32)
    requires
        cs.len() > 0,
    ensures
        process_line(cs, code_line(a, b)) == cs.update(
            cs.len() - 1,
            CheatView { code: cs.last().code + seq![a, b], ..cs.last() },
        ),
        forall|i: int| 0 <= i < code_line(a, b).len() ==> #[trigger] code_line(a, b)[i] != '\n',
{
    lemma_hex8(a);
    lemma_hex8(b);
    let l = code_line(a, b);
    assert(l.len() == 17);
    assert(l.last() == hex8(b)[7]);
    assert(trim_end(l) == l);
    assert(l[0] == hex8(a)[0]);
    assert forall|i: int| 0 <= i < l.len() implies #[trigger] l[i] != '\n' by {
        if i < 8 {
            assert(l[i] == hex8(a)[i]);
        } else if i > 8 {
            assert(l[i] == hex8(b)[i - 9]);
        }
    }
    let e = (Seq::<u32>::empty(), Seq::<char>::empty());
    lemma_scan_words_from(l);
    lemma_words_concat(e, hex8(a) + seq![' '], hex8(b));
    lemma_words_concat(e, hex8(a), seq![' ']);
    lemma_words_no_white(Seq::empty(), Seq::empty(), hex8(a));
    assert(Seq::<char>::empty() + hex8(a) =~= hex8(a));
    assert(seq![' '].drop_last() =~= Seq::<char>::empty());
    assert(words_from(words_from(e, hex8(a)), seq![' ']) == (seq![a], Seq::<char>::empty())) by {
        let st = (Seq::<u32>::empty(), hex8(a));
        assert(words_from(e, hex8(a)) == st);
        assert(seq![' '].last() == ' ');
        assert(words_from(st, seq![' '].drop_last()) == st);
        assert(is_white(' '));
        assert(flush_word(Seq::<u32>::empty(), hex8(a)) == Seq::<u32>::empty().push(a));
        assert(Seq::<u32>::empty().push(a) =~= seq![a]);
    }
    lemma_words_no_white(seq![a], Seq::empty(), hex8(b));
    assert(Seq::<char>::empty() + hex8(b) =~= hex8(b));
    assert(parse_words(l) =~= seq![a, b]);
}

proof fn lemma_empty_line(cs: Seq<CheatView>)
    ensures
        process_line(cs, Seq::empty()) == cs,
{
    let e = Seq::<char>::empty();
    assert(trim_end(e) == e);
    if cs.len() > 0 {
        assert(scan_words(e) == (Seq::<u32>::empty(), e));
        assert(parse_words(e) == Seq::<u32>::empty());
        assert(cs.last().code + Seq::<u32>::empty() =~= cs.last().code);
        assert(cs.update(cs.len() - 1, CheatView { code: cs.last().code + parse_words(e), ..cs.last() }) =~= cs);
    }
}

proof fn lemma_scan_code(p: Seq<CheatView>, c: CheatView, rest: Seq<u32>)
    requires
        rest.len() % 2 == 0,
    ensures
        scan_from((p.push(c), Seq::empty()), code_text(rest)) == (
            p.push(CheatView { code: c.code + rest, ..c }),
            Seq::<char>::empty(),
        ),
    decreases rest.len(),
{
    if rest.len() == 0 {
        assert(c.code + rest =~= c.code);
        assert(CheatView { code: c.code + rest, ..c } == c);
    } else {
        let a = rest[0];
        let b = rest[1];
        let tail = rest.subrange(2, rest.len() as int);
        let line = code_line(a, b);
        assert(code_text(rest) =~= line.push('\n') + code_text(tail));
        lemma_scan_concat((p.push(c), Seq::empty()), line.push('\n'), code_text(tail));
        lemma_code_line(p.push(c), a, b);
        lemma_scan_line(p.push(c), line);
        let c2 = CheatView { code: c.code + seq![a, b], ..c };
        assert(p.push(c).update(p.len() as int, c2) =~= p.push(c2));
        lemma_scan_code(p, c2, tail);
        assert(c2.code + tail =~= c.code + rest);
    }
}

proof fn lemma_scan_cheat(p: Seq<CheatView>, c: CheatView)
    requires
        round_trips(c),
    ensures
        scan_from((p, Seq::empty()), cheat_text(c)) == (p.push(c), Seq::<char>::empty()),
{
    let h = header_line(c);
    let st = (p, Seq::<char>::empty());
    assert forall|i: int| 0 <= i < h.len() implies #[trigger] h[i] != '\n' by {
        if 1 <= i <= c.name.len() {
            assert(h[i] == c.name[i - 1]);
        }
    }
    assert(cheat_text(c) =~= h.push('\n') + (code_text(c.code) + seq!['\n']));
    lemma_scan_concat(st, h.push('\n'), code_text(c.code) + seq!['\n']);
    lemma_scan_line(p, h);
    lemma_header(p, c);
    let c0 = CheatView { name: c.name, code: Seq::empty(), enabled: c.enabled };
    lemma_scan_concat((p.push(c0), Seq::empty()), code_text(c.code), seq!['\n']);
    lemma_scan_code(p, c0, c.code);
    assert(Seq::<u32>::empty() + c.code =~= c.code);
    assert(CheatView { code: c0.code + c.code, ..c0 } == c);
    assert(seq!['\n'] =~= Seq::<char>::empty().push('\n'));
    lemma_scan_line(p.push(c), Seq::empty());
    lemma_empty_line(p.push(c));
}

proof fn lemma_scan_serialize(cs: Seq<CheatView>)
    requires
        forall|i: int| 0 <= i < cs.len() ==> round_trips(#[trigger] cs[i]),
    ensures
        scan_from((Seq::empty(), Seq::empty()), serialize_cheats(cs)) == (cs, Seq::<char>::empty()),
    decreases cs.len(),
{
    if cs.len() == 0 {
    } else {
        let init = (Seq::<CheatView>::empty(), Seq::<char>::empty());
        lemma_scan_serialize(cs.drop_last());
        lemma_scan_concat(init, serialize_cheats(cs.drop_last()), cheat_text(cs.last()));
        lemma_scan_cheat(cs.drop_last(), cs.last());
        assert(cs.drop_last().push(cs.last()) =~= cs);
    }
}

/// Writing a cheat list and reading it back gives the same list, for cheats
/// whose names hold no line break or NUL character and whose code is whole
/// lines of two words.
pub proof fn law_parse_serialize(cs: Seq<CheatView>)
    requires
        forall|i: int| 0 <= i < cs.len() ==> round_trips(#[trigger] cs[i]),
    ensures
        parse_cheats(serialize_cheats(cs)) == cs,
{
    lemma_scan_lines_from(serialize_cheats(cs));
    lemma_scan_serialize(cs);
    lemma_empty_line(cs);
}

} // verus!

verus! {

/// Whether some cheat of the list is enabled.
pub open spec fn some_enabled(cs: Seq<CheatView>) -> bool {
    exists|i: int| 0 <= i < cs.len() && #[trigger] cs[i].enabled
}

/// The code of each enabled cheat, in order.
pub open spec fn enabled_codes_of(cs: Seq<CheatView>) -> Seq<Seq<u32>>
    decreases cs.len(),
{
    if cs.len() == 0 {
        Seq::empty()
    } else if cs.last().enabled {
        enabled_codes_of(cs.drop_last()).push(cs.last().code)
    } else {
        enabled_codes_of(cs.drop_last())
    }
}

/// Whether any cheat of the list is enabled: the per-frame gate that lets
/// frames without an enabled cheat skip the list.
pub fn update_any_enabled(cheats: &[Cheat]) -> (r: bool)
    ensures
        r == some_enabled(cheats_view(cheats@)),
{
    let mut i: usize = 0;
    while i < cheats.len()
        invariant
            0 <= i <= cheats@.len(),
            forall|j: int| 0 <= j < i ==> !(#[trigger] cheats@[j]).enabled,
        decreases cheats@.len() - i,
    {
        if cheats[i].enabled {
            assert(cheats_view(cheats@)[i as int].enabled);
            return true;
        }
        i = i + 1;
    }
    assert forall|j: int| 0 <= j < cheats@.len() implies !(#[trigger] cheats_view(cheats@)[j]).enabled by {
        assert(!cheats@[j].enabled);
    }
    false
}

/// The cheats of the loaded title, with a flag that tells whether any of
/// them is enabled.
pub struct CheatList {
    cheats: Vec<Cheat>,
    any_enabled: bool,
}

impl CheatList {
    #[verifier::type_invariant]
    spec fn gate_matches(&self) -> bool {
        self.any_enabled == some_enabled(cheats_view(self.cheats@))
    }

    /// The cheats of the list.
    pub closed spec fn view(&self) -> Seq<CheatView> {
        cheats_view(self.cheats@)
    }

    /// An empty list.
    pub fn new() -> (r: Self)
        ensures
            r@ == Seq::<CheatView>::empty(),
    {
        let r = CheatList { cheats: Vec::new(), any_enabled: false };
        assert(cheats_view(r.cheats@) =~= Seq::<CheatView>::empty());
        r
    }

    /// Replaces the list with the cheats of a `.cht` text (the previous game's
    /// cheats are dropped).
    pub fn load(&mut self, content: &str)
        ensures
            final(self)@ == parse_cheats(content@),
    {
        let cheats = parse(content);
        let any_enabled = update_any_enabled(cheats.as_slice());
        *self = CheatList { cheats, any_enabled };
    }

    /// The list written out in the format `load` reads.
    pub fn save(&self) -> (r: String)
        ensures
            r@ == serialize_cheats(self@),
    {
        serialize(self.cheats.as_slice())
    }

    /// Whether any cheat is enabled.
    pub fn any_enabled(&self) -> (r: bool)
        ensures
            r == some_enabled(self@),
    {
        proof {
            use_type_invariant(self);
        }
        self.any_enabled
    }

    /// The name and the state of each cheat, in order.
    pub fn names_and_states(&self) -> (r: Vec<(String, bool)>)
        ensures
            r@.len() == self@.len(),
            forall|i: int| 0 <= i < r@.len() ==> (#[trigger] r@[i]).0@ == self@[i].name && r@[i].1 == self@[i].enabled,
    {
        let mut out: Vec<(String, bool)> = Vec::new();
        let mut i: usize = 0;
        while i < self.cheats.len()
            invariant
                0 <= i <= self.cheats@.len(),
                out@.len() == i,
                forall|j: int| 0 <= j < i ==> (#[trigger] out@[j]).0@ == self.cheats@[j].name@ && out@[j].1 == self.cheats@[j].enabled,
            decreases self.cheats@.len() - i,
        {
            let name = self.cheats[i].name.clone();
            out.push((name, self.cheats[i].enabled));
            i = i + 1;
        }
        out
    }

    /// Enables or disables the cheat at `index`; an index past the end changes nothing.
    pub fn set_enabled(&mut self, index: usize, enabled: bool)
        ensures
            index < old(self)@.len() ==> final(self)@ == old(self)@.update(
                index as int,
                CheatView { enabled, ..old(self)@[index as int] },
            ),
            index >= old(self)@.len() ==> final(self)@ == old(self)@,
    {
        let mut taken = CheatList::new();
        std::mem::swap(&mut taken, self);
        let CheatList { mut cheats, .. } = taken;
        if index < cheats.len() {
            let ghost before = cheats@;
            let mut c = cheats.remove(index);
            c.enabled = enabled;
            cheats.insert(index, c);
            assert(cheats_view(cheats@) =~= cheats_view(before).update(index as int, CheatView { enabled, ..cheats_view(before)[index as int] }));
        }
        let any_enabled = update_any_enabled(cheats.as_slice());
        *self = CheatList { cheats, any_enabled };
    }

    /// The code of each enabled cheat, in order: what runs once per frame.
    pub fn enabled_codes(&self) -> (r: Vec<Vec<u32>>)
        ensures
            Seq::new(r@.len(), |i: int| r@[i]@) == enabled_codes_of(self@),
    {
        let mut out: Vec<Vec<u32>> = Vec::new();
        let mut i: usize = 0;
        while i < self.cheats.len()
            invariant
                0 <= i <= self.cheats@.len(),
                Seq::new(out@.len(), |k: int| out@[k]@) == enabled_codes_of(cheats_view(self.cheats@.subrange(0, i as int))),
            decreases self.cheats@.len() - i,
        {
            let ghost before = Seq::new(out@.len(), |k: int| out@[k]@);
            assert(cheats_view(self.cheats@.subrange(0, i + 1)).drop_last() =~= cheats_view(self.cheats@.subrange(0, i as int)));
            assert(cheats_view(self.cheats@.subrange(0, i + 1)).last() == self.cheats@[i as int].view());
            if self.cheats[i].enabled {
                let code = vstd::slice::slice_to_vec(self.cheats[i].code.as_slice());
                out.push(code);
                assert(Seq::new(out@.len(), |k: int| out@[k]@) =~= before.push(self.cheats@[i as int].code@));
            }
            i = i + 1;
        }
        assert(self.cheats@.subrange(0, i as int) =~= self.cheats@);
        out
    }
}

/// White space is exactly Unicode's White_Space set: tab, line feed, line
/// tabulation, form feed, carriage return, space, next line, no-break space,
/// ogham space mark, the spaces from en quad to hair space, line separator,
/// paragraph separator, narrow no-break space, medium mathematical space and
/// ideographic space.
pub proof fn law_white_space_is_unicode(c: char)
    ensures
        is_white(c) <==> (c == '\t' || c == '\n' || c == '\u{0B}' || c == '\u{0C}' || c == '\r' || c == ' ' || c == '\u{85}' || c == '\u{A0}' || c == '\u{1680}' || c == '\u{2000}' || c == '\u{2001}' || c == '\u{2002}' || c == '\u{2003}' || c == '\u{2004}' || c == '\u{2005}' || c == '\u{2006}' || c == '\u{2007}' || c == '\u{2008}' || c == '\u{2009}' || c == '\u{200A}' || c == '\u{2028}' || c == '\u{2029}' || c == '\u{202F}' || c == '\u{205F}' || c == '\u{3000}'),
{
}

} // verus!

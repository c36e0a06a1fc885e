//! Reading the pin-configuration report: which pins are enabled.
use vstd::prelude::*;

verus! {

/// Whether `c` is white space in the Unicode sense (the `White_Space`
/// property), which is what separates the report's tokens.
pub open spec fn is_ws(c: char) -> bool {
    let u = c as u32;
    (9 <= u <= 13) || u == 32 || u == 0x85 || u == 0xA0 || u == 0x1680 || (0x2000 <= u <= 0x200A)
        || u == 0x2028 || u == 0x2029 || u == 0x202F || u == 0x205F || u == 0x3000
}

/// `s` without its leading white space.
pub open spec fn trim_start(s: Seq<char>) -> Seq<char>
    decreases s.len(),
{
    if s.len() > 0 && is_ws(s[0]) {
        trim_start(s.drop_first())
    } else {
        s
    }
}

/// `s` without its trailing white space.
pub open spec fn trim_end(s: Seq<char>) -> Seq<char>
    decreases s.len(),
{
    if s.len() > 0 && is_ws(s.last()) {
        trim_end(s.drop_last())
    } else {
        s
    }
}

/// `s` without its leading and trailing white space.
pub open spec fn trim(s: Seq<char>) -> Seq<char> {
    trim_end(trim_start(s))
}

/// The characters of `s` up to its first white space.
pub open spec fn first_token(s: Seq<char>) -> Seq<char>
    decreases s.len(),
{
    if s.len() == 0 || is_ws(s[0]) {
        Seq::empty()
    } else {
        seq![s[0]] + first_token(s.drop_first())
    }
}

/// Whether `s` begins with `p`.
pub open spec fn starts_with(s: Seq<char>, p: Seq<char>) -> bool {
    p.len() <= s.len() && s.subrange(0, p.len() as int) == p
}

/// Whether `p` occurs in `s`.
pub open spec fn contains(s: Seq<char>, p: Seq<char>) -> bool {
    exists|i: int| 0 <= i && i + p.len() <= s.len() && #[trigger] s.subrange(i, i + p.len()) == p
}

/// The phrase that opens the pin section of the report.
pub open spec fn header_marker() -> Seq<char> {
    "Pin Configurations"@
}

/// The word that marks a pin as not enabled.
pub open spec fn disabled_marker() -> Seq<char> {
    "Disabled"@
}

/// Whether `c` is an ASCII decimal digit.
pub open spec fn is_digit(c: char) -> bool {
    48 <= c as u32 <= 57
}

/// Whether `c` is an ASCII character.
pub open spec fn is_ascii_char(c: char) -> bool {
    (c as u32) < 128
}

/// The value of the decimal digit `c`.
pub open spec fn digit_value(c: char) -> u8 {
    (c as u32 - 48) as u8
}

/// Whether the line opens the pin section.
pub open spec fn is_header(line: Seq<char>) -> bool {
    starts_with(trim(line), header_marker())
}

/// Whether a token has the shape of a pin name: `P`, a port digit and two
/// more characters.
pub open spec fn is_pin_token(tok: Seq<char>) -> bool {
    tok.len() == 4 && tok[0] == 'P' && is_digit(tok[1]) && is_ascii_char(tok[2]) && is_ascii_char(
        tok[3],
    )
}

/// Whether a line of the pin section names an enabled pin.
pub open spec fn is_pin_line(line: Seq<char>) -> bool {
    is_pin_token(first_token(trim(line))) && !contains(line, disabled_marker())
}

/// The pin number written in a pin token: its two last characters as a
/// decimal number, or 0 where they are not two digits.
pub open spec fn pin_number_of(tok: Seq<char>) -> u8 {
    if is_digit(tok[2]) && is_digit(tok[3]) {
        (10 * digit_value(tok[2]) + digit_value(tok[3])) as u8
    } else {
        0
    }
}

/// The (port number, pin number) that a pin line names.
pub open spec fn decode(line: Seq<char>) -> (u8, u8) {
    let tok = first_token(trim(line));
    (digit_value(tok[1]), pin_number_of(tok))
}

/// The pins named, in order, by the enabled pin lines of `lines`, where
/// `inside` tells whether the pin section has already begun. Lines before
/// the first header line are never read as pins, nor are header lines.
pub open spec fn scan(lines: Seq<Seq<char>>, inside: bool) -> Seq<(u8, u8)>
    decreases lines.len(),
{
    if lines.len() == 0 {
        Seq::empty()
    } else {
        let line = lines[0];
        if is_header(line) {
            scan(lines.drop_first(), true)
        } else if inside && is_pin_line(line) {
            seq![decode(line)] + scan(lines.drop_first(), true)
        } else {
            scan(lines.drop_first(), inside)
        }
    }
}

/// `s` with every element after its first occurrence removed.
pub open spec fn dedup(s: Seq<(u8, u8)>) -> Seq<(u8, u8)>
    decreases s.len(),
{
    if s.len() == 0 {
        Seq::empty()
    } else {
        let d = dedup(s.drop_last());
        if d.contains(s.last()) {
            d
        } else {
            d.push(s.last())
        }
    }
}

/// The enabled pins of a report, each once, in order of first appearance;
/// port 0 pin 0 alone where the report enables none.
pub open spec fn enabled_pins(lines: Seq<Seq<char>>) -> Seq<(u8, u8)> {
    let d = dedup(scan(lines, false));
    if d.len() == 0 {
        seq![(0u8, 0u8)]
    } else {
        d
    }
}

/// The characters of `s`.
fn chars_of(s: &str) -> (r: Vec<char>)
    ensures
        r@ == s@,
{
    let n = s.unicode_len();
    let mut r: Vec<char> = Vec::new();
    let mut i: usize = 0;
    while i < n
        invariant
            n == s@.len(),
            i <= n,
            r@ == s@.subrange(0, i as int),
        decreases n - i,
    {
        r.push(s.get_char(i));
        i = i + 1;
    }
    assert(r@ =~= s@);
    r
}

/// Whether `c` is white space.
fn is_ws_char(c: char) -> (r: bool)
    ensures
        r == is_ws(c),
{
    let u = c as u32;
    (9 <= u && u <= 13) || u == 32 || u == 0x85 || u == 0xA0 || u == 0x1680 || (0x2000 <= u && u
        <= 0x200A) || u == 0x2028 || u == 0x2029 || u == 0x202F || u == 0x205F || u == 0x3000
}

/// `s` without its leading and trailing white space.
fn trimmed(s: &Vec<char>) -> (r: Vec<char>)
    ensures
        r@ == trim(s@),
{
    let n = s.len();
    let mut lo: usize = 0;
    assert(s@.subrange(0, n as int) =~= s@);
    while lo < n && is_ws_char(s[lo])
        invariant
            n == s@.len(),
            lo <= n,
            trim_start(s@) == trim_start(s@.subrange(lo as int, n as int)),
        decreases n - lo,
    {
        assert(s@.subrange(lo as int, n as int).drop_first() =~= s@.subrange(lo + 1, n as int));
        lo = lo + 1;
    }
    assert(trim_start(s@) == s@.subrange(lo as int, n as int));
    let mut hi: usize = n;
    while hi > lo && is_ws_char(s[hi - 1])
        invariant
            n == s@.len(),
            lo <= hi <= n,
            trim(s@) == trim_end(s@.subrange(lo as int, hi as int)),
        decreases hi - lo,
    {
        assert(s@.subrange(lo as int, hi as int).drop_last() =~= s@.subrange(lo as int, hi - 1));
        hi = hi - 1;
    }
    let mut r: Vec<char> = Vec::new();
    let mut i: usize = lo;
    while i < hi
        invariant
            n == s@.len(),
            lo <= i <= hi <= n,
            r@ == s@.subrange(lo as int, i as int),
        decreases hi - i,
    {
        r.push(s[i]);
        i = i + 1;
    }
    r
}

/// The length of the first token of `t`.
fn token_len(t: &Vec<char>) -> (k: usize)
    ensures
        k <= t@.len(),
        first_token(t@) == t@.subrange(0, k as int),
{
    let n = t.len();
    let mut k: usize = 0;
    assert(t@.subrange(0, n as int) =~= t@);
    assert(t@.subrange(0, 0) + t@ =~= t@);
    while k < n && !is_ws_char(t[k])
        invariant
            n == t@.len(),
            k <= n,
            first_token(t@) == t@.subrange(0, k as int) + first_token(t@.subrange(k as int, n as int)),
        decreases n - k,
    {
        let ghost rest = t@.subrange(k as int, n as int);
        assert(rest.drop_first() =~= t@.subrange(k + 1, n as int));
        assert(t@.subrange(0, k + 1) =~= t@.subrange(0, k as int) + seq![t@[k as int]]);
        k = k + 1;
    }
    assert(first_token(t@.subrange(k as int, n as int)) =~= Seq::<char>::empty());
    assert(t@.subrange(0, k as int) + Seq::<char>::empty() =~= t@.subrange(0, k as int));
    k
}

/// Whether `s` begins with `p`.
fn has_prefix(s: &Vec<char>, p: &str) -> (r: bool)
    ensures
        r == starts_with(s@, p@),
{
    let m = p.unicode_len();
    if m > s.len() {
        return false;
    }
    let mut k: usize = 0;
    while k < m
        invariant
            m == p@.len(),
            m <= s@.len(),
            k <= m,
            s@.subrange(0, k as int) == p@.subrange(0, k as int),
        decreases m - k,
    {
        if s[k] != p.get_char(k) {
            assert(s@.subrange(0, m as int)[k as int] != p@[k as int]);
            return false;
        }
        assert(s@.subrange(0, k + 1) =~= s@.subrange(0, k as int).push(s@[k as int]));
        assert(p@.subrange(0, k + 1) =~= p@.subrange(0, k as int).push(p@[k as int]));
        k = k + 1;
    }
    assert(p@.subrange(0, m as int) =~= p@);
    true
}

/// Whether `p` occurs in `s`.
fn has_infix(s: &Vec<char>, p: &str) -> (r: bool)
    ensures
        r == contains(s@, p@),
{
    let m = p.unicode_len();
    let n = s.len();
    if m > n {
        return false;
    }
    if m == 0 {
        assert(s@.subrange(0int, 0int + p@.len()) =~= p@);
        return true;
    }
    let mut i: usize = 0;
    while i <= n - m
        invariant
            m == p@.len(),
            n == s@.len(),
            1 <= m <= n,
            i <= n - m + 1,
            forall|j: int| 0 <= j < i ==> #[trigger] s@.subrange(j, j + m) != p@,
        decreases n + 1 - i,
    {
        let mut k: usize = 0;
        let mut same = true;
        while k < m && same
            invariant
                m == p@.len(),
                n == s@.len(),
                i + m <= n,
                k <= m,
                same ==> forall|q: int| 0 <= q < k ==> s@[i + q] == p@[q],
                !same ==> s@.subrange(i as int, i + m) != p@,
            decreases m - k,
        {
            if s[i + k] != p.get_char(k) {
                same = false;
                assert(s@.subrange(i as int, i + m)[k as int] != p@[k as int]);
            }
            k = k + 1;
        }
        if same {
            assert(s@.subrange(i as int, i + m) =~= p@);
            return true;
        }
        i = i + 1;
    }
    assert forall|j: int| 0 <= j && j + p@.len() <= s@.len() implies #[trigger] s@.subrange(
        j,
        j + p@.len(),
    ) != p@ by {
        assert(j < i);
    }
    false
}

/// The decimal digit character of `d`.
pub open spec fn digit_char(d: nat) -> char {
    if d == 0 {
        '0'
    } else if d == 1 {
        '1'
    } else if d == 2 {
        '2'
    } else if d == 3 {
        '3'
    } else if d == 4 {
        '4'
    } else if d == 5 {
        '5'
    } else if d == 6 {
        '6'
    } else if d == 7 {
        '7'
    } else if d == 8 {
        '8'
    } else {
        '9'
    }
}

/// `n` written in decimal, without leading zeros.
pub open spec fn decimal(n: u8) -> Seq<char> {
    if n < 10 {
        seq![digit_char(n as nat)]
    } else if n < 100 {
        seq![digit_char(n as nat / 10), digit_char(n as nat % 10)]
    } else {
        seq![digit_char(n as nat / 100), digit_char((n as nat / 10) % 10), digit_char(n as nat % 10)]
    }
}

/// The name of the pin type of port `port`, pin `pin`: `P1_5` for port 1,
/// pin 5.
pub open spec fn pin_ident(port: u8, pin: u8) -> Seq<char> {
    "P"@ + decimal(port) + "_"@ + decimal(pin)
}

/// The name of port `port`: `PORT1` for port 1.
pub open spec fn port_ident(port: u8) -> Seq<char> {
    "PORT"@ + decimal(port)
}

/// One enabled pin of the configuration.
#[derive(Debug, Clone, PartialEq, Eq)]
pub struct PinRecord {
    /// The name of the pin's type, such as `P1_5`.
    pub identifier: String,
    /// The name of the pin's port, such as `PORT1`.
    pub port_name: String,
    /// The port number.
    pub port_number: u8,
    /// The pin number within the port.
    pub pin_number: u8,
}

/// The view of a record: identifier, port name, port number, pin number.
pub type RecordView = (Seq<char>, Seq<char>, u8, u8);

impl View for PinRecord {
    type V = RecordView;

    open spec fn view(&self) -> RecordView {
        (self.identifier@, self.port_name@, self.port_number, self.pin_number)
    }
}

/// The record of the pin `pin` (port number, pin number).
pub open spec fn record_of(pin: (u8, u8)) -> RecordView {
    (pin_ident(pin.0, pin.1), port_ident(pin.0), pin.0, pin.1)
}

impl PinRecord {
    /// This record stands for the pin `pin` (port number, pin number).
    pub open spec fn describes(&self, pin: (u8, u8)) -> bool {
        self@ == record_of(pin)
    }

    /// The record of port `port_number`, pin `pin_number`.
    pub fn new(port_number: u8, pin_number: u8) -> (r: PinRecord)
        ensures
            r.describes((port_number, pin_number)),
    {
        let mut identifier = String::from_str("P");
        identifier.append(decimal_string(port_number).as_str());
        identifier.append("_");
        identifier.append(decimal_string(pin_number).as_str());
        let mut port_name = String::from_str("PORT");
        port_name.append(decimal_string(port_number).as_str());
        PinRecord { identifier, port_name, port_number, pin_number }
    }
}

/// The decimal digit `d` as a string.
fn digit_str(d: u8) -> (r: &'static str)
    requires
        d < 10,
    ensures
        r@ == seq![digit_char(d as nat)],
{
    proof {
        reveal_strlit("0");
        reveal_strlit("1");
        reveal_strlit("2");
        reveal_strlit("3");
        reveal_strlit("4");
        reveal_strlit("5");
        reveal_strlit("6");
        reveal_strlit("7");
        reveal_strlit("8");
        reveal_strlit("9");
    }
    let r = if d == 0 {
        "0"
    } else if d == 1 {
        "1"
    } else if d == 2 {
        "2"
    } else if d == 3 {
        "3"
    } else if d == 4 {
        "4"
    } else if d == 5 {
        "5"
    } else if d == 6 {
        "6"
    } else if d == 7 {
        "7"
    } else if d == 8 {
        "8"
    } else {
        "9"
    };
    assert(r@ =~= seq![digit_char(d as nat)]);
    r
}

/// `n` written in decimal, without leading zeros.
pub fn decimal_string(n: u8) -> (r: String)
    ensures
        r@ == decimal(n),
{
    let mut s = String::new();
    if n >= 100 {
        s.append(digit_str(n / 100));
    }
    if n >= 10 {
        s.append(digit_str((n / 10) % 10));
    }
    s.append(digit_str(n % 10));
    assert(s@ =~= decimal(n));
    s
}

/// The views of the report's lines.
pub open spec fn line_views(lines: Seq<String>) -> Seq<Seq<char>> {
    lines.map_values(|l: String| l@)
}

/// Whether `c` is an ASCII decimal digit.
fn is_digit_char(c: char) -> (r: bool)
    ensures
        r == is_digit(c),
{
    48 <= c as u32 && c as u32 <= 57
}

/// Whether `c` is an ASCII character.
fn is_ascii_ch(c: char) -> (r: bool)
    ensures
        r == is_ascii_char(c),
{
    (c as u32) < 128
}

/// Reads the enabled pins from the lines of a pin-configuration report.
///
/// Lines up to and including the first line that starts, once trimmed, with
/// `Pin Configurations` are skipped. After it, a line names a pin when its
/// first token is `P`, a port digit and two more characters, and the line
/// does not contain `Disabled`; the pin number is the two last characters of
/// the token in decimal, or 0 where they are not digits. Each pin is kept
/// once, at its first appearance. Where no pin is named, the result is port
/// 0, pin 0 alone.
pub fn parse_ra_cfg(lines: &Vec<String>) -> (r: Vec<PinRecord>)
    ensures
        r@.len() == enabled_pins(line_views(lines@)).len(),
        forall|i: int| 0 <= i < r@.len() ==> #[trigger] r@[i].describes(enabled_pins(line_views(lines@))[i]),
{
    let ghost ls = line_views(lines@);
    let n = lines.len();
    let mut out: Vec<PinRecord> = Vec::new();
    let mut inside = false;
    let ghost mut acc: Seq<(u8, u8)> = Seq::empty();
    let mut i: usize = 0;
    assert(ls.subrange(0, n as int) =~= ls);
    while i < n
        invariant
            n == lines@.len(),
            ls == line_views(lines@),
            ls.len() == n,
            i <= n,
            scan(ls, false) == acc + scan(ls.subrange(i as int, n as int), inside),
            out@.len() == dedup(acc).len(),
            forall|k: int| 0 <= k < out@.len() ==> #[trigger] out@[k].describes(dedup(acc)[k]),
        decreases n - i,
    {
        let cs = chars_of(lines[i].as_str());
        let t = trimmed(&cs);
        let ghost rest = ls.subrange(i as int, n as int);
        let ghost acc0 = acc;
        let ghost inside0 = inside;
        assert(rest.drop_first() =~= ls.subrange(i + 1, n as int));
        assert(rest[0] == cs@);
        if has_prefix(&t, "Pin Configurations") {
            inside = true;
        } else if inside {
            let k = token_len(&t);
            if k == 4 && t[0] == 'P' && is_digit_char(t[1]) && is_ascii_ch(t[2]) && is_ascii_ch(t[3])
                && !has_infix(&cs, "Disabled") {
                let port = (t[1] as u32 - 48) as u8;
                let pin: u8 = if is_digit_char(t[2]) && is_digit_char(t[3]) {
                    (10 * (t[2] as u32 - 48) + (t[3] as u32 - 48)) as u8
                } else {
                    0
                };
                let ghost e = (port, pin);
                assert(first_token(t@) =~= t@.subrange(0, 4));
                assert(e == decode(cs@));
                proof {
                    acc = acc.push(e);
                    assert(acc.drop_last() =~= acc0);
                    assert(seq![e] + scan(rest.drop_first(), true) =~= seq![e] + scan(
                        ls.subrange(i + 1, n as int),
                        true,
                    ));
                    assert(acc0 + (seq![e] + scan(ls.subrange(i + 1, n as int), true)) =~= acc
                        + scan(ls.subrange(i + 1, n as int), true));
                }
                let mut found = false;
                let mut j: usize = 0;
                while j < out.len()
                    invariant
                        e == (port, pin),
                        j <= out@.len(),
                        out@.len() == dedup(acc0).len(),
                        forall|k: int| 0 <= k < out@.len() ==> #[trigger] out@[k].describes(dedup(acc0)[k]),
                        found <==> exists|q: int| 0 <= q < j && dedup(acc0)[q] == e,
                    decreases out@.len() - j,
                {
                    assert(out@[j as int].describes(dedup(acc0)[j as int]));
                    if out[j].port_number == port && out[j].pin_number == pin {
                        assert(dedup(acc0)[j as int] == e);
                        found = true;
                    } else {
                        assert(dedup(acc0)[j as int] != e);
                    }
                    assert(found <==> exists|q: int| 0 <= q < j + 1 && dedup(acc0)[q] == e) by {
                        if found && !(exists|q: int| 0 <= q < j && dedup(acc0)[q] == e) {
                            assert(dedup(acc0)[j as int] == e);
                        }
                    }
                    j = j + 1;
                }
                if !found {
                    out.push(PinRecord::new(port, pin));
                    assert(!dedup(acc0).contains(e));
                } else {
                    assert(dedup(acc0).contains(e));
                }
            }
        }
        i = i + 1;
    }
    assert(ls.subrange(n as int, n as int) =~= Seq::<Seq<char>>::empty());
    assert(acc + Seq::<(u8, u8)>::empty() =~= acc);
    if out.len() == 0 {
        out.push(PinRecord::new(0, 0));
    }
    out
}

/// No element occurs twice in a deduplicated sequence, and it holds exactly
/// the elements of the sequence it came from.
pub proof fn lemma_dedup(s: Seq<(u8, u8)>)
    ensures
        forall|i: int, j: int| 0 <= i < j < dedup(s).len() ==> dedup(s)[i] != dedup(s)[j],
        forall|x: (u8, u8)| dedup(s).contains(x) <==> s.contains(x),
        dedup(s).len() == 0 <==> s.len() == 0,
    decreases s.len(),
{
    if s.len() > 0 {
        let p = s.drop_last();
        lemma_dedup(p);
        let d = dedup(p);
        assert forall|x: (u8, u8)| s.contains(x) <==> p.contains(x) || x == s.last() by {
            if s.contains(x) {
                let k = choose|k: int| 0 <= k < s.len() && s[k] == x;
                if k < s.len() - 1 {
                    assert(p[k] == x);
                }
            }
            if p.contains(x) {
                let k = choose|k: int| 0 <= k < p.len() && p[k] == x;
                assert(s[k] == x);
            }
            if x == s.last() {
                assert(s[s.len() - 1] == x);
            }
        }
        if !d.contains(s.last()) {
            let e = d.push(s.last());
            assert forall|x: (u8, u8)| e.contains(x) <==> d.contains(x) || x == s.last() by {
                if e.contains(x) {
                    let k = choose|k: int| 0 <= k < e.len() && e[k] == x;
                    if k < d.len() {
                        assert(d[k] == x);
                    }
                }
                if d.contains(x) {
                    let k = choose|k: int| 0 <= k < d.len() && d[k] == x;
                    assert(e[k] == x);
                }
                if x == s.last() {
                    assert(e[d.len() as int] == x);
                }
            }
            assert forall|i: int, j: int| 0 <= i < j < e.len() implies e[i] != e[j] by {
                if j == d.len() {
                    assert(d[i] == e[i]);
                }
            }
        } else {
            assert(d.len() > 0);
        }
    }
}

/// No pin occurs twice among the enabled pins of a report.
pub proof fn lemma_enabled_pins_unique(lines: Seq<Seq<char>>)
    ensures
        forall|i: int, j: int|
            0 <= i < j < enabled_pins(lines).len() ==> enabled_pins(lines)[i] != enabled_pins(
                lines,
            )[j],
{
    lemma_dedup(scan(lines, false));
}

/// A report always gives at least one pin; one that names no enabled pin
/// gives port 0, pin 0 alone.
pub proof fn lemma_enabled_pins_nonempty(lines: Seq<Seq<char>>)
    ensures
        enabled_pins(lines).len() >= 1,
        scan(lines, false).len() == 0 ==> enabled_pins(lines) == seq![(0u8, 0u8)],
        scan(lines, false).len() > 0 ==> enabled_pins(lines) == dedup(scan(lines, false)),
{
    lemma_dedup(scan(lines, false));
}

/// A line that contains the disabled marker names no pin, whatever its
/// first token: reading it changes at most whether the pin section has
/// begun.
pub proof fn lemma_disabled_line_skipped(line: Seq<char>, rest: Seq<Seq<char>>, inside: bool)
    requires
        contains(line, disabled_marker()),
    ensures
        scan(seq![line] + rest, inside) == scan(rest, inside || is_header(line)),
{
    assert((seq![line] + rest).drop_first() =~= rest);
}

/// Lines before the first header line are never read as pins, whatever
/// they hold.
pub proof fn lemma_before_header_ignored(pre: Seq<Seq<char>>, rest: Seq<Seq<char>>)
    requires
        forall|i: int| 0 <= i < pre.len() ==> !is_header(#[trigger] pre[i]),
    ensures
        scan(pre + rest, false) == scan(rest, false),
    decreases pre.len(),
{
    if pre.len() > 0 {
        assert((pre + rest).drop_first() =~= pre.drop_first() + rest);
        assert((pre + rest)[0] == pre[0]);
        assert forall|i: int| 0 <= i < pre.drop_first().len() implies !is_header(
            #[trigger] pre.drop_first()[i],
        ) by {
            assert(pre.drop_first()[i] == pre[i + 1]);
        }
        lemma_before_header_ignored(pre.drop_first(), rest);
    } else {
        assert(pre + rest =~= rest);
    }
}

/// A pin token whose pin number is below 16 is decoded, packed into a pin
/// index and unpacked again to the same port and pin numbers.
pub proof fn lemma_token_round_trip(tok: Seq<char>)
    requires
        is_pin_token(tok),
        pin_number_of(tok) < 16,
    ensures
        digit_value(tok[1]) < crate::gpio::PORT_COUNT,
        crate::gpio::port_of(crate::gpio::pack(digit_value(tok[1]) as nat, pin_number_of(tok) as nat))
            == digit_value(tok[1]),
        crate::gpio::pin_of(crate::gpio::pack(digit_value(tok[1]) as nat, pin_number_of(tok) as nat))
            == pin_number_of(tok),
        crate::gpio::valid_index(crate::gpio::pack(digit_value(tok[1]) as nat, pin_number_of(tok) as nat)),
{
    crate::gpio::lemma_pack_unpack(digit_value(tok[1]) as nat, pin_number_of(tok) as nat);
}

} // verus!

//! Panic bookkeeping and symbol lookup for stack traces.
//!
//! The kernel keeps a count of panics in flight so that a panic raised while
//! another is being unwound is reported and stops the machine. Stack traces
//! name each return address after the nearest symbol below it in the symbol
//! map, a text file of lines `AAAAAAAAAAAAAAAA T name`, where the first 16
//! bytes are the symbol's address in hexadecimal and the name starts at byte
//! 19 of the line.

use vstd::prelude::*;
use vstd::utf8::{valid_utf8, is_char_boundary};
use vstd::string::StringSliceAdditionalSpecFns;

verus! {

/// The value of a hexadecimal digit, if `b` is one (`0-9`, `a-f`, `A-F`).
pub open spec fn hex_digit(b: u8) -> Option<int> {
    if 0x30 <= b <= 0x39 {
        Some(b - 0x30)
    } else if 0x61 <= b <= 0x66 {
        Some(b - 0x61 + 10)
    } else if 0x41 <= b <= 0x46 {
        Some(b - 0x41 + 10)
    } else {
        None
    }
}

/// The value of the hexadecimal numeral `s`, if every byte is a digit.
pub open spec fn hex_value(s: Seq<u8>) -> Option<int>
    decreases s.len(),
{
    if s.len() == 0 {
        Some(0)
    } else {
        match (hex_value(s.drop_last()), hex_digit(s.last())) {
            (Some(v), Some(d)) => Some(v * 16 + d),
            _ => None,
        }
    }
}

/// What `usize::from_str_radix(s, 16)` gives for the text `s`: an optional
/// leading `+`, then at least one hexadecimal digit, with a value that fits
/// in a `usize`.
pub open spec fn parse_hex_usize(s: Seq<u8>) -> Option<usize> {
    let digits = if s.len() >= 1 && s[0] == 0x2b {
        s.drop_first()
    } else {
        s
    };
    if digits.len() == 0 {
        None
    } else {
        match hex_value(digits) {
            Some(v) => if v <= usize::MAX {
                Some(v as usize)
            } else {
                None
            },
            None => None,
        }
    }
}

proof fn lemma_hex_value_nonneg(s: Seq<u8>)
    ensures
        hex_value(s) matches Some(v) ==> v >= 0,
    decreases s.len(),
{
    if s.len() > 0 {
        lemma_hex_value_nonneg(s.drop_last());
    }
}

/// The byte that writes the hexadecimal digit `d`, for `d` in `0..16`: one of
/// `0-9`, then `a-f`, or `A-F` when `upper`.
pub open spec fn hex_char(d: int, upper: bool) -> u8 {
    if d < 10 {
        (0x30 + d) as u8
    } else if upper {
        (0x41 + d - 10) as u8
    } else {
        (0x61 + d - 10) as u8
    }
}

/// Sixteen to the power `k`.
pub open spec fn pow16(k: nat) -> nat
    decreases k,
{
    if k == 0 {
        1
    } else {
        16 * pow16((k - 1) as nat)
    }
}

/// The `k` lowest hexadecimal digits of `x`, most significant first, in
/// lower or upper case.
pub open spec fn hex_digits(x: nat, k: nat, upper: bool) -> Seq<u8>
    decreases k,
{
    if k == 0 {
        Seq::empty()
    } else {
        hex_digits(x / 16, (k - 1) as nat, upper).push(hex_char((x % 16) as int, upper))
    }
}

/// The digit bytes are exactly the bytes that write a digit: each of the
/// sixteen digits, in either case, is read as its own value, every decimal
/// digit `0-9` among them, and a byte read as a digit is one of the two that
/// write it.
pub proof fn lemma_hex_digit_reads_hex_char(b: u8, d: int, upper: bool)
    ensures
        0 <= d < 16 ==> hex_digit(hex_char(d, upper)) == Some(d),
        0x30 <= b <= 0x39 ==> hex_digit(b) == Some(b - 0x30),
        hex_digit(b) matches Some(e) ==> 0 <= e < 16 && (b == hex_char(e, false) || b == hex_char(
            e,
            true,
        )),
{
}

proof fn lemma_pow16_positive(k: nat)
    ensures
        pow16(k) > 0,
    decreases k,
{
    if k > 0 {
        lemma_pow16_positive((k - 1) as nat);
    }
}

proof fn lemma_hex_digits_value(x: nat, k: nat, upper: bool)
    ensures
        hex_digits(x, k, upper).len() == k,
        forall|i: int| 0 <= i < k ==> #[trigger] hex_digit(hex_digits(x, k, upper)[i]) is Some,
        hex_value(hex_digits(x, k, upper)) == Some((x % pow16(k)) as int),
    decreases k,
{
    if k > 0 {
        let k1 = (k - 1) as nat;
        let prev = hex_digits(x / 16, k1, upper);
        let s = hex_digits(x, k, upper);
        let d = (x % 16) as int;
        lemma_hex_digits_value(x / 16, k1, upper);
        lemma_hex_digit_reads_hex_char(0, d, upper);
        lemma_pow16_positive(k1);
        assert(s.drop_last() =~= prev);
        assert forall|i: int| 0 <= i < k implies #[trigger] hex_digit(s[i]) is Some by {
            if i < k1 {
                assert(s[i] == prev[i]);
            }
        }
        vstd::arithmetic::div_mod::lemma_breakdown(x as int, 16, pow16(k1) as int);
        assert(pow16(k) == 16 * pow16(k1));
    } else {
        assert(x % 1 == 0);
    }
}

/// Writing and reading agree: `x` written in `k` hexadecimal digits, `k` at
/// least one and enough to hold it, in either case, is read back as `x`.
pub proof fn lemma_parse_hex_round_trip(x: usize, k: nat, upper: bool)
    requires
        1 <= k,
        x < pow16(k),
    ensures
        parse_hex_usize(hex_digits(x as nat, k, upper)) == Some(x),
{
    let s = hex_digits(x as nat, k, upper);
    lemma_hex_digits_value(x as nat, k, upper);
    assert(hex_digit(s[0]) is Some);
    assert(hex_digit(0x2b) is None);
    vstd::arithmetic::div_mod::lemma_small_mod(x as nat, pow16(k));
}

/// Every address, written in the sixteen hexadecimal digits of the symbol
/// map, is read back as itself.
pub proof fn lemma_parse_hex_address(x: usize, upper: bool)
    ensures
        parse_hex_usize(hex_digits(x as nat, 16, upper)) == Some(x),
{
    assert(pow16(16) == 0x1_0000_0000_0000_0000) by {
        reveal_with_fuel(pow16, 17);
    }
    lemma_parse_hex_round_trip(x, 16, upper);
}

/// Parses the text `s` as a hexadecimal `usize`, as `usize::from_str_radix`
/// with radix 16 does.
pub fn parse_hex(s: &[u8]) -> (v: Option<usize>)
    ensures
        v == parse_hex_usize(s@),
{
    let start: usize = if s.len() >= 1 && s[0] == 0x2b {
        1
    } else {
        0
    };
    let ghost digits = s@.subrange(start as int, s@.len() as int);
    proof {
        if s@.len() >= 1 && s@[0] == 0x2b {
            assert(digits =~= s@.drop_first());
        } else {
            assert(digits =~= s@);
        }
    }
    if start == s.len() {
        return None;
    }
    let mut acc: usize = 0;
    let mut i: usize = start;
    while i < s.len()
        invariant
            start <= i <= s@.len(),
            start < s@.len(),
            digits == s@.subrange(start as int, s@.len() as int),
            s@.len() >= 1 && s@[0] == 0x2b ==> digits == s@.drop_first(),
            !(s@.len() >= 1 && s@[0] == 0x2b) ==> digits == s@,
            hex_value(s@.subrange(start as int, i as int)) == Some(acc as int),
        decreases s@.len() - i,
    {
        let b = s[i];
        let d: usize = if 0x30 <= b && b <= 0x39 {
            (b - 0x30) as usize
        } else if 0x61 <= b && b <= 0x66 {
            (b - 0x61 + 10) as usize
        } else if 0x41 <= b && b <= 0x46 {
            (b - 0x41 + 10) as usize
        } else {
            proof {
                lemma_hex_none_extends(s@, start as int, i as int);
            }
            return None;
        };
        proof {
            assert(s@.subrange(start as int, i + 1).drop_last() =~= s@.subrange(start as int, i as int));
        }
        match acc.checked_mul(16) {
            Some(m) => match m.checked_add(d) {
                Some(a) => {
                    acc = a;
                },
                None => {
                    proof {
                        lemma_hex_too_big_extends(s@, start as int, i + 1);
                    }
                    return None;
                },
            },
            None => {
                proof {
                    lemma_hex_too_big_extends(s@, start as int, i + 1);
                }
                return None;
            },
        }
        i = i + 1;
    }
    proof {
        assert(s@.subrange(start as int, i as int) =~= digits);
    }
    Some(acc)
}

/// A prefix that holds a non-digit makes the whole numeral invalid.
proof fn lemma_hex_none_extends(s: Seq<u8>, start: int, i: int)
    requires
        0 <= start <= i < s.len(),
        hex_digit(s[i]) is None,
    ensures
        hex_value(s.subrange(start, s.len() as int)) is None,
{
    lemma_hex_prefix_none(s.subrange(start, s.len() as int), i - start + 1);
}

/// Once a prefix of a numeral is invalid, every longer prefix is.
proof fn lemma_hex_prefix_none(t: Seq<u8>, k: int)
    requires
        1 <= k <= t.len(),
        hex_value(t.subrange(0, k)) is None || hex_digit(t[k - 1]) is None,
    ensures
        hex_value(t) is None,
    decreases t.len() - k,
{
    assert(t.subrange(0, k).drop_last() =~= t.subrange(0, k - 1));
    if k == t.len() {
        assert(t.subrange(0, k) =~= t);
    } else {
        assert(t.subrange(0, k + 1).drop_last() =~= t.subrange(0, k));
        lemma_hex_prefix_none(t, k + 1);
    }
}

/// Once a prefix of a numeral is too big for a `usize`, so is the whole
/// numeral, or it is invalid.
proof fn lemma_hex_too_big_extends(s: Seq<u8>, start: int, i: int)
    requires
        0 <= start < i <= s.len(),
        hex_value(s.subrange(start, i)) matches Some(v) ==> v > usize::MAX,
    ensures
        hex_value(s.subrange(start, s.len() as int)) matches Some(v) ==> v > usize::MAX,
    decreases s.len() - i,
{
    if i < s.len() {
        assert(s.subrange(start, i + 1).drop_last() =~= s.subrange(start, i));
        lemma_hex_value_nonneg(s.subrange(start, i));
        lemma_hex_too_big_extends(s, start, i + 1);
    }
}

/// The position of the first line feed at or after `i` in `s`, or the length
/// of `s` when there is none.
pub open spec fn next_newline(s: Seq<u8>, i: int) -> int
    decreases s.len() - i,
{
    if i >= s.len() {
        s.len() as int
    } else if s[i] == 0x0a {
        i
    } else {
        next_newline(s, i + 1)
    }
}

/// The line feed found from `i` lies at or after `i`, and no line feed comes
/// before it.
pub proof fn lemma_next_newline(s: Seq<u8>, i: int)
    requires
        0 <= i <= s.len(),
    ensures
        i <= next_newline(s, i) <= s.len(),
        next_newline(s, i) < s.len() ==> s[next_newline(s, i)] == 0x0a,
        forall|k: int| i <= k < next_newline(s, i) ==> s[k] != 0x0a,
    decreases s.len() - i,
{
    if i < s.len() && s[i] != 0x0a {
        lemma_next_newline(s, i + 1);
    }
}

/// What reading one line of a symbol map at position `i` gives.
pub enum SymbolLine {
    /// The listing ends here: at the end of the map, at a line that is not
    /// UTF-8, or at a line whose address does not parse.
    End,
    /// Reading the line fails: it has no line feed, or is too short to hold
    /// an address and a name at character boundaries.
    Malformed,
    /// A symbol at `addr` whose name is the bytes `name_start..name_end`;
    /// the next line starts at `next`.
    Symbol { addr: usize, name_start: int, name_end: int, next: int },
}

/// The line of the symbol map `s` that starts at position `i`.
pub open spec fn symbol_line(s: Seq<u8>, i: int) -> SymbolLine {
    let j = next_newline(s, i);
    let line = s.subrange(i, j);
    if i >= s.len() {
        SymbolLine::End
    } else if j >= s.len() {
        SymbolLine::Malformed
    } else if !valid_utf8(line) {
        SymbolLine::End
    } else if !is_char_boundary(line, 16) || !is_char_boundary(line, 19) {
        SymbolLine::Malformed
    } else {
        match parse_hex_usize(line.subrange(0, 16)) {
            Some(addr) => SymbolLine::Symbol { addr, name_start: i + 19, name_end: j, next: j + 1 },
            None => SymbolLine::End,
        }
    }
}

/// The name that a symbol lookup settles on.
pub enum SymbolName {
    /// No symbol map is loaded.
    NoSymbols,
    /// No symbol at a non-zero address at or below the address looked up.
    Unknown,
    /// The name held in bytes `start..end` of the symbol map.
    Found(int, int),
}

/// The name that looking up `ip` in the symbol map `s` gives when the lines
/// before position `i` have left the name `cur`, or `None` when reading a
/// line on the way fails. The lines are taken in order until the listing
/// ends or a symbol lies above `ip`; each symbol at a non-zero address at or
/// below `ip` replaces the name found so far.
pub open spec fn scan_symbols(s: Seq<u8>, i: int, ip: usize, cur: SymbolName) -> Option<SymbolName>
    decreases s.len() - i,
{
    if i < 0 || i > s.len() {
        Some(cur)
    } else {
        match symbol_line(s, i) {
            SymbolLine::End => Some(cur),
            SymbolLine::Malformed => None,
            SymbolLine::Symbol { addr, name_start, name_end, next } => {
                if addr > ip {
                    Some(cur)
                } else {
                    proof {
                        lemma_next_newline(s, i);
                    }
                    scan_symbols(
                        s,
                        next,
                        ip,
                        if addr != 0 {
                            SymbolName::Found(name_start, name_end)
                        } else {
                            cur
                        },
                    )
                }
            },
        }
    }
}

/// The bytes `start..end` of the symbol map `s` are the name of a symbol
/// listed in it at a non-zero address at or below `ip`.
pub open spec fn names_symbol_below(s: Seq<u8>, start: int, end: int, ip: usize) -> bool {
    exists|j: int|
        #![trigger symbol_line(s, j)]
        0 <= j < s.len() && (symbol_line(s, j) matches SymbolLine::Symbol {
            addr,
            name_start,
            name_end,
            next,
        } && name_start == start && name_end == end && addr <= ip && addr != 0)
}

proof fn lemma_scan_finds_symbol_below(s: Seq<u8>, i: int, ip: usize, cur: SymbolName)
    requires
        0 <= i,
        cur matches SymbolName::Found(a, b) ==> names_symbol_below(s, a, b, ip),
        cur !is NoSymbols,
    ensures
        scan_symbols(s, i, ip, cur) matches Some(r) ==> r !is NoSymbols && (r matches SymbolName::Found(
            a,
            b,
        ) ==> names_symbol_below(s, a, b, ip)),
    decreases s.len() - i,
{
    if i <= s.len() {
        match symbol_line(s, i) {
            SymbolLine::Symbol { addr, name_start, name_end, next } => {
                if addr <= ip {
                    lemma_next_newline(s, i);
                    let cur2 = if addr != 0 {
                        SymbolName::Found(name_start, name_end)
                    } else {
                        cur
                    };
                    if addr != 0 {
                        assert(names_symbol_below(s, name_start, name_end, ip));
                    }
                    lemma_scan_finds_symbol_below(s, next, ip, cur2);
                }
            },
            _ => {},
        }
    }
}

/// A symbol lookup in a loaded map names `"<unknown>"` or a symbol listed in
/// the map at a non-zero address at or below the address looked up.
pub proof fn lemma_lookup_names_symbol_below(s: Seq<u8>, ip: usize)
    ensures
        scan_symbols(s, 0, ip, SymbolName::Unknown) matches Some(r) ==> r !is NoSymbols && (
        r matches SymbolName::Found(a, b) ==> names_symbol_below(s, a, b, ip)),
{
    lemma_scan_finds_symbol_below(s, 0, ip, SymbolName::Unknown);
}

/// The text of a UTF-8 byte string.
///
/// Trusted: calls `core::str::from_utf8`, which by its documentation returns
/// `Ok` exactly when `bytes` is valid UTF-8, and then a string slice of those
/// same bytes. The contract states this with vstd's definition of UTF-8
/// validity.
#[verifier::external_body]
fn str_from_utf8(bytes: &[u8]) -> (text: Option<&str>)
    ensures
        text is Some <==> valid_utf8(bytes@),
        text matches Some(t) ==> t.spec_bytes() == bytes@,
{
    core::str::from_utf8(bytes).ok()
}

/// The name of the symbol that the instruction at `ip` belongs to, as
/// [`get_symbol_name`] gives it, or `None` when a line of the map that the
/// lookup reads is malformed (where `get_symbol_name` cannot proceed).
pub fn try_get_symbol_name<'a>(map: Option<&'a [u8]>, ip: usize) -> (name: Option<&'a str>)
    ensures
        map is None ==> (name matches Some(n) && n@ == "<no symbols>"@),
        map matches Some(m) ==> match scan_symbols(m@, 0, ip, SymbolName::Unknown) {
            None => name is None,
            Some(SymbolName::Found(start, end)) => name matches Some(n) && n.spec_bytes() == m@.subrange(
                start,
                end,
            ),
            Some(_) => name matches Some(n) && n@ == "<unknown>"@,
        },
{
    let bytes = match map {
        Some(m) => m,
        None => {
            return Some("<no symbols>");
        },
    };
    let ghost s = bytes@;
    let ghost mut cur = SymbolName::Unknown;
    let mut sym_name: &'a str = "<unknown>";
    let mut index: usize = 0;
    loop
        invariant
            s == bytes@,
            map == Some(bytes),
            0 <= index <= s.len(),
            scan_symbols(s, index as int, ip, cur) == scan_symbols(s, 0, ip, SymbolName::Unknown),
            match cur {
                SymbolName::Found(start, end) => sym_name.spec_bytes() == s.subrange(start, end),
                _ => sym_name@ == "<unknown>"@,
            },
        ensures
            scan_symbols(s, 0, ip, SymbolName::Unknown) == Some(cur),
            match cur {
                SymbolName::Found(start, end) => sym_name.spec_bytes() == s.subrange(start, end),
                _ => sym_name@ == "<unknown>"@,
            },
        decreases s.len() - index,
    {
        if index == bytes.len() {
            break;
        }
        proof {
            lemma_next_newline(s, index as int);
        }
        let mut idx: usize = index;
        while idx < bytes.len() && bytes[idx] != 0x0a
            invariant
                s == bytes@,
                index <= idx <= next_newline(s, index as int),
                forall|k: int| index <= k < next_newline(s, index as int) ==> s[k] != 0x0a,
                next_newline(s, index as int) <= s.len(),
                next_newline(s, index as int) < s.len() ==> s[next_newline(s, index as int)] == 0x0a,
            decreases next_newline(s, index as int) - idx,
        {
            idx = idx + 1;
        }
        if idx == bytes.len() {
            return None;
        }
        let line = &bytes[index..idx];
        let data = match str_from_utf8(line) {
            Some(d) => d,
            None => {
                break;
            },
        };
        if !data.is_char_boundary(16) || !data.is_char_boundary(19) {
            return None;
        }
        let (addr_text, _) = data.split_at(16);
        let (_, name) = data.split_at(19);
        proof {
            assert(addr_text.spec_bytes() =~= line@.subrange(0, 16));
        }
        let addr = match parse_hex(addr_text.as_bytes()) {
            Some(a) => a,
            None => {
                break;
            },
        };
        if addr > ip {
            break;
        }
        index = idx + 1;
        if addr != 0 {
            sym_name = name;
            proof {
                cur = SymbolName::Found(idx - line@.len() + 19, idx as int);
                assert(name.spec_bytes() =~= s.subrange(idx - line@.len() + 19, idx as int));
            }
        }
    }
    Some(sym_name)
}

/// The name of the symbol that the instruction at `ip` belongs to: the last
/// symbol of the map at a non-zero address at or below `ip`, taking the lines
/// of the map in order and stopping at the first symbol above `ip` or where
/// the listing ends. `"<no symbols>"` when no map is loaded and `"<unknown>"`
/// when no symbol qualifies. The lines read must be well formed.
pub fn get_symbol_name<'a>(map: Option<&'a [u8]>, ip: usize) -> (name: &'a str)
    requires
        map matches Some(m) ==> scan_symbols(m@, 0, ip, SymbolName::Unknown) is Some,
    ensures
        map is None ==> name@ == "<no symbols>"@,
        map matches Some(m) ==> match scan_symbols(m@, 0, ip, SymbolName::Unknown).unwrap() {
            SymbolName::Found(start, end) => name.spec_bytes() == m@.subrange(start, end),
            _ => name@ == "<unknown>"@,
        },
{
    try_get_symbol_name(map, ip).unwrap()
}

/// How many panics are being unwound on this machine.
#[derive(Debug)]
pub struct PanicCount {
    count: usize,
}

impl PanicCount {
    /// The number of panics in flight.
    pub closed spec fn value(&self) -> usize {
        self.count
    }

    /// No panic in flight.
    pub fn new() -> (pc: Self)
        ensures
            pc.value() == 0,
    {
        PanicCount { count: 0 }
    }

    /// Whether a panic is being unwound.
    pub fn panicking(&self) -> (b: bool)
        ensures
            b == (self.value() >= 1),
    {
        self.count >= 1
    }

    /// Forgets the panics in flight, once one has been caught.
    pub fn reset(&mut self)
        ensures
            final(self).value() == 0,
    {
        self.count = 0;
    }

    /// Claims the right to unwind a new panic: succeeds, and records one panic
    /// in flight, only when none was.
    pub fn try_begin(&mut self) -> (began: bool)
        ensures
            (began, final(self).value()) == claim(old(self).value()),
    {
        if self.count == 0 {
            self.count = 1;
            true
        } else {
            false
        }
    }
}

/// What the kernel reports when a panic cannot be unwound.
#[derive(Debug, Clone, Copy, PartialEq, Eq, Structural)]
pub enum PanicReport {
    /// A panic was raised while another was being unwound.
    NestedPanic,
    /// The unwinder reached the end of the stack: nothing caught the panic.
    Aborting,
    /// The unwinder failed with this reason code.
    FailedToPanic(i32),
}

/// The report for an unwind that returned with reason `code`, where
/// `end_of_stack` is the unwinder's code for running off the end of the
/// stack without finding a handler.
pub fn unwind_failure(code: i32, end_of_stack: i32) -> (report: PanicReport)
    ensures
        code == end_of_stack ==> report == PanicReport::Aborting,
        code != end_of_stack ==> report == PanicReport::FailedToPanic(code),
{
    if code == end_of_stack {
        PanicReport::Aborting
    } else {
        PanicReport::FailedToPanic(code)
    }
}

/// Claiming the right to unwind from `count` panics in flight: whether the
/// claim succeeds, and the count afterwards.
pub open spec fn claim(count: usize) -> (bool, usize) {
    if count == 0 {
        (true, 1)
    } else {
        (false, count)
    }
}

/// A panic raised while another is in flight is refused until the first has
/// been caught: after a successful claim a second claim fails and a panic is
/// in flight; once catching has reset the count, a claim succeeds again.
pub proof fn lemma_nested_panic_refused(count: usize)
    ensures
        claim(count).0 ==> !claim(claim(count).1).0 && claim(count).1 >= 1,
        claim(0).0,
{
}

} // verus!

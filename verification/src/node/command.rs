//! What a line typed on the node's console asks for: `tx <from> <to> <amount>`
//! (keys in hex) or `mine`; anything else is ignored.

use vstd::prelude::*;
use crate::types::{PublicKey, parse_key};
use crate::encoding::push_char;

verus! {

broadcast use vstd::string::group_string_axioms;

/// A console command of the node.
#[derive(Debug, Clone, Copy, PartialEq, Eq)]
pub enum StdinCommand {
    /// Broadcast and queue a transfer of `amount` from `from` to `to`.
    Transfer { from: PublicKey, to: PublicKey, amount: u64 },
    /// Mine the mempool into a block and broadcast it.
    Mine,
    /// Not a command.
    Ignored,
}

/// Unicode `White_Space`, the characters `char::is_whitespace` accepts.
pub open spec fn is_white_space(c: char) -> bool {
    let u = c as u32;
    ||| 0x09 <= u <= 0x0d
    ||| u == 0x20
    ||| u == 0x85
    ||| u == 0xa0
    ||| u == 0x1680
    ||| 0x2000 <= u <= 0x200a
    ||| u == 0x2028
    ||| u == 0x2029
    ||| u == 0x202f
    ||| u == 0x205f
    ||| u == 0x3000
}

/// Leading white space removed.
pub open spec fn trim_start(s: Seq<char>) -> Seq<char>
    decreases s.len(),
{
    if s.len() > 0 && is_white_space(s[0]) {
        trim_start(s.drop_first())
    } else {
        s
    }
}

/// Trailing white space removed.
pub open spec fn trim_end(s: Seq<char>) -> Seq<char>
    decreases s.len(),
{
    if s.len() > 0 && is_white_space(s.last()) {
        trim_end(s.drop_last())
    } else {
        s
    }
}

/// Leading and trailing white space removed, as `str::trim` does.
pub open spec fn trim(s: Seq<char>) -> Seq<char> {
    trim_end(trim_start(s))
}

/// Whether a character is an ASCII decimal digit.
pub open spec fn is_digit(c: char) -> bool {
    0x30 <= (c as u32) <= 0x39
}

/// The number that decimal digits denote.
pub open spec fn digits_value(d: Seq<char>) -> nat
    decreases d.len(),
{
    if d.len() == 0 {
        0
    } else {
        digits_value(d.drop_last()) * 10 + ((d.last() as u32) - 0x30) as nat
    }
}

/// `u64` parsing as `str::parse::<u64>` does it: an optional `+`, then at
/// least one ASCII digit and nothing else, with a value that fits.
pub open spec fn parse_u64(s: Seq<char>) -> Option<u64> {
    let d = unsigned_digits(s);
    if d.len() > 0 && (forall|i: int| 0 <= i < d.len() ==> #[trigger] is_digit(d[i]))
        && digits_value(d) <= u64::MAX {
        Some(digits_value(d) as u64)
    } else {
        None
    }
}

/// The text without a leading `+`.
pub open spec fn unsigned_digits(s: Seq<char>) -> Seq<char> {
    if s.len() > 0 && s[0] == '+' {
        s.drop_first()
    } else {
        s
    }
}

/// The first space at or after `from`.
pub open spec fn next_space(s: Seq<char>, from: nat) -> Option<nat>
    decreases s.len() - from,
{
    if from >= s.len() {
        None
    } else if s[from as int] == ' ' {
        Some(from)
    } else {
        next_space(s, from + 1)
    }
}

/// The key a hex field denotes, if any.
pub open spec fn key_field(text: Seq<char>) -> Option<PublicKey> {
    match parse_key(text) {
        Ok(k) => Some(k),
        Err(_) => None,
    }
}

/// What a console line asks for. `tx ` lines are split as `splitn(4, ' ')`
/// splits them: the keys are the second and third fields, the amount the
/// trimmed rest; the line is ignored unless all three parse.
pub open spec fn stdin_command(line: Seq<char>) -> StdinCommand {
    if line.len() >= 3 && line[0] == 't' && line[1] == 'x' && line[2] == ' ' {
        match next_space(line, 3) {
            None => StdinCommand::Ignored,
            Some(k2) => match next_space(line, k2 + 1) {
                None => StdinCommand::Ignored,
                Some(k3) => {
                    let from = key_field(line.subrange(3, k2 as int));
                    let to = key_field(line.subrange(k2 + 1 as int, k3 as int));
                    let amount = parse_u64(trim(line.subrange(k3 + 1 as int, line.len() as int)));
                    if amount is Some && from is Some && to is Some {
                        StdinCommand::Transfer { from: from->0, to: to->0, amount: amount->0 }
                    } else {
                        StdinCommand::Ignored
                    }
                },
            },
        }
    } else if trim(line) == seq!['m', 'i', 'n', 'e'] {
        StdinCommand::Mine
    } else {
        StdinCommand::Ignored
    }
}

/// The characters of a text, in order.
pub fn chars_of(text: &str) -> (r: Vec<char>)
    ensures
        r@ == text@,
{
    let mut out: Vec<char> = Vec::new();
    for c in it: text.chars()
        invariant
            out@ == it.seq().take(it.index() as int),
    {
        out.push(c);
    }
    out
}

fn white_space(c: char) -> (r: bool)
    ensures
        r == is_white_space(c),
{
    let u = c as u32;
    (0x09 <= u && u <= 0x0d) || u == 0x20 || u == 0x85 || u == 0xa0 || u == 0x1680 || (0x2000 <= u
        && u <= 0x200a) || u == 0x2028 || u == 0x2029 || u == 0x202f || u == 0x205f || u == 0x3000
}

/// The bounds of `cs[a..b]` with white space trimmed off both ends.
fn trim_range(cs: &Vec<char>, a: usize, b: usize) -> (r: (usize, usize))
    requires
        a <= b <= cs@.len(),
    ensures
        a <= r.0 <= r.1 <= b,
        cs@.subrange(r.0 as int, r.1 as int) == trim(cs@.subrange(a as int, b as int)),
{
    let mut lo = a;
    while lo < b && white_space(cs[lo])
        invariant
            a <= lo <= b <= cs@.len(),
            trim_start(cs@.subrange(a as int, b as int)) == trim_start(
                cs@.subrange(lo as int, b as int),
            ),
        decreases b - lo,
    {
        assert(cs@.subrange(lo as int, b as int).drop_first() =~= cs@.subrange(
            lo + 1,
            b as int,
        ));
        lo = lo + 1;
    }
    let mut hi = b;
    while hi > lo && white_space(cs[hi - 1])
        invariant
            a <= lo <= hi <= b <= cs@.len(),
            trim_start(cs@.subrange(a as int, b as int)) == cs@.subrange(lo as int, b as int),
            trim(cs@.subrange(a as int, b as int)) == trim_end(cs@.subrange(lo as int, hi as int)),
        decreases hi - lo,
    {
        assert(cs@.subrange(lo as int, hi as int).drop_last() =~= cs@.subrange(
            lo as int,
            hi - 1,
        ));
        hi = hi - 1;
    }
    (lo, hi)
}

/// A digit-only prefix never denotes more than the whole.
proof fn lemma_digits_value_monotone(d: Seq<char>, j: int)
    requires
        0 <= j <= d.len(),
        forall|i: int| 0 <= i < d.len() ==> #[trigger] is_digit(d[i]),
    ensures
        digits_value(d.take(j)) <= digits_value(d),
    decreases d.len() - j,
{
    if j < d.len() {
        lemma_digits_value_monotone(d, j + 1);
        assert(d.take(j + 1).drop_last() =~= d.take(j));
    } else {
        assert(d.take(j) =~= d);
    }
}

/// Parses `cs[a..b]` as `str::parse::<u64>` does.
fn parse_u64_range(cs: &Vec<char>, a: usize, b: usize) -> (r: Option<u64>)
    requires
        a <= b <= cs@.len(),
    ensures
        r == parse_u64(cs@.subrange(a as int, b as int)),
{
    let ghost s = cs@.subrange(a as int, b as int);
    let mut start = a;
    if a < b && cs[a] == '+' {
        start = a + 1;
    }
    let ghost d = cs@.subrange(start as int, b as int);
    assert(d == unsigned_digits(s)) by {
        if a < b {
            assert(s.drop_first() =~= cs@.subrange(a + 1, b as int));
        }
    }
    if start == b {
        return None;
    }
    let mut value: u64 = 0;
    let mut i = start;
    while i < b
        invariant
            a <= start < b <= cs@.len(),
            start <= i <= b,
            s == cs@.subrange(a as int, b as int),
            d == unsigned_digits(s),
            d == cs@.subrange(start as int, b as int),
            forall|j: int| 0 <= j < i - start ==> #[trigger] is_digit(d[j]),
            value == digits_value(d.take(i - start)),
        decreases b - i,
    {
        let c = cs[i];
        let u = c as u32;
        if u < 0x30 || u > 0x39 {
            assert(!is_digit(d[i - start]));
            return None;
        }
        let digit = (u - 0x30) as u64;
        assert(d.take(i - start + 1).drop_last() =~= d.take(i - start));
        if value > (u64::MAX - digit) / 10 {
            proof {
                if forall|j: int| 0 <= j < d.len() ==> #[trigger] is_digit(d[j]) {
                    lemma_digits_value_monotone(d, i - start + 1);
                }
            }
            return None;
        }
        value = value * 10 + digit;
        i = i + 1;
    }
    assert(d.take(b - start) =~= d);
    Some(value)
}

/// The text of `cs[a..b]`.
fn text_of(cs: &Vec<char>, a: usize, b: usize) -> (r: String)
    requires
        a <= b <= cs@.len(),
    ensures
        r@ == cs@.subrange(a as int, b as int),
{
    let mut s = String::new();
    let mut i = a;
    while i < b
        invariant
            a <= i <= b <= cs@.len(),
            s@ == cs@.subrange(a as int, i as int),
        decreases b - i,
    {
        push_char(&mut s, cs[i]);
        assert(cs@.subrange(a as int, i + 1) =~= cs@.subrange(a as int, i as int).push(cs@[i as int]));
        i = i + 1;
    }
    s
}

/// The first space in `cs` at or after `from`.
fn find_space(cs: &Vec<char>, from: usize) -> (r: Option<usize>)
    requires
        from <= cs@.len(),
    ensures
        match r {
            Some(k) => next_space(cs@, from as nat) == Some(k as nat) && from <= k < cs@.len(),
            None => next_space(cs@, from as nat) is None,
        },
{
    let mut i = from;
    while i < cs.len()
        invariant
            from <= i <= cs@.len(),
            next_space(cs@, from as nat) == next_space(cs@, i as nat),
        decreases cs@.len() - i,
    {
        if cs[i] == ' ' {
            return Some(i);
        }
        i = i + 1;
    }
    None
}

/// Reads the fields of a `tx ` line.
#[verifier::rlimit(30)]
fn parse_transfer(cs: &Vec<char>) -> (r: StdinCommand)
    requires
        cs@.len() >= 3,
        cs@[0] == 't' && cs@[1] == 'x' && cs@[2] == ' ',
    ensures
        r == stdin_command(cs@),
{
    let n = cs.len();
    let k2 = match find_space(cs, 3) {
        Some(k) => k,
        None => {
            return StdinCommand::Ignored;
        },
    };
    let k3 = match find_space(cs, k2 + 1) {
        Some(k) => k,
        None => {
            return StdinCommand::Ignored;
        },
    };
    let (lo, hi) = trim_range(cs, k3 + 1, n);
    let ghost from_field = key_field(cs@.subrange(3, k2 as int));
    let ghost to_field = key_field(cs@.subrange(k2 + 1, k3 as int));
    let ghost amount_field = parse_u64(trim(cs@.subrange(k3 + 1, n as int)));
    assert(stdin_command(cs@) == if amount_field is Some && from_field is Some && to_field is Some {
        StdinCommand::Transfer { from: from_field->0, to: to_field->0, amount: amount_field->0 }
    } else {
        StdinCommand::Ignored
    });
    let amount = match parse_u64_range(cs, lo, hi) {
        Some(a) => a,
        None => {
            return StdinCommand::Ignored;
        },
    };
    let from_text = text_of(cs, 3, k2);
    let to_text = text_of(cs, k2 + 1, k3);
    match (PublicKey::from_hex(from_text.as_str()), PublicKey::from_hex(to_text.as_str())) {
        (Ok(from), Ok(to)) => StdinCommand::Transfer { from, to, amount },
        _ => StdinCommand::Ignored,
    }
}

/// Reads a console line: `tx <from_hex> <to_hex> <amount>` or `mine`.
pub fn parse_stdin_command(line: &str) -> (r: StdinCommand)
    ensures
        r == stdin_command(line@),
{
    let cs = chars_of(line);
    let n = cs.len();
    if n >= 3 && cs[0] == 't' && cs[1] == 'x' && cs[2] == ' ' {
        parse_transfer(&cs)
    } else {
        let (lo, hi) = trim_range(&cs, 0, n);
        assert(cs@.subrange(0, n as int) =~= cs@);
        if hi - lo == 4 && cs[lo] == 'm' && cs[lo + 1] == 'i' && cs[lo + 2] == 'n' && cs[lo + 3]
            == 'e' {
            assert(cs@.subrange(lo as int, hi as int) =~= seq!['m', 'i', 'n', 'e']);
            StdinCommand::Mine
        } else {
            proof {
                let t = cs@.subrange(lo as int, hi as int);
                let m = seq!['m', 'i', 'n', 'e'];
                if t == m {
                    assert(t.len() == 4);
                    assert(t[0] == 'm' && t[1] == 'i' && t[2] == 'n' && t[3] == 'e');
                }
            }
            StdinCommand::Ignored
        }
    }
}

} // verus!

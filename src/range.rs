//! The block range given on the command line.
use vstd::prelude::*;
use vstd::string::StrSliceExecFns;

verus! {

/// A closed range of block numbers, `start` to `end` inclusive.
#[derive(Clone, Copy, Debug, PartialEq, Eq, Structural)]
pub struct BlockRange {
    pub start: u64,
    pub end: u64,
}

impl BlockRange {
    /// A range is well formed when it is not empty.
    pub open spec fn wf(self) -> bool {
        self.start <= self.end
    }
}

/// Why the command line was refused.
#[derive(Clone, Copy, Debug, PartialEq, Eq, Structural)]
pub enum UsageError {
    /// Neither one nor two arguments were given.
    ArgumentCount,
    /// An argument is not a block number.
    NotANumber,
    /// The first block comes after the last.
    StartAfterEnd,
}

pub open spec fn is_digit(c: char) -> bool {
    '0' <= c && c <= '9'
}

pub open spec fn digit_value(c: char) -> nat {
    (c as int - '0' as int) as nat
}

/// The number that a string of decimal digits spells.
pub open spec fn digits_value(s: Seq<char>) -> nat
    decreases s.len(),
{
    if s.len() == 0 {
        0
    } else {
        digits_value(s.drop_last()) * 10 + digit_value(s.last())
    }
}

pub open spec fn all_digits(s: Seq<char>) -> bool {
    forall|i: int| 0 <= i < s.len() ==> is_digit(#[trigger] s[i])
}

/// The text after an optional leading plus sign.
pub open spec fn unsigned_part(s: Seq<char>) -> Seq<char> {
    if s.len() > 0 && s[0] == '+' {
        s.drop_first()
    } else {
        s
    }
}

/// The block number that an argument denotes: an optional `+`, then one or
/// more decimal digits whose value fits in 64 bits.
pub open spec fn block_number_of(s: Seq<char>) -> Option<u64> {
    let d = unsigned_part(s);
    if d.len() > 0 && all_digits(d) && digits_value(d) <= u64::MAX {
        Some(digits_value(d) as u64)
    } else {
        None
    }
}

/// What the arguments after the program's name denote.
pub open spec fn range_of(args: Seq<Seq<char>>) -> Result<BlockRange, UsageError> {
    if args.len() == 1 {
        match block_number_of(args[0]) {
            Some(n) => Ok(BlockRange { start: n, end: n }),
            None => Err(UsageError::NotANumber),
        }
    } else if args.len() == 2 {
        match (block_number_of(args[0]), block_number_of(args[1])) {
            (Some(a), Some(b)) => if a <= b {
                Ok(BlockRange { start: a, end: b })
            } else {
                Err(UsageError::StartAfterEnd)
            },
            _ => Err(UsageError::NotANumber),
        }
    } else {
        Err(UsageError::ArgumentCount)
    }
}

proof fn lemma_digits_prefix_grows(s: Seq<char>, i: int)
    requires
        0 <= i <= s.len(),
        all_digits(s),
    ensures
        digits_value(s.subrange(0, i)) <= digits_value(s),
    decreases s.len() - i,
{
    if i < s.len() {
        lemma_digits_prefix_grows(s, i + 1);
        let p = s.subrange(0, i + 1);
        assert(p.drop_last() =~= s.subrange(0, i));
    }
    else {
        assert(s.subrange(0, i) =~= s);
    }
}

/// Reads one block number.
pub fn parse_block_number(arg: &String) -> (r: Option<u64>)
    ensures
        r == block_number_of(arg@),
{
    let s = arg.as_str();
    let n = s.unicode_len();
    let mut i: usize = 0;
    if n > 0 && s.get_char(0) == '+' {
        i = 1;
    }
    let first = i;
    let ghost d = unsigned_part(arg@);
    assert(d =~= arg@.subrange(first as int, n as int));
    if first == n {
        return None;
    }
    let mut acc: u64 = 0;
    while i < n
        invariant
            first <= i <= n,
            n == arg@.len(),
            s@ == arg@,
            d =~= arg@.subrange(first as int, n as int),
            d == unsigned_part(arg@),
            all_digits(d.subrange(0, i - first)),
            acc as nat == digits_value(d.subrange(0, i - first)),
        decreases n - i,
    {
        let c = s.get_char(i);
        let ghost k = i - first;
        assert(d[k] == c);
        if c < '0' || c > '9' {
            assert(!is_digit(d[k]));
            assert(!all_digits(d));
            return None;
        }
        let v = (c as u32 - '0' as u32) as u64;
        assert(v as nat == digit_value(c));
        let ghost p = d.subrange(0, k + 1);
        assert(p.drop_last() =~= d.subrange(0, k));
        assert(p.last() == c);
        assert(digits_value(p) == acc * 10 + v);
        if acc > (u64::MAX - v) / 10 {
            assert(digits_value(d.subrange(0, k + 1)) > u64::MAX) by (nonlinear_arith)
                requires
                    acc > (u64::MAX - v) / 10,
                    digits_value(d.subrange(0, k + 1)) == acc * 10 + v,
            ;
            proof {
                if all_digits(d) {
                    lemma_digits_prefix_grows(d, k + 1);
                }
            }
            return None;
        }
        acc = acc * 10 + v;
        i = i + 1;
        assert(all_digits(d.subrange(0, i - first)));
    }
    assert(d.subrange(0, n - first) =~= d);
    Some(acc)
}

/// Reads the block range from the arguments that follow the program's name:
/// one block number for a single block, or the first and last block.
pub fn parse_range(args: &Vec<String>) -> (r: Result<BlockRange, UsageError>)
    ensures
        r == range_of(args@.map_values(|a: String| a@)),
        r matches Ok(range) ==> range.wf(),
{
    if args.len() == 1 {
        match parse_block_number(&args[0]) {
            Some(n) => Ok(BlockRange { start: n, end: n }),
            None => Err(UsageError::NotANumber),
        }
    } else if args.len() == 2 {
        let a = parse_block_number(&args[0]);
        let b = parse_block_number(&args[1]);
        match (a, b) {
            (Some(a), Some(b)) => if a <= b {
                Ok(BlockRange { start: a, end: b })
            } else {
                Err(UsageError::StartAfterEnd)
            },
            _ => Err(UsageError::NotANumber),
        }
    } else {
        Err(UsageError::ArgumentCount)
    }
}

/// The block that follows `current` in the range, if any.
pub fn next_block(range: &BlockRange, current: u64) -> (r: Option<u64>)
    ensures
        r == (if current < range.end { Some((current + 1) as u64) } else { None::<u64> }),
{
    if current < range.end {
        Some(current + 1)
    } else {
        None
    }
}

/// A single block number names the range that holds that block alone.
pub proof fn lemma_single_argument(arg: Seq<char>, n: u64)
    requires
        block_number_of(arg) == Some(n),
    ensures
        range_of(seq![arg]) == Ok::<BlockRange, UsageError>(BlockRange { start: n, end: n }),
{
}

/// Two block numbers name the range between them when the first does not
/// come after the second, and are refused otherwise.
pub proof fn lemma_two_arguments(first: Seq<char>, last: Seq<char>, a: u64, b: u64)
    requires
        block_number_of(first) == Some(a),
        block_number_of(last) == Some(b),
    ensures
        a <= b ==> range_of(seq![first, last]) == Ok::<BlockRange, UsageError>(
            BlockRange { start: a, end: b },
        ),
        a > b ==> range_of(seq![first, last]) == Err::<BlockRange, UsageError>(
            UsageError::StartAfterEnd,
        ),
{
}

} // verus!

//! Names for the per-session output files and the listening address.
use vstd::prelude::*;
use vstd::string::StringExecFns;
use rand::Rng;

verus! {

/// Exclusive upper bound of the random part of an output file name.
pub const NAME_DRAW_BOUND: u32 = 100000;

/// The character of a decimal digit.
pub open spec fn digit_char(d: nat) -> char {
    if d == 0 {
        '0'
    } else if d == 1 {
        '1'
    } else if d == 2 {
        '2'
    } else if d == 3 {
        '3'
    } else if d == 4 {
        '4'
    } else if d == 5 {
        '5'
    } else if d == 6 {
        '6'
    } else if d == 7 {
        '7'
    } else if d == 8 {
        '8'
    } else {
        '9'
    }
}

pub open spec fn is_digit(c: char) -> bool {
    '0' <= c && c <= '9'
}

/// The decimal notation of `n`, without leading zeros.
pub open spec fn decimal(n: nat) -> Seq<char>
    decreases n,
{
    if n < 10 {
        seq![digit_char(n)]
    } else {
        decimal(n / 10).push(digit_char(n % 10))
    }
}

/// The output file name for a time stamp in milliseconds and a random draw.
pub open spec fn file_name_of(millis: nat, draw: nat) -> Seq<char> {
    "MAIL_"@ + decimal(millis) + "_"@ + decimal(draw) + ".txt"@
}

/// The listening address `address:port`.
pub open spec fn bind_address_of(address: Seq<char>, port: Seq<char>) -> Seq<char> {
    address + ":"@ + port
}

fn digit_str(d: u8) -> (r: &'static str)
    requires
        d < 10,
    ensures
        r@ == seq![digit_char(d as nat)],
{
    proof {
        reveal_strlit("0");
        reveal_strlit("1");
        reveal_strlit("2");
        reveal_strlit("3");
        reveal_strlit("4");
        reveal_strlit("5");
        reveal_strlit("6");
        reveal_strlit("7");
        reveal_strlit("8");
        reveal_strlit("9");
    }
    let r = if d == 0 {
        "0"
    } else if d == 1 {
        "1"
    } else if d == 2 {
        "2"
    } else if d == 3 {
        "3"
    } else if d == 4 {
        "4"
    } else if d == 5 {
        "5"
    } else if d == 6 {
        "6"
    } else if d == 7 {
        "7"
    } else if d == 8 {
        "8"
    } else {
        "9"
    };
    assert(r@ =~= seq![digit_char(d as nat)]);
    r
}

/// The decimal notation of `n`.
pub fn decimal_string(n: u128) -> (r: String)
    ensures
        r@ == decimal(n as nat),
    decreases n,
{
    if n < 10 {
        String::from_str(digit_str(n as u8))
    } else {
        let mut s = decimal_string(n / 10);
        s.append(digit_str((n % 10) as u8));
        s
    }
}

/// The output file name `MAIL_<millis>_<draw>.txt`.
pub fn file_name(millis: u128, draw: u32) -> (r: String)
    ensures
        r@ == file_name_of(millis as nat, draw as nat),
{
    let mut s = String::from_str("MAIL_");
    s.append(decimal_string(millis).as_str());
    s.append("_");
    s.append(decimal_string(draw as u128).as_str());
    s.append(".txt");
    assert(s@ =~= file_name_of(millis as nat, draw as nat));
    s
}

/// Relies on `rand::Rng::gen_range` over `thread_rng`: a value in
/// `0..bound`; it panics on an empty range.
#[verifier::external_body]
fn draw_below(bound: u32) -> (r: u32)
    requires
        bound > 0,
    ensures
        r < bound,
{
    rand::thread_rng().gen_range(0..bound)
}

/// A fresh output file name for a session opened at `millis` (milliseconds
/// since the Unix epoch), with a random part below `NAME_DRAW_BOUND`.
pub fn build_file_name(millis: u128) -> (r: String)
    ensures
        exists|draw: nat| draw < NAME_DRAW_BOUND && r@ == file_name_of(millis as nat, draw),
{
    let draw = draw_below(NAME_DRAW_BOUND);
    file_name(millis, draw)
}

/// The address to listen on, `address:port`.
pub fn bind_address(address: &str, port: &str) -> (r: String)
    ensures
        r@ == bind_address_of(address@, port@),
{
    let mut s = String::from_str(address);
    s.append(":");
    s.append(port);
    s
}

proof fn lemma_decimal_digits(n: nat)
    ensures
        decimal(n).len() >= 1,
        forall|k: int| 0 <= k < decimal(n).len() ==> is_digit(#[trigger] decimal(n)[k]),
    decreases n,
{
    if n >= 10 {
        lemma_decimal_digits(n / 10);
    }
}

proof fn lemma_digit_char_injective(x: nat, y: nat)
    requires
        x < 10,
        y < 10,
        digit_char(x) == digit_char(y),
    ensures
        x == y,
{
}

proof fn lemma_decimal_injective(a: nat, b: nat)
    requires
        decimal(a) == decimal(b),
    ensures
        a == b,
    decreases a,
{
    if a >= 10 && b >= 10 {
        assert(decimal(a / 10) == decimal(a).drop_last());
        assert(decimal(b / 10) == decimal(b).drop_last());
        lemma_decimal_injective(a / 10, b / 10);
        assert(digit_char(a % 10) == decimal(a).last());
        assert(digit_char(b % 10) == decimal(b).last());
        lemma_digit_char_injective(a % 10, b % 10);
        assert(a == 10 * (a / 10) + a % 10);
        assert(b == 10 * (b / 10) + b % 10);
    } else if a >= 10 {
        lemma_decimal_digits(a / 10);
        assert(decimal(b).len() == 1);
    } else if b >= 10 {
        lemma_decimal_digits(b / 10);
        assert(decimal(a).len() == 1);
    } else {
        assert(decimal(a)[0] == digit_char(a));
        assert(decimal(b)[0] == digit_char(b));
        lemma_digit_char_injective(a, b);
    }
}

/// Digits followed by a non-digit split a sequence in one way only.
proof fn lemma_split_after_digits(a: Seq<char>, ra: Seq<char>, b: Seq<char>, rb: Seq<char>)
    requires
        forall|k: int| 0 <= k < a.len() ==> is_digit(#[trigger] a[k]),
        forall|k: int| 0 <= k < b.len() ==> is_digit(#[trigger] b[k]),
        ra.len() > 0 && !is_digit(ra[0]),
        rb.len() > 0 && !is_digit(rb[0]),
        a + ra == b + rb,
    ensures
        a == b,
        ra == rb,
{
    if a.len() < b.len() {
        assert((a + ra)[a.len() as int] == ra[0]);
        assert((b + rb)[a.len() as int] == b[a.len() as int]);
    } else if b.len() < a.len() {
        assert((b + rb)[b.len() as int] == rb[0]);
        assert((a + ra)[b.len() as int] == a[b.len() as int]);
    }
    assert(a =~= (a + ra).subrange(0, a.len() as int));
    assert(b =~= (b + rb).subrange(0, b.len() as int));
    assert(ra =~= (a + ra).subrange(a.len() as int, (a + ra).len() as int));
    assert(rb =~= (b + rb).subrange(b.len() as int, (b + rb).len() as int));
}

/// Two sessions get the same output file name only when both the time
/// stamp and the random draw are equal.
pub proof fn lemma_file_names_distinct(m1: nat, d1: nat, m2: nat, d2: nat)
    requires
        file_name_of(m1, d1) == file_name_of(m2, d2),
    ensures
        m1 == m2,
        d1 == d2,
{
    reveal_strlit("MAIL_");
    reveal_strlit("_");
    reveal_strlit(".txt");
    let p = "MAIL_"@;
    let u = "_"@;
    let x = ".txt"@;
    let (a, b, c, d) = (decimal(m1), decimal(m2), decimal(d1), decimal(d2));
    lemma_decimal_digits(m1);
    lemma_decimal_digits(m2);
    lemma_decimal_digits(d1);
    lemma_decimal_digits(d2);
    let s1 = file_name_of(m1, d1);
    let s2 = file_name_of(m2, d2);
    assert(s1.subrange(5, s1.len() as int) =~= a + (u + c + x));
    assert(s2.subrange(5, s2.len() as int) =~= b + (u + d + x));
    lemma_split_after_digits(a, u + c + x, b, u + d + x);
    lemma_decimal_injective(m1, m2);
    assert((u + c + x).drop_first() =~= c + x);
    assert((u + d + x).drop_first() =~= d + x);
    lemma_split_after_digits(c, x, d, x);
    lemma_decimal_injective(d1, d2);
}

} // verus!

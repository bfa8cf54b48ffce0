//! The sample client: one task per client, each of which talks to a local
//! server of its own.
use vstd::prelude::*;
use vstd::string::*;

verus! {

/// How the client is called.
pub const USAGE: &'static str = "Usage: cargo run -- <number_of_clients>";

/// The capacity of the ready queue.
pub const MAX_CHANNELS: usize = 1000;

/// The port of the first server. The servers of the other clients follow.
pub const FIRST_PORT: usize = 3000;

/// `c` is a decimal digit.
pub open spec fn is_digit(c: char) -> bool {
    '0' <= c <= '9'
}

/// The number that a decimal digit stands for.
pub open spec fn digit_value(c: char) -> int {
    c as int - '0' as int
}

/// The number that a sequence of decimal digits stands for.
pub open spec fn value(digits: Seq<char>) -> int
    decreases digits.len(),
{
    if digits.len() == 0 {
        0
    } else {
        value(digits.drop_last()) * 10 + digit_value(digits.last())
    }
}

/// The digits of a count: what follows an optional plus sign.
pub open spec fn digits_of(text: Seq<char>) -> Seq<char> {
    if text.len() > 0 && text[0] == '+' {
        text.skip(1)
    } else {
        text
    }
}

/// `text` is a number of clients: an optional plus sign and at least one decimal
/// digit, standing for a number that fits in a `usize`.
pub open spec fn is_count(text: Seq<char>) -> bool {
    let digits = digits_of(text);
    &&& digits.len() > 0
    &&& forall|i: int| 0 <= i < digits.len() ==> is_digit(#[trigger] digits[i])
    &&& value(digits) <= usize::MAX
}

/// The decimal digit for a number below ten.
pub open spec fn digit(n: nat) -> char {
    (n + '0' as nat) as char
}

/// The decimal digits of a number, without leading zeros.
pub open spec fn decimal(n: nat) -> Seq<char>
    decreases n,
{
    if n < 10 {
        seq![digit(n)]
    } else {
        decimal(n / 10).push(digit(n % 10))
    }
}

/// The number that more digits stand for is no smaller.
pub(crate) proof fn lemma_value_grows(digits: Seq<char>, i: int)
    requires
        0 <= i <= digits.len(),
        forall|j: int| 0 <= j < digits.len() ==> is_digit(#[trigger] digits[j]),
    ensures
        0 <= value(digits.take(i)) <= value(digits),
    decreases digits.len(),
{
    if i == digits.len() {
        assert(digits.take(i) =~= digits);
        if digits.len() > 0 {
            lemma_value_grows(digits.drop_last(), i - 1);
        }
    } else {
        lemma_value_grows(digits.drop_last(), i);
        assert(digits.drop_last().take(i) =~= digits.take(i));
    }
}

/// Reads a number of clients.
fn parse_count(text: &str) -> (r: Option<usize>)
    ensures
        r is Some <==> is_count(text@),
        r matches Some(n) ==> n == value(digits_of(text@)),
{
    let len: usize = text.unicode_len();
    let start: usize = if len > 0 && text.get_char(0) == '+' {
        1
    } else {
        0
    };
    let ghost digits = digits_of(text@);
    if start == len {
        return None;
    }
    let mut n: usize = 0;
    let mut i: usize = start;
    while i < len
        invariant
            len == text@.len(),
            start <= i <= len,
            start <= 1,
            digits == text@.skip(start as int),
            digits == digits_of(text@),
            forall|j: int| 0 <= j < i - start ==> is_digit(#[trigger] digits[j]),
            n == value(digits.take(i - start)),
        decreases len - i,
    {
        let c: char = text.get_char(i);
        assert(digits[i - start] == c);
        if !('0' <= c && c <= '9') {
            return None;
        }
        proof {
            assert(digits.take(i - start + 1).drop_last() =~= digits.take(i - start));
            if is_count(text@) {
                lemma_value_grows(digits, i - start + 1);
            }
        }
        let d: usize = (c as u32 - '0' as u32) as usize;
        match n.checked_mul(10) {
            None => {
                return None;
            },
            Some(m) => match m.checked_add(d) {
                None => {
                    return None;
                },
                Some(next) => {
                    n = next;
                },
            },
        }
        i = i + 1;
    }
    assert(digits.take(len - start) =~= digits);
    Some(n)
}

/// The number of clients that the arguments of the program ask for. The first
/// argument is the name of the program, and there has to be exactly one more.
pub fn client_count(args: &Vec<String>) -> (r: Option<usize>)
    ensures
        r is Some <==> args@.len() == 2 && is_count(args@[1]@),
        r matches Some(n) ==> n == value(digits_of(args@[1]@)),
{
    if args.len() != 2 {
        return None;
    }
    parse_count(args[1].as_str())
}

/// The decimal digit for a number below ten, as a string.
fn digit_str(n: usize) -> (text: &'static str)
    requires
        n < 10,
    ensures
        text@ == seq![digit(n as nat)],
{
    proof {
        reveal_strlit("0");
        reveal_strlit("1");
        reveal_strlit("2");
        reveal_strlit("3");
        reveal_strlit("4");
        reveal_strlit("5");
        reveal_strlit("6");
        reveal_strlit("7");
        reveal_strlit("8");
        reveal_strlit("9");
    }
    match n {
        0 => "0",
        1 => "1",
        2 => "2",
        3 => "3",
        4 => "4",
        5 => "5",
        6 => "6",
        7 => "7",
        8 => "8",
        _ => "9",
    }
}

/// The decimal digits of a number, without leading zeros.
fn decimal_string(n: usize) -> (text: String)
    ensures
        text@ == decimal(n as nat),
    decreases n,
{
    if n < 10 {
        String::from_str(digit_str(n))
    } else {
        let mut text: String = decimal_string(n / 10);
        text.append(digit_str(n % 10));
        text
    }
}

/// The address of the server of client `i`.
pub open spec fn spec_address(i: nat) -> Seq<char> {
    "127.0.0.1:"@ + decimal(3000 + i)
}

/// What client `i` sends to its server.
pub open spec fn spec_request(i: nat) -> Seq<char> {
    "hello from client "@ + decimal(i) + "\n"@
}

/// The address of the server of client `i`: the loopback address, and a port of
/// the client's own.
pub fn address(i: usize) -> (text: String)
    requires
        i <= usize::MAX - 3000,
    ensures
        text@ == spec_address(i as nat),
{
    let mut text: String = String::from_str("127.0.0.1:");
    text.append(decimal_string(FIRST_PORT + i).as_str());
    text
}

/// What client `i` sends to its server.
pub fn request(i: usize) -> (text: String)
    ensures
        text@ == spec_request(i as nat),
{
    let mut text: String = String::from_str("hello from client ");
    text.append(decimal_string(i).as_str());
    text.append("\n");
    text
}

/// The decimal digits of a number are digits, at least one, and stand for the
/// number.
pub(crate) proof fn lemma_decimal_value(n: nat)
    ensures
        decimal(n).len() > 0,
        forall|i: int| 0 <= i < decimal(n).len() ==> is_digit(#[trigger] decimal(n)[i]),
        value(decimal(n)) == n,
    decreases n,
{
    let digits = decimal(n);
    if n < 10 {
        assert(digits.drop_last() =~= Seq::<char>::empty());
        assert(value(digits.drop_last()) == 0);
    } else {
        lemma_decimal_value(n / 10);
        assert(digits.drop_last() =~= decimal(n / 10));
    }
}

/// A number of clients that is written in decimal is read back as it is, with
/// or without a plus sign.
pub proof fn law_written_count_is_read_back(n: usize)
    ensures
        is_count(decimal(n as nat)),
        value(digits_of(decimal(n as nat))) == n,
        is_count(seq!['+'] + decimal(n as nat)),
        value(digits_of(seq!['+'] + decimal(n as nat))) == n,
{
    lemma_decimal_value(n as nat);
    let digits = decimal(n as nat);
    assert(is_digit(digits[0]));
    assert((seq!['+'] + digits).skip(1) =~= digits);
}

/// Different clients have servers at different addresses, and send different
/// requests.
pub proof fn law_clients_are_told_apart(i: nat, j: nat)
    requires
        i != j,
    ensures
        spec_address(i) != spec_address(j),
        spec_request(i) != spec_request(j),
{
    lemma_decimal_value(i);
    lemma_decimal_value(j);
    lemma_decimal_value(3000 + i);
    lemma_decimal_value(3000 + j);
    let host = "127.0.0.1:"@;
    if spec_address(i) == spec_address(j) {
        assert(spec_address(i).skip(host.len() as int) =~= decimal(3000 + i));
        assert(spec_address(j).skip(host.len() as int) =~= decimal(3000 + j));
    }
    let greeting = "hello from client "@;
    let end = "\n"@;
    if spec_request(i) == spec_request(j) {
        let stop = spec_request(i).len() - end.len();
        assert(spec_request(i).subrange(greeting.len() as int, stop) =~= decimal(i));
        assert(spec_request(j).subrange(greeting.len() as int, stop) =~= decimal(j));
    }
}

} // verus!

//! What the sample client reads from its arguments and writes.
//!
//! Each law speaks of the arguments and results of the functions alone.
use vstd::prelude::*;

use crate::client;
use crate::client::{decimal, digits_of, is_count, is_digit, lemma_decimal_value, value};

verus! {

/// Without exactly one argument besides the name of the program there is no
/// number of clients.
pub proof fn law_count_takes_one_argument(args: Vec<String>, r: Option<usize>)
    requires
        call_ensures(client::client_count, (&args,), r),
        args@.len() != 2,
    ensures
        r is None,
{
}

/// A text without a digit is no number of clients. A digit, alone or behind a
/// plus sign, is the number that it stands for.
pub proof fn law_count_begins_with_a_digit(
    args: Vec<String>,
    r: Option<usize>,
    longer: Vec<String>,
    c: char,
    next: Option<usize>,
)
    requires
        call_ensures(client::client_count, (&args,), r),
        call_ensures(client::client_count, (&longer,), next),
        args@.len() == 2,
        args@[1]@.len() == 0 || args@[1]@ == seq!['+'],
        longer@.len() == 2,
        longer@[1]@ == args@[1]@.push(c),
    ensures
        r is None,
        '0' <= c <= '9' ==> (next matches Some(n) && n == c as int - '0' as int),
        !('0' <= c <= '9') ==> next is None,
{
    let text = args@[1]@;
    let digits = digits_of(longer@[1]@);
    if text.len() == 0 {
        assert(text =~= Seq::<char>::empty());
        if c != '+' {
            assert(digits =~= seq![c]);
        } else {
            assert(digits =~= Seq::<char>::empty());
        }
    } else {
        assert(digits_of(text) =~= Seq::<char>::empty());
        assert(digits =~= seq![c]);
    }
    if digits.len() == 1 {
        assert(digits[0] == c);
        assert(digits.drop_last() =~= Seq::<char>::empty());
        assert(value(digits.drop_last()) == 0);
        if '0' <= c <= '9' {
            assert(forall|i: int| 0 <= i < digits.len() ==> is_digit(#[trigger] digits[i]));
            assert(is_count(longer@[1]@));
        }
    }
}

/// One character more makes a number of clients ten times as large and adds the
/// digit, where it is a digit and the number still fits in a `usize`; otherwise
/// there is no number any more. Nothing that follows makes a number of what is
/// none.
pub proof fn law_count_grows_digit_by_digit(
    args: Vec<String>,
    r: Option<usize>,
    longer: Vec<String>,
    c: char,
    next: Option<usize>,
)
    requires
        call_ensures(client::client_count, (&args,), r),
        call_ensures(client::client_count, (&longer,), next),
        args@.len() == 2,
        args@[1]@.len() > 0,
        args@[1]@ != seq!['+'],
        longer@.len() == 2,
        longer@[1]@ == args@[1]@.push(c),
    ensures
        r matches Some(n) ==> if '0' <= c <= '9' && n * 10 + (c as int - '0' as int) <= usize::MAX {
            next matches Some(m) && m == n * 10 + (c as int - '0' as int)
        } else {
            next is None
        },
        r is None ==> next is None,
{
    let text = args@[1]@;
    let digits = digits_of(text);
    let more = digits_of(longer@[1]@);
    assert(longer@[1]@[0] == text[0]);
    assert(more =~= digits.push(c));
    assert(more.drop_last() =~= digits);
    assert(more.last() == c);
    assert(digits.len() > 0) by {
        if digits.len() == 0 {
            assert(text =~= seq!['+']);
        }
    }
    assert forall|i: int| 0 <= i < digits.len() implies #[trigger] digits[i] == more[i] by {}
    if is_count(longer@[1]@) {
        assert(is_digit(more[more.len() - 1]));
        assert forall|i: int| 0 <= i < digits.len() implies is_digit(#[trigger] digits[i]) by {
            assert(is_digit(more[i]));
        }
        client::lemma_value_grows(more, digits.len() as int);
        assert(more.take(digits.len() as int) =~= digits);
        assert(is_count(text));
    }
    if is_count(text) && '0' <= c <= '9' {
        assert forall|i: int| 0 <= i < more.len() implies is_digit(#[trigger] more[i]) by {
            if i < digits.len() {
                assert(is_digit(digits[i]));
            }
        }
    }
}

/// The address of the server of client `i` is the loopback address and a port,
/// written in decimal digits without leading zeros. Read as a number of clients,
/// the port is 3000 and `i` together.
pub proof fn law_address_is_the_loopback_with_the_port_of_the_client(
    i: usize,
    text: String,
    args: Vec<String>,
    port: Option<usize>,
)
    requires
        i <= usize::MAX - 3000,
        call_ensures(client::address, (i,), text),
        call_ensures(client::client_count, (&args,), port),
    ensures
        exists|digits: Seq<char>|
            {
                &&& text@ == "127.0.0.1:"@ + digits
                &&& #[trigger] digits.len() > 0
                &&& forall|k: int| 0 <= k < digits.len() ==> '0' <= #[trigger] digits[k] <= '9'
                &&& digits.len() > 1 ==> digits[0] != '0'
                &&& args@.len() == 2 && args@[1]@ == digits ==> (port matches Some(n) && n == 3000
                    + i)
            },
{
    let digits = decimal((3000 + i) as nat);
    lemma_decimal_value((3000 + i) as nat);
    lemma_no_leading_zero((3000 + i) as nat);
    assert(is_digit(digits[0]));
    assert(digits_of(digits) == digits);
    assert(text@ == "127.0.0.1:"@ + digits);
    assert(digits.len() > 0);
}

/// What client `i` sends is a greeting with its number, written in decimal digits
/// without leading zeros, and the end of the line. Read as a number of clients,
/// the number is `i`.
pub proof fn law_request_names_the_client(
    i: usize,
    text: String,
    args: Vec<String>,
    count: Option<usize>,
)
    requires
        call_ensures(client::request, (i,), text),
        call_ensures(client::client_count, (&args,), count),
    ensures
        exists|digits: Seq<char>|
            {
                &&& text@ == "hello from client "@ + digits + "\n"@
                &&& #[trigger] digits.len() > 0
                &&& forall|k: int| 0 <= k < digits.len() ==> '0' <= #[trigger] digits[k] <= '9'
                &&& digits.len() > 1 ==> digits[0] != '0'
                &&& args@.len() == 2 && args@[1]@ == digits ==> (count matches Some(n) && n == i)
            },
{
    let digits = decimal(i as nat);
    lemma_decimal_value(i as nat);
    lemma_no_leading_zero(i as nat);
    assert(is_digit(digits[0]));
    assert(digits_of(digits) == digits);
    assert(text@ == "hello from client "@ + digits + "\n"@);
    assert(digits.len() > 0);
}

/// The decimal digits of a number begin with a zero only if there is one alone.
proof fn lemma_no_leading_zero(n: nat)
    ensures
        decimal(n).len() > 0,
        n > 0 ==> decimal(n)[0] != '0',
        n == 0 ==> decimal(n).len() == 1,
    decreases n,
{
    if n >= 10 {
        lemma_no_leading_zero(n / 10);
    }
}

/// Arguments of every kind are read, every client has a request, and it has an
/// address where its port fits in a `usize`.
pub proof fn law_client_asks_for_a_port_that_fits_only(args: Vec<String>, i: usize)
    ensures
        call_requires(client::client_count, (&args,)),
        call_requires(client::request, (i,)),
        i <= usize::MAX - 3000 ==> call_requires(client::address, (i,)),
{
}

/// The ready queue has room for 1000 tokens, ports begin at 3000, a wait takes up
/// to 1024 events and has no timeout, and an epoll instance is created with a
/// positive size.
pub proof fn law_limits()
    ensures
        client::MAX_CHANNELS == 1000,
        client::FIRST_PORT == 3000,
        crate::blockers::MAX_EVENTS == 1024,
        crate::blockers::WAIT_FOREVER == -1,
        crate::epoll::CREATE_SIZE == 1,
{
}

} // verus!

//! What an agent is made with.

use crate::clock::unix_nanos;
use vstd::prelude::*;

verus! {

/// The sixteen digits of lower-case hexadecimal.
pub open spec fn hex_digit(digit: int) -> char {
    seq!['0', '1', '2', '3', '4', '5', '6', '7', '8', '9', 'a', 'b', 'c', 'd', 'e', 'f'][digit]
}

/// `n` in lower-case hexadecimal, without leading zeros.
pub open spec fn hex(n: nat) -> Seq<char>
    decreases n,
{
    if n < 16 {
        seq![hex_digit(n as int)]
    } else {
        hex(n / 16).push(hex_digit((n % 16) as int))
    }
}

/// The instance identifier that is made at `nanos` nanoseconds after the
/// epoch: the remainder of `nanos` by 2^32 - 1, in hexadecimal.
pub open spec fn instance_id_at(nanos: u128) -> Seq<char> {
    hex((nanos % 0xFFFF_FFFF) as nat)
}

/// Whether `id` is an identifier that `generate_instance_id` can make.
pub open spec fn is_instance_id(id: Seq<char>) -> bool {
    exists|nanos: u128| id == instance_id_at(nanos)
}

fn digit_str(digit: u64) -> (s: &'static str)
    requires
        digit < 16,
    ensures
        s@ == seq![hex_digit(digit as int)],
{
    proof {
        reveal_strlit("0");
        reveal_strlit("1");
        reveal_strlit("2");
        reveal_strlit("3");
        reveal_strlit("4");
        reveal_strlit("5");
        reveal_strlit("6");
        reveal_strlit("7");
        reveal_strlit("8");
        reveal_strlit("9");
        reveal_strlit("a");
        reveal_strlit("b");
        reveal_strlit("c");
        reveal_strlit("d");
        reveal_strlit("e");
        reveal_strlit("f");
    }
    let s = if digit == 0 {
        "0"
    } else if digit == 1 {
        "1"
    } else if digit == 2 {
        "2"
    } else if digit == 3 {
        "3"
    } else if digit == 4 {
        "4"
    } else if digit == 5 {
        "5"
    } else if digit == 6 {
        "6"
    } else if digit == 7 {
        "7"
    } else if digit == 8 {
        "8"
    } else if digit == 9 {
        "9"
    } else if digit == 10 {
        "a"
    } else if digit == 11 {
        "b"
    } else if digit == 12 {
        "c"
    } else if digit == 13 {
        "d"
    } else if digit == 14 {
        "e"
    } else {
        "f"
    };
    assert(s@ =~= seq![hex_digit(digit as int)]);
    s
}

fn append_hex(out: &mut String, n: u64)
    ensures
        final(out)@ == old(out)@ + hex(n as nat),
    decreases n,
{
    if n >= 16 {
        append_hex(out, n / 16);
    }
    out.append(digit_str(n % 16));
    assert(out@ =~= old(out)@ + hex(n as nat));
}

/// `n` in lower-case hexadecimal, without leading zeros.
pub fn to_hex(n: u64) -> (s: String)
    ensures
        s@ == hex(n as nat),
{
    let mut s = String::new();
    append_hex(&mut s, n);
    assert(s@ =~= hex(n as nat));
    s
}

/// The instance identifier that is made at `nanos` nanoseconds after the epoch.
pub fn instance_id_from(nanos: u128) -> (id: String)
    ensures
        id@ == instance_id_at(nanos),
{
    to_hex((nanos % 0xFFFF_FFFFu128) as u64)
}

/// An instance identifier made from the time that the system clock shows.
pub fn generate_instance_id() -> (id: String)
    ensures
        is_instance_id(id@),
{
    instance_id_from(unix_nanos())
}

/// What an agent is made with.
#[derive(Clone, Debug)]
pub struct Config {
    /// The address of the aggregator, a URI.
    pub aggregator_addr: String,
    /// The name of the service that the metrics are about.
    pub service_name: String,
    /// The instance of the service.
    pub instance_id: String,
    /// The time from one collection to the next, in milliseconds.
    pub push_interval_ms: u64,
}

impl Default for Config {
    /// The aggregator at port 9000 of this machine, the service `default`, a
    /// new instance identifier, and a collection every 20 milliseconds.
    fn default() -> (config: Config)
        ensures
            config.aggregator_addr@ == "http://localhost:9000"@,
            config.service_name@ == "default"@,
            is_instance_id(config.instance_id@),
            config.push_interval_ms == 20,
    {
        Config {
            aggregator_addr: "http://localhost:9000".to_owned(),
            service_name: "default".to_owned(),
            instance_id: generate_instance_id(),
            push_interval_ms: 20,
        }
    }
}

} // verus!

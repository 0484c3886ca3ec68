use vstd::prelude::*;
use vstd::std_specs::iter::IteratorSpec;

verus! {

broadcast use vstd::string::axiom_spec_iter, vstd::string::next_postcondition;

/// Where and how the server listens.
#[derive(Clone, Debug)]
pub struct AddressInfo {
    pub address: String,
    pub port: u16,
    pub protocol: String,
}

pub open spec fn arg_views(cmd: Seq<String>) -> Seq<Seq<char>> {
    cmd.map_values(|s: String| s@)
}

/// How many option/value pairs follow the program name.
pub open spec fn pair_count(len: nat) -> nat {
    if len >= 1 {
        ((len - 1) / 2) as nat
    } else {
        0
    }
}

/// The value of the last of the first `n` pairs whose option is `key`.
pub open spec fn last_value(cmd: Seq<Seq<char>>, key: Seq<char>, n: nat) -> Option<Seq<char>>
    decreases n,
{
    if n == 0 {
        None
    } else if cmd[2 * n - 1] == key {
        Some(cmd[2 * n as int])
    } else {
        last_value(cmd, key, (n - 1) as nat)
    }
}

pub open spec fn is_digit(c: char) -> bool {
    '0' <= c && c <= '9'
}

/// The number that a string of decimal digits writes.
pub open spec fn digits_value(s: Seq<char>) -> int
    decreases s.len(),
{
    if s.len() == 0 {
        0
    } else {
        digits_value(s.drop_last()) * 10 + (s.last() as int - '0' as int)
    }
}

/// The digits of a number, past an optional leading `+`.
pub open spec fn strip_plus(s: Seq<char>) -> Seq<char> {
    if s.len() > 0 && s[0] == '+' {
        s.skip(1)
    } else {
        s
    }
}

pub open spec fn all_digits(d: Seq<char>) -> bool {
    forall|i: int| 0 <= i < d.len() ==> is_digit(#[trigger] d[i])
}

/// A port number in decimal: digits, after an optional `+`, whose value fits
/// in 16 bits.
pub open spec fn port_of(s: Seq<char>) -> Option<u16> {
    let d = strip_plus(s);
    if d.len() > 0 && all_digits(d) && digits_value(d) <= 65535 {
        Some(digits_value(d) as u16)
    } else {
        None
    }
}

/// The characters of `s`, in order.
pub fn chars_of(s: &String) -> (r: Vec<char>)
    ensures
        r@ == s@,
{
    let mut out: Vec<char> = Vec::new();
    let mut it = s.as_str().chars();
    loop
        invariant
            out@ + it.remaining() == s@,
            it.decrease() is Some,
        ensures
            out@ == s@,
        decreases it.decrease()->0,
    {
        match it.next() {
            Some(c) => {
                out.push(c);
            },
            None => {
                assert(out@ =~= s@);
                break ;
            },
        }
    }
    out
}

proof fn lemma_digits_value_bounds(s: Seq<char>)
    requires
        forall|i: int| 0 <= i < s.len() ==> is_digit(#[trigger] s[i]),
    ensures
        digits_value(s) >= 0,
    decreases s.len(),
{
    if s.len() > 0 {
        lemma_digits_value_bounds(s.drop_last());
    }
}

/// Reads a port number written in decimal.
pub fn parse_port(s: &String) -> (r: Option<u16>)
    ensures
        r == port_of(s@),
{
    let cs = chars_of(s);
    let mut start: usize = 0;
    if cs.len() > 0 && cs[0] == '+' {
        start = 1;
    }
    let ghost d = cs@.subrange(start as int, cs@.len() as int);
    assert(d == strip_plus(s@));
    if start >= cs.len() {
        return None;
    }
    let mut value: u32 = 0;
    let mut i: usize = start;
    while i < cs.len()
        invariant
            start <= i <= cs@.len(),
            d == cs@.subrange(start as int, cs@.len() as int),
            d == strip_plus(s@),
            forall|j: int| 0 <= j < i - start ==> is_digit(#[trigger] d[j]),
            value as int == digits_value(d.subrange(0, i - start)),
            value <= 65535,
        decreases cs@.len() - i,
    {
        let c = cs[i];
        let ghost prefix = d.subrange(0, i - start);
        let ghost next = d.subrange(0, i + 1 - start);
        assert(next.drop_last() == prefix);
        assert(next.last() == c);
        if !('0' <= c && c <= '9') {
            assert(!is_digit(d[i - start]));
            assert(!all_digits(d));
            return None;
        }
        let digit = (c as u32) - ('0' as u32);
        let bigger = value * 10 + digit;
        if bigger > 65535 {
            proof {
                if all_digits(d) {
                    lemma_digits_monotone(d, i + 1 - start);
                }
            }
            return None;
        }
        value = bigger;
        i = i + 1;
    }
    assert(d.subrange(0, cs@.len() - start) == d);
    Some(value as u16)
}

/// A longer string of digits never writes a smaller number.
proof fn lemma_digits_monotone(d: Seq<char>, n: int)
    requires
        0 <= n <= d.len(),
        forall|j: int| 0 <= j < d.len() ==> is_digit(#[trigger] d[j]),
    ensures
        digits_value(d) >= digits_value(d.subrange(0, n)),
    decreases d.len(),
{
    if n < d.len() {
        let t = d.drop_last();
        assert forall|j: int| 0 <= j < t.len() implies is_digit(#[trigger] t[j]) by {
            assert(t[j] == d[j]);
        }
        lemma_digits_monotone(t, n);
        assert(t.subrange(0, n) == d.subrange(0, n));
        lemma_digits_value_bounds(t);
    } else {
        assert(d.subrange(0, n) == d);
    }
}

/// Reads the listening address from the command line: `-a` gives the address,
/// `-p` the port and `--protocol` the protocol, each given as a pair after the
/// program name, the last pair of an option winning. A port that does not
/// read as a 16-bit number leaves the default. `cmd_len` is not consulted.
pub fn handle_args(cmd: Vec<String>, cmd_len: usize) -> (r: AddressInfo)
    ensures
        r.address@ == match last_value(arg_views(cmd@), "-a"@, pair_count(cmd@.len())) {
            Some(v) => v,
            None => "127.0.0.1"@,
        },
        r.port == match last_value(arg_views(cmd@), "-p"@, pair_count(cmd@.len())) {
            Some(v) => match port_of(v) {
                Some(p) => p,
                None => 80u16,
            },
            None => 80u16,
        },
        r.protocol@ == match last_value(
            arg_views(cmd@),
            "--protocol"@,
            pair_count(cmd@.len()),
        ) {
            Some(v) => v,
            None => "http"@,
        },
{
    let ghost views = arg_views(cmd@);
    let key_a = "-a".to_owned();
    let key_p = "-p".to_owned();
    let key_protocol = "--protocol".to_owned();
    let mut at_a: Option<usize> = None;
    let mut at_p: Option<usize> = None;
    let mut at_protocol: Option<usize> = None;
    let mut i: usize = 1;
    while cmd.len() > 0 && i < cmd.len() - 1
        invariant
            1 <= i,
            i % 2 == 1,
            i <= cmd@.len() || i == 1,
            views == arg_views(cmd@),
            key_a@ == "-a"@,
            key_p@ == "-p"@,
            key_protocol@ == "--protocol"@,
            match at_a {
                Some(j) => j < cmd@.len() && last_value(views, "-a"@, ((i - 1) / 2) as nat) == Some(
                    views[j as int],
                ),
                None => last_value(views, "-a"@, ((i - 1) / 2) as nat) == None::<Seq<char>>,
            },
            match at_p {
                Some(j) => j < cmd@.len() && last_value(views, "-p"@, ((i - 1) / 2) as nat) == Some(
                    views[j as int],
                ),
                None => last_value(views, "-p"@, ((i - 1) / 2) as nat) == None::<Seq<char>>,
            },
            match at_protocol {
                Some(j) => j < cmd@.len() && last_value(views, "--protocol"@, ((i - 1) / 2) as nat)
                    == Some(views[j as int]),
                None => last_value(views, "--protocol"@, ((i - 1) / 2) as nat)
                    == None::<Seq<char>>,
            },
        decreases cmd@.len() + 1 - i,
    {
        assert((((i + 2) - 1) / 2) as nat == (((i - 1) / 2) + 1) as nat);
        assert(2 * (((i - 1) / 2) + 1) - 1 == i);
        if cmd[i] == key_a {
            at_a = Some(i + 1);
        }
        if cmd[i] == key_p {
            at_p = Some(i + 1);
        }
        if cmd[i] == key_protocol {
            at_protocol = Some(i + 1);
        }
        i = i + 2;
    }
    assert(((i - 1) / 2) as nat == pair_count(cmd@.len()));
    let address = match at_a {
        Some(j) => cmd[j].clone(),
        None => "127.0.0.1".to_owned(),
    };
    let port = match at_p {
        Some(j) => match parse_port(&cmd[j]) {
            Some(p) => p,
            None => 80,
        },
        None => 80,
    };
    let protocol = match at_protocol {
        Some(j) => cmd[j].clone(),
        None => "http".to_owned(),
    };
    AddressInfo { address, port, protocol }
}

} // verus!

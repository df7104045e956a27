//! Numbers and addresses as text.
use vstd::prelude::*;
use vstd::string::StringExecFns;

verus! {

/// The character of a decimal or hexadecimal digit.
pub open spec fn digit_char(d: int) -> char {
    if d == 0 {
        '0'
    } else if d == 1 {
        '1'
    } else if d == 2 {
        '2'
    } else if d == 3 {
        '3'
    } else if d == 4 {
        '4'
    } else if d == 5 {
        '5'
    } else if d == 6 {
        '6'
    } else if d == 7 {
        '7'
    } else if d == 8 {
        '8'
    } else if d == 9 {
        '9'
    } else if d == 10 {
        'a'
    } else if d == 11 {
        'b'
    } else if d == 12 {
        'c'
    } else if d == 13 {
        'd'
    } else if d == 14 {
        'e'
    } else {
        'f'
    }
}

/// `n` in decimal, without leading zeros.
pub open spec fn decimal(n: nat) -> Seq<char>
    decreases n,
{
    if n < 10 {
        seq![digit_char(n as int)]
    } else {
        decimal(n / 10).push(digit_char((n % 10) as int))
    }
}

/// `b` as two hexadecimal digits.
pub open spec fn hex_byte(b: u8) -> Seq<char> {
    seq![digit_char((b / 16) as int), digit_char((b % 16) as int)]
}

fn digit_text(d: u8) -> (res: &'static str)
    requires
        d < 16,
    ensures
        res@ == seq![digit_char(d as int)],
{
    proof {
        reveal_strlit("0");
        reveal_strlit("1");
        reveal_strlit("2");
        reveal_strlit("3");
        reveal_strlit("4");
        reveal_strlit("5");
        reveal_strlit("6");
        reveal_strlit("7");
        reveal_strlit("8");
        reveal_strlit("9");
        reveal_strlit("a");
        reveal_strlit("b");
        reveal_strlit("c");
        reveal_strlit("d");
        reveal_strlit("e");
        reveal_strlit("f");
    }
    let res = match d {
        0 => "0",
        1 => "1",
        2 => "2",
        3 => "3",
        4 => "4",
        5 => "5",
        6 => "6",
        7 => "7",
        8 => "8",
        9 => "9",
        10 => "a",
        11 => "b",
        12 => "c",
        13 => "d",
        14 => "e",
        _ => "f",
    };
    assert(res@ =~= seq![digit_char(d as int)]);
    res
}

/// Appends `n` in decimal to `out`.
pub fn append_decimal(out: &mut String, n: u64)
    ensures
        final(out)@ == old(out)@ + decimal(n as nat),
    decreases n,
{
    if n >= 10 {
        append_decimal(out, n / 10);
    }
    out.append(digit_text((n % 10) as u8));
    proof {
        if n >= 10 {
            assert(out@ =~= old(out)@ + decimal(n as nat));
        } else {
            assert(out@ =~= old(out)@ + seq![digit_char(n as int)]);
        }
    }
}

/// Appends `b` as two hexadecimal digits to `out`.
pub fn append_hex_byte(out: &mut String, b: u8)
    ensures
        final(out)@ == old(out)@ + hex_byte(b),
{
    out.append(digit_text(b / 16));
    out.append(digit_text(b % 16));
    proof {
        assert(out@ =~= old(out)@ + hex_byte(b));
    }
}

/// An IPv4 address in dotted form.
pub open spec fn ipv4_text(addr: u32) -> Seq<char> {
    decimal((addr / 0x100_0000) as nat) + "."@ + decimal((addr / 0x1_0000 % 0x100) as nat) + "."@
        + decimal((addr / 0x100 % 0x100) as nat) + "."@ + decimal((addr % 0x100) as nat)
}

/// Appends an IPv4 address in dotted form to `out`.
pub fn append_ipv4(out: &mut String, addr: u32)
    ensures
        final(out)@ == old(out)@ + ipv4_text(addr),
{
    append_decimal(out, (addr / 0x100_0000) as u64);
    out.append(".");
    append_decimal(out, (addr / 0x1_0000 % 0x100) as u64);
    out.append(".");
    append_decimal(out, (addr / 0x100 % 0x100) as u64);
    out.append(".");
    append_decimal(out, (addr % 0x100) as u64);
    proof {
        assert(out@ =~= old(out)@ + ipv4_text(addr));
    }
}

/// An Ethernet address as six hexadecimal bytes.
pub open spec fn mac_text(mac: Seq<u8>) -> Seq<char> {
    hex_byte(mac[0]) + ":"@ + hex_byte(mac[1]) + ":"@ + hex_byte(mac[2]) + ":"@ + hex_byte(mac[3])
        + ":"@ + hex_byte(mac[4]) + ":"@ + hex_byte(mac[5])
}

/// Appends an Ethernet address to `out`.
pub fn append_mac(out: &mut String, mac: &[u8; 6])
    ensures
        final(out)@ == old(out)@ + mac_text(mac@),
{
    append_hex_byte(out, mac[0]);
    out.append(":");
    append_hex_byte(out, mac[1]);
    out.append(":");
    append_hex_byte(out, mac[2]);
    out.append(":");
    append_hex_byte(out, mac[3]);
    out.append(":");
    append_hex_byte(out, mac[4]);
    out.append(":");
    append_hex_byte(out, mac[5]);
    proof {
        assert(out@ =~= old(out)@ + mac_text(mac@));
    }
}

/// What a digit counts.
pub open spec fn digit_value(c: char) -> int {
    if '0' <= c <= '9' {
        c as int - '0' as int
    } else {
        c as int - 'a' as int + 10
    }
}

/// The number that `digits` stand for to the base ten.
pub open spec fn decimal_value(digits: Seq<char>) -> int
    decreases digits.len(),
{
    if digits.len() == 0 {
        0
    } else {
        10 * decimal_value(digits.drop_last()) + digit_value(digits.last())
    }
}

/// A number in decimal stands for that number, is made of digits alone and does not begin with a
/// zero unless it is one.
pub proof fn decimals_stand_for_their_number(n: nat)
    ensures
        decimal_value(decimal(n)) == n,
        decimal(n).len() >= 1,
        decimal(n).len() > 1 ==> decimal(n)[0] != '0',
        forall|i: int| 0 <= i < decimal(n).len() ==> '0' <= #[trigger] decimal(n)[i] <= '9',
    decreases n,
{
    reveal_with_fuel(decimal_value, 2);
    if n >= 10 {
        decimals_stand_for_their_number(n / 10);
        let d = decimal(n);
        assert(d.drop_last() =~= decimal(n / 10));
        if n / 10 < 10 {
            assert(decimal(n / 10)[0] == digit_char((n / 10) as int));
        }
        assert forall|i: int| 0 <= i < d.len() implies '0' <= #[trigger] d[i] <= '9' by {
            if i < d.len() - 1 {
                assert(d[i] == decimal(n / 10)[i]);
            }
        }
    } else {
        assert(decimal(n).drop_last() =~= Seq::<char>::empty());
    }
}

/// A byte in hexadecimal has two digits, which stand for it.
pub proof fn hexadecimals_stand_for_their_byte(b: u8)
    ensures
        hex_byte(b).len() == 2,
        16 * digit_value(hex_byte(b)[0]) + digit_value(hex_byte(b)[1]) == b,
        forall|i: int|
            0 <= i < 2 ==> ('0' <= #[trigger] hex_byte(b)[i] <= '9' || 'a' <= hex_byte(b)[i] <= 'f'),
{
}

/// There is one quotient with one rest.
proof fn quotients_are_unique(n: int, divisor: int, quotient: int, rest: int)
    requires
        0 <= rest < divisor,
        n == quotient * divisor + rest,
    ensures
        n / divisor == quotient,
        n % divisor == rest,
{
    vstd::arithmetic::div_mod::lemma_fundamental_div_mod_converse(n, divisor, quotient, rest);
}

/// The bytes of an IPv4 address, the first one first.
proof fn address_bytes(addr: u32, a: u8, b: u8, c: u8, d: u8)
    requires
        addr == 16777216 * a + 65536 * b + 256 * c + d,
    ensures
        addr / 0x100_0000 == a,
        addr / 0x1_0000 % 0x100 == b,
        addr / 0x100 % 0x100 == c,
        addr % 0x100 == d,
{
    quotients_are_unique(addr as int, 0x100, 65536 * a + 256 * b + c, d as int);
    quotients_are_unique(65536 * a + 256 * b + c, 0x100, 256 * a + b, c as int);
    quotients_are_unique(addr as int, 0x1_0000, 256 * a + b, 256 * c + d);
    quotients_are_unique(256 * a + b, 0x100, a as int, b as int);
    quotients_are_unique(addr as int, 0x100_0000, a as int, 65536 * b + 256 * c + d);
}

/// Four numbers in decimal with dots between them.
pub open spec fn dotted(a: u8, b: u8, c: u8, d: u8) -> Seq<char> {
    decimal(a as nat) + seq!['.'] + decimal(b as nat) + seq!['.'] + decimal(c as nat) + seq!['.']
        + decimal(d as nat)
}

/// An IPv4 address is its four bytes in decimal, the first one first, with dots between them.
pub proof fn addresses_are_their_bytes(addr: u32, a: u8, b: u8, c: u8, d: u8)
    requires
        addr == 16777216 * a + 65536 * b + 256 * c + d,
    ensures
        ipv4_text(addr) == dotted(a, b, c, d),
{
    reveal_strlit(".");
    assert("."@ =~= seq!['.']);
    address_bytes(addr, a, b, c, d);
}

/// An Ethernet address is its six bytes in hexadecimal, the first one first, with colons between
/// them.
pub proof fn link_addresses_are_their_bytes(mac: Seq<u8>)
    ensures
        mac_text(mac) == hex_byte(mac[0]) + seq![':'] + hex_byte(mac[1]) + seq![':'] + hex_byte(
            mac[2],
        ) + seq![':'] + hex_byte(mac[3]) + seq![':'] + hex_byte(mac[4]) + seq![':'] + hex_byte(
            mac[5],
        ),
{
    reveal_strlit(":");
    assert(":"@ =~= seq![':']);
}

} // verus!

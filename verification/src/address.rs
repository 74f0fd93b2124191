//! The address an instance is reached at: which interface it is taken from
//! and the text that it is announced as.

use crate::decimal::{all_digits, decimal, digits_value, is_digit, lemma_decimal_value, to_decimal};
use vstd::prelude::*;

verus! {

/// The name of the interface on the data network.
pub open spec fn data_interface_name() -> Seq<char> {
    "eth1"@
}

/// The address of a network interface, as far as the plans read it.
#[derive(Clone, Copy, PartialEq, Eq, Structural, Debug)]
pub enum IpAddress {
    V4(u8, u8, u8, u8),
    V6,
}

/// A network interface of the machine that an instance runs on.
#[derive(Debug)]
pub struct Interface {
    pub name: String,
    pub ip: IpAddress,
}

/// Why an instance has no address to announce.
#[derive(Clone, Copy, PartialEq, Eq, Structural, Debug)]
pub enum AddressError {
    /// No interface is on the data network.
    NoDataInterface,
    /// The interface on the data network has an IPv6 address.
    Ipv6Unsupported,
}

/// The address of the first interface that is called `name`.
pub open spec fn first_named(interfaces: Seq<Interface>, name: Seq<char>) -> Option<IpAddress>
    decreases interfaces.len(),
{
    if interfaces.len() == 0 {
        None
    } else if interfaces[0].name@ == name {
        Some(interfaces[0].ip)
    } else {
        first_named(interfaces.drop_first(), name)
    }
}

/// The text of an IPv4 address in dotted decimal.
pub open spec fn ipv4_text(a: u8, b: u8, c: u8, d: u8) -> Seq<char> {
    decimal(a as nat) + seq!['.'] + (decimal(b as nat) + seq!['.'] + (decimal(c as nat) + seq!['.']
        + decimal(d as nat)))
}

/// The text of an IPv4 address with a port behind it.
pub open spec fn socket_text(a: u8, b: u8, c: u8, d: u8, port: u16) -> Seq<char> {
    ipv4_text(a, b, c, d) + seq![':'] + decimal(port as nat)
}

/// The address that an instance with these interfaces announces, or why it has none.
pub open spec fn local_addr(interfaces: Seq<Interface>, port: u16) -> Result<
    Seq<char>,
    AddressError,
> {
    match first_named(interfaces, data_interface_name()) {
        None => Err(AddressError::NoDataInterface),
        Some(IpAddress::V6) => Err(AddressError::Ipv6Unsupported),
        Some(IpAddress::V4(a, b, c, d)) => Ok(socket_text(a, b, c, d, port)),
    }
}

/// Joins two texts with `separator` between them.
fn joined(left: String, separator: &str, right: String) -> (text: String)
    ensures
        text@ == left@ + separator@ + right@,
{
    left.concat(separator).concat(right.as_str())
}

/// Writes an IPv4 address with a port behind it.
pub fn socket_addr_text(a: u8, b: u8, c: u8, d: u8, port: u16) -> (text: String)
    ensures
        text@ == socket_text(a, b, c, d, port),
{
    proof {
        reveal_strlit(".");
        reveal_strlit(":");
        assert("."@ =~= seq!['.']);
        assert(":"@ =~= seq![':']);
    }
    let low: String = joined(to_decimal(c as u128), ".", to_decimal(d as u128));
    let lower: String = joined(to_decimal(b as u128), ".", low);
    let ip: String = joined(to_decimal(a as u128), ".", lower);
    joined(ip, ":", to_decimal(port as u128))
}

/// The address that an instance with these interfaces announces.
pub fn get_local_addr(interfaces: &Vec<Interface>, port: u16) -> (addr: Result<
    String,
    AddressError,
>)
    ensures
        match local_addr(interfaces@, port) {
            Ok(text) => addr matches Ok(a) && a@ == text,
            Err(error) => addr == Err::<String, AddressError>(error),
        },
{
    let wanted: String = "eth1".to_owned();
    let mut i: usize = 0;
    assert(interfaces@.skip(0) =~= interfaces@);
    while i < interfaces.len()
        invariant
            i <= interfaces@.len(),
            wanted@ == data_interface_name(),
            first_named(interfaces@, data_interface_name()) == first_named(
                interfaces@.skip(i as int),
                data_interface_name(),
            ),
        decreases interfaces@.len() - i,
    {
        let ghost rest = interfaces@.skip(i as int);
        assert(rest[0] == interfaces@[i as int]);
        assert(rest.drop_first() =~= interfaces@.skip(i + 1));
        if interfaces[i].name == wanted {
            return match interfaces[i].ip {
                IpAddress::V4(a, b, c, d) => Ok(socket_addr_text(a, b, c, d, port)),
                IpAddress::V6 => Err(AddressError::Ipv6Unsupported),
            };
        }
        i += 1;
    }
    Err(AddressError::NoDataInterface)
}

/// What stands in `text` before the first `sep`; all of it where there is none.
pub open spec fn part_before(text: Seq<char>, sep: char) -> Seq<char>
    decreases text.len(),
{
    if text.len() == 0 || text[0] == sep {
        Seq::empty()
    } else {
        seq![text[0]] + part_before(text.drop_first(), sep)
    }
}

/// What stands in `text` behind the first `sep`; nothing where there is none.
pub open spec fn part_after(text: Seq<char>, sep: char) -> Seq<char> {
    let before = part_before(text, sep).len() as int;
    if before < text.len() {
        text.skip(before + 1)
    } else {
        Seq::empty()
    }
}

/// The number from 0 to 255 that `text` is in decimal, without leading zeros.
pub open spec fn read_octet(text: Seq<char>) -> Option<u8> {
    if text.len() > 0 && all_digits(text) && (text[0] == '0' ==> text.len() == 1)
        && digits_value(text) <= u8::MAX {
        Some(digits_value(text) as u8)
    } else {
        None
    }
}

/// The number from 0 to 65535 that `text` is in decimal.
pub open spec fn read_port(text: Seq<char>) -> Option<u16> {
    if text.len() > 0 && all_digits(text) && digits_value(text) <= u16::MAX {
        Some(digits_value(text) as u16)
    } else {
        None
    }
}

/// The IPv4 address and the port that `text` gives, as `a.b.c.d:port`.
pub open spec fn read_socket(text: Seq<char>) -> Option<(IpAddress, u16)> {
    let behind_a = part_after(text, '.');
    let behind_b = part_after(behind_a, '.');
    let behind_c = part_after(behind_b, '.');
    match (
        read_octet(part_before(text, '.')),
        read_octet(part_before(behind_a, '.')),
        read_octet(part_before(behind_b, '.')),
        read_octet(part_before(behind_c, ':')),
        read_port(part_after(behind_c, ':')),
    ) {
        (Some(a), Some(b), Some(c), Some(d), Some(port)) => Some((IpAddress::V4(a, b, c, d), port)),
        _ => None,
    }
}

/// A text is cut in two at the first separator.
pub proof fn lemma_cut(left: Seq<char>, sep: char, right: Seq<char>)
    requires
        forall|i: int| 0 <= i < left.len() ==> #[trigger] left[i] != sep,
    ensures
        part_before(left + seq![sep] + right, sep) == left,
        part_after(left + seq![sep] + right, sep) == right,
    decreases left.len(),
{
    let text = left + seq![sep] + right;
    if left.len() > 0 {
        let rest = left.drop_first();
        assert forall|i: int| 0 <= i < rest.len() implies #[trigger] rest[i] != sep by {
            assert(rest[i] == left[i + 1]);
        }
        assert(text[0] == left[0]);
        assert(text.drop_first() =~= rest + seq![sep] + right);
        lemma_cut(rest, sep, right);
        assert(part_before(text, sep) =~= left);
    } else {
        assert(text[0] == sep);
        assert(part_before(text, sep) =~= left);
    }
    assert(text.skip(left.len() as int + 1) =~= right);
}

/// A printed number does not begin with a zero, unless it is zero.
proof fn lemma_no_leading_zero(n: nat)
    ensures
        decimal(n)[0] == '0' ==> n == 0,
        n == 0 ==> decimal(n).len() == 1,
    decreases n,
{
    if n >= 10 {
        lemma_decimal_value(n / 10);
        lemma_no_leading_zero(n / 10);
        assert(decimal(n)[0] == decimal(n / 10)[0]);
    }
}

/// A printed octet holds no separator, and reads back as itself.
proof fn lemma_octet(n: u8, sep: char)
    requires
        !is_digit(sep),
    ensures
        forall|i: int| 0 <= i < decimal(n as nat).len() ==> #[trigger] decimal(n as nat)[i] != sep,
        read_octet(decimal(n as nat)) == Some(n),
{
    lemma_decimal_value(n as nat);
    lemma_no_leading_zero(n as nat);
    assert(all_digits(decimal(n as nat)));
}

/// The text of an address and a port reads back as that address and that port.
pub proof fn law_socket_text_reads_back(a: u8, b: u8, c: u8, d: u8, port: u16)
    ensures
        read_socket(socket_text(a, b, c, d, port)) == Some((IpAddress::V4(a, b, c, d), port)),
{
    let dot = seq!['.'];
    let last = decimal(d as nat) + seq![':'] + decimal(port as nat);
    let behind_b = decimal(c as nat) + dot + last;
    let behind_a = decimal(b as nat) + dot + behind_b;
    assert(socket_text(a, b, c, d, port) =~= decimal(a as nat) + dot + behind_a);
    lemma_octet(a, '.');
    lemma_octet(b, '.');
    lemma_octet(c, '.');
    lemma_octet(d, ':');
    lemma_decimal_value(port as nat);
    lemma_cut(decimal(a as nat), '.', behind_a);
    lemma_cut(decimal(b as nat), '.', behind_b);
    lemma_cut(decimal(c as nat), '.', last);
    lemma_cut(decimal(d as nat), ':', decimal(port as nat));
}

/// The address of an instance reads as the IPv4 address of its interface on
/// the data network, with the port that was asked for.
pub proof fn law_local_addr_reads_back(interfaces: Seq<Interface>, port: u16)
    requires
        local_addr(interfaces, port) is Ok,
    ensures
        first_named(interfaces, data_interface_name()) matches Some(ip) && read_socket(
            local_addr(interfaces, port)->Ok_0,
        ) == Some((ip, port)),
{
    if let Some(IpAddress::V4(a, b, c, d)) = first_named(interfaces, data_interface_name()) {
        law_socket_text_reads_back(a, b, c, d, port);
    }
}

/// An announced address tells the address and the port that it was made of:
/// no two endpoints are announced as one text.
pub proof fn law_socket_text_injective(
    a: u8,
    b: u8,
    c: u8,
    d: u8,
    port: u16,
    a2: u8,
    b2: u8,
    c2: u8,
    d2: u8,
    port2: u16,
)
    requires
        socket_text(a, b, c, d, port) == socket_text(a2, b2, c2, d2, port2),
    ensures
        (a, b, c, d, port) == (a2, b2, c2, d2, port2),
{
    law_socket_text_reads_back(a, b, c, d, port);
    law_socket_text_reads_back(a2, b2, c2, d2, port2);
}

/// Where a separator stands in a text, the text is what stands before the
/// first of them, that separator, and what stands behind it.
pub proof fn law_parts_make_the_text(text: Seq<char>, sep: char)
    ensures
        forall|i: int|
            0 <= i < part_before(text, sep).len() ==> #[trigger] part_before(text, sep)[i] != sep,
        text.contains(sep) ==> text == part_before(text, sep) + seq![sep] + part_after(text, sep),
        !text.contains(sep) ==> part_before(text, sep) == text,
    decreases text.len(),
{
    if text.len() == 0 {
    } else if text[0] == sep {
        assert(text =~= seq![sep] + text.skip(1));
        assert(part_before(text, sep) + seq![sep] + part_after(text, sep) =~= text);
    } else {
        let rest = text.drop_first();
        let before = part_before(rest, sep);
        law_parts_make_the_text(rest, sep);
        assert(part_before(text, sep) =~= seq![text[0]] + before);
        assert(text =~= seq![text[0]] + rest);
        if text.contains(sep) {
            let i = text.index_of(sep);
            assert(rest[i - 1] == sep);
            assert(rest.len() == before.len() + 1 + part_after(rest, sep).len());
            assert(part_after(text, sep) =~= part_after(rest, sep));
        } else {
            if rest.contains(sep) {
                let i = rest.index_of(sep);
                assert(text[i + 1] == sep);
            }
        }
    }
}

/// Whether interface `i` is the first that is called `name`.
pub open spec fn is_first_named(interfaces: Seq<Interface>, i: int, name: Seq<char>) -> bool {
    &&& 0 <= i < interfaces.len()
    &&& interfaces[i].name@ == name
    &&& forall|j: int| 0 <= j < i ==> (#[trigger] interfaces[j]).name@ != name
}

/// The address under a name is the whole address of the first interface of
/// that name.
pub proof fn law_first_of_the_name(interfaces: Seq<Interface>, i: int, name: Seq<char>)
    requires
        0 <= i < interfaces.len(),
        interfaces[i].name@ == name,
        forall|j: int| 0 <= j < i ==> (#[trigger] interfaces[j]).name@ != name,
    ensures
        first_named(interfaces, name) == Some(interfaces[i].ip),
    decreases interfaces.len(),
{
    if i > 0 {
        let rest = interfaces.drop_first();
        assert(interfaces[0].name@ != name);
        assert(rest[i - 1] == interfaces[i]);
        assert forall|j: int| 0 <= j < i - 1 implies (#[trigger] rest[j]).name@ != name by {
            assert(rest[j] == interfaces[j + 1]);
        }
        law_first_of_the_name(rest, i - 1, name);
    }
}

/// There is no address under a name that no interface has.
pub proof fn law_none_of_the_name(interfaces: Seq<Interface>, name: Seq<char>)
    requires
        forall|j: int| 0 <= j < interfaces.len() ==> (#[trigger] interfaces[j]).name@ != name,
    ensures
        first_named(interfaces, name) is None,
    decreases interfaces.len(),
{
    if interfaces.len() > 0 {
        let rest = interfaces.drop_first();
        assert(interfaces[0].name@ != name);
        assert forall|j: int| 0 <= j < rest.len() implies (#[trigger] rest[j]).name@ != name by {
            assert(rest[j] == interfaces[j + 1]);
        }
        law_none_of_the_name(rest, name);
    }
}

/// Where an interface is called `eth1`, the first of them decides: the address
/// of the instance reads as the IPv4 address of that interface, octet by octet,
/// with the port that was asked for; an IPv6 address is refused.
pub proof fn law_address_is_that_of_eth1(interfaces: Seq<Interface>, i: int, port: u16)
    requires
        0 <= i < interfaces.len(),
        interfaces[i].name@ == "eth1"@,
        forall|j: int| 0 <= j < i ==> (#[trigger] interfaces[j]).name@ != "eth1"@,
    ensures
        interfaces[i].ip is V4 ==> (local_addr(interfaces, port) matches Ok(text) && read_socket(
            text,
        ) == Some((interfaces[i].ip, port))),
        interfaces[i].ip is V6 ==> local_addr(interfaces, port) == Err::<Seq<char>, AddressError>(
            AddressError::Ipv6Unsupported,
        ),
{
    law_first_of_the_name(interfaces, i, "eth1"@);
    if let IpAddress::V4(a, b, c, d) = interfaces[i].ip {
        law_socket_text_reads_back(a, b, c, d, port);
    }
}

/// Where no interface is called `eth1` the instance has no address.
pub proof fn law_no_address_without_eth1(interfaces: Seq<Interface>, port: u16)
    requires
        forall|j: int| 0 <= j < interfaces.len() ==> (#[trigger] interfaces[j]).name@ != "eth1"@,
    ensures
        local_addr(interfaces, port) == Err::<Seq<char>, AddressError>(
            AddressError::NoDataInterface,
        ),
{
    law_none_of_the_name(interfaces, "eth1"@);
}

/// The text of an address is its four octets and the port, each in decimal,
/// with dots and a colon between them.
pub proof fn law_socket_text_is_dotted(a: u8, b: u8, c: u8, d: u8, port: u16)
    ensures
        socket_text(a, b, c, d, port) == decimal(a as nat) + seq!['.'] + decimal(b as nat) + seq![
            '.',
        ] + decimal(c as nat) + seq!['.'] + decimal(d as nat) + seq![':'] + decimal(port as nat),
{
    assert(socket_text(a, b, c, d, port) =~= decimal(a as nat) + seq!['.'] + decimal(b as nat)
        + seq!['.'] + decimal(c as nat) + seq!['.'] + decimal(d as nat) + seq![':'] + decimal(
        port as nat,
    ));
}

/// Whether `addr` reads as the IPv4 address of interface `i`, the first that is
/// called `eth1`, with `port` behind it.
pub open spec fn is_own_address(
    interfaces: Seq<Interface>,
    i: int,
    port: u16,
    addr: Seq<char>,
) -> bool {
    &&& is_first_named(interfaces, i, "eth1"@)
    &&& interfaces[i].ip is V4
    &&& read_socket(addr) == Some((interfaces[i].ip, port))
}

/// The address under a name is that of some interface, the first of its name.
proof fn lemma_named_stands_somewhere(interfaces: Seq<Interface>, name: Seq<char>) -> (i: int)
    requires
        first_named(interfaces, name) is Some,
    ensures
        is_first_named(interfaces, i, name),
    decreases interfaces.len(),
{
    if interfaces[0].name@ == name {
        0
    } else {
        let rest = interfaces.drop_first();
        let i = lemma_named_stands_somewhere(rest, name);
        assert(interfaces[i + 1] == rest[i]);
        assert forall|j: int| 0 <= j < i + 1 implies (#[trigger] interfaces[j]).name@ != name by {
            if j > 0 {
                assert(rest[j - 1] == interfaces[j]);
            }
        }
        i + 1
    }
}

/// An address that an instance has is that of its first interface that is
/// called `eth1`.
pub proof fn law_address_is_own(interfaces: Seq<Interface>, port: u16) -> (i: int)
    requires
        local_addr(interfaces, port) is Ok,
    ensures
        is_own_address(interfaces, i, port, local_addr(interfaces, port)->Ok_0),
{
    let i = lemma_named_stands_somewhere(interfaces, "eth1"@);
    law_address_is_that_of_eth1(interfaces, i, port);
    i
}

} // verus!

//! Hardware-address canonicalization and the address-to-location table.
//!
//! A device's 6-byte hardware address is canonicalized to the
//! colon-separated, upper-case hexadecimal form `XX:XX:XX:XX:XX:XX` and
//! looked up in a static table of (address, label) pairs.  Lookup is an
//! exact string match, so insertion and lookup canonicalize
//! identically.  An unmatched address is a distinct, non-fatal outcome.

use crate::decode::{MIN_PAYLOAD_LEN, SkipReason};
use vstd::prelude::*;
use vstd::string::StringExecFns;

verus! {

/// The upper-case hexadecimal digit for one value below 16.
pub open spec fn spec_hex_digit(n: int) -> char {
    if n == 0 {
        '0'
    } else if n == 1 {
        '1'
    } else if n == 2 {
        '2'
    } else if n == 3 {
        '3'
    } else if n == 4 {
        '4'
    } else if n == 5 {
        '5'
    } else if n == 6 {
        '6'
    } else if n == 7 {
        '7'
    } else if n == 8 {
        '8'
    } else if n == 9 {
        '9'
    } else if n == 10 {
        'A'
    } else if n == 11 {
        'B'
    } else if n == 12 {
        'C'
    } else if n == 13 {
        'D'
    } else if n == 14 {
        'E'
    } else {
        'F'
    }
}

/// The two upper-case hexadecimal digits of one byte, high digit first.
pub open spec fn spec_byte_hex(b: u8) -> Seq<char> {
    seq![spec_hex_digit(b as int / 16), spec_hex_digit(b as int % 16)]
}

/// The colon-prefixed hexadecimal rendering of every byte of `mac`.
pub open spec fn spec_canonical_tail(mac: Seq<u8>) -> Seq<char>
    decreases mac.len(),
{
    if mac.len() == 0 {
        Seq::empty()
    } else {
        seq![':'] + spec_byte_hex(mac.first()) + spec_canonical_tail(mac.drop_first())
    }
}

/// The canonical colon-separated, upper-case hexadecimal form of a
/// hardware address, e.g. `AA:BB:CC:DD:EE:FF` for the bytes
/// `[0xAA, 0xBB, 0xCC, 0xDD, 0xEE, 0xFF]`.
pub open spec fn spec_canonical_address(mac: Seq<u8>) -> Seq<char> {
    if mac.len() == 0 {
        Seq::empty()
    } else {
        spec_byte_hex(mac.first()) + spec_canonical_tail(mac.drop_first())
    }
}

/// The upper-case hexadecimal digit of one value below 16, as a
/// one-character string slice.
fn hex_digit_str(n: u8) -> (r: &'static str)
    requires
        n < 16,
    ensures
        r@ == seq![spec_hex_digit(n as int)],
{
    match n {
        0 => {
            proof {
                reveal_strlit("0");
                assert("0"@ =~= seq![spec_hex_digit(0)]);
            }
            "0"
        },
        1 => {
            proof {
                reveal_strlit("1");
                assert("1"@ =~= seq![spec_hex_digit(1)]);
            }
            "1"
        },
        2 => {
            proof {
                reveal_strlit("2");
                assert("2"@ =~= seq![spec_hex_digit(2)]);
            }
            "2"
        },
        3 => {
            proof {
                reveal_strlit("3");
                assert("3"@ =~= seq![spec_hex_digit(3)]);
            }
            "3"
        },
        4 => {
            proof {
                reveal_strlit("4");
                assert("4"@ =~= seq![spec_hex_digit(4)]);
            }
            "4"
        },
        5 => {
            proof {
                reveal_strlit("5");
                assert("5"@ =~= seq![spec_hex_digit(5)]);
            }
            "5"
        },
        6 => {
            proof {
                reveal_strlit("6");
                assert("6"@ =~= seq![spec_hex_digit(6)]);
            }
            "6"
        },
        7 => {
            proof {
                reveal_strlit("7");
                assert("7"@ =~= seq![spec_hex_digit(7)]);
            }
            "7"
        },
        8 => {
            proof {
                reveal_strlit("8");
                assert("8"@ =~= seq![spec_hex_digit(8)]);
            }
            "8"
        },
        9 => {
            proof {
                reveal_strlit("9");
                assert("9"@ =~= seq![spec_hex_digit(9)]);
            }
            "9"
        },
        10 => {
            proof {
                reveal_strlit("A");
                assert("A"@ =~= seq![spec_hex_digit(10)]);
            }
            "A"
        },
        11 => {
            proof {
                reveal_strlit("B");
                assert("B"@ =~= seq![spec_hex_digit(11)]);
            }
            "B"
        },
        12 => {
            proof {
                reveal_strlit("C");
                assert("C"@ =~= seq![spec_hex_digit(12)]);
            }
            "C"
        },
        13 => {
            proof {
                reveal_strlit("D");
                assert("D"@ =~= seq![spec_hex_digit(13)]);
            }
            "D"
        },
        14 => {
            proof {
                reveal_strlit("E");
                assert("E"@ =~= seq![spec_hex_digit(14)]);
            }
            "E"
        },
        _ => {
            proof {
                reveal_strlit("F");
                assert("F"@ =~= seq![spec_hex_digit(15)]);
            }
            "F"
        },
    }
}

/// Canonicalizes a hardware address to its colon-separated, upper-case
/// hexadecimal string form.
pub fn canonical_address(mac: &[u8]) -> (r: String)
    ensures
        r@ == spec_canonical_address(mac@),
{
    let mut out = String::new();
    if mac.len() == 0 {
        return out;
    }
    let hi: u8 = mac[0] / 16;
    let lo: u8 = mac[0] % 16;
    out.append(hex_digit_str(hi));
    out.append(hex_digit_str(lo));
    proof {
        assert(mac@.skip(1) =~= mac@.drop_first());
        assert(out@ =~= spec_byte_hex(mac@.first()));
    }
    let mut i: usize = 1;
    while i < mac.len()
        invariant
            1 <= i <= mac@.len(),
            out@ + spec_canonical_tail(mac@.skip(i as int)) == spec_canonical_address(mac@),
        decreases mac@.len() - i,
    {
        let ghost before = out@;
        out.append(":");
        let hi: u8 = mac[i] / 16;
        let lo: u8 = mac[i] % 16;
        out.append(hex_digit_str(hi));
        out.append(hex_digit_str(lo));
        proof {
            reveal_strlit(":");
            assert(mac@.skip(i as int).first() == mac@[i as int]);
            assert(mac@.skip(i as int).drop_first() =~= mac@.skip(i + 1));
            assert(out@ =~= before + (seq![':'] + spec_byte_hex(mac@[i as int])));
            assert(out@ + spec_canonical_tail(mac@.skip(i + 1)) =~= before + spec_canonical_tail(
                mac@.skip(i as int),
            ));
        }
        i = i + 1;
    }
    proof {
        assert(mac@.skip(mac@.len() as int) =~= Seq::<u8>::empty());
        assert(out@ + spec_canonical_tail(Seq::<u8>::empty()) =~= out@);
    }
    out
}

/// The static table mapping canonical address strings to location
/// labels.  Constructed once at startup and read-only during a scan.
#[derive(Clone, Debug)]
pub struct AddressTable {
    /// The (canonical address, location label) pairs, in insertion
    /// order.
    pub entries: Vec<(String, String)>,
}

impl View for AddressTable {
    type V = Seq<(Seq<char>, Seq<char>)>;

    open spec fn view(&self) -> Seq<(Seq<char>, Seq<char>)> {
        self.entries.deep_view()
    }
}

/// The label of the first table entry whose address equals `key`, if
/// any.  Under [`AddressTable::wf`] the keys are unique, so the first
/// match is the only one.
pub open spec fn spec_lookup(entries: Seq<(Seq<char>, Seq<char>)>, key: Seq<char>) -> Option<
    Seq<char>,
>
    decreases entries.len(),
{
    if entries.len() == 0 {
        None
    } else if entries.first().0 == key {
        Some(entries.first().1)
    } else {
        spec_lookup(entries.drop_first(), key)
    }
}

impl AddressTable {
    /// Table invariant: addresses are unique keys.
    pub open spec fn wf(&self) -> bool {
        forall|i: int, j: int|
            0 <= i < j < self@.len() ==> self@[i].0 != self@[j].0
    }

    /// Builds a table from (address, label) pairs, rejecting a list
    /// with a duplicated address.
    ///
    /// Returns the table exactly when the addresses are pairwise
    /// distinct; the entries are kept verbatim and in order.
    pub fn from_entries(entries: Vec<(String, String)>) -> (r: Option<AddressTable>)
        ensures
            r is Some <==> (forall|i: int, j: int|
                0 <= i < j < entries.deep_view().len() ==> entries.deep_view()[i].0
                    != entries.deep_view()[j].0),
            r matches Some(t) ==> t@ == entries.deep_view() && t.wf(),
    {
        let n = entries.len();
        let mut i: usize = 0;
        while i < n
            invariant
                n == entries.deep_view().len(),
                i <= n,
                forall|a: int, b: int|
                    0 <= a < b < entries.deep_view().len() && a < i ==> entries.deep_view()[a].0
                        != entries.deep_view()[b].0,
            decreases n - i,
        {
            let mut j: usize = i + 1;
            while j < n
                invariant
                    n == entries.deep_view().len(),
                    i < j <= n,
                    forall|b: int|
                        i < b < j ==> entries.deep_view()[i as int].0 != entries.deep_view()[b].0,
                decreases n - j,
            {
                proof {
                    assert(entries.deep_view()[i as int].0 == entries@[i as int].0@);
                    assert(entries.deep_view()[j as int].0 == entries@[j as int].0@);
                }
                if entries[i].0 == entries[j].0 {
                    return None;
                }
                j = j + 1;
            }
            i = i + 1;
        }
        Some(AddressTable { entries })
    }

    /// Looks a canonical address string up in the table; exact match
    /// required.  Returns the first (under [`AddressTable::wf`]: the
    /// only) matching entry's label.
    pub fn lookup(&self, key: &String) -> (r: Option<String>)
        ensures
            r matches Some(l) ==> spec_lookup(self@, key@) == Some(l@),
            r is None <==> spec_lookup(self@, key@) is None,
    {
        let n = self.entries.len();
        proof {
            assert(self@.skip(0) =~= self@);
        }
        let mut i: usize = 0;
        while i < n
            invariant
                n == self@.len(),
                i <= n,
                spec_lookup(self@.skip(i as int), key@) == spec_lookup(self@, key@),
            decreases n - i,
        {
            proof {
                assert(self@[i as int] == (self.entries@[i as int].0@, self.entries@[i as int].1@));
                assert(self@.skip(i as int).first() == self@[i as int]);
                assert(self@.skip(i as int).drop_first() =~= self@.skip(i + 1));
            }
            if self.entries[i].0 == *key {
                return Some(self.entries[i].1.clone());
            }
            i = i + 1;
        }
        proof {
            assert(self@.skip(n as int) =~= Seq::<(Seq<char>, Seq<char>)>::empty());
        }
        None
    }
}

/// Resolves the hardware address carried in a service-data payload to
/// its location label.
///
/// The address is the payload's first six bytes; it is canonicalized to
/// the colon-separated, upper-case hexadecimal form and looked up in
/// the table.  A payload shorter than [`MIN_PAYLOAD_LEN`] bytes is
/// rejected outright with [`SkipReason::PayloadTooShort`]; an
/// unregistered address yields [`SkipReason::AddressNotFound`], an
/// expected, non-fatal outcome.
pub fn get_location(data: &[u8], table: &AddressTable) -> (r: Result<String, SkipReason>)
    ensures
        data@.len() < MIN_PAYLOAD_LEN ==> r == Err::<String, SkipReason>(
            SkipReason::PayloadTooShort(data@.len() as usize),
        ),
        data@.len() >= MIN_PAYLOAD_LEN ==> match spec_lookup(
            table@,
            spec_canonical_address(data@.subrange(0, 6)),
        ) {
            Some(label) => r matches Ok(l) && l@ == label,
            None => r == Err::<String, SkipReason>(SkipReason::AddressNotFound),
        },
{
    if data.len() < MIN_PAYLOAD_LEN {
        return Err(SkipReason::PayloadTooShort(data.len()));
    }
    let mac = canonical_address(&data[0..6]);
    match table.lookup(&mac) {
        Some(label) => Ok(label),
        None => Err(SkipReason::AddressNotFound),
    }
}

} // verus!

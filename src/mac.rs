use vstd::prelude::*;

verus! {

/// The lower-case hexadecimal digit for a value below sixteen.
pub open spec fn hex_digit(n: u8) -> char {
    if n == 0 { '0' }
    else if n == 1 { '1' }
    else if n == 2 { '2' }
    else if n == 3 { '3' }
    else if n == 4 { '4' }
    else if n == 5 { '5' }
    else if n == 6 { '6' }
    else if n == 7 { '7' }
    else if n == 8 { '8' }
    else if n == 9 { '9' }
    else if n == 10 { 'a' }
    else if n == 11 { 'b' }
    else if n == 12 { 'c' }
    else if n == 13 { 'd' }
    else if n == 14 { 'e' }
    else { 'f' }
}

/// Two hexadecimal digits of a byte, high nibble first.
pub open spec fn hex_pair(b: u8) -> Seq<char> {
    seq![hex_digit(b / 16), hex_digit(b % 16)]
}

/// The canonical text of a mac address: `xx:xx:xx:xx:xx:xx`, lower case.
pub open spec fn mac_text(b: Seq<u8>) -> Seq<char> {
    hex_pair(b[0]) + seq![':'] + hex_pair(b[1]) + seq![':'] + hex_pair(b[2]) + seq![':']
        + hex_pair(b[3]) + seq![':'] + hex_pair(b[4]) + seq![':'] + hex_pair(b[5])
}

/// The value of a hexadecimal digit, either case.
pub open spec fn hex_value(c: u8) -> Option<u8> {
    if 48 <= c <= 57 {
        Some((c - 48) as u8)
    } else if 97 <= c <= 102 {
        Some((c - 87) as u8)
    } else if 65 <= c <= 70 {
        Some((c - 55) as u8)
    } else {
        None
    }
}

/// A `:` after the `i`-th pair of digits.
pub open spec fn sep_at(t: Seq<u8>, i: int) -> bool {
    t[3 * i + 2] == 58
}

/// The `i`-th pair of characters are hex digits.
pub open spec fn pair_ok(t: Seq<u8>, i: int) -> bool {
    hex_value(t[3 * i]).is_some() && hex_value(t[3 * i + 1]).is_some()
}

/// Whether `t` is six two-digit hex numbers separated by `:`.
pub open spec fn spec_mac_text_ok(t: Seq<u8>) -> bool {
    &&& t.len() == 17
    &&& forall|i: int| 0 <= i < 5 ==> #[trigger] sep_at(t, i)
    &&& forall|i: int| 0 <= i < 6 ==> #[trigger] pair_ok(t, i)
}

/// The byte that the `i`-th pair of hex digits of `t` denotes.
pub open spec fn spec_text_byte(t: Seq<u8>, i: int) -> int {
    hex_value(t[3 * i]).unwrap() * 16 + hex_value(t[3 * i + 1]).unwrap()
}

fn hex_value_exec(c: u8) -> (r: Option<u8>)
    ensures
        r == hex_value(c),
{
    if 48 <= c && c <= 57 {
        Some(c - 48)
    } else if 97 <= c && c <= 102 {
        Some(c - 87)
    } else if 65 <= c && c <= 70 {
        Some(c - 55)
    } else {
        None
    }
}

/// A six-byte link-layer address.
#[derive(Clone, Copy, Debug, PartialEq, Eq, Hash)]
pub struct MacAddress(pub [u8; 6]);

impl View for MacAddress {
    type V = Seq<u8>;

    open spec fn view(&self) -> Seq<u8> {
        self.0@
    }
}

pub open spec fn spec_is_broadcast(b: Seq<u8>) -> bool {
    forall|i: int| 0 <= i < 6 ==> b[i] == 0xff
}

/// The group bit (least significant bit of the first byte) marks multicast.
pub open spec fn spec_is_multicast(b: Seq<u8>) -> bool {
    b[0] % 2 == 1
}

pub open spec fn spec_is_zero(b: Seq<u8>) -> bool {
    forall|i: int| 0 <= i < 6 ==> b[i] == 0
}

/// A unicast, non-zero address: one that can belong to an actual endpoint.
pub open spec fn spec_is_real_device(b: Seq<u8>) -> bool {
    !spec_is_broadcast(b) && !spec_is_multicast(b) && !spec_is_zero(b)
}

fn hex_digit_exec(n: u8) -> (c: char)
    requires
        n < 16,
    ensures
        c == hex_digit(n),
{
    if n < 10 {
        match n {
            0 => '0',
            1 => '1',
            2 => '2',
            3 => '3',
            4 => '4',
            5 => '5',
            6 => '6',
            7 => '7',
            8 => '8',
            _ => '9',
        }
    } else {
        match n {
            10 => 'a',
            11 => 'b',
            12 => 'c',
            13 => 'd',
            14 => 'e',
            _ => 'f',
        }
    }
}

/// Relies on `String`'s `FromIterator<&char>`: the chars are collected in order.
#[verifier::external_body]
fn collect_chars(chars: &Vec<char>) -> (r: String)
    ensures
        r@ == chars@,
{
    chars.iter().collect()
}

impl MacAddress {
    /// Takes the first six bytes of a slice.
    pub fn from_slice(slice: &[u8]) -> (r: MacAddress)
        requires
            slice@.len() >= 6,
        ensures
            r@ == slice@.subrange(0, 6),
    {
        let r = MacAddress([slice[0], slice[1], slice[2], slice[3], slice[4], slice[5]]);
        assert(r@ =~= slice@.subrange(0, 6));
        r
    }

    /// Takes the six bytes that start at `offset`.
    pub fn from_slice_at(slice: &[u8], offset: usize) -> (r: MacAddress)
        requires
            offset + 6 <= slice@.len(),
        ensures
            r@ == slice@.subrange(offset as int, offset + 6),
    {
        let r = MacAddress(
            [
                slice[offset],
                slice[offset + 1],
                slice[offset + 2],
                slice[offset + 3],
                slice[offset + 4],
                slice[offset + 5],
            ],
        );
        assert(r@ =~= slice@.subrange(offset as int, offset + 6));
        r
    }

    /// The address as `xx:xx:xx:xx:xx:xx` in lower-case hex.
    pub fn to_string(&self) -> (r: String)
        ensures
            r@ == mac_text(self@),
    {
        let mut chars: Vec<char> = Vec::new();
        let mut i: usize = 0;
        while i < 6
            invariant
                0 <= i <= 6,
                self@.len() == 6,
                i == 0 ==> chars@.len() == 0,
                i > 0 ==> chars@ =~= mac_text(self@.subrange(0, i as int) + seq![0u8, 0, 0, 0, 0, 0]).subrange(0, 3 * i - 1),
            decreases 6 - i,
        {
            if i > 0 {
                chars.push(':');
            }
            let b = self.0[i];
            chars.push(hex_digit_exec(b / 16));
            chars.push(hex_digit_exec(b % 16));
            i = i + 1;
        }
        assert(self@.subrange(0, 6) + seq![0u8, 0, 0, 0, 0, 0] =~= self@ + seq![0u8, 0, 0, 0, 0, 0]);
        assert(mac_text(self@ + seq![0u8, 0, 0, 0, 0, 0]) =~= mac_text(self@));
        assert(chars@ =~= mac_text(self@));
        collect_chars(&chars)
    }

    /// Reads `xx:xx:xx:xx:xx:xx` (hex digits in either case).
    pub fn from_text(t: &[u8]) -> (r: Option<MacAddress>)
        ensures
            r.is_some() <==> spec_mac_text_ok(t@),
            r matches Some(m) ==> forall|i: int| 0 <= i < 6 ==> m@[i] == spec_text_byte(t@, i),
    {
        if t.len() != 17 {
            return None;
        }
        let mut bytes: [u8; 6] = [0; 6];
        let mut i: usize = 0;
        while i < 6
            invariant
                i <= 6,
                t@.len() == 17,
                bytes@.len() == 6,
                forall|k: int| 0 <= k < i && k < 5 ==> #[trigger] sep_at(t@, k),
                forall|k: int| 0 <= k < i ==> #[trigger] pair_ok(t@, k),
                forall|k: int| 0 <= k < i ==> bytes@[k] == spec_text_byte(t@, k),
            decreases 6 - i,
        {
            let hi = match hex_value_exec(t[3 * i]) {
                Some(v) => v,
                None => {
                    assert(!pair_ok(t@, i as int));
                    return None;
                },
            };
            let lo = match hex_value_exec(t[3 * i + 1]) {
                Some(v) => v,
                None => {
                    assert(!pair_ok(t@, i as int));
                    return None;
                },
            };
            if i < 5 && t[3 * i + 2] != 58 {
                assert(!sep_at(t@, i as int));
                return None;
            }
            assert(pair_ok(t@, i as int));
            bytes.set(i, hi * 16 + lo);
            i = i + 1;
        }
        Some(MacAddress(bytes))
    }

    /// Whether both addresses have the same bytes.
    pub fn same_as(&self, other: &MacAddress) -> (r: bool)
        ensures
            r == (self@ == other@),
    {
        let r = self.0[0] == other.0[0] && self.0[1] == other.0[1] && self.0[2] == other.0[2]
            && self.0[3] == other.0[3] && self.0[4] == other.0[4] && self.0[5] == other.0[5];
        assert(r ==> self@ =~= other@);
        r
    }

    /// Whether this address reaches the whole network (all bits set).
    pub fn is_broadcast(&self) -> (r: bool)
        ensures
            r == spec_is_broadcast(self@),
    {
        self.0[0] == 0xff && self.0[1] == 0xff && self.0[2] == 0xff && self.0[3] == 0xff
            && self.0[4] == 0xff && self.0[5] == 0xff
    }

    /// Whether the group bit is set.
    pub fn is_multicast(&self) -> (r: bool)
        ensures
            r == spec_is_multicast(self@),
    {
        self.0[0] % 2 == 1
    }

    /// Whether all six bytes are zero.
    pub fn is_zero(&self) -> (r: bool)
        ensures
            r == spec_is_zero(self@),
    {
        self.0[0] == 0 && self.0[1] == 0 && self.0[2] == 0 && self.0[3] == 0 && self.0[4] == 0
            && self.0[5] == 0
    }

    /// Whether the address can belong to an endpoint: not broadcast, not
    /// multicast and not all zero. Link-layer meta traffic fails this test.
    pub fn is_real_device(&self) -> (r: bool)
        ensures
            r == spec_is_real_device(self@),
    {
        !self.is_broadcast() && !self.is_multicast() && !self.is_zero()
    }
}

/// A mac address held as its canonical text.
#[derive(Clone, Debug)]
pub struct MACField {
    pub addr: String,
}

impl MACField {
    /// The text of the address in the first six bytes of a slice.
    pub fn from_slice(s: &[u8]) -> (r: MACField)
        requires
            s@.len() >= 6,
        ensures
            r.addr@ == mac_text(s@.subrange(0, 6)),
    {
        MACField { addr: MacAddress::from_slice(s).to_string() }
    }
}

/// The four address fields of a full-size header, as text.
#[derive(Clone, Debug)]
pub struct FrameAddresses {
    pub addr1: MACField,
    pub addr2: MACField,
    pub addr3: MACField,
    pub addr4: MACField,
}

/// Bytes of the address block: three addresses, sequence control, a fourth
/// address.
pub const ADDRESS_BLOCK_LEN: usize = 26;

impl FrameAddresses {
    /// Reads the address block that starts a header's address fields:
    /// address 1 at bytes 0-5, address 2 at 6-11, address 3 at 12-17, the
    /// sequence control at 18-19 and address 4 at 20-25. `None` when the
    /// input is shorter than that.
    pub fn from_bytes(s: &[u8]) -> (r: Option<FrameAddresses>)
        ensures
            s@.len() < ADDRESS_BLOCK_LEN <==> r.is_none(),
            r matches Some(a) ==> {
                &&& a.addr1.addr@ == mac_text(s@.subrange(0, 6))
                &&& a.addr2.addr@ == mac_text(s@.subrange(6, 12))
                &&& a.addr3.addr@ == mac_text(s@.subrange(12, 18))
                &&& a.addr4.addr@ == mac_text(s@.subrange(20, 26))
            },
    {
        if s.len() < ADDRESS_BLOCK_LEN {
            return None;
        }
        let addr1 = MACField { addr: MacAddress::from_slice_at(s, 0).to_string() };
        let addr2 = MACField { addr: MacAddress::from_slice_at(s, 6).to_string() };
        let addr3 = MACField { addr: MacAddress::from_slice_at(s, 12).to_string() };
        let addr4 = MACField { addr: MacAddress::from_slice_at(s, 20).to_string() };
        Some(FrameAddresses { addr1, addr2, addr3, addr4 })
    }
}

} // verus!

use vstd::prelude::*;

use crate::frame_control::DecodeError;

verus! {

/// Element id of the SSID.
pub const SSID_ID: u8 = 0;

/// Element id of the supported rates.
pub const RATES_ID: u8 = 1;

/// Element id of the DS parameter set (the current channel).
pub const DS_PARAMETER_ID: u8 = 3;

/// Element id of the country information.
pub const COUNTRY_ID: u8 = 7;

/// The longest SSID that a network may advertise.
pub const MAX_SSID_LEN: usize = 32;

/// Whether the tag-length-value elements from `off` to the end of `b` are well
/// formed: each has its id and length byte, and its value ends within `b`.
pub open spec fn spec_elements_ok(b: Seq<u8>, off: nat) -> bool
    decreases b.len() - off,
{
    if off >= b.len() {
        true
    } else if off + 2 > b.len() {
        false
    } else {
        let next = (off + 2 + b[(off + 1) as int] as nat) as nat;
        next <= b.len() && spec_elements_ok(b, next)
    }
}

/// Where the value of the first element with id `id` lies: its start and length.
pub open spec fn spec_find_element(b: Seq<u8>, off: nat, id: u8) -> Option<(nat, nat)>
    decreases b.len() - off,
{
    if off + 2 > b.len() {
        None
    } else if off + 2 + b[(off + 1) as int] > b.len() {
        None
    } else if b[off as int] == id {
        Some(((off + 2) as nat, b[(off + 1) as int] as nat))
    } else {
        spec_find_element(b, (off + 2 + b[(off + 1) as int] as nat) as nat, id)
    }
}

/// The value of the first element with id `id`.
pub open spec fn spec_element_value(b: Seq<u8>, off: nat, id: u8) -> Option<Seq<u8>> {
    match spec_find_element(b, off, id) {
        Some((s, l)) => Some(b.subrange(s as int, (s + l) as int)),
        None => None,
    }
}

/// The bytes of an SSID element carrying `ssid`.
pub open spec fn spec_encode_ssid(ssid: Seq<u8>) -> Seq<u8> {
    seq![SSID_ID, ssid.len() as u8] + ssid
}

/// The information elements that downstream logic reads.
#[derive(Clone, Debug)]
pub struct Elements {
    /// Value of the first SSID element.
    pub ssid: Option<Vec<u8>>,
    /// Value of the first supported-rates element, one rate code per byte.
    pub supported_rates: Option<Vec<u8>>,
    /// First byte of the first DS-parameter element.
    pub current_channel: Option<u8>,
    /// Value of the first country element.
    pub country: Option<Vec<u8>>,
}

pub open spec fn opt_vec(o: Option<Vec<u8>>) -> Option<Seq<u8>> {
    match o {
        Some(v) => Some(v@),
        None => None,
    }
}

/// `e` holds what the elements of `b` from `off` say.
pub open spec fn spec_elements_match(e: Elements, b: Seq<u8>, off: nat) -> bool {
    &&& opt_vec(e.ssid) == spec_element_value(b, off, SSID_ID)
    &&& opt_vec(e.supported_rates) == spec_element_value(b, off, RATES_ID)
    &&& e.current_channel == match spec_element_value(b, off, DS_PARAMETER_ID) {
        Some(v) => if v.len() > 0 { Some(v[0]) } else { None::<u8> },
        None => None::<u8>,
    }
    &&& opt_vec(e.country) == spec_element_value(b, off, COUNTRY_ID)
}

/// Little-endian value of a byte sequence.
pub open spec fn le_value(b: Seq<u8>) -> nat
    decreases b.len(),
{
    if b.len() == 0 {
        0
    } else {
        b[0] as nat + 256 * le_value(b.drop_first())
    }
}

pub open spec fn pow256(n: nat) -> nat
    decreases n,
{
    if n == 0 { 1 } else { 256 * pow256((n - 1) as nat) }
}

proof fn lemma_le_value_bound(b: Seq<u8>)
    ensures
        le_value(b) < pow256(b.len()),
    decreases b.len(),
{
    if b.len() > 0 {
        lemma_le_value_bound(b.drop_first());
        let r = le_value(b.drop_first());
        let p = pow256(b.drop_first().len());
        assert(b[0] as nat + 256 * r < 256 * p) by (nonlinear_arith)
            requires
                r < p,
                b[0] < 256,
        ;
    }
}

/// Reads `n` bytes at `off` as a little-endian unsigned number.
pub fn read_le(b: &[u8], off: usize, n: usize) -> (r: u64)
    requires
        n <= 8,
        off + n <= b@.len(),
    ensures
        r as nat == le_value(b@.subrange(off as int, off + n)),
{
    let mut v: u64 = 0;
    let mut i: usize = n;
    let blen = b.len();
    assert(pow256(0) == 1);
    assert(pow256(1) == 256);
    assert(pow256(2) == 256 * 256);
    assert(pow256(3) == 256 * 256 * 256);
    assert(pow256(4) == 256 * 256 * 256 * 256);
    assert(pow256(5) == 256 * 256 * 256 * 256 * 256);
    assert(pow256(6) == 256 * 256 * 256 * 256 * 256 * 256);
    assert(pow256(7) == 256 * 256 * 256 * 256 * 256 * 256 * 256);
    assert(pow256(8) == 256 * 256 * 256 * 256 * 256 * 256 * 256 * 256);
    assert(b@.subrange((off + n) as int, (off + n) as int) =~= Seq::<u8>::empty());
    while i > 0
        invariant
            i <= n <= 8,
            off + n <= b@.len(),
            v as nat == le_value(b@.subrange(off + i, off + n)),
            blen == b@.len(),
            pow256(8) == 256 * 256 * 256 * 256 * 256 * 256 * 256 * 256,
        decreases i,
    {
        let ghost rest = b@.subrange(off + i, off + n);
        let ghost cur = b@.subrange(off + i - 1, off + n);
        assert(cur.drop_first() =~= rest);
        proof {
            lemma_le_value_bound(cur);
            lemma_pow256_mono(cur.len(), 8);
        }
        v = v * 256 + b[off + i - 1] as u64;
        i = i - 1;
    }
    v
}

proof fn lemma_pow256_mono(a: nat, b: nat)
    requires
        a <= b,
    ensures
        pow256(a) <= pow256(b),
    decreases b,
{
    if a < b {
        lemma_pow256_mono(a, (b - 1) as nat);
    }
}

/// Copies `len` bytes of `b` starting at `start`.
pub fn copy_range(b: &[u8], start: usize, len: usize) -> (r: Vec<u8>)
    requires
        start + len <= b@.len(),
    ensures
        r@ == b@.subrange(start as int, start + len),
{
    let mut r: Vec<u8> = Vec::new();
    let mut i: usize = 0;
    let blen = b.len();
    while i < len
        invariant
            i <= len,
            blen == b@.len(),
            start + len <= b@.len(),
            r@ == b@.subrange(start as int, start + i),
        decreases len - i,
    {
        r.push(b[start + i]);
        i = i + 1;
        assert(r@ =~= b@.subrange(start as int, start + i));
    }
    r
}

/// Walks the tag-length-value elements from `start` to the end of `b` by their
/// lengths and keeps the first value of each element that is read downstream.
/// Unknown elements are skipped; an element that runs past the end fails.
pub fn parse_elements(b: &[u8], start: usize) -> (r: Result<Elements, DecodeError>)
    requires
        start <= b@.len(),
    ensures
        spec_elements_ok(b@, start as nat) <==> r.is_ok(),
        r.is_err() ==> r == Err::<Elements, DecodeError>(DecodeError::Failure),
        r matches Ok(e) ==> spec_elements_match(e, b@, start as nat),
{
    let mut off: usize = start;
    let mut ssid: Option<(usize, usize)> = None;
    let mut rates: Option<(usize, usize)> = None;
    let mut ds: Option<(usize, usize)> = None;
    let mut country: Option<(usize, usize)> = None;
    while off < b.len()
        invariant
            start <= off <= b@.len(),
            spec_elements_ok(b@, start as nat) == spec_elements_ok(b@, off as nat),
            spec_find_element(b@, start as nat, SSID_ID) == match ssid {
                Some((s, l)) => Some((s as nat, l as nat)),
                None => spec_find_element(b@, off as nat, SSID_ID),
            },
            spec_find_element(b@, start as nat, RATES_ID) == match rates {
                Some((s, l)) => Some((s as nat, l as nat)),
                None => spec_find_element(b@, off as nat, RATES_ID),
            },
            spec_find_element(b@, start as nat, DS_PARAMETER_ID) == match ds {
                Some((s, l)) => Some((s as nat, l as nat)),
                None => spec_find_element(b@, off as nat, DS_PARAMETER_ID),
            },
            spec_find_element(b@, start as nat, COUNTRY_ID) == match country {
                Some((s, l)) => Some((s as nat, l as nat)),
                None => spec_find_element(b@, off as nat, COUNTRY_ID),
            },
            ssid matches Some((s, l)) ==> s + l <= off,
            rates matches Some((s, l)) ==> s + l <= off,
            ds matches Some((s, l)) ==> s + l <= off,
            country matches Some((s, l)) ==> s + l <= off,
        decreases b@.len() - off,
    {
        if b.len() - off < 2 {
            return Err(DecodeError::Failure);
        }
        let id = b[off];
        let len = b[off + 1] as usize;
        if len > b.len() - off - 2 {
            return Err(DecodeError::Failure);
        }
        let next = off + 2 + len;
        if id == SSID_ID && ssid.is_none() {
            ssid = Some((off + 2, len));
        }
        if id == RATES_ID && rates.is_none() {
            rates = Some((off + 2, len));
        }
        if id == DS_PARAMETER_ID && ds.is_none() {
            ds = Some((off + 2, len));
        }
        if id == COUNTRY_ID && country.is_none() {
            country = Some((off + 2, len));
        }
        off = next;
    }
    proof {
        assert(spec_find_element(b@, off as nat, SSID_ID).is_none());
        assert(spec_find_element(b@, off as nat, RATES_ID).is_none());
        assert(spec_find_element(b@, off as nat, DS_PARAMETER_ID).is_none());
        assert(spec_find_element(b@, off as nat, COUNTRY_ID).is_none());
    }
    let ssid_value = match ssid {
        Some((s, l)) => Some(copy_range(b, s, l)),
        None => None,
    };
    let rates_value = match rates {
        Some((s, l)) => Some(copy_range(b, s, l)),
        None => None,
    };
    let current_channel = match ds {
        Some((s, l)) => if l > 0 { Some(b[s]) } else { None },
        None => None,
    };
    let country_value = match country {
        Some((s, l)) => Some(copy_range(b, s, l)),
        None => None,
    };
    Ok(
        Elements {
            ssid: ssid_value,
            supported_rates: rates_value,
            current_channel,
            country: country_value,
        },
    )
}

/// The SSID element for `ssid`: id 0, the length, then the bytes.
pub fn encode_ssid(ssid: &[u8]) -> (r: Vec<u8>)
    requires
        ssid@.len() <= MAX_SSID_LEN,
    ensures
        r@ == spec_encode_ssid(ssid@),
{
    let mut r: Vec<u8> = Vec::new();
    r.push(SSID_ID);
    r.push(ssid.len() as u8);
    let mut i: usize = 0;
    while i < ssid.len()
        invariant
            i <= ssid@.len() <= MAX_SSID_LEN,
            r@ == seq![SSID_ID, ssid@.len() as u8] + ssid@.subrange(0, i as int),
        decreases ssid@.len() - i,
    {
        r.push(ssid[i]);
        i = i + 1;
        assert(r@ =~= seq![SSID_ID, ssid@.len() as u8] + ssid@.subrange(0, i as int));
    }
    assert(ssid@.subrange(0, ssid@.len() as int) =~= ssid@);
    r
}

/// Encoding an SSID of at most 32 bytes as an element and reading the
/// elements back gives the same bytes: the element is well formed and its
/// value is the SSID.
pub proof fn lemma_ssid_round_trip(ssid: Seq<u8>)
    requires
        ssid.len() <= MAX_SSID_LEN,
    ensures
        spec_elements_ok(spec_encode_ssid(ssid), 0),
        spec_element_value(spec_encode_ssid(ssid), 0, SSID_ID) == Some(ssid),
{
    let b = spec_encode_ssid(ssid);
    let next = (2 + b[1]) as nat;
    assert(b[1] as nat == ssid.len());
    assert(next == b.len());
    assert(spec_elements_ok(b, next));
    assert(b.subrange(2, 2 + ssid.len() as int) =~= ssid);
}

} // verus!

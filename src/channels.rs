use vstd::prelude::*;

verus! {

/// Whether a frequency is one of the 5 GHz channel centres that the table knows.
pub open spec fn spec_known_5ghz(mhz: int) -> bool {
    ||| (5160 <= mhz <= 5320 && mhz % 10 == 0)
    ||| mhz == 5340
    ||| mhz == 5480
    ||| (5500 <= mhz <= 5720 && mhz % 10 == 0 && mhz != 5650)
    ||| (5745 <= mhz <= 5885 && (mhz - 5745) % 10 == 0)
}

/// The channel number of a centre frequency in MHz: 2412 to 2472 MHz in steps
/// of 5 are channels 1 to 13, 2484 MHz is channel 14, and a known 5 GHz
/// centre `f` is channel `(f - 5000) / 5`. Any other frequency has none.
pub open spec fn spec_mhz_to_channel(mhz: u16) -> Option<i32> {
    let f = mhz as int;
    if 2412 <= f <= 2472 && (f - 2412) % 5 == 0 {
        Some(((f - 2407) / 5) as i32)
    } else if f == 2484 {
        Some(14)
    } else if spec_known_5ghz(f) {
        Some(((f - 5000) / 5) as i32)
    } else {
        None
    }
}

/// Maps a radiotap channel frequency in MHz to its channel number.
pub fn get_mhz_to_channel(mhz: u16) -> (r: Option<i32>)
    ensures
        r == spec_mhz_to_channel(mhz),
{
    match mhz {
        2412 => Some(1),
        2417 => Some(2),
        2422 => Some(3),
        2427 => Some(4),
        2432 => Some(5),
        2437 => Some(6),
        2442 => Some(7),
        2447 => Some(8),
        2452 => Some(9),
        2457 => Some(10),
        2462 => Some(11),
        2467 => Some(12),
        2472 => Some(13),
        2484 => Some(14),
        5160 => Some(32),
        5170 => Some(34),
        5180 => Some(36),
        5190 => Some(38),
        5200 => Some(40),
        5210 => Some(42),
        5220 => Some(44),
        5230 => Some(46),
        5240 => Some(48),
        5250 => Some(50),
        5260 => Some(52),
        5270 => Some(54),
        5280 => Some(56),
        5290 => Some(58),
        5300 => Some(60),
        5310 => Some(62),
        5320 => Some(64),
        5340 => Some(68),
        5480 => Some(96),
        5500 => Some(100),
        5510 => Some(102),
        5520 => Some(104),
        5530 => Some(106),
        5540 => Some(108),
        5550 => Some(110),
        5560 => Some(112),
        5570 => Some(114),
        5580 => Some(116),
        5590 => Some(118),
        5600 => Some(120),
        5610 => Some(122),
        5620 => Some(124),
        5630 => Some(126),
        5640 => Some(128),
        5660 => Some(132),
        5670 => Some(134),
        5680 => Some(136),
        5690 => Some(138),
        5700 => Some(140),
        5710 => Some(142),
        5720 => Some(144),
        5745 => Some(149),
        5755 => Some(151),
        5765 => Some(153),
        5775 => Some(155),
        5785 => Some(157),
        5795 => Some(159),
        5805 => Some(161),
        5815 => Some(163),
        5825 => Some(165),
        5835 => Some(167),
        5845 => Some(169),
        5855 => Some(171),
        5865 => Some(173),
        5875 => Some(175),
        5885 => Some(177),
        _ => None,
    }
}

/// The word that starts each channel line of the interface's channel list.
pub open spec fn channel_word() -> Seq<u8> {
    seq![67u8, 104, 97, 110, 110, 101, 108]
}

/// Why a channel list could not be read.
#[derive(Clone, Copy, Debug, PartialEq, Eq, Structural)]
pub enum ChannelListError {
    /// A channel line without a second word.
    MissingNumber,
    /// A channel line whose second word is not a channel number.
    BadNumber,
}

/// Space, tab, line feed, vertical tab, form feed, carriage return.
pub open spec fn is_ws(c: u8) -> bool {
    c == 32 || (9 <= c <= 13)
}

pub open spec fn is_digit(c: u8) -> bool {
    48 <= c <= 57
}

/// Index of the first line feed at or after `i`, or the end of `b`.
pub open spec fn line_end(b: Seq<u8>, i: int) -> int
    decreases b.len() - i,
{
    if i >= b.len() { b.len() as int } else if b[i] == 10 { i } else { line_end(b, i + 1) }
}

/// First index in `[i, end)` that is not whitespace, or `end`.
pub open spec fn skip_ws(b: Seq<u8>, i: int, end: int) -> int
    decreases end - i,
{
    if i >= end { end } else if is_ws(b[i]) { skip_ws(b, i + 1, end) } else { i }
}

/// First index in `[i, end)` that is whitespace, or `end`.
pub open spec fn skip_word(b: Seq<u8>, i: int, end: int) -> int
    decreases end - i,
{
    if i >= end { end } else if !is_ws(b[i]) { skip_word(b, i + 1, end) } else { i }
}

/// First index in `[i, end)` that is not `'0'`, or `end`.
pub open spec fn skip_zeros(b: Seq<u8>, i: int, end: int) -> int
    decreases end - i,
{
    if i >= end { end } else if b[i] == 48 { skip_zeros(b, i + 1, end) } else { i }
}

/// End of `[start, j)` once trailing whitespace is dropped.
pub open spec fn trim_back(b: Seq<u8>, start: int, j: int) -> int
    decreases j - start,
{
    if j > start && is_ws(b[j - 1]) { trim_back(b, start, j - 1) } else { j }
}

pub open spec fn all_digits(b: Seq<u8>, i: int, j: int) -> bool {
    forall|k: int| i <= k < j ==> is_digit(#[trigger] b[k])
}

/// Decimal value of the digits `b[i..j]`.
pub open spec fn dec_value(b: Seq<u8>, i: int, j: int) -> int
    decreases j - i,
{
    if j <= i { 0 } else { dec_value(b, i, j - 1) * 10 + (b[j - 1] - 48) }
}

/// What the line `b[s..e]` says: nothing when, trimmed, it does not start
/// with `Channel`; otherwise its second word, leading zeros dropped, read as
/// a decimal channel number.
pub open spec fn spec_line_channel(b: Seq<u8>, s: int, e: int) -> Option<Result<i32, ChannelListError>> {
    let ts = skip_ws(b, s, e);
    let te = trim_back(b, ts, e);
    if te - ts < 7 || b.subrange(ts, ts + 7) != channel_word() {
        None
    } else {
        let p = skip_ws(b, skip_word(b, ts, te), te);
        let q = skip_word(b, p, te);
        let z = skip_zeros(b, p, q);
        if p >= te {
            Some(Err(ChannelListError::MissingNumber))
        } else if z < q && all_digits(b, z, q) && dec_value(b, z, q) <= i32::MAX {
            Some(Ok(dec_value(b, z, q) as i32))
        } else {
            Some(Err(ChannelListError::BadNumber))
        }
    }
}

/// The channels listed from the line that starts at `pos` on, in order; the
/// first bad channel line makes it an error.
pub open spec fn spec_channels_from(b: Seq<u8>, pos: int) -> Result<Seq<i32>, ChannelListError>
    decreases b.len() - pos,
{
    if pos < 0 || pos > b.len() {
        Ok(Seq::empty())
    } else {
        let e = line_end(b, pos);
        let rest = if pos <= e < b.len() { spec_channels_from(b, e + 1) } else { Ok(Seq::<i32>::empty()) };
        match spec_line_channel(b, pos, e) {
            None => rest,
            Some(Err(x)) => Err(x),
            Some(Ok(n)) => match rest {
                Ok(t) => Ok(seq![n] + t),
                Err(x) => Err(x),
            },
        }
    }
}

proof fn lemma_line_end(b: Seq<u8>, i: int)
    requires
        0 <= i <= b.len(),
    ensures
        i <= line_end(b, i) <= b.len(),
        line_end(b, i) < b.len() ==> b[line_end(b, i)] == 10,
    decreases b.len() - i,
{
    if i < b.len() && b[i] != 10 {
        lemma_line_end(b, i + 1);
    }
}

proof fn lemma_dec_monotone(b: Seq<u8>, i: int, j: int, k: int)
    requires
        i <= j <= k,
        all_digits(b, i, k),
    ensures
        dec_value(b, i, j) <= dec_value(b, i, k),
        dec_value(b, i, j) >= 0,
    decreases k - i,
{
    if j < k {
        lemma_dec_monotone(b, i, j, k - 1);
        assert(is_digit(b[k - 1]));
    } else if j > i {
        lemma_dec_monotone(b, i, j - 1, j - 1);
        assert(is_digit(b[j - 1]));
    }
}

/// Index of the line feed that ends the line starting at `i`, or the end of `b`.
fn scan_line_end(b: &[u8], i: usize) -> (r: usize)
    requires
        i <= b@.len(),
    ensures
        r == line_end(b@, i as int),
{
    let mut j = i;
    while j < b.len() && b[j] != 10
        invariant
            i <= j <= b@.len(),
            line_end(b@, i as int) == line_end(b@, j as int),
        decreases b@.len() - j,
    {
        j = j + 1;
    }
    j
}

fn exec_is_ws(c: u8) -> (r: bool)
    ensures
        r == is_ws(c),
{
    c == 32 || (9 <= c && c <= 13)
}

fn exec_skip_ws(b: &[u8], i: usize, end: usize) -> (r: usize)
    requires
        i <= end <= b@.len(),
    ensures
        r == skip_ws(b@, i as int, end as int),
        i <= r <= end,
{
    let mut j = i;
    while j < end && exec_is_ws(b[j])
        invariant
            i <= j <= end <= b@.len(),
            skip_ws(b@, i as int, end as int) == skip_ws(b@, j as int, end as int),
        decreases end - j,
    {
        j = j + 1;
    }
    j
}

fn exec_skip_word(b: &[u8], i: usize, end: usize) -> (r: usize)
    requires
        i <= end <= b@.len(),
    ensures
        r == skip_word(b@, i as int, end as int),
        i <= r <= end,
{
    let mut j = i;
    while j < end && !exec_is_ws(b[j])
        invariant
            i <= j <= end <= b@.len(),
            skip_word(b@, i as int, end as int) == skip_word(b@, j as int, end as int),
        decreases end - j,
    {
        j = j + 1;
    }
    j
}

fn exec_skip_zeros(b: &[u8], i: usize, end: usize) -> (r: usize)
    requires
        i <= end <= b@.len(),
    ensures
        r == skip_zeros(b@, i as int, end as int),
        i <= r <= end,
{
    let mut j = i;
    while j < end && b[j] == 48
        invariant
            i <= j <= end <= b@.len(),
            skip_zeros(b@, i as int, end as int) == skip_zeros(b@, j as int, end as int),
        decreases end - j,
    {
        j = j + 1;
    }
    j
}

fn exec_trim_back(b: &[u8], start: usize, j0: usize) -> (r: usize)
    requires
        start <= j0 <= b@.len(),
    ensures
        r == trim_back(b@, start as int, j0 as int),
        start <= r <= j0,
{
    let mut j = j0;
    while j > start && exec_is_ws(b[j - 1])
        invariant
            start <= j <= j0 <= b@.len(),
            trim_back(b@, start as int, j0 as int) == trim_back(b@, start as int, j as int),
        decreases j - start,
    {
        j = j - 1;
    }
    j
}

/// Reads the channel number of the line `b[s..e]`, if it is a channel line.
fn line_channel(b: &[u8], s: usize, e: usize) -> (r: Option<Result<i32, ChannelListError>>)
    requires
        s <= e <= b@.len(),
    ensures
        r == spec_line_channel(b@, s as int, e as int),
{
    let ts = exec_skip_ws(b, s, e);
    let te = exec_trim_back(b, ts, e);
    if te - ts < 7 {
        return None;
    }
    let word = b[ts] == 67 && b[ts + 1] == 104 && b[ts + 2] == 97 && b[ts + 3] == 110
        && b[ts + 4] == 110 && b[ts + 5] == 101 && b[ts + 6] == 108;
    if !word {
        assert(b@.subrange(ts as int, ts + 7) != channel_word()) by {
            if b@.subrange(ts as int, ts + 7) == channel_word() {
                assert(b@.subrange(ts as int, ts + 7)[0] == 67);
                assert(b@.subrange(ts as int, ts + 7)[1] == 104);
                assert(b@.subrange(ts as int, ts + 7)[2] == 97);
                assert(b@.subrange(ts as int, ts + 7)[3] == 110);
                assert(b@.subrange(ts as int, ts + 7)[4] == 110);
                assert(b@.subrange(ts as int, ts + 7)[5] == 101);
                assert(b@.subrange(ts as int, ts + 7)[6] == 108);
            }
        }
        return None;
    }
    assert(b@.subrange(ts as int, ts + 7) =~= channel_word());
    let p = exec_skip_ws(b, exec_skip_word(b, ts, te), te);
    let q = exec_skip_word(b, p, te);
    let z = exec_skip_zeros(b, p, q);
    if p >= te {
        return Some(Err(ChannelListError::MissingNumber));
    }
    if z >= q {
        return Some(Err(ChannelListError::BadNumber));
    }
    let mut v: i64 = 0;
    let mut i = z;
    assert(spec_line_channel(b@, s as int, e as int) == if all_digits(b@, z as int, q as int) && dec_value(b@, z as int, q as int) <= i32::MAX {
        Some(Ok::<i32, ChannelListError>(dec_value(b@, z as int, q as int) as i32))
    } else {
        Some(Err::<i32, ChannelListError>(ChannelListError::BadNumber))
    });
    while i < q
        invariant
            spec_line_channel(b@, s as int, e as int) == if all_digits(b@, z as int, q as int) && dec_value(b@, z as int, q as int) <= i32::MAX {
                Some(Ok::<i32, ChannelListError>(dec_value(b@, z as int, q as int) as i32))
            } else {
                Some(Err::<i32, ChannelListError>(ChannelListError::BadNumber))
            },
            z <= i <= q <= b@.len(),
            all_digits(b@, z as int, i as int),
            v == dec_value(b@, z as int, i as int),
            0 <= v <= i32::MAX,
        decreases q - i,
    {
        let c = b[i];
        if c < 48 || c > 57 {
            assert(!is_digit(b@[i as int]));
            assert(!all_digits(b@, z as int, q as int));
            return Some(Err(ChannelListError::BadNumber));
        }
        assert(dec_value(b@, z as int, i + 1) == dec_value(b@, z as int, i as int) * 10 + (b@[i as int] - 48));
        v = v * 10 + (c - 48) as i64;
        i = i + 1;
        if v > i32::MAX as i64 {
            proof {
                if all_digits(b@, z as int, q as int) {
                    lemma_dec_monotone(b@, z as int, i as int, q as int);
                    assert(dec_value(b@, z as int, q as int) > i32::MAX);
                }
            }
            return Some(Err(ChannelListError::BadNumber));
        }
    }
    Some(Ok(v as i32))
}

/// Reads the channel numbers from the interface's channel list: every line
/// that, trimmed, starts with `Channel` names one, as its second word with
/// leading zeros dropped; other lines are ignored.
pub fn parse_supported_channels(output: &[u8]) -> (r: Result<Vec<i32>, ChannelListError>)
    ensures
        match spec_channels_from(output@, 0) {
            Ok(t) => r matches Ok(v) && v@ == t,
            Err(x) => r == Err::<Vec<i32>, ChannelListError>(x),
        },
{
    let mut channels: Vec<i32> = Vec::new();
    let mut pos: usize = 0;
    let blen = output.len();
    loop
        invariant
            pos <= blen,
            blen == output@.len(),
            spec_channels_from(output@, 0) == match spec_channels_from(output@, pos as int) {
                Ok(t) => Ok(channels@ + t),
                Err(x) => Err::<Seq<i32>, ChannelListError>(x),
            },
        decreases blen - pos,
    {
        let e = scan_line_end(output, pos);
        proof {
            lemma_line_end(output@, pos as int);
        }
        match line_channel(output, pos, e) {
            None => {},
            Some(Err(x)) => {
                return Err(x);
            },
            Some(Ok(n)) => {
                proof {
                    let rest = if pos <= e < output@.len() { spec_channels_from(output@, e + 1) } else { Ok(Seq::<i32>::empty()) };
                    if let Ok(t) = rest {
                        assert(channels@ + (seq![n] + t) =~= channels@.push(n) + t);
                    }
                }
                channels.push(n);
            },
        }
        if e < blen {
            pos = e + 1;
        } else {
            proof {
                assert(channels@ + Seq::<i32>::empty() =~= channels@);
            }
            return Ok(channels);
        }
    }
}

} // verus!

use vstd::prelude::*;

verus! {

/// Glyph of a success in a loss sparkline and of the highest RTT level.
pub const FULL_BLOCK: char = '\u{2588}';
/// Glyph of a timeout.
pub const TIMEOUT_MARK: char = '\u{d7}';

/// The eight block glyphs, lowest first.
pub open spec fn block(level: int) -> char {
    if level <= 0 {
        '\u{2581}'
    } else if level == 1 {
        '\u{2582}'
    } else if level == 2 {
        '\u{2583}'
    } else if level == 3 {
        '\u{2584}'
    } else if level == 4 {
        '\u{2585}'
    } else if level == 5 {
        '\u{2586}'
    } else if level == 6 {
        '\u{2587}'
    } else {
        '\u{2588}'
    }
}

fn block_char(level: u64) -> (r: char)
    ensures
        r == block(level as int),
{
    if level == 0 {
        '\u{2581}'
    } else if level == 1 {
        '\u{2582}'
    } else if level == 2 {
        '\u{2583}'
    } else if level == 3 {
        '\u{2584}'
    } else if level == 4 {
        '\u{2585}'
    } else if level == 5 {
        '\u{2586}'
    } else if level == 6 {
        '\u{2587}'
    } else {
        '\u{2588}'
    }
}

/// Where the last `width` items of a sequence of length `len` start.
pub open spec fn tail_start(len: int, width: int) -> int {
    if width < len {
        len - width
    } else {
        0
    }
}

/// Relies on `FromIterator<char> for String`: the string of these characters.
#[verifier::external_body]
fn string_from_chars(chars: &Vec<char>) -> (r: String)
    ensures
        r@ == chars@,
{
    chars.iter().collect()
}

/// The loss pattern of the last `width` ticks: a full block for an answer,
/// a cross for a timeout.
pub open spec fn loss_text(data: Seq<bool>, width: int) -> Seq<char> {
    let start = tail_start(data.len() as int, width);
    Seq::new(
        (data.len() - start) as nat,
        |i: int|
            if data[start + i] {
                FULL_BLOCK
            } else {
                TIMEOUT_MARK
            },
    )
}

/// Renders the last `width` answer/timeout flags.
pub fn loss_sparkline_string(data: &[bool], width: usize) -> (r: String)
    ensures
        r@ == loss_text(data@, width as int),
{
    let start = if width < data.len() { data.len() - width } else { 0 };
    let mut out: Vec<char> = Vec::new();
    let mut i: usize = start;
    while i < data.len()
        invariant
            start <= i <= data@.len(),
            start == tail_start(data@.len() as int, width as int),
            out@ =~= loss_text(data@, width as int).take(i - start),
        decreases data@.len() - i,
    {
        out.push(if data[i] { FULL_BLOCK } else { TIMEOUT_MARK });
        i = i + 1;
    }
    assert(out@ =~= loss_text(data@, width as int));
    string_from_chars(&out)
}

/// Smallest round-trip time present.
pub open spec fn present_min(s: Seq<Option<u64>>) -> Option<u64>
    decreases s.len(),
{
    if s.len() == 0 {
        None
    } else {
        match (present_min(s.drop_last()), s.last()) {
            (Some(a), Some(b)) => Some(if b < a { b } else { a }),
            (None, x) => x,
            (a, None) => a,
        }
    }
}

/// Largest round-trip time present.
pub open spec fn present_max(s: Seq<Option<u64>>) -> Option<u64>
    decreases s.len(),
{
    if s.len() == 0 {
        None
    } else {
        match (present_max(s.drop_last()), s.last()) {
            (Some(a), Some(b)) => Some(if b > a { b } else { a }),
            (None, x) => x,
            (a, None) => a,
        }
    }
}

/// Scale of the sparkline in microseconds: the spread of the samples, or one
/// millisecond when they are all equal.
pub open spec fn spread(lo: u64, hi: u64) -> int {
    if hi - lo < 1 {
        1000
    } else {
        hi - lo
    }
}

/// Level 0 to 7 of a sample: `round(7 * (x - lo) / spread)`, at most 7.
pub open spec fn level(x: u64, lo: u64, range: int) -> int {
    let l = (14 * (x - lo) + range) / (2 * range);
    if l > 7 {
        7
    } else {
        l
    }
}

/// Levels of the last `width` samples: 0 to 7, scaled between the smallest
/// and largest sample present, `None` for a timeout.
pub open spec fn spark_levels(data: Seq<Option<u64>>, width: int) -> Seq<Option<u8>> {
    let start = tail_start(data.len() as int, width);
    Seq::new(
        (data.len() - start) as nat,
        |i: int|
            match (data[start + i], present_min(data), present_max(data)) {
                (Some(x), Some(lo), Some(hi)) => Some(level(x, lo, spread(lo, hi)) as u8),
                _ => None,
            },
    )
}

/// The RTT sparkline of the last `width` samples: the block glyph of each
/// level, a cross for a timeout.
pub open spec fn spark_text(data: Seq<Option<u64>>, width: int) -> Seq<char> {
    let levels = spark_levels(data, width);
    Seq::new(
        levels.len(),
        |i: int|
            match levels[i] {
                Some(l) => block(l as int),
                None => TIMEOUT_MARK,
            },
    )
}

proof fn lemma_present_bounds(s: Seq<Option<u64>>, i: int)
    requires
        0 <= i < s.len(),
        s[i] is Some,
    ensures
        present_min(s) matches Some(lo) && lo <= s[i]->0,
        present_max(s) matches Some(hi) && hi >= s[i]->0,
    decreases s.len(),
{
    if i < s.len() - 1 {
        lemma_present_bounds(s.drop_last(), i);
    }
}

proof fn lemma_present_same(s: Seq<Option<u64>>)
    ensures
        present_min(s) is Some <==> present_max(s) is Some,
        present_min(s) matches Some(lo) ==> present_max(s) matches Some(hi) && lo <= hi,
    decreases s.len(),
{
    if s.len() > 0 {
        lemma_present_same(s.drop_last());
    }
}

/// Levels 0 to 7 of the last `width` round-trip samples (microseconds),
/// `None` for a timeout.
pub fn sparkline_levels(data: &[Option<u64>], width: usize) -> (r: Vec<Option<u8>>)
    ensures
        r@ == spark_levels(data@, width as int),
{
    let mut lo: Option<u64> = None;
    let mut hi: Option<u64> = None;
    let mut k: usize = 0;
    while k < data.len()
        invariant
            k <= data@.len(),
            lo == present_min(data@.take(k as int)),
            hi == present_max(data@.take(k as int)),
        decreases data@.len() - k,
    {
        assert(data@.take(k + 1).drop_last() =~= data@.take(k as int));
        match data[k] {
            Some(x) => {
                lo = match lo {
                    Some(a) => Some(if x < a { x } else { a }),
                    None => Some(x),
                };
                hi = match hi {
                    Some(a) => Some(if x > a { x } else { a }),
                    None => Some(x),
                };
            },
            None => {},
        }
        k = k + 1;
    }
    assert(data@.take(data@.len() as int) =~= data@);
    proof {
        lemma_present_same(data@);
    }
    let start = if width < data.len() { data.len() - width } else { 0 };
    let mut out: Vec<Option<u8>> = Vec::new();
    let mut i: usize = start;
    while i < data.len()
        invariant
            start <= i <= data@.len(),
            start == tail_start(data@.len() as int, width as int),
            lo == present_min(data@),
            hi == present_max(data@),
            lo is Some <==> hi is Some,
            lo matches Some(l) ==> hi matches Some(h) && l <= h,
            out@ =~= spark_levels(data@, width as int).take(i - start),
        decreases data@.len() - i,
    {
        let c = match (data[i], lo, hi) {
            (Some(x), Some(l), Some(h)) => {
                proof {
                    lemma_present_bounds(data@, i as int);
                }
                let range: u64 = if h - l < 1 { 1000 } else { h - l };
                let lvl: u128 = (14 * ((x - l) as u128) + (range as u128)) / (2 * (range as u128));
                Some(if lvl > 7 { 7u8 } else { lvl as u8 })
            },
            _ => None,
        };
        out.push(c);
        i = i + 1;
    }
    assert(out@ =~= spark_levels(data@, width as int));
    out
}

/// Renders the last `width` round-trip samples (microseconds, `None` for a
/// timeout) as block glyphs.
pub fn sparkline_string(data: &[Option<u64>], width: usize) -> (r: String)
    ensures
        r@ == spark_text(data@, width as int),
{
    let levels = sparkline_levels(data, width);
    let mut out: Vec<char> = Vec::new();
    let mut i: usize = 0;
    while i < levels.len()
        invariant
            i <= levels@.len(),
            levels@ == spark_levels(data@, width as int),
            out@ =~= spark_text(data@, width as int).take(i as int),
        decreases levels@.len() - i,
    {
        out.push(
            match levels[i] {
                Some(l) => block_char(l as u64),
                None => TIMEOUT_MARK,
            },
        );
        i = i + 1;
    }
    assert(out@ =~= spark_text(data@, width as int));
    string_from_chars(&out)
}

} // verus!

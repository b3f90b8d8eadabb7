//! Day 8: layered image decoding.
use vstd::prelude::*;
use vstd::string::StringSliceAdditionalSpecFns;

verus! {

/// The digit value of an ASCII digit byte.
pub fn byte_to_int(i: u8) -> (r: Option<u8>)
    ensures
        48 <= i <= 57 ==> r == Some((i - 48) as u8),
        !(48 <= i <= 57) ==> r is None,
{
    if 48 <= i && i <= 57 {
        Some(i - 48)
    } else {
        None
    }
}

/// Parse a string of digits into pixel values.
pub fn read_input(s: &str) -> (r: Option<Vec<u8>>)
    ensures
        r matches Some(out) ==> out@.len() == s.spec_bytes().len(),
{
    let b = s.as_bytes();
    let mut out: Vec<u8> = Vec::new();
    let mut i: usize = 0;
    while i < b.len()
        invariant
            i <= b@.len(),
            out@.len() == i,
        decreases b@.len() - i,
    {
        match byte_to_int(b[i]) {
            Some(v) => {
                out.push(v);
            },
            None => {
                return None;
            },
        }
        i = i + 1;
    }
    Some(out)
}

/// How many pixels of a range hold the value `v`.
fn count_value(data: &Vec<u8>, lo: usize, hi: usize, v: u8) -> (r: usize)
    requires
        lo <= hi <= data@.len(),
    ensures
        r <= hi - lo,
{
    let mut cnt: usize = 0;
    let mut i = lo;
    while i < hi
        invariant
            lo <= i <= hi <= data@.len(),
            cnt <= i - lo,
        decreases hi - i,
    {
        if data[i] == v {
            cnt = cnt + 1;
        }
        i = i + 1;
    }
    cnt
}

/// Part one: on the layer with the fewest zeros, the number of ones times
/// the number of twos.
pub fn d08a(data: &Vec<u8>, width: usize, height: usize) -> (r: Option<u64>)
    requires
        1 <= width * height,
        width * height <= 1000000,
        data@.len() <= 100000000,
{
    let layer = width * height;
    let n = data.len();
    if n == 0 {
        return None;
    }
    let mut best_start: usize = 0;
    let mut best_zeros: usize = usize::MAX;
    let mut start: usize = 0;
    while start < n
        invariant
            start <= n,
            n == data@.len(),
            1 <= layer <= 1000000,
            n <= 100000000,
            best_start <= n,
        decreases n - start,
    {
        let hi = if start + layer <= n {
            start + layer
        } else {
            n
        };
        let zeros = count_value(data, start, hi, 0);
        if zeros < best_zeros {
            best_zeros = zeros;
            best_start = start;
        }
        start = hi;
        if hi == n {
            break ;
        }
    }
    let hi = if best_start + layer <= n {
        best_start + layer
    } else {
        n
    };
    let ones = count_value(data, best_start, hi, 1);
    let twos = count_value(data, best_start, hi, 2);
    proof {
        assert(ones as int * twos as int <= 100000000int * 100000000int) by (nonlinear_arith)
            requires
                0 <= ones as int <= 100000000,
                0 <= twos as int <= 100000000,
        ;
    }
    Some((ones as u64) * (twos as u64))
}

/// Part two: flatten the layers, the first non-transparent pixel showing.
pub fn d08b(data: &Vec<u8>, width: usize, height: usize) -> (r: Option<Vec<u8>>)
    requires
        1 <= width * height,
        width * height <= 1000000,
        data@.len() <= 100000000,
    ensures
        r matches Some(img) ==> img@.len() == width * height,
{
    let layer = width * height;
    let n = data.len();
    if n == 0 || n < layer || n % layer != 0 {
        return None;
    }
    let mut img: Vec<u8> = Vec::new();
    let mut p: usize = 0;
    while p < layer
        invariant
            p <= layer,
            img@.len() == p,
            layer <= n == data@.len(),
            n % layer == 0,
            1 <= layer <= 1000000,
            n <= 100000000,
        decreases layer - p,
    {
        let mut pixel: u8 = 2;
        let mut q = p;
        while q < n
            invariant
                p <= q,
                q <= n + layer,
                n == data@.len(),
                1 <= layer <= 1000000,
                n <= 100000000,
            decreases n + layer - q,
        {
            if data[q] != 2 {
                pixel = data[q];
                break ;
            }
            q = q + layer;
        }
        img.push(pixel);
        p = p + 1;
    }
    Some(img)
}

/// Part one over program text.
pub fn part_a(s: &str, width: usize, height: usize) -> (r: Option<u64>)
    requires
        1 <= width * height,
        width * height <= 1000000,
        s.spec_bytes().len() <= 100000000,
{
    let data = read_input(s)?;
    d08a(&data, width, height)
}

/// Part two over program text.
pub fn part_b(s: &str, width: usize, height: usize) -> (r: Option<Vec<u8>>)
    requires
        1 <= width * height,
        width * height <= 1000000,
        s.spec_bytes().len() <= 100000000,
{
    let data = read_input(s)?;
    d08b(&data, width, height)
}

} // verus!

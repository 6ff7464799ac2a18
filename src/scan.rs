//! A scan of a GIF's bytes ahead of decoding: it follows the block structure
//! and, in each image's LZW data, the code widths and the size of the code
//! table, and rejects what the decoder cannot take safely. Those are an image
//! of width zero, a code table that would grow to 65535 entries without a
//! clear code, and a first code after a reset that refers to itself.
use vstd::prelude::*;

verus! {

/// Reading the header and logical screen descriptor.
pub const HEADER: u8 = 0;

/// Skipping a colour table.
pub const SKIP: u8 = 1;

/// Expecting the introducer of the next block.
pub const BLOCK: u8 = 2;

/// Expecting the label of an extension.
pub const EXT_LABEL: u8 = 3;

/// Expecting the length of a sub-block.
pub const SUB_LEN: u8 = 4;

/// Inside a sub-block.
pub const SUB_DATA: u8 = 5;

/// Reading an image descriptor.
pub const IMAGE_DESC: u8 = 6;

/// Expecting the LZW minimum code size of an image.
pub const IMAGE_MIN: u8 = 7;

/// The decoder stops here: nothing further is decoded.
pub const DONE: u8 = 8;

/// The decoder cannot take these bytes safely.
pub const BAD: u8 = 9;

/// State of the scan after some bytes.
#[derive(Clone, Copy, Debug, PartialEq, Eq, Structural)]
pub struct Scan {
    pub mode: u8,
    /// Bytes read of the current fixed-size block.
    pub count: u32,
    /// Bytes left of the current colour table or sub-block.
    pub left: u32,
    /// Mode to enter after a colour table.
    pub after: u8,
    /// Width of the current image.
    pub width: u32,
    /// Whether the current sub-blocks hold image data.
    pub image: bool,
    /// LZW minimum code size of the current image.
    pub min_bits: u32,
    /// Current code width.
    pub code_bits: u32,
    /// Bits read but not yet taken as codes, and their number.
    pub buf: u32,
    pub n_bits: u32,
    /// Size of the code table.
    pub next: u32,
    /// Whether a previous code is known.
    pub has_prefix: bool,
}

/// `2` to the power `k`, for `k` up to 20.
pub open spec fn pow2(k: u32) -> u32 {
    if k == 0 { 1 } else if k == 1 { 2 } else if k == 2 { 4 } else if k == 3 { 8 }
    else if k == 4 { 16 } else if k == 5 { 32 } else if k == 6 { 64 } else if k == 7 { 128 }
    else if k == 8 { 256 } else if k == 9 { 512 } else if k == 10 { 1024 }
    else if k == 11 { 2048 } else if k == 12 { 4096 } else if k == 13 { 8192 }
    else if k == 14 { 16384 } else if k == 15 { 32768 } else if k == 16 { 65536 }
    else if k == 17 { 131072 } else if k == 18 { 262144 } else if k == 19 { 524288 }
    else if k == 20 { 1048576 } else { 0 }
}

/// The state before the first byte.
pub open spec fn initial_scan() -> Scan {
    Scan {
        mode: HEADER,
        count: 0,
        left: 0,
        after: BLOCK,
        width: 0,
        image: false,
        min_bits: 2,
        code_bits: 3,
        buf: 0,
        n_bits: 0,
        next: 6,
        has_prefix: false,
    }
}

/// Bounds that the scan keeps between bytes.
pub open spec fn scan_wf(s: Scan) -> bool {
    &&& 2 <= s.min_bits <= 8
    &&& 3 <= s.code_bits <= 12
    &&& s.n_bits <= 11
    &&& s.buf < pow2(s.n_bits)
    &&& s.next <= 65535
    &&& s.count <= 13
    &&& s.left <= 768
    &&& s.width <= 65535
}

/// Bounds that hold while codes are taken from the bits read.
pub open spec fn drain_wf(s: Scan) -> bool {
    &&& 2 <= s.min_bits <= 8
    &&& 3 <= s.code_bits <= 12
    &&& s.n_bits <= 19
    &&& s.buf < pow2(s.n_bits)
    &&& s.next <= 65535
    &&& s.count <= 13
    &&& s.left <= 768
    &&& s.width <= 65535
}

/// Takes one code from the bits read, as gift's LZW decompressor does, and
/// follows the code table. A code beyond the table ends decoding.
pub open spec fn take_code(s: Scan) -> Scan {
    let e = pow2(s.code_bits);
    let code = s.buf % e;
    let nb = (s.n_bits - s.code_bits) as u32;
    let base = Scan { buf: (s.buf / e) % pow2(nb), n_bits: nb, ..s };
    let clear = pow2(s.min_bits);
    if code == clear {
        Scan { next: (clear + 2) as u32, code_bits: (s.min_bits + 1) as u32, has_prefix: false, ..base }
    } else if code == clear + 1 {
        Scan { has_prefix: false, ..base }
    } else if code > s.next {
        Scan { mode: DONE, ..base }
    } else if !s.has_prefix && code == s.next {
        Scan { mode: BAD, ..base }
    } else if s.next >= 65535 {
        Scan { mode: BAD, ..base }
    } else {
        Scan {
            next: if s.has_prefix { (s.next + 1) as u32 } else { s.next },
            code_bits: if s.next + 1 == e && s.code_bits < 12 {
                (s.code_bits + 1) as u32
            } else {
                s.code_bits
            },
            has_prefix: true,
            ..base
        }
    }
}

/// Takes codes while enough bits are read.
pub open spec fn drain(s: Scan) -> Scan
    decreases s.n_bits,
{
    if s.mode != SUB_DATA || s.code_bits == 0 || s.n_bits < s.code_bits {
        s
    } else {
        drain(take_code(s))
    }
}

/// Adds a byte of image data to the bits read, and takes the codes it
/// completes.
pub open spec fn feed(s: Scan, b: u8) -> Scan {
    drain(Scan { buf: (s.buf + b * pow2(s.n_bits)) as u32, n_bits: (s.n_bits + 8) as u32, ..s })
}

/// Number of bytes of a colour table, from the flags that announce it.
pub open spec fn table_bytes(flags: u8) -> u32 {
    (3 * pow2((flags % 8 + 1) as u32)) as u32
}

/// The scan after one more byte.
pub open spec fn scan_step(s: Scan, b: u8) -> Scan {
    if s.mode == HEADER {
        if s.count + 1 < 13 {
            Scan { count: (s.count + 1) as u32, width: if s.count == 10 { b as u32 } else { s.width }, ..s }
        } else if s.width >= 128 {
            Scan { mode: SKIP, left: table_bytes(s.width as u8), after: BLOCK, count: 0, width: 0, ..s }
        } else {
            Scan { mode: BLOCK, count: 0, width: 0, ..s }
        }
    } else if s.mode == SKIP {
        if s.left <= 1 {
            Scan { mode: s.after, left: 0, ..s }
        } else {
            Scan { left: (s.left - 1) as u32, ..s }
        }
    } else if s.mode == BLOCK {
        if b == 0x21 {
            Scan { mode: EXT_LABEL, ..s }
        } else if b == 0x2c {
            Scan { mode: IMAGE_DESC, count: 0, width: 0, ..s }
        } else {
            Scan { mode: DONE, ..s }
        }
    } else if s.mode == EXT_LABEL {
        Scan { mode: SUB_LEN, image: false, ..s }
    } else if s.mode == SUB_LEN {
        if b == 0 {
            Scan { mode: BLOCK, ..s }
        } else {
            Scan { mode: SUB_DATA, left: b as u32, ..s }
        }
    } else if s.mode == SUB_DATA {
        let t = if s.image { feed(s, b) } else { s };
        if t.mode != SUB_DATA {
            t
        } else if t.left <= 1 {
            Scan { mode: SUB_LEN, left: 0, ..t }
        } else {
            Scan { left: (t.left - 1) as u32, ..t }
        }
    } else if s.mode == IMAGE_DESC {
        let width = if s.count == 4 {
            b as u32
        } else if s.count == 5 {
            (s.width % 256 + b * 256) as u32
        } else {
            s.width
        };
        if s.count + 1 < 9 {
            Scan { count: (s.count + 1) as u32, width, ..s }
        } else if width == 0 {
            Scan { mode: BAD, width, ..s }
        } else if b >= 128 {
            Scan { mode: SKIP, left: table_bytes(b), after: IMAGE_MIN, count: 0, width, ..s }
        } else {
            Scan { mode: IMAGE_MIN, count: 0, width, ..s }
        }
    } else if s.mode == IMAGE_MIN {
        let min = if b < 2 { 2u32 } else if b > 8 { 8u32 } else { b as u32 };
        Scan {
            mode: SUB_LEN,
            image: true,
            min_bits: min,
            code_bits: (min + 1) as u32,
            buf: 0,
            n_bits: 0,
            next: (pow2(min) + 2) as u32,
            has_prefix: false,
            ..s
        }
    } else {
        s
    }
}

/// The scan after all of `gif`.
pub open spec fn scan_all(gif: Seq<u8>) -> Scan
    decreases gif.len(),
{
    if gif.len() == 0 {
        initial_scan()
    } else {
        scan_step(scan_all(gif.drop_last()), gif.last())
    }
}

/// gift can decode `gif` without a panic and without running forever.
pub open spec fn gif_safe(gif: Seq<u8>) -> bool {
    scan_all(gif).mode != BAD
}

proof fn lemma_pow2_small(k: u32)
    requires
        k <= 20,
    ensures
        0 < pow2(k) <= 1048576,
        k <= 8 ==> pow2(k) <= 256,
        k <= 11 ==> pow2(k) <= 2048,
        k <= 11 ==> pow2((k + 8) as u32) == 256 * pow2(k),
{
}

proof fn lemma_feed_bound(buf: u32, b: u8, n: u32)
    requires
        n <= 11,
        buf < pow2(n),
    ensures
        buf + b * pow2(n) < pow2((n + 8) as u32),
{
    lemma_pow2_small(n);
    let p = pow2(n) as int;
    assert(buf + b * p < 256 * p) by (nonlinear_arith)
        requires
            buf < p,
            b <= 255,
    ;
}

fn pow2_exec(k: u32) -> (r: u32)
    requires
        k <= 20,
    ensures
        r == pow2(k),
        r > 0,
{
    let mut r: u32 = 1;
    let mut i: u32 = 0;
    while i < k
        invariant
            i <= k <= 20,
            r == pow2(i),
        decreases k - i,
    {
        r = r * 2;
        i = i + 1;
    }
    r
}

fn take_code_exec(s: Scan) -> (r: Scan)
    requires
        drain_wf(s),
        s.n_bits >= s.code_bits,
    ensures
        r == take_code(s),
        drain_wf(r),
        r.mode == s.mode || r.mode == DONE || r.mode == BAD,
        r.n_bits == s.n_bits - s.code_bits,
{
    proof {
        lemma_pow2_small(s.code_bits);
        lemma_pow2_small((s.n_bits - s.code_bits) as u32);
        lemma_pow2_small(s.min_bits);
    }
    let e = pow2_exec(s.code_bits);
    let code = s.buf % e;
    let nb = s.n_bits - s.code_bits;
    let base = Scan { buf: (s.buf / e) % pow2_exec(nb), n_bits: nb, ..s };
    let clear = pow2_exec(s.min_bits);
    if code == clear {
        Scan { next: clear + 2, code_bits: s.min_bits + 1, has_prefix: false, ..base }
    } else if code == clear + 1 {
        Scan { has_prefix: false, ..base }
    } else if code > s.next {
        Scan { mode: DONE, ..base }
    } else if !s.has_prefix && code == s.next {
        Scan { mode: BAD, ..base }
    } else if s.next >= 65535 {
        Scan { mode: BAD, ..base }
    } else {
        Scan {
            next: if s.has_prefix { s.next + 1 } else { s.next },
            code_bits: if s.next + 1 == e && s.code_bits < 12 {
                s.code_bits + 1
            } else {
                s.code_bits
            },
            has_prefix: true,
            ..base
        }
    }
}

fn drain_exec(s: Scan) -> (r: Scan)
    requires
        drain_wf(s),
        s.mode == SUB_DATA,
    ensures
        r == drain(s),
        r.mode == SUB_DATA || r.mode == DONE || r.mode == BAD,
        r.mode == SUB_DATA ==> scan_wf(r),
        drain_wf(r),
{
    let mut t = s;
    while t.mode == SUB_DATA && t.n_bits >= t.code_bits
        invariant
            drain_wf(t),
            drain(t) == drain(s),
            t.mode == SUB_DATA || t.mode == DONE || t.mode == BAD,
        decreases t.n_bits,
    {
        t = take_code_exec(t);
    }
    t
}

fn scan_step_exec(s: Scan, b: u8) -> (r: Scan)
    requires
        scan_wf(s),
    ensures
        r == scan_step(s, b),
        scan_wf(r) || r.mode == DONE || r.mode == BAD,
{
    proof {
        lemma_pow2_small((s.width as u8 % 8 + 1) as u32);
        lemma_pow2_small((b % 8 + 1) as u32);
        lemma_pow2_small(2);
        lemma_pow2_small(8);
    }
    let r = if s.mode == HEADER {
        if s.count + 1 < 13 {
            Scan { count: s.count + 1, width: if s.count == 10 { b as u32 } else { s.width }, ..s }
        } else if s.width >= 128 {
            Scan { mode: SKIP, left: 3 * pow2_exec((s.width as u8 % 8 + 1) as u32), after: BLOCK, count: 0, width: 0, ..s }
        } else {
            Scan { mode: BLOCK, count: 0, width: 0, ..s }
        }
    } else if s.mode == SKIP {
        if s.left <= 1 {
            Scan { mode: s.after, left: 0, ..s }
        } else {
            Scan { left: s.left - 1, ..s }
        }
    } else if s.mode == BLOCK {
        if b == 0x21 {
            Scan { mode: EXT_LABEL, ..s }
        } else if b == 0x2c {
            Scan { mode: IMAGE_DESC, count: 0, width: 0, ..s }
        } else {
            Scan { mode: DONE, ..s }
        }
    } else if s.mode == EXT_LABEL {
        Scan { mode: SUB_LEN, image: false, ..s }
    } else if s.mode == SUB_LEN {
        if b == 0 {
            Scan { mode: BLOCK, ..s }
        } else {
            Scan { mode: SUB_DATA, left: b as u32, ..s }
        }
    } else if s.mode == SUB_DATA {
        let t = if s.image {
            proof {
                lemma_feed_bound(s.buf, b, s.n_bits);
                lemma_pow2_small(s.n_bits);
            }
            let fed = Scan { buf: s.buf + (b as u32) * pow2_exec(s.n_bits), n_bits: s.n_bits + 8, ..s };
            drain_exec(fed)
        } else {
            s
        };
        if t.mode != SUB_DATA {
            t
        } else if t.left <= 1 {
            Scan { mode: SUB_LEN, left: 0, ..t }
        } else {
            Scan { left: t.left - 1, ..t }
        }
    } else if s.mode == IMAGE_DESC {
        let width = if s.count == 4 {
            b as u32
        } else if s.count == 5 {
            s.width % 256 + (b as u32) * 256
        } else {
            s.width
        };
        if s.count + 1 < 9 {
            Scan { count: s.count + 1, width, ..s }
        } else if width == 0 {
            Scan { mode: BAD, width, ..s }
        } else if b >= 128 {
            Scan { mode: SKIP, left: 3 * pow2_exec((b % 8 + 1) as u32), after: IMAGE_MIN, count: 0, width, ..s }
        } else {
            Scan { mode: IMAGE_MIN, count: 0, width, ..s }
        }
    } else if s.mode == IMAGE_MIN {
        let min: u32 = if b < 2 { 2 } else if b > 8 { 8 } else { b as u32 };
        Scan {
            mode: SUB_LEN,
            image: true,
            min_bits: min,
            code_bits: min + 1,
            buf: 0,
            n_bits: 0,
            next: pow2_exec(min) + 2,
            has_prefix: false,
            ..s
        }
    } else {
        s
    };
    r
}

/// Whether gift can decode `gif` without a panic and without running
/// forever, by the scan.
pub fn gif_is_safe(gif: &Vec<u8>) -> (r: bool)
    ensures
        r == gif_safe(gif@),
{
    let mut s = Scan {
        mode: HEADER,
        count: 0,
        left: 0,
        after: BLOCK,
        width: 0,
        image: false,
        min_bits: 2,
        code_bits: 3,
        buf: 0,
        n_bits: 0,
        next: 6,
        has_prefix: false,
    };
    let mut i: usize = 0;
    while i < gif.len()
        invariant
            i <= gif@.len(),
            s == scan_all(gif@.take(i as int)),
            scan_wf(s) || s.mode == DONE || s.mode == BAD,
        decreases gif@.len() - i,
    {
        assert(gif@.take(i as int + 1).drop_last() =~= gif@.take(i as int));
        if s.mode == DONE || s.mode == BAD {
            assert(scan_step(s, gif@[i as int]) == s);
        } else {
            s = scan_step_exec(s, gif[i]);
        }
        i = i + 1;
    }
    assert(gif@.take(i as int) =~= gif@);
    s.mode != BAD
}

} // verus!

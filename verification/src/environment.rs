//! The boot environment: screen resolution, kernel file name and SMP
//! flag, parsed from the environment file's text.
//!
//! The file is scanned line-key by line-key: `screen=WIDTHxHEIGHT` sets
//! the preferred resolution (clamped to a 640x480 minimum),
//! `kernel=PATH` names the kernel file inside the initrd, and `nosmp=1`
//! disables symmetric multiprocessing.  `//`, `#` and `/* ... */`
//! comments are stepped over, and a key counts only at the start of a
//! line.

use vstd::prelude::*;

use vstd::string::StringExecFns;

use crate::utils::{byte_chars, char_bytes, match_sig, string_from_ascii_bytes};

verus! {

/// Since its length does not include a NUL terminator, the largest
/// environment file is 4 KiB minus one byte.
pub const ENVIRONMENT_MAX_SIZE: usize = 4095;

/// The smallest accepted screen width.
pub const SCREEN_MIN_WIDTH: usize = 640;

/// The smallest accepted screen height.
pub const SCREEN_MIN_HEIGHT: usize = 480;

/// An error that occurred while parsing a config file.
#[derive(Clone, Copy, Debug, PartialEq, Eq, Structural)]
pub enum ParseError {
    TooLarge,
}

/// The byte is ASCII whitespace, as Rust's whitespace test classifies
/// ASCII: space or one of the five control characters tab through
/// carriage return.
pub open spec fn spec_is_ws(b: u8) -> bool {
    b == 0x20 || (0x09 <= b <= 0x0d)
}

/// The bytes of `b` starting at `i` open with `pat`.
pub open spec fn starts_with_at(b: Seq<u8>, i: int, pat: Seq<u8>) -> bool {
    0 <= i && i + pat.len() <= b.len() && b.subrange(i, i + pat.len()) == pat
}

/// Index of the first byte `c` of `b` at or after `i`, or `b.len()`.
pub open spec fn find_from(b: Seq<u8>, i: int, c: u8) -> int
    decreases b.len() - i,
{
    if i < 0 || i >= b.len() {
        b.len() as int
    } else if b[i] == c {
        i
    } else {
        find_from(b, i + 1, c)
    }
}

/// Index of the first whitespace byte of `b` at or after `i`, or
/// `b.len()`.
pub open spec fn find_ws_from(b: Seq<u8>, i: int) -> int
    decreases b.len() - i,
{
    if i < 0 || i >= b.len() {
        b.len() as int
    } else if spec_is_ws(b[i]) {
        i
    } else {
        find_ws_from(b, i + 1)
    }
}

/// Index of the first `*/` of `b` at or after `i`, or `b.len()`.
pub open spec fn find_close_from(b: Seq<u8>, i: int) -> int
    decreases b.len() - i,
{
    if i < 0 || i >= b.len() {
        b.len() as int
    } else if i + 1 < b.len() && b[i] == 0x2a && b[i + 1] == 0x2f {
        i
    } else {
        find_close_from(b, i + 1)
    }
}

/// `find_from` stays inside the region and never moves backwards.
proof fn lemma_find_from_bounds(b: Seq<u8>, i: int, c: u8)
    ensures
        find_from(b, i, c) <= b.len(),
        i <= b.len() ==> i <= find_from(b, i, c),
    decreases b.len() - i,
{
    if 0 <= i < b.len() && b[i] != c {
        lemma_find_from_bounds(b, i + 1, c);
    }
}

/// `find_ws_from` stays inside the region and never moves backwards.
proof fn lemma_find_ws_bounds(b: Seq<u8>, i: int)
    ensures
        find_ws_from(b, i) <= b.len(),
        i <= b.len() ==> i <= find_ws_from(b, i),
    decreases b.len() - i,
{
    if 0 <= i < b.len() && !spec_is_ws(b[i]) {
        lemma_find_ws_bounds(b, i + 1);
    }
}

/// `find_close_from` stays inside the region and never moves backwards.
proof fn lemma_find_close_bounds(b: Seq<u8>, i: int)
    ensures
        find_close_from(b, i) <= b.len(),
        i <= b.len() ==> i <= find_close_from(b, i),
    decreases b.len() - i,
{
    if 0 <= i < b.len() && !(i + 1 < b.len() && b[i] == 0x2a && b[i + 1] == 0x2f) {
        lemma_find_close_bounds(b, i + 1);
    }
}

/// Every byte of `b` is an ASCII decimal digit.
pub open spec fn all_decimal(b: Seq<u8>) -> bool {
    forall|k: int| 0 <= k < b.len() ==> 0x30 <= #[trigger] b[k] <= 0x39
}

/// The value of `b` read as a decimal numeral.
pub open spec fn dec_value(b: Seq<u8>) -> int
    decreases b.len(),
{
    if b.len() == 0 {
        0
    } else {
        dec_value(b.drop_last()) * 10 + (b.last() - 0x30)
    }
}

/// What Rust's unsigned-integer parse accepts: an optional `+`, then one
/// or more decimal digits, with a value that fits the type.
pub open spec fn spec_parse_usize(b: Seq<u8>) -> Option<int> {
    let digits = if b.len() > 0 && b[0] == 0x2b {
        b.drop_first()
    } else {
        b
    };
    if digits.len() == 0 || !all_decimal(digits) {
        None
    } else if dec_value(digits) > usize::MAX {
        None
    } else {
        Some(dec_value(digits))
    }
}

/// The `screen=` key bytes.
pub open spec fn screen_key() -> Seq<u8> {
    seq![0x73u8, 0x63u8, 0x72u8, 0x65u8, 0x65u8, 0x6eu8, 0x3du8]
}

/// The `kernel=` key bytes.
pub open spec fn kernel_key() -> Seq<u8> {
    seq![0x6bu8, 0x65u8, 0x72u8, 0x6eu8, 0x65u8, 0x6cu8, 0x3du8]
}

/// The `nosmp=1` key bytes.
pub open spec fn nosmp_key() -> Seq<u8> {
    seq![0x6eu8, 0x6fu8, 0x73u8, 0x6du8, 0x70u8, 0x3du8, 0x31u8]
}

/// The `//` comment opener.
pub open spec fn line_comment_key() -> Seq<u8> {
    seq![0x2fu8, 0x2fu8]
}

/// The `/*` comment opener.
pub open spec fn block_comment_key() -> Seq<u8> {
    seq![0x2fu8, 0x2au8]
}

/// The default kernel path, `sys/core`.
pub open spec fn default_kernel() -> Seq<u8> {
    seq![0x73u8, 0x79u8, 0x73u8, 0x2fu8, 0x63u8, 0x6fu8, 0x72u8, 0x65u8]
}

/// One pass of the key scanner from byte `i` of `b`, carrying the screen
/// size, kernel path and SMP flag found so far; the result is the state
/// at the end of the file.
///
/// Whitespace is skipped; `//` and `#` comments run to the next newline
/// and `/* ... */` comments to their closer; a key is honoured only when
/// the byte before it is whitespace or the file's start.  `screen=` must
/// be followed by a number, an `x`, a number and whitespace; a width
/// under 640 becomes 640 and a height under 480 becomes 480.  `kernel=`
/// takes everything up to the next whitespace as the kernel path when
/// that is at least one byte.  `nosmp=1` sets the SMP-disable flag.
pub open spec fn spec_env_scan(
    b: Seq<u8>,
    i: int,
    w: int,
    h: int,
    kernel: Seq<u8>,
    smp_off: bool,
) -> (int, int, Seq<u8>, bool)
    decreases b.len() + 2 - i,
    via spec_env_scan_decreases
{
    if i < 0 || i >= b.len() {
        (w, h, kernel, smp_off)
    } else {
        let c = b[i];
        if spec_is_ws(c) {
            spec_env_scan(b, i + 1, w, h, kernel, smp_off)
        } else if starts_with_at(b, i, line_comment_key()) || c == 0x23 {
            spec_env_scan(b, find_from(b, i + 1, 0x0a) + 1, w, h, kernel, smp_off)
        } else if starts_with_at(b, i, block_comment_key()) {
            let close = find_close_from(b, i + 1);
            if close >= b.len() {
                (w, h, kernel, smp_off)
            } else {
                spec_env_scan(b, close + 2, w, h, kernel, smp_off)
            }
        } else if i > 0 && !spec_is_ws(b[i - 1]) {
            spec_env_scan(b, i + 1, w, h, kernel, smp_off)
        } else if starts_with_at(b, i, screen_key()) {
            let p = i + 7;
            let xo = find_from(b, p, 0x78);
            if xo >= b.len() {
                spec_env_scan(b, p + 1, w, h, kernel, smp_off)
            } else {
                match spec_parse_usize(b.subrange(p, xo)) {
                    None => spec_env_scan(b, p + 1, w, h, kernel, smp_off),
                    Some(wv) => {
                        let w2 = if wv < SCREEN_MIN_WIDTH {
                            SCREEN_MIN_WIDTH as int
                        } else {
                            wv
                        };
                        let hp = xo + 1;
                        let ho = find_ws_from(b, hp);
                        if ho >= b.len() {
                            spec_env_scan(b, hp + 1, w, h, kernel, smp_off)
                        } else {
                            match spec_parse_usize(b.subrange(hp, ho)) {
                                None => spec_env_scan(b, hp + 1, w, h, kernel, smp_off),
                                Some(hv) => {
                                    let h2 = if hv < SCREEN_MIN_HEIGHT {
                                        SCREEN_MIN_HEIGHT as int
                                    } else {
                                        hv
                                    };
                                    spec_env_scan(
                                        b,
                                        find_from(b, ho, 0x0a) + 1,
                                        w2,
                                        h2,
                                        kernel,
                                        smp_off,
                                    )
                                },
                            }
                        }
                    },
                }
            }
        } else if starts_with_at(b, i, kernel_key()) {
            let p = i + 7;
            if p >= b.len() {
                spec_env_scan(b, p + 1, w, h, kernel, smp_off)
            } else {
                let j = find_ws_from(b, p);
                let k2 = if j - p >= 1 {
                    b.subrange(p, j)
                } else {
                    kernel
                };
                spec_env_scan(b, j + 1, w, h, k2, smp_off)
            }
        } else if starts_with_at(b, i, nosmp_key()) {
            spec_env_scan(b, i + 8, w, h, kernel, true)
        } else {
            spec_env_scan(b, i + 1, w, h, kernel, smp_off)
        }
    }
}

#[via_fn]
proof fn spec_env_scan_decreases(
    b: Seq<u8>,
    i: int,
    w: int,
    h: int,
    kernel: Seq<u8>,
    smp_off: bool,
) {
    lemma_find_from_bounds(b, i + 1, 0x0a);
    lemma_find_close_bounds(b, i + 1);
    lemma_find_from_bounds(b, i + 7, 0x78);
    let xo = find_from(b, i + 7, 0x78);
    lemma_find_ws_bounds(b, xo + 1);
    let ho = find_ws_from(b, xo + 1);
    lemma_find_from_bounds(b, ho, 0x0a);
    lemma_find_ws_bounds(b, i + 7);
}

/// The whole scan of `b`, from its defaults: a 1024x768 screen, the
/// `sys/core` kernel and SMP enabled.
pub open spec fn spec_parse_env(b: Seq<u8>) -> (int, int, Seq<u8>, bool) {
    spec_env_scan(b, 0, 1024, 768, default_kernel(), false)
}

/// Bootboot environment.
///
/// Contains:
///
/// * Preferred screen resolution
/// * Kernel file name in initrd
/// * Flag showing whether SMP is disabled
pub struct Environment {
    pub env_raw: String,
    pub screen: (usize, usize),
    pub kernel: String,
    pub no_smp: bool,
}

/// Tests one byte for ASCII whitespace.
fn is_ws_byte(b: u8) -> (r: bool)
    ensures
        r == spec_is_ws(b),
{
    b == 0x20 || (b >= 0x09 && b <= 0x0d)
}

/// Tests whether the bytes at `i` open with `pat`.
fn starts_with_key(b: &[u8], i: usize, pat: &[u8]) -> (r: bool)
    requires
        i <= b@.len(),
    ensures
        r == starts_with_at(b@, i as int, pat@),
{
    if pat.len() > b.len() - i {
        return false;
    }
    match_sig(b, i, pat)
}

/// Finds the first byte `c` at or after `start`.
fn find_byte_from(b: &[u8], start: usize, c: u8) -> (j: usize)
    requires
        start <= b@.len(),
    ensures
        j == find_from(b@, start as int, c),
        start <= j <= b@.len(),
{
    let mut j = start;
    while j < b.len()
        invariant
            start <= j <= b@.len(),
            find_from(b@, start as int, c) == find_from(b@, j as int, c),
        decreases b@.len() - j,
    {
        if b[j] == c {
            return j;
        }
        j = j + 1;
    }
    j
}

/// Finds the first whitespace byte at or after `start`.
fn find_ws_from_exec(b: &[u8], start: usize) -> (j: usize)
    requires
        start <= b@.len(),
    ensures
        j == find_ws_from(b@, start as int),
        start <= j <= b@.len(),
{
    let mut j = start;
    while j < b.len()
        invariant
            start <= j <= b@.len(),
            find_ws_from(b@, start as int) == find_ws_from(b@, j as int),
        decreases b@.len() - j,
    {
        if is_ws_byte(b[j]) {
            return j;
        }
        j = j + 1;
    }
    j
}

/// Finds the first `*/` at or after `start`.
fn find_close_from_exec(b: &[u8], start: usize) -> (j: usize)
    requires
        start <= b@.len(),
    ensures
        j == find_close_from(b@, start as int),
        start <= j <= b@.len(),
{
    let mut j = start;
    while j < b.len()
        invariant
            start <= j <= b@.len(),
            find_close_from(b@, start as int) == find_close_from(b@, j as int),
        decreases b@.len() - j,
    {
        if j + 1 < b.len() && b[j] == 0x2a && b[j + 1] == 0x2f {
            return j;
        }
        j = j + 1;
    }
    j
}

/// A decimal numeral's value is nonnegative.
proof fn lemma_dec_nonneg(b: Seq<u8>)
    requires
        all_decimal(b),
    ensures
        dec_value(b) >= 0,
    decreases b.len(),
{
    if b.len() > 0 {
        assert(all_decimal(b.drop_last())) by {
            assert(forall|k: int| 0 <= k < b.len() - 1 ==> b.drop_last()[k] == b[k]);
        }
        lemma_dec_nonneg(b.drop_last());
    }
}

/// A decimal numeral is worth at least any of its prefixes.
proof fn lemma_dec_monotone(b: Seq<u8>, i: int)
    requires
        all_decimal(b),
        0 <= i <= b.len(),
    ensures
        dec_value(b.take(i)) <= dec_value(b),
    decreases b.len() - i,
{
    if i < b.len() {
        assert(b.take(i + 1).drop_last() =~= b.take(i));
        assert(all_decimal(b.take(i))) by {
            assert(forall|k: int| 0 <= k < i ==> b.take(i)[k] == b[k]);
        }
        lemma_dec_nonneg(b.take(i));
        assert(dec_value(b.take(i + 1)) == dec_value(b.take(i)) * 10 + (b[i] - 0x30));
        lemma_dec_monotone(b, i + 1);
    } else {
        assert(b.take(i) =~= b);
    }
}

/// Parses an unsigned decimal numeral as Rust's integer parse does: an
/// optional `+`, then digits, rejecting overflow.
fn parse_usize_bytes(d: &[u8]) -> (r: Option<usize>)
    ensures
        match r {
            Some(v) => spec_parse_usize(d@) == Some(v as int),
            None => spec_parse_usize(d@) is None,
        },
{
    let len = d.len();
    let start: usize = if len > 0 && d[0] == 0x2b {
        1
    } else {
        0
    };
    let ghost gd = if start == 1 {
        d@.drop_first()
    } else {
        d@
    };
    proof {
        assert(gd =~= d@.subrange(start as int, len as int));
    }
    if len == start {
        return None;
    }
    let mut v: usize = 0;
    let mut i = start;
    while i < len
        invariant
            start <= i <= len,
            len == d@.len(),
            start <= 1,
            gd == d@.subrange(start as int, len as int),
            gd == (if d@.len() > 0 && d@[0] == 0x2b {
                d@.drop_first()
            } else {
                d@
            }),
            gd.len() > 0,
            forall|k: int| start <= k < i ==> 0x30 <= #[trigger] d@[k] <= 0x39,
            v == dec_value(d@.subrange(start as int, i as int)),
        decreases len - i,
    {
        let c = d[i];
        if c < 0x30 || c > 0x39 {
            proof {
                assert(gd[i - start] == d@[i as int]);
                assert(!all_decimal(gd));
            }
            return None;
        }
        proof {
            assert(d@.subrange(start as int, i + 1).drop_last() =~= d@.subrange(
                start as int,
                i as int,
            ));
        }
        let v10 = match v.checked_mul(10) {
            Some(x) => x,
            None => {
                proof {
                    if all_decimal(gd) {
                        assert(gd.take(i + 1 - start) =~= d@.subrange(start as int, i + 1));
                        assert(dec_value(gd.take(i + 1 - start)) == v * 10 + (d@[i as int]
                            - 0x30));
                        lemma_dec_monotone(gd, i + 1 - start);
                    }
                }
                return None;
            },
        };
        let v2 = match v10.checked_add((c - 0x30) as usize) {
            Some(x) => x,
            None => {
                proof {
                    if all_decimal(gd) {
                        assert(gd.take(i + 1 - start) =~= d@.subrange(start as int, i + 1));
                        assert(dec_value(gd.take(i + 1 - start)) == v * 10 + (d@[i as int]
                            - 0x30));
                        lemma_dec_monotone(gd, i + 1 - start);
                    }
                }
                return None;
            },
        };
        v = v2;
        i = i + 1;
    }
    proof {
        assert(gd =~= d@.subrange(start as int, len as int));
        assert(all_decimal(gd)) by {
            assert(forall|k: int| 0 <= k < gd.len() ==> gd[k] == d@[start + k]);
        }
    }
    Some(v)
}

impl Environment {
    /// Parses a raw config file to obtain a BOOTBOOT environment.
    ///
    /// The file's text must be ASCII.  A file larger than 4 KiB minus one
    /// byte is rejected; everything else yields an environment, with
    /// defaults for whatever the file does not set.
    #[verifier::rlimit(100)]
    pub fn from_string(env_raw: String) -> (r: Result<Self, ParseError>)
        requires
            vstd::string::string_is_ascii(&env_raw),
        ensures
            r is Err <==> env_raw@.len() > ENVIRONMENT_MAX_SIZE,
            r matches Err(e) ==> e == ParseError::TooLarge,
            r matches Ok(env) ==> ({
                let st = spec_parse_env(char_bytes(env_raw@));
                &&& env.env_raw@ == env_raw@
                &&& env.screen.0 == st.0
                &&& env.screen.1 == st.1
                &&& env.kernel@ == byte_chars(st.2)
                &&& env.no_smp == st.3
            }),
    {
        let raw_str = env_raw.as_str();
        let bytes = raw_str.as_bytes();
        proof {
            vstd::string::is_ascii_spec_bytes(raw_str);
            assert(bytes@ =~= char_bytes(env_raw@));
            assert(forall|k: int| 0 <= k < bytes@.len() ==> bytes@[k] < 128) by {
                assert(forall|k: int| 0 <= k < env_raw@.len() ==> (#[trigger] env_raw@[k])
                    <= '\u{7f}');
            }
        }
        // Return error if environment is too large
        if bytes.len() > ENVIRONMENT_MAX_SIZE {
            return Err(ParseError::TooLarge);
        }
        let ghost gb = bytes@;
        let len = bytes.len();

        let line_comment_pat: [u8; 2] = [0x2f, 0x2f];
        let block_comment_pat: [u8; 2] = [0x2f, 0x2a];
        let screen_pat: [u8; 7] = [0x73, 0x63, 0x72, 0x65, 0x65, 0x6e, 0x3d];
        let kernel_pat: [u8; 7] = [0x6b, 0x65, 0x72, 0x6e, 0x65, 0x6c, 0x3d];
        let nosmp_pat: [u8; 7] = [0x6e, 0x6f, 0x73, 0x6d, 0x70, 0x3d, 0x31];
        proof {
            assert(line_comment_pat@ =~= line_comment_key());
            assert(block_comment_pat@ =~= block_comment_key());
            assert(screen_pat@ =~= screen_key());
            assert(kernel_pat@ =~= kernel_key());
            assert(nosmp_pat@ =~= nosmp_key());
        }

        // Parse environment
        let mut screen_w: usize = 1024;
        let mut screen_h: usize = 768;
        let mut kernel_src: Option<(usize, usize)> = None;
        let mut no_smp = false;
        let mut i: usize = 0;
        while i < len
            invariant
                len == gb.len(),
                len <= ENVIRONMENT_MAX_SIZE,
                gb == bytes@,
                gb == char_bytes(env_raw@),
                forall|k: int| 0 <= k < gb.len() ==> gb[k] < 128,
                i <= len + 2,
                line_comment_pat@ == line_comment_key(),
                block_comment_pat@ == block_comment_key(),
                screen_pat@ == screen_key(),
                kernel_pat@ == kernel_key(),
                nosmp_pat@ == nosmp_key(),
                match kernel_src {
                    Some(p) => p.0 <= p.1 <= len,
                    None => true,
                },
                spec_parse_env(gb) == spec_env_scan(
                    gb,
                    i as int,
                    screen_w as int,
                    screen_h as int,
                    (match kernel_src {
                        Some(p) => gb.subrange(p.0 as int, p.1 as int),
                        None => default_kernel(),
                    }),
                    no_smp,
                ),
            decreases len + 2 - i,
        {
            let c = bytes[i];
            if is_ws_byte(c) {
                i = i + 1;
            } else if starts_with_key(bytes, i, line_comment_pat.as_slice()) || c == 0x23 {
                let j = find_byte_from(bytes, i + 1, 0x0a);
                i = j + 1;
            } else if starts_with_key(bytes, i, block_comment_pat.as_slice()) {
                let close = find_close_from_exec(bytes, i + 1);
                if close >= len {
                    i = len + 2;
                } else {
                    i = close + 2;
                }
            } else if i > 0 && !is_ws_byte(bytes[i - 1]) {
                i = i + 1;
            } else if starts_with_key(bytes, i, screen_pat.as_slice()) {
                // Get screen size
                let p = i + 7;
                let xo = find_byte_from(bytes, p, 0x78);
                if xo >= len {
                    i = p + 1;
                } else {
                    match parse_usize_bytes(vstd::slice::slice_subrange(bytes, p, xo)) {
                        None => {
                            i = p + 1;
                        },
                        Some(wv) => {
                            let w2 = if wv < SCREEN_MIN_WIDTH {
                                SCREEN_MIN_WIDTH
                            } else {
                                wv
                            };
                            let hp = xo + 1;
                            let ho = find_ws_from_exec(bytes, hp);
                            if ho >= len {
                                i = hp + 1;
                            } else {
                                match parse_usize_bytes(
                                    vstd::slice::slice_subrange(bytes, hp, ho),
                                ) {
                                    None => {
                                        i = hp + 1;
                                    },
                                    Some(hv) => {
                                        let h2 = if hv < SCREEN_MIN_HEIGHT {
                                            SCREEN_MIN_HEIGHT
                                        } else {
                                            hv
                                        };
                                        screen_w = w2;
                                        screen_h = h2;
                                        let nl = find_byte_from(bytes, ho, 0x0a);
                                        i = nl + 1;
                                    },
                                }
                            }
                        },
                    }
                }
            } else if starts_with_key(bytes, i, kernel_pat.as_slice()) {
                // Get kernel filename
                let p = i + 7;
                if p >= len {
                    i = p + 1;
                } else {
                    let j = find_ws_from_exec(bytes, p);
                    if j - p >= 1 {
                        kernel_src = Some((p, j));
                    }
                    i = j + 1;
                }
            } else if starts_with_key(bytes, i, nosmp_pat.as_slice()) {
                // Check for smp disable
                no_smp = true;
                i = i + 8;
            } else {
                i = i + 1;
            }
        }

        let kernel: String = match kernel_src {
            Some(p) => {
                let kv = vstd::slice::slice_to_vec(
                    vstd::slice::slice_subrange(bytes, p.0, p.1),
                );
                let s = string_from_ascii_bytes(kv);
                proof {
                    assert(s@ =~= byte_chars(gb.subrange(p.0 as int, p.1 as int)));
                }
                s
            },
            None => {
                let s = String::from_str("sys/core");
                proof {
                    reveal_strlit("sys/core");
                    assert(s@ =~= byte_chars(default_kernel()));
                }
                s
            },
        };
        Ok(Environment { env_raw, screen: (screen_w, screen_h), kernel, no_smp })
    }
}

impl core::default::Default for Environment {
    /// The default environment: a 1024x768 screen, the `sys/core` kernel
    /// and SMP enabled.
    fn default() -> (r: Self)
        ensures
            r.env_raw@ == "kernel=sys/core\nscreen=1024x768"@,
            r.screen.0 == 1024 && r.screen.1 == 768,
            r.kernel@ == byte_chars(default_kernel()),
            !r.no_smp,
    {
        let kernel = String::from_str("sys/core");
        proof {
            reveal_strlit("sys/core");
            assert(kernel@ =~= byte_chars(default_kernel()));
        }
        Environment {
            env_raw: String::from_str("kernel=sys/core\nscreen=1024x768"),
            screen: (1024, 768),
            kernel,
            no_smp: false,
        }
    }
}

} // verus!

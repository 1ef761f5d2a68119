//! Lookup of a file inside a ustar archive.
//!
//! A ustar archive is a run of 512-byte blocks: each file starts with a
//! header block holding its NUL-padded name in the first 100 bytes and
//! its size as 11 octal digits at offset 124, followed by the file's
//! data rounded up to whole blocks.

use vstd::arithmetic::power::pow;
use vstd::prelude::*;
use vstd::string::StringSliceAdditionalSpecFns;
use vstd::utf8::valid_utf8;

use crate::utils::{bytes_eq, is_valid_utf8};

verus! {

/// Every byte of `b` is an ASCII octal digit.
pub open spec fn all_octal_digits(b: Seq<u8>) -> bool {
    forall|k: int| 0 <= k < b.len() ==> 0x30 <= #[trigger] b[k] <= 0x37
}

/// The value of `b` read as an octal numeral, most significant digit
/// first.
pub open spec fn spec_octal(b: Seq<u8>) -> int
    decreases b.len(),
{
    if b.len() == 0 {
        0
    } else {
        spec_octal(b.drop_last()) * 8 + (b.last() - 0x30)
    }
}

/// `b` with its trailing NUL bytes removed.
pub open spec fn trim_nulls(b: Seq<u8>) -> Seq<u8>
    decreases b.len(),
{
    if b.len() > 0 && b.last() == 0 {
        trim_nulls(b.drop_last())
    } else {
        b
    }
}

/// Trimming trailing NULs keeps exactly the prefix before them.
proof fn lemma_trim_nulls_take(b: Seq<u8>, t: int)
    requires
        0 <= t <= b.len(),
        forall|k: int| t <= k < b.len() ==> b[k] == 0,
        t > 0 ==> b[t - 1] != 0,
    ensures
        trim_nulls(b) == b.take(t),
    decreases b.len(),
{
    if b.len() == t {
        assert(b.take(t) =~= b);
    } else {
        assert(b.last() == 0);
        lemma_trim_nulls_take(b.drop_last(), t);
        assert(b.drop_last().take(t) =~= b.take(t));
    }
}

/// The location (start, length) of the data of the first archive member
/// named `name`, scanning from byte offset `idx`.
///
/// A header whose size field does not parse, or whose name is not valid
/// UTF-8, is stepped over without skipping data, as the scan has no size
/// to go by; a well-formed header that does not match skips its data,
/// padded to whole blocks.  A match whose data would run past the end of
/// the archive does not count.
pub open spec fn spec_ustar_lookup(s: Seq<u8>, name: Seq<u8>, idx: int) -> Option<(int, int)>
    decreases s.len() - idx,
{
    if idx < 0 || idx + 512 > s.len() {
        None
    } else {
        let size_field = s.subrange(idx + 124, idx + 135);
        if !all_octal_digits(size_field) || spec_octal(size_field) > usize::MAX {
            spec_ustar_lookup(s, name, idx + 512)
        } else {
            let fsize = spec_octal(size_field);
            let raw_name = s.subrange(idx, idx + 100);
            if !valid_utf8(raw_name) {
                spec_ustar_lookup(s, name, idx + 512)
            } else if trim_nulls(raw_name) == name && idx + 512 + fsize <= s.len() {
                Some((idx + 512, fsize))
            } else {
                let pad = if fsize % 512 > 0 {
                    512 - fsize % 512
                } else {
                    0
                };
                if fsize < 0 || idx + 512 + fsize + pad > s.len() {
                    None
                } else {
                    spec_ustar_lookup(s, name, idx + 512 + fsize + pad)
                }
            }
        }
    }
}

/// Eleven octal digits are worth less than `8^11`.
proof fn lemma_pow8(e: nat)
    requires
        e <= 11,
    ensures
        pow(8, e) <= 0x2_0000_0000,
        pow(8, e) >= 1,
{
    reveal_with_fuel(pow, 12);
    vstd::arithmetic::power::lemma_pow_increases(8, e, 11);
}

/// Parses the 11-digit octal size field of a ustar header.
fn read_octal_size(octal: &[u8]) -> (r: Option<usize>)
    requires
        octal@.len() == 11,
    ensures
        match r {
            Some(v) => all_octal_digits(octal@) && v == spec_octal(octal@),
            None => !all_octal_digits(octal@) || spec_octal(octal@) > usize::MAX,
        },
{
    let mut value: u64 = 0;
    let mut i: usize = 0;
    proof {
        assert(pow(8, 0) == 1) by {
            reveal_with_fuel(pow, 1);
        }
    }
    while i < 11
        invariant
            i <= 11,
            octal@.len() == 11,
            forall|k: int| 0 <= k < i ==> 0x30 <= #[trigger] octal@[k] <= 0x37,
            value == spec_octal(octal@.take(i as int)),
            value < pow(8, i as nat),
        decreases 11 - i,
    {
        let b = octal[i];
        if b < 0x30 || b > 0x37 {
            return None;
        }
        proof {
            lemma_pow8(i as nat);
            assert(pow(8, (i + 1) as nat) == 8 * pow(8, i as nat)) by {
                reveal_with_fuel(pow, 2);
                assert(((i + 1) as nat - 1) as nat == i as nat);
            }
            assert(octal@.take(i + 1).drop_last() =~= octal@.take(i as int));
        }
        value = value * 8 + (b - 0x30) as u64;
        i = i + 1;
    }
    proof {
        assert(octal@.take(11) =~= octal@);
    }
    if value > usize::MAX as u64 {
        None
    } else {
        Some(value as usize)
    }
}

/// Tries to read `filename` from `initrd`, a ustar archive.
///
/// Returns `None` if `filename` is not a member of the archive whose
/// data lies whole inside `initrd`.
pub fn read_ustar<'a>(initrd: &'a [u8], filename: &str) -> (r: Option<&'a [u8]>)
    ensures
        match spec_ustar_lookup(initrd@, filename.spec_bytes(), 0) {
            Some(loc) => r matches Some(f) && f@ == initrd@.subrange(loc.0, loc.0 + loc.1),
            None => r is None,
        },
{
    let fname = filename.as_bytes();
    let len = initrd.len();
    let mut idx: usize = 0;
    while idx < len && len - idx >= 512
        invariant
            idx <= len,
            len == initrd@.len(),
            fname@ == filename.spec_bytes(),
            spec_ustar_lookup(initrd@, filename.spec_bytes(), 0) == spec_ustar_lookup(
                initrd@,
                filename.spec_bytes(),
                idx as int,
            ),
        decreases len - idx,
    {
        let ghost s = initrd@;
        let ghost gname = filename.spec_bytes();

        // Parse the file size octal field
        let size_field = vstd::slice::slice_subrange(initrd, idx + 124, idx + 135);
        let parsed_size = read_octal_size(size_field);

        let mut next: usize = idx + 512;
        match parsed_size {
            None => {
                proof {
                    assert(spec_ustar_lookup(s, gname, idx as int) == spec_ustar_lookup(
                        s,
                        gname,
                        idx + 512,
                    ));
                }
            },
            Some(file_size) => {
                // Check the member name
                let name_bytes = vstd::slice::slice_subrange(initrd, idx, idx + 100);
                if !is_valid_utf8(name_bytes) {
                    proof {
                        assert(spec_ustar_lookup(s, gname, idx as int) == spec_ustar_lookup(
                            s,
                            gname,
                            idx + 512,
                        ));
                    }
                } else {
                    // Trim trailing NUL bytes off the stored name
                    let mut t: usize = 100;
                    while t > 0 && name_bytes[t - 1] == 0
                        invariant
                            t <= 100,
                            name_bytes@.len() == 100,
                            forall|k: int| t <= k < 100 ==> name_bytes@[k] == 0,
                        decreases t,
                    {
                        t = t - 1;
                    }
                    proof {
                        lemma_trim_nulls_take(name_bytes@, t as int);
                    }
                    let name_match = bytes_eq(
                        vstd::slice::slice_subrange(name_bytes, 0, t),
                        fname,
                    );
                    proof {
                        assert(name_bytes@.subrange(0, t as int) =~= name_bytes@.take(t as int));
                    }

                    // Return the file contents if the names match and the
                    // data lies inside the archive
                    if name_match && file_size <= len - (idx + 512) {
                        let data = vstd::slice::slice_subrange(
                            initrd,
                            idx + 512,
                            idx + 512 + file_size,
                        );
                        return Some(data);
                    }

                    // Skip past the member's data, padded to whole blocks
                    let extra = file_size % 512;
                    let padding: usize = if extra > 0 {
                        512 - extra
                    } else {
                        0
                    };
                    let skipped = match idx.checked_add(512) {
                        Some(a) => match a.checked_add(file_size) {
                            Some(b2) => b2.checked_add(padding),
                            None => None,
                        },
                        None => None,
                    };
                    match skipped {
                        Some(n) if n <= len => {
                            next = n;
                            proof {
                                assert(spec_ustar_lookup(s, gname, idx as int)
                                    == spec_ustar_lookup(s, gname, n as int));
                            }
                        },
                        _ => {
                            proof {
                                assert(spec_ustar_lookup(s, gname, idx as int) is None);
                            }
                            return None;
                        },
                    }
                }
            },
        }
        idx = next;
    }
    proof {
        assert(spec_ustar_lookup(initrd@, filename.spec_bytes(), idx as int) is None);
    }
    None
}

} // verus!

//! The BOOTBOOT memory map: classification, packing, sorting and merging
//! of firmware memory descriptors.
//!
//! Each entry packs a byte count and a 4-bit type tag into one `u64`: the
//! low 4 bits hold the tag and the high bits hold the byte count shifted
//! right by 4, so a byte count that is a multiple of 16 (every
//! page-granular size is) survives the packing unchanged.  Normalizing a
//! firmware map classifies each descriptor, sorts the entries by address
//! with a stable merge sort, and coalesces adjacent entries that have the
//! same type and touch.

use vstd::prelude::*;

use crate::utils::ParseError;

verus! {

/// The largest byte count the packed encoding accepts.
pub const MMAP_MAX_SIZE: u64 = 0x0fff_ffff_ffff_ffff;

/// BOOTBOOT memory map entry type.
#[derive(Clone, Copy, Debug, PartialEq, Eq, Structural)]
pub enum MMapEntryType {
    Used,
    Free,
    Acpi,
    Mmio,
    Unknown,
}

/// The entry type a 4-bit tag value denotes.
pub open spec fn spec_type_of_tag(tag: int) -> MMapEntryType {
    if tag == 0 {
        MMapEntryType::Used
    } else if tag == 1 {
        MMapEntryType::Free
    } else if tag == 2 {
        MMapEntryType::Acpi
    } else if tag == 3 {
        MMapEntryType::Mmio
    } else {
        MMapEntryType::Unknown
    }
}

/// The tag value an entry type is packed as.
pub open spec fn spec_tag_of_type(t: MMapEntryType) -> int {
    match t {
        MMapEntryType::Used => 0,
        MMapEntryType::Free => 1,
        MMapEntryType::Acpi => 2,
        MMapEntryType::Mmio => 3,
        MMapEntryType::Unknown => 4,
    }
}

/// The entry type a firmware memory-type number classifies as.
///
/// Reserved, runtime-code, runtime-data, unusable, PAL-code and
/// persistent-memory regions count as used; loader and boot-services
/// regions and conventional memory are free; the two ACPI kinds keep
/// their own class, as does memory-mapped I/O; everything else is
/// unknown.
pub open spec fn spec_classify_uefi(ty: u32) -> MMapEntryType {
    if ty == 0 || ty == 5 || ty == 6 || ty == 8 || ty == 13 || ty == 14 {
        MMapEntryType::Used
    } else if ty == 1 || ty == 2 || ty == 3 || ty == 4 || ty == 7 {
        MMapEntryType::Free
    } else if ty == 9 || ty == 10 {
        MMapEntryType::Acpi
    } else if ty == 11 || ty == 12 {
        MMapEntryType::Mmio
    } else {
        MMapEntryType::Unknown
    }
}

impl MMapEntryType {
    /// Converts a UEFI memory type, given as the firmware's numeric code,
    /// to a BOOTBOOT memory type.
    pub fn from_uefi(ty: u32) -> (r: Self)
        ensures
            r == spec_classify_uefi(ty),
    {
        match ty {
            0 | 5 | 6 | 8 | 13 | 14 => Self::Used,
            1 | 2 | 3 | 4 | 7 => Self::Free,
            9 | 10 => Self::Acpi,
            11 | 12 => Self::Mmio,
            _ => Self::Unknown,
        }
    }

    /// Creates a memory type from its 4-bit tag value.
    pub fn new(ty: u8) -> (r: Self)
        ensures
            r == spec_type_of_tag(ty as int),
    {
        match ty {
            0 => Self::Used,
            1 => Self::Free,
            2 => Self::Acpi,
            3 => Self::Mmio,
            _ => Self::Unknown,
        }
    }

    /// The tag value this type is packed as.
    pub fn tag(&self) -> (r: u64)
        ensures
            r == spec_tag_of_type(*self),
    {
        match self {
            Self::Used => 0,
            Self::Free => 1,
            Self::Acpi => 2,
            Self::Mmio => 3,
            Self::Unknown => 4,
        }
    }
}

/// Clearing the low 4 bits of a packed word equals removing its remainder
/// mod 16, and masking keeps exactly that remainder.
proof fn lemma_unpack(x: u64)
    ensures
        (x >> 4) << 4 == x - (x % 16),
        x & 0xf == x % 16,
        x % 16 <= x,
{
    assert((x >> 4) << 4 == vstd::prelude::sub(x, x % 16)) by (bit_vector);
    assert(x & 0xf == x % 16) by (bit_vector);
    assert(x % 16 <= x) by (bit_vector);
}

/// Packing a cleared byte count with a small tag adds the two values.
proof fn lemma_pack(size: u64, tag: u64)
    requires
        tag < 16,
    ensures
        ((size >> 4) << 4) | tag == size - (size % 16) + tag,
{
    assert(((size >> 4) << 4) | tag == vstd::prelude::add(vstd::prelude::sub(size, size % 16), tag)) by (bit_vector)
        requires
            tag < 16,
    ;
    assert(size % 16 <= size) by (bit_vector);
}

/// BOOTBOOT memory map entry.
///
/// `size` is the packed word: the entry's byte count with its low 4 bits
/// replaced by the type tag.
#[derive(Clone, Copy, Debug, PartialEq, Eq, Structural)]
pub struct MMapEntry {
    pub ptr: u64,
    pub size: u64,
}

impl MMapEntry {
    /// The entry's byte count: the packed word with its tag bits cleared.
    pub open spec fn spec_size(self) -> int {
        self.size - (self.size % 16)
    }

    /// The entry's 4-bit type tag.
    pub open spec fn spec_tag(self) -> int {
        self.size as int % 16
    }

    /// The entry's type.
    pub open spec fn spec_type(self) -> MMapEntryType {
        spec_type_of_tag(self.spec_tag())
    }

    /// `other` begins exactly where this entry ends and has the same type.
    pub open spec fn spec_is_next(self, other: Self) -> bool {
        &&& self.ptr + self.spec_size() == other.ptr
        &&& self.spec_type() == other.spec_type()
    }

    /// `other` directly follows this entry and the coalesced byte count
    /// still fits the packed encoding.
    pub open spec fn spec_mergeable(self, other: Self) -> bool {
        &&& self.spec_is_next(other)
        &&& self.size + other.spec_size() <= u64::MAX
    }

    /// The coalesced entry: this entry grown by `other`'s byte count.
    pub open spec fn spec_merged(self, other: Self) -> Self {
        MMapEntry { ptr: self.ptr, size: (self.size + other.spec_size()) as u64 }
    }

    /// Create a new BOOTBOOT memory map entry.
    ///
    /// A byte count too large for the packed encoding is rejected with
    /// `TooLarge`.  A byte count that is a multiple of 16 is stored
    /// exactly; otherwise its low 4 bits are lost to the tag.
    pub fn new(ptr: u64, size: u64, ty: MMapEntryType) -> (r: Result<Self, ParseError>)
        ensures
            r is Ok <==> size <= MMAP_MAX_SIZE,
            size > MMAP_MAX_SIZE ==> r == Err::<Self, ParseError>(ParseError::TooLarge),
            r matches Ok(e) ==> e.ptr == ptr && e.size == size - (size % 16) + spec_tag_of_type(
                ty,
            ) && e.spec_size() == size - (size % 16) && e.spec_type() == ty,
    {
        if size > MMAP_MAX_SIZE {
            return Err(ParseError::TooLarge);
        }
        let tag = ty.tag();
        let packed: u64 = ((size >> 4) << 4) | tag;
        proof {
            lemma_pack(size, tag);
            lemma_unpack(packed);
            assert((size - (size % 16)) % 16 == 0) by {
                vstd::arithmetic::div_mod::lemma_fundamental_div_mod(size as int, 16);
                vstd::arithmetic::div_mod::lemma_mod_multiples_basic(size as int / 16, 16);
            }
            assert(packed % 16 == spec_tag_of_type(ty)) by {
                vstd::arithmetic::div_mod::lemma_mod_add_multiples_vanish(
                    spec_tag_of_type(ty),
                    16,
                );
                vstd::arithmetic::div_mod::lemma_add_mod_noop(
                    size - (size % 16),
                    spec_tag_of_type(ty),
                    16,
                );
                vstd::arithmetic::div_mod::lemma_small_mod(spec_tag_of_type(ty) as nat, 16);
            }
        }
        Ok(MMapEntry { ptr, size: packed })
    }

    /// Returns the size of the entry in bytes.
    pub fn size(&self) -> (r: u64)
        ensures
            r == self.spec_size(),
    {
        proof {
            lemma_unpack(self.size);
        }
        (self.size >> 4) << 4
    }

    /// Returns the type of memory map entry.
    pub fn memory_type(&self) -> (r: MMapEntryType)
        ensures
            r == self.spec_type(),
    {
        proof {
            lemma_unpack(self.size);
        }
        MMapEntryType::new((self.size & 0xf) as u8)
    }

    /// Returns true if `other` is the entry directly after this one.
    pub fn is_next(&self, other: &Self) -> (r: bool)
        ensures
            r == self.spec_is_next(*other),
    {
        match self.ptr.checked_add(self.size()) {
            Some(end) => end == other.ptr && self.memory_type() == other.memory_type(),
            None => false,
        }
    }

    /// Adds `other`'s byte count to this entry's size.
    pub fn add_size(&mut self, other: &Self)
        requires
            old(self).size + other.spec_size() <= u64::MAX,
        ensures
            *final(self) == old(self).spec_merged(*other),
    {
        self.size = self.size + other.size();
    }

    /// Returns this entry merged with `other` if they are sequential
    /// entries of the same type and the sum still fits the packing.
    ///
    /// Returns `None` otherwise.
    pub fn merge(&self, other: &Self) -> (r: Option<Self>)
        ensures
            r == if self.spec_mergeable(*other) {
                Some(self.spec_merged(*other))
            } else {
                None::<Self>
            },
    {
        if !self.is_next(other) {
            return None;
        }
        match self.size.checked_add(other.size()) {
            Some(_) => {
                let mut merged = self.clone();
                merged.add_size(other);
                Some(merged)
            },
            None => None,
        }
    }
}

/// The entries of `s` are in ascending address order.
pub open spec fn sorted_by_ptr(s: Seq<MMapEntry>) -> bool {
    forall|i: int, j: int| 0 <= i < j < s.len() ==> s[i].ptr <= s[j].ptr
}

/// No two adjacent entries of `s` can be coalesced.
pub open spec fn coalesced(s: Seq<MMapEntry>) -> bool {
    forall|i: int| 0 <= i && i + 1 < s.len() ==> !(#[trigger] s[i].spec_mergeable(s[i + 1]))
}

/// Merges two address-ordered runs, taking from `a` on ties: the merge
/// step of a stable merge sort by ascending `ptr`.
pub open spec fn spec_merge_seqs(a: Seq<MMapEntry>, b: Seq<MMapEntry>) -> Seq<MMapEntry>
    decreases a.len() + b.len(),
{
    if a.len() == 0 {
        b
    } else if b.len() == 0 {
        a
    } else if a[0].ptr <= b[0].ptr {
        seq![a[0]] + spec_merge_seqs(a.drop_first(), b)
    } else {
        seq![b[0]] + spec_merge_seqs(a, b.drop_first())
    }
}

/// Stable merge sort of `s` by ascending `ptr`.
pub open spec fn spec_sort(s: Seq<MMapEntry>) -> Seq<MMapEntry>
    decreases s.len(),
{
    if s.len() <= 1 {
        s
    } else {
        spec_merge_seqs(
            spec_sort(s.take(s.len() as int / 2)),
            spec_sort(s.skip(s.len() as int / 2)),
        )
    }
}

/// Merging two sorted runs yields a sorted run of their combined length
/// whose entries all come from one of the two runs.
proof fn lemma_merge_seqs_props(a: Seq<MMapEntry>, b: Seq<MMapEntry>)
    requires
        sorted_by_ptr(a),
        sorted_by_ptr(b),
    ensures
        sorted_by_ptr(spec_merge_seqs(a, b)),
        spec_merge_seqs(a, b).len() == a.len() + b.len(),
        forall|k: int| 0 <= k < a.len() + b.len() ==> a.contains(
            #[trigger] spec_merge_seqs(a, b)[k],
        ) || b.contains(spec_merge_seqs(a, b)[k]),
    decreases a.len() + b.len(),
{
    let r = spec_merge_seqs(a, b);
    if a.len() == 0 {
        assert forall|k: int| 0 <= k < r.len() implies a.contains(#[trigger] r[k]) || b.contains(
            r[k],
        ) by {
            assert(r[k] == b[k]);
        }
    } else if b.len() == 0 {
        assert forall|k: int| 0 <= k < r.len() implies a.contains(#[trigger] r[k]) || b.contains(
            r[k],
        ) by {
            assert(r[k] == a[k]);
        }
    } else if a[0].ptr <= b[0].ptr {
        let a2 = a.drop_first();
        assert(sorted_by_ptr(a2)) by {
            assert(forall|i: int| 0 <= i < a2.len() ==> a2[i] == a[i + 1]);
        }
        lemma_merge_seqs_props(a2, b);
        let r2 = spec_merge_seqs(a2, b);
        assert(r == seq![a[0]] + r2);
        assert forall|k: int| 0 <= k < r.len() implies a.contains(#[trigger] r[k]) || b.contains(
            r[k],
        ) by {
            if k == 0 {
                assert(r[0] == a[0]);
                assert(a.contains(a[0]));
            } else {
                assert(r[k] == r2[k - 1]);
                if a2.contains(r2[k - 1]) {
                    let i = choose|i: int| 0 <= i < a2.len() && a2[i] == r2[k - 1];
                    assert(a[i + 1] == a2[i]);
                    assert(a.contains(a[i + 1]));
                }
            }
        }
        assert forall|i: int, j: int| 0 <= i < j < r.len() implies r[i].ptr <= r[j].ptr by {
            if i == 0 {
                assert(r[0] == a[0]);
                assert(r[j] == r2[j - 1]);
                if a2.contains(r2[j - 1]) {
                    let m = choose|m: int| 0 <= m < a2.len() && a2[m] == r2[j - 1];
                    assert(a2[m] == a[m + 1]);
                    assert(a[0].ptr <= a[m + 1].ptr);
                } else {
                    let m = choose|m: int| 0 <= m < b.len() && b[m] == r2[j - 1];
                    assert(b[0].ptr <= b[m].ptr);
                }
            } else {
                assert(r[i] == r2[i - 1] && r[j] == r2[j - 1]);
            }
        }
    } else {
        let b2 = b.drop_first();
        assert(sorted_by_ptr(b2)) by {
            assert(forall|i: int| 0 <= i < b2.len() ==> b2[i] == b[i + 1]);
        }
        lemma_merge_seqs_props(a, b2);
        let r2 = spec_merge_seqs(a, b2);
        assert(r == seq![b[0]] + r2);
        assert forall|k: int| 0 <= k < r.len() implies a.contains(#[trigger] r[k]) || b.contains(
            r[k],
        ) by {
            if k == 0 {
                assert(r[0] == b[0]);
                assert(b.contains(b[0]));
            } else {
                assert(r[k] == r2[k - 1]);
                if b2.contains(r2[k - 1]) {
                    let i = choose|i: int| 0 <= i < b2.len() && b2[i] == r2[k - 1];
                    assert(b[i + 1] == b2[i]);
                    assert(b.contains(b[i + 1]));
                }
            }
        }
        assert forall|i: int, j: int| 0 <= i < j < r.len() implies r[i].ptr <= r[j].ptr by {
            if i == 0 {
                assert(r[0] == b[0]);
                assert(r[j] == r2[j - 1]);
                if b2.contains(r2[j - 1]) {
                    let m = choose|m: int| 0 <= m < b2.len() && b2[m] == r2[j - 1];
                    assert(b2[m] == b[m + 1]);
                    assert(b[0].ptr <= b[m + 1].ptr);
                } else {
                    let m = choose|m: int| 0 <= m < a.len() && a[m] == r2[j - 1];
                    assert(b[0].ptr < a[0].ptr);
                    assert(a[0].ptr <= a[m].ptr);
                }
            } else {
                assert(r[i] == r2[i - 1] && r[j] == r2[j - 1]);
            }
        }
    }
}

/// The stable merge sort returns a sorted run of the input's length.
pub proof fn lemma_sort_props(s: Seq<MMapEntry>)
    ensures
        sorted_by_ptr(spec_sort(s)),
        spec_sort(s).len() == s.len(),
    decreases s.len(),
{
    if s.len() > 1 {
        let mid = s.len() as int / 2;
        lemma_sort_props(s.take(mid));
        lemma_sort_props(s.skip(mid));
        lemma_merge_seqs_props(spec_sort(s.take(mid)), spec_sort(s.skip(mid)));
    }
}

/// Merging the two halves of an already-sorted concatenation returns the
/// concatenation itself.
proof fn lemma_merge_seqs_of_concat(a: Seq<MMapEntry>, b: Seq<MMapEntry>)
    requires
        sorted_by_ptr(a + b),
    ensures
        spec_merge_seqs(a, b) == a + b,
    decreases a.len() + b.len(),
{
    if a.len() == 0 {
        assert(spec_merge_seqs(a, b) =~= a + b);
    } else if b.len() == 0 {
        assert(spec_merge_seqs(a, b) =~= a + b);
    } else {
        assert((a + b)[0] == a[0]);
        assert((a + b)[a.len() as int] == b[0]);
        assert(a[0].ptr <= b[0].ptr);
        let a2 = a.drop_first();
        assert(a2 + b =~= (a + b).drop_first());
        assert(sorted_by_ptr(a2 + b)) by {
            assert(forall|i: int| 0 <= i < (a2 + b).len() ==> (a2 + b)[i] == (a + b)[i + 1]);
        }
        lemma_merge_seqs_of_concat(a2, b);
        assert(spec_merge_seqs(a, b) =~= a + b);
    }
}

/// Sorting an already-sorted run is the identity.
pub proof fn lemma_sort_of_sorted(s: Seq<MMapEntry>)
    requires
        sorted_by_ptr(s),
    ensures
        spec_sort(s) == s,
    decreases s.len(),
{
    if s.len() > 1 {
        let mid = s.len() as int / 2;
        assert(sorted_by_ptr(s.take(mid)));
        assert(sorted_by_ptr(s.skip(mid)));
        lemma_sort_of_sorted(s.take(mid));
        lemma_sort_of_sorted(s.skip(mid));
        assert(s.take(mid) + s.skip(mid) =~= s);
        lemma_merge_seqs_of_concat(s.take(mid), s.skip(mid));
    }
}

/// One step of the left-to-right merge pass: coalesce `e` into the
/// accumulated run's last entry when possible, else append it.
pub open spec fn spec_merge_step(acc: Seq<MMapEntry>, e: MMapEntry) -> Seq<MMapEntry> {
    if acc.len() > 0 && acc.last().spec_mergeable(e) {
        acc.update(acc.len() - 1, acc.last().spec_merged(e))
    } else {
        acc.push(e)
    }
}

/// The whole merge pass over `s`, left to right.
pub open spec fn spec_merge_all(s: Seq<MMapEntry>) -> Seq<MMapEntry>
    decreases s.len(),
{
    if s.len() == 0 {
        Seq::empty()
    } else {
        spec_merge_step(spec_merge_all(s.drop_last()), s.last())
    }
}

/// An entry's byte count is a nonnegative multiple of 16, and its tag is
/// its packed word mod 16.
proof fn lemma_entry_size_mod(e: MMapEntry)
    ensures
        e.spec_size() % 16 == 0,
        e.spec_size() >= 0,
        e.spec_size() + e.spec_tag() == e.size,
{
    vstd::arithmetic::div_mod::lemma_fundamental_div_mod(e.size as int, 16);
    vstd::arithmetic::div_mod::lemma_mod_multiples_basic(e.size as int / 16, 16);
    vstd::arithmetic::div_mod::lemma_mod_division_less_than_divisor(e.size as int, 16);
}

/// A coalesced entry keeps its first half's address and type and carries
/// the summed byte count.
proof fn lemma_merged_fields(a: MMapEntry, b: MMapEntry)
    requires
        a.spec_mergeable(b),
    ensures
        a.spec_merged(b).ptr == a.ptr,
        a.spec_merged(b).spec_tag() == a.spec_tag(),
        a.spec_merged(b).spec_type() == a.spec_type(),
        a.spec_merged(b).spec_size() == a.spec_size() + b.spec_size(),
{
    lemma_entry_size_mod(a);
    lemma_entry_size_mod(b);
    let m = a.spec_merged(b);
    assert(m.size == a.size + b.spec_size());
    assert(m.size as int % 16 == a.size as int % 16) by {
        vstd::arithmetic::div_mod::lemma_mod_adds(a.size as int, b.spec_size(), 16);
        vstd::arithmetic::div_mod::lemma_small_mod((a.size as int % 16) as nat, 16);
    }
}

/// The merge pass of a sorted run is sorted, cannot be coalesced any
/// further, and keeps addresses that were present in the input.
proof fn lemma_merge_all_props(s: Seq<MMapEntry>)
    requires
        sorted_by_ptr(s),
    ensures
        sorted_by_ptr(spec_merge_all(s)),
        coalesced(spec_merge_all(s)),
        spec_merge_all(s).len() <= s.len(),
        forall|k: int| 0 <= k < spec_merge_all(s).len() ==> exists|i: int|
            0 <= i < s.len() && (#[trigger] spec_merge_all(s)[k]).ptr == s[i].ptr,
    decreases s.len(),
{
    if s.len() > 0 {
        let t = s.drop_last();
        let e = s.last();
        assert(sorted_by_ptr(t));
        lemma_merge_all_props(t);
        let r0 = spec_merge_all(t);
        let r = spec_merge_all(s);
        if r0.len() > 0 && r0.last().spec_mergeable(e) {
            let m = r0.last().spec_merged(e);
            lemma_merged_fields(r0.last(), e);
            assert(r == r0.update(r0.len() - 1, m));
            assert forall|i: int, j: int| 0 <= i < j < r.len() implies r[i].ptr <= r[j].ptr by {
                if j < r.len() - 1 {
                    assert(r[i] == r0[i] && r[j] == r0[j]);
                } else {
                    assert(r[j].ptr == r0[j].ptr);
                    if i < r.len() - 1 {
                        assert(r[i] == r0[i]);
                    }
                }
            }
            assert forall|i: int| 0 <= i && i + 1 < r.len() implies !(
            #[trigger] r[i].spec_mergeable(r[i + 1])) by {
                if i + 1 < r.len() - 1 {
                    assert(r[i] == r0[i] && r[i + 1] == r0[i + 1]);
                } else {
                    let p = r0[i];
                    assert(r[i] == p && r[i + 1] == m);
                    assert(!p.spec_mergeable(r0.last()));
                    lemma_entry_size_mod(e);
                    if p.spec_mergeable(m) {
                        assert(p.spec_is_next(r0.last()));
                        assert(p.size + r0.last().spec_size() <= p.size + m.spec_size());
                        assert(false);
                    }
                }
            }
            assert forall|k: int| 0 <= k < r.len() implies exists|i: int|
                0 <= i < s.len() && (#[trigger] r[k]).ptr == s[i].ptr by {
                if k < r.len() - 1 {
                    assert(r[k] == r0[k]);
                    let i = choose|i: int| 0 <= i < t.len() && r0[k].ptr == t[i].ptr;
                    assert(s[i] == t[i]);
                    assert(r[k].ptr == s[i].ptr);
                } else {
                    assert(r[k].ptr == r0.last().ptr);
                    let i = choose|i: int|
                        0 <= i < t.len() && r0[r0.len() - 1].ptr == t[i].ptr;
                    assert(s[i] == t[i]);
                    assert(r[k].ptr == s[i].ptr);
                }
            }
        } else {
            assert(r == r0.push(e));
            assert forall|i: int, j: int| 0 <= i < j < r.len() implies r[i].ptr <= r[j].ptr by {
                if j < r.len() - 1 {
                    assert(r[i] == r0[i] && r[j] == r0[j]);
                } else {
                    assert(r[j] == e);
                    if i < r.len() - 1 {
                        assert(r[i] == r0[i]);
                        let m = choose|m: int| 0 <= m < t.len() && r0[i].ptr == t[m].ptr;
                        assert(s[m] == t[m]);
                        assert(s[m].ptr <= s[s.len() - 1].ptr);
                    }
                }
            }
            assert forall|i: int| 0 <= i && i + 1 < r.len() implies !(
            #[trigger] r[i].spec_mergeable(r[i + 1])) by {
                if i + 1 < r.len() - 1 {
                    assert(r[i] == r0[i] && r[i + 1] == r0[i + 1]);
                } else {
                    assert(r[i + 1] == e);
                    if r0.len() > 0 {
                        assert(r[i] == r0.last());
                    }
                }
            }
            assert forall|k: int| 0 <= k < r.len() implies exists|i: int|
                0 <= i < s.len() && (#[trigger] r[k]).ptr == s[i].ptr by {
                if k < r.len() - 1 {
                    let i = choose|i: int| 0 <= i < t.len() && r0[k].ptr == t[i].ptr;
                    assert(s[i] == t[i]);
                    assert(r[k].ptr == s[i].ptr);
                } else {
                    assert(r[k].ptr == s[s.len() - 1].ptr);
                }
            }
        }
    }
}

/// The merge pass of a run that cannot be coalesced is the identity.
proof fn lemma_merge_all_of_coalesced(s: Seq<MMapEntry>)
    requires
        coalesced(s),
    ensures
        spec_merge_all(s) == s,
    decreases s.len(),
{
    if s.len() == 0 {
        assert(spec_merge_all(s) =~= s);
    } else {
        let t = s.drop_last();
        assert(coalesced(t)) by {
            assert forall|i: int| 0 <= i && i + 1 < t.len() implies !(
            #[trigger] t[i].spec_mergeable(t[i + 1])) by {
                assert(t[i] == s[i] && t[i + 1] == s[i + 1]);
            }
        }
        lemma_merge_all_of_coalesced(t);
        if t.len() > 0 {
            let i = s.len() - 2;
            assert(!(s[i].spec_mergeable(s[i + 1])));
            assert(t.last() == s[i] && s.last() == s[i + 1]);
        }
        assert(spec_merge_all(s) =~= s);
    }
}

/// Normalizing a run of entries: sort by address, then coalesce adjacent
/// same-type touching entries.
pub open spec fn spec_normalize(s: Seq<MMapEntry>) -> Seq<MMapEntry> {
    spec_merge_all(spec_sort(s))
}

/// The normalized run is sorted and cannot be coalesced any further.
pub proof fn lemma_normalize_props(s: Seq<MMapEntry>)
    ensures
        sorted_by_ptr(spec_normalize(s)),
        coalesced(spec_normalize(s)),
        spec_normalize(s).len() <= s.len(),
{
    lemma_sort_props(s);
    lemma_merge_all_props(spec_sort(s));
}

/// Normalizing is idempotent: normalizing an already-normalized memory
/// map returns it unchanged, so the normal form is a fixed point.
pub proof fn lemma_normalize_idempotent(s: Seq<MMapEntry>)
    ensures
        spec_normalize(spec_normalize(s)) == spec_normalize(s),
{
    lemma_normalize_props(s);
    let n = spec_normalize(s);
    lemma_sort_of_sorted(n);
    lemma_merge_all_of_coalesced(n);
}

/// Merges two address-ordered runs of entries, taking from `a` on ties.
fn merge_entries(a: Vec<MMapEntry>, b: Vec<MMapEntry>) -> (r: Vec<MMapEntry>)
    ensures
        r@ == spec_merge_seqs(a@, b@),
{
    let mut r: Vec<MMapEntry> = Vec::new();
    let mut i: usize = 0;
    let mut j: usize = 0;
    proof {
        assert(a@.skip(0) =~= a@);
        assert(b@.skip(0) =~= b@);
        assert(r@ + spec_merge_seqs(a@, b@) =~= spec_merge_seqs(a@, b@));
    }
    while i < a.len() || j < b.len()
        invariant
            i <= a@.len(),
            j <= b@.len(),
            spec_merge_seqs(a@, b@) == r@ + spec_merge_seqs(
                a@.skip(i as int),
                b@.skip(j as int),
            ),
        decreases a@.len() - i + b@.len() - j,
    {
        let ghost sa = a@.skip(i as int);
        let ghost sb = b@.skip(j as int);
        if i < a.len() && (j >= b.len() || a[i].ptr <= b[j].ptr) {
            r.push(a[i]);
            proof {
                assert(sa[0] == a@[i as int]);
                assert(sa.drop_first() =~= a@.skip(i as int + 1));
                if j >= b.len() {
                    assert(sb.len() == 0);
                    assert(spec_merge_seqs(sa, sb) == sa);
                    assert(sa =~= seq![sa[0]] + sa.drop_first());
                } else {
                    assert(sb[0] == b@[j as int]);
                    assert(spec_merge_seqs(sa, sb) == seq![sa[0]] + spec_merge_seqs(
                        sa.drop_first(),
                        sb,
                    ));
                }
                assert(r@ + spec_merge_seqs(a@.skip(i as int + 1), b@.skip(j as int))
                    =~= (r@.drop_last() + seq![sa[0]]) + spec_merge_seqs(
                    sa.drop_first(),
                    sb,
                ));
                assert(r@.drop_last() + seq![sa[0]] =~= r@);
                assert((r@.drop_last() + seq![sa[0]]) + spec_merge_seqs(sa.drop_first(), sb)
                    =~= r@.drop_last() + (seq![sa[0]] + spec_merge_seqs(sa.drop_first(), sb)));
            }
            i = i + 1;
        } else {
            r.push(b[j]);
            proof {
                assert(sb[0] == b@[j as int]);
                assert(sb.drop_first() =~= b@.skip(j as int + 1));
                if i >= a.len() {
                    assert(sa.len() == 0);
                    assert(spec_merge_seqs(sa, sb) == sb);
                    assert(sb =~= seq![sb[0]] + sb.drop_first());
                } else {
                    assert(sa[0] == a@[i as int]);
                    assert(spec_merge_seqs(sa, sb) == seq![sb[0]] + spec_merge_seqs(
                        sa,
                        sb.drop_first(),
                    ));
                }
                assert((r@.drop_last() + seq![sb[0]]) + spec_merge_seqs(sa, sb.drop_first())
                    =~= r@.drop_last() + (seq![sb[0]] + spec_merge_seqs(sa, sb.drop_first())));
                assert(r@.drop_last() + seq![sb[0]] =~= r@);
            }
            j = j + 1;
        }
    }
    proof {
        assert(a@.skip(i as int).len() == 0);
        assert(r@ + spec_merge_seqs(a@.skip(i as int), b@.skip(j as int)) =~= r@);
    }
    r
}

/// Stable merge sort of a run of entries by ascending address.
fn sort_entries(v: Vec<MMapEntry>) -> (r: Vec<MMapEntry>)
    ensures
        r@ == spec_sort(v@),
    decreases v@.len(),
{
    let n = v.len();
    if n <= 1 {
        return v;
    }
    let mid = n / 2;
    let mut left: Vec<MMapEntry> = Vec::new();
    let mut i: usize = 0;
    while i < mid
        invariant
            i <= mid <= v@.len(),
            left@.len() == i,
            forall|k: int| 0 <= k < i ==> left@[k] == v@[k],
        decreases mid - i,
    {
        left.push(v[i]);
        i = i + 1;
    }
    let mut right: Vec<MMapEntry> = Vec::new();
    let mut j: usize = mid;
    while j < n
        invariant
            mid <= j <= n == v@.len(),
            right@.len() == j - mid,
            forall|k: int| 0 <= k < j - mid ==> right@[k] == v@[mid + k],
        decreases n - j,
    {
        right.push(v[j]);
        j = j + 1;
    }
    proof {
        assert(left@ =~= v@.take(mid as int));
        assert(right@ =~= v@.skip(mid as int));
    }
    let ls = sort_entries(left);
    let rs = sort_entries(right);
    merge_entries(ls, rs)
}

/// The left-to-right merge pass: coalesce each entry into the run's last
/// entry where type and adjacency allow it.
fn coalesce_entries(v: Vec<MMapEntry>) -> (r: Vec<MMapEntry>)
    ensures
        r@ == spec_merge_all(v@),
{
    let mut r: Vec<MMapEntry> = Vec::new();
    let mut i: usize = 0;
    while i < v.len()
        invariant
            i <= v@.len(),
            r@ == spec_merge_all(v@.take(i as int)),
        decreases v@.len() - i,
    {
        let ghost acc = r@;
        let e = v[i];
        if r.len() > 0 {
            let last = r[r.len() - 1];
            match last.merge(&e) {
                Some(m) => {
                    let _ = r.pop();
                    r.push(m);
                    proof {
                        assert(r@ =~= acc.update(acc.len() - 1, m));
                    }
                },
                None => {
                    r.push(e);
                },
            }
        } else {
            r.push(e);
        }
        proof {
            assert(v@.take(i + 1).drop_last() =~= v@.take(i as int));
            assert(v@.take(i + 1).last() == v@[i as int]);
            assert(r@ == spec_merge_step(acc, v@[i as int]));
        }
        i = i + 1;
    }
    proof {
        assert(v@.take(v@.len() as int) =~= v@);
    }
    r
}

/// A firmware memory descriptor: the start address, length in 4096-byte
/// pages and firmware type code of one region, as the boot orchestrator
/// reads them from the firmware's memory map.
#[derive(Copy, Clone, Debug, PartialEq, Eq, Structural)]
pub struct MemoryDescriptor {
    pub phys_start: u64,
    pub page_count: u64,
    pub ty: u32,
}

/// The descriptor's byte count fits the packed encoding.
pub open spec fn spec_descriptor_fits(d: MemoryDescriptor) -> bool {
    d.page_count * 4096 <= MMAP_MAX_SIZE
}

/// The entry a descriptor converts to: its start address, with its page
/// count in bytes and its classified type packed into one word.
pub open spec fn spec_entry_of(d: MemoryDescriptor) -> MMapEntry {
    MMapEntry {
        ptr: d.phys_start,
        size: (d.page_count * 4096 + spec_tag_of_type(spec_classify_uefi(d.ty))) as u64,
    }
}

/// The entries of a whole run of descriptors.
pub open spec fn spec_entries_of(ds: Seq<MemoryDescriptor>) -> Seq<MMapEntry> {
    Seq::new(ds.len(), |i: int| spec_entry_of(ds[i]))
}

/// A BOOTBOOT memory map: an owned run of entries, sorted by ascending
/// address, with no two adjacent entries of one type touching.
pub struct BootbootMMap {
    mmap: Vec<MMapEntry>,
}

impl View for BootbootMMap {
    type V = Seq<MMapEntry>;

    closed spec fn view(&self) -> Seq<MMapEntry> {
        self.mmap@
    }
}

impl BootbootMMap {
    /// The number of entries in the map.
    pub fn len(&self) -> (r: usize)
        ensures
            r == self@.len(),
    {
        self.mmap.len()
    }

    /// The entry at index `i`.
    pub fn get(&self, i: usize) -> (r: MMapEntry)
        requires
            i < self@.len(),
        ensures
            r == self@[i as int],
    {
        self.mmap[i]
    }

    /// All entries of the map.
    pub fn entries(&self) -> (r: &[MMapEntry])
        ensures
            r@ == self@,
    {
        self.mmap.as_slice()
    }

    /// Converts a UEFI memory map to a BOOTBOOT memory map.
    ///
    /// Each descriptor is classified and packed, then the entries are
    /// sorted by address and adjacent same-type entries are merged.  A
    /// descriptor whose byte count overflows the packed encoding is
    /// rejected with `TooLarge`.
    pub fn from_uefi_mmap(descriptors: &[MemoryDescriptor]) -> (r: Result<Self, ParseError>)
        ensures
            r is Ok <==> (forall|i: int| 0 <= i < descriptors@.len()
                ==> spec_descriptor_fits(#[trigger] descriptors@[i])),
            r is Err ==> r == Err::<Self, ParseError>(ParseError::TooLarge),
            r matches Ok(m) ==> m@ == spec_normalize(spec_entries_of(descriptors@)),
            r matches Ok(m) ==> sorted_by_ptr(m@) && coalesced(m@),
    {
        let mut entries: Vec<MMapEntry> = Vec::new();
        let mut i: usize = 0;
        while i < descriptors.len()
            invariant
                i <= descriptors@.len(),
                entries@.len() == i,
                forall|k: int| 0 <= k < i ==> entries@[k] == spec_entry_of(descriptors@[k]),
                forall|k: int| 0 <= k < i ==> spec_descriptor_fits(#[trigger] descriptors@[k]),
            decreases descriptors@.len() - i,
        {
            let d = descriptors[i];
            let size = match d.page_count.checked_mul(4096) {
                Some(s) => s,
                None => {
                    return Err(ParseError::TooLarge);
                },
            };
            let entry = match MMapEntry::new(d.phys_start, size, MMapEntryType::from_uefi(d.ty)) {
                Ok(e) => e,
                Err(e) => {
                    return Err(e);
                },
            };
            proof {
                assert(size % 16 == 0) by {
                    vstd::arithmetic::div_mod::lemma_mod_multiples_basic(
                        d.page_count * 256,
                        16,
                    );
                }
                assert(entry == spec_entry_of(descriptors@[i as int]));
            }
            entries.push(entry);
            i = i + 1;
        }
        proof {
            assert(entries@ =~= spec_entries_of(descriptors@));
        }
        let sorted = sort_entries(entries);
        let merged = coalesce_entries(sorted);
        proof {
            lemma_normalize_props(spec_entries_of(descriptors@));
        }
        Ok(BootbootMMap { mmap: merged })
    }
}

} // verus!

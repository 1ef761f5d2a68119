//! Firmware configuration-table entries and capability lookup.
//!
//! The firmware hands the loader a list of `{capability id, address}` pairs.
//! The capability id is a 128-bit GUID, held here as one `u128` whose value
//! is the GUID's textual form read as a hexadecimal number.  The boot
//! orchestrator converts the firmware's GUID type to this form.

use vstd::prelude::*;

verus! {

/// Capability id of the ACPI 1.0 root pointer (eb9d2d30-2d88-11d3-9a16-0090273fc14d).
pub const ACPI_GUID: u128 = 0xeb9d2d30_2d88_11d3_9a16_0090273fc14d;

/// Capability id of the ACPI 2.0 root pointer (8868e871-e4f1-11d3-bc22-0080c73c8881).
pub const ACPI2_GUID: u128 = 0x8868e871_e4f1_11d3_bc22_0080c73c8881;

/// Capability id of the SMBIOS entry point (eb9d2d31-2d88-11d3-9a16-0090273fc14d).
pub const SMBIOS_GUID: u128 = 0xeb9d2d31_2d88_11d3_9a16_0090273fc14d;

/// One entry of the firmware configuration table: a capability id and the
/// physical address of the structure it announces.
#[derive(Copy, Clone, Debug, PartialEq, Eq, Structural)]
pub struct ConfigTableEntry {
    pub guid: u128,
    pub address: u64,
}

/// Index of the first entry of `s` whose capability id is `guid`.
pub open spec fn find_guid(s: Seq<ConfigTableEntry>, guid: u128) -> Option<int>
    decreases s.len(),
{
    if s.len() == 0 {
        None
    } else if s[0].guid == guid {
        Some(0)
    } else {
        match find_guid(s.drop_first(), guid) {
            Some(i) => Some(i + 1),
            None => None,
        }
    }
}

/// `find_guid` returns the first matching index, and `None` only when no
/// entry matches.
pub proof fn lemma_find_guid_props(s: Seq<ConfigTableEntry>, guid: u128)
    ensures
        match find_guid(s, guid) {
            Some(i) => 0 <= i < s.len() && s[i].guid == guid && forall|k: int|
                0 <= k < i ==> s[k].guid != guid,
            None => forall|k: int| 0 <= k < s.len() ==> s[k].guid != guid,
        },
    decreases s.len(),
{
    if s.len() > 0 && s[0].guid != guid {
        lemma_find_guid_props(s.drop_first(), guid);
        assert forall|k: int| 1 <= k < s.len() implies s.drop_first()[k - 1] == s[k] by {}
    }
}

/// An entry that matches, with none before it, is what `find_guid` returns.
proof fn lemma_find_guid_first(s: Seq<ConfigTableEntry>, guid: u128, i: int)
    requires
        0 <= i < s.len(),
        s[i].guid == guid,
        forall|k: int| 0 <= k < i ==> s[k].guid != guid,
    ensures
        find_guid(s, guid) == Some(i),
    decreases s.len(),
{
    if i > 0 {
        lemma_find_guid_first(s.drop_first(), guid, i - 1);
    }
}

/// Returns the index of the first entry of `config_table` whose capability
/// id is `guid`.
pub fn find_config_table(config_table: &[ConfigTableEntry], guid: u128) -> (r: Option<usize>)
    ensures
        match r {
            Some(i) => find_guid(config_table@, guid) == Some(i as int),
            None => find_guid(config_table@, guid) is None,
        },
{
    let mut i: usize = 0;
    while i < config_table.len()
        invariant
            i <= config_table@.len(),
            forall|k: int| 0 <= k < i ==> config_table@[k].guid != guid,
        decreases config_table@.len() - i,
    {
        if config_table[i].guid == guid {
            proof {
                lemma_find_guid_first(config_table@, guid, i as int);
            }
            return Some(i);
        }
        i = i + 1;
    }
    proof {
        lemma_find_guid_props(config_table@, guid);
    }
    None
}

} // verus!

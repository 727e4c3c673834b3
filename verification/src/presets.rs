//! Vendors whose quarantine is a plain whole-file single-byte XOR; picking one
//! just fills in the key.

use vstd::prelude::*;

verus! {

/// A vendor and the key its quarantine is XOR-ed with.
pub struct Preset {
    pub name: &'static str,
    pub key: u8,
}

/// The vendor presets, in the order the key picker lists them.
pub open spec fn preset_table() -> Seq<(Seq<char>, u8)> {
    seq![
        ("Cisco AMP / Secure Endpoint"@, 0x77u8),
        ("Microsoft MSE / Antimalware"@, 0xFFu8),
        ("SentinelOne"@, 0xFFu8),
        ("Microsoft Defender (macOS)"@, 0x25u8),
        ("VIPRE"@, 0x33u8),
    ]
}

/// What the key picker shows for `key`: the first preset in `table` with that
/// key, or `Custom` when there is none.
pub open spec fn label_in(table: Seq<(Seq<char>, u8)>, key: u8) -> Seq<char>
    decreases table.len(),
{
    if table.len() == 0 {
        "Custom"@
    } else if table[0].1 == key {
        table[0].0
    } else {
        label_in(table.drop_first(), key)
    }
}

/// The vendor presets.
pub fn presets() -> (v: Vec<Preset>)
    ensures
        v@.len() == preset_table().len(),
        forall|i: int| 0 <= i < v@.len() ==> (#[trigger] v@[i].name@, v@[i].key) == preset_table()[i],
{
    let mut v: Vec<Preset> = Vec::new();
    v.push(Preset { name: "Cisco AMP / Secure Endpoint", key: 0x77 });
    v.push(Preset { name: "Microsoft MSE / Antimalware", key: 0xFF });
    v.push(Preset { name: "SentinelOne", key: 0xFF });
    v.push(Preset { name: "Microsoft Defender (macOS)", key: 0x25 });
    v.push(Preset { name: "VIPRE", key: 0x33 });
    v
}

/// The label the key picker shows for `key`: the name of the first preset with
/// that key, or `Custom`.
pub fn preset_label(key: u8) -> (label: &'static str)
    ensures
        label@ == label_in(preset_table(), key),
{
    let table = presets();
    let n = table.len();
    let mut i: usize = 0;
    assert(preset_table().skip(0) =~= preset_table());
    while i < n
        invariant
            n == table@.len(),
            n == preset_table().len(),
            0 <= i <= n,
            forall|j: int| 0 <= j < n ==> (#[trigger] table@[j].name@, table@[j].key) == preset_table()[j],
            label_in(preset_table(), key) == label_in(preset_table().skip(i as int), key),
        decreases n - i,
    {
        let ghost rest = preset_table().skip(i as int);
        assert(rest[0] == preset_table()[i as int]);
        assert(rest.drop_first() =~= preset_table().skip(i + 1));
        if table[i].key == key {
            assert((table@[i as int].name@, table@[i as int].key) == preset_table()[i as int]);
            return table[i].name;
        }
        i += 1;
    }
    assert(preset_table().skip(n as int).len() == 0);
    "Custom"
}

/// A label other than `Custom` always names a preset whose key is the one
/// shown.
pub proof fn lemma_label_names_a_preset(table: Seq<(Seq<char>, u8)>, key: u8)
    ensures
        label_in(table, key) == "Custom"@ || exists|i: int|
            0 <= i < table.len() && #[trigger] table[i] == (label_in(table, key), key),
    decreases table.len(),
{
    if table.len() > 0 && table[0].1 != key {
        lemma_label_names_a_preset(table.drop_first(), key);
        if label_in(table, key) != "Custom"@ {
            let i = choose|i: int|
                0 <= i < table.drop_first().len() && #[trigger] table.drop_first()[i] == (
                    label_in(table.drop_first(), key),
                    key,
                );
            assert(table[i + 1] == table.drop_first()[i]);
        }
    } else if table.len() > 0 {
        assert(table[0] == (table[0].0, table[0].1));
    }
}

} // verus!

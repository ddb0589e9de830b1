use std::collections::HashMap;
use vstd::prelude::*;
use vstd::std_specs::hash::{builds_valid_hashers, obeys_key_model};
use std::collections::hash_map::RandomState;

verus! {

/// The table of known boards and the chip each one is built on.
pub open spec fn board_chip_table() -> Map<&'static str, &'static str> {
    map![
        "nrfmicro" => "nrf52840",
        "bluemicro840" => "nrf52840",
        "puchi_ble" => "nrf52840",
        "nice!nano" => "nrf52840",
        "nice!nano_v2" => "nrf52840",
        "XIAO BLE" => "nrf52840",
    ]
}

/// Builds the board-to-chip table. Where string slices follow the hash-map
/// key model, the map holds exactly the entries of `board_chip_table`.
pub fn get_board_chip_map() -> (r: HashMap<&'static str, &'static str>)
    ensures
        obeys_key_model::<&'static str>() && builds_valid_hashers::<RandomState>() ==> r@
            == board_chip_table(),
{
    let mut map: HashMap<&'static str, &'static str> = HashMap::new();
    map.insert("nrfmicro", "nrf52840");
    map.insert("bluemicro840", "nrf52840");
    map.insert("puchi_ble", "nrf52840");
    map.insert("nice!nano", "nrf52840");
    map.insert("nice!nano_v2", "nrf52840");
    map.insert("XIAO BLE", "nrf52840");
    proof {
        if obeys_key_model::<&'static str>() && builds_valid_hashers::<RandomState>() {
            assert(map@ =~= board_chip_table());
        }
    }
    map
}

} // verus!

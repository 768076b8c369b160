//! Bose device catalog — known BMAP-capable devices.
//!
//! Sourced from Bose's BoseProductId registry. The registry's `value`
//! field is the product ID reported over Bluetooth Modalias; verified
//! against WOLVERINE (0x4082) and EDITH (0x4062).

use vstd::prelude::*;
use vstd::string::StringExecFns;

use crate::devices::device_named;
use crate::text::{hex_byte_text, push_hex_byte};

verus! {

/// All Bose USB devices share this vendor ID.
pub const BOSE_USB_VID: u16 = 0x05A7;

/// BMAP Bluetooth service UUID (SDP record).
pub const BMAP_UUID: &'static str = "00000000-deca-fade-deca-deafdecacaff";

/// Device category.
#[derive(Debug, Clone, Copy, PartialEq, Eq, Structural)]
pub enum Category {
    Headphones,
    Earbuds,
    Speaker,
}

/// A known Bose BMAP device.
#[derive(Debug, Clone, Copy)]
pub struct BoseDevice {
    pub product_id: u16,
    pub codename: &'static str,
    pub name: &'static str,
    pub category: Category,
    /// Library config key, or None if not yet supported.
    pub config: Option<&'static str>,
}

/// All known BMAP-capable Bose devices, headphones first, then earbuds, then speakers.
pub open spec fn catalog_spec() -> Seq<BoseDevice> {
    seq![
        BoseDevice { product_id: 0x400C, codename: "wolfcastle", name: "QuietComfort 35", category: Category::Headphones, config: Some("qc35") },
        BoseDevice { product_id: 0x4015, codename: "stetson", name: "Hearphones", category: Category::Headphones, config: None },
        BoseDevice { product_id: 0x4020, codename: "baywolf", name: "QuietComfort 35 II", category: Category::Headphones, config: Some("qc35") },
        BoseDevice { product_id: 0x4021, codename: "atlas", name: "ProFlight", category: Category::Headphones, config: None },
        BoseDevice { product_id: 0x4024, codename: "goodyear", name: "Noise Cancelling Headphones 700", category: Category::Headphones, config: None },
        BoseDevice { product_id: 0x402B, codename: "beanie", name: "Hearphones II", category: Category::Headphones, config: None },
        BoseDevice { product_id: 0x4039, codename: "duran", name: "QuietComfort 45", category: Category::Headphones, config: Some("qc45") },
        BoseDevice { product_id: 0x4066, codename: "lonestarr", name: "QuietComfort Ultra Headphones", category: Category::Headphones, config: None },
        BoseDevice { product_id: 0x4075, codename: "prince", name: "QuietComfort Headphones", category: Category::Headphones, config: Some("qc_prince") },
        BoseDevice { product_id: 0x4082, codename: "wolverine", name: "QuietComfort Ultra Headphones (2nd Gen)", category: Category::Headphones, config: Some("qc_ultra2") },
        BoseDevice { product_id: 0x4012, codename: "ice", name: "SoundSport", category: Category::Earbuds, config: None },
        BoseDevice { product_id: 0x4013, codename: "flurry", name: "SoundSport Pulse", category: Category::Earbuds, config: None },
        BoseDevice { product_id: 0x4014, codename: "powder", name: "QuietControl 30", category: Category::Earbuds, config: None },
        BoseDevice { product_id: 0x4018, codename: "levi", name: "SoundSport Free", category: Category::Earbuds, config: None },
        BoseDevice { product_id: 0x402C, codename: "celine", name: "Frames", category: Category::Earbuds, config: None },
        BoseDevice { product_id: 0x402D, codename: "revel", name: "Sport Earbuds", category: Category::Earbuds, config: None },
        BoseDevice { product_id: 0x402F, codename: "lando", name: "QuietComfort Earbuds", category: Category::Earbuds, config: Some("qc_earbuds") },
        BoseDevice { product_id: 0x403A, codename: "gwen", name: "Sport Open Earbuds", category: Category::Earbuds, config: None },
        BoseDevice { product_id: 0x404C, codename: "celine_ii", name: "Frames (2nd Gen)", category: Category::Earbuds, config: None },
        BoseDevice { product_id: 0x4060, codename: "olivia", name: "Frames Tempo", category: Category::Earbuds, config: None },
        BoseDevice { product_id: 0x4061, codename: "vedder", name: "Frames", category: Category::Earbuds, config: None },
        BoseDevice { product_id: 0x4062, codename: "edith", name: "QuietComfort Ultra Earbuds (2nd Gen)", category: Category::Earbuds, config: Some("qc_ultra2") },
        BoseDevice { product_id: 0x4064, codename: "smalls", name: "QuietComfort Earbuds II", category: Category::Earbuds, config: None },
        BoseDevice { product_id: 0x4068, codename: "serena", name: "Ultra Open Earbuds", category: Category::Earbuds, config: None },
        BoseDevice { product_id: 0x4072, codename: "scotty", name: "QuietComfort Ultra Earbuds", category: Category::Earbuds, config: None },
        BoseDevice { product_id: 0x400A, codename: "isaac", name: "AE2 SoundLink", category: Category::Speaker, config: None },
        BoseDevice { product_id: 0x400D, codename: "foreman", name: "SoundLink Color II", category: Category::Speaker, config: None },
        BoseDevice { product_id: 0x4010, codename: "folgers", name: "SoundLink Revolve", category: Category::Speaker, config: None },
        BoseDevice { product_id: 0x4011, codename: "harvey", name: "SoundLink Revolve+", category: Category::Speaker, config: None },
        BoseDevice { product_id: 0x4017, codename: "kleos", name: "SoundWear", category: Category::Speaker, config: None },
        BoseDevice { product_id: 0x4022, codename: "minnow", name: "SoundLink Micro", category: Category::Speaker, config: None },
        BoseDevice { product_id: 0x4085, codename: "troy", name: "SoundLink Plus", category: Category::Speaker, config: None },
        BoseDevice { product_id: 0xA211, codename: "chibi", name: "S1 Pro", category: Category::Speaker, config: None },
        BoseDevice { product_id: 0xBC58, codename: "billie", name: "SoundLink Micro 2", category: Category::Speaker, config: None },
        BoseDevice { product_id: 0xBC59, codename: "phelps", name: "SoundLink Flex", category: Category::Speaker, config: None },
        BoseDevice { product_id: 0xBC60, codename: "phelps_ii", name: "SoundLink Flex (2nd Gen)", category: Category::Speaker, config: None },
        BoseDevice { product_id: 0xBC61, codename: "mathers", name: "SoundLink Flex 2", category: Category::Speaker, config: None },
        BoseDevice { product_id: 0xBC63, codename: "stan", name: "SoundLink Flex SE 2", category: Category::Speaker, config: None }
    ]
}

/// All known BMAP-capable Bose devices.
pub fn catalog() -> (v: Vec<BoseDevice>)
    ensures
        v@ == catalog_spec(),
{
    let mut v: Vec<BoseDevice> = Vec::new();
    v.push(BoseDevice { product_id: 0x400C, codename: "wolfcastle", name: "QuietComfort 35", category: Category::Headphones, config: Some("qc35") });
    v.push(BoseDevice { product_id: 0x4015, codename: "stetson", name: "Hearphones", category: Category::Headphones, config: None });
    v.push(BoseDevice { product_id: 0x4020, codename: "baywolf", name: "QuietComfort 35 II", category: Category::Headphones, config: Some("qc35") });
    v.push(BoseDevice { product_id: 0x4021, codename: "atlas", name: "ProFlight", category: Category::Headphones, config: None });
    v.push(BoseDevice { product_id: 0x4024, codename: "goodyear", name: "Noise Cancelling Headphones 700", category: Category::Headphones, config: None });
    v.push(BoseDevice { product_id: 0x402B, codename: "beanie", name: "Hearphones II", category: Category::Headphones, config: None });
    v.push(BoseDevice { product_id: 0x4039, codename: "duran", name: "QuietComfort 45", category: Category::Headphones, config: Some("qc45") });
    v.push(BoseDevice { product_id: 0x4066, codename: "lonestarr", name: "QuietComfort Ultra Headphones", category: Category::Headphones, config: None });
    v.push(BoseDevice { product_id: 0x4075, codename: "prince", name: "QuietComfort Headphones", category: Category::Headphones, config: Some("qc_prince") });
    v.push(BoseDevice { product_id: 0x4082, codename: "wolverine", name: "QuietComfort Ultra Headphones (2nd Gen)", category: Category::Headphones, config: Some("qc_ultra2") });
    v.push(BoseDevice { product_id: 0x4012, codename: "ice", name: "SoundSport", category: Category::Earbuds, config: None });
    v.push(BoseDevice { product_id: 0x4013, codename: "flurry", name: "SoundSport Pulse", category: Category::Earbuds, config: None });
    v.push(BoseDevice { product_id: 0x4014, codename: "powder", name: "QuietControl 30", category: Category::Earbuds, config: None });
    v.push(BoseDevice { product_id: 0x4018, codename: "levi", name: "SoundSport Free", category: Category::Earbuds, config: None });
    v.push(BoseDevice { product_id: 0x402C, codename: "celine", name: "Frames", category: Category::Earbuds, config: None });
    v.push(BoseDevice { product_id: 0x402D, codename: "revel", name: "Sport Earbuds", category: Category::Earbuds, config: None });
    v.push(BoseDevice { product_id: 0x402F, codename: "lando", name: "QuietComfort Earbuds", category: Category::Earbuds, config: Some("qc_earbuds") });
    v.push(BoseDevice { product_id: 0x403A, codename: "gwen", name: "Sport Open Earbuds", category: Category::Earbuds, config: None });
    v.push(BoseDevice { product_id: 0x404C, codename: "celine_ii", name: "Frames (2nd Gen)", category: Category::Earbuds, config: None });
    v.push(BoseDevice { product_id: 0x4060, codename: "olivia", name: "Frames Tempo", category: Category::Earbuds, config: None });
    v.push(BoseDevice { product_id: 0x4061, codename: "vedder", name: "Frames", category: Category::Earbuds, config: None });
    v.push(BoseDevice { product_id: 0x4062, codename: "edith", name: "QuietComfort Ultra Earbuds (2nd Gen)", category: Category::Earbuds, config: Some("qc_ultra2") });
    v.push(BoseDevice { product_id: 0x4064, codename: "smalls", name: "QuietComfort Earbuds II", category: Category::Earbuds, config: None });
    v.push(BoseDevice { product_id: 0x4068, codename: "serena", name: "Ultra Open Earbuds", category: Category::Earbuds, config: None });
    v.push(BoseDevice { product_id: 0x4072, codename: "scotty", name: "QuietComfort Ultra Earbuds", category: Category::Earbuds, config: None });
    v.push(BoseDevice { product_id: 0x400A, codename: "isaac", name: "AE2 SoundLink", category: Category::Speaker, config: None });
    v.push(BoseDevice { product_id: 0x400D, codename: "foreman", name: "SoundLink Color II", category: Category::Speaker, config: None });
    v.push(BoseDevice { product_id: 0x4010, codename: "folgers", name: "SoundLink Revolve", category: Category::Speaker, config: None });
    v.push(BoseDevice { product_id: 0x4011, codename: "harvey", name: "SoundLink Revolve+", category: Category::Speaker, config: None });
    v.push(BoseDevice { product_id: 0x4017, codename: "kleos", name: "SoundWear", category: Category::Speaker, config: None });
    v.push(BoseDevice { product_id: 0x4022, codename: "minnow", name: "SoundLink Micro", category: Category::Speaker, config: None });
    v.push(BoseDevice { product_id: 0x4085, codename: "troy", name: "SoundLink Plus", category: Category::Speaker, config: None });
    v.push(BoseDevice { product_id: 0xA211, codename: "chibi", name: "S1 Pro", category: Category::Speaker, config: None });
    v.push(BoseDevice { product_id: 0xBC58, codename: "billie", name: "SoundLink Micro 2", category: Category::Speaker, config: None });
    v.push(BoseDevice { product_id: 0xBC59, codename: "phelps", name: "SoundLink Flex", category: Category::Speaker, config: None });
    v.push(BoseDevice { product_id: 0xBC60, codename: "phelps_ii", name: "SoundLink Flex (2nd Gen)", category: Category::Speaker, config: None });
    v.push(BoseDevice { product_id: 0xBC61, codename: "mathers", name: "SoundLink Flex 2", category: Category::Speaker, config: None });
    v.push(BoseDevice { product_id: 0xBC63, codename: "stan", name: "SoundLink Flex SE 2", category: Category::Speaker, config: None });
    assert(v@ =~= catalog_spec());
    v
}

/// The first catalog entry from position `i` on with this product ID.
pub open spec fn first_with_id(s: Seq<BoseDevice>, product_id: u16, i: int) -> Option<BoseDevice>
    decreases s.len() - i,
{
    if i < 0 || i >= s.len() {
        None
    } else if s[i].product_id == product_id {
        Some(s[i])
    } else {
        first_with_id(s, product_id, i + 1)
    }
}

/// The catalog entry of a product ID.
pub open spec fn lookup_spec(product_id: u16) -> Option<BoseDevice> {
    first_with_id(catalog_spec(), product_id, 0)
}

/// Look up a Bose device by product ID.
pub fn lookup_device(product_id: u16) -> (r: Option<BoseDevice>)
    ensures
        r == lookup_spec(product_id),
{
    let all = catalog();
    let mut i: usize = 0;
    while i < all.len()
        invariant
            all@ == catalog_spec(),
            i <= all@.len(),
            first_with_id(all@, product_id, i as int) == lookup_spec(product_id),
        decreases all@.len() - i,
    {
        if all[i].product_id == product_id {
            return Some(all[i]);
        }
        i = i + 1;
    }
    None
}

/// Whether a catalog entry has active library support.
pub open spec fn has_config(d: BoseDevice) -> bool {
    d.config is Some
}

/// All devices with active library support, in catalog order.
pub open spec fn supported_spec() -> Seq<BoseDevice> {
    catalog_spec().filter(|d: BoseDevice| has_config(d))
}

/// All devices with active library support.
pub fn supported_devices() -> (v: Vec<BoseDevice>)
    ensures
        v@ == supported_spec(),
{
    let all = catalog();
    let mut v: Vec<BoseDevice> = Vec::new();
    let mut i: usize = 0;
    assert(all@.take(0) =~= Seq::<BoseDevice>::empty());
    while i < all.len()
        invariant
            all@ == catalog_spec(),
            i <= all@.len(),
            v@ == all@.take(i as int).filter(|d: BoseDevice| has_config(d)),
        decreases all@.len() - i,
    {
        reveal_with_fuel(Seq::<BoseDevice>::filter, 1);
        assert(all@.take(i + 1).drop_last() =~= all@.take(i as int));
        if all[i].config.is_some() {
            v.push(all[i]);
        }
        i = i + 1;
    }
    assert(all@.take(all@.len() as int) =~= all@);
    v
}

/// Whether a product ID has an active library implementation.
pub open spec fn is_supported_spec(product_id: u16) -> bool {
    lookup_spec(product_id) matches Some(d) && d.config is Some
}

/// Check if a product ID has an active library implementation.
pub fn is_supported(product_id: u16) -> (r: bool)
    ensures
        r == is_supported_spec(product_id),
{
    match lookup_device(product_id) {
        Some(d) => d.config.is_some(),
        None => false,
    }
}

/// Get USB vendor/product ID pair for a known device.
pub fn usb_ids(product_id: u16) -> (r: Option<(u16, u16)>)
    ensures
        r == (if lookup_spec(product_id) is Some { Some((BOSE_USB_VID, product_id)) } else { None }),
{
    if lookup_device(product_id).is_some() {
        Some((BOSE_USB_VID, product_id))
    } else {
        None
    }
}

/// Four-digit upper-case hexadecimal rendering of a 16-bit value.
pub open spec fn hex4_text(v: u16) -> Seq<char> {
    hex_byte_text((v / 256) as u8, true) + hex_byte_text((v % 256) as u8, true)
}

/// The Bluetooth Modalias of a product: `bluetooth:v05A7pXXXXd0000`.
pub open spec fn modalias_text(product_id: u16) -> Seq<char> {
    "bluetooth:v"@ + hex4_text(BOSE_USB_VID) + "p"@ + hex4_text(product_id) + "d0000"@
}

fn push_hex4(out: &mut String, v: u16)
    ensures
        final(out)@ == old(out)@ + hex4_text(v),
{
    push_hex_byte(out, (v / 256) as u8, true);
    push_hex_byte(out, (v % 256) as u8, true);
}

/// The Bluetooth Modalias string of a known device.
pub fn modalias(product_id: u16) -> (r: Option<String>)
    ensures
        match r {
            Some(s) => lookup_spec(product_id) is Some && s@ == modalias_text(product_id),
            None => lookup_spec(product_id) is None,
        },
{
    if lookup_device(product_id).is_some() {
        let mut s = String::from_str("bluetooth:v");
        push_hex4(&mut s, BOSE_USB_VID);
        s.append("p");
        push_hex4(&mut s, product_id);
        s.append("d0000");
        Some(s)
    } else {
        None
    }
}

/// Looking up the product ID of any catalog entry finds that entry: no two
/// entries share a product ID, so the catalog is a map from product IDs.
pub proof fn lemma_lookup_finds_each_entry(i: int)
    requires
        0 <= i < catalog_spec().len(),
    ensures
        lookup_spec(catalog_spec()[i].product_id) == Some(catalog_spec()[i]),
{
    reveal_with_fuel(first_with_id, 40);
    let c = catalog_spec();
    if i == 0 {
        assert(lookup_spec(c[0].product_id) == Some(c[0]));
    } else if i == 1 {
        assert(lookup_spec(c[1].product_id) == Some(c[1]));
    } else if i == 2 {
        assert(lookup_spec(c[2].product_id) == Some(c[2]));
    } else if i == 3 {
        assert(lookup_spec(c[3].product_id) == Some(c[3]));
    } else if i == 4 {
        assert(lookup_spec(c[4].product_id) == Some(c[4]));
    } else if i == 5 {
        assert(lookup_spec(c[5].product_id) == Some(c[5]));
    } else if i == 6 {
        assert(lookup_spec(c[6].product_id) == Some(c[6]));
    } else if i == 7 {
        assert(lookup_spec(c[7].product_id) == Some(c[7]));
    } else if i == 8 {
        assert(lookup_spec(c[8].product_id) == Some(c[8]));
    } else if i == 9 {
        assert(lookup_spec(c[9].product_id) == Some(c[9]));
    } else if i == 10 {
        assert(lookup_spec(c[10].product_id) == Some(c[10]));
    } else if i == 11 {
        assert(lookup_spec(c[11].product_id) == Some(c[11]));
    } else if i == 12 {
        assert(lookup_spec(c[12].product_id) == Some(c[12]));
    } else if i == 13 {
        assert(lookup_spec(c[13].product_id) == Some(c[13]));
    } else if i == 14 {
        assert(lookup_spec(c[14].product_id) == Some(c[14]));
    } else if i == 15 {
        assert(lookup_spec(c[15].product_id) == Some(c[15]));
    } else if i == 16 {
        assert(lookup_spec(c[16].product_id) == Some(c[16]));
    } else if i == 17 {
        assert(lookup_spec(c[17].product_id) == Some(c[17]));
    } else if i == 18 {
        assert(lookup_spec(c[18].product_id) == Some(c[18]));
    } else if i == 19 {
        assert(lookup_spec(c[19].product_id) == Some(c[19]));
    } else if i == 20 {
        assert(lookup_spec(c[20].product_id) == Some(c[20]));
    } else if i == 21 {
        assert(lookup_spec(c[21].product_id) == Some(c[21]));
    } else if i == 22 {
        assert(lookup_spec(c[22].product_id) == Some(c[22]));
    } else if i == 23 {
        assert(lookup_spec(c[23].product_id) == Some(c[23]));
    } else if i == 24 {
        assert(lookup_spec(c[24].product_id) == Some(c[24]));
    } else if i == 25 {
        assert(lookup_spec(c[25].product_id) == Some(c[25]));
    } else if i == 26 {
        assert(lookup_spec(c[26].product_id) == Some(c[26]));
    } else if i == 27 {
        assert(lookup_spec(c[27].product_id) == Some(c[27]));
    } else if i == 28 {
        assert(lookup_spec(c[28].product_id) == Some(c[28]));
    } else if i == 29 {
        assert(lookup_spec(c[29].product_id) == Some(c[29]));
    } else if i == 30 {
        assert(lookup_spec(c[30].product_id) == Some(c[30]));
    } else if i == 31 {
        assert(lookup_spec(c[31].product_id) == Some(c[31]));
    } else if i == 32 {
        assert(lookup_spec(c[32].product_id) == Some(c[32]));
    } else if i == 33 {
        assert(lookup_spec(c[33].product_id) == Some(c[33]));
    } else if i == 34 {
        assert(lookup_spec(c[34].product_id) == Some(c[34]));
    } else if i == 35 {
        assert(lookup_spec(c[35].product_id) == Some(c[35]));
    } else if i == 36 {
        assert(lookup_spec(c[36].product_id) == Some(c[36]));
    } else if i == 37 {
        assert(lookup_spec(c[37].product_id) == Some(c[37]));
    }
}

/// The device type names that have a feature table (see `devices::get_device`).
pub open spec fn known_device_type(name: Seq<char>) -> bool {
    ||| name == "qc_ultra2"@
    ||| name == "qc_ultra2_earbuds"@
    ||| name == "qc35"@
    ||| name == "qc_prince"@
    ||| name == "qc_earbuds"@
    ||| name == "qc45"@
    ||| name == "ultra_open"@
}

/// Every config key in the catalog names a device type that has a feature
/// table: `devices::get_device` finds a configuration for it.
pub proof fn lemma_catalog_configs_known(i: int)
    requires
        0 <= i < catalog_spec().len(),
        catalog_spec()[i].config is Some,
    ensures
        known_device_type(catalog_spec()[i].config.unwrap()@),
        !device_named(catalog_spec()[i].config.unwrap()@, None),
{
}

} // verus!

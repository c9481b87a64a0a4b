//! What is installed behind the connection point, as far as the decisions of
//! the daemon read it.

use vstd::prelude::*;

verus! {

/// One installed device.
#[derive(Debug)]
pub struct Asset {
    /// What it is called.
    pub id: String,
    /// Whether the arbiter decides a setpoint for it.
    pub controllable: bool,
    /// Whether the network operator may reduce it now.
    pub participates: bool,
}

/// The household's installation.
#[derive(Debug)]
pub struct Site {
    /// What the household is called.
    pub id: String,
    /// The devices, in the order they are listed.
    pub assets: Vec<Asset>,
}

/// Whether some device of a list has a name.
pub open spec fn lists(assets: Seq<Asset>, id: Seq<char>) -> bool {
    exists|i: int| 0 <= i < assets.len() && #[trigger] assets[i].id@ == id
}

/// Whether some device of a list can be reduced by the operator.
pub open spec fn any_participates(assets: Seq<Asset>) -> bool {
    exists|i: int| 0 <= i < assets.len() && (#[trigger] assets[i]).participates
}

impl Site {
    /// Whether the household has a device of that name.
    pub open spec fn holds(self, id: Seq<char>) -> bool {
        lists(self.assets@, id)
    }

    /// Whether the household has a device of that name.
    pub fn has(&self, id: &str) -> (r: bool)
        ensures
            r == self.holds(id@),
    {
        let mut i: usize = 0;
        while i < self.assets.len()
            invariant
                i <= self.assets@.len(),
                forall|j: int| 0 <= j < i ==> #[trigger] self.assets@[j].id@ != id@,
            decreases self.assets@.len() - i,
        {
            if crate::text::same(self.assets[i].id.as_str(), id) {
                assert(self.assets@[i as int].id@ == id@);
                return true;
            }
            i = i + 1;
        }
        false
    }

    /// Whether the household takes part in grid-oriented control.
    pub fn takes_part(&self) -> (r: bool)
        ensures
            r == any_participates(self.assets@),
    {
        let mut i: usize = 0;
        while i < self.assets.len()
            invariant
                i <= self.assets@.len(),
                forall|j: int| 0 <= j < i ==> !(#[trigger] self.assets@[j]).participates,
            decreases self.assets@.len() - i,
        {
            if self.assets[i].participates {
                return true;
            }
            i = i + 1;
        }
        false
    }
}

// ── What a household is described by ────────────────────────────────────────

/// A figure in millionths of the unit its name carries. A millionth of a kilowatt
/// is a milliwatt, so nothing is lost on the way to the devices.
pub type Micros = i64;

/// The size of a whole, in millionths.
pub const WHOLE: i64 = 1_000_000;

/// Whether a share is one: nothing, everything or between the two.
pub open spec fn is_fraction(share: int) -> bool {
    0 <= share <= WHOLE
}

/// Two figures multiplied; their product always fits.
pub(crate) fn product(a: i64, b: i64) -> (p: i128)
    ensures
        p == a * b,
        -0x4000_0000_0000_0000_0000_0000_0000_0000 <= p
            <= 0x4000_0000_0000_0000_0000_0000_0000_0000,
{
    assert(-0x4000_0000_0000_0000_0000_0000_0000_0000 <= a * b
        <= 0x4000_0000_0000_0000_0000_0000_0000_0000) by (nonlinear_arith)
        requires
            -0x8000_0000_0000_0000 <= a <= 0x7fff_ffff_ffff_ffff,
            -0x8000_0000_0000_0000 <= b <= 0x7fff_ffff_ffff_ffff,
    ;
    a as i128 * b as i128
}

/// What the feed-in rules need to know of a roof's metering.
#[derive(Debug, Clone, Copy, PartialEq, Eq, Structural)]
pub struct Para9Status {
    /// The day an intelligent metering system was fitted, where one was.
    pub imsys_since: Option<i32>,
    /// Whether the feed-in cap was lifted by the operator's own test.
    pub relieved: bool,
}

/// The roof.
#[derive(Debug, Clone, Copy, PartialEq, Eq, Structural)]
pub struct PvConfig {
    /// Installed power, kWp.
    pub kwp: Micros,
    /// The inverter's limit, kW.
    pub ac_nominal: Micros,
    /// What the feed-in rules need to know.
    pub para9: Para9Status,
}

/// The battery.
#[derive(Debug, Clone, Copy, PartialEq, Eq, Structural)]
pub struct BatteryConfig {
    /// Capacity, kWh.
    pub kwh: Micros,
    /// Power in both directions, kW.
    pub power: Micros,
    /// The share held back for a power cut.
    pub reserve_soc: Micros,
    /// What throughput costs in wear, €/kWh.
    pub wear_eur_per_kwh: Micros,
}

/// The charge point.
#[derive(Debug, Clone, Copy, PartialEq, Eq, Structural)]
pub struct EvseConfig {
    /// Its largest current per conductor, A.
    pub max_current: Micros,
    /// Whether it can drop to a single conductor.
    pub switchable: bool,
    /// Where the household asks its car to stop.
    pub charge_limit: Option<Micros>,
}

/// How a heat pump takes instructions.
#[derive(Debug, Clone, Copy, PartialEq, Eq, Structural)]
pub enum HeatPumpControl {
    /// Two relay contacts.
    SgReady,
    /// A continuous ceiling.
    PowerCeiling,
    /// Discrete modes.
    OperationModes,
    /// A process the box starts and stops.
    Compressor,
}

/// The heat pump.
#[derive(Debug, Clone, Copy, PartialEq, Eq, Structural)]
pub struct HeatPumpConfig {
    /// Electrical power at full output, kW.
    pub power: Micros,
    /// Whether it modulates.
    pub modulating: bool,
    /// The bottom of the comfort band, °C.
    pub comfort_min_c: Micros,
    /// The top of it, °C.
    pub comfort_max_c: Micros,
    /// How it takes instructions.
    pub control: HeatPumpControl,
}

/// The hot-water tank.
#[derive(Debug, Clone, Copy, PartialEq, Eq, Structural)]
pub struct DhwConfig {
    /// Its volume, litres.
    pub litres: Micros,
    /// Its heater, kW.
    pub heater: Micros,
}

/// Where the house is.
#[derive(Debug, Clone, Copy, PartialEq, Eq, Structural)]
pub struct GeoPoint {
    /// Degrees north.
    pub latitude: Micros,
    /// Degrees east.
    pub longitude: Micros,
    /// Metres above the sea.
    pub altitude_m: Micros,
}

/// A household: what is there, and nothing that is not.
#[derive(Debug)]
pub struct HouseholdConfig {
    /// The roof, where there is one.
    pub pv: Option<PvConfig>,
    /// The battery, where there is one.
    pub battery: Option<BatteryConfig>,
    /// The charge point, where there is one.
    pub evse: Option<EvseConfig>,
    /// The heat pump, where there is one.
    pub heat_pump: Option<HeatPumpConfig>,
    /// The hot-water tank, where there is one.
    pub dhw: Option<DhwConfig>,
    /// The main fuse, A per conductor.
    pub fuse: Micros,
    /// Where the house is.
    pub location: GeoPoint,
    /// What a shiftable appliance draws, kW, one quarter hour after the other.
    pub dishwasher: Option<Vec<Micros>>,
}

/// A name is found in two lists taken together exactly where it is found in one of
/// them, and in a list of one device exactly where that is its name.
pub proof fn a_name_is_found_where_it_stands(
    a: Seq<Asset>,
    b: Seq<Asset>,
    device: Asset,
    id: Seq<char>,
)
    ensures
        lists(a + b, id) <==> lists(a, id) || lists(b, id),
        lists(seq![device], id) <==> device.id@ == id,
        !lists(Seq::empty(), id),
{
    if lists(a + b, id) {
        let i = choose|i: int| 0 <= i < (a + b).len() && #[trigger] (a + b)[i].id@ == id;
        if i < a.len() {
            assert(a[i].id@ == id);
        } else {
            assert(b[i - a.len()].id@ == id);
        }
    }
    if lists(a, id) {
        let i = choose|i: int| 0 <= i < a.len() && #[trigger] a[i].id@ == id;
        assert((a + b)[i].id@ == id);
    }
    if lists(b, id) {
        let i = choose|i: int| 0 <= i < b.len() && #[trigger] b[i].id@ == id;
        assert((a + b)[a.len() + i].id@ == id);
    }
    assert(seq![device][0] == device);
}

/// A household takes part exactly where one of its devices does: with a device more it
/// does where it did or where that device does.
pub proof fn a_household_takes_part_by_its_devices(a: Seq<Asset>, device: Asset)
    ensures
        any_participates(a.push(device)) <==> any_participates(a) || device.participates,
        !any_participates(Seq::empty()),
{
    let more = a.push(device);
    if any_participates(more) {
        let i = choose|i: int| 0 <= i < more.len() && (#[trigger] more[i]).participates;
        if i < a.len() {
            assert(a[i].participates);
        }
    }
    if any_participates(a) {
        let i = choose|i: int| 0 <= i < a.len() && (#[trigger] a[i]).participates;
        assert(more[i].participates);
    }
    if device.participates {
        assert(more[a.len() as int].participates);
    }
}

} // verus!

//! The catalog of overlay widgets offered to the settings app.

use vstd::prelude::*;

verus! {

/// One widget of the catalog.
#[derive(Debug, Clone, Copy, PartialEq, Eq)]
pub struct WidgetDefinition {
    pub id: &'static str,
    pub name: &'static str,
    pub category: &'static str,
    pub description: &'static str,
    pub data_requirement: &'static str,
}

/// The catalog rows: id, name, category, description, data requirement.
pub open spec fn catalog_spec() -> Seq<(Seq<char>, Seq<char>, Seq<char>, Seq<char>, Seq<char>)> {
    seq![
        ("telemetry"@, "Gear and RPM"@, "HUD"@, "Gear, speed and engine speed."@, "fast telemetry"@),
        ("speed"@, "Speed"@, "HUD"@, "Dedicated speed readout with selectable units."@, "fast telemetry"@),
        ("rpm"@, "RPM and shift lights"@, "HUD"@, "Engine-speed bar and shift warning."@, "fast telemetry"@),
        ("inputs"@, "Pedals"@, "HUD"@, "Throttle, brake and clutch bars."@, "fast telemetry"@),
        ("steering"@, "Steering"@, "HUD"@, "Steering position indicator."@, "fast telemetry"@),
        ("input_history"@, "Input trace"@, "Analysis"@, "Bounded trace of driver inputs."@, "fast telemetry history"@),
        ("lap_timing"@, "Lap timing"@, "Timing"@, "Current, last, session and personal-best timing."@, "lap engine"@),
        ("timing"@, "Live delta"@, "Timing"@, "Reference delta and predicted lap."@, "lap engine"@),
        ("sectors"@, "Sectors"@, "Timing"@, "S1, S2 and S3 when officially exposed."@, "official scoring"@),
        ("mini_sectors"@, "Mini sectors"@, "Timing"@, "Progress slices against the selected reference."@, "lap engine"@),
        ("lap_history"@, "Lap history"@, "Timing"@, "Recent valid and invalid laps."@, "lap engine"@),
        ("position"@, "Position"@, "Race"@, "Player position and lap."@, "official scoring"@),
        ("relative"@, "Relative"@, "Race"@, "Nearby cars from official scoring data."@, "official scoring"@),
        ("standings"@, "Standings"@, "Race"@, "Configurable classification table."@, "official scoring"@),
        ("flags"@, "Flags"@, "Race"@, "Session and local flag status."@, "official scoring"@),
        ("fuel"@, "Fuel"@, "Fuel"@, "Fuel quantity, consumption and remaining estimate."@, "official vehicle data"@),
        ("tyres"@, "Tyres"@, "Tyres"@, "Pressure, temperature, wear and grip by wheel."@, "official wheel data"@),
        ("brakes"@, "Brakes"@, "Brakes"@, "Brake temperature, pressure and bias."@, "official wheel data"@),
        ("electronics"@, "TC and ABS"@, "Electronics"@, "Electronic-aid state and settings."@, "official vehicle data"@),
        ("energy"@, "Hybrid energy"@, "Energy"@, "Battery, virtual energy and hybrid state."@, "official vehicle data"@),
        ("engine"@, "Engine"@, "Car"@, "Temperatures, boost and limiter state."@, "official vehicle data"@),
        ("damage"@, "Damage"@, "Car"@, "Damage, tyre and impact warnings."@, "official vehicle data"@),
        ("weather"@, "Weather"@, "Utility"@, "Track and ambient conditions."@, "official session data"@),
        ("coaching"@, "Coaching"@, "Analysis"@, "Reference-lap braking, throttle, speed and gear hints."@, "lap engine"@),
        ("performance"@, "Performance monitor"@, "Utility"@, "Overlay acquisition and rendering health."@, "runtime"@)
    ]
}

pub open spec fn catalog_ids() -> Seq<Seq<char>> {
    catalog_spec().map_values(|row: (Seq<char>, Seq<char>, Seq<char>, Seq<char>, Seq<char>)| row.0)
}

pub open spec fn definition_view(d: WidgetDefinition) -> (Seq<char>, Seq<char>, Seq<char>, Seq<char>, Seq<char>) {
    (d.id@, d.name@, d.category@, d.description@, d.data_requirement@)
}

/// The widget catalog, in display order.
pub fn widget_catalog() -> (catalog: Vec<WidgetDefinition>)
    ensures
        catalog.len() == catalog_spec().len(),
        forall|i: int| 0 <= i < catalog.len() ==> definition_view(#[trigger] catalog@[i]) == catalog_spec()[i],
{
    let mut catalog: Vec<WidgetDefinition> = Vec::new();
    catalog.push(WidgetDefinition { id: "telemetry", name: "Gear and RPM", category: "HUD", description: "Gear, speed and engine speed.", data_requirement: "fast telemetry" });
    catalog.push(WidgetDefinition { id: "speed", name: "Speed", category: "HUD", description: "Dedicated speed readout with selectable units.", data_requirement: "fast telemetry" });
    catalog.push(WidgetDefinition { id: "rpm", name: "RPM and shift lights", category: "HUD", description: "Engine-speed bar and shift warning.", data_requirement: "fast telemetry" });
    catalog.push(WidgetDefinition { id: "inputs", name: "Pedals", category: "HUD", description: "Throttle, brake and clutch bars.", data_requirement: "fast telemetry" });
    catalog.push(WidgetDefinition { id: "steering", name: "Steering", category: "HUD", description: "Steering position indicator.", data_requirement: "fast telemetry" });
    catalog.push(WidgetDefinition { id: "input_history", name: "Input trace", category: "Analysis", description: "Bounded trace of driver inputs.", data_requirement: "fast telemetry history" });
    catalog.push(WidgetDefinition { id: "lap_timing", name: "Lap timing", category: "Timing", description: "Current, last, session and personal-best timing.", data_requirement: "lap engine" });
    catalog.push(WidgetDefinition { id: "timing", name: "Live delta", category: "Timing", description: "Reference delta and predicted lap.", data_requirement: "lap engine" });
    catalog.push(WidgetDefinition { id: "sectors", name: "Sectors", category: "Timing", description: "S1, S2 and S3 when officially exposed.", data_requirement: "official scoring" });
    catalog.push(WidgetDefinition { id: "mini_sectors", name: "Mini sectors", category: "Timing", description: "Progress slices against the selected reference.", data_requirement: "lap engine" });
    catalog.push(WidgetDefinition { id: "lap_history", name: "Lap history", category: "Timing", description: "Recent valid and invalid laps.", data_requirement: "lap engine" });
    catalog.push(WidgetDefinition { id: "position", name: "Position", category: "Race", description: "Player position and lap.", data_requirement: "official scoring" });
    catalog.push(WidgetDefinition { id: "relative", name: "Relative", category: "Race", description: "Nearby cars from official scoring data.", data_requirement: "official scoring" });
    catalog.push(WidgetDefinition { id: "standings", name: "Standings", category: "Race", description: "Configurable classification table.", data_requirement: "official scoring" });
    catalog.push(WidgetDefinition { id: "flags", name: "Flags", category: "Race", description: "Session and local flag status.", data_requirement: "official scoring" });
    catalog.push(WidgetDefinition { id: "fuel", name: "Fuel", category: "Fuel", description: "Fuel quantity, consumption and remaining estimate.", data_requirement: "official vehicle data" });
    catalog.push(WidgetDefinition { id: "tyres", name: "Tyres", category: "Tyres", description: "Pressure, temperature, wear and grip by wheel.", data_requirement: "official wheel data" });
    catalog.push(WidgetDefinition { id: "brakes", name: "Brakes", category: "Brakes", description: "Brake temperature, pressure and bias.", data_requirement: "official wheel data" });
    catalog.push(WidgetDefinition { id: "electronics", name: "TC and ABS", category: "Electronics", description: "Electronic-aid state and settings.", data_requirement: "official vehicle data" });
    catalog.push(WidgetDefinition { id: "energy", name: "Hybrid energy", category: "Energy", description: "Battery, virtual energy and hybrid state.", data_requirement: "official vehicle data" });
    catalog.push(WidgetDefinition { id: "engine", name: "Engine", category: "Car", description: "Temperatures, boost and limiter state.", data_requirement: "official vehicle data" });
    catalog.push(WidgetDefinition { id: "damage", name: "Damage", category: "Car", description: "Damage, tyre and impact warnings.", data_requirement: "official vehicle data" });
    catalog.push(WidgetDefinition { id: "weather", name: "Weather", category: "Utility", description: "Track and ambient conditions.", data_requirement: "official session data" });
    catalog.push(WidgetDefinition { id: "coaching", name: "Coaching", category: "Analysis", description: "Reference-lap braking, throttle, speed and gear hints.", data_requirement: "lap engine" });
    catalog.push(WidgetDefinition { id: "performance", name: "Performance monitor", category: "Utility", description: "Overlay acquisition and rendering health.", data_requirement: "runtime" });
    assert(catalog@.map_values(|d: WidgetDefinition| definition_view(d)) =~= catalog_spec());
    proof {
        assert forall|i: int| 0 <= i < catalog.len() implies definition_view(#[trigger] catalog@[i]) == catalog_spec()[i] by {
            assert(catalog@.map_values(|d: WidgetDefinition| definition_view(d))[i] == definition_view(catalog@[i]));
        }
    }
    catalog
}

/// No two catalog widgets share an id.
pub proof fn lemma_catalog_ids_unique()
    ensures
        forall|i: int, j: int| 0 <= i < j < catalog_ids().len() ==> catalog_ids()[i] != catalog_ids()[j],
{
    reveal_strlit("telemetry");
    reveal_strlit("speed");
    reveal_strlit("rpm");
    reveal_strlit("inputs");
    reveal_strlit("steering");
    reveal_strlit("input_history");
    reveal_strlit("lap_timing");
    reveal_strlit("timing");
    reveal_strlit("sectors");
    reveal_strlit("mini_sectors");
    reveal_strlit("lap_history");
    reveal_strlit("position");
    reveal_strlit("relative");
    reveal_strlit("standings");
    reveal_strlit("flags");
    reveal_strlit("fuel");
    reveal_strlit("tyres");
    reveal_strlit("brakes");
    reveal_strlit("electronics");
    reveal_strlit("energy");
    reveal_strlit("engine");
    reveal_strlit("damage");
    reveal_strlit("weather");
    reveal_strlit("coaching");
    reveal_strlit("performance");
    assert(catalog_ids() =~= seq!["telemetry"@, "speed"@, "rpm"@, "inputs"@, "steering"@, "input_history"@, "lap_timing"@, "timing"@, "sectors"@, "mini_sectors"@, "lap_history"@, "position"@, "relative"@, "standings"@, "flags"@, "fuel"@, "tyres"@, "brakes"@, "electronics"@, "energy"@, "engine"@, "damage"@, "weather"@, "coaching"@, "performance"@]);
    let ids = catalog_ids();
    assert forall|i: int, j: int| 0 <= i < j < ids.len() implies ids[i] != ids[j] by {
        if ids[i] == ids[j] {
            assert(ids[i].len() == ids[j].len());
            assert(ids[i][0] == ids[j][0]);
            assert(ids[i][ids[i].len() - 1] == ids[j][ids[j].len() - 1]);
        }
    }
}

} // verus!

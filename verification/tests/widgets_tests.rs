use std::collections::BTreeSet;

use hashoverlay::widgets::widget_catalog;

#[test]
fn catalog_has_unique_ids_and_core_categories() {
    let catalog = widget_catalog();
    let ids = catalog.iter().map(|widget| widget.id).collect::<BTreeSet<_>>();

    assert_eq!(ids.len(), catalog.len());
    assert!(catalog.iter().any(|widget| widget.id == "fuel"));
    assert!(catalog.iter().any(|widget| widget.category == "Timing"));
    assert!(catalog.iter().any(|widget| widget.category == "Race"));
}

#[test]
fn catalog_starts_with_the_hud_widgets() {
    let catalog = widget_catalog();
    assert_eq!(catalog.len(), 25);
    assert_eq!(catalog[0].id, "telemetry");
    assert_eq!(catalog[0].category, "HUD");
    assert_eq!(catalog[24].id, "performance");
}

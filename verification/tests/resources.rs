use sunscatter::colony::resources::ResourceType;

#[test]
fn resource_all_lists_each_type_once() {
    let all = ResourceType::all();
    assert_eq!(all.len(), 28);
    for (i, a) in all.iter().enumerate() {
        for (j, b) in all.iter().enumerate() {
            assert_eq!(i == j, a == b);
        }
    }
    assert_eq!(all[0], ResourceType::MetalOre);
    assert_eq!(all[25], ResourceType::MirrorSegment);
    assert_eq!(all[26], ResourceType::CollectorStation);
    assert_eq!(all[27], ResourceType::Food);
    assert_eq!(ResourceType::from_display_name("Mirror Segment"), Some(ResourceType::MirrorSegment));
    assert_eq!(ResourceType::from_display_name("Collector Station"), Some(ResourceType::CollectorStation));
}

#[test]
fn resource_display_names() {
    assert_eq!(ResourceType::MetalOre.display_name(), "Metal Ore");
    assert_eq!(ResourceType::AtmosphericCo2.display_name(), "Atmospheric CO₂");
    assert_eq!(ResourceType::Rp1.display_name(), "RP-1");
    assert_eq!(ResourceType::Lox.display_name(), "LOX");
    assert_eq!(ResourceType::Helium3.display_name(), "Helium-3");
    assert_eq!(ResourceType::HighTempAlloys.display_name(), "High-Temp Alloys");
}

#[test]
fn resource_display_name_round_trip() {
    for &rt in ResourceType::all() {
        assert_eq!(ResourceType::from_display_name(rt.display_name()), Some(rt));
    }
}

#[test]
fn resource_unknown_name_is_none() {
    assert_eq!(ResourceType::from_display_name("Unobtainium"), None);
    assert_eq!(ResourceType::from_display_name(""), None);
    assert_eq!(ResourceType::from_display_name("metal ore"), None);
    assert_eq!(ResourceType::from_display_name("Atmospheric CO2"), None);
}

#[test]
fn resource_ship_fuels() {
    let fuels: Vec<ResourceType> = ResourceType::all().iter().copied().filter(|r| r.is_ship_fuel()).collect();
    assert_eq!(
        fuels,
        vec![
            ResourceType::Rp1,
            ResourceType::Methane,
            ResourceType::LiquidHydrogen,
            ResourceType::Lox,
            ResourceType::Xenon,
            ResourceType::Helium3,
            ResourceType::Antimatter,
        ]
    );
    assert!(!ResourceType::Deuterium.is_ship_fuel());
    assert!(!ResourceType::Water.is_ship_fuel());
}

//! Textual descriptions of cells and the wind compass.

use wildfire::terrain::{TerrainCellState, TerrainType, WindVec};
use wildfire::wind::WindDirection;

#[test]
fn terrain_names() {
    assert_eq!(TerrainType::Dirt.name(), "Earth");
    assert_eq!(TerrainType::Grassland.name(), "Grass");
    assert_eq!(TerrainType::Tree.name(), "Forest");
    assert_eq!(TerrainType::Smoldering.name(), "Burnt Ground");
}

#[test]
fn cell_descriptions() {
    let cell = |t, m, f| TerrainCellState::new(t, WindVec::zero(), m, f);
    assert_eq!(cell(TerrainType::Grassland, 100, 2).describe(), "Short Dry Grass");
    assert_eq!(cell(TerrainType::Grassland, 500, 5).describe(), "Grass");
    assert_eq!(cell(TerrainType::Grassland, 900, 9).describe(), "Long Wet Grass");
    assert_eq!(cell(TerrainType::Tree, 100, 2).describe(), "Dry Forest");
    assert_eq!(cell(TerrainType::Tree, 500, 20).describe(), "Forest");
    assert_eq!(cell(TerrainType::Fire, 0, 3).describe(), "Fire");
    assert_eq!(cell(TerrainType::Stone, 0, 3).describe(), "Stone");
    assert_eq!(cell(TerrainType::Building, 0, 3).describe(), "Building");
}

#[test]
fn compass_octants() {
    let at = |angle| WindDirection::new(angle, 10_000, 0, 0).compass();
    assert_eq!(at(0), "E");
    assert_eq!(at(22_499), "E");
    assert_eq!(at(22_500), "NE");
    assert_eq!(at(90_000), "N");
    assert_eq!(at(180_000), "W");
    assert_eq!(at(270_000), "S");
    assert_eq!(at(315_000), "SE");
    assert_eq!(at(337_500), "E");
    assert_eq!(at(359_999), "E");
}

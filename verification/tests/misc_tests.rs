use irox_sirf::angle::AngleUnits;
use irox_sirf::carto::SphericalMercatorProjection;
use irox_sirf::color::{Rgba, WithAlpha};
use irox_sirf::fields::{FieldInfo, Fields};
use irox_sirf::gpsd::{RawMode, Watch};

#[test]
fn tiles_across_the_map() {
    assert_eq!(SphericalMercatorProjection::new(0).tiles_across(), Some(1));
    assert_eq!(SphericalMercatorProjection::new(1).tiles_across(), Some(2));
    assert_eq!(SphericalMercatorProjection::new(18).tiles_across(), Some(262_144));
    assert_eq!(SphericalMercatorProjection::new(31).tiles_across(), Some(0x8000_0000));
    assert_eq!(SphericalMercatorProjection::new(32).tiles_across(), None);
    assert_eq!(SphericalMercatorProjection::new(255).tiles_across(), None);
    assert_eq!(SphericalMercatorProjection::new(7).zoom_level(), 7);
}

#[test]
fn the_alpha_channel_is_replaced_alone() {
    let c = Rgba { r: 1, g: 2, b: 3, a: 4 };
    assert_eq!(c.with_alpha(200), Rgba { r: 1, g: 2, b: 3, a: 200 });
    assert_eq!(c.with_alpha(0).with_alpha(4), c);
}

#[test]
fn fields_have_labels_and_names() {
    let all = [
        (Fields::Name, "Name", "Name"),
        (Fields::Version, "Version", "Version"),
        (Fields::GitVersion, "Git Version", "GitVersion"),
        (Fields::ModuleRelativePath, "Module Relative Path", "ModuleRelativePath"),
        (Fields::ModuleAbsolutePath, "Module Absolute Path", "ModuleAbsolutePath"),
        (Fields::ModuleRelativeManifestPath, "Manifest Relative Path", "ModuleRelativeManifestPath"),
        (Fields::ModuleAbsoluteManifestPath, "Manifest Absolute Path", "ModuleAbsoluteManifestPath"),
    ];
    for (field, label, name) in all {
        assert_eq!(field.label(), label);
        assert_eq!(field.to_string(), label);
        assert_eq!(field.name(), name);
    }
    let info = FieldInfo { field: Fields::Version, value: Some(String::from("0.1.0")) };
    assert_eq!(info.field.label(), "Version");
    assert_eq!(info.value.as_deref(), Some("0.1.0"));
}

#[test]
fn raw_modes_have_codes() {
    assert_eq!(RawMode::AsciiDumped.code(), 1);
    assert_eq!(RawMode::RawBinary.code(), 2);
    assert_eq!(RawMode::from_code(1), Some(RawMode::AsciiDumped));
    assert_eq!(RawMode::from_code(2), Some(RawMode::RawBinary));
    assert_eq!(RawMode::from_code(0), None);
    assert_eq!(RawMode::from_code(3), None);
    let watch = Watch {
        enable: Some(true),
        json: Some(true),
        nmea: None,
        raw: Some(RawMode::RawBinary),
        scaled: None,
        split24: None,
        pps: Some(false),
        remote: None,
    };
    assert_eq!(watch.raw.map(|m| m.code()), Some(2));
}

#[test]
fn angle_units_per_turn() {
    assert_eq!(AngleUnits::default(), AngleUnits::Radians);
    assert_eq!(AngleUnits::Radians.units_per_turn(), None);
    assert_eq!(AngleUnits::Degrees.units_per_turn(), Some(360));
    assert_eq!(AngleUnits::Minutes.units_per_turn(), Some(21_600));
    assert_eq!(AngleUnits::Seconds.units_per_turn(), Some(1_296_000));
    assert_eq!(AngleUnits::Revolutions.units_per_turn(), Some(1));
    assert_eq!(AngleUnits::Mils.units_per_turn(), Some(6_400));
}

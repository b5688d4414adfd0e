use renderer::import_config::{Config, Data};
use renderer::lighting::{
    RadiometricUnit, SAMPLE_COUNT, SAMPLE_WIDTH_NM, SPECTRUM_MAX_NM, SPECTRUM_MIN_NM,
    bin_wavelength, wavelength_bin,
};
use renderer::scene::{Rendermode, ShaderMode};

#[test]
fn wavelength_bin_matches_sample_indices() {
    assert_eq!(wavelength_bin(770), 39);
    assert_eq!(wavelength_bin(640), 26);
    assert_eq!(wavelength_bin(380), 0);
    assert_eq!(wavelength_bin(389), 0);
    assert_eq!(wavelength_bin(550), 17);
}

#[test]
fn bin_wavelength_inverts_the_index() {
    assert_eq!(bin_wavelength(0), 380);
    assert_eq!(bin_wavelength(26), 640);
    assert_eq!(bin_wavelength(39), 770);
    for bin in 0..SAMPLE_COUNT {
        assert_eq!(wavelength_bin(bin_wavelength(bin)), bin);
    }
}

#[test]
fn spectrum_constants_describe_forty_ten_nanometre_bins() {
    assert_eq!(SPECTRUM_MIN_NM, 380);
    assert_eq!(SPECTRUM_MAX_NM, 780);
    assert_eq!(SAMPLE_WIDTH_NM, 10);
    assert_eq!(SAMPLE_COUNT, 40);
    assert_eq!(
        (SPECTRUM_MAX_NM - SPECTRUM_MIN_NM) / SAMPLE_WIDTH_NM,
        SAMPLE_COUNT as u32
    );
}

#[test]
fn radiometric_units_are_distinct() {
    assert_eq!(RadiometricUnit::Flux, RadiometricUnit::Flux);
    assert_ne!(RadiometricUnit::Flux, RadiometricUnit::Radiance);
    assert_ne!(RadiometricUnit::Intensity, RadiometricUnit::Irradiance);
}

#[test]
fn render_modes_compare_by_variant() {
    assert_eq!(Rendermode::ThreadedRayTrace, Rendermode::ThreadedRayTrace);
    assert_ne!(Rendermode::ThreadedRayTrace, Rendermode::_Rasterize);
    assert_ne!(ShaderMode::Lit, ShaderMode::_Solid);
}

#[test]
fn config_carries_its_plain_values() {
    let data = Data {
        config: Config {
            ip: String::from("127.0.0.1"),
            port: 8080,
        },
    };
    assert_eq!(data.config.ip, "127.0.0.1");
    assert_eq!(data.config.port, 8080);
}

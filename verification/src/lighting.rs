//! Wavelength bookkeeping for the spectral light model.
//!
//! A spectrum is a fixed discretisation of power over wavelength: 40 samples
//! covering 380 nm to 780 nm at 10 nm steps, tagged with the radiometric
//! quantity being measured.  The sample values themselves are floating-point
//! and live with the driver; the bin arithmetic that indexes them is verified
//! here.

use vstd::prelude::*;

verus! {

/// Lowest wavelength a spectrum covers, in nanometres.
pub const SPECTRUM_MIN_NM: u32 = 380;

/// One past the highest wavelength a spectrum covers, in nanometres.
pub const SPECTRUM_MAX_NM: u32 = 780;

/// Width of the band of wavelengths covered by a single sample, in nanometres.
pub const SAMPLE_WIDTH_NM: u32 = 10;

/// Number of samples in a spectrum.
pub const SAMPLE_COUNT: usize = 40;

/// The radiometric quantity a spectrum measures.
///
/// Radiant flux is total radiation (W), radiant intensity is radiation per
/// solid angle (W/sr), irradiance is radiation per area (W/m2), and radiance
/// is radiation per solid angle per area (W/sr/m2).
#[derive(Clone, Copy, Debug, PartialEq, Eq, Structural)]
pub enum RadiometricUnit {
    Flux,
    Intensity,
    Irradiance,
    Radiance,
}

/// Index of the sample bin that holds wavelength `lambda_nm`.
pub open spec fn spec_wavelength_bin(lambda_nm: int) -> int {
    (lambda_nm - 380) / 10
}

/// Wavelength at which sample bin `bin` starts.
pub open spec fn spec_bin_wavelength(bin: int) -> int {
    380 + 10 * bin
}

/// Sample bin that holds wavelength `lambda_nm`: `(lambda - 380) / 10`.
pub fn wavelength_bin(lambda_nm: u32) -> (bin: usize)
    requires
        SPECTRUM_MIN_NM <= lambda_nm < SPECTRUM_MAX_NM,
    ensures
        bin == spec_wavelength_bin(lambda_nm as int),
        bin < SAMPLE_COUNT,
{
    ((lambda_nm - 380) / 10) as usize
}

/// Wavelength at which sample bin `bin` starts: `380 + 10 * bin`.
pub fn bin_wavelength(bin: usize) -> (lambda_nm: u32)
    requires
        bin < SAMPLE_COUNT,
    ensures
        lambda_nm == spec_bin_wavelength(bin as int),
        SPECTRUM_MIN_NM <= lambda_nm < SPECTRUM_MAX_NM,
{
    380 + 10 * (bin as u32)
}

/// A value stored for a wavelength is read back for that wavelength: on every
/// 10 nm boundary between 380 nm and 780 nm, the bin index determined by the
/// wavelength maps back to the same wavelength, so storing into and reading
/// from a spectrum at equal wavelengths touch the same sample.
pub proof fn lemma_wavelength_bin_round_trip(lambda_nm: int)
    requires
        380 <= lambda_nm < 780,
        lambda_nm % 10 == 0,
    ensures
        0 <= spec_wavelength_bin(lambda_nm) < 40,
        spec_bin_wavelength(spec_wavelength_bin(lambda_nm)) == lambda_nm,
{
}

/// Every sample bin starts on the wavelength that maps back to it.
pub proof fn lemma_bin_wavelength_round_trip(bin: int)
    requires
        0 <= bin < 40,
    ensures
        spec_wavelength_bin(spec_bin_wavelength(bin)) == bin,
{
}

} // verus!

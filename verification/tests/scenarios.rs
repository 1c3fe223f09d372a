// End-to-end scenarios: the verified planning, packing and peak logic
// driving the realfft kernel, the way a host embeds the library. The
// kernel is unnormalized in both directions, so the reconstruction
// divides by the output length; with that convention the inverse undoes
// the forward transform.

use realfft::RealFftPlanner;
use rustfft::num_complex::Complex;

use sound::peak::peak_bin;
use sound::plan::{plan_forward, PlanCache};
use sound::spectrum::{inverse_output_len, pack_spectrum, unpack_spectrum};

const TOL: f32 = 1e-4;

fn approx(actual: &[f32], expected: &[f32], tol: f32) -> bool {
    actual.len() == expected.len()
        && actual
            .iter()
            .zip(expected.iter())
            .all(|(a, e)| (a - e).abs() <= tol)
}

/// Forward transform of `signal` through the library's plan and packing:
/// the packed spectrum and the magnitude vector, as the engine hands them out.
fn run_forward(signal: &[f32]) -> (Vec<f32>, Vec<f32>) {
    let plan = plan_forward(signal.len()).unwrap();
    let mut planner = RealFftPlanner::<f32>::new();
    let kernel = planner.plan_fft_forward(plan.length);
    let mut input = signal.to_vec();
    let mut output = kernel.make_output_vec();
    assert_eq!(output.len(), plan.spectrum_len());
    kernel.process(&mut input, &mut output).unwrap();
    let pairs: Vec<(u32, u32)> = output
        .iter()
        .map(|c| (c.re.to_bits(), c.im.to_bits()))
        .collect();
    let packed_bits = pack_spectrum(&pairs);
    assert_eq!(packed_bits.len(), plan.packed_len());
    let packed: Vec<f32> = packed_bits.iter().map(|&b| f32::from_bits(b)).collect();
    let magnitudes: Vec<f32> = output.iter().map(|c| c.norm()).collect();
    (packed, magnitudes)
}

/// Inverse transform of a packed spectrum through the library's length
/// validation and unpacking, scaled by 1 / output length.
fn run_inverse(packed: &[f32]) -> Vec<f32> {
    let bits: Vec<u32> = packed.iter().map(|v| v.to_bits()).collect();
    let out_len = inverse_output_len(bits.len()).unwrap();
    let pairs = unpack_spectrum(&bits);
    let mut input: Vec<Complex<f32>> = pairs
        .iter()
        .map(|&(re, im)| Complex::new(f32::from_bits(re), f32::from_bits(im)))
        .collect();
    let mut planner = RealFftPlanner::<f32>::new();
    let kernel = planner.plan_fft_inverse(out_len);
    let mut output = kernel.make_output_vec();
    assert_eq!(output.len(), out_len);
    kernel.process(&mut input, &mut output).unwrap();
    let scale = 1.0 / out_len as f32;
    output.iter().map(|v| v * scale).collect()
}

#[test]
fn one_cycle_sine_peaks_at_bin_one() {
    let signal = [0.0f32, 1.0, 0.0, -1.0];
    let (packed, magnitudes) = run_forward(&signal);
    assert!(approx(&packed, &[0.0, 0.0, 0.0, -2.0, 0.0, 0.0], TOL));
    assert!(approx(&magnitudes, &[0.0, 2.0, 0.0], TOL));
    let bits: Vec<u32> = magnitudes.iter().map(|m| m.to_bits()).collect();
    assert_eq!(peak_bin(&bits), Ok(1));
}

#[test]
fn dc_signal_peaks_at_bin_zero() {
    let signal = [1.0f32, 1.0, 1.0, 1.0];
    let (packed, magnitudes) = run_forward(&signal);
    assert!(approx(&packed, &[4.0, 0.0, 0.0, 0.0, 0.0, 0.0], TOL));
    assert!(approx(&magnitudes, &[4.0, 0.0, 0.0], TOL));
    let bits: Vec<u32> = magnitudes.iter().map(|m| m.to_bits()).collect();
    assert_eq!(peak_bin(&bits), Ok(0));
}

#[test]
fn dc_spectrum_reconstructs_a_constant_signal() {
    let packed = [4.0f32, 0.0, 0.0, 0.0, 0.0, 0.0];
    assert_eq!(inverse_output_len(packed.len()), Ok(4));
    let signal = run_inverse(&packed);
    assert_eq!(signal.len(), 4);
    assert!(approx(&signal, &[1.0, 1.0, 1.0, 1.0], TOL));
}

#[test]
fn inverse_undoes_forward() {
    let signal = [0.5f32, -1.25, 3.0, 2.5, -0.75, 1.0, 0.0, -2.0];
    let (packed, _) = run_forward(&signal);
    assert_eq!(packed.len(), 2 * (signal.len() / 2 + 1));
    let back = run_inverse(&packed);
    assert_eq!(back.len(), signal.len());
    assert!(approx(&back, &signal, TOL));
}

#[test]
fn forward_packed_length_follows_the_formula() {
    for n in [1usize, 2, 3, 5, 8, 16] {
        let signal: Vec<f32> = (0..n).map(|i| (i as f32) * 0.25 - 1.0).collect();
        let (packed, magnitudes) = run_forward(&signal);
        assert_eq!(packed.len(), 2 * (n / 2 + 1));
        assert_eq!(magnitudes.len(), n / 2 + 1);
    }
}

#[test]
fn magnitudes_are_never_negative() {
    let signals: [&[f32]; 4] = [
        &[0.0, 1.0, 0.0, -1.0],
        &[-3.5, -3.5, -3.5],
        &[2.0, -7.0, 0.25, 9.5, -0.125],
        &[0.0],
    ];
    for signal in signals {
        let (_, magnitudes) = run_forward(signal);
        assert!(magnitudes.iter().all(|&m| m >= 0.0));
    }
}

#[test]
fn a_reused_plan_transforms_like_a_fresh_one() {
    let signal: Vec<f32> = (0..1024).map(|i| ((i * 37) % 101) as f32 * 0.01 - 0.5).collect();

    let mut cache = PlanCache::new();
    let reused = {
        cache.get_forward(1024).unwrap();
        cache.get_forward(1024).unwrap()
    };
    let fresh = plan_forward(1024).unwrap();
    assert_eq!(reused, fresh);

    let mut planner = RealFftPlanner::<f32>::new();
    let kernel_first = planner.plan_fft_forward(reused.length);
    let mut in1 = signal.clone();
    let mut out1 = kernel_first.make_output_vec();
    kernel_first.process(&mut in1, &mut out1).unwrap();

    let kernel_reused = planner.plan_fft_forward(reused.length);
    let mut in2 = signal.clone();
    let mut out2 = kernel_reused.make_output_vec();
    kernel_reused.process(&mut in2, &mut out2).unwrap();

    let mut fresh_planner = RealFftPlanner::<f32>::new();
    let kernel_fresh = fresh_planner.plan_fft_forward(fresh.length);
    let mut in3 = signal.clone();
    let mut out3 = kernel_fresh.make_output_vec();
    kernel_fresh.process(&mut in3, &mut out3).unwrap();

    let bits = |v: &[Complex<f32>]| -> Vec<(u32, u32)> {
        v.iter().map(|c| (c.re.to_bits(), c.im.to_bits())).collect()
    };
    assert_eq!(bits(&out1), bits(&out2));
    assert_eq!(bits(&out2), bits(&out3));
}

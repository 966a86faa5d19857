use effects::pipeline::{
    lut_texture_bytes, pack_effect_uniforms, plan_effect_passes, EffectsError, PassUniforms, UniformEntry,
    UniformKind, LUT_DATA_LEN, LUT_SIZE,
};

fn pass(shader: &str, uniforms: &[(&str, UniformKind)]) -> PassUniforms {
    PassUniforms {
        shader: shader.to_string(),
        uniforms: uniforms
            .iter()
            .map(|&(name, kind)| UniformEntry { name: name.to_string(), kind })
            .collect(),
    }
}

fn numbers(names: &[&'static str]) -> Vec<(&'static str, UniformKind)> {
    names.iter().map(|&n| (n, UniformKind::Number)).collect()
}

fn unsupported(shader: &str, uniform: &str) -> Result<Vec<effects::pipeline::UniformSlots>, EffectsError> {
    Err(EffectsError::UnsupportedUniform { shader: shader.to_string(), uniform: uniform.to_string() })
}

fn slots_of(filled: &[Option<usize>]) -> Vec<Option<usize>> {
    let mut scalars = filled.to_vec();
    scalars.resize(16, None);
    scalars
}

fn missing(shader: &str, uniform: &str) -> EffectsError {
    EffectsError::MissingUniform { shader: shader.to_string(), uniform: uniform.to_string() }
}

const QUALIFIER: [&str; 7] = [
    "u_hue_center",
    "u_hue_width",
    "u_sat_center",
    "u_sat_width",
    "u_lum_center",
    "u_lum_width",
    "u_softness",
];

#[test]
fn exposure_rejects_unknown_uniforms() {
    let p = pass("exposure", &numbers(&["u_ev", "u_lift"]));
    assert!(
        plan_effect_passes(&vec![p.clone()]).is_err(),
        "a uniform this shader doesn't expect should be rejected, not silently ignored"
    );
    assert_eq!(plan_effect_passes(&vec![p]), unsupported("exposure", "u_lift"));
}

#[test]
fn hsl_qualifier_rejects_unknown_uniforms() {
    let mut uniforms = numbers(&QUALIFIER);
    uniforms.push(("u_lift", UniformKind::Number));
    let p = pass("hsl-qualifier", &uniforms);
    assert!(
        plan_effect_passes(&vec![p]).is_err(),
        "a uniform this shader doesn't expect should be rejected, not silently ignored"
    );
}

#[test]
fn log_wheels_rejects_primary_wheels_uniform_names() {
    let p = pass("log-wheels", &numbers(&["u_lift", "u_gamma", "u_gain", "u_offset"]));
    assert!(
        plan_effect_passes(&vec![p]).is_err(),
        "primary-wheels' uniform names shouldn't silently work for log-wheels"
    );
}

#[test]
fn luma_curve_rejects_unknown_uniforms() {
    let p = pass("luma-curve", &numbers(&["u_y0", "u_y1", "u_y2", "u_y3", "u_y4", "u_lift"]));
    assert!(
        plan_effect_passes(&vec![p]).is_err(),
        "a uniform this shader doesn't expect should be rejected, not silently ignored"
    );
}

#[test]
fn lut_rejects_wrong_length_data() {
    let p = pass("lut-3d", &[("u_intensity", UniformKind::Number), ("u_lut_data", UniformKind::Vector(42))]);
    assert!(
        plan_effect_passes(&vec![p]).is_err(),
        "LUT data of the wrong length should be rejected, not silently truncated/padded"
    );
}

#[test]
fn lut_rejects_unknown_uniforms() {
    let p = pass(
        "lut-3d",
        &[
            ("u_intensity", UniformKind::Number),
            ("u_lut_data", UniformKind::Vector(LUT_DATA_LEN)),
            ("u_lift", UniformKind::Number),
        ],
    );
    assert!(
        plan_effect_passes(&vec![p]).is_err(),
        "a uniform this shader doesn't expect should be rejected, not silently ignored"
    );
}

#[test]
fn primary_wheels_rejects_unknown_uniforms() {
    let p = pass("primary-wheels", &numbers(&["u_lift", "u_gamma", "u_gain", "u_offset", "u_sigma"]));
    assert!(
        plan_effect_passes(&vec![p]).is_err(),
        "an unsupported uniform for the shader should be rejected, not silently ignored"
    );
}

#[test]
fn rgb_curves_rejects_unknown_uniforms() {
    let names = [
        "u_r_y0", "u_r_y1", "u_r_y2", "u_r_y3", "u_r_y4", "u_g_y0", "u_g_y1", "u_g_y2", "u_g_y3",
        "u_g_y4", "u_b_y0", "u_b_y1", "u_b_y2", "u_b_y3", "u_b_y4", "u_y0",
    ];
    let p = pass("rgb-curves", &numbers(&names));
    assert!(
        plan_effect_passes(&vec![p.clone()]).is_err(),
        "a uniform this shader doesn't expect (e.g. luma-curve's u_y0) should be rejected"
    );
    assert_eq!(plan_effect_passes(&vec![p]), unsupported("rgb-curves", "u_y0"));
}

#[test]
fn white_balance_rejects_unknown_uniforms() {
    let p = pass("white-balance", &numbers(&["u_temperature", "u_tint", "u_ev"]));
    assert!(
        plan_effect_passes(&vec![p.clone()]).is_err(),
        "a uniform this shader doesn't expect should be rejected, not silently ignored"
    );
    assert_eq!(plan_effect_passes(&vec![p]), unsupported("white-balance", "u_ev"));
}

#[test]
fn no_passes_is_refused() {
    assert_eq!(plan_effect_passes(&vec![]), Err(EffectsError::MissingEffectPasses));
}

#[test]
fn unknown_shader_is_refused() {
    assert_eq!(
        pack_effect_uniforms(&pass("sharpen", &[])),
        Err(EffectsError::UnknownEffectShader { shader: "sharpen".to_string() })
    );
}

#[test]
fn number_uniforms_are_read_in_order() {
    // u_sigma is read before u_step: with both missing, u_sigma is reported.
    assert_eq!(pack_effect_uniforms(&pass("gaussian-blur", &[])), Err(missing("gaussian-blur", "u_sigma")));
    let p = pass("gaussian-blur", &numbers(&["u_sigma"]));
    assert_eq!(pack_effect_uniforms(&p), Err(missing("gaussian-blur", "u_step")));
}

#[test]
fn vector_given_for_number_is_refused() {
    let p = pass("primary-wheels", &[("u_lift", UniformKind::Vector(3))]);
    assert_eq!(
        pack_effect_uniforms(&p),
        Err(EffectsError::InvalidNumberUniform { shader: "primary-wheels".to_string(), uniform: "u_lift".to_string() })
    );
}

#[test]
fn direction_must_be_a_two_vector() {
    let expected = EffectsError::InvalidVectorUniform {
        shader: "gaussian-blur".to_string(),
        uniform: "u_direction".to_string(),
        expected_length: 2,
    };
    let mut uniforms = numbers(&["u_sigma", "u_step"]);
    uniforms.push(("u_direction", UniformKind::Number));
    assert_eq!(pack_effect_uniforms(&pass("gaussian-blur", &uniforms)), Err(expected.clone()));
    uniforms.pop();
    uniforms.push(("u_direction", UniformKind::Vector(3)));
    assert_eq!(pack_effect_uniforms(&pass("gaussian-blur", &uniforms)), Err(expected));
    uniforms.pop();
    assert_eq!(pack_effect_uniforms(&pass("gaussian-blur", &uniforms)), Err(missing("gaussian-blur", "u_direction")));
}

#[test]
fn first_unexpected_uniform_is_named() {
    let p = pass("log-wheels", &numbers(&["u_lift", "u_gamma_offset", "u_x", "u_gain", "u_offset", "u_y"]));
    assert_eq!(
        pack_effect_uniforms(&p),
        Err(EffectsError::UnsupportedUniform { shader: "log-wheels".to_string(), uniform: "u_x".to_string() })
    );
}

#[test]
fn lut_data_errors() {
    let shape = |kind: Option<UniformKind>| {
        let mut u = vec![("u_intensity", UniformKind::Number)];
        if let Some(kind) = kind {
            u.push(("u_lut_data", kind));
        }
        pack_effect_uniforms(&pass("lut-3d", &u))
    };
    let invalid = |actual_length: usize| EffectsError::InvalidLutData {
        shader: "lut-3d".to_string(),
        uniform: "u_lut_data".to_string(),
        lut_size: LUT_SIZE,
        expected_length: LUT_DATA_LEN,
        actual_length,
    };
    assert_eq!(shape(None), Err(missing("lut-3d", "u_lut_data")));
    assert_eq!(shape(Some(UniformKind::Number)), Err(invalid(1)));
    assert_eq!(shape(Some(UniformKind::Vector(42))), Err(invalid(42)));
    let slots = shape(Some(UniformKind::Vector(LUT_DATA_LEN))).unwrap();
    assert_eq!(slots.lut_data, Some(1));
    assert_eq!(slots.scalars, slots_of(&[Some(0)]));
    assert_eq!(slots.direction, None);
}

#[test]
fn slots_follow_the_shader_layout() {
    // Uniforms given out of order: slots still follow the shader's order.
    let mut uniforms = numbers(&QUALIFIER);
    uniforms.reverse();
    let slots = pack_effect_uniforms(&pass("hsl-qualifier", &uniforms)).unwrap();
    assert_eq!(slots.scalars, slots_of(&[Some(6), Some(5), Some(4), Some(3), Some(2), Some(1), Some(0)]));
    assert_eq!(slots.direction, None);
    assert_eq!(slots.lut_data, None);

    let uniforms = vec![
        ("u_direction", UniformKind::Vector(2)),
        ("u_step", UniformKind::Number),
        ("u_sigma", UniformKind::Number),
    ];
    let slots = pack_effect_uniforms(&pass("gaussian-blur", &uniforms)).unwrap();
    assert_eq!(slots.scalars, slots_of(&[Some(2), Some(1)]));
    assert_eq!(slots.direction, Some(0));

    let slots = pack_effect_uniforms(&pass("luma-curve", &numbers(&["u_y0", "u_y1", "u_y2", "u_y3", "u_y4"]))).unwrap();
    assert_eq!(slots.scalars, slots_of(&[Some(0), Some(1), Some(2), Some(3), Some(4)]));
}

#[test]
fn first_bad_pass_decides() {
    let good = pass("primary-wheels", &numbers(&["u_lift", "u_gamma", "u_gain", "u_offset"]));
    let bad = pass("luma-curve", &[]);
    let worse = pass("nope", &[]);
    assert_eq!(
        plan_effect_passes(&vec![good.clone(), bad, worse]),
        Err(missing("luma-curve", "u_y0"))
    );
    let plans = plan_effect_passes(&vec![good.clone(), good]).unwrap();
    assert_eq!(plans.len(), 2);
}

#[test]
fn lut_texels_follow_tile_layout() {
    let lut: Vec<u8> = (0..LUT_DATA_LEN).map(|i| (i % 251) as u8).collect();
    let texels = lut_texture_bytes(&lut);
    assert_eq!(texels.len(), 4 * 81 * 9);
    for g in 0..9 {
        for b in 0..9 {
            for r in 0..9 {
                let texel = (g * 81 + b * 9 + r) * 4;
                let point = ((b * 9 + g) * 9 + r) * 3;
                assert_eq!(&texels[texel..texel + 3], &lut[point..point + 3]);
                assert_eq!(texels[texel + 3], 255);
            }
        }
    }
}

#[test]
fn exposure_white_balance_and_rgb_curves_are_known() {
    let slots = pack_effect_uniforms(&pass("exposure", &numbers(&["u_ev"]))).unwrap();
    assert_eq!(slots.scalars, slots_of(&[Some(0)]));
    assert_eq!(pack_effect_uniforms(&pass("exposure", &[])), Err(missing("exposure", "u_ev")));

    let slots = pack_effect_uniforms(&pass("white-balance", &numbers(&["u_tint", "u_temperature"]))).unwrap();
    assert_eq!(slots.scalars, slots_of(&[Some(1), Some(0)]));
    assert_eq!(
        pack_effect_uniforms(&pass("white-balance", &numbers(&["u_temperature"]))),
        Err(missing("white-balance", "u_tint"))
    );

    let names = [
        "u_r_y0", "u_r_y1", "u_r_y2", "u_r_y3", "u_r_y4", "u_g_y0", "u_g_y1", "u_g_y2", "u_g_y3",
        "u_g_y4", "u_b_y0", "u_b_y1", "u_b_y2", "u_b_y3", "u_b_y4",
    ];
    let slots = pack_effect_uniforms(&pass("rgb-curves", &numbers(&names))).unwrap();
    let expected: Vec<Option<usize>> = (0..15).map(Some).collect();
    assert_eq!(slots.scalars, slots_of(&expected));
    assert_eq!(slots.scalars[15], None);
    assert_eq!(
        pack_effect_uniforms(&pass("rgb-curves", &numbers(&names[..14]))),
        Err(missing("rgb-curves", "u_b_y4"))
    );
}

#[test]
fn unexpected_uniform_is_named_for_every_shader() {
    assert_eq!(
        plan_effect_passes(&vec![pass("hsl-qualifier", &{
            let mut u = numbers(&QUALIFIER);
            u.push(("u_lift", UniformKind::Number));
            u
        })]),
        unsupported("hsl-qualifier", "u_lift")
    );
    assert_eq!(
        plan_effect_passes(&vec![pass("luma-curve", &numbers(&["u_y0", "u_y1", "u_y2", "u_y3", "u_y4", "u_lift"]))]),
        unsupported("luma-curve", "u_lift")
    );
    assert_eq!(
        plan_effect_passes(&vec![pass("primary-wheels", &numbers(&["u_lift", "u_gamma", "u_gain", "u_offset", "u_sigma"]))]),
        unsupported("primary-wheels", "u_sigma")
    );
    assert_eq!(
        plan_effect_passes(&vec![pass("log-wheels", &numbers(&["u_lift", "u_gamma", "u_gain", "u_offset"]))]),
        Err(missing("log-wheels", "u_gamma_offset"))
    );
}

//! Validation of effect passes: which uniforms each shader takes, which of a
//! pass's uniforms fill which slot of the shader's uniform buffer, and the
//! error a malformed pass is refused with.

use vstd::prelude::*;

verus! {

/// Grid resolution per axis of a 3D LUT (9 x 9 x 9 points).
pub const LUT_SIZE: usize = 9;

/// Number of values in a flattened RGB 3D LUT: `LUT_SIZE^3 * 3`.
pub const LUT_DATA_LEN: usize = LUT_SIZE * LUT_SIZE * LUT_SIZE * 3;

/// Why an effect pass (or a list of them) cannot be applied.
#[derive(Debug, Clone, PartialEq, Eq)]
pub enum EffectsError {
    MissingEffectPasses,
    UnknownEffectShader { shader: String },
    MissingUniform { shader: String, uniform: String },
    InvalidNumberUniform { shader: String, uniform: String },
    InvalidVectorUniform { shader: String, uniform: String, expected_length: usize },
    UnsupportedUniform { shader: String, uniform: String },
    InvalidLutData {
        shader: String,
        uniform: String,
        lut_size: usize,
        expected_length: usize,
        actual_length: usize,
    },
}

/// `EffectsError` with its strings as character sequences.
pub enum EffectsErrorView {
    MissingEffectPasses,
    UnknownEffectShader { shader: Seq<char> },
    MissingUniform { shader: Seq<char>, uniform: Seq<char> },
    InvalidNumberUniform { shader: Seq<char>, uniform: Seq<char> },
    InvalidVectorUniform { shader: Seq<char>, uniform: Seq<char>, expected_length: nat },
    UnsupportedUniform { shader: Seq<char>, uniform: Seq<char> },
    InvalidLutData {
        shader: Seq<char>,
        uniform: Seq<char>,
        lut_size: nat,
        expected_length: nat,
        actual_length: nat,
    },
}

impl View for EffectsError {
    type V = EffectsErrorView;

    open spec fn view(&self) -> EffectsErrorView {
        match self {
            EffectsError::MissingEffectPasses => EffectsErrorView::MissingEffectPasses,
            EffectsError::UnknownEffectShader { shader } => EffectsErrorView::UnknownEffectShader { shader: shader@ },
            EffectsError::MissingUniform { shader, uniform } => EffectsErrorView::MissingUniform {
                shader: shader@,
                uniform: uniform@,
            },
            EffectsError::InvalidNumberUniform { shader, uniform } => EffectsErrorView::InvalidNumberUniform {
                shader: shader@,
                uniform: uniform@,
            },
            EffectsError::InvalidVectorUniform { shader, uniform, expected_length } =>
                EffectsErrorView::InvalidVectorUniform {
                shader: shader@,
                uniform: uniform@,
                expected_length: *expected_length as nat,
            },
            EffectsError::UnsupportedUniform { shader, uniform } => EffectsErrorView::UnsupportedUniform {
                shader: shader@,
                uniform: uniform@,
            },
            EffectsError::InvalidLutData { shader, uniform, lut_size, expected_length, actual_length } =>
                EffectsErrorView::InvalidLutData {
                shader: shader@,
                uniform: uniform@,
                lut_size: *lut_size as nat,
                expected_length: *expected_length as nat,
                actual_length: *actual_length as nat,
            },
        }
    }
}

/// The shape of a uniform value: a single number, or a vector of the given
/// length. (The numbers themselves play no part in validation.)
#[derive(Debug, Clone, Copy, PartialEq, Eq)]
pub enum UniformKind {
    Number,
    Vector(usize),
}

/// One uniform of a pass: its name and the shape of its value.
#[derive(Debug, Clone, PartialEq, Eq)]
pub struct UniformEntry {
    pub name: String,
    pub kind: UniformKind,
}

/// An effect pass as validation sees it: the shader it names and its
/// uniforms, in the order the pass lists them.
#[derive(Debug, Clone, PartialEq, Eq)]
pub struct PassUniforms {
    pub shader: String,
    pub uniforms: Vec<UniformEntry>,
}

/// Index of the first uniform at or after `start` named `name`.
pub open spec fn find_from(uniforms: Seq<UniformEntry>, name: Seq<char>, start: nat) -> Option<int>
    decreases uniforms.len() - start,
{
    if start >= uniforms.len() {
        None
    } else if uniforms[start as int].name@ == name {
        Some(start as int)
    } else {
        find_from(uniforms, name, start + 1)
    }
}

/// Index of the first uniform named `name`, if any.
pub open spec fn find_uniform(uniforms: Seq<UniformEntry>, name: Seq<char>) -> Option<int> {
    find_from(uniforms, name, 0)
}

pub open spec fn opt_index(found: Option<usize>) -> Option<int> {
    match found {
        Some(i) => Some(i as int),
        None => None,
    }
}

proof fn lemma_find_from_found(uniforms: Seq<UniformEntry>, name: Seq<char>, start: nat)
    ensures
        find_from(uniforms, name, start) matches Some(i) ==> start <= i < uniforms.len() && uniforms[i].name@ == name,
    decreases uniforms.len() - start,
{
    if start < uniforms.len() && uniforms[start as int].name@ != name {
        lemma_find_from_found(uniforms, name, start + 1);
    }
}

/// Index of the first uniform of the list named `name`.
fn find_uniform_index(uniforms: &Vec<UniformEntry>, name: &String) -> (found: Option<usize>)
    ensures
        opt_index(found) == find_uniform(uniforms@, name@),
        found matches Some(i) ==> i < uniforms@.len() && uniforms@[i as int].name@ == name@,
{
    let mut i: usize = 0;
    while i < uniforms.len()
        invariant
            i <= uniforms@.len(),
            find_uniform(uniforms@, name@) == find_from(uniforms@, name@, i as nat),
        decreases uniforms@.len() - i,
    {
        if uniforms[i].name == *name {
            return Some(i);
        }
        i = i + 1;
    }
    None
}

/// The shaders a pass may name.
pub open spec fn known_shader(shader: Seq<char>) -> bool {
    ||| shader == "gaussian-blur"@
    ||| shader == "primary-wheels"@
    ||| shader == "log-wheels"@
    ||| shader == "hsl-qualifier"@
    ||| shader == "luma-curve"@
    ||| shader == "lut-3d"@
    ||| shader == "exposure"@
    ||| shader == "white-balance"@
    ||| shader == "rgb-curves"@
}

/// The number uniforms a shader reads, in the order they are read; the `k`-th
/// fills scalar slot `k` of the uniform buffer (slots 0..4 are `scalars`,
/// 4..8 `scalars_b`, 8..12 `scalars_c` and 12..16 `scalars_d`).
pub open spec fn number_uniforms(shader: Seq<char>) -> Seq<Seq<char>> {
    if shader == "gaussian-blur"@ {
        seq!["u_sigma"@, "u_step"@]
    } else if shader == "primary-wheels"@ {
        seq!["u_lift"@, "u_gamma"@, "u_gain"@, "u_offset"@]
    } else if shader == "log-wheels"@ {
        seq!["u_lift"@, "u_gamma_offset"@, "u_gain"@, "u_offset"@]
    } else if shader == "hsl-qualifier"@ {
        seq![
            "u_hue_center"@,
            "u_hue_width"@,
            "u_sat_center"@,
            "u_sat_width"@,
            "u_lum_center"@,
            "u_lum_width"@,
            "u_softness"@,
        ]
    } else if shader == "luma-curve"@ {
        seq!["u_y0"@, "u_y1"@, "u_y2"@, "u_y3"@, "u_y4"@]
    } else if shader == "lut-3d"@ {
        seq!["u_intensity"@]
    } else if shader == "exposure"@ {
        seq!["u_ev"@]
    } else if shader == "white-balance"@ {
        seq!["u_temperature"@, "u_tint"@]
    } else if shader == "rgb-curves"@ {
        seq![
            "u_r_y0"@,
            "u_r_y1"@,
            "u_r_y2"@,
            "u_r_y3"@,
            "u_r_y4"@,
            "u_g_y0"@,
            "u_g_y1"@,
            "u_g_y2"@,
            "u_g_y3"@,
            "u_g_y4"@,
            "u_b_y0"@,
            "u_b_y1"@,
            "u_b_y2"@,
            "u_b_y3"@,
            "u_b_y4"@,
        ]
    } else {
        seq![]
    }
}

/// The two-component vector uniform a shader reads (after its numbers) into
/// the `direction` slot, if it reads one.
pub open spec fn vector_uniform(shader: Seq<char>) -> Option<Seq<char>> {
    if shader == "gaussian-blur"@ {
        Some("u_direction"@)
    } else {
        None
    }
}

/// Uniforms a shader accepts besides those it packs into its uniform buffer.
pub open spec fn extra_uniforms(shader: Seq<char>) -> Seq<Seq<char>> {
    if shader == "lut-3d"@ {
        seq!["u_lut_data"@]
    } else {
        seq![]
    }
}

/// Every uniform name a shader accepts.
pub open spec fn accepted_uniforms(shader: Seq<char>) -> Seq<Seq<char>> {
    number_uniforms(shader) + match vector_uniform(shader) {
        Some(name) => seq![name],
        None => seq![],
    } + extra_uniforms(shader)
}

/// Error, if any, of reading uniform `name` of the pass as a number.
pub open spec fn number_uniform_error(shader: Seq<char>, uniforms: Seq<UniformEntry>, name: Seq<char>) -> Option<EffectsErrorView> {
    match find_uniform(uniforms, name) {
        None => Some(EffectsErrorView::MissingUniform { shader, uniform: name }),
        Some(i) => match uniforms[i].kind {
            UniformKind::Number => None,
            UniformKind::Vector(_) => Some(EffectsErrorView::InvalidNumberUniform { shader, uniform: name }),
        },
    }
}

/// Error of the first of `names` that cannot be read as a number, if any.
pub open spec fn number_uniforms_error(shader: Seq<char>, uniforms: Seq<UniformEntry>, names: Seq<Seq<char>>) -> Option<EffectsErrorView>
    decreases names.len(),
{
    if names.len() == 0 {
        None
    } else {
        match number_uniform_error(shader, uniforms, names[0]) {
            Some(e) => Some(e),
            None => number_uniforms_error(shader, uniforms, names.drop_first()),
        }
    }
}

/// Error, if any, of reading uniform `name` of the pass as a two-component vector.
pub open spec fn vector_uniform_error(shader: Seq<char>, uniforms: Seq<UniformEntry>, name: Seq<char>) -> Option<EffectsErrorView> {
    match find_uniform(uniforms, name) {
        None => Some(EffectsErrorView::MissingUniform { shader, uniform: name }),
        Some(i) => match uniforms[i].kind {
            UniformKind::Vector(len) if len == 2 => None,
            _ => Some(EffectsErrorView::InvalidVectorUniform { shader, uniform: name, expected_length: 2 }),
        },
    }
}

/// The first uniform (in the pass's order) whose name is not in `accepted`, as
/// an error.
pub open spec fn unsupported_uniform_error(shader: Seq<char>, uniforms: Seq<UniformEntry>, accepted: Seq<Seq<char>>) -> Option<EffectsErrorView>
    decreases uniforms.len(),
{
    if uniforms.len() == 0 {
        None
    } else if !accepted.contains(uniforms[0].name@) {
        Some(EffectsErrorView::UnsupportedUniform { shader, uniform: uniforms[0].name@ })
    } else {
        unsupported_uniform_error(shader, uniforms.drop_first(), accepted)
    }
}

/// Error, if any, of the `u_lut_data` uniform of a LUT pass: it must be a
/// vector of exactly `LUT_DATA_LEN` values.
pub open spec fn lut_data_error(shader: Seq<char>, uniforms: Seq<UniformEntry>) -> Option<EffectsErrorView> {
    match find_uniform(uniforms, "u_lut_data"@) {
        None => Some(EffectsErrorView::MissingUniform { shader, uniform: "u_lut_data"@ }),
        Some(i) => match uniforms[i].kind {
            UniformKind::Number => Some(
                EffectsErrorView::InvalidLutData {
                    shader,
                    uniform: "u_lut_data"@,
                    lut_size: LUT_SIZE as nat,
                    expected_length: LUT_DATA_LEN as nat,
                    actual_length: 1,
                },
            ),
            UniformKind::Vector(len) => if len == LUT_DATA_LEN {
                None
            } else {
                Some(
                    EffectsErrorView::InvalidLutData {
                        shader,
                        uniform: "u_lut_data"@,
                        lut_size: LUT_SIZE as nat,
                        expected_length: LUT_DATA_LEN as nat,
                        actual_length: len as nat,
                    },
                )
            },
        },
    }
}

/// The error a pass is refused with, or `None` when it is valid. Checks run in
/// this order, the first failure deciding: the shader is known; its number
/// uniforms, in order; its vector uniform; no uniform outside those the shader
/// accepts; for the LUT shader, its LUT data.
pub open spec fn pass_error(shader: Seq<char>, uniforms: Seq<UniformEntry>) -> Option<EffectsErrorView> {
    if !known_shader(shader) {
        Some(EffectsErrorView::UnknownEffectShader { shader })
    } else if number_uniforms_error(shader, uniforms, number_uniforms(shader)) is Some {
        number_uniforms_error(shader, uniforms, number_uniforms(shader))
    } else if vector_uniform(shader) is Some && vector_uniform_error(shader, uniforms, vector_uniform(shader)->0) is Some {
        vector_uniform_error(shader, uniforms, vector_uniform(shader)->0)
    } else if unsupported_uniform_error(shader, uniforms, accepted_uniforms(shader)) is Some {
        unsupported_uniform_error(shader, uniforms, accepted_uniforms(shader))
    } else if shader == "lut-3d"@ {
        lut_data_error(shader, uniforms)
    } else {
        None
    }
}

/// The character sequences of a list of strings.
pub open spec fn names_view(names: Seq<String>) -> Seq<Seq<char>> {
    Seq::new(names.len(), |i: int| names[i]@)
}

pub open spec fn opt_name_view(name: Option<String>) -> Option<Seq<char>> {
    match name {
        Some(s) => Some(s@),
        None => None,
    }
}

/// The uniforms one shader takes.
struct ShaderUniforms {
    numbers: Vec<String>,
    vector: Option<String>,
    extra: Vec<String>,
}

fn push_name(names: &mut Vec<String>, name: &str)
    ensures
        names_view(final(names)@) == names_view(old(names)@).push(name@),
{
    names.push(name.to_owned());
    assert(names_view(final(names)@) =~= names_view(old(names)@).push(name@));
}

/// The uniforms a known shader takes, or `None` for an unknown shader.
fn shader_uniforms(shader: &String) -> (table: Option<ShaderUniforms>)
    ensures
        table is None <==> !known_shader(shader@),
        table matches Some(t) ==> {
            &&& names_view(t.numbers@) == number_uniforms(shader@)
            &&& opt_name_view(t.vector) == vector_uniform(shader@)
            &&& names_view(t.extra@) == extra_uniforms(shader@)
        },
{
    let mut numbers: Vec<String> = Vec::new();
    let mut vector: Option<String> = None;
    let mut extra: Vec<String> = Vec::new();
    assert(names_view(numbers@) =~= seq![]);
    assert(names_view(extra@) =~= seq![]);
    if *shader == "gaussian-blur".to_owned() {
        push_name(&mut numbers, "u_sigma");
        push_name(&mut numbers, "u_step");
        vector = Some("u_direction".to_owned());
    } else if *shader == "primary-wheels".to_owned() {
        push_name(&mut numbers, "u_lift");
        push_name(&mut numbers, "u_gamma");
        push_name(&mut numbers, "u_gain");
        push_name(&mut numbers, "u_offset");
    } else if *shader == "log-wheels".to_owned() {
        push_name(&mut numbers, "u_lift");
        push_name(&mut numbers, "u_gamma_offset");
        push_name(&mut numbers, "u_gain");
        push_name(&mut numbers, "u_offset");
    } else if *shader == "hsl-qualifier".to_owned() {
        push_name(&mut numbers, "u_hue_center");
        push_name(&mut numbers, "u_hue_width");
        push_name(&mut numbers, "u_sat_center");
        push_name(&mut numbers, "u_sat_width");
        push_name(&mut numbers, "u_lum_center");
        push_name(&mut numbers, "u_lum_width");
        push_name(&mut numbers, "u_softness");
    } else if *shader == "luma-curve".to_owned() {
        push_name(&mut numbers, "u_y0");
        push_name(&mut numbers, "u_y1");
        push_name(&mut numbers, "u_y2");
        push_name(&mut numbers, "u_y3");
        push_name(&mut numbers, "u_y4");
    } else if *shader == "lut-3d".to_owned() {
        push_name(&mut numbers, "u_intensity");
        push_name(&mut extra, "u_lut_data");
    } else if *shader == "exposure".to_owned() {
        push_name(&mut numbers, "u_ev");
    } else if *shader == "white-balance".to_owned() {
        push_name(&mut numbers, "u_temperature");
        push_name(&mut numbers, "u_tint");
    } else if *shader == "rgb-curves".to_owned() {
        push_name(&mut numbers, "u_r_y0");
        push_name(&mut numbers, "u_r_y1");
        push_name(&mut numbers, "u_r_y2");
        push_name(&mut numbers, "u_r_y3");
        push_name(&mut numbers, "u_r_y4");
        push_name(&mut numbers, "u_g_y0");
        push_name(&mut numbers, "u_g_y1");
        push_name(&mut numbers, "u_g_y2");
        push_name(&mut numbers, "u_g_y3");
        push_name(&mut numbers, "u_g_y4");
        push_name(&mut numbers, "u_b_y0");
        push_name(&mut numbers, "u_b_y1");
        push_name(&mut numbers, "u_b_y2");
        push_name(&mut numbers, "u_b_y3");
        push_name(&mut numbers, "u_b_y4");
    } else {
        return None;
    }
    proof {
        reveal_strlit("lut-3d");
        reveal_strlit("gaussian-blur");
        reveal_strlit("primary-wheels");
        reveal_strlit("log-wheels");
        reveal_strlit("hsl-qualifier");
        reveal_strlit("luma-curve");
        reveal_strlit("exposure");
        reveal_strlit("white-balance");
        reveal_strlit("rgb-curves");
        // The shader names are told apart by their lengths and characters.
        assert("lut-3d"@.len() == 6);
        assert("gaussian-blur"@.len() == 13);
        assert("primary-wheels"@.len() == 14);
        assert("log-wheels"@.len() == 10);
        assert("hsl-qualifier"@.len() == 13);
        assert("luma-curve"@.len() == 10);
        assert("exposure"@.len() == 8);
        assert("white-balance"@.len() == 13);
        assert("rgb-curves"@.len() == 10);
    }
    assert(names_view(numbers@) =~= number_uniforms(shader@));
    assert(names_view(extra@) =~= extra_uniforms(shader@));
    Some(ShaderUniforms { numbers, vector, extra })
}

/// Reads uniform `uniform` of the pass as a number: the index of the uniform.
fn read_number_uniform(pass: &PassUniforms, uniform: &String) -> (result: Result<usize, EffectsError>)
    ensures
        match result {
            Ok(i) => number_uniform_error(pass.shader@, pass.uniforms@, uniform@) is None
                && find_uniform(pass.uniforms@, uniform@) == Some(i as int) && i < pass.uniforms@.len()
                && pass.uniforms@[i as int].kind == UniformKind::Number,
            Err(e) => number_uniform_error(pass.shader@, pass.uniforms@, uniform@) == Some(e@),
        },
{
    match find_uniform_index(&pass.uniforms, uniform) {
        None => Err(EffectsError::MissingUniform { shader: pass.shader.clone(), uniform: uniform.clone() }),
        Some(i) => match pass.uniforms[i].kind {
            UniformKind::Number => Ok(i),
            UniformKind::Vector(_) => Err(
                EffectsError::InvalidNumberUniform { shader: pass.shader.clone(), uniform: uniform.clone() },
            ),
        },
    }
}

/// Reads uniform `uniform` of the pass as a two-component vector: the index
/// of the uniform.
fn read_vec2_uniform(pass: &PassUniforms, uniform: &String) -> (result: Result<usize, EffectsError>)
    ensures
        match result {
            Ok(i) => vector_uniform_error(pass.shader@, pass.uniforms@, uniform@) is None
                && find_uniform(pass.uniforms@, uniform@) == Some(i as int) && i < pass.uniforms@.len()
                && pass.uniforms@[i as int].kind == UniformKind::Vector(2),
            Err(e) => vector_uniform_error(pass.shader@, pass.uniforms@, uniform@) == Some(e@),
        },
{
    match find_uniform_index(&pass.uniforms, uniform) {
        None => Err(EffectsError::MissingUniform { shader: pass.shader.clone(), uniform: uniform.clone() }),
        Some(i) => match pass.uniforms[i].kind {
            UniformKind::Vector(len) => if len == 2 {
                Ok(i)
            } else {
                Err(
                    EffectsError::InvalidVectorUniform {
                        shader: pass.shader.clone(),
                        uniform: uniform.clone(),
                        expected_length: 2,
                    },
                )
            },
            UniformKind::Number => Err(
                EffectsError::InvalidVectorUniform {
                    shader: pass.shader.clone(),
                    uniform: uniform.clone(),
                    expected_length: 2,
                },
            ),
        },
    }
}

/// Whether `name` is one of `names`.
fn contains_name(names: &Vec<String>, name: &String) -> (found: bool)
    ensures
        found == names_view(names@).contains(name@),
{
    let mut j: usize = 0;
    while j < names.len()
        invariant
            j <= names@.len(),
            forall|k: int| 0 <= k < j ==> names@[k]@ != name@,
        decreases names@.len() - j,
    {
        if names[j] == *name {
            assert(names_view(names@)[j as int] == name@);
            return true;
        }
        j = j + 1;
    }
    assert forall|k: int| 0 <= k < names_view(names@).len() implies names_view(names@)[k] != name@ by {}
    false
}

/// Refuses the first uniform of the pass (in its order) that is not one of
/// `expected`.
fn reject_unexpected_uniforms(pass: &PassUniforms, expected: &Vec<String>) -> (result: Result<(), EffectsError>)
    ensures
        match result {
            Ok(_) => unsupported_uniform_error(pass.shader@, pass.uniforms@, names_view(expected@)) is None,
            Err(e) => unsupported_uniform_error(pass.shader@, pass.uniforms@, names_view(expected@)) == Some(e@),
        },
{
    let ghost accepted = names_view(expected@);
    let mut k: usize = 0;
    assert(pass.uniforms@.skip(0) =~= pass.uniforms@);
    while k < pass.uniforms.len()
        invariant
            k <= pass.uniforms@.len(),
            accepted == names_view(expected@),
            unsupported_uniform_error(pass.shader@, pass.uniforms@, accepted) == unsupported_uniform_error(
                pass.shader@,
                pass.uniforms@.skip(k as int),
                accepted,
            ),
        decreases pass.uniforms@.len() - k,
    {
        assert(pass.uniforms@.skip(k as int)[0] == pass.uniforms@[k as int]);
        assert(pass.uniforms@.skip(k as int).drop_first() =~= pass.uniforms@.skip(k + 1));
        if !contains_name(expected, &pass.uniforms[k].name) {
            return Err(
                EffectsError::UnsupportedUniform {
                    shader: pass.shader.clone(),
                    uniform: pass.uniforms[k].name.clone(),
                },
            );
        }
        k = k + 1;
    }
    Ok(())
}

/// Reads the LUT data uniform of a LUT pass: the index of the uniform.
fn read_lut_data_uniform(pass: &PassUniforms) -> (result: Result<usize, EffectsError>)
    ensures
        match result {
            Ok(i) => lut_data_error(pass.shader@, pass.uniforms@) is None
                && find_uniform(pass.uniforms@, "u_lut_data"@) == Some(i as int) && i < pass.uniforms@.len()
                && pass.uniforms@[i as int].kind == UniformKind::Vector(LUT_DATA_LEN),
            Err(e) => lut_data_error(pass.shader@, pass.uniforms@) == Some(e@),
        },
{
    let name = "u_lut_data".to_owned();
    match find_uniform_index(&pass.uniforms, &name) {
        None => Err(EffectsError::MissingUniform { shader: pass.shader.clone(), uniform: name }),
        Some(i) => match pass.uniforms[i].kind {
            UniformKind::Number => Err(
                EffectsError::InvalidLutData {
                    shader: pass.shader.clone(),
                    uniform: name,
                    lut_size: LUT_SIZE,
                    expected_length: LUT_DATA_LEN,
                    actual_length: 1,
                },
            ),
            UniformKind::Vector(len) => if len == LUT_DATA_LEN {
                Ok(i)
            } else {
                Err(
                    EffectsError::InvalidLutData {
                        shader: pass.shader.clone(),
                        uniform: name,
                        lut_size: LUT_SIZE,
                        expected_length: LUT_DATA_LEN,
                        actual_length: len,
                    },
                )
            },
        },
    }
}

/// Where each value of a valid pass's uniform buffer comes from: indices into
/// the pass's uniform list.
#[derive(Debug, Clone, PartialEq, Eq)]
pub struct UniformSlots {
    /// The two-component vector uniform filling `direction`; `None`: `[0, 0]`.
    pub direction: Option<usize>,
    /// Sixteen scalar slots, `scalars`, `scalars_b`, `scalars_c` then
    /// `scalars_d`; `None`: `0`.
    pub scalars: Vec<Option<usize>>,
    /// The LUT data uniform of a LUT pass.
    pub lut_data: Option<usize>,
}

/// `slots` is the slot assignment of the valid pass `(shader, uniforms)`:
/// scalar slot `k` holds the `k`-th number uniform of the shader, `direction`
/// its vector uniform, `lut_data` the LUT data of the LUT shader; every other
/// slot is empty. Each filled slot names a uniform of the right shape.
pub open spec fn slots_of_pass(slots: UniformSlots, shader: Seq<char>, uniforms: Seq<UniformEntry>) -> bool {
    &&& slots.scalars@.len() == 16
    &&& forall|k: int|
        0 <= k < 16 ==> opt_index(#[trigger] slots.scalars@[k]) == if k < number_uniforms(shader).len() {
            find_uniform(uniforms, number_uniforms(shader)[k])
        } else {
            None
        }
    &&& forall|k: int|
        0 <= k < 16 ==> (#[trigger] slots.scalars@[k] matches Some(i) ==> i < uniforms.len()
            && uniforms[i as int].kind == UniformKind::Number)
    &&& opt_index(slots.direction) == match vector_uniform(shader) {
        Some(name) => find_uniform(uniforms, name),
        None => None,
    }
    &&& slots.direction matches Some(i) ==> i < uniforms.len() && uniforms[i as int].kind == UniformKind::Vector(2)
    &&& opt_index(slots.lut_data) == if shader == "lut-3d"@ {
        find_uniform(uniforms, "u_lut_data"@)
    } else {
        None
    }
    &&& slots.lut_data matches Some(i) ==> i < uniforms.len() && uniforms[i as int].kind == UniformKind::Vector(LUT_DATA_LEN)
}

/// Validates one effect pass and says which of its uniforms fill which slot of
/// the shader's uniform buffer; a malformed pass is refused with the error
/// `pass_error` names.
pub fn pack_effect_uniforms(pass: &PassUniforms) -> (result: Result<UniformSlots, EffectsError>)
    ensures
        match result {
            Ok(slots) => pass_error(pass.shader@, pass.uniforms@) is None && slots_of_pass(slots, pass.shader@, pass.uniforms@),
            Err(e) => pass_error(pass.shader@, pass.uniforms@) == Some(e@),
        },
{
    let ghost shader = pass.shader@;
    let ghost uniforms = pass.uniforms@;
    let table = match shader_uniforms(&pass.shader) {
        None => {
            return Err(EffectsError::UnknownEffectShader { shader: pass.shader.clone() });
        },
        Some(t) => t,
    };
    let ghost names = number_uniforms(shader);
    assert(names.len() <= 16);
    let mut scalars: Vec<Option<usize>> = Vec::new();
    let mut k: usize = 0;
    assert(names.skip(0) =~= names);
    while k < table.numbers.len()
        invariant
            shader == pass.shader@,
            uniforms == pass.uniforms@,
            names == number_uniforms(shader),
            names_view(table.numbers@) == names,
            k <= names.len(),
            scalars@.len() == k,
            number_uniforms_error(shader, uniforms, names) == number_uniforms_error(shader, uniforms, names.skip(k as int)),
            forall|j: int| 0 <= j < k ==> opt_index(#[trigger] scalars@[j]) == find_uniform(uniforms, names[j]),
            forall|j: int|
                0 <= j < k ==> (#[trigger] scalars@[j] matches Some(i) ==> i < uniforms.len()
                    && uniforms[i as int].kind == UniformKind::Number),
        decreases names.len() - k,
    {
        assert(names.skip(k as int)[0] == names[k as int]);
        assert(names.skip(k as int).drop_first() =~= names.skip(k + 1));
        assert(table.numbers@[k as int]@ == names[k as int]);
        let i = read_number_uniform(pass, &table.numbers[k])?;
        scalars.push(Some(i));
        k = k + 1;
    }
    assert(names.skip(k as int).len() == 0);
    while scalars.len() < 16
        invariant
            names.len() <= scalars@.len() <= 16,
            forall|j: int| 0 <= j < names.len() ==> opt_index(#[trigger] scalars@[j]) == find_uniform(uniforms, names[j]),
            forall|j: int| names.len() <= j < scalars@.len() ==> #[trigger] scalars@[j] is None,
            forall|j: int|
                0 <= j < names.len() ==> (#[trigger] scalars@[j] matches Some(i) ==> i < uniforms.len()
                    && uniforms[i as int].kind == UniformKind::Number),
        decreases 16 - scalars@.len(),
    {
        scalars.push(None);
    }
    let direction = match &table.vector {
        Some(name) => Some(read_vec2_uniform(pass, name)?),
        None => None,
    };
    let mut accepted: Vec<String> = table.numbers.clone();
    assert(names_view(accepted@) =~= names);
    if let Some(name) = &table.vector {
        accepted.push(name.clone());
    }
    let mut extra = table.extra.clone();
    accepted.append(&mut extra);
    assert(names_view(accepted@) =~= accepted_uniforms(shader));
    reject_unexpected_uniforms(pass, &accepted)?;
    let lut_data = if pass.shader == "lut-3d".to_owned() {
        Some(read_lut_data_uniform(pass)?)
    } else {
        None
    };
    let slots = UniformSlots { direction, scalars, lut_data };
    assert(slots.scalars@ == scalars@);
    Ok(slots)
}

/// Validates a chain of effect passes, in order: refused with
/// `MissingEffectPasses` when there is none, else with the error of the first
/// malformed pass; otherwise the slot assignment of every pass.
pub fn plan_effect_passes(passes: &Vec<PassUniforms>) -> (result: Result<Vec<UniformSlots>, EffectsError>)
    ensures
        passes@.len() == 0 ==> (result matches Err(e) && e@ == EffectsErrorView::MissingEffectPasses),
        passes@.len() > 0 ==> match result {
            Ok(plans) => plans@.len() == passes@.len() && forall|k: int|
                #![trigger passes@[k]]
                0 <= k < passes@.len() ==> pass_error(passes@[k].shader@, passes@[k].uniforms@) is None
                    && slots_of_pass(plans@[k], passes@[k].shader@, passes@[k].uniforms@),
            Err(e) => exists|k: int|
                #![trigger passes@[k]]
                0 <= k < passes@.len() && pass_error(passes@[k].shader@, passes@[k].uniforms@) == Some(e@)
                    && forall|j: int| #![trigger passes@[j]] 0 <= j < k ==> pass_error(passes@[j].shader@, passes@[j].uniforms@) is None,
        },
{
    if passes.len() == 0 {
        return Err(EffectsError::MissingEffectPasses);
    }
    let mut plans: Vec<UniformSlots> = Vec::new();
    let mut k: usize = 0;
    while k < passes.len()
        invariant
            k <= passes@.len(),
            plans@.len() == k,
            forall|j: int|
                #![trigger passes@[j]]
                0 <= j < k ==> pass_error(passes@[j].shader@, passes@[j].uniforms@) is None
                    && slots_of_pass(plans@[j], passes@[j].shader@, passes@[j].uniforms@),
        decreases passes@.len() - k,
    {
        match pack_effect_uniforms(&passes[k]) {
            Ok(slots) => {
                let ghost before = plans@;
                plans.push(slots);
                assert forall|j: int| #![trigger passes@[j]] 0 <= j < k + 1 implies pass_error(passes@[j].shader@, passes@[j].uniforms@) is None
                    && slots_of_pass(plans@[j], passes@[j].shader@, passes@[j].uniforms@) by {
                    if j < k {
                        assert(plans@[j] == before[j]);
                    }
                }
            },
            Err(e) => {
                assert(0 <= k < passes@.len() && pass_error(passes@[k as int].shader@, passes@[k as int].uniforms@) == Some(e@));
                return Err(e);
            },
        }
        k = k + 1;
    }
    Ok(plans)
}

/// Source offset, in a flattened `.cube`-order LUT (red fastest, then green,
/// then blue; three values per point), of the point stored at texel `t` of the
/// LUT texture: texel row `g`, column `b * LUT_SIZE + r` (one
/// `LUT_SIZE x LUT_SIZE` tile per blue slice, tiles side by side).
pub open spec fn lut_texel_source(t: int) -> int {
    let g = t / 81;
    let column = t % 81;
    let b = column / 9;
    let r = column % 9;
    ((b * 9 + g) * 9 + r) * 3
}

/// Lays out a flattened RGB 3D LUT, already quantized to bytes, as the RGBA8
/// texels of a `LUT_SIZE^2 x LUT_SIZE` texture: the point `(r, g, b)` goes to
/// texel row `g`, column `b * LUT_SIZE + r`, with alpha 255.
pub fn lut_texture_bytes(lut: &[u8]) -> (texels: Vec<u8>)
    requires
        lut@.len() == LUT_DATA_LEN,
    ensures
        texels@.len() == 4 * 729,
        forall|t: int, c: int|
            0 <= t < 729 && 0 <= c < 3 ==> #[trigger] texels@[4 * t + c] == lut@[lut_texel_source(t) + c],
        forall|t: int| 0 <= t < 729 ==> #[trigger] texels@[4 * t + 3] == 255,
{
    let mut texels: Vec<u8> = Vec::new();
    let mut t: usize = 0;
    while t < 729
        invariant
            t <= 729,
            lut@.len() == LUT_DATA_LEN,
            texels@.len() == 4 * t,
            forall|u: int, c: int|
                0 <= u < t && 0 <= c < 3 ==> #[trigger] texels@[4 * u + c] == lut@[lut_texel_source(u) + c],
            forall|u: int| 0 <= u < t ==> #[trigger] texels@[4 * u + 3] == 255,
        decreases 729 - t,
    {
        let g = t / 81;
        let column = t % 81;
        let b = column / 9;
        let r = column % 9;
        let source = ((b * 9 + g) * 9 + r) * 3;
        assert(source == lut_texel_source(t as int));
        texels.push(lut[source]);
        texels.push(lut[source + 1]);
        texels.push(lut[source + 2]);
        texels.push(255);
        t = t + 1;
    }
    texels
}

/// The LUT texture holds every LUT point at its place: point `(r, g, b)` at
/// texel row `g`, column `b * 9 + r`.
pub proof fn law_lut_point_position(r: int, g: int, b: int)
    requires
        0 <= r < 9,
        0 <= g < 9,
        0 <= b < 9,
    ensures
        lut_texel_source(g * 81 + b * 9 + r) == ((b * 9 + g) * 9 + r) * 3,
{
    let t = g * 81 + b * 9 + r;
    assert(t / 81 == g);
    assert(t % 81 == b * 9 + r);
    assert((b * 9 + r) / 9 == b);
    assert((b * 9 + r) % 9 == r);
}

proof fn lemma_unsupported_none(shader: Seq<char>, uniforms: Seq<UniformEntry>, accepted: Seq<Seq<char>>)
    ensures
        unsupported_uniform_error(shader, uniforms, accepted) is None <==> forall|i: int|
            0 <= i < uniforms.len() ==> accepted.contains(#[trigger] uniforms[i].name@),
    decreases uniforms.len(),
{
    if uniforms.len() > 0 {
        let rest = uniforms.drop_first();
        lemma_unsupported_none(shader, rest, accepted);
        assert forall|i: int| 1 <= i < uniforms.len() implies #[trigger] uniforms[i].name@ == rest[i - 1].name@ by {}
        if unsupported_uniform_error(shader, uniforms, accepted) is None {
            assert forall|i: int| 0 <= i < uniforms.len() implies accepted.contains(#[trigger] uniforms[i].name@) by {
                if i > 0 {
                    assert(rest[i - 1] == uniforms[i]);
                }
            }
        } else if accepted.contains(uniforms[0].name@) {
            let j = choose|j: int| 0 <= j < rest.len() && !accepted.contains(#[trigger] rest[j].name@);
            assert(uniforms[j + 1] == rest[j]);
        }
    }
}

proof fn lemma_number_uniforms_none(shader: Seq<char>, uniforms: Seq<UniformEntry>, names: Seq<Seq<char>>)
    requires
        number_uniforms_error(shader, uniforms, names) is None,
    ensures
        forall|k: int| 0 <= k < names.len() ==> number_uniform_error(shader, uniforms, #[trigger] names[k]) is None,
    decreases names.len(),
{
    if names.len() > 0 {
        lemma_number_uniforms_none(shader, uniforms, names.drop_first());
        assert forall|k: int| 0 <= k < names.len() implies number_uniform_error(shader, uniforms, #[trigger] names[k]) is None by {
            if k > 0 {
                assert(names[k] == names.drop_first()[k - 1]);
            }
        }
    }
}

proof fn lemma_find_uniform_some(uniforms: Seq<UniformEntry>, name: Seq<char>)
    ensures
        find_uniform(uniforms, name) matches Some(i) ==> 0 <= i < uniforms.len() && uniforms[i].name@ == name,
        find_uniform(uniforms, name) is None ==> forall|i: int| 0 <= i < uniforms.len() ==> #[trigger] uniforms[i].name@ != name,
{
    lemma_find_from_found(uniforms, name, 0);
    lemma_find_from_none(uniforms, name, 0);
}

proof fn lemma_find_from_none(uniforms: Seq<UniformEntry>, name: Seq<char>, start: nat)
    ensures
        find_from(uniforms, name, start) is None ==> forall|i: int| start <= i < uniforms.len() ==> #[trigger] uniforms[i].name@ != name,
    decreases uniforms.len() - start,
{
    if start < uniforms.len() {
        lemma_find_from_none(uniforms, name, start + 1);
    }
}

/// A uniform that the pass's shader does not take is never silently ignored:
/// the pass is refused.
pub proof fn law_unexpected_uniform_is_refused(shader: Seq<char>, uniforms: Seq<UniformEntry>, i: int)
    requires
        0 <= i < uniforms.len(),
        !accepted_uniforms(shader).contains(uniforms[i].name@),
    ensures
        pass_error(shader, uniforms) is Some,
{
    lemma_unsupported_none(shader, uniforms, accepted_uniforms(shader));
}

/// A pass that is accepted names a known shader, gives every number uniform of
/// the shader as a number, its vector uniform as a two-component vector, for the
/// LUT shader its LUT data as a vector of `LUT_DATA_LEN` values, and no other
/// uniform.
pub proof fn law_accepted_pass_is_well_formed(shader: Seq<char>, uniforms: Seq<UniformEntry>)
    requires
        pass_error(shader, uniforms) is None,
    ensures
        known_shader(shader),
        forall|i: int| 0 <= i < uniforms.len() ==> accepted_uniforms(shader).contains(#[trigger] uniforms[i].name@),
        forall|k: int|
            0 <= k < number_uniforms(shader).len() ==> exists|i: int|
                0 <= i < uniforms.len() && uniforms[i].name@ == #[trigger] number_uniforms(shader)[k]
                    && uniforms[i].kind == UniformKind::Number,
        vector_uniform(shader) matches Some(name) ==> exists|i: int|
            0 <= i < uniforms.len() && #[trigger] uniforms[i].name@ == name && uniforms[i].kind == UniformKind::Vector(2),
        shader == "lut-3d"@ ==> exists|i: int|
            0 <= i < uniforms.len() && #[trigger] uniforms[i].name@ == "u_lut_data"@ && uniforms[i].kind
                == UniformKind::Vector(LUT_DATA_LEN),
{
    lemma_unsupported_none(shader, uniforms, accepted_uniforms(shader));
    lemma_number_uniforms_none(shader, uniforms, number_uniforms(shader));
    assert forall|k: int| 0 <= k < number_uniforms(shader).len() implies exists|i: int|
        0 <= i < uniforms.len() && uniforms[i].name@ == #[trigger] number_uniforms(shader)[k]
            && uniforms[i].kind == UniformKind::Number by {
        lemma_find_uniform_some(uniforms, number_uniforms(shader)[k]);
        let i = find_uniform(uniforms, number_uniforms(shader)[k])->0;
        assert(uniforms[i].name@ == number_uniforms(shader)[k]);
    }
    if let Some(name) = vector_uniform(shader) {
        lemma_find_uniform_some(uniforms, name);
        let i = find_uniform(uniforms, name)->0;
        assert(uniforms[i].name@ == name);
    }
    if shader == "lut-3d"@ {
        lemma_find_uniform_some(uniforms, "u_lut_data"@);
        let i = find_uniform(uniforms, "u_lut_data"@)->0;
        assert(uniforms[i].name@ == "u_lut_data"@);
    }
}

// ---- each shader's uniforms, by name ----

/// Scalar slot `k` holds the first uniform of the pass named `name`.
pub open spec fn scalar_slot_is(slots: UniformSlots, uniforms: Seq<UniformEntry>, k: int, name: Seq<char>) -> bool {
    opt_index(slots.scalars@[k]) == find_uniform(uniforms, name)
}

/// Scalar slots `start..16` are all empty.
pub open spec fn scalar_slots_empty_from(slots: UniformSlots, start: int) -> bool {
    forall|k: int| start <= k < 16 ==> #[trigger] slots.scalars@[k] is None
}

/// Every uniform of the pass has one of the names `names`.
pub open spec fn names_among(uniforms: Seq<UniformEntry>, names: Seq<Seq<char>>) -> bool {
    forall|i: int| 0 <= i < uniforms.len() ==> names.contains(#[trigger] uniforms[i].name@)
}

/// The pass has a uniform named `name`, and every uniform of that name has
/// the shape `kind`.
pub open spec fn gives(uniforms: Seq<UniformEntry>, name: Seq<char>, kind: UniformKind) -> bool {
    &&& exists|i: int| 0 <= i < uniforms.len() && #[trigger] uniforms[i].name@ == name
    &&& forall|i: int| 0 <= i < uniforms.len() && #[trigger] uniforms[i].name@ == name ==> uniforms[i].kind == kind
}

/// The pass gives each of `names` as a number.
pub open spec fn gives_numbers(uniforms: Seq<UniformEntry>, names: Seq<Seq<char>>) -> bool {
    forall|k: int| 0 <= k < names.len() ==> gives(uniforms, #[trigger] names[k], UniformKind::Number)
}

/// The uniform names of every shader, written out.
proof fn lemma_shader_tables()
    ensures
        number_uniforms("gaussian-blur"@) == seq!["u_sigma"@, "u_step"@],
        vector_uniform("gaussian-blur"@) == Some("u_direction"@),
        extra_uniforms("gaussian-blur"@) == Seq::<Seq<char>>::empty(),
        number_uniforms("primary-wheels"@) == seq![
            "u_lift"@,
            "u_gamma"@,
            "u_gain"@,
            "u_offset"@,
        ],
        vector_uniform("primary-wheels"@) is None,
        extra_uniforms("primary-wheels"@) == Seq::<Seq<char>>::empty(),
        number_uniforms("log-wheels"@) == seq![
            "u_lift"@,
            "u_gamma_offset"@,
            "u_gain"@,
            "u_offset"@,
        ],
        vector_uniform("log-wheels"@) is None,
        extra_uniforms("log-wheels"@) == Seq::<Seq<char>>::empty(),
        number_uniforms("hsl-qualifier"@) == seq![
            "u_hue_center"@,
            "u_hue_width"@,
            "u_sat_center"@,
            "u_sat_width"@,
            "u_lum_center"@,
            "u_lum_width"@,
            "u_softness"@,
        ],
        vector_uniform("hsl-qualifier"@) is None,
        extra_uniforms("hsl-qualifier"@) == Seq::<Seq<char>>::empty(),
        number_uniforms("luma-curve"@) == seq!["u_y0"@, "u_y1"@, "u_y2"@, "u_y3"@, "u_y4"@],
        vector_uniform("luma-curve"@) is None,
        extra_uniforms("luma-curve"@) == Seq::<Seq<char>>::empty(),
        number_uniforms("lut-3d"@) == seq!["u_intensity"@],
        vector_uniform("lut-3d"@) is None,
        extra_uniforms("lut-3d"@) == seq!["u_lut_data"@],
        number_uniforms("exposure"@) == seq!["u_ev"@],
        vector_uniform("exposure"@) is None,
        extra_uniforms("exposure"@) == Seq::<Seq<char>>::empty(),
        number_uniforms("white-balance"@) == seq!["u_temperature"@, "u_tint"@],
        vector_uniform("white-balance"@) is None,
        extra_uniforms("white-balance"@) == Seq::<Seq<char>>::empty(),
        number_uniforms("rgb-curves"@) == seq![
            "u_r_y0"@,
            "u_r_y1"@,
            "u_r_y2"@,
            "u_r_y3"@,
            "u_r_y4"@,
            "u_g_y0"@,
            "u_g_y1"@,
            "u_g_y2"@,
            "u_g_y3"@,
            "u_g_y4"@,
            "u_b_y0"@,
            "u_b_y1"@,
            "u_b_y2"@,
            "u_b_y3"@,
            "u_b_y4"@,
        ],
        vector_uniform("rgb-curves"@) is None,
        extra_uniforms("rgb-curves"@) == Seq::<Seq<char>>::empty(),
{
    reveal_strlit("lut-3d");
    reveal_strlit("gaussian-blur");
    reveal_strlit("primary-wheels");
    reveal_strlit("log-wheels");
    reveal_strlit("hsl-qualifier");
    reveal_strlit("luma-curve");
    reveal_strlit("exposure");
    reveal_strlit("white-balance");
    reveal_strlit("rgb-curves");
    assert("lut-3d"@.len() == 6);
    assert("gaussian-blur"@.len() == 13);
    assert("primary-wheels"@.len() == 14);
    assert("log-wheels"@.len() == 10);
    assert("hsl-qualifier"@.len() == 13);
    assert("luma-curve"@.len() == 10);
    assert("exposure"@.len() == 8);
    assert("white-balance"@.len() == 13);
    assert("rgb-curves"@.len() == 10);
    assert("gaussian-blur"@[0] == 'g');
    assert("hsl-qualifier"@[0] == 'h');
    assert("white-balance"@[0] == 'w');
    assert("log-wheels"@[1] == 'o');
    assert("luma-curve"@[1] == 'u');
    assert("rgb-curves"@[0] == 'r');
}

/// Where each uniform of an accepted pass goes, shader by shader: scalar slot
/// `k` holds the shader's `k`-th parameter in the order the shader reads them
/// (for instance lift, gamma, gain, offset for the primary wheels), every later
/// scalar slot is empty, `direction` holds the blur direction of a blur pass
/// and nothing otherwise, and only the LUT pass has LUT data.
pub proof fn law_slot_layout_of_each_shader(slots: UniformSlots, shader: Seq<char>, uniforms: Seq<UniformEntry>)
    requires
        slots_of_pass(slots, shader, uniforms),
    ensures
        shader == "gaussian-blur"@ ==> {
            &&& scalar_slot_is(slots, uniforms, 0, "u_sigma"@)
            &&& scalar_slot_is(slots, uniforms, 1, "u_step"@)
            &&& scalar_slots_empty_from(slots, 2)
            &&& opt_index(slots.direction) == find_uniform(uniforms, "u_direction"@)
            &&& slots.lut_data is None
        },
        shader == "primary-wheels"@ ==> {
            &&& scalar_slot_is(slots, uniforms, 0, "u_lift"@)
            &&& scalar_slot_is(slots, uniforms, 1, "u_gamma"@)
            &&& scalar_slot_is(slots, uniforms, 2, "u_gain"@)
            &&& scalar_slot_is(slots, uniforms, 3, "u_offset"@)
            &&& scalar_slots_empty_from(slots, 4)
            &&& slots.direction is None
            &&& slots.lut_data is None
        },
        shader == "log-wheels"@ ==> {
            &&& scalar_slot_is(slots, uniforms, 0, "u_lift"@)
            &&& scalar_slot_is(slots, uniforms, 1, "u_gamma_offset"@)
            &&& scalar_slot_is(slots, uniforms, 2, "u_gain"@)
            &&& scalar_slot_is(slots, uniforms, 3, "u_offset"@)
            &&& scalar_slots_empty_from(slots, 4)
            &&& slots.direction is None
            &&& slots.lut_data is None
        },
        shader == "hsl-qualifier"@ ==> {
            &&& scalar_slot_is(slots, uniforms, 0, "u_hue_center"@)
            &&& scalar_slot_is(slots, uniforms, 1, "u_hue_width"@)
            &&& scalar_slot_is(slots, uniforms, 2, "u_sat_center"@)
            &&& scalar_slot_is(slots, uniforms, 3, "u_sat_width"@)
            &&& scalar_slot_is(slots, uniforms, 4, "u_lum_center"@)
            &&& scalar_slot_is(slots, uniforms, 5, "u_lum_width"@)
            &&& scalar_slot_is(slots, uniforms, 6, "u_softness"@)
            &&& scalar_slots_empty_from(slots, 7)
            &&& slots.direction is None
            &&& slots.lut_data is None
        },
        shader == "luma-curve"@ ==> {
            &&& scalar_slot_is(slots, uniforms, 0, "u_y0"@)
            &&& scalar_slot_is(slots, uniforms, 1, "u_y1"@)
            &&& scalar_slot_is(slots, uniforms, 2, "u_y2"@)
            &&& scalar_slot_is(slots, uniforms, 3, "u_y3"@)
            &&& scalar_slot_is(slots, uniforms, 4, "u_y4"@)
            &&& scalar_slots_empty_from(slots, 5)
            &&& slots.direction is None
            &&& slots.lut_data is None
        },
        shader == "lut-3d"@ ==> {
            &&& scalar_slot_is(slots, uniforms, 0, "u_intensity"@)
            &&& scalar_slots_empty_from(slots, 1)
            &&& slots.direction is None
            &&& opt_index(slots.lut_data) == find_uniform(uniforms, "u_lut_data"@)
        },
        shader == "exposure"@ ==> {
            &&& scalar_slot_is(slots, uniforms, 0, "u_ev"@)
            &&& scalar_slots_empty_from(slots, 1)
            &&& slots.direction is None
            &&& slots.lut_data is None
        },
        shader == "white-balance"@ ==> {
            &&& scalar_slot_is(slots, uniforms, 0, "u_temperature"@)
            &&& scalar_slot_is(slots, uniforms, 1, "u_tint"@)
            &&& scalar_slots_empty_from(slots, 2)
            &&& slots.direction is None
            &&& slots.lut_data is None
        },
        shader == "rgb-curves"@ ==> {
            &&& scalar_slot_is(slots, uniforms, 0, "u_r_y0"@)
            &&& scalar_slot_is(slots, uniforms, 1, "u_r_y1"@)
            &&& scalar_slot_is(slots, uniforms, 2, "u_r_y2"@)
            &&& scalar_slot_is(slots, uniforms, 3, "u_r_y3"@)
            &&& scalar_slot_is(slots, uniforms, 4, "u_r_y4"@)
            &&& scalar_slot_is(slots, uniforms, 5, "u_g_y0"@)
            &&& scalar_slot_is(slots, uniforms, 6, "u_g_y1"@)
            &&& scalar_slot_is(slots, uniforms, 7, "u_g_y2"@)
            &&& scalar_slot_is(slots, uniforms, 8, "u_g_y3"@)
            &&& scalar_slot_is(slots, uniforms, 9, "u_g_y4"@)
            &&& scalar_slot_is(slots, uniforms, 10, "u_b_y0"@)
            &&& scalar_slot_is(slots, uniforms, 11, "u_b_y1"@)
            &&& scalar_slot_is(slots, uniforms, 12, "u_b_y2"@)
            &&& scalar_slot_is(slots, uniforms, 13, "u_b_y3"@)
            &&& scalar_slot_is(slots, uniforms, 14, "u_b_y4"@)
            &&& scalar_slots_empty_from(slots, 15)
            &&& slots.direction is None
            &&& slots.lut_data is None
        },
{
    lemma_shader_tables();
    reveal_strlit("lut-3d");
    reveal_strlit("gaussian-blur");
    reveal_strlit("primary-wheels");
    reveal_strlit("log-wheels");
    reveal_strlit("hsl-qualifier");
    reveal_strlit("luma-curve");
    reveal_strlit("exposure");
    reveal_strlit("white-balance");
    reveal_strlit("rgb-curves");
    assert("lut-3d"@.len() == 6);
    assert forall|k: int| number_uniforms(shader).len() <= k < 16 implies #[trigger] slots.scalars@[k] is None by {
        assert(opt_index(slots.scalars@[k]) is None);
    }
}

/// An accepted pass carries no uniform outside its shader's own names: a blur
/// pass only `u_sigma`, `u_step` and `u_direction`, a LUT pass only
/// `u_intensity` and `u_lut_data`, and every other shader only the parameters
/// it packs into its uniform buffer. Its shader is one of the nine known ones.
pub proof fn law_accepted_names_of_each_shader(shader: Seq<char>, uniforms: Seq<UniformEntry>)
    requires
        pass_error(shader, uniforms) is None,
    ensures
        shader == "gaussian-blur"@ || shader == "primary-wheels"@ || shader == "log-wheels"@ || shader
            == "hsl-qualifier"@ || shader == "luma-curve"@ || shader == "lut-3d"@ || shader == "exposure"@ || shader
            == "white-balance"@ || shader == "rgb-curves"@,
        shader == "gaussian-blur"@ ==> names_among(uniforms, seq!["u_sigma"@, "u_step"@, "u_direction"@]),
        shader == "primary-wheels"@ ==> names_among(uniforms, seq![
            "u_lift"@,
            "u_gamma"@,
            "u_gain"@,
            "u_offset"@,
        ]),
        shader == "log-wheels"@ ==> names_among(uniforms, seq![
            "u_lift"@,
            "u_gamma_offset"@,
            "u_gain"@,
            "u_offset"@,
        ]),
        shader == "hsl-qualifier"@ ==> names_among(
            uniforms,
            seq![
                "u_hue_center"@,
                "u_hue_width"@,
                "u_sat_center"@,
                "u_sat_width"@,
                "u_lum_center"@,
                "u_lum_width"@,
                "u_softness"@,
            ],
        ),
        shader == "luma-curve"@ ==> names_among(uniforms, seq!["u_y0"@, "u_y1"@, "u_y2"@, "u_y3"@, "u_y4"@]),
        shader == "lut-3d"@ ==> names_among(uniforms, seq!["u_intensity"@, "u_lut_data"@]),
        shader == "exposure"@ ==> names_among(uniforms, seq!["u_ev"@]),
        shader == "white-balance"@ ==> names_among(uniforms, seq!["u_temperature"@, "u_tint"@]),
        shader == "rgb-curves"@ ==> names_among(
            uniforms,
            seq![
                "u_r_y0"@,
                "u_r_y1"@,
                "u_r_y2"@,
                "u_r_y3"@,
                "u_r_y4"@,
                "u_g_y0"@,
                "u_g_y1"@,
                "u_g_y2"@,
                "u_g_y3"@,
                "u_g_y4"@,
                "u_b_y0"@,
                "u_b_y1"@,
                "u_b_y2"@,
                "u_b_y3"@,
                "u_b_y4"@,
            ],
        ),
{
    lemma_shader_tables();
    lemma_unsupported_none(shader, uniforms, accepted_uniforms(shader));
    assert(accepted_uniforms(shader) =~= number_uniforms(shader) + match vector_uniform(shader) {
        Some(name) => seq![name],
        None => seq![],
    } + extra_uniforms(shader));
    if shader == "gaussian-blur"@ {
        assert(accepted_uniforms(shader) =~= seq!["u_sigma"@, "u_step"@, "u_direction"@]);
    } else if shader == "primary-wheels"@ {
        assert(accepted_uniforms(shader) =~= seq![
            "u_lift"@,
            "u_gamma"@,
            "u_gain"@,
            "u_offset"@,
        ]);
    } else if shader == "log-wheels"@ {
        assert(accepted_uniforms(shader) =~= seq![
            "u_lift"@,
            "u_gamma_offset"@,
            "u_gain"@,
            "u_offset"@,
        ]);
    } else if shader == "hsl-qualifier"@ {
        assert(accepted_uniforms(shader) =~= number_uniforms(shader));
    } else if shader == "luma-curve"@ {
        assert(accepted_uniforms(shader) =~= number_uniforms(shader));
    } else if shader == "lut-3d"@ {
        assert(accepted_uniforms(shader) =~= seq!["u_intensity"@, "u_lut_data"@]);
    } else if shader == "exposure"@ {
        assert(accepted_uniforms(shader) =~= seq!["u_ev"@]);
    } else if shader == "white-balance"@ {
        assert(accepted_uniforms(shader) =~= seq!["u_temperature"@, "u_tint"@]);
    } else if shader == "rgb-curves"@ {
        assert(accepted_uniforms(shader) =~= number_uniforms(shader));
    }
}

/// The first uniform named `name` has the shape every uniform of that name has.
proof fn lemma_given_is_found(uniforms: Seq<UniformEntry>, name: Seq<char>, kind: UniformKind)
    requires
        gives(uniforms, name, kind),
    ensures
        find_uniform(uniforms, name) matches Some(i) && 0 <= i < uniforms.len() && uniforms[i].kind == kind,
{
    lemma_find_uniform_some(uniforms, name);
    if find_uniform(uniforms, name) is None {
        let i = choose|i: int| 0 <= i < uniforms.len() && #[trigger] uniforms[i].name@ == name;
        assert(uniforms[i].name@ != name);
    }
}

proof fn lemma_numbers_given(shader: Seq<char>, uniforms: Seq<UniformEntry>, names: Seq<Seq<char>>)
    requires
        gives_numbers(uniforms, names),
    ensures
        number_uniforms_error(shader, uniforms, names) is None,
    decreases names.len(),
{
    if names.len() > 0 {
        lemma_given_is_found(uniforms, names[0], UniformKind::Number);
        assert forall|k: int| 0 <= k < names.drop_first().len() implies gives(
            uniforms,
            #[trigger] names.drop_first()[k],
            UniformKind::Number,
        ) by {
            assert(names.drop_first()[k] == names[k + 1]);
        }
        lemma_numbers_given(shader, uniforms, names.drop_first());
    }
}

/// A pass that carries every parameter of its shader in the right shape, and
/// nothing else, is accepted: numbers for the scalar parameters, a
/// two-component vector for the blur direction, `LUT_DATA_LEN` values for the
/// LUT data.
pub proof fn law_complete_pass_is_accepted(shader: Seq<char>, uniforms: Seq<UniformEntry>)
    requires
        shader == "gaussian-blur"@ || shader == "primary-wheels"@ || shader == "log-wheels"@ || shader
            == "hsl-qualifier"@ || shader == "luma-curve"@ || shader == "lut-3d"@ || shader == "exposure"@ || shader
            == "white-balance"@ || shader == "rgb-curves"@,
        shader == "gaussian-blur"@ ==> {
            &&& gives_numbers(uniforms, seq!["u_sigma"@, "u_step"@])
            &&& gives(uniforms, "u_direction"@, UniformKind::Vector(2))
            &&& names_among(uniforms, seq!["u_sigma"@, "u_step"@, "u_direction"@])
        },
        shader == "primary-wheels"@ ==> {
            let names = seq![
                "u_lift"@,
                "u_gamma"@,
                "u_gain"@,
                "u_offset"@,
            ];
            gives_numbers(uniforms, names) && names_among(uniforms, names)
        },
        shader == "log-wheels"@ ==> {
            let names = seq![
                "u_lift"@,
                "u_gamma_offset"@,
                "u_gain"@,
                "u_offset"@,
            ];
            gives_numbers(uniforms, names) && names_among(uniforms, names)
        },
        shader == "hsl-qualifier"@ ==> {
            let names = seq![
                "u_hue_center"@,
                "u_hue_width"@,
                "u_sat_center"@,
                "u_sat_width"@,
                "u_lum_center"@,
                "u_lum_width"@,
                "u_softness"@,
            ];
            gives_numbers(uniforms, names) && names_among(uniforms, names)
        },
        shader == "luma-curve"@ ==> {
            let names = seq!["u_y0"@, "u_y1"@, "u_y2"@, "u_y3"@, "u_y4"@];
            gives_numbers(uniforms, names) && names_among(uniforms, names)
        },
        shader == "lut-3d"@ ==> {
            &&& gives_numbers(uniforms, seq!["u_intensity"@])
            &&& gives(uniforms, "u_lut_data"@, UniformKind::Vector(LUT_DATA_LEN))
            &&& names_among(uniforms, seq!["u_intensity"@, "u_lut_data"@])
        },
        shader == "exposure"@ ==> {
            let names = seq!["u_ev"@];
            gives_numbers(uniforms, names) && names_among(uniforms, names)
        },
        shader == "white-balance"@ ==> {
            let names = seq!["u_temperature"@, "u_tint"@];
            gives_numbers(uniforms, names) && names_among(uniforms, names)
        },
        shader == "rgb-curves"@ ==> {
            let names = seq![
                "u_r_y0"@,
                "u_r_y1"@,
                "u_r_y2"@,
                "u_r_y3"@,
                "u_r_y4"@,
                "u_g_y0"@,
                "u_g_y1"@,
                "u_g_y2"@,
                "u_g_y3"@,
                "u_g_y4"@,
                "u_b_y0"@,
                "u_b_y1"@,
                "u_b_y2"@,
                "u_b_y3"@,
                "u_b_y4"@,
            ];
            gives_numbers(uniforms, names) && names_among(uniforms, names)
        },
    ensures
        pass_error(shader, uniforms) is None,
{
    lemma_shader_tables();
    lemma_numbers_given(shader, uniforms, number_uniforms(shader));
    lemma_unsupported_none(shader, uniforms, accepted_uniforms(shader));
    if shader == "gaussian-blur"@ {
        lemma_given_is_found(uniforms, "u_direction"@, UniformKind::Vector(2));
        assert(accepted_uniforms(shader) =~= seq!["u_sigma"@, "u_step"@, "u_direction"@]);
    } else if shader == "lut-3d"@ {
        lemma_given_is_found(uniforms, "u_lut_data"@, UniformKind::Vector(LUT_DATA_LEN));
        assert(accepted_uniforms(shader) =~= seq!["u_intensity"@, "u_lut_data"@]);
    } else {
        assert(accepted_uniforms(shader) =~= number_uniforms(shader));
    }
}

} // verus!

use vstd::prelude::*;
use vstd::string::StringExecFns;

verus! {

/// Declares `reqwest::Error`, carried opaquely by a failed API request.
#[verifier::external_type_specification]
#[verifier::external_body]
pub struct ExRequestError(reqwest::Error);

/// Declares `naga::front::glsl::ParseError`, carried opaquely by a failed
/// GLSL parse.
#[verifier::external_type_specification]
#[verifier::external_body]
pub struct ExGlslParseError(naga::front::glsl::ParseError);

/// Declares `naga::back::wgsl::Error`, carried opaquely by a failed WGSL
/// write.
#[verifier::external_type_specification]
#[verifier::external_body]
pub struct ExWgslError(naga::back::wgsl::Error);

/// Declares `naga::valid::ValidationError`, the error inside a failed
/// validation.
#[verifier::external_type_specification]
#[verifier::external_body]
pub struct ExValidationError(naga::valid::ValidationError);

/// Declares `naga::WithSpan`, the wrapper of a failed validation's error.
#[verifier::external_type_specification]
#[verifier::external_body]
#[verifier::reject_recursive_types(E)]
pub struct ExWithSpan<E>(naga::WithSpan<E>);

/// Declares `naga::Module`, handed opaquely from the parser to the
/// validator and the writer.
#[verifier::external_type_specification]
#[verifier::external_body]
pub struct ExModule(naga::Module);

/// Declares `naga::valid::ModuleInfo`, handed opaquely from the validator
/// to the writer.
#[verifier::external_type_specification]
#[verifier::external_body]
pub struct ExModuleInfo(naga::valid::ModuleInfo);

#[derive(Debug, Default)]
pub struct ShaderInfo {
    pub id: String,
    pub date: String,
    pub viewed: i32,
    pub name: String,
    pub username: String,
    pub description: String,
    pub likes: i32,
    pub published: i32,
    pub flags: i32,
    pub use_preview: i32,
    pub tags: Vec<String>,
    pub hasliked: i32,
}

#[derive(Debug, Default)]
pub struct Sampler {
    pub filter: String,
    pub wrap: String,
    pub vflip: String,
    pub srgb: String,
    pub internal: String,
}

#[derive(Debug, Default)]
pub struct ShaderInput {
    pub id: i32,
    pub src: String,
    pub ctype: String,
    pub channel: i32,
    pub sampler: Sampler,
    pub published: i32,
}

#[derive(Debug, Default)]
pub struct ShaderOutput {
    pub id: i32,
    pub channel: i32,
}

#[derive(Debug, Default)]
pub struct RenderPass {
    pub inputs: Vec<ShaderInput>,
    pub outputs: Vec<ShaderOutput>,
    pub code: String,
    pub name: String,
    pub description: String,
    /// The pass kind, `type` in the API.
    pub pass_type: String,
}

/// A shader as the ShaderToy API describes it.
#[derive(Debug, Default)]
pub struct Shader {
    pub ver: String,
    pub info: ShaderInfo,
    pub renderpass: Vec<RenderPass>,
}

#[derive(Debug)]
pub enum ShaderProcessingError {
    RequestError(reqwest::Error),
    ShaderError(String),
    ParseError(naga::front::glsl::ParseError),
    WgslError(naga::back::wgsl::Error),
    ValidationError(naga::WithSpan<naga::valid::ValidationError>),
    /// The shader has no function of the requested SDF name.
    MissingSdf(String),
}

/// What the ShaderToy API answers: a shader, or an error message.
#[derive(Debug)]
pub enum ShaderToyApiResponse {
    Shader(Shader),
    Error(String),
}

impl ShaderToyApiResponse {
    /// The shader of the answer, or its message as a shader error.
    pub fn into_shader(self) -> (r: Result<Shader, ShaderProcessingError>)
        ensures
            match r {
                Ok(_) => self is Shader,
                Err(ShaderProcessingError::ShaderError(m)) => self matches ShaderToyApiResponse::Error(
                    e,
                ) && m@ == e@,
                Err(_) => false,
            },
    {
        match self {
            ShaderToyApiResponse::Shader(shader) => Ok(shader),
            ShaderToyApiResponse::Error(error) => Err(ShaderProcessingError::ShaderError(error)),
        }
    }
}

/// The uniforms that ShaderToy provides to every shader, as GLSL
/// declarations.
pub const DEFAULT_UNIFORM_BLOCK: &'static str = r#"
        layout(binding=0) uniform vec3      iResolution;           // viewport resolution (in pixels)
		layout(binding=0) uniform float     iTime;                 // shader playback time (in seconds)
		layout(binding=0) uniform float     iTimeDelta;            // render time (in seconds)
		layout(binding=0) uniform int       iFrame;                // shader playback frame
		layout(binding=0) uniform vec4      iChannelTime;          // channel playback time (in seconds)
		layout(binding=0) uniform vec4      iMouse;                // mouse pixel coords. xy: current (if MLB down), zw: click
		layout(binding=0) uniform vec4      iDate;                 // (year, month, day, time in seconds)
		layout(binding=0) uniform float     iSampleRate;           // sound sample rate (i.e., 44100)
        "#;

pub const GLSL_VERSION_LINE: &'static str = "#version 450 core\n";

/// An empty entry point: the GLSL front end only accepts a shader that
/// has one.
pub const EMPTY_MAIN: &'static str = " void main() {}";

/// The GLSL program that wraps a ShaderToy pass's code: version line,
/// uniform block, the code, and an empty entry point.
pub open spec fn glsl_program(code: Seq<char>) -> Seq<char> {
    GLSL_VERSION_LINE@ + DEFAULT_UNIFORM_BLOCK@ + code + EMPTY_MAIN@
}

impl Shader {
    pub fn fetch_code_from_last_pass(&self) -> (r: Option<String>)
        ensures
            self.renderpass@.len() == 0 ==> r is None,
            self.renderpass@.len() > 0 ==> r is Some && r->0@ == self.renderpass@.last().code@,
    {
        let n = self.renderpass.len();
        if n == 0 {
            None
        } else {
            Some(self.renderpass[n - 1].code.clone())
        }
    }

    pub fn default_uniform_block() -> (r: &'static str)
        ensures
            r@ == DEFAULT_UNIFORM_BLOCK@,
    {
        DEFAULT_UNIFORM_BLOCK
    }

    /// The WGSL form of the last pass's code wrapped as a GLSL
    /// program.
    pub fn generate_wgsl_shader_code(&self) -> (r: Result<WgslShaderCode, ShaderProcessingError>)
        requires
            self.renderpass@.len() > 0,
        ensures
            r matches Err(e) ==> is_conversion_error(e),
    {
        let code = self.fetch_code_from_last_pass();
        let glsl = glsl_wrapper(code.unwrap().as_str());
        match convert_glsl_to_wgsl(glsl.as_str()) {
            Ok(wgsl) => Ok(WgslShaderCode(wgsl)),
            Err(e) => Err(e),
        }
    }
}

/// `code` wrapped as a GLSL program with the ShaderToy uniforms.
pub fn glsl_wrapper(code: &str) -> (r: String)
    ensures
        r@ == glsl_program(code@),
{
    let mut glsl = String::new();
    glsl.append(GLSL_VERSION_LINE);
    glsl.append(Shader::default_uniform_block());
    glsl.append(code);
    glsl.append(EMPTY_MAIN);
    glsl
}

/// Whether an error is one of those that the GLSL to WGSL conversion
/// reports.
pub open spec fn is_conversion_error(e: ShaderProcessingError) -> bool {
    e is ParseError || e is ValidationError || e is WgslError
}

/// Relies on naga's GLSL front end (`Frontend::parse`) reading a fragment
/// shader.
#[verifier::external_body]
fn parse_glsl_fragment(glsl: &str) -> (r: Result<naga::Module, naga::front::glsl::ParseError>) {
    let mut frontend = naga::front::glsl::Frontend::default();
    let options = naga::front::glsl::Options::from(naga::ShaderStage::Fragment);
    frontend.parse(&options, glsl)
}

/// Relies on naga's `Validator::validate` with every check and capability.
#[verifier::external_body]
fn validate_module(module: &naga::Module) -> (r: Result<
    naga::valid::ModuleInfo,
    naga::WithSpan<naga::valid::ValidationError>,
>) {
    naga::valid::Validator::new(
        naga::valid::ValidationFlags::all(),
        naga::valid::Capabilities::all(),
    ).validate(module)
}

/// Relies on naga's WGSL back end (`Writer::write`) writing a validated
/// module.
#[verifier::external_body]
fn write_wgsl(module: &naga::Module, info: &naga::valid::ModuleInfo) -> (r: Result<
    String,
    naga::back::wgsl::Error,
>) {
    let mut wgsl = String::new();
    let mut writer = naga::back::wgsl::Writer::new(&mut wgsl, naga::back::wgsl::WriterFlags::empty());
    writer.write(module, info)?;
    drop(writer);
    Ok(wgsl)
}

/// Converts a GLSL fragment shader to WGSL: parse, validate, write.
pub fn convert_glsl_to_wgsl(glsl: &str) -> (r: Result<String, ShaderProcessingError>)
    ensures
        r matches Err(e) ==> is_conversion_error(e),
{
    let module = match parse_glsl_fragment(glsl) {
        Ok(m) => m,
        Err(e) => return Err(ShaderProcessingError::ParseError(e)),
    };
    let info = match validate_module(&module) {
        Ok(i) => i,
        Err(e) => return Err(ShaderProcessingError::ValidationError(e)),
    };
    match write_wgsl(&module, &info) {
        Ok(wgsl) => Ok(wgsl),
        Err(e) => Err(ShaderProcessingError::WgslError(e)),
    }
}

/// The lines of a text as `str::lines` splits it.
pub uninterp spec fn text_lines(s: Seq<char>) -> Seq<Seq<char>>;

/// A text without its leading and trailing whitespace, as `str::trim`
/// gives it.
pub uninterp spec fn trimmed(s: Seq<char>) -> Seq<char>;

pub open spec fn views(v: Seq<String>) -> Seq<Seq<char>> {
    v.map_values(|l: String| l@)
}

pub open spec fn is_prefix(p: Seq<char>, s: Seq<char>) -> bool {
    p.len() <= s.len() && s.subrange(0, p.len() as int) == p
}

pub open spec fn occurs_at(s: Seq<char>, p: Seq<char>, i: int) -> bool {
    0 <= i && i + p.len() <= s.len() && s.subrange(i, i + p.len()) == p
}

/// `s` with the first occurrence of `p` replaced by `t`.
pub open spec fn replaced_first(s: Seq<char>, p: Seq<char>, t: Seq<char>) -> Seq<char> {
    if exists|i: int| occurs_at(s, p, i) {
        let i = choose|i: int| occurs_at(s, p, i) && forall|j: int| 0 <= j < i ==> !occurs_at(s, p, j);
        s.subrange(0, i) + t + s.subrange(i + p.len(), s.len() as int)
    } else {
        s
    }
}

/// Relies on `str::lines`: the lines of `s`, without line terminators.
#[verifier::external_body]
pub(crate) fn split_lines(s: &str) -> (r: Vec<String>)
    ensures
        views(r@) == text_lines(s@),
{
    s.lines().map(|l| l.to_string()).collect()
}

/// Relies on `str::trim`: `s` without leading and trailing whitespace.
#[verifier::external_body]
pub(crate) fn trim_text(s: &str) -> (r: String)
    ensures
        r@ == trimmed(s@),
{
    s.trim().to_string()
}

/// Relies on `str::starts_with` with a string pattern.
#[verifier::external_body]
pub(crate) fn starts_with_text(s: &str, p: &str) -> (r: bool)
    ensures
        r == is_prefix(p@, s@),
{
    s.starts_with(p)
}

/// Relies on `str::replacen` with a count of one: the first occurrence
/// replaced, the rest kept.
#[verifier::external_body]
pub(crate) fn replace_first(s: &str, from: &str, to: &str) -> (r: String)
    ensures
        r@ == replaced_first(s@, from@, to@),
{
    s.replacen(from, to, 1)
}

/// The header that opens a WGSL function declaration: `fn name(`.
pub open spec fn function_header(name: Seq<char>) -> Seq<char> {
    "fn "@ + name + "("@
}

pub open spec fn not_found_message(name: Seq<char>) -> Seq<char> {
    "Function "@ + name + " not found in shader"@
}

pub open spec fn quoted_not_found_message(name: Seq<char>) -> Seq<char> {
    "Function `"@ + name + "` not found in shader"@
}

/// Removal of a function from trimmed lines, from line `i` on: the text
/// kept and whether a line starting with `name` was met.
///
/// A line starting with `name` opens the function; inside it every line is
/// dropped, and a line starting with `return;` closes it together with the
/// line after it. Every kept line ends with a newline.
pub open spec fn removal_from(ls: Seq<Seq<char>>, name: Seq<char>, i: int, in_fn: bool) -> (
    Seq<char>,
    bool,
)
    decreases ls.len() + 1 - i,
{
    if i >= ls.len() || i < 0 {
        (seq![], false)
    } else {
        let line = trimmed(ls[i]);
        let hit = is_prefix(name, line);
        if in_fn || hit {
            let rest = if is_prefix("return;"@, line) {
                removal_from(ls, name, i + 2, false)
            } else {
                removal_from(ls, name, i + 1, true)
            };
            (rest.0, hit || rest.1)
        } else {
            let rest = removal_from(ls, name, i + 1, false);
            (line + "\n"@ + rest.0, rest.1)
        }
    }
}

pub(crate) fn new_string(s: &str) -> (r: String)
    ensures
        r@ == s@,
{
    let mut r = String::new();
    r.append(s);
    r
}

/// `wgsl` with the function that starts with `function_name` removed, each
/// kept line trimmed.
pub fn remove_function_from_wgsl(wgsl: &str, function_name: &str) -> (r: Result<
    String,
    ShaderProcessingError,
>)
    ensures
        r is Ok <==> removal_from(text_lines(wgsl@), function_name@, 0, false).1,
        r matches Ok(w) ==> w@ == removal_from(text_lines(wgsl@), function_name@, 0, false).0,
        r matches Err(e) ==> e matches ShaderProcessingError::ShaderError(m) && m@
            == not_found_message(function_name@),
{
    let lines = split_lines(wgsl);
    let ghost ls = text_lines(wgsl@);
    let ghost whole = removal_from(ls, function_name@, 0, false);
    let mut new_wgsl = String::new();
    let mut in_function = false;
    let mut function_found = false;
    let mut i: usize = 0;
    while i < lines.len()
        invariant
            views(lines@) == ls,
            i <= lines@.len(),
            new_wgsl@ + removal_from(ls, function_name@, i as int, in_function).0 == whole.0,
            (function_found || removal_from(ls, function_name@, i as int, in_function).1) == whole.1,
        decreases lines@.len() - i,
    {
        assert(lines@[i as int]@ == ls[i as int]);
        let ghost (i0, in0, out0) = (i as int, in_function, new_wgsl@);
        let line = trim_text(lines[i].as_str());
        if starts_with_text(line.as_str(), function_name) {
            in_function = true;
            function_found = true;
        }
        if in_function {
            if starts_with_text(line.as_str(), "return;") {
                in_function = false;
                // The line after `return;` closes the function too.
                i = if i + 1 < lines.len() {
                    i + 2
                } else {
                    lines.len()
                };
            } else {
                i += 1;
            }
        } else {
            let ghost before = new_wgsl@;
            new_wgsl.append(line.as_str());
            new_wgsl.append("\n");
            assert(new_wgsl@ == before + line@ + "\n"@);
            i += 1;
        }
        proof {
            let rest = removal_from(ls, function_name@, i as int, in_function);
            let full = removal_from(ls, function_name@, i0, in0);
            if !in_function && i0 + 2 > ls.len() {
                assert(removal_from(ls, function_name@, i0 + 2, false) == rest);
            }
            if new_wgsl@ != out0 {
                assert(full.0 == line@ + "\n"@ + rest.0);
                assert(new_wgsl@ + rest.0 == out0 + full.0);
            } else {
                assert(full.0 == rest.0);
            }
        }
    }
    if !function_found {
        let mut message = new_string("Function ");
        message.append(function_name);
        message.append(" not found in shader");
        return Err(ShaderProcessingError::ShaderError(message));
    }
    assert(new_wgsl@ + seq![] == new_wgsl@);
    Ok(new_wgsl)
}

/// Whether some trimmed line of `wgsl` opens the function `name`.
pub open spec fn declares_function(wgsl: Seq<char>, name: Seq<char>) -> bool {
    exists|i: int|
        0 <= i < text_lines(wgsl).len() && is_prefix(
            function_header(name),
            trimmed(#[trigger] text_lines(wgsl)[i]),
        )
}

fn function_header_text(name: &str) -> (r: String)
    ensures
        r@ == function_header(name@),
{
    let mut header = new_string("fn ");
    header.append(name);
    header.append("(");
    header
}

/// `Ok(true)` where some trimmed line of `wgsl` opens the function
/// `function_name`, an error naming it otherwise.
pub fn wgsl_has_function(wgsl: &str, function_name: &str) -> (r: Result<bool, ShaderProcessingError>)
    ensures
        r is Ok <==> declares_function(wgsl@, function_name@),
        r matches Ok(b) ==> b,
        r matches Err(e) ==> e matches ShaderProcessingError::ShaderError(m) && m@
            == not_found_message(function_name@),
{
    let lines = split_lines(wgsl);
    let header = function_header_text(function_name);
    let mut i: usize = 0;
    while i < lines.len()
        invariant
            views(lines@) == text_lines(wgsl@),
            header@ == function_header(function_name@),
            i <= lines@.len(),
            forall|j: int|
                0 <= j < i ==> !is_prefix(
                    function_header(function_name@),
                    trimmed(#[trigger] text_lines(wgsl@)[j]),
                ),
        decreases lines@.len() - i,
    {
        assert(lines@[i as int]@ == text_lines(wgsl@)[i as int]);
        let line = trim_text(lines[i].as_str());
        if starts_with_text(line.as_str(), header.as_str()) {
            return Ok(true);
        }
        i += 1;
    }
    let mut message = new_string("Function ");
    message.append(function_name);
    message.append(" not found in shader");
    Err(ShaderProcessingError::ShaderError(message))
}

/// The first `n` trimmed lines with the function `old` renamed to `new`:
/// its header line has the first `old` replaced and loses its newline,
/// every other line keeps one.
pub open spec fn renamed_upto(ls: Seq<Seq<char>>, old: Seq<char>, new: Seq<char>, n: int) -> Seq<char>
    decreases n,
{
    if n <= 0 || n > ls.len() {
        seq![]
    } else {
        let line = trimmed(ls[n - 1]);
        renamed_upto(ls, old, new, n - 1) + if is_prefix(function_header(old), line) {
            replaced_first(line, old, new)
        } else {
            line + "\n"@
        }
    }
}

/// `wgsl` with each trimmed line kept and the function
/// `old_function_name` renamed to `new_function_name`, or an error naming
/// it where no line declares it.
pub fn rename_function_in_wgsl(wgsl: &str, old_function_name: &str, new_function_name: &str) -> (r:
    Result<String, ShaderProcessingError>)
    ensures
        r is Ok <==> declares_function(wgsl@, old_function_name@),
        r matches Ok(w) ==> w@ == renamed_upto(
            text_lines(wgsl@),
            old_function_name@,
            new_function_name@,
            text_lines(wgsl@).len() as int,
        ),
        r matches Err(e) ==> e matches ShaderProcessingError::ShaderError(m) && m@
            == quoted_not_found_message(old_function_name@),
{
    let lines = split_lines(wgsl);
    let ghost ls = text_lines(wgsl@);
    let header = function_header_text(old_function_name);
    let mut new_wgsl = String::new();
    let mut function_found = false;
    let mut i: usize = 0;
    while i < lines.len()
        invariant
            views(lines@) == ls,
            header@ == function_header(old_function_name@),
            i <= lines@.len(),
            new_wgsl@ == renamed_upto(ls, old_function_name@, new_function_name@, i as int),
            function_found <==> exists|j: int|
                0 <= j < i && is_prefix(function_header(old_function_name@), trimmed(#[trigger] ls[j])),
        decreases lines@.len() - i,
    {
        assert(lines@[i as int]@ == ls[i as int]);
        let line = trim_text(lines[i].as_str());
        let ghost before = new_wgsl@;
        if starts_with_text(line.as_str(), header.as_str()) {
            function_found = true;
            let renamed = replace_first(line.as_str(), old_function_name, new_function_name);
            new_wgsl.append(renamed.as_str());
        } else {
            new_wgsl.append(line.as_str());
            new_wgsl.append("\n");
        }
        assert(new_wgsl@ == renamed_upto(ls, old_function_name@, new_function_name@, i + 1));
        i += 1;
    }
    if !function_found {
        let mut message = new_string("Function `");
        message.append(old_function_name);
        message.append("` not found in shader");
        return Err(ShaderProcessingError::ShaderError(message));
    }
    Ok(new_wgsl)
}

/// The trimmed lines among the first `n` that are not `line`, each with a
/// newline.
pub open spec fn kept_lines_upto(ls: Seq<Seq<char>>, line: Seq<char>, n: int) -> Seq<char>
    decreases n,
{
    if n <= 0 || n > ls.len() {
        seq![]
    } else {
        let t = trimmed(ls[n - 1]);
        kept_lines_upto(ls, line, n - 1) + if t == line {
            seq![]
        } else {
            t + "\n"@
        }
    }
}

/// The WGSL entry point that forwards to the SDF function `sdf`.
pub open spec fn sdf_entry_line(sdf: Seq<char>) -> Seq<char> {
    "fn sdf3d(p: vec3<f32>) -> f32 { return "@ + sdf + "(p); }"@
}

/// WGSL source text.
#[derive(Debug)]
pub struct WgslShaderCode(pub String);

impl WgslShaderCode {
    pub fn remove_function(&mut self, function_name: &str) -> (r: Result<(), ShaderProcessingError>)
        ensures
            r is Ok <==> removal_from(text_lines(old(self).0@), function_name@, 0, false).1,
            r is Ok ==> final(self).0@ == removal_from(
                text_lines(old(self).0@),
                function_name@,
                0,
                false,
            ).0,
            r is Err ==> final(self).0@ == old(self).0@,
            r matches Err(e) ==> e matches ShaderProcessingError::ShaderError(m) && m@
                == not_found_message(function_name@),
    {
        match remove_function_from_wgsl(self.0.as_str(), function_name) {
            Ok(w) => {
                self.0 = w;
                Ok(())
            },
            Err(e) => Err(e),
        }
    }

    pub fn has_function(&self, function_name: &str) -> (r: bool)
        ensures
            r == declares_function(self.0@, function_name@),
    {
        match wgsl_has_function(self.0.as_str(), function_name) {
            Ok(b) => b,
            Err(_) => false,
        }
    }

    pub fn rename_function(&mut self, old_function_name: &str, new_function_name: &str) -> (r:
        Result<(), ShaderProcessingError>)
        ensures
            r is Ok <==> declares_function(old(self).0@, old_function_name@),
            r is Ok ==> final(self).0@ == renamed_upto(
                text_lines(old(self).0@),
                old_function_name@,
                new_function_name@,
                text_lines(old(self).0@).len() as int,
            ),
            r is Err ==> final(self).0@ == old(self).0@,
    {
        match rename_function_in_wgsl(self.0.as_str(), old_function_name, new_function_name) {
            Ok(w) => {
                self.0 = w;
                Ok(())
            },
            Err(e) => Err(e),
        }
    }

    pub fn add_line(&mut self, line: &str)
        ensures
            final(self).0@ == old(self).0@ + line@ + "\n"@,
    {
        self.0.append(line);
        self.0.append("\n");
    }

    /// Drops every line that, trimmed, is `line`; the other lines are kept
    /// trimmed, each with a newline.
    pub fn remove_line(&mut self, line: &str)
        ensures
            final(self).0@ == kept_lines_upto(
                text_lines(old(self).0@),
                line@,
                text_lines(old(self).0@).len() as int,
            ),
    {
        let lines = split_lines(self.0.as_str());
        let ghost ls = text_lines(self.0@);
        let mut kept = String::new();
        let mut i: usize = 0;
        while i < lines.len()
            invariant
                views(lines@) == ls,
                i <= lines@.len(),
                kept@ == kept_lines_upto(ls, line@, i as int),
            decreases lines@.len() - i,
        {
            assert(lines@[i as int]@ == ls[i as int]);
            let t = trim_text(lines[i].as_str());
            if t != new_string(line) {
                kept.append(t.as_str());
                kept.append("\n");
            }
            i += 1;
        }
        self.0 = kept;
    }

    /// Makes sure the code has an `sdf3d` entry point: where it has none, a
    /// function `sdf3d` that calls `sdf` is appended. An error where the
    /// code has no function `sdf`.
    pub fn attach_sdf_entry(&mut self, sdf: &str) -> (r: Result<(), ShaderProcessingError>)
        ensures
            r is Ok <==> declares_function(old(self).0@, sdf@),
            r is Err ==> final(self).0@ == old(self).0@,
            r matches Err(e) ==> e matches ShaderProcessingError::MissingSdf(m) && m@ == sdf@,
            r is Ok && declares_function(old(self).0@, "sdf3d"@) ==> final(self).0@ == old(self).0@,
            r is Ok && !declares_function(old(self).0@, "sdf3d"@) ==> final(self).0@ == old(self).0@
                + sdf_entry_line(sdf@) + "\n"@,
    {
        if self.has_function(sdf) {
            if !self.has_function("sdf3d") {
                let mut entry = new_string("fn sdf3d(p: vec3<f32>) -> f32 { return ");
                entry.append(sdf);
                entry.append("(p); }");
                self.add_line(entry.as_str());
            }
            Ok(())
        } else {
            Err(ShaderProcessingError::MissingSdf(new_string(sdf)))
        }
    }

    /// The source text.
    pub fn to_string(&self) -> (r: String)
        ensures
            r@ == self.0@,
    {
        self.0.clone()
    }
}

} // verus!

//! The sandboxed script engine plugins run in, and the check of a whole
//! package: its rules first, then the compilation of its script.
use vstd::prelude::*;

use crate::script::{package_error, validate_package_outline, ErrorV, ScriptPackageOutline, ScriptPluginError};
use rhai::Engine;

verus! {

/// Most operations one script run may take.
pub const MAX_SCRIPT_OPERATIONS: u64 = 50000;

/// Deepest nesting of function calls in a script.
pub const MAX_SCRIPT_CALL_LEVELS: usize = 32;

/// Deepest expression at the top level of a script.
pub const MAX_SCRIPT_EXPR_DEPTH: usize = 128;

/// Deepest expression inside a script's functions.
pub const MAX_SCRIPT_FUNCTION_EXPR_DEPTH: usize = 64;

/// Longest string a script may build, in bytes.
pub const MAX_SCRIPT_STRING_BYTES: usize = 2097152;

/// Longest array a script may build.
pub const MAX_SCRIPT_ARRAY_LEN: usize = 2048;

/// Largest object map a script may build.
pub const MAX_SCRIPT_MAP_LEN: usize = 2048;

#[verifier::external_type_specification]
#[verifier::external_body]
pub struct ExEngine(rhai::Engine);

/// Calls `rhai::Engine::new`: an engine with the standard packages. Nothing
/// is stated of it; the engine is opaque here.
#[verifier::external_body]
fn new_engine() -> Engine {
    Engine::new()
}

/// Calls `rhai::Engine::set_max_operations`.
#[verifier::external_body]
fn set_max_operations(engine: &mut Engine, operations: u64) {
    engine.set_max_operations(operations);
}

/// Calls `rhai::Engine::set_max_call_levels`.
#[verifier::external_body]
fn set_max_call_levels(engine: &mut Engine, levels: usize) {
    engine.set_max_call_levels(levels);
}

/// Calls `rhai::Engine::set_max_expr_depths`.
#[verifier::external_body]
fn set_max_expr_depths(engine: &mut Engine, depth: usize, function_depth: usize) {
    engine.set_max_expr_depths(depth, function_depth);
}

/// Calls `rhai::Engine::set_max_string_size`.
#[verifier::external_body]
fn set_max_string_size(engine: &mut Engine, bytes: usize) {
    engine.set_max_string_size(bytes);
}

/// Calls `rhai::Engine::set_max_array_size`.
#[verifier::external_body]
fn set_max_array_size(engine: &mut Engine, len: usize) {
    engine.set_max_array_size(len);
}

/// Calls `rhai::Engine::set_max_map_size`.
#[verifier::external_body]
fn set_max_map_size(engine: &mut Engine, len: usize) {
    engine.set_max_map_size(len);
}

/// Calls `rhai::Engine::set_allow_shadowing`.
#[verifier::external_body]
fn set_allow_shadowing(engine: &mut Engine, allow: bool) {
    engine.set_allow_shadowing(allow);
}

/// Calls `rhai::Engine::set_fail_on_invalid_map_property`.
#[verifier::external_body]
fn set_fail_on_invalid_map_property(engine: &mut Engine, fail: bool) {
    engine.set_fail_on_invalid_map_property(fail);
}

/// Calls `rhai::Engine::disable_symbol`.
#[verifier::external_body]
fn disable_symbol(engine: &mut Engine, symbol: &str) {
    engine.disable_symbol(symbol);
}

/// The settings given to an engine since `rhai::Engine::new`. `None` is a
/// limit left at rhai's default.
#[derive(Clone, Copy, Debug, PartialEq, Eq, Structural)]
pub struct EngineSettings {
    pub max_operations: Option<u64>,
    pub max_call_levels: Option<usize>,
    pub max_expr_depth: Option<usize>,
    pub max_function_expr_depth: Option<usize>,
    pub max_string_size: Option<usize>,
    pub max_array_size: Option<usize>,
    pub max_map_size: Option<usize>,
    pub allow_shadowing: Option<bool>,
    pub fail_on_invalid_map_property: Option<bool>,
    pub eval_disabled: bool,
    pub import_disabled: bool,
}

/// The settings of a fresh engine: none changed.
pub open spec fn fresh_settings() -> EngineSettings {
    EngineSettings {
        max_operations: None,
        max_call_levels: None,
        max_expr_depth: None,
        max_function_expr_depth: None,
        max_string_size: None,
        max_array_size: None,
        max_map_size: None,
        allow_shadowing: None,
        fail_on_invalid_map_property: None,
        eval_disabled: false,
        import_disabled: false,
    }
}

/// The settings of the plugin engine.
pub open spec fn plugin_settings() -> EngineSettings {
    EngineSettings {
        max_operations: Some(MAX_SCRIPT_OPERATIONS),
        max_call_levels: Some(MAX_SCRIPT_CALL_LEVELS),
        max_expr_depth: Some(MAX_SCRIPT_EXPR_DEPTH),
        max_function_expr_depth: Some(MAX_SCRIPT_FUNCTION_EXPR_DEPTH),
        max_string_size: Some(MAX_SCRIPT_STRING_BYTES),
        max_array_size: Some(MAX_SCRIPT_ARRAY_LEN),
        max_map_size: Some(MAX_SCRIPT_MAP_LEN),
        allow_shadowing: Some(false),
        fail_on_invalid_map_property: Some(true),
        eval_disabled: true,
        import_disabled: true,
    }
}

/// Every expression depth that was set lies between 1 and
/// [`MAX_SCRIPT_EXPR_DEPTH`]. A depth of zero means "unlimited" to rhai, and
/// its parser then recurses as deep as the source nests; rhai's own defaults
/// (left as `None`) are bounded.
pub open spec fn parse_depths_bounded(s: EngineSettings) -> bool {
    &&& (s.max_expr_depth matches Some(n) ==> 0 < n <= MAX_SCRIPT_EXPR_DEPTH)
    &&& (s.max_function_expr_depth matches Some(n) ==> 0 < n <= MAX_SCRIPT_EXPR_DEPTH)
}

/// What `rhai::Engine::compile` gives for `source` on an engine made by
/// `rhai::Engine::new` and then given `settings`: `None` when it compiles,
/// else the text of the parse error.
/// A setting left `None` keeps rhai's default, which rhai fixes per build
/// (its debug and release builds differ), so the outcome is fixed for the
/// build this library is compiled in.
pub uninterp spec fn rhai_compile(settings: EngineSettings, source: Seq<char>) -> Option<Seq<char>>;

/// A rhai engine together with the record of every setting it was given.
/// Its fields are private: each setting is changed by a method below that
/// makes the rhai call and records it, so the record is the engine's
/// configuration.
pub struct PluginEngine {
    engine: Engine,
    settings: EngineSettings,
}

impl PluginEngine {
    /// The settings recorded for this engine.
    pub closed spec fn configured(&self) -> EngineSettings {
        self.settings
    }

    /// The rhai engine itself.
    pub closed spec fn inner(&self) -> Engine {
        self.engine
    }

    /// A fresh engine with rhai's standard packages and default limits.
    pub fn fresh() -> (r: PluginEngine)
        ensures
            r.configured() == fresh_settings(),
    {
        PluginEngine {
            engine: new_engine(),
            settings: EngineSettings {
                max_operations: None,
                max_call_levels: None,
                max_expr_depth: None,
        max_function_expr_depth: None,
                max_string_size: None,
                max_array_size: None,
                max_map_size: None,
                allow_shadowing: None,
                fail_on_invalid_map_property: None,
                eval_disabled: false,
                import_disabled: false,
            },
        }
    }

    /// The settings recorded for this engine.
    pub fn settings(&self) -> (r: EngineSettings)
        ensures
            r == self.configured(),
    {
        self.settings
    }

    /// The rhai engine, to run compiled scripts with.
    pub fn engine(&self) -> (r: &Engine)
        ensures
            *r == self.inner(),
    {
        &self.engine
    }

    pub fn limit_operations(&mut self, operations: u64)
        ensures
            final(self).configured() == (EngineSettings { max_operations: Some(operations), ..old(self).configured() }),
    {
        set_max_operations(&mut self.engine, operations);
        self.settings = EngineSettings { max_operations: Some(operations), ..self.settings };
    }

    pub fn limit_call_levels(&mut self, levels: usize)
        ensures
            final(self).configured() == (EngineSettings { max_call_levels: Some(levels), ..old(self).configured() }),
    {
        set_max_call_levels(&mut self.engine, levels);
        self.settings = EngineSettings { max_call_levels: Some(levels), ..self.settings };
    }

    pub fn limit_expr_depths(&mut self, depth: usize, function_depth: usize)
        ensures
            final(self).configured() == (EngineSettings {
                max_expr_depth: Some(depth),
                max_function_expr_depth: Some(function_depth),
                ..old(self).configured()
            }),
    {
        set_max_expr_depths(&mut self.engine, depth, function_depth);
        self.settings = EngineSettings {
            max_expr_depth: Some(depth),
            max_function_expr_depth: Some(function_depth),
            ..self.settings
        };
    }

    pub fn limit_string_size(&mut self, bytes: usize)
        ensures
            final(self).configured() == (EngineSettings { max_string_size: Some(bytes), ..old(self).configured() }),
    {
        set_max_string_size(&mut self.engine, bytes);
        self.settings = EngineSettings { max_string_size: Some(bytes), ..self.settings };
    }

    pub fn limit_array_size(&mut self, len: usize)
        ensures
            final(self).configured() == (EngineSettings { max_array_size: Some(len), ..old(self).configured() }),
    {
        set_max_array_size(&mut self.engine, len);
        self.settings = EngineSettings { max_array_size: Some(len), ..self.settings };
    }

    pub fn limit_map_size(&mut self, len: usize)
        ensures
            final(self).configured() == (EngineSettings { max_map_size: Some(len), ..old(self).configured() }),
    {
        set_max_map_size(&mut self.engine, len);
        self.settings = EngineSettings { max_map_size: Some(len), ..self.settings };
    }

    pub fn allow_shadowing(&mut self, allow: bool)
        ensures
            final(self).configured() == (EngineSettings { allow_shadowing: Some(allow), ..old(self).configured() }),
    {
        set_allow_shadowing(&mut self.engine, allow);
        self.settings = EngineSettings { allow_shadowing: Some(allow), ..self.settings };
    }

    pub fn fail_on_invalid_map_property(&mut self, fail: bool)
        ensures
            final(self).configured() == (EngineSettings {
                fail_on_invalid_map_property: Some(fail),
                ..old(self).configured()
            }),
    {
        set_fail_on_invalid_map_property(&mut self.engine, fail);
        self.settings = EngineSettings { fail_on_invalid_map_property: Some(fail), ..self.settings };
    }

    /// Takes the `eval` function away from scripts.
    pub fn disable_eval(&mut self)
        ensures
            final(self).configured() == (EngineSettings { eval_disabled: true, ..old(self).configured() }),
    {
        disable_symbol(&mut self.engine, "eval");
        self.settings = EngineSettings { eval_disabled: true, ..self.settings };
    }

    /// Takes the `import` statement away from scripts.
    pub fn disable_import(&mut self)
        ensures
            final(self).configured() == (EngineSettings { import_disabled: true, ..old(self).configured() }),
    {
        disable_symbol(&mut self.engine, "import");
        self.settings = EngineSettings { import_disabled: true, ..self.settings };
    }

    /// Compiles `source`: `Ok`, or the text of the parse error, as
    /// [`rhai_compile`] gives for this engine's settings.
    pub fn compile(&self, source: &str) -> (r: Result<(), String>)
        requires
            parse_depths_bounded(self.configured()),
        ensures
            match rhai_compile(self.configured(), source@) {
                None => r is Ok,
                Some(m) => r matches Err(e) && e@ == m,
            },
    {
        compile_source(self, source)
    }
}

/// Calls `rhai::Engine::compile` on `source` with the engine's rhai engine.
/// A `PluginEngine` is made by `rhai::Engine::new` and changed only by its
/// methods, each of which records the setting it makes, so its record is its
/// configuration. The claim: `Ok` exactly when `rhai_compile` names no error
/// for that configuration, and otherwise the error's text is the one it
/// names. It is asked only of an engine whose expression depths are bounded:
/// with a depth of zero rhai's parser has no limit on its recursion and a
/// deeply nested source exhausts the stack.
#[verifier::external_body]
fn compile_source(engine: &PluginEngine, source: &str) -> (r: Result<(), String>)
    requires
        parse_depths_bounded(engine.configured()),
    ensures
        match rhai_compile(engine.configured(), source@) {
            None => r is Ok,
            Some(m) => r matches Err(e) && e@ == m,
        },
{
    match engine.engine.compile(source) {
        Ok(_) => Ok(()),
        Err(error) => Err(error.to_string()),
    }
}

/// The engine every plugin script is compiled and run with: bounded
/// operations, call depth, expression depth, string, array and map sizes; no
/// shadowing; reading a missing map property fails; `eval` and `import` are
/// not available.
pub fn script_engine() -> (r: PluginEngine)
    ensures
        r.configured() == plugin_settings(),
{
    let mut engine = PluginEngine::fresh();
    engine.limit_operations(MAX_SCRIPT_OPERATIONS);
    engine.limit_call_levels(MAX_SCRIPT_CALL_LEVELS);
    engine.limit_expr_depths(MAX_SCRIPT_EXPR_DEPTH, MAX_SCRIPT_FUNCTION_EXPR_DEPTH);
    engine.limit_string_size(MAX_SCRIPT_STRING_BYTES);
    engine.limit_array_size(MAX_SCRIPT_ARRAY_LEN);
    engine.limit_map_size(MAX_SCRIPT_MAP_LEN);
    engine.allow_shadowing(false);
    engine.fail_on_invalid_map_property(true);
    engine.disable_eval();
    engine.disable_import();
    engine
}

/// What a compilation's outcome makes of a package whose rules hold: `Ok`, or
/// a `Compile` error with the parser's message.
pub fn compile_verdict(outcome: Result<(), String>) -> (r: Result<(), ScriptPluginError>)
    ensures
        match outcome {
            Ok(()) => r is Ok,
            Err(m) => r matches Err(e) && e@ == ErrorV::Compile(m@),
        },
{
    match outcome {
        Ok(()) => Ok(()),
        Err(m) => Err(ScriptPluginError::Compile(m)),
    }
}

/// Compiles `source` with the plugin engine: `Ok`, or a `Compile` error with
/// the parser's message.
pub fn compile_script(source: &str) -> (r: Result<(), ScriptPluginError>)
    ensures
        match rhai_compile(plugin_settings(), source@) {
            None => r is Ok,
            Some(m) => r matches Err(e) && e@ == ErrorV::Compile(m),
        },
{
    let engine = script_engine();
    compile_verdict(engine.compile(source))
}

/// Checks a whole package: the first rule it breaks, as
/// [`validate_package_outline`] finds it; when it breaks none, its script
/// must compile with the plugin engine.
pub fn validate_package(package: &ScriptPackageOutline) -> (r: Result<(), ScriptPluginError>)
    ensures
        match package_error(package) {
            Some(e) => r matches Err(x) && x@ == e,
            None => match rhai_compile(plugin_settings(), package.source@) {
                None => r is Ok,
                Some(m) => r matches Err(x) && x@ == ErrorV::Compile(m),
            },
        },
{
    match validate_package_outline(package) {
        Err(e) => Err(e),
        Ok(()) => compile_script(package.source.as_str()),
    }
}

} // verus!

//! Script plugins: the manifest, the rules a package must follow before its
//! script is compiled, and the store of installed plugins with the
//! capabilities the operator granted them.
use vstd::prelude::*;

use crate::text::{
    all_digits, chars_of, find_char, find_char_from, push_str, slice_chars, split_chars,
    split_on, string_from_chars, trim, trim_chars, views,
};
use vstd::utf8::encode_utf8;

verus! {

/// Version of the package format.
pub const SCRIPT_PACKAGE_VERSION: u16 = 1;

/// Version of the script interface.
pub const SCRIPT_API_VERSION: u16 = 1;

/// Largest script source, in bytes.
pub const MAX_SCRIPT_BYTES: usize = 262144;

/// Largest number of commands of one plugin.
pub const MAX_PLUGIN_COMMANDS: usize = 64;

/// Largest number of input fields of one command.
pub const MAX_COMMAND_FIELDS: usize = 32;

/// What a plugin may do.
#[derive(Clone, Copy, Debug, PartialEq, Eq, PartialOrd, Ord, Hash, Structural)]
pub enum ScriptCapability {
    UiContribute,
    MachineRead,
    MachineJog,
    MachineCoordinates,
    JobsCreate,
}

/// The capabilities a plugin needs, and those it can use when granted.
#[derive(Debug)]
pub struct ScriptCapabilityDeclaration {
    pub required: Vec<ScriptCapability>,
    pub optional: Vec<ScriptCapability>,
}

#[derive(Debug)]
pub struct ScriptPluginManifest {
    pub manifest_version: u16,
    pub api_version: u16,
    pub id: String,
    pub name: String,
    pub version: String,
    pub description: String,
    pub capabilities: ScriptCapabilityDeclaration,
}

/// Where a command appears.
#[derive(Clone, Copy, Debug, PartialEq, Eq, Structural)]
pub enum ScriptCommandSurface {
    WorkspaceTools,
    MachinePanel,
}

/// The kind of an input field.
#[derive(Clone, Copy, Debug, PartialEq, Eq, Structural)]
pub enum ScriptFieldKind {
    Number,
    Boolean,
    Text,
}

/// An axis a script action names.
#[derive(Clone, Copy, Debug, PartialEq, Eq, Structural)]
pub enum ScriptAxis {
    X,
    Y,
    Z,
}

/// How a script notice is shown.
#[derive(Clone, Copy, Debug, PartialEq, Eq, Structural)]
pub enum ScriptNoticeTone {
    Info,
    Success,
    Warning,
}

/// Why a plugin operation failed.
#[derive(Debug, PartialEq, Eq)]
pub enum ScriptPluginError {
    UnsupportedPackageVersion(u16),
    UnsupportedApiVersion(u16),
    InvalidPackage(String),
    Compile(String),
    Runtime(String),
    InvalidAction(String),
    NotInstalled(String),
    Disabled(String),
    UnknownCommand(String),
    CapabilityDenied(ScriptCapability),
    DigestMismatch,
    Storage(String),
}

/// View of a [`ScriptPluginError`].
pub enum ErrorV {
    UnsupportedPackageVersion(u16),
    UnsupportedApiVersion(u16),
    InvalidPackage(Seq<char>),
    Compile(Seq<char>),
    Runtime(Seq<char>),
    InvalidAction(Seq<char>),
    NotInstalled(Seq<char>),
    Disabled(Seq<char>),
    UnknownCommand(Seq<char>),
    CapabilityDenied(ScriptCapability),
    DigestMismatch,
    Storage(Seq<char>),
}

impl View for ScriptPluginError {
    type V = ErrorV;

    open spec fn view(&self) -> ErrorV {
        match self {
            ScriptPluginError::UnsupportedPackageVersion(v) => ErrorV::UnsupportedPackageVersion(*v),
            ScriptPluginError::UnsupportedApiVersion(v) => ErrorV::UnsupportedApiVersion(*v),
            ScriptPluginError::InvalidPackage(m) => ErrorV::InvalidPackage(m@),
            ScriptPluginError::Compile(m) => ErrorV::Compile(m@),
            ScriptPluginError::Runtime(m) => ErrorV::Runtime(m@),
            ScriptPluginError::InvalidAction(m) => ErrorV::InvalidAction(m@),
            ScriptPluginError::NotInstalled(m) => ErrorV::NotInstalled(m@),
            ScriptPluginError::Disabled(m) => ErrorV::Disabled(m@),
            ScriptPluginError::UnknownCommand(m) => ErrorV::UnknownCommand(m@),
            ScriptPluginError::CapabilityDenied(c) => ErrorV::CapabilityDenied(*c),
            ScriptPluginError::DigestMismatch => ErrorV::DigestMismatch,
            ScriptPluginError::Storage(m) => ErrorV::Storage(m@),
        }
    }
}

// ---------------------------------------------------------------------------
// Identifiers and text
// ---------------------------------------------------------------------------

pub open spec fn is_lower(c: char) -> bool {
    'a' <= c <= 'z'
}

pub open spec fn is_digit(c: char) -> bool {
    '0' <= c <= '9'
}

pub open spec fn is_id_separator(c: char) -> bool {
    c == '.' || c == '-'
}

/// A plugin id: lowercase letters and digits in segments separated by `.`
/// or `-`, with at least one `.`, at most 100 bytes.
pub open spec fn plugin_id_ok(s: Seq<char>) -> bool {
    &&& s.contains('.')
    &&& s.len() <= 100
    &&& forall|i: int| 0 <= i < s.len() ==> is_lower(#[trigger] s[i]) || is_digit(s[i]) || is_id_separator(s[i])
    &&& !is_id_separator(s[0])
    &&& !is_id_separator(s.last())
    &&& forall|i: int| 0 <= i < s.len() - 1 && is_id_separator(#[trigger] s[i]) ==> !is_id_separator(s[i + 1])
}

/// A command or field id: a lowercase letter, then ASCII letters, digits or
/// `-`, at most 64 bytes.
pub open spec fn local_id_ok(s: Seq<char>) -> bool {
    &&& s.len() > 0
    &&& is_lower(s[0])
    &&& s.len() <= 64
    &&& forall|i: int| 0 <= i < s.len() ==> is_lower(#[trigger] s[i]) || is_digit(s[i]) || ('A' <= s[i] <= 'Z') || s[i] == '-'
}

/// `MAJOR.MINOR.PATCH`, each digits only, optionally followed by `-` and anything.
pub open spec fn semver_ok(s: Seq<char>) -> bool {
    let core = s.take(find_char(s, '-') as int);
    let parts = split_on(core, '.');
    &&& parts.len() == 3
    &&& forall|i: int| 0 <= i < 3 ==> (#[trigger] parts[i]).len() > 0 && all_digits(parts[i])
}

/// A non-empty, trimmed string of at most `max` bytes.
pub open spec fn text_ok(s: Seq<char>, max: usize) -> bool {
    trim(s) == s && s.len() > 0 && encode_utf8(s).len() as usize <= max
}

pub fn valid_plugin_id(value: &str) -> (r: bool)
    ensures
        r == plugin_id_ok(value@),
{
    let s = chars_of(value);
    if s.len() == 0 || s.len() > 100 {
        return false;
    }
    let mut dot = false;
    let mut i: usize = 0;
    while i < s.len()
        invariant
            0 < s@.len() <= 100,
            i <= s@.len(),
            s@ == value@,
            dot == (exists|k: int| 0 <= k < i && #[trigger] s@[k] == '.'),
            forall|k: int| 0 <= k < i ==> is_lower(#[trigger] s@[k]) || is_digit(s@[k]) || is_id_separator(s@[k]),
            forall|k: int| 0 <= k < i - 1 && is_id_separator(#[trigger] s@[k]) ==> !is_id_separator(s@[k + 1]),
        decreases s.len() - i,
    {
        let c = s[i];
        if !(('a' <= c && c <= 'z') || ('0' <= c && c <= '9') || c == '.' || c == '-') {
            return false;
        }
        if i > 0 && (s[i - 1] == '.' || s[i - 1] == '-') && (c == '.' || c == '-') {
            assert(is_id_separator(s@[i - 1]) && is_id_separator(s@[i as int]));
            return false;
        }
        dot = dot || c == '.';
        i = i + 1;
    }
    let first = s[0];
    let last = s[s.len() - 1];
    dot && first != '.' && first != '-' && last != '.' && last != '-'
}

pub fn valid_local_id(value: &str) -> (r: bool)
    ensures
        r == local_id_ok(value@),
{
    let s = chars_of(value);
    if s.len() == 0 || s.len() > 64 || !('a' <= s[0] && s[0] <= 'z') {
        return false;
    }
    let mut i: usize = 0;
    while i < s.len()
        invariant
            i <= s@.len(),
            s@ == value@,
            forall|k: int| 0 <= k < i ==> is_lower(#[trigger] s@[k]) || is_digit(s@[k]) || ('A' <= s@[k] <= 'Z') || s@[k] == '-',
        decreases s.len() - i,
    {
        let c = s[i];
        if !(('a' <= c && c <= 'z') || ('0' <= c && c <= '9') || ('A' <= c && c <= 'Z') || c == '-') {
            return false;
        }
        i = i + 1;
    }
    true
}

fn digits_only(s: &Vec<char>) -> (r: bool)
    ensures
        r == (s@.len() > 0 && all_digits(s@)),
{
    if s.len() == 0 {
        return false;
    }
    let mut i: usize = 0;
    while i < s.len()
        invariant
            i <= s@.len(),
            forall|k: int| 0 <= k < i ==> crate::text::is_ascii_digit(#[trigger] s@[k]),
        decreases s.len() - i,
    {
        if !('0' <= s[i] && s[i] <= '9') {
            assert(!crate::text::is_ascii_digit(s@[i as int]));
            return false;
        }
        i = i + 1;
    }
    true
}

pub fn valid_semver(value: &str) -> (r: bool)
    ensures
        r == semver_ok(value@),
{
    let s = chars_of(value);
    let end = find_char_from(s.as_slice(), 0, '-');
    assert(s@.skip(0) =~= s@);
    let core = slice_chars(s.as_slice(), 0, end);
    assert(core@ =~= s@.take(find_char(s@, '-') as int));
    let parts = split_chars(core.as_slice(), '.');
    let ghost pv = views(parts@);
    if parts.len() != 3 {
        return false;
    }
    assert(pv[0] == parts@[0]@ && pv[1] == parts@[1]@ && pv[2] == parts@[2]@);
    digits_only(&parts[0]) && digits_only(&parts[1]) && digits_only(&parts[2])
}

/// The message of a failed text check.
pub open spec fn text_message(label: Seq<char>, max: usize) -> Seq<char> {
    label + " must be a non-empty trimmed string up to "@ + crate::text::dec(max as nat) + " bytes"@
}

pub fn validate_text(label: &str, value: &str, max: usize) -> (r: Result<(), ScriptPluginError>)
    ensures
        match r {
            Ok(()) => text_ok(value@, max),
            Err(e) => !text_ok(value@, max) && e@ == ErrorV::InvalidPackage(text_message(label@, max)),
        },
{
    let cs = chars_of(value);
    let t = trim_chars(cs.as_slice());
    let same = crate::text::chars_eq_str(t.as_slice(), value);
    if !same || cs.len() == 0 || value.len() > max {
        let mut msg: Vec<char> = Vec::new();
        push_str(&mut msg, label);
        push_str(&mut msg, " must be a non-empty trimmed string up to ");
        crate::text::push_dec(&mut msg, max as u64);
        push_str(&mut msg, " bytes");
        assert(msg@ =~= text_message(label@, max));
        return Err(ScriptPluginError::InvalidPackage(string_from_chars(msg.as_slice())));
    }
    Ok(())
}


// ---------------------------------------------------------------------------
// Packages
// ---------------------------------------------------------------------------

/// An input field of a command, with the verdict on its numeric parts.
#[derive(Debug)]
pub struct ScriptFieldOutline {
    pub id: String,
    pub label: String,
    pub unit: Option<String>,
    /// What the field's bounds, step and default value give when checked as
    /// numbers; `None` when they are valid.
    pub numeric_error: Option<ScriptPluginError>,
}

/// A command of a package.
#[derive(Debug)]
pub struct ScriptCommandOutline {
    pub id: String,
    pub title: String,
    pub description: String,
    pub icon: String,
    pub surface: ScriptCommandSurface,
    pub fields: Vec<ScriptFieldOutline>,
    pub required_capabilities: Vec<ScriptCapability>,
    pub unavailable_reason: Option<String>,
}

/// A package as its rules read it.
#[derive(Debug)]
pub struct ScriptPackageOutline {
    pub package_version: u16,
    pub manifest: ScriptPluginManifest,
    pub commands: Vec<ScriptCommandOutline>,
    pub source: String,
}

pub open spec fn invalid(m: Seq<char>) -> Option<ErrorV> {
    Some(ErrorV::InvalidPackage(m))
}

pub open spec fn no_duplicates(v: Seq<ScriptCapability>) -> bool {
    forall|i: int, j: int| 0 <= i < j < v.len() ==> v[i] != v[j]
}

pub open spec fn capability_order() -> Seq<ScriptCapability> {
    seq![
        ScriptCapability::UiContribute,
        ScriptCapability::MachineRead,
        ScriptCapability::MachineJog,
        ScriptCapability::MachineCoordinates,
        ScriptCapability::JobsCreate,
    ]
}

pub open spec fn capability_name(c: ScriptCapability) -> Seq<char> {
    match c {
        ScriptCapability::UiContribute => "UiContribute"@,
        ScriptCapability::MachineRead => "MachineRead"@,
        ScriptCapability::MachineJog => "MachineJog"@,
        ScriptCapability::MachineCoordinates => "MachineCoordinates"@,
        ScriptCapability::JobsCreate => "JobsCreate"@,
    }
}

/// The first capability of `order` that both lists hold.
pub open spec fn first_shared_in(
    a: Seq<ScriptCapability>,
    b: Seq<ScriptCapability>,
    order: Seq<ScriptCapability>,
) -> Option<ScriptCapability>
    decreases order.len(),
{
    if order.len() == 0 {
        None
    } else if a.contains(order[0]) && b.contains(order[0]) {
        Some(order[0])
    } else {
        first_shared_in(a, b, order.drop_first())
    }
}

/// The first capability, in declaration order, that both lists hold.
pub open spec fn first_shared(a: Seq<ScriptCapability>, b: Seq<ScriptCapability>) -> Option<ScriptCapability> {
    first_shared_in(a, b, capability_order())
}

/// The checks on the fields of one command, in order.
pub open spec fn fields_error(fs: Seq<ScriptFieldOutline>, seen: Seq<Seq<char>>) -> Option<ErrorV>
    decreases fs.len(),
{
    if fs.len() == 0 {
        None
    } else {
        let f = fs[0];
        if !local_id_ok(f.id@) || seen.contains(f.id@) {
            invalid("invalid or duplicate field id: "@ + f.id@)
        } else if !text_ok(f.label@, 100) {
            invalid(text_message("field label"@, 100))
        } else if f.unit matches Some(u) && !text_ok(u@, 24) {
            invalid(text_message("field unit"@, 24))
        } else if f.numeric_error is Some {
            Some(f.numeric_error.unwrap()@)
        } else {
            fields_error(fs.drop_first(), seen.push(f.id@))
        }
    }
}

/// The checks on one command after its id.
pub open spec fn command_error(c: ScriptCommandOutline, declared: Seq<ScriptCapability>) -> Option<ErrorV> {
    if !text_ok(c.title@, 100) {
        invalid(text_message("command title"@, 100))
    } else if !text_ok(c.description@, 500) {
        invalid(text_message("command description"@, 500))
    } else if !text_ok(c.icon@, 64) {
        invalid(text_message("command icon"@, 64))
    } else if !(forall|i: int| 0 <= i < c.required_capabilities@.len() ==> declared.contains(
        #[trigger] c.required_capabilities@[i],
    )) {
        invalid("command "@ + c.id@ + " requests an undeclared capability"@)
    } else if c.fields@.len() > MAX_COMMAND_FIELDS {
        invalid("command "@ + c.id@ + " has too many fields"@)
    } else if fields_error(c.fields@, Seq::empty()) is Some {
        fields_error(c.fields@, Seq::empty())
    } else if c.unavailable_reason matches Some(r) && !text_ok(r@, 500) {
        invalid(text_message("unavailable reason"@, 500))
    } else {
        None
    }
}

/// The checks on the commands, in order.
pub open spec fn commands_error(
    cs: Seq<ScriptCommandOutline>,
    declared: Seq<ScriptCapability>,
    seen: Seq<Seq<char>>,
) -> Option<ErrorV>
    decreases cs.len(),
{
    if cs.len() == 0 {
        None
    } else {
        let c = cs[0];
        if !local_id_ok(c.id@) || seen.contains(c.id@) {
            invalid("invalid or duplicate command id: "@ + c.id@)
        } else if command_error(c, declared) is Some {
            command_error(c, declared)
        } else {
            commands_error(cs.drop_first(), declared, seen.push(c.id@))
        }
    }
}

/// The first rule a package breaks, before its script is compiled.
pub open spec fn package_error(p: &ScriptPackageOutline) -> Option<ErrorV> {
    let m = &p.manifest;
    let required = m.capabilities.required@;
    let optional = m.capabilities.optional@;
    if p.package_version != SCRIPT_PACKAGE_VERSION {
        Some(ErrorV::UnsupportedPackageVersion(p.package_version))
    } else if m.manifest_version != 1 {
        invalid("unsupported manifest version: "@ + crate::text::dec(m.manifest_version as nat))
    } else if m.api_version != SCRIPT_API_VERSION {
        Some(ErrorV::UnsupportedApiVersion(m.api_version))
    } else if !plugin_id_ok(m.id@) {
        invalid("plugin id must be lowercase dot- or dash-separated segments"@)
    } else if !text_ok(m.name@, 100) {
        invalid(text_message("plugin name"@, 100))
    } else if !text_ok(m.version@, 64) {
        invalid(text_message("plugin version"@, 64))
    } else if !text_ok(m.description@, 500) {
        invalid(text_message("plugin description"@, 500))
    } else if !semver_ok(m.version@) {
        invalid("plugin version must use semantic versioning"@)
    } else if encode_utf8(p.source@).len() as usize > MAX_SCRIPT_BYTES {
        invalid("script exceeds 262144 bytes"@)
    } else if trim(p.source@).len() == 0 {
        invalid("script source is empty"@)
    } else if p.commands@.len() == 0 || p.commands@.len() > MAX_PLUGIN_COMMANDS {
        invalid("plugin must declare 1..=64 commands"@)
    } else if !no_duplicates(required) {
        invalid("required capabilities contain duplicates"@)
    } else if !no_duplicates(optional) {
        invalid("optional capabilities contain duplicates"@)
    } else if first_shared(required, optional) is Some {
        invalid("capability is both required and optional: "@ + capability_name(first_shared(required, optional).unwrap()))
    } else {
        commands_error(p.commands@, required + optional, Seq::empty())
    }
}


impl ScriptPluginError {
    /// An equal error.
    pub fn duplicate(&self) -> (r: ScriptPluginError)
        ensures
            r@ == self@,
    {
        match self {
            ScriptPluginError::UnsupportedPackageVersion(v) => ScriptPluginError::UnsupportedPackageVersion(*v),
            ScriptPluginError::UnsupportedApiVersion(v) => ScriptPluginError::UnsupportedApiVersion(*v),
            ScriptPluginError::InvalidPackage(m) => ScriptPluginError::InvalidPackage(m.clone()),
            ScriptPluginError::Compile(m) => ScriptPluginError::Compile(m.clone()),
            ScriptPluginError::Runtime(m) => ScriptPluginError::Runtime(m.clone()),
            ScriptPluginError::InvalidAction(m) => ScriptPluginError::InvalidAction(m.clone()),
            ScriptPluginError::NotInstalled(m) => ScriptPluginError::NotInstalled(m.clone()),
            ScriptPluginError::Disabled(m) => ScriptPluginError::Disabled(m.clone()),
            ScriptPluginError::UnknownCommand(m) => ScriptPluginError::UnknownCommand(m.clone()),
            ScriptPluginError::CapabilityDenied(c) => ScriptPluginError::CapabilityDenied(*c),
            ScriptPluginError::DigestMismatch => ScriptPluginError::DigestMismatch,
            ScriptPluginError::Storage(m) => ScriptPluginError::Storage(m.clone()),
        }
    }
}

fn invalid_package(msg: Vec<char>) -> (e: ScriptPluginError)
    ensures
        e@ == ErrorV::InvalidPackage(msg@),
{
    ScriptPluginError::InvalidPackage(string_from_chars(msg.as_slice()))
}

fn invalid_msg(text: &str) -> (e: ScriptPluginError)
    ensures
        e@ == ErrorV::InvalidPackage(text@),
{
    ScriptPluginError::InvalidPackage(text.to_owned())
}

fn invalid_prefixed(prefix: &str, text: &str) -> (e: ScriptPluginError)
    ensures
        e@ == ErrorV::InvalidPackage(prefix@ + text@),
{
    let mut msg: Vec<char> = Vec::new();
    push_str(&mut msg, prefix);
    push_str(&mut msg, text);
    assert(msg@ =~= prefix@ + text@);
    invalid_package(msg)
}

/// `prefix` followed by `text` and `suffix`, as an invalid-package error.
fn invalid_with(prefix: &str, text: &str, suffix: &str) -> (e: ScriptPluginError)
    ensures
        e@ == ErrorV::InvalidPackage(prefix@ + text@ + suffix@),
{
    let mut msg: Vec<char> = Vec::new();
    push_str(&mut msg, prefix);
    push_str(&mut msg, text);
    push_str(&mut msg, suffix);
    assert(msg@ =~= prefix@ + text@ + suffix@);
    invalid_package(msg)
}

fn text_error(label: &str, value: &str, max: usize) -> (r: Option<ScriptPluginError>)
    ensures
        match r {
            None => text_ok(value@, max),
            Some(e) => !text_ok(value@, max) && e@ == ErrorV::InvalidPackage(text_message(label@, max)),
        },
{
    match validate_text(label, value, max) {
        Ok(()) => None,
        Err(e) => Some(e),
    }
}

fn seen_contains(seen: &Vec<String>, s: &String) -> (r: bool)
    ensures
        r == crate::grbl::string_views(seen@).contains(s@),
{
    let ghost v = crate::grbl::string_views(seen@);
    let mut i: usize = 0;
    while i < seen.len()
        invariant
            i <= seen@.len(),
            v == crate::grbl::string_views(seen@),
            forall|k: int| 0 <= k < i ==> v[k] != s@,
        decreases seen.len() - i,
    {
        if seen[i] == *s {
            assert(v[i as int] == s@);
            return true;
        }
        i = i + 1;
    }
    false
}

fn cap_in(v: &Vec<ScriptCapability>, c: ScriptCapability) -> (r: bool)
    ensures
        r == v@.contains(c),
{
    let mut i: usize = 0;
    while i < v.len()
        invariant
            i <= v@.len(),
            forall|k: int| 0 <= k < i ==> v@[k] != c,
        decreases v.len() - i,
    {
        if v[i] == c {
            return true;
        }
        i = i + 1;
    }
    false
}

fn has_duplicates(v: &Vec<ScriptCapability>) -> (r: bool)
    ensures
        r == !no_duplicates(v@),
{
    let mut j: usize = 0;
    while j < v.len()
        invariant
            j <= v@.len(),
            forall|a: int, b: int| 0 <= a < b < j ==> v@[a] != v@[b],
        decreases v.len() - j,
    {
        let mut i: usize = 0;
        while i < j
            invariant
                i <= j < v@.len(),
                forall|a: int| 0 <= a < i ==> v@[a] != v@[j as int],
            decreases j - i,
        {
            if v[i] == v[j] {
                return true;
            }
            i = i + 1;
        }
        j = j + 1;
    }
    false
}

fn first_shared_exec(a: &Vec<ScriptCapability>, b: &Vec<ScriptCapability>) -> (r: Option<ScriptCapability>)
    ensures
        r == first_shared(a@, b@),
{
    let order: [ScriptCapability; 5] = [
        ScriptCapability::UiContribute,
        ScriptCapability::MachineRead,
        ScriptCapability::MachineJog,
        ScriptCapability::MachineCoordinates,
        ScriptCapability::JobsCreate,
    ];
    assert(order@ =~= capability_order());
    let mut i: usize = 0;
    assert(capability_order().skip(0) =~= capability_order());
    while i < 5
        invariant
            i <= 5,
            order@ == capability_order(),
            first_shared(a@, b@) == first_shared_in(a@, b@, capability_order().skip(i as int)),
        decreases 5 - i,
    {
        let c = order[i];
        assert(capability_order().skip(i as int)[0] == c);
        assert(capability_order().skip(i as int).drop_first() =~= capability_order().skip(i + 1));
        if cap_in(a, c) && cap_in(b, c) {
            return Some(c);
        }
        i = i + 1;
    }
    None
}


fn check_fields(fs: &Vec<ScriptFieldOutline>) -> (r: Option<ScriptPluginError>)
    ensures
        match r {
            None => fields_error(fs@, Seq::empty()) is None,
            Some(e) => fields_error(fs@, Seq::empty()) == Some(e@),
        },
{
    let mut seen: Vec<String> = Vec::new();
    let mut i: usize = 0;
    assert(fs@.skip(0) =~= fs@);
    assert(crate::grbl::string_views(seen@) =~= Seq::<Seq<char>>::empty());
    while i < fs.len()
        invariant
            i <= fs@.len(),
            fields_error(fs@, Seq::empty()) == fields_error(fs@.skip(i as int), crate::grbl::string_views(seen@)),
        decreases fs.len() - i,
    {
        let f = &fs[i];
        let ghost sv = crate::grbl::string_views(seen@);
        assert(fs@.skip(i as int)[0] == *f);
        assert(fs@.skip(i as int).drop_first() =~= fs@.skip(i + 1));
        if !valid_local_id(f.id.as_str()) || seen_contains(&seen, &f.id) {
            return Some(invalid_prefixed("invalid or duplicate field id: ", f.id.as_str()));
        }
        match text_error("field label", f.label.as_str(), 100) {
            Some(e) => {
                return Some(e);
            },
            None => {},
        }
        match &f.unit {
            Some(u) => match text_error("field unit", u.as_str(), 24) {
                Some(e) => {
                    return Some(e);
                },
                None => {},
            },
            None => {},
        }
        match &f.numeric_error {
            Some(e) => {
                return Some(e.duplicate());
            },
            None => {},
        }
        seen.push(f.id.clone());
        assert(crate::grbl::string_views(seen@) =~= sv.push(f.id@));
        i = i + 1;
    }
    None
}

fn caps_declared(required: &Vec<ScriptCapability>, declared_a: &Vec<ScriptCapability>, declared_b: &Vec<ScriptCapability>) -> (r: bool)
    ensures
        r == (forall|i: int| 0 <= i < required@.len() ==> (declared_a@ + declared_b@).contains(#[trigger] required@[i])),
{
    let ghost d = declared_a@ + declared_b@;
    let mut i: usize = 0;
    while i < required.len()
        invariant
            i <= required@.len(),
            d == declared_a@ + declared_b@,
            forall|k: int| 0 <= k < i ==> d.contains(#[trigger] required@[k]),
        decreases required.len() - i,
    {
        let c = required[i];
        let in_a = cap_in(declared_a, c);
        let in_b = cap_in(declared_b, c);
        proof {
            if in_a {
                let k = choose|k: int| 0 <= k < declared_a@.len() && declared_a@[k] == c;
                assert(d[k] == c);
            }
            if in_b {
                let k = choose|k: int| 0 <= k < declared_b@.len() && declared_b@[k] == c;
                assert(d[declared_a@.len() + k] == c);
            }
            if d.contains(c) {
                let k = choose|k: int| 0 <= k < d.len() && d[k] == c;
                if k < declared_a@.len() {
                    assert(declared_a@[k] == c);
                } else {
                    assert(declared_b@[k - declared_a@.len()] == c);
                }
            }
        }
        if !(in_a || in_b) {
            return false;
        }
        i = i + 1;
    }
    true
}

fn check_command(c: &ScriptCommandOutline, m: &ScriptPluginManifest) -> (r: Option<ScriptPluginError>)
    ensures
        match r {
            None => command_error(*c, m.capabilities.required@ + m.capabilities.optional@) is None,
            Some(e) => command_error(*c, m.capabilities.required@ + m.capabilities.optional@) == Some(e@),
        },
{
    match text_error("command title", c.title.as_str(), 100) {
        Some(e) => {
            return Some(e);
        },
        None => {},
    }
    match text_error("command description", c.description.as_str(), 500) {
        Some(e) => {
            return Some(e);
        },
        None => {},
    }
    match text_error("command icon", c.icon.as_str(), 64) {
        Some(e) => {
            return Some(e);
        },
        None => {},
    }
    if !caps_declared(&c.required_capabilities, &m.capabilities.required, &m.capabilities.optional) {
        return Some(invalid_with("command ", c.id.as_str(), " requests an undeclared capability"));
    }
    if c.fields.len() > MAX_COMMAND_FIELDS {
        return Some(invalid_with("command ", c.id.as_str(), " has too many fields"));
    }
    match check_fields(&c.fields) {
        Some(e) => {
            return Some(e);
        },
        None => {},
    }
    match &c.unavailable_reason {
        Some(reason) => text_error("unavailable reason", reason.as_str(), 500),
        None => None,
    }
}

fn check_commands(p: &ScriptPackageOutline) -> (r: Option<ScriptPluginError>)
    ensures
        match r {
            None => commands_error(
                p.commands@,
                p.manifest.capabilities.required@ + p.manifest.capabilities.optional@,
                Seq::empty(),
            ) is None,
            Some(e) => commands_error(
                p.commands@,
                p.manifest.capabilities.required@ + p.manifest.capabilities.optional@,
                Seq::empty(),
            ) == Some(e@),
        },
{
    let ghost d = p.manifest.capabilities.required@ + p.manifest.capabilities.optional@;
    let cs = &p.commands;
    let mut seen: Vec<String> = Vec::new();
    let mut i: usize = 0;
    assert(cs@.skip(0) =~= cs@);
    assert(crate::grbl::string_views(seen@) =~= Seq::<Seq<char>>::empty());
    while i < cs.len()
        invariant
            i <= cs@.len(),
            *cs == p.commands,
            d == p.manifest.capabilities.required@ + p.manifest.capabilities.optional@,
            commands_error(cs@, d, Seq::empty()) == commands_error(cs@.skip(i as int), d, crate::grbl::string_views(seen@)),
        decreases cs.len() - i,
    {
        let c = &cs[i];
        let ghost sv = crate::grbl::string_views(seen@);
        assert(cs@.skip(i as int)[0] == *c);
        assert(cs@.skip(i as int).drop_first() =~= cs@.skip(i + 1));
        if !valid_local_id(c.id.as_str()) || seen_contains(&seen, &c.id) {
            return Some(invalid_prefixed("invalid or duplicate command id: ", c.id.as_str()));
        }
        match check_command(c, &p.manifest) {
            Some(e) => {
                return Some(e);
            },
            None => {},
        }
        seen.push(c.id.clone());
        assert(crate::grbl::string_views(seen@) =~= sv.push(c.id@));
        i = i + 1;
    }
    None
}

fn capability_label(c: ScriptCapability) -> (r: &'static str)
    ensures
        r@ == capability_name(c),
{
    match c {
        ScriptCapability::UiContribute => "UiContribute",
        ScriptCapability::MachineRead => "MachineRead",
        ScriptCapability::MachineJog => "MachineJog",
        ScriptCapability::MachineCoordinates => "MachineCoordinates",
        ScriptCapability::JobsCreate => "JobsCreate",
    }
}

/// `i` is the first command whose id is `id`.
pub open spec fn first_command_with_id(cs: Seq<ScriptCommandOutline>, id: Seq<char>, i: int) -> bool {
    &&& 0 <= i < cs.len()
    &&& cs[i].id@ == id
    &&& forall|j: int| 0 <= j < i ==> (#[trigger] cs[j]).id@ != id
}

/// The command a script run executes: the first command whose id is
/// `command_id`. `UnknownCommand` when no command has that id; when the
/// command is marked unavailable, `InvalidAction` with its reason.
pub fn runnable_command(commands: &[ScriptCommandOutline], command_id: &str) -> (r: Result<usize, ScriptPluginError>)
    ensures
        (forall|j: int| 0 <= j < commands@.len() ==> (#[trigger] commands@[j]).id@ != command_id@) ==> (r matches Err(
            e,
        ) && e@ == ErrorV::UnknownCommand(command_id@)),
        forall|i: int|
            first_command_with_id(commands@, command_id@, i) ==> match #[trigger] commands@[i].unavailable_reason {
                Some(m) => r matches Err(e) && e@ == ErrorV::InvalidAction(m@),
                None => r == Ok::<usize, ScriptPluginError>(i as usize),
            },
{
    let wanted = command_id.to_owned();
    let mut i: usize = 0;
    while i < commands.len()
        invariant
            i <= commands@.len(),
            wanted@ == command_id@,
            forall|k: int| 0 <= k < i ==> (#[trigger] commands@[k]).id@ != command_id@,
        decreases commands.len() - i,
    {
        if commands[i].id == wanted {
            assert(first_command_with_id(commands@, command_id@, i as int));
            proof {
                assert forall|k: int| first_command_with_id(commands@, command_id@, k) implies k == i by {
                    if k < i {
                        assert(commands@[k].id@ != command_id@);
                    } else if k > i {
                        assert(commands@[i as int].id@ != command_id@);
                    }
                }
            }
            return match &commands[i].unavailable_reason {
                Some(reason) => Err(ScriptPluginError::InvalidAction(reason.clone())),
                None => Ok(i),
            };
        }
        i = i + 1;
    }
    Err(ScriptPluginError::UnknownCommand(wanted))
}

/// Checks every rule of a package that does not need its script compiled:
/// versions, the manifest's id, texts and capabilities, the source's size,
/// and each command and field in order. The first broken rule is returned.
pub fn validate_package_outline(package: &ScriptPackageOutline) -> (r: Result<(), ScriptPluginError>)
    ensures
        match package_error(package) {
            None => r is Ok,
            Some(e) => r matches Err(x) && x@ == e,
        },
{
    let m = &package.manifest;
    if package.package_version != SCRIPT_PACKAGE_VERSION {
        return Err(ScriptPluginError::UnsupportedPackageVersion(package.package_version));
    }
    if m.manifest_version != 1 {
        let mut msg: Vec<char> = Vec::new();
        push_str(&mut msg, "unsupported manifest version: ");
        crate::text::push_dec(&mut msg, m.manifest_version as u64);
        assert(msg@ =~= "unsupported manifest version: "@ + crate::text::dec(m.manifest_version as nat));
        return Err(invalid_package(msg));
    }
    if m.api_version != SCRIPT_API_VERSION {
        return Err(ScriptPluginError::UnsupportedApiVersion(m.api_version));
    }
    if !valid_plugin_id(m.id.as_str()) {
        return Err(invalid_msg("plugin id must be lowercase dot- or dash-separated segments"));
    }
    match text_error("plugin name", m.name.as_str(), 100) {
        Some(e) => {
            return Err(e);
        },
        None => {},
    }
    match text_error("plugin version", m.version.as_str(), 64) {
        Some(e) => {
            return Err(e);
        },
        None => {},
    }
    match text_error("plugin description", m.description.as_str(), 500) {
        Some(e) => {
            return Err(e);
        },
        None => {},
    }
    if !valid_semver(m.version.as_str()) {
        return Err(invalid_msg("plugin version must use semantic versioning"));
    }
    if package.source.as_str().len() > MAX_SCRIPT_BYTES {
        return Err(invalid_msg("script exceeds 262144 bytes"));
    }
    let source = chars_of(package.source.as_str());
    if trim_chars(source.as_slice()).len() == 0 {
        return Err(invalid_msg("script source is empty"));
    }
    if package.commands.len() == 0 || package.commands.len() > MAX_PLUGIN_COMMANDS {
        return Err(invalid_msg("plugin must declare 1..=64 commands"));
    }
    if has_duplicates(&m.capabilities.required) {
        return Err(invalid_msg("required capabilities contain duplicates"));
    }
    if has_duplicates(&m.capabilities.optional) {
        return Err(invalid_msg("optional capabilities contain duplicates"));
    }
    match first_shared_exec(&m.capabilities.required, &m.capabilities.optional) {
        Some(c) => {
            return Err(invalid_prefixed("capability is both required and optional: ", capability_label(c)));
        },
        None => {},
    }
    match check_commands(package) {
        Some(e) => Err(e),
        None => Ok(()),
    }
}


// ---------------------------------------------------------------------------
// The plugin store
// ---------------------------------------------------------------------------

/// An installed plugin as the store keeps it: the package's id and declared
/// capabilities, the digest of the package, and the operator's decisions.
#[derive(Debug)]
pub struct InstalledPluginRecord {
    pub id: String,
    pub digest: String,
    pub required: Vec<ScriptCapability>,
    pub optional: Vec<ScriptCapability>,
    pub enabled: bool,
    pub bundled: bool,
    pub granted: Vec<ScriptCapability>,
}

/// View of an [`InstalledPluginRecord`].
pub struct RecordV {
    pub id: Seq<char>,
    pub digest: Seq<char>,
    pub required: Seq<ScriptCapability>,
    pub optional: Seq<ScriptCapability>,
    pub enabled: bool,
    pub bundled: bool,
    pub granted: Seq<ScriptCapability>,
}

impl View for InstalledPluginRecord {
    type V = RecordV;

    open spec fn view(&self) -> RecordV {
        RecordV {
            id: self.id@,
            digest: self.digest@,
            required: self.required@,
            optional: self.optional@,
            enabled: self.enabled,
            bundled: self.bundled,
            granted: self.granted@,
        }
    }
}

pub open spec fn records_view(v: Seq<InstalledPluginRecord>) -> Seq<RecordV> {
    v.map_values(|r: InstalledPluginRecord| r@)
}

/// Every granted capability is declared, none twice, and an enabled plugin
/// holds all its required capabilities.
pub open spec fn grants_ok(r: RecordV) -> bool {
    &&& no_duplicates(r.granted)
    &&& forall|i: int| 0 <= i < r.granted.len() ==> (r.required + r.optional).contains(#[trigger] r.granted[i])
    &&& r.enabled ==> forall|i: int| 0 <= i < r.required.len() ==> r.granted.contains(#[trigger] r.required[i])
}

/// Distinct ids, and sound grants for every plugin.
pub open spec fn store_ok(s: Seq<RecordV>) -> bool {
    &&& forall|i: int, j: int| 0 <= i < j < s.len() ==> (#[trigger] s[i]).id != (#[trigger] s[j]).id
    &&& forall|i: int| 0 <= i < s.len() ==> grants_ok(#[trigger] s[i])
}

/// Index of the plugin with this id.
pub open spec fn find_plugin(s: Seq<RecordV>, id: Seq<char>) -> Option<int> {
    if exists|i: int| 0 <= i < s.len() && (#[trigger] s[i]).id == id {
        Some(choose|i: int| 0 <= i < s.len() && (#[trigger] s[i]).id == id)
    } else {
        None
    }
}

/// The capabilities of `order` that `grants` holds, each once, in that order.
pub open spec fn in_order(grants: Seq<ScriptCapability>, order: Seq<ScriptCapability>) -> Seq<ScriptCapability>
    decreases order.len(),
{
    if order.len() == 0 {
        Seq::empty()
    } else {
        (if grants.contains(order[0]) {
            seq![order[0]]
        } else {
            Seq::empty()
        }) + in_order(grants, order.drop_first())
    }
}

/// A grant normalised as a set: declaration order, no repeats.
pub open spec fn grant_set(grants: Seq<ScriptCapability>) -> Seq<ScriptCapability> {
    in_order(grants, capability_order())
}

/// Why `set_enabled` refuses, if it does.
pub open spec fn enable_refusal(
    s: Seq<RecordV>,
    id: Seq<char>,
    digest: Seq<char>,
    enabled: bool,
    grants: Seq<ScriptCapability>,
) -> Option<ErrorV> {
    match find_plugin(s, id) {
        None => Some(ErrorV::NotInstalled(id)),
        Some(i) => {
            let r = s[i];
            if r.digest != digest {
                Some(ErrorV::DigestMismatch)
            } else if !(forall|k: int| 0 <= k < grants.len() ==> (r.required + r.optional).contains(#[trigger] grants[k])) {
                Some(ErrorV::InvalidPackage("grant contains an undeclared capability"@))
            } else if enabled && !(forall|k: int| 0 <= k < r.required.len() ==> grants.contains(#[trigger] r.required[k])) {
                Some(ErrorV::InvalidPackage("all required capabilities must be granted before enabling"@))
            } else {
                None
            }
        },
    }
}

/// The installed plugins.
#[derive(Debug)]
pub struct ScriptPluginStore {
    plugins: Vec<InstalledPluginRecord>,
}

impl View for ScriptPluginStore {
    type V = Seq<RecordV>;

    closed spec fn view(&self) -> Seq<RecordV> {
        records_view(self.plugins@)
    }
}

fn copy_caps(v: &Vec<ScriptCapability>) -> (r: Vec<ScriptCapability>)
    ensures
        r@ == v@,
{
    let mut r: Vec<ScriptCapability> = Vec::new();
    let mut i: usize = 0;
    while i < v.len()
        invariant
            i <= v@.len(),
            r@ == v@.take(i as int),
        decreases v.len() - i,
    {
        r.push(v[i]);
        assert(r@ =~= v@.take(i + 1));
        i = i + 1;
    }
    assert(v@.take(i as int) =~= v@);
    r
}

impl InstalledPluginRecord {
    /// An equal record.
    pub fn duplicate(&self) -> (r: InstalledPluginRecord)
        ensures
            r@ == self@,
    {
        InstalledPluginRecord {
            id: self.id.clone(),
            digest: self.digest.clone(),
            required: copy_caps(&self.required),
            optional: copy_caps(&self.optional),
            enabled: self.enabled,
            bundled: self.bundled,
            granted: copy_caps(&self.granted),
        }
    }
}

fn normalise_grants(grants: &Vec<ScriptCapability>) -> (r: Vec<ScriptCapability>)
    ensures
        r@ == grant_set(grants@),
{
    let order: [ScriptCapability; 5] = [
        ScriptCapability::UiContribute,
        ScriptCapability::MachineRead,
        ScriptCapability::MachineJog,
        ScriptCapability::MachineCoordinates,
        ScriptCapability::JobsCreate,
    ];
    assert(order@ =~= capability_order());
    let mut r: Vec<ScriptCapability> = Vec::new();
    let mut i: usize = 5;
    assert(capability_order().skip(5) =~= Seq::<ScriptCapability>::empty());
    while i > 0
        invariant
            i <= 5,
            order@ == capability_order(),
            r@ == in_order(grants@, capability_order().skip(i as int)),
        decreases i,
    {
        i = i - 1;
        let c = order[i];
        assert(capability_order().skip(i as int)[0] == c);
        assert(capability_order().skip(i as int).drop_first() =~= capability_order().skip(i + 1));
        if cap_in(grants, c) {
            r.insert(0, c);
            assert(r@ =~= seq![c] + in_order(grants@, capability_order().skip(i + 1)));
        } else {
            assert(r@ =~= Seq::<ScriptCapability>::empty() + in_order(grants@, capability_order().skip(i + 1)));
        }
    }
    assert(capability_order().skip(0) =~= capability_order());
    r
}


proof fn lemma_in_order(grants: Seq<ScriptCapability>, order: Seq<ScriptCapability>, c: ScriptCapability)
    requires
        no_duplicates(order),
    ensures
        in_order(grants, order).contains(c) <==> (order.contains(c) && grants.contains(c)),
        no_duplicates(in_order(grants, order)),
        forall|k: int| 0 <= k < in_order(grants, order).len() ==> grants.contains(#[trigger] in_order(grants, order)[k]),
    decreases order.len(),
{
    if order.len() > 0 {
        let rest = order.drop_first();
        assert(no_duplicates(rest)) by {
            assert forall|i: int, j: int| 0 <= i < j < rest.len() implies rest[i] != rest[j] by {
                assert(rest[i] == order[i + 1] && rest[j] == order[j + 1]);
            }
        }
        lemma_in_order(grants, rest, c);
        lemma_in_order(grants, rest, order[0]);
        let head: Seq<ScriptCapability> = if grants.contains(order[0]) {
            seq![order[0]]
        } else {
            Seq::empty()
        };
        let tail = in_order(grants, rest);
        assert(in_order(grants, order) == head + tail);
        if order.contains(c) && c != order[0] {
            let k = choose|k: int| 0 <= k < order.len() && order[k] == c;
            assert(rest[k - 1] == c);
        }
        if rest.contains(c) {
            let k = choose|k: int| 0 <= k < rest.len() && rest[k] == c;
            assert(order[k + 1] == c);
        }
        if rest.contains(order[0]) {
            let k = choose|k: int| 0 <= k < rest.len() && rest[k] == order[0];
            assert(order[k + 1] == order[0]);
        }
        let all = head + tail;
        if grants.contains(order[0]) {
            assert(all[0] == order[0]);
        }
        if (head + tail).contains(c) {
            let k = choose|k: int| 0 <= k < all.len() && all[k] == c;
            if k >= head.len() {
                assert(tail[k - head.len()] == c);
            } else {
                assert(order[0] == c);
            }
        }
        if tail.contains(c) {
            let k = choose|k: int| 0 <= k < tail.len() && tail[k] == c;
            assert(all[k + head.len()] == c);
        }
        assert forall|i: int, j: int| 0 <= i < j < all.len() implies all[i] != all[j] by {
            if i < head.len() {
                assert(all[i] == order[0]);
                assert(all[j] == tail[j - head.len()]);
                assert(tail.contains(tail[j - head.len()]));
            } else {
                assert(all[i] == tail[i - head.len()] && all[j] == tail[j - head.len()]);
            }
        }
        assert forall|k: int| 0 <= k < all.len() implies grants.contains(#[trigger] all[k]) by {
            if k >= head.len() {
                assert(all[k] == tail[k - head.len()]);
            }
        }
    }
}

proof fn lemma_grant_set(grants: Seq<ScriptCapability>)
    ensures
        no_duplicates(grant_set(grants)),
        forall|c: ScriptCapability| #[trigger] grant_set(grants).contains(c) <==> grants.contains(c),
        forall|k: int| 0 <= k < grant_set(grants).len() ==> grants.contains(#[trigger] grant_set(grants)[k]),
{
    let order = capability_order();
    assert(no_duplicates(order));
    assert forall|c: ScriptCapability| #[trigger] grant_set(grants).contains(c) <==> grants.contains(c) by {
        lemma_in_order(grants, order, c);
        assert(order.contains(c)) by {
            match c {
                ScriptCapability::UiContribute => assert(order[0] == c),
                ScriptCapability::MachineRead => assert(order[1] == c),
                ScriptCapability::MachineJog => assert(order[2] == c),
                ScriptCapability::MachineCoordinates => assert(order[3] == c),
                ScriptCapability::JobsCreate => assert(order[4] == c),
            }
        }
    }
    lemma_in_order(grants, order, ScriptCapability::UiContribute);
}

impl ScriptPluginStore {
    pub closed spec fn wf(&self) -> bool {
        store_ok(self@)
    }

    /// A store with no plugin.
    pub fn new() -> (s: Self)
        ensures
            s.wf(),
            s@ == Seq::<RecordV>::empty(),
    {
        let s = ScriptPluginStore { plugins: Vec::new() };
        assert(records_view(s.plugins@) =~= Seq::<RecordV>::empty());
        s
    }

    fn find(&self, id: &str) -> (r: Option<usize>)
        requires
            self.wf(),
        ensures
            r == (match find_plugin(self@, id@) {
                Some(i) => Some(i as usize),
                None => None::<usize>,
            }),
            match r {
                Some(i) => i < self@.len() && self@[i as int].id == id@,
                None => forall|k: int| 0 <= k < self@.len() ==> (#[trigger] self@[k]).id != id@,
            },
    {
        let ghost v = self@;
        let wanted = id.to_owned();
        let mut i: usize = 0;
        while i < self.plugins.len()
            invariant
                i <= self.plugins@.len(),
                v == records_view(self.plugins@),
                store_ok(v),
                wanted@ == id@,
                forall|k: int| 0 <= k < i ==> (#[trigger] v[k]).id != id@,
            decreases self.plugins.len() - i,
        {
            if self.plugins[i].id == wanted {
                assert(v[i as int].id == id@);
                proof {
                    let j = choose|j: int| 0 <= j < v.len() && (#[trigger] v[j]).id == id@;
                    if j != i {
                        if j < i {
                            assert(v[j].id != v[i as int].id);
                        } else {
                            assert(v[i as int].id != v[j].id);
                        }
                    }
                }
                return Some(i);
            }
            i = i + 1;
        }
        None
    }
}


/// The record of a newly installed external package: disabled, with nothing granted.
pub open spec fn external_record(
    id: Seq<char>,
    digest: Seq<char>,
    required: Seq<ScriptCapability>,
    optional: Seq<ScriptCapability>,
) -> RecordV {
    RecordV { id, digest, required, optional, enabled: false, bundled: false, granted: Seq::empty() }
}

/// The store after a bundled package was offered: unchanged when the same
/// digest is installed; otherwise the package with its required
/// capabilities granted, keeping an existing plugin's enabled flag.
pub open spec fn after_bundled(
    s: Seq<RecordV>,
    id: Seq<char>,
    digest: Seq<char>,
    required: Seq<ScriptCapability>,
    optional: Seq<ScriptCapability>,
) -> Seq<RecordV> {
    match find_plugin(s, id) {
        Some(i) => if s[i].digest == digest {
            s
        } else {
            s.update(
                i,
                RecordV { id, digest, required, optional, enabled: s[i].enabled, bundled: true, granted: required },
            )
        },
        None => s.push(
            RecordV { id, digest, required, optional, enabled: true, bundled: true, granted: required },
        ),
    }
}

proof fn lemma_store_update(s: Seq<RecordV>, i: int, r: RecordV)
    requires
        store_ok(s),
        0 <= i < s.len(),
        r.id == s[i].id,
        grants_ok(r),
    ensures
        store_ok(s.update(i, r)),
{
    let u = s.update(i, r);
    assert forall|a: int, b: int| 0 <= a < b < u.len() implies (#[trigger] u[a]).id != (#[trigger] u[b]).id by {
        assert(u[a].id == s[a].id && u[b].id == s[b].id);
    }
}

proof fn lemma_store_push(s: Seq<RecordV>, r: RecordV)
    requires
        store_ok(s),
        forall|k: int| 0 <= k < s.len() ==> (#[trigger] s[k]).id != r.id,
        grants_ok(r),
    ensures
        store_ok(s.push(r)),
{
    let u = s.push(r);
    assert forall|a: int, b: int| 0 <= a < b < u.len() implies (#[trigger] u[a]).id != (#[trigger] u[b]).id by {
        if b == s.len() {
            assert(u[a] == s[a]);
        } else {
            assert(u[a] == s[a] && u[b] == s[b]);
        }
    }
}

impl ScriptPluginStore {
    /// The plugin installed under `id`.
    pub fn get(&self, id: &str) -> (r: Option<InstalledPluginRecord>)
        requires
            self.wf(),
        ensures
            match r {
                Some(p) => find_plugin(self@, id@) matches Some(i) && p@ == self@[i],
                None => find_plugin(self@, id@) is None,
            },
    {
        match self.find(id) {
            Some(i) => {
                assert(self.plugins@[i as int]@ == self@[i as int]);
                Some(self.plugins[i].duplicate())
            },
            None => None,
        }
    }

    /// Every installed plugin.
    pub fn list(&self) -> (r: Vec<InstalledPluginRecord>)
        ensures
            records_view(r@) == self@,
    {
        let mut r: Vec<InstalledPluginRecord> = Vec::new();
        let mut i: usize = 0;
        while i < self.plugins.len()
            invariant
                i <= self.plugins@.len(),
                records_view(r@) == records_view(self.plugins@).take(i as int),
            decreases self.plugins.len() - i,
        {
            let ghost before = records_view(r@);
            r.push(self.plugins[i].duplicate());
            assert(records_view(r@) =~= before.push(self.plugins@[i as int]@));
            assert(records_view(self.plugins@).take(i + 1) =~= records_view(self.plugins@).take(i as int).push(self.plugins@[i as int]@));
            i = i + 1;
        }
        assert(records_view(self.plugins@).take(i as int) =~= records_view(self.plugins@));
        r
    }

    /// Installs an external package, validated and digested by the caller,
    /// in place of any earlier version: it starts disabled, with nothing
    /// granted. The ids of bundled plugins are reserved.
    pub fn install_external(
        &mut self,
        id: String,
        digest: String,
        required: Vec<ScriptCapability>,
        optional: Vec<ScriptCapability>,
    ) -> (r: Result<InstalledPluginRecord, ScriptPluginError>)
        requires
            old(self).wf(),
        ensures
            final(self).wf(),
            match find_plugin(old(self)@, id@) {
                Some(i) => if old(self)@[i].bundled {
                    r matches Err(e) && e@ == ErrorV::InvalidPackage("bundled plugin ids are reserved"@)
                        && final(self)@ == old(self)@
                } else {
                    r matches Ok(p) && p@ == external_record(id@, digest@, required@, optional@)
                        && final(self)@ == old(self)@.update(i, p@)
                },
                None => r matches Ok(p) && p@ == external_record(id@, digest@, required@, optional@)
                    && final(self)@ == old(self)@.push(p@),
            },
    {
        let found = self.find(id.as_str());
        let record = InstalledPluginRecord {
            id,
            digest,
            required,
            optional,
            enabled: false,
            bundled: false,
            granted: Vec::new(),
        };
        let ghost rv = record@;
        assert(rv.granted =~= Seq::<ScriptCapability>::empty());
        let ghost before = self@;
        match found {
            Some(i) => {
                if self.plugins[i].bundled {
                    assert(self.plugins@[i as int]@ == before[i as int]);
                    return Err(invalid_msg("bundled plugin ids are reserved"));
                }
                let copy = record.duplicate();
                self.plugins.set(i, record);
                proof {
                    assert(records_view(self.plugins@) =~= before.update(i as int, rv));
                    lemma_store_update(before, i as int, rv);
                }
                Ok(copy)
            },
            None => {
                let copy = record.duplicate();
                self.plugins.push(record);
                proof {
                    assert(records_view(self.plugins@) =~= before.push(rv));
                    lemma_store_push(before, rv);
                }
                Ok(copy)
            },
        }
    }

    /// Enables or disables a plugin and records what the operator granted.
    /// The digest the operator reviewed must still be the installed one.
    pub fn set_enabled(
        &mut self,
        id: &str,
        digest: &str,
        enabled: bool,
        grants: Vec<ScriptCapability>,
    ) -> (r: Result<InstalledPluginRecord, ScriptPluginError>)
        requires
            old(self).wf(),
        ensures
            final(self).wf(),
            match enable_refusal(old(self)@, id@, digest@, enabled, grants@) {
                Some(e) => r matches Err(x) && x@ == e && final(self)@ == old(self)@,
                None => {
                    let i = find_plugin(old(self)@, id@).unwrap();
                    let p = RecordV { enabled, granted: grant_set(grants@), ..old(self)@[i] };
                    &&& r matches Ok(q) && q@ == p
                    &&& final(self)@ == old(self)@.update(i, p)
                },
            },
    {
        let ghost before = self@;
        let i = match self.find(id) {
            Some(i) => i,
            None => {
                return Err(ScriptPluginError::NotInstalled(id.to_owned()));
            },
        };
        let ghost old_rec = before[i as int];
        assert(self.plugins@[i as int]@ == old_rec);
        let wanted = digest.to_owned();
        if !(self.plugins[i].digest == wanted) {
            return Err(ScriptPluginError::DigestMismatch);
        }
        if !caps_declared(&grants, &self.plugins[i].required, &self.plugins[i].optional) {
            return Err(invalid_msg("grant contains an undeclared capability"));
        }
        if enabled && !caps_declared(&self.plugins[i].required, &grants, &Vec::new()) {
            assert(grants@ + Seq::<ScriptCapability>::empty() =~= grants@);
            return Err(invalid_msg("all required capabilities must be granted before enabling"));
        }
        assert(grants@ + Seq::<ScriptCapability>::empty() =~= grants@);
        let granted = normalise_grants(&grants);
        let mut record = self.plugins[i].duplicate();
        record.enabled = enabled;
        record.granted = granted;
        let ghost p = RecordV { enabled, granted: grant_set(grants@), ..old_rec };
        assert(record@ == p);
        proof {
            lemma_grant_set(grants@);
            assert forall|k: int| 0 <= k < p.granted.len() implies (p.required + p.optional).contains(#[trigger] p.granted[k]) by {
                let g = p.granted[k];
                assert(grants@.contains(g));
                let m = choose|m: int| 0 <= m < grants@.len() && grants@[m] == g;
                assert((p.required + p.optional).contains(grants@[m]));
            }
            if enabled {
                assert forall|k: int| 0 <= k < p.required.len() implies p.granted.contains(#[trigger] p.required[k]) by {
                    assert(grants@.contains(p.required[k]));
                }
            }
            lemma_store_update(before, i as int, p);
        }
        let copy = record.duplicate();
        self.plugins.set(i, record);
        assert(records_view(self.plugins@) =~= before.update(i as int, p));
        Ok(copy)
    }

    /// Removes an external plugin; bundled plugins stay.
    pub fn remove(&mut self, id: &str) -> (r: Result<bool, ScriptPluginError>)
        requires
            old(self).wf(),
        ensures
            final(self).wf(),
            match find_plugin(old(self)@, id@) {
                Some(i) => if old(self)@[i].bundled {
                    r matches Err(e) && e@ == ErrorV::InvalidPackage("bundled plugins cannot be deleted"@)
                        && final(self)@ == old(self)@
                } else {
                    r == Ok::<bool, ScriptPluginError>(true) && final(self)@ == old(self)@.remove(i)
                },
                None => r == Ok::<bool, ScriptPluginError>(false) && final(self)@ == old(self)@,
            },
    {
        let ghost before = self@;
        match self.find(id) {
            Some(i) => {
                assert(self.plugins@[i as int]@ == before[i as int]);
                if self.plugins[i].bundled {
                    return Err(invalid_msg("bundled plugins cannot be deleted"));
                }
                self.plugins.remove(i);
                assert(records_view(self.plugins@) =~= before.remove(i as int));
                proof {
                    let u = before.remove(i as int);
                    assert forall|a: int, b: int| 0 <= a < b < u.len() implies (#[trigger] u[a]).id != (#[trigger] u[b]).id by {
                        let a0 = if a < i { a } else { a + 1 };
                        let b0 = if b < i { b } else { b + 1 };
                        assert(u[a] == before[a0] && u[b] == before[b0]);
                    }
                    assert forall|k: int| 0 <= k < u.len() implies grants_ok(#[trigger] u[k]) by {
                        let k0 = if k < i { k } else { k + 1 };
                        assert(u[k] == before[k0]);
                    }
                }
                Ok(true)
            },
            None => Ok(false),
        }
    }

    /// Installs or refreshes a bundled package, validated and digested by
    /// the caller. A changed bundled package keeps its enabled flag and is
    /// granted its required capabilities.
    pub fn install_bundled(
        &mut self,
        id: String,
        digest: String,
        required: Vec<ScriptCapability>,
        optional: Vec<ScriptCapability>,
    )
        requires
            old(self).wf(),
            no_duplicates(required@),
        ensures
            final(self).wf(),
            final(self)@ == after_bundled(old(self)@, id@, digest@, required@, optional@),
    {
        let ghost before = self@;
        let found = self.find(id.as_str());
        match found {
            Some(i) => {
                assert(self.plugins@[i as int]@ == before[i as int]);
                if self.plugins[i].digest == digest {
                    return;
                }
                let granted = copy_caps(&required);
                let record = InstalledPluginRecord {
                    id,
                    digest,
                    required,
                    optional,
                    enabled: self.plugins[i].enabled,
                    bundled: true,
                    granted,
                };
                let ghost rv = record@;
                proof {
                    assert forall|k: int| 0 <= k < rv.granted.len() implies (rv.required + rv.optional).contains(#[trigger] rv.granted[k]) by {
                        assert((rv.required + rv.optional)[k] == rv.granted[k]);
                    }
                    assert forall|k: int| 0 <= k < rv.required.len() implies rv.granted.contains(#[trigger] rv.required[k]) by {
                        assert(rv.granted[k] == rv.required[k]);
                    }
                    lemma_store_update(before, i as int, rv);
                }
                self.plugins.set(i, record);
                assert(records_view(self.plugins@) =~= before.update(i as int, rv));
            },
            None => {
                let granted = copy_caps(&required);
                let record = InstalledPluginRecord {
                    id,
                    digest,
                    required,
                    optional,
                    enabled: true,
                    bundled: true,
                    granted,
                };
                let ghost rv = record@;
                proof {
                    assert forall|k: int| 0 <= k < rv.granted.len() implies (rv.required + rv.optional).contains(#[trigger] rv.granted[k]) by {
                        assert((rv.required + rv.optional)[k] == rv.granted[k]);
                    }
                    assert forall|k: int| 0 <= k < rv.required.len() implies rv.granted.contains(#[trigger] rv.required[k]) by {
                        assert(rv.granted[k] == rv.required[k]);
                    }
                    lemma_store_push(before, rv);
                }
                self.plugins.push(record);
                assert(records_view(self.plugins@) =~= before.push(rv));
            },
        }
    }
}


/// What a stored plugin record breaks, given the digest of its stored package.
pub open spec fn stored_record_error(r: RecordV, package_digest: Seq<char>) -> Option<ErrorV> {
    if package_digest != r.digest {
        Some(ErrorV::Storage("stored digest does not match plugin package: "@ + r.id))
    } else if !no_duplicates(r.granted) || !(forall|i: int| 0 <= i < r.granted.len() ==> (r.required + r.optional).contains(#[trigger] r.granted[i])) {
        Some(ErrorV::Storage("stored grants are invalid: "@ + r.id))
    } else if r.enabled && !(forall|i: int| 0 <= i < r.required.len() ==> r.granted.contains(#[trigger] r.required[i])) {
        Some(ErrorV::Storage("enabled plugin is missing a required grant: "@ + r.id))
    } else {
        None
    }
}

/// The first stored record that is broken or repeats an id.
pub open spec fn stored_plugins_error(
    rs: Seq<RecordV>,
    digests: Seq<Seq<char>>,
    seen: Seq<Seq<char>>,
) -> Option<ErrorV>
    decreases rs.len(),
{
    if rs.len() == 0 {
        None
    } else if stored_record_error(rs[0], digests[0]) is Some {
        stored_record_error(rs[0], digests[0])
    } else if seen.contains(rs[0].id) {
        Some(ErrorV::Storage("duplicate plugin in store: "@ + rs[0].id))
    } else {
        stored_plugins_error(rs.drop_first(), digests.drop_first(), seen.push(rs[0].id))
    }
}

fn storage_prefixed(prefix: &str, text: &str) -> (e: ScriptPluginError)
    ensures
        e@ == ErrorV::Storage(prefix@ + text@),
{
    let mut msg: Vec<char> = Vec::new();
    push_str(&mut msg, prefix);
    push_str(&mut msg, text);
    assert(msg@ =~= prefix@ + text@);
    ScriptPluginError::Storage(string_from_chars(msg.as_slice()))
}

/// Checks a stored plugin record against the digest of its stored package.
pub fn check_installed(record: &InstalledPluginRecord, package_digest: &str) -> (r: Result<(), ScriptPluginError>)
    ensures
        match stored_record_error(record@, package_digest@) {
            None => r is Ok,
            Some(e) => r matches Err(x) && x@ == e,
        },
{
    let wanted = package_digest.to_owned();
    if !(record.digest == wanted) {
        return Err(storage_prefixed("stored digest does not match plugin package: ", record.id.as_str()));
    }
    if has_duplicates(&record.granted) || !caps_declared(&record.granted, &record.required, &record.optional) {
        return Err(storage_prefixed("stored grants are invalid: ", record.id.as_str()));
    }
    let none: Vec<ScriptCapability> = Vec::new();
    assert(record.granted@ + none@ =~= record.granted@);
    let all_required = caps_declared(&record.required, &record.granted, &none);
    assert(all_required == (forall|i: int| 0 <= i < record.required@.len() ==> record.granted@.contains(#[trigger] record.required@[i])));
    if record.enabled && !all_required {
        assert(package_digest@ == record@.digest);
        assert(no_duplicates(record@.granted));
        assert(forall|i: int| 0 <= i < record@.granted.len() ==> (record@.required + record@.optional).contains(#[trigger] record@.granted[i]));
        let ghost k = choose|i: int| 0 <= i < record.required@.len() && !record.granted@.contains(#[trigger] record.required@[i]);
        assert(!record@.granted.contains(record@.required[k]));
        assert(stored_record_error(record@, package_digest@) == Some(ErrorV::Storage("enabled plugin is missing a required grant: "@ + record@.id)));
        return Err(storage_prefixed("enabled plugin is missing a required grant: ", record.id.as_str()));
    }
    assert(record.granted@ + Seq::<ScriptCapability>::empty() =~= record.granted@);
    Ok(())
}

impl ScriptPluginStore {
    /// A store over stored records, each checked against the digest of its
    /// stored package (computed by the caller, in the same order).
    pub fn with_plugins(
        records: Vec<InstalledPluginRecord>,
        package_digests: Vec<String>,
    ) -> (r: Result<Self, ScriptPluginError>)
        requires
            records@.len() == package_digests@.len(),
        ensures
            match stored_plugins_error(records_view(records@), crate::grbl::string_views(package_digests@), Seq::empty()) {
                None => r matches Ok(s) && s.wf() && s@ == records_view(records@),
                Some(e) => r matches Err(x) && x@ == e,
            },
    {
        let ghost rs = records_view(records@);
        let ghost ds = crate::grbl::string_views(package_digests@);
        let mut seen: Vec<String> = Vec::new();
        let mut i: usize = 0;
        assert(rs.skip(0) =~= rs);
        assert(ds.skip(0) =~= ds);
        assert(crate::grbl::string_views(seen@) =~= Seq::<Seq<char>>::empty());
        while i < records.len()
            invariant
                i <= records@.len(),
                records@.len() == package_digests@.len(),
                rs == records_view(records@),
                ds == crate::grbl::string_views(package_digests@),
                crate::grbl::string_views(seen@) == rs.take(i as int).map_values(|r: RecordV| r.id),
                stored_plugins_error(rs, ds, Seq::empty()) == stored_plugins_error(rs.skip(i as int), ds.skip(i as int), crate::grbl::string_views(seen@)),
                store_ok(rs.take(i as int)),
            decreases records.len() - i,
        {
            let ghost sv = crate::grbl::string_views(seen@);
            assert(rs.skip(i as int)[0] == records@[i as int]@);
            assert(ds.skip(i as int)[0] == package_digests@[i as int]@);
            assert(rs.skip(i as int).drop_first() =~= rs.skip(i + 1));
            assert(ds.skip(i as int).drop_first() =~= ds.skip(i + 1));
            match check_installed(&records[i], package_digests[i].as_str()) {
                Ok(()) => {},
                Err(e) => {
                    return Err(e);
                },
            }
            if seen_contains(&seen, &records[i].id) {
                return Err(storage_prefixed("duplicate plugin in store: ", records[i].id.as_str()));
            }
            proof {
                let t = rs.take(i + 1);
                assert(t.drop_last() =~= rs.take(i as int));
                assert(rs.take(i + 1).map_values(|r: RecordV| r.id) =~= sv.push(rs[i as int].id));
                assert forall|a: int, b: int| 0 <= a < b < t.len() implies (#[trigger] t[a]).id != (#[trigger] t[b]).id by {
                    if b == i {
                        assert(sv[a] == t[a].id);
                    } else {
                        assert(t[a] == rs.take(i as int)[a] && t[b] == rs.take(i as int)[b]);
                    }
                }
                assert forall|k: int| 0 <= k < t.len() implies grants_ok(#[trigger] t[k]) by {
                    if k < i {
                        assert(t[k] == rs.take(i as int)[k]);
                    }
                }
            }
            seen.push(records[i].id.clone());
            assert(crate::grbl::string_views(seen@) =~= sv.push(records@[i as int].id@));
            i = i + 1;
        }
        assert(rs.take(i as int) =~= rs);
        let s = ScriptPluginStore { plugins: records };
        Ok(s)
    }
}

// ---------------------------------------------------------------------------
// Laws
// ---------------------------------------------------------------------------

/// A plugin that is enabled holds every capability it requires, and holds
/// only capabilities it declared, in every store the operations produce.
pub proof fn lemma_enabled_plugins_hold_their_required_grants(s: Seq<RecordV>, i: int, c: ScriptCapability)
    requires
        store_ok(s),
        0 <= i < s.len(),
    ensures
        s[i].enabled && s[i].required.contains(c) ==> s[i].granted.contains(c),
        s[i].granted.contains(c) ==> (s[i].required + s[i].optional).contains(c),
{
    assert(grants_ok(s[i]));
    if s[i].required.contains(c) {
        let k = choose|k: int| 0 <= k < s[i].required.len() && s[i].required[k] == c;
        assert(s[i].required[k] == c);
    }
    if s[i].granted.contains(c) {
        let k = choose|k: int| 0 <= k < s[i].granted.len() && s[i].granted[k] == c;
        assert(s[i].granted[k] == c);
    }
}

/// Grants are only changed by the operator naming the digest of the package
/// that is installed: a different digest is refused whatever else is asked.
pub proof fn lemma_grants_need_the_installed_digest(
    s: Seq<RecordV>,
    id: Seq<char>,
    digest: Seq<char>,
    enabled: bool,
    grants: Seq<ScriptCapability>,
)
    requires
        find_plugin(s, id) matches Some(i) && s[i].digest != digest,
    ensures
        enable_refusal(s, id, digest, enabled, grants) == Some(ErrorV::DigestMismatch),
{
}

/// Installing an external package never leaves it enabled or granted, even
/// when an earlier version of it was.
pub proof fn lemma_external_install_starts_disabled(
    id: Seq<char>,
    digest: Seq<char>,
    required: Seq<ScriptCapability>,
    optional: Seq<ScriptCapability>,
)
    ensures
        !external_record(id, digest, required, optional).enabled,
        external_record(id, digest, required, optional).granted.len() == 0,
        !external_record(id, digest, required, optional).bundled,
{
}


// ---------------------------------------------------------------------------
// Script actions
// ---------------------------------------------------------------------------

/// What a script's answer asks the host to do.
#[derive(Clone, Copy, Debug, PartialEq, Eq, Structural)]
pub enum ScriptActionKind {
    CreateProgram,
    Jog,
    SetZero,
    ReturnZero,
    Notice,
}

/// The capability an action needs: creating a program needs `JobsCreate`;
/// jogging, `MachineJog`; setting or returning to zero,
/// `MachineCoordinates`; a notice needs none.
pub open spec fn capability_for(kind: ScriptActionKind) -> Option<ScriptCapability> {
    match kind {
        ScriptActionKind::CreateProgram => Some(ScriptCapability::JobsCreate),
        ScriptActionKind::Jog => Some(ScriptCapability::MachineJog),
        ScriptActionKind::SetZero => Some(ScriptCapability::MachineCoordinates),
        ScriptActionKind::ReturnZero => Some(ScriptCapability::MachineCoordinates),
        ScriptActionKind::Notice => None,
    }
}

/// The capability a plugin must hold for an action of this kind.
pub fn action_capability(kind: ScriptActionKind) -> (r: Option<ScriptCapability>)
    ensures
        r == capability_for(kind),
{
    match kind {
        ScriptActionKind::CreateProgram => Some(ScriptCapability::JobsCreate),
        ScriptActionKind::Jog => Some(ScriptCapability::MachineJog),
        ScriptActionKind::SetZero | ScriptActionKind::ReturnZero => Some(ScriptCapability::MachineCoordinates),
        ScriptActionKind::Notice => None,
    }
}

/// Checks a program a script asks to create: its name is a trimmed text of
/// up to 240 bytes; its source is neither blank nor larger than the largest
/// program the parser accepts.
pub fn validate_program_action(source_name: &str, source: &str) -> (r: Result<(), ScriptPluginError>)
    ensures
        if !text_ok(source_name@, 240) {
            r matches Err(e) && e@ == ErrorV::InvalidPackage(text_message("generated source name"@, 240))
        } else if encode_utf8(source@).len() as usize > crate::request::MAX_SOURCE_BYTES || trim(source@).len() == 0 {
            r matches Err(e) && e@ == ErrorV::InvalidAction("generated G-code is empty or too large"@)
        } else {
            r is Ok
        },
{
    match text_error("generated source name", source_name, 240) {
        Some(e) => {
            return Err(e);
        },
        None => {},
    }
    let cs = chars_of(source);
    if source.len() > crate::request::MAX_SOURCE_BYTES || trim_chars(cs.as_slice()).len() == 0 {
        return Err(ScriptPluginError::InvalidAction("generated G-code is empty or too large".to_owned()));
    }
    Ok(())
}

/// Checks a notice a script asks to show: a trimmed title of up to 100
/// bytes and a trimmed message of up to 1000 bytes.
pub fn validate_notice(title: &str, message: &str) -> (r: Result<(), ScriptPluginError>)
    ensures
        if !text_ok(title@, 100) {
            r matches Err(e) && e@ == ErrorV::InvalidPackage(text_message("notice title"@, 100))
        } else if !text_ok(message@, 1000) {
            r matches Err(e) && e@ == ErrorV::InvalidPackage(text_message("notice message"@, 1000))
        } else {
            r is Ok
        },
{
    match text_error("notice title", title, 100) {
        Some(e) => {
            return Err(e);
        },
        None => {},
    }
    match text_error("notice message", message, 1000) {
        Some(e) => Err(e),
        None => Ok(()),
    }
}

} // verus!

//! Machine profiles: the machines an operator has set up, which one is
//! selected, and the rules every change follows. A profile's travel and jog
//! limit (its dimensions, `D`) are carried through as they are; the caller
//! reports whether they are valid.
use vstd::prelude::*;

use crate::controller::{HardwareProfile, SpindleControl};
use crate::pcb::ascii_lower;
use crate::text::{chars_of, dec, push_chars, push_dec, push_str, string_from_chars, trim, trim_chars};
use vstd::utf8::encode_utf8;

verus! {

/// Version of the profile document.
pub const PROFILE_SCHEMA_VERSION: u16 = 1;

/// Most profiles one document holds.
pub const MAX_PROFILES: usize = 64;

/// Longest machine name, in bytes.
pub const MAX_NAME_BYTES: usize = 80;

/// How sure the host is that a port leads to the same machine.
#[derive(Clone, Copy, Debug, PartialEq, Eq, Structural)]
pub enum IdentityConfidence {
    Strong,
    PortBound,
    Synthetic,
}

/// What identifies a machine behind a port.
#[derive(Clone, Debug, PartialEq, Eq)]
pub struct MachineFingerprint {
    pub key: String,
    pub confidence: IdentityConfidence,
    pub label: String,
}

/// How to reach a machine.
#[derive(Clone, Debug, PartialEq, Eq)]
pub struct MachineConnectionPreset {
    pub transport_id: String,
    pub baud_rate: u32,
    pub fingerprint: Option<MachineFingerprint>,
}

/// What the controller reported of itself.
#[derive(Clone, Debug, PartialEq, Eq)]
pub struct DetectedController {
    pub firmware_version: Option<String>,
    pub firmware_build_info: Option<String>,
}

/// A machine the operator has set up.
#[derive(Clone, Debug)]
pub struct MachineProfile<D> {
    pub id: String,
    pub name: String,
    /// Travel and jog limit.
    pub dimensions: D,
    pub spindle_control: SpindleControl,
    pub homing_installed: bool,
    pub limit_switches_installed: bool,
    pub probe_installed: bool,
    pub emergency_stop_installed: bool,
    pub connection: Option<MachineConnectionPreset>,
    pub detected_controller: Option<DetectedController>,
}

/// A machine about to be set up.
#[derive(Clone, Debug)]
pub struct MachineProfileDraft<D> {
    pub name: String,
    pub dimensions: D,
    pub spindle_control: SpindleControl,
    pub homing_installed: bool,
    pub limit_switches_installed: bool,
    pub probe_installed: bool,
    pub emergency_stop_installed: bool,
    pub connection: Option<MachineConnectionPreset>,
    pub detected_controller: Option<DetectedController>,
}

/// What the operator may change of a machine by hand.
#[derive(Clone, Debug)]
pub struct MachineLocalSettingsUpdate {
    pub name: String,
    pub spindle_control: SpindleControl,
    pub homing_installed: bool,
    pub limit_switches_installed: bool,
    pub probe_installed: bool,
    pub emergency_stop_installed: bool,
}

/// The profile document.
#[derive(Clone, Debug)]
pub struct StoredProfiles<D> {
    pub schema_version: u16,
    pub next_id: u64,
    pub profiles: Vec<MachineProfile<D>>,
    pub selected_profile_id: Option<String>,
}

/// Why a profile change was refused.
#[derive(Debug, PartialEq, Eq)]
pub enum ProfileError {
    MissingName,
    NameTooLong,
    InvalidTravel(&'static str),
    InvalidMaxJogDistance,
    DuplicateName(String),
    ProfileLimit(usize),
    UnknownProfile(String),
    IdExhausted,
    UnsupportedSchema(u16),
    InvalidSelection(String),
    InvalidControllerSetting(String),
}

fn copy_text(o: &Option<String>) -> (r: Option<String>)
    ensures
        r == *o,
{
    match o {
        Some(t) => Some(t.clone()),
        None => None,
    }
}

impl MachineFingerprint {
    /// A field-by-field copy.
    pub fn duplicate(&self) -> (r: MachineFingerprint)
        ensures
            r == *self,
    {
        MachineFingerprint { key: self.key.clone(), confidence: self.confidence, label: self.label.clone() }
    }
}

impl MachineConnectionPreset {
    /// A field-by-field copy.
    pub fn duplicate(&self) -> (r: MachineConnectionPreset)
        ensures
            r == *self,
    {
        MachineConnectionPreset {
            transport_id: self.transport_id.clone(),
            baud_rate: self.baud_rate,
            fingerprint: match &self.fingerprint {
                Some(f) => Some(f.duplicate()),
                None => None,
            },
        }
    }
}

impl DetectedController {
    /// A field-by-field copy.
    pub fn duplicate(&self) -> (r: DetectedController)
        ensures
            r == *self,
    {
        DetectedController {
            firmware_version: copy_text(&self.firmware_version),
            firmware_build_info: copy_text(&self.firmware_build_info),
        }
    }
}

fn copy_connection(o: &Option<MachineConnectionPreset>) -> (r: Option<MachineConnectionPreset>)
    ensures
        r == *o,
{
    match o {
        Some(c) => Some(c.duplicate()),
        None => None,
    }
}

fn copy_detected(o: &Option<DetectedController>) -> (r: Option<DetectedController>)
    ensures
        r == *o,
{
    match o {
        Some(c) => Some(c.duplicate()),
        None => None,
    }
}

impl<D> MachineProfile<D> {
    /// What readiness decisions read of this machine: its name, the X, Y and
    /// Z axes, and its installed hardware.
    pub fn hardware_profile(&self) -> (r: HardwareProfile)
        ensures
            r.name@ == self.name@,
            r.axes@.len() == 3,
            r.axes@[0]@ == "X"@,
            r.axes@[1]@ == "Y"@,
            r.axes@[2]@ == "Z"@,
            r.spindle_control == self.spindle_control,
            r.homing_installed == self.homing_installed,
            r.limit_switches_installed == self.limit_switches_installed,
            r.probe_installed == self.probe_installed,
            r.emergency_stop_installed == self.emergency_stop_installed,
    {
        let mut axes: Vec<String> = Vec::new();
        axes.push("X".to_owned());
        axes.push("Y".to_owned());
        axes.push("Z".to_owned());
        HardwareProfile {
            name: self.name.clone(),
            axes,
            spindle_control: self.spindle_control,
            homing_installed: self.homing_installed,
            limit_switches_installed: self.limit_switches_installed,
            probe_installed: self.probe_installed,
            emergency_stop_installed: self.emergency_stop_installed,
        }
    }
}

// ---------------------------------------------------------------------------
// Names and ids
// ---------------------------------------------------------------------------

/// The two names are equal ignoring ASCII case.
pub open spec fn same_name(a: Seq<char>, b: Seq<char>) -> bool {
    a.len() == b.len() && forall|i: int| 0 <= i < a.len() ==> ascii_lower(#[trigger] a[i]) == ascii_lower(b[i])
}

/// A name is required: trimmed, it is not empty.
pub open spec fn name_missing(name: Seq<char>) -> bool {
    trim(name).len() == 0
}

/// Trimmed, the name has more than 80 bytes.
pub open spec fn name_too_long(name: Seq<char>) -> bool {
    encode_utf8(trim(name)).len() as usize > MAX_NAME_BYTES
}

/// Some profile other than `except` is named `name`, ignoring ASCII case.
pub open spec fn name_taken<D>(profiles: Seq<MachineProfile<D>>, name: Seq<char>, except: Option<Seq<char>>) -> bool {
    exists|i: int|
        0 <= i < profiles.len() && (except matches Some(x) ==> profiles[i].id@ != x) && same_name(
            #[trigger] profiles[i].name@,
            name,
        )
}

/// The index of the first profile, from `k` on, with id `id`.
pub open spec fn find_profile_from<D>(profiles: Seq<MachineProfile<D>>, id: Seq<char>, k: int) -> Option<int>
    decreases profiles.len() - k,
{
    if k < 0 || k >= profiles.len() {
        None
    } else if profiles[k].id@ == id {
        Some(k)
    } else {
        find_profile_from(profiles, id, k + 1)
    }
}

/// The index of the first profile with id `id`.
pub open spec fn find_profile<D>(profiles: Seq<MachineProfile<D>>, id: Seq<char>) -> Option<int> {
    find_profile_from(profiles, id, 0)
}

/// Where ids are the same, finding a profile by id gives the same answer.
proof fn lemma_find_same_ids<D>(a: Seq<MachineProfile<D>>, b: Seq<MachineProfile<D>>, id: Seq<char>, k: int)
    requires
        a.len() == b.len(),
        forall|m: int| 0 <= m < a.len() ==> (#[trigger] a[m]).id == b[m].id,
    ensures
        find_profile_from(a, id, k) == find_profile_from(b, id, k),
    decreases a.len() - k,
{
    if 0 <= k < a.len() {
        assert(a[k].id == b[k].id);
        lemma_find_same_ids(a, b, id, k + 1);
    }
}

/// A found index holds a profile with that id.
proof fn lemma_found<D>(a: Seq<MachineProfile<D>>, id: Seq<char>, k: int)
    ensures
        find_profile_from(a, id, k) matches Some(i) ==> k <= i < a.len() && a[i].id@ == id,
        (0 <= k && exists|m: int| k <= m < a.len() && (#[trigger] a[m].id@) == id) ==> find_profile_from(a, id, k) is Some,
    decreases a.len() - k,
{
    if 0 <= k < a.len() {
        lemma_found(a, id, k + 1);
        if a[k].id@ != id && (exists|m: int| k <= m < a.len() && (#[trigger] a[m].id@) == id) {
            let m = choose|m: int| k <= m < a.len() && (#[trigger] a[m].id@) == id;
            assert(k + 1 <= m);
        }
    }
}

/// No two profiles have the same id.
pub open spec fn ids_distinct<D>(doc: StoredProfiles<D>) -> bool {
    forall|i: int, j: int|
        0 <= i < doc.profiles@.len() && 0 <= j < doc.profiles@.len() && i != j ==> (#[trigger] doc.profiles@[i].id@)
            != (#[trigger] doc.profiles@[j].id@)
}

/// The first profile, from `k` on, whose name is missing or too long or
/// whose dimensions were found invalid.
pub open spec fn first_bad_profile<D>(profiles: Seq<MachineProfile<D>>, errors: Seq<Option<ProfileError>>, k: int) -> Option<int>
    decreases profiles.len() - k,
{
    if k < 0 || k >= profiles.len() {
        None
    } else if name_missing(profiles[k].name@) || name_too_long(profiles[k].name@) || errors[k] is Some {
        Some(k)
    } else {
        first_bad_profile(profiles, errors, k + 1)
    }
}

/// `machine-` and the number with at least four digits.
pub open spec fn profile_id(n: u64) -> Seq<char> {
    let d = dec(n as nat);
    "machine-"@ + if d.len() < 4 {
        Seq::new((4 - d.len()) as nat, |i: int| '0') + d
    } else {
        d
    }
}

/// The selected profile exists.
pub open spec fn selection_ok<D>(doc: StoredProfiles<D>) -> bool {
    doc.selected_profile_id matches Some(s) ==> find_profile(doc.profiles@, s@) is Some
}

/// No two profiles have the same name, ignoring ASCII case.
pub open spec fn names_distinct<D>(doc: StoredProfiles<D>) -> bool {
    forall|i: int, j: int|
        0 <= i < doc.profiles@.len() && 0 <= j < doc.profiles@.len() && i != j ==> !same_name(
            #[trigger] doc.profiles@[i].name@,
            #[trigger] doc.profiles@[j].name@,
        )
}

fn lower(c: char) -> (r: char)
    ensures
        r == ascii_lower(c),
{
    if 'A' <= c && c <= 'Z' {
        let b = (c as u8) + 32;
        b as char
    } else {
        c
    }
}

fn same_name_exec(a: &[char], b: &[char]) -> (r: bool)
    ensures
        r == same_name(a@, b@),
{
    if a.len() != b.len() {
        return false;
    }
    let mut i: usize = 0;
    while i < a.len()
        invariant
            i <= a@.len(),
            a@.len() == b@.len(),
            forall|k: int| 0 <= k < i ==> ascii_lower(#[trigger] a@[k]) == ascii_lower(b@[k]),
        decreases a.len() - i,
    {
        if lower(a[i]) != lower(b[i]) {
            return false;
        }
        i = i + 1;
    }
    true
}

fn profile_id_exec(n: u64) -> (r: String)
    ensures
        r@ == profile_id(n),
{
    let digits = crate::text::dec_chars(n);
    let mut out: Vec<char> = Vec::new();
    push_str(&mut out, "machine-");
    let mut pad: usize = 0;
    if digits.len() < 4 {
        pad = 4 - digits.len();
    }
    let ghost head = out@;
    let mut k: usize = 0;
    while k < pad
        invariant
            k <= pad,
            out@ == head + Seq::new(k as nat, |i: int| '0'),
        decreases pad - k,
    {
        out.push('0');
        k = k + 1;
        assert(out@ =~= head + Seq::new(k as nat, |i: int| '0'));
    }
    push_chars(&mut out, digits.as_slice());
    proof {
        reveal_strlit("machine-");
        if digits@.len() < 4 {
            assert(out@ =~= profile_id(n));
        } else {
            assert(Seq::new(0nat, |i: int| '0') =~= Seq::<char>::empty());
            assert(out@ =~= profile_id(n));
        }
    }
    string_from_chars(out.as_slice())
}

/// Checks a machine name: required, and at most 80 bytes once trimmed.
pub fn validate_name(name: &str) -> (r: Result<(), ProfileError>)
    ensures
        if name_missing(name@) {
            r == Err::<(), _>(ProfileError::MissingName)
        } else if name_too_long(name@) {
            r == Err::<(), _>(ProfileError::NameTooLong)
        } else {
            r is Ok
        },
{
    let t = trim_chars(chars_of(name).as_slice());
    if t.len() == 0 {
        return Err(ProfileError::MissingName);
    }
    let text = string_from_chars(t.as_slice());
    if text.as_str().len() > MAX_NAME_BYTES {
        return Err(ProfileError::NameTooLong);
    }
    Ok(())
}

// ---------------------------------------------------------------------------
// The store
// ---------------------------------------------------------------------------

/// `p` is the profile made from `draft` under id number `n`.
pub open spec fn made_from<D>(p: MachineProfile<D>, draft: MachineProfileDraft<D>, n: u64) -> bool {
    &&& p.id@ == profile_id(n)
    &&& p.name@ == trim(draft.name@)
    &&& p.dimensions == draft.dimensions
    &&& p.spindle_control == draft.spindle_control
    &&& p.homing_installed == draft.homing_installed
    &&& p.limit_switches_installed == draft.limit_switches_installed
    &&& p.probe_installed == draft.probe_installed
    &&& p.emergency_stop_installed == draft.emergency_stop_installed
    &&& p.connection == draft.connection
    &&& p.detected_controller == draft.detected_controller
}

/// `p` is `old` with the operator's update and the new dimensions.
pub open spec fn updated_by<D>(p: MachineProfile<D>, old: MachineProfile<D>, u: MachineLocalSettingsUpdate, dimensions: D) -> bool {
    &&& p.id == old.id
    &&& p.name@ == trim(u.name@)
    &&& p.dimensions == dimensions
    &&& p.spindle_control == u.spindle_control
    &&& p.homing_installed == u.homing_installed
    &&& p.limit_switches_installed == u.limit_switches_installed
    &&& p.probe_installed == u.probe_installed
    &&& p.emergency_stop_installed == u.emergency_stop_installed
    &&& p.connection == old.connection
    &&& p.detected_controller == old.detected_controller
}

/// The keeper of the profile document.
pub struct MachineProfileStore<D> {
    document: StoredProfiles<D>,
}

impl<D> View for MachineProfileStore<D> {
    type V = StoredProfiles<D>;

    closed spec fn view(&self) -> StoredProfiles<D> {
        self.document
    }
}

impl<D> MachineProfileStore<D> {
    /// A store with no profiles; the first id number is 1.
    pub fn in_memory() -> (s: Self)
        ensures
            s@.schema_version == PROFILE_SCHEMA_VERSION,
            s@.next_id == 1,
            s@.profiles@.len() == 0,
            s@.selected_profile_id is None,
    {
        MachineProfileStore {
            document: StoredProfiles {
                schema_version: PROFILE_SCHEMA_VERSION,
                next_id: 1,
                profiles: Vec::new(),
                selected_profile_id: None,
            },
        }
    }

    /// A store over a document read back from disk and checked with
    /// [`validate_document`].
    pub fn with_document(document: StoredProfiles<D>) -> (s: Self)
        ensures
            s@ == document,
    {
        MachineProfileStore { document }
    }

    /// The document.
    pub fn document(&self) -> (r: &StoredProfiles<D>)
        ensures
            *r == self@,
    {
        &self.document
    }

    fn find(&self, id: &str) -> (r: Option<usize>)
        ensures
            match r {
                Some(i) => find_profile(self@.profiles@, id@) == Some(i as int) && i < self@.profiles@.len(),
                None => find_profile(self@.profiles@, id@) is None,
            },
    {
        let ps = &self.document.profiles;
        let mut i: usize = 0;
        while i < ps.len()
            invariant
                i <= ps@.len(),
                ps@ == self@.profiles@,
                find_profile(ps@, id@) == find_profile_from(ps@, id@, i as int),
            decreases ps.len() - i,
        {
            if crate::text::chars_eq_str(chars_of(ps[i].id.as_str()).as_slice(), id) {
                return Some(i);
            }
            i = i + 1;
        }
        None
    }

    /// The selected profile, if any.
    pub fn selected(&self) -> (r: Option<&MachineProfile<D>>)
        ensures
            match r {
                Some(p) => self@.selected_profile_id matches Some(s) && find_profile(self@.profiles@, s@) matches Some(
                    i,
                ) && *p == self@.profiles@[i],
                None => self@.selected_profile_id matches Some(s) ==> find_profile(self@.profiles@, s@) is None,
            },
    {
        match &self.document.selected_profile_id {
            Some(s) => match self.find(s.as_str()) {
                Some(i) => Some(&self.document.profiles[i]),
                None => None,
            },
            None => None,
        }
    }

    fn name_taken_exec(&self, name: &[char], except: Option<&str>) -> (r: bool)
        ensures
            r == name_taken(self@.profiles@, name@, match except {
                Some(x) => Some(x@),
                None => None,
            }),
    {
        let ghost ex = match except {
            Some(x) => Some(x@),
            None => None::<Seq<char>>,
        };
        let ps = &self.document.profiles;
        let mut i: usize = 0;
        while i < ps.len()
            invariant
                i <= ps@.len(),
                ps@ == self@.profiles@,
                ex == (match except {
                    Some(x) => Some(x@),
                    None => None::<Seq<char>>,
                }),
                forall|k: int|
                    0 <= k < i ==> !((ex matches Some(x) ==> ps@[k].id@ != x) && same_name(
                        #[trigger] ps@[k].name@,
                        name@,
                    )),
            decreases ps.len() - i,
        {
            let other = match except {
                Some(x) => !crate::text::chars_eq_str(chars_of(ps[i].id.as_str()).as_slice(), x),
                None => true,
            };
            if other && same_name_exec(chars_of(ps[i].name.as_str()).as_slice(), name) {
                return true;
            }
            i = i + 1;
        }
        false
    }

    /// Sets up a machine and selects it. `dimensions_check` says whether the
    /// draft's travel (each axis finite, above zero and at most 100 m) and jog
    /// limit (at least 0.01 mm and at most the longest travel) are valid, and
    /// if not, why. The new profile is named after the trimmed draft name and
    /// gets the next id.
    pub fn create_and_select(
        &mut self,
        draft: MachineProfileDraft<D>,
        dimensions_check: Result<(), ProfileError>,
    ) -> (r: Result<(), ProfileError>)
        ensures
            if name_missing(draft.name@) {
                r == Err::<(), _>(ProfileError::MissingName) && final(self)@ == old(self)@
            } else if name_too_long(draft.name@) {
                r == Err::<(), _>(ProfileError::NameTooLong) && final(self)@ == old(self)@
            } else if dimensions_check is Err {
                r == dimensions_check && final(self)@ == old(self)@
            } else if old(self)@.profiles@.len() >= MAX_PROFILES {
                r == Err::<(), _>(ProfileError::ProfileLimit(MAX_PROFILES)) && final(self)@ == old(self)@
            } else if name_taken(old(self)@.profiles@, trim(draft.name@), None) {
                r matches Err(ProfileError::DuplicateName(s)) && s@ == trim(draft.name@) && final(self)@ == old(self)@
            } else if old(self)@.next_id == u64::MAX {
                r == Err::<(), _>(ProfileError::IdExhausted) && final(self)@ == old(self)@
            } else {
                &&& r is Ok
                &&& final(self)@.schema_version == old(self)@.schema_version
                &&& final(self)@.next_id == old(self)@.next_id + 1
                &&& final(self)@.profiles@.len() == old(self)@.profiles@.len() + 1
                &&& final(self)@.profiles@.drop_last() == old(self)@.profiles@
                &&& made_from(final(self)@.profiles@.last(), draft, old(self)@.next_id)
                &&& final(self)@.selected_profile_id matches Some(s) && s@ == profile_id(old(self)@.next_id)
            },
            selection_ok(old(self)@) ==> selection_ok(final(self)@),
            names_distinct(old(self)@) ==> names_distinct(final(self)@),
    {
        match validate_name(draft.name.as_str()) {
            Err(e) => {
                return Err(e);
            },
            Ok(()) => {},
        }
        match dimensions_check {
            Err(e) => {
                return Err(e);
            },
            Ok(()) => {},
        }
        if self.document.profiles.len() >= MAX_PROFILES {
            return Err(ProfileError::ProfileLimit(MAX_PROFILES));
        }
        let t = trim_chars(chars_of(draft.name.as_str()).as_slice());
        if self.name_taken_exec(t.as_slice(), None) {
            return Err(ProfileError::DuplicateName(string_from_chars(t.as_slice())));
        }
        if self.document.next_id == u64::MAX {
            return Err(ProfileError::IdExhausted);
        }
        let ghost before = self@;
        let n = self.document.next_id;
        let id = profile_id_exec(n);
        let profile = MachineProfile {
            id: id.clone(),
            name: string_from_chars(t.as_slice()),
            dimensions: draft.dimensions,
            spindle_control: draft.spindle_control,
            homing_installed: draft.homing_installed,
            limit_switches_installed: draft.limit_switches_installed,
            probe_installed: draft.probe_installed,
            emergency_stop_installed: draft.emergency_stop_installed,
            connection: draft.connection,
            detected_controller: draft.detected_controller,
        };
        self.document.next_id = n + 1;
        self.document.selected_profile_id = Some(id);
        self.document.profiles.push(profile);
        proof {
            let ps = self@.profiles@;
            let last = (ps.len() - 1) as int;
            assert(ps.drop_last() =~= before.profiles@);
            assert(ps[last].id@ == profile_id(n));
            lemma_found(ps, profile_id(n), 0);
            if selection_ok(before) {
                assert(selection_ok(self@));
            }
            if names_distinct(before) {
                assert forall|i: int, j: int|
                    0 <= i < ps.len() && 0 <= j < ps.len() && i != j implies !same_name(
                    #[trigger] ps[i].name@,
                    #[trigger] ps[j].name@,
                ) by {
                    if i == last {
                        assert(ps[j] == before.profiles@[j]);
                        assert(!same_name(before.profiles@[j].name@, trim(draft.name@)));
                        if same_name(ps[i].name@, ps[j].name@) {
                            assert(same_name(ps[j].name@, ps[i].name@));
                        }
                    } else if j == last {
                        assert(ps[i] == before.profiles@[i]);
                        assert(!same_name(before.profiles@[i].name@, trim(draft.name@)));
                    } else {
                        assert(ps[i] == before.profiles@[i]);
                        assert(ps[j] == before.profiles@[j]);
                    }
                }
            }
        }
        Ok(())
    }

    /// Selects a machine that exists.
    pub fn select(&mut self, profile_id: &str) -> (r: Result<(), ProfileError>)
        ensures
            match find_profile(old(self)@.profiles@, profile_id@) {
                None => r matches Err(ProfileError::UnknownProfile(s)) && s@ == profile_id@ && final(self)@ == old(self)@,
                Some(_) => {
                    &&& r is Ok
                    &&& final(self)@.profiles == old(self)@.profiles
                    &&& final(self)@.next_id == old(self)@.next_id
                    &&& final(self)@.schema_version == old(self)@.schema_version
                    &&& final(self)@.selected_profile_id matches Some(s) && s@ == profile_id@
                    &&& selection_ok(final(self)@)
                },
            },
            selection_ok(old(self)@) ==> selection_ok(final(self)@),
            names_distinct(old(self)@) ==> names_distinct(final(self)@),
    {
        match self.find(profile_id) {
            None => Err(ProfileError::UnknownProfile(profile_id.to_owned())),
            Some(_) => {
                self.document.selected_profile_id = Some(profile_id.to_owned());
                Ok(())
            },
        }
    }

    /// Changes what the operator may change of a machine: its name (trimmed,
    /// unique among the others ignoring ASCII case), its jog limit, spindle
    /// control and installed hardware. `dimensions` is the machine's
    /// dimensions with the new jog limit, and `dimensions_check` whether that
    /// limit is valid for its travel.
    pub fn update_local_settings(
        &mut self,
        profile_id: &str,
        update: MachineLocalSettingsUpdate,
        dimensions: D,
        dimensions_check: Result<(), ProfileError>,
    ) -> (r: Result<(), ProfileError>)
        ensures
            if name_missing(update.name@) {
                r == Err::<(), _>(ProfileError::MissingName) && final(self)@ == old(self)@
            } else if name_too_long(update.name@) {
                r == Err::<(), _>(ProfileError::NameTooLong) && final(self)@ == old(self)@
            } else if name_taken(old(self)@.profiles@, trim(update.name@), Some(profile_id@)) {
                r matches Err(ProfileError::DuplicateName(s)) && s@ == trim(update.name@) && final(self)@ == old(self)@
            } else {
                match find_profile(old(self)@.profiles@, profile_id@) {
                    None => r matches Err(ProfileError::UnknownProfile(s)) && s@ == profile_id@ && final(self)@
                        == old(self)@,
                    Some(i) => if dimensions_check is Err {
                        r == dimensions_check && final(self)@ == old(self)@
                    } else {
                        &&& r is Ok
                        &&& final(self)@.schema_version == old(self)@.schema_version
                        &&& final(self)@.next_id == old(self)@.next_id
                        &&& final(self)@.selected_profile_id == old(self)@.selected_profile_id
                        &&& final(self)@.profiles@.len() == old(self)@.profiles@.len()
                        &&& forall|k: int|
                            0 <= k < old(self)@.profiles@.len() && k != i ==> final(self)@.profiles@[k]
                                == old(self)@.profiles@[k]
                        &&& updated_by(final(self)@.profiles@[i], old(self)@.profiles@[i], update, dimensions)
                    },
                }
            },
            selection_ok(old(self)@) ==> selection_ok(final(self)@),
            ids_distinct(old(self)@) ==> ids_distinct(final(self)@),
            names_distinct(old(self)@) && ids_distinct(old(self)@) ==> names_distinct(final(self)@),
    {
        match validate_name(update.name.as_str()) {
            Err(e) => {
                return Err(e);
            },
            Ok(()) => {},
        }
        let t = trim_chars(chars_of(update.name.as_str()).as_slice());
        if self.name_taken_exec(t.as_slice(), Some(profile_id)) {
            return Err(ProfileError::DuplicateName(string_from_chars(t.as_slice())));
        }
        let i = match self.find(profile_id) {
            None => {
                return Err(ProfileError::UnknownProfile(profile_id.to_owned()));
            },
            Some(i) => i,
        };
        match dimensions_check {
            Err(e) => {
                return Err(e);
            },
            Ok(()) => {},
        }
        let ghost before = self@;
        let old_profile = &self.document.profiles[i];
        let profile = MachineProfile {
            id: old_profile.id.clone(),
            name: string_from_chars(t.as_slice()),
            dimensions,
            spindle_control: update.spindle_control,
            homing_installed: update.homing_installed,
            limit_switches_installed: update.limit_switches_installed,
            probe_installed: update.probe_installed,
            emergency_stop_installed: update.emergency_stop_installed,
            connection: copy_connection(&old_profile.connection),
            detected_controller: copy_detected(&old_profile.detected_controller),
        };
        self.document.profiles.set(i, profile);
        proof {
            let ps = self@.profiles@;
            assert(ps[i as int].id == before.profiles@[i as int].id);
            assert forall|m: int| 0 <= m < ps.len() implies (#[trigger] ps[m]).id == before.profiles@[m].id by {}
            if selection_ok(before) {
                let s = before.selected_profile_id.unwrap();
                lemma_find_same_ids(ps, before.profiles@, s@, 0);
            }
            lemma_found(before.profiles@, profile_id@, 0);
            if names_distinct(before) && ids_distinct(before) {
                assert forall|a: int, b: int|
                    0 <= a < ps.len() && 0 <= b < ps.len() && a != b implies !same_name(
                    #[trigger] ps[a].name@,
                    #[trigger] ps[b].name@,
                ) by {
                    if a == i {
                        assert(ps[b] == before.profiles@[b]);
                        assert(before.profiles@[i as int].id@ == profile_id@);
                        assert(before.profiles@[b].id@ != profile_id@);
                        assert(!same_name(before.profiles@[b].name@, trim(update.name@)));
                        if same_name(ps[a].name@, ps[b].name@) {
                            assert(same_name(ps[b].name@, ps[a].name@));
                        }
                    } else if b == i {
                        assert(ps[a] == before.profiles@[a]);
                        assert(before.profiles@[i as int].id@ == profile_id@);
                        assert(before.profiles@[a].id@ != profile_id@);
                        assert(!same_name(before.profiles@[a].name@, trim(update.name@)));
                    } else {
                        assert(ps[a] == before.profiles@[a]);
                        assert(ps[b] == before.profiles@[b]);
                    }
                }
            }
        }
        Ok(())
    }

    /// Records what the controller reported of a machine, and selects it.
    /// `travel_check` says whether the reported travel is valid.
    pub fn record_controller_observation(
        &mut self,
        profile_id: &str,
        dimensions: D,
        travel_check: Result<(), ProfileError>,
        connection: MachineConnectionPreset,
        detected_controller: DetectedController,
    ) -> (r: Result<(), ProfileError>)
        ensures
            if travel_check is Err {
                r == travel_check && final(self)@ == old(self)@
            } else {
                match find_profile(old(self)@.profiles@, profile_id@) {
                    None => r matches Err(ProfileError::UnknownProfile(s)) && s@ == profile_id@ && final(self)@
                        == old(self)@,
                    Some(i) => {
                        &&& r is Ok
                        &&& final(self)@.schema_version == old(self)@.schema_version
                        &&& final(self)@.next_id == old(self)@.next_id
                        &&& final(self)@.selected_profile_id matches Some(s) && s@ == profile_id@
                        &&& final(self)@.profiles@ == old(self)@.profiles@.update(
                            i,
                            MachineProfile {
                                dimensions,
                                connection: Some(connection),
                                detected_controller: Some(detected_controller),
                                ..old(self)@.profiles@[i]
                            },
                        )
                        &&& selection_ok(final(self)@)
                    },
                }
            },
            selection_ok(old(self)@) ==> selection_ok(final(self)@),
            ids_distinct(old(self)@) ==> ids_distinct(final(self)@),
            names_distinct(old(self)@) ==> names_distinct(final(self)@),
    {
        match travel_check {
            Err(e) => {
                return Err(e);
            },
            Ok(()) => {},
        }
        let i = match self.find(profile_id) {
            None => {
                return Err(ProfileError::UnknownProfile(profile_id.to_owned()));
            },
            Some(i) => i,
        };
        let ghost before = self@;
        proof {
            lemma_found(before.profiles@, profile_id@, 0);
        }
        let old_profile = &self.document.profiles[i];
        let profile = MachineProfile {
            id: old_profile.id.clone(),
            name: old_profile.name.clone(),
            dimensions,
            spindle_control: old_profile.spindle_control,
            homing_installed: old_profile.homing_installed,
            limit_switches_installed: old_profile.limit_switches_installed,
            probe_installed: old_profile.probe_installed,
            emergency_stop_installed: old_profile.emergency_stop_installed,
            connection: Some(connection),
            detected_controller: Some(detected_controller),
        };
        self.document.profiles.set(i, profile);
        self.document.selected_profile_id = Some(profile_id.to_owned());
        proof {
            let ps = self@.profiles@;
            assert(ps =~= before.profiles@.update(
                i as int,
                MachineProfile {
                    dimensions,
                    connection: Some(connection),
                    detected_controller: Some(detected_controller),
                    ..before.profiles@[i as int]
                },
            ));
            assert(ps[i as int].id@ == profile_id@);
            lemma_found(ps, profile_id@, 0);
            assert forall|m: int| 0 <= m < ps.len() implies (#[trigger] ps[m]).id == before.profiles@[m].id by {}
            if names_distinct(before) {
                assert forall|a: int, b: int|
                    0 <= a < ps.len() && 0 <= b < ps.len() && a != b implies !same_name(
                    #[trigger] ps[a].name@,
                    #[trigger] ps[b].name@,
                ) by {
                    assert(ps[a].name == before.profiles@[a].name);
                    assert(ps[b].name == before.profiles@[b].name);
                }
            }
        }
        Ok(())
    }
}

/// The first rule a stored document breaks: its schema version, the profile
/// limit, each profile's name and dimensions in order
/// (`dimension_errors[i]`, as the caller checked the `i`th profile), and a
/// selection that names no profile.
pub fn validate_document<D>(document: &StoredProfiles<D>, dimension_errors: Vec<Option<ProfileError>>) -> (r: Result<
    (),
    ProfileError,
>)
    requires
        dimension_errors@.len() == document.profiles@.len(),
    ensures
        if document.schema_version != PROFILE_SCHEMA_VERSION {
            r == Err::<(), _>(ProfileError::UnsupportedSchema(document.schema_version))
        } else if document.profiles@.len() > MAX_PROFILES {
            r == Err::<(), _>(ProfileError::ProfileLimit(MAX_PROFILES))
        } else {
            match first_bad_profile(document.profiles@, dimension_errors@, 0) {
                Some(i) => if name_missing(document.profiles@[i].name@) {
                    r == Err::<(), _>(ProfileError::MissingName)
                } else if name_too_long(document.profiles@[i].name@) {
                    r == Err::<(), _>(ProfileError::NameTooLong)
                } else {
                    r == Err::<(), _>(dimension_errors@[i].unwrap())
                },
                None => match document.selected_profile_id {
                    Some(x) => if find_profile(document.profiles@, x@) is None {
                        r matches Err(ProfileError::InvalidSelection(s)) && s@ == x@
                    } else {
                        r is Ok
                    },
                    None => r is Ok,
                },
            }
        },
        r is Ok ==> selection_ok(*document),
{
    if document.schema_version != PROFILE_SCHEMA_VERSION {
        return Err(ProfileError::UnsupportedSchema(document.schema_version));
    }
    if document.profiles.len() > MAX_PROFILES {
        return Err(ProfileError::ProfileLimit(MAX_PROFILES));
    }
    let mut errors = dimension_errors;
    let ghost original = errors@;
    let mut i: usize = 0;
    while i < document.profiles.len()
        invariant
            i <= document.profiles@.len(),
            document.schema_version == PROFILE_SCHEMA_VERSION,
            document.profiles@.len() <= MAX_PROFILES,
            original == dimension_errors@,
            errors@ == original,
            original.len() == document.profiles@.len(),
            first_bad_profile(document.profiles@, original, 0) == first_bad_profile(
                document.profiles@,
                original,
                i as int,
            ),
        decreases document.profiles.len() - i,
    {
        match validate_name(document.profiles[i].name.as_str()) {
            Err(e) => {
                return Err(e);
            },
            Ok(()) => {},
        }
        if errors[i].is_some() {
            let taken = errors.remove(i);
            return Err(taken.unwrap());
        }
        i = i + 1;
    }
    match &document.selected_profile_id {
        Some(s) => {
            let ps = &document.profiles;
            let mut k: usize = 0;
            while k < ps.len()
                invariant
                    k <= ps@.len(),
                    ps@ == document.profiles@,
                    document.schema_version == PROFILE_SCHEMA_VERSION,
                    document.profiles@.len() <= MAX_PROFILES,
                    first_bad_profile(document.profiles@, dimension_errors@, 0) is None,
                    document.selected_profile_id == Some(*s),
                    find_profile(ps@, s@) == find_profile_from(ps@, s@, k as int),
                decreases ps.len() - k,
            {
                if crate::text::chars_eq_str(chars_of(ps[k].id.as_str()).as_slice(), s.as_str()) {
                    return Ok(());
                }
                k = k + 1;
            }
            Err(ProfileError::InvalidSelection(s.clone()))
        },
        None => Ok(()),
    }
}

} // verus!

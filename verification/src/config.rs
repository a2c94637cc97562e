//! The settings that the processes share.
//!
//! Scale, opacity and temperature are single-precision numbers, held here as
//! their IEEE-754 bit patterns (`f32::to_bits`).

use crate::json::text_eq;
use crate::models::{Pet, WindowPosition};
use vstd::prelude::*;

verus! {

/// The bit pattern of the single-precision number 1.
pub const ONE: u32 = 0x3f80_0000;

/// The bit pattern of the single-precision number nearest to 0.7.
pub const DEFAULT_TEMPERATURE: u32 = 0x3f33_3333;

/// General settings.
#[derive(Debug, Clone)]
pub struct GeneralSettings {
    pub auto_start: bool,
    pub language: String,
}

/// How the pet looks and where it stands.
#[derive(Debug, Clone, Copy)]
pub struct AppearanceSettings {
    pub pet_scale: u32,
    pub pet_position: WindowPosition,
    pub always_on_top: bool,
    pub opacity: u32,
}

/// Who answers for the pet.
#[derive(Debug, Clone, Copy, PartialEq, Eq, Structural)]
pub enum AiProvider {
    OpenAi,
    Anthropic,
    Ollama,
    Custom,
}

/// The pet's character.
#[derive(Debug, Clone)]
pub struct PersonalityConfig {
    pub name: String,
    pub traits: Vec<String>,
    pub custom_prompt: Option<String>,
}

/// How the pet talks.
#[derive(Debug, Clone)]
pub struct AiSettings {
    pub enabled: bool,
    pub provider: AiProvider,
    pub api_key: Option<String>,
    pub model: String,
    pub endpoint: Option<String>,
    pub personality: PersonalityConfig,
    pub temperature: u32,
}

/// Access to the model generator.
#[derive(Debug, Clone)]
pub struct MeshySettings {
    pub api_key: Option<String>,
}

/// Everything that the user has set, and the pets.
#[derive(Debug, Clone)]
pub struct AppConfig {
    pub general: GeneralSettings,
    pub appearance: AppearanceSettings,
    pub ai: AiSettings,
    pub meshy: MeshySettings,
    pub pets: Vec<Pet>,
    pub active_pet: Option<u128>,
}

/// The settings as they were once kept: flat, with neither groups nor
/// anything on how the pet talks.
#[derive(Debug, Clone)]
pub struct LegacyAppConfig {
    pub pets: Vec<Pet>,
    pub active_pet: Option<u128>,
    pub pet_position: WindowPosition,
    pub pet_scale: u32,
    pub auto_start: bool,
    pub meshy_api_key: Option<String>,
}

/// What the settings file was found to hold.
#[derive(Debug, Clone)]
pub enum StoredConfig {
    /// There is no file.
    Missing,
    /// A file in the flat form.
    Legacy(LegacyAppConfig),
    /// A file in the grouped form.
    Current(AppConfig),
}

/// What the supervisor keeps on disk between runs.
#[derive(Debug, Clone, Copy, PartialEq, Eq, Structural)]
pub struct AppState {
    pub pet_visible: bool,
    pub theater_running: bool,
    pub manager_open: bool,
}

pub fn default_language() -> (r: String)
    ensures
        r@ == "en"@,
{
    "en".to_owned()
}

pub fn default_true() -> (r: bool)
    ensures
        r,
{
    true
}

pub fn default_model() -> (r: String)
    ensures
        r@ == "gpt-4o-mini"@,
{
    "gpt-4o-mini".to_owned()
}

pub fn default_temperature() -> (r: u32)
    ensures
        r == DEFAULT_TEMPERATURE,
{
    DEFAULT_TEMPERATURE
}

pub fn default_pet_name() -> (r: String)
    ensures
        r@ == "Pet"@,
{
    "Pet".to_owned()
}

impl AppearanceSettings {
    /// Scale 1, at the origin, on top, opaque.
    pub open spec fn spec_default() -> AppearanceSettings {
        AppearanceSettings {
            pet_scale: ONE,
            pet_position: WindowPosition { x: 0, y: 0 },
            always_on_top: true,
            opacity: ONE,
        }
    }

    /// Whether two settings are the same in every member.
    pub fn same_as(&self, other: &AppearanceSettings) -> (r: bool)
        ensures
            r == (*self == *other),
    {
        self.pet_scale == other.pet_scale && self.pet_position.x == other.pet_position.x
            && self.pet_position.y == other.pet_position.y && self.always_on_top
            == other.always_on_top && self.opacity == other.opacity
    }
}

impl Default for AppearanceSettings {
    fn default() -> (r: Self)
        ensures
            r == AppearanceSettings::spec_default(),
    {
        AppearanceSettings {
            pet_scale: ONE,
            pet_position: WindowPosition { x: 0, y: 0 },
            always_on_top: true,
            opacity: ONE,
        }
    }
}

impl Default for GeneralSettings {
    fn default() -> (r: Self)
        ensures
            !r.auto_start,
            r.language@ == "en"@,
    {
        GeneralSettings { auto_start: false, language: default_language() }
    }
}

impl Default for AiProvider {
    fn default() -> (r: Self)
        ensures
            r == AiProvider::OpenAi,
    {
        AiProvider::OpenAi
    }
}

impl Default for PersonalityConfig {
    fn default() -> (r: Self)
        ensures
            r.name@ == "Pet"@,
            r.traits@.len() == 0,
            r.custom_prompt is None,
    {
        PersonalityConfig { name: default_pet_name(), traits: Vec::new(), custom_prompt: None }
    }
}

impl AiSettings {
    /// Switched off, with the first provider, its small model and no key.
    pub open spec fn is_default(&self) -> bool {
        &&& !self.enabled
        &&& self.provider == AiProvider::OpenAi
        &&& self.api_key is None
        &&& self.model@ == "gpt-4o-mini"@
        &&& self.endpoint is None
        &&& self.personality.name@ == "Pet"@
        &&& self.personality.traits@.len() == 0
        &&& self.personality.custom_prompt is None
        &&& self.temperature == DEFAULT_TEMPERATURE
    }
}

impl Default for AiSettings {
    fn default() -> (r: Self)
        ensures
            r.is_default(),
    {
        AiSettings {
            enabled: false,
            provider: AiProvider::OpenAi,
            api_key: None,
            model: default_model(),
            endpoint: None,
            personality: PersonalityConfig::default(),
            temperature: DEFAULT_TEMPERATURE,
        }
    }
}

impl Default for MeshySettings {
    fn default() -> (r: Self)
        ensures
            r.api_key is None,
    {
        MeshySettings { api_key: None }
    }
}

impl Default for AppState {
    fn default() -> (r: Self)
        ensures
            r == (AppState { pet_visible: false, theater_running: false, manager_open: false }),
    {
        AppState { pet_visible: false, theater_running: false, manager_open: false }
    }
}

impl AppState {
    /// The state that a file holds, read by the caller: `None` where there
    /// is no file, which gives the default state.
    pub fn load(stored: Option<AppState>) -> (r: AppState)
        ensures
            r == match stored {
                Some(s) => s,
                None => AppState {
                    pet_visible: false,
                    theater_running: false,
                    manager_open: false,
                },
            },
    {
        match stored {
            Some(s) => s,
            None => AppState { pet_visible: false, theater_running: false, manager_open: false },
        }
    }

    /// The state with what the supervisor reports applied.
    pub fn apply(self, change: crate::process::Persist) -> (r: AppState)
        ensures
            r == match change {
                crate::process::Persist::Nothing => self,
                crate::process::Persist::TheaterRunning(b) => AppState {
                    theater_running: b,
                    ..self
                },
                crate::process::Persist::PetVisible(b) => AppState { pet_visible: b, ..self },
            },
    {
        match change {
            crate::process::Persist::Nothing => self,
            crate::process::Persist::TheaterRunning(b) => AppState { theater_running: b, ..self },
            crate::process::Persist::PetVisible(b) => AppState { pet_visible: b, ..self },
        }
    }
}

/// Whether a pet of `pets` has the identifier `id`.
pub open spec fn has_pet(pets: Seq<Pet>, id: u128) -> bool {
    exists|i: int| 0 <= i < pets.len() && pets[i].id == id
}

/// Whether the pet at `i` is the first of `pets` with the identifier `id`.
pub open spec fn first_with(pets: Seq<Pet>, id: u128, i: int) -> bool {
    &&& 0 <= i < pets.len()
    &&& pets[i].id == id
    &&& forall|j: int| 0 <= j < i ==> pets[j].id != id
}

/// The pets of `pets`, in their order, but for those with the identifier
/// `id`.
pub open spec fn without(pets: Seq<Pet>, id: u128) -> Seq<Pet>
    decreases pets.len(),
{
    if pets.len() == 0 {
        Seq::empty()
    } else if pets.last().id == id {
        without(pets.drop_last(), id)
    } else {
        without(pets.drop_last(), id).push(pets.last())
    }
}

/// The identifier of the first pet, where there is one.
pub open spec fn first_id(pets: Seq<Pet>) -> Option<u128> {
    if pets.len() == 0 {
        None
    } else {
        Some(pets[0].id)
    }
}

/// Whether the active pet, where one is set, is among the pets.
pub open spec fn consistent(pets: Seq<Pet>, active: Option<u128>) -> bool {
    match active {
        Some(id) => has_pet(pets, id),
        None => true,
    }
}

/// Taking the pets with one identifier out leaves none with it, and every
/// pet with another.
pub proof fn lemma_without(pets: Seq<Pet>, id: u128)
    ensures
        !has_pet(without(pets, id), id),
        forall|other: u128|
            other != id ==> (#[trigger] has_pet(without(pets, id), other) == has_pet(
                pets,
                other,
            )),
        without(pets, id).len() <= pets.len(),
    decreases pets.len(),
{
    if pets.len() > 0 {
        let front = pets.drop_last();
        let last = pets.last();
        lemma_without(front, id);
        let kept = without(front, id);
        let all = without(pets, id);
        assert forall|other: u128| other != id implies (#[trigger] has_pet(all, other) == has_pet(
            pets,
            other,
        )) by {
            if has_pet(all, other) {
                let i = choose|i: int| 0 <= i < all.len() && all[i].id == other;
                if i < kept.len() {
                    assert(kept[i].id == other);
                    assert(has_pet(kept, other));
                    let j = choose|j: int| 0 <= j < front.len() && front[j].id == other;
                    assert(pets[j].id == other);
                } else {
                    assert(pets[pets.len() - 1].id == other);
                }
            }
            if has_pet(pets, other) {
                let j = choose|j: int| 0 <= j < pets.len() && pets[j].id == other;
                if j < front.len() {
                    assert(front[j].id == other);
                    assert(has_pet(kept, other));
                    let i = choose|i: int| 0 <= i < kept.len() && kept[i].id == other;
                    assert(all[i].id == other);
                } else {
                    assert(all[all.len() - 1].id == other);
                }
            }
        }
        if has_pet(all, id) {
            let i = choose|i: int| 0 <= i < all.len() && all[i].id == id;
            assert(kept[i].id == id);
        }
    }
}

/// The settings that a flat file stands for: what it holds, each in its
/// group, and the default for everything else.
pub fn migrate_from_legacy(legacy: LegacyAppConfig) -> (r: AppConfig)
    ensures
        r.general.auto_start == legacy.auto_start,
        r.general.language@ == "en"@,
        r.appearance == (AppearanceSettings {
            pet_scale: legacy.pet_scale,
            pet_position: legacy.pet_position,
            ..AppearanceSettings::spec_default()
        }),
        r.ai.is_default(),
        r.meshy.api_key == legacy.meshy_api_key,
        r.pets == legacy.pets,
        r.active_pet == legacy.active_pet,
{
    AppConfig {
        general: GeneralSettings { auto_start: legacy.auto_start, language: default_language() },
        appearance: AppearanceSettings {
            pet_scale: legacy.pet_scale,
            pet_position: legacy.pet_position,
            always_on_top: true,
            opacity: ONE,
        },
        ai: AiSettings::default(),
        meshy: MeshySettings { api_key: legacy.meshy_api_key },
        pets: legacy.pets,
        active_pet: legacy.active_pet,
    }
}

/// Whether `key` is a name that only a flat file has at its top.
pub open spec fn legacy_key(key: Seq<char>) -> bool {
    key == "pet_scale"@ || key == "auto_start"@ || key == "meshy_api_key"@
}

/// Whether a settings file with these names at its top is in the flat
/// form: one of them is a name that only a flat file has there.
pub fn is_legacy(keys: &Vec<String>) -> (r: bool)
    ensures
        r == exists|i: int| 0 <= i < keys@.len() && legacy_key(#[trigger] keys@[i]@),
{
    let mut i: usize = 0;
    while i < keys.len()
        invariant
            i <= keys.len(),
            forall|j: int| 0 <= j < i ==> !legacy_key(#[trigger] keys@[j]@),
        decreases keys.len() - i,
    {
        let key: &str = keys[i].as_str();
        if text_eq(key, "pet_scale") || text_eq(key, "auto_start") || text_eq(
            key,
            "meshy_api_key",
        ) {
            assert(legacy_key(keys@[i as int]@));
            return true;
        }
        i += 1;
    }
    false
}

impl AppConfig {
    /// Default settings, no pet, none active.
    pub open spec fn is_default(&self) -> bool {
        &&& !self.general.auto_start
        &&& self.general.language@ == "en"@
        &&& self.appearance == AppearanceSettings::spec_default()
        &&& self.ai.is_default()
        &&& self.meshy.api_key is None
        &&& self.pets@.len() == 0
        &&& self.active_pet is None
    }

    /// The settings to go on with, and whether they have to be written
    /// back: the defaults where there is no file, what a flat file stands
    /// for, to be written in the grouped form, and what a grouped file
    /// holds.
    pub fn load(stored: StoredConfig) -> (r: (AppConfig, bool))
        ensures
            match stored {
                StoredConfig::Missing => r.0.is_default() && !r.1,
                StoredConfig::Legacy(legacy) => {
                    &&& r.1
                    &&& r.0.general.auto_start == legacy.auto_start
                    &&& r.0.general.language@ == "en"@
                    &&& r.0.appearance == (AppearanceSettings {
                        pet_scale: legacy.pet_scale,
                        pet_position: legacy.pet_position,
                        ..AppearanceSettings::spec_default()
                    })
                    &&& r.0.ai.is_default()
                    &&& r.0.meshy.api_key == legacy.meshy_api_key
                    &&& r.0.pets == legacy.pets
                    &&& r.0.active_pet == legacy.active_pet
                },
                StoredConfig::Current(config) => r.0 == config && !r.1,
            },
    {
        match stored {
            StoredConfig::Missing => (AppConfig::default(), false),
            StoredConfig::Legacy(legacy) => (migrate_from_legacy(legacy), true),
            StoredConfig::Current(config) => (config, false),
        }
    }

    /// Puts a pet at the end of the list.
    pub fn add_pet(&mut self, pet: Pet)
        ensures
            final(self).pets@ == old(self).pets@.push(pet),
            final(self).active_pet == old(self).active_pet,
            final(self).general == old(self).general,
            final(self).appearance == old(self).appearance,
            final(self).ai == old(self).ai,
            final(self).meshy == old(self).meshy,
            consistent(old(self).pets@, old(self).active_pet) ==> consistent(
                final(self).pets@,
                final(self).active_pet,
            ),
    {
        proof {
            if let Some(id) = self.active_pet {
                if has_pet(self.pets@, id) {
                    let i = choose|i: int| 0 <= i < self.pets@.len() && self.pets@[i].id == id;
                    assert(self.pets@.push(pet)[i].id == id);
                }
            }
        }
        self.pets.push(pet);
    }

    /// Takes the pets with this identifier out of the list. Where the
    /// active pet was among them, the first pet that is left becomes the
    /// active one, or none where no pet is left.
    pub fn remove_pet(&mut self, pet_id: u128)
        ensures
            final(self).pets@ == without(old(self).pets@, pet_id),
            final(self).active_pet == (if old(self).active_pet == Some(pet_id) {
                first_id(without(old(self).pets@, pet_id))
            } else {
                old(self).active_pet
            }),
            final(self).general == old(self).general,
            final(self).appearance == old(self).appearance,
            final(self).ai == old(self).ai,
            final(self).meshy == old(self).meshy,
            !has_pet(final(self).pets@, pet_id),
            consistent(old(self).pets@, old(self).active_pet) ==> consistent(
                final(self).pets@,
                final(self).active_pet,
            ),
    {
        let ghost before = *self;
        let ghost all = self.pets@;
        let ghost mut seen: int = 0;
        let mut i: usize = 0;
        proof {
            assert(all.take(0) =~= Seq::<Pet>::empty());
            assert(all.skip(0) =~= all);
            assert(without(all.take(0), pet_id) + all.skip(0) =~= all);
        }
        while i < self.pets.len()
            invariant
                0 <= seen <= all.len(),
                i == without(all.take(seen), pet_id).len(),
                self.pets@ == without(all.take(seen), pet_id) + all.skip(seen),
                self.active_pet == before.active_pet,
                self.general == before.general,
                self.appearance == before.appearance,
                self.ai == before.ai,
                self.meshy == before.meshy,
            decreases all.len() - seen,
        {
            let ghost kept = without(all.take(seen), pet_id);
            proof {
                assert(seen < all.len());
                assert(self.pets@[i as int] == all.skip(seen)[0]);
                assert(all.take(seen + 1).drop_last() =~= all.take(seen));
                assert(all.take(seen + 1).last() == all[seen]);
            }
            if self.pets[i].id == pet_id {
                self.pets.remove(i);
                proof {
                    assert(self.pets@ =~= kept + all.skip(seen + 1));
                    seen = seen + 1;
                }
            } else {
                proof {
                    assert(self.pets@ =~= kept.push(all[seen]) + all.skip(seen + 1));
                    seen = seen + 1;
                }
                i += 1;
            }
        }
        proof {
            assert(seen == all.len());
            assert(all.take(seen) =~= all);
            assert(self.pets@ =~= without(all, pet_id));
            lemma_without(all, pet_id);
        }
        if self.active_pet == Some(pet_id) {
            if self.pets.len() > 0 {
                self.active_pet = Some(self.pets[0].id);
                assert(has_pet(self.pets@, self.pets@[0].id));
            } else {
                self.active_pet = None;
            }
        }
    }

    /// The first pet with this identifier.
    #[must_use]
    pub fn get_pet(&self, pet_id: u128) -> (r: Option<&Pet>)
        ensures
            match r {
                Some(pet) => exists|i: int|
                    first_with(self.pets@, pet_id, i) && *pet == self.pets@[i],
                None => !has_pet(self.pets@, pet_id),
            },
    {
        let mut i: usize = 0;
        while i < self.pets.len()
            invariant
                i <= self.pets@.len(),
                forall|j: int| 0 <= j < i ==> self.pets@[j].id != pet_id,
            decreases self.pets.len() - i,
        {
            if self.pets[i].id == pet_id {
                assert(first_with(self.pets@, pet_id, i as int));
                return Some(&self.pets[i]);
            }
            i += 1;
        }
        None
    }

    /// The first pet with the active pet's identifier.
    #[must_use]
    pub fn get_active_pet(&self) -> (r: Option<&Pet>)
        ensures
            match r {
                Some(pet) => exists|id: u128, i: int|
                    self.active_pet == Some(id) && first_with(self.pets@, id, i) && *pet
                        == self.pets@[i],
                None => match self.active_pet {
                    Some(id) => !has_pet(self.pets@, id),
                    None => true,
                },
            },
    {
        match self.active_pet {
            Some(id) => self.get_pet(id),
            None => None,
        }
    }

    /// Makes the pet with this identifier the active one, where there is
    /// such a pet, and changes nothing where there is none.
    pub fn set_active_pet(&mut self, pet_id: u128)
        ensures
            final(self).active_pet == (if has_pet(old(self).pets@, pet_id) {
                Some(pet_id)
            } else {
                old(self).active_pet
            }),
            final(self).pets == old(self).pets,
            final(self).general == old(self).general,
            final(self).appearance == old(self).appearance,
            final(self).ai == old(self).ai,
            final(self).meshy == old(self).meshy,
            consistent(old(self).pets@, old(self).active_pet) ==> consistent(
                final(self).pets@,
                final(self).active_pet,
            ),
    {
        if self.get_pet(pet_id).is_some() {
            self.active_pet = Some(pet_id);
        }
    }
}

impl Default for AppConfig {
    fn default() -> (r: Self)
        ensures
            r.is_default(),
    {
        AppConfig {
            general: GeneralSettings::default(),
            appearance: AppearanceSettings::default(),
            ai: AiSettings::default(),
            meshy: MeshySettings::default(),
            pets: Vec::new(),
            active_pet: None,
        }
    }
}

} // verus!

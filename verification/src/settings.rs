//! Runtime toggles: a mapping from key to value, both text.
use vstd::prelude::*;
use crate::text::text_view;

verus! {

/// One stored toggle.
pub struct Setting {
    pub key: String,
    pub value: String,
}

/// The value stored under `key` in a list of toggles: that of the first
/// entry with that key.
pub open spec fn stored(entries: Seq<Setting>, key: Seq<char>) -> Option<Seq<char>>
    decreases entries.len(),
{
    if entries.len() == 0 {
        None
    } else if entries[0].key@ == key {
        Some(entries[0].value@)
    } else {
        stored(entries.drop_first(), key)
    }
}

/// Where no entry before `k` has the key, the stored value is the one found
/// from `k` on.
pub proof fn lemma_stored_skip(entries: Seq<Setting>, key: Seq<char>, k: int)
    requires
        0 <= k <= entries.len(),
        forall|j: int| 0 <= j < k ==> (#[trigger] entries[j]).key@ != key,
    ensures
        stored(entries, key) == stored(entries.subrange(k, entries.len() as int), key),
    decreases k,
{
    if k > 0 {
        let rest = entries.drop_first();
        assert forall|j: int| 0 <= j < k - 1 implies (#[trigger] rest[j]).key@ != key by {
            assert(rest[j] == entries[j + 1]);
        }
        lemma_stored_skip(rest, key, k - 1);
        assert(rest.subrange(k - 1, rest.len() as int) =~= entries.subrange(
            k,
            entries.len() as int,
        ));
    } else {
        assert(entries.subrange(0, entries.len() as int) =~= entries);
    }
}

/// Replacing the value of the first entry that has `key` changes what is
/// stored under `key`, and nothing else.
pub proof fn lemma_stored_after_replace(
    entries: Seq<Setting>,
    k: int,
    entry: Setting,
    other: Seq<char>,
)
    requires
        0 <= k < entries.len(),
        entries[k].key@ == entry.key@,
        forall|j: int| 0 <= j < k ==> (#[trigger] entries[j]).key@ != entry.key@,
    ensures
        stored(entries.update(k, entry), other) == if other == entry.key@ {
            Some(entry.value@)
        } else {
            stored(entries, other)
        },
    decreases k,
{
    let after = entries.update(k, entry);
    if k == 0 {
        assert(after.drop_first() =~= entries.drop_first());
    } else {
        let rest = entries.drop_first();
        assert forall|j: int| 0 <= j < k - 1 implies (#[trigger] rest[j]).key@ != entry.key@ by {
            assert(rest[j] == entries[j + 1]);
        }
        lemma_stored_after_replace(rest, k - 1, entry, other);
        assert(after.drop_first() =~= rest.update(k - 1, entry));
    }
}

/// Adding an entry whose key is not yet present changes what is stored
/// under that key, and nothing else.
pub proof fn lemma_stored_after_push(entries: Seq<Setting>, entry: Setting, other: Seq<char>)
    requires
        forall|j: int| 0 <= j < entries.len() ==> (#[trigger] entries[j]).key@ != entry.key@,
    ensures
        stored(entries.push(entry), other) == if other == entry.key@ {
            Some(entry.value@)
        } else {
            stored(entries, other)
        },
    decreases entries.len(),
{
    let after = entries.push(entry);
    if entries.len() == 0 {
        assert(after.drop_first() =~= entries);
    } else {
        let rest = entries.drop_first();
        assert forall|j: int| 0 <= j < rest.len() implies (#[trigger] rest[j]).key@
            != entry.key@ by {
            assert(rest[j] == entries[j + 1]);
        }
        lemma_stored_after_push(rest, entry, other);
        assert(after.drop_first() =~= rest.push(entry));
    }
}

/// The runtime toggles of the console.
///
/// Its value is a map from key to value. The keys in use are `current_db`,
/// `show_data_types`, `collect_postgres_facts`, `collect_citus_facts`,
/// `collect_patroni_facts` and `check_cluster_consistency`.
pub struct SettingsProvider {
    settings: Vec<Setting>,
}

impl View for SettingsProvider {
    type V = Map<Seq<char>, Seq<char>>;

    closed spec fn view(&self) -> Map<Seq<char>, Seq<char>> {
        Map::new(
            |key: Seq<char>| stored(self.settings@, key) is Some,
            |key: Seq<char>| stored(self.settings@, key)->0,
        )
    }
}

/// What a map holds under a key, if anything.
pub open spec fn value_at(settings: Map<Seq<char>, Seq<char>>, key: Seq<char>) -> Option<
    Seq<char>,
> {
    if settings.contains_key(key) {
        Some(settings[key])
    } else {
        None
    }
}

/// How a toggle reads: unset where the key is absent, else whether its value
/// is the text `true`.
pub open spec fn toggle_at(settings: Map<Seq<char>, Seq<char>>, key: Seq<char>) -> Option<bool> {
    match value_at(settings, key) {
        Some(value) => Some(value == "true"@),
        None => None,
    }
}

impl SettingsProvider {
    /// No toggle set.
    pub fn new() -> (provider: Self)
        ensures
            provider@ == Map::<Seq<char>, Seq<char>>::empty(),
    {
        let provider = SettingsProvider { settings: Vec::new() };
        assert(provider@ =~= Map::<Seq<char>, Seq<char>>::empty());
        provider
    }

    fn position(&self, key: &str) -> (k: usize)
        ensures
            k <= self.settings.len(),
            forall|j: int| 0 <= j < k ==> (#[trigger] self.settings@[j]).key@ != key@,
            k < self.settings.len() ==> self.settings@[k as int].key@ == key@,
            stored(self.settings@, key@) == if k < self.settings.len() {
                Some(self.settings@[k as int].value@)
            } else {
                None
            },
    {
        let mut k: usize = 0;
        while k < self.settings.len() && !crate::text::same_text(
            self.settings[k].key.as_str(),
            key,
        )
            invariant
                k <= self.settings.len(),
                forall|j: int| 0 <= j < k ==> (#[trigger] self.settings@[j]).key@ != key@,
            decreases self.settings.len() - k,
        {
            k += 1;
        }
        proof {
            lemma_stored_skip(self.settings@, key@, k as int);
        }
        k
    }

    /// The value stored under `key`, if any.
    pub fn get_key(&self, key: String) -> (value: Option<String>)
        ensures
            text_view(value) == value_at(self@, key@),
    {
        let k = self.position(key.as_str());
        if k < self.settings.len() {
            Some(self.settings[k].value.clone())
        } else {
            None
        }
    }

    /// Stores `value` under `key`, in place of what was stored there.
    pub fn set_key(&mut self, key: String, value: String)
        ensures
            final(self)@ == old(self)@.insert(key@, value@),
    {
        let k = self.position(key.as_str());
        let entry = Setting { key, value };
        if k < self.settings.len() {
            self.settings[k] = entry;
            proof {
                assert forall|other: Seq<char>|
                    stored(self.settings@, other) == if other == entry.key@ {
                        Some(entry.value@)
                    } else {
                        stored(old(self).settings@, other)
                    } by {
                    lemma_stored_after_replace(old(self).settings@, k as int, entry, other);
                }
            }
        } else {
            self.settings.push(entry);
            proof {
                assert forall|other: Seq<char>|
                    stored(self.settings@, other) == if other == entry.key@ {
                        Some(entry.value@)
                    } else {
                        stored(old(self).settings@, other)
                    } by {
                    lemma_stored_after_push(old(self).settings@, entry, other);
                }
            }
        }
        assert(self@ =~= old(self)@.insert(entry.key@, entry.value@));
    }

    /// How the toggle `key` reads: `None` where it is not set, else whether
    /// its value is the text `true`.
    pub fn toggle(&self, key: &str) -> (state: Option<bool>)
        ensures
            state == toggle_at(self@, key@),
    {
        let k = self.position(key);
        if k < self.settings.len() {
            Some(crate::text::same_text(self.settings[k].value.as_str(), "true"))
        } else {
            None
        }
    }
}

/// A value written under a key is the value read under that key next,
/// whatever was stored before and whatever other keys were read in between:
/// reading changes nothing.
pub proof fn law_read_after_write(
    settings: Map<Seq<char>, Seq<char>>,
    key: Seq<char>,
    value: Seq<char>,
)
    ensures
        value_at(settings.insert(key, value), key) == Some(value),
        forall|other: Seq<char>|
            other != key ==> value_at(settings.insert(key, value), other) == value_at(
                settings,
                other,
            ),
{
}

/// Where the console would keep its settings on disk.
pub struct SettingsManager {
    _settings_file_name: String,
}

impl SettingsManager {
    pub fn new(settings_file_name: &str) -> (manager: Self)
        ensures
            manager.file_name() == settings_file_name@,
    {
        Self { _settings_file_name: settings_file_name.to_owned() }
    }

    /// The name of the settings file.
    pub closed spec fn file_name(&self) -> Seq<char> {
        self._settings_file_name@
    }
}

/// Where the console would keep its secrets on disk.
pub struct SecretsManager {
    _secrets_file_name: String,
}

impl SecretsManager {
    pub fn new(secrets_file_name: &str) -> (manager: Self)
        ensures
            manager.file_name() == secrets_file_name@,
    {
        Self { _secrets_file_name: secrets_file_name.to_owned() }
    }

    /// The name of the secrets file.
    pub closed spec fn file_name(&self) -> Seq<char> {
        self._secrets_file_name@
    }
}

} // verus!

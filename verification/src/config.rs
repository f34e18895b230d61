//! Per-repository settings read from `moat.toml`.
use vstd::prelude::*;

use crate::text::{str_eq, views};

verus! {

/// Whether a check is enabled for a repository.
#[derive(Clone, Copy, Debug, PartialEq, Eq, Structural)]
pub enum CheckState {
    On,
    Off,
}

/// The contents of a `moat.toml` as the TOML reader hands them over, with
/// the entries of each table in file order.
pub struct RawConfig {
    pub checks: Vec<(String, String)>,
    pub release_branches: Vec<String>,
    pub workflow_permissions: Vec<(String, Vec<String>)>,
}

/// Why a `moat.toml` was rejected.
pub enum ConfigError {
    /// The file is not valid TOML of the expected shape; the reader's message.
    Syntax(String),
    /// `[checks]` names a check that does not exist.
    UnknownCheck(String),
    /// `[checks]` gives a check a value other than `on` or `off`.
    InvalidValue { id: String, value: String },
}

/// A repository's `moat.toml` is invalid; the whole run stops on it.
pub struct InvalidConfigError {
    pub org_repo: String,
    pub source: ConfigError,
}

/// The settings of one repository. Entries keep the file order; a later
/// entry for the same key wins.
pub struct Config {
    checks: Vec<(String, CheckState)>,
    release_branches: Vec<String>,
    workflow_permissions_known_actions: Vec<(String, Vec<String>)>,
}

/// The value of the last entry for `key` (the map a sequence of insertions builds).
pub open spec fn last_value<V>(entries: Seq<(Seq<char>, V)>, key: Seq<char>) -> Option<V>
    decreases entries.len(),
{
    if entries.len() == 0 {
        None
    } else if entries.last().0 == key {
        Some(entries.last().1)
    } else {
        last_value(entries.drop_last(), key)
    }
}

/// `on` and `off`, the two accepted values of a check entry.
pub open spec fn state_value(v: Seq<char>) -> Option<CheckState> {
    if v == "on"@ {
        Some(CheckState::On)
    } else if v == "off"@ {
        Some(CheckState::Off)
    } else {
        None
    }
}

pub open spec fn raw_checks(raw: RawConfig) -> Seq<(Seq<char>, Seq<char>)> {
    raw.checks@.map_values(|e: (String, String)| (e.0@, e.1@))
}

pub open spec fn lists_view(v: Seq<(String, Vec<String>)>) -> Seq<(Seq<char>, Seq<Seq<char>>)> {
    v.map_values(|e: (String, Vec<String>)| (e.0@, views(e.1@)))
}

pub open spec fn strs_view(v: Seq<&str>) -> Seq<Seq<char>> {
    v.map_values(|s: &str| s@)
}

/// The id a check is known by. The pinned-actions check is documented as
/// `repositories_workflow_actions_are_pinned` and also answers to its former
/// id `repositories_workflow_actions_are_sha_pinned`; every other id is its
/// own.
pub open spec fn canonical_id(id: Seq<char>) -> Seq<char> {
    if id == "repositories_workflow_actions_are_sha_pinned"@ {
        "repositories_workflow_actions_are_pinned"@
    } else {
        id
    }
}

/// `id` names a check in `known`, under either of its names.
pub open spec fn names_known(id: Seq<char>, known: Seq<Seq<char>>) -> bool {
    exists|k: int| 0 <= k < known.len() && canonical_id(#[trigger] known[k]) == canonical_id(id)
}

/// The entries with each check id replaced by the id it is known by.
pub open spec fn canonical_entries(entries: Seq<(Seq<char>, Seq<char>)>) -> Seq<(Seq<char>, Seq<char>)> {
    entries.map_values(|e: (Seq<char>, Seq<char>)| (canonical_id(e.0), e.1))
}

/// `canonical_id`.
pub fn canonical_check_id<'a>(id: &'a str) -> (r: &'a str)
    ensures
        r@ == canonical_id(id@),
{
    if str_eq(id, "repositories_workflow_actions_are_sha_pinned") {
        "repositories_workflow_actions_are_pinned"
    } else {
        id
    }
}

/// An entry of `[checks]` that is accepted: a known id with value `on` or `off`.
pub open spec fn entry_ok(entry: (Seq<char>, Seq<char>), known: Seq<Seq<char>>) -> bool {
    names_known(entry.0, known) && state_value(entry.1) is Some
}

/// The error for an entry that is not accepted.
pub open spec fn entry_error(entry: (Seq<char>, Seq<char>), known: Seq<Seq<char>>) -> ConfigErrorView {
    if !names_known(entry.0, known) {
        ConfigErrorView::UnknownCheck(entry.0)
    } else {
        ConfigErrorView::InvalidValue(entry.0, entry.1)
    }
}

/// A `ConfigError` with its strings as character sequences.
pub enum ConfigErrorView {
    Syntax(Seq<char>),
    UnknownCheck(Seq<char>),
    InvalidValue(Seq<char>, Seq<char>),
}

impl View for ConfigError {
    type V = ConfigErrorView;

    open spec fn view(&self) -> ConfigErrorView {
        match self {
            ConfigError::Syntax(m) => ConfigErrorView::Syntax(m@),
            ConfigError::UnknownCheck(id) => ConfigErrorView::UnknownCheck(id@),
            ConfigError::InvalidValue { id, value } => ConfigErrorView::InvalidValue(id@, value@),
        }
    }
}

/// The message of a rejected `moat.toml`.
pub open spec fn error_message(e: ConfigErrorView) -> Seq<char> {
    match e {
        ConfigErrorView::Syntax(m) => "Invalid moat.toml: "@ + m,
        ConfigErrorView::UnknownCheck(id) => "Unknown check `"@ + id + "` in moat.toml"@,
        ConfigErrorView::InvalidValue(id, v) => "Invalid value `"@ + v + "` for check `"@ + id
            + "` in moat.toml — expected `on` or `off`"@,
    }
}

impl ConfigError {
    pub fn message(&self) -> (m: String)
        ensures
            m@ == error_message(self@),
    {
        let mut m = String::new();
        match self {
            ConfigError::Syntax(detail) => {
                m.append("Invalid moat.toml: ");
                m.append(detail.as_str());
            },
            ConfigError::UnknownCheck(id) => {
                m.append("Unknown check `");
                m.append(id.as_str());
                m.append("` in moat.toml");
            },
            ConfigError::InvalidValue { id, value } => {
                m.append("Invalid value `");
                m.append(value.as_str());
                m.append("` for check `");
                m.append(id.as_str());
                m.append("` in moat.toml — expected `on` or `off`");
            },
        }
        m
    }
}

impl InvalidConfigError {
    /// `Invalid moat.toml in <org>/<repo>: <reason>`.
    pub fn message(&self) -> (m: String)
        ensures
            m@ == "Invalid moat.toml in "@ + self.org_repo@ + ": "@ + error_message(self.source@),
    {
        let mut m = String::new();
        m.append("Invalid moat.toml in ");
        m.append(self.org_repo.as_str());
        m.append(": ");
        let reason = self.source.message();
        m.append(reason.as_str());
        m
    }
}

/// Built-in actions whose job-level write scopes are known to be required.
/// Users can extend or override these in `moat.toml` under `[workflow_permissions]`.
pub open spec fn builtin_writes(action: Seq<char>) -> Option<Seq<Seq<char>>> {
    if action == "actions/deploy-pages"@ {
        Some(seq!["pages"@, "id-token"@])
    } else {
        None
    }
}

/// Built-in actions whose job-level write scopes are known to be required.
/// Users can extend or override these in `moat.toml` under `[workflow_permissions]`.
pub fn builtin_known_actions() -> (m: Vec<(&'static str, Vec<&'static str>)>)
    ensures
        m@.len() == 1,
        m@[0].0@ == "actions/deploy-pages"@,
        strs_view(m@[0].1@) == builtin_writes("actions/deploy-pages"@).unwrap(),
{
    let mut m: Vec<(&'static str, Vec<&'static str>)> = Vec::new();
    let mut w: Vec<&'static str> = Vec::new();
    w.push("pages");
    w.push("id-token");
    m.push(("actions/deploy-pages", w));
    assert(strs_view(m@[0].1@) =~= seq!["pages"@, "id-token"@]);
    m
}

impl Config {
    pub closed spec fn check_entries(&self) -> Seq<(Seq<char>, CheckState)> {
        self.checks@.map_values(|e: (String, CheckState)| (e.0@, e.1))
    }

    /// The state `moat.toml` gives check `id` (under either of its names),
    /// if any.
    pub open spec fn state_of(&self, id: Seq<char>) -> Option<CheckState> {
        last_value(self.check_entries(), canonical_id(id))
    }

    /// The extra release branches, in file order.
    pub closed spec fn branches(&self) -> Seq<Seq<char>> {
        views(self.release_branches@)
    }

    /// The user's `[workflow_permissions]` entries.
    pub closed spec fn known_actions(&self) -> Seq<(Seq<char>, Seq<Seq<char>>)> {
        lists_view(self.workflow_permissions_known_actions@)
    }

    /// The write scopes known to be required by `action`: the user's entry
    /// when there is one, else the built-in one.
    pub open spec fn writes_for(&self, action: Seq<char>) -> Option<Seq<Seq<char>>> {
        match last_value(self.known_actions(), action) {
            Some(w) => Some(w),
            None => builtin_writes(action),
        }
    }

    /// The configuration of a repository without a `moat.toml`.
    pub open spec fn is_default(&self) -> bool {
        self.check_entries().len() == 0 && self.branches().len() == 0
            && self.known_actions().len() == 0
    }

    /// `self` is what `raw` gives once every `[checks]` entry in it has been
    /// found to name one of `known` and to be `on` or `off`: each check has the
    /// state of its last entry, and the other settings are taken as they are.
    pub open spec fn validated_from(&self, raw: RawConfig, known: Seq<Seq<char>>) -> bool {
        &&& forall|i: int|
            0 <= i < raw_checks(raw).len() ==> entry_ok(#[trigger] raw_checks(raw)[i], known)
        &&& forall|id: Seq<char>|
            #[trigger] self.state_of(id) == match last_value(
                canonical_entries(raw_checks(raw)),
                canonical_id(id),
            ) {
                Some(v) => state_value(v),
                None => None,
            }
        &&& self.branches() == views(raw.release_branches@)
        &&& self.known_actions() == lists_view(raw.workflow_permissions@)
    }

    /// Validates the entries of a `moat.toml`: every `[checks]` entry must
    /// name a known check and be `on` or `off`. The first entry (in the order
    /// the entries are given) that is not is reported.
    pub fn from_raw(raw: RawConfig, known_check_ids: &[&str]) -> (r: Result<Config, ConfigError>)
        ensures
            match r {
                Ok(c) => c.validated_from(raw, strs_view(known_check_ids@)),
                Err(e) => exists|i: int|
                    0 <= i < raw_checks(raw).len() && (forall|j: int|
                        0 <= j < i ==> entry_ok(
                            #[trigger] raw_checks(raw)[j],
                            strs_view(known_check_ids@),
                        )) && !entry_ok(raw_checks(raw)[i], strs_view(known_check_ids@))
                        && e@ == entry_error(raw_checks(raw)[i], strs_view(known_check_ids@)),
            },
    {
        let ghost known = strs_view(known_check_ids@);
        let ghost entries = raw_checks(raw);
        let mut checks: Vec<(String, CheckState)> = Vec::new();
        let mut i: usize = 0;
        while i < raw.checks.len()
            invariant
                i <= raw.checks@.len(),
                entries == raw_checks(raw),
                known == strs_view(known_check_ids@),
                checks@.len() == i,
                forall|j: int| 0 <= j < i ==> entry_ok(#[trigger] entries[j], known),
                forall|j: int|
                    0 <= j < i ==> (#[trigger] checks@[j]).0@ == canonical_id(entries[j].0)
                        && state_value(entries[j].1) == Some(checks@[j].1),
            decreases raw.checks@.len() - i,
        {
            let id = &raw.checks[i].0;
            let value = &raw.checks[i].1;
            let canon = canonical_check_id(id.as_str());
            let mut is_known = false;
            let mut k: usize = 0;
            while k < known_check_ids.len()
                invariant
                    k <= known_check_ids@.len(),
                    known == strs_view(known_check_ids@),
                    canon@ == canonical_id(id@),
                    is_known ==> names_known(id@, known),
                    !is_known ==> forall|q: int|
                        0 <= q < k ==> canonical_id(#[trigger] known[q]) != canonical_id(id@),
                decreases known_check_ids@.len() - k,
            {
                let known_canon = canonical_check_id(known_check_ids[k]);
                if str_eq(known_canon, canon) {
                    is_known = true;
                    assert(canonical_id(known[k as int]) == canonical_id(id@));
                }
                k += 1;
            }
            if !is_known {
                assert(!names_known(id@, known));
                assert(!entry_ok(entries[i as int], known));
                return Err(ConfigError::UnknownCheck(id.clone()));
            }
            let state = if str_eq(value.as_str(), "on") {
                CheckState::On
            } else if str_eq(value.as_str(), "off") {
                CheckState::Off
            } else {
                assert(!entry_ok(entries[i as int], known));
                return Err(ConfigError::InvalidValue { id: id.clone(), value: value.clone() });
            };
            checks.push((canon.to_owned(), state));
            i += 1;
        }
        let c = Config {
            checks,
            release_branches: raw.release_branches,
            workflow_permissions_known_actions: raw.workflow_permissions,
        };
        proof {
            let ce = canonical_entries(entries);
            assert(c.check_entries() =~= ce.map_values(
                |e: (Seq<char>, Seq<char>)| (e.0, state_value(e.1).unwrap()),
            ));
            assert forall|id: Seq<char>|
                #[trigger] c.state_of(id) == match last_value(ce, canonical_id(id)) {
                    Some(v) => state_value(v),
                    None => None,
                } by {
                lemma_last_value_map(ce, canonical_id(id));
            }
        }
        Ok(c)
    }

    /// Whether `moat.toml` turns check `check_id` off (under either of its
    /// names).
    pub fn is_off(&self, check_id: &str) -> (b: bool)
        ensures
            b == (self.state_of(check_id@) == Some(CheckState::Off)),
    {
        let id = canonical_check_id(check_id);
        let mut i = self.checks.len();
        assert(self.check_entries().take(i as int) =~= self.check_entries());
        while i > 0
            invariant
                i <= self.checks@.len(),
                id@ == canonical_id(check_id@),
                last_value(self.check_entries(), id@) == last_value(
                    self.check_entries().take(i as int),
                    id@,
                ),
            decreases i,
        {
            let ghost prefix = self.check_entries().take(i as int);
            assert(prefix.last() == (self.checks@[i - 1].0@, self.checks@[i - 1].1));
            if str_eq(self.checks[i - 1].0.as_str(), id) {
                return match self.checks[i - 1].1 {
                    CheckState::Off => true,
                    CheckState::On => false,
                };
            }
            assert(prefix.drop_last() =~= self.check_entries().take(i - 1));
            i -= 1;
        }
        false
    }

    pub fn release_branches(&self) -> (r: &[String])
        ensures
            views(r@) == self.branches(),
    {
        self.release_branches.as_slice()
    }

    /// Look up the write scopes that are known to be required by a given action.
    /// Built-in defaults are always present; user config entries override when
    /// the same action prefix is specified.
    pub fn known_action_writes(&self, action_uses: &str) -> (r: Option<Vec<&str>>)
        ensures
            match r {
                Some(w) => self.writes_for(action_uses@) == Some(strs_view(w@)),
                None => self.writes_for(action_uses@) is None,
            },
    {
        let mut i = self.workflow_permissions_known_actions.len();
        assert(self.known_actions().take(i as int) =~= self.known_actions());
        while i > 0
            invariant
                i <= self.workflow_permissions_known_actions@.len(),
                last_value(self.known_actions(), action_uses@) == last_value(
                    self.known_actions().take(i as int),
                    action_uses@,
                ),
            decreases i,
        {
            let ghost prefix = self.known_actions().take(i as int);
            let entry = &self.workflow_permissions_known_actions[i - 1];
            assert(prefix.last() == (entry.0@, views(entry.1@)));
            if str_eq(entry.0.as_str(), action_uses) {
                let mut out: Vec<&str> = Vec::new();
                let mut k: usize = 0;
                while k < entry.1.len()
                    invariant
                        k <= entry.1@.len(),
                        out@.len() == k,
                        strs_view(out@) == views(entry.1@).take(k as int),
                    decreases entry.1@.len() - k,
                {
                    let ghost before = out@;
                    let scope: &str = entry.1[k].as_str();
                    assert(scope@ == views(entry.1@)[k as int]);
                    out.push(scope);
                    assert(out@ == before.push(scope));
                    assert(before.len() == k);
                    assert(out@.len() == k + 1);
                    assert(strs_view(out@).len() == k + 1);
                    assert(strs_view(out@)[k as int] == scope@);
                    assert forall|j: int| 0 <= j < k implies strs_view(out@)[j] == strs_view(
                        before,
                    )[j] by {
                        assert(out@[j] == before[j]);
                    }
                    assert(strs_view(out@) =~= views(entry.1@).take(k + 1));
                    k += 1;
                }
                assert(views(entry.1@).take(entry.1@.len() as int) =~= views(entry.1@));
                return Some(out);
            }
            assert(prefix.drop_last() =~= self.known_actions().take(i - 1));
            i -= 1;
        }
        assert(self.known_actions().take(0) =~= Seq::<(Seq<char>, Seq<Seq<char>>)>::empty());
        let mut builtin = builtin_known_actions();
        if str_eq(builtin[0].0, action_uses) {
            let (_, w) = builtin.remove(0);
            return Some(w);
        }
        None
    }
}

/// `last_value` commutes with mapping the values.
proof fn lemma_last_value_map(entries: Seq<(Seq<char>, Seq<char>)>, id: Seq<char>)
    requires
        forall|j: int| 0 <= j < entries.len() ==> state_value(#[trigger] entries[j].1) is Some,
    ensures
        last_value(
            entries.map_values(|e: (Seq<char>, Seq<char>)| (e.0, state_value(e.1).unwrap())),
            id,
        ) == match last_value(entries, id) {
            Some(v) => state_value(v),
            None => None,
        },
    decreases entries.len(),
{
    let mapped = entries.map_values(|e: (Seq<char>, Seq<char>)| (e.0, state_value(e.1).unwrap()));
    if entries.len() > 0 {
        assert(mapped.drop_last() =~= entries.drop_last().map_values(
            |e: (Seq<char>, Seq<char>)| (e.0, state_value(e.1).unwrap()),
        ));
        lemma_last_value_map(entries.drop_last(), id);
    }
}

impl Default for Config {
    fn default() -> (c: Config)
        ensures
            c.is_default(),
    {
        let c = Config {
            checks: Vec::new(),
            release_branches: Vec::new(),
            workflow_permissions_known_actions: Vec::new(),
        };
        assert(c.check_entries() =~= Seq::empty());
        assert(c.branches() =~= Seq::empty());
        assert(c.known_actions() =~= Seq::empty());
        c
    }
}


/// A check is turned off exactly when the last `[checks]` entry for it, under
/// either of its names, says `off`; a check that `moat.toml` does not name
/// stays on.
pub proof fn checks_are_on_unless_turned_off(
    raw: RawConfig,
    known: Seq<Seq<char>>,
    c: Config,
    id: Seq<char>,
)
    requires
        c.validated_from(raw, known),
    ensures
        (c.state_of(id) == Some(CheckState::Off)) <==> last_value(
            canonical_entries(raw_checks(raw)),
            canonical_id(id),
        ) == Some("off"@),
        last_value(canonical_entries(raw_checks(raw)), canonical_id(id)) is None ==> c.state_of(
            id,
        ) is None,
{
    reveal_strlit("off");
    reveal_strlit("on");
    let lv = last_value(canonical_entries(raw_checks(raw)), canonical_id(id));
    assert(c.state_of(id) == match lv {
        Some(v) => state_value(v),
        None => None,
    });
    match lv {
        Some(v) => {
            if v != "off"@ && v != "on"@ {
            } else if v == "on"@ {
                assert(v != "off"@) by {
                    assert(v.len() != "off"@.len());
                }
            }
        },
        None => {},
    }
}

/// The pinned-actions check answers alike to its documented id and to its
/// former id, in what `moat.toml` sets and in what is accepted.
pub proof fn pinned_check_answers_to_both_names(c: Config, known: Seq<Seq<char>>)
    ensures
        c.state_of("repositories_workflow_actions_are_sha_pinned"@) == c.state_of(
            "repositories_workflow_actions_are_pinned"@,
        ),
        names_known("repositories_workflow_actions_are_sha_pinned"@, known) == names_known(
            "repositories_workflow_actions_are_pinned"@,
            known,
        ),
{
    reveal_strlit("repositories_workflow_actions_are_sha_pinned");
    reveal_strlit("repositories_workflow_actions_are_pinned");
    assert("repositories_workflow_actions_are_pinned"@ != "repositories_workflow_actions_are_sha_pinned"@) by {
        assert("repositories_workflow_actions_are_pinned"@.len() != "repositories_workflow_actions_are_sha_pinned"@.len());
    }
}

/// The default settings turn no check off.
pub proof fn default_turns_nothing_off(c: Config, id: Seq<char>)
    requires
        c.is_default(),
    ensures
        c.state_of(id) is None,
{
    assert(c.check_entries().len() == 0);
}

} // verus!
